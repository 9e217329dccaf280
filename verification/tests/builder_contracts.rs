use sqlx_qb::builder::{
    delete_query, select_fields_query, select_query, update_query, QueryCommand,
    QuerySelectCommand, QB,
};
use sqlx_qb::error::QbError;
use sqlx_qb::extensions::{and, eq, or};
use sqlx_qb::map::{JsonKind, JsonValue, MapInput, QueryMap, QueryMapInput};
use sqlx_qb::model_args::{default_primary_column, to_snake_case, ModelArgs};
use sqlx_qb::modifiers::{FilterOperator, Modifiers, QuerySort, QuerySortDir};
use sqlx_qb::text::{decimal_string, join_strings, join_strs, text_eq, text_less};
use sqlx_qb::value::QueryValue;

fn json_str(s: &str) -> JsonValue {
    JsonValue { text: format!("\"{}\"", s), kind: JsonKind::Str(s.to_string()) }
}

fn json_other(text: &str) -> JsonValue {
    JsonValue { text: text.to_string(), kind: JsonKind::Other }
}

fn json_object(fields: Vec<(&str, JsonValue)>) -> JsonValue {
    JsonValue {
        text: String::from("{}"),
        kind: JsonKind::Object(fields.into_iter().map(|(k, v)| (k.to_string(), v)).collect()),
    }
}

fn pairs(m: &QueryMap) -> Vec<(String, String)> {
    let mut qb = QB::new().with_table_name("t");
    qb.update(m.clone()).unwrap();
    let sql = qb.sql_str();
    vec![(sql, qb.args().join("|"))]
}

#[test]
fn integer_values_are_written_in_decimal() {
    assert_eq!((-5i32).to_text(), "-5");
    assert_eq!(0u8.to_text(), "0");
    assert_eq!(i64::MIN.to_text(), "-9223372036854775808");
    assert_eq!(u64::MAX.to_text(), "18446744073709551615");
    assert_eq!(1207usize.to_text(), "1207");
    assert_eq!(true.to_text(), "true");
    assert_eq!('x'.to_text(), "x");
    assert_eq!(decimal_string(10), "10");
}

#[test]
fn eq_builds_an_equality_filter() {
    let f = eq("age", 42);
    assert_eq!(f.key(), "age");
    assert_eq!(f.value(), "42");
    let m = Modifiers::new().with_filter(f);
    assert_eq!(m.sql_str(&1), " WHERE age = $1");
}

#[test]
fn greater_than_filter() {
    let m = Modifiers::new().with_filter(eq("age", 18).with_op(FilterOperator::Gt));
    assert_eq!(m.sql_str(&4), " WHERE age > $4");
}

#[test]
fn and_or_join_filters() {
    let m = Modifiers::new().with_filter(("a", 1)).with_filter(and(("b", 2))).with_filter(or(("c", 3)));
    assert_eq!(m.sql_str(&1), " WHERE a = $1 AND b = $2 OR c = $3");
    assert_eq!(m.filters().len(), 3);
    assert_eq!(m.filters()[2].value(), "3");
}

#[test]
fn joiner_on_first_filter_is_kept() {
    let m = Modifiers::new().and(("a", 1));
    assert_eq!(m.sql_str(&1), " WHERE AND a = $1");
}

#[test]
fn leading_white_space_of_the_clauses_is_trimmed() {
    let m = Modifiers::new().with_filter(("  x", "v"));
    assert_eq!(m.sql_str(&1), " WHERE x = $1");
}

#[test]
fn empty_modifiers_add_nothing() {
    let m = Modifiers::default();
    assert_eq!(m.sql_str(&1), "");
}

#[test]
fn sort_and_limit() {
    let m = Modifiers::new()
        .with_limit(0)
        .with_sort(QuerySort::new(vec!["a", "b"], QuerySortDir::ASC))
        .with_filter(("id", 7));
    assert_eq!(m.sql_str(&2), " WHERE id = $2 ORDER BY a,b ASC LIMIT 0");
    assert_eq!(QuerySortDir::DESC.as_str(), "DESC");
    assert_eq!(FilterOperator::Eq.as_str(), "=");
}

#[test]
fn map_orders_columns_and_overwrites() {
    let mut a = QueryMap::new();
    a.add("name", "x");
    a.add("age", 1);
    a.add("B", true);
    let mut b = QueryMap::new();
    b.add("age", 1);
    b.add("B", true);
    b.add("name", "y");
    b.add("name", "x");
    assert_eq!(a.len(), 3);
    assert_eq!(pairs(&a), pairs(&b));
    assert_eq!(pairs(&a)[0].0, "UPDATE t SET B = $1, age = $2, name = $3");
    assert_eq!(pairs(&a)[0].1, "true|1|x");
}

#[test]
fn update_collects_map_then_filter_values() {
    let modifiers = Modifiers::new().with_filter(("id", 32)).and(eq("pid", "p"));
    let mut map = MapInput::new(None);
    map.add("name", "Demo User");
    map.add("age", 34);
    let mut qb = QB::new().with_modifiers(&modifiers).with_table_name("users");
    qb.update(map.to_map()).unwrap();
    assert_eq!(qb.args(), &vec!["34".to_string(), "Demo User".to_string(), "32".to_string(), "p".to_string()]);
    assert!(qb.placeholders_fit());
    // each statement binds its own arguments only
    qb.delete().unwrap();
    assert_eq!(qb.sql_str(), "DELETE FROM users WHERE id = $1 AND pid = $2");
    assert_eq!(qb.args(), &vec!["32".to_string(), "p".to_string()]);
}

#[test]
fn missing_table_name_is_an_error() {
    let mut qb = QB::new();
    assert_eq!(qb.table_name(), Err(QbError::MissingTableName));
    assert_eq!(qb.select_fields(vec!["id"]), Err(QbError::MissingTableName));
    assert_eq!(qb.select_scalar("id"), Err(QbError::MissingTableName));
    assert_eq!(qb.update(QueryMap::new()), Err(QbError::MissingTableName));
    assert_eq!(qb.delete(), Err(QbError::MissingTableName));
    assert_eq!(qb.sql_str(), "NULL");
    assert_eq!(QbError::MissingTableName.message(), "Missing table name. Call qb.set_table_name(value).");
}

#[test]
fn select_fields_and_scalar() {
    let mut qb = QB::new();
    qb.set_table_name("users");
    assert_eq!(qb.table_name(), Ok("users"));
    qb.select_fields(vec!["id", "name"]).unwrap();
    assert_eq!(qb.sql_str(), "SELECT id, name FROM users");
    qb.select_scalar_all("count(*)").unwrap();
    assert_eq!(qb.sql_str(), "SELECT count(*) FROM users");
    qb.select_fields_all(vec!["id"]).unwrap();
    assert_eq!(qb.sql_str(), "SELECT id FROM users");
}

#[test]
fn reset_modifiers_drops_the_clauses() {
    let modifiers = Modifiers::new().with_filter(("id", 1)).with_limit(3);
    let mut qb = QB::new().with_modifiers(&modifiers);
    qb.select("users");
    assert_eq!(qb.sql_str(), "SELECT * FROM users WHERE id = $1 LIMIT 3");
    assert!(qb.modifiers().is_some());
    qb.reset_modifiers();
    assert!(qb.modifiers().is_none());
    assert_eq!(qb.sql_str(), "SELECT * FROM users");
    qb.set_modifiers(&modifiers);
    assert_eq!(qb.sql_str(), "SELECT * FROM users WHERE id = $1 LIMIT 3");
}

#[test]
fn insert_drops_and_restores_modifiers() {
    let modifiers = Modifiers::new().with_filter(("id", 1));
    let mut qb = QB::new().with_modifiers(&modifiers).with_table_name("users");
    let mut map = QueryMap::new();
    map.add("name", "n");
    let saved = qb.begin_insert(Some("people".to_string()), map, None);
    assert_eq!(qb.sql_str(), "INSERT INTO people (name) VALUES ($1)");
    assert_eq!(qb.args(), &vec!["n".to_string(), "1".to_string()]);
    assert!(qb.modifiers().is_none());
    qb.end_insert(saved);
    assert!(qb.modifiers().is_some());
}

#[test]
fn statements_from_functions() {
    let m = Modifiers::new().with_filter(("id", 9));
    assert_eq!(select_query("users", &m).sql_str(), "SELECT * FROM users WHERE id = $1");
    assert_eq!(
        select_fields_query("users", vec!["a", "b"], &m).sql_str(),
        "SELECT a, b FROM users WHERE id = $1"
    );
    assert_eq!(delete_query("users", &m).sql_str(), "DELETE FROM users WHERE id = $1");
    let mut set = QueryMap::new();
    set.add("a", 1);
    let q = update_query("users", set, &m);
    assert_eq!(q.sql_str(), "UPDATE users SET a = $1 WHERE id = $2");
    assert_eq!(q.args(), &vec!["1".to_string(), "9".to_string()]);
    assert_eq!(q.modifiers().map(|m| m.filters().len()), Some(1));
}

#[test]
fn command_texts() {
    assert_eq!(QueryCommand::Null.sql(), "NULL");
    let mut map = QueryMap::new();
    map.add("b", 2);
    map.add("a", 1);
    let c = QueryCommand::Insert { table_name: "t".to_string(), map, returning: Some("id") };
    assert_eq!(c.sql(), "INSERT INTO t (a, b) VALUES ($1, $2) RETURNING id");
    assert_eq!(QueryCommand::Select(QuerySelectCommand::WildCard, "t").sql(), "SELECT * FROM t");
}

#[test]
fn json_objects_become_column_maps() {
    let v = json_object(vec![("b", json_other("[1,2]")), ("a", json_str("q\"s"))]);
    let m = QueryMap::from_value(&v).unwrap();
    assert_eq!(pairs(&m)[0].1, "q\"s|[1,2]");
    assert!(matches!(QueryMap::from_value(&json_other("3")), Err(QbError::NotAnObject)));
    assert_eq!(QbError::NotAnObject.message(), "value is not a JSON object");
}

#[test]
fn json_map_inputs() {
    let inner = json_object(vec![("x", json_other("1"))]);
    let v = json_object(vec![("table_name", json_str("things")), ("map", inner)]);
    let input = MapInput::from_value(&v).unwrap();
    assert_eq!(input.table_name(), Some("things".to_string()));
    assert_eq!(pairs(&input.to_map())[0].1, "1");
    let from_input = QueryMap::from_input_value(&v).unwrap();
    assert_eq!(pairs(&from_input), pairs(&input.to_map()));

    let no_name = json_object(vec![("table_name", json_other("5")), ("map", json_object(vec![]))]);
    assert_eq!(MapInput::from_value(&no_name).unwrap().table_name(), None);

    let no_map = json_object(vec![("x", json_other("1"))]);
    assert!(matches!(MapInput::from_value(&no_map), Err(QbError::MissingMap)));
    assert_eq!(QbError::MissingMap.message(), "map input missing map");
    let plain = QueryMap::from_input_value(&no_map).unwrap();
    assert_eq!(pairs(&plain)[0].1, "1");

    let bad_map = json_object(vec![("map", json_other("1"))]);
    assert!(matches!(MapInput::from_value(&bad_map), Err(QbError::NotAnObject)));
}

#[test]
fn map_input_keeps_its_table_name() {
    let mut input = MapInput::new(Some("t".to_string()));
    input.add("k", 1);
    assert_eq!(input.table_name(), Some("t".to_string()));
    let replaced = input.with_map(QueryMap::new());
    assert_eq!(replaced.to_map().len(), 0);
}

#[test]
fn snake_case_of_names() {
    assert_eq!(to_snake_case("UserModel"), "user_model");
    assert_eq!(to_snake_case(""), "");
    assert_eq!(to_snake_case("ABC"), "a_b_c");
    assert_eq!(to_snake_case("users"), "users");
    assert_eq!(to_snake_case("aÉ"), "a_É");
}

#[test]
fn model_args_defaults() {
    assert_eq!(default_primary_column(), "id");
    let args = ModelArgs::for_model("UserModel", None, None);
    assert_eq!(args.primary_column, "id");
    assert_eq!(args.table_name, "UserModel");
    assert_eq!(args.model_table_name(), "user_model");
    let args = ModelArgs::for_model("UserModel", Some("users".to_string()), Some("uid".to_string()));
    assert_eq!(args.primary_column, "uid");
    assert_eq!(args.model_table_name(), "users");
}

#[test]
fn text_helpers() {
    assert!(text_less("B", "a"));
    assert!(text_less("ab", "abc"));
    assert!(!text_less("abc", "abc"));
    assert!(text_eq("é", "é"));
    assert!(!text_eq("a", "ab"));
    assert_eq!(join_strs(&vec!["a", "b", "c"], ", "), "a, b, c");
    assert_eq!(join_strings(&vec![], ","), "");
}

#[test]
fn readme_modifiers_example() {
    let modifiers = Modifiers::new()
        .with_filter(("id", 4))
        .and(eq("age", 32))
        .or(eq("public_id", "some-uuid"))
        .with_limit(1);
    let mut qb = QB::new().with_table_name("users");
    qb.set_modifiers(&modifiers);
    qb.select("users");
    assert_eq!(
        qb.sql_str(),
        "SELECT * FROM users WHERE id = $1 AND age = $2 OR public_id = $3 LIMIT 1"
    );
    assert_eq!(qb.args(), &vec!["4".to_string(), "32".to_string(), "some-uuid".to_string()]);
}

#[test]
fn only_unicode_white_space_is_trimmed() {
    let m = Modifiers::new().with_filter(("\u{3000}\tx", 1));
    assert_eq!(m.sql_str(&1), " WHERE x = $1");
    let m = Modifiers::new().with_filter(("\u{200B}x", 1));
    assert_eq!(m.sql_str(&1), " WHERE \u{200B}x = $1");
}

#[test]
fn insert_into_the_inputs_own_table_needs_no_builder_table() {
    let mut qb = QB::new();
    let mut map = QueryMap::new();
    map.add("name", "n");
    let saved = qb.begin_insert(Some("people".to_string()), map, Some("id"));
    assert_eq!(qb.sql_str(), "INSERT INTO people (name) VALUES ($1) RETURNING id");
    qb.end_insert(saved);
    assert_eq!(qb.table_name(), Err(QbError::MissingTableName));
}

#[test]
fn values_do_not_reach_the_sql_text() {
    let m1 = Modifiers::new().with_filter(("id", 1)).or(eq("name", "x"));
    let m2 = Modifiers::new().with_filter(("id", 99)).or(eq("name", "'; DROP TABLE t; --"));
    assert_eq!(m1.sql_str(&3), m2.sql_str(&3));
    let mut a = QueryMap::new();
    a.add("k", "v1");
    let mut b = QueryMap::new();
    b.add("k", "other");
    let qa = update_query("t", a, &m1);
    let qb = update_query("t", b, &m2);
    assert_eq!(qa.sql_str(), qb.sql_str());
    assert_ne!(qa.args(), qb.args());
}

#[test]
fn table_name_is_the_one_set_last() {
    let mut qb = QB::new().with_table_name("a");
    qb.select("x");
    qb.set_table_name("b");
    qb.reset_modifiers();
    assert_eq!(qb.table_name(), Ok("b"));
    let m = QueryMap::new();
    m.sorted_by_column();
}

#[test]
fn each_statement_binds_only_its_own_values() {
    let modifiers = Modifiers::new().with_filter(("id", 5));
    let mut qb = QB::new().with_table_name("users").with_modifiers(&modifiers);
    let mut map = QueryMap::new();
    map.add("a", 1);
    let saved = qb.begin_insert(None, map.clone(), None);
    qb.end_insert(saved);
    let saved = qb.begin_insert(None, map, Some("id"));
    assert_eq!(qb.args(), &vec!["1".to_string(), "5".to_string()]);
    qb.end_insert(saved);
    qb.select_all("users");
    assert_eq!(qb.sql_str(), "SELECT * FROM users WHERE id = $1");
    assert_eq!(qb.args(), &vec!["5".to_string()]);
}

#[test]
fn serialized_maps_read_back() {
    let mut m = QueryMap::new();
    m.add("b", "2");
    m.add("a", "1");
    let json = json_object(vec![("a", json_str("1")), ("b", json_str("2"))]);
    let back = QueryMap::from_value(&json).unwrap();
    assert_eq!(pairs(&back), pairs(&m));
    let input = json_object(vec![("map", json), ("table_name", json_other("null"))]);
    let mi = MapInput::from_value(&input).unwrap();
    assert_eq!(mi.table_name(), None);
    assert_eq!(pairs(&mi.to_map()), pairs(&m));
}
