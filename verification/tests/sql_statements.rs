use sqlx_qb::builder::QB;
use sqlx_qb::extensions::eq;
use sqlx_qb::map::{JsonKind, JsonValue, MapInput, QueryMap, QueryMapInput};
use sqlx_qb::model_args::to_snake_case;
use sqlx_qb::modifiers::{Modifiers, QuerySort, QuerySortDir};
use uuid::Uuid;

const TABLE_NAME: &str = "users";

fn json_str(s: &str) -> JsonValue {
    JsonValue { text: format!("\"{}\"", s), kind: JsonKind::Str(s.to_string()) }
}

fn json_other(text: &str) -> JsonValue {
    JsonValue { text: text.to_string(), kind: JsonKind::Other }
}

fn json_object(fields: Vec<(&str, JsonValue)>, text: &str) -> JsonValue {
    JsonValue {
        text: text.to_string(),
        kind: JsonKind::Object(fields.into_iter().map(|(k, v)| (k.to_string(), v)).collect()),
    }
}

#[test]
fn test_snake_case() {
    assert_eq!("foo_bar".to_string(), to_snake_case("FooBar"));
}

#[test]
fn test_select_query_sql_str() {
    let modifiers = Modifiers::new()
        .with_filter(("id", 32))
        .and(eq("business_id", 32))
        .or(eq("pid", "some-pid"))
        .with_limit(1);

    let mut qb = QB::new().with_modifiers(&modifiers);
    qb.select(TABLE_NAME);

    assert_eq!(
        qb.sql_str(),
        "SELECT * FROM users WHERE id = $1 AND business_id = $2 OR pid = $3 LIMIT 1".to_string()
    );

    qb.select_all(TABLE_NAME);
}

#[test]
fn test_update_query_sql_str() {
    let pid = Uuid::new_v4().to_string();
    let modifiers = Modifiers::new()
        .with_filter(("id", 32))
        .and(eq("business_id", 32))
        .or(eq("pid", pid.as_str()));

    let mut map = MapInput::new(None);
    map.add("name", "Demo User");
    map.add("age", 34);

    let mut qb = QB::new().with_modifiers(&modifiers).with_table_name(TABLE_NAME);

    qb.update(map.to_map()).ok();

    assert_eq!(
        qb.sql_str(),
        "UPDATE users SET age = $1, name = $2 WHERE id = $3 AND business_id = $4 OR pid = $5"
    );
}

#[test]
fn test_insert_query_sql_str() {
    let mut qb = QB::new().with_table_name(TABLE_NAME);
    let data = json_object(
        vec![("name", json_str("Demo User")), ("age", json_other("34"))],
        "{\"age\":34,\"name\":\"Demo User\"}",
    );
    let jmap = QueryMap::from_value(&data)
        .map(|map| MapInput::new(Some(TABLE_NAME.parse().unwrap())).with_map(map))
        .unwrap();

    let saved = qb.begin_insert(jmap.table_name(), jmap.to_map(), None);
    assert_eq!(qb.sql_str(), "INSERT INTO users (age, name) VALUES ($1, $2)");
    qb.end_insert(saved);

    let saved = qb.begin_insert(jmap.table_name(), jmap.to_map(), Some("id"));
    assert_eq!(qb.sql_str(), "INSERT INTO users (age, name) VALUES ($1, $2) RETURNING id");
    qb.end_insert(saved);

    // `InsertArg { name: "Demo User", age: 34 }` as serde_json writes it.
    let insert_arg = json_object(
        vec![("age", json_other("34")), ("name", json_str("Demo User"))],
        "{\"age\":34,\"name\":\"Demo User\"}",
    );
    let map = QueryMap::from_input_value(&insert_arg).unwrap();
    let saved = qb.begin_insert(None, map, Some("id"));
    assert_eq!(qb.sql_str(), "INSERT INTO users (age, name) VALUES ($1, $2) RETURNING id");
    qb.end_insert(saved);
}

#[test]
fn test_order_by() {
    let modifiers =
        Modifiers::new().with_sort(QuerySort::new(vec!["created_at"], QuerySortDir::DESC));

    let mut qb = QB::new().with_modifiers(&modifiers);
    qb.select(TABLE_NAME);

    assert_eq!(qb.sql_str(), "SELECT * FROM users ORDER BY created_at DESC");
}
