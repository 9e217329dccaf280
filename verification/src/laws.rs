//! Properties of the builder that span several functions.
use vstd::prelude::*;
use crate::builder::{
    arg_offset, arg_texts, begin_insert_model, command_args, command_sql, end_insert_model,
    map_keys, query_sql, set_texts, with_command_model, BuilderModel, CommandModel, QueryModel,
};
use crate::map::{
    arg_text, entries_map, json_column_text, json_lookup, json_pairs, json_table_name, keys_sorted,
    lemma_sorted_entries_canonical, lemma_sorted_form, sorted_form, JsonKind, JsonValue, MapInput,
    MapInputModel,
};
use crate::model_args::{snake_case, snake_piece};
use crate::modifiers::{clause_text, clause_texts, modifiers_sql, FilterModel, ModifiersModel};
use crate::text::{ascii_lower, decimal};

verus! {

/// Setting two different columns of a column map in either order gives the
/// same map: `a` sets `k1` then `k2` on `s`, `b` sets `k2` then `k1`.
/// So the columns of a statement come out in column order, whatever the
/// order in which they were added.
pub proof fn law_add_commutes(
    s: Seq<(Seq<char>, Seq<char>)>,
    a: Seq<(Seq<char>, Seq<char>)>,
    b: Seq<(Seq<char>, Seq<char>)>,
    k1: Seq<char>,
    v1: Seq<char>,
    k2: Seq<char>,
    v2: Seq<char>,
)
    requires
        k1 != k2,
        keys_sorted(a),
        keys_sorted(b),
        entries_map(a) == entries_map(s).insert(k1, v1).insert(k2, v2),
        entries_map(b) == entries_map(s).insert(k2, v2).insert(k1, v1),
    ensures
        a == b,
{
    assert(entries_map(s).insert(k1, v1).insert(k2, v2) =~= entries_map(s).insert(k2, v2).insert(
        k1,
        v1,
    ));
    lemma_sorted_entries_canonical(a, b);
}

/// Setting a column twice leaves the value set last: `a` sets `k` to `v1`
/// and then to `v2` on `s`, `b` sets `k` to `v2` once.
pub proof fn law_add_overwrites(
    s: Seq<(Seq<char>, Seq<char>)>,
    a: Seq<(Seq<char>, Seq<char>)>,
    b: Seq<(Seq<char>, Seq<char>)>,
    k: Seq<char>,
    v1: Seq<char>,
    v2: Seq<char>,
)
    requires
        keys_sorted(a),
        keys_sorted(b),
        entries_map(a) == entries_map(s).insert(k, v1).insert(k, v2),
        entries_map(b) == entries_map(s).insert(k, v2),
    ensures
        a == b,
{
    assert(entries_map(s).insert(k, v1).insert(k, v2) =~= entries_map(s).insert(k, v2));
    lemma_sorted_entries_canonical(a, b);
}

/// A statement leaves the modifiers in use: the same modifiers apply to
/// every later statement of the builder until they are reset or replaced.
pub proof fn law_statements_keep_modifiers(q: QueryModel, c: CommandModel)
    ensures
        with_command_model(q, c).modifiers == q.modifiers,
        with_command_model(q, c).cmd == c,
{
}

/// Without modifiers the SQL text is the statement alone.
pub proof fn law_no_modifiers_no_clauses(q: QueryModel)
    requires
        q.modifiers is None,
    ensures
        query_sql(q) == command_sql(q.cmd),
{
    assert(query_sql(q) =~= command_sql(q.cmd));
}

/// The filters of a builder's modifiers, none when there are no modifiers.
pub open spec fn query_filters(q: QueryModel) -> Seq<FilterModel> {
    match q.modifiers {
        Some(m) => m.filters,
        None => Seq::empty(),
    }
}

/// The arguments of a statement line up with its placeholders, whatever
/// statements ran on the builder before: the argument at index `i` is the
/// value whose placeholder is `$(i + 1)`. The statement's own values come
/// first, numbered from `$1` in the order of its map; the values of the
/// filters follow, numbered on from there. (For an `INSERT` this holds when
/// no modifiers are in use: the `INSERT` collects the filter values but its
/// text has no `WHERE` clause.)
pub proof fn law_args_line_up(q: QueryModel, c: CommandModel)
    requires
        c is Insert ==> q.modifiers is None,
    ensures
        ({
            let r = with_command_model(q, c);
            let n = command_args(c).len();
            let fs = query_filters(q);
            &&& r.args.len() == n + fs.len()
            &&& match c {
                CommandModel::Update(_, m) => forall|i: int|
                    0 <= i < m.len() ==> #[trigger] set_texts(m)[i] == m[i].0 + " = "@ + "$"@
                        + decimal((i + 1) as nat) && r.args[i] == m[i].1,
                CommandModel::Insert { map, .. } => forall|i: int|
                    0 <= i < map.len() ==> #[trigger] arg_texts(map.len())[i] == "$"@ + decimal(
                        (i + 1) as nat,
                    ) && r.args[i] == map[i].1,
                _ => n == 0,
            }
            &&& forall|j: int|
                0 <= j < fs.len() ==> #[trigger] clause_texts(fs, arg_offset(c))[j]
                    == clause_text(fs[j], (n + 1 + j) as nat) && r.args[n + j] == fs[j].value
        }),
{
    let r = with_command_model(q, c);
    let n = command_args(c).len();
    let fs = query_filters(q);
    assert(r.args.len() == n + fs.len());
    match c {
        CommandModel::Update(_, m) => {
            assert forall|i: int| 0 <= i < m.len() implies #[trigger] set_texts(m)[i] == m[i].0
                + " = "@ + "$"@ + decimal((i + 1) as nat) && r.args[i] == m[i].1 by {
                assert(arg_text(i as nat) == "$"@ + decimal((i + 1) as nat));
                assert(r.args[i] == command_args(c)[i]);
                assert(set_texts(m)[i] =~= m[i].0 + " = "@ + "$"@ + decimal((i + 1) as nat));
            }
        },
        CommandModel::Insert { map, .. } => {
            assert forall|i: int| 0 <= i < map.len() implies #[trigger] arg_texts(map.len())[i]
                == "$"@ + decimal((i + 1) as nat) && r.args[i] == map[i].1 by {
                assert(r.args[i] == command_args(c)[i]);
            }
        },
        _ => {},
    }
    assert forall|j: int| 0 <= j < fs.len() implies #[trigger] clause_texts(fs, arg_offset(c))[j]
        == clause_text(fs[j], (n + 1 + j) as nat) && r.args[n + j] == fs[j].value by {
        assert(r.args[n + j] == (command_args(c) + match q.modifiers {
            Some(m) => m.filters.map_values(|f: FilterModel| f.value),
            None => Seq::empty(),
        })[n + j]);
    }
}

/// `end_insert` with the modifiers that `begin_insert` handed back puts the
/// builder's modifiers back as they were, while the `INSERT` itself was
/// written without them.
pub proof fn law_insert_restores_modifiers(
    b: BuilderModel,
    table_name: Option<Seq<char>>,
    map: Seq<(Seq<char>, Seq<char>)>,
    returning: Option<Seq<char>>,
)
    requires
        table_name is Some || b.table_name is Some,
    ensures
        ({
            let during = begin_insert_model(b, table_name, map, returning);
            let after = end_insert_model(during, b.query.modifiers);
            &&& query_sql(during.query) == command_sql(during.query.cmd)
            &&& after.query.modifiers == b.query.modifiers
            &&& after.query.cmd == during.query.cmd
            &&& after.query.args == during.query.args
            &&& after.table_name == b.table_name
        }),
{
    let during = begin_insert_model(b, table_name, map, returning);
    law_no_modifiers_no_clauses(during.query);
}

/// The snake case of a name holds no ASCII uppercase letter.
pub proof fn law_snake_case_lowercase(s: Seq<char>)
    ensures
        forall|i: int|
            0 <= i < snake_case(s).len() ==> !(65 <= (#[trigger] snake_case(s)[i] as int) <= 90),
    decreases s.len(),
{
    if s.len() > 0 {
        law_snake_case_lowercase(s.drop_last());
        let c = s.last();
        let l = ascii_lower(c);
        if 65 <= (c as int) <= 90 {
            assert((l as int) == (c as int) + 32);
        }
        assert(!(65 <= (l as int) <= 90));
        let p = snake_case(s.drop_last());
        let piece = snake_piece(c, s.len() == 1);
        assert(snake_case(s) == p + piece);
        assert forall|i: int| 0 <= i < snake_case(s).len() implies !(65 <= (
        #[trigger] snake_case(s)[i] as int) <= 90) by {
            if i < p.len() {
                assert(snake_case(s)[i] == p[i]);
            } else {
                assert(snake_case(s)[i] == piece[i - p.len()]);
            }
        }
    }
}


/// A column map with every value blanked: its columns alone.
pub open spec fn blank_values(m: Seq<(Seq<char>, Seq<char>)>) -> Seq<(Seq<char>, Seq<char>)> {
    m.map_values(|e: (Seq<char>, Seq<char>)| (e.0, Seq::<char>::empty()))
}

/// A statement with the values of its column map blanked.
pub open spec fn command_shape(c: CommandModel) -> CommandModel {
    match c {
        CommandModel::Insert { table_name, map, returning } => CommandModel::Insert {
            table_name,
            map: blank_values(map),
            returning,
        },
        CommandModel::Update(t, map) => CommandModel::Update(t, blank_values(map)),
        _ => c,
    }
}

/// Filters with their values blanked.
pub open spec fn filters_shape(fs: Seq<FilterModel>) -> Seq<FilterModel> {
    fs.map_values(|f: FilterModel| FilterModel { value: Seq::<char>::empty(), ..f })
}

/// Modifiers with the values of their filters blanked.
pub open spec fn modifiers_shape(m: ModifiersModel) -> ModifiersModel {
    ModifiersModel { filters: filters_shape(m.filters), ..m }
}

/// Optional modifiers with the values of their filters blanked.
pub open spec fn opt_modifiers_shape(m: Option<ModifiersModel>) -> Option<ModifiersModel> {
    match m {
        Some(m) => Some(modifiers_shape(m)),
        None => None,
    }
}

/// The values of filters never reach the SQL text of modifiers: two sets of
/// modifiers that differ only in the values of their filters (same columns,
/// operators, joiners, sort order and limit) write the same text.
pub proof fn law_filter_values_not_in_sql(m1: ModifiersModel, m2: ModifiersModel, offset: nat)
    requires
        modifiers_shape(m1) == modifiers_shape(m2),
    ensures
        modifiers_sql(m1, offset) == modifiers_sql(m2, offset),
{
    let f1 = m1.filters;
    let f2 = m2.filters;
    assert(filters_shape(f1).len() == f1.len());
    assert(filters_shape(f2).len() == f2.len());
    assert(clause_texts(f1, offset) =~= clause_texts(f2, offset)) by {
        assert forall|i: int| 0 <= i < f1.len() implies clause_text(f1[i], (i + offset) as nat)
            == clause_text(f2[i], (i + offset) as nat) by {
            assert(filters_shape(f1)[i] == filters_shape(f2)[i]);
        }
    }
}

/// Column values never reach the SQL text of a query: two queries whose
/// statements differ only in the values of their column maps, and whose
/// modifiers differ only in the values of their filters, write the same
/// text. The values go to the bound arguments alone.
pub proof fn law_values_not_in_sql(a: QueryModel, b: QueryModel)
    requires
        command_shape(a.cmd) == command_shape(b.cmd),
        opt_modifiers_shape(a.modifiers) == opt_modifiers_shape(b.modifiers),
    ensures
        query_sql(a) == query_sql(b),
{
    match a.cmd {
        CommandModel::Insert { map: ma, .. } => {
            let mb = b.cmd->map;
            assert(blank_values(ma) == blank_values(mb));
            assert(blank_values(ma).len() == ma.len() && blank_values(mb).len() == mb.len());
            assert(map_keys(ma) =~= map_keys(mb)) by {
                assert forall|i: int| 0 <= i < ma.len() implies ma[i].0 == mb[i].0 by {
                    assert(blank_values(ma)[i] == blank_values(mb)[i]);
                }
            }
        },
        CommandModel::Update(_, ma) => {
            let mb = b.cmd->Update_1;
            assert(blank_values(ma) == blank_values(mb));
            assert(blank_values(ma).len() == ma.len() && blank_values(mb).len() == mb.len());
            assert(set_texts(ma) =~= set_texts(mb)) by {
                assert forall|i: int| 0 <= i < ma.len() implies ma[i].0 == mb[i].0 by {
                    assert(blank_values(ma)[i] == blank_values(mb)[i]);
                }
            }
        },
        _ => {},
    }
    assert(command_sql(a.cmd) == command_sql(b.cmd));
    assert(arg_offset(a.cmd) == arg_offset(b.cmd));
    match a.modifiers {
        Some(ma) => {
            let mb = b.modifiers->0;
            law_filter_values_not_in_sql(ma, mb, arg_offset(a.cmd));
        },
        None => {},
    }
}

/// Modifiers set on a query are in use at once and stay in use: the text is
/// the statement followed by the text of the new modifiers, and every later
/// statement keeps them, followed by their text numbered after its own
/// placeholders.
pub proof fn law_set_modifiers_in_use(q: QueryModel, m: ModifiersModel, c: CommandModel)
    ensures
        ({
            let q1 = QueryModel { modifiers: Some(m), ..q };
            &&& query_sql(q1) == command_sql(q.cmd) + modifiers_sql(m, arg_offset(q.cmd))
            &&& with_command_model(q1, c).modifiers == Some(m)
            &&& query_sql(with_command_model(q1, c)) == command_sql(c) + modifiers_sql(
                m,
                arg_offset(c),
            )
        }),
{
}

/// The table name after a run of calls: the one set last, or the starting
/// one when none was set.
pub open spec fn last_table_set(start: Option<Seq<char>>, sets: Seq<Option<Seq<char>>>) -> Option<
    Seq<char>,
>
    decreases sets.len(),
{
    if sets.len() == 0 {
        start
    } else {
        match sets.last() {
            Some(t) => Some(t),
            None => last_table_set(start, sets.drop_last()),
        }
    }
}

/// Over any run of calls on a builder, its table name is the one set by the
/// last call of `with_table_name` or `set_table_name`, or the one it started
/// with (none, for `QB::new`) when there was no such call; `table_name`
/// then returns it, or `MissingTableName`. `states` are the builder's views
/// before and after each call, and `sets[i]` is the table name that call `i`
/// sets: `Some` for the two setters, `None` for every other function of
/// `QB`, whose contract keeps the table name.
pub proof fn law_table_name_after_calls(
    states: Seq<BuilderModel>,
    sets: Seq<Option<Seq<char>>>,
)
    requires
        states.len() == sets.len() + 1,
        forall|i: int|
            0 <= i < sets.len() ==> #[trigger] states[i + 1].table_name == match sets[i] {
                Some(t) => Some(t),
                None => states[i].table_name,
            },
    ensures
        states.last().table_name == last_table_set(states[0].table_name, sets),
    decreases sets.len(),
{
    if sets.len() > 0 {
        let n = sets.len() - 1;
        let s1 = states.drop_last();
        let t1 = sets.drop_last();
        assert forall|i: int| 0 <= i < t1.len() implies #[trigger] s1[i + 1].table_name == match t1[i] {
            Some(t) => Some(t),
            None => s1[i].table_name,
        } by {
            assert(states[i + 1].table_name == match sets[i] {
                Some(t) => Some(t),
                None => states[i].table_name,
            });
        }
        law_table_name_after_calls(s1, t1);
        assert(states[n + 1].table_name == match sets[n] {
            Some(t) => Some(t),
            None => states[n].table_name,
        });
    }
}


/// The fields of a JSON object are what a column map serializes to: one
/// string field per column, in column order, holding the column's value.
pub open spec fn is_json_of_map(
    fields: Seq<(String, JsonValue)>,
    s: Seq<(Seq<char>, Seq<char>)>,
) -> bool {
    &&& fields.len() == s.len()
    &&& forall|i: int|
        0 <= i < s.len() ==> (#[trigger] fields[i]).0@ == s[i].0 && fields[i].1.kind is Str
            && json_column_text(fields[i].1) == s[i].1
}

/// A JSON value is what a map input serializes to: an object whose `map`
/// field is the serialized column map and whose `table_name` field is the
/// table name as a string, or `null` when there is none.
pub open spec fn is_json_of_map_input(
    v: JsonValue,
    s: Seq<(Seq<char>, Seq<char>)>,
    table_name: Option<Seq<char>>,
) -> bool {
    &&& v.kind matches JsonKind::Object(fields)
    &&& fields@.len() == 2
    &&& fields@[0].0@ == "map"@
    &&& fields@[0].1.kind matches JsonKind::Object(map_fields) && is_json_of_map(map_fields@, s)
    &&& fields@[1].0@ == "table_name"@
    &&& match table_name {
        Some(t) => fields@[1].1.kind matches JsonKind::Str(x) && x@ == t,
        None => fields@[1].1.kind is Other,
    }
}

/// A column map read back from the JSON object it serializes to is the same
/// map: `QueryMap::from_value` gives `sorted_form(entries_map(json_pairs(..)))`,
/// which is the map's own pairs.
pub proof fn law_query_map_json_round_trip(
    s: Seq<(Seq<char>, Seq<char>)>,
    fields: Seq<(String, JsonValue)>,
)
    requires
        keys_sorted(s),
        is_json_of_map(fields, s),
    ensures
        sorted_form(entries_map(json_pairs(fields))) == s,
{
    assert(json_pairs(fields) =~= s) by {
        assert forall|i: int| 0 <= i < s.len() implies json_pairs(fields)[i] == s[i] by {
            assert(fields[i].0@ == s[i].0);
        }
    }
    lemma_sorted_form(s);
}

/// A map input read back from the JSON it serializes to has the same table
/// name (none stays none) and the same column map.
pub proof fn law_map_input_json_round_trip(
    v: JsonValue,
    s: Seq<(Seq<char>, Seq<char>)>,
    table_name: Option<Seq<char>>,
)
    requires
        keys_sorted(s),
        is_json_of_map_input(v, s, table_name),
    ensures
        MapInput::from_value_spec(v) == Ok::<MapInputModel, crate::error::QbError>(
            MapInputModel { map: s, table_name },
        ),
{
    reveal_strlit("map");
    reveal_strlit("table_name");
    let fields = v.kind->Object_0@;
    assert("map"@.len() != "table_name"@.len());
    assert(json_lookup(fields, "map"@) == Some(fields[0].1));
    assert(fields.drop_first()[0] == fields[1]);
    assert(json_lookup(fields.drop_first(), "table_name"@) == Some(fields[1].1));
    assert(json_lookup(fields, "table_name"@) == Some(fields[1].1));
    assert(json_table_name(fields) == table_name);
    let map_fields = fields[0].1.kind->Object_0@;
    law_query_map_json_round_trip(s, map_fields);
}

} // verus!
