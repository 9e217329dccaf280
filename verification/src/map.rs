//! Column maps: the columns and values of an `INSERT` or an `UPDATE`.
use vstd::prelude::*;
use crate::text::{decimal, text_less, text_lt, lemma_text_lt_irreflexive,
    lemma_text_lt_asymmetric, lemma_text_lt_transitive, lemma_text_lt_total, text_eq, write_decimal};
use crate::error::QbError;
use crate::value::QueryValue;

verus! {

/// The views of a sequence of column/value pairs.
pub open spec fn entry_views(v: Seq<(String, String)>) -> Seq<(Seq<char>, Seq<char>)> {
    v.map_values(|e: (String, String)| (e.0@, e.1@))
}

/// The columns strictly increase in the order of `text_lt`; in particular
/// no column occurs twice.
pub open spec fn keys_sorted(s: Seq<(Seq<char>, Seq<char>)>) -> bool {
    forall|i: int, j: int| 0 <= i < j < s.len() ==> text_lt(#[trigger] s[i].0, #[trigger] s[j].0)
}

/// No column occurs twice.
pub open spec fn keys_unique(s: Seq<(Seq<char>, Seq<char>)>) -> bool {
    forall|i: int, j: int| 0 <= i < s.len() && 0 <= j < s.len() && i != j
        ==> #[trigger] s[i].0 != #[trigger] s[j].0
}

/// The map from column to value that a sequence of pairs describes; a later
/// pair wins over an earlier one with the same column.
pub open spec fn entries_map(s: Seq<(Seq<char>, Seq<char>)>) -> Map<Seq<char>, Seq<char>>
    decreases s.len(),
{
    if s.len() == 0 {
        Map::empty()
    } else {
        entries_map(s.drop_last()).insert(s.last().0, s.last().1)
    }
}

/// The placeholder of the value at index `i` of a column map: `$` and `i + 1`.
pub open spec fn arg_text(i: nat) -> Seq<char> {
    "$"@ + decimal(i + 1)
}

/// Sorted pairs have unique columns.
pub proof fn lemma_sorted_unique(s: Seq<(Seq<char>, Seq<char>)>)
    requires
        keys_sorted(s),
    ensures
        keys_unique(s),
{
    assert forall|i: int, j: int| 0 <= i < s.len() && 0 <= j < s.len() && i != j implies
        #[trigger] s[i].0 != #[trigger] s[j].0 by {
        if i < j {
            assert(text_lt(s[i].0, s[j].0));
            lemma_text_lt_irreflexive(s[i].0);
        } else {
            assert(text_lt(s[j].0, s[i].0));
            lemma_text_lt_irreflexive(s[j].0);
        }
    }
}

/// For pairs with unique columns, the map holds exactly their columns, each
/// with its value.
pub proof fn lemma_entries_map(s: Seq<(Seq<char>, Seq<char>)>)
    requires
        keys_unique(s),
    ensures
        forall|i: int| 0 <= i < s.len() ==> #[trigger] entries_map(s).contains_key(s[i].0)
            && entries_map(s)[s[i].0] == s[i].1,
        forall|k: Seq<char>| #[trigger] entries_map(s).contains_key(k)
            ==> exists|i: int| 0 <= i < s.len() && s[i].0 == k,
        entries_map(s).dom().finite(),
        entries_map(s).dom().len() == s.len(),
    decreases s.len(),
{
    if s.len() > 0 {
        let p = s.drop_last();
        assert(keys_unique(p)) by {
            assert forall|i: int, j: int| 0 <= i < p.len() && 0 <= j < p.len() && i != j implies
                #[trigger] p[i].0 != #[trigger] p[j].0 by {
                assert(p[i] == s[i]);
                assert(p[j] == s[j]);
            }
        }
        lemma_entries_map(p);
        let l = s.last();
        assert forall|i: int| 0 <= i < s.len() implies #[trigger] entries_map(s).contains_key(s[i].0)
            && entries_map(s)[s[i].0] == s[i].1 by {
            if i < s.len() - 1 {
                assert(p[i] == s[i]);
                assert(s[i].0 != s[s.len() - 1].0);
            }
        }
        assert forall|k: Seq<char>| #[trigger] entries_map(s).contains_key(k)
            implies exists|i: int| 0 <= i < s.len() && s[i].0 == k by {
            if k != l.0 {
                assert(entries_map(p).contains_key(k));
                let i = choose|i: int| 0 <= i < p.len() && p[i].0 == k;
                assert(s[i].0 == k);
            } else {
                assert(s[s.len() - 1].0 == k);
            }
        }
        assert(!entries_map(p).contains_key(l.0)) by {
            if entries_map(p).contains_key(l.0) {
                let i = choose|i: int| 0 <= i < p.len() && p[i].0 == l.0;
                assert(s[i].0 == s[s.len() - 1].0);
            }
        }
    }
}

/// Two sorted sequences of pairs that describe the same map are the same
/// sequence: a column map has one representation.
pub proof fn lemma_sorted_entries_canonical(
    a: Seq<(Seq<char>, Seq<char>)>,
    b: Seq<(Seq<char>, Seq<char>)>,
)
    requires
        keys_sorted(a),
        keys_sorted(b),
        entries_map(a) == entries_map(b),
    ensures
        a == b,
    decreases a.len(),
{
    lemma_sorted_unique(a);
    lemma_sorted_unique(b);
    lemma_entries_map(a);
    lemma_entries_map(b);
    if a.len() == 0 {
        if b.len() > 0 {
            assert(entries_map(b).contains_key(b[0].0));
        }
        assert(a =~= b);
    } else {
        assert(b.len() == a.len());
        let m = entries_map(a);
        assert(m.contains_key(a[0].0));
        let j = choose|j: int| 0 <= j < b.len() && b[j].0 == a[0].0;
        assert(m.contains_key(b[0].0));
        let i = choose|i: int| 0 <= i < a.len() && a[i].0 == b[0].0;
        if i > 0 {
            assert(text_lt(a[0].0, a[i].0));
            if j > 0 {
                assert(text_lt(b[0].0, b[j].0));
                lemma_text_lt_asymmetric(a[0].0, b[0].0);
            }
            lemma_text_lt_irreflexive(a[0].0);
        }
        if j > 0 {
            assert(text_lt(b[0].0, b[j].0));
            lemma_text_lt_irreflexive(b[0].0);
        }
        assert(a[0].0 == b[0].0);
        assert(a[0].1 == m[a[0].0]);
        assert(b[0].1 == m[b[0].0]);
        assert(a[0] == b[0]);
        let a1 = a.drop_first();
        let b1 = b.drop_first();
        assert(keys_sorted(a1)) by {
            assert forall|x: int, y: int| 0 <= x < y < a1.len() implies
                text_lt(#[trigger] a1[x].0, #[trigger] a1[y].0) by {
                assert(a1[x] == a[x + 1]);
                assert(a1[y] == a[y + 1]);
            }
        }
        assert(keys_sorted(b1)) by {
            assert forall|x: int, y: int| 0 <= x < y < b1.len() implies
                text_lt(#[trigger] b1[x].0, #[trigger] b1[y].0) by {
                assert(b1[x] == b[x + 1]);
                assert(b1[y] == b[y + 1]);
            }
        }
        lemma_sorted_unique(a1);
        lemma_sorted_unique(b1);
        lemma_entries_map(a1);
        lemma_entries_map(b1);
        assert(entries_map(a1) =~= entries_map(b1)) by {
            assert forall|k: Seq<char>| #[trigger] entries_map(a1).contains_key(k) implies
                entries_map(b1).contains_key(k) && entries_map(a1)[k] == entries_map(b1)[k] by {
                let x = choose|x: int| 0 <= x < a1.len() && a1[x].0 == k;
                assert(a[x + 1].0 == k);
                assert(a[0].0 != a[x + 1].0);
                assert(m.contains_key(k));
                let y = choose|y: int| 0 <= y < b.len() && b[y].0 == k;
                assert(y != 0);
                assert(b1[y - 1] == b[y]);
                assert(entries_map(b1).contains_key(b1[y - 1].0));
                assert(entries_map(b1)[k] == b[y].1);
                assert(entries_map(a1)[k] == a[x + 1].1);
            }
            assert forall|k: Seq<char>| #[trigger] entries_map(b1).contains_key(k) implies
                entries_map(a1).contains_key(k) by {
                let y = choose|y: int| 0 <= y < b1.len() && b1[y].0 == k;
                assert(b[y + 1].0 == k);
                assert(b[0].0 != b[y + 1].0);
                assert(m.contains_key(k));
                let x = choose|x: int| 0 <= x < a.len() && a[x].0 == k;
                assert(x != 0);
                assert(a1[x - 1] == a[x]);
            }
        }
        lemma_sorted_entries_canonical(a1, b1);
        assert(a =~= seq![a[0]] + a1);
        assert(b =~= seq![b[0]] + b1);
    }
}

/// A map from column to value, kept ordered by column as a `BTreeMap` of
/// strings is.
pub struct QueryMap {
    entries: Vec<(String, String)>,
}

impl View for QueryMap {
    type V = Seq<(Seq<char>, Seq<char>)>;

    /// The pairs in column order.
    closed spec fn view(&self) -> Seq<(Seq<char>, Seq<char>)> {
        entry_views(self.entries@)
    }
}

impl QueryMap {
    #[verifier::type_invariant]
    closed spec fn wf(self) -> bool {
        keys_sorted(entry_views(self.entries@))
    }

    /// The empty map.
    pub fn new() -> (m: QueryMap)
        ensures
            m@ == Seq::<(Seq<char>, Seq<char>)>::empty(),
    {
        let m = QueryMap { entries: Vec::new() };
        assert(m@ =~= Seq::<(Seq<char>, Seq<char>)>::empty());
        m
    }

    /// Sets the value of a column, replacing the value it had.
    pub fn add<K: QueryValue, V: QueryValue>(&mut self, key: K, value: V)
        ensures
            final(self)@ == sorted_form(
                entries_map(old(self)@).insert(key.text_of(), value.text_of()),
            ),
            keys_sorted(final(self)@),
            entries_map(final(self)@) == entries_map(old(self)@).insert(
                key.text_of(),
                value.text_of(),
            ),
    {
        let k = key.to_text();
        let v = value.to_text();
        self.insert_text(k, v);
        proof {
            lemma_sorted_form(self@);
        }
    }

    fn insert_text(&mut self, k: String, v: String)
        ensures
            keys_sorted(final(self)@),
            entries_map(final(self)@) == entries_map(old(self)@).insert(k@, v@),
    {
        proof {
            use_type_invariant(&*self);
        }
        let mut entries: Vec<(String, String)> = Vec::new();
        std::mem::swap(&mut entries, &mut self.entries);
        let ghost s = entry_views(entries@);
        assert(keys_sorted(s));
        let mut i: usize = 0;
        loop
            invariant_except_break
                i <= entries.len(),
                s == entry_views(entries@),
                forall|j: int| 0 <= j < i ==> text_lt(#[trigger] s[j].0, k@),
            ensures
                i <= entries.len(),
                s == entry_views(entries@),
                forall|j: int| 0 <= j < i ==> text_lt(#[trigger] s[j].0, k@),
                i < entries.len() ==> !text_lt(s[i as int].0, k@),
            decreases entries.len() - i,
        {
            if i >= entries.len() {
                break;
            }
            if !text_less(entries[i].0.as_str(), k.as_str()) {
                break;
            }
            i = i + 1;
        }
        proof {
            lemma_sorted_unique(s);
            lemma_entries_map(s);
        }
        if i < entries.len() && entries[i].0 == k {
            entries.set(i, (k, v));
            let ghost t = entry_views(entries@);
            proof {
                assert(t =~= s.update(i as int, (k@, v@)));
                assert(keys_sorted(t)) by {
                    assert forall|x: int, y: int| 0 <= x < y < t.len() implies
                        text_lt(#[trigger] t[x].0, #[trigger] t[y].0) by {
                        assert(t[x].0 == s[x].0);
                        assert(t[y].0 == s[y].0);
                    }
                }
                lemma_sorted_unique(t);
                lemma_entries_map(t);
                assert(entries_map(t) =~= entries_map(s).insert(k@, v@)) by {
                    assert forall|key: Seq<char>| #[trigger] entries_map(t).contains_key(key)
                        implies entries_map(s).insert(k@, v@).contains_key(key)
                        && entries_map(t)[key] == entries_map(s).insert(k@, v@)[key] by {
                        let x = choose|x: int| 0 <= x < t.len() && t[x].0 == key;
                        assert(entries_map(t).contains_key(t[x].0));
                        if x != i {
                            assert(t[x] == s[x]);
                            assert(entries_map(s).contains_key(s[x].0));
                        }
                    }
                    assert forall|key: Seq<char>| #[trigger] entries_map(s).insert(k@, v@).contains_key(key)
                        implies entries_map(t).contains_key(key) by {
                        if key != k@ {
                            let x = choose|x: int| 0 <= x < s.len() && s[x].0 == key;
                            assert(t[x] == s[x]);
                        } else {
                            assert(t[i as int].0 == key);
                        }
                    }
                }
            }
        } else {
            let ghost at = i;
            proof {
                if i < entries.len() {
                    assert(s[i as int].0 != k@);
                    lemma_text_lt_total(s[i as int].0, k@);
                }
            }
            entries.insert(i, (k, v));
            let ghost t = entry_views(entries@);
            proof {
                assert(t =~= s.insert(i as int, (k@, v@)));
                assert(keys_sorted(t)) by {
                    assert forall|x: int, y: int| 0 <= x < y < t.len() implies
                        text_lt(#[trigger] t[x].0, #[trigger] t[y].0) by {
                        if y < i {
                            assert(t[x] == s[x] && t[y] == s[y]);
                        } else if y == i {
                            assert(t[x] == s[x]);
                        } else if x < i {
                            assert(t[x] == s[x] && t[y] == s[y - 1]);
                            assert(text_lt(s[i as int].0, s[y - 1].0) || y - 1 == i);
                            assert(text_lt(k@, s[i as int].0));
                            assert(text_lt(s[x].0, k@));
                            lemma_text_lt_transitive(s[x].0, k@, s[i as int].0);
                            if y - 1 != i {
                                lemma_text_lt_transitive(s[x].0, s[i as int].0, s[y - 1].0);
                            }
                        } else if x == i {
                            assert(t[y] == s[y - 1]);
                            assert(text_lt(k@, s[i as int].0));
                            if y - 1 != i {
                                lemma_text_lt_transitive(k@, s[i as int].0, s[y - 1].0);
                            }
                        } else {
                            assert(t[x] == s[x - 1] && t[y] == s[y - 1]);
                        }
                    }
                }
                lemma_sorted_unique(t);
                lemma_entries_map(t);
                assert(!entries_map(s).contains_key(k@)) by {
                    if entries_map(s).contains_key(k@) {
                        let x = choose|x: int| 0 <= x < s.len() && s[x].0 == k@;
                        if x < i {
                            assert(text_lt(s[x].0, k@));
                            lemma_text_lt_irreflexive(k@);
                        } else if x == i {
                        } else {
                            assert(text_lt(s[i as int].0, s[x].0));
                            assert(text_lt(k@, s[i as int].0));
                            lemma_text_lt_transitive(k@, s[i as int].0, s[x].0);
                            lemma_text_lt_irreflexive(k@);
                        }
                    }
                }
                assert(entries_map(t) =~= entries_map(s).insert(k@, v@)) by {
                    assert forall|key: Seq<char>| #[trigger] entries_map(t).contains_key(key)
                        implies entries_map(s).insert(k@, v@).contains_key(key)
                        && entries_map(t)[key] == entries_map(s).insert(k@, v@)[key] by {
                        let x = choose|x: int| 0 <= x < t.len() && t[x].0 == key;
                        assert(entries_map(t).contains_key(t[x].0));
                        if x < i {
                            assert(t[x] == s[x]);
                            assert(entries_map(s).contains_key(s[x].0));
                        } else if x > i {
                            assert(t[x] == s[x - 1]);
                            assert(entries_map(s).contains_key(s[x - 1].0));
                        }
                    }
                    assert forall|key: Seq<char>| #[trigger] entries_map(s).insert(k@, v@).contains_key(key)
                        implies entries_map(t).contains_key(key) by {
                        if key != k@ {
                            let x = choose|x: int| 0 <= x < s.len() && s[x].0 == key;
                            if x < i {
                                assert(t[x] == s[x]);
                            } else {
                                assert(t[x + 1] == s[x]);
                            }
                        } else {
                            assert(t[i as int].0 == key);
                        }
                    }
                }
            }
        }
        self.entries = entries;
    }

    /// The pairs of any map are in column order, no column twice.
    pub fn sorted_by_column(&self)
        ensures
            keys_sorted(self@),
    {
        proof {
            use_type_invariant(self);
        }
    }

    /// The pairs in column order.
    pub(crate) fn inner(&self) -> (r: &Vec<(String, String)>)
        ensures
            entry_views(r@) == self@,
    {
        &self.entries
    }

    /// The number of columns.
    pub fn len(&self) -> (n: usize)
        ensures
            n == self@.len(),
    {
        self.entries.len()
    }

    /// The placeholder of the value at index `idx`: `$` and `idx + 1`.
    pub(crate) fn arg(idx: usize) -> (r: String)
        requires
            idx < usize::MAX,
        ensures
            r@ == arg_text(idx as nat),
    {
        let mut r = String::from_str("$");
        write_decimal(&mut r, (idx + 1) as u64);
        r
    }
}

impl Clone for QueryMap {
    fn clone(&self) -> (r: QueryMap)
        ensures
            r@ == self@,
    {
        proof {
            use_type_invariant(self);
        }
        let mut entries: Vec<(String, String)> = Vec::new();
        let mut i: usize = 0;
        while i < self.entries.len()
            invariant
                i <= self.entries.len(),
                entry_views(entries@) =~= entry_views(self.entries@).take(i as int),
            decreases self.entries.len() - i,
        {
            let k = self.entries[i].0.clone();
            let v = self.entries[i].1.clone();
            let ghost prev = entries@;
            entries.push((k, v));
            assert(entry_views(entries@) =~= entry_views(prev).push((k@, v@)));
            i = i + 1;
        }
        assert(entry_views(self.entries@).take(i as int) =~= entry_views(self.entries@));
        QueryMap { entries }
    }
}


/// What a map input is: the columns and values, and the table name it names.
pub struct MapInputModel {
    pub map: Seq<(Seq<char>, Seq<char>)>,
    pub table_name: Option<Seq<char>>,
}

/// The view of an optional string.
pub open spec fn opt_view(o: Option<String>) -> Option<Seq<char>> {
    match o {
        Some(s) => Some(s@),
        None => None,
    }
}

fn clone_opt(o: &Option<String>) -> (r: Option<String>)
    ensures
        opt_view(r) == opt_view(*o),
{
    match o {
        Some(s) => Some(s.clone()),
        None => None,
    }
}

/// The sorted sequence of pairs that describes the map `m`, where there is one.
pub open spec fn sorted_form(m: Map<Seq<char>, Seq<char>>) -> Seq<(Seq<char>, Seq<char>)> {
    choose|s: Seq<(Seq<char>, Seq<char>)>| keys_sorted(s) && entries_map(s) == m
}

/// A sorted sequence of pairs is the sorted form of its map.
pub proof fn lemma_sorted_form(s: Seq<(Seq<char>, Seq<char>)>)
    requires
        keys_sorted(s),
    ensures
        sorted_form(entries_map(s)) == s,
{
    let c = sorted_form(entries_map(s));
    assert(keys_sorted(s) && entries_map(s) == entries_map(s));
    lemma_sorted_entries_canonical(s, c);
}

/// A column map with an optional table name: the input of an `INSERT` or an
/// `UPDATE`.
pub struct MapInput {
    map: QueryMap,
    table_name: Option<String>,
}

impl View for MapInput {
    type V = MapInputModel;

    closed spec fn view(&self) -> MapInputModel {
        MapInputModel { map: self.map@, table_name: opt_view(self.table_name) }
    }
}

impl MapInput {
    /// An empty map for the table `table_name`.
    pub fn new(table_name: Option<String>) -> (r: MapInput)
        ensures
            r@ == (MapInputModel { map: Seq::empty(), table_name: opt_view(table_name) }),
    {
        MapInput { table_name, map: QueryMap::new() }
    }

    /// Sets the value of a column, replacing the value it had.
    pub fn add<K: QueryValue, V: QueryValue>(&mut self, key: K, value: V)
        ensures
            final(self)@.map == sorted_form(
                entries_map(old(self)@.map).insert(key.text_of(), value.text_of()),
            ),
            keys_sorted(final(self)@.map),
            entries_map(final(self)@.map) == entries_map(old(self)@.map).insert(
                key.text_of(),
                value.text_of(),
            ),
            final(self)@.table_name == old(self)@.table_name,
    {
        self.map.add(key, value);
    }

    /// The same table name with the columns and values of `map`.
    pub fn with_map(self, map: QueryMap) -> (r: MapInput)
        ensures
            r@ == (MapInputModel { map: map@, ..self@ }),
    {
        let mut s = self;
        s.map = map;
        s
    }
}

/// An input that names the table it goes to and gives its column map.
pub trait QueryMapInput {
    /// The table the input names, if any.
    spec fn input_table_name(&self) -> Option<Seq<char>>;

    /// The columns and values of the input, in column order.
    spec fn input_map(&self) -> Seq<(Seq<char>, Seq<char>)>;

    /// The name of the table.
    fn table_name(&self) -> (r: Option<String>)
        ensures
            opt_view(r) == self.input_table_name(),
    ;

    /// The columns and values.
    fn to_map(&self) -> (r: QueryMap)
        ensures
            r@ == self.input_map(),
    ;
}

impl QueryMapInput for MapInput {
    open spec fn input_table_name(&self) -> Option<Seq<char>> {
        self@.table_name
    }

    open spec fn input_map(&self) -> Seq<(Seq<char>, Seq<char>)> {
        self@.map
    }

    fn table_name(&self) -> (r: Option<String>) {
        clone_opt(&self.table_name)
    }

    fn to_map(&self) -> (r: QueryMap) {
        self.map.clone()
    }
}


/// A JSON value as the builder reads it: the text it has in JSON, and what
/// kind of value it is.
pub struct JsonValue {
    /// The value written as JSON.
    pub text: String,
    /// What kind of value it is.
    pub kind: JsonKind,
}

/// The kinds of JSON values the builder tells apart.
pub enum JsonKind {
    /// A string, with its characters.
    Str(String),
    /// An object, with its fields in order.
    Object(Vec<(String, JsonValue)>),
    /// Any other value.
    Other,
}

/// The text a JSON value gives a column: the characters of a string, the
/// JSON text of any other value.
pub open spec fn json_column_text(v: JsonValue) -> Seq<char> {
    match v.kind {
        JsonKind::Str(s) => s@,
        _ => v.text@,
    }
}

/// The column/value pairs of the fields of a JSON object.
pub open spec fn json_pairs(fields: Seq<(String, JsonValue)>) -> Seq<(Seq<char>, Seq<char>)> {
    fields.map_values(|e: (String, JsonValue)| (e.0@, json_column_text(e.1)))
}

/// The first field of an object named `key`.
pub open spec fn json_lookup(fields: Seq<(String, JsonValue)>, key: Seq<char>) -> Option<
    JsonValue,
>
    decreases fields.len(),
{
    if fields.len() == 0 {
        None
    } else if fields[0].0@ == key {
        Some(fields[0].1)
    } else {
        json_lookup(fields.drop_first(), key)
    }
}

/// The table name of a JSON map input: its `table_name` field when that is a string.
pub open spec fn json_table_name(fields: Seq<(String, JsonValue)>) -> Option<Seq<char>> {
    match json_lookup(fields, "table_name"@) {
        Some(v) => match v.kind {
            JsonKind::Str(s) => Some(s@),
            _ => None,
        },
        None => None,
    }
}

proof fn lemma_json_lookup_skip(fields: Seq<(String, JsonValue)>, key: Seq<char>, i: int)
    requires
        0 <= i < fields.len(),
        fields[i].0@ != key,
    ensures
        json_lookup(fields.skip(i), key) == json_lookup(fields.skip(i + 1), key),
{
    assert(fields.skip(i).drop_first() =~= fields.skip(i + 1));
    assert(fields.skip(i)[0] == fields[i]);
}

fn find_field<'a>(fields: &'a Vec<(String, JsonValue)>, key: &str) -> (r: Option<&'a JsonValue>)
    ensures
        match r {
            Some(v) => json_lookup(fields@, key@) == Some(*v),
            None => json_lookup(fields@, key@) is None,
        },
{
    let mut i: usize = 0;
    assert(fields@.skip(0) =~= fields@);
    while i < fields.len()
        invariant
            i <= fields.len(),
            json_lookup(fields@, key@) == json_lookup(fields@.skip(i as int), key@),
        decreases fields.len() - i,
    {
        if text_eq(fields[i].0.as_str(), key) {
            assert(fields@.skip(i as int)[0] == fields@[i as int]);
            return Some(&fields[i].1);
        }
        proof {
            lemma_json_lookup_skip(fields@, key@, i as int);
        }
        i = i + 1;
    }
    assert(fields@.skip(i as int).len() == 0);
    None
}

spec fn json_object_map(v: JsonValue) -> Map<Seq<char>, Seq<char>> {
    match v.kind {
        JsonKind::Object(fields) => entries_map(json_pairs(fields@)),
        _ => Map::empty(),
    }
}

fn json_text(v: &JsonValue) -> (r: String)
    ensures
        r@ == json_column_text(*v),
{
    match &v.kind {
        JsonKind::Str(s) => s.clone(),
        _ => v.text.clone(),
    }
}

impl QueryMap {
    /// The column map of a JSON object: each field becomes a column, a string
    /// with its characters and any other value with its JSON text. Any other
    /// JSON value is `NotAnObject`.
    pub fn from_value(value: &JsonValue) -> (r: Result<QueryMap, QbError>)
        ensures
            match value.kind {
                JsonKind::Object(fields) => r matches Ok(m) && m@ == sorted_form(
                    entries_map(json_pairs(fields@)),
                ) && keys_sorted(m@) && entries_map(m@) == entries_map(json_pairs(fields@)),
                _ => r == Err::<QueryMap, QbError>(QbError::NotAnObject),
            },
    {
        match &value.kind {
            JsonKind::Object(fields) => {
                let mut m = QueryMap::new();
                let ghost pairs = json_pairs(fields@);
                let mut i: usize = 0;
                while i < fields.len()
                    invariant
                        i <= fields.len(),
                        pairs == json_pairs(fields@),
                        keys_sorted(m@),
                        entries_map(m@) == entries_map(pairs.take(i as int)),
                    decreases fields.len() - i,
                {
                    let k = fields[i].0.clone();
                    let v = json_text(&fields[i].1);
                    m.insert_text(k, v);
                    assert(pairs.take(i + 1).drop_last() =~= pairs.take(i as int));
                    i = i + 1;
                }
                assert(pairs.take(i as int) =~= pairs);
                proof {
                    lemma_sorted_form(m@);
                }
                Ok(m)
            },
            _ => Err(QbError::NotAnObject),
        }
    }

    /// The column map of a JSON value that is either a map input (an object
    /// with a `map` field) or a plain object.
    pub fn from_input_value(value: &JsonValue) -> (r: Result<QueryMap, QbError>)
        ensures
            match MapInput::from_value_spec(*value) {
                Ok(input) => r matches Ok(m) && m@ == input.map,
                Err(_) => match value.kind {
                    JsonKind::Object(fields) => r matches Ok(m) && m@ == sorted_form(
                        entries_map(json_pairs(fields@)),
                    ),
                    _ => r == Err::<QueryMap, QbError>(QbError::NotAnObject),
                },
            },
    {
        match MapInput::from_value(value) {
            Ok(input) => Ok(input.map),
            Err(_) => QueryMap::from_value(value),
        }
    }
}

impl MapInput {
    /// What `from_value` gives for `value`: the input, or the error.
    pub open spec fn from_value_spec(value: JsonValue) -> Result<MapInputModel, QbError> {
        match value.kind {
            JsonKind::Object(fields) => match json_lookup(fields@, "map"@) {
                Some(mv) => match mv.kind {
                    JsonKind::Object(map_fields) => Ok(
                        MapInputModel {
                            map: sorted_form(entries_map(json_pairs(map_fields@))),
                            table_name: json_table_name(fields@),
                        },
                    ),
                    _ => Err(QbError::NotAnObject),
                },
                None => Err(QbError::MissingMap),
            },
            _ => Err(QbError::NotAnObject),
        }
    }

    /// The map input a JSON object describes: its `table_name` field, when a
    /// string, names the table, and its `map` field, which must be an object,
    /// gives the columns.
    pub fn from_value(value: &JsonValue) -> (r: Result<MapInput, QbError>)
        ensures
            match Self::from_value_spec(*value) {
                Ok(input) => r matches Ok(mi) && mi@ == input,
                Err(e) => r == Err::<MapInput, QbError>(e),
            },
    {
        match &value.kind {
            JsonKind::Object(fields) => {
                let table_name = match find_field(fields, "table_name") {
                    Some(v) => match &v.kind {
                        JsonKind::Str(s) => Some(s.clone()),
                        _ => None,
                    },
                    None => None,
                };
                let map_value = match find_field(fields, "map") {
                    Some(v) => v,
                    None => {
                        return Err(QbError::MissingMap);
                    },
                };
                let map = match QueryMap::from_value(map_value) {
                    Ok(m) => m,
                    Err(e) => {
                        return Err(e);
                    },
                };
                let ghost target = json_object_map(*map_value);
                proof {
                    lemma_sorted_form(map@);
                    assert(opt_view(table_name) == json_table_name(fields@));
                    assert(json_lookup(fields@, "map"@) == Some(*map_value));
                }
                let r = MapInput { map, table_name };
                assert(Self::from_value_spec(*value) == Ok::<MapInputModel, QbError>(r@));
                Ok(r)
            },
            _ => Err(QbError::NotAnObject),
        }
    }
}

} // verus!
