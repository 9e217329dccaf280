//! Properties of the texts the library writes, stated over their characters.
use vstd::prelude::*;
use crate::builder::{command_sql, CommandModel};
use crate::map::{entries_map, json_pairs, keys_unique, lemma_entries_map, JsonKind, JsonValue};
use crate::model_args::{snake_case, snake_piece};
use crate::modifiers::{modifiers_sql, ModifiersModel};
use crate::text::{ascii_lower, decimal, digit_char, is_upper, join, signed_decimal};
use crate::value::QueryValue;

verus! {

// ---------------------------------------------------------------------------
// Substrings
// ---------------------------------------------------------------------------

/// `part` occurs in `s` at index `k`.
pub open spec fn occurs_at(s: Seq<char>, part: Seq<char>, k: int) -> bool {
    0 <= k && k + part.len() <= s.len() && s.subrange(k, k + part.len()) == part
}

/// `part` occurs somewhere in `s`.
pub open spec fn occurs_in(s: Seq<char>, part: Seq<char>) -> bool {
    exists|k: int| occurs_at(s, part, k)
}

/// What occurs in the middle of a concatenation occurs in the whole.
pub proof fn lemma_occurs_in_concat(p: Seq<char>, a: Seq<char>, q: Seq<char>, part: Seq<char>, k: int)
    requires
        occurs_at(a, part, k),
    ensures
        occurs_at(p + a + q, part, p.len() + k),
{
    assert((p + a + q).subrange(p.len() + k, p.len() + k + part.len()) =~= a.subrange(
        k,
        k + part.len(),
    ));
}

/// Every part of a join occurs in it.
pub proof fn lemma_join_part_occurs(parts: Seq<Seq<char>>, sep: Seq<char>, i: int) -> (k: int)
    requires
        0 <= i < parts.len(),
    ensures
        occurs_at(join(parts, sep), parts[i], k),
    decreases parts.len(),
{
    if parts.len() == 1 {
        assert(join(parts, sep).subrange(0, parts[0].len() as int) =~= parts[0]);
        0
    } else {
        let prefix = join(parts.drop_last(), sep);
        assert(join(parts, sep) == prefix + sep + parts.last());
        if i < parts.len() - 1 {
            let k = lemma_join_part_occurs(parts.drop_last(), sep, i);
            assert(parts.drop_last()[i] == parts[i]);
            lemma_occurs_in_concat(Seq::empty(), prefix, sep + parts.last(), parts[i], k);
            assert(Seq::<char>::empty() + prefix + (sep + parts.last()) =~= join(parts, sep));
            k
        } else {
            let k: int = (prefix.len() + sep.len()) as int;
            assert(join(parts, sep).subrange(k, k + parts[i].len() as int) =~= parts[i]);
            k
        }
    }
}

// ---------------------------------------------------------------------------
// LIMIT
// ---------------------------------------------------------------------------

/// A limit is always written, whatever the filters and the sort order: the
/// text of the modifiers ends with ` LIMIT ` and the limit in decimal, and
/// with no filters and no sort order it is that clause alone.
pub proof fn law_limit_always_written(m: ModifiersModel, offset: nat)
    requires
        m.limit is Some,
    ensures
        ({
            let t = modifiers_sql(m, offset);
            let clause = " LIMIT "@ + decimal(m.limit->0 as nat);
            &&& t.len() >= clause.len()
            &&& t.subrange(t.len() - clause.len(), t.len() as int) == clause
        }),
        m.filters.len() == 0 && m.sort_by is None ==> modifiers_sql(m, offset) == " LIMIT "@
            + decimal(m.limit->0 as nat),
{
    let t = modifiers_sql(m, offset);
    let clause = " LIMIT "@ + decimal(m.limit->0 as nat);
    assert(t.subrange(t.len() - clause.len(), t.len() as int) =~= clause);
    if m.filters.len() == 0 && m.sort_by is None {
        assert(t =~= clause);
    }
}

/// Setting a limit where there was none appends ` LIMIT ` and the limit to
/// the text of the modifiers and changes nothing before it, whatever the
/// filters and the sort order.
pub proof fn law_limit_only_clause_it_adds(m: ModifiersModel, l: usize, offset: nat)
    requires
        m.limit is None,
    ensures
        modifiers_sql(ModifiersModel { limit: Some(l), ..m }, offset) == modifiers_sql(m, offset)
            + " LIMIT "@ + decimal(l as nat),
{
    assert(modifiers_sql(ModifiersModel { limit: Some(l), ..m }, offset) =~= modifiers_sql(
        m,
        offset,
    ) + " LIMIT "@ + decimal(l as nat));
}

// ---------------------------------------------------------------------------
// Snake case
// ---------------------------------------------------------------------------

/// A name without uppercase characters is its own snake case: no `_` is put
/// before a digit, a lowercase letter or any other character.
pub proof fn law_snake_case_keeps_names_without_uppercase(s: Seq<char>)
    requires
        forall|i: int| 0 <= i < s.len() ==> !is_upper(#[trigger] s[i]),
    ensures
        snake_case(s) == s,
    decreases s.len(),
{
    if s.len() > 0 {
        let p = s.drop_last();
        assert forall|i: int| 0 <= i < p.len() implies !is_upper(#[trigger] p[i]) by {
            assert(p[i] == s[i]);
        }
        law_snake_case_keeps_names_without_uppercase(p);
        let c = s.last();
        assert(!is_upper(s[s.len() - 1]));
        assert(ascii_lower(c) == c);
        assert(snake_case(s) =~= s);
    }
}

/// Appending one character to a non-empty name appends to its snake case:
/// an ASCII uppercase letter becomes `_` and the same letter in lowercase
/// (its code plus 32); any character that is not uppercase stays as it is.
pub proof fn law_snake_case_append(s: Seq<char>, c: char)
    requires
        s.len() > 0,
    ensures
        65 <= (c as int) <= 90 ==> snake_case(s.push(c)) == snake_case(s) + seq![
            '_',
            ((c as int) + 32) as char,
        ],
        !is_upper(c) ==> snake_case(s.push(c)) == snake_case(s).push(c),
{
    assert(s.push(c).drop_last() =~= s);
    assert(s.push(c).last() == c);
    if 65 <= (c as int) <= 90 {
        assert(is_upper(c));
    }
    if !is_upper(c) {
        assert(ascii_lower(c) == c);
        assert(snake_case(s.push(c)) =~= snake_case(s).push(c));
    }
}

/// The snake case of a name starts with the first character lowered, with no
/// `_` before it, even when it is uppercase.
pub proof fn law_snake_case_first(c: char)
    ensures
        snake_case(seq![c]) == seq![ascii_lower(c)],
{
    let s = seq![c];
    assert(s.drop_last() =~= Seq::<char>::empty());
    assert(s.last() == c);
    assert(snake_case(s.drop_last()) == Seq::<char>::empty());
    assert(snake_case(s) == snake_case(s.drop_last()) + snake_piece(c, true));
    assert(snake_case(s) =~= seq![ascii_lower(c)]);
}

// ---------------------------------------------------------------------------
// JSON values
// ---------------------------------------------------------------------------

/// A JSON object with distinct field names gives one column per field: a
/// string field the characters of the string, any other field (a number, a
/// boolean, `null`, an array or a nested object) its JSON text.
pub proof fn law_json_field_values(fields: Seq<(String, JsonValue)>)
    requires
        forall|i: int, j: int|
            0 <= i < fields.len() && 0 <= j < fields.len() && i != j ==> (#[trigger] fields[i]).0@
                != (#[trigger] fields[j]).0@,
    ensures
        forall|i: int|
            0 <= i < fields.len() ==> #[trigger] entries_map(json_pairs(fields)).contains_key(
                fields[i].0@,
            ) && entries_map(json_pairs(fields))[fields[i].0@] == match fields[i].1.kind {
                JsonKind::Str(s) => s@,
                _ => fields[i].1.text@,
            },
        entries_map(json_pairs(fields)).dom().len() == fields.len(),
{
    let p = json_pairs(fields);
    assert(keys_unique(p)) by {
        assert forall|i: int, j: int| 0 <= i < p.len() && 0 <= j < p.len() && i != j implies
            #[trigger] p[i].0 != #[trigger] p[j].0 by {
            assert(p[i].0 == fields[i].0@);
            assert(p[j].0 == fields[j].0@);
        }
    }
    lemma_entries_map(p);
    assert forall|i: int| 0 <= i < fields.len() implies #[trigger] entries_map(p).contains_key(
        fields[i].0@,
    ) && entries_map(p)[fields[i].0@] == match fields[i].1.kind {
        JsonKind::Str(s) => s@,
        _ => fields[i].1.text@,
    } by {
        assert(p[i].0 == fields[i].0@);
        assert(entries_map(p).contains_key(p[i].0));
    }
}

// ---------------------------------------------------------------------------
// Values
// ---------------------------------------------------------------------------

/// A boolean is written `true` or `false`, so its text tells the two apart.
pub proof fn law_bool_text(b: bool)
    ensures
        b.text_of() == if b {
            seq!['t', 'r', 'u', 'e']
        } else {
            seq!['f', 'a', 'l', 's', 'e']
        },
        b.text_of() != (!b).text_of(),
{
    reveal_strlit("true");
    reveal_strlit("false");
    assert(true.text_of() =~= seq!['t', 'r', 'u', 'e']);
    assert(false.text_of() =~= seq!['f', 'a', 'l', 's', 'e']);
    assert(true.text_of().len() != false.text_of().len());
}

/// The number a text of decimal digits stands for.
pub open spec fn digits_value(s: Seq<char>) -> int
    decreases s.len(),
{
    if s.len() == 0 {
        0
    } else {
        digits_value(s.drop_last()) * 10 + ((s.last() as int) - 48)
    }
}

/// The number a text stands for, with a leading `-` for a negative one.
pub open spec fn signed_value(s: Seq<char>) -> int {
    if s.len() > 0 && s[0] == '-' {
        -digits_value(s.drop_first())
    } else {
        digits_value(s)
    }
}

/// The decimal text of a number reads back as the number; it is made of the
/// digits `0` to `9` only, and has no leading zero.
pub proof fn law_decimal_reads_back(n: nat)
    ensures
        digits_value(decimal(n)) == n,
        decimal(n).len() > 0,
        forall|i: int| 0 <= i < decimal(n).len() ==> 48 <= (#[trigger] decimal(n)[i] as int) <= 57,
        decimal(n).len() > 1 ==> decimal(n)[0] != '0',
    decreases n,
{
    if n < 10 {
        let s = seq![digit_char(n)];
        assert(decimal(n) == s);
        assert(s.drop_last() =~= Seq::<char>::empty());
        assert(s.last() == digit_char(n));
        assert(digits_value(s.drop_last()) == 0);
        assert((digit_char(n) as int) - 48 == n);
    } else {
        law_decimal_reads_back(n / 10);
        let p = decimal(n / 10);
        let d = digit_char(n % 10);
        assert(decimal(n) == p.push(d));
        assert(p.push(d).drop_last() =~= p);
        assert((d as int) - 48 == n % 10);
        assert(n == (n / 10) * 10 + n % 10);
        assert forall|i: int| 0 <= i < decimal(n).len() implies 48 <= (
        #[trigger] decimal(n)[i] as int) <= 57 by {
            if i < p.len() {
                assert(decimal(n)[i] == p[i]);
            }
        }
        assert(decimal(n)[0] == p[0]);
        if n / 10 < 10 {
            assert(p == seq![digit_char(n / 10)]);
            assert(n / 10 > 0);
            assert(p[0] == digit_char(n / 10));
        } else {
            law_decimal_reads_back(n / 100);
            assert(p == decimal(n / 10 / 10).push(digit_char((n / 10) % 10)));
            assert(p.len() > 1);
        }
    }
}

/// The signed decimal text of an integer reads back as the integer.
pub proof fn law_signed_decimal_reads_back(n: int)
    ensures
        signed_value(signed_decimal(n)) == n,
{
    if n < 0 {
        law_decimal_reads_back((-n) as nat);
        let t = decimal((-n) as nat);
        assert((seq!['-'] + t).drop_first() =~= t);
        assert((seq!['-'] + t)[0] == '-');
    } else {
        law_decimal_reads_back(n as nat);
        assert(48 <= (decimal(n as nat)[0] as int));
    }
}

/// An integer value is written as its decimal text, which reads back as the
/// same integer: the texts of two different integers differ.
pub proof fn law_integer_texts_read_back()
    ensures
        forall|x: i16| #[trigger] signed_value(x.text_of()) == x,
        forall|x: i32| #[trigger] signed_value(x.text_of()) == x,
        forall|x: i64| #[trigger] signed_value(x.text_of()) == x,
        forall|x: u8| #[trigger] digits_value(x.text_of()) == x,
        forall|x: u16| #[trigger] digits_value(x.text_of()) == x,
        forall|x: u32| #[trigger] digits_value(x.text_of()) == x,
        forall|x: u64| #[trigger] digits_value(x.text_of()) == x,
        forall|x: usize| #[trigger] digits_value(x.text_of()) == x,
{
    assert forall|x: i16| #[trigger] signed_value(x.text_of()) == x by {
        law_signed_decimal_reads_back(x as int);
    }
    assert forall|x: i32| #[trigger] signed_value(x.text_of()) == x by {
        law_signed_decimal_reads_back(x as int);
    }
    assert forall|x: i64| #[trigger] signed_value(x.text_of()) == x by {
        law_signed_decimal_reads_back(x as int);
    }
    assert forall|x: u8| #[trigger] digits_value(x.text_of()) == x by {
        law_decimal_reads_back(x as nat);
    }
    assert forall|x: u16| #[trigger] digits_value(x.text_of()) == x by {
        law_decimal_reads_back(x as nat);
    }
    assert forall|x: u32| #[trigger] digits_value(x.text_of()) == x by {
        law_decimal_reads_back(x as nat);
    }
    assert forall|x: u64| #[trigger] digits_value(x.text_of()) == x by {
        law_decimal_reads_back(x as nat);
    }
    assert forall|x: usize| #[trigger] digits_value(x.text_of()) == x by {
        law_decimal_reads_back(x as nat);
    }
}

// ---------------------------------------------------------------------------
// Statements
// ---------------------------------------------------------------------------

/// Every column of an `UPDATE`'s map occurs in its text as `column = $i`,
/// `i` counting the columns from 1 in the map's order.
pub proof fn law_update_sets_every_column(t: Seq<char>, m: Seq<(Seq<char>, Seq<char>)>)
    ensures
        forall|i: int|
            0 <= i < m.len() ==> occurs_in(
                command_sql(CommandModel::Update(t, m)),
                #[trigger] m[i].0 + " = "@ + "$"@ + decimal((i + 1) as nat),
            ),
{
    let sql = command_sql(CommandModel::Update(t, m));
    assert forall|i: int| 0 <= i < m.len() implies occurs_in(
        sql,
        #[trigger] m[i].0 + " = "@ + "$"@ + decimal((i + 1) as nat),
    ) by {
        let parts = crate::builder::set_texts(m);
        let part = m[i].0 + " = "@ + "$"@ + decimal((i + 1) as nat);
        assert(parts[i] =~= part);
        let k = lemma_join_part_occurs(parts, ", "@, i);
        let head = "UPDATE "@ + t + " SET "@;
        lemma_occurs_in_concat(head, join(parts, ", "@), Seq::empty(), part, k);
        assert(head + join(parts, ", "@) + Seq::<char>::empty() =~= sql);
        assert(occurs_at(sql, part, head.len() + k));
    }
}

/// Every column of an `INSERT`'s map occurs in its column list, and every
/// placeholder `$1` to `$n` in its values list.
pub proof fn law_insert_lists_every_column(
    t: Seq<char>,
    m: Seq<(Seq<char>, Seq<char>)>,
    r: Option<Seq<char>>,
)
    ensures
        ({
            let sql = command_sql(CommandModel::Insert { table_name: t, map: m, returning: r });
            &&& forall|i: int| 0 <= i < m.len() ==> occurs_in(sql, #[trigger] m[i].0)
            &&& forall|i: int|
                0 <= i < m.len() ==> occurs_in(sql, "$"@ + decimal(#[trigger] ((i + 1) as nat)))
        }),
{
    let sql = command_sql(CommandModel::Insert { table_name: t, map: m, returning: r });
    let keys = crate::builder::map_keys(m);
    let args = crate::builder::arg_texts(m.len());
    let head = "INSERT INTO "@ + t + " ("@;
    let mid = ") VALUES ("@ + join(args, ", "@) + ")"@ + crate::builder::returning_text(r);
    assert(sql =~= head + join(keys, ", "@) + mid);
    assert forall|i: int| 0 <= i < m.len() implies occurs_in(sql, #[trigger] m[i].0) by {
        let k = lemma_join_part_occurs(keys, ", "@, i);
        lemma_occurs_in_concat(head, join(keys, ", "@), mid, m[i].0, k);
    }
    let head2 = head + join(keys, ", "@) + ") VALUES ("@;
    let tail2 = ")"@ + crate::builder::returning_text(r);
    assert(sql =~= head2 + join(args, ", "@) + tail2);
    assert forall|i: int| 0 <= i < m.len() implies occurs_in(
        sql,
        "$"@ + decimal(#[trigger] ((i + 1) as nat)),
    ) by {
        let k = lemma_join_part_occurs(args, ", "@, i);
        assert(args[i] == "$"@ + decimal((i + 1) as nat));
        lemma_occurs_in_concat(head2, join(args, ", "@), tail2, args[i], k);
    }
}

} // verus!
