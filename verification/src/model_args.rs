//! The arguments of the model derive: the table name, written in snake case,
//! and the primary column.
use vstd::prelude::*;
use crate::text::{chars_of, ascii_lower, is_upper, is_uppercase, push_char, to_ascii_lowercase};

verus! {

/// What one character of a name becomes: an `_` before an uppercase
/// character that is not the first, then the character lowered to ASCII
/// lowercase.
pub open spec fn snake_piece(c: char, first: bool) -> Seq<char> {
    if is_upper(c) && !first {
        seq!['_', ascii_lower(c)]
    } else {
        seq![ascii_lower(c)]
    }
}

/// The snake case of a name: the pieces of its characters in order.
pub open spec fn snake_case(s: Seq<char>) -> Seq<char>
    decreases s.len(),
{
    if s.len() == 0 {
        Seq::empty()
    } else {
        snake_case(s.drop_last()) + snake_piece(s.last(), s.len() == 1)
    }
}

/// Writes `name` in snake case: `FooBar` becomes `foo_bar`.
pub fn to_snake_case(name: &str) -> (r: String)
    ensures
        r@ == snake_case(name@),
{
    let mut snake_case_text = String::new();
    let chars = chars_of(name);
    let n = chars.len();
    let mut i: usize = 0;
    while i < n
        invariant
            chars@ == name@,
            n == name@.len(),
            i <= n,
            snake_case_text@ == snake_case(name@.take(i as int)),
        decreases n - i,
    {
        let c = chars[i];
        if is_uppercase(c) && i > 0 {
            push_char(&mut snake_case_text, '_');
        }
        push_char(&mut snake_case_text, to_ascii_lowercase(c));
        proof {
            let t = name@.take(i + 1);
            assert(t.drop_last() =~= name@.take(i as int));
            assert(t.last() == c);
            assert(snake_case_text@ =~= snake_case(t));
        }
        i = i + 1;
    }
    assert(name@.take(n as int) =~= name@);
    snake_case_text
}

/// The primary column a model has when none is given: `id`.
pub fn default_primary_column() -> (r: String)
    ensures
        r@ == "id"@,
{
    String::from_str("id")
}

/// The arguments of the model derive.
pub struct ModelArgs {
    /// The table name as written; the derive writes it in snake case.
    pub table_name: String,
    /// The primary column.
    pub primary_column: String,
}

impl ModelArgs {
    /// The arguments of the model `ident`: the table name is `table_name`, or
    /// the model's own name when none is given; the primary column is
    /// `primary_column`, or `id` when none is given.
    pub fn for_model(ident: &str, table_name: Option<String>, primary_column: Option<String>) -> (r:
        ModelArgs)
        ensures
            r.table_name@ == match table_name {
                Some(t) => t@,
                None => ident@,
            },
            r.primary_column@ == match primary_column {
                Some(p) => p@,
                None => "id"@,
            },
    {
        let table_name = match table_name {
            Some(t) => t,
            None => String::from_str(ident),
        };
        let primary_column = match primary_column {
            Some(p) => p,
            None => default_primary_column(),
        };
        ModelArgs { table_name, primary_column }
    }

    /// The table name the derive gives the model: the snake case of `table_name`.
    pub fn model_table_name(&self) -> (r: String)
        ensures
            r@ == snake_case(self.table_name@),
    {
        to_snake_case(self.table_name.as_str())
    }
}

} // verus!
