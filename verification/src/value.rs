//! Values that can be written into a query as text.
use vstd::prelude::*;
use crate::text::{decimal, signed_decimal, write_decimal, write_signed};

verus! {

/// A value that a filter or a column map holds as its text.
pub trait QueryValue {
    /// The text the value is written as.
    spec fn text_of(&self) -> Seq<char>;

    /// Writes the value as text.
    fn to_text(&self) -> (s: String)
        ensures
            s@ == self.text_of(),
    ;
}

impl QueryValue for i16 {
    open spec fn text_of(&self) -> Seq<char> {
        signed_decimal(*self as int)
    }

    fn to_text(&self) -> (s: String) {
        let mut s = String::new();
        write_signed(&mut s, *self as i64);
        assert(s@ =~= signed_decimal(*self as int));
        s
    }
}

impl QueryValue for i32 {
    open spec fn text_of(&self) -> Seq<char> {
        signed_decimal(*self as int)
    }

    fn to_text(&self) -> (s: String) {
        let mut s = String::new();
        write_signed(&mut s, *self as i64);
        assert(s@ =~= signed_decimal(*self as int));
        s
    }
}

impl QueryValue for i64 {
    open spec fn text_of(&self) -> Seq<char> {
        signed_decimal(*self as int)
    }

    fn to_text(&self) -> (s: String) {
        let mut s = String::new();
        write_signed(&mut s, *self);
        assert(s@ =~= signed_decimal(*self as int));
        s
    }
}

impl QueryValue for u8 {
    open spec fn text_of(&self) -> Seq<char> {
        decimal(*self as nat)
    }

    fn to_text(&self) -> (s: String) {
        let mut s = String::new();
        write_decimal(&mut s, *self as u64);
        assert(s@ =~= decimal(*self as nat));
        s
    }
}

impl QueryValue for u16 {
    open spec fn text_of(&self) -> Seq<char> {
        decimal(*self as nat)
    }

    fn to_text(&self) -> (s: String) {
        let mut s = String::new();
        write_decimal(&mut s, *self as u64);
        assert(s@ =~= decimal(*self as nat));
        s
    }
}

impl QueryValue for u32 {
    open spec fn text_of(&self) -> Seq<char> {
        decimal(*self as nat)
    }

    fn to_text(&self) -> (s: String) {
        let mut s = String::new();
        write_decimal(&mut s, *self as u64);
        assert(s@ =~= decimal(*self as nat));
        s
    }
}

impl QueryValue for u64 {
    open spec fn text_of(&self) -> Seq<char> {
        decimal(*self as nat)
    }

    fn to_text(&self) -> (s: String) {
        let mut s = String::new();
        write_decimal(&mut s, *self);
        assert(s@ =~= decimal(*self as nat));
        s
    }
}

impl QueryValue for usize {
    open spec fn text_of(&self) -> Seq<char> {
        decimal(*self as nat)
    }

    fn to_text(&self) -> (s: String) {
        let mut s = String::new();
        write_decimal(&mut s, *self as u64);
        assert(s@ =~= decimal(*self as nat));
        s
    }
}

impl QueryValue for bool {
    open spec fn text_of(&self) -> Seq<char> {
        if *self {
            "true"@
        } else {
            "false"@
        }
    }

    fn to_text(&self) -> (s: String) {
        if *self {
            String::from_str("true")
        } else {
            String::from_str("false")
        }
    }
}

impl QueryValue for char {
    open spec fn text_of(&self) -> Seq<char> {
        seq![*self]
    }

    fn to_text(&self) -> (s: String) {
        let mut s = String::new();
        crate::text::push_char(&mut s, *self);
        assert(s@ =~= seq![*self]);
        s
    }
}

impl<'a> QueryValue for &'a str {
    open spec fn text_of(&self) -> Seq<char> {
        (*self)@
    }

    fn to_text(&self) -> (s: String) {
        String::from_str(*self)
    }
}

impl QueryValue for String {
    open spec fn text_of(&self) -> Seq<char> {
        self@
    }

    fn to_text(&self) -> (s: String) {
        self.clone()
    }
}

impl<'a> QueryValue for &'a String {
    open spec fn text_of(&self) -> Seq<char> {
        (*self)@
    }

    fn to_text(&self) -> (s: String) {
        (*self).clone()
    }
}

} // verus!
