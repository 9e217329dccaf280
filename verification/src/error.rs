//! Errors of the builder.
use vstd::prelude::*;

verus! {

/// Errors of the builder.
#[derive(Clone, Copy, Debug, PartialEq, Eq, Structural)]
pub enum QbError {
    /// A statement needs the table name and none was set.
    MissingTableName,
    /// A JSON value that should be an object is not one.
    NotAnObject,
    /// A JSON map input has no `map` field.
    MissingMap,
}

impl QbError {
    /// The message of the error.
    pub fn message(&self) -> (r: &'static str)
        ensures
            r@ == match self {
                QbError::MissingTableName => "Missing table name. Call qb.set_table_name(value)."@,
                QbError::NotAnObject => "value is not a JSON object"@,
                QbError::MissingMap => "map input missing map"@,
            },
    {
        match self {
            QbError::MissingTableName => "Missing table name. Call qb.set_table_name(value).",
            QbError::NotAnObject => "value is not a JSON object",
            QbError::MissingMap => "map input missing map",
        }
    }
}

} // verus!
