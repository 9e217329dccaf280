//! A query builder that writes the SQL text of simple CRUD statements
//! (`SELECT`, `INSERT`, `UPDATE`, `DELETE`) together with the list of
//! arguments that are bound to its `$n` placeholders.
//!
//! The contracts state the exact text that each function writes, over the
//! text models in `text`. Everything is verified except three wrappers of std
//! functions in `text` (`String::push`, `str::trim`, `char::is_uppercase`),
//! whose contracts state their documented behaviour.
pub mod builder;
pub mod error;
pub mod extensions;
pub mod laws;
pub mod map;
pub mod model_args;
pub mod modifiers;
pub mod text;
pub mod text_laws;
pub mod value;
