//! Short constructors of filters.
use vstd::prelude::*;
use crate::modifiers::{FilterJoiner, FilterModel, FilterOperator, IntoFilter, QueryFilter};
use crate::value::QueryValue;

verus! {

/// The filter `key = value`.
pub fn eq<'q, V: QueryValue>(key: &'q str, value: V) -> (f: QueryFilter<'q>)
    ensures
        f@ == (FilterModel {
            key: key@,
            value: value.text_of(),
            joiner: None,
            operator: FilterOperator::Eq,
        }),
{
    (key, value).into_filter().with_op(FilterOperator::Eq)
}

/// The filter `value`, joined with `AND`.
pub fn and<'q, F: IntoFilter<'q>>(value: F) -> (f: QueryFilter<'q>)
    ensures
        f@ == (FilterModel { joiner: Some(FilterJoiner::And), ..value.filter_of() }),
{
    value.into_filter().with_joiner(FilterJoiner::And)
}

/// The filter `value`, joined with `OR`.
pub fn or<'q, F: IntoFilter<'q>>(value: F) -> (f: QueryFilter<'q>)
    ensures
        f@ == (FilterModel { joiner: Some(FilterJoiner::Or), ..value.filter_of() }),
{
    value.into_filter().with_joiner(FilterJoiner::Or)
}

} // verus!
