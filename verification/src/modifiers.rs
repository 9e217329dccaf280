//! Query modifiers: the `WHERE` filters, the sort order and the row limit
//! that follow a statement.
use vstd::prelude::*;
use crate::extensions::{and, or};
use crate::text::{
    decimal, join, join_strings, join_strs, str_trim, str_views, string_views, trim,
    write_decimal,
};
use crate::value::QueryValue;

verus! {

/// How a filter joins the filters before it.
#[derive(Clone, Copy, Debug)]
pub enum FilterJoiner {
    And,
    Or,
}

/// The comparison a filter makes.
#[derive(Clone, Copy, Debug)]
pub enum FilterOperator {
    Eq,
    Gt,
}

/// Sort direction.
#[derive(Clone, Copy, Debug)]
#[allow(non_camel_case_types, clippy::upper_case_acronyms)]
pub enum QuerySortDir {
    ASC,
    DESC,
}

/// The text of a joiner; a filter without one is joined by nothing.
pub open spec fn joiner_text(j: Option<FilterJoiner>) -> Seq<char> {
    match j {
        Some(FilterJoiner::And) => "AND"@,
        Some(FilterJoiner::Or) => "OR"@,
        None => ""@,
    }
}

/// The SQL text of an operator.
pub open spec fn operator_text(o: FilterOperator) -> Seq<char> {
    match o {
        FilterOperator::Eq => "="@,
        FilterOperator::Gt => ">"@,
    }
}

/// The SQL text of a sort direction.
pub open spec fn dir_text(d: QuerySortDir) -> Seq<char> {
    match d {
        QuerySortDir::ASC => "ASC"@,
        QuerySortDir::DESC => "DESC"@,
    }
}

impl FilterOperator {
    /// The SQL text of the operator (`=` or `>`).
    pub fn as_str(&self) -> (r: &'static str)
        ensures
            r@ == operator_text(*self),
    {
        match self {
            FilterOperator::Eq => "=",
            FilterOperator::Gt => ">",
        }
    }
}

impl QuerySortDir {
    /// The SQL text of the direction (`ASC` or `DESC`).
    pub fn as_str(&self) -> (r: &'static str)
        ensures
            r@ == dir_text(*self),
    {
        match self {
            QuerySortDir::ASC => "ASC",
            QuerySortDir::DESC => "DESC",
        }
    }
}

fn joiner_str(j: Option<FilterJoiner>) -> (r: &'static str)
    ensures
        r@ == joiner_text(j),
{
    match j {
        Some(FilterJoiner::And) => "AND",
        Some(FilterJoiner::Or) => "OR",
        None => "",
    }
}

/// What a filter is: the column it tests, the text of the value it is
/// compared with, how it joins the filters before it, and the comparison.
pub struct FilterModel {
    pub key: Seq<char>,
    pub value: Seq<char>,
    pub joiner: Option<FilterJoiner>,
    pub operator: FilterOperator,
}

/// One condition of a `WHERE` clause.
pub struct QueryFilter<'q> {
    key: &'q str,
    value: String,
    joiner: Option<FilterJoiner>,
    operator: FilterOperator,
}

impl<'q> View for QueryFilter<'q> {
    type V = FilterModel;

    closed spec fn view(&self) -> FilterModel {
        FilterModel {
            key: self.key@,
            value: self.value@,
            joiner: self.joiner,
            operator: self.operator,
        }
    }
}

impl<'q> QueryFilter<'q> {
    /// A filter `key = value` with no joiner.
    fn new(key: &'q str, value: String) -> (f: QueryFilter<'q>)
        ensures
            f@ == (FilterModel {
                key: key@,
                value: value@,
                joiner: None,
                operator: FilterOperator::Eq,
            }),
    {
        QueryFilter { key, value, joiner: None, operator: FilterOperator::Eq }
    }

    /// The column the filter tests.
    pub fn key(&self) -> (r: &str)
        ensures
            r@ == self@.key,
    {
        self.key
    }

    /// The text of the value the column is compared with.
    pub fn value(&self) -> (r: &str)
        ensures
            r@ == self@.value,
    {
        self.value.as_str()
    }

    /// The same filter with the comparison `value`.
    pub fn with_op(self, value: FilterOperator) -> (f: QueryFilter<'q>)
        ensures
            f@ == (FilterModel { operator: value, ..self@ }),
    {
        let mut s = self;
        s.operator = value;
        s
    }

    /// The same filter joined by `value`.
    pub fn with_joiner(self, value: FilterJoiner) -> (f: QueryFilter<'q>)
        ensures
            f@ == (FilterModel { joiner: Some(value), ..self@ }),
    {
        let mut s = self;
        s.joiner = Some(value);
        s
    }
}

/// What can be turned into a filter: a filter itself, or a pair of a column
/// and a value, which gives the filter `column = value`.
pub trait IntoFilter<'q> {
    /// The filter this value becomes.
    spec fn filter_of(&self) -> FilterModel;

    /// Turns the value into a filter.
    fn into_filter(self) -> (f: QueryFilter<'q>)
        ensures
            f@ == self.filter_of(),
    ;
}

impl<'q> IntoFilter<'q> for QueryFilter<'q> {
    open spec fn filter_of(&self) -> FilterModel {
        self@
    }

    fn into_filter(self) -> (f: QueryFilter<'q>) {
        self
    }
}

impl<'q, T: QueryValue> IntoFilter<'q> for (&'q str, T) {
    open spec fn filter_of(&self) -> FilterModel {
        FilterModel {
            key: self.0@,
            value: self.1.text_of(),
            joiner: None,
            operator: FilterOperator::Eq,
        }
    }

    fn into_filter(self) -> (f: QueryFilter<'q>) {
        let (k, v) = self;
        QueryFilter::new(k, v.to_text())
    }
}

/// What a sort order is: the columns and the direction.
pub struct SortModel {
    pub columns: Seq<Seq<char>>,
    pub dir: QuerySortDir,
}

/// An `ORDER BY` clause.
pub struct QuerySort<'q> {
    columns: Vec<&'q str>,
    dir: QuerySortDir,
}

impl<'q> View for QuerySort<'q> {
    type V = SortModel;

    closed spec fn view(&self) -> SortModel {
        SortModel { columns: str_views(self.columns@), dir: self.dir }
    }
}

impl<'q> QuerySort<'q> {
    /// Sorts by `columns` in direction `dir`.
    pub fn new(columns: Vec<&'q str>, dir: QuerySortDir) -> (s: QuerySort<'q>)
        ensures
            s@ == (SortModel { columns: str_views(columns@), dir }),
    {
        QuerySort { columns, dir }
    }
}

/// What a set of modifiers is: the filters in the order they were added, the
/// limit and the sort order.
pub struct ModifiersModel {
    pub filters: Seq<FilterModel>,
    pub limit: Option<usize>,
    pub sort_by: Option<SortModel>,
}

/// The views of a sequence of filters.
pub open spec fn filter_views<'q>(fs: Seq<QueryFilter<'q>>) -> Seq<FilterModel> {
    fs.map_values(|f: QueryFilter<'q>| f@)
}

/// The `WHERE` filters, sort order and limit of a query.
pub struct Modifiers<'q> {
    filters: Vec<QueryFilter<'q>>,
    limit: Option<usize>,
    sort_by: Option<QuerySort<'q>>,
}

impl<'q> View for Modifiers<'q> {
    type V = ModifiersModel;

    closed spec fn view(&self) -> ModifiersModel {
        ModifiersModel {
            filters: filter_views(self.filters@),
            limit: self.limit,
            sort_by: match self.sort_by {
                Some(s) => Some(s@),
                None => None,
            },
        }
    }
}

/// The text of filter `f` when its value is bound to placeholder `$n`.
pub open spec fn clause_text(f: FilterModel, n: nat) -> Seq<char> {
    joiner_text(f.joiner) + " "@ + f.key + " "@ + operator_text(f.operator) + " $"@ + decimal(n)
}

/// The texts of the filters, the first bound to placeholder `$offset`.
pub open spec fn clause_texts(fs: Seq<FilterModel>, offset: nat) -> Seq<Seq<char>> {
    Seq::new(fs.len(), |i: int| clause_text(fs[i], (i + offset) as nat))
}

/// The `WHERE` clause of the filters: nothing when there are none.
pub open spec fn where_text(fs: Seq<FilterModel>, offset: nat) -> Seq<char> {
    if fs.len() == 0 {
        Seq::empty()
    } else {
        " WHERE "@ + trim(join(clause_texts(fs, offset), " "@))
    }
}

/// The `ORDER BY` clause: nothing when there is no sort order.
pub open spec fn sort_text(s: Option<SortModel>) -> Seq<char> {
    match s {
        Some(s) => " ORDER BY "@ + join(s.columns, ","@) + " "@ + dir_text(s.dir),
        None => Seq::empty(),
    }
}

/// The `LIMIT` clause: nothing when there is no limit.
pub open spec fn limit_text(l: Option<usize>) -> Seq<char> {
    match l {
        Some(n) => " LIMIT "@ + decimal(n as nat),
        None => Seq::empty(),
    }
}

/// The SQL text that modifiers add to a statement whose first filter value is
/// bound to placeholder `$offset`.
pub open spec fn modifiers_sql(m: ModifiersModel, offset: nat) -> Seq<char> {
    where_text(m.filters, offset) + sort_text(m.sort_by) + limit_text(m.limit)
}

impl<'q> Modifiers<'q> {
    /// No filters, no limit, no sort order.
    pub fn new() -> (m: Modifiers<'q>)
        ensures
            m@ == (ModifiersModel { filters: Seq::empty(), limit: None, sort_by: None }),
    {
        let m = Modifiers { filters: Vec::new(), limit: None, sort_by: None };
        assert(m@.filters =~= Seq::<FilterModel>::empty());
        m
    }

    /// Adds a filter as it is; the first one starts the `WHERE` clause.
    pub fn with_filter<F: IntoFilter<'q>>(self, filter: F) -> (m: Modifiers<'q>)
        ensures
            m@ == (ModifiersModel { filters: self@.filters.push(filter.filter_of()), ..self@ }),
    {
        let mut s = self;
        let f = filter.into_filter();
        s.filters.push(f);
        assert(filter_views(s.filters@) =~= filter_views(self.filters@).push(f@));
        s
    }

    /// Adds a filter joined with `AND`.
    pub fn and<F: IntoFilter<'q>>(self, filter: F) -> (m: Modifiers<'q>)
        ensures
            m@ == (ModifiersModel {
                filters: self@.filters.push(
                    FilterModel { joiner: Some(FilterJoiner::And), ..filter.filter_of() },
                ),
                ..self@
            }),
    {
        let mut s = self;
        let f = and(filter);
        s.filters.push(f);
        assert(filter_views(s.filters@) =~= filter_views(self.filters@).push(f@));
        s
    }

    /// Adds a filter joined with `OR`.
    pub fn or<F: IntoFilter<'q>>(self, filter: F) -> (m: Modifiers<'q>)
        ensures
            m@ == (ModifiersModel {
                filters: self@.filters.push(
                    FilterModel { joiner: Some(FilterJoiner::Or), ..filter.filter_of() },
                ),
                ..self@
            }),
    {
        let mut s = self;
        let f = or(filter);
        s.filters.push(f);
        assert(filter_views(s.filters@) =~= filter_views(self.filters@).push(f@));
        s
    }

    /// The filters in the order they were added.
    pub fn filters(&self) -> (r: &[QueryFilter<'q>])
        ensures
            filter_views(r@) == self@.filters,
    {
        self.filters.as_slice()
    }

    /// Sets the row limit.
    pub fn with_limit(self, limit: usize) -> (m: Modifiers<'q>)
        ensures
            m@ == (ModifiersModel { limit: Some(limit), ..self@ }),
    {
        let mut s = self;
        s.limit = Some(limit);
        s
    }

    /// Sets the sort order.
    pub fn with_sort(self, sort_by: QuerySort<'q>) -> (m: Modifiers<'q>)
        ensures
            m@ == (ModifiersModel { sort_by: Some(sort_by@), ..self@ }),
    {
        let mut s = self;
        s.sort_by = Some(sort_by);
        s
    }

    /// The text these modifiers add to a statement, the first filter value
    /// bound to placeholder `$arg_offset`.
    pub fn sql_str(&self, arg_offset: &usize) -> (r: String)
        requires
            self@.filters.len() + *arg_offset <= usize::MAX + 1,
        ensures
            r@ == modifiers_sql(self@, *arg_offset as nat),
    {
        let offset = *arg_offset;
        let ghost fs = self@.filters;
        let mut clauses: Vec<String> = Vec::new();
        let mut i: usize = 0;
        while i < self.filters.len()
            invariant
                i <= self.filters.len(),
                fs == filter_views(self.filters@),
                fs.len() + offset <= usize::MAX + 1,
                string_views(clauses@) =~= clause_texts(fs, offset as nat).take(i as int),
            decreases self.filters.len() - i,
        {
            let f = &self.filters[i];
            let mut c = String::new();
            c.append(joiner_str(f.joiner));
            c.append(" ");
            c.append(f.key);
            c.append(" ");
            c.append(f.operator.as_str());
            c.append(" $");
            write_decimal(&mut c, (i + offset) as u64);
            assert(c@ =~= clause_text(fs[i as int], (i + offset) as nat));
            let ghost prev = clauses@;
            clauses.push(c);
            assert(string_views(clauses@) =~= string_views(prev).push(c@));
            i = i + 1;
            assert(string_views(clauses@) =~= clause_texts(fs, offset as nat).take(i as int));
        }
        assert(clause_texts(fs, offset as nat).take(i as int) =~= clause_texts(fs, offset as nat));
        let mut out = String::new();
        if clauses.len() > 0 {
            let joined = join_strings(&clauses, " ");
            out.append(" WHERE ");
            out.append(str_trim(joined.as_str()));
        }
        let ghost w = out@;
        assert(w =~= where_text(fs, offset as nat));
        match &self.sort_by {
            Some(s) => {
                out.append(" ORDER BY ");
                let cols = join_strs(&s.columns, ",");
                out.append(cols.as_str());
                out.append(" ");
                out.append(s.dir.as_str());
            },
            None => {},
        }
        let ghost ws = out@;
        assert(ws =~= w + sort_text(self@.sort_by));
        match self.limit {
            Some(l) => {
                out.append(" LIMIT ");
                write_decimal(&mut out, l as u64);
            },
            None => {},
        }
        assert(out@ =~= ws + limit_text(self@.limit));
        out
    }
}

impl<'q> Default for Modifiers<'q> {
    fn default() -> (m: Modifiers<'q>)
        ensures
            m@ == (ModifiersModel { filters: Seq::empty(), limit: None, sort_by: None }),
    {
        Self::new()
    }
}

} // verus!
