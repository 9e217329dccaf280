//! Statements and the builder that writes them with their arguments.
use vstd::prelude::*;
use crate::map::{arg_text, entry_views, opt_view, QueryMap};
use crate::modifiers::{filter_views, modifiers_sql, FilterModel, Modifiers, ModifiersModel};
use crate::error::QbError;
use crate::text::{join, join_strings, join_strs, str_views, string_views};

verus! {

/// What the columns of a `SELECT` are.
pub enum SelectModel {
    WildCard,
    Fields(Seq<Seq<char>>),
}

/// What a statement is.
pub enum CommandModel {
    Insert {
        table_name: Seq<char>,
        map: Seq<(Seq<char>, Seq<char>)>,
        returning: Option<Seq<char>>,
    },
    Select(SelectModel, Seq<char>),
    Update(Seq<char>, Seq<(Seq<char>, Seq<char>)>),
    Delete(Seq<char>),
    Null,
}

/// The columns of a map, in its order.
pub open spec fn map_keys(m: Seq<(Seq<char>, Seq<char>)>) -> Seq<Seq<char>> {
    m.map_values(|e: (Seq<char>, Seq<char>)| e.0)
}

/// The values of a map, in its order.
pub open spec fn map_values(m: Seq<(Seq<char>, Seq<char>)>) -> Seq<Seq<char>> {
    m.map_values(|e: (Seq<char>, Seq<char>)| e.1)
}

/// The placeholders `$1` to `$n`.
pub open spec fn arg_texts(n: nat) -> Seq<Seq<char>> {
    Seq::new(n, |i: int| arg_text(i as nat))
}

/// The assignments `column = $i` of an `UPDATE`, numbered from `$1`.
pub open spec fn set_texts(m: Seq<(Seq<char>, Seq<char>)>) -> Seq<Seq<char>> {
    Seq::new(m.len(), |i: int| m[i].0 + " = "@ + arg_text(i as nat))
}

/// The `RETURNING` clause: nothing when there is no column to return.
pub open spec fn returning_text(r: Option<Seq<char>>) -> Seq<char> {
    match r {
        Some(c) => " RETURNING "@ + c,
        None => Seq::empty(),
    }
}

/// The SQL text of a statement.
pub open spec fn command_sql(c: CommandModel) -> Seq<char> {
    match c {
        CommandModel::Insert { table_name, map, returning } => "INSERT INTO "@ + table_name
            + " ("@ + join(map_keys(map), ", "@) + ") VALUES ("@ + join(
            arg_texts(map.len()),
            ", "@,
        ) + ")"@ + returning_text(returning),
        CommandModel::Select(SelectModel::WildCard, table_name) => "SELECT * FROM "@ + table_name,
        CommandModel::Select(SelectModel::Fields(fields), table_name) => "SELECT "@ + join(
            fields,
            ", "@,
        ) + " FROM "@ + table_name,
        CommandModel::Delete(table_name) => "DELETE FROM "@ + table_name,
        CommandModel::Update(table_name, map) => "UPDATE "@ + table_name + " SET "@ + join(
            set_texts(map),
            ", "@,
        ),
        CommandModel::Null => "NULL"@,
    }
}

/// The number of the placeholder that the first filter value of the
/// modifiers is bound to: after the values of an `UPDATE`'s map.
pub open spec fn arg_offset(c: CommandModel) -> nat {
    match c {
        CommandModel::Update(_, map) => 1 + map.len(),
        _ => 1,
    }
}

/// The arguments a statement binds, in the order of its placeholders.
pub open spec fn command_args(c: CommandModel) -> Seq<Seq<char>> {
    match c {
        CommandModel::Update(_, map) => map_values(map),
        CommandModel::Insert { map, .. } => map_values(map),
        _ => Seq::empty(),
    }
}

/// The values of filters, in their order.
pub open spec fn filter_values(fs: Seq<FilterModel>) -> Seq<Seq<char>> {
    fs.map_values(|f: FilterModel| f.value)
}

/// The arguments that modifiers bind.
pub open spec fn modifiers_args(m: Option<ModifiersModel>) -> Seq<Seq<char>> {
    match m {
        Some(m) => filter_values(m.filters),
        None => Seq::empty(),
    }
}

/// The columns of a `SELECT`.
pub enum QuerySelectCommand<'q> {
    WildCard,
    Fields(Vec<&'q str>),
}

/// A statement.
pub enum QueryCommand<'q> {
    Insert {
        table_name: String,
        map: QueryMap,
        /// The column the table should return after creating.
        returning: Option<&'q str>,
    },
    Select(QuerySelectCommand<'q>, &'q str),
    Update(&'q str, QueryMap),
    Delete(&'q str),
    Null,
}

impl<'q> View for QueryCommand<'q> {
    type V = CommandModel;

    open spec fn view(&self) -> CommandModel {
        match self {
            QueryCommand::Insert { table_name, map, returning } => CommandModel::Insert {
                table_name: table_name@,
                map: map@,
                returning: match returning {
                    Some(c) => Some(c@),
                    None => None,
                },
            },
            QueryCommand::Select(QuerySelectCommand::WildCard, t) => CommandModel::Select(
                SelectModel::WildCard,
                t@,
            ),
            QueryCommand::Select(QuerySelectCommand::Fields(fs), t) => CommandModel::Select(
                SelectModel::Fields(str_views(fs@)),
                t@,
            ),
            QueryCommand::Update(t, m) => CommandModel::Update(t@, m@),
            QueryCommand::Delete(t) => CommandModel::Delete(t@),
            QueryCommand::Null => CommandModel::Null,
        }
    }
}

fn map_columns(map: &QueryMap) -> (r: Vec<String>)
    ensures
        string_views(r@) == map_keys(map@),
{
    let entries = map.inner();
    let mut r: Vec<String> = Vec::new();
    let mut i: usize = 0;
    while i < entries.len()
        invariant
            i <= entries.len(),
            entry_views(entries@) == map@,
            string_views(r@) =~= map_keys(map@).take(i as int),
        decreases entries.len() - i,
    {
        let k = entries[i].0.clone();
        let ghost prev = r@;
        r.push(k);
        assert(string_views(r@) =~= string_views(prev).push(k@));
        i = i + 1;
    }
    assert(map_keys(map@).take(i as int) =~= map_keys(map@));
    r
}

fn placeholders(n: usize) -> (r: Vec<String>)
    ensures
        string_views(r@) == arg_texts(n as nat),
{
    let mut r: Vec<String> = Vec::new();
    let mut i: usize = 0;
    while i < n
        invariant
            i <= n,
            string_views(r@) =~= arg_texts(n as nat).take(i as int),
        decreases n - i,
    {
        let a = QueryMap::arg(i);
        let ghost prev = r@;
        r.push(a);
        assert(string_views(r@) =~= string_views(prev).push(a@));
        i = i + 1;
    }
    assert(arg_texts(n as nat).take(i as int) =~= arg_texts(n as nat));
    r
}

fn assignments(map: &QueryMap) -> (r: Vec<String>)
    ensures
        string_views(r@) == set_texts(map@),
{
    let entries = map.inner();
    let mut r: Vec<String> = Vec::new();
    let mut i: usize = 0;
    while i < entries.len()
        invariant
            i <= entries.len(),
            entry_views(entries@) == map@,
            string_views(r@) =~= set_texts(map@).take(i as int),
        decreases entries.len() - i,
    {
        let mut a = entries[i].0.clone();
        a.append(" = ");
        let p = QueryMap::arg(i);
        a.append(p.as_str());
        let ghost prev = r@;
        r.push(a);
        assert(string_views(r@) =~= string_views(prev).push(a@));
        i = i + 1;
    }
    assert(set_texts(map@).take(i as int) =~= set_texts(map@));
    r
}

impl<'q> QueryCommand<'q> {
    /// The SQL text of the statement.
    pub fn sql(&self) -> (r: String)
        ensures
            r@ == command_sql(self@),
    {
        match self {
            QueryCommand::Insert { table_name, map, returning } => {
                let mut out = String::from_str("INSERT INTO ");
                out.append(table_name.as_str());
                out.append(" (");
                let cols = map_columns(map);
                out.append(join_strings(&cols, ", ").as_str());
                out.append(") VALUES (");
                let vals = placeholders(map.len());
                out.append(join_strings(&vals, ", ").as_str());
                out.append(")");
                match returning {
                    Some(c) => {
                        out.append(" RETURNING ");
                        out.append(*c);
                    },
                    None => {},
                }
                assert(out@ =~= command_sql(self@));
                out
            },
            QueryCommand::Select(QuerySelectCommand::WildCard, t) => {
                let mut out = String::from_str("SELECT * FROM ");
                out.append(*t);
                out
            },
            QueryCommand::Select(QuerySelectCommand::Fields(fs), t) => {
                let mut out = String::from_str("SELECT ");
                out.append(join_strs(fs, ", ").as_str());
                out.append(" FROM ");
                out.append(*t);
                out
            },
            QueryCommand::Delete(t) => {
                let mut out = String::from_str("DELETE FROM ");
                out.append(*t);
                out
            },
            QueryCommand::Update(t, map) => {
                let mut out = String::from_str("UPDATE ");
                out.append(*t);
                out.append(" SET ");
                let sets = assignments(map);
                out.append(join_strings(&sets, ", ").as_str());
                out
            },
            QueryCommand::Null => String::from_str("NULL"),
        }
    }
}


/// What a query is: its statement, the modifiers that follow it and the
/// arguments collected so far.
pub struct QueryModel {
    pub cmd: CommandModel,
    pub modifiers: Option<ModifiersModel>,
    pub args: Seq<Seq<char>>,
}

/// The SQL text of a query: the statement, then the text of its modifiers,
/// whose filters are numbered after the statement's own placeholders.
pub open spec fn query_sql(q: QueryModel) -> Seq<char> {
    command_sql(q.cmd) + match q.modifiers {
        Some(m) => modifiers_sql(m, arg_offset(q.cmd)),
        None => Seq::empty(),
    }
}

/// The placeholder numbers of a query fit in a `usize`.
pub open spec fn sql_fits(q: QueryModel) -> bool {
    &&& arg_offset(q.cmd) <= usize::MAX
    &&& match q.modifiers {
        Some(m) => m.filters.len() + arg_offset(q.cmd) <= usize::MAX + 1,
        None => true,
    }
}

/// A query after its statement is set to `c`: its arguments are those of the
/// statement and then the values of the filters; the arguments of any
/// earlier statement are gone.
pub open spec fn with_command_model(q: QueryModel, c: CommandModel) -> QueryModel {
    QueryModel {
        cmd: c,
        modifiers: q.modifiers,
        args: command_args(c) + modifiers_args(q.modifiers),
    }
}

/// A statement with its modifiers and the arguments bound to its placeholders.
pub struct SqlxQb<'q> {
    cmd: QueryCommand<'q>,
    modifiers: Option<&'q Modifiers<'q>>,
    args: Vec<String>,
}

impl<'q> View for SqlxQb<'q> {
    type V = QueryModel;

    closed spec fn view(&self) -> QueryModel {
        QueryModel {
            cmd: self.cmd@,
            modifiers: match self.modifiers {
                Some(m) => Some(m@),
                None => None,
            },
            args: string_views(self.args@),
        }
    }
}

fn push_map_values(args: &mut Vec<String>, map: &QueryMap)
    ensures
        string_views(final(args)@) == string_views(old(args)@) + map_values(map@),
{
    let entries = map.inner();
    let mut i: usize = 0;
    while i < entries.len()
        invariant
            i <= entries.len(),
            entry_views(entries@) == map@,
            string_views(args@) =~= string_views(old(args)@) + map_values(map@).take(i as int),
        decreases entries.len() - i,
    {
        let v = entries[i].1.clone();
        let ghost prev = args@;
        args.push(v);
        assert(string_views(args@) =~= string_views(prev).push(v@));
        i = i + 1;
    }
    assert(map_values(map@).take(i as int) =~= map_values(map@));
}

fn push_filter_values(args: &mut Vec<String>, m: &Modifiers)
    ensures
        string_views(final(args)@) == string_views(old(args)@) + filter_values(m@.filters),
{
    let fs = m.filters();
    let mut i: usize = 0;
    while i < fs.len()
        invariant
            i <= fs.len(),
            filter_views(fs@) == m@.filters,
            string_views(args@) =~= string_views(old(args)@) + filter_values(m@.filters).take(
                i as int,
            ),
        decreases fs.len() - i,
    {
        let v = String::from_str(fs[i].value());
        let ghost prev = args@;
        args.push(v);
        assert(string_views(args@) =~= string_views(prev).push(v@));
        i = i + 1;
    }
    assert(filter_values(m@.filters).take(i as int) =~= filter_values(m@.filters));
}

impl<'q> SqlxQb<'q> {
    /// No statement, no modifiers, no arguments.
    pub(crate) fn new() -> (q: SqlxQb<'q>)
        ensures
            q@ == (QueryModel { cmd: CommandModel::Null, modifiers: None, args: Seq::empty() }),
    {
        let q = SqlxQb { cmd: QueryCommand::Null, modifiers: None, args: Vec::new() };
        assert(q@.args =~= Seq::<Seq<char>>::empty());
        q
    }

    /// The SQL text of the query.
    pub fn sql_str(&self) -> (r: String)
        requires
            sql_fits(self@),
        ensures
            r@ == query_sql(self@),
    {
        let mut arg_offset: usize = 1;
        if let QueryCommand::Update(_, set) = &self.cmd {
            arg_offset = arg_offset + set.len();
        }
        let mut out = self.cmd.sql();
        match self.modifiers {
            Some(m) => {
                let tail = m.sql_str(&arg_offset);
                out.append(tail.as_str());
            },
            None => {},
        }
        assert(out@ =~= query_sql(self@));
        out
    }

    /// Whether the placeholder numbers of the query fit in a `usize`, which
    /// `sql_str` needs.
    pub fn placeholders_fit(&self) -> (r: bool)
        ensures
            r == sql_fits(self@),
    {
        let mut offset: usize = 1;
        if let QueryCommand::Update(_, set) = &self.cmd {
            if set.len() >= usize::MAX {
                return false;
            }
            offset = 1 + set.len();
        }
        match self.modifiers {
            Some(m) => m.filters().len() <= usize::MAX - offset + 1,
            None => true,
        }
    }

    /// Appends the arguments of the statement and then the values of the filters.
    fn collect_args(&mut self)
        ensures
            final(self)@ == with_command_model(old(self)@, old(self)@.cmd),
    {
        self.args = Vec::new();
        match &self.cmd {
            QueryCommand::Update(_, set) => push_map_values(&mut self.args, set),
            QueryCommand::Insert { map, .. } => push_map_values(&mut self.args, map),
            _ => {},
        }
        let ghost mid = string_views(self.args@);
        assert(mid =~= command_args(old(self)@.cmd));
        match self.modifiers {
            Some(m) => push_filter_values(&mut self.args, m),
            None => {},
        }
        assert(string_views(self.args@) =~= mid + modifiers_args(old(self)@.modifiers));
    }

    /// The modifiers in use.
    pub fn modifiers(&self) -> (r: Option<&'q Modifiers<'q>>)
        ensures
            match r {
                Some(m) => self@.modifiers == Some(m@),
                None => self@.modifiers is None,
            },
    {
        self.modifiers
    }

    /// Uses `modifiers` from now on.
    pub fn set_modifiers(&mut self, modifiers: &'q Modifiers<'q>)
        ensures
            final(self)@ == (QueryModel { modifiers: Some(modifiers@), ..old(self)@ }),
    {
        self.modifiers = Some(modifiers);
    }

    /// The arguments collected so far, bound to `$1`, `$2`, ... in order.
    pub fn args(&self) -> (r: &Vec<String>)
        ensures
            string_views(r@) == self@.args,
    {
        &self.args
    }

    fn set_command(&mut self, command: QueryCommand<'q>)
        ensures
            final(self)@ == with_command_model(old(self)@, command@),
    {
        self.cmd = command;
        self.collect_args();
    }

    fn clear_modifiers(&mut self)
        ensures
            final(self)@ == (QueryModel { modifiers: None, ..old(self)@ }),
    {
        self.modifiers = None;
    }
}

/// A `SELECT` of all columns of `table_name` with the filters of `filters`.
pub fn select_query<'q>(table_name: &'q str, filters: &'q Modifiers<'q>) -> (q: SqlxQb<'q>)
    ensures
        q@ == with_command_model(
            QueryModel { cmd: CommandModel::Null, modifiers: Some(filters@), args: Seq::empty() },
            CommandModel::Select(SelectModel::WildCard, table_name@),
        ),
{
    let mut q = SqlxQb::new();
    q.set_modifiers(filters);
    q.set_command(QueryCommand::Select(QuerySelectCommand::WildCard, table_name));
    q
}

/// A `SELECT` of `fields` of `table_name` with the filters of `filters`.
pub fn select_fields_query<'q>(
    table_name: &'q str,
    fields: Vec<&'q str>,
    filters: &'q Modifiers<'q>,
) -> (q: SqlxQb<'q>)
    ensures
        q@ == with_command_model(
            QueryModel { cmd: CommandModel::Null, modifiers: Some(filters@), args: Seq::empty() },
            CommandModel::Select(SelectModel::Fields(str_views(fields@)), table_name@),
        ),
{
    let mut q = SqlxQb::new();
    q.set_modifiers(filters);
    q.set_command(QueryCommand::Select(QuerySelectCommand::Fields(fields), table_name));
    q
}

/// A `DELETE` from `table_name` with the filters of `filters`.
pub fn delete_query<'q>(table_name: &'q str, filters: &'q Modifiers<'q>) -> (q: SqlxQb<'q>)
    ensures
        q@ == with_command_model(
            QueryModel { cmd: CommandModel::Null, modifiers: Some(filters@), args: Seq::empty() },
            CommandModel::Delete(table_name@),
        ),
{
    let mut q = SqlxQb::new();
    q.set_modifiers(filters);
    q.set_command(QueryCommand::Delete(table_name));
    q
}

/// An `UPDATE` of `table_name` that sets the columns of `set`, with the
/// filters of `filters`.
pub fn update_query<'q>(table_name: &'q str, set: QueryMap, filters: &'q Modifiers<'q>) -> (q:
    SqlxQb<'q>)
    ensures
        q@ == with_command_model(
            QueryModel { cmd: CommandModel::Null, modifiers: Some(filters@), args: Seq::empty() },
            CommandModel::Update(table_name@, set@),
        ),
{
    let mut q = SqlxQb::new();
    q.set_modifiers(filters);
    q.set_command(QueryCommand::Update(table_name, set));
    q
}

/// What a builder is: its query and the table name set on it.
pub struct BuilderModel {
    pub query: QueryModel,
    pub table_name: Option<Seq<char>>,
}

/// The builder after `begin_insert` of `map` into `table_name` (or the
/// builder's own table), returning `returning`: the `INSERT` is the statement,
/// its arguments are collected with the modifiers in use, and then the
/// modifiers are dropped.
pub open spec fn begin_insert_model(
    b: BuilderModel,
    table_name: Option<Seq<char>>,
    map: Seq<(Seq<char>, Seq<char>)>,
    returning: Option<Seq<char>>,
) -> BuilderModel {
    BuilderModel {
        query: QueryModel {
            modifiers: None,
            ..with_command_model(
                b.query,
                CommandModel::Insert {
                    table_name: match table_name {
                        Some(t) => t,
                        None => b.table_name->0,
                    },
                    map,
                    returning,
                },
            )
        },
        ..b
    }
}

/// The builder after `end_insert` with the modifiers `saved`: they are in use
/// again, or the modifiers stay as they are when there are none.
pub open spec fn end_insert_model(b: BuilderModel, saved: Option<ModifiersModel>) -> BuilderModel {
    BuilderModel {
        query: QueryModel {
            modifiers: match saved {
                Some(m) => Some(m),
                None => b.query.modifiers,
            },
            ..b.query
        },
        ..b
    }
}

/// The query builder: a query and the table name that statements without a
/// table of their own use.
pub struct QB<'q> {
    inner: SqlxQb<'q>,
    table_name: Option<&'q str>,
}

impl<'q> View for QB<'q> {
    type V = BuilderModel;

    closed spec fn view(&self) -> BuilderModel {
        BuilderModel {
            query: self.inner@,
            table_name: match self.table_name {
                Some(t) => Some(t@),
                None => None,
            },
        }
    }
}

impl<'q> QB<'q> {
    /// A builder with no statement, no modifiers, no arguments and no table name.
    pub fn new() -> (b: QB<'q>)
        ensures
            b@ == (BuilderModel {
                query: QueryModel { cmd: CommandModel::Null, modifiers: None, args: Seq::empty() },
                table_name: None,
            }),
    {
        QB { inner: SqlxQb::new(), table_name: None }
    }

    /// The query.
    pub fn inner(&self) -> (r: &SqlxQb<'q>)
        ensures
            r@ == self@.query,
    {
        &self.inner
    }

    /// The SQL text of the query.
    pub fn sql_str(&self) -> (r: String)
        requires
            sql_fits(self@.query),
        ensures
            r@ == query_sql(self@.query),
    {
        self.inner.sql_str()
    }

    /// Whether the placeholder numbers of the query fit in a `usize`, which
    /// `sql_str` needs.
    pub fn placeholders_fit(&self) -> (r: bool)
        ensures
            r == sql_fits(self@.query),
    {
        self.inner.placeholders_fit()
    }

    /// The builder with the table name `table_name`.
    pub fn with_table_name(self, table_name: &'q str) -> (b: QB<'q>)
        ensures
            b@ == (BuilderModel { table_name: Some(table_name@), ..self@ }),
    {
        let mut s = self;
        s.table_name = Some(table_name);
        s
    }

    /// Sets the table name.
    pub fn set_table_name(&mut self, table_name: &'q str)
        ensures
            final(self)@ == (BuilderModel { table_name: Some(table_name@), ..old(self)@ }),
    {
        self.table_name = Some(table_name);
    }

    /// The table name, or `MissingTableName` when none was set.
    pub fn table_name(&self) -> (r: Result<&'q str, QbError>)
        ensures
            match self@.table_name {
                Some(t) => r matches Ok(s) && s@ == t,
                None => r == Err::<&'q str, QbError>(QbError::MissingTableName),
            },
    {
        match self.table_name {
            Some(t) => Ok(t),
            None => Err(QbError::MissingTableName),
        }
    }

    /// The builder with `modifiers` in use.
    pub fn with_modifiers(self, modifiers: &'q Modifiers<'q>) -> (b: QB<'q>)
        ensures
            b@ == (BuilderModel {
                query: QueryModel { modifiers: Some(modifiers@), ..self@.query },
                ..self@
            }),
    {
        let mut s = self;
        s.inner.set_modifiers(modifiers);
        s
    }

    /// Drops the modifiers.
    pub fn reset_modifiers(&mut self)
        ensures
            final(self)@ == (BuilderModel {
                query: QueryModel { modifiers: None, ..old(self)@.query },
                ..old(self)@
            }),
    {
        self.inner.clear_modifiers();
    }

    /// The modifiers in use.
    pub fn modifiers(&self) -> (r: Option<&'q Modifiers<'q>>)
        ensures
            match r {
                Some(m) => self@.query.modifiers == Some(m@),
                None => self@.query.modifiers is None,
            },
    {
        self.inner.modifiers()
    }

    /// Uses `modifiers` from now on.
    pub fn set_modifiers(&mut self, modifiers: &'q Modifiers<'q>)
        ensures
            final(self)@ == (BuilderModel {
                query: QueryModel { modifiers: Some(modifiers@), ..old(self)@.query },
                ..old(self)@
            }),
    {
        self.inner.set_modifiers(modifiers);
    }

    /// The arguments collected so far, bound to `$1`, `$2`, ... in order.
    pub fn args(&self) -> (r: &Vec<String>)
        ensures
            string_views(r@) == self@.query.args,
    {
        self.inner.args()
    }

    fn with_command(&mut self, command: QueryCommand<'q>)
        ensures
            final(self)@ == (BuilderModel {
                query: with_command_model(old(self)@.query, command@),
                ..old(self)@
            }),
    {
        self.inner.set_command(command);
    }

    /// Makes the query a `SELECT` of all columns of `table_name`.
    pub fn select(&mut self, table_name: &'q str)
        ensures
            final(self)@ == (BuilderModel {
                query: with_command_model(
                    old(self)@.query,
                    CommandModel::Select(SelectModel::WildCard, table_name@),
                ),
                ..old(self)@
            }),
    {
        self.with_command(QueryCommand::Select(QuerySelectCommand::WildCard, table_name));
    }

    /// Makes the query a `SELECT` of all columns of `table_name`, for all rows.
    pub fn select_all(&mut self, table_name: &'q str)
        ensures
            final(self)@ == (BuilderModel {
                query: with_command_model(
                    old(self)@.query,
                    CommandModel::Select(SelectModel::WildCard, table_name@),
                ),
                ..old(self)@
            }),
    {
        self.with_command(QueryCommand::Select(QuerySelectCommand::WildCard, table_name));
    }

    /// Makes the query a `SELECT` of `fields` from the builder's table.
    pub fn select_fields(&mut self, fields: Vec<&'q str>) -> (r: Result<(), QbError>)
        ensures
            match old(self)@.table_name {
                Some(t) => r is Ok && final(self)@ == (BuilderModel {
                    query: with_command_model(
                        old(self)@.query,
                        CommandModel::Select(SelectModel::Fields(str_views(fields@)), t),
                    ),
                    ..old(self)@
                }),
                None => r == Err::<(), QbError>(QbError::MissingTableName) && final(self)@
                    == old(self)@,
            },
    {
        let table_name = self.table_name()?;
        self.with_command(QueryCommand::Select(QuerySelectCommand::Fields(fields), table_name));
        Ok(())
    }

    /// Makes the query a `SELECT` of `fields` from the builder's table, for all rows.
    pub fn select_fields_all(&mut self, fields: Vec<&'q str>) -> (r: Result<(), QbError>)
        ensures
            match old(self)@.table_name {
                Some(t) => r is Ok && final(self)@ == (BuilderModel {
                    query: with_command_model(
                        old(self)@.query,
                        CommandModel::Select(SelectModel::Fields(str_views(fields@)), t),
                    ),
                    ..old(self)@
                }),
                None => r == Err::<(), QbError>(QbError::MissingTableName) && final(self)@
                    == old(self)@,
            },
    {
        let table_name = self.table_name()?;
        self.with_command(QueryCommand::Select(QuerySelectCommand::Fields(fields), table_name));
        Ok(())
    }

    /// Makes the query a `SELECT` of the one column `field` from the builder's table.
    pub fn select_scalar(&mut self, field: &'q str) -> (r: Result<(), QbError>)
        ensures
            match old(self)@.table_name {
                Some(t) => r is Ok && final(self)@ == (BuilderModel {
                    query: with_command_model(
                        old(self)@.query,
                        CommandModel::Select(SelectModel::Fields(seq![field@]), t),
                    ),
                    ..old(self)@
                }),
                None => r == Err::<(), QbError>(QbError::MissingTableName) && final(self)@
                    == old(self)@,
            },
    {
        let table_name = self.table_name()?;
        let fields = vec![field];
        assert(str_views(fields@) =~= seq![field@]);
        self.with_command(QueryCommand::Select(QuerySelectCommand::Fields(fields), table_name));
        Ok(())
    }

    /// Makes the query a `SELECT` of the one column `field` from the builder's
    /// table, for all rows.
    pub fn select_scalar_all(&mut self, field: &'q str) -> (r: Result<(), QbError>)
        ensures
            match old(self)@.table_name {
                Some(t) => r is Ok && final(self)@ == (BuilderModel {
                    query: with_command_model(
                        old(self)@.query,
                        CommandModel::Select(SelectModel::Fields(seq![field@]), t),
                    ),
                    ..old(self)@
                }),
                None => r == Err::<(), QbError>(QbError::MissingTableName) && final(self)@
                    == old(self)@,
            },
    {
        let table_name = self.table_name()?;
        let fields = vec![field];
        assert(str_views(fields@) =~= seq![field@]);
        self.with_command(QueryCommand::Select(QuerySelectCommand::Fields(fields), table_name));
        Ok(())
    }

    /// Makes the query an `UPDATE` of the builder's table that sets the
    /// columns of `map`.
    pub fn update(&mut self, map: QueryMap) -> (r: Result<(), QbError>)
        ensures
            match old(self)@.table_name {
                Some(t) => r is Ok && final(self)@ == (BuilderModel {
                    query: with_command_model(old(self)@.query, CommandModel::Update(t, map@)),
                    ..old(self)@
                }),
                None => r == Err::<(), QbError>(QbError::MissingTableName) && final(self)@
                    == old(self)@,
            },
    {
        let table_name = self.table_name()?;
        self.with_command(QueryCommand::Update(table_name, map));
        Ok(())
    }

    /// Makes the query a `DELETE` from the builder's table.
    pub fn delete(&mut self) -> (r: Result<(), QbError>)
        ensures
            match old(self)@.table_name {
                Some(t) => r is Ok && final(self)@ == (BuilderModel {
                    query: with_command_model(old(self)@.query, CommandModel::Delete(t)),
                    ..old(self)@
                }),
                None => r == Err::<(), QbError>(QbError::MissingTableName) && final(self)@
                    == old(self)@,
            },
    {
        let table_name = self.table_name()?;
        self.with_command(QueryCommand::Delete(table_name));
        Ok(())
    }

    /// Prepares an `INSERT` of `map` into `table_name`, or into the builder's
    /// table when `table_name` is `None` (only then is the builder's table
    /// name needed), returning `returning` when given.
    /// The arguments are collected with the modifiers still in use; then the
    /// modifiers are dropped from the query and handed back, to be restored
    /// with `end_insert` once the statement has run.
    pub fn begin_insert(
        &mut self,
        table_name: Option<String>,
        map: QueryMap,
        returning: Option<&'q str>,
    ) -> (saved: Option<&'q Modifiers<'q>>)
        requires
            table_name is Some || old(self)@.table_name is Some,
        ensures
            match saved {
                Some(m) => old(self)@.query.modifiers == Some(m@),
                None => old(self)@.query.modifiers is None,
            },
            final(self)@ == begin_insert_model(
                old(self)@,
                opt_view(table_name),
                map@,
                match returning {
                    Some(c) => Some(c@),
                    None => None,
                },
            ),
    {
        let own_table = match self.table_name {
            Some(t) => String::from_str(t),
            None => String::new(),
        };
        let table = match table_name {
            Some(t) => t,
            None => own_table,
        };
        self.with_command(QueryCommand::Insert { table_name: table, map, returning });
        let saved = self.inner.modifiers();
        self.reset_modifiers();
        saved
    }

    /// Restores the modifiers that `begin_insert` handed back.
    pub fn end_insert(&mut self, saved: Option<&'q Modifiers<'q>>)
        ensures
            final(self)@ == end_insert_model(
                old(self)@,
                match saved {
                    Some(m) => Some(m@),
                    None => None,
                },
            ),
    {
        match saved {
            Some(m) => self.set_modifiers(m),
            None => {},
        }
    }
}

} // verus!
