//! The SQL stage: the per-compilation generation context with its scoped query
//! options, the debugging entry points, and the assembly of the final text.
use vstd::prelude::*;
use vstd::string::StringExecFns;
use crate::error::{Error, Reason};

verus! {

/// SQL dialects that code can be generated for.
#[derive(Clone, Copy, Debug, PartialEq, Eq, Structural)]
pub enum Dialect {
    Ansi,
    BigQuery,
    ClickHouse,
    DuckDb,
    Generic,
    Hive,
    MsSql,
    MySql,
    Postgres,
    SQLite,
    Snowflake,
}

/// The name a dialect goes by in target strings.
pub open spec fn dialect_name(d: Dialect) -> Seq<char> {
    match d {
        Dialect::Ansi => "ansi"@,
        Dialect::BigQuery => "bigquery"@,
        Dialect::ClickHouse => "clickhouse"@,
        Dialect::DuckDb => "duckdb"@,
        Dialect::Generic => "generic"@,
        Dialect::Hive => "hive"@,
        Dialect::MsSql => "mssql"@,
        Dialect::MySql => "mysql"@,
        Dialect::Postgres => "postgres"@,
        Dialect::SQLite => "sqlite"@,
        Dialect::Snowflake => "snowflake"@,
    }
}

impl Dialect {
    pub fn name(&self) -> (r: &'static str)
        ensures
            r@ == dialect_name(*self),
    {
        match self {
            Dialect::Ansi => "ansi",
            Dialect::BigQuery => "bigquery",
            Dialect::ClickHouse => "clickhouse",
            Dialect::DuckDb => "duckdb",
            Dialect::Generic => "generic",
            Dialect::Hive => "hive",
            Dialect::MsSql => "mssql",
            Dialect::MySql => "mysql",
            Dialect::Postgres => "postgres",
            Dialect::SQLite => "sqlite",
            Dialect::Snowflake => "snowflake",
        }
    }
}

/// What to compile to: SQL, in a given dialect or the generic one.
#[derive(Clone, Copy, Debug, PartialEq, Eq, Structural)]
pub enum Target {
    Sql(Option<Dialect>),
}

/// Compilation options.
#[derive(Clone, Copy, Debug, PartialEq, Eq, Structural)]
pub struct Options {
    /// Pretty-print the SQL.
    pub format: bool,
    pub target: Target,
    /// Append a comment naming the compiler and its version.
    pub signature_comment: bool,
}

impl Default for Options {
    fn default() -> (r: Options)
        ensures
            r == (Options { format: true, target: Target::Sql(None), signature_comment: true }),
    {
        Options { format: true, target: Target::Sql(None), signature_comment: true }
    }
}

impl Options {
    pub fn no_format(self) -> (r: Options)
        ensures
            r == (Options { format: false, ..self }),
    {
        Options { format: false, ..self }
    }

    pub fn no_signature(self) -> (r: Options)
        ensures
            r == (Options { signature_comment: false, ..self }),
    {
        Options { signature_comment: false, ..self }
    }

    pub fn with_target(self, target: Target) -> (r: Options)
        ensures
            r == (Options { target, ..self }),
    {
        Options { target, ..self }
    }
}

/// The generation modes of one query scope.
#[derive(Clone, Copy, Debug, PartialEq, Eq, Structural)]
pub struct QueryOpts {
    /// When true, column references will not include table names prefixes.
    pub omit_ident_prefix: bool,
    /// True iff codegen should generate expressions before SELECT's projection is applied.
    /// For example:
    /// - WHERE needs `pre_projection=true`, but
    /// - ORDER BY needs `pre_projection=false`.
    pub pre_projection: bool,
    /// When false, queries will contain nested sub-queries instead of WITH CTEs.
    pub allow_ctes: bool,
    /// When false, * are not allowed.
    pub allow_stars: bool,
    /// True when generating a function call that will have an OVER clause.
    pub window_function: bool,
}

pub open spec fn default_query_opts() -> QueryOpts {
    QueryOpts {
        omit_ident_prefix: false,
        pre_projection: false,
        allow_ctes: true,
        allow_stars: true,
        window_function: false,
    }
}

impl Default for QueryOpts {
    fn default() -> (r: QueryOpts)
        ensures
            r == default_query_opts(),
    {
        QueryOpts {
            omit_ident_prefix: false,
            pre_projection: false,
            allow_ctes: true,
            allow_stars: true,
            window_function: false,
        }
    }
}

/// A common table expression gathered while generating a query.
#[derive(Debug)]
pub struct Cte {
    pub name: String,
    pub sql: String,
}

/// Bookkeeping about the tables that the query reads.
#[derive(Debug)]
pub struct AnchorContext {
    pub table_names: Vec<String>,
}

/// The shape of a relation of the relational query.
#[derive(Debug)]
pub enum RelationKind<T> {
    ExternRef(String),
    Pipeline(Vec<T>),
    Literal(Vec<String>),
    SString(String),
}

/// A relational query: the tables it declares and its main relation, whose
/// pipeline steps are of type `T`.
#[derive(Debug)]
pub struct Query<T> {
    pub table_names: Vec<String>,
    pub relation: RelationKind<T>,
}

impl AnchorContext {
    /// Splits a query into the table bookkeeping and the main relation.
    pub fn of<T>(query: Query<T>) -> (r: (AnchorContext, RelationKind<T>))
        ensures
            r.0.table_names == query.table_names,
            r.1 == query.relation,
    {
        (AnchorContext { table_names: query.table_names }, query.relation)
    }
}

/// The state of one compilation: the dialect, the table bookkeeping, the
/// options of the current query scope, those saved for each enclosing scope,
/// and the gathered CTEs.
#[derive(Debug)]
pub struct Context {
    pub dialect: Dialect,
    pub anchor: AnchorContext,
    /// Options of the current query.
    pub query: QueryOpts,
    /// Options saved for each enclosing query, innermost last.
    pub query_stack: Vec<QueryOpts>,
    pub ctes: Vec<Cte>,
}

/// Entering a scope: the current options are saved and stay current.
pub open spec fn after_push(q: QueryOpts, stack: Seq<QueryOpts>) -> (QueryOpts, Seq<QueryOpts>) {
    (q, stack.push(q))
}

/// Leaving a scope: the options saved last become current again.
pub open spec fn after_pop(q: QueryOpts, stack: Seq<QueryOpts>) -> (QueryOpts, Seq<QueryOpts>) {
    (stack.last(), stack.drop_last())
}

impl Context {
    pub open spec fn spec_query(&self) -> QueryOpts {
        self.query
    }

    pub open spec fn spec_stack(&self) -> Seq<QueryOpts> {
        self.query_stack@
    }

    pub fn new(dialect: Dialect, anchor: AnchorContext) -> (r: Context)
        ensures
            r.dialect == dialect,
            r.anchor == anchor,
            r.spec_query() == default_query_opts(),
            r.spec_stack() == Seq::<QueryOpts>::empty(),
            r.ctes@ == Seq::<Cte>::empty(),
    {
        Context {
            dialect,
            anchor,
            query: QueryOpts::default(),
            query_stack: Vec::new(),
            ctes: Vec::new(),
        }
    }

    /// The options of the current scope.
    pub fn query(&self) -> (r: QueryOpts)
        ensures
            r == self.spec_query(),
    {
        self.query
    }

    /// Replaces the options of the current scope.
    pub fn set_query(&mut self, opts: QueryOpts)
        ensures
            final(self).spec_query() == opts,
            final(self).spec_stack() == old(self).spec_stack(),
            final(self).dialect == old(self).dialect,
            final(self).anchor == old(self).anchor,
            final(self).ctes == old(self).ctes,
    {
        self.query = opts;
    }

    /// How many enclosing scopes are open.
    pub fn depth(&self) -> (r: usize)
        ensures
            r == self.spec_stack().len(),
    {
        self.query_stack.len()
    }

    /// Enters a nested scope (a subquery or a CTE body).
    pub fn push_query(&mut self)
        ensures
            (final(self).spec_query(), final(self).spec_stack()) == after_push(
                old(self).spec_query(),
                old(self).spec_stack(),
            ),
            final(self).dialect == old(self).dialect,
            final(self).anchor == old(self).anchor,
            final(self).ctes == old(self).ctes,
    {
        self.query_stack.push(self.query);
    }

    /// Leaves a nested scope, restoring the options of the enclosing one. Every
    /// scope entered is left exactly once.
    pub fn pop_query(&mut self)
        requires
            old(self).spec_stack().len() > 0,
        ensures
            (final(self).spec_query(), final(self).spec_stack()) == after_pop(
                old(self).spec_query(),
                old(self).spec_stack(),
            ),
            final(self).dialect == old(self).dialect,
            final(self).anchor == old(self).anchor,
            final(self).ctes == old(self).ctes,
    {
        match self.query_stack.pop() {
            Some(q) => {
                self.query = q;
            },
            None => {},
        }
    }
}

/// The state after entering a scope for each of `mods` in turn, the options of
/// each new scope being set to the corresponding entry.
pub open spec fn push_all(q: QueryOpts, stack: Seq<QueryOpts>, mods: Seq<QueryOpts>) -> (
    QueryOpts,
    Seq<QueryOpts>,
)
    decreases mods.len(),
{
    if mods.len() == 0 {
        (q, stack)
    } else {
        let (q1, s1) = after_push(q, stack);
        push_all(mods[0], s1, mods.drop_first())
    }
}

/// The state after leaving `n` scopes.
pub open spec fn pop_all(q: QueryOpts, stack: Seq<QueryOpts>, n: nat) -> (QueryOpts, Seq<QueryOpts>)
    decreases n,
{
    if n == 0 {
        (q, stack)
    } else {
        let (q1, s1) = after_pop(q, stack);
        pop_all(q1, s1, (n - 1) as nat)
    }
}

proof fn lemma_push_all(q: QueryOpts, stack: Seq<QueryOpts>, mods: Seq<QueryOpts>)
    requires
        mods.len() > 0,
    ensures
        push_all(q, stack, mods).0 == mods.last(),
        push_all(q, stack, mods).1 == stack + seq![q] + mods.drop_last(),
    decreases mods.len(),
{
    reveal_with_fuel(push_all, 2);
    if mods.len() > 1 {
        lemma_push_all(mods[0], stack.push(q), mods.drop_first());
        assert(mods.drop_first().last() == mods.last());
        assert(stack.push(q) + seq![mods[0]] + mods.drop_first().drop_last() =~= stack + seq![q]
            + mods.drop_last());
    } else {
        assert(mods.drop_first().len() == 0);
        assert(stack.push(q) =~= stack + seq![q] + mods.drop_last());
    }
}

proof fn lemma_pop_all(q: QueryOpts, stack: Seq<QueryOpts>, saved: Seq<QueryOpts>)
    requires
        saved.len() > 0,
    ensures
        pop_all(q, stack + saved, saved.len()) == (saved[0], stack),
    decreases saved.len(),
{
    let s = stack + saved;
    assert(s.drop_last() =~= stack + saved.drop_last());
    assert(s.last() == saved.last());
    reveal_with_fuel(pop_all, 2);
    if saved.len() > 1 {
        lemma_pop_all(saved.last(), stack, saved.drop_last());
        assert(saved.drop_last()[0] == saved[0]);
    } else {
        assert(s.drop_last() =~= stack);
    }
}

/// Leaving as many scopes as were entered restores the options and the saved
/// scopes exactly, whatever each nested scope changed.
pub proof fn lemma_scopes_balance(q: QueryOpts, stack: Seq<QueryOpts>, mods: Seq<QueryOpts>)
    ensures
        ({
            let (q1, s1) = push_all(q, stack, mods);
            pop_all(q1, s1, mods.len())
        }) == (q, stack),
{
    if mods.len() > 0 {
        lemma_push_all(q, stack, mods);
        let saved = seq![q] + mods.drop_last();
        assert(stack + seq![q] + mods.drop_last() =~= stack + saved);
        lemma_pop_all(mods.last(), stack, saved);
    }
}

/// The main relation of the query as a pipeline, with a fresh generic-dialect
/// context; fails if the relation is not a pipeline.
fn init<T>(query: Query<T>) -> (r: Result<(Vec<T>, Context), Error>)
    ensures
        r is Ok <==> query.relation is Pipeline,
        r is Ok ==> r->Ok_0.0 == query.relation->Pipeline_0 && r->Ok_0.1.dialect == Dialect::Generic
            && r->Ok_0.1.anchor.table_names == query.table_names && r->Ok_0.1.spec_query()
            == default_query_opts() && r->Ok_0.1.spec_stack().len() == 0 && r->Ok_0.1.ctes@.len()
            == 0,
        r is Err ==> r->Err_0.reason is Simple && r->Err_0.reason->Simple_0@
            == "Main RQ relation is not a pipeline."@,
{
    let (ctx, relation) = AnchorContext::of(query);
    let ctx = Context::new(Dialect::Generic, ctx);
    match relation {
        RelationKind::Pipeline(pipeline) => Ok((pipeline, ctx)),
        _ => Err(Error::simple("Main RQ relation is not a pipeline.")),
    }
}

/// Prepares the main relation for the preprocessing pass: its pipeline and the
/// generation context that the pass runs in. Meant for debugging.
pub fn preprocess<T>(query: Query<T>) -> (r: Result<(Vec<T>, Context), Error>)
    ensures
        r is Ok <==> query.relation is Pipeline,
        r is Ok ==> r->Ok_0.0 == query.relation->Pipeline_0 && r->Ok_0.1.dialect == Dialect::Generic
            && r->Ok_0.1.anchor.table_names == query.table_names && r->Ok_0.1.spec_query()
            == default_query_opts() && r->Ok_0.1.spec_stack().len() == 0 && r->Ok_0.1.ctes@.len()
            == 0,
        r is Err ==> r->Err_0.reason is Simple && r->Err_0.reason->Simple_0@
            == "Main RQ relation is not a pipeline."@,
{
    init(query)
}

/// Prepares the main relation for preprocessing and anchoring, in the generic
/// dialect. Meant for debugging.
pub fn anchor<T>(query: Query<T>) -> (r: Result<(Vec<T>, Context), Error>)
    ensures
        r is Ok <==> query.relation is Pipeline,
        r is Ok ==> r->Ok_0.0 == query.relation->Pipeline_0 && r->Ok_0.1.dialect == Dialect::Generic
            && r->Ok_0.1.anchor.table_names == query.table_names && r->Ok_0.1.spec_query()
            == default_query_opts() && r->Ok_0.1.spec_stack().len() == 0 && r->Ok_0.1.ctes@.len()
            == 0,
        r is Err ==> r->Err_0.reason is Simple && r->Err_0.reason->Simple_0@
            == "Main RQ relation is not a pipeline."@,
{
    init(query)
}

/// What the SQL formatter makes of a text.
pub uninterp spec fn formatted_sql(s: Seq<char>) -> Seq<char>;

/// Relies on `sqlformat::format` with default parameters and options: the
/// result depends on the text alone.
#[verifier::external_body]
fn format_sql(sql: &str) -> (r: String)
    ensures
        r@ == formatted_sql(sql@),
{
    sqlformat::format(sql, &sqlformat::QueryParams::default(), sqlformat::FormatOptions::default())
}

/// The signature comment: which compiler, which version, and which dialect if
/// a concrete one was asked for; on lines of its own in formatted output.
pub open spec fn signature(options: Options, version: Seq<char>) -> Seq<char> {
    let pre = if options.format { "\n"@ } else { " "@ };
    let post = if options.format { "\n"@ } else { ""@ };
    let target = match options.target {
        Target::Sql(Some(d)) => if d == Dialect::Generic {
            ""@
        } else {
            "target:sql."@ + dialect_name(d) + " "@
        },
        Target::Sql(None) => ""@,
    };
    pre + "-- Generated by PRQL compiler version:"@ + version + " "@ + target
        + "(https://prql-lang.org)"@ + post
}

/// The text of a compiled query with its signature comment, if one is asked for.
pub open spec fn with_signature(sql: Seq<char>, options: Options, version: Seq<char>) -> Seq<char> {
    if options.signature_comment {
        sql + signature(options, version)
    } else {
        sql
    }
}

/// Appends the signature comment to the (already formatted) SQL text, if the
/// options ask for one.
pub fn append_signature(sql: String, options: &Options, version: &str) -> (r: String)
    ensures
        r@ == with_signature(sql@, *options, version@),
{
    if !options.signature_comment {
        return sql;
    }
    let Target::Sql(dialect) = options.target;
    let mut target = String::new();
    match dialect {
        Some(d) => {
            if d != Dialect::Generic {
                target.append("target:sql.");
                target.append(d.name());
                target.append(" ");
            }
        },
        None => {},
    }
    proof {
        reveal_strlit("");
        let t = match options.target {
            Target::Sql(Some(d)) => if d == Dialect::Generic {
                ""@
            } else {
                "target:sql."@ + dialect_name(d) + " "@
            },
            Target::Sql(None) => ""@,
        };
        assert(target@ =~= t);
    }
    let mut sig = (if options.format { "\n" } else { " " }).to_owned();
    sig.append("-- Generated by PRQL compiler version:");
    sig.append(version);
    sig.append(" ");
    sig.append(target.as_str());
    sig.append("(https://prql-lang.org)");
    sig.append(if options.format { "\n" } else { "" });
    assert(sig@ =~= signature(*options, version@));
    let mut out = sql;
    out.append(sig.as_str());
    out
}

/// Turns the SQL text rendered from the query into the output: formatted and
/// ended by a newline if asked, then signed if asked. `version` is the
/// compiler's version.
pub fn compile(sql: &str, options: &Options, version: &str) -> (r: String)
    ensures
        r@ == with_signature(
            if options.format {
                formatted_sql(sql@) + "\n"@
            } else {
                sql@
            },
            *options,
            version@,
        ),
{
    let sql = if options.format {
        let mut formatted = format_sql(sql);
        formatted.append("\n");
        formatted
    } else {
        sql.to_owned()
    };
    append_signature(sql, options, version)
}

} // verus!
