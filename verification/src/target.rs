//! The objects that maintenance works on, and the statement for each.
use crate::quoting::{lemma_read_qualified, qualified, qualified_name, read_qualified};
use vstd::prelude::*;
use vstd::string::StringExecFns;

verus! {

/// The kinds of object that maintenance works on. The kind selects the catalog
/// query that lists the objects and the statement that is run on each.
#[derive(Clone, Copy, Debug, PartialEq, Eq, Structural)]
pub enum TargetKind {
    /// A base table, which is vacuumed and analyzed.
    Table,
    /// An index, which is rebuilt.
    Index,
    /// A materialized view, which is refreshed.
    MaterializedView,
}

/// Whether `text` is the schema-qualified name of some object.
pub open spec fn is_qualified(text: Seq<char>) -> bool {
    exists|schema: Seq<char>, object: Seq<char>| text == #[trigger] qualified(schema, object)
}

/// The words that a maintenance statement for an object of `kind` starts with.
pub open spec fn statement_head(kind: TargetKind) -> Seq<char> {
    match kind {
        TargetKind::Table => "VACUUM ANALYZE "@,
        TargetKind::Index => "REINDEX INDEX "@,
        TargetKind::MaterializedView => "REFRESH MATERIALIZED VIEW "@,
    }
}

/// The maintenance statement for the object of `kind` whose qualified name is
/// `name`: the words for the kind, the name as it stands, and a semicolon.
pub open spec fn statement_text(kind: TargetKind, name: Seq<char>) -> Seq<char> {
    statement_head(kind) + name + seq![';']
}

/// A maintenance statement names one object and nothing else: behind the
/// words for the kind, a reader finds the qualified name of the schema and
/// object that were given, and behind that the closing semicolon, whatever
/// characters the two names hold.
pub proof fn lemma_statement_names_its_object(
    kind: TargetKind,
    schema: Seq<char>,
    object: Seq<char>,
)
    ensures
        read_qualified(
            statement_text(kind, qualified(schema, object)).skip(
                statement_head(kind).len() as int,
            ),
        ) == Some((schema, object, seq![';'])),
{
    let name = qualified(schema, object);
    let head = statement_head(kind);
    assert(statement_text(kind, name).skip(head.len() as int) =~= name + seq![';']);
    lemma_read_qualified(schema, object, seq![';']);
}

/// Writes the maintenance statement for an object of `kind`.
fn statement(kind: TargetKind, name: &str) -> (sql: String)
    ensures
        sql@ == statement_text(kind, name@),
{
    let mut sql = match kind {
        TargetKind::Table => "VACUUM ANALYZE ".to_owned(),
        TargetKind::Index => "REINDEX INDEX ".to_owned(),
        TargetKind::MaterializedView => "REFRESH MATERIALIZED VIEW ".to_owned(),
    };
    sql.append(name);
    sql.push(';');
    sql
}

/// A base table, held by its schema-qualified name.
pub struct Table(String);

/// An index, held by its schema-qualified name.
pub struct Index(String);

/// A materialized view, held by its schema-qualified name.
pub struct MatView(String);

impl View for Table {
    type V = Seq<char>;

    closed spec fn view(&self) -> Seq<char> {
        self.0@
    }
}

impl View for Index {
    type V = Seq<char>;

    closed spec fn view(&self) -> Seq<char> {
        self.0@
    }
}

impl View for MatView {
    type V = Seq<char>;

    closed spec fn view(&self) -> Seq<char> {
        self.0@
    }
}

impl Table {
    #[verifier::type_invariant]
    spec fn well_formed(&self) -> bool {
        is_qualified(self.0@)
    }

    /// The table `name` of `schema`.
    pub fn new(schema: &str, name: &str) -> (table: Table)
        ensures
            table@ == qualified(schema@, name@),
    {
        Table(qualified_name(schema, name))
    }

    /// The qualified name, quoted and ready to stand in a statement.
    pub fn name(&self) -> (name: &String)
        ensures
            name@ == self@,
            is_qualified(self@),
    {
        proof {
            use_type_invariant(self);
        }
        &self.0
    }

    /// The statement that vacuums and analyzes the table.
    pub fn statement(&self) -> (sql: String)
        ensures
            sql@ == statement_text(TargetKind::Table, self@),
    {
        statement(TargetKind::Table, self.0.as_str())
    }
}

impl Index {
    #[verifier::type_invariant]
    spec fn well_formed(&self) -> bool {
        is_qualified(self.0@)
    }

    /// The index `name` of `schema`.
    pub fn new(schema: &str, name: &str) -> (index: Index)
        ensures
            index@ == qualified(schema@, name@),
    {
        Index(qualified_name(schema, name))
    }

    /// The qualified name, quoted and ready to stand in a statement.
    pub fn name(&self) -> (name: &String)
        ensures
            name@ == self@,
            is_qualified(self@),
    {
        proof {
            use_type_invariant(self);
        }
        &self.0
    }

    /// The statement that rebuilds the index.
    pub fn statement(&self) -> (sql: String)
        ensures
            sql@ == statement_text(TargetKind::Index, self@),
    {
        statement(TargetKind::Index, self.0.as_str())
    }
}

impl MatView {
    #[verifier::type_invariant]
    spec fn well_formed(&self) -> bool {
        is_qualified(self.0@)
    }

    /// The materialized view `name` of `schema`.
    pub fn new(schema: &str, name: &str) -> (matview: MatView)
        ensures
            matview@ == qualified(schema@, name@),
    {
        MatView(qualified_name(schema, name))
    }

    /// The qualified name, quoted and ready to stand in a statement.
    pub fn name(&self) -> (name: &String)
        ensures
            name@ == self@,
            is_qualified(self@),
    {
        proof {
            use_type_invariant(self);
        }
        &self.0
    }

    /// The statement that refreshes the materialized view.
    pub fn statement(&self) -> (sql: String)
        ensures
            sql@ == statement_text(TargetKind::MaterializedView, self@),
    {
        statement(TargetKind::MaterializedView, self.0.as_str())
    }
}

/// What a target is, as plain mathematical values: its kind and its qualified
/// name.
pub struct TargetView {
    pub kind: TargetKind,
    pub name: Seq<char>,
}

/// One object to run maintenance on.
pub enum Target {
    Table(Table),
    Index(Index),
    MatView(MatView),
}

impl View for Target {
    type V = TargetView;

    open spec fn view(&self) -> TargetView {
        match self {
            Target::Table(table) => TargetView { kind: TargetKind::Table, name: table@ },
            Target::Index(index) => TargetView { kind: TargetKind::Index, name: index@ },
            Target::MatView(matview) => TargetView {
                kind: TargetKind::MaterializedView,
                name: matview@,
            },
        }
    }
}

impl DeepView for Target {
    type V = TargetView;

    open spec fn deep_view(&self) -> TargetView {
        self@
    }
}

impl Target {
    /// The object `name` of `schema`, as a target of `kind`.
    pub fn new(kind: TargetKind, schema: &str, name: &str) -> (target: Target)
        ensures
            target@ == (TargetView { kind, name: qualified(schema@, name@) }),
    {
        match kind {
            TargetKind::Table => Target::Table(Table::new(schema, name)),
            TargetKind::Index => Target::Index(Index::new(schema, name)),
            TargetKind::MaterializedView => Target::MatView(MatView::new(schema, name)),
        }
    }

    /// The kind of the object.
    pub fn kind(&self) -> (kind: TargetKind)
        ensures
            kind == self@.kind,
    {
        match self {
            Target::Table(_) => TargetKind::Table,
            Target::Index(_) => TargetKind::Index,
            Target::MatView(_) => TargetKind::MaterializedView,
        }
    }

    /// The qualified name, quoted and ready to stand in a statement.
    pub fn name(&self) -> (name: &String)
        ensures
            name@ == self@.name,
            is_qualified(self@.name),
    {
        match self {
            Target::Table(table) => table.name(),
            Target::Index(index) => index.name(),
            Target::MatView(matview) => matview.name(),
        }
    }

    /// The maintenance statement for the object: the one that its kind asks
    /// for, on its name.
    pub fn statement(&self) -> (sql: String)
        ensures
            sql@ == statement_text(self@.kind, self@.name),
    {
        match self {
            Target::Table(table) => table.statement(),
            Target::Index(index) => index.statement(),
            Target::MatView(matview) => matview.statement(),
        }
    }
}

} // verus!
