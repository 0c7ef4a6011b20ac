//! The settings of a maintenance run.
use crate::quoting::{literal_list, render_literal_list};
use vstd::prelude::*;

verus! {

/// What the settings of a run say, as plain mathematical values.
pub struct SettingsView {
    /// The connection string of the database.
    pub database: Seq<char>,
    /// The schemas whose tables and indexes are left alone, as they were given.
    pub excluded_schemas: Seq<Seq<char>>,
    /// The directory that log files go to.
    pub log_dir: Seq<char>,
    /// Whether tables are vacuumed.
    pub vacuum: bool,
    /// Whether indexes are rebuilt.
    pub reindex: bool,
    /// Whether materialized views are refreshed.
    pub refresh_matviews: bool,
}

/// The schemas whose tables and indexes are left alone. Beside the names as
/// they were given, the value holds them written out as string literals
/// separated by commas, ready to stand in a `NOT IN (...)` condition.
pub struct ExcludedSchemas {
    names: Vec<String>,
    rendered: String,
}

impl View for ExcludedSchemas {
    type V = Seq<Seq<char>>;

    closed spec fn view(&self) -> Seq<Seq<char>> {
        self.names.deep_view()
    }
}

impl ExcludedSchemas {
    /// The rendered list is always the rendering of the names held beside it.
    #[verifier::type_invariant]
    spec fn rendered_from_names(&self) -> bool {
        self.rendered@ == literal_list(self.names.deep_view())
    }

    /// The exclusion of the schemas `names`; of none where `names` is empty.
    pub fn new(names: Vec<String>) -> (excluded: ExcludedSchemas)
        ensures
            excluded@ == names.deep_view(),
    {
        let rendered = render_literal_list(&names);
        ExcludedSchemas { names, rendered }
    }

    /// The names of the schemas, as they were given.
    pub fn names(&self) -> (names: &Vec<String>)
        ensures
            names.deep_view() == self@,
    {
        &self.names
    }

    /// The names as string literals separated by commas; empty where there
    /// are none.
    pub fn as_sql(&self) -> (rendered: &String)
        ensures
            rendered@ == literal_list(self@),
    {
        proof {
            use_type_invariant(self);
        }
        &self.rendered
    }

    /// Whether no schema is excluded.
    pub fn is_empty(&self) -> (empty: bool)
        ensures
            empty == (self@.len() == 0),
    {
        self.names.len() == 0
    }

    /// Whether `schema` is one of the excluded schemas. Names are compared as
    /// they stand, character by character.
    pub fn contains(&self, schema: &String) -> (found: bool)
        ensures
            found == self@.contains(schema@),
    {
        let mut i: usize = 0;
        while i < self.names.len()
            invariant
                i <= self.names.len(),
                forall|j: int| 0 <= j < i ==> self@[j] != schema@,
            decreases self.names.len() - i,
        {
            if self.names[i] == *schema {
                assert(self@[i as int] == schema@);
                return true;
            }
            i = i + 1;
        }
        false
    }
}

impl Clone for ExcludedSchemas {
    /// A second value that excludes the same schemas.
    fn clone(&self) -> (copy: ExcludedSchemas)
        ensures
            copy@ == self@,
    {
        let mut names: Vec<String> = Vec::new();
        let mut i: usize = 0;
        while i < self.names.len()
            invariant
                i <= self.names.len(),
                names.deep_view() == self@.take(i as int),
            decreases self.names.len() - i,
        {
            names.push(self.names[i].clone());
            assert(self@.take(i + 1) =~= self@.take(i as int).push(self@[i as int]));
            i = i + 1;
        }
        ExcludedSchemas::new(names)
    }
}

/// Whether an operation runs, given its flag: an operation whose flag was left
/// out runs.
pub open spec fn enabled(flag: Option<bool>) -> bool {
    match flag {
        Some(wanted) => wanted,
        None => true,
    }
}

/// The settings of a run. They are made once, by [`Settings::builder`], and
/// only read thereafter.
pub struct Settings {
    database: String,
    excluded: ExcludedSchemas,
    log_dir: String,
    vacuum: bool,
    reindex: bool,
    refresh_matviews: bool,
}

impl View for Settings {
    type V = SettingsView;

    closed spec fn view(&self) -> SettingsView {
        SettingsView {
            database: self.database@,
            excluded_schemas: self.excluded@,
            log_dir: self.log_dir@,
            vacuum: self.vacuum,
            reindex: self.reindex,
            refresh_matviews: self.refresh_matviews,
        }
    }
}

impl Settings {
    /// Makes the settings from the values of a settings file: the connection
    /// string, the schemas to leave alone, the log directory and the three
    /// optional flags. The schema names are written out as a list of string
    /// literals here, once. A flag that was left out counts as set.
    pub fn builder(
        database: String,
        excluded_schema_list: Vec<String>,
        log_dir: String,
        vacuum: Option<bool>,
        reindex: Option<bool>,
        refresh_matviews: Option<bool>,
    ) -> (settings: Settings)
        ensures
            settings@ == (SettingsView {
                database: database@,
                excluded_schemas: excluded_schema_list.deep_view(),
                log_dir: log_dir@,
                vacuum: enabled(vacuum),
                reindex: enabled(reindex),
                refresh_matviews: enabled(refresh_matviews),
            }),
    {
        Settings {
            database,
            excluded: ExcludedSchemas::new(excluded_schema_list),
            log_dir,
            vacuum: flag_or_default(vacuum),
            reindex: flag_or_default(reindex),
            refresh_matviews: flag_or_default(refresh_matviews),
        }
    }

    /// The connection string of the database.
    pub fn database(&self) -> (database: &String)
        ensures
            database@ == self@.database,
    {
        &self.database
    }

    /// The schemas to leave alone.
    pub fn excluded(&self) -> (excluded: &ExcludedSchemas)
        ensures
            excluded@ == self@.excluded_schemas,
    {
        &self.excluded
    }

    /// The schemas to leave alone, as they were given.
    pub fn excluded_schema_list(&self) -> (names: &Vec<String>)
        ensures
            names.deep_view() == self@.excluded_schemas,
    {
        self.excluded.names()
    }

    /// The schemas to leave alone, as a list of string literals separated by
    /// commas; empty where there are none.
    pub fn excluded_schemas(&self) -> (rendered: &String)
        ensures
            rendered@ == literal_list(self@.excluded_schemas),
    {
        self.excluded.as_sql()
    }

    /// The directory that log files go to.
    pub fn log_dir(&self) -> (log_dir: &String)
        ensures
            log_dir@ == self@.log_dir,
    {
        &self.log_dir
    }

    /// Whether tables are vacuumed.
    pub fn vacuum(&self) -> (wanted: bool)
        ensures
            wanted == self@.vacuum,
    {
        self.vacuum
    }

    /// Whether indexes are rebuilt.
    pub fn reindex(&self) -> (wanted: bool)
        ensures
            wanted == self@.reindex,
    {
        self.reindex
    }

    /// Whether materialized views are refreshed.
    pub fn refresh_matviews(&self) -> (wanted: bool)
        ensures
            wanted == self@.refresh_matviews,
    {
        self.refresh_matviews
    }
}

/// The value of a flag, `true` where it was left out.
fn flag_or_default(flag: Option<bool>) -> (wanted: bool)
    ensures
        wanted == enabled(flag),
{
    match flag {
        Some(wanted) => wanted,
        None => true,
    }
}

} // verus!
