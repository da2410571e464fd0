//! Bringing a database up to date: which file is prepared, which older file is
//! taken over, the statements of the schema in their order, and the rebuild of
//! the search table.

use crate::db::rows;
use crate::db::rows::{FetchedActivity, RowError, SearchDocument};
use crate::db::sql;
use crate::text;
use vstd::prelude::*;

verus! {

// ---------------------------------------------------------------------------
// The file
// ---------------------------------------------------------------------------
/// The file that a database address names: nothing where it names none, or
/// where the database is in memory.
pub open spec fn file_of(database_url: Seq<char>) -> Option<Seq<char>> {
    let path = text::strip_prefixes(database_url, "sqlite://"@);
    if path.len() == 0 || path == ":memory:"@ {
        None
    } else {
        Some(path)
    }
}

/// The file that is to be prepared before a database is opened.
pub fn database_file(database_url: &str) -> (r: Option<String>)
    ensures
        text::opt_text(r) == file_of(database_url@),
{
    let url = text::chars_of(database_url);
    let scheme = text::chars_of("sqlite://");
    let path = text::without_prefixes(url.as_slice(), scheme.as_slice());
    if path.len() == 0 || text::same_chars(path, text::chars_of(":memory:").as_slice()) {
        None
    } else {
        Some(text::string_of(path))
    }
}

/// How many places an older file is looked for in.
pub const LEGACY_CANDIDATES: usize = 3;

/// The places that an older file is looked for in, beside the new one.
pub open spec fn legacy_place(i: int) -> Seq<char> {
    if i == 0 {
        "amiokay.db"@
    } else if i == 1 {
        "../data/amiokay.db"@
    } else {
        "../DB/amiokay.db"@
    }
}

/// One of the places that an older file is looked for in, relative to the
/// directory of the new one.
pub fn legacy_candidate(i: usize) -> (r: Option<&'static str>)
    ensures
        text::opt_str(r) == if i < LEGACY_CANDIDATES {
            Some(legacy_place(i as int))
        } else {
            None
        },
{
    if i == 0 {
        Some("amiokay.db")
    } else if i == 1 {
        Some("../data/amiokay.db")
    } else if i == 2 {
        Some("../DB/amiokay.db")
    } else {
        None
    }
}

/// Which of the older files is copied to the place of the new one: the first
/// that is there, unless the new one is there already or has no directory.
pub fn migrate_legacy_database_file(
    target_exists: bool,
    has_parent: bool,
    candidate_exists: &[bool],
) -> (r: Option<usize>)
    ensures
        r is Some <==> !target_exists && has_parent && candidate_exists@.contains(true),
        r matches Some(i) ==> i < candidate_exists@.len() && candidate_exists@[i as int] && forall|
            j: int,
        |
            0 <= j < i ==> !(#[trigger] candidate_exists@[j]),
{
    if target_exists || !has_parent {
        return None;
    }
    let mut i: usize = 0;
    while i < candidate_exists.len()
        invariant
            !target_exists && has_parent,
            i <= candidate_exists@.len(),
            forall|j: int| 0 <= j < i ==> !(#[trigger] candidate_exists@[j]),
        decreases candidate_exists@.len() - i,
    {
        if candidate_exists[i] {
            return Some(i);
        }
        i += 1;
    }
    None
}

// ---------------------------------------------------------------------------
// The schema
// ---------------------------------------------------------------------------
/// How many statements bring the schema up to date.
pub const SCHEMA_STATEMENTS: usize = 10;

/// The statement that fails on a schema that has the column already, and may.
pub const OPTIONAL_STATEMENT: usize = 1;

/// The statements that bring the schema up to date, in their order.
pub open spec fn schema_statement(i: int) -> Seq<char> {
    if i == 0 {
        sql::CREATE_ACTIVITY_LOG@
    } else if i == 1 {
        sql::ADD_PRESENCE_COLUMN@
    } else if i == 2 {
        sql::CREATE_ACTIVITY_LOG_INDEX@
    } else if i == 3 {
        sql::CREATE_DEVICE_STATUS@
    } else if i == 4 {
        sql::CREATE_ACTIVITY_SEARCH@
    } else if i == 5 {
        sql::CREATE_ACTIVITY_SEARCH_INDEX@
    } else if i == 6 {
        sql::CREATE_SEARCH_FTS@
    } else if i == 7 {
        sql::CREATE_SEARCH_INSERT_TRIGGER@
    } else if i == 8 {
        sql::CREATE_SEARCH_DELETE_TRIGGER@
    } else {
        sql::CREATE_SEARCH_UPDATE_TRIGGER@
    }
}

/// Where the migration of a schema stands.
#[derive(Clone, Copy, PartialEq, Eq, Structural, Debug)]
pub enum Migration {
    /// A statement is to be run.
    Statement(usize),
    /// The schema is up to date.
    Complete,
    /// A statement failed, and the migration with it.
    Failed(usize),
}

/// A migration behind the outcome of its statement. A finished one stays as it
/// is.
pub open spec fn migrated(m: Migration, succeeded: bool) -> Migration {
    match m {
        Migration::Statement(i) => if !succeeded && i != OPTIONAL_STATEMENT {
            Migration::Failed(i)
        } else if i < SCHEMA_STATEMENTS - 1 {
            Migration::Statement((i + 1) as usize)
        } else {
            Migration::Complete
        },
        _ => m,
    }
}

/// A migration that has yet to run its first statement.
pub fn migrate() -> (m: Migration)
    ensures
        m == Migration::Statement(0),
{
    Migration::Statement(0)
}

impl Migration {
    /// The statement that is to be run now.
    pub fn statement(self) -> (r: Option<&'static str>)
        ensures
            text::opt_str(r) == match self {
                Migration::Statement(i) => if i < SCHEMA_STATEMENTS {
                    Some(schema_statement(i as int))
                } else {
                    None
                },
                _ => None,
            },
    {
        match self {
            Migration::Statement(i) => if i == 0 {
                Some(sql::CREATE_ACTIVITY_LOG)
            } else if i == 1 {
                Some(sql::ADD_PRESENCE_COLUMN)
            } else if i == 2 {
                Some(sql::CREATE_ACTIVITY_LOG_INDEX)
            } else if i == 3 {
                Some(sql::CREATE_DEVICE_STATUS)
            } else if i == 4 {
                Some(sql::CREATE_ACTIVITY_SEARCH)
            } else if i == 5 {
                Some(sql::CREATE_ACTIVITY_SEARCH_INDEX)
            } else if i == 6 {
                Some(sql::CREATE_SEARCH_FTS)
            } else if i == 7 {
                Some(sql::CREATE_SEARCH_INSERT_TRIGGER)
            } else if i == 8 {
                Some(sql::CREATE_SEARCH_DELETE_TRIGGER)
            } else if i == 9 {
                Some(sql::CREATE_SEARCH_UPDATE_TRIGGER)
            } else {
                None
            },
            _ => None,
        }
    }

    /// The migration behind the outcome of its statement.
    pub fn after(self, succeeded: bool) -> (m: Migration)
        ensures
            m == migrated(self, succeeded),
    {
        match self {
            Migration::Statement(i) => if !succeeded && i != OPTIONAL_STATEMENT {
                Migration::Failed(i)
            } else if i < SCHEMA_STATEMENTS - 1 {
                Migration::Statement(i + 1)
            } else {
                Migration::Complete
            },
            other => other,
        }
    }
}

// ---------------------------------------------------------------------------
// The search table
// ---------------------------------------------------------------------------
/// What is to be done next to bring the search table in step with the log.
#[derive(Clone, Copy, PartialEq, Eq, Structural, Debug)]
pub enum Rebuild {
    /// Empty the search table.
    Clear,
    /// Load all activities, earliest first.
    Load,
    /// Write the search document of the activity in row `next` of `total`.
    Index { next: usize, total: usize },
    /// Build the full-text index anew.
    Refresh,
    /// Nothing.
    Done,
}

/// The first step: none where the table has as many rows as the log.
pub fn rebuild_activity_search_index_if_needed(
    activity_count: i64,
    search_count: i64,
) -> (step: Rebuild)
    ensures
        step == if activity_count == search_count {
            Rebuild::Done
        } else {
            Rebuild::Clear
        },
{
    if activity_count == search_count {
        Rebuild::Done
    } else {
        Rebuild::Clear
    }
}

/// The first step of the rebuild behind a migration, by the two numbers of rows:
/// none as long as the schema is not up to date.
pub open spec fn rebuild_behind(
    m: Migration,
    activity_count: i64,
    search_count: i64,
) -> Option<Rebuild> {
    if m != Migration::Complete {
        None
    } else if activity_count == search_count {
        Some(Rebuild::Done)
    } else {
        Some(Rebuild::Clear)
    }
}

/// What follows a migration: once the schema is up to date, and not before, the
/// search table is brought in step with the log.
pub fn after_schema(m: Migration, activity_count: i64, search_count: i64) -> (r: Option<Rebuild>)
    ensures
        r == rebuild_behind(m, activity_count, search_count),
{
    match m {
        Migration::Complete => Some(
            rebuild_activity_search_index_if_needed(activity_count, search_count),
        ),
        _ => None,
    }
}

/// The step that writes row `next` of `total`, or the one behind all rows.
pub open spec fn indexing(next: int, total: int) -> Rebuild {
    if next < total {
        Rebuild::Index { next: next as usize, total: total as usize }
    } else {
        Rebuild::Refresh
    }
}

/// The step behind one that was carried out. `loaded` is the number of rows
/// that were loaded.
pub open spec fn rebuilt(step: Rebuild, loaded: int) -> Rebuild {
    match step {
        Rebuild::Clear => Rebuild::Load,
        Rebuild::Load => indexing(0, loaded),
        Rebuild::Index { next, total } => indexing(next + 1, total as int),
        Rebuild::Refresh => Rebuild::Done,
        Rebuild::Done => Rebuild::Done,
    }
}

impl Rebuild {
    /// The statement that this step runs. A row is written by the statement of
    /// its search document.
    pub fn statement(self) -> (r: Option<&'static str>)
        ensures
            text::opt_str(r) == match self {
                Rebuild::Clear => Some(sql::CLEAR_SEARCH_DOCUMENTS@),
                Rebuild::Load => Some(sql::ALL_ACTIVITIES@),
                Rebuild::Refresh => Some(sql::REBUILD_SEARCH_FTS@),
                _ => None,
            },
    {
        match self {
            Rebuild::Clear => Some(sql::CLEAR_SEARCH_DOCUMENTS),
            Rebuild::Load => Some(sql::ALL_ACTIVITIES),
            Rebuild::Refresh => Some(sql::REBUILD_SEARCH_FTS),
            _ => None,
        }
    }

    /// The step behind this one, once it was carried out. `loaded` is the
    /// number of rows that were loaded, and counts behind `Load` only.
    pub fn after(self, loaded: usize) -> (step: Rebuild)
        ensures
            step == rebuilt(self, loaded as int),
    {
        match self {
            Rebuild::Clear => Rebuild::Load,
            Rebuild::Load => if loaded > 0 {
                Rebuild::Index { next: 0, total: loaded }
            } else {
                Rebuild::Refresh
            },
            Rebuild::Index { next, total } => if next < total && total - next > 1 {
                Rebuild::Index { next: next + 1, total }
            } else {
                Rebuild::Refresh
            },
            Rebuild::Refresh => Rebuild::Done,
            Rebuild::Done => Rebuild::Done,
        }
    }
}

/// What is written to the search table for a row of the log; its fault where
/// it cannot be read.
pub fn rebuilt_document<E>(fetched: FetchedActivity<E>) -> (r: Result<SearchDocument, RowError<E>>)
    ensures
        (match r {
            Ok(document) => Ok::<_, RowError<E>>(document@),
            Err(e) => Err(e),
        }) == match rows::decoded_activity(fetched@) {
            Ok(event) => Ok(rows::search_document(event)),
            Err(e) => Err(e),
        },
{
    match rows::activity_from_row(fetched) {
        Ok(event) => Ok(rows::upsert_activity_search(&event)),
        Err(e) => Err(e),
    }
}

// ---------------------------------------------------------------------------
// Laws
// ---------------------------------------------------------------------------
/// A migration behind a row of outcomes.
pub open spec fn migrated_all(m: Migration, outcomes: Seq<bool>) -> Migration
    decreases outcomes.len(),
{
    if outcomes.len() == 0 {
        m
    } else {
        migrated(migrated_all(m, outcomes.drop_last()), outcomes.last())
    }
}

/// The outcomes up to `n` hold no failure but that of the statement that may
/// fail.
pub open spec fn tolerable(outcomes: Seq<bool>, n: int) -> bool {
    forall|i: int| 0 <= i < n ==> (#[trigger] outcomes[i] || i == OPTIONAL_STATEMENT)
}

/// As long as none but the statement that may fail does fail, the statements
/// are run one by one, and the schema is up to date once all have been.
pub proof fn law_statements_run_in_order(outcomes: Seq<bool>)
    requires
        tolerable(outcomes, outcomes.len() as int),
    ensures
        migrated_all(Migration::Statement(0), outcomes) == if outcomes.len() < SCHEMA_STATEMENTS {
            Migration::Statement(outcomes.len() as usize)
        } else {
            Migration::Complete
        },
    decreases outcomes.len(),
{
    if outcomes.len() > 0 {
        let rest = outcomes.drop_last();
        assert forall|i: int| 0 <= i < rest.len() implies (#[trigger] rest[i] || i
            == OPTIONAL_STATEMENT) by {
            assert(rest[i] == outcomes[i]);
        }
        law_statements_run_in_order(rest);
        assert(outcomes[outcomes.len() - 1] || outcomes.len() - 1 == OPTIONAL_STATEMENT);
    }
}

/// The first failure of any other statement ends the migration: no statement
/// is run behind it.
pub proof fn law_failure_ends_migration(outcomes: Seq<bool>, n: int)
    requires
        0 <= n < outcomes.len(),
        n < SCHEMA_STATEMENTS,
        n != OPTIONAL_STATEMENT,
        tolerable(outcomes, n),
        !outcomes[n],
    ensures
        migrated_all(Migration::Statement(0), outcomes) == Migration::Failed(n as usize),
    decreases outcomes.len(),
{
    let rest = outcomes.drop_last();
    if n == outcomes.len() - 1 {
        assert forall|i: int| 0 <= i < rest.len() implies (#[trigger] rest[i] || i
            == OPTIONAL_STATEMENT) by {
            assert(rest[i] == outcomes[i]);
        }
        law_statements_run_in_order(rest);
    } else {
        assert forall|i: int| 0 <= i < n implies (#[trigger] rest[i] || i
            == OPTIONAL_STATEMENT) by {
            assert(rest[i] == outcomes[i]);
        }
        assert(rest[n] == outcomes[n]);
        law_failure_ends_migration(rest, n);
    }
}

/// The search table is looked at behind the last statement of the schema, and
/// not where one of them failed that may not.
pub proof fn law_rebuild_follows_schema(
    outcomes: Seq<bool>,
    activity_count: i64,
    search_count: i64,
)
    requires
        outcomes.len() == SCHEMA_STATEMENTS,
    ensures
        rebuild_behind(
            migrated_all(Migration::Statement(0), outcomes),
            activity_count,
            search_count,
        ) == if !tolerable(outcomes, outcomes.len() as int) {
            None
        } else if activity_count == search_count {
            Some(Rebuild::Done)
        } else {
            Some(Rebuild::Clear)
        },
{
    if tolerable(outcomes, outcomes.len() as int) {
        law_statements_run_in_order(outcomes);
    } else {
        let n = lemma_first_failure(outcomes, outcomes.len() as int);
        law_failure_ends_migration(outcomes, n);
    }
}

/// Among outcomes that hold a failure of a statement that may not fail, there is
/// a first one.
proof fn lemma_first_failure(outcomes: Seq<bool>, end: int) -> (n: int)
    requires
        0 <= end <= outcomes.len(),
        !tolerable(outcomes, end),
    ensures
        0 <= n < end,
        n != OPTIONAL_STATEMENT,
        !outcomes[n],
        tolerable(outcomes, n),
    decreases end,
{
    if tolerable(outcomes, end - 1) {
        end - 1
    } else {
        lemma_first_failure(outcomes, end - 1)
    }
}

/// The step behind `n` steps that were carried out, `loaded` rows among them.
pub open spec fn rebuilt_steps(step: Rebuild, loaded: int, n: nat) -> Rebuild
    decreases n,
{
    if n == 0 {
        step
    } else {
        rebuilt(rebuilt_steps(step, loaded, (n - 1) as nat), loaded)
    }
}

/// A rebuild empties the table, loads the rows, writes each of them once and in
/// order, builds the full-text index anew, and is done.
pub proof fn law_rebuild_indexes_each_row_once(loaded: usize, i: nat)
    ensures
        rebuilt_steps(Rebuild::Clear, loaded as int, 0) == Rebuild::Clear,
        rebuilt_steps(Rebuild::Clear, loaded as int, 1) == Rebuild::Load,
        i < loaded ==> rebuilt_steps(Rebuild::Clear, loaded as int, (2 + i) as nat) == (
        Rebuild::Index { next: i as usize, total: loaded }),
        rebuilt_steps(Rebuild::Clear, loaded as int, (2 + loaded) as nat) == Rebuild::Refresh,
        rebuilt_steps(Rebuild::Clear, loaded as int, (3 + loaded) as nat) == Rebuild::Done,
{
    reveal_with_fuel(rebuilt_steps, 2);
    lemma_rebuild_reaches(loaded, loaded as nat);
    if i < loaded {
        lemma_rebuild_reaches(loaded, i);
    }
}

proof fn lemma_rebuild_reaches(loaded: usize, i: nat)
    requires
        i <= loaded,
    ensures
        rebuilt_steps(Rebuild::Clear, loaded as int, (2 + i) as nat) == indexing(
            i as int,
            loaded as int,
        ),
    decreases i,
{
    if i == 0 {
        reveal_with_fuel(rebuilt_steps, 3);
    } else {
        lemma_rebuild_reaches(loaded, (i - 1) as nat);
    }
}

/// The file of a database is what its address names behind the scheme, and nothing
/// where that is empty or the database in memory.
pub proof fn law_file_of_an_address(path: Seq<char>)
    ensures
        file_of("sqlite://"@ + path) == file_of(path),
        !text::starts_with(path, "sqlite://"@) && path.len() > 0 && path != ":memory:"@ ==> file_of(
            path,
        ) == Some(path),
        file_of(Seq::<char>::empty()) is None,
        file_of(":memory:"@) is None,
{
    reveal_strlit("sqlite://");
    reveal_strlit(":memory:");
    text::law_strip_prefixes("sqlite://"@, path);
    if text::starts_with(":memory:"@, "sqlite://"@) {
        assert(":memory:"@.len() == 8);
    }
}

/// The statements of the schema, one by one: tables before the indexes and triggers
/// on them.
pub proof fn law_schema_statements()
    ensures
        schema_statement(0) == sql::CREATE_ACTIVITY_LOG@,
        schema_statement(1) == sql::ADD_PRESENCE_COLUMN@,
        schema_statement(2) == sql::CREATE_ACTIVITY_LOG_INDEX@,
        schema_statement(3) == sql::CREATE_DEVICE_STATUS@,
        schema_statement(4) == sql::CREATE_ACTIVITY_SEARCH@,
        schema_statement(5) == sql::CREATE_ACTIVITY_SEARCH_INDEX@,
        schema_statement(6) == sql::CREATE_SEARCH_FTS@,
        schema_statement(7) == sql::CREATE_SEARCH_INSERT_TRIGGER@,
        schema_statement(8) == sql::CREATE_SEARCH_DELETE_TRIGGER@,
        schema_statement(9) == sql::CREATE_SEARCH_UPDATE_TRIGGER@,
        legacy_place(0) == "amiokay.db"@,
        legacy_place(1) == "../data/amiokay.db"@,
        legacy_place(2) == "../DB/amiokay.db"@,
{
}

} // verus!
