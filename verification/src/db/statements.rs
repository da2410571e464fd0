//! What is sent to the database: each statement with the values of its
//! parameters, in the order of their numbers.

use crate::db::fts;
use crate::db::fts::QueryError;
use crate::db::rows::{
    ActivityRow, ActivityRowView, ActivityWrite, SearchDocument, SearchDocumentView, StatusRow,
};
use crate::db::sql;
use crate::text;
use vstd::prelude::*;

verus! {

/// The value of a parameter.
#[derive(Debug, Clone, PartialEq, Eq)]
pub enum Param {
    Text(String),
    OptionalText(Option<String>),
    Integer(i64),
}

pub enum ParamView {
    Text(Seq<char>),
    OptionalText(Option<Seq<char>>),
    Integer(i64),
}

impl View for Param {
    type V = ParamView;

    open spec fn view(&self) -> ParamView {
        match self {
            Param::Text(s) => ParamView::Text(s@),
            Param::OptionalText(o) => ParamView::OptionalText(text::opt_text(*o)),
            Param::Integer(n) => ParamView::Integer(*n),
        }
    }
}

/// A statement and the values of its parameters.
#[derive(Debug, Clone, PartialEq, Eq)]
pub struct Statement {
    pub sql: &'static str,
    pub params: Vec<Param>,
}

pub struct StatementView {
    pub sql: Seq<char>,
    pub params: Seq<ParamView>,
}

impl View for Statement {
    type V = StatementView;

    open spec fn view(&self) -> StatementView {
        StatementView {
            sql: self.sql@,
            params: Seq::new(self.params@.len(), |i: int| self.params@[i]@),
        }
    }
}

/// A statement that asks for one device.
pub open spec fn for_device(sql: Seq<char>, device_id: Seq<char>) -> StatementView {
    StatementView { sql, params: seq![ParamView::Text(device_id)] }
}

/// A statement without parameters.
fn bare(sql: &'static str) -> (r: Statement)
    ensures
        r@ == (StatementView { sql: sql@, params: Seq::empty() }),
{
    let r = Statement { sql, params: Vec::new() };
    assert(r@.params =~= Seq::empty());
    r
}

/// The three statements of a snapshot: the recent activities, the last
/// activity of each device, the last status.
pub fn snapshot_statements() -> (r: (Statement, Statement, Statement))
    ensures
        r.0@ == (StatementView { sql: sql::RECENT_ACTIVITIES@, params: Seq::empty() }),
        r.1@ == (StatementView {
            sql: sql::LATEST_ACTIVITY_OF_EACH_DEVICE@,
            params: Seq::empty(),
        }),
        r.2@ == (StatementView { sql: sql::LATEST_STATUS@, params: Seq::empty() }),
{
    (
        bare(sql::RECENT_ACTIVITIES),
        bare(sql::LATEST_ACTIVITY_OF_EACH_DEVICE),
        bare(sql::LATEST_STATUS),
    )
}

/// The statements of the two numbers that tell whether the search table is in
/// step with the log: the activities, the search documents.
pub fn rebuild_count_statements() -> (r: (Statement, Statement))
    ensures
        r.0@ == (StatementView { sql: sql::COUNT_ACTIVITIES@, params: Seq::empty() }),
        r.1@ == (StatementView { sql: sql::COUNT_SEARCH_DOCUMENTS@, params: Seq::empty() }),
{
    (bare(sql::COUNT_ACTIVITIES), bare(sql::COUNT_SEARCH_DOCUMENTS))
}

/// The statement that writes a row of the activity log.
pub open spec fn activity_call(row: ActivityRowView) -> StatementView {
    StatementView {
        sql: sql::UPSERT_ACTIVITY@,
        params: seq![
            ParamView::Text(row.event_id),
            ParamView::Text(row.ts),
            ParamView::Text(row.device_id),
            ParamView::Text(row.agent_name),
            ParamView::Text(row.platform),
            ParamView::Text(row.kind),
            ParamView::Text(row.app_json),
            ParamView::OptionalText(row.window_title),
            ParamView::OptionalText(row.browser_json),
            ParamView::Text(row.presence),
            ParamView::Text(row.source),
        ],
    }
}

/// The statement that writes a row of the search table.
pub open spec fn search_document_call(document: SearchDocumentView) -> StatementView {
    StatementView {
        sql: sql::UPSERT_SEARCH_DOCUMENT@,
        params: seq![
            ParamView::Text(document.event_id),
            ParamView::Text(document.device_id),
            ParamView::Text(document.app_name),
            ParamView::OptionalText(document.window_title),
            ParamView::OptionalText(document.page_title),
            ParamView::OptionalText(document.browser_url),
            ParamView::OptionalText(document.browser_domain),
        ],
    }
}

/// Writes a row of the activity log.
pub fn activity_statement(row: ActivityRow) -> (r: Statement)
    ensures
        r@ == activity_call(row@),
{
    let ghost view = row@;
    let r = Statement {
        sql: sql::UPSERT_ACTIVITY,
        params: vec![
            Param::Text(row.event_id),
            Param::Text(row.ts),
            Param::Text(row.device_id),
            Param::Text(row.agent_name),
            Param::Text(row.platform),
            Param::Text(row.kind),
            Param::Text(row.app_json),
            Param::OptionalText(row.window_title),
            Param::OptionalText(row.browser_json),
            Param::Text(row.presence),
            Param::Text(row.source),
        ],
    };
    assert(r@.params =~= activity_call(view).params);
    r
}

/// Writes a row of the search table.
pub fn search_document_statement(document: SearchDocument) -> (r: Statement)
    ensures
        r@ == search_document_call(document@),
{
    let ghost view = document@;
    let r = Statement {
        sql: sql::UPSERT_SEARCH_DOCUMENT,
        params: vec![
            Param::Text(document.event_id),
            Param::Text(document.device_id),
            Param::Text(document.app_name),
            Param::OptionalText(document.window_title),
            Param::OptionalText(document.page_title),
            Param::OptionalText(document.browser_url),
            Param::OptionalText(document.browser_domain),
        ],
    };
    assert(r@.params =~= search_document_call(view).params);
    r
}

/// The statements that store an activity, in the order in which they are run:
/// first the row of the log, then, once that is written, the row of the search
/// table.
pub fn activity_statements(write: ActivityWrite) -> (r: (Statement, Statement))
    ensures
        r.0@ == activity_call(write.row@),
        r.1@ == search_document_call(write.search@),
{
    (activity_statement(write.row), search_document_statement(write.search))
}

/// The statement that is run behind the one of the log: that of the search table
/// where the row of the log was written, none where it was not.
pub fn after_log(search: Statement, log_written: bool) -> (r: Option<Statement>)
    ensures
        r == if log_written {
            Some(search)
        } else {
            None
        },
{
    if log_written {
        Some(search)
    } else {
        None
    }
}

/// Writes a row of the device statuses.
pub fn status_statement(row: StatusRow) -> (r: Statement)
    ensures
        r@ == (StatementView {
            sql: sql::UPSERT_STATUS@,
            params: seq![
                ParamView::Text(row@.device_id),
                ParamView::Text(row@.ts),
                ParamView::Text(row@.agent_name),
                ParamView::Text(row@.platform),
                ParamView::Text(row@.status_text),
                ParamView::Text(row@.source),
            ],
        }),
{
    let ghost view = row@;
    let r = Statement {
        sql: sql::UPSERT_STATUS,
        params: vec![
            Param::Text(row.device_id),
            Param::Text(row.ts),
            Param::Text(row.agent_name),
            Param::Text(row.platform),
            Param::Text(row.status_text),
            Param::Text(row.source),
        ],
    };
    assert(r@.params =~= seq![
        ParamView::Text(view.device_id),
        ParamView::Text(view.ts),
        ParamView::Text(view.agent_name),
        ParamView::Text(view.platform),
        ParamView::Text(view.status_text),
        ParamView::Text(view.source),
    ]);
    r
}

/// Asks for the statuses of all devices.
pub fn device_statuses_statement() -> (r: Statement)
    ensures
        r@ == (StatementView { sql: sql::DEVICE_STATUSES@, params: Seq::empty() }),
{
    bare(sql::DEVICE_STATUSES)
}

/// A statement that asks for one device.
fn device_statement(sql: &'static str, device_id: &str) -> (r: Statement)
    ensures
        r@ == for_device(sql@, device_id@),
{
    let r = Statement { sql, params: vec![Param::Text(device_id.to_string())] };
    assert(r@.params =~= seq![ParamView::Text(device_id@)]);
    r
}

/// Asks for the status of a device.
pub fn device_status_statement(device_id: &str) -> (r: Statement)
    ensures
        r@ == for_device(sql::DEVICE_STATUS@, device_id@),
{
    device_statement(sql::DEVICE_STATUS, device_id)
}

/// Asks for the last activity of a device.
pub fn latest_activity_statement(device_id: &str) -> (r: Statement)
    ensures
        r@ == for_device(sql::LATEST_ACTIVITY_OF_DEVICE@, device_id@),
{
    device_statement(sql::LATEST_ACTIVITY_OF_DEVICE, device_id)
}

/// Asks for all activities of a device.
pub fn all_activities_statement(device_id: &str) -> (r: Statement)
    ensures
        r@ == for_device(sql::ALL_ACTIVITIES_OF_DEVICE@, device_id@),
{
    device_statement(sql::ALL_ACTIVITIES_OF_DEVICE, device_id)
}

/// Asks for the recent activities of a device, at most `limit` of them.
pub fn recent_activities_statement(device_id: &str, limit: i64) -> (r: Statement)
    ensures
        r@ == (StatementView {
            sql: sql::RECENT_ACTIVITIES_OF_DEVICE@,
            params: seq![ParamView::Text(device_id@), ParamView::Integer(limit)],
        }),
{
    let r = Statement {
        sql: sql::RECENT_ACTIVITIES_OF_DEVICE,
        params: vec![Param::Text(device_id.to_string()), Param::Integer(limit)],
    };
    assert(r@.params =~= seq![ParamView::Text(device_id@), ParamView::Integer(limit)]);
    r
}

/// An optional device as a parameter.
fn optional_device(device_id: Option<&str>) -> (r: Param)
    ensures
        r@ == ParamView::OptionalText(text::opt_str(device_id)),
{
    match device_id {
        Some(id) => Param::OptionalText(Some(id.to_string())),
        None => Param::OptionalText(None),
    }
}

/// The statement that asks for the activities that match some terms.
pub open spec fn search_call(
    terms: Seq<Seq<char>>,
    device_id: Option<Seq<char>>,
    limit: i64,
) -> StatementView {
    StatementView {
        sql: sql::SEARCH_ACTIVITIES@,
        params: seq![
            ParamView::Text(fts::conjunction(terms)),
            ParamView::OptionalText(device_id),
            ParamView::Integer(limit),
        ],
    }
}

/// The statement that asks for the number of activities that match some terms.
pub open spec fn count_call(
    terms: Seq<Seq<char>>,
    device_id: Option<Seq<char>>,
) -> StatementView {
    StatementView {
        sql: sql::COUNT_SEARCH_RESULTS@,
        params: seq![
            ParamView::Text(fts::conjunction(terms)),
            ParamView::OptionalText(device_id),
        ],
    }
}

/// Asks for the activities that match what the user typed, at most `limit` of
/// them, on one device or on all. There is no statement exactly where there is
/// no search term.
pub fn search_statement(query: &str, device_id: Option<&str>, limit: i64) -> (r: Result<
    Statement,
    QueryError,
>)
    ensures
        fts::search_terms(query@).len() == 0 ==> r == Err::<Statement, QueryError>(
            QueryError::QueryRequired,
        ),
        fts::search_terms(query@).len() > 0 ==> r is Ok && r->Ok_0@ == search_call(
            fts::search_terms(query@),
            text::opt_str(device_id),
            limit,
        ),
{
    match fts::build_fts_query(query) {
        Ok(fts_query) => {
            let r = Statement {
                sql: sql::SEARCH_ACTIVITIES,
                params: vec![
                    Param::Text(fts_query),
                    optional_device(device_id),
                    Param::Integer(limit),
                ],
            };
            assert(r@.params =~= seq![
                ParamView::Text(fts::conjunction(fts::search_terms(query@))),
                ParamView::OptionalText(text::opt_str(device_id)),
                ParamView::Integer(limit),
            ]);
            Ok(r)
        },
        Err(e) => Err(e),
    }
}

/// Asks for the number of activities that match what the user typed, on one
/// device or on all. There is no statement exactly where there is no search
/// term.
pub fn count_activity_search_results(query: &str, device_id: Option<&str>) -> (r: Result<
    Statement,
    QueryError,
>)
    ensures
        fts::search_terms(query@).len() == 0 ==> r == Err::<Statement, QueryError>(
            QueryError::QueryRequired,
        ),
        fts::search_terms(query@).len() > 0 ==> r is Ok && r->Ok_0@ == count_call(
            fts::search_terms(query@),
            text::opt_str(device_id),
        ),
{
    match fts::build_fts_query(query) {
        Ok(fts_query) => {
            let r = Statement {
                sql: sql::COUNT_SEARCH_RESULTS,
                params: vec![Param::Text(fts_query), optional_device(device_id)],
            };
            assert(r@.params =~= seq![
                ParamView::Text(fts::conjunction(fts::search_terms(query@))),
                ParamView::OptionalText(text::opt_str(device_id)),
            ]);
            Ok(r)
        },
        Err(e) => Err(e),
    }
}

// ---------------------------------------------------------------------------
// Laws
// ---------------------------------------------------------------------------
/// Results and their number are asked for with the same query and device; only
/// the limit makes a difference.
pub proof fn law_count_and_search_ask_alike(
    terms: Seq<Seq<char>>,
    device_id: Option<Seq<char>>,
    limit: i64,
)
    ensures
        count_call(terms, device_id).params == search_call(terms, device_id, limit).params.take(2),
{
    assert(count_call(terms, device_id).params =~= search_call(
        terms,
        device_id,
        limit,
    ).params.take(2));
}

/// Each column of a row is the parameter of its own number.
pub proof fn law_columns_are_parameters(row: ActivityRowView, document: SearchDocumentView)
    ensures
        activity_call(row).sql == sql::UPSERT_ACTIVITY@,
        activity_call(row).params.len() == 11,
        activity_call(row).params[0] == ParamView::Text(row.event_id),
        activity_call(row).params[1] == ParamView::Text(row.ts),
        activity_call(row).params[2] == ParamView::Text(row.device_id),
        activity_call(row).params[3] == ParamView::Text(row.agent_name),
        activity_call(row).params[4] == ParamView::Text(row.platform),
        activity_call(row).params[5] == ParamView::Text(row.kind),
        activity_call(row).params[6] == ParamView::Text(row.app_json),
        activity_call(row).params[7] == ParamView::OptionalText(row.window_title),
        activity_call(row).params[8] == ParamView::OptionalText(row.browser_json),
        activity_call(row).params[9] == ParamView::Text(row.presence),
        activity_call(row).params[10] == ParamView::Text(row.source),
        search_document_call(document).sql == sql::UPSERT_SEARCH_DOCUMENT@,
        search_document_call(document).params.len() == 7,
        search_document_call(document).params[0] == ParamView::Text(document.event_id),
        search_document_call(document).params[1] == ParamView::Text(document.device_id),
        search_document_call(document).params[2] == ParamView::Text(document.app_name),
        search_document_call(document).params[3] == ParamView::OptionalText(document.window_title),
        search_document_call(document).params[4] == ParamView::OptionalText(document.page_title),
        search_document_call(document).params[5] == ParamView::OptionalText(document.browser_url),
        search_document_call(document).params[6] == ParamView::OptionalText(document.browser_domain),
{
}

/// A search sends all of its terms as one query, its device or none, and its limit,
/// and its count the first two of them.
pub proof fn law_searches_send_what_is_asked(
    terms: Seq<Seq<char>>,
    device_id: Option<Seq<char>>,
    limit: i64,
    id: Seq<char>,
)
    requires
        terms.len() > 0,
    ensures
        ({
            let search = search_call(terms, device_id, limit);
            let count = count_call(terms, device_id);
            &&& search.sql == sql::SEARCH_ACTIVITIES@
            &&& search.params.len() == 3
            &&& search.params[0] matches ParamView::Text(query) && fts::read_query(query) == Some(
                terms,
            )
            &&& search.params[1] == ParamView::OptionalText(device_id)
            &&& search.params[2] == ParamView::Integer(limit)
            &&& count.sql == sql::COUNT_SEARCH_RESULTS@
            &&& count.params.len() == 2
            &&& count.params[0] == search.params[0]
            &&& count.params[1] == search.params[1]
        }),
        for_device(sql::DEVICE_STATUS@, id).sql == sql::DEVICE_STATUS@,
        for_device(sql::DEVICE_STATUS@, id).params.len() == 1,
        for_device(sql::DEVICE_STATUS@, id).params[0] == ParamView::Text(id),
{
    fts::law_query_reads_back(terms);
}

/// Nothing of a statement is left out of what the contracts say of it.
pub proof fn law_view_of_a_statement(statement: Statement, s: String, n: i64)
    ensures
        statement@.sql == statement.sql@,
        statement@.params.len() == statement.params@.len(),
        forall|i: int|
            0 <= i < statement.params@.len() ==> #[trigger] statement@.params[i]
                == statement.params@[i]@,
        Param::Text(s)@ == ParamView::Text(s@),
        Param::OptionalText(Some(s))@ == ParamView::OptionalText(Some(s@)),
        Param::OptionalText(None)@ == ParamView::OptionalText(None),
        Param::Integer(n)@ == ParamView::Integer(n),
{
}

} // verus!
