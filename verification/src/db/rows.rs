//! Rows of the store and the values that they hold: what is written for an
//! activity or a status, and what is read back.

use crate::db::labels;
use crate::model::{
    ActivityEvent, ActivityEventView, AppInfo, AppInfoView, BrowserContext, BrowserContextView,
    DeviceStatus, DeviceStatusView,
};
use crate::text;
use crate::timestamp;
use crate::timestamp::Timestamp;
use vstd::prelude::*;

verus! {

/// One row of the activity log.
#[derive(Debug)]
pub struct ActivityRow {
    pub event_id: String,
    pub ts: String,
    pub device_id: String,
    pub agent_name: String,
    pub platform: String,
    pub kind: String,
    pub app_json: String,
    pub window_title: Option<String>,
    pub browser_json: Option<String>,
    pub presence: String,
    pub source: String,
}

pub struct ActivityRowView {
    pub event_id: Seq<char>,
    pub ts: Seq<char>,
    pub device_id: Seq<char>,
    pub agent_name: Seq<char>,
    pub platform: Seq<char>,
    pub kind: Seq<char>,
    pub app_json: Seq<char>,
    pub window_title: Option<Seq<char>>,
    pub browser_json: Option<Seq<char>>,
    pub presence: Seq<char>,
    pub source: Seq<char>,
}

impl View for ActivityRow {
    type V = ActivityRowView;

    open spec fn view(&self) -> ActivityRowView {
        ActivityRowView {
            event_id: self.event_id@,
            ts: self.ts@,
            device_id: self.device_id@,
            agent_name: self.agent_name@,
            platform: self.platform@,
            kind: self.kind@,
            app_json: self.app_json@,
            window_title: text::opt_text(self.window_title),
            browser_json: text::opt_text(self.browser_json),
            presence: self.presence@,
            source: self.source@,
        }
    }
}

/// One row of the device statuses.
#[derive(Debug)]
pub struct StatusRow {
    pub ts: String,
    pub device_id: String,
    pub agent_name: String,
    pub platform: String,
    pub status_text: String,
    pub source: String,
}

pub struct StatusRowView {
    pub ts: Seq<char>,
    pub device_id: Seq<char>,
    pub agent_name: Seq<char>,
    pub platform: Seq<char>,
    pub status_text: Seq<char>,
    pub source: Seq<char>,
}

impl View for StatusRow {
    type V = StatusRowView;

    open spec fn view(&self) -> StatusRowView {
        StatusRowView {
            ts: self.ts@,
            device_id: self.device_id@,
            agent_name: self.agent_name@,
            platform: self.platform@,
            status_text: self.status_text@,
            source: self.source@,
        }
    }
}

/// One row of the search table.
#[derive(Debug)]
pub struct SearchDocument {
    pub event_id: String,
    pub device_id: String,
    pub app_name: String,
    pub window_title: Option<String>,
    pub page_title: Option<String>,
    pub browser_url: Option<String>,
    pub browser_domain: Option<String>,
}

pub struct SearchDocumentView {
    pub event_id: Seq<char>,
    pub device_id: Seq<char>,
    pub app_name: Seq<char>,
    pub window_title: Option<Seq<char>>,
    pub page_title: Option<Seq<char>>,
    pub browser_url: Option<Seq<char>>,
    pub browser_domain: Option<Seq<char>>,
}

impl View for SearchDocument {
    type V = SearchDocumentView;

    open spec fn view(&self) -> SearchDocumentView {
        SearchDocumentView {
            event_id: self.event_id@,
            device_id: self.device_id@,
            app_name: self.app_name@,
            window_title: text::opt_text(self.window_title),
            page_title: text::opt_text(self.page_title),
            browser_url: text::opt_text(self.browser_url),
            browser_domain: text::opt_text(self.browser_domain),
        }
    }
}

/// Why a moment could not be written.
#[derive(Clone, Copy, PartialEq, Eq, Structural, Debug)]
pub enum WriteError {
    /// RFC 3339 cannot write the moment.
    Timestamp,
}

/// Why a row could not be read. `E` tells what is wrong with JSON.
#[derive(Debug)]
pub enum RowError<E> {
    /// The moment is not in RFC 3339.
    Timestamp,
    /// The application is not the JSON that is expected.
    App(E),
    /// The page is not the JSON that is expected.
    Browser(E),
}

// ---------------------------------------------------------------------------
// Writing
// ---------------------------------------------------------------------------
/// What is written to the search table for an activity.
pub open spec fn search_document(event: ActivityEventView) -> SearchDocumentView {
    SearchDocumentView {
        event_id: event.event_id,
        device_id: event.device_id,
        app_name: event.app.name,
        window_title: event.window_title,
        page_title: match event.browser {
            Some(b) => b.page_title,
            None => None,
        },
        browser_url: match event.browser {
            Some(b) => b.url,
            None => None,
        },
        browser_domain: match event.browser {
            Some(b) => b.domain,
            None => None,
        },
    }
}

/// What is written to the search table for an activity.
pub fn upsert_activity_search(event: &ActivityEvent) -> (r: SearchDocument)
    ensures
        r@ == search_document(event@),
{
    let (page_title, browser_url, browser_domain) = match &event.browser {
        Some(b) => (
            text::clone_opt(&b.page_title),
            text::clone_opt(&b.url),
            text::clone_opt(&b.domain),
        ),
        None => (None, None, None),
    };
    SearchDocument {
        event_id: event.event_id.clone(),
        device_id: event.device_id.clone(),
        app_name: event.app.name.clone(),
        window_title: text::clone_opt(&event.window_title),
        page_title,
        browser_url,
        browser_domain,
    }
}

/// What is written to the activity log for an activity, given the text of its
/// moment and the JSON of its application and of its page. The column of the
/// page is empty exactly where the activity has none.
pub open spec fn activity_row(
    event: ActivityEventView,
    ts: Seq<char>,
    app_json: Seq<char>,
    page_json: Seq<char>,
) -> ActivityRowView {
    ActivityRowView {
        event_id: event.event_id,
        ts,
        device_id: event.device_id,
        agent_name: event.agent_name,
        platform: labels::platform_label(event.platform),
        kind: labels::kind_label(event.kind),
        app_json,
        window_title: event.window_title,
        browser_json: match event.browser {
            Some(_) => Some(page_json),
            None => None,
        },
        presence: labels::presence_label(event.presence),
        source: event.source,
    }
}

/// The two rows that an activity is written as: first that of the log, then
/// that of the search table.
#[derive(Debug)]
pub struct ActivityWrite {
    pub row: ActivityRow,
    pub search: SearchDocument,
}

/// The rows that an activity is written as, where `ts` is the text of its
/// moment, if it has one. `page_json` counts where the activity has a page.
pub fn activity_rows(
    event: &ActivityEvent,
    ts: Option<String>,
    app_json: String,
    page_json: String,
) -> (r: Result<ActivityWrite, WriteError>)
    ensures
        ts is None ==> r == Err::<ActivityWrite, WriteError>(WriteError::Timestamp),
        ts matches Some(t) ==> {
            &&& r is Ok
            &&& r->Ok_0.row@ == activity_row(event@, t@, app_json@, page_json@)
            &&& r->Ok_0.search@ == search_document(event@)
        },
{
    let ts = match ts {
        Some(ts) => ts,
        None => return Err(WriteError::Timestamp),
    };
    let browser_json = match &event.browser {
        Some(_) => Some(page_json),
        None => None,
    };
    let row = ActivityRow {
        event_id: event.event_id.clone(),
        ts,
        device_id: event.device_id.clone(),
        agent_name: event.agent_name.clone(),
        platform: labels::platform_to_str(&event.platform).to_string(),
        kind: labels::kind_to_str(&event.kind).to_string(),
        app_json,
        window_title: text::clone_opt(&event.window_title),
        browser_json,
        presence: labels::presence_to_str(event.presence).to_string(),
        source: event.source.clone(),
    };
    Ok(ActivityWrite { row, search: upsert_activity_search(event) })
}

/// The rows that an activity is written as, given the JSON of its application
/// and of its page, which counts where the activity has one. They exist exactly
/// where RFC 3339 can write the moment. The column of the page is empty exactly
/// where the activity has none, and what is read back of the row of the log,
/// with the same application and page, is the activity.
pub fn persist_activity(
    event: &ActivityEvent,
    app_json: String,
    page_json: String,
) -> (r: Result<ActivityWrite, WriteError>)
    ensures
        !timestamp::is_rfc3339(event.ts) ==> r == Err::<ActivityWrite, WriteError>(
            WriteError::Timestamp,
        ),
        timestamp::is_rfc3339(event.ts) ==> {
            &&& r is Ok
            &&& r->Ok_0.row@ == activity_row(
                event@,
                timestamp::rfc3339_text(event.ts),
                app_json@,
                page_json@,
            )
            &&& r->Ok_0.search@ == search_document(event@)
        },
        r matches Ok(w) ==> w.row@.app_json == app_json@,
        r matches Ok(w) ==> (w.row@.browser_json is None <==> event@.browser is None),
        r matches Ok(w) ==> (event@.browser is Some ==> w.row@.browser_json == Some(page_json@)),
        r matches Ok(w) ==> read_activity(
            w.row@,
            timestamp::rfc3339_value(w.row@.ts),
            event@.app,
            event@.browser,
        ) == Some(event@),
{
    proof {
        labels::law_platform_word_reads_back(event.platform);
        labels::law_kind_word_reads_back(event.kind);
        labels::law_presence_word_reads_back(event.presence);
    }
    activity_rows(event, timestamp::format_rfc3339(&event.ts), app_json, page_json)
}

/// What is written for a status, given the text of its moment.
pub open spec fn status_row(status: DeviceStatusView, ts: Seq<char>) -> StatusRowView {
    StatusRowView {
        ts,
        device_id: status.device_id,
        agent_name: status.agent_name,
        platform: labels::platform_label(status.platform),
        status_text: status.status_text,
        source: status.source,
    }
}

/// The row that a status is written as, where `ts` is the text of its moment,
/// if it has one.
pub fn status_row_of(status: &DeviceStatus, ts: Option<String>) -> (r: Result<
    StatusRow,
    WriteError,
>)
    ensures
        ts is None ==> r == Err::<StatusRow, WriteError>(WriteError::Timestamp),
        ts matches Some(t) ==> r is Ok && r->Ok_0@ == status_row(status@, t@),
{
    match ts {
        Some(ts) => Ok(
            StatusRow {
                ts,
                device_id: status.device_id.clone(),
                agent_name: status.agent_name.clone(),
                platform: labels::platform_to_str(&status.platform).to_string(),
                status_text: status.status_text.clone(),
                source: status.source.clone(),
            },
        ),
        None => Err(WriteError::Timestamp),
    }
}

/// The row that a status is written as. It exists exactly where RFC 3339 can
/// write the moment, and what is read back of it is the status.
pub fn persist_status(status: &DeviceStatus) -> (r: Result<StatusRow, WriteError>)
    ensures
        !timestamp::is_rfc3339(status.ts) ==> r == Err::<StatusRow, WriteError>(
            WriteError::Timestamp,
        ),
        timestamp::is_rfc3339(status.ts) ==> r is Ok && r->Ok_0@ == status_row(
            status@,
            timestamp::rfc3339_text(status.ts),
        ),
        r matches Ok(row) ==> read_status(row@, timestamp::rfc3339_value(row@.ts)) == Some(
            status@,
        ),
{
    proof {
        labels::law_platform_word_reads_back(status.platform);
    }
    status_row_of(status, timestamp::format_rfc3339(&status.ts))
}

// ---------------------------------------------------------------------------
// Reading
// ---------------------------------------------------------------------------
/// The activity in a row of the log, given the moment that its text stands for
/// and the application and the page that its JSON stands for. Nothing where the
/// text stands for no moment; no page where the column of the page is empty.
pub open spec fn read_activity(
    row: ActivityRowView,
    moment: Option<Timestamp>,
    app: AppInfoView,
    browser: Option<BrowserContextView>,
) -> Option<ActivityEventView> {
    match moment {
        Some(ts) => Some(
            ActivityEventView {
                event_id: row.event_id,
                ts,
                device_id: row.device_id,
                agent_name: row.agent_name,
                platform: labels::labelled_platform(row.platform),
                kind: labels::labelled_kind(row.kind),
                app,
                window_title: row.window_title,
                browser: match row.browser_json {
                    Some(_) => browser,
                    None => None,
                },
                presence: labels::labelled_presence(row.presence),
                source: row.source,
            },
        ),
        None => None,
    }
}

/// The status in a row, given the moment that its text stands for. Nothing
/// where the text stands for no moment.
pub open spec fn read_status(
    row: StatusRowView,
    moment: Option<Timestamp>,
) -> Option<DeviceStatusView> {
    match moment {
        Some(ts) => Some(
            DeviceStatusView {
                ts,
                device_id: row.device_id,
                agent_name: row.agent_name,
                platform: labels::labelled_platform(row.platform),
                status_text: row.status_text,
                source: row.source,
            },
        ),
        None => None,
    }
}

/// A row of the log as fetched: its columns, and what its JSON stands for or
/// why it stands for nothing. The page counts where its column is not empty.
#[derive(Debug)]
pub struct FetchedActivity<E> {
    pub row: ActivityRow,
    pub app: Result<AppInfo, E>,
    pub browser: Option<Result<BrowserContext, E>>,
}

pub struct FetchedActivityView<E> {
    pub row: ActivityRowView,
    pub app: Result<AppInfoView, E>,
    pub browser: Option<Result<BrowserContextView, E>>,
}

impl<E> View for FetchedActivity<E> {
    type V = FetchedActivityView<E>;

    open spec fn view(&self) -> FetchedActivityView<E> {
        FetchedActivityView {
            row: self.row@,
            app: match self.app {
                Ok(app) => Ok(app@),
                Err(e) => Err(e),
            },
            browser: match self.browser {
                Some(Ok(browser)) => Some(Ok(browser@)),
                Some(Err(e)) => Some(Err(e)),
                None => None,
            },
        }
    }
}

impl<E> FetchedActivityView<E> {
    /// The page is what its column stands for: there is one, or a fault, exactly
    /// where the column is not empty.
    pub open spec fn page_is_of_its_column(self) -> bool {
        self.browser is Some <==> self.row.browser_json is Some
    }
}

/// The activity in a fetched row, given the moment that its text stands for, or
/// the first of its faults: the moment, the application, the page.
pub open spec fn activity_at<E>(
    f: FetchedActivityView<E>,
    moment: Option<Timestamp>,
) -> Result<ActivityEventView, RowError<E>> {
    let page = match f.row.browser_json {
        Some(_) => f.browser,
        None => None,
    };
    match (moment, f.app, page) {
        (None, _, _) => Err(RowError::Timestamp),
        (Some(_), Err(e), _) => Err(RowError::App(e)),
        (Some(_), Ok(_), Some(Err(e))) => Err(RowError::Browser(e)),
        (Some(_), Ok(app), Some(Ok(browser))) => Ok(
            read_activity(f.row, moment, app, Some(browser))->0,
        ),
        (Some(_), Ok(app), None) => Ok(read_activity(f.row, moment, app, None)->0),
    }
}

/// The activity in a fetched row, or the first of its faults.
pub open spec fn decoded_activity<E>(f: FetchedActivityView<E>) -> Result<
    ActivityEventView,
    RowError<E>,
> {
    activity_at(f, timestamp::rfc3339_value(f.row.ts))
}

/// The view of what came of a row.
pub open spec fn event_result<E>(r: Result<ActivityEvent, RowError<E>>) -> Result<
    ActivityEventView,
    RowError<E>,
> {
    match r {
        Ok(event) => Ok(event@),
        Err(e) => Err(e),
    }
}

/// Optional JSON that was read: nothing where there was none, a fault where
/// there was one.
pub fn parse_optional_json<T, E>(value: Option<Result<T, E>>) -> (r: Result<Option<T>, E>)
    ensures
        r == match value {
            None => Ok(None),
            Some(Ok(v)) => Ok(Some(v)),
            Some(Err(e)) => Err(e),
        },
{
    match value {
        None => Ok(None),
        Some(Ok(v)) => Ok(Some(v)),
        Some(Err(e)) => Err(e),
    }
}

/// The activity in a fetched row, given the moment that its text stands for.
pub fn activity_with_moment<E>(
    fetched: FetchedActivity<E>,
    moment: Option<Timestamp>,
) -> (r: Result<ActivityEvent, RowError<E>>)
    ensures
        event_result(r) == activity_at(fetched@, moment),
{
    let ts = match moment {
        Some(ts) => ts,
        None => return Err(RowError::Timestamp),
    };
    let app = match fetched.app {
        Ok(app) => app,
        Err(e) => return Err(RowError::App(e)),
    };
    let row = fetched.row;
    let page = match &row.browser_json {
        Some(_) => fetched.browser,
        None => None,
    };
    let browser = match parse_optional_json(page) {
        Ok(browser) => browser,
        Err(e) => return Err(RowError::Browser(e)),
    };
    Ok(
        ActivityEvent {
            event_id: row.event_id,
            ts,
            device_id: row.device_id,
            agent_name: row.agent_name,
            platform: labels::platform_from_str(row.platform.as_str()),
            kind: labels::kind_from_str(row.kind.as_str()),
            app,
            window_title: row.window_title,
            browser,
            presence: labels::presence_from_str(row.presence.as_str()),
            source: row.source,
        },
    )
}

/// The activity in a fetched row. What was read can be written again. It has no
/// page where the column of the page is empty, and has one where it is not.
pub fn activity_from_row<E>(fetched: FetchedActivity<E>) -> (r: Result<ActivityEvent, RowError<E>>)
    ensures
        event_result(r) == decoded_activity(fetched@),
        r matches Ok(event) ==> timestamp::is_rfc3339(event.ts),
        r matches Ok(event) ==> (fetched@.row.browser_json is None ==> event@.browser is None),
        fetched@.page_is_of_its_column() ==> (r matches Ok(event) ==> (event@.browser is None
            <==> fetched@.row.browser_json is None)),
{
    let moment = timestamp::parse_rfc3339(fetched.row.ts.as_str());
    activity_with_moment(fetched, moment)
}

/// The view of what came of a row.
pub open spec fn status_result<E>(r: Result<DeviceStatus, RowError<E>>) -> Result<
    DeviceStatusView,
    RowError<E>,
> {
    match r {
        Ok(status) => Ok(status@),
        Err(e) => Err(e),
    }
}

/// The status in a row, given the moment that its text stands for, or its
/// fault.
pub open spec fn status_at<E>(
    row: StatusRowView,
    moment: Option<Timestamp>,
) -> Result<DeviceStatusView, RowError<E>> {
    match read_status(row, moment) {
        Some(status) => Ok(status),
        None => Err(RowError::Timestamp),
    }
}

/// The status in a row, or its fault.
pub open spec fn decoded_status<E>(row: StatusRowView) -> Result<DeviceStatusView, RowError<E>> {
    status_at(row, timestamp::rfc3339_value(row.ts))
}

/// The status in a row, given the moment that its text stands for.
pub fn status_with_moment<E>(
    row: StatusRow,
    moment: Option<Timestamp>,
) -> (r: Result<DeviceStatus, RowError<E>>)
    ensures
        status_result(r) == status_at::<E>(row@, moment),
{
    match moment {
        Some(ts) => Ok(
            DeviceStatus {
                ts,
                device_id: row.device_id,
                agent_name: row.agent_name,
                platform: labels::platform_from_str(row.platform.as_str()),
                status_text: row.status_text,
                source: row.source,
            },
        ),
        None => Err(RowError::Timestamp),
    }
}

/// The status in a row. What was read can be written again.
pub fn status_from_row<E>(row: StatusRow) -> (r: Result<DeviceStatus, RowError<E>>)
    ensures
        status_result(r) == decoded_status::<E>(row@),
        r matches Ok(status) ==> timestamp::is_rfc3339(status.ts),
{
    let moment = timestamp::parse_rfc3339(row.ts.as_str());
    status_with_moment(row, moment)
}

// ---------------------------------------------------------------------------
// Laws
// ---------------------------------------------------------------------------
/// A row that was written for an activity, fetched with what its JSON stands
/// for, holds that activity.
pub proof fn law_written_activity_is_read<E>(
    event: ActivityEventView,
    ts: Seq<char>,
    app_json: Seq<char>,
    page_json: Seq<char>,
    fetched: FetchedActivityView<E>,
)
    requires
        fetched.row == activity_row(event, ts, app_json, page_json),
        fetched.app == Ok::<AppInfoView, E>(event.app),
        event.browser is Some ==> fetched.browser == Some(
            Ok::<BrowserContextView, E>(event.browser->0),
        ),
    ensures
        activity_at(fetched, Some(event.ts)) == Ok::<ActivityEventView, RowError<E>>(event),
{
    labels::law_platform_word_reads_back(event.platform);
    labels::law_kind_word_reads_back(event.kind);
    labels::law_presence_word_reads_back(event.presence);
}

/// A written row stands for its activity by its own texts: whatever reads a
/// moment, an application and a page from the given texts reads the activity back
/// from the columns of the row.
pub proof fn law_row_is_read_by_its_own_texts<E>(
    event: ActivityEventView,
    ts: Seq<char>,
    app_json: Seq<char>,
    page_json: Seq<char>,
    moment_of: spec_fn(Seq<char>) -> Option<Timestamp>,
    app_of: spec_fn(Seq<char>) -> Result<AppInfoView, E>,
    page_of: spec_fn(Seq<char>) -> Result<BrowserContextView, E>,
)
    requires
        moment_of(ts) == Some(event.ts),
        app_of(app_json) == Ok::<AppInfoView, E>(event.app),
        event.browser is Some ==> page_of(page_json) == Ok::<BrowserContextView, E>(
            event.browser->0,
        ),
    ensures
        ({
            let row = activity_row(event, ts, app_json, page_json);
            let fetched = FetchedActivityView {
                row,
                app: app_of(row.app_json),
                browser: match row.browser_json {
                    Some(json) => Some(page_of(json)),
                    None => None,
                },
            };
            activity_at(fetched, moment_of(row.ts)) == Ok::<ActivityEventView, RowError<E>>(event)
        }),
{
    labels::law_platform_word_reads_back(event.platform);
    labels::law_kind_word_reads_back(event.kind);
    labels::law_presence_word_reads_back(event.presence);
}

/// What is given is written: each column of the row is the text of its own part of
/// the activity, whatever the other parts are.
pub proof fn law_row_holds_what_is_given(
    event: ActivityEventView,
    ts: Seq<char>,
    app_json: Seq<char>,
    page_json: Seq<char>,
)
    ensures
        ({
            let row = activity_row(event, ts, app_json, page_json);
            &&& row.event_id == event.event_id
            &&& row.ts == ts
            &&& row.device_id == event.device_id
            &&& row.agent_name == event.agent_name
            &&& row.app_json == app_json
            &&& row.window_title == event.window_title
            &&& row.source == event.source
            &&& event.browser is Some ==> row.browser_json == Some(page_json)
            &&& event.browser is None ==> row.browser_json is None
        }),
{
}

/// An activity is found by its application, its window and its page: the search
/// document of an activity holds their texts under its identifier and device, and
/// no page where there is none.
pub proof fn law_search_document_holds_what_is_shown(
    event: ActivityEventView,
    page: BrowserContextView,
)
    ensures
        ({
            let document = search_document(event);
            &&& document.event_id == event.event_id
            &&& document.device_id == event.device_id
            &&& document.app_name == event.app.name
            &&& document.window_title == event.window_title
            &&& event.browser is None ==> document.page_title is None && document.browser_url
                is None && document.browser_domain is None
            &&& event.browser == Some(page) ==> document.page_title == page.page_title
                && document.browser_url == page.url && document.browser_domain == page.domain
        }),
{
}

/// A status is written column by column and read back, whatever reads its moment
/// from the given text.
pub proof fn law_written_status_is_read(
    status: DeviceStatusView,
    ts: Seq<char>,
    moment_of: spec_fn(Seq<char>) -> Option<Timestamp>,
)
    requires
        moment_of(ts) == Some(status.ts),
    ensures
        ({
            let row = status_row(status, ts);
            &&& read_status(row, moment_of(row.ts)) == Some(status)
            &&& row.device_id == status.device_id
            &&& row.agent_name == status.agent_name
            &&& row.status_text == status.status_text
            &&& row.source == status.source
        }),
{
    labels::law_platform_word_reads_back(status.platform);
}

/// An activity that was read is the one of its row, part by part: the columns as
/// they are, the words by what they stand for, the moment, the application and the
/// page by what their texts stand for. It is a sample exactly where the row says
/// so.
pub proof fn law_activity_is_of_its_row<E>(fetched: FetchedActivityView<E>)
    ensures
        decoded_activity(fetched) matches Ok(event) ==> {
            &&& event.event_id == fetched.row.event_id
            &&& event.device_id == fetched.row.device_id
            &&& event.agent_name == fetched.row.agent_name
            &&& event.window_title == fetched.row.window_title
            &&& event.source == fetched.row.source
            &&& Some(event.ts) == timestamp::rfc3339_value(fetched.row.ts)
            &&& fetched.app == Ok::<AppInfoView, E>(event.app)
            &&& fetched.row.browser_json is None ==> event.browser is None
            &&& fetched.row.browser_json is Some && fetched.browser is Some ==> fetched.browser
                == Some(Ok::<BrowserContextView, E>(event.browser->0)) && event.browser is Some
            &&& event.platform == labels::labelled_platform(fetched.row.platform)
            &&& event.presence == labels::labelled_presence(fetched.row.presence)
            &&& event.kind == labels::labelled_kind(fetched.row.kind)
            &&& event.kind is ActivitySample <==> fetched.row.kind == "activity_sample"@
        },
{
}

/// A row is read exactly where its moment, its application and its page, if there
/// is one, can be; and the first of these that cannot be is its fault.
pub proof fn law_row_is_read_or_its_first_fault<E>(fetched: FetchedActivityView<E>)
    ensures
        ({
            let moment = timestamp::rfc3339_value(fetched.row.ts);
            let has_page = fetched.row.browser_json is Some && fetched.browser is Some;
            &&& moment is None ==> decoded_activity(fetched) == Err::<
                ActivityEventView,
                RowError<E>,
            >(RowError::Timestamp)
            &&& moment is Some && fetched.app is Err ==> decoded_activity(fetched) == Err::<
                ActivityEventView,
                RowError<E>,
            >(RowError::App(fetched.app->Err_0))
            &&& moment is Some && fetched.app is Ok && has_page && fetched.browser->0 is Err
                ==> decoded_activity(fetched) == Err::<ActivityEventView, RowError<E>>(
                RowError::Browser(fetched.browser->0->Err_0),
            )
            &&& moment is Some && fetched.app is Ok && (has_page ==> fetched.browser->0 is Ok)
                ==> decoded_activity(fetched) is Ok
        }),
{
}

/// A status that was read is the one of its row, and is read exactly where its
/// moment can be.
pub proof fn law_status_is_of_its_row<E>(row: StatusRowView)
    ensures
        timestamp::rfc3339_value(row.ts) is None ==> decoded_status::<E>(row) == Err::<
            DeviceStatusView,
            RowError<E>,
        >(RowError::Timestamp),
        timestamp::rfc3339_value(row.ts) is Some ==> decoded_status::<E>(row) is Ok,
        decoded_status::<E>(row) matches Ok(status) ==> {
            &&& Some(status.ts) == timestamp::rfc3339_value(row.ts)
            &&& status.device_id == row.device_id
            &&& status.agent_name == row.agent_name
            &&& status.platform == labels::labelled_platform(row.platform)
            &&& status.status_text == row.status_text
            &&& status.source == row.source
        },
{
}

/// Nothing of a row of the log is left out of what the contracts say of it.
pub proof fn law_view_of_an_activity_row(row: ActivityRow)
    ensures
        row@.event_id == row.event_id@,
        row@.ts == row.ts@,
        row@.device_id == row.device_id@,
        row@.agent_name == row.agent_name@,
        row@.platform == row.platform@,
        row@.kind == row.kind@,
        row@.app_json == row.app_json@,
        row.window_title is None ==> row@.window_title is None,
        row.window_title matches Some(t) ==> row@.window_title == Some(t@),
        row.browser_json is None ==> row@.browser_json is None,
        row.browser_json matches Some(t) ==> row@.browser_json == Some(t@),
        row@.presence == row.presence@,
        row@.source == row.source@,
{
}

/// Nothing of a row of the statuses is left out of what the contracts say of it.
pub proof fn law_view_of_a_status_row(row: StatusRow)
    ensures
        row@.ts == row.ts@,
        row@.device_id == row.device_id@,
        row@.agent_name == row.agent_name@,
        row@.platform == row.platform@,
        row@.status_text == row.status_text@,
        row@.source == row.source@,
{
}

/// Nothing of a search document is left out of what the contracts say of it.
pub proof fn law_view_of_a_search_document(document: SearchDocument)
    ensures
        document@.event_id == document.event_id@,
        document@.device_id == document.device_id@,
        document@.app_name == document.app_name@,
        document.window_title is None ==> document@.window_title is None,
        document.window_title matches Some(t) ==> document@.window_title == Some(t@),
        document.page_title is None ==> document@.page_title is None,
        document.page_title matches Some(t) ==> document@.page_title == Some(t@),
        document.browser_url is None ==> document@.browser_url is None,
        document.browser_url matches Some(t) ==> document@.browser_url == Some(t@),
        document.browser_domain is None ==> document@.browser_domain is None,
        document.browser_domain matches Some(t) ==> document@.browser_domain == Some(t@),
{
}

/// Nothing of a fetched row, or of what came of one, is left out of what the
/// contracts say of it.
pub proof fn law_view_of_a_fetched_row<E>(
    fetched: FetchedActivity<E>,
    read: Result<ActivityEvent, RowError<E>>,
    status: Result<DeviceStatus, RowError<E>>,
)
    ensures
        fetched@.row == fetched.row@,
        fetched.app matches Ok(app) ==> fetched@.app == Ok::<AppInfoView, E>(app@),
        fetched.app matches Err(e) ==> fetched@.app == Err::<AppInfoView, E>(e),
        fetched.browser is None ==> fetched@.browser is None,
        fetched.browser matches Some(Ok(page)) ==> fetched@.browser == Some(
            Ok::<BrowserContextView, E>(page@),
        ),
        fetched.browser matches Some(Err(e)) ==> fetched@.browser == Some(
            Err::<BrowserContextView, E>(e),
        ),
        read matches Ok(event) ==> event_result(read) == Ok::<ActivityEventView, RowError<E>>(
            event@,
        ),
        read matches Err(e) ==> event_result(read) == Err::<ActivityEventView, RowError<E>>(e),
        status matches Ok(s) ==> status_result(status) == Ok::<DeviceStatusView, RowError<E>>(s@),
        status matches Err(e) ==> status_result(status) == Err::<DeviceStatusView, RowError<E>>(e),
{
}

} // verus!
