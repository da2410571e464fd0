//! The values that the agent captures and the server stores.

use crate::text;
use crate::timestamp::Timestamp;
use vstd::prelude::*;

verus! {

/// A running application, as captured.
#[derive(Debug, Clone)]
pub struct AppInfo {
    /// Path or bundle identifier.
    pub id: String,
    pub name: String,
    pub title: Option<String>,
    pub pid: Option<u32>,
}

pub struct AppInfoView {
    pub id: Seq<char>,
    pub name: Seq<char>,
    pub title: Option<Seq<char>>,
    pub pid: Option<u32>,
}

impl View for AppInfo {
    type V = AppInfoView;

    open spec fn view(&self) -> AppInfoView {
        AppInfoView {
            id: self.id@,
            name: self.name@,
            title: text::opt_text(self.title),
            pid: self.pid,
        }
    }
}

/// The page that a browser shows, as captured.
#[derive(Debug, Clone)]
pub struct BrowserContext {
    pub family: String,
    pub name: String,
    pub page_title: Option<String>,
    pub url: Option<String>,
    pub domain: Option<String>,
    pub source: String,
    /// How sure the capture is, as the bits of a number in single precision.
    pub confidence_bits: u32,
}

pub struct BrowserContextView {
    pub family: Seq<char>,
    pub name: Seq<char>,
    pub page_title: Option<Seq<char>>,
    pub url: Option<Seq<char>>,
    pub domain: Option<Seq<char>>,
    pub source: Seq<char>,
    pub confidence_bits: u32,
}

impl View for BrowserContext {
    type V = BrowserContextView;

    open spec fn view(&self) -> BrowserContextView {
        BrowserContextView {
            family: self.family@,
            name: self.name@,
            page_title: text::opt_text(self.page_title),
            url: text::opt_text(self.url),
            domain: text::opt_text(self.domain),
            source: self.source@,
            confidence_bits: self.confidence_bits,
        }
    }
}

/// The view of an optional page.
pub open spec fn opt_browser(o: Option<BrowserContext>) -> Option<BrowserContextView> {
    match o {
        Some(b) => Some(b@),
        None => None,
    }
}

/// The operating system of a device.
#[derive(Clone, Copy, PartialEq, Eq, Structural, Debug)]
pub enum Platform {
    Macos,
    Windows,
    Linux,
    Android,
    Unknown,
}

/// What made an activity worth recording.
#[derive(Clone, Copy, PartialEq, Eq, Structural, Debug)]
pub enum ActivityKind {
    ForegroundChanged,
    ActivitySample,
    PresenceChanged,
}

/// Whether the user is at the device.
#[derive(Clone, Copy, PartialEq, Eq, Structural, Debug)]
pub enum PresenceState {
    Active,
    Idle,
    Locked,
}

/// One recorded activity of a device.
#[derive(Debug, Clone)]
pub struct ActivityEvent {
    pub event_id: String,
    pub ts: Timestamp,
    pub device_id: String,
    pub agent_name: String,
    pub platform: Platform,
    pub kind: ActivityKind,
    pub app: AppInfo,
    pub window_title: Option<String>,
    pub browser: Option<BrowserContext>,
    pub presence: PresenceState,
    pub source: String,
}

pub struct ActivityEventView {
    pub event_id: Seq<char>,
    pub ts: Timestamp,
    pub device_id: Seq<char>,
    pub agent_name: Seq<char>,
    pub platform: Platform,
    pub kind: ActivityKind,
    pub app: AppInfoView,
    pub window_title: Option<Seq<char>>,
    pub browser: Option<BrowserContextView>,
    pub presence: PresenceState,
    pub source: Seq<char>,
}

impl View for ActivityEvent {
    type V = ActivityEventView;

    open spec fn view(&self) -> ActivityEventView {
        ActivityEventView {
            event_id: self.event_id@,
            ts: self.ts,
            device_id: self.device_id@,
            agent_name: self.agent_name@,
            platform: self.platform,
            kind: self.kind,
            app: self.app@,
            window_title: text::opt_text(self.window_title),
            browser: opt_browser(self.browser),
            presence: self.presence,
            source: self.source@,
        }
    }
}

/// The last status that a device reported.
#[derive(Debug, Clone)]
pub struct DeviceStatus {
    pub ts: Timestamp,
    pub device_id: String,
    pub agent_name: String,
    pub platform: Platform,
    pub status_text: String,
    pub source: String,
}

pub struct DeviceStatusView {
    pub ts: Timestamp,
    pub device_id: Seq<char>,
    pub agent_name: Seq<char>,
    pub platform: Platform,
    pub status_text: Seq<char>,
    pub source: Seq<char>,
}

impl View for DeviceStatus {
    type V = DeviceStatusView;

    open spec fn view(&self) -> DeviceStatusView {
        DeviceStatusView {
            ts: self.ts,
            device_id: self.device_id@,
            agent_name: self.agent_name@,
            platform: self.platform,
            status_text: self.status_text@,
            source: self.source@,
        }
    }
}

/// The view of an optional status.
pub open spec fn opt_status(o: Option<DeviceStatus>) -> Option<DeviceStatusView> {
    match o {
        Some(s) => Some(s@),
        None => None,
    }
}

/// The views of a list of activities.
pub open spec fn events(list: Seq<ActivityEvent>) -> Seq<ActivityEventView> {
    Seq::new(list.len(), |i: int| list[i]@)
}

/// The views of a list of statuses.
pub open spec fn statuses(list: Seq<DeviceStatus>) -> Seq<DeviceStatusView> {
    Seq::new(list.len(), |i: int| list[i]@)
}

/// What the dashboard shows: the last activity of each device, the last
/// status, and the recent activities.
#[derive(Debug, Clone)]
pub struct DashboardSnapshot {
    pub devices: Vec<ActivityEvent>,
    pub latest_status: Option<DeviceStatus>,
    pub recent_activities: Vec<ActivityEvent>,
}

pub struct DashboardSnapshotView {
    pub devices: Seq<ActivityEventView>,
    pub latest_status: Option<DeviceStatusView>,
    pub recent_activities: Seq<ActivityEventView>,
}

impl View for DashboardSnapshot {
    type V = DashboardSnapshotView;

    open spec fn view(&self) -> DashboardSnapshotView {
        DashboardSnapshotView {
            devices: events(self.devices@),
            latest_status: opt_status(self.latest_status),
            recent_activities: events(self.recent_activities@),
        }
    }
}

/// An activity that a search found.
#[derive(Debug, Clone)]
pub struct ActivitySearchHit {
    pub activity: ActivityEvent,
    /// The part of the text that matched.
    pub snippet: String,
    /// The rank of the match, as the bits of a number in single precision.
    pub score_bits: u32,
}

pub struct ActivitySearchHitView {
    pub activity: ActivityEventView,
    pub snippet: Seq<char>,
    pub score_bits: u32,
}

impl View for ActivitySearchHit {
    type V = ActivitySearchHitView;

    open spec fn view(&self) -> ActivitySearchHitView {
        ActivitySearchHitView {
            activity: self.activity@,
            snippet: self.snippet@,
            score_bits: self.score_bits,
        }
    }
}

/// The views of a list of search results.
pub open spec fn hits(list: Seq<ActivitySearchHit>) -> Seq<ActivitySearchHitView> {
    Seq::new(list.len(), |i: int| list[i]@)
}

// ---------------------------------------------------------------------------
// Laws
// ---------------------------------------------------------------------------
/// Nothing of an application is left out of what the contracts say of it.
pub proof fn law_view_of_an_app(app: AppInfo)
    ensures
        app@.id == app.id@,
        app@.name == app.name@,
        app.title is None ==> app@.title is None,
        app.title matches Some(t) ==> app@.title == Some(t@),
        app@.pid == app.pid,
{
}

/// Nothing of a page is left out of what the contracts say of it.
pub proof fn law_view_of_a_page(page: BrowserContext)
    ensures
        page@.family == page.family@,
        page@.name == page.name@,
        page.page_title is None ==> page@.page_title is None,
        page.page_title matches Some(t) ==> page@.page_title == Some(t@),
        page.url is None ==> page@.url is None,
        page.url matches Some(t) ==> page@.url == Some(t@),
        page.domain is None ==> page@.domain is None,
        page.domain matches Some(t) ==> page@.domain == Some(t@),
        page@.source == page.source@,
        page@.confidence_bits == page.confidence_bits,
{
}

/// Nothing of an activity is left out of what the contracts say of it.
pub proof fn law_view_of_an_activity(event: ActivityEvent)
    ensures
        event@.event_id == event.event_id@,
        event@.ts == event.ts,
        event@.device_id == event.device_id@,
        event@.agent_name == event.agent_name@,
        event@.platform == event.platform,
        event@.kind == event.kind,
        event@.app == event.app@,
        event.window_title is None ==> event@.window_title is None,
        event.window_title matches Some(t) ==> event@.window_title == Some(t@),
        event.browser is None ==> event@.browser is None,
        event.browser matches Some(t) ==> event@.browser == Some(t@),
        event@.presence == event.presence,
        event@.source == event.source@,
{
}

/// Nothing of a status is left out of what the contracts say of it.
pub proof fn law_view_of_a_status(status: DeviceStatus)
    ensures
        status@.ts == status.ts,
        status@.device_id == status.device_id@,
        status@.agent_name == status.agent_name@,
        status@.platform == status.platform,
        status@.status_text == status.status_text@,
        status@.source == status.source@,
{
}

/// Nothing of a snapshot is left out of what the contracts say of it.
pub proof fn law_view_of_a_snapshot(shown: DashboardSnapshot)
    ensures
        shown@.devices.len() == shown.devices@.len(),
        forall|i: int| 0 <= i < shown.devices@.len() ==> #[trigger] shown@.devices[i] == shown.devices@[i]@,
        shown.latest_status is None ==> shown@.latest_status is None,
        shown.latest_status matches Some(t) ==> shown@.latest_status == Some(t@),
        shown@.recent_activities.len() == shown.recent_activities@.len(),
        forall|i: int| 0 <= i < shown.recent_activities@.len() ==> #[trigger] shown@.recent_activities[i] == shown.recent_activities@[i]@,
{
}

/// Nothing of a search result is left out of what the contracts say of it.
pub proof fn law_view_of_a_hit(hit: ActivitySearchHit)
    ensures
        hit@.activity == hit.activity@,
        hit@.snippet == hit.snippet@,
        hit@.score_bits == hit.score_bits,
{
}

/// Nothing of a list is left out of what the contracts say of it, and its order is
/// kept.
pub proof fn law_views_of_lists(
    activities: Seq<ActivityEvent>,
    reported: Seq<DeviceStatus>,
    found: Seq<ActivitySearchHit>,
)
    ensures
        events(activities).len() == activities.len(),
        forall|i: int| 0 <= i < activities.len() ==> #[trigger] events(activities)[i] == activities[i]@,
        statuses(reported).len() == reported.len(),
        forall|i: int| 0 <= i < reported.len() ==> #[trigger] statuses(reported)[i] == reported[i]@,
        hits(found).len() == found.len(),
        forall|i: int| 0 <= i < found.len() ==> #[trigger] hits(found)[i] == found[i]@,
{
}

/// An optional value is there, with all of its parts, exactly where it is.
pub proof fn law_views_of_options(page: BrowserContext, status: DeviceStatus)
    ensures
        opt_browser(Some(page)) == Some(page@),
        opt_browser(None) is None,
        opt_status(Some(status)) == Some(status@),
        opt_status(None) is None,
{
}

} // verus!
