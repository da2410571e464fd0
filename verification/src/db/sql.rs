//! The statements that the database runs.

use vstd::prelude::*;

verus! {

/// The activities that the dashboard shows as recent, latest first, without the
/// regular samples.
pub const RECENT_ACTIVITIES: &'static str = r#"
SELECT event_id, ts, device_id, agent_name, platform, kind, app_json, window_title, browser_json, presence, source
FROM activity_log
WHERE kind != 'activity_sample'
ORDER BY ts DESC
LIMIT 20
"#;

/// The last activity of each device, latest first.
pub const LATEST_ACTIVITY_OF_EACH_DEVICE: &'static str = r#"
SELECT event_id, ts, device_id, agent_name, platform, kind, app_json, window_title, browser_json, presence, source
FROM (
    SELECT *,
           ROW_NUMBER() OVER (PARTITION BY device_id ORDER BY ts DESC) AS row_num
    FROM activity_log
)
WHERE row_num = 1
ORDER BY ts DESC
"#;

/// The last status of all devices.
pub const LATEST_STATUS: &'static str = r#"
SELECT ts, device_id, agent_name, platform, status_text, source
FROM device_status
ORDER BY ts DESC
LIMIT 1
"#;

/// Writes an activity, in the place of one with the same identifier.
pub const UPSERT_ACTIVITY: &'static str = r#"
INSERT INTO activity_log (
    event_id, ts, device_id, agent_name, platform, kind, app_json, window_title, browser_json, presence, source
) VALUES (?1, ?2, ?3, ?4, ?5, ?6, ?7, ?8, ?9, ?10, ?11)
ON CONFLICT(event_id) DO UPDATE SET
    ts = excluded.ts,
    device_id = excluded.device_id,
    agent_name = excluded.agent_name,
    platform = excluded.platform,
    kind = excluded.kind,
    app_json = excluded.app_json,
    window_title = excluded.window_title,
    browser_json = excluded.browser_json,
    presence = excluded.presence,
    source = excluded.source
"#;

/// Writes the status of a device, in the place of its former one.
pub const UPSERT_STATUS: &'static str = r#"
INSERT INTO device_status (
    device_id, ts, agent_name, platform, status_text, source
) VALUES (?1, ?2, ?3, ?4, ?5, ?6)
ON CONFLICT(device_id) DO UPDATE SET
    ts = excluded.ts,
    agent_name = excluded.agent_name,
    platform = excluded.platform,
    status_text = excluded.status_text,
    source = excluded.source
"#;

/// The statuses of all devices, latest first.
pub const DEVICE_STATUSES: &'static str = r#"
SELECT ts, device_id, agent_name, platform, status_text, source
FROM device_status
ORDER BY ts DESC
"#;

/// The status of one device.
pub const DEVICE_STATUS: &'static str = r#"
SELECT ts, device_id, agent_name, platform, status_text, source
FROM device_status
WHERE device_id = ?1
LIMIT 1
"#;

/// The last activity of one device.
pub const LATEST_ACTIVITY_OF_DEVICE: &'static str = r#"
SELECT event_id, ts, device_id, agent_name, platform, kind, app_json, window_title, browser_json, presence, source
FROM activity_log
WHERE device_id = ?1
ORDER BY ts DESC
LIMIT 1
"#;

/// The recent activities of one device, latest first, without the regular
/// samples.
pub const RECENT_ACTIVITIES_OF_DEVICE: &'static str = r#"
SELECT event_id, ts, device_id, agent_name, platform, kind, app_json, window_title, browser_json, presence, source
FROM activity_log
WHERE device_id = ?1
  AND kind != 'activity_sample'
ORDER BY ts DESC
LIMIT ?2
"#;

/// All activities of one device, earliest first.
pub const ALL_ACTIVITIES_OF_DEVICE: &'static str = r#"
SELECT event_id, ts, device_id, agent_name, platform, kind, app_json, window_title, browser_json, presence, source
FROM activity_log
WHERE device_id = ?1
ORDER BY ts ASC
"#;

/// The activities that a query matches, best match first.
pub const SEARCH_ACTIVITIES: &'static str = r#"
SELECT
    l.event_id,
    l.ts,
    l.device_id,
    l.agent_name,
    l.platform,
    l.kind,
    l.app_json,
    l.window_title,
    l.browser_json,
    l.presence,
    l.source,
    snippet(activity_search_fts, -1, '', '', ' … ', 12) AS snippet,
    bm25(activity_search_fts) AS score
FROM activity_search_fts
JOIN activity_search ON activity_search.rowid = activity_search_fts.rowid
JOIN activity_log l ON l.event_id = activity_search.event_id
WHERE activity_search_fts MATCH ?1
  AND (?2 IS NULL OR activity_search.device_id = ?2)
ORDER BY bm25(activity_search_fts), l.ts DESC
LIMIT ?3
"#;

/// How many activities a query matches.
pub const COUNT_SEARCH_RESULTS: &'static str = r#"
SELECT COUNT(*)
FROM activity_search_fts
JOIN activity_search ON activity_search.rowid = activity_search_fts.rowid
WHERE activity_search_fts MATCH ?1
  AND (?2 IS NULL OR activity_search.device_id = ?2)
"#;

/// The activity log.
pub const CREATE_ACTIVITY_LOG: &'static str = r#"
CREATE TABLE IF NOT EXISTS activity_log (
    event_id TEXT PRIMARY KEY,
    ts TEXT NOT NULL,
    device_id TEXT NOT NULL,
    agent_name TEXT NOT NULL,
    platform TEXT NOT NULL,
    kind TEXT NOT NULL,
    app_json TEXT NOT NULL,
    window_title TEXT,
    browser_json TEXT,
    presence TEXT NOT NULL DEFAULT 'active',
    source TEXT NOT NULL
)
"#;

/// The presence column of logs from before there was one.
pub const ADD_PRESENCE_COLUMN: &'static str = r#"
ALTER TABLE activity_log ADD COLUMN presence TEXT NOT NULL DEFAULT 'active'
"#;

/// The index by device and moment.
pub const CREATE_ACTIVITY_LOG_INDEX: &'static str = r#"
CREATE INDEX IF NOT EXISTS idx_activity_log_device_ts
ON activity_log(device_id, ts DESC)
"#;

/// The last status of each device.
pub const CREATE_DEVICE_STATUS: &'static str = r#"
CREATE TABLE IF NOT EXISTS device_status (
    device_id TEXT PRIMARY KEY,
    ts TEXT NOT NULL,
    agent_name TEXT NOT NULL,
    platform TEXT NOT NULL,
    status_text TEXT NOT NULL,
    source TEXT NOT NULL
)
"#;

/// What is searched of each activity.
pub const CREATE_ACTIVITY_SEARCH: &'static str = r#"
CREATE TABLE IF NOT EXISTS activity_search (
    event_id TEXT PRIMARY KEY,
    device_id TEXT NOT NULL,
    app_name TEXT NOT NULL,
    window_title TEXT,
    page_title TEXT,
    browser_url TEXT,
    browser_domain TEXT
)
"#;

/// The index of the search table by device.
pub const CREATE_ACTIVITY_SEARCH_INDEX: &'static str = r#"
CREATE INDEX IF NOT EXISTS idx_activity_search_device_id
ON activity_search(device_id)
"#;

/// The full-text index over the search table.
pub const CREATE_SEARCH_FTS: &'static str = r#"
CREATE VIRTUAL TABLE IF NOT EXISTS activity_search_fts USING fts5(
    app_name,
    window_title,
    page_title,
    browser_url,
    browser_domain,
    content='activity_search',
    content_rowid='rowid',
    tokenize='unicode61 remove_diacritics 2'
)
"#;

/// Keeps the full-text index in step with new rows.
pub const CREATE_SEARCH_INSERT_TRIGGER: &'static str = r#"
CREATE TRIGGER IF NOT EXISTS activity_search_ai
AFTER INSERT ON activity_search
BEGIN
    INSERT INTO activity_search_fts(
        rowid,
        app_name,
        window_title,
        page_title,
        browser_url,
        browser_domain
    )
    VALUES (
        new.rowid,
        new.app_name,
        new.window_title,
        new.page_title,
        new.browser_url,
        new.browser_domain
    );
END
"#;

/// Keeps the full-text index in step with deleted rows.
pub const CREATE_SEARCH_DELETE_TRIGGER: &'static str = r#"
CREATE TRIGGER IF NOT EXISTS activity_search_ad
AFTER DELETE ON activity_search
BEGIN
    INSERT INTO activity_search_fts(
        activity_search_fts,
        rowid,
        app_name,
        window_title,
        page_title,
        browser_url,
        browser_domain
    )
    VALUES (
        'delete',
        old.rowid,
        old.app_name,
        old.window_title,
        old.page_title,
        old.browser_url,
        old.browser_domain
    );
END
"#;

/// Keeps the full-text index in step with changed rows.
pub const CREATE_SEARCH_UPDATE_TRIGGER: &'static str = r#"
CREATE TRIGGER IF NOT EXISTS activity_search_au
AFTER UPDATE ON activity_search
BEGIN
    INSERT INTO activity_search_fts(
        activity_search_fts,
        rowid,
        app_name,
        window_title,
        page_title,
        browser_url,
        browser_domain
    )
    VALUES (
        'delete',
        old.rowid,
        old.app_name,
        old.window_title,
        old.page_title,
        old.browser_url,
        old.browser_domain
    );
    INSERT INTO activity_search_fts(
        rowid,
        app_name,
        window_title,
        page_title,
        browser_url,
        browser_domain
    )
    VALUES (
        new.rowid,
        new.app_name,
        new.window_title,
        new.page_title,
        new.browser_url,
        new.browser_domain
    );
END
"#;

/// Writes what is searched of an activity, in the place of what was searched of
/// it before.
pub const UPSERT_SEARCH_DOCUMENT: &'static str = r#"
INSERT INTO activity_search (
    event_id,
    device_id,
    app_name,
    window_title,
    page_title,
    browser_url,
    browser_domain
) VALUES (?1, ?2, ?3, ?4, ?5, ?6, ?7)
ON CONFLICT(event_id) DO UPDATE SET
    device_id = excluded.device_id,
    app_name = excluded.app_name,
    window_title = excluded.window_title,
    page_title = excluded.page_title,
    browser_url = excluded.browser_url,
    browser_domain = excluded.browser_domain
"#;

/// All activities, earliest first.
pub const ALL_ACTIVITIES: &'static str = r#"
SELECT event_id, ts, device_id, agent_name, platform, kind, app_json, window_title, browser_json, presence, source
FROM activity_log
ORDER BY ts ASC
"#;

/// How many activities there are.
pub const COUNT_ACTIVITIES: &'static str = "SELECT COUNT(*) FROM activity_log";

/// How many activities can be searched.
pub const COUNT_SEARCH_DOCUMENTS: &'static str = "SELECT COUNT(*) FROM activity_search";

/// Empties the search table.
pub const CLEAR_SEARCH_DOCUMENTS: &'static str = "DELETE FROM activity_search";

/// Builds the full-text index anew.
pub const REBUILD_SEARCH_FTS: &'static str = "INSERT INTO activity_search_fts(activity_search_fts) VALUES('rebuild')";

} // verus!
