use eyes_on_me::db::fts::{build_fts_query, QueryError};
use eyes_on_me::db::labels::{
    kind_from_str, kind_to_str, platform_from_str, platform_to_str, presence_from_str,
    presence_to_str,
};
use eyes_on_me::db::load::{
    load_all_activities_for_device, load_device_status, load_device_statuses,
    load_latest_activity_for_device, load_recent_activities_for_device, load_snapshot,
    search_activities, FetchedHit,
};
use eyes_on_me::db::rows::{
    activity_from_row, activity_rows, activity_with_moment, parse_optional_json, persist_activity,
    persist_status, status_from_row, status_row_of, status_with_moment, upsert_activity_search,
    ActivityRow, FetchedActivity, RowError, StatusRow, WriteError,
};
use eyes_on_me::db::schema::{
    after_schema, database_file, legacy_candidate, migrate, migrate_legacy_database_file,
    rebuild_activity_search_index_if_needed, rebuilt_document, Migration, Rebuild,
    LEGACY_CANDIDATES, OPTIONAL_STATEMENT, SCHEMA_STATEMENTS,
};
use eyes_on_me::db::sql;
use eyes_on_me::db::statements::{
    activity_statement, activity_statements, after_log, all_activities_statement,
    count_activity_search_results,
    device_status_statement, device_statuses_statement, latest_activity_statement,
    rebuild_count_statements, recent_activities_statement, search_document_statement, search_statement, snapshot_statements,
    status_statement, Param, Statement,
};
use eyes_on_me::model::{
    ActivityEvent, ActivityKind, AppInfo, BrowserContext, DeviceStatus, Platform, PresenceState,
};
use eyes_on_me::timestamp::Timestamp;
use sqlx::Row;

const MOMENT: &str = "2024-05-06T07:08:09.5+02:00";

/// 2024-05-06T07:08:09.5 on a clock two hours ahead of UTC.
fn moment() -> Timestamp {
    Timestamp { local_nanos: 1_714_979_289_500_000_000, offset_seconds: 7_200 }
}

fn sample_event(event_id: &str, device_id: &str, title: &str, url: Option<&str>) -> ActivityEvent {
    ActivityEvent {
        event_id: event_id.to_string(),
        ts: moment(),
        device_id: device_id.to_string(),
        agent_name: "client-desktop".to_string(),
        platform: Platform::Macos,
        kind: ActivityKind::ForegroundChanged,
        app: AppInfo {
            id: "com.google.Chrome".to_string(),
            name: "Google Chrome".to_string(),
            title: Some(title.to_string()),
            pid: Some(42),
        },
        window_title: Some(title.to_string()),
        browser: url.map(|url| BrowserContext {
            family: "chromium".to_string(),
            name: "Google Chrome".to_string(),
            page_title: Some(title.to_string()),
            url: Some(url.to_string()),
            domain: Some("github.com".to_string()),
            source: "test".to_string(),
            confidence_bits: 0.9f32.to_bits(),
        }),
        presence: PresenceState::Active,
        source: "desktop".to_string(),
    }
}

fn sample_status(device_id: &str) -> DeviceStatus {
    DeviceStatus {
        ts: moment(),
        device_id: device_id.to_string(),
        agent_name: "client-desktop".to_string(),
        platform: Platform::Linux,
        status_text: "online".to_string(),
        source: "desktop".to_string(),
    }
}

/// What these tests store for a page: its title and its address.
fn page_json(event: &ActivityEvent) -> String {
    match &event.browser {
        Some(b) => format!("{}|{}", b.page_title.as_deref().unwrap(), b.url.as_deref().unwrap()),
        None => "null".to_string(),
    }
}

/// The page that is stored in a row.
fn page_of(row: &ActivityRow) -> Option<Result<BrowserContext, String>> {
    row.browser_json.as_deref().map(|json| {
        let (title, url) = json.split_once('|').ok_or("page".to_string())?;
        Ok(sample_event("", "", title, Some(url)).browser.unwrap())
    })
}

fn written(event: &ActivityEvent) -> ActivityRow {
    persist_activity(event, "{}".to_string(), page_json(event)).expect("row").row
}

fn fetched(event: &ActivityEvent) -> FetchedActivity<String> {
    FetchedActivity {
        row: written(event),
        app: Ok(event.app.clone()),
        browser: event.browser.clone().map(|b| Ok(b)),
    }
}

fn broken(event: &ActivityEvent) -> FetchedActivity<String> {
    let mut f = fetched(event);
    f.row.ts = "yesterday".to_string();
    f
}

fn assert_same_event(a: &ActivityEvent, b: &ActivityEvent) {
    assert_eq!(format!("{:?}", a), format!("{:?}", b));
}

#[test]
fn queries_quote_every_term() {
    assert_eq!(build_fts_query("github review").unwrap(), "\"github\" AND \"review\"");
    assert_eq!(build_fts_query("  rust ").unwrap(), "\"rust\"");
    assert_eq!(build_fts_query("\"a\" b\"c").unwrap(), "\"a\" AND \"b\"\"c\"");
    assert_eq!(build_fts_query("x OR y*").unwrap(), "\"x\" AND \"OR\" AND \"y*\"");
    assert_eq!(build_fts_query("a\u{3000}b").unwrap(), "\"a\" AND \"b\"");
    assert_eq!(build_fts_query("\"\" x").unwrap(), "\"x\"");
    assert_eq!(build_fts_query(""), Err(QueryError::QueryRequired));
    assert_eq!(build_fts_query(" \n\" \"\"\" "), Err(QueryError::QueryRequired));
}

#[test]
fn words_of_the_store_read_back() {
    let platforms = [
        (Platform::Macos, "macos"),
        (Platform::Windows, "windows"),
        (Platform::Linux, "linux"),
        (Platform::Android, "android"),
        (Platform::Unknown, "unknown"),
    ];
    for (platform, word) in platforms {
        assert_eq!(platform_to_str(&platform), word);
        assert_eq!(platform_from_str(word), platform);
    }
    assert_eq!(platform_from_str("MacOS"), Platform::Unknown);
    let kinds = [
        (ActivityKind::ForegroundChanged, "foreground_changed"),
        (ActivityKind::ActivitySample, "activity_sample"),
        (ActivityKind::PresenceChanged, "presence_changed"),
    ];
    for (kind, word) in kinds {
        assert_eq!(kind_to_str(&kind), word);
        assert_eq!(kind_from_str(word), kind);
    }
    assert_eq!(kind_from_str("other"), ActivityKind::ForegroundChanged);
    let presences = [
        (PresenceState::Active, "active"),
        (PresenceState::Idle, "idle"),
        (PresenceState::Locked, "locked"),
    ];
    for (presence, word) in presences {
        assert_eq!(presence_to_str(presence), word);
        assert_eq!(presence_from_str(word), presence);
    }
    assert_eq!(presence_from_str(""), PresenceState::Active);
}

#[test]
fn activities_are_written_and_read_back() {
    let mut event = sample_event("e", "d", "Title", Some("https://github.com/x"));
    event.platform = Platform::Android;
    event.kind = ActivityKind::PresenceChanged;
    event.presence = PresenceState::Locked;
    let write = persist_activity(&event, "app".to_string(), "page".to_string()).unwrap();
    assert_eq!(write.row.event_id, "e");
    assert_eq!(write.row.ts, MOMENT);
    assert_eq!(write.row.device_id, "d");
    assert_eq!(write.row.agent_name, "client-desktop");
    assert_eq!(write.row.platform, "android");
    assert_eq!(write.row.kind, "presence_changed");
    assert_eq!(write.row.app_json, "app");
    assert_eq!(write.row.window_title.as_deref(), Some("Title"));
    assert_eq!(write.row.browser_json.as_deref(), Some("page"));
    assert_eq!(write.row.presence, "locked");
    assert_eq!(write.row.source, "desktop");
    assert_eq!(write.search.event_id, "e");
    assert_eq!(write.search.device_id, "d");
    assert_eq!(write.search.app_name, "Google Chrome");
    assert_eq!(write.search.window_title.as_deref(), Some("Title"));
    assert_eq!(write.search.page_title.as_deref(), Some("Title"));
    assert_eq!(write.search.browser_url.as_deref(), Some("https://github.com/x"));
    assert_eq!(write.search.browser_domain.as_deref(), Some("github.com"));
    let read = activity_from_row::<String>(FetchedActivity {
        row: write.row,
        app: Ok(event.app.clone()),
        browser: Some(Ok(event.browser.clone().unwrap())),
    });
    assert_same_event(&read.unwrap(), &event);
    let plain = upsert_activity_search(&sample_event("e", "d", "T", None));
    assert_eq!(plain.page_title, None);
    assert_eq!(plain.browser_url, None);
    assert_eq!(plain.browser_domain, None);
}

#[test]
fn moments_survive_their_text() {
    let texts = [
        (0, 0, "1970-01-01T00:00:00Z"),
        (1, 0, "1970-01-01T00:00:00.000000001Z"),
        (-1_000_000_000, -1_800, "1969-12-31T23:59:59-00:30"),
        (-62_167_219_200_000_000_000, 86_340, "0000-01-01T00:00:00+23:59"),
        (253_402_300_799_999_999_999, -86_340, "9999-12-31T23:59:59.999999999-23:59"),
        (951_782_400_120_000_000, 0, "2000-02-29T00:00:00.12Z"),
    ];
    for (local_nanos, offset_seconds, text) in texts {
        let mut status = sample_status("d");
        status.ts = Timestamp { local_nanos, offset_seconds };
        let row = persist_status(&status).unwrap();
        assert_eq!(row.ts, text);
        assert_eq!(status_from_row::<String>(row).unwrap().ts, status.ts);
    }
    let unwritable = [
        (-62_167_219_200_000_000_001, 0),
        (253_402_300_800_000_000_000, 0),
        (0, 86_400),
        (0, -86_400),
        (0, 30),
        (0, i32::MIN),
        (i128::MAX, 0),
        (i128::MIN, 0),
    ];
    for (local_nanos, offset_seconds) in unwritable {
        let mut status = sample_status("d");
        status.ts = Timestamp { local_nanos, offset_seconds };
        assert_eq!(persist_status(&status).unwrap_err(), WriteError::Timestamp);
        let mut event = sample_event("e", "d", "T", None);
        event.ts = status.ts;
        assert_eq!(
            persist_activity(&event, String::new(), String::new()).unwrap_err(),
            WriteError::Timestamp
        );
    }
}

#[test]
fn faults_of_a_row_are_told_in_order() {
    let event = sample_event("e", "d", "T", Some("https://github.com"));
    let mut all = broken(&event);
    all.app = Err("app".to_string());
    all.browser = Some(Err("page".to_string()));
    assert!(matches!(activity_from_row(all), Err(RowError::Timestamp)));
    let mut two = fetched(&event);
    two.app = Err("app".to_string());
    two.browser = Some(Err("page".to_string()));
    assert!(matches!(activity_from_row(two), Err(RowError::App(e)) if e == "app"));
    let mut one = fetched(&event);
    one.browser = Some(Err("page".to_string()));
    assert!(matches!(activity_from_row(one), Err(RowError::Browser(e)) if e == "page"));
    let mut unknown = fetched(&event);
    unknown.row.platform = "beos".to_string();
    unknown.row.kind = "".to_string();
    unknown.row.presence = "away".to_string();
    let read = activity_from_row(unknown).unwrap();
    assert_eq!(read.platform, Platform::Unknown);
    assert_eq!(read.kind, ActivityKind::ForegroundChanged);
    assert_eq!(read.presence, PresenceState::Active);
    assert_eq!(parse_optional_json::<u8, u8>(None), Ok(None));
    assert_eq!(parse_optional_json::<u8, u8>(Some(Ok(1))), Ok(Some(1)));
    assert_eq!(parse_optional_json::<u8, u8>(Some(Err(2))), Err(2));
}

#[test]
fn given_moments_decide_over_the_text() {
    let event = sample_event("e", "d", "T", None);
    let other = Timestamp { local_nanos: 5, offset_seconds: 0 };
    assert_eq!(activity_with_moment(broken(&event), Some(other)).unwrap().ts, other);
    assert!(matches!(activity_with_moment(fetched(&event), None), Err(RowError::Timestamp)));
    let row = status_row_of(&sample_status("d"), Some("noon".to_string())).unwrap();
    assert_eq!(row.ts, "noon");
    assert_eq!(row.platform, "linux");
    assert_eq!(status_with_moment::<String>(row, Some(other)).unwrap().ts, other);
    assert_eq!(status_row_of(&sample_status("d"), None).unwrap_err(), WriteError::Timestamp);
    let (a, p) = ("a".to_string(), "p".to_string());
    let rows = activity_rows(&event, Some("noon".to_string()), a.clone(), p.clone()).unwrap();
    assert_eq!(rows.row.ts, "noon");
    assert_eq!(
        activity_rows(&event, None, a, p).unwrap_err(),
        WriteError::Timestamp
    );
}

#[test]
fn rows_are_read_all_or_not_at_all() {
    let a = sample_event("a", "d", "A", None);
    let b = sample_event("b", "d", "B", None);
    let read = load_recent_activities_for_device(vec![fetched(&a), fetched(&b)]).unwrap();
    assert_eq!(read.len(), 2);
    assert_same_event(&read[0], &a);
    assert_same_event(&read[1], &b);
    assert!(load_all_activities_for_device::<String>(Vec::new()).unwrap().is_empty());
    let mut bad_app = fetched(&b);
    bad_app.app = Err("json".to_string());
    assert!(matches!(
        load_all_activities_for_device(vec![fetched(&a), bad_app, broken(&a)]),
        Err(RowError::App(_))
    ));
    assert_same_event(&load_latest_activity_for_device(Some(fetched(&b))).unwrap().unwrap(), &b);
    assert!(load_latest_activity_for_device::<String>(None).unwrap().is_none());
    assert!(load_latest_activity_for_device(Some(broken(&b))).is_err());
}

#[test]
fn statuses_are_read_back() {
    let one = persist_status(&sample_status("one")).unwrap();
    let two = persist_status(&sample_status("two")).unwrap();
    let read = load_device_statuses::<String>(vec![one, two]).unwrap();
    assert_eq!(read.len(), 2);
    assert_eq!(read[0].device_id, "one");
    assert_eq!(read[1].device_id, "two");
    assert_eq!(read[1].status_text, "online");
    assert_eq!(read[1].platform, Platform::Linux);
    let mut bad = persist_status(&sample_status("bad")).unwrap();
    bad.ts = "2024-13-01T00:00:00Z".to_string();
    assert!(matches!(load_device_statuses::<String>(vec![bad]), Err(RowError::Timestamp)));
    assert!(load_device_status::<String>(None).unwrap().is_none());
    let row = persist_status(&sample_status("d")).unwrap();
    assert_eq!(load_device_status::<String>(Some(row)).unwrap().unwrap().device_id, "d");
}

#[test]
fn snapshots_hold_devices_status_and_recent_activities() {
    let a = sample_event("a", "d1", "A", None);
    let b = sample_event("b", "d2", "B", None);
    let status = persist_status(&sample_status("d1")).unwrap();
    let s = load_snapshot(vec![fetched(&a), fetched(&b)], vec![fetched(&b)], Some(status)).unwrap();
    assert_eq!(s.recent_activities.len(), 2);
    assert_same_event(&s.recent_activities[0], &a);
    assert_eq!(s.devices.len(), 1);
    assert_same_event(&s.devices[0], &b);
    assert_eq!(s.latest_status.unwrap().device_id, "d1");
    let mut bad = fetched(&a);
    bad.app = Err("json".to_string());
    assert!(matches!(load_snapshot(vec![broken(&a)], vec![bad], None), Err(RowError::Timestamp)));
    let bad_status = StatusRow {
        ts: "".to_string(),
        device_id: "d".to_string(),
        agent_name: "a".to_string(),
        platform: "linux".to_string(),
        status_text: "s".to_string(),
        source: "s".to_string(),
    };
    assert!(load_snapshot::<String>(Vec::new(), Vec::new(), Some(bad_status)).is_err());
}

#[test]
fn hits_keep_snippet_and_rank() {
    let a = sample_event("a", "d1", "A", None);
    let hit = FetchedHit {
        activity: fetched(&a),
        snippet: "A … B".to_string(),
        score_bits: (-1.5f32).to_bits(),
    };
    let hits = search_activities(vec![hit]).unwrap();
    assert_eq!(hits.len(), 1);
    assert_same_event(&hits[0].activity, &a);
    assert_eq!(hits[0].snippet, "A … B");
    assert_eq!(f32::from_bits(hits[0].score_bits), -1.5);
    let bad = FetchedHit { activity: broken(&a), snippet: String::new(), score_bits: 0 };
    assert!(matches!(search_activities(vec![bad]), Err(RowError::Timestamp)));
}

#[test]
fn database_files_by_their_address() {
    assert_eq!(database_file("sqlite://data/eyes.db").as_deref(), Some("data/eyes.db"));
    assert_eq!(database_file("sqlite://sqlite:///var/x.db").as_deref(), Some("/var/x.db"));
    assert_eq!(database_file("data/eyes.db").as_deref(), Some("data/eyes.db"));
    assert_eq!(database_file("sqlite://:memory:"), None);
    assert_eq!(database_file("sqlite://"), None);
    assert_eq!(database_file("sqlite::memory:").as_deref(), Some("sqlite::memory:"));
}

#[test]
fn first_older_file_is_taken_over() {
    assert_eq!(LEGACY_CANDIDATES, 3);
    assert_eq!(legacy_candidate(0), Some("amiokay.db"));
    assert_eq!(legacy_candidate(1), Some("../data/amiokay.db"));
    assert_eq!(legacy_candidate(2), Some("../DB/amiokay.db"));
    assert_eq!(legacy_candidate(3), None);
    assert_eq!(migrate_legacy_database_file(false, true, &[false, true, true]), Some(1));
    assert_eq!(migrate_legacy_database_file(false, true, &[false, false, false]), None);
    assert_eq!(migrate_legacy_database_file(true, true, &[true, true, true]), None);
    assert_eq!(migrate_legacy_database_file(false, false, &[true, true, true]), None);
}

#[test]
fn migrations_run_every_statement_once() {
    let mut m = migrate();
    let mut run = Vec::new();
    while let Some(statement) = m.statement() {
        run.push(statement);
        m = m.after(run.len() != OPTIONAL_STATEMENT + 1);
    }
    assert_eq!(m, Migration::Complete);
    assert_eq!(run.len(), SCHEMA_STATEMENTS);
    assert_eq!(run[0], sql::CREATE_ACTIVITY_LOG);
    assert_eq!(run[1], sql::ADD_PRESENCE_COLUMN);
    assert_eq!(run[6], sql::CREATE_SEARCH_FTS);
    assert_eq!(run[9], sql::CREATE_SEARCH_UPDATE_TRIGGER);
    let failed = migrate().after(true).after(false).after(false);
    assert_eq!(failed, Migration::Failed(2));
    assert_eq!(failed.statement(), None);
    assert_eq!(failed.after(true), failed);
}

#[test]
fn rebuilds_write_each_row_once() {
    assert_eq!(rebuild_activity_search_index_if_needed(3, 3), Rebuild::Done);
    assert_eq!(after_schema(Migration::Complete, 3, 3), Some(Rebuild::Done));
    assert_eq!(after_schema(Migration::Complete, 3, 4), Some(Rebuild::Clear));
    assert_eq!(after_schema(Migration::Statement(9), 3, 4), None);
    assert_eq!(after_schema(Migration::Failed(2), 3, 3), None);
    let mut step = rebuild_activity_search_index_if_needed(3, 2);
    assert_eq!(step, Rebuild::Clear);
    step = step.after(0);
    assert_eq!(step, Rebuild::Load);
    step = step.after(2);
    assert_eq!(step, Rebuild::Index { next: 0, total: 2 });
    step = step.after(0);
    assert_eq!(step, Rebuild::Index { next: 1, total: 2 });
    step = step.after(0);
    assert_eq!(step, Rebuild::Refresh);
    step = step.after(0);
    assert_eq!(step, Rebuild::Done);
    assert_eq!(step.after(9), Rebuild::Done);
    assert_eq!(Rebuild::Load.after(0), Rebuild::Refresh);
    assert_eq!(Rebuild::Clear.statement(), Some(sql::CLEAR_SEARCH_DOCUMENTS));
    assert_eq!(Rebuild::Load.statement(), Some(sql::ALL_ACTIVITIES));
    assert_eq!(Rebuild::Refresh.statement(), Some(sql::REBUILD_SEARCH_FTS));
    assert_eq!(Rebuild::Index { next: 0, total: 1 }.statement(), None);
    assert_eq!(Rebuild::Done.statement(), None);
    let a = sample_event("a", "d1", "A", None);
    assert_eq!(rebuilt_document(fetched(&a)).unwrap().event_id, "a");
    assert!(matches!(rebuilt_document(broken(&a)), Err(RowError::Timestamp)));
}

async fn open() -> sqlx::SqlitePool {
    let pool = sqlx::sqlite::SqlitePoolOptions::new()
        .max_connections(1)
        .connect("sqlite::memory:")
        .await
        .expect("connect in-memory db");
    let mut m = migrate();
    while let Some(statement) = m.statement() {
        let outcome = sqlx::query(statement).execute(&pool).await;
        m = m.after(outcome.is_ok());
    }
    assert_eq!(m, Migration::Complete);
    pool
}

type Query = sqlx::query::Query<'static, sqlx::Sqlite, sqlx::sqlite::SqliteArguments<'static>>;

fn bound(statement: Statement) -> Query {
    let mut query = sqlx::query(statement.sql);
    for param in statement.params {
        query = match param {
            Param::Text(s) => query.bind(s),
            Param::OptionalText(s) => query.bind(s),
            Param::Integer(n) => query.bind(n),
        };
    }
    query
}

async fn store(pool: &sqlx::SqlitePool, event: &ActivityEvent) {
    let write = persist_activity(event, "{}".to_string(), page_json(event)).expect("rows");
    let (log, document) = activity_statements(write);
    let logged = bound(log).execute(pool).await;
    let document = after_log(document, logged.is_ok()).expect("persist event");
    bound(document).execute(pool).await.expect("persist document");
}

async fn store_status(pool: &sqlx::SqlitePool, status: &DeviceStatus) {
    let row = persist_status(status).expect("row");
    bound(status_statement(row)).execute(pool).await.expect("persist status");
}

fn status_row(row: &sqlx::sqlite::SqliteRow) -> StatusRow {
    StatusRow {
        ts: row.get("ts"),
        device_id: row.get("device_id"),
        agent_name: row.get("agent_name"),
        platform: row.get("platform"),
        status_text: row.get("status_text"),
        source: row.get("source"),
    }
}

fn row_of(row: &sqlx::sqlite::SqliteRow) -> ActivityRow {
    ActivityRow {
        event_id: row.get("event_id"),
        ts: row.get("ts"),
        device_id: row.get("device_id"),
        agent_name: row.get("agent_name"),
        platform: row.get("platform"),
        kind: row.get("kind"),
        app_json: row.get("app_json"),
        window_title: row.get("window_title"),
        browser_json: row.get("browser_json"),
        presence: row.get("presence"),
        source: row.get("source"),
    }
}

async fn search(
    pool: &sqlx::SqlitePool,
    query: &str,
    device_id: Option<&str>,
    app: &AppInfo,
) -> Vec<eyes_on_me::model::ActivitySearchHit> {
    let rows = bound(search_statement(query, device_id, 10).expect("query"))
        .fetch_all(pool)
        .await
        .expect("search activities");
    let found = rows
        .iter()
        .map(|row| FetchedHit {
            activity: FetchedActivity::<String> {
                row: row_of(row),
                app: Ok(app.clone()),
                browser: page_of(&row_of(row)),
            },
            snippet: row.get("snippet"),
            score_bits: (row.get::<f64, _>("score") as f32).to_bits(),
        })
        .collect();
    search_activities(found).expect("hits")
}

fn run<F: std::future::Future<Output = ()>>(f: F) {
    tokio::runtime::Builder::new_current_thread()
        .enable_all()
        .build()
        .expect("runtime")
        .block_on(f)
}

#[test]
fn searches_window_titles_and_urls() {
    run(async {
        let pool = open().await;
        let event = sample_event(
            "evt-1",
            "mac-1",
            "GitHub Pull Request Review",
            Some("https://github.com/wm94i/Work_Review/pull/10"),
        );
        store(&pool, &event).await;

        let results = search(&pool, "github review", None, &event.app).await;

        assert_eq!(results.len(), 1);
        assert_eq!(results[0].activity.event_id, "evt-1");
        assert_eq!(results[0].activity.ts, event.ts);
    });
}

#[test]
fn filters_search_results_by_device() {
    run(async {
        let pool = open().await;
        let url = Some("https://github.com/rust-lang/rfcs");
        let first = sample_event("evt-1", "mac-1", "Rust RFC", url);
        store(&pool, &first).await;
        store(&pool, &sample_event("evt-2", "mac-2", "Rust RFC", url)).await;

        let counted = count_activity_search_results("rust", Some("mac-2")).expect("query");
        let total: i64 = bound(counted)
            .fetch_one(&pool)
            .await
            .expect("count filtered search")
            .get(0);
        let results = search(&pool, "rust", Some("mac-2"), &first.app).await;

        assert_eq!(total, 1);
        assert_eq!(results.len(), 1);
        assert_eq!(results[0].activity.device_id, "mac-2");
        assert_eq!(search(&pool, "rust", None, &first.app).await.len(), 2);
    });
}

#[test]
fn whatever_is_typed_is_a_query() {
    run(async {
        let pool = open().await;
        let event = sample_event("evt-1", "mac-1", "say \"hi\" AND (bye)", None);
        store(&pool, &event).await;
        for typed in ["\"hi\"", "say\"hi", "(bye)", "and", "*", "^a:b", "NEAR(", "a\"\"b"] {
            search(&pool, typed, None, &event.app).await;
        }
        assert_eq!(search(&pool, "\"hi\" (bye)", None, &event.app).await.len(), 1);
    });
}

#[test]
fn an_activity_written_again_replaces_itself() {
    run(async {
        let pool = open().await;
        store(&pool, &sample_event("evt-1", "mac-1", "Draft", None)).await;
        let event = sample_event("evt-1", "mac-1", "Final", None);
        store(&pool, &event).await;
        let rows = bound(all_activities_statement("mac-1"))
            .fetch_all(&pool)
            .await
            .expect("rows");
        assert_eq!(rows.len(), 1);
        assert_eq!(row_of(&rows[0]).window_title.as_deref(), Some("Final"));
        assert!(search(&pool, "draft", None, &event.app).await.is_empty());
        assert_eq!(search(&pool, "final", None, &event.app).await.len(), 1);
    });
}

#[test]
fn statements_carry_their_parameters_in_order() {
    let event = sample_event("e", "d", "T", Some("https://github.com/x"));
    let write = persist_activity(&event, "app".to_string(), "page".to_string()).unwrap();
    let text = |s: &str| Param::Text(s.to_string());
    let optional = |s: &str| Param::OptionalText(Some(s.to_string()));
    let activity = activity_statement(write.row);
    assert_eq!(activity.sql, sql::UPSERT_ACTIVITY);
    assert_eq!(
        activity.params,
        vec![
            text("e"), text(MOMENT), text("d"), text("client-desktop"), text("macos"),
            text("foreground_changed"), text("app"), optional("T"), optional("page"),
            text("active"), text("desktop"),
        ]
    );
    let document = search_document_statement(write.search);
    assert_eq!(document.sql, sql::UPSERT_SEARCH_DOCUMENT);
    assert_eq!(
        document.params,
        vec![
            text("e"), text("d"), text("Google Chrome"), optional("T"), optional("T"),
            optional("https://github.com/x"), optional("github.com"),
        ]
    );
    let status = status_statement(persist_status(&sample_status("d")).unwrap());
    assert_eq!(status.sql, sql::UPSERT_STATUS);
    assert_eq!(
        status.params,
        vec![
            text("d"), text(MOMENT), text("client-desktop"), text("linux"), text("online"),
            text("desktop"),
        ]
    );
    let search = search_statement("a b", None, 7).unwrap();
    assert_eq!(search.sql, sql::SEARCH_ACTIVITIES);
    assert_eq!(
        search.params,
        vec![text("\"a\" AND \"b\""), Param::OptionalText(None), Param::Integer(7)]
    );
    let count = count_activity_search_results("a b", None).unwrap();
    assert_eq!(count.sql, sql::COUNT_SEARCH_RESULTS);
    assert_eq!(count.params[..], search.params[..2]);
    assert_eq!(search_statement(" \"", None, 1), Err(QueryError::QueryRequired));
    assert_eq!(count_activity_search_results("", Some("d")), Err(QueryError::QueryRequired));
    assert_eq!(device_statuses_statement().sql, sql::DEVICE_STATUSES);
    assert_eq!(device_status_statement("d").params, vec![text("d")]);
    assert_eq!(latest_activity_statement("d").sql, sql::LATEST_ACTIVITY_OF_DEVICE);
    assert_eq!(
        recent_activities_statement("d", 3).params,
        vec![text("d"), Param::Integer(3)]
    );
}

#[test]
fn stored_activities_and_statuses_are_found_again() {
    run(async {
        let pool = open().await;
        let mut early = sample_event("e1", "mac-1", "Early", None);
        early.ts.local_nanos -= 1_000_000_000;
        let late = sample_event("e2", "mac-1", "Late", None);
        let mut sample = sample_event("e3", "mac-1", "Sample", None);
        sample.kind = ActivityKind::ActivitySample;
        sample.ts.local_nanos += 1_000_000_000;
        let other = sample_event("e4", "mac-2", "Other", None);
        for event in [&late, &early, &sample, &other] {
            store(&pool, event).await;
        }
        store_status(&pool, &sample_status("mac-1")).await;
        let mut again = sample_status("mac-1");
        again.status_text = "away".to_string();
        store_status(&pool, &again).await;

        let app = late.app.clone();
        let fetched_rows = |rows: Vec<sqlx::sqlite::SqliteRow>| -> Vec<FetchedActivity<String>> {
            rows.iter()
                .map(|row| FetchedActivity {
                    row: row_of(row),
                    app: Ok(app.clone()),
                    browser: page_of(&row_of(row)),
                })
                .collect()
        };
        let ids = |events: &[ActivityEvent]| -> Vec<String> {
            events.iter().map(|e| e.event_id.clone()).collect()
        };

        let rows = bound(recent_activities_statement("mac-1", 5)).fetch_all(&pool).await.unwrap();
        let recent = load_recent_activities_for_device(fetched_rows(rows)).unwrap();
        assert_eq!(ids(&recent), ["e2", "e1"]);
        assert_eq!(recent[0].ts, late.ts);
        let rows = bound(all_activities_statement("mac-1")).fetch_all(&pool).await.unwrap();
        let all = load_all_activities_for_device(fetched_rows(rows)).unwrap();
        assert_eq!(ids(&all), ["e1", "e2", "e3"]);
        assert_eq!(all[2].kind, ActivityKind::ActivitySample);
        let row = bound(latest_activity_statement("mac-1")).fetch_all(&pool).await.unwrap();
        let latest = load_latest_activity_for_device(fetched_rows(row).pop()).unwrap().unwrap();
        assert_eq!(latest.event_id, "e3");

        let (recent_s, devices_s, status_s) = snapshot_statements();
        let recent = bound(recent_s).fetch_all(&pool).await.unwrap();
        let devices = bound(devices_s).fetch_all(&pool).await.unwrap();
        let status = bound(status_s).fetch_optional(&pool).await.unwrap();
        let shown = load_snapshot(
            fetched_rows(recent),
            fetched_rows(devices),
            status.map(|row| status_row(&row)),
        )
        .unwrap();
        assert_eq!(shown.recent_activities.len(), 3);
        assert_eq!(ids(&shown.devices), ["e3", "e4"]);
        assert_eq!(shown.latest_status.unwrap().status_text, "away");

        let row = bound(device_status_statement("mac-2")).fetch_optional(&pool).await.unwrap();
        assert!(load_device_status::<String>(row.map(|r| status_row(&r))).unwrap().is_none());
        let rows = bound(device_statuses_statement()).fetch_all(&pool).await.unwrap();
        let rows = rows.iter().map(|row| status_row(row)).collect();
        let statuses = load_device_statuses::<String>(rows).unwrap();
        assert_eq!(statuses.len(), 1);
        assert_eq!(statuses[0].ts, again.ts);
    });
}

#[test]
fn search_table_is_rebuilt_when_it_falls_behind() {
    run(async {
        let pool = open().await;
        let event = sample_event("e1", "mac-1", "Forgotten", None);
        store(&pool, &event).await;
        sqlx::query(sql::CLEAR_SEARCH_DOCUMENTS).execute(&pool).await.unwrap();
        assert!(search(&pool, "forgotten", None, &event.app).await.is_empty());

        let (activities, documents) = rebuild_count_statements();
        let logged: i64 = bound(activities).fetch_one(&pool).await.unwrap().get(0);
        let searchable: i64 = bound(documents).fetch_one(&pool).await.unwrap().get(0);
        assert_eq!((logged, searchable), (1, 0));
        let mut step = after_schema(Migration::Complete, logged, searchable).unwrap();
        let mut rows = Vec::new();
        while step != Rebuild::Done {
            match step {
                Rebuild::Clear | Rebuild::Refresh => {
                    sqlx::query(step.statement().unwrap()).execute(&pool).await.unwrap();
                }
                Rebuild::Load => {
                    rows = sqlx::query(step.statement().unwrap()).fetch_all(&pool).await.unwrap();
                }
                Rebuild::Index { next, .. } => {
                    let document = rebuilt_document(FetchedActivity::<String> {
                        row: row_of(&rows[next]),
                        app: Ok(event.app.clone()),
                        browser: None,
                    });
                    bound(search_document_statement(document.unwrap()))
                        .execute(&pool)
                        .await
                        .unwrap();
                }
                Rebuild::Done => {}
            }
            step = step.after(rows.len());
        }
        assert_eq!(search(&pool, "forgotten", None, &event.app).await.len(), 1);
    });
}

#[test]
fn an_activity_is_logged_before_it_is_made_searchable() {
    let event = sample_event("e1", "mac-1", "Title", Some("https://github.com/a"));
    let write = persist_activity(&event, "{}".to_string(), page_json(&event)).expect("rows");
    let (first, second) = activity_statements(write);
    let again = persist_activity(&event, "{}".to_string(), page_json(&event)).expect("rows");
    assert_eq!(first, activity_statement(again.row));
    assert_eq!(second, search_document_statement(again.search));
    assert_eq!(first.sql, sql::UPSERT_ACTIVITY);
    assert_eq!(second.sql, sql::UPSERT_SEARCH_DOCUMENT);
    assert_eq!(after_log(second.clone(), true), Some(second.clone()));
    assert_eq!(after_log(second, false), None);
    assert_eq!(rebuild_count_statements().0.sql, sql::COUNT_ACTIVITIES);
    assert_eq!(rebuild_count_statements().1.sql, sql::COUNT_SEARCH_DOCUMENTS);
}

#[test]
fn the_first_faulty_row_decides() {
    let good = sample_event("a", "d1", "A", None);
    let mut no_app = fetched(&good);
    no_app.app = Err("app".to_string());
    let list = vec![fetched(&good), no_app, broken(&good)];
    assert!(matches!(
        load_all_activities_for_device(list),
        Err(RowError::App(e)) if e == "app"
    ));
}

#[test]
fn pages_follow_their_column() {
    let plain = sample_event("e", "d", "T", None);
    assert_eq!(written(&plain).browser_json, None);
    let paged = sample_event("e", "d", "T", Some("https://github.com/x"));
    assert_eq!(written(&paged).browser_json.as_deref(), Some("T|https://github.com/x"));
    assert_same_event(&activity_from_row(fetched(&paged)).unwrap(), &paged);
    assert_same_event(&activity_from_row(fetched(&plain)).unwrap(), &plain);
    let mut emptied = fetched(&paged);
    emptied.row.browser_json = None;
    assert!(activity_from_row(emptied).unwrap().browser.is_none());
    let mut emptied = fetched(&paged);
    emptied.row.browser_json = None;
    emptied.browser = Some(Err("page".to_string()));
    assert!(activity_from_row(emptied).unwrap().browser.is_none());
}

async fn all_of(pool: &sqlx::SqlitePool, device_id: &str, app: &AppInfo) -> Vec<ActivityEvent> {
    let rows = bound(all_activities_statement(device_id)).fetch_all(pool).await.unwrap();
    load_all_activities_for_device(fetched_all(&rows, app)).unwrap()
}

fn fetched_all(
    rows: &[sqlx::sqlite::SqliteRow],
    app: &AppInfo,
) -> Vec<FetchedActivity<String>> {
    rows.iter()
        .map(|row| FetchedActivity {
            row: row_of(row),
            app: Ok(app.clone()),
            browser: page_of(&row_of(row)),
        })
        .collect()
}

#[test]
fn a_stored_activity_is_the_only_one_of_its_identifier() {
    run(async {
        let pool = open().await;
        let other = sample_event("other", "mac-1", "Other", None);
        store(&pool, &other).await;
        store(&pool, &sample_event("e", "mac-1", "Old", None)).await;
        let event = sample_event("e", "mac-2", "New", Some("https://github.com/x"));
        for _ in 0..2 {
            store(&pool, &event).await;
            let moved = all_of(&pool, "mac-2", &event.app).await;
            assert_eq!(moved.len(), 1);
            assert_same_event(&moved[0], &event);
            let left = all_of(&pool, "mac-1", &other.app).await;
            assert_eq!(left.len(), 1);
            assert_same_event(&left[0], &other);
        }
    });
}

#[test]
fn a_stored_status_is_the_only_one_of_its_device() {
    run(async {
        let pool = open().await;
        store_status(&pool, &sample_status("mac-1")).await;
        store_status(&pool, &sample_status("mac-2")).await;
        let mut earlier = sample_status("mac-1");
        earlier.ts.local_nanos -= 1_000_000_000;
        earlier.status_text = "back".to_string();
        store_status(&pool, &earlier).await;
        let row = bound(device_status_statement("mac-1")).fetch_optional(&pool).await.unwrap();
        let read = load_device_status::<String>(row.map(|r| status_row(&r))).unwrap().unwrap();
        assert_eq!(format!("{:?}", read), format!("{:?}", earlier));
        let rows = bound(device_statuses_statement()).fetch_all(&pool).await.unwrap();
        let rows = rows.iter().map(|row| status_row(row)).collect();
        let all = load_device_statuses::<String>(rows).unwrap();
        assert_eq!(all.len(), 2);
        assert_eq!(all[0].device_id, "mac-2");
        assert_eq!(format!("{:?}", all[1]), format!("{:?}", earlier));
    });
}

#[test]
fn snapshots_show_the_newest_and_no_samples() {
    run(async {
        let pool = open().await;
        let app = sample_event("", "", "T", None).app;
        for i in 0..30i128 {
            let device = format!("mac-{}", i % 3);
            let mut event = sample_event(&format!("e{}", i), &device, "T", None);
            event.ts = Timestamp { local_nanos: i * 1_000_000_000, offset_seconds: 0 };
            if i >= 27 {
                event.kind = ActivityKind::ActivitySample;
            }
            store(&pool, &event).await;
        }
        let (recent, devices, status) = snapshot_statements();
        let recent = bound(recent).fetch_all(&pool).await.unwrap();
        let devices = bound(devices).fetch_all(&pool).await.unwrap();
        let status = bound(status).fetch_optional(&pool).await.unwrap();
        let shown = load_snapshot(
            fetched_all(&recent, &app),
            fetched_all(&devices, &app),
            status.map(|row| status_row(&row)),
        )
        .unwrap();
        let ids: Vec<String> = shown.recent_activities.into_iter().map(|e| e.event_id).collect();
        let newest: Vec<String> = (7..27).rev().map(|i| format!("e{}", i)).collect();
        assert_eq!(ids, newest);
        let ids: Vec<String> = shown.devices.into_iter().map(|e| e.event_id).collect();
        assert_eq!(ids, ["e29", "e28", "e27"]);
        assert!(shown.latest_status.is_none());
    });
}

#[test]
fn searches_match_all_words_best_first() {
    run(async {
        let pool = open().await;
        for (id, device, title) in [
            ("e1", "mac-1", "rust compiler"),
            ("e2", "mac-1", "rust"),
            ("e3", "mac-2", "rust compiler notes and many more words about it"),
            ("e4", "mac-1", "compiler"),
        ] {
            store(&pool, &sample_event(id, device, title, None)).await;
        }
        let app = sample_event("", "", "T", None).app;
        let hits = search(&pool, "compiler rust", None, &app).await;
        let ids: Vec<&str> = hits.iter().map(|h| h.activity.event_id.as_str()).collect();
        assert_eq!(ids, ["e1", "e3"]);
        let scores: Vec<f32> = hits.iter().map(|h| f32::from_bits(h.score_bits)).collect();
        assert!(scores[0] <= scores[1]);
        let here = search(&pool, "compiler rust", Some("mac-2"), &app).await;
        assert_eq!(here.len(), 1);
        assert_eq!(here[0].activity.device_id, "mac-2");
        let one = bound(search_statement("rust", None, 1).unwrap()).fetch_all(&pool).await.unwrap();
        assert_eq!(one.len(), 1);
    });
}
