//! From fetched rows to what the store is asked for. The first row that cannot
//! be read decides: its fault is the answer.

use crate::db::rows;
use crate::db::rows::{FetchedActivity, FetchedActivityView, RowError, StatusRow, StatusRowView};
use crate::model;
use crate::model::{
    ActivityEvent, ActivityEventView, ActivitySearchHit, ActivitySearchHitView, DashboardSnapshot,
    DashboardSnapshotView, DeviceStatus, DeviceStatusView,
};
use vstd::prelude::*;

verus! {

/// The views of fetched rows.
pub open spec fn fetched<E>(list: Seq<FetchedActivity<E>>) -> Seq<FetchedActivityView<E>> {
    Seq::new(list.len(), |i: int| list[i]@)
}

/// The views of rows of statuses.
pub open spec fn status_rows(list: Seq<StatusRow>) -> Seq<StatusRowView> {
    Seq::new(list.len(), |i: int| list[i]@)
}

/// All values of a list of results, in order, or the first fault.
pub open spec fn collected<V, E>(results: Seq<Result<V, E>>) -> Result<Seq<V>, E>
    decreases results.len(),
{
    if results.len() == 0 {
        Ok(Seq::empty())
    } else {
        match (collected(results.drop_last()), results.last()) {
            (Err(e), _) => Err(e),
            (Ok(_), Err(e)) => Err(e),
            (Ok(values), Ok(value)) => Ok(values.push(value)),
        }
    }
}

/// What comes of each row.
pub open spec fn activity_results<E>(list: Seq<FetchedActivityView<E>>) -> Seq<
    Result<ActivityEventView, RowError<E>>,
> {
    Seq::new(list.len(), |i: int| rows::decoded_activity(list[i]))
}

/// The activities in rows, in the order of the rows, or the first fault.
pub open spec fn decoded_activities<E>(list: Seq<FetchedActivityView<E>>) -> Result<
    Seq<ActivityEventView>,
    RowError<E>,
> {
    collected(activity_results(list))
}

/// What comes of each row.
pub open spec fn status_results<E>(list: Seq<StatusRowView>) -> Seq<
    Result<DeviceStatusView, RowError<E>>,
> {
    Seq::new(list.len(), |i: int| rows::decoded_status::<E>(list[i]))
}

/// The statuses in rows, in the order of the rows, or the first fault.
pub open spec fn decoded_statuses<E>(list: Seq<StatusRowView>) -> Result<
    Seq<DeviceStatusView>,
    RowError<E>,
> {
    collected(status_results::<E>(list))
}

/// A fault among the first results is the fault of all of them.
proof fn lemma_first_fault<V, E>(results: Seq<Result<V, E>>, n: int)
    requires
        0 <= n <= results.len(),
        collected(results.take(n)) is Err,
    ensures
        collected(results) == collected(results.take(n)),
    decreases results.len(),
{
    if n == results.len() {
        assert(results.take(n) =~= results);
    } else {
        assert(results.drop_last().take(n) =~= results.take(n));
        lemma_first_fault(results.drop_last(), n);
    }
}

/// One more result behind values that were collected.
proof fn lemma_collect_next<V, E>(results: Seq<Result<V, E>>, n: int)
    requires
        0 <= n < results.len(),
        collected(results.take(n)) is Ok,
    ensures
        results[n] matches Ok(value) ==> collected(results.take(n + 1)) == Ok::<Seq<V>, E>(
            collected(results.take(n))->Ok_0.push(value),
        ),
        results[n] matches Err(e) ==> collected(results) == Err::<Seq<V>, E>(e),
{
    let next = results.take(n + 1);
    assert(next.drop_last() =~= results.take(n));
    assert(next.last() == results[n]);
    if results[n] is Err {
        lemma_first_fault(results, n + 1);
    }
}

/// The view of a list of activities, or its fault.
pub open spec fn events_result<E>(r: Result<Vec<ActivityEvent>, RowError<E>>) -> Result<
    Seq<ActivityEventView>,
    RowError<E>,
> {
    match r {
        Ok(list) => Ok(model::events(list@)),
        Err(e) => Err(e),
    }
}

/// The view of a list of statuses, or its fault.
pub open spec fn statuses_result<E>(r: Result<Vec<DeviceStatus>, RowError<E>>) -> Result<
    Seq<DeviceStatusView>,
    RowError<E>,
> {
    match r {
        Ok(list) => Ok(model::statuses(list@)),
        Err(e) => Err(e),
    }
}

/// The activities in fetched rows.
fn decode_activities<E>(list: Vec<FetchedActivity<E>>) -> (r: Result<
    Vec<ActivityEvent>,
    RowError<E>,
>)
    ensures
        events_result(r) == decoded_activities(fetched(list@)),
{
    let ghost results = activity_results(fetched(list@));
    let mut out: Vec<ActivityEvent> = Vec::new();
    assert(model::events(out@) =~= Seq::empty());
    assert(results.take(0) =~= Seq::empty());
    for f in it: list
        invariant
            it.seq() == list@,
            results == activity_results(fetched(list@)),
            collected(results.take(it.index() as int)) == Ok::<
                Seq<ActivityEventView>,
                RowError<E>,
            >(model::events(out@)),
    {
        let ghost before = model::events(out@);
        proof {
            lemma_collect_next(results, it.index() as int);
        }
        match rows::activity_from_row(f) {
            Ok(event) => {
                let ghost view = event@;
                out.push(event);
                assert(model::events(out@) =~= before.push(view));
            },
            Err(e) => return Err(e),
        }
    }
    assert(results.take(results.len() as int) =~= results);
    Ok(out)
}

/// The statuses in fetched rows.
pub fn load_device_statuses<E>(list: Vec<StatusRow>) -> (r: Result<
    Vec<DeviceStatus>,
    RowError<E>,
>)
    ensures
        statuses_result(r) == decoded_statuses::<E>(status_rows(list@)),
{
    let ghost results = status_results::<E>(status_rows(list@));
    let mut out: Vec<DeviceStatus> = Vec::new();
    assert(model::statuses(out@) =~= Seq::empty());
    assert(results.take(0) =~= Seq::empty());
    for row in it: list
        invariant
            it.seq() == list@,
            results == status_results::<E>(status_rows(list@)),
            collected(results.take(it.index() as int)) == Ok::<
                Seq<DeviceStatusView>,
                RowError<E>,
            >(model::statuses(out@)),
    {
        let ghost before = model::statuses(out@);
        proof {
            lemma_collect_next(results, it.index() as int);
        }
        match rows::status_from_row::<E>(row) {
            Ok(status) => {
                let ghost view = status@;
                out.push(status);
                assert(model::statuses(out@) =~= before.push(view));
            },
            Err(e) => return Err(e),
        }
    }
    assert(results.take(results.len() as int) =~= results);
    Ok(out)
}

/// The status of one device, where it has reported one.
pub fn load_device_status<E>(row: Option<StatusRow>) -> (r: Result<
    Option<DeviceStatus>,
    RowError<E>,
>)
    ensures
        (match r {
            Ok(status) => Ok::<_, RowError<E>>(model::opt_status(status)),
            Err(e) => Err(e),
        }) == decoded_opt_status::<E>(row),
{
    match row {
        Some(row) => match rows::status_from_row::<E>(row) {
            Ok(status) => Ok(Some(status)),
            Err(e) => Err(e),
        },
        None => Ok(None),
    }
}

/// The status in an optional row: none where there is no row.
pub open spec fn decoded_opt_status<E>(row: Option<StatusRow>) -> Result<
    Option<DeviceStatusView>,
    RowError<E>,
> {
    match row {
        Some(row) => match rows::decoded_status::<E>(row@) {
            Ok(status) => Ok(Some(status)),
            Err(e) => Err(e),
        },
        None => Ok(None),
    }
}

/// The last activity of a device, where it has one.
pub fn load_latest_activity_for_device<E>(row: Option<FetchedActivity<E>>) -> (r: Result<
    Option<ActivityEvent>,
    RowError<E>,
>)
    ensures
        row is None ==> r == Ok::<Option<ActivityEvent>, RowError<E>>(None),
        row is Some ==> match rows::decoded_activity(row->0@) {
            Ok(event) => r is Ok && r->Ok_0 is Some && r->Ok_0->0@ == event,
            Err(e) => r == Err::<Option<ActivityEvent>, RowError<E>>(e),
        },
{
    match row {
        Some(f) => match rows::activity_from_row(f) {
            Ok(event) => Ok(Some(event)),
            Err(e) => Err(e),
        },
        None => Ok(None),
    }
}

/// The recent activities of a device, in the order of the rows.
pub fn load_recent_activities_for_device<E>(list: Vec<FetchedActivity<E>>) -> (r: Result<
    Vec<ActivityEvent>,
    RowError<E>,
>)
    ensures
        events_result(r) == decoded_activities(fetched(list@)),
{
    decode_activities(list)
}

/// All activities of a device, in the order of the rows.
pub fn load_all_activities_for_device<E>(list: Vec<FetchedActivity<E>>) -> (r: Result<
    Vec<ActivityEvent>,
    RowError<E>,
>)
    ensures
        events_result(r) == decoded_activities(fetched(list@)),
{
    decode_activities(list)
}

/// What the dashboard shows, from the rows of the recent activities, of the
/// last activity of each device, and of the last status. The first fault, in
/// that order, is the answer where there is one.
pub open spec fn snapshot<E>(
    recent: Seq<FetchedActivityView<E>>,
    devices: Seq<FetchedActivityView<E>>,
    status: Option<StatusRow>,
) -> Result<DashboardSnapshotView, RowError<E>> {
    match (
        decoded_activities(recent),
        decoded_activities(devices),
        decoded_opt_status::<E>(status),
    ) {
        (Err(e), _, _) => Err(e),
        (Ok(_), Err(e), _) => Err(e),
        (Ok(_), Ok(_), Err(e)) => Err(e),
        (Ok(recent_activities), Ok(devices), Ok(latest_status)) => Ok(
            DashboardSnapshotView { devices, latest_status, recent_activities },
        ),
    }
}

/// What the dashboard shows.
pub fn load_snapshot<E>(
    recent: Vec<FetchedActivity<E>>,
    devices: Vec<FetchedActivity<E>>,
    status: Option<StatusRow>,
) -> (r: Result<DashboardSnapshot, RowError<E>>)
    ensures
        (match r {
            Ok(s) => Ok::<_, RowError<E>>(s@),
            Err(e) => Err(e),
        }) == snapshot(fetched(recent@), fetched(devices@), status),
{
    let recent_activities = match decode_activities(recent) {
        Ok(list) => list,
        Err(e) => return Err(e),
    };
    let devices = match decode_activities(devices) {
        Ok(list) => list,
        Err(e) => return Err(e),
    };
    let latest_status = match load_device_status::<E>(status) {
        Ok(status) => status,
        Err(e) => return Err(e),
    };
    Ok(DashboardSnapshot { devices, latest_status, recent_activities })
}

/// A row that a search found.
#[derive(Debug)]
pub struct FetchedHit<E> {
    pub activity: FetchedActivity<E>,
    pub snippet: String,
    /// The rank of the match, as the bits of a number in single precision.
    pub score_bits: u32,
}

pub struct FetchedHitView<E> {
    pub activity: FetchedActivityView<E>,
    pub snippet: Seq<char>,
    pub score_bits: u32,
}

impl<E> View for FetchedHit<E> {
    type V = FetchedHitView<E>;

    open spec fn view(&self) -> FetchedHitView<E> {
        FetchedHitView {
            activity: self.activity@,
            snippet: self.snippet@,
            score_bits: self.score_bits,
        }
    }
}

/// The views of rows that a search found.
pub open spec fn fetched_hits<E>(list: Seq<FetchedHit<E>>) -> Seq<FetchedHitView<E>> {
    Seq::new(list.len(), |i: int| list[i]@)
}

/// The hit in a row that a search found, or the fault of the row.
pub open spec fn decoded_hit<E>(hit: FetchedHitView<E>) -> Result<
    ActivitySearchHitView,
    RowError<E>,
> {
    match rows::decoded_activity(hit.activity) {
        Ok(activity) => Ok(
            ActivitySearchHitView { activity, snippet: hit.snippet, score_bits: hit.score_bits },
        ),
        Err(e) => Err(e),
    }
}

/// What comes of each row.
pub open spec fn hit_results<E>(list: Seq<FetchedHitView<E>>) -> Seq<
    Result<ActivitySearchHitView, RowError<E>>,
> {
    Seq::new(list.len(), |i: int| decoded_hit(list[i]))
}

/// The activities that a search found, with snippet and rank, in the order of
/// the rows, or the first fault.
pub open spec fn decoded_hits<E>(list: Seq<FetchedHitView<E>>) -> Result<
    Seq<ActivitySearchHitView>,
    RowError<E>,
> {
    collected(hit_results(list))
}

/// The activities that a search found, with snippet and rank.
pub fn search_activities<E>(list: Vec<FetchedHit<E>>) -> (r: Result<
    Vec<ActivitySearchHit>,
    RowError<E>,
>)
    ensures
        (match r {
            Ok(hits) => Ok::<_, RowError<E>>(model::hits(hits@)),
            Err(e) => Err(e),
        }) == decoded_hits(fetched_hits(list@)),
{
    let ghost results = hit_results(fetched_hits(list@));
    let mut out: Vec<ActivitySearchHit> = Vec::new();
    assert(model::hits(out@) =~= Seq::empty());
    assert(results.take(0) =~= Seq::empty());
    for hit in it: list
        invariant
            it.seq() == list@,
            results == hit_results(fetched_hits(list@)),
            collected(results.take(it.index() as int)) == Ok::<
                Seq<ActivitySearchHitView>,
                RowError<E>,
            >(model::hits(out@)),
    {
        let ghost before = model::hits(out@);
        proof {
            lemma_collect_next(results, it.index() as int);
        }
        match rows::activity_from_row(hit.activity) {
            Ok(activity) => {
                let found = ActivitySearchHit {
                    activity,
                    snippet: hit.snippet,
                    score_bits: hit.score_bits,
                };
                let ghost view = found@;
                out.push(found);
                assert(model::hits(out@) =~= before.push(view));
            },
            Err(e) => return Err(e),
        }
    }
    assert(results.take(results.len() as int) =~= results);
    Ok(out)
}

// ---------------------------------------------------------------------------
// Laws
// ---------------------------------------------------------------------------
/// Results are collected all or not at all: there is one value for each, in
/// order, exactly where none is a fault, and the fault is that of the first
/// result that is one.
pub proof fn law_all_or_first_fault<V, E>(results: Seq<Result<V, E>>)
    ensures
        match collected(results) {
            Ok(values) => values.len() == results.len() && forall|i: int|
                0 <= i < results.len() ==> #[trigger] results[i] == Ok::<V, E>(values[i]),
            Err(e) => exists|n: int|
                0 <= n < results.len() && #[trigger] results[n] == Err::<V, E>(e) && forall|i: int|
                    0 <= i < n ==> #[trigger] results[i] is Ok,
        },
    decreases results.len(),
{
    if results.len() > 0 {
        let front = results.drop_last();
        let n = results.len() - 1;
        law_all_or_first_fault(front);
        assert(results[n] == results.last());
        match collected(front) {
            Err(e) => {
                let k = choose|k: int|
                    0 <= k < front.len() && #[trigger] front[k] == Err::<V, E>(e) && forall|i: int|
                        0 <= i < k ==> #[trigger] front[i] is Ok;
                assert(results[k] == front[k]);
                assert forall|i: int| 0 <= i < k implies #[trigger] results[i] is Ok by {
                    assert(front[i] == results[i]);
                }
            },
            Ok(values) => {
                assert forall|i: int| 0 <= i < n implies #[trigger] results[i] == Ok::<V, E>(
                    values[i],
                ) by {
                    assert(front[i] == results[i]);
                }
            },
        }
    }
}

/// Rows are read all or not at all: where the reading succeeds there is one
/// activity for each row, in the order of the rows, and it succeeds exactly
/// where every row can be read.
pub proof fn law_rows_are_read_in_order<E>(list: Seq<FetchedActivityView<E>>)
    ensures
        decoded_activities(list) is Ok <==> forall|i: int|
            0 <= i < list.len() ==> rows::decoded_activity(#[trigger] list[i]) is Ok,
        decoded_activities(list) matches Ok(events) ==> events.len() == list.len() && forall|i: int|
            0 <= i < list.len() ==> rows::decoded_activity(list[i]) == Ok::<
                ActivityEventView,
                RowError<E>,
            >(#[trigger] events[i]),
{
    let results = activity_results(list);
    law_all_or_first_fault(results);
    assert forall|i: int| 0 <= i < list.len() implies rows::decoded_activity(#[trigger] list[i])
        == results[i] by {}
    if decoded_activities(list) is Ok {
        let events = decoded_activities(list)->Ok_0;
        assert forall|i: int| 0 <= i < list.len() implies rows::decoded_activity(list[i]) == Ok::<
            ActivityEventView,
            RowError<E>,
        >(#[trigger] events[i]) by {
            assert(results[i] == rows::decoded_activity(list[i]));
        }
    }
}

/// Statuses are read all or not at all, one for each row, in the order of the
/// rows, and each is that of the device of its own row.
pub proof fn law_statuses_are_read_in_order<E>(list: Seq<StatusRowView>)
    ensures
        decoded_statuses::<E>(list) is Ok <==> forall|i: int|
            0 <= i < list.len() ==> rows::decoded_status::<E>(#[trigger] list[i]) is Ok,
        decoded_statuses::<E>(list) matches Ok(statuses) ==> statuses.len() == list.len() && forall|
            i: int,
        |
            0 <= i < list.len() ==> rows::decoded_status::<E>(list[i]) == Ok::<
                DeviceStatusView,
                RowError<E>,
            >(#[trigger] statuses[i]) && statuses[i].device_id == list[i].device_id,
{
    let results = status_results::<E>(list);
    law_all_or_first_fault(results);
    assert forall|i: int| 0 <= i < list.len() implies rows::decoded_status::<E>(#[trigger] list[i])
        == results[i] by {}
    if decoded_statuses::<E>(list) is Ok {
        let statuses = decoded_statuses::<E>(list)->Ok_0;
        assert forall|i: int| 0 <= i < list.len() implies rows::decoded_status::<E>(list[i]) == Ok::<
            DeviceStatusView,
            RowError<E>,
        >(#[trigger] statuses[i]) by {
            assert(results[i] == rows::decoded_status::<E>(list[i]));
        }
    }
}

/// Hits are read all or not at all, one for each row, in the order of the rows,
/// and each has the identifier, the device, the snippet and the rank of its own
/// row.
pub proof fn law_hits_are_read_in_order<E>(list: Seq<FetchedHitView<E>>)
    ensures
        decoded_hits(list) is Ok <==> forall|i: int|
            0 <= i < list.len() ==> rows::decoded_activity((#[trigger] list[i]).activity) is Ok,
        decoded_hits(list) matches Ok(hits) ==> hits.len() == list.len() && forall|i: int|
            0 <= i < list.len() ==> {
                &&& rows::decoded_activity(list[i].activity) == Ok::<
                    ActivityEventView,
                    RowError<E>,
                >((#[trigger] hits[i]).activity)
                &&& hits[i].activity.event_id == list[i].activity.row.event_id
                &&& hits[i].activity.device_id == list[i].activity.row.device_id
                &&& hits[i].snippet == list[i].snippet
                &&& hits[i].score_bits == list[i].score_bits
            },
{
    let results = hit_results(list);
    law_all_or_first_fault(results);
    assert forall|i: int| 0 <= i < list.len() implies decoded_hit(#[trigger] list[i])
        == results[i] by {}
    if decoded_hits(list) is Ok {
        let hits = decoded_hits(list)->Ok_0;
        assert forall|i: int| 0 <= i < list.len() implies decoded_hit(list[i]) == Ok::<
            ActivitySearchHitView,
            RowError<E>,
        >(#[trigger] hits[i]) by {
            assert(results[i] == decoded_hit(list[i]));
        }
    }
}

/// The status in an optional row: that of the row where there is one and it can be
/// read, its fault where it cannot, and none where there is no row.
pub proof fn law_status_of_an_optional_row<E>(row: StatusRow)
    ensures
        decoded_opt_status::<E>(None) == Ok::<Option<DeviceStatusView>, RowError<E>>(None),
        rows::decoded_status::<E>(row@) matches Ok(status) ==> decoded_opt_status::<E>(Some(row))
            == Ok::<Option<DeviceStatusView>, RowError<E>>(Some(status)),
        rows::decoded_status::<E>(row@) matches Err(e) ==> decoded_opt_status::<E>(Some(row))
            == Err::<Option<DeviceStatusView>, RowError<E>>(e),
{
}

/// A snapshot shows what its rows hold, in their order and in full: each activity
/// is the one that its own row is read as, the status is the one of its row, and
/// there is one exactly where there is a row. It shows no sample among the recent
/// activities unless a row holds one.
pub proof fn law_snapshot_follows_its_rows<E>(
    recent: Seq<FetchedActivityView<E>>,
    devices: Seq<FetchedActivityView<E>>,
    status: Option<StatusRow>,
)
    ensures
        snapshot(recent, devices, status) matches Ok(s) ==> {
            &&& activities_are_of(s.recent_activities, recent)
            &&& activities_are_of(s.devices, devices)
            &&& s.recent_activities.len() == recent.len()
            &&& forall|i: int|
                0 <= i < recent.len() ==> rows::decoded_activity(recent[i]) == Ok::<
                    ActivityEventView,
                    RowError<E>,
                >(#[trigger] s.recent_activities[i])
            &&& s.devices.len() == devices.len()
            &&& forall|i: int|
                0 <= i < devices.len() ==> rows::decoded_activity(devices[i]) == Ok::<
                    ActivityEventView,
                    RowError<E>,
                >(#[trigger] s.devices[i])
            &&& s.latest_status is None <==> status is None
            &&& status is Some ==> rows::decoded_status::<E>(status->0@) == Ok::<
                DeviceStatusView,
                RowError<E>,
            >(s.latest_status->0)
            &&& (forall|i: int|
                0 <= i < recent.len() ==> (#[trigger] recent[i]).row.kind != "activity_sample"@)
                ==> forall|i: int|
                0 <= i < s.recent_activities.len() ==> !((#[trigger] s.recent_activities[i]).kind
                    is ActivitySample)
        },
{
    if snapshot(recent, devices, status) is Ok {
        let s = snapshot(recent, devices, status)->Ok_0;
        law_rows_are_read_in_order(recent);
        law_rows_are_read_in_order(devices);
        lemma_activities_are_of(recent);
        lemma_activities_are_of(devices);
        assert forall|i: int|
            0 <= i < s.recent_activities.len() && recent[i].row.kind
                != "activity_sample"@ implies !((#[trigger] s.recent_activities[i]).kind
            is ActivitySample) by {
            rows::law_activity_is_of_its_row(recent[i]);
        }
    }
}

/// There is one activity for each row, with the identifier and the device of
/// that row.
pub open spec fn activities_are_of<E>(
    events: Seq<ActivityEventView>,
    list: Seq<FetchedActivityView<E>>,
) -> bool {
    events.len() == list.len() && forall|i: int|
        0 <= i < events.len() ==> {
            &&& (#[trigger] events[i]).event_id == list[i].row.event_id
            &&& events[i].device_id == list[i].row.device_id
        }
}

proof fn lemma_activities_are_of<E>(list: Seq<FetchedActivityView<E>>)
    requires
        decoded_activities(list) is Ok,
    ensures
        activities_are_of(decoded_activities(list)->Ok_0, list),
{
    law_rows_are_read_in_order(list);
    let events = decoded_activities(list)->Ok_0;
    assert forall|i: int| 0 <= i < events.len() implies {
        &&& (#[trigger] events[i]).event_id == list[i].row.event_id
        &&& events[i].device_id == list[i].row.device_id
    } by {
        rows::law_activity_is_of_its_row(list[i]);
    }
}

/// There is a snapshot exactly where every row of it can be read; where one
/// cannot, the fault of the recent activities goes before that of the devices, and
/// that before the one of the status.
pub proof fn law_snapshot_needs_every_row<E>(
    recent: Seq<FetchedActivityView<E>>,
    devices: Seq<FetchedActivityView<E>>,
    status: Option<StatusRow>,
)
    ensures
        snapshot(recent, devices, status) is Ok <==> {
            &&& forall|i: int|
                0 <= i < recent.len() ==> rows::decoded_activity(#[trigger] recent[i]) is Ok
            &&& forall|i: int|
                0 <= i < devices.len() ==> rows::decoded_activity(#[trigger] devices[i]) is Ok
            &&& status is Some ==> rows::decoded_status::<E>(status->0@) is Ok
        },
        decoded_activities(recent) matches Err(e) ==> snapshot(recent, devices, status) == Err::<
            DashboardSnapshotView,
            RowError<E>,
        >(e),
        decoded_activities(recent) is Ok ==> (decoded_activities(devices) matches Err(e)
            ==> snapshot(recent, devices, status) == Err::<DashboardSnapshotView, RowError<E>>(e)),
        decoded_activities(recent) is Ok && decoded_activities(devices) is Ok ==> (
        decoded_opt_status::<E>(status) matches Err(e) ==> snapshot(recent, devices, status)
            == Err::<DashboardSnapshotView, RowError<E>>(e)),
{
    law_rows_are_read_in_order(recent);
    law_rows_are_read_in_order(devices);
}

/// The fault of a list of rows is that of the first row that cannot be read.
pub proof fn law_first_row_at_fault<E>(list: Seq<FetchedActivityView<E>>, n: int)
    requires
        0 <= n < list.len(),
        rows::decoded_activity(list[n]) is Err,
        forall|i: int| 0 <= i < n ==> rows::decoded_activity(#[trigger] list[i]) is Ok,
    ensures
        decoded_activities(list) == Err::<Seq<ActivityEventView>, RowError<E>>(
            rows::decoded_activity(list[n])->Err_0,
        ),
{
    let results = activity_results(list);
    law_all_or_first_fault(results);
    assert(results[n] == rows::decoded_activity(list[n]));
    match collected(results) {
        Ok(values) => {
            assert(results[n] == Ok::<ActivityEventView, RowError<E>>(values[n]));
        },
        Err(e) => {
            let k = choose|k: int|
                0 <= k < results.len() && #[trigger] results[k] == Err::<
                    ActivityEventView,
                    RowError<E>,
                >(e) && forall|i: int| 0 <= i < k ==> #[trigger] results[i] is Ok;
            if k < n {
                assert(results[k] == rows::decoded_activity(list[k]));
            }
            if n < k {
                assert(results[n] is Ok);
            }
        },
    }
}

/// Nothing of fetched rows, or of what came of them, is left out of what the
/// contracts say of them, and their order is kept.
pub proof fn law_views_of_fetched_rows<E>(
    list: Seq<FetchedActivity<E>>,
    reported: Seq<StatusRow>,
    found: Seq<FetchedHit<E>>,
    read: Result<Vec<ActivityEvent>, RowError<E>>,
    statuses: Result<Vec<DeviceStatus>, RowError<E>>,
)
    ensures
        fetched(list).len() == list.len(),
        forall|i: int| 0 <= i < list.len() ==> #[trigger] fetched(list)[i] == list[i]@,
        status_rows(reported).len() == reported.len(),
        forall|i: int| 0 <= i < reported.len() ==> #[trigger] status_rows(reported)[i] == reported[i]@,
        fetched_hits(found).len() == found.len(),
        forall|i: int|
            0 <= i < found.len() ==> {
                &&& (#[trigger] fetched_hits(found)[i]).activity == found[i].activity@
                &&& fetched_hits(found)[i].snippet == found[i].snippet@
                &&& fetched_hits(found)[i].score_bits == found[i].score_bits
            },
        read matches Ok(v) ==> events_result(read) == Ok::<Seq<ActivityEventView>, RowError<E>>(
            Seq::new(v@.len(), |i: int| v@[i]@),
        ),
        read matches Err(e) ==> events_result(read) == Err::<Seq<ActivityEventView>, RowError<E>>(e),
        statuses matches Ok(v) ==> statuses_result(statuses) == Ok::<
            Seq<DeviceStatusView>,
            RowError<E>,
        >(Seq::new(v@.len(), |i: int| v@[i]@)),
        statuses matches Err(e) ==> statuses_result(statuses) == Err::<
            Seq<DeviceStatusView>,
            RowError<E>,
        >(e),
{
    if read is Ok {
        assert(model::events(read->Ok_0@) =~= Seq::new(
            read->Ok_0@.len(),
            |i: int| read->Ok_0@[i]@,
        ));
    }
    if statuses is Ok {
        assert(model::statuses(statuses->Ok_0@) =~= Seq::new(
            statuses->Ok_0@.len(),
            |i: int| statuses->Ok_0@[i]@,
        ));
    }
}

} // verus!
