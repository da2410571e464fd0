//! Handing a captured event to a bounded channel: how often a full channel is
//! tried again, and when the event is dropped.

use vstd::prelude::*;

verus! {

/// How long to wait for a full channel, in milliseconds.
pub const CHANNEL_BACKPRESSURE_RETRY_MS: u64 = 200;

/// How often an event is offered before it is dropped.
pub const CHANNEL_BACKPRESSURE_MAX_RETRIES: u32 = 15;

/// What the channel did with an offered event.
#[derive(Clone, Copy, PartialEq, Eq, Structural, Debug)]
pub enum SendOutcome {
    Sent,
    Full,
    Closed,
}

impl SendOutcome {
    /// How long to wait behind this outcome, in milliseconds: behind every
    /// "full", also the last one, and behind no other.
    pub fn pause_ms(self) -> (ms: u64)
        ensures
            ms == if self == SendOutcome::Full {
                CHANNEL_BACKPRESSURE_RETRY_MS
            } else {
                0
            },
    {
        match self {
            SendOutcome::Full => CHANNEL_BACKPRESSURE_RETRY_MS,
            SendOutcome::Sent => 0,
            SendOutcome::Closed => 0,
        }
    }
}

/// Where the delivery of one event stands.
#[derive(Clone, Copy, PartialEq, Eq, Structural, Debug)]
pub enum Delivery {
    /// The event is to be offered; `left` offers remain, this one among them.
    Offering { left: u32 },
    /// The channel took the event.
    Delivered,
    /// The channel is closed, and the event dropped.
    DroppedClosed,
    /// The channel stayed full, and the event is dropped.
    DroppedFull,
}

/// The delivery of an event that is to be offered at most `max` times.
pub open spec fn started(max: int) -> Delivery {
    if max > 0 {
        Delivery::Offering { left: max as u32 }
    } else {
        Delivery::DroppedFull
    }
}

/// A delivery behind one more outcome. A finished one stays as it is.
pub open spec fn advanced(d: Delivery, outcome: SendOutcome) -> Delivery {
    match d {
        Delivery::Offering { left } => match outcome {
            SendOutcome::Sent => Delivery::Delivered,
            SendOutcome::Full => started(left - 1),
            SendOutcome::Closed => Delivery::DroppedClosed,
        },
        _ => d,
    }
}

/// The delivery of an event that is to be offered at most `max_retries` times.
pub fn send_activity(max_retries: u32) -> (d: Delivery)
    ensures
        d == started(max_retries as int),
{
    if max_retries > 0 {
        Delivery::Offering { left: max_retries }
    } else {
        Delivery::DroppedFull
    }
}

impl Delivery {
    /// The delivery behind one more outcome.
    pub fn after(self, outcome: SendOutcome) -> (d: Delivery)
        ensures
            d == advanced(self, outcome),
    {
        match self {
            Delivery::Offering { left } => match outcome {
                SendOutcome::Sent => Delivery::Delivered,
                SendOutcome::Full => send_activity(left.saturating_sub(1)),
                SendOutcome::Closed => Delivery::DroppedClosed,
            },
            other => other,
        }
    }

    /// What the sender is told: whether the event was delivered. Nothing while
    /// the event is still to be offered.
    pub fn result(self) -> (r: Option<bool>)
        ensures
            r == match self {
                Delivery::Offering { .. } => None,
                Delivery::Delivered => Some(true),
                Delivery::DroppedClosed | Delivery::DroppedFull => Some(false),
            },
    {
        match self {
            Delivery::Offering { .. } => None,
            Delivery::Delivered => Some(true),
            Delivery::DroppedClosed => Some(false),
            Delivery::DroppedFull => Some(false),
        }
    }
}

// ---------------------------------------------------------------------------
// Laws
// ---------------------------------------------------------------------------
/// The delivery behind a row of outcomes.
pub open spec fn replayed(d: Delivery, outcomes: Seq<SendOutcome>) -> Delivery
    decreases outcomes.len(),
{
    if outcomes.len() == 0 {
        d
    } else {
        replayed(advanced(d, outcomes[0]), outcomes.drop_first())
    }
}

/// The first `n` outcomes are all "full".
pub open spec fn full_up_to(outcomes: Seq<SendOutcome>, n: int) -> bool {
    forall|i: int| 0 <= i < n ==> #[trigger] outcomes[i] == SendOutcome::Full
}

/// A finished delivery stays as it is, whatever comes.
pub proof fn law_finished_stays(d: Delivery, outcomes: Seq<SendOutcome>)
    requires
        !(d is Offering),
    ensures
        replayed(d, outcomes) == d,
    decreases outcomes.len(),
{
    if outcomes.len() > 0 {
        law_finished_stays(d, outcomes.drop_first());
    }
}

/// An event whose channel stays full is dropped behind exactly `max` offers,
/// and is still on offer before.
pub proof fn law_full_channel_drops(max: u32, outcomes: Seq<SendOutcome>)
    requires
        full_up_to(outcomes, outcomes.len() as int),
    ensures
        replayed(started(max as int), outcomes) == started(max - outcomes.len()),
    decreases outcomes.len(),
{
    if outcomes.len() > 0 {
        let rest = outcomes.drop_first();
        assert(outcomes[0] == SendOutcome::Full);
        assert forall|i: int| 0 <= i < rest.len() implies #[trigger] rest[i]
            == SendOutcome::Full by {
            assert(rest[i] == outcomes[i + 1]);
        }
        if max > 0 {
            law_full_channel_drops((max - 1) as u32, rest);
        } else {
            law_finished_stays(started(0), outcomes);
        }
    }
}

/// The first outcome other than "full" decides, if it comes within the first
/// `max` offers: the event is delivered where it was sent, and dropped where the
/// channel was closed.
pub proof fn law_first_answer_decides(max: u32, outcomes: Seq<SendOutcome>, n: int)
    requires
        0 <= n < outcomes.len(),
        n < max,
        full_up_to(outcomes, n),
        outcomes[n] != SendOutcome::Full,
    ensures
        replayed(started(max as int), outcomes) == if outcomes[n] == SendOutcome::Sent {
            Delivery::Delivered
        } else {
            Delivery::DroppedClosed
        },
    decreases outcomes.len(),
{
    let rest = outcomes.drop_first();
    if n == 0 {
        law_finished_stays(advanced(started(max as int), outcomes[0]), rest);
    } else {
        assert(outcomes[0] == SendOutcome::Full);
        assert forall|i: int| 0 <= i < n - 1 implies #[trigger] rest[i] == SendOutcome::Full by {
            assert(rest[i] == outcomes[i + 1]);
        }
        assert(rest[n - 1] == outcomes[n]);
        law_first_answer_decides((max - 1) as u32, rest, n - 1);
    }
}

/// An event is on offer until its channel was full as often as it may be, and not
/// longer.
pub proof fn law_offers_are_counted(max: u32, outcomes: Seq<SendOutcome>)
    requires
        full_up_to(outcomes, outcomes.len() as int),
    ensures
        outcomes.len() < max ==> replayed(started(max as int), outcomes) == (Delivery::Offering {
            left: (max - outcomes.len()) as u32,
        }),
        outcomes.len() >= max ==> replayed(started(max as int), outcomes) == Delivery::DroppedFull,
{
    law_full_channel_drops(max, outcomes);
}

/// One outcome decides an event that is on offer, unless the channel was full.
pub proof fn law_one_outcome(left: u32)
    requires
        left > 0,
    ensures
        advanced(Delivery::Offering { left }, SendOutcome::Sent) == Delivery::Delivered,
        advanced(Delivery::Offering { left }, SendOutcome::Closed) == Delivery::DroppedClosed,
        left > 1 ==> advanced(Delivery::Offering { left }, SendOutcome::Full)
            == (Delivery::Offering { left: (left - 1) as u32 }),
        left == 1 ==> advanced(Delivery::Offering { left }, SendOutcome::Full)
            == Delivery::DroppedFull,
{
}

} // verus!
