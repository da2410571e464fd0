//! The words that stand for platforms, kinds and presence in the store.

use crate::model::{ActivityKind, Platform, PresenceState};
use crate::text;
use vstd::prelude::*;

verus! {

pub open spec fn platform_label(platform: Platform) -> Seq<char> {
    match platform {
        Platform::Macos => "macos"@,
        Platform::Windows => "windows"@,
        Platform::Linux => "linux"@,
        Platform::Android => "android"@,
        Platform::Unknown => "unknown"@,
    }
}

/// The platform that a word stands for; an unknown one for any other word.
pub open spec fn labelled_platform(value: Seq<char>) -> Platform {
    if value == "macos"@ {
        Platform::Macos
    } else if value == "windows"@ {
        Platform::Windows
    } else if value == "linux"@ {
        Platform::Linux
    } else if value == "android"@ {
        Platform::Android
    } else {
        Platform::Unknown
    }
}

pub fn platform_to_str(platform: &Platform) -> (r: &'static str)
    ensures
        r@ == platform_label(*platform),
{
    match platform {
        Platform::Macos => "macos",
        Platform::Windows => "windows",
        Platform::Linux => "linux",
        Platform::Android => "android",
        Platform::Unknown => "unknown",
    }
}

pub fn platform_from_str(value: &str) -> (r: Platform)
    ensures
        r == labelled_platform(value@),
{
    if text::same_text(value, "macos") {
        Platform::Macos
    } else if text::same_text(value, "windows") {
        Platform::Windows
    } else if text::same_text(value, "linux") {
        Platform::Linux
    } else if text::same_text(value, "android") {
        Platform::Android
    } else {
        Platform::Unknown
    }
}

pub open spec fn kind_label(kind: ActivityKind) -> Seq<char> {
    match kind {
        ActivityKind::ForegroundChanged => "foreground_changed"@,
        ActivityKind::ActivitySample => "activity_sample"@,
        ActivityKind::PresenceChanged => "presence_changed"@,
    }
}

/// The kind that a word stands for; a change of the foreground for any other
/// word.
pub open spec fn labelled_kind(value: Seq<char>) -> ActivityKind {
    if value == "activity_sample"@ {
        ActivityKind::ActivitySample
    } else if value == "presence_changed"@ {
        ActivityKind::PresenceChanged
    } else {
        ActivityKind::ForegroundChanged
    }
}

pub fn kind_to_str(kind: &ActivityKind) -> (r: &'static str)
    ensures
        r@ == kind_label(*kind),
{
    match kind {
        ActivityKind::ForegroundChanged => "foreground_changed",
        ActivityKind::ActivitySample => "activity_sample",
        ActivityKind::PresenceChanged => "presence_changed",
    }
}

pub fn kind_from_str(value: &str) -> (r: ActivityKind)
    ensures
        r == labelled_kind(value@),
{
    if text::same_text(value, "activity_sample") {
        ActivityKind::ActivitySample
    } else if text::same_text(value, "presence_changed") {
        ActivityKind::PresenceChanged
    } else {
        ActivityKind::ForegroundChanged
    }
}

pub open spec fn presence_label(value: PresenceState) -> Seq<char> {
    match value {
        PresenceState::Active => "active"@,
        PresenceState::Idle => "idle"@,
        PresenceState::Locked => "locked"@,
    }
}

/// The presence that a word stands for; an active user for any other word.
pub open spec fn labelled_presence(value: Seq<char>) -> PresenceState {
    if value == "idle"@ {
        PresenceState::Idle
    } else if value == "locked"@ {
        PresenceState::Locked
    } else {
        PresenceState::Active
    }
}

pub fn presence_to_str(value: PresenceState) -> (r: &'static str)
    ensures
        r@ == presence_label(value),
{
    match value {
        PresenceState::Active => "active",
        PresenceState::Idle => "idle",
        PresenceState::Locked => "locked",
    }
}

pub fn presence_from_str(value: &str) -> (r: PresenceState)
    ensures
        r == labelled_presence(value@),
{
    if text::same_text(value, "idle") {
        PresenceState::Idle
    } else if text::same_text(value, "locked") {
        PresenceState::Locked
    } else {
        PresenceState::Active
    }
}

// ---------------------------------------------------------------------------
// Laws
// ---------------------------------------------------------------------------
/// The word for a platform stands for that platform.
pub proof fn law_platform_word_reads_back(platform: Platform)
    ensures
        labelled_platform(platform_label(platform)) == platform,
{
    reveal_strlit("macos");
    reveal_strlit("windows");
    reveal_strlit("linux");
    reveal_strlit("android");
    reveal_strlit("unknown");
    assert("macos"@[0] == 'm' && "linux"@[0] == 'l');
    assert("windows"@[0] == 'w' && "android"@[0] == 'a' && "unknown"@[0] == 'u');
}

/// The word for a kind stands for that kind.
pub proof fn law_kind_word_reads_back(kind: ActivityKind)
    ensures
        labelled_kind(kind_label(kind)) == kind,
{
    reveal_strlit("foreground_changed");
    reveal_strlit("activity_sample");
    reveal_strlit("presence_changed");
    assert("foreground_changed"@[0] == 'f' && "activity_sample"@[0] == 'a');
    assert("presence_changed"@[0] == 'p');
}

/// The word for a presence stands for that presence.
pub proof fn law_presence_word_reads_back(value: PresenceState)
    ensures
        labelled_presence(presence_label(value)) == value,
{
    reveal_strlit("active");
    reveal_strlit("idle");
    reveal_strlit("locked");
    assert("active"@[0] == 'a' && "locked"@[0] == 'l');
}

/// Only the word of a platform, a kind or a presence stands for it, but that every
/// unknown word stands for the unknown platform, a change of the foreground, and
/// an active user.
pub proof fn law_words_stand_for_one_thing(w: Seq<char>)
    ensures
        labelled_platform(w) is Macos <==> w == "macos"@,
        labelled_platform(w) is Windows <==> w == "windows"@,
        labelled_platform(w) is Linux <==> w == "linux"@,
        labelled_platform(w) is Android <==> w == "android"@,
        labelled_kind(w) is ActivitySample <==> w == "activity_sample"@,
        labelled_kind(w) is PresenceChanged <==> w == "presence_changed"@,
        labelled_presence(w) is Idle <==> w == "idle"@,
        labelled_presence(w) is Locked <==> w == "locked"@,
{
    law_platform_word_reads_back(Platform::Windows);
    law_platform_word_reads_back(Platform::Linux);
    law_platform_word_reads_back(Platform::Android);
    law_kind_word_reads_back(ActivityKind::PresenceChanged);
    law_presence_word_reads_back(PresenceState::Locked);
}

/// The words of the store.
pub proof fn law_words_of_the_store()
    ensures
        platform_label(Platform::Macos) == "macos"@,
        platform_label(Platform::Windows) == "windows"@,
        platform_label(Platform::Linux) == "linux"@,
        platform_label(Platform::Android) == "android"@,
        platform_label(Platform::Unknown) == "unknown"@,
        kind_label(ActivityKind::ForegroundChanged) == "foreground_changed"@,
        kind_label(ActivityKind::ActivitySample) == "activity_sample"@,
        kind_label(ActivityKind::PresenceChanged) == "presence_changed"@,
        presence_label(PresenceState::Active) == "active"@,
        presence_label(PresenceState::Idle) == "idle"@,
        presence_label(PresenceState::Locked) == "locked"@,
{
}

} // verus!
