//! How long the user has been away: reading the answers of the platform's
//! idle counters, and the threshold from which a session counts as idle.

use crate::text;
use vstd::prelude::*;

verus! {

/// The idle time, in seconds, from which a session counts as idle unless
/// another one is configured.
pub const DEFAULT_IDLE_TIMEOUT_SECS: u64 = 180;

/// Whether a session that has been idle for `idle_secs` counts as idle.
pub fn is_idle(idle_secs: u64, timeout_secs: u64) -> (b: bool)
    ensures
        b == (idle_secs >= timeout_secs),
{
    idle_secs >= timeout_secs
}

// ---------------------------------------------------------------------------
// Windows
// ---------------------------------------------------------------------------
/// Whole seconds between two readings of a millisecond counter of 32 bits,
/// which starts over at zero behind its last value.
pub open spec fn tick_seconds(last_input: u32, current_tick: u32) -> int {
    ((current_tick - last_input) % 0x1_0000_0000) / 1000
}

/// Idle seconds by the Windows tick counter. `last_input` is the tick of the
/// last input, or nothing where the system did not tell it.
pub fn windows_idle_seconds(last_input: Option<u32>, current_tick: u32) -> (secs: u64)
    ensures
        secs == match last_input {
            Some(tick) => tick_seconds(tick, current_tick),
            None => 0,
        },
        last_input matches Some(tick) ==> secs * 1000 <= (current_tick - tick) % 0x1_0000_0000 < (
        secs + 1) * 1000,
{
    match last_input {
        None => 0,
        Some(tick) => {
            let idle_ms: u32 = if current_tick >= tick {
                current_tick - tick
            } else {
                (u32::MAX - tick) + current_tick + 1
            };
            (idle_ms / 1000) as u64
        },
    }
}

// ---------------------------------------------------------------------------
// Linux and the other desktops
// ---------------------------------------------------------------------------
/// What `String::from_utf8_lossy` makes of bytes.
pub uninterp spec fn utf8_lossy(bytes: Seq<u8>) -> Seq<char>;

/// The text that bytes stand for: their UTF-8 decoding where they have one.
pub open spec fn lossy_text(bytes: Seq<u8>) -> Seq<char> {
    if vstd::utf8::valid_utf8(bytes) {
        vstd::utf8::decode_utf8(bytes)
    } else {
        utf8_lossy(bytes)
    }
}

/// `String::from_utf8_lossy` depends on its bytes alone, and gives the text
/// that valid UTF-8 encodes. What stands in the place of invalid bytes is left
/// unsaid.
#[verifier::external_body]
fn from_utf8_lossy(bytes: &[u8]) -> (r: String)
    ensures
        r@ == utf8_lossy(bytes@),
        vstd::utf8::valid_utf8(bytes@) ==> r@ == vstd::utf8::decode_utf8(bytes@),
{
    String::from_utf8_lossy(bytes).into_owned()
}

/// The desktop session, by the display variables of the environment.
#[derive(Clone, Copy, PartialEq, Eq, Structural, Debug)]
pub enum LinuxDesktopSession {
    Wayland,
    X11,
    Unknown,
}

/// The session that the environment tells of: Wayland where
/// `WAYLAND_DISPLAY` is set, X11 where only `DISPLAY` is.
pub fn desktop_session(wayland_display_set: bool, display_set: bool) -> (s: LinuxDesktopSession)
    ensures
        s == if wayland_display_set {
            LinuxDesktopSession::Wayland
        } else if display_set {
            LinuxDesktopSession::X11
        } else {
            LinuxDesktopSession::Unknown
        },
{
    if wayland_display_set {
        LinuxDesktopSession::Wayland
    } else if display_set {
        LinuxDesktopSession::X11
    } else {
        LinuxDesktopSession::Unknown
    }
}

/// What to do next to learn the idle time.
#[derive(Clone, Copy, PartialEq, Eq, Structural, Debug)]
pub enum IdleStep {
    /// Ask the screen saver service over the session bus.
    AskScreenSaver,
    /// Run `xprintidle`.
    RunXprintidle,
    /// The idle time is known, in seconds.
    Known(u64),
}

/// The first step: the screen saver service is asked in a Wayland session only.
pub fn first_step(session: LinuxDesktopSession) -> (step: IdleStep)
    ensures
        step == if session == LinuxDesktopSession::Wayland {
            IdleStep::AskScreenSaver
        } else {
            IdleStep::RunXprintidle
        },
{
    if session == LinuxDesktopSession::Wayland {
        IdleStep::AskScreenSaver
    } else {
        IdleStep::RunXprintidle
    }
}

/// A word that names an unsigned integer type in a bus reply.
pub open spec fn is_uint_tag(word: Seq<char>) -> bool {
    word == "uint32"@ || word == "uint64"@
}

/// The number in a bus reply: the first one that stands behind the name of an
/// unsigned integer type.
pub open spec fn tagged_number(words: Seq<Seq<char>>) -> Option<u64>
    decreases words.len(),
{
    if words.len() < 2 {
        None
    } else if is_uint_tag(words[0]) && text::parse_u64(words[1]) is Some {
        text::parse_u64(words[1])
    } else {
        tagged_number(words.drop_first())
    }
}

/// The idle milliseconds that a bus reply tells of.
pub fn screen_saver_idle_ms(reply: &str) -> (ms: Option<u64>)
    ensures
        ms == tagged_number(text::words(reply@)),
{
    let chars = text::chars_of(reply);
    let words = text::words_of(chars.as_slice());
    let uint32 = text::chars_of("uint32");
    let uint64 = text::chars_of("uint64");
    let ghost all = text::char_lists(words@);
    let n = words.len();
    let mut i: usize = 0;
    assert(all.skip(0) =~= all);
    while i < n && n - i >= 2
        invariant
            all == text::char_lists(words@),
            all == text::words(reply@),
            n == words@.len(),
            i <= n,
            uint32@ == "uint32"@,
            uint64@ == "uint64"@,
            tagged_number(all) == tagged_number(all.skip(i as int)),
        decreases n - i,
    {
        assert(all.skip(i as int)[0] == words@[i as int]@);
        assert(all.skip(i as int)[1] == words@[i + 1]@);
        if text::same_chars(words[i].as_slice(), uint32.as_slice()) || text::same_chars(
            words[i].as_slice(),
            uint64.as_slice(),
        ) {
            let value = text::read_u64(words[i + 1].as_slice());
            if value.is_some() {
                return value;
            }
        }
        assert(all.skip(i as int).drop_first() =~= all.skip(i + 1));
        i += 1;
    }
    None
}

/// What is known once the screen saver service was asked. `stdout` is what the
/// command printed, or nothing where it did not run or did not succeed.
pub open spec fn step_after_screen_saver(stdout: Option<Seq<u8>>) -> IdleStep {
    match stdout {
        Some(bytes) => match tagged_number(text::words(lossy_text(bytes))) {
            Some(ms) => IdleStep::Known(ms / 1000),
            None => IdleStep::RunXprintidle,
        },
        None => IdleStep::RunXprintidle,
    }
}

/// The bytes of an optional output.
pub open spec fn opt_bytes(o: Option<Vec<u8>>) -> Option<Seq<u8>> {
    match o {
        Some(v) => Some(v@),
        None => None,
    }
}

/// The step behind the answer of the screen saver service: the idle time where
/// the answer tells it, `xprintidle` otherwise.
pub fn after_screen_saver(stdout: &Option<Vec<u8>>) -> (step: IdleStep)
    ensures
        step == step_after_screen_saver(opt_bytes(*stdout)),
{
    match stdout {
        Some(bytes) => {
            let reply = from_utf8_lossy(bytes.as_slice());
            match screen_saver_idle_ms(reply.as_str()) {
                Some(ms) => IdleStep::Known(ms / 1000),
                None => IdleStep::RunXprintidle,
            }
        },
        None => IdleStep::RunXprintidle,
    }
}

/// The idle seconds that the text printed by `xprintidle` tells of: its
/// milliseconds in whole seconds, or zero where it is no number.
pub open spec fn printed_seconds(printed: Seq<char>) -> u64 {
    match text::parse_u64(text::trim(printed)) {
        Some(ms) => ms / 1000,
        None => 0,
    }
}

/// The idle seconds that the text printed by `xprintidle` tells of.
pub fn xprintidle_seconds(printed: &str) -> (secs: u64)
    ensures
        secs == printed_seconds(printed@),
{
    let chars = text::chars_of(printed);
    match text::read_u64(text::trimmed(chars.as_slice(), text::CharClass::WhiteSpace)) {
        Some(ms) => ms / 1000,
        None => 0,
    }
}

/// The idle seconds behind the run of `xprintidle`; zero where it did not run
/// or did not succeed.
pub fn after_xprintidle(stdout: &Option<Vec<u8>>) -> (secs: u64)
    ensures
        secs == match opt_bytes(*stdout) {
            Some(bytes) => printed_seconds(lossy_text(bytes)),
            None => 0,
        },
{
    match stdout {
        Some(bytes) => {
            let printed = from_utf8_lossy(bytes.as_slice());
            xprintidle_seconds(printed.as_str())
        },
        None => 0,
    }
}

/// The idle seconds of a session, by what the two commands printed: the screen
/// saver service has the word in a Wayland session where its reply tells the
/// time, `xprintidle` in every other case.
pub open spec fn idle_seconds(
    session: LinuxDesktopSession,
    screen_saver: Option<Seq<u8>>,
    xprintidle: Option<Seq<u8>>,
) -> u64 {
    if session == LinuxDesktopSession::Wayland && screen_saver is Some && tagged_number(
        text::words(lossy_text(screen_saver->0)),
    ) is Some {
        tagged_number(text::words(lossy_text(screen_saver->0)))->0 / 1000
    } else if xprintidle is Some {
        printed_seconds(lossy_text(xprintidle->0))
    } else {
        0
    }
}

/// The idle seconds of a session, by what the two commands printed.
pub fn get_idle_seconds(
    session: LinuxDesktopSession,
    screen_saver: &Option<Vec<u8>>,
    xprintidle: &Option<Vec<u8>>,
) -> (secs: u64)
    ensures
        secs == idle_seconds(session, opt_bytes(*screen_saver), opt_bytes(*xprintidle)),
{
    let step = match first_step(session) {
        IdleStep::AskScreenSaver => after_screen_saver(screen_saver),
        other => other,
    };
    match step {
        IdleStep::Known(secs) => secs,
        _ => after_xprintidle(xprintidle),
    }
}

// ---------------------------------------------------------------------------
// Laws
// ---------------------------------------------------------------------------
/// A tick counter that ran over between two readings gives the same idle time
/// as one that did not: only the distance counts.
pub proof fn law_tick_wrap_is_invisible(last_input: u32, elapsed_ms: u32)
    ensures
        tick_seconds(last_input, ((last_input + elapsed_ms) % 0x1_0000_0000) as u32) == elapsed_ms
            / 1000,
{
    let sum = last_input + elapsed_ms;
    let current = sum % 0x1_0000_0000;
    assert(0 <= current < 0x1_0000_0000);
    if sum >= 0x1_0000_0000 {
        assert(current == sum - 0x1_0000_0000);
        assert((current - last_input) % 0x1_0000_0000 == elapsed_ms);
    } else {
        assert(current == sum);
    }
}

/// The idle time is counted in whole seconds: from a count of milliseconds, in
/// decimal digits with white space around them or not, come the seconds that are
/// over by then.
pub proof fn law_printed_milliseconds_in_seconds(front: Seq<char>, ms: u64, back: Seq<char>)
    requires
        forall|i: int| 0 <= i < front.len() ==> text::is_white_space(#[trigger] front[i]),
        forall|i: int| 0 <= i < back.len() ==> text::is_white_space(#[trigger] back[i]),
    ensures
        printed_seconds(front + text::decimal(ms as nat) + back) * 1000 <= ms,
        ms < (printed_seconds(front + text::decimal(ms as nat) + back) + 1) * 1000,
{
    let digits = text::decimal(ms as nat);
    text::law_number_is_read_from_its_digits(ms);
    assert('0' <= digits[0] && digits[0] <= '9');
    assert('0' <= digits[digits.len() - 1] && digits[digits.len() - 1] <= '9');
    text::law_trim_takes_the_ends(front, digits, back, text::CharClass::WhiteSpace);
}

/// What is no number tells of no idle time.
pub proof fn law_no_number_is_no_idle_time(
    front: Seq<char>,
    core: Seq<char>,
    back: Seq<char>,
    i: int,
)
    requires
        forall|i: int| 0 <= i < front.len() ==> text::is_white_space(#[trigger] front[i]),
        forall|i: int| 0 <= i < back.len() ==> text::is_white_space(#[trigger] back[i]),
        core.len() > 0 ==> !text::is_white_space(core[0]) && !text::is_white_space(core.last()),
        core.len() > 0 ==> 0 <= i < core.len() && !('0' <= core[i] && core[i] <= '9') && (i > 0
            || core[0] != '+' || core.len() == 1),
    ensures
        printed_seconds(front + core + back) == 0,
{
    text::law_trim_takes_the_ends(front, core, back, text::CharClass::WhiteSpace);
    if core.len() > 0 {
        text::law_only_digits_are_numbers(core, i);
    }
}

/// A bus reply tells the number behind the first name of an unsigned integer type
/// that a number stands behind, and nothing where there is none.
pub proof fn law_reply_tells_its_first_tagged_number(words: Seq<Seq<char>>)
    ensures
        match tagged_number(words) {
            Some(ms) => exists|i: int|
                0 <= i < words.len() - 1 && ((#[trigger] words[i]) == "uint32"@ || words[i]
                    == "uint64"@) && text::parse_u64(words[i + 1]) == Some(ms) && forall|j: int|
                    0 <= j < i ==> !(((#[trigger] words[j]) == "uint32"@ || words[j] == "uint64"@)
                        && text::parse_u64(words[j + 1]) is Some),
            None => forall|j: int|
                0 <= j < words.len() - 1 ==> !(((#[trigger] words[j]) == "uint32"@ || words[j]
                    == "uint64"@) && text::parse_u64(words[j + 1]) is Some),
        },
    decreases words.len(),
{
    if words.len() >= 2 {
        if is_uint_tag(words[0]) && text::parse_u64(words[1]) is Some {
            let i = 0int;
            assert(words[i] == "uint32"@ || words[i] == "uint64"@);
        } else {
            let rest = words.drop_first();
            law_reply_tells_its_first_tagged_number(rest);
            match tagged_number(rest) {
                Some(ms) => {
                    let i = choose|i: int|
                        0 <= i < rest.len() - 1 && ((#[trigger] rest[i]) == "uint32"@ || rest[i]
                            == "uint64"@) && text::parse_u64(rest[i + 1]) == Some(ms) && forall|
                            j: int,
                        |
                            0 <= j < i ==> !(((#[trigger] rest[j]) == "uint32"@ || rest[j]
                                == "uint64"@) && text::parse_u64(rest[j + 1]) is Some);
                    assert(words[i + 1] == rest[i]);
                    assert(words[i + 1 + 1] == rest[i + 1]);
                    assert forall|j: int| 0 <= j < i + 1 implies !(((#[trigger] words[j])
                        == "uint32"@ || words[j] == "uint64"@) && text::parse_u64(words[j + 1])
                        is Some) by {
                        if j > 0 {
                            assert(words[j] == rest[j - 1]);
                            assert(words[j + 1] == rest[j - 1 + 1]);
                        }
                    }
                },
                None => {
                    assert forall|j: int| 0 <= j < words.len() - 1 implies !(((#[trigger] words[j])
                        == "uint32"@ || words[j] == "uint64"@) && text::parse_u64(words[j + 1])
                        is Some) by {
                        if j > 0 {
                            assert(words[j] == rest[j - 1]);
                            assert(words[j + 1] == rest[j - 1 + 1]);
                        }
                    }
                },
            }
        }
    }
}

/// The usual reply tells its milliseconds: some words, among them no name of an
/// unsigned integer type, then such a name, then the number, then anything.
pub proof fn law_reply_is_read(
    before: Seq<char>,
    c: char,
    tag: Seq<char>,
    d: char,
    ms: u64,
    e: char,
    after: Seq<char>,
)
    requires
        text::is_white_space(c) && text::is_white_space(d) && text::is_white_space(e),
        tag == "uint32"@ || tag == "uint64"@,
        forall|i: int|
            0 <= i < text::words(before).len() ==> (#[trigger] text::words(before)[i])
                != "uint32"@ && text::words(before)[i] != "uint64"@,
    ensures
        tagged_number(
            text::words(
                before.push(c) + (tag.push(d) + (text::decimal(ms as nat).push(e) + after)),
            ),
        ) == Some(ms),
{
    reveal_strlit("uint32");
    reveal_strlit("uint64");
    let digits = text::decimal(ms as nat);
    text::law_number_is_read_from_its_digits(ms);
    assert forall|i: int| 0 <= i < digits.len() implies !text::is_white_space(#[trigger] digits[i]) by {
        assert('0' <= digits[i] && digits[i] <= '9');
    }
    text::law_one_word(tag);
    text::law_one_word(digits);
    text::law_space_parts_words(digits, e, after);
    text::law_space_parts_words(tag, d, digits.push(e) + after);
    text::law_space_parts_words(before, c, tag.push(d) + (digits.push(e) + after));
    let front = text::words(before);
    let all = text::words(before.push(c) + (tag.push(d) + (digits.push(e) + after)));
    let n = front.len() as int;
    assert(all[n] == tag);
    assert(all[n + 1] == digits);
    law_reply_tells_its_first_tagged_number(all);
    match tagged_number(all) {
        Some(found) => {
            let i = choose|i: int|
                0 <= i < all.len() - 1 && ((#[trigger] all[i]) == "uint32"@ || all[i] == "uint64"@)
                    && text::parse_u64(all[i + 1]) == Some(found) && forall|j: int|
                    0 <= j < i ==> !(((#[trigger] all[j]) == "uint32"@ || all[j] == "uint64"@)
                        && text::parse_u64(all[j + 1]) is Some);
            if i < n {
                assert(all[i] == front[i]);
            }
            if i > n {
                assert(!((all[n] == "uint32"@ || all[n] == "uint64"@) && text::parse_u64(all[n + 1])
                    is Some));
            }
        },
        None => {
            assert(!((all[n] == "uint32"@ || all[n] == "uint64"@) && text::parse_u64(all[n + 1])
                is Some));
        },
    }
}

/// In a Wayland session the screen saver service has the word where its reply
/// tells a number of milliseconds: the idle time is that in whole seconds,
/// whatever `xprintidle` says.
pub proof fn law_screen_saver_has_the_word(
    reply: Seq<u8>,
    ms: u64,
    xprintidle: Option<Seq<u8>>,
)
    requires
        tagged_number(text::words(lossy_text(reply))) == Some(ms),
    ensures
        ({
            let s = idle_seconds(LinuxDesktopSession::Wayland, Some(reply), xprintidle);
            &&& s * 1000 <= ms < (s + 1) * 1000
            &&& step_after_screen_saver(Some(reply)) == IdleStep::Known(s)
        }),
{
}

/// In every other case the idle time is what `xprintidle` printed, in whole
/// seconds, or zero where it printed nothing: in another session, and where the
/// screen saver service gave no answer or one without a number.
pub proof fn law_xprintidle_has_the_word_otherwise(
    session: LinuxDesktopSession,
    screen_saver: Option<Seq<u8>>,
    front: Seq<char>,
    ms: u64,
    back: Seq<char>,
    printed: Seq<u8>,
)
    requires
        forall|i: int| 0 <= i < front.len() ==> text::is_white_space(#[trigger] front[i]),
        forall|i: int| 0 <= i < back.len() ==> text::is_white_space(#[trigger] back[i]),
        lossy_text(printed) == front + text::decimal(ms as nat) + back,
        session == LinuxDesktopSession::Wayland && screen_saver is Some ==> tagged_number(
            text::words(lossy_text(screen_saver->0)),
        ) is None,
    ensures
        idle_seconds(session, screen_saver, Some(printed)) * 1000 <= ms,
        ms < (idle_seconds(session, screen_saver, Some(printed)) + 1) * 1000,
        idle_seconds(session, screen_saver, None) == 0,
        session == LinuxDesktopSession::Wayland ==> step_after_screen_saver(screen_saver)
            == IdleStep::RunXprintidle,
{
    law_printed_milliseconds_in_seconds(front, ms, back);
}

/// A session that has been idle for longer never counts as idle for less.
pub proof fn law_longer_is_no_less(session: LinuxDesktopSession, a: Seq<u8>, m: u64, b: Seq<u8>, n: u64)
    requires
        session != LinuxDesktopSession::Wayland,
        lossy_text(a) == text::decimal(m as nat),
        lossy_text(b) == text::decimal(n as nat),
        m <= n,
    ensures
        idle_seconds(session, None, Some(a)) <= idle_seconds(session, None, Some(b)),
{
    let none = Seq::<char>::empty();
    assert(none + text::decimal(m as nat) + none =~= text::decimal(m as nat));
    assert(none + text::decimal(n as nat) + none =~= text::decimal(n as nat));
    law_printed_milliseconds_in_seconds(none, m, none);
    law_printed_milliseconds_in_seconds(none, n, none);
}

/// The Windows counter, too, is read in whole seconds.
pub proof fn law_ticks_in_seconds(last_input: u32, elapsed_ms: u32)
    ensures
        ({
            let s = tick_seconds(
                last_input,
                ((last_input + elapsed_ms) % 0x1_0000_0000) as u32,
            );
            s * 1000 <= elapsed_ms < (s + 1) * 1000
        }),
{
    law_tick_wrap_is_invisible(last_input, elapsed_ms);
}

/// Nothing of what a command printed is left out.
pub proof fn law_view_of_an_output(printed: Vec<u8>)
    ensures
        opt_bytes(Some(printed)) == Some(printed@),
        opt_bytes(None) is None,
{
}

} // verus!
