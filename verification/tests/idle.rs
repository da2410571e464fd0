use eyes_on_me::idle::{
    after_screen_saver, after_xprintidle, desktop_session, first_step, get_idle_seconds, is_idle,
    screen_saver_idle_ms, windows_idle_seconds, xprintidle_seconds, IdleStep, LinuxDesktopSession,
    DEFAULT_IDLE_TIMEOUT_SECS,
};

fn printed(text: &str) -> Option<Vec<u8>> {
    Some(text.as_bytes().to_vec())
}

#[test]
fn idle_from_the_threshold_on() {
    assert_eq!(DEFAULT_IDLE_TIMEOUT_SECS, 180);
    assert!(!is_idle(179, DEFAULT_IDLE_TIMEOUT_SECS));
    assert!(is_idle(180, DEFAULT_IDLE_TIMEOUT_SECS));
    assert!(is_idle(0, 0));
}

#[test]
fn windows_ticks_run_over() {
    assert_eq!(windows_idle_seconds(None, 5_000), 0);
    assert_eq!(windows_idle_seconds(Some(1_000), 4_999), 3);
    assert_eq!(windows_idle_seconds(Some(u32::MAX), 1_999), 2);
    assert_eq!(windows_idle_seconds(Some(u32::MAX - 999), 1_000), 2);
    assert_eq!(windows_idle_seconds(Some(7), 7), 0);
    assert_eq!(windows_idle_seconds(Some(1), 0), (u32::MAX / 1000) as u64);
}

#[test]
fn sessions_by_their_display() {
    assert_eq!(desktop_session(true, true), LinuxDesktopSession::Wayland);
    assert_eq!(desktop_session(true, false), LinuxDesktopSession::Wayland);
    assert_eq!(desktop_session(false, true), LinuxDesktopSession::X11);
    assert_eq!(desktop_session(false, false), LinuxDesktopSession::Unknown);
    assert_eq!(first_step(LinuxDesktopSession::Wayland), IdleStep::AskScreenSaver);
    assert_eq!(first_step(LinuxDesktopSession::X11), IdleStep::RunXprintidle);
    assert_eq!(first_step(LinuxDesktopSession::Unknown), IdleStep::RunXprintidle);
}

#[test]
fn bus_replies_tell_the_idle_time() {
    let reply = "method return time=1.2 sender=:1.5 -> destination=:1.9\n   uint32 61500\n";
    assert_eq!(screen_saver_idle_ms(reply), Some(61_500));
    assert_eq!(screen_saver_idle_ms("uint64 18446744073709551615"), Some(u64::MAX));
    assert_eq!(screen_saver_idle_ms("uint64 18446744073709551616"), None);
    assert_eq!(screen_saver_idle_ms("uint32 x uint64 +7"), Some(7));
    assert_eq!(screen_saver_idle_ms("uint32"), None);
    assert_eq!(screen_saver_idle_ms("int32 5"), None);
    assert_eq!(screen_saver_idle_ms(""), None);
    assert_eq!(after_screen_saver(&printed(reply)), IdleStep::Known(61));
    assert_eq!(after_screen_saver(&printed("nothing")), IdleStep::RunXprintidle);
    assert_eq!(after_screen_saver(&None), IdleStep::RunXprintidle);
}

#[test]
fn xprintidle_prints_milliseconds() {
    assert_eq!(xprintidle_seconds(" 12999\n"), 12);
    assert_eq!(xprintidle_seconds("+1000"), 1);
    assert_eq!(xprintidle_seconds("0009000"), 9);
    assert_eq!(xprintidle_seconds("-1000"), 0);
    assert_eq!(xprintidle_seconds("+"), 0);
    assert_eq!(xprintidle_seconds("12 34"), 0);
    assert_eq!(xprintidle_seconds("1_000"), 0);
    assert_eq!(xprintidle_seconds(""), 0);
    assert_eq!(after_xprintidle(&printed("5000\n")), 5);
    assert_eq!(after_xprintidle(&Some(vec![0xff, b'5'])), 0);
    assert_eq!(after_xprintidle(&Some(vec![0xe3, 0x80, 0x80, b'5', b'0', b'0', b'0'])), 5);
    assert_eq!(after_xprintidle(&None), 0);
}

#[test]
fn broken_bytes_do_not_hide_the_reply() {
    let mut bytes = vec![0xff, 0xfe, b' '];
    bytes.extend_from_slice(b"uint32 3000");
    assert_eq!(after_screen_saver(&Some(bytes)), IdleStep::Known(3));
}

#[test]
fn screen_saver_has_the_word_in_wayland_sessions_only() {
    let saver = printed("uint32 7000");
    let x = printed("9000");
    assert_eq!(get_idle_seconds(LinuxDesktopSession::Wayland, &saver, &x), 7);
    assert_eq!(get_idle_seconds(LinuxDesktopSession::X11, &saver, &x), 9);
    assert_eq!(get_idle_seconds(LinuxDesktopSession::Unknown, &saver, &x), 9);
    assert_eq!(get_idle_seconds(LinuxDesktopSession::Wayland, &None, &x), 9);
    assert_eq!(get_idle_seconds(LinuxDesktopSession::Wayland, &None, &None), 0);
}
