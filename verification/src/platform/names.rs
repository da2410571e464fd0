//! Application names: the names shown for common applications, the names that
//! filters compare, and the processes of the desktop itself.

use crate::model::AppInfo;
use crate::text;
use vstd::prelude::*;

verus! {

/// The name shown for a common application, by its name in lower case.
pub open spec fn known_app_name(lower: Seq<char>) -> Option<Seq<char>> {
    if lower == "chrome"@ || lower == "google chrome"@ {
        Some("Google Chrome"@)
    } else if lower == "msedge"@ || lower == "edge"@ || lower == "microsoft edge"@ {
        Some("Microsoft Edge"@)
    } else if lower == "brave"@ || lower == "brave browser"@ {
        Some("Brave Browser"@)
    } else if lower == "firefox"@ || lower == "mozilla firefox"@ {
        Some("Firefox"@)
    } else if lower == "safari"@ {
        Some("Safari"@)
    } else if lower == "opera"@ || lower == "opera gx"@ {
        Some("Opera"@)
    } else if lower == "vivaldi"@ {
        Some("Vivaldi"@)
    } else if lower == "chromium"@ {
        Some("Chromium"@)
    } else if lower == "arc"@ {
        Some("Arc"@)
    } else if lower == "zen browser"@ || lower == "zen"@ {
        Some("Zen Browser"@)
    } else if lower == "orion"@ {
        Some("Orion"@)
    } else if lower == "qqbrowser"@ || lower == "qq browser"@ || lower == "qq浏览器"@ {
        Some("QQ Browser"@)
    } else if lower == "360se"@ || lower == "360chrome"@ || lower == "360 browser"@ || lower
        == "360浏览器"@ {
        Some("360 Browser"@)
    } else if lower == "sogouexplorer"@ || lower == "sogou browser"@ || lower == "搜狗浏览器"@ {
        Some("Sogou Browser"@)
    } else if lower == "code"@ || lower == "visual studio code"@ {
        Some("Visual Studio Code"@)
    } else if lower == "cursor"@ {
        Some("Cursor"@)
    } else if lower == "wechat"@ {
        Some("WeChat"@)
    } else {
        None
    }
}

/// The name shown for a common application, by its name in lower case.
pub fn known_app(lower: &str) -> (name: Option<&'static str>)
    ensures
        text::opt_str(name) == known_app_name(lower@),
{
    let v = text::chars_of(lower);
    let l = v.as_slice();
    if is(l, "chrome") || is(l, "google chrome") {
        Some("Google Chrome")
    } else if is(l, "msedge") || is(l, "edge") || is(l, "microsoft edge") {
        Some("Microsoft Edge")
    } else if is(l, "brave") || is(l, "brave browser") {
        Some("Brave Browser")
    } else if is(l, "firefox") || is(l, "mozilla firefox") {
        Some("Firefox")
    } else if is(l, "safari") {
        Some("Safari")
    } else if is(l, "opera") || is(l, "opera gx") {
        Some("Opera")
    } else if is(l, "vivaldi") {
        Some("Vivaldi")
    } else if is(l, "chromium") {
        Some("Chromium")
    } else if is(l, "arc") {
        Some("Arc")
    } else if is(l, "zen browser") || is(l, "zen") {
        Some("Zen Browser")
    } else if is(l, "orion") {
        Some("Orion")
    } else if is(l, "qqbrowser") || is(l, "qq browser") || is(l, "qq浏览器") {
        Some("QQ Browser")
    } else if is(l, "360se") || is(l, "360chrome") || is(l, "360 browser") || is(l, "360浏览器") {
        Some("360 Browser")
    } else if is(l, "sogouexplorer") || is(l, "sogou browser") || is(l, "搜狗浏览器") {
        Some("Sogou Browser")
    } else if is(l, "code") || is(l, "visual studio code") {
        Some("Visual Studio Code")
    } else if is(l, "cursor") {
        Some("Cursor")
    } else if is(l, "wechat") {
        Some("WeChat")
    } else {
        None
    }
}

fn is(s: &[char], name: &str) -> (b: bool)
    ensures
        b == (s@ == name@),
{
    text::same_chars(s, text::chars_of(name).as_slice())
}

/// A process name without white space at its ends and without the suffixes of
/// an executable.
pub open spec fn app_stem(s: Seq<char>) -> Seq<char> {
    text::trim(
        text::strip_suffixes(text::strip_suffixes(text::trim(s), ".exe"@), ".EXE"@),
    )
}

/// The name shown for an application: that of the table, or its own stem.
pub open spec fn display_app_name(s: Seq<char>) -> Seq<char> {
    match known_app_name(text::lowercase(app_stem(s))) {
        Some(name) => name,
        None => app_stem(s),
    }
}

/// The stem of a process name.
pub fn stem_of(app_name: &str) -> (r: String)
    ensures
        r@ == app_stem(app_name@),
{
    let v = text::chars_of(app_name);
    let lower_suffix = text::chars_of(".exe");
    let upper_suffix = text::chars_of(".EXE");
    let t = text::trimmed(v.as_slice(), text::CharClass::WhiteSpace);
    let t = text::without_suffixes(t, lower_suffix.as_slice());
    let t = text::without_suffixes(t, upper_suffix.as_slice());
    text::string_of(text::trimmed(t, text::CharClass::WhiteSpace))
}

/// The name shown for an application whose stem is `stem`, where `lower` is
/// the lower case of that stem.
pub fn display_name_of(stem: &str, lower: &str) -> (r: String)
    ensures
        r@ == match known_app_name(lower@) {
            Some(name) => name,
            None => stem@,
        },
{
    match known_app(lower) {
        Some(name) => name.to_string(),
        None => stem.to_string(),
    }
}

/// The name shown for an application.
pub fn normalize_display_app_name(app_name: &str) -> (r: String)
    ensures
        r@ == display_app_name(app_name@),
{
    let stem = stem_of(app_name);
    let lower = text::to_lowercase(stem.as_str());
    display_name_of(stem.as_str(), lower.as_str())
}

/// The name by which filters compare applications.
pub open spec fn match_name(s: Seq<char>) -> Seq<char> {
    text::ascii_lowercase(text::trim(display_app_name(s)))
}

/// The name by which filters compare applications.
pub fn normalize_match_name(value: &str) -> (r: String)
    ensures
        r@ == match_name(value@),
{
    let name = normalize_display_app_name(value);
    let v = text::chars_of(name.as_str());
    text::lower_text(text::trimmed(v.as_slice(), text::CharClass::WhiteSpace))
}

/// Whether an application name in lower case, without `.exe`, is that of a
/// process of the desktop itself.
pub open spec fn is_system_name(name: Seq<char>) -> bool {
    ||| name == "desktop"@
    ||| name == "lockapp"@
    ||| name == "logonui"@
    ||| name == "searchapp"@
    ||| name == "searchhost"@
    ||| name == "shellexperiencehost"@
    ||| name == "startmenuexperiencehost"@
    ||| name == "textinputhost"@
    ||| name == "applicationframehost"@
    ||| name == "dwm"@
    ||| name == "csrss"@
    ||| name == "taskmgr"@
    ||| name == "loginwindow"@
    ||| name == "screensaverengine"@
    ||| name == "screensaver"@
    ||| name == "cinnamon-session"@
    ||| name == "cinnamon-screensaver"@
    ||| name == "gnome-shell"@
    ||| name == "gnome-screensaver"@
    ||| name == "plasmashell"@
    ||| name == "kscreenlocker"@
    ||| name == "xscreensaver"@
    ||| name == "i3lock"@
    ||| name == "swaylock"@
    ||| name == "xfce4-session"@
}

/// Whether an application is a process of the desktop itself: the lower case of
/// its name, without outer white space and without `.exe`, is one of theirs.
/// Those are in ASCII, so a name whose lower case leaves ASCII is none.
pub open spec fn is_system_app(s: Seq<char>) -> bool {
    text::lowers_to_ascii(text::trim(s)) && is_system_name(
        text::strip_suffixes(text::simple_lowercase(text::trim(s)), ".exe"@),
    )
}

/// The names of the processes of the desktop are in ASCII.
proof fn lemma_system_names_are_ascii(name: Seq<char>)
    requires
        is_system_name(name),
    ensures
        text::all_ascii(name),
{
    reveal_strlit("desktop");
    reveal_strlit("lockapp");
    reveal_strlit("logonui");
    reveal_strlit("searchapp");
    reveal_strlit("searchhost");
    reveal_strlit("shellexperiencehost");
    reveal_strlit("startmenuexperiencehost");
    reveal_strlit("textinputhost");
    reveal_strlit("applicationframehost");
    reveal_strlit("dwm");
    reveal_strlit("csrss");
    reveal_strlit("taskmgr");
    reveal_strlit("loginwindow");
    reveal_strlit("screensaverengine");
    reveal_strlit("screensaver");
    reveal_strlit("cinnamon-session");
    reveal_strlit("cinnamon-screensaver");
    reveal_strlit("gnome-shell");
    reveal_strlit("gnome-screensaver");
    reveal_strlit("plasmashell");
    reveal_strlit("kscreenlocker");
    reveal_strlit("xscreensaver");
    reveal_strlit("i3lock");
    reveal_strlit("swaylock");
    reveal_strlit("xfce4-session");
}

/// Whether a name in lower case, with or without `.exe`, is that of a process
/// of the desktop itself.
pub fn is_system_lower(lower: &str) -> (b: bool)
    ensures
        b == is_system_name(text::strip_suffixes(lower@, ".exe"@)),
{
    let v = text::chars_of(lower);
    let suffix = text::chars_of(".exe");
    let n = text::without_suffixes(v.as_slice(), suffix.as_slice());
    is(n, "desktop") || is(n, "lockapp") || is(n, "logonui") || is(n, "searchapp") || is(
        n,
        "searchhost",
    ) || is(n, "shellexperiencehost") || is(n, "startmenuexperiencehost") || is(n, "textinputhost")
        || is(n, "applicationframehost") || is(n, "dwm") || is(n, "csrss") || is(n, "taskmgr")
        || is(n, "loginwindow") || is(n, "screensaverengine") || is(n, "screensaver") || is(
        n,
        "cinnamon-session",
    ) || is(n, "cinnamon-screensaver") || is(n, "gnome-shell") || is(n, "gnome-screensaver") || is(
        n,
        "plasmashell",
    ) || is(n, "kscreenlocker") || is(n, "xscreensaver") || is(n, "i3lock") || is(n, "swaylock")
        || is(n, "xfce4-session")
}

/// Whether an application is a process of the desktop itself.
pub fn is_system_process(app_name: &str) -> (b: bool)
    ensures
        b == is_system_app(app_name@),
{
    let name = text::trim_text(app_name);
    let lower = text::to_lowercase(name.as_str());
    proof {
        let plain = text::strip_suffixes(lower@, ".exe"@);
        if is_system_name(plain) {
            reveal_strlit(".exe");
            lemma_system_names_are_ascii(plain);
            text::lemma_strip_keeps_ascii(lower@, ".exe"@);
        }
        if text::lowers_to_ascii(name@) {
            assert(text::all_simple_case(name@));
        }
    }
    is_system_lower(lower.as_str())
}

/// An application with the name that is shown for it. A title that only
/// repeats the name follows it.
pub open spec fn with_display_name(
    app: crate::model::AppInfoView,
) -> crate::model::AppInfoView {
    let original = text::trim(app.name);
    let shown = display_app_name(original);
    crate::model::AppInfoView {
        id: app.id,
        name: shown,
        title: if app.title is Some && text::trim(app.title->0) == original {
            Some(shown)
        } else {
            app.title
        },
        pid: app.pid,
    }
}

/// An application with the name that is shown for it.
pub fn normalize_app_info(app: AppInfo) -> (r: AppInfo)
    ensures
        r@ == with_display_name(app@),
{
    let original = text::trim_text(app.name.as_str());
    let shown = normalize_display_app_name(original.as_str());
    let repeats = match &app.title {
        Some(title) => text::same_text(
            text::trim_text(title.as_str()).as_str(),
            original.as_str(),
        ),
        None => false,
    };
    let title = if repeats {
        Some(shown.clone())
    } else {
        app.title
    };
    AppInfo { id: app.id, name: shown, title, pid: app.pid }
}

// ---------------------------------------------------------------------------
// Laws
// ---------------------------------------------------------------------------
/// The lengths and first letters that tell the names of the table apart.
proof fn lemma_table_names()
    ensures
        "chrome"@.len() == 6 && "chrome"@[0] == 'c' && "chrome"@[1] == 'h',
        "google chrome"@.len() == 13 && "google chrome"@[0] == 'g' && "google chrome"@[1] == 'o',
        "msedge"@.len() == 6 && "msedge"@[0] == 'm' && "msedge"@[1] == 's',
        "edge"@.len() == 4 && "edge"@[0] == 'e' && "edge"@[1] == 'd',
        "microsoft edge"@.len() == 14 && "microsoft edge"@[0] == 'm' && "microsoft edge"@[1] == 'i',
        "brave"@.len() == 5 && "brave"@[0] == 'b' && "brave"@[1] == 'r',
        "brave browser"@.len() == 13 && "brave browser"@[0] == 'b' && "brave browser"@[1] == 'r',
        "firefox"@.len() == 7 && "firefox"@[0] == 'f' && "firefox"@[1] == 'i',
        "mozilla firefox"@.len() == 15 && "mozilla firefox"@[0] == 'm' && "mozilla firefox"@[1] == 'o',
        "safari"@.len() == 6 && "safari"@[0] == 's' && "safari"@[1] == 'a',
        "opera"@.len() == 5 && "opera"@[0] == 'o' && "opera"@[1] == 'p',
        "opera gx"@.len() == 8 && "opera gx"@[0] == 'o' && "opera gx"@[1] == 'p',
        "vivaldi"@.len() == 7 && "vivaldi"@[0] == 'v' && "vivaldi"@[1] == 'i',
        "chromium"@.len() == 8 && "chromium"@[0] == 'c' && "chromium"@[1] == 'h',
        "arc"@.len() == 3 && "arc"@[0] == 'a' && "arc"@[1] == 'r',
        "zen browser"@.len() == 11 && "zen browser"@[0] == 'z' && "zen browser"@[1] == 'e',
        "zen"@.len() == 3 && "zen"@[0] == 'z' && "zen"@[1] == 'e',
        "orion"@.len() == 5 && "orion"@[0] == 'o' && "orion"@[1] == 'r',
        "qqbrowser"@.len() == 9 && "qqbrowser"@[0] == 'q' && "qqbrowser"@[1] == 'q',
        "qq browser"@.len() == 10 && "qq browser"@[0] == 'q' && "qq browser"@[1] == 'q',
        "qq浏览器"@.len() == 5 && "qq浏览器"@[0] == 'q' && "qq浏览器"@[1] == 'q',
        "360se"@.len() == 5 && "360se"@[0] == '3' && "360se"@[1] == '6',
        "360chrome"@.len() == 9 && "360chrome"@[0] == '3' && "360chrome"@[1] == '6',
        "360 browser"@.len() == 11 && "360 browser"@[0] == '3' && "360 browser"@[1] == '6',
        "360浏览器"@.len() == 6 && "360浏览器"@[0] == '3' && "360浏览器"@[1] == '6',
        "sogouexplorer"@.len() == 13 && "sogouexplorer"@[0] == 's' && "sogouexplorer"@[1] == 'o',
        "sogou browser"@.len() == 13 && "sogou browser"@[0] == 's' && "sogou browser"@[1] == 'o',
        "搜狗浏览器"@.len() == 5 && "搜狗浏览器"@[0] == '搜' && "搜狗浏览器"@[1] == '狗',
        "code"@.len() == 4 && "code"@[0] == 'c' && "code"@[1] == 'o',
        "visual studio code"@.len() == 18 && "visual studio code"@[0] == 'v' && "visual studio code"@[1] == 'i',
        "cursor"@.len() == 6 && "cursor"@[0] == 'c' && "cursor"@[1] == 'u',
        "wechat"@.len() == 6 && "wechat"@[0] == 'w' && "wechat"@[1] == 'e',
{
    reveal_strlit("chrome");
    reveal_strlit("google chrome");
    reveal_strlit("msedge");
    reveal_strlit("edge");
    reveal_strlit("microsoft edge");
    reveal_strlit("brave");
    reveal_strlit("brave browser");
    reveal_strlit("firefox");
    reveal_strlit("mozilla firefox");
    reveal_strlit("safari");
    reveal_strlit("opera");
    reveal_strlit("opera gx");
    reveal_strlit("vivaldi");
    reveal_strlit("chromium");
    reveal_strlit("arc");
    reveal_strlit("zen browser");
    reveal_strlit("zen");
    reveal_strlit("orion");
    reveal_strlit("qqbrowser");
    reveal_strlit("qq browser");
    reveal_strlit("qq浏览器");
    reveal_strlit("360se");
    reveal_strlit("360chrome");
    reveal_strlit("360 browser");
    reveal_strlit("360浏览器");
    reveal_strlit("sogouexplorer");
    reveal_strlit("sogou browser");
    reveal_strlit("搜狗浏览器");
    reveal_strlit("code");
    reveal_strlit("visual studio code");
    reveal_strlit("cursor");
    reveal_strlit("wechat");
}

/// A name without outer white space and without `.exe` or `.EXE` at its end is
/// its own stem.
proof fn lemma_stem_fixed(s: Seq<char>)
    requires
        s.len() > 0 ==> !text::is_white_space(s[0]) && !text::is_white_space(s.last()),
        !text::ends_with(s, ".exe"@),
        !text::ends_with(s, ".EXE"@),
    ensures
        app_stem(s) == s,
{
    text::lemma_trim_fixed(s, text::CharClass::WhiteSpace);
}

/// A shown name that the table gives for its own lower case is shown for itself.
proof fn lemma_shown_for_itself(name: Seq<char>, lower: Seq<char>)
    requires
        name.len() > 0,
        text::all_simple_case(name),
        text::simple_lowercase(name) == lower,
        known_app_name(lower) == Some(name),
        !text::is_white_space(name[0]),
        !text::is_white_space(name.last()),
        name.last() != 'e' || name[name.len() - 2] != 'x',
        name.last() != 'E',
    ensures
        display_app_name(name) == name,
{
    reveal_strlit(".exe");
    reveal_strlit(".EXE");
    if text::ends_with(name, ".exe"@) {
        let n = name.len() as int;
        assert(name.subrange(n - 4, n - 4 + 4)[3] == name[n - 1]);
        assert(name.subrange(n - 4, n - 4 + 4)[2] == name[n - 2]);
    }
    if text::ends_with(name, ".EXE"@) {
        let n = name.len() as int;
        assert(name.subrange(n - 4, n - 4 + 4)[3] == name[n - 1]);
    }
    lemma_stem_fixed(name);
}

/// Each name of the table is shown for itself.
proof fn lemma_table_is_stable(lower: Seq<char>)
    requires
        known_app_name(lower) is Some,
    ensures
        display_app_name(known_app_name(lower)->0) == known_app_name(lower)->0,
{
    lemma_table_names();
    let name = known_app_name(lower)->0;
    if name == "Google Chrome"@ {
        reveal_strlit("Google Chrome");
        reveal_strlit("google chrome");
        assert(text::simple_lowercase(name) =~= "google chrome"@);
        lemma_shown_for_itself(name, "google chrome"@);
    }
    if name == "Microsoft Edge"@ {
        reveal_strlit("Microsoft Edge");
        reveal_strlit("microsoft edge");
        assert(text::simple_lowercase(name) =~= "microsoft edge"@);
        lemma_shown_for_itself(name, "microsoft edge"@);
    }
    if name == "Brave Browser"@ {
        reveal_strlit("Brave Browser");
        reveal_strlit("brave browser");
        assert(text::simple_lowercase(name) =~= "brave browser"@);
        lemma_shown_for_itself(name, "brave browser"@);
    }
    if name == "Firefox"@ {
        reveal_strlit("Firefox");
        reveal_strlit("firefox");
        assert(text::simple_lowercase(name) =~= "firefox"@);
        lemma_shown_for_itself(name, "firefox"@);
    }
    if name == "Safari"@ {
        reveal_strlit("Safari");
        reveal_strlit("safari");
        assert(text::simple_lowercase(name) =~= "safari"@);
        lemma_shown_for_itself(name, "safari"@);
    }
    if name == "Opera"@ {
        reveal_strlit("Opera");
        reveal_strlit("opera");
        assert(text::simple_lowercase(name) =~= "opera"@);
        lemma_shown_for_itself(name, "opera"@);
    }
    if name == "Vivaldi"@ {
        reveal_strlit("Vivaldi");
        reveal_strlit("vivaldi");
        assert(text::simple_lowercase(name) =~= "vivaldi"@);
        lemma_shown_for_itself(name, "vivaldi"@);
    }
    if name == "Chromium"@ {
        reveal_strlit("Chromium");
        reveal_strlit("chromium");
        assert(text::simple_lowercase(name) =~= "chromium"@);
        lemma_shown_for_itself(name, "chromium"@);
    }
    if name == "Arc"@ {
        reveal_strlit("Arc");
        reveal_strlit("arc");
        assert(text::simple_lowercase(name) =~= "arc"@);
        lemma_shown_for_itself(name, "arc"@);
    }
    if name == "Zen Browser"@ {
        reveal_strlit("Zen Browser");
        reveal_strlit("zen browser");
        assert(text::simple_lowercase(name) =~= "zen browser"@);
        lemma_shown_for_itself(name, "zen browser"@);
    }
    if name == "Orion"@ {
        reveal_strlit("Orion");
        reveal_strlit("orion");
        assert(text::simple_lowercase(name) =~= "orion"@);
        lemma_shown_for_itself(name, "orion"@);
    }
    if name == "QQ Browser"@ {
        reveal_strlit("QQ Browser");
        reveal_strlit("qq browser");
        assert(text::simple_lowercase(name) =~= "qq browser"@);
        lemma_shown_for_itself(name, "qq browser"@);
    }
    if name == "360 Browser"@ {
        reveal_strlit("360 Browser");
        reveal_strlit("360 browser");
        assert(text::simple_lowercase(name) =~= "360 browser"@);
        lemma_shown_for_itself(name, "360 browser"@);
    }
    if name == "Sogou Browser"@ {
        reveal_strlit("Sogou Browser");
        reveal_strlit("sogou browser");
        assert(text::simple_lowercase(name) =~= "sogou browser"@);
        lemma_shown_for_itself(name, "sogou browser"@);
    }
    if name == "Visual Studio Code"@ {
        reveal_strlit("Visual Studio Code");
        reveal_strlit("visual studio code");
        assert(text::simple_lowercase(name) =~= "visual studio code"@);
        lemma_shown_for_itself(name, "visual studio code"@);
    }
    if name == "Cursor"@ {
        reveal_strlit("Cursor");
        reveal_strlit("cursor");
        assert(text::simple_lowercase(name) =~= "cursor"@);
        lemma_shown_for_itself(name, "cursor"@);
    }
    if name == "WeChat"@ {
        reveal_strlit("WeChat");
        reveal_strlit("wechat");
        assert(text::simple_lowercase(name) =~= "wechat"@);
        lemma_shown_for_itself(name, "wechat"@);
    }
}

/// The name shown for a shown name is that name, so a name may be normalized
/// any number of times. This does not hold of a name with two different
/// suffixes of an executable, such as `a.exe.EXE`, whose stem still has one.
pub proof fn law_display_name_is_stable(s: Seq<char>)
    requires
        !text::ends_with(app_stem(s), ".exe"@),
        !text::ends_with(app_stem(s), ".EXE"@),
    ensures
        display_app_name(display_app_name(s)) == display_app_name(s),
{
    let stem = app_stem(s);
    let lower = text::lowercase(stem);
    if known_app_name(lower) is Some {
        lemma_table_is_stable(lower);
    } else {
        text::lemma_trim_ends(
            text::strip_suffixes(text::strip_suffixes(text::trim(s), ".exe"@), ".EXE"@),
            text::CharClass::WhiteSpace,
        );
        lemma_stem_fixed(stem);
    }
}

/// Filters see the same name whether or not the application was given its
/// shown name before.
pub proof fn law_match_name_survives_display(s: Seq<char>)
    requires
        !text::ends_with(app_stem(s), ".exe"@),
        !text::ends_with(app_stem(s), ".EXE"@),
    ensures
        match_name(display_app_name(s)) == match_name(s),
{
    law_display_name_is_stable(s);
}

/// The suffix `.exe` does not change the name shown for an application, nor does
/// `.EXE` behind a name that does not end in `.exe`.
pub proof fn law_display_name_ignores_exe(s: Seq<char>)
    requires
        s.len() > 0 ==> !text::is_white_space(s.last()),
    ensures
        display_app_name(s + ".exe"@) == display_app_name(s),
        !text::ends_with(s, ".exe"@) ==> display_app_name(s + ".EXE"@) == display_app_name(s),
{
    reveal_strlit(".exe");
    reveal_strlit(".EXE");
    let t = text::trim(s);
    if s.len() > 0 {
        text::lemma_trim_appended(s, ".exe"@);
        text::lemma_trim_appended(s, ".EXE"@);
    } else {
        assert(s + ".exe"@ =~= ".exe"@ && t + ".exe"@ =~= ".exe"@);
        assert(s + ".EXE"@ =~= ".EXE"@ && t + ".EXE"@ =~= ".EXE"@);
        text::lemma_trim_fixed(".exe"@, text::CharClass::WhiteSpace);
        text::lemma_trim_fixed(".EXE"@, text::CharClass::WhiteSpace);
    }
    text::lemma_strip_appended(t, ".exe"@);
    if !text::ends_with(s, ".exe"@) {
        let whole = t + ".EXE"@;
        let n = whole.len() as int;
        if text::ends_with(whole, ".exe"@) {
            assert(whole.subrange(n - 4, n - 4 + 4)[3] == whole[n - 1]);
        }
        if text::ends_with(t, ".exe"@) {
            lemma_trimmed_suffix(s);
        }
        text::lemma_strip_appended(t, ".EXE"@);
    }
}

/// A name that ends in something other than white space ends in `.exe` where it
/// does so without its outer white space.
proof fn lemma_trimmed_suffix(s: Seq<char>)
    requires
        s.len() > 0 ==> !text::is_white_space(s.last()),
        text::ends_with(text::trim(s), ".exe"@),
    ensures
        text::ends_with(s, ".exe"@),
{
    reveal_strlit(".exe");
    let k = text::CharClass::WhiteSpace;
    let t = text::trim_front(s, k);
    text::lemma_trim_front(s, k);
    if t.len() > 0 {
        assert(t.last() == s.last());
    }
    assert(text::trim(s) == t);
    assert(s.subrange(s.len() - 4, s.len() - 4 + 4) =~= t.subrange(t.len() - 4, t.len() - 4 + 4));
}

/// The suffix `.exe`, in upper or lower case, does not change whether an
/// application is a process of the desktop itself. White space between the name
/// and the suffix does: `dwm` is such a process, `dwm .exe` is not.
pub proof fn law_system_process_ignores_exe(s: Seq<char>)
    requires
        s.len() > 0 ==> !text::is_white_space(s.last()),
    ensures
        is_system_app(s + ".exe"@) == is_system_app(s),
        is_system_app(s + ".EXE"@) == is_system_app(s),
{
    reveal_strlit(".exe");
    reveal_strlit(".EXE");
    assert(text::ascii_lowercase(s + ".exe"@) =~= text::ascii_lowercase(s + ".EXE"@));
    law_system_process_ignores_case(s + ".exe"@, s + ".EXE"@);
    let t = text::trim(s);
    let whole = t + ".exe"@;
    if s.len() > 0 {
        text::lemma_trim_appended(s, ".exe"@);
    } else {
        assert(s + ".exe"@ =~= ".exe"@);
        assert(whole =~= ".exe"@);
        text::lemma_trim_fixed(".exe"@, text::CharClass::WhiteSpace);
    }
    assert(text::lowers_to_ascii(whole) == text::lowers_to_ascii(t)) by {
        if text::lowers_to_ascii(whole) {
            assert forall|i: int| 0 <= i < t.len() implies (text::is_ascii_char(#[trigger] t[i])
                || t[i] == text::KELVIN_SIGN) by {
                assert(whole[i] == t[i]);
            }
        }
    }
    assert(text::simple_lowercase(whole) =~= text::simple_lowercase(t) + ".exe"@);
    text::lemma_strip_appended(text::simple_lowercase(t), ".exe"@);
}

/// The case of ASCII letters does not change whether an application is a
/// process of the desktop itself.
pub proof fn law_system_process_ignores_case(s: Seq<char>, t: Seq<char>)
    requires
        text::ascii_lowercase(s) == text::ascii_lowercase(t),
    ensures
        is_system_app(s) == is_system_app(t),
{
    text::lemma_lowercase_trim(s);
    text::lemma_lowercase_trim(t);
    let a = text::trim(s);
    let b = text::trim(t);
    let lower = text::ascii_lowercase(a);
    assert(lower == text::ascii_lowercase(b));
    assert(a.len() == lower.len() && b.len() == lower.len());
    assert forall|i: int| 0 <= i < a.len() implies text::simple_lower(#[trigger] a[i])
        == text::simple_lower(b[i]) && text::is_ascii_char(a[i]) == text::is_ascii_char(b[i]) && (
    a[i] == text::KELVIN_SIGN) == (b[i] == text::KELVIN_SIGN) by {
        assert(lower[i] == text::ascii_lower(a[i]));
        assert(lower[i] == text::ascii_lower(b[i]));
    }
    assert(text::simple_lowercase(a) =~= text::simple_lowercase(b));
    if text::lowers_to_ascii(a) {
        assert forall|i: int| 0 <= i < b.len() implies (text::is_ascii_char(#[trigger] b[i])
            || b[i] == text::KELVIN_SIGN) by {
            assert(text::is_ascii_char(a[i]) || a[i] == text::KELVIN_SIGN);
        }
    }
    if text::lowers_to_ascii(b) {
        assert forall|i: int| 0 <= i < a.len() implies (text::is_ascii_char(#[trigger] a[i])
            || a[i] == text::KELVIN_SIGN) by {
            assert(text::is_ascii_char(b[i]) || b[i] == text::KELVIN_SIGN);
        }
    }
}

/// White space around a name does not change whether an application is a
/// process of the desktop itself.
pub proof fn law_system_process_ignores_outer_space(
    front: Seq<char>,
    s: Seq<char>,
    back: Seq<char>,
)
    requires
        forall|i: int| 0 <= i < front.len() ==> text::is_white_space(#[trigger] front[i]),
        forall|i: int| 0 <= i < back.len() ==> text::is_white_space(#[trigger] back[i]),
    ensures
        is_system_app(front + s + back) == is_system_app(s),
{
    text::lemma_trim_padded(front, s, back);
}

/// A shown name has no white space at its ends, and neither has a stem.
proof fn lemma_shown_is_trimmed(s: Seq<char>)
    ensures
        text::trim(app_stem(s)) == app_stem(s),
        text::trim(display_app_name(s)) == display_app_name(s),
{
    let k = text::CharClass::WhiteSpace;
    let inner = text::strip_suffixes(text::strip_suffixes(text::trim(s), ".exe"@), ".EXE"@);
    text::lemma_trim_ends(inner, k);
    text::lemma_trim_fixed(app_stem(s), k);
    let lower = text::lowercase(app_stem(s));
    if known_app_name(lower) is Some {
        let name = known_app_name(lower)->0;
        reveal_strlit("Google Chrome");
        reveal_strlit("Microsoft Edge");
        reveal_strlit("Brave Browser");
        reveal_strlit("Firefox");
        reveal_strlit("Safari");
        reveal_strlit("Opera");
        reveal_strlit("Vivaldi");
        reveal_strlit("Chromium");
        reveal_strlit("Arc");
        reveal_strlit("Zen Browser");
        reveal_strlit("Orion");
        reveal_strlit("QQ Browser");
        reveal_strlit("360 Browser");
        reveal_strlit("Sogou Browser");
        reveal_strlit("Visual Studio Code");
        reveal_strlit("Cursor");
        reveal_strlit("WeChat");
        text::lemma_trim_fixed(name, k);
    }
}

/// White space around a name does not change the name shown for it.
pub proof fn law_display_name_ignores_outer_space(s: Seq<char>)
    ensures
        display_app_name(text::trim(s)) == display_app_name(s),
{
    let k = text::CharClass::WhiteSpace;
    text::lemma_trim_ends(s, k);
    text::lemma_trim_fixed(text::trim(s), k);
}

/// An optional title without white space at its ends.
pub open spec fn trimmed_title(title: Option<Seq<char>>) -> Option<Seq<char>> {
    match title {
        Some(t) => Some(text::trim(t)),
        None => None,
    }
}

/// An application may be given its shown name any number of times: only white
/// space around a title that repeats the shown name may still go. This does not
/// hold of a name with two different suffixes of an executable, such as
/// `a.exe.EXE`, whose stem still has one.
pub proof fn law_app_info_is_stable(app: crate::model::AppInfoView)
    requires
        !text::ends_with(app_stem(app.name), ".exe"@),
        !text::ends_with(app_stem(app.name), ".EXE"@),
    ensures
        with_display_name(with_display_name(app)).id == app.id,
        with_display_name(with_display_name(app)).pid == app.pid,
        with_display_name(with_display_name(app)).name == with_display_name(app).name,
        trimmed_title(with_display_name(with_display_name(app)).title) == trimmed_title(
            with_display_name(app).title,
        ),
{
    law_display_name_ignores_outer_space(app.name);
    law_display_name_is_stable(app.name);
    lemma_shown_is_trimmed(app.name);
}

/// Which applications are shown under another name, by their names in lower case.
pub proof fn law_known_apps(lower: Seq<char>)
    ensures
        lower == "chrome"@ || lower == "google chrome"@ ==> known_app_name(lower) == Some("Google Chrome"@),
        lower == "msedge"@ || lower == "edge"@ || lower == "microsoft edge"@ ==> known_app_name(lower) == Some("Microsoft Edge"@),
        lower == "brave"@ || lower == "brave browser"@ ==> known_app_name(lower) == Some("Brave Browser"@),
        lower == "firefox"@ || lower == "mozilla firefox"@ ==> known_app_name(lower) == Some("Firefox"@),
        lower == "safari"@ ==> known_app_name(lower) == Some("Safari"@),
        lower == "opera"@ || lower == "opera gx"@ ==> known_app_name(lower) == Some("Opera"@),
        lower == "vivaldi"@ ==> known_app_name(lower) == Some("Vivaldi"@),
        lower == "chromium"@ ==> known_app_name(lower) == Some("Chromium"@),
        lower == "arc"@ ==> known_app_name(lower) == Some("Arc"@),
        lower == "zen browser"@ || lower == "zen"@ ==> known_app_name(lower) == Some("Zen Browser"@),
        lower == "orion"@ ==> known_app_name(lower) == Some("Orion"@),
        lower == "qqbrowser"@ || lower == "qq browser"@ || lower == "qq浏览器"@ ==> known_app_name(lower) == Some("QQ Browser"@),
        lower == "360se"@ || lower == "360chrome"@ || lower == "360 browser"@ || lower == "360浏览器"@ ==> known_app_name(lower) == Some("360 Browser"@),
        lower == "sogouexplorer"@ || lower == "sogou browser"@ || lower == "搜狗浏览器"@ ==> known_app_name(lower) == Some("Sogou Browser"@),
        lower == "code"@ || lower == "visual studio code"@ ==> known_app_name(lower) == Some("Visual Studio Code"@),
        lower == "cursor"@ ==> known_app_name(lower) == Some("Cursor"@),
        lower == "wechat"@ ==> known_app_name(lower) == Some("WeChat"@),
        known_app_name(lower) is Some ==> {
            ||| lower == "chrome"@
            ||| lower == "google chrome"@
            ||| lower == "msedge"@
            ||| lower == "edge"@
            ||| lower == "microsoft edge"@
            ||| lower == "brave"@
            ||| lower == "brave browser"@
            ||| lower == "firefox"@
            ||| lower == "mozilla firefox"@
            ||| lower == "safari"@
            ||| lower == "opera"@
            ||| lower == "opera gx"@
            ||| lower == "vivaldi"@
            ||| lower == "chromium"@
            ||| lower == "arc"@
            ||| lower == "zen browser"@
            ||| lower == "zen"@
            ||| lower == "orion"@
            ||| lower == "qqbrowser"@
            ||| lower == "qq browser"@
            ||| lower == "qq浏览器"@
            ||| lower == "360se"@
            ||| lower == "360chrome"@
            ||| lower == "360 browser"@
            ||| lower == "360浏览器"@
            ||| lower == "sogouexplorer"@
            ||| lower == "sogou browser"@
            ||| lower == "搜狗浏览器"@
            ||| lower == "code"@
            ||| lower == "visual studio code"@
            ||| lower == "cursor"@
            ||| lower == "wechat"@
        },
{
    lemma_table_names();
}

/// A name that is shown as another is shown as the table says; every other name is
/// shown as it is, without outer white space and without the suffix of an
/// executable.
pub proof fn law_shown_name(s: Seq<char>)
    ensures
        known_app_name(text::lowercase(app_stem(s))) matches Some(name) ==> display_app_name(s)
            == name,
        known_app_name(text::lowercase(app_stem(s))) is None ==> display_app_name(s) == app_stem(s),
        text::all_ascii(app_stem(s)) ==> text::lowercase(app_stem(s)) == text::ascii_lowercase(
            app_stem(s),
        ),
{
    let stem = app_stem(s);
    if text::all_ascii(stem) {
        assert(text::all_simple_case(stem)) by {
            assert forall|i: int| 0 <= i < stem.len() implies text::is_simple_case(
                #[trigger] stem[i],
            ) by {
                assert(text::is_ascii_char(stem[i]));
            }
        }
        assert forall|i: int| 0 <= i < stem.len() implies text::simple_lower(#[trigger] stem[i])
            == text::ascii_lower(stem[i]) by {
            assert(text::is_ascii_char(stem[i]));
        }
        assert(text::simple_lowercase(stem) =~= text::ascii_lowercase(stem));
    }
}

/// The stem of a name is the name, but for white space around it and the suffixes
/// of an executable behind it: nothing else is cut, and both are.
pub proof fn law_stem(front: Seq<char>, s: Seq<char>, back: Seq<char>, gap: Seq<char>)
    requires
        forall|i: int| 0 <= i < front.len() ==> text::is_white_space(#[trigger] front[i]),
        forall|i: int| 0 <= i < back.len() ==> text::is_white_space(#[trigger] back[i]),
        forall|i: int| 0 <= i < gap.len() ==> text::is_white_space(#[trigger] gap[i]),
        s.len() > 0,
        !text::is_white_space(s[0]) && !text::is_white_space(s.last()),
    ensures
        app_stem(front + s + back) == app_stem(s),
        app_stem(s + ".exe"@) == app_stem(s),
        !text::ends_with(s, ".exe"@) && !text::ends_with(s, ".EXE"@) ==> {
            &&& app_stem(s) == s
            &&& app_stem(s + gap + ".exe"@) == s
            &&& app_stem(s + gap + ".EXE"@) == s
        },
        text::ends_with(s, ".EXE"@) ==> app_stem(s + ".EXE"@) == app_stem(s),
        text::ends_with(s, ".exe"@) ==> app_stem(s + ".EXE"@) == s,
{
    reveal_strlit(".exe");
    reveal_strlit(".EXE");
    let k = text::CharClass::WhiteSpace;
    text::lemma_trim_padded(front, s, back);
    text::lemma_trim_fixed(s, k);
    text::lemma_trim_appended(s, ".exe"@);
    text::lemma_trim_appended(s, ".EXE"@);
    text::lemma_strip_appended(s, ".exe"@);
    text::lemma_strip_appended(s, ".EXE"@);
    lemma_upper_is_not_lower(s);
    if text::ends_with(s, ".exe"@) {
        lemma_lower_is_not_upper(s);
    }
    if text::ends_with(s, ".EXE"@) {
        assert(!text::ends_with(s, ".exe"@)) by {
            let n = s.len() as int;
            assert(s.subrange(n - 4, n - 4 + 4)[3] == s[n - 1]);
        }
    }
    if !text::ends_with(s, ".exe"@) && !text::ends_with(s, ".EXE"@) {
        lemma_gap_before_suffix(s, gap, ".exe"@);
        lemma_gap_before_suffix(s, gap, ".EXE"@);
    }
}

/// What ends in `.EXE` does not end in `.exe`.
proof fn lemma_upper_is_not_lower(s: Seq<char>)
    ensures
        !text::ends_with(s + ".EXE"@, ".exe"@),
{
    reveal_strlit(".exe");
    reveal_strlit(".EXE");
    let whole = s + ".EXE"@;
    let n = whole.len() as int;
    if text::ends_with(whole, ".exe"@) {
        assert(whole.subrange(n - 4, n - 4 + 4)[3] == whole[n - 1]);
    }
}

/// What ends in `.exe` does not end in `.EXE`.
proof fn lemma_lower_is_not_upper(s: Seq<char>)
    requires
        text::ends_with(s, ".exe"@),
    ensures
        !text::ends_with(s, ".EXE"@),
{
    reveal_strlit(".exe");
    reveal_strlit(".EXE");
    let n = s.len() as int;
    assert(s.subrange(n - 4, n - 4 + 4)[3] == s[n - 1]);
}

/// White space before the suffix goes with it.
proof fn lemma_gap_before_suffix(s: Seq<char>, gap: Seq<char>, suffix: Seq<char>)
    requires
        forall|i: int| 0 <= i < gap.len() ==> text::is_white_space(#[trigger] gap[i]),
        s.len() > 0,
        !text::is_white_space(s[0]) && !text::is_white_space(s.last()),
        !text::ends_with(s, ".exe"@) && !text::ends_with(s, ".EXE"@),
        suffix == ".exe"@ || suffix == ".EXE"@,
    ensures
        app_stem(s + gap + suffix) == s,
{
    reveal_strlit(".exe");
    reveal_strlit(".EXE");
    let k = text::CharClass::WhiteSpace;
    let spaced = s + gap;
    let whole = spaced + suffix;
    let none = Seq::<char>::empty();
    assert(whole[0] == s[0]);
    assert(whole.last() == suffix.last());
    text::lemma_trim_fixed(whole, k);
    text::law_trim_takes_the_ends(none, s, gap, k);
    assert(none + s + gap =~= spaced);
    assert(!text::ends_with(spaced, ".exe"@) && !text::ends_with(spaced, ".EXE"@)) by {
        let n = spaced.len() as int;
        if gap.len() > 0 {
            assert(text::is_white_space(gap[gap.len() - 1]));
            assert(spaced[n - 1] == gap[gap.len() - 1]);
            if text::ends_with(spaced, ".exe"@) {
                assert(spaced.subrange(n - 4, n - 4 + 4)[3] == spaced[n - 1]);
            }
            if text::ends_with(spaced, ".EXE"@) {
                assert(spaced.subrange(n - 4, n - 4 + 4)[3] == spaced[n - 1]);
            }
        } else {
            assert(spaced =~= s);
        }
    }
    lemma_upper_is_not_lower(spaced);
    text::lemma_strip_appended(spaced, ".exe"@);
    text::lemma_strip_appended(spaced, ".EXE"@);
}

/// The compared name is the shown name with its ASCII letters in lower case, and
/// nothing else.
pub proof fn law_compared_name(s: Seq<char>)
    ensures
        match_name(s) == text::ascii_lowercase(display_app_name(s)),
{
    lemma_shown_is_trimmed(s);
}

/// The processes of the desktop are those of this list, by a name without outer
/// white space and without `.exe`, in upper or lower case.
pub proof fn law_system_processes(s: Seq<char>)
    requires
        s.len() > 0 ==> !text::is_white_space(s[0]) && !text::is_white_space(s.last()),
        text::all_ascii(s),
        !text::ends_with(text::ascii_lowercase(s), ".exe"@),
    ensures
        is_system_app(s) <==> {
            let name = text::ascii_lowercase(s);
            ||| name == "desktop"@
            ||| name == "lockapp"@
            ||| name == "logonui"@
            ||| name == "searchapp"@
            ||| name == "searchhost"@
            ||| name == "shellexperiencehost"@
            ||| name == "startmenuexperiencehost"@
            ||| name == "textinputhost"@
            ||| name == "applicationframehost"@
            ||| name == "dwm"@
            ||| name == "csrss"@
            ||| name == "taskmgr"@
            ||| name == "loginwindow"@
            ||| name == "screensaverengine"@
            ||| name == "screensaver"@
            ||| name == "cinnamon-session"@
            ||| name == "cinnamon-screensaver"@
            ||| name == "gnome-shell"@
            ||| name == "gnome-screensaver"@
            ||| name == "plasmashell"@
            ||| name == "kscreenlocker"@
            ||| name == "xscreensaver"@
            ||| name == "i3lock"@
            ||| name == "swaylock"@
            ||| name == "xfce4-session"@
        },
{
    text::lemma_trim_fixed(s, text::CharClass::WhiteSpace);
    assert forall|i: int| 0 <= i < s.len() implies text::simple_lower(#[trigger] s[i])
        == text::ascii_lower(s[i]) by {
        assert(text::is_ascii_char(s[i]));
    }
    assert(text::simple_lowercase(s) =~= text::ascii_lowercase(s));
    assert(text::lowers_to_ascii(s)) by {
        assert forall|i: int| 0 <= i < s.len() implies (text::is_ascii_char(#[trigger] s[i])
            || s[i] == text::KELVIN_SIGN) by {}
    }
}

/// A name with a character outside of ASCII is none of a process of the desktop,
/// unless that is the Kelvin sign, which counts as the letter `k`.
pub proof fn law_system_processes_are_ascii(a: Seq<char>, c: char, b: Seq<char>)
    requires
        !text::is_ascii_char(c),
        !text::is_white_space(c),
    ensures
        c != text::KELVIN_SIGN ==> !is_system_app(a.push(c) + b),
        c == text::KELVIN_SIGN ==> is_system_app(a.push(c) + b) == is_system_app(a.push('k') + b),
{
    let k = text::CharClass::WhiteSpace;
    let s = a.push(c) + b;
    let t = a.push('k') + b;
    let n = a.len() as int;
    assert(s[n] == c);
    let (from, to) = lemma_trim_range(s, n);
    assert(text::trim(s)[n - from] == c);
    if c == text::KELVIN_SIGN {
        assert forall|i: int| 0 <= i < s.len() && i != n implies s[i] == t[i] by {
            if i < n {
                assert(s[i] == a[i] && t[i] == a[i]);
            } else {
                assert(s[i] == b[i - n - 1] && t[i] == b[i - n - 1]);
            }
        }
        let x = text::trim(s);
        let y = t.subrange(from, to);
        assert forall|i: int| 0 <= i < from implies k.has(#[trigger] t.take(from)[i]) by {
            assert(s[i] == t[i]);
        }
        assert forall|i: int| 0 <= i < t.len() - to implies k.has(#[trigger] t.skip(to)[i]) by {
            assert(s[i + to] == t[i + to]);
        }
        assert(y[0] == t[from] && y.last() == t[to - 1]);
        text::law_trim_takes_the_ends(t.take(from), y, t.skip(to), k);
        assert(t.take(from) + y + t.skip(to) =~= t);
        assert forall|i: int| 0 <= i < x.len() implies text::simple_lower(#[trigger] x[i])
            == text::simple_lower(y[i]) && (text::is_ascii_char(x[i]) || x[i] == text::KELVIN_SIGN)
            == (text::is_ascii_char(y[i]) || y[i] == text::KELVIN_SIGN) by {
            assert(x[i] == s[from + i] && y[i] == t[from + i]);
        }
        assert(text::simple_lowercase(x) =~= text::simple_lowercase(y));
        assert(text::lowers_to_ascii(x) == text::lowers_to_ascii(y)) by {
            if text::lowers_to_ascii(x) {
                assert forall|i: int| 0 <= i < y.len() implies (text::is_ascii_char(#[trigger] y[i])
                    || y[i] == text::KELVIN_SIGN) by {
                    assert(text::is_ascii_char(x[i]) || x[i] == text::KELVIN_SIGN);
                }
            }
            if text::lowers_to_ascii(y) {
                assert forall|i: int| 0 <= i < x.len() implies (text::is_ascii_char(#[trigger] x[i])
                    || x[i] == text::KELVIN_SIGN) by {
                    assert(text::is_ascii_char(y[i]) || y[i] == text::KELVIN_SIGN);
                }
            }
        }
    }
}

/// What trimming leaves of a text with something other than white space at `n`.
proof fn lemma_trim_range(s: Seq<char>, n: int) -> (r: (int, int))
    requires
        0 <= n < s.len(),
        !text::is_white_space(s[n]),
    ensures
        0 <= r.0 <= n < r.1 <= s.len(),
        text::trim(s) == s.subrange(r.0, r.1),
        forall|i: int| 0 <= i < r.0 ==> text::is_white_space(#[trigger] s[i]),
        forall|i: int| r.1 <= i < s.len() ==> text::is_white_space(#[trigger] s[i]),
        !text::is_white_space(s[r.0]) && !text::is_white_space(s[r.1 - 1]),
    decreases s.len(),
{
    let k = text::CharClass::WhiteSpace;
    let none = Seq::<char>::empty();
    if text::is_white_space(s[0]) {
        let rest = s.drop_first();
        assert(rest[n - 1] == s[n]);
        let (from, to) = lemma_trim_range(rest, n - 1);
        text::lemma_trim_padded(seq![s[0]], rest, none);
        assert(seq![s[0]] + rest + none =~= s);
        assert(rest.subrange(from, to) =~= s.subrange(from + 1, to + 1));
        assert(rest[from] == s[from + 1] && rest[to - 1] == s[to]);
        assert forall|i: int| 0 <= i < from + 1 implies text::is_white_space(#[trigger] s[i]) by {
            if i > 0 {
                assert(rest[i - 1] == s[i]);
            }
        }
        assert forall|i: int| to + 1 <= i < s.len() implies text::is_white_space(
            #[trigger] s[i],
        ) by {
            assert(rest[i - 1] == s[i]);
        }
        (from + 1, to + 1)
    } else if text::is_white_space(s.last()) {
        let rest = s.drop_last();
        assert(rest[n] == s[n]);
        let (from, to) = lemma_trim_range(rest, n);
        text::lemma_trim_padded(none, rest, seq![s.last()]);
        assert(none + rest + seq![s.last()] =~= s);
        assert(rest.subrange(from, to) =~= s.subrange(from, to));
        assert(rest[from] == s[from] && rest[to - 1] == s[to - 1]);
        assert forall|i: int| 0 <= i < from implies text::is_white_space(#[trigger] s[i]) by {
            assert(rest[i] == s[i]);
        }
        assert forall|i: int| to <= i < s.len() implies text::is_white_space(#[trigger] s[i]) by {
            if i < rest.len() {
                assert(rest[i] == s[i]);
            }
        }
        (from, to)
    } else {
        text::lemma_trim_fixed(s, k);
        assert(s.subrange(0, s.len() as int) =~= s);
        (0, s.len() as int)
    }
}

/// An application keeps its identifier and process, and gets the name that is
/// shown for it. Its title follows where it only repeats the name, white space
/// around either aside, and stays otherwise.
pub proof fn law_app_gets_its_shown_name(app: crate::model::AppInfoView, title: Seq<char>)
    ensures
        with_display_name(app).id == app.id,
        with_display_name(app).pid == app.pid,
        with_display_name(app).name == display_app_name(app.name),
        app.title is None ==> with_display_name(app).title is None,
        app.title == Some(title) && text::trim(title) == text::trim(app.name)
            ==> with_display_name(app).title == Some(display_app_name(app.name)),
        app.title == Some(title) && text::trim(title) != text::trim(app.name)
            ==> with_display_name(app).title == Some(title),
{
    law_display_name_ignores_outer_space(app.name);
}

} // verus!
