use eyes_on_me::model::{AppInfo, BrowserContext};
use eyes_on_me::platform::delivery::{
    send_activity, Delivery, SendOutcome, CHANNEL_BACKPRESSURE_MAX_RETRIES,
    CHANNEL_BACKPRESSURE_RETRY_MS,
};
use eyes_on_me::platform::domains::{
    bare_host_of, domain_from, normalize_domain_rule, rule_covers, UrlHost,
};
use eyes_on_me::platform::filters::{
    apply_capture_filters, matches_ignored_app, matches_ignored_domain, CaptureFilters,
};
use eyes_on_me::platform::names::{
    display_name_of, is_system_lower, is_system_process, known_app, normalize_app_info,
    normalize_display_app_name, normalize_match_name, stem_of,
};

fn app(id: &str, name: &str, title: Option<&str>) -> AppInfo {
    AppInfo {
        id: id.to_string(),
        name: name.to_string(),
        title: title.map(|t| t.to_string()),
        pid: Some(42),
    }
}

fn page(url: Option<&str>, domain: Option<&str>) -> BrowserContext {
    BrowserContext {
        family: "chromium".to_string(),
        name: "Google Chrome".to_string(),
        page_title: Some("GitHub - Pull Requests".to_string()),
        url: url.map(|u| u.to_string()),
        domain: domain.map(|d| d.to_string()),
        source: "test".to_string(),
        confidence_bits: 0.9f32.to_bits(),
    }
}

fn filters(apps: &[&str], domains: &[&str]) -> CaptureFilters {
    CaptureFilters {
        ignored_apps: apps.iter().map(|a| a.to_string()).collect(),
        ignored_domains: domains.iter().map(|d| d.to_string()).collect(),
    }
}

fn rule(value: &str) -> Option<String> {
    normalize_domain_rule(value)
}

#[test]
fn normalizes_common_app_names() {
    assert_eq!(normalize_display_app_name("chrome.exe"), "Google Chrome");
    assert_eq!(normalize_display_app_name("msedge"), "Microsoft Edge");
    assert_eq!(normalize_display_app_name("code"), "Visual Studio Code");
}

#[test]
fn detects_system_processes() {
    assert!(is_system_process("ScreenSaverEngine"));
    assert!(is_system_process("dwm.exe"));
    assert!(!is_system_process("Google Chrome"));
}

#[test]
fn drops_event_when_channel_stays_full() {
    let (tx, mut rx) = tokio::sync::mpsc::channel(1);
    tx.try_send("first").expect("fill channel");

    let mut event = "second";
    let mut delivery = send_activity(2);
    let mut offers = 0;
    while let Delivery::Offering { .. } = delivery {
        offers += 1;
        let outcome = match tx.try_send(event) {
            Ok(()) => SendOutcome::Sent,
            Err(tokio::sync::mpsc::error::TrySendError::Full(returned)) => {
                event = returned;
                SendOutcome::Full
            }
            Err(tokio::sync::mpsc::error::TrySendError::Closed(_)) => SendOutcome::Closed,
        };
        delivery = delivery.after(outcome);
    }

    assert!(!delivery.result().unwrap());
    assert_eq!(offers, 2);
    let kept = rx.try_recv().expect("original event remains buffered");
    assert_eq!(kept, "first");
}

#[test]
fn filters_ignored_apps_to_generic_activity() {
    let filtered = apply_capture_filters(
        &CaptureFilters {
            ignored_apps: vec!["WeChat".to_string()],
            ignored_domains: Vec::new(),
        },
        AppInfo {
            id: "/Applications/WeChat.app".to_string(),
            name: "WeChat".to_string(),
            title: Some("Team Chat".to_string()),
            pid: Some(42),
        },
        Some("Team Chat".to_string()),
        None,
    );

    assert_eq!(filtered.app.name, "Ignored Application");
    assert_eq!(
        filtered.window_title.as_deref(),
        Some("Ignored Application")
    );
    assert!(filtered.browser.is_none());
    assert_eq!(filtered.app.id, "filtered.app");
    assert_eq!(filtered.app.title.as_deref(), Some("Ignored Application"));
    assert_eq!(filtered.app.pid, None);
}

#[test]
fn filters_ignored_domains_without_hiding_browser_app() {
    let filtered = apply_capture_filters(
        &CaptureFilters {
            ignored_apps: Vec::new(),
            ignored_domains: vec!["github.com".to_string()],
        },
        AppInfo {
            id: "com.google.Chrome".to_string(),
            name: "Google Chrome".to_string(),
            title: Some("GitHub".to_string()),
            pid: Some(42),
        },
        Some("GitHub - Pull Requests".to_string()),
        Some(BrowserContext {
            family: "chromium".to_string(),
            name: "Google Chrome".to_string(),
            page_title: Some("GitHub - Pull Requests".to_string()),
            url: Some("https://docs.github.com/en".to_string()),
            domain: Some("docs.github.com".to_string()),
            source: "test".to_string(),
            confidence_bits: 0.9f32.to_bits(),
        }),
    );

    assert_eq!(filtered.app.name, "Google Chrome");
    assert_eq!(filtered.window_title.as_deref(), Some("Ignored Website"));
    assert!(filtered.browser.is_none());
    assert_eq!(filtered.app.title.as_deref(), Some("Ignored Website"));
    assert_eq!(filtered.app.id, "com.google.Chrome");
    assert_eq!(filtered.app.pid, Some(42));
}

#[test]
fn unfiltered_capture_stays_as_it_is() {
    let filtered = apply_capture_filters(
        &filters(&[], &[]),
        app("/usr/bin/gimp", "GIMP", Some("Picture")),
        Some("Picture - GIMP".to_string()),
        Some(page(Some("https://example.org/a"), None)),
    );
    assert_eq!(filtered.app.id, "/usr/bin/gimp");
    assert_eq!(filtered.app.name, "GIMP");
    assert_eq!(filtered.app.title.as_deref(), Some("Picture"));
    assert_eq!(filtered.window_title.as_deref(), Some("Picture - GIMP"));
    let browser = filtered.browser.expect("page stays");
    assert_eq!(browser.url.as_deref(), Some("https://example.org/a"));
    assert_eq!(f32::from_bits(browser.confidence_bits), 0.9f32);
}

#[test]
fn ignored_app_leaves_the_same_whatever_was_captured() {
    let hidden = filters(&["WeChat", "notes"], &[]);
    let a = apply_capture_filters(&hidden, app("a/b", "WeChat", Some("x")), None, None);
    let b = apply_capture_filters(
        &hidden,
        app("Notes.exe", "Notes", None),
        Some("secret".to_string()),
        Some(page(None, Some("example.org"))),
    );
    assert_eq!(a.app.name, b.app.name);
    assert_eq!(a.app.id, b.app.id);
    assert_eq!(a.app.title, b.app.title);
    assert_eq!(a.window_title, b.window_title);
    assert!(a.browser.is_none() && b.browser.is_none());
}

#[test]
fn app_rules_match_names_identifiers_and_parts() {
    let by_alias = filters(&["chrome.exe"], &[]);
    assert!(matches_ignored_app(&by_alias, &app("x", "Google Chrome", None)));
    let by_part = filters(&["visual studio"], &[]);
    assert!(matches_ignored_app(&by_part, &app("x", "code", None)));
    let longer = filters(&["Slack Technologies"], &[]);
    assert!(matches_ignored_app(&longer, &app("x", "Slack", None)));
    let by_id = filters(&["secret"], &[]);
    assert!(matches_ignored_app(
        &by_id,
        &app("C:\\Tools\\Secret.exe", "Tool", None)
    ));
    assert!(!matches_ignored_app(
        &by_id,
        &app("/opt/secret/tool", "Tool", None)
    ));
    assert!(!matches_ignored_app(&filters(&["  ", ".exe"], &[]), &app("x", "Tool", None)));
    assert!(!matches_ignored_app(&filters(&[], &[]), &app("", "", None)));
    // Nothing is left of the identifier, and nothing stands in every rule.
    assert!(matches_ignored_app(&filters(&["abc"], &[]), &app("dir/", "Tool", None)));
}

#[test]
fn more_rules_hide_no_less() {
    let one = filters(&["slack"], &["example.org"]);
    let two = filters(&["slack", "teams"], &["example.org", "github.com"]);
    assert!(matches_ignored_app(&one, &app("x", "Slack", None)));
    assert!(matches_ignored_app(&two, &app("x", "Slack", None)));
    let shown = Some(page(None, Some("example.org")));
    assert!(matches_ignored_domain(&one, &shown));
    assert!(matches_ignored_domain(&two, &shown));
}

#[test]
fn domain_of_a_page_comes_from_its_field_or_its_address() {
    let hidden = filters(&[], &["GitHub.com"]);
    assert!(matches_ignored_domain(&hidden, &Some(page(None, Some("github.com")))));
    assert!(matches_ignored_domain(
        &hidden,
        &Some(page(Some("https://docs.github.com/en"), None))
    ));
    assert!(matches_ignored_domain(
        &hidden,
        &Some(page(Some("https://github.com"), Some("  ")))
    ));
    assert!(!matches_ignored_domain(
        &hidden,
        &Some(page(Some("https://github.com"), Some("example.org")))
    ));
    assert!(!matches_ignored_domain(&hidden, &Some(page(None, None))));
    assert!(!matches_ignored_domain(&hidden, &None));
    assert!(!matches_ignored_domain(&filters(&[], &[]), &Some(page(None, Some("github.com")))));
    assert!(!matches_ignored_domain(&filters(&[], &["", "mailto:a"]), &Some(page(None, Some("a")))));
}

#[test]
fn domain_rules_are_read_from_addresses_and_bare_hosts() {
    assert_eq!(rule("GitHub.com").as_deref(), Some("github.com"));
    assert_eq!(rule("  example.org  ").as_deref(), Some("example.org"));
    assert_eq!(
        rule("https://User@Docs.GitHub.com:8443/en?x#y").as_deref(),
        Some("docs.github.com")
    );
    assert_eq!(rule("http://[::1]:80/").as_deref(), Some("[::1]"));
    assert_eq!(rule("http://127.0.0.1/").as_deref(), Some("127.0.0.1"));
    assert_eq!(rule("github.com/path?q=a:b").as_deref(), Some("github.com"));
    assert_eq!(rule("github.com#top").as_deref(), Some("github.com"));
    assert_eq!(rule("127.0.0.1:8080").as_deref(), Some("127.0.0.1"));
    assert_eq!(rule(".example.org.").as_deref(), Some("example.org"));
    assert_eq!(rule("*.example.org").as_deref(), Some("*.example.org"));
    assert_eq!(rule("https://\u{fc}ber.example/").as_deref(), Some("xn--ber-goa.example"));
    // A bare host with a port reads as a scheme, and has no host.
    assert_eq!(rule("localhost:8080"), None);
    assert_eq!(rule("mailto:someone@example.org"), None);
    assert_eq!(rule(""), None);
    assert_eq!(rule(" \t "), None);
    assert_eq!(rule("..."), None);
    assert_eq!(rule("/path"), None);
}

#[test]
fn bare_hosts_lose_scheme_user_port_and_dots() {
    assert_eq!(
        bare_host_of("https://http://A.b:80/x").as_deref(),
        Some("a.b")
    );
    assert_eq!(bare_host_of("me@you@host:").as_deref(), Some("host"));
    assert_eq!(bare_host_of("host:port").as_deref(), Some("host:port"));
    assert_eq!(bare_host_of("a.b. /x").as_deref(), Some("a.b"));
    assert_eq!(bare_host_of("@:1"), None);
}

#[test]
fn parsed_host_decides_over_the_text() {
    let parsed = |domain: Option<&str>, host: Option<&str>| {
        Some(UrlHost {
            domain: domain.map(|d| d.to_string()),
            host: host.map(|h| h.to_string()),
        })
    };
    assert_eq!(domain_from("x", parsed(Some("A.B"), Some("c"))).as_deref(), Some("a.b"));
    assert_eq!(domain_from("x", parsed(None, Some("[::F]"))).as_deref(), Some("[::f]"));
    assert_eq!(domain_from("x", parsed(None, None)), None);
    assert_eq!(domain_from("X.y", None).as_deref(), Some("x.y"));
}

#[test]
fn rules_cover_subdomains_by_whole_labels() {
    assert!(rule_covers("github.com", "github.com"));
    assert!(rule_covers("github.com", "docs.github.com"));
    assert!(rule_covers("github.com", "a.docs.github.com"));
    assert!(!rule_covers("github.com", "notgithub.com"));
    assert!(!rule_covers("github.com", "github.com.evil.org"));
    assert!(!rule_covers("docs.github.com", "github.com"));
}

#[test]
fn display_names_of_the_table() {
    let table = [
        ("google chrome", "Google Chrome"),
        ("edge", "Microsoft Edge"),
        ("microsoft edge", "Microsoft Edge"),
        ("brave", "Brave Browser"),
        ("brave browser", "Brave Browser"),
        ("firefox", "Firefox"),
        ("mozilla firefox", "Firefox"),
        ("safari", "Safari"),
        ("opera", "Opera"),
        ("opera gx", "Opera"),
        ("vivaldi", "Vivaldi"),
        ("chromium", "Chromium"),
        ("arc", "Arc"),
        ("zen browser", "Zen Browser"),
        ("zen", "Zen Browser"),
        ("orion", "Orion"),
        ("qqbrowser", "QQ Browser"),
        ("qq browser", "QQ Browser"),
        ("qq浏览器", "QQ Browser"),
        ("360se", "360 Browser"),
        ("360chrome", "360 Browser"),
        ("360 browser", "360 Browser"),
        ("360浏览器", "360 Browser"),
        ("sogouexplorer", "Sogou Browser"),
        ("sogou browser", "Sogou Browser"),
        ("搜狗浏览器", "Sogou Browser"),
        ("visual studio code", "Visual Studio Code"),
        ("cursor", "Cursor"),
        ("wechat", "WeChat"),
    ];
    for (lower, shown) in table {
        assert_eq!(known_app(lower), Some(shown));
        assert_eq!(normalize_display_app_name(lower), shown);
        assert_eq!(normalize_display_app_name(shown), shown);
    }
    assert_eq!(known_app("Chrome"), None);
    assert_eq!(normalize_display_app_name("  QQ浏览器.exe "), "QQ Browser");
    assert_eq!(normalize_display_app_name("CHROME.EXE"), "Google Chrome");
    assert_eq!(normalize_display_app_name("My Tool.exe.exe"), "My Tool");
    assert_eq!(normalize_display_app_name("Tool.Exe"), "Tool.Exe");
    assert_eq!(normalize_display_app_name(" \u{3000}"), "");
    assert_eq!(display_name_of("Stem", "zen"), "Zen Browser");
    assert_eq!(display_name_of("Stem", "stem"), "Stem");
    assert_eq!(stem_of(" a.exe.EXE "), "a.exe");
}

#[test]
fn display_names_are_stable_and_ignore_exe() {
    for name in ["Some App", "VIVALDI", "Ünïcode", "a.b", ""] {
        let once = normalize_display_app_name(name);
        assert_eq!(normalize_display_app_name(&once), once);
        assert_eq!(normalize_match_name(&once), normalize_match_name(name));
    }
    assert_eq!(
        normalize_display_app_name("firefox.exe"),
        normalize_display_app_name("firefox")
    );
    assert_eq!(normalize_match_name(" Foo Bar.exe"), "foo bar");
    // Only ASCII letters are lowered for matching.
    assert_eq!(normalize_match_name("ÜBER App"), "Über app");
}

#[test]
fn system_processes_by_any_case_and_suffix() {
    for name in [
        "desktop", "lockapp", "logonui", "searchapp", "searchhost", "shellexperiencehost",
        "startmenuexperiencehost", "textinputhost", "applicationframehost", "dwm", "csrss",
        "taskmgr", "loginwindow", "screensaverengine", "screensaver", "cinnamon-session",
        "cinnamon-screensaver", "gnome-shell", "gnome-screensaver", "plasmashell",
        "kscreenlocker", "xscreensaver", "i3lock", "swaylock", "xfce4-session",
    ] {
        assert!(is_system_lower(name));
        assert!(is_system_process(name));
        assert!(is_system_process(&name.to_uppercase()));
        assert!(is_system_process(&format!(" {}.EXE.exe ", name)));
    }
    // The lower case of the Kelvin sign is the letter k.
    assert!(is_system_process("\u{212a}screenlocker"));
    assert!(!is_system_process(""));
    assert!(!is_system_lower("dwm.exe "));
    assert!(is_system_lower("dwm.exe.exe"));
}

#[test]
fn app_info_gets_its_shown_name() {
    let repeated = normalize_app_info(app("id", " chrome.exe ", Some("chrome.exe")));
    assert_eq!(repeated.name, "Google Chrome");
    assert_eq!(repeated.title.as_deref(), Some("Google Chrome"));
    assert_eq!(repeated.id, "id");
    assert_eq!(repeated.pid, Some(42));
    let own_title = normalize_app_info(app("id", "chrome", Some("Inbox")));
    assert_eq!(own_title.name, "Google Chrome");
    assert_eq!(own_title.title.as_deref(), Some("Inbox"));
    let untitled = normalize_app_info(app("id", "Tool", None));
    assert_eq!(untitled.title, None);
}

#[test]
fn deliveries_end_with_the_first_answer() {
    assert_eq!(CHANNEL_BACKPRESSURE_RETRY_MS, 200);
    assert_eq!(SendOutcome::Full.pause_ms(), 200);
    assert_eq!(SendOutcome::Sent.pause_ms(), 0);
    assert_eq!(SendOutcome::Closed.pause_ms(), 0);
    let start = send_activity(CHANNEL_BACKPRESSURE_MAX_RETRIES);
    assert_eq!(start, Delivery::Offering { left: 15 });
    assert_eq!(start.result(), None);
    let sent = start.after(SendOutcome::Full).after(SendOutcome::Sent);
    assert_eq!(sent, Delivery::Delivered);
    assert_eq!(sent.result(), Some(true));
    assert_eq!(sent.after(SendOutcome::Closed), Delivery::Delivered);
    let closed = start.after(SendOutcome::Closed);
    assert_eq!(closed, Delivery::DroppedClosed);
    assert_eq!(closed.result(), Some(false));
    let mut full = start;
    for _ in 0..14 {
        full = full.after(SendOutcome::Full);
        assert_eq!(full.result(), None);
    }
    full = full.after(SendOutcome::Full);
    assert_eq!(full, Delivery::DroppedFull);
    assert_eq!(full.result(), Some(false));
    assert_eq!(send_activity(0), Delivery::DroppedFull);
}

#[test]
fn filtering_twice_is_filtering_once() {
    let rules = filters(&["WeChat"], &["github.com"]);
    let captures = [
        (app("w", "WeChat", Some("Chat")), None),
        (app("c", "Google Chrome", Some("PR")), Some(page(None, Some("docs.github.com")))),
        (app("c", "Google Chrome", Some("News")), Some(page(None, Some("example.org")))),
    ];
    for (a, b) in captures {
        let once = apply_capture_filters(&rules, a, Some("t".to_string()), b);
        let again = apply_capture_filters(
            &rules,
            once.app.clone(),
            once.window_title.clone(),
            once.browser.clone(),
        );
        assert_eq!(format!("{:?}", again), format!("{:?}", once));
    }
}

#[test]
fn shown_names_are_given_once() {
    let once = normalize_app_info(app("c", " chrome.exe ", Some("chrome.exe")));
    assert_eq!(once.name, "Google Chrome");
    assert_eq!(once.title.as_deref(), Some("Google Chrome"));
    let again = normalize_app_info(once.clone());
    assert_eq!(format!("{:?}", again), format!("{:?}", once));
    assert_eq!(normalize_display_app_name("\tcode\n"), "Visual Studio Code");

    let spaced = normalize_app_info(app("c", "chrome", Some(" Google Chrome ")));
    assert_eq!(spaced.title.as_deref(), Some(" Google Chrome "));
    assert_eq!(normalize_app_info(spaced).title.as_deref(), Some("Google Chrome"));
}

#[test]
fn filters_see_through_shown_names() {
    let rules = filters(&["chrome"], &[]);
    for name in ["chrome.exe", "CHROME", "Google Chrome", "firefox", "notes"] {
        let captured = app("x", name, None);
        let shown = normalize_app_info(captured.clone());
        assert_eq!(
            matches_ignored_app(&rules, &shown),
            matches_ignored_app(&rules, &captured)
        );
    }
    assert!(matches_ignored_app(&rules, &app("x", "chrome.exe", None)));
    assert!(!matches_ignored_app(&rules, &app("x", "firefox", None)));
}

#[test]
fn only_k_and_the_kelvin_sign_lower_to_k() {
    for c in '\u{0}'..=char::MAX {
        let lower = c.to_lowercase().to_string();
        if lower != c.to_string() || c == 'k' {
            let name = format!("tas{}mgr", c);
            let expected = c == 'k' || c == 'K' || c == '\u{212a}';
            assert_eq!(is_system_process(&name), expected, "{:?}", c);
            let outside = !c.is_ascii() && c != '\u{212a}';
            assert!(!(outside && lower.is_ascii()), "{:?}", c);
        }
    }
}

#[test]
fn executables_are_shown_without_their_suffix() {
    for s in ["code", "Notes", "Straße", ""] {
        let shown = normalize_display_app_name(s);
        assert_eq!(normalize_display_app_name(&format!("{}.exe", s)), shown);
        assert_eq!(normalize_display_app_name(&format!("{}.EXE", s)), shown);
    }
    assert_eq!(normalize_display_app_name("a.exe"), "a");
    assert_eq!(normalize_display_app_name("a.exe.EXE"), "a.exe");
}

#[test]
fn system_processes_of_any_script() {
    for s in ["dwm", "Tas\u{212a}mgr", "ΑΣ", "Überprozess", "İ3lock", "桌面", "", "dwm.exe"] {
        let b = is_system_process(s);
        assert_eq!(is_system_process(&s.to_ascii_uppercase()), b, "{}", s);
        assert_eq!(is_system_process(&format!("  {} ", s)), b, "{}", s);
        assert_eq!(is_system_process(&format!("{}.exe", s)), b, "{}", s);
        assert_eq!(is_system_process(&format!("{}.EXE", s)), b, "{}", s);
    }
    assert!(is_system_process("Tas\u{212a}mgr"));
    assert!(!is_system_process("İ3lock"));
    assert!(is_system_process("dwm "));
    assert!(!is_system_process("dwm .exe"));
}

#[test]
fn domains_of_any_script_stand_for_themselves() {
    assert_eq!(rule("Bücher.Example").as_deref(), Some("bücher.example"));
    assert_eq!(rule("例え.テスト").as_deref(), Some("例え.テスト"));
    assert_eq!(rule("例え.テスト/a:b ").as_deref(), Some("例え.テスト"));
    assert_eq!(rule("intranet (old)?x").as_deref(), Some("intranet (old)"));
    let rules = filters(&[], &["bücher.example"]);
    let hit = Some(page(None, Some("Shop.bücher.example")));
    assert!(matches_ignored_domain(&rules, &hit));
}
