//! Privacy filters: which captures are hidden, and what is left of them.

use crate::model::{AppInfo, AppInfoView, BrowserContext, BrowserContextView};
use crate::platform::domains;
use crate::platform::names;
use crate::text;
use vstd::prelude::*;

verus! {

/// What the user does not want captured.
#[derive(Debug, Clone)]
pub struct CaptureFilters {
    pub ignored_apps: Vec<String>,
    pub ignored_domains: Vec<String>,
}

pub struct CaptureFiltersView {
    pub ignored_apps: Seq<Seq<char>>,
    pub ignored_domains: Seq<Seq<char>>,
}

impl View for CaptureFilters {
    type V = CaptureFiltersView;

    open spec fn view(&self) -> CaptureFiltersView {
        CaptureFiltersView {
            ignored_apps: text::texts(self.ignored_apps@),
            ignored_domains: text::texts(self.ignored_domains@),
        }
    }
}

/// What is left of a capture once the filters were applied.
#[derive(Debug, Clone)]
pub struct FilteredCapture {
    pub app: AppInfo,
    pub window_title: Option<String>,
    pub browser: Option<BrowserContext>,
}

pub struct FilteredCaptureView {
    pub app: AppInfoView,
    pub window_title: Option<Seq<char>>,
    pub browser: Option<BrowserContextView>,
}

impl View for FilteredCapture {
    type V = FilteredCaptureView;

    open spec fn view(&self) -> FilteredCaptureView {
        FilteredCaptureView {
            app: self.app@,
            window_title: text::opt_text(self.window_title),
            browser: crate::model::opt_browser(self.browser),
        }
    }
}

/// Either text stands in the other.
pub open spec fn overlap(a: Seq<char>, b: Seq<char>) -> bool {
    text::contains_text(a, b) || text::contains_text(b, a)
}

/// The last component of an application's path or identifier.
pub open spec fn id_base(id: Seq<char>) -> Seq<char> {
    text::after_last(id, text::CharClass::PathSeparator)
}

/// Whether a rule hides an application: the rule and the name, or the rule and
/// the last component of the identifier, overlap once they are normalized.
pub open spec fn app_rule_hits(rule: Seq<char>, app: AppInfoView) -> bool {
    let r = names::match_name(rule);
    r.len() > 0 && (overlap(names::match_name(app.name), r) || overlap(
        names::match_name(id_base(app.id)),
        r,
    ))
}

/// Whether some rule hides an application.
pub open spec fn app_ignored(filters: CaptureFiltersView, app: AppInfoView) -> bool {
    exists|i: int|
        0 <= i < filters.ignored_apps.len() && app_rule_hits(#[trigger] filters.ignored_apps[i], app)
}

/// Whether two texts overlap.
fn texts_overlap(a: &str, b: &str) -> (r: bool)
    ensures
        r == overlap(a@, b@),
{
    let x = text::chars_of(a);
    let y = text::chars_of(b);
    text::has_text(x.as_slice(), y.as_slice()) || text::has_text(y.as_slice(), x.as_slice())
}

/// Whether some rule hides an application.
pub fn matches_ignored_app(filters: &CaptureFilters, app: &AppInfo) -> (b: bool)
    ensures
        b == app_ignored(filters@, app@),
{
    let name = names::normalize_match_name(app.name.as_str());
    let id = text::chars_of(app.id.as_str());
    let base = text::string_of(text::tail_after(id.as_slice(), text::CharClass::PathSeparator));
    let id_name = names::normalize_match_name(base.as_str());
    let mut i: usize = 0;
    while i < filters.ignored_apps.len()
        invariant
            i <= filters.ignored_apps@.len(),
            name@ == names::match_name(app@.name),
            id_name@ == names::match_name(id_base(app@.id)),
            forall|k: int|
                0 <= k < i ==> !app_rule_hits(#[trigger] filters@.ignored_apps[k], app@),
        decreases filters.ignored_apps@.len() - i,
    {
        let rule = names::normalize_match_name(filters.ignored_apps[i].as_str());
        assert(filters@.ignored_apps[i as int] == filters.ignored_apps@[i as int]@);
        if !rule.as_str().is_empty() && (texts_overlap(name.as_str(), rule.as_str())
            || texts_overlap(id_name.as_str(), rule.as_str())) {
            assert(app_rule_hits(filters@.ignored_apps[i as int], app@));
            return true;
        }
        i += 1;
    }
    false
}

/// The domain of a page: that of its domain field, or else that of its address.
pub open spec fn page_domain(browser: Option<BrowserContextView>) -> Option<Seq<char>> {
    match browser {
        Some(b) => {
            let by_domain = match b.domain {
                Some(d) => domains::domain_rule(d),
                None => None,
            };
            match (by_domain, b.url) {
                (Some(d), _) => Some(d),
                (None, Some(u)) => domains::domain_rule(u),
                (None, None) => None,
            }
        },
        None => None,
    }
}

/// Whether a rule hides a domain.
pub open spec fn domain_rule_hits(rule: Seq<char>, domain: Seq<char>) -> bool {
    match domains::domain_rule(rule) {
        Some(r) => domains::covers(r, domain),
        None => false,
    }
}

/// Whether some rule hides a page.
pub open spec fn domain_ignored(
    filters: CaptureFiltersView,
    browser: Option<BrowserContextView>,
) -> bool {
    match page_domain(browser) {
        Some(d) => exists|i: int|
            0 <= i < filters.ignored_domains.len() && domain_rule_hits(
                #[trigger] filters.ignored_domains[i],
                d,
            ),
        None => false,
    }
}

/// The domain of a page.
fn page_domain_of(browser: &Option<BrowserContext>) -> (r: Option<String>)
    ensures
        text::opt_text(r) == page_domain(crate::model::opt_browser(*browser)),
{
    match browser {
        Some(b) => {
            let by_domain = match &b.domain {
                Some(d) => domains::normalize_domain_rule(d.as_str()),
                None => None,
            };
            match by_domain {
                Some(d) => Some(d),
                None => match &b.url {
                    Some(u) => domains::normalize_domain_rule(u.as_str()),
                    None => None,
                },
            }
        },
        None => None,
    }
}

/// Whether some rule hides a page.
pub fn matches_ignored_domain(
    filters: &CaptureFilters,
    browser: &Option<BrowserContext>,
) -> (b: bool)
    ensures
        b == domain_ignored(filters@, crate::model::opt_browser(*browser)),
{
    if filters.ignored_domains.len() == 0 {
        return false;
    }
    let target = match page_domain_of(browser) {
        Some(d) => d,
        None => return false,
    };
    let mut i: usize = 0;
    while i < filters.ignored_domains.len()
        invariant
            i <= filters.ignored_domains@.len(),
            page_domain(crate::model::opt_browser(*browser)) == Some(target@),
            forall|k: int|
                0 <= k < i ==> !domain_rule_hits(#[trigger] filters@.ignored_domains[k], target@),
        decreases filters.ignored_domains@.len() - i,
    {
        assert(filters@.ignored_domains[i as int] == filters.ignored_domains@[i as int]@);
        match domains::normalize_domain_rule(filters.ignored_domains[i].as_str()) {
            Some(rule) => {
                if domains::rule_covers(rule.as_str(), target.as_str()) {
                    assert(domain_rule_hits(filters@.ignored_domains[i as int], target@));
                    return true;
                }
            },
            None => {},
        }
        i += 1;
    }
    false
}

/// What stands in the place of a capture of an ignored application.
pub open spec fn hidden_app() -> FilteredCaptureView {
    FilteredCaptureView {
        app: AppInfoView {
            id: "filtered.app"@,
            name: "Ignored Application"@,
            title: Some("Ignored Application"@),
            pid: None,
        },
        window_title: Some("Ignored Application"@),
        browser: None,
    }
}

/// What stands in the place of a capture of an ignored page: the application
/// stays, titles and page go.
pub open spec fn hidden_page(app: AppInfoView) -> FilteredCaptureView {
    FilteredCaptureView {
        app: AppInfoView {
            id: app.id,
            name: app.name,
            title: Some("Ignored Website"@),
            pid: app.pid,
        },
        window_title: Some("Ignored Website"@),
        browser: None,
    }
}

/// What the filters leave of a capture.
pub open spec fn filtered(
    filters: CaptureFiltersView,
    app: AppInfoView,
    window_title: Option<Seq<char>>,
    browser: Option<BrowserContextView>,
) -> FilteredCaptureView {
    if app_ignored(filters, app) {
        hidden_app()
    } else if domain_ignored(filters, browser) {
        hidden_page(app)
    } else {
        FilteredCaptureView { app, window_title, browser }
    }
}

/// What the filters leave of a capture.
pub fn apply_capture_filters(
    filters: &CaptureFilters,
    app: AppInfo,
    window_title: Option<String>,
    browser: Option<BrowserContext>,
) -> (r: FilteredCapture)
    ensures
        r@ == filtered(
            filters@,
            app@,
            text::opt_text(window_title),
            crate::model::opt_browser(browser),
        ),
{
    if matches_ignored_app(filters, &app) {
        let label = "Ignored Application";
        return FilteredCapture {
            app: AppInfo {
                id: "filtered.app".to_string(),
                name: label.to_string(),
                title: Some(label.to_string()),
                pid: None,
            },
            window_title: Some(label.to_string()),
            browser: None,
        };
    }
    if matches_ignored_domain(filters, &browser) {
        let label = "Ignored Website";
        return FilteredCapture {
            app: AppInfo {
                id: app.id,
                name: app.name,
                title: Some(label.to_string()),
                pid: app.pid,
            },
            window_title: Some(label.to_string()),
            browser: None,
        };
    }
    FilteredCapture { app, window_title, browser }
}

// ---------------------------------------------------------------------------
// Laws
// ---------------------------------------------------------------------------
/// Without filters a capture stays as it is.
pub proof fn law_no_filters_no_change(
    filters: CaptureFiltersView,
    app: AppInfoView,
    window_title: Option<Seq<char>>,
    browser: Option<BrowserContextView>,
)
    requires
        filters.ignored_apps.len() == 0,
        filters.ignored_domains.len() == 0,
    ensures
        filtered(filters, app, window_title, browser) == (FilteredCaptureView {
            app,
            window_title,
            browser,
        }),
{
}

/// Nothing of a hidden application leaves the machine: whatever was captured,
/// the same is left.
pub proof fn law_ignored_app_leaks_nothing(
    filters: CaptureFiltersView,
    app: AppInfoView,
    window_title: Option<Seq<char>>,
    browser: Option<BrowserContextView>,
    other_filters: CaptureFiltersView,
    other_app: AppInfoView,
    other_title: Option<Seq<char>>,
    other_browser: Option<BrowserContextView>,
)
    requires
        app_ignored(filters, app),
        app_ignored(other_filters, other_app),
    ensures
        filtered(filters, app, window_title, browser) == filtered(
            other_filters,
            other_app,
            other_title,
            other_browser,
        ),
{
}

/// Of a hidden page nothing leaves the machine but the application's
/// identifier, name and process number: no title and no page.
pub proof fn law_ignored_page_leaks_only_the_app(
    filters: CaptureFiltersView,
    app: AppInfoView,
    other_app: AppInfoView,
    window_title: Option<Seq<char>>,
    other_title: Option<Seq<char>>,
    browser: Option<BrowserContextView>,
    other_browser: Option<BrowserContextView>,
)
    requires
        app.id == other_app.id,
        app.name == other_app.name,
        app.pid == other_app.pid,
        domain_ignored(filters, browser),
        domain_ignored(filters, other_browser),
    ensures
        filtered(filters, app, window_title, browser) == filtered(
            filters,
            other_app,
            other_title,
            other_browser,
        ),
        filtered(filters, app, window_title, browser).browser is None,
{
    assert(app_ignored(filters, app) == app_ignored(filters, other_app)) by {
        assert forall|rule: Seq<char>| app_rule_hits(rule, app) == app_rule_hits(rule, other_app) by {}
        if app_ignored(filters, app) {
            let i = choose|i: int|
                0 <= i < filters.ignored_apps.len() && app_rule_hits(
                    #[trigger] filters.ignored_apps[i],
                    app,
                );
            assert(app_rule_hits(filters.ignored_apps[i], other_app));
        }
    }
}

/// A rule hides the application that bears its name, whatever the other rules,
/// unless nothing is left of the name once it is normalized.
pub proof fn law_rule_hides_its_app(filters: CaptureFiltersView, app: AppInfoView, i: int)
    requires
        0 <= i < filters.ignored_apps.len(),
        names::match_name(filters.ignored_apps[i]) == names::match_name(app.name),
        names::match_name(app.name).len() > 0,
    ensures
        app_ignored(filters, app),
{
    let r = names::match_name(app.name);
    assert(r.subrange(0, r.len() as int) =~= r);
    assert(text::found_at(r, r, 0));
    assert(app_rule_hits(filters.ignored_apps[i], app));
}

/// More rules hide no less.
pub proof fn law_more_rules_hide_more(
    filters: CaptureFiltersView,
    more_apps: Seq<Seq<char>>,
    more_domains: Seq<Seq<char>>,
    app: AppInfoView,
    browser: Option<BrowserContextView>,
)
    ensures
        ({
            let more = CaptureFiltersView {
                ignored_apps: filters.ignored_apps + more_apps,
                ignored_domains: filters.ignored_domains + more_domains,
            };
            &&& app_ignored(filters, app) ==> app_ignored(more, app)
            &&& domain_ignored(filters, browser) ==> domain_ignored(more, browser)
        }),
{
    let more = CaptureFiltersView {
        ignored_apps: filters.ignored_apps + more_apps,
        ignored_domains: filters.ignored_domains + more_domains,
    };
    if app_ignored(filters, app) {
        let i = choose|i: int|
            0 <= i < filters.ignored_apps.len() && app_rule_hits(
                #[trigger] filters.ignored_apps[i],
                app,
            );
        assert(more.ignored_apps[i] == filters.ignored_apps[i]);
    }
    if domain_ignored(filters, browser) {
        let d = page_domain(browser)->0;
        let i = choose|i: int|
            0 <= i < filters.ignored_domains.len() && domain_rule_hits(
                #[trigger] filters.ignored_domains[i],
                d,
            );
        assert(more.ignored_domains[i] == filters.ignored_domains[i]);
    }
}

/// A rule for a domain hides each page whose domain field names that domain or
/// one below it, in upper or lower case.
pub proof fn law_ignored_domain_hides_its_pages(
    filters: CaptureFiltersView,
    browser: BrowserContextView,
    i: int,
)
    requires
        0 <= i < filters.ignored_domains.len(),
        domains::is_plain_domain(filters.ignored_domains[i]),
        browser.domain is Some,
        domains::is_plain_domain(browser.domain->0),
        domains::covers(
            text::ascii_lowercase(filters.ignored_domains[i]),
            text::ascii_lowercase(browser.domain->0),
        ),
    ensures
        domain_ignored(filters, Some(browser)),
{
    domains::law_plain_domain_stands_for_itself(filters.ignored_domains[i]);
    domains::law_plain_domain_stands_for_itself(browser.domain->0);
    assert(domain_rule_hits(filters.ignored_domains[i], text::ascii_lowercase(browser.domain->0)));
}

/// A rule for a domain hides each page without a usable domain field whose
/// address is one of that domain or of one below it.
pub proof fn law_ignored_domain_hides_its_addresses(
    filters: CaptureFiltersView,
    browser: BrowserContextView,
    host: Seq<char>,
    i: int,
)
    requires
        0 <= i < filters.ignored_domains.len(),
        domains::is_plain_domain(filters.ignored_domains[i]),
        browser.domain is None || domains::domain_rule(browser.domain->0) is None,
        browser.url is Some,
        text::trim(browser.url->0).len() > 0,
        domains::parsed_host(text::trim(browser.url->0)) matches Some(h) && h.domain == Some(host),
        domains::covers(
            text::ascii_lowercase(filters.ignored_domains[i]),
            text::ascii_lowercase(host),
        ),
    ensures
        domain_ignored(filters, Some(browser)),
{
    domains::law_plain_domain_stands_for_itself(filters.ignored_domains[i]);
    assert(page_domain(Some(browser)) == Some(text::ascii_lowercase(host)));
    assert(domain_rule_hits(filters.ignored_domains[i], text::ascii_lowercase(host)));
}

/// What the filters leave passes them unchanged: filtering twice is filtering
/// once.
pub proof fn law_filtering_is_stable(
    filters: CaptureFiltersView,
    app: AppInfoView,
    window_title: Option<Seq<char>>,
    browser: Option<BrowserContextView>,
)
    ensures
        ({
            let once = filtered(filters, app, window_title, browser);
            filtered(filters, once.app, once.window_title, once.browser) == once
        }),
{
    if !app_ignored(filters, app) && domain_ignored(filters, browser) {
        let shown = hidden_page(app).app;
        assert(!app_ignored(filters, shown)) by {
            assert forall|i: int| 0 <= i < filters.ignored_apps.len() implies !app_rule_hits(
                #[trigger] filters.ignored_apps[i],
                shown,
            ) by {
                assert(!app_rule_hits(filters.ignored_apps[i], app));
            }
        }
    }
}

/// The filters hide the same applications whether or not they were given their
/// shown names before. This does not hold of a name with two different suffixes
/// of an executable, such as `a.exe.EXE`, whose stem still has one.
pub proof fn law_filters_see_through_shown_names(filters: CaptureFiltersView, app: AppInfoView)
    requires
        !text::ends_with(names::app_stem(app.name), ".exe"@),
        !text::ends_with(names::app_stem(app.name), ".EXE"@),
    ensures
        app_ignored(filters, names::with_display_name(app)) == app_ignored(filters, app),
{
    let shown = names::with_display_name(app);
    names::law_display_name_ignores_outer_space(app.name);
    names::law_match_name_survives_display(app.name);
    assert forall|i: int| 0 <= i < filters.ignored_apps.len() implies app_rule_hits(
        #[trigger] filters.ignored_apps[i],
        shown,
    ) == app_rule_hits(filters.ignored_apps[i], app) by {}
}

/// What no rule hides passes unchanged, whatever rules there are: application,
/// window title and page.
pub proof fn law_unhidden_capture_stays(
    filters: CaptureFiltersView,
    app: AppInfoView,
    window_title: Option<Seq<char>>,
    browser: Option<BrowserContextView>,
)
    requires
        !app_ignored(filters, app),
        !domain_ignored(filters, browser),
    ensures
        filtered(filters, app, window_title, browser).app == app,
        filtered(filters, app, window_title, browser).window_title == window_title,
        filtered(filters, app, window_title, browser).browser == browser,
{
}

/// A capture of a hidden application is replaced by a label, whatever its page.
pub proof fn law_hidden_app_is_replaced(
    filters: CaptureFiltersView,
    app: AppInfoView,
    window_title: Option<Seq<char>>,
    browser: Option<BrowserContextView>,
)
    requires
        app_ignored(filters, app),
    ensures
        ({
            let r = filtered(filters, app, window_title, browser);
            &&& r.app.id == "filtered.app"@
            &&& r.app.name == "Ignored Application"@
            &&& r.app.title == Some("Ignored Application"@)
            &&& r.app.pid is None
            &&& r.window_title == Some("Ignored Application"@)
            &&& r.browser is None
        }),
{
}

/// Of a capture of a hidden page in an application that is not hidden, the
/// application stays, and the titles are replaced by a label.
pub proof fn law_hidden_page_is_replaced(
    filters: CaptureFiltersView,
    app: AppInfoView,
    window_title: Option<Seq<char>>,
    browser: Option<BrowserContextView>,
)
    requires
        !app_ignored(filters, app),
        domain_ignored(filters, browser),
    ensures
        ({
            let r = filtered(filters, app, window_title, browser);
            &&& r.app.id == app.id
            &&& r.app.name == app.name
            &&& r.app.pid == app.pid
            &&& r.app.title == Some("Ignored Website"@)
            &&& r.window_title == Some("Ignored Website"@)
            &&& r.browser is None
        }),
{
}

/// The last component of an identifier is what stands behind its last separator.
pub proof fn law_last_component(dir: Seq<char>, base: Seq<char>)
    requires
        dir.len() > 0 ==> dir.last() == '/' || dir.last() == '\\',
        forall|i: int| 0 <= i < base.len() ==> (#[trigger] base[i]) != '/' && base[i] != '\\',
    ensures
        id_base(dir + base) == base,
{
    text::law_cut_at_last(dir, base, text::CharClass::PathSeparator);
}

/// A rule hides an application where what it compares as stands in what the name
/// or the last component of the identifier compares as, or the other way round,
/// unless nothing is left of the rule.
pub proof fn law_rule_hides_by_part_of_a_name(
    filters: CaptureFiltersView,
    app: AppInfoView,
    i: int,
    front: Seq<char>,
    back: Seq<char>,
)
    requires
        0 <= i < filters.ignored_apps.len(),
        ({
            let r = names::match_name(filters.ignored_apps[i]);
            let name = names::match_name(app.name);
            let base = names::match_name(id_base(app.id));
            &&& r.len() > 0
            &&& name == front + r + back || r == front + name + back || base == front + r + back
                || r == front + base + back
        }),
    ensures
        app_ignored(filters, app),
{
    let r = names::match_name(filters.ignored_apps[i]);
    let name = names::match_name(app.name);
    let base = names::match_name(id_base(app.id));
    text::law_text_stands_in_its_surroundings(front, r, back);
    text::law_text_stands_in_its_surroundings(front, name, back);
    text::law_text_stands_in_its_surroundings(front, base, back);
    assert(app_rule_hits(filters.ignored_apps[i], app));
}

/// Nothing else hides an application: where one is hidden, there is the rule, and
/// what stands around the common part.
pub proof fn law_only_rules_hide_apps(filters: CaptureFiltersView, app: AppInfoView) -> (w: (
    int,
    Seq<char>,
    Seq<char>,
))
    requires
        app_ignored(filters, app),
    ensures
        0 <= w.0 < filters.ignored_apps.len(),
        ({
            let r = names::match_name(filters.ignored_apps[w.0]);
            let name = names::match_name(app.name);
            let base = names::match_name(id_base(app.id));
            &&& r.len() > 0
            &&& name == w.1 + r + w.2 || r == w.1 + name + w.2 || base == w.1 + r + w.2 || r == w.1
                + base + w.2
        }),
{
    let i = choose|i: int|
        0 <= i < filters.ignored_apps.len() && app_rule_hits(#[trigger] filters.ignored_apps[i], app);
    let r = names::match_name(filters.ignored_apps[i]);
    let name = names::match_name(app.name);
    let base = names::match_name(id_base(app.id));
    let parts = if text::contains_text(name, r) {
        text::law_surroundings_of_a_text(name, r)
    } else if text::contains_text(r, name) {
        text::law_surroundings_of_a_text(r, name)
    } else if text::contains_text(base, r) {
        text::law_surroundings_of_a_text(base, r)
    } else {
        text::law_surroundings_of_a_text(r, base)
    };
    (i, parts.0, parts.1)
}

/// The domain of a page is that of its domain field where that names one, that of
/// its address otherwise, and none without either.
pub proof fn law_domain_of_a_page(page: BrowserContextView)
    ensures
        page_domain(None) is None,
        page.domain is Some && domains::domain_rule(page.domain->0) is Some ==> page_domain(
            Some(page),
        ) == domains::domain_rule(page.domain->0),
        (page.domain is None || domains::domain_rule(page.domain->0) is None) && page.url is Some
            ==> page_domain(Some(page)) == domains::domain_rule(page.url->0),
        (page.domain is None || domains::domain_rule(page.domain->0) is None) && page.url is None
            ==> page_domain(Some(page)) is None,
{
}

/// A rule hides a page of its domain, and of each domain that ends in a dot and its
/// domain.
pub proof fn law_rule_hides_its_pages(
    filters: CaptureFiltersView,
    browser: Option<BrowserContextView>,
    i: int,
    front: Seq<char>,
)
    requires
        0 <= i < filters.ignored_domains.len(),
        domains::domain_rule(filters.ignored_domains[i]) is Some,
        page_domain(browser) is Some,
        ({
            let r = domains::domain_rule(filters.ignored_domains[i])->0;
            let d = page_domain(browser)->0;
            d == r || d == front + "."@ + r
        }),
    ensures
        domain_ignored(filters, browser),
{
    let r = domains::domain_rule(filters.ignored_domains[i])->0;
    let d = page_domain(browser)->0;
    assert(front + "."@ + r =~= front + ("."@ + r));
    text::law_text_stands_in_its_surroundings(front, "."@ + r, Seq::empty());
    assert(domain_rule_hits(filters.ignored_domains[i], d));
}

/// Nothing else hides a page: where one is hidden, there is the rule, and what
/// stands before its domain.
pub proof fn law_only_rules_hide_pages(
    filters: CaptureFiltersView,
    browser: Option<BrowserContextView>,
) -> (w: (int, Seq<char>))
    requires
        domain_ignored(filters, browser),
    ensures
        page_domain(browser) is Some,
        0 <= w.0 < filters.ignored_domains.len(),
        domains::domain_rule(filters.ignored_domains[w.0]) is Some,
        ({
            let r = domains::domain_rule(filters.ignored_domains[w.0])->0;
            let d = page_domain(browser)->0;
            d == r || d == w.1 + "."@ + r
        }),
{
    let d = page_domain(browser)->0;
    let i = choose|i: int|
        0 <= i < filters.ignored_domains.len() && domain_rule_hits(
            #[trigger] filters.ignored_domains[i],
            d,
        );
    let r = domains::domain_rule(filters.ignored_domains[i])->0;
    if d == r {
        (i, Seq::empty())
    } else {
        let below = "."@ + r;
        let front = d.take(d.len() - below.len());
        assert(text::found_at(d, below, d.len() - below.len()));
        let parts = text::law_surroundings_of_a_text(d, below);
        assert(front + "."@ + r =~= front + below);
        (i, front)
    }
}

/// Nothing of the filters is left out of what the contracts say of it.
pub proof fn law_view_of_filters(filters: CaptureFilters)
    ensures
        filters@.ignored_apps.len() == filters.ignored_apps@.len(),
        forall|i: int| 0 <= i < filters.ignored_apps@.len() ==> #[trigger] filters@.ignored_apps[i] == filters.ignored_apps@[i]@,
        filters@.ignored_domains.len() == filters.ignored_domains@.len(),
        forall|i: int| 0 <= i < filters.ignored_domains@.len() ==> #[trigger] filters@.ignored_domains[i] == filters.ignored_domains@[i]@,
{
}

/// Nothing of a filtered capture is left out of what the contracts say of it.
pub proof fn law_view_of_a_capture(capture: FilteredCapture)
    ensures
        capture@.app == capture.app@,
        capture.window_title is None ==> capture@.window_title is None,
        capture.window_title matches Some(t) ==> capture@.window_title == Some(t@),
        capture.browser is None ==> capture@.browser is None,
        capture.browser matches Some(t) ==> capture@.browser == Some(t@),
{
}

} // verus!
