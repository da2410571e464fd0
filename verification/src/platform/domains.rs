//! The domains that filters compare: from an address or a bare host to its
//! domain, and which domains a rule covers.

use crate::text;
use vstd::prelude::*;

verus! {

/// The host of an address: its domain name where it has one, and its host as
/// text, be that a name or a number.
pub struct UrlHost {
    pub domain: Option<String>,
    pub host: Option<String>,
}

pub struct UrlHostView {
    pub domain: Option<Seq<char>>,
    pub host: Option<Seq<char>>,
}

impl View for UrlHost {
    type V = UrlHostView;

    open spec fn view(&self) -> UrlHostView {
        UrlHostView { domain: text::opt_text(self.domain), host: text::opt_text(self.host) }
    }
}

/// The view of an optional host.
pub open spec fn opt_host(o: Option<UrlHost>) -> Option<UrlHostView> {
    match o {
        Some(h) => Some(h@),
        None => None,
    }
}

/// Letters, digits, `+`, `-` and `.`: what the scheme of an address is made of.
pub open spec fn is_scheme_char(c: char) -> bool {
    'a' <= c <= 'z' || 'A' <= c <= 'Z' || '0' <= c <= '9' || c == '+' || c == '-' || c == '.'
}

/// Every colon in `s` stands behind a visible character that no scheme holds,
/// so `s` does not begin with a scheme.
pub open spec fn lacks_scheme(s: Seq<char>) -> bool {
    forall|i: int|
        0 <= i < s.len() && #[trigger] s[i] == ':' ==> exists|j: int|
            0 <= j < i && #[trigger] s[j] > ' ' && !is_scheme_char(s[j])
}

/// What `Url::parse` finds as the host of a text; nothing where the text is no
/// absolute address.
pub uninterp spec fn url_host(s: Seq<char>) -> Option<UrlHostView>;

/// The host of an absolute address; nothing where the text is none.
pub open spec fn parsed_host(s: Seq<char>) -> Option<UrlHostView> {
    if lacks_scheme(s) {
        None
    } else {
        url_host(s)
    }
}

/// `url::Url::parse`, with `Url::domain` and `Url::host_str` of what it
/// returns. All three depend on the text alone. A text that does not begin
/// with a scheme is no absolute address. How the host is found in one, and how
/// it is encoded, is left unsaid.
#[verifier::external_body]
fn parse_host(s: &str) -> (r: Option<UrlHost>)
    ensures
        opt_host(r) == url_host(s@),
        lacks_scheme(s@) ==> r is None,
{
    match url::Url::parse(s) {
        Ok(parsed) => Some(
            UrlHost {
                domain: parsed.domain().map(|d| d.to_string()),
                host: parsed.host_str().map(|h| h.to_string()),
            },
        ),
        Err(_) => None,
    }
}

/// `s` without a port at its end.
pub open spec fn without_port(s: Seq<char>) -> Seq<char> {
    if text::has_class(s, text::CharClass::Colon) && text::all_digits(
        text::after_last(s, text::CharClass::Colon),
    ) {
        text::before_last(s, text::CharClass::Colon)
    } else {
        s
    }
}

/// The host in a text that is no absolute address: without a web scheme, path,
/// query, fragment, user, port and outer dots, in lower case.
pub open spec fn bare_host(s: Seq<char>) -> Option<Seq<char>> {
    let rest = text::strip_prefixes(text::strip_prefixes(s, "https://"@), "http://"@);
    let authority = text::trim(text::before_first(rest, text::CharClass::HostEnd));
    let host = text::trim_class(
        without_port(text::after_last(authority, text::CharClass::At)),
        text::CharClass::Dot,
    );
    if host.len() == 0 {
        None
    } else {
        Some(text::ascii_lowercase(host))
    }
}

/// The domain in a text without outer white space, where `parsed` is the host
/// of the address that the text is, if it is one.
pub open spec fn domain_of(s: Seq<char>, parsed: Option<UrlHostView>) -> Option<Seq<char>> {
    match parsed {
        Some(h) => match (h.domain, h.host) {
            (Some(d), _) => Some(text::ascii_lowercase(d)),
            (None, Some(d)) => Some(text::ascii_lowercase(d)),
            (None, None) => None,
        },
        None => bare_host(s),
    }
}

/// The domain that an address, or a rule of a filter, stands for.
pub open spec fn domain_rule(s: Seq<char>) -> Option<Seq<char>> {
    let t = text::trim(s);
    if t.len() == 0 {
        None
    } else {
        domain_of(t, parsed_host(t))
    }
}

/// `s` without a port at its end.
fn strip_port<'a>(s: &'a [char]) -> (r: &'a [char])
    ensures
        r@ == without_port(s@),
{
    let port = text::tail_after(s, text::CharClass::Colon);
    proof {
        text::lemma_after_last_cut(s@, text::CharClass::Colon);
    }
    if port.len() < s.len() && text::only_digits(port) {
        assert(s@.subrange(0, s@.len() - port@.len() - 1) =~= s@.take(
            s@.len() - port@.len() - 1,
        ));
        vstd::slice::slice_subrange(s, 0, s.len() - port.len() - 1)
    } else {
        s
    }
}

/// The host in a text that is no absolute address.
pub fn bare_host_of(s: &str) -> (r: Option<String>)
    ensures
        text::opt_text(r) == bare_host(s@),
{
    let v = text::chars_of(s);
    let https = text::chars_of("https://");
    let http = text::chars_of("http://");
    let rest = text::without_prefixes(v.as_slice(), https.as_slice());
    let rest = text::without_prefixes(rest, http.as_slice());
    let authority = text::trimmed(
        text::head_before(rest, text::CharClass::HostEnd),
        text::CharClass::WhiteSpace,
    );
    let host = text::trimmed(
        strip_port(text::tail_after(authority, text::CharClass::At)),
        text::CharClass::Dot,
    );
    if host.len() == 0 {
        None
    } else {
        Some(text::lower_text(host))
    }
}

/// The domain in a text without outer white space, where `parsed` is the host
/// of the address that the text is, if it is one.
pub fn domain_from(s: &str, parsed: Option<UrlHost>) -> (r: Option<String>)
    ensures
        text::opt_text(r) == domain_of(s@, opt_host(parsed)),
{
    match parsed {
        Some(h) => match (h.domain, h.host) {
            (Some(d), _) => Some(text::lower_text(text::chars_of(d.as_str()).as_slice())),
            (None, Some(d)) => Some(text::lower_text(text::chars_of(d.as_str()).as_slice())),
            (None, None) => None,
        },
        None => bare_host_of(s),
    }
}

/// The domain that an address, or a rule of a filter, stands for.
pub fn normalize_domain_rule(value: &str) -> (r: Option<String>)
    ensures
        text::opt_text(r) == domain_rule(value@),
{
    let t = text::trim_text(value);
    if t.as_str().is_empty() {
        return None;
    }
    let parsed = parse_host(t.as_str());
    domain_from(t.as_str(), parsed)
}

/// Whether a rule for `rule` covers `domain`: the domain itself, and every
/// domain below it.
pub open spec fn covers(rule: Seq<char>, domain: Seq<char>) -> bool {
    domain == rule || text::ends_with(domain, "."@ + rule)
}

/// Whether a rule for `rule` covers `domain`.
pub fn rule_covers(rule: &str, domain: &str) -> (b: bool)
    ensures
        b == covers(rule@, domain@),
{
    let r = text::chars_of(rule);
    let d = text::chars_of(domain);
    if text::same_chars(d.as_slice(), r.as_slice()) {
        return true;
    }
    let mut below = String::new();
    proof {
        reveal_strlit(".");
    }
    below.push('.');
    text::push_chars(&mut below, r.as_slice());
    assert(below@ =~= "."@ + rule@);
    text::has_suffix(d.as_slice(), text::chars_of(below.as_str()).as_slice())
}

// ---------------------------------------------------------------------------
// Laws
// ---------------------------------------------------------------------------
/// A rule covers its own domain and, with each domain that it covers, the
/// domains below that one.
pub proof fn law_rule_covers_subdomains(rule: Seq<char>, domain: Seq<char>, label: Seq<char>)
    ensures
        covers(rule, rule),
        covers(rule, domain) ==> covers(rule, label + "."@ + domain),
{
    if covers(rule, domain) {
        reveal_strlit(".");
        let below = "."@ + rule;
        let deep = label + "."@ + domain;
        let n = deep.len() as int;
        if domain == rule {
            assert(deep.subrange(n - below.len(), n - below.len() + below.len()) =~= below);
        } else {
            assert(deep.subrange(n - below.len(), n - below.len() + below.len())
                =~= domain.subrange(
                domain.len() - below.len(),
                domain.len() - below.len() + below.len(),
            ));
        }
    }
}

/// A rule covers whole labels only: where it covers another domain than its
/// own, that domain has a dot right before the rule's.
pub proof fn law_rule_covers_whole_labels(rule: Seq<char>, domain: Seq<char>)
    requires
        covers(rule, domain),
        domain != rule,
    ensures
        domain.len() > rule.len(),
        domain[domain.len() - rule.len() - 1] == '.',
        domain.skip(domain.len() - rule.len()) == rule,
{
    reveal_strlit(".");
    let below = "."@ + rule;
    let a = domain.len() - below.len();
    let part = domain.subrange(a, a + below.len());
    assert(part[0] == domain[a]);
    assert forall|i: int| 0 <= i < rule.len() implies domain[a + 1 + i] == rule[i] by {
        assert(part[i + 1] == below[i + 1]);
    }
    assert(domain.skip(domain.len() - rule.len()) =~= rule);
}

/// Any character but `:`, `/`, `?`, `#` and `@`, which part a domain from what
/// may stand around it.
pub open spec fn is_domain_char(c: char) -> bool {
    c != ':' && c != '/' && c != '?' && c != '#' && c != '@'
}

/// A domain and nothing else: no address, user, port or path, and neither a dot
/// nor white space at its ends.
pub open spec fn is_plain_domain(s: Seq<char>) -> bool {
    &&& s.len() > 0
    &&& s[0] != '.' && !text::is_white_space(s[0])
    &&& s.last() != '.' && !text::is_white_space(s.last())
    &&& forall|i: int| 0 <= i < s.len() ==> is_domain_char(#[trigger] s[i])
}

/// A domain and nothing else stands for itself, its ASCII letters in lower case.
pub proof fn law_plain_domain_stands_for_itself(s: Seq<char>)
    requires
        is_plain_domain(s),
    ensures
        domain_rule(s) == Some(text::ascii_lowercase(s)),
{
    reveal_strlit("https://");
    reveal_strlit("http://");
    let n = s.len() as int;
    assert(is_domain_char(s[0]) && is_domain_char(s[n - 1]));
    text::lemma_trim_fixed(s, text::CharClass::WhiteSpace);
    assert(lacks_scheme(s)) by {
        assert forall|i: int| 0 <= i < n implies #[trigger] s[i] != ':' by {
            assert(is_domain_char(s[i]));
        }
    }
    if text::starts_with(s, "https://"@) {
        assert(s.subrange(0, 8)[5] == s[5]);
        assert(is_domain_char(s[5]));
    }
    if text::starts_with(s, "http://"@) {
        assert(s.subrange(0, 7)[4] == s[4]);
        assert(is_domain_char(s[4]));
    }
    assert forall|i: int| 0 <= i < n implies !text::CharClass::HostEnd.has(#[trigger] s[i]) by {
        assert(is_domain_char(s[i]));
    }
    text::lemma_before_first(s, text::CharClass::HostEnd, n);
    assert(s.take(n) =~= s);
    lemma_plain_host(s);
}

/// Nothing is cut from a domain and nothing else.
proof fn lemma_plain_host(s: Seq<char>)
    requires
        is_plain_domain(s),
    ensures
        text::trim(s) == s,
        text::after_last(s, text::CharClass::At) == s,
        without_port(s) == s,
        text::trim_class(s, text::CharClass::Dot) == s,
{
    let n = s.len() as int;
    assert(is_domain_char(s[0]) && is_domain_char(s[n - 1]));
    text::lemma_trim_fixed(s, text::CharClass::WhiteSpace);
    assert forall|i: int| 0 <= i < n implies !text::CharClass::At.has(#[trigger] s[i]) by {
        assert(is_domain_char(s[i]));
    }
    text::lemma_after_last(s, text::CharClass::At, 0);
    assert(s.skip(0) =~= s);
    assert(!text::has_class(s, text::CharClass::Colon)) by {
        assert forall|i: int| 0 <= i < n implies !text::CharClass::Colon.has(#[trigger] s[i]) by {
            assert(is_domain_char(s[i]));
        }
    }
    text::lemma_trim_fixed(s, text::CharClass::Dot);
}

/// A rule may carry a path, a query or a fragment behind its domain, and stands
/// for the domain alone.
pub proof fn law_rule_may_carry_a_path(domain: Seq<char>, tail: Seq<char>)
    requires
        is_plain_domain(domain),
        tail.len() > 0,
        text::CharClass::HostEnd.has(tail[0]),
    ensures
        domain_rule(domain + tail) == Some(text::ascii_lowercase(domain)),
    decreases tail.len(),
{
    if text::is_white_space(tail.last()) {
        let shorter = tail.drop_last();
        let front = Seq::<char>::empty();
        let back = seq![tail.last()];
        assert(tail.len() > 1);
        law_rule_may_carry_a_path(domain, shorter);
        text::lemma_trim_padded(front, domain + shorter, back);
        assert(front + (domain + shorter) + back =~= domain + tail);
    } else {
        lemma_path_is_cut(domain, tail);
    }
}

proof fn lemma_path_is_cut(domain: Seq<char>, tail: Seq<char>)
    requires
        is_plain_domain(domain),
        tail.len() > 0,
        text::CharClass::HostEnd.has(tail[0]),
        !text::is_white_space(tail.last()),
    ensures
        domain_rule(domain + tail) == Some(text::ascii_lowercase(domain)),
{
    reveal_strlit("https://");
    reveal_strlit("http://");
    let s = domain + tail;
    let n = domain.len() as int;
    assert(is_domain_char(domain[0]) && is_domain_char(domain[n - 1]));
    assert(s[0] == domain[0]);
    assert(s.last() == tail.last());
    assert(s[n] == tail[0]);
    text::lemma_trim_fixed(s, text::CharClass::WhiteSpace);
    assert(lacks_scheme(s)) by {
        assert forall|i: int| 0 <= i < s.len() && #[trigger] s[i] == ':' implies exists|j: int|
            0 <= j < i && #[trigger] s[j] > ' ' && !is_scheme_char(s[j]) by {
            if i < n {
                assert(is_domain_char(domain[i]));
            }
            assert(n < i);
            assert(s[n] > ' ' && !is_scheme_char(s[n]));
        }
    }
    if text::starts_with(s, "https://"@) {
        let front = s.subrange(0, 8);
        assert(front[0] == s[0] && front[1] == s[1] && front[2] == s[2] && front[3] == s[3]
            && front[4] == s[4] && front[5] == s[5]);
        if n > 5 {
            assert(is_domain_char(domain[5]));
        }
    }
    if text::starts_with(s, "http://"@) {
        let front = s.subrange(0, 7);
        assert(front[0] == s[0] && front[1] == s[1] && front[2] == s[2] && front[3] == s[3]
            && front[4] == s[4]);
        if n > 4 {
            assert(is_domain_char(domain[4]));
        }
    }
    assert forall|i: int| 0 <= i < n implies !text::CharClass::HostEnd.has(#[trigger] s[i]) by {
        assert(is_domain_char(domain[i]));
    }
    text::lemma_before_first(s, text::CharClass::HostEnd, n);
    assert(s.take(n) =~= domain);
    lemma_plain_host(domain);
}

/// White space around an address or a rule does not matter, and white space alone
/// names no domain.
pub proof fn law_domain_ignores_outer_space(front: Seq<char>, s: Seq<char>, back: Seq<char>)
    requires
        forall|i: int| 0 <= i < front.len() ==> text::is_white_space(#[trigger] front[i]),
        forall|i: int| 0 <= i < back.len() ==> text::is_white_space(#[trigger] back[i]),
    ensures
        domain_rule(front + s + back) == domain_rule(s),
        domain_rule(front) is None,
{
    text::lemma_trim_padded(front, s, back);
    let none = Seq::<char>::empty();
    text::law_trim_takes_the_ends(front, none, none, text::CharClass::WhiteSpace);
    assert(front + none + none =~= front);
}

/// Of an absolute address the domain name counts, its host where it has no domain
/// name, and nothing where it has neither; in lower case, whatever else stands in
/// the address.
pub proof fn law_parsed_address(s: Seq<char>, h: UrlHostView)
    requires
        text::trim(s).len() > 0,
        parsed_host(text::trim(s)) == Some(h),
    ensures
        h.domain is Some ==> domain_rule(s) == Some(text::ascii_lowercase(h.domain->0)),
        h.domain is None && h.host is Some ==> domain_rule(s) == Some(
            text::ascii_lowercase(h.host->0),
        ),
        h.domain is None && h.host is None ==> domain_rule(s) is None,
{
}

/// A text that is no absolute address names the domain that is left without its
/// user, its port, the dots around it, and its path, query or fragment; and none
/// where nothing is left. A colon in the domain, with no port behind it, is not
/// taken for one unless digits or nothing follow it.
pub proof fn law_bare_host(
    user: Seq<char>,
    front_dots: Seq<char>,
    domain: Seq<char>,
    back_dots: Seq<char>,
    port: Seq<char>,
    tail: Seq<char>,
)
    requires
        ({
            let whole = user + front_dots + domain + back_dots + port + tail;
            &&& whole.len() > 0
            &&& !text::is_white_space(whole[0]) && !text::is_white_space(whole.last())
            &&& parsed_host(whole) is None
            &&& !text::starts_with(whole, "https://"@) && !text::starts_with(whole, "http://"@)
        }),
        user.len() > 0 ==> user.last() == '@',
        forall|i: int|
            0 <= i < user.len() ==> (#[trigger] user[i]) != '/' && user[i] != '?' && user[i] != '#',
        forall|i: int| 0 <= i < front_dots.len() ==> (#[trigger] front_dots[i]) == '.',
        forall|i: int| 0 <= i < back_dots.len() ==> (#[trigger] back_dots[i]) == '.',
        forall|i: int|
            0 <= i < domain.len() ==> (#[trigger] domain[i]) != '/' && domain[i] != '?' && domain[i]
                != '#' && domain[i] != '@',
        domain.len() > 0 ==> domain[0] != '.' && domain.last() != '.' && !text::is_white_space(
            domain.last(),
        ),
        port.len() > 0 ==> port[0] == ':',
        forall|i: int| 1 <= i < port.len() ==> '0' <= (#[trigger] port[i]) && port[i] <= '9',
        port.len() == 0 && back_dots.len() == 0 && domain.len() > 0 ==> (forall|i: int|
            0 <= i < domain.len() ==> (#[trigger] domain[i]) != ':') || (domain.last() != ':' && !(
        '0' <= domain.last() && domain.last() <= '9')),
        tail.len() > 0 ==> tail[0] == '/' || tail[0] == '?' || tail[0] == '#',
    ensures
        domain_rule(user + front_dots + domain + back_dots + port + tail) == if domain.len() > 0 {
            Some(text::ascii_lowercase(domain))
        } else {
            None
        },
{
    let ws = text::CharClass::WhiteSpace;
    let dotted = front_dots + domain + back_dots;
    let host = dotted + port;
    let authority = user + host;
    let whole = authority + tail;
    assert(user + front_dots + domain + back_dots + port + tail =~= whole);
    text::lemma_trim_fixed(whole, ws);
    assert forall|i: int| 0 <= i < dotted.len() implies (#[trigger] dotted[i]) != '/' && dotted[i]
        != '?' && dotted[i] != '#' && dotted[i] != '@' by {
        if i < front_dots.len() {
            assert(dotted[i] == front_dots[i]);
        } else if i < front_dots.len() + domain.len() {
            assert(dotted[i] == domain[i - front_dots.len()]);
        } else {
            assert(dotted[i] == back_dots[i - front_dots.len() - domain.len()]);
        }
    }
    assert forall|i: int| 0 <= i < host.len() implies (#[trigger] host[i]) != '/' && host[i] != '?'
        && host[i] != '#' && host[i] != '@' by {
        if i < dotted.len() {
            assert(host[i] == dotted[i]);
        } else {
            assert(host[i] == port[i - dotted.len()]);
        }
    }
    assert forall|i: int| 0 <= i < authority.len() implies !text::CharClass::HostEnd.has(
        #[trigger] authority[i],
    ) by {
        if i < user.len() {
            assert(authority[i] == user[i]);
        } else {
            assert(authority[i] == host[i - user.len()]);
        }
    }
    text::law_cut_at_first(authority, tail, text::CharClass::HostEnd);
    assert(text::trim(authority) == authority) by {
        if authority.len() > 0 {
            assert(authority[0] == whole[0]);
            let n = authority.len() - 1;
            if port.len() > 0 {
                assert(authority[n] == port[port.len() - 1]);
            } else if back_dots.len() > 0 {
                assert(authority[n] == back_dots[back_dots.len() - 1]);
            } else if domain.len() > 0 {
                assert(authority[n] == domain[domain.len() - 1]);
            } else if front_dots.len() > 0 {
                assert(authority[n] == front_dots[front_dots.len() - 1]);
            } else {
                assert(authority[n] == user[user.len() - 1]);
            }
            text::lemma_trim_fixed(authority, ws);
        } else {
            text::lemma_trim_fixed(authority, ws);
        }
    }
    assert forall|i: int| 0 <= i < host.len() implies !text::CharClass::At.has(
        #[trigger] host[i],
    ) by {}
    text::law_cut_at_last(user, host, text::CharClass::At);
    lemma_port_is_cut(front_dots, domain, back_dots, port);
    text::law_trim_takes_the_ends(front_dots, domain, back_dots, text::CharClass::Dot);
}

proof fn lemma_port_is_cut(
    front_dots: Seq<char>,
    domain: Seq<char>,
    back_dots: Seq<char>,
    port: Seq<char>,
)
    requires
        forall|i: int| 0 <= i < front_dots.len() ==> (#[trigger] front_dots[i]) == '.',
        forall|i: int| 0 <= i < back_dots.len() ==> (#[trigger] back_dots[i]) == '.',
        port.len() > 0 ==> port[0] == ':',
        forall|i: int| 1 <= i < port.len() ==> '0' <= (#[trigger] port[i]) && port[i] <= '9',
        port.len() == 0 && back_dots.len() == 0 && domain.len() > 0 ==> (forall|i: int|
            0 <= i < domain.len() ==> (#[trigger] domain[i]) != ':') || (domain.last() != ':' && !(
        '0' <= domain.last() && domain.last() <= '9')),
    ensures
        without_port(front_dots + domain + back_dots + port) == front_dots + domain + back_dots,
{
    let k = text::CharClass::Colon;
    let dotted = front_dots + domain + back_dots;
    let host = dotted + port;
    if port.len() > 0 {
        let digits = port.skip(1);
        let front = dotted.push(':');
        assert(host =~= front + digits);
        assert forall|i: int| 0 <= i < digits.len() implies !k.has(#[trigger] digits[i])
            && text::is_digit(digits[i]) by {
            assert(digits[i] == port[i + 1]);
        }
        text::law_cut_at_last(front, digits, k);
        assert(k.has(host[dotted.len() as int]));
        assert(text::all_digits(digits));
        assert(front.drop_last() =~= dotted);
    } else {
        assert(host =~= dotted);
        let n = dotted.len() as int;
        if n > 0 {
            let last = dotted[n - 1];
            if back_dots.len() > 0 {
                assert(last == back_dots[back_dots.len() - 1]);
            } else if domain.len() > 0 {
                assert(last == domain[domain.len() - 1]);
            } else {
                assert(last == front_dots[front_dots.len() - 1]);
            }
            if text::has_class(dotted, k) && text::all_digits(text::after_last(dotted, k)) {
                if !(last != ':' && !text::is_digit(last)) {
                    let i = choose|i: int| 0 <= i < dotted.len() && k.has(#[trigger] dotted[i]);
                    if i < front_dots.len() {
                        assert(dotted[i] == front_dots[i]);
                    } else if i < front_dots.len() + domain.len() {
                        assert(dotted[i] == domain[i - front_dots.len()]);
                    } else {
                        assert(dotted[i] == back_dots[i - front_dots.len() - domain.len()]);
                    }
                } else {
                    let behind = text::after_last(dotted, k);
                    assert(behind == text::after_last(dotted.drop_last(), k).push(last));
                    assert(behind[behind.len() - 1] == last);
                    assert(text::is_digit(behind[behind.len() - 1]));
                }
            }
        }
    }
}

/// In a text that is no absolute address, a web scheme in front of the host is cut.
pub proof fn law_scheme_is_cut(s: Seq<char>)
    ensures
        bare_host("https://"@ + s) == bare_host(s),
        !text::starts_with(s, "https://"@) ==> bare_host("http://"@ + s) == bare_host(s),
        text::trim(s) == s && s.len() > 0 && parsed_host(s) is None ==> domain_rule(s) == bare_host(
            s,
        ),
{
    reveal_strlit("https://");
    reveal_strlit("http://");
    text::law_strip_prefixes("https://"@, s);
    text::law_strip_prefixes("http://"@, s);
    if !text::starts_with(s, "https://"@) {
        let whole = "http://"@ + s;
        if text::starts_with(whole, "https://"@) {
            assert(whole.subrange(0, 8)[4] == whole[4]);
            assert(whole[4] == "http://"@[4]);
        }
    }
}

/// Nothing of a host is left out of what the contracts say of it.
pub proof fn law_view_of_a_host(host: UrlHost)
    ensures
        host.domain is None ==> host@.domain is None,
        host.domain matches Some(t) ==> host@.domain == Some(t@),
        host.host is None ==> host@.host is None,
        host.host matches Some(t) ==> host@.host == Some(t@),
{
}

/// An optional host is there, with all of its parts, exactly where it is.
pub proof fn law_view_of_an_optional_host(host: UrlHost)
    ensures
        opt_host(Some(host)) == Some(host@),
        opt_host(None) is None,
{
}

} // verus!
