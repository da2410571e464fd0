//! Text as a sequence of characters: trimming, splitting, searching, case and
//! decimal numbers.

use vstd::prelude::*;

verus! {

/// The Unicode `White_Space` property.
pub open spec fn is_white_space(c: char) -> bool {
    ||| '\u{9}' <= c <= '\u{d}'
    ||| c == '\u{20}'
    ||| c == '\u{85}'
    ||| c == '\u{a0}'
    ||| c == '\u{1680}'
    ||| '\u{2000}' <= c <= '\u{200a}'
    ||| c == '\u{2028}'
    ||| c == '\u{2029}'
    ||| c == '\u{202f}'
    ||| c == '\u{205f}'
    ||| c == '\u{3000}'
}

/// `char::is_whitespace` tells whether a character has the Unicode
/// `White_Space` property.
pub assume_specification[ char::is_whitespace ](c: char) -> (b: bool)
    ensures
        b == is_white_space(c),
;

/// `String::push` appends one character.
pub assume_specification[ String::push ](s: &mut String, c: char)
    ensures
        final(s)@ == old(s)@.push(c),
;

/// The sets of characters at which text is trimmed or cut.
#[derive(Clone, Copy)]
pub enum CharClass {
    WhiteSpace,
    /// `"`
    Quote,
    /// `.`
    Dot,
    /// `@`
    At,
    /// `:`
    Colon,
    /// `/` and `\`
    PathSeparator,
    /// `/`, `?` and `#`, which end the host part of an address.
    HostEnd,
}

impl CharClass {
    pub open spec fn has(self, c: char) -> bool {
        match self {
            CharClass::WhiteSpace => is_white_space(c),
            CharClass::Quote => c == '"',
            CharClass::Dot => c == '.',
            CharClass::At => c == '@',
            CharClass::Colon => c == ':',
            CharClass::PathSeparator => c == '/' || c == '\\',
            CharClass::HostEnd => c == '/' || c == '?' || c == '#',
        }
    }

    pub fn test(self, c: char) -> (b: bool)
        ensures
            b == self.has(c),
    {
        match self {
            CharClass::WhiteSpace => c.is_whitespace(),
            CharClass::Quote => c == '"',
            CharClass::Dot => c == '.',
            CharClass::At => c == '@',
            CharClass::Colon => c == ':',
            CharClass::PathSeparator => c == '/' || c == '\\',
            CharClass::HostEnd => c == '/' || c == '?' || c == '#',
        }
    }
}

/// The characters of an optional text.
pub open spec fn opt_text(o: Option<String>) -> Option<Seq<char>> {
    match o {
        Some(s) => Some(s@),
        None => None,
    }
}

/// The characters of an optional borrowed text.
pub open spec fn opt_str(o: Option<&str>) -> Option<Seq<char>> {
    match o {
        Some(s) => Some(s@),
        None => None,
    }
}

/// The characters of each text in a list.
pub open spec fn texts(list: Seq<String>) -> Seq<Seq<char>> {
    Seq::new(list.len(), |i: int| list[i]@)
}

// ---------------------------------------------------------------------------
// Conversions
// ---------------------------------------------------------------------------
/// The characters of `s`, in order.
pub fn chars_of(s: &str) -> (v: Vec<char>)
    ensures
        v@ == s@,
{
    let mut v: Vec<char> = Vec::new();
    for c in it: s.chars()
        invariant
            v@ == it.seq().take(it.index() as int),
            it.seq() == s@,
    {
        v.push(c);
        assert(it.seq().take(it.index() + 1) =~= it.seq().take(it.index() as int).push(c));
    }
    assert(s@.take(s@.len() as int) =~= s@);
    v
}

/// The text made of the characters of `s`.
pub fn string_of(s: &[char]) -> (r: String)
    ensures
        r@ == s@,
{
    let mut r = String::new();
    let mut i: usize = 0;
    while i < s.len()
        invariant
            i <= s@.len(),
            r@ == s@.take(i as int),
        decreases s@.len() - i,
    {
        r.push(s[i]);
        i += 1;
        assert(s@.take(i as int) =~= s@.take(i - 1).push(s@[i - 1]));
    }
    assert(s@.take(i as int) =~= s@);
    r
}

/// A copy of an optional text.
pub fn clone_opt(o: &Option<String>) -> (r: Option<String>)
    ensures
        opt_text(r) == opt_text(*o),
{
    match o {
        Some(s) => Some(s.clone()),
        None => None,
    }
}

/// Appends `t` to `s`.
pub fn push_chars(s: &mut String, t: &[char])
    ensures
        final(s)@ == old(s)@ + t@,
{
    let ghost before = s@;
    let mut i: usize = 0;
    while i < t.len()
        invariant
            i <= t@.len(),
            s@ == before + t@.take(i as int),
        decreases t@.len() - i,
    {
        s.push(t[i]);
        i += 1;
        assert(before + t@.take(i as int) =~= (before + t@.take(i - 1)).push(t@[i - 1]));
    }
    assert(t@.take(i as int) =~= t@);
}

// ---------------------------------------------------------------------------
// Comparison and search
// ---------------------------------------------------------------------------
/// `t` stands in `s` at position `i`.
pub open spec fn found_at(s: Seq<char>, t: Seq<char>, i: int) -> bool {
    0 <= i <= s.len() - t.len() && s.subrange(i, i + t.len()) == t
}

/// `t` stands somewhere in `s`. The empty text stands in every text.
pub open spec fn contains_text(s: Seq<char>, t: Seq<char>) -> bool {
    exists|i: int| found_at(s, t, i)
}

pub open spec fn ends_with(s: Seq<char>, t: Seq<char>) -> bool {
    found_at(s, t, s.len() - t.len())
}

pub open spec fn starts_with(s: Seq<char>, t: Seq<char>) -> bool {
    found_at(s, t, 0)
}

/// Whether `t` stands in `s` at position `i`.
pub fn is_at(s: &[char], t: &[char], i: usize) -> (b: bool)
    ensures
        b == found_at(s@, t@, i as int),
{
    if i > s.len() || t.len() > s.len() - i {
        return false;
    }
    let n = s.len();
    let mut j: usize = 0;
    while j < t.len()
        invariant
            n == s@.len(),
            i + t@.len() <= n,
            j <= t@.len(),
            forall|k: int| 0 <= k < j ==> s@[i + k] == t@[k],
        decreases t@.len() - j,
    {
        if s[i + j] != t[j] {
            assert(s@.subrange(i as int, i + t@.len())[j as int] == s@[i + j]);
            return false;
        }
        j += 1;
    }
    assert(s@.subrange(i as int, i + t@.len()) =~= t@);
    true
}

/// Whether two texts are the same.
pub fn same_chars(s: &[char], t: &[char]) -> (b: bool)
    ensures
        b == (s@ == t@),
{
    if s.len() != t.len() {
        return false;
    }
    let b = is_at(s, t, 0);
    assert(s@.subrange(0, t@.len() as int) =~= s@);
    b
}

/// Whether two texts are the same.
pub fn same_text(s: &str, t: &str) -> (b: bool)
    ensures
        b == (s@ == t@),
{
    same_chars(chars_of(s).as_slice(), chars_of(t).as_slice())
}

/// Whether `t` stands somewhere in `s`.
pub fn has_text(s: &[char], t: &[char]) -> (b: bool)
    ensures
        b == contains_text(s@, t@),
{
    if t.len() > s.len() {
        return false;
    }
    let last: usize = s.len() - t.len();
    let mut i: usize = 0;
    while i <= last
        invariant
            last == s@.len() - t@.len(),
            i <= last + 1,
            last < usize::MAX || i <= last,
            forall|k: int| 0 <= k < i ==> !found_at(s@, t@, k),
        ensures
            forall|k: int| 0 <= k <= last ==> !found_at(s@, t@, k),
        decreases last + 1 - i,
    {
        if is_at(s, t, i) {
            return true;
        }
        if i == last {
            break;
        }
        i += 1;
    }
    false
}

/// Whether `s` ends with `t`.
pub fn has_suffix(s: &[char], t: &[char]) -> (b: bool)
    ensures
        b == ends_with(s@, t@),
{
    t.len() <= s.len() && is_at(s, t, s.len() - t.len())
}

// ---------------------------------------------------------------------------
// Trimming
// ---------------------------------------------------------------------------
/// `s` without the characters of `k` at its front.
pub open spec fn trim_front(s: Seq<char>, k: CharClass) -> Seq<char>
    decreases s.len(),
{
    if s.len() > 0 && k.has(s[0]) {
        trim_front(s.drop_first(), k)
    } else {
        s
    }
}

/// `s` without the characters of `k` at its back.
pub open spec fn trim_back(s: Seq<char>, k: CharClass) -> Seq<char>
    decreases s.len(),
{
    if s.len() > 0 && k.has(s.last()) {
        trim_back(s.drop_last(), k)
    } else {
        s
    }
}

/// `s` without the characters of `k` at either end.
pub open spec fn trim_class(s: Seq<char>, k: CharClass) -> Seq<char> {
    trim_back(trim_front(s, k), k)
}

/// `s` without white space at either end.
pub open spec fn trim(s: Seq<char>) -> Seq<char> {
    trim_class(s, CharClass::WhiteSpace)
}

/// The part of `s` between the characters of `k` at its ends.
pub fn trimmed<'a>(s: &'a [char], k: CharClass) -> (r: &'a [char])
    ensures
        r@ == trim_class(s@, k),
{
    let mut a: usize = 0;
    assert(s@.skip(0) =~= s@);
    while a < s.len() && k.test(s[a])
        invariant
            a <= s@.len(),
            trim_front(s@, k) == trim_front(s@.skip(a as int), k),
        decreases s@.len() - a,
    {
        assert(s@.skip(a as int).drop_first() =~= s@.skip(a + 1));
        a += 1;
    }
    assert(trim_front(s@, k) == s@.skip(a as int));
    let mut b: usize = s.len();
    assert(s@.subrange(a as int, b as int) =~= s@.skip(a as int));
    while b > a && k.test(s[b - 1])
        invariant
            a <= b <= s@.len(),
            trim_class(s@, k) == trim_back(s@.subrange(a as int, b as int), k),
        decreases b,
    {
        assert(s@.subrange(a as int, b as int).drop_last() =~= s@.subrange(a as int, b - 1));
        b -= 1;
    }
    vstd::slice::slice_subrange(s, a, b)
}

/// `s` without white space at either end.
pub fn trim_text(s: &str) -> (r: String)
    ensures
        r@ == trim(s@),
{
    let v = chars_of(s);
    string_of(trimmed(v.as_slice(), CharClass::WhiteSpace))
}

/// `s` without the copies of `t` at its end.
pub open spec fn strip_suffixes(s: Seq<char>, t: Seq<char>) -> Seq<char>
    decreases s.len(),
{
    if t.len() > 0 && ends_with(s, t) {
        strip_suffixes(s.take(s.len() - t.len()), t)
    } else {
        s
    }
}

/// `s` without the copies of `t` at its front.
pub open spec fn strip_prefixes(s: Seq<char>, t: Seq<char>) -> Seq<char>
    decreases s.len(),
{
    if t.len() > 0 && starts_with(s, t) {
        strip_prefixes(s.skip(t.len() as int), t)
    } else {
        s
    }
}

/// `s` without the copies of `t` at its end.
pub fn without_suffixes<'a>(s: &'a [char], t: &[char]) -> (r: &'a [char])
    ensures
        r@ == strip_suffixes(s@, t@),
{
    let mut b: usize = s.len();
    assert(s@.take(b as int) =~= s@);
    while t.len() > 0 && has_suffix(vstd::slice::slice_subrange(s, 0, b), t)
        invariant
            b <= s@.len(),
            strip_suffixes(s@, t@) == strip_suffixes(s@.take(b as int), t@),
        decreases b,
    {
        let ghost cut = s@.take(b as int);
        assert(s@.subrange(0, b as int) =~= cut);
        assert(cut.take(cut.len() - t@.len()) =~= s@.take(b - t@.len()));
        b -= t.len();
    }
    assert(s@.subrange(0, b as int) =~= s@.take(b as int));
    vstd::slice::slice_subrange(s, 0, b)
}

/// `s` without the copies of `t` at its front.
pub fn without_prefixes<'a>(s: &'a [char], t: &[char]) -> (r: &'a [char])
    ensures
        r@ == strip_prefixes(s@, t@),
{
    let n = s.len();
    let mut a: usize = 0;
    assert(s@.skip(0) =~= s@);
    while t.len() > 0 && is_at(s, t, a)
        invariant
            n == s@.len(),
            a <= n,
            strip_prefixes(s@, t@) == strip_prefixes(s@.skip(a as int), t@),
        decreases s@.len() - a,
    {
        let ghost rest = s@.skip(a as int);
        assert(rest.subrange(0, t@.len() as int) =~= s@.subrange(a as int, a + t@.len()));
        assert(starts_with(rest, t@));
        assert(rest.skip(t@.len() as int) =~= s@.skip(a + t@.len()));
        a += t.len();
    }
    proof {
        let rest = s@.skip(a as int);
        if t@.len() > 0 && starts_with(rest, t@) {
            assert(rest.subrange(0, t@.len() as int) =~= s@.subrange(a as int, a + t@.len()));
            assert(found_at(s@, t@, a as int));
        }
        assert(s@.subrange(a as int, s@.len() as int) =~= rest);
    }
    vstd::slice::slice_subrange(s, a, s.len())
}

// ---------------------------------------------------------------------------
// Cutting
// ---------------------------------------------------------------------------
/// Some character of `s` is in `k`.
pub open spec fn has_class(s: Seq<char>, k: CharClass) -> bool {
    exists|i: int| 0 <= i < s.len() && k.has(#[trigger] s[i])
}

/// The part of `s` before its first character of `k`; all of it where none is.
pub open spec fn before_first(s: Seq<char>, k: CharClass) -> Seq<char>
    decreases s.len(),
{
    if s.len() == 0 || k.has(s[0]) {
        Seq::empty()
    } else {
        seq![s[0]] + before_first(s.drop_first(), k)
    }
}

/// The part of `s` behind its last character of `k`; all of it where none is.
pub open spec fn after_last(s: Seq<char>, k: CharClass) -> Seq<char>
    decreases s.len(),
{
    if s.len() == 0 || k.has(s.last()) {
        Seq::empty()
    } else {
        after_last(s.drop_last(), k).push(s.last())
    }
}

/// The part of `s` before its last character of `k`, where there is one.
pub open spec fn before_last(s: Seq<char>, k: CharClass) -> Seq<char> {
    s.take(s.len() - after_last(s, k).len() - 1)
}

/// A prefix free of `k` that ends `s` or stands before a character of `k` is
/// what comes before the first such character.
pub proof fn lemma_before_first(s: Seq<char>, k: CharClass, n: int)
    requires
        0 <= n <= s.len(),
        forall|i: int| 0 <= i < n ==> !k.has(#[trigger] s[i]),
        n < s.len() ==> k.has(s[n]),
    ensures
        before_first(s, k) == s.take(n),
    decreases n,
{
    if n == 0 {
        assert(s.take(0) =~= Seq::<char>::empty());
    } else {
        let rest = s.drop_first();
        assert forall|i: int| 0 <= i < n - 1 implies !k.has(#[trigger] rest[i]) by {
            assert(rest[i] == s[i + 1]);
        }
        lemma_before_first(rest, k, n - 1);
        assert(s.take(n) =~= seq![s[0]] + rest.take(n - 1));
    }
}

/// A suffix free of `k` that is all of `s` or stands behind a character of `k`
/// is what comes behind the last such character.
pub proof fn lemma_after_last(s: Seq<char>, k: CharClass, n: int)
    requires
        0 <= n <= s.len(),
        forall|i: int| n <= i < s.len() ==> !k.has(#[trigger] s[i]),
        n > 0 ==> k.has(s[n - 1]),
    ensures
        after_last(s, k) == s.skip(n),
    decreases s.len() - n,
{
    if n == s.len() {
        assert(s.skip(n) =~= Seq::<char>::empty());
    } else {
        let rest = s.drop_last();
        assert forall|i: int| n <= i < rest.len() implies !k.has(#[trigger] rest[i]) by {
            assert(rest[i] == s[i]);
        }
        lemma_after_last(rest, k, n);
        assert(s.skip(n) =~= rest.skip(n).push(s.last()));
    }
}

/// What comes behind the last character of `k` is shorter than the whole
/// exactly where there is such a character.
pub proof fn lemma_after_last_cut(s: Seq<char>, k: CharClass)
    ensures
        after_last(s, k).len() <= s.len(),
        after_last(s, k).len() < s.len() <==> has_class(s, k),
    decreases s.len(),
{
    if s.len() > 0 {
        if k.has(s.last()) {
            assert(k.has(s[s.len() - 1]));
        } else {
            let rest = s.drop_last();
            lemma_after_last_cut(rest, k);
            if has_class(rest, k) {
                let i = choose|i: int| 0 <= i < rest.len() && k.has(#[trigger] rest[i]);
                assert(k.has(s[i]));
            }
            if has_class(s, k) {
                let i = choose|i: int| 0 <= i < s.len() && k.has(#[trigger] s[i]);
                assert(k.has(rest[i]));
            }
        }
    }
}

/// The part of `s` before its first character of `k`.
pub fn head_before<'a>(s: &'a [char], k: CharClass) -> (r: &'a [char])
    ensures
        r@ == before_first(s@, k),
{
    let mut n: usize = 0;
    while n < s.len() && !k.test(s[n])
        invariant
            n <= s@.len(),
            forall|i: int| 0 <= i < n ==> !k.has(#[trigger] s@[i]),
        decreases s@.len() - n,
    {
        n += 1;
    }
    proof {
        lemma_before_first(s@, k, n as int);
        assert(s@.subrange(0, n as int) =~= s@.take(n as int));
    }
    vstd::slice::slice_subrange(s, 0, n)
}

/// The part of `s` behind its last character of `k`.
pub fn tail_after<'a>(s: &'a [char], k: CharClass) -> (r: &'a [char])
    ensures
        r@ == after_last(s@, k),
{
    let mut n: usize = s.len();
    while n > 0 && !k.test(s[n - 1])
        invariant
            n <= s@.len(),
            forall|i: int| n <= i < s@.len() ==> !k.has(#[trigger] s@[i]),
        decreases n,
    {
        n -= 1;
    }
    proof {
        lemma_after_last(s@, k, n as int);
        assert(s@.subrange(n as int, s@.len() as int) =~= s@.skip(n as int));
    }
    vstd::slice::slice_subrange(s, n, s.len())
}

/// The runs of characters that are not white space, in order.
pub open spec fn words(s: Seq<char>) -> Seq<Seq<char>>
    decreases s.len(),
{
    if s.len() == 0 {
        Seq::empty()
    } else if is_white_space(s[0]) {
        words(s.drop_first())
    } else {
        let w = before_first(s, CharClass::WhiteSpace);
        if w.len() == 0 || w.len() > s.len() {
            Seq::empty()
        } else {
            seq![w] + words(s.skip(w.len() as int))
        }
    }
}

/// The characters of each text in a list.
pub open spec fn char_lists(list: Seq<Vec<char>>) -> Seq<Seq<char>> {
    Seq::new(list.len(), |i: int| list[i]@)
}

/// The runs of characters that are not white space, in order.
pub fn words_of(s: &[char]) -> (r: Vec<Vec<char>>)
    ensures
        char_lists(r@) == words(s@),
{
    let mut r: Vec<Vec<char>> = Vec::new();
    let mut i: usize = 0;
    assert(s@.skip(0) =~= s@);
    assert(char_lists(r@) + words(s@) =~= words(s@));
    while i < s.len()
        invariant
            i <= s@.len(),
            char_lists(r@) + words(s@.skip(i as int)) == words(s@),
        decreases s@.len() - i,
    {
        let ghost rest = s@.skip(i as int);
        if s[i].is_whitespace() {
            assert(rest.drop_first() =~= s@.skip(i + 1));
            i += 1;
        } else {
            assert(s@.subrange(i as int, s@.len() as int) =~= rest);
            let w = head_before(vstd::slice::slice_subrange(s, i, s.len()), CharClass::WhiteSpace);
            proof {
                lemma_before_first_len(rest, CharClass::WhiteSpace);
            }
            let ghost done = r@;
            let mut copy: Vec<char> = Vec::new();
            let mut j: usize = 0;
            while j < w.len()
                invariant
                    j <= w@.len(),
                    copy@ == w@.take(j as int),
                decreases w@.len() - j,
            {
                copy.push(w[j]);
                j += 1;
                assert(w@.take(j as int) =~= w@.take(j - 1).push(w@[j - 1]));
            }
            assert(w@.take(j as int) =~= w@);
            let n = copy.len();
            r.push(copy);
            assert(rest.skip(n as int) =~= s@.skip(i + n));
            assert(char_lists(r@) =~= char_lists(done).push(w@));
            assert(char_lists(r@) + words(s@.skip(i + n)) =~= char_lists(done) + (seq![w@] + words(
                s@.skip(i + n),
            )));
            i += n;
        }
    }
    assert(words(s@.skip(i as int)) =~= Seq::empty());
    assert(char_lists(r@) + words(s@.skip(i as int)) =~= char_lists(r@));
    r
}

/// What comes before the first character of `k` is no longer than the whole,
/// and is empty only where such a character comes first.
pub proof fn lemma_before_first_len(s: Seq<char>, k: CharClass)
    ensures
        before_first(s, k).len() <= s.len(),
        s.len() > 0 && !k.has(s[0]) ==> before_first(s, k).len() > 0,
    decreases s.len(),
{
    if s.len() > 0 && !k.has(s[0]) {
        lemma_before_first_len(s.drop_first(), k);
    }
}

// ---------------------------------------------------------------------------
// Case
// ---------------------------------------------------------------------------
/// `A` to `Z` become `a` to `z`; every other character stays.
pub open spec fn ascii_lower(c: char) -> char {
    if 'A' <= c <= 'Z' {
        ((c as u32 + 32) as u32) as char
    } else {
        c
    }
}

pub open spec fn ascii_lowercase(s: Seq<char>) -> Seq<char> {
    Seq::new(s.len(), |i: int| ascii_lower(s[i]))
}

/// The Kelvin sign, whose lower case is the letter `k`.
pub const KELVIN_SIGN: char = '\u{212a}';

pub open spec fn is_ascii_char(c: char) -> bool {
    c <= '\u{7f}'
}

pub open spec fn all_ascii(s: Seq<char>) -> bool {
    forall|i: int| 0 <= i < s.len() ==> is_ascii_char(#[trigger] s[i])
}

/// Every character of `s` has a lower case in ASCII: it is in ASCII itself, or
/// the Kelvin sign.
pub open spec fn lowers_to_ascii(s: Seq<char>) -> bool {
    forall|i: int|
        0 <= i < s.len() ==> (is_ascii_char(#[trigger] s[i]) || s[i] == KELVIN_SIGN)
}

/// ASCII, the Kelvin sign, or one of the unified Han ideographs, which have no
/// case.
pub open spec fn is_simple_case(c: char) -> bool {
    is_ascii_char(c) || c == KELVIN_SIGN || '\u{4e00}' <= c <= '\u{9fff}'
}

pub open spec fn all_simple_case(s: Seq<char>) -> bool {
    forall|i: int| 0 <= i < s.len() ==> is_simple_case(#[trigger] s[i])
}

/// The lower case of a character of simple case.
pub open spec fn simple_lower(c: char) -> char {
    if c == KELVIN_SIGN {
        'k'
    } else {
        ascii_lower(c)
    }
}

pub open spec fn simple_lowercase(s: Seq<char>) -> Seq<char> {
    Seq::new(s.len(), |i: int| simple_lower(s[i]))
}

/// What `str::to_lowercase` makes of a text.
pub uninterp spec fn unicode_lowercase(s: Seq<char>) -> Seq<char>;

/// The lower case of a text: character by character where each is of simple
/// case, by all of Unicode otherwise.
pub open spec fn lowercase(s: Seq<char>) -> Seq<char> {
    if all_simple_case(s) {
        simple_lowercase(s)
    } else {
        unicode_lowercase(s)
    }
}

/// `str::to_lowercase` depends on its text alone, and maps by the Unicode
/// Character Database: ASCII letters to the lower case ones, the Kelvin sign to
/// `k`, and characters of a script without case to themselves. No other
/// character outside of ASCII has a lower case in ASCII alone, so a text that
/// holds one has a lower case that leaves ASCII. The lower case of every other
/// text is left unsaid.
#[verifier::external_body]
pub(crate) fn to_lowercase(s: &str) -> (r: String)
    ensures
        r@ == unicode_lowercase(s@),
        all_simple_case(s@) ==> r@ == simple_lowercase(s@),
        !lowers_to_ascii(s@) ==> !all_ascii(r@),
{
    s.to_lowercase()
}

/// The lower case of one character, by the ASCII letters alone.
pub fn lower_char(c: char) -> (r: char)
    ensures
        r == ascii_lower(c),
{
    if 'A' <= c && c <= 'Z' {
        let n: u8 = c as u8;
        (n + 32) as char
    } else {
        c
    }
}

/// `s` with its ASCII letters in lower case.
pub fn lower_text(s: &[char]) -> (r: String)
    ensures
        r@ == ascii_lowercase(s@),
{
    let mut r = String::new();
    let mut i: usize = 0;
    while i < s.len()
        invariant
            i <= s@.len(),
            r@ == ascii_lowercase(s@.take(i as int)),
        decreases s@.len() - i,
    {
        r.push(lower_char(s[i]));
        i += 1;
        assert(r@ =~= ascii_lowercase(s@.take(i as int)));
    }
    assert(s@.take(i as int) =~= s@);
    r
}

// ---------------------------------------------------------------------------
// Decimal numbers
// ---------------------------------------------------------------------------
pub open spec fn is_digit(c: char) -> bool {
    '0' <= c <= '9'
}

pub open spec fn all_digits(s: Seq<char>) -> bool {
    forall|i: int| 0 <= i < s.len() ==> is_digit(#[trigger] s[i])
}

/// The number that a row of digits stands for.
pub open spec fn decimal_value(s: Seq<char>) -> nat
    decreases s.len(),
{
    if s.len() == 0 {
        0
    } else {
        (decimal_value(s.drop_last()) * 10 + (s.last() as u32 - '0' as u32)) as nat
    }
}

/// `s` without a `+` at its front.
pub open spec fn without_plus(s: Seq<char>) -> Seq<char> {
    if s.len() > 0 && s[0] == '+' {
        s.drop_first()
    } else {
        s
    }
}

/// The number that `s` stands for: an optional `+` and at least one digit,
/// nothing else, and no more than 64 bits hold.
pub open spec fn parse_u64(s: Seq<char>) -> Option<u64> {
    let d = without_plus(s);
    if d.len() > 0 && all_digits(d) && decimal_value(d) <= u64::MAX {
        Some(decimal_value(d) as u64)
    } else {
        None
    }
}

pub fn is_digit_char(c: char) -> (b: bool)
    ensures
        b == is_digit(c),
{
    '0' <= c && c <= '9'
}

/// Whether every character of `s` is a digit.
pub fn only_digits(s: &[char]) -> (b: bool)
    ensures
        b == all_digits(s@),
{
    let mut i: usize = 0;
    while i < s.len()
        invariant
            i <= s@.len(),
            forall|j: int| 0 <= j < i ==> is_digit(#[trigger] s@[j]),
        decreases s@.len() - i,
    {
        if !is_digit_char(s[i]) {
            return false;
        }
        i += 1;
    }
    true
}

/// A longer row of digits stands for no smaller a number.
proof fn lemma_decimal_grows(s: Seq<char>, n: int)
    requires
        0 <= n <= s.len(),
        all_digits(s),
    ensures
        decimal_value(s.take(n)) <= decimal_value(s),
    decreases s.len(),
{
    if n < s.len() {
        let rest = s.drop_last();
        assert forall|i: int| 0 <= i < rest.len() implies is_digit(#[trigger] rest[i]) by {
            assert(rest[i] == s[i]);
        }
        lemma_decimal_grows(rest, n);
        assert(rest.take(n) =~= s.take(n));
        assert(is_digit(s[s.len() - 1]));
    } else {
        assert(s.take(n) =~= s);
    }
}

/// The number that `s` stands for, where it is one.
pub fn read_u64(s: &[char]) -> (r: Option<u64>)
    ensures
        r == parse_u64(s@),
{
    let start: usize = if s.len() > 0 && s[0] == '+' {
        1
    } else {
        0
    };
    assert(s@.subrange(start as int, s@.len() as int) =~= without_plus(s@));
    let d = vstd::slice::slice_subrange(s, start, s.len());
    if d.len() == 0 || !only_digits(d) {
        return None;
    }
    let mut value: u64 = 0;
    let mut i: usize = 0;
    while i < d.len()
        invariant
            d@ == without_plus(s@),
            all_digits(d@),
            i <= d@.len(),
            value == decimal_value(d@.take(i as int)),
        decreases d@.len() - i,
    {
        let ghost next = d@.take(i + 1);
        assert(next.drop_last() =~= d@.take(i as int));
        assert(next.last() == d@[i as int]);
        assert(is_digit(d@[i as int]));
        proof {
            lemma_decimal_grows(d@, i + 1);
        }
        let digit: u64 = d[i] as u64 - '0' as u64;
        if value > (u64::MAX - digit) / 10 {
            assert(decimal_value(next) == value * 10 + digit);
            assert(decimal_value(d@) > u64::MAX);
            return None;
        }
        value = value * 10 + digit;
        i += 1;
    }
    assert(d@.take(i as int) =~= d@);
    Some(value)
}

// ---------------------------------------------------------------------------
// Facts about trimming and case
// ---------------------------------------------------------------------------
/// Trimming the front keeps a suffix that does not begin with `k`.
pub proof fn lemma_trim_front(s: Seq<char>, k: CharClass)
    ensures
        trim_front(s, k).len() <= s.len(),
        trim_front(s, k) == s.skip(s.len() - trim_front(s, k).len()),
        trim_front(s, k).len() > 0 ==> !k.has(trim_front(s, k)[0]),
    decreases s.len(),
{
    if s.len() > 0 && k.has(s[0]) {
        let rest = s.drop_first();
        lemma_trim_front(rest, k);
        let n = trim_front(rest, k).len();
        assert(rest.skip(rest.len() - n) =~= s.skip(s.len() - n));
    } else {
        assert(s.skip(0) =~= s);
    }
}

/// Trimming the back keeps a prefix that does not end with `k`.
pub proof fn lemma_trim_back(s: Seq<char>, k: CharClass)
    ensures
        trim_back(s, k).len() <= s.len(),
        trim_back(s, k) == s.take(trim_back(s, k).len() as int),
        trim_back(s, k).len() > 0 ==> !k.has(trim_back(s, k).last()),
    decreases s.len(),
{
    if s.len() > 0 && k.has(s.last()) {
        let rest = s.drop_last();
        lemma_trim_back(rest, k);
        let n = trim_back(rest, k).len() as int;
        assert(rest.take(n) =~= s.take(n));
    } else {
        assert(s.take(s.len() as int) =~= s);
    }
}

/// A trimmed text neither begins nor ends with a character of `k`, and is a
/// part of the whole.
pub proof fn lemma_trim_ends(s: Seq<char>, k: CharClass)
    ensures
        trim_class(s, k).len() > 0 ==> !k.has(trim_class(s, k)[0]) && !k.has(
            trim_class(s, k).last(),
        ),
        exists|a: int|
            0 <= a <= s.len() - trim_class(s, k).len() && trim_class(s, k) == #[trigger] s.subrange(
                a,
                a + trim_class(s, k).len(),
            ),
{
    let t = trim_front(s, k);
    let r = trim_back(t, k);
    lemma_trim_front(s, k);
    lemma_trim_back(t, k);
    let a = s.len() - t.len();
    assert(t.take(r.len() as int) =~= s.subrange(a, a + r.len()));
    if r.len() > 0 {
        assert(r[0] == t[0]);
    }
}

/// A text that neither begins nor ends with a character of `k` is trimmed.
pub proof fn lemma_trim_fixed(s: Seq<char>, k: CharClass)
    requires
        s.len() > 0 ==> !k.has(s[0]) && !k.has(s.last()),
    ensures
        trim_class(s, k) == s,
{
}

/// White space around a text is what trimming takes away.
pub proof fn lemma_trim_padded(front: Seq<char>, s: Seq<char>, back: Seq<char>)
    requires
        forall|i: int| 0 <= i < front.len() ==> is_white_space(#[trigger] front[i]),
        forall|i: int| 0 <= i < back.len() ==> is_white_space(#[trigger] back[i]),
    ensures
        trim(front + s + back) == trim(s),
    decreases front.len(),
{
    let whole = front + s + back;
    if front.len() == 0 {
        assert(whole =~= s + back);
        lemma_trim_padded_behind(s, back);
    } else {
        let rest = front.drop_first();
        assert(whole[0] == front[0]);
        assert(whole.drop_first() =~= rest + s + back);
        assert forall|i: int| 0 <= i < rest.len() implies is_white_space(#[trigger] rest[i]) by {
            assert(rest[i] == front[i + 1]);
        }
        lemma_trim_padded(rest, s, back);
    }
}

proof fn lemma_trim_padded_behind(s: Seq<char>, back: Seq<char>)
    requires
        forall|i: int| 0 <= i < back.len() ==> is_white_space(#[trigger] back[i]),
    ensures
        trim(s + back) == trim(s),
    decreases s.len() + back.len(),
{
    let whole = s + back;
    if back.len() == 0 {
        assert(whole =~= s);
    } else if s.len() == 0 {
        let rest = back.drop_first();
        assert(whole[0] == back[0]);
        assert(whole.drop_first() =~= s + rest);
        assert forall|i: int| 0 <= i < rest.len() implies is_white_space(#[trigger] rest[i]) by {
            assert(rest[i] == back[i + 1]);
        }
        lemma_trim_padded_behind(s, rest);
    } else if is_white_space(s[0]) {
        assert(whole[0] == s[0]);
        assert(whole.drop_first() =~= s.drop_first() + back);
        lemma_trim_padded_behind(s.drop_first(), back);
    } else {
        let rest = back.drop_last();
        assert(whole[0] == s[0]);
        assert(whole.last() == back[back.len() - 1]);
        assert(whole.drop_last() =~= s + rest);
        assert((s + rest)[0] == s[0]);
        assert forall|i: int| 0 <= i < rest.len() implies is_white_space(#[trigger] rest[i]) by {
            assert(rest[i] == back[i]);
        }
        lemma_trim_padded_behind(s, rest);
    }
}

/// A text that ends in something other than white space is trimmed at its
/// front alone, and what is appended to it, if it is not white space either,
/// stays.
pub proof fn lemma_trim_appended(s: Seq<char>, t: Seq<char>)
    requires
        s.len() > 0,
        !is_white_space(s.last()),
        t.len() > 0,
        !is_white_space(t.last()),
    ensures
        trim(s).len() > 0,
        trim(s + t) == trim(s) + t,
    decreases s.len(),
{
    let k = CharClass::WhiteSpace;
    let whole = s + t;
    assert(whole[0] == s[0]);
    assert(whole.last() == t.last());
    if is_white_space(s[0]) {
        let rest = s.drop_first();
        assert(rest.last() == s.last());
        assert(whole.drop_first() =~= rest + t);
        lemma_trim_appended(rest, t);
    }
}

/// Only a text in ASCII is left in ASCII by taking ASCII away.
pub proof fn lemma_strip_keeps_ascii(s: Seq<char>, t: Seq<char>)
    requires
        all_ascii(t),
        all_ascii(strip_suffixes(s, t)),
    ensures
        all_ascii(s),
    decreases s.len(),
{
    if t.len() > 0 && ends_with(s, t) {
        let n = s.len() - t.len();
        let rest = s.take(n);
        lemma_strip_keeps_ascii(rest, t);
        assert forall|i: int| 0 <= i < s.len() implies is_ascii_char(#[trigger] s[i]) by {
            if i < n {
                assert(rest[i] == s[i]);
            } else {
                assert(s.subrange(n, n + t.len())[i - n] == s[i]);
                assert(is_ascii_char(t[i - n]));
            }
        }
    }
}

/// One more copy at the end does not change what is left.
pub proof fn lemma_strip_appended(s: Seq<char>, t: Seq<char>)
    requires
        t.len() > 0,
    ensures
        strip_suffixes(s + t, t) == strip_suffixes(s, t),
{
    let whole = s + t;
    assert(whole.subrange(whole.len() - t.len(), whole.len() - t.len() + t.len()) =~= t);
    assert(found_at(whole, t, whole.len() - t.len()));
    assert(whole.take(whole.len() - t.len()) =~= s);
}

/// The ASCII lower case keeps white space where it is, so it does not matter
/// whether a text is trimmed before or after.
pub proof fn lemma_lowercase_trim(s: Seq<char>)
    ensures
        ascii_lowercase(trim(s)) == trim(ascii_lowercase(s)),
{
    let k = CharClass::WhiteSpace;
    lemma_lowercase_trim_front(s);
    lemma_lowercase_trim_back(trim_front(s, k));
}

proof fn lemma_lowercase_trim_front(s: Seq<char>)
    ensures
        ascii_lowercase(trim_front(s, CharClass::WhiteSpace)) == trim_front(
            ascii_lowercase(s),
            CharClass::WhiteSpace,
        ),
    decreases s.len(),
{
    if s.len() > 0 {
        assert(is_white_space(s[0]) == is_white_space(ascii_lower(s[0])));
        if is_white_space(s[0]) {
            assert(ascii_lowercase(s).drop_first() =~= ascii_lowercase(s.drop_first()));
            lemma_lowercase_trim_front(s.drop_first());
        }
    }
}

proof fn lemma_lowercase_trim_back(s: Seq<char>)
    ensures
        ascii_lowercase(trim_back(s, CharClass::WhiteSpace)) == trim_back(
            ascii_lowercase(s),
            CharClass::WhiteSpace,
        ),
    decreases s.len(),
{
    if s.len() > 0 {
        assert(is_white_space(s.last()) == is_white_space(ascii_lower(s.last())));
        if is_white_space(s.last()) {
            assert(ascii_lowercase(s).drop_last() =~= ascii_lowercase(s.drop_last()));
            lemma_lowercase_trim_back(s.drop_last());
        }
    }
}

/// What comes before the first character of `k` is a prefix, and such a
/// character follows it unless it is the whole.
pub proof fn lemma_before_first_is_prefix(s: Seq<char>, k: CharClass)
    ensures
        before_first(s, k).len() <= s.len(),
        before_first(s, k) == s.take(before_first(s, k).len() as int),
        before_first(s, k).len() < s.len() ==> k.has(s[before_first(s, k).len() as int]),
    decreases s.len(),
{
    let w = before_first(s, k);
    if s.len() > 0 && !k.has(s[0]) {
        lemma_before_first_is_prefix(s.drop_first(), k);
        assert(w =~= s.take(w.len() as int));
    } else {
        assert(w =~= s.take(0));
    }
}

/// What comes before the first character of `k` holds none.
pub proof fn lemma_head_is_clean(s: Seq<char>, k: CharClass)
    ensures
        !has_class(before_first(s, k), k),
    decreases s.len(),
{
    let w = before_first(s, k);
    if s.len() > 0 && !k.has(s[0]) {
        let rest = before_first(s.drop_first(), k);
        lemma_head_is_clean(s.drop_first(), k);
        assert forall|j: int| 0 <= j < w.len() implies !k.has(#[trigger] w[j]) by {
            if j > 0 {
                assert(w[j] == rest[j - 1]);
            }
        }
    }
}

// ---------------------------------------------------------------------------
// Laws
// ---------------------------------------------------------------------------
/// The classes of characters, one by one.
pub proof fn law_char_classes(c: char)
    ensures
        CharClass::WhiteSpace.has(c) == is_white_space(c),
        CharClass::Quote.has(c) == (c == '"'),
        CharClass::Dot.has(c) == (c == '.'),
        CharClass::At.has(c) == (c == '@'),
        CharClass::Colon.has(c) == (c == ':'),
        CharClass::PathSeparator.has(c) == (c == '/' || c == '\\'),
        CharClass::HostEnd.has(c) == (c == '/' || c == '?' || c == '#'),
{
}

/// Trimming takes what is of the class from both ends, and nothing else: what is
/// left is all that stands between the outermost other characters.
pub proof fn law_trim_takes_the_ends(
    front: Seq<char>,
    core: Seq<char>,
    back: Seq<char>,
    k: CharClass,
)
    requires
        forall|i: int| 0 <= i < front.len() ==> k.has(#[trigger] front[i]),
        forall|i: int| 0 <= i < back.len() ==> k.has(#[trigger] back[i]),
        core.len() > 0 ==> !k.has(core[0]) && !k.has(core.last()),
    ensures
        trim_class(front + core + back, k) == core,
    decreases front.len() + back.len(),
{
    let whole = front + core + back;
    if front.len() > 0 {
        let rest = front.drop_first();
        assert(whole[0] == front[0]);
        assert(whole.drop_first() =~= rest + core + back);
        assert forall|i: int| 0 <= i < rest.len() implies k.has(#[trigger] rest[i]) by {
            assert(rest[i] == front[i + 1]);
        }
        law_trim_takes_the_ends(rest, core, back, k);
    } else if back.len() > 0 {
        if core.len() == 0 {
            let rest = back.drop_first();
            assert(whole[0] == back[0]);
            assert(whole.drop_first() =~= front + core + rest);
            assert forall|i: int| 0 <= i < rest.len() implies k.has(#[trigger] rest[i]) by {
                assert(rest[i] == back[i + 1]);
            }
            law_trim_takes_the_ends(front, core, rest, k);
        } else {
            let rest = back.drop_last();
            let shorter = front + core + rest;
            assert(whole[0] == core[0]);
            assert(shorter[0] == core[0]);
            assert(whole.last() == back[back.len() - 1]);
            assert(whole.drop_last() =~= shorter);
            assert forall|i: int| 0 <= i < rest.len() implies k.has(#[trigger] rest[i]) by {
                assert(rest[i] == back[i]);
            }
            law_trim_takes_the_ends(front, core, rest, k);
        }
    } else {
        assert(whole =~= core);
    }
}

/// Copies of a text are taken from the end one by one, until the rest ends
/// otherwise.
pub proof fn law_strip_suffixes(s: Seq<char>, t: Seq<char>)
    requires
        t.len() > 0,
    ensures
        strip_suffixes(s + t, t) == strip_suffixes(s, t),
        s.len() < t.len() || s.skip(s.len() - t.len()) != t ==> strip_suffixes(s, t) == s,
{
    lemma_strip_appended(s, t);
    if ends_with(s, t) {
        assert(s.skip(s.len() - t.len()) =~= s.subrange(
            s.len() - t.len(),
            s.len() - t.len() + t.len(),
        ));
    }
}

/// Copies of a text are taken from the front one by one, until the rest begins
/// otherwise.
pub proof fn law_strip_prefixes(t: Seq<char>, s: Seq<char>)
    requires
        t.len() > 0,
    ensures
        strip_prefixes(t + s, t) == strip_prefixes(s, t),
        s.len() < t.len() || s.take(t.len() as int) != t ==> strip_prefixes(s, t) == s,
{
    let whole = t + s;
    assert(whole.subrange(0, 0 + t.len() as int) =~= t);
    assert(found_at(whole, t, 0));
    assert(whole.skip(t.len() as int) =~= s);
    if starts_with(s, t) {
        assert(s.take(t.len() as int) =~= s.subrange(0, 0 + t.len() as int));
    }
}

/// A text is cut at its first character of a class.
pub proof fn law_cut_at_first(head: Seq<char>, tail: Seq<char>, k: CharClass)
    requires
        forall|i: int| 0 <= i < head.len() ==> !k.has(#[trigger] head[i]),
        tail.len() > 0 ==> k.has(tail[0]),
    ensures
        before_first(head + tail, k) == head,
{
    let s = head + tail;
    let n = head.len() as int;
    assert forall|i: int| 0 <= i < n implies !k.has(#[trigger] s[i]) by {
        assert(s[i] == head[i]);
    }
    lemma_before_first(s, k, n);
    assert(s.take(n) =~= head);
}

/// A text is cut at its last character of a class.
pub proof fn law_cut_at_last(front: Seq<char>, tail: Seq<char>, k: CharClass)
    requires
        forall|i: int| 0 <= i < tail.len() ==> !k.has(#[trigger] tail[i]),
        front.len() > 0 ==> k.has(front.last()),
    ensures
        after_last(front + tail, k) == tail,
        front.len() > 0 ==> before_last(front + tail, k) == front.drop_last(),
{
    let s = front + tail;
    let n = front.len() as int;
    assert forall|i: int| n <= i < s.len() implies !k.has(#[trigger] s[i]) by {
        assert(s[i] == tail[i - n]);
    }
    lemma_after_last(s, k, n);
    assert(s.skip(n) =~= tail);
    if n > 0 {
        assert(s.take(n - 1) =~= front.drop_last());
    }
}

/// White space parts words and belongs to none: the words of two texts with
/// white space between them are those of the first and then those of the second.
pub proof fn law_space_parts_words(a: Seq<char>, c: char, b: Seq<char>)
    requires
        is_white_space(c),
    ensures
        words(a.push(c) + b) == words(a) + words(b),
    decreases a.len(),
{
    let k = CharClass::WhiteSpace;
    let s = a.push(c) + b;
    if a.len() == 0 {
        assert(s[0] == c);
        assert(s.drop_first() =~= b);
        assert(words(a) + words(b) =~= words(b));
    } else if is_white_space(a[0]) {
        let rest = a.drop_first();
        assert(s[0] == a[0]);
        assert(s.drop_first() =~= rest.push(c) + b);
        law_space_parts_words(rest, c, b);
    } else {
        let w = before_first(a, k);
        let n = w.len() as int;
        lemma_before_first_len(a, k);
        lemma_before_first_is_prefix(a, k);
        lemma_head_is_clean(a, k);
        assert(s[0] == a[0]);
        assert forall|i: int| 0 <= i < n implies !k.has(#[trigger] s[i]) by {
            assert(s[i] == w[i]);
        }
        if n < a.len() {
            assert(s[n] == a[n]);
        } else {
            assert(s[n] == c);
        }
        lemma_before_first(s, k, n);
        assert(s.take(n) =~= w);
        let rest = a.skip(n);
        assert(s.skip(n) =~= rest.push(c) + b);
        law_space_parts_words(rest, c, b);
        assert(words(s) == seq![w] + words(s.skip(n)));
        assert(words(a) == seq![w] + words(rest));
        assert(words(s) =~= words(a) + words(b));
    }
}

/// A text without white space is one word, unless it is empty.
pub proof fn law_one_word(w: Seq<char>)
    requires
        forall|i: int| 0 <= i < w.len() ==> !is_white_space(#[trigger] w[i]),
    ensures
        w.len() > 0 ==> words(w) == seq![w],
        w.len() == 0 ==> words(w) == Seq::<Seq<char>>::empty(),
{
    if w.len() > 0 {
        let n = w.len() as int;
        assert forall|i: int| 0 <= i < n implies !CharClass::WhiteSpace.has(#[trigger] w[i]) by {}
        lemma_before_first(w, CharClass::WhiteSpace, n);
        assert(w.take(n) =~= w);
        assert(w.skip(n) =~= Seq::empty());
        assert(words(w.skip(n)) =~= Seq::empty());
        assert(words(w) =~= seq![w]);
    }
}

/// Lower case keeps every character in its place; only `A` to `Z` change, to the
/// letters `a` to `z` in the same order.
pub proof fn law_ascii_lowercase(s: Seq<char>)
    ensures
        ascii_lowercase(s).len() == s.len(),
        forall|i: int|
            0 <= i < s.len() ==> (#[trigger] ascii_lowercase(s)[i]) as int == s[i] as int + (if 'A'
                <= s[i] && s[i] <= 'Z' {
                'a' as int - 'A' as int
            } else {
                0
            }),
{
}

/// A number is read digit by digit, each worth ten times what stands behind it.
/// One that 64 bits do not hold is none.
pub proof fn law_numbers_are_decimal(s: Seq<char>, d: char)
    requires
        s.len() > 0,
        forall|i: int| 0 <= i < s.len() ==> '0' <= (#[trigger] s[i]) && s[i] <= '9',
        '0' <= d <= '9',
    ensures
        parse_u64(seq![d]) matches Some(v) && v == d as int - '0' as int,
        match (parse_u64(s), parse_u64(s.push(d))) {
            (Some(v), Some(w)) => w == 10 * v + (d as int - '0' as int),
            (Some(v), None) => 10 * v + (d as int - '0' as int) > u64::MAX,
            (None, next) => next is None,
        },
        parse_u64(seq!['+'] + s) == parse_u64(s),
{
    let one = seq![d];
    assert(one.drop_last() =~= Seq::empty());
    assert(decimal_value(one.drop_last()) == 0);
    assert(one.last() == d);
    assert(without_plus(one) =~= one);
    assert(is_digit(s[0]));
    let next = s.push(d);
    assert(next[0] == s[0]);
    assert(next.drop_last() =~= s);
    assert(next.last() == d);
    assert(all_digits(s)) by {
        assert forall|i: int| 0 <= i < s.len() implies is_digit(#[trigger] s[i]) by {}
    }
    assert(all_digits(next)) by {
        assert forall|i: int| 0 <= i < next.len() implies is_digit(#[trigger] next[i]) by {
            if i < s.len() {
                assert(next[i] == s[i]);
            }
        }
    }
    assert((seq!['+'] + s).drop_first() =~= s);
}

/// Nothing but digits, behind a `+` or not, is a number.
pub proof fn law_only_digits_are_numbers(s: Seq<char>, i: int)
    requires
        0 <= i < s.len(),
        !('0' <= s[i] && s[i] <= '9'),
        i > 0 || s[0] != '+' || s.len() == 1,
    ensures
        parse_u64(s) is None,
        parse_u64(Seq::<char>::empty()) is None,
{
    let d = without_plus(s);
    if s[0] == '+' {
        if i > 0 {
            assert(d[i - 1] == s[i]);
            assert(!is_digit(d[i - 1]));
        }
    } else {
        assert(!is_digit(d[i]));
    }
}

/// The decimal digits of a number.
pub open spec fn decimal(n: nat) -> Seq<char>
    decreases n,
{
    let last = ('0' as u32 + n % 10) as u32 as char;
    if n < 10 {
        seq![last]
    } else {
        decimal(n / 10).push(last)
    }
}

/// A number is read from its decimal digits.
pub proof fn law_number_is_read_from_its_digits(n: u64)
    ensures
        parse_u64(decimal(n as nat)) == Some(n),
        decimal(n as nat).len() > 0,
        forall|i: int|
            0 <= i < decimal(n as nat).len() ==> '0' <= (#[trigger] decimal(n as nat)[i])
                && decimal(n as nat)[i] <= '9',
    decreases n,
{
    let s = decimal(n as nat);
    let last = ('0' as u32 + n % 10) as u32 as char;
    assert('0' <= last <= '9');
    assert(last as int - '0' as int == n % 10);
    if n < 10 {
        law_numbers_are_decimal(seq!['0'], last);
    } else {
        let front = decimal((n / 10) as nat);
        law_number_is_read_from_its_digits(n / 10);
        assert(s == front.push(last));
        law_numbers_are_decimal(front, last);
        assert forall|i: int| 0 <= i < s.len() implies '0' <= (#[trigger] s[i]) && s[i] <= '9' by {
            if i < front.len() {
                assert(s[i] == front[i]);
            }
        }
    }
}

/// A text stands in whatever has something before and behind it, ends what stands
/// before it, and begins what stands behind it.
pub proof fn law_text_stands_in_its_surroundings(front: Seq<char>, t: Seq<char>, back: Seq<char>)
    ensures
        contains_text(front + t + back, t),
        ends_with(front + t, t),
        starts_with(t + back, t),
{
    let n = t.len() as int;
    let i = front.len() as int;
    let whole = front + t + back;
    assert(whole.subrange(i, i + n) =~= t);
    assert(found_at(whole, t, i));
    assert((front + t).subrange(i, i + n) =~= t);
    assert((t + back).subrange(0, n) =~= t);
}

/// Where a text stands in another, that is something, the text, and something.
pub proof fn law_surroundings_of_a_text(s: Seq<char>, t: Seq<char>) -> (parts: (
    Seq<char>,
    Seq<char>,
))
    requires
        contains_text(s, t),
    ensures
        s == parts.0 + t + parts.1,
        ends_with(s, t) ==> s == s.take(s.len() - t.len()) + t,
        starts_with(s, t) ==> s == t + s.skip(t.len() as int),
{
    let i = choose|i: int| found_at(s, t, i);
    let n = t.len() as int;
    assert(s.subrange(i, i + n) == t);
    assert(s =~= s.take(i) + t + s.skip(i + n));
    if ends_with(s, t) {
        let j = s.len() - n;
        assert(s.subrange(j, j + n) == t);
        assert(s =~= s.take(j) + t);
    }
    if starts_with(s, t) {
        assert(s.subrange(0, n) == t);
        assert(s =~= t + s.skip(n));
    }
    (s.take(i), s.skip(i + n))
}

/// Nothing of a list of texts, or of an optional text, is left out of what the
/// contracts say of it.
pub proof fn law_views_of_texts(list: Seq<String>, chars: Seq<Vec<char>>, s: String, t: &str)
    ensures
        texts(list).len() == list.len(),
        forall|i: int| 0 <= i < list.len() ==> #[trigger] texts(list)[i] == list[i]@,
        char_lists(chars).len() == chars.len(),
        forall|i: int| 0 <= i < chars.len() ==> #[trigger] char_lists(chars)[i] == chars[i]@,
        opt_text(Some(s)) == Some(s@),
        opt_text(None) is None,
        opt_str(Some(t)) == Some(t@),
        opt_str(None) is None,
{
}

} // verus!
