//! Full-text queries: from what the user typed to the query of the search
//! index, in which every term is a quoted phrase.

use crate::text;
use vstd::prelude::*;

verus! {

/// Why no query could be built.
#[derive(Clone, Copy, PartialEq, Eq, Structural, Debug)]
pub enum QueryError {
    /// Nothing to search for was given.
    QueryRequired,
}

/// The terms among the words that the user typed: each without quotation marks
/// at its ends, as far as anything is left of it.
pub open spec fn terms_of(words: Seq<Seq<char>>) -> Seq<Seq<char>>
    decreases words.len(),
{
    if words.len() == 0 {
        Seq::empty()
    } else {
        let term = text::trim_class(words.last(), text::CharClass::Quote);
        if term.len() > 0 {
            terms_of(words.drop_last()).push(term)
        } else {
            terms_of(words.drop_last())
        }
    }
}

/// The terms that the user typed.
pub open spec fn search_terms(query: Seq<char>) -> Seq<Seq<char>> {
    terms_of(text::words(query))
}

/// `s` with each quotation mark written twice.
pub open spec fn doubled(s: Seq<char>) -> Seq<char>
    decreases s.len(),
{
    if s.len() == 0 {
        Seq::empty()
    } else if s[0] == '"' {
        seq!['"', '"'] + doubled(s.drop_first())
    } else {
        seq![s[0]] + doubled(s.drop_first())
    }
}

/// `s` as a phrase: between quotation marks, with those inside it doubled.
pub open spec fn phrase(s: Seq<char>) -> Seq<char> {
    seq!['"'] + doubled(s) + seq!['"']
}

/// The query that asks for all of the terms.
pub open spec fn conjunction(terms: Seq<Seq<char>>) -> Seq<char>
    decreases terms.len(),
{
    if terms.len() == 0 {
        Seq::empty()
    } else if terms.len() == 1 {
        phrase(terms[0])
    } else {
        conjunction(terms.drop_last()) + " AND "@ + phrase(terms.last())
    }
}

/// Appends a term as a phrase.
fn push_phrase(out: &mut String, term: &[char])
    ensures
        final(out)@ == old(out)@ + phrase(term@),
{
    let ghost before = out@;
    out.push('"');
    let mut i: usize = 0;
    assert(term@.skip(0) =~= term@);
    assert(out@ + doubled(term@.skip(0)) =~= before + seq!['"'] + doubled(term@));
    while i < term.len()
        invariant
            i <= term@.len(),
            out@ + doubled(term@.skip(i as int)) == before + seq!['"'] + doubled(term@),
        decreases term@.len() - i,
    {
        let ghost rest = term@.skip(i as int);
        let ghost now = out@;
        let c = term[i];
        assert(rest.drop_first() =~= term@.skip(i + 1));
        if c == '"' {
            out.push('"');
            out.push('"');
            assert(out@ + doubled(term@.skip(i + 1)) =~= now + (seq!['"', '"'] + doubled(
                term@.skip(i + 1),
            )));
        } else {
            out.push(c);
            assert(out@ + doubled(term@.skip(i + 1)) =~= now + (seq![c] + doubled(
                term@.skip(i + 1),
            )));
        }
        i += 1;
    }
    assert(doubled(term@.skip(i as int)) =~= Seq::empty());
    out.push('"');
    assert(out@ =~= before + phrase(term@));
}

/// The query of the search index for what the user typed: all of its terms,
/// each as a phrase. There is none exactly where there is no term.
pub fn build_fts_query(query: &str) -> (r: Result<String, QueryError>)
    ensures
        search_terms(query@).len() == 0 ==> r == Err::<String, QueryError>(
            QueryError::QueryRequired,
        ),
        search_terms(query@).len() > 0 ==> r is Ok && r->Ok_0@ == conjunction(
            search_terms(query@),
        ),
{
    let chars = text::chars_of(query);
    let words = text::words_of(chars.as_slice());
    let ghost all = text::char_lists(words@);
    let mut out = String::new();
    let mut found = false;
    let mut i: usize = 0;
    while i < words.len()
        invariant
            all == text::char_lists(words@),
            i <= words@.len(),
            found == (terms_of(all.take(i as int)).len() > 0),
            out@ == conjunction(terms_of(all.take(i as int))),
        decreases words@.len() - i,
    {
        let ghost done = terms_of(all.take(i as int));
        let ghost next = all.take(i + 1);
        assert(next.drop_last() =~= all.take(i as int));
        assert(next.last() == words@[i as int]@);
        let term = text::trimmed(words[i].as_slice(), text::CharClass::Quote);
        if term.len() > 0 {
            let ghost before = out@;
            if found {
                text::push_chars(&mut out, text::chars_of(" AND ").as_slice());
            }
            push_phrase(&mut out, term);
            proof {
                let terms = done.push(term@);
                assert(terms_of(next) == terms);
                assert(terms.drop_last() =~= done);
                if found {
                    assert(out@ =~= before + " AND "@ + phrase(term@));
                } else {
                    assert(done =~= Seq::empty());
                    assert(out@ =~= phrase(term@));
                }
            }
            found = true;
        }
        i += 1;
    }
    assert(all.take(i as int) =~= all);
    if found {
        Ok(out)
    } else {
        Err(QueryError::QueryRequired)
    }
}

// ---------------------------------------------------------------------------
// Laws
// ---------------------------------------------------------------------------
/// Every term has at least one character, holds no white space, and has no
/// quotation mark at its ends.
pub proof fn law_terms_are_clean(query: Seq<char>, i: int)
    requires
        0 <= i < search_terms(query).len(),
    ensures
        search_terms(query)[i].len() > 0,
        search_terms(query)[i][0] != '"',
        search_terms(query)[i].last() != '"',
        !text::has_class(search_terms(query)[i], text::CharClass::WhiteSpace),
{
    lemma_words_hold_no_space(query);
    lemma_terms_of(text::words(query), i);
}

proof fn lemma_terms_of(words: Seq<Seq<char>>, i: int)
    requires
        0 <= i < terms_of(words).len(),
        forall|j: int|
            0 <= j < words.len() ==> !text::has_class(
                #[trigger] words[j],
                text::CharClass::WhiteSpace,
            ),
    ensures
        terms_of(words)[i].len() > 0,
        terms_of(words)[i][0] != '"',
        terms_of(words)[i].last() != '"',
        !text::has_class(terms_of(words)[i], text::CharClass::WhiteSpace),
    decreases words.len(),
{
    let last = words.last();
    let term = text::trim_class(last, text::CharClass::Quote);
    let rest = words.drop_last();
    assert forall|j: int| 0 <= j < rest.len() implies !text::has_class(
        #[trigger] rest[j],
        text::CharClass::WhiteSpace,
    ) by {
        assert(rest[j] == words[j]);
    }
    if i < terms_of(rest).len() {
        lemma_terms_of(rest, i);
    } else {
        text::lemma_trim_ends(last, text::CharClass::Quote);
        assert(!text::has_class(words[words.len() - 1], text::CharClass::WhiteSpace));
        let a = choose|a: int|
            0 <= a <= last.len() - term.len() && term == #[trigger] last.subrange(
                a,
                a + term.len(),
            );
        assert forall|j: int| 0 <= j < term.len() implies !text::CharClass::WhiteSpace.has(
            #[trigger] term[j],
        ) by {
            assert(term[j] == last[a + j]);
        }
    }
}

proof fn lemma_words_hold_no_space(s: Seq<char>)
    ensures
        forall|j: int|
            0 <= j < text::words(s).len() ==> !text::has_class(
                #[trigger] text::words(s)[j],
                text::CharClass::WhiteSpace,
            ),
    decreases s.len(),
{
    if s.len() > 0 {
        if text::is_white_space(s[0]) {
            lemma_words_hold_no_space(s.drop_first());
            assert(text::words(s) == text::words(s.drop_first()));
        } else {
            let w = text::before_first(s, text::CharClass::WhiteSpace);
            text::lemma_head_is_clean(s, text::CharClass::WhiteSpace);
            text::lemma_before_first_len(s, text::CharClass::WhiteSpace);
            let rest = s.skip(w.len() as int);
            lemma_words_hold_no_space(rest);
            assert(text::words(s) == seq![w] + text::words(rest));
            assert forall|j: int| 0 <= j < text::words(s).len() implies !text::has_class(
                #[trigger] text::words(s)[j],
                text::CharClass::WhiteSpace,
            ) by {
                if j > 0 {
                    assert(text::words(s)[j] == text::words(rest)[j - 1]);
                }
            }
        }
    }
}

/// Reads a phrase whose opening quotation mark is already read: what it
/// quotes, and what is left behind its closing quotation mark.
pub open spec fn read_phrase(s: Seq<char>) -> Option<(Seq<char>, Seq<char>)>
    decreases s.len(),
{
    if s.len() == 0 {
        None
    } else if s[0] == '"' && (s.len() == 1 || s[1] != '"') {
        Some((Seq::empty(), s.skip(1)))
    } else {
        let n: int = if s[0] == '"' {
            2
        } else {
            1
        };
        match read_phrase(s.skip(n)) {
            Some((quoted, rest)) => Some((seq![s[0]] + quoted, rest)),
            None => None,
        }
    }
}

/// Reads a query as phrases with `AND` between them; nothing where it is
/// anything else.
pub open spec fn read_query(s: Seq<char>) -> Option<Seq<Seq<char>>>
    decreases s.len(),
{
    if s.len() == 0 || s[0] != '"' {
        None
    } else {
        match read_phrase(s.skip(1)) {
            None => None,
            Some((quoted, rest)) => if rest.len() == 0 {
                Some(seq![quoted])
            } else if 5 <= rest.len() < s.len() && text::starts_with(rest, " AND "@) {
                match read_query(rest.skip(5)) {
                    Some(others) => Some(seq![quoted] + others),
                    None => None,
                }
            } else {
                None
            },
        }
    }
}

/// A phrase reads back as what it quotes, and ends where it was closed.
proof fn lemma_phrase_reads_back(s: Seq<char>, rest: Seq<char>)
    requires
        rest.len() > 0 ==> rest[0] != '"',
    ensures
        read_phrase(doubled(s) + seq!['"'] + rest) == Some((s, rest)),
    decreases s.len(),
{
    let whole = doubled(s) + seq!['"'] + rest;
    if s.len() == 0 {
        assert(whole =~= seq!['"'] + rest);
        assert(whole.skip(1) =~= rest);
        assert(s =~= Seq::empty());
    } else {
        let tail = s.drop_first();
        let inner = doubled(tail) + seq!['"'] + rest;
        lemma_phrase_reads_back(tail, rest);
        if s[0] == '"' {
            assert(whole =~= seq!['"', '"'] + inner);
            assert(whole[0] == '"' && whole[1] == '"');
            assert(whole.skip(2) =~= inner);
        } else {
            assert(whole =~= seq![s[0]] + inner);
            assert(whole[0] == s[0]);
            assert(whole.skip(1) =~= inner);
        }
        assert(seq![s[0]] + tail =~= s);
    }
}

/// The query of several terms begins with the phrase of the first.
proof fn lemma_conjunction_front(terms: Seq<Seq<char>>)
    requires
        terms.len() > 1,
    ensures
        conjunction(terms) == phrase(terms[0]) + " AND "@ + conjunction(terms.drop_first()),
    decreases terms.len(),
{
    let front = terms.drop_last();
    let back = terms.drop_first();
    if terms.len() == 2 {
        assert(conjunction(front) == phrase(terms[0]));
        assert(conjunction(back) == phrase(terms[1]));
    } else {
        lemma_conjunction_front(front);
        assert(front.drop_first() =~= back.drop_last());
        assert(conjunction(terms) =~= phrase(terms[0]) + " AND "@ + (conjunction(back.drop_last())
            + " AND "@ + phrase(terms.last())));
    }
}

/// A query reads back as its terms: whatever the user typed, no character of
/// it ends a phrase early or stands outside of one.
pub proof fn law_query_reads_back(terms: Seq<Seq<char>>)
    requires
        terms.len() > 0,
    ensures
        read_query(conjunction(terms)) == Some(terms),
    decreases terms.len(),
{
    reveal_strlit(" AND ");
    let q = conjunction(terms);
    if terms.len() == 1 {
        lemma_phrase_reads_back(terms[0], Seq::empty());
        assert(q.skip(1) =~= doubled(terms[0]) + seq!['"'] + Seq::<char>::empty());
        assert(seq![terms[0]] =~= terms);
    } else {
        let others = terms.drop_first();
        let rest = " AND "@ + conjunction(others);
        lemma_conjunction_front(terms);
        assert(q.skip(1) =~= doubled(terms[0]) + seq!['"'] + rest);
        lemma_phrase_reads_back(terms[0], rest);
        assert(rest.subrange(0, 5) =~= " AND "@);
        assert(text::found_at(rest, " AND "@, 0));
        assert(rest.skip(5) =~= conjunction(others));
        assert(rest.len() < q.len());
        law_query_reads_back(others);
        assert(seq![terms[0]] + others =~= terms);
    }
}

/// Something that can be searched for: neither white space nor a quotation
/// mark.
pub open spec fn is_searchable(c: char) -> bool {
    !text::is_white_space(c) && c != '"'
}

pub open spec fn has_searchable(s: Seq<char>) -> bool {
    exists|i: int| 0 <= i < s.len() && is_searchable(#[trigger] s[i])
}

/// There is a term, and so a query, exactly where the user typed something
/// other than white space and quotation marks.
pub proof fn law_query_needs_a_character(query: Seq<char>)
    ensures
        search_terms(query).len() > 0 <==> has_searchable(query),
{
    lemma_words_hold_no_space(query);
    lemma_words_keep_searchable(query);
    lemma_terms_need_searchable(text::words(query));
}

/// Some word holds something that can be searched for exactly where the text
/// does.
proof fn lemma_words_keep_searchable(s: Seq<char>)
    ensures
        has_searchable(s) <==> exists|j: int|
            0 <= j < text::words(s).len() && has_searchable(#[trigger] text::words(s)[j]),
    decreases s.len(),
{
    let k = text::CharClass::WhiteSpace;
    if s.len() == 0 {
    } else if text::is_white_space(s[0]) {
        let rest = s.drop_first();
        lemma_words_keep_searchable(rest);
        assert(text::words(s) == text::words(rest));
        lemma_searchable_in_parts(seq![s[0]], rest);
        assert(seq![s[0]] + rest =~= s);
        assert(!has_searchable(seq![s[0]]));
    } else {
        let w = text::before_first(s, k);
        text::lemma_before_first_len(s, k);
        text::lemma_before_first_is_prefix(s, k);
        let rest = s.skip(w.len() as int);
        lemma_words_keep_searchable(rest);
        let ws = text::words(s);
        assert(ws == seq![w] + text::words(rest));
        assert(w + rest =~= s);
        lemma_searchable_in_parts(w, rest);
        if has_searchable(s) {
            if has_searchable(w) {
                assert(ws[0] == w);
            } else {
                let j = choose|j: int|
                    0 <= j < text::words(rest).len() && has_searchable(
                        #[trigger] text::words(rest)[j],
                    );
                assert(ws[j + 1] == text::words(rest)[j]);
            }
        }
        if exists|j: int| 0 <= j < ws.len() && has_searchable(#[trigger] ws[j]) {
            let j = choose|j: int| 0 <= j < ws.len() && has_searchable(#[trigger] ws[j]);
            if j > 0 {
                assert(ws[j] == text::words(rest)[j - 1]);
            }
        }
    }
}

proof fn lemma_searchable_in_parts(a: Seq<char>, b: Seq<char>)
    ensures
        has_searchable(a + b) <==> has_searchable(a) || has_searchable(b),
{
    let whole = a + b;
    if has_searchable(whole) {
        let i = choose|i: int| 0 <= i < whole.len() && is_searchable(#[trigger] whole[i]);
        if i < a.len() {
            assert(is_searchable(a[i]));
        } else {
            assert(is_searchable(b[i - a.len()]));
        }
    }
    if has_searchable(a) {
        let i = choose|i: int| 0 <= i < a.len() && is_searchable(#[trigger] a[i]);
        assert(is_searchable(whole[i]));
    }
    if has_searchable(b) {
        let i = choose|i: int| 0 <= i < b.len() && is_searchable(#[trigger] b[i]);
        assert(is_searchable(whole[a.len() + i]));
    }
}

/// Words without white space have a term exactly where one of them holds
/// something other than a quotation mark.
proof fn lemma_terms_need_searchable(words: Seq<Seq<char>>)
    requires
        forall|j: int|
            0 <= j < words.len() ==> !text::has_class(
                #[trigger] words[j],
                text::CharClass::WhiteSpace,
            ),
    ensures
        terms_of(words).len() > 0 <==> exists|j: int|
            0 <= j < words.len() && has_searchable(#[trigger] words[j]),
    decreases words.len(),
{
    if words.len() > 0 {
        let last = words.last();
        let rest = words.drop_last();
        assert forall|j: int| 0 <= j < rest.len() implies !text::has_class(
            #[trigger] rest[j],
            text::CharClass::WhiteSpace,
        ) by {
            assert(rest[j] == words[j]);
        }
        lemma_terms_need_searchable(rest);
        assert(!text::has_class(words[words.len() - 1], text::CharClass::WhiteSpace));
        lemma_unquoted_word(last);
        if terms_of(words).len() > 0 {
            if has_searchable(last) {
                assert(has_searchable(words[words.len() - 1]));
            } else {
                let j = choose|j: int| 0 <= j < rest.len() && has_searchable(#[trigger] rest[j]);
                assert(words[j] == rest[j]);
            }
        }
        if exists|j: int| 0 <= j < words.len() && has_searchable(#[trigger] words[j]) {
            let j = choose|j: int| 0 <= j < words.len() && has_searchable(#[trigger] words[j]);
            if j < rest.len() {
                assert(rest[j] == words[j]);
            }
        }
    }
}

/// Something is left of a word without its outer quotation marks exactly where
/// it holds something else.
proof fn lemma_unquoted_word(w: Seq<char>)
    requires
        !text::has_class(w, text::CharClass::WhiteSpace),
    ensures
        text::trim_class(w, text::CharClass::Quote).len() > 0 <==> has_searchable(w),
{
    let k = text::CharClass::Quote;
    let t = text::trim_class(w, k);
    text::lemma_trim_ends(w, k);
    if t.len() > 0 {
        let a = choose|a: int|
            0 <= a <= w.len() - t.len() && t == #[trigger] w.subrange(a, a + t.len());
        assert(t[0] == w[a]);
        assert(!text::CharClass::WhiteSpace.has(w[a]));
        assert(is_searchable(w[a]));
    }
    if has_searchable(w) {
        let i = choose|i: int| 0 <= i < w.len() && is_searchable(#[trigger] w[i]);
        lemma_trim_keeps(w, i);
    }
}

/// Trimming quotation marks does not reach over another character.
proof fn lemma_trim_keeps(w: Seq<char>, i: int)
    requires
        0 <= i < w.len(),
        w[i] != '"',
    ensures
        text::trim_class(w, text::CharClass::Quote).len() > 0,
    decreases w.len(),
{
    let k = text::CharClass::Quote;
    if w[0] == '"' {
        lemma_trim_keeps(w.drop_first(), i - 1);
    } else {
        lemma_trim_back_keeps(w);
    }
}

proof fn lemma_trim_back_keeps(w: Seq<char>)
    requires
        w.len() > 0,
        w[0] != '"',
    ensures
        text::trim_back(w, text::CharClass::Quote).len() > 0,
    decreases w.len(),
{
    if w.last() == '"' {
        lemma_trim_back_keeps(w.drop_last());
    }
}

/// White space around what the user typed does not matter.
pub proof fn law_outer_space_does_not_matter(query: Seq<char>)
    ensures
        search_terms(text::trim(query)) == search_terms(query),
{
    lemma_words_trim_front(query);
    lemma_words_trim_back(text::trim_front(query, text::CharClass::WhiteSpace));
}

proof fn lemma_words_trim_front(s: Seq<char>)
    ensures
        text::words(text::trim_front(s, text::CharClass::WhiteSpace)) == text::words(s),
    decreases s.len(),
{
    if s.len() > 0 && text::is_white_space(s[0]) {
        lemma_words_trim_front(s.drop_first());
    }
}

proof fn lemma_words_trim_back(s: Seq<char>)
    ensures
        text::words(text::trim_back(s, text::CharClass::WhiteSpace)) == text::words(s),
    decreases s.len(),
{
    if s.len() > 0 && text::is_white_space(s.last()) {
        lemma_words_end_in_space(s);
        lemma_words_trim_back(s.drop_last());
    }
}

/// White space at the end of a text belongs to no word.
proof fn lemma_words_end_in_space(s: Seq<char>)
    requires
        s.len() > 0,
        text::is_white_space(s.last()),
    ensures
        text::words(s) == text::words(s.drop_last()),
    decreases s.len(),
{
    let k = text::CharClass::WhiteSpace;
    let d = s.drop_last();
    if s.len() == 1 {
        assert(s.drop_first() =~= d);
    } else if text::is_white_space(s[0]) {
        let rest = s.drop_first();
        assert(rest.last() == s.last());
        lemma_words_end_in_space(rest);
        assert(d.drop_first() =~= rest.drop_last());
    } else {
        let w = text::before_first(s, k);
        let n = w.len() as int;
        text::lemma_before_first_len(s, k);
        text::lemma_before_first_is_prefix(s, k);
        text::lemma_head_is_clean(s, text::CharClass::WhiteSpace);
        if n == s.len() {
            assert(k.has(w[n - 1]));
        }
        assert forall|i: int| 0 <= i < n implies !k.has(#[trigger] d[i]) by {
            assert(d[i] == w[i]);
        }
        text::lemma_before_first(d, k, n);
        assert(d.take(n) =~= w);
        let rest = s.skip(n);
        assert(rest.last() == s.last());
        lemma_words_end_in_space(rest);
        assert(d.skip(n) =~= rest.drop_last());
        assert(text::words(s) == seq![w] + text::words(rest));
        assert(text::words(d) == seq![w] + text::words(d.skip(n)));
    }
}

/// No word of the query is lost and none is added: the terms of two texts with
/// white space between them are those of the first and then those of the second.
pub proof fn law_terms_of_both_parts(a: Seq<char>, c: char, b: Seq<char>)
    requires
        text::is_white_space(c),
    ensures
        search_terms(a.push(c) + b) == search_terms(a) + search_terms(b),
{
    text::law_space_parts_words(a, c, b);
    lemma_terms_of_parts(text::words(a), text::words(b));
}

proof fn lemma_terms_of_parts(x: Seq<Seq<char>>, y: Seq<Seq<char>>)
    ensures
        terms_of(x + y) == terms_of(x) + terms_of(y),
    decreases y.len(),
{
    if y.len() == 0 {
        assert(x + y =~= x);
        assert(terms_of(x) + terms_of(y) =~= terms_of(x));
    } else {
        assert((x + y).drop_last() =~= x + y.drop_last());
        assert((x + y).last() == y.last());
        lemma_terms_of_parts(x, y.drop_last());
        assert(terms_of(x + y) =~= terms_of(x) + terms_of(y));
    }
}

/// A word is a term without the quotation marks at its ends, and none where it
/// holds nothing else.
pub proof fn law_term_of_a_word(front: Seq<char>, core: Seq<char>, back: Seq<char>)
    requires
        forall|i: int| 0 <= i < front.len() ==> (#[trigger] front[i]) == '"',
        forall|i: int| 0 <= i < back.len() ==> (#[trigger] back[i]) == '"',
        forall|i: int| 0 <= i < core.len() ==> !text::is_white_space(#[trigger] core[i]),
        core.len() > 0 ==> core[0] != '"' && core.last() != '"',
    ensures
        search_terms(front + core + back) == if core.len() > 0 {
            seq![core]
        } else {
            Seq::<Seq<char>>::empty()
        },
{
    let w = front + core + back;
    assert forall|i: int| 0 <= i < w.len() implies !text::is_white_space(#[trigger] w[i]) by {
        if i < front.len() {
            assert(w[i] == front[i]);
        } else if i < front.len() + core.len() {
            assert(w[i] == core[i - front.len()]);
        } else {
            assert(w[i] == back[i - front.len() - core.len()]);
        }
    }
    text::law_one_word(w);
    text::law_trim_takes_the_ends(front, core, back, text::CharClass::Quote);
    if w.len() > 0 {
        let ws = seq![w];
        assert(ws.drop_last() =~= Seq::empty());
        assert(ws.last() == w);
        assert(terms_of(ws.drop_last()) =~= Seq::empty());
        assert(terms_of(ws) =~= if core.len() > 0 {
            seq![core]
        } else {
            Seq::<Seq<char>>::empty()
        });
    } else {
        assert(core.len() == 0);
        assert(terms_of(text::words(w)) =~= Seq::empty());
    }
}

/// Every word that the user typed is asked for, wherever it stands.
pub proof fn law_every_word_is_asked_for(a: Seq<char>, c: char, w: Seq<char>, d: char, b: Seq<char>)
    requires
        text::is_white_space(c),
        text::is_white_space(d),
        w.len() > 0,
        w[0] != '"' && w.last() != '"',
        forall|i: int| 0 <= i < w.len() ==> !text::is_white_space(#[trigger] w[i]),
    ensures
        search_terms(a.push(c) + w.push(d) + b) == search_terms(a).push(w) + search_terms(b),
        read_query(conjunction(search_terms(a.push(c) + w.push(d) + b))) == Some(
            search_terms(a).push(w) + search_terms(b),
        ),
{
    let tail = w.push(d) + b;
    assert(a.push(c) + w.push(d) + b =~= a.push(c) + tail);
    law_terms_of_both_parts(a, c, tail);
    law_terms_of_both_parts(w, d, b);
    let none = Seq::<char>::empty();
    law_term_of_a_word(none, w, none);
    assert(none + w + none =~= w);
    let terms = search_terms(a).push(w) + search_terms(b);
    assert(search_terms(a) + (seq![w] + search_terms(b)) =~= terms);
    law_query_reads_back(terms);
}

/// A query asks for the terms of both parts of a list, and one term is asked for
/// as a phrase in which quotation marks are doubled and nothing else changes.
pub proof fn law_query_is_made_of_phrases(
    x: Seq<Seq<char>>,
    y: Seq<Seq<char>>,
    a: Seq<char>,
    c: char,
    b: Seq<char>,
)
    requires
        x.len() > 0,
        y.len() > 0,
    ensures
        conjunction(x + y) == conjunction(x) + " AND "@ + conjunction(y),
        conjunction(seq![a]) == seq!['"'] + doubled(a) + seq!['"'],
        doubled(a + b) == doubled(a) + doubled(b),
        c != '"' ==> doubled(seq![c]) == seq![c],
        doubled(seq!['"']) == seq!['"', '"'],
{
    lemma_conjunction_parts(x, y);
    lemma_doubled_parts(a, b);
    lemma_doubled_char(c);
    lemma_doubled_char('"');
}

proof fn lemma_doubled_char(c: char)
    ensures
        doubled(seq![c]) == if c == '"' {
            seq!['"', '"']
        } else {
            seq![c]
        },
{
    let s = seq![c];
    assert(s.drop_first() =~= Seq::empty());
    assert(doubled(s.drop_first()) =~= Seq::empty());
    if c == '"' {
        assert(doubled(s) =~= seq!['"', '"']);
    } else {
        assert(doubled(s) =~= seq![c]);
    }
}

proof fn lemma_doubled_parts(a: Seq<char>, b: Seq<char>)
    ensures
        doubled(a + b) == doubled(a) + doubled(b),
    decreases a.len(),
{
    let s = a + b;
    if a.len() == 0 {
        assert(s =~= b);
        assert(doubled(a) + doubled(b) =~= doubled(b));
    } else {
        assert(s[0] == a[0]);
        assert(s.drop_first() =~= a.drop_first() + b);
        lemma_doubled_parts(a.drop_first(), b);
        assert(doubled(s) =~= doubled(a) + doubled(b));
    }
}

proof fn lemma_conjunction_parts(x: Seq<Seq<char>>, y: Seq<Seq<char>>)
    requires
        x.len() > 0,
        y.len() > 0,
    ensures
        conjunction(x + y) == conjunction(x) + " AND "@ + conjunction(y),
    decreases y.len(),
{
    let z = x + y;
    assert(z.last() == y.last());
    assert(z.drop_last() =~= x + y.drop_last());
    if y.len() == 1 {
        assert(z.drop_last() =~= x);
    } else {
        lemma_conjunction_parts(x, y.drop_last());
        assert(conjunction(z) =~= conjunction(x) + " AND "@ + (conjunction(y.drop_last()) + " AND "@
            + phrase(y.last())));
    }
}

} // verus!
