//! The pieces that a command line is made of: words between white space,
//! the line without the white space at its ends, and the split at the
//! first blank.

use crate::text::{is_space, is_space_char, slice_chars, views};
use vstd::prelude::*;

verus! {

/// The index of the first character of `s` at or after `i` that is not
/// white space, or the length of `s` where there is none.
pub open spec fn skip_spaces(s: Seq<char>, i: int) -> int
    decreases s.len() - i,
{
    if 0 <= i < s.len() && is_space(s[i]) {
        skip_spaces(s, i + 1)
    } else {
        i
    }
}

/// The index of the first white space of `s` at or after `i`, or the
/// length of `s` where there is none.
pub open spec fn word_end(s: Seq<char>, i: int) -> int
    decreases s.len() - i,
{
    if 0 <= i < s.len() && !is_space(s[i]) {
        word_end(s, i + 1)
    } else {
        i
    }
}

/// The words of `s` from index `i` on.
pub open spec fn words_from(s: Seq<char>, i: int) -> Seq<Seq<char>>
    decreases s.len() - i,
{
    if 0 <= i < s.len() {
        if is_space(s[i]) {
            words_from(s, i + 1)
        } else {
            let e = word_end(s, i);
            if i < e <= s.len() {
                seq![s.subrange(i, e)] + words_from(s, e)
            } else {
                Seq::empty()
            }
        }
    } else {
        Seq::empty()
    }
}

/// Whether `w` may be a word: it is not empty and holds no white space.
pub open spec fn is_word(w: Seq<char>) -> bool {
    w.len() > 0 && forall|k: int| 0 <= k < w.len() ==> !is_space(#[trigger] w[k])
}

/// The words of `s`: its longest runs of characters that are not white
/// space, in order.
pub open spec fn words(s: Seq<char>) -> Seq<Seq<char>> {
    words_from(s, 0)
}

/// The index after the `n`th word of `s` that starts at or after `i`: the
/// index of the white space that ends it, or the length of `s` where the
/// word ends the text or `s` has fewer words from `i` on. With `n` zero it
/// is `i`.
pub open spec fn after_words(s: Seq<char>, i: int, n: nat) -> int
    decreases s.len() - i,
{
    if n == 0 || i < 0 || i >= s.len() {
        i
    } else if is_space(s[i]) {
        after_words(s, i + 1, n)
    } else {
        let e = word_end(s, i);
        if i < e <= s.len() {
            after_words(s, e, (n - 1) as nat)
        } else {
            i
        }
    }
}

/// The length of `s` without the white space at its end.
pub open spec fn trim_end(s: Seq<char>) -> int
    decreases s.len(),
{
    if s.len() > 0 && is_space(s.last()) {
        trim_end(s.drop_last())
    } else {
        s.len() as int
    }
}

/// `s` without the white space at its ends.
pub open spec fn trimmed(s: Seq<char>) -> Seq<char> {
    let from = skip_spaces(s, 0);
    let to = trim_end(s);
    if from < to {
        s.subrange(from, to)
    } else {
        Seq::empty()
    }
}

/// The index of the first blank of `s` at or after `i`, or the length of
/// `s` where there is none. A blank is the space character alone.
pub open spec fn first_blank(s: Seq<char>, i: int) -> int
    decreases s.len() - i,
{
    if 0 <= i < s.len() && s[i] != ' ' {
        first_blank(s, i + 1)
    } else {
        i
    }
}

/// What stands before the first blank of `s`: all of `s` where it has
/// none.
pub open spec fn before_blank(s: Seq<char>) -> Seq<char> {
    s.take(first_blank(s, 0))
}

/// What stands after the first blank of `s`: nothing where it has none.
pub open spec fn after_blank(s: Seq<char>) -> Seq<char> {
    let at = first_blank(s, 0);
    if at < s.len() {
        s.skip(at + 1)
    } else {
        Seq::empty()
    }
}

/// Where a word ends: at or after its start, at white space or at the end
/// of the text, with no white space before.
pub proof fn lemma_word_end(s: Seq<char>, i: int)
    requires
        0 <= i <= s.len(),
    ensures
        i <= word_end(s, i) <= s.len(),
        i < s.len() && !is_space(s[i]) ==> i < word_end(s, i),
        word_end(s, i) < s.len() ==> is_space(s[word_end(s, i)]),
        forall|k: int| i <= k < word_end(s, i) ==> !is_space(s[k]),
    decreases s.len() - i,
{
    if i < s.len() && !is_space(s[i]) {
        lemma_word_end(s, i + 1);
    }
}

/// Where white space ends: at or after its start, at a character that is
/// none or at the end of the text, with white space only before.
pub proof fn lemma_skip_spaces(s: Seq<char>, i: int)
    requires
        0 <= i <= s.len(),
    ensures
        i <= skip_spaces(s, i) <= s.len(),
        skip_spaces(s, i) < s.len() ==> !is_space(s[skip_spaces(s, i)]),
        forall|k: int| i <= k < skip_spaces(s, i) ==> is_space(s[k]),
    decreases s.len() - i,
{
    if i < s.len() && is_space(s[i]) {
        lemma_skip_spaces(s, i + 1);
    }
}

/// Where the first blank stands: at or after the start, with no blank
/// before.
pub proof fn lemma_first_blank(s: Seq<char>, i: int)
    requires
        0 <= i <= s.len(),
    ensures
        i <= first_blank(s, i) <= s.len(),
        first_blank(s, i) < s.len() ==> s[first_blank(s, i)] == ' ',
        forall|k: int| i <= k < first_blank(s, i) ==> s[k] != ' ',
    decreases s.len() - i,
{
    if i < s.len() && s[i] != ' ' {
        lemma_first_blank(s, i + 1);
    }
}

/// Where the white space at the end starts: after a character that is
/// none, with white space only from there on.
pub proof fn lemma_trim_end(s: Seq<char>)
    ensures
        0 <= trim_end(s) <= s.len(),
        trim_end(s) > 0 ==> !is_space(s[trim_end(s) - 1]),
        forall|k: int| trim_end(s) <= k < s.len() ==> is_space(s[k]),
    decreases s.len(),
{
    if s.len() > 0 && is_space(s.last()) {
        let t = s.drop_last();
        lemma_trim_end(t);
        assert forall|k: int| trim_end(s) <= k < s.len() implies is_space(s[k]) by {
            if k < t.len() {
                assert(s[k] == t[k]);
            }
        }
    }
}

/// The words of `s`.
pub fn split_words(s: &Vec<char>) -> (ws: Vec<Vec<char>>)
    ensures
        views(ws@) == words(s@),
{
    let mut ws: Vec<Vec<char>> = Vec::new();
    let mut i: usize = 0;
    assert(views(ws@) + words_from(s@, 0) =~= words(s@));
    while i < s.len()
        invariant
            i <= s.len(),
            views(ws@) + words_from(s@, i as int) == words(s@),
        decreases s.len() - i,
    {
        if is_space_char(s[i]) {
            i += 1;
        } else {
            let mut e: usize = i;
            while e < s.len() && !is_space_char(s[e])
                invariant
                    i <= e <= s.len(),
                    word_end(s@, e as int) == word_end(s@, i as int),
                decreases s.len() - e,
            {
                e += 1;
            }
            let word = slice_chars(s, i, e);
            proof {
                lemma_word_end(s@, i as int);
                assert(views(ws@.push(word)) =~= views(ws@).push(word@));
                assert(views(ws@).push(word@) + words_from(s@, e as int) =~= views(ws@) + (seq![
                    word@,
                ] + words_from(s@, e as int)));
            }
            ws.push(word);
            i = e;
        }
    }
    assert(views(ws@) + words_from(s@, i as int) =~= views(ws@));
    ws
}

/// The index after the `n`th word of `s`, or the length of `s` where it
/// has fewer words.
pub fn after_words_index(s: &Vec<char>, n: usize) -> (r: usize)
    ensures
        r == after_words(s@, 0, n as nat),
        r <= s.len(),
{
    let mut i: usize = 0;
    let mut left: usize = n;
    while left > 0 && i < s.len()
        invariant
            i <= s.len(),
            after_words(s@, i as int, left as nat) == after_words(s@, 0, n as nat),
        decreases s.len() - i,
    {
        if is_space_char(s[i]) {
            i += 1;
        } else {
            let mut e: usize = i;
            while e < s.len() && !is_space_char(s[e])
                invariant
                    i <= e <= s.len(),
                    word_end(s@, e as int) == word_end(s@, i as int),
                decreases s.len() - e,
            {
                e += 1;
            }
            proof {
                lemma_word_end(s@, i as int);
            }
            i = e;
            left -= 1;
        }
    }
    i
}

/// `s` without the white space at its ends.
pub fn trim_chars(s: &Vec<char>) -> (r: Vec<char>)
    ensures
        r@ == trimmed(s@),
{
    let mut from: usize = 0;
    while from < s.len() && is_space_char(s[from])
        invariant
            from <= s.len(),
            skip_spaces(s@, from as int) == skip_spaces(s@, 0),
        decreases s.len() - from,
    {
        from += 1;
    }
    let mut to: usize = s.len();
    assert(s@.take(to as int) =~= s@);
    while to > 0 && is_space_char(s[to - 1])
        invariant
            to <= s.len(),
            trim_end(s@.take(to as int)) == trim_end(s@),
        decreases to,
    {
        assert(s@.take(to as int).drop_last() =~= s@.take(to - 1));
        to -= 1;
    }
    if from < to {
        slice_chars(s, from, to)
    } else {
        Vec::new()
    }
}

/// The two parts of `s` around its first blank.
pub fn split_at_blank(s: &Vec<char>) -> (r: (Vec<char>, Vec<char>))
    ensures
        r.0@ == before_blank(s@),
        r.1@ == after_blank(s@),
{
    let mut at: usize = 0;
    while at < s.len() && s[at] != ' '
        invariant
            at <= s.len(),
            first_blank(s@, at as int) == first_blank(s@, 0),
        decreases s.len() - at,
    {
        at += 1;
    }
    let head = slice_chars(s, 0, at);
    let tail = if at < s.len() {
        slice_chars(s, at + 1, s.len())
    } else {
        Vec::new()
    };
    (head, tail)
}

} // verus!
