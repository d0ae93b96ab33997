//! Character and token utilities for the command parser.
//!
//! A command line is split into whitespace-delimited tokens (maximal runs of
//! non-whitespace characters; runs of blanks never yield empty tokens), and
//! the command name is folded to lower case before it is compared against the
//! keyword set.  Both operations are defined here as spec functions over
//! `Seq<char>` together with the verified executable code that implements
//! them on `&str` and `String`.

use vstd::prelude::*;
use vstd::string::*;

verus! {

/// The whitespace characters that separate tokens: the ASCII blank,
/// tab, line feed and carriage return.
pub open spec fn is_space_char(c: char) -> bool {
    c == ' ' || c == '\t' || c == '\n' || c == '\r'
}

/// ASCII case folding of one character: `'A'..='Z'` map to `'a'..='z'`,
/// every other character is unchanged.
pub open spec fn lower_char(c: char) -> char {
    if 65 <= c as int && c as int <= 90 {
        (c as int + 32) as char
    } else {
        c
    }
}

/// ASCII case folding of a whole character sequence.
pub open spec fn lower_seq(s: Seq<char>) -> Seq<char> {
    s.map_values(|c: char| lower_char(c))
}

/// The views of a sequence of owned strings.
pub open spec fn views_of(toks: Seq<String>) -> Seq<Seq<char>> {
    toks.map_values(|t: String| t@)
}

/// Index of the first non-whitespace character at or after `i`, or the
/// length of `s` if only whitespace remains.
pub open spec fn skip_ws(s: Seq<char>, i: int) -> int
    decreases s.len() - i
    when 0 <= i <= s.len()
{
    if i < s.len() && is_space_char(s[i]) {
        skip_ws(s, i + 1)
    } else {
        i
    }
}

/// Index just past the token that starts at `i`: the first whitespace
/// character at or after `i`, or the length of `s`.
pub open spec fn token_end(s: Seq<char>, i: int) -> int
    decreases s.len() - i
    when 0 <= i <= s.len()
{
    if i < s.len() && !is_space_char(s[i]) {
        token_end(s, i + 1)
    } else {
        i
    }
}

/// The whitespace-delimited tokens of `s` from position `i` on.
pub open spec fn tokens_from(s: Seq<char>, i: int) -> Seq<Seq<char>>
    decreases s.len() - i
    when 0 <= i <= s.len()
    via tokens_from_decreases
{
    let j = skip_ws(s, i);
    if j >= s.len() {
        Seq::empty()
    } else {
        seq![s.subrange(j, token_end(s, j))] + tokens_from(s, token_end(s, j))
    }
}

#[via_fn]
proof fn tokens_from_decreases(s: Seq<char>, i: int) {
    lemma_skip_ws_bounds(s, i);
    if skip_ws(s, i) < s.len() {
        lemma_token_end_bounds(s, skip_ws(s, i));
    }
}

/// The whitespace-delimited tokens of a whole line.
pub open spec fn spec_tokens(s: Seq<char>) -> Seq<Seq<char>> {
    tokens_from(s, 0)
}

pub proof fn lemma_skip_ws_bounds(s: Seq<char>, i: int)
    requires
        0 <= i <= s.len(),
    ensures
        i <= skip_ws(s, i) <= s.len(),
        skip_ws(s, i) < s.len() ==> !is_space_char(s[skip_ws(s, i)]),
        forall|j: int| i <= j < skip_ws(s, i) ==> is_space_char(s[j]),
    decreases s.len() - i,
{
    if i < s.len() && is_space_char(s[i]) {
        lemma_skip_ws_bounds(s, i + 1);
    }
}

pub proof fn lemma_token_end_bounds(s: Seq<char>, i: int)
    requires
        0 <= i <= s.len(),
    ensures
        i <= token_end(s, i) <= s.len(),
        token_end(s, i) < s.len() ==> is_space_char(s[token_end(s, i)]),
        forall|j: int| i <= j < token_end(s, i) ==> !is_space_char(s[j]),
        i < s.len() && !is_space_char(s[i]) ==> token_end(s, i) > i,
    decreases s.len() - i,
{
    if i < s.len() && !is_space_char(s[i]) {
        lemma_token_end_bounds(s, i + 1);
    }
}

/// `token_end` is pinned by its characterization: everything from `i` up to
/// `k` is non-whitespace and `k` is the line's end or a whitespace position.
pub proof fn lemma_token_end_is(s: Seq<char>, i: int, k: int)
    requires
        0 <= i <= k <= s.len(),
        forall|j: int| i <= j < k ==> !is_space_char(s[j]),
        k == s.len() || is_space_char(s[k]),
    ensures
        token_end(s, i) == k,
    decreases k - i,
{
    if i < k {
        assert(!is_space_char(s[i]));
        lemma_token_end_is(s, i + 1, k);
    }
}

proof fn lemma_skip_ws_shift(s: Seq<char>, i: int, j: int)
    requires
        0 <= i <= j <= s.len(),
    ensures
        skip_ws(s, j) == i + skip_ws(s.skip(i), j - i),
    decreases s.len() - j,
{
    if j < s.len() && is_space_char(s[j]) {
        lemma_skip_ws_shift(s, i, j + 1);
    }
}

proof fn lemma_token_end_shift(s: Seq<char>, i: int, j: int)
    requires
        0 <= i <= j <= s.len(),
    ensures
        token_end(s, j) == i + token_end(s.skip(i), j - i),
    decreases s.len() - j,
{
    if j < s.len() && !is_space_char(s[j]) {
        lemma_token_end_shift(s, i, j + 1);
    }
}

proof fn lemma_tokens_from_shift(s: Seq<char>, i: int, j: int)
    requires
        0 <= i <= j <= s.len(),
    ensures
        tokens_from(s, j) == tokens_from(s.skip(i), j - i),
    decreases s.len() - j,
{
    let t = s.skip(i);
    lemma_skip_ws_shift(s, i, j);
    let js = skip_ws(s, j);
    lemma_skip_ws_bounds(s, j);
    if js < s.len() {
        lemma_token_end_shift(s, i, js);
        lemma_token_end_bounds(s, js);
        let es = token_end(s, js);
        assert(s.subrange(js, es) =~= t.subrange(js - i, es - i));
        lemma_tokens_from_shift(s, i, es);
    }
}

/// The tokens of the tail of a line, seen from within the whole line.
pub proof fn lemma_tokens_suffix(s: Seq<char>, i: int)
    requires
        0 <= i <= s.len(),
    ensures
        tokens_from(s, i) == spec_tokens(s.skip(i)),
{
    lemma_tokens_from_shift(s, i, i);
}

/// A line that is one non-empty run of non-whitespace characters is its
/// own single token.
pub proof fn lemma_tokens_single(w: Seq<char>)
    requires
        w.len() > 0,
        forall|j: int| 0 <= j < w.len() ==> !is_space_char(w[j]),
    ensures
        spec_tokens(w) == seq![w],
{
    assert(!is_space_char(w[0]));
    assert(skip_ws(w, 0) == 0);
    lemma_token_end_is(w, 0, w.len() as int);
    assert(w.subrange(0, w.len() as int) =~= w);
    assert(skip_ws(w, w.len() as int) == w.len());
    assert(tokens_from(w, w.len() as int) =~= Seq::<Seq<char>>::empty());
    assert(spec_tokens(w) =~= seq![w]);
}

/// Putting one token and a blank in front of a line puts that token in
/// front of the line's token sequence.
pub proof fn lemma_tokens_prepend(w: Seq<char>, rest: Seq<char>)
    requires
        w.len() > 0,
        forall|j: int| 0 <= j < w.len() ==> !is_space_char(w[j]),
    ensures
        spec_tokens(w + seq![' '] + rest) == seq![w] + spec_tokens(rest),
{
    let line = w + seq![' '] + rest;
    let m = w.len() as int;
    assert(line[0] == w[0]);
    assert(skip_ws(line, 0) == 0);
    assert forall|j: int| 0 <= j < m implies !is_space_char(line[j]) by {
        assert(line[j] == w[j]);
    }
    assert(line[m] == ' ');
    lemma_token_end_is(line, 0, m);
    assert(line.subrange(0, m) =~= w);
    assert(skip_ws(line, m) == skip_ws(line, m + 1));
    assert(tokens_from(line, m) == tokens_from(line, m + 1));
    lemma_tokens_suffix(line, m + 1);
    assert(line.skip(m + 1) =~= rest);
    assert(spec_tokens(line) =~= seq![w] + spec_tokens(rest));
}

/// Executable test for a token separator.
pub fn is_space(c: char) -> (r: bool)
    ensures
        r == is_space_char(c),
{
    c == ' ' || c == '\t' || c == '\n' || c == '\r'
}

/// Executable ASCII case folding of one character.
pub fn to_lower(c: char) -> (r: char)
    ensures
        r == lower_char(c),
{
    let u = c as u32;
    if 65 <= u && u <= 90 {
        ((u + 32) as u8) as char
    } else {
        c
    }
}

/// Relies on `String::push`: it appends the given character at the end of
/// the string and changes nothing else.
#[verifier::external_body]
pub(crate) fn push_char(s: &mut String, c: char)
    ensures
        final(s)@ == old(s)@.push(c),
{
    s.push(c);
}

/// Executable ASCII case folding of a whole string.
pub fn lower_string(s: &str) -> (r: String)
    ensures
        r@ == lower_seq(s@),
{
    let n = s.unicode_len();
    let mut out = String::new();
    let mut i: usize = 0;
    while i < n
        invariant
            i <= n,
            n == s@.len(),
            out@ == lower_seq(s@.subrange(0, i as int)),
        decreases n - i,
    {
        let c = s.get_char(i);
        push_char(&mut out, to_lower(c));
        proof {
            assert(s@.subrange(0, i + 1) =~= s@.subrange(0, i as int).push(s@[i as int]));
            assert(lower_seq(s@.subrange(0, i + 1)) =~= lower_seq(s@.subrange(0, i as int)).push(
                lower_char(s@[i as int]),
            ));
        }
        i += 1;
    }
    proof {
        assert(s@.subrange(0, n as int) =~= s@);
    }
    out
}

/// Executable string equality, decided character by character.
pub fn str_eq(a: &str, b: &str) -> (r: bool)
    ensures
        r == (a@ == b@),
{
    let na = a.unicode_len();
    let nb = b.unicode_len();
    if na != nb {
        return false;
    }
    let mut i: usize = 0;
    while i < na
        invariant
            i <= na,
            na == a@.len(),
            na == b@.len(),
            forall|j: int| 0 <= j < i ==> a@[j] == b@[j],
        decreases na - i,
    {
        if a.get_char(i) != b.get_char(i) {
            return false;
        }
        i += 1;
    }
    proof {
        assert(a@ =~= b@);
    }
    true
}

/// Index of the first whitespace character of `s` at or after `start`, or
/// the length of `s` if the token runs to the end of the line.
fn scan_token_end(s: &str, start: usize) -> (end: usize)
    requires
        start <= s@.len(),
    ensures
        end == token_end(s@, start as int),
        start <= end <= s@.len(),
{
    let n = s.unicode_len();
    let mut i = start;
    while i < n
        invariant
            start <= i <= n,
            n == s@.len(),
            forall|j: int| start <= j < i ==> !is_space_char(s@[j]),
        decreases n - i,
    {
        if is_space(s.get_char(i)) {
            proof {
                lemma_token_end_is(s@, start as int, i as int);
            }
            return i;
        }
        i += 1;
    }
    proof {
        lemma_token_end_is(s@, start as int, n as int);
    }
    i
}

/// Splits a line into its whitespace-delimited tokens.  Every token is a
/// maximal non-empty run of non-whitespace characters; leading, trailing
/// and repeated whitespace is insignificant.
pub fn tokenize(s: &str) -> (toks: Vec<String>)
    ensures
        views_of(toks@) == spec_tokens(s@),
{
    let n = s.unicode_len();
    let mut toks: Vec<String> = Vec::new();
    let mut i: usize = 0;
    while i < n
        invariant
            i <= n,
            n == s@.len(),
            views_of(toks@) + tokens_from(s@, i as int) == spec_tokens(s@),
        decreases n - i,
    {
        let c = s.get_char(i);
        if is_space(c) {
            proof {
                assert(skip_ws(s@, i as int) == skip_ws(s@, i + 1));
            }
            i += 1;
        } else {
            let start = i;
            let end = scan_token_end(s, start);
            let mut tok = String::new();
            let mut k = start;
            proof {
                lemma_token_end_bounds(s@, start as int);
            }
            while k < end
                invariant
                    start <= k <= end,
                    end <= n,
                    n == s@.len(),
                    tok@ == s@.subrange(start as int, k as int),
                decreases end - k,
            {
                push_char(&mut tok, s.get_char(k));
                proof {
                    assert(s@.subrange(start as int, k + 1) =~= s@.subrange(
                        start as int,
                        k as int,
                    ).push(s@[k as int]));
                }
                k += 1;
            }
            proof {
                assert(skip_ws(s@, start as int) == start as int);
                assert(tokens_from(s@, start as int) == seq![
                    s@.subrange(start as int, end as int),
                ] + tokens_from(s@, end as int));
                assert(views_of(toks@.push(tok)) =~= views_of(toks@).push(tok@));
                assert((views_of(toks@).push(tok@)) + tokens_from(s@, end as int) =~= views_of(
                    toks@,
                ) + tokens_from(s@, start as int));
            }
            toks.push(tok);
            i = end;
        }
    }
    proof {
        assert(skip_ws(s@, n as int) == n as int);
        assert(tokens_from(s@, n as int) =~= Seq::<Seq<char>>::empty());
        assert(views_of(toks@) + tokens_from(s@, n as int) =~= views_of(toks@));
    }
    toks
}

} // verus!
