//! Characters, whitespace and tokens.
//!
//! A line is handled as its sequence of Unicode scalar values. Whitespace is
//! what Unicode marks as `White_Space`, and a token is a maximal run of characters
//! that are not whitespace.

use vstd::prelude::*;

verus! {

/// Whether Unicode marks `c` as `White_Space`.
pub open spec fn is_space(c: char) -> bool {
    let u = c as u32;
    ||| 0x09 <= u <= 0x0D
    ||| u == 0x20
    ||| u == 0x85
    ||| u == 0xA0
    ||| u == 0x1680
    ||| 0x2000 <= u <= 0x200A
    ||| u == 0x2028
    ||| u == 0x2029
    ||| u == 0x202F
    ||| u == 0x205F
    ||| u == 0x3000
}

/// The first index at or after `i` that holds no whitespace, or the length of
/// `s` when only whitespace follows.
pub open spec fn spaces_end(s: Seq<char>, i: int) -> int
    decreases s.len() - i,
{
    if 0 <= i < s.len() && is_space(s[i]) {
        spaces_end(s, i + 1)
    } else {
        i
    }
}

/// The first index at or after `i` that holds whitespace, or the length of `s`
/// when none follows.
pub open spec fn word_end(s: Seq<char>, i: int) -> int
    decreases s.len() - i,
{
    if 0 <= i < s.len() && !is_space(s[i]) {
        word_end(s, i + 1)
    } else {
        i
    }
}

/// The tokens of `s` that start at or after index `i`, in order.
pub open spec fn tokens_from(s: Seq<char>, i: int) -> Seq<Seq<char>>
    decreases s.len() - i,
{
    let a = spaces_end(s, i);
    if 0 <= i && a < s.len() {
        proof {
            lemma_spaces_end(s, i);
            lemma_word_end(s, a);
        }
        seq![s.subrange(a, word_end(s, a))] + tokens_from(s, word_end(s, a))
    } else {
        Seq::empty()
    }
}

/// The whitespace-separated tokens of `s`.
pub open spec fn tokens(s: Seq<char>) -> Seq<Seq<char>> {
    tokens_from(s, 0)
}

/// `s` without its leading whitespace.
pub open spec fn trim_start(s: Seq<char>) -> Seq<char> {
    s.subrange(spaces_end(s, 0), s.len() as int)
}

/// Whether `p` is a prefix of `s`.
pub open spec fn has_prefix(s: Seq<char>, p: Seq<char>) -> bool {
    p.len() <= s.len() && s.subrange(0, p.len() as int) == p
}

/// `spaces_end` stops at the first character that is not whitespace: all it
/// passes over is whitespace, and it ends on a character that is none or at the
/// end of `s`.
pub proof fn lemma_spaces_end(s: Seq<char>, i: int)
    requires
        0 <= i <= s.len(),
    ensures
        i <= spaces_end(s, i) <= s.len(),
        forall|j: int| i <= j < spaces_end(s, i) ==> is_space(#[trigger] s[j]),
        spaces_end(s, i) < s.len() ==> !is_space(s[spaces_end(s, i)]),
    decreases s.len() - i,
{
    if i < s.len() && is_space(s[i]) {
        lemma_spaces_end(s, i + 1);
    }
}

/// `word_end` stops at the first whitespace: nothing it passes over is
/// whitespace, and it ends on whitespace or at the end of `s`.
pub proof fn lemma_word_end(s: Seq<char>, i: int)
    requires
        0 <= i <= s.len(),
    ensures
        i <= word_end(s, i) <= s.len(),
        forall|j: int| i <= j < word_end(s, i) ==> !is_space(#[trigger] s[j]),
        word_end(s, i) < s.len() ==> is_space(s[word_end(s, i)]),
        i < s.len() && !is_space(s[i]) ==> i < word_end(s, i),
    decreases s.len() - i,
{
    if i < s.len() && !is_space(s[i]) {
        lemma_word_end(s, i + 1);
    }
}

/// Every token that starts at or after `i` has a character, and none of its
/// characters is whitespace.
pub proof fn tokens_are_words(s: Seq<char>, i: int, k: int)
    requires
        0 <= i <= s.len(),
        0 <= k < tokens_from(s, i).len(),
    ensures
        tokens_from(s, i)[k].len() > 0,
        forall|j: int|
            0 <= j < tokens_from(s, i)[k].len() ==> !is_space(#[trigger] tokens_from(s, i)[k][j]),
    decreases s.len() - i,
{
    let a = spaces_end(s, i);
    lemma_spaces_end(s, i);
    lemma_word_end(s, a);
    let b = word_end(s, a);
    if k == 0 {
        let token = s.subrange(a, b);
        assert(tokens_from(s, i)[0] == token);
        assert forall|j: int| 0 <= j < token.len() implies !is_space(#[trigger] token[j]) by {
            assert(token[j] == s[a + j]);
        }
    } else {
        assert(tokens_from(s, i)[k] == tokens_from(s, b)[k - 1]);
        tokens_are_words(s, b, k - 1);
    }
}

/// Tells whether `c` is whitespace.
pub fn is_whitespace(c: char) -> (b: bool)
    ensures
        b == is_space(c),
{
    let u: u32 = c as u32;
    (0x09 <= u && u <= 0x0D) || u == 0x20 || u == 0x85 || u == 0xA0 || u == 0x1680 || (0x2000
        <= u && u <= 0x200A) || u == 0x2028 || u == 0x2029 || u == 0x202F || u == 0x205F || u
        == 0x3000
}

/// The characters of `s`, one by one.
pub fn to_chars(s: &str) -> (v: Vec<char>)
    ensures
        v@ == s@,
{
    let mut v: Vec<char> = Vec::new();
    for c in it: s.chars()
        invariant
            v@ == it.seq().take(it.index() as int),
            it.seq() == s@,
    {
        v.push(c);
    }
    v
}

/// Moves past the whitespace that starts at index `i`.
pub fn skip_spaces(s: &Vec<char>, i: usize) -> (r: usize)
    requires
        i <= s.len(),
    ensures
        r == spaces_end(s@, i as int),
        i <= r <= s.len(),
{
    let mut j: usize = i;
    while j < s.len() && is_whitespace(s[j])
        invariant
            i <= j <= s.len(),
            spaces_end(s@, j as int) == spaces_end(s@, i as int),
        decreases s.len() - j,
    {
        j = j + 1;
    }
    j
}

/// Moves past the token that starts at index `i`.
pub fn skip_word(s: &Vec<char>, i: usize) -> (r: usize)
    requires
        i <= s.len(),
    ensures
        r == word_end(s@, i as int),
        i <= r <= s.len(),
{
    let mut j: usize = i;
    while j < s.len() && !is_whitespace(s[j])
        invariant
            i <= j <= s.len(),
            word_end(s@, j as int) == word_end(s@, i as int),
        decreases s.len() - j,
    {
        j = j + 1;
    }
    j
}

/// Where the tokens of `s` begin and end: for each token, the index of its
/// first character and the index after its last.
pub fn token_bounds(s: &Vec<char>) -> (r: Vec<(usize, usize)>)
    ensures
        r@.len() == tokens(s@).len(),
        forall|k: int|
            0 <= k < r@.len() ==> {
                &&& (#[trigger] r@[k]).0 < r@[k].1 <= s@.len()
                &&& s@.subrange(r@[k].0 as int, r@[k].1 as int) == tokens(s@)[k]
            },
{
    let mut r: Vec<(usize, usize)> = Vec::new();
    let mut i: usize = 0;
    let ghost mut found: Seq<Seq<char>> = Seq::empty();
    loop
        invariant
            i <= s.len(),
            found + tokens_from(s@, i as int) == tokens(s@),
            r@.len() == found.len(),
            forall|k: int|
                0 <= k < r@.len() ==> {
                    &&& (#[trigger] r@[k]).0 < r@[k].1 <= s@.len()
                    &&& s@.subrange(r@[k].0 as int, r@[k].1 as int) == found[k]
                },
        ensures
            r@.len() == tokens(s@).len(),
            forall|k: int|
                0 <= k < r@.len() ==> {
                    &&& (#[trigger] r@[k]).0 < r@[k].1 <= s@.len()
                    &&& s@.subrange(r@[k].0 as int, r@[k].1 as int) == tokens(s@)[k]
                },
        decreases s.len() - i,
    {
        let a = skip_spaces(s, i);
        if a >= s.len() {
            assert(tokens_from(s@, i as int) == Seq::<Seq<char>>::empty());
            assert(found + Seq::<Seq<char>>::empty() == found);
            break ;
        }
        let b = skip_word(s, a);
        proof {
            lemma_spaces_end(s@, i as int);
            lemma_word_end(s@, a as int);
            let tok = s@.subrange(a as int, b as int);
            assert(tokens_from(s@, i as int) == seq![tok] + tokens_from(s@, b as int));
            assert(found.push(tok) + tokens_from(s@, b as int) == found + (seq![tok]
                + tokens_from(s@, b as int)));
            found = found.push(tok);
        }
        r.push((a, b));
        i = b;
    }
    r
}

/// Tells whether the characters of `s` from index `from` up to `to` are those
/// of `p`.
pub fn range_is(s: &Vec<char>, from: usize, to: usize, p: &Vec<char>) -> (b: bool)
    requires
        from <= to <= s.len(),
    ensures
        b == (s@.subrange(from as int, to as int) == p@),
{
    if to - from != p.len() {
        return false;
    }
    let ghost part = s@.subrange(from as int, to as int);
    let mut i: usize = 0;
    while i < p.len()
        invariant
            i <= p.len(),
            from <= to <= s.len(),
            to - from == p.len(),
            part == s@.subrange(from as int, to as int),
            part.take(i as int) == p@.take(i as int),
        decreases p.len() - i,
    {
        if s[from + i] != p[i] {
            assert(part[i as int] != p@[i as int]);
            return false;
        }
        assert(part.take(i + 1) == part.take(i as int).push(part[i as int]));
        assert(p@.take(i + 1) == p@.take(i as int).push(p@[i as int]));
        i = i + 1;
    }
    assert(part.take(p.len() as int) == part);
    assert(p@.take(p.len() as int) == p@);
    true
}

/// Tells whether `s` is the text `word`.
pub fn text_is(s: &Vec<char>, word: &str) -> (b: bool)
    ensures
        b == (s@ == word@),
{
    let letters = to_chars(word);
    assert(s@.subrange(0, s.len() as int) == s@);
    range_is(s, 0, s.len(), &letters)
}

/// Tells whether `s` begins with the characters of `p`.
pub fn starts_with(s: &Vec<char>, p: &Vec<char>) -> (b: bool)
    ensures
        b == has_prefix(s@, p@),
{
    if p.len() > s.len() {
        return false;
    }
    let mut i: usize = 0;
    while i < p.len()
        invariant
            i <= p.len() <= s.len(),
            s@.subrange(0, i as int) == p@.subrange(0, i as int),
        decreases p.len() - i,
    {
        if s[i] != p[i] {
            assert(s@.subrange(0, p.len() as int)[i as int] != p@[i as int]);
            return false;
        }
        assert(s@.subrange(0, i + 1) == s@.subrange(0, i as int).push(s@[i as int]));
        assert(p@.subrange(0, i + 1) == p@.subrange(0, i as int).push(p@[i as int]));
        i = i + 1;
    }
    assert(p@.subrange(0, p.len() as int) == p@);
    true
}

} // verus!
