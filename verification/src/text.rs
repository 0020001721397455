//! Cutting text into pieces at separator characters.

use vstd::prelude::*;
use vstd::std_specs::iter::IteratorSpec;

verus! {

/// Index of the first occurrence of `c` in `s`, or the length of `s` where
/// `c` does not occur.
pub open spec fn find(s: Seq<char>, c: char) -> int
    decreases s.len(),
{
    if s.len() == 0 || s[0] == c {
        0
    } else {
        1 + find(s.drop_first(), c)
    }
}

/// `find` is the least index that holds `c`.
pub proof fn lemma_find(s: Seq<char>, c: char)
    ensures
        0 <= find(s, c) <= s.len(),
        find(s, c) < s.len() ==> s[find(s, c)] == c,
        forall|j: int| 0 <= j < find(s, c) ==> s[j] != c,
    decreases s.len(),
{
    if s.len() == 0 || s[0] == c {
    } else {
        let t = s.drop_first();
        lemma_find(t, c);
        assert forall|j: int| 0 <= j < find(s, c) implies s[j] != c by {
            if j > 0 {
                assert(s[j] == t[j - 1]);
            }
        }
    }
}

/// Finds the first `c` in `s`: its index in characters, or the length of
/// `s` in characters where there is none.
pub fn find_char(s: &str, c: char) -> (at: usize)
    ensures
        at == find(s@, c),
{
    let mut rest = s.chars();
    let mut at: usize = 0;
    let len = s.unicode_len();
    proof {
        lemma_find(s@, c);
    }
    loop
        invariant
            at <= len == s@.len(),
            rest.remaining() == s@.skip(at as int),
            forall|j: int| 0 <= j < at ==> s@[j] != c,
            0 <= find(s@, c) <= s@.len(),
            find(s@, c) < s@.len() ==> s@[find(s@, c)] == c,
            forall|j: int| 0 <= j < find(s@, c) ==> s@[j] != c,
        decreases len - at,
    {
        match rest.next() {
            None => {
                return at;
            },
            Some(found) => {
                assert(found == s@[at as int]);
                if found == c {
                    return at;
                }
                at = at + 1;
            },
        }
    }
}

/// Whether `a` and `b` hold the same characters.
pub fn equal(a: &str, b: &str) -> (r: bool)
    ensures
        r == (a@ == b@),
{
    let mut left = a.chars();
    let mut right = b.chars();
    let ghost mut at: int = 0;
    loop
        invariant
            0 <= at <= a@.len(),
            at <= b@.len(),
            left.remaining() == a@.skip(at),
            right.remaining() == b@.skip(at),
            a@.take(at) == b@.take(at),
        decreases a@.len() - at,
    {
        match (left.next(), right.next()) {
            (None, None) => {
                assert(a@ =~= a@.take(at));
                assert(b@ =~= b@.take(at));
                return true;
            },
            (Some(x), Some(y)) => {
                assert(x == a@[at] && y == b@[at]);
                if x != y {
                    return false;
                }
                proof {
                    assert(a@.take(at + 1) =~= a@.take(at).push(x));
                    assert(b@.take(at + 1) =~= b@.take(at).push(y));
                    at = at + 1;
                }
            },
            _ => {
                return false;
            },
        }
    }
}

/// The piece of `s` before its first `c`: all of `s` where `c` does not occur.
pub open spec fn head(s: Seq<char>, c: char) -> Seq<char> {
    s.take(find(s, c))
}

/// What follows the first `c` in `s`; `None` where `c` does not occur.
pub open spec fn tail(s: Seq<char>, c: char) -> Option<Seq<char>> {
    if find(s, c) < s.len() {
        Some(s.skip(find(s, c) + 1))
    } else {
        None
    }
}

/// Piece number `n`, counted from zero, of `s` cut at every `c`. Two
/// separators in a row hold an empty piece between them. `None` where `s`
/// has `n` pieces or fewer.
pub open spec fn piece(s: Seq<char>, c: char, n: nat) -> Option<Seq<char>>
    decreases n,
{
    if n == 0 {
        Some(head(s, c))
    } else {
        match tail(s, c) {
            Some(rest) => piece(rest, c, (n - 1) as nat),
            None => None,
        }
    }
}

/// Whether `c` occurs nowhere in `s`.
pub open spec fn free_of(s: Seq<char>, c: char) -> bool {
    forall|i: int| 0 <= i < s.len() ==> #[trigger] s[i] != c
}

/// A text that is free of `c` is its own first piece, and nothing follows.
pub proof fn lemma_uncut(s: Seq<char>, c: char)
    requires
        free_of(s, c),
    ensures
        find(s, c) == s.len(),
        head(s, c) == s,
        tail(s, c) is None,
        piece(s, c, 0) == Some(s),
{
    lemma_find(s, c);
    assert(s.take(s.len() as int) =~= s);
}

/// Where `a` is free of `c`, the text `a`, `c`, `b` is cut into `a` and `b`.
pub proof fn lemma_cut(a: Seq<char>, c: char, b: Seq<char>)
    requires
        free_of(a, c),
    ensures
        find(a + seq![c] + b, c) == a.len(),
        head(a + seq![c] + b, c) == a,
        tail(a + seq![c] + b, c) == Some(b),
        forall|n: nat| n > 0 ==> #[trigger] piece(a + seq![c] + b, c, n) == piece(b, c, (n - 1) as nat),
{
    let s = a + seq![c] + b;
    lemma_find(s, c);
    assert(s[a.len() as int] == c);
    assert forall|j: int| 0 <= j < a.len() implies s[j] != c by {
        assert(s[j] == a[j]);
    }
    assert(find(s, c) == a.len());
    assert(s.take(a.len() as int) =~= a);
    assert(s.skip(a.len() as int + 1) =~= b);
}

/// Whether the optional text `got` stands for the optional sequence `want`.
pub open spec fn same_text(got: Option<&str>, want: Option<Seq<char>>) -> bool {
    match got {
        Some(t) => want == Some(t@),
        None => want is None,
    }
}

/// Cuts `s` at its first `c` into what stands before it and what follows it.
pub fn cut<'a>(s: &'a str, c: char) -> (r: (&'a str, Option<&'a str>))
    ensures
        r.0@ == head(s@, c),
        same_text(r.1, tail(s@, c)),
{
    let at = find_char(s, c);
    let len = s.unicode_len();
    proof {
        lemma_find(s@, c);
    }
    let first = s.substring_char(0, at);
    if at < len {
        (first, Some(s.substring_char(at + 1, len)))
    } else {
        (first, None)
    }
}

/// Piece number `n`, counted from zero, of `s` cut at every `c`.
pub fn piece_of<'a>(s: &'a str, c: char, n: usize) -> (r: Option<&'a str>)
    ensures
        same_text(r, piece(s@, c, n as nat)),
{
    let mut rest = s;
    let mut left = n;
    loop
        invariant
            piece(s@, c, n as nat) == piece(rest@, c, left as nat),
        decreases left,
    {
        let (first, after) = cut(rest, c);
        if left == 0 {
            return Some(first);
        }
        match after {
            None => {
                return None;
            },
            Some(t) => {
                rest = t;
                left = left - 1;
            },
        }
    }
}

/// Whether a blank line starts at index `j` of `s`: a newline there and
/// another right after it.
pub open spec fn blank_at(s: Seq<char>, j: int) -> bool {
    0 <= j && j + 1 < s.len() && s[j] == '\n' && s[j + 1] == '\n'
}

/// Index of the first blank line of `s`, that is of the first newline that
/// another newline follows at once, or the length of `s` where there is none.
pub open spec fn gap(s: Seq<char>) -> int
    decreases s.len(),
{
    if s.len() < 2 {
        s.len() as int
    } else if s[0] == '\n' && s[1] == '\n' {
        0
    } else {
        1 + gap(s.drop_first())
    }
}

/// `gap` is the least index at which two newlines stand side by side.
pub proof fn lemma_gap(s: Seq<char>)
    ensures
        0 <= gap(s) <= s.len(),
        gap(s) < s.len() ==> blank_at(s, gap(s)),
        forall|j: int| 0 <= j < gap(s) ==> !#[trigger] blank_at(s, j),
    decreases s.len(),
{
    if s.len() < 2 {
    } else if s[0] == '\n' && s[1] == '\n' {
    } else {
        let t = s.drop_first();
        lemma_gap(t);
        assert forall|j: int| 0 <= j < gap(s) implies !#[trigger] blank_at(s, j) by {
            if j > 0 && j + 1 < s.len() {
                assert(!blank_at(t, j - 1));
                assert(s[j] == t[j - 1]);
                assert(s[j + 1] == t[j]);
            }
        }
    }
}

/// The blocks of `s`: what stands between its blank lines, cut from the
/// left. A text without a blank line is one block; a text that ends in a
/// blank line has an empty last block.
pub open spec fn blocks(s: Seq<char>) -> Seq<Seq<char>>
    decreases s.len(),
{
    let at = gap(s);
    if 0 <= at && at + 2 <= s.len() {
        seq![s.take(at)] + blocks(s.skip(at + 2))
    } else {
        seq![s]
    }
}

/// Finds the first blank line of `s`.
pub fn find_gap(s: &str) -> (at: usize)
    ensures
        at == gap(s@),
{
    let mut rest = s.chars();
    let mut at: usize = 0;
    let mut after_newline = false;
    let len = s.unicode_len();
    proof {
        lemma_gap(s@);
    }
    loop
        invariant
            at <= len == s@.len(),
            rest.remaining() == s@.skip(at as int),
            after_newline == (at > 0 && s@[at - 1] == '\n'),
            forall|j: int| 0 <= j && j + 1 < at ==> !#[trigger] blank_at(s@, j),
            0 <= gap(s@) <= s@.len(),
            gap(s@) < s@.len() ==> blank_at(s@, gap(s@)),
            forall|j: int| 0 <= j < gap(s@) ==> !#[trigger] blank_at(s@, j),
        decreases len - at,
    {
        match rest.next() {
            None => {
                return at;
            },
            Some(found) => {
                assert(found == s@[at as int]);
                if after_newline && found == '\n' {
                    assert(blank_at(s@, at - 1));
                    return at - 1;
                }
                after_newline = found == '\n';
                at = at + 1;
            },
        }
    }
}

/// Cuts `s` at its first blank line into the block before it and the text
/// after it: `blocks(s)` is the block alone where nothing follows, and the
/// block followed by the blocks of the rest where something does.
pub fn cut_block<'a>(s: &'a str) -> (r: (&'a str, Option<&'a str>))
    ensures
        match r.1 {
            Some(rest) => blocks(s@) == seq![r.0@] + blocks(rest@) && rest@.len() < s@.len(),
            None => blocks(s@) == seq![r.0@] && r.0@ == s@,
        },
{
    let at = find_gap(s);
    let len = s.unicode_len();
    proof {
        lemma_gap(s@);
    }
    if at < len {
        (s.substring_char(0, at), Some(s.substring_char(at + 2, len)))
    } else {
        (s, None)
    }
}

/// The small letter of a capital letter of the alphabet; any other
/// character is left as it is.
pub open spec fn lower(c: char) -> char {
    if 'A' <= c && c <= 'Z' {
        ((c as u8 + 32) as u8) as char
    } else {
        c
    }
}

/// `word` in small letters.
pub open spec fn lowered(word: Seq<char>) -> Seq<char> {
    word.map_values(|c: char| lower(c))
}

/// The small letter of `c`.
pub fn to_lower(c: char) -> (r: char)
    ensures
        r == lower(c),
{
    if 'A' <= c && c <= 'Z' {
        (c as u8 + 32) as char
    } else {
        c
    }
}

/// Whether `word`, in small letters, is `name`.
pub fn spells(word: &str, name: &str) -> (r: bool)
    ensures
        r == (lowered(word@) == name@),
{
    let mut left = word.chars();
    let mut right = name.chars();
    let ghost mut at: int = 0;
    let ghost w = lowered(word@);
    loop
        invariant
            w == lowered(word@),
            0 <= at <= word@.len(),
            at <= name@.len(),
            left.remaining() == word@.skip(at),
            right.remaining() == name@.skip(at),
            w.take(at) == name@.take(at),
        decreases word@.len() - at,
    {
        match (left.next(), right.next()) {
            (None, None) => {
                assert(w =~= w.take(at));
                assert(name@ =~= name@.take(at));
                return true;
            },
            (Some(x), Some(y)) => {
                assert(x == word@[at] && y == name@[at]);
                assert(w[at] == lower(x));
                if to_lower(x) != y {
                    return false;
                }
                proof {
                    assert(w.take(at + 1) =~= w.take(at).push(lower(x)));
                    assert(name@.take(at + 1) =~= name@.take(at).push(y));
                    at = at + 1;
                }
            },
            _ => {
                assert(w.len() != name@.len());
                return false;
            },
        }
    }
}

} // verus!
