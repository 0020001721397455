//! Refresh rates as text. A rate is written as a decimal number that may
//! have a sign, a fraction and an exponent; the three words `inf`,
//! `infinity` and `nan`, in any case and with or without a sign, are
//! taken for rates too.

use crate::number::{all_digits, is_digit};
use crate::text::{cut, find, find_char, head, lemma_find, lowered, spells, tail};
use vstd::prelude::*;
use vstd::std_specs::iter::IteratorSpec;

verus! {

/// `s` without its sign, where it starts with a plus or a minus.
pub open spec fn without_sign(s: Seq<char>) -> Seq<char> {
    if s.len() > 0 && (s[0] == '+' || s[0] == '-') {
        s.skip(1)
    } else {
        s
    }
}

/// Whether `s` is digits, or digits with one point before, between or after
/// them: at least one digit in all.
pub open spec fn is_fraction(s: Seq<char>) -> bool {
    let whole = head(s, '.');
    let part = match tail(s, '.') {
        Some(part) => part,
        None => Seq::empty(),
    };
    all_digits(whole) && all_digits(part) && whole.len() + part.len() > 0
}

/// Whether `s` is one or more digits, which a sign may precede.
pub open spec fn is_exponent(s: Seq<char>) -> bool {
    without_sign(s).len() > 0 && all_digits(without_sign(s))
}

/// Index of the first `e` of `s`, small or capital, or the length of `s`
/// where there is none.
pub open spec fn exponent_mark(s: Seq<char>) -> int {
    if find(s, 'e') <= find(s, 'E') {
        find(s, 'e')
    } else {
        find(s, 'E')
    }
}

/// Whether `s` is a fraction, which an `e` and an exponent may follow.
pub open spec fn is_decimal(s: Seq<char>) -> bool {
    let at = exponent_mark(s);
    is_fraction(s.take(at)) && (at < s.len() ==> is_exponent(s.skip(at + 1)))
}

/// Whether `s` is one of the words that stand for a rate without digits.
pub open spec fn is_rate_word(s: Seq<char>) -> bool {
    let w = lowered(s);
    w == seq!['i', 'n', 'f'] || w == seq!['i', 'n', 'f', 'i', 'n', 'i', 't', 'y'] || w == seq![
        'n',
        'a',
        'n',
    ]
}

/// Whether `s` writes a refresh rate.
pub open spec fn is_rate(s: Seq<char>) -> bool {
    let body = without_sign(s);
    is_rate_word(body) || is_decimal(body)
}

/// Whether `s` holds digits and nothing else.
pub fn only_digits(s: &str) -> (r: bool)
    ensures
        r == all_digits(s@),
{
    let mut rest = s.chars();
    let ghost mut at: int = 0;
    loop
        invariant
            0 <= at <= s@.len(),
            rest.remaining() == s@.skip(at),
            all_digits(s@.take(at)),
        decreases s@.len() - at,
    {
        match rest.next() {
            None => {
                assert(s@.take(at) =~= s@);
                return true;
            },
            Some(found) => {
                assert(found == s@[at]);
                if !('0' <= found && found <= '9') {
                    return false;
                }
                proof {
                    assert forall|i: int| 0 <= i < at + 1 implies is_digit(#[trigger] s@.take(at + 1)[i]) by {
                        if i < at {
                            assert(s@.take(at + 1)[i] == s@.take(at)[i]);
                        }
                    }
                    at = at + 1;
                }
            },
        }
    }
}

/// Leaves out the sign of `s`, where it starts with one.
fn strip_sign<'a>(s: &'a str) -> (r: &'a str)
    ensures
        r@ == without_sign(s@),
{
    let len = s.unicode_len();
    if len == 0 {
        return s;
    }
    let first = s.get_char(0);
    if first == '+' || first == '-' {
        s.substring_char(1, len)
    } else {
        s
    }
}

/// Whether `s` is digits with at most one point among them.
fn fraction(s: &str) -> (r: bool)
    ensures
        r == is_fraction(s@),
{
    let (whole, part) = cut(s, '.');
    let part = match part {
        Some(part) => part,
        None => "",
    };
    proof {
        reveal_strlit("");
    }
    only_digits(whole) && only_digits(part) && (whole.unicode_len() > 0 || part.unicode_len() > 0)
}

/// Whether `s` is digits after at most one sign.
fn exponent(s: &str) -> (r: bool)
    ensures
        r == is_exponent(s@),
{
    let digits = strip_sign(s);
    digits.unicode_len() > 0 && only_digits(digits)
}

/// Whether `s` writes a refresh rate.
pub fn rate(s: &str) -> (r: bool)
    ensures
        r == is_rate(s@),
{
    let body = strip_sign(s);
    proof {
        reveal_strlit("inf");
        reveal_strlit("infinity");
        reveal_strlit("nan");
        assert("inf"@ =~= seq!['i', 'n', 'f']);
        assert("infinity"@ =~= seq!['i', 'n', 'f', 'i', 'n', 'i', 't', 'y']);
        assert("nan"@ =~= seq!['n', 'a', 'n']);
    }
    if spells(body, "inf") || spells(body, "infinity") || spells(body, "nan") {
        return true;
    }
    let small = find_char(body, 'e');
    let capital = find_char(body, 'E');
    let at = if small <= capital {
        small
    } else {
        capital
    };
    let len = body.unicode_len();
    proof {
        lemma_find(body@, 'e');
        lemma_find(body@, 'E');
    }
    if !fraction(body.substring_char(0, at)) {
        return false;
    }
    if at < len {
        exponent(body.substring_char(at + 1, len))
    } else {
        true
    }
}

} // verus!
