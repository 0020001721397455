//! Unsigned decimal numbers as text: reading them and writing them.

use crate::text::free_of;
use vstd::prelude::*;
use vstd::std_specs::iter::IteratorSpec;

verus! {

/// Whether `c` is one of the ten decimal digits.
pub open spec fn is_digit(c: char) -> bool {
    '0' <= c && c <= '9'
}

/// What the digit `c` counts for.
pub open spec fn digit_value(c: char) -> nat {
    (c as u32 - '0' as u32) as nat
}

/// Whether `s` holds decimal digits and nothing else.
pub open spec fn all_digits(s: Seq<char>) -> bool {
    forall|i: int| 0 <= i < s.len() ==> is_digit(#[trigger] s[i])
}

/// The number that the digits `s` write, the most significant first.
pub open spec fn value(s: Seq<char>) -> nat
    decreases s.len(),
{
    if s.len() == 0 {
        0
    } else {
        10 * value(s.drop_last()) + digit_value(s.last())
    }
}

/// `s` without its plus sign, where it starts with one.
pub open spec fn unsigned(s: Seq<char>) -> Seq<char> {
    if s.len() > 0 && s[0] == '+' {
        s.skip(1)
    } else {
        s
    }
}

/// The number that `s` writes: one or more decimal digits, which a single
/// plus sign may precede. Anything else is no number.
pub open spec fn number(s: Seq<char>) -> Option<nat> {
    let d = unsigned(s);
    if d.len() > 0 && all_digits(d) {
        Some(value(d))
    } else {
        None
    }
}

/// The number that `s` writes, where it fits into a machine word.
pub open spec fn small_number(s: Seq<char>) -> Option<usize> {
    match number(s) {
        Some(n) => if n <= usize::MAX {
            Some(n as usize)
        } else {
            None
        },
        None => None,
    }
}

/// A run of digits is worth at least what any of its prefixes is worth.
pub proof fn lemma_value_prefix(s: Seq<char>, k: int)
    requires
        0 <= k <= s.len(),
    ensures
        value(s.take(k)) <= value(s),
    decreases s.len(),
{
    if k == s.len() {
        assert(s.take(k) =~= s);
    } else {
        lemma_value_prefix(s.drop_last(), k);
        assert(s.drop_last().take(k) =~= s.take(k));
    }
}

/// One more digit multiplies what stood before by ten and adds itself.
pub proof fn lemma_value_step(s: Seq<char>, k: int)
    requires
        0 <= k < s.len(),
    ensures
        value(s.take(k + 1)) == 10 * value(s.take(k)) + digit_value(s[k]),
{
    assert(s.take(k + 1).drop_last() =~= s.take(k));
}

/// Reads an unsigned decimal number that fits into a machine word.
pub fn parse_usize(s: &str) -> (r: Option<usize>)
    ensures
        r == small_number(s@),
{
    let mut rest = s.chars();
    let len = s.unicode_len();
    let mut at: usize = 0;
    let mut start: usize = 0;
    let mut sum: usize = 0;
    let ghost d = unsigned(s@);
    loop
        invariant
            at <= len == s@.len(),
            rest.remaining() == s@.skip(at as int),
            d == unsigned(s@),
            start <= at,
            at == 0 ==> start == 0,
            at > 0 ==> start == s@.len() - d.len(),
            all_digits(d.take(at - start)),
            sum == value(d.take(at - start)),
        decreases len - at,
    {
        match rest.next() {
            None => {
                assert(d.take(at - start) =~= d);
                if at == start {
                    return None;
                }
                return Some(sum);
            },
            Some(found) => {
                assert(found == s@[at as int]);
                if at == 0 && found == '+' {
                    start = 1;
                } else if '0' <= found && found <= '9' {
                    let digit = (found as u32 - '0' as u32) as usize;
                    proof {
                        lemma_value_step(d, at - start);
                        lemma_value_prefix(d, at - start + 1);
                    }
                    let next = match sum.checked_mul(10) {
                        Some(tens) => tens.checked_add(digit),
                        None => None,
                    };
                    match next {
                        Some(n) => {
                            sum = n;
                        },
                        None => {
                            return None;
                        },
                    }
                } else {
                    assert(!is_digit(d[at - start]));
                    return None;
                }
                at = at + 1;
            },
        }
    }
}

/// The digit that writes `d`, for `d` below ten.
pub open spec fn digit_char(d: nat) -> char {
    seq!['0', '1', '2', '3', '4', '5', '6', '7', '8', '9'][d as int]
}

/// `n` written in decimal digits, without sign or leading zeros.
pub open spec fn digits(n: nat) -> Seq<char>
    decreases n,
{
    if n < 10 {
        seq![digit_char(n)]
    } else {
        digits(n / 10).push(digit_char(n % 10))
    }
}

/// `n` written in decimal, with a minus sign before it where it is negative.
pub open spec fn decimal(n: int) -> Seq<char> {
    if n < 0 {
        seq!['-'] + digits((-n) as nat)
    } else {
        digits(n as nat)
    }
}

/// Reading what `digits` wrote gives the number back.
pub proof fn lemma_digits_read_back(n: nat)
    ensures
        number(digits(n)) == Some(n),
        digits(n).len() > 0,
        all_digits(digits(n)),
    decreases n,
{
    let s = digits(n);
    if n < 10 {
        assert(s.drop_last() =~= Seq::<char>::empty());
        assert(value(s.drop_last()) == 0);
    } else {
        let t = digits(n / 10);
        lemma_digits_read_back(n / 10);
        assert(s.drop_last() =~= t);
        assert(s[0] == t[0]);
        assert(is_digit(t[0]));
        assert(unsigned(t) == t);
        assert forall|i: int| 0 <= i < s.len() implies is_digit(#[trigger] s[i]) by {
            if i < t.len() {
                assert(s[i] == t[i]);
            }
        }
    }
    assert(is_digit(s[0]));
}

/// A written number holds no character that is no digit.
pub proof fn lemma_digits_free_of(n: nat, c: char)
    requires
        !is_digit(c),
    ensures
        free_of(digits(n), c),
        digits(n).len() > 0,
        is_digit(digits(n)[0]),
        small_number(digits(n)) == if n <= usize::MAX {
            Some(n as usize)
        } else {
            None
        },
{
    lemma_digits_read_back(n);
    assert(is_digit(digits(n)[0]));
}

/// The text of one digit.
fn digit_text(d: u128) -> (r: &'static str)
    requires
        d < 10,
    ensures
        r@ == seq![digit_char(d as nat)],
{
    proof {
        reveal_strlit("0");
        reveal_strlit("1");
        reveal_strlit("2");
        reveal_strlit("3");
        reveal_strlit("4");
        reveal_strlit("5");
        reveal_strlit("6");
        reveal_strlit("7");
        reveal_strlit("8");
        reveal_strlit("9");
    }
    let r = if d == 0 {
        "0"
    } else if d == 1 {
        "1"
    } else if d == 2 {
        "2"
    } else if d == 3 {
        "3"
    } else if d == 4 {
        "4"
    } else if d == 5 {
        "5"
    } else if d == 6 {
        "6"
    } else if d == 7 {
        "7"
    } else if d == 8 {
        "8"
    } else {
        "9"
    };
    assert(r@ =~= seq![digit_char(d as nat)]);
    r
}

/// Appends `n` in decimal digits to `out`.
pub fn push_digits(out: &mut String, n: u128)
    ensures
        final(out)@ == old(out)@ + digits(n as nat),
    decreases n,
{
    if n >= 10 {
        push_digits(out, n / 10);
    }
    out.append(digit_text(n % 10));
}

/// Appends `n` in decimal to `out`, with a minus sign where it is negative.
pub fn push_decimal(out: &mut String, n: i128)
    ensures
        final(out)@ == old(out)@ + decimal(n as int),
{
    if n < 0 {
        proof {
            reveal_strlit("-");
        }
        out.append("-");
        let size = (-(n + 1)) as u128 + 1;
        push_digits(out, size);
    } else {
        push_digits(out, n as u128);
    }
}

} // verus!
