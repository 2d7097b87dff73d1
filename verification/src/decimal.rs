//! Numbers written in decimal digits.

use vstd::prelude::*;
use crate::text::tail_from;

verus! {

/// Whether a character is a decimal digit.
pub open spec fn is_digit(c: char) -> bool {
    '0' <= c <= '9'
}

/// The digit that stands for `d`.
pub open spec fn digit_char(d: int) -> char {
    ((48 + d) as u8) as char
}

/// The number that a digit stands for.
pub open spec fn digit_value(c: char) -> int {
    (c as u32) as int - 48
}

/// The decimal digits of a number, without leading zeros.
pub open spec fn decimal_of(n: nat) -> Seq<char>
    decreases n,
{
    if n < 10 {
        seq![digit_char(n as int)]
    } else {
        decimal_of(n / 10).push(digit_char((n % 10) as int))
    }
}

/// Whether a text consists of decimal digits only.
pub open spec fn all_digits(s: Seq<char>) -> bool {
    forall|i: int| 0 <= i < s.len() ==> is_digit(#[trigger] s[i])
}

/// The number that a sequence of decimal digits stands for.
pub open spec fn digits_value(s: Seq<char>) -> nat
    decreases s.len(),
{
    if s.len() == 0 {
        0
    } else {
        (digits_value(s.drop_last()) * 10 + digit_value(s.last())) as nat
    }
}

/// The digits of a text that may begin with a `+` sign.
pub open spec fn unsigned_body(s: Seq<char>) -> Seq<char> {
    if s.len() > 0 && s[0] == '+' {
        s.skip(1)
    } else {
        s
    }
}

/// The number below 256 that a text stands for: decimal digits, at least
/// one, which a `+` may precede. None for any other text.
pub open spec fn parsed_u8(s: Seq<char>) -> Option<u8> {
    let body = unsigned_body(s);
    if body.len() > 0 && all_digits(body) && digits_value(body) <= 255 {
        Some(digits_value(body) as u8)
    } else {
        None
    }
}

/// The digits of a number are digits, and stand for the number.
pub proof fn lemma_decimal_roundtrip(n: nat)
    ensures
        decimal_of(n).len() > 0,
        all_digits(decimal_of(n)),
        digits_value(decimal_of(n)) == n,
    decreases n,
{
    if n < 10 {
        let s = decimal_of(n);
        assert(s.drop_last() =~= Seq::<char>::empty());
        assert(digits_value(s.drop_last()) == 0);
    } else {
        lemma_decimal_roundtrip(n / 10);
        let s = decimal_of(n);
        assert(s.drop_last() =~= decimal_of(n / 10));
        assert(s.last() == digit_char((n % 10) as int));
        assert forall|i: int| 0 <= i < s.len() implies is_digit(#[trigger] s[i]) by {
            if i < s.len() - 1 {
                assert(s[i] == decimal_of(n / 10)[i]);
            }
        }
    }
}

/// Reading the digits of a number below 256 gives the number back.
pub proof fn lemma_parse_decimal(n: u8)
    ensures
        parsed_u8(decimal_of(n as nat)) == Some(n),
{
    lemma_decimal_roundtrip(n as nat);
    let s = decimal_of(n as nat);
    assert(is_digit(s[0]));
}

/// The value of a run of digits is not below that of any of its beginnings.
pub proof fn lemma_digits_grow(s: Seq<char>, i: int)
    requires
        all_digits(s),
        0 <= i <= s.len(),
    ensures
        digits_value(s.take(i)) <= digits_value(s),
    decreases s.len() - i,
{
    if i < s.len() {
        lemma_digits_grow(s, i + 1);
        let t = s.take(i + 1);
        assert(t.drop_last() =~= s.take(i));
        assert(is_digit(s[i]));
        assert(t.last() == s[i]);
    } else {
        assert(s.take(i) =~= s);
    }
}

/// The decimal digits of a number below 256.
pub fn format_u8(n: u8) -> (v: Vec<char>)
    ensures
        v@ == decimal_of(n as nat),
{
    let mut v: Vec<char> = Vec::new();
    if n >= 100 {
        v.push(((48 + n / 100) as u8) as char);
    }
    if n >= 10 {
        v.push(((48 + (n / 10) % 10) as u8) as char);
    }
    v.push(((48 + n % 10) as u8) as char);
    proof {
        let m = n as nat;
        if m < 10 {
            assert(v@ =~= decimal_of(m));
        } else if m < 100 {
            assert(decimal_of(m / 10) =~= seq![digit_char((m / 10) as int)]);
            assert(v@ =~= decimal_of(m));
        } else {
            assert(decimal_of(m / 100) =~= seq![digit_char((m / 100) as int)]);
            assert(decimal_of(m / 10) =~= decimal_of(m / 100).push(
                digit_char(((m / 10) % 10) as int),
            ));
            assert(v@ =~= decimal_of(m));
        }
    }
    v
}

/// The number below 256 that a text stands for.
pub fn parse_u8(s: &[char]) -> (r: Option<u8>)
    ensures
        r == parsed_u8(s@),
{
    let body = if s.len() > 0 && s[0] == '+' {
        tail_from(s, 1)
    } else {
        let all = tail_from(s, 0);
        assert(s@.skip(0) == s@);
        all
    };
    if body.len() == 0 {
        return None;
    }
    let mut acc: u32 = 0;
    let mut i: usize = 0;
    assert(body@.take(0) =~= Seq::<char>::empty());
    while i < body.len()
        invariant
            i <= body.len(),
            body@ == unsigned_body(s@),
            body@.len() > 0,
            forall|j: int| 0 <= j < i ==> is_digit(#[trigger] body@[j]),
            acc == digits_value(body@.take(i as int)),
            acc <= 255,
        decreases body.len() - i,
    {
        let c = body[i];
        if !('0' <= c && c <= '9') {
            assert(!is_digit(body@[i as int]));
            return None;
        }
        let d: u32 = (c as u32) - 48;
        let next: u32 = acc * 10 + d;
        proof {
            let t = body@.take(i + 1);
            assert(t.drop_last() =~= body@.take(i as int));
            assert(t.last() == c);
        }
        if next > 255 {
            proof {
                if all_digits(body@) {
                    lemma_digits_grow(body@, i + 1);
                }
            }
            return None;
        }
        acc = next;
        i += 1;
    }
    assert(body@.take(body.len() as int) =~= body@);
    Some(acc as u8)
}

} // verus!
