//! Numbers in decimal notation.

use crate::text::{digit, is_digit};
use vstd::prelude::*;

verus! {

/// The digit that stands for `d`, for `d` below ten.
pub open spec fn digit_char(d: nat) -> char {
    (d + 0x30) as u8 as char
}

/// The number that the digit `c` stands for.
pub open spec fn digit_value(c: char) -> nat {
    (c as u32 - 0x30) as nat
}

/// Whether every character of `s` is a digit.
pub open spec fn all_digits(s: Seq<char>) -> bool {
    forall|i: int| 0 <= i < s.len() ==> digit(#[trigger] s[i])
}

/// `n` in decimal notation, without leading zeros.
pub open spec fn decimal(n: nat) -> Seq<char>
    decreases n,
{
    if n < 10 {
        seq![digit_char(n)]
    } else {
        decimal(n / 10).push(digit_char(n % 10))
    }
}

/// The number that the digits `s` denote in decimal notation; leading zeros
/// count for nothing.
pub open spec fn number(s: Seq<char>) -> nat
    decreases s.len(),
{
    if s.len() == 0 {
        0
    } else {
        number(s.drop_last()) * 10 + digit_value(s.last())
    }
}

/// The number that `s` denotes, where `s` is one digit or more and the
/// number fits in 32 bits.
pub open spec fn number_u32(s: Seq<char>) -> Option<u32> {
    if s.len() > 0 && all_digits(s) && number(s) <= u32::MAX {
        Some(number(s) as u32)
    } else {
        None
    }
}

/// A longer run of digits denotes no smaller number than its beginning.
pub proof fn number_grows(s: Seq<char>, k: int)
    requires
        0 <= k <= s.len(),
    ensures
        number(s.take(k)) <= number(s),
    decreases s.len() - k,
{
    if k < s.len() {
        number_grows(s, k + 1);
        assert(s.take(k + 1).drop_last() == s.take(k));
    } else {
        assert(s.take(k) == s);
    }
}

/// A number in decimal notation is one digit or more, all of them digits,
/// and denotes the number.
pub proof fn decimal_reads_back(n: nat)
    ensures
        decimal(n).len() > 0,
        all_digits(decimal(n)),
        number(decimal(n)) == n,
    decreases n,
{
    if n < 10 {
        let d = decimal(n);
        assert(d.drop_last() =~= Seq::<char>::empty());
        assert(number(d.drop_last()) == 0);
    } else {
        decimal_reads_back(n / 10);
        let d = decimal(n);
        assert(d.drop_last() =~= decimal(n / 10));
        assert forall|i: int| 0 <= i < d.len() implies digit(#[trigger] d[i]) by {
            if i < d.len() - 1 {
                assert(d[i] == decimal(n / 10)[i]);
            }
        }
    }
}

/// `n` in decimal notation.
pub fn decimal_chars(n: u64) -> (r: Vec<char>)
    ensures
        r@ == decimal(n as nat),
    decreases n,
{
    if n < 10 {
        let d: u8 = n as u8;
        let mut r: Vec<char> = Vec::new();
        r.push((d + 0x30) as char);
        assert(r@ == seq![digit_char(n as nat)]);
        r
    } else {
        let mut r = decimal_chars(n / 10);
        let d: u8 = (n % 10) as u8;
        r.push((d + 0x30) as char);
        r
    }
}

/// The number that `s` denotes, where `s` is one digit or more and the
/// number fits in 32 bits.
pub fn parse_number(s: &Vec<char>) -> (r: Option<u32>)
    ensures
        r == number_u32(s@),
{
    if s.len() == 0 {
        return None;
    }
    let mut acc: u64 = 0;
    let mut i: usize = 0;
    while i < s.len()
        invariant
            i <= s.len(),
            acc == number(s@.take(i as int)),
            acc <= u32::MAX,
            all_digits(s@.take(i as int)),
        decreases s.len() - i,
    {
        let c = s[i];
        if !is_digit(c) {
            return None;
        }
        let d: u64 = (c as u32 - 0x30) as u64;
        assert(s@.take(i + 1).drop_last() == s@.take(i as int));
        assert(s@.take(i + 1).last() == c);
        let next: u64 = acc * 10 + d;
        assert(next == number(s@.take(i + 1)));
        if next > 0xFFFF_FFFF {
            proof {
                number_grows(s@, i + 1);
            }
            return None;
        }
        assert forall|k: int| 0 <= k < i + 1 implies digit(#[trigger] s@.take(i + 1)[k]) by {
            if k < i {
                assert(s@.take(i + 1)[k] == s@.take(i as int)[k]);
            }
        }
        acc = next;
        i += 1;
    }
    assert(s@.take(s.len() as int) == s@);
    Some(acc as u32)
}

} // verus!
