use vstd::prelude::*;
use vstd::string::StringExecFns;

use crate::digest::{hex_encode, hex_of};

verus! {

/// The decimal digit character for a value below 10.
pub open spec fn digit_char(d: nat) -> char {
    (48 + d) as char
}

/// The decimal representation of `n`, without leading zeros.
pub open spec fn decimal_of(n: nat) -> Seq<char>
    decreases n,
{
    if n < 10 {
        seq![digit_char(n)]
    } else {
        decimal_of(n / 10) + seq![digit_char(n % 10)]
    }
}

/// A 32-byte hash as `0x` followed by 64 lower-case hex digits.
pub open spec fn hash_text(h: Seq<u8>) -> Seq<char> {
    seq!['0', 'x'] + hex_of(h)
}

fn digit_str(d: u64) -> (r: &'static str)
    requires
        d < 10,
    ensures
        r@ == seq![digit_char(d as nat)],
{
    proof {
        reveal_strlit("0");
        reveal_strlit("1");
        reveal_strlit("2");
        reveal_strlit("3");
        reveal_strlit("4");
        reveal_strlit("5");
        reveal_strlit("6");
        reveal_strlit("7");
        reveal_strlit("8");
        reveal_strlit("9");
    }
    match d {
        0 => "0",
        1 => "1",
        2 => "2",
        3 => "3",
        4 => "4",
        5 => "5",
        6 => "6",
        7 => "7",
        8 => "8",
        _ => "9",
    }
}

/// Appends the decimal representation of `n` to `s`.
pub fn push_decimal(s: &mut String, n: u64)
    ensures
        final(s)@ == old(s)@ + decimal_of(n as nat),
    decreases n,
{
    if n >= 10 {
        push_decimal(s, n / 10);
    }
    s.append(digit_str(n % 10));
    proof {
        assert(n < 10 ==> decimal_of(n as nat) == seq![digit_char(n as nat)]);
    }
    assert(s@ =~= old(s)@ + decimal_of(n as nat));
}

/// The decimal representation of `n`.
pub fn decimal(n: u64) -> (r: String)
    ensures
        r@ == decimal_of(n as nat),
{
    let mut s = String::new();
    push_decimal(&mut s, n);
    assert(s@ =~= decimal_of(n as nat));
    s
}

/// Appends `0x` and the hex digits of `h` to `s`.
pub fn push_hash(s: &mut String, h: &[u8; 32])
    ensures
        final(s)@ == old(s)@ + hash_text(h@),
{
    proof { reveal_strlit("0x"); }
    s.append("0x");
    let hx = hex_encode(h.as_slice());
    s.append(hx.as_str());
    assert(s@ =~= old(s)@ + hash_text(h@));
}

} // verus!
