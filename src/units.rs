use vstd::prelude::*;
use crate::text::{decimal, digit, digit_char, push_char, push_decimal, push_str};

verus! {

pub const KIB: u64 = 1024;

pub const MIB: u64 = 1048576;

pub const GIB: u64 = 1073741824;

/// `n / d` in hundredths, rounded to the nearest and, on a tie, to the even
/// neighbour.
pub open spec fn hundredths(n: nat, d: nat) -> nat
    recommends
        d > 0,
{
    let q = n * 100 / d;
    let r = n * 100 % d;
    if 2 * r > d || (2 * r == d && q % 2 == 1) {
        q + 1
    } else {
        q
    }
}

/// A count of hundredths written with two decimals, `1234` as `12.34`.
pub open spec fn fixed2(h: nat) -> Seq<char> {
    decimal(h / 100) + seq!['.', digit_char(h % 100 / 10), digit_char(h % 10)]
}

/// A byte count for display: plain bytes below a kilobyte, and otherwise
/// kilobytes, megabytes or gigabytes (of 1024 each) with two decimals.
pub open spec fn bytes_text(b: nat) -> Seq<char> {
    if b < KIB {
        decimal(b) + seq![' ', 'b']
    } else if b < MIB {
        fixed2(hundredths(b, KIB as nat)) + seq![' ', 'k', 'b']
    } else if b < GIB {
        fixed2(hundredths(b, MIB as nat)) + seq![' ', 'm', 'b']
    } else {
        fixed2(hundredths(b, GIB as nat)) + seq![' ', 'g', 'b']
    }
}

fn rounded_hundredths(n: u64, d: u64) -> (h: u64)
    requires
        KIB <= d <= GIB,
    ensures
        h as nat == hundredths(n as nat, d as nat),
{
    let big: u128 = (n as u128) * 100;
    let q: u128 = big / (d as u128);
    let r: u128 = big % (d as u128);
    assert(q <= big) by (nonlinear_arith)
        requires
            q == big / (d as u128),
            d > 0,
    ;
    assert(q < 0xffff_ffff_ffff_ffff) by (nonlinear_arith)
        requires
            q == big / (d as u128),
            d >= 1024,
            big == n * 100,
            n <= 0xffff_ffff_ffff_ffff,
    ;
    if 2 * r > d as u128 || (2 * r == d as u128 && q % 2 == 1) {
        (q + 1) as u64
    } else {
        q as u64
    }
}

fn push_fixed2(s: &mut String, h: u64)
    ensures
        final(s)@ == old(s)@ + fixed2(h as nat),
{
    push_decimal(s, h / 100);
    push_char(s, '.');
    push_char(s, digit(h % 100 / 10));
    push_char(s, digit(h % 10));
    assert(final(s)@ =~= old(s)@ + fixed2(h as nat));
}

/// Writes a byte count with the unit that keeps it below 1024, as
/// `bytes_text` states.
pub fn bytes_to_str(bytes: u64) -> (r: String)
    ensures
        r@ == bytes_text(bytes as nat),
{
    let mut s = String::new();
    if bytes < KIB {
        push_decimal(&mut s, bytes);
        push_str(&mut s, " b");
        proof {
            reveal_strlit(" b");
        }
    } else if bytes < MIB {
        push_fixed2(&mut s, rounded_hundredths(bytes, KIB));
        push_str(&mut s, " kb");
        proof {
            reveal_strlit(" kb");
        }
    } else if bytes < GIB {
        push_fixed2(&mut s, rounded_hundredths(bytes, MIB));
        push_str(&mut s, " mb");
        proof {
            reveal_strlit(" mb");
        }
    } else {
        push_fixed2(&mut s, rounded_hundredths(bytes, GIB));
        push_str(&mut s, " gb");
        proof {
            reveal_strlit(" gb");
        }
    }
    assert(s@ =~= bytes_text(bytes as nat));
    s
}

/// Writes a percentage held in hundredths with two decimals, `1234` as
/// `12.34`.
pub fn percent_to_str(hundredths: u32) -> (r: String)
    ensures
        r@ == fixed2(hundredths as nat),
{
    let mut s = String::new();
    push_fixed2(&mut s, hundredths as u64);
    s
}

} // verus!
