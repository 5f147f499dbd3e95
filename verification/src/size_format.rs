//! Human-readable byte sizes ("512 B", "1.5 KB", ...).
//!
//! A size is converted to a 64-bit float, divided by 1024 while it is at least
//! 1024 and a larger unit remains, and printed with one decimal (none for
//! bytes). Dividing by 1024 is exact in binary floating point, so the printed
//! number is the exact quotient rounded to one decimal, ties to even; all of it
//! is computed here with integers.
use vstd::prelude::*;

use crate::text::{decimal, push_char, push_decimal};

verus! {

/// `2^k`.
pub open spec fn pow2(k: nat) -> nat
    decreases k,
{
    if k == 0 {
        1
    } else {
        2 * pow2((k - 1) as nat)
    }
}

/// `1024^k`.
pub open spec fn pow1024(k: nat) -> nat
    decreases k,
{
    if k == 0 {
        1
    } else {
        1024 * pow1024((k - 1) as nat)
    }
}

/// Number of binary digits of `n`.
pub open spec fn bit_len(n: nat) -> nat
    decreases n,
{
    if n == 0 {
        0
    } else {
        1 + bit_len(n / 2)
    }
}

/// `n / d` rounded to the nearest integer, ties to the even one.
pub open spec fn div_round_even(n: nat, d: nat) -> nat
    recommends
        d > 0,
{
    let q = n / d;
    let r = n % d;
    if 2 * r > d || (2 * r == d && q % 2 == 1) {
        q + 1
    } else {
        q
    }
}

/// The value of `b as f64`: `b` rounded to 53 significant bits, ties to even.
pub open spec fn f64_value(b: nat) -> nat {
    if bit_len(b) <= 53 {
        b
    } else {
        let d = pow2((bit_len(b) - 53) as nat);
        div_round_even(b, d) * d
    }
}

/// How many times a value is divided by 1024, starting from `k` divisions:
/// while it is at least 1024 and fewer than five divisions were made.
pub open spec fn unit_steps(v: nat, k: nat) -> nat
    decreases 5 - k,
{
    if k < 5 && v >= pow1024(k + 1) {
        unit_steps(v, k + 1)
    } else {
        k
    }
}

/// The letter before `B` of the unit reached after `k` divisions.
pub open spec fn unit_letter(k: nat) -> char {
    if k == 1 {
        'K'
    } else if k == 2 {
        'M'
    } else if k == 3 {
        'G'
    } else if k == 4 {
        'T'
    } else {
        'P'
    }
}

/// The text for a size of `bytes`: the exact count and ` B` below 1024 bytes,
/// else the size in the largest unit (up to PB) that keeps it at least 1,
/// with one decimal.
pub open spec fn human_size(bytes: u64) -> Seq<char> {
    let v = f64_value(bytes as nat);
    let k = unit_steps(v, 0);
    if k == 0 {
        decimal(bytes as nat) + seq![' ', 'B']
    } else {
        let tenths = div_round_even(10 * v, pow1024(k));
        decimal(tenths / 10) + seq!['.'] + decimal(tenths % 10) + seq![' ', unit_letter(k), 'B']
    }
}

proof fn lemma_pow1024_values()
    ensures
        pow1024(1) == 1024,
        pow1024(2) == 1048576,
        pow1024(3) == 1073741824,
        pow1024(4) == 1099511627776,
        pow1024(5) == 1125899906842624,
{
    reveal_with_fuel(pow1024, 6);
}

proof fn lemma_pow2_64()
    ensures
        pow2(64) == 18446744073709551616,
{
    reveal_with_fuel(pow2, 65);
}

proof fn lemma_bit_len_bound(n: nat, k: nat)
    requires
        n < pow2(k),
    ensures
        bit_len(n) <= k,
    decreases k,
{
    if n > 0 {
        if k == 0 {
            assert(false);
        } else {
            lemma_bit_len_bound(n / 2, (k - 1) as nat);
        }
    }
}

/// `b as f64`, as an exact integer.
fn f64_of(b: u64) -> (v: u128)
    ensures
        v == f64_value(b as nat),
        v <= 18446744073709553664,
{
    let mut len: u64 = 0;
    let mut cur = b;
    proof {
        lemma_pow2_64();
        lemma_bit_len_bound(b as nat, 64);
    }
    while cur > 0
        invariant
            bit_len(b as nat) == len + bit_len(cur as nat),
            bit_len(b as nat) <= 64,
        decreases cur,
    {
        cur = cur / 2;
        len = len + 1;
    }
    if len <= 53 {
        return b as u128;
    }
    let shift = len - 53;
    let mut d: u64 = 1;
    let mut i: u64 = 0;
    while i < shift
        invariant
            i <= shift <= 11,
            d == pow2(i as nat),
            1 <= d <= 2048,
            i > 0 ==> d >= 2,
        decreases shift - i,
    {
        proof {
            reveal_with_fuel(pow2, 12);
            assert(pow2((i + 1) as nat) == 2 * pow2(i as nat));
        }
        d = d * 2;
        i = i + 1;
    }
    let q = b / d;
    let r = b % d;
    proof {
        assert(q < u64::MAX) by (nonlinear_arith)
            requires
                q == b / d,
                d >= 2,
        ;
    }
    let rounded: u64 = if 2 * (r as u128) > d as u128 || (2 * (r as u128) == d as u128 && q % 2
        == 1) {
        q + 1
    } else {
        q
    };
    proof {
        assert(q * d <= b) by (nonlinear_arith)
            requires
                q == b / d,
                d > 0,
        ;
    }
    assert(rounded as nat == div_round_even(b as nat, d as nat));
    proof {
        assert(rounded * d <= 18446744073709551615 * 2048) by (nonlinear_arith)
            requires
                rounded <= 18446744073709551615,
                d <= 2048,
        ;
    }
    let v = rounded as u128 * d as u128;
    proof {
        assert(v <= 18446744073709553664) by (nonlinear_arith)
            requires
                v == rounded * d,
                q * d <= b,
                b <= 18446744073709551615,
                rounded <= q + 1,
                d <= 2048,
        ;
    }
    v
}

/// Formats `bytes` as a human-readable size: "512 B", "1.5 KB", "3.0 GB", ...
pub fn format_human_readable_size(bytes: u64) -> (s: String)
    ensures
        s@ == human_size(bytes),
{
    let v = f64_of(bytes);
    let mut k: u64 = 0;
    let mut scale: u128 = 1;
    proof {
        lemma_pow1024_values();
    }
    while k < 5 && v >= scale * 1024
        invariant
            k <= 5,
            scale == pow1024(k as nat),
            scale <= 1125899906842624,
            unit_steps(v as nat, 0) == unit_steps(v as nat, k as nat),
            pow1024(1) == 1024,
            pow1024(2) == 1048576,
            pow1024(3) == 1073741824,
            pow1024(4) == 1099511627776,
            pow1024(5) == 1125899906842624,
        decreases 5 - k,
    {
        scale = scale * 1024;
        k = k + 1;
    }
    let mut s = String::new();
    if k == 0 {
        push_decimal(&mut s, bytes);
        push_char(&mut s, ' ');
        push_char(&mut s, 'B');
        assert(s@ =~= human_size(bytes));
        return s;
    }
    let n = 10 * v;
    let q = n / scale;
    let r = n % scale;
    let tenths: u128 = if 2 * r > scale || (2 * r == scale && q % 2 == 1) {
        q + 1
    } else {
        q
    };
    assert(tenths as nat == div_round_even(10 * v as nat, scale as nat));
    proof {
        assert(q <= n) by (nonlinear_arith)
            requires
                q == n / scale,
                scale >= 1,
        ;
    }
    let whole = (tenths / 10) as u64;
    let frac = (tenths % 10) as u64;
    push_decimal(&mut s, whole);
    push_char(&mut s, '.');
    push_decimal(&mut s, frac);
    push_char(&mut s, ' ');
    let letter = if k == 1 {
        'K'
    } else if k == 2 {
        'M'
    } else if k == 3 {
        'G'
    } else if k == 4 {
        'T'
    } else {
        'P'
    };
    push_char(&mut s, letter);
    push_char(&mut s, 'B');
    assert(s@ =~= human_size(bytes));
    s
}

} // verus!
