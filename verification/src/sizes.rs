//! Byte counts shown with one or no decimal in a binary unit.
//!
//! The figures are those of `format!("{:.1}", bytes as f64 / 1024.0)` and
//! its kin, computed in integers: the count is first rounded to the nearest
//! `f64` (ties to even, 53 significant bits), divided by a power of two
//! (exact in `f64`), and the exact quotient is rounded to the requested
//! number of decimals, ties to even, as Rust's float formatting does.

use vstd::prelude::*;
use crate::text::{decimal, digit, digit_char, push_decimal};

verus! {

/// Two to the power `e`.
pub open spec fn pow2n(e: nat) -> nat
    decreases e,
{
    if e == 0 {
        1
    } else {
        2 * pow2n((e - 1) as nat)
    }
}

/// Ten to the power `e`.
pub open spec fn pow10n(e: nat) -> nat
    decreases e,
{
    if e == 0 {
        1
    } else {
        10 * pow10n((e - 1) as nat)
    }
}

/// The number of low bits dropped when `b` becomes an `f64`, searched from `e`.
pub open spec fn excess_from(b: nat, e: nat) -> nat
    decreases 11 - e,
{
    if e >= 11 || b < pow2n(53 + e) {
        e
    } else {
        excess_from(b, e + 1)
    }
}

/// `x / m` rounded to the nearest integer, ties to the even one.
pub open spec fn round_half_even(x: nat, m: nat) -> nat
    recommends
        m > 0,
{
    let q = x / m;
    let r = x % m;
    if 2 * r > m || (2 * r == m && q % 2 == 1) {
        q + 1
    } else {
        q
    }
}

/// The value of `b as f64` for a `u64` `b`: `b` rounded to 53 significant
/// bits, ties to even.
pub open spec fn f64_of(b: nat) -> nat {
    if b < pow2n(53) {
        b
    } else {
        let e = excess_from(b, 1);
        round_half_even(b, pow2n(e)) * pow2n(e)
    }
}

/// The text of `b as f64 / 2^shift` formatted with `decimals` (0 or 1) decimals.
pub open spec fn scaled_text(b: nat, shift: nat, decimals: nat) -> Seq<char> {
    let n = round_half_even(f64_of(b) * pow10n(decimals), pow2n(shift));
    if decimals == 0 {
        decimal(n)
    } else {
        decimal(n / 10) + seq!['.'] + seq![digit_char((n % 10) as int)]
    }
}

proof fn lemma_pow2n_pos(e: nat)
    ensures
        pow2n(e) >= 1,
        e >= 1 ==> pow2n(e) >= 2,
    decreases e,
{
    if e > 0 {
        lemma_pow2n_pos((e - 1) as nat);
    }
}

proof fn lemma_pow2n_mono(a: nat, b: nat)
    requires
        a <= b,
    ensures
        pow2n(a) <= pow2n(b),
    decreases b,
{
    if a < b {
        lemma_pow2n_mono(a, (b - 1) as nat);
        lemma_pow2n_pos((b - 1) as nat);
    }
}

proof fn lemma_pow2n_add(a: nat, b: nat)
    ensures
        pow2n(a + b) == pow2n(a) * pow2n(b),
    decreases b,
{
    if b > 0 {
        let b1 = (b - 1) as nat;
        lemma_pow2n_add(a, b1);
        assert(pow2n(a + b) == 2 * pow2n(a + b1));
        let x = pow2n(a);
        let y = pow2n(b1);
        assert(pow2n(b) == 2 * y);
        let z = pow2n(b);
        let w = pow2n(a + b);
        assert(w == x * z) by (nonlinear_arith)
            requires
                w == 2 * (x * y),
                z == 2 * y,
        ;
    } else {
        let x = pow2n(a);
        let z = pow2n(b);
        assert(z == 1);
        assert(pow2n(a + b) == x);
        assert(x == x * z) by (nonlinear_arith)
            requires
                z == 1,
        ;
    }
}

proof fn lemma_pow2n_10()
    ensures
        pow2n(10) == 1024,
{
    reveal_with_fuel(pow2n, 11);
}

proof fn lemma_pow2n_64()
    ensures
        pow2n(64) == 0x1_0000_0000_0000_0000,
{
    reveal_with_fuel(pow2n, 65);
}

/// Computes `2^e` for small `e`.
fn pow2_u128(e: u32) -> (p: u128)
    requires
        e <= 64,
    ensures
        p == pow2n(e as nat),
{
    let mut p: u128 = 1;
    let mut i: u32 = 0;
    while i < e
        invariant
            i <= e <= 64,
            p == pow2n(i as nat),
        decreases e - i,
    {
        proof {
            lemma_pow2n_mono((i + 1) as nat, 64);
            lemma_pow2n_64();
        }
        p = p * 2;
        i = i + 1;
    }
    p
}

/// `x / m` rounded to the nearest integer, ties to even.
fn round_half_even_u128(x: u128, m: u128) -> (r: u128)
    requires
        0 < m <= 0x1_0000_0000_0000_0000,
        x < 0x1_0000_0000_0000_0000_0000_0000_0000,
    ensures
        r == round_half_even(x as nat, m as nat),
        r <= x / m + 1,
{
    let q = x / m;
    let rem = x % m;
    if 2 * rem > m || (2 * rem == m && q % 2 == 1) {
        q + 1
    } else {
        q
    }
}

/// The value of `b as f64`, as an integer.
pub fn f64_value(b: u64) -> (v: u128)
    ensures
        v == f64_of(b as nat),
        v <= 0x1_0000_0000_0000_0000,
{
    let p53 = pow2_u128(53);
    if (b as u128) < p53 {
        return b as u128;
    }
    let mut e: u32 = 1;
    let mut p = pow2_u128(1);
    while e < 11 && (b as u128) >= pow2_u128(53 + e)
        invariant
            1 <= e <= 11,
            p == pow2n(e as nat),
            excess_from(b as nat, e as nat) == excess_from(b as nat, 1),
        decreases 11 - e,
    {
        proof {
            lemma_pow2n_mono(e as nat, 10);
            lemma_pow2n_10();
        }
        e = e + 1;
        p = p * 2;
    }
    assert(excess_from(b as nat, e as nat) == e);
    proof {
        lemma_pow2n_pos(e as nat);
        lemma_pow2n_mono(e as nat, 11);
        reveal_with_fuel(pow2n, 12);
    }
    let q = round_half_even_u128(b as u128, p);
    proof {
        lemma_pow2n_64();
        lemma_pow2n_add(53, e as nat);
        lemma_pow2n_pos(e as nat);
        if e < 11 {
            assert((b as nat) < pow2n(53 + e as nat));
        } else {
            assert(pow2n(53 + 11) == pow2n(64));
            assert((b as nat) < pow2n(64));
        }
        // the rounded quotient times the divisor stays within 2^64
        let pe = pow2n(e as nat);
        let b53 = pow2n(53);
        assert((b as nat) < b53 * pe);
        assert((b as nat) / pe < b53) by (nonlinear_arith)
            requires
                (b as nat) < b53 * pe,
                pe > 0,
        ;
        assert(q <= b53);
        assert(q * pe <= b53 * pe) by (nonlinear_arith)
            requires
                q <= b53,
        ;
        assert(b53 * pe == pow2n(53 + e as nat));
        lemma_pow2n_mono(53 + e as nat, 64);
    }
    q * p
}

/// Appends the text of `b as f64 / 2^shift` with `decimals` decimals, as
/// `format!("{:.1}", ..)` (one decimal) or `format!("{:.0}", ..)` (none) gives it.
pub fn push_scaled(out: &mut Vec<char>, b: u64, shift: u32, decimals: u32)
    requires
        10 <= shift <= 40,
        decimals <= 1,
    ensures
        final(out)@ == old(out)@ + scaled_text(b as nat, shift as nat, decimals as nat),
{
    let v = f64_value(b);
    let scale: u128 = if decimals == 0 {
        1
    } else {
        10
    };
    assert(scale == pow10n(decimals as nat)) by {
        reveal_with_fuel(pow10n, 2);
    }
    let m = pow2_u128(shift);
    proof {
        lemma_pow2n_mono(shift as nat, 64);
        lemma_pow2n_64();
        lemma_pow2n_mono(10, shift as nat);
        lemma_pow2n_10();
    }
    let n = round_half_even_u128(v * scale, m);
    proof {
        let x: int = v as int * scale as int;
        let mi: int = m as int;
        assert(x <= 0xA_0000_0000_0000_0000);
        assert(x / mi <= x / 1024) by (nonlinear_arith)
            requires
                mi >= 1024,
                x >= 0,
        ;
        assert(n <= x / mi + 1);
    }
    let n64 = n as u64;
    if decimals == 0 {
        push_decimal(out, n64);
    } else {
        push_decimal(out, n64 / 10);
        out.push('.');
        out.push(digit(n64 % 10));
    }
    assert(final(out)@ =~= old(out)@ + scaled_text(b as nat, shift as nat, decimals as nat));
}

} // verus!
