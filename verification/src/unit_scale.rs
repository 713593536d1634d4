//! Scaling a uniform draw by an integer, exactly as a double-precision
//! product does it, in integer arithmetic.
//!
//! A uniform draw is `u = b / 2^53` with `b` the top 53 bits of a 64-bit
//! word. For an integer `w < 2^53`, the product `u · w` in binary64 is
//! `round(b · w) / 2^53`, where `round` keeps 53 significant bits with ties
//! to even; truncating it to an integer is then a floor. `scaled_floor`
//! computes exactly that, and `scaled_below` compares the rounded product
//! with an integer threshold.
use vstd::prelude::*;
use crate::genesis::view_next_u64;
use crate::rng::PhiloxStream;

verus! {

/// 2^53: one past the largest 53-bit draw.
pub const UNIT_ONE: u64 = 0x20_0000_0000_0000;

pub open spec fn p2(n: nat) -> nat
    decreases n,
{
    if n == 0 {
        1
    } else {
        2 * p2((n - 1) as nat)
    }
}

/// The smallest `e >= start` with `x < 2^(53+e)` (searching up to 80).
pub open spec fn unit_exp(x: nat, e: nat) -> nat
    decreases 80 - e,
{
    if e >= 80 || x < p2(53 + e) {
        e
    } else {
        unit_exp(x, e + 1)
    }
}

/// `x` rounded to 53 significant bits, ties to even.
pub open spec fn round53(x: nat) -> nat {
    let e = unit_exp(x, 0);
    if e == 0 {
        x
    } else {
        let s = p2(e);
        let q = x / s;
        let r = x % s;
        let h = s / 2;
        if r > h || (r == h && q % 2 == 1) {
            (q + 1) * s
        } else {
            q * s
        }
    }
}

/// `floor(u · w)` for the draw `u = bits / 2^53`, computed in binary64.
pub open spec fn scaled_floor_spec(bits: nat, w: nat) -> nat {
    round53(bits * w) / p2(53)
}

/// `u · w < threshold` for the draw `u = bits / 2^53`, computed in binary64.
pub open spec fn scaled_below_spec(bits: nat, w: nat, threshold: nat) -> bool {
    round53(bits * w) < threshold * p2(53)
}

/// The 53-bit numerator of the next uniform draw, and the stream after.
pub open spec fn next_bits_spec(v: crate::rng::StreamView) -> (u64, crate::rng::StreamView) {
    let (x, s) = view_next_u64(v);
    ((x / 0x800) as u64, s)
}

proof fn lemma_p2_add(a: nat, b: nat)
    ensures
        p2(a + b) == p2(a) * p2(b),
    decreases b,
{
    if b == 0 {
        assert(a + b == a);
        assert(p2(0) == 1);
    } else {
        let bm = (b - 1) as nat;
        lemma_p2_add(a, bm);
        let x = p2(a);
        let y = p2(bm);
        assert(a + b == (a + bm) + 1);
        assert(p2(a + b) == 2 * p2(a + bm));
        assert(p2(b) == 2 * y);
        assert(x * (2 * y) == 2 * (x * y)) by (nonlinear_arith);
    }
}

pub proof fn lemma_p2_53()
    ensures
        p2(53) == UNIT_ONE,
{
    reveal_with_fuel(p2, 54);
}

proof fn lemma_p2_mono(a: nat, b: nat)
    requires
        a <= b,
    ensures
        p2(a) <= p2(b),
    decreases b,
{
    if a < b {
        lemma_p2_mono(a, (b - 1) as nat);
    }
}

proof fn lemma_p2_positive(n: nat)
    ensures
        p2(n) >= 1,
    decreases n,
{
    if n > 0 {
        lemma_p2_positive((n - 1) as nat);
    }
}

proof fn lemma_unit_exp_stops(x: nat, e: nat)
    requires
        x < p2(53 + e),
        e < 80,
    ensures
        unit_exp(x, e) == e,
{
}

/// `x` rounded to 53 significant bits, ties to even (for `x < 2^100`).
fn round53_exec(x: u128) -> (r: u128)
    requires
        x < 0x10_0000_0000_0000_0000_0000_0000,
    ensures
        r == round53(x as nat),
{
    proof {
        lemma_p2_53();
    }
    let lim: u128 = UNIT_ONE as u128;
    let mut s: u128 = 1;
    let mut bound: u128 = lim;
    let mut e: u32 = 0;
    assert(p2(46) == 0x4000_0000_0000) by {
        reveal_with_fuel(p2, 47);
    }
    while e < 47 && x >= bound
        invariant
            e <= 47,
            s == p2(e as nat),
            bound == p2(53 + e as nat),
            lim == p2(53),
            p2(53) == 0x20_0000_0000_0000,
            p2(46) == 0x4000_0000_0000,
            unit_exp(x as nat, 0) == unit_exp(x as nat, e as nat),
        decreases 47 - e,
    {
        proof {
            assert(x as nat >= p2(53 + e as nat));
            assert(unit_exp(x as nat, e as nat) == unit_exp(x as nat, e as nat + 1));
            assert(p2(e as nat + 1) == 2 * p2(e as nat));
            assert(p2(53 + e as nat + 1) == 2 * p2(53 + e as nat));
            lemma_p2_mono(e as nat, 46);
            lemma_p2_add(53, e as nat);
            assert(p2(53) * p2(e as nat) <= 0x20_0000_0000_0000 * 0x4000_0000_0000)
                by (nonlinear_arith)
                requires
                    p2(53) == 0x20_0000_0000_0000,
                    p2(e as nat) <= 0x4000_0000_0000,
            ;
        }
        s = s * 2;
        bound = bound * 2;
        e = e + 1;
    }
    proof {
        lemma_p2_add(53, e as nat);
        if e == 47 {
            lemma_p2_add(53, 47);
            assert(p2(47) == 0x8000_0000_0000) by {
                reveal_with_fuel(p2, 48);
            }
            assert(p2(53) * p2(47) == 0x10_0000_0000_0000_0000_0000_0000) by (nonlinear_arith)
                requires
                    p2(53) == 0x20_0000_0000_0000,
                    p2(47) == 0x8000_0000_0000,
            ;
        }
        assert((x as nat) < p2(53 + e as nat));
        lemma_unit_exp_stops(x as nat, e as nat);
        lemma_p2_positive(e as nat);
    }
    if e == 0 {
        return x;
    }
    let q = x / s;
    let rem = x % s;
    let h = s / 2;
    proof {
        assert(q * s <= x) by (nonlinear_arith)
            requires
                q == x / s,
                s > 0,
        ;
        assert((q + 1) * s <= x + s) by (nonlinear_arith)
            requires
                q == x / s,
                s > 0,
        ;
    }
    if rem > h || (rem == h && q % 2 == 1) {
        (q + 1) * s
    } else {
        q * s
    }
}

/// `floor(u · w)` for the draw `u = bits / 2^53`, as binary64 computes it.
pub fn scaled_floor(bits: u64, w: u64) -> (r: u64)
    requires
        bits < UNIT_ONE,
        w <= 0x10_0000_0000,
    ensures
        r == scaled_floor_spec(bits as nat, w as nat),
        r <= w,
{
    proof {
        assert(bits * w <= 0x20_0000_0000_0000 * 0x10_0000_0000) by (nonlinear_arith)
            requires
                bits < 0x20_0000_0000_0000,
                w <= 0x10_0000_0000,
        ;
        lemma_p2_53();
    }
    let x: u128 = bits as u128 * w as u128;
    let rounded = round53_exec(x);
    proof {
        if w > 0 {
            assert(bits * w < p2(53) * w) by (nonlinear_arith)
                requires
                    bits < p2(53),
                    w > 0,
            ;
            lemma_round53_le(x as nat, w as nat);
        } else {
            assert(x == 0);
            lemma_p2_positive(53);
            lemma_unit_exp_stops(0, 0);
        }
    }
    let r = rounded / (UNIT_ONE as u128);
    r as u64
}

/// `u · w < threshold` for the draw `u = bits / 2^53`, as binary64
/// computes it.
pub fn scaled_below(bits: u64, w: u64, threshold: u64) -> (b: bool)
    requires
        bits < UNIT_ONE,
        w <= 0x10_0000_0000,
        threshold <= 0x10_0000_0000,
    ensures
        b == scaled_below_spec(bits as nat, w as nat, threshold as nat),
{
    proof {
        assert(bits * w <= 0x20_0000_0000_0000 * 0x10_0000_0000) by (nonlinear_arith)
            requires
                bits < 0x20_0000_0000_0000,
                w <= 0x10_0000_0000,
        ;
        lemma_p2_53();
    }
    let x: u128 = bits as u128 * w as u128;
    let rounded = round53_exec(x);
    assert(threshold * 0x20_0000_0000_0000 <= 0x10_0000_0000 * 0x20_0000_0000_0000)
        by (nonlinear_arith)
        requires
            threshold <= 0x10_0000_0000,
    ;
    rounded < threshold as u128 * UNIT_ONE as u128
}

/// Rounding never carries the product past `2^53 · w`.
proof fn lemma_round53_le(x: nat, w: nat)
    requires
        x < p2(53) * w,
        p2(53) == UNIT_ONE,
        w <= 0x10_0000_0000,
    ensures
        round53(x) <= p2(53) * w,
{
    let e = unit_exp(x, 0);
    if e > 0 {
        let s = p2(e);
        lemma_p2_positive(e);
        let q = x / s;
        assert(q * s <= x) by (nonlinear_arith)
            requires
                q == x / s,
                s > 0,
        ;
        lemma_round_up_bounded(x, w, e);
    }
}

/// Rounding up at unit `2^e` stays at or below any multiple of `2^e` that
/// lies above `x`; `2^53 · w` is one when `x >= 2^53`.
proof fn lemma_round_up_bounded(x: nat, w: nat, e: nat)
    requires
        e == unit_exp(x, 0),
        e > 0,
        x < p2(53) * w,
        p2(53) == UNIT_ONE,
        w <= 0x10_0000_0000,
    ensures
        (x / p2(e) + 1) * p2(e) <= p2(53) * w,
{
    lemma_unit_exp_facts(x, 0);
    let s = p2(e);
    lemma_p2_positive(e);
    // 2^e divides 2^53 · w: e <= 53 because x < 2^53 · 2^36 = 2^89 forces e <= 36.
    lemma_unit_exp_small(x, w);
    lemma_p2_add(e, (53 - e) as nat);
    let k = p2((53 - e) as nat) * w;
    assert(p2(53) * w == s * k) by (nonlinear_arith)
        requires
            p2(53) == s * p2((53 - e) as nat),
            k == p2((53 - e) as nat) * w,
    ;
    let q = x / s;
    assert(q < k) by (nonlinear_arith)
        requires
            q == x / s,
            s > 0,
            x < s * k,
    ;
    assert((q + 1) * s <= k * s) by (nonlinear_arith)
        requires
            q + 1 <= k,
            s > 0,
    ;
}

proof fn lemma_unit_exp_facts(x: nat, e: nat)
    ensures
        unit_exp(x, e) >= e,
        unit_exp(x, e) <= 80 || unit_exp(x, e) == e,
    decreases 80 - e,
{
    if !(e >= 80 || x < p2(53 + e)) {
        lemma_unit_exp_facts(x, e + 1);
    }
}

/// For products below `2^53 · 2^36`, the rounding exponent is at most 36.
proof fn lemma_unit_exp_small(x: nat, w: nat)
    requires
        x < p2(53) * w,
        p2(53) == UNIT_ONE,
        w <= 0x10_0000_0000,
    ensures
        unit_exp(x, 0) <= 36,
{
    lemma_p2_add(53, 36);
    assert(p2(36) == 0x10_0000_0000) by {
        reveal_with_fuel(p2, 37);
    }
    assert(p2(53) * w <= p2(53) * p2(36)) by (nonlinear_arith)
        requires
            w <= p2(36),
            p2(53) >= 0,
    ;
    lemma_unit_exp_bound(x, 0, 36);
}

/// If `x < 2^(53+m)` then the search from any `e <= m` stops by `m`.
proof fn lemma_unit_exp_bound(x: nat, e: nat, m: nat)
    requires
        e <= m,
        m < 80,
        x < p2(53 + m),
    ensures
        unit_exp(x, e) <= m,
    decreases m - e,
{
    if !(e >= 80 || x < p2(53 + e)) {
        if e < m {
            lemma_unit_exp_bound(x, e + 1, m);
        }
    }
}

/// The 53-bit numerator of the next uniform draw.
pub fn next_unit_bits(stream: &mut PhiloxStream) -> (b: u64)
    requires
        old(stream).wf(),
    ensures
        final(stream).wf(),
        (b, final(stream)@) == next_bits_spec(old(stream)@),
        b < UNIT_ONE,
{
    let x = stream.next_u64();
    proof {
        assert(x >> 11u64 == x / 0x800) by (bit_vector);
    }
    x >> 11u64
}

} // verus!
