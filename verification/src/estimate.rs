//! The cardinality estimate of a sketch, in fixed-point arithmetic.
//!
//! With m registers, c of them zero and s of them at the greatest rank 51, the estimate is
//! m * m / (2 * ln 2 * z) for z = m * sigma(c / m) + m * tau(1 - s / m) / 2^50 + the sum of 2^-r
//! over the other registers r, where
//! sigma(x) = x + the sum of 2^(k - 1) * x^(2^k) over k = 1, 2, 3, ... and
//! tau(x) = (1 - x - the sum of 2^-k * (1 - x^(2^-k))^2 over k = 1, 2, 3, ...) / 3
//! (O. Ertl, "New cardinality estimation algorithms for HyperLogLog sketches"). Fractions are
//! held as multiples of 2^-62. The series are cut after [`SIGMA_TERMS`] and [`TAU_TERMS`] terms:
//! at that resolution later terms of sigma are zero unless all registers are zero, and then the
//! estimate is zero either way; later terms of tau are zero unless all registers are at the
//! greatest rank, and then tau is zero by definition.

use vstd::prelude::*;
use crate::registers::NUM_REGISTERS;

verus! {

/// The fixed-point number one.
pub const ONE: u128 = 0x4000_0000_0000_0000;

/// The fixed-point number 1 / 16384, the share of one register.
pub const SHARE: u128 = 0x1_0000_0000_0000;

/// Number of terms of the series for sigma that are summed.
pub const SIGMA_TERMS: u32 = 32;

/// Number of terms of the series for tau that are summed.
pub const TAU_TERMS: u32 = 24;

/// Greatest rank that counts by its own weight.
pub const LAST_WEIGHED_RANK: u8 = 50;

/// 2^36, the divisor that turns tau into the weight of the registers at the greatest rank: 2^50
/// over the number of registers.
pub const TAU_DIVISOR: u128 = 0x10_0000_0000;

/// m * m / (2 * ln 2) for 16384 registers, as a fixed-point number.
pub const SCALED_ALPHA: u128 = 0x2e2_a8ec_a570_5fc2_eefa_1ffb;

/// The square of a fixed-point fraction, rounded down.
pub open spec fn square(x: nat) -> nat {
    x * x / ONE as nat
}

/// The fixed-point fraction x^(2^k), rounded down after each squaring.
pub open spec fn squared_times(x: nat, k: nat) -> nat
    decreases k,
{
    if k == 0 { x } else { square(squared_times(x, (k - 1) as nat)) }
}

/// The first `terms` terms of the series for sigma.
pub open spec fn sigma(x: nat, terms: nat) -> nat
    decreases terms,
{
    if terms == 0 {
        x
    } else {
        sigma(x, (terms - 1) as nat) + squared_times(x, terms)
            * vstd::arithmetic::power2::pow2((terms - 1) as nat)
    }
}

/// A number is the square root of another, rounded down.
pub open spec fn is_root(r: nat, n: nat) -> bool {
    r * r <= n < (r + 1) * (r + 1)
}

/// The square root of a number, rounded down.
pub open spec fn root_of(n: nat) -> nat {
    choose|r: nat| is_root(r, n)
}

/// The square root of a fixed-point fraction, rounded down.
pub open spec fn root(x: nat) -> nat {
    root_of(x * ONE as nat)
}

/// The fixed-point fraction x^(2^-k), rounded down after each root.
pub open spec fn rooted_times(x: nat, k: nat) -> nat
    decreases k,
{
    if k == 0 { x } else { root(rooted_times(x, (k - 1) as nat)) }
}

/// Term k of the series for tau, rounded down.
pub open spec fn tau_term(x: nat, k: nat) -> nat {
    square((ONE - rooted_times(x, k)) as nat) / vstd::arithmetic::power2::pow2(k)
}

/// The sum of the first `terms` terms of the series for tau.
pub open spec fn tau_sum(x: nat, terms: nat) -> nat
    decreases terms,
{
    if terms == 0 { 0 } else { tau_sum(x, (terms - 1) as nat) + tau_term(x, terms) }
}

/// The fixed-point number tau(x). Where rounding makes the sum exceed 1 - x it is zero.
pub open spec fn tau(x: nat) -> nat {
    let total = x + tau_sum(x, TAU_TERMS as nat);
    if x == 0 || total >= ONE { 0 } else { ((ONE - total) / 3) as nat }
}

/// The fixed-point number 2^-r for a register r that counts by its own weight.
pub open spec fn weight(r: u8) -> nat {
    if r == 0 || r > LAST_WEIGHED_RANK {
        0
    } else {
        vstd::arithmetic::power2::pow2((62 - r) as nat)
    }
}

/// The sum of 2^-r over the registers r that count by their own weight.
pub open spec fn harmonic_sum(registers: Seq<u8>) -> nat
    decreases registers.len(),
{
    if registers.len() == 0 {
        0
    } else {
        harmonic_sum(registers.drop_last()) + weight(registers.last())
    }
}

/// The number of registers that were never offered a rank.
pub open spec fn zeros(registers: Seq<u8>) -> nat
    decreases registers.len(),
{
    if registers.len() == 0 {
        0
    } else {
        zeros(registers.drop_last()) + (if registers.last() == 0 { 1nat } else { 0nat })
    }
}

/// The number of registers at the greatest rank.
pub open spec fn saturated(registers: Seq<u8>) -> nat
    decreases registers.len(),
{
    if registers.len() == 0 {
        0
    } else {
        saturated(registers.drop_last()) + (if registers.last() > LAST_WEIGHED_RANK {
            1nat
        } else {
            0nat
        })
    }
}

/// The corrected indicator z of a sketch.
pub open spec fn indicator(registers: Seq<u8>) -> nat {
    harmonic_sum(registers) + NUM_REGISTERS as nat * sigma(
        zeros(registers) * SHARE as nat,
        SIGMA_TERMS as nat,
    ) + tau(((NUM_REGISTERS - saturated(registers)) * SHARE) as nat) / TAU_DIVISOR as nat
}

/// The estimate of a sketch, rounded to the nearest integer with halves up, and cut off at
/// the greatest 64-bit number.
pub open spec fn estimate(registers: Seq<u8>) -> u64 {
    let z = indicator(registers);
    if z == 0 {
        u64::MAX
    } else {
        let n = (2 * SCALED_ALPHA + z) as nat / (2 * z);
        if n > u64::MAX { u64::MAX } else { n as u64 }
    }
}

proof fn lemma_square_bound(x: nat)
    requires
        x <= ONE,
    ensures
        square(x) <= ONE,
        x * x <= ONE * ONE,
{
    assert(x * x <= ONE * ONE) by (nonlinear_arith)
        requires
            x <= ONE,
    ;
}

proof fn lemma_squared_times_bound(x: nat, k: nat)
    requires
        x <= ONE,
    ensures
        squared_times(x, k) <= ONE,
    decreases k,
{
    if k > 0 {
        lemma_squared_times_bound(x, (k - 1) as nat);
        lemma_square_bound(squared_times(x, (k - 1) as nat));
    }
}

/// The sum of the series doubles at most with each term.
pub proof fn lemma_sigma_bound(x: nat, terms: nat)
    requires
        x <= ONE,
    ensures
        sigma(x, terms) <= ONE * vstd::arithmetic::power2::pow2(terms),
    decreases terms,
{
    vstd::arithmetic::power2::lemma2_to64();
    if terms > 0 {
        let p = vstd::arithmetic::power2::pow2((terms - 1) as nat);
        let q = squared_times(x, terms);
        lemma_sigma_bound(x, (terms - 1) as nat);
        lemma_squared_times_bound(x, terms);
        vstd::arithmetic::power2::lemma_pow2_unfold(terms);
        assert(q * p <= ONE * p) by (nonlinear_arith)
            requires
                q <= ONE,
        ;
        assert(ONE * (2 * p) == ONE * p + ONE * p) by (nonlinear_arith);
    }
}

/// A weight is a fraction, and a power of two.
pub proof fn lemma_weight_bound(r: u8)
    ensures
        weight(r) <= ONE,
        0 < r <= LAST_WEIGHED_RANK ==> weight(r) == 1u64 << (62 - r) as u64,
{
    vstd::arithmetic::power2::lemma2_to64();
    vstd::arithmetic::power2::lemma2_to64_rest();
    if 0 < r <= LAST_WEIGHED_RANK {
        let k: u64 = (62 - r) as u64;
        if k < 62 {
            vstd::arithmetic::power2::lemma_pow2_strictly_increases(k as nat, 62);
        }
        vstd::bits::lemma_u64_shl_is_mul(1, k);
    }
}

/// A number has one square root.
pub proof fn lemma_one_root(a: nat, b: nat, n: nat)
    requires
        is_root(a, n),
        is_root(b, n),
    ensures
        a == b,
{
    if a < b {
        assert((a + 1) * (a + 1) <= b * b) by (nonlinear_arith)
            requires
                a < b,
        ;
    } else if b < a {
        assert((b + 1) * (b + 1) <= a * a) by (nonlinear_arith)
            requires
                b < a,
        ;
    }
}

/// Every number has a square root.
proof fn lemma_has_root(n: nat) -> (r: nat)
    ensures
        is_root(r, n),
    decreases n,
{
    if n == 0 {
        assert(is_root(0, 0)) by (nonlinear_arith);
        0
    } else {
        let r = lemma_has_root((n - 1) as nat);
        if n < (r + 1) * (r + 1) {
            r
        } else {
            assert(is_root(r + 1, n)) by (nonlinear_arith)
                requires
                    n == (r + 1) * (r + 1),
            ;
            r + 1
        }
    }
}

/// The root of a fraction is a root, and a fraction.
pub proof fn lemma_root(x: nat)
    ensures
        is_root(root(x), x * ONE as nat),
        x <= ONE ==> root(x) <= ONE,
{
    let n = x * ONE as nat;
    let witness = lemma_has_root(n);
    assert(is_root(witness, n));
    let r = root(x);
    if x <= ONE && r > ONE {
        assert(r * r > ONE * ONE) by (nonlinear_arith)
            requires
                r > ONE,
        ;
        assert(n <= ONE * ONE) by (nonlinear_arith)
            requires
                n == x * ONE as nat,
                x <= ONE,
        ;
    }
}

/// The square root of a fixed-point fraction.
fn compute_root(x: u128) -> (r: u128)
    requires
        x <= ONE,
    ensures
        r == root(x as nat),
        r <= ONE,
{
    proof {
        lemma_root(x as nat);
        assert(x * ONE <= ONE * ONE) by (nonlinear_arith)
            requires
                x <= ONE,
        ;
    }
    let n: u128 = x * ONE;
    let mut low: u128 = 0;
    let mut high: u128 = ONE + 1;
    while low + 1 < high
        invariant
            low < high <= ONE + 1,
            low * low <= n < high * high,
        decreases high - low,
    {
        let middle: u128 = low + (high - low) / 2;
        proof {
            assert(middle * middle <= ONE * ONE) by (nonlinear_arith)
                requires
                    0 <= middle <= ONE,
            ;
        }
        if middle * middle <= n {
            low = middle;
        } else {
            high = middle;
        }
    }
    proof {
        lemma_one_root(low as nat, root(x as nat), n as nat);
    }
    low
}

/// The fixed-point number tau(x).
fn compute_tau(x: u128) -> (r: u128)
    requires
        x <= ONE,
    ensures
        r == tau(x as nat),
        r <= ONE,
{
    if x == 0 {
        return 0;
    }
    let mut total: u128 = x;
    let mut power: u128 = x;
    let mut divisor: u128 = 1;
    let mut k: u32 = 0;
    proof {
        vstd::arithmetic::power2::lemma2_to64();
    }
    while k < TAU_TERMS
        invariant
            x <= ONE,
            k <= TAU_TERMS,
            power == rooted_times(x as nat, k as nat),
            power <= ONE,
            divisor == vstd::arithmetic::power2::pow2(k as nat),
            0 < divisor <= 0x1_0000_0000,
            total == x + tau_sum(x as nat, k as nat),
            total <= ONE * (k + 1),
        decreases TAU_TERMS - k,
    {
        power = compute_root(power);
        proof {
            vstd::arithmetic::power2::lemma_pow2_unfold((k + 1) as nat);
            vstd::arithmetic::power2::lemma2_to64();
            vstd::arithmetic::power2::lemma_pow2_strictly_increases((k + 1) as nat, 32);
        }
        divisor = divisor * 2;
        let part: u128 = compute_square(ONE - power);
        proof {
            vstd::arithmetic::div_mod::lemma_div_is_ordered_by_denominator(
                part as int,
                1,
                divisor as int,
            );
        }
        total = total + part / divisor;
        k = k + 1;
    }
    if total >= ONE {
        0
    } else {
        (ONE - total) / 3
    }
}

/// The square of a fixed-point fraction.
fn compute_square(x: u128) -> (r: u128)
    requires
        x <= ONE,
    ensures
        r == square(x as nat),
        r <= ONE,
{
    proof {
        lemma_square_bound(x as nat);
    }
    x * x / ONE
}

/// The sum of the series for sigma.
fn compute_sigma(x: u128) -> (r: u128)
    requires
        x <= ONE,
    ensures
        r == sigma(x as nat, SIGMA_TERMS as nat),
        r <= ONE * 0x1_0000_0000,
{
    let mut total: u128 = x;
    let mut power: u128 = x;
    let mut factor: u128 = 1;
    let mut k: u32 = 0;
    proof {
        vstd::arithmetic::power2::lemma2_to64();
    }
    while k < SIGMA_TERMS
        invariant
            x <= ONE,
            k <= SIGMA_TERMS,
            power == squared_times(x as nat, k as nat),
            power <= ONE,
            factor == vstd::arithmetic::power2::pow2(k as nat),
            factor <= 0x1_0000_0000,
            total == sigma(x as nat, k as nat),
            total <= ONE * factor,
        decreases SIGMA_TERMS - k,
    {
        power = compute_square(power);
        proof {
            let p = power as nat;
            let f = factor as nat;
            assert(p * f <= ONE * f) by (nonlinear_arith)
                requires
                    p <= ONE,
            ;
            assert(ONE * f <= ONE * 0x1_0000_0000) by (nonlinear_arith)
                requires
                    f <= 0x1_0000_0000,
            ;
            lemma_sigma_bound(x as nat, (k + 1) as nat);
            vstd::arithmetic::power2::lemma_pow2_unfold((k + 1) as nat);
            vstd::arithmetic::power2::lemma2_to64();
            if k + 1 < 32 {
                vstd::arithmetic::power2::lemma_pow2_strictly_increases((k + 1) as nat, 32);
            }
        }
        total = total + power * factor;
        factor = factor * 2;
        k = k + 1;
    }
    total
}

/// The cardinality estimate of a sketch.
pub(crate) fn compute_estimate(registers: &[u8; NUM_REGISTERS]) -> (r: u64)
    ensures
        r == estimate(registers@),
{
    let mut z: u128 = 0;
    let mut empty: u128 = 0;
    let mut full: u128 = 0;
    let mut i: usize = 0;
    while i < NUM_REGISTERS
        invariant
            i <= NUM_REGISTERS,
            registers@.len() == NUM_REGISTERS,
            z == harmonic_sum(registers@.take(i as int)),
            z <= i * ONE,
            empty == zeros(registers@.take(i as int)),
            empty <= i,
            full == saturated(registers@.take(i as int)),
            full <= i,
        decreases NUM_REGISTERS - i,
    {
        let r: u8 = registers[i];
        proof {
            let next = registers@.take(i + 1);
            assert(next.drop_last() =~= registers@.take(i as int));
            assert(next.last() == r);
            lemma_weight_bound(r);
        }
        if r == 0 {
            empty = empty + 1;
        } else if r <= LAST_WEIGHED_RANK {
            z = z + (1u64 << (62 - r) as u64) as u128;
        } else {
            full = full + 1;
        }
        i = i + 1;
    }
    proof {
        assert(registers@.take(NUM_REGISTERS as int) =~= registers@);
    }
    let fraction: u128 = empty * SHARE;
    let rest: u128 = (16384 - full) * SHARE;
    z = z + 16384 * compute_sigma(fraction) + compute_tau(rest) / TAU_DIVISOR;
    if z == 0 {
        return u64::MAX;
    }
    let n: u128 = (2 * SCALED_ALPHA + z) / (2 * z);
    if n > 0xffff_ffff_ffff_ffff {
        u64::MAX
    } else {
        n as u64
    }
}

} // verus!
