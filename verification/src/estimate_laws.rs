//! Laws of the cardinality estimate.

use vstd::prelude::*;
use crate::estimate;
use crate::laws;
use crate::registers;
use crate::registers::NUM_REGISTERS;

verus! {

proof fn lemma_zeros_of_nothing(registers: Seq<u8>)
    requires
        forall|i: int| 0 <= i < registers.len() ==> #[trigger] registers[i] == 0,
    ensures
        estimate::zeros(registers) == registers.len(),
        estimate::harmonic_sum(registers) == 0,
        estimate::saturated(registers) == 0,
    decreases registers.len(),
{
    if registers.len() > 0 {
        lemma_zeros_of_nothing(registers.drop_last());
    }
}

proof fn lemma_sigma_of_one(terms: nat)
    ensures
        estimate::squared_times(estimate::ONE as nat, terms) == estimate::ONE,
        estimate::sigma(estimate::ONE as nat, terms) == estimate::ONE
            * vstd::arithmetic::power2::pow2(terms),
    decreases terms,
{
    vstd::arithmetic::power2::lemma2_to64();
    if terms > 0 {
        lemma_sigma_of_one((terms - 1) as nat);
        vstd::arithmetic::power2::lemma_pow2_unfold(terms);
        let p = vstd::arithmetic::power2::pow2((terms - 1) as nat);
        let one = estimate::ONE as nat;
        assert(one * one / one == one);
        assert(one * (2 * p) == one * p + one * p) by (nonlinear_arith);
    }
}

/// A sketch that has seen nothing is estimated at zero.
pub proof fn law_nothing_seen_counts_zero()
    ensures
        estimate::estimate(registers::no_registers()) == 0,
{
    lemma_zeros_of_nothing(registers::no_registers());
    lemma_sigma_of_one(32);
    vstd::arithmetic::power2::lemma2_to64();
    assert(NUM_REGISTERS as nat * estimate::SHARE as nat == estimate::ONE as nat);
    let z = estimate::indicator(registers::no_registers());
    assert(z >= 16384 * (estimate::ONE * 0x1_0000_0000));
    let n = (2 * estimate::SCALED_ALPHA + z) as nat;
    assert(n < 2 * z);
    assert(n / (2 * z) == 0) by (nonlinear_arith)
        requires
            0 <= n < 2 * z,
    ;
}

proof fn lemma_square_grows(x: nat, y: nat)
    requires
        x <= y,
    ensures
        estimate::square(x) <= estimate::square(y),
{
    assert(x * x <= y * y) by (nonlinear_arith)
        requires
            x <= y,
    ;
    vstd::arithmetic::div_mod::lemma_div_is_ordered(
        (x * x) as int,
        (y * y) as int,
        estimate::ONE as int,
    );
}

proof fn lemma_squared_times_grows(x: nat, y: nat, k: nat)
    requires
        x <= y,
    ensures
        estimate::squared_times(x, k) <= estimate::squared_times(y, k),
    decreases k,
{
    if k > 0 {
        lemma_squared_times_grows(x, y, (k - 1) as nat);
        lemma_square_grows(
            estimate::squared_times(x, (k - 1) as nat),
            estimate::squared_times(y, (k - 1) as nat),
        );
    }
}

proof fn lemma_sigma_grows(x: nat, y: nat, terms: nat)
    requires
        x <= y,
    ensures
        estimate::sigma(x, terms) + (y - x) <= estimate::sigma(y, terms),
    decreases terms,
{
    if terms > 0 {
        lemma_sigma_grows(x, y, (terms - 1) as nat);
        lemma_squared_times_grows(x, y, terms);
        let a = estimate::squared_times(x, terms);
        let b = estimate::squared_times(y, terms);
        let p = vstd::arithmetic::power2::pow2((terms - 1) as nat);
        assert(a * p <= b * p) by (nonlinear_arith)
            requires
                a <= b,
        ;
    }
}

proof fn lemma_weight_shrinks(r: u8, s: u8)
    requires
        r <= s,
    ensures
        0 < r && s <= estimate::LAST_WEIGHED_RANK ==> estimate::weight(s) <= estimate::weight(r),
        0 < r <= estimate::LAST_WEIGHED_RANK ==> estimate::weight(r) >= 0x1000,
        estimate::weight(s) <= estimate::ONE,
{
    estimate::lemma_weight_bound(s);
    vstd::arithmetic::power2::lemma2_to64();
    if 0 < r < s <= 62 {
        vstd::arithmetic::power2::lemma_pow2_strictly_increases(
            (62 - s) as nat,
            (62 - r) as nat,
        );
    }
    if 0 < r < 50 {
        vstd::arithmetic::power2::lemma_pow2_strictly_increases(12, (62 - r) as nat);
    }
}

/// Raising registers frees no register. It adds at most one to the sum for each register that is
/// no longer zero, and takes the weight of the last rank off for each that reaches the greatest.
proof fn lemma_raised_registers(a: Seq<u8>, b: Seq<u8>)
    requires
        a.len() == b.len(),
        forall|i: int| 0 <= i < a.len() ==> #[trigger] a[i] <= b[i],
    ensures
        estimate::zeros(b) <= estimate::zeros(a) <= a.len(),
        estimate::saturated(a) <= estimate::saturated(b) <= a.len(),
        estimate::harmonic_sum(b) + 0x1000 * (estimate::saturated(b) - estimate::saturated(a))
            <= estimate::harmonic_sum(a) + estimate::ONE * (estimate::zeros(a) - estimate::zeros(
            b,
        )),
    decreases a.len(),
{
    if a.len() > 0 {
        let (x, y) = (a.drop_last(), b.drop_last());
        assert forall|i: int| 0 <= i < x.len() implies #[trigger] x[i] <= y[i] by {
            assert(a[i] <= b[i]);
        }
        lemma_raised_registers(x, y);
        assert(a[a.len() - 1] <= b[a.len() - 1]);
        lemma_weight_shrinks(a.last(), b.last());
    }
}

proof fn lemma_root_grows(x: nat, y: nat)
    requires
        x <= y,
    ensures
        estimate::root(x) <= estimate::root(y),
{
    estimate::lemma_root(x);
    estimate::lemma_root(y);
    let a = estimate::root(x);
    let b = estimate::root(y);
    assert(x * estimate::ONE as nat <= y * estimate::ONE as nat) by (nonlinear_arith)
        requires
            x <= y,
    ;
    if b < a {
        assert((b + 1) * (b + 1) <= a * a) by (nonlinear_arith)
            requires
                b < a,
        ;
    }
}

proof fn lemma_rooted_times_grows(x: nat, y: nat, k: nat)
    requires
        x <= y <= estimate::ONE,
    ensures
        estimate::rooted_times(x, k) <= estimate::rooted_times(y, k) <= estimate::ONE,
    decreases k,
{
    if k > 0 {
        lemma_rooted_times_grows(x, y, (k - 1) as nat);
        lemma_root_grows(
            estimate::rooted_times(x, (k - 1) as nat),
            estimate::rooted_times(y, (k - 1) as nat),
        );
        estimate::lemma_root(estimate::rooted_times(y, (k - 1) as nat));
    }
}

proof fn lemma_tau_sum_shrinks(x: nat, y: nat, terms: nat)
    requires
        x <= y <= estimate::ONE,
    ensures
        estimate::tau_sum(y, terms) <= estimate::tau_sum(x, terms),
    decreases terms,
{
    if terms > 0 {
        lemma_tau_sum_shrinks(x, y, (terms - 1) as nat);
        lemma_rooted_times_grows(x, y, terms);
        let a = (estimate::ONE - estimate::rooted_times(y, terms)) as nat;
        let b = (estimate::ONE - estimate::rooted_times(x, terms)) as nat;
        lemma_square_grows(a, b);
        vstd::arithmetic::power2::lemma_pow2_pos(terms);
        vstd::arithmetic::div_mod::lemma_div_is_ordered(
            estimate::square(a) as int,
            estimate::square(b) as int,
            vstd::arithmetic::power2::pow2(terms) as int,
        );
    }
}

/// With n more registers at the greatest rank, the weight of these registers grows by less than
/// the weight of the last rank for each of them.
proof fn lemma_tau_grows_slowly(before: nat, n: nat)
    requires
        before + n <= NUM_REGISTERS,
    ensures
        estimate::tau(((NUM_REGISTERS - before - n) * estimate::SHARE) as nat)
            / estimate::TAU_DIVISOR as nat <= estimate::tau(
            ((NUM_REGISTERS - before) * estimate::SHARE) as nat,
        ) / estimate::TAU_DIVISOR as nat + 0x1000 * n,
{
    let x = ((NUM_REGISTERS - before - n) * estimate::SHARE) as nat;
    let y = ((NUM_REGISTERS - before) * estimate::SHARE) as nat;
    if n > 0 && x > 0 {
        lemma_tau_sum_shrinks(x, y, estimate::TAU_TERMS as nat);
    }
}

proof fn lemma_indicator_shrinks(a: Seq<u8>, b: Seq<u8>)
    requires
        a.len() == NUM_REGISTERS,
        b.len() == NUM_REGISTERS,
        forall|i: int| 0 <= i < NUM_REGISTERS ==> #[trigger] a[i] <= b[i],
    ensures
        estimate::indicator(b) <= estimate::indicator(a),
{
    lemma_raised_registers(a, b);
    let x = estimate::zeros(b) * estimate::SHARE as nat;
    let y = estimate::zeros(a) * estimate::SHARE as nat;
    lemma_sigma_grows(x, y, estimate::SIGMA_TERMS as nat);
    let before = estimate::saturated(a);
    lemma_tau_grows_slowly(before, (estimate::saturated(b) - before) as nat);
}

/// Raising registers does not lower the estimate.
pub proof fn law_estimate_grows_with_the_registers(a: Seq<u8>, b: Seq<u8>)
    requires
        a.len() == NUM_REGISTERS,
        b.len() == NUM_REGISTERS,
        forall|i: int| 0 <= i < NUM_REGISTERS ==> #[trigger] a[i] <= b[i],
    ensures
        estimate::estimate(a) <= estimate::estimate(b),
{
    lemma_indicator_shrinks(a, b);
    let y = estimate::indicator(a);
    let z = estimate::indicator(b);
    if z > 0 {
        let s = 2 * estimate::SCALED_ALPHA as nat;
        let q = (s + y) / (2 * y);
        vstd::arithmetic::div_mod::lemma_fundamental_div_mod((s + y) as int, (2 * y) as int);
        assert(q * (2 * z) <= s + z) by (nonlinear_arith)
            requires
                (2 * y) * q <= s + y,
                z <= y,
        ;
        assert(q <= (s + z) / (2 * z)) by (nonlinear_arith)
            requires
                q * (2 * z) <= s + z,
                z > 0,
        ;
    }
}

/// Feeding a sketch with more hashes does not lower its estimate.
pub proof fn law_estimate_grows_with_the_input(old_registers: Seq<u8>, hashes: Seq<u64>)
    requires
        old_registers.len() == NUM_REGISTERS,
    ensures
        estimate::estimate(old_registers) <= estimate::estimate(
            registers::absorb_all(old_registers, hashes),
        ),
{
    laws::law_registers_only_grow(old_registers, hashes);
    let b = registers::absorb_all(old_registers, hashes);
    assert forall|i: int| 0 <= i < NUM_REGISTERS implies #[trigger] old_registers[i] <= b[i] by {
        assert(b[i] >= old_registers[i]);
    }
    law_estimate_grows_with_the_registers(old_registers, b);
}

/// The power x^(2^k) of a fraction x <= m / (m + 1) is at most m / (m + 2^k).
proof fn lemma_power_decays(x: nat, k: nat)
    requires
        x * 16385 <= estimate::ONE * 16384,
    ensures
        estimate::squared_times(x, k) * (16384 + vstd::arithmetic::power2::pow2(k)) <= estimate::ONE
            * 16384,
    decreases k,
{
    vstd::arithmetic::power2::lemma2_to64();
    if k > 0 {
        lemma_power_decays(x, (k - 1) as nat);
        vstd::arithmetic::power2::lemma_pow2_unfold(k);
        let p = estimate::squared_times(x, (k - 1) as nat);
        let q = estimate::square(p);
        let j = vstd::arithmetic::power2::pow2((k - 1) as nat);
        let one = estimate::ONE as nat;
        assert(q * one <= p * p) by {
            vstd::arithmetic::div_mod::lemma_fundamental_div_mod((p * p) as int, one as int);
        }
        let d = p * (16384 + j);
        assert(d * d <= (one * 16384) * (one * 16384)) by (nonlinear_arith)
            requires
                0 <= d <= one * 16384,
        ;
        assert((p * p) * ((16384 + j) * (16384 + j)) == d * d) by (nonlinear_arith)
            requires
                d == p * (16384 + j),
        ;
        assert((16384 + 2 * j) * 16384 <= (16384 + j) * (16384 + j)) by (nonlinear_arith)
            requires
                0 <= j,
        ;
        let e = (16384 + 2 * j) * 16384;
        let f = (16384 + j) * (16384 + j);
        assert((q * one) * e <= (p * p) * f) by (nonlinear_arith)
            requires
                0 <= q * one <= p * p,
                0 <= e <= f,
        ;
        let g = q * (16384 + 2 * j);
        assert(g * (one * 16384) == (q * one) * e) by (nonlinear_arith)
            requires
                g == q * (16384 + 2 * j),
                e == (16384 + 2 * j) * 16384,
        ;
        assert(g <= one * 16384) by (nonlinear_arith)
            requires
                g * (one * 16384) <= (one * 16384) * (one * 16384),
                one * 16384 > 0,
        ;
    }
}

/// One more term of the series, bounded from a bound on its power.
proof fn lemma_sigma_step(x: nat, k: nat, power: nat, factor: nat)
    requires
        k > 0,
        estimate::squared_times(x, k) <= power,
        vstd::arithmetic::power2::pow2((k - 1) as nat) == factor,
    ensures
        estimate::sigma(x, k) <= estimate::sigma(x, (k - 1) as nat) + power * factor,
{
    let p = estimate::squared_times(x, k);
    assert(p * factor <= power * factor) by (nonlinear_arith)
        requires
            p <= power,
    ;
}

/// The square of a power that is at most `before` is at most `after`.
proof fn lemma_next_power(x: nat, k: nat, before: nat, after: nat)
    requires
        k > 0,
        estimate::squared_times(x, (k - 1) as nat) <= before,
        estimate::square(before) == after,
    ensures
        estimate::squared_times(x, k) <= after,
{
    lemma_square_grows(estimate::squared_times(x, (k - 1) as nat), before);
}

/// The sum of the series for one register that is not zero.
proof fn lemma_sigma_of_one_seen()
    ensures
        estimate::sigma(16383 * estimate::SHARE as nat, 32) <= 18692 * estimate::ONE,
{
    let x = 16383 * estimate::SHARE as nat;
    vstd::arithmetic::power2::lemma2_to64();
    estimate::lemma_sigma_bound(x, 13);
    lemma_power_decays(x, 14);
    let p = estimate::squared_times(x, 14);
    let q = vstd::arithmetic::power2::pow2(14);
    assert(p * 32768 <= estimate::ONE * 16384) by (nonlinear_arith)
        requires
            p * (16384 + q) <= estimate::ONE * 16384,
            q == 16384,
    ;
    lemma_sigma_step(x, 14, 0x2000_0000_0000_0000, 0x2000);
    lemma_next_power(x, 15, 0x2000_0000_0000_0000, 0x1000_0000_0000_0000);
    lemma_sigma_step(x, 15, 0x1000_0000_0000_0000, 0x4000);
    lemma_next_power(x, 16, 0x1000_0000_0000_0000, 0x400_0000_0000_0000);
    lemma_sigma_step(x, 16, 0x400_0000_0000_0000, 0x8000);
    lemma_next_power(x, 17, 0x400_0000_0000_0000, 0x40_0000_0000_0000);
    lemma_sigma_step(x, 17, 0x40_0000_0000_0000, 0x1_0000);
    lemma_next_power(x, 18, 0x40_0000_0000_0000, 0x4000_0000_0000);
    lemma_sigma_step(x, 18, 0x4000_0000_0000, 0x2_0000);
    lemma_next_power(x, 19, 0x4000_0000_0000, 0x4000_0000);
    lemma_sigma_step(x, 19, 0x4000_0000, 0x4_0000);
    lemma_next_power(x, 20, 0x4000_0000, 0);
    lemma_sigma_step(x, 20, 0, 0x8_0000);
    lemma_sigma_stops(x, 20, 12);
}

/// Once a power is zero, later terms add nothing.
proof fn lemma_sigma_stops(x: nat, terms: nat, more: nat)
    requires
        terms > 0,
        estimate::squared_times(x, terms) == 0,
    ensures
        estimate::squared_times(x, terms + more) == 0,
        estimate::sigma(x, terms + more) == estimate::sigma(x, terms),
    decreases more,
{
    if more > 0 {
        lemma_sigma_stops(x, terms, (more - 1) as nat);
        let p = vstd::arithmetic::power2::pow2((terms + more - 1) as nat);
        assert(estimate::square(0) == 0);
        assert(0 * p == 0);
    }
}

proof fn lemma_one_seen(registers: Seq<u8>, i: int)
    requires
        0 <= i < registers.len(),
        registers[i] == 1,
        forall|j: int| 0 <= j < registers.len() && j != i ==> #[trigger] registers[j] == 0,
    ensures
        estimate::zeros(registers) == registers.len() - 1,
        estimate::harmonic_sum(registers) <= estimate::ONE,
    decreases registers.len(),
{
    let front = registers.drop_last();
    estimate::lemma_weight_bound(registers.last());
    if i == registers.len() - 1 {
        lemma_zeros_of_nothing(front);
    } else {
        lemma_one_seen(front, i);
    }
}

/// A sketch that has seen something is estimated at one at least.
pub proof fn law_something_seen_counts_one_at_least(registers: Seq<u8>, i: int)
    requires
        registers.len() == NUM_REGISTERS,
        0 <= i < NUM_REGISTERS,
        registers[i] > 0,
    ensures
        estimate::estimate(registers) >= 1,
{
    let least = registers::no_registers().update(i, 1u8);
    lemma_one_seen(least, i);
    lemma_sigma_of_one_seen();
    let z = estimate::indicator(least);
    let s = 2 * estimate::SCALED_ALPHA as nat;
    assert(z <= s);
    assert(z > 0) by {
        lemma_sigma_grows(0, 16383 * estimate::SHARE as nat, 32);
    }
    assert((s + z) / (2 * z) >= 1) by (nonlinear_arith)
        requires
            0 < z <= s,
    ;
    law_estimate_grows_with_the_registers(least, registers);
}

} // verus!
