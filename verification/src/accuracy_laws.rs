//! How close the estimate of a sketch comes to the formula that defines it.
//!
//! The statements here speak of the registers and of the estimate alone. A fraction x is given as
//! the multiple x * 2^62 of the least one.

use vstd::prelude::*;
use vstd::arithmetic::power2::pow2;
use crate::estimate;

verus! {

/// The sum of a function over the registers.
pub open spec fn sum_over(registers: Seq<u8>, f: spec_fn(u8) -> int) -> int
    decreases registers.len(),
{
    if registers.len() == 0 {
        0
    } else {
        sum_over(registers.drop_last(), f) + f(registers.last())
    }
}

/// The number of registers that are zero.
pub open spec fn empty_registers(registers: Seq<u8>) -> int {
    sum_over(registers, |r: u8| if r == 0 { 1int } else { 0int })
}

/// The number of registers at the greatest rank.
pub open spec fn full_registers(registers: Seq<u8>) -> int {
    sum_over(registers, |r: u8| if r >= 51 { 1int } else { 0int })
}

/// The sum of 2^-r over the registers r from 1 to 50.
pub open spec fn powers_of_half(registers: Seq<u8>) -> int {
    sum_over(registers, |r: u8| if 1 <= r <= 50 { pow2((62 - r) as nat) as int } else { 0int })
}

/// Each fraction after the first is the square of the one before, rounded down.
pub open spec fn are_squares(fractions: Seq<int>) -> bool {
    forall|k: int|
        0 <= k < fractions.len() - 1 ==> 0 <= #[trigger] fractions[k] && 0 <= fractions[k + 1]
            && fractions[k + 1] * 0x4000_0000_0000_0000 <= fractions[k] * fractions[k] < (
        fractions[k + 1] + 1) * 0x4000_0000_0000_0000
}

/// Each fraction after the first is the square root of the one before, rounded down.
pub open spec fn are_roots(fractions: Seq<int>) -> bool {
    forall|k: int|
        0 <= k < fractions.len() - 1 ==> 0 <= #[trigger] fractions[k] && 0 <= fractions[k + 1]
            && fractions[k + 1] * fractions[k + 1] <= fractions[k] * 0x4000_0000_0000_0000 < (
        fractions[k + 1] + 1) * (fractions[k + 1] + 1)
}

/// Each number k from 1 on is 2^-k times the square of the distance of a fraction from one,
/// rounded down.
pub open spec fn are_losses(losses: Seq<int>, fractions: Seq<int>) -> bool {
    forall|k: int|
        1 <= k < losses.len() ==> {
            let distance = 0x4000_0000_0000_0000 - #[trigger] fractions[k];
            let scale = 0x4000_0000_0000_0000 * pow2(k as nat);
            losses[k] * scale <= distance * distance < (losses[k] + 1) * scale
        }
}

/// The sum of the numbers 1 to n.
pub open spec fn sum_to(numbers: Seq<int>, n: int) -> int
    decreases n,
{
    if n <= 0 { 0 } else { sum_to(numbers, n - 1) + numbers[n] }
}

/// The sum of 2^(k - 1) times the fraction k, for k from 1 to n.
pub open spec fn weighted_sum_to(fractions: Seq<int>, n: int) -> int
    decreases n,
{
    if n <= 0 {
        0
    } else {
        weighted_sum_to(fractions, n - 1) + fractions[n] * pow2((n - 1) as nat)
    }
}

/// A count is 16384^2 / (2 * ln 2 * z), to the nearest integer, for a fraction z. The logarithm
/// of 2 is taken to 24 decimals. The greatest 64-bit number stands for all greater counts, and
/// for z = 0.
pub open spec fn is_quotient_by(count: u64, z: int) -> bool {
    let squared: int = 0x1000_0000int * 0x4000_0000_0000_0000int
        * 1_000_000_000_000_000_000_000_000int;
    let log: int = 693_147_180_559_945_309_417_232int;
    let slack: int = 300_000_000_000_000_000_000_000_000int;
    &&& z >= 0
    &&& z == 0 ==> count == u64::MAX
    &&& 2 * log * (count * z) <= squared + log * z + slack
    &&& count < u64::MAX ==> squared <= 2 * log * (count * z) + log * z + slack
}

proof fn lemma_sums(registers: Seq<u8>)
    ensures
        empty_registers(registers) == estimate::zeros(registers),
        full_registers(registers) == estimate::saturated(registers),
        powers_of_half(registers) == estimate::harmonic_sum(registers),
        estimate::zeros(registers) <= registers.len(),
        estimate::saturated(registers) <= registers.len(),
    decreases registers.len(),
{
    if registers.len() > 0 {
        lemma_sums(registers.drop_last());
    }
}

proof fn lemma_squares(fractions: Seq<int>, k: int)
    requires
        are_squares(fractions),
        0 <= k < fractions.len(),
        fractions[0] >= 0,
    ensures
        fractions[k] == estimate::squared_times(fractions[0] as nat, k as nat),
    decreases k,
{
    if k > 0 {
        lemma_squares(fractions, k - 1);
        let p = fractions[k - 1];
        let q = fractions[k - 1 + 1];
        let one = 0x4000_0000_0000_0000int;
        assert(q * one <= p * p < (q + 1) * one);
        vstd::arithmetic::div_mod::lemma_fundamental_div_mod_converse(
            p * p,
            one,
            q,
            p * p - q * one,
        );
    }
}

proof fn lemma_roots(fractions: Seq<int>, k: int)
    requires
        are_roots(fractions),
        0 <= k < fractions.len(),
        fractions[0] >= 0,
    ensures
        fractions[k] == estimate::rooted_times(fractions[0] as nat, k as nat),
    decreases k,
{
    if k > 0 {
        lemma_roots(fractions, k - 1);
        let p = fractions[k - 1];
        let q = fractions[k - 1 + 1];
        assert(estimate::is_root(q as nat, (p * 0x4000_0000_0000_0000) as nat));
        estimate::lemma_root(p as nat);
        estimate::lemma_one_root(
            q as nat,
            estimate::root(p as nat),
            (p * 0x4000_0000_0000_0000) as nat,
        );
    }
}

proof fn lemma_weighted_sum(fractions: Seq<int>, n: int)
    requires
        are_squares(fractions),
        0 <= n < fractions.len(),
        fractions[0] >= 0,
    ensures
        fractions[0] + weighted_sum_to(fractions, n) == estimate::sigma(
            fractions[0] as nat,
            n as nat,
        ),
    decreases n,
{
    if n > 0 {
        lemma_weighted_sum(fractions, n - 1);
        lemma_squares(fractions, n);
    }
}

proof fn lemma_loss(x: nat, k: nat, distance: int, loss: int)
    requires
        distance == estimate::ONE - estimate::rooted_times(x, k),
        distance >= 0,
        loss * (0x4000_0000_0000_0000 * pow2(k)) <= distance * distance < (loss + 1) * (
        0x4000_0000_0000_0000 * pow2(k)),
    ensures
        loss == estimate::tau_term(x, k),
{
    let one = 0x4000_0000_0000_0000int;
    let p = pow2(k) as int;
    vstd::arithmetic::power2::lemma_pow2_pos(k);
    let scale = one * p;
    assert(scale > 0) by (nonlinear_arith)
        requires
            p > 0,
            scale == one * p,
            one > 0,
    ;
    assert(distance * distance - loss * scale < scale) by (nonlinear_arith)
        requires
            distance * distance < (loss + 1) * scale,
    ;
    vstd::arithmetic::div_mod::lemma_fundamental_div_mod_converse(
        distance * distance,
        scale,
        loss,
        distance * distance - loss * scale,
    );
    assert(distance * distance >= 0) by (nonlinear_arith);
    vstd::arithmetic::div_mod::lemma_div_denominator(distance * distance, one, p);
    assert(estimate::square(distance as nat) == distance * distance / one);
}

proof fn lemma_losses(losses: Seq<int>, fractions: Seq<int>, n: int)
    requires
        are_roots(fractions),
        are_losses(losses, fractions),
        0 <= n < fractions.len(),
        n < losses.len(),
        0 <= fractions[0] <= 0x4000_0000_0000_0000,
    ensures
        sum_to(losses, n) == estimate::tau_sum(fractions[0] as nat, n as nat),
        fractions[n] <= 0x4000_0000_0000_0000,
    decreases n,
{
    if n > 0 {
        lemma_losses(losses, fractions, n - 1);
        lemma_roots(fractions, n - 1);
        lemma_roots(fractions, n);
        estimate::lemma_root(fractions[n - 1] as nat);
        let distance = 0x4000_0000_0000_0000 - fractions[n];
        lemma_loss(fractions[0] as nat, n as nat, distance, losses[n]);
    }
}

proof fn lemma_quotient(registers: Seq<u8>)
    ensures
        is_quotient_by(estimate::estimate(registers), estimate::indicator(registers) as int),
{
    let z = estimate::indicator(registers) as int;
    let s = estimate::SCALED_ALPHA as int;
    let count = estimate::estimate(registers);
    let squared: int = 0x1000_0000int * 0x4000_0000_0000_0000int
        * 1_000_000_000_000_000_000_000_000int;
    let log: int = 693_147_180_559_945_309_417_232int;
    let slack: int = 300_000_000_000_000_000_000_000_000int;
    assert(squared - slack <= 2 * log * s <= squared + slack);
    if z > 0 {
        let n = (2 * s + z) / (2 * z);
        vstd::arithmetic::div_mod::lemma_fundamental_div_mod(2 * s + z, 2 * z);
        assert(2 * (n * z) <= 2 * s + z && 2 * s - z < 2 * (n * z)) by (nonlinear_arith)
            requires
                2 * s + z == (2 * z) * n + (2 * s + z) % (2 * z),
                0 <= (2 * s + z) % (2 * z) < 2 * z,
        ;
        assert(count * z <= n * z) by (nonlinear_arith)
            requires
                count <= n,
                z > 0,
        ;
    }
}

/// The estimate is 16384^2 / (2 * ln 2 * z), where z is the sum of three parts: 2^-r for each
/// register r from 1 to 50; for the c registers that are zero, 16384 times x + x^2 + 2 * x^4 +
/// 4 * x^8 + ... with x = c / 16384; for the s registers at rank 51, 16384 * 2^-50 times a third
/// of 1 - y - (1 - y^(1/2))^2 / 2 - (1 - y^(1/4))^2 / 4 - ... with y = 1 - s / 16384, or nothing
/// where y = 0.
pub proof fn law_the_estimate_follows_the_formula(
    registers: Seq<u8>,
    squares: Seq<int>,
    roots: Seq<int>,
    losses: Seq<int>,
    third: int,
    part: int,
)
    requires
        registers.len() == 16384,
        squares.len() == 33,
        squares[0] == empty_registers(registers) * 0x1_0000_0000_0000,
        are_squares(squares),
        roots.len() == 25,
        roots[0] == (16384 - full_registers(registers)) * 0x1_0000_0000_0000,
        are_roots(roots),
        losses.len() == 25,
        are_losses(losses, roots),
        ({
            let rest = 0x4000_0000_0000_0000 - roots[0] - sum_to(losses, 24);
            if roots[0] == 0 || rest <= 0 { third == 0 } else { 3 * third <= rest < 3 * third + 3 }
        }),
        part * 0x10_0000_0000 <= third < (part + 1) * 0x10_0000_0000,
    ensures
        is_quotient_by(
            estimate::estimate(registers),
            powers_of_half(registers) + 16384 * (squares[0] + weighted_sum_to(squares, 32)) + part,
        ),
{
    lemma_sums(registers);
    lemma_weighted_sum(squares, 32);
    lemma_losses(losses, roots, 24);
    lemma_quotient(registers);
    assert(estimate::zeros(registers) * estimate::SHARE as nat == squares[0]);
    assert(((16384 - estimate::saturated(registers)) * estimate::SHARE) as nat == roots[0]);
    assert(estimate::tau(roots[0] as nat) == third);
}

proof fn lemma_sigma_of_zero(terms: nat)
    ensures
        estimate::squared_times(0, terms) == 0,
        estimate::sigma(0, terms) == 0,
    decreases terms,
{
    if terms > 0 {
        lemma_sigma_of_zero((terms - 1) as nat);
        let p = pow2((terms - 1) as nat);
        assert(0 * p == 0);
    }
}

proof fn lemma_all_weighed(registers: Seq<u8>)
    requires
        forall|i: int| 0 <= i < registers.len() ==> 1 <= #[trigger] registers[i] <= 50,
    ensures
        estimate::zeros(registers) == 0,
        estimate::saturated(registers) == 0,
    decreases registers.len(),
{
    if registers.len() > 0 {
        let n = registers.len() - 1;
        assert(1 <= registers[n] <= 50);
        assert forall|i: int| 0 <= i < n implies 1 <= #[trigger] registers.drop_last()[i] <= 50 by {
            assert(1 <= registers[i] <= 50);
        }
        lemma_all_weighed(registers.drop_last());
    }
}

/// With no register at zero and none at the greatest rank, the estimate is
/// 16384^2 / (2 * ln 2 * z), where z is the sum of 2^-r over the registers r.
pub proof fn law_the_estimate_without_empty_registers(registers: Seq<u8>)
    requires
        registers.len() == 16384,
        forall|i: int| 0 <= i < 16384 ==> 1 <= #[trigger] registers[i] <= 50,
    ensures
        is_quotient_by(estimate::estimate(registers), powers_of_half(registers)),
{
    lemma_sums(registers);
    lemma_all_weighed(registers);
    lemma_sigma_of_zero(32);
    lemma_quotient(registers);
}

proof fn lemma_halved(registers: Seq<u8>, raised: Seq<u8>)
    requires
        raised.len() == registers.len(),
        forall|i: int|
            0 <= i < registers.len() ==> 1 <= #[trigger] registers[i] <= 49 && raised[i]
                == registers[i] + 1,
    ensures
        powers_of_half(registers) == 2 * powers_of_half(raised),
        registers.len() > 0 ==> powers_of_half(raised) > 0,
        powers_of_half(raised) >= 0,
    decreases registers.len(),
{
    if registers.len() > 0 {
        let n = registers.len() - 1;
        assert(1 <= registers[n] <= 49 && raised[n] == registers[n] + 1);
        let (a, b) = (registers.drop_last(), raised.drop_last());
        assert forall|i: int| 0 <= i < a.len() implies 1 <= #[trigger] a[i] <= 49 && b[i] == a[i]
            + 1 by {
            assert(1 <= registers[i] <= 49 && raised[i] == registers[i] + 1);
        }
        lemma_halved(a, b);
        vstd::arithmetic::power2::lemma_pow2_unfold((62 - registers[n]) as nat);
        vstd::arithmetic::power2::lemma_pow2_pos((62 - raised[n]) as nat);
    }
}

/// Raising every register by one doubles the estimate, up to rounding.
pub proof fn law_raising_every_register_doubles_the_estimate(registers: Seq<u8>, raised: Seq<u8>)
    requires
        registers.len() == 16384,
        raised.len() == 16384,
        forall|i: int|
            0 <= i < 16384 ==> 1 <= #[trigger] registers[i] <= 49 && raised[i] == registers[i] + 1,
        estimate::estimate(raised) < u64::MAX,
    ensures
        -1 <= estimate::estimate(raised) - 2 * estimate::estimate(registers) <= 1,
{
    assert forall|i: int| 0 <= i < 16384 implies 1 <= #[trigger] raised[i] <= 50 by {
        assert(1 <= registers[i] <= 49 && raised[i] == registers[i] + 1);
    }
    assert forall|i: int| 0 <= i < 16384 implies 1 <= #[trigger] registers[i] <= 50 by {
        assert(1 <= registers[i] <= 49);
    }
    lemma_halved(registers, raised);
    lemma_sums(registers);
    lemma_sums(raised);
    lemma_all_weighed(registers);
    lemma_all_weighed(raised);
    lemma_sigma_of_zero(32);
    let s = estimate::SCALED_ALPHA as int;
    let z = estimate::indicator(raised) as int;
    assert(estimate::indicator(registers) == 2 * z);
    let n = (2 * s + 2 * z) / (2 * (2 * z));
    let m = (2 * s + z) / (2 * z);
    vstd::arithmetic::div_mod::lemma_fundamental_div_mod(2 * s + 2 * z, 2 * (2 * z));
    vstd::arithmetic::div_mod::lemma_fundamental_div_mod(2 * s + z, 2 * z);
    assert(-1 <= m - 2 * n <= 1) by (nonlinear_arith)
        requires
            z > 0,
            2 * s + 2 * z == (2 * (2 * z)) * n + (2 * s + 2 * z) % (2 * (2 * z)),
            0 <= (2 * s + 2 * z) % (2 * (2 * z)) < 2 * (2 * z),
            2 * s + z == (2 * z) * m + (2 * s + z) % (2 * z),
            0 <= (2 * s + z) % (2 * z) < 2 * z,
    ;
}

} // verus!
