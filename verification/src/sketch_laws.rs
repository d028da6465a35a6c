//! What feeding and joining sketches does, register by register and row by row.

use vstd::prelude::*;
use vstd::arithmetic::power2::pow2;
use crate::accumulators;
use crate::arrays;
use crate::arrays::ArrayRef;
use crate::hashing::HllValue;
use crate::hyperloglog;
use crate::optional;
use crate::registers;
use crate::schema::DataType;

verus! {

/// A hash offers the rank `v` to register `i`: its low 14 bits are `i`, and of the other 50 bits
/// the lowest `v - 1` are zero and the next one is set. With all 50 bits zero the rank is 51.
pub open spec fn offers(hash: u64, i: int, v: int) -> bool {
    &&& i == (hash & 0x3fff) as int
    &&& 1 <= v <= 51
    &&& (hash as int / 16384) % (pow2((v - 1) as nat) as int) == 0
    &&& v <= 50 ==> (hash as int / 16384) / (pow2((v - 1) as nat) as int) % 2 == 1
}

/// The lowest set bit has zeros below it.
proof fn lemma_lowest_bit_splits(n: nat)
    requires
        n > 0,
    ensures
        n as int % (pow2(registers::lowest_bit(n)) as int) == 0,
        n as int / (pow2(registers::lowest_bit(n)) as int) % 2 == 1,
    decreases n,
{
    vstd::arithmetic::power2::lemma2_to64();
    if n % 2 == 0 {
        let half = n / 2;
        let t = registers::lowest_bit(half);
        lemma_lowest_bit_splits(half);
        vstd::arithmetic::power2::lemma_pow2_unfold(t + 1);
        vstd::arithmetic::power2::lemma_pow2_pos(t);
        let p = pow2(t) as int;
        let q = half as int / p;
        vstd::arithmetic::div_mod::lemma_fundamental_div_mod(half as int, p);
        assert(n == (2 * p) * q) by (nonlinear_arith)
            requires
                half == p * q,
                n == 2 * half,
        ;
        vstd::arithmetic::div_mod::lemma_div_multiples_vanish(q, 2 * p);
        vstd::arithmetic::div_mod::lemma_mod_multiples_basic(q, 2 * p);
        assert((2 * p) * q == q * (2 * p)) by (nonlinear_arith);
    } else {
        assert(pow2(registers::lowest_bit(n)) == 1);
        assert(n as int / 1 == n && n as int % 1 == 0);
    }
}

/// A number has one lowest set bit.
proof fn lemma_one_lowest_bit(n: nat, t: nat)
    requires
        n > 0,
        n as int % (pow2(t) as int) == 0,
        n as int / (pow2(t) as int) % 2 == 1,
    ensures
        registers::lowest_bit(n) == t,
    decreases t,
{
    vstd::arithmetic::power2::lemma2_to64();
    if t > 0 {
        let p = pow2((t - 1) as nat) as int;
        vstd::arithmetic::power2::lemma_pow2_unfold(t);
        vstd::arithmetic::power2::lemma_pow2_pos((t - 1) as nat);
        let q = n as int / (2 * p);
        vstd::arithmetic::div_mod::lemma_fundamental_div_mod(n as int, 2 * p);
        assert(n == 2 * (p * q)) by (nonlinear_arith)
            requires
                n == (2 * p) * q,
        ;
        let half = n / 2;
        assert(half == p * q);
        vstd::arithmetic::div_mod::lemma_div_multiples_vanish(q, p);
        vstd::arithmetic::div_mod::lemma_mod_multiples_basic(q, p);
        assert(p * q == q * p) by (nonlinear_arith);
        lemma_one_lowest_bit(half, (t - 1) as nat);
    } else {
        assert(pow2(t) == 1);
        assert(n as int / 1 == n);
    }
}

/// A bit above the lowest `t + 1` bits does not change them.
proof fn lemma_higher_bit(q: int, t: nat)
    requires
        t < 50,
    ensures
        (q + 0x4_0000_0000_0000) % (pow2(t) as int) == q % (pow2(t) as int),
        (q + 0x4_0000_0000_0000) / (pow2(t) as int) % 2 == q / (pow2(t) as int) % 2,
{
    vstd::arithmetic::power2::lemma2_to64_rest();
    let p = pow2(t) as int;
    let h = pow2((49 - t) as nat) as int;
    vstd::arithmetic::power2::lemma_pow2_pos(t);
    vstd::arithmetic::power2::lemma_pow2_adds(t, (50 - t) as nat);
    vstd::arithmetic::power2::lemma_pow2_unfold((50 - t) as nat);
    assert(p * (2 * h) == 0x4_0000_0000_0000);
    vstd::arithmetic::div_mod::lemma_mod_multiples_vanish(2 * h, q, p);
    vstd::arithmetic::div_mod::lemma_hoist_over_denominator(q, 2 * h, p as nat);
    assert((2 * h) * p == p * (2 * h)) by (nonlinear_arith);
}

/// A hash offers its rank to its register, and it makes no other offer.
pub proof fn lemma_offer(hash: u64)
    ensures
        offers(hash, registers::bucket(hash), registers::rank(hash) as int),
        forall|i: int, v: int|
            #[trigger] offers(hash, i, v) ==> i == registers::bucket(hash) && v == registers::rank(
                hash,
            ),
{
    assert(hash & 0x3fff == hash % 16384) by (bit_vector);
    let q = hash as int / 16384;
    let n = (q + 0x4_0000_0000_0000) as nat;
    let t = registers::lowest_bit(n);
    vstd::arithmetic::power2::lemma2_to64();
    vstd::arithmetic::power2::lemma2_to64_rest();
    registers::lemma_rank_range(hash);
    lemma_lowest_bit_splits(n);
    if t < 50 {
        lemma_higher_bit(q, t);
    } else {
        assert(pow2(t) == 0x4_0000_0000_0000);
        assert(n as int % 0x4_0000_0000_0000 == 0);
        assert(q % 0x4_0000_0000_0000 == 0);
    }
    assert forall|i: int, v: int| #[trigger] offers(hash, i, v) implies i == registers::bucket(hash)
        && v == registers::rank(hash) by {
        if v <= 50 {
            lemma_higher_bit(q, (v - 1) as nat);
            lemma_one_lowest_bit(n, (v - 1) as nat);
        } else {
            assert(q == 0);
            assert(n == 0x4_0000_0000_0000);
            lemma_one_lowest_bit(n, 50);
        }
    }
}

/// A hash raises the register that its low 14 bits select to the rank that its other bits give,
/// unless the register is there already, and touches no other register.
pub proof fn law_a_hash_raises_one_register(old_registers: Seq<u8>, hash: u64)
    requires
        old_registers.len() == 16384,
    ensures
        registers::absorb(old_registers, hash).len() == 16384,
        forall|i: int|
            0 <= i < 16384 && i != (hash & 0x3fff) ==> #[trigger] registers::absorb(
                old_registers,
                hash,
            )[i] == old_registers[i],
        forall|v: int|
            #[trigger] offers(hash, (hash & 0x3fff) as int, v) ==> registers::absorb(
                old_registers,
                hash,
            )[(hash & 0x3fff) as int] == (if old_registers[(hash & 0x3fff) as int] < v {
                v
            } else {
                old_registers[(hash & 0x3fff) as int] as int
            }),
        exists|v: int| #[trigger] offers(hash, (hash & 0x3fff) as int, v),
{
    lemma_offer(hash);
    registers::lemma_rank_range(hash);
}

/// A new sketch has 16384 registers, all zero. Every one of them can be reached: in a new sketch
/// a hash changes register `i` if and only if its low 14 bits are `i`.
pub proof fn law_every_register_is_reached(hash: u64, i: int)
    requires
        0 <= i < 16384,
    ensures
        registers::no_registers().len() == 16384,
        registers::no_registers()[i] == 0,
        registers::absorb(registers::no_registers(), hash)[i] != 0 <==> (hash & 0x3fff) == i,
        registers::absorb(registers::no_registers(), i as u64)[i] != 0,
{
    let low = i as u64;
    assert(low & 0x3fff == low) by (bit_vector)
        requires
            low < 16384,
    ;
    lemma_offer(hash);
    lemma_offer(low);
    registers::lemma_rank_range(hash);
    registers::lemma_rank_range(low);
}

/// A register after a sequence of hashes is the greatest of what it was and of the ranks that
/// the hashes offered to it.
pub proof fn law_a_register_is_the_greatest_offer(
    old_registers: Seq<u8>,
    hashes: Seq<u64>,
    i: int,
)
    requires
        old_registers.len() == 16384,
        0 <= i < 16384,
    ensures
        registers::absorb_all(old_registers, hashes).len() == 16384,
        registers::absorb_all(old_registers, hashes)[i] >= old_registers[i],
        forall|k: int, v: int|
            0 <= k < hashes.len() && #[trigger] offers(hashes[k], i, v)
                ==> registers::absorb_all(old_registers, hashes)[i] >= v,
        registers::absorb_all(old_registers, hashes)[i] == old_registers[i] || exists|k: int|
            0 <= k < hashes.len() && #[trigger] offers(
                hashes[k],
                i,
                registers::absorb_all(old_registers, hashes)[i] as int,
            ),
    decreases hashes.len(),
{
    if hashes.len() > 0 {
        let front = hashes.drop_last();
        let last = hashes.last();
        let n = hashes.len() - 1;
        let before = registers::absorb_all(old_registers, front);
        let after = registers::absorb_all(old_registers, hashes);
        law_a_register_is_the_greatest_offer(old_registers, front, i);
        lemma_offer(last);
        registers::lemma_rank_range(last);
        assert forall|k: int, v: int|
            0 <= k < hashes.len() && #[trigger] offers(hashes[k], i, v) implies after[i] >= v by {
            if k < n {
                assert(offers(front[k], i, v));
            }
        }
        if after[i] != old_registers[i] {
            if after[i] == before[i] {
                let k = choose|k: int|
                    0 <= k < front.len() && #[trigger] offers(front[k], i, before[i] as int);
                assert(offers(hashes[k], i, after[i] as int));
            } else {
                assert(offers(hashes[n], i, after[i] as int));
            }
        }
    }
}

/// Joining two sketches gives the least registers that are at least those of both.
pub proof fn law_join_is_the_least_upper_bound(a: Seq<u8>, b: Seq<u8>, c: Seq<u8>)
    requires
        a.len() == 16384,
        b.len() == 16384,
        c.len() == 16384,
    ensures
        registers::join(a, b).len() == 16384,
        forall|i: int|
            0 <= i < 16384 ==> a[i] <= #[trigger] registers::join(a, b)[i] && b[i]
                <= registers::join(a, b)[i],
        (forall|i: int| 0 <= i < 16384 ==> a[i] <= #[trigger] c[i] && b[i] <= c[i]) ==> (forall|
            i: int,
        |
            0 <= i < 16384 ==> #[trigger] registers::join(a, b)[i] <= c[i]),
{
}

/// Joining a sequence of sketches, each register becomes the greatest of all.
pub proof fn law_a_register_is_the_greatest_joined(
    old_registers: Seq<u8>,
    others: Seq<Seq<u8>>,
    i: int,
)
    requires
        old_registers.len() == 16384,
        0 <= i < 16384,
    ensures
        registers::join_all(old_registers, others).len() == 16384,
        registers::join_all(old_registers, others)[i] >= old_registers[i],
        forall|k: int|
            0 <= k < others.len() ==> registers::join_all(old_registers, others)[i]
                >= #[trigger] others[k][i],
        registers::join_all(old_registers, others)[i] == old_registers[i] || exists|k: int|
            0 <= k < others.len() && registers::join_all(old_registers, others)[i]
                == #[trigger] others[k][i],
    decreases others.len(),
{
    if others.len() > 0 {
        let front = others.drop_last();
        let n = others.len() - 1;
        law_a_register_is_the_greatest_joined(old_registers, front, i);
        let before = registers::join_all(old_registers, front);
        let after = registers::join_all(old_registers, others);
        assert forall|k: int| 0 <= k < others.len() implies after[i] >= #[trigger] others[k][i] by {
            if k < n {
                assert(before[i] >= front[k][i]);
            }
        }
        if after[i] != old_registers[i] {
            if after[i] == before[i] {
                let k = choose|k: int|
                    0 <= k < front.len() && before[i] == #[trigger] front[k][i];
                assert(after[i] == others[k][i]);
            } else {
                assert(after[i] == others[n][i]);
            }
        }
    }
}

/// A value is among those present if and only if it stands in a row.
pub proof fn law_present_values_are_those_in_rows<A>(rows: Seq<Option<A>>)
    ensures
        forall|value: A|
            #[trigger] optional::present(rows).contains(value) <==> rows.contains(Some(value)),
        optional::present(rows).len() <= rows.len(),
        (forall|i: int| 0 <= i < rows.len() ==> #[trigger] rows[i] is Some)
            ==> optional::present(rows).len() == rows.len(),
    decreases rows.len(),
{
    if rows.len() > 0 {
        let front = rows.drop_last();
        let last = rows.last();
        let n = rows.len() - 1;
        law_present_values_are_those_in_rows(front);
        let before = optional::present(front);
        let after = optional::present(rows);
        assert forall|value: A| #[trigger] after.contains(value) <==> rows.contains(
            Some(value),
        ) by {
            if rows.contains(Some(value)) {
                let k = choose|k: int| 0 <= k < rows.len() && rows[k] == Some(value);
                if k < n {
                    assert(front[k] == Some(value));
                    assert(before.contains(value));
                    let j = choose|j: int| 0 <= j < before.len() && before[j] == value;
                    assert(after[j] == value);
                } else {
                    assert(after[after.len() - 1] == value);
                }
            }
            if after.contains(value) {
                let j = choose|j: int| 0 <= j < after.len() && after[j] == value;
                if j < before.len() {
                    assert(before[j] == value);
                    assert(before.contains(value));
                    let k = choose|k: int| 0 <= k < front.len() && front[k] == Some(value);
                    assert(rows[k] == Some(value));
                } else {
                    assert(rows[n] == Some(value));
                }
            }
        }
        if forall|i: int| 0 <= i < rows.len() ==> #[trigger] rows[i] is Some {
            assert forall|i: int| 0 <= i < front.len() implies #[trigger] front[i] is Some by {
                assert(rows[i] is Some);
            }
            assert(rows[n] is Some);
        }
    } else {
        assert forall|value: A| #[trigger]
            optional::present(rows).contains(value) <==> rows.contains(Some(value)) by {
        }
    }
}

/// The values present keep the order of the rows: those of two parts stand one after the other.
pub proof fn law_present_values_keep_their_order<A>(a: Seq<Option<A>>, b: Seq<Option<A>>, value: A)
    ensures
        optional::present(a + b) == optional::present(a) + optional::present(b),
        optional::present(seq![Some(value)]) == seq![value],
        optional::present(seq![None::<A>]) == Seq::<A>::empty(),
    decreases b.len(),
{
    assert(optional::present(Seq::<Option<A>>::empty()) =~= Seq::empty());
    let one = seq![Some(value)];
    assert(one.drop_last() =~= Seq::empty());
    assert(one.last() == Some(value));
    assert(optional::present(one) =~= seq![value]);
    let none = seq![None::<A>];
    assert(none.drop_last() =~= Seq::empty());
    if b.len() == 0 {
        assert(a + b =~= a);
        assert(optional::present(a) + optional::present(b) =~= optional::present(a));
    } else {
        law_present_values_keep_their_order(a, b.drop_last(), value);
        assert((a + b).drop_last() =~= a + b.drop_last());
        assert((a + b).last() == b.last());
        assert(optional::present(a + b) =~= optional::present(a) + optional::present(b));
    }
}

/// The rows before the first null are not null, and it is null.
pub proof fn law_the_first_null_is_found<A>(rows: Seq<Option<A>>)
    ensures
        optional::first_absent(rows) <= rows.len(),
        forall|i: int| 0 <= i < optional::first_absent(rows) ==> #[trigger] rows[i] is Some,
        optional::first_absent(rows) < rows.len() ==> rows[optional::first_absent(rows) as int]
            is None,
    decreases rows.len(),
{
    if rows.len() > 0 && rows[0] is Some {
        let rest = rows.drop_first();
        law_the_first_null_is_found(rest);
        assert forall|i: int| 0 <= i < optional::first_absent(rows) implies #[trigger] rows[i]
            is Some by {
            if i > 0 {
                assert(rest[i - 1] is Some);
            }
        }
    }
}

/// The hashes that a sketch is fed with for a batch of rows are those of the values in the rows.
pub proof fn law_a_batch_is_hashed_row_by_row<T: HllValue>(rows: Seq<Option<T>>, hash: u64)
    ensures
        hyperloglog::value_hashes(rows).contains(hash) <==> exists|value: T|
            #[trigger] rows.contains(Some(value)) && hash == value.hash_spec(),
{
    lemma_mapped_values(rows, |value: T| value.hash_spec(), hash);
    assert(hyperloglog::value_hashes(rows) == optional::present(rows).map_values(
        |value: T| value.hash_spec(),
    ));
}

/// The results of a function on the values that are present.
pub proof fn lemma_mapped_values<A>(rows: Seq<Option<A>>, f: spec_fn(A) -> u64, hash: u64)
    ensures
        optional::present(rows).map_values(f).contains(hash) <==> exists|value: A|
            #[trigger] rows.contains(Some(value)) && hash == f(value),
{
    let values = optional::present(rows);
    let hashes = values.map_values(f);
    law_present_values_are_those_in_rows(rows);
    if hashes.contains(hash) {
        let k = choose|k: int| 0 <= k < hashes.len() && hashes[k] == hash;
        assert(values.contains(values[k]));
        assert(rows.contains(Some(values[k])));
    }
    if exists|value: A| #[trigger] rows.contains(Some(value)) && hash == f(value) {
        let value = choose|value: A| #[trigger] rows.contains(Some(value)) && hash == f(value);
        assert(values.contains(value));
        let k = choose|k: int| 0 <= k < values.len() && values[k] == value;
        assert(hashes[k] == hash);
    }
}

/// After an update with a column each register is the greatest of what it was and of the ranks
/// that the hashes of the values in the rows offer to it. Nulls offer nothing, and every value
/// counts.
pub proof fn law_an_update_takes_every_value<A>(
    old_registers: Seq<u8>,
    rows: Seq<Option<A>>,
    hash: spec_fn(A) -> u64,
    i: int,
)
    requires
        old_registers.len() == 16384,
        0 <= i < 16384,
    ensures
        accumulators::updated(old_registers, None::<Seq<Option<A>>>, hash) == old_registers,
        accumulators::updated(old_registers, Some(rows), hash).len() == 16384,
        accumulators::updated(old_registers, Some(rows), hash)[i] >= old_registers[i],
        forall|value: A, v: int|
            #[trigger] rows.contains(Some(value)) && #[trigger] offers(hash(value), i, v)
                ==> accumulators::updated(old_registers, Some(rows), hash)[i] >= v,
        accumulators::updated(old_registers, Some(rows), hash)[i] == old_registers[i]
            || exists|value: A|
            #[trigger] rows.contains(Some(value)) && offers(
                hash(value),
                i,
                accumulators::updated(old_registers, Some(rows), hash)[i] as int,
            ),
{
    let values = optional::present(rows);
    let hashes = values.map_values(hash);
    let after = accumulators::updated(old_registers, Some(rows), hash);
    law_a_register_is_the_greatest_offer(old_registers, hashes, i);
    law_present_values_are_those_in_rows(rows);
    assert forall|value: A, v: int| #[trigger]
        rows.contains(Some(value)) && #[trigger] offers(hash(value), i, v) implies after[i]
        >= v by {
        assert(values.contains(value));
        let k = choose|k: int| 0 <= k < values.len() && values[k] == value;
        assert(offers(hashes[k], i, v));
    }
    if after[i] != old_registers[i] {
        let k = choose|k: int|
            0 <= k < hashes.len() && #[trigger] offers(hashes[k], i, after[i] as int);
        assert(values.contains(values[k]));
        assert(rows.contains(Some(values[k])));
    }
}

/// A merge takes one array of byte strings of 16384 bytes each, without nulls, and nothing else.
pub proof fn law_what_can_be_merged(states: Seq<ArrayRef>)
    ensures
        accumulators::merge_fault(states) is None <==> {
            &&& states.len() == 1
            &&& arrays::array_type(states[0]) == DataType::FixedSizeBinary(16384)
            &&& forall|k: int|
                0 <= k < accumulators::state_rows(states).len()
                    ==> #[trigger] accumulators::state_rows(states)[k] is Some
        },
{
    let rows = accumulators::state_rows(states);
    law_the_first_null_is_found(rows);
}

/// After a merge each register is the greatest of what it was and of those in the states before
/// the first null. A list of arrays that cannot be read changes nothing.
pub proof fn law_a_merge_takes_every_state(old_registers: Seq<u8>, states: Seq<ArrayRef>, i: int)
    requires
        old_registers.len() == 16384,
        0 <= i < 16384,
    ensures
        states.len() != 1 || arrays::array_type(states[0]) != DataType::FixedSizeBinary(16384)
            ==> accumulators::merged(old_registers, states) == old_registers,
        states.len() == 1 && arrays::array_type(states[0]) == DataType::FixedSizeBinary(16384) ==> {
            let rows = arrays::fixed_size_rows(arrays::fixed_size_binary(states[0]));
            let after = accumulators::merged(old_registers, states);
            &&& after.len() == 16384
            &&& after[i] >= old_registers[i]
            &&& forall|k: int|
                0 <= k < rows.len() && (forall|j: int| 0 <= j <= k ==> #[trigger] rows[j] is Some)
                    ==> after[i] >= (#[trigger] rows[k])->Some_0[i]
            &&& after[i] == old_registers[i] || exists|k: int|
                0 <= k < rows.len() && (forall|j: int| 0 <= j <= k ==> #[trigger] rows[j] is Some)
                    && after[i] == (#[trigger] rows[k])->Some_0[i]
        },
{
    if states.len() == 1 && arrays::array_type(states[0]) == DataType::FixedSizeBinary(16384) {
        let rows = arrays::fixed_size_rows(arrays::fixed_size_binary(states[0]));
        let n = optional::first_absent(rows) as int;
        let front = rows.take(n);
        let sketches = Seq::new(n as nat, |k: int| rows[k]->Some_0);
        law_the_first_null_is_found(rows);
        assert forall|k: int| 0 <= k < n implies #[trigger] front[k] == Some(sketches[k]) by {
            assert(rows[k] is Some);
        }
        lemma_all_rows_present(front, sketches);
        law_a_register_is_the_greatest_joined(old_registers, sketches, i);
        let after = accumulators::merged(old_registers, states);
        assert(after == registers::join_all(old_registers, sketches));
        assert forall|k: int|
            0 <= k < rows.len() && (forall|j: int|
                0 <= j <= k ==> #[trigger] rows[j] is Some) implies after[i] >= (
        #[trigger] rows[k])->Some_0[i] by {
            if k >= n {
                assert(rows[n] is Some);
            }
            assert(after[i] >= sketches[k][i]);
        }
        if after[i] != old_registers[i] {
            let k = choose|k: int|
                0 <= k < sketches.len() && after[i] == #[trigger] sketches[k][i];
            assert(after[i] == rows[k]->Some_0[i]);
        }
    }
}

proof fn lemma_all_rows_present<A>(rows: Seq<Option<A>>, values: Seq<A>)
    requires
        rows.len() == values.len(),
        forall|i: int| 0 <= i < rows.len() ==> #[trigger] rows[i] == Some(values[i]),
    ensures
        optional::present(rows) == values,
    decreases rows.len(),
{
    if rows.len() > 0 {
        let n = rows.len() - 1;
        assert forall|i: int| 0 <= i < n implies #[trigger] rows.drop_last()[i] == Some(
            values.drop_last()[i],
        ) by {
            assert(rows[i] == Some(values[i]));
        }
        lemma_all_rows_present(rows.drop_last(), values.drop_last());
        assert(rows[n] == Some(values[n]));
    }
    assert(optional::present(rows) =~= values);
}

} // verus!
