//! Laws that relate the operations of the aggregate.

use datafusion_functions_aggregate_common::aggregate::count_distinct::{
    Bitmap65536DistinctCountAccumulator, Bitmap65536DistinctCountAccumulatorI16,
    BoolArray256DistinctCountAccumulator, BoolArray256DistinctCountAccumulatorI8,
};
use vstd::prelude::*;
use crate::accumulator::{ApproxDistinctAccumulator, Content};
use crate::accumulators;
use crate::approx_distinct;
use crate::arrays;
use crate::arrays::ArrayRef;
use crate::error;
use crate::error::ApproxDistinctError;
use crate::estimate;
use crate::optional;
use crate::registers;
use crate::registers::NUM_REGISTERS;
use crate::scalar::{ScalarValue, APPROX_DISTINCT_HLL_STATE_SIZE};
use crate::schema;
use crate::schema::{DataType, Field};
use crate::small_int;
use crate::small_int::DistinctCounter;

verus! {

/// A register after a sequence of hashes is the greatest of what it was and of the ranks that
/// the hashes offered to it.
proof fn lemma_absorb_all_register(old_registers: Seq<u8>, hashes: Seq<u64>, i: int)
    requires
        old_registers.len() == NUM_REGISTERS,
        0 <= i < NUM_REGISTERS,
    ensures
        registers::absorb_all(old_registers, hashes).len() == NUM_REGISTERS,
        registers::absorb_all(old_registers, hashes)[i] >= old_registers[i],
        forall|h: u64|
            #[trigger] hashes.contains(h) && registers::bucket(h) == i
                ==> registers::absorb_all(old_registers, hashes)[i] >= registers::rank(h),
        registers::absorb_all(old_registers, hashes)[i] == old_registers[i] || exists|h: u64|
            #[trigger]
            hashes.contains(h) && registers::bucket(h) == i && registers::rank(h)
                == registers::absorb_all(old_registers, hashes)[i],
    decreases hashes.len(),
{
    if hashes.len() > 0 {
        let front = hashes.drop_last();
        let last = hashes.last();
        lemma_absorb_all_register(old_registers, front, i);
        registers::lemma_rank_range(last);
        let before = registers::absorb_all(old_registers, front);
        let after = registers::absorb_all(old_registers, hashes);
        assert(hashes =~= front.push(last));
        assert(hashes.contains(last)) by {
            assert(hashes[hashes.len() - 1] == last);
        }
        assert forall|h: u64| #[trigger]
            hashes.contains(h) && registers::bucket(h) == i implies after[i] >= registers::rank(
            h,
        ) by {
            if h != last {
                let k = choose|k: int| 0 <= k < hashes.len() && hashes[k] == h;
                assert(front[k] == h);
                assert(front.contains(h));
            }
        }
        if after[i] != old_registers[i] {
            if after[i] == before[i] {
                let h = choose|h: u64|
                    #[trigger]
                    front.contains(h) && registers::bucket(h) == i && registers::rank(h)
                        == before[i];
                let k = choose|k: int| 0 <= k < front.len() && front[k] == h;
                assert(hashes[k] == h);
                assert(hashes.contains(h));
            }
        }
    }
}

/// Adding values never lowers a register, and keeps the number of registers.
pub proof fn law_registers_only_grow(old_registers: Seq<u8>, hashes: Seq<u64>)
    requires
        old_registers.len() == NUM_REGISTERS,
    ensures
        registers::absorb_all(old_registers, hashes).len() == NUM_REGISTERS,
        forall|i: int|
            0 <= i < NUM_REGISTERS ==> #[trigger] registers::absorb_all(old_registers, hashes)[i]
                >= old_registers[i],
{
    lemma_absorb_all_register(old_registers, hashes, 0);
    assert forall|i: int| 0 <= i < NUM_REGISTERS implies #[trigger] registers::absorb_all(
        old_registers,
        hashes,
    )[i] >= old_registers[i] by {
        lemma_absorb_all_register(old_registers, hashes, i);
    }
}

/// A register is at least as great after more hashes.
proof fn lemma_more_hashes(old_registers: Seq<u8>, a: Seq<u64>, b: Seq<u64>, i: int)
    requires
        old_registers.len() == NUM_REGISTERS,
        0 <= i < NUM_REGISTERS,
        a.to_set().subset_of(b.to_set()),
    ensures
        registers::absorb_all(old_registers, a)[i] <= registers::absorb_all(old_registers, b)[i],
{
    lemma_absorb_all_register(old_registers, a, i);
    lemma_absorb_all_register(old_registers, b, i);
    let value = registers::absorb_all(old_registers, a)[i];
    if value != old_registers[i] {
        let h = choose|h: u64|
            #[trigger]
            a.contains(h) && registers::bucket(h) == i && registers::rank(h) == value;
        assert(a.to_set().contains(h));
        assert(b.to_set().contains(h));
        assert(b.contains(h));
    }
}

/// A sketch depends on the set of hashes it was fed with: neither their order nor their
/// repetition matters.
pub proof fn law_order_and_repetition_do_not_matter(
    old_registers: Seq<u8>,
    a: Seq<u64>,
    b: Seq<u64>,
)
    requires
        old_registers.len() == NUM_REGISTERS,
        a.to_set() == b.to_set(),
    ensures
        registers::absorb_all(old_registers, a) == registers::absorb_all(old_registers, b),
{
    law_registers_only_grow(old_registers, a);
    law_registers_only_grow(old_registers, b);
    assert forall|i: int| 0 <= i < NUM_REGISTERS implies registers::absorb_all(old_registers, a)[i]
        == registers::absorb_all(old_registers, b)[i] by {
        lemma_more_hashes(old_registers, a, b, i);
        lemma_more_hashes(old_registers, b, a, i);
    }
    assert(registers::absorb_all(old_registers, a) =~= registers::absorb_all(old_registers, b));
}

/// Feeding two batches of hashes one after the other is feeding them as one batch.
pub proof fn law_batches_concatenate(old_registers: Seq<u8>, a: Seq<u64>, b: Seq<u64>)
    ensures
        registers::absorb_all(registers::absorb_all(old_registers, a), b) == registers::absorb_all(
            old_registers,
            a + b,
        ),
    decreases b.len(),
{
    if b.len() == 0 {
        assert(a + b =~= a);
    } else {
        law_batches_concatenate(old_registers, a, b.drop_last());
        assert((a + b).drop_last() =~= a + b.drop_last());
        assert((a + b).last() == b.last());
    }
}

/// Joining sketches is commutative, associative and idempotent, and a sketch that has seen
/// nothing is neutral.
pub proof fn law_join_is_a_semilattice(a: Seq<u8>, b: Seq<u8>, c: Seq<u8>)
    requires
        a.len() == NUM_REGISTERS,
        b.len() == NUM_REGISTERS,
        c.len() == NUM_REGISTERS,
    ensures
        registers::join(a, b) == registers::join(b, a),
        registers::join(registers::join(a, b), c) == registers::join(a, registers::join(b, c)),
        registers::join(a, a) == a,
        registers::join(a, registers::no_registers()) == a,
        registers::join(registers::no_registers(), a) == a,
{
    assert(registers::join(a, b) =~= registers::join(b, a));
    assert(registers::join(registers::join(a, b), c) =~= registers::join(a, registers::join(b, c)));
    assert(registers::join(a, a) =~= a);
    assert(registers::join(a, registers::no_registers()) =~= a);
    assert(registers::join(registers::no_registers(), a) =~= a);
}

proof fn lemma_absorb_joined(a: Seq<u8>, b: Seq<u8>, hash: u64)
    requires
        a.len() == NUM_REGISTERS,
        b.len() == NUM_REGISTERS,
    ensures
        registers::join(a, registers::absorb(b, hash)) == registers::absorb(
            registers::join(a, b),
            hash,
        ),
{
    registers::lemma_rank_range(hash);
    assert(registers::join(a, registers::absorb(b, hash)) =~= registers::absorb(
        registers::join(a, b),
        hash,
    ));
}

/// Joining a sketch is feeding the hashes that it was fed with.
pub proof fn law_join_is_union(a: Seq<u8>, b: Seq<u8>, hashes: Seq<u64>)
    requires
        a.len() == NUM_REGISTERS,
        b.len() == NUM_REGISTERS,
    ensures
        registers::join(a, registers::absorb_all(b, hashes)) == registers::absorb_all(
            registers::join(a, b),
            hashes,
        ),
    decreases hashes.len(),
{
    if hashes.len() > 0 {
        law_join_is_union(a, b, hashes.drop_last());
        law_registers_only_grow(b, hashes.drop_last());
        lemma_absorb_joined(a, registers::absorb_all(b, hashes.drop_last()), hashes.last());
    }
}

/// Merging the sketches of parts of the input gives the sketch of the whole input.
pub proof fn law_merging_parts_gives_the_whole(
    old_registers: Seq<u8>,
    parts: Seq<Seq<u64>>,
    states: Seq<Seq<u8>>,
)
    requires
        old_registers.len() == NUM_REGISTERS,
        states.len() == parts.len(),
        forall|i: int|
            0 <= i < parts.len() ==> #[trigger] states[i] == registers::absorb_all(
                registers::no_registers(),
                parts[i],
            ),
    ensures
        registers::join_all(old_registers, states) == registers::absorb_all(
            old_registers,
            parts.flatten(),
        ),
    decreases parts.len(),
{
    if parts.len() == 0 {
        assert(parts.flatten() =~= Seq::empty());
    } else {
        let front = parts.drop_last();
        let last = parts.last();
        assert forall|i: int| 0 <= i < front.len() implies #[trigger] states.drop_last()[i]
            == registers::absorb_all(registers::no_registers(), front[i]) by {
            assert(states[i] == registers::absorb_all(registers::no_registers(), parts[i]));
        }
        law_merging_parts_gives_the_whole(old_registers, front, states.drop_last());
        let before = registers::join_all(old_registers, states.drop_last());
        law_registers_only_grow(old_registers, front.flatten());
        assert(states.last() == registers::absorb_all(registers::no_registers(), last)) by {
            assert(states[parts.len() - 1] == registers::absorb_all(
                registers::no_registers(),
                parts[parts.len() - 1],
            ));
        }
        law_join_is_union(before, registers::no_registers(), last);
        law_join_is_a_semilattice(before, before, before);
        law_batches_concatenate(old_registers, front.flatten(), last);
        parts.lemma_flatten_and_flatten_alt_are_equivalent();
        front.lemma_flatten_and_flatten_alt_are_equivalent();
        assert(parts.flatten() =~= front.flatten() + last);
    }
}

proof fn lemma_present_concat<A>(a: Seq<Option<A>>, b: Seq<Option<A>>)
    ensures
        optional::present(a + b) == optional::present(a) + optional::present(b),
    decreases b.len(),
{
    if b.len() == 0 {
        assert(a + b =~= a);
        assert(optional::present(a) + optional::present(b) =~= optional::present(a));
    } else {
        lemma_present_concat(a, b.drop_last());
        assert((a + b).drop_last() =~= a + b.drop_last());
        assert((a + b).last() == b.last());
        assert(optional::present(a + b) =~= optional::present(a) + optional::present(b));
    }
}

/// Updating with two columns one after the other is updating with one column that holds the
/// rows of both.
pub proof fn law_columns_concatenate<A>(
    old_registers: Seq<u8>,
    a: Seq<Option<A>>,
    b: Seq<Option<A>>,
    hash: spec_fn(A) -> u64,
)
    ensures
        accumulators::updated(accumulators::updated(old_registers, Some(a), hash), Some(b), hash)
            == accumulators::updated(old_registers, Some(a + b), hash),
{
    let x = optional::present(a).map_values(hash);
    let y = optional::present(b).map_values(hash);
    lemma_present_concat(a, b);
    law_batches_concatenate(old_registers, x, y);
    assert(optional::present(a + b).map_values(hash) =~= x + y);
}

/// An update depends on the set of values that are present in the column: nulls, order and
/// repetition do not matter.
pub proof fn law_update_depends_on_the_values_present<A>(
    old_registers: Seq<u8>,
    a: Seq<Option<A>>,
    b: Seq<Option<A>>,
    hash: spec_fn(A) -> u64,
)
    requires
        old_registers.len() == NUM_REGISTERS,
        optional::present(a).to_set() == optional::present(b).to_set(),
    ensures
        accumulators::updated(old_registers, Some(a), hash) == accumulators::updated(
            old_registers,
            Some(b),
            hash,
        ),
{
    let x = optional::present(a);
    let y = optional::present(b);
    x.lemma_to_set_map_commutes(hash);
    y.lemma_to_set_map_commutes(hash);
    law_order_and_repetition_do_not_matter(old_registers, x.map_values(hash), y.map_values(hash));
}

/// The set of a concatenation is the union of the sets.
proof fn lemma_set_of_concatenation<A>(x: Seq<A>, y: Seq<A>)
    ensures
        (x + y).to_set() == x.to_set().union(y.to_set()),
{
    assert forall|v: A| (x + y).contains(v) == (x.contains(v) || y.contains(v)) by {
        if x.contains(v) {
            let k = choose|k: int| 0 <= k < x.len() && x[k] == v;
            assert((x + y)[k] == v);
        }
        if y.contains(v) {
            let k = choose|k: int| 0 <= k < y.len() && y[k] == v;
            assert((x + y)[x.len() + k] == v);
        }
    }
    assert((x + y).to_set() =~= x.to_set().union(y.to_set()));
}

/// A repeated update changes nothing.
pub proof fn law_repeated_update_changes_nothing<A>(
    old_registers: Seq<u8>,
    rows: Seq<Option<A>>,
    hash: spec_fn(A) -> u64,
)
    requires
        old_registers.len() == NUM_REGISTERS,
    ensures
        accumulators::updated(
            accumulators::updated(old_registers, Some(rows), hash),
            Some(rows),
            hash,
        ) == accumulators::updated(old_registers, Some(rows), hash),
{
    law_columns_concatenate(old_registers, rows, rows, hash);
    lemma_present_concat(rows, rows);
    let x = optional::present(rows);
    lemma_set_of_concatenation(x, x);
    assert(x.to_set().union(x.to_set()) =~= x.to_set());
    law_update_depends_on_the_values_present(old_registers, rows + rows, rows, hash);
}

/// Strings in the view layout give the same sketch whether they come in one column or are
/// split over two, and whichever of the columns hold all their strings inline.
pub proof fn law_split_string_view_columns_match_one_column(
    old_registers: Seq<u8>,
    whole: ArrayRef,
    first: ArrayRef,
    second: ArrayRef,
)
    requires
        old_registers.len() == NUM_REGISTERS,
        accumulators::string_view_column(whole) is Some,
        accumulators::string_view_column(first) is Some,
        accumulators::string_view_column(second) is Some,
        optional::present(accumulators::string_view_column(whole)->Some_0).to_set()
            == optional::present(accumulators::string_view_column(first)->Some_0).to_set().union(
            optional::present(accumulators::string_view_column(second)->Some_0).to_set(),
        ),
    ensures
        accumulators::updated(
            accumulators::updated(
                old_registers,
                accumulators::string_view_column(first),
                |s: Seq<char>| accumulators::string_view_hash(s),
            ),
            accumulators::string_view_column(second),
            |s: Seq<char>| accumulators::string_view_hash(s),
        ) == accumulators::updated(
            old_registers,
            accumulators::string_view_column(whole),
            |s: Seq<char>| accumulators::string_view_hash(s),
        ),
{
    let hash = |s: Seq<char>| accumulators::string_view_hash(s);
    let a = accumulators::string_view_column(first)->Some_0;
    let b = accumulators::string_view_column(second)->Some_0;
    let w = accumulators::string_view_column(whole)->Some_0;
    law_columns_concatenate(old_registers, a, b, hash);
    lemma_present_concat(a, b);
    let x = optional::present(a);
    let y = optional::present(b);
    lemma_set_of_concatenation(x, y);
    law_update_depends_on_the_values_present(old_registers, a + b, w, hash);
}

/// The state of a sketch is well formed, and it is the state of no other sketch.
pub proof fn law_state_round_trip(value: ScalarValue, registers: Seq<u8>)
    requires
        registers.len() == NUM_REGISTERS,
        value.is_state(registers),
    ensures
        value.state_fault() is None,
        forall|other: Seq<u8>| #[trigger] value.is_state(other) ==> other == registers,
{
}

/// Merging one state into an accumulator that has seen nothing restores the registers, and
/// with them the estimate.
pub proof fn law_merging_a_state_restores_it(
    states: Seq<ArrayRef>,
    registers: Seq<u8>,
)
    requires
        registers.len() == NUM_REGISTERS,
        states.len() == 1,
        arrays::array_type(states[0]) == DataType::FixedSizeBinary(APPROX_DISTINCT_HLL_STATE_SIZE),
        accumulators::state_rows(states) == seq![Some(registers)],
    ensures
        accumulators::merge_fault(states) is None,
        accumulators::merged(registers::no_registers(), states) == registers,
        estimate::estimate(accumulators::merged(registers::no_registers(), states))
            == estimate::estimate(registers),
{
    let rows = seq![Some(registers)];
    optional::lemma_first_absent(rows, 1);
    assert(rows.take(1) =~= rows);
    assert(rows.take(0) =~= Seq::empty());
    optional::lemma_present_step(rows, 0);
    let states_present = optional::present(rows);
    assert(states_present =~= seq![registers]);
    assert(states_present.drop_last() =~= Seq::empty());
    law_join_is_a_semilattice(registers, registers, registers);
    assert(registers::join_all(registers::no_registers(), Seq::empty())
        == registers::no_registers());
}

/// Merging the states of accumulators that have each seen a part of the input gives the
/// registers of an accumulator that has seen the whole.
pub proof fn law_merging_states_gives_the_whole(
    old_registers: Seq<u8>,
    states: Seq<ArrayRef>,
    parts: Seq<Seq<u64>>,
)
    requires
        old_registers.len() == NUM_REGISTERS,
        accumulators::states_fault(states) is None,
        accumulators::state_rows(states).len() == parts.len(),
        forall|i: int|
            0 <= i < parts.len() ==> #[trigger] accumulators::state_rows(states)[i] == Some(
                registers::absorb_all(registers::no_registers(), parts[i]),
            ),
    ensures
        accumulators::merge_fault(states) is None,
        accumulators::merged(old_registers, states) == registers::absorb_all(
            old_registers,
            parts.flatten(),
        ),
{
    let rows = accumulators::state_rows(states);
    let sketches = parts.map_values(
        |part: Seq<u64>| registers::absorb_all(registers::no_registers(), part),
    );
    assert forall|j: int| 0 <= j < rows.len() implies #[trigger] rows[j] is Some by {
        assert(rows[j] == Some(registers::absorb_all(registers::no_registers(), parts[j])));
    }
    optional::lemma_first_absent(rows, rows.len() as int);
    assert(rows.take(rows.len() as int) =~= rows);
    lemma_all_present(rows, sketches);
    law_merging_parts_gives_the_whole(old_registers, parts, sketches);
}

proof fn lemma_all_present<A>(rows: Seq<Option<A>>, values: Seq<A>)
    requires
        rows.len() == values.len(),
        forall|i: int| 0 <= i < rows.len() ==> #[trigger] rows[i] == Some(values[i]),
    ensures
        optional::present(rows) == values,
    decreases rows.len(),
{
    if rows.len() > 0 {
        assert forall|i: int| 0 <= i < rows.len() - 1 implies #[trigger] rows.drop_last()[i]
            == Some(values.drop_last()[i]) by {
            assert(rows[i] == Some(values[i]));
        }
        lemma_all_present(rows.drop_last(), values.drop_last());
        assert(rows[rows.len() - 1] == Some(values[rows.len() - 1]));
        assert(optional::present(rows) =~= values);
    } else {
        assert(optional::present(rows) =~= values);
    }
}

/// The registers that come from hashes stay within the range of ranks, and joining keeps
/// them there.
pub proof fn law_ranks_stay_in_range(a: Seq<u8>, b: Seq<u8>, hashes: Seq<u64>)
    requires
        a.len() == NUM_REGISTERS,
        b.len() == NUM_REGISTERS,
        registers::ranks_in_range(a),
        registers::ranks_in_range(b),
    ensures
        registers::ranks_in_range(registers::no_registers()),
        registers::ranks_in_range(registers::absorb_all(a, hashes)),
        registers::ranks_in_range(registers::join(a, b)),
    decreases hashes.len(),
{
    law_registers_only_grow(a, hashes);
    if hashes.len() > 0 {
        law_ranks_stay_in_range(a, b, hashes.drop_last());
        law_registers_only_grow(a, hashes.drop_last());
        registers::lemma_rank_range(hashes.last());
    }
}

/// Merging the state of one counter of small integers into another gives the union of what
/// both have seen.
pub proof fn law_small_int_state_merges_to_the_union<A>(
    lists: Option<Seq<Option<Seq<A>>>>,
    source: Set<A>,
    target: Set<A>,
    place: spec_fn(A) -> int,
)
    requires
        small_int::lists_set(lists, source, place),
    ensures
        target.union(small_int::listed(lists->Some_0).to_set()) == target.union(source),
{
    let rows = lists->Some_0;
    let values = rows[0]->Some_0;
    assert(rows =~= seq![Some(values)]);
    lemma_all_present(rows, seq![values]);
    seq![values].lemma_flatten_one_element();
}

/// An accumulator for a type can read every column of that type: its updates with such columns
/// succeed. [`ApproxDistinct::accumulator`](crate::ApproxDistinct::accumulator) hands out, for
/// each type that it supports, an accumulator for that type.
pub proof fn law_accumulator_reads_columns_of_its_type(
    accumulator: ApproxDistinctAccumulator,
    data_type: DataType,
    array: ArrayRef,
)
    requires
        accumulator.is_for(data_type),
        schema::same_type(arrays::array_type(array), data_type),
    ensures
        accumulator.is_for(arrays::array_type(array)),
{
}

/// The state of an accumulator is one value of the type that the schema of the state gives, and
/// it is null only where the schema allows it.
pub proof fn law_state_fits_the_schema(
    accumulator: ApproxDistinctAccumulator,
    data_type: DataType,
    fields: Seq<Field>,
    name: Seq<char>,
    values: Seq<ScalarValue>,
)
    requires
        accumulator.is_for(data_type),
        accumulator.content().is_state(values),
        approx_distinct::is_state_schema(fields, name, data_type),
    ensures
        fields.len() == 1,
        values.len() == 1,
        values[0].has_type(fields[0].data_type),
        !fields[0].nullable ==> match values[0] {
            ScalarValue::FixedSizeBinary(_, bytes) => bytes is Some,
            ScalarValue::List(_) => true,
            _ => false,
        },
{
    if data_type.is_small_int() {
        let item = fields[0].data_type->List_0;
        let list = arrays::array_type(values[0]->List_0)->List_0;
        assert(schema::same_type(list.data_type, item.data_type));
    }
}

/// A merge succeeds on an array of the type that the schema of the state gives, unless a sketch
/// meets a null in it.
pub proof fn law_declared_states_are_merged(
    accumulator: ApproxDistinctAccumulator,
    data_type: DataType,
    fields: Seq<Field>,
    name: Seq<char>,
    array: ArrayRef,
    after: Content,
    r: Result<(), ApproxDistinctError>,
)
    requires
        accumulator.is_for(data_type),
        approx_distinct::is_state_schema(fields, name, data_type),
        schema::same_type(arrays::array_type(array), fields[0].data_type),
        accumulator.content() is Sketch ==> forall|i: int|
            0 <= i < accumulators::state_rows(seq![array]).len()
                ==> #[trigger] accumulators::state_rows(seq![array])[i] is Some,
        accumulator.content().merged(after, seq![array], r),
    ensures
        r is Ok,
{
    if accumulator.content() is Sketch {
        let rows = accumulators::state_rows(seq![array]);
        optional::lemma_first_absent(rows, rows.len() as int);
    } else if data_type.is_small_int() {
        let item = fields[0].data_type->List_0;
        let list = arrays::array_type(array)->List_0;
        assert(schema::same_type(list.data_type, item.data_type));
    }
}

/// Values in ascending order are given by their set.
proof fn lemma_one_ascending_order<A>(x: Seq<A>, y: Seq<A>, place: spec_fn(A) -> int)
    requires
        small_int::ascends(x, place),
        small_int::ascends(y, place),
        x.to_set() == y.to_set(),
    ensures
        x == y,
    decreases x.len(),
{
    assert forall|v: A| x.contains(v) == y.contains(v) by {
        assert(x.to_set().contains(v) == x.contains(v));
        assert(y.to_set().contains(v) == y.contains(v));
    }
    if x.len() == 0 {
        if y.len() > 0 {
            assert(y.contains(y[0]));
        }
        assert(x =~= y);
    } else {
        assert(x.contains(x[0]));
        let (a, b) = (x.drop_last(), y.drop_last());
        let m = x.len() - 1;
        let n = y.len() - 1;
        assert(x.contains(x[m]));
        assert(y.contains(y[n]));
        let k = choose|k: int| 0 <= k < y.len() && y[k] == x[m];
        let j = choose|j: int| 0 <= j < x.len() && x[j] == y[n];
        assert(k == n);
        assert forall|v: A| a.contains(v) == b.contains(v) by {
            if a.contains(v) {
                let i = choose|i: int| 0 <= i < a.len() && a[i] == v;
                assert(x[i] == v);
                assert(y.contains(v));
                let h = choose|h: int| 0 <= h < y.len() && y[h] == v;
                assert(h != n);
                assert(b[h] == v);
            }
            if b.contains(v) {
                let i = choose|i: int| 0 <= i < b.len() && b[i] == v;
                assert(y[i] == v);
                assert(x.contains(v));
                let h = choose|h: int| 0 <= h < x.len() && x[h] == v;
                assert(h != m);
                assert(a[h] == v);
            }
        }
        assert(a.to_set() =~= b.to_set());
        lemma_one_ascending_order(a, b, place);
        assert(x =~= a.push(x[m]));
        assert(y =~= b.push(y[n]));
    }
}

proof fn lemma_one_listing<A>(
    x: Seq<Option<Seq<A>>>,
    y: Seq<Option<Seq<A>>>,
    set: Set<A>,
    place: spec_fn(A) -> int,
)
    requires
        small_int::lists_set(Some(x), set, place),
        small_int::lists_set(Some(y), set, place),
    ensures
        x == y,
{
    lemma_one_ascending_order(x[0]->Some_0, y[0]->Some_0, place);
    assert(x =~= y);
}

/// The intermediate state is given by the content of an accumulator.
pub proof fn law_content_gives_the_state(
    content: Content,
    x: Seq<ScalarValue>,
    y: Seq<ScalarValue>,
)
    requires
        content.is_state(x),
        content.is_state(y),
    ensures
        x.len() == 1,
        y.len() == 1,
        content.same_state(x[0], y[0]),
{
    let (a, b) = (x[0]->List_0, y[0]->List_0);
    if x[0] is List {
        let item_a = arrays::array_type(a)->List_0;
        let item_b = arrays::array_type(b)->List_0;
        assert(schema::same_type(item_a.data_type, item_b.data_type));
    }
    match content {
        Content::UInt8(seen) => {
            lemma_one_listing(
                small_int::uint8_lists(a),
                small_int::uint8_lists(b),
                seen,
                |value: u8| BoolArray256DistinctCountAccumulator::place(value),
            );
        },
        Content::Int8(seen) => {
            lemma_one_listing(
                small_int::int8_lists(a),
                small_int::int8_lists(b),
                seen,
                |value: i8| BoolArray256DistinctCountAccumulatorI8::place(value),
            );
        },
        Content::UInt16(seen) => {
            lemma_one_listing(
                small_int::uint16_lists(a),
                small_int::uint16_lists(b),
                seen,
                |value: u16| Bitmap65536DistinctCountAccumulator::place(value),
            );
        },
        Content::Int16(seen) => {
            lemma_one_listing(
                small_int::int16_lists(a),
                small_int::int16_lists(b),
                seen,
                |value: i16| Bitmap65536DistinctCountAccumulatorI16::place(value),
            );
        },
        _ => {},
    }
}

/// A call of a method of an accumulator.
pub enum Call {
    Update(Seq<ArrayRef>),
    Merge(Seq<ArrayRef>),
    State,
    Evaluate,
    Size,
}

/// What a call returns.
pub enum Answer {
    Done(Result<(), ApproxDistinctError>),
    State(Result<Vec<ScalarValue>, ApproxDistinctError>),
    Count(Result<ScalarValue, ApproxDistinctError>),
    Bytes(usize),
}

/// A call on an accumulator leaves another one and returns an answer, as the contracts of the
/// methods say.
pub open spec fn performs(
    before: ApproxDistinctAccumulator,
    call: Call,
    after: ApproxDistinctAccumulator,
    answer: Answer,
) -> bool {
    &&& after.is_like(before)
    &&& match (call, answer) {
        (Call::Update(values), Answer::Done(r)) => before.takes(after.content(), values, r),
        (Call::Merge(states), Answer::Done(r)) => before.content().merged(
            after.content(),
            states,
            r,
        ),
        (Call::State, Answer::State(r)) => after.content() == before.content() && r is Ok
            && before.content().is_state(r->Ok_0@),
        (Call::Evaluate, Answer::Count(r)) => after.content() == before.content() && r == Ok::<
            ScalarValue,
            ApproxDistinctError,
        >(ScalarValue::UInt64(before.content().count())),
        (Call::Size, Answer::Bytes(bytes)) => after.content() == before.content() && bytes
            == before.footprint(),
        _ => false,
    }
}

/// Two answers of accumulators with the same content are the same.
pub open spec fn same_answer(content: Content, x: Answer, y: Answer) -> bool {
    match (x, y) {
        (Answer::Done(a), Answer::Done(b)) => error::same_outcome(a, b),
        (Answer::State(a), Answer::State(b)) => a is Ok && b is Ok && a->Ok_0@.len() == 1
            && b->Ok_0@.len() == 1 && content.same_state(a->Ok_0@[0], b->Ok_0@[0]),
        (Answer::Count(a), Answer::Count(b)) => a == b,
        (Answer::Bytes(a), Answer::Bytes(b)) => a == b,
        _ => false,
    }
}

/// New accumulators for one type are alike and have the same content.
pub proof fn law_new_accumulators_for_one_type_are_alike(
    a: ApproxDistinctAccumulator,
    b: ApproxDistinctAccumulator,
    data_type: DataType,
)
    requires
        a.is_new_for(data_type),
        b.is_new_for(data_type),
    ensures
        a.is_like(b),
        a.content() == b.content(),
{
}

/// Accumulators that are alike and have the same content answer a call alike, and they stay alike
/// with the same content.
pub proof fn law_alike_accumulators_answer_alike(
    a: ApproxDistinctAccumulator,
    b: ApproxDistinctAccumulator,
    call: Call,
    after_a: ApproxDistinctAccumulator,
    after_b: ApproxDistinctAccumulator,
    answer_a: Answer,
    answer_b: Answer,
)
    requires
        a.is_like(b),
        a.content() == b.content(),
        performs(a, call, after_a, answer_a),
        performs(b, call, after_b, answer_b),
    ensures
        after_a.is_like(after_b),
        after_a.content() == after_b.content(),
        same_answer(a.content(), answer_a, answer_b),
{
    assert forall|data_type: DataType| #[trigger]
        after_a.is_for(data_type) == after_b.is_for(data_type) by {
        assert(a.is_for(data_type) == b.is_for(data_type));
    }
    match call {
        Call::Update(values) => {
            assert(a.is_for(arrays::array_type(values[0])) == b.is_for(
                arrays::array_type(values[0]),
            ));
        },
        Call::State => {
            law_content_gives_the_state(
                a.content(),
                answer_a->State_0->Ok_0@,
                answer_b->State_0->Ok_0@,
            );
        },
        _ => {},
    }
}

/// Two new accumulators for one type give the same answers to the same calls.
pub proof fn law_accumulators_for_one_type_agree(
    data_type: DataType,
    calls: Seq<Call>,
    a: Seq<ApproxDistinctAccumulator>,
    b: Seq<ApproxDistinctAccumulator>,
    answers_a: Seq<Answer>,
    answers_b: Seq<Answer>,
)
    requires
        a.len() == calls.len() + 1,
        b.len() == calls.len() + 1,
        answers_a.len() == calls.len(),
        answers_b.len() == calls.len(),
        a[0].is_new_for(data_type),
        b[0].is_new_for(data_type),
        forall|i: int|
            0 <= i < calls.len() ==> performs(a[i], #[trigger] calls[i], a[i + 1], answers_a[i]),
        forall|i: int|
            0 <= i < calls.len() ==> performs(b[i], #[trigger] calls[i], b[i + 1], answers_b[i]),
    ensures
        forall|i: int|
            0 <= i < calls.len() ==> same_answer(
                #[trigger] a[i].content(),
                answers_a[i],
                answers_b[i],
            ),
        a.last().is_like(b.last()),
        a.last().content() == b.last().content(),
    decreases calls.len(),
{
    if calls.len() == 0 {
        law_new_accumulators_for_one_type_are_alike(a[0], b[0], data_type);
    } else {
        let n = calls.len() - 1;
        let front = calls.drop_last();
        assert forall|i: int| 0 <= i < front.len() implies performs(
            a.drop_last()[i],
            #[trigger] front[i],
            a.drop_last()[i + 1],
            answers_a.drop_last()[i],
        ) by {
            assert(performs(a[i], calls[i], a[i + 1], answers_a[i]));
        }
        assert forall|i: int| 0 <= i < front.len() implies performs(
            b.drop_last()[i],
            #[trigger] front[i],
            b.drop_last()[i + 1],
            answers_b.drop_last()[i],
        ) by {
            assert(performs(b[i], calls[i], b[i + 1], answers_b[i]));
        }
        law_accumulators_for_one_type_agree(
            data_type,
            front,
            a.drop_last(),
            b.drop_last(),
            answers_a.drop_last(),
            answers_b.drop_last(),
        );
        assert(performs(a[n], calls[n], a[n + 1], answers_a[n]));
        assert(performs(b[n], calls[n], b[n + 1], answers_b[n]));
        law_alike_accumulators_answer_alike(
            a[n],
            b[n],
            calls[n],
            a[n + 1],
            b[n + 1],
            answers_a[n],
            answers_b[n],
        );
        assert forall|i: int| 0 <= i < calls.len() implies same_answer(
            #[trigger] a[i].content(),
            answers_a[i],
            answers_b[i],
        ) by {
            if i < n {
                assert(same_answer(
                    a.drop_last()[i].content(),
                    answers_a.drop_last()[i],
                    answers_b.drop_last()[i],
                ));
            }
        }
    }
}

} // verus!
