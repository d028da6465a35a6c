//! What an accumulator has taken in after each call, and what it answers.

use arrow::datatypes::{
    Date32Type, Date64Type, Int32Type, Int64Type, Time32MillisecondType, Time32SecondType,
    Time64MicrosecondType, Time64NanosecondType, TimestampMicrosecondType,
    TimestampMillisecondType, TimestampNanosecondType, TimestampSecondType, UInt32Type, UInt64Type,
};
use datafusion_functions_aggregate_common::aggregate::count_distinct::{
    Bitmap65536DistinctCountAccumulator, Bitmap65536DistinctCountAccumulatorI16,
    BoolArray256DistinctCountAccumulator, BoolArray256DistinctCountAccumulatorI8,
};
use datafusion_functions_aggregate_common::noop_accumulator::NoopAccumulator;
use vstd::prelude::*;
use crate::accumulator;
use crate::accumulator::{ApproxDistinctAccumulator, Content};
use crate::accumulators;
use crate::accumulators::{
    BinaryHLLAccumulator, NumericHLLAccumulator, StringHLLAccumulator, StringViewHLLAccumulator,
};
use crate::arrays;
use crate::arrays::ArrayRef;
use crate::error;
use crate::error::ApproxDistinctError;
use crate::estimate;
use crate::optional;
use crate::plan_laws;
use crate::scalar::ScalarValue;
use crate::schema::DataType;
use crate::sketch_laws;
use crate::sketch_laws::offers;
use crate::small_int;
use crate::small_int::DistinctCounter;

verus! {

proof fn lemma_values_added<A>(before: Set<A>, rows: Seq<Option<A>>, value: A)
    ensures
        before.union(optional::present(rows).to_set()).contains(value) <==> before.contains(value)
            || rows.contains(Some(value)),
{
    sketch_laws::law_present_values_are_those_in_rows(rows);
    let values = optional::present(rows);
    assert(values.to_set().contains(value) == values.contains(value));
}

/// After a column of its type a counter has seen what it had seen and the values in the rows.
pub proof fn law_a_counter_sees_every_value(
    array: ArrayRef,
    uint8_before: Set<u8>,
    uint8: u8,
    int8_before: Set<i8>,
    int8: i8,
    uint16_before: Set<u16>,
    uint16: u16,
    int16_before: Set<i16>,
    int16: i16,
)
    ensures
        Content::UInt8(uint8_before).updated(array) matches Content::UInt8(seen) && (
            seen.contains(uint8) <==> uint8_before.contains(uint8) || small_int::uint8_rows(
                array,
            ).contains(Some(uint8))
        ),
        Content::Int8(int8_before).updated(array) matches Content::Int8(seen) && (
            seen.contains(int8) <==> int8_before.contains(int8) || small_int::int8_rows(
                array,
            ).contains(Some(int8))
        ),
        Content::UInt16(uint16_before).updated(array) matches Content::UInt16(seen) && (
            seen.contains(uint16) <==> uint16_before.contains(uint16) || small_int::uint16_rows(
                array,
            ).contains(Some(uint16))
        ),
        Content::Int16(int16_before).updated(array) matches Content::Int16(seen) && (
            seen.contains(int16) <==> int16_before.contains(int16) || small_int::int16_rows(
                array,
            ).contains(Some(int16))
        ),
{
    lemma_values_added(uint8_before, small_int::uint8_rows(array), uint8);
    lemma_values_added(int8_before, small_int::int8_rows(array), int8);
    lemma_values_added(uint16_before, small_int::uint16_rows(array), uint16);
    lemma_values_added(int16_before, small_int::int16_rows(array), int16);
}

/// After a column of its type each register of an accumulator is the greatest of what it was and
/// of the ranks that the hashes of the column offer to it. An accumulator that ignores its input
/// stays as it is.
pub proof fn law_a_sketch_takes_every_hash(
    array: ArrayRef,
    before: Seq<u8>,
    i: int,
    value: Option<Option<u64>>,
)
    requires
        before.len() == 16384,
        0 <= i < 16384,
    ensures
        Content::Constant(value).updated(array) == Content::Constant(value),
        Content::Sketch(before).updated(array) matches Content::Sketch(after) && {
            let hashes = accumulator::column_hashes(array);
            &&& after.len() == 16384
            &&& after[i] >= before[i]
            &&& forall|k: int, v: int|
                0 <= k < hashes.len() && #[trigger] offers(hashes[k], i, v) ==> after[i] >= v
            &&& after[i] == before[i] || exists|k: int|
                0 <= k < hashes.len() && #[trigger] offers(hashes[k], i, after[i] as int)
        },
{
    sketch_laws::law_a_register_is_the_greatest_offer(
        before,
        accumulator::column_hashes(array),
        i,
    );
}

/// A counter that merges a column of lists has seen what it had seen and the values in the lists.
/// Without a column nothing changes. A column that cannot be read is an error, and changes nothing.
pub proof fn law_a_counter_merges_every_list<A: DistinctCounter>(
    before: Set<A::Value>,
    after: Set<A::Value>,
    states: Seq<ArrayRef>,
    r: Result<(), ApproxDistinctError>,
    value: A::Value,
)
    requires
        accumulator::counter_merged::<A>(before, after, states, r),
    ensures
        r is Ok <==> states.len() == 0 || A::lists(states[0]) is Some,
        r is Err ==> r->Err_0 is Outside && after == before,
        states.len() == 0 ==> after == before,
        states.len() > 0 && A::lists(states[0]) is Some ==> {
            let lists = A::lists(states[0])->Some_0;
            after.contains(value) <==> before.contains(value) || exists|k: int|
                0 <= k < lists.len() && lists[k] is Some && #[trigger] lists[k]->Some_0.contains(
                    value,
                )
        },
{
    if states.len() > 0 && A::lists(states[0]) is Some {
        let lists = A::lists(states[0])->Some_0;
        plan_laws::law_listed_values_are_those_in_lists(lists, value);
        let listed = small_int::listed(lists);
        assert(listed.to_set().contains(value) == listed.contains(value));
    }
}

/// Which merge an accumulator performs: sketches join sketches, counters take in lists, and an
/// accumulator that ignores its input stays as it is.
pub proof fn law_what_a_merge_does(
    before: Content,
    after: Content,
    states: Seq<ArrayRef>,
    r: Result<(), ApproxDistinctError>,
)
    requires
        before.merged(after, states, r),
    ensures
        before matches Content::Sketch(registers) ==> after == Content::Sketch(
            accumulators::merged(registers, states),
        ) && (r is Ok <==> accumulators::merge_fault(states) is None) && (r is Err ==> r->Err_0
            is Internal),
        before matches Content::UInt8(seen) ==> after is UInt8 && accumulator::counter_merged::<
            BoolArray256DistinctCountAccumulator,
        >(seen, after->UInt8_0, states, r),
        before matches Content::Int8(seen) ==> after is Int8 && accumulator::counter_merged::<
            BoolArray256DistinctCountAccumulatorI8,
        >(seen, after->Int8_0, states, r),
        before matches Content::UInt16(seen) ==> after is UInt16 && accumulator::counter_merged::<
            Bitmap65536DistinctCountAccumulator,
        >(seen, after->UInt16_0, states, r),
        before matches Content::Int16(seen) ==> after is Int16 && accumulator::counter_merged::<
            Bitmap65536DistinctCountAccumulatorI16,
        >(seen, after->Int16_0, states, r),
        before is Constant ==> r is Ok && after == before,
{
}

/// A counter of small integers evaluates to the number of values that it has seen, and a sketch to
/// the estimate of its registers.
pub proof fn law_what_an_accumulator_counts(
    registers: Seq<u8>,
    value: Option<u64>,
    uint8: Set<u8>,
    int8: Set<i8>,
    uint16: Set<u16>,
    int16: Set<i16>,
)
    ensures
        Content::Sketch(registers).count() == Some(estimate::estimate(registers)),
        Content::UInt8(uint8).count() == Some(uint8.len() as u64),
        Content::Int8(int8).count() == Some(int8.len() as u64),
        Content::UInt16(uint16).count() == Some(uint16.len() as u64),
        Content::Int16(int16).count() == Some(int16.len() as u64),
        Content::Constant(Some(value)).count() == value,
{
}

/// The state of a counter is one list that holds each value seen once, in ascending order of the
/// values read as unsigned. The state of a sketch is its registers, that of an accumulator that
/// ignores its input a null.
pub proof fn law_what_a_state_is(content: Content, values: Seq<ScalarValue>)
    requires
        content.is_state(values),
    ensures
        values.len() == 1,
        content matches Content::Sketch(registers) ==> {
            &&& values[0] matches ScalarValue::FixedSizeBinary(width, Some(bytes))
            &&& width == 16384
            &&& bytes@ == registers
        },
        content is Constant ==> values[0] is Null,
        content matches Content::UInt8(seen) ==> {
            &&& values[0] matches ScalarValue::List(list)
            &&& arrays::array_type(list) matches DataType::List(item) && item.data_type is UInt8
            &&& small_int::uint8_lists(list).len() == 1
            &&& small_int::uint8_lists(list)[0] matches Some(listed)
            &&& forall|value: u8| #[trigger] listed.contains(value) <==> seen.contains(value)
            &&& forall|i: int, j: int|
                0 <= i < j < listed.len() ==> ((#[trigger] listed[i]) as int) < ((
                #[trigger] listed[j]) as int)
        },
        content matches Content::Int8(seen) ==> {
            &&& values[0] matches ScalarValue::List(list)
            &&& arrays::array_type(list) matches DataType::List(item) && item.data_type is Int8
            &&& small_int::int8_lists(list).len() == 1
            &&& small_int::int8_lists(list)[0] matches Some(listed)
            &&& forall|value: i8| #[trigger] listed.contains(value) <==> seen.contains(value)
            &&& forall|i: int, j: int|
                0 <= i < j < listed.len() ==> ((#[trigger] listed[i]) as int % 0x100) < ((
                #[trigger] listed[j]) as int % 0x100)
        },
        content matches Content::UInt16(seen) ==> {
            &&& values[0] matches ScalarValue::List(list)
            &&& arrays::array_type(list) matches DataType::List(item) && item.data_type is UInt16
            &&& small_int::uint16_lists(list).len() == 1
            &&& small_int::uint16_lists(list)[0] matches Some(listed)
            &&& forall|value: u16| #[trigger] listed.contains(value) <==> seen.contains(value)
            &&& forall|i: int, j: int|
                0 <= i < j < listed.len() ==> ((#[trigger] listed[i]) as int) < ((
                #[trigger] listed[j]) as int)
        },
        content matches Content::Int16(seen) ==> {
            &&& values[0] matches ScalarValue::List(list)
            &&& arrays::array_type(list) matches DataType::List(item) && item.data_type is Int16
            &&& small_int::int16_lists(list).len() == 1
            &&& small_int::int16_lists(list)[0] matches Some(listed)
            &&& forall|value: i16| #[trigger] listed.contains(value) <==> seen.contains(value)
            &&& forall|i: int, j: int|
                0 <= i < j < listed.len() ==> ((#[trigger] listed[i]) as int % 0x1_0000) < ((
                #[trigger] listed[j]) as int % 0x1_0000)
        },
{
    match content {
        Content::UInt8(seen) => {
            let listed = small_int::uint8_lists(values[0]->List_0)[0]->Some_0;
            assert forall|value: u8| #[trigger] listed.contains(value) <==> seen.contains(
                value,
            ) by {
                assert(listed.to_set().contains(value) == listed.contains(value));
            }
            let place = |value: u8| BoolArray256DistinctCountAccumulator::place(value);
            assert(small_int::ascends(listed, place));
            assert forall|i: int, j: int| 0 <= i < j < listed.len() implies ((
            #[trigger] listed[i]) as int) < ((#[trigger] listed[j]) as int) by {
                assert(place(listed[i]) < place(listed[j]));
            }
        },
        Content::Int8(seen) => {
            let listed = small_int::int8_lists(values[0]->List_0)[0]->Some_0;
            assert forall|value: i8| #[trigger] listed.contains(value) <==> seen.contains(
                value,
            ) by {
                assert(listed.to_set().contains(value) == listed.contains(value));
            }
            let place = |value: i8| BoolArray256DistinctCountAccumulatorI8::place(value);
            assert(small_int::ascends(listed, place));
            assert forall|i: int, j: int| 0 <= i < j < listed.len() implies ((
            #[trigger] listed[i]) as int % 0x100) < ((#[trigger] listed[j]) as int % 0x100) by {
                assert(place(listed[i]) < place(listed[j]));
            }
        },
        Content::UInt16(seen) => {
            let listed = small_int::uint16_lists(values[0]->List_0)[0]->Some_0;
            assert forall|value: u16| #[trigger] listed.contains(value) <==> seen.contains(
                value,
            ) by {
                assert(listed.to_set().contains(value) == listed.contains(value));
            }
            let place = |value: u16| Bitmap65536DistinctCountAccumulator::place(value);
            assert(small_int::ascends(listed, place));
            assert forall|i: int, j: int| 0 <= i < j < listed.len() implies ((
            #[trigger] listed[i]) as int) < ((#[trigger] listed[j]) as int) by {
                assert(place(listed[i]) < place(listed[j]));
            }
        },
        Content::Int16(seen) => {
            let listed = small_int::int16_lists(values[0]->List_0)[0]->Some_0;
            assert forall|value: i16| #[trigger] listed.contains(value) <==> seen.contains(
                value,
            ) by {
                assert(listed.to_set().contains(value) == listed.contains(value));
            }
            let place = |value: i16| Bitmap65536DistinctCountAccumulatorI16::place(value);
            assert(small_int::ascends(listed, place));
            assert forall|i: int, j: int| 0 <= i < j < listed.len() implies ((
            #[trigger] listed[i]) as int % 0x1_0000) < ((
            #[trigger] listed[j]) as int % 0x1_0000) by {
                assert(place(listed[i]) < place(listed[j]));
            }
        },
        _ => {},
    }
}

/// The memory of an accumulator is that of the type that it is made of. A counter adds the memory
/// of the values that it may see.
pub proof fn law_the_memory_of_an_accumulator(accumulator: ApproxDistinctAccumulator)
    ensures
        match accumulator {
            ApproxDistinctAccumulator::UInt8(_) => accumulator.footprint()
                == vstd::layout::size_of::<BoolArray256DistinctCountAccumulator>() + 256,
            ApproxDistinctAccumulator::Int8(_) => accumulator.footprint()
                == vstd::layout::size_of::<BoolArray256DistinctCountAccumulatorI8>() + 256,
            ApproxDistinctAccumulator::UInt16(_) => accumulator.footprint()
                == vstd::layout::size_of::<Bitmap65536DistinctCountAccumulator>() + 8192,
            ApproxDistinctAccumulator::Int16(_) => accumulator.footprint()
                == vstd::layout::size_of::<Bitmap65536DistinctCountAccumulatorI16>() + 8192,
            ApproxDistinctAccumulator::UInt32(_) => accumulator.footprint()
                == vstd::layout::size_of::<NumericHLLAccumulator<UInt32Type>>(),
            ApproxDistinctAccumulator::UInt64(_) => accumulator.footprint()
                == vstd::layout::size_of::<NumericHLLAccumulator<UInt64Type>>(),
            ApproxDistinctAccumulator::Int32(_) => accumulator.footprint()
                == vstd::layout::size_of::<NumericHLLAccumulator<Int32Type>>(),
            ApproxDistinctAccumulator::Int64(_) => accumulator.footprint()
                == vstd::layout::size_of::<NumericHLLAccumulator<Int64Type>>(),
            ApproxDistinctAccumulator::Date32(_) => accumulator.footprint()
                == vstd::layout::size_of::<NumericHLLAccumulator<Date32Type>>(),
            ApproxDistinctAccumulator::Date64(_) => accumulator.footprint()
                == vstd::layout::size_of::<NumericHLLAccumulator<Date64Type>>(),
            ApproxDistinctAccumulator::Time32Second(_) => accumulator.footprint()
                == vstd::layout::size_of::<NumericHLLAccumulator<Time32SecondType>>(),
            ApproxDistinctAccumulator::Time32Millisecond(_) => accumulator.footprint()
                == vstd::layout::size_of::<NumericHLLAccumulator<Time32MillisecondType>>(),
            ApproxDistinctAccumulator::Time64Microsecond(_) => accumulator.footprint()
                == vstd::layout::size_of::<NumericHLLAccumulator<Time64MicrosecondType>>(),
            ApproxDistinctAccumulator::Time64Nanosecond(_) => accumulator.footprint()
                == vstd::layout::size_of::<NumericHLLAccumulator<Time64NanosecondType>>(),
            ApproxDistinctAccumulator::TimestampSecond(_) => accumulator.footprint()
                == vstd::layout::size_of::<NumericHLLAccumulator<TimestampSecondType>>(),
            ApproxDistinctAccumulator::TimestampMillisecond(_) => accumulator.footprint()
                == vstd::layout::size_of::<NumericHLLAccumulator<TimestampMillisecondType>>(),
            ApproxDistinctAccumulator::TimestampMicrosecond(_) => accumulator.footprint()
                == vstd::layout::size_of::<NumericHLLAccumulator<TimestampMicrosecondType>>(),
            ApproxDistinctAccumulator::TimestampNanosecond(_) => accumulator.footprint()
                == vstd::layout::size_of::<NumericHLLAccumulator<TimestampNanosecondType>>(),
            ApproxDistinctAccumulator::Utf8(_) => accumulator.footprint()
                == vstd::layout::size_of::<StringHLLAccumulator<i32>>(),
            ApproxDistinctAccumulator::LargeUtf8(_) => accumulator.footprint()
                == vstd::layout::size_of::<StringHLLAccumulator<i64>>(),
            ApproxDistinctAccumulator::Utf8View(_) => accumulator.footprint()
                == vstd::layout::size_of::<StringViewHLLAccumulator>(),
            ApproxDistinctAccumulator::Binary(_) => accumulator.footprint()
                == vstd::layout::size_of::<BinaryHLLAccumulator<i32>>(),
            ApproxDistinctAccumulator::LargeBinary(_) => accumulator.footprint()
                == vstd::layout::size_of::<BinaryHLLAccumulator<i64>>(),
            ApproxDistinctAccumulator::Null(_) => accumulator.footprint()
                == vstd::layout::size_of::<NoopAccumulator>(),
        },
{
}

/// An operation that owes success succeeds, and one that owes a message fails with it.
pub proof fn law_what_is_owed<A>(
    result: Result<A, ApproxDistinctError>,
    message: Option<Seq<char>>,
)
    requires
        error::succeeds_unless(result, message),
    ensures
        result is Ok <==> message is None,
        result matches Err(e) ==> e is Internal && message == Some(e->Internal_0@),
{
}

} // verus!
