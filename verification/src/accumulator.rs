//! The accumulators of the aggregate, under one type.

use arrow::datatypes::{
    Date32Type, Date64Type, Int32Type, Int64Type, Time32MillisecondType, Time32SecondType,
    Time64MicrosecondType, Time64NanosecondType, TimestampMicrosecondType,
    TimestampMillisecondType, TimestampNanosecondType, TimestampSecondType, UInt32Type, UInt64Type,
};
use datafusion_common::DataFusionError;
use datafusion_expr::Accumulator;
use datafusion_functions_aggregate_common::aggregate::count_distinct::{
    Bitmap65536DistinctCountAccumulator, Bitmap65536DistinctCountAccumulatorI16,
    BoolArray256DistinctCountAccumulator, BoolArray256DistinctCountAccumulatorI8,
};
use datafusion_functions_aggregate_common::noop_accumulator::NoopAccumulator;
use vstd::prelude::*;
use crate::accumulators;
use crate::accumulators::{
    BinaryHLLAccumulator, NumericHLLAccumulator, StringHLLAccumulator, StringViewHLLAccumulator,
};
use crate::arrays;
use crate::arrays::{ArrayRef, NumericType};
use crate::error;
use crate::error::ApproxDistinctError;
use crate::estimate;
use crate::hashing;
use crate::hashing::HllValue;
use crate::optional;
use crate::registers;
use crate::scalar::ScalarValue;
use crate::schema;
use crate::schema::{DataType, TimeUnit};
use crate::small_int;
use crate::small_int::{ApproxDistinctBitmapWrapper, DistinctCounter};

verus! {

/// An accumulator that ignores its input.
#[verifier::external_type_specification]
#[verifier::external_body]
pub struct ExNoopAccumulator(NoopAccumulator);

/// The number that a [`NoopAccumulator`] evaluates to, which may be null; `None` where it
/// evaluates to a value of another type.
pub uninterp spec fn noop_value(accumulator: NoopAccumulator) -> Option<Option<u64>>;

/// Calls `NoopAccumulator::new` with a number. Trusted: that number is what the accumulator
/// evaluates to.
#[verifier::external_body]
pub(crate) fn noop_accumulator(value: Option<u64>) -> (accumulator: NoopAccumulator)
    ensures
        noop_value(accumulator) == Some(value),
{
    NoopAccumulator::new(datafusion_common::ScalarValue::UInt64(value))
}

/// Calls `Accumulator::update_batch`. Trusted: it succeeds and changes nothing.
#[verifier::external_body]
fn update_noop(accumulator: &mut NoopAccumulator, values: &[ArrayRef]) -> (r: Result<
    (),
    DataFusionError,
>)
    ensures
        r is Ok,
        noop_value(*final(accumulator)) == noop_value(*old(accumulator)),
{
    let columns: Vec<_> = values.iter().map(|column| column.array.clone()).collect();
    accumulator.update_batch(&columns)
}

/// Calls `Accumulator::merge_batch`. Trusted: it succeeds and changes nothing.
#[verifier::external_body]
fn merge_noop(accumulator: &mut NoopAccumulator, states: &[ArrayRef]) -> (r: Result<
    (),
    DataFusionError,
>)
    ensures
        r is Ok,
        noop_value(*final(accumulator)) == noop_value(*old(accumulator)),
{
    let columns: Vec<_> = states.iter().map(|column| column.array.clone()).collect();
    accumulator.merge_batch(&columns)
}

/// Calls `Accumulator::evaluate`. Trusted: the result is the number that the accumulator was
/// made with. Accumulators that were made with a value of another type are left out.
#[verifier::external_body]
fn evaluate_noop(accumulator: &mut NoopAccumulator) -> (r: Result<ScalarValue, DataFusionError>)
    requires
        noop_value(*old(accumulator)) is Some,
    ensures
        r == Ok::<ScalarValue, DataFusionError>(
            ScalarValue::UInt64(noop_value(*old(accumulator))->Some_0),
        ),
        noop_value(*final(accumulator)) == noop_value(*old(accumulator)),
{
    match accumulator.evaluate()? {
        datafusion_common::ScalarValue::UInt64(value) => Ok(ScalarValue::UInt64(value)),
        datafusion_common::ScalarValue::Null => Ok(ScalarValue::Null),
        other => Ok(ScalarValue::Other(other.to_string())),
    }
}

/// Calls `Accumulator::state`. Trusted: the state is one null, of the type of nulls.
#[verifier::external_body]
fn state_noop(accumulator: &mut NoopAccumulator) -> (r: Result<Vec<ScalarValue>, DataFusionError>)
    ensures
        r is Ok,
        r->Ok_0@ == seq![ScalarValue::Null],
        noop_value(*final(accumulator)) == noop_value(*old(accumulator)),
{
    let state = accumulator.state()?.into_iter().map(|value| match value {
        datafusion_common::ScalarValue::Null => ScalarValue::Null,
        other => ScalarValue::Other(other.to_string()),
    });
    Ok(state.collect())
}

/// Calls `Accumulator::size`. Trusted: the result is the size of the type.
#[verifier::external_body]
fn size_noop(accumulator: &NoopAccumulator) -> (bytes: usize)
    ensures
        bytes == vstd::layout::size_of::<NoopAccumulator>(),
{
    accumulator.size()
}

/// The accumulators of the aggregate, one variant for each type of column.
#[derive(Debug)]
pub enum ApproxDistinctAccumulator {
    UInt8(ApproxDistinctBitmapWrapper<BoolArray256DistinctCountAccumulator>),
    Int8(ApproxDistinctBitmapWrapper<BoolArray256DistinctCountAccumulatorI8>),
    UInt16(ApproxDistinctBitmapWrapper<Bitmap65536DistinctCountAccumulator>),
    Int16(ApproxDistinctBitmapWrapper<Bitmap65536DistinctCountAccumulatorI16>),
    UInt32(Box<NumericHLLAccumulator<UInt32Type>>),
    UInt64(Box<NumericHLLAccumulator<UInt64Type>>),
    Int32(Box<NumericHLLAccumulator<Int32Type>>),
    Int64(Box<NumericHLLAccumulator<Int64Type>>),
    Date32(Box<NumericHLLAccumulator<Date32Type>>),
    Date64(Box<NumericHLLAccumulator<Date64Type>>),
    Time32Second(Box<NumericHLLAccumulator<Time32SecondType>>),
    Time32Millisecond(Box<NumericHLLAccumulator<Time32MillisecondType>>),
    Time64Microsecond(Box<NumericHLLAccumulator<Time64MicrosecondType>>),
    Time64Nanosecond(Box<NumericHLLAccumulator<Time64NanosecondType>>),
    TimestampSecond(Box<NumericHLLAccumulator<TimestampSecondType>>),
    TimestampMillisecond(Box<NumericHLLAccumulator<TimestampMillisecondType>>),
    TimestampMicrosecond(Box<NumericHLLAccumulator<TimestampMicrosecondType>>),
    TimestampNanosecond(Box<NumericHLLAccumulator<TimestampNanosecondType>>),
    Utf8(Box<StringHLLAccumulator<i32>>),
    LargeUtf8(Box<StringHLLAccumulator<i64>>),
    Utf8View(Box<StringViewHLLAccumulator>),
    Binary(Box<BinaryHLLAccumulator<i32>>),
    LargeBinary(Box<BinaryHLLAccumulator<i64>>),
    Null(NoopAccumulator),
}

/// What an accumulator has taken in.
pub enum Content {
    /// The registers of a sketch.
    Sketch(Seq<u8>),
    /// The values seen.
    UInt8(Set<u8>),
    /// The values seen.
    Int8(Set<i8>),
    /// The values seen.
    UInt16(Set<u16>),
    /// The values seen.
    Int16(Set<i16>),
    /// Nothing: the accumulator evaluates to one number, where it is given.
    Constant(Option<Option<u64>>),
}

/// The hashes of the values that are present in a column of numbers.
pub open spec fn numeric_hashes<T: NumericType>(rows: Seq<Option<T::Native>>) -> Seq<u64> {
    optional::present(rows).map_values(|value: T::Native| value.hash_spec())
}

/// The hashes of the strings that are present in a column of strings.
pub open spec fn string_hashes(rows: Seq<Option<Seq<char>>>) -> Seq<u64> {
    optional::present(rows).map_values(
        |value: Seq<char>| hashing::str_hash_on(hashing::build_target(), value),
    )
}

/// The hashes of the strings that are present in a column of string views.
pub open spec fn string_view_hashes(rows: Seq<Option<Seq<char>>>) -> Seq<u64> {
    optional::present(rows).map_values(|value: Seq<char>| accumulators::string_view_hash(value))
}

/// The hashes of the byte strings that are present in a column of byte strings.
pub open spec fn binary_hashes(rows: Seq<Option<Seq<u8>>>) -> Seq<u64> {
    optional::present(rows).map_values(
        |value: Seq<u8>| hashing::bytes_hash_on(hashing::build_target(), value),
    )
}

/// The hashes that a column feeds to a sketch, by its type.
pub open spec fn column_hashes(array: ArrayRef) -> Seq<u64> {
    match arrays::array_type(array) {
        DataType::UInt32 => numeric_hashes::<UInt32Type>(arrays::uint32_rows(array)),
        DataType::UInt64 => numeric_hashes::<UInt64Type>(arrays::uint64_rows(array)),
        DataType::Int32 => numeric_hashes::<Int32Type>(arrays::int32_rows(array)),
        DataType::Int64 => numeric_hashes::<Int64Type>(arrays::int64_rows(array)),
        DataType::Date32 => numeric_hashes::<Date32Type>(arrays::date32_rows(array)),
        DataType::Date64 => numeric_hashes::<Date64Type>(arrays::date64_rows(array)),
        DataType::Time32(TimeUnit::Second) => numeric_hashes::<Time32SecondType>(
            arrays::time32_second_rows(array),
        ),
        DataType::Time32(TimeUnit::Millisecond) => numeric_hashes::<Time32MillisecondType>(
            arrays::time32_millisecond_rows(array),
        ),
        DataType::Time64(TimeUnit::Microsecond) => numeric_hashes::<Time64MicrosecondType>(
            arrays::time64_microsecond_rows(array),
        ),
        DataType::Time64(TimeUnit::Nanosecond) => numeric_hashes::<Time64NanosecondType>(
            arrays::time64_nanosecond_rows(array),
        ),
        DataType::Timestamp(TimeUnit::Second, _) => numeric_hashes::<TimestampSecondType>(
            arrays::timestamp_second_rows(array),
        ),
        DataType::Timestamp(TimeUnit::Millisecond, _) => numeric_hashes::<TimestampMillisecondType>(
            arrays::timestamp_millisecond_rows(array),
        ),
        DataType::Timestamp(TimeUnit::Microsecond, _) => numeric_hashes::<TimestampMicrosecondType>(
            arrays::timestamp_microsecond_rows(array),
        ),
        DataType::Timestamp(TimeUnit::Nanosecond, _) => numeric_hashes::<TimestampNanosecondType>(
            arrays::timestamp_nanosecond_rows(array),
        ),
        DataType::Utf8 => string_hashes(arrays::string_rows(array)),
        DataType::LargeUtf8 => string_hashes(arrays::large_string_rows(array)),
        DataType::Utf8View => string_view_hashes(
            arrays::string_view_rows(arrays::string_view(array)),
        ),
        DataType::Binary => binary_hashes(arrays::binary_rows(array)),
        DataType::LargeBinary => binary_hashes(arrays::large_binary_rows(array)),
        _ => Seq::empty(),
    }
}

/// The values that a counter has seen after merging a list of state arrays, and whether the
/// first of them can be read.
pub open spec fn merged_values<A: DistinctCounter>(
    seen: Set<A::Value>,
    states: Seq<ArrayRef>,
) -> Option<Set<A::Value>> {
    if states.len() == 0 {
        Some(seen)
    } else {
        match A::lists(states[0]) {
            Some(lists) => Some(seen.union(small_int::listed(lists).to_set())),
            None => None,
        }
    }
}

/// What a merge into a counter reports and leaves.
pub open spec fn counter_merged<A: DistinctCounter>(
    before: Set<A::Value>,
    after: Set<A::Value>,
    states: Seq<ArrayRef>,
    r: Result<(), ApproxDistinctError>,
) -> bool {
    match merged_values::<A>(before, states) {
        Some(seen) => r is Ok && after == seen,
        None => r matches Err(ApproxDistinctError::Outside(_)) && after == before,
    }
}

impl Content {
    /// The content after a column that the accumulator can read.
    pub open spec fn updated(self, array: ArrayRef) -> Content {
        match self {
            Content::Sketch(registers) => Content::Sketch(
                registers::absorb_all(registers, column_hashes(array)),
            ),
            Content::UInt8(seen) => Content::UInt8(
                seen.union(optional::present(small_int::uint8_rows(array)).to_set()),
            ),
            Content::Int8(seen) => Content::Int8(
                seen.union(optional::present(small_int::int8_rows(array)).to_set()),
            ),
            Content::UInt16(seen) => Content::UInt16(
                seen.union(optional::present(small_int::uint16_rows(array)).to_set()),
            ),
            Content::Int16(seen) => Content::Int16(
                seen.union(optional::present(small_int::int16_rows(array)).to_set()),
            ),
            Content::Constant(value) => Content::Constant(value),
        }
    }

    /// What merging a list of state arrays reports and leaves.
    pub open spec fn merged(
        self,
        after: Content,
        states: Seq<ArrayRef>,
        r: Result<(), ApproxDistinctError>,
    ) -> bool {
        match (self, after) {
            (Content::Sketch(before), Content::Sketch(after)) => error::succeeds_unless(
                r,
                accumulators::merge_fault(states),
            ) && after == accumulators::merged(before, states),
            (Content::UInt8(before), Content::UInt8(after)) => counter_merged::<
                BoolArray256DistinctCountAccumulator,
            >(before, after, states, r),
            (Content::Int8(before), Content::Int8(after)) => counter_merged::<
                BoolArray256DistinctCountAccumulatorI8,
            >(before, after, states, r),
            (Content::UInt16(before), Content::UInt16(after)) => counter_merged::<
                Bitmap65536DistinctCountAccumulator,
            >(before, after, states, r),
            (Content::Int16(before), Content::Int16(after)) => counter_merged::<
                Bitmap65536DistinctCountAccumulatorI16,
            >(before, after, states, r),
            (Content::Constant(before), Content::Constant(after)) => r is Ok && after == before,
            _ => false,
        }
    }

    /// The number that the accumulator evaluates to, which may be null.
    pub open spec fn count(self) -> Option<u64> {
        match self {
            Content::Sketch(registers) => Some(estimate::estimate(registers)),
            Content::UInt8(seen) => Some(seen.len() as u64),
            Content::Int8(seen) => Some(seen.len() as u64),
            Content::UInt16(seen) => Some(seen.len() as u64),
            Content::Int16(seen) => Some(seen.len() as u64),
            Content::Constant(value) => value->Some_0,
        }
    }

    /// Two values are the same as the intermediate state of such content.
    pub open spec fn same_state(self, x: ScalarValue, y: ScalarValue) -> bool {
        match (x, y) {
            (ScalarValue::Null, ScalarValue::Null) => true,
            (ScalarValue::FixedSizeBinary(v, Some(a)), ScalarValue::FixedSizeBinary(w, Some(b))) =>
                v == w && a@ == b@,
            (ScalarValue::List(a), ScalarValue::List(b)) => schema::same_type(
                arrays::array_type(a),
                arrays::array_type(b),
            ) && match self {
                Content::UInt8(_) => small_int::uint8_lists(a) == small_int::uint8_lists(b),
                Content::Int8(_) => small_int::int8_lists(a) == small_int::int8_lists(b),
                Content::UInt16(_) => small_int::uint16_lists(a) == small_int::uint16_lists(b),
                Content::Int16(_) => small_int::int16_lists(a) == small_int::int16_lists(b),
                _ => false,
            },
            _ => false,
        }
    }

    /// A list of values is the intermediate state.
    pub open spec fn is_state(self, values: Seq<ScalarValue>) -> bool {
        &&& values.len() == 1
        &&& match self {
            Content::Sketch(registers) => values[0].is_state(registers),
            Content::UInt8(seen) => small_int::is_counter_state::<
                BoolArray256DistinctCountAccumulator,
            >(values[0], seen),
            Content::Int8(seen) => small_int::is_counter_state::<
                BoolArray256DistinctCountAccumulatorI8,
            >(values[0], seen),
            Content::UInt16(seen) => small_int::is_counter_state::<
                Bitmap65536DistinctCountAccumulator,
            >(values[0], seen),
            Content::Int16(seen) => small_int::is_counter_state::<
                Bitmap65536DistinctCountAccumulatorI16,
            >(values[0], seen),
            Content::Constant(_) => values[0] is Null,
        }
    }
}

impl ApproxDistinctAccumulator {
    /// The accumulator is the one for columns of a type.
    pub open spec fn is_for(self, data_type: DataType) -> bool {
        match self {
            ApproxDistinctAccumulator::UInt8(_) => data_type is UInt8,
            ApproxDistinctAccumulator::Int8(_) => data_type is Int8,
            ApproxDistinctAccumulator::UInt16(_) => data_type is UInt16,
            ApproxDistinctAccumulator::Int16(_) => data_type is Int16,
            ApproxDistinctAccumulator::UInt32(_) => data_type is UInt32,
            ApproxDistinctAccumulator::UInt64(_) => data_type is UInt64,
            ApproxDistinctAccumulator::Int32(_) => data_type is Int32,
            ApproxDistinctAccumulator::Int64(_) => data_type is Int64,
            ApproxDistinctAccumulator::Date32(_) => data_type is Date32,
            ApproxDistinctAccumulator::Date64(_) => data_type is Date64,
            ApproxDistinctAccumulator::Time32Second(_) => data_type == DataType::Time32(
                TimeUnit::Second,
            ),
            ApproxDistinctAccumulator::Time32Millisecond(_) => data_type == DataType::Time32(
                TimeUnit::Millisecond,
            ),
            ApproxDistinctAccumulator::Time64Microsecond(_) => data_type == DataType::Time64(
                TimeUnit::Microsecond,
            ),
            ApproxDistinctAccumulator::Time64Nanosecond(_) => data_type == DataType::Time64(
                TimeUnit::Nanosecond,
            ),
            ApproxDistinctAccumulator::TimestampSecond(_) => data_type.is_timestamp_in(
                TimeUnit::Second,
            ),
            ApproxDistinctAccumulator::TimestampMillisecond(_) => data_type.is_timestamp_in(
                TimeUnit::Millisecond,
            ),
            ApproxDistinctAccumulator::TimestampMicrosecond(_) => data_type.is_timestamp_in(
                TimeUnit::Microsecond,
            ),
            ApproxDistinctAccumulator::TimestampNanosecond(_) => data_type.is_timestamp_in(
                TimeUnit::Nanosecond,
            ),
            ApproxDistinctAccumulator::Utf8(_) => data_type is Utf8,
            ApproxDistinctAccumulator::LargeUtf8(_) => data_type is LargeUtf8,
            ApproxDistinctAccumulator::Utf8View(_) => data_type is Utf8View,
            ApproxDistinctAccumulator::Binary(_) => data_type is Binary,
            ApproxDistinctAccumulator::LargeBinary(_) => data_type is LargeBinary,
            ApproxDistinctAccumulator::Null(_) => data_type is Null,
        }
    }

    /// What the accumulator has taken in.
    pub open spec fn content(self) -> Content {
        match self {
            ApproxDistinctAccumulator::UInt8(a) => Content::UInt8(a.inner.seen()),
            ApproxDistinctAccumulator::Int8(a) => Content::Int8(a.inner.seen()),
            ApproxDistinctAccumulator::UInt16(a) => Content::UInt16(a.inner.seen()),
            ApproxDistinctAccumulator::Int16(a) => Content::Int16(a.inner.seen()),
            ApproxDistinctAccumulator::UInt32(a) => Content::Sketch(a.registers()),
            ApproxDistinctAccumulator::UInt64(a) => Content::Sketch(a.registers()),
            ApproxDistinctAccumulator::Int32(a) => Content::Sketch(a.registers()),
            ApproxDistinctAccumulator::Int64(a) => Content::Sketch(a.registers()),
            ApproxDistinctAccumulator::Date32(a) => Content::Sketch(a.registers()),
            ApproxDistinctAccumulator::Date64(a) => Content::Sketch(a.registers()),
            ApproxDistinctAccumulator::Time32Second(a) => Content::Sketch(a.registers()),
            ApproxDistinctAccumulator::Time32Millisecond(a) => Content::Sketch(a.registers()),
            ApproxDistinctAccumulator::Time64Microsecond(a) => Content::Sketch(a.registers()),
            ApproxDistinctAccumulator::Time64Nanosecond(a) => Content::Sketch(a.registers()),
            ApproxDistinctAccumulator::TimestampSecond(a) => Content::Sketch(a.registers()),
            ApproxDistinctAccumulator::TimestampMillisecond(a) => Content::Sketch(a.registers()),
            ApproxDistinctAccumulator::TimestampMicrosecond(a) => Content::Sketch(a.registers()),
            ApproxDistinctAccumulator::TimestampNanosecond(a) => Content::Sketch(a.registers()),
            ApproxDistinctAccumulator::Utf8(a) => Content::Sketch(a.registers()),
            ApproxDistinctAccumulator::LargeUtf8(a) => Content::Sketch(a.registers()),
            ApproxDistinctAccumulator::Utf8View(a) => Content::Sketch(a.registers()),
            ApproxDistinctAccumulator::Binary(a) => Content::Sketch(a.registers()),
            ApproxDistinctAccumulator::LargeBinary(a) => Content::Sketch(a.registers()),
            ApproxDistinctAccumulator::Null(a) => Content::Constant(noop_value(a)),
        }
    }

    /// The memory that the accumulator takes, in bytes.
    pub open spec fn footprint(self) -> nat {
        match self {
            ApproxDistinctAccumulator::UInt8(_) => small_int::footprint::<
                BoolArray256DistinctCountAccumulator,
            >(),
            ApproxDistinctAccumulator::Int8(_) => small_int::footprint::<
                BoolArray256DistinctCountAccumulatorI8,
            >(),
            ApproxDistinctAccumulator::UInt16(_) => small_int::footprint::<
                Bitmap65536DistinctCountAccumulator,
            >(),
            ApproxDistinctAccumulator::Int16(_) => small_int::footprint::<
                Bitmap65536DistinctCountAccumulatorI16,
            >(),
            ApproxDistinctAccumulator::UInt32(_) => vstd::layout::size_of::<
                NumericHLLAccumulator<UInt32Type>,
            >(),
            ApproxDistinctAccumulator::UInt64(_) => vstd::layout::size_of::<
                NumericHLLAccumulator<UInt64Type>,
            >(),
            ApproxDistinctAccumulator::Int32(_) => vstd::layout::size_of::<
                NumericHLLAccumulator<Int32Type>,
            >(),
            ApproxDistinctAccumulator::Int64(_) => vstd::layout::size_of::<
                NumericHLLAccumulator<Int64Type>,
            >(),
            ApproxDistinctAccumulator::Date32(_) => vstd::layout::size_of::<
                NumericHLLAccumulator<Date32Type>,
            >(),
            ApproxDistinctAccumulator::Date64(_) => vstd::layout::size_of::<
                NumericHLLAccumulator<Date64Type>,
            >(),
            ApproxDistinctAccumulator::Time32Second(_) => vstd::layout::size_of::<
                NumericHLLAccumulator<Time32SecondType>,
            >(),
            ApproxDistinctAccumulator::Time32Millisecond(_) => vstd::layout::size_of::<
                NumericHLLAccumulator<Time32MillisecondType>,
            >(),
            ApproxDistinctAccumulator::Time64Microsecond(_) => vstd::layout::size_of::<
                NumericHLLAccumulator<Time64MicrosecondType>,
            >(),
            ApproxDistinctAccumulator::Time64Nanosecond(_) => vstd::layout::size_of::<
                NumericHLLAccumulator<Time64NanosecondType>,
            >(),
            ApproxDistinctAccumulator::TimestampSecond(_) => vstd::layout::size_of::<
                NumericHLLAccumulator<TimestampSecondType>,
            >(),
            ApproxDistinctAccumulator::TimestampMillisecond(_) => vstd::layout::size_of::<
                NumericHLLAccumulator<TimestampMillisecondType>,
            >(),
            ApproxDistinctAccumulator::TimestampMicrosecond(_) => vstd::layout::size_of::<
                NumericHLLAccumulator<TimestampMicrosecondType>,
            >(),
            ApproxDistinctAccumulator::TimestampNanosecond(_) => vstd::layout::size_of::<
                NumericHLLAccumulator<TimestampNanosecondType>,
            >(),
            ApproxDistinctAccumulator::Utf8(_) => vstd::layout::size_of::<
                StringHLLAccumulator<i32>,
            >(),
            ApproxDistinctAccumulator::LargeUtf8(_) => vstd::layout::size_of::<
                StringHLLAccumulator<i64>,
            >(),
            ApproxDistinctAccumulator::Utf8View(_) => vstd::layout::size_of::<
                StringViewHLLAccumulator,
            >(),
            ApproxDistinctAccumulator::Binary(_) => vstd::layout::size_of::<
                BinaryHLLAccumulator<i32>,
            >(),
            ApproxDistinctAccumulator::LargeBinary(_) => vstd::layout::size_of::<
                BinaryHLLAccumulator<i64>,
            >(),
            ApproxDistinctAccumulator::Null(_) => vstd::layout::size_of::<NoopAccumulator>(),
        }
    }

    /// The accumulator is the one for columns of a type, and it has seen nothing.
    pub open spec fn is_new_for(self, data_type: DataType) -> bool {
        &&& self.is_for(data_type)
        &&& match self.content() {
            Content::Sketch(registers) => registers == registers::no_registers(),
            Content::UInt8(seen) => seen == Set::<u8>::empty(),
            Content::Int8(seen) => seen == Set::<i8>::empty(),
            Content::UInt16(seen) => seen == Set::<u16>::empty(),
            Content::Int16(seen) => seen == Set::<i16>::empty(),
            Content::Constant(value) => value == Some(Some(0u64)),
        }
    }

    /// Two accumulators are for the same columns and take the same memory.
    pub open spec fn is_like(self, other: ApproxDistinctAccumulator) -> bool {
        &&& forall|data_type: DataType| #[trigger]
            self.is_for(data_type) == other.is_for(data_type)
        &&& self.footprint() == other.footprint()
    }

    /// An update has nothing to read: there is no column, or the accumulator ignores its input.
    pub open spec fn reads_nothing(self, columns: nat) -> bool {
        columns == 0 || self.content() is Constant
    }

    /// What an update reports, and the content that it leaves.
    pub open spec fn takes(
        self,
        after: Content,
        values: Seq<ArrayRef>,
        r: Result<(), ApproxDistinctError>,
    ) -> bool {
        if self.reads_nothing(values.len()) {
            r is Ok && after == self.content()
        } else if self.is_for(arrays::array_type(values[0])) {
            r is Ok && after == self.content().updated(values[0])
        } else {
            r matches Err(ApproxDistinctError::Outside(_)) && after == self.content()
        }
    }

    /// Takes in the first column.
    pub fn update_batch(&mut self, values: &[ArrayRef]) -> (r: Result<(), ApproxDistinctError>)
        requires
            old(self).content() is Sketch ==> values@.len() > 0,
        ensures
            final(self).is_like(*old(self)),
            old(self).takes(final(self).content(), values@, r),
    {
        match self {
            ApproxDistinctAccumulator::UInt8(a) => a.update_batch(values),
            ApproxDistinctAccumulator::Int8(a) => a.update_batch(values),
            ApproxDistinctAccumulator::UInt16(a) => a.update_batch(values),
            ApproxDistinctAccumulator::Int16(a) => a.update_batch(values),
            ApproxDistinctAccumulator::UInt32(a) => a.update_batch(values),
            ApproxDistinctAccumulator::UInt64(a) => a.update_batch(values),
            ApproxDistinctAccumulator::Int32(a) => a.update_batch(values),
            ApproxDistinctAccumulator::Int64(a) => a.update_batch(values),
            ApproxDistinctAccumulator::Date32(a) => a.update_batch(values),
            ApproxDistinctAccumulator::Date64(a) => a.update_batch(values),
            ApproxDistinctAccumulator::Time32Second(a) => a.update_batch(values),
            ApproxDistinctAccumulator::Time32Millisecond(a) => a.update_batch(values),
            ApproxDistinctAccumulator::Time64Microsecond(a) => a.update_batch(values),
            ApproxDistinctAccumulator::Time64Nanosecond(a) => a.update_batch(values),
            ApproxDistinctAccumulator::TimestampSecond(a) => a.update_batch(values),
            ApproxDistinctAccumulator::TimestampMillisecond(a) => a.update_batch(values),
            ApproxDistinctAccumulator::TimestampMicrosecond(a) => a.update_batch(values),
            ApproxDistinctAccumulator::TimestampNanosecond(a) => a.update_batch(values),
            ApproxDistinctAccumulator::Utf8(a) => a.update_batch(values),
            ApproxDistinctAccumulator::LargeUtf8(a) => a.update_batch(values),
            ApproxDistinctAccumulator::Utf8View(a) => a.update_batch(values),
            ApproxDistinctAccumulator::Binary(a) => a.update_batch(values),
            ApproxDistinctAccumulator::LargeBinary(a) => a.update_batch(values),
            ApproxDistinctAccumulator::Null(a) => error::handed_on(update_noop(a, values)),
        }
    }

    /// Merges the states of other accumulators.
    pub fn merge_batch(&mut self, states: &[ArrayRef]) -> (r: Result<(), ApproxDistinctError>)
        ensures
            final(self).is_like(*old(self)),
            old(self).content().merged(final(self).content(), states@, r),
    {
        match self {
            ApproxDistinctAccumulator::UInt8(a) => a.merge_batch(states),
            ApproxDistinctAccumulator::Int8(a) => a.merge_batch(states),
            ApproxDistinctAccumulator::UInt16(a) => a.merge_batch(states),
            ApproxDistinctAccumulator::Int16(a) => a.merge_batch(states),
            ApproxDistinctAccumulator::UInt32(a) => a.merge_batch(states),
            ApproxDistinctAccumulator::UInt64(a) => a.merge_batch(states),
            ApproxDistinctAccumulator::Int32(a) => a.merge_batch(states),
            ApproxDistinctAccumulator::Int64(a) => a.merge_batch(states),
            ApproxDistinctAccumulator::Date32(a) => a.merge_batch(states),
            ApproxDistinctAccumulator::Date64(a) => a.merge_batch(states),
            ApproxDistinctAccumulator::Time32Second(a) => a.merge_batch(states),
            ApproxDistinctAccumulator::Time32Millisecond(a) => a.merge_batch(states),
            ApproxDistinctAccumulator::Time64Microsecond(a) => a.merge_batch(states),
            ApproxDistinctAccumulator::Time64Nanosecond(a) => a.merge_batch(states),
            ApproxDistinctAccumulator::TimestampSecond(a) => a.merge_batch(states),
            ApproxDistinctAccumulator::TimestampMillisecond(a) => a.merge_batch(states),
            ApproxDistinctAccumulator::TimestampMicrosecond(a) => a.merge_batch(states),
            ApproxDistinctAccumulator::TimestampNanosecond(a) => a.merge_batch(states),
            ApproxDistinctAccumulator::Utf8(a) => a.merge_batch(states),
            ApproxDistinctAccumulator::LargeUtf8(a) => a.merge_batch(states),
            ApproxDistinctAccumulator::Utf8View(a) => a.merge_batch(states),
            ApproxDistinctAccumulator::Binary(a) => a.merge_batch(states),
            ApproxDistinctAccumulator::LargeBinary(a) => a.merge_batch(states),
            ApproxDistinctAccumulator::Null(a) => error::handed_on(merge_noop(a, states)),
        }
    }

    /// The intermediate state.
    pub fn state(&mut self) -> (r: Result<Vec<ScalarValue>, ApproxDistinctError>)
        ensures
            final(self).is_like(*old(self)),
            final(self).content() == old(self).content(),
            r is Ok,
            old(self).content().is_state(r->Ok_0@),
    {
        match self {
            ApproxDistinctAccumulator::UInt8(a) => a.state(),
            ApproxDistinctAccumulator::Int8(a) => a.state(),
            ApproxDistinctAccumulator::UInt16(a) => a.state(),
            ApproxDistinctAccumulator::Int16(a) => a.state(),
            ApproxDistinctAccumulator::UInt32(a) => a.state(),
            ApproxDistinctAccumulator::UInt64(a) => a.state(),
            ApproxDistinctAccumulator::Int32(a) => a.state(),
            ApproxDistinctAccumulator::Int64(a) => a.state(),
            ApproxDistinctAccumulator::Date32(a) => a.state(),
            ApproxDistinctAccumulator::Date64(a) => a.state(),
            ApproxDistinctAccumulator::Time32Second(a) => a.state(),
            ApproxDistinctAccumulator::Time32Millisecond(a) => a.state(),
            ApproxDistinctAccumulator::Time64Microsecond(a) => a.state(),
            ApproxDistinctAccumulator::Time64Nanosecond(a) => a.state(),
            ApproxDistinctAccumulator::TimestampSecond(a) => a.state(),
            ApproxDistinctAccumulator::TimestampMillisecond(a) => a.state(),
            ApproxDistinctAccumulator::TimestampMicrosecond(a) => a.state(),
            ApproxDistinctAccumulator::TimestampNanosecond(a) => a.state(),
            ApproxDistinctAccumulator::Utf8(a) => a.state(),
            ApproxDistinctAccumulator::LargeUtf8(a) => a.state(),
            ApproxDistinctAccumulator::Utf8View(a) => a.state(),
            ApproxDistinctAccumulator::Binary(a) => a.state(),
            ApproxDistinctAccumulator::LargeBinary(a) => a.state(),
            ApproxDistinctAccumulator::Null(a) => error::handed_on(state_noop(a)),
        }
    }

    /// The number of distinct values, estimated or exact.
    pub fn evaluate(&mut self) -> (r: Result<ScalarValue, ApproxDistinctError>)
        requires
            old(self).content() matches Content::Constant(value) ==> value is Some,
        ensures
            final(self).is_like(*old(self)),
            final(self).content() == old(self).content(),
            r == Ok::<ScalarValue, ApproxDistinctError>(
                ScalarValue::UInt64(old(self).content().count()),
            ),
    {
        match self {
            ApproxDistinctAccumulator::UInt8(a) => a.evaluate(),
            ApproxDistinctAccumulator::Int8(a) => a.evaluate(),
            ApproxDistinctAccumulator::UInt16(a) => a.evaluate(),
            ApproxDistinctAccumulator::Int16(a) => a.evaluate(),
            ApproxDistinctAccumulator::UInt32(a) => a.evaluate(),
            ApproxDistinctAccumulator::UInt64(a) => a.evaluate(),
            ApproxDistinctAccumulator::Int32(a) => a.evaluate(),
            ApproxDistinctAccumulator::Int64(a) => a.evaluate(),
            ApproxDistinctAccumulator::Date32(a) => a.evaluate(),
            ApproxDistinctAccumulator::Date64(a) => a.evaluate(),
            ApproxDistinctAccumulator::Time32Second(a) => a.evaluate(),
            ApproxDistinctAccumulator::Time32Millisecond(a) => a.evaluate(),
            ApproxDistinctAccumulator::Time64Microsecond(a) => a.evaluate(),
            ApproxDistinctAccumulator::Time64Nanosecond(a) => a.evaluate(),
            ApproxDistinctAccumulator::TimestampSecond(a) => a.evaluate(),
            ApproxDistinctAccumulator::TimestampMillisecond(a) => a.evaluate(),
            ApproxDistinctAccumulator::TimestampMicrosecond(a) => a.evaluate(),
            ApproxDistinctAccumulator::TimestampNanosecond(a) => a.evaluate(),
            ApproxDistinctAccumulator::Utf8(a) => a.evaluate(),
            ApproxDistinctAccumulator::LargeUtf8(a) => a.evaluate(),
            ApproxDistinctAccumulator::Utf8View(a) => a.evaluate(),
            ApproxDistinctAccumulator::Binary(a) => a.evaluate(),
            ApproxDistinctAccumulator::LargeBinary(a) => a.evaluate(),
            ApproxDistinctAccumulator::Null(a) => error::handed_on(evaluate_noop(a)),
        }
    }

    /// The memory that the accumulator takes, in bytes.
    pub fn size(&self) -> (bytes: usize)
        ensures
            bytes == self.footprint(),
    {
        match self {
            ApproxDistinctAccumulator::UInt8(a) => a.size(),
            ApproxDistinctAccumulator::Int8(a) => a.size(),
            ApproxDistinctAccumulator::UInt16(a) => a.size(),
            ApproxDistinctAccumulator::Int16(a) => a.size(),
            ApproxDistinctAccumulator::UInt32(a) => a.size(),
            ApproxDistinctAccumulator::UInt64(a) => a.size(),
            ApproxDistinctAccumulator::Int32(a) => a.size(),
            ApproxDistinctAccumulator::Int64(a) => a.size(),
            ApproxDistinctAccumulator::Date32(a) => a.size(),
            ApproxDistinctAccumulator::Date64(a) => a.size(),
            ApproxDistinctAccumulator::Time32Second(a) => a.size(),
            ApproxDistinctAccumulator::Time32Millisecond(a) => a.size(),
            ApproxDistinctAccumulator::Time64Microsecond(a) => a.size(),
            ApproxDistinctAccumulator::Time64Nanosecond(a) => a.size(),
            ApproxDistinctAccumulator::TimestampSecond(a) => a.size(),
            ApproxDistinctAccumulator::TimestampMillisecond(a) => a.size(),
            ApproxDistinctAccumulator::TimestampMicrosecond(a) => a.size(),
            ApproxDistinctAccumulator::TimestampNanosecond(a) => a.size(),
            ApproxDistinctAccumulator::Utf8(a) => a.size(),
            ApproxDistinctAccumulator::LargeUtf8(a) => a.size(),
            ApproxDistinctAccumulator::Utf8View(a) => a.size(),
            ApproxDistinctAccumulator::Binary(a) => a.size(),
            ApproxDistinctAccumulator::LargeBinary(a) => a.size(),
            ApproxDistinctAccumulator::Null(a) => size_noop(a),
        }
    }
}

} // verus!
