//! Exact distinct counts of columns of small integers.

use datafusion_common::DataFusionError;
use datafusion_expr::Accumulator;
use datafusion_functions_aggregate_common::aggregate::count_distinct::{
    Bitmap65536DistinctCountAccumulator, Bitmap65536DistinctCountAccumulatorI16,
    BoolArray256DistinctCountAccumulator, BoolArray256DistinctCountAccumulatorI8,
};
use vstd::prelude::*;
use crate::arrays;
use crate::arrays::ArrayRef;
use crate::error;
use crate::error::ApproxDistinctError;
use crate::optional;
use crate::scalar::ScalarValue;
use crate::schema::DataType;
use crate::text;

verus! {

/// What an inner accumulator evaluates to.
#[derive(Debug)]
pub enum InnerCount {
    Int64(Option<i64>),
    /// A value of another type, given by its text.
    Other(String),
}

/// The values of lists, in order, without the lists that are null.
pub open spec fn listed<A>(lists: Seq<Option<Seq<A>>>) -> Seq<A> {
    optional::present(lists).flatten()
}

/// Every list of a list array is null.
pub uninterp spec fn every_list_is_null(array: ArrayRef) -> bool;

/// The lists that are read from a column, given its type, its lists where they have items of
/// the type `value_type`, and whether they are all null. A column of lists of another type can be
/// read if all its lists are null; no other column can.
pub open spec fn lists_if<A>(
    column_type: DataType,
    value_type: DataType,
    lists: Seq<Option<Seq<A>>>,
    all_null: bool,
) -> Option<Seq<Option<Seq<A>>>> {
    match column_type {
        DataType::List(item) => if item.data_type == value_type {
            Some(lists)
        } else {
            arrays::only_if(all_null, Seq::empty())
        },
        _ => None,
    }
}

/// What an update of an inner accumulator does: it takes in the values that are present in
/// the first column, if there is a column; a column of another type is refused.
pub open spec fn inner_updated<A>(
    before: Set<A>,
    after: Set<A>,
    result: Result<(), DataFusionError>,
    columns: nat,
    rows: Option<Seq<Option<A>>>,
) -> bool {
    if columns == 0 {
        result is Ok && after == before
    } else {
        match rows {
            Some(rows) => result is Ok && after == before.union(
                optional::present(rows).to_set(),
            ),
            None => result is Err && after == before,
        }
    }
}

/// What a merge of an inner accumulator does: it takes in the values of the lists in the
/// first column, if there is a column; a column of another type is refused.
pub open spec fn inner_merged<A>(
    before: Set<A>,
    after: Set<A>,
    result: Result<(), DataFusionError>,
    columns: nat,
    lists: Option<Seq<Option<Seq<A>>>>,
) -> bool {
    if columns == 0 {
        result is Ok && after == before
    } else {
        match lists {
            Some(lists) => result is Ok && after == before.union(listed(lists).to_set()),
            None => result is Err && after == before,
        }
    }
}

/// The values are in strictly ascending order of their places.
pub open spec fn ascends<A>(values: Seq<A>, place: spec_fn(A) -> int) -> bool {
    forall|i: int, j: int|
        0 <= i < j < values.len() ==> place(#[trigger] values[i]) < place(#[trigger] values[j])
}

/// The array is one list, which holds each value of a set once, in the order of their places.
pub open spec fn lists_set<A>(
    lists: Option<Seq<Option<Seq<A>>>>,
    set: Set<A>,
    place: spec_fn(A) -> int,
) -> bool {
    &&& lists matches Some(rows)
    &&& rows.len() == 1
    &&& rows[0] matches Some(values)
    &&& ascends(values, place)
    &&& values.to_set() == set
}

/// A value is the state of a counter: one list of its values, each of them once, in the order of
/// their places.
pub open spec fn is_counter_state<A: DistinctCounter>(
    value: ScalarValue,
    seen: Set<A::Value>,
) -> bool {
    &&& value.is_list_of(A::value_type())
    &&& value matches ScalarValue::List(list)
    &&& lists_set(A::lists(list), seen, |value: A::Value| A::place(value))
}

/// The memory that a counter takes, in bytes.
pub open spec fn footprint<A: DistinctCounter>() -> nat {
    vstd::layout::size_of::<A>() + A::value_bytes()
}

/// The text of an inner value.
pub open spec fn inner_text(value: InnerCount) -> Seq<char> {
    match value {
        InnerCount::Int64(Some(v)) => text::signed_decimal(v as int),
        InnerCount::Int64(None) => "NULL"@,
        InnerCount::Other(text) => text@,
    }
}

/// An accumulator that keeps the set of values it has seen.
pub trait DistinctCounter: Sized {
    /// The values that a column holds.
    type Value;

    /// The type of the columns.
    spec fn value_type() -> DataType;

    /// The values seen.
    spec fn seen(&self) -> Set<Self::Value>;

    /// The place of a value in the order in which the values seen are listed: the value read as
    /// unsigned.
    spec fn place(value: Self::Value) -> int;

    /// The rows of a column, with `None` for a null; `None` for a column of another type.
    spec fn rows(array: ArrayRef) -> Option<Seq<Option<Self::Value>>>;

    /// The lists of a column of lists, with `None` for a null; `None` for a column of another
    /// type.
    spec fn lists(array: ArrayRef) -> Option<Seq<Option<Seq<Self::Value>>>>;

    /// Takes in a column.
    fn inner_update(&mut self, values: &[ArrayRef]) -> (r: Result<(), DataFusionError>)
        ensures
            inner_updated(
                old(self).seen(),
                final(self).seen(),
                r,
                values@.len(),
                Self::rows(values@[0]),
            ),
    ;

    /// Takes in a column of lists.
    fn inner_merge(&mut self, states: &[ArrayRef]) -> (r: Result<(), DataFusionError>)
        ensures
            inner_merged(
                old(self).seen(),
                final(self).seen(),
                r,
                states@.len(),
                Self::lists(states@[0]),
            ),
    ;

    /// The values seen, as a list.
    fn inner_state(&mut self) -> (r: Result<Vec<ScalarValue>, DataFusionError>)
        ensures
            final(self).seen() == old(self).seen(),
            r is Ok,
            r->Ok_0@.len() == 1,
            r->Ok_0@[0].is_list_of(Self::value_type()),
            r->Ok_0@[0] matches ScalarValue::List(list) && lists_set(
                Self::lists(list),
                old(self).seen(),
                |value: Self::Value| Self::place(value),
            ),
    ;

    /// The number of values seen.
    fn inner_evaluate(&mut self) -> (r: Result<InnerCount, DataFusionError>)
        ensures
            final(self).seen() == old(self).seen(),
            r matches Ok(InnerCount::Int64(Some(count))) && count == old(self).seen().len(),
    ;

    /// The bytes that are counted for the values seen, on top of the counter itself.
    spec fn value_bytes() -> nat;

    /// The memory that the accumulator takes, in bytes.
    fn inner_size(&self) -> (bytes: usize)
        ensures
            bytes == vstd::layout::size_of::<Self>() + Self::value_bytes(),
    ;
}

/// The exact counter of distinct `u8` values.
#[verifier::external_type_specification]
#[verifier::external_body]
pub struct ExBoolArray256DistinctCountAccumulator(BoolArray256DistinctCountAccumulator);

/// The values that a [`BoolArray256DistinctCountAccumulator`] has seen.
pub uninterp spec fn uint8_seen(counter: BoolArray256DistinctCountAccumulator) -> Set<u8>;

/// The rows of a `UInt8Array`, with `None` for a null. Nothing is said of an array of
/// another type.
pub uninterp spec fn uint8_rows(array: ArrayRef) -> Seq<Option<u8>>;

/// The lists of a `ListArray` of `UInt8` items, with `None` for a null. The items of a list are
/// those in its values buffer, also where the list marks an item as null. Nothing is said of an
/// array of another type.
pub uninterp spec fn uint8_lists(array: ArrayRef) -> Seq<Option<Seq<u8>>>;

/// A new counter has seen nothing. Trusted, as its source shows.
pub assume_specification[ BoolArray256DistinctCountAccumulator::new ]() -> (
    counter: BoolArray256DistinctCountAccumulator
)
    ensures
        uint8_seen(counter) == Set::<u8>::empty(),
;

/// Calls `Accumulator::update_batch`. Trusted: the values of the first array that are present
/// are added to those seen, and an array of another type is refused.
#[verifier::external_body]
fn update_uint8(
    counter: &mut BoolArray256DistinctCountAccumulator,
    values: &[ArrayRef],
) -> (r: Result<(), DataFusionError>)
    ensures
        inner_updated(
            uint8_seen(*old(counter)),
            uint8_seen(*final(counter)),
            r,
            values@.len(),
            arrays::only_if(
                arrays::array_type(values@[0]) is UInt8,
                uint8_rows(values@[0]),
            ),
        ),
{
    let columns: Vec<_> = values.iter().map(|column| column.array.clone()).collect();
    counter.update_batch(&columns)
}

/// Calls `Accumulator::merge_batch`. Trusted: the values of the lists of the first array are
/// added to those seen, and an array of another type is refused.
#[verifier::external_body]
fn merge_uint8(
    counter: &mut BoolArray256DistinctCountAccumulator,
    states: &[ArrayRef],
) -> (r: Result<(), DataFusionError>)
    ensures
        inner_merged(
            uint8_seen(*old(counter)),
            uint8_seen(*final(counter)),
            r,
            states@.len(),
            lists_if(
                arrays::array_type(states@[0]),
                DataType::UInt8,
                uint8_lists(states@[0]),
                every_list_is_null(states@[0]),
            ),
        ),
{
    let columns: Vec<_> = states.iter().map(|column| column.array.clone()).collect();
    counter.merge_batch(&columns)
}

/// Calls `Accumulator::state`. Trusted: the state is one list, which holds each value seen
/// once, in ascending order of the values read as unsigned, with items under the default name of
/// list items.
#[verifier::external_body]
fn state_uint8(counter: &mut BoolArray256DistinctCountAccumulator) -> (r: Result<
    Vec<ScalarValue>,
    DataFusionError,
>)
    ensures
        uint8_seen(*final(counter)) == uint8_seen(*old(counter)),
        r is Ok,
        r->Ok_0@.len() == 1,
        r->Ok_0@[0].is_list_of(DataType::UInt8),
        r->Ok_0@[0] matches ScalarValue::List(list) && lists_set(
            Some(uint8_lists(list)),
            uint8_seen(*old(counter)),
            |value: u8| value as int,
        ),
{
    let state = counter.state()?.into_iter().map(|value| match value {
        datafusion_common::ScalarValue::List(list) => ScalarValue::List(ArrayRef { array: list }),
        other => ScalarValue::Other(other.to_string()),
    });
    Ok(state.collect())
}

/// Calls `Accumulator::evaluate`. Trusted: the result is the number of values seen, as a
/// 64-bit integer.
#[verifier::external_body]
fn evaluate_uint8(
    counter: &mut BoolArray256DistinctCountAccumulator,
) -> (r: Result<InnerCount, DataFusionError>)
    ensures
        uint8_seen(*final(counter)) == uint8_seen(*old(counter)),
        r matches Ok(InnerCount::Int64(Some(count))) && count == uint8_seen(*old(counter)).len(),
{
    match counter.evaluate()? {
        datafusion_common::ScalarValue::Int64(count) => Ok(InnerCount::Int64(count)),
        other => Ok(InnerCount::Other(other.to_string())),
    }
}

/// Calls `Accumulator::size`. Trusted: the result is the size of the counter and 256 bytes on
/// top.
#[verifier::external_body]
fn size_uint8(counter: &BoolArray256DistinctCountAccumulator) -> (bytes: usize)
    ensures
        bytes == vstd::layout::size_of::<BoolArray256DistinctCountAccumulator>() + 256,
{
    counter.size()
}

impl DistinctCounter for BoolArray256DistinctCountAccumulator {
    type Value = u8;

    open spec fn value_type() -> DataType {
        DataType::UInt8
    }

    open spec fn seen(&self) -> Set<u8> {
        uint8_seen(*self)
    }

    open spec fn place(value: u8) -> int {
        value as int
    }

    open spec fn rows(array: ArrayRef) -> Option<Seq<Option<u8>>> {
        arrays::only_if(arrays::array_type(array) is UInt8, uint8_rows(array))
    }

    open spec fn lists(array: ArrayRef) -> Option<Seq<Option<Seq<u8>>>> {
        lists_if(
            arrays::array_type(array),
            DataType::UInt8,
            uint8_lists(array),
            every_list_is_null(array),
        )
    }

    fn inner_update(&mut self, values: &[ArrayRef]) -> (r: Result<(), DataFusionError>) {
        update_uint8(self, values)
    }

    fn inner_merge(&mut self, states: &[ArrayRef]) -> (r: Result<(), DataFusionError>) {
        merge_uint8(self, states)
    }

    fn inner_state(&mut self) -> (r: Result<Vec<ScalarValue>, DataFusionError>) {
        state_uint8(self)
    }

    fn inner_evaluate(&mut self) -> (r: Result<InnerCount, DataFusionError>) {
        evaluate_uint8(self)
    }

    open spec fn value_bytes() -> nat {
        256
    }

    fn inner_size(&self) -> (bytes: usize) {
        size_uint8(self)
    }
}

/// The exact counter of distinct `i8` values.
#[verifier::external_type_specification]
#[verifier::external_body]
pub struct ExBoolArray256DistinctCountAccumulatorI8(BoolArray256DistinctCountAccumulatorI8);

/// The values that a [`BoolArray256DistinctCountAccumulatorI8`] has seen.
pub uninterp spec fn int8_seen(counter: BoolArray256DistinctCountAccumulatorI8) -> Set<i8>;

/// The rows of a `Int8Array`, with `None` for a null. Nothing is said of an array of
/// another type.
pub uninterp spec fn int8_rows(array: ArrayRef) -> Seq<Option<i8>>;

/// The lists of a `ListArray` of `Int8` items, with `None` for a null. The items of a list are
/// those in its values buffer, also where the list marks an item as null. Nothing is said of an
/// array of another type.
pub uninterp spec fn int8_lists(array: ArrayRef) -> Seq<Option<Seq<i8>>>;

/// A new counter has seen nothing. Trusted, as its source shows.
pub assume_specification[ BoolArray256DistinctCountAccumulatorI8::new ]() -> (
    counter: BoolArray256DistinctCountAccumulatorI8
)
    ensures
        int8_seen(counter) == Set::<i8>::empty(),
;

/// Calls `Accumulator::update_batch`. Trusted: the values of the first array that are present
/// are added to those seen, and an array of another type is refused.
#[verifier::external_body]
fn update_int8(
    counter: &mut BoolArray256DistinctCountAccumulatorI8,
    values: &[ArrayRef],
) -> (r: Result<(), DataFusionError>)
    ensures
        inner_updated(
            int8_seen(*old(counter)),
            int8_seen(*final(counter)),
            r,
            values@.len(),
            arrays::only_if(
                arrays::array_type(values@[0]) is Int8,
                int8_rows(values@[0]),
            ),
        ),
{
    let columns: Vec<_> = values.iter().map(|column| column.array.clone()).collect();
    counter.update_batch(&columns)
}

/// Calls `Accumulator::merge_batch`. Trusted: the values of the lists of the first array are
/// added to those seen, and an array of another type is refused.
#[verifier::external_body]
fn merge_int8(
    counter: &mut BoolArray256DistinctCountAccumulatorI8,
    states: &[ArrayRef],
) -> (r: Result<(), DataFusionError>)
    ensures
        inner_merged(
            int8_seen(*old(counter)),
            int8_seen(*final(counter)),
            r,
            states@.len(),
            lists_if(
                arrays::array_type(states@[0]),
                DataType::Int8,
                int8_lists(states@[0]),
                every_list_is_null(states@[0]),
            ),
        ),
{
    let columns: Vec<_> = states.iter().map(|column| column.array.clone()).collect();
    counter.merge_batch(&columns)
}

/// Calls `Accumulator::state`. Trusted: the state is one list, which holds each value seen
/// once, in ascending order of the values read as unsigned, with items under the default name of
/// list items.
#[verifier::external_body]
fn state_int8(counter: &mut BoolArray256DistinctCountAccumulatorI8) -> (r: Result<
    Vec<ScalarValue>,
    DataFusionError,
>)
    ensures
        int8_seen(*final(counter)) == int8_seen(*old(counter)),
        r is Ok,
        r->Ok_0@.len() == 1,
        r->Ok_0@[0].is_list_of(DataType::Int8),
        r->Ok_0@[0] matches ScalarValue::List(list) && lists_set(
            Some(int8_lists(list)),
            int8_seen(*old(counter)),
            |value: i8| value as int % 0x100,
        ),
{
    let state = counter.state()?.into_iter().map(|value| match value {
        datafusion_common::ScalarValue::List(list) => ScalarValue::List(ArrayRef { array: list }),
        other => ScalarValue::Other(other.to_string()),
    });
    Ok(state.collect())
}

/// Calls `Accumulator::evaluate`. Trusted: the result is the number of values seen, as a
/// 64-bit integer.
#[verifier::external_body]
fn evaluate_int8(
    counter: &mut BoolArray256DistinctCountAccumulatorI8,
) -> (r: Result<InnerCount, DataFusionError>)
    ensures
        int8_seen(*final(counter)) == int8_seen(*old(counter)),
        r matches Ok(InnerCount::Int64(Some(count))) && count == int8_seen(*old(counter)).len(),
{
    match counter.evaluate()? {
        datafusion_common::ScalarValue::Int64(count) => Ok(InnerCount::Int64(count)),
        other => Ok(InnerCount::Other(other.to_string())),
    }
}

/// Calls `Accumulator::size`. Trusted: the result is the size of the counter and 256 bytes on
/// top.
#[verifier::external_body]
fn size_int8(counter: &BoolArray256DistinctCountAccumulatorI8) -> (bytes: usize)
    ensures
        bytes == vstd::layout::size_of::<BoolArray256DistinctCountAccumulatorI8>() + 256,
{
    counter.size()
}

impl DistinctCounter for BoolArray256DistinctCountAccumulatorI8 {
    type Value = i8;

    open spec fn value_type() -> DataType {
        DataType::Int8
    }

    open spec fn seen(&self) -> Set<i8> {
        int8_seen(*self)
    }

    open spec fn place(value: i8) -> int {
        value as int % 0x100
    }

    open spec fn rows(array: ArrayRef) -> Option<Seq<Option<i8>>> {
        arrays::only_if(arrays::array_type(array) is Int8, int8_rows(array))
    }

    open spec fn lists(array: ArrayRef) -> Option<Seq<Option<Seq<i8>>>> {
        lists_if(
            arrays::array_type(array),
            DataType::Int8,
            int8_lists(array),
            every_list_is_null(array),
        )
    }

    fn inner_update(&mut self, values: &[ArrayRef]) -> (r: Result<(), DataFusionError>) {
        update_int8(self, values)
    }

    fn inner_merge(&mut self, states: &[ArrayRef]) -> (r: Result<(), DataFusionError>) {
        merge_int8(self, states)
    }

    fn inner_state(&mut self) -> (r: Result<Vec<ScalarValue>, DataFusionError>) {
        state_int8(self)
    }

    fn inner_evaluate(&mut self) -> (r: Result<InnerCount, DataFusionError>) {
        evaluate_int8(self)
    }

    open spec fn value_bytes() -> nat {
        256
    }

    fn inner_size(&self) -> (bytes: usize) {
        size_int8(self)
    }
}

/// The exact counter of distinct `u16` values.
#[verifier::external_type_specification]
#[verifier::external_body]
pub struct ExBitmap65536DistinctCountAccumulator(Bitmap65536DistinctCountAccumulator);

/// The values that a [`Bitmap65536DistinctCountAccumulator`] has seen.
pub uninterp spec fn uint16_seen(counter: Bitmap65536DistinctCountAccumulator) -> Set<u16>;

/// The rows of a `UInt16Array`, with `None` for a null. Nothing is said of an array of
/// another type.
pub uninterp spec fn uint16_rows(array: ArrayRef) -> Seq<Option<u16>>;

/// The lists of a `ListArray` of `UInt16` items, with `None` for a null. The items of a list are
/// those in its values buffer, also where the list marks an item as null. Nothing is said of an
/// array of another type.
pub uninterp spec fn uint16_lists(array: ArrayRef) -> Seq<Option<Seq<u16>>>;

/// A new counter has seen nothing. Trusted, as its source shows.
pub assume_specification[ Bitmap65536DistinctCountAccumulator::new ]() -> (
    counter: Bitmap65536DistinctCountAccumulator
)
    ensures
        uint16_seen(counter) == Set::<u16>::empty(),
;

/// Calls `Accumulator::update_batch`. Trusted: the values of the first array that are present
/// are added to those seen, and an array of another type is refused.
#[verifier::external_body]
fn update_uint16(
    counter: &mut Bitmap65536DistinctCountAccumulator,
    values: &[ArrayRef],
) -> (r: Result<(), DataFusionError>)
    ensures
        inner_updated(
            uint16_seen(*old(counter)),
            uint16_seen(*final(counter)),
            r,
            values@.len(),
            arrays::only_if(
                arrays::array_type(values@[0]) is UInt16,
                uint16_rows(values@[0]),
            ),
        ),
{
    let columns: Vec<_> = values.iter().map(|column| column.array.clone()).collect();
    counter.update_batch(&columns)
}

/// Calls `Accumulator::merge_batch`. Trusted: the values of the lists of the first array are
/// added to those seen, and an array of another type is refused.
#[verifier::external_body]
fn merge_uint16(
    counter: &mut Bitmap65536DistinctCountAccumulator,
    states: &[ArrayRef],
) -> (r: Result<(), DataFusionError>)
    ensures
        inner_merged(
            uint16_seen(*old(counter)),
            uint16_seen(*final(counter)),
            r,
            states@.len(),
            lists_if(
                arrays::array_type(states@[0]),
                DataType::UInt16,
                uint16_lists(states@[0]),
                every_list_is_null(states@[0]),
            ),
        ),
{
    let columns: Vec<_> = states.iter().map(|column| column.array.clone()).collect();
    counter.merge_batch(&columns)
}

/// Calls `Accumulator::state`. Trusted: the state is one list, which holds each value seen
/// once, in ascending order of the values read as unsigned, with items under the default name of
/// list items.
#[verifier::external_body]
fn state_uint16(counter: &mut Bitmap65536DistinctCountAccumulator) -> (r: Result<
    Vec<ScalarValue>,
    DataFusionError,
>)
    ensures
        uint16_seen(*final(counter)) == uint16_seen(*old(counter)),
        r is Ok,
        r->Ok_0@.len() == 1,
        r->Ok_0@[0].is_list_of(DataType::UInt16),
        r->Ok_0@[0] matches ScalarValue::List(list) && lists_set(
            Some(uint16_lists(list)),
            uint16_seen(*old(counter)),
            |value: u16| value as int,
        ),
{
    let state = counter.state()?.into_iter().map(|value| match value {
        datafusion_common::ScalarValue::List(list) => ScalarValue::List(ArrayRef { array: list }),
        other => ScalarValue::Other(other.to_string()),
    });
    Ok(state.collect())
}

/// Calls `Accumulator::evaluate`. Trusted: the result is the number of values seen, as a
/// 64-bit integer.
#[verifier::external_body]
fn evaluate_uint16(
    counter: &mut Bitmap65536DistinctCountAccumulator,
) -> (r: Result<InnerCount, DataFusionError>)
    ensures
        uint16_seen(*final(counter)) == uint16_seen(*old(counter)),
        r matches Ok(InnerCount::Int64(Some(count))) && count == uint16_seen(*old(counter)).len(),
{
    match counter.evaluate()? {
        datafusion_common::ScalarValue::Int64(count) => Ok(InnerCount::Int64(count)),
        other => Ok(InnerCount::Other(other.to_string())),
    }
}

/// Calls `Accumulator::size`. Trusted: the result is the size of the counter and 8192 bytes on
/// top.
#[verifier::external_body]
fn size_uint16(counter: &Bitmap65536DistinctCountAccumulator) -> (bytes: usize)
    ensures
        bytes == vstd::layout::size_of::<Bitmap65536DistinctCountAccumulator>() + 8192,
{
    counter.size()
}

impl DistinctCounter for Bitmap65536DistinctCountAccumulator {
    type Value = u16;

    open spec fn value_type() -> DataType {
        DataType::UInt16
    }

    open spec fn seen(&self) -> Set<u16> {
        uint16_seen(*self)
    }

    open spec fn place(value: u16) -> int {
        value as int
    }

    open spec fn rows(array: ArrayRef) -> Option<Seq<Option<u16>>> {
        arrays::only_if(arrays::array_type(array) is UInt16, uint16_rows(array))
    }

    open spec fn lists(array: ArrayRef) -> Option<Seq<Option<Seq<u16>>>> {
        lists_if(
            arrays::array_type(array),
            DataType::UInt16,
            uint16_lists(array),
            every_list_is_null(array),
        )
    }

    fn inner_update(&mut self, values: &[ArrayRef]) -> (r: Result<(), DataFusionError>) {
        update_uint16(self, values)
    }

    fn inner_merge(&mut self, states: &[ArrayRef]) -> (r: Result<(), DataFusionError>) {
        merge_uint16(self, states)
    }

    fn inner_state(&mut self) -> (r: Result<Vec<ScalarValue>, DataFusionError>) {
        state_uint16(self)
    }

    fn inner_evaluate(&mut self) -> (r: Result<InnerCount, DataFusionError>) {
        evaluate_uint16(self)
    }

    open spec fn value_bytes() -> nat {
        8192
    }

    fn inner_size(&self) -> (bytes: usize) {
        size_uint16(self)
    }
}

/// The exact counter of distinct `i16` values.
#[verifier::external_type_specification]
#[verifier::external_body]
pub struct ExBitmap65536DistinctCountAccumulatorI16(Bitmap65536DistinctCountAccumulatorI16);

/// The values that a [`Bitmap65536DistinctCountAccumulatorI16`] has seen.
pub uninterp spec fn int16_seen(counter: Bitmap65536DistinctCountAccumulatorI16) -> Set<i16>;

/// The rows of a `Int16Array`, with `None` for a null. Nothing is said of an array of
/// another type.
pub uninterp spec fn int16_rows(array: ArrayRef) -> Seq<Option<i16>>;

/// The lists of a `ListArray` of `Int16` items, with `None` for a null. The items of a list are
/// those in its values buffer, also where the list marks an item as null. Nothing is said of an
/// array of another type.
pub uninterp spec fn int16_lists(array: ArrayRef) -> Seq<Option<Seq<i16>>>;

/// A new counter has seen nothing. Trusted, as its source shows.
pub assume_specification[ Bitmap65536DistinctCountAccumulatorI16::new ]() -> (
    counter: Bitmap65536DistinctCountAccumulatorI16
)
    ensures
        int16_seen(counter) == Set::<i16>::empty(),
;

/// Calls `Accumulator::update_batch`. Trusted: the values of the first array that are present
/// are added to those seen, and an array of another type is refused.
#[verifier::external_body]
fn update_int16(
    counter: &mut Bitmap65536DistinctCountAccumulatorI16,
    values: &[ArrayRef],
) -> (r: Result<(), DataFusionError>)
    ensures
        inner_updated(
            int16_seen(*old(counter)),
            int16_seen(*final(counter)),
            r,
            values@.len(),
            arrays::only_if(
                arrays::array_type(values@[0]) is Int16,
                int16_rows(values@[0]),
            ),
        ),
{
    let columns: Vec<_> = values.iter().map(|column| column.array.clone()).collect();
    counter.update_batch(&columns)
}

/// Calls `Accumulator::merge_batch`. Trusted: the values of the lists of the first array are
/// added to those seen, and an array of another type is refused.
#[verifier::external_body]
fn merge_int16(
    counter: &mut Bitmap65536DistinctCountAccumulatorI16,
    states: &[ArrayRef],
) -> (r: Result<(), DataFusionError>)
    ensures
        inner_merged(
            int16_seen(*old(counter)),
            int16_seen(*final(counter)),
            r,
            states@.len(),
            lists_if(
                arrays::array_type(states@[0]),
                DataType::Int16,
                int16_lists(states@[0]),
                every_list_is_null(states@[0]),
            ),
        ),
{
    let columns: Vec<_> = states.iter().map(|column| column.array.clone()).collect();
    counter.merge_batch(&columns)
}

/// Calls `Accumulator::state`. Trusted: the state is one list, which holds each value seen
/// once, in ascending order of the values read as unsigned, with items under the default name of
/// list items.
#[verifier::external_body]
fn state_int16(counter: &mut Bitmap65536DistinctCountAccumulatorI16) -> (r: Result<
    Vec<ScalarValue>,
    DataFusionError,
>)
    ensures
        int16_seen(*final(counter)) == int16_seen(*old(counter)),
        r is Ok,
        r->Ok_0@.len() == 1,
        r->Ok_0@[0].is_list_of(DataType::Int16),
        r->Ok_0@[0] matches ScalarValue::List(list) && lists_set(
            Some(int16_lists(list)),
            int16_seen(*old(counter)),
            |value: i16| value as int % 0x1_0000,
        ),
{
    let state = counter.state()?.into_iter().map(|value| match value {
        datafusion_common::ScalarValue::List(list) => ScalarValue::List(ArrayRef { array: list }),
        other => ScalarValue::Other(other.to_string()),
    });
    Ok(state.collect())
}

/// Calls `Accumulator::evaluate`. Trusted: the result is the number of values seen, as a
/// 64-bit integer.
#[verifier::external_body]
fn evaluate_int16(
    counter: &mut Bitmap65536DistinctCountAccumulatorI16,
) -> (r: Result<InnerCount, DataFusionError>)
    ensures
        int16_seen(*final(counter)) == int16_seen(*old(counter)),
        r matches Ok(InnerCount::Int64(Some(count))) && count == int16_seen(*old(counter)).len(),
{
    match counter.evaluate()? {
        datafusion_common::ScalarValue::Int64(count) => Ok(InnerCount::Int64(count)),
        other => Ok(InnerCount::Other(other.to_string())),
    }
}

/// Calls `Accumulator::size`. Trusted: the result is the size of the counter and 8192 bytes on
/// top.
#[verifier::external_body]
fn size_int16(counter: &Bitmap65536DistinctCountAccumulatorI16) -> (bytes: usize)
    ensures
        bytes == vstd::layout::size_of::<Bitmap65536DistinctCountAccumulatorI16>() + 8192,
{
    counter.size()
}

impl DistinctCounter for Bitmap65536DistinctCountAccumulatorI16 {
    type Value = i16;

    open spec fn value_type() -> DataType {
        DataType::Int16
    }

    open spec fn seen(&self) -> Set<i16> {
        int16_seen(*self)
    }

    open spec fn place(value: i16) -> int {
        value as int % 0x1_0000
    }

    open spec fn rows(array: ArrayRef) -> Option<Seq<Option<i16>>> {
        arrays::only_if(arrays::array_type(array) is Int16, int16_rows(array))
    }

    open spec fn lists(array: ArrayRef) -> Option<Seq<Option<Seq<i16>>>> {
        lists_if(
            arrays::array_type(array),
            DataType::Int16,
            int16_lists(array),
            every_list_is_null(array),
        )
    }

    fn inner_update(&mut self, values: &[ArrayRef]) -> (r: Result<(), DataFusionError>) {
        update_int16(self, values)
    }

    fn inner_merge(&mut self, states: &[ArrayRef]) -> (r: Result<(), DataFusionError>) {
        merge_int16(self, states)
    }

    fn inner_state(&mut self) -> (r: Result<Vec<ScalarValue>, DataFusionError>) {
        state_int16(self)
    }

    fn inner_evaluate(&mut self) -> (r: Result<InnerCount, DataFusionError>) {
        evaluate_int16(self)
    }

    open spec fn value_bytes() -> nat {
        8192
    }

    fn inner_size(&self) -> (bytes: usize) {
        size_int16(self)
    }
}

/// The distinct count of an inner value: the number in it, read as unsigned.
pub fn distinct_count(value: InnerCount) -> (r: Result<ScalarValue, ApproxDistinctError>)
    ensures
        match value {
            InnerCount::Int64(Some(v)) => r matches Ok(ScalarValue::UInt64(Some(count))) && count
                == v as int % 0x1_0000_0000_0000_0000,
            _ => r is Err && r->Err_0.is_internal("unexpected: "@ + inner_text(value)),
        },
{
    match value {
        InnerCount::Int64(Some(v)) => {
            let count: u64 = v as u64;
            assert(count == v as int % 0x1_0000_0000_0000_0000) by {
                assert(v >= 0 ==> v as u64 == v) by (bit_vector);
                assert(v < 0 ==> v as u64 == v + 0x1_0000_0000_0000_0000) by (bit_vector);
            }
            Ok(ScalarValue::UInt64(Some(count)))
        },
        InnerCount::Int64(None) => {
            let mut message = "unexpected: ".to_owned();
            message.append("NULL");
            Err(ApproxDistinctError::Internal(message))
        },
        InnerCount::Other(text) => {
            let mut message = "unexpected: ".to_owned();
            message.append(text.as_str());
            Err(ApproxDistinctError::Internal(message))
        },
    }
}

/// The distinct count of what an inner accumulator evaluates to. Its error is handed on.
pub fn counted(inner: Result<InnerCount, DataFusionError>) -> (r: Result<
    ScalarValue,
    ApproxDistinctError,
>)
    ensures
        match inner {
            Ok(InnerCount::Int64(Some(v))) => r matches Ok(ScalarValue::UInt64(Some(count)))
                && count == v as int % 0x1_0000_0000_0000_0000,
            Ok(value) => r is Err && r->Err_0.is_internal("unexpected: "@ + inner_text(value)),
            Err(e) => r == Err::<ScalarValue, ApproxDistinctError>(ApproxDistinctError::Outside(e)),
        },
{
    match inner {
        Ok(value) => distinct_count(value),
        Err(e) => Err(ApproxDistinctError::Outside(e)),
    }
}

/// Accumulator for a column of small integers, which counts distinct values exactly.
#[derive(Debug)]
pub struct ApproxDistinctBitmapWrapper<A> {
    pub inner: A,
}

impl<A: DistinctCounter> ApproxDistinctBitmapWrapper<A> {
    /// Takes in the values that are present in the first column.
    pub fn update_batch(&mut self, values: &[ArrayRef]) -> (r: Result<(), ApproxDistinctError>)
        ensures
            values@.len() == 0 ==> r is Ok && final(self).inner.seen() == old(self).inner.seen(),
            values@.len() > 0 ==> match A::rows(values@[0]) {
                Some(rows) => r is Ok && final(self).inner.seen() == old(self).inner.seen().union(
                    optional::present(rows).to_set(),
                ),
                None => r matches Err(ApproxDistinctError::Outside(_)) && final(self).inner.seen()
                    == old(self).inner.seen(),
            },
    {
        error::handed_on(self.inner.inner_update(values))
    }

    /// The number of distinct values.
    pub fn evaluate(&mut self) -> (r: Result<ScalarValue, ApproxDistinctError>)
        ensures
            final(self).inner.seen() == old(self).inner.seen(),
            r matches Ok(ScalarValue::UInt64(Some(count))) && count
                == old(self).inner.seen().len(),
    {
        counted(self.inner.inner_evaluate())
    }

    /// The memory that the accumulator takes, in bytes.
    pub fn size(&self) -> (bytes: usize)
        ensures
            bytes == footprint::<A>(),
    {
        self.inner.inner_size()
    }

    /// The intermediate state: the values seen, as one list.
    pub fn state(&mut self) -> (r: Result<Vec<ScalarValue>, ApproxDistinctError>)
        ensures
            final(self).inner.seen() == old(self).inner.seen(),
            r is Ok,
            r->Ok_0@.len() == 1,
            is_counter_state::<A>(r->Ok_0@[0], old(self).inner.seen()),
    {
        error::handed_on(self.inner.inner_state())
    }

    /// Merges the states of other accumulators.
    pub fn merge_batch(&mut self, states: &[ArrayRef]) -> (r: Result<(), ApproxDistinctError>)
        ensures
            states@.len() == 0 ==> r is Ok && final(self).inner.seen() == old(self).inner.seen(),
            states@.len() > 0 ==> match A::lists(states@[0]) {
                Some(lists) => r is Ok && final(self).inner.seen() == old(self).inner.seen().union(
                    listed(lists).to_set(),
                ),
                None => r matches Err(ApproxDistinctError::Outside(_)) && final(self).inner.seen()
                    == old(self).inner.seen(),
            },
    {
        error::handed_on(self.inner.inner_merge(states))
    }
}

} // verus!
