//! Arrow columns, and what the aggregate reads from them.

use arrow::array::{Array, FixedSizeBinaryArray};
use arrow::datatypes::{
    Date32Type, Date64Type, Int32Type, Int64Type, Time32MillisecondType, Time32SecondType,
    Time64MicrosecondType, Time64NanosecondType, TimestampMicrosecondType,
    TimestampMillisecondType, TimestampNanosecondType, TimestampSecondType, UInt32Type, UInt64Type,
};
use datafusion_common::cast;
use vstd::prelude::*;
use crate::hashing::HllValue;
use crate::schema::{DataType, TimeUnit};

verus! {

/// An Arrow array of any type.
#[verifier::external_body]
#[derive(Debug)]
pub struct ArrayRef {
    pub array: arrow::array::ArrayRef,
}

/// An Arrow array of strings in the view layout.
#[verifier::external_body]
#[derive(Debug)]
pub struct StringViewArray {
    array: arrow::array::StringViewArray,
}

/// An Arrow array of byte strings of one width.
#[verifier::external_type_specification]
#[verifier::external_body]
pub struct ExFixedSizeBinaryArray(FixedSizeBinaryArray);

/// The error of the outside crates.
#[verifier::external_type_specification]
#[verifier::external_body]
pub struct ExDataFusionError(datafusion_common::DataFusionError);

/// The type of an array, as `Array::data_type` gives it: a type without a variant of its own
/// counts as `Other`, and metadata of list items is left out. An array of a third party, which
/// is not one of the implementations in `arrow`, counts as `Other` too, also as the items of a
/// list.
pub uninterp spec fn array_type(array: ArrayRef) -> DataType;

/// A value where a condition holds.
pub open spec fn only_if<A>(holds: bool, value: A) -> Option<A> {
    if holds { Some(value) } else { None }
}

/// What a cast to an array type returns: the rows of the array where it has the type, an
/// error where it has another.
pub open spec fn cast_rows<A>(
    result: Result<Vec<A>, datafusion_common::DataFusionError>,
    rows: Option<Seq<A>>,
) -> bool {
    match rows {
        Some(rows) => result is Ok && result->Ok_0@ == rows,
        None => result is Err,
    }
}

/// The characters of optional strings.
pub open spec fn characters(rows: Seq<Option<&str>>) -> Seq<Option<Seq<char>>> {
    rows.map_values(
        |row: Option<&str>|
            match row {
                Some(s) => Some(s@),
                None => None::<Seq<char>>,
            },
    )
}

/// The bytes of optional byte strings.
pub open spec fn contents(rows: Seq<Option<&[u8]>>) -> Seq<Option<Seq<u8>>> {
    rows.map_values(
        |row: Option<&[u8]>|
            match row {
                Some(b) => Some(b@),
                None => None::<Seq<u8>>,
            },
    )
}

/// An Arrow type with a fixed-width integer representation.
pub trait NumericType {
    /// The integers that represent the values.
    type Native: HllValue;

    /// The rows of an array of this type, with `None` for a null; `None` for an array of
    /// another type.
    spec fn rows(array: ArrayRef) -> Option<Seq<Option<Self::Native>>>;

    /// Reads the rows of an array of this type.
    fn cast(array: &ArrayRef) -> (rows: Result<
        Vec<Option<Self::Native>>,
        datafusion_common::DataFusionError,
    >)
        ensures
            cast_rows(rows, Self::rows(*array)),
    ;
}

/// The Arrow type marker [`UInt32Type`].
#[verifier::external_type_specification]
#[verifier::external_body]
pub struct ExUInt32Type(UInt32Type);

/// The rows of an array of [`UInt32Type`], with `None` for a null. Nothing is said
/// of an array of another type.
pub uninterp spec fn uint32_rows(array: ArrayRef) -> Seq<Option<u32>>;

/// Calls `datafusion_common::cast::as_uint32_array` and collects the items of
/// `PrimitiveArray::iter`. Trusted: the call succeeds just for an array of the type, because
/// each implementation of `Array` in `arrow` is for types of its own, and the items are a function
/// of the array.
#[verifier::external_body]
fn cast_uint32(array: &ArrayRef) -> (rows: Result<
    Vec<Option<u32>>,
    datafusion_common::DataFusionError,
>)
    ensures
        cast_rows(
            rows,
            only_if(array_type(*array) is UInt32, uint32_rows(*array)),
        ),
{
    Ok(cast::as_uint32_array(array.array.as_ref())?.iter().collect())
}

impl NumericType for UInt32Type {
    type Native = u32;

    open spec fn rows(array: ArrayRef) -> Option<Seq<Option<u32>>> {
        only_if(array_type(array) is UInt32, uint32_rows(array))
    }

    fn cast(array: &ArrayRef) -> (rows: Result<
        Vec<Option<u32>>,
        datafusion_common::DataFusionError,
    >) {
        cast_uint32(array)
    }
}

/// The Arrow type marker [`UInt64Type`].
#[verifier::external_type_specification]
#[verifier::external_body]
pub struct ExUInt64Type(UInt64Type);

/// The rows of an array of [`UInt64Type`], with `None` for a null. Nothing is said
/// of an array of another type.
pub uninterp spec fn uint64_rows(array: ArrayRef) -> Seq<Option<u64>>;

/// Calls `datafusion_common::cast::as_uint64_array` and collects the items of
/// `PrimitiveArray::iter`. Trusted: the call succeeds just for an array of the type, because
/// each implementation of `Array` in `arrow` is for types of its own, and the items are a function
/// of the array.
#[verifier::external_body]
fn cast_uint64(array: &ArrayRef) -> (rows: Result<
    Vec<Option<u64>>,
    datafusion_common::DataFusionError,
>)
    ensures
        cast_rows(
            rows,
            only_if(array_type(*array) is UInt64, uint64_rows(*array)),
        ),
{
    Ok(cast::as_uint64_array(array.array.as_ref())?.iter().collect())
}

impl NumericType for UInt64Type {
    type Native = u64;

    open spec fn rows(array: ArrayRef) -> Option<Seq<Option<u64>>> {
        only_if(array_type(array) is UInt64, uint64_rows(array))
    }

    fn cast(array: &ArrayRef) -> (rows: Result<
        Vec<Option<u64>>,
        datafusion_common::DataFusionError,
    >) {
        cast_uint64(array)
    }
}

/// The Arrow type marker [`Int32Type`].
#[verifier::external_type_specification]
#[verifier::external_body]
pub struct ExInt32Type(Int32Type);

/// The rows of an array of [`Int32Type`], with `None` for a null. Nothing is said
/// of an array of another type.
pub uninterp spec fn int32_rows(array: ArrayRef) -> Seq<Option<i32>>;

/// Calls `datafusion_common::cast::as_int32_array` and collects the items of
/// `PrimitiveArray::iter`. Trusted: the call succeeds just for an array of the type, because
/// each implementation of `Array` in `arrow` is for types of its own, and the items are a function
/// of the array.
#[verifier::external_body]
fn cast_int32(array: &ArrayRef) -> (rows: Result<
    Vec<Option<i32>>,
    datafusion_common::DataFusionError,
>)
    ensures
        cast_rows(
            rows,
            only_if(array_type(*array) is Int32, int32_rows(*array)),
        ),
{
    Ok(cast::as_int32_array(array.array.as_ref())?.iter().collect())
}

impl NumericType for Int32Type {
    type Native = i32;

    open spec fn rows(array: ArrayRef) -> Option<Seq<Option<i32>>> {
        only_if(array_type(array) is Int32, int32_rows(array))
    }

    fn cast(array: &ArrayRef) -> (rows: Result<
        Vec<Option<i32>>,
        datafusion_common::DataFusionError,
    >) {
        cast_int32(array)
    }
}

/// The Arrow type marker [`Int64Type`].
#[verifier::external_type_specification]
#[verifier::external_body]
pub struct ExInt64Type(Int64Type);

/// The rows of an array of [`Int64Type`], with `None` for a null. Nothing is said
/// of an array of another type.
pub uninterp spec fn int64_rows(array: ArrayRef) -> Seq<Option<i64>>;

/// Calls `datafusion_common::cast::as_int64_array` and collects the items of
/// `PrimitiveArray::iter`. Trusted: the call succeeds just for an array of the type, because
/// each implementation of `Array` in `arrow` is for types of its own, and the items are a function
/// of the array.
#[verifier::external_body]
fn cast_int64(array: &ArrayRef) -> (rows: Result<
    Vec<Option<i64>>,
    datafusion_common::DataFusionError,
>)
    ensures
        cast_rows(
            rows,
            only_if(array_type(*array) is Int64, int64_rows(*array)),
        ),
{
    Ok(cast::as_int64_array(array.array.as_ref())?.iter().collect())
}

impl NumericType for Int64Type {
    type Native = i64;

    open spec fn rows(array: ArrayRef) -> Option<Seq<Option<i64>>> {
        only_if(array_type(array) is Int64, int64_rows(array))
    }

    fn cast(array: &ArrayRef) -> (rows: Result<
        Vec<Option<i64>>,
        datafusion_common::DataFusionError,
    >) {
        cast_int64(array)
    }
}

/// The Arrow type marker [`Date32Type`].
#[verifier::external_type_specification]
#[verifier::external_body]
pub struct ExDate32Type(Date32Type);

/// The rows of an array of [`Date32Type`], with `None` for a null. Nothing is said
/// of an array of another type.
pub uninterp spec fn date32_rows(array: ArrayRef) -> Seq<Option<i32>>;

/// Calls `datafusion_common::cast::as_date32_array` and collects the items of
/// `PrimitiveArray::iter`. Trusted: the call succeeds just for an array of the type, because
/// each implementation of `Array` in `arrow` is for types of its own, and the items are a function
/// of the array.
#[verifier::external_body]
fn cast_date32(array: &ArrayRef) -> (rows: Result<
    Vec<Option<i32>>,
    datafusion_common::DataFusionError,
>)
    ensures
        cast_rows(
            rows,
            only_if(array_type(*array) is Date32, date32_rows(*array)),
        ),
{
    Ok(cast::as_date32_array(array.array.as_ref())?.iter().collect())
}

impl NumericType for Date32Type {
    type Native = i32;

    open spec fn rows(array: ArrayRef) -> Option<Seq<Option<i32>>> {
        only_if(array_type(array) is Date32, date32_rows(array))
    }

    fn cast(array: &ArrayRef) -> (rows: Result<
        Vec<Option<i32>>,
        datafusion_common::DataFusionError,
    >) {
        cast_date32(array)
    }
}

/// The Arrow type marker [`Date64Type`].
#[verifier::external_type_specification]
#[verifier::external_body]
pub struct ExDate64Type(Date64Type);

/// The rows of an array of [`Date64Type`], with `None` for a null. Nothing is said
/// of an array of another type.
pub uninterp spec fn date64_rows(array: ArrayRef) -> Seq<Option<i64>>;

/// Calls `datafusion_common::cast::as_date64_array` and collects the items of
/// `PrimitiveArray::iter`. Trusted: the call succeeds just for an array of the type, because
/// each implementation of `Array` in `arrow` is for types of its own, and the items are a function
/// of the array.
#[verifier::external_body]
fn cast_date64(array: &ArrayRef) -> (rows: Result<
    Vec<Option<i64>>,
    datafusion_common::DataFusionError,
>)
    ensures
        cast_rows(
            rows,
            only_if(array_type(*array) is Date64, date64_rows(*array)),
        ),
{
    Ok(cast::as_date64_array(array.array.as_ref())?.iter().collect())
}

impl NumericType for Date64Type {
    type Native = i64;

    open spec fn rows(array: ArrayRef) -> Option<Seq<Option<i64>>> {
        only_if(array_type(array) is Date64, date64_rows(array))
    }

    fn cast(array: &ArrayRef) -> (rows: Result<
        Vec<Option<i64>>,
        datafusion_common::DataFusionError,
    >) {
        cast_date64(array)
    }
}

/// The Arrow type marker [`Time32SecondType`].
#[verifier::external_type_specification]
#[verifier::external_body]
pub struct ExTime32SecondType(Time32SecondType);

/// The rows of an array of [`Time32SecondType`], with `None` for a null. Nothing is said
/// of an array of another type.
pub uninterp spec fn time32_second_rows(array: ArrayRef) -> Seq<Option<i32>>;

/// Calls `datafusion_common::cast::as_time32_second_array` and collects the items of
/// `PrimitiveArray::iter`. Trusted: the call succeeds just for an array of the type, because
/// each implementation of `Array` in `arrow` is for types of its own, and the items are a function
/// of the array.
#[verifier::external_body]
fn cast_time32_second(array: &ArrayRef) -> (rows: Result<
    Vec<Option<i32>>,
    datafusion_common::DataFusionError,
>)
    ensures
        cast_rows(
            rows,
            only_if(
                array_type(*array) == DataType::Time32(TimeUnit::Second),
                time32_second_rows(*array),
            ),
        ),
{
    Ok(cast::as_time32_second_array(array.array.as_ref())?.iter().collect())
}

impl NumericType for Time32SecondType {
    type Native = i32;

    open spec fn rows(array: ArrayRef) -> Option<Seq<Option<i32>>> {
        only_if(array_type(array) == DataType::Time32(TimeUnit::Second), time32_second_rows(array))
    }

    fn cast(array: &ArrayRef) -> (rows: Result<
        Vec<Option<i32>>,
        datafusion_common::DataFusionError,
    >) {
        cast_time32_second(array)
    }
}

/// The Arrow type marker [`Time32MillisecondType`].
#[verifier::external_type_specification]
#[verifier::external_body]
pub struct ExTime32MillisecondType(Time32MillisecondType);

/// The rows of an array of [`Time32MillisecondType`], with `None` for a null. Nothing is said
/// of an array of another type.
pub uninterp spec fn time32_millisecond_rows(array: ArrayRef) -> Seq<Option<i32>>;

/// Calls `datafusion_common::cast::as_time32_millisecond_array` and collects the items of
/// `PrimitiveArray::iter`. Trusted: the call succeeds just for an array of the type, because
/// each implementation of `Array` in `arrow` is for types of its own, and the items are a function
/// of the array.
#[verifier::external_body]
fn cast_time32_millisecond(array: &ArrayRef) -> (rows: Result<
    Vec<Option<i32>>,
    datafusion_common::DataFusionError,
>)
    ensures
        cast_rows(
            rows,
            only_if(
                array_type(*array) == DataType::Time32(TimeUnit::Millisecond),
                time32_millisecond_rows(*array),
            ),
        ),
{
    Ok(cast::as_time32_millisecond_array(array.array.as_ref())?.iter().collect())
}

impl NumericType for Time32MillisecondType {
    type Native = i32;

    open spec fn rows(array: ArrayRef) -> Option<Seq<Option<i32>>> {
        only_if(
            array_type(array) == DataType::Time32(TimeUnit::Millisecond),
            time32_millisecond_rows(array),
        )
    }

    fn cast(array: &ArrayRef) -> (rows: Result<
        Vec<Option<i32>>,
        datafusion_common::DataFusionError,
    >) {
        cast_time32_millisecond(array)
    }
}

/// The Arrow type marker [`Time64MicrosecondType`].
#[verifier::external_type_specification]
#[verifier::external_body]
pub struct ExTime64MicrosecondType(Time64MicrosecondType);

/// The rows of an array of [`Time64MicrosecondType`], with `None` for a null. Nothing is said
/// of an array of another type.
pub uninterp spec fn time64_microsecond_rows(array: ArrayRef) -> Seq<Option<i64>>;

/// Calls `datafusion_common::cast::as_time64_microsecond_array` and collects the items of
/// `PrimitiveArray::iter`. Trusted: the call succeeds just for an array of the type, because
/// each implementation of `Array` in `arrow` is for types of its own, and the items are a function
/// of the array.
#[verifier::external_body]
fn cast_time64_microsecond(array: &ArrayRef) -> (rows: Result<
    Vec<Option<i64>>,
    datafusion_common::DataFusionError,
>)
    ensures
        cast_rows(
            rows,
            only_if(
                array_type(*array) == DataType::Time64(TimeUnit::Microsecond),
                time64_microsecond_rows(*array),
            ),
        ),
{
    Ok(cast::as_time64_microsecond_array(array.array.as_ref())?.iter().collect())
}

impl NumericType for Time64MicrosecondType {
    type Native = i64;

    open spec fn rows(array: ArrayRef) -> Option<Seq<Option<i64>>> {
        only_if(
            array_type(array) == DataType::Time64(TimeUnit::Microsecond),
            time64_microsecond_rows(array),
        )
    }

    fn cast(array: &ArrayRef) -> (rows: Result<
        Vec<Option<i64>>,
        datafusion_common::DataFusionError,
    >) {
        cast_time64_microsecond(array)
    }
}

/// The Arrow type marker [`Time64NanosecondType`].
#[verifier::external_type_specification]
#[verifier::external_body]
pub struct ExTime64NanosecondType(Time64NanosecondType);

/// The rows of an array of [`Time64NanosecondType`], with `None` for a null. Nothing is said
/// of an array of another type.
pub uninterp spec fn time64_nanosecond_rows(array: ArrayRef) -> Seq<Option<i64>>;

/// Calls `datafusion_common::cast::as_time64_nanosecond_array` and collects the items of
/// `PrimitiveArray::iter`. Trusted: the call succeeds just for an array of the type, because
/// each implementation of `Array` in `arrow` is for types of its own, and the items are a function
/// of the array.
#[verifier::external_body]
fn cast_time64_nanosecond(array: &ArrayRef) -> (rows: Result<
    Vec<Option<i64>>,
    datafusion_common::DataFusionError,
>)
    ensures
        cast_rows(
            rows,
            only_if(
                array_type(*array) == DataType::Time64(TimeUnit::Nanosecond),
                time64_nanosecond_rows(*array),
            ),
        ),
{
    Ok(cast::as_time64_nanosecond_array(array.array.as_ref())?.iter().collect())
}

impl NumericType for Time64NanosecondType {
    type Native = i64;

    open spec fn rows(array: ArrayRef) -> Option<Seq<Option<i64>>> {
        only_if(
            array_type(array) == DataType::Time64(TimeUnit::Nanosecond),
            time64_nanosecond_rows(array),
        )
    }

    fn cast(array: &ArrayRef) -> (rows: Result<
        Vec<Option<i64>>,
        datafusion_common::DataFusionError,
    >) {
        cast_time64_nanosecond(array)
    }
}

/// The Arrow type marker [`TimestampSecondType`].
#[verifier::external_type_specification]
#[verifier::external_body]
pub struct ExTimestampSecondType(TimestampSecondType);

/// The rows of an array of [`TimestampSecondType`], with `None` for a null. Nothing is said
/// of an array of another type.
pub uninterp spec fn timestamp_second_rows(array: ArrayRef) -> Seq<Option<i64>>;

/// Calls `datafusion_common::cast::as_timestamp_second_array` and collects the items of
/// `PrimitiveArray::iter`. Trusted: the call succeeds just for an array of the type, because
/// each implementation of `Array` in `arrow` is for types of its own, and the items are a function
/// of the array.
#[verifier::external_body]
fn cast_timestamp_second(array: &ArrayRef) -> (rows: Result<
    Vec<Option<i64>>,
    datafusion_common::DataFusionError,
>)
    ensures
        cast_rows(
            rows,
            only_if(
                array_type(*array).is_timestamp_in(TimeUnit::Second),
                timestamp_second_rows(*array),
            ),
        ),
{
    Ok(cast::as_timestamp_second_array(array.array.as_ref())?.iter().collect())
}

impl NumericType for TimestampSecondType {
    type Native = i64;

    open spec fn rows(array: ArrayRef) -> Option<Seq<Option<i64>>> {
        only_if(array_type(array).is_timestamp_in(TimeUnit::Second), timestamp_second_rows(array))
    }

    fn cast(array: &ArrayRef) -> (rows: Result<
        Vec<Option<i64>>,
        datafusion_common::DataFusionError,
    >) {
        cast_timestamp_second(array)
    }
}

/// The Arrow type marker [`TimestampMillisecondType`].
#[verifier::external_type_specification]
#[verifier::external_body]
pub struct ExTimestampMillisecondType(TimestampMillisecondType);

/// The rows of an array of [`TimestampMillisecondType`], with `None` for a null. Nothing is said
/// of an array of another type.
pub uninterp spec fn timestamp_millisecond_rows(array: ArrayRef) -> Seq<Option<i64>>;

/// Calls `datafusion_common::cast::as_timestamp_millisecond_array` and collects the items of
/// `PrimitiveArray::iter`. Trusted: the call succeeds just for an array of the type, because
/// each implementation of `Array` in `arrow` is for types of its own, and the items are a function
/// of the array.
#[verifier::external_body]
fn cast_timestamp_millisecond(array: &ArrayRef) -> (rows: Result<
    Vec<Option<i64>>,
    datafusion_common::DataFusionError,
>)
    ensures
        cast_rows(
            rows,
            only_if(
                array_type(*array).is_timestamp_in(TimeUnit::Millisecond),
                timestamp_millisecond_rows(*array),
            ),
        ),
{
    Ok(cast::as_timestamp_millisecond_array(array.array.as_ref())?.iter().collect())
}

impl NumericType for TimestampMillisecondType {
    type Native = i64;

    open spec fn rows(array: ArrayRef) -> Option<Seq<Option<i64>>> {
        only_if(
            array_type(array).is_timestamp_in(TimeUnit::Millisecond),
            timestamp_millisecond_rows(array),
        )
    }

    fn cast(array: &ArrayRef) -> (rows: Result<
        Vec<Option<i64>>,
        datafusion_common::DataFusionError,
    >) {
        cast_timestamp_millisecond(array)
    }
}

/// The Arrow type marker [`TimestampMicrosecondType`].
#[verifier::external_type_specification]
#[verifier::external_body]
pub struct ExTimestampMicrosecondType(TimestampMicrosecondType);

/// The rows of an array of [`TimestampMicrosecondType`], with `None` for a null. Nothing is said
/// of an array of another type.
pub uninterp spec fn timestamp_microsecond_rows(array: ArrayRef) -> Seq<Option<i64>>;

/// Calls `datafusion_common::cast::as_timestamp_microsecond_array` and collects the items of
/// `PrimitiveArray::iter`. Trusted: the call succeeds just for an array of the type, because
/// each implementation of `Array` in `arrow` is for types of its own, and the items are a function
/// of the array.
#[verifier::external_body]
fn cast_timestamp_microsecond(array: &ArrayRef) -> (rows: Result<
    Vec<Option<i64>>,
    datafusion_common::DataFusionError,
>)
    ensures
        cast_rows(
            rows,
            only_if(
                array_type(*array).is_timestamp_in(TimeUnit::Microsecond),
                timestamp_microsecond_rows(*array),
            ),
        ),
{
    Ok(cast::as_timestamp_microsecond_array(array.array.as_ref())?.iter().collect())
}

impl NumericType for TimestampMicrosecondType {
    type Native = i64;

    open spec fn rows(array: ArrayRef) -> Option<Seq<Option<i64>>> {
        only_if(
            array_type(array).is_timestamp_in(TimeUnit::Microsecond),
            timestamp_microsecond_rows(array),
        )
    }

    fn cast(array: &ArrayRef) -> (rows: Result<
        Vec<Option<i64>>,
        datafusion_common::DataFusionError,
    >) {
        cast_timestamp_microsecond(array)
    }
}

/// The Arrow type marker [`TimestampNanosecondType`].
#[verifier::external_type_specification]
#[verifier::external_body]
pub struct ExTimestampNanosecondType(TimestampNanosecondType);

/// The rows of an array of [`TimestampNanosecondType`], with `None` for a null. Nothing is said
/// of an array of another type.
pub uninterp spec fn timestamp_nanosecond_rows(array: ArrayRef) -> Seq<Option<i64>>;

/// Calls `datafusion_common::cast::as_timestamp_nanosecond_array` and collects the items of
/// `PrimitiveArray::iter`. Trusted: the call succeeds just for an array of the type, because
/// each implementation of `Array` in `arrow` is for types of its own, and the items are a function
/// of the array.
#[verifier::external_body]
fn cast_timestamp_nanosecond(array: &ArrayRef) -> (rows: Result<
    Vec<Option<i64>>,
    datafusion_common::DataFusionError,
>)
    ensures
        cast_rows(
            rows,
            only_if(
                array_type(*array).is_timestamp_in(TimeUnit::Nanosecond),
                timestamp_nanosecond_rows(*array),
            ),
        ),
{
    Ok(cast::as_timestamp_nanosecond_array(array.array.as_ref())?.iter().collect())
}

impl NumericType for TimestampNanosecondType {
    type Native = i64;

    open spec fn rows(array: ArrayRef) -> Option<Seq<Option<i64>>> {
        only_if(
            array_type(array).is_timestamp_in(TimeUnit::Nanosecond),
            timestamp_nanosecond_rows(array),
        )
    }

    fn cast(array: &ArrayRef) -> (rows: Result<
        Vec<Option<i64>>,
        datafusion_common::DataFusionError,
    >) {
        cast_timestamp_nanosecond(array)
    }
}

/// The width of the offsets of a string or binary array.
pub trait OffsetSize {
    /// The rows of a string array with such offsets, with `None` for a null; `None` for an
    /// array of another type.
    spec fn string_rows(array: ArrayRef) -> Option<Seq<Option<Seq<char>>>>;

    /// The rows of a binary array with such offsets, with `None` for a null; `None` for an
    /// array of another type.
    spec fn binary_rows(array: ArrayRef) -> Option<Seq<Option<Seq<u8>>>>;

    /// Reads the rows of a string array.
    fn cast_string(array: &ArrayRef) -> (rows: Result<
        Vec<Option<&str>>,
        datafusion_common::DataFusionError,
    >)
        ensures
            cast_string_rows(rows, Self::string_rows(*array)),
    ;

    /// Reads the rows of a binary array.
    fn cast_binary(array: &ArrayRef) -> (rows: Result<
        Vec<Option<&[u8]>>,
        datafusion_common::DataFusionError,
    >)
        ensures
            cast_binary_rows(rows, Self::binary_rows(*array)),
    ;
}

/// What a cast to a string array type returns.
pub open spec fn cast_string_rows(
    result: Result<Vec<Option<&str>>, datafusion_common::DataFusionError>,
    rows: Option<Seq<Option<Seq<char>>>>,
) -> bool {
    match rows {
        Some(rows) => result is Ok && characters(result->Ok_0@) == rows,
        None => result is Err,
    }
}

/// What a cast to a binary array type returns.
pub open spec fn cast_binary_rows(
    result: Result<Vec<Option<&[u8]>>, datafusion_common::DataFusionError>,
    rows: Option<Seq<Option<Seq<u8>>>>,
) -> bool {
    match rows {
        Some(rows) => result is Ok && contents(result->Ok_0@) == rows,
        None => result is Err,
    }
}

/// The rows of a `StringArray`, with `None` for a null. Nothing is said
/// of an array of another type.
pub uninterp spec fn string_rows(array: ArrayRef) -> Seq<Option<Seq<char>>>;

/// The rows of a `BinaryArray`, with `None` for a null. Nothing is said
/// of an array of another type.
pub uninterp spec fn binary_rows(array: ArrayRef) -> Seq<Option<Seq<u8>>>;

/// Calls `datafusion_common::cast::as_string_array` and collects the items of
/// `GenericByteArray::iter`. Trusted: the call succeeds just for an array of the type, because
/// each implementation of `Array` in `arrow` is for types of its own, and the items are a function
/// of the array.
#[verifier::external_body]
fn cast_string(array: &ArrayRef) -> (rows: Result<
    Vec<Option<&str>>,
    datafusion_common::DataFusionError,
>)
    ensures
        cast_string_rows(
            rows,
            only_if(array_type(*array) is Utf8, string_rows(*array)),
        ),
{
    Ok(cast::as_string_array(array.array.as_ref())?.iter().collect())
}

/// Calls `datafusion_common::cast::as_generic_binary_array` and collects the items of
/// `GenericByteArray::iter`. Trusted: the call succeeds just for an array of the type, because
/// each implementation of `Array` in `arrow` is for types of its own, and the items are a function
/// of the array.
#[verifier::external_body]
fn cast_binary(array: &ArrayRef) -> (rows: Result<
    Vec<Option<&[u8]>>,
    datafusion_common::DataFusionError,
>)
    ensures
        cast_binary_rows(
            rows,
            only_if(array_type(*array) is Binary, binary_rows(*array)),
        ),
{
    Ok(cast::as_generic_binary_array::<i32>(array.array.as_ref())?.iter().collect())
}

impl OffsetSize for i32 {
    open spec fn string_rows(array: ArrayRef) -> Option<Seq<Option<Seq<char>>>> {
        only_if(array_type(array) is Utf8, string_rows(array))
    }

    open spec fn binary_rows(array: ArrayRef) -> Option<Seq<Option<Seq<u8>>>> {
        only_if(array_type(array) is Binary, binary_rows(array))
    }

    fn cast_string(array: &ArrayRef) -> (rows: Result<
        Vec<Option<&str>>,
        datafusion_common::DataFusionError,
    >) {
        cast_string(array)
    }

    fn cast_binary(array: &ArrayRef) -> (rows: Result<
        Vec<Option<&[u8]>>,
        datafusion_common::DataFusionError,
    >) {
        cast_binary(array)
    }
}

/// The rows of a `LargeStringArray`, with `None` for a null. Nothing is said
/// of an array of another type.
pub uninterp spec fn large_string_rows(array: ArrayRef) -> Seq<Option<Seq<char>>>;

/// The rows of a `LargeBinaryArray`, with `None` for a null. Nothing is said
/// of an array of another type.
pub uninterp spec fn large_binary_rows(array: ArrayRef) -> Seq<Option<Seq<u8>>>;

/// Calls `datafusion_common::cast::as_large_string_array` and collects the items of
/// `GenericByteArray::iter`. Trusted: the call succeeds just for an array of the type, because
/// each implementation of `Array` in `arrow` is for types of its own, and the items are a function
/// of the array.
#[verifier::external_body]
fn cast_large_string(array: &ArrayRef) -> (rows: Result<
    Vec<Option<&str>>,
    datafusion_common::DataFusionError,
>)
    ensures
        cast_string_rows(
            rows,
            only_if(array_type(*array) is LargeUtf8, large_string_rows(*array)),
        ),
{
    Ok(cast::as_large_string_array(array.array.as_ref())?.iter().collect())
}

/// Calls `datafusion_common::cast::as_generic_binary_array` and collects the items of
/// `GenericByteArray::iter`. Trusted: the call succeeds just for an array of the type, because
/// each implementation of `Array` in `arrow` is for types of its own, and the items are a function
/// of the array.
#[verifier::external_body]
fn cast_large_binary(array: &ArrayRef) -> (rows: Result<
    Vec<Option<&[u8]>>,
    datafusion_common::DataFusionError,
>)
    ensures
        cast_binary_rows(
            rows,
            only_if(array_type(*array) is LargeBinary, large_binary_rows(*array)),
        ),
{
    Ok(cast::as_generic_binary_array::<i64>(array.array.as_ref())?.iter().collect())
}

impl OffsetSize for i64 {
    open spec fn string_rows(array: ArrayRef) -> Option<Seq<Option<Seq<char>>>> {
        only_if(array_type(array) is LargeUtf8, large_string_rows(array))
    }

    open spec fn binary_rows(array: ArrayRef) -> Option<Seq<Option<Seq<u8>>>> {
        only_if(array_type(array) is LargeBinary, large_binary_rows(array))
    }

    fn cast_string(array: &ArrayRef) -> (rows: Result<
        Vec<Option<&str>>,
        datafusion_common::DataFusionError,
    >) {
        cast_large_string(array)
    }

    fn cast_binary(array: &ArrayRef) -> (rows: Result<
        Vec<Option<&[u8]>>,
        datafusion_common::DataFusionError,
    >) {
        cast_large_binary(array)
    }
}

/// Greatest number of bytes that a string view holds inline.
pub const MAX_INLINE_LEN: u32 = 12;

/// An array as the string view array that it is. Nothing is said of an array of another type.
pub uninterp spec fn string_view(array: ArrayRef) -> StringViewArray;

/// The rows of a string view array, with `None` for a null.
pub uninterp spec fn string_view_rows(array: StringViewArray) -> Seq<Option<Seq<char>>>;

/// The views of a string view array, one for each row.
pub uninterp spec fn string_view_words(array: StringViewArray) -> Seq<u128>;

/// The number of data buffers of a string view array.
pub uninterp spec fn string_view_buffers(array: StringViewArray) -> nat;

/// The number whose base-256 digits are the given bytes, least significant first.
pub open spec fn little_endian(bytes: Seq<u8>) -> nat
    decreases bytes.len(),
{
    if bytes.len() == 0 {
        0
    } else {
        bytes.first() as nat + 256 * little_endian(bytes.drop_first())
    }
}

/// The view of a string that is held inline: its length in the low 32 bits, its bytes above,
/// zeros in the rest.
pub open spec fn inline_view(bytes: Seq<u8>) -> nat {
    bytes.len() + 0x1_0000_0000 * little_endian(bytes)
}

/// A view is one of a given string: it holds the length, and the whole of a short string.
pub open spec fn is_view_of(view: u128, s: Seq<char>) -> bool {
    let bytes = vstd::utf8::encode_utf8(s);
    &&& view as nat % 0x1_0000_0000 == bytes.len()
    &&& bytes.len() <= MAX_INLINE_LEN ==> view == inline_view(bytes)
}

/// Calls `datafusion_common::cast::as_string_view_array`. Trusted: the call succeeds just for
/// an array of the type, and returns that array.
#[verifier::external_body]
pub(crate) fn cast_string_view(array: &ArrayRef) -> (view: Result<
    StringViewArray,
    datafusion_common::DataFusionError,
>)
    ensures
        if array_type(*array) is Utf8View {
            view == Ok::<StringViewArray, datafusion_common::DataFusionError>(string_view(*array))
        } else {
            view is Err
        },
{
    Ok(StringViewArray { array: cast::as_string_view_array(array.array.as_ref())?.clone() })
}

/// Calls `GenericByteViewArray::data_buffers` and counts them. Trusted: without data buffers every
/// string that is present is held inline, as `arrow_data::validate_string_view` asks of an array.
#[verifier::external_body]
pub(crate) fn data_buffer_count(array: &StringViewArray) -> (count: usize)
    ensures
        count == string_view_buffers(*array),
        count == 0 ==> forall|i: int|
            0 <= i < string_view_rows(*array).len() ==> (#[trigger] string_view_rows(
                *array,
            )[i] matches Some(s) ==> vstd::utf8::encode_utf8(s).len() <= MAX_INLINE_LEN),
{
    array.array.data_buffers().len()
}

/// Calls `GenericByteViewArray::views`. Trusted: there is a view for each row, and where the
/// row is present it is the view of the string, in the layout that
/// `arrow_data::validate_string_view` asks of an array.
#[verifier::external_body]
pub(crate) fn views(array: &StringViewArray) -> (words: &[u128])
    ensures
        words@ == string_view_words(*array),
        words@.len() == string_view_rows(*array).len(),
        forall|i: int|
            0 <= i < words@.len() ==> (#[trigger] string_view_rows(*array)[i] matches Some(s)
                ==> is_view_of(words@[i], s)),
{
    array.array.views()
}

/// Calls `Array::is_null`. Trusted: a row is null where it has no string.
#[verifier::external_body]
pub(crate) fn is_null(array: &StringViewArray, i: usize) -> (null: bool)
    requires
        i < string_view_rows(*array).len(),
    ensures
        null == (string_view_rows(*array)[i as int] is None),
{
    array.array.is_null(i)
}

/// Calls `GenericByteViewArray::value`. Trusted: it returns the string of a row that is
/// present. The string that it returns for a null row is left open.
#[verifier::external_body]
pub(crate) fn value(array: &StringViewArray, i: usize) -> (s: &str)
    requires
        i < string_view_rows(*array).len(),
    ensures
        string_view_rows(*array)[i as int] is Some ==> string_view_rows(*array)[i as int] == Some(
            s@,
        ),
{
    array.array.value(i)
}

/// An array as the fixed-size binary array that it is. Nothing is said of an array of another
/// type.
pub uninterp spec fn fixed_size_binary(array: ArrayRef) -> FixedSizeBinaryArray;

/// The width of the values of a fixed-size binary array.
pub uninterp spec fn fixed_size_width(array: FixedSizeBinaryArray) -> i32;

/// The rows of a fixed-size binary array, with `None` for a null.
pub uninterp spec fn fixed_size_rows(array: FixedSizeBinaryArray) -> Seq<Option<Seq<u8>>>;

/// The text of the type of an array.
pub uninterp spec fn type_text(array: ArrayRef) -> Seq<char>;

/// Calls `Array::as_any` and `downcast_ref`. Trusted: it returns the array itself just where
/// it is a fixed-size binary array, and its type then tells the width of its values.
#[verifier::external_body]
pub(crate) fn downcast_fixed_size_binary(array: &ArrayRef) -> (binary: Option<
    &FixedSizeBinaryArray,
>)
    ensures
        match array_type(*array) {
            DataType::FixedSizeBinary(width) => binary == Some(&fixed_size_binary(*array))
                && fixed_size_width(*binary->Some_0) == width,
            _ => binary is None,
        },
{
    array.array.as_any().downcast_ref::<FixedSizeBinaryArray>()
}

/// The width of the values of a fixed-size binary array. Trusted: it is a function of the
/// array.
pub assume_specification[ FixedSizeBinaryArray::value_length ](
    array: &FixedSizeBinaryArray,
) -> (width: i32)
    ensures
        width == fixed_size_width(*array),
;

/// Collects the items of `FixedSizeBinaryArray::iter`. Trusted: they are a function of the
/// array, and each one that is present has the width of the array.
#[verifier::external_body]
pub(crate) fn fixed_size_items(array: &FixedSizeBinaryArray) -> (rows: Vec<Option<&[u8]>>)
    ensures
        contents(rows@) == fixed_size_rows(*array),
        forall|i: int|
            0 <= i < rows@.len() ==> (#[trigger] rows@[i] matches Some(bytes) ==> bytes@.len()
                == fixed_size_width(*array)),
{
    array.iter().collect()
}

/// Calls `Array::data_type` and formats the type with `Display`. Trusted: the text is a
/// function of the array.
#[verifier::external_body]
pub(crate) fn data_type_text(array: &ArrayRef) -> (text: String)
    ensures
        text@ == type_text(*array),
{
    array.array.data_type().to_string()
}

} // verus!
