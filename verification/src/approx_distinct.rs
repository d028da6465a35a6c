//! The aggregate function `approx_distinct`.

use arrow::datatypes::{
    Date32Type, Date64Type, Int32Type, Int64Type, Time32MillisecondType, Time32SecondType,
    Time64MicrosecondType, Time64NanosecondType, TimestampMicrosecondType,
    TimestampMillisecondType, TimestampNanosecondType, TimestampSecondType, UInt32Type, UInt64Type,
};
use datafusion_expr::Signature;
use datafusion_functions_aggregate_common::aggregate::count_distinct::{
    Bitmap65536DistinctCountAccumulator, Bitmap65536DistinctCountAccumulatorI16,
    BoolArray256DistinctCountAccumulator, BoolArray256DistinctCountAccumulatorI8,
};
use vstd::prelude::*;
use crate::accumulator;
use crate::accumulator::ApproxDistinctAccumulator;
use crate::accumulators::{
    BinaryHLLAccumulator, NumericHLLAccumulator, StringHLLAccumulator, StringViewHLLAccumulator,
};
use crate::error::ApproxDistinctError;
use crate::scalar::APPROX_DISTINCT_HLL_STATE_SIZE;
use crate::schema;
use crate::schema::{DataType, Field, TimeUnit};
use crate::small_int::ApproxDistinctBitmapWrapper;
use crate::text;

verus! {

/// What may change the result of a function between calls.
#[derive(Clone, Copy, Debug, PartialEq, Eq, Structural)]
pub enum Volatility {
    /// The same arguments always give the same result.
    Immutable,
    /// The same arguments give the same result within one query.
    Stable,
    /// The result may change from one call to the next.
    Volatile,
}

/// The argument types that a function takes.
#[verifier::external_type_specification]
#[verifier::external_body]
pub struct ExSignature(Signature);

/// The signature of a function that takes a number of arguments of any types.
pub uninterp spec fn any_signature(arg_count: nat, volatility: Volatility) -> Signature;

/// Calls `datafusion_expr::Signature::any`. Trusted: the signature is a function of the
/// number of arguments and the volatility.
#[verifier::external_body]
fn signature_of_any(arg_count: usize, volatility: Volatility) -> (signature: Signature)
    ensures
        signature == any_signature(arg_count as nat, volatility),
{
    let volatility = match volatility {
        Volatility::Immutable => datafusion_expr::Volatility::Immutable,
        Volatility::Stable => datafusion_expr::Volatility::Stable,
        Volatility::Volatile => datafusion_expr::Volatility::Volatile,
    };
    Signature::any(arg_count, volatility)
}

/// What the state fields of the aggregate depend on.
pub struct StateFieldsArgs<'a> {
    /// The name of the aggregate expression.
    pub name: &'a str,
    /// The fields of the arguments.
    pub input_fields: &'a [Field],
}

/// What the choice of an accumulator depends on.
pub struct AccumulatorArgs<'a> {
    /// The fields of the arguments.
    pub expr_fields: &'a [Field],
}

impl DataType {
    /// Integers of at most 16 bits, of which the distinct values are counted exactly.
    pub open spec fn is_small_int(self) -> bool {
        self is UInt8 || self is Int8 || self is UInt16 || self is Int16
    }

    /// The aggregate takes columns of the type.
    pub open spec fn is_supported(self) -> bool {
        match self {
            DataType::Time32(unit) => unit == TimeUnit::Second || unit == TimeUnit::Millisecond,
            DataType::Time64(unit) => unit == TimeUnit::Microsecond || unit == TimeUnit::Nanosecond,
            DataType::FixedSizeBinary(_) => false,
            DataType::List(_) => false,
            DataType::Other(_) => false,
            _ => true,
        }
    }
}

/// The fields of the intermediate state for columns of a type.
pub open spec fn is_state_schema(fields: Seq<Field>, name: Seq<char>, data_type: DataType) -> bool {
    &&& fields.len() == 1
    &&& if data_type is Null {
        &&& fields[0].name@ == schema::state_name_of(name, "approx_distinct"@)
        &&& fields[0].data_type is Null
        &&& fields[0].nullable
    } else if data_type.is_small_int() {
        &&& fields[0].name@ == schema::state_name_of(name, "approx_distinct"@)
        &&& schema::is_list_of(fields[0].data_type, data_type)
        &&& !fields[0].nullable
    } else {
        &&& fields[0].name@ == schema::state_name_of(name, "hll_registers"@)
        &&& fields[0].data_type == DataType::FixedSizeBinary(APPROX_DISTINCT_HLL_STATE_SIZE)
        &&& !fields[0].nullable
    }
}

/// Chooses the accumulator for a column of small integers.
pub fn get_small_int_approx_accumulator(data_type: &DataType) -> (r: Result<
    ApproxDistinctAccumulator,
    ApproxDistinctError,
>)
    ensures
        data_type.is_small_int() ==> r is Ok && r->Ok_0.is_new_for(*data_type),
        !data_type.is_small_int() ==> r is Err && r->Err_0.is_internal(
            "unsupported small int type: "@ + data_type.spelling(),
        ),
{
    match data_type {
        DataType::UInt8 => Ok(
            ApproxDistinctAccumulator::UInt8(
                ApproxDistinctBitmapWrapper {
                    inner: BoolArray256DistinctCountAccumulator::new(),
                },
            ),
        ),
        DataType::Int8 => Ok(
            ApproxDistinctAccumulator::Int8(
                ApproxDistinctBitmapWrapper {
                    inner: BoolArray256DistinctCountAccumulatorI8::new(),
                },
            ),
        ),
        DataType::UInt16 => Ok(
            ApproxDistinctAccumulator::UInt16(
                ApproxDistinctBitmapWrapper {
                    inner: Bitmap65536DistinctCountAccumulator::new(),
                },
            ),
        ),
        DataType::Int16 => Ok(
            ApproxDistinctAccumulator::Int16(
                ApproxDistinctBitmapWrapper {
                    inner: Bitmap65536DistinctCountAccumulatorI16::new(),
                },
            ),
        ),
        _ => {
            let mut message = "unsupported small int type: ".to_owned();
            message.append(data_type.text().as_str());
            Err(ApproxDistinctError::Internal(message))
        },
    }
}

/// The state field for a column of small integers: a list of values.
pub fn get_small_int_state_field(name: &str, data_type: &DataType) -> (r: Result<
    Vec<Field>,
    ApproxDistinctError,
>)
    ensures
        r is Ok,
        r->Ok_0@.len() == 1,
        r->Ok_0@[0].name@ == schema::state_name_of(name@, "approx_distinct"@),
        schema::is_list_of(r->Ok_0@[0].data_type, *data_type),
        !r->Ok_0@[0].nullable,
{
    let field = Field::new_list(
        schema::format_state_name(name, "approx_distinct"),
        Field::new_list_field(data_type.clone(), true),
        false,
    );
    Ok(vec![field])
}

/// The aggregate function that estimates the number of distinct values of a column.
#[derive(Debug, PartialEq, Eq, Hash)]
pub struct ApproxDistinct {
    name: &'static str,
    signature: Signature,
}

impl Default for ApproxDistinct {
    fn default() -> (function: Self)
        ensures
            function.signature_spec() == any_signature(1, Volatility::Immutable),
    {
        Self::new()
    }
}

impl ApproxDistinct {
    /// There is one name.
    #[verifier::type_invariant]
    spec fn is_named(self) -> bool {
        self.name@ == "approx_distinct"@
    }

    /// The argument types that the function takes.
    pub closed spec fn signature_spec(&self) -> Signature {
        self.signature
    }

    /// Creates the function. It takes one argument of any type, and its result depends on its
    /// input alone.
    pub fn new() -> (function: Self)
        ensures
            function.signature_spec() == any_signature(1, Volatility::Immutable),
    {
        Self { name: "approx_distinct", signature: signature_of_any(1, Volatility::Immutable) }
    }

    /// The name of the function.
    pub fn name(&self) -> (name: &str)
        ensures
            name@ == "approx_distinct"@,
    {
        proof {
            use_type_invariant(self);
        }
        self.name
    }

    /// The argument types that the function takes.
    pub fn signature(&self) -> (signature: &Signature)
        ensures
            *signature == self.signature_spec(),
    {
        &self.signature
    }

    /// The type of the result, whatever the types of the arguments.
    pub fn return_type(&self, _arg_types: &[DataType]) -> (r: Result<DataType, ApproxDistinctError>)
        ensures
            r == Ok::<DataType, ApproxDistinctError>(DataType::UInt64),
    {
        Ok(DataType::UInt64)
    }

    /// The fields of the intermediate state.
    pub fn state_fields(&self, args: StateFieldsArgs) -> (r: Result<
        Vec<Field>,
        ApproxDistinctError,
    >)
        requires
            args.input_fields@.len() > 0,
        ensures
            r is Ok,
            is_state_schema(r->Ok_0@, args.name@, args.input_fields@[0].data_type),
    {
        let data_type = &args.input_fields[0].data_type;
        match data_type {
            DataType::Null => {
                let field = Field {
                    name: schema::format_state_name(args.name, self.name()),
                    data_type: DataType::Null,
                    nullable: true,
                };
                Ok(vec![field])
            },
            DataType::UInt8 | DataType::Int8 | DataType::UInt16 | DataType::Int16 => {
                get_small_int_state_field(args.name, data_type)
            },
            _ => {
                let field = Field {
                    name: schema::format_state_name(args.name, "hll_registers"),
                    data_type: DataType::FixedSizeBinary(APPROX_DISTINCT_HLL_STATE_SIZE),
                    nullable: false,
                };
                Ok(vec![field])
            },
        }
    }

    /// Chooses the accumulator for a column.
    pub fn accumulator(&self, acc_args: AccumulatorArgs) -> (r: Result<
        ApproxDistinctAccumulator,
        ApproxDistinctError,
    >)
        requires
            acc_args.expr_fields@.len() > 0,
        ensures
            acc_args.expr_fields@[0].data_type.is_supported() ==> r is Ok && r->Ok_0.is_new_for(
                acc_args.expr_fields@[0].data_type,
            ),
            !acc_args.expr_fields@[0].data_type.is_supported() ==> r is Err
                && r->Err_0.is_not_implemented(
                "Support for 'approx_distinct' for data type "@
                    + acc_args.expr_fields@[0].data_type.spelling() + " is not implemented"@,
            ),
    {
        let data_type = &acc_args.expr_fields[0].data_type;
        let accumulator = match data_type {
            DataType::UInt8 | DataType::Int8 | DataType::UInt16 | DataType::Int16 => {
                return get_small_int_approx_accumulator(data_type);
            },
            DataType::UInt32 => {
                ApproxDistinctAccumulator::UInt32(
                    Box::new(NumericHLLAccumulator::<UInt32Type>::new()),
                )
            },
            DataType::UInt64 => {
                ApproxDistinctAccumulator::UInt64(
                    Box::new(NumericHLLAccumulator::<UInt64Type>::new()),
                )
            },
            DataType::Int32 => {
                ApproxDistinctAccumulator::Int32(
                    Box::new(NumericHLLAccumulator::<Int32Type>::new()),
                )
            },
            DataType::Int64 => {
                ApproxDistinctAccumulator::Int64(
                    Box::new(NumericHLLAccumulator::<Int64Type>::new()),
                )
            },
            DataType::Date32 => {
                ApproxDistinctAccumulator::Date32(
                    Box::new(NumericHLLAccumulator::<Date32Type>::new()),
                )
            },
            DataType::Date64 => {
                ApproxDistinctAccumulator::Date64(
                    Box::new(NumericHLLAccumulator::<Date64Type>::new()),
                )
            },
            DataType::Time32(TimeUnit::Second) => {
                ApproxDistinctAccumulator::Time32Second(
                    Box::new(NumericHLLAccumulator::<Time32SecondType>::new()),
                )
            },
            DataType::Time32(TimeUnit::Millisecond) => {
                ApproxDistinctAccumulator::Time32Millisecond(
                    Box::new(NumericHLLAccumulator::<Time32MillisecondType>::new()),
                )
            },
            DataType::Time64(TimeUnit::Microsecond) => {
                ApproxDistinctAccumulator::Time64Microsecond(
                    Box::new(NumericHLLAccumulator::<Time64MicrosecondType>::new()),
                )
            },
            DataType::Time64(TimeUnit::Nanosecond) => {
                ApproxDistinctAccumulator::Time64Nanosecond(
                    Box::new(NumericHLLAccumulator::<Time64NanosecondType>::new()),
                )
            },
            DataType::Timestamp(TimeUnit::Second, _) => {
                ApproxDistinctAccumulator::TimestampSecond(
                    Box::new(NumericHLLAccumulator::<TimestampSecondType>::new()),
                )
            },
            DataType::Timestamp(TimeUnit::Millisecond, _) => {
                ApproxDistinctAccumulator::TimestampMillisecond(
                    Box::new(NumericHLLAccumulator::<TimestampMillisecondType>::new()),
                )
            },
            DataType::Timestamp(TimeUnit::Microsecond, _) => {
                ApproxDistinctAccumulator::TimestampMicrosecond(
                    Box::new(NumericHLLAccumulator::<TimestampMicrosecondType>::new()),
                )
            },
            DataType::Timestamp(TimeUnit::Nanosecond, _) => {
                ApproxDistinctAccumulator::TimestampNanosecond(
                    Box::new(NumericHLLAccumulator::<TimestampNanosecondType>::new()),
                )
            },
            DataType::Utf8 => {
                ApproxDistinctAccumulator::Utf8(Box::new(StringHLLAccumulator::<i32>::new()))
            },
            DataType::LargeUtf8 => {
                ApproxDistinctAccumulator::LargeUtf8(Box::new(StringHLLAccumulator::<i64>::new()))
            },
            DataType::Utf8View => {
                ApproxDistinctAccumulator::Utf8View(Box::new(StringViewHLLAccumulator::new()))
            },
            DataType::Binary => {
                ApproxDistinctAccumulator::Binary(Box::new(BinaryHLLAccumulator::<i32>::new()))
            },
            DataType::LargeBinary => {
                ApproxDistinctAccumulator::LargeBinary(Box::new(BinaryHLLAccumulator::<i64>::new()))
            },
            DataType::Null => ApproxDistinctAccumulator::Null(
                accumulator::noop_accumulator(Some(0)),
            ),
            other => {
                let message = text::concat3(
                    "Support for 'approx_distinct' for data type ",
                    other.text().as_str(),
                    " is not implemented",
                );
                return Err(ApproxDistinctError::NotImplemented(message));
            },
        };
        Ok(accumulator)
    }
}

} // verus!
