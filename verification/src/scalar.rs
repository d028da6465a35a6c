//! Scalar values, and sketches as scalar values.

use vstd::prelude::*;
use vstd::std_specs::convert::{FromSpecImpl, TryFromSpecImpl};
use crate::arrays;
use crate::arrays::ArrayRef;
use crate::error;
use crate::error::ApproxDistinctError;
use crate::hashing::HllValue;
use crate::hyperloglog::HyperLogLog;
use crate::registers::NUM_REGISTERS;
use crate::schema;
use crate::schema::DataType;
use crate::text;

verus! {

/// Number of registers in the dense HyperLogLog intermediate state.
pub const APPROX_DISTINCT_HLL_STATE_SIZE: i32 = 16384;

/// A single value. The kinds of values that the aggregate reads or returns have a variant of
/// their own; any other value is carried by its text.
#[derive(Debug)]
pub enum ScalarValue {
    /// The one value of the type of nulls.
    Null,
    UInt64(Option<u64>),
    /// A byte string and the width of its type.
    FixedSizeBinary(i32, Option<Vec<u8>>),
    /// An array of one row, a list.
    List(ArrayRef),
    /// A value that is not told apart from others, given by its text.
    Other(String),
}

impl ScalarValue {
    /// The value is the state of a sketch with given registers.
    pub open spec fn is_state(self, registers: Seq<u8>) -> bool {
        self matches ScalarValue::FixedSizeBinary(width, Some(bytes)) && width
            == APPROX_DISTINCT_HLL_STATE_SIZE && bytes@ == registers
    }

    /// The value is a list of nullable items of a type, under the default name of list items.
    pub open spec fn is_list_of(self, data_type: DataType) -> bool {
        self matches ScalarValue::List(list) && schema::is_list_of(
            arrays::array_type(list),
            data_type,
        )
    }

    /// The value is of a type.
    pub open spec fn has_type(self, data_type: DataType) -> bool {
        match self {
            ScalarValue::Null => data_type is Null,
            ScalarValue::UInt64(_) => data_type is UInt64,
            ScalarValue::FixedSizeBinary(width, _) => data_type == DataType::FixedSizeBinary(width),
            ScalarValue::List(list) => schema::same_type(arrays::array_type(list), data_type),
            ScalarValue::Other(_) => false,
        }
    }

    /// What is wrong with the value as the state of a sketch, if anything.
    pub open spec fn state_fault(self) -> Option<Seq<char>> {
        match self {
            ScalarValue::FixedSizeBinary(width, Some(bytes)) if width
                == APPROX_DISTINCT_HLL_STATE_SIZE => length_fault(bytes@.len()),
            ScalarValue::FixedSizeBinary(width, _) => Some(
                "approx_distinct HLL state has width "@ + text::signed_decimal(width as int)
                    + ", expected 16384"@,
            ),
            _ => Some("approx_distinct HLL state must be FixedSizeBinary(16384)"@),
        }
    }
}

/// What is wrong with a byte string of a given length as the registers of a sketch, if
/// anything.
pub open spec fn length_fault(len: nat) -> Option<Seq<char>> {
    if len == NUM_REGISTERS {
        None
    } else {
        Some(
            "approx_distinct HLL state has length "@ + text::decimal(len) + ", expected 16384"@,
        )
    }
}

impl<T: HllValue + ?Sized> From<&HyperLogLog<T>> for ScalarValue {
    /// The state of a sketch: its registers as a byte string.
    fn from(v: &HyperLogLog<T>) -> (value: ScalarValue)
        ensures
            value.is_state(v.registers()),
    {
        let bytes: Vec<u8> = vstd::slice::slice_to_vec(v.as_ref());
        ScalarValue::FixedSizeBinary(APPROX_DISTINCT_HLL_STATE_SIZE, Some(bytes))
    }
}

// A scalar value holds a `Vec`, which specifications know by its view alone. What the
// conversions return is therefore stated by their own `ensures`, and the equations that
// `FromSpecImpl` and `TryFromSpecImpl` would add are switched off.
impl<T: HllValue + ?Sized> FromSpecImpl<&HyperLogLog<T>> for ScalarValue {
    open spec fn obeys_from_spec() -> bool {
        false
    }

    open spec fn from_spec(v: &HyperLogLog<T>) -> ScalarValue {
        vstd::pervasive::arbitrary()
    }
}

impl<T: HllValue + ?Sized> TryFrom<&[u8]> for HyperLogLog<T> {
    type Error = ApproxDistinctError;

    /// The sketch whose registers are the given bytes.
    fn try_from(v: &[u8]) -> (hll: Result<HyperLogLog<T>, ApproxDistinctError>)
        ensures
            error::succeeds_unless(hll, length_fault(v@.len())),
            hll matches Ok(hll) ==> hll.registers() == v@,
    {
        if v.len() != NUM_REGISTERS {
            let len = text::decimal_text(v.len() as u64);
            let message = text::concat3(
                "approx_distinct HLL state has length ",
                len.as_str(),
                ", expected 16384",
            );
            return Err(ApproxDistinctError::Internal(message));
        }
        let mut registers: [u8; NUM_REGISTERS] = [0u8; 16384];
        let mut i: usize = 0;
        while i < NUM_REGISTERS
            invariant
                i <= NUM_REGISTERS,
                v@.len() == NUM_REGISTERS,
                forall|j: int| 0 <= j < i ==> #[trigger] registers[j] == v@[j],
            decreases NUM_REGISTERS - i,
        {
            registers[i] = v[i];
            i = i + 1;
        }
        assert(registers@ =~= v@);
        Ok(HyperLogLog::new_with_registers(registers))
    }
}

impl<T: HllValue + ?Sized> TryFromSpecImpl<&[u8]> for HyperLogLog<T> {
    open spec fn obeys_try_from_spec() -> bool {
        false
    }

    open spec fn try_from_spec(v: &[u8]) -> Result<HyperLogLog<T>, ApproxDistinctError> {
        vstd::pervasive::arbitrary()
    }
}

impl<T: HllValue + ?Sized> TryFrom<&ScalarValue> for HyperLogLog<T> {
    type Error = ApproxDistinctError;

    /// The sketch of a state.
    fn try_from(v: &ScalarValue) -> (hll: Result<HyperLogLog<T>, ApproxDistinctError>)
        ensures
            error::succeeds_unless(hll, v.state_fault()),
            hll matches Ok(hll) ==> v.is_state(hll.registers()),
    {
        match v {
            ScalarValue::FixedSizeBinary(width, Some(value)) if *width
                == APPROX_DISTINCT_HLL_STATE_SIZE => {
                HyperLogLog::<T>::try_from(value.as_slice())
            },
            ScalarValue::FixedSizeBinary(width, _) => {
                let width = text::signed_decimal_text(*width);
                Err(
                    ApproxDistinctError::Internal(
                        text::concat3(
                            "approx_distinct HLL state has width ",
                            width.as_str(),
                            ", expected 16384",
                        ),
                    ),
                )
            },
            _ => Err(
                ApproxDistinctError::Internal(
                    "approx_distinct HLL state must be FixedSizeBinary(16384)".to_owned(),
                ),
            ),
        }
    }
}

impl<T: HllValue + ?Sized> TryFromSpecImpl<&ScalarValue> for HyperLogLog<T> {
    open spec fn obeys_try_from_spec() -> bool {
        false
    }

    open spec fn try_from_spec(v: &ScalarValue) -> Result<HyperLogLog<T>, ApproxDistinctError> {
        vstd::pervasive::arbitrary()
    }
}

} // verus!
