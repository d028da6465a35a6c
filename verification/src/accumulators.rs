//! Accumulators that keep a HyperLogLog sketch.

use std::marker::PhantomData;
use vstd::prelude::*;
use crate::arrays;
use crate::arrays::{ArrayRef, NumericType, OffsetSize, StringViewArray};
use crate::error;
use crate::error::ApproxDistinctError;
use crate::estimate;
use crate::hashing;
use crate::hashing::HllValue;
use crate::hyperloglog::HyperLogLog;
use crate::optional;
use crate::registers;
use crate::scalar::{ScalarValue, APPROX_DISTINCT_HLL_STATE_SIZE};
use crate::schema::DataType;
use crate::text;

verus! {

/// What is wrong with a list of state arrays before any row is read, if anything.
pub open spec fn states_fault(states: Seq<ArrayRef>) -> Option<Seq<char>> {
    if states.len() != 1 {
        Some("approx_distinct expects one HLL state array, got "@ + text::decimal(states.len()))
    } else {
        match arrays::array_type(states[0]) {
            DataType::FixedSizeBinary(width) => {
                if width != APPROX_DISTINCT_HLL_STATE_SIZE {
                    Some(
                        "approx_distinct HLL state has width "@ + text::signed_decimal(
                            width as int,
                        ) + ", expected 16384"@,
                    )
                } else {
                    None
                }
            },
            _ => Some(
                "approx_distinct HLL state must be FixedSizeBinary(16384), got "@
                    + arrays::type_text(states[0]),
            ),
        }
    }
}

/// The states in a list of one state array.
pub open spec fn state_rows(states: Seq<ArrayRef>) -> Seq<Option<Seq<u8>>> {
    arrays::fixed_size_rows(arrays::fixed_size_binary(states[0]))
}

/// What merging a list of state arrays reports, if it does not succeed.
pub open spec fn merge_fault(states: Seq<ArrayRef>) -> Option<Seq<char>> {
    match states_fault(states) {
        Some(message) => Some(message),
        None => {
            let rows = state_rows(states);
            if optional::first_absent(rows) < rows.len() {
                Some("approx_distinct HLL state must not be null"@)
            } else {
                None
            }
        },
    }
}

/// The registers after merging a list of state arrays: every state before the first null is
/// joined in.
pub open spec fn merged(old_registers: Seq<u8>, states: Seq<ArrayRef>) -> Seq<u8> {
    match states_fault(states) {
        Some(_) => old_registers,
        None => {
            let rows = state_rows(states);
            registers::join_all(
                old_registers,
                optional::present(rows.take(optional::first_absent(rows) as int)),
            )
        },
    }
}

/// Merges a list of state arrays into a sketch.
fn merge_states<T: HllValue + ?Sized>(hll: &mut HyperLogLog<T>, states: &[ArrayRef]) -> (r: Result<
    (),
    ApproxDistinctError,
>)
    ensures
        error::succeeds_unless(r, merge_fault(states@)),
        final(hll).registers() == merged(old(hll).registers(), states@),
{
    if states.len() != 1 {
        let mut message = "approx_distinct expects one HLL state array, got ".to_owned();
        message.append(text::decimal_text(states.len() as u64).as_str());
        return Err(ApproxDistinctError::Internal(message));
    }
    let array = match arrays::downcast_fixed_size_binary(&states[0]) {
        Some(array) => array,
        None => {
            let mut message =
                "approx_distinct HLL state must be FixedSizeBinary(16384), got ".to_owned();
            message.append(arrays::data_type_text(&states[0]).as_str());
            return Err(ApproxDistinctError::Internal(message));
        },
    };
    if array.value_length() != APPROX_DISTINCT_HLL_STATE_SIZE {
        let width = text::signed_decimal_text(array.value_length());
        let message = text::concat3(
            "approx_distinct HLL state has width ",
            width.as_str(),
            ", expected 16384",
        );
        return Err(ApproxDistinctError::Internal(message));
    }
    let items = arrays::fixed_size_items(array);
    let ghost rows = arrays::fixed_size_rows(*array);
    let mut i: usize = 0;
    assert(optional::present(rows.take(0)) =~= Seq::empty());
    while i < items.len()
        invariant
            i <= items.len(),
            states@.len() == 1,
            states_fault(states@) is None,
            rows == state_rows(states@),
            arrays::contents(items@) == rows,
            forall|j: int|
                0 <= j < items@.len() ==> (#[trigger] items@[j] matches Some(bytes) ==> bytes@.len()
                    == APPROX_DISTINCT_HLL_STATE_SIZE),
            forall|j: int| 0 <= j < i ==> #[trigger] rows[j] is Some,
            hll.registers() == registers::join_all(
                old(hll).registers(),
                optional::present(rows.take(i as int)),
            ),
        decreases items.len() - i,
    {
        assert(rows[i as int] == match items@[i as int] {
            Some(b) => Some(b@),
            None => None::<Seq<u8>>,
        });
        let bytes: &[u8] = match items[i] {
            Some(bytes) => bytes,
            None => {
                proof {
                    optional::lemma_first_absent(rows, i as int);
                }
                return Err(
                    ApproxDistinctError::Internal(
                        "approx_distinct HLL state must not be null".to_owned(),
                    ),
                );
            },
        };
        let other = match HyperLogLog::<T>::try_from(bytes) {
            Ok(other) => other,
            Err(e) => return Err(e),
        };
        hll.merge(&other);
        proof {
            optional::lemma_present_step(rows, i as int);
            let before = optional::present(rows.take(i as int));
            assert(before.push(bytes@).drop_last() =~= before);
        }
        i = i + 1;
    }
    proof {
        optional::lemma_first_absent(rows, i as int);
        assert(rows.take(i as int) =~= rows);
    }
    Ok(())
}

/// The state of a sketch as a list of one value.
fn sketch_state<T: HllValue + ?Sized>(hll: &HyperLogLog<T>) -> (values: Vec<ScalarValue>)
    ensures
        values@.len() == 1,
        values@[0].is_state(hll.registers()),
{
    let value = ScalarValue::from(hll);
    vec![value]
}

/// What an update reports: success where the column has the type that the accumulator reads,
/// the error of the cast where it has another.
pub open spec fn update_result<A>(
    result: Result<(), ApproxDistinctError>,
    rows: Option<A>,
) -> bool {
    match rows {
        Some(_) => result is Ok,
        None => result matches Err(ApproxDistinctError::Outside(_)),
    }
}

/// The registers after an update with the rows of a column, given the hash of a value.
pub open spec fn updated<A>(
    old_registers: Seq<u8>,
    rows: Option<Seq<Option<A>>>,
    hash: spec_fn(A) -> u64,
) -> Seq<u8> {
    match rows {
        Some(rows) => registers::absorb_all(
            old_registers,
            optional::present(rows).map_values(hash),
        ),
        None => old_registers,
    }
}

/// The hash of a string in a column of string views: that of its view where the view holds
/// the whole string, else that of the string.
pub open spec fn string_view_hash(s: Seq<char>) -> u64 {
    let bytes = vstd::utf8::encode_utf8(s);
    if bytes.len() <= arrays::MAX_INLINE_LEN {
        hashing::word_hash(arrays::inline_view(bytes) as u128)
    } else {
        hashing::text_hash(s)
    }
}

/// Accumulator for columns of integers, dates, times and timestamps.
#[derive(Debug)]
pub struct NumericHLLAccumulator<T: NumericType> {
    hll: HyperLogLog<T::Native>,
}

/// Accumulator for columns of strings with offsets of type `T`.
#[derive(Debug)]
pub struct StringHLLAccumulator<T: OffsetSize> {
    hll: HyperLogLog<str>,
    phantom_data: PhantomData<T>,
}

/// Accumulator for columns of strings in the view layout.
#[derive(Debug)]
pub struct StringViewHLLAccumulator {
    hll: HyperLogLog<str>,
}

/// Accumulator for columns of byte strings with offsets of type `T`.
#[derive(Debug)]
pub struct BinaryHLLAccumulator<T: OffsetSize> {
    hll: HyperLogLog<[u8]>,
    phantom_data: PhantomData<T>,
}

/// The rows of an array of string views; `None` for an array of another type.
pub open spec fn string_view_column(array: ArrayRef) -> Option<Seq<Option<Seq<char>>>> {
    arrays::only_if(
        arrays::array_type(array) is Utf8View,
        arrays::string_view_rows(arrays::string_view(array)),
    )
}

impl<T: NumericType> NumericHLLAccumulator<T> {
    /// The registers of the sketch.
    pub closed spec fn registers(&self) -> Seq<u8> {
        self.hll.registers()
    }

    /// The sketch has a fixed number of registers.
    pub proof fn lemma_registers_len(&self)
        ensures
            self.registers().len() == registers::NUM_REGISTERS,
    {
        self.hll.lemma_registers_len();
    }

    /// Creates an accumulator that has seen nothing.
    pub fn new() -> (accumulator: Self)
        ensures
            accumulator.registers() == registers::no_registers(),
    {
        Self { hll: HyperLogLog::new() }
    }

    /// Adds the values that are present in the first column.
    pub fn update_batch(&mut self, values: &[ArrayRef]) -> (r: Result<(), ApproxDistinctError>)
        requires
            values@.len() > 0,
        ensures
            update_result(r, T::rows(values@[0])),
            final(self).registers() == updated(
                old(self).registers(),
                T::rows(values@[0]),
                |value: T::Native| value.hash_spec(),
            ),
    {
        match error::handed_on(T::cast(&values[0])) {
            Ok(rows) => {
                self.hll.extend(&rows);
                Ok(())
            },
            Err(e) => Err(e),
        }
    }

    /// Merges the states of other accumulators.
    pub fn merge_batch(&mut self, states: &[ArrayRef]) -> (r: Result<(), ApproxDistinctError>)
        ensures
            error::succeeds_unless(r, merge_fault(states@)),
            final(self).registers() == merged(old(self).registers(), states@),
    {
        merge_states(&mut self.hll, states)
    }

    /// The intermediate state: the registers as one byte string.
    pub fn state(&mut self) -> (r: Result<Vec<ScalarValue>, ApproxDistinctError>)
        ensures
            final(self).registers() == old(self).registers(),
            r is Ok,
            r->Ok_0@.len() == 1,
            r->Ok_0@[0].is_state(old(self).registers()),
    {
        Ok(sketch_state(&self.hll))
    }

    /// The estimated number of distinct values.
    pub fn evaluate(&mut self) -> (r: Result<ScalarValue, ApproxDistinctError>)
        ensures
            final(self).registers() == old(self).registers(),
            r == Ok::<ScalarValue, ApproxDistinctError>(
                ScalarValue::UInt64(Some(estimate::estimate(old(self).registers()))),
            ),
    {
        Ok(ScalarValue::UInt64(Some(self.hll.count())))
    }

    /// The memory that the accumulator takes, in bytes. It does not depend on what was added.
    pub fn size(&self) -> (bytes: usize)
        ensures
            bytes == vstd::layout::size_of::<Self>(),
    {
        std::mem::size_of::<Self>()
    }
}

impl<T: OffsetSize> StringHLLAccumulator<T> {
    /// The registers of the sketch.
    pub closed spec fn registers(&self) -> Seq<u8> {
        self.hll.registers()
    }

    /// The sketch has a fixed number of registers.
    pub proof fn lemma_registers_len(&self)
        ensures
            self.registers().len() == registers::NUM_REGISTERS,
    {
        self.hll.lemma_registers_len();
    }

    /// Creates an accumulator that has seen nothing.
    pub fn new() -> (accumulator: Self)
        ensures
            accumulator.registers() == registers::no_registers(),
    {
        Self { hll: HyperLogLog::new(), phantom_data: PhantomData }
    }

    /// Adds the strings that are present in the first column.
    pub fn update_batch(&mut self, values: &[ArrayRef]) -> (r: Result<(), ApproxDistinctError>)
        requires
            values@.len() > 0,
        ensures
            update_result(r, T::string_rows(values@[0])),
            final(self).registers() == updated(
                old(self).registers(),
                T::string_rows(values@[0]),
                |value: Seq<char>| hashing::str_hash_on(hashing::build_target(), value),
            ),
    {
        let items = match error::handed_on(T::cast_string(&values[0])) {
            Ok(items) => items,
            Err(e) => return Err(e),
        };
        let ghost rows = T::string_rows(values@[0])->Some_0;
        let ghost hash = |value: Seq<char>| hashing::str_hash_on(hashing::build_target(), value);
        let mut i: usize = 0;
        assert(optional::present(rows.take(0)).map_values(hash) =~= Seq::empty());
        while i < items.len()
            invariant
                i <= items.len(),
                arrays::characters(items@) == rows,
                hash == (|value: Seq<char>| hashing::str_hash_on(hashing::build_target(), value)),
                self.registers() == registers::absorb_all(
                    old(self).registers(),
                    optional::present(rows.take(i as int)).map_values(hash),
                ),
            decreases items.len() - i,
        {
            proof {
                optional::lemma_present_step(rows, i as int);
            }
            if let Some(value) = items[i] {
                self.hll.add(value);
                proof {
                    registers::lemma_absorb_push(
                        old(self).registers(),
                        optional::present(rows.take(i as int)),
                        value@,
                        hash,
                    );
                }
            }
            i = i + 1;
        }
        assert(rows.take(i as int) =~= rows);
        Ok(())
    }

    /// Merges the states of other accumulators.
    pub fn merge_batch(&mut self, states: &[ArrayRef]) -> (r: Result<(), ApproxDistinctError>)
        ensures
            error::succeeds_unless(r, merge_fault(states@)),
            final(self).registers() == merged(old(self).registers(), states@),
    {
        merge_states(&mut self.hll, states)
    }

    /// The intermediate state: the registers as one byte string.
    pub fn state(&mut self) -> (r: Result<Vec<ScalarValue>, ApproxDistinctError>)
        ensures
            final(self).registers() == old(self).registers(),
            r is Ok,
            r->Ok_0@.len() == 1,
            r->Ok_0@[0].is_state(old(self).registers()),
    {
        Ok(sketch_state(&self.hll))
    }

    /// The estimated number of distinct values.
    pub fn evaluate(&mut self) -> (r: Result<ScalarValue, ApproxDistinctError>)
        ensures
            final(self).registers() == old(self).registers(),
            r == Ok::<ScalarValue, ApproxDistinctError>(
                ScalarValue::UInt64(Some(estimate::estimate(old(self).registers()))),
            ),
    {
        Ok(ScalarValue::UInt64(Some(self.hll.count())))
    }

    /// The memory that the accumulator takes, in bytes. It does not depend on what was added.
    pub fn size(&self) -> (bytes: usize)
        ensures
            bytes == vstd::layout::size_of::<Self>(),
    {
        std::mem::size_of::<Self>()
    }
}

impl StringViewHLLAccumulator {
    /// The registers of the sketch.
    pub closed spec fn registers(&self) -> Seq<u8> {
        self.hll.registers()
    }

    /// The sketch has a fixed number of registers.
    pub proof fn lemma_registers_len(&self)
        ensures
            self.registers().len() == registers::NUM_REGISTERS,
    {
        self.hll.lemma_registers_len();
    }

    /// Creates an accumulator that has seen nothing.
    pub fn new() -> (accumulator: Self)
        ensures
            accumulator.registers() == registers::no_registers(),
    {
        Self { hll: HyperLogLog::new() }
    }

    /// Adds the strings that are present in the first column.
    pub fn update_batch(&mut self, values: &[ArrayRef]) -> (r: Result<(), ApproxDistinctError>)
        requires
            values@.len() > 0,
        ensures
            update_result(r, string_view_column(values@[0])),
            final(self).registers() == updated(
                old(self).registers(),
                string_view_column(values@[0]),
                |value: Seq<char>| string_view_hash(value),
            ),
    {
        let array = match error::handed_on(arrays::cast_string_view(&values[0])) {
            Ok(array) => array,
            Err(e) => return Err(e),
        };
        if arrays::data_buffer_count(&array) == 0 {
            self.add_inline_views(&array);
        } else {
            self.add_views(&array);
        }
        Ok(())
    }

    /// Adds the strings of an array that holds all of them inline, by their views.
    fn add_inline_views(&mut self, array: &StringViewArray)
        requires
            forall|i: int|
                0 <= i < arrays::string_view_rows(*array).len() ==> (
                #[trigger] arrays::string_view_rows(*array)[i] matches Some(s)
                    ==> vstd::utf8::encode_utf8(s).len() <= arrays::MAX_INLINE_LEN),
        ensures
            final(self).registers() == updated(
                old(self).registers(),
                Some(arrays::string_view_rows(*array)),
                |value: Seq<char>| string_view_hash(value),
            ),
    {
        let words = arrays::views(array);
        let ghost rows = arrays::string_view_rows(*array);
        let ghost hash = |value: Seq<char>| string_view_hash(value);
        let mut i: usize = 0;
        assert(optional::present(rows.take(0)).map_values(hash) =~= Seq::empty());
        while i < words.len()
            invariant
                i <= words.len(),
                rows == arrays::string_view_rows(*array),
                words@.len() == rows.len(),
                forall|j: int|
                    0 <= j < rows.len() ==> (#[trigger] rows[j] matches Some(s)
                        ==> arrays::is_view_of(words@[j], s)),
                forall|j: int|
                    0 <= j < rows.len() ==> (#[trigger] rows[j] matches Some(s)
                        ==> vstd::utf8::encode_utf8(s).len() <= arrays::MAX_INLINE_LEN),
                hash == (|value: Seq<char>| string_view_hash(value)),
                self.registers() == registers::absorb_all(
                    old(self).registers(),
                    optional::present(rows.take(i as int)).map_values(hash),
                ),
            decreases words.len() - i,
        {
            proof {
                optional::lemma_present_step(rows, i as int);
            }
            if !arrays::is_null(array, i) {
                let view: u128 = words[i];
                self.hll.add_hashed(hashing::hash_u128(view));
                proof {
                    registers::lemma_absorb_push(
                        old(self).registers(),
                        optional::present(rows.take(i as int)),
                        rows[i as int]->Some_0,
                        hash,
                    );
                }
            }
            i = i + 1;
        }
        assert(rows.take(i as int) =~= rows);
    }

    /// Adds the strings of an array, short ones by their views and long ones by their
    /// characters.
    fn add_views(&mut self, array: &StringViewArray)
        ensures
            final(self).registers() == updated(
                old(self).registers(),
                Some(arrays::string_view_rows(*array)),
                |value: Seq<char>| string_view_hash(value),
            ),
    {
        let words = arrays::views(array);
        let ghost rows = arrays::string_view_rows(*array);
        let ghost hash = |value: Seq<char>| string_view_hash(value);
        let mut i: usize = 0;
        assert(optional::present(rows.take(0)).map_values(hash) =~= Seq::empty());
        while i < words.len()
            invariant
                i <= words.len(),
                rows == arrays::string_view_rows(*array),
                words@.len() == rows.len(),
                forall|j: int|
                    0 <= j < rows.len() ==> (#[trigger] rows[j] matches Some(s)
                        ==> arrays::is_view_of(words@[j], s)),
                hash == (|value: Seq<char>| string_view_hash(value)),
                self.registers() == registers::absorb_all(
                    old(self).registers(),
                    optional::present(rows.take(i as int)).map_values(hash),
                ),
            decreases words.len() - i,
        {
            proof {
                optional::lemma_present_step(rows, i as int);
            }
            if !arrays::is_null(array, i) {
                let view: u128 = words[i];
                // The low 32 bits of a view hold the length of the string.
                if view % 0x1_0000_0000 <= arrays::MAX_INLINE_LEN as u128 {
                    self.hll.add_hashed(hashing::hash_u128(view));
                } else {
                    self.hll.add(arrays::value(array, i));
                }
                proof {
                    registers::lemma_absorb_push(
                        old(self).registers(),
                        optional::present(rows.take(i as int)),
                        rows[i as int]->Some_0,
                        hash,
                    );
                }
            }
            i = i + 1;
        }
        assert(rows.take(i as int) =~= rows);
    }

    /// Merges the states of other accumulators.
    pub fn merge_batch(&mut self, states: &[ArrayRef]) -> (r: Result<(), ApproxDistinctError>)
        ensures
            error::succeeds_unless(r, merge_fault(states@)),
            final(self).registers() == merged(old(self).registers(), states@),
    {
        merge_states(&mut self.hll, states)
    }

    /// The intermediate state: the registers as one byte string.
    pub fn state(&mut self) -> (r: Result<Vec<ScalarValue>, ApproxDistinctError>)
        ensures
            final(self).registers() == old(self).registers(),
            r is Ok,
            r->Ok_0@.len() == 1,
            r->Ok_0@[0].is_state(old(self).registers()),
    {
        Ok(sketch_state(&self.hll))
    }

    /// The estimated number of distinct values.
    pub fn evaluate(&mut self) -> (r: Result<ScalarValue, ApproxDistinctError>)
        ensures
            final(self).registers() == old(self).registers(),
            r == Ok::<ScalarValue, ApproxDistinctError>(
                ScalarValue::UInt64(Some(estimate::estimate(old(self).registers()))),
            ),
    {
        Ok(ScalarValue::UInt64(Some(self.hll.count())))
    }

    /// The memory that the accumulator takes, in bytes. It does not depend on what was added.
    pub fn size(&self) -> (bytes: usize)
        ensures
            bytes == vstd::layout::size_of::<Self>(),
    {
        std::mem::size_of::<Self>()
    }
}

impl<T: OffsetSize> BinaryHLLAccumulator<T> {
    /// The registers of the sketch.
    pub closed spec fn registers(&self) -> Seq<u8> {
        self.hll.registers()
    }

    /// The sketch has a fixed number of registers.
    pub proof fn lemma_registers_len(&self)
        ensures
            self.registers().len() == registers::NUM_REGISTERS,
    {
        self.hll.lemma_registers_len();
    }

    /// Creates an accumulator that has seen nothing.
    pub fn new() -> (accumulator: Self)
        ensures
            accumulator.registers() == registers::no_registers(),
    {
        Self { hll: HyperLogLog::new(), phantom_data: PhantomData }
    }

    /// Adds the byte strings that are present in the first column.
    pub fn update_batch(&mut self, values: &[ArrayRef]) -> (r: Result<(), ApproxDistinctError>)
        requires
            values@.len() > 0,
        ensures
            update_result(r, T::binary_rows(values@[0])),
            final(self).registers() == updated(
                old(self).registers(),
                T::binary_rows(values@[0]),
                |value: Seq<u8>| hashing::bytes_hash_on(hashing::build_target(), value),
            ),
    {
        let items = match error::handed_on(T::cast_binary(&values[0])) {
            Ok(items) => items,
            Err(e) => return Err(e),
        };
        let ghost rows = T::binary_rows(values@[0])->Some_0;
        let ghost hash = |value: Seq<u8>| hashing::bytes_hash_on(hashing::build_target(), value);
        let mut i: usize = 0;
        assert(optional::present(rows.take(0)).map_values(hash) =~= Seq::empty());
        while i < items.len()
            invariant
                i <= items.len(),
                arrays::contents(items@) == rows,
                hash == (|value: Seq<u8>| hashing::bytes_hash_on(hashing::build_target(), value)),
                self.registers() == registers::absorb_all(
                    old(self).registers(),
                    optional::present(rows.take(i as int)).map_values(hash),
                ),
            decreases items.len() - i,
        {
            proof {
                optional::lemma_present_step(rows, i as int);
            }
            if let Some(value) = items[i] {
                self.hll.add(value);
                proof {
                    registers::lemma_absorb_push(
                        old(self).registers(),
                        optional::present(rows.take(i as int)),
                        value@,
                        hash,
                    );
                }
            }
            i = i + 1;
        }
        assert(rows.take(i as int) =~= rows);
        Ok(())
    }

    /// Merges the states of other accumulators.
    pub fn merge_batch(&mut self, states: &[ArrayRef]) -> (r: Result<(), ApproxDistinctError>)
        ensures
            error::succeeds_unless(r, merge_fault(states@)),
            final(self).registers() == merged(old(self).registers(), states@),
    {
        merge_states(&mut self.hll, states)
    }

    /// The intermediate state: the registers as one byte string.
    pub fn state(&mut self) -> (r: Result<Vec<ScalarValue>, ApproxDistinctError>)
        ensures
            final(self).registers() == old(self).registers(),
            r is Ok,
            r->Ok_0@.len() == 1,
            r->Ok_0@[0].is_state(old(self).registers()),
    {
        Ok(sketch_state(&self.hll))
    }

    /// The estimated number of distinct values.
    pub fn evaluate(&mut self) -> (r: Result<ScalarValue, ApproxDistinctError>)
        ensures
            final(self).registers() == old(self).registers(),
            r == Ok::<ScalarValue, ApproxDistinctError>(
                ScalarValue::UInt64(Some(estimate::estimate(old(self).registers()))),
            ),
    {
        Ok(ScalarValue::UInt64(Some(self.hll.count())))
    }

    /// The memory that the accumulator takes, in bytes. It does not depend on what was added.
    pub fn size(&self) -> (bytes: usize)
        ensures
            bytes == vstd::layout::size_of::<Self>(),
    {
        std::mem::size_of::<Self>()
    }
}

} // verus!
