//! The HyperLogLog sketch.

use std::marker::PhantomData;
use vstd::prelude::*;
use crate::estimate;
use crate::hashing::HllValue;
use crate::optional;
use crate::registers;
use crate::registers::{NUM_REGISTERS, RANK_SENTINEL};

verus! {

/// A sketch of a set of values of type `T`, from which the number of distinct values can be
/// estimated.
#[derive(Debug)]
pub struct HyperLogLog<T: ?Sized> {
    registers: [u8; NUM_REGISTERS],
    phantom: PhantomData<T>,
}

/// The hashes of the values that are present in a sequence of rows.
pub open spec fn value_hashes<T: HllValue>(rows: Seq<Option<T>>) -> Seq<u64> {
    optional::present(rows).map_values(|value: T| value.hash_spec())
}

impl<T: HllValue + ?Sized> HyperLogLog<T> {
    /// The registers of the sketch.
    pub closed spec fn registers(&self) -> Seq<u8> {
        self.registers@
    }

    /// A sketch has a fixed number of registers.
    pub proof fn lemma_registers_len(&self)
        ensures
            self.registers().len() == NUM_REGISTERS,
    {
    }

    /// Creates a sketch that has seen nothing.
    pub fn new() -> (hll: Self)
        ensures
            hll.registers() == registers::no_registers(),
    {
        let hll = Self::new_with_registers([0u8; 16384]);
        assert(hll.registers() =~= registers::no_registers());
        hll
    }

    /// Creates a sketch with given registers.
    pub fn new_with_registers(registers: [u8; NUM_REGISTERS]) -> (hll: Self)
        ensures
            hll.registers() == registers@,
    {
        HyperLogLog { registers, phantom: PhantomData }
    }

    /// Adds a value.
    pub fn add(&mut self, obj: &T)
        ensures
            final(self).registers() == registers::absorb(old(self).registers(), obj.hash_spec()),
    {
        let hash: u64 = obj.hll_hash();
        self.add_hashed(hash);
    }

    /// Adds a value of which the hash is known.
    pub fn add_hashed(&mut self, hash: u64)
        ensures
            final(self).registers() == registers::absorb(old(self).registers(), hash),
    {
        let index: usize = (hash % 16384) as usize;
        let word: u64 = hash / 16384 + RANK_SENTINEL;
        proof {
            registers::lemma_rank_range(hash);
            registers::lemma_lowest_bit_is_trailing_zeros(word);
        }
        let rank: u8 = (word.trailing_zeros() + 1) as u8;
        if self.registers[index] < rank {
            self.registers[index] = rank;
        }
        assert(self.registers() =~= registers::absorb(old(self).registers(), hash));
    }

    /// Adds everything that another sketch has seen.
    pub fn merge(&mut self, other: &HyperLogLog<T>)
        ensures
            final(self).registers() == registers::join(old(self).registers(), other.registers()),
    {
        let mut i: usize = 0;
        while i < NUM_REGISTERS
            invariant
                i <= NUM_REGISTERS,
                forall|j: int|
                    0 <= j < i ==> #[trigger] self.registers[j] == registers::greater(
                        old(self).registers[j],
                        other.registers[j],
                    ),
                forall|j: int|
                    i <= j < NUM_REGISTERS ==> #[trigger] self.registers[j]
                        == old(self).registers[j],
            decreases NUM_REGISTERS - i,
        {
            if self.registers[i] < other.registers[i] {
                self.registers[i] = other.registers[i];
            }
            i = i + 1;
        }
        assert(self.registers() =~= registers::join(old(self).registers(), other.registers()));
    }

    /// Estimates the number of distinct values seen.
    pub fn count(&self) -> (count: u64)
        ensures
            count == estimate::estimate(self.registers()),
    {
        estimate::compute_estimate(&self.registers)
    }

    /// The registers as bytes.
    pub fn as_ref(&self) -> (bytes: &[u8])
        ensures
            bytes@ == self.registers(),
    {
        self.registers.as_slice()
    }
}

impl<T: HllValue> HyperLogLog<T> {
    /// Adds the values that are present in a batch of rows.
    pub fn extend(&mut self, rows: &Vec<Option<T>>)
        ensures
            final(self).registers() == registers::absorb_all(
                old(self).registers(),
                value_hashes(rows@),
            ),
    {
        let mut i: usize = 0;
        assert(value_hashes(rows@.take(0)) =~= Seq::empty());
        while i < rows.len()
            invariant
                i <= rows.len(),
                self.registers() == registers::absorb_all(
                    old(self).registers(),
                    value_hashes(rows@.take(i as int)),
                ),
            decreases rows.len() - i,
        {
            proof {
                optional::lemma_present_step(rows@, i as int);
            }
            if let Some(value) = &rows[i] {
                self.add(value);
                proof {
                    registers::lemma_absorb_push(
                        old(self).registers(),
                        optional::present(rows@.take(i as int)),
                        *value,
                        |value: T| value.hash_spec(),
                    );
                }
            }
            i = i + 1;
        }
        assert(rows@.take(rows.len() as int) =~= rows@);
    }
}

} // verus!
