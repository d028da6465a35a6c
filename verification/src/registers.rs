//! The mathematical model of a HyperLogLog sketch.
//!
//! A sketch is a sequence of 16384 registers. A 64-bit hash selects a register with its low
//! 14 bits and offers it a rank, the position of the lowest set bit among the other 50. A
//! register keeps the greatest rank it was ever offered.

use vstd::prelude::*;

verus! {

/// Number of registers of a sketch.
pub const NUM_REGISTERS: usize = 16384;

/// A bit above all hash bits that count for the rank: it makes the rank of an all-zero
/// remainder well defined.
pub const RANK_SENTINEL: u64 = 0x4_0000_0000_0000;

/// Greatest rank that a hash can have.
pub const MAX_RANK: u8 = 51;

/// The greater of two register values.
pub open spec fn greater(a: u8, b: u8) -> u8 {
    if a < b { b } else { a }
}

/// The register that a hash belongs to.
pub open spec fn bucket(hash: u64) -> int {
    hash as int % NUM_REGISTERS as int
}

/// Position of the lowest set bit of a positive number, counted from zero.
pub open spec fn lowest_bit(n: nat) -> nat
    decreases n,
{
    if n == 0 || n % 2 == 1 { 0 } else { 1 + lowest_bit(n / 2) }
}

/// The rank that a hash offers to its register.
pub open spec fn rank(hash: u64) -> nat {
    1 + lowest_bit((hash as nat / NUM_REGISTERS as nat + RANK_SENTINEL as nat) as nat)
}

/// The registers of a sketch that has seen nothing.
pub open spec fn no_registers() -> Seq<u8> {
    Seq::new(NUM_REGISTERS as nat, |i: int| 0u8)
}

/// The registers after one more hash.
pub open spec fn absorb(registers: Seq<u8>, hash: u64) -> Seq<u8> {
    registers.update(bucket(hash), greater(registers[bucket(hash)], rank(hash) as u8))
}

/// The registers after the hashes of a sequence, taken in order.
pub open spec fn absorb_all(registers: Seq<u8>, hashes: Seq<u64>) -> Seq<u8>
    decreases hashes.len(),
{
    if hashes.len() == 0 {
        registers
    } else {
        absorb(absorb_all(registers, hashes.drop_last()), hashes.last())
    }
}

/// The registers of a sketch that has seen what either of two sketches has seen.
pub open spec fn join(a: Seq<u8>, b: Seq<u8>) -> Seq<u8> {
    Seq::new(NUM_REGISTERS as nat, |i: int| greater(a[i], b[i]))
}

/// The registers after joining every sketch of a sequence, taken in order.
pub open spec fn join_all(registers: Seq<u8>, others: Seq<Seq<u8>>) -> Seq<u8>
    decreases others.len(),
{
    if others.len() == 0 {
        registers
    } else {
        join(join_all(registers, others.drop_last()), others.last())
    }
}

/// Every register is within the range that hashes can produce.
pub open spec fn ranks_in_range(registers: Seq<u8>) -> bool {
    forall|i: int| 0 <= i < registers.len() ==> #[trigger] registers[i] <= MAX_RANK
}

/// The lowest set bit of a machine word is its number of trailing zeros.
pub proof fn lemma_lowest_bit_is_trailing_zeros(w: u64)
    requires
        w != 0,
    ensures
        lowest_bit(w as nat) == vstd::std_specs::bits::u64_trailing_zeros(w),
    decreases w,
{
    vstd::std_specs::bits::axiom_u64_trailing_zeros(w);
    let t = vstd::std_specs::bits::u64_trailing_zeros(w) as u64;
    assert(w >> 0 == w) by (bit_vector);
    assert(w & 1 == w % 2) by (bit_vector);
    if w % 2 == 1 {
        if t > 0 {
            assert((w >> 0u64) & 1u64 == 0u64);
        }
    } else {
        let half: u64 = w / 2;
        assert(half == w >> 1) by (bit_vector)
            requires
                half == w / 2,
        ;
        lemma_lowest_bit_is_trailing_zeros(half);
        vstd::std_specs::bits::axiom_u64_trailing_zeros(half);
        let h = vstd::std_specs::bits::u64_trailing_zeros(half) as u64;
        assert((half >> h) & 1 == 1);
        assert(t != 0);
        assert((w >> t) & 1 == 1);
        if h + 1 < t {
            let k: u64 = (h + 1) as u64;
            assert((w >> k) & 1u64 == 0u64);
            assert((half >> h) & 1 == (w >> k) & 1) by (bit_vector)
                requires
                    half == w >> 1,
                    h < 63,
                    k == h + 1,
            ;
        }
        if t < h + 1 {
            let k: u64 = (t - 1) as u64;
            assert((half >> k) & 1u64 == 0u64);
            assert((half >> k) & 1 == (w >> t) & 1) by (bit_vector)
                requires
                    half == w >> 1,
                    t == k + 1,
                    t < 64,
            ;
        }
    }
}

proof fn lemma_lowest_bit_bound(n: nat, bits: nat)
    requires
        0 < n < vstd::arithmetic::power2::pow2(bits),
    ensures
        lowest_bit(n) < bits,
    decreases n,
{
    vstd::arithmetic::power2::lemma2_to64();
    if bits == 0 {
    } else if n % 2 == 0 {
        vstd::arithmetic::power2::lemma_pow2_unfold(bits);
        lemma_lowest_bit_bound(n / 2, (bits - 1) as nat);
    }
}

/// A rank is at least one and fits a register.
pub proof fn lemma_rank_range(hash: u64)
    ensures
        1 <= rank(hash) <= MAX_RANK,
        0 <= bucket(hash) < NUM_REGISTERS,
{
    vstd::arithmetic::power2::lemma2_to64();
    vstd::arithmetic::power2::lemma2_to64_rest();
    let n = (hash as nat / NUM_REGISTERS as nat + RANK_SENTINEL as nat) as nat;
    assert(hash as nat / NUM_REGISTERS as nat <= 0x3_ffff_ffff_ffff);
    assert(n < 0x8_0000_0000_0000);
    lemma_lowest_bit_bound(n, 51);
}

/// One more value is absorbed after the values before it.
pub proof fn lemma_absorb_push<A>(
    registers: Seq<u8>,
    values: Seq<A>,
    value: A,
    hash: spec_fn(A) -> u64,
)
    ensures
        absorb_all(registers, values.push(value).map_values(hash)) == absorb(
            absorb_all(registers, values.map_values(hash)),
            hash(value),
        ),
{
    let before = values.map_values(hash);
    let after = values.push(value).map_values(hash);
    assert(after =~= before.push(hash(value)));
    assert(after.drop_last() =~= before);
}

} // verus!
