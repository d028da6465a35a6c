//! Hashes of column values, under the fixed hash state that all sketches share.

use std::hash::BuildHasher;
use datafusion_common::hash_utils::HLL_RANDOM_STATE;
use vstd::prelude::*;

verus! {

/// A code for the target that the crate is built for. The hasher keeps a fixed seed, so a
/// hash follows from the value and from the word size and byte order of the target. Sketches
/// are exchanged between builds for one target only.
pub closed spec fn build_target() -> int {
    vstd::pervasive::arbitrary()
}

/// The hash of an `i32` under [`HLL_RANDOM_STATE`] on a target.
pub uninterp spec fn i32_hash_on(target: int, value: i32) -> u64;

/// The hash of an `i64` under [`HLL_RANDOM_STATE`] on a target.
pub uninterp spec fn i64_hash_on(target: int, value: i64) -> u64;

/// The hash of a `u32` under [`HLL_RANDOM_STATE`] on a target.
pub uninterp spec fn u32_hash_on(target: int, value: u32) -> u64;

/// The hash of a `u64` under [`HLL_RANDOM_STATE`] on a target.
pub uninterp spec fn u64_hash_on(target: int, value: u64) -> u64;

/// The hash of a `u128` under [`HLL_RANDOM_STATE`] on a target.
pub uninterp spec fn u128_hash_on(target: int, value: u128) -> u64;

/// The hash of a `str` under [`HLL_RANDOM_STATE`] on a target.
pub uninterp spec fn str_hash_on(target: int, value: Seq<char>) -> u64;

/// The hash of a `[u8]` under [`HLL_RANDOM_STATE`] on a target.
pub uninterp spec fn bytes_hash_on(target: int, value: Seq<u8>) -> u64;

/// The hash of a `u128`.
pub open spec fn word_hash(value: u128) -> u64 {
    u128_hash_on(build_target(), value)
}

/// The hash of a string.
pub open spec fn text_hash(value: Seq<char>) -> u64 {
    str_hash_on(build_target(), value)
}

/// The hash of a byte string.
pub open spec fn bytes_hash(value: Seq<u8>) -> u64 {
    bytes_hash_on(build_target(), value)
}

/// Calls `BuildHasher::hash_one` of [`HLL_RANDOM_STATE`]. Trusted: on one target the result
/// is a function of the value, because the seed of the state is a constant.
#[verifier::external_body]
fn hash_i32(value: i32) -> (hash: u64)
    ensures
        hash == i32_hash_on(build_target(), value),
{
    HLL_RANDOM_STATE.hash_one(value)
}

/// Calls `BuildHasher::hash_one` of [`HLL_RANDOM_STATE`]. Trusted: on one target the result
/// is a function of the value, because the seed of the state is a constant.
#[verifier::external_body]
fn hash_i64(value: i64) -> (hash: u64)
    ensures
        hash == i64_hash_on(build_target(), value),
{
    HLL_RANDOM_STATE.hash_one(value)
}

/// Calls `BuildHasher::hash_one` of [`HLL_RANDOM_STATE`]. Trusted: on one target the result
/// is a function of the value, because the seed of the state is a constant.
#[verifier::external_body]
fn hash_u32(value: u32) -> (hash: u64)
    ensures
        hash == u32_hash_on(build_target(), value),
{
    HLL_RANDOM_STATE.hash_one(value)
}

/// Calls `BuildHasher::hash_one` of [`HLL_RANDOM_STATE`]. Trusted: on one target the result
/// is a function of the value, because the seed of the state is a constant.
#[verifier::external_body]
fn hash_u64(value: u64) -> (hash: u64)
    ensures
        hash == u64_hash_on(build_target(), value),
{
    HLL_RANDOM_STATE.hash_one(value)
}

/// Calls `BuildHasher::hash_one` of [`HLL_RANDOM_STATE`]. Trusted: on one target the result
/// is a function of the value, because the seed of the state is a constant.
#[verifier::external_body]
pub(crate) fn hash_u128(value: u128) -> (hash: u64)
    ensures
        hash == u128_hash_on(build_target(), value),
{
    HLL_RANDOM_STATE.hash_one(value)
}

/// Calls `BuildHasher::hash_one` of [`HLL_RANDOM_STATE`]. Trusted: on one target the result
/// is a function of the characters, because the seed of the state is a constant.
#[verifier::external_body]
fn hash_str(value: &str) -> (hash: u64)
    ensures
        hash == str_hash_on(build_target(), value@),
{
    HLL_RANDOM_STATE.hash_one(value)
}

/// Calls `BuildHasher::hash_one` of [`HLL_RANDOM_STATE`]. Trusted: on one target the result
/// is a function of the bytes, because the seed of the state is a constant.
#[verifier::external_body]
fn hash_bytes(value: &[u8]) -> (hash: u64)
    ensures
        hash == bytes_hash_on(build_target(), value@),
{
    HLL_RANDOM_STATE.hash_one(value)
}

/// A value that a sketch can be fed with.
pub trait HllValue {
    /// The hash of the value.
    spec fn hash_spec(&self) -> u64;

    /// Computes the hash of the value.
    fn hll_hash(&self) -> (hash: u64)
        ensures
            hash == self.hash_spec(),
    ;
}

impl HllValue for i32 {
    open spec fn hash_spec(&self) -> u64 {
        i32_hash_on(build_target(), *self)
    }

    fn hll_hash(&self) -> (hash: u64) {
        hash_i32(*self)
    }
}

impl HllValue for i64 {
    open spec fn hash_spec(&self) -> u64 {
        i64_hash_on(build_target(), *self)
    }

    fn hll_hash(&self) -> (hash: u64) {
        hash_i64(*self)
    }
}

impl HllValue for u32 {
    open spec fn hash_spec(&self) -> u64 {
        u32_hash_on(build_target(), *self)
    }

    fn hll_hash(&self) -> (hash: u64) {
        hash_u32(*self)
    }
}

impl HllValue for u64 {
    open spec fn hash_spec(&self) -> u64 {
        u64_hash_on(build_target(), *self)
    }

    fn hll_hash(&self) -> (hash: u64) {
        hash_u64(*self)
    }
}

impl HllValue for str {
    open spec fn hash_spec(&self) -> u64 {
        text_hash(self@)
    }

    fn hll_hash(&self) -> (hash: u64) {
        hash_str(self)
    }
}

impl HllValue for [u8] {
    open spec fn hash_spec(&self) -> u64 {
        bytes_hash(self@)
    }

    fn hll_hash(&self) -> (hash: u64) {
        hash_bytes(self)
    }
}

} // verus!
