//! What is handed to the hasher for the values of a column.

use arrow::datatypes::{
    Date32Type, Date64Type, Int32Type, Int64Type, Time32MillisecondType, Time32SecondType,
    Time64MicrosecondType, Time64NanosecondType, TimestampMicrosecondType,
    TimestampMillisecondType, TimestampNanosecondType, TimestampSecondType, UInt32Type, UInt64Type,
};
use datafusion_functions_aggregate_common::aggregate::count_distinct::{
    Bitmap65536DistinctCountAccumulator, Bitmap65536DistinctCountAccumulatorI16,
    BoolArray256DistinctCountAccumulator, BoolArray256DistinctCountAccumulatorI8,
};
use vstd::prelude::*;
use vstd::arithmetic::power2::pow2;
use crate::accumulator;
use crate::accumulators;
use crate::arrays;
use crate::arrays::{ArrayRef, NumericType, OffsetSize};
use crate::hashing;
use crate::hashing::HllValue;
use crate::optional;
use crate::schema::{DataType, TimeUnit};
use crate::sketch_laws;
use crate::small_int;
use crate::small_int::DistinctCounter;

verus! {

/// The hash of a value is what the hasher returns on the whole value.
pub proof fn law_values_are_hashed_whole(
    a: i32,
    b: i64,
    c: u32,
    d: u64,
    word: u128,
    text: &str,
    bytes: &[u8],
)
    ensures
        a.hash_spec() == hashing::i32_hash_on(hashing::build_target(), a),
        b.hash_spec() == hashing::i64_hash_on(hashing::build_target(), b),
        c.hash_spec() == hashing::u32_hash_on(hashing::build_target(), c),
        d.hash_spec() == hashing::u64_hash_on(hashing::build_target(), d),
        text.hash_spec() == hashing::str_hash_on(hashing::build_target(), text@),
        bytes.hash_spec() == hashing::bytes_hash_on(hashing::build_target(), bytes@),
        hashing::word_hash(word) == hashing::u128_hash_on(hashing::build_target(), word),
        hashing::text_hash(text@) == hashing::str_hash_on(hashing::build_target(), text@),
        hashing::bytes_hash(bytes@) == hashing::bytes_hash_on(hashing::build_target(), bytes@),
{
}

/// Hashes are those that a function gives on the values in rows, and no others.
pub open spec fn are_hashes_of<A>(
    hashes: Seq<u64>,
    rows: Seq<Option<A>>,
    f: spec_fn(A) -> u64,
) -> bool {
    forall|hash: u64|
        #[trigger] hashes.contains(hash) <==> exists|value: A|
            #[trigger] rows.contains(Some(value)) && hash == f(value)
}

proof fn lemma_are_hashes<A>(hashes: Seq<u64>, rows: Seq<Option<A>>, f: spec_fn(A) -> u64)
    requires
        hashes =~= optional::present(rows).map_values(f),
    ensures
        are_hashes_of(hashes, rows, f),
{
    assert forall|hash: u64| #[trigger] hashes.contains(hash) <==> exists|value: A|
        #[trigger] rows.contains(Some(value)) && hash == f(value) by {
        sketch_laws::lemma_mapped_values(rows, f, hash);
    }
}

/// A column feeds a sketch with the hashes of the values in its rows, read by its type and hashed
/// whole. A column of a type that no sketch reads feeds nothing.
pub proof fn law_a_column_feeds_its_values(array: ArrayRef)
    ensures
        ({
            let hashes = accumulator::column_hashes(array);
            match arrays::array_type(array) {
                DataType::UInt32 => are_hashes_of(
                    hashes,
                    arrays::uint32_rows(array),
                    |value: u32| hashing::u32_hash_on(hashing::build_target(), value),
                ),
                DataType::UInt64 => are_hashes_of(
                    hashes,
                    arrays::uint64_rows(array),
                    |value: u64| hashing::u64_hash_on(hashing::build_target(), value),
                ),
                DataType::Int32 => are_hashes_of(
                    hashes,
                    arrays::int32_rows(array),
                    |value: i32| hashing::i32_hash_on(hashing::build_target(), value),
                ),
                DataType::Int64 => are_hashes_of(
                    hashes,
                    arrays::int64_rows(array),
                    |value: i64| hashing::i64_hash_on(hashing::build_target(), value),
                ),
                DataType::Date32 => are_hashes_of(
                    hashes,
                    arrays::date32_rows(array),
                    |value: i32| hashing::i32_hash_on(hashing::build_target(), value),
                ),
                DataType::Date64 => are_hashes_of(
                    hashes,
                    arrays::date64_rows(array),
                    |value: i64| hashing::i64_hash_on(hashing::build_target(), value),
                ),
                DataType::Time32(TimeUnit::Second) => are_hashes_of(
                    hashes,
                    arrays::time32_second_rows(array),
                    |value: i32| hashing::i32_hash_on(hashing::build_target(), value),
                ),
                DataType::Time32(TimeUnit::Millisecond) => are_hashes_of(
                    hashes,
                    arrays::time32_millisecond_rows(array),
                    |value: i32| hashing::i32_hash_on(hashing::build_target(), value),
                ),
                DataType::Time64(TimeUnit::Microsecond) => are_hashes_of(
                    hashes,
                    arrays::time64_microsecond_rows(array),
                    |value: i64| hashing::i64_hash_on(hashing::build_target(), value),
                ),
                DataType::Time64(TimeUnit::Nanosecond) => are_hashes_of(
                    hashes,
                    arrays::time64_nanosecond_rows(array),
                    |value: i64| hashing::i64_hash_on(hashing::build_target(), value),
                ),
                DataType::Timestamp(TimeUnit::Second, _) => are_hashes_of(
                    hashes,
                    arrays::timestamp_second_rows(array),
                    |value: i64| hashing::i64_hash_on(hashing::build_target(), value),
                ),
                DataType::Timestamp(TimeUnit::Millisecond, _) => are_hashes_of(
                    hashes,
                    arrays::timestamp_millisecond_rows(array),
                    |value: i64| hashing::i64_hash_on(hashing::build_target(), value),
                ),
                DataType::Timestamp(TimeUnit::Microsecond, _) => are_hashes_of(
                    hashes,
                    arrays::timestamp_microsecond_rows(array),
                    |value: i64| hashing::i64_hash_on(hashing::build_target(), value),
                ),
                DataType::Timestamp(TimeUnit::Nanosecond, _) => are_hashes_of(
                    hashes,
                    arrays::timestamp_nanosecond_rows(array),
                    |value: i64| hashing::i64_hash_on(hashing::build_target(), value),
                ),
                DataType::Utf8 => are_hashes_of(
                    hashes,
                    arrays::string_rows(array),
                    |value: Seq<char>| hashing::str_hash_on(hashing::build_target(), value),
                ),
                DataType::LargeUtf8 => are_hashes_of(
                    hashes,
                    arrays::large_string_rows(array),
                    |value: Seq<char>| hashing::str_hash_on(hashing::build_target(), value),
                ),
                DataType::Binary => are_hashes_of(
                    hashes,
                    arrays::binary_rows(array),
                    |value: Seq<u8>| hashing::bytes_hash_on(hashing::build_target(), value),
                ),
                DataType::LargeBinary => are_hashes_of(
                    hashes,
                    arrays::large_binary_rows(array),
                    |value: Seq<u8>| hashing::bytes_hash_on(hashing::build_target(), value),
                ),
                DataType::Utf8View => are_hashes_of(
                    hashes,
                    arrays::string_view_rows(arrays::string_view(array)),
                    |value: Seq<char>| accumulators::string_view_hash(value),
                ),
                _ => hashes.len() == 0,
            }
        }),
{
    let hashes = accumulator::column_hashes(array);
    match arrays::array_type(array) {
        DataType::UInt32 => {
            lemma_are_hashes(
                hashes,
                arrays::uint32_rows(array),
                |value: u32| hashing::u32_hash_on(hashing::build_target(), value),
            );
        },
        DataType::UInt64 => {
            lemma_are_hashes(
                hashes,
                arrays::uint64_rows(array),
                |value: u64| hashing::u64_hash_on(hashing::build_target(), value),
            );
        },
        DataType::Int32 => {
            lemma_are_hashes(
                hashes,
                arrays::int32_rows(array),
                |value: i32| hashing::i32_hash_on(hashing::build_target(), value),
            );
        },
        DataType::Int64 => {
            lemma_are_hashes(
                hashes,
                arrays::int64_rows(array),
                |value: i64| hashing::i64_hash_on(hashing::build_target(), value),
            );
        },
        DataType::Date32 => {
            lemma_are_hashes(
                hashes,
                arrays::date32_rows(array),
                |value: i32| hashing::i32_hash_on(hashing::build_target(), value),
            );
        },
        DataType::Date64 => {
            lemma_are_hashes(
                hashes,
                arrays::date64_rows(array),
                |value: i64| hashing::i64_hash_on(hashing::build_target(), value),
            );
        },
        DataType::Time32(TimeUnit::Second) => {
            lemma_are_hashes(
                hashes,
                arrays::time32_second_rows(array),
                |value: i32| hashing::i32_hash_on(hashing::build_target(), value),
            );
        },
        DataType::Time32(TimeUnit::Millisecond) => {
            lemma_are_hashes(
                hashes,
                arrays::time32_millisecond_rows(array),
                |value: i32| hashing::i32_hash_on(hashing::build_target(), value),
            );
        },
        DataType::Time64(TimeUnit::Microsecond) => {
            lemma_are_hashes(
                hashes,
                arrays::time64_microsecond_rows(array),
                |value: i64| hashing::i64_hash_on(hashing::build_target(), value),
            );
        },
        DataType::Time64(TimeUnit::Nanosecond) => {
            lemma_are_hashes(
                hashes,
                arrays::time64_nanosecond_rows(array),
                |value: i64| hashing::i64_hash_on(hashing::build_target(), value),
            );
        },
        DataType::Timestamp(TimeUnit::Second, _) => {
            lemma_are_hashes(
                hashes,
                arrays::timestamp_second_rows(array),
                |value: i64| hashing::i64_hash_on(hashing::build_target(), value),
            );
        },
        DataType::Timestamp(TimeUnit::Millisecond, _) => {
            lemma_are_hashes(
                hashes,
                arrays::timestamp_millisecond_rows(array),
                |value: i64| hashing::i64_hash_on(hashing::build_target(), value),
            );
        },
        DataType::Timestamp(TimeUnit::Microsecond, _) => {
            lemma_are_hashes(
                hashes,
                arrays::timestamp_microsecond_rows(array),
                |value: i64| hashing::i64_hash_on(hashing::build_target(), value),
            );
        },
        DataType::Timestamp(TimeUnit::Nanosecond, _) => {
            lemma_are_hashes(
                hashes,
                arrays::timestamp_nanosecond_rows(array),
                |value: i64| hashing::i64_hash_on(hashing::build_target(), value),
            );
        },
        DataType::Utf8 => {
            lemma_are_hashes(
                hashes,
                arrays::string_rows(array),
                |value: Seq<char>| hashing::str_hash_on(hashing::build_target(), value),
            );
        },
        DataType::LargeUtf8 => {
            lemma_are_hashes(
                hashes,
                arrays::large_string_rows(array),
                |value: Seq<char>| hashing::str_hash_on(hashing::build_target(), value),
            );
        },
        DataType::Binary => {
            lemma_are_hashes(
                hashes,
                arrays::binary_rows(array),
                |value: Seq<u8>| hashing::bytes_hash_on(hashing::build_target(), value),
            );
        },
        DataType::LargeBinary => {
            lemma_are_hashes(
                hashes,
                arrays::large_binary_rows(array),
                |value: Seq<u8>| hashing::bytes_hash_on(hashing::build_target(), value),
            );
        },
        DataType::Utf8View => {
            lemma_are_hashes(
                hashes,
                arrays::string_view_rows(arrays::string_view(array)),
                |value: Seq<char>| accumulators::string_view_hash(value),
            );
        },
        _ => {},
    }
}

/// A word holds a byte string: its length in the low 32 bits, its bytes above, one after the
/// other, and zeros in the rest.
pub open spec fn holds_inline(word: u128, bytes: Seq<u8>) -> bool {
    &&& word as int % 0x1_0000_0000 == bytes.len()
    &&& forall|j: int|
        0 <= j < bytes.len() ==> word as int / 0x1_0000_0000 / (pow2((8 * j) as nat) as int) % 256
            == #[trigger] bytes[j]
    &&& word as int / 0x1_0000_0000 / (pow2(8 * bytes.len()) as int) == 0
}

/// The digits of a number in base 256 are bytes.
spec fn has_digits(x: int, bytes: Seq<u8>) -> bool {
    &&& forall|j: int|
        0 <= j < bytes.len() ==> x / (pow2((8 * j) as nat) as int) % 256 == #[trigger] bytes[j]
    &&& x / (pow2(8 * bytes.len()) as int) == 0
}

proof fn lemma_next_digit(x: int, j: nat)
    requires
        x >= 0,
    ensures
        x / (pow2(8 * (j + 1)) as int) == x / 256 / (pow2(8 * j) as int),
{
    vstd::arithmetic::power2::lemma2_to64();
    vstd::arithmetic::power2::lemma_pow2_pos(8 * j);
    vstd::arithmetic::power2::lemma_pow2_adds(8, 8 * j);
    assert(8 + 8 * j == 8 * (j + 1));
    vstd::arithmetic::div_mod::lemma_div_denominator(x, 256, pow2(8 * j) as int);
}

proof fn lemma_digits(bytes: Seq<u8>)
    ensures
        has_digits(arrays::little_endian(bytes) as int, bytes),
    decreases bytes.len(),
{
    vstd::arithmetic::power2::lemma2_to64();
    let x = arrays::little_endian(bytes) as int;
    assert(pow2(0) == 1);
    assert(x / 1 == x);
    if bytes.len() > 0 {
        let rest = bytes.drop_first();
        lemma_digits(rest);
        assert(x / 256 == arrays::little_endian(rest));
        assert forall|j: int| 0 <= j < bytes.len() implies x / (pow2((8 * j) as nat) as int) % 256
            == #[trigger] bytes[j] by {
            if j > 0 {
                lemma_next_digit(x, (j - 1) as nat);
                assert(bytes[j] == rest[j - 1]);
            }
        }
        lemma_next_digit(x, rest.len());
    }
}

proof fn lemma_one_number(x: int, bytes: Seq<u8>)
    requires
        x >= 0,
        has_digits(x, bytes),
    ensures
        x == arrays::little_endian(bytes),
    decreases bytes.len(),
{
    vstd::arithmetic::power2::lemma2_to64();
    assert(pow2(0) == 1);
    assert(x / 1 == x);
    if bytes.len() > 0 {
        let rest = bytes.drop_first();
        assert(x / (pow2((8 * 0int) as nat) as int) % 256 == bytes[0]);
        assert forall|j: int| 0 <= j < rest.len() implies x / 256 / (pow2((8 * j) as nat) as int)
            % 256 == #[trigger] rest[j] by {
            lemma_next_digit(x, j as nat);
            assert(bytes[j + 1] == rest[j]);
        }
        lemma_next_digit(x, rest.len());
        lemma_one_number(x / 256, rest);
    }
}

proof fn lemma_inline_view(bytes: Seq<u8>)
    requires
        bytes.len() <= 12,
    ensures
        arrays::inline_view(bytes) <= u128::MAX,
        holds_inline(arrays::inline_view(bytes) as u128, bytes),
{
    let x = arrays::little_endian(bytes) as int;
    let p = pow2(8 * bytes.len()) as int;
    lemma_digits(bytes);
    vstd::arithmetic::power2::lemma2_to64();
    vstd::arithmetic::power2::lemma2_to64_rest();
    vstd::arithmetic::power2::lemma_pow2_pos(8 * bytes.len());
    vstd::arithmetic::power2::lemma_pow2_adds(32, 64);
    vstd::arithmetic::power2::lemma_pow2_adds(64, 64);
    if bytes.len() < 12 {
        vstd::arithmetic::power2::lemma_pow2_strictly_increases(8 * bytes.len(), 96);
    }
    vstd::arithmetic::div_mod::lemma_fundamental_div_mod(x, p);
    assert(x < p) by {
        assert(p * 0 == 0);
    }
    assert(x < 0x1_0000_0000_0000_0000_0000_0000);
    assert((bytes.len() + 0x1_0000_0000 * x) / 0x1_0000_0000 == x);
    assert((bytes.len() + 0x1_0000_0000 * x) % 0x1_0000_0000 == bytes.len());
}

/// A word holds one byte string at most, and a byte string is held by one word.
pub proof fn law_words_tell_byte_strings_apart(v: u128, w: u128, x: Seq<u8>, y: Seq<u8>)
    requires
        holds_inline(v, x),
        holds_inline(w, y),
    ensures
        v == w <==> x == y,
{
    if x == y {
        lemma_one_number(v as int / 0x1_0000_0000, x);
        lemma_one_number(w as int / 0x1_0000_0000, y);
    }
    if v == w {
        assert forall|j: int| 0 <= j < x.len() implies x[j] == y[j] by {
            assert(y[j] == w as int / 0x1_0000_0000 / (pow2((8 * j) as nat) as int) % 256);
        }
        assert(x =~= y);
    }
}

/// A string of at most 12 bytes in a column of string views is hashed by the word that holds the
/// whole of it.
pub proof fn law_short_strings_are_hashed_by_their_word(s: Seq<char>)
    requires
        vstd::utf8::encode_utf8(s).len() <= 12,
    ensures
        exists|word: u128| #[trigger]
            holds_inline(word, vstd::utf8::encode_utf8(s)) && accumulators::string_view_hash(s)
                == hashing::u128_hash_on(hashing::build_target(), word),
        forall|word: u128| #[trigger]
            holds_inline(word, vstd::utf8::encode_utf8(s)) ==> accumulators::string_view_hash(s)
                == hashing::u128_hash_on(hashing::build_target(), word),
{
    let bytes = vstd::utf8::encode_utf8(s);
    let view = arrays::inline_view(bytes) as u128;
    lemma_inline_view(bytes);
    assert(holds_inline(view, bytes));
    assert forall|word: u128| #[trigger] holds_inline(word, bytes) implies word == view by {
        law_words_tell_byte_strings_apart(word, view, bytes, bytes);
    }
}

/// A string of more than 12 bytes in a column of string views is hashed by all its characters.
pub proof fn law_long_strings_are_hashed_by_their_characters(s: Seq<char>)
    requires
        vstd::utf8::encode_utf8(s).len() > 12,
    ensures
        accumulators::string_view_hash(s) == hashing::str_hash_on(hashing::build_target(), s),
{
}

/// For two different strings of at most 12 bytes, different words are handed to the hasher.
pub proof fn law_short_strings_are_told_apart(s: Seq<char>, t: Seq<char>)
    requires
        vstd::utf8::encode_utf8(s).len() <= 12,
        vstd::utf8::encode_utf8(t).len() <= 12,
        s != t,
    ensures
        exists|v: u128, w: u128|
            v != w && accumulators::string_view_hash(s) == #[trigger] hashing::u128_hash_on(
                hashing::build_target(),
                v,
            ) && accumulators::string_view_hash(t) == #[trigger] hashing::u128_hash_on(
                hashing::build_target(),
                w,
            ),
{
    let x = vstd::utf8::encode_utf8(s);
    let y = vstd::utf8::encode_utf8(t);
    vstd::utf8::encode_utf8_decode_utf8(s);
    vstd::utf8::encode_utf8_decode_utf8(t);
    lemma_inline_view(x);
    lemma_inline_view(y);
    let v = arrays::inline_view(x) as u128;
    let w = arrays::inline_view(y) as u128;
    law_words_tell_byte_strings_apart(v, w, x, y);
    assert(accumulators::string_view_hash(s) == hashing::u128_hash_on(hashing::build_target(), v));
    assert(accumulators::string_view_hash(t) == hashing::u128_hash_on(hashing::build_target(), w));
}

/// An accumulator of numbers reads the rows of a column of its type, and of no other column.
pub proof fn law_numbers_are_read_by_their_type(array: ArrayRef)
    ensures
        UInt32Type::rows(array) == (if arrays::array_type(array) is UInt32 {
            Some(arrays::uint32_rows(array))
        } else {
            None
        }),
        UInt64Type::rows(array) == (if arrays::array_type(array) is UInt64 {
            Some(arrays::uint64_rows(array))
        } else {
            None
        }),
        Int32Type::rows(array) == (if arrays::array_type(array) is Int32 {
            Some(arrays::int32_rows(array))
        } else {
            None
        }),
        Int64Type::rows(array) == (if arrays::array_type(array) is Int64 {
            Some(arrays::int64_rows(array))
        } else {
            None
        }),
        Date32Type::rows(array) == (if arrays::array_type(array) is Date32 {
            Some(arrays::date32_rows(array))
        } else {
            None
        }),
        Date64Type::rows(array) == (if arrays::array_type(array) is Date64 {
            Some(arrays::date64_rows(array))
        } else {
            None
        }),
        Time32SecondType::rows(array) == (if arrays::array_type(array) == DataType::Time32(
            TimeUnit::Second,
        ) {
            Some(arrays::time32_second_rows(array))
        } else {
            None
        }),
        Time32MillisecondType::rows(array) == (if arrays::array_type(array) == DataType::Time32(
            TimeUnit::Millisecond,
        ) {
            Some(arrays::time32_millisecond_rows(array))
        } else {
            None
        }),
        Time64MicrosecondType::rows(array) == (if arrays::array_type(array) == DataType::Time64(
            TimeUnit::Microsecond,
        ) {
            Some(arrays::time64_microsecond_rows(array))
        } else {
            None
        }),
        Time64NanosecondType::rows(array) == (if arrays::array_type(array) == DataType::Time64(
            TimeUnit::Nanosecond,
        ) {
            Some(arrays::time64_nanosecond_rows(array))
        } else {
            None
        }),
        TimestampSecondType::rows(array) == (if arrays::array_type(array) is Timestamp
            && arrays::array_type(array)->Timestamp_0 == TimeUnit::Second {
            Some(arrays::timestamp_second_rows(array))
        } else {
            None
        }),
        TimestampMillisecondType::rows(array) == (if arrays::array_type(array) is Timestamp
            && arrays::array_type(array)->Timestamp_0 == TimeUnit::Millisecond {
            Some(arrays::timestamp_millisecond_rows(array))
        } else {
            None
        }),
        TimestampMicrosecondType::rows(array) == (if arrays::array_type(array) is Timestamp
            && arrays::array_type(array)->Timestamp_0 == TimeUnit::Microsecond {
            Some(arrays::timestamp_microsecond_rows(array))
        } else {
            None
        }),
        TimestampNanosecondType::rows(array) == (if arrays::array_type(array) is Timestamp
            && arrays::array_type(array)->Timestamp_0 == TimeUnit::Nanosecond {
            Some(arrays::timestamp_nanosecond_rows(array))
        } else {
            None
        }),
{
}

/// An accumulator of strings or byte strings reads the rows of a column of its type, and of no
/// other column.
pub proof fn law_texts_are_read_by_their_type(array: ArrayRef)
    ensures
        <i32 as OffsetSize>::string_rows(array) == (if arrays::array_type(array) is Utf8 {
            Some(arrays::string_rows(array))
        } else {
            None
        }),
        <i64 as OffsetSize>::string_rows(array) == (if arrays::array_type(array) is LargeUtf8 {
            Some(arrays::large_string_rows(array))
        } else {
            None
        }),
        <i32 as OffsetSize>::binary_rows(array) == (if arrays::array_type(array) is Binary {
            Some(arrays::binary_rows(array))
        } else {
            None
        }),
        <i64 as OffsetSize>::binary_rows(array) == (if arrays::array_type(array) is LargeBinary {
            Some(arrays::large_binary_rows(array))
        } else {
            None
        }),
        accumulators::string_view_column(array) == (if arrays::array_type(array) is Utf8View {
            Some(arrays::string_view_rows(arrays::string_view(array)))
        } else {
            None
        }),
{
}

/// A counter reads the rows of a column of its type, and of no other column. It reads the lists of
/// a column of lists of its type; a column of other lists only if all of them are null, and then
/// there is nothing in it.
pub proof fn law_small_integers_are_read_by_their_type(array: ArrayRef)
    ensures
        BoolArray256DistinctCountAccumulator::rows(array) == (if arrays::array_type(
            array,
        ) is UInt8 {
            Some(small_int::uint8_rows(array))
        } else {
            None
        }),
        BoolArray256DistinctCountAccumulator::lists(array) == (match arrays::array_type(array) {
            DataType::List(item) => if item.data_type is UInt8 {
                Some(small_int::uint8_lists(array))
            } else if small_int::every_list_is_null(array) {
                Some(Seq::empty())
            } else {
                None
            },
            _ => None,
        }),
        BoolArray256DistinctCountAccumulator::value_type() is UInt8,
        BoolArray256DistinctCountAccumulatorI8::rows(array) == (if arrays::array_type(
            array,
        ) is Int8 {
            Some(small_int::int8_rows(array))
        } else {
            None
        }),
        BoolArray256DistinctCountAccumulatorI8::lists(array) == (match arrays::array_type(array) {
            DataType::List(item) => if item.data_type is Int8 {
                Some(small_int::int8_lists(array))
            } else if small_int::every_list_is_null(array) {
                Some(Seq::empty())
            } else {
                None
            },
            _ => None,
        }),
        BoolArray256DistinctCountAccumulatorI8::value_type() is Int8,
        Bitmap65536DistinctCountAccumulator::rows(array) == (if arrays::array_type(
            array,
        ) is UInt16 {
            Some(small_int::uint16_rows(array))
        } else {
            None
        }),
        Bitmap65536DistinctCountAccumulator::lists(array) == (match arrays::array_type(array) {
            DataType::List(item) => if item.data_type is UInt16 {
                Some(small_int::uint16_lists(array))
            } else if small_int::every_list_is_null(array) {
                Some(Seq::empty())
            } else {
                None
            },
            _ => None,
        }),
        Bitmap65536DistinctCountAccumulator::value_type() is UInt16,
        Bitmap65536DistinctCountAccumulatorI16::rows(array) == (if arrays::array_type(
            array,
        ) is Int16 {
            Some(small_int::int16_rows(array))
        } else {
            None
        }),
        Bitmap65536DistinctCountAccumulatorI16::lists(array) == (match arrays::array_type(array) {
            DataType::List(item) => if item.data_type is Int16 {
                Some(small_int::int16_lists(array))
            } else if small_int::every_list_is_null(array) {
                Some(Seq::empty())
            } else {
                None
            },
            _ => None,
        }),
        Bitmap65536DistinctCountAccumulatorI16::value_type() is Int16,
{
}

} // verus!
