//! What the aggregate offers for a type: an accumulator, the schema of its state, and messages.

use vstd::prelude::*;
use crate::accumulator::{ApproxDistinctAccumulator, Content};
use crate::accumulators;
use crate::approx_distinct;
use crate::arrays;
use crate::arrays::ArrayRef;
use crate::error::ApproxDistinctError;
use crate::estimate_laws;
use crate::registers;
use crate::scalar;
use crate::scalar::ScalarValue;
use crate::schema;
use crate::schema::{DataType, Field, TimeUnit};
use crate::small_int;
use crate::text;

verus! {

/// Some accumulator for columns of a type, if there is one.
spec fn example_for(data_type: DataType) -> Option<ApproxDistinctAccumulator> {
    match data_type {
        DataType::UInt8 => Some(ApproxDistinctAccumulator::UInt8(vstd::pervasive::arbitrary())),
        DataType::Int8 => Some(ApproxDistinctAccumulator::Int8(vstd::pervasive::arbitrary())),
        DataType::UInt16 => Some(ApproxDistinctAccumulator::UInt16(vstd::pervasive::arbitrary())),
        DataType::Int16 => Some(ApproxDistinctAccumulator::Int16(vstd::pervasive::arbitrary())),
        DataType::UInt32 => Some(ApproxDistinctAccumulator::UInt32(vstd::pervasive::arbitrary())),
        DataType::UInt64 => Some(ApproxDistinctAccumulator::UInt64(vstd::pervasive::arbitrary())),
        DataType::Int32 => Some(ApproxDistinctAccumulator::Int32(vstd::pervasive::arbitrary())),
        DataType::Int64 => Some(ApproxDistinctAccumulator::Int64(vstd::pervasive::arbitrary())),
        DataType::Date32 => Some(ApproxDistinctAccumulator::Date32(vstd::pervasive::arbitrary())),
        DataType::Date64 => Some(ApproxDistinctAccumulator::Date64(vstd::pervasive::arbitrary())),
        DataType::Utf8 => Some(ApproxDistinctAccumulator::Utf8(vstd::pervasive::arbitrary())),
        DataType::LargeUtf8 => Some(
            ApproxDistinctAccumulator::LargeUtf8(vstd::pervasive::arbitrary()),
        ),
        DataType::Utf8View => Some(
            ApproxDistinctAccumulator::Utf8View(vstd::pervasive::arbitrary()),
        ),
        DataType::Binary => Some(ApproxDistinctAccumulator::Binary(vstd::pervasive::arbitrary())),
        DataType::LargeBinary => Some(
            ApproxDistinctAccumulator::LargeBinary(vstd::pervasive::arbitrary()),
        ),
        DataType::Null => Some(ApproxDistinctAccumulator::Null(vstd::pervasive::arbitrary())),
        DataType::Time32(TimeUnit::Second) => Some(
            ApproxDistinctAccumulator::Time32Second(vstd::pervasive::arbitrary()),
        ),
        DataType::Time32(TimeUnit::Millisecond) => Some(
            ApproxDistinctAccumulator::Time32Millisecond(vstd::pervasive::arbitrary()),
        ),
        DataType::Time64(TimeUnit::Microsecond) => Some(
            ApproxDistinctAccumulator::Time64Microsecond(vstd::pervasive::arbitrary()),
        ),
        DataType::Time64(TimeUnit::Nanosecond) => Some(
            ApproxDistinctAccumulator::Time64Nanosecond(vstd::pervasive::arbitrary()),
        ),
        DataType::Timestamp(TimeUnit::Second, _) => Some(
            ApproxDistinctAccumulator::TimestampSecond(vstd::pervasive::arbitrary()),
        ),
        DataType::Timestamp(TimeUnit::Millisecond, _) => Some(
            ApproxDistinctAccumulator::TimestampMillisecond(vstd::pervasive::arbitrary()),
        ),
        DataType::Timestamp(TimeUnit::Microsecond, _) => Some(
            ApproxDistinctAccumulator::TimestampMicrosecond(vstd::pervasive::arbitrary()),
        ),
        DataType::Timestamp(TimeUnit::Nanosecond, _) => Some(
            ApproxDistinctAccumulator::TimestampNanosecond(vstd::pervasive::arbitrary()),
        ),
        _ => None,
    }
}

/// A type is supported if and only if there is an accumulator that reads columns of that type.
pub proof fn law_a_type_is_supported_where_an_accumulator_reads_it(data_type: DataType)
    ensures
        data_type.is_supported() <==> exists|accumulator: ApproxDistinctAccumulator| #[trigger]
            accumulator.is_for(data_type),
{
    match example_for(data_type) {
        Some(accumulator) => {
            assert(accumulator.is_for(data_type));
        },
        None => {},
    }
}

/// Timestamps are supported in every unit and every time zone, and the time zone does not change
/// which accumulator reads them.
pub proof fn law_time_zones_do_not_matter(
    unit: TimeUnit,
    zone: Option<String>,
    other: Option<String>,
    accumulator: ApproxDistinctAccumulator,
)
    ensures
        DataType::Timestamp(unit, zone).is_supported(),
        accumulator.is_for(DataType::Timestamp(unit, zone)) == accumulator.is_for(
            DataType::Timestamp(unit, other),
        ),
{
}

/// The small integers are the types whose accumulators keep the values themselves.
pub proof fn law_small_integers_are_counted_by_value(data_type: DataType)
    ensures
        data_type.is_small_int() <==> exists|accumulator: ApproxDistinctAccumulator| #[trigger]
            accumulator.is_for(data_type) && !(accumulator.content() is Sketch) && !(
            accumulator.content() is Constant),
        data_type.is_small_int() ==> data_type.is_supported(),
{
    match example_for(data_type) {
        Some(accumulator) => {
            assert(accumulator.is_for(data_type));
        },
        None => {},
    }
}

/// A new accumulator for a type reads columns of that type, has seen nothing, and counts zero.
pub proof fn law_a_new_accumulator_has_seen_nothing(
    accumulator: ApproxDistinctAccumulator,
    data_type: DataType,
)
    requires
        accumulator.is_new_for(data_type),
    ensures
        accumulator.is_for(data_type),
        accumulator.content().count() == Some(0u64),
        match accumulator.content() {
            Content::Sketch(registers) => registers.len() == 16384 && forall|i: int|
                0 <= i < 16384 ==> #[trigger] registers[i] == 0,
            Content::UInt8(seen) => forall|value: u8| !#[trigger] seen.contains(value),
            Content::Int8(seen) => forall|value: i8| !#[trigger] seen.contains(value),
            Content::UInt16(seen) => forall|value: u16| !#[trigger] seen.contains(value),
            Content::Int16(seen) => forall|value: i16| !#[trigger] seen.contains(value),
            Content::Constant(value) => data_type is Null,
        },
{
    estimate_laws::law_nothing_seen_counts_zero();
    assert(registers::no_registers().len() == 16384);
}

/// An update succeeds if and only if it has nothing to read or its column has the type of the
/// accumulator. An update that fails changes nothing.
pub proof fn law_an_update_succeeds_on_the_right_type(
    accumulator: ApproxDistinctAccumulator,
    after: Content,
    values: Seq<ArrayRef>,
    r: Result<(), ApproxDistinctError>,
)
    requires
        accumulator.takes(after, values, r),
    ensures
        r is Ok <==> values.len() == 0 || accumulator.content() is Constant || accumulator.is_for(
            arrays::array_type(values[0]),
        ),
        r is Err ==> r->Err_0 is Outside && after == accumulator.content(),
        values.len() == 0 || accumulator.content() is Constant ==> after == accumulator.content(),
{
}

/// An update of a sketch succeeds if and only if the rows of the column can be read.
pub proof fn law_an_update_succeeds_on_readable_rows<A>(
    r: Result<(), ApproxDistinctError>,
    rows: Option<A>,
)
    requires
        accumulators::update_result(r, rows),
    ensures
        r is Ok <==> rows is Some,
        r is Err ==> r->Err_0 is Outside,
{
}

/// The state of a sketch is a byte string of 16384 bytes, and these are the registers.
pub proof fn law_a_state_holds_the_registers(value: ScalarValue, registers: Seq<u8>)
    requires
        registers.len() == 16384,
        value.is_state(registers),
    ensures
        value is FixedSizeBinary,
        value->FixedSizeBinary_0 == 16384,
        value->FixedSizeBinary_1 is Some,
        value->FixedSizeBinary_1->Some_0@.len() == 16384,
        forall|i: int|
            0 <= i < 16384 ==> #[trigger] value->FixedSizeBinary_1->Some_0@[i] == registers[i],
{
}

/// A value is a well-formed state if and only if it is a byte string of 16384 bytes, of a type
/// of that width. Nothing else is the state of a sketch.
pub proof fn law_what_is_a_state(value: ScalarValue)
    ensures
        value.state_fault() is None <==> {
            &&& value matches ScalarValue::FixedSizeBinary(width, Some(bytes))
            &&& width == 16384
            &&& bytes@.len() == 16384
        },
        value.state_fault() is None <==> exists|registers: Seq<u8>|
            registers.len() == 16384 && #[trigger] value.is_state(registers),
{
    if value.state_fault() is None {
        assert(value.is_state(value->FixedSizeBinary_1->Some_0@));
    }
}

/// The schema of the state: one field, named after the aggregate and the state. A column of nulls
/// has a null as its state, a column of small integers a list of its values, any other column the
/// registers of its sketch. Only the null may be null.
pub proof fn law_the_schema_of_the_state(
    fields: Seq<Field>,
    name: Seq<char>,
    data_type: DataType,
)
    requires
        approx_distinct::is_state_schema(fields, name, data_type),
    ensures
        fields.len() == 1,
        fields[0].nullable <==> data_type is Null,
        data_type is Null <==> fields[0].data_type is Null,
        fields[0].data_type is List <==> data_type is UInt8 || data_type is Int8 || data_type
            is UInt16 || data_type is Int16,
        fields[0].data_type matches DataType::List(item) ==> item.data_type == data_type
            && item.nullable && item.name@ == "item"@,
        !(fields[0].data_type is Null) && !(fields[0].data_type is List) ==> fields[0].data_type
            == DataType::FixedSizeBinary(16384),
        fields[0].name@ == name + "["@ + (if fields[0].data_type is FixedSizeBinary {
            "hll_registers"@
        } else {
            "approx_distinct"@
        }) + "]"@,
{
    reveal_strlit("[");
    reveal_strlit("]");
    assert("["@ =~= seq!['[']);
    assert("]"@ =~= seq![']']);
}

/// The number that a sequence of decimal digits stands for.
pub open spec fn number_of(digits: Seq<char>) -> int
    decreases digits.len(),
{
    if digits.len() == 0 {
        0
    } else {
        10 * number_of(digits.drop_last()) + (digits.last() as int - '0' as int)
    }
}

/// The numeral of a number stands for it. It is made of digits and has no leading zero.
pub proof fn law_a_numeral_stands_for_its_number(n: nat)
    ensures
        text::decimal(n).len() > 0,
        number_of(text::decimal(n)) == n,
        forall|i: int|
            0 <= i < text::decimal(n).len() ==> '0' <= #[trigger] text::decimal(n)[i] <= '9',
        text::decimal(n)[0] == '0' ==> n == 0 && text::decimal(n).len() == 1,
        text::signed_decimal(n as int) == text::decimal(n),
        n > 0 ==> text::signed_decimal(-n) == seq!['-'] + text::decimal(n),
    decreases n,
{
    let digits = text::decimal(n);
    if n < 10 {
        assert(digits.drop_last() =~= Seq::empty());
        assert(number_of(Seq::<char>::empty()) == 0);
    } else {
        law_a_numeral_stands_for_its_number(n / 10);
        assert(digits.drop_last() =~= text::decimal(n / 10));
    }
}

/// A value is listed if and only if it stands in one of the lists.
pub proof fn law_listed_values_are_those_in_lists<A>(lists: Seq<Option<Seq<A>>>, value: A)
    ensures
        small_int::listed(lists).contains(value) <==> exists|k: int|
            0 <= k < lists.len() && lists[k] is Some && #[trigger] lists[k]->Some_0.contains(value),
    decreases lists.len(),
{
    let inner = crate::optional::present(lists);
    inner.lemma_flatten_and_flatten_alt_are_equivalent();
    if lists.len() > 0 {
        let front = lists.drop_last();
        let n = lists.len() - 1;
        let before = crate::optional::present(front);
        law_listed_values_are_those_in_lists(front, value);
        before.lemma_flatten_and_flatten_alt_are_equivalent();
        let x = small_int::listed(front);
        let y = small_int::listed(lists);
        match lists.last() {
            Some(list) => {
                assert(inner.drop_last() =~= before);
                assert(y =~= x + list);
                if list.contains(value) {
                    let j = choose|j: int| 0 <= j < list.len() && list[j] == value;
                    assert(y[x.len() + j] == value);
                    assert(lists[n]->Some_0.contains(value));
                }
                if x.contains(value) {
                    let j = choose|j: int| 0 <= j < x.len() && x[j] == value;
                    assert(y[j] == value);
                }
                if y.contains(value) {
                    let j = choose|j: int| 0 <= j < y.len() && y[j] == value;
                    if j < x.len() {
                        assert(x[j] == value);
                    } else {
                        assert(list[j - x.len()] == value);
                    }
                }
            },
            None => {},
        }
        if exists|k: int|
            0 <= k < front.len() && front[k] is Some && #[trigger] front[k]->Some_0.contains(
                value,
            ) {
            let k = choose|k: int|
                0 <= k < front.len() && front[k] is Some && #[trigger] front[k]->Some_0.contains(
                    value,
                );
            assert(lists[k]->Some_0.contains(value));
        }
        if exists|k: int|
            0 <= k < n && lists[k] is Some && #[trigger] lists[k]->Some_0.contains(value) {
            let k = choose|k: int|
                0 <= k < n && lists[k] is Some && #[trigger] lists[k]->Some_0.contains(value);
            assert(front[k]->Some_0.contains(value));
        }
    }
}

/// What is said of a value that is no state: that it is no byte string, or else the width of its
/// type where that is wrong or there are no bytes, or else its length.
pub proof fn law_messages_on_values(value: ScalarValue, width: i32, bytes: Vec<u8>)
    ensures
        !(value is FixedSizeBinary) ==> value.state_fault() == Some(
            "approx_distinct HLL state must be FixedSizeBinary(16384)"@,
        ),
        ScalarValue::FixedSizeBinary(width, None).state_fault() == Some(
            "approx_distinct HLL state has width "@ + text::signed_decimal(width as int)
                + ", expected 16384"@,
        ),
        width != 16384 ==> ScalarValue::FixedSizeBinary(width, Some(bytes)).state_fault() == Some(
            "approx_distinct HLL state has width "@ + text::signed_decimal(width as int)
                + ", expected 16384"@,
        ),
        bytes@.len() != 16384 ==> ScalarValue::FixedSizeBinary(16384, Some(bytes)).state_fault()
            == Some(
            "approx_distinct HLL state has length "@ + text::decimal(bytes@.len())
                + ", expected 16384"@,
        ),
        scalar::length_fault(bytes@.len()) == (if bytes@.len() == 16384 {
            None
        } else {
            Some(
                "approx_distinct HLL state has length "@ + text::decimal(bytes@.len())
                    + ", expected 16384"@,
            )
        }),
{
}

/// What is said of a list of arrays that cannot be merged: their number where it is not one, or
/// else the type of the array where it holds no byte strings, or else their width, or else that a
/// state is null.
pub proof fn law_messages_on_merges(states: Seq<ArrayRef>)
    ensures
        states.len() != 1 ==> accumulators::merge_fault(states) == Some(
            "approx_distinct expects one HLL state array, got "@ + text::decimal(states.len()),
        ),
        states.len() == 1 && !(arrays::array_type(states[0]) is FixedSizeBinary)
            ==> accumulators::merge_fault(states) == Some(
            "approx_distinct HLL state must be FixedSizeBinary(16384), got "@ + arrays::type_text(
                states[0],
            ),
        ),
        states.len() == 1 && arrays::array_type(states[0]) is FixedSizeBinary && arrays::array_type(
            states[0],
        )->FixedSizeBinary_0 != 16384 ==> accumulators::merge_fault(states) == Some(
            "approx_distinct HLL state has width "@ + text::signed_decimal(
                arrays::array_type(states[0])->FixedSizeBinary_0 as int,
            ) + ", expected 16384"@,
        ),
        states.len() == 1 && arrays::array_type(states[0]) == DataType::FixedSizeBinary(16384)
            && accumulators::merge_fault(states) is Some ==> accumulators::merge_fault(states)
            == Some("approx_distinct HLL state must not be null"@),
        accumulators::state_rows(states) == arrays::fixed_size_rows(
            arrays::fixed_size_binary(states[0]),
        ),
{
}

/// The text of a type that has parts is made of the texts of its parts.
pub proof fn law_types_are_spelled_by_their_parts(
    unit: TimeUnit,
    zone: String,
    width: i32,
    item: Field,
    other: String,
)
    ensures
        DataType::Time32(unit).spelling() == "Time32("@ + unit.abbreviation() + ")"@,
        DataType::Time64(unit).spelling() == "Time64("@ + unit.abbreviation() + ")"@,
        DataType::Timestamp(unit, None).spelling() == "Timestamp("@ + unit.abbreviation() + ")"@,
        DataType::Timestamp(unit, Some(zone)).spelling() == "Timestamp("@ + unit.abbreviation()
            + ", "@ + schema::quoted(zone@) + ")"@,
        DataType::FixedSizeBinary(width).spelling() == "FixedSizeBinary("@ + text::signed_decimal(
            width as int,
        ) + ")"@,
        DataType::List(Box::new(item)).spelling() == "List("@ + (if item.nullable {
            ""@
        } else {
            "non-null "@
        }) + item.data_type.spelling() + (if item.name@ == "item"@ {
            ""@
        } else {
            ", field: '"@ + item.name@ + "'"@
        }) + ")"@,
        DataType::Other(other).spelling() == other@,
{
    let list = DataType::List(Box::new(item)).spelling();
    assert(list == "List("@ + item.item_spelling() + ")"@);
    assert(list =~= "List("@ + (if item.nullable {
        ""@
    } else {
        "non-null "@
    }) + item.data_type.spelling() + (if item.name@ == "item"@ {
        ""@
    } else {
        ", field: '"@ + item.name@ + "'"@
    }) + ")"@);
}

/// The text of what an inner accumulator evaluates to.
pub proof fn law_inner_values_are_spelled(value: i64, other: String)
    ensures
        small_int::inner_text(small_int::InnerCount::Int64(Some(value))) == text::signed_decimal(
            value as int,
        ),
        small_int::inner_text(small_int::InnerCount::Int64(None)) == "NULL"@,
        small_int::inner_text(small_int::InnerCount::Other(other)) == other@,
{
}

} // verus!
