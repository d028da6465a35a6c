use approx_distinct::{
    ApproxDistinct, ApproxDistinctError, ArrayRef, DataType, Field, HyperLogLog,
    NumericHLLAccumulator, ScalarValue, StateFieldsArgs, StringViewHLLAccumulator,
    APPROX_DISTINCT_HLL_STATE_SIZE,
};
use arrow::array::{Array, AsArray, FixedSizeBinaryArray, Int64Array, StringViewArray};
use arrow::datatypes::Int64Type;
use std::sync::Arc;

// A string longer than the 12-byte inline limit
const LONG: &str = "this string is definitely longer than twelve bytes";

fn array(array: impl Array + 'static) -> ArrayRef {
    ArrayRef { array: Arc::new(array) }
}

fn number(value: ScalarValue) -> u64 {
    match value {
        ScalarValue::UInt64(Some(v)) => v,
        other => panic!("unexpected evaluate result: {other:?}"),
    }
}

fn distinct_count(acc: &mut StringViewHLLAccumulator) -> u64 {
    number(acc.evaluate().unwrap())
}

fn message(error: ApproxDistinctError) -> String {
    match error {
        ApproxDistinctError::Internal(text) => text,
        other => panic!("unexpected error: {other:?}"),
    }
}

fn outside(value: ScalarValue) -> datafusion_common::ScalarValue {
    match value {
        ScalarValue::FixedSizeBinary(width, bytes) => {
            datafusion_common::ScalarValue::FixedSizeBinary(width, bytes)
        }
        other => panic!("unexpected state: {other:?}"),
    }
}

fn state_array(states: Vec<ScalarValue>) -> ArrayRef {
    let array =
        datafusion_common::ScalarValue::iter_to_array(states.into_iter().map(outside)).unwrap();
    ArrayRef { array }
}

fn state_fields(input_type: DataType) -> Vec<Field> {
    let input_fields =
        vec![Field { name: "input".to_string(), data_type: input_type, nullable: true }];
    ApproxDistinct::new()
        .state_fields(StateFieldsArgs {
            name: "approx_distinct",
            input_fields: &input_fields,
        })
        .unwrap()
}

#[test]
fn hll_state_schema_is_fixed_size_binary() {
    let fields = state_fields(DataType::Int64);
    assert_eq!(
        fields[0].data_type,
        DataType::FixedSizeBinary(APPROX_DISTINCT_HLL_STATE_SIZE)
    );
    assert!(!fields[0].nullable);

    let fields = state_fields(DataType::Int16);
    assert!(matches!(fields[0].data_type, DataType::List(_)));
}

#[test]
fn hll_state_round_trip() {
    let values = array(Int64Array::from(vec![1, 2, 2, 3]));
    let mut source = NumericHLLAccumulator::<Int64Type>::new();
    source.update_batch(&[values]).unwrap();
    let expected = number(source.evaluate().unwrap());
    let state = source.state().unwrap();
    assert!(matches!(
        &state[0],
        ScalarValue::FixedSizeBinary(APPROX_DISTINCT_HLL_STATE_SIZE, Some(value))
            if value.len() == APPROX_DISTINCT_HLL_STATE_SIZE as usize
    ));

    let mut merged = NumericHLLAccumulator::<Int64Type>::new();
    merged.merge_batch(&[state_array(state)]).unwrap();
    assert_eq!(number(merged.evaluate().unwrap()), expected);
    assert_eq!(expected, 3);
}

#[test]
fn malformed_hll_state_is_rejected() {
    let malformed = ScalarValue::FixedSizeBinary(
        APPROX_DISTINCT_HLL_STATE_SIZE,
        Some(vec![0; APPROX_DISTINCT_HLL_STATE_SIZE as usize - 1]),
    );
    let error = HyperLogLog::<i64>::try_from(&malformed).unwrap_err();
    let malformed_length = APPROX_DISTINCT_HLL_STATE_SIZE - 1;
    assert!(message(error).contains(&format!(
        "has length {malformed_length}, expected {APPROX_DISTINCT_HLL_STATE_SIZE}"
    )));

    let wrong_width = ScalarValue::FixedSizeBinary(8, Some(vec![0; 8]));
    let error = HyperLogLog::<i64>::try_from(&wrong_width).unwrap_err();
    let wrong_width_message =
        format!("has width 8, expected {APPROX_DISTINCT_HLL_STATE_SIZE}");
    assert!(message(error).contains(&wrong_width_message));

    let wrong_width_array = state_array(vec![wrong_width]);
    let mut acc = NumericHLLAccumulator::<Int64Type>::new();
    let error = acc.merge_batch(&[wrong_width_array]).unwrap_err();
    assert!(message(error).contains(&wrong_width_message));

    let null_state = state_array(vec![ScalarValue::FixedSizeBinary(
        APPROX_DISTINCT_HLL_STATE_SIZE,
        None,
    )]);
    let error = acc.merge_batch(&[null_state]).unwrap_err();
    assert!(message(error).contains("must not be null"));
}

/// Regression: a short (at most 12-byte) Utf8View string must hash identically
/// regardless of which batch it appears in, all-inline or mixed.
#[test]
fn utf8view_acc_split_batches_match_single_mixed_batch() {
    // Multiset: {"aaa" x2, "bbb", LONG}, so 3 distinct values.
    let mixed = array(StringViewArray::from(vec!["aaa", "bbb", LONG, "aaa"]));
    let mut acc_single = StringViewHLLAccumulator::new();
    acc_single.update_batch(&[mixed]).unwrap();

    // Same multiset, but split so "aaa" lands in both an all-inline batch
    // and a batch with a data buffer (forced by LONG).
    let inline_only = array(StringViewArray::from(vec!["aaa", "bbb"]));
    let with_buffer = array(StringViewArray::from(vec!["aaa", LONG]));
    assert!(inline_only.array.as_string_view().data_buffers().is_empty());
    assert!(!with_buffer.array.as_string_view().data_buffers().is_empty());

    let mut acc_split = StringViewHLLAccumulator::new();
    acc_split.update_batch(&[inline_only]).unwrap();
    acc_split.update_batch(&[with_buffer]).unwrap();

    assert_eq!(
        distinct_count(&mut acc_single),
        distinct_count(&mut acc_split)
    );
    assert_eq!(distinct_count(&mut acc_single), 3);
}

#[test]
fn a_state_must_be_a_byte_string() {
    let error = HyperLogLog::<i64>::try_from(&ScalarValue::UInt64(Some(1))).unwrap_err();
    assert_eq!(message(error), "approx_distinct HLL state must be FixedSizeBinary(16384)");
    let error = HyperLogLog::<str>::try_from(&ScalarValue::FixedSizeBinary(-3, None)).unwrap_err();
    assert_eq!(message(error), "approx_distinct HLL state has width -3, expected 16384");
}

#[test]
fn a_state_without_bytes_is_reported_by_its_width() {
    let value = ScalarValue::FixedSizeBinary(APPROX_DISTINCT_HLL_STATE_SIZE, None);
    let error = HyperLogLog::<i64>::try_from(&value).unwrap_err();
    assert_eq!(message(error), "approx_distinct HLL state has width 16384, expected 16384");
}

#[test]
fn a_sketch_survives_its_state() {
    let mut hll = HyperLogLog::<i64>::new();
    hll.add(&7);
    hll.add_hashed(0x8000);
    let value = ScalarValue::from(&hll);
    let copy = HyperLogLog::<i64>::try_from(&value).unwrap();
    assert_eq!(copy.as_ref(), hll.as_ref());
    assert_ne!(copy.as_ref(), HyperLogLog::<i64>::new().as_ref());

    let copy = HyperLogLog::<i64>::try_from(hll.as_ref()).unwrap();
    assert_eq!(copy.as_ref(), hll.as_ref());
    let error = HyperLogLog::<i64>::try_from(&hll.as_ref()[..9]).unwrap_err();
    assert_eq!(message(error), "approx_distinct HLL state has length 9, expected 16384");
}

#[test]
fn merge_takes_one_state_array() {
    let mut acc = StringViewHLLAccumulator::new();
    let error = acc.merge_batch(&[]).unwrap_err();
    assert_eq!(message(error), "approx_distinct expects one HLL state array, got 0");
    let one = || array(Int64Array::from(vec![1]));
    let error = acc.merge_batch(&[one(), one()]).unwrap_err();
    assert_eq!(message(error), "approx_distinct expects one HLL state array, got 2");
    let error = acc.merge_batch(&[one()]).unwrap_err();
    assert_eq!(
        message(error),
        "approx_distinct HLL state must be FixedSizeBinary(16384), got Int64"
    );
    assert_eq!(distinct_count(&mut acc), 0);
}

#[test]
fn states_before_a_null_are_merged() {
    let mut source = StringViewHLLAccumulator::new();
    source.update_batch(&[array(StringViewArray::from(vec!["aaa", LONG]))]).unwrap();
    let bytes = match source.state().unwrap().remove(0) {
        ScalarValue::FixedSizeBinary(_, Some(bytes)) => bytes,
        other => panic!("unexpected state: {other:?}"),
    };
    let rows = vec![Some(bytes.clone()), None, Some(bytes)];
    let states = FixedSizeBinaryArray::try_from_sparse_iter_with_size(
        rows.into_iter(),
        APPROX_DISTINCT_HLL_STATE_SIZE,
    )
    .unwrap();
    let mut acc = StringViewHLLAccumulator::new();
    let error = acc.merge_batch(&[array(states)]).unwrap_err();
    assert_eq!(message(error), "approx_distinct HLL state must not be null");
    assert_eq!(distinct_count(&mut acc), 2);
}

#[test]
fn merged_parts_match_the_whole() {
    let part = |values: Vec<i64>| {
        let mut acc = NumericHLLAccumulator::<Int64Type>::new();
        acc.update_batch(&[array(Int64Array::from(values))]).unwrap();
        acc.state().unwrap().remove(0)
    };
    let mut merged = NumericHLLAccumulator::<Int64Type>::new();
    merged
        .merge_batch(&[state_array(vec![
            part((0..600).collect()),
            part((400..1000).collect()),
        ])])
        .unwrap();
    let mut whole = NumericHLLAccumulator::<Int64Type>::new();
    whole.update_batch(&[array(Int64Array::from((0..1000).collect::<Vec<i64>>()))]).unwrap();
    assert_eq!(
        number(merged.evaluate().unwrap()),
        number(whole.evaluate().unwrap())
    );
    let count = number(whole.evaluate().unwrap());
    assert!((950..1050).contains(&count));
}
