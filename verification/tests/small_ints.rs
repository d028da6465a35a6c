use approx_distinct::small_int::{counted, distinct_count, DistinctCounter, InnerCount};
use approx_distinct::{
    ApproxDistinctBitmapWrapper, ApproxDistinctError, ArrayRef, ScalarValue,
};
use arrow::array::{
    Array, AsArray, Int16Array, Int32Array, Int8Array, ListArray, UInt16Array, UInt8Array,
};
use arrow::datatypes::{Int16Type, Int8Type, UInt16Type, UInt8Type};
use datafusion_functions_aggregate_common::aggregate::count_distinct::{
    Bitmap65536DistinctCountAccumulator, Bitmap65536DistinctCountAccumulatorI16,
    BoolArray256DistinctCountAccumulator, BoolArray256DistinctCountAccumulatorI8,
};
use std::sync::Arc;

fn array(array: impl Array + 'static) -> ArrayRef {
    ArrayRef { array: Arc::new(array) }
}

fn number<A: DistinctCounter>(acc: &mut ApproxDistinctBitmapWrapper<A>) -> u64 {
    match acc.evaluate().unwrap() {
        ScalarValue::UInt64(Some(v)) => v,
        other => panic!("unexpected evaluate result: {other:?}"),
    }
}

fn list(mut state: Vec<ScalarValue>) -> ArrayRef {
    assert_eq!(state.len(), 1);
    match state.remove(0) {
        ScalarValue::List(list) => list,
        other => panic!("unexpected state: {other:?}"),
    }
}

fn items(list: &ArrayRef) -> Arc<dyn Array> {
    let list = list.array.as_list::<i32>();
    assert_eq!(list.len(), 1);
    list.value(0)
}

/// Feeds a counter with a column of three distinct values, and merges its state into another.
fn exercise<A: DistinctCounter>(fresh: fn() -> A, column: ArrayRef) -> ArrayRef {
    let mut acc = ApproxDistinctBitmapWrapper { inner: fresh() };
    acc.update_batch(&[]).unwrap();
    assert_eq!(number(&mut acc), 0);
    acc.update_batch(&[column]).unwrap();
    assert_eq!(number(&mut acc), 3);
    let error = acc.update_batch(&[array(Int32Array::from(vec![1]))]).unwrap_err();
    assert!(matches!(error, ApproxDistinctError::Outside(_)));
    assert_eq!(number(&mut acc), 3);

    let mut merged = ApproxDistinctBitmapWrapper { inner: fresh() };
    merged.merge_batch(&[]).unwrap();
    assert_eq!(number(&mut merged), 0);
    merged.merge_batch(&[list(acc.state().unwrap())]).unwrap();
    merged.merge_batch(&[list(acc.state().unwrap())]).unwrap();
    assert_eq!(number(&mut merged), 3);
    let error = merged.merge_batch(&[array(Int32Array::from(vec![1]))]).unwrap_err();
    assert!(matches!(error, ApproxDistinctError::Outside(_)));
    assert_eq!(number(&mut merged), 3);
    list(merged.state().unwrap())
}

#[test]
fn bytes_are_counted_exactly() {
    let column = UInt8Array::from(vec![Some(255), None, Some(0), Some(7), Some(7)]);
    let state = exercise(BoolArray256DistinctCountAccumulator::new, array(column));
    let values = items(&state).as_primitive::<UInt8Type>().values().to_vec();
    assert_eq!(values, [0, 7, 255]);

    let column = Int8Array::from(vec![Some(-128), None, Some(127), Some(-1), Some(-1)]);
    let state = exercise(BoolArray256DistinctCountAccumulatorI8::new, array(column));
    let values = items(&state).as_primitive::<Int8Type>().values().to_vec();
    // In the order of the values read as unsigned.
    assert_eq!(values, [127, -128, -1]);
}

#[test]
fn integers_of_16_bits_are_counted_exactly() {
    let column = UInt16Array::from(vec![Some(65535), None, Some(0), Some(700), Some(700)]);
    let state = exercise(Bitmap65536DistinctCountAccumulator::new, array(column));
    let values = items(&state).as_primitive::<UInt16Type>().values().to_vec();
    assert_eq!(values, [0, 700, 65535]);

    let column = Int16Array::from(vec![Some(-32768), None, Some(32767), Some(-1), Some(-1)]);
    let state = exercise(Bitmap65536DistinctCountAccumulatorI16::new, array(column));
    let values = items(&state).as_primitive::<Int16Type>().values().to_vec();
    assert_eq!(values, [32767, -32768, -1]);
}

#[test]
fn merged_counters_have_seen_the_union() {
    let counter = |values: Vec<u16>| {
        let mut acc =
            ApproxDistinctBitmapWrapper { inner: Bitmap65536DistinctCountAccumulator::new() };
        acc.update_batch(&[array(UInt16Array::from(values))]).unwrap();
        acc
    };
    let mut a = counter((0..3000).collect());
    let mut b = counter((2000..6000).collect());
    a.merge_batch(&[list(b.state().unwrap())]).unwrap();
    assert_eq!(number(&mut a), 6000);
    assert_eq!(number(&mut b), 4000);
}

#[test]
fn null_lists_are_skipped() {
    let lists = ListArray::from_iter_primitive::<UInt8Type, _, _>(vec![
        None,
        Some(vec![Some(1), Some(2)]),
        Some(vec![Some(2), Some(3)]),
    ]);
    let mut acc =
        ApproxDistinctBitmapWrapper { inner: BoolArray256DistinctCountAccumulator::new() };
    acc.merge_batch(&[array(lists)]).unwrap();
    assert_eq!(number(&mut acc), 3);

    let wrong_items =
        ListArray::from_iter_primitive::<Int16Type, _, _>(vec![None, Some(vec![Some(9)])]);
    let error = acc.merge_batch(&[array(wrong_items)]).unwrap_err();
    assert!(matches!(error, ApproxDistinctError::Outside(_)));
    let no_list = ListArray::from_iter_primitive::<Int16Type, _, _>(vec![
        None::<Vec<Option<i16>>>,
        None,
    ]);
    acc.merge_batch(&[array(no_list)]).unwrap();
    assert_eq!(number(&mut acc), 3);
}

#[test]
fn an_inner_count_is_read_as_unsigned() {
    let count = |v: i64| match distinct_count(InnerCount::Int64(Some(v))).unwrap() {
        ScalarValue::UInt64(Some(v)) => v,
        other => panic!("unexpected count: {other:?}"),
    };
    assert_eq!(count(0), 0);
    assert_eq!(count(65536), 65536);
    assert_eq!(count(-1), u64::MAX);
    assert_eq!(count(i64::MIN), 1 << 63);
}

#[test]
fn other_inner_values_are_reported() {
    let message = |value| match distinct_count(value).unwrap_err() {
        ApproxDistinctError::Internal(text) => text,
        other => panic!("unexpected error: {other:?}"),
    };
    assert_eq!(message(InnerCount::Int64(None)), "unexpected: NULL");
    assert_eq!(message(InnerCount::Other("1.5".to_string())), "unexpected: 1.5");
}

#[test]
fn an_inner_error_is_handed_on() {
    let inner = datafusion_common::DataFusionError::Internal("broken".to_string());
    match counted(Err(inner)).unwrap_err() {
        ApproxDistinctError::Outside(error) => assert!(error.to_string().contains("broken")),
        other => panic!("unexpected error: {other:?}"),
    }
    assert!(matches!(
        counted(Ok(InnerCount::Int64(Some(7)))),
        Ok(ScalarValue::UInt64(Some(7)))
    ));
    assert!(matches!(
        counted(Ok(InnerCount::Int64(None))),
        Err(ApproxDistinctError::Internal(_))
    ));
}

#[test]
fn sizes_cover_the_values() {
    let small = ApproxDistinctBitmapWrapper { inner: BoolArray256DistinctCountAccumulator::new() };
    assert_eq!(small.size(), 256 + 256);
    let small =
        ApproxDistinctBitmapWrapper { inner: BoolArray256DistinctCountAccumulatorI8::new() };
    assert_eq!(small.size(), 256 + 256);
    let pointer = std::mem::size_of::<usize>();
    let large = ApproxDistinctBitmapWrapper { inner: Bitmap65536DistinctCountAccumulator::new() };
    assert_eq!(large.size(), pointer + 8192);
    let large =
        ApproxDistinctBitmapWrapper { inner: Bitmap65536DistinctCountAccumulatorI16::new() };
    assert_eq!(large.size(), pointer + 8192);
}
