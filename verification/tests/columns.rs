use approx_distinct::arrays::{NumericType, OffsetSize};
use approx_distinct::{
    ApproxDistinctError, ArrayRef, BinaryHLLAccumulator, HyperLogLog, NumericHLLAccumulator,
    ScalarValue, StringHLLAccumulator, StringViewHLLAccumulator,
};
use arrow::array::{
    Array, BinaryArray, Date32Array, Date64Array, Int32Array, Int64Array, LargeBinaryArray,
    LargeStringArray, StringArray, StringViewArray, Time32MillisecondArray, Time32SecondArray,
    Time64MicrosecondArray, Time64NanosecondArray, TimestampMicrosecondArray,
    TimestampMillisecondArray, TimestampNanosecondArray, TimestampSecondArray, UInt32Array,
    UInt64Array,
};
use arrow::datatypes::{
    Date32Type, Date64Type, Int32Type, Int64Type, Time32MillisecondType, Time32SecondType,
    Time64MicrosecondType, Time64NanosecondType, TimestampMicrosecondType,
    TimestampMillisecondType, TimestampNanosecondType, TimestampSecondType, UInt32Type, UInt64Type,
};
use std::sync::Arc;

const LONG: &str = "a string that does not fit a view";

fn array(array: impl Array + 'static) -> ArrayRef {
    ArrayRef { array: Arc::new(array) }
}

fn number(value: ScalarValue) -> u64 {
    match value {
        ScalarValue::UInt64(Some(v)) => v,
        other => panic!("unexpected evaluate result: {other:?}"),
    }
}

fn bytes(mut state: Vec<ScalarValue>) -> Vec<u8> {
    assert_eq!(state.len(), 1);
    match state.remove(0) {
        ScalarValue::FixedSizeBinary(16384, Some(bytes)) => bytes,
        other => panic!("unexpected state: {other:?}"),
    }
}

/// Registers and estimate after the rows of a column, and after a column of another type.
fn numeric<T: NumericType>(column: impl Array + 'static) -> (Vec<u8>, u64) {
    let mut acc = NumericHLLAccumulator::<T>::new();
    assert_eq!(number(acc.evaluate().unwrap()), 0);
    acc.update_batch(&[array(column)]).unwrap();
    let before = bytes(acc.state().unwrap());
    let wrong = array(StringArray::from(vec!["x"]));
    let error = acc.update_batch(&[wrong]).unwrap_err();
    assert!(matches!(error, ApproxDistinctError::Outside(_)));
    assert_eq!(bytes(acc.state().unwrap()), before);
    assert_eq!(acc.size(), std::mem::size_of::<NumericHLLAccumulator<T>>());
    (before, number(acc.evaluate().unwrap()))
}

fn i32_sketch() -> (Vec<u8>, u64) {
    let mut hll = HyperLogLog::<i32>::new();
    hll.extend(&vec![Some(5), None, Some(-5), Some(5), Some(80)]);
    (hll.as_ref().to_vec(), 3)
}

fn i32_rows() -> Vec<Option<i32>> {
    vec![Some(5), None, Some(-5), Some(5), Some(80)]
}

fn i64_sketch() -> (Vec<u8>, u64) {
    let mut hll = HyperLogLog::<i64>::new();
    hll.extend(&i64_rows());
    (hll.as_ref().to_vec(), 3)
}

fn i64_rows() -> Vec<Option<i64>> {
    vec![None, Some(1 << 40), Some(-7), None, Some(-7), Some(0)]
}

#[test]
fn columns_of_32_bits_are_read() {
    assert_eq!(numeric::<Int32Type>(Int32Array::from(i32_rows())), i32_sketch());
    assert_eq!(numeric::<Date32Type>(Date32Array::from(i32_rows())), i32_sketch());
    assert_eq!(numeric::<Time32SecondType>(Time32SecondArray::from(i32_rows())), i32_sketch());
    assert_eq!(
        numeric::<Time32MillisecondType>(Time32MillisecondArray::from(i32_rows())),
        i32_sketch()
    );

    let mut hll = HyperLogLog::<u32>::new();
    hll.add(&9);
    hll.add(&u32::MAX);
    assert_eq!(
        numeric::<UInt32Type>(UInt32Array::from(vec![Some(u32::MAX), Some(9), None])),
        (hll.as_ref().to_vec(), 2)
    );
}

#[test]
fn columns_of_64_bits_are_read() {
    assert_eq!(numeric::<Int64Type>(Int64Array::from(i64_rows())), i64_sketch());
    assert_eq!(numeric::<Date64Type>(Date64Array::from(i64_rows())), i64_sketch());
    assert_eq!(
        numeric::<Time64MicrosecondType>(Time64MicrosecondArray::from(i64_rows())),
        i64_sketch()
    );
    assert_eq!(
        numeric::<Time64NanosecondType>(Time64NanosecondArray::from(i64_rows())),
        i64_sketch()
    );

    let mut hll = HyperLogLog::<u64>::new();
    hll.add(&9);
    hll.add(&u64::MAX);
    assert_eq!(
        numeric::<UInt64Type>(UInt64Array::from(vec![Some(u64::MAX), Some(9), None])),
        (hll.as_ref().to_vec(), 2)
    );
}

#[test]
fn timestamps_are_read_in_any_zone() {
    assert_eq!(
        numeric::<TimestampSecondType>(TimestampSecondArray::from(i64_rows())),
        i64_sketch()
    );
    assert_eq!(
        numeric::<TimestampMillisecondType>(TimestampMillisecondArray::from(i64_rows())),
        i64_sketch()
    );
    assert_eq!(
        numeric::<TimestampMicrosecondType>(
            TimestampMicrosecondArray::from(i64_rows()).with_timezone("+02:00")
        ),
        i64_sketch()
    );
    assert_eq!(
        numeric::<TimestampNanosecondType>(
            TimestampNanosecondArray::from(i64_rows()).with_timezone("UTC")
        ),
        i64_sketch()
    );
}

fn text_registers<T: OffsetSize>(columns: Vec<ArrayRef>, wrong: ArrayRef) -> Vec<u8> {
    let mut acc = StringHLLAccumulator::<T>::new();
    for column in columns {
        acc.update_batch(&[column]).unwrap();
    }
    let error = acc.update_batch(&[wrong]).unwrap_err();
    assert!(matches!(error, ApproxDistinctError::Outside(_)));
    assert_eq!(acc.size(), std::mem::size_of::<StringHLLAccumulator<T>>());
    bytes(acc.state().unwrap())
}

#[test]
fn columns_of_strings_are_read() {
    let mut hll = HyperLogLog::<str>::new();
    hll.add("b");
    hll.add(LONG);
    hll.add("");
    let expected = hll.as_ref().to_vec();
    assert_eq!(hll.count(), 3);

    let small = || {
        let parts = [vec![Some("b"), None], vec![Some(LONG), Some("b"), Some("")]];
        parts.map(|part| array(StringArray::from(part))).into_iter().collect::<Vec<_>>()
    };
    let large = || {
        let rows = vec![Some(""), Some("b"), Some(LONG), None];
        vec![array(LargeStringArray::from(rows))]
    };
    assert_eq!(text_registers::<i32>(small(), large().remove(0)), expected);
    assert_eq!(text_registers::<i64>(large(), small().remove(0)), expected);
}

fn byte_registers<T: OffsetSize>(column: ArrayRef, wrong: ArrayRef) -> Vec<u8> {
    let mut acc = BinaryHLLAccumulator::<T>::new();
    acc.update_batch(&[column]).unwrap();
    let error = acc.update_batch(&[wrong]).unwrap_err();
    assert!(matches!(error, ApproxDistinctError::Outside(_)));
    assert_eq!(number(acc.evaluate().unwrap()), 2);
    assert_eq!(acc.size(), std::mem::size_of::<BinaryHLLAccumulator<T>>());
    bytes(acc.state().unwrap())
}

#[test]
fn columns_of_byte_strings_are_read() {
    let mut hll = HyperLogLog::<[u8]>::new();
    hll.add(&[0xff, 0]);
    hll.add(&[]);
    let expected = hll.as_ref().to_vec();
    let rows: Vec<Option<&[u8]>> = vec![Some(&[0xff, 0]), None, Some(&[]), Some(&[0xff, 0])];
    let small = || array(BinaryArray::from(rows.clone()));
    let large = || array(LargeBinaryArray::from(rows.clone()));
    assert_eq!(byte_registers::<i32>(small(), large()), expected);
    assert_eq!(byte_registers::<i64>(large(), small()), expected);
}

fn view_registers(columns: Vec<StringViewArray>) -> Vec<u8> {
    let mut acc = StringViewHLLAccumulator::new();
    for column in columns {
        acc.update_batch(&[array(column)]).unwrap();
    }
    bytes(acc.state().unwrap())
}

/// The view of a short string: its length, then its bytes.
fn inline_view(text: &str) -> u128 {
    let mut view = [0u8; 16];
    view[..4].copy_from_slice(&(text.len() as u32).to_le_bytes());
    view[4..4 + text.len()].copy_from_slice(text.as_bytes());
    u128::from_le_bytes(view)
}

#[test]
fn short_strings_in_views_go_by_their_view() {
    // The longest string that a view holds, and one byte more.
    let short = "twelve bytes";
    let long = "thirteen byte";
    assert_eq!((short.len(), long.len()), (12, 13));
    let column = StringViewArray::from(vec![Some(short), None, Some(""), Some("h\u{e9}")]);
    assert_eq!(column.views()[0], inline_view(short));
    assert_eq!(column.views()[3], inline_view("h\u{e9}"));

    let inline = view_registers(vec![column.clone()]);
    let mixed = view_registers(vec![StringViewArray::from(vec![
        Some(long),
        Some("h\u{e9}"),
        Some(short),
        None,
        Some(""),
        Some(long),
    ])]);
    let split = view_registers(vec![column, StringViewArray::from(vec![long, short])]);
    assert_eq!(mixed, split);
    assert_ne!(mixed, inline);

    // The long string goes by its characters.
    let mut hll = HyperLogLog::<str>::try_from(&inline[..]).unwrap();
    hll.add(long);
    assert_eq!(hll.as_ref(), &mixed[..]);
    assert_eq!(hll.count(), 4);
}

#[test]
fn view_columns_skip_nulls_and_refuse_other_types() {
    let empty = vec![0u8; 16384];
    assert_eq!(view_registers(vec![StringViewArray::from(vec![None::<&str>, None])]), empty);
    let mut acc = StringViewHLLAccumulator::new();
    let error = acc.update_batch(&[array(StringArray::from(vec![LONG]))]).unwrap_err();
    assert!(matches!(error, ApproxDistinctError::Outside(_)));
    assert_eq!(bytes(acc.state().unwrap()), empty);
    assert_eq!(acc.size(), std::mem::size_of::<StringViewHLLAccumulator>());
}

#[test]
fn the_text_of_a_refused_column_is_that_of_the_cast() {
    let mut acc = NumericHLLAccumulator::<Int64Type>::new();
    match acc.update_batch(&[array(Int32Array::from(vec![1]))]).unwrap_err() {
        ApproxDistinctError::Outside(error) => {
            assert!(error.to_string().contains("could not cast array of type Int32"))
        }
        other => panic!("unexpected error: {other:?}"),
    }
}

#[test]
fn updates_depend_on_the_set_of_values() {
    let once = numeric::<Int64Type>(Int64Array::from(vec![Some(3), Some(1), Some(2)]));
    let shuffled =
        numeric::<Int64Type>(Int64Array::from(vec![Some(1), None, Some(2), Some(3), Some(1)]));
    assert_eq!(once, shuffled);

    let mut acc = NumericHLLAccumulator::<Int64Type>::new();
    let column = || array(Int64Array::from((0..5000).collect::<Vec<i64>>()));
    acc.update_batch(&[column()]).unwrap();
    let before = bytes(acc.state().unwrap());
    acc.update_batch(&[column()]).unwrap();
    assert_eq!(bytes(acc.state().unwrap()), before);
}

#[test]
fn estimates_grow_with_the_input() {
    let mut acc = NumericHLLAccumulator::<Int64Type>::new();
    let mut last = number(acc.evaluate().unwrap());
    assert_eq!(last, 0);
    for batch in 0..20i64 {
        let rows: Vec<i64> = (batch * 100..(batch + 2) * 100).collect();
        acc.update_batch(&[array(Int64Array::from(rows))]).unwrap();
        let next = number(acc.evaluate().unwrap());
        assert!(next >= last && next >= 1);
        last = next;
    }
    assert!((2000..2200).contains(&last));
}
