use approx_distinct::approx_distinct::{
    get_small_int_approx_accumulator, get_small_int_state_field,
};
use approx_distinct::{
    AccumulatorArgs, ApproxDistinct, ApproxDistinctAccumulator, ApproxDistinctError, ArrayRef,
    DataType, Field, ScalarValue, StateFieldsArgs, TimeUnit,
};
use arrow::array::{new_empty_array, new_null_array, AsArray, NullArray};
use arrow::datatypes::DataType as Arrow;
use arrow::datatypes::TimeUnit as ArrowUnit;
use approx_distinct::ApproxDistinctAccumulator as Acc;
use datafusion_expr::{Signature, Volatility};
use datafusion_functions_aggregate_common::noop_accumulator::NoopAccumulator;
use std::sync::Arc;

fn field(data_type: DataType) -> Field {
    Field { name: "input".to_string(), data_type, nullable: true }
}

fn accumulator(data_type: DataType) -> Result<ApproxDistinctAccumulator, ApproxDistinctError> {
    ApproxDistinct::new().accumulator(AccumulatorArgs { expr_fields: &[field(data_type)] })
}

fn state_field(name: &str, data_type: DataType) -> Field {
    let fields = ApproxDistinct::new()
        .state_fields(StateFieldsArgs { name, input_fields: &[field(data_type)] })
        .unwrap();
    assert_eq!(fields.len(), 1);
    fields.into_iter().next().unwrap()
}

/// Every type of the library next to the Arrow type that it stands for.
fn types() -> Vec<(DataType, Arrow)> {
    let units = [
        (TimeUnit::Second, ArrowUnit::Second),
        (TimeUnit::Millisecond, ArrowUnit::Millisecond),
        (TimeUnit::Microsecond, ArrowUnit::Microsecond),
        (TimeUnit::Nanosecond, ArrowUnit::Nanosecond),
    ];
    let mut types = vec![
        (DataType::Null, Arrow::Null),
        (DataType::Int8, Arrow::Int8),
        (DataType::Int16, Arrow::Int16),
        (DataType::Int32, Arrow::Int32),
        (DataType::Int64, Arrow::Int64),
        (DataType::UInt8, Arrow::UInt8),
        (DataType::UInt16, Arrow::UInt16),
        (DataType::UInt32, Arrow::UInt32),
        (DataType::UInt64, Arrow::UInt64),
        (DataType::Date32, Arrow::Date32),
        (DataType::Date64, Arrow::Date64),
        (DataType::Utf8, Arrow::Utf8),
        (DataType::LargeUtf8, Arrow::LargeUtf8),
        (DataType::Utf8View, Arrow::Utf8View),
        (DataType::Binary, Arrow::Binary),
        (DataType::LargeBinary, Arrow::LargeBinary),
        (DataType::FixedSizeBinary(16384), Arrow::FixedSizeBinary(16384)),
        (DataType::FixedSizeBinary(0), Arrow::FixedSizeBinary(0)),
        (DataType::FixedSizeBinary(i32::MIN), Arrow::FixedSizeBinary(i32::MIN)),
        (DataType::Other("Float64".to_string()), Arrow::Float64),
    ];
    for (unit, arrow) in units {
        types.push((DataType::Time32(unit), Arrow::Time32(arrow)));
        types.push((DataType::Time64(unit), Arrow::Time64(arrow)));
        types.push((DataType::Timestamp(unit, None), Arrow::Timestamp(arrow, None)));
        for zone in ["+02:00", "a \"zone\"\n"] {
            types.push((
                DataType::Timestamp(unit, Some(zone.to_string())),
                Arrow::Timestamp(arrow, Some(zone.into())),
            ));
        }
    }
    for (name, nullable) in [("item", true), ("item", false), ("x", true), ("x", false)] {
        let item = Field { name: name.to_string(), data_type: DataType::Int8, nullable };
        let arrow_item = arrow::datatypes::Field::new(name, Arrow::Int8, nullable);
        types.push((DataType::List(Box::new(item)), Arrow::List(Arc::new(arrow_item))));
    }
    types
}

#[test]
fn types_are_written_as_arrow_writes_them() {
    for (data_type, arrow) in types() {
        assert_eq!(data_type.text(), arrow.to_string());
        assert_eq!(data_type.clone(), data_type);
    }
}

#[test]
fn each_type_has_its_accumulator() {
    let unit = |i: usize| {
        [TimeUnit::Second, TimeUnit::Millisecond, TimeUnit::Microsecond, TimeUnit::Nanosecond][i]
    };
    let zone = || Some("UTC".to_string());
    assert!(matches!(accumulator(DataType::UInt8), Ok(Acc::UInt8(_))));
    assert!(matches!(accumulator(DataType::Int8), Ok(Acc::Int8(_))));
    assert!(matches!(accumulator(DataType::UInt16), Ok(Acc::UInt16(_))));
    assert!(matches!(accumulator(DataType::Int16), Ok(Acc::Int16(_))));
    assert!(matches!(accumulator(DataType::UInt32), Ok(Acc::UInt32(_))));
    assert!(matches!(accumulator(DataType::UInt64), Ok(Acc::UInt64(_))));
    assert!(matches!(accumulator(DataType::Int32), Ok(Acc::Int32(_))));
    assert!(matches!(accumulator(DataType::Int64), Ok(Acc::Int64(_))));
    assert!(matches!(accumulator(DataType::Date32), Ok(Acc::Date32(_))));
    assert!(matches!(accumulator(DataType::Date64), Ok(Acc::Date64(_))));
    assert!(matches!(accumulator(DataType::Time32(unit(0))), Ok(Acc::Time32Second(_))));
    assert!(matches!(accumulator(DataType::Time32(unit(1))), Ok(Acc::Time32Millisecond(_))));
    assert!(matches!(accumulator(DataType::Time64(unit(2))), Ok(Acc::Time64Microsecond(_))));
    assert!(matches!(accumulator(DataType::Time64(unit(3))), Ok(Acc::Time64Nanosecond(_))));
    assert!(matches!(
        accumulator(DataType::Timestamp(unit(0), zone())),
        Ok(Acc::TimestampSecond(_))
    ));
    assert!(matches!(
        accumulator(DataType::Timestamp(unit(1), None)),
        Ok(Acc::TimestampMillisecond(_))
    ));
    assert!(matches!(
        accumulator(DataType::Timestamp(unit(2), zone())),
        Ok(Acc::TimestampMicrosecond(_))
    ));
    assert!(matches!(
        accumulator(DataType::Timestamp(unit(3), None)),
        Ok(Acc::TimestampNanosecond(_))
    ));
    assert!(matches!(accumulator(DataType::Utf8), Ok(Acc::Utf8(_))));
    assert!(matches!(accumulator(DataType::LargeUtf8), Ok(Acc::LargeUtf8(_))));
    assert!(matches!(accumulator(DataType::Utf8View), Ok(Acc::Utf8View(_))));
    assert!(matches!(accumulator(DataType::Binary), Ok(Acc::Binary(_))));
    assert!(matches!(accumulator(DataType::LargeBinary), Ok(Acc::LargeBinary(_))));
    assert!(matches!(accumulator(DataType::Null), Ok(Acc::Null(_))));
}

#[test]
fn other_types_are_not_implemented() {
    let message = |data_type| match accumulator(data_type).unwrap_err() {
        ApproxDistinctError::NotImplemented(text) => text,
        other => panic!("unexpected error: {other:?}"),
    };
    assert_eq!(
        message(DataType::Other("Float64".to_string())),
        "Support for 'approx_distinct' for data type Float64 is not implemented"
    );
    assert_eq!(
        message(DataType::Time32(TimeUnit::Nanosecond)),
        "Support for 'approx_distinct' for data type Time32(ns) is not implemented"
    );
    assert_eq!(
        message(DataType::Time64(TimeUnit::Second)),
        "Support for 'approx_distinct' for data type Time64(s) is not implemented"
    );
    assert_eq!(
        message(DataType::FixedSizeBinary(3)),
        "Support for 'approx_distinct' for data type FixedSizeBinary(3) is not implemented"
    );
}

#[test]
fn only_small_integers_have_a_bitmap() {
    assert!(get_small_int_approx_accumulator(&DataType::Int16).is_ok());
    match get_small_int_approx_accumulator(&DataType::Int32).unwrap_err() {
        ApproxDistinctError::Internal(text) => {
            assert_eq!(text, "unsupported small int type: Int32")
        }
        other => panic!("unexpected error: {other:?}"),
    }
}

#[test]
fn a_column_of_nulls_counts_zero() {
    let mut acc = accumulator(DataType::Null).unwrap();
    acc.update_batch(&[]).unwrap();
    acc.update_batch(&[ArrayRef { array: Arc::new(NullArray::new(3)) }]).unwrap();
    acc.merge_batch(&[]).unwrap();
    acc.merge_batch(&[ArrayRef { array: new_empty_array(&Arrow::Utf8) }]).unwrap();
    assert_eq!(number(&mut acc), 0);
    let state = acc.state().unwrap();
    assert!(matches!(state[..], [ScalarValue::Null]));
    assert_eq!(acc.size(), std::mem::size_of::<NoopAccumulator>());
}

fn number(acc: &mut Acc) -> u64 {
    match acc.evaluate().unwrap() {
        ScalarValue::UInt64(Some(v)) => v,
        other => panic!("unexpected evaluate result: {other:?}"),
    }
}

/// A column of one null.
fn column(arrow: &Arrow) -> ArrayRef {
    ArrayRef { array: new_null_array(arrow, 1) }
}

#[test]
fn an_accumulator_reads_just_the_columns_of_its_type() {
    let same = |a: &Arrow, b: &Arrow| match (a, b) {
        (Arrow::Timestamp(a, _), Arrow::Timestamp(b, _)) => a == b,
        _ => a == b,
    };
    let is_time = |t: &Arrow, unit| matches!(t, Arrow::Time32(u) | Arrow::Time64(u) if *u == unit);
    let columns: Vec<Arrow> = types()
        .into_iter()
        .map(|(_, arrow)| arrow)
        .filter(|t| !matches!(t, Arrow::FixedSizeBinary(w) if *w < 0))
        .filter(|t| match t {
            Arrow::Time32(_) => {
                is_time(t, ArrowUnit::Second) || is_time(t, ArrowUnit::Millisecond)
            }
            Arrow::Time64(_) => {
                is_time(t, ArrowUnit::Microsecond) || is_time(t, ArrowUnit::Nanosecond)
            }
            _ => true,
        })
        .collect();
    let mut tried = 0;
    for (data_type, own) in types() {
        let Ok(mut acc) = accumulator(data_type) else { continue };
        let size = acc.size();
        for other in &columns {
            let accepted = acc.update_batch(&[column(other)]).is_ok();
            assert_eq!(accepted, own == Arrow::Null || same(&own, other), "{own} {other}");
            assert_eq!(acc.size(), size);
            tried += 1;
        }
        assert_eq!(number(&mut acc), 0);
    }
    assert!(tried > 500);
}

fn outside(value: ScalarValue) -> datafusion_common::ScalarValue {
    match value {
        ScalarValue::Null => datafusion_common::ScalarValue::Null,
        ScalarValue::FixedSizeBinary(width, bytes) => {
            datafusion_common::ScalarValue::FixedSizeBinary(width, bytes)
        }
        ScalarValue::List(list) => datafusion_common::ScalarValue::List(Arc::new(
            list.array.as_list::<i32>().clone(),
        )),
        other => panic!("unexpected state: {other:?}"),
    }
}

#[test]
fn a_state_is_of_the_declared_type_and_can_be_merged() {
    for (data_type, arrow) in types() {
        let Ok(mut acc) = accumulator(data_type.clone()) else { continue };
        acc.update_batch(&[column(&arrow)]).unwrap();
        let field = state_field("x", data_type.clone());
        let mut state: Vec<_> = acc.state().unwrap().into_iter().map(outside).collect();
        assert_eq!(state.len(), 1);
        let array = state.remove(0).to_array().unwrap();
        assert_eq!(array.data_type().to_string(), field.data_type.text());
        let mut merged = accumulator(data_type).unwrap();
        merged.merge_batch(&[ArrayRef { array }]).unwrap();
        assert_eq!(number(&mut merged), 0);
    }
}

#[test]
fn state_fields_follow_the_type() {
    let expected = Field {
        name: "count[hll_registers]".to_string(),
        data_type: DataType::FixedSizeBinary(16384),
        nullable: false,
    };
    assert_eq!(state_field("count", DataType::Utf8View), expected);
    assert_eq!(state_field("count", DataType::Other("Float64".to_string())), expected);

    let expected = Field {
        name: "a b[approx_distinct]".to_string(),
        data_type: DataType::Null,
        nullable: true,
    };
    assert_eq!(state_field("a b", DataType::Null), expected);

    for data_type in [DataType::UInt8, DataType::Int8, DataType::UInt16, DataType::Int16] {
        let item =
            Field { name: "item".to_string(), data_type: data_type.clone(), nullable: true };
        let expected = Field {
            name: "[approx_distinct]".to_string(),
            data_type: DataType::List(Box::new(item)),
            nullable: false,
        };
        assert_eq!(get_small_int_state_field("", &data_type).unwrap(), vec![expected.clone()]);
        assert_eq!(state_field("", data_type), expected);
    }
}

#[test]
fn the_function_is_immutable_and_takes_one_argument() {
    let function = ApproxDistinct::new();
    assert_eq!(function.name(), "approx_distinct");
    assert_eq!(function.return_type(&[]).unwrap(), DataType::UInt64);
    assert_eq!(function.return_type(&[DataType::Utf8]).unwrap(), DataType::UInt64);
    assert_eq!(function.signature(), &Signature::any(1, Volatility::Immutable));
    assert_eq!(function, ApproxDistinct::default());
}

#[test]
fn the_function_shows_its_name_and_signature() {
    let function = ApproxDistinct::new();
    assert_eq!(
        format!("{function:?}"),
        format!(
            "ApproxDistinct {{ name: \"approx_distinct\", signature: {:?} }}",
            Signature::any(1, Volatility::Immutable)
        )
    );
}

#[test]
fn accumulators_for_one_type_answer_alike() {
    let other = Field { name: "y".to_string(), data_type: DataType::Utf8, nullable: false };
    for (data_type, arrow) in types() {
        let first = accumulator(data_type.clone());
        let second = ApproxDistinct::default()
            .accumulator(AccumulatorArgs { expr_fields: &[field(data_type), other.clone()] });
        assert_eq!(first.is_ok(), second.is_ok());
        let (Ok(mut first), Ok(mut second)) = (first, second) else { continue };
        assert_eq!(std::mem::discriminant(&first), std::mem::discriminant(&second));
        for acc in [&mut first, &mut second] {
            acc.update_batch(&[column(&arrow)]).unwrap();
        }
        assert_eq!(number(&mut first), number(&mut second));
        assert_eq!(first.size(), second.size());
        let states = [&mut first, &mut second]
            .map(|acc| outside(acc.state().unwrap().into_iter().next().unwrap()));
        assert_eq!(states[0], states[1]);
    }
}
