use insighter::batch::into_batches;
use insighter::error::{prefixed, ErrorKind, ExtractionError};
use insighter::parsed::ParsedData;
use insighter::value::{put_entry, Value};

fn numbers(count: i64) -> Vec<Value> {
    (1..=count).map(Value::Integer).collect()
}

fn sizes(batches: &[Value]) -> Vec<usize> {
    batches
        .iter()
        .map(|batch| match batch {
            Value::Array(items) => items.len(),
            other => panic!("{:?}", other),
        })
        .collect()
}

#[test]
fn a_new_key_goes_to_the_end() {
    let mut entries = Vec::new();
    put_entry(&mut entries, "b".to_string(), Value::Integer(1));
    put_entry(&mut entries, "a".to_string(), Value::Integer(2));
    assert_eq!(
        entries,
        vec![("b".to_string(), Value::Integer(1)), ("a".to_string(), Value::Integer(2))]
    );
}

#[test]
fn a_known_key_keeps_its_place_and_takes_the_new_value() {
    let mut entries = Vec::new();
    put_entry(&mut entries, "a".to_string(), Value::Integer(1));
    put_entry(&mut entries, "b".to_string(), Value::Integer(2));
    put_entry(&mut entries, "a".to_string(), Value::Bool(true));
    assert_eq!(
        entries,
        vec![("a".to_string(), Value::Bool(true)), ("b".to_string(), Value::Integer(2))]
    );
}

#[test]
fn arrays_and_objects_hold_what_they_are_given() {
    assert_eq!(Value::array(numbers(2)), Value::Array(vec![Value::Integer(1), Value::Integer(2)]));
    assert_eq!(
        Value::object(vec![("k".to_string(), Value::Null)]),
        Value::Object(vec![("k".to_string(), Value::Null)])
    );
}

#[test]
fn five_items_in_batches_of_two() {
    let batches = into_batches(numbers(5), 2);
    assert_eq!(sizes(&batches), vec![2, 2, 1]);
    assert_eq!(
        batches,
        vec![
            Value::Array(vec![Value::Integer(1), Value::Integer(2)]),
            Value::Array(vec![Value::Integer(3), Value::Integer(4)]),
            Value::Array(vec![Value::Integer(5)]),
        ]
    );
}

#[test]
fn a_full_last_batch_is_not_followed_by_an_empty_one() {
    assert_eq!(sizes(&into_batches(numbers(4), 2)), vec![2, 2]);
    assert_eq!(sizes(&into_batches(numbers(3), 3)), vec![3]);
    assert_eq!(sizes(&into_batches(numbers(3), 1)), vec![1, 1, 1]);
}

#[test]
fn no_items_make_no_batch() {
    assert_eq!(into_batches(Vec::new(), 3), Vec::<Value>::new());
}

#[test]
fn a_batch_larger_than_the_items_holds_them_all() {
    assert_eq!(sizes(&into_batches(numbers(3), 10)), vec![3]);
    assert_eq!(sizes(&into_batches(numbers(3), usize::MAX)), vec![3]);
}

#[test]
fn parsed_data_hands_out_what_it_was_given() {
    let parsed = ParsedData::new(Value::Integer(5), "a.csv".to_string());
    assert_eq!(parsed.data(), &Value::Integer(5));
    assert_eq!(parsed.file_name(), "a.csv");
    assert_eq!(parsed.into_data(), Value::Integer(5));
}

#[test]
fn an_extraction_error_carries_its_kind_and_message() {
    let error = ExtractionError::new(ErrorKind::Io, "disk".to_string());
    assert_eq!(error.kind(), ErrorKind::Io);
    assert_eq!(error.message(), "disk");
    assert_eq!(prefixed("a: ", "b"), "a: b");
}
