use json_diff::number::Number;
use json_diff::value::{find_key, Object, Value};

#[test]
fn unsigned_integers_read_back() {
    let number = Number::from_u64(u64::MAX);
    assert_eq!(Some(u64::MAX), number.as_u64());
    assert_eq!(None, number.as_i64());
    assert_eq!(None, number.float_bits());
    assert_eq!("18446744073709551615", number.to_text());
}

#[test]
fn signed_integers_read_back() {
    let negative = Number::from_i64(-5);
    assert_eq!(None, negative.as_u64());
    assert_eq!(Some(-5), negative.as_i64());
    assert_eq!("-5", negative.to_text());

    let positive = Number::from_i64(5);
    assert_eq!(Some(5), positive.as_u64());
    assert_eq!(Some(5), positive.as_i64());
    assert_eq!("5", positive.to_text());
}

#[test]
fn an_integer_is_the_same_however_it_was_given() {
    assert!(Number::from_i64(5).same_value(&Number::from_u64(5)));
    assert!(Number::from_u64(0).same_value(&Number::from_i64(0)));
    assert!(!Number::from_i64(-5).same_value(&Number::from_u64(5)));
    assert!(!Number::from_u64(1).same_value(&Number::from_u64(2)));
}

#[test]
fn doubles_read_back() {
    let number = Number::from_float_bits(4.67f64.to_bits(), "4.67".to_string()).unwrap();
    assert_eq!(Some(4.67f64.to_bits()), number.float_bits());
    assert_eq!(None, number.as_u64());
    assert_eq!(None, number.as_i64());
    assert_eq!("4.67", number.to_text());
}

#[test]
fn doubles_that_are_not_finite_are_refused() {
    assert_eq!(None, Number::from_float_bits(f64::NAN.to_bits(), "NaN".to_string()));
    assert_eq!(None, Number::from_float_bits(f64::INFINITY.to_bits(), "inf".to_string()));
    assert_eq!(None, Number::from_float_bits(f64::NEG_INFINITY.to_bits(), "-inf".to_string()));
    assert!(Number::from_float_bits(f64::MAX.to_bits(), "1.7976931348623157e308".to_string()).is_some());
    assert!(Number::from_float_bits(f64::MIN_POSITIVE.to_bits(), "2.2250738585072014e-308".to_string()).is_some());
    assert!(Number::from_float_bits(5e-324f64.to_bits(), "5e-324".to_string()).is_some());
}

#[test]
fn doubles_compare_as_numbers() {
    let double = |value: f64| Number::from_float_bits(value.to_bits(), value.to_string()).unwrap();
    assert!(double(0.0).same_value(&double(-0.0)));
    assert!(double(-0.0).same_value(&double(0.0)));
    assert!(double(1.5).same_value(&double(1.5)));
    assert!(!double(1.5).same_value(&double(-1.5)));
    assert!(!double(0.0).same_value(&double(5e-324)));
    assert!(!double(1.0).same_value(&Number::from_u64(1)));
    assert!(!Number::from_u64(1).same_value(&double(1.0)));
}

#[test]
fn a_new_key_goes_to_the_end() {
    let mut object = Object::new();
    assert_eq!(None, object.insert("a".to_string(), Value::Null));
    assert_eq!(None, object.insert("b".to_string(), Value::Bool(true)));

    let entries = object.into_entries();
    assert_eq!(
        vec![("a".to_string(), Value::Null), ("b".to_string(), Value::Bool(true))],
        entries
    );
}

#[test]
fn a_known_key_gets_the_new_value_where_it_stands() {
    let mut object = Object::new();
    object.insert("a".to_string(), Value::Null);
    object.insert("b".to_string(), Value::Bool(true));
    object.insert("c".to_string(), Value::Bool(false));

    let previous = object.insert("b".to_string(), Value::String("new".to_string()));

    assert_eq!(Some(Value::Bool(true)), previous);
    assert_eq!(
        &vec![
            ("a".to_string(), Value::Null),
            ("b".to_string(), Value::String("new".to_string())),
            ("c".to_string(), Value::Bool(false)),
        ],
        object.entries()
    );
}

#[test]
fn find_key_gives_the_first_position() {
    let entries = vec![
        ("a".to_string(), Value::Null),
        ("b".to_string(), Value::Null),
        ("a".to_string(), Value::Bool(true)),
    ];
    assert_eq!(Some(0), find_key(&entries, &"a".to_string()));
    assert_eq!(Some(1), find_key(&entries, &"b".to_string()));
    assert_eq!(None, find_key(&entries, &"c".to_string()));
    assert_eq!(None, find_key(&Vec::new(), &"a".to_string()));
}

#[test]
fn a_copy_holds_the_same_tree() {
    let mut inner = Object::new();
    inner.insert("n".to_string(), Value::Number(Number::from_i64(-3)));
    inner.insert(
        "x".to_string(),
        Value::Number(Number::from_float_bits(2.5f64.to_bits(), "2.5".to_string()).unwrap()),
    );
    let value = Value::Array(vec![
        Value::Null,
        Value::Bool(true),
        Value::String("s".to_string()),
        Value::Object(inner),
        Value::Array(Vec::new()),
    ]);

    let copy = value.clone();

    assert_eq!(value, copy);
}
