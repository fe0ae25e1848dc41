use json_diff::diff::{array_difference, calculate, object_difference, Difference};
use json_diff::number::Number;
use json_diff::value::{Object, Value};

fn number(value: u64) -> Value {
    Value::Number(Number::from_u64(value))
}

fn text(value: &str) -> Value {
    Value::String(value.to_string())
}

fn object(fields: Vec<(&str, Value)>) -> Object {
    let mut object = Object::new();
    for (key, value) in fields {
        object.insert(key.to_string(), value);
    }
    object
}

fn object_value(fields: Vec<(&str, Value)>) -> Value {
    Value::Object(object(fields))
}

fn float(value: f64) -> Value {
    let shown = serde_json::Number::from_f64(value).unwrap().to_string();
    Value::Number(Number::from_float_bits(value.to_bits(), shown).unwrap())
}

#[test]
fn null_is_not_different_from_itself() {
    let left_value: Value = Value::Null;
    let right_value: Value = Value::Null;

    let difference = calculate(left_value, right_value);
    let empty: Vec<Difference> = Vec::new();

    assert_eq!(empty, difference)
}

#[test]
fn difference_between_numbers() {
    let left_value: Value = number(1);
    let right_value: Value = number(2);

    let difference = calculate(left_value, right_value);

    assert_eq!(vec!(Difference::change(number(1), number(2))), difference)
}

#[test]
fn difference_between_booleans() {
    let left_value: Value = Value::Bool(true);
    let right_value: Value = Value::Bool(false);

    let difference = calculate(left_value, right_value);

    assert_eq!(
        vec!(Difference::change(Value::Bool(true), Value::Bool(false))),
        difference
    )
}

#[test]
fn same_boolean_value() {
    let left_value: Value = Value::Bool(true);
    let right_value: Value = Value::Bool(true);

    let difference = calculate(left_value, right_value);
    let empty: Vec<Difference> = Vec::new();

    assert_eq!(empty, difference)
}

#[test]
fn array_with_missing_value() {
    let left_value: Value = Value::Array(vec![number(1), number(2)]);
    let right_value: Value = Value::Array(vec![number(1)]);

    let difference = calculate(left_value, right_value);

    assert_eq!(vec!(Difference::Removed(number(2))), difference)
}

#[test]
fn array_with_surplus_value() {
    let left_value: Value = Value::Array(vec![number(1), number(2)]);
    let right_value: Value = Value::Array(vec![number(1), number(2), number(3)]);

    let difference = calculate(left_value, right_value);

    assert_eq!(vec!(Difference::Added(number(3))), difference)
}

#[test]
fn object_with_different_string_values() {
    let left_value: Value = object_value(vec![("a", text("foo"))]);
    let right_value: Value = object_value(vec![("a", text("bar"))]);

    let difference = calculate(left_value, right_value);

    assert_eq!(vec!(Difference::change(text("foo"), text("bar"))), difference)
}

#[test]
fn second_object_has_surplus_elements() {
    let left_value: Value = object_value(vec![("a", text("foo"))]);
    let right_value: Value = object_value(vec![("a", text("foo")), ("b", text("bar"))]);

    let difference = calculate(left_value, right_value);

    assert_eq!(
        vec!(Difference::Added(object_value(vec![("b", text("bar"))]))),
        difference
    )
}

#[test]
fn second_object_has_missing_elements() {
    let left_value: Value = object_value(vec![("a", text("foo")), ("b", text("bar"))]);
    let right_value: Value = object_value(vec![("a", text("foo"))]);

    let difference = calculate(left_value, right_value);

    assert_eq!(
        vec!(Difference::Removed(object_value(vec![("b", text("bar"))]))),
        difference
    )
}

#[test]
fn object_with_value_compared_with_null() {
    let left_value: Value = object_value(vec![("a", text("foo"))]);
    let right_value: Value = object_value(vec![("a", Value::Null)]);

    let difference = calculate(left_value, right_value);

    assert_eq!(vec!(Difference::change(text("foo"), Value::Null)), difference)
}

#[test]
fn string_compared_with_null_is_one_change() {
    let difference = calculate(text("x"), Value::Null);

    assert_eq!(vec![Difference::change(text("x"), Value::Null)], difference)
}

#[test]
fn object_compared_with_array_is_one_change() {
    let left = || object_value(vec![("a", number(1))]);
    let right = || Value::Array(vec![number(1)]);

    assert_eq!(vec![Difference::change(left(), right())], calculate(left(), right()));
    assert_eq!(vec![Difference::change(right(), left())], calculate(right(), left()));
}

#[test]
fn equal_strings_do_not_differ() {
    assert_eq!(Vec::<Difference>::new(), calculate(text("same"), text("same")));
}

#[test]
fn different_strings_are_one_change() {
    assert_eq!(
        vec![Difference::change(text("a"), text("b"))],
        calculate(text("a"), text("b"))
    );
}

#[test]
fn insert_in_the_middle_of_an_array_cascades() {
    let left = Value::Array(vec![number(1), number(2), number(3)]);
    let right = Value::Array(vec![number(1), number(9), number(2), number(3)]);

    let difference = calculate(left, right);

    assert_eq!(
        vec![
            Difference::change(number(2), number(9)),
            Difference::change(number(3), number(2)),
            Difference::Added(number(3)),
        ],
        difference
    )
}

#[test]
fn nested_change_carries_only_the_innermost_values() {
    let left = object_value(vec![("outer", object_value(vec![("inner", number(1))]))]);
    let right = object_value(vec![("outer", object_value(vec![("inner", number(2))]))]);

    let difference = calculate(left, right);

    assert_eq!(vec![Difference::change(number(1), number(2))], difference)
}

fn document() -> Value {
    object_value(vec![
        ("name", text("Amy")),
        ("shows", Value::Array(vec![text("In Treatment"), text("The Wire")])),
        ("age", number(42)),
        ("ratio", float(0.5)),
        ("details", object_value(vec![("active", Value::Bool(true)), ("agent", Value::Null)])),
    ])
}

#[test]
fn a_value_does_not_differ_from_itself() {
    assert_eq!(Vec::<Difference>::new(), calculate(document(), document()));
}

#[test]
fn a_copy_with_fields_in_another_order_does_not_differ() {
    let copy = object_value(vec![
        ("details", object_value(vec![("agent", Value::Null), ("active", Value::Bool(true))])),
        ("ratio", float(0.5)),
        ("age", number(42)),
        ("shows", Value::Array(vec![text("In Treatment"), text("The Wire")])),
        ("name", text("Amy")),
    ]);

    assert_eq!(Vec::<Difference>::new(), calculate(document(), copy));
}

#[test]
fn fields_of_the_left_object_come_first_then_the_added_ones() {
    let left = object_value(vec![("a", number(1)), ("b", number(2)), ("c", number(3))]);
    let right = object_value(vec![("z", number(0)), ("c", number(4)), ("a", number(1)), ("y", number(5))]);

    let difference = calculate(left, right);

    assert_eq!(
        vec![
            Difference::Removed(object_value(vec![("b", number(2))])),
            Difference::change(number(3), number(4)),
            Difference::Added(object_value(vec![("z", number(0))])),
            Difference::Added(object_value(vec![("y", number(5))])),
        ],
        difference
    )
}

#[test]
fn empty_containers_do_not_differ() {
    assert_eq!(
        Vec::<Difference>::new(),
        calculate(Value::Array(Vec::new()), Value::Array(Vec::new()))
    );
    assert_eq!(
        Vec::<Difference>::new(),
        calculate(Value::Object(Object::new()), Value::Object(Object::new()))
    );
}

#[test]
fn array_against_empty_array() {
    assert_eq!(
        vec![Difference::Removed(number(1)), Difference::Removed(text("x"))],
        array_difference(vec![number(1), text("x")], Vec::new())
    );
    assert_eq!(
        vec![Difference::Added(number(1)), Difference::Added(text("x"))],
        array_difference(Vec::new(), vec![number(1), text("x")])
    );
}

#[test]
fn object_against_empty_object() {
    assert_eq!(
        vec![Difference::Removed(object_value(vec![("a", number(1))]))],
        object_difference(object(vec![("a", number(1))]), Object::new())
    );
    assert_eq!(
        vec![Difference::Added(object_value(vec![("a", number(1))]))],
        object_difference(Object::new(), object(vec![("a", number(1))]))
    );
}

#[test]
fn nested_arrays_are_compared_position_by_position() {
    let left = Value::Array(vec![Value::Array(vec![number(1), number(2)]), number(3)]);
    let right = Value::Array(vec![Value::Array(vec![number(1)]), text("3")]);

    assert_eq!(
        vec![Difference::Removed(number(2)), Difference::change(number(3), text("3"))],
        calculate(left, right)
    )
}

#[test]
fn an_integer_differs_from_the_double_of_the_same_value() {
    assert_eq!(
        vec![Difference::change(number(1), float(1.0))],
        calculate(number(1), float(1.0))
    );
}

#[test]
fn the_two_zeros_do_not_differ() {
    assert_eq!(Vec::<Difference>::new(), calculate(float(0.0), float(-0.0)));
}

#[test]
fn different_doubles_are_one_change() {
    assert_eq!(
        vec![Difference::change(float(4.67), float(4.68))],
        calculate(float(4.67), float(4.68))
    );
    assert_eq!(Vec::<Difference>::new(), calculate(float(4.67), float(4.67)));
}

#[test]
fn a_change_gives_back_both_values() {
    let difference = calculate(number(1), text("one")).pop().unwrap();

    match difference {
        Difference::Changed(mutation) => {
            assert_eq!(&number(1), mutation.original_value());
            assert_eq!(&text("one"), mutation.modified_value());
        }
        other => panic!("not a change: {:?}", other),
    }
}

#[test]
fn a_field_missing_from_the_middle_is_the_only_difference() {
    let left = object_value(vec![("a", number(1)), ("b", number(2)), ("c", number(3))]);
    let right = object_value(vec![("a", number(1)), ("c", number(3))]);

    assert_eq!(
        vec![Difference::Removed(object_value(vec![("b", number(2))]))],
        calculate(left, right)
    );
}

#[test]
fn a_field_added_at_the_front_is_the_only_difference() {
    let left = object_value(vec![("b", number(2)), ("c", number(3))]);
    let right = object_value(vec![("a", number(1)), ("b", number(2)), ("c", number(3))]);

    assert_eq!(
        vec![Difference::Added(object_value(vec![("a", number(1))]))],
        calculate(left, right)
    );
}

#[test]
fn a_removed_field_keeps_its_whole_value() {
    let nested = || object_value(vec![("x", Value::Array(vec![number(1), Value::Null]))]);
    let left = object_value(vec![("gone", nested())]);
    let right = Value::Object(Object::new());

    assert_eq!(
        vec![Difference::Removed(object_value(vec![("gone", nested())]))],
        calculate(left, right)
    );
}

#[test]
fn wrapping_both_sides_in_one_field_changes_nothing() {
    let plain = calculate(
        Value::Array(vec![number(1), number(2)]),
        Value::Array(vec![number(1), text("2"), number(3)]),
    );
    let wrapped = calculate(
        object_value(vec![("k", Value::Array(vec![number(1), number(2)]))]),
        object_value(vec![("k", Value::Array(vec![number(1), text("2"), number(3)]))]),
    );

    assert_eq!(
        vec![Difference::change(number(2), text("2")), Difference::Added(number(3))],
        plain
    );
    assert_eq!(plain, wrapped);
}

#[test]
fn the_same_key_with_another_kind_of_value_is_one_change() {
    let left = object_value(vec![("k", object_value(vec![("one", text("In Treatment"))]))]);
    let right = object_value(vec![("k", Value::Array(vec![text("In Treatment")]))]);

    assert_eq!(
        vec![Difference::change(
            object_value(vec![("one", text("In Treatment"))]),
            Value::Array(vec![text("In Treatment")])
        )],
        calculate(left, right)
    );
}

#[test]
fn null_differs_from_false_and_from_zero() {
    assert_eq!(
        vec![Difference::change(Value::Null, Value::Bool(false))],
        calculate(Value::Null, Value::Bool(false))
    );
    assert_eq!(
        vec![Difference::change(number(0), Value::Null)],
        calculate(number(0), Value::Null)
    );
    assert_eq!(
        vec![Difference::change(text("1"), number(1))],
        calculate(text("1"), number(1))
    );
}
