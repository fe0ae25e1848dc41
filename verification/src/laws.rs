//! What holds of the differences between any two values.

use vstd::prelude::*;
use crate::diff::{
    added_fields, added_items, array_diff, diff, field_diff, fields_diff, fields_missing_from,
    is_primitive, object_diff, removed_items, same_primitive, singleton, DifferenceView,
};
use crate::pairing::{in_one_pass, one_pass_finds_the_differences};
use crate::value::{distinct_keys, has_key, key_position, key_position_is_first, ValueView};

verus! {

/// Two values are equal in depth: of one kind, and equal primitives, or arrays
/// of equal length whose items are equal in depth position by position, or
/// objects that hold the same keys with, under each key, values equal in
/// depth. The order of the fields of an object does not count.
pub open spec fn equal_in_depth(a: ValueView, b: ValueView) -> bool
    decreases a,
{
    match (a, b) {
        (ValueView::Array(x), ValueView::Array(y)) => x.len() == y.len() && forall|i: int|
            0 <= i < x.len() ==> equal_in_depth(#[trigger] x[i], y[i]),
        (ValueView::Object(x), ValueView::Object(y)) => {
            &&& forall|i: int|
                0 <= i < x.len() ==> has_key(y, (#[trigger] x[i]).0) && equal_in_depth(
                    x[i].1,
                    y[key_position(y, x[i].0)].1,
                )
            &&& forall|j: int| 0 <= j < y.len() ==> has_key(x, (#[trigger] y[j]).0)
        },
        _ => same_primitive(a, b),
    }
}

/// A value is equal in depth to itself.
pub proof fn equal_in_depth_to_itself(value: ValueView)
    requires
        value.wf(),
    ensures
        equal_in_depth(value, value),
    decreases value,
{
    match value {
        ValueView::Array(items) => {
            assert forall|i: int| 0 <= i < items.len() implies equal_in_depth(
                #[trigger] items[i],
                items[i],
            ) by {
                equal_in_depth_to_itself(items[i]);
            }
        },
        ValueView::Object(fields) => {
            assert forall|i: int| 0 <= i < fields.len() implies has_key(
                fields,
                (#[trigger] fields[i]).0,
            ) && equal_in_depth(fields[i].1, fields[key_position(fields, fields[i].0)].1) by {
                key_position_is_first(fields, fields[i].0);
                equal_in_depth_to_itself(fields[i].1);
            }
        },
        _ => {},
    }
}

/// A value differs from itself in nothing.
pub proof fn value_equals_itself(value: ValueView)
    requires
        value.wf(),
    ensures
        diff(value, value) == Seq::<DifferenceView>::empty(),
{
    equal_in_depth_to_itself(value);
    equal_values_differ_in_nothing(value, value);
}

/// A value differs in nothing from a copy that is equal to it in depth,
/// however the copy was built.
pub proof fn equal_values_differ_in_nothing(a: ValueView, b: ValueView)
    requires
        equal_in_depth(a, b),
    ensures
        diff(a, b) == Seq::<DifferenceView>::empty(),
    decreases a,
{
    match (a, b) {
        (ValueView::Array(x), ValueView::Array(y)) => {
            equal_arrays_differ_in_nothing(x, y);
        },
        (ValueView::Object(x), ValueView::Object(y)) => {
            assert forall|i: int| 0 <= i < x.len() implies (#[trigger] field_diff(x[i], y)).len()
                == 0 by {
                equal_values_differ_in_nothing(x[i].1, y[key_position(y, x[i].0)].1);
            }
            fields_without_difference(x, y);
            no_field_is_missing(x, y);
        },
        _ => {},
    }
}

/// Arrays that are equal in depth differ in nothing.
proof fn equal_arrays_differ_in_nothing(x: Seq<ValueView>, y: Seq<ValueView>)
    requires
        equal_in_depth(ValueView::Array(x), ValueView::Array(y)),
    ensures
        array_diff(x, y) == Seq::<DifferenceView>::empty(),
    decreases x,
{
    if x.len() > 0 {
        equal_values_differ_in_nothing(x[0], y[0]);
        equal_arrays_differ_in_nothing(x.drop_first(), y.drop_first());
    }
}

/// Two values that differ in nothing are equal in depth: an empty result never
/// hides a difference.
pub proof fn no_difference_means_equal(a: ValueView, b: ValueView)
    requires
        diff(a, b).len() == 0,
    ensures
        equal_in_depth(a, b),
    decreases a,
{
    match (a, b) {
        (ValueView::Array(x), ValueView::Array(y)) => {
            arrays_without_difference(x, y);
        },
        (ValueView::Object(x), ValueView::Object(y)) => {
            each_field_without_difference(x, y);
            assert forall|i: int| 0 <= i < x.len() implies has_key(y, (#[trigger] x[i]).0)
                && equal_in_depth(x[i].1, y[key_position(y, x[i].0)].1) by {
                assert(field_diff(x[i], y).len() == 0);
                no_difference_means_equal(x[i].1, y[key_position(y, x[i].0)].1);
            }
            each_key_is_held(x, y);
        },
        _ => {},
    }
}

/// Arrays that differ in nothing are equal in depth.
proof fn arrays_without_difference(x: Seq<ValueView>, y: Seq<ValueView>)
    requires
        array_diff(x, y).len() == 0,
    ensures
        equal_in_depth(ValueView::Array(x), ValueView::Array(y)),
    decreases x,
{
    if x.len() > 0 && y.len() > 0 {
        let xs = x.drop_first();
        let ys = y.drop_first();
        no_difference_means_equal(x[0], y[0]);
        arrays_without_difference(xs, ys);
        assert forall|i: int| 0 <= i < x.len() implies equal_in_depth(#[trigger] x[i], y[i]) by {
            if i > 0 {
                assert(xs[i - 1] == x[i] && ys[i - 1] == y[i]);
            }
        }
    }
}

/// Fields that each give no difference give none together.
proof fn fields_without_difference(
    left: Seq<(Seq<char>, ValueView)>,
    right: Seq<(Seq<char>, ValueView)>,
)
    requires
        forall|i: int| 0 <= i < left.len() ==> (#[trigger] field_diff(left[i], right)).len() == 0,
    ensures
        fields_diff(left, right) == Seq::<DifferenceView>::empty(),
    decreases left.len(),
{
    if left.len() > 0 {
        assert(field_diff(left[0], right).len() == 0);
        fields_without_difference(left.drop_first(), right);
    }
}

/// Fields that give no difference together give none each.
proof fn each_field_without_difference(
    left: Seq<(Seq<char>, ValueView)>,
    right: Seq<(Seq<char>, ValueView)>,
)
    requires
        fields_diff(left, right).len() == 0,
    ensures
        forall|i: int| 0 <= i < left.len() ==> (#[trigger] field_diff(left[i], right)).len() == 0,
    decreases left.len(),
{
    if left.len() > 0 {
        let rest = left.drop_first();
        each_field_without_difference(rest, right);
        assert forall|i: int| 0 <= i < left.len() implies (#[trigger] field_diff(left[i], right)).len()
            == 0 by {
            if i > 0 {
                assert(rest[i - 1] == left[i]);
            }
        }
    }
}

/// Where `left` holds every key of `right`, no field of `right` is missing.
proof fn no_field_is_missing(
    left: Seq<(Seq<char>, ValueView)>,
    right: Seq<(Seq<char>, ValueView)>,
)
    requires
        forall|j: int| 0 <= j < right.len() ==> has_key(left, (#[trigger] right[j]).0),
    ensures
        fields_missing_from(left, right) == Seq::<(Seq<char>, ValueView)>::empty(),
    decreases right.len(),
{
    if right.len() > 0 {
        no_field_is_missing(left, right.drop_first());
    }
}

/// Where no field of `right` is missing, `left` holds every key of `right`.
proof fn each_key_is_held(
    left: Seq<(Seq<char>, ValueView)>,
    right: Seq<(Seq<char>, ValueView)>,
)
    requires
        added_fields(fields_missing_from(left, right)).len() == 0,
    ensures
        forall|j: int| 0 <= j < right.len() ==> has_key(left, (#[trigger] right[j]).0),
    decreases right.len(),
{
    if right.len() > 0 {
        let rest = right.drop_first();
        each_key_is_held(left, rest);
        assert forall|j: int| 0 <= j < right.len() implies has_key(left, (#[trigger] right[j]).0) by {
            if j > 0 {
                assert(rest[j - 1] == right[j]);
            }
        }
    }
}

/// Two values that are not both objects, not both arrays and not equal
/// primitives are reported as one change that carries both whole: a change of
/// kind is a change like any other.
pub proof fn other_values_are_one_change(a: ValueView, b: ValueView)
    requires
        !(a is Object && b is Object),
        !(a is Array && b is Array),
        !same_primitive(a, b),
    ensures
        diff(a, b) == seq![DifferenceView::Changed { original: a, modified: b }],
{
}

/// Comparing two values under one key, each the only field of its object,
/// gives the differences between the two values: a change deep inside is
/// reported with the innermost values alone, not with what encloses them.
pub proof fn field_is_transparent(key: Seq<char>, a: ValueView, b: ValueView)
    ensures
        diff(singleton(key, a), singleton(key, b)) == diff(a, b),
{
    let x = seq![(key, a)];
    let y = seq![(key, b)];
    assert(fields_missing_from(x, y.drop_first()) =~= Seq::empty());
    assert(object_diff(x, y) =~= diff(a, b));
}

/// A primitive that changed two objects deep is reported as the one change
/// from the old primitive to the new.
pub proof fn nested_change_carries_the_primitives(
    outer: Seq<char>,
    inner: Seq<char>,
    a: ValueView,
    b: ValueView,
)
    requires
        is_primitive(a),
        is_primitive(b),
        !same_primitive(a, b),
    ensures
        diff(singleton(outer, singleton(inner, a)), singleton(outer, singleton(inner, b))) == seq![
            DifferenceView::Changed { original: a, modified: b },
        ],
{
    field_is_transparent(inner, a, b);
    field_is_transparent(outer, singleton(inner, a), singleton(inner, b));
}

/// An array compared with one that goes on past its end: what is past the end
/// was added, item by item, and nothing else differs.
pub proof fn longer_array_adds_its_tail(items: Seq<ValueView>, tail: Seq<ValueView>)
    requires
        ValueView::Array(items).wf(),
    ensures
        array_diff(items, items + tail) == added_items(tail),
    decreases items.len(),
{
    if items.len() > 0 {
        let rest = items.drop_first();
        assert(ValueView::Array(items)->Array_0 == items);
        value_equals_itself(items[0]);
        longer_array_adds_its_tail(rest, tail);
        assert((items + tail).drop_first() =~= rest + tail);
    }
}

/// An array compared with its own front part: what follows that part was
/// removed, item by item, and nothing else differs.
pub proof fn shorter_array_removes_the_tail(items: Seq<ValueView>, tail: Seq<ValueView>)
    requires
        ValueView::Array(items).wf(),
    ensures
        array_diff(items + tail, items) == removed_items(tail),
    decreases items.len(),
{
    if items.len() > 0 {
        let rest = items.drop_first();
        assert(ValueView::Array(items)->Array_0 == items);
        value_equals_itself(items[0]);
        shorter_array_removes_the_tail(rest, tail);
        assert((items + tail).drop_first() =~= rest + tail);
    }
}

/// An object compared with itself less one field: that field was removed, and
/// nothing else differs.
pub proof fn missing_field_is_removed(fields: Seq<(Seq<char>, ValueView)>, at: int)
    requires
        ValueView::Object(fields).wf(),
        0 <= at < fields.len(),
    ensures
        object_diff(fields, fields.remove(at)) == seq![
            DifferenceView::Removed(singleton(fields[at].0, fields[at].1)),
        ],
{
    removal_keeps_keys_distinct(fields, at);
    one_pass_finds_the_differences(fields, fields.remove(at));
    one_pass_sees_the_missing_field(fields, at);
}

/// An object compared with itself and one field more: that field was added,
/// and nothing else differs.
pub proof fn surplus_field_is_added(fields: Seq<(Seq<char>, ValueView)>, at: int)
    requires
        ValueView::Object(fields).wf(),
        0 <= at < fields.len(),
    ensures
        object_diff(fields.remove(at), fields) == seq![
            DifferenceView::Added(singleton(fields[at].0, fields[at].1)),
        ],
{
    removal_keeps_keys_distinct(fields, at);
    one_pass_finds_the_differences(fields.remove(at), fields);
    one_pass_sees_the_surplus_field(fields, at);
}

/// An object without one of its fields is still valid.
proof fn removal_keeps_keys_distinct(fields: Seq<(Seq<char>, ValueView)>, at: int)
    requires
        ValueView::Object(fields).wf(),
        0 <= at < fields.len(),
    ensures
        ValueView::Object(fields.remove(at)).wf(),
{
}

/// One pass over an object and itself finds no difference.
proof fn one_pass_over_itself(fields: Seq<(Seq<char>, ValueView)>)
    requires
        ValueView::Object(fields).wf(),
    ensures
        in_one_pass(fields, fields) == Seq::<DifferenceView>::empty(),
{
    one_pass_finds_the_differences(fields, fields);
    value_equals_itself(ValueView::Object(fields));
}

/// One pass over an object and itself less one field finds that field removed.
proof fn one_pass_sees_the_missing_field(fields: Seq<(Seq<char>, ValueView)>, at: int)
    requires
        ValueView::Object(fields).wf(),
        0 <= at < fields.len(),
    ensures
        in_one_pass(fields, fields.remove(at)) == seq![
            DifferenceView::Removed(singleton(fields[at].0, fields[at].1)),
        ],
    decreases fields.len(),
{
    let rest = fields.drop_first();
    let less = fields.remove(at);
    let key = fields[0].0;
    key_position_is_first(less, key);
    removal_keeps_keys_distinct(fields, 0);
    if at == 0 {
        one_pass_over_itself(rest);
    } else {
        value_equals_itself(fields[0].1);
        assert(less.remove(0) =~= rest.remove(at - 1));
        one_pass_sees_the_missing_field(rest, at - 1);
    }
}

/// One pass over an object less one field and itself finds that field added.
proof fn one_pass_sees_the_surplus_field(fields: Seq<(Seq<char>, ValueView)>, at: int)
    requires
        ValueView::Object(fields).wf(),
        0 <= at < fields.len(),
    ensures
        in_one_pass(fields.remove(at), fields) == seq![
            DifferenceView::Added(singleton(fields[at].0, fields[at].1)),
        ],
    decreases fields.len(),
{
    let less = fields.remove(at);
    if less.len() > 0 {
        let key = less[0].0;
        let first = if at == 0 { 1int } else { 0int };
        key_position_is_first(fields, key);
        value_equals_itself(less[0].1);
        let next = fields.remove(first);
        let next_at = if at == 0 { 0int } else { at - 1 };
        removal_keeps_keys_distinct(fields, first);
        assert(less.drop_first() =~= next.remove(next_at));
        one_pass_sees_the_surplus_field(next, next_at);
    }
}

} // verus!
