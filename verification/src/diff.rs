//! The structural difference between two JSON values.

use vstd::prelude::*;
use vstd::std_specs::iter::{IteratorSpec, VerusForLoopWrapper};
use crate::laws::{equal_in_depth, equal_values_differ_in_nothing, no_difference_means_equal};
use crate::number::same_number;
use crate::pairing::{in_one_pass, one_pass_finds_the_differences};
use crate::value::{
    array_view, entry_views, find_key, has_key, key_position, key_position_is_first, value_views,
    Object, Value, ValueView,
};

verus! {

/// The mathematical value of a [`Difference`].
pub enum DifferenceView {
    /// The position holds a value on both sides, and the two differ.
    Changed { original: ValueView, modified: ValueView },
    /// Only the modified side holds a value at the position.
    Added(ValueView),
    /// Only the original side holds a value at the position.
    Removed(ValueView),
}

/// The object whose only field is `key` with `value`.
pub open spec fn singleton(key: Seq<char>, value: ValueView) -> ValueView {
    ValueView::Object(seq![(key, value)])
}

/// The value is a null, a boolean, a number or a string.
pub open spec fn is_primitive(value: ValueView) -> bool {
    !(value is Array) && !(value is Object)
}

/// Equality of two primitives: of the same kind, and equal as that kind
/// compares. Numbers compare numerically, booleans and strings exactly, and
/// null equals null alone.
pub open spec fn same_primitive(left: ValueView, right: ValueView) -> bool {
    match (left, right) {
        (ValueView::Null, ValueView::Null) => true,
        (ValueView::Bool(a), ValueView::Bool(b)) => a == b,
        (ValueView::Number(a), ValueView::Number(b)) => same_number(a, b),
        (ValueView::String(a), ValueView::String(b)) => a == b,
        _ => false,
    }
}

/// Every item reported as added, bare.
pub open spec fn added_items(items: Seq<ValueView>) -> Seq<DifferenceView> {
    Seq::new(items.len(), |i: int| DifferenceView::Added(items[i]))
}

/// Every item reported as removed, bare.
pub open spec fn removed_items(items: Seq<ValueView>) -> Seq<DifferenceView> {
    Seq::new(items.len(), |i: int| DifferenceView::Removed(items[i]))
}

/// Every field reported as added, each as an object of that one field.
pub open spec fn added_fields(fields: Seq<(Seq<char>, ValueView)>) -> Seq<DifferenceView> {
    Seq::new(fields.len(), |i: int| DifferenceView::Added(singleton(fields[i].0, fields[i].1)))
}

/// The differences between two values. Two objects and two arrays are
/// reconciled part by part. Any other two values are either equal primitives,
/// which differ in nothing, or one change that carries both whole.
pub open spec fn diff(left: ValueView, right: ValueView) -> Seq<DifferenceView>
    decreases left, 0int,
{
    match (left, right) {
        (ValueView::Object(l), ValueView::Object(r)) => object_diff(l, r),
        (ValueView::Array(l), ValueView::Array(r)) => array_diff(l, r),
        _ => if same_primitive(left, right) {
            Seq::empty()
        } else {
            seq![DifferenceView::Changed { original: left, modified: right }]
        },
    }
}

/// The differences between two arrays, position by position from the front.
/// Where both hold an item, the two items are compared. Past the end of the
/// shorter array every item of the longer one was removed, if the original
/// array is the longer, or added.
pub open spec fn array_diff(left: Seq<ValueView>, right: Seq<ValueView>) -> Seq<DifferenceView>
    decreases left, 0int,
{
    if left.len() == 0 {
        added_items(right)
    } else if right.len() == 0 {
        removed_items(left)
    } else {
        diff(left[0], right[0]) + array_diff(left.drop_first(), right.drop_first())
    }
}

/// The differences between two objects, key by key. Each field of the
/// original object is looked up in the modified object: where the key is found
/// the two values are compared, where it is not the field was removed. These
/// come first, in the order of the original object's fields. Then each field
/// of the modified object whose key the original object does not hold was
/// added, in the order of the modified object's fields. A field that only one side holds is
/// reported as an object of that one field, so that its key is not lost.
pub open spec fn object_diff(
    left: Seq<(Seq<char>, ValueView)>,
    right: Seq<(Seq<char>, ValueView)>,
) -> Seq<DifferenceView>
    decreases left, 1int,
{
    fields_diff(left, right) + added_fields(fields_missing_from(left, right))
}

/// What the fields of the original object give, one after the other.
pub open spec fn fields_diff(
    left: Seq<(Seq<char>, ValueView)>,
    right: Seq<(Seq<char>, ValueView)>,
) -> Seq<DifferenceView>
    decreases left, 0int,
{
    if left.len() == 0 {
        Seq::empty()
    } else {
        field_diff(left[0], right) + fields_diff(left.drop_first(), right)
    }
}

/// What one field of the original object gives: the differences between its
/// value and the value under the same key in `right`, or its removal when
/// `right` does not hold the key.
pub open spec fn field_diff(
    field: (Seq<char>, ValueView),
    right: Seq<(Seq<char>, ValueView)>,
) -> Seq<DifferenceView>
    decreases field, 0int,
{
    if has_key(right, field.0) {
        diff(field.1, right[key_position(right, field.0)].1)
    } else {
        seq![DifferenceView::Removed(singleton(field.0, field.1))]
    }
}

/// The fields of `right` whose keys `left` does not hold, in their order.
pub open spec fn fields_missing_from(
    left: Seq<(Seq<char>, ValueView)>,
    right: Seq<(Seq<char>, ValueView)>,
) -> Seq<(Seq<char>, ValueView)>
    decreases right.len(),
{
    if right.len() == 0 {
        Seq::empty()
    } else if has_key(left, right[0].0) {
        fields_missing_from(left, right.drop_first())
    } else {
        seq![right[0]] + fields_missing_from(left, right.drop_first())
    }
}

/// One difference between two values.
#[derive(Debug, PartialEq)]
pub enum Difference {
    /// The position holds a value on both sides, and the two differ.
    Changed(SlightMutation),
    /// Only the modified side holds this value.
    Added(Value),
    /// Only the original side holds this value.
    Removed(Value),
}

/// The two values of a change.
#[derive(Debug, PartialEq)]
pub struct SlightMutation {
    original_value: Value,
    modified_value: Value,
}

impl SlightMutation {
    /// The value on the original side.
    pub closed spec fn original(self) -> ValueView {
        self.original_value@
    }

    /// The value on the modified side.
    pub closed spec fn modified(self) -> ValueView {
        self.modified_value@
    }

    /// The value on the original side.
    pub fn original_value(&self) -> (value: &Value)
        ensures
            value@ == self.original(),
    {
        &self.original_value
    }

    /// The value on the modified side.
    pub fn modified_value(&self) -> (value: &Value)
        ensures
            value@ == self.modified(),
    {
        &self.modified_value
    }
}

impl View for Difference {
    type V = DifferenceView;

    open spec fn view(&self) -> DifferenceView {
        match self {
            Difference::Changed(mutation) => DifferenceView::Changed {
                original: mutation.original(),
                modified: mutation.modified(),
            },
            Difference::Added(value) => DifferenceView::Added(value@),
            Difference::Removed(value) => DifferenceView::Removed(value@),
        }
    }
}

impl Difference {
    /// The change from `original` to `modified`.
    pub fn change(original: Value, modified: Value) -> (difference: Difference)
        ensures
            difference@ == (DifferenceView::Changed { original: original@, modified: modified@ }),
    {
        Difference::Changed(SlightMutation { original_value: original, modified_value: modified })
    }
}

/// The values of a sequence of differences, one by one.
pub open spec fn difference_views(differences: Seq<Difference>) -> Seq<DifferenceView> {
    Seq::new(differences.len(), |i: int| differences[i]@)
}

/// The differences between `left`, the original, and `right`, the modified
/// value, in the order that [`diff`] gives. There are none exactly when the
/// two values are equal in depth, as a value and a copy of it are. Both values
/// are used up: what differs is moved into the result as it is, and what
/// agrees is dropped. The call descends one level for each level at which the
/// two values are both objects or both arrays, so the depth of the shallower
/// value bounds the depth of the calls.
pub fn calculate(left: Value, right: Value) -> (differences: Vec<Difference>)
    ensures
        difference_views(differences@) == diff(left@, right@),
        differences@.len() == 0 <==> equal_in_depth(left@, right@),
        left@ == right@ ==> differences@.len() == 0,
    decreases left@,
{
    let ghost original = left@;
    let ghost modified = right@;
    let differences = match (left, right) {
        (Value::Object(l), Value::Object(r)) => {
            assert(decreases_to!(original => original->Object_0));
            object_difference(l, r)
        },
        (Value::Array(l), Value::Array(r)) => {
            proof {
                array_view(l);
                array_view(r);
            }
            assert(decreases_to!(original => original->Array_0));
            array_difference(l, r)
        },
        (l, r) => {
            if same_kind(&l, &r) {
                primitive_difference(l, r)
            } else {
                type_difference(l, r)
            }
        },
    };
    proof {
        assert(difference_views(differences@).len() == differences@.len());
        if equal_in_depth(original, modified) {
            equal_values_differ_in_nothing(original, modified);
        }
        if differences@.len() == 0 {
            no_difference_means_equal(original, modified);
        }
    }
    differences
}

/// Both values are primitives of one kind.
pub open spec fn alike(left: ValueView, right: ValueView) -> bool {
    match (left, right) {
        (ValueView::Null, ValueView::Null) => true,
        (ValueView::Bool(_), ValueView::Bool(_)) => true,
        (ValueView::Number(_), ValueView::Number(_)) => true,
        (ValueView::String(_), ValueView::String(_)) => true,
        _ => false,
    }
}

/// Whether both values are primitives of one kind.
fn same_kind(left: &Value, right: &Value) -> (same: bool)
    ensures
        same == alike(left@, right@),
{
    match (left, right) {
        (Value::Null, Value::Null) => true,
        (Value::Bool(_), Value::Bool(_)) => true,
        (Value::Number(_), Value::Number(_)) => true,
        (Value::String(_), Value::String(_)) => true,
        _ => false,
    }
}

/// The one change between two values of different kinds.
fn type_difference(a: Value, b: Value) -> (differences: Vec<Difference>)
    ensures
        difference_views(differences@) == seq![
            DifferenceView::Changed { original: a@, modified: b@ },
        ],
{
    vec![Difference::change(a, b)]
}

/// The differences between two primitives of one kind: none when they are
/// equal, else the one change.
fn primitive_difference(n: Value, m: Value) -> (differences: Vec<Difference>)
    requires
        alike(n@, m@),
    ensures
        difference_views(differences@) == diff(n@, m@),
{
    let equal = match (&n, &m) {
        (Value::Null, Value::Null) => true,
        (Value::Bool(a), Value::Bool(b)) => *a == *b,
        (Value::Number(a), Value::Number(b)) => a.same_value(b),
        (Value::String(a), Value::String(b)) => *a == *b,
        _ => false,
    };
    if !equal {
        type_difference(n, m)
    } else {
        Vec::new()
    }
}

/// The object whose only field is `key` with `value`.
fn object_with(key: String, value: Value) -> (object: Value)
    ensures
        object@ == singleton(key@, value@),
{
    let mut the_object = Object::new();
    the_object.insert(key, value);
    Value::Object(the_object)
}

/// The differences between the object `left`, the original, and the object
/// `right`, the modified one, in the order that [`object_diff`] gives.
pub fn object_difference(left: Object, right: Object) -> (differences: Vec<Difference>)
    ensures
        difference_views(differences@) == object_diff(left@, right@),
        left@ == right@ ==> differences@.len() == 0,
    decreases left@,
{
    let ghost l = left@;
    let ghost r = right@;
    let left_entries = left.into_entries();
    let mut remaining = right.into_entries();
    let ghost entries = left_entries@;
    let mut differences: Vec<Difference> = Vec::new();
    assert(l.skip(0) =~= l);
    for entry in it: left_entries
        invariant
            it.seq() == entries,
            l == entry_views(entries),
            l == left@,
            difference_views(differences@) + in_one_pass(
                l.skip(it.index()),
                entry_views(remaining@),
            ) == in_one_pass(l, r),
            l == r ==> differences@.len() == 0 && entry_views(remaining@) == l.skip(it.index()),
    {
        let ghost i = it.index();
        let ghost rest = entry_views(remaining@);
        assert(l.skip(i).drop_first() =~= l.skip(i + 1));
        let (key, value) = entry;
        proof {
            key_position_is_first(rest, key@);
        }
        match find_key(&remaining, &key) {
            Some(position) => {
                let (_, other) = remaining.remove(position);
                assert(entry_views(remaining@) =~= rest.remove(position as int));
                let mut nested = calculate(value, other);
                differences.append(&mut nested);
            },
            None => {
                differences.push(Difference::Removed(object_with(key, value)));
            },
        }
    }
    let ghost matched = difference_views(differences@);
    let ghost unmatched = remaining@;
    let ghost added = entry_views(unmatched);
    for entry in it: remaining
        invariant
            it.seq() == unmatched,
            added == entry_views(unmatched),
            difference_views(differences@) == matched + added_fields(added).take(it.index()),
            l == r ==> differences@.len() == 0 && unmatched.len() == 0,
    {
        let ghost before = difference_views(differences@);
        let (key, value) = entry;
        differences.push(Difference::Added(object_with(key, value)));
        assert(difference_views(differences@) =~= before.push(
            DifferenceView::Added(singleton(key@, value@)),
        ));
    }
    proof {
        one_pass_finds_the_differences(l, r);
    }
    differences
}

/// The differences between the items `left_vals` of the original array and the
/// items `right_vals` of the modified one, in the order that [`array_diff`]
/// gives.
pub fn array_difference(left_vals: Vec<Value>, right_vals: Vec<Value>) -> (differences: Vec<
    Difference,
>)
    ensures
        difference_views(differences@) == array_diff(
            value_views(left_vals@),
            value_views(right_vals@),
        ),
        value_views(left_vals@) == value_views(right_vals@) ==> differences@.len() == 0,
    decreases value_views(left_vals@),
{
    let ghost ls = left_vals@;
    let ghost rs = right_vals@;
    let ghost l = value_views(ls);
    let ghost r = value_views(rs);
    let mut l_iter = VerusForLoopWrapper::new(left_vals.into_iter(), Ghost(None));
    let mut r_iter = VerusForLoopWrapper::new(right_vals.into_iter(), Ghost(None));
    let mut differences: Vec<Difference> = Vec::new();
    assert(l.skip(0) =~= l && r.skip(0) =~= r);
    loop
        invariant
            l_iter.wf(),
            r_iter.wf(),
            l_iter.seq() == ls,
            r_iter.seq() == rs,
            l == value_views(ls),
            r == value_views(rs),
            l == value_views(left_vals@),
            difference_views(differences@) + array_diff(
                l.skip(l_iter.index()),
                r.skip(r_iter.index()),
            ) == array_diff(l, r),
            l == r ==> differences@.len() == 0 && l_iter.index() == r_iter.index(),
        ensures
            difference_views(differences@) == array_diff(l, r),
            l == r ==> differences@.len() == 0,
        decreases ls.len() - l_iter.index() + rs.len() - r_iter.index(),
    {
        let ghost i = l_iter.index();
        let ghost j = r_iter.index();
        match (l_iter.next(), r_iter.next()) {
            (Some(v), Some(w)) => {
                assert(l.skip(i).drop_first() =~= l.skip(i + 1));
                assert(r.skip(j).drop_first() =~= r.skip(j + 1));
                let mut nested = calculate(v, w);
                differences.append(&mut nested);
            },
            (Some(v), None) => differences.push(Difference::Removed(v)),
            (None, Some(w)) => differences.push(Difference::Added(w)),
            (None, None) => break ,
        }
    }
    differences
}

} // verus!
