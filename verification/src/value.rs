//! The JSON value tree and its mathematical model.

use vstd::prelude::*;
use crate::number::{Number, NumberView};

verus! {

/// The mathematical value of a [`Value`]: the same tree over sequences.
pub enum ValueView {
    Null,
    Bool(bool),
    Number(NumberView),
    String(Seq<char>),
    Array(Seq<ValueView>),
    /// The fields of an object, each a key with its value, in the order in
    /// which they were first inserted.
    Object(Seq<(Seq<char>, ValueView)>),
}

/// A JSON object: fields in insertion order, no key twice.
#[derive(Debug, PartialEq)]
pub struct Object {
    entries: Vec<(String, Value)>,
}

/// A JSON value.
#[derive(Debug, PartialEq)]
pub enum Value {
    Null,
    Bool(bool),
    Number(Number),
    String(String),
    Array(Vec<Value>),
    Object(Object),
}

/// The values of a sequence of trees, one by one.
pub open spec fn value_views(items: Seq<Value>) -> Seq<ValueView> {
    Seq::new(items.len(), |i: int| items[i]@)
}

/// The values of a sequence of fields, one by one.
pub open spec fn entry_views(entries: Seq<(String, Value)>) -> Seq<(Seq<char>, ValueView)> {
    Seq::new(entries.len(), |i: int| (entries[i].0@, entries[i].1@))
}

/// No key occurs twice among the fields.
pub open spec fn distinct_keys(fields: Seq<(Seq<char>, ValueView)>) -> bool {
    forall|i: int, j: int| 0 <= i < j < fields.len() ==> fields[i].0 != fields[j].0
}

/// Some field has the key.
pub open spec fn has_key(fields: Seq<(Seq<char>, ValueView)>, key: Seq<char>) -> bool {
    exists|i: int| 0 <= i < fields.len() && fields[i].0 == key
}

/// The position of the first field with the key; `fields.len()` when there is
/// none.
pub open spec fn key_position(fields: Seq<(Seq<char>, ValueView)>, key: Seq<char>) -> int
    decreases fields.len(),
{
    if fields.len() == 0 {
        0
    } else if fields[0].0 == key {
        0
    } else {
        1 + key_position(fields.drop_first(), key)
    }
}

/// The value of a tree.
pub open spec fn tree(value: Value) -> ValueView
    decreases value,
{
    match value {
        Value::Null => ValueView::Null,
        Value::Bool(b) => ValueView::Bool(b),
        Value::Number(n) => ValueView::Number(n@),
        Value::String(s) => ValueView::String(s@),
        Value::Array(items) => ValueView::Array(
            Seq::new(
                items@.len(),
                |i: int|
                    if 0 <= i < items@.len() {
                        tree(items@[i])
                    } else {
                        ValueView::Null
                    },
            ),
        ),
        Value::Object(object) => ValueView::Object(fields(object)),
    }
}

/// The fields of an object.
pub closed spec fn fields(object: Object) -> Seq<(Seq<char>, ValueView)>
    decreases object,
{
    Seq::new(
        object.entries@.len(),
        |i: int|
            if 0 <= i < object.entries@.len() {
                (object.entries@[i].0@, tree(object.entries@[i].1))
            } else {
                (Seq::empty(), ValueView::Null)
            },
    )
}

impl View for Value {
    type V = ValueView;

    open spec fn view(&self) -> ValueView {
        tree(*self)
    }
}

impl View for Object {
    type V = Seq<(Seq<char>, ValueView)>;

    open spec fn view(&self) -> Seq<(Seq<char>, ValueView)> {
        fields(*self)
    }
}

/// An array's value is the sequence of its items' values.
pub proof fn array_view(items: Vec<Value>)
    ensures
        Value::Array(items)@ == ValueView::Array(value_views(items@)),
{
    reveal_with_fuel(tree, 2);
    assert(Value::Array(items)@->Array_0 =~= value_views(items@));
}

/// What [`key_position`] finds: the first field with the key, if there is one.
pub proof fn key_position_is_first(fields: Seq<(Seq<char>, ValueView)>, key: Seq<char>)
    ensures
        0 <= key_position(fields, key) <= fields.len(),
        key_position(fields, key) < fields.len() <==> has_key(fields, key),
        key_position(fields, key) < fields.len() ==> fields[key_position(fields, key)].0 == key,
        forall|j: int| 0 <= j < key_position(fields, key) ==> fields[j].0 != key,
    decreases fields.len(),
{
    if fields.len() > 0 && fields[0].0 != key {
        let rest = fields.drop_first();
        key_position_is_first(rest, key);
        let p = key_position(rest, key);
        assert forall|j: int| 0 <= j < 1 + p implies fields[j].0 != key by {
            if j > 0 {
                assert(fields[j] == rest[j - 1]);
            }
        }
    }
}

/// Taking a field out of a sequence leaves every other key where a lookup
/// finds it, with the value it had.
pub proof fn key_position_after_remove(
    fields: Seq<(Seq<char>, ValueView)>,
    removed: int,
    key: Seq<char>,
)
    requires
        0 <= removed < fields.len(),
        fields[removed].0 != key,
    ensures
        has_key(fields.remove(removed), key) == has_key(fields, key),
        has_key(fields, key) ==> fields.remove(removed)[key_position(fields.remove(removed), key)]
            == fields[key_position(fields, key)],
        key_position(fields.remove(removed), key) == if key_position(fields, key) < removed {
            key_position(fields, key)
        } else {
            key_position(fields, key) - 1
        },
{
    let rest = fields.remove(removed);
    let p = key_position(fields, key);
    key_position_is_first(fields, key);
    key_position_is_first(rest, key);
    if has_key(fields, key) {
        let at = if p < removed { p } else { p - 1 };
        assert(rest[at] == fields[p]);
    }
}

/// The fields after `key` is set to `value`: the field with that key gets the
/// new value where it stands, and a new key goes to the end.
pub open spec fn with_field(
    fields: Seq<(Seq<char>, ValueView)>,
    key: Seq<char>,
    value: ValueView,
) -> Seq<(Seq<char>, ValueView)> {
    if has_key(fields, key) {
        fields.update(key_position(fields, key), (key, value))
    } else {
        fields.push((key, value))
    }
}

/// Setting a field keeps the keys distinct.
pub proof fn with_field_keeps_keys_distinct(
    fields: Seq<(Seq<char>, ValueView)>,
    key: Seq<char>,
    value: ValueView,
)
    requires
        distinct_keys(fields),
    ensures
        distinct_keys(with_field(fields, key, value)),
{
    key_position_is_first(fields, key);
}

/// Setting a field to a valid value keeps an object valid.
pub proof fn with_field_keeps_object_valid(
    fields: Seq<(Seq<char>, ValueView)>,
    key: Seq<char>,
    value: ValueView,
)
    requires
        ValueView::Object(fields).wf(),
        value.wf(),
    ensures
        ValueView::Object(with_field(fields, key, value)).wf(),
{
    key_position_is_first(fields, key);
    with_field_keeps_keys_distinct(fields, key, value);
}

/// The position of the first entry with the key, if there is one.
pub fn find_key(entries: &Vec<(String, Value)>, key: &String) -> (found: Option<usize>)
    ensures
        match found {
            Some(position) => position < entries@.len() && position == key_position(
                entry_views(entries@),
                key@,
            ),
            None => key_position(entry_views(entries@), key@) == entries@.len(),
        },
{
    let ghost fields = entry_views(entries@);
    let mut i: usize = 0;
    while i < entries.len()
        invariant
            i <= entries@.len(),
            fields == entry_views(entries@),
            forall|j: int| 0 <= j < i ==> fields[j].0 != key@,
        decreases entries@.len() - i,
    {
        if entries[i].0 == *key {
            assert(fields[i as int].0 == key@);
            proof {
                key_position_is_first(fields, key@);
            }
            return Some(i);
        }
        i += 1;
    }
    proof {
        key_position_is_first(fields, key@);
    }
    None
}

/// Sets the entry `key` to `value` and returns the value that the key had.
fn set_entry(entries: &mut Vec<(String, Value)>, key: String, value: Value) -> (previous: Option<
    Value,
>)
    ensures
        entry_views(final(entries)@) == with_field(entry_views(old(entries)@), key@, value@),
        previous is Some <==> has_key(entry_views(old(entries)@), key@),
        previous is Some ==> previous->0@ == entry_views(old(entries)@)[key_position(
            entry_views(old(entries)@),
            key@,
        )].1,
{
    let ghost before = entry_views(entries@);
    proof {
        key_position_is_first(before, key@);
    }
    let found = find_key(entries, &key);
    entries.push((key, value));
    match found {
        Some(position) => Some(entries.swap_remove(position).1),
        None => None,
    }
}

impl Object {
    #[verifier::type_invariant]
    spec fn keys_are_distinct(self) -> bool {
        distinct_keys(fields(self))
    }

    /// The object without fields.
    pub fn new() -> (object: Object)
        ensures
            object@ == Seq::<(Seq<char>, ValueView)>::empty(),
            ValueView::Object(object@).wf(),
    {
        let entries = Vec::new();
        proof {
            fields_are_entries(entries);
        }
        Object { entries }
    }

    /// Sets the field `key` to `value` and returns the value that the key had.
    /// A valid object stays valid when the value is valid.
    pub fn insert(&mut self, key: String, value: Value) -> (previous: Option<Value>)
        ensures
            final(self)@ == with_field(old(self)@, key@, value@),
            previous is Some <==> has_key(old(self)@, key@),
            previous is Some ==> previous->0@ == old(self)@[key_position(old(self)@, key@)].1,
            ValueView::Object(old(self)@).wf() && value@.wf() ==> ValueView::Object(
                final(self)@,
            ).wf(),
    {
        let mut taken = Object::new();
        std::mem::swap(self, &mut taken);
        let mut entries = taken.into_entries();
        proof {
            with_field_keeps_keys_distinct(entry_views(entries@), key@, value@);
            if ValueView::Object(old(self)@).wf() && value@.wf() {
                with_field_keeps_object_valid(old(self)@, key@, value@);
            }
        }
        let previous = set_entry(&mut entries, key, value);
        proof {
            fields_are_entries(entries);
        }
        *self = Object { entries };
        previous
    }

    /// The fields, in their order. No key occurs twice among them.
    pub fn entries(&self) -> (entries: &Vec<(String, Value)>)
        ensures
            entry_views(entries@) == self@,
            distinct_keys(entry_views(entries@)),
    {
        proof {
            use_type_invariant(self);
            fields_are_entries(self.entries);
        }
        &self.entries
    }

    /// The fields, in their order. No key occurs twice among them.
    pub fn into_entries(self) -> (entries: Vec<(String, Value)>)
        ensures
            entry_views(entries@) == self@,
            distinct_keys(entry_views(entries@)),
    {
        proof {
            use_type_invariant(&self);
            fields_are_entries(self.entries);
        }
        self.entries
    }
}

/// The fields of an object are the values of its entries.
proof fn fields_are_entries(entries: Vec<(String, Value)>)
    ensures
        fields(Object { entries }) == entry_views(entries@),
{
    reveal_with_fuel(tree, 2);
}

impl Clone for Value {
    /// A copy of the value, in depth.
    fn clone(&self) -> (copy: Value)
        ensures
            copy@ == self@,
        decreases self@,
    {
        match self {
            Value::Null => Value::Null,
            Value::Bool(b) => Value::Bool(*b),
            Value::Number(n) => Value::Number(n.clone()),
            Value::String(s) => Value::String(s.clone()),
            Value::Array(items) => {
                proof {
                    array_view(*items);
                }
                let mut copies: Vec<Value> = Vec::new();
                let mut i: usize = 0;
                while i < items.len()
                    invariant
                        i <= items@.len(),
                        copies@.len() == i,
                        self@ == ValueView::Array(value_views(items@)),
                        forall|j: int| 0 <= j < i ==> copies@[j]@ == items@[j]@,
                    decreases items@.len() - i,
                {
                    assert(value_views(items@)[i as int] == items@[i as int]@);
                    assert(decreases_to!(self@ => self@->Array_0));
                    copies.push(items[i].clone());
                    i += 1;
                }
                proof {
                    array_view(copies);
                    assert(value_views(copies@) =~= value_views(items@));
                }
                Value::Array(copies)
            },
            Value::Object(object) => {
                assert(decreases_to!(self@ => self@->Object_0));
                Value::Object(object.clone())
            },
        }
    }
}

impl Clone for Object {
    /// A copy of the object, in depth.
    fn clone(&self) -> (copy: Object)
        ensures
            copy@ == self@,
        decreases self@,
    {
        let entries = self.entries();
        let mut copies: Vec<(String, Value)> = Vec::new();
        let mut i: usize = 0;
        while i < entries.len()
            invariant
                i <= entries@.len(),
                copies@.len() == i,
                entry_views(entries@) == self@,
                distinct_keys(entry_views(entries@)),
                forall|j: int| 0 <= j < i ==> copies@[j].0@ == entries@[j].0@ && copies@[j].1@ == entries@[j].1@,
            decreases entries@.len() - i,
        {
            assert(decreases_to!(self@[i as int] => self@[i as int].1));
            copies.push((entries[i].0.clone(), entries[i].1.clone()));
            i += 1;
        }
        proof {
            assert(entry_views(copies@) =~= entry_views(entries@));
            fields_are_entries(copies);
        }
        Object { entries: copies }
    }
}

impl ValueView {
    /// No object anywhere in the tree holds a key twice.
    pub open spec fn wf(self) -> bool
        decreases self,
    {
        match self {
            ValueView::Array(items) => forall|i: int| 0 <= i < items.len() ==> (#[trigger] items[i]).wf(),
            ValueView::Object(fields) => distinct_keys(fields) && forall|i: int|
                0 <= i < fields.len() ==> (#[trigger] fields[i]).1.wf(),
            _ => true,
        }
    }
}

} // verus!
