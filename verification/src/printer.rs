//! A compact text for a JSON value, for display.

use vstd::prelude::*;
use vstd::string::StringExecFns;
use crate::number::number_text;
use crate::value::{array_view, entry_views, value_views, Object, Value, ValueView};

verus! {

/// A text between quotation marks, taken as it is: nothing in it is escaped.
pub open spec fn quoted(text: Seq<char>) -> Seq<char> {
    "\""@ + text + "\""@
}

/// The compact text of a value.
pub open spec fn render(value: ValueView) -> Seq<char>
    decreases value,
{
    match value {
        ValueView::Null => "null"@,
        ValueView::Bool(b) => if b {
            "true"@
        } else {
            "false"@
        },
        ValueView::Number(n) => number_text(n),
        ValueView::String(s) => quoted(s),
        ValueView::Array(items) => "["@ + render_items(items) + "]"@,
        ValueView::Object(fields) => "{"@ + render_fields(fields) + "}"@,
    }
}

/// The texts of the items of an array, with a comma and a space between two
/// of them.
pub open spec fn render_items(items: Seq<ValueView>) -> Seq<char>
    decreases items,
{
    if items.len() == 0 {
        Seq::empty()
    } else if items.len() == 1 {
        render(items[0])
    } else {
        render(items[0]) + ", "@ + render_items(items.drop_first())
    }
}

/// The texts of the fields of an object, with nothing between two of them:
/// each is its key in quotation marks, a colon, and the text of its value.
pub open spec fn render_fields(fields: Seq<(Seq<char>, ValueView)>) -> Seq<char>
    decreases fields,
{
    if fields.len() == 0 {
        Seq::empty()
    } else {
        quoted(fields[0].0) + ":"@ + render(fields[0].1) + render_fields(fields.drop_first())
    }
}

/// The compact text of `val`.
pub fn stringify(val: Value) -> (output: String)
    ensures
        output@ == render(val@),
{
    let mut output = String::new();
    print(&mut output, val);
    output
}

/// Appends the compact text of `value` to `output`.
pub fn print(output: &mut String, value: Value)
    ensures
        final(output)@ == old(output)@ + render(value@),
    decreases value@,
{
    let ghost shown = value@;
    match value {
        Value::Null => output.append("null"),
        Value::Bool(b) => if b {
            output.append("true")
        } else {
            output.append("false")
        },
        Value::Number(n) => {
            let text = n.to_text();
            output.append(text.as_str())
        },
        Value::String(n) => string(output, n.as_str()),
        Value::Array(values) => {
            proof {
                array_view(values);
            }
            assert(decreases_to!(shown => shown->Array_0));
            print_array(output, values)
        },
        Value::Object(object) => {
            assert(decreases_to!(shown => shown->Object_0));
            print_object(output, object)
        },
    }
}

/// Appends the compact text of the object to `output`.
pub fn print_object(output: &mut String, object: Object)
    ensures
        final(output)@ == old(output)@ + render(ValueView::Object(object@)),
    decreases object@,
{
    let ghost fields = object@;
    let ghost start = output@;
    let entries = object.into_entries();
    let ghost shown = entries@;
    output.append("{");
    assert(fields.skip(0) =~= fields);
    for entry in it: entries
        invariant
            it.seq() == shown,
            fields == entry_views(shown),
            fields == object@,
            output@ + render_fields(fields.skip(it.index())) == start + "{"@ + render_fields(fields),
    {
        let ghost i = it.index();
        assert(fields.skip(i).drop_first() =~= fields.skip(i + 1));
        let (key, value) = entry;
        string(output, key.as_str());
        output.append(":");
        print(output, value);
    }
    output.append("}");
}

/// Appends the compact text of the array to `output`.
pub fn print_array(output: &mut String, values: Vec<Value>)
    ensures
        final(output)@ == old(output)@ + render(ValueView::Array(value_views(values@))),
    decreases value_views(values@),
{
    let ghost shown = values@;
    let ghost items = value_views(shown);
    let ghost start = output@;
    output.append("[");
    let number_of_items = values.len();
    let mut current: usize = 0;
    assert(items.skip(0) =~= items);
    for value in it: values
        invariant
            it.seq() == shown,
            items == value_views(shown),
            items == value_views(values@),
            number_of_items == shown.len(),
            current == it.index(),
            output@ + render_items(items.skip(it.index())) == start + "["@ + render_items(items),
    {
        let ghost i = it.index();
        assert(items.skip(i).drop_first() =~= items.skip(i + 1));
        print(output, value);
        if current != number_of_items - 1 {
            output.append(", ");
        }
        current += 1;
    }
    output.append("]");
}

/// Appends `value` between quotation marks to `output`.
pub fn string(output: &mut String, value: &str)
    ensures
        final(output)@ == old(output)@ + quoted(value@),
{
    output.append("\"");
    output.append(value);
    output.append("\"");
}

} // verus!
