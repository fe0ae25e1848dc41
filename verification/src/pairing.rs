//! How one pass over the fields of two objects finds their differences.

use vstd::prelude::*;
use crate::diff::{
    added_fields, diff, field_diff, fields_diff, fields_missing_from, object_diff, singleton,
    DifferenceView,
};
use crate::value::{
    distinct_keys, has_key, key_position, key_position_after_remove, key_position_is_first,
    ValueView,
};

verus! {

/// The differences that one pass finds. Each field of `left` in turn takes
/// the field with its key out of `right` and is compared with it, or was
/// removed when `right` has none; what is left of `right` at the end was
/// added.
pub open spec fn in_one_pass(
    left: Seq<(Seq<char>, ValueView)>,
    right: Seq<(Seq<char>, ValueView)>,
) -> Seq<DifferenceView>
    decreases left.len(),
{
    if left.len() == 0 {
        added_fields(right)
    } else if has_key(right, left[0].0) {
        diff(left[0].1, right[key_position(right, left[0].0)].1) + in_one_pass(
            left.drop_first(),
            right.remove(key_position(right, left[0].0)),
        )
    } else {
        seq![DifferenceView::Removed(singleton(left[0].0, left[0].1))] + in_one_pass(
            left.drop_first(),
            right,
        )
    }
}

/// Where no key occurs twice, one pass finds the differences between two
/// objects, in their order.
pub proof fn one_pass_finds_the_differences(
    left: Seq<(Seq<char>, ValueView)>,
    right: Seq<(Seq<char>, ValueView)>,
)
    requires
        distinct_keys(left),
        distinct_keys(right),
    ensures
        in_one_pass(left, right) == object_diff(left, right),
    decreases left.len(),
{
    if left.len() == 0 {
        nothing_is_missing_from_nothing(left, right);
    } else {
        let key = left[0].0;
        let rest = left.drop_first();
        key_position_is_first(right, key);
        if has_key(right, key) {
            let p = key_position(right, key);
            let others = right.remove(p);
            one_pass_finds_the_differences(rest, others);
            lookups_ignore_a_foreign_field(rest, right, p);
            one_key_more_on_the_left(left, others);
            matched_field_is_not_missing(left, right, p);
        } else {
            one_pass_finds_the_differences(rest, right);
            one_key_more_on_the_left(left, right);
        }
    }
}

/// Every field is missing from an object without fields.
proof fn nothing_is_missing_from_nothing(
    left: Seq<(Seq<char>, ValueView)>,
    right: Seq<(Seq<char>, ValueView)>,
)
    requires
        left.len() == 0,
    ensures
        fields_missing_from(left, right) == right,
    decreases right.len(),
{
    if right.len() > 0 {
        nothing_is_missing_from_nothing(left, right.drop_first());
    }
}

/// Looking the fields of `left` up in `right` gives the same with and without
/// a field of `right` whose key `left` does not hold.
proof fn lookups_ignore_a_foreign_field(
    left: Seq<(Seq<char>, ValueView)>,
    right: Seq<(Seq<char>, ValueView)>,
    removed: int,
)
    requires
        0 <= removed < right.len(),
        forall|i: int| 0 <= i < left.len() ==> (#[trigger] left[i]).0 != right[removed].0,
    ensures
        fields_diff(left, right.remove(removed)) == fields_diff(left, right),
    decreases left.len(),
{
    if left.len() > 0 {
        key_position_after_remove(right, removed, left[0].0);
        assert(field_diff(left[0], right.remove(removed)) == field_diff(left[0], right));
        lookups_ignore_a_foreign_field(left.drop_first(), right, removed);
    }
}

/// What is missing from `left` is what is missing from `left` without its
/// first field, as long as `right` does not hold that field's key.
proof fn one_key_more_on_the_left(
    left: Seq<(Seq<char>, ValueView)>,
    right: Seq<(Seq<char>, ValueView)>,
)
    requires
        left.len() > 0,
        forall|j: int| 0 <= j < right.len() ==> (#[trigger] right[j]).0 != left[0].0,
    ensures
        fields_missing_from(left, right) == fields_missing_from(left.drop_first(), right),
    decreases right.len(),
{
    if right.len() > 0 {
        let rest = left.drop_first();
        let key = right[0].0;
        if has_key(left, key) {
            let i = choose|i: int| 0 <= i < left.len() && left[i].0 == key;
            assert(rest[i - 1] == left[i]);
        }
        one_key_more_on_the_left(left, right.drop_first());
    }
}

/// A field of `right` whose key `left` holds is not among the missing ones.
proof fn matched_field_is_not_missing(
    left: Seq<(Seq<char>, ValueView)>,
    right: Seq<(Seq<char>, ValueView)>,
    matched: int,
)
    requires
        0 <= matched < right.len(),
        has_key(left, right[matched].0),
    ensures
        fields_missing_from(left, right.remove(matched)) == fields_missing_from(left, right),
    decreases right.len(),
{
    if matched > 0 {
        assert(right.remove(matched).drop_first() =~= right.drop_first().remove(matched - 1));
        matched_field_is_not_missing(left, right.drop_first(), matched - 1);
    }
}

} // verus!
