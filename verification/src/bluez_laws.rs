//! What holds of the listings of a device's objects: they are in order, they
//! are complete, and they do not depend on the order in which BlueZ names the
//! objects.

use crate::bluez;
use crate::bluez::ManagedObject;
use crate::text;
use vstd::prelude::*;

verus! {

/// The paths stand in the order of code points.
pub open spec fn is_ordered(objects: Seq<ManagedObject>) -> bool {
    forall|i: int, j: int|
        0 <= i <= j < objects.len() ==> text::text_le(
            (#[trigger] objects[i]).path@,
            (#[trigger] objects[j]).path@,
        )
}

/// No two objects have the same path.
pub open spec fn has_distinct_paths(objects: Seq<ManagedObject>) -> bool {
    forall|i: int, j: int|
        0 <= i < objects.len() && 0 <= j < objects.len() && (#[trigger] objects[i]).path@ == (
        #[trigger] objects[j]).path@ ==> i == j
}

proof fn lemma_insert_keeps_order(objects: Seq<ManagedObject>, object: ManagedObject)
    requires
        is_ordered(objects),
    ensures
        is_ordered(bluez::insert_by_path(objects, object)),
        forall|i: int|
            0 <= i <= objects.len() ==> ({
                let inserted = #[trigger] bluez::insert_by_path(objects, object)[i];
                inserted == object || objects.contains(inserted)
            }),
        bluez::insert_by_path(objects, object).len() == objects.len() + 1,
        bluez::insert_by_path(objects, object).to_multiset() == objects.to_multiset().insert(
            object,
        ),
    decreases objects.len(),
{
    broadcast use vstd::seq_lib::group_to_multiset_ensures;

    let inserted = bluez::insert_by_path(objects, object);
    if objects.len() == 0 || text::text_le(objects.last().path@, object.path@) {
        text::lemma_text_le_total(object.path@, object.path@);
        assert forall|i: int, j: int| 0 <= i <= j < inserted.len() implies text::text_le(
            (#[trigger] inserted[i]).path@,
            (#[trigger] inserted[j]).path@,
        ) by {
            if i < objects.len() && j == objects.len() {
                assert(text::text_le(objects[i].path@, objects[objects.len() - 1].path@));
                text::lemma_text_le_transitive(
                    objects[i].path@,
                    objects.last().path@,
                    object.path@,
                );
            }
        }
    } else {
        let before = objects.drop_last();
        lemma_insert_keeps_order(before, object);
        let smaller = bluez::insert_by_path(before, object);
        text::lemma_text_le_total(objects.last().path@, object.path@);
        text::lemma_text_le_total(objects.last().path@, objects.last().path@);
        assert forall|i: int| 0 <= i < smaller.len() implies text::text_le(
            (#[trigger] smaller[i]).path@,
            objects.last().path@,
        ) && (smaller[i] == object || objects.contains(smaller[i])) by {
            if smaller[i] != object {
                assert(before.contains(smaller[i]));
                let k = before.index_of(smaller[i]);
                assert(before[k] == objects[k]);
                assert(text::text_le(objects[k].path@, objects[objects.len() - 1].path@));
            }
        }
        assert(objects.contains(objects.last()));
        assert(before.push(objects.last()) =~= objects);
    }
}

proof fn lemma_sort(objects: Seq<ManagedObject>)
    ensures
        is_ordered(bluez::sort_by_path(objects)),
        bluez::sort_by_path(objects).to_multiset() == objects.to_multiset(),
    decreases objects.len(),
{
    broadcast use vstd::seq_lib::group_to_multiset_ensures;

    if objects.len() > 0 {
        lemma_sort(objects.drop_last());
        lemma_insert_keeps_order(bluez::sort_by_path(objects.drop_last()), objects.last());
        assert(objects.drop_last().push(objects.last()) =~= objects);
    } else {
        assert(objects =~= Seq::empty());
    }
}

/// The objects that a report lists stand in the order of their paths.
pub proof fn law_listing_is_ordered(objects: Seq<ManagedObject>, device: Seq<char>)
    ensures
        is_ordered(bluez::objects_below(objects, device)),
{
    lemma_sort(objects.filter(|object: ManagedObject| bluez::is_below(object.path@, device)));
}

proof fn lemma_filter_count(
    objects: Seq<ManagedObject>,
    keep: spec_fn(ManagedObject) -> bool,
    object: ManagedObject,
)
    ensures
        objects.filter(keep).to_multiset().count(object) == (if keep(object) {
            objects.to_multiset().count(object)
        } else {
            0
        }),
    decreases objects.len(),
{
    broadcast use vstd::seq_lib::group_to_multiset_ensures;

    reveal(Seq::filter);
    if objects.len() > 0 {
        lemma_filter_count(objects.drop_last(), keep, object);
        assert(objects.drop_last().push(objects.last()) =~= objects);
    }
}

/// A report lists every object below the device, and nothing else, each as
/// often as BlueZ names it.
pub proof fn law_listing_is_complete(
    objects: Seq<ManagedObject>,
    device: Seq<char>,
    object: ManagedObject,
)
    ensures
        bluez::objects_below(objects, device).to_multiset().count(object) == (if bluez::is_below(
            object.path@,
            device,
        ) {
            objects.to_multiset().count(object)
        } else {
            0
        }),
{
    let keep = |object: ManagedObject| bluez::is_below(object.path@, device);
    lemma_sort(objects.filter(keep));
    lemma_filter_count(objects, keep, object);
}

proof fn lemma_one_order(left: Seq<ManagedObject>, right: Seq<ManagedObject>)
    requires
        is_ordered(left),
        is_ordered(right),
        has_distinct_paths(left),
        left.to_multiset() == right.to_multiset(),
    ensures
        left == right,
    decreases left.len(),
{
    broadcast use vstd::seq_lib::group_to_multiset_ensures;

    assert(left.len() == left.to_multiset().len());
    assert(right.len() == right.to_multiset().len());
    if left.len() == 0 {
        assert(left =~= right);
    } else {
        let a = left.last();
        let b = right.last();
        assert(left.contains(a));
        assert(right.contains(b));
        assert(left.to_multiset().count(a) > 0);
        assert(right.to_multiset().count(b) > 0);
        assert(right.to_multiset().count(a) > 0);
        assert(left.to_multiset().count(b) > 0);
        let i = left.index_of(b);
        let j = right.index_of(a);
        assert(text::text_le(left[i].path@, left[left.len() - 1].path@));
        assert(text::text_le(right[j].path@, right[right.len() - 1].path@));
        text::lemma_text_le_antisymmetric(a.path@, b.path@);
        assert(left[i].path@ == left[left.len() - 1].path@);
        assert(a == b);
        assert(left.drop_last().push(a) =~= left);
        assert(right.drop_last().push(a) =~= right);
        assert(left.drop_last().to_multiset() =~= left.to_multiset().remove(a));
        assert(right.drop_last().to_multiset() =~= right.to_multiset().remove(a));
        lemma_one_order(left.drop_last(), right.drop_last());
    }
}

proof fn lemma_distinct_by_count(left: Seq<ManagedObject>, right: Seq<ManagedObject>)
    requires
        has_distinct_paths(left),
        forall|object: ManagedObject|
            #[trigger] right.to_multiset().count(object) <= left.to_multiset().count(object),
    ensures
        has_distinct_paths(right),
{
    broadcast use vstd::seq_lib::group_to_multiset_ensures;

    assert forall|i: int, j: int|
        0 <= i < right.len() && 0 <= j < right.len() && (#[trigger] right[i]).path@ == (
        #[trigger] right[j]).path@ implies i == j by {
        assert(right.contains(right[i]));
        assert(right.contains(right[j]));
        assert(right.to_multiset().count(right[i]) > 0);
        assert(right.to_multiset().count(right[j]) > 0);
        assert(left.contains(right[i]));
        assert(left.contains(right[j]));
        let k = left.index_of(right[i]);
        let l = left.index_of(right[j]);
        assert(left[k].path@ == left[l].path@);
        assert(right[i] == right[j]);
        if i != j {
            let object = right[i];
            assert(left.no_duplicates());
            left.lemma_multiset_has_no_duplicates();
            assert(left.to_multiset().count(object) <= 1);
            lemma_twice(right, i, j);
        }
    }
}

proof fn lemma_twice(objects: Seq<ManagedObject>, i: int, j: int)
    requires
        0 <= i < objects.len(),
        0 <= j < objects.len(),
        i != j,
        objects[i] == objects[j],
    ensures
        objects.to_multiset().count(objects[i]) >= 2,
{
    broadcast use vstd::seq_lib::group_to_multiset_ensures;

    let rest = objects.remove(i);
    assert(objects.to_multiset() =~= rest.to_multiset().insert(objects[i]));
    let k = if j < i {
        j
    } else {
        j - 1
    };
    assert(rest[k] == objects[j]);
    assert(rest.contains(objects[i]));
    assert(rest.to_multiset().count(objects[i]) > 0);
}

/// What a report lists does not depend on the order in which BlueZ names the
/// objects, whose paths are distinct.
pub proof fn law_listing_ignores_the_order(
    objects: Seq<ManagedObject>,
    shuffled: Seq<ManagedObject>,
    device: Seq<char>,
)
    requires
        has_distinct_paths(objects),
        objects.to_multiset() == shuffled.to_multiset(),
    ensures
        bluez::objects_below(objects, device) == bluez::objects_below(shuffled, device),
{
    let left = bluez::objects_below(objects, device);
    let right = bluez::objects_below(shuffled, device);
    law_listing_is_ordered(objects, device);
    law_listing_is_ordered(shuffled, device);
    assert forall|object: ManagedObject| #[trigger] left.to_multiset().count(object)
        == right.to_multiset().count(object) && left.to_multiset().count(object)
        <= objects.to_multiset().count(object) by {
        law_listing_is_complete(objects, device, object);
        law_listing_is_complete(shuffled, device, object);
    }
    assert(left.to_multiset() =~= right.to_multiset());
    lemma_distinct_by_count(objects, left);
    lemma_one_order(left, right);
}

} // verus!
