//! Which listed objects are orphans.

use vstd::prelude::*;
use crate::listing::{is_stable_sort, ObjectListing, sort_by_key};
use crate::string_set::StringSet;
use crate::time::{Duration, SystemTime};

verus! {

/// The objects in a storage listing split by what the collector may do with
/// them.
#[derive(Debug, PartialEq, Eq)]
pub struct OrphanSelection {
    /// Unreferenced objects old enough to delete, sorted by key.
    pub orphans: Vec<ObjectListing>,
    /// Objects whose key appears in the keep set.
    pub referenced: usize,
    /// Unreferenced objects younger than the minimum age (or with a
    /// modification time in the future).
    pub too_young: usize,
}

impl Default for OrphanSelection {
    fn default() -> (r: OrphanSelection)
        ensures
            r.orphans@ == Seq::<ObjectListing>::empty(),
            r.referenced == 0,
            r.too_young == 0,
    {
        OrphanSelection { orphans: Vec::new(), referenced: 0, too_young: 0 }
    }
}

/// The keep set holds the key of the object.
pub open spec fn is_referenced(object: ObjectListing, keep: Set<Seq<char>>) -> bool {
    keep.contains(object.key@)
}

/// At `now` the object was last modified at least `min_age` ago. One modified
/// after `now` is not.
pub open spec fn is_old_enough(object: ObjectListing, now: SystemTime, min_age: Duration) -> bool {
    now@ - object.last_modified@ >= min_age@
}

/// Unreferenced and old enough to delete.
pub open spec fn is_orphan(
    object: ObjectListing,
    keep: Set<Seq<char>>,
    now: SystemTime,
    min_age: Duration,
) -> bool {
    !is_referenced(object, keep) && is_old_enough(object, now, min_age)
}

/// The objects that the keep set references.
pub open spec fn referenced_of(listing: Seq<ObjectListing>, keep: Set<Seq<char>>) -> Seq<
    ObjectListing,
> {
    listing.filter(|object: ObjectListing| is_referenced(object, keep))
}

/// The unreferenced objects that are too young to touch.
pub open spec fn too_young_of(
    listing: Seq<ObjectListing>,
    keep: Set<Seq<char>>,
    now: SystemTime,
    min_age: Duration,
) -> Seq<ObjectListing> {
    listing.filter(
        |object: ObjectListing|
            !is_referenced(object, keep) && !is_old_enough(object, now, min_age),
    )
}

/// The orphans, in the order in which they are listed.
pub open spec fn orphans_of(
    listing: Seq<ObjectListing>,
    keep: Set<Seq<char>>,
    now: SystemTime,
    min_age: Duration,
) -> Seq<ObjectListing> {
    listing.filter(|object: ObjectListing| is_orphan(object, keep, now, min_age))
}

/// `selection` splits `listing` into referenced objects, unreferenced ones too
/// young to touch, and orphans.
pub open spec fn selects(
    selection: OrphanSelection,
    listing: Seq<ObjectListing>,
    keep: Set<Seq<char>>,
    now: SystemTime,
    min_age: Duration,
) -> bool {
    &&& selection.referenced == referenced_of(listing, keep).len()
    &&& selection.too_young == too_young_of(listing, keep, now, min_age).len()
    &&& is_stable_sort(orphans_of(listing, keep, now, min_age), selection.orphans@)
    &&& selection.orphans@.len() == orphans_of(listing, keep, now, min_age).len()
}

/// What the collector may do with an object.
#[derive(Clone, Copy, Debug, PartialEq, Eq, Structural)]
pub enum Standing {
    /// Its key appears in the keep set.
    Referenced,
    /// Unreferenced but younger than the minimum age.
    TooYoung,
    /// Unreferenced and old enough to delete.
    Orphan,
}

/// What the collector may do with `object`.
pub fn standing(
    object: &ObjectListing,
    keep: &StringSet,
    now: SystemTime,
    min_age: Duration,
) -> (standing: Standing)
    ensures
        standing == Standing::Referenced <==> is_referenced(*object, keep@),
        standing == Standing::Orphan <==> is_orphan(*object, keep@, now, min_age),
        standing == Standing::Referenced <==> keep@.contains(object.key@),
        standing == Standing::Orphan <==> !keep@.contains(object.key@) && now.nanos
            - object.last_modified.nanos >= min_age.nanos,
{
    if keep.contains(object.key.as_str()) {
        return Standing::Referenced;
    }
    let old_enough: bool = match now.duration_since(object.last_modified) {
        Some(age) => age.nanos >= min_age.nanos,
        // Modified in the future relative to our clock: skewed clocks or a
        // write in progress. Either way, not something to delete.
        None => false,
    };
    if old_enough {
        Standing::Orphan
    } else {
        Standing::TooYoung
    }
}

/// Split `listing` into referenced objects, unreferenced objects that are too
/// young to touch, and orphans.
///
/// `now` must have been read before the keep set was built: an object that
/// finished uploading after that instant may legitimately be missing from the
/// keep set, and is protected here purely by its age.
pub fn select_orphans(
    listing: Vec<ObjectListing>,
    keep: &StringSet,
    now: SystemTime,
    min_age: Duration,
) -> (selection: OrphanSelection)
    ensures
        selects(selection, listing@, keep@, now, min_age),
{
    let ghost objects = listing@;
    let mut selection = OrphanSelection::default();
    let mut orphans: Vec<ObjectListing> = Vec::new();
    reveal(Seq::filter);
    let total: usize = listing.len();
    for object in it: listing
        invariant
            it.seq() == objects,
            total == objects.len(),
            selection.referenced == referenced_of(objects.take(it.index()), keep@).len(),
            selection.too_young == too_young_of(objects.take(it.index()), keep@, now, min_age).len(),
            orphans@ == orphans_of(objects.take(it.index()), keep@, now, min_age),
            selection.referenced + selection.too_young + orphans@.len() == it.index(),
    {
        reveal(Seq::filter);
        let ghost before = objects.take(it.index());
        let ghost after = objects.take(it.index() + 1);
        assert(after.drop_last() =~= before);
        assert(after.last() == object);
        match standing(&object, keep, now, min_age) {
            Standing::Referenced => {
                selection.referenced = selection.referenced + 1;
            },
            Standing::TooYoung => {
                selection.too_young = selection.too_young + 1;
            },
            Standing::Orphan => {
                orphans.push(object);
            },
        }
    }
    assert(objects.take(objects.len() as int) =~= objects);
    selection.orphans = sort_by_key(orphans);
    selection
}

/// A selection in numbers: an object is among the orphans exactly if it is listed,
/// its key is not kept, and it was modified at least the minimum age ago, however
/// long ago that is.
pub proof fn law_orphans_by_age(
    selection: OrphanSelection,
    listing: Seq<ObjectListing>,
    keep: Set<Seq<char>>,
    now: SystemTime,
    min_age: Duration,
    object: ObjectListing,
)
    requires
        selects(selection, listing, keep, now, min_age),
    ensures
        selection.orphans@.contains(object) <==> listing.contains(object) && !keep.contains(
            object.key@,
        ) && now.nanos - object.last_modified.nanos >= min_age.nanos,
{
    let pred = |o: ObjectListing| is_orphan(o, keep, now, min_age);
    crate::listing::law_same_under_each_key_same_objects(
        orphans_of(listing, keep, now, min_age),
        selection.orphans@,
        object,
    );
    crate::seqs::lemma_filter_members(listing, pred, object);
}

/// The orphans are those of the listing, each as often as it is listed, and no key
/// stands behind a greater one.
pub proof fn law_orphans_sorted_and_complete(
    selection: OrphanSelection,
    listing: Seq<ObjectListing>,
    keep: Set<Seq<char>>,
    now: SystemTime,
    min_age: Duration,
)
    requires
        selects(selection, listing, keep, now, min_age),
    ensures
        selection.orphans@.to_multiset() == listing.filter(
            |object: ObjectListing|
                !keep.contains(object.key@) && now.nanos - object.last_modified.nanos
                    >= min_age.nanos,
        ).to_multiset(),
        forall|i: int, j: int|
            0 <= i < j < selection.orphans@.len() ==> !crate::text::str_less(
                (#[trigger] selection.orphans@[j]).key@,
                (#[trigger] selection.orphans@[i]).key@,
            ),
{
    assert((|object: ObjectListing| is_orphan(object, keep, now, min_age)) =~= (
    |object: ObjectListing|
        !keep.contains(object.key@) && now.nanos - object.last_modified.nanos >= min_age.nanos));
    crate::listing::law_sorting_by_key(
        orphans_of(listing, keep, now, min_age),
        selection.orphans@,
        Seq::empty(),
    );
}

/// Listing one more object raises exactly one count by one: the referenced if its
/// key is kept, else the orphans if it is old enough, else the too young. An empty
/// listing has none of them.
pub proof fn law_one_more_object(
    listing: Seq<ObjectListing>,
    object: ObjectListing,
    keep: Set<Seq<char>>,
    now: SystemTime,
    min_age: Duration,
    before: OrphanSelection,
    after: OrphanSelection,
)
    requires
        selects(before, listing, keep, now, min_age),
        selects(after, listing.push(object), keep, now, min_age),
    ensures
        after.referenced == before.referenced + (if keep.contains(object.key@) {
            1int
        } else {
            0
        }),
        after.orphans@.len() == before.orphans@.len() + (if !keep.contains(object.key@)
            && now.nanos - object.last_modified.nanos >= min_age.nanos {
            1int
        } else {
            0
        }),
        after.too_young == before.too_young + (if !keep.contains(object.key@) && now.nanos
            - object.last_modified.nanos < min_age.nanos {
            1int
        } else {
            0
        }),
        listing.len() == 0 ==> before.referenced == 0 && before.too_young == 0
            && before.orphans@.len() == 0,
{
    reveal(Seq::filter);
    assert(listing.push(object).drop_last() =~= listing);
}

} // verus!
