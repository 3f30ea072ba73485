//! Objects listed from search storage, and sorting them by key.

use vstd::prelude::*;
use crate::text::{str_at_most, str_less, str_lt};
use crate::time::SystemTime;

verus! {

/// An object in search storage.
#[derive(Debug, PartialEq, Eq)]
pub struct ObjectListing {
    pub key: String,
    pub last_modified: SystemTime,
    pub size: u64,
}

/// Whether an object has the key `key`.
pub open spec fn has_key(key: Seq<char>) -> spec_fn(ObjectListing) -> bool {
    |object: ObjectListing| object.key@ == key
}

/// No object comes before one with a smaller key.
pub open spec fn sorted_by_key(objects: Seq<ObjectListing>) -> bool {
    forall|i: int, j: int|
        0 <= i < j < objects.len() ==> str_at_most(
            (#[trigger] objects[i]).key@,
            (#[trigger] objects[j]).key@,
        )
}

/// Under each key the two sequences hold the same objects in the same order.
pub open spec fn same_under_each_key(a: Seq<ObjectListing>, b: Seq<ObjectListing>) -> bool {
    forall|key: Seq<char>| #[trigger] a.filter(has_key(key)) == b.filter(has_key(key))
}

/// `sorted` holds the objects of `objects` sorted by key, and those that share
/// a key in the order they had.
pub open spec fn is_stable_sort(objects: Seq<ObjectListing>, sorted: Seq<ObjectListing>) -> bool {
    &&& sorted_by_key(sorted)
    &&& same_under_each_key(objects, sorted)
}

/// The bytes in `objects`.
pub open spec fn total_size(objects: Seq<ObjectListing>) -> int
    decreases objects.len(),
{
    if objects.len() == 0 {
        0
    } else {
        total_size(objects.drop_last()) + objects.last().size
    }
}

proof fn lemma_filter_one(object: ObjectListing, key: Seq<char>)
    ensures
        seq![object].filter(has_key(key)) == (if object.key@ == key {
            seq![object]
        } else {
            Seq::empty()
        }),
{
    reveal_with_fuel(Seq::filter, 2);
    assert(seq![object].drop_last() =~= Seq::<ObjectListing>::empty());
    assert(Seq::<ObjectListing>::empty().push(object) =~= seq![object]);
}

proof fn lemma_filter_none(objects: Seq<ObjectListing>, key: Seq<char>)
    requires
        forall|i: int| 0 <= i < objects.len() ==> (#[trigger] objects[i]).key@ != key,
    ensures
        objects.filter(has_key(key)) == Seq::<ObjectListing>::empty(),
    decreases objects.len(),
{
    reveal(Seq::filter);
    if objects.len() > 0 {
        lemma_filter_none(objects.drop_last(), key);
    }
}

/// What is left of both halves, and then `tail`, under each key.
spec fn together(
    left: Seq<ObjectListing>,
    right: Seq<ObjectListing>,
    tail: Seq<ObjectListing>,
    key: Seq<char>,
) -> Seq<ObjectListing> {
    left.filter(has_key(key)) + right.filter(has_key(key)) + tail.filter(has_key(key))
}

/// Moving the last of the right half to the front of the tail changes nothing.
proof fn lemma_take_right(
    left: Seq<ObjectListing>,
    right: Seq<ObjectListing>,
    tail: Seq<ObjectListing>,
    key: Seq<char>,
)
    requires
        right.len() > 0,
    ensures
        together(left, right.drop_last(), seq![right.last()] + tail, key) == together(
            left,
            right,
            tail,
            key,
        ),
{
    let one = seq![right.last()];
    assert(right =~= right.drop_last() + one);
    Seq::filter_distributes_over_add(right.drop_last(), one, has_key(key));
    Seq::filter_distributes_over_add(one, tail, has_key(key));
    assert(together(left, right.drop_last(), one + tail, key) =~= together(left, right, tail, key));
}

/// Nor does moving the last of the left half, when its key is beyond those of
/// the right half.
proof fn lemma_take_left(
    left: Seq<ObjectListing>,
    right: Seq<ObjectListing>,
    tail: Seq<ObjectListing>,
    key: Seq<char>,
)
    requires
        left.len() > 0,
        forall|i: int| 0 <= i < right.len() ==> (#[trigger] right[i]).key@ != left.last().key@,
    ensures
        together(left.drop_last(), right, seq![left.last()] + tail, key) == together(
            left,
            right,
            tail,
            key,
        ),
{
    let one = seq![left.last()];
    assert(left =~= left.drop_last() + one);
    Seq::filter_distributes_over_add(left.drop_last(), one, has_key(key));
    Seq::filter_distributes_over_add(one, tail, has_key(key));
    lemma_filter_one(left.last(), key);
    if left.last().key@ == key {
        lemma_filter_none(right, key);
    }
    assert(together(left.drop_last(), right, one + tail, key) =~= together(left, right, tail, key));
}

/// Merge two sorted sequences; of equal keys those of `left` come first.
fn merge(left: Vec<ObjectListing>, right: Vec<ObjectListing>) -> (merged: Vec<ObjectListing>)
    requires
        sorted_by_key(left@),
        sorted_by_key(right@),
    ensures
        merged@.len() == left@.len() + right@.len(),
        is_stable_sort(left@ + right@, merged@),
{
    let ghost objects = left@ + right@;
    let mut left = left;
    let mut right = right;
    // The merged objects from the last one on, in reverse.
    let mut reversed: Vec<ObjectListing> = Vec::new();
    let ghost mut tail: Seq<ObjectListing> = Seq::empty();
    proof {
        assert forall|key: Seq<char>| #[trigger] objects.filter(has_key(key)) == together(
            left@,
            right@,
            tail,
            key,
        ) by {
            Seq::filter_distributes_over_add(left@, right@, has_key(key));
            lemma_filter_none(tail, key);
            assert(together(left@, right@, tail, key) =~= objects.filter(has_key(key)));
        }
        assert(reversed@.reverse() =~= tail);
    }
    while left.len() > 0 || right.len() > 0
        invariant
            sorted_by_key(left@),
            sorted_by_key(right@),
            sorted_by_key(tail),
            forall|i: int, j: int|
                0 <= i < left@.len() && 0 <= j < tail.len() ==> str_at_most(
                    (#[trigger] left@[i]).key@,
                    (#[trigger] tail[j]).key@,
                ),
            forall|i: int, j: int|
                0 <= i < right@.len() && 0 <= j < tail.len() ==> str_at_most(
                    (#[trigger] right@[i]).key@,
                    (#[trigger] tail[j]).key@,
                ),
            tail == reversed@.reverse(),
            left@.len() + right@.len() + tail.len() == objects.len(),
            forall|key: Seq<char>| #[trigger]
                objects.filter(has_key(key)) == together(left@, right@, tail, key),
        decreases left@.len() + right@.len(),
    {
        let from_left: bool = if left.len() == 0 {
            false
        } else if right.len() == 0 {
            true
        } else {
            str_lt(right[right.len() - 1].key.as_str(), left[left.len() - 1].key.as_str())
        };
        let ghost l = left@;
        let ghost r = right@;
        let ghost t = tail;
        if from_left {
            proof {
                assert forall|i: int| 0 <= i < r.len() implies str_less(
                    (#[trigger] r[i]).key@,
                    l.last().key@,
                ) by {
                    if i < r.len() - 1 {
                        lemma_at_most_then_less(r[i].key@, r.last().key@, l.last().key@);
                    }
                }
                assert forall|i: int| 0 <= i < r.len() implies (#[trigger] r[i]).key@
                    != l.last().key@ by {
                    crate::text::law_str_less_irreflexive(r[i].key@);
                }
                assert forall|i: int| 0 <= i < r.len() implies str_at_most(
                    (#[trigger] r[i]).key@,
                    l.last().key@,
                ) by {
                    crate::text::law_str_less_total(r[i].key@, l.last().key@);
                }
                assert forall|key: Seq<char>| #[trigger] objects.filter(has_key(key)) == together(
                    l.drop_last(),
                    r,
                    seq![l.last()] + t,
                    key,
                ) by {
                    lemma_take_left(l, r, t, key);
                }
                tail = seq![l.last()] + t;
            }
            match left.pop() {
                Some(object) => reversed.push(object),
                None => {},
            }
            assert(left@ =~= l.drop_last());
            assert(reversed@.reverse() =~= tail);
        } else {
            proof {
                assert forall|i: int| 0 <= i < l.len() implies str_at_most(
                    (#[trigger] l[i]).key@,
                    r.last().key@,
                ) by {
                    if i < l.len() - 1 {
                        lemma_at_most_transitive(l[i].key@, l.last().key@, r.last().key@);
                    }
                }
                assert forall|key: Seq<char>| #[trigger] objects.filter(has_key(key)) == together(
                    l,
                    r.drop_last(),
                    seq![r.last()] + t,
                    key,
                ) by {
                    lemma_take_right(l, r, t, key);
                }
                tail = seq![r.last()] + t;
            }
            match right.pop() {
                Some(object) => reversed.push(object),
                None => {},
            }
            assert(right@ =~= r.drop_last());
            assert(reversed@.reverse() =~= tail);
        }
    }
    proof {
        assert forall|key: Seq<char>| #[trigger] objects.filter(has_key(key)) == tail.filter(
            has_key(key),
        ) by {
            lemma_filter_none(left@, key);
            lemma_filter_none(right@, key);
            assert(together(left@, right@, tail, key) =~= tail.filter(has_key(key)));
        }
    }
    let mut merged: Vec<ObjectListing> = Vec::new();
    while reversed.len() > 0
        invariant
            merged@ + reversed@.reverse() == tail,
        decreases reversed@.len(),
    {
        match reversed.pop() {
            Some(object) => merged.push(object),
            None => {},
        }
        assert(merged@ + reversed@.reverse() =~= tail);
    }
    assert(merged@ =~= tail);
    merged
}

proof fn lemma_at_most_transitive(a: Seq<char>, b: Seq<char>, c: Seq<char>)
    requires
        str_at_most(a, b),
        str_at_most(b, c),
    ensures
        str_at_most(a, c),
{
    if str_less(c, a) {
        crate::text::law_str_less_total(a, b);
        if a != b {
            crate::text::law_str_less_transitive(c, a, b);
        }
    }
}

proof fn lemma_at_most_then_less(a: Seq<char>, b: Seq<char>, c: Seq<char>)
    requires
        str_at_most(a, b),
        str_less(b, c),
    ensures
        str_less(a, c),
{
    crate::text::law_str_less_total(a, b);
    if a != b {
        crate::text::law_str_less_transitive(a, b, c);
    }
}

/// Sort by key, keeping the order of objects that share one.
pub fn sort_by_key(objects: Vec<ObjectListing>) -> (sorted: Vec<ObjectListing>)
    ensures
        sorted@.len() == objects@.len(),
        is_stable_sort(objects@, sorted@),
    decreases objects@.len(),
{
    if objects.len() <= 1 {
        return objects;
    }
    let mut left = objects;
    let middle: usize = left.len() / 2;
    let right = left.split_off(middle);
    assert(left@ + right@ =~= objects@);
    let ghost (l, r) = (left@, right@);
    let left = sort_by_key(left);
    let right = sort_by_key(right);
    let sorted = merge(left, right);
    proof {
        assert forall|key: Seq<char>| #[trigger] objects@.filter(has_key(key)) == sorted@.filter(
            has_key(key),
        ) by {
            Seq::filter_distributes_over_add(l, r, has_key(key));
            Seq::filter_distributes_over_add(left@, right@, has_key(key));
            assert(l.filter(has_key(key)) == left@.filter(has_key(key)));
            assert(r.filter(has_key(key)) == right@.filter(has_key(key)));
            assert((left@ + right@).filter(has_key(key)) == sorted@.filter(has_key(key)));
        }
    }
    sorted
}

proof fn lemma_filter_last(objects: Seq<ObjectListing>, key: Seq<char>)
    requires
        objects.len() > 0,
    ensures
        objects.filter(has_key(key)) == objects.drop_last().filter(has_key(key)) + (if objects.last().key@
            == key {
            seq![objects.last()]
        } else {
            Seq::empty()
        }),
{
    reveal(Seq::filter);
    assert(objects.filter(has_key(key)) =~= objects.drop_last().filter(has_key(key)) + (
    if objects.last().key@ == key {
        seq![objects.last()]
    } else {
        Seq::empty()
    }));
}

/// An object of one sequence is in any other that agrees with it under each key.
pub proof fn law_same_under_each_key_same_objects(
    a: Seq<ObjectListing>,
    b: Seq<ObjectListing>,
    object: ObjectListing,
)
    requires
        same_under_each_key(a, b),
    ensures
        a.contains(object) <==> b.contains(object),
{
    let key = object.key@;
    assert(a.filter(has_key(key)) == b.filter(has_key(key)));
    crate::seqs::lemma_filter_members(a, has_key(key), object);
    crate::seqs::lemma_filter_members(b, has_key(key), object);
}

proof fn lemma_total_size_adds(a: Seq<ObjectListing>, b: Seq<ObjectListing>)
    ensures
        total_size(a + b) == total_size(a) + total_size(b),
    decreases b.len(),
{
    if b.len() == 0 {
        assert(a + b =~= a);
    } else {
        lemma_total_size_adds(a, b.drop_last());
        assert((a + b).drop_last() =~= a + b.drop_last());
    }
}

/// Sequences that agree under each key hold each object equally often, and as
/// many bytes.
pub proof fn law_same_under_each_key_permutes(a: Seq<ObjectListing>, b: Seq<ObjectListing>)
    requires
        same_under_each_key(a, b),
    ensures
        a.to_multiset() == b.to_multiset(),
        a.len() == b.len(),
        total_size(a) == total_size(b),
    decreases a.len(),
{
    a.to_multiset_ensures();
    b.to_multiset_ensures();
    if a.len() == 0 {
        if b.len() > 0 {
            law_same_under_each_key_same_objects(a, b, b.last());
            assert(b.contains(b.last()));
        }
        assert(a =~= b);
    } else {
        let x = a.last();
        let key = x.key@;
        let at = lemma_last_under_key(a, b);
        let before = b.take(at);
        let behind = b.skip(at + 1);
        let rest = before + behind;
        assert(b =~= before + seq![x] + behind);
        assert(b.remove(at) =~= rest);
        assert forall|k: Seq<char>| #[trigger] a.drop_last().filter(has_key(k)) == rest.filter(
            has_key(k),
        ) by {
            lemma_filter_last(a, k);
            lemma_filter_one(x, k);
            Seq::filter_distributes_over_add(before + seq![x], behind, has_key(k));
            Seq::filter_distributes_over_add(before, seq![x], has_key(k));
            Seq::filter_distributes_over_add(before, behind, has_key(k));
            assert(a.filter(has_key(k)) == b.filter(has_key(k)));
            if k == key {
                lemma_filter_none(behind, k);
                assert(a.drop_last().filter(has_key(k)) =~= a.filter(has_key(k)).drop_last());
                assert(rest.filter(has_key(k)) =~= b.filter(has_key(k)).drop_last());
            } else {
                assert(a.drop_last().filter(has_key(k)) =~= a.filter(has_key(k)));
                assert(rest.filter(has_key(k)) =~= b.filter(has_key(k)));
            }
        }
        law_same_under_each_key_permutes(a.drop_last(), rest);
        assert(a.to_multiset() =~= b.to_multiset()) by {
            assert(a =~= a.drop_last().push(x));
            assert(a.drop_last().push(x).to_multiset() =~= a.drop_last().to_multiset().insert(x))
                by {
                a.drop_last().to_multiset_ensures();
            }
            assert(b.remove(at).to_multiset() =~= b.to_multiset().remove(x));
            assert(b.contains(x));
        }
        lemma_total_size_adds(before, behind);
        lemma_total_size_adds(before + seq![x], behind);
        lemma_total_size_adds(before, seq![x]);
        assert(seq![x].drop_last() =~= Seq::<ObjectListing>::empty());
        reveal_with_fuel(total_size, 2);
    }
}

/// Where in `b` the last object of `a` is: behind it no other has its key.
proof fn lemma_last_under_key(a: Seq<ObjectListing>, b: Seq<ObjectListing>) -> (at: int)
    requires
        same_under_each_key(a, b),
        a.len() > 0,
    ensures
        0 <= at < b.len(),
        b[at] == a.last(),
        forall|i: int| at < i < b.len() ==> (#[trigger] b[i]).key@ != a.last().key@,
{
    let key = a.last().key@;
    assert(a.filter(has_key(key)) == b.filter(has_key(key)));
    lemma_filter_last(a, key);
    assert(b.filter(has_key(key)).len() > 0);
    let at = lemma_last_kept(b, key);
    assert(a.filter(has_key(key)).last() == a.last());
    at
}

proof fn lemma_last_kept(objects: Seq<ObjectListing>, key: Seq<char>) -> (at: int)
    requires
        objects.filter(has_key(key)).len() > 0,
    ensures
        0 <= at < objects.len(),
        objects[at] == objects.filter(has_key(key)).last(),
        forall|i: int| at < i < objects.len() ==> (#[trigger] objects[i]).key@ != key,
    decreases objects.len(),
{
    reveal(Seq::filter);
    if objects.last().key@ == key {
        lemma_filter_last(objects, key);
        objects.len() - 1
    } else {
        lemma_filter_last(objects, key);
        assert(objects.drop_last().filter(has_key(key)) =~= objects.filter(has_key(key)));
        let at = lemma_last_kept(objects.drop_last(), key);
        assert forall|i: int| at < i < objects.len() implies (#[trigger] objects[i]).key@ != key by {
            if i < objects.len() - 1 {
                assert(objects.drop_last()[i].key@ != key);
            }
        }
        at
    }
}

/// Two sorted sequences that agree under each key are the same: there is only
/// one way to sort by key and keep the order of objects that share one.
pub proof fn law_stable_sort_unique(a: Seq<ObjectListing>, b: Seq<ObjectListing>)
    requires
        sorted_by_key(a),
        sorted_by_key(b),
        same_under_each_key(a, b),
    ensures
        a == b,
    decreases a.len(),
{
    if a.len() == 0 {
        if b.len() > 0 {
            law_same_under_each_key_same_objects(a, b, b.last());
            assert(b.contains(b.last()));
        }
        assert(a =~= b);
    } else {
        law_same_under_each_key_same_objects(a, b, a.last());
        assert(a.contains(a.last()));
        let i = choose|i: int| 0 <= i < b.len() && b[i] == a.last();
        law_same_under_each_key_same_objects(a, b, b.last());
        assert(b.contains(b.last()));
        let j = choose|j: int| 0 <= j < a.len() && a[j] == b.last();
        let key = a.last().key@;
        assert(str_at_most(a[j].key@, key) || j == a.len() - 1);
        assert(str_at_most(b[i].key@, b.last().key@) || i == b.len() - 1);
        crate::text::law_str_less_irreflexive(key);
        crate::text::law_str_less_total(key, b.last().key@);
        assert(b.last().key@ == key);
        lemma_filter_last(a, key);
        lemma_filter_last(b, key);
        assert(a.filter(has_key(key)) == b.filter(has_key(key)));
        assert(a.filter(has_key(key)).last() == a.last());
        assert(b.filter(has_key(key)).last() == b.last());
        assert forall|k: Seq<char>| #[trigger] a.drop_last().filter(has_key(k))
            == b.drop_last().filter(has_key(k)) by {
            lemma_filter_last(a, k);
            lemma_filter_last(b, k);
            assert(a.filter(has_key(k)) == b.filter(has_key(k)));
            let n = a.drop_last().filter(has_key(k)).len() as int;
            assert(a.drop_last().filter(has_key(k)) =~= a.filter(has_key(k)).take(n));
            assert(b.drop_last().filter(has_key(k)) =~= b.filter(has_key(k)).take(n));
        }
        law_stable_sort_unique(a.drop_last(), b.drop_last());
        assert(a =~= a.drop_last().push(a.last()));
        assert(b =~= b.drop_last().push(b.last()));
    }
}

/// The bytes of a listing are those of its objects: none without objects, and each
/// further object adds its size.
pub proof fn law_total_size_adds_up(objects: Seq<ObjectListing>, object: ObjectListing)
    ensures
        total_size(Seq::empty()) == 0,
        total_size(objects.push(object)) == total_size(objects) + object.size,
{
    assert(objects.push(object).drop_last() =~= objects);
}

/// What sorting by key gives: the same objects, each as often as before, with no
/// key behind a greater one, and under each key in the order they had.
pub proof fn law_sorting_by_key(
    objects: Seq<ObjectListing>,
    sorted: Seq<ObjectListing>,
    key: Seq<char>,
)
    requires
        is_stable_sort(objects, sorted),
    ensures
        sorted.len() == objects.len(),
        sorted.to_multiset() == objects.to_multiset(),
        forall|i: int, j: int|
            0 <= i < j < sorted.len() ==> !str_less(
                (#[trigger] sorted[j]).key@,
                (#[trigger] sorted[i]).key@,
            ),
        sorted.filter(|object: ObjectListing| object.key@ == key) == objects.filter(
            |object: ObjectListing| object.key@ == key,
        ),
{
    law_same_under_each_key_permutes(objects, sorted);
    assert forall|i: int, j: int| 0 <= i < j < sorted.len() implies !str_less(
        (#[trigger] sorted[j]).key@,
        (#[trigger] sorted[i]).key@,
    ) by {
        assert(str_at_most(sorted[i].key@, sorted[j].key@));
    }
    assert(has_key(key) =~= (|object: ObjectListing| object.key@ == key));
    assert(objects.filter(has_key(key)) == sorted.filter(has_key(key)));
}

} // verus!
