//! Facts about sequences.

use vstd::prelude::*;

verus! {

/// Filtering keeps exactly the members that meet the predicate.
pub proof fn lemma_filter_members<A>(s: Seq<A>, pred: spec_fn(A) -> bool, x: A)
    ensures
        s.filter(pred).contains(x) <==> s.contains(x) && pred(x),
    decreases s.len(),
{
    reveal(Seq::filter);
    if s.len() > 0 {
        let rest = s.drop_last();
        lemma_filter_members(rest, pred, x);
        let kept = s.filter(pred);
        assert(s.contains(x) <==> rest.contains(x) || x == s.last()) by {
            if s.contains(x) {
                let i = choose|i: int| 0 <= i < s.len() && s[i] == x;
                if i < rest.len() {
                    assert(rest[i] == x);
                }
            }
            if rest.contains(x) {
                let i = choose|i: int| 0 <= i < rest.len() && rest[i] == x;
                assert(s[i] == x);
            }
            assert(s[s.len() - 1] == s.last());
        }
        if pred(s.last()) {
            let before = rest.filter(pred);
            assert(kept == before.push(s.last()));
            if before.contains(x) {
                let i = choose|i: int| 0 <= i < before.len() && before[i] == x;
                assert(kept[i] == x);
            }
            if kept.contains(x) && x != s.last() {
                let i = choose|i: int| 0 <= i < kept.len() && kept[i] == x;
                assert(before[i] == x);
            }
            assert(kept[kept.len() - 1] == s.last());
        }
    }
}

} // verus!
