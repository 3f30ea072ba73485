//! A set of strings, kept sorted.

use vstd::prelude::*;
use crate::text::{str_eq, str_less, str_lt};

verus! {

/// A set of strings, held in strictly increasing order.
#[derive(Debug)]
pub struct StringSet {
    items: Vec<String>,
}

/// What each string of `items` spells.
pub open spec fn spelled(items: Seq<String>) -> Seq<Seq<char>> {
    items.map_values(|s: String| s@)
}

/// Each string comes before those that follow it.
pub open spec fn strictly_increasing(items: Seq<Seq<char>>) -> bool {
    forall|i: int, j: int| 0 <= i < j < items.len() ==> str_less(#[trigger] items[i], #[trigger] items[j])
}

impl View for StringSet {
    type V = Set<Seq<char>>;

    closed spec fn view(&self) -> Set<Seq<char>> {
        spelled(self.items@).to_set()
    }
}

proof fn lemma_increasing_no_duplicates(items: Seq<Seq<char>>)
    requires
        strictly_increasing(items),
    ensures
        items.no_duplicates(),
{
    assert forall|i: int, j: int| 0 <= i < j < items.len() implies items[i] != items[j] by {
        assert(str_less(items[i], items[j]));
        crate::text::law_str_less_irreflexive(items[i]);
    }
}

impl StringSet {
    #[verifier::type_invariant]
    spec fn sorted(self) -> bool {
        strictly_increasing(spelled(self.items@))
    }

    /// The empty set.
    pub fn new() -> (r: StringSet)
        ensures
            r@ == Set::<Seq<char>>::empty(),
    {
        let items: Vec<String> = Vec::new();
        assert(spelled(items@).to_set() =~= Set::<Seq<char>>::empty());
        StringSet { items }
    }

    /// Where `s` is, or where it belongs: all before it come before `s`, none
    /// from it on does.
    fn position(&self, s: &str) -> (at: usize)
        ensures
            at <= self.items@.len(),
            forall|i: int| 0 <= i < at ==> str_less(#[trigger] spelled(self.items@)[i], s@),
            forall|i: int| at <= i < self.items@.len() ==> !str_less(#[trigger] spelled(self.items@)[i], s@),
    {
        proof {
            use_type_invariant(self);
        }
        let ghost words = spelled(self.items@);
        let mut low: usize = 0;
        let mut high: usize = self.items.len();
        while low < high
            invariant
                words == spelled(self.items@),
                strictly_increasing(words),
                low <= high <= self.items@.len(),
                forall|i: int| 0 <= i < low ==> str_less(#[trigger] words[i], s@),
                forall|i: int| high <= i < words.len() ==> !str_less(#[trigger] words[i], s@),
            decreases high - low,
        {
            let mid: usize = low + (high - low) / 2;
            if str_lt(self.items[mid].as_str(), s) {
                assert forall|i: int| 0 <= i < mid + 1 implies str_less(#[trigger] words[i], s@) by {
                    if i < mid {
                        crate::text::law_str_less_transitive(words[i], words[mid as int], s@);
                    }
                }
                low = mid + 1;
            } else {
                assert forall|i: int| mid <= i < words.len() implies !str_less(
                    #[trigger] words[i],
                    s@,
                ) by {
                    if i > mid && str_less(words[i], s@) {
                        crate::text::law_str_less_transitive(words[mid as int], words[i], s@);
                    }
                }
                high = mid;
            }
        }
        low
    }

    /// Whether `s` is in the set.
    pub fn contains(&self, s: &str) -> (r: bool)
        ensures
            r == self@.contains(s@),
    {
        let at: usize = self.position(s);
        let ghost words = spelled(self.items@);
        proof {
            use_type_invariant(self);
            if words.contains(s@) {
                let i = choose|i: int| 0 <= i < words.len() && words[i] == s@;
                crate::text::law_str_less_irreflexive(s@);
                if at < i {
                    assert(str_less(words[at as int], words[i]));
                }
            }
        }
        if at < self.items.len() {
            assert(words[at as int] == self.items@[at as int]@);
            str_eq(self.items[at].as_str(), s)
        } else {
            false
        }
    }

    /// Add `s` to the set.
    pub fn insert(&mut self, s: String)
        ensures
            final(self)@ == old(self)@.insert(s@),
    {
        if self.contains(s.as_str()) {
            assert(self@ =~= self@.insert(s@));
            return;
        }
        let at: usize = self.position(s.as_str());
        let ghost before = spelled(self.items@);
        proof {
            use_type_invariant(&*self);
        }
        let mut items: Vec<String> = Vec::new();
        assert(spelled(items@) =~= Seq::<Seq<char>>::empty());
        std::mem::swap(&mut items, &mut self.items);
        items.insert(at, s);
        proof {
            let after = spelled(items@);
            assert(after =~= before.insert(at as int, s@));
            assert forall|i: int, j: int| 0 <= i < j < after.len() implies str_less(
                #[trigger] after[i],
                #[trigger] after[j],
            ) by {
                let from = if j > at { j - 1 } else { j };
                if i == at {
                    crate::text::law_str_less_total(s@, before[from]);
                    assert(before.contains(before[from]));
                } else if j == at {
                } else {
                    let to = if i > at { i - 1 } else { i };
                    assert(str_less(before[to], before[from]));
                }
            }
            assert(after.to_set() =~= before.to_set().insert(s@)) by {
                assert(after[at as int] == s@);
                assert forall|w: Seq<char>| before.contains(w) implies after.contains(w) by {
                    let i = choose|i: int| 0 <= i < before.len() && before[i] == w;
                    assert(after[if i < at { i } else { i + 1 }] == w);
                }
                assert forall|w: Seq<char>| after.contains(w) && w != s@ implies before.contains(
                    w,
                ) by {
                    let i = choose|i: int| 0 <= i < after.len() && after[i] == w;
                    assert(before[if i < at { i } else { i - 1 }] == w);
                }
            }
        }
        self.items = items;
    }

    /// The strings of the set, in increasing order.
    pub fn as_slice(&self) -> (items: &[String])
        ensures
            spelled(items@).to_set() == self@,
            strictly_increasing(spelled(items@)),
    {
        proof {
            use_type_invariant(self);
        }
        self.items.as_slice()
    }

    /// The number of strings in the set.
    pub fn len(&self) -> (n: usize)
        ensures
            n == self@.len(),
            self@.finite(),
    {
        proof {
            use_type_invariant(self);
            let words = spelled(self.items@);
            lemma_increasing_no_duplicates(words);
            words.unique_seq_to_set();
        }
        self.items.len()
    }
}

/// What a list of strings spells has a place for each string, and in each place
/// what that string spells.
pub proof fn law_spelled_in_place(items: Seq<String>)
    ensures
        spelled(items).len() == items.len(),
        forall|i: int| 0 <= i < items.len() ==> #[trigger] spelled(items)[i] == items[i]@,
{
}

/// In an increasing list each string comes before the later ones, so none occurs
/// twice.
pub proof fn law_increasing_list(items: Seq<Seq<char>>, i: int, j: int)
    requires
        strictly_increasing(items),
        0 <= i < j < items.len(),
    ensures
        str_less(items[i], items[j]),
        items[i] != items[j],
{
    assert(str_less(items[i], items[j]));
    crate::text::law_str_less_irreflexive(items[i]);
}

} // verus!
