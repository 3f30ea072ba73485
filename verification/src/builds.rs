//! Registry of text/vector index builds that are between "started uploading
//! segments" and "metadata committed (or build abandoned)".
//!
//! A search index build (a flush or a compaction) uploads new segment
//! objects to search storage first and commits the `_index` revision that
//! references them afterwards. Between those two points the objects exist in
//! storage without any retained metadata mentioning them, which is exactly
//! what a garbage collector of search storage would take for garbage. The
//! registry lets the collector see that such a build is in progress: a round
//! that started while a build was already running cannot prove that the
//! build's objects are unreferenced, and must not delete anything.
//!
//! The registry records only start times, never object keys, so it stays
//! correct no matter how a build names or stages its objects.

use std::collections::BTreeMap;
use vstd::prelude::*;
use vstd::std_specs::iter::IteratorSpec;
use crate::time::SystemTime;

verus! {

/// The builds in progress: under a number of its own, when each started.
#[derive(Debug)]
pub struct ActiveSearchIndexBuilds {
    next_id: u64,
    started: BTreeMap<u64, SystemTime>,
}

/// A registered build. Handing it back ends the registration.
#[derive(Debug)]
#[must_use]
pub struct ActiveSearchIndexBuildGuard {
    id: u64,
}

/// The builds in progress, and the number that the next one gets.
pub struct Builds {
    pub next_id: u64,
    pub started: Map<u64, SystemTime>,
}

impl View for ActiveSearchIndexBuilds {
    type V = Builds;

    closed spec fn view(&self) -> Builds {
        Builds { next_id: self.next_id, started: self.started@ }
    }
}

impl View for ActiveSearchIndexBuildGuard {
    type V = u64;

    closed spec fn view(&self) -> u64 {
        self.id
    }
}

/// No build in progress, and none yet.
pub open spec fn no_builds() -> Builds {
    Builds { next_id: 0, started: Map::empty() }
}

/// The number after `id`; after the last one it is zero again.
pub open spec fn id_after(id: u64) -> u64 {
    if id == u64::MAX {
        0
    } else {
        (id + 1) as u64
    }
}

/// The builds once another one has begun.
pub open spec fn begun(builds: Builds, started: SystemTime) -> Builds {
    Builds {
        next_id: id_after(builds.next_id),
        started: builds.started.insert(builds.next_id, started),
    }
}

/// The builds once the one numbered `id` has ended.
pub open spec fn ended(builds: Builds, id: u64) -> Builds {
    Builds { started: builds.started.remove(id), ..builds }
}

/// `oldest` is when the longest-running build started; `None` if there is none.
pub open spec fn is_oldest(builds: Builds, oldest: Option<SystemTime>) -> bool {
    match oldest {
        None => builds.started.dom() =~= Set::<u64>::empty(),
        Some(t) => {
            &&& exists|id: u64| #[trigger]
                builds.started.contains_key(id) && builds.started[id] == t
            &&& forall|id: u64| #[trigger]
                builds.started.contains_key(id) ==> t@ <= builds.started[id]@
        },
    }
}

impl ActiveSearchIndexBuilds {
    pub fn new() -> (builds: ActiveSearchIndexBuilds)
        ensures
            builds@ == no_builds(),
    {
        ActiveSearchIndexBuilds { next_id: 0, started: BTreeMap::new() }
    }

    /// Register a build that starts now. The registration ends when the
    /// returned guard is handed to `end`.
    pub fn begin(&mut self, started: SystemTime) -> (guard: ActiveSearchIndexBuildGuard)
        ensures
            guard@ == old(self)@.next_id,
            final(self)@ == begun(old(self)@, started),
            final(self)@.started == old(self)@.started.insert(guard@, started),
    {
        let id: u64 = self.next_id;
        self.next_id = if id == u64::MAX {
            0
        } else {
            id + 1
        };
        self.started.insert(id, started);
        ActiveSearchIndexBuildGuard { id }
    }

    /// End the registration of a build: after its commit returned, or on any
    /// error path out of it.
    pub fn end(&mut self, guard: ActiveSearchIndexBuildGuard)
        ensures
            final(self)@ == ended(old(self)@, guard@),
            final(self)@.started == old(self)@.started.remove(guard@),
            final(self)@.next_id == old(self)@.next_id,
    {
        self.started.remove(&guard.id);
    }

    /// Start time of the longest-running registered build, if any.
    pub fn oldest_started(&self) -> (oldest: Option<SystemTime>)
        ensures
            is_oldest(self@, oldest),
    {
        let mut oldest: Option<SystemTime> = None;
        let ghost builds = self.started@;
        let ghost all = self.started.values().remaining();
        proof {
            let times = all.unref();
            assert forall|id: u64| #[trigger] builds.contains_key(id) implies (exists|i: int|
                0 <= i < all.len() && *(#[trigger] all[i]) == builds[id]) by {
                assert(builds.values().contains(builds[id]));
                assert(times.to_set().contains(builds[id]));
                let i = choose|i: int| 0 <= i < times.len() && times[i] == builds[id];
                assert(*all[i] == builds[id]);
            }
            assert forall|i: int| 0 <= i < all.len() implies builds.values().contains(
                *(#[trigger] all[i]),
            ) by {
                assert(times[i] == *all[i]);
                assert(times.to_set().contains(times[i]));
            }
        }
        for started in it: self.started.values()
            invariant
                builds == self.started@,
                it.seq() == all,
                forall|id: u64| #[trigger]
                    builds.contains_key(id) ==> (exists|i: int|
                        0 <= i < all.len() && *(#[trigger] all[i]) == builds[id]),
                forall|i: int|
                    0 <= i < all.len() ==> builds.values().contains(*(#[trigger] all[i])),
                it.index() == 0 <==> oldest is None,
                oldest matches Some(t) ==> builds.values().contains(t),
                oldest matches Some(t) ==> (forall|i: int|
                    0 <= i < it.index() ==> t@ <= (#[trigger] all[i])@),
        {
            let earlier: bool = match oldest {
                None => true,
                Some(t) => started.nanos < t.nanos,
            };
            if earlier {
                oldest = Some(*started);
            }
        }
        proof {
            match oldest {
                None => {
                    assert forall|id: u64| !builds.dom().contains(id) by {
                        assert(!builds.contains_key(id));
                    }
                    assert(self@.started.dom() =~= Set::<u64>::empty());
                },
                Some(t) => {
                    let id = choose|id: u64| #[trigger] builds.contains_key(id) && builds[id] == t;
                    assert(self@.started.contains_key(id) && self@.started[id] == t);
                    assert forall|id: u64| #[trigger] builds.contains_key(id) implies t@
                        <= builds[id]@ by {
                        let i = choose|i: int|
                            0 <= i < all.len() && *(#[trigger] all[i]) == builds[id];
                        assert(t@ <= all[i]@);
                    }
                },
            }
        }
        oldest
    }

    /// The number of builds in progress.
    pub fn len(&self) -> (n: usize)
        ensures
            n == self@.started.dom().len(),
            self@.started.dom().finite(),
    {
        self.started.len()
    }

    /// Whether no build is in progress.
    pub fn is_empty(&self) -> (r: bool)
        ensures
            r <==> self@.started.dom() =~= Set::<u64>::empty(),
    {
        self.len() == 0
    }
}

/// Each registered build has a number below that of the next one. So it is
/// until the numbers run out.
pub open spec fn ids_used_once(builds: Builds) -> bool {
    forall|id: u64| #[trigger] builds.started.contains_key(id) ==> id < builds.next_id
}

/// A new registry has not used a number twice, and none of the next operations
/// does while there are numbers left.
pub proof fn law_ids_used_once(builds: Builds, started: SystemTime, id: u64)
    requires
        ids_used_once(builds),
    ensures
        ids_used_once(no_builds()),
        builds.next_id < u64::MAX ==> ids_used_once(begun(builds, started)),
        ids_used_once(ended(builds, id)),
        !builds.started.contains_key(builds.next_id),
{
}

/// Beginning a build adds one to those in progress, and ending it takes that one
/// and no other away again.
pub proof fn law_end_undoes_begin(builds: Builds, started: SystemTime)
    requires
        builds.started.dom().finite(),
        !builds.started.contains_key(builds.next_id),
    ensures
        begun(builds, started).started.dom().len() == builds.started.dom().len() + 1,
        ended(begun(builds, started), builds.next_id).started == builds.started,
{
    let id = builds.next_id;
    assert(begun(builds, started).started.dom() =~= builds.started.dom().insert(id));
    assert(builds.started.insert(id, started).remove(id) =~= builds.started);
}

/// Ending one build leaves every other in progress, with its start time.
pub proof fn law_end_leaves_others(builds: Builds, id: u64, other: u64)
    requires
        other != id,
    ensures
        ended(builds, id).started.contains_key(other) <==> builds.started.contains_key(other),
        ended(builds, id).started[other] == builds.started[other],
{
}

/// When a build begins, the longest-running one is the earlier of that and the
/// one so far.
pub proof fn law_oldest_after_begin(
    builds: Builds,
    started: SystemTime,
    before: Option<SystemTime>,
    after: Option<SystemTime>,
)
    requires
        !builds.started.contains_key(builds.next_id),
        is_oldest(builds, before),
        is_oldest(begun(builds, started), after),
    ensures
        after == (match before {
            Some(t) if t@ <= started@ => Some(t),
            _ => Some(started),
        }),
{
    let now = begun(builds, started);
    let id = builds.next_id;
    assert(now.started.contains_key(id));
    assert(now.started.dom().contains(id));
    let t = after->0;
    let at = choose|at: u64| #[trigger] now.started.contains_key(at) && now.started[at] == t;
    match before {
        None => {
            assert(!builds.started.dom().contains(at));
        },
        Some(b) => {
            let first = choose|first: u64| #[trigger]
                builds.started.contains_key(first) && builds.started[first] == b;
            assert(now.started.contains_key(first));
            if at != id {
                assert(builds.started.contains_key(at));
            }
        },
    }
}

/// Two oldest start times of the same registry are the same.
pub proof fn law_oldest_unique(builds: Builds, a: Option<SystemTime>, b: Option<SystemTime>)
    requires
        is_oldest(builds, a),
        is_oldest(builds, b),
    ensures
        a == b,
{
    if a is Some && b is Some {
        let i = choose|id: u64| #[trigger]
            builds.started.contains_key(id) && builds.started[id] == a->0;
        let j = choose|id: u64| #[trigger]
            builds.started.contains_key(id) && builds.started[id] == b->0;
        assert(builds.started.contains_key(i) && builds.started.contains_key(j));
    } else if a is Some {
        let i = choose|id: u64| #[trigger]
            builds.started.contains_key(id) && builds.started[id] == a->0;
        assert(builds.started.dom().contains(i));
    } else if b is Some {
        let j = choose|id: u64| #[trigger]
            builds.started.contains_key(id) && builds.started[id] == b->0;
        assert(builds.started.dom().contains(j));
    }
}

/// Ending a build always removes its registration, however many others have begun
/// since, and uses up no number.
pub proof fn law_end_removes_registration(builds: Builds, id: u64)
    ensures
        !ended(builds, id).started.contains_key(id),
        ended(builds, id).next_id == builds.next_id,
        builds.started.contains_key(id) && builds.started.dom().finite() ==> ended(
            builds,
            id,
        ).started.dom().len() + 1 == builds.started.dom().len(),
{
    assert(ended(builds, id).started.dom() =~= builds.started.dom().remove(id));
}

/// Beginning a build registers it under the next number with its start time, and
/// leaves every other.
pub proof fn law_begin_registers(builds: Builds, started: SystemTime, other: u64)
    requires
        other != builds.next_id,
    ensures
        begun(builds, started).started.contains_key(builds.next_id),
        begun(builds, started).started[builds.next_id] == started,
        begun(builds, started).started.contains_key(other) <==> builds.started.contains_key(other),
        begun(builds, started).started[other] == builds.started[other],
{
}

/// Each build gets the number after the one before it; only behind the last
/// number they start again.
pub proof fn law_numbers_go_up_by_one(builds: Builds, started: SystemTime)
    ensures
        builds.next_id < u64::MAX ==> begun(builds, started).next_id == builds.next_id + 1,
        builds.next_id == u64::MAX ==> begun(builds, started).next_id == 0,
{
}

/// A new registry has no build in progress.
pub proof fn law_new_registry_is_empty(id: u64)
    ensures
        !no_builds().started.contains_key(id),
        no_builds().next_id == 0,
{
}

/// No oldest start time means no build; one means that some build started then
/// and none earlier. Of any registry with a build there is one.
pub proof fn law_oldest_is_the_minimum(builds: Builds, oldest: Option<SystemTime>, id: u64)
    requires
        is_oldest(builds, oldest),
    ensures
        builds.started.contains_key(id) ==> (oldest matches Some(t) && t.nanos
            <= builds.started[id].nanos),
        oldest matches Some(t) ==> (exists|at: u64| #[trigger]
            builds.started.contains_key(at) && builds.started[at] == t),
{
    if builds.started.contains_key(id) {
        assert(builds.started.dom().contains(id));
    }
}

/// Ending a build other than those that started first leaves the oldest start
/// time as it was.
pub proof fn law_oldest_after_end(
    builds: Builds,
    id: u64,
    before: Option<SystemTime>,
    after: Option<SystemTime>,
)
    requires
        is_oldest(builds, before),
        is_oldest(ended(builds, id), after),
        builds.started.contains_key(id) ==> builds.started[id] != before->0,
    ensures
        after == before,
{
    let rest = ended(builds, id);
    assert(is_oldest(rest, before)) by {
        match before {
            None => {
                assert(rest.started.dom() =~= Set::<u64>::empty());
            },
            Some(t) => {
                let at = choose|at: u64| #[trigger]
                    builds.started.contains_key(at) && builds.started[at] == t;
                assert(rest.started.contains_key(at) && rest.started[at] == t);
                assert forall|k: u64| #[trigger] rest.started.contains_key(k) implies t@
                    <= rest.started[k]@ by {
                    assert(builds.started.contains_key(k));
                }
            },
        }
    }
    law_oldest_unique(rest, before, after);
}

} // verus!
