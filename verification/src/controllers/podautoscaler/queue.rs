//! Which autoscalers wait in the autoscaler's work queue, and which are
//! scheduled when the stored autoscalers are listed again.

use vstd::prelude::*;
use crate::text::str_eq;

verus! {

/// Whether `name` is the name of one of `names`.
pub open spec fn named(names: Seq<String>, name: Seq<char>) -> bool {
    exists|i: int| 0 <= i < names.len() && (#[trigger] names[i])@ == name
}

/// The names of the autoscalers waiting in the work queue.
#[derive(Debug)]
pub struct InQueue {
    names: Vec<String>,
}

impl View for InQueue {
    type V = Set<Seq<char>>;

    closed spec fn view(&self) -> Set<Seq<char>> {
        Set::new(|n: Seq<char>| named(self.names@, n))
    }
}

/// Whether one of `names` is `name`.
fn find_name(names: &Vec<String>, name: &str) -> (r: bool)
    ensures
        r == named(names@, name@),
{
    let mut i: usize = 0;
    while i < names.len()
        invariant
            i <= names@.len(),
            forall|j: int| 0 <= j < i ==> (#[trigger] names@[j])@ != name@,
        decreases names.len() - i,
    {
        if str_eq(names[i].as_str(), name) {
            return true;
        }
        i = i + 1;
    }
    false
}

impl InQueue {
    /// No autoscaler waits.
    pub fn new() -> (q: InQueue)
        ensures
            q@ == Set::<Seq<char>>::empty(),
    {
        let q = InQueue { names: Vec::new() };
        assert(q@ =~= Set::<Seq<char>>::empty());
        q
    }

    /// Whether the autoscaler waits.
    pub fn contains(&self, name: &str) -> (r: bool)
        ensures
            r == self@.contains(name@),
    {
        find_name(&self.names, name)
    }

    /// The autoscaler now waits.
    pub fn insert(&mut self, name: &str)
        ensures
            final(self)@ == old(self)@.insert(name@),
    {
        if !find_name(&self.names, name) {
            let ghost before = self.names@;
            self.names.push(crate::text::to_owned_string(name));
            assert forall|n: Seq<char>| named(self.names@, n) == (named(before, n) || n == name@) by {
                if named(before, n) {
                    let i = choose|i: int| 0 <= i < before.len() && (#[trigger] before[i])@ == n;
                    assert(self.names@[i] == before[i]);
                }
                if n == name@ {
                    assert(self.names@[before.len() as int]@ == n);
                }
                if named(self.names@, n) {
                    let i = choose|i: int| 0 <= i < self.names@.len() && (#[trigger] self.names@[i])@ == n;
                    if i < before.len() {
                        assert(before[i] == self.names@[i]);
                    }
                }
            }
        }
        assert(self@ =~= old(self)@.insert(name@));
    }

    /// The autoscaler no longer waits.
    pub fn remove(&mut self, name: &str)
        ensures
            final(self)@ == old(self)@.remove(name@),
    {
        let ghost before = self.names@;
        let mut kept: Vec<String> = Vec::new();
        let mut i: usize = 0;
        while i < self.names.len()
            invariant
                i <= before.len(),
                self.names@ == before,
                forall|n: Seq<char>| named(kept@, n) == (n != name@ && named(before.take(i as int), n)),
            decreases before.len() - i,
        {
            let ghost k0 = kept@;
            let ghost t0 = before.take(i as int);
            let ghost t = before.take(i + 1);
            assert forall|n: Seq<char>| named(k0, n) == (n != name@ && named(t0, n)) by {}
            if !str_eq(self.names[i].as_str(), name) {
                kept.push(self.names[i].clone());
            }
            proof {
                assert forall|n: Seq<char>| #[trigger] named(kept@, n) <==> (n != name@ && named(t, n)) by {
                    if named(kept@, n) {
                        let j = choose|j: int| 0 <= j < kept@.len() && (#[trigger] kept@[j])@ == n;
                        if j < k0.len() {
                            assert(k0[j] == kept@[j]);
                            assert(named(k0, n));
                            let m = choose|m: int| 0 <= m < t0.len() && (#[trigger] t0[m])@ == n;
                            assert(t[m] == t0[m]);
                        } else {
                            assert(t[i as int] == before[i as int]);
                        }
                    }
                    if n != name@ && named(t, n) {
                        let m = choose|m: int| 0 <= m < t.len() && (#[trigger] t[m])@ == n;
                        if m < i {
                            assert(t0[m] == t[m]);
                            assert(named(t0, n));
                            assert(named(k0, n));
                            let j = choose|j: int| 0 <= j < k0.len() && (#[trigger] k0[j])@ == n;
                            assert(kept@[j] == k0[j]);
                        } else {
                            assert(kept@[kept@.len() - 1]@ == n);
                        }
                    }
                }
            }
            i = i + 1;
            assert(before.take(i as int) == t);
        }
        assert(before.take(i as int) =~= before);
        self.names = kept;
        assert(self@ =~= old(self)@.remove(name@));
    }
}

/// Whether a delayed check of the autoscaler is to be scheduled: only when
/// it does not wait already.
pub fn enqueue_hpa(queue: &InQueue, name: &str) -> (r: bool)
    ensures
        r == !queue@.contains(name@),
{
    !queue.contains(name)
}

/// The autoscalers to schedule at once when the stored ones are listed
/// again: those of `names` that do not wait, each once, in order; they wait
/// afterwards.
pub fn handle_resync(queue: &mut InQueue, names: &Vec<String>) -> (r: Vec<String>)
    ensures
        final(queue)@ == old(queue)@.union(Set::new(|n: Seq<char>| named(names@, n))),
        forall|n: Seq<char>| named(r@, n) == (named(names@, n) && !old(queue)@.contains(n)),
        forall|i: int, j: int| 0 <= i < j < r@.len() ==> (#[trigger] r@[i])@ != (#[trigger] r@[j])@,
{
    let mut r: Vec<String> = Vec::new();
    let mut i: usize = 0;
    while i < names.len()
        invariant
            i <= names@.len(),
            queue@ == old(queue)@.union(Set::new(|n: Seq<char>| named(names@.take(i as int), n))),
            forall|n: Seq<char>| named(r@, n) == (named(names@.take(i as int), n) && !old(queue)@.contains(n)),
            forall|a: int, b: int| 0 <= a < b < r@.len() ==> (#[trigger] r@[a])@ != (#[trigger] r@[b])@,
        decreases names.len() - i,
    {
        let ghost r0 = r@;
        let ghost t0 = names@.take(i as int);
        let ghost t = names@.take(i + 1);
        proof {
            assert forall|n: Seq<char>| named(t, n) == (named(t0, n) || n == names@[i as int]@) by {
                if named(t0, n) {
                    let m = choose|m: int| 0 <= m < t0.len() && (#[trigger] t0[m])@ == n;
                    assert(t[m] == t0[m]);
                }
                if n == names@[i as int]@ {
                    assert(t[i as int] == names@[i as int]);
                }
                if named(t, n) {
                    let m = choose|m: int| 0 <= m < t.len() && (#[trigger] t[m])@ == n;
                    if m < i {
                        assert(t0[m] == t[m]);
                    }
                }
            }
        }
        let name = names[i].as_str();
        assert forall|n: Seq<char>| named(r0, n) == (named(t0, n) && !old(queue)@.contains(n)) by {}
        if !queue.contains(name) {
            proof {
                assert(!old(queue)@.contains(name@));
                assert(!named(r0, name@));
            }
            r.push(names[i].clone());
            proof {
                assert forall|n: Seq<char>| named(r@, n) == (named(r0, n) || n == name@) by {
                    if named(r0, n) {
                        let m = choose|m: int| 0 <= m < r0.len() && (#[trigger] r0[m])@ == n;
                        assert(r@[m] == r0[m]);
                    }
                    if n == name@ {
                        assert(r@[r0.len() as int]@ == n);
                    }
                    if named(r@, n) {
                        let m = choose|m: int| 0 <= m < r@.len() && (#[trigger] r@[m])@ == n;
                        if m < r0.len() {
                            assert(r0[m] == r@[m]);
                        }
                    }
                }
                assert forall|a: int, b: int| 0 <= a < b < r@.len() implies (#[trigger] r@[a])@ != (
                #[trigger] r@[b])@ by {
                    if b == r0.len() {
                        assert(r@[a] == r0[a]);
                        if r0[a]@ == name@ {
                            assert(named(r0, name@));
                        }
                    } else {
                        assert(r@[a] == r0[a]);
                        assert(r@[b] == r0[b]);
                    }
                }
            }
            queue.insert(name);
        } else {
            proof {
                assert(r@ == r0);
                assert forall|n: Seq<char>| named(r@, n) == (named(t, n) && !old(queue)@.contains(n)) by {
                    if n == name@ && !old(queue)@.contains(n) {
                        assert(named(t0, n));
                    }
                }
            }
        }
        proof {
            assert(queue@ =~= old(queue)@.union(Set::new(|n: Seq<char>| named(t, n))));
        }
        i = i + 1;
    }
    assert(names@.take(i as int) =~= names@);
    r
}

/// What to do with an autoscaler taken from the work queue.
#[derive(Clone, Copy, Debug, PartialEq, Eq, Structural)]
pub enum WorkAction {
    /// It is still stored: reconcile it, then schedule its next check.
    Reconcile,
    /// It was deleted: forget its history.
    Forget,
}

/// Takes the autoscaler `name` from the work queue: it no longer waits; it
/// is reconciled when it is still `stored`, and forgotten otherwise.
pub fn take_work_item(queue: &mut InQueue, name: &str, stored: bool) -> (a: WorkAction)
    ensures
        final(queue)@ == old(queue)@.remove(name@),
        a == if stored {
            WorkAction::Reconcile
        } else {
            WorkAction::Forget
        },
{
    queue.remove(name);
    if stored {
        WorkAction::Reconcile
    } else {
        WorkAction::Forget
    }
}

/// Law: once the stored autoscalers were listed again, each of them waits,
/// so listing the same ones again schedules none of them.
pub proof fn lemma_resync_settles(queue: Set<Seq<char>>, names: Seq<String>, n: Seq<char>)
    ensures
        named(names, n) ==> queue.union(Set::new(|m: Seq<char>| named(names, m))).contains(n),
{
}

} // verus!
