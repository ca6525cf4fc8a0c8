//! The cancellation registry: at most one live entry per request id, each
//! holding the signal handle of its task. Registration of an id that is
//! already live is rejected — the fixed policy for a reused in-flight id —
//! and deregistration runs on every task exit path, so no entry outlives its
//! task. The handle type is the caller's; the registry only keeps and hands
//! it back.
use vstd::prelude::*;

use crate::str_eq;

verus! {

pub struct CancellationRegistry<T> {
    entries: Vec<(String, T)>,
}

impl<T> CancellationRegistry<T> {
    /// The registered pairs, ids as character sequences, in insertion order.
    pub closed spec fn view_entries(&self) -> Seq<(Seq<char>, T)> {
        Seq::new(self.entries@.len(), |i: int| (self.entries@[i].0@, self.entries@[i].1))
    }

    /// No id is registered twice.
    pub open spec fn wf(&self) -> bool {
        forall|i: int, j: int|
            0 <= i < j < self.view_entries().len() ==> #[trigger] self.view_entries()[i].0 != (
            #[trigger] self.view_entries()[j].0)
    }

    pub open spec fn spec_contains(&self, id: Seq<char>) -> bool {
        exists|i: int|
            0 <= i < self.view_entries().len() && #[trigger] self.view_entries()[i].0 == id
    }

    pub open spec fn spec_index_of(&self, id: Seq<char>) -> int {
        choose|i: int|
            0 <= i < self.view_entries().len() && #[trigger] self.view_entries()[i].0 == id
    }

    /// The handle registered under `id`.
    pub open spec fn spec_handle(&self, id: Seq<char>) -> T {
        self.view_entries()[self.spec_index_of(id)].1
    }

    /// An empty registry.
    pub fn new() -> (r: Self)
        ensures
            r.wf(),
            r.view_entries().len() == 0,
            forall|id: Seq<char>| !r.spec_contains(id),
    {
        let r = CancellationRegistry { entries: Vec::new() };
        proof {
            assert(r.view_entries() =~= Seq::<(Seq<char>, T)>::empty());
        }
        r
    }

    /// How many tasks are live.
    pub fn len(&self) -> (r: usize)
        ensures
            r == self.view_entries().len(),
    {
        self.entries.len()
    }

    fn find(&self, id: &str) -> (r: Option<usize>)
        ensures
            match r {
                Some(i) => i < self.view_entries().len() && self.view_entries()[i as int].0 == id@,
                None => !self.spec_contains(id@),
            },
    {
        let mut i: usize = 0;
        while i < self.entries.len()
            invariant
                i <= self.view_entries().len(),
                self.view_entries().len() == self.entries@.len(),
                forall|k: int| 0 <= k < i ==> #[trigger] self.view_entries()[k].0 != id@,
            decreases self.entries@.len() - i,
        {
            if str_eq(self.entries[i].0.as_str(), id) {
                return Some(i);
            }
            i += 1;
        }
        None
    }

    /// Registers `id`. Refused — and the registry left unchanged — when the
    /// id is already live; otherwise the pair is appended.
    pub fn register(&mut self, id: String, handle: T) -> (ok: bool)
        requires
            old(self).wf(),
        ensures
            final(self).wf(),
            ok == !old(self).spec_contains(id@),
            !ok ==> final(self).view_entries() == old(self).view_entries(),
            ok ==> final(self).view_entries() == old(self).view_entries().push((id@, handle)),
            ok ==> final(self).spec_contains(id@) && final(self).spec_handle(id@) == handle,
    {
        match self.find(id.as_str()) {
            Some(_) => {
                proof {
                    assert(self.view_entries() =~= old(self).view_entries());
                }
                false
            },
            None => {
                let ghost prev = self.view_entries();
                let ghost gid = id@;
                self.entries.push((id, handle));
                proof {
                    assert(self.view_entries() =~= prev.push((gid, handle)));
                    let n = prev.len() as int;
                    assert(self.view_entries()[n].0 == gid);
                    assert forall|i: int, j: int|
                        0 <= i < j < self.view_entries().len() implies #[trigger] self
                        .view_entries()[i].0 != (#[trigger] self.view_entries()[j].0) by {
                        if j < n {
                            assert(prev[i].0 != prev[j].0);
                        } else {
                            assert(self.view_entries()[j].0 == gid);
                            assert(!old(self).spec_contains(gid));
                            assert(self.view_entries()[i] == prev[i]);
                        }
                    }
                }
                true
            },
        }
    }

    /// The handle of a live id, for delivering a cancellation notice; `None`
    /// says the id has no registered task.
    pub fn lookup(&self, id: &str) -> (r: Option<&T>)
        requires
            self.wf(),
        ensures
            match r {
                Some(h) => self.spec_contains(id@) && *h == self.spec_handle(id@),
                None => !self.spec_contains(id@),
            },
    {
        match self.find(id) {
            Some(i) => {
                proof {
                    let k = self.spec_index_of(id@);
                    assert(self.view_entries()[k].0 == id@);
                    assert(k == i as int);
                }
                Some(&self.entries[i].1)
            },
            None => None,
        }
    }

    /// Removes `id` if it is live; every other entry is kept, in order.
    pub fn deregister(&mut self, id: &str)
        requires
            old(self).wf(),
        ensures
            final(self).wf(),
            !final(self).spec_contains(id@),
            old(self).spec_contains(id@) ==> final(self).view_entries() == old(
                self,
            ).view_entries().remove(old(self).spec_index_of(id@)),
            !old(self).spec_contains(id@) ==> final(self).view_entries() == old(
                self,
            ).view_entries(),
    {
        let ghost prev = self.view_entries();
        match self.find(id) {
            Some(i) => {
                self.entries.remove(i);
                proof {
                    assert(self.view_entries() =~= prev.remove(i as int));
                    let k = old(self).spec_index_of(id@);
                    assert(prev[k].0 == id@);
                    assert(k == i as int);
                    assert forall|m: int, n: int|
                        0 <= m < n < self.view_entries().len() implies #[trigger] self
                        .view_entries()[m].0 != (#[trigger] self.view_entries()[n].0) by {
                        let m0 = if m < i as int { m } else { m + 1 };
                        let n0 = if n < i as int { n } else { n + 1 };
                        assert(self.view_entries()[m] == prev[m0]);
                        assert(self.view_entries()[n] == prev[n0]);
                    }
                    assert forall|m: int|
                        0 <= m < self.view_entries().len() implies #[trigger] self.view_entries()[m].0
                        != id@ by {
                        let m0 = if m < i as int { m } else { m + 1 };
                        assert(self.view_entries()[m] == prev[m0]);
                        if prev[m0].0 == id@ && m0 != i as int {
                            assert(prev[m0].0 == prev[i as int].0);
                        }
                    }
                }
            },
            None => {
                proof {
                    assert(self.view_entries() =~= prev);
                }
            },
        }
    }
}

} // verus!
