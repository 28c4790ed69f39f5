use vstd::prelude::*;
use crate::event_id::same_id;

verus! {

/// Capacity-bounded cache of recently admitted ids, least recently used first.
pub struct BoundedRecencyCache {
    ids: Vec<Vec<u8>>,
    capacity: usize,
}

impl BoundedRecencyCache {
    /// The cached ids, from least to most recently used.
    pub closed spec fn view(&self) -> Seq<Seq<u8>> {
        Seq::new(self.ids@.len(), |i: int| self.ids@[i]@)
    }

    pub closed spec fn cap(&self) -> nat {
        self.capacity as nat
    }

    pub closed spec fn wf(&self) -> bool {
        &&& self.capacity > 0
        &&& self.ids@.len() <= self.capacity
        &&& self.view().no_duplicates()
    }

    /// A well-formed cache has room for at least one id, holds no more than
    /// its capacity, and holds each id once.
    pub proof fn lemma_bounds(&self)
        requires
            self.wf(),
        ensures
            self.cap() > 0,
            self.view().len() <= self.cap(),
            self.view().no_duplicates(),
    {
    }

    /// Creates an empty cache holding at most `capacity` ids (at least one).
    pub fn new(capacity: usize) -> (r: Self)
        ensures
            r.wf(),
            r.view() == Seq::<Seq<u8>>::empty(),
            r.cap() == if capacity == 0 { 1 } else { capacity as nat },
    {
        let c: usize = if capacity == 0 { 1 } else { capacity };
        let r = BoundedRecencyCache { ids: Vec::new(), capacity: c };
        assert(r.view() =~= Seq::<Seq<u8>>::empty());
        r
    }

    /// Number of cached ids.
    pub fn len(&self) -> (r: usize)
        ensures
            r == self.view().len(),
    {
        self.ids.len()
    }

    fn position(&self, id: &[u8]) -> (r: Option<usize>)
        ensures
            match r {
                Some(i) => i < self.view().len() && self.view()[i as int] == id@,
                None => !self.view().contains(id@),
            },
    {
        let mut i: usize = 0;
        while i < self.ids.len()
            invariant
                0 <= i <= self.ids@.len(),
                forall|j: int| 0 <= j < i ==> self.view()[j] != id@,
            decreases self.ids@.len() - i,
        {
            if same_id(self.ids[i].as_slice(), id) {
                return Some(i);
            }
            i = i + 1;
        }
        None
    }

    /// Reports whether `id` is cached, without changing the order.
    pub fn contains(&self, id: &[u8]) -> (r: bool)
        ensures
            r == self.view().contains(id@),
    {
        self.position(id).is_some()
    }

    /// Looks `id` up; on a hit it becomes the most recently used entry.
    pub fn touch(&mut self, id: &[u8]) -> (r: bool)
        requires
            old(self).wf(),
        ensures
            final(self).wf(),
            final(self).cap() == old(self).cap(),
            r == old(self).view().contains(id@),
            r ==> exists|i: int|
                0 <= i < old(self).view().len() && old(self).view()[i] == id@
                    && final(self).view() == old(self).view().remove(i).push(id@),
            !r ==> final(self).view() == old(self).view(),
    {
        match self.position(id) {
            None => false,
            Some(i) => {
                let ghost v0 = self.view();
                let e = self.ids.remove(i);
                assert(self.view() =~= v0.remove(i as int));
                self.ids.push(e);
                assert(self.view() =~= v0.remove(i as int).push(id@));
                proof {
                    let v1 = v0.remove(i as int);
                    assert forall|a: int, b: int| 0 <= a < b < self.view().len()
                        implies self.view()[a] != self.view()[b] by {
                        if b == v1.len() {
                            assert(v0[i as int] == id@);
                            if a < i {
                                assert(v1[a] == v0[a]);
                            } else {
                                assert(v1[a] == v0[a + 1]);
                            }
                        } else if a < i && b < i {
                            assert(v1[a] == v0[a] && v1[b] == v0[b]);
                        } else if a < i {
                            assert(v1[a] == v0[a] && v1[b] == v0[b + 1]);
                        } else {
                            assert(v1[a] == v0[a + 1] && v1[b] == v0[b + 1]);
                        }
                    }
                }
                true
            },
        }
    }

    /// Records `id` as the most recently used entry. An id already cached is
    /// moved there; otherwise, when full, the least recently used entry is
    /// evicted first.
    pub fn insert(&mut self, id: &[u8])
        requires
            old(self).wf(),
        ensures
            final(self).wf(),
            final(self).cap() == old(self).cap(),
            old(self).view().contains(id@) ==> exists|i: int|
                0 <= i < old(self).view().len() && old(self).view()[i] == id@
                    && final(self).view() == old(self).view().remove(i).push(id@),
            !old(self).view().contains(id@) ==> final(self).view() == if old(self).view().len() == old(self).cap() {
                old(self).view().drop_first().push(id@)
            } else {
                old(self).view().push(id@)
            },
    {
        if self.touch(id) {
            return;
        }
        let ghost v0 = self.view();
        if self.ids.len() == self.capacity {
            self.ids.remove(0);
            assert(self.view() =~= v0.drop_first());
        }
        let ghost v1 = self.view();
        let e = crate::event_id::copy_id(id);
        self.ids.push(e);
        assert(self.view() =~= v1.push(id@));
        proof {
            assert forall|a: int, b: int| 0 <= a < b < self.view().len()
                implies self.view()[a] != self.view()[b] by {
                if b == v1.len() {
                    assert(v1[a] == v0[a + v0.len() - v1.len()]);
                    assert(!v0.contains(id@));
                } else {
                    assert(v1[a] == v0[a + v0.len() - v1.len()]);
                    assert(v1[b] == v0[b + v0.len() - v1.len()]);
                }
            }
        }
    }
}

} // verus!
