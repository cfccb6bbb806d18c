use crate::editor::buffer::Buffer;
use vstd::prelude::*;

verus! {

/// The open buffers, each under the id it was given when added. Ids are
/// handed out in increasing order and never reused.
#[derive(Debug)]
pub struct BufferManager {
    buffers: Vec<Option<Buffer>>,
}

impl Default for BufferManager {
    fn default() -> (r: Self)
        ensures
            r.buffers() == Map::<usize, Buffer>::empty(),
            r.next_id() == 0,
    {
        BufferManager { buffers: Vec::new() }
    }
}

impl BufferManager {
    /// The buffers by id.
    pub closed spec fn buffers(&self) -> Map<usize, Buffer> {
        Map::new(
            |id: usize| id < self.buffers@.len() && self.buffers@[id as int] is Some,
            |id: usize| self.buffers@[id as int]->0,
        )
    }

    /// The ids below `n` that hold a buffer, in increasing order.
    pub closed spec fn ids_below(&self, n: int) -> Seq<usize>
        decreases n,
    {
        if n <= 0 {
            Seq::empty()
        } else {
            let rest = self.ids_below(n - 1);
            if self.buffers().dom().contains((n - 1) as usize) {
                rest.push((n - 1) as usize)
            } else {
                rest
            }
        }
    }

    /// The ids of the buffers, in increasing order.
    pub closed spec fn id_list(&self) -> Seq<usize> {
        self.ids_below(self.buffers@.len() as int)
    }

    /// The ids handed out so far, and so the buffers, number at most
    /// `usize::MAX`.
    pub proof fn lemma_buffers_fit(self)
        ensures
            self.next_id() <= usize::MAX,
            self.id_list().len() <= usize::MAX,
    {
        assert(self.buffers.len() == self.buffers@.len());
        self.lemma_id_list_len(self.buffers@.len() as int);
    }

    proof fn lemma_id_list_len(self, n: int)
        ensures
            self.ids_below(n).len() <= (if n < 0 { 0 } else { n }),
        decreases n,
    {
        if n > 0 {
            self.lemma_id_list_len(n - 1);
        }
    }

    proof fn lemma_ids_below(self)
        ensures
            forall|id: usize| #[trigger] self.buffers().contains_key(id) ==> id < self.next_id(),
    {
    }

    /// The id the next added buffer gets.
    pub closed spec fn next_id(&self) -> nat {
        self.buffers@.len()
    }

    /// No buffers.
    pub fn new() -> (r: Self)
        ensures
            r.buffers() == Map::<usize, Buffer>::empty(),
            r.next_id() == 0,
    {
        let r = BufferManager { buffers: Vec::new() };
        assert(r.buffers() =~= Map::<usize, Buffer>::empty());
        r
    }

    /// Adds `buffer` under a fresh id and returns that id.
    pub fn add(&mut self, buffer: Buffer) -> (id: usize)
        requires
            old(self).next_id() < usize::MAX,
        ensures
            id == old(self).next_id(),
            !old(self).buffers().dom().contains(id),
            final(self).buffers() == old(self).buffers().insert(id, buffer),
            final(self).next_id() == old(self).next_id() + 1,
    {
        let id = self.buffers.len();
        self.buffers.push(Some(buffer));
        assert(self.buffers() =~= old(self).buffers().insert(id, buffer));
        id
    }

    /// Whether another buffer can get an id.
    pub fn can_add(&self) -> (b: bool)
        ensures
            b == (self.next_id() < usize::MAX),
    {
        self.buffers.len() < usize::MAX
    }

    /// The buffer with id `id`, if there is one.
    pub fn get(&self, id: usize) -> (r: Option<&Buffer>)
        ensures
            match r {
                Some(b) => self.buffers().dom().contains(id) && *b == self.buffers()[id],
                None => !self.buffers().dom().contains(id),
            },
    {
        if id < self.buffers.len() {
            self.buffers[id].as_ref()
        } else {
            None
        }
    }

    /// The buffer with id `id`, to change, if there is one.
    pub fn get_mut(&mut self, id: usize) -> (r: Option<&mut Buffer>)
        ensures
            r is Some <==> old(self).buffers().dom().contains(id),
            r is Some ==> *r->0 == old(self).buffers()[id] && final(self).buffers()
                == old(self).buffers().insert(id, *final(r->0)),
            r is None ==> final(self).buffers() == old(self).buffers(),
            final(self).next_id() == old(self).next_id(),
    {
        if id < self.buffers.len() {
            let r = self.buffers[id].as_mut();
            r
        } else {
            None
        }
    }

    /// Removes the buffer with id `id` and returns it, if there is one.
    pub fn remove(&mut self, id: usize) -> (r: Option<Buffer>)
        ensures
            r == (if old(self).buffers().dom().contains(id) {
                Some(old(self).buffers()[id])
            } else {
                None::<Buffer>
            }),
            final(self).buffers() == old(self).buffers().remove(id),
            final(self).next_id() == old(self).next_id(),
    {
        if id < self.buffers.len() {
            let mut slot: Option<Buffer> = None;
            std::mem::swap(&mut slot, &mut self.buffers[id]);
            assert(self.buffers() =~= old(self).buffers().remove(id));
            slot
        } else {
            assert(self.buffers() =~= old(self).buffers().remove(id));
            None
        }
    }

    /// The ids of the buffers, in increasing order.
    pub fn ids(&self) -> (r: Vec<usize>)
        ensures
            r@ == self.id_list(),
            forall|i: int, j: int| 0 <= i < j < r@.len() ==> r@[i] < r@[j],
            forall|id: usize| self.buffers().dom().contains(id) <==> r@.contains(id),
    {
        let mut r: Vec<usize> = Vec::new();
        let mut i: usize = 0;
        while i < self.buffers.len()
            invariant
                i <= self.buffers@.len(),
                r@ == self.ids_below(i as int),
                forall|a: int, b: int| 0 <= a < b < r@.len() ==> r@[a] < r@[b],
                forall|k: int| 0 <= k < r@.len() ==> r@[k] < i,
                forall|id: usize|
                    (id < i && self.buffers().dom().contains(id)) <==> r@.contains(id),
            decreases self.buffers@.len() - i,
        {
            let ghost before = r@;
            let present = self.buffers[i].is_some();
            if present {
                r.push(i);
            }
            proof {
                assert(present == self.buffers().dom().contains(i));
                assert(forall|k: int| 0 <= k < before.len() ==> r@[k] == before[k]);
                assert forall|id: usize|
                    (id < i + 1 && self.buffers().dom().contains(id)) <==> r@.contains(id) by {
                    if r@.contains(id) {
                        let k = choose|k: int| 0 <= k < r@.len() && r@[k] == id;
                        if k < before.len() {
                            assert(before.contains(id));
                        }
                    }
                    if id < i && self.buffers().dom().contains(id) {
                        assert(before.contains(id));
                        let k = choose|k: int| 0 <= k < before.len() && before[k] == id;
                        assert(r@[k] == id);
                    }
                    if id == i && self.buffers().dom().contains(id) {
                        assert(r@[r@.len() - 1] == id);
                    }
                }
            }
            i = i + 1;
        }
        r
    }
}

/// Every buffer's id is below the id the next added buffer gets, so an id
/// that was handed out and removed is never handed out again.
pub proof fn lemma_ids_below_next(bm: BufferManager)
    ensures
        forall|id: usize| #[trigger] bm.buffers().contains_key(id) ==> id < bm.next_id(),
{
    bm.lemma_ids_below();
}

} // verus!
