//! Identifier pools. A pool numbers the records of one namespace: it hands
//! out a released identifier where it has one, and counts upward otherwise.
//! Warehouses reuse the smallest released identifier first, stock items the
//! one released last.

use vstd::prelude::*;

verus! {

/// A pool as the contracts see it: the next identifier that was never handed
/// out, and the released identifiers in the order of their release.
pub struct PoolView {
    pub next: u64,
    pub recycled: Seq<u64>,
}

impl PoolView {
    /// No identifier waits twice for reuse.
    pub open spec fn wf(self) -> bool {
        self.recycled.no_duplicates()
    }

    /// Whether the pool has an identifier left to hand out.
    pub open spec fn can_allocate(self) -> bool {
        self.recycled.len() > 0 || self.next < u64::MAX
    }

    /// Whether `id` is the smallest of the released identifiers.
    pub open spec fn smallest_recycled(self, id: u64) -> bool {
        self.recycled.contains(id) && forall|j: int|
            0 <= j < self.recycled.len() ==> id <= #[trigger] self.recycled[j]
    }

    /// The pool after `id`, which has to be the smallest released identifier
    /// where there is one, and the counter's value otherwise, was handed out.
    pub open spec fn without(self, id: u64) -> PoolView {
        if self.recycled.len() > 0 {
            PoolView { next: self.next, recycled: self.recycled.remove(self.recycled.index_of(id)) }
        } else {
            PoolView { next: (self.next + 1) as u64, recycled: self.recycled }
        }
    }

    /// Whether handing out `id` by the smallest-first rule leads from `self`
    /// to `post`.
    pub open spec fn allocates_smallest(self, id: u64, post: PoolView) -> bool {
        &&& post == self.without(id)
        &&& if self.recycled.len() > 0 {
            self.smallest_recycled(id)
        } else {
            id == self.next
        }
    }

    /// The identifier that the latest-first rule hands out next: the one
    /// released last where there is any, else the counter's value.
    pub open spec fn latest(self) -> u64 {
        if self.recycled.len() > 0 {
            self.recycled.last()
        } else {
            self.next
        }
    }

    /// Whether handing out `id` by the latest-first rule leads from `self`
    /// to `post`.
    pub open spec fn allocates_latest(self, id: u64, post: PoolView) -> bool {
        &&& id == self.latest()
        &&& post == if self.recycled.len() > 0 {
            PoolView { next: self.next, recycled: self.recycled.drop_last() }
        } else {
            PoolView { next: (self.next + 1) as u64, recycled: self.recycled }
        }
    }

    /// The pool after `id` was released: it is added behind the others,
    /// unless it is waiting already.
    pub open spec fn released(self, id: u64) -> PoolView {
        if self.recycled.contains(id) {
            self
        } else {
            PoolView { next: self.next, recycled: self.recycled.push(id) }
        }
    }
}

/// The identifier pool of one namespace.
#[derive(Debug)]
pub struct IdPool {
    next: u64,
    recycled: Vec<u64>,
}

impl View for IdPool {
    type V = PoolView;

    closed spec fn view(&self) -> PoolView {
        PoolView { next: self.next, recycled: self.recycled@ }
    }
}

impl IdPool {
    /// A pool that has handed out nothing: its first identifier is 1.
    pub fn new() -> (pool: Self)
        ensures
            pool@ == (PoolView { next: 1, recycled: Seq::empty() }),
    {
        IdPool { next: 1, recycled: Vec::new() }
    }

    /// Whether the pool has an identifier left to hand out.
    pub fn can_allocate(&self) -> (able: bool)
        ensures
            able == self@.can_allocate(),
    {
        self.recycled.len() > 0 || self.next < u64::MAX
    }

    /// Whether `id` is waiting for reuse.
    pub fn is_recycled(&self, id: u64) -> (found: bool)
        ensures
            found == self@.recycled.contains(id),
    {
        let mut i: usize = 0;
        while i < self.recycled.len()
            invariant
                i <= self.recycled.len(),
                forall|j: int| 0 <= j < i ==> self.recycled@[j] != id,
            decreases self.recycled.len() - i,
        {
            if self.recycled[i] == id {
                return true;
            }
            i += 1;
        }
        false
    }

    /// Takes `id` back for reuse. Releasing an identifier that is waiting
    /// already changes nothing.
    pub fn release(&mut self, id: u64)
        ensures
            final(self)@ == old(self)@.released(id),
            old(self)@.wf() ==> final(self)@.wf(),
    {
        if !self.is_recycled(id) {
            self.recycled.push(id);
        }
    }
}

/// The next warehouse identifier: the smallest released one where there is
/// any, else the counter's value, which then goes up by one.
pub fn get_next_warehouse_id(pool: &mut IdPool) -> (id: u64)
    requires
        old(pool)@.wf(),
        old(pool)@.can_allocate(),
    ensures
        old(pool)@.allocates_smallest(id, final(pool)@),
        final(pool)@.wf(),
{
    if pool.recycled.len() > 0 {
        let mut best: usize = 0;
        let mut i: usize = 1;
        while i < pool.recycled.len()
            invariant
                0 <= best < i <= pool.recycled.len(),
                forall|j: int| 0 <= j < i ==> pool.recycled@[best as int] <= pool.recycled@[j],
            decreases pool.recycled.len() - i,
        {
            if pool.recycled[i] < pool.recycled[best] {
                best = i;
            }
            i += 1;
        }
        proof {
            let s = pool.recycled@;
            assert(s.contains(s[best as int]));
            assert(s.index_of(s[best as int]) == best as int);
        }
        let id = pool.recycled.remove(best);
        proof {
            old(pool)@.recycled.remove_ensures(best as int);
        }
        id
    } else {
        let id = pool.next;
        pool.next = pool.next + 1;
        id
    }
}

/// The next stock item identifier: the one released last where there is any,
/// else the counter's value, which then goes up by one.
pub fn get_next_item_id(pool: &mut IdPool) -> (id: u64)
    requires
        old(pool)@.wf(),
        old(pool)@.can_allocate(),
    ensures
        old(pool)@.allocates_latest(id, final(pool)@),
        final(pool)@.wf(),
{
    match pool.recycled.pop() {
        Some(id) => id,
        None => {
            let id = pool.next;
            pool.next = pool.next + 1;
            id
        },
    }
}

} // verus!
