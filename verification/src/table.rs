//! The two table shapes the connection keeps its bookkeeping in.
//!
//! [`ExportTable`] allocates dense ids with min-id reuse: freed ids go into
//! a min-priority set and the next allocation takes the smallest free id,
//! or appends. It backs the question and export tables, whose ids the
//! local endpoint owns.
//!
//! [`ImportTable`] is a plain mapping from id to slot with no reuse policy,
//! because the peer dictates the ids. It backs the answer and import
//! tables.

use vstd::prelude::*;
use std::collections::HashMap;

verus! {

broadcast use vstd::std_specs::hash::group_hash_axioms;

/// Mathematical view of an [`ExportTable`]: the slot sequence and the free
/// ids, kept strictly descending so that the smallest free id is last.
#[verifier::ext_equal]
pub struct ExportTableV<T> {
    pub slots: Seq<Option<T>>,
    pub free: Seq<u32>,
}

impl<T> ExportTableV<T> {
    /// Well-formedness: free ids are in range, strictly descending, and
    /// every free id names an empty slot (so the free set and the occupied
    /// ids are disjoint).
    pub open spec fn wf(self) -> bool {
        &&& forall|i: int| 0 <= i < self.free.len() ==> (#[trigger] self.free[i] as int)
            < self.slots.len()
        &&& forall|i: int, j: int|
            0 <= i < j < self.free.len() ==> #[trigger] self.free[i] > #[trigger] self.free[j]
        &&& forall|i: int|
            0 <= i < self.free.len() ==> self.slots[#[trigger] self.free[i] as int] is None
    }

    /// Whether `id` names an occupied slot.
    pub open spec fn occupied(self, id: u32) -> bool {
        (id as int) < self.slots.len() && self.slots[id as int] is Some
    }

    /// The value in slot `id`.
    pub open spec fn at(self, id: u32) -> T
        recommends
            self.occupied(id),
    {
        self.slots[id as int]->0
    }

    /// The id the next allocation will return: the smallest free id, or
    /// the append position.
    pub open spec fn next_id(self) -> u32
        recommends
            self.slots.len() < 0xffff_ffff,
    {
        if self.free.len() > 0 {
            self.free.last()
        } else {
            self.slots.len() as u32
        }
    }

    /// The table after an allocation that stores `v`.
    pub open spec fn spec_push(self, v: T) -> ExportTableV<T> {
        if self.free.len() > 0 {
            ExportTableV {
                slots: self.slots.update(self.free.last() as int, Some(v)),
                free: self.free.drop_last(),
            }
        } else {
            ExportTableV { slots: self.slots.push(Some(v)), free: self.free }
        }
    }

    /// The table after slot `id` is overwritten with `v`.
    pub open spec fn spec_update(self, id: u32, v: T) -> ExportTableV<T> {
        ExportTableV { slots: self.slots.update(id as int, Some(v)), free: self.free }
    }

    /// The table after slot `id` is freed.
    pub open spec fn spec_erase(self, id: u32) -> ExportTableV<T> {
        ExportTableV {
            slots: self.slots.update(id as int, None),
            free: self.free.insert(desc_insert_pos(self.free, id), id),
        }
    }
}

/// The position at which `id` belongs in a strictly descending sequence.
pub open spec fn desc_insert_pos(s: Seq<u32>, id: u32) -> int
    decreases s.len(),
{
    if s.len() == 0 {
        0
    } else if s[0] < id {
        0
    } else {
        1 + desc_insert_pos(s.skip(1), id)
    }
}

/// Pins `desc_insert_pos` down from its characteristic properties.
proof fn lemma_desc_insert_pos_char(s: Seq<u32>, id: u32, k: int)
    requires
        0 <= k <= s.len(),
        forall|j: int| 0 <= j < k ==> s[j] > id,
        k < s.len() ==> s[k] < id,
    ensures
        desc_insert_pos(s, id) == k,
    decreases s.len(),
{
    if s.len() == 0 {
    } else if k == 0 {
    } else {
        lemma_desc_insert_pos_char(s.skip(1), id, k - 1);
    }
}

/// A table of dense ids with min-id reuse, used for questions and exports.
pub struct ExportTable<T> {
    slots: Vec<Option<T>>,
    free_ids: Vec<u32>,
}

impl<T> View for ExportTable<T> {
    type V = ExportTableV<T>;

    closed spec fn view(&self) -> ExportTableV<T> {
        ExportTableV { slots: self.slots@, free: self.free_ids@ }
    }
}

impl<T> ExportTable<T> {
    pub fn new() -> (r: ExportTable<T>)
        ensures
            r@.slots.len() == 0,
            r@.free.len() == 0,
            r@.wf(),
    {
        ExportTable { slots: Vec::new(), free_ids: Vec::new() }
    }

    /// Whether `id` names an occupied slot.
    pub fn contains(&self, id: u32) -> (r: bool)
        ensures
            r == self@.occupied(id),
    {
        (id as usize) < self.slots.len() && self.slots[id as usize].is_some()
    }

    /// Bounds-checked lookup.
    pub fn get(&self, id: u32) -> (r: Option<&T>)
        ensures
            match r {
                Some(v) => self@.occupied(id) && *v == self@.at(id),
                None => !self@.occupied(id),
            },
    {
        if (id as usize) < self.slots.len() {
            match &self.slots[id as usize] {
                Some(v) => Some(v),
                None => None,
            }
        } else {
            None
        }
    }

    /// Stores `val` in the smallest free slot, or appends, and returns the
    /// chosen id: always the minimum of the free set when it is non-empty,
    /// and never an id whose slot is still occupied.
    pub fn push(&mut self, val: T) -> (id: u32)
        requires
            old(self)@.wf(),
            old(self)@.slots.len() < 0xffff_ffff,
        ensures
            final(self)@.wf(),
            id == old(self)@.next_id(),
            final(self)@ == old(self)@.spec_push(val),
            !old(self)@.occupied(id),
            final(self)@.occupied(id),
            final(self)@.at(id) == val,
            forall|j: int| 0 <= j < old(self)@.free.len() ==> id <= #[trigger] old(self)@.free[j],
    {
        let ghost pre = self@;
        match self.free_ids.pop() {
            Some(id) => {
                proof {
                    assert(pre.free.last() == id);
                    assert forall|j: int| 0 <= j < pre.free.len() implies id <= pre.free[j] by {
                        if j < pre.free.len() - 1 {
                            assert(pre.free[j] > pre.free[pre.free.len() - 1]);
                        }
                    }
                }
                self.slots.set(id as usize, Some(val));
                proof {
                    assert(final(self)@.wf()) by {
                        assert(forall|i: int|
                            0 <= i < final(self)@.free.len() ==> final(self)@.free[i] == pre.free[
                                i
                            ]);
                    }
                }
                id
            },
            None => {
                self.slots.push(Some(val));
                let id = self.slots.len() - 1;
                proof {
                    assert(final(self)@.wf()) by {
                        assert(forall|i: int|
                            0 <= i < final(self)@.free.len()
                                ==> final(self)@.slots[#[trigger] final(self)@.free[i] as int]
                                == pre.slots[final(self)@.free[i] as int]);
                    }
                }
                id as u32
            },
        }
    }

    /// Overwrites the occupied slot `id`.
    pub fn update(&mut self, id: u32, val: T)
        requires
            old(self)@.wf(),
            old(self)@.occupied(id),
        ensures
            final(self)@.wf(),
            final(self)@ == old(self)@.spec_update(id, val),
    {
        let ghost pre = self@;
        self.slots.set(id as usize, Some(val));
        proof {
            assert(final(self)@.wf()) by {
                assert(forall|i: int|
                    0 <= i < pre.free.len() ==> pre.slots[#[trigger] pre.free[i] as int] is None
                        && pre.free[i] != id);
            }
        }
    }

    /// Clears slot `id` and returns its id to the free set.
    pub fn erase(&mut self, id: u32)
        requires
            old(self)@.wf(),
            old(self)@.occupied(id),
        ensures
            final(self)@.wf(),
            final(self)@ == old(self)@.spec_erase(id),
    {
        let ghost pre = self@;
        self.slots.set(id as usize, None);
        let mut pos: usize = 0;
        while pos < self.free_ids.len() && self.free_ids[pos] > id
            invariant
                pos <= pre.free.len(),
                self.free_ids@ == pre.free,
                forall|j: int| 0 <= j < pos ==> #[trigger] pre.free[j] > id,
            decreases pre.free.len() - pos,
        {
            pos = pos + 1;
        }
        proof {
            if pos < pre.free.len() {
                assert(pre.free[pos as int] != id) by {
                    assert(pre.slots[pre.free[pos as int] as int] is None);
                }
            }
            lemma_desc_insert_pos_char(pre.free, id, pos as int);
        }
        self.free_ids.insert(pos, id);
        proof {
            let post = self@;
            let p = pos as int;
            assert(post.free == pre.free.insert(p, id));
            assert forall|i: int, j: int|
                0 <= i < j < post.free.len() implies #[trigger] post.free[i]
                > #[trigger] post.free[j] by {
                assert(forall|m: int|
                    0 <= m < p ==> #[trigger] post.free[m] == pre.free[m] && post.free[m] > id);
                assert(post.free[p] == id);
                assert(forall|m: int|
                    p < m < post.free.len() ==> #[trigger] post.free[m] == pre.free[m - 1]);
                if p < j < post.free.len() && 0 <= i < p {
                    assert(pre.free[i] > pre.free[j - 1] || i == j - 1);
                }
                if j == p && i < p {
                }
                if i == p && j > p {
                    assert(post.free[j] == pre.free[j - 1]);
                    assert(pre.slots[pre.free[j - 1] as int] is None);
                    assert(pre.free[j - 1] != id);
                    if j - 1 >= p {
                        if p < pre.free.len() {
                            assert(pre.free[p] < id);
                            if j - 1 > p {
                                assert(pre.free[p] > pre.free[j - 1]);
                            }
                        }
                    }
                }
            }
            assert(post.wf()) by {
                assert(forall|i: int|
                    0 <= i < post.free.len() ==> (#[trigger] post.free[i] as int)
                        < post.slots.len() && post.slots[post.free[i] as int] is None);
            }
            assert(post == pre.spec_erase(id));
        }
    }
}

/// A mapping from peer-chosen id to slot, used for answers and imports.
/// Look-ups return absent rather than failing.
pub struct ImportTable<T> {
    slots: HashMap<u32, T>,
}

impl<T> View for ImportTable<T> {
    type V = Map<u32, T>;

    closed spec fn view(&self) -> Map<u32, T> {
        self.slots@
    }
}

impl<T> ImportTable<T> {
    pub fn new() -> (r: ImportTable<T>)
        ensures
            r@ == Map::<u32, T>::empty(),
    {
        ImportTable { slots: HashMap::new() }
    }

    pub fn contains(&self, id: u32) -> (r: bool)
        ensures
            r == self@.contains_key(id),
    {
        self.slots.contains_key(&id)
    }

    pub fn get(&self, id: u32) -> (r: Option<&T>)
        ensures
            match r {
                Some(v) => self@.contains_key(id) && *v == self@[id],
                None => !self@.contains_key(id),
            },
    {
        self.slots.get(&id)
    }

    /// Installs or replaces the slot at `id`.
    pub fn insert(&mut self, id: u32, val: T)
        ensures
            final(self)@ == old(self)@.insert(id, val),
    {
        self.slots.insert(id, val);
    }

    /// Removes and returns the slot at `id`, leaving it absent.
    pub fn take(&mut self, id: u32) -> (r: Option<T>)
        ensures
            final(self)@ == old(self)@.remove(id),
            match r {
                Some(v) => old(self)@.contains_key(id) && v == old(self)@[id],
                None => !old(self)@.contains_key(id),
            },
    {
        self.slots.remove(&id)
    }
}

} // verus!
