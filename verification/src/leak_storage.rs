//! Indexed storage for tasks and wake capabilities.
//!
//! Every live task and every outstanding wake capability of the reactor is
//! owned by an arena of this kind and referenced only by an integer handle.
//! A handle carries the generation of its slot, so a handle kept past the
//! removal of its entry is detectably invalid instead of referencing freed
//! or reused memory.

use vstd::prelude::*;

verus! {

/// A generation-checked handle into a [`LeakStorage`] slot.
///
/// The `index` selects a slot; the handle is honoured only while the slot's
/// current generation equals `generation`.
#[derive(Clone, Copy, Debug, Hash, PartialEq, Eq, Structural)]
pub struct Key {
    pub index: usize,
    pub generation: u64,
}

/// Mathematical model of a [`LeakStorage`]: the contents of every slot and
/// the current generation of every slot.
#[verifier::ext_equal]
pub ghost struct StorageModel<T> {
    pub slots: Seq<Option<T>>,
    pub gens: Seq<u64>,
}

impl<T> StorageModel<T> {
    pub open spec fn wf(self) -> bool {
        self.gens.len() == self.slots.len()
    }

    pub open spec fn in_bounds(self, k: Key) -> bool {
        k.index < self.slots.len()
    }

    /// `k` currently names a stored value.
    pub open spec fn valid(self, k: Key) -> bool {
        &&& self.in_bounds(k)
        &&& self.slots[k.index as int] is Some
        &&& self.gens[k.index as int] == k.generation
    }

    /// The value named by `k`.
    pub open spec fn value_at(self, k: Key) -> T
        recommends
            self.valid(k),
    {
        self.slots[k.index as int]->0
    }

    /// `k` named an entry that has since been removed. A stale handle can
    /// never become valid again, however the storage grows or reuses slots.
    pub open spec fn stale(self, k: Key) -> bool {
        &&& self.in_bounds(k)
        &&& if self.gens[k.index as int] == k.generation {
                k.generation == u64::MAX && self.slots[k.index as int] is None
            } else {
                self.gens[k.index as int] > k.generation
            }
    }
}

/// Model of removing the entry named by `k`; no change when `k` is not valid.
pub open spec fn spec_remove<T>(m: StorageModel<T>, k: Key) -> StorageModel<T> {
    if m.valid(k) {
        StorageModel {
            slots: m.slots.update(k.index as int, None),
            gens: if k.generation < u64::MAX {
                m.gens.update(k.index as int, (k.generation + 1) as u64)
            } else {
                m.gens
            },
        }
    } else {
        m
    }
}

/// Model of replacing the value named by `k`; no change when `k` is not valid.
pub open spec fn spec_set<T>(m: StorageModel<T>, k: Key, v: T) -> StorageModel<T> {
    if m.valid(k) {
        StorageModel { slots: m.slots.update(k.index as int, Some(v)), gens: m.gens }
    } else {
        m
    }
}

/// Relation between the models before and after an insertion returning `k`:
/// either a vacated slot was reused under its current generation, or a fresh
/// slot was appended at generation zero.
pub open spec fn inserted<T>(m0: StorageModel<T>, m1: StorageModel<T>, k: Key, v: T) -> bool {
    if k.index < m0.slots.len() {
        &&& m0.slots[k.index as int] is None
        &&& k.generation == m0.gens[k.index as int]
        &&& k.generation < u64::MAX
        &&& m1.slots == m0.slots.update(k.index as int, Some(v))
        &&& m1.gens == m0.gens
    } else {
        &&& k.index == m0.slots.len()
        &&& k.generation == 0
        &&& m1.slots == m0.slots.push(Some(v))
        &&& m1.gens == m0.gens.push(0)
    }
}

/// Arena of all in-flight values of one kind, owned by the reactor and
/// referenced only by [`Key`] handles.
pub struct LeakStorage<T> {
    slots: Vec<Option<T>>,
    gens: Vec<u64>,
    free: Vec<usize>,
}

impl<T> View for LeakStorage<T> {
    type V = StorageModel<T>;

    closed spec fn view(&self) -> StorageModel<T> {
        StorageModel { slots: self.slots@, gens: self.gens@ }
    }
}

impl<T> LeakStorage<T> {
    /// Structural well-formedness: the free list names distinct vacant slots
    /// whose generation can still be advanced.
    pub closed spec fn inv(&self) -> bool {
        &&& self.gens@.len() == self.slots@.len()
        &&& forall|j: int|
                0 <= j < self.free@.len() ==> {
                    &&& (#[trigger] self.free@[j]) < self.slots@.len()
                    &&& self.slots@[self.free@[j] as int] is None
                    &&& self.gens@[self.free@[j] as int] < u64::MAX
                }
        &&& forall|j1: int, j2: int|
                #![trigger self.free@[j1], self.free@[j2]]
                0 <= j1 < j2 < self.free@.len() ==> self.free@[j1] != self.free@[j2]
    }

    pub fn new() -> (s: Self)
        ensures
            s.inv(),
            s@.slots.len() == 0,
            s@.gens.len() == 0,
    {
        LeakStorage { slots: Vec::new(), gens: Vec::new(), free: Vec::new() }
    }

    /// Store `item` and return a fresh handle for it. The handle is distinct
    /// from every handle that is currently valid and from every handle that
    /// has gone stale.
    pub fn insert(&mut self, item: T) -> (k: Key)
        requires
            old(self).inv(),
        ensures
            final(self).inv(),
            final(self)@.wf() == old(self)@.wf(),
            inserted(old(self)@, final(self)@, k, item),
            final(self)@.valid(k),
            final(self)@.value_at(k) == item,
            !old(self)@.valid(k),
            !old(self)@.stale(k),
            forall|k2: Key|
                old(self)@.valid(k2) ==> final(self)@.valid(k2)
                    && final(self)@.value_at(k2) == old(self)@.value_at(k2)
                    && k2.index != k.index,
            forall|k2: Key| final(self)@.valid(k2) && k2 != k ==> old(self)@.valid(k2),
            forall|k2: Key| old(self)@.stale(k2) ==> final(self)@.stale(k2),
    {
        match self.free.pop() {
            Some(i) => {
                let g = self.gens[i];
                self.slots[i] = Some(item);
                Key { index: i, generation: g }
            }
            None => {
                let i = self.slots.len();
                self.slots.push(Some(item));
                self.gens.push(0);
                Key { index: i, generation: 0 }
            }
        }
    }

    /// Move the value named by `key` out of the storage and retire the slot,
    /// advancing its generation so that `key` goes stale.
    pub fn get(&mut self, key: Key) -> (r: Option<T>)
        requires
            old(self).inv(),
        ensures
            final(self).inv(),
            final(self)@ == spec_remove(old(self)@, key),
            r == if old(self)@.valid(key) { Some(old(self)@.value_at(key)) } else { None::<T> },
            old(self)@.valid(key) ==> final(self)@.stale(key),
            forall|k2: Key|
                k2 != key && old(self)@.valid(k2) ==> final(self)@.valid(k2)
                    && final(self)@.value_at(k2) == old(self)@.value_at(k2),
            forall|k2: Key| final(self)@.valid(k2) ==> old(self)@.valid(k2),
            forall|k2: Key| old(self)@.stale(k2) ==> final(self)@.stale(k2),
    {
        if key.index >= self.slots.len() {
            return None;
        }
        if self.gens[key.index] != key.generation {
            return None;
        }
        let mut taken: Option<T> = None;
        core::mem::swap(&mut taken, &mut self.slots[key.index]);
        match taken {
            Some(v) => {
                if key.generation < u64::MAX {
                    let g1 = key.generation + 1;
                    self.gens[key.index] = g1;
                    if g1 < u64::MAX {
                        self.free.push(key.index);
                    }
                }
                Some(v)
            }
            None => {
                proof {
                    assert(self.slots@ =~= old(self).slots@);
                }
                None
            }
        }
    }

    /// Remove the entry named by `key`, dropping its value; report whether
    /// anything was removed.
    pub fn remove(&mut self, key: Key) -> (removed: bool)
        requires
            old(self).inv(),
        ensures
            final(self).inv(),
            final(self)@ == spec_remove(old(self)@, key),
            removed == old(self)@.valid(key),
            old(self)@.valid(key) ==> final(self)@.stale(key),
            forall|k2: Key|
                k2 != key && old(self)@.valid(k2) ==> final(self)@.valid(k2)
                    && final(self)@.value_at(k2) == old(self)@.value_at(k2),
            forall|k2: Key| final(self)@.valid(k2) ==> old(self)@.valid(k2),
            forall|k2: Key| old(self)@.stale(k2) ==> final(self)@.stale(k2),
    {
        self.get(key).is_some()
    }

    /// Borrow the value named by `key`, if the handle is still valid.
    pub fn get_ref(&self, key: Key) -> (r: Option<&T>)
        requires
            self.inv(),
        ensures
            match r {
                Some(v) => self@.valid(key) && *v == self@.value_at(key),
                None => !self@.valid(key),
            },
    {
        if key.index >= self.slots.len() {
            return None;
        }
        if self.gens[key.index] != key.generation {
            return None;
        }
        match &self.slots[key.index] {
            Some(v) => Some(v),
            None => None,
        }
    }

    /// Borrow the value named by `key` mutably. The handle must be valid;
    /// the slot keeps its generation and stays valid, holding whatever the
    /// caller leaves behind the reference.
    pub fn get_ref_mut(&mut self, key: Key) -> (r: &mut T)
        requires
            old(self).inv(),
            old(self)@.valid(key),
        ensures
            final(self).inv(),
            *r == old(self)@.value_at(key),
            final(self)@.slots == old(self)@.slots.update(key.index as int, Some(*final(r))),
            final(self)@.gens == old(self)@.gens,
            final(self)@.valid(key),
            final(self)@.value_at(key) == *final(r),
    {
        match &mut self.slots[key.index] {
            Some(v) => v,
            None => unreached(),
        }
    }

    /// Replace the value named by `key`, returning the previous value; the
    /// handle stays valid and the slot keeps its generation.
    pub fn set(&mut self, key: Key, value: T) -> (prev: Option<T>)
        requires
            old(self).inv(),
        ensures
            final(self).inv(),
            final(self)@ == spec_set(old(self)@, key, value),
            prev == if old(self)@.valid(key) { Some(old(self)@.value_at(key)) } else { None::<T> },
            old(self)@.valid(key) ==> final(self)@.valid(key)
                && final(self)@.value_at(key) == value,
            forall|k2: Key|
                k2 != key && old(self)@.valid(k2) ==> final(self)@.valid(k2)
                    && final(self)@.value_at(k2) == old(self)@.value_at(k2),
            forall|k2: Key| final(self)@.valid(k2) ==> old(self)@.valid(k2),
            forall|k2: Key| old(self)@.stale(k2) ==> final(self)@.stale(k2),
    {
        if key.index >= self.slots.len() {
            return None;
        }
        if self.gens[key.index] != key.generation {
            return None;
        }
        if self.slots[key.index].is_some() {
            let mut replaced: Option<T> = Some(value);
            core::mem::swap(&mut replaced, &mut self.slots[key.index]);
            replaced
        } else {
            None
        }
    }
}

/// An arena's model always fits the machine: the slots are a vector's.
pub proof fn lemma_model_fits<T>(s: &LeakStorage<T>)
    ensures
        s@.slots.len() <= usize::MAX,
{
    broadcast use vstd::std_specs::vec::axiom_spec_len;

    assert(vstd::std_specs::vec::spec_vec_len(&s.slots) <= usize::MAX);
}

/// No two live entries share a handle: two valid handles into the same slot
/// are the same handle.
pub proof fn lemma_handle_unique<T>(m: StorageModel<T>, k1: Key, k2: Key)
    requires
        m.valid(k1),
        m.valid(k2),
        k1.index == k2.index,
    ensures
        k1 == k2,
{
}

/// A stale handle is never honoured: once its entry is removed, a handle can
/// never again name a stored value, even after the slot is reused.
pub proof fn lemma_stale_not_valid<T>(m: StorageModel<T>, k: Key)
    requires
        m.stale(k),
    ensures
        !m.valid(k),
{
}

} // verus!
