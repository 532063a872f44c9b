//! State that several execution units may share, held once and reached by
//! a handle.

use vstd::prelude::*;

verus! {

/// A store of values reached by handles. A handle is the position of a slot;
/// a slot that holds no value is free and is given out again.
#[derive(Debug)]
pub struct Shared<T> {
    pub slots: Vec<Option<T>>,
}

/// The lowest position at or after `from` that holds no value, or the
/// length of `slots` where there is none.
pub open spec fn spec_first_none<T>(slots: Seq<Option<T>>, from: int) -> int
    decreases slots.len() - from,
{
    if from < 0 || from >= slots.len() {
        slots.len() as int
    } else if slots[from] is None {
        from
    } else {
        spec_first_none(slots, from + 1)
    }
}

impl<T> Shared<T> {
    /// The handle `h` reaches a value.
    pub open spec fn spec_live(&self, h: usize) -> bool {
        h < self.slots@.len() && self.slots@[h as int] is Some
    }

    /// The value that the live handle `h` reaches.
    pub open spec fn spec_get(&self, h: usize) -> T {
        self.slots@[h as int]->0
    }

    /// The lowest free slot, or the number of slots where none is free.
    pub open spec fn spec_first_free(&self) -> int {
        spec_first_none(self.slots@, 0)
    }

    /// The store is `before` with one more value, which `h` reaches.
    pub open spec fn spec_extends(&self, before: &Shared<T>, h: usize) -> bool {
        &&& !before.spec_live(h)
        &&& self.spec_live(h)
        &&& forall|k: usize|
            k != h ==> self.spec_live(k) == before.spec_live(k) && (before.spec_live(k)
                ==> self.spec_get(k) == before.spec_get(k))
    }

    /// A store without values.
    pub fn new() -> (s: Shared<T>)
        ensures
            s.slots@.len() == 0,
    {
        Shared { slots: Vec::new() }
    }

    /// Puts `value` into the lowest free slot and returns its handle.
    pub fn insert(&mut self, value: T) -> (h: usize)
        ensures
            h == old(self).spec_first_free(),
            final(self).spec_extends(old(self), h),
            final(self).spec_get(h) == value,
    {
        let mut k: usize = 0;
        while k < self.slots.len()
            invariant
                self.slots@ == old(self).slots@,
                k <= self.slots.len(),
                spec_first_none(self.slots@, k as int) == spec_first_none(self.slots@, 0),
            decreases self.slots.len() - k,
        {
            if self.slots[k].is_none() {
                self.slots[k] = Some(value);
                return k;
            }
            k += 1;
        }
        self.slots.push(Some(value));
        k
    }

    /// The value that `h` reaches, if it reaches one.
    pub fn get(&self, h: usize) -> (r: Option<&T>)
        ensures
            match r {
                Some(value) => self.spec_live(h) && *value == self.spec_get(h),
                None => !self.spec_live(h),
            },
    {
        if h < self.slots.len() {
            self.slots[h].as_ref()
        } else {
            None
        }
    }

    /// Takes the value that `h` reaches out of the store and frees the slot.
    pub fn remove(&mut self, h: usize) -> (r: Option<T>)
        ensures
            match r {
                Some(value) => old(self).spec_live(h) && value == old(self).spec_get(h),
                None => !old(self).spec_live(h),
            },
            !final(self).spec_live(h),
            forall|k: usize|
                k != h ==> final(self).spec_live(k) == old(self).spec_live(k) && (old(
                    self,
                ).spec_live(k) ==> final(self).spec_get(k) == old(self).spec_get(k)),
    {
        if h < self.slots.len() {
            self.slots.push(None);
            let value = self.slots.swap_remove(h);
            value
        } else {
            None
        }
    }

    /// Puts `value` in the place of the value that the live handle `h`
    /// reaches.
    pub fn set(&mut self, h: usize, value: T)
        requires
            old(self).spec_live(h),
        ensures
            final(self).spec_live(h),
            final(self).spec_get(h) == value,
            final(self).slots@.len() == old(self).slots@.len(),
            forall|k: usize|
                k != h ==> final(self).spec_live(k) == old(self).spec_live(k) && (old(
                    self,
                ).spec_live(k) ==> final(self).spec_get(k) == old(self).spec_get(k)),
    {
        self.slots[h] = Some(value);
    }
}

} // verus!
