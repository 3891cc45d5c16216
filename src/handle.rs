//! A table that owns objects on behalf of a caller who holds only integer
//! tokens.
//!
//! A token is the slot's position plus one, so `0` is never issued and can
//! serve callers as a "no handle" value. Slots are never handed out twice:
//! once an object is destroyed or taken out, its token stays dead to users of
//! the table, and any later use of it is reported instead of reaching another
//! object. Only this crate may put an object back into a slot it took it
//! from, to change the object in place.
use vstd::prelude::*;

verus! {

pub type Handle = u64;

/// Slot index of a token, or `-1` for the null token.
pub open spec fn slot_of(h: Handle) -> int {
    h as int - 1
}

pub struct HandleTable<T> {
    slots: Vec<Option<T>>,
}

impl<T> HandleTable<T> {
    /// The table as a sequence of slots; `None` marks a destroyed object.
    pub closed spec fn view(&self) -> Seq<Option<T>> {
        self.slots@
    }

    /// `h` names an object that was allocated and not yet destroyed.
    pub open spec fn live(&self, h: Handle) -> bool {
        0 <= slot_of(h) < self@.len() && self@[slot_of(h)] is Some
    }

    /// The object named by a live token.
    pub open spec fn object(&self, h: Handle) -> T
        recommends
            self.live(h),
    {
        self@[slot_of(h)]->Some_0
    }

    /// Number of tokens issued so far.
    pub open spec fn issued(&self) -> nat {
        self@.len()
    }

    pub fn new() -> (r: Self)
        ensures
            r@ == Seq::<Option<T>>::empty(),
    {
        HandleTable { slots: Vec::new() }
    }

    /// Moves `obj` into the table and returns a token never issued before.
    /// Returns `None`, changing nothing, once every token has been issued.
    pub fn allocate(&mut self, obj: T) -> (r: Option<Handle>)
        ensures
            old(self).issued() < u64::MAX ==> (r matches Some(h) && h as int == old(self).issued()
                + 1 && final(self)@ == old(self)@.push(Some(obj)) && final(self).live(h)
                && final(self).object(h) == obj),
            old(self).issued() >= u64::MAX ==> r is None && *final(self) == *old(self),
    {
        if self.slots.len() as u64 >= u64::MAX {
            return None;
        }
        self.slots.push(Some(obj));
        Some(self.slots.len() as u64)
    }

    /// The object named by `h`, or `None` if `h` is not live.
    pub fn resolve(&self, h: Handle) -> (r: Option<&T>)
        ensures
            self.live(h) ==> r == Some(&self.object(h)),
            !self.live(h) ==> r is None,
    {
        if h == 0 || h > self.slots.len() as u64 {
            return None;
        }
        match &self.slots[(h - 1) as usize] {
            Some(obj) => Some(obj),
            None => None,
        }
    }

    /// Takes the object named by `h` out of the table and invalidates the
    /// token, as `destroy` does, but hands the object back.
    pub fn take(&mut self, h: Handle) -> (r: Option<T>)
        ensures
            old(self).live(h) ==> r == Some(old(self).object(h)) && final(self)@ == old(
                self,
            )@.update(slot_of(h), None),
            !old(self).live(h) ==> r is None && *final(self) == *old(self),
    {
        if h == 0 || h > self.slots.len() as u64 {
            return None;
        }
        let i = (h - 1) as usize;
        if self.slots[i].is_none() {
            return None;
        }
        // Park an empty slot at the end, then swap it into position `i`.
        self.slots.push(None);
        let r = self.slots.swap_remove(i);
        assert(self.slots@ =~= old(self).slots@.update(i as int, None));
        r
    }

    /// Puts `obj` back into the slot of `h`, which `take` emptied, so that
    /// this crate can change an object in place.
    pub(crate) fn restore(&mut self, h: Handle, obj: T)
        requires
            0 <= slot_of(h) < old(self)@.len(),
        ensures
            final(self)@ == old(self)@.update(slot_of(h), Some(obj)),
    {
        let n = self.slots.len();
        assert(h - 1 < n);
        self.slots.set((h - 1) as usize, Some(obj));
    }

    /// Destroys the object named by `h` and invalidates the token. Every other
    /// slot is left as it was. Returns `false`, changing nothing, when `h` is
    /// not live.
    pub fn destroy(&mut self, h: Handle) -> (r: bool)
        ensures
            r == old(self).live(h),
            r ==> final(self)@ == old(self)@.update(slot_of(h), None),
            !r ==> *final(self) == *old(self),
            !final(self).live(h),
    {
        let obj = self.take(h);
        obj.is_some()
    }
}

} // verus!
