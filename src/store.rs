//! The contents of one storage view: named lists of byte strings.
//!
//! A list is found by its address, a name plus, for a list of a group, the
//! list's key within the group. A list that was never written reads as empty.
use vstd::prelude::*;
use crate::bytes::{bytes_eq, copy_bytes, copy_values_from, values_view};

verus! {

pub type AddressView = (Seq<u8>, Option<Seq<u8>>);

pub struct ListAddress {
    pub name: Vec<u8>,
    pub group_key: Option<Vec<u8>>,
}

impl View for ListAddress {
    type V = AddressView;

    open spec fn view(&self) -> AddressView {
        (
            self.name@,
            match self.group_key {
                Some(k) => Some(k@),
                None => None,
            },
        )
    }
}

impl ListAddress {
    pub fn same(&self, other: &ListAddress) -> (r: bool)
        ensures
            r == (self@ == other@),
    {
        if !bytes_eq(&self.name, &other.name) {
            return false;
        }
        match (&self.group_key, &other.group_key) {
            (Some(a), Some(b)) => bytes_eq(a, b),
            (None, None) => true,
            _ => false,
        }
    }

    pub fn copy(&self) -> (r: ListAddress)
        ensures
            r@ == self@,
    {
        let group_key = match &self.group_key {
            Some(k) => Some(copy_bytes(k)),
            None => None,
        };
        ListAddress { name: copy_bytes(&self.name), group_key }
    }
}

pub struct StoredList {
    pub address: ListAddress,
    pub values: Vec<Vec<u8>>,
}

/// No two stored lists share an address.
pub open spec fn unique_addresses(lists: Seq<StoredList>) -> bool {
    forall|i: int, j: int|
        0 <= i < lists.len() && 0 <= j < lists.len() && i != j ==> lists[i].address@
            != lists[j].address@
}

pub open spec fn stores(lists: Seq<StoredList>, a: AddressView) -> bool {
    exists|i: int| 0 <= i < lists.len() && lists[i].address@ == a
}

/// The values of the list at address `a`, empty if none is stored there.
pub open spec fn contents(lists: Seq<StoredList>, a: AddressView) -> Seq<Seq<u8>> {
    if stores(lists, a) {
        let i = choose|i: int| 0 <= i < lists.len() && lists[i].address@ == a;
        values_view(lists[i].values@)
    } else {
        Seq::empty()
    }
}

proof fn lemma_contents_at(lists: Seq<StoredList>, k: int)
    requires
        unique_addresses(lists),
        0 <= k < lists.len(),
    ensures
        contents(lists, lists[k].address@) == values_view(lists[k].values@),
{
}

/// What removing the last value leaves of a list.
pub open spec fn after_remove_last(s: Seq<Seq<u8>>) -> Seq<Seq<u8>> {
    if s.len() == 0 {
        s
    } else {
        s.drop_last()
    }
}

/// What keeping the first `n` values leaves of a list.
pub open spec fn after_truncate(s: Seq<Seq<u8>>, n: nat) -> Seq<Seq<u8>> {
    if n < s.len() {
        s.take(n as int)
    } else {
        s
    }
}

pub struct Store {
    lists: Vec<StoredList>,
}

impl Store {
    pub closed spec fn wf(&self) -> bool {
        unique_addresses(self.lists@)
    }

    /// The values of the list at address `a`.
    pub closed spec fn list(&self, a: AddressView) -> Seq<Seq<u8>> {
        contents(self.lists@, a)
    }

    /// `other` holds the same lists as `self`, but possibly the one at `a`.
    pub open spec fn same_except(&self, other: &Store, a: AddressView) -> bool {
        forall|b: AddressView| b != a ==> #[trigger] other.list(b) == self.list(b)
    }

    pub fn new() -> (r: Store)
        ensures
            r.wf(),
            forall|a: AddressView| #[trigger] r.list(a) == Seq::<Seq<u8>>::empty(),
    {
        Store { lists: Vec::new() }
    }

    /// A copy of the whole store.
    pub fn copy(&self) -> (r: Store)
        requires
            self.wf(),
        ensures
            r.wf(),
            forall|a: AddressView| #[trigger] r.list(a) == self.list(a),
    {
        let mut lists: Vec<StoredList> = Vec::new();
        let mut i: usize = 0;
        while i < self.lists.len()
            invariant
                i <= self.lists@.len(),
                lists@.len() == i,
                forall|j: int|
                    0 <= j < i ==> (#[trigger] lists@[j]).address@ == self.lists@[j].address@
                        && values_view(lists@[j].values@) == values_view(self.lists@[j].values@),
            decreases self.lists@.len() - i,
        {
            let entry = &self.lists[i];
            let values = copy_values_from(&entry.values, 0);
            assert(values_view(entry.values@).skip(0) =~= values_view(entry.values@));
            lists.push(StoredList { address: entry.address.copy(), values });
            i += 1;
        }
        let r = Store { lists };
        assert forall|a: AddressView| #[trigger] r.list(a) == self.list(a) by {
            if stores(self.lists@, a) {
                let k = choose|k: int| 0 <= k < self.lists@.len() && self.lists@[k].address@ == a;
                lemma_contents_at(self.lists@, k);
                lemma_contents_at(r.lists@, k);
            } else {
                assert(!stores(r.lists@, a));
            }
        }
        r
    }

    /// Position of the list at address `a`, if one is stored.
    fn find(&self, a: &ListAddress) -> (r: Option<usize>)
        requires
            self.wf(),
        ensures
            r is None ==> !stores(self.lists@, a@) && self.list(a@) == Seq::<Seq<u8>>::empty(),
            r matches Some(i) ==> i < self.lists@.len() && self.lists@[i as int].address@ == a@
                && self.list(a@) == values_view(self.lists@[i as int].values@),
    {
        let mut i: usize = 0;
        while i < self.lists.len()
            invariant
                i <= self.lists@.len(),
                unique_addresses(self.lists@),
                forall|j: int| 0 <= j < i ==> self.lists@[j].address@ != a@,
            decreases self.lists@.len() - i,
        {
            if self.lists[i].address.same(a) {
                proof {
                    lemma_contents_at(self.lists@, i as int);
                }
                return Some(i);
            }
            i += 1;
        }
        None
    }

    /// Number of values in the list at `a`.
    pub fn len(&self, a: &ListAddress) -> (r: u64)
        requires
            self.wf(),
        ensures
            r == self.list(a@).len(),
    {
        match self.find(a) {
            Some(i) => self.lists[i].values.len() as u64,
            None => 0,
        }
    }

    /// A copy of the value at `pos` in the list at `a`, `None` past its end.
    pub fn get(&self, a: &ListAddress, pos: u64) -> (r: Option<Vec<u8>>)
        requires
            self.wf(),
        ensures
            pos < self.list(a@).len() ==> (r matches Some(v) && v@ == self.list(a@)[pos as int]),
            pos >= self.list(a@).len() ==> r is None,
    {
        match self.find(a) {
            Some(i) => {
                let values = &self.lists[i].values;
                if pos < values.len() as u64 {
                    Some(copy_bytes(&values[pos as usize]))
                } else {
                    None
                }
            },
            None => None,
        }
    }

    /// Copies of the values of the list at `a` from position `from` on.
    pub fn values_from(&self, a: &ListAddress, from: u64) -> (r: Vec<Vec<u8>>)
        requires
            self.wf(),
        ensures
            from <= self.list(a@).len() ==> values_view(r@) == self.list(a@).skip(from as int),
            from > self.list(a@).len() ==> r@.len() == 0,
    {
        match self.find(a) {
            Some(i) => {
                let values = &self.lists[i].values;
                if from <= values.len() as u64 {
                    copy_values_from(values, from as usize)
                } else {
                    Vec::new()
                }
            },
            None => Vec::new(),
        }
    }

    /// Puts `values` in place of the values of the list stored at `i`, and
    /// returns those it held.
    fn replace_values(&mut self, i: usize, values: Vec<Vec<u8>>) -> (prev: Vec<Vec<u8>>)
        requires
            old(self).wf(),
            i < old(self).lists@.len(),
        ensures
            final(self).wf(),
            final(self).lists@.len() == old(self).lists@.len(),
            final(self).lists@[i as int].address@ == old(self).lists@[i as int].address@,
            values_view(prev@) == old(self).list(old(self).lists@[i as int].address@),
            final(self).list(old(self).lists@[i as int].address@) == values_view(values@),
            old(self).same_except(final(self), old(self).lists@[i as int].address@),
    {
        let ghost before = self.lists@;
        let ghost a = before[i as int].address@;
        let entry = self.lists.remove(i);
        let StoredList { address, values: prev } = entry;
        self.lists.insert(i, StoredList { address, values });
        proof {
            let after = self.lists@;
            assert(after =~= before.update(i as int, after[i as int]));
            assert(unique_addresses(after)) by {
                assert forall|x: int, y: int|
                    0 <= x < after.len() && 0 <= y < after.len() && x != y implies after[x].address@
                    != after[y].address@ by {
                    assert(before[x].address@ == after[x].address@);
                    assert(before[y].address@ == after[y].address@);
                }
            }
            lemma_contents_at(before, i as int);
            lemma_contents_at(after, i as int);
            assert forall|b: AddressView| b != a implies #[trigger] contents(after, b) == contents(
                before,
                b,
            ) by {
                if stores(before, b) {
                    let k = choose|k: int| 0 <= k < before.len() && before[k].address@ == b;
                    lemma_contents_at(before, k);
                    lemma_contents_at(after, k);
                } else {
                    assert forall|k: int| 0 <= k < after.len() implies after[k].address@ != b by {
                        assert(before[k].address@ == after[k].address@);
                    }
                }
            }
        }
        prev
    }

    /// Puts `values` back at position `i`, emptied by `replace_values`, and
    /// shows that every other list is as it was in `pre`.
    fn put_values(&mut self, i: usize, values: Vec<Vec<u8>>, Ghost(pre): Ghost<Store>)
        requires
            old(self).wf(),
            i < old(self).lists@.len(),
            pre.same_except(old(self), old(self).lists@[i as int].address@),
        ensures
            final(self).wf(),
            final(self).list(old(self).lists@[i as int].address@) == values_view(values@),
            pre.same_except(final(self), old(self).lists@[i as int].address@),
    {
        let ghost mid = *self;
        let ghost a = self.lists@[i as int].address@;
        self.replace_values(i, values);
        assert forall|b: AddressView| b != a implies #[trigger] self.list(b) == pre.list(b) by {
            assert(mid.list(b) == pre.list(b));
        }
    }

    /// Stores a new list at an address where none is stored yet.
    fn insert_list(&mut self, a: &ListAddress, values: Vec<Vec<u8>>)
        requires
            old(self).wf(),
            !stores(old(self).lists@, a@),
        ensures
            final(self).wf(),
            final(self).list(a@) == values_view(values@),
            old(self).same_except(final(self), a@),
    {
        let ghost before = self.lists@;
        self.lists.push(StoredList { address: a.copy(), values });
        proof {
            let after = self.lists@;
            let n = before.len() as int;
            assert(after[n].address@ == a@);
            lemma_contents_at(after, n);
            assert forall|b: AddressView| b != a@ implies #[trigger] contents(after, b) == contents(
                before,
                b,
            ) by {
                if stores(before, b) {
                    let k = choose|k: int| 0 <= k < before.len() && before[k].address@ == b;
                    lemma_contents_at(before, k);
                    assert(after[k] == before[k]);
                    lemma_contents_at(after, k);
                } else {
                    assert forall|k: int| 0 <= k < after.len() implies after[k].address@ != b by {
                        if k < n {
                            assert(after[k] == before[k]);
                        }
                    }
                }
            }
        }
    }

    /// Appends `v` to the list at `a`.
    pub fn push(&mut self, a: &ListAddress, v: Vec<u8>)
        requires
            old(self).wf(),
        ensures
            final(self).wf(),
            final(self).list(a@) == old(self).list(a@).push(v@),
            old(self).same_except(final(self), a@),
    {
        match self.find(a) {
            Some(i) => {
                let mut values = self.replace_values(i, Vec::new());
                values.push(v);
                self.put_values(i, values, Ghost(*old(self)));
                assert(values_view(values@) =~= old(self).list(a@).push(v@));
            },
            None => {
                let mut values: Vec<Vec<u8>> = Vec::new();
                values.push(v);
                self.insert_list(a, values);
                assert(values_view(values@) =~= old(self).list(a@).push(v@));
            },
        }
    }

    /// Removes the last value of the list at `a` and returns it; `None`, with
    /// nothing changed, when that list is empty.
    pub fn pop(&mut self, a: &ListAddress) -> (r: Option<Vec<u8>>)
        requires
            old(self).wf(),
        ensures
            final(self).wf(),
            old(self).list(a@).len() == 0 ==> r is None,
            old(self).list(a@).len() > 0 ==> (r matches Some(v) && v@ == old(self).list(a@).last()),
            final(self).list(a@) == after_remove_last(old(self).list(a@)),
            old(self).same_except(final(self), a@),
    {
        match self.find(a) {
            Some(i) => {
                let mut values = self.replace_values(i, Vec::new());
                let r = values.pop();
                self.put_values(i, values, Ghost(*old(self)));
                assert(values_view(values@) =~= after_remove_last(old(self).list(a@)));
                r
            },
            None => None,
        }
    }

    /// Keeps the first `n` values of the list at `a`.
    pub fn truncate(&mut self, a: &ListAddress, n: u64)
        requires
            old(self).wf(),
        ensures
            final(self).wf(),
            final(self).list(a@) == after_truncate(old(self).list(a@), n as nat),
            old(self).same_except(final(self), a@),
    {
        match self.find(a) {
            Some(i) => {
                let mut values = self.replace_values(i, Vec::new());
                if n < values.len() as u64 {
                    values.truncate(n as usize);
                }
                self.put_values(i, values, Ghost(*old(self)));
                assert(values_view(values@) =~= after_truncate(old(self).list(a@), n as nat));
            },
            None => {},
        }
    }

    /// Puts `v` at position `pos` of the list at `a`. Returns `false`, with
    /// nothing changed, when `pos` is past the list's end.
    pub fn set(&mut self, a: &ListAddress, pos: u64, v: Vec<u8>) -> (r: bool)
        requires
            old(self).wf(),
        ensures
            final(self).wf(),
            r == (pos < old(self).list(a@).len()),
            r ==> final(self).list(a@) == old(self).list(a@).update(pos as int, v@),
            !r ==> final(self).list(a@) == old(self).list(a@),
            old(self).same_except(final(self), a@),
    {
        match self.find(a) {
            Some(i) => {
                if pos >= self.lists[i].values.len() as u64 {
                    return false;
                }
                let mut values = self.replace_values(i, Vec::new());
                assert(values_view(values@).len() == values@.len());
                values.set(pos as usize, v);
                self.put_values(i, values, Ghost(*old(self)));
                assert(values_view(values@) =~= old(self).list(a@).update(pos as int, v@));
                true
            },
            None => false,
        }
    }

    /// Removes every value of the list at `a`.
    pub fn clear(&mut self, a: &ListAddress)
        requires
            old(self).wf(),
        ensures
            final(self).wf(),
            final(self).list(a@) == Seq::<Seq<u8>>::empty(),
            old(self).same_except(final(self), a@),
    {
        match self.find(a) {
            Some(i) => {
                let empty: Vec<Vec<u8>> = Vec::new();
                assert(values_view(empty@) =~= Seq::<Seq<u8>>::empty());
                self.replace_values(i, empty);
            },
            None => {},
        }
    }
}

} // verus!
