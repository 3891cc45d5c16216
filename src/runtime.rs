//! Views, lists bound to views, and iterators, all owned by one runtime and
//! named by tokens of one table: no two live objects share a token, and a
//! token, once freed, names nothing again.
//!
//! A view is a snapshot (read-only) or a fork (changes not yet committed) of
//! the committed lists. A list index is bound to one view and carries that
//! view's kind as its tag: every change asked of an index bound to a snapshot
//! is refused. An iterator copies the values it will yield when it is created,
//! so later changes to the list do not reach it.
use vstd::prelude::*;
use crate::bytes::values_view;
use crate::handle::{slot_of, Handle, HandleTable};
use crate::store::{after_remove_last, after_truncate, AddressView, ListAddress, Store};

verus! {

#[derive(Clone, Copy, Debug, PartialEq, Eq, Structural)]
pub enum ViewKind {
    Snapshot,
    Fork,
}

#[derive(Clone, Copy, Debug, PartialEq, Eq, Structural)]
pub enum ListError {
    /// The token names no live object of the kind the operation works on.
    InvalidHandle,
    /// A change was asked of a list bound to a snapshot, or of a position
    /// past the end of the list.
    ProtocolViolation,
    /// Every token has been issued.
    HandlesExhausted,
}

pub struct StorageView {
    kind: ViewKind,
    store: Store,
}

/// A list bound to a view: the view's token, the list's address in it, and
/// the view's kind.
pub struct ListIndex {
    view: Handle,
    address: ListAddress,
    kind: ViewKind,
}

/// A cursor over values copied when it was created.
pub struct ListIter {
    values: Vec<Vec<u8>>,
    pos: usize,
}

/// What a token names.
pub enum Entry {
    View(StorageView),
    Index(ListIndex),
    Iter(ListIter),
}

/// All views, list indexes and iterators, named by tokens of one table, so
/// that no two live objects ever share a token.
pub struct Runtime {
    database: Store,
    objects: HandleTable<Entry>,
}

impl Runtime {
    /// Every store keeps one list per address, an index carries the kind of
    /// the view it is bound to, and no cursor runs past its values.
    pub closed spec fn wf(&self) -> bool {
        &&& self.database.wf()
        &&& forall|h: Handle| #[trigger]
            self.objects.live(h) ==> match self.objects.object(h) {
                Entry::View(view) => view.store.wf(),
                Entry::Index(b) => 0 <= slot_of(b.view) < self.objects@.len() && (self.has_view(
                    b.view,
                ) ==> b.kind == self.view_obj(b.view).kind),
                Entry::Iter(it) => it.pos <= it.values@.len(),
            }
    }

    spec fn has_view(&self, v: Handle) -> bool {
        self.objects.live(v) && self.objects.object(v) is View
    }

    spec fn view_obj(&self, v: Handle) -> StorageView {
        self.objects.object(v)->View_0
    }

    spec fn has_index(&self, h: Handle) -> bool {
        self.objects.live(h) && self.objects.object(h) is Index
    }

    spec fn index_obj(&self, h: Handle) -> ListIndex {
        self.objects.object(h)->Index_0
    }

    spec fn has_iter(&self, i: Handle) -> bool {
        self.objects.live(i) && self.objects.object(i) is Iter
    }

    spec fn iter_obj(&self, i: Handle) -> ListIter {
        self.objects.object(i)->Iter_0
    }

    /// Number of tokens issued so far; the next one is this plus one.
    pub closed spec fn issued(&self) -> nat {
        self.objects.issued()
    }

    /// A token is left for a new view, index or iterator.
    pub open spec fn can_issue(&self) -> bool {
        self.issued() < u64::MAX
    }

    /// `h` names no live view, index or iterator.
    pub open spec fn fresh(&self, h: Handle) -> bool {
        !self.view_live(h) && !self.index_exists(h) && !self.iter_live(h)
    }

    /// Values of the committed list at address `a`.
    pub closed spec fn committed(&self, a: AddressView) -> Seq<Seq<u8>> {
        self.database.list(a)
    }

    /// `v` names a view that was opened and not yet freed.
    pub closed spec fn view_live(&self, v: Handle) -> bool {
        self.has_view(v)
    }

    pub closed spec fn view_kind(&self, v: Handle) -> ViewKind {
        self.view_obj(v).kind
    }

    /// Values of the list at address `a` as view `v` sees them.
    pub closed spec fn view_list(&self, v: Handle, a: AddressView) -> Seq<Seq<u8>> {
        self.view_obj(v).store.list(a)
    }

    /// `h` names a list index that was created and not yet freed.
    pub closed spec fn index_exists(&self, h: Handle) -> bool {
        self.has_index(h)
    }

    /// `h` names a list index whose view is still live.
    pub open spec fn list_live(&self, h: Handle) -> bool {
        self.index_exists(h) && self.view_live(self.list_view(h))
    }

    /// The view that index `h` is bound to.
    pub closed spec fn list_view(&self, h: Handle) -> Handle {
        self.index_obj(h).view
    }

    /// The address of the list that index `h` is bound to.
    pub closed spec fn list_address(&self, h: Handle) -> AddressView {
        self.index_obj(h).address@
    }

    /// The index `h` is bound to a snapshot.
    pub closed spec fn read_only(&self, h: Handle) -> bool {
        self.index_obj(h).kind == ViewKind::Snapshot
    }

    /// The values of the list that index `h` is bound to.
    pub open spec fn values(&self, h: Handle) -> Seq<Seq<u8>> {
        self.view_list(self.list_view(h), self.list_address(h))
    }

    /// `i` names an iterator that was created and not yet freed.
    pub closed spec fn iter_live(&self, i: Handle) -> bool {
        self.has_iter(i)
    }

    /// What iterator `i` has still to yield.
    pub closed spec fn remaining(&self, i: Handle) -> Seq<Seq<u8>> {
        values_view(self.iter_obj(i).values@).skip(self.iter_obj(i).pos as int)
    }

    /// `other` has the same list indexes as `self`, bound as they were, but
    /// possibly `h`.
    pub open spec fn same_indexes_but(&self, other: &Runtime, h: Handle) -> bool {
        forall|g: Handle|
            #![trigger other.list_live(g)]
            #![trigger other.list_view(g)]
            #![trigger other.list_address(g)]
            #![trigger other.read_only(g)]
            g != h ==> other.list_live(g) == self.list_live(g) && (self.list_live(g)
                ==> other.list_view(g) == self.list_view(g) && other.list_address(g)
                == self.list_address(g) && other.read_only(g) == self.read_only(g))
    }

    /// `other` has the same list indexes as `self`, bound as they were.
    pub open spec fn same_indexes(&self, other: &Runtime) -> bool {
        forall|g: Handle|
            #![trigger other.list_live(g)]
            #![trigger other.list_view(g)]
            #![trigger other.list_address(g)]
            #![trigger other.read_only(g)]
            other.list_live(g) == self.list_live(g) && (self.list_live(g) ==> other.list_view(g)
                == self.list_view(g) && other.list_address(g) == self.list_address(g)
                && other.read_only(g) == self.read_only(g))
    }

    /// `other` has the same views as `self`, with the same contents, but
    /// possibly for the list at address `a` of view `v`.
    pub open spec fn same_views_but(&self, other: &Runtime, v: Handle, a: AddressView) -> bool {
        &&& forall|w: Handle|
            #![trigger other.view_live(w)]
            #![trigger other.view_kind(w)]
            other.view_live(w) == self.view_live(w) && (self.view_live(w) ==> other.view_kind(w)
                == self.view_kind(w))
        &&& forall|w: Handle, b: AddressView|
            self.view_live(w) && (w != v || b != a) ==> #[trigger] other.view_list(w, b)
                == self.view_list(w, b)
        &&& forall|b: AddressView| #[trigger] other.committed(b) == self.committed(b)
    }

    /// `other` has the same views as `self`, with the same contents, but
    /// possibly view `v`.
    pub open spec fn same_views_except(&self, other: &Runtime, v: Handle) -> bool {
        &&& forall|w: Handle|
            #![trigger other.view_live(w)]
            #![trigger other.view_kind(w)]
            w != v ==> other.view_live(w) == self.view_live(w) && (self.view_live(w)
                ==> other.view_kind(w) == self.view_kind(w))
        &&& forall|w: Handle, b: AddressView|
            w != v && self.view_live(w) ==> #[trigger] other.view_list(w, b) == self.view_list(w, b)
        &&& forall|b: AddressView| #[trigger] other.committed(b) == self.committed(b)
    }

    /// `other` has the same views as `self`, with the same contents.
    pub open spec fn same_views(&self, other: &Runtime) -> bool {
        &&& forall|w: Handle|
            #![trigger other.view_live(w)]
            #![trigger other.view_kind(w)]
            other.view_live(w) == self.view_live(w) && (self.view_live(w) ==> other.view_kind(w)
                == self.view_kind(w))
        &&& forall|w: Handle, b: AddressView|
            self.view_live(w) ==> #[trigger] other.view_list(w, b) == self.view_list(w, b)
        &&& forall|b: AddressView| #[trigger] other.committed(b) == self.committed(b)
    }

    /// What an iterator that starts at position `from` of `s` yields.
    pub open spec fn iter_tail(s: Seq<Seq<u8>>, from: u64) -> Seq<Seq<u8>> {
        if from <= s.len() {
            s.skip(from as int)
        } else {
            Seq::empty()
        }
    }

    /// `other` has the same iterators as `self`, but possibly `i`.
    pub open spec fn same_iters_but(&self, other: &Runtime, i: Handle) -> bool {
        forall|j: Handle|
            #![trigger other.iter_live(j)]
            #![trigger other.remaining(j)]
            j != i ==> other.iter_live(j) == self.iter_live(j) && (self.iter_live(j)
                ==> other.remaining(j) == self.remaining(j))
    }

    /// `other` has the same iterators as `self`.
    pub open spec fn same_iters(&self, other: &Runtime) -> bool {
        forall|j: Handle|
            #![trigger other.iter_live(j)]
            #![trigger other.remaining(j)]
            other.iter_live(j) == self.iter_live(j) && (self.iter_live(j) ==> other.remaining(j)
                == self.remaining(j))
    }

    /// `other` is `self` after a change to the list at address `a` of view
    /// `v`, and to nothing else.
    pub open spec fn changed_only(&self, other: &Runtime, v: Handle, a: AddressView) -> bool {
        &&& other.wf()
        &&& other.issued() == self.issued()
        &&& self.same_indexes(other)
        &&& self.same_views_but(other, v, a)
        &&& self.same_iters(other)
    }

    pub fn new() -> (r: Runtime)
        ensures
            r.wf(),
            forall|a: AddressView| #[trigger] r.committed(a) == Seq::<Seq<u8>>::empty(),
            forall|h: Handle|
                !r.view_live(h) && !r.list_live(h) && !#[trigger] r.iter_live(h),
            r.issued() == 0,
    {
        Runtime { database: Store::new(), objects: HandleTable::new() }
    }

    /// The binding of a live list index.
    fn binding(&self, h: Handle) -> (r: Result<&ListIndex, ListError>)
        ensures
            self.list_live(h) ==> r == Ok::<&ListIndex, ListError>(&self.index_obj(h)),
            !self.list_live(h) ==> r == Err::<&ListIndex, ListError>(ListError::InvalidHandle),
    {
        match self.objects.resolve(h) {
            Some(Entry::Index(b)) => match self.objects.resolve(b.view) {
                Some(Entry::View(_)) => Ok(b),
                _ => Err(ListError::InvalidHandle),
            },
            _ => Err(ListError::InvalidHandle),
        }
    }

    /// The store that a live list index reads.
    fn bound_store(&self, b: &ListIndex) -> (r: &Store)
        requires
            self.wf(),
            self.has_view(b.view),
        ensures
            r == &self.view_obj(b.view).store,
            r.wf(),
    {
        match self.objects.resolve(b.view) {
            Some(Entry::View(v)) => &v.store,
            _ => &self.database,
        }
    }

    /// The value at position `pos` of the list that `h` is bound to; `None`
    /// past the list's end.
    pub fn get(&self, h: Handle, pos: u64) -> (r: Result<Option<Vec<u8>>, ListError>)
        requires
            self.wf(),
        ensures
            !self.list_live(h) ==> r == Err::<Option<Vec<u8>>, ListError>(ListError::InvalidHandle),
            self.list_live(h) && pos < self.values(h).len() ==> (r matches Ok(Some(v)) && v@
                == self.values(h)[pos as int]),
            self.list_live(h) && pos >= self.values(h).len() ==> r == Ok::<
                Option<Vec<u8>>,
                ListError,
            >(None),
    {
        let b = match self.binding(h) {
            Ok(b) => b,
            Err(e) => return Err(e),
        };
        Ok(self.bound_store(b).get(&b.address, pos))
    }

    /// The last value of the list that `h` is bound to; `None` if it is empty.
    pub fn get_last(&self, h: Handle) -> (r: Result<Option<Vec<u8>>, ListError>)
        requires
            self.wf(),
        ensures
            !self.list_live(h) ==> r == Err::<Option<Vec<u8>>, ListError>(ListError::InvalidHandle),
            self.list_live(h) && self.values(h).len() > 0 ==> (r matches Ok(Some(v)) && v@
                == self.values(h).last()),
            self.list_live(h) && self.values(h).len() == 0 ==> r == Ok::<
                Option<Vec<u8>>,
                ListError,
            >(None),
    {
        let b = match self.binding(h) {
            Ok(b) => b,
            Err(e) => return Err(e),
        };
        let store = self.bound_store(b);
        let n = store.len(&b.address);
        if n == 0 {
            Ok(None)
        } else {
            Ok(store.get(&b.address, n - 1))
        }
    }

    /// Whether the list that `h` is bound to has no values.
    pub fn is_empty(&self, h: Handle) -> (r: Result<bool, ListError>)
        requires
            self.wf(),
        ensures
            !self.list_live(h) ==> r == Err::<bool, ListError>(ListError::InvalidHandle),
            self.list_live(h) ==> r == Ok::<bool, ListError>(self.values(h).len() == 0),
    {
        let b = match self.binding(h) {
            Ok(b) => b,
            Err(e) => return Err(e),
        };
        Ok(self.bound_store(b).len(&b.address) == 0)
    }

    /// Number of values in the list that `h` is bound to.
    pub fn size(&self, h: Handle) -> (r: Result<u64, ListError>)
        requires
            self.wf(),
        ensures
            !self.list_live(h) ==> r == Err::<u64, ListError>(ListError::InvalidHandle),
            self.list_live(h) ==> (r matches Ok(n) && n == self.values(h).len()),
    {
        let b = match self.binding(h) {
            Ok(b) => b,
            Err(e) => return Err(e),
        };
        Ok(self.bound_store(b).len(&b.address))
    }

    /// The view and the address that a change through `h` goes to, or the
    /// reason the change is refused.
    fn writable(&self, h: Handle) -> (r: Result<(Handle, ListAddress), ListError>)
        requires
            self.wf(),
        ensures
            !self.list_live(h) ==> r is Err && r->Err_0 == ListError::InvalidHandle,
            self.list_live(h) && self.read_only(h) ==> r is Err && r->Err_0
                == ListError::ProtocolViolation,
            self.list_live(h) && !self.read_only(h) ==> r is Ok && r->Ok_0.0 == self.list_view(h)
                && r->Ok_0.1@ == self.list_address(h) && self.view_kind(self.list_view(h))
                == ViewKind::Fork,
    {
        let b = match self.binding(h) {
            Ok(b) => b,
            Err(e) => return Err(e),
        };
        match b.kind {
            ViewKind::Snapshot => Err(ListError::ProtocolViolation),
            ViewKind::Fork => Ok((b.view, b.address.copy())),
        }
    }

    /// Takes the view `v` out of its table for a change.
    fn checkout(&mut self, v: Handle) -> (r: StorageView)
        requires
            old(self).wf(),
            old(self).has_view(v),
        ensures
            r == old(self).view_obj(v),
            r.store.wf(),
            final(self).objects@ == old(self).objects@.update(slot_of(v), None),
            final(self).database == old(self).database,
    {
        match self.objects.take(v) {
            Some(Entry::View(view)) => view,
            _ => StorageView { kind: ViewKind::Fork, store: Store::new() },
        }
    }

    /// Puts back view `v` after a change to its list at address `a`.
    fn checkin(&mut self, v: Handle, view: StorageView, Ghost(pre): Ghost<Runtime>, Ghost(a): Ghost<AddressView>)
        requires
            pre.wf(),
            pre.has_view(v),
            old(self).objects@ == pre.objects@.update(slot_of(v), None),
            old(self).database == pre.database,
            view.kind == pre.view_obj(v).kind,
            view.store.wf(),
            pre.view_obj(v).store.same_except(&view.store, a),
        ensures
            final(self).view_obj(v) == view,
            pre.changed_only(final(self), v, a),
    {
        self.objects.restore(v, Entry::View(view));
        assert(self.objects@ == pre.objects@.update(slot_of(v), Some(Entry::View(view))));
        assert forall|w: Handle| #[trigger] self.objects.live(w) == pre.objects.live(w) && (w != v
            && pre.objects.live(w) ==> self.objects.object(w) == pre.objects.object(w)) by {}
        assert(self.wf());
        assert(pre.same_indexes(self));
        assert(pre.same_iters(self));
        assert forall|w: Handle, b: AddressView|
            pre.view_live(w) && (w != v || b != a) implies #[trigger] self.view_list(w, b)
            == pre.view_list(w, b) by {
            if w == v {
                assert(pre.view_obj(v).store.list(b) == view.store.list(b));
            }
        }
    }

    /// Appends `value` to the list that `h` is bound to.
    pub fn add(&mut self, h: Handle, value: Vec<u8>) -> (r: Result<(), ListError>)
        requires
            old(self).wf(),
        ensures
            final(self).wf(),
            final(self).issued() == old(self).issued(),
            !old(self).list_live(h) ==> r == Err::<(), ListError>(ListError::InvalidHandle)
                && *final(self) == *old(self),
            old(self).list_live(h) && old(self).read_only(h) ==> r == Err::<(), ListError>(
                ListError::ProtocolViolation,
            ) && *final(self) == *old(self),
            old(self).list_live(h) && !old(self).read_only(h) ==> r == Ok::<(), ListError>(())
                && final(self).values(h) == old(self).values(h).push(value@) && old(
                self,
            ).changed_only(final(self), old(self).list_view(h), old(self).list_address(h)),
    {
        let (v, address) = match self.writable(h) {
            Ok(p) => p,
            Err(e) => return Err(e),
        };
        let ghost pre = *self;
        let mut view = self.checkout(v);
        view.store.push(&address, value);
        self.checkin(v, view, Ghost(pre), Ghost(address@));
        Ok(())
    }

    /// Removes the last value of the list that `h` is bound to and returns it;
    /// `None` if the list is empty.
    pub fn remove_last(&mut self, h: Handle) -> (r: Result<Option<Vec<u8>>, ListError>)
        requires
            old(self).wf(),
        ensures
            final(self).wf(),
            final(self).issued() == old(self).issued(),
            !old(self).list_live(h) ==> r == Err::<Option<Vec<u8>>, ListError>(
                ListError::InvalidHandle,
            ) && *final(self) == *old(self),
            old(self).list_live(h) && old(self).read_only(h) ==> r == Err::<
                Option<Vec<u8>>,
                ListError,
            >(ListError::ProtocolViolation) && *final(self) == *old(self),
            old(self).list_live(h) && !old(self).read_only(h) ==> final(self).values(h)
                == after_remove_last(old(self).values(h)) && old(self).changed_only(
                final(self),
                old(self).list_view(h),
                old(self).list_address(h),
            ),
            old(self).list_live(h) && !old(self).read_only(h) && old(self).values(h).len() > 0
                ==> (r matches Ok(Some(v)) && v@ == old(self).values(h).last()),
            old(self).list_live(h) && !old(self).read_only(h) && old(self).values(h).len() == 0
                ==> r == Ok::<Option<Vec<u8>>, ListError>(None),
    {
        let (v, address) = match self.writable(h) {
            Ok(p) => p,
            Err(e) => return Err(e),
        };
        let ghost pre = *self;
        let mut view = self.checkout(v);
        let last = view.store.pop(&address);
        self.checkin(v, view, Ghost(pre), Ghost(address@));
        Ok(last)
    }

    /// Keeps the first `len` values of the list that `h` is bound to; a list
    /// no longer than `len` is left as it is.
    pub fn truncate(&mut self, h: Handle, len: u64) -> (r: Result<(), ListError>)
        requires
            old(self).wf(),
        ensures
            final(self).wf(),
            final(self).issued() == old(self).issued(),
            !old(self).list_live(h) ==> r == Err::<(), ListError>(ListError::InvalidHandle)
                && *final(self) == *old(self),
            old(self).list_live(h) && old(self).read_only(h) ==> r == Err::<(), ListError>(
                ListError::ProtocolViolation,
            ) && *final(self) == *old(self),
            old(self).list_live(h) && !old(self).read_only(h) ==> r == Ok::<(), ListError>(())
                && final(self).values(h) == after_truncate(old(self).values(h), len as nat) && old(
                self,
            ).changed_only(final(self), old(self).list_view(h), old(self).list_address(h)),
    {
        let (v, address) = match self.writable(h) {
            Ok(p) => p,
            Err(e) => return Err(e),
        };
        let ghost pre = *self;
        let mut view = self.checkout(v);
        view.store.truncate(&address, len);
        self.checkin(v, view, Ghost(pre), Ghost(address@));
        Ok(())
    }

    /// Puts `value` at position `pos` of the list that `h` is bound to. A
    /// position past the list's end is refused, as a change to a snapshot is.
    pub fn set(&mut self, h: Handle, pos: u64, value: Vec<u8>) -> (r: Result<(), ListError>)
        requires
            old(self).wf(),
        ensures
            final(self).wf(),
            final(self).issued() == old(self).issued(),
            !old(self).list_live(h) ==> r == Err::<(), ListError>(ListError::InvalidHandle)
                && *final(self) == *old(self),
            old(self).list_live(h) && (old(self).read_only(h) || pos >= old(self).values(h).len())
                ==> r == Err::<(), ListError>(ListError::ProtocolViolation) && *final(self)
                == *old(self),
            old(self).list_live(h) && !old(self).read_only(h) && pos < old(self).values(h).len()
                ==> r == Ok::<(), ListError>(()) && final(self).values(h) == old(self).values(
                h,
            ).update(pos as int, value@) && old(self).changed_only(
                final(self),
                old(self).list_view(h),
                old(self).list_address(h),
            ),
    {
        let (v, address) = match self.writable(h) {
            Ok(p) => p,
            Err(e) => return Err(e),
        };
        let n = match self.size(h) {
            Ok(n) => n,
            Err(e) => return Err(e),
        };
        if pos >= n {
            return Err(ListError::ProtocolViolation);
        }
        let ghost pre = *self;
        let mut view = self.checkout(v);
        view.store.set(&address, pos, value);
        self.checkin(v, view, Ghost(pre), Ghost(address@));
        Ok(())
    }

    /// Removes every value of the list that `h` is bound to.
    pub fn clear(&mut self, h: Handle) -> (r: Result<(), ListError>)
        requires
            old(self).wf(),
        ensures
            final(self).wf(),
            final(self).issued() == old(self).issued(),
            !old(self).list_live(h) ==> r == Err::<(), ListError>(ListError::InvalidHandle)
                && *final(self) == *old(self),
            old(self).list_live(h) && old(self).read_only(h) ==> r == Err::<(), ListError>(
                ListError::ProtocolViolation,
            ) && *final(self) == *old(self),
            old(self).list_live(h) && !old(self).read_only(h) ==> r == Ok::<(), ListError>(())
                && final(self).values(h) == Seq::<Seq<u8>>::empty() && old(self).changed_only(
                final(self),
                old(self).list_view(h),
                old(self).list_address(h),
            ),
    {
        let (v, address) = match self.writable(h) {
            Ok(p) => p,
            Err(e) => return Err(e),
        };
        let ghost pre = *self;
        let mut view = self.checkout(v);
        view.store.clear(&address);
        self.checkin(v, view, Ghost(pre), Ghost(address@));
        Ok(())
    }

    /// Binds a new list index to the list at `address` of view `v`.
    fn bind(&mut self, v: Handle, address: ListAddress) -> (r: Result<Handle, ListError>)
        requires
            old(self).wf(),
        ensures
            final(self).wf(),
            !old(self).view_live(v) ==> r == Err::<Handle, ListError>(ListError::InvalidHandle)
                && *final(self) == *old(self),
            old(self).view_live(v) ==> (r is Ok <==> old(self).can_issue()),
            old(self).view_live(v) && r is Err ==> r->Err_0 == ListError::HandlesExhausted
                && *final(self) == *old(self),
            old(self).view_live(v) && r is Ok ==> {
                let h = r->Ok_0;
                &&& old(self).fresh(h)
                &&& final(self).issued() == old(self).issued() + 1
                &&& final(self).list_live(h)
                &&& final(self).list_view(h) == v
                &&& final(self).list_address(h) == address@
                &&& final(self).read_only(h) == (old(self).view_kind(v) == ViewKind::Snapshot)
                &&& old(self).same_indexes_but(final(self), h)
                &&& old(self).same_views(final(self))
                &&& old(self).same_iters(final(self))
            },
    {
        let kind = match self.objects.resolve(v) {
            Some(Entry::View(view)) => view.kind,
            _ => return Err(ListError::InvalidHandle),
        };
        let ghost pre = *self;
        match self.objects.allocate(Entry::Index(ListIndex { view: v, address, kind })) {
            Some(h) => {
                assert forall|g: Handle| #[trigger]
                    self.objects.live(g) == (pre.objects.live(g) || g == h) && (g != h
                        && pre.objects.live(g) ==> self.objects.object(g) == pre.objects.object(g)) by {}
                assert(self.wf());
                assert(pre.same_indexes_but(self, h));
                Ok(h)
            },
            None => Err(ListError::HandlesExhausted),
        }
    }

    /// A new list index bound to the list named `name` in view `v`.
    pub fn create(&mut self, name: Vec<u8>, v: Handle) -> (r: Result<Handle, ListError>)
        requires
            old(self).wf(),
        ensures
            final(self).wf(),
            !old(self).view_live(v) ==> r == Err::<Handle, ListError>(ListError::InvalidHandle)
                && *final(self) == *old(self),
            old(self).view_live(v) ==> (r is Ok <==> old(self).can_issue()),
            old(self).view_live(v) && r is Err ==> r->Err_0 == ListError::HandlesExhausted
                && *final(self) == *old(self),
            old(self).view_live(v) && r is Ok ==> {
                let h = r->Ok_0;
                &&& old(self).fresh(h)
                &&& final(self).issued() == old(self).issued() + 1
                &&& final(self).list_live(h)
                &&& final(self).list_view(h) == v
                &&& final(self).list_address(h) == (name@, None::<Seq<u8>>)
                &&& final(self).read_only(h) == (old(self).view_kind(v) == ViewKind::Snapshot)
                &&& old(self).same_indexes_but(final(self), h)
                &&& old(self).same_views(final(self))
                &&& old(self).same_iters(final(self))
            },
    {
        self.bind(v, ListAddress { name, group_key: None })
    }

    /// A new list index bound to the list with key `key` in the group named
    /// `group` of view `v`.
    pub fn create_in_group(&mut self, group: Vec<u8>, key: Vec<u8>, v: Handle) -> (r: Result<
        Handle,
        ListError,
    >)
        requires
            old(self).wf(),
        ensures
            final(self).wf(),
            !old(self).view_live(v) ==> r == Err::<Handle, ListError>(ListError::InvalidHandle)
                && *final(self) == *old(self),
            old(self).view_live(v) ==> (r is Ok <==> old(self).can_issue()),
            old(self).view_live(v) && r is Err ==> r->Err_0 == ListError::HandlesExhausted
                && *final(self) == *old(self),
            old(self).view_live(v) && r is Ok ==> {
                let h = r->Ok_0;
                &&& old(self).fresh(h)
                &&& final(self).issued() == old(self).issued() + 1
                &&& final(self).list_live(h)
                &&& final(self).list_view(h) == v
                &&& final(self).list_address(h) == (group@, Some(key@))
                &&& final(self).read_only(h) == (old(self).view_kind(v) == ViewKind::Snapshot)
                &&& old(self).same_indexes_but(final(self), h)
                &&& old(self).same_views(final(self))
                &&& old(self).same_iters(final(self))
            },
    {
        self.bind(v, ListAddress { name: group, group_key: Some(key) })
    }

    /// Destroys the list index `h`. Returns whether there was one to destroy;
    /// the list's values stay in their view.
    pub fn free(&mut self, h: Handle) -> (r: bool)
        requires
            old(self).wf(),
        ensures
            final(self).wf(),
            final(self).issued() == old(self).issued(),
            r == old(self).index_exists(h),
            !final(self).index_exists(h),
            !final(self).list_live(h),
            old(self).same_indexes_but(final(self), h),
            old(self).same_views(final(self)),
            old(self).same_iters(final(self)),
    {
        match self.objects.resolve(h) {
            Some(Entry::Index(_)) => {},
            _ => return false,
        }
        let ghost pre = *self;
        self.objects.destroy(h);
        assert forall|g: Handle| #[trigger]
            self.objects.live(g) == (pre.objects.live(g) && g != h) && (g != h && pre.objects.live(g)
                ==> self.objects.object(g) == pre.objects.object(g)) by {}
        assert(self.wf());
        true
    }

    /// A new iterator over the values of the list that `h` is bound to, from
    /// position `from` on.
    pub fn iter_from(&mut self, h: Handle, from: u64) -> (r: Result<Handle, ListError>)
        requires
            old(self).wf(),
        ensures
            final(self).wf(),
            !old(self).list_live(h) ==> r == Err::<Handle, ListError>(ListError::InvalidHandle)
                && *final(self) == *old(self),
            old(self).list_live(h) ==> (r is Ok <==> old(self).can_issue()),
            old(self).list_live(h) && r is Err ==> r->Err_0 == ListError::HandlesExhausted
                && *final(self) == *old(self),
            old(self).list_live(h) && r is Ok ==> {
                let i = r->Ok_0;
                &&& old(self).fresh(i)
                &&& final(self).issued() == old(self).issued() + 1
                &&& final(self).iter_live(i)
                &&& final(self).remaining(i) == Self::iter_tail(old(self).values(h), from)
                &&& old(self).same_indexes(final(self))
                &&& old(self).same_views(final(self))
                &&& old(self).same_iters_but(final(self), i)
            },
    {
        let b = match self.binding(h) {
            Ok(b) => b,
            Err(e) => return Err(e),
        };
        let values = self.bound_store(b).values_from(&b.address, from);
        let ghost pre = *self;
        let ghost tail = Self::iter_tail(pre.values(h), from);
        assert(values_view(values@).skip(0) =~= values_view(values@));
        assert(values_view(values@) =~= tail);
        match self.objects.allocate(Entry::Iter(ListIter { values, pos: 0 })) {
            Some(i) => {
                assert forall|g: Handle| #[trigger]
                    self.objects.live(g) == (pre.objects.live(g) || g == i) && (g != i
                        && pre.objects.live(g) ==> self.objects.object(g) == pre.objects.object(g)) by {}
                assert(self.wf());
                Ok(i)
            },
            None => Err(ListError::HandlesExhausted),
        }
    }

    /// A new iterator over all values of the list that `h` is bound to.
    pub fn create_iter(&mut self, h: Handle) -> (r: Result<Handle, ListError>)
        requires
            old(self).wf(),
        ensures
            final(self).wf(),
            !old(self).list_live(h) ==> r == Err::<Handle, ListError>(ListError::InvalidHandle)
                && *final(self) == *old(self),
            old(self).list_live(h) ==> (r is Ok <==> old(self).can_issue()),
            old(self).list_live(h) && r is Err ==> r->Err_0 == ListError::HandlesExhausted
                && *final(self) == *old(self),
            old(self).list_live(h) && r is Ok ==> {
                let i = r->Ok_0;
                &&& old(self).fresh(i)
                &&& final(self).issued() == old(self).issued() + 1
                &&& final(self).iter_live(i)
                &&& final(self).remaining(i) == old(self).values(h)
                &&& old(self).same_indexes(final(self))
                &&& old(self).same_views(final(self))
                &&& old(self).same_iters_but(final(self), i)
            },
    {
        let r = self.iter_from(h, 0);
        assert(old(self).values(h).skip(0) =~= old(self).values(h));
        r
    }

    /// The next value of iterator `i`; `None`, with nothing changed, once it
    /// is exhausted.
    pub fn iter_next(&mut self, i: Handle) -> (r: Result<Option<Vec<u8>>, ListError>)
        requires
            old(self).wf(),
        ensures
            final(self).wf(),
            final(self).issued() == old(self).issued(),
            !old(self).iter_live(i) ==> r == Err::<Option<Vec<u8>>, ListError>(
                ListError::InvalidHandle,
            ) && *final(self) == *old(self),
            old(self).iter_live(i) && old(self).remaining(i).len() == 0 ==> r == Ok::<
                Option<Vec<u8>>,
                ListError,
            >(None) && *final(self) == *old(self),
            old(self).iter_live(i) && old(self).remaining(i).len() > 0 ==> {
                &&& r matches Ok(Some(v)) && v@ == old(self).remaining(i)[0]
                &&& final(self).iter_live(i)
                &&& final(self).remaining(i) == old(self).remaining(i).drop_first()
                &&& old(self).same_indexes(final(self))
                &&& old(self).same_views(final(self))
                &&& old(self).same_iters_but(final(self), i)
            },
    {
        match self.objects.resolve(i) {
            Some(Entry::Iter(it)) => {
                if it.pos >= it.values.len() {
                    return Ok(None);
                }
            },
            _ => return Err(ListError::InvalidHandle),
        }
        let ghost pre = *self;
        let mut it = match self.objects.take(i) {
            Some(Entry::Iter(it)) => it,
            _ => return Err(ListError::InvalidHandle),
        };
        let v = crate::bytes::copy_bytes(&it.values[it.pos]);
        it.pos = it.pos + 1;
        self.objects.restore(i, Entry::Iter(it));
        assert forall|j: Handle| #[trigger]
            self.objects.live(j) == pre.objects.live(j) && (pre.objects.live(j) ==> self.objects.object(j)
                == (if j == i { Entry::Iter(it) } else { pre.objects.object(j) })) by {}
        assert(self.remaining(i) =~= pre.remaining(i).drop_first());
        assert(self.wf());
        Ok(Some(v))
    }

    /// Destroys iterator `i`. Returns whether there was one to destroy.
    pub fn iter_free(&mut self, i: Handle) -> (r: bool)
        requires
            old(self).wf(),
        ensures
            final(self).wf(),
            final(self).issued() == old(self).issued(),
            r == old(self).iter_live(i),
            !final(self).iter_live(i),
            old(self).same_indexes(final(self)),
            old(self).same_views(final(self)),
            old(self).same_iters_but(final(self), i),
    {
        match self.objects.resolve(i) {
            Some(Entry::Iter(_)) => {},
            _ => return false,
        }
        let ghost pre = *self;
        self.objects.destroy(i);
        assert forall|g: Handle| #[trigger]
            self.objects.live(g) == (pre.objects.live(g) && g != i) && (g != i && pre.objects.live(g)
                ==> self.objects.object(g) == pre.objects.object(g)) by {}
        assert(self.wf());
        true
    }

    /// A new view of kind `kind` over a copy of the committed lists.
    fn open_view(&mut self, kind: ViewKind) -> (r: Result<Handle, ListError>)
        requires
            old(self).wf(),
        ensures
            final(self).wf(),
            r is Ok <==> old(self).can_issue(),
            r is Err ==> r->Err_0 == ListError::HandlesExhausted && *final(self) == *old(self),
            r is Ok ==> {
                let v = r->Ok_0;
                &&& old(self).fresh(v)
                &&& final(self).issued() == old(self).issued() + 1
                &&& final(self).view_live(v)
                &&& final(self).view_kind(v) == kind
                &&& forall|a: AddressView| #[trigger]
                    final(self).view_list(v, a) == old(self).committed(a)
                &&& old(self).same_views_except(final(self), v)
                &&& old(self).same_indexes(final(self))
                &&& old(self).same_iters(final(self))
            },
    {
        let store = self.database.copy();
        let ghost pre = *self;
        match self.objects.allocate(Entry::View(StorageView { kind, store })) {
            Some(v) => {
                assert forall|g: Handle| #[trigger]
                    self.objects.live(g) == (pre.objects.live(g) || g == v) && (g != v
                        && pre.objects.live(g) ==> self.objects.object(g) == pre.objects.object(g)) by {}
                assert(pre.same_indexes(self));
                assert(self.wf());
                Ok(v)
            },
            None => Err(ListError::HandlesExhausted),
        }
    }

    /// A new fork: a view whose lists start as the committed ones and may be
    /// changed until they are committed.
    pub fn fork(&mut self) -> (r: Result<Handle, ListError>)
        requires
            old(self).wf(),
        ensures
            final(self).wf(),
            r is Ok <==> old(self).can_issue(),
            r is Err ==> r->Err_0 == ListError::HandlesExhausted && *final(self) == *old(self),
            r is Ok ==> {
                let v = r->Ok_0;
                &&& old(self).fresh(v)
                &&& final(self).issued() == old(self).issued() + 1
                &&& final(self).view_live(v)
                &&& final(self).view_kind(v) == ViewKind::Fork
                &&& forall|a: AddressView| #[trigger]
                    final(self).view_list(v, a) == old(self).committed(a)
                &&& old(self).same_views_except(final(self), v)
                &&& old(self).same_indexes(final(self))
                &&& old(self).same_iters(final(self))
            },
    {
        self.open_view(ViewKind::Fork)
    }

    /// A new snapshot: a read-only view of the committed lists.
    pub fn snapshot(&mut self) -> (r: Result<Handle, ListError>)
        requires
            old(self).wf(),
        ensures
            final(self).wf(),
            r is Ok <==> old(self).can_issue(),
            r is Err ==> r->Err_0 == ListError::HandlesExhausted && *final(self) == *old(self),
            r is Ok ==> {
                let v = r->Ok_0;
                &&& old(self).fresh(v)
                &&& final(self).issued() == old(self).issued() + 1
                &&& final(self).view_live(v)
                &&& final(self).view_kind(v) == ViewKind::Snapshot
                &&& forall|a: AddressView| #[trigger]
                    final(self).view_list(v, a) == old(self).committed(a)
                &&& old(self).same_views_except(final(self), v)
                &&& old(self).same_indexes(final(self))
                &&& old(self).same_iters(final(self))
            },
    {
        self.open_view(ViewKind::Snapshot)
    }

    /// Commits the lists of fork `v`: they become the committed lists. The
    /// fork stays open; views opened before keep what they saw.
    pub fn commit(&mut self, v: Handle) -> (r: Result<(), ListError>)
        requires
            old(self).wf(),
        ensures
            final(self).wf(),
            final(self).issued() == old(self).issued(),
            !old(self).view_live(v) ==> r == Err::<(), ListError>(ListError::InvalidHandle)
                && *final(self) == *old(self),
            old(self).view_live(v) && old(self).view_kind(v) == ViewKind::Snapshot ==> r == Err::<
                (),
                ListError,
            >(ListError::ProtocolViolation) && *final(self) == *old(self),
            old(self).view_live(v) && old(self).view_kind(v) == ViewKind::Fork ==> {
                &&& r == Ok::<(), ListError>(())
                &&& forall|a: AddressView| #[trigger]
                    final(self).committed(a) == old(self).view_list(v, a)
                &&& forall|w: Handle| #[trigger]
                    final(self).view_live(w) == old(self).view_live(w) && (old(self).view_live(w)
                        ==> final(self).view_kind(w) == old(self).view_kind(w))
                &&& forall|w: Handle, b: AddressView|
                    old(self).view_live(w) ==> #[trigger] final(self).view_list(w, b) == old(
                        self,
                    ).view_list(w, b)
                &&& old(self).same_indexes(final(self))
                &&& old(self).same_iters(final(self))
            },
    {
        let store = match self.objects.resolve(v) {
            Some(Entry::View(view)) => match view.kind {
                ViewKind::Snapshot => return Err(ListError::ProtocolViolation),
                ViewKind::Fork => view.store.copy(),
            },
            _ => return Err(ListError::InvalidHandle),
        };
        self.database = store;
        Ok(())
    }

    /// Destroys view `v`. Returns whether there was one to destroy. List
    /// indexes bound to it can no longer be used; iterators made from them
    /// keep their values.
    pub fn free_view(&mut self, v: Handle) -> (r: bool)
        requires
            old(self).wf(),
        ensures
            final(self).wf(),
            final(self).issued() == old(self).issued(),
            r == old(self).view_live(v),
            !final(self).view_live(v),
            old(self).same_views_except(final(self), v),
            old(self).same_iters(final(self)),
            forall|g: Handle|
                #![trigger final(self).list_live(g)]
                #![trigger final(self).list_view(g)]
                #![trigger final(self).list_address(g)]
                #![trigger final(self).read_only(g)]
                final(self).list_live(g) == (old(self).list_live(g) && old(self).list_view(g) != v)
                    && (final(self).list_live(g) ==> final(self).list_view(g) == old(
                    self,
                ).list_view(g) && final(self).list_address(g) == old(self).list_address(g)
                    && final(self).read_only(g) == old(self).read_only(g)),
    {
        match self.objects.resolve(v) {
            Some(Entry::View(_)) => {},
            _ => return false,
        }
        let ghost pre = *self;
        self.objects.destroy(v);
        assert forall|g: Handle| #[trigger]
            self.objects.live(g) == (pre.objects.live(g) && g != v) && (g != v && pre.objects.live(g)
                ==> self.objects.object(g) == pre.objects.object(g)) by {}
        assert(self.wf());
        true
    }
}

} // verus!
