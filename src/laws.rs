//! Laws of list indexes, stated over the models that the operations'
//! contracts use: `add` pushes onto `values`, `remove_last` gives
//! `after_remove_last`, `truncate` gives `after_truncate`, `set` updates one
//! position, and an iterator from position `k` has `iter_tail` to yield.
use vstd::prelude::*;
use crate::handle::Handle;
use crate::runtime::Runtime;
use crate::store::{after_remove_last, after_truncate, AddressView};

verus! {

/// The list `s` after adding each of `vals`, in order.
pub open spec fn after_adds(s: Seq<Seq<u8>>, vals: Seq<Seq<u8>>) -> Seq<Seq<u8>>
    decreases vals.len(),
{
    if vals.len() == 0 {
        s
    } else {
        after_adds(s, vals.drop_last()).push(vals.last())
    }
}

/// The list `s` after `m` calls of remove-last.
pub open spec fn after_removes(s: Seq<Seq<u8>>, m: nat) -> Seq<Seq<u8>>
    decreases m,
{
    if m == 0 {
        s
    } else {
        after_remove_last(after_removes(s, (m - 1) as nat))
    }
}

/// Adding values to a list appends them in order.
pub proof fn law_adds_append(s: Seq<Seq<u8>>, vals: Seq<Seq<u8>>)
    ensures
        after_adds(s, vals) == s + vals,
    decreases vals.len(),
{
    if vals.len() == 0 {
        assert(s + vals =~= s);
    } else {
        law_adds_append(s, vals.drop_last());
        assert(s + vals =~= (s + vals.drop_last()).push(vals.last()));
    }
}

/// Values added to a fresh list read back in order: position `i` holds the
/// `i`-th value added.
pub proof fn law_append_then_read(vals: Seq<Seq<u8>>, i: int)
    requires
        0 <= i < vals.len(),
    ensures
        after_adds(Seq::empty(), vals).len() == vals.len(),
        after_adds(Seq::empty(), vals)[i] == vals[i],
{
    law_adds_append(Seq::empty(), vals);
    assert(Seq::<Seq<u8>>::empty() + vals =~= vals);
}

/// Removing the last value `m` times leaves `max(0, len - m)` values.
pub proof fn law_removes_size(s: Seq<Seq<u8>>, m: nat)
    ensures
        after_removes(s, m).len() == if m <= s.len() {
            s.len() - m
        } else {
            0
        },
    decreases m,
{
    if m > 0 {
        law_removes_size(s, (m - 1) as nat);
    }
}

/// On a fresh list, `k` adds followed by `m` calls of remove-last leave
/// `max(0, k - m)` values.
pub proof fn law_size_after_adds_and_removes(vals: Seq<Seq<u8>>, m: nat)
    ensures
        after_removes(after_adds(Seq::empty(), vals), m).len() == if m <= vals.len() {
            vals.len() - m
        } else {
            0
        },
{
    law_adds_append(Seq::empty(), vals);
    assert(Seq::<Seq<u8>>::empty() + vals =~= vals);
    law_removes_size(vals, m);
}

/// Truncating to `n` leaves `min(n, len)` values, the first ones; truncating
/// to a length at least the list's changes nothing.
pub proof fn law_truncate(s: Seq<Seq<u8>>, n: nat)
    ensures
        after_truncate(s, n).len() == if n < s.len() {
            n
        } else {
            s.len()
        },
        forall|i: int| 0 <= i < after_truncate(s, n).len() ==> #[trigger] after_truncate(s, n)[i] == s[i],
        n >= s.len() ==> after_truncate(s, n) == s,
{
}

/// After setting position `i` to `v`, position `i` reads `v` and every
/// other position reads as before.
pub proof fn law_set_then_get(s: Seq<Seq<u8>>, i: int, v: Seq<u8>)
    requires
        0 <= i < s.len(),
    ensures
        s.update(i, v).len() == s.len(),
        s.update(i, v)[i] == v,
        forall|j: int| 0 <= j < s.len() && j != i ==> #[trigger] s.update(i, v)[j] == s[j],
{
}

/// An iterator from position `k` yields exactly the values at positions
/// `k`, `k + 1`, ... in order, and nothing when `k` is at or past the end.
pub proof fn law_iterate_from(s: Seq<Seq<u8>>, k: u64)
    ensures
        Runtime::iter_tail(s, k).len() == if k <= s.len() {
            s.len() - k
        } else {
            0
        },
        forall|j: int|
            0 <= j < Runtime::iter_tail(s, k).len() ==> #[trigger] Runtime::iter_tail(s, k)[j] == s[k
                + j],
{
}

/// A change to a list through any index leaves every iterator as it was:
/// it goes on yielding what the list held when the iterator was made.
pub proof fn law_iterators_unaffected(
    pre: Runtime,
    post: Runtime,
    v: Handle,
    a: AddressView,
    i: Handle,
)
    requires
        pre.changed_only(&post, v, a),
        pre.iter_live(i),
    ensures
        post.iter_live(i),
        post.remaining(i) == pre.remaining(i),
{
}

/// A run of `add` calls on index `h` of a fresh list: state `j + 1` holds
/// what `add(h, vals[j])` leaves in state `j`. After the run the list holds
/// exactly `vals`, in order, so `get(i)` reads `vals[i]`.
pub proof fn law_run_of_adds(states: Seq<Runtime>, h: Handle, vals: Seq<Seq<u8>>)
    requires
        states.len() == vals.len() + 1,
        states[0].values(h) == Seq::<Seq<u8>>::empty(),
        forall|j: int|
            0 <= j < vals.len() ==> #[trigger] states[j + 1].values(h) == states[j].values(h).push(
                vals[j],
            ),
    ensures
        states.last().values(h) == vals,
    decreases vals.len(),
{
    if vals.len() == 0 {
        assert(vals =~= Seq::<Seq<u8>>::empty());
    } else {
        let n = vals.len() as int;
        law_run_of_adds(states.take(n), h, vals.take(n - 1));
        assert(states.take(n).last() == states[n - 1]);
        assert(states[n].values(h) == states[n - 1].values(h).push(vals[n - 1]));
        assert(vals =~= vals.take(n - 1).push(vals[n - 1]));
    }
}

/// A run of `remove_last` calls on index `h`: after `m` of them a list of
/// `k` values holds `max(0, k - m)`.
pub proof fn law_run_of_removes(states: Seq<Runtime>, h: Handle)
    requires
        states.len() >= 1,
        forall|j: int|
            0 <= j < states.len() - 1 ==> #[trigger] states[j + 1].values(h) == after_remove_last(
                states[j].values(h),
            ),
    ensures
        states.last().values(h).len() == if states.len() - 1 <= states[0].values(h).len() {
            states[0].values(h).len() - (states.len() - 1)
        } else {
            0
        },
    decreases states.len(),
{
    if states.len() > 1 {
        let n = states.len() - 1;
        law_run_of_removes(states.take(n), h);
        assert(states.take(n).last() == states[n - 1]);
        let m = n - 1;
        assert(states[m + 1].values(h) == after_remove_last(states[m].values(h)));
    }
}

/// On a fresh list, `k` calls of `add` followed by `m` calls of
/// `remove_last` leave `max(0, k - m)` values.
pub proof fn law_run_of_adds_then_removes(
    adds: Seq<Runtime>,
    removes: Seq<Runtime>,
    h: Handle,
    vals: Seq<Seq<u8>>,
)
    requires
        adds.len() == vals.len() + 1,
        adds[0].values(h) == Seq::<Seq<u8>>::empty(),
        forall|j: int|
            0 <= j < vals.len() ==> #[trigger] adds[j + 1].values(h) == adds[j].values(h).push(
                vals[j],
            ),
        removes.len() >= 1,
        removes[0] == adds.last(),
        forall|j: int|
            0 <= j < removes.len() - 1 ==> #[trigger] removes[j + 1].values(h) == after_remove_last(
                removes[j].values(h),
            ),
    ensures
        removes.last().values(h).len() == if removes.len() - 1 <= vals.len() {
            vals.len() - (removes.len() - 1)
        } else {
            0
        },
{
    law_run_of_adds(adds, h, vals);
    law_run_of_removes(removes, h);
}

/// Call `j` of a run of `iter_next` calls on iterator `i` returned
/// `yields[j]`, the first value it had to yield, and left the rest.
pub open spec fn next_step(states: Seq<Runtime>, i: Handle, yields: Seq<Seq<u8>>, j: int) -> bool {
    &&& states[j].remaining(i).len() > 0
    &&& yields[j] == states[j].remaining(i)[0]
    &&& states[j + 1].remaining(i) == states[j].remaining(i).drop_first()
}

/// In a run of `iter_next` calls, state `j` has the values of the iterator's
/// start past the first `j` still to yield.
proof fn lemma_remaining_in_run(
    states: Seq<Runtime>,
    i: Handle,
    tail: Seq<Seq<u8>>,
    yields: Seq<Seq<u8>>,
    j: int,
)
    requires
        states.len() == yields.len() + 1,
        states[0].remaining(i) == tail,
        forall|j: int| 0 <= j < yields.len() ==> #[trigger] next_step(states, i, yields, j),
        0 <= j <= yields.len(),
    ensures
        j <= tail.len(),
        states[j].remaining(i) == tail.skip(j),
    decreases j,
{
    if j == 0 {
        assert(tail.skip(0) =~= tail);
    } else {
        let p = j - 1;
        lemma_remaining_in_run(states, i, tail, yields, p);
        assert(next_step(states, i, yields, p));
        assert(p < tail.len());
        assert(tail.skip(p).drop_first() =~= tail.skip(j));
    }
}

/// A run of `iter_next` calls on iterator `i`, made from position `k` of a
/// list holding `s`: state `j + 1` follows call `j`, which returned
/// `yields[j]`. The values returned are those at positions `k`, `k + 1`, ...
/// of `s`, in order.
pub proof fn law_run_of_iter_next(
    states: Seq<Runtime>,
    i: Handle,
    s: Seq<Seq<u8>>,
    k: u64,
    yields: Seq<Seq<u8>>,
)
    requires
        states.len() == yields.len() + 1,
        states[0].remaining(i) == Runtime::iter_tail(s, k),
        forall|j: int| 0 <= j < yields.len() ==> #[trigger] next_step(states, i, yields, j),
    ensures
        forall|j: int| 0 <= j < yields.len() ==> #[trigger] yields[j] == s[k + j],
        states.last().remaining(i) == Runtime::iter_tail(s, k).skip(yields.len() as int),
{
    let tail = Runtime::iter_tail(s, k);
    assert forall|j: int| 0 <= j < yields.len() implies #[trigger] yields[j] == s[k + j] by {
        lemma_remaining_in_run(states, i, tail, yields, j);
        assert(next_step(states, i, yields, j));
        assert(j < tail.len());
        assert(k <= s.len());
        assert(tail.skip(j)[0] == tail[j]);
    }
    lemma_remaining_in_run(states, i, tail, yields, yields.len() as int);
}

} // verus!
