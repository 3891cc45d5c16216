//! Byte strings: comparison and copying with exact contracts.
use vstd::prelude::*;

verus! {

/// The mathematical value of a list of byte strings.
pub open spec fn values_view(v: Seq<Vec<u8>>) -> Seq<Seq<u8>> {
    v.map_values(|b: Vec<u8>| b@)
}

pub fn bytes_eq(a: &Vec<u8>, b: &Vec<u8>) -> (r: bool)
    ensures
        r == (a@ == b@),
{
    if a.len() != b.len() {
        return false;
    }
    let mut i: usize = 0;
    while i < a.len()
        invariant
            a@.len() == b@.len(),
            i <= a@.len(),
            forall|j: int| 0 <= j < i ==> a@[j] == b@[j],
        decreases a@.len() - i,
    {
        if a[i] != b[i] {
            return false;
        }
        i += 1;
    }
    assert(a@ =~= b@);
    true
}

pub fn copy_bytes(a: &Vec<u8>) -> (r: Vec<u8>)
    ensures
        r@ == a@,
{
    let mut r: Vec<u8> = Vec::with_capacity(a.len());
    let mut i: usize = 0;
    while i < a.len()
        invariant
            i <= a@.len(),
            r@ == a@.subrange(0, i as int),
        decreases a@.len() - i,
    {
        r.push(a[i]);
        i += 1;
        assert(r@ =~= a@.subrange(0, i as int));
    }
    assert(a@ =~= a@.subrange(0, a@.len() as int));
    r
}

/// Copies the byte strings of `v` from position `from` on.
pub fn copy_values_from(v: &Vec<Vec<u8>>, from: usize) -> (r: Vec<Vec<u8>>)
    ensures
        from <= v@.len() ==> values_view(r@) == values_view(v@).skip(from as int),
        from > v@.len() ==> r@.len() == 0,
{
    let mut r: Vec<Vec<u8>> = Vec::new();
    let mut i: usize = from;
    if from > v.len() {
        return r;
    }
    while i < v.len()
        invariant
            from <= i <= v@.len(),
            r@.len() == i - from,
            forall|j: int| 0 <= j < r@.len() ==> #[trigger] r@[j]@ == v@[from + j]@,
        decreases v@.len() - i,
    {
        let b = copy_bytes(&v[i]);
        r.push(b);
        i += 1;
    }
    assert(values_view(r@) =~= values_view(v@).skip(from as int));
    r
}

} // verus!
