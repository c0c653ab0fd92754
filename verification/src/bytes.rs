//! Small operations on byte strings that the other modules share.

use vstd::prelude::*;

verus! {

/// Appends `data[from..to]` to `out`.
pub(crate) fn append_range(out: &mut Vec<u8>, data: &[u8], from: usize, to: usize)
    requires
        from <= to <= data@.len(),
    ensures
        final(out)@ == old(out)@ + data@.subrange(from as int, to as int),
{
    let mut i = from;
    while i < to
        invariant
            from <= i <= to <= data@.len(),
            out@ == old(out)@ + data@.subrange(from as int, i as int),
        decreases to - i,
    {
        out.push(data[i]);
        i += 1;
        assert(out@ =~= old(out)@ + data@.subrange(from as int, i as int));
    }
    assert(out@ =~= old(out)@ + data@.subrange(from as int, to as int));
}

/// Appends all of `data` to `out`.
pub(crate) fn append(out: &mut Vec<u8>, data: &[u8])
    ensures
        final(out)@ == old(out)@ + data@,
{
    append_range(out, data, 0, data.len());
    assert(data@.subrange(0, data@.len() as int) =~= data@);
}

/// A vector with the bytes of `data`.
pub(crate) fn copy(data: &[u8]) -> (out: Vec<u8>)
    ensures
        out@ == data@,
{
    let mut out: Vec<u8> = Vec::new();
    append(&mut out, data);
    assert(Seq::<u8>::empty() + data@ =~= data@);
    out
}

/// Whether `a` and `b` hold the same bytes.
pub(crate) fn equal(a: &[u8], b: &[u8]) -> (same: bool)
    ensures
        same == (a@ == b@),
{
    if a.len() != b.len() {
        return false;
    }
    let mut i: usize = 0;
    while i < a.len()
        invariant
            i <= a@.len(),
            a@.len() == b@.len(),
            forall|k: int| 0 <= k < i ==> a@[k] == b@[k],
        decreases a@.len() - i,
    {
        if a[i] != b[i] {
            return false;
        }
        i += 1;
    }
    assert(a@ =~= b@);
    true
}

/// Fills `out` with `data[from..from + N]`.
pub(crate) fn fill_from<const N: usize>(out: &mut [u8; N], data: &[u8], from: usize)
    requires
        from + N <= data@.len(),
    ensures
        final(out)@ == data@.subrange(from as int, from + N),
{
    let len = data.len();
    let mut k: usize = 0;
    while k < N
        invariant
            k <= N,
            len == data@.len(),
            from + N <= len,
            forall|j: int| 0 <= j < k ==> out@[j] == data@[from + j],
        decreases N - k,
    {
        out[k] = data[from + k];
        k += 1;
    }
    assert(out@ =~= data@.subrange(from as int, from + N));
}

} // verus!
