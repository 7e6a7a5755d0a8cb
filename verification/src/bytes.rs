//! Byte-buffer helpers with contracts over sequence views.

use vstd::prelude::*;

verus! {

/// Append every byte of `src` to `dst`.
pub fn append_bytes(dst: &mut Vec<u8>, src: &[u8])
    ensures
        final(dst)@ == old(dst)@ + src@,
{
    let ghost start = dst@;
    let mut i: usize = 0;
    while i < src.len()
        invariant
            i <= src@.len(),
            dst@ == start + src@.subrange(0, i as int),
        decreases src.len() - i,
    {
        dst.push(src[i]);
        i = i + 1;
        assert(src@.subrange(0, i as int) == src@.subrange(0, i - 1 as int).push(src@[i - 1]));
    }
    assert(src@.subrange(0, src@.len() as int) == src@);
}

/// A copy of `src[start..end]`.
pub fn copy_range(src: &[u8], start: usize, end: usize) -> (out: Vec<u8>)
    requires
        start <= end <= src@.len(),
    ensures
        out@ == src@.subrange(start as int, end as int),
{
    let mut out: Vec<u8> = Vec::new();
    append_bytes(&mut out, vstd::slice::slice_subrange(src, start, end));
    out
}

/// Overwrite `dst[at..at + src.len()]` with `src`.
pub fn overwrite_bytes(dst: &mut Vec<u8>, at: usize, src: &[u8])
    requires
        at + src@.len() <= old(dst)@.len(),
    ensures
        final(dst)@ == old(dst)@.subrange(0, at as int) + src@ + old(dst)@.subrange(
            at + src@.len(),
            old(dst)@.len() as int,
        ),
{
    let ghost start = dst@;
    let mut i: usize = 0;
    while i < src.len()
        invariant
            i <= src@.len(),
            at + src@.len() <= start.len(),
            dst@.len() == start.len(),
            forall|k: int| 0 <= k < at ==> dst@[k] == start[k],
            forall|k: int| 0 <= k < i ==> dst@[at + k] == src@[k],
            forall|k: int| at + i <= k < start.len() ==> dst@[k] == start[k],
        decreases src.len() - i,
    {
        let n = dst.len();
        assert(at + i < n);
        dst.set(at + i, src[i]);
        i = i + 1;
    }
    assert(dst@ =~= start.subrange(0, at as int) + src@ + start.subrange(
        at + src@.len(),
        start.len() as int,
    ));
}

} // verus!
