//! Small helpers on growable buffers.

use vstd::prelude::*;

verus! {

/// Inserts `slice` into `vec` at `index`, shifting what followed.
pub fn insert_slice_at<T: Copy>(vec: &mut Vec<T>, index: usize, slice: &[T])
    requires
        index <= old(vec)@.len(),
    ensures
        final(vec)@ == old(vec)@.subrange(0, index as int) + slice@ + old(vec)@.subrange(
            index as int,
            old(vec)@.len() as int,
        ),
{
    let mut tail = vec.split_off(index);
    let mut copied: usize = 0;
    while copied < slice.len()
        invariant
            copied <= slice@.len(),
            vec@ == old(vec)@.subrange(0, index as int) + slice@.subrange(0, copied as int),
        decreases slice@.len() - copied,
    {
        vec.push(slice[copied]);
        copied = copied + 1;
        assert(slice@.subrange(0, copied as int) =~= slice@.subrange(0, copied - 1).push(
            slice@[copied - 1],
        ));
    }
    assert(slice@.subrange(0, copied as int) =~= slice@);
    vec.append(&mut tail);
}

} // verus!
