//! Accounting of device memory.

use vstd::prelude::*;

verus! {

/// Sum of some sizes.
pub open spec fn total(parts: Seq<usize>) -> int
    decreases parts.len(),
{
    if parts.len() == 0 {
        0
    } else {
        total(parts.drop_last()) + parts.last()
    }
}

proof fn lemma_prefix_is_smaller(parts: Seq<usize>, count: int)
    requires
        0 <= count <= parts.len(),
    ensures
        total(parts.take(count)) <= total(parts),
    decreases parts.len() - count,
{
    if count < parts.len() {
        lemma_prefix_is_smaller(parts, count + 1);
        assert(parts.take(count + 1).drop_last() =~= parts.take(count));
    } else {
        assert(parts.take(count) =~= parts);
    }
}

/// Device memory of a workspace: the sum of what its parts take.
pub fn device_bytes(parts: &[usize]) -> (bytes: usize)
    requires
        total(parts@) <= usize::MAX,
    ensures
        bytes == total(parts@),
{
    let mut bytes: usize = 0;
    let mut i: usize = 0;
    assert(parts@.take(0) =~= Seq::<usize>::empty());
    while i < parts.len()
        invariant
            i <= parts@.len(),
            bytes == total(parts@.take(i as int)),
            total(parts@) <= usize::MAX,
        decreases parts@.len() - i,
    {
        proof {
            lemma_prefix_is_smaller(parts@, i + 1);
            assert(parts@.take(i + 1).drop_last() =~= parts@.take(i as int));
        }
        bytes += parts[i];
        i += 1;
    }
    assert(parts@.take(i as int) =~= parts@);
    bytes
}

} // verus!
