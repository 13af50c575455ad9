//! Helper functions for drag and drop.
use vstd::prelude::*;

verus! {

/// Whether `shift_vec` accepts the two indices on a list of length `len`.
pub open spec fn shift_allowed(source_idx: int, target_idx: int, len: int) -> bool {
    (source_idx <= target_idx && target_idx <= len) || (target_idx <= source_idx && source_idx
        < len)
}

/// The list after the item at `source_idx` was moved in front of the item
/// that stood at `target_idx`.
pub open spec fn shifted<T>(source_idx: int, target_idx: int, s: Seq<T>) -> Seq<T> {
    if source_idx < target_idx {
        s.subrange(0, source_idx) + s.subrange(source_idx + 1, target_idx) + seq![s[source_idx]]
            + s.subrange(target_idx, s.len() as int)
    } else if target_idx < source_idx {
        s.subrange(0, target_idx) + seq![s[source_idx]] + s.subrange(target_idx, source_idx)
            + s.subrange(source_idx + 1, s.len() as int)
    } else {
        s
    }
}

/// Move an item in a list according to the drag and drop logic.
///
/// The section between `source_idx` and `target_idx` is rotated by one, so that
/// the item that was at `source_idx` ends up at `target_idx - 1` if
/// `target_idx > source_idx`, and at `target_idx` otherwise. This is where a
/// user expects the item after grabbing it and dropping it at that position.
pub fn shift_vec<T>(source_idx: usize, target_idx: usize, vec: &mut Vec<T>)
    requires
        shift_allowed(source_idx as int, target_idx as int, old(vec)@.len() as int),
    ensures
        final(vec)@ == shifted(source_idx as int, target_idx as int, old(vec)@),
        source_idx == target_idx ==> final(vec)@ == old(vec)@,
{
    if source_idx < target_idx {
        let item = vec.remove(source_idx);
        vec.insert(target_idx - 1, item);
        proof {
            let s = old(vec)@;
            let r = shifted(source_idx as int, target_idx as int, s);
            assert(vec@ =~= r);
        }
    } else if target_idx < source_idx {
        let item = vec.remove(source_idx);
        vec.insert(target_idx, item);
        proof {
            let s = old(vec)@;
            let r = shifted(source_idx as int, target_idx as int, s);
            assert(vec@ =~= r);
        }
    }
}

} // verus!
