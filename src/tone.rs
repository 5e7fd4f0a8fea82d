use vstd::prelude::*;
use crate::order::Key;

verus! {

/// `v` limited to `[lo, hi]`.
pub open spec fn clamped(v: Key, lo: Key, hi: Key) -> Key {
    if v.rank < lo.rank {
        lo
    } else if v.rank > hi.rank {
        hi
    } else {
        v
    }
}

/// Limits a gamma-corrected channel value to the displayable `[lo, hi]`.
///
/// A NaN channel, the mark of degenerate geometry somewhere along the path,
/// is shown as `lo`: black.
pub fn clamp_channel(value: Option<Key>, lo: Key, hi: Key) -> (r: Key)
    requires
        lo.rank <= hi.rank,
    ensures
        r == match value {
            Some(v) => clamped(v, lo, hi),
            None => lo,
        },
        lo.rank <= r.rank <= hi.rank,
{
    match value {
        Some(v) => if v.rank < lo.rank {
            lo
        } else if v.rank > hi.rank {
            hi
        } else {
            v
        },
        None => lo,
    }
}

} // verus!
