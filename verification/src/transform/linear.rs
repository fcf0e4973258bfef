//! Choosing among linear cuts.

use crate::model::cut::{Cut, LineType};
use vstd::prelude::*;

verus! {

/// Whether a cut is to be merged with others of the given orientation: it
/// is active, and vertical where `is_vertical` says so, horizontal where
/// not.
pub open spec fn is_merge_candidate<N>(cut: Cut<N>, is_vertical: bool) -> bool {
    cut.active && cut.line_type == if is_vertical {
        LineType::Vertical
    } else {
        LineType::Horizontal
    }
}

/// The indices of the active cuts of one orientation, in ascending order.
pub fn get_cut_indices<N>(cuts: &Vec<Cut<N>>, is_vertical: bool) -> (indices: Vec<usize>)
    ensures
        forall|a: int, b: int| 0 <= a < b < indices.len() ==> indices[a] < indices[b],
        forall|a: int|
            0 <= a < indices.len() ==> (#[trigger] indices[a]) < cuts.len() && is_merge_candidate(
                cuts[indices[a] as int],
                is_vertical,
            ),
        forall|i: int|
            0 <= i < cuts.len() && is_merge_candidate(#[trigger] cuts[i], is_vertical)
                ==> indices@.contains(i as usize),
{
    let mut indices: Vec<usize> = Vec::new();
    let mut i: usize = 0;
    while i < cuts.len()
        invariant
            i <= cuts.len(),
            forall|a: int, b: int| 0 <= a < b < indices.len() ==> indices[a] < indices[b],
            forall|a: int|
                0 <= a < indices.len() ==> (#[trigger] indices[a]) < i && is_merge_candidate(
                    cuts[indices[a] as int],
                    is_vertical,
                ),
            forall|k: int|
                0 <= k < i && is_merge_candidate(#[trigger] cuts[k], is_vertical)
                    ==> indices@.contains(k as usize),
        decreases cuts.len() - i,
    {
        let cut = &cuts[i];
        let wanted = if is_vertical {
            cut.is_vertical()
        } else {
            cut.is_horizontal()
        };
        if cut.active && wanted {
            let ghost before = indices@;
            indices.push(i);
            proof {
                assert forall|k: int|
                    0 <= k < i + 1 && is_merge_candidate(
                        #[trigger] cuts[k],
                        is_vertical,
                    ) implies indices@.contains(k as usize) by {
                    if k < i {
                        let a = choose|a: int| 0 <= a < before.len() && before[a] == k as usize;
                        assert(indices@[a] == k as usize);
                    } else {
                        assert(indices@[before.len() as int] == i);
                    }
                }
            }
        }
        i += 1;
    }
    indices
}

} // verus!
