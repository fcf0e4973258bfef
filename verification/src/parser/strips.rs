//! The strip that each nested coordinate cuts off.
//!
//! Along the path to an entry the sheet is divided again and again: an
//! entry that opens a deeper level cuts a first strip off what is left on
//! its axis, an entry that follows a sibling moves past the sibling's
//! strip and cuts the next one off. The sums and differences are the
//! caller's; which of them are taken, and of what, is decided here.

use crate::parser::nesting::{NestingStep, StepKind};
use vstd::prelude::*;

verus! {

/// The strip reached at some point of a path: where it begins, how large
/// it is, and how much is left beyond it on each axis.
#[derive(Debug, Clone, Copy)]
pub struct Strip<N> {
    /// Offset of the strip along X.
    pub offset_x: N,
    /// Offset of the strip along Y.
    pub offset_y: N,
    /// Size of the strip along X.
    pub dim_x: N,
    /// Size of the strip along Y.
    pub dim_y: N,
    /// What is left beyond the strip along X.
    pub rest_x: N,
    /// What is left beyond the strip along Y.
    pub rest_y: N,
}

/// Whether `after` is the strip that `step` makes of the strip `before`,
/// where `value` is the coordinate of the entry and `sum` and `difference`
/// are the arithmetic of the caller.
///
/// An entry that descends cuts `value` off the size on its axis: what is
/// left is the size less `value`. An entry that follows a sibling moves
/// the offset on by the size of the sibling's strip and takes `value` off
/// what was left. Either way the strip has size `value` on that axis. A
/// skipped entry changes nothing.
pub open spec fn follows<N, A: Fn(N, N) -> N, S: Fn(N, N) -> N>(
    sum: A,
    difference: S,
    step: NestingStep,
    value: N,
    before: Strip<N>,
    after: Strip<N>,
) -> bool {
    match (step.kind, step.vertical) {
        (StepKind::Descend, true) => {
            &&& call_ensures(difference, (before.dim_x, value), after.rest_x)
            &&& after == (Strip { dim_x: value, rest_x: after.rest_x, ..before })
        },
        (StepKind::Descend, false) => {
            &&& call_ensures(difference, (before.dim_y, value), after.rest_y)
            &&& after == (Strip { dim_y: value, rest_y: after.rest_y, ..before })
        },
        (StepKind::Sibling, true) => {
            &&& call_ensures(sum, (before.offset_x, before.dim_x), after.offset_x)
            &&& call_ensures(difference, (before.rest_x, value), after.rest_x)
            &&& after == (Strip {
                offset_x: after.offset_x,
                dim_x: value,
                rest_x: after.rest_x,
                ..before
            })
        },
        (StepKind::Sibling, false) => {
            &&& call_ensures(sum, (before.offset_y, before.dim_y), after.offset_y)
            &&& call_ensures(difference, (before.rest_y, value), after.rest_y)
            &&& after == (Strip {
                offset_y: after.offset_y,
                dim_y: value,
                rest_y: after.rest_y,
                ..before
            })
        },
        (StepKind::Skip, _) => after == before,
    }
}

/// The strip before step `k`: the whole sheet before the first step, the
/// strip after the step before otherwise.
pub open spec fn strip_before<N>(whole: Strip<N>, strips: Seq<Strip<N>>, k: int) -> Strip<N> {
    if k == 0 {
        whole
    } else {
        strips[k - 1]
    }
}

/// The strip that `step` makes of the strip `before`.
pub fn next_strip<N: Copy, A: Fn(N, N) -> N, S: Fn(N, N) -> N>(
    sum: &A,
    difference: &S,
    step: &NestingStep,
    value: N,
    before: Strip<N>,
) -> (after: Strip<N>)
    requires
        forall|a: N, b: N| call_requires(*sum, (a, b)),
        forall|a: N, b: N| call_requires(*difference, (a, b)),
    ensures
        follows(*sum, *difference, *step, value, before, after),
{
    match step.kind {
        StepKind::Descend => {
            if step.vertical {
                Strip { dim_x: value, rest_x: difference(before.dim_x, value), ..before }
            } else {
                Strip { dim_y: value, rest_y: difference(before.dim_y, value), ..before }
            }
        },
        StepKind::Sibling => {
            if step.vertical {
                Strip {
                    offset_x: sum(before.offset_x, before.dim_x),
                    dim_x: value,
                    rest_x: difference(before.rest_x, value),
                    ..before
                }
            } else {
                Strip {
                    offset_y: sum(before.offset_y, before.dim_y),
                    dim_y: value,
                    rest_y: difference(before.rest_y, value),
                    ..before
                }
            }
        },
        StepKind::Skip => before,
    }
}

/// The strips along a path: for each step the strip it makes of the one
/// before it, starting from the whole sheet. `values` holds the
/// coordinate of each entry of the pattern.
pub fn walk_strips<N: Copy, A: Fn(N, N) -> N, S: Fn(N, N) -> N>(
    steps: &Vec<NestingStep>,
    values: &Vec<N>,
    whole: Strip<N>,
    sum: &A,
    difference: &S,
) -> (strips: Vec<Strip<N>>)
    requires
        forall|a: N, b: N| call_requires(*sum, (a, b)),
        forall|a: N, b: N| call_requires(*difference, (a, b)),
        forall|k: int| 0 <= k < steps.len() ==> (#[trigger] steps[k]).index < values.len(),
    ensures
        strips.len() == steps.len(),
        forall|k: int|
            0 <= k < steps.len() ==> follows(
                *sum,
                *difference,
                steps[k],
                values[steps[k].index as int],
                strip_before(whole, strips@, k),
                #[trigger] strips[k],
            ),
{
    let mut strips: Vec<Strip<N>> = Vec::new();
    let mut current = whole;
    let mut k: usize = 0;
    while k < steps.len()
        invariant
            k <= steps.len(),
            strips.len() == k,
            forall|a: N, b: N| call_requires(*sum, (a, b)),
            forall|a: N, b: N| call_requires(*difference, (a, b)),
            forall|j: int| 0 <= j < steps.len() ==> (#[trigger] steps[j]).index < values.len(),
            current == strip_before(whole, strips@, k as int),
            forall|j: int|
                0 <= j < k ==> follows(
                    *sum,
                    *difference,
                    steps[j],
                    values[steps[j].index as int],
                    strip_before(whole, strips@, j),
                    #[trigger] strips[j],
                ),
        decreases steps.len() - k,
    {
        let ghost before = strips@;
        let step = steps[k];
        let after = next_strip(sum, difference, &step, values[step.index], current);
        strips.push(after);
        proof {
            assert forall|j: int| 0 <= j < k + 1 implies follows(
                *sum,
                *difference,
                steps[j],
                values[steps[j].index as int],
                strip_before(whole, strips@, j),
                #[trigger] strips[j],
            ) by {
                if j < k {
                    assert(strips[j] == before[j]);
                    assert(strip_before(whole, strips@, j) == strip_before(whole, before, j));
                }
            }
        }
        current = after;
        k += 1;
    }
    strips
}

} // verus!
