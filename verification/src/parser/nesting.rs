//! The hierarchy of nested coordinates.
//!
//! A pattern lists its cuts depth-first, each with its depth in the tree of
//! guillotine cuts: a line's level. Nothing else marks parent and child.
//! The ancestors of an entry are the earlier entries whose level no entry
//! between them and it falls below.

use vstd::prelude::*;

verus! {

/// The level of a coordinate variable: `X Y Z W V A B C D E` stand for the
/// levels 0 to 9.
pub open spec fn level_of(var: char) -> Option<i32> {
    if var == 'X' {
        Some(0i32)
    } else if var == 'Y' {
        Some(1i32)
    } else if var == 'Z' {
        Some(2i32)
    } else if var == 'W' {
        Some(3i32)
    } else if var == 'V' {
        Some(4i32)
    } else if var == 'A' {
        Some(5i32)
    } else if var == 'B' {
        Some(6i32)
    } else if var == 'C' {
        Some(7i32)
    } else if var == 'D' {
        Some(8i32)
    } else if var == 'E' {
        Some(9i32)
    } else {
        None
    }
}

/// The level of a coordinate variable.
pub fn coordinate_level(var: char) -> (r: Option<i32>)
    ensures
        r == level_of(var),
        r matches Some(l) ==> 0 <= l <= 9,
{
    match var {
        'X' => Some(0),
        'Y' => Some(1),
        'Z' => Some(2),
        'W' => Some(3),
        'V' => Some(4),
        'A' => Some(5),
        'B' => Some(6),
        'C' => Some(7),
        'D' => Some(8),
        'E' => Some(9),
        _ => None,
    }
}

/// Whether a cut of the given level is vertical: the even levels are, the
/// odd ones are horizontal.
pub open spec fn is_vertical_level(level: i32) -> bool {
    level as int % 2 == 0
}

/// Whether entry `j` lies on the path from the root to entry `i`: it is
/// `i` itself, or it comes before `i` and no entry after it up to `i` has
/// a lower level than it.
pub open spec fn on_path(levels: Seq<i32>, i: int, j: int) -> bool {
    0 <= j <= i && forall|k: int| j < k <= i ==> levels[j] <= #[trigger] levels[k]
}

/// Whether `path` is the path from the root to entry `i`: the entries on
/// that path and no others, the root first.
pub open spec fn is_path_to(levels: Seq<i32>, i: int, path: Seq<usize>) -> bool {
    &&& forall|a: int, b: int| 0 <= a < b < path.len() ==> path[a] < path[b]
    &&& forall|a: int| 0 <= a < path.len() ==> on_path(levels, i, #[trigger] path[a] as int)
    &&& forall|j: int| on_path(levels, i, j) ==> exists|a: int| 0 <= a < path.len() && path[a] == j
}

/// The path to an entry ends at that entry, and levels never fall along
/// it.
pub proof fn lemma_path_levels_rise(levels: Seq<i32>, i: int, path: Seq<usize>)
    requires
        0 <= i < levels.len(),
        is_path_to(levels, i, path),
    ensures
        path.len() > 0,
        path.last() == i,
        forall|a: int, b: int|
            0 <= a <= b < path.len() ==> levels[path[a] as int] <= levels[path[b] as int],
{
    assert(on_path(levels, i, i));
    let z = choose|a: int| 0 <= a < path.len() && path[a] == i;
    assert(on_path(levels, i, path.last() as int));
    assert forall|a: int, b: int| 0 <= a <= b < path.len() implies levels[path[a] as int]
        <= levels[path[b] as int] by {
        assert(on_path(levels, i, path[a] as int));
        assert(on_path(levels, i, path[b] as int));
    }
}

/// The path from the root to entry `i`.
pub fn ancestor_path(levels: &Vec<i32>, i: usize) -> (path: Vec<usize>)
    requires
        i < levels.len(),
    ensures
        is_path_to(levels@, i as int, path@),
        forall|b: int| 0 <= b < path.len() ==> #[trigger] path[b] < levels.len(),
{
    // walk back from the entry, keeping what no later entry falls below
    let mut back: Vec<usize> = Vec::new();
    back.push(i);
    let mut lowest: i32 = levels[i];
    let mut j: usize = i;
    assert(back[0] == i);
    assert(on_path(levels@, i as int, i as int));
    while j > 0
        invariant
            j <= i < levels.len(),
            back.len() > 0,
            forall|a: int, b: int| 0 <= a < b < back.len() ==> back[a] > back[b],
            forall|a: int| 0 <= a < back.len() ==> j <= #[trigger] back[a] <= i,
            forall|a: int| 0 <= a < back.len() ==> on_path(levels@, i as int, #[trigger] back[a] as int),
            forall|k: int|
                j <= k <= i && on_path(levels@, i as int, k) ==> exists|a: int|
                    0 <= a < back.len() && back[a] == k,
            forall|k: int| j <= k <= i ==> lowest <= #[trigger] levels[k],
            exists|k: int| j <= k <= i && levels[k] == lowest,
        decreases j,
    {
        j -= 1;
        let ghost before = back@;
        let ghost was = lowest;
        if levels[j] <= lowest {
            lowest = levels[j];
            back.push(j);
            proof {
                assert(on_path(levels@, i as int, j as int));
                assert forall|k: int|
                    j <= k <= i && on_path(levels@, i as int, k) implies exists|a: int|
                    0 <= a < back.len() && back[a] == k by {
                    if k == j {
                        assert(back[before.len() as int] == j);
                    } else {
                        let a = choose|a: int| 0 <= a < before.len() && before[a] == k;
                        assert(back[a] == k);
                    }
                }
                assert(levels@[j as int] == lowest);
            }
        } else {
            proof {
                let low = choose|k: int| j + 1 <= k <= i && levels@[k] == was;
                assert(!on_path(levels@, i as int, j as int)) by {
                    if on_path(levels@, i as int, j as int) {
                        assert(levels@[j as int] <= levels@[low]);
                    }
                }
                assert forall|k: int|
                    j <= k <= i && on_path(levels@, i as int, k) implies exists|a: int|
                    0 <= a < back.len() && back[a] == k by {
                    let a = choose|a: int| 0 <= a < before.len() && before[a] == k;
                    assert(back[a] == k);
                }
                assert(levels@[low] == lowest);
            }
        }
    }
    // the root comes first
    let n = back.len();
    let mut path: Vec<usize> = Vec::new();
    let mut k: usize = n;
    while k > 0
        invariant
            k <= n,
            n == back.len(),
            path.len() == n - k,
            forall|a: int| 0 <= a < path.len() ==> #[trigger] path[a] == back[n - 1 - a],
        decreases k,
    {
        k -= 1;
        path.push(back[k]);
    }
    proof {
        assert forall|a: int, b: int| 0 <= a < b < path.len() implies path[a] < path[b] by {
            assert(back[n - 1 - b] > back[n - 1 - a]);
        }
        assert forall|a: int| 0 <= a < path.len() implies on_path(
            levels@,
            i as int,
            #[trigger] path[a] as int,
        ) by {
            assert(on_path(levels@, i as int, back[n - 1 - a] as int));
        }
        assert forall|q: int| on_path(levels@, i as int, q) implies exists|a: int|
            0 <= a < path.len() && path[a] == q by {
            let a = choose|a: int| 0 <= a < back.len() && back[a] == q;
            assert(path[n - 1 - a] == q);
        }
        assert forall|b: int| 0 <= b < path.len() implies #[trigger] path[b] < levels.len() by {
            assert(back[n - 1 - b] <= i);
        }
    }
    path
}

/// What an entry on a path does to the strip that is being divided.
#[derive(Debug, Clone, Copy, PartialEq, Eq, Structural)]
pub enum StepKind {
    /// The entry opens a deeper level: it cuts a first strip off what is
    /// left on its axis.
    Descend,
    /// The entry follows a sibling of the same level: it moves past that
    /// strip and cuts the next one off.
    Sibling,
    /// The entry's level lies below the level reached: it changes nothing.
    Skip,
}

/// One entry on the path to a cut.
#[derive(Debug, Clone, Copy, PartialEq, Eq, Structural)]
pub struct NestingStep {
    /// Index of the entry.
    pub index: usize,
    /// What the entry does.
    pub kind: StepKind,
    /// Whether the entry is a vertical cut, which divides along X; a
    /// horizontal one divides along Y.
    pub vertical: bool,
}

/// What an entry of level `level` does where the deepest level opened so
/// far is `reached`.
pub open spec fn kind_of(reached: int, level: int) -> StepKind {
    if level > reached {
        StepKind::Descend
    } else if level == reached {
        StepKind::Sibling
    } else {
        StepKind::Skip
    }
}

/// The deepest level opened once the first `n` entries of `path` are
/// walked: -1 before the first.
pub open spec fn reached_after(levels: Seq<i32>, path: Seq<usize>, n: int) -> int
    decreases n,
{
    if n <= 0 {
        -1
    } else {
        let before = reached_after(levels, path, n - 1);
        let level = levels[path[n - 1] as int] as int;
        if level > before {
            level
        } else {
            before
        }
    }
}

/// The step that entry number `a` of `path` makes.
pub open spec fn step_at(levels: Seq<i32>, path: Seq<usize>, a: int) -> NestingStep {
    NestingStep {
        index: path[a],
        kind: kind_of(reached_after(levels, path, a), levels[path[a] as int] as int),
        vertical: is_vertical_level(levels[path[a] as int]),
    }
}

/// Whether `steps` are the steps along `path`.
pub open spec fn are_steps_of(levels: Seq<i32>, path: Seq<usize>, steps: Seq<NestingStep>) -> bool {
    steps.len() == path.len() && forall|a: int|
        0 <= a < steps.len() ==> #[trigger] steps[a] == step_at(levels, path, a)
}

/// The steps along `path`: for each entry on it, in order, what the entry
/// does to the strip being divided.
pub fn nesting_steps(levels: &Vec<i32>, path: &Vec<usize>) -> (steps: Vec<NestingStep>)
    requires
        forall|b: int| 0 <= b < path.len() ==> #[trigger] path[b] < levels.len(),
    ensures
        are_steps_of(levels@, path@, steps@),
{
    let mut steps: Vec<NestingStep> = Vec::new();
    let mut reached: i32 = -1;
    let mut a: usize = 0;
    while a < path.len()
        invariant
            a <= path.len(),
            steps.len() == a,
            forall|b: int| 0 <= b < path.len() ==> #[trigger] path[b] < levels.len(),
            reached == reached_after(levels@, path@, a as int),
            forall|b: int| 0 <= b < a ==> #[trigger] steps[b] == step_at(levels@, path@, b),
        decreases path.len() - a,
    {
        let index = path[a];
        let level = levels[index];
        let kind = if level > reached {
            StepKind::Descend
        } else if level == reached {
            StepKind::Sibling
        } else {
            StepKind::Skip
        };
        steps.push(NestingStep { index, kind, vertical: level % 2 == 0 });
        if level > reached {
            reached = level;
        }
        a += 1;
    }
    steps
}

/// Along the path to an entry no step is skipped, and the first step
/// descends, where no level is negative: each entry opens a deeper level
/// or follows a sibling.
pub proof fn lemma_no_step_skipped(levels: Seq<i32>, i: int, path: Seq<usize>, a: int)
    requires
        0 <= i < levels.len(),
        is_path_to(levels, i, path),
        forall|k: int| 0 <= k < levels.len() ==> 0 <= #[trigger] levels[k],
        0 <= a < path.len(),
    ensures
        step_at(levels, path, a).kind != StepKind::Skip,
        a == 0 ==> step_at(levels, path, a).kind == StepKind::Descend,
        a > 0 ==> reached_after(levels, path, a) == levels[path[a - 1] as int],
    decreases a,
{
    lemma_path_levels_rise(levels, i, path);
    assert(on_path(levels, i, path[a] as int));
    if a > 0 {
        lemma_no_step_skipped(levels, i, path, a - 1);
        assert(on_path(levels, i, path[a - 1] as int));
        assert(levels[path[a - 1] as int] <= levels[path[a] as int]);
    }
}

/// The path from the root to entry `i`, and the steps along it. Where no
/// level is negative, as with the levels of coordinate variables, the
/// first step descends and none is skipped.
pub fn steps_to(levels: &Vec<i32>, i: usize) -> (r: (Vec<usize>, Vec<NestingStep>))
    requires
        i < levels.len(),
    ensures
        is_path_to(levels@, i as int, r.0@),
        are_steps_of(levels@, r.0@, r.1@),
        r.1@.len() > 0,
        r.1@.last().index == i,
        (forall|k: int| 0 <= k < levels.len() ==> 0 <= #[trigger] levels[k]) ==> r.1@[0].kind
            == StepKind::Descend && forall|a: int|
            0 <= a < r.1@.len() ==> (#[trigger] r.1@[a]).kind != StepKind::Skip,
{
    let path = ancestor_path(levels, i);
    let steps = nesting_steps(levels, &path);
    proof {
        lemma_path_levels_rise(levels@, i as int, path@);
        if forall|k: int| 0 <= k < levels.len() ==> 0 <= #[trigger] levels[k] {
            assert forall|a: int| 0 <= a < steps@.len() implies (#[trigger] steps@[a]).kind
                != StepKind::Skip by {
                lemma_no_step_skipped(levels@, i as int, path@, a);
            }
            lemma_no_step_skipped(levels@, i as int, path@, 0);
        }
    }
    (path, steps)
}

} // verus!
