//! A contour that pieces can be cut to.

use crate::model::cut::Cut;
use vstd::prelude::*;

verus! {

/// How many tool codes a shape keeps track of: the codes 0 to 9.
pub const TOOL_SLOTS: usize = 10;

/// A reusable contour, in its own coordinate frame.
#[derive(Debug, Clone, Default)]
pub struct Shape<N> {
    /// Id of the `Shape` section.
    pub id: i32,
    /// Name.
    pub name: String,
    /// Description.
    pub description: String,
    /// Base rotation.
    pub rotation: N,
    /// Left border offset.
    pub left_border: N,
    /// The segments of the contour, in order.
    pub cuts: Vec<Cut<N>>,
    /// For each tool code, whether a segment uses it.
    pub tool_types: Vec<bool>,
    /// Whether the contour ends away from where it starts.
    pub is_open: bool,
    /// Sum of the segments' lengths.
    pub perimeter: N,
}

/// Whether one of `cuts` is made with tool `tool`.
pub open spec fn some_cut_uses<N>(cuts: Seq<Cut<N>>, tool: int) -> bool {
    exists|k: int| 0 <= k < cuts.len() && (#[trigger] cuts[k]).tool_code == tool
}

impl<N> Shape<N> {
    /// Whether the shape is marked as using tool `tool_code`.
    pub open spec fn marks_tool(&self, tool_code: int) -> bool {
        0 <= tool_code < self.tool_types.len() && self.tool_types[tool_code]
    }

    /// Empties the contour, with room for `capacity` segments.
    pub fn init_cuts(&mut self, capacity: usize)
        ensures
            final(self).cuts@ == Seq::<Cut<N>>::empty(),
            *final(self) == (Shape { cuts: final(self).cuts, ..*old(self) }),
    {
        self.cuts = Vec::with_capacity(capacity);
    }

    /// Appends a segment to the contour.
    pub fn add_cut(&mut self, cut: Cut<N>)
        ensures
            final(self).cuts@ == old(self).cuts@.push(cut),
            *final(self) == (Shape { cuts: final(self).cuts, ..*old(self) }),
    {
        self.cuts.push(cut);
    }

    /// Marks every tool that a segment of the contour uses. A tool code
    /// that is not positive, or beyond the codes kept track of, marks
    /// nothing; no mark is taken away.
    pub fn detect_tool_types(&mut self)
        ensures
            final(self).tool_types.len() == old(self).tool_types.len(),
            forall|t: int|
                0 <= t < old(self).tool_types.len() ==> #[trigger] final(self).tool_types[t] == (old(
                    self,
                ).tool_types[t] || (t > 0 && some_cut_uses(old(self).cuts@, t))),
            *final(self) == (Shape { tool_types: final(self).tool_types, ..*old(self) }),
    {
        let n = self.cuts.len();
        let slots = self.tool_types.len();
        let mut i: usize = 0;
        while i < n
            invariant
                i <= n,
                n == self.cuts.len(),
                slots == self.tool_types.len(),
                slots == old(self).tool_types.len(),
                *self == (Shape { tool_types: self.tool_types, ..*old(self) }),
                forall|t: int|
                    0 <= t < slots ==> #[trigger] self.tool_types[t] == (old(self).tool_types[t]
                        || (t > 0 && some_cut_uses(old(self).cuts@.subrange(0, i as int), t))),
            decreases n - i,
        {
            let tool = self.cuts[i].tool_code;
            let ghost before = self.tool_types@;
            if tool > 0 && (tool as usize) < slots {
                self.tool_types[tool as usize] = true;
            }
            proof {
                let done = old(self).cuts@.subrange(0, i as int);
                let next = old(self).cuts@.subrange(0, i + 1);
                assert(next[i as int].tool_code == tool);
                assert forall|t: int| 0 <= t < slots implies #[trigger] self.tool_types[t] == (old(
                    self,
                ).tool_types[t] || (t > 0 && some_cut_uses(next, t))) by {
                    if some_cut_uses(done, t) {
                        let k = choose|k: int| 0 <= k < done.len() && (#[trigger] done[k]).tool_code == t;
                        assert(next[k].tool_code == t);
                    }
                    if some_cut_uses(next, t) && t != tool {
                        let k = choose|k: int| 0 <= k < next.len() && (#[trigger] next[k]).tool_code == t;
                        assert(done[k].tool_code == t);
                    }
                }
            }
            i += 1;
        }
        assert(old(self).cuts@.subrange(0, n as int) =~= old(self).cuts@);
    }

    /// Whether the shape is marked as using tool `tool_code`.
    pub fn uses_tool(&self, tool_code: usize) -> (r: bool)
        ensures
            r == self.marks_tool(tool_code as int),
    {
        tool_code < self.tool_types.len() && self.tool_types[tool_code]
    }
}

impl<N: Copy> Shape<N> {
    /// Where the contour starts.
    pub fn start_point(&self) -> (r: Option<(N, N)>)
        ensures
            r == (if self.cuts.len() > 0 {
                Some((self.cuts[0].xi, self.cuts[0].yi))
            } else {
                None
            }),
    {
        if self.cuts.len() > 0 {
            Some((self.cuts[0].xi, self.cuts[0].yi))
        } else {
            None
        }
    }

    /// Where the contour ends.
    pub fn end_point(&self) -> (r: Option<(N, N)>)
        ensures
            r == (if self.cuts.len() > 0 {
                Some((self.cuts[self.cuts.len() - 1].xf, self.cuts[self.cuts.len() - 1].yf))
            } else {
                None
            }),
    {
        let n = self.cuts.len();
        if n > 0 {
            Some((self.cuts[n - 1].xf, self.cuts[n - 1].yf))
        } else {
            None
        }
    }
}

impl<N: Default> Shape<N> {
    /// A shape with the given id, no segment, and no tool marked among the
    /// ten codes it keeps track of.
    pub fn new(id: i32) -> (s: Shape<N>)
        ensures
            s.id == id,
            s.name@.len() == 0,
            s.description@.len() == 0,
            s.cuts@.len() == 0,
            s.tool_types@ == Seq::new(TOOL_SLOTS as nat, |i: int| false),
            !s.is_open,
    {
        let tool_types = vec![false; TOOL_SLOTS];
        assert(tool_types@ =~= Seq::new(TOOL_SLOTS as nat, |i: int| false));
        Shape {
            id,
            name: String::new(),
            description: String::new(),
            rotation: N::default(),
            left_border: N::default(),
            cuts: Vec::new(),
            tool_types,
            is_open: false,
            perimeter: N::default(),
        }
    }
}

} // verus!
