//! What the shapes of a schema need before they are cut: the tools they
//! use, and the order in which the shaped pieces are visited.

use crate::model::cut::Cut;
use crate::model::schema::Schema;
use crate::model::shape::{some_cut_uses, Shape};
use crate::transform::toolpath::FARTHEST;
use vstd::prelude::*;

verus! {

/// `shape` after its tools are detected: every tool that a segment uses
/// is marked, and nothing else has changed.
pub open spec fn with_tools<N>(before: Shape<N>, after: Shape<N>) -> bool {
    &&& after.tool_types.len() == before.tool_types.len()
    &&& forall|t: int|
        0 <= t < before.tool_types.len() ==> #[trigger] after.tool_types[t] == (
        before.tool_types[t] || (t > 0 && some_cut_uses(before.cuts@, t)))
    &&& after == (Shape { tool_types: after.tool_types, ..before })
}

/// Marks in each shape of the schema the tools that its segments use.
pub fn detect_shape_tools<N>(schema: &mut Schema<N>)
    ensures
        final(schema).shapes.len() == old(schema).shapes.len(),
        forall|k: int|
            0 <= k < old(schema).shapes.len() ==> with_tools(
                old(schema).shapes[k],
                #[trigger] final(schema).shapes[k],
            ),
        *final(schema) == (Schema { shapes: final(schema).shapes, ..*old(schema) }),
{
    let n = schema.shapes.len();
    let mut k: usize = 0;
    while k < n
        invariant
            k <= n,
            n == schema.shapes.len(),
            n == old(schema).shapes.len(),
            *schema == (Schema { shapes: schema.shapes, ..*old(schema) }),
            forall|j: int|
                0 <= j < k ==> with_tools(old(schema).shapes[j], #[trigger] schema.shapes[j]),
            forall|j: int| k <= j < n ==> #[trigger] schema.shapes[j] == old(schema).shapes[j],
        decreases n - k,
    {
        schema.shapes[k].detect_tool_types();
        k += 1;
    }
}

/// Whether segment `k` is where a shape is entered with tool `tool`: the
/// segment is active and made with that tool.
pub open spec fn enters_with<N>(cuts: Seq<Cut<N>>, k: int, tool: int) -> bool {
    cuts[k].active && cuts[k].tool_code == tool
}

/// The segment at which a shape is entered with tool `tool_type`: its
/// first active segment made with that tool. A shape that is not marked
/// as using the tool is not entered.
pub fn entry_cut<N>(shape: &Shape<N>, tool_type: usize) -> (r: Option<usize>)
    ensures
        match r {
            Some(k) => shape.marks_tool(tool_type as int) && k < shape.cuts.len() && enters_with(
                shape.cuts@,
                k as int,
                tool_type as int,
            ) && forall|j: int| 0 <= j < k ==> !enters_with(shape.cuts@, j, tool_type as int),
            None => !shape.marks_tool(tool_type as int) || forall|j: int|
                0 <= j < shape.cuts.len() ==> !enters_with(shape.cuts@, j, tool_type as int),
        },
{
    if !shape.uses_tool(tool_type) {
        return None;
    }
    let mut k: usize = 0;
    while k < shape.cuts.len()
        invariant
            k <= shape.cuts.len(),
            shape.marks_tool(tool_type as int),
            forall|j: int| 0 <= j < k ==> !enters_with(shape.cuts@, j, tool_type as int),
        decreases shape.cuts.len() - k,
    {
        let cut = &shape.cuts[k];
        if cut.active && cut.tool_code >= 0 && cut.tool_code as u64 == tool_type as u64 {
            return Some(k);
        }
        k += 1;
    }
    None
}

// ---------------------------------------------------------------------------
// The order of the shaped pieces
// ---------------------------------------------------------------------------

/// Whether piece `c` is the nearest among the open ones: its key lies
/// below `FARTHEST`, every open piece before it has a greater key and no
/// open piece after it a smaller one.
pub open spec fn is_nearest_open(keys: Seq<u64>, open: Seq<bool>, c: int) -> bool {
    &&& 0 <= c < keys.len()
    &&& open[c]
    &&& keys[c] < FARTHEST
    &&& forall|d: int| 0 <= d < c && open[d] ==> keys[d] > keys[c]
    &&& forall|d: int| c <= d < keys.len() && open[d] ==> keys[d] >= keys[c]
}

/// Whether no open piece can be taken.
pub open spec fn none_open(keys: Seq<u64>, open: Seq<bool>) -> bool {
    forall|d: int| 0 <= d < keys.len() && open[d] ==> keys[d] >= FARTHEST
}

/// Chooses the nearest of the open pieces by the keys of their distances.
pub fn choose_open(keys: &Vec<u64>, open: &Vec<bool>) -> (r: Option<usize>)
    requires
        keys.len() == open.len(),
    ensures
        match r {
            Some(c) => is_nearest_open(keys@, open@, c as int),
            None => none_open(keys@, open@),
        },
{
    let mut best: Option<usize> = None;
    let mut least: u64 = FARTHEST;
    let mut i: usize = 0;
    while i < keys.len()
        invariant
            i <= keys.len(),
            keys.len() == open.len(),
            least <= FARTHEST,
            match best {
                Some(c) => {
                    &&& c < i
                    &&& open[c as int]
                    &&& keys[c as int] == least
                    &&& least < FARTHEST
                    &&& forall|d: int| 0 <= d < c && open[d] ==> keys[d] > least
                    &&& forall|d: int| c <= d < i && open[d] ==> keys[d] >= least
                },
                None => least == FARTHEST && forall|d: int|
                    0 <= d < i && open[d] ==> keys[d] >= FARTHEST,
            },
        decreases keys.len() - i,
    {
        if open[i] && keys[i] < least {
            least = keys[i];
            best = Some(i);
        }
        i += 1;
    }
    best
}

/// A walk over the pieces whose shapes are to be cut: which pieces can be
/// visited, which are visited, and in what order.
pub struct PieceWalk {
    open: Vec<bool>,
    order: Vec<usize>,
}

impl PieceWalk {
    /// For each piece, whether it can still be visited.
    pub closed spec fn open(&self) -> Seq<bool> {
        self.open@
    }

    /// The pieces visited, in order.
    pub closed spec fn visited(&self) -> Seq<usize> {
        self.order@
    }

    /// The walk is consistent: no piece is visited twice, and a visited
    /// piece cannot be visited again.
    pub open spec fn wf(&self) -> bool {
        &&& forall|a: int, b: int|
            0 <= a < b < self.visited().len() ==> self.visited()[a] != self.visited()[b]
        &&& forall|a: int|
            0 <= a < self.visited().len() ==> (#[trigger] self.visited()[a]) < self.open().len()
                && !self.open()[self.visited()[a] as int]
    }

    /// A walk in which the pieces marked in `valid` can be visited.
    pub fn start(valid: Vec<bool>) -> (w: PieceWalk)
        ensures
            w.wf(),
            w.open() == valid@,
            w.visited().len() == 0,
    {
        PieceWalk { open: valid, order: Vec::new() }
    }

    /// Visits the nearest of the pieces that can still be visited, by the
    /// keys of the distances to where their shapes are entered. There is
    /// none where no such piece is left or none is within reach.
    pub fn advance(&mut self, keys: &Vec<u64>) -> (r: Option<usize>)
        requires
            old(self).wf(),
            keys.len() == old(self).open().len(),
        ensures
            final(self).wf(),
            match r {
                Some(c) => is_nearest_open(keys@, old(self).open(), c as int) && final(self).open()
                    == old(self).open().update(c as int, false) && final(self).visited() == old(
                    self,
                ).visited().push(c),
                None => none_open(keys@, old(self).open()) && final(self).open() == old(self).open()
                    && final(self).visited() == old(self).visited(),
            },
    {
        match choose_open(keys, &self.open) {
            Some(c) => {
                let ghost was = self.order@;
                let ghost flags = self.open@;
                self.open[c] = false;
                self.order.push(c);
                proof {
                    assert forall|a: int, b: int| 0 <= a < b < self.order@.len() implies self.order@[a]
                        != self.order@[b] by {
                        assert(self.order@[a] == was[a]);
                        assert(was[a] == old(self).visited()[a]);
                        if b == was.len() {
                            assert(!old(self).open()[old(self).visited()[a] as int]);
                            assert(flags[c as int]);
                        } else {
                            assert(self.order@[b] == was[b]);
                        }
                    }
                    assert forall|a: int| 0 <= a < self.order@.len() implies (
                    #[trigger] self.order@[a]) < self.open@.len() && !self.open@[self.order@[a] as int] by {
                        if a < was.len() {
                            assert(self.order@[a] == was[a]);
                            assert(was[a] == old(self).visited()[a]);
                            assert(!old(self).open()[old(self).visited()[a] as int]);
                        }
                    }
                }
                Some(c)
            },
            None => None,
        }
    }

    /// The order in which the pieces are visited: the order walked, where
    /// the order is to be optimized and the walk visited a piece; every
    /// piece in the order it has in the schema otherwise.
    pub fn finish(self, optimize: bool) -> (order: Vec<usize>)
        requires
            self.wf(),
        ensures
            order@ == if optimize && self.visited().len() > 0 {
                self.visited()
            } else {
                Seq::new(self.open().len(), |i: int| i as usize)
            },
    {
        if optimize && self.order.len() > 0 {
            return self.order;
        }
        let n = self.open.len();
        let mut order: Vec<usize> = Vec::new();
        let mut i: usize = 0;
        while i < n
            invariant
                i <= n,
                order@ == Seq::new(i as nat, |k: int| k as usize),
            decreases n - i,
        {
            order.push(i);
            i += 1;
            assert(order@ =~= Seq::new(i as nat, |k: int| k as usize));
        }
        order
    }
}

// ---------------------------------------------------------------------------
// Shapes on pieces of different sizes
// ---------------------------------------------------------------------------

/// The first piece that has the shape of piece `i`: the piece against
/// whose size the size of piece `i` is held.
pub open spec fn is_first_with_shape<N>(schema: Schema<N>, i: int, j: int) -> bool {
    &&& 0 <= j <= i
    &&& schema.pieces[j].shape_id == schema.pieces[i].shape_id
    &&& forall|k: int| 0 <= k < j ==> schema.pieces[k].shape_id != schema.pieces[i].shape_id
}

/// The first piece that has the shape of piece `i`.
pub fn first_with_shape<N>(schema: &Schema<N>, i: usize) -> (j: usize)
    requires
        i < schema.pieces.len(),
    ensures
        is_first_with_shape(*schema, i as int, j as int),
{
    let wanted = schema.pieces[i].shape_id;
    let mut j: usize = 0;
    while j < i
        invariant
            j <= i < schema.pieces.len(),
            wanted == schema.pieces[i as int].shape_id,
            forall|k: int| 0 <= k < j ==> schema.pieces[k].shape_id != wanted,
        decreases i - j,
    {
        let same = match (schema.pieces[j].shape_id, wanted) {
            (Some(a), Some(b)) => a == b,
            (None, None) => true,
            _ => false,
        };
        if same {
            return j;
        }
        j += 1;
    }
    i
}

/// Whether `ids` are the shapes used on pieces of different sizes: the
/// shape ids of the pieces marked in `differs`, each once, in the order in
/// which the pieces come.
pub open spec fn are_mismatched<N>(schema: Schema<N>, differs: Seq<bool>, ids: Seq<i32>) -> bool {
    &&& forall|a: int, b: int| 0 <= a < b < ids.len() ==> ids[a] != ids[b]
    &&& forall|id: i32|
        ids.contains(id) <==> exists|i: int|
            0 <= i < schema.pieces.len() && i < differs.len() && differs[i] && (
            #[trigger] schema.pieces[i]).shape_id == Some(id)
}

/// The shapes used on pieces of different sizes. `differs[i]` says that
/// the size of piece `i` differs from that of the first piece with its
/// shape.
pub fn check_shape_piece_sizes<N>(
    schema: &Schema<N>,
    differs: &Vec<bool>,
) -> (r: Result<(), Vec<i32>>)
    ensures
        match r {
            Ok(_) => are_mismatched(*schema, differs@, Seq::empty()),
            Err(ids) => ids.len() > 0 && are_mismatched(*schema, differs@, ids@),
        },
{
    let mut ids: Vec<i32> = Vec::new();
    let mut i: usize = 0;
    while i < schema.pieces.len()
        invariant
            i <= schema.pieces.len(),
            forall|a: int, b: int| 0 <= a < b < ids.len() ==> ids[a] != ids[b],
            forall|id: i32|
                ids@.contains(id) <==> exists|k: int|
                    0 <= k < i && k < differs.len() && differs[k] && (
                    #[trigger] schema.pieces[k]).shape_id == Some(id),
        decreases schema.pieces.len() - i,
    {
        let ghost before = ids@;
        if i < differs.len() && differs[i] {
            match schema.pieces[i].shape_id {
                Some(id) => {
                    let mut known = false;
                    let mut a: usize = 0;
                    while a < ids.len()
                        invariant
                            a <= ids.len(),
                            ids@ == before,
                            known == exists|b: int| 0 <= b < a && ids[b] == id,
                        decreases ids.len() - a,
                    {
                        if ids[a] == id {
                            known = true;
                        }
                        a += 1;
                    }
                    if !known {
                        ids.push(id);
                    }
                },
                None => {},
            }
        }
        proof {
            assert forall|id: i32|
                ids@.contains(id) <==> exists|k: int|
                    0 <= k < i + 1 && k < differs.len() && differs[k] && (
                    #[trigger] schema.pieces[k]).shape_id == Some(id) by {
                if ids@.contains(id) {
                    let b = choose|b: int| 0 <= b < ids.len() && ids[b] == id;
                    if b < before.len() {
                        assert(before.contains(id));
                    } else {
                        assert(schema.pieces[i as int].shape_id == Some(id));
                    }
                }
                if exists|k: int|
                    0 <= k < i + 1 && k < differs.len() && differs[k] && (
                    #[trigger] schema.pieces[k]).shape_id == Some(id) {
                    let k = choose|k: int|
                        0 <= k < i + 1 && k < differs.len() && differs[k] && (
                        #[trigger] schema.pieces[k]).shape_id == Some(id);
                    if k < i {
                        assert(before.contains(id));
                        let b = choose|b: int| 0 <= b < before.len() && before[b] == id;
                        assert(ids[b] == id);
                    } else {
                        if before.contains(id) {
                            let b = choose|b: int| 0 <= b < before.len() && before[b] == id;
                            assert(ids[b] == id);
                        } else {
                            assert(ids[before.len() as int] == id);
                        }
                    }
                }
            }
        }
        i += 1;
    }
    if ids.len() == 0 {
        assert(ids@ =~= Seq::empty());
        Ok(())
    } else {
        Err(ids)
    }
}

} // verus!
