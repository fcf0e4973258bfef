//! One segment of a cut: a line or a circular arc.

use vstd::prelude::*;

verus! {

/// Geometry of a cut.
#[derive(Debug, Clone, Copy, PartialEq, Eq, Structural, Default)]
pub enum CutType {
    /// Straight segment.
    #[default]
    Line,
    /// Clockwise arc.
    ArcCW,
    /// Counter-clockwise arc.
    ArcCCW,
}

/// Orientation of a straight cut.
#[derive(Debug, Clone, Copy, PartialEq, Eq, Structural, Default)]
pub enum LineType {
    /// Parallel to the Y axis.
    #[default]
    Vertical,
    /// Parallel to the X axis.
    Horizontal,
    /// Neither.
    Oblique,
}

impl CutType {
    /// The number of this geometry in the input format.
    pub open spec fn number(self) -> int {
        match self {
            CutType::Line => 1,
            CutType::ArcCW => 2,
            CutType::ArcCCW => 3,
        }
    }

    /// The number of this geometry in the input format.
    pub fn code(self) -> (n: i32)
        ensures
            n == self.number(),
    {
        match self {
            CutType::Line => 1,
            CutType::ArcCW => 2,
            CutType::ArcCCW => 3,
        }
    }
}

impl LineType {
    /// The orientation of a line between two points: vertical where the
    /// points agree in X, else horizontal where they agree in Y, else
    /// oblique. Whether two coordinates agree is for the caller to say,
    /// who knows the tolerance.
    pub fn classify(same_x: bool, same_y: bool) -> (t: LineType)
        ensures
            t == LineType::Vertical <==> same_x,
            t == LineType::Horizontal <==> !same_x && same_y,
            t == LineType::Oblique <==> !same_x && !same_y,
    {
        if same_x {
            LineType::Vertical
        } else if same_y {
            LineType::Horizontal
        } else {
            LineType::Oblique
        }
    }

    /// The number of this orientation in the input format.
    pub open spec fn number(self) -> int {
        match self {
            LineType::Vertical => 1,
            LineType::Horizontal => 2,
            LineType::Oblique => 3,
        }
    }

    /// The number of this orientation in the input format.
    pub fn code(self) -> (n: i32)
        ensures
            n == self.number(),
    {
        match self {
            LineType::Vertical => 1,
            LineType::Horizontal => 2,
            LineType::Oblique => 3,
        }
    }
}

/// One segment of a linear or shaped cut.
#[derive(Debug, Clone, Default)]
pub struct Cut<N> {
    /// Geometry of the segment.
    pub cut_type: CutType,
    /// Orientation, for a straight segment.
    pub line_type: LineType,
    /// Start point, X.
    pub xi: N,
    /// Start point, Y.
    pub yi: N,
    /// End point, X.
    pub xf: N,
    /// End point, Y.
    pub yf: N,
    /// Arc centre, X.
    pub xc: N,
    /// Arc centre, Y.
    pub yc: N,
    /// Arc radius.
    pub radius: N,
    /// Depth in the hierarchy of nested cuts.
    pub level: i32,
    /// Tool rotation angle.
    pub rotation: N,
    /// Position within the hierarchy.
    pub quota: N,
    /// Length of the cut.
    pub length: N,
    /// Flags of the cut.
    pub tcut: i32,
    /// What is left of the strip beyond this cut.
    pub rest: N,
    /// Tool code.
    pub tool_code: i32,
    /// Width of coating removal.
    pub ablation_width: N,
    /// The pieces this cut borders.
    pub piece_indices: Vec<i32>,
    /// For each of those pieces, which of its sides the cut is.
    pub cut_indices: Vec<i32>,
    /// How many of the slots above are filled.
    pub num_pieces: i32,
    /// Whether the cut only separates scrap.
    pub is_scrap: bool,
    /// Index of the shape the cut belongs to, -1 where it belongs to none.
    pub parent_shape: i32,
    /// Whether the cut is still to be made. Cuts are switched off, never
    /// removed, so that indices stay valid.
    pub active: bool,
}

/// `cut` turned round: start and end have changed places.
pub open spec fn turned<N>(cut: Cut<N>) -> Cut<N> {
    Cut { xi: cut.xf, yi: cut.yf, xf: cut.xi, yf: cut.yi, ..cut }
}

impl<N> Cut<N> {
    /// The slots for bordering pieces are consistent: as many of one kind
    /// as of the other, the filled ones first.
    pub open spec fn slots_wf(&self) -> bool {
        &&& self.piece_indices.len() == self.cut_indices.len()
        &&& self.piece_indices.len() <= i32::MAX
        &&& 0 <= self.num_pieces <= self.piece_indices.len()
    }

    /// Makes `capacity` empty slots for bordering pieces.
    pub fn init_piece_indices(&mut self, capacity: usize)
        ensures
            final(self).piece_indices@ == Seq::new(capacity as nat, |i: int| -1i32),
            final(self).cut_indices@ == Seq::new(capacity as nat, |i: int| -1i32),
            final(self).num_pieces == 0,
            capacity <= i32::MAX ==> final(self).slots_wf(),
            *final(self) == (Cut {
                piece_indices: final(self).piece_indices,
                cut_indices: final(self).cut_indices,
                num_pieces: 0,
                ..*old(self)
            }),
    {
        self.piece_indices = vec![-1i32; capacity];
        self.cut_indices = vec![-1i32; capacity];
        self.num_pieces = 0;
        assert(self.piece_indices@ =~= Seq::new(capacity as nat, |i: int| -1i32));
        assert(self.cut_indices@ =~= Seq::new(capacity as nat, |i: int| -1i32));
    }

    /// Fills the next free slot with a piece and the side of it that this
    /// cut is. With no free slot left, nothing changes.
    pub fn add_piece_index(&mut self, piece_idx: i32, cut_idx: i32)
        requires
            old(self).slots_wf(),
        ensures
            final(self).slots_wf(),
            *final(self) == (Cut {
                piece_indices: final(self).piece_indices,
                cut_indices: final(self).cut_indices,
                num_pieces: final(self).num_pieces,
                ..*old(self)
            }),
            old(self).num_pieces < old(self).piece_indices.len() ==> {
                &&& final(self).num_pieces == old(self).num_pieces + 1
                &&& final(self).piece_indices@ == old(self).piece_indices@.update(
                    old(self).num_pieces as int,
                    piece_idx,
                )
                &&& final(self).cut_indices@ == old(self).cut_indices@.update(
                    old(self).num_pieces as int,
                    cut_idx,
                )
            },
            old(self).num_pieces >= old(self).piece_indices.len() ==> {
                &&& final(self).num_pieces == old(self).num_pieces
                &&& final(self).piece_indices@ == old(self).piece_indices@
                &&& final(self).cut_indices@ == old(self).cut_indices@
            },
    {
        let slot: usize = self.num_pieces as usize;
        if slot < self.piece_indices.len() {
            self.piece_indices[slot] = piece_idx;
            self.cut_indices[slot] = cut_idx;
            self.num_pieces = self.num_pieces + 1;
        }
    }

    /// Whether the cut is a vertical line.
    pub fn is_vertical(&self) -> (r: bool)
        ensures
            r == (self.line_type == LineType::Vertical),
    {
        self.line_type == LineType::Vertical
    }

    /// Whether the cut is a horizontal line.
    pub fn is_horizontal(&self) -> (r: bool)
        ensures
            r == (self.line_type == LineType::Horizontal),
    {
        self.line_type == LineType::Horizontal
    }

    /// Whether the cut is straight.
    pub fn is_line(&self) -> (r: bool)
        ensures
            r == (self.cut_type == CutType::Line),
    {
        self.cut_type == CutType::Line
    }

    /// Whether the cut is an arc.
    pub fn is_arc(&self) -> (r: bool)
        ensures
            r == (self.cut_type != CutType::Line),
    {
        match self.cut_type {
            CutType::ArcCW | CutType::ArcCCW => true,
            CutType::Line => false,
        }
    }

    /// Turns the cut round: start and end change places.
    pub fn reverse(&mut self)
        ensures
            *final(self) == turned(*old(self)),
    {
        core::mem::swap(&mut self.xi, &mut self.xf);
        core::mem::swap(&mut self.yi, &mut self.yf);
    }
}

} // verus!
