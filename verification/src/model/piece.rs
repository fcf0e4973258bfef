//! A rectangular workpiece placed on the sheet.

use vstd::prelude::*;

verus! {

/// Bit of the left sheet edge in `Piece::edge_sides`.
pub const EDGE_LEFT: u8 = 1;

/// Bit of the bottom sheet edge.
pub const EDGE_BOTTOM: u8 = 2;

/// Bit of the right sheet edge.
pub const EDGE_RIGHT: u8 = 4;

/// Bit of the top sheet edge.
pub const EDGE_TOP: u8 = 8;

/// The edge mask that holds exactly the given sides.
pub open spec fn edge_mask(left: bool, bottom: bool, right: bool, top: bool) -> u8 {
    ((if left {
        1u8
    } else {
        0u8
    }) + (if bottom {
        2u8
    } else {
        0u8
    }) + (if right {
        4u8
    } else {
        0u8
    }) + (if top {
        8u8
    } else {
        0u8
    })) as u8
}

/// A workpiece on the sheet.
#[derive(Debug, Clone, Default)]
pub struct Piece<N> {
    /// Origin, X.
    pub x_origin: N,
    /// Origin, Y.
    pub y_origin: N,
    /// Width.
    pub width: N,
    /// Height.
    pub height: N,
    /// Id of the `Info` section that describes the piece.
    pub info_id: Option<i32>,
    /// Id of the `Shape` section that gives its contour.
    pub shape_id: Option<i32>,
    /// Number of the piece in the layout.
    pub piece_index: i32,
    /// Index of its piece type in the schema, once resolved.
    pub piece_type_index: Option<usize>,
    /// Index of its shape in the schema, once resolved.
    pub shape_index: Option<usize>,
    /// `IndPiece` value of a `Cuttings` section.
    pub ind_piece: Option<i32>,
    /// Which sheet edges the piece touches: left 1, bottom 2, right 4,
    /// top 8.
    pub edge_sides: u8,
}

impl<N> Piece<N> {
    /// A piece at `(x_origin, y_origin)` of the given size, which refers to
    /// nothing yet and touches no edge.
    pub fn new(x_origin: N, y_origin: N, width: N, height: N) -> (p: Piece<N>)
        ensures
            p.x_origin == x_origin,
            p.y_origin == y_origin,
            p.width == width,
            p.height == height,
            p.info_id is None,
            p.shape_id is None,
            p.piece_index == -1,
            p.piece_type_index is None,
            p.shape_index is None,
            p.ind_piece is None,
            p.edge_sides == 0,
    {
        Piece {
            x_origin,
            y_origin,
            width,
            height,
            info_id: None,
            shape_id: None,
            piece_index: -1,
            piece_type_index: None,
            shape_index: None,
            ind_piece: None,
            edge_sides: 0,
        }
    }

    /// Moves the piece.
    pub fn set_origin(&mut self, x: N, y: N)
        ensures
            *final(self) == (Piece { x_origin: x, y_origin: y, ..*old(self) }),
    {
        self.x_origin = x;
        self.y_origin = y;
    }

    /// Resizes the piece.
    pub fn set_dimensions(&mut self, width: N, height: N)
        ensures
            *final(self) == (Piece { width: width, height: height, ..*old(self) }),
    {
        self.width = width;
        self.height = height;
    }

    /// Sets what the piece refers to.
    pub fn set_info_shape(&mut self, info_id: Option<i32>, shape_id: Option<i32>)
        ensures
            *final(self) == (Piece { info_id: info_id, shape_id: shape_id, ..*old(self) }),
    {
        self.info_id = info_id;
        self.shape_id = shape_id;
    }

    /// Whether the piece touches the left sheet edge.
    pub fn touches_left(&self) -> (r: bool)
        ensures
            r == (self.edge_sides & EDGE_LEFT != 0),
    {
        (self.edge_sides & 1) != 0
    }

    /// Whether the piece touches the bottom sheet edge.
    pub fn touches_bottom(&self) -> (r: bool)
        ensures
            r == (self.edge_sides & EDGE_BOTTOM != 0),
    {
        (self.edge_sides & 2) != 0
    }

    /// Whether the piece touches the right sheet edge.
    pub fn touches_right(&self) -> (r: bool)
        ensures
            r == (self.edge_sides & EDGE_RIGHT != 0),
    {
        (self.edge_sides & 4) != 0
    }

    /// Whether the piece touches the top sheet edge.
    pub fn touches_top(&self) -> (r: bool)
        ensures
            r == (self.edge_sides & EDGE_TOP != 0),
    {
        (self.edge_sides & 8) != 0
    }

    /// Records which sheet edges the piece touches.
    pub fn set_edge_sides(&mut self, left: bool, bottom: bool, right: bool, top: bool)
        ensures
            *final(self) == (Piece { edge_sides: edge_mask(left, bottom, right, top), ..*old(self) }),
            (final(self).edge_sides & EDGE_LEFT != 0) == left,
            (final(self).edge_sides & EDGE_BOTTOM != 0) == bottom,
            (final(self).edge_sides & EDGE_RIGHT != 0) == right,
            (final(self).edge_sides & EDGE_TOP != 0) == top,
    {
        let mut mask: u8 = 0;
        if left {
            mask = mask | 1;
        }
        let m1 = mask;
        if bottom {
            mask = mask | 2;
        }
        let m2 = mask;
        if right {
            mask = mask | 4;
        }
        let m3 = mask;
        if top {
            mask = mask | 8;
        }
        assert(mask == edge_mask(left, bottom, right, top) && ((mask & 1 != 0) == left) && ((mask
            & 2 != 0) == bottom) && ((mask & 4 != 0) == right) && ((mask & 8 != 0) == top))
            by (bit_vector)
            requires
                m1 == (if left {
                    0u8 | 1
                } else {
                    0u8
                }),
                m2 == (if bottom {
                    m1 | 2
                } else {
                    m1
                }),
                m3 == (if right {
                    m2 | 4
                } else {
                    m2
                }),
                mask == (if top {
                    m3 | 8
                } else {
                    m3
                }),
        ;
        self.edge_sides = mask;
    }

    /// Whether the piece has a contour of its own.
    pub fn has_shape(&self) -> (r: bool)
        ensures
            r == self.shape_id is Some,
    {
        self.shape_id.is_some()
    }

    /// Whether the piece belongs to an order.
    pub fn has_info(&self) -> (r: bool)
        ensures
            r == self.info_id is Some,
    {
        self.info_id.is_some()
    }
}

} // verus!
