//! Customer and order data of a kind of piece.

use vstd::prelude::*;

verus! {

/// What an `Info` section says of a kind of piece.
#[derive(Debug, Clone, Default)]
pub struct PieceType<N> {
    /// Id of the `Info` section.
    pub id: i32,
    /// Order number.
    pub order_no: String,
    /// Position within the order.
    pub position_no: String,
    /// Customer.
    pub customer: String,
    /// Commission.
    pub commission: String,
    /// Reference of a second glass.
    pub second_glass_ref: String,
    /// Rack number.
    pub rack_no: String,
    /// Nominal width.
    pub sheet_width: N,
    /// Nominal height.
    pub sheet_height: N,
    /// Piece code.
    pub piece_code: i32,
    /// Whether pieces of this kind are scrap.
    pub waste: bool,
}

impl<N> PieceType<N> {
    /// Whether a customer is named.
    pub fn has_customer(&self) -> (r: bool)
        ensures
            r == (self.customer@.len() > 0),
    {
        !self.customer.as_str().is_empty()
    }

    /// Whether an order number is given.
    pub fn has_order(&self) -> (r: bool)
        ensures
            r == (self.order_no@.len() > 0),
    {
        !self.order_no.as_str().is_empty()
    }
}

impl<N: Default> PieceType<N> {
    /// A piece type with the given id and nothing else set.
    pub fn new(id: i32) -> (t: PieceType<N>)
        ensures
            t.id == id,
            t.order_no@.len() == 0,
            t.position_no@.len() == 0,
            t.customer@.len() == 0,
            t.commission@.len() == 0,
            t.second_glass_ref@.len() == 0,
            t.rack_no@.len() == 0,
            t.piece_code == 0,
            !t.waste,
    {
        PieceType {
            id,
            order_no: String::new(),
            position_no: String::new(),
            customer: String::new(),
            commission: String::new(),
            second_glass_ref: String::new(),
            rack_no: String::new(),
            sheet_width: N::default(),
            sheet_height: N::default(),
            piece_code: 0,
            waste: false,
        }
    }
}

} // verus!
