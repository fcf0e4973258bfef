//! The geometric model of a layout.
//!
//! Every type is generic in `N`, the type of a measure (a coordinate, a
//! length, an angle). The library stores and moves measures; it never
//! computes with them.

pub mod convert;
pub mod cut;
pub mod piece;
pub mod piece_type;
pub mod schema;
pub mod shape;
