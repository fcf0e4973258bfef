//! Transformations of a parsed layout.

pub mod linear;
pub mod shapes;
pub mod toolpath;
