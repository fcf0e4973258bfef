//! Reading of OTD layouts.

pub mod cuttings;
pub mod document;
pub mod fields;
pub mod lookup;
pub mod nesting;
pub mod otd;
pub mod otx;
pub mod pattern;
pub mod sections;
pub mod shapes;
pub mod strips;
