//! Conversion of OTD glass-cutting layouts into CNI machine programs.

pub mod config;
pub mod error;
pub mod generator;
pub mod layers;
pub mod model;
pub mod number;
pub mod parser;
pub mod text;
pub mod transform;
pub mod validation;
