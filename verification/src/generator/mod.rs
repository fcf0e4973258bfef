//! Generators of the CNI document: the G-code program and the DXF views.

pub mod cni;
pub mod drawing;
pub mod dxf;
pub mod gcode;
pub mod program;
pub mod tools;
