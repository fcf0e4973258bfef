//! Units, machine settings and the tool codes the generators fall back on.

use crate::text::{str_equal, trim, trimmed};
use vstd::prelude::*;

verus! {

/// Tool code used for linear cuts where a layout names none.
pub const DEFAULT_LINEAR_TOOL: u16 = 3;

/// Tool code used for shaped cuts where a layout names none.
pub const DEFAULT_SHAPED_TOOL: u16 = 31;

/// Tool type of shaped cuts.
pub const TOOL_TYPE_SHAPED: u32 = 1;

/// Machine number assumed where none is given.
pub const DEFAULT_MACHINE_NUMBER: u16 = 130;

/// The lowercase form of a text, as the Unicode case mappings define it.
pub uninterp spec fn lowercase_of(s: Seq<char>) -> Seq<char>;

/// `str::to_lowercase`: the result is the lowercase form of the argument,
/// a function of its characters alone.
#[verifier::external_body]
fn lowercase(s: &str) -> (r: String)
    ensures
        r@ == lowercase_of(s@),
{
    s.to_lowercase()
}

/// Unit of measurement of a layout.
#[derive(Debug, Clone, Copy, PartialEq, Eq, Structural)]
pub enum Unit {
    Millimeters,
    Inches,
    TenthsOfInch,
}

impl Default for Unit {
    fn default() -> (u: Unit)
        ensures
            u == Unit::Millimeters,
    {
        Unit::Millimeters
    }
}

/// The unit that a lowercase name stands for.
pub open spec fn unit_of_name(name: Seq<char>) -> Option<Unit> {
    if name == "mm"@ {
        Some(Unit::Millimeters)
    } else if name == "inch"@ {
        Some(Unit::Inches)
    } else if name == "tinch"@ {
        Some(Unit::TenthsOfInch)
    } else {
        None
    }
}

impl Unit {
    /// The unit named by `name`, which is taken as it stands: `mm`, `inch`
    /// or `tinch`.
    pub fn from_name(name: &str) -> (r: Option<Unit>)
        ensures
            r == unit_of_name(name@),
    {
        if str_equal(name, "mm") {
            Some(Unit::Millimeters)
        } else if str_equal(name, "inch") {
            Some(Unit::Inches)
        } else if str_equal(name, "tinch") {
            Some(Unit::TenthsOfInch)
        } else {
            None
        }
    }

    /// The unit named by the value of a `Dimension=` field: the name is
    /// trimmed and read without regard to case.
    pub fn from_dimension_str(s: &str) -> (r: Option<Unit>)
        ensures
            r == unit_of_name(lowercase_of(trimmed(s@))),
    {
        let lowered = lowercase(trim(s));
        Unit::from_name(lowered.as_str())
    }

    /// The G-code that selects this unit on the controller.
    pub fn gcode(&self) -> (r: &'static str)
        ensures
            r@ == (if *self == Unit::Millimeters {
                "G71"@
            } else {
                "G70"@
            }),
    {
        match self {
            Unit::Millimeters => "G71",
            Unit::Inches | Unit::TenthsOfInch => "G70",
        }
    }

    /// The name under which this unit is shown.
    pub fn label(&self) -> (r: &'static str)
        ensures
            r@ == (match *self {
                Unit::Millimeters => "mm"@,
                Unit::Inches => "inch"@,
                Unit::TenthsOfInch => "Tinch"@,
            }),
    {
        match self {
            Unit::Millimeters => "mm",
            Unit::Inches => "inch",
            Unit::TenthsOfInch => "Tinch",
        }
    }
}

/// Settings of the target machine.
#[derive(Debug, Clone, Copy)]
pub struct MachineConfig {
    /// Machine number: 100 to 199 is a cutting table, 200 and above a
    /// laminated-glass machine.
    pub machine_number: u16,
    /// Tool code for linear cuts.
    pub linear_tool: u16,
    /// Tool code for shaped cuts.
    pub shaped_tool: u16,
}

impl Default for MachineConfig {
    fn default() -> (c: MachineConfig)
        ensures
            c.machine_number == DEFAULT_MACHINE_NUMBER,
            c.linear_tool == DEFAULT_LINEAR_TOOL,
            c.shaped_tool == DEFAULT_SHAPED_TOOL,
    {
        MachineConfig {
            machine_number: DEFAULT_MACHINE_NUMBER,
            linear_tool: DEFAULT_LINEAR_TOOL,
            shaped_tool: DEFAULT_SHAPED_TOOL,
        }
    }
}

impl MachineConfig {
    /// The settings of machine `machine_number`, with the default tools.
    pub fn new(machine_number: u16) -> (c: MachineConfig)
        ensures
            c.machine_number == machine_number,
            c.linear_tool == DEFAULT_LINEAR_TOOL,
            c.shaped_tool == DEFAULT_SHAPED_TOOL,
    {
        MachineConfig {
            machine_number,
            linear_tool: DEFAULT_LINEAR_TOOL,
            shaped_tool: DEFAULT_SHAPED_TOOL,
        }
    }

    /// Whether the machine is a cutting table.
    pub fn is_cutting_table(&self) -> (r: bool)
        ensures
            r == (100 <= self.machine_number < 200),
    {
        self.machine_number >= 100 && self.machine_number < 200
    }

    /// Whether the machine cuts laminated glass.
    pub fn is_laminated(&self) -> (r: bool)
        ensures
            r == (self.machine_number >= 200),
    {
        self.machine_number >= 200
    }
}

/// Whether `n` is even. Even hierarchy levels are vertical cuts, odd ones
/// horizontal.
pub fn is_even(n: i32) -> (r: bool)
    ensures
        r == (n as int % 2 == 0),
{
    n % 2 == 0
}

} // verus!
