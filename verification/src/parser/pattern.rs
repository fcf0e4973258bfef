//! The `[Pattern]` section: its header fields and its nested coordinates.
//!
//! Measures are handed on as the text in which they are written, once that
//! text is found to be written as a measure is. Where the section gives no
//! measure that can be read, the text of the default stands in its place.

use crate::number::{is_measure_syntax, is_measure_text};
use crate::parser::fields::{multi_values, pair_views, parse_multi_values};
use crate::parser::lookup::{
    field_int, field_measure, find_field_int, find_field_measure, find_int, find_measure,
    find_string, last_int, last_measure, last_string,
};
use crate::parser::nesting::{coordinate_level, level_of};
use crate::parser::sections::{blank_or_comment, is_blank_or_comment, texts};
use crate::text::{starts_with, trim, trimmed};
use vstd::prelude::*;
use vstd::string::StringExecFns;

verus! {

/// What the header of a `[Pattern]` section says.
#[derive(Debug)]
pub struct PatternData {
    pub machine_name: String,
    pub machine_number: u16,
    pub glass_id: String,
    pub glass_description: String,
    pub thickness: String,
    pub glass_structured: bool,
    pub glass_coated: bool,
    pub width: String,
    pub height: String,
    pub trim_left: String,
    pub trim_bottom: String,
    pub quantity: u32,
    pub cutting_order: u8,
    pub linear_advance: String,
    pub min_angle: String,
    pub coating_min_angle: String,
    pub linear_tool: i32,
    pub shaped_tool: i32,
    pub open_shaped_tool: i32,
    pub incision_tool: i32,
    pub optimize_shape_order: bool,
}

/// `value`, or the empty text where there is none.
pub open spec fn or_empty(value: Option<Seq<char>>) -> Seq<char> {
    match value {
        Some(v) => v,
        None => Seq::empty(),
    }
}

/// `value`, or `default` where there is none.
pub open spec fn or_text(value: Option<Seq<char>>, default: Seq<char>) -> Seq<char> {
    match value {
        Some(v) => v,
        None => default,
    }
}

/// `value`, or `default` where there is none.
pub open spec fn or_int(value: Option<i32>, default: i32) -> i32 {
    match value {
        Some(v) => v,
        None => default,
    }
}

/// Whether `value` is 1; `default` where there is none.
pub open spec fn is_one(value: Option<i32>, default: bool) -> bool {
    match value {
        Some(v) => v == 1,
        None => default,
    }
}

/// Whether a trimmed line begins the nested coordinates: it begins with
/// `X=`, `Y=` or `Z=`.
pub open spec fn begins_coordinates(t: Seq<char>) -> bool {
    "X="@.is_prefix_of(t) || "Y="@.is_prefix_of(t) || "Z="@.is_prefix_of(t)
}

/// The number of lines of the header: the index of the first line that
/// begins the nested coordinates, or the number of lines where none does.
pub open spec fn header_len(lines: Seq<Seq<char>>) -> int
    decreases lines.len(),
{
    if lines.len() == 0 || begins_coordinates(trimmed(lines.first())) {
        0
    } else {
        1 + header_len(lines.drop_first())
    }
}

/// The lines of the header: those before the nested coordinates.
pub open spec fn header_lines(lines: Seq<Seq<char>>) -> Seq<Seq<char>> {
    lines.take(header_len(lines))
}

/// `header_len` counts exactly the lines before the first that begins the
/// nested coordinates.
pub proof fn lemma_header_len(lines: Seq<Seq<char>>, n: int)
    requires
        0 <= n <= lines.len(),
        forall|i: int| 0 <= i < n ==> !begins_coordinates(trimmed(#[trigger] lines[i])),
        n < lines.len() ==> begins_coordinates(trimmed(lines[n])),
    ensures
        header_len(lines) == n,
    decreases n,
{
    if n > 0 {
        let rest = lines.drop_first();
        assert(!begins_coordinates(trimmed(lines[0])));
        assert forall|i: int| 0 <= i < n - 1 implies !begins_coordinates(
            trimmed(#[trigger] rest[i]),
        ) by {
            assert(rest[i] == lines[i + 1]);
        }
        lemma_header_len(rest, n - 1);
    }
}

/// The number of lines of the header.
pub fn header_length(lines: &[&str]) -> (n: usize)
    ensures
        n == header_len(texts(lines@)),
        n <= lines.len(),
{
    let ghost all = texts(lines@);
    let mut i: usize = 0;
    while i < lines.len()
        invariant
            i <= lines.len(),
            all == texts(lines@),
            forall|k: int| 0 <= k < i ==> !begins_coordinates(trimmed(#[trigger] all[k])),
        decreases lines.len() - i,
    {
        let line = trim(lines[i]);
        assert(all[i as int] == lines@[i as int]@);
        if starts_with(line, "X=") || starts_with(line, "Y=") || starts_with(line, "Z=") {
            proof {
                lemma_header_len(all, i as int);
            }
            return i;
        }
        i += 1;
    }
    proof {
        lemma_header_len(all, i as int);
    }
    i
}

/// The 16 low bits of `v`, as the machine number they stand for.
pub open spec fn low_u16(v: i32) -> u16 {
    (v as int % 65536) as u16
}

/// The 8 low bits of `v`.
pub open spec fn low_u8(v: i32) -> u8 {
    (v as int % 256) as u8
}

/// The number of sheets that `v` asks for: at least one.
pub open spec fn at_least_one(v: i32) -> u32 {
    if v < 1 {
        1u32
    } else {
        v as u32
    }
}

fn to_low_u16(v: i32) -> (r: u16)
    ensures
        r == low_u16(v),
{
    let m: i32 = v % 65536;
    if m < 0 {
        (m + 65536) as u16
    } else {
        m as u16
    }
}

fn to_low_u8(v: i32) -> (r: u8)
    ensures
        r == low_u8(v),
{
    let m: i32 = v % 256;
    if m < 0 {
        (m + 256) as u8
    } else {
        m as u8
    }
}

/// `found`, or `default` where nothing was found.
pub fn measure_or(found: Option<String>, default: &str) -> (r: String)
    ensures
        r@ == or_text(
            match found {
                Some(s) => Some(s@),
                None => None,
            },
            default@,
        ),
{
    match found {
        Some(s) => s,
        None => String::from_str(default),
    }
}

/// `found`, or the empty text where nothing was found.
pub fn string_or_empty(found: Option<String>) -> (r: String)
    ensures
        r@ == or_empty(
            match found {
                Some(s) => Some(s@),
                None => None,
            },
        ),
{
    match found {
        Some(s) => s,
        None => String::new(),
    }
}

impl PatternData {
    /// Whether this is what the header of the section with the given lines
    /// says: each field holds what the last line that sets it to a value
    /// that can be read gives it, or its default.
    pub open spec fn is_header_of(&self, lines: Seq<Seq<char>>) -> bool {
        let h = header_lines(lines);
        &&& self.machine_name@ == or_empty(last_string(h, "MachineName"@))
        &&& self.machine_number == match last_int(h, "MachineNumber"@) {
            Some(v) => low_u16(v),
            None => 0u16,
        }
        &&& self.glass_id@ == or_empty(last_string(h, "GlassID"@))
        &&& self.glass_description@ == or_empty(last_string(h, "GlassDescription"@))
        &&& self.thickness@ == or_text(last_measure(h, "GlassThickness"@), "0"@)
        &&& self.glass_structured == is_one(last_int(h, "GlassStructured"@), false)
        &&& self.glass_coated == is_one(last_int(h, "GlassCoated"@), false)
        &&& self.width@ == or_text(last_measure(h, "Width"@), "0"@)
        &&& self.height@ == or_text(last_measure(h, "Height"@), "0"@)
        &&& self.trim_left@ == or_text(last_measure(h, "TrimLeft"@), "0"@)
        &&& self.trim_bottom@ == or_text(last_measure(h, "TrimBottom"@), "0"@)
        &&& self.quantity == match last_int(h, "Pieces"@) {
            Some(v) => at_least_one(v),
            None => 1u32,
        }
        &&& self.cutting_order == match last_int(h, "CuttingOrder"@) {
            Some(v) => low_u8(v),
            None => 0u8,
        }
        &&& self.linear_advance@ == or_text(last_measure(h, "LinearAdvance"@), "0"@)
        &&& self.min_angle@ == or_text(last_measure(h, "MinAngle"@), "5"@)
        &&& self.coating_min_angle@ == or_text(last_measure(h, "CoatingMinAngle"@), "5"@)
        &&& self.linear_tool == or_int(last_int(h, "LinearToolCode"@), 0)
        &&& self.shaped_tool == or_int(last_int(h, "ToolCode1"@), 0)
        &&& self.incision_tool == or_int(last_int(h, "ToolCode2"@), 0)
        &&& self.open_shaped_tool == or_int(last_int(h, "ToolCode6"@), 0)
        &&& self.optimize_shape_order == is_one(last_int(h, "ShapeOptimization"@), true)
    }
}

/// Reads the header of a `[Pattern]` section: the lines before the nested
/// coordinates.
pub fn parse_pattern_header(lines: &[&str]) -> (data: PatternData)
    ensures
        data.is_header_of(texts(lines@)),
{
    let n = header_length(lines);
    let machine_number = match find_int(lines, n, "MachineNumber") {
        Some(v) => to_low_u16(v),
        None => 0,
    };
    let glass_structured = match find_int(lines, n, "GlassStructured") {
        Some(v) => v == 1,
        None => false,
    };
    let glass_coated = match find_int(lines, n, "GlassCoated") {
        Some(v) => v == 1,
        None => false,
    };
    let quantity: u32 = match find_int(lines, n, "Pieces") {
        Some(v) => if v < 1 {
            1
        } else {
            v as u32
        },
        None => 1,
    };
    let cutting_order = match find_int(lines, n, "CuttingOrder") {
        Some(v) => to_low_u8(v),
        None => 0,
    };
    let optimize_shape_order = match find_int(lines, n, "ShapeOptimization") {
        Some(v) => v == 1,
        None => true,
    };
    let linear_tool = match find_int(lines, n, "LinearToolCode") {
        Some(v) => v,
        None => 0,
    };
    let shaped_tool = match find_int(lines, n, "ToolCode1") {
        Some(v) => v,
        None => 0,
    };
    let incision_tool = match find_int(lines, n, "ToolCode2") {
        Some(v) => v,
        None => 0,
    };
    let open_shaped_tool = match find_int(lines, n, "ToolCode6") {
        Some(v) => v,
        None => 0,
    };
    let data = PatternData {
        machine_name: string_or_empty(find_string(lines, n, "MachineName")),
        machine_number,
        glass_id: string_or_empty(find_string(lines, n, "GlassID")),
        glass_description: string_or_empty(find_string(lines, n, "GlassDescription")),
        thickness: measure_or(find_measure(lines, n, "GlassThickness"), "0"),
        glass_structured,
        glass_coated,
        width: measure_or(find_measure(lines, n, "Width"), "0"),
        height: measure_or(find_measure(lines, n, "Height"), "0"),
        trim_left: measure_or(find_measure(lines, n, "TrimLeft"), "0"),
        trim_bottom: measure_or(find_measure(lines, n, "TrimBottom"), "0"),
        quantity,
        cutting_order,
        linear_advance: measure_or(find_measure(lines, n, "LinearAdvance"), "0"),
        min_angle: measure_or(find_measure(lines, n, "MinAngle"), "5"),
        coating_min_angle: measure_or(find_measure(lines, n, "CoatingMinAngle"), "5"),
        linear_tool,
        shaped_tool,
        open_shaped_tool,
        incision_tool,
        optimize_shape_order,
    };
    data
}

// ---------------------------------------------------------------------------
// Nested coordinates
// ---------------------------------------------------------------------------

/// One line of nested coordinates.
#[derive(Debug, Clone)]
pub struct CoordEntry {
    /// The coordinate variable: one of `X Y Z W V A B C D E`.
    pub var: char,
    /// The level of that variable, 0 to 9.
    pub level: i32,
    /// The coordinate, as written.
    pub value: String,
    /// The `Shape` the line names.
    pub shape_id: Option<i32>,
    /// The `Info` the line names.
    pub info_id: Option<i32>,
    /// The rotation the line gives, as written.
    pub rotation: Option<String>,
    /// The `Tcut` flags the line gives.
    pub tcut: Option<i32>,
}

/// The content of a `CoordEntry`.
pub struct CoordFields {
    pub var: char,
    pub level: i32,
    pub value: Seq<char>,
    pub shape_id: Option<i32>,
    pub info_id: Option<i32>,
    pub rotation: Option<Seq<char>>,
    pub tcut: Option<i32>,
}

impl View for CoordEntry {
    type V = CoordFields;

    open spec fn view(&self) -> CoordFields {
        CoordFields {
            var: self.var,
            level: self.level,
            value: self.value@,
            shape_id: self.shape_id,
            info_id: self.info_id,
            rotation: match self.rotation {
                Some(r) => Some(r@),
                None => None,
            },
            tcut: self.tcut,
        }
    }
}

/// The contents of a list of entries.
pub open spec fn coord_views(entries: Seq<CoordEntry>) -> Seq<CoordFields> {
    entries.map_values(|e: CoordEntry| e@)
}

/// The entry that a line gives. A line gives one where it begins, after
/// trimming, with a coordinate variable, where that variable alone is the
/// key of its first field and where the value of that field is written as
/// a measure is. The fields behind the first may name a shape, an info, a
/// rotation and flags; of several fields with one key the last counts.
pub open spec fn coord_entry(line: Seq<char>) -> Option<CoordFields> {
    let t = trimmed(line);
    let fields = multi_values(t);
    if is_blank_or_comment(t) || level_of(t[0]) is None || fields.len() == 0 || fields[0].0.len()
        != 1 || !is_measure_syntax(fields[0].1) {
        None
    } else {
        let rest = fields.subrange(1, fields.len() as int);
        Some(
            CoordFields {
                var: t[0],
                level: level_of(t[0])->0,
                value: fields[0].1,
                shape_id: field_int(rest, "Shape"@),
                info_id: field_int(rest, "Info"@),
                rotation: field_measure(rest, "Rot"@),
                tcut: field_int(rest, "Tcut"@),
            },
        )
    }
}

/// The entries that a list of lines gives, in order.
pub open spec fn coord_entries(lines: Seq<Seq<char>>) -> Seq<CoordFields>
    decreases lines.len(),
{
    if lines.len() == 0 {
        Seq::empty()
    } else {
        match coord_entry(lines.last()) {
            Some(e) => coord_entries(lines.drop_last()).push(e),
            None => coord_entries(lines.drop_last()),
        }
    }
}

/// The entry that `line` gives.
pub fn parse_coord_line(line: &str) -> (r: Option<CoordEntry>)
    ensures
        match r {
            Some(e) => coord_entry(line@) == Some(e@),
            None => coord_entry(line@) is None,
        },
{
    let t = trim(line);
    if blank_or_comment(t) {
        return None;
    }
    let var = t.get_char(0);
    let level = match coordinate_level(var) {
        Some(l) => l,
        None => {
            return None;
        },
    };
    let fields = parse_multi_values(t);
    if fields.len() == 0 {
        return None;
    }
    let (key, value) = fields[0];
    assert(pair_views(fields@)[0] == (key@, value@));
    if key.unicode_len() != 1 || !is_measure_text(value) {
        return None;
    }
    let shape_id = find_field_int(&fields, 1, "Shape");
    let info_id = find_field_int(&fields, 1, "Info");
    let rotation = find_field_measure(&fields, 1, "Rot");
    let tcut = find_field_int(&fields, 1, "Tcut");
    Some(CoordEntry { var, level, value: value.to_owned(), shape_id, info_id, rotation, tcut })
}

/// Reads the nested coordinates of a `[Pattern]` section: one entry for
/// each line that gives one, in the order of the lines.
pub fn parse_pattern_coordinates(lines: &[&str]) -> (entries: Vec<CoordEntry>)
    ensures
        coord_views(entries@) == coord_entries(texts(lines@)),
{
    let ghost all = texts(lines@);
    let mut entries: Vec<CoordEntry> = Vec::new();
    let mut i: usize = 0;
    assert(all.take(0) =~= Seq::empty());
    assert(coord_views(entries@) =~= Seq::empty());
    while i < lines.len()
        invariant
            i <= lines.len(),
            all == texts(lines@),
            coord_views(entries@) == coord_entries(all.take(i as int)),
        decreases lines.len() - i,
    {
        proof {
            assert(all.take(i + 1).drop_last() =~= all.take(i as int));
            assert(all.take(i + 1).last() == lines@[i as int]@);
        }
        match parse_coord_line(lines[i]) {
            Some(e) => {
                let ghost before = entries@;
                entries.push(e);
                assert(coord_views(entries@) =~= coord_views(before).push(e@));
            },
            None => {},
        }
        i += 1;
    }
    assert(all.take(lines.len() as int) =~= all);
    entries
}

} // verus!
