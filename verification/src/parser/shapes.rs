//! The `[Info]` and `[Shape]` sections.
//!
//! Measures are handed on as the text in which they are written; what is
//! derived from them (an arc's centre, an orientation, a perimeter) is not
//! set here.

use crate::model::cut::{Cut, CutType, LineType};
use crate::model::piece_type::PieceType;
use crate::model::shape::{Shape, TOOL_SLOTS};
use crate::parser::fields::{multi_values, pair_views, parse_multi_values};
use crate::parser::lookup::{
    field_measure, find_field, find_field_measure, find_int, find_measure, find_string,
    last_field, last_int, last_measure, last_string,
};
use crate::number::{parse_i32, parse_i32_spec};
use crate::parser::pattern::{is_one, measure_or, or_empty, or_int, or_text, string_or_empty};
use crate::parser::sections::{blank_or_comment, is_blank_or_comment, texts};
use crate::text::{starts_with, trim, trimmed};
use vstd::prelude::*;
use vstd::string::StringExecFns;

verus! {

// ---------------------------------------------------------------------------
// [Info]
// ---------------------------------------------------------------------------

/// Whether `t` is what an `[Info]` section with the given lines describes:
/// each field holds what the last line that sets it to a value that can be
/// read gives it, or its default.
pub open spec fn is_info_of(t: PieceType<String>, all: Seq<Seq<char>>) -> bool {
    &&& Some(t.id) == last_int(all, "Id"@)
    &&& t.order_no@ == or_empty(last_string(all, "OrderNo"@))
    &&& t.position_no@ == or_empty(last_string(all, "PosNo"@))
    &&& t.customer@ == or_empty(last_string(all, "Customer"@))
    &&& t.commission@ == or_empty(last_string(all, "Commission"@))
    &&& t.second_glass_ref@ == or_empty(last_string(all, "SecondGlassReference"@))
    &&& t.rack_no@ == or_empty(last_string(all, "RackNo"@))
    &&& t.sheet_width@ == or_text(last_measure(all, "SheetWidth"@), "0"@)
    &&& t.sheet_height@ == or_text(last_measure(all, "SheetHeight"@), "0"@)
    &&& t.piece_code == or_int(last_int(all, "SheetCode"@), 0)
    &&& t.waste == is_one(last_int(all, "Waste"@), false)
}

/// Reads an `[Info]` section. A section without an `Id` that can be read
/// describes no piece type.
pub fn parse_info(lines: &[&str]) -> (r: Option<PieceType<String>>)
    ensures
        r is Some <==> last_int(texts(lines@), "Id"@) is Some,
        r matches Some(t) ==> is_info_of(t, texts(lines@)),
{
    let n = lines.len();
    assert(texts(lines@).take(n as int) =~= texts(lines@));
    let id = match find_int(lines, n, "Id") {
        Some(id) => id,
        None => {
            return None;
        },
    };
    let piece_code = match find_int(lines, n, "SheetCode") {
        Some(v) => v,
        None => 0,
    };
    let waste = match find_int(lines, n, "Waste") {
        Some(v) => v == 1,
        None => false,
    };
    Some(
        PieceType {
            id,
            order_no: string_or_empty(find_string(lines, n, "OrderNo")),
            position_no: string_or_empty(find_string(lines, n, "PosNo")),
            customer: string_or_empty(find_string(lines, n, "Customer")),
            commission: string_or_empty(find_string(lines, n, "Commission")),
            second_glass_ref: string_or_empty(find_string(lines, n, "SecondGlassReference")),
            rack_no: string_or_empty(find_string(lines, n, "RackNo")),
            sheet_width: measure_or(find_measure(lines, n, "SheetWidth"), "0"),
            sheet_height: measure_or(find_measure(lines, n, "SheetHeight"), "0"),
            piece_code,
            waste,
        },
    )
}

// ---------------------------------------------------------------------------
// Geometry lines
// ---------------------------------------------------------------------------

/// The content of a cut whose measures are text.
pub struct CutText {
    pub cut_type: CutType,
    pub line_type: LineType,
    pub xi: Seq<char>,
    pub yi: Seq<char>,
    pub xf: Seq<char>,
    pub yf: Seq<char>,
    pub xc: Seq<char>,
    pub yc: Seq<char>,
    pub radius: Seq<char>,
    pub level: i32,
    pub rotation: Seq<char>,
    pub quota: Seq<char>,
    pub length: Seq<char>,
    pub tcut: i32,
    pub rest: Seq<char>,
    pub tool_code: i32,
    pub ablation_width: Seq<char>,
    pub piece_indices: Seq<i32>,
    pub cut_indices: Seq<i32>,
    pub num_pieces: i32,
    pub is_scrap: bool,
    pub parent_shape: i32,
    pub active: bool,
}

/// The content of `cut`.
pub open spec fn cut_text(cut: Cut<String>) -> CutText {
    CutText {
        cut_type: cut.cut_type,
        line_type: cut.line_type,
        xi: cut.xi@,
        yi: cut.yi@,
        xf: cut.xf@,
        yf: cut.yf@,
        xc: cut.xc@,
        yc: cut.yc@,
        radius: cut.radius@,
        level: cut.level,
        rotation: cut.rotation@,
        quota: cut.quota@,
        length: cut.length@,
        tcut: cut.tcut,
        rest: cut.rest@,
        tool_code: cut.tool_code,
        ablation_width: cut.ablation_width@,
        piece_indices: cut.piece_indices@,
        cut_indices: cut.cut_indices@,
        num_pieces: cut.num_pieces,
        is_scrap: cut.is_scrap,
        parent_shape: cut.parent_shape,
        active: cut.active,
    }
}

/// The contents of a list of cuts.
pub open spec fn cut_texts(cuts: Seq<Cut<String>>) -> Seq<CutText> {
    cuts.map_values(|c: Cut<String>| cut_text(c))
}

/// A cut with nothing set but that it is active and belongs to no shape:
/// a line whose measures are all zero.
pub open spec fn blank_cut() -> CutText {
    CutText {
        cut_type: CutType::Line,
        line_type: LineType::Vertical,
        xi: "0"@,
        yi: "0"@,
        xf: "0"@,
        yf: "0"@,
        xc: "0"@,
        yc: "0"@,
        radius: "0"@,
        level: 0i32,
        rotation: "0"@,
        quota: "0"@,
        length: "0"@,
        tcut: 0i32,
        rest: "0"@,
        tool_code: 0i32,
        ablation_width: "0"@,
        piece_indices: Seq::empty(),
        cut_indices: Seq::empty(),
        num_pieces: 0i32,
        is_scrap: false,
        parent_shape: -1i32,
        active: true,
    }
}

/// A cut with nothing set but that it is active and belongs to no shape.
pub fn new_blank_cut() -> (cut: Cut<String>)
    ensures
        cut_text(cut) == blank_cut(),
{
    Cut {
        cut_type: CutType::Line,
        line_type: LineType::Vertical,
        xi: String::from_str("0"),
        yi: String::from_str("0"),
        xf: String::from_str("0"),
        yf: String::from_str("0"),
        xc: String::from_str("0"),
        yc: String::from_str("0"),
        radius: String::from_str("0"),
        level: 0,
        rotation: String::from_str("0"),
        quota: String::from_str("0"),
        length: String::from_str("0"),
        tcut: 0,
        rest: String::from_str("0"),
        tool_code: 0,
        ablation_width: String::from_str("0"),
        piece_indices: Vec::new(),
        cut_indices: Vec::new(),
        num_pieces: 0,
        is_scrap: false,
        parent_shape: -1,
        active: true,
    }
}

/// The segment that a geometry line gives: `x`, `y`, `X` and `Y` are its
/// start and end, and it gives none where one of them is missing or not
/// written as a measure is. `R` makes it a clockwise arc of that radius,
/// `L`, where there is no `R`, a counter-clockwise one. `C` is the tool
/// code, 1 where it is missing or no integer; `LA` the width of coating
/// removal. Of several fields with one key the last counts.
pub open spec fn geometry_of(line: Seq<char>) -> Option<CutText> {
    let fields = multi_values(line);
    let xi = field_measure(fields, "x"@);
    let yi = field_measure(fields, "y"@);
    let xf = field_measure(fields, "X"@);
    let yf = field_measure(fields, "Y"@);
    let clockwise = field_measure(fields, "R"@);
    let counter = field_measure(fields, "L"@);
    if xi is None || yi is None || xf is None || yf is None {
        None
    } else {
        Some(
            CutText {
                cut_type: if clockwise is Some {
                    CutType::ArcCW
                } else if counter is Some {
                    CutType::ArcCCW
                } else {
                    CutType::Line
                },
                xi: xi->0,
                yi: yi->0,
                xf: xf->0,
                yf: yf->0,
                radius: if clockwise is Some {
                    clockwise->0
                } else {
                    or_text(counter, "0"@)
                },
                tool_code: match last_field(fields, "C"@) {
                    Some(v) => or_int(parse_i32_spec(v), 1),
                    None => 1,
                },
                ablation_width: or_text(field_measure(fields, "LA"@), "0"@),
                ..blank_cut()
            },
        )
    }
}

/// Reads a geometry line.
pub fn parse_geometry_line(line: &str) -> (r: Option<Cut<String>>)
    ensures
        match r {
            Some(cut) => geometry_of(line@) == Some(cut_text(cut)),
            None => geometry_of(line@) is None,
        },
{
    let fields = parse_multi_values(line);
    let ghost all = pair_views(fields@);
    assert(all.subrange(0, fields.len() as int) =~= all);
    let xi = find_field_measure(&fields, 0, "x");
    let yi = find_field_measure(&fields, 0, "y");
    let xf = find_field_measure(&fields, 0, "X");
    let yf = find_field_measure(&fields, 0, "Y");
    let clockwise = find_field_measure(&fields, 0, "R");
    let counter = find_field_measure(&fields, 0, "L");
    let tool_code = match find_field(&fields, 0, "C") {
        Some(v) => match parse_i32(v) {
            Some(code) => code,
            None => 1,
        },
        None => 1,
    };
    let ablation_width = measure_or(find_field_measure(&fields, 0, "LA"), "0");
    let mut cut = new_blank_cut();
    match (xi, yi, xf, yf) {
        (Some(xi), Some(yi), Some(xf), Some(yf)) => {
            cut.xi = xi;
            cut.yi = yi;
            cut.xf = xf;
            cut.yf = yf;
        },
        _ => {
            return None;
        },
    }
    match clockwise {
        Some(radius) => {
            cut.cut_type = CutType::ArcCW;
            cut.radius = radius;
        },
        None => match counter {
            Some(radius) => {
                cut.cut_type = CutType::ArcCCW;
                cut.radius = radius;
            },
            None => {},
        },
    }
    cut.tool_code = tool_code;
    cut.ablation_width = ablation_width;
    Some(cut)
}

// ---------------------------------------------------------------------------
// [Shape]
// ---------------------------------------------------------------------------

/// Whether a trimmed line is a geometry line: it begins with `x=` or
/// `X=`.
pub open spec fn is_geometry_line(t: Seq<char>) -> bool {
    "x="@.is_prefix_of(t) || "X="@.is_prefix_of(t)
}

/// The segments that the lines of a `[Shape]` section give, in order.
pub open spec fn shape_cuts(lines: Seq<Seq<char>>) -> Seq<CutText>
    decreases lines.len(),
{
    if lines.len() == 0 {
        Seq::empty()
    } else {
        let t = trimmed(lines.last());
        let before = shape_cuts(lines.drop_last());
        if !is_blank_or_comment(t) && is_geometry_line(t) {
            match geometry_of(t) {
                Some(cut) => before.push(cut),
                None => before,
            }
        } else {
            before
        }
    }
}

/// Whether `s` is what a `[Shape]` section with the given lines describes:
/// its id, name and description, and its segments in order. No tool is
/// marked yet, and whether the contour is open and how long it is are left
/// to be derived.
pub open spec fn is_shape_of(s: Shape<String>, all: Seq<Seq<char>>) -> bool {
    &&& Some(s.id) == last_int(all, "Id"@)
    &&& s.name@ == or_empty(last_string(all, "Name"@))
    &&& s.description@ == or_empty(last_string(all, "Description"@))
    &&& cut_texts(s.cuts@) == shape_cuts(all)
    &&& s.tool_types@ == Seq::new(TOOL_SLOTS as nat, |i: int| false)
    &&& !s.is_open
    &&& s.rotation@ == "0"@
    &&& s.left_border@ == "0"@
    &&& s.perimeter@ == "0"@
}

/// Reads a `[Shape]` section. A section without an `Id` that can be read
/// describes no shape.
pub fn parse_shape(lines: &[&str]) -> (r: Option<Shape<String>>)
    ensures
        r is Some <==> last_int(texts(lines@), "Id"@) is Some,
        r matches Some(s) ==> is_shape_of(s, texts(lines@)),
{
    let n = lines.len();
    let ghost all = texts(lines@);
    assert(all.take(n as int) =~= all);
    let id = match find_int(lines, n, "Id") {
        Some(id) => id,
        None => {
            return None;
        },
    };
    let mut cuts: Vec<Cut<String>> = Vec::new();
    let mut i: usize = 0;
    assert(all.take(0) =~= Seq::empty());
    assert(cut_texts(cuts@) =~= Seq::empty());
    while i < n
        invariant
            i <= n,
            n == lines.len(),
            all == texts(lines@),
            cut_texts(cuts@) == shape_cuts(all.take(i as int)),
        decreases n - i,
    {
        proof {
            assert(all.take(i + 1).drop_last() =~= all.take(i as int));
            assert(all.take(i + 1).last() == lines@[i as int]@);
        }
        let t = trim(lines[i]);
        if !blank_or_comment(t) && (starts_with(t, "x=") || starts_with(t, "X=")) {
            match parse_geometry_line(t) {
                Some(cut) => {
                    let ghost before = cuts@;
                    cuts.push(cut);
                    assert(cut_texts(cuts@) =~= cut_texts(before).push(cut_text(cut)));
                },
                None => {},
            }
        }
        i += 1;
    }
    let tool_types = vec![false; TOOL_SLOTS];
    assert(tool_types@ =~= Seq::new(TOOL_SLOTS as nat, |i: int| false));
    Some(
        Shape {
            id,
            name: string_or_empty(find_string(lines, n, "Name")),
            description: string_or_empty(find_string(lines, n, "Description")),
            rotation: String::from_str("0"),
            left_border: String::from_str("0"),
            cuts,
            tool_types,
            is_open: false,
            perimeter: String::from_str("0"),
        },
    )
}

} // verus!
