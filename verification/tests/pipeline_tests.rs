#![allow(dead_code)]
// The library reads, orders and writes; what computes with measures as
// floating-point numbers stands here, beside the tests that run whole
// conversions through both.

use otd_core::config::{MachineConfig, TOOL_TYPE_SHAPED, Unit};
use otd_core::error::ConvertError;
use otd_core::generator::drawing::{Contour, Drawing, Label, LabelKind, Rect, Segment, generate_dxf_view};
use otd_core::generator::program::{MacroCut, SchemaPlan};
use otd_core::model::convert::{map_cut, map_piece, map_piece_type, map_schema, map_shape};
use otd_core::model::cut::{Cut, CutType, LineType};
use otd_core::model::piece::Piece;
use otd_core::model::schema::Schema;
use otd_core::model::shape::Shape;
use otd_core::parser::document::{Document, PatternSource};
use otd_core::parser::nesting::steps_to;
use otd_core::parser::otd::OtdParser;
use otd_core::parser::pattern::CoordEntry;
use otd_core::parser::strips::{Strip, walk_strips};
use otd_core::transform::linear::get_cut_indices;
use otd_core::transform::shapes::{PieceWalk, check_shape_piece_sizes, detect_shape_tools, entry_cut, first_with_shape};
use otd_core::transform::toolpath::CutWalk;
use otd_core::validation::checks::{PieceFindings, SchemaFindings, ShapeFindings};
use otd_core::validation::validate::ValidationResult;
use std::f64::consts::{FRAC_PI_2, PI};
use std::path::Path;

/// Tolerance of comparisons.
const EPS: f64 = 0.0001;
/// Least distance of a cut from the sheet edge, in millimetres.
const D_MIN_BORDO: f64 = 2.0;
/// Greatest gap between two segments of one continuous run.
const D_MIN_CONT: f64 = 0.0001;
/// Linear advance where the layout gives none, in millimetres.
const DEFAULT_LINEAR_ADVANCE_MM: f64 = 1.0;
/// Least rotation in tangent mode.
const MIN_VAL_C_POSITIVE: f64 = 0.001;
/// Millimetres to the inch.
const CONV_MM_INCH: f64 = 25.4;
/// Millimetres to the tenth-inch unit.
const CONV_MM_TINCH: f64 = 30.303;
/// Tolerance of the rest computation.
const EPS_COARSE: f64 = 0.001;
/// Least angle that breaks a run of shaped cuts.
const DEFAULT_MIN_ANGLE: f64 = 15.0;

// Floating point: the factor is a fraction.
fn to_mm_factor(unit: Unit) -> f64 {
    match unit {
        Unit::Millimeters => 1.0,
        Unit::Inches => CONV_MM_INCH,
        Unit::TenthsOfInch => CONV_MM_TINCH,
    }
}

// Floating point: a comparison within a tolerance.
fn approx_eq(a: f64, b: f64) -> bool {
    (a - b).abs() < EPS
}

// Floating point: a comparison within a tolerance.
fn approx_zero(a: f64) -> bool {
    a.abs() < EPS
}

// Floating point: a comparison within a tolerance.
fn in_range(a: f64, min: f64, max: f64) -> bool {
    a >= min - EPS && a <= max + EPS
}

// Floating point: a remainder of fractions.
fn normalize_degrees(angle: f64) -> f64 {
    let mut a = angle % 360.0;
    if a < 0.0 {
        a += 360.0;
    }
    if a >= 360.0 || a == 0.0 {
        a = 0.0;
    }
    a
}

/// The number that the text of a measure stands for. The library hands on
/// only text that is written as a measure is; anything else counts as
/// zero.
fn number(text: &str) -> f64 {
    text.parse().unwrap_or(0.0)
}

// Floating point: significant digits of a binary fraction. Zero is "0",
// a whole number has no decimal point, anything else has 15 significant
// digits without trailing zeros.
fn format_coord(value: f64) -> String {
    if value == 0.0 {
        return "0".to_string();
    }
    if value.fract() == 0.0 && value.abs() < 1e15 {
        return format!("{}", value as i64);
    }
    let abs_val = value.abs();
    const SIG_DIGITS: i32 = 15;
    let decimal_places = if abs_val >= 1.0 {
        let int_digits = abs_val.log10().floor() as i32 + 1;
        (SIG_DIGITS - int_digits).max(0) as usize
    } else {
        let leading_zeros = (-abs_val.log10().floor()) as i32 - 1;
        (SIG_DIGITS + leading_zeros.max(0)) as usize
    };
    let formatted = format!("{:.prec$}", value, prec = decimal_places);
    let trimmed = formatted.trim_end_matches('0').trim_end_matches('.');
    if trimmed.is_empty() || trimmed == "-" {
        "0".to_string()
    } else {
        trimmed.to_string()
    }
}

// Floating point: rounding to three decimals, halves away from zero.
fn format_drawing(value: f64) -> String {
    let scaled = value * 1000.0;
    let rounded = if scaled >= 0.0 { (scaled + 0.5).floor() } else { (scaled - 0.5).ceil() };
    format!("{:.3}", rounded / 1000.0)
}

// Floating point: the angle of a linear cut is whole by construction; any
// other is written as a coordinate is.
fn format_rotation(angle: f64) -> String {
    if (angle - angle.round()).abs() < 0.0001 {
        format!("{}", angle.round() as i32)
    } else {
        format_coord(angle)
    }
}

// Floating point: tangent mode needs an angle away from zero.
fn format_shape_rotation(angle: f64) -> String {
    if angle.abs() < MIN_VAL_C_POSITIVE {
        format!("{}", MIN_VAL_C_POSITIVE)
    } else {
        format_rotation(angle)
    }
}

/// Geometry of a cut whose measures are numbers.
trait CutGeometry: Sized {
    fn new_line(xi: f64, yi: f64, xf: f64, yf: f64) -> Self;
    fn new_arc_cw(xi: f64, yi: f64, xf: f64, yf: f64, radius: f64) -> Self;
    fn new_arc_ccw(xi: f64, yi: f64, xf: f64, yf: f64, radius: f64) -> Self;
    fn determine_line_type(&mut self);
    fn calculate_arc_center(&mut self);
    fn calculate_length(&self) -> f64;
    fn arc_angle(&self) -> f64;
    fn start_angle_degrees(&self) -> f64;
    fn initial_angle_degrees(&self) -> f64;
    fn final_angle_degrees(&self) -> f64;
}

fn blank(cut_type: CutType, xi: f64, yi: f64, xf: f64, yf: f64, radius: f64) -> Cut<f64> {
    Cut { cut_type, xi, yi, xf, yf, radius, active: true, parent_shape: -1, ..Default::default() }
}

fn to_positive_degrees(radians: f64) -> f64 {
    let degrees = radians.to_degrees();
    if degrees < 0.0 {
        degrees + 360.0
    } else {
        degrees
    }
}

// Floating point throughout: square roots, arc tangents, sines and cosines.
impl CutGeometry for Cut<f64> {
    fn new_line(xi: f64, yi: f64, xf: f64, yf: f64) -> Self {
        let mut cut = blank(CutType::Line, xi, yi, xf, yf, 0.0);
        cut.determine_line_type();
        cut
    }

    fn new_arc_cw(xi: f64, yi: f64, xf: f64, yf: f64, radius: f64) -> Self {
        let mut cut = blank(CutType::ArcCW, xi, yi, xf, yf, radius);
        cut.calculate_arc_center();
        cut
    }

    fn new_arc_ccw(xi: f64, yi: f64, xf: f64, yf: f64, radius: f64) -> Self {
        let mut cut = blank(CutType::ArcCCW, xi, yi, xf, yf, radius);
        cut.calculate_arc_center();
        cut
    }

    fn determine_line_type(&mut self) {
        self.line_type =
            LineType::classify(approx_eq(self.xi, self.xf), approx_eq(self.yi, self.yf));
    }

    fn calculate_arc_center(&mut self) {
        if self.radius <= 0.0 {
            return;
        }
        let dx = self.xf - self.xi;
        let dy = self.yf - self.yi;
        let mut angle = dy.atan2(dx);
        let half_chord = (dx * dx + dy * dy).sqrt() / 2.0;
        // a semicircle: the half chord is the radius, whatever rounding says
        let half_chord =
            if (half_chord - self.radius).abs() < 2.0 * EPS { self.radius } else { half_chord };
        let mx = self.xi + half_chord * angle.cos();
        let my = self.yi + half_chord * angle.sin();
        let h_squared = self.radius * self.radius - half_chord * half_chord;
        let h = if h_squared > 0.0 { h_squared.sqrt() } else { 0.0 };
        angle = match self.cut_type {
            CutType::ArcCW => angle - FRAC_PI_2,
            CutType::ArcCCW => angle + FRAC_PI_2,
            CutType::Line => angle,
        };
        self.xc = mx + h * angle.cos();
        self.yc = my + h * angle.sin();
    }

    fn calculate_length(&self) -> f64 {
        match self.cut_type {
            CutType::Line => {
                let dx = self.xf - self.xi;
                let dy = self.yf - self.yi;
                (dx * dx + dy * dy).sqrt()
            }
            CutType::ArcCW | CutType::ArcCCW => self.radius * self.arc_angle().abs(),
        }
    }

    fn arc_angle(&self) -> f64 {
        if self.cut_type == CutType::Line {
            return 0.0;
        }
        let start_angle = (self.yi - self.yc).atan2(self.xi - self.xc);
        let end_angle = (self.yf - self.yc).atan2(self.xf - self.xc);
        let mut angle = end_angle - start_angle;
        match self.cut_type {
            CutType::ArcCW => {
                if angle > 0.0 {
                    angle -= 2.0 * PI;
                }
            }
            CutType::ArcCCW => {
                if angle < 0.0 {
                    angle += 2.0 * PI;
                }
            }
            CutType::Line => {}
        }
        angle
    }

    fn start_angle_degrees(&self) -> f64 {
        if self.cut_type == CutType::Line {
            (self.yf - self.yi).atan2(self.xf - self.xi).to_degrees()
        } else {
            (self.yi - self.yc).atan2(self.xi - self.xc).to_degrees()
        }
    }

    fn initial_angle_degrees(&self) -> f64 {
        match self.cut_type {
            CutType::Line => to_positive_degrees((self.yf - self.yi).atan2(self.xf - self.xi)),
            CutType::ArcCW => {
                to_positive_degrees((self.yc - self.yi).atan2(self.xc - self.xi) + FRAC_PI_2)
            }
            CutType::ArcCCW => {
                to_positive_degrees((self.yc - self.yi).atan2(self.xc - self.xi) - FRAC_PI_2)
            }
        }
    }

    fn final_angle_degrees(&self) -> f64 {
        match self.cut_type {
            CutType::Line => self.initial_angle_degrees(),
            CutType::ArcCW => {
                to_positive_degrees((self.yc - self.yf).atan2(self.xc - self.xf) + FRAC_PI_2)
            }
            CutType::ArcCCW => {
                to_positive_degrees((self.yc - self.yf).atan2(self.xc - self.xf) - FRAC_PI_2)
            }
        }
    }
}

/// Extent of a piece whose measures are numbers.
trait PieceGeometry {
    fn x_max(&self) -> f64;
    fn y_max(&self) -> f64;
    fn center_x(&self) -> f64;
    fn center_y(&self) -> f64;
}

// Floating point: sums and halves of measures.
impl PieceGeometry for Piece<f64> {
    fn x_max(&self) -> f64 {
        self.x_origin + self.width
    }

    fn y_max(&self) -> f64 {
        self.y_origin + self.height
    }

    fn center_x(&self) -> f64 {
        self.x_origin + self.width / 2.0
    }

    fn center_y(&self) -> f64 {
        self.y_origin + self.height / 2.0
    }
}

/// Geometry of a shape whose measures are numbers.
trait ShapeGeometry {
    fn calculate_perimeter(&mut self);
    fn is_closed(&self) -> bool;
    fn bounding_box(&self) -> (f64, f64, f64, f64);
    fn width(&self) -> f64;
    fn height(&self) -> f64;
    fn calculate_initial_rotation(&self) -> f64;
}

// Floating point: sums of lengths and comparisons within a tolerance.
impl ShapeGeometry for Shape<f64> {
    fn calculate_perimeter(&mut self) {
        self.perimeter = self.cuts.iter().map(|c| c.calculate_length()).sum();
    }

    fn is_closed(&self) -> bool {
        match (self.cuts.first(), self.cuts.last()) {
            (Some(first), Some(last)) => {
                approx_eq(first.xi, last.xf) && approx_eq(first.yi, last.yf)
            }
            _ => false,
        }
    }

    fn bounding_box(&self) -> (f64, f64, f64, f64) {
        if self.cuts.is_empty() {
            return (0.0, 0.0, 0.0, 0.0);
        }
        let mut min_x = f64::MAX;
        let mut min_y = f64::MAX;
        let mut max_x = f64::MIN;
        let mut max_y = f64::MIN;
        for cut in &self.cuts {
            min_x = min_x.min(cut.xi).min(cut.xf);
            min_y = min_y.min(cut.yi).min(cut.yf);
            max_x = max_x.max(cut.xi).max(cut.xf);
            max_y = max_y.max(cut.yi).max(cut.yf);
            if cut.is_arc() {
                min_x = min_x.min(cut.xc - cut.radius);
                min_y = min_y.min(cut.yc - cut.radius);
                max_x = max_x.max(cut.xc + cut.radius);
                max_y = max_y.max(cut.yc + cut.radius);
            }
        }
        (min_x, min_y, max_x, max_y)
    }

    fn width(&self) -> f64 {
        let (min_x, _, max_x, _) = self.bounding_box();
        max_x - min_x
    }

    fn height(&self) -> f64 {
        let (_, min_y, _, max_y) = self.bounding_box();
        max_y - min_y
    }

    fn calculate_initial_rotation(&self) -> f64 {
        self.cuts.first().map(|cut| cut.start_angle_degrees()).unwrap_or(0.0)
    }
}

/// What a schema whose measures are numbers derives from them.
trait SchemaGeometry {
    fn usable_width(&self) -> f64;
    fn usable_height(&self) -> f64;
    fn calculate_piece_edges(&mut self);
}

// Floating point: differences of measures and comparisons within a
// tolerance.
impl SchemaGeometry for Schema<f64> {
    fn usable_width(&self) -> f64 {
        self.width - self.trim_left
    }

    fn usable_height(&self) -> f64 {
        self.height - self.trim_bottom
    }

    fn calculate_piece_edges(&mut self) {
        let (width, height) = (self.width, self.height);
        let (trim_left, trim_bottom) = (self.trim_left, self.trim_bottom);
        for piece in &mut self.pieces {
            let left = approx_eq(piece.x_origin, trim_left) || approx_eq(piece.x_origin, 0.0);
            let bottom = approx_eq(piece.y_origin, trim_bottom) || approx_eq(piece.y_origin, 0.0);
            let right = approx_eq(piece.x_max(), width);
            let top = approx_eq(piece.y_max(), height);
            piece.set_edge_sides(left, bottom, right, top);
        }
    }
}

/// The text of a piece type's nominal size.
fn dimensions_string(width: f64, height: f64) -> String {
    format!("{} x {}", width, height)
}

fn to_number(text: String) -> f64 {
    number(&text)
}

/// Reads the layout in `content`.
fn parse_otd_text(content: String) -> Result<Vec<Schema<f64>>, ConvertError> {
    let parser = OtdParser::new(content);
    let document = parser.parse()?;
    Ok(build_schemas(document))
}

/// The schemas of a document, one for each pattern.
fn build_schemas(document: Document) -> Vec<Schema<f64>> {
    let Document { header, signature, patterns } = document;
    let mut schemas = Vec::with_capacity(patterns.len());
    for pattern in patterns {
        let mut schema = build_schema(pattern);
        schema.otd_version = header.otd_version.clone();
        schema.unit = header.unit;
        schema.date = header.date.clone();
        schema.creator = signature.creator.clone();
        // Floating point: a linear advance that is not positive gives way
        // to one millimetre in the unit of the file.
        if !(schema.linear_advance > 0.0) {
            schema.linear_advance = DEFAULT_LINEAR_ADVANCE_MM / to_mm_factor(schema.unit);
        }
        schemas.push(schema);
    }
    schemas
}

fn build_schema(pattern: PatternSource) -> Schema<f64> {
    let PatternSource { header, coords, piece_types, shapes, cuttings, lowe } = pattern;
    let mut schema: Schema<f64> = Schema::new(number(&header.min_angle), number(&header.coating_min_angle));
    schema.machine_name = header.machine_name;
    schema.machine_number = header.machine_number;
    schema.glass_id = header.glass_id;
    schema.glass_description = header.glass_description;
    schema.thickness = number(&header.thickness);
    schema.glass_structured = header.glass_structured;
    schema.glass_coated = header.glass_coated;
    schema.width = number(&header.width);
    schema.height = number(&header.height);
    schema.trim_left = number(&header.trim_left);
    schema.trim_bottom = number(&header.trim_bottom);
    schema.quantity = header.quantity;
    schema.cutting_order = header.cutting_order;
    schema.linear_advance = number(&header.linear_advance);
    schema.linear_tool = header.linear_tool;
    schema.shaped_tool = header.shaped_tool;
    schema.open_shaped_tool = header.open_shaped_tool;
    schema.incision_tool = header.incision_tool;
    schema.optimize_shape_order = header.optimize_shape_order;

    let (linear_cuts, pieces) = process_coordinates(&coords, &schema);
    schema.linear_cuts = linear_cuts;
    schema.pieces = pieces;

    for kind in piece_types {
        schema.piece_types.push(map_piece_type(kind, &to_number));
    }
    for shape in shapes {
        schema.shapes.push(build_shape(shape));
    }
    for (cuts, pieces) in cuttings {
        let cuts = layout_cuts(cuts);
        let pieces = layout_pieces(pieces);
        if !cuts.is_empty() {
            schema.linear_cuts = cuts;
            schema.linear_cuts_optimized = true;
        }
        if !pieces.is_empty() {
            schema.pieces = pieces;
            schema.optimize_shape_order = false;
        }
    }
    for (cuts, pieces) in lowe {
        schema.lowe_cuts = layout_cuts(cuts);
        schema.lowe_pieces = layout_pieces(pieces);
    }
    schema.resolve_piece_references();
    schema.calculate_piece_edges();
    schema
}

/// A shape with its measures as numbers, its arcs centred, its lines
/// oriented, its perimeter summed and its closure judged.
fn build_shape(shape: Shape<String>) -> Shape<f64> {
    let mut shape = map_shape(shape, &to_number);
    for cut in &mut shape.cuts {
        match cut.cut_type {
            CutType::Line => cut.determine_line_type(),
            CutType::ArcCW | CutType::ArcCCW => cut.calculate_arc_center(),
        }
    }
    shape.calculate_perimeter();
    shape.is_open = !shape.is_closed();
    shape
}

fn layout_cuts(cuts: Vec<Cut<String>>) -> Vec<Cut<f64>> {
    cuts.into_iter()
        .map(|cut| {
            let mut cut = map_cut(cut, &to_number);
            cut.determine_line_type();
            cut
        })
        .collect()
}

// Floating point: a piece counts where width and height are positive.
fn layout_pieces(pieces: Vec<Piece<String>>) -> Vec<Piece<f64>> {
    pieces
        .into_iter()
        .map(|piece| map_piece(piece, &to_number))
        .filter(|piece| piece.width > 0.0 && piece.height > 0.0)
        .collect()
}

// Floating point: the endpoints of a cut are sums of measures. The path to
// each entry, and the strip that the entries on it leave, come from the
// library, which is handed the sum and the difference.
fn process_coordinates(entries: &[CoordEntry], schema: &Schema<f64>) -> (Vec<Cut<f64>>, Vec<Piece<f64>>) {
    let mut cuts = Vec::new();
    let mut pieces = Vec::new();
    if entries.is_empty() {
        return (cuts, pieces);
    }
    let levels: Vec<i32> = entries.iter().map(|e| e.level).collect();
    let values: Vec<f64> = entries.iter().map(|e| number(&e.value)).collect();

    if schema.trim_left > 0.0 {
        let mut cut = Cut::new_line(schema.trim_left, 0.0, schema.trim_left, schema.height);
        cut.line_type = LineType::Vertical;
        cut.level = 0;
        cut.rotation = 90.0;
        cuts.push(cut);
    }
    if schema.trim_bottom > 0.0 {
        let mut cut = Cut::new_line(0.0, schema.trim_bottom, schema.width, schema.trim_bottom);
        cut.line_type = LineType::Horizontal;
        cut.level = 0;
        cut.rotation = 0.0;
        cuts.push(cut);
    }

    let whole = Strip {
        offset_x: 0.0,
        offset_y: 0.0,
        dim_x: schema.width - schema.trim_left,
        dim_y: schema.height - schema.trim_bottom,
        rest_x: -1.0,
        rest_y: -1.0,
    };
    for (i, entry) in entries.iter().enumerate() {
        let (_, steps) = steps_to(&levels, i);
        let strips = walk_strips(&steps, &values, whole, &|a: f64, b: f64| a + b, &|a: f64, b: f64| a - b);
        let Strip { offset_x, offset_y, dim_x, dim_y, rest_x, rest_y } =
            strips.last().copied().unwrap_or(whole);
        let vertical = entry.level % 2 == 0;
        let (xi, yi, xf, yf) = if vertical {
            let x = offset_x + dim_x + schema.trim_left;
            let y1 = offset_y + schema.trim_bottom;
            (x, y1, x, y1 + dim_y)
        } else {
            let x1 = offset_x + schema.trim_left;
            let y = offset_y + dim_y + schema.trim_bottom;
            (x1, y, x1 + dim_x, y)
        };
        let mut cut = Cut::new_line(xi, yi, xf, yf);
        cut.level = entry.level;
        cut.rotation = match &entry.rotation {
            Some(text) => number(text),
            None => {
                if vertical {
                    0.0
                } else {
                    90.0
                }
            }
        };
        cut.quota = values[i];
        cut.tcut = entry.tcut.unwrap_or(-1);
        cut.rest = if vertical { rest_x } else { rest_y };
        cut.line_type = if vertical { LineType::Vertical } else { LineType::Horizontal };
        cuts.push(cut);

        if entry.info_id.is_some() || entry.shape_id.is_some() {
            let mut piece = Piece::new(
                offset_x + schema.trim_left,
                offset_y + schema.trim_bottom,
                dim_x,
                dim_y,
            );
            piece.info_id = entry.info_id;
            piece.shape_id = entry.shape_id;
            pieces.push(piece);
        }
    }
    (cuts, pieces)
}

/// Merges linear cuts that lie on one line and touch or overlap.
fn merge_linear_cuts(schema: &mut Schema<f64>) {
    if schema.linear_cuts.len() < 2 {
        return;
    }
    let vertical = get_cut_indices(&schema.linear_cuts, true);
    merge_overlapping_by_indices(&mut schema.linear_cuts, &vertical, true);
    let horizontal = get_cut_indices(&schema.linear_cuts, false);
    merge_overlapping_by_indices(&mut schema.linear_cuts, &horizontal, false);
}

// Floating point: the cuts are sorted by position and extent, and extents
// are compared within a tolerance.
fn merge_overlapping_by_indices(cuts: &mut [Cut<f64>], indices: &[usize], vertical: bool) {
    if indices.len() < 2 {
        return;
    }
    let mut sorted: Vec<usize> = indices.to_vec();
    sorted.sort_by(|&a, &b| {
        if vertical {
            cuts[a].xi.partial_cmp(&cuts[b].xi).unwrap().then(
                cuts[a].yi.min(cuts[a].yf).partial_cmp(&cuts[b].yi.min(cuts[b].yf)).unwrap(),
            )
        } else {
            cuts[a].yi.partial_cmp(&cuts[b].yi).unwrap().then(
                cuts[a].xi.min(cuts[a].xf).partial_cmp(&cuts[b].xi.min(cuts[b].xf)).unwrap(),
            )
        }
    });
    for i in 0..sorted.len() - 1 {
        let first = sorted[i];
        if !cuts[first].active {
            continue;
        }
        for &second in &sorted[i + 1..] {
            if !cuts[second].active {
                continue;
            }
            let same_line = if vertical {
                approx_eq(cuts[first].xi, cuts[second].xi)
            } else {
                approx_eq(cuts[first].yi, cuts[second].yi)
            };
            if !same_line {
                break;
            }
            let (start1, end1, start2, end2) = if vertical {
                (
                    cuts[first].yi.min(cuts[first].yf),
                    cuts[first].yi.max(cuts[first].yf),
                    cuts[second].yi.min(cuts[second].yf),
                    cuts[second].yi.max(cuts[second].yf),
                )
            } else {
                (
                    cuts[first].xi.min(cuts[first].xf),
                    cuts[first].xi.max(cuts[first].xf),
                    cuts[second].xi.min(cuts[second].xf),
                    cuts[second].xi.max(cuts[second].xf),
                )
            };
            if start2 <= end1 + EPS {
                let new_end = end1.max(end2);
                if vertical {
                    cuts[first].yf = new_end;
                    cuts[first].yi = start1;
                } else {
                    cuts[first].xf = new_end;
                    cuts[first].xi = start1;
                }
                cuts[second].active = false;
            }
        }
    }
}

// Floating point: the border is two millimetres in the unit of the file.
fn remove_edge_cuts(schema: &mut Schema<f64>) {
    let width = schema.width;
    let height = schema.height;
    let border = D_MIN_BORDO / to_mm_factor(schema.unit);
    for cut in &mut schema.linear_cuts {
        if !cut.active {
            continue;
        }
        let at_edge = match cut.line_type {
            LineType::Vertical => cut.xi < border || (width - cut.xi).abs() < border,
            LineType::Horizontal => cut.yi < border || (height - cut.yi).abs() < border,
            LineType::Oblique => false,
        };
        if at_edge {
            cut.active = false;
        }
    }
}

// Floating point: a distance is a square root. It is never negative, so
// its bits are ordered as the distance is, and they are the key by which
// the library compares.
fn distance_key(from: (f64, f64), x: f64, y: f64) -> u64 {
    let dx = from.0 - x;
    let dy = from.1 - y;
    (dx * dx + dy * dy).sqrt().to_bits()
}

/// Orders the active linear cuts along the tool path: from the origin,
/// each time to the nearest cut, which is made backwards where its end is
/// nearer than its start. The library walks; the distances are measured
/// here.
fn optimize_cut_order(schema: &mut Schema<f64>) {
    if schema.linear_cuts.len() < 2 {
        return;
    }
    let mut walk = CutWalk::start(&schema.linear_cuts, (0.0, 0.0));
    if walk.is_done() {
        return;
    }
    while !walk.is_done() {
        let at = walk.position();
        let keys: Vec<(u64, u64)> = walk
            .remaining()
            .iter()
            .map(|&i| {
                let cut = &schema.linear_cuts[i];
                (distance_key(at, cut.xi, cut.yi), distance_key(at, cut.xf, cut.yf))
            })
            .collect();
        walk.advance(&schema.linear_cuts, &keys);
    }
    let cuts = std::mem::take(&mut schema.linear_cuts);
    schema.linear_cuts = walk.arrange(cuts);
}

// Floating point: the cut is shortened along its direction.
fn apply_linear_advance(schema: &mut Schema<f64>, advance: f64) {
    if advance <= 0.0 {
        return;
    }
    for cut in &mut schema.linear_cuts {
        if !cut.active || !cut.is_line() {
            continue;
        }
        let length = cut.calculate_length();
        if length < advance * 2.0 + EPS {
            cut.active = false;
            continue;
        }
        match cut.line_type {
            LineType::Vertical => {
                if cut.yf > cut.yi {
                    cut.yi += advance;
                    cut.yf -= advance;
                } else {
                    cut.yi -= advance;
                    cut.yf += advance;
                }
            }
            LineType::Horizontal => {
                if cut.xf > cut.xi {
                    cut.xi += advance;
                    cut.xf -= advance;
                } else {
                    cut.xi -= advance;
                    cut.xf += advance;
                }
            }
            LineType::Oblique => {
                let dx = cut.xf - cut.xi;
                let dy = cut.yf - cut.yi;
                let len = (dx * dx + dy * dy).sqrt();
                if len > 0.0 {
                    let ux = dx / len;
                    let uy = dy / len;
                    cut.xi += ux * advance;
                    cut.yi += uy * advance;
                    cut.xf -= ux * advance;
                    cut.yf -= uy * advance;
                }
            }
        }
    }
}

/// Merges, trims, orders and shortens the linear cuts, unless the input
/// laid them out itself.
fn process_linear_cuts(schema: &mut Schema<f64>) {
    if schema.linear_cuts_optimized {
        return;
    }
    merge_linear_cuts(schema);
    remove_edge_cuts(schema);
    optimize_cut_order(schema);
    let advance = schema.linear_advance;
    if advance > 0.0 {
        apply_linear_advance(schema, advance);
    }
    schema.linear_cuts_optimized = true;
}

// Floating point: extents are compared within a tolerance.
fn ranges_overlap(a_min: f64, a_max: f64, b_min: f64, b_max: f64) -> bool {
    a_min <= b_max + EPS && b_min <= a_max + EPS
}

// Floating point: positions are compared within a tolerance.
fn segments_overlap(a: &Cut<f64>, b: &Cut<f64>) -> bool {
    if !a.is_line() || !b.is_line() || a.line_type != b.line_type {
        return false;
    }
    match a.line_type {
        LineType::Vertical => {
            approx_eq(a.xi, b.xi)
                && ranges_overlap(a.yi.min(a.yf), a.yi.max(a.yf), b.yi.min(b.yf), b.yi.max(b.yf))
        }
        LineType::Horizontal => {
            approx_eq(a.yi, b.yi)
                && ranges_overlap(a.xi.min(a.xf), a.xi.max(a.xf), b.xi.min(b.xf), b.xi.max(b.xf))
        }
        LineType::Oblique => false,
    }
}

/// Switches off each segment of a shape that lies on an active linear cut.
fn remove_overlapping_shape_segments(schema: &mut Schema<f64>) {
    let linear = &schema.linear_cuts;
    for shape in &mut schema.shapes {
        for cut in &mut shape.cuts {
            if !cut.active || !cut.is_line() {
                continue;
            }
            if linear.iter().any(|other| other.active && segments_overlap(cut, other)) {
                cut.active = false;
            }
        }
    }
}

/// Sets the base rotation of each shape to the angle at which it starts.
fn calculate_shape_rotations(schema: &mut Schema<f64>) {
    for shape in &mut schema.shapes {
        if !shape.cuts.is_empty() {
            shape.rotation = shape.calculate_initial_rotation();
        }
    }
}

/// For each shape, its id and whether it is closed.
fn validate_shape_closure(schema: &Schema<f64>) -> Vec<(i32, bool)> {
    schema.shapes.iter().map(|s| (s.id, s.is_closed())).collect()
}

// Floating point: sizes are compared within a tolerance, as they are and
// turned by a quarter.
fn size_differs(first: (f64, f64), size: (f64, f64)) -> bool {
    let same = approx_eq(first.0, size.0) && approx_eq(first.1, size.1);
    let turned = approx_eq(first.0, size.1) && approx_eq(first.1, size.0);
    !same && !turned
}

/// The shapes that are used on pieces of different sizes.
fn shape_size_mismatches(schema: &Schema<f64>) -> Result<(), Vec<i32>> {
    let differs: Vec<bool> = (0..schema.pieces.len())
        .map(|i| {
            let piece = &schema.pieces[i];
            if piece.shape_id.is_none() {
                return false;
            }
            let first = &schema.pieces[first_with_shape(schema, i)];
            size_differs((first.width, first.height), (piece.width, piece.height))
        })
        .collect();
    check_shape_piece_sizes(schema, &differs)
}

/// Detects the tools of the shapes, sets their rotations and switches off
/// what the linear cuts make already.
fn process_shapes(schema: &mut Schema<f64>) {
    detect_shape_tools(schema);
    calculate_shape_rotations(schema);
    remove_overlapping_shape_segments(schema);
}

fn shown(schema: &Schema<f64>) -> Schema<String> {
    map_schema(schema.clone(), &|x: f64| format!("{}", x))
}

// Floating point: sizes are compared with zero, positions with the sheet
// within a tolerance, radii with half the chord.
fn findings_of(schema: &Schema<f64>) -> SchemaFindings {
    let pieces = schema
        .pieces
        .iter()
        .map(|piece| PieceFindings {
            bad_size: piece.width <= 0.0 || piece.height <= 0.0,
            outside: piece.x_origin < 0.0
                || piece.y_origin < 0.0
                || piece.x_max() > schema.width + EPS
                || piece.y_max() > schema.height + EPS,
        })
        .collect();
    let shapes = schema
        .shapes
        .iter()
        .map(|shape| ShapeFindings {
            closed: shape.is_closed(),
            short_arcs: shape
                .cuts
                .iter()
                .map(|cut| {
                    let chord = ((cut.xf - cut.xi).powi(2) + (cut.yf - cut.yi).powi(2)).sqrt();
                    if cut.radius < chord / 2.0 - EPS {
                        Some(format!("{}", chord))
                    } else {
                        None
                    }
                })
                .collect(),
        })
        .collect();
    SchemaFindings {
        bad_sheet: schema.width <= 0.0 || schema.height <= 0.0,
        no_thickness: schema.thickness <= 0.0,
        pieces,
        shapes,
        mismatched: shape_size_mismatches(schema).err().unwrap_or_default(),
    }
}

/// Validates schema number `schema_num`.
fn validate_schema(schema: &Schema<f64>, schema_num: usize) -> ValidationResult {
    otd_core::validation::checks::validate_schema(&shown(schema), &findings_of(schema), schema_num)
}

/// Validates all schemas.
fn validate_schemas(schemas: &[Schema<f64>]) -> Result<ValidationResult, ConvertError> {
    let texts: Vec<Schema<String>> = schemas.iter().map(shown).collect();
    let found: Vec<SchemaFindings> = schemas.iter().map(findings_of).collect();
    otd_core::validation::checks::validate_schemas(&texts, &found)
}

/// Validates all schemas and makes an error of what is found.
fn quick_validate(schemas: &[Schema<f64>]) -> Result<(), ConvertError> {
    let texts: Vec<Schema<String>> = schemas.iter().map(shown).collect();
    let found: Vec<SchemaFindings> = schemas.iter().map(findings_of).collect();
    otd_core::validation::checks::quick_validate(&texts, &found)
}

// Floating point: extents are compared.
fn validate_piece_layout(schema: &Schema<f64>) -> Vec<(usize, usize)> {
    let mut overlaps = Vec::new();
    for i in 0..schema.pieces.len() {
        for j in i + 1..schema.pieces.len() {
            let a = &schema.pieces[i];
            let b = &schema.pieces[j];
            let x_overlap = a.x_origin < b.x_max() && b.x_origin < a.x_max();
            let y_overlap = a.y_origin < b.y_max() && b.y_origin < a.y_max();
            if x_overlap && y_overlap {
                overlaps.push((i, j));
            }
        }
    }
    overlaps
}

/// Writes the CNI document of `schemas`.
fn generate_cni(
    schemas: &[Schema<f64>],
    input_filename: &str,
    config: &MachineConfig,
) -> Result<String, ConvertError> {
    let plans: Vec<SchemaPlan> = schemas.iter().map(plan_of).collect();
    let views: Vec<(String, String)> =
        schemas.iter().map(|s| (generate_prwb(s), generate_prwc(s))).collect();
    let texts: Vec<Schema<String>> =
        schemas.iter().map(|s| map_schema(s.clone(), &format_coord)).collect();
    let code_name = Path::new(input_filename).file_stem().and_then(|s| s.to_str()).unwrap_or("output");
    otd_core::generator::cni::generate_cni(&texts, &plans, &views, input_filename, code_name, config)
}

// Floating point: areas, shares and distances.
fn plan_of(schema: &Schema<f64>) -> SchemaPlan {
    let total_area = schema.height * schema.width;
    let waste_area = total_area - calculate_piece_area(schema);
    let waste_percent = if total_area > 0.0 { (waste_area / total_area) * 100.0 } else { 0.0 };
    let (rest_x, rest_y) = calculate_rest_dimensions(schema);
    let min_angle = schema.min_angle.max(DEFAULT_MIN_ANGLE);
    SchemaPlan {
        sheet_area: format_coord(total_area / 1_000_000.0),
        waste_area: format_coord(waste_area / 1_000_000.0),
        waste_percent: format_coord(waste_percent),
        rest_x: format_coord(rest_x),
        rest_y: format_coord(rest_y),
        piece_order: order_pieces_nearest_neighbor(schema, TOOL_TYPE_SHAPED as usize),
        macro_cuts: schema.shapes.iter().map(|s| macro_cuts_of(s, D_MIN_CONT, min_angle)).collect(),
    }
}

// Floating point: the area of a piece is a product.
fn calculate_piece_area(schema: &Schema<f64>) -> f64 {
    let mut area = 0.0;
    for piece in &schema.pieces {
        if let Some(info_id) = piece.info_id {
            let waste = schema.find_piece_type(info_id).map(|t| schema.piece_types[t].waste);
            if !waste.unwrap_or(false) {
                area += piece.width * piece.height;
            }
        }
    }
    area
}

// Floating point: extents, lengths and areas are compared within a
// tolerance.
fn calculate_rest_dimensions(schema: &Schema<f64>) -> (f64, f64) {
    let advance = schema.linear_advance;
    if schema.pieces.is_empty() {
        return (schema.width - schema.trim_left, schema.height - schema.trim_bottom);
    }
    let mut trim_left = schema.trim_left;
    let mut min_y = schema.height;
    let mut max_x = 0.0_f64;
    let mut max_y = 0.0_f64;
    for piece in &schema.pieces {
        if piece.x_origin < trim_left {
            trim_left = piece.x_origin;
        }
        if piece.y_origin < min_y {
            min_y = piece.y_origin;
        }
        let right = piece.x_origin + piece.width;
        let top = piece.y_origin + piece.height;
        if right > max_x {
            max_x = right;
        }
        if top > max_y {
            max_y = top;
        }
    }
    let mut rest_at_right = false;
    for cut in &schema.linear_cuts {
        let length = cut.calculate_length();
        if (cut.xi - max_x).abs() < EPS_COARSE
            && length + 2.0 * advance + min_y >= schema.height - EPS_COARSE
        {
            rest_at_right = true;
        }
        if (cut.yi - max_y).abs() < EPS_COARSE
            && length + 2.0 * advance + trim_left >= schema.width - EPS_COARSE
        {
            rest_at_right = false;
        }
    }
    if !rest_at_right {
        return (schema.width - trim_left, schema.height - max_y);
    }
    let dim_x = schema.width - max_x;
    if dim_x <= 0.0 {
        return (0.0, 0.0);
    }
    let dim_y = schema.height - min_y;
    let mut max_cut_x = 0.0_f64;
    for cut in &schema.linear_cuts {
        let length = cut.calculate_length();
        if (cut.xi - cut.xf).abs() < EPS_COARSE
            && length + min_y + 2.0 * advance > schema.height
            && cut.xi < max_x
            && cut.xi > max_cut_x
        {
            max_cut_x = cut.xi;
        }
    }
    let mut max_piece_top = 0.0_f64;
    for piece in &schema.pieces {
        if piece.x_origin >= max_cut_x
            && piece.x_origin + piece.width <= max_x
            && piece.y_origin + piece.height > max_piece_top
        {
            max_piece_top = piece.y_origin + piece.height;
        }
    }
    let second_x = max_x - max_cut_x;
    let second_y = schema.height - max_piece_top;
    if dim_x * dim_y >= second_x * second_y {
        (dim_x, dim_y)
    } else {
        (second_x, second_y)
    }
}

/// The order in which the shaped pieces are visited: from the origin,
/// each time to the piece whose shape is entered nearest, and on from
/// where its first segment ends. The library walks; the distances are
/// measured here.
fn order_pieces_nearest_neighbor(schema: &Schema<f64>, tool_type: usize) -> Vec<usize> {
    // where the shape of each piece is entered and left, for the pieces
    // that have a shape with a segment of the tool
    let gates: Vec<Option<(f64, f64, f64, f64)>> = schema
        .pieces
        .iter()
        .map(|piece| {
            let shape = schema.shapes.get(piece.shape_index?)?;
            let cut = &shape.cuts[entry_cut(shape, tool_type)?];
            Some((
                piece.x_origin + cut.xi,
                piece.y_origin + cut.yi,
                piece.x_origin + cut.xf,
                piece.y_origin + cut.yf,
            ))
        })
        .collect();
    let mut walk = PieceWalk::start(gates.iter().map(|g| g.is_some()).collect());
    if !schema.optimize_shape_order {
        return walk.finish(false);
    }
    let (mut x, mut y) = (0.0_f64, 0.0_f64);
    loop {
        // Floating point: a distance is a square root; its bits are the key.
        let keys: Vec<u64> = gates
            .iter()
            .map(|gate| match gate {
                Some(g) => ((g.0 - x).powi(2) + (g.1 - y).powi(2)).sqrt().to_bits(),
                None => u64::MAX,
            })
            .collect();
        match walk.advance(&keys) {
            Some(next) => {
                if let Some(g) = gates[next] {
                    x = g.2;
                    y = g.3;
                }
            }
            None => break,
        }
    }
    walk.finish(true)
}

// Floating point: the least difference of two angles.
fn angle_min_degrees(angle1: f64, angle2: f64) -> f64 {
    let diff = (angle1 - angle2).abs();
    if diff > 180.0 {
        360.0 - diff
    } else {
        diff
    }
}

// Floating point: a run breaks where the gap is too wide or the corner too
// sharp.
fn breaks_between(before: &Cut<f64>, cut: &Cut<f64>, d_min_cont: f64, min_angle: f64) -> bool {
    let distance = ((cut.xi - before.xf).powi(2) + (cut.yi - before.yf).powi(2)).sqrt();
    let angle = angle_min_degrees(cut.initial_angle_degrees(), before.final_angle_degrees());
    distance > d_min_cont || (distance <= d_min_cont && angle >= min_angle)
}

// Floating point: the length of a run is a sum of lengths.
fn calculate_segment_length(cuts: &[&Cut<f64>], start: usize, d_min_cont: f64, min_angle: f64) -> f64 {
    let mut total = 0.0;
    for i in start..cuts.len() {
        total += cuts[i].calculate_length();
        if i + 1 < cuts.len() && breaks_between(cuts[i], cuts[i + 1], d_min_cont, min_angle) {
            break;
        }
    }
    total
}

/// What continuity says of each segment of a shape.
fn macro_cuts_of(shape: &Shape<f64>, d_min_cont: f64, min_angle: f64) -> Vec<MacroCut> {
    let active: Vec<&Cut<f64>> = shape.cuts.iter().filter(|c| c.active).collect();
    let mut place = 0;
    shape
        .cuts
        .iter()
        .map(|cut| {
            if !cut.active {
                return MacroCut {
                    starts_run: false,
                    rotation: String::new(),
                    run_length: String::new(),
                };
            }
            let starts_run =
                place == 0 || breaks_between(active[place - 1], cut, d_min_cont, min_angle);
            let angle = cut.initial_angle_degrees();
            let rotation = if angle < MIN_VAL_C_POSITIVE { MIN_VAL_C_POSITIVE } else { angle };
            let run_length = calculate_segment_length(&active, place, d_min_cont, min_angle);
            place += 1;
            MacroCut {
                starts_run,
                rotation: format_shape_rotation(rotation),
                run_length: format_coord(run_length),
            }
        })
        .collect()
}

/// How a view shows the sheet.
#[derive(Debug, Clone, Copy)]
enum ViewMode {
    /// As it lies.
    Normal,
    /// Mirrored about the vertical centre line of the sheet.
    Mirrored { sheet_width: f64 },
}

impl ViewMode {
    // Floating point: the mirror image of a coordinate is a difference.
    fn transform_x(&self, x: f64) -> f64 {
        match self {
            ViewMode::Normal => x,
            ViewMode::Mirrored { sheet_width } => sheet_width - x,
        }
    }

    fn is_mirrored(&self) -> bool {
        matches!(self, ViewMode::Mirrored { .. })
    }
}

fn rect(x: f64, y: f64, width: f64, height: f64) -> Rect {
    Rect {
        x1: format_drawing(x),
        y1: format_drawing(y),
        x2: format_drawing(x + width),
        y2: format_drawing(y + height),
    }
}

fn segment(x1: f64, y1: f64, x2: f64, y2: f64) -> Segment {
    Segment {
        x1: format_drawing(x1),
        y1: format_drawing(y1),
        x2: format_drawing(x2),
        y2: format_drawing(y2),
    }
}

fn label(kind: LabelKind, x: f64, y: f64, text: &str) -> Label {
    Label { kind, x: format_drawing(x), y: format_drawing(y), text: text.to_string() }
}

// Floating point: labels stand at fractions of the size of the piece.
fn piece_labels(schema: &Schema<f64>, piece: &Piece<f64>, mode: &ViewMode, labels: &mut Vec<Label>) {
    let kind = piece.piece_type_index.and_then(|t| schema.piece_types.get(t));
    if kind.map(|k| k.waste).unwrap_or(false) {
        return;
    }
    let base_x = match mode {
        ViewMode::Normal => piece.x_origin,
        ViewMode::Mirrored { sheet_width } => sheet_width - piece.x_origin - piece.width,
    };
    let size = format!("{} x {}", format_drawing(piece.width), format_drawing(piece.height));
    labels.push(label(
        LabelKind::Dimensions,
        base_x + piece.width / 2.0,
        piece.y_origin + piece.height * 3.0 / 4.0,
        &size,
    ));
    if let Some(shape_index) = piece.shape_index {
        let name = match schema.shapes.get(shape_index) {
            Some(shape) if mode.is_mirrored() || !shape.name.is_empty() => shape.name.clone(),
            Some(_) => "?".to_string(),
            None if mode.is_mirrored() => String::new(),
            None => "?".to_string(),
        };
        labels.push(label(
            LabelKind::ShapeName,
            base_x + piece.width / 2.0,
            piece.y_origin + piece.height / 2.0,
            &name,
        ));
    }
    if let Some(kind) = kind {
        labels.push(label(
            LabelKind::PieceCode,
            base_x + piece.width * 9.0 / 10.0,
            piece.y_origin + piece.height * 9.0 / 10.0,
            &kind.piece_code.to_string(),
        ));
        if !kind.customer.is_empty() {
            labels.push(label(
                LabelKind::Customer,
                base_x + piece.width * 3.0 / 4.0,
                piece.y_origin + piece.height * 1.0 / 4.0,
                &kind.customer,
            ));
        }
        if !kind.order_no.is_empty() {
            labels.push(label(
                LabelKind::Order,
                base_x + piece.width * 3.0 / 4.0,
                piece.y_origin + piece.height * 1.0 / 8.0,
                &kind.order_no,
            ));
        }
    }
}

// Floating point: contours are moved to the piece, and arcs are drawn by
// their angles.
fn shape_contours(piece: &Piece<f64>, shape: &Shape<f64>, mode: &ViewMode, contours: &mut Vec<Contour>) {
    let ox = piece.x_origin;
    let oy = piece.y_origin;
    for cut in &shape.cuts {
        if !cut.active {
            continue;
        }
        let xi = mode.transform_x(ox + cut.xi);
        let xf = mode.transform_x(ox + cut.xf);
        match cut.cut_type {
            CutType::Line => {
                contours.push(Contour::Line(segment(xi, oy + cut.yi, xf, oy + cut.yf)));
            }
            CutType::ArcCW | CutType::ArcCCW => {
                let cx = mode.transform_x(ox + cut.xc);
                let start = (cut.yi - cut.yc).atan2(xi - cx).to_degrees();
                let end = (cut.yf - cut.yc).atan2(xf - cx).to_degrees();
                // mirroring turns the sense of an arc round
                let swap = (cut.cut_type == CutType::ArcCW) != mode.is_mirrored();
                let (a1, a2) = if swap { (end, start) } else { (start, end) };
                contours.push(Contour::Arc {
                    cx: format_drawing(cx),
                    cy: format_drawing(oy + cut.yc),
                    radius: format_drawing(cut.radius),
                    start: format_drawing(normalize_degrees(a1)),
                    end: format_drawing(normalize_degrees(a2)),
                });
            }
        }
    }
}

// Floating point: where things lie in a view is computed here; the library
// draws them.
fn drawing_of(schema: &Schema<f64>, mode: ViewMode) -> Drawing {
    let mut drawing = Drawing {
        width: format_drawing(0.0 + schema.width),
        height: format_drawing(0.0 + schema.height),
        pieces: Vec::new(),
        cuts: Vec::new(),
        contours: Vec::new(),
        labels: Vec::new(),
    };
    for piece in &schema.pieces {
        if piece.info_id.is_some() {
            let fill_x = if mode.is_mirrored() {
                mode.transform_x(piece.x_origin + piece.width)
            } else {
                piece.x_origin
            };
            drawing.pieces.push(rect(fill_x, piece.y_origin, piece.width, piece.height));
        }
    }
    for cut in &schema.linear_cuts {
        if cut.active {
            drawing.cuts.push(segment(
                mode.transform_x(cut.xi),
                cut.yi,
                mode.transform_x(cut.xf),
                cut.yf,
            ));
        }
    }
    for piece in &schema.pieces {
        if let Some(shape) = piece.shape_index.and_then(|s| schema.shapes.get(s)) {
            shape_contours(piece, shape, &mode, &mut drawing.contours);
        }
    }
    for piece in &schema.pieces {
        if piece.info_id.is_some() {
            piece_labels(schema, piece, &mode, &mut drawing.labels);
        }
    }
    drawing
}

/// The normal view of a schema.
fn generate_prwb(schema: &Schema<f64>) -> String {
    generate_dxf_view(&drawing_of(schema, ViewMode::Normal))
}

/// The mirrored view of a schema.
fn generate_prwc(schema: &Schema<f64>) -> String {
    generate_dxf_view(&drawing_of(schema, ViewMode::Mirrored { sheet_width: schema.width }))
}

// ==================== Layouts ====================

const SIMPLE_LINEAR: &str = "[Header]\r\nOTDCutVersion=3.0\r\nDimension=inch\r\nDate=2024-01-15\r\n\
[Signature]\r\nCreator=Test\r\n[Pattern]\r\nMachineName=Genius\r\nMachineNumber=130\r\nGlassID=FL4\r\n\
GlassThickness=0.15748\r\nWidth=129.5\r\nHeight=95.5\r\nX=60\r\nY=40 Info=1\r\nY=30 Info=2\r\nX=50\r\n\
Y=95.5 Info=3\r\n[Info]\r\nId=1\r\nSheetCode=1\r\nCustomer=ACME\r\nOrderNo=A-1\r\n[Info]\r\nId=2\r\n\
SheetCode=2\r\n[Info]\r\nId=3\r\nSheetCode=1\r\n";

const WITH_SHAPES: &str = "[Header]\nOTDCutVersion=3.0\nDimension=mm\n[Pattern]\nGlassID=FL6\n\
GlassThickness=6\nWidth=3000\nHeight=2000\nX=600\nY=400 Info=1 Shape=1\nY=400 Info=1 Shape=1\nX=800\n\
Y=900 Info=2\n[Info]\nId=1\nSheetCode=11\nCustomer=ACME\n[Info]\nId=2\nSheetCode=12\n[Shape]\nId=1\n\
Name=Arch\nx=10 y=10 X=590 Y=10 C=1\nx=590 y=10 X=590 Y=200 C=1\nx=590 y=200 X=400 Y=390 R=190 C=1\n\
x=400 y=390 X=10 Y=390 C=1\nx=10 y=390 X=10 Y=10 C=1\n";

const MULTI_PIECE: &str = "[Header]\nDimension=mm\n[Pattern]\nWidth=3210\nHeight=2250\nTrimLeft=10\n\
TrimBottom=10\nGlassThickness=4\nX=1000\nY=700 Info=1\nY=700 Info=1\nY=700 Info=2\nX=1000\nY=1000 Info=3\n\
Z=500 Info=4\nZ=400 Info=4\nY=1000 Info=3\nX=1100\nY=2000 Info=5\n[Info]\nId=1\nSheetCode=1\n[Info]\nId=2\n\
SheetCode=2\n[Info]\nId=3\nSheetCode=3\n[Info]\nId=4\nSheetCode=4\nWaste=1\n[Info]\nId=5\nSheetCode=5\n\
[Pattern]\nWidth=1000\nHeight=800\nGlassThickness=4\nX=500 Info=1\n[Info]\nId=1\nSheetCode=9\n";

const EMPTY_SHAPES: &str = "[Header]\nDimension=mm\n[Pattern]\nWidth=2000\nHeight=1000\nGlassThickness=5\n\
X=500\nY=400 Info=1 Shape=3\n[Info]\nId=1\nSheetCode=1\n[Shape]\nId=3\nName=Nothing\n";

const COMPLEX_SHAPES: &str = "[Header]\nDimension=mm\n[Pattern]\nWidth=3000\nHeight=2000\nGlassThickness=8\n\
MinAngle=20\nX=500\nY=500 Info=1 Shape=1\nY=500 Info=2 Shape=2\nX=700\nY=700 Info=3 Shape=3\n[Info]\nId=1\n\
SheetCode=1\n[Info]\nId=2\nSheetCode=2\n[Info]\nId=3\nSheetCode=3\n[Shape]\nId=1\nName=Disc\n\
x=50 y=250 X=450 Y=250 L=200 C=1\nx=450 y=250 X=50 Y=250 L=200 C=1\n[Shape]\nId=2\nName=Gaps\n\
x=20 y=20 X=480 Y=20 C=1\nx=480 y=20 X=480 Y=480 C=1\nx=400 y=400 X=100 Y=400 C=1\n\
x=100 y=400 X=100 Y=100 R=150 C=1\nx=100 y=100 X=20 Y=20 C=2\n[Shape]\nId=3\nName=Wave\n\
x=50 y=50 X=350 Y=50 R=200 C=1\nx=350 y=50 X=650 Y=50 L=200 C=1\nx=650 y=50 X=650 Y=650 C=1\n\
x=650 y=650 X=50 Y=650 C=1\nx=50 y=650 X=50 Y=50 C=1\n";

fn large_layout() -> String {
    let mut text = String::from(
        "[Header]\nDimension=mm\n[Pattern]\nWidth=6000\nHeight=3210\nGlassThickness=4\n",
    );
    for column in 0..10 {
        text.push_str("X=500\n");
        for row in 0..6 {
            text.push_str(&format!("Y=500 Info={}\n", 1 + (column + row) % 4));
        }
    }
    for id in 1..=4 {
        text.push_str(&format!("[Info]\nId={}\nSheetCode={}\nCustomer=C{}\n", id, id, id));
    }
    text
}

fn layouts() -> Vec<(&'static str, String)> {
    vec![
        ("simple_linear.otd", SIMPLE_LINEAR.to_string()),
        ("with_shapes.otd", WITH_SHAPES.to_string()),
        ("multi_piece.otd", MULTI_PIECE.to_string()),
        ("empty_shapes.otd", EMPTY_SHAPES.to_string()),
        ("complex_shapes.otd", COMPLEX_SHAPES.to_string()),
        ("large_layout.otd", large_layout()),
    ]
}

fn layout(name: &str) -> String {
    layouts().into_iter().find(|l| l.0 == name).expect("a layout of that name").1
}

/// The whole conversion, from the text of a layout to the document.
fn convert_otd_to_cni(name: &str, machine_number: u16) -> Result<String, ConvertError> {
    let mut schemas = parse_otd_text(layout(name))?;
    for schema in &mut schemas {
        process_linear_cuts(schema);
        process_shapes(schema);
    }
    validate_schemas(&schemas)?;
    generate_cni(&schemas, name, &MachineConfig::new(machine_number))
}

fn convert_to_cni(name: &str, machine_number: u16) -> String {
    match convert_otd_to_cni(name, machine_number) {
        Ok(text) => text,
        Err(e) => panic!("Failed to convert OTD to CNI: {}", e.message()),
    }
}

fn parse_and_validate(name: &str) -> Vec<Schema<f64>> {
    let schemas = parse_otd_text(layout(name)).ok().expect("Failed to parse OTD file");
    let validation = validate_schemas(&schemas).ok().expect("Validation error");
    assert!(validation.passed, "Validation failed: {:?}", validation.errors);
    schemas
}

fn section<'a>(document: &'a str, name: &str) -> Vec<&'a str> {
    let header = format!("[{}]", name);
    document
        .lines()
        .skip_while(|l| *l != header)
        .skip(1)
        .take_while(|l| !(l.starts_with('[') && l.ends_with(']')))
        .collect()
}

fn count_sections(document: &str, part: &str) -> usize {
    document.lines().filter(|l| l.starts_with('[') && l.ends_with(']') && l.contains(part)).count()
}

// ==================== Whole conversions ====================

#[test]
fn test_simple_linear_conversion() {
    let schemas = parse_and_validate("simple_linear.otd");
    assert_eq!(schemas.len(), 1, "Expected 1 schema/pattern");
    assert!(schemas[0].shapes.is_empty(), "Expected no shapes");
    let generated = convert_to_cni("simple_linear.otd", 130);
    assert_eq!(count_sections(&generated, "COMMENTO"), 1);
    assert_eq!(count_sections(&generated, "CENTRO"), 1);
    assert_eq!(count_sections(&generated, "LDIST"), schemas.len());
}

#[test]
fn test_with_shapes_conversion() {
    let schemas = parse_and_validate("with_shapes.otd");
    assert_eq!(schemas.len(), 1, "Expected 1 schema/pattern");
    assert!(!schemas[0].shapes.is_empty(), "Expected shapes to be present");
    let has_arcs = schemas[0].shapes.iter().any(|s| s.cuts.iter().any(|c| c.is_arc()));
    assert!(has_arcs, "Expected at least one arc in shapes");
    let generated = convert_to_cni("with_shapes.otd", 130);
    assert!(generated.contains("JM("));
    assert_eq!(count_sections(&generated, "LDIST"), 1);
}

#[test]
fn test_multi_piece_conversion() {
    let schemas = parse_and_validate("multi_piece.otd");
    assert!(!schemas.is_empty(), "Expected at least 1 schema");
    let generated = convert_to_cni("multi_piece.otd", 130);
    assert_eq!(count_sections(&generated, "LDIST"), schemas.len());
    assert_eq!(count_sections(&generated, "PRWB"), schemas.len());
    assert_eq!(count_sections(&generated, "PRWC"), schemas.len());
    assert_eq!(count_sections(&generated, "CENTRO"), 1);
}

#[test]
fn test_empty_shapes_conversion() {
    let schemas = parse_and_validate("empty_shapes.otd");
    assert!(!schemas.is_empty(), "Expected at least 1 schema");
    let empty: usize = schemas.iter().flat_map(|s| &s.shapes).filter(|s| s.cuts.is_empty()).count();
    assert_eq!(empty, 1);
    let generated = convert_to_cni("empty_shapes.otd", 130);
    assert!(generated.contains("L=PFOXOUT"));
    // a shape without segments uses no tool: no macro is written
    assert!(!generated.contains("macro delle icone"));
}

#[test]
fn test_complex_shapes_conversion() {
    let schemas = parse_and_validate("complex_shapes.otd");
    assert!(!schemas.is_empty(), "Expected at least 1 schema");
    let generated = convert_to_cni("complex_shapes.otd", 130);
    assert!(generated.contains("G02") && generated.contains("G03"));
    assert!(generated.contains("L=PSETSAG"));
    assert!(generated.contains(":1010001001") && generated.contains(":1010001003"));
    assert!(generated.contains(":1010001005"));
}

#[test]
fn test_large_layout_conversion() {
    let schemas = parse_and_validate("large_layout.otd");
    assert!(!schemas.is_empty(), "Expected at least 1 schema");
    let total_pieces: usize = schemas.iter().map(|s| s.pieces.len()).sum();
    assert_eq!(total_pieces, 60);
    let generated = convert_to_cni("large_layout.otd", 130);
    assert!(generated.lines().count() > 1000);
}

#[test]
fn test_output_structure() {
    let generated = convert_to_cni("with_shapes.otd", 130);
    for name in [
        "COMMENTO", "CENTRO", "PARAMETRI", "UTENSILI", "LAVORAZIONI", "CONTORNATURA", "LDIST",
        "PRWB", "PRWC",
    ] {
        assert!(count_sections(&generated, name) > 0, "Missing {} section", name);
    }
}

#[test]
fn test_gcode_structure() {
    let generated = convert_to_cni("simple_linear.otd", 130);

    // Check for program structure
    assert!(generated.contains("L=PRGINIT"), "Missing PRGINIT call");
    assert!(generated.contains("L=PFOXOUT"), "Missing PFOXOUT call");
    assert!(generated.contains(":999999999"), "Missing end label");
    assert!(generated.contains("L=PT_SU"), "Missing PT_SU (tool up)");
    assert!(generated.contains("L=PT_GIU"), "Missing PT_GIU (tool down)");
    assert!(generated.contains("L=PTOOL"), "Missing PTOOL (load tool)");

    // Check for movement commands
    assert!(generated.contains("G00"), "Missing rapid move G00");
    assert!(generated.contains("G01"), "Missing linear move G01");
}

#[test]
fn test_dxf_structure() {
    let generated = convert_to_cni("with_shapes.otd", 130);

    // Check for DXF structure
    assert!(generated.contains("SECTION"), "Missing DXF SECTION");
    assert!(generated.contains("HEADER"), "Missing DXF HEADER");
    assert!(generated.contains("ENTITIES"), "Missing DXF ENTITIES");
    assert!(generated.contains("ENDSEC"), "Missing DXF ENDSEC");
    assert!(generated.contains("EOF"), "Missing DXF EOF");

    // Check for layers
    assert!(generated.contains("EST"), "Missing EST layer");
    assert!(generated.contains("Tagli"), "Missing Tagli layer");
}

#[test]
fn test_dxf_arc_handling() {
    let generated = convert_to_cni("with_shapes.otd", 130);

    // For shapes with arcs, DXF should have ARC entities
    assert!(
        generated.contains("ARC") || generated.contains("LINE"),
        "DXF should have ARC or LINE entities for shapes"
    );
    assert!(generated.contains("\nARC\n8\nTagliSag\n"));
}

#[test]
fn test_all_fixtures_parse() {
    for (name, text) in layouts() {
        let result = parse_otd_text(text);
        assert!(result.is_ok(), "Failed to parse {}", name);
        assert!(!result.ok().expect("schemas").is_empty(), "No schemas in {}", name);
    }
}

#[test]
fn test_all_fixtures_convert() {
    for (name, _) in layouts() {
        let result = convert_otd_to_cni(name, 130);
        assert!(result.is_ok(), "Failed to convert {}", name);

        let output = result.ok().expect("a document");
        assert!(!output.is_empty(), "Empty output for {}", name);
        assert!(output.len() > 1000, "Output too small for {}: {} bytes", name, output.len());
    }
}

#[test]
fn test_different_machine_numbers() {
    for machine_num in [100, 130, 200, 999] {
        let result = convert_otd_to_cni("simple_linear.otd", machine_num);
        assert!(result.is_ok(), "Failed with machine number {}", machine_num);

        let output = result.ok().expect("a document");
        // Machine number should appear in the output
        let machine_str = format!("{:03}", machine_num);
        assert!(
            output.contains(&machine_str),
            "Machine number {} not found in output",
            machine_num
        );
        assert!(output.contains(&format!(" P103={}\n", machine_num)));
    }
}

#[test]
fn test_minimal_otd() {
    let schemas = parse_and_validate("simple_linear.otd");
    assert!(!schemas.is_empty(), "Expected at least one schema");
    assert!(!schemas[0].pieces.is_empty(), "Expected at least one piece");
    let output = convert_to_cni("simple_linear.otd", 130);
    for name in ["COMMENTO", "CENTRO", "PARAMETRI", "CONTORNATURA"] {
        assert!(count_sections(&output, name) > 0);
    }
}

#[test]
fn a_layout_of_linear_cuts_converts_to_a_whole_document() {
    let document = convert_to_cni("simple_linear.otd", 130);
    assert_eq!(count_sections(&document, "COMMENTO"), 1);
    assert_eq!(document.matches("[CENTRO01]").count(), 1);
    let parameters = section(&document, "PARAMETRI01");
    assert_eq!(parameters, vec!["N10 G70 LX=129.5 LY=95.5 LZ=0.15748 P103=130", "%", ""]);
    assert_eq!(section(&document, "UTENSILI01"), vec!["0003", "%", ""]);
    assert_eq!(section(&document, "LAVORAZIONI01"), vec!["%", ""]);
    let program = section(&document, "CONTORNATURA01").join("\n");
    for part in ["L=PRGINIT", "L=PFOXOUT", ":999999999", "L=PT_SU", "L=PT_GIU", "L=PTOOL"] {
        assert!(program.contains(part), "{}", part);
    }
    assert_eq!(document.matches("[*LDIST0001_01]").count(), 1);
    assert_eq!(document.matches("[*PRWB0001_01]").count(), 1);
    assert_eq!(document.matches("[*PRWC0001_01]").count(), 1);
    assert!(document.starts_with("[COMMENTO]\n; Project: simple_linear.otd\n; Material : FL4\n"));
    let list = section(&document, "*LDIST0001_01");
    assert_eq!(list[0], ";Cod=simple_linear1");
    assert_eq!(list[1], ";DimX=129.5");
    assert!(list.contains(&";CodPz=1") && list.contains(&";CodPz=2"));
    assert_eq!(list.iter().filter(|l| l.starts_with(";CodPz=")).count(), 2);
    // two pieces have code 1
    assert!(list.contains(&";QtaPz=2") && list.contains(&";QtaPz=1"));
    // numbered lines count up in tens from 20
    let numbers: Vec<u32> = section(&document, "CONTORNATURA01")
        .iter()
        .filter(|l| l.starts_with('N'))
        .map(|l| l[1..].split(' ').next().and_then(|n| n.parse().ok()).expect("a number"))
        .collect();
    assert_eq!(numbers[0], 20);
    assert!(numbers.windows(2).all(|w| w[1] == w[0] + 10));
}

#[test]
fn nested_coordinates_give_cuts_and_pieces() {
    let schemas = parse_otd_text(SIMPLE_LINEAR.to_string()).ok().expect("schemas");
    let schema = &schemas[0];
    let cuts: Vec<(f64, f64, f64, f64)> =
        schema.linear_cuts.iter().map(|c| (c.xi, c.yi, c.xf, c.yf)).collect();
    assert_eq!(cuts, vec![
        (60.0, 0.0, 60.0, 95.5),
        (0.0, 40.0, 60.0, 40.0),
        (0.0, 70.0, 60.0, 70.0),
        (110.0, 0.0, 110.0, 95.5),
        (60.0, 95.5, 110.0, 95.5),
    ]);
    let pieces: Vec<(f64, f64, f64, f64)> =
        schema.pieces.iter().map(|p| (p.x_origin, p.y_origin, p.width, p.height)).collect();
    assert_eq!(pieces, vec![
        (0.0, 0.0, 60.0, 40.0),
        (0.0, 40.0, 60.0, 30.0),
        (60.0, 0.0, 50.0, 95.5),
    ]);
    assert_eq!(schema.pieces[0].piece_type_index, Some(0));
    assert_eq!(schema.pieces[2].piece_type_index, Some(2));
    assert!(schema.pieces[0].touches_left() && schema.pieces[0].touches_bottom());
    assert!(schema.pieces[2].touches_top() && !schema.pieces[2].touches_right());
    assert!((schema.linear_advance - 1.0 / 25.4).abs() < 1e-12);
    assert_eq!(schema.linear_cuts[2].rest, 25.5);
    let deep = parse_otd_text(MULTI_PIECE.to_string()).ok().expect("schemas");
    let pieces: Vec<(f64, f64, f64, f64)> =
        deep[0].pieces.iter().map(|p| (p.x_origin, p.y_origin, p.width, p.height)).collect();
    assert_eq!(pieces[3], (1010.0, 10.0, 1000.0, 1000.0));
    assert_eq!(pieces[4], (1010.0, 10.0, 500.0, 1000.0));
    assert_eq!(pieces[5], (1510.0, 10.0, 400.0, 1000.0));
    assert_eq!(pieces[6], (1010.0, 1010.0, 1000.0, 1000.0));
    assert_eq!(pieces[7], (2010.0, 10.0, 1100.0, 2000.0));
}

#[test]
fn the_tool_path_starts_at_the_origin_and_visits_each_cut_once() {
    let mut schemas = parse_otd_text(MULTI_PIECE.to_string()).ok().expect("schemas");
    let schema = &mut schemas[0];
    merge_linear_cuts(schema);
    remove_edge_cuts(schema);
    let mut before: Vec<(f64, f64, f64, f64)> = schema
        .linear_cuts
        .iter()
        .filter(|c| c.active)
        .map(|c| (c.xi.min(c.xf), c.yi.min(c.yf), c.xi.max(c.xf), c.yi.max(c.yf)))
        .collect();
    let total = schema.linear_cuts.len();
    optimize_cut_order(schema);
    assert_eq!(schema.linear_cuts.len(), total);
    let active = before.len();
    assert!(schema.linear_cuts[..active].iter().all(|c| c.active));
    assert!(schema.linear_cuts[active..].iter().all(|c| !c.active));
    let mut after: Vec<(f64, f64, f64, f64)> = schema.linear_cuts[..active]
        .iter()
        .map(|c| (c.xi.min(c.xf), c.yi.min(c.yf), c.xi.max(c.xf), c.yi.max(c.yf)))
        .collect();
    before.sort_by(|a, b| a.partial_cmp(b).expect("numbers"));
    after.sort_by(|a, b| a.partial_cmp(b).expect("numbers"));
    assert_eq!(before, after);
    // the first cut is the one with an end nearest to the origin
    let first = &schema.linear_cuts[0];
    let nearest = before
        .iter()
        .map(|c| (c.0.hypot(c.1)).min(c.2.hypot(c.3)))
        .fold(f64::MAX, f64::min);
    assert!((first.xi.hypot(first.yi) - nearest).abs() < 1e-9);
}

// ==================== Measures ====================

#[test]
fn test_format_coord() {
    assert_eq!(format_coord(0.0), "0");
    assert_eq!(format_coord(1.0), "1");
    assert_eq!(format_coord(1.5), "1.5");
    assert_eq!(format_coord(1.500000), "1.5");
    assert_eq!(format_coord(129.5), "129.5");
    assert_eq!(format_coord(129.0), "129");
    assert_eq!(format_coord(0.125984), "0.125984");
    assert_eq!(format_coord(90.0), "90");
    assert_eq!(format_coord(1.0 / 25.4), "0.0393700787401575");
    assert_eq!(format_coord(129.5 - 1.0 / 25.4), "129.46062992126");
    assert_eq!(format_coord(49.6875 - 1.0 / 25.4), "49.6481299212598");
    assert_eq!(format_coord(0.5 / 25.4), "0.0196850393700787");
}

#[test]
fn drawings_round_to_three_decimals() {
    assert_eq!(format_drawing(0.0), "0.000");
    assert_eq!(format_drawing(1.0005), "1.001");
    assert_eq!(format_drawing(-1.0005), "-1.001");
    assert_eq!(format_drawing(129.5), "129.500");
    assert_eq!(format_shape_rotation(0.0), "0.001");
    assert_eq!(format_shape_rotation(90.0), "90");
    assert_eq!(format_shape_rotation(45.5), "45.5");
}

const TOLERANCE: f64 = 0.001;

fn near(a: f64, b: f64) -> bool {
    (a - b).abs() < TOLERANCE
}

#[test]
fn test_new_line_horizontal() {
    let cut = Cut::new_line(0.0, 50.0, 100.0, 50.0);
    assert_eq!(cut.cut_type, CutType::Line);
    assert_eq!(cut.line_type, LineType::Horizontal);
    assert!(cut.active);
}

#[test]
fn test_new_line_vertical() {
    let cut = Cut::new_line(50.0, 0.0, 50.0, 100.0);
    assert_eq!(cut.cut_type, CutType::Line);
    assert_eq!(cut.line_type, LineType::Vertical);
}

#[test]
fn test_new_line_oblique() {
    let cut = Cut::new_line(0.0, 0.0, 100.0, 100.0);
    assert_eq!(cut.cut_type, CutType::Line);
    assert_eq!(cut.line_type, LineType::Oblique);
}

#[test]
fn test_new_arc_cw() {
    let cut = Cut::new_arc_cw(0.0, 0.0, 100.0, 0.0, 50.0);
    assert_eq!(cut.cut_type, CutType::ArcCW);
    assert!(near(cut.radius, 50.0));
    assert!(near(cut.xc, 50.0));
}

#[test]
fn test_new_arc_ccw() {
    let cut = Cut::new_arc_ccw(0.0, 0.0, 100.0, 0.0, 50.0);
    assert_eq!(cut.cut_type, CutType::ArcCCW);
    assert!(near(cut.radius, 50.0));
    assert!(near(cut.xc, 50.0));
}

#[test]
fn test_calculate_arc_center_semicircle_cw() {
    let cut = Cut::new_arc_cw(0.0, 0.0, 100.0, 0.0, 50.0);
    assert!(near(cut.xc, 50.0));
    assert!(near(cut.yc, 0.0));
}

#[test]
fn test_calculate_arc_center_semicircle_ccw() {
    let cut = Cut::new_arc_ccw(0.0, 0.0, 100.0, 0.0, 50.0);
    assert!(near(cut.xc, 50.0));
    assert!(near(cut.yc, 0.0));
}

#[test]
fn test_calculate_arc_center_quarter_circle() {
    let cut = Cut::new_arc_ccw(100.0, 0.0, 0.0, 100.0, 100.0);
    assert!(near(cut.xc, 0.0));
    assert!(near(cut.yc, 0.0));
}

#[test]
fn test_calculate_length_line() {
    let cut = Cut::new_line(0.0, 0.0, 3.0, 4.0);
    assert!(near(cut.calculate_length(), 5.0));
}

#[test]
fn test_calculate_length_horizontal_line() {
    let cut = Cut::new_line(0.0, 0.0, 100.0, 0.0);
    assert!(near(cut.calculate_length(), 100.0));
}

#[test]
fn test_calculate_length_semicircle() {
    let cut = Cut::new_arc_cw(0.0, 0.0, 100.0, 0.0, 50.0);
    assert!((cut.calculate_length() - PI * 50.0).abs() < 0.1);
    let cut = Cut::new_arc_ccw(0.0, 0.0, 100.0, 0.0, 50.0);
    assert!((cut.calculate_length() - PI * 50.0).abs() < 0.1);
}

#[test]
fn test_arc_angle_line() {
    let cut = Cut::new_line(0.0, 0.0, 100.0, 0.0);
    assert!(near(cut.arc_angle(), 0.0));
}

#[test]
fn test_arc_angle_semicircle_cw() {
    let cut = Cut::new_arc_cw(0.0, 0.0, 100.0, 0.0, 50.0);
    assert!((cut.arc_angle() + PI).abs() < 0.1);
}

#[test]
fn test_arc_angle_semicircle_ccw() {
    let cut = Cut::new_arc_ccw(0.0, 0.0, 100.0, 0.0, 50.0);
    assert!((cut.arc_angle() - PI).abs() < 0.1);
}

#[test]
fn test_initial_angle_degrees_horizontal_line_right() {
    let cut = Cut::new_line(0.0, 0.0, 100.0, 0.0);
    assert!(near(cut.initial_angle_degrees(), 0.0));
}

#[test]
fn test_initial_angle_degrees_horizontal_line_left() {
    let cut = Cut::new_line(100.0, 0.0, 0.0, 0.0);
    assert!(near(cut.initial_angle_degrees(), 180.0));
}

#[test]
fn test_initial_angle_degrees_vertical_line_up() {
    let cut = Cut::new_line(0.0, 0.0, 0.0, 100.0);
    assert!(near(cut.initial_angle_degrees(), 90.0));
}

#[test]
fn test_initial_angle_degrees_vertical_line_down() {
    let cut = Cut::new_line(0.0, 100.0, 0.0, 0.0);
    assert!(near(cut.initial_angle_degrees(), 270.0));
}

#[test]
fn test_initial_angle_degrees_diagonal_45() {
    let cut = Cut::new_line(0.0, 0.0, 100.0, 100.0);
    assert!(near(cut.initial_angle_degrees(), 45.0));
}

#[test]
fn test_final_angle_degrees_line_same_as_initial() {
    let cut = Cut::new_line(0.0, 0.0, 100.0, 50.0);
    assert!(near(cut.initial_angle_degrees(), cut.final_angle_degrees()));
}

// ==================== Validation ====================

fn create_basic_schema() -> Schema<f64> {
    Schema { width: 1000.0, height: 500.0, thickness: 4.0, ..Default::default() }
}

#[test]
fn test_validate_schemas_empty() {
    let schemas: Vec<Schema<f64>> = vec![];
    let result = validate_schemas(&schemas);
    assert!(result.is_err());
    match result.unwrap_err() {
        ConvertError::NoPatternSection => {}
        _ => panic!("Expected NoPatternSection error"),
    }
}

#[test]
fn test_validate_schemas_valid() {
    let schema = create_basic_schema();
    let result = validate_schemas(&[schema]).ok().expect("Should succeed");
    assert!(result.passed);
}

#[test]
fn test_validate_schema_invalid_dimensions() {
    let mut schema = create_basic_schema();
    schema.width = 0.0;
    let result = validate_schema(&schema, 1);
    assert!(!result.passed);
    assert!(result.errors.iter().any(|e| e.contains("Invalid sheet dimensions")));
    assert_eq!(result.errors, vec!["Schema 1: Invalid sheet dimensions (0x500)".to_string()]);
}

#[test]
fn test_validate_schema_zero_thickness_warning() {
    let mut schema = create_basic_schema();
    schema.thickness = 0.0;
    let result = validate_schema(&schema, 1);
    assert!(result.passed); // Zero thickness is only a warning
    assert!(result.warnings.iter().any(|w| w.contains("thickness")));
}

#[test]
fn test_validate_schema_piece_invalid_dimensions() {
    let mut schema = create_basic_schema();
    schema.pieces.push(Piece { width: -100.0, height: 50.0, ..Default::default() });
    let result = validate_schema(&schema, 1);
    assert!(!result.passed);
    assert!(result.errors.iter().any(|e| e.contains("Invalid dimensions")));
    assert_eq!(result.errors, vec!["Schema 1, Piece 1: Invalid dimensions (-100x50)".to_string()]);
}

#[test]
fn test_validate_schema_piece_out_of_bounds() {
    let mut schema = create_basic_schema();
    schema.pieces.push(Piece {
        x_origin: 900.0,
        y_origin: 0.0,
        width: 200.0, // Extends to 1100, beyond 1000
        height: 100.0,
        ..Default::default()
    });
    let result = validate_schema(&schema, 1);
    assert!(result.passed); // Out of bounds is just a warning
    assert!(result.warnings.iter().any(|w| w.contains("beyond sheet bounds")));
}

#[test]
fn test_validate_schema_shape_not_found() {
    let mut schema = create_basic_schema();
    schema.pieces.push(Piece {
        x_origin: 0.0,
        y_origin: 0.0,
        width: 100.0,
        height: 100.0,
        shape_id: Some(999), // Non-existent shape
        ..Default::default()
    });
    let result = validate_schema(&schema, 1);
    assert!(!result.passed);
    assert!(result.errors.iter().any(|e| e.contains("Shape 999 not found")));
}

#[test]
fn test_validate_schema_info_not_found() {
    let mut schema = create_basic_schema();
    schema.pieces.push(Piece {
        x_origin: 0.0,
        y_origin: 0.0,
        width: 100.0,
        height: 100.0,
        info_id: Some(999), // Non-existent info
        ..Default::default()
    });
    let result = validate_schema(&schema, 1);
    assert!(!result.passed);
    assert!(result.errors.iter().any(|e| e.contains("Info 999 not found")));
}

#[test]
fn test_validate_schema_empty_shape_warning() {
    let mut schema = create_basic_schema();
    schema.shapes.push(Shape { id: 1, cuts: vec![], ..Default::default() });
    let result = validate_schema(&schema, 1);
    assert!(result.passed); // Empty shape is just a warning
    assert!(result.warnings.iter().any(|w| w.contains("No cuts defined")));
}

#[test]
fn test_validate_schema_arc_radius_too_small() {
    let mut schema = create_basic_schema();
    let mut shape: Shape<f64> = Shape::new(1);
    // Arc with endpoints at (0,0) to (100, 0) but radius only 10
    // Chord length is 100, so minimum radius is 50
    let mut cut = Cut {
        cut_type: CutType::ArcCW,
        xi: 0.0,
        yi: 0.0,
        xf: 100.0,
        yf: 0.0,
        radius: 10.0, // Too small
        active: true,
        ..Default::default()
    };
    cut.calculate_arc_center();
    shape.cuts.push(cut);
    schema.shapes.push(shape);

    let result = validate_schema(&schema, 1);
    assert!(!result.passed);
    assert!(result.errors.iter().any(|e| e.contains("Arc radius") && e.contains("too small")));
    assert_eq!(
        result.errors[0],
        "Schema 1, Shape 1, Cut 1: Arc radius 10 is too small for chord length 100"
    );
}

#[test]
fn test_validate_schema_no_cuts_warning() {
    let schema = create_basic_schema();
    // No linear cuts or shapes
    let result = validate_schema(&schema, 1);
    assert!(result.passed);
    assert!(result.warnings.iter().any(|w| w.contains("No cuts or shapes")));
}

#[test]
fn validation_reports_in_the_order_of_its_checks() {
    let mut schema = create_basic_schema();
    schema.height = -1.5;
    schema.thickness = -1.0;
    schema.linear_cuts.push(Cut::new_line(0.0, 0.0, 1.0, 0.0));
    for (width, shape, info) in [(0.0, Some(1), Some(5)), (10.0, Some(2), None), (20.0, Some(1), None)] {
        schema.pieces.push(Piece {
            x_origin: -1.0,
            width,
            height: 10.0,
            shape_id: shape,
            info_id: info,
            ..Default::default()
        });
    }
    let mut open: Shape<f64> = Shape::new(1);
    open.cuts.push(Cut::new_line(0.0, 0.0, 5.0, 5.0));
    schema.shapes.push(open);
    let result = validate_schema(&schema, 3);
    assert!(!result.passed);
    assert_eq!(result.errors, vec![
        "Schema 3: Invalid sheet dimensions (1000x-1.5)".to_string(),
        "Schema 3, Piece 1: Invalid dimensions (0x10)".to_string(),
        "Schema 3, Piece 1: Info 5 not found".to_string(),
        "Schema 3, Piece 2: Shape 2 not found".to_string(),
        "Schema 3: Shape 1 is used on pieces of different sizes".to_string(),
    ]);
    assert_eq!(result.warnings, vec![
        "Schema 3: Missing or zero thickness".to_string(),
        "Schema 3, Piece 1: Extends beyond sheet bounds".to_string(),
        "Schema 3, Piece 2: Extends beyond sheet bounds".to_string(),
        "Schema 3, Piece 3: Extends beyond sheet bounds".to_string(),
        "Schema 3, Shape 1: Shape is not closed".to_string(),
    ]);
    let both = validate_schemas(&[create_basic_schema(), schema]).ok().expect("a result");
    assert!(!both.passed);
    assert_eq!(both.warnings[0], "Schema 1: No cuts or shapes defined");
    assert_eq!(both.errors[0], "Schema 2: Invalid sheet dimensions (1000x-1.5)");
}

#[test]
fn test_validate_has_cuts_no_cuts() {
    let schema = create_basic_schema();
    assert!(!otd_core::validation::checks::validate_has_cuts(&schema));
}

#[test]
fn test_validate_has_cuts_with_linear_cuts() {
    let mut schema = create_basic_schema();
    schema.linear_cuts.push(Cut { active: true, ..Default::default() });
    assert!(otd_core::validation::checks::validate_has_cuts(&schema));
}

#[test]
fn test_validate_has_cuts_with_inactive_cuts() {
    let mut schema = create_basic_schema();
    schema.linear_cuts.push(Cut { active: false, ..Default::default() });
    assert!(!otd_core::validation::checks::validate_has_cuts(&schema));
}

#[test]
fn test_validate_has_cuts_with_shapes() {
    let mut schema = create_basic_schema();
    let mut shape: Shape<f64> = Shape::new(1);
    shape.cuts.push(Cut::new_line(0.0, 0.0, 100.0, 0.0));
    schema.shapes.push(shape);
    assert!(otd_core::validation::checks::validate_has_cuts(&schema));
}

fn two_pieces(second_x: f64, second_y: f64) -> Schema<f64> {
    let mut schema = create_basic_schema();
    schema.pieces.push(Piece { width: 100.0, height: 100.0, ..Default::default() });
    schema.pieces.push(Piece {
        x_origin: second_x,
        y_origin: second_y,
        width: 100.0,
        height: 100.0,
        ..Default::default()
    });
    schema
}

#[test]
fn test_validate_piece_layout_no_overlap() {
    assert!(validate_piece_layout(&two_pieces(200.0, 0.0)).is_empty());
}

#[test]
fn test_validate_piece_layout_with_overlap() {
    let overlaps = validate_piece_layout(&two_pieces(50.0, 50.0));
    assert_eq!(overlaps.len(), 1);
    assert_eq!(overlaps[0], (0, 1));
}

#[test]
fn test_validate_piece_layout_adjacent_no_overlap() {
    assert!(validate_piece_layout(&two_pieces(100.0, 0.0)).is_empty());
}

#[test]
fn test_quick_validate_success() {
    let schema = create_basic_schema();
    let result = quick_validate(&[schema]);
    assert!(result.is_ok());
}

#[test]
fn test_quick_validate_failure() {
    let mut schema = create_basic_schema();
    schema.width = -100.0; // Invalid
    schema.pieces.push(Piece { info_id: Some(4), width: 1.0, height: 1.0, ..Default::default() });
    let result = quick_validate(&[schema]);
    assert!(result.is_err());
    match result {
        Err(ConvertError::ParseError { line, message }) => {
            assert_eq!(line, 0);
            assert_eq!(
                message,
                "Schema 1: Invalid sheet dimensions (-100x500); Schema 1, Piece 1: Info 4 not found"
            );
        }
        _ => panic!("a parse error"),
    }
    assert!(matches!(quick_validate(&[]), Err(ConvertError::NoPatternSection)));
}
