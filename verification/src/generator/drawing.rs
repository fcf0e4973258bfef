//! The drawing of a schema: one DXF document.
//!
//! A view of a schema is drawn in a fixed order on fixed layers: the sheet
//! as scrap, the pieces on it, the outline of the sheet, the linear cuts,
//! the contours of the shapes, and the labels of the pieces. Where things
//! lie is for the caller to compute; coordinates come formatted.

use crate::generator::dxf::{
    arc_entity_text, entities_head_text, entities_tail_text, header_text, line_entity_text,
    solid_entity_text, tables_text, text_entity_text, DxfWriter,
};
use vstd::prelude::*;

verus! {

/// A rectangle, from one corner to the opposite one.
#[derive(Debug, Clone)]
pub struct Rect {
    pub x1: String,
    pub y1: String,
    pub x2: String,
    pub y2: String,
}

/// A line, from one point to another.
#[derive(Debug, Clone)]
pub struct Segment {
    pub x1: String,
    pub y1: String,
    pub x2: String,
    pub y2: String,
}

/// A part of a contour.
#[derive(Debug, Clone)]
pub enum Contour {
    /// A straight part.
    Line(Segment),
    /// An arc round `(cx, cy)`, counter-clockwise from `start` to `end`,
    /// angles in degrees.
    Arc { cx: String, cy: String, radius: String, start: String, end: String },
}

/// What a label says.
#[derive(Debug, Clone, Copy, PartialEq, Eq, Structural)]
pub enum LabelKind {
    /// The size of the piece.
    Dimensions,
    /// The name of its shape.
    ShapeName,
    /// Its piece code.
    PieceCode,
    /// The customer.
    Customer,
    /// The order number.
    Order,
}

/// A label at a point.
#[derive(Debug, Clone)]
pub struct Label {
    pub kind: LabelKind,
    pub x: String,
    pub y: String,
    pub text: String,
}

/// What one view of a schema shows.
#[derive(Debug, Clone)]
pub struct Drawing {
    /// Width of the sheet.
    pub width: String,
    /// Height of the sheet.
    pub height: String,
    /// The pieces that are no scrap.
    pub pieces: Vec<Rect>,
    /// The active linear cuts.
    pub cuts: Vec<Segment>,
    /// The active segments of the shapes, placed on their pieces.
    pub contours: Vec<Contour>,
    /// The labels of the pieces.
    pub labels: Vec<Label>,
}

/// Colour of the sheet outline: that of its layer.
pub const COLOR_BY_LAYER: i32 = 0;

/// Colour of linear cuts.
pub const COLOR_CUTS: i32 = 140;

/// Colour of shape contours.
pub const COLOR_CONTOURS: i32 = 6;

/// Colour of labels and of the outline layer.
pub const COLOR_TEXT: i32 = 5;

/// Colour in which pieces are filled.
pub const COLOR_PIECE: i32 = 131;

/// Colour in which scrap is filled.
pub const COLOR_SCRAP: i32 = 254;

/// The ten layers of a drawing, each with its colour.
pub open spec fn layer_table() -> Seq<(&'static str, i32)> {
    seq![
        ("EST", COLOR_TEXT),
        ("Tagli", COLOR_CUTS),
        ("TagliSag", COLOR_CONTOURS),
        ("TipoP", COLOR_TEXT),
        ("Cliente", COLOR_TEXT),
        ("Ordine", COLOR_TEXT),
        ("Dimensioni", COLOR_TEXT),
        ("NomeSagoma", COLOR_TEXT),
        ("ColPez", COLOR_PIECE),
        ("ColSca", COLOR_SCRAP),
    ]
}

/// The layer of a label.
pub open spec fn label_layer(kind: LabelKind) -> Seq<char> {
    match kind {
        LabelKind::Dimensions => "Dimensioni"@,
        LabelKind::ShapeName => "NomeSagoma"@,
        LabelKind::PieceCode => "TipoP"@,
        LabelKind::Customer => "Cliente"@,
        LabelKind::Order => "Ordine"@,
    }
}

/// The sheet, filled as scrap, from the origin to its far corner.
pub open spec fn sheet_text(width: Seq<char>, height: Seq<char>) -> Seq<char> {
    solid_entity_text("ColSca"@, COLOR_SCRAP, "0.000"@, "0.000"@, width, height)
}

/// The outline of the sheet: four lines round it, from the origin and
/// back.
pub open spec fn outline_text(width: Seq<char>, height: Seq<char>) -> Seq<char> {
    line_entity_text("EST"@, COLOR_BY_LAYER, "0.000"@, "0.000"@, width, "0.000"@)
        + line_entity_text("EST"@, COLOR_BY_LAYER, width, "0.000"@, width, height)
        + line_entity_text("EST"@, COLOR_BY_LAYER, width, height, "0.000"@, height)
        + line_entity_text("EST"@, COLOR_BY_LAYER, "0.000"@, height, "0.000"@, "0.000"@)
}

/// One piece, filled.
pub open spec fn piece_text(piece: Rect) -> Seq<char> {
    solid_entity_text("ColPez"@, COLOR_PIECE, piece.x1@, piece.y1@, piece.x2@, piece.y2@)
}

/// The first `n` pieces, filled.
pub open spec fn pieces_text(pieces: Seq<Rect>, n: int) -> Seq<char>
    decreases n,
{
    if n <= 0 {
        Seq::empty()
    } else {
        pieces_text(pieces, n - 1) + piece_text(pieces[n - 1])
    }
}

/// One linear cut.
pub open spec fn cut_line_text(cut: Segment) -> Seq<char> {
    line_entity_text("Tagli"@, COLOR_CUTS, cut.x1@, cut.y1@, cut.x2@, cut.y2@)
}

/// The first `n` linear cuts.
pub open spec fn cuts_text(cuts: Seq<Segment>, n: int) -> Seq<char>
    decreases n,
{
    if n <= 0 {
        Seq::empty()
    } else {
        cuts_text(cuts, n - 1) + cut_line_text(cuts[n - 1])
    }
}

/// One part of a contour.
pub open spec fn contour_text(part: Contour) -> Seq<char> {
    match part {
        Contour::Line(s) => line_entity_text(
            "TagliSag"@,
            COLOR_CONTOURS,
            s.x1@,
            s.y1@,
            s.x2@,
            s.y2@,
        ),
        Contour::Arc { cx, cy, radius, start, end } => arc_entity_text(
            "TagliSag"@,
            COLOR_CONTOURS,
            cx@,
            cy@,
            radius@,
            start@,
            end@,
        ),
    }
}

/// The first `n` parts of the contours.
pub open spec fn contours_text(parts: Seq<Contour>, n: int) -> Seq<char>
    decreases n,
{
    if n <= 0 {
        Seq::empty()
    } else {
        contours_text(parts, n - 1) + contour_text(parts[n - 1])
    }
}

/// One label.
pub open spec fn label_text(label: Label) -> Seq<char> {
    text_entity_text(label_layer(label.kind), COLOR_TEXT, label.x@, label.y@, label.text@)
}

/// The first `n` labels.
pub open spec fn labels_text(labels: Seq<Label>, n: int) -> Seq<char>
    decreases n,
{
    if n <= 0 {
        Seq::empty()
    } else {
        labels_text(labels, n - 1) + label_text(labels[n - 1])
    }
}

/// The DXF document of a drawing.
pub open spec fn drawing_text(d: Drawing) -> Seq<char> {
    header_text() + tables_text(layer_table()) + entities_head_text() + sheet_text(
        d.width@,
        d.height@,
    ) + pieces_text(d.pieces@, d.pieces.len() as int) + outline_text(d.width@, d.height@)
        + cuts_text(d.cuts@, d.cuts.len() as int) + contours_text(
        d.contours@,
        d.contours.len() as int,
    ) + labels_text(d.labels@, d.labels.len() as int) + entities_tail_text()
}

/// The layer of a label.
fn layer_of(kind: LabelKind) -> (layer: &'static str)
    ensures
        layer@ == label_layer(kind),
{
    match kind {
        LabelKind::Dimensions => "Dimensioni",
        LabelKind::ShapeName => "NomeSagoma",
        LabelKind::PieceCode => "TipoP",
        LabelKind::Customer => "Cliente",
        LabelKind::Order => "Ordine",
    }
}

fn write_pieces(dxf: &mut DxfWriter, pieces: &Vec<Rect>)
    ensures
        final(dxf).text() == old(dxf).text() + pieces_text(pieces@, pieces.len() as int),
{
    let mut k: usize = 0;
    assert(dxf.text() =~= old(dxf).text() + pieces_text(pieces@, 0));
    while k < pieces.len()
        invariant
            k <= pieces.len(),
            dxf.text() == old(dxf).text() + pieces_text(pieces@, k as int),
        decreases pieces.len() - k,
    {
        let p = &pieces[k];
        dxf.write_solid_entity(
            "ColPez",
            COLOR_PIECE,
            p.x1.as_str(),
            p.y1.as_str(),
            p.x2.as_str(),
            p.y2.as_str(),
        );
        assert(dxf.text() =~= old(dxf).text() + pieces_text(pieces@, k + 1));
        k += 1;
    }
}

fn write_cuts(dxf: &mut DxfWriter, cuts: &Vec<Segment>)
    ensures
        final(dxf).text() == old(dxf).text() + cuts_text(cuts@, cuts.len() as int),
{
    let mut k: usize = 0;
    assert(dxf.text() =~= old(dxf).text() + cuts_text(cuts@, 0));
    while k < cuts.len()
        invariant
            k <= cuts.len(),
            dxf.text() == old(dxf).text() + cuts_text(cuts@, k as int),
        decreases cuts.len() - k,
    {
        let c = &cuts[k];
        dxf.write_line_entity(
            "Tagli",
            COLOR_CUTS,
            c.x1.as_str(),
            c.y1.as_str(),
            c.x2.as_str(),
            c.y2.as_str(),
        );
        assert(dxf.text() =~= old(dxf).text() + cuts_text(cuts@, k + 1));
        k += 1;
    }
}

fn write_contours(dxf: &mut DxfWriter, parts: &Vec<Contour>)
    ensures
        final(dxf).text() == old(dxf).text() + contours_text(parts@, parts.len() as int),
{
    let mut k: usize = 0;
    assert(dxf.text() =~= old(dxf).text() + contours_text(parts@, 0));
    while k < parts.len()
        invariant
            k <= parts.len(),
            dxf.text() == old(dxf).text() + contours_text(parts@, k as int),
        decreases parts.len() - k,
    {
        match &parts[k] {
            Contour::Line(s) => {
                dxf.write_line_entity(
                    "TagliSag",
                    COLOR_CONTOURS,
                    s.x1.as_str(),
                    s.y1.as_str(),
                    s.x2.as_str(),
                    s.y2.as_str(),
                );
            },
            Contour::Arc { cx, cy, radius, start, end } => {
                dxf.write_arc_entity(
                    "TagliSag",
                    COLOR_CONTOURS,
                    cx.as_str(),
                    cy.as_str(),
                    radius.as_str(),
                    start.as_str(),
                    end.as_str(),
                );
            },
        }
        assert(dxf.text() =~= old(dxf).text() + contours_text(parts@, k + 1));
        k += 1;
    }
}

fn write_labels(dxf: &mut DxfWriter, labels: &Vec<Label>)
    ensures
        final(dxf).text() == old(dxf).text() + labels_text(labels@, labels.len() as int),
{
    let mut k: usize = 0;
    assert(dxf.text() =~= old(dxf).text() + labels_text(labels@, 0));
    while k < labels.len()
        invariant
            k <= labels.len(),
            dxf.text() == old(dxf).text() + labels_text(labels@, k as int),
        decreases labels.len() - k,
    {
        let l = &labels[k];
        dxf.write_text_entity(
            layer_of(l.kind),
            COLOR_TEXT,
            l.x.as_str(),
            l.y.as_str(),
            l.text.as_str(),
        );
        assert(dxf.text() =~= old(dxf).text() + labels_text(labels@, k + 1));
        k += 1;
    }
}

fn write_outline(dxf: &mut DxfWriter, width: &str, height: &str)
    ensures
        final(dxf).text() == old(dxf).text() + outline_text(width@, height@),
{
    dxf.write_line_entity("EST", COLOR_BY_LAYER, "0.000", "0.000", width, "0.000");
    dxf.write_line_entity("EST", COLOR_BY_LAYER, width, "0.000", width, height);
    dxf.write_line_entity("EST", COLOR_BY_LAYER, width, height, "0.000", height);
    dxf.write_line_entity("EST", COLOR_BY_LAYER, "0.000", height, "0.000", "0.000");
    assert(dxf.text() =~= old(dxf).text() + outline_text(width@, height@));
}

/// Writes the DXF document of a drawing: header, tables with the ten
/// layers, and the entities in their fixed order.
pub fn generate_dxf_view(drawing: &Drawing) -> (text: String)
    ensures
        text@ == drawing_text(*drawing),
{
    let mut dxf = DxfWriter::new();
    let layers: [(&'static str, i32); 10] = [
        ("EST", COLOR_TEXT),
        ("Tagli", COLOR_CUTS),
        ("TagliSag", COLOR_CONTOURS),
        ("TipoP", COLOR_TEXT),
        ("Cliente", COLOR_TEXT),
        ("Ordine", COLOR_TEXT),
        ("Dimensioni", COLOR_TEXT),
        ("NomeSagoma", COLOR_TEXT),
        ("ColPez", COLOR_PIECE),
        ("ColSca", COLOR_SCRAP),
    ];
    assert(layers@ =~= layer_table());
    dxf.write_header();
    dxf.write_tables(layers.as_slice());
    dxf.begin_entities();
    dxf.write_solid_entity(
        "ColSca",
        COLOR_SCRAP,
        "0.000",
        "0.000",
        drawing.width.as_str(),
        drawing.height.as_str(),
    );
    write_pieces(&mut dxf, &drawing.pieces);
    write_outline(&mut dxf, drawing.width.as_str(), drawing.height.as_str());
    write_cuts(&mut dxf, &drawing.cuts);
    write_contours(&mut dxf, &drawing.contours);
    write_labels(&mut dxf, &drawing.labels);
    dxf.end_entities();
    let text = dxf.into_string();
    assert(text@ =~= drawing_text(*drawing));
    text
}

} // verus!
