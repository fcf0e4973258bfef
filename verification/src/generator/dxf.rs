//! Writer of the ASCII-DXF views embedded in a CNI document.
//!
//! A DXF document is a run of groups, each a code line and a value line.
//! Header, table and filled-entity groups right-align the code in three
//! columns; line, arc and text entities write it bare. Coordinates reach
//! the writer already formatted.

use crate::number::{dec_signed, i64_to_string, pad_left, push_i64, push_padded};
use vstd::prelude::*;
use vstd::string::StringExecFns;

verus! {

/// Colour indices of the layers of a view.
#[derive(Debug, Clone, Copy)]
pub struct DxfColors {
    /// Sheet boundary.
    pub exterior: i32,
    /// Linear cuts.
    pub cuts: i32,
    /// Shape cuts.
    pub shape_cuts: i32,
    /// Piece type text.
    pub piece_type: i32,
    /// Customer text.
    pub customer: i32,
    /// Order number text.
    pub order: i32,
    /// Dimension text.
    pub dimensions: i32,
    /// Shape name text.
    pub shape_name: i32,
    /// Fill of a piece.
    pub piece_fill: i32,
    /// Fill of scrap.
    pub scrap_fill: i32,
}

impl Default for DxfColors {
    fn default() -> (c: DxfColors)
        ensures
            c.exterior == 5,
            c.cuts == 140,
            c.shape_cuts == 6,
            c.piece_type == 5,
            c.customer == 5,
            c.order == 5,
            c.dimensions == 5,
            c.shape_name == 5,
            c.piece_fill == 131,
            c.scrap_fill == 254,
    {
        DxfColors {
            exterior: 5,
            cuts: 140,
            shape_cuts: 6,
            piece_type: 5,
            customer: 5,
            order: 5,
            dimensions: 5,
            shape_name: 5,
            piece_fill: 131,
            scrap_fill: 254,
        }
    }
}

/// A line of text: the content and a line feed.
pub open spec fn dxf_line(content: Seq<char>) -> Seq<char> {
    content + seq!['\n']
}

/// A group code in three columns: two blanks before a code below 10, one
/// before a code below 100, none before any other.
pub open spec fn aligned_code(code: i32) -> Seq<char> {
    if code < 10 {
        "  "@ + dec_signed(code as int)
    } else if code < 100 {
        " "@ + dec_signed(code as int)
    } else {
        dec_signed(code as int)
    }
}

/// A group with its code aligned.
pub open spec fn group(code: i32, value: Seq<char>) -> Seq<char> {
    dxf_line(aligned_code(code)) + dxf_line(value)
}

/// A group with its code bare.
pub open spec fn entity_group(code: i32, value: Seq<char>) -> Seq<char> {
    dxf_line(dec_signed(code as int)) + dxf_line(value)
}

/// An integer right-aligned in six columns.
pub open spec fn int_value(value: i32) -> Seq<char> {
    pad_left(dec_signed(value as int), 6, ' ')
}

/// A colour index right-aligned in four columns.
pub open spec fn color_text(color: i32) -> Seq<char> {
    pad_left(dec_signed(color as int), 4, ' ')
}

/// A header variable that holds a vector: its name, then x, y and a zero z.
pub open spec fn header_vector(name: Seq<char>, x: Seq<char>, y: Seq<char>) -> Seq<char> {
    group(9, name) + group(10, x) + group(20, y) + group(30, "0.0"@)
}

/// The HEADER section.
pub open spec fn header_text() -> Seq<char> {
    group(0, "SECTION"@) + group(2, "HEADER"@) + group(9, "$ACADVER"@) + group(1, "AC1009"@)
        + group(9, "$UCSNAME"@) + dxf_line("2"@) + dxf_line(""@) + header_vector(
        "$UCSORG"@,
        "0.0"@,
        "0.0"@,
    ) + header_vector("$UCSXDIR"@, "1.0"@, "0.0"@) + header_vector("$UCSYDIR"@, "0.0"@, "-1.0"@)
        + group(9, "$PUCSNAME"@) + group(2, ""@) + header_vector("$PUCSORG"@, "0.0"@, "0.0"@)
        + header_vector("$PUCSXDIR"@, "1.0"@, "0.0"@) + header_vector(
        "$PUCSYDIR"@,
        "0.0"@,
        "1.0"@,
    ) + group(0, "ENDSEC"@)
}

/// The entry of one layer in the layer table.
pub open spec fn layer_text(name: Seq<char>, color: i32) -> Seq<char> {
    group(0, "LAYER"@) + group(2, name) + group(70, int_value(64)) + group(
        62,
        dec_signed(color as int),
    ) + group(6, "CONTINUOUS"@)
}

/// The entries of the layers, in order.
pub open spec fn layers_text(layers: Seq<(&str, i32)>) -> Seq<char>
    decreases layers.len(),
{
    if layers.len() == 0 {
        Seq::empty()
    } else {
        layers_text(layers.drop_last()) + layer_text(layers.last().0@, layers.last().1)
    }
}

/// What the TABLES section holds before the layer entries.
pub open spec fn tables_head_text() -> Seq<char> {
    group(0, "SECTION"@) + group(2, "TABLES"@) + group(0, "TABLE"@) + group(2, "LTYPE"@) + group(
        70,
        int_value(7),
    ) + group(0, "LTYPE"@) + group(2, "CONTINUOUS"@) + group(70, int_value(64)) + group(
        3,
        "Solid line"@,
    ) + group(72, int_value(65)) + group(73, int_value(0)) + group(40, "0.0"@) + group(
        0,
        "ENDTAB"@,
    ) + group(0, "TABLE"@) + group(2, "LAYER"@) + group(70, int_value(6))
}

/// What follows the layer entries: the empty style and UCS tables, and the
/// empty BLOCKS section.
pub open spec fn tables_tail_text() -> Seq<char> {
    group(0, "ENDTAB"@) + group(0, "TABLE"@) + group(2, "STYLE"@) + group(70, int_value(2))
        + group(0, "ENDTAB"@) + group(0, "TABLE"@) + group(2, "UCS"@) + group(70, int_value(0))
        + group(0, "ENDTAB"@) + group(0, "ENDSEC"@) + group(0, "SECTION"@) + group(2, "BLOCKS"@)
        + group(0, "ENDSEC"@)
}

/// The TABLES and BLOCKS sections for the given layers.
pub open spec fn tables_text(layers: Seq<(&str, i32)>) -> Seq<char> {
    tables_head_text() + layers_text(layers) + tables_tail_text()
}

/// The opening of the ENTITIES section.
pub open spec fn entities_head_text() -> Seq<char> {
    group(0, "SECTION"@) + group(2, "ENTITIES"@)
}

/// The end of the ENTITIES section and of the document.
pub open spec fn entities_tail_text() -> Seq<char> {
    group(0, "ENDSEC"@) + group(0, "EOF"@) + dxf_line("%%"@)
}

/// A LINE entity from `(x1, y1)` to `(x2, y2)`.
pub open spec fn line_entity_text(
    layer: Seq<char>,
    color: i32,
    x1: Seq<char>,
    y1: Seq<char>,
    x2: Seq<char>,
    y2: Seq<char>,
) -> Seq<char> {
    entity_group(0, "LINE"@) + entity_group(8, layer) + entity_group(62, dec_signed(color as int))
        + entity_group(10, x1) + entity_group(20, y1) + entity_group(30, "0.000"@) + entity_group(
        11,
        x2,
    ) + entity_group(21, y2) + entity_group(31, "0.000"@)
}

/// An ARC entity round `(cx, cy)`.
pub open spec fn arc_entity_text(
    layer: Seq<char>,
    color: i32,
    cx: Seq<char>,
    cy: Seq<char>,
    radius: Seq<char>,
    start_angle: Seq<char>,
    end_angle: Seq<char>,
) -> Seq<char> {
    entity_group(0, "ARC"@) + entity_group(8, layer) + entity_group(62, dec_signed(color as int))
        + entity_group(10, cx) + entity_group(20, cy) + entity_group(30, "0.000"@) + entity_group(
        40,
        radius,
    ) + entity_group(50, start_angle) + entity_group(51, end_angle)
}

/// A SOLID entity that fills the rectangle from `(x1, y1)` to `(x2, y2)`.
pub open spec fn solid_entity_text(
    layer: Seq<char>,
    color: i32,
    x1: Seq<char>,
    y1: Seq<char>,
    x2: Seq<char>,
    y2: Seq<char>,
) -> Seq<char> {
    group(0, "SOLID"@) + group(8, layer) + group(62, color_text(color)) + group(10, x1) + group(
        20,
        y1,
    ) + group(30, "0.000"@) + group(11, x2) + group(21, y1) + group(31, "0.000"@) + group(12, x1)
        + group(22, y2) + group(32, "0.000"@) + group(13, x2) + group(23, y2) + group(
        33,
        "0.000"@,
    )
}

/// A TEXT entity at `(x, y)`.
pub open spec fn text_entity_text(
    layer: Seq<char>,
    color: i32,
    x: Seq<char>,
    y: Seq<char>,
    text: Seq<char>,
) -> Seq<char> {
    group(0, "TEXT"@) + group(8, layer) + group(62, dec_signed(color as int)) + group(10, x)
        + group(20, y) + group(30, "0.000"@) + group(1, text)
}

/// Writer of one DXF document.
pub struct DxfWriter {
    output: String,
}

impl DxfWriter {
    /// The text written so far.
    pub closed spec fn text(&self) -> Seq<char> {
        self.output@
    }

    /// A writer with nothing written.
    pub fn new() -> (w: DxfWriter)
        ensures
            w.text() == Seq::<char>::empty(),
    {
        DxfWriter { output: String::new() }
    }

    /// Gives up the writer for the text written.
    pub fn into_string(self) -> (s: String)
        ensures
            s@ == self.text(),
    {
        self.output
    }

    /// Writes `line` and a line feed.
    pub fn write_line(&mut self, line: &str)
        ensures
            final(self).text() == old(self).text() + dxf_line(line@),
    {
        self.output.append(line);
        self.output.push('\n');
        assert(self.output@ =~= old(self).output@ + dxf_line(line@));
    }

    /// Writes a group with its code aligned in three columns.
    pub fn write_group(&mut self, code: i32, value: &str)
        ensures
            final(self).text() == old(self).text() + group(code, value@),
    {
        if code < 10 {
            self.output.append("  ");
        } else if code < 100 {
            self.output.append(" ");
        }
        push_i64(&mut self.output, code as i64);
        self.output.push('\n');
        self.output.append(value);
        self.output.push('\n');
        assert(self.output@ =~= old(self).output@ + group(code, value@));
    }

    /// Writes a group with its code bare.
    pub fn write_entity_group(&mut self, code: i32, value: &str)
        ensures
            final(self).text() == old(self).text() + entity_group(code, value@),
    {
        push_i64(&mut self.output, code as i64);
        self.output.push('\n');
        self.output.append(value);
        self.output.push('\n');
        assert(self.output@ =~= old(self).output@ + entity_group(code, value@));
    }

    /// Writes a group whose value is an integer right-aligned in six columns.
    pub fn write_group_int(&mut self, code: i32, value: i32)
        ensures
            final(self).text() == old(self).text() + group(code, int_value(value)),
    {
        let digits = i64_to_string(value as i64);
        let mut padded = String::new();
        push_padded(&mut padded, digits.as_str(), 6, ' ');
        assert(padded@ =~= int_value(value));
        self.write_group(code, padded.as_str());
    }

    /// A colour index right-aligned in four columns.
    pub fn format_color(color: i32) -> (s: String)
        ensures
            s@ == color_text(color),
    {
        let digits = i64_to_string(color as i64);
        let mut padded = String::new();
        push_padded(&mut padded, digits.as_str(), 4, ' ');
        assert(padded@ =~= color_text(color));
        padded
    }

    /// Writes a header variable that holds a vector.
    fn write_header_vector(&mut self, name: &str, x: &str, y: &str)
        ensures
            final(self).text() == old(self).text() + header_vector(name@, x@, y@),
    {
        self.write_group(9, name);
        self.write_group(10, x);
        self.write_group(20, y);
        self.write_group(30, "0.0");
        assert(self.text() =~= old(self).text() + header_vector(name@, x@, y@));
    }

    /// Writes the HEADER section.
    pub fn write_header(&mut self)
        ensures
            final(self).text() == old(self).text() + header_text(),
    {
        self.write_group(0, "SECTION");
        self.write_group(2, "HEADER");
        self.write_group(9, "$ACADVER");
        self.write_group(1, "AC1009");
        self.write_group(9, "$UCSNAME");
        self.write_line("2");
        self.write_line("");
        self.write_header_vector("$UCSORG", "0.0", "0.0");
        self.write_header_vector("$UCSXDIR", "1.0", "0.0");
        self.write_header_vector("$UCSYDIR", "0.0", "-1.0");
        self.write_group(9, "$PUCSNAME");
        self.write_group(2, "");
        self.write_header_vector("$PUCSORG", "0.0", "0.0");
        self.write_header_vector("$PUCSXDIR", "1.0", "0.0");
        self.write_header_vector("$PUCSYDIR", "0.0", "1.0");
        self.write_group(0, "ENDSEC");
        assert(self.text() =~= old(self).text() + header_text());
    }

    /// Writes the entry of one layer in the layer table.
    pub fn write_layer(&mut self, name: &str, color: i32)
        ensures
            final(self).text() == old(self).text() + layer_text(name@, color),
    {
        self.write_group(0, "LAYER");
        self.write_group(2, name);
        self.write_group_int(70, 64);
        let index = i64_to_string(color as i64);
        self.write_group(62, index.as_str());
        self.write_group(6, "CONTINUOUS");
        assert(self.text() =~= old(self).text() + layer_text(name@, color));
    }

    fn write_tables_head(&mut self)
        ensures
            final(self).text() == old(self).text() + tables_head_text(),
    {
        self.write_group(0, "SECTION");
        self.write_group(2, "TABLES");
        self.write_group(0, "TABLE");
        self.write_group(2, "LTYPE");
        self.write_group_int(70, 7);
        self.write_group(0, "LTYPE");
        self.write_group(2, "CONTINUOUS");
        self.write_group_int(70, 64);
        self.write_group(3, "Solid line");
        self.write_group_int(72, 65);
        self.write_group_int(73, 0);
        self.write_group(40, "0.0");
        self.write_group(0, "ENDTAB");
        self.write_group(0, "TABLE");
        self.write_group(2, "LAYER");
        self.write_group_int(70, 6);
        assert(self.text() =~= old(self).text() + tables_head_text());
    }

    fn write_tables_tail(&mut self)
        ensures
            final(self).text() == old(self).text() + tables_tail_text(),
    {
        self.write_group(0, "ENDTAB");
        self.write_group(0, "TABLE");
        self.write_group(2, "STYLE");
        self.write_group_int(70, 2);
        self.write_group(0, "ENDTAB");
        self.write_group(0, "TABLE");
        self.write_group(2, "UCS");
        self.write_group_int(70, 0);
        self.write_group(0, "ENDTAB");
        self.write_group(0, "ENDSEC");
        self.write_group(0, "SECTION");
        self.write_group(2, "BLOCKS");
        self.write_group(0, "ENDSEC");
        assert(self.text() =~= old(self).text() + tables_tail_text());
    }

    /// Writes the TABLES section, with one layer entry for each of
    /// `layers` in order, and the empty BLOCKS section.
    pub fn write_tables(&mut self, layers: &[(&str, i32)])
        ensures
            final(self).text() == old(self).text() + tables_text(layers@),
    {
        self.write_tables_head();
        let ghost base = self.text();
        let mut i: usize = 0;
        while i < layers.len()
            invariant
                i <= layers.len(),
                self.text() == base + layers_text(layers@.subrange(0, i as int)),
            decreases layers.len() - i,
        {
            let (name, color) = layers[i];
            self.write_layer(name, color);
            i += 1;
            proof {
                let done = layers@.subrange(0, i as int);
                assert(done.drop_last() =~= layers@.subrange(0, i - 1));
                assert(self.text() =~= base + layers_text(done));
            }
        }
        assert(layers@.subrange(0, i as int) =~= layers@);
        self.write_tables_tail();
        assert(self.text() =~= old(self).text() + tables_text(layers@));
    }

    /// Opens the ENTITIES section.
    pub fn begin_entities(&mut self)
        ensures
            final(self).text() == old(self).text() + entities_head_text(),
    {
        self.write_group(0, "SECTION");
        self.write_group(2, "ENTITIES");
        assert(self.text() =~= old(self).text() + entities_head_text());
    }

    /// Ends the ENTITIES section and the document.
    pub fn end_entities(&mut self)
        ensures
            final(self).text() == old(self).text() + entities_tail_text(),
    {
        self.write_group(0, "ENDSEC");
        self.write_group(0, "EOF");
        self.write_line("%%");
        assert(self.text() =~= old(self).text() + entities_tail_text());
    }

    /// Writes a LINE entity.
    pub fn write_line_entity(
        &mut self,
        layer: &str,
        color: i32,
        x1: &str,
        y1: &str,
        x2: &str,
        y2: &str,
    )
        ensures
            final(self).text() == old(self).text() + line_entity_text(
                layer@,
                color,
                x1@,
                y1@,
                x2@,
                y2@,
            ),
    {
        let index = i64_to_string(color as i64);
        self.write_entity_group(0, "LINE");
        self.write_entity_group(8, layer);
        self.write_entity_group(62, index.as_str());
        self.write_entity_group(10, x1);
        self.write_entity_group(20, y1);
        self.write_entity_group(30, "0.000");
        self.write_entity_group(11, x2);
        self.write_entity_group(21, y2);
        self.write_entity_group(31, "0.000");
        assert(self.text() =~= old(self).text() + line_entity_text(
            layer@,
            color,
            x1@,
            y1@,
            x2@,
            y2@,
        ));
    }

    /// Writes an ARC entity. The angles are in degrees from 0 up to 360.
    pub fn write_arc_entity(
        &mut self,
        layer: &str,
        color: i32,
        cx: &str,
        cy: &str,
        radius: &str,
        start_angle: &str,
        end_angle: &str,
    )
        ensures
            final(self).text() == old(self).text() + arc_entity_text(
                layer@,
                color,
                cx@,
                cy@,
                radius@,
                start_angle@,
                end_angle@,
            ),
    {
        let index = i64_to_string(color as i64);
        self.write_entity_group(0, "ARC");
        self.write_entity_group(8, layer);
        self.write_entity_group(62, index.as_str());
        self.write_entity_group(10, cx);
        self.write_entity_group(20, cy);
        self.write_entity_group(30, "0.000");
        self.write_entity_group(40, radius);
        self.write_entity_group(50, start_angle);
        self.write_entity_group(51, end_angle);
        assert(self.text() =~= old(self).text() + arc_entity_text(
            layer@,
            color,
            cx@,
            cy@,
            radius@,
            start_angle@,
            end_angle@,
        ));
    }

    /// Writes a SOLID entity: the rectangle from `(x1, y1)` to `(x2, y2)`,
    /// filled.
    pub fn write_solid_entity(
        &mut self,
        layer: &str,
        color: i32,
        x1: &str,
        y1: &str,
        x2: &str,
        y2: &str,
    )
        ensures
            final(self).text() == old(self).text() + solid_entity_text(
                layer@,
                color,
                x1@,
                y1@,
                x2@,
                y2@,
            ),
    {
        let index = DxfWriter::format_color(color);
        self.write_group(0, "SOLID");
        self.write_group(8, layer);
        self.write_group(62, index.as_str());
        self.write_group(10, x1);
        self.write_group(20, y1);
        self.write_group(30, "0.000");
        self.write_group(11, x2);
        self.write_group(21, y1);
        self.write_group(31, "0.000");
        self.write_group(12, x1);
        self.write_group(22, y2);
        self.write_group(32, "0.000");
        self.write_group(13, x2);
        self.write_group(23, y2);
        self.write_group(33, "0.000");
        assert(self.text() =~= old(self).text() + solid_entity_text(
            layer@,
            color,
            x1@,
            y1@,
            x2@,
            y2@,
        ));
    }

    /// Writes a TEXT entity.
    pub fn write_text_entity(&mut self, layer: &str, color: i32, x: &str, y: &str, text: &str)
        ensures
            final(self).text() == old(self).text() + text_entity_text(layer@, color, x@, y@, text@),
    {
        let index = i64_to_string(color as i64);
        self.write_group(0, "TEXT");
        self.write_group(8, layer);
        self.write_group(62, index.as_str());
        self.write_group(10, x);
        self.write_group(20, y);
        self.write_group(30, "0.000");
        self.write_group(1, text);
        assert(self.text() =~= old(self).text() + text_entity_text(layer@, color, x@, y@, text@));
    }
}

impl Default for DxfWriter {
    fn default() -> (w: DxfWriter)
        ensures
            w.text() == Seq::<char>::empty(),
    {
        DxfWriter::new()
    }
}

} // verus!
