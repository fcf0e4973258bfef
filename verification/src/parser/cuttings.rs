//! The `[Cuttings]` and `[LowE]` sections: cuts and pieces that the input
//! lays out itself.
//!
//! A line is a piece where its first key is `XO`, a cut where it is `x` or
//! `y`, and where it is `IndPiece` it links pieces to the cut before it.
//! Measures are handed on as the text in which they are written.

use crate::model::cut::Cut;
use crate::model::piece::Piece;
use crate::number::{parse_i32, parse_i32_spec};
use crate::parser::fields::{multi_values, pair_views, parse_multi_values};
use crate::parser::lookup::{
    field_int, field_measure, find_field, find_field_int, find_field_measure, last_field,
};
use crate::parser::pattern::{measure_or, or_int, or_text};
use crate::parser::sections::{blank_or_comment, is_blank_or_comment, texts};
use crate::parser::shapes::{blank_cut, cut_text, cut_texts, new_blank_cut, CutText};
use crate::text::{str_equal, trim, trimmed};
use vstd::prelude::*;
use vstd::string::StringExecFns;

verus! {

/// The content of a piece whose measures are text.
pub struct PieceText {
    pub x_origin: Seq<char>,
    pub y_origin: Seq<char>,
    pub width: Seq<char>,
    pub height: Seq<char>,
    pub info_id: Option<i32>,
    pub shape_id: Option<i32>,
    pub piece_index: i32,
    pub piece_type_index: Option<usize>,
    pub shape_index: Option<usize>,
    pub ind_piece: Option<i32>,
    pub edge_sides: u8,
}

/// The content of `piece`.
pub open spec fn piece_text(piece: Piece<String>) -> PieceText {
    PieceText {
        x_origin: piece.x_origin@,
        y_origin: piece.y_origin@,
        width: piece.width@,
        height: piece.height@,
        info_id: piece.info_id,
        shape_id: piece.shape_id,
        piece_index: piece.piece_index,
        piece_type_index: piece.piece_type_index,
        shape_index: piece.shape_index,
        ind_piece: piece.ind_piece,
        edge_sides: piece.edge_sides,
    }
}

/// The contents of a list of pieces.
pub open spec fn piece_texts(pieces: Seq<Piece<String>>) -> Seq<PieceText> {
    pieces.map_values(|p: Piece<String>| piece_text(p))
}

/// The integers that the fields with key `key` give, in order; a field
/// whose value is no integer gives none.
pub open spec fn field_ints(fields: Seq<(Seq<char>, Seq<char>)>, key: Seq<char>) -> Seq<i32>
    decreases fields.len(),
{
    if fields.len() == 0 {
        Seq::empty()
    } else {
        let before = field_ints(fields.drop_last(), key);
        if fields.last().0 == key && parse_i32_spec(fields.last().1) is Some {
            before.push(parse_i32_spec(fields.last().1)->0)
        } else {
            before
        }
    }
}

/// The integers that the fields with key `key` give, in order.
pub fn collect_ints(fields: &Vec<(&str, &str)>, key: &str) -> (r: Vec<i32>)
    ensures
        r@ == field_ints(pair_views(fields@), key@),
{
    let ghost all = pair_views(fields@);
    let mut r: Vec<i32> = Vec::new();
    let mut i: usize = 0;
    assert(all.take(0) =~= Seq::empty());
    while i < fields.len()
        invariant
            i <= fields.len(),
            all == pair_views(fields@),
            r@ == field_ints(all.take(i as int), key@),
        decreases fields.len() - i,
    {
        proof {
            assert(all.take(i + 1).drop_last() =~= all.take(i as int));
            assert(all.take(i + 1).last() == (fields@[i as int].0@, fields@[i as int].1@));
        }
        if str_equal(fields[i].0, key) {
            match parse_i32(fields[i].1) {
                Some(v) => {
                    r.push(v);
                },
                None => {},
            }
        }
        i += 1;
    }
    assert(all.take(fields.len() as int) =~= all);
    r
}

/// The piece that the fields of a piece line give: origin (`XO`, `YO`) and
/// size (`Width`, `Height`), each zero where it is missing or not written
/// as a measure is, and what it refers to (`Info`, `Shape`, `IndPiece`).
pub open spec fn piece_of(fields: Seq<(Seq<char>, Seq<char>)>) -> PieceText {
    PieceText {
        x_origin: or_text(field_measure(fields, "XO"@), "0"@),
        y_origin: or_text(field_measure(fields, "YO"@), "0"@),
        width: or_text(field_measure(fields, "Width"@), "0"@),
        height: or_text(field_measure(fields, "Height"@), "0"@),
        info_id: field_int(fields, "Info"@),
        shape_id: field_int(fields, "Shape"@),
        piece_index: 0i32,
        piece_type_index: None,
        shape_index: None,
        ind_piece: field_int(fields, "IndPiece"@),
        edge_sides: 0u8,
    }
}

/// The cut that the fields of a cut line give: a line from `(x, y)` to
/// `(X, Y)` with its level (`Levcut`), rotation (`Rot`), quota (`Qcut`),
/// length (`Lcut`), flags (`Tcut`), rest (`Rcut`), whether it separates
/// scrap (`Wcut` above zero) and the shape it belongs to (`ParentShape`).
/// What is missing is zero. What cannot be read is zero too, but for the
/// rest and the parent shape, which are then -1, and for `Wcut`, which is
/// then passed over.
pub open spec fn cut_of(fields: Seq<(Seq<char>, Seq<char>)>) -> CutText {
    let scrap = field_ints(fields, "Wcut"@);
    CutText {
        xi: or_text(field_measure(fields, "x"@), "0"@),
        yi: or_text(field_measure(fields, "y"@), "0"@),
        xf: or_text(field_measure(fields, "X"@), "0"@),
        yf: or_text(field_measure(fields, "Y"@), "0"@),
        level: or_int(field_int(fields, "Levcut"@), 0),
        rotation: or_text(field_measure(fields, "Rot"@), "0"@),
        quota: or_text(field_measure(fields, "Qcut"@), "0"@),
        length: or_text(field_measure(fields, "Lcut"@), "0"@),
        tcut: or_int(field_int(fields, "Tcut"@), 0),
        rest: match last_field(fields, "Rcut"@) {
            Some(v) => or_text(field_measure(fields, "Rcut"@), "-1"@),
            None => "0"@,
        },
        is_scrap: scrap.len() > 0 && scrap.last() > 0,
        parent_shape: match last_field(fields, "ParentShape"@) {
            Some(v) => or_int(field_int(fields, "ParentShape"@), -1i32),
            None => 0i32,
        },
        ..blank_cut()
    }
}

/// What a line of the section is.
pub enum CuttingLine {
    /// A piece.
    Piece(PieceText),
    /// Links of the cut before it: the pieces it borders, and which side
    /// of each it is.
    Links(Seq<i32>, Seq<i32>),
    /// A cut.
    Cut(CutText),
    /// Nothing that is read.
    Other,
}

/// What `line` is.
pub open spec fn cutting_line(line: Seq<char>) -> CuttingLine {
    let t = trimmed(line);
    let fields = multi_values(t);
    if is_blank_or_comment(t) || fields.len() == 0 {
        CuttingLine::Other
    } else if fields[0].0 == "XO"@ {
        CuttingLine::Piece(piece_of(fields))
    } else if fields[0].0 == "IndPiece"@ {
        CuttingLine::Links(field_ints(fields, "IndPiece"@), field_ints(fields, "Cut"@))
    } else if fields[0].0 == "x"@ || fields[0].0 == "y"@ {
        CuttingLine::Cut(cut_of(fields))
    } else {
        CuttingLine::Other
    }
}

/// The cuts that a list of lines gives, in order, each with the links
/// that the lines behind it add to it.
pub open spec fn cutting_cuts(lines: Seq<Seq<char>>) -> Seq<CutText>
    decreases lines.len(),
{
    if lines.len() == 0 {
        Seq::empty()
    } else {
        let before = cutting_cuts(lines.drop_last());
        match cutting_line(lines.last()) {
            CuttingLine::Cut(cut) => before.push(cut),
            CuttingLine::Links(pieces, sides) => if before.len() > 0 {
                before.drop_last().push(
                    CutText {
                        piece_indices: before.last().piece_indices + pieces,
                        cut_indices: before.last().cut_indices + sides,
                        ..before.last()
                    },
                )
            } else {
                before
            },
            _ => before,
        }
    }
}

/// The pieces that a list of lines gives, in order.
pub open spec fn cutting_pieces(lines: Seq<Seq<char>>) -> Seq<PieceText>
    decreases lines.len(),
{
    if lines.len() == 0 {
        Seq::empty()
    } else {
        let before = cutting_pieces(lines.drop_last());
        match cutting_line(lines.last()) {
            CuttingLine::Piece(piece) => before.push(piece),
            _ => before,
        }
    }
}

/// The piece that the fields of a piece line give.
fn read_piece(fields: &Vec<(&str, &str)>) -> (piece: Piece<String>)
    ensures
        piece_text(piece) == piece_of(pair_views(fields@)),
{
    let ghost all = pair_views(fields@);
    assert(all.subrange(0, fields.len() as int) =~= all);
    Piece {
        x_origin: measure_or(find_field_measure(fields, 0, "XO"), "0"),
        y_origin: measure_or(find_field_measure(fields, 0, "YO"), "0"),
        width: measure_or(find_field_measure(fields, 0, "Width"), "0"),
        height: measure_or(find_field_measure(fields, 0, "Height"), "0"),
        info_id: find_field_int(fields, 0, "Info"),
        shape_id: find_field_int(fields, 0, "Shape"),
        piece_index: 0,
        piece_type_index: None,
        shape_index: None,
        ind_piece: find_field_int(fields, 0, "IndPiece"),
        edge_sides: 0,
    }
}

/// The cut that the fields of a cut line give.
fn read_cut(fields: &Vec<(&str, &str)>) -> (cut: Cut<String>)
    ensures
        cut_text(cut) == cut_of(pair_views(fields@)),
{
    let ghost all = pair_views(fields@);
    assert(all.subrange(0, fields.len() as int) =~= all);
    let mut cut = new_blank_cut();
    cut.xi = measure_or(find_field_measure(fields, 0, "x"), "0");
    cut.yi = measure_or(find_field_measure(fields, 0, "y"), "0");
    cut.xf = measure_or(find_field_measure(fields, 0, "X"), "0");
    cut.yf = measure_or(find_field_measure(fields, 0, "Y"), "0");
    cut.level = match find_field_int(fields, 0, "Levcut") {
        Some(v) => v,
        None => 0,
    };
    cut.rotation = measure_or(find_field_measure(fields, 0, "Rot"), "0");
    cut.quota = measure_or(find_field_measure(fields, 0, "Qcut"), "0");
    cut.length = measure_or(find_field_measure(fields, 0, "Lcut"), "0");
    cut.tcut = match find_field_int(fields, 0, "Tcut") {
        Some(v) => v,
        None => 0,
    };
    cut.rest = match find_field(fields, 0, "Rcut") {
        Some(_) => measure_or(find_field_measure(fields, 0, "Rcut"), "-1"),
        None => String::from_str("0"),
    };
    let scrap = collect_ints(fields, "Wcut");
    cut.is_scrap = scrap.len() > 0 && scrap[scrap.len() - 1] > 0;
    cut.parent_shape = match find_field(fields, 0, "ParentShape") {
        Some(_) => match find_field_int(fields, 0, "ParentShape") {
            Some(v) => v,
            None => -1,
        },
        None => 0,
    };
    cut
}

/// Reads a `[Cuttings]` section: its cuts and its pieces, each in the
/// order of the lines. Every piece line gives a piece, whatever its size.
pub fn parse_cuttings(lines: &[&str]) -> (r: (Vec<Cut<String>>, Vec<Piece<String>>))
    ensures
        cut_texts(r.0@) == cutting_cuts(texts(lines@)),
        piece_texts(r.1@) == cutting_pieces(texts(lines@)),
{
    let ghost all = texts(lines@);
    let mut cuts: Vec<Cut<String>> = Vec::new();
    let mut pieces: Vec<Piece<String>> = Vec::new();
    let mut i: usize = 0;
    assert(all.take(0) =~= Seq::empty());
    assert(cut_texts(cuts@) =~= Seq::empty());
    assert(piece_texts(pieces@) =~= Seq::empty());
    while i < lines.len()
        invariant
            i <= lines.len(),
            all == texts(lines@),
            cut_texts(cuts@) == cutting_cuts(all.take(i as int)),
            piece_texts(pieces@) == cutting_pieces(all.take(i as int)),
        decreases lines.len() - i,
    {
        proof {
            assert(all.take(i + 1).drop_last() =~= all.take(i as int));
            assert(all.take(i + 1).last() == lines@[i as int]@);
        }
        let t = trim(lines[i]);
        let ghost old_cuts = cuts@;
        let ghost old_pieces = pieces@;
        if !blank_or_comment(t) {
            let fields = parse_multi_values(t);
            if fields.len() > 0 {
                let first = fields[0].0;
                assert(pair_views(fields@)[0].0 == first@);
                if str_equal(first, "XO") {
                    let piece = read_piece(&fields);
                    pieces.push(piece);
                    assert(piece_texts(pieces@) =~= piece_texts(old_pieces).push(piece_text(piece)));
                } else if str_equal(first, "IndPiece") {
                    let mut linked = collect_ints(&fields, "IndPiece");
                    let mut sides = collect_ints(&fields, "Cut");
                    match cuts.pop() {
                        Some(last) => {
                            let mut last = last;
                            let ghost was = cut_text(last);
                            last.piece_indices.append(&mut linked);
                            last.cut_indices.append(&mut sides);
                            cuts.push(last);
                            proof {
                                let before = cut_texts(old_cuts);
                                assert(before.last() == was);
                                assert(cut_texts(cuts@) =~= before.drop_last().push(cut_text(last)));
                            }
                        },
                        None => {
                            assert(cut_texts(cuts@) =~= cut_texts(old_cuts));
                        },
                    }
                } else if str_equal(first, "x") || str_equal(first, "y") {
                    let cut = read_cut(&fields);
                    cuts.push(cut);
                    assert(cut_texts(cuts@) =~= cut_texts(old_cuts).push(cut_text(cut)));
                }
            }
        }
        i += 1;
    }
    assert(all.take(lines.len() as int) =~= all);
    (cuts, pieces)
}

/// Reads a `[LowE]` section, which is laid out as a `[Cuttings]` section
/// is.
pub fn parse_lowe(lines: &[&str]) -> (r: (Vec<Cut<String>>, Vec<Piece<String>>))
    ensures
        cut_texts(r.0@) == cutting_cuts(texts(lines@)),
        piece_texts(r.1@) == cutting_pieces(texts(lines@)),
{
    parse_cuttings(lines)
}

} // verus!
