//! What an OTD text holds, section by section.

use crate::error::ConvertError;
use crate::model::cut::Cut;
use crate::model::piece::Piece;
use crate::model::piece_type::PieceType;
use crate::model::shape::Shape;
use crate::parser::cuttings::{cutting_cuts, cutting_pieces, parse_cuttings, parse_lowe, piece_texts};
use crate::parser::lookup::last_int;
use crate::parser::otd::{
    attachments_of, bodies, body_of, body_texts, first_named, named, named_bodies,
    named_body_texts, OtdParser,
};
use crate::parser::pattern::{
    coord_entries, coord_views, parse_pattern_coordinates, parse_pattern_header, CoordEntry,
    PatternData,
};
use crate::parser::sections::{
    creator_of, empty_header, header_of, parse_header, parse_signature, texts, HeaderData,
    SignatureData,
};
use crate::parser::shapes::{cut_texts, is_info_of, is_shape_of, parse_info, parse_shape};
use crate::text::str_equal;
use vstd::prelude::*;

verus! {

/// What one `[Pattern]` section and the sections that belong to it hold.
#[derive(Debug)]
pub struct PatternSource {
    /// The header fields of the pattern.
    pub header: PatternData,
    /// Its nested coordinates.
    pub coords: Vec<CoordEntry>,
    /// The piece types of its `[Info]` sections.
    pub piece_types: Vec<PieceType<String>>,
    /// The shapes of its `[Shape]` sections.
    pub shapes: Vec<Shape<String>>,
    /// The cuts and pieces of each of its `[Cuttings]` sections.
    pub cuttings: Vec<(Vec<Cut<String>>, Vec<Piece<String>>)>,
    /// The cuts and pieces of each of its `[LowE]` sections.
    pub lowe: Vec<(Vec<Cut<String>>, Vec<Piece<String>>)>,
}

/// What an OTD text holds.
#[derive(Debug)]
pub struct Document {
    /// The `[Header]` section, shared by all patterns.
    pub header: HeaderData,
    /// The `[Signature]` section, shared by all patterns.
    pub signature: SignatureData,
    /// The patterns, in order.
    pub patterns: Vec<PatternSource>,
}

/// Whether `types` are the piece types that the `Info` sections among
/// `sections` describe, in order. A section without an `Id` describes
/// none.
pub open spec fn infos_match(
    sections: Seq<(Seq<char>, Seq<Seq<char>>)>,
    types: Seq<PieceType<String>>,
) -> bool
    decreases sections.len(),
{
    if sections.len() == 0 {
        types.len() == 0
    } else if sections.last().0 == "Info"@ && last_int(sections.last().1, "Id"@) is Some {
        types.len() > 0 && is_info_of(types.last(), sections.last().1) && infos_match(
            sections.drop_last(),
            types.drop_last(),
        )
    } else {
        infos_match(sections.drop_last(), types)
    }
}

/// Whether `shapes` are the shapes that the `Shape` sections among
/// `sections` describe, in order. A section without an `Id` describes
/// none.
pub open spec fn shapes_match(
    sections: Seq<(Seq<char>, Seq<Seq<char>>)>,
    shapes: Seq<Shape<String>>,
) -> bool
    decreases sections.len(),
{
    if sections.len() == 0 {
        shapes.len() == 0
    } else if sections.last().0 == "Shape"@ && last_int(sections.last().1, "Id"@) is Some {
        shapes.len() > 0 && is_shape_of(shapes.last(), sections.last().1) && shapes_match(
            sections.drop_last(),
            shapes.drop_last(),
        )
    } else {
        shapes_match(sections.drop_last(), shapes)
    }
}

/// Whether `layouts` hold the cuts and pieces of the sections named `name`
/// among `sections`, one entry for each such section, in order.
pub open spec fn layouts_match(
    sections: Seq<(Seq<char>, Seq<Seq<char>>)>,
    name: Seq<char>,
    layouts: Seq<(Vec<Cut<String>>, Vec<Piece<String>>)>,
) -> bool
    decreases sections.len(),
{
    if sections.len() == 0 {
        layouts.len() == 0
    } else if sections.last().0 == name {
        &&& layouts.len() > 0
        &&& cut_texts(layouts.last().0@) == cutting_cuts(sections.last().1)
        &&& piece_texts(layouts.last().1@) == cutting_pieces(sections.last().1)
        &&& layouts_match(sections.drop_last(), name, layouts.drop_last())
    } else {
        layouts_match(sections.drop_last(), name, layouts)
    }
}

impl PatternSource {
    /// Whether this is what a pattern holds whose own section has the
    /// lines `body` and to which the given sections belong.
    pub open spec fn is_pattern_of(
        &self,
        body: Seq<Seq<char>>,
        attached: Seq<(Seq<char>, Seq<Seq<char>>)>,
    ) -> bool {
        &&& self.header.is_header_of(body)
        &&& coord_views(self.coords@) == coord_entries(body)
        &&& infos_match(attached, self.piece_types@)
        &&& shapes_match(attached, self.shapes@)
        &&& layouts_match(attached, "Cuttings"@, self.cuttings@)
        &&& layouts_match(attached, "LowE"@, self.lowe@)
    }
}

/// Reads a pattern from the lines of its own section and from the sections
/// that belong to it.
pub fn read_pattern(body: &Vec<&str>, attached: &Vec<(String, Vec<&str>)>) -> (p: PatternSource)
    ensures
        p.is_pattern_of(texts(body@), named_body_texts(attached@)),
{
    let ghost all = named_body_texts(attached@);
    let header = parse_pattern_header(body.as_slice());
    let coords = parse_pattern_coordinates(body.as_slice());
    let mut piece_types: Vec<PieceType<String>> = Vec::new();
    let mut shapes: Vec<Shape<String>> = Vec::new();
    let mut cuttings: Vec<(Vec<Cut<String>>, Vec<Piece<String>>)> = Vec::new();
    let mut lowe: Vec<(Vec<Cut<String>>, Vec<Piece<String>>)> = Vec::new();
    let mut j: usize = 0;
    assert(all.take(0) =~= Seq::empty());
    while j < attached.len()
        invariant
            j <= attached.len(),
            all == named_body_texts(attached@),
            infos_match(all.take(j as int), piece_types@),
            shapes_match(all.take(j as int), shapes@),
            layouts_match(all.take(j as int), "Cuttings"@, cuttings@),
            layouts_match(all.take(j as int), "LowE"@, lowe@),
        decreases attached.len() - j,
    {
        proof {
            assert(all.take(j + 1).drop_last() =~= all.take(j as int));
            assert(all.take(j + 1).last() == (attached@[j as int].0@, texts(attached@[j as int].1@)));
            reveal_strlit("Info");
            reveal_strlit("Shape");
            reveal_strlit("Cuttings");
            reveal_strlit("LowE");
            assert("Info"@.len() == 4 && "Shape"@.len() == 5 && "Cuttings"@.len() == 8);
            assert("Info"@[0] == 'I' && "LowE"@[0] == 'L');
            assert("Info"@ != "LowE"@);
        }
        let name = attached[j].0.as_str();
        let lines = attached[j].1.as_slice();
        if str_equal(name, "Info") {
            match parse_info(lines) {
                Some(t) => {
                    let ghost before = piece_types@;
                    piece_types.push(t);
                    assert(piece_types@.drop_last() =~= before);
                },
                None => {},
            }
        } else if str_equal(name, "Shape") {
            match parse_shape(lines) {
                Some(s) => {
                    let ghost before = shapes@;
                    shapes.push(s);
                    assert(shapes@.drop_last() =~= before);
                },
                None => {},
            }
        } else if str_equal(name, "Cuttings") {
            let layout = parse_cuttings(lines);
            let ghost before = cuttings@;
            cuttings.push(layout);
            assert(cuttings@.drop_last() =~= before);
        } else if str_equal(name, "LowE") {
            let layout = parse_lowe(lines);
            let ghost before = lowe@;
            lowe.push(layout);
            assert(lowe@.drop_last() =~= before);
        }
        j += 1;
    }
    assert(all.take(attached.len() as int) =~= all);
    PatternSource { header, coords, piece_types, shapes, cuttings, lowe }
}

impl OtdParser {
    /// Whether `doc` is what the text holds: the header and the signature
    /// of its `[Header]` and `[Signature]` sections, the first of each,
    /// and one pattern for each `[Pattern]` section, in order.
    pub open spec fn holds(&self, doc: Document) -> bool {
        let patterns = named(self.sections(), "Pattern"@);
        &&& doc.header@ == match first_named(self.sections(), "Header"@) {
            Some(k) => header_of(body_of(self.lines(), self.sections()[k])),
            None => empty_header(),
        }
        &&& doc.signature.creator@ == match first_named(self.sections(), "Signature"@) {
            Some(k) => creator_of(body_of(self.lines(), self.sections()[k])),
            None => Seq::<char>::empty(),
        }
        &&& doc.patterns.len() == patterns.len()
        &&& forall|k: int|
            0 <= k < patterns.len() ==> (#[trigger] doc.patterns[k]).is_pattern_of(
                body_of(self.lines(), patterns[k]),
                named_bodies(self.lines(), attachments_of(self.sections(), k as nat)),
            )
    }

    /// Reads the text section by section. A text without a `[Pattern]`
    /// section is an error, and nothing else is.
    pub fn parse(&self) -> (r: Result<Document, ConvertError>)
        requires
            self.wf(),
        ensures
            match r {
                Ok(doc) => named(self.sections(), "Pattern"@).len() > 0 && self.holds(doc),
                Err(e) => named(self.sections(), "Pattern"@).len() == 0 && e
                    == ConvertError::NoPatternSection,
            },
    {
        if self.count_sections("Pattern") == 0 {
            return Err(ConvertError::NoPatternSection);
        }
        let header = match self.get_section_lines("Header") {
            Some(lines) => parse_header(lines.as_slice()),
            None => {
                let h = parse_header(Vec::<&str>::new().as_slice());
                proof {
                    assert(texts(Seq::<&str>::empty()) =~= Seq::empty());
                }
                h
            },
        };
        let signature = match self.get_section_lines("Signature") {
            Some(lines) => parse_signature(lines.as_slice()),
            None => {
                let s = parse_signature(Vec::<&str>::new().as_slice());
                proof {
                    assert(texts(Seq::<&str>::empty()) =~= Seq::empty());
                }
                s
            },
        };
        let pattern_bodies = self.get_all_sections("Pattern");
        let ghost wanted = named(self.sections(), "Pattern"@);
        assert(pattern_bodies.len() == wanted.len()) by {
            assert(body_texts(pattern_bodies@).len() == bodies(
                self.lines(),
                wanted,
            ).len());
        }
        let mut patterns: Vec<PatternSource> = Vec::new();
        let mut k: usize = 0;
        while k < pattern_bodies.len()
            invariant
                self.wf(),
                k <= pattern_bodies.len(),
                patterns.len() == k,
                wanted == named(self.sections(), "Pattern"@),
                pattern_bodies.len() == wanted.len(),
                body_texts(pattern_bodies@) == bodies(self.lines(), wanted),
                forall|i: int|
                    0 <= i < k ==> (#[trigger] patterns[i]).is_pattern_of(
                        body_of(self.lines(), wanted[i]),
                        named_bodies(self.lines(), attachments_of(self.sections(), i as nat)),
                    ),
            decreases pattern_bodies.len() - k,
        {
            let attached = self.get_sections_for_pattern(k);
            let pattern = read_pattern(&pattern_bodies[k], &attached);
            proof {
                assert(body_texts(pattern_bodies@)[k as int] == texts(
                    pattern_bodies@[k as int]@,
                ));
                assert(bodies(self.lines(), wanted)[k as int] == body_of(
                    self.lines(),
                    wanted[k as int],
                ));
            }
            patterns.push(pattern);
            k += 1;
        }
        Ok(Document { header, signature, patterns })
    }
}

} // verus!
