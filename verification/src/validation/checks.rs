//! Validation of schemas.
//!
//! What rests on comparing measures reaches the validation as findings:
//! whether a size is positive, whether a piece lies within the sheet. The
//! validation adds what rests on the structure of the schema, and words
//! the messages. Measures are shown as the text they are given in.

use crate::error::ConvertError;
use crate::model::schema::{shape_position, piece_type_position, Schema};
use crate::number::{dec_digits, dec_signed, push_i64, push_u64};
use crate::validation::validate::{message_texts, ValidationResult};
use vstd::prelude::*;
use vstd::string::StringExecFns;

verus! {

/// What comparing measures finds of a piece.
#[derive(Debug, Clone, Copy)]
pub struct PieceFindings {
    /// Width or height is not positive.
    pub bad_size: bool,
    /// The piece reaches beyond the sheet.
    pub outside: bool,
}

/// What comparing measures finds of a shape.
#[derive(Debug, Clone)]
pub struct ShapeFindings {
    /// The contour ends where it starts.
    pub closed: bool,
    /// For each segment, the length of its chord where its radius is too
    /// small to span it.
    pub short_arcs: Vec<Option<String>>,
}

/// What comparing measures finds of a schema.
#[derive(Debug, Clone)]
pub struct SchemaFindings {
    /// Width or height of the sheet is not positive.
    pub bad_sheet: bool,
    /// The thickness is not positive.
    pub no_thickness: bool,
    /// The findings of each piece.
    pub pieces: Vec<PieceFindings>,
    /// The findings of each shape.
    pub shapes: Vec<ShapeFindings>,
    /// The ids of the shapes that are used on pieces of different sizes.
    pub mismatched: Vec<i32>,
}

/// How messages about schema number `n` begin.
pub open spec fn about_schema(n: nat) -> Seq<char> {
    "Schema "@ + dec_digits(n)
}

/// How messages about piece `i` of schema number `n` begin. Pieces are
/// counted from one.
pub open spec fn about_piece(n: nat, i: int) -> Seq<char> {
    about_schema(n) + ", Piece "@ + dec_digits((i + 1) as nat)
}

/// How messages about the shape with id `id` of schema number `n` begin.
pub open spec fn about_shape(n: nat, id: i32) -> Seq<char> {
    about_schema(n) + ", Shape "@ + dec_signed(id as int)
}

/// A size as it is shown: width, `x`, height, in brackets.
pub open spec fn shown_size(width: Seq<char>, height: Seq<char>) -> Seq<char> {
    "("@ + width + "x"@ + height + ")"@
}

/// Whether the findings say that piece `i` has a bad size.
pub open spec fn piece_bad_size(found: SchemaFindings, i: int) -> bool {
    i < found.pieces.len() && found.pieces[i].bad_size
}

/// Whether the findings say that piece `i` lies outside the sheet.
pub open spec fn piece_outside(found: SchemaFindings, i: int) -> bool {
    i < found.pieces.len() && found.pieces[i].outside
}

/// The errors of piece `i`: a size that is not positive, a shape that is
/// named and not there, an info that is named and not there.
pub open spec fn piece_errors(
    schema: Schema<String>,
    found: SchemaFindings,
    n: nat,
    i: int,
) -> Seq<Seq<char>> {
    let piece = schema.pieces[i];
    (if piece_bad_size(found, i) {
        seq![
            about_piece(n, i) + ": Invalid dimensions "@ + shown_size(piece.width@, piece.height@),
        ]
    } else {
        Seq::<Seq<char>>::empty()
    }) + (if piece.shape_id is Some && shape_position(schema.shapes@, piece.shape_id->0) is None {
        seq![
            about_piece(n, i) + ": Shape "@ + dec_signed(piece.shape_id->0 as int) + " not found"@,
        ]
    } else {
        Seq::<Seq<char>>::empty()
    }) + (if piece.info_id is Some && piece_type_position(schema.piece_types@, piece.info_id->0)
        is None {
        seq![about_piece(n, i) + ": Info "@ + dec_signed(piece.info_id->0 as int) + " not found"@]
    } else {
        Seq::<Seq<char>>::empty()
    })
}

/// The warnings of piece `i`: that it reaches beyond the sheet.
pub open spec fn piece_warnings(found: SchemaFindings, n: nat, i: int) -> Seq<Seq<char>> {
    if piece_outside(found, i) {
        seq![about_piece(n, i) + ": Extends beyond sheet bounds"@]
    } else {
        Seq::empty()
    }
}

/// The errors of the first `count` pieces.
pub open spec fn pieces_errors(
    schema: Schema<String>,
    found: SchemaFindings,
    n: nat,
    count: int,
) -> Seq<Seq<char>>
    decreases count,
{
    if count <= 0 {
        Seq::empty()
    } else {
        pieces_errors(schema, found, n, count - 1) + piece_errors(schema, found, n, count - 1)
    }
}

/// The warnings of the first `count` pieces.
pub open spec fn pieces_warnings(found: SchemaFindings, n: nat, count: int) -> Seq<Seq<char>>
    decreases count,
{
    if count <= 0 {
        Seq::empty()
    } else {
        pieces_warnings(found, n, count - 1) + piece_warnings(found, n, count - 1)
    }
}

/// The chord of segment `c` of shape `k` where the findings say that its
/// radius is too small.
pub open spec fn short_arc(found: SchemaFindings, k: int, c: int) -> Option<Seq<char>> {
    if k < found.shapes.len() && c < found.shapes[k].short_arcs.len()
        && found.shapes[k].short_arcs[c] is Some {
        Some(found.shapes[k].short_arcs[c]->0@)
    } else {
        None
    }
}

/// The error of segment `c` of shape `k`: an arc whose radius is too small
/// for its chord.
pub open spec fn arc_errors(
    schema: Schema<String>,
    found: SchemaFindings,
    n: nat,
    k: int,
    c: int,
) -> Seq<Seq<char>> {
    let shape = schema.shapes[k];
    let cut = shape.cuts[c];
    if cut.cut_type != crate::model::cut::CutType::Line && short_arc(found, k, c) is Some {
        seq![
            about_shape(n, shape.id) + ", Cut "@ + dec_digits((c + 1) as nat) + ": Arc radius "@
                + cut.radius@ + " is too small for chord length "@ + short_arc(found, k, c)->0,
        ]
    } else {
        Seq::empty()
    }
}

/// The errors of the first `count` segments of shape `k`.
pub open spec fn shape_errors(
    schema: Schema<String>,
    found: SchemaFindings,
    n: nat,
    k: int,
    count: int,
) -> Seq<Seq<char>>
    decreases count,
{
    if count <= 0 {
        Seq::empty()
    } else {
        shape_errors(schema, found, n, k, count - 1) + arc_errors(schema, found, n, k, count - 1)
    }
}

/// Whether the findings say that shape `k` is closed.
pub open spec fn shape_closed(found: SchemaFindings, k: int) -> bool {
    k < found.shapes.len() && found.shapes[k].closed
}

/// The warnings of shape `k`: that it has no segment, and that it is
/// neither closed nor marked as open.
pub open spec fn shape_warnings(
    schema: Schema<String>,
    found: SchemaFindings,
    n: nat,
    k: int,
) -> Seq<Seq<char>> {
    let shape = schema.shapes[k];
    (if shape.cuts.len() == 0 {
        seq![about_shape(n, shape.id) + ": No cuts defined"@]
    } else {
        Seq::<Seq<char>>::empty()
    }) + (if !shape.is_open && !shape_closed(found, k) {
        seq![about_shape(n, shape.id) + ": Shape is not closed"@]
    } else {
        Seq::<Seq<char>>::empty()
    })
}

/// The errors of the first `count` shapes.
pub open spec fn shapes_errors(
    schema: Schema<String>,
    found: SchemaFindings,
    n: nat,
    count: int,
) -> Seq<Seq<char>>
    decreases count,
{
    if count <= 0 {
        Seq::empty()
    } else {
        shapes_errors(schema, found, n, count - 1) + shape_errors(
            schema,
            found,
            n,
            count - 1,
            schema.shapes[count - 1].cuts.len() as int,
        )
    }
}

/// The warnings of the first `count` shapes.
pub open spec fn shapes_warnings(
    schema: Schema<String>,
    found: SchemaFindings,
    n: nat,
    count: int,
) -> Seq<Seq<char>>
    decreases count,
{
    if count <= 0 {
        Seq::empty()
    } else {
        shapes_warnings(schema, found, n, count - 1) + shape_warnings(schema, found, n, count - 1)
    }
}

/// The errors of the first `count` shapes that are used on pieces of
/// different sizes.
pub open spec fn mismatch_errors(found: SchemaFindings, n: nat, count: int) -> Seq<Seq<char>>
    decreases count,
{
    if count <= 0 {
        Seq::empty()
    } else {
        mismatch_errors(found, n, count - 1).push(
            about_schema(n) + ": Shape "@ + dec_signed(found.mismatched[count - 1] as int)
                + " is used on pieces of different sizes"@,
        )
    }
}

/// The errors of schema number `n`: a sheet without size, then the errors
/// of the pieces, of the shapes, and of the shapes used on pieces of
/// different sizes.
pub open spec fn schema_errors(
    schema: Schema<String>,
    found: SchemaFindings,
    n: nat,
) -> Seq<Seq<char>> {
    (if found.bad_sheet {
        seq![
            about_schema(n) + ": Invalid sheet dimensions "@ + shown_size(
                schema.width@,
                schema.height@,
            ),
        ]
    } else {
        Seq::<Seq<char>>::empty()
    }) + pieces_errors(schema, found, n, schema.pieces.len() as int) + shapes_errors(
        schema,
        found,
        n,
        schema.shapes.len() as int,
    ) + mismatch_errors(found, n, found.mismatched.len() as int)
}

/// The warnings of schema number `n`: a sheet without thickness, then the
/// warnings of the pieces and of the shapes, and that the schema has
/// neither a linear cut nor a shape.
pub open spec fn schema_warnings(
    schema: Schema<String>,
    found: SchemaFindings,
    n: nat,
) -> Seq<Seq<char>> {
    (if found.no_thickness {
        seq![about_schema(n) + ": Missing or zero thickness"@]
    } else {
        Seq::<Seq<char>>::empty()
    }) + pieces_warnings(found, n, schema.pieces.len() as int) + shapes_warnings(
        schema,
        found,
        n,
        schema.shapes.len() as int,
    ) + (if schema.linear_cuts.len() == 0 && schema.shapes.len() == 0 {
        seq![about_schema(n) + ": No cuts or shapes defined"@]
    } else {
        Seq::<Seq<char>>::empty()
    })
}

/// How messages about schema number `n` begin.
fn schema_prefix(n: usize) -> (s: String)
    ensures
        s@ == about_schema(n as nat),
{
    let mut s = String::from_str("Schema ");
    push_u64(&mut s, n as u64);
    s
}

/// How messages about piece `i` of schema number `n` begin.
fn piece_prefix(n: usize, i: usize) -> (s: String)
    requires
        i < usize::MAX,
    ensures
        s@ == about_piece(n as nat, i as int),
{
    let mut s = schema_prefix(n);
    s.append(", Piece ");
    push_u64(&mut s, (i + 1) as u64);
    s
}

/// How messages about the shape with id `id` of schema number `n` begin.
fn shape_prefix(n: usize, id: i32) -> (s: String)
    ensures
        s@ == about_shape(n as nat, id),
{
    let mut s = schema_prefix(n);
    s.append(", Shape ");
    push_i64(&mut s, id as i64);
    s
}

/// Checks the pieces of a schema.
fn validate_pieces(
    result: &mut ValidationResult,
    schema: &Schema<String>,
    found: &SchemaFindings,
    n: usize,
)
    ensures
        final(result).error_texts() == old(result).error_texts() + pieces_errors(
            *schema,
            *found,
            n as nat,
            schema.pieces.len() as int,
        ),
        final(result).warning_texts() == old(result).warning_texts() + pieces_warnings(
            *found,
            n as nat,
            schema.pieces.len() as int,
        ),
        final(result).passed == (old(result).passed && pieces_errors(
            *schema,
            *found,
            n as nat,
            schema.pieces.len() as int,
        ).len() == 0),
{
    let ghost errors = result.error_texts();
    let ghost warnings = result.warning_texts();
    let mut i: usize = 0;
    assert(errors + pieces_errors(*schema, *found, n as nat, 0) =~= errors);
    assert(warnings + pieces_warnings(*found, n as nat, 0) =~= warnings);
    while i < schema.pieces.len()
        invariant
            i <= schema.pieces.len(),
            result.error_texts() == errors + pieces_errors(*schema, *found, n as nat, i as int),
            result.warning_texts() == warnings + pieces_warnings(*found, n as nat, i as int),
            result.passed == (old(result).passed && pieces_errors(
                *schema,
                *found,
                n as nat,
                i as int,
            ).len() == 0),
        decreases schema.pieces.len() - i,
    {
        let piece = &schema.pieces[i];
        let ghost e0 = result.error_texts();
        let ghost w0 = result.warning_texts();
        if i < found.pieces.len() && found.pieces[i].bad_size {
            let mut m = piece_prefix(n, i);
            m.append(": Invalid dimensions ");
            m.append("(");
            m.append(piece.width.as_str());
            m.append("x");
            m.append(piece.height.as_str());
            m.append(")");
            assert(m@ =~= about_piece(n as nat, i as int) + ": Invalid dimensions "@ + shown_size(
                piece.width@,
                piece.height@,
            ));
            result.add_error(m.as_str());
        }
        if i < found.pieces.len() && found.pieces[i].outside {
            let mut m = piece_prefix(n, i);
            m.append(": Extends beyond sheet bounds");
            result.add_warning(m.as_str());
        }
        match piece.shape_id {
            Some(id) => {
                if schema.find_shape(id).is_none() {
                    let mut m = piece_prefix(n, i);
                    m.append(": Shape ");
                    push_i64(&mut m, id as i64);
                    m.append(" not found");
                    result.add_error(m.as_str());
                }
            },
            None => {},
        }
        match piece.info_id {
            Some(id) => {
                if schema.find_piece_type(id).is_none() {
                    let mut m = piece_prefix(n, i);
                    m.append(": Info ");
                    push_i64(&mut m, id as i64);
                    m.append(" not found");
                    result.add_error(m.as_str());
                }
            },
            None => {},
        }
        proof {
            assert(result.error_texts() =~= e0 + piece_errors(*schema, *found, n as nat, i as int));
            assert(result.warning_texts() =~= w0 + piece_warnings(*found, n as nat, i as int));
            assert(errors + pieces_errors(*schema, *found, n as nat, i as int) + piece_errors(
                *schema,
                *found,
                n as nat,
                i as int,
            ) =~= errors + pieces_errors(*schema, *found, n as nat, i + 1));
            assert(warnings + pieces_warnings(*found, n as nat, i as int) + piece_warnings(
                *found,
                n as nat,
                i as int,
            ) =~= warnings + pieces_warnings(*found, n as nat, i + 1));
        }
        i += 1;
    }
}

/// Checks the segments of shape `k`.
fn validate_arcs(
    result: &mut ValidationResult,
    schema: &Schema<String>,
    found: &SchemaFindings,
    n: usize,
    k: usize,
)
    requires
        k < schema.shapes.len(),
    ensures
        final(result).error_texts() == old(result).error_texts() + shape_errors(
            *schema,
            *found,
            n as nat,
            k as int,
            schema.shapes[k as int].cuts.len() as int,
        ),
        final(result).warnings == old(result).warnings,
        final(result).passed == (old(result).passed && shape_errors(
            *schema,
            *found,
            n as nat,
            k as int,
            schema.shapes[k as int].cuts.len() as int,
        ).len() == 0),
{
    let shape = &schema.shapes[k];
    let ghost errors = result.error_texts();
    let mut c: usize = 0;
    assert(errors + shape_errors(*schema, *found, n as nat, k as int, 0) =~= errors);
    while c < shape.cuts.len()
        invariant
            c <= shape.cuts.len(),
            k < schema.shapes.len(),
            *shape == schema.shapes[k as int],
            result.warnings == old(result).warnings,
            result.error_texts() == errors + shape_errors(
                *schema,
                *found,
                n as nat,
                k as int,
                c as int,
            ),
            result.passed == (old(result).passed && shape_errors(
                *schema,
                *found,
                n as nat,
                k as int,
                c as int,
            ).len() == 0),
        decreases shape.cuts.len() - c,
    {
        let cut = &shape.cuts[c];
        let ghost e0 = result.error_texts();
        if cut.is_arc() && k < found.shapes.len() && c < found.shapes[k].short_arcs.len() {
            match &found.shapes[k].short_arcs[c] {
                Some(chord) => {
                    let mut m = shape_prefix(n, shape.id);
                    m.append(", Cut ");
                    push_u64(&mut m, (c + 1) as u64);
                    m.append(": Arc radius ");
                    m.append(cut.radius.as_str());
                    m.append(" is too small for chord length ");
                    m.append(chord.as_str());
                    result.add_error(m.as_str());
                },
                None => {},
            }
        }
        proof {
            assert(result.error_texts() =~= e0 + arc_errors(
                *schema,
                *found,
                n as nat,
                k as int,
                c as int,
            ));
            assert(errors + shape_errors(*schema, *found, n as nat, k as int, c as int)
                + arc_errors(*schema, *found, n as nat, k as int, c as int) =~= errors
                + shape_errors(*schema, *found, n as nat, k as int, c + 1));
        }
        c += 1;
    }
}

/// Checks the shapes of a schema.
fn validate_shapes(
    result: &mut ValidationResult,
    schema: &Schema<String>,
    found: &SchemaFindings,
    n: usize,
)
    ensures
        final(result).error_texts() == old(result).error_texts() + shapes_errors(
            *schema,
            *found,
            n as nat,
            schema.shapes.len() as int,
        ),
        final(result).warning_texts() == old(result).warning_texts() + shapes_warnings(
            *schema,
            *found,
            n as nat,
            schema.shapes.len() as int,
        ),
        final(result).passed == (old(result).passed && shapes_errors(
            *schema,
            *found,
            n as nat,
            schema.shapes.len() as int,
        ).len() == 0),
{
    let ghost errors = result.error_texts();
    let ghost warnings = result.warning_texts();
    let mut k: usize = 0;
    assert(errors + shapes_errors(*schema, *found, n as nat, 0) =~= errors);
    assert(warnings + shapes_warnings(*schema, *found, n as nat, 0) =~= warnings);
    while k < schema.shapes.len()
        invariant
            k <= schema.shapes.len(),
            result.error_texts() == errors + shapes_errors(*schema, *found, n as nat, k as int),
            result.warning_texts() == warnings + shapes_warnings(
                *schema,
                *found,
                n as nat,
                k as int,
            ),
            result.passed == (old(result).passed && shapes_errors(
                *schema,
                *found,
                n as nat,
                k as int,
            ).len() == 0),
        decreases schema.shapes.len() - k,
    {
        let shape = &schema.shapes[k];
        let ghost e0 = result.error_texts();
        let ghost w0 = result.warning_texts();
        if shape.cuts.len() == 0 {
            let mut m = shape_prefix(n, shape.id);
            m.append(": No cuts defined");
            result.add_warning(m.as_str());
        }
        if !shape.is_open && !(k < found.shapes.len() && found.shapes[k].closed) {
            let mut m = shape_prefix(n, shape.id);
            m.append(": Shape is not closed");
            result.add_warning(m.as_str());
        }
        let ghost w1 = result.warning_texts();
        validate_arcs(result, schema, found, n, k);
        proof {
            assert(result.warning_texts() == w1);
            assert(w1 =~= w0 + shape_warnings(*schema, *found, n as nat, k as int));
            assert(errors + shapes_errors(*schema, *found, n as nat, k as int) + shape_errors(
                *schema,
                *found,
                n as nat,
                k as int,
                schema.shapes[k as int].cuts.len() as int,
            ) =~= errors + shapes_errors(*schema, *found, n as nat, k + 1));
            assert(warnings + shapes_warnings(*schema, *found, n as nat, k as int)
                + shape_warnings(*schema, *found, n as nat, k as int) =~= warnings
                + shapes_warnings(*schema, *found, n as nat, k + 1));
        }
        k += 1;
    }
}

/// Reports the shapes that are used on pieces of different sizes.
fn validate_mismatches(result: &mut ValidationResult, found: &SchemaFindings, n: usize)
    ensures
        final(result).error_texts() == old(result).error_texts() + mismatch_errors(
            *found,
            n as nat,
            found.mismatched.len() as int,
        ),
        final(result).warnings == old(result).warnings,
        final(result).passed == (old(result).passed && found.mismatched.len() == 0),
{
    let ghost errors = result.error_texts();
    let mut k: usize = 0;
    assert(errors + mismatch_errors(*found, n as nat, 0) =~= errors);
    while k < found.mismatched.len()
        invariant
            k <= found.mismatched.len(),
            result.warnings == old(result).warnings,
            result.error_texts() == errors + mismatch_errors(*found, n as nat, k as int),
            result.passed == (old(result).passed && k == 0),
        decreases found.mismatched.len() - k,
    {
        let mut m = schema_prefix(n);
        m.append(": Shape ");
        push_i64(&mut m, found.mismatched[k] as i64);
        m.append(" is used on pieces of different sizes");
        result.add_error(m.as_str());
        assert(result.error_texts() =~= errors + mismatch_errors(*found, n as nat, k + 1));
        k += 1;
    }
}

/// Validates schema number `schema_num`: the findings on its measures,
/// and what its structure shows. Errors and warnings come each in the
/// order of the checks: the sheet, the pieces, the shapes, the schema as
/// a whole. The result has passed just if there is no error.
pub fn validate_schema(
    schema: &Schema<String>,
    found: &SchemaFindings,
    schema_num: usize,
) -> (result: ValidationResult)
    ensures
        result.error_texts() == schema_errors(*schema, *found, schema_num as nat),
        result.warning_texts() == schema_warnings(*schema, *found, schema_num as nat),
        result.wf(),
{
    let mut result = ValidationResult::ok();
    assert(result.error_texts() =~= Seq::empty());
    assert(result.warning_texts() =~= Seq::empty());
    if found.bad_sheet {
        let mut m = schema_prefix(schema_num);
        m.append(": Invalid sheet dimensions ");
        m.append("(");
        m.append(schema.width.as_str());
        m.append("x");
        m.append(schema.height.as_str());
        m.append(")");
        assert(m@ =~= about_schema(schema_num as nat) + ": Invalid sheet dimensions "@
            + shown_size(schema.width@, schema.height@));
        result.add_error(m.as_str());
    }
    if found.no_thickness {
        let mut m = schema_prefix(schema_num);
        m.append(": Missing or zero thickness");
        result.add_warning(m.as_str());
    }
    let ghost e0 = result.error_texts();
    let ghost w0 = result.warning_texts();
    validate_pieces(&mut result, schema, found, schema_num);
    validate_shapes(&mut result, schema, found, schema_num);
    let ghost w1 = result.warning_texts();
    validate_mismatches(&mut result, found, schema_num);
    assert(result.warning_texts() == w1);
    if schema.linear_cuts.len() == 0 && schema.shapes.len() == 0 {
        let mut m = schema_prefix(schema_num);
        m.append(": No cuts or shapes defined");
        result.add_warning(m.as_str());
    }
    assert(result.error_texts() =~= schema_errors(*schema, *found, schema_num as nat));
    assert(result.warning_texts() =~= schema_warnings(*schema, *found, schema_num as nat));
    result
}

/// Whether the schema has anything to cut: an active linear cut, or a
/// shape with a segment.
pub open spec fn has_cuts<N>(schema: Schema<N>) -> bool {
    ||| exists|i: int| 0 <= i < schema.linear_cuts.len() && (#[trigger] schema.linear_cuts[i]).active
    ||| exists|k: int| 0 <= k < schema.shapes.len() && (#[trigger] schema.shapes[k]).cuts.len() > 0
}

/// Whether the schema has anything to cut.
pub fn validate_has_cuts<N>(schema: &Schema<N>) -> (r: bool)
    ensures
        r == has_cuts(*schema),
{
    let mut i: usize = 0;
    while i < schema.linear_cuts.len()
        invariant
            i <= schema.linear_cuts.len(),
            forall|j: int| 0 <= j < i ==> !(#[trigger] schema.linear_cuts[j]).active,
        decreases schema.linear_cuts.len() - i,
    {
        if schema.linear_cuts[i].active {
            return true;
        }
        i += 1;
    }
    let mut k: usize = 0;
    while k < schema.shapes.len()
        invariant
            k <= schema.shapes.len(),
            forall|j: int|
                0 <= j < schema.linear_cuts.len() ==> !(#[trigger] schema.linear_cuts[j]).active,
            forall|j: int| 0 <= j < k ==> (#[trigger] schema.shapes[j]).cuts.len() == 0,
        decreases schema.shapes.len() - k,
    {
        if schema.shapes[k].cuts.len() > 0 {
            return true;
        }
        k += 1;
    }
    false
}

/// The errors of the first `count` schemas. Schemas are numbered from
/// one.
pub open spec fn all_errors(
    schemas: Seq<Schema<String>>,
    found: Seq<SchemaFindings>,
    count: int,
) -> Seq<Seq<char>>
    decreases count,
{
    if count <= 0 {
        Seq::empty()
    } else {
        all_errors(schemas, found, count - 1) + schema_errors(
            schemas[count - 1],
            found[count - 1],
            count as nat,
        )
    }
}

/// The warnings of the first `count` schemas.
pub open spec fn all_warnings(
    schemas: Seq<Schema<String>>,
    found: Seq<SchemaFindings>,
    count: int,
) -> Seq<Seq<char>>
    decreases count,
{
    if count <= 0 {
        Seq::empty()
    } else {
        all_warnings(schemas, found, count - 1) + schema_warnings(
            schemas[count - 1],
            found[count - 1],
            count as nat,
        )
    }
}

/// Validates all schemas, each with its findings. No schema at all is an
/// error; whatever is found in a schema is reported in the result.
pub fn validate_schemas(
    schemas: &[Schema<String>],
    found: &[SchemaFindings],
) -> (r: Result<ValidationResult, ConvertError>)
    requires
        found.len() == schemas.len(),
    ensures
        match r {
            Ok(result) => {
                &&& schemas.len() > 0
                &&& result.error_texts() == all_errors(schemas@, found@, schemas.len() as int)
                &&& result.warning_texts() == all_warnings(schemas@, found@, schemas.len() as int)
                &&& result.wf()
            },
            Err(e) => schemas.len() == 0 && e == ConvertError::NoPatternSection,
        },
{
    if schemas.len() == 0 {
        return Err(ConvertError::NoPatternSection);
    }
    let mut result = ValidationResult::ok();
    let mut k: usize = 0;
    assert(result.error_texts() =~= all_errors(schemas@, found@, 0));
    assert(result.warning_texts() =~= all_warnings(schemas@, found@, 0));
    while k < schemas.len()
        invariant
            k <= schemas.len(),
            found.len() == schemas.len(),
            result.wf(),
            result.error_texts() == all_errors(schemas@, found@, k as int),
            result.warning_texts() == all_warnings(schemas@, found@, k as int),
        decreases schemas.len() - k,
    {
        let one = validate_schema(&schemas[k], &found[k], k + 1);
        let ghost e0 = result.errors@;
        let ghost w0 = result.warnings@;
        result.merge(one);
        proof {
            assert(message_texts(e0 + one.errors@) =~= message_texts(e0) + message_texts(
                one.errors@,
            ));
            assert(message_texts(w0 + one.warnings@) =~= message_texts(w0) + message_texts(
                one.warnings@,
            ));
        }
        k += 1;
    }
    Ok(result)
}

/// `messages`, one after the other, a semicolon and a blank between each
/// two.
pub open spec fn joined_messages(messages: Seq<Seq<char>>) -> Seq<char>
    decreases messages.len(),
{
    if messages.len() == 0 {
        Seq::empty()
    } else if messages.len() == 1 {
        messages[0]
    } else {
        joined_messages(messages.drop_last()) + "; "@ + messages.last()
    }
}

/// `messages`, one after the other, a semicolon and a blank between each
/// two.
pub fn join_messages(messages: &Vec<String>) -> (s: String)
    ensures
        s@ == joined_messages(message_texts(messages@)),
{
    let ghost all = message_texts(messages@);
    let mut s = String::new();
    let mut i: usize = 0;
    assert(all.take(0) =~= Seq::empty());
    while i < messages.len()
        invariant
            i <= messages.len(),
            all == message_texts(messages@),
            s@ == joined_messages(all.take(i as int)),
        decreases messages.len() - i,
    {
        proof {
            assert(all.take(i + 1).drop_last() =~= all.take(i as int));
            assert(all.take(i + 1).last() == messages@[i as int]@);
            if i == 0 {
                assert(all.take(1)[0] == messages@[0]@);
            }
        }
        if i > 0 {
            s.append("; ");
        }
        s.append(messages[i].as_str());
        assert(s@ =~= joined_messages(all.take(i + 1)));
        i += 1;
    }
    assert(all.take(messages.len() as int) =~= all);
    s
}

/// Validates all schemas and makes an error of what is found: no schema
/// at all, or the errors of the schemas, joined into one message.
pub fn quick_validate(
    schemas: &[Schema<String>],
    found: &[SchemaFindings],
) -> (r: Result<(), ConvertError>)
    requires
        found.len() == schemas.len(),
    ensures
        match r {
            Ok(_) => schemas.len() > 0 && all_errors(schemas@, found@, schemas.len() as int).len()
                == 0,
            Err(e) => if schemas.len() == 0 {
                e == ConvertError::NoPatternSection
            } else {
                &&& all_errors(schemas@, found@, schemas.len() as int).len() > 0
                &&& e is ParseError
                &&& e->ParseError_line == 0
                &&& e->ParseError_message@ == joined_messages(
                    all_errors(schemas@, found@, schemas.len() as int),
                )
            },
        },
{
    match validate_schemas(schemas, found) {
        Ok(result) => {
            if result.passed {
                Ok(())
            } else {
                Err(ConvertError::ParseError { line: 0, message: join_messages(&result.errors) })
            }
        },
        Err(e) => Err(e),
    }
}

} // verus!
