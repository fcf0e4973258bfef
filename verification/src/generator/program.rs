//! The contour program: the numbered G-code lines of all schemas.
//!
//! A program is a list of lines, some numbered, some not. Numbered lines
//! count up in steps of ten from the number of the first. The measures of
//! the layout reach the generator formatted, as text.

use crate::config::{DEFAULT_LINEAR_TOOL, DEFAULT_SHAPED_TOOL};
use crate::generator::gcode::{
    arc_content, arc_text, int_param_content, joined, move_content, move_text, numbered_line,
    param_content, param_text, raw_line, tool_code_text, tool_content, GcodeWriter, LINE_STEP,
};
use crate::config::TOOL_TYPE_SHAPED;
use crate::model::cut::{Cut, CutType, LineType};
use crate::model::schema::Schema;
use crate::model::shape::Shape;
use crate::number::{dec_digits, dec_signed, pad_left, push_u64, push_u64_padded, u64_to_string};
use vstd::string::StringExecFns;
use vstd::prelude::*;

verus! {

/// One line of a program.
pub enum ProgramLine {
    /// A line that takes the next line number.
    Numbered(Seq<char>),
    /// A line without a number: a comment, a label, a blank line.
    Plain(Seq<char>),
}

/// How many of `lines` are numbered.
pub open spec fn numbered_count(lines: Seq<ProgramLine>) -> nat
    decreases lines.len(),
{
    if lines.len() == 0 {
        0
    } else {
        numbered_count(lines.drop_last()) + match lines.last() {
            ProgramLine::Numbered(_) => 1nat,
            ProgramLine::Plain(_) => 0nat,
        }
    }
}

/// The text of `lines` where the first numbered line has number `first`.
pub open spec fn render(lines: Seq<ProgramLine>, first: int) -> Seq<char>
    decreases lines.len(),
{
    if lines.len() == 0 {
        Seq::empty()
    } else {
        let before = lines.drop_last();
        render(before, first) + match lines.last() {
            ProgramLine::Numbered(content) => numbered_line(
                (first + LINE_STEP * numbered_count(before)) as u32,
                content,
            ),
            ProgramLine::Plain(content) => raw_line(content),
        }
    }
}

/// Whether a program of `count` numbered lines that starts at number
/// `first` stays within the line numbers there are.
pub open spec fn fits(first: int, count: nat) -> bool {
    first + LINE_STEP * count <= u32::MAX
}

/// A numbered line.
pub open spec fn numbered(content: Seq<char>) -> ProgramLine {
    ProgramLine::Numbered(content)
}

/// A line without a number.
pub open spec fn plain(content: Seq<char>) -> ProgramLine {
    ProgramLine::Plain(content)
}

/// The call of macro `name`.
pub open spec fn macro_call(name: Seq<char>) -> ProgramLine {
    numbered("L="@ + name)
}

/// A program under construction. It keeps writing while line numbers
/// last; once they are used up it only counts.
pub struct Program {
    writer: GcodeWriter,
    exhausted: bool,
    log: Ghost<Seq<ProgramLine>>,
    first: Ghost<int>,
}

impl Program {
    /// The lines of the program so far.
    pub closed spec fn lines(&self) -> Seq<ProgramLine> {
        self.log@
    }

    /// The number of the first numbered line.
    pub closed spec fn first_line(&self) -> int {
        self.first@
    }

    /// The program is consistent: what is written is the text of its
    /// lines, unless the line numbers did not last.
    pub closed spec fn wf(&self) -> bool {
        &&& 0 <= self.first@ <= u32::MAX
        &&& self.exhausted == !fits(self.first@, numbered_count(self.log@))
        &&& !self.exhausted ==> self.writer.text() == render(self.log@, self.first@)
            && self.writer.line() == self.first@ + LINE_STEP * numbered_count(self.log@)
    }

    /// A program without lines, whose first numbered line will have number
    /// `first`.
    pub fn new(first: u32) -> (p: Program)
        ensures
            p.wf(),
            p.lines() == Seq::<ProgramLine>::empty(),
            p.first_line() == first,
    {
        Program {
            writer: GcodeWriter::with_start(first),
            exhausted: false,
            log: Ghost(Seq::empty()),
            first: Ghost(first as int),
        }
    }

    /// Adds a numbered line.
    pub fn numbered(&mut self, content: &str)
        requires
            old(self).wf(),
        ensures
            final(self).wf(),
            final(self).lines() == old(self).lines().push(numbered(content@)),
            final(self).first_line() == old(self).first_line(),
    {
        proof {
            assert(self.log@.push(numbered(content@)).drop_last() =~= self.log@);
        }
        if !self.exhausted && self.writer.has_room(1) {
            self.writer.write_line(content);
        } else {
            self.exhausted = true;
        }
        self.log = Ghost(self.log@.push(numbered(content@)));
    }

    /// Adds a line without a number.
    pub fn plain(&mut self, content: &str)
        requires
            old(self).wf(),
        ensures
            final(self).wf(),
            final(self).lines() == old(self).lines().push(plain(content@)),
            final(self).first_line() == old(self).first_line(),
    {
        proof {
            assert(self.log@.push(plain(content@)).drop_last() =~= self.log@);
        }
        self.writer.write_raw(content);
        self.log = Ghost(self.log@.push(plain(content@)));
    }

    /// Adds the call of macro `name`.
    pub fn call(&mut self, name: &str)
        requires
            old(self).wf(),
        ensures
            final(self).wf(),
            final(self).lines() == old(self).lines().push(macro_call(name@)),
            final(self).first_line() == old(self).first_line(),
    {
        let content = joined("L=", name);
        self.numbered(content.as_str());
    }

    /// The text of the program; none where the line numbers did not last.
    pub fn finish(self) -> (r: Option<String>)
        requires
            self.wf(),
        ensures
            match r {
                Some(text) => fits(self.first_line(), numbered_count(self.lines())) && text@
                    == render(self.lines(), self.first_line()),
                None => !fits(self.first_line(), numbered_count(self.lines())),
            },
    {
        if self.exhausted {
            None
        } else {
            Some(self.writer.take_output())
        }
    }
}

// ---------------------------------------------------------------------------
// Linear cuts
// ---------------------------------------------------------------------------

/// The rotary axis defers to the rotation parameter.
pub open spec fn axis_parameter() -> Option<Seq<char>> {
    Some("P540"@)
}

/// The lines that make one linear cut: none for a cut that is not active.
/// The tool is turned, 90 degrees for a vertical cut and 0 for any other,
/// moved to the start of the cut, lowered, drawn to its end and lifted.
pub open spec fn linear_cut_lines(cut: Cut<String>) -> Seq<ProgramLine> {
    if !cut.active {
        Seq::empty()
    } else if cut.line_type == LineType::Vertical {
        seq![
            numbered("P539="@ + "90"@),
            macro_call("PROT_B"@),
            numbered(move_text("G00"@, cut.xi@, cut.yi@, axis_parameter())),
            numbered("M=533"@),
            macro_call("PT_GIU"@),
            numbered(move_text("G01"@, cut.xf@, cut.yf@, axis_parameter())),
            macro_call("PT_SU"@),
        ]
    } else {
        seq![
            numbered("P539="@ + "0"@),
            macro_call("PROT_B"@),
            numbered(move_text("G00"@, cut.xi@, cut.yi@, axis_parameter())),
            numbered("M=532"@),
            macro_call("PT_GIU"@),
            numbered(move_text("G01"@, cut.xf@, cut.yf@, axis_parameter())),
            macro_call("PT_SU"@),
        ]
    }
}

/// The lines that make `cuts`, one after the other.
pub open spec fn linear_cuts_lines(cuts: Seq<Cut<String>>) -> Seq<ProgramLine>
    decreases cuts.len(),
{
    if cuts.len() == 0 {
        Seq::empty()
    } else {
        linear_cuts_lines(cuts.drop_last()) + linear_cut_lines(cuts.last())
    }
}

/// The block of linear cuts: the linear tool is selected, loaded and
/// lifted, then each active cut is made, in order.
pub open spec fn linear_block(cuts: Seq<Cut<String>>) -> Seq<ProgramLine> {
    seq![
        numbered("P007="@ + tool_code_text(DEFAULT_LINEAR_TOOL)),
        macro_call("PTOOL"@),
        macro_call("PT_SU"@),
    ] + linear_cuts_lines(cuts)
}

/// Adds the lines that make one linear cut.
pub fn add_linear_cut(p: &mut Program, cut: &Cut<String>)
    requires
        old(p).wf(),
    ensures
        final(p).wf(),
        final(p).lines() == old(p).lines() + linear_cut_lines(*cut),
        final(p).first_line() == old(p).first_line(),
{
    if !cut.active {
        assert(p.lines() + Seq::<ProgramLine>::empty() =~= p.lines());
        return;
    }
    let vertical = cut.is_vertical();
    if vertical {
        p.numbered(joined("P539=", "90").as_str());
    } else {
        p.numbered(joined("P539=", "0").as_str());
    }
    p.call("PROT_B");
    p.numbered(move_content("G00", cut.xi.as_str(), cut.yi.as_str(), Some("P540")).as_str());
    if vertical {
        p.numbered("M=533");
    } else {
        p.numbered("M=532");
    }
    p.call("PT_GIU");
    p.numbered(move_content("G01", cut.xf.as_str(), cut.yf.as_str(), Some("P540")).as_str());
    p.call("PT_SU");
    assert(p.lines() =~= old(p).lines() + linear_cut_lines(*cut));
}

/// Adds the block of linear cuts.
pub fn add_linear_block(p: &mut Program, cuts: &Vec<Cut<String>>)
    requires
        old(p).wf(),
    ensures
        final(p).wf(),
        final(p).lines() == old(p).lines() + linear_block(cuts@),
        final(p).first_line() == old(p).first_line(),
{
    p.numbered(tool_content(DEFAULT_LINEAR_TOOL).as_str());
    p.call("PTOOL");
    p.call("PT_SU");
    let ghost head = p.lines();
    let mut i: usize = 0;
    assert(cuts@.take(0) =~= Seq::empty());
    assert(head + linear_cuts_lines(cuts@.take(0)) =~= head);
    while i < cuts.len()
        invariant
            i <= cuts.len(),
            p.wf(),
            p.first_line() == old(p).first_line(),
            p.lines() == head + linear_cuts_lines(cuts@.take(i as int)),
        decreases cuts.len() - i,
    {
        add_linear_cut(p, &cuts[i]);
        proof {
            assert(cuts@.take(i + 1).drop_last() =~= cuts@.take(i as int));
            assert(cuts@.take(i + 1).last() == cuts@[i as int]);
            assert(head + linear_cuts_lines(cuts@.take(i as int)) + linear_cut_lines(
                cuts@[i as int],
            ) =~= head + linear_cuts_lines(cuts@.take(i + 1)));
        }
        i += 1;
    }
    assert(cuts@.take(cuts.len() as int) =~= cuts@);
    assert(p.lines() =~= old(p).lines() + linear_block(cuts@));
}

// ---------------------------------------------------------------------------
// Shape macros
// ---------------------------------------------------------------------------

/// What the arithmetic of continuity says of one segment of a shape.
#[derive(Debug, Clone)]
pub struct MacroCut {
    /// Whether the tool must be lifted and set down again before this
    /// segment: it does not continue the segment before it.
    pub starts_run: bool,
    /// The angle at which the segment starts, formatted.
    pub rotation: String,
    /// The length of the continuous run that starts with this segment,
    /// formatted.
    pub run_length: String,
}

/// Whether one of `cuts` is active.
pub open spec fn any_active(cuts: Seq<Cut<String>>) -> bool {
    exists|k: int| 0 <= k < cuts.len() && (#[trigger] cuts[k]).active
}

/// The move that makes a segment: a line or an arc to its end.
pub open spec fn segment_move(cut: Cut<String>) -> ProgramLine {
    match cut.cut_type {
        CutType::Line => numbered(move_text("G01"@, cut.xf@, cut.yf@, None)),
        CutType::ArcCW => numbered(arc_text("G02"@, cut.xf@, cut.yf@, cut.xc@, cut.yc@)),
        CutType::ArcCCW => numbered(arc_text("G03"@, cut.xf@, cut.yf@, cut.xc@, cut.yc@)),
    }
}

/// The lines that begin a run at `cut`: tangent mode is switched off
/// unless this is the first run, the tool is lifted, turned to the angle
/// of the segment and moved to its start, the length of the run is
/// announced, and the tool is lowered with tangent mode on.
pub open spec fn run_start(
    cut: Cut<String>,
    rotation: Seq<char>,
    run_length: Seq<char>,
    first: bool,
) -> Seq<ProgramLine> {
    (if first {
        Seq::<ProgramLine>::empty()
    } else {
        seq![numbered("G01 G46"@)]
    }) + seq![
        macro_call("PT_SU"@),
        numbered("P539="@ + rotation),
        macro_call("PROT_B"@),
        numbered(move_text("G00"@, cut.xi@, cut.yi@, axis_parameter()) + " AR=P540"@),
        macro_call("PSETSAG"@),
        numbered(param_text(203, run_length)),
        numbered(param_text(204, dec_signed(1))),
        macro_call("PT_GIU"@),
        numbered("G28"@),
    ]
}

/// The lines of segment `k` of a shape: none where it is not active. The
/// first active segment begins a run, and so does each one that is marked
/// as starting one.
pub open spec fn macro_cut_lines(
    cuts: Seq<Cut<String>>,
    marks: Seq<MacroCut>,
    k: int,
) -> Seq<ProgramLine> {
    let cut = cuts[k];
    let first = !any_active(cuts.take(k));
    if !cut.active {
        Seq::empty()
    } else if k < marks.len() {
        if first || marks[k].starts_run {
            run_start(cut, marks[k].rotation@, marks[k].run_length@, first).push(segment_move(cut))
        } else {
            seq![segment_move(cut)]
        }
    } else if first {
        run_start(cut, Seq::empty(), Seq::empty(), first).push(segment_move(cut))
    } else {
        seq![segment_move(cut)]
    }
}

/// The lines of the first `n` segments of a shape.
pub open spec fn macro_cuts_lines(
    cuts: Seq<Cut<String>>,
    marks: Seq<MacroCut>,
    n: int,
) -> Seq<ProgramLine>
    decreases n,
{
    if n <= 0 {
        Seq::empty()
    } else {
        macro_cuts_lines(cuts, marks, n - 1) + macro_cut_lines(cuts, marks, n - 1)
    }
}

/// The body of the macro of a shape: its active segments in runs, then
/// tangent mode off and the tool lifted. A shape without an active
/// segment only lifts the tool.
pub open spec fn macro_body(cuts: Seq<Cut<String>>, marks: Seq<MacroCut>) -> Seq<ProgramLine> {
    if any_active(cuts) {
        macro_cuts_lines(cuts, marks, cuts.len() as int) + seq![
            numbered("G01 G46"@),
            macro_call("PT_SU"@),
        ]
    } else {
        seq![macro_call("PT_SU"@)]
    }
}

/// Segments that are not active give no lines.
proof fn lemma_inactive_macro(cuts: Seq<Cut<String>>, marks: Seq<MacroCut>, n: int)
    requires
        0 <= n <= cuts.len(),
        !any_active(cuts.take(n)),
    ensures
        macro_cuts_lines(cuts, marks, n) == Seq::<ProgramLine>::empty(),
    decreases n,
{
    if n > 0 {
        assert(cuts.take(n)[n - 1] == cuts[n - 1]);
        assert(!cuts[n - 1].active);
        assert(!any_active(cuts.take(n - 1))) by {
            if any_active(cuts.take(n - 1)) {
                let j = choose|j: int| 0 <= j < n - 1 && (#[trigger] cuts.take(n - 1)[j]).active;
                assert(cuts.take(n)[j].active);
            }
        }
        lemma_inactive_macro(cuts, marks, n - 1);
        assert(macro_cuts_lines(cuts, marks, n - 1) + Seq::<ProgramLine>::empty() =~= Seq::<
            ProgramLine,
        >::empty());
    }
}

/// Adds the move that makes a segment.
fn add_segment_move(p: &mut Program, cut: &Cut<String>)
    requires
        old(p).wf(),
    ensures
        final(p).wf(),
        final(p).lines() == old(p).lines().push(segment_move(*cut)),
        final(p).first_line() == old(p).first_line(),
{
    match cut.cut_type {
        CutType::Line => {
            p.numbered(move_content("G01", cut.xf.as_str(), cut.yf.as_str(), None).as_str());
        },
        CutType::ArcCW => {
            p.numbered(
                arc_content(
                    "G02",
                    cut.xf.as_str(),
                    cut.yf.as_str(),
                    cut.xc.as_str(),
                    cut.yc.as_str(),
                ).as_str(),
            );
        },
        CutType::ArcCCW => {
            p.numbered(
                arc_content(
                    "G03",
                    cut.xf.as_str(),
                    cut.yf.as_str(),
                    cut.xc.as_str(),
                    cut.yc.as_str(),
                ).as_str(),
            );
        },
    }
}

/// Adds the lines that begin a run.
fn add_run_start(p: &mut Program, cut: &Cut<String>, rotation: &str, run_length: &str, first: bool)
    requires
        old(p).wf(),
    ensures
        final(p).wf(),
        final(p).lines() == old(p).lines() + run_start(*cut, rotation@, run_length@, first),
        final(p).first_line() == old(p).first_line(),
{
    if !first {
        p.numbered("G01 G46");
    }
    p.call("PT_SU");
    p.numbered(joined("P539=", rotation).as_str());
    p.call("PROT_B");
    let mut approach = move_content("G00", cut.xi.as_str(), cut.yi.as_str(), Some("P540"));
    approach.append(" AR=P540");
    p.numbered(approach.as_str());
    p.call("PSETSAG");
    p.numbered(param_content(203, run_length).as_str());
    p.numbered(int_param_content(204, 1).as_str());
    p.call("PT_GIU");
    p.numbered("G28");
    assert(p.lines() =~= old(p).lines() + run_start(*cut, rotation@, run_length@, first));
}

/// Adds the body of the macro of a shape.
pub fn add_macro_body(p: &mut Program, cuts: &Vec<Cut<String>>, marks: &Vec<MacroCut>)
    requires
        old(p).wf(),
    ensures
        final(p).wf(),
        final(p).lines() == old(p).lines() + macro_body(cuts@, marks@),
        final(p).first_line() == old(p).first_line(),
{
    let ghost head = p.lines();
    let mut begun = false;
    let mut k: usize = 0;
    assert(head + macro_cuts_lines(cuts@, marks@, 0) =~= head);
    while k < cuts.len()
        invariant
            k <= cuts.len(),
            p.wf(),
            p.first_line() == old(p).first_line(),
            begun == any_active(cuts@.take(k as int)),
            p.lines() == head + macro_cuts_lines(cuts@, marks@, k as int),
        decreases cuts.len() - k,
    {
        let cut = &cuts[k];
        let ghost before = p.lines();
        proof {
            let seen = cuts@.take(k as int);
            let next = cuts@.take(k + 1);
            assert(next[k as int] == cuts@[k as int]);
            if any_active(seen) {
                let j = choose|j: int| 0 <= j < seen.len() && (#[trigger] seen[j]).active;
                assert(next[j].active);
            }
            if any_active(next) && !cut.active {
                let j = choose|j: int| 0 <= j < next.len() && (#[trigger] next[j]).active;
                assert(seen[j].active);
            }
        }
        if cut.active {
            let ghost first = !begun;
            if k < marks.len() {
                if !begun || marks[k].starts_run {
                    add_run_start(
                        p,
                        cut,
                        marks[k].rotation.as_str(),
                        marks[k].run_length.as_str(),
                        !begun,
                    );
                    add_segment_move(p, cut);
                    assert(p.lines() =~= before + run_start(
                        *cut,
                        marks@[k as int].rotation@,
                        marks@[k as int].run_length@,
                        first,
                    ).push(segment_move(*cut)));
                } else {
                    add_segment_move(p, cut);
                    assert(p.lines() =~= before + seq![segment_move(*cut)]);
                }
            } else if !begun {
                proof {
                    reveal_strlit("");
                    assert(""@ =~= Seq::<char>::empty());
                }
                add_run_start(p, cut, "", "", true);
                add_segment_move(p, cut);
                assert(p.lines() =~= before + run_start(
                    *cut,
                    Seq::empty(),
                    Seq::empty(),
                    first,
                ).push(segment_move(*cut)));
            } else {
                add_segment_move(p, cut);
                assert(p.lines() =~= before + seq![segment_move(*cut)]);
            }
            begun = true;
        } else {
            assert(p.lines() =~= before + Seq::<ProgramLine>::empty());
        }
        proof {
            assert(cuts@[k as int] == *cut);
            assert(p.lines() == before + macro_cut_lines(cuts@, marks@, k as int));
            assert(head + macro_cuts_lines(cuts@, marks@, k as int) + macro_cut_lines(
                cuts@,
                marks@,
                k as int,
            ) =~= head + macro_cuts_lines(cuts@, marks@, k + 1));
        }
        k += 1;
    }
    assert(cuts@.take(cuts.len() as int) =~= cuts@);
    let ghost body = p.lines();
    if begun {
        p.numbered("G01 G46");
        p.call("PT_SU");
        assert(p.lines() =~= body + seq![numbered("G01 G46"@), macro_call("PT_SU"@)]);
        assert(p.lines() =~= old(p).lines() + macro_body(cuts@, marks@));
    } else {
        p.call("PT_SU");
        assert(macro_cuts_lines(cuts@, marks@, cuts.len() as int) =~= Seq::empty()) by {
            lemma_inactive_macro(cuts@, marks@, cuts.len() as int);
        }
        assert(p.lines() =~= old(p).lines() + macro_body(cuts@, marks@));
    }
}

// ---------------------------------------------------------------------------
// Shaped cuts
// ---------------------------------------------------------------------------

/// The greatest index of a shape that a macro label can hold.
pub open spec fn max_shape_index() -> int {
    0x3FFF_FFFF_FFFF_FFFF
}

/// The label of the macro of a shape: 1 000 000 000, the tool type in the
/// ten millions, the number of the schema in the thousands, and twice the
/// index of the shape plus one.
pub open spec fn macro_label(tool_type: u32, schema_num: u32, shape_idx: usize) -> int {
    1_000_000_000 + tool_type * 10_000_000 + schema_num * 1000 + (2 * shape_idx + 1)
}

/// The label of the macro of a shape.
pub fn calculate_shape_macro_label(tool_type: u32, schema_num: u32, shape_idx: usize) -> (label: u64)
    requires
        shape_idx <= max_shape_index(),
    ensures
        label == macro_label(tool_type, schema_num, shape_idx),
{
    1_000_000_000 + (tool_type as u64) * 10_000_000 + (schema_num as u64) * 1000 + (2 * (
    shape_idx as u64) + 1)
}

/// Whether a shape of the schema is marked as using tool `tool`.
pub open spec fn uses_tool_type<N>(schema: Schema<N>, tool: int) -> bool {
    exists|k: int| 0 <= k < schema.shapes.len() && (#[trigger] schema.shapes[k]).marks_tool(tool)
}

/// Whether a shape of the schema is marked as using tool `tool_type`.
pub fn schema_uses_tool_type<N>(schema: &Schema<N>, tool_type: usize) -> (r: bool)
    ensures
        r == uses_tool_type(*schema, tool_type as int),
{
    let mut k: usize = 0;
    while k < schema.shapes.len()
        invariant
            k <= schema.shapes.len(),
            forall|j: int| 0 <= j < k ==> !(#[trigger] schema.shapes[j]).marks_tool(tool_type as int),
        decreases schema.shapes.len() - k,
    {
        if schema.shapes[k].uses_tool(tool_type) {
            return true;
        }
        k += 1;
    }
    false
}

/// What arithmetic gives for a schema, formatted: what the program states
/// of the sheet, the order of the shaped pieces and the runs of each
/// shape.
#[derive(Debug, Clone)]
pub struct SchemaPlan {
    /// Area of the sheet, in millions of square units.
    pub sheet_area: String,
    /// Area of the waste, in millions of square units.
    pub waste_area: String,
    /// Share of the waste, in percent.
    pub waste_percent: String,
    /// Width of the greatest rest of the sheet.
    pub rest_x: String,
    /// Height of the greatest rest of the sheet.
    pub rest_y: String,
    /// The pieces in the order in which their shapes are cut.
    pub piece_order: Vec<usize>,
    /// For each shape, what continuity says of each of its segments.
    pub macro_cuts: Vec<Vec<MacroCut>>,
}

/// Whether the schema keeps to what labels can hold.
pub open spec fn shapes_fit<N>(schema: Schema<N>) -> bool {
    schema.shapes.len() <= max_shape_index()
}

/// The lines that place the shape of piece `piece_idx`: the work offset is
/// set to the origin of the piece and the macro of its shape is called. A
/// piece that is not there, or has no shape that is there, gives none.
pub open spec fn placement_lines(
    schema: Schema<String>,
    num: u32,
    piece_idx: usize,
) -> Seq<ProgramLine> {
    if piece_idx < schema.pieces.len() && schema.pieces[piece_idx as int].shape_index is Some
        && schema.pieces[piece_idx as int].shape_index->0 < schema.shapes.len() {
        let piece = schema.pieces[piece_idx as int];
        seq![
            plain(";----"@),
            numbered("G58"@),
            numbered("XO="@ + piece.x_origin@),
            numbered("YO="@ + piece.y_origin@),
            numbered(
                "L:"@ + dec_digits(macro_label(TOOL_TYPE_SHAPED, num, piece.shape_index->0) as nat),
            ),
        ]
    } else {
        Seq::empty()
    }
}

/// The lines that place the shapes of the pieces of `order`, in order.
pub open spec fn placements_lines(
    schema: Schema<String>,
    num: u32,
    order: Seq<usize>,
) -> Seq<ProgramLine>
    decreases order.len(),
{
    if order.len() == 0 {
        Seq::empty()
    } else {
        placements_lines(schema, num, order.drop_last()) + placement_lines(schema, num, order.last())
    }
}

/// The block of shaped cuts: the shaped tool is selected and loaded, then
/// the shape of each piece is placed, in the given order.
pub open spec fn shaped_block(
    schema: Schema<String>,
    num: u32,
    order: Seq<usize>,
) -> Seq<ProgramLine> {
    seq![
        numbered("P007="@ + tool_code_text(DEFAULT_SHAPED_TOOL)),
        macro_call("PTOOL"@),
    ] + placements_lines(schema, num, order)
}

/// Adds the block of shaped cuts.
pub fn add_shaped_block(p: &mut Program, schema: &Schema<String>, num: u32, order: &Vec<usize>)
    requires
        old(p).wf(),
        shapes_fit(*schema),
    ensures
        final(p).wf(),
        final(p).lines() == old(p).lines() + shaped_block(*schema, num, order@),
        final(p).first_line() == old(p).first_line(),
{
    p.numbered(tool_content(DEFAULT_SHAPED_TOOL).as_str());
    p.call("PTOOL");
    let ghost head = p.lines();
    let mut i: usize = 0;
    assert(order@.take(0) =~= Seq::empty());
    assert(head + placements_lines(*schema, num, order@.take(0)) =~= head);
    while i < order.len()
        invariant
            i <= order.len(),
            p.wf(),
            shapes_fit(*schema),
            p.first_line() == old(p).first_line(),
            p.lines() == head + placements_lines(*schema, num, order@.take(i as int)),
        decreases order.len() - i,
    {
        let piece_idx = order[i];
        let ghost before = p.lines();
        proof {
            assert(order@.take(i + 1).drop_last() =~= order@.take(i as int));
            assert(order@.take(i + 1).last() == piece_idx);
        }
        let mut placed = false;
        if piece_idx < schema.pieces.len() {
            let piece = &schema.pieces[piece_idx];
            match piece.shape_index {
                Some(shape_idx) => {
                    if shape_idx < schema.shapes.len() {
                        let label = calculate_shape_macro_label(TOOL_TYPE_SHAPED, num, shape_idx);
                        p.plain(";----");
                        p.numbered("G58");
                        p.numbered(joined("XO=", piece.x_origin.as_str()).as_str());
                        p.numbered(joined("YO=", piece.y_origin.as_str()).as_str());
                        p.numbered(joined("L:", u64_to_string(label).as_str()).as_str());
                        placed = true;
                    }
                },
                None => {},
            }
        }
        proof {
            if placed {
                assert(p.lines() =~= before + placement_lines(*schema, num, piece_idx));
            } else {
                assert(p.lines() =~= before + placement_lines(*schema, num, piece_idx));
            }
            assert(head + placements_lines(*schema, num, order@.take(i as int)) + placement_lines(
                *schema,
                num,
                piece_idx,
            ) =~= head + placements_lines(*schema, num, order@.take(i + 1)));
        }
        i += 1;
    }
    assert(order@.take(order.len() as int) =~= order@);
    assert(p.lines() =~= old(p).lines() + shaped_block(*schema, num, order@));
}

// ---------------------------------------------------------------------------
// One schema
// ---------------------------------------------------------------------------

/// A number in four digits.
pub open spec fn four_digits(n: nat) -> Seq<char> {
    pad_left(dec_digits(n), 4, '0')
}

/// The jump that skips every block once the tool asked for is served.
pub open spec fn skip_jump() -> ProgramLine {
    numbered("JM(P260=2):999999999"@)
}

/// The jump into a block where its tool is the one asked for.
pub open spec fn block_jump(tool: u16, label: Seq<char>) -> ProgramLine {
    numbered("JM((P260=2)~(P007="@ + tool_code_text(tool) + ")):"@ + label)
}

/// What the program states of the sheet: areas, the sync number and the
/// greatest rest.
pub open spec fn sheet_lines(schema: Schema<String>, plan: SchemaPlan, num: u32) -> Seq<ProgramLine> {
    seq![
        plain("; "@ + ("--- inizio Schema="@ + dec_digits(num as nat) + " Lastre="@ + dec_digits(
            schema.quantity as nat,
        ))),
        plain(":"@ + four_digits(num as nat)),
        numbered(param_text(12, plan.sheet_area@)),
        numbered(param_text(13, plan.waste_area@)),
        numbered(param_text(14, plan.waste_percent@)),
        numbered(param_text(941, dec_signed(schema.n_layout_sync as int))),
        numbered("PXRS="@ + plan.rest_x@),
        numbered("PYRS="@ + plan.rest_y@),
        macro_call("PTMREP_B"@),
        plain(";parte relativa al Taglio --------"@),
    ]
}

/// The jumps that pick a block: into the linear block where the schema has
/// linear cuts, into the shaped block where a shape of it uses the shaped
/// tool, and past both.
pub open spec fn jump_lines(schema: Schema<String>, num: u32) -> Seq<ProgramLine> {
    (if schema.linear_cuts.len() > 0 {
        seq![block_jump(DEFAULT_LINEAR_TOOL, "01"@ + four_digits(num as nat))]
    } else {
        Seq::<ProgramLine>::empty()
    }) + (if uses_tool_type(schema, TOOL_TYPE_SHAPED as int) {
        seq![block_jump(DEFAULT_SHAPED_TOOL, "02"@ + four_digits(num as nat))]
    } else {
        Seq::<ProgramLine>::empty()
    }) + seq![skip_jump(), plain(Seq::empty())]
}

/// The linear part of a schema: nothing where it has no linear cut.
pub open spec fn linear_part(schema: Schema<String>, num: u32) -> Seq<ProgramLine> {
    if schema.linear_cuts.len() > 0 {
        seq![
            plain("; "@ + "parte geometrica lineare ----------"@),
            plain(":"@ + ("01"@ + four_digits(num as nat))),
        ] + linear_block(schema.linear_cuts@) + seq![
            plain(Seq::empty()),
            skip_jump(),
            plain(Seq::empty()),
        ]
    } else {
        Seq::empty()
    }
}

/// The shaped part of a schema: nothing where no shape of it uses the
/// shaped tool.
pub open spec fn shaped_part(schema: Schema<String>, plan: SchemaPlan, num: u32) -> Seq<ProgramLine> {
    if uses_tool_type(schema, TOOL_TYPE_SHAPED as int) {
        seq![
            plain("; "@ + "parte geometrica sagomata ----------"@),
            plain(":"@ + ("02"@ + four_digits(num as nat))),
        ] + shaped_block(schema, num, plan.piece_order@) + seq![
            plain(Seq::empty()),
            skip_jump(),
            plain(Seq::empty()),
        ]
    } else {
        Seq::empty()
    }
}

/// The lines of schema number `num`.
pub open spec fn schema_lines(schema: Schema<String>, plan: SchemaPlan, num: u32) -> Seq<ProgramLine> {
    sheet_lines(schema, plan, num) + jump_lines(schema, num) + linear_part(schema, num)
        + shaped_part(schema, plan, num) + seq![numbered("JM:"@ + "999999999"@), plain(Seq::empty())]
}

/// `n` in four digits.
fn four_digit_text(n: u32) -> (s: String)
    ensures
        s@ == four_digits(n as nat),
{
    let mut s = String::new();
    push_u64_padded(&mut s, n as u64, 4);
    assert(s@ =~= four_digits(n as nat));
    s
}

/// Adds a blank line.
fn add_blank(p: &mut Program)
    requires
        old(p).wf(),
    ensures
        final(p).wf(),
        final(p).lines() == old(p).lines().push(plain(Seq::empty())),
        final(p).first_line() == old(p).first_line(),
{
    proof {
        reveal_strlit("");
        assert(""@ =~= Seq::<char>::empty());
    }
    p.plain("");
}

/// Adds the jump that skips every block.
fn add_skip_jump(p: &mut Program)
    requires
        old(p).wf(),
    ensures
        final(p).wf(),
        final(p).lines() == old(p).lines().push(skip_jump()),
        final(p).first_line() == old(p).first_line(),
{
    p.numbered("JM(P260=2):999999999");
}

/// Adds the jump into a block.
fn add_block_jump(p: &mut Program, tool: u16, label: &str)
    requires
        old(p).wf(),
    ensures
        final(p).wf(),
        final(p).lines() == old(p).lines().push(block_jump(tool, label@)),
        final(p).first_line() == old(p).first_line(),
{
    let mut content = String::from_str("JM((P260=2)~(P007=");
    push_u64_padded(&mut content, tool as u64, 4);
    content.append(")):");
    content.append(label);
    assert(content@ =~= "JM((P260=2)~(P007="@ + tool_code_text(tool) + ")):"@ + label@);
    p.numbered(content.as_str());
}

/// Adds what the program states of the sheet.
fn add_sheet_lines(p: &mut Program, schema: &Schema<String>, plan: &SchemaPlan, num: u32)
    requires
        old(p).wf(),
    ensures
        final(p).wf(),
        final(p).lines() == old(p).lines() + sheet_lines(*schema, *plan, num),
        final(p).first_line() == old(p).first_line(),
{
    let mut title = String::from_str("--- inizio Schema=");
    push_u64(&mut title, num as u64);
    title.append(" Lastre=");
    push_u64(&mut title, schema.quantity as u64);
    p.plain(joined("; ", title.as_str()).as_str());
    p.plain(joined(":", four_digit_text(num).as_str()).as_str());
    p.numbered(param_content(12, plan.sheet_area.as_str()).as_str());
    p.numbered(param_content(13, plan.waste_area.as_str()).as_str());
    p.numbered(param_content(14, plan.waste_percent.as_str()).as_str());
    p.numbered(int_param_content(941, schema.n_layout_sync as i64).as_str());
    p.numbered(joined("PXRS=", plan.rest_x.as_str()).as_str());
    p.numbered(joined("PYRS=", plan.rest_y.as_str()).as_str());
    p.call("PTMREP_B");
    p.plain(";parte relativa al Taglio --------");
    assert(p.lines() =~= old(p).lines() + sheet_lines(*schema, *plan, num));
}

/// Adds the jumps that pick a block.
fn add_jump_lines(p: &mut Program, schema: &Schema<String>, num: u32)
    requires
        old(p).wf(),
    ensures
        final(p).wf(),
        final(p).lines() == old(p).lines() + jump_lines(*schema, num),
        final(p).first_line() == old(p).first_line(),
{
    if schema.linear_cuts.len() > 0 {
        let label = joined("01", four_digit_text(num).as_str());
        add_block_jump(p, DEFAULT_LINEAR_TOOL, label.as_str());
    }
    if schema_uses_tool_type(schema, TOOL_TYPE_SHAPED as usize) {
        let label = joined("02", four_digit_text(num).as_str());
        add_block_jump(p, DEFAULT_SHAPED_TOOL, label.as_str());
    }
    add_skip_jump(p);
    add_blank(p);
    assert(p.lines() =~= old(p).lines() + jump_lines(*schema, num));
}

/// Adds the linear part of a schema.
fn add_linear_part(p: &mut Program, schema: &Schema<String>, num: u32)
    requires
        old(p).wf(),
    ensures
        final(p).wf(),
        final(p).lines() == old(p).lines() + linear_part(*schema, num),
        final(p).first_line() == old(p).first_line(),
{
    if schema.linear_cuts.len() > 0 {
        let label = joined("01", four_digit_text(num).as_str());
        p.plain(joined("; ", "parte geometrica lineare ----------").as_str());
        p.plain(joined(":", label.as_str()).as_str());
        let ghost opened = p.lines();
        add_linear_block(p, &schema.linear_cuts);
        let ghost made = p.lines();
        add_blank(p);
        add_skip_jump(p);
        add_blank(p);
        assert(opened =~= old(p).lines() + seq![
            plain("; "@ + "parte geometrica lineare ----------"@),
            plain(":"@ + ("01"@ + four_digits(num as nat))),
        ]);
        assert(p.lines() =~= made + seq![plain(Seq::empty()), skip_jump(), plain(Seq::empty())]);
        assert(p.lines() =~= old(p).lines() + linear_part(*schema, num));
    } else {
        assert(p.lines() =~= old(p).lines() + linear_part(*schema, num));
    }
}

/// Adds the shaped part of a schema.
fn add_shaped_part(p: &mut Program, schema: &Schema<String>, plan: &SchemaPlan, num: u32)
    requires
        old(p).wf(),
        shapes_fit(*schema),
    ensures
        final(p).wf(),
        final(p).lines() == old(p).lines() + shaped_part(*schema, *plan, num),
        final(p).first_line() == old(p).first_line(),
{
    if schema_uses_tool_type(schema, TOOL_TYPE_SHAPED as usize) {
        let label = joined("02", four_digit_text(num).as_str());
        p.plain(joined("; ", "parte geometrica sagomata ----------").as_str());
        p.plain(joined(":", label.as_str()).as_str());
        let ghost opened = p.lines();
        add_shaped_block(p, schema, num, &plan.piece_order);
        let ghost made = p.lines();
        add_blank(p);
        add_skip_jump(p);
        add_blank(p);
        assert(opened =~= old(p).lines() + seq![
            plain("; "@ + "parte geometrica sagomata ----------"@),
            plain(":"@ + ("02"@ + four_digits(num as nat))),
        ]);
        assert(p.lines() =~= made + seq![plain(Seq::empty()), skip_jump(), plain(Seq::empty())]);
        assert(p.lines() =~= old(p).lines() + shaped_part(*schema, *plan, num));
    } else {
        assert(p.lines() =~= old(p).lines() + shaped_part(*schema, *plan, num));
    }
}

/// Adds the lines of schema number `num`.
pub fn add_schema(p: &mut Program, schema: &Schema<String>, plan: &SchemaPlan, num: u32)
    requires
        old(p).wf(),
        shapes_fit(*schema),
    ensures
        final(p).wf(),
        final(p).lines() == old(p).lines() + schema_lines(*schema, *plan, num),
        final(p).first_line() == old(p).first_line(),
{
    add_sheet_lines(p, schema, plan, num);
    add_jump_lines(p, schema, num);
    add_linear_part(p, schema, num);
    add_shaped_part(p, schema, plan, num);
    let ghost parts = p.lines();
    p.numbered(joined("JM:", "999999999").as_str());
    add_blank(p);
    assert(p.lines() =~= parts + seq![numbered("JM:"@ + "999999999"@), plain(Seq::empty())]);
    assert(p.lines() =~= old(p).lines() + schema_lines(*schema, *plan, num));
}

// ---------------------------------------------------------------------------
// The macros of the shapes
// ---------------------------------------------------------------------------

/// What continuity says of the segments of shape `k`; nothing where the
/// plan does not say.
pub open spec fn marks_of(plan: SchemaPlan, k: int) -> Seq<MacroCut> {
    if 0 <= k < plan.macro_cuts.len() {
        plan.macro_cuts[k]@
    } else {
        Seq::empty()
    }
}

/// The macro of shape `k` of a schema: its label, its body and the end of
/// the macro. A shape that does not use the shaped tool has none.
pub open spec fn shape_macro(
    schema: Schema<String>,
    plan: SchemaPlan,
    num: u32,
    k: int,
) -> Seq<ProgramLine> {
    if schema.shapes[k].marks_tool(TOOL_TYPE_SHAPED as int) {
        seq![plain(":"@ + dec_digits(macro_label(TOOL_TYPE_SHAPED, num, k as usize) as nat))]
            + macro_body(schema.shapes[k].cuts@, marks_of(plan, k)) + seq![
            plain("%"@),
            plain(Seq::empty()),
        ]
    } else {
        Seq::empty()
    }
}

/// The macros of the first `n` shapes of a schema.
pub open spec fn schema_macros(
    schema: Schema<String>,
    plan: SchemaPlan,
    num: u32,
    n: int,
) -> Seq<ProgramLine>
    decreases n,
{
    if n <= 0 {
        Seq::empty()
    } else {
        schema_macros(schema, plan, num, n - 1) + shape_macro(schema, plan, num, n - 1)
    }
}

/// The macros of the first `n` schemas. Schemas are numbered from one.
pub open spec fn all_macros(
    schemas: Seq<Schema<String>>,
    plans: Seq<SchemaPlan>,
    n: int,
) -> Seq<ProgramLine>
    decreases n,
{
    if n <= 0 {
        Seq::empty()
    } else {
        all_macros(schemas, plans, n - 1) + schema_macros(
            schemas[n - 1],
            plans[n - 1],
            n as u32,
            schemas[n - 1].shapes.len() as int,
        )
    }
}

/// Whether a shape of some schema uses the shaped tool.
pub open spec fn any_shaped(schemas: Seq<Schema<String>>) -> bool {
    exists|k: int|
        0 <= k < schemas.len() && uses_tool_type(#[trigger] schemas[k], TOOL_TYPE_SHAPED as int)
}

/// The part of the program that holds the macros: nothing where no shape
/// uses the shaped tool.
pub open spec fn macros_part(schemas: Seq<Schema<String>>, plans: Seq<SchemaPlan>) -> Seq<ProgramLine> {
    if any_shaped(schemas) {
        seq![plain("; "@ + "macro delle icone ----------"@)] + all_macros(
            schemas,
            plans,
            schemas.len() as int,
        )
    } else {
        Seq::empty()
    }
}

/// The lines of the first `n` schemas.
pub open spec fn schemas_part(
    schemas: Seq<Schema<String>>,
    plans: Seq<SchemaPlan>,
    n: int,
) -> Seq<ProgramLine>
    decreases n,
{
    if n <= 0 {
        Seq::empty()
    } else {
        schemas_part(schemas, plans, n - 1) + schema_lines(schemas[n - 1], plans[n - 1], n as u32)
    }
}

/// How the program begins.
pub open spec fn program_head() -> Seq<ProgramLine> {
    seq![
        numbered(param_text(15, dec_signed(1))),
        macro_call("PRGINIT"@),
        numbered("JM:(P262)"@),
        plain(Seq::empty()),
    ]
}

/// How the program ends.
pub open spec fn program_tail() -> Seq<ProgramLine> {
    seq![plain(Seq::empty()), plain(":"@ + "999999999"@), macro_call("PFOXOUT"@), plain("%"@)]
}

/// The contour program of a list of schemas.
pub open spec fn program_lines(
    schemas: Seq<Schema<String>>,
    plans: Seq<SchemaPlan>,
) -> Seq<ProgramLine> {
    program_head() + schemas_part(schemas, plans, schemas.len() as int) + macros_part(schemas, plans)
        + program_tail()
}

/// Whether the schemas keep to what the program can number: as many plans
/// as schemas, no more schemas than a number of 32 bits counts, and in
/// each schema no more shapes than a label can hold.
pub open spec fn within_limits(schemas: Seq<Schema<String>>, plans: Seq<SchemaPlan>) -> bool {
    &&& plans.len() == schemas.len()
    &&& schemas.len() <= u32::MAX
    &&& forall|k: int| 0 <= k < schemas.len() ==> shapes_fit(#[trigger] schemas[k])
}

/// Whether the schemas keep to what the program can number.
pub fn check_limits(schemas: &[Schema<String>], plans: &[SchemaPlan]) -> (r: bool)
    ensures
        r == within_limits(schemas@, plans@),
{
    if plans.len() != schemas.len() || schemas.len() as u64 > 0xFFFF_FFFF {
        return false;
    }
    let mut k: usize = 0;
    while k < schemas.len()
        invariant
            k <= schemas.len(),
            forall|j: int| 0 <= j < k ==> shapes_fit(#[trigger] schemas@[j]),
        decreases schemas.len() - k,
    {
        if schemas[k].shapes.len() as u64 > 0x3FFF_FFFF_FFFF_FFFF {
            return false;
        }
        k += 1;
    }
    true
}

/// Adds the macros of a schema.
fn add_schema_macros(p: &mut Program, schema: &Schema<String>, plan: &SchemaPlan, num: u32)
    requires
        old(p).wf(),
        shapes_fit(*schema),
    ensures
        final(p).wf(),
        final(p).lines() == old(p).lines() + schema_macros(
            *schema,
            *plan,
            num,
            schema.shapes.len() as int,
        ),
        final(p).first_line() == old(p).first_line(),
{
    let ghost head = p.lines();
    let mut k: usize = 0;
    assert(head + schema_macros(*schema, *plan, num, 0) =~= head);
    while k < schema.shapes.len()
        invariant
            k <= schema.shapes.len(),
            p.wf(),
            shapes_fit(*schema),
            p.first_line() == old(p).first_line(),
            p.lines() == head + schema_macros(*schema, *plan, num, k as int),
        decreases schema.shapes.len() - k,
    {
        let shape = &schema.shapes[k];
        let ghost before = p.lines();
        if shape.uses_tool(TOOL_TYPE_SHAPED as usize) {
            let label = calculate_shape_macro_label(TOOL_TYPE_SHAPED, num, k);
            p.plain(joined(":", u64_to_string(label).as_str()).as_str());
            let ghost labelled = p.lines();
            if k < plan.macro_cuts.len() {
                add_macro_body(p, &shape.cuts, &plan.macro_cuts[k]);
            } else {
                let none: Vec<MacroCut> = Vec::new();
                add_macro_body(p, &shape.cuts, &none);
            }
            let ghost bodied = p.lines();
            p.plain("%");
            add_blank(p);
            proof {
                assert(bodied =~= labelled + macro_body(shape.cuts@, marks_of(*plan, k as int)));
                assert(p.lines() =~= bodied + seq![plain("%"@), plain(Seq::empty())]);
                assert(p.lines() =~= before + shape_macro(*schema, *plan, num, k as int));
            }
        } else {
            assert(p.lines() =~= before + shape_macro(*schema, *plan, num, k as int));
        }
        proof {
            assert(head + schema_macros(*schema, *plan, num, k as int) + shape_macro(
                *schema,
                *plan,
                num,
                k as int,
            ) =~= head + schema_macros(*schema, *plan, num, k + 1));
        }
        k += 1;
    }
}

/// Whether a shape of some schema uses the shaped tool.
fn any_schema_shaped(schemas: &[Schema<String>]) -> (r: bool)
    ensures
        r == any_shaped(schemas@),
{
    let mut k: usize = 0;
    while k < schemas.len()
        invariant
            k <= schemas.len(),
            forall|j: int|
                0 <= j < k ==> !uses_tool_type(#[trigger] schemas@[j], TOOL_TYPE_SHAPED as int),
        decreases schemas.len() - k,
    {
        if schema_uses_tool_type(&schemas[k], TOOL_TYPE_SHAPED as usize) {
            return true;
        }
        k += 1;
    }
    false
}

/// Adds the part of the program that holds the macros.
fn add_macros_part(p: &mut Program, schemas: &[Schema<String>], plans: &[SchemaPlan])
    requires
        old(p).wf(),
        within_limits(schemas@, plans@),
    ensures
        final(p).wf(),
        final(p).lines() == old(p).lines() + macros_part(schemas@, plans@),
        final(p).first_line() == old(p).first_line(),
{
    if !any_schema_shaped(schemas) {
        assert(p.lines() =~= old(p).lines() + macros_part(schemas@, plans@));
        return;
    }
    p.plain(joined("; ", "macro delle icone ----------").as_str());
    let ghost head = p.lines();
    let mut k: usize = 0;
    assert(head + all_macros(schemas@, plans@, 0) =~= head);
    while k < schemas.len()
        invariant
            k <= schemas.len(),
            p.wf(),
            within_limits(schemas@, plans@),
            p.first_line() == old(p).first_line(),
            p.lines() == head + all_macros(schemas@, plans@, k as int),
        decreases schemas.len() - k,
    {
        assert(shapes_fit(schemas@[k as int]));
        add_schema_macros(p, &schemas[k], &plans[k], (k + 1) as u32);
        proof {
            assert(head + all_macros(schemas@, plans@, k as int) + schema_macros(
                schemas@[k as int],
                plans@[k as int],
                (k + 1) as u32,
                schemas@[k as int].shapes.len() as int,
            ) =~= head + all_macros(schemas@, plans@, k + 1));
        }
        k += 1;
    }
    assert(p.lines() =~= old(p).lines() + macros_part(schemas@, plans@));
}

/// Adds the lines of all schemas.
fn add_schemas_part(p: &mut Program, schemas: &[Schema<String>], plans: &[SchemaPlan])
    requires
        old(p).wf(),
        within_limits(schemas@, plans@),
    ensures
        final(p).wf(),
        final(p).lines() == old(p).lines() + schemas_part(schemas@, plans@, schemas.len() as int),
        final(p).first_line() == old(p).first_line(),
{
    let ghost head = p.lines();
    let mut k: usize = 0;
    assert(head + schemas_part(schemas@, plans@, 0) =~= head);
    while k < schemas.len()
        invariant
            k <= schemas.len(),
            p.wf(),
            within_limits(schemas@, plans@),
            p.first_line() == old(p).first_line(),
            p.lines() == head + schemas_part(schemas@, plans@, k as int),
        decreases schemas.len() - k,
    {
        assert(shapes_fit(schemas@[k as int]));
        add_schema(p, &schemas[k], &plans[k], (k + 1) as u32);
        proof {
            assert(head + schemas_part(schemas@, plans@, k as int) + schema_lines(
                schemas@[k as int],
                plans@[k as int],
                (k + 1) as u32,
            ) =~= head + schemas_part(schemas@, plans@, k + 1));
        }
        k += 1;
    }
}

/// The number of the first line of a contour program.
pub const FIRST_LINE: u32 = 20;

/// The contour program of a list of schemas: the start of the program,
/// each schema in turn, the macros of the shapes, and the end of the
/// program. There is none where the line numbers do not last.
pub fn generate_program(schemas: &[Schema<String>], plans: &[SchemaPlan]) -> (r: Option<String>)
    requires
        within_limits(schemas@, plans@),
    ensures
        match r {
            Some(text) => fits(
                FIRST_LINE as int,
                numbered_count(program_lines(schemas@, plans@)),
            ) && text@ == render(program_lines(schemas@, plans@), FIRST_LINE as int),
            None => !fits(FIRST_LINE as int, numbered_count(program_lines(schemas@, plans@))),
        },
{
    let mut p = Program::new(FIRST_LINE);
    p.numbered(int_param_content(15, 1).as_str());
    p.call("PRGINIT");
    p.numbered("JM:(P262)");
    add_blank(&mut p);
    assert(p.lines() =~= program_head());
    add_schemas_part(&mut p, schemas, plans);
    add_macros_part(&mut p, schemas, plans);
    let ghost body = p.lines();
    add_blank(&mut p);
    p.plain(joined(":", "999999999").as_str());
    p.call("PFOXOUT");
    p.plain("%");
    assert(p.lines() =~= body + program_tail());
    assert(p.lines() =~= program_lines(schemas@, plans@));
    p.finish()
}

} // verus!
