//! Writer of the numbered G-code program.
//!
//! Coordinates and other measures reach the writer already formatted: it
//! places them in the line, it does not compute them.

use crate::number::{dec_digits, dec_signed, pad_left, push_i64, push_u64, push_u64_padded};
use vstd::prelude::*;
use vstd::string::StringExecFns;

verus! {

/// The first line number of a fresh writer, and the distance between one
/// line number and the next.
pub const LINE_STEP: u32 = 10;

/// A numbered program line: `N`, the number, a blank, the content and a
/// line feed.
pub open spec fn numbered_line(number: u32, content: Seq<char>) -> Seq<char> {
    seq!['N'] + dec_digits(number as nat) + seq![' '] + content + seq!['\n']
}

/// A line without a number: the content and a line feed.
pub open spec fn raw_line(content: Seq<char>) -> Seq<char> {
    content + seq!['\n']
}

/// The content of a parameter assignment: `P`, the parameter in three
/// digits, `=` and the value.
pub open spec fn param_text(param: u16, value: Seq<char>) -> Seq<char> {
    seq!['P'] + pad_left(dec_digits(param as nat), 3, '0') + seq!['='] + value
}

/// A tool code in four digits.
pub open spec fn tool_code_text(code: u16) -> Seq<char> {
    pad_left(dec_digits(code as nat), 4, '0')
}

/// The content of a conditional jump.
pub open spec fn jump_if_text(condition: Seq<char>, label: Seq<char>) -> Seq<char> {
    "JM("@ + condition + "):"@ + label
}

/// The content of a move to `(x, y)` under G-code `code`, with the rotary
/// axis set to `c` where one is given.
pub open spec fn move_text(
    code: Seq<char>,
    x: Seq<char>,
    y: Seq<char>,
    c: Option<Seq<char>>,
) -> Seq<char> {
    let head = code + " X="@ + x + " Y="@ + y;
    match c {
        Some(axis) => head + " C="@ + axis,
        None => head,
    }
}

/// The content of an arc to `(x, y)` round the centre `(i, j)` under G-code
/// `code`.
pub open spec fn arc_text(
    code: Seq<char>,
    x: Seq<char>,
    y: Seq<char>,
    i: Seq<char>,
    j: Seq<char>,
) -> Seq<char> {
    code + " X="@ + x + " Y="@ + y + " I="@ + i + " J="@ + j
}

/// `prefix` and `rest`, one after the other.
pub fn joined(prefix: &str, rest: &str) -> (s: String)
    ensures
        s@ == prefix@ + rest@,
{
    let mut s = String::from_str(prefix);
    s.append(rest);
    s
}

/// The content of a parameter assignment whose value is given as text.
pub fn param_content(param: u16, value: &str) -> (s: String)
    ensures
        s@ == param_text(param, value@),
{
    let mut s = String::new();
    s.push('P');
    push_u64_padded(&mut s, param as u64, 3);
    s.push('=');
    s.append(value);
    assert(s@ =~= param_text(param, value@));
    s
}

/// The content of a parameter assignment whose value is an integer.
pub fn int_param_content(param: u16, value: i64) -> (s: String)
    ensures
        s@ == param_text(param, dec_signed(value as int)),
{
    let mut s = String::new();
    s.push('P');
    push_u64_padded(&mut s, param as u64, 3);
    s.push('=');
    push_i64(&mut s, value);
    assert(s@ =~= param_text(param, dec_signed(value as int)));
    s
}

/// The content of a tool selection.
pub fn tool_content(tool_code: u16) -> (s: String)
    ensures
        s@ == "P007="@ + tool_code_text(tool_code),
{
    let mut s = String::from_str("P007=");
    push_u64_padded(&mut s, tool_code as u64, 4);
    s
}

/// The content of a conditional jump.
pub fn jump_if_content(condition: &str, label: &str) -> (s: String)
    ensures
        s@ == jump_if_text(condition@, label@),
{
    let mut s = String::from_str("JM(");
    s.append(condition);
    s.append("):");
    s.append(label);
    s
}

/// The view of an optional text.
pub open spec fn optional_text(c: Option<&str>) -> Option<Seq<char>> {
    match c {
        Some(axis) => Some(axis@),
        None => None,
    }
}

/// The content of a move under G-code `code`.
pub fn move_content(code: &str, x: &str, y: &str, c: Option<&str>) -> (s: String)
    ensures
        s@ == move_text(code@, x@, y@, optional_text(c)),
{
    let mut s = String::from_str(code);
    s.append(" X=");
    s.append(x);
    s.append(" Y=");
    s.append(y);
    match c {
        Some(axis) => {
            s.append(" C=");
            s.append(axis);
        },
        None => {},
    }
    s
}

/// The content of an arc under G-code `code`.
pub fn arc_content(code: &str, x: &str, y: &str, i: &str, j: &str) -> (s: String)
    ensures
        s@ == arc_text(code@, x@, y@, i@, j@),
{
    let mut s = String::from_str(code);
    s.append(" X=");
    s.append(x);
    s.append(" Y=");
    s.append(y);
    s.append(" I=");
    s.append(i);
    s.append(" J=");
    s.append(j);
    s
}

/// Writer of G-code lines, each numbered line taking the next line number.
pub struct GcodeWriter {
    line_number: u32,
    buffer: String,
}

impl GcodeWriter {
    /// The text written so far.
    pub closed spec fn text(&self) -> Seq<char> {
        self.buffer@
    }

    /// The number that the next numbered line takes.
    pub closed spec fn line(&self) -> u32 {
        self.line_number
    }

    /// Whether `count` more numbered lines can be written without a line
    /// number leaving the 32-bit range.
    pub open spec fn room(&self, count: nat) -> bool {
        self.line() + count * LINE_STEP <= u32::MAX
    }

    /// `self` is `pre` after one numbered line with `content`.
    pub open spec fn follows_line(&self, pre: &GcodeWriter, content: Seq<char>) -> bool {
        &&& self.text() == pre.text() + numbered_line(pre.line(), content)
        &&& self.line() == pre.line() + LINE_STEP
    }

    /// `self` is `pre` after the unnumbered `line`.
    pub open spec fn follows_raw(&self, pre: &GcodeWriter, line: Seq<char>) -> bool {
        &&& self.text() == pre.text() + line
        &&& self.line() == pre.line()
    }

    /// A writer with nothing written, whose first line is number 10.
    pub fn new() -> (w: GcodeWriter)
        ensures
            w.text() == Seq::<char>::empty(),
            w.line() == LINE_STEP,
    {
        GcodeWriter { line_number: LINE_STEP, buffer: String::new() }
    }

    /// A writer with nothing written, whose first line is number `start`.
    pub fn with_start(start: u32) -> (w: GcodeWriter)
        ensures
            w.text() == Seq::<char>::empty(),
            w.line() == start,
    {
        GcodeWriter { line_number: start, buffer: String::new() }
    }

    /// The number that the next numbered line takes.
    pub fn current_line(&self) -> (n: u32)
        ensures
            n == self.line(),
    {
        self.line_number
    }

    /// Whether `count` more numbered lines can be written.
    pub fn has_room(&self, count: u64) -> (r: bool)
        ensures
            r == self.room(count as nat),
    {
        if count > 0xFFFF_FFFF {
            return false;
        }
        self.line_number as u64 + count * 10 <= 0xFFFF_FFFF
    }

    /// The text written so far.
    pub fn output(&self) -> (s: &str)
        ensures
            s@ == self.text(),
    {
        self.buffer.as_str()
    }

    /// Gives up the writer for the text written.
    pub fn take_output(self) -> (s: String)
        ensures
            s@ == self.text(),
    {
        self.buffer
    }

    /// Writes `content` as a numbered line.
    pub fn write_line(&mut self, content: &str)
        requires
            old(self).room(1),
        ensures
            final(self).follows_line(old(self), content@),
    {
        self.buffer.push('N');
        push_u64(&mut self.buffer, self.line_number as u64);
        self.buffer.push(' ');
        self.buffer.append(content);
        self.buffer.push('\n');
        self.line_number = self.line_number + LINE_STEP;
        assert(self.buffer@ =~= old(self).buffer@ + numbered_line(old(self).line_number, content@));
    }

    /// Writes `content` as a line without a number.
    pub fn write_raw(&mut self, content: &str)
        ensures
            final(self).follows_raw(old(self), raw_line(content@)),
    {
        self.buffer.append(content);
        self.buffer.push('\n');
        assert(self.buffer@ =~= old(self).buffer@ + raw_line(content@));
    }

    /// Writes a comment line: a semicolon, a blank and the comment.
    pub fn write_comment(&mut self, comment: &str)
        ensures
            final(self).follows_raw(old(self), raw_line("; "@ + comment@)),
    {
        self.buffer.append("; ");
        self.buffer.append(comment);
        self.buffer.push('\n');
        assert(self.buffer@ =~= old(self).buffer@ + raw_line("; "@ + comment@));
    }

    /// Writes a label line: a colon and the label.
    pub fn write_label(&mut self, label: &str)
        ensures
            final(self).follows_raw(old(self), raw_line(":"@ + label@)),
    {
        self.buffer.append(":");
        self.buffer.append(label);
        self.buffer.push('\n');
        assert(self.buffer@ =~= old(self).buffer@ + raw_line(":"@ + label@));
    }

    /// Writes the line that ends a section: a lone percent sign.
    pub fn write_terminator(&mut self)
        ensures
            final(self).follows_raw(old(self), raw_line("%"@)),
    {
        self.buffer.append("%");
        self.buffer.push('\n');
        assert(self.buffer@ =~= old(self).buffer@ + raw_line("%"@));
    }

    /// Sets parameter `param` to the integer `value`.
    pub fn set_param(&mut self, param: u16, value: i64)
        requires
            old(self).room(1),
        ensures
            final(self).follows_line(old(self), param_text(param, dec_signed(value as int))),
    {
        let content = int_param_content(param, value);
        self.write_line(content.as_str());
    }

    /// Sets parameter `param` to a measure given as formatted text.
    pub fn set_param_text(&mut self, param: u16, value: &str)
        requires
            old(self).room(1),
        ensures
            final(self).follows_line(old(self), param_text(param, value@)),
    {
        let content = param_content(param, value);
        self.write_line(content.as_str());
    }

    /// Selects the tool: parameter 7 takes the tool code in four digits.
    pub fn set_tool(&mut self, tool_code: u16)
        requires
            old(self).room(1),
        ensures
            final(self).follows_line(old(self), "P007="@ + tool_code_text(tool_code)),
    {
        let content = tool_content(tool_code);
        self.write_line(content.as_str());
    }

    /// Sets the rotation angle, parameter 539, to a formatted angle.
    pub fn set_rotation(&mut self, angle: &str)
        requires
            old(self).room(1),
        ensures
            final(self).follows_line(old(self), "P539="@ + angle@),
    {
        let content = joined("P539=", angle);
        self.write_line(content.as_str());
    }

    /// Rapid move (G00) to `(x, y)`.
    pub fn rapid_move(&mut self, x: &str, y: &str, c: Option<&str>)
        requires
            old(self).room(1),
        ensures
            final(self).follows_line(
                old(self),
                move_text("G00"@, x@, y@, optional_text(c)),
            ),
    {
        let content = move_content("G00", x, y, c);
        self.write_line(content.as_str());
    }

    /// Linear interpolation (G01) to `(x, y)`.
    pub fn linear_move(&mut self, x: &str, y: &str, c: Option<&str>)
        requires
            old(self).room(1),
        ensures
            final(self).follows_line(
                old(self),
                move_text("G01"@, x@, y@, optional_text(c)),
            ),
    {
        let content = move_content("G01", x, y, c);
        self.write_line(content.as_str());
    }

    /// Clockwise arc (G02) to `(x, y)` round `(i, j)`.
    pub fn arc_cw(&mut self, x: &str, y: &str, i: &str, j: &str)
        requires
            old(self).room(1),
        ensures
            final(self).follows_line(old(self), arc_text("G02"@, x@, y@, i@, j@)),
    {
        let content = arc_content("G02", x, y, i, j);
        self.write_line(content.as_str());
    }

    /// Counter-clockwise arc (G03) to `(x, y)` round `(i, j)`.
    pub fn arc_ccw(&mut self, x: &str, y: &str, i: &str, j: &str)
        requires
            old(self).room(1),
        ensures
            final(self).follows_line(old(self), arc_text("G03"@, x@, y@, i@, j@)),
    {
        let content = arc_content("G03", x, y, i, j);
        self.write_line(content.as_str());
    }

    /// Calls the macro `name`.
    pub fn call_macro(&mut self, name: &str)
        requires
            old(self).room(1),
        ensures
            final(self).follows_line(old(self), "L="@ + name@),
    {
        let content = joined("L=", name);
        self.write_line(content.as_str());
    }

    /// Calls the subroutine at `label`.
    pub fn call_label(&mut self, label: &str)
        requires
            old(self).room(1),
        ensures
            final(self).follows_line(old(self), "L:"@ + label@),
    {
        let content = joined("L:", label);
        self.write_line(content.as_str());
    }

    /// Jumps to `label` where `condition` holds.
    pub fn jump_if(&mut self, condition: &str, label: &str)
        requires
            old(self).room(1),
        ensures
            final(self).follows_line(old(self), jump_if_text(condition@, label@)),
    {
        let content = jump_if_content(condition, label);
        self.write_line(content.as_str());
    }

    /// Jumps to `label`.
    pub fn jump(&mut self, label: &str)
        requires
            old(self).room(1),
        ensures
            final(self).follows_line(old(self), "JM:"@ + label@),
    {
        let content = joined("JM:", label);
        self.write_line(content.as_str());
    }

    /// Jumps to `label` where the compound `conditions` hold.
    pub fn jump_complex(&mut self, conditions: &str, label: &str)
        requires
            old(self).room(1),
        ensures
            final(self).follows_line(old(self), jump_if_text(conditions@, label@)),
    {
        self.jump_if(conditions, label);
    }

    /// Lifts the tool.
    pub fn tool_up(&mut self)
        requires
            old(self).room(1),
        ensures
            final(self).follows_line(old(self), "L="@ + "PT_SU"@),
    {
        self.call_macro("PT_SU");
    }

    /// Lowers the tool.
    pub fn tool_down(&mut self)
        requires
            old(self).room(1),
        ensures
            final(self).follows_line(old(self), "L="@ + "PT_GIU"@),
    {
        self.call_macro("PT_GIU");
    }

    /// Loads the selected tool.
    pub fn load_tool(&mut self)
        requires
            old(self).room(1),
        ensures
            final(self).follows_line(old(self), "L="@ + "PTOOL"@),
    {
        self.call_macro("PTOOL");
    }

    /// Applies the rotation that was set.
    pub fn apply_rotation(&mut self)
        requires
            old(self).room(1),
        ensures
            final(self).follows_line(old(self), "L="@ + "PROT_B"@),
    {
        self.call_macro("PROT_B");
    }

    /// Writes the direction code of a cut: 533 for a vertical cut, 532 for
    /// any other.
    pub fn direction_code(&mut self, is_vertical: bool)
        requires
            old(self).room(1),
        ensures
            final(self).follows_line(
                old(self),
                if is_vertical {
                    "M=533"@
                } else {
                    "M=532"@
                },
            ),
    {
        if is_vertical {
            self.write_line("M=533");
        } else {
            self.write_line("M=532");
        }
    }

    /// Selects the work offset (G58).
    pub fn set_work_offset(&mut self)
        requires
            old(self).room(1),
        ensures
            final(self).follows_line(old(self), "G58"@),
    {
        self.write_line("G58");
    }

    /// Sets the X offset to a formatted coordinate.
    pub fn set_xo(&mut self, value: &str)
        requires
            old(self).room(1),
        ensures
            final(self).follows_line(old(self), "XO="@ + value@),
    {
        let content = joined("XO=", value);
        self.write_line(content.as_str());
    }

    /// Sets the Y offset to a formatted coordinate.
    pub fn set_yo(&mut self, value: &str)
        requires
            old(self).room(1),
        ensures
            final(self).follows_line(old(self), "YO="@ + value@),
    {
        let content = joined("YO=", value);
        self.write_line(content.as_str());
    }

    /// Switches tangent mode on (G28).
    pub fn tangent_mode_on(&mut self)
        requires
            old(self).room(1),
        ensures
            final(self).follows_line(old(self), "G28"@),
    {
        self.write_line("G28");
    }

    /// Switches tangent mode off (G46).
    pub fn tangent_mode_off(&mut self)
        requires
            old(self).room(1),
        ensures
            final(self).follows_line(old(self), "G01 G46"@),
    {
        self.write_line("G01 G46");
    }

    /// Announces a continuous run of shaped cuts: the call of `PSETSAG`,
    /// then the run's length in parameter 203 and the tool in parameter 204.
    pub fn set_shape_params(&mut self, perimeter: &str, tool: i32)
        requires
            old(self).room(3),
        ensures
            final(self).text() == old(self).text() + numbered_line(
                old(self).line(),
                "L="@ + "PSETSAG"@,
            ) + numbered_line(
                (old(self).line() + LINE_STEP) as u32,
                param_text(203, perimeter@),
            ) + numbered_line(
                (old(self).line() + 2 * LINE_STEP) as u32,
                param_text(204, dec_signed(tool as int)),
            ),
            final(self).line() == old(self).line() + 3 * LINE_STEP,
    {
        self.call_macro("PSETSAG");
        self.set_param_text(203, perimeter);
        self.set_param(204, tool as i64);
    }
}

impl Default for GcodeWriter {
    fn default() -> (w: GcodeWriter)
        ensures
            w.text() == Seq::<char>::empty(),
            w.line() == LINE_STEP,
    {
        GcodeWriter::new()
    }
}

/// A tool code in four digits, with leading zeros.
pub fn format_tool_code(code: u16) -> (s: String)
    ensures
        s@ == tool_code_text(code),
{
    let mut s = String::new();
    push_u64_padded(&mut s, code as u64, 4);
    assert(s@ =~= tool_code_text(code));
    s
}

} // verus!
