//! The sections of a layout that hold one field to a line.

use crate::config::{lowercase_of, unit_of_name, Unit};
use crate::parser::fields::{parse_string_value, string_value};
use crate::text::{trim, trimmed};
use vstd::prelude::*;

verus! {

/// The texts of a list of lines.
pub open spec fn texts(lines: Seq<&str>) -> Seq<Seq<char>> {
    lines.map_values(|l: &str| l@)
}

/// Whether a trimmed line says nothing: it is empty, or a comment, which a
/// semicolon begins.
pub open spec fn is_blank_or_comment(t: Seq<char>) -> bool {
    t.len() == 0 || t[0] == ';'
}

/// Whether a trimmed line says nothing.
pub fn blank_or_comment(t: &str) -> (r: bool)
    ensures
        r == is_blank_or_comment(t@),
{
    t.unicode_len() == 0 || t.get_char(0) == ';'
}

// ---------------------------------------------------------------------------
// [Header]
// ---------------------------------------------------------------------------

/// What the `[Header]` section says.
#[derive(Debug, Default)]
pub struct HeaderData {
    /// Version of the format.
    pub otd_version: String,
    /// Unit of measurement.
    pub unit: Unit,
    /// Date of creation.
    pub date: String,
}

/// The content of a `HeaderData`.
pub struct HeaderFields {
    pub otd_version: Seq<char>,
    pub unit: Unit,
    pub date: Seq<char>,
}

impl View for HeaderData {
    type V = HeaderFields;

    open spec fn view(&self) -> HeaderFields {
        HeaderFields { otd_version: self.otd_version@, unit: self.unit, date: self.date@ }
    }
}

/// A header before any line is read: no version, millimetres, no date.
pub open spec fn empty_header() -> HeaderFields {
    HeaderFields { otd_version: Seq::empty(), unit: Unit::Millimeters, date: Seq::empty() }
}

/// The unit that the value of a `Dimension` field names; millimetres where
/// it names none.
pub open spec fn unit_of_dimension(value: Seq<char>) -> Unit {
    match unit_of_name(lowercase_of(trimmed(value))) {
        Some(u) => u,
        None => Unit::Millimeters,
    }
}

/// The header after one more line. A line sets at most one field: the
/// version (`OTDCutVersion` or `AWCutVersion`), the unit (`Dimension`) or
/// the date (`Date`).
pub open spec fn header_step(h: HeaderFields, line: Seq<char>) -> HeaderFields {
    let t = trimmed(line);
    if is_blank_or_comment(t) {
        h
    } else if let Some(v) = string_value(t, "OTDCutVersion"@) {
        HeaderFields { otd_version: v, ..h }
    } else if let Some(v) = string_value(t, "AWCutVersion"@) {
        HeaderFields { otd_version: v, ..h }
    } else if let Some(v) = string_value(t, "Dimension"@) {
        HeaderFields { unit: unit_of_dimension(v), ..h }
    } else if let Some(v) = string_value(t, "Date"@) {
        HeaderFields { date: v, ..h }
    } else {
        h
    }
}

/// The header that a list of lines gives: each line in turn, a later one
/// overriding an earlier one.
pub open spec fn header_of(lines: Seq<Seq<char>>) -> HeaderFields {
    lines.fold_left(empty_header(), |h: HeaderFields, l: Seq<char>| header_step(h, l))
}

/// Reads a `[Header]` section.
pub fn parse_header(lines: &[&str]) -> (data: HeaderData)
    ensures
        data@ == header_of(texts(lines@)),
{
    let mut data = HeaderData {
        otd_version: String::new(),
        unit: Unit::Millimeters,
        date: String::new(),
    };
    let ghost all = texts(lines@);
    let mut i: usize = 0;
    while i < lines.len()
        invariant
            i <= lines.len(),
            all == texts(lines@),
            data@ == header_of(all.take(i as int)),
        decreases lines.len() - i,
    {
        let line = trim(lines[i]);
        proof {
            assert(all.take(i + 1).drop_last() =~= all.take(i as int));
            assert(all.take(i + 1).last() == lines@[i as int]@);
        }
        if blank_or_comment(line) {
        } else if let Some(v) = parse_string_value(line, "OTDCutVersion") {
            data.otd_version = v;
        } else if let Some(v) = parse_string_value(line, "AWCutVersion") {
            data.otd_version = v;
        } else if let Some(v) = parse_string_value(line, "Dimension") {
            data.unit = match Unit::from_dimension_str(v.as_str()) {
                Some(u) => u,
                None => Unit::Millimeters,
            };
        } else if let Some(v) = parse_string_value(line, "Date") {
            data.date = v;
        }
        i += 1;
    }
    assert(all.take(lines.len() as int) =~= all);
    data
}

// ---------------------------------------------------------------------------
// [Signature]
// ---------------------------------------------------------------------------

/// What the `[Signature]` section says.
#[derive(Debug, Default)]
pub struct SignatureData {
    /// The program that wrote the layout.
    pub creator: String,
}

/// The creator after one more line.
pub open spec fn signature_step(creator: Seq<char>, line: Seq<char>) -> Seq<char> {
    let t = trimmed(line);
    if is_blank_or_comment(t) {
        creator
    } else if let Some(v) = string_value(t, "Creator"@) {
        v
    } else {
        creator
    }
}

/// The creator that a list of lines names: the value of the last
/// `Creator` field, nothing where there is none.
pub open spec fn creator_of(lines: Seq<Seq<char>>) -> Seq<char> {
    lines.fold_left(Seq::<char>::empty(), |c: Seq<char>, l: Seq<char>| signature_step(c, l))
}

/// Reads a `[Signature]` section.
pub fn parse_signature(lines: &[&str]) -> (data: SignatureData)
    ensures
        data.creator@ == creator_of(texts(lines@)),
{
    let mut data = SignatureData { creator: String::new() };
    let ghost all = texts(lines@);
    let mut i: usize = 0;
    while i < lines.len()
        invariant
            i <= lines.len(),
            all == texts(lines@),
            data.creator@ == creator_of(all.take(i as int)),
        decreases lines.len() - i,
    {
        let line = trim(lines[i]);
        proof {
            assert(all.take(i + 1).drop_last() =~= all.take(i as int));
            assert(all.take(i + 1).last() == lines@[i as int]@);
        }
        if blank_or_comment(line) {
        } else if let Some(v) = parse_string_value(line, "Creator") {
            data.creator = v;
        }
        i += 1;
    }
    assert(all.take(lines.len() as int) =~= all);
    data
}

} // verus!
