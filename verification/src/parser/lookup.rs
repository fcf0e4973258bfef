//! Looking fields up in the lines of a section, and in the fields of a
//! line.
//!
//! Where a section sets a field more than once, the last setting that can
//! be read counts.

use crate::number::{is_measure_syntax, is_measure_text, parse_i32, parse_i32_spec};
use crate::parser::fields::{
    int_value, measure_value, pair_views, parse_float_value, parse_int_value, parse_string_value,
    string_value,
};
use crate::parser::sections::{blank_or_comment, is_blank_or_comment, texts};
use crate::text::{str_equal, trim, trimmed};
use vstd::prelude::*;

verus! {

/// The value that `line` gives to `key`, as a string: none where the line
/// is blank, a comment, or sets another key.
pub open spec fn line_string(line: Seq<char>, key: Seq<char>) -> Option<Seq<char>> {
    let t = trimmed(line);
    if is_blank_or_comment(t) {
        None
    } else {
        string_value(t, key)
    }
}

/// The value that `line` gives to `key`, as an integer: none where the
/// line does not give one that can be read.
pub open spec fn line_int(line: Seq<char>, key: Seq<char>) -> Option<i32> {
    let t = trimmed(line);
    if is_blank_or_comment(t) {
        None
    } else {
        int_value(t, key)
    }
}

/// The value that `line` gives to `key`, as the text of a measure: none
/// where the line does not give one that is written as a measure is.
pub open spec fn line_measure(line: Seq<char>, key: Seq<char>) -> Option<Seq<char>> {
    let t = trimmed(line);
    if is_blank_or_comment(t) {
        None
    } else {
        measure_value(t, key)
    }
}

/// The string that the last line to set `key` gives it.
pub open spec fn last_string(lines: Seq<Seq<char>>, key: Seq<char>) -> Option<Seq<char>>
    decreases lines.len(),
{
    if lines.len() == 0 {
        None
    } else {
        match line_string(lines.last(), key) {
            Some(v) => Some(v),
            None => last_string(lines.drop_last(), key),
        }
    }
}

/// The integer that the last line to set `key` to one gives it.
pub open spec fn last_int(lines: Seq<Seq<char>>, key: Seq<char>) -> Option<i32>
    decreases lines.len(),
{
    if lines.len() == 0 {
        None
    } else {
        match line_int(lines.last(), key) {
            Some(v) => Some(v),
            None => last_int(lines.drop_last(), key),
        }
    }
}

/// The measure that the last line to set `key` to one gives it.
pub open spec fn last_measure(lines: Seq<Seq<char>>, key: Seq<char>) -> Option<Seq<char>>
    decreases lines.len(),
{
    if lines.len() == 0 {
        None
    } else {
        match line_measure(lines.last(), key) {
            Some(v) => Some(v),
            None => last_measure(lines.drop_last(), key),
        }
    }
}

/// The string that the last of the first `count` lines to set `key` gives
/// it.
pub fn find_string(lines: &[&str], count: usize, key: &str) -> (r: Option<String>)
    requires
        count <= lines.len(),
    ensures
        match r {
            Some(s) => last_string(texts(lines@).take(count as int), key@) == Some(s@),
            None => last_string(texts(lines@).take(count as int), key@) is None,
        },
{
    let ghost all = texts(lines@).take(count as int);
    let mut i: usize = count;
    assert(all.take(count as int) =~= all);
    while i > 0
        invariant
            i <= count <= lines.len(),
            all == texts(lines@).take(count as int),
            last_string(all, key@) == last_string(all.take(i as int), key@),
        decreases i,
    {
        i -= 1;
        let line = trim(lines[i]);
        proof {
            assert(all.take(i + 1).drop_last() =~= all.take(i as int));
            assert(all.take(i + 1).last() == lines@[i as int]@);
        }
        if !blank_or_comment(line) {
            match parse_string_value(line, key) {
                Some(s) => {
                    return Some(s);
                },
                None => {},
            }
        }
    }
    None
}

/// The integer that the last of the first `count` lines to set `key` to
/// one gives it.
pub fn find_int(lines: &[&str], count: usize, key: &str) -> (r: Option<i32>)
    requires
        count <= lines.len(),
    ensures
        r == last_int(texts(lines@).take(count as int), key@),
{
    let ghost all = texts(lines@).take(count as int);
    let mut i: usize = count;
    assert(all.take(count as int) =~= all);
    while i > 0
        invariant
            i <= count <= lines.len(),
            all == texts(lines@).take(count as int),
            last_int(all, key@) == last_int(all.take(i as int), key@),
        decreases i,
    {
        i -= 1;
        let line = trim(lines[i]);
        proof {
            assert(all.take(i + 1).drop_last() =~= all.take(i as int));
            assert(all.take(i + 1).last() == lines@[i as int]@);
        }
        if !blank_or_comment(line) {
            match parse_int_value(line, key) {
                Some(v) => {
                    return Some(v);
                },
                None => {},
            }
        }
    }
    None
}

/// The measure that the last of the first `count` lines to set `key` to
/// one gives it.
pub fn find_measure(lines: &[&str], count: usize, key: &str) -> (r: Option<String>)
    requires
        count <= lines.len(),
    ensures
        match r {
            Some(s) => last_measure(texts(lines@).take(count as int), key@) == Some(s@),
            None => last_measure(texts(lines@).take(count as int), key@) is None,
        },
{
    let ghost all = texts(lines@).take(count as int);
    let mut i: usize = count;
    assert(all.take(count as int) =~= all);
    while i > 0
        invariant
            i <= count <= lines.len(),
            all == texts(lines@).take(count as int),
            last_measure(all, key@) == last_measure(all.take(i as int), key@),
        decreases i,
    {
        i -= 1;
        let line = trim(lines[i]);
        proof {
            assert(all.take(i + 1).drop_last() =~= all.take(i as int));
            assert(all.take(i + 1).last() == lines@[i as int]@);
        }
        if !blank_or_comment(line) {
            match parse_float_value(line, key) {
                Some(s) => {
                    return Some(s);
                },
                None => {},
            }
        }
    }
    None
}

// ---------------------------------------------------------------------------
// Fields of one line
// ---------------------------------------------------------------------------

/// The value of the last of `fields` whose key is `key`.
pub open spec fn last_field(fields: Seq<(Seq<char>, Seq<char>)>, key: Seq<char>) -> Option<Seq<char>>
    decreases fields.len(),
{
    if fields.len() == 0 {
        None
    } else if fields.last().0 == key {
        Some(fields.last().1)
    } else {
        last_field(fields.drop_last(), key)
    }
}

/// The integer that the last field with key `key` gives; none where there
/// is no such field or its value is no integer.
pub open spec fn field_int(fields: Seq<(Seq<char>, Seq<char>)>, key: Seq<char>) -> Option<i32> {
    match last_field(fields, key) {
        Some(v) => parse_i32_spec(v),
        None => None,
    }
}

/// The measure that the last field with key `key` gives; none where there
/// is no such field or its value is not written as a measure is.
pub open spec fn field_measure(
    fields: Seq<(Seq<char>, Seq<char>)>,
    key: Seq<char>,
) -> Option<Seq<char>> {
    match last_field(fields, key) {
        Some(v) => if is_measure_syntax(v) {
            Some(v)
        } else {
            None
        },
        None => None,
    }
}

/// The value of the last of `fields[from..]` whose key is `key`.
pub fn find_field<'a>(
    fields: &Vec<(&'a str, &'a str)>,
    from: usize,
    key: &str,
) -> (r: Option<&'a str>)
    requires
        from <= fields.len(),
    ensures
        match r {
            Some(v) => last_field(
                pair_views(fields@).subrange(from as int, fields.len() as int),
                key@,
            ) == Some(v@),
            None => last_field(
                pair_views(fields@).subrange(from as int, fields.len() as int),
                key@,
            ) is None,
        },
{
    let ghost all = pair_views(fields@).subrange(
        from as int,
        fields.len() as int,
    );
    let mut i: usize = fields.len();
    assert(all.take(fields.len() - from) =~= all);
    while i > from
        invariant
            from <= i <= fields.len(),
            all == pair_views(fields@).subrange(
                from as int,
                fields.len() as int,
            ),
            last_field(all, key@) == last_field(all.take(i - from), key@),
        decreases i,
    {
        i -= 1;
        proof {
            assert(all.take(i + 1 - from).drop_last() =~= all.take(i - from));
            assert(all.take(i + 1 - from).last() == (fields@[i as int].0@, fields@[i as int].1@));
        }
        if str_equal(fields[i].0, key) {
            return Some(fields[i].1);
        }
    }
    None
}

/// The integer that the last of `fields[from..]` with key `key` gives.
pub fn find_field_int(fields: &Vec<(&str, &str)>, from: usize, key: &str) -> (r: Option<i32>)
    requires
        from <= fields.len(),
    ensures
        r == field_int(
            pair_views(fields@).subrange(from as int, fields.len() as int),
            key@,
        ),
{
    match find_field(fields, from, key) {
        Some(v) => parse_i32(v),
        None => None,
    }
}

/// The measure that the last of `fields[from..]` with key `key` gives.
pub fn find_field_measure(fields: &Vec<(&str, &str)>, from: usize, key: &str) -> (r: Option<String>)
    requires
        from <= fields.len(),
    ensures
        match r {
            Some(s) => field_measure(
                pair_views(fields@).subrange(from as int, fields.len() as int),
                key@,
            ) == Some(s@),
            None => field_measure(
                pair_views(fields@).subrange(from as int, fields.len() as int),
                key@,
            ) is None,
        },
{
    match find_field(fields, from, key) {
        Some(v) => if is_measure_text(v) {
            Some(v.to_owned())
        } else {
            None
        },
        None => None,
    }
}

} // verus!
