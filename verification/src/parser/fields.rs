//! `Key=Value` fields: one to a line, or several on one line.

use crate::number::{is_measure_syntax, is_measure_text, parse_i32, parse_i32_spec};
use crate::text::{
    find_char, find_from, lemma_find_char, lemma_find_char_is, lemma_find_char_none,
    lemma_ws_bounds, str_equal, to_chars, trim, trim_range, trimmed,
};
use vstd::prelude::*;

verus! {

/// Whether a character is a letter: one that Unicode marks `Alphabetic`.
pub uninterp spec fn alphabetic(c: char) -> bool;

/// Whether a character is a letter or a numeral: one that Unicode marks
/// `Alphabetic` or `Numeric`.
pub uninterp spec fn alphanumeric(c: char) -> bool;

/// `char::is_alphabetic`: whether Unicode marks the character
/// `Alphabetic`, a function of the character alone.
#[verifier::external_body]
fn is_alphabetic(c: char) -> (r: bool)
    ensures
        r == alphabetic(c),
{
    c.is_alphabetic()
}

/// `char::is_alphanumeric`: whether the character is alphabetic or numeric,
/// a function of the character alone.
#[verifier::external_body]
fn is_alphanumeric(c: char) -> (r: bool)
    ensures
        r == alphanumeric(c),
{
    c.is_alphanumeric()
}

// ---------------------------------------------------------------------------
// One field to a line
// ---------------------------------------------------------------------------

/// The key and the value of a line: what stands before the first `=` and
/// what stands behind it, each trimmed. A line without `=` has neither.
pub open spec fn key_value(line: Seq<char>) -> Option<(Seq<char>, Seq<char>)> {
    match find_char(line, '=') {
        Some(p) => Some(
            (trimmed(line.subrange(0, p)), trimmed(line.subrange(p + 1, line.len() as int))),
        ),
        None => None,
    }
}

/// The value of a line whose key is `key`.
pub open spec fn string_value(line: Seq<char>, key: Seq<char>) -> Option<Seq<char>> {
    match key_value(line) {
        Some((k, v)) => if k == key {
            Some(v)
        } else {
            None
        },
        None => None,
    }
}

/// The integer value of a line whose key is `key`.
pub open spec fn int_value(line: Seq<char>, key: Seq<char>) -> Option<i32> {
    match string_value(line, key) {
        Some(v) => parse_i32_spec(v),
        None => None,
    }
}

/// The value of a line whose key is `key`, where it is written as a
/// measure is.
pub open spec fn measure_value(line: Seq<char>, key: Seq<char>) -> Option<Seq<char>> {
    match string_value(line, key) {
        Some(v) => if is_measure_syntax(v) {
            Some(v)
        } else {
            None
        },
        None => None,
    }
}

/// The views of a key and a value.
pub open spec fn pair_view(p: (&str, &str)) -> (Seq<char>, Seq<char>) {
    (p.0@, p.1@)
}

/// The key and the value of a line.
pub fn parse_key_value(line: &str) -> (r: Option<(&str, &str)>)
    ensures
        match r {
            Some(p) => key_value(line@) == Some(pair_view(p)),
            None => key_value(line@) is None,
        },
{
    let v = to_chars(line);
    assert(v@.subrange(0, v.len() as int) == v@);
    match find_from(&v, '=', 0) {
        Some(p) => {
            let (ka, kb) = trim_range(&v, 0, p);
            let (va, vb) = trim_range(&v, p + 1, v.len());
            Some((line.substring_char(ka, kb), line.substring_char(va, vb)))
        },
        None => None,
    }
}

/// The value of a line whose key is `key`.
pub fn parse_string_value(line: &str, key: &str) -> (r: Option<String>)
    ensures
        match r {
            Some(s) => string_value(line@, key@) == Some(s@),
            None => string_value(line@, key@) is None,
        },
{
    match parse_key_value(line) {
        Some((k, v)) => {
            if str_equal(k, key) {
                Some(v.to_owned())
            } else {
                None
            }
        },
        None => None,
    }
}

/// The integer value of a line whose key is `key`.
pub fn parse_int_value(line: &str, key: &str) -> (r: Option<i32>)
    ensures
        r == int_value(line@, key@),
{
    match parse_key_value(line) {
        Some((k, v)) => {
            if str_equal(k, key) {
                parse_i32(v)
            } else {
                None
            }
        },
        None => None,
    }
}

/// The value of a line whose key is `key`, where it is written as a
/// measure is. The text is handed on as it stands; turning it into a
/// number is the caller's.
pub fn parse_float_value(line: &str, key: &str) -> (r: Option<String>)
    ensures
        match r {
            Some(s) => measure_value(line@, key@) == Some(s@),
            None => measure_value(line@, key@) is None,
        },
{
    match parse_key_value(line) {
        Some((k, v)) => {
            if str_equal(k, key) && is_measure_text(v) {
                Some(v.to_owned())
            } else {
                None
            }
        },
        None => None,
    }
}

// ---------------------------------------------------------------------------
// Several fields on one line
// ---------------------------------------------------------------------------

/// Whether a key begins at index `i` of `t`: a letter stands there, an `=`
/// follows somewhere, and letters and numerals alone stand in between.
pub open spec fn begins_key(t: Seq<char>, i: int) -> bool {
    let rest = t.subrange(i, t.len() as int);
    alphabetic(t[i]) && match find_char(rest, '=') {
        Some(q) => forall|k: int| 0 <= k < q ==> alphanumeric(#[trigger] rest[k]),
        None => false,
    }
}

/// The first index from `i` on at which a key begins in `t`; the length of
/// `t` where none does.
pub open spec fn value_end_from(t: Seq<char>, i: int) -> int
    decreases t.len() - i,
{
    if i >= t.len() {
        t.len() as int
    } else if begins_key(t, i) {
        i
    } else {
        value_end_from(t, i + 1)
    }
}

/// Where the value ends that `t` begins with: at the next key, which is
/// looked for from the second character on, or at the end of `t`.
pub open spec fn value_end(t: Seq<char>) -> int {
    value_end_from(t, 1)
}

/// The end of a value lies within the text.
pub proof fn lemma_value_end_from(t: Seq<char>, i: int)
    requires
        0 <= i,
    ensures
        value_end_from(t, i) <= t.len() || value_end_from(t, i) == i,
        i <= t.len() ==> i <= value_end_from(t, i) <= t.len(),
    decreases t.len() - i,
{
    if i < t.len() && !begins_key(t, i) {
        lemma_value_end_from(t, i + 1);
    }
}

/// The fields of a trimmed text `s`, in order. Each field runs from a key
/// to the next key; what stands before the first `=` is the first key.
/// Keys and values are trimmed.
pub open spec fn fields_of(s: Seq<char>) -> Seq<(Seq<char>, Seq<char>)>
    decreases s.len(),
{
    match find_char(s, '=') {
        None => Seq::empty(),
        Some(p) => {
            let after = s.subrange(p + 1, s.len() as int);
            let e = value_end(after);
            let rest = trimmed(after.subrange(e, after.len() as int));
            if 0 <= p < s.len() && 0 <= e <= after.len() && rest.len() < s.len() {
                seq![(trimmed(s.subrange(0, p)), trimmed(after.subrange(0, e)))] + fields_of(rest)
            } else {
                Seq::empty()
            }
        },
    }
}

/// The fields of a line.
pub open spec fn multi_values(line: Seq<char>) -> Seq<(Seq<char>, Seq<char>)> {
    fields_of(trimmed(line))
}

/// The bounds that `fields_of` tests always hold, so that it always takes
/// the branch that yields a field.
pub proof fn lemma_fields_step(s: Seq<char>)
    ensures
        match find_char(s, '=') {
            None => true,
            Some(p) => {
                let after = s.subrange(p + 1, s.len() as int);
                let e = value_end(after);
                let rest = trimmed(after.subrange(e, after.len() as int));
                0 <= p < s.len() && 0 <= e <= after.len() && rest.len() < s.len()
            },
        },
{
    lemma_find_char(s, '=');
    match find_char(s, '=') {
        None => {},
        Some(p) => {
            let after = s.subrange(p + 1, s.len() as int);
            lemma_value_end_from(after, 1);
            let e = value_end(after);
            if after.len() == 0 {
                assert(e == 0);
            }
            lemma_ws_bounds(after.subrange(e, after.len() as int));
        },
    }
}

/// Whether a key begins at index `i` of `v[from..to]`.
fn begins_key_at(v: &Vec<char>, from: usize, to: usize, i: usize) -> (r: bool)
    requires
        from <= i < to <= v.len(),
    ensures
        r == begins_key(v@.subrange(from as int, to as int), i - from),
{
    let ghost t = v@.subrange(from as int, to as int);
    let ghost rest = t.subrange(i - from, t.len() as int);
    assert(rest =~= v@.subrange(i as int, to as int));
    assert(t[i - from] == v@[i as int]);
    if !is_alphabetic(v[i]) {
        return false;
    }
    let mut k: usize = i;
    while k < to
        invariant
            from <= i <= k <= to <= v.len(),
            i < to,
            t == v@.subrange(from as int, to as int),
            rest == t.subrange(i - from, t.len() as int),
            alphabetic(t[i - from]),
            rest == v@.subrange(i as int, to as int),
            forall|j: int| 0 <= j < k - i ==> rest[j] != '=',
            forall|j: int| 0 <= j < k - i ==> alphanumeric(#[trigger] rest[j]),
        decreases to - k,
    {
        assert(rest[k - i] == v@[k as int]);
        if v[k] == '=' {
            proof {
                lemma_find_char_is(rest, '=', k - i);
            }
            return true;
        }
        if !is_alphanumeric(v[k]) {
            proof {
                lemma_find_char(rest, '=');
                match find_char(rest, '=') {
                    Some(q) => {
                        assert(q > k - i);
                        assert(!alphanumeric(rest[k - i]));
                    },
                    None => {},
                }
            }
            return false;
        }
        k += 1;
    }
    proof {
        lemma_find_char_none(rest, '=');
    }
    false
}

/// Where the value ends that `v[from..to]` begins with.
fn value_end_at(v: &Vec<char>, from: usize, to: usize) -> (r: usize)
    requires
        from <= to <= v.len(),
    ensures
        from <= r <= to,
        r - from == value_end(v@.subrange(from as int, to as int)),
{
    let ghost t = v@.subrange(from as int, to as int);
    if from == to {
        return to;
    }
    let mut i: usize = from + 1;
    while i < to
        invariant
            from < i <= to <= v.len(),
            t == v@.subrange(from as int, to as int),
            value_end(t) == value_end_from(t, i - from),
        decreases to - i,
    {
        if begins_key_at(v, from, to, i) {
            return i;
        }
        i += 1;
    }
    to
}

/// The views of a list of fields.
pub open spec fn pair_views(pairs: Seq<(&str, &str)>) -> Seq<(Seq<char>, Seq<char>)> {
    pairs.map_values(|p: (&str, &str)| pair_view(p))
}

/// The fields of a line that holds several of them, `key=value` after
/// `key=value`, in order.
pub fn parse_multi_values(line: &str) -> (r: Vec<(&str, &str)>)
    ensures
        pair_views(r@) == multi_values(line@),
{
    let t = trim(line);
    let v = to_chars(t);
    let mut out: Vec<(&str, &str)> = Vec::new();
    let mut a: usize = 0;
    let mut b: usize = v.len();
    let mut done = false;
    assert(v@.subrange(0, v.len() as int) == v@);
    assert(pair_views(out@) =~= Seq::empty());
    while !done
        invariant
            a <= b <= v.len(),
            v@ == t@,
            !done ==> multi_values(line@) == pair_views(out@) + fields_of(
                v@.subrange(a as int, b as int),
            ),
            done ==> multi_values(line@) == pair_views(out@),
        decreases b - a + (if done {
            0int
        } else {
            1int
        }),
    {
        let ghost s = v@.subrange(a as int, b as int);
        proof {
            lemma_fields_step(s);
        }
        match find_in(&v, '=', a, b) {
            None => {
                done = true;
                assert(fields_of(s) =~= Seq::empty());
            },
            Some(p) => {
                let ghost after = s.subrange(p - a + 1, s.len() as int);
                assert(after =~= v@.subrange(p + 1, b as int));
                assert(s.subrange(0, p - a) =~= v@.subrange(a as int, p as int));
                let (ka, kb) = trim_range(&v, a, p);
                let e = value_end_at(&v, p + 1, b);
                assert(after.subrange(0, e - (p + 1)) =~= v@.subrange(p + 1, e as int));
                assert(after.subrange(e - (p + 1), after.len() as int) =~= v@.subrange(
                    e as int,
                    b as int,
                ));
                let (va, vb) = trim_range(&v, p + 1, e);
                let key = t.substring_char(ka, kb);
                let value = t.substring_char(va, vb);
                let (na, nb) = trim_range(&v, e, b);
                let ghost before = out@;
                out.push((key, value));
                proof {
                    let field = (key@, value@);
                    let rest = v@.subrange(na as int, nb as int);
                    assert(fields_of(s) == seq![field] + fields_of(rest));
                    assert(pair_views(out@) =~= pair_views(before) + seq![field]);
                    assert(pair_views(before) + (seq![field] + fields_of(rest)) =~= pair_views(
                        out@,
                    ) + fields_of(rest));
                }
                a = na;
                b = nb;
            },
        }
    }
    out
}

/// The first index in `v[from..to]` that holds `c`.
fn find_in(v: &Vec<char>, c: char, from: usize, to: usize) -> (r: Option<usize>)
    requires
        from <= to <= v.len(),
    ensures
        match r {
            Some(i) => from <= i < to && find_char(v@.subrange(from as int, to as int), c)
                == Some(i - from),
            None => find_char(v@.subrange(from as int, to as int), c) is None,
        },
{
    let ghost s = v@.subrange(from as int, to as int);
    let mut i: usize = from;
    while i < to
        invariant
            from <= i <= to <= v.len(),
            s == v@.subrange(from as int, to as int),
            forall|j: int| 0 <= j < i - from ==> s[j] != c,
        decreases to - i,
    {
        if v[i] == c {
            proof {
                lemma_find_char_is(s, c, i - from);
            }
            return Some(i);
        }
        i += 1;
    }
    proof {
        lemma_find_char_none(s, c);
    }
    None
}

} // verus!
