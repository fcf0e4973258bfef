//! Decimal notation for integers: writing and reading.

use crate::text::{digit_char, digit_value, is_digit, to_chars};
use vstd::prelude::*;

verus! {

// ---------------------------------------------------------------------------
// Writing
// ---------------------------------------------------------------------------

/// The decimal digits of `n`, most significant first, without leading zeros.
pub open spec fn dec_digits(n: nat) -> Seq<char>
    decreases n,
{
    if n < 10 {
        seq![digit_char(n as int)]
    } else {
        dec_digits(n / 10).push(digit_char((n % 10) as int))
    }
}

/// The decimal notation of `n`, with a minus sign where it is negative.
pub open spec fn dec_signed(n: int) -> Seq<char> {
    if n < 0 {
        seq!['-'] + dec_digits((-n) as nat)
    } else {
        dec_digits(n as nat)
    }
}

/// `s` with as many `fill` characters put before it as it takes to reach
/// `width` characters; `s` itself where it is that long already.
pub open spec fn pad_left(s: Seq<char>, width: nat, fill: char) -> Seq<char> {
    if s.len() >= width {
        s
    } else {
        Seq::new((width - s.len()) as nat, |i: int| fill) + s
    }
}

/// The character of the digit `d`.
pub fn digit_to_char(d: u8) -> (c: char)
    requires
        d < 10,
    ensures
        c == digit_char(d as int),
        is_digit(c),
{
    (48u8 + d) as char
}

/// Appends the decimal digits of `n` to `out`.
pub fn push_u64(out: &mut String, n: u64)
    ensures
        final(out)@ == old(out)@ + dec_digits(n as nat),
    decreases n,
{
    if n >= 10 {
        push_u64(out, n / 10);
    }
    out.push(digit_to_char((n % 10) as u8));
    assert(out@ =~= old(out)@ + dec_digits(n as nat));
}

/// Appends the decimal notation of `n` to `out`.
pub fn push_i64(out: &mut String, n: i64)
    ensures
        final(out)@ == old(out)@ + dec_signed(n as int),
{
    if n < 0 {
        out.push('-');
        let m: u64 = if n == i64::MIN {
            9223372036854775808u64
        } else {
            (-n) as u64
        };
        push_u64(out, m);
        assert(out@ =~= old(out)@ + dec_signed(n as int));
    } else {
        push_u64(out, n as u64);
    }
}

/// The decimal notation of `n`.
pub fn u64_to_string(n: u64) -> (s: String)
    ensures
        s@ == dec_digits(n as nat),
{
    let mut s = String::new();
    push_u64(&mut s, n);
    assert(s@ =~= dec_digits(n as nat));
    s
}

/// The decimal notation of `n`.
pub fn i64_to_string(n: i64) -> (s: String)
    ensures
        s@ == dec_signed(n as int),
{
    let mut s = String::new();
    push_i64(&mut s, n);
    assert(s@ =~= dec_signed(n as int));
    s
}

/// Appends `count` copies of `fill` to `out`.
pub fn push_fill(out: &mut String, fill: char, count: usize)
    ensures
        final(out)@ == old(out)@ + Seq::new(count as nat, |i: int| fill),
{
    let mut i: usize = 0;
    while i < count
        invariant
            i <= count,
            out@ == old(out)@ + Seq::new(i as nat, |k: int| fill),
        decreases count - i,
    {
        out.push(fill);
        i += 1;
        assert(out@ =~= old(out)@ + Seq::new(i as nat, |k: int| fill));
    }
}

/// Appends the characters of `s` to `out`, after the `fill` characters that
/// bring them to `width`.
pub fn push_padded(out: &mut String, s: &str, width: usize, fill: char)
    ensures
        final(out)@ == old(out)@ + pad_left(s@, width as nat, fill),
{
    let n = s.unicode_len();
    if n < width {
        push_fill(out, fill, width - n);
    }
    out.append(s);
    assert(out@ =~= old(out)@ + pad_left(s@, width as nat, fill));
}

/// Appends the digits of `n`, with zeros before them up to `width` digits.
pub fn push_u64_padded(out: &mut String, n: u64, width: usize)
    ensures
        final(out)@ == old(out)@ + pad_left(dec_digits(n as nat), width as nat, '0'),
{
    let d = u64_to_string(n);
    push_padded(out, d.as_str(), width, '0');
}

// ---------------------------------------------------------------------------
// Reading
// ---------------------------------------------------------------------------

/// Whether every character of `s` is a decimal digit.
pub open spec fn all_digits(s: Seq<char>) -> bool {
    forall|i: int| 0 <= i < s.len() ==> is_digit(#[trigger] s[i])
}

/// The number that a run of decimal digits stands for.
pub open spec fn digits_value(s: Seq<char>) -> int
    decreases s.len(),
{
    if s.len() == 0 {
        0
    } else {
        digits_value(s.drop_last()) * 10 + digit_value(s.last())
    }
}

/// The digits of a signed decimal: `s` without the sign it may begin with.
pub open spec fn unsigned_part(s: Seq<char>) -> Seq<char> {
    if s.len() > 0 && (s[0] == '-' || s[0] == '+') {
        s.drop_first()
    } else {
        s
    }
}

/// The integer that `s` denotes: an optional `+` or `-`, then one or more
/// decimal digits and nothing else, the value within the 32-bit signed
/// range. Anything else denotes no integer.
pub open spec fn parse_i32_spec(s: Seq<char>) -> Option<i32> {
    let body = unsigned_part(s);
    let magnitude = digits_value(body);
    let value = if s.len() > 0 && s[0] == '-' {
        -magnitude
    } else {
        magnitude
    };
    if body.len() > 0 && all_digits(body) && i32::MIN <= value <= i32::MAX {
        Some(value as i32)
    } else {
        None
    }
}

/// A run of digits never stands for a negative number, and a longer run
/// never for a smaller one than its beginning.
pub proof fn lemma_digits_value_grows(s: Seq<char>, k: int)
    requires
        all_digits(s),
        0 <= k <= s.len(),
    ensures
        0 <= digits_value(s.subrange(0, k)) <= digits_value(s),
    decreases s.len() - k,
{
    lemma_digits_value_nonneg(s.subrange(0, k));
    if k < s.len() {
        let t = s.drop_last();
        assert(all_digits(t));
        if k <= t.len() {
            assert(t.subrange(0, k) =~= s.subrange(0, k));
            lemma_digits_value_grows(t, k);
        }
        lemma_digits_value_nonneg(t);
    } else {
        assert(s.subrange(0, k) =~= s);
    }
}

proof fn lemma_digits_value_nonneg(s: Seq<char>)
    requires
        all_digits(s),
    ensures
        0 <= digits_value(s),
    decreases s.len(),
{
    if s.len() > 0 {
        assert(all_digits(s.drop_last()));
        lemma_digits_value_nonneg(s.drop_last());
        assert(is_digit(s.last()));
    }
}

/// The integer that `v[from..to]` denotes.
pub fn parse_i32_range(v: &Vec<char>, from: usize, to: usize) -> (r: Option<i32>)
    requires
        from <= to <= v.len(),
    ensures
        r == parse_i32_spec(v@.subrange(from as int, to as int)),
{
    let ghost s = v@.subrange(from as int, to as int);
    if from == to {
        return None;
    }
    let negative = v[from] == '-';
    let start: usize = if v[from] == '-' || v[from] == '+' {
        from + 1
    } else {
        from
    };
    let ghost body = unsigned_part(s);
    assert(body =~= v@.subrange(start as int, to as int));
    if start == to {
        return None;
    }
    let mut acc: i64 = 0;
    let mut i: usize = start;
    while i < to
        invariant
            from < to,
            start <= i <= to <= v.len(),
            s == v@.subrange(from as int, to as int),
            body == unsigned_part(s),
            negative == (s[0] == '-'),
            body == v@.subrange(start as int, to as int),
            all_digits(body.subrange(0, i - start)),
            acc == digits_value(body.subrange(0, i - start)),
            0 <= acc <= 2147483648,
        decreases to - i,
    {
        let c = v[i];
        assert(c == body[i - start]);
        if !('0' <= c && c <= '9') {
            assert(!all_digits(body));
            return None;
        }
        let d: i64 = (c as u32 - '0' as u32) as i64;
        let ghost prev = body.subrange(0, i - start);
        let ghost next = body.subrange(0, i - start + 1);
        assert(next.drop_last() =~= prev);
        assert(next.last() == c);
        assert(all_digits(next)) by {
            assert forall|k: int| 0 <= k < next.len() implies is_digit(#[trigger] next[k]) by {
                if k < prev.len() {
                    assert(next[k] == prev[k]);
                }
            }
        }
        let wide: i64 = acc * 10 + d;
        assert(wide == digits_value(next));
        if wide > 2147483648 {
            proof {
                // the value can only grow with further digits, should they all be digits
                if all_digits(body) {
                    lemma_digits_value_grows(body, i - start + 1);
                }
            }
            return None;
        }
        acc = wide;
        i += 1;
    }
    assert(body.subrange(0, to - start) =~= body);
    if negative {
        Some((-acc) as i32)
    } else if acc > 2147483647 {
        None
    } else {
        Some(acc as i32)
    }
}

/// The integer that `s` denotes.
pub fn parse_i32(s: &str) -> (r: Option<i32>)
    ensures
        r == parse_i32_spec(s@),
{
    let v = to_chars(s);
    assert(v@.subrange(0, v.len() as int) == v@);
    parse_i32_range(&v, 0, v.len())
}

// ---------------------------------------------------------------------------
// Decimal fractions
// ---------------------------------------------------------------------------

/// The lowercase form of an ASCII capital; any other character itself.
pub open spec fn lower_ascii(c: char) -> char {
    if 'A' <= c <= 'Z' {
        ((c as u32) + 32) as char
    } else {
        c
    }
}

/// Whether `s` is `word` without regard to the case of ASCII letters.
/// `word` is in lowercase.
pub open spec fn is_word(s: Seq<char>, word: Seq<char>) -> bool {
    s.len() == word.len() && forall|i: int| 0 <= i < s.len() ==> lower_ascii(#[trigger] s[i]) == word[i]
}

/// How many decimal digits `s` begins with.
pub open spec fn leading_digits(s: Seq<char>) -> nat
    decreases s.len(),
{
    if s.len() > 0 && is_digit(s.first()) {
        1 + leading_digits(s.drop_first())
    } else {
        0
    }
}

/// Whether `s` is an exponent: `e` or `E`, an optional sign, and one or
/// more digits.
pub open spec fn is_exponent(s: Seq<char>) -> bool {
    &&& s.len() >= 2
    &&& lower_ascii(s[0]) == 'e'
    &&& {
        let digits = unsigned_part(s.drop_first());
        digits.len() >= 1 && all_digits(digits)
    }
}

/// Whether `s` is a number without sign: digits with at most one decimal
/// point among them, before it or behind it at least one digit, and an
/// optional exponent.
pub open spec fn is_unsigned_number(s: Seq<char>) -> bool {
    let whole = leading_digits(s);
    let after_whole = s.subrange(whole as int, s.len() as int);
    let has_point = after_whole.len() > 0 && after_whole[0] == '.';
    let after_point = if has_point {
        after_whole.drop_first()
    } else {
        after_whole
    };
    let fraction = if has_point {
        leading_digits(after_point)
    } else {
        0
    };
    let tail = after_point.subrange(fraction as int, after_point.len() as int);
    whole + fraction >= 1 && (tail.len() == 0 || is_exponent(tail))
}

/// Whether `s` is written as a measure is: an optional sign, then a number
/// in decimal notation, or one of the words `inf`, `infinity` and `nan` in
/// letters of either case.
pub open spec fn is_measure_syntax(s: Seq<char>) -> bool {
    let body = unsigned_part(s);
    is_word(body, "inf"@) || is_word(body, "infinity"@) || is_word(body, "nan"@)
        || is_unsigned_number(body)
}

/// `leading_digits` counts exactly the digits before the first other
/// character.
pub proof fn lemma_leading_digits(s: Seq<char>, n: int)
    requires
        0 <= n <= s.len(),
        forall|j: int| 0 <= j < n ==> is_digit(#[trigger] s[j]),
        n < s.len() ==> !is_digit(s[n]),
    ensures
        leading_digits(s) == n,
    decreases n,
{
    if n > 0 {
        let t = s.drop_first();
        assert(is_digit(s[0]));
        assert forall|j: int| 0 <= j < n - 1 implies is_digit(#[trigger] t[j]) by {
            assert(t[j] == s[j + 1]);
        }
        lemma_leading_digits(t, n - 1);
    }
}

/// The end of the run of digits that starts at `from`.
fn skip_digits(v: &Vec<char>, from: usize, to: usize) -> (r: usize)
    requires
        from <= to <= v.len(),
    ensures
        from <= r <= to,
        r - from == leading_digits(v@.subrange(from as int, to as int)),
{
    let ghost s = v@.subrange(from as int, to as int);
    let mut i: usize = from;
    while i < to && '0' <= v[i] && v[i] <= '9'
        invariant
            from <= i <= to <= v.len(),
            s == v@.subrange(from as int, to as int),
            forall|j: int| 0 <= j < i - from ==> is_digit(#[trigger] s[j]),
        decreases to - i,
    {
        i += 1;
    }
    proof {
        lemma_leading_digits(s, i - from);
    }
    i
}

/// The lowercase form of an ASCII capital; any other character itself.
fn to_lower_ascii(c: char) -> (r: char)
    ensures
        r == lower_ascii(c),
{
    if 'A' <= c && c <= 'Z' {
        ((c as u8) + 32) as char
    } else {
        c
    }
}

/// Whether `v[from..to]` is `word` without regard to the case of ASCII
/// letters.
fn is_word_at(v: &Vec<char>, from: usize, to: usize, word: &str) -> (r: bool)
    requires
        from <= to <= v.len(),
    ensures
        r == is_word(v@.subrange(from as int, to as int), word@),
{
    let w = to_chars(word);
    if w.len() != to - from {
        return false;
    }
    let ghost s = v@.subrange(from as int, to as int);
    let mut i: usize = 0;
    while i < w.len()
        invariant
            from <= to <= v.len(),
            w.len() == to - from,
            i <= w.len(),
            w@ == word@,
            s == v@.subrange(from as int, to as int),
            forall|j: int| 0 <= j < i ==> lower_ascii(#[trigger] s[j]) == w@[j],
        decreases w.len() - i,
    {
        assert(s[i as int] == v@[from + i]);
        if to_lower_ascii(v[from + i]) != w[i] {
            return false;
        }
        i += 1;
    }
    true
}

/// Whether `v[from..to]` is an exponent.
fn is_exponent_at(v: &Vec<char>, from: usize, to: usize) -> (r: bool)
    requires
        from <= to <= v.len(),
    ensures
        r == is_exponent(v@.subrange(from as int, to as int)),
{
    let ghost s = v@.subrange(from as int, to as int);
    if to - from < 2 {
        return false;
    }
    assert(s[0] == v@[from as int]);
    if to_lower_ascii(v[from]) != 'e' {
        return false;
    }
    assert(s.drop_first() =~= v@.subrange(from + 1, to as int));
    assert(s.drop_first()[0] == v@[from + 1]);
    let start: usize = if v[from + 1] == '-' || v[from + 1] == '+' {
        from + 2
    } else {
        from + 1
    };
    let ghost digits = unsigned_part(s.drop_first());
    assert(digits =~= v@.subrange(start as int, to as int));
    let end = skip_digits(v, start, to);
    proof {
        lemma_leading_digits_all(digits);
    }
    start < to && end == to
}

/// A text is all digits just where its leading digits are the whole of it.
pub proof fn lemma_leading_digits_all(s: Seq<char>)
    ensures
        leading_digits(s) <= s.len(),
        all_digits(s) <==> leading_digits(s) == s.len(),
    decreases s.len(),
{
    if s.len() > 0 {
        let t = s.drop_first();
        lemma_leading_digits_all(t);
        if is_digit(s.first()) {
            if all_digits(t) {
                assert forall|i: int| 0 <= i < s.len() implies is_digit(#[trigger] s[i]) by {
                    if i > 0 {
                        assert(s[i] == t[i - 1]);
                    }
                }
            }
            if all_digits(s) {
                assert forall|i: int| 0 <= i < t.len() implies is_digit(#[trigger] t[i]) by {
                    assert(t[i] == s[i + 1]);
                }
            }
        } else {
            assert(s.first() == s[0]);
        }
    }
}

/// Whether `v[from..to]` is written as a measure is.
pub fn is_measure_range(v: &Vec<char>, from: usize, to: usize) -> (r: bool)
    requires
        from <= to <= v.len(),
    ensures
        r == is_measure_syntax(v@.subrange(from as int, to as int)),
{
    let ghost s = v@.subrange(from as int, to as int);
    let start: usize = if from < to && (v[from] == '-' || v[from] == '+') {
        from + 1
    } else {
        from
    };
    let ghost body = unsigned_part(s);
    assert(body =~= v@.subrange(start as int, to as int));
    if is_word_at(v, start, to, "inf") || is_word_at(v, start, to, "infinity") || is_word_at(
        v,
        start,
        to,
        "nan",
    ) {
        return true;
    }
    let whole_end = skip_digits(v, start, to);
    let ghost after_whole = body.subrange((whole_end - start) as int, body.len() as int);
    assert(after_whole =~= v@.subrange(whole_end as int, to as int));
    let has_point = whole_end < to && v[whole_end] == '.';
    let fraction_start: usize = if has_point {
        whole_end + 1
    } else {
        whole_end
    };
    let ghost after_point = if has_point {
        after_whole.drop_first()
    } else {
        after_whole
    };
    assert(after_point =~= v@.subrange(fraction_start as int, to as int));
    let fraction_end: usize = if has_point {
        skip_digits(v, fraction_start, to)
    } else {
        fraction_start
    };
    let ghost tail = after_point.subrange(
        (fraction_end - fraction_start) as int,
        after_point.len() as int,
    );
    assert(tail =~= v@.subrange(fraction_end as int, to as int));
    let digits = (whole_end - start) + (fraction_end - fraction_start);
    if digits < 1 {
        return false;
    }
    fraction_end == to || is_exponent_at(v, fraction_end, to)
}

/// Whether `s` is written as a measure is.
pub fn is_measure_text(s: &str) -> (r: bool)
    ensures
        r == is_measure_syntax(s@),
{
    let v = to_chars(s);
    assert(v@.subrange(0, v.len() as int) == v@);
    is_measure_range(&v, 0, v.len())
}

} // verus!
