//! The sections of an OTD text.
//!
//! A section begins at a header line, `[Name]`, and runs up to the line
//! before the next header, or to the end of the text.

use crate::parser::sections::texts;
use crate::text::{
    from_chars, lines_of, split_lines, str_equal, string_texts, to_chars, trim, trimmed,
};
use vstd::prelude::*;

verus! {

/// The name that a header line gives: what stands between the brackets of
/// a line that, trimmed, begins with `[` and ends with `]`.
pub open spec fn section_name(line: Seq<char>) -> Option<Seq<char>> {
    let t = trimmed(line);
    if t.len() >= 2 && t.first() == '[' && t.last() == ']' {
        Some(t.subrange(1, t.len() - 1))
    } else {
        None
    }
}

/// A section of the text: its name, the index of its header line and the
/// index of its last line.
#[derive(Debug)]
pub struct Section {
    /// Name, without the brackets.
    pub name: String,
    /// Index of the header line.
    pub start: usize,
    /// Index of the last line; the header line itself where the section
    /// has no body.
    pub end: usize,
}

/// The content of a `Section`.
pub struct SectionSpan {
    pub name: Seq<char>,
    pub start: int,
    pub end: int,
}

impl View for Section {
    type V = SectionSpan;

    open spec fn view(&self) -> SectionSpan {
        SectionSpan { name: self.name@, start: self.start as int, end: self.end as int }
    }
}

/// The contents of a list of sections.
pub open spec fn spans(sections: Seq<Section>) -> Seq<SectionSpan> {
    sections.map_values(|s: Section| s@)
}

/// Whether `spans` are the sections of `lines`: one for each header line
/// and in the order of the lines, each named by its header and running up
/// to the line before the next header, the last one to the last line.
#[verifier::opaque]
pub open spec fn are_sections_of(lines: Seq<Seq<char>>, spans: Seq<SectionSpan>) -> bool {
    &&& forall|k: int|
        0 <= k < spans.len() ==> {
            &&& 0 <= (#[trigger] spans[k]).start < lines.len()
            &&& section_name(lines[spans[k].start]) == Some(spans[k].name)
            &&& spans[k].end == if k + 1 < spans.len() {
                spans[k + 1].start - 1
            } else {
                lines.len() - 1
            }
            &&& spans[k].start <= spans[k].end
        }
    &&& forall|i: int|
        0 <= i < lines.len() && section_name(#[trigger] lines[i]) is Some ==> exists|k: int|
            0 <= k < spans.len() && (#[trigger] spans[k]).start == i
}

/// The body of a section: its lines but the header.
pub open spec fn body_of(lines: Seq<Seq<char>>, span: SectionSpan) -> Seq<Seq<char>> {
    lines.subrange(span.start + 1, span.end + 1)
}

/// The sections named `name`, in order.
pub open spec fn named(spans: Seq<SectionSpan>, name: Seq<char>) -> Seq<SectionSpan> {
    spans.filter(|s: SectionSpan| s.name == name)
}

/// The index of the first section named `name`.
pub open spec fn first_named(spans: Seq<SectionSpan>, name: Seq<char>) -> Option<int> {
    spans.map_values(|s: SectionSpan| s.name).index_of_first(name)
}

/// The bodies of a list of sections.
pub open spec fn bodies(lines: Seq<Seq<char>>, spans: Seq<SectionSpan>) -> Seq<Seq<Seq<char>>> {
    spans.map_values(|s: SectionSpan| body_of(lines, s))
}

/// The texts of a list of lists of lines.
pub open spec fn body_texts(found: Seq<Vec<&str>>) -> Seq<Seq<Seq<char>>> {
    found.map_values(|b: Vec<&str>| texts(b@))
}

/// Whether a section can belong to a pattern: it is an `Info`, `Shape`,
/// `Cuttings` or `LowE` section.
pub open spec fn is_attachment(name: Seq<char>) -> bool {
    name == "Info"@ || name == "Shape"@ || name == "Cuttings"@ || name == "LowE"@
}

/// The index of the `Pattern` section that has `n` `Pattern` sections
/// between index `from` and itself.
pub open spec fn nth_pattern(spans: Seq<SectionSpan>, from: int, n: nat) -> Option<int>
    decreases spans.len() - from,
{
    if from < 0 || from >= spans.len() {
        None
    } else if spans[from].name == "Pattern"@ {
        if n == 0 {
            Some(from)
        } else {
            nth_pattern(spans, from + 1, (n - 1) as nat)
        }
    } else {
        nth_pattern(spans, from + 1, n)
    }
}

/// The index of the first `Pattern` section behind index `at`; the number
/// of sections where none follows.
pub open spec fn next_pattern(spans: Seq<SectionSpan>, at: int) -> int {
    match nth_pattern(spans, at + 1, 0) {
        Some(i) => i,
        None => spans.len() as int,
    }
}

/// The sections between index `at` and index `next` that can belong to a
/// pattern.
pub open spec fn attachments(spans: Seq<SectionSpan>, at: int, next: int) -> Seq<SectionSpan> {
    spans.subrange(at + 1, next).filter(|s: SectionSpan| is_attachment(s.name))
}

/// The sections that belong to pattern number `pattern_index`, counted
/// from zero: those between that `Pattern` section and the next one, or
/// the end of the text, as far as they can belong to a pattern. None
/// where there are not so many patterns.
pub open spec fn attachments_of(spans: Seq<SectionSpan>, pattern_index: nat) -> Seq<SectionSpan> {
    match nth_pattern(spans, 0, pattern_index) {
        Some(at) => attachments(spans, at, next_pattern(spans, at)),
        None => Seq::empty(),
    }
}

/// Where `nth_pattern` finds a section, it lies at or behind `from`.
pub proof fn lemma_nth_pattern(spans: Seq<SectionSpan>, from: int, n: nat)
    ensures
        nth_pattern(spans, from, n) matches Some(i) ==> 0 <= from <= i < spans.len() && spans[i].name
            == "Pattern"@,
    decreases spans.len() - from,
{
    if 0 <= from < spans.len() {
        if spans[from].name == "Pattern"@ {
            if n > 0 {
                lemma_nth_pattern(spans, from + 1, (n - 1) as nat);
            }
        } else {
            lemma_nth_pattern(spans, from + 1, n);
        }
    }
}

/// The attachments up to index `j + 1` are those up to `j`, and the
/// section at `j` where it can belong to a pattern.
pub proof fn lemma_attachments_next(spans: Seq<SectionSpan>, at: int, j: int)
    requires
        0 <= at < j < spans.len(),
    ensures
        attachments(spans, at, j + 1) == if is_attachment(spans[j].name) {
            attachments(spans, at, j).push(spans[j])
        } else {
            attachments(spans, at, j)
        },
        attachments(spans, at, at + 1) == Seq::<SectionSpan>::empty(),
{
    reveal(Seq::filter);
    assert(spans.subrange(at + 1, j + 1).drop_last() =~= spans.subrange(at + 1, j));
    assert(spans.subrange(at + 1, j + 1).last() == spans[j]);
    assert(spans.subrange(at + 1, at + 1) =~= Seq::empty());
}

/// The texts of named bodies.
pub open spec fn named_body_texts(
    found: Seq<(String, Vec<&str>)>,
) -> Seq<(Seq<char>, Seq<Seq<char>>)> {
    found.map_values(|b: (String, Vec<&str>)| (b.0@, texts(b.1@)))
}

/// Names and bodies of a list of sections.
pub open spec fn named_bodies(
    lines: Seq<Seq<char>>,
    spans: Seq<SectionSpan>,
) -> Seq<(Seq<char>, Seq<Seq<char>>)> {
    spans.map_values(|s: SectionSpan| (s.name, body_of(lines, s)))
}

/// The sections named `name` among the first `k + 1` are those among the
/// first `k`, and the one at `k` where it has that name.
pub proof fn lemma_named_next(spans: Seq<SectionSpan>, name: Seq<char>, k: int)
    requires
        0 <= k < spans.len(),
    ensures
        named(spans.take(k + 1), name) == if spans[k].name == name {
            named(spans.take(k), name).push(spans[k])
        } else {
            named(spans.take(k), name)
        },
        named(spans.take(0), name) == Seq::<SectionSpan>::empty(),
        named(spans.take(k), name).len() <= k,
{
    reveal(Seq::filter);
    assert(spans.take(k + 1).drop_last() =~= spans.take(k));
    assert(spans.take(k + 1).last() == spans[k]);
    assert(spans.take(0) =~= Seq::empty());
    let pred = |s: SectionSpan| s.name == name;
    spans.take(k).lemma_filter_len(pred);
}

/// An OTD text split into lines and sections.
pub struct OtdParser {
    lines: Vec<String>,
    sections: Vec<Section>,
}

impl OtdParser {
    /// The lines of the text.
    pub closed spec fn lines(&self) -> Seq<Seq<char>> {
        string_texts(self.lines@)
    }

    /// The sections of the text.
    pub closed spec fn sections(&self) -> Seq<SectionSpan> {
        spans(self.sections@)
    }

    /// The sections are those of the lines.
    pub open spec fn wf(&self) -> bool {
        are_sections_of(self.lines(), self.sections())
    }

    /// Splits `content` into lines and finds its sections.
    pub fn new(content: String) -> (p: OtdParser)
        ensures
            p.wf(),
            p.lines() == split_lines(content@),
    {
        let lines = lines_of(content.as_str());
        let sections = OtdParser::find_sections(&lines);
        OtdParser { lines, sections }
    }

    /// The name that `line` gives as a header.
    fn header_name(line: &str) -> (r: Option<String>)
        ensures
            match r {
                Some(name) => section_name(line@) == Some(name@),
                None => section_name(line@) is None,
            },
    {
        let v = to_chars(trim(line));
        let n = v.len();
        if n >= 2 && v[0] == '[' && v[n - 1] == ']' {
            Some(from_chars(&v, 1, n - 1))
        } else {
            None
        }
    }

    /// The sections of `lines`.
    pub fn find_sections(lines: &Vec<String>) -> (found: Vec<Section>)
        ensures
            are_sections_of(string_texts(lines@), spans(found@)),
    {
        let ghost all = string_texts(lines@);
        let mut found: Vec<Section> = Vec::new();
        let mut i: usize = 0;
        reveal(are_sections_of);
        assert(spans(found@) =~= Seq::empty());
        while i < lines.len()
            invariant
                i <= lines.len(),
                all == string_texts(lines@),
                are_sections_of(all.take(i as int), spans(found@)),
            decreases lines.len() - i,
        {
            reveal(are_sections_of);
            let ghost before = spans(found@);
            let ghost seen = all.take(i as int);
            let ghost next = all.take(i + 1);
            assert(next[i as int] == lines@[i as int]@);
            assert(forall|j: int| 0 <= j < i ==> next[j] == seen[j]);
            let count = found.len();
            match OtdParser::header_name(lines[i].as_str()) {
                Some(name) => {
                    found.push(Section { name, start: i, end: i });
                    proof {
                        let after = spans(found@);
                        assert(after =~= before.push(
                            SectionSpan { name: name@, start: i as int, end: i as int },
                        ));
                        assert forall|k: int| 0 <= k < after.len() implies {
                            &&& 0 <= (#[trigger] after[k]).start < next.len()
                            &&& section_name(next[after[k].start]) == Some(after[k].name)
                            &&& after[k].end == if k + 1 < after.len() {
                                after[k + 1].start - 1
                            } else {
                                next.len() - 1
                            }
                            &&& after[k].start <= after[k].end
                        } by {
                            if k < before.len() {
                                assert(after[k] == before[k]);
                                assert(before[k].start < seen.len());
                            }
                        }
                        assert forall|j: int|
                            0 <= j < next.len() && section_name(
                                #[trigger] next[j],
                            ) is Some implies exists|k: int|
                            0 <= k < after.len() && (#[trigger] after[k]).start == j by {
                            if j < i {
                                assert(section_name(seen[j]) is Some);
                                let k = choose|k: int|
                                    0 <= k < before.len() && (#[trigger] before[k]).start == j;
                                assert(after[k].start == j);
                            } else {
                                assert(after[before.len() as int].start == j);
                            }
                        }
                    }
                },
                None => {
                    if count > 0 {
                        found[count - 1].end = i;
                    }
                    proof {
                        let after = spans(found@);
                        assert(after.len() == before.len());
                        assert forall|k: int| 0 <= k < after.len() implies {
                            &&& 0 <= (#[trigger] after[k]).start < next.len()
                            &&& section_name(next[after[k].start]) == Some(after[k].name)
                            &&& after[k].end == if k + 1 < after.len() {
                                after[k + 1].start - 1
                            } else {
                                next.len() - 1
                            }
                            &&& after[k].start <= after[k].end
                        } by {
                            assert(before[k].start < seen.len());
                            assert(after[k].start == before[k].start);
                            assert(after[k].name == before[k].name);
                            if k + 1 < after.len() {
                                assert(after[k] == before[k]);
                                assert(after[k + 1].start == before[k + 1].start);
                            }
                        }
                        assert forall|j: int|
                            0 <= j < next.len() && section_name(
                                #[trigger] next[j],
                            ) is Some implies exists|k: int|
                            0 <= k < after.len() && (#[trigger] after[k]).start == j by {
                            assert(j < i);
                            assert(section_name(seen[j]) is Some);
                            let k = choose|k: int|
                                0 <= k < before.len() && (#[trigger] before[k]).start == j;
                            assert(after[k].start == j);
                        }
                    }
                },
            }
            i += 1;
        }
        assert(all.take(lines.len() as int) =~= all);
        found
    }

    /// The lines of section `k` but its header.
    fn body(&self, k: usize) -> (r: Vec<&str>)
        requires
            self.wf(),
            k < self.sections@.len(),
        ensures
            texts(r@) == body_of(self.lines(), self.sections()[k as int]),
    {
        let ghost span = self.sections()[k as int];
        let ghost all = self.lines();
        let start = self.sections[k].start;
        let end = self.sections[k].end;
        proof {
            reveal(are_sections_of);
            assert(span == self.sections@[k as int]@);
            assert(all.len() == self.lines.len());
            assert(0 <= span.start < all.len() && span.start <= span.end);
            if k + 1 < self.sections().len() {
                assert(self.sections()[k + 1].start < all.len());
            }
            assert(span.end < all.len());
        }
        let mut r: Vec<&str> = Vec::new();
        let mut i: usize = start + 1;
        assert(texts(r@) =~= all.subrange(start + 1, i as int));
        while i <= end
            invariant
                start + 1 <= i <= end + 1,
                end < self.lines.len(),
                all == self.lines(),
                texts(r@) == all.subrange(start + 1, i as int),
            decreases end + 1 - i,
        {
            let ghost before = r@;
            let line = self.lines[i].as_str();
            r.push(line);
            proof {
                assert(all[i as int] == self.lines@[i as int]@);
                let now = texts(r@);
                let was = texts(before);
                assert(now.len() == was.len() + 1);
                assert forall|j: int| 0 <= j < now.len() implies now[j] == all.subrange(
                    start + 1,
                    i + 1,
                )[j] by {
                    if j < was.len() {
                        assert(now[j] == was[j]);
                    }
                }
                assert(now =~= all.subrange(start + 1, i + 1));
            }
            i += 1;
        }
        r
    }

    /// The body of the first section named `name`.
    pub fn get_section_lines(&self, name: &str) -> (r: Option<Vec<&str>>)
        requires
            self.wf(),
        ensures
            match first_named(self.sections(), name@) {
                Some(k) => r is Some && texts(r->0@) == body_of(
                    self.lines(),
                    self.sections()[k],
                ),
                None => r is None,
            },
    {
        let ghost names = self.sections().map_values(|s: SectionSpan| s.name);
        proof {
            names.index_of_first_ensures(name@);
        }
        let mut k: usize = 0;
        while k < self.sections.len()
            invariant
                self.wf(),
                k <= self.sections@.len(),
                names == self.sections().map_values(|s: SectionSpan| s.name),
                forall|j: int| 0 <= j < k ==> names[j] != name@,
            decreases self.sections@.len() - k,
        {
            assert(names[k as int] == self.sections@[k as int].name@);
            if str_equal(self.sections[k].name.as_str(), name) {
                proof {
                    names.index_of_first_ensures(name@);
                }
                return Some(self.body(k));
            }
            k += 1;
        }
        proof {
            names.index_of_first_ensures(name@);
            if names.contains(name@) {
                let j = choose|j: int| 0 <= j < names.len() && names[j] == name@;
                assert(false);
            }
        }
        None
    }

    /// The bodies of the sections named `name`, in order.
    pub fn get_all_sections(&self, name: &str) -> (r: Vec<Vec<&str>>)
        requires
            self.wf(),
        ensures
            body_texts(r@) == bodies(self.lines(), named(self.sections(), name@)),
    {
        let ghost all = self.sections();
        let mut r: Vec<Vec<&str>> = Vec::new();
        let mut k: usize = 0;
        proof {
            if all.len() > 0 {
                lemma_named_next(all, name@, 0);
            } else {
                assert(all.take(0) =~= all);
            }
            assert(body_texts(r@) =~= bodies(self.lines(), named(all.take(0), name@)));
        }
        while k < self.sections.len()
            invariant
                self.wf(),
                k <= self.sections@.len(),
                all == self.sections(),
                body_texts(r@) == bodies(self.lines(), named(all.take(k as int), name@)),
            decreases self.sections@.len() - k,
        {
            proof {
                lemma_named_next(all, name@, k as int);
                assert(all[k as int] == self.sections@[k as int]@);
            }
            if str_equal(self.sections[k].name.as_str(), name) {
                let body = self.body(k);
                let ghost before = r@;
                r.push(body);
                proof {
                    let kept = named(all.take(k as int), name@);
                    assert(body_texts(r@) =~= body_texts(before).push(
                        texts(body@),
                    ));
                    assert(bodies(self.lines(), kept.push(all[k as int])) =~= bodies(
                        self.lines(),
                        kept,
                    ).push(body_of(self.lines(), all[k as int])));
                }
            }
            k += 1;
        }
        assert(all.take(self.sections@.len() as int) =~= all);
        r
    }

    /// How many sections are named `name`.
    pub fn count_sections(&self, name: &str) -> (n: usize)
        ensures
            n == named(self.sections(), name@).len(),
    {
        let ghost all = self.sections();
        let mut n: usize = 0;
        let mut k: usize = 0;
        proof {
            if all.len() > 0 {
                lemma_named_next(all, name@, 0);
            } else {
                assert(all.take(0) =~= all);
            }
        }
        while k < self.sections.len()
            invariant
                k <= self.sections@.len(),
                all == self.sections(),
                n == named(all.take(k as int), name@).len(),
                n <= k,
            decreases self.sections@.len() - k,
        {
            proof {
                lemma_named_next(all, name@, k as int);
                assert(all[k as int] == self.sections@[k as int]@);
            }
            if str_equal(self.sections[k].name.as_str(), name) {
                n += 1;
            }
            k += 1;
        }
        assert(all.take(self.sections@.len() as int) =~= all);
        n
    }

    /// Whether a section named `name` can belong to a pattern.
    fn can_attach(name: &str) -> (r: bool)
        ensures
            r == is_attachment(name@),
    {
        str_equal(name, "Info") || str_equal(name, "Shape") || str_equal(name, "Cuttings")
            || str_equal(name, "LowE")
    }

    /// The index of pattern number `pattern_index`.
    fn find_pattern(&self, pattern_index: usize) -> (r: Option<usize>)
        ensures
            match r {
                Some(i) => nth_pattern(self.sections(), 0, pattern_index as nat) == Some(i as int)
                    && i < self.sections@.len(),
                None => nth_pattern(self.sections(), 0, pattern_index as nat) is None,
            },
    {
        let ghost all = self.sections();
        let mut left: usize = pattern_index;
        let mut k: usize = 0;
        while k < self.sections.len()
            invariant
                k <= self.sections@.len(),
                all == self.sections(),
                nth_pattern(all, 0, pattern_index as nat) == nth_pattern(all, k as int, left as nat),
            decreases self.sections@.len() - k,
        {
            assert(all[k as int] == self.sections@[k as int]@);
            if str_equal(self.sections[k].name.as_str(), "Pattern") {
                if left == 0 {
                    return Some(k);
                }
                left -= 1;
            }
            k += 1;
        }
        None
    }

    /// The sections that belong to pattern number `pattern_index`, counted
    /// from zero, each with its name and its body.
    pub fn get_sections_for_pattern(&self, pattern_index: usize) -> (r: Vec<(String, Vec<&str>)>)
        requires
            self.wf(),
        ensures
            named_body_texts(r@) == named_bodies(
                self.lines(),
                attachments_of(self.sections(), pattern_index as nat),
            ),
    {
        let ghost all = self.sections();
        let mut r: Vec<(String, Vec<&str>)> = Vec::new();
        let at = match self.find_pattern(pattern_index) {
            Some(at) => at,
            None => {
                assert(named_body_texts(r@) =~= named_bodies(self.lines(), Seq::empty()));
                return r;
            },
        };
        let total = self.sections.len();
        assert(at < total);
        let mut j: usize = at + 1;
        let mut done = false;
        proof {
            if at + 1 < all.len() {
                lemma_attachments_next(all, at as int, at + 1);
            } else {
                assert(all.subrange(at + 1, at + 1) =~= Seq::empty());
                reveal(Seq::filter);
            }
            assert(named_body_texts(r@) =~= named_bodies(
                self.lines(),
                attachments(all, at as int, j as int),
            ));
        }
        while !done
            invariant
                self.wf(),
                all == self.sections(),
                at < j <= self.sections@.len(),
                next_pattern(all, at as int) == (match nth_pattern(all, j as int, 0) {
                    Some(i) => i,
                    None => all.len() as int,
                }),
                done ==> next_pattern(all, at as int) == j,
                named_body_texts(r@) == named_bodies(
                    self.lines(),
                    attachments(all, at as int, j as int),
                ),
            decreases self.sections@.len() - j + (if done {
                0int
            } else {
                1int
            }),
        {
            if j >= self.sections.len() {
                done = true;
            } else {
                assert(all[j as int] == self.sections@[j as int]@);
                let name = self.sections[j].name.as_str();
                if str_equal(name, "Pattern") {
                    done = true;
                } else {
                    proof {
                        lemma_attachments_next(all, at as int, j as int);
                    }
                    if OtdParser::can_attach(name) {
                        let body = self.body(j);
                        let ghost before = r@;
                        r.push((self.sections[j].name.clone(), body));
                        proof {
                            let kept = attachments(all, at as int, j as int);
                            assert(named_body_texts(r@) =~= named_body_texts(before).push(
                                (all[j as int].name, texts(body@)),
                            ));
                            assert(named_bodies(self.lines(), kept.push(all[j as int]))
                                =~= named_bodies(self.lines(), kept).push(
                                (all[j as int].name, body_of(self.lines(), all[j as int])),
                            ));
                        }
                    }
                    j += 1;
                }
            }
        }
        r
    }
}

} // verus!
