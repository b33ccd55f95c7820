//! Benchmark cases and their ground truth.
//!
//! `Case` is what an agent sees. `GroundTruth` is a separate type, and nothing
//! in `Case` points at it. Keeping the answers out of the agent-visible struct
//! is a type-level guarantee, not a convention.

use vstd::prelude::*;
use crate::finding::{IssueType, Location, normalize_path, normalized};
use crate::repo::RepoRoot;
use crate::diff::{
    assoc_map, diff_ranges, hunk_range, hunk_range_exec, key_index, lemma_key_index, range_header_exec, range_scan,
    range_step, ranges_fit,
};
use crate::text::{chars_of, decimal, line_ranges, lines, push_decimal, same_text, views};

verus! {

/// What the case is designed to test. Used for reporting breakdowns, never
/// shown to the agent.
#[derive(Debug, Clone, Copy, PartialEq, Eq, Structural)]
pub enum CaseCategory {
    /// Contains at least one genuine issue.
    RealIssue,
    /// Looks suspicious but is safe. Any finding here is a false positive.
    Trap,
    /// Requires deeper context, or contains competing evidence.
    Challenging,
}

/// The language a case is written in.
///
/// The pipeline is language-independent; this exists so the agent
/// addresses itself correctly and renders source in the right fence.
#[derive(Debug, Clone, Copy, PartialEq, Eq, Structural)]
pub enum Language {
    Rust,
    Python,
}

impl Language {
    /// The default language of a case that does not name one.
    pub fn default_language() -> (l: Language)
        ensures
            l == Language::Rust,
    {
        Language::Rust
    }

    /// Name used in prompts.
    pub fn as_str(&self) -> (s: &'static str)
        ensures
            s@ == (match *self {
                Language::Rust => "Rust"@,
                Language::Python => "Python"@,
            }),
    {
        match self {
            Language::Rust => "Rust",
            Language::Python => "Python",
        }
    }

    /// Markdown fence tag for rendering source.
    pub fn fence(&self) -> (s: &'static str)
        ensures
            s@ == (match *self {
                Language::Rust => "rust"@,
                Language::Python => "python"@,
            }),
    {
        match self {
            Language::Rust => "rust",
            Language::Python => "python",
        }
    }
}

/// Agent-visible case metadata.
///
/// `description` must describe the change neutrally. It must not hint at
/// whether a bug exists, or the case stops measuring what we claim.
#[derive(Debug)]
pub struct CaseManifest {
    pub case_id: String,
    pub title: String,
    /// Neutral description of the change under review.
    pub description: String,
    pub category: CaseCategory,
    pub language: Language,
}

/// One issue a correct agent is expected to report.
#[derive(Debug)]
pub struct ExpectedFinding {
    /// Stable identifier, unique within the case.
    pub id: String,
    /// The canonical category, used when reporting this finding.
    pub issue_type: IssueType,
    /// Other categories that are a defensible reading of the same defect.
    ///
    /// Several real defects sit legitimately between two categories. This is
    /// a matching concession on the category axis only: location still has to
    /// overlap, so it cannot turn an unrelated finding into a true positive.
    pub also_accept: Vec<IssueType>,
    pub file: String,
    pub start_line: u32,
    pub end_line: u32,
    /// Human-readable statement of the real defect.
    pub description: String,
}

/// The first line of the range an expected finding is anchored at.
pub open spec fn expected_start(e: ExpectedFinding) -> u32 {
    if e.start_line <= e.end_line {
        e.start_line
    } else {
        e.end_line
    }
}

/// The last line of the range an expected finding is anchored at.
pub open spec fn expected_end(e: ExpectedFinding) -> u32 {
    if e.start_line <= e.end_line {
        e.end_line
    } else {
        e.start_line
    }
}

/// Whether `t` is an acceptable category for the defect `e` describes.
pub open spec fn accepts(e: ExpectedFinding, t: IssueType) -> bool {
    e.issue_type == t || e.also_accept@.contains(t)
}

impl ExpectedFinding {
    pub fn location(&self) -> (l: Location)
        ensures
            l.file@ == normalized(self.file@),
            l.start_line == expected_start(*self),
            l.end_line == expected_end(*self),
    {
        Location::new(self.file.as_str(), self.start_line, self.end_line)
    }

    /// Whether `candidate` is an acceptable category for this defect.
    pub fn accepts_type(&self, candidate: IssueType) -> (b: bool)
        ensures
            b == accepts(*self, candidate),
    {
        if self.issue_type == candidate {
            return true;
        }
        let mut i: usize = 0;
        while i < self.also_accept.len()
            invariant
                i <= self.also_accept.len(),
                forall|j: int| 0 <= j < i ==> self.also_accept@[j] != candidate,
            decreases self.also_accept.len() - i,
        {
            if self.also_accept[i] == candidate {
                return true;
            }
            i = i + 1;
        }
        false
    }
}

/// Ground truth for one case. Loaded only by the evaluator.
#[derive(Debug)]
pub struct GroundTruth {
    pub case_id: String,
    pub expected_findings: Vec<ExpectedFinding>,
    /// Why this case is constructed the way it is. Explains, in particular,
    /// why a trap case is actually safe.
    pub notes: String,
}

impl GroundTruth {
    /// A case with no expected findings: every prediction is a false positive.
    pub fn is_clean(&self) -> (b: bool)
        ensures
            b == (self.expected_findings@.len() == 0),
    {
        self.expected_findings.len() == 0
    }
}

} // verus!

verus! {

/// A case as the agent sees it: its manifest, the diff under review, and the
/// repository it applies to.
#[derive(Debug)]
pub struct Case {
    pub manifest: CaseManifest,
    pub diff: String,
    pub repo: RepoRoot,
    /// Directory the case was loaded from.
    pub dir: String,
}

impl Case {
    pub fn id(&self) -> (s: &str)
        ensures
            s@ == self.manifest.case_id@,
    {
        self.manifest.case_id.as_str()
    }
}

/// Changed line ranges per file, in the post-change file.
///
/// Files appear once each, in the order the diff names them; a file whose
/// header was seen but which has no hunks maps to no ranges.
#[derive(Debug)]
pub struct LineRanges {
    entries: Vec<(String, Vec<(u32, u32)>)>,
}

impl View for LineRanges {
    type V = Map<Seq<char>, Seq<(u32, u32)>>;

    open spec fn view(&self) -> Map<Seq<char>, Seq<(u32, u32)>> {
        assoc_map(self.assoc())
    }
}

impl LineRanges {
    /// The entries as an association list.
    pub closed spec fn assoc(&self) -> Seq<(Seq<char>, Seq<(u32, u32)>)> {
        self.entries@.map_values(|e: (String, Vec<(u32, u32)>)| (e.0@, e.1@))
    }

    fn find(&self, file: &str) -> (r: Option<usize>)
        ensures
            match r {
                Some(i) => i < self.entries.len() && key_index(self.assoc(), file@, 0) == Some(
                    i as int,
                ),
                None => key_index(self.assoc(), file@, 0) is None,
            },
    {
        let ghost a = self.assoc();
        let mut i: usize = 0;
        while i < self.entries.len()
            invariant
                i <= self.entries.len(),
                a == self.assoc(),
                a.len() == self.entries.len(),
                key_index(a, file@, 0) == key_index(a, file@, i as int),
            decreases self.entries.len() - i,
        {
            assert(a[i as int].0 == self.entries@[i as int].0@);
            if same_text(self.entries[i].0.as_str(), file) {
                return Some(i);
            }
            i = i + 1;
        }
        None
    }

    /// The ranges recorded for `file`, if the diff names it.
    pub fn get(&self, file: &str) -> (r: Option<&Vec<(u32, u32)>>)
        ensures
            match r {
                Some(v) => self@.contains_key(file@) && v@ == self@[file@],
                None => !self@.contains_key(file@),
            },
    {
        match self.find(file) {
            Some(i) => {
                assert(self.assoc()[i as int].1 == self.entries@[i as int].1@);
                assert(key_index(self.assoc(), file@, 0) == Some(i as int));
                assert(self@.dom().contains(file@));
                assert(self@[file@] == self.assoc()[i as int].1);
                Some(&self.entries[i].1)
            },
            None => None,
        }
    }

    /// Whether the diff touches no file.
    pub fn is_empty(&self) -> (b: bool)
        ensures
            b == (self.assoc().len() == 0),
    {
        self.entries.len() == 0
    }

    /// Number of files.
    pub fn len(&self) -> (n: usize)
        ensures
            n == self.assoc().len(),
    {
        self.entries.len()
    }
}

/// Line ranges touched by a unified diff, per file, in the post-change file.
///
/// Used to check that ground truth anchors where the change actually is. A
/// defect usually spans a change and something it interacts with, and either
/// end is a defensible place to report it, but a benchmark has to pick one
/// convention and hold to it.
pub fn changed_line_ranges(diff: &str) -> (r: LineRanges)
    requires
        ranges_fit(diff@),
    ensures
        r.assoc() == diff_ranges(diff@),
        r@ == assoc_map(diff_ranges(diff@)),
{
    let v = chars_of(diff);
    let ls = line_ranges(&v, 0, v.len());
    let ghost lines_s = lines(diff@);
    assert(v@.subrange(0, v@.len() as int) =~= diff@);
    let mut out = LineRanges { entries: Vec::new() };
    let mut current: Option<String> = None;
    let mut k: usize = 0;
    assert(out.assoc() =~= Seq::<(Seq<char>, Seq<(u32, u32)>)>::empty());
    while k < ls.len()
        invariant
            k <= ls.len(),
            v@ == diff@,
            lines_s == lines(diff@),
            ls.len() == lines_s.len(),
            forall|j: int|
                0 <= j < ls.len() ==> 0 <= (#[trigger] ls[j]).0 <= ls[j].1 <= v.len() && v@.subrange(
                    ls[j].0 as int,
                    ls[j].1 as int,
                ) == lines_s[j],
            ranges_fit(diff@),
            out.assoc() == range_scan(lines_s, k as int).1,
            match range_scan(lines_s, k as int).0 {
                Some(f) => current is Some && current->0@ == f,
                None => current is None,
            },
        decreases ls.len() - k,
    {
        let (lo, hi) = ls[k];
        let ghost line = lines_s[k as int];
        let ghost before = range_scan(lines_s, k as int);
        assert(range_scan(lines_s, k + 1) == range_step(before, line));
        match range_header_exec(&v, lo, hi) {
            Some(h) => {
                match h {
                    None => {
                        current = None;
                    },
                    Some(f) => {
                        let found = out.find(f.as_str());
                        match found {
                            Some(_) => {},
                            None => {
                                let ghost a = out.assoc();
                                out.entries.push((f.clone(), Vec::new()));
                                assert(out.assoc() =~= a.push((f@, Seq::empty())));
                            },
                        }
                        assert(out.assoc() == range_step(before, line).1);
                        current = Some(f);
                    },
                }
            },
            None => {
                match &current {
                    Some(f) => {
                        match hunk_range_exec(&v, lo, hi) {
                            Some((start, end)) => {
                                assert(lines_s[k as int] == line);
                                assert(end <= u32::MAX);
                                let x: (u32, u32) = (start, end as u32);
                                let ghost a = out.assoc();
                                match out.find(f.as_str()) {
                                    Some(i) => {
                                        let ghost old_entries = out.entries@;
                                        proof {
                                            lemma_key_index(a, f@, 0);
                                        }
                                        out.entries[i].1.push(x);
                                        assert(out.entries@ =~= old_entries.update(
                                            i as int,
                                            (old_entries[i as int].0, out.entries@[i as int].1),
                                        ));
                                        assert(out.assoc() =~= a.update(
                                            i as int,
                                            (f@, a[i as int].1.push(x)),
                                        ));
                                        assert(out.assoc() == range_step(before, line).1);
                                    },
                                    None => {
                                        let mut one: Vec<(u32, u32)> = Vec::new();
                                        one.push(x);
                                        out.entries.push((f.clone(), one));
                                        assert(out.assoc() =~= a.push((f@, seq![x])));
                                        assert(out.assoc() == range_step(before, line).1);
                                    },
                                }
                            },
                            None => {},
                        }
                    },
                    None => {},
                }
            },
        }
        k = k + 1;
    }
    out
}

} // verus!

verus! {

/// Whether some hunk of `hunks` overlaps the lines `start..=end`.
pub open spec fn touches(hunks: Seq<(u32, u32)>, start: u32, end: u32) -> bool {
    exists|j: int| 0 <= j < hunks.len() && !(end < (#[trigger] hunks[j]).0 || start > hunks[j].1)
}

/// Whether the diff's ranges cover the place `f` is anchored at.
pub open spec fn anchored_in_diff(ranges: Map<Seq<char>, Seq<(u32, u32)>>, f: ExpectedFinding) -> bool {
    let file = normalized(f.file@);
    ranges.contains_key(file) && touches(ranges[file], f.start_line, f.end_line)
}

/// The report line for an expected finding the diff does not touch.
pub open spec fn offender_text(f: ExpectedFinding) -> Seq<char> {
    f.id@ + " anchors at "@ + f.file@ + ":"@ + decimal(f.start_line as nat) + "-"@ + decimal(
        f.end_line as nat,
    ) + ", which the diff does not touch"@
}

/// Report lines for the first `n` expected findings that the diff does not
/// touch, in order.
pub open spec fn offenders_upto(
    ranges: Map<Seq<char>, Seq<(u32, u32)>>,
    fs: Seq<ExpectedFinding>,
    n: int,
) -> Seq<Seq<char>>
    decreases n,
{
    if n <= 0 {
        Seq::empty()
    } else if anchored_in_diff(ranges, fs[n - 1]) {
        offenders_upto(ranges, fs, n - 1)
    } else {
        offenders_upto(ranges, fs, n - 1).push(offender_text(fs[n - 1]))
    }
}

fn touches_exec(hunks: &Vec<(u32, u32)>, start: u32, end: u32) -> (b: bool)
    ensures
        b == touches(hunks@, start, end),
{
    let mut j: usize = 0;
    while j < hunks.len()
        invariant
            j <= hunks.len(),
            forall|i: int| 0 <= i < j ==> end < (#[trigger] hunks@[i]).0 || start > hunks@[i].1,
        decreases hunks.len() - j,
    {
        let (a, b) = hunks[j];
        if !(end < a || start > b) {
            assert(!(end < hunks@[j as int].0 || start > hunks@[j as int].1));
            return true;
        }
        j = j + 1;
    }
    false
}

/// Ground-truth findings that sit outside the lines the change touched, one
/// description each. Empty means the case follows the convention every other
/// case follows.
pub fn findings_outside_the_diff(case: &Case, truth: &GroundTruth) -> (r: Vec<String>)
    requires
        ranges_fit(case.diff@),
    ensures
        views(r@) == offenders_upto(
            assoc_map(diff_ranges(case.diff@)),
            truth.expected_findings@,
            truth.expected_findings@.len() as int,
        ),
{
    let ranges = changed_line_ranges(case.diff.as_str());
    let ghost m = assoc_map(diff_ranges(case.diff@));
    let mut out: Vec<String> = Vec::new();
    let mut i: usize = 0;
    let n = truth.expected_findings.len();
    assert(views(out@) =~= offenders_upto(m, truth.expected_findings@, 0));
    while i < n
        invariant
            i <= n == truth.expected_findings.len(),
            ranges@ == m,
            views(out@) == offenders_upto(m, truth.expected_findings@, i as int),
        decreases n - i,
    {
        let f = &truth.expected_findings[i];
        let file = normalize_path(f.file.as_str());
        let inside = match ranges.get(file.as_str()) {
            Some(hs) => touches_exec(hs, f.start_line, f.end_line),
            None => false,
        };
        let ghost prev = views(out@);
        if !inside {
            let mut s = String::new();
            s.append(f.id.as_str());
            s.append(" anchors at ");
            s.append(f.file.as_str());
            s.append(":");
            push_decimal(&mut s, f.start_line as u64);
            s.append("-");
            push_decimal(&mut s, f.end_line as u64);
            s.append(", which the diff does not touch");
            assert(s@ =~= offender_text(*f));
            out.push(s);
            assert(views(out@) =~= prev.push(offender_text(*f)));
        }
        i = i + 1;
    }
    out
}

} // verus!

verus! {

/// Words that state a verdict, in sorted order. A case's agent-visible text
/// must not use them: a description that says "subtle bug" hands the agent
/// the answer, and one that says "harmless" hands it the opposite. "fixed"
/// is not among them, nor is "mistake": only whole words are matched.
pub open spec fn category_tells() -> Seq<Seq<char>> {
    seq![
        "broken"@, "bug"@, "bugs"@, "dangerous"@, "defect"@, "defects"@, "flaw"@, "flaws"@,
        "harmless"@, "incorrect"@, "incorrectly"@, "leak"@, "leaking"@, "leaks"@, "regression"@,
        "subtle"@, "suspicious"@, "unsafe"@, "wrong"@, "wrongly"@,
    ]
}

/// A character that ends a word: anything but an ASCII letter or digit and
/// the apostrophe.
pub open spec fn word_sep(c: char) -> bool {
    !(('a' <= c && c <= 'z') || ('A' <= c && c <= 'Z') || ('0' <= c && c <= '9') || c == '\'')
}

/// `w` occurs in `h` at `i` as a whole word.
pub open spec fn word_at(h: Seq<char>, w: Seq<char>, i: int) -> bool {
    &&& crate::text::occurs_at(h, w, i)
    &&& (i == 0 || word_sep(h[i - 1]))
    &&& (i + w.len() == h.len() || word_sep(h[i + w.len()]))
}

/// `w` is one of the words of `h`.
pub open spec fn has_word(h: Seq<char>, w: Seq<char>) -> bool {
    exists|i: int| word_at(h, w, i)
}

/// The first `n` tells that are words of `h`, in order.
pub open spec fn tells_in(h: Seq<char>, n: int) -> Seq<Seq<char>>
    decreases n,
{
    if n <= 0 {
        Seq::empty()
    } else if has_word(h, category_tells()[n - 1]) {
        tells_in(h, n - 1).push(category_tells()[n - 1])
    } else {
        tells_in(h, n - 1)
    }
}

fn is_word_sep(c: char) -> (b: bool)
    ensures
        b == word_sep(c),
{
    !(('a' <= c && c <= 'z') || ('A' <= c && c <= 'Z') || ('0' <= c && c <= '9') || c == '\'')
}

fn word_at_exec(h: &Vec<char>, w: &Vec<char>, i: usize) -> (b: bool)
    ensures
        b == word_at(h@, w@, i as int),
{
    if !crate::text::occurs_at_exec(h, i, w) {
        return false;
    }
    let before = i == 0 || is_word_sep(h[i - 1]);
    let e: usize = h.len() - w.len();
    let after = i == e || is_word_sep(h[i + w.len()]);
    before && after
}

/// Whether `w` is a whole word of `h`.
fn has_word_exec(h: &Vec<char>, w: &Vec<char>) -> (b: bool)
    ensures
        b == has_word(h@, w@),
{
    if w.len() > h.len() {
        assert forall|i: int| !word_at(h@, w@, i) by {}
        return false;
    }
    let last = h.len() - w.len();
    let mut i: usize = 0;
    while i < last
        invariant
            i <= last == h.len() - w.len(),
            forall|j: int| 0 <= j < i ==> !word_at(h@, w@, j),
        decreases last - i,
    {
        if word_at_exec(h, w, i) {
            return true;
        }
        i = i + 1;
    }
    if word_at_exec(h, w, last) {
        return true;
    }
    assert forall|j: int| !word_at(h@, w@, j) by {
        if 0 <= j < i {
        }
    }
    false
}

/// The tells that are whole words of an already lower-cased text, in sorted
/// order and each once.
pub fn tells_in_text(lowered: &str) -> (r: Vec<String>)
    ensures
        views(r@) == tells_in(lowered@, 20),
{
    let h = chars_of(lowered);
    let tells: Vec<&str> = vec![
        "broken", "bug", "bugs", "dangerous", "defect", "defects", "flaw", "flaws", "harmless",
        "incorrect", "incorrectly", "leak", "leaking", "leaks", "regression", "subtle", "suspicious",
        "unsafe", "wrong", "wrongly",
    ];
    assert(tells@.len() == 20);
    assert forall|k: int| 0 <= k < 20 implies (#[trigger] tells@[k])@ == category_tells()[k] by {}
    let mut r: Vec<String> = Vec::new();
    let mut k: usize = 0;
    while k < tells.len()
        invariant
            k <= tells@.len() == 20,
            h@ == lowered@,
            forall|k: int| 0 <= k < 20 ==> (#[trigger] tells@[k])@ == category_tells()[k],
            views(r@) == tells_in(h@, k as int),
        decreases tells.len() - k,
    {
        let w = chars_of(tells[k]);
        if has_word_exec(&h, &w) {
            r.push(crate::text::owned(tells[k]));
        }
        assert(views(r@) =~= tells_in(h@, k + 1));
        k = k + 1;
    }
    r
}

/// Report any verdict-revealing word in a case's agent-visible text: the
/// tells that are whole words of its title and description, lower-cased, in
/// sorted order and each once.
pub fn description_tells(manifest: &CaseManifest) -> (r: Vec<String>)
    ensures
        views(r@) == tells_in(
            crate::text::lowercase(manifest.title@ + " "@ + manifest.description@),
            20,
        ),
{
    let mut hay = manifest.title.clone();
    hay.append(" ");
    hay.append(manifest.description.as_str());
    let low = crate::text::to_lowercase(hay.as_str());
    tells_in_text(low.as_str())
}

} // verus!

verus! {

/// What is wrong with expected finding `i` of a ground truth, if anything: an
/// id used before it, line 0 (lines are 1-based), or a range that ends
/// before it starts.
pub open spec fn truth_problem(fs: Seq<ExpectedFinding>, i: int, path: Seq<char>) -> Option<Seq<char>> {
    let f = fs[i];
    if exists|j: int| 0 <= j < i && (#[trigger] fs[j]).id@ == f.id@ {
        Some("duplicate expected finding id "@ + crate::text::debug_str(f.id@) + " in "@ + path)
    } else if f.start_line == 0 {
        Some(
            "expected finding "@ + crate::text::debug_str(f.id@) + " in "@ + path
                + " uses line 0; line numbers are 1-based"@,
        )
    } else if f.start_line > f.end_line {
        Some(
            "expected finding "@ + crate::text::debug_str(f.id@) + " in "@ + path
                + " has start_line > end_line"@,
        )
    } else {
        None
    }
}

/// Check a loaded ground truth (read from `path`): the first problem found,
/// in order, refuses it.
pub fn validate_ground_truth(gt: &GroundTruth, path: &str) -> (r: Result<(), String>)
    ensures
        r is Ok <==> forall|i: int|
            0 <= i < gt.expected_findings@.len() ==> truth_problem(gt.expected_findings@, i, path@) is None,
        r matches Err(m) ==> exists|i: int|
            0 <= i < gt.expected_findings@.len() && truth_problem(gt.expected_findings@, i, path@)
                == Some(m@) && forall|j: int|
                0 <= j < i ==> truth_problem(gt.expected_findings@, j, path@) is None,
{
    let fs = &gt.expected_findings;
    let mut i: usize = 0;
    while i < fs.len()
        invariant
            i <= fs@.len(),
            fs@ == gt.expected_findings@,
            forall|j: int| 0 <= j < i ==> truth_problem(fs@, j, path@) is None,
        decreases fs@.len() - i,
    {
        let f = &fs[i];
        let mut dup = false;
        let mut j: usize = 0;
        while j < i
            invariant
                j <= i < fs@.len(),
                f == fs@[i as int],
                !dup ==> forall|k: int| 0 <= k < j ==> (#[trigger] fs@[k]).id@ != f.id@,
                dup ==> exists|k: int| 0 <= k < i && (#[trigger] fs@[k]).id@ == f.id@,
            decreases i - j,
        {
            if !dup && crate::text::same_text(fs[j].id.as_str(), f.id.as_str()) {
                dup = true;
            }
            j = j + 1;
        }
        let q = crate::text::debug_quoted(f.id.as_str());
        if dup {
            let mut m = String::from_str("duplicate expected finding id ");
            m.append(q.as_str());
            m.append(" in ");
            m.append(path);
            proof {
                let k = choose|k: int| 0 <= k < i && (#[trigger] fs@[k]).id@ == f.id@;
                assert(exists|j: int| 0 <= j < i && (#[trigger] fs@[j]).id@ == fs@[i as int].id@);
                assert(truth_problem(fs@, i as int, path@) == Some(m@));
            }
            return Err(m);
        }
        assert(!exists|k: int| 0 <= k < i && (#[trigger] fs@[k]).id@ == f.id@);
        if f.start_line == 0 {
            let mut m = String::from_str("expected finding ");
            m.append(q.as_str());
            m.append(" in ");
            m.append(path);
            m.append(" uses line 0; line numbers are 1-based");
            assert(truth_problem(fs@, i as int, path@) == Some(m@));
            return Err(m);
        }
        if f.start_line > f.end_line {
            let mut m = String::from_str("expected finding ");
            m.append(q.as_str());
            m.append(" in ");
            m.append(path);
            m.append(" has start_line > end_line");
            assert(truth_problem(fs@, i as int, path@) == Some(m@));
            return Err(m);
        }
        i = i + 1;
    }
    Ok(())
}

/// A case directory must be named after its case, so result tables are not
/// ambiguous; a directory with no usable name is not checked.
pub fn check_case_dir(dir_name: Option<&str>, case_id: &str) -> (r: Result<(), String>)
    ensures
        match dir_name {
            None => r is Ok,
            Some(n) => if n@ == case_id@ {
                r is Ok
            } else {
                r matches Err(m) && m@ == "case directory "@ + crate::text::debug_str(n@)
                    + " does not match case_id "@ + crate::text::debug_str(case_id@)
            },
        },
{
    match dir_name {
        None => Ok(()),
        Some(n) => {
            if same_text(n, case_id) {
                Ok(())
            } else {
                let mut m = String::from_str("case directory ");
                let a = crate::text::debug_quoted(n);
                m.append(a.as_str());
                m.append(" does not match case_id ");
                let b = crate::text::debug_quoted(case_id);
                m.append(b.as_str());
                Err(m)
            }
        },
    }
}

} // verus!

verus! {

/// Whether every hunk of a diff that lies inside a file ends at a line number
/// that fits in `u32`, which `changed_line_ranges` and
/// `findings_outside_the_diff` need of the diffs they read.
pub fn diff_ranges_fit(diff: &str) -> (b: bool)
    ensures
        b == ranges_fit(diff@),
{
    let v = chars_of(diff);
    let ls = line_ranges(&v, 0, v.len());
    let ghost lines_s = lines(diff@);
    assert(v@.subrange(0, v@.len() as int) =~= diff@);
    let mut in_file = false;
    let mut k: usize = 0;
    while k < ls.len()
        invariant
            k <= ls.len(),
            v@ == diff@,
            lines_s == lines(diff@),
            ls.len() == lines_s.len(),
            forall|j: int|
                0 <= j < ls.len() ==> 0 <= (#[trigger] ls[j]).0 <= ls[j].1 <= v.len() && v@.subrange(
                    ls[j].0 as int,
                    ls[j].1 as int,
                ) == lines_s[j],
            in_file == (range_scan(lines_s, k as int).0 is Some),
            forall|n: int|
                0 <= n < k && (#[trigger] range_scan(lines_s, n)).0 is Some && hunk_range(lines_s[n]) is Some
                    ==> (hunk_range(lines_s[n])->0).1 <= u32::MAX,
        decreases ls.len() - k,
    {
        let (lo, hi) = ls[k];
        let ghost before = range_scan(lines_s, k as int);
        assert(range_scan(lines_s, k + 1) == range_step(before, lines_s[k as int]));
        match range_header_exec(&v, lo, hi) {
            Some(None) => {
                in_file = false;
            },
            Some(Some(_)) => {
                in_file = true;
            },
            None => {
                if in_file {
                    match hunk_range_exec(&v, lo, hi) {
                        Some((_, end)) => {
                            if end > 0xffff_ffff {
                                assert(range_scan(lines_s, k as int).0 is Some);
                                return false;
                            }
                        },
                        None => {},
                    }
                }
            },
        }
        k = k + 1;
    }
    true
}

} // verus!
