//! What both agents share: reading the diff, rendering file context, and
//! reading a model reply.

pub mod adjudication;
pub mod advanced;
pub mod flow;

use vstd::prelude::*;
use crate::diff::{diff_files, files_header_path, files_header_path_exec, files_upto};
use crate::text::{
    chars_of, contains_text, debug_quoted, debug_str, decimal, joined, line_ranges, lines, push_decimal,
    same_text, trim, trim_str, views,
};
use crate::finding::{CandidateFinding, IssueType, Location, Severity};
use self::advanced::{numbered_region, push_numbered_lines};

verus! {

/// Repository-relative paths touched by a unified diff: the `+++` side of
/// each file header, in the order the diff names them, each once.
pub fn changed_files(diff: &str) -> (files: Vec<String>)
    ensures
        views(files@) == diff_files(diff@),
{
    let v = chars_of(diff);
    let ls = line_ranges(&v, 0, v.len());
    let ghost lines_s = lines(diff@);
    assert(v@.subrange(0, v@.len() as int) =~= diff@);
    let mut files: Vec<String> = Vec::new();
    let mut k: usize = 0;
    assert(views(files@) =~= files_upto(lines_s, 0));
    while k < ls.len()
        invariant
            k <= ls.len(),
            v@ == diff@,
            lines_s == lines(diff@),
            ls.len() == lines_s.len(),
            forall|j: int|
                0 <= j < ls.len() ==> 0 <= (#[trigger] ls[j]).0 <= ls[j].1 <= v.len() && v@.subrange(
                    ls[j].0 as int,
                    ls[j].1 as int,
                ) == lines_s[j],
            views(files@) == files_upto(lines_s, k as int),
        decreases ls.len() - k,
    {
        let (lo, hi) = ls[k];
        let ghost prev = views(files@);
        match files_header_path_exec(&v, lo, hi) {
            Some(p) => {
                if !p.as_str().is_empty() && !contains_text(&files, p.as_str()) {
                    files.push(p);
                    assert(views(files@) =~= prev.push(p@));
                }
            },
            None => {},
        }
        k = k + 1;
    }
    files
}

} // verus!

verus! {

/// The first line `number_lines` shows: `from`, but not before line 1.
pub open spec fn first_shown(from: u32) -> int {
    if from >= 1 {
        from as int
    } else {
        1
    }
}

/// How many lines `number_lines` shows of a text with `total` lines.
pub open spec fn shown_count(total: nat, from: u32, limit: u32) -> int {
    let first = first_shown(from);
    if first > total {
        0
    } else if limit < total - first + 1 {
        limit as int
    } else {
        total - first + 1
    }
}

/// `content` with 1-based line numbers, from line `from`, at most `limit`
/// lines, each as `{n:>5} | {line}`, every line ending in a newline.
pub open spec fn numbered_text(content: Seq<char>, from: u32, limit: u32) -> Seq<char> {
    let ls = lines(content);
    let first = first_shown(from);
    joined(numbered_region(ls, first, first + shown_count(ls.len(), from, limit) - 1), "\n"@)
        + "\n"@
}

/// Render `content` with 1-based line numbers, starting at `from` and
/// emitting at most `limit` lines.
pub fn number_lines(content: &str, from: u32, limit: u32) -> (s: String)
    requires
        lines(content@).len() <= u32::MAX,
    ensures
        s@ == numbered_text(content@, from, limit),
{
    let v = chars_of(content);
    assert(v@.subrange(0, v@.len() as int) =~= content@);
    let ls = line_ranges(&v, 0, v.len());
    let ghost lsv = lines(content@);
    assert(lsv =~= Seq::new(ls@.len(), |j: int| v@.subrange(ls@[j].0 as int, ls@[j].1 as int)));
    let total = ls.len() as u64;
    let first: u64 = if from >= 1 {
        from as u64
    } else {
        1
    };
    let count: u64 = if first > total {
        0
    } else if (limit as u64) < total - first + 1 {
        limit as u64
    } else {
        total - first + 1
    };
    let mut out = String::new();
    push_numbered_lines(&mut out, &v, &ls, first, count);
    out.append("\n");
    out
}

/// The context block for one changed file: its numbered contents (at most
/// `max_lines` lines, with a note of how many more there are), or why it
/// could not be read.
pub open spec fn file_block(file: Seq<char>, read: Result<Seq<char>, Seq<char>>, max_lines: u32) -> Seq<char> {
    "\n### "@ + file + "\n\n"@ + match read {
        Ok(content) => {
            let total = lines(content).len();
            "```rust\n"@ + numbered_text(content, 1, max_lines) + (if total > max_lines {
                "... ["@ + decimal((total - max_lines) as nat) + " further lines not shown]\n"@
            } else {
                Seq::empty()
            }) + "```\n"@
        },
        Err(e) => "(could not read: "@ + e + ")\n"@,
    }
}

/// The blocks of the first `n` files.
pub open spec fn file_blocks(
    files: Seq<Seq<char>>,
    reads: Seq<Result<Seq<char>, Seq<char>>>,
    n: int,
    max_lines: u32,
) -> Seq<char>
    decreases n,
{
    if n <= 0 {
        Seq::empty()
    } else {
        file_blocks(files, reads, n - 1, max_lines) + file_block(files[n - 1], reads[n - 1], max_lines)
    }
}

/// A read result by its views.
pub open spec fn read_view(r: Result<String, String>) -> Result<Seq<char>, Seq<char>> {
    match r {
        Ok(c) => Ok(c@),
        Err(e) => Err(e@),
    }
}

/// The file context both agents are shown.
pub open spec fn file_context(
    files: Seq<Seq<char>>,
    reads: Seq<Result<Seq<char>, Seq<char>>>,
    max_lines: u32,
) -> Seq<char> {
    let all = file_blocks(files, reads, files.len() as int, max_lines);
    if all.len() == 0 {
        "(no changed files could be read)\n"@
    } else {
        all
    }
}

/// Render the current contents of the changed files, with line numbers.
///
/// `reads[i]` is what reading `files[i]` from the repository gave: its text,
/// or the reason it could not be read. Bounded per file so a large file
/// cannot crowd out the rest of the prompt. Both agents use this, so neither
/// gets a context advantage from it.
#[verifier::spinoff_prover]
#[verifier::rlimit(50)]
pub fn build_file_context(files: &[String], reads: &[Result<String, String>], max_lines_per_file: u32) -> (s: String)
    requires
        files@.len() == reads@.len(),
        forall|i: int|
            0 <= i < reads@.len() ==> (#[trigger] reads@[i] matches Ok(c) ==> lines(c@).len()
                <= u32::MAX),
    ensures
        s@ == file_context(
            views(files@),
            reads@.map_values(|r: Result<String, String>| read_view(r)),
            max_lines_per_file,
        ),
{
    let ghost fv = views(files@);
    let ghost rv = reads@.map_values(|r: Result<String, String>| read_view(r));
    let mut out = String::new();
    let mut i: usize = 0;
    while i < files.len()
        invariant
            i <= files@.len() == reads@.len(),
            fv == views(files@),
            rv == reads@.map_values(|r: Result<String, String>| read_view(r)),
            forall|j: int|
                0 <= j < reads@.len() ==> (#[trigger] reads@[j] matches Ok(c) ==> lines(c@).len()
                    <= u32::MAX),
            out@ == file_blocks(fv, rv, i as int, max_lines_per_file),
        decreases files@.len() - i,
    {
        let ghost before = out@;
        out.append("\n### ");
        out.append(files[i].as_str());
        out.append("\n\n");
        match &reads[i] {
            Ok(content) => {
                out.append("```rust\n");
                let numbered = number_lines(content.as_str(), 1, max_lines_per_file);
                out.append(numbered.as_str());
                let v = chars_of(content.as_str());
                assert(v@.subrange(0, v@.len() as int) =~= content@);
                let ls = line_ranges(&v, 0, v.len());
                let total = ls.len() as u32;
                if total > max_lines_per_file {
                    out.append("... [");
                    push_decimal(&mut out, (total - max_lines_per_file) as u64);
                    out.append(" further lines not shown]\n");
                }
                out.append("```\n");
            },
            Err(e) => {
                out.append("(could not read: ");
                out.append(e.as_str());
                out.append(")\n");
            },
        }
        assert(out@ =~= before + file_block(fv[i as int], rv[i as int], max_lines_per_file));
        i = i + 1;
    }
    if out.as_str().is_empty() {
        out.append("(no changed files could be read)\n");
    }
    out
}

} // verus!

verus! {

/// One proposed finding as a model is asked to emit it, once the reply's JSON
/// has been read into plain values. Absent optional fields are `None`;
/// absent `reasoning` is empty.
#[derive(Debug)]
pub struct RawFinding {
    pub issue_type: String,
    pub severity: Option<String>,
    pub file: String,
    pub start_line: u32,
    pub end_line: Option<u32>,
    pub claim: String,
    pub reasoning: String,
}

/// Outcome of parsing a review response.
#[derive(Debug)]
pub struct ParsedReview {
    pub candidates: Vec<CandidateFinding>,
    /// Findings that had to be dropped, with the reason. A model that keeps
    /// emitting invented issue types is a result, not noise to hide.
    pub warnings: Vec<String>,
}

/// The issue type a (trimmed) name denotes, if it is in the taxonomy.
pub open spec fn issue_type_of(s: Seq<char>) -> Option<IssueType> {
    if s == "Correctness"@ {
        Some(IssueType::Correctness)
    } else if s == "ErrorHandling"@ {
        Some(IssueType::ErrorHandling)
    } else if s == "Validation"@ {
        Some(IssueType::Validation)
    } else if s == "StateManagement"@ {
        Some(IssueType::StateManagement)
    } else if s == "ResourceManagement"@ {
        Some(IssueType::ResourceManagement)
    } else if s == "Concurrency"@ {
        Some(IssueType::Concurrency)
    } else if s == "ApiContract"@ {
        Some(IssueType::ApiContract)
    } else if s == "Testing"@ {
        Some(IssueType::Testing)
    } else if s == "Performance"@ {
        Some(IssueType::Performance)
    } else {
        None
    }
}

/// Severity named by a reply; anything but `Low` or `High` (after trimming),
/// and a missing one, is the neutral `Medium`.
pub open spec fn severity_of(s: Option<Seq<char>>) -> Severity {
    match s {
        Some(t) => if trim(t) == "Low"@ {
            Severity::Low
        } else if trim(t) == "High"@ {
            Severity::High
        } else {
            Severity::Medium
        },
        None => Severity::Medium,
    }
}

/// Parse an issue type name, ignoring surrounding whitespace.
pub fn parse_issue_type(s: &str) -> (r: Option<IssueType>)
    ensures
        r == issue_type_of(trim(s@)),
{
    let t = trim_str(s);
    let t = t.as_str();
    if same_text(t, "Correctness") {
        Some(IssueType::Correctness)
    } else if same_text(t, "ErrorHandling") {
        Some(IssueType::ErrorHandling)
    } else if same_text(t, "Validation") {
        Some(IssueType::Validation)
    } else if same_text(t, "StateManagement") {
        Some(IssueType::StateManagement)
    } else if same_text(t, "ResourceManagement") {
        Some(IssueType::ResourceManagement)
    } else if same_text(t, "Concurrency") {
        Some(IssueType::Concurrency)
    } else if same_text(t, "ApiContract") {
        Some(IssueType::ApiContract)
    } else if same_text(t, "Testing") {
        Some(IssueType::Testing)
    } else if same_text(t, "Performance") {
        Some(IssueType::Performance)
    } else {
        None
    }
}

/// Parse a severity; `Medium` is the default and does not affect scoring.
pub fn parse_severity(s: Option<&str>) -> (r: Severity)
    ensures
        r == severity_of(
            match s {
                Some(t) => Some(t@),
                None => None,
            },
        ),
{
    match s {
        Some(t) => {
            let t = trim_str(t);
            if same_text(t.as_str(), "Low") {
                Severity::Low
            } else if same_text(t.as_str(), "High") {
                Severity::High
            } else {
                Severity::Medium
            }
        },
        None => Severity::Medium,
    }
}

/// `finding[i] dropped: ` — how every warning about a dropped item starts.
pub open spec fn dropped_prefix(i: nat) -> Seq<char> {
    "finding["@ + decimal(i) + "] dropped: "@
}

/// Why item `i` of a reply is dropped, or `None` when it becomes a candidate.
pub open spec fn item_warning(i: nat, item: Result<RawFinding, String>) -> Option<Seq<char>> {
    match item {
        Err(e) => Some(dropped_prefix(i) + e@),
        Ok(raw) => if issue_type_of(trim(raw.issue_type@)) is None {
            Some(
                dropped_prefix(i) + "issue_type "@ + debug_str(raw.issue_type@)
                    + " is not in the controlled taxonomy"@,
            )
        } else if raw.start_line == 0 {
            Some(dropped_prefix(i) + "start_line 0 (lines are 1-based)"@)
        } else if trim(raw.claim@).len() == 0 {
            Some(dropped_prefix(i) + "empty claim"@)
        } else {
            None
        },
    }
}

/// The last line a raw finding covers: its end line, never before its start,
/// and its start line when it gives none.
pub open spec fn raw_end(raw: RawFinding) -> u32 {
    match raw.end_line {
        Some(e) => if e >= raw.start_line {
            e
        } else {
            raw.start_line
        },
        None => raw.start_line,
    }
}

/// `c` is the candidate made of item `i` of a reply.
pub open spec fn candidate_from(c: CandidateFinding, prefix: Seq<char>, i: nat, raw: RawFinding) -> bool {
    &&& c.id@ == prefix + "-"@ + decimal(i + 1)
    &&& issue_type_of(trim(raw.issue_type@)) == Some(c.issue_type)
    &&& c.severity == severity_of(
        match raw.severity {
            Some(t) => Some(t@),
            None => None,
        },
    )
    &&& c.location.file@ == crate::finding::normalized(raw.file@)
    &&& c.location.start_line == raw.start_line
    &&& c.location.end_line == raw_end(raw)
    &&& c.claim@ == trim(raw.claim@)
    &&& c.reasoning@ == trim(raw.reasoning@)
}

/// Indices, in order, of the first `n` items that become candidates.
pub open spec fn kept_upto(items: Seq<Result<RawFinding, String>>, n: int) -> Seq<nat>
    decreases n,
{
    if n <= 0 {
        Seq::empty()
    } else if item_warning((n - 1) as nat, items[n - 1]) is None {
        kept_upto(items, n - 1).push((n - 1) as nat)
    } else {
        kept_upto(items, n - 1)
    }
}

/// The warnings for the first `n` items, in order.
pub open spec fn warnings_upto(items: Seq<Result<RawFinding, String>>, n: int) -> Seq<Seq<char>>
    decreases n,
{
    if n <= 0 {
        Seq::empty()
    } else {
        match item_warning((n - 1) as nat, items[n - 1]) {
            Some(w) => warnings_upto(items, n - 1).push(w),
            None => warnings_upto(items, n - 1),
        }
    }
}

proof fn lemma_kept_bounded(items: Seq<Result<RawFinding, String>>, n: int)
    requires
        0 <= n,
    ensures
        kept_upto(items, n).len() <= n,
        forall|j: int| 0 <= j < kept_upto(items, n).len() ==> #[trigger] kept_upto(items, n)[j] < n,
    decreases n,
{
    if n > 0 {
        lemma_kept_bounded(items, n - 1);
    }
}

/// Parse the items of a `{"findings": [...]}` reply into candidates.
///
/// `items` is `None` when the reply had no `findings` array; each item is
/// the finding as read, or the reason it could not be read. `id_prefix`
/// tells ids apart across stages within a case; ids count from 1 over all
/// items, dropped ones included.
pub fn parse_review(items: Option<&Vec<Result<RawFinding, String>>>, id_prefix: &str) -> (p: ParsedReview)
    ensures
        items is None ==> p.candidates@.len() == 0 && views(p.warnings@) == seq![
            "response had no `findings` array"@,
        ],
        items matches Some(xs) ==> {
            &&& p.candidates@.len() == kept_upto(xs@, xs@.len() as int).len()
            &&& forall|j: int|
                0 <= j < p.candidates@.len() ==> candidate_from(
                    #[trigger] p.candidates@[j],
                    id_prefix@,
                    kept_upto(xs@, xs@.len() as int)[j],
                    xs@[kept_upto(xs@, xs@.len() as int)[j] as int]->Ok_0,
                )
            &&& views(p.warnings@) == warnings_upto(xs@, xs@.len() as int)
        },
{
    let mut candidates: Vec<CandidateFinding> = Vec::new();
    let mut warnings: Vec<String> = Vec::new();
    let xs = match items {
        Some(xs) => xs,
        None => {
            warnings.push(String::from_str("response had no `findings` array"));
            assert(views(warnings@) =~= seq!["response had no `findings` array"@]);
            return ParsedReview { candidates, warnings };
        },
    };
    let mut i: usize = 0;
    while i < xs.len()
        invariant
            i <= xs.len(),
            candidates@.len() == kept_upto(xs@, i as int).len(),
            forall|j: int|
                0 <= j < candidates@.len() ==> candidate_from(
                    #[trigger] candidates@[j],
                    id_prefix@,
                    kept_upto(xs@, i as int)[j],
                    xs@[kept_upto(xs@, i as int)[j] as int]->Ok_0,
                ),
            views(warnings@) == warnings_upto(xs@, i as int),
        decreases xs.len() - i,
    {
        proof {
            lemma_kept_bounded(xs@, i as int);
        }
        let ghost k0 = kept_upto(xs@, i as int);
        let mut w = String::from_str("finding[");
        push_decimal(&mut w, i as u64);
        w.append("] dropped: ");
        match &xs[i] {
            Err(e) => {
                w.append(e.as_str());
                warnings.push(w);
            },
            Ok(raw) => {
                let it = parse_issue_type(raw.issue_type.as_str());
                let claim = trim_str(raw.claim.as_str());
                match it {
                    None => {
                        w.append("issue_type ");
                        let q = debug_quoted(raw.issue_type.as_str());
                        w.append(q.as_str());
                        w.append(" is not in the controlled taxonomy");
                        warnings.push(w);
                    },
                    Some(issue_type) => {
                        if raw.start_line == 0 {
                            w.append("start_line 0 (lines are 1-based)");
                            warnings.push(w);
                        } else if claim.as_str().unicode_len() == 0 {
                            w.append("empty claim");
                            warnings.push(w);
                        } else {
                            let end_line = match raw.end_line {
                                Some(e) => if e >= raw.start_line {
                                    e
                                } else {
                                    raw.start_line
                                },
                                None => raw.start_line,
                            };
                            let mut id = String::new();
                            id.append(id_prefix);
                            id.append("-");
                            push_decimal(&mut id, (i + 1) as u64);
                            let severity = match &raw.severity {
                                Some(s) => parse_severity(Some(s.as_str())),
                                None => parse_severity(None),
                            };
                            let c = CandidateFinding {
                                id,
                                issue_type,
                                severity,
                                location: Location::new(raw.file.as_str(), raw.start_line, end_line),
                                claim,
                                reasoning: trim_str(raw.reasoning.as_str()),
                            };
                            candidates.push(c);
                        }
                    },
                }
            },
        }
        assert(views(warnings@) =~= warnings_upto(xs@, i + 1));
        assert forall|j: int| 0 <= j < candidates@.len() implies candidate_from(
            #[trigger] candidates@[j],
            id_prefix@,
            kept_upto(xs@, i + 1)[j],
            xs@[kept_upto(xs@, i + 1)[j] as int]->Ok_0,
        ) by {
            if j < k0.len() {
                assert(kept_upto(xs@, i + 1)[j] == k0[j]);
            }
        }
        i = i + 1;
    }
    ParsedReview { candidates, warnings }
}

} // verus!

verus! {

/// The file context for a case, as both agents see it: the files its diff
/// changes, given what reading each of them gave, in the order the diff
/// names them.
pub fn case_file_context(case: &crate::bench::Case, reads: &[Result<String, String>], max_lines_per_file: u32) -> (s: String)
    requires
        reads@.len() == diff_files(case.diff@).len(),
        forall|i: int|
            0 <= i < reads@.len() ==> (#[trigger] reads@[i] matches Ok(c) ==> lines(c@).len()
                <= u32::MAX),
    ensures
        s@ == file_context(
            diff_files(case.diff@),
            reads@.map_values(|r: Result<String, String>| read_view(r)),
            max_lines_per_file,
        ),
{
    let files = changed_files(case.diff.as_str());
    build_file_context(files.as_slice(), reads, max_lines_per_file)
}

} // verus!
