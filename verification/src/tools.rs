//! Repository investigation tools.
//!
//! These are the only way an agent touches the repository, and they are the
//! only source of [`Evidence`]. The model may ask for a tool call and may
//! interpret what comes back, but it cannot author an evidence item: every
//! `Evidence` value is built here, from text actually read from the
//! repository.
//!
//! Search is literal-substring, not regex: enough to find callers and
//! definitions, it cannot blow up on a pathological pattern, and it keeps the
//! tool's behaviour obvious to anyone auditing a trajectory.
//!
//! Reading the repository is the driver's part. A call is first turned into a
//! [`ToolPlan`]; the driver performs the reads the plan names and hands the
//! text back to [`search_result`], [`read_result`] or [`listing_result`].

use vstd::prelude::*;
use crate::finding::{Evidence, EvidenceKind, normalize_path, normalized};
use crate::text::{
    chars_of, debug_quoted, debug_str, decimal, has_prefix, has_sub, joined, line_ranges, lines,
    occurs_at_exec, contains_range, push_decimal, push_joined, push_range, string_of, trim,
    trim_range, views, same_text,
};

verus! {

/// What executing a tool produced.
#[derive(Debug)]
pub struct ToolResult {
    /// False when the tool refused: unknown tool, bad arguments, rejected
    /// path, or no matches.
    pub ok: bool,
    /// Text handed back to the model.
    pub text: String,
    /// Repository-grounded evidence, if any.
    pub evidence: Vec<Evidence>,
}

impl ToolResult {
    fn refused(text: String) -> (r: ToolResult)
        ensures
            !r.ok,
            r.text@ == text@,
            r.evidence@.len() == 0,
    {
        ToolResult { ok: false, text, evidence: Vec::new() }
    }
}

/// `s` ends with `p`.
pub open spec fn has_suffix(s: Seq<char>, p: Seq<char>) -> bool {
    p.len() <= s.len() && s.skip(s.len() - p.len()) == p
}

/// A deliberately small subset of glob semantics: a required prefix and a
/// required suffix.
#[derive(Debug, PartialEq, Eq)]
pub struct PathFilter {
    prefix: Option<String>,
    suffix: Option<String>,
}

impl PathFilter {
    pub closed spec fn prefix_spec(&self) -> Option<Seq<char>> {
        match self.prefix {
            Some(p) => Some(p@),
            None => None,
        }
    }

    pub closed spec fn suffix_spec(&self) -> Option<Seq<char>> {
        match self.suffix {
            Some(s) => Some(s@),
            None => None,
        }
    }

    /// Whether `path` passes the filter.
    pub open spec fn admits(&self, path: Seq<char>) -> bool {
        &&& (self.prefix_spec() matches Some(p) ==> has_prefix(path, p))
        &&& (self.suffix_spec() matches Some(s) ==> has_suffix(path, s))
    }

    pub fn matches(&self, path: &str) -> (b: bool)
        ensures
            b == self.admits(path@),
    {
        let v = chars_of(path);
        assert(v@.subrange(0, v@.len() as int) =~= path@);
        if let Some(p) = &self.prefix {
            let pv = chars_of(p.as_str());
            if !crate::text::starts_with_range(&v, 0, v.len(), &pv) {
                return false;
            }
        }
        if let Some(s) = &self.suffix {
            let sv = chars_of(s.as_str());
            if sv.len() > v.len() {
                return false;
            }
            let at = v.len() - sv.len();
            let b = occurs_at_exec(&v, at, &sv);
            assert(b == (path@.skip(at as int) == s@)) by {
                if path@.skip(at as int) == s@ {
                    assert(v@.subrange(at as int, at + sv@.len()) =~= path@.skip(at as int));
                }
                if b {
                    assert(v@.subrange(at as int, at + sv@.len()) =~= path@.skip(at as int));
                }
            }
            if !b {
                return false;
            }
        }
        true
    }
}

/// The first piece of `s` before a `*`.
pub open spec fn before_star(s: Seq<char>) -> Seq<char> {
    crate::text::split_char(s, '*')[0]
}

/// The last piece of `s` after a `*`.
pub open spec fn after_star(s: Seq<char>) -> Seq<char> {
    crate::text::split_char(s, '*').last()
}

/// `s` without trailing slashes.
pub open spec fn trim_end_slashes(s: Seq<char>) -> Seq<char>
    decreases s.len(),
{
    if s.len() > 0 && s.last() == '/' {
        trim_end_slashes(s.drop_last())
    } else {
        s
    }
}

/// The prefix a glob requires: what comes before its first `*`, without
/// trailing slashes, then with exactly one; none when that is empty.
pub open spec fn glob_prefix(glob: Seq<char>) -> Option<Seq<char>> {
    let g = crate::finding::slashes_forward(trim(glob));
    let p = trim_end_slashes(before_star(g));
    if p.len() == 0 {
        None
    } else {
        Some(p.push('/'))
    }
}

/// The suffix a glob requires: what comes after its last `*`, when that is
/// non-empty and names no directory.
pub open spec fn glob_suffix(glob: Seq<char>) -> Option<Seq<char>> {
    let g = crate::finding::slashes_forward(trim(glob));
    let s = after_star(g);
    if s.len() == 0 || s.contains('/') {
        None
    } else {
        Some(s)
    }
}

/// What comes before a glob's first `*`, once trimmed and with forward
/// slashes, without trailing slashes.
pub open spec fn glob_head(glob: Seq<char>) -> Seq<char> {
    trim_end_slashes(before_star(crate::finding::slashes_forward(trim(glob))))
}

/// A glob with a directory before its first `*` only ever lets through
/// paths under that directory, whether or not anything follows the `*`:
/// for the filter `glob_to_filter` makes, every admitted path starts with
/// that directory and a `/`.
pub proof fn law_a_glob_keeps_to_its_directory(f: PathFilter, glob: Seq<char>, path: Seq<char>)
    requires
        f.prefix_spec() == glob_prefix(glob),
        f.suffix_spec() == glob_suffix(glob),
        glob_head(glob).len() > 0,
    ensures
        f.admits(path) ==> has_prefix(path, glob_head(glob).push('/')),
{
}

/// Reduce a glob to a prefix and/or suffix test.
///
/// `src/**/*.rs` becomes "starts with src/ and ends with .rs", which is what
/// such a pattern is used for, and anything unrecognised degrades to matching
/// everything rather than to matching nothing.
pub fn glob_to_filter(glob: &str) -> (f: PathFilter)
    ensures
        f.prefix_spec() == glob_prefix(glob@),
        f.suffix_spec() == glob_suffix(glob@),
{
    let t = crate::text::trim_str(glob);
    let tv = chars_of(t.as_str());
    let mut g: Vec<char> = Vec::new();
    let mut i: usize = 0;
    while i < tv.len()
        invariant
            i <= tv.len(),
            g@ == crate::finding::slashes_forward(tv@.take(i as int)),
        decreases tv.len() - i,
    {
        if tv[i] == '\\' {
            g.push('/');
        } else {
            g.push(tv[i]);
        }
        i = i + 1;
        assert(crate::finding::slashes_forward(tv@.take(i as int)) =~= crate::finding::slashes_forward(
            tv@.take(i - 1),
        ).push(
            if tv@[i - 1] == '\\' {
                '/'
            } else {
                tv@[i - 1]
            },
        ));
    }
    assert(tv@.take(i as int) =~= tv@);
    let ghost gs = g@;
    assert(g@.subrange(0, g@.len() as int) =~= gs);
    let pieces = crate::text::split_ranges(&g, 0, g.len(), '*');
    let (a, b) = pieces[0];
    let mut e = b;
    while e > a && g[e - 1] == '/'
        invariant
            a <= e <= b <= g.len(),
            trim_end_slashes(g@.subrange(a as int, b as int)) == trim_end_slashes(
                g@.subrange(a as int, e as int),
            ),
        decreases e - a,
    {
        assert(g@.subrange(a as int, e as int).drop_last() =~= g@.subrange(a as int, e - 1));
        e = e - 1;
    }
    if e > a {
        assert(g@.subrange(a as int, e as int).last() == g@[e - 1]);
    }
    assert(trim_end_slashes(g@.subrange(a as int, e as int)) == g@.subrange(a as int, e as int));
    let prefix = if e > a {
        let mut p = string_of(&g, a, e);
        crate::text::push_char(&mut p, '/');
        Some(p)
    } else {
        None
    };
    let (c, d) = pieces[pieces.len() - 1];
    let mut has_slash = false;
    let mut k = c;
    while k < d
        invariant
            c <= k <= d <= g.len(),
            has_slash == g@.subrange(c as int, k as int).contains('/'),
        decreases d - k,
    {
        let ghost before = g@.subrange(c as int, k as int);
        let ghost after = g@.subrange(c as int, k + 1);
        assert(after =~= before.push(g@[k as int]));
        if g[k] == '/' {
            has_slash = true;
            assert(after[k - c] == '/');
        }
        proof {
            if after.contains('/') && g@[k as int] != '/' {
                let j = choose|j: int| 0 <= j < after.len() && after[j] == '/';
                assert(before[j] == '/');
            }
            if before.contains('/') {
                let j = choose|j: int| 0 <= j < before.len() && before[j] == '/';
                assert(after[j] == '/');
            }
        }
        k = k + 1;
    }
    let suffix = if d > c && !has_slash {
        Some(string_of(&g, c, d))
    } else {
        None
    };
    PathFilter { prefix, suffix }
}

} // verus!

verus! {

/// The arguments a tool call carries, as far as any tool reads them.
#[derive(Debug, Clone)]
pub struct ToolArgs {
    pub pattern: Option<String>,
    pub glob: Option<String>,
    pub file: Option<String>,
    pub start_line: Option<u64>,
    pub end_line: Option<u64>,
}

/// A tool invocation requested by the model.
#[derive(Debug, Clone)]
pub struct ToolCall {
    pub tool: String,
    pub arguments: ToolArgs,
}

/// Tool names the model may request.
pub open spec fn tool_names() -> Seq<Seq<char>> {
    seq!["search"@, "read"@, "list_files"@]
}

/// What a tool call asks the driver to do.
#[derive(Debug)]
pub enum ToolPlan {
    /// Search every listed file the filter admits for `pattern`.
    Search { pattern: String, filter: Option<PathFilter> },
    /// Read `file` and show the requested line range.
    Read { file: String, start_line: Option<u64>, end_line: Option<u64> },
    /// List the repository.
    ListFiles,
    /// Nothing to do: the call is refused with this result.
    Refuse(ToolResult),
}

/// An optional string by its view.
pub open spec fn opt_text(o: Option<String>) -> Option<Seq<char>> {
    match o {
        Some(s) => Some(s@),
        None => None,
    }
}

/// `p` refuses with `text`.
pub open spec fn refuses_with(p: ToolPlan, text: Seq<char>) -> bool {
    match p {
        ToolPlan::Refuse(r) => !r.ok && r.text@ == text && r.evidence@.len() == 0,
        _ => false,
    }
}

/// `p` searches for `pattern` under the filter `glob` reduces to, if any.
pub open spec fn searches(p: ToolPlan, pattern: Seq<char>, glob: Option<String>) -> bool {
    match p {
        ToolPlan::Search { pattern: q, filter } => q@ == pattern && match glob {
            None => filter is None,
            Some(g) => filter is Some && filter->0.prefix_spec() == glob_prefix(g@)
                && filter->0.suffix_spec() == glob_suffix(g@),
        },
        _ => false,
    }
}

/// `p` reads `file` over the requested lines.
pub open spec fn reads(p: ToolPlan, file: Seq<char>, start: Option<u64>, end: Option<u64>) -> bool {
    match p {
        ToolPlan::Read { file: f, start_line, end_line } => f@ == file && start_line == start
            && end_line == end,
        _ => false,
    }
}

/// Turn a call into the work it asks for, or refuse it: a search needs a
/// non-empty `pattern`, a read needs a `file`, and only the three named tools
/// exist.
pub fn plan_tool(call: &ToolCall) -> (p: ToolPlan)
    ensures
        call.tool@ == "search"@ ==> match call.arguments.pattern {
            None => refuses_with(p, "search requires a `pattern` string argument"@),
            Some(pat) => if pat@.len() == 0 {
                refuses_with(p, "search `pattern` must not be empty"@)
            } else {
                searches(p, pat@, call.arguments.glob)
            },
        },
        call.tool@ == "read"@ ==> match call.arguments.file {
            None => refuses_with(p, "read requires a `file` string argument"@),
            Some(f) => reads(p, f@, call.arguments.start_line, call.arguments.end_line),
        },
        call.tool@ == "list_files"@ ==> p is ListFiles,
        !tool_names().contains(call.tool@) ==> refuses_with(
            p,
            "unknown tool "@ + debug_str(call.tool@) + "; available tools are: search, read, list_files"@,
        ),
{
    proof {
        reveal_strlit("search");
        reveal_strlit("read");
        reveal_strlit("list_files");
        assert("search"@.len() == 6);
        assert("read"@.len() == 4);
        assert("list_files"@.len() == 10);
    }
    let tool = call.tool.as_str();
    if same_text(tool, "search") {
        match &call.arguments.pattern {
            None => ToolPlan::Refuse(ToolResult::refused(String::from_str("search requires a `pattern` string argument"))),
            Some(pat) => {
                if pat.as_str().is_empty() {
                    ToolPlan::Refuse(ToolResult::refused(String::from_str("search `pattern` must not be empty")))
                } else {
                    let filter = match &call.arguments.glob {
                        None => None,
                        Some(g) => Some(glob_to_filter(g.as_str())),
                    };
                    ToolPlan::Search { pattern: pat.clone(), filter }
                }
            },
        }
    } else if same_text(tool, "read") {
        match &call.arguments.file {
            None => ToolPlan::Refuse(ToolResult::refused(String::from_str("read requires a `file` string argument"))),
            Some(f) => ToolPlan::Read { file: f.clone(), start_line: call.arguments.start_line, end_line: call.arguments.end_line },
        }
    } else if same_text(tool, "list_files") {
        ToolPlan::ListFiles
    } else {
        let mut m = String::from_str("unknown tool ");
        let q = debug_quoted(tool);
        m.append(q.as_str());
        m.append("; available tools are: search, read, list_files");
        proof {
            assert(tool_names()[0] == "search"@);
            assert(tool_names()[1] == "read"@);
            assert(tool_names()[2] == "list_files"@);
        }
        ToolPlan::Refuse(ToolResult::refused(m))
    }
}

/// The refusal when the repository could not be listed.
pub fn listing_failed(error: &str) -> (r: ToolResult)
    ensures
        !r.ok,
        r.text@ == "could not list repository: "@ + error@,
        r.evidence@.len() == 0,
{
    let mut m = String::from_str("could not list repository: ");
    m.append(error);
    ToolResult::refused(m)
}

/// A repository listing for the model. Listing a directory is not evidence
/// about a claim.
pub fn listing_result(files: &Vec<String>) -> (r: ToolResult)
    requires
        files@.len() <= u64::MAX,
    ensures
        r.ok,
        r.text@ == decimal(files@.len()) + " file(s):\n"@ + joined(views(files@), "\n"@) + "\n"@,
        r.evidence@.len() == 0,
{
    let mut text = String::new();
    push_decimal(&mut text, files.len() as u64);
    text.append(" file(s):\n");
    let mut body = String::new();
    let mut i: usize = 0;
    while i < files.len()
        invariant
            i <= files@.len(),
            body@ == joined(views(files@).take(i as int), "\n"@),
        decreases files@.len() - i,
    {
        let ghost done = views(files@).take(i as int);
        assert(views(files@).take(i + 1) =~= done.push(files@[i as int]@));
        push_joined(&mut body, Ghost(done), i == 0, "\n", files[i].as_str());
        i = i + 1;
    }
    assert(views(files@).take(i as int) =~= views(files@));
    text.append(body.as_str());
    text.append("\n");
    ToolResult { ok: true, text, evidence: Vec::new() }
}

} // verus!

verus! {

/// A search hit: the file, the 1-based line number, and the line with its
/// trailing whitespace removed.
pub type Hit = (Seq<char>, nat, Seq<char>);

/// The hits among the first `n` lines of a file.
pub open spec fn line_hits(file: Seq<char>, ls: Seq<Seq<char>>, pattern: Seq<char>, n: int) -> Seq<Hit>
    decreases n,
{
    if n <= 0 {
        Seq::empty()
    } else if has_sub(ls[n - 1], pattern) {
        line_hits(file, ls, pattern, n - 1).push((file, n as nat, crate::text::trim_end(ls[n - 1])))
    } else {
        line_hits(file, ls, pattern, n - 1)
    }
}

/// Whether the filter, if any, admits `path`.
pub open spec fn admitted(filter: Option<PathFilter>, path: Seq<char>) -> bool {
    match filter {
        None => true,
        Some(f) => f.admits(path),
    }
}

/// The hits in the first `n` listed files, in listing order; files the
/// filter excludes or that could not be read contribute nothing.
pub open spec fn file_hits(
    files: Seq<Seq<char>>,
    contents: Seq<Option<Seq<char>>>,
    filter: Option<PathFilter>,
    pattern: Seq<char>,
    n: int,
) -> Seq<Hit>
    decreases n,
{
    if n <= 0 {
        Seq::empty()
    } else {
        let prev = file_hits(files, contents, filter, pattern, n - 1);
        match contents[n - 1] {
            Some(c) => if admitted(filter, files[n - 1]) {
                prev + line_hits(files[n - 1], lines(c), pattern, lines(c).len() as int)
            } else {
                prev
            },
            None => prev,
        }
    }
}

/// The report lines for hits, `file:line: text` each.
pub open spec fn hit_lines(hits: Seq<Hit>) -> Seq<char>
    decreases hits.len(),
{
    if hits.len() == 0 {
        Seq::empty()
    } else {
        hit_lines(hits.drop_last()) + hits.last().0 + ":"@ + decimal(hits.last().1) + ": "@
            + hits.last().2 + "\n"@
    }
}

/// The evidence item a search hit becomes.
pub open spec fn hit_evidence(e: Evidence, h: Hit, pattern: Seq<char>, id: Seq<char>) -> bool {
    &&& e.kind == EvidenceKind::Search
    &&& e.file matches Some(f) && f@ == h.0
    &&& e.start_line == Some(h.1 as u32)
    &&& e.end_line == Some(h.1 as u32)
    &&& e.symbol matches Some(s) && s@ == pattern
    &&& e.excerpt@ == h.2
    &&& e.tool_call_id@ == id
}

/// An optional content by its view.
pub open spec fn content_view(c: Option<String>) -> Option<Seq<char>> {
    match c {
        Some(s) => Some(s@),
        None => None,
    }
}

/// An optional filter by value.
pub open spec fn filter_of(f: Option<&PathFilter>) -> Option<PathFilter> {
    match f {
        Some(p) => Some(*p),
        None => None,
    }
}

fn push_line_hits(
    hits: &mut Vec<(String, u32, String)>,
    file: &String,
    content: &str,
    pattern: &str,
)
    requires
        lines(content@).len() <= u32::MAX,
    ensures
        final(hits)@.map_values(|h: (String, u32, String)| (h.0@, h.1 as nat, h.2@)) == old(
            hits,
        )@.map_values(|h: (String, u32, String)| (h.0@, h.1 as nat, h.2@)) + line_hits(
            file@,
            lines(content@),
            pattern@,
            lines(content@).len() as int,
        ),
{
    let ghost start = old(hits)@.map_values(|h: (String, u32, String)| (h.0@, h.1 as nat, h.2@));
    let v = chars_of(content);
    assert(v@.subrange(0, v@.len() as int) =~= content@);
    let ls = line_ranges(&v, 0, v.len());
    let ghost lsv = lines(content@);
    let pv = chars_of(pattern);
    let mut j: usize = 0;
    while j < ls.len()
        invariant
            j <= ls.len() == lsv.len() <= u32::MAX,
            lsv == lines(content@),
            pv@ == pattern@,
            forall|k: int|
                0 <= k < ls.len() ==> 0 <= (#[trigger] ls[k]).0 <= ls[k].1 <= v.len() && v@.subrange(
                    ls[k].0 as int,
                    ls[k].1 as int,
                ) == lsv[k],
            hits@.map_values(|h: (String, u32, String)| (h.0@, h.1 as nat, h.2@)) == start + line_hits(
                file@,
                lsv,
                pattern@,
                j as int,
            ),
        decreases ls.len() - j,
    {
        let (a, b) = ls[j];
        let ghost before = hits@.map_values(|h: (String, u32, String)| (h.0@, h.1 as nat, h.2@));
        if contains_range(&v, a, b, &pv) {
            let e = crate::text::trim_end_range(&v, a, b);
            let line = string_of(&v, a, e);
            hits.push((file.clone(), (j + 1) as u32, line));
            assert(hits@.map_values(|h: (String, u32, String)| (h.0@, h.1 as nat, h.2@)) =~= before.push(
                (file@, (j + 1) as nat, crate::text::trim_end(lsv[j as int])),
            ));
        }
        j = j + 1;
    }
}

/// The result of a search, given the listed files and the text of each
/// (`None` for a file not read): matching lines in listing order, at most
/// `max_results` of them, with a note when more were found.
pub fn search_result(
    pattern: &str,
    filter: Option<&PathFilter>,
    files: &Vec<String>,
    contents: &Vec<Option<String>>,
    tool_call_id: &str,
    max_results: u32,
) -> (r: ToolResult)
    requires
        files@.len() == contents@.len(),
        forall|i: int|
            0 <= i < contents@.len() ==> (#[trigger] contents@[i] matches Some(c) ==> lines(c@).len()
                <= u32::MAX),
    ensures
        ({
            let hits = file_hits(
                views(files@),
                contents@.map_values(|c: Option<String>| content_view(c)),
                filter_of(filter),
                pattern@,
                files@.len() as int,
            );
            let n = if hits.len() <= max_results {
                hits.len() as int
            } else {
                max_results as int
            };
            let kept = hits.take(n);
            if n == 0 {
                &&& !r.ok
                &&& r.text@ == "no matches for "@ + debug_str(pattern@)
                &&& r.evidence@.len() == 0
            } else {
                &&& r.ok
                &&& r.text@ == decimal(n as nat) + " match(es) for "@ + debug_str(pattern@) + ":\n"@
                    + hit_lines(kept) + (if hits.len() > max_results {
                    "... truncated at "@ + decimal(max_results as nat) + " matches\n"@
                } else {
                    Seq::empty()
                })
                &&& r.evidence@.len() == n
                &&& forall|k: int|
                    0 <= k < n ==> hit_evidence(#[trigger] r.evidence@[k], kept[k], pattern@, tool_call_id@)
            }
        }),
{
    let ghost fv = views(files@);
    let ghost cv = contents@.map_values(|c: Option<String>| content_view(c));
    let ghost fl = filter_of(filter);
    let mut hits: Vec<(String, u32, String)> = Vec::new();
    let mut i: usize = 0;
    assert(hits@.map_values(|h: (String, u32, String)| (h.0@, h.1 as nat, h.2@)) =~= file_hits(fv, cv, fl, pattern@, 0));
    while i < files.len()
        invariant
            i <= files@.len() == contents@.len(),
            fv == views(files@),
            cv == contents@.map_values(|c: Option<String>| content_view(c)),
            fl == filter_of(filter),
            forall|k: int|
                0 <= k < contents@.len() ==> (#[trigger] contents@[k] matches Some(c) ==> lines(c@).len()
                    <= u32::MAX),
            hits@.map_values(|h: (String, u32, String)| (h.0@, h.1 as nat, h.2@)) == file_hits(
                fv,
                cv,
                fl,
                pattern@,
                i as int,
            ),
        decreases files@.len() - i,
    {
        let passes = match filter {
            None => true,
            Some(f) => f.matches(files[i].as_str()),
        };
        if passes {
            match &contents[i] {
                Some(c) => {
                    push_line_hits(&mut hits, &files[i], c.as_str(), pattern);
                },
                None => {},
            }
        }
        i = i + 1;
    }
    let ghost all = file_hits(fv, cv, fl, pattern@, files@.len() as int);
    let n: usize = if hits.len() <= max_results as usize {
        hits.len()
    } else {
        max_results as usize
    };
    if n == 0 {
        let mut m = String::from_str("no matches for ");
        let q = debug_quoted(pattern);
        m.append(q.as_str());
        return ToolResult::refused(m);
    }
    let mut text = String::new();
    push_decimal(&mut text, n as u64);
    text.append(" match(es) for ");
    let q = debug_quoted(pattern);
    text.append(q.as_str());
    text.append(":\n");
    let ghost head = text@;
    let mut evidence: Vec<Evidence> = Vec::new();
    let mut k: usize = 0;
    while k < n
        invariant
            k <= n <= hits@.len(),
            hits@.map_values(|h: (String, u32, String)| (h.0@, h.1 as nat, h.2@)) == all,
            text@ == head + hit_lines(all.take(k as int)),
            evidence@.len() == k,
            forall|j: int|
                0 <= j < k ==> hit_evidence(#[trigger] evidence@[j], all[j], pattern@, tool_call_id@),
        decreases n - k,
    {
        let (f, ln, line) = &hits[k];
        text.append(f.as_str());
        text.append(":");
        push_decimal(&mut text, *ln as u64);
        text.append(": ");
        text.append(line.as_str());
        text.append("\n");
        assert(all.take(k + 1).drop_last() =~= all.take(k as int));
        assert(all[k as int] == (f@, *ln as nat, line@));
        evidence.push(Evidence {
            kind: EvidenceKind::Search,
            file: Some(f.clone()),
            start_line: Some(*ln),
            end_line: Some(*ln),
            symbol: Some(String::from_str(pattern)),
            excerpt: line.clone(),
            tool_call_id: String::from_str(tool_call_id),
        });
        k = k + 1;
    }
    if hits.len() > max_results as usize {
        text.append("... truncated at ");
        push_decimal(&mut text, max_results as u64);
        text.append(" matches\n");
    }
    ToolResult { ok: true, text, evidence }
}

} // verus!

verus! {

/// A line-number argument as the tools read it: truncated to 32 bits.
pub open spec fn arg_line(a: Option<u64>) -> Option<u32> {
    match a {
        Some(n) => Some((n % 4294967296) as u32),
        None => None,
    }
}

/// The first line a read shows: the requested start, but at least 1.
pub open spec fn read_start(a: Option<u64>) -> u32 {
    match arg_line(a) {
        Some(s) => if s >= 1 {
            s
        } else {
            1
        },
        None => 1,
    }
}

/// The last line a read asks for: the requested end, or the whole file.
pub open spec fn read_end(a: Option<u64>, total: nat) -> int {
    match arg_line(a) {
        Some(e) => e as int,
        None => total as int,
    }
}

/// Whether a read of a file with `total` lines gets as far as capping the
/// range to the read limit.
pub open spec fn read_reaches_cap(total: nat, start: Option<u64>, end: Option<u64>) -> bool {
    total > 0 && read_end(end, total) >= read_start(start) && read_start(start) <= total
}

/// The last line a read shows.
pub open spec fn capped_end(total: nat, start: Option<u64>, end: Option<u64>, max_read_lines: u32) -> int {
    let s = read_start(start) as int;
    let e = read_end(end, total);
    let budget = s + max_read_lines - 1;
    if e <= total && e <= budget {
        e
    } else if total <= budget {
        total as int
    } else {
        budget
    }
}

/// The result text of a successful read.
pub open spec fn read_text(
    file: Seq<char>,
    ls: Seq<Seq<char>>,
    start: Option<u64>,
    end: Option<u64>,
    max_read_lines: u32,
) -> Seq<char> {
    let s = read_start(start) as int;
    let c = capped_end(ls.len(), start, end, max_read_lines);
    file + " lines "@ + decimal(s as nat) + "-"@ + decimal(c as nat) + " of "@ + decimal(ls.len())
        + ":\n"@ + joined(crate::agent::advanced::numbered_region(ls, s, c), "\n"@) + "\n"@ + (if c
        < read_end(end, ls.len()) {
        "... stopped at line "@ + decimal(c as nat) + " (read limit "@ + decimal(max_read_lines as nat)
            + " lines)\n"@
    } else {
        Seq::empty()
    })
}

/// The result of a bounded read of `file`, given what reading it gave: the
/// requested line range, clamped to the file and to `max_read_lines`, with
/// line numbers, as one `FileRegion` evidence item.
#[verifier::spinoff_prover]
#[verifier::rlimit(50)]
pub fn read_result(
    file: &str,
    content: &Result<String, String>,
    start_line: Option<u64>,
    end_line: Option<u64>,
    tool_call_id: &str,
    max_read_lines: u32,
) -> (r: ToolResult)
    requires
        content matches Ok(c) ==> lines(c@).len() <= u32::MAX && (read_reaches_cap(
            lines(c@).len(),
            start_line,
            end_line,
        ) ==> read_start(start_line) + max_read_lines <= u32::MAX + 1),
    ensures
        match content {
            Err(e) => !r.ok && r.text@ == "could not read "@ + file@ + ": "@ + e@ && r.evidence@.len()
                == 0,
            Ok(c) => {
                let ls = lines(c@);
                let s = read_start(start_line);
                let e = read_end(end_line, ls.len());
                if ls.len() == 0 {
                    !r.ok && r.text@ == file@ + " is empty"@ && r.evidence@.len() == 0
                } else if e < s {
                    !r.ok && r.text@ == "read: end_line ("@ + decimal(e as nat) + ") is before start_line ("@
                        + decimal(s as nat) + ")"@ && r.evidence@.len() == 0
                } else if s > ls.len() {
                    !r.ok && r.text@ == "read: start_line "@ + decimal(s as nat) + " is past the end of "@
                        + file@ + " ("@ + decimal(ls.len()) + " lines)"@ && r.evidence@.len() == 0
                } else {
                    let ce = capped_end(ls.len(), start_line, end_line, max_read_lines);
                    &&& r.ok
                    &&& r.text@ == read_text(file@, ls, start_line, end_line, max_read_lines)
                    &&& r.evidence@.len() == 1
                    &&& r.evidence@[0].kind == EvidenceKind::FileRegion
                    &&& r.evidence@[0].file matches Some(f) && f@ == normalized(file@)
                    &&& r.evidence@[0].start_line == Some(s)
                    &&& r.evidence@[0].end_line == Some(ce as u32)
                    &&& r.evidence@[0].symbol is None
                    &&& r.evidence@[0].excerpt@ == joined(
                        crate::agent::advanced::numbered_region(ls, s as int, ce),
                        "\n"@,
                    )
                    &&& r.evidence@[0].tool_call_id@ == tool_call_id@
                }
            },
        },
{
    let c = match content {
        Err(e) => {
            let mut m = String::from_str("could not read ");
            m.append(file);
            m.append(": ");
            m.append(e.as_str());
            return ToolResult::refused(m);
        },
        Ok(c) => c,
    };
    let v = chars_of(c.as_str());
    assert(v@.subrange(0, v@.len() as int) =~= c@);
    let ls = line_ranges(&v, 0, v.len());
    let ghost lsv = lines(c@);
    assert(lsv =~= Seq::new(ls@.len(), |j: int| v@.subrange(ls@[j].0 as int, ls@[j].1 as int)));
    let total = ls.len() as u32;
    if total == 0 {
        let mut m = String::from_str(file);
        m.append(" is empty");
        return ToolResult::refused(m);
    }
    let start: u32 = match start_line {
        Some(n) => {
            let s = (n % 4294967296) as u32;
            if s >= 1 {
                s
            } else {
                1
            }
        },
        None => 1,
    };
    let requested_end: u32 = match end_line {
        Some(n) => (n % 4294967296) as u32,
        None => total,
    };
    if requested_end < start {
        let mut m = String::from_str("read: end_line (");
        push_decimal(&mut m, requested_end as u64);
        m.append(") is before start_line (");
        push_decimal(&mut m, start as u64);
        m.append(")");
        return ToolResult::refused(m);
    }
    if start > total {
        let mut m = String::from_str("read: start_line ");
        push_decimal(&mut m, start as u64);
        m.append(" is past the end of ");
        m.append(file);
        m.append(" (");
        push_decimal(&mut m, total as u64);
        m.append(" lines)");
        return ToolResult::refused(m);
    }
    let budget = start as u64 + max_read_lines as u64 - 1;
    let cap: u64 = if (requested_end as u64) <= (total as u64) && (requested_end as u64) <= budget {
        requested_end as u64
    } else if (total as u64) <= budget {
        total as u64
    } else {
        budget
    };
    let count: u64 = cap + 1 - start as u64;
    let mut body = String::new();
    crate::agent::advanced::push_numbered_lines(&mut body, &v, &ls, start as u64, count);
    assert(crate::agent::advanced::numbered_region(lsv, start as int, start + count - 1)
        =~= crate::agent::advanced::numbered_region(lsv, start as int, cap as int));
    let mut text = String::from_str(file);
    text.append(" lines ");
    push_decimal(&mut text, start as u64);
    text.append("-");
    push_decimal(&mut text, cap);
    text.append(" of ");
    push_decimal(&mut text, total as u64);
    text.append(":\n");
    text.append(body.as_str());
    text.append("\n");
    if cap < requested_end as u64 {
        text.append("... stopped at line ");
        push_decimal(&mut text, cap);
        text.append(" (read limit ");
        push_decimal(&mut text, max_read_lines as u64);
        text.append(" lines)\n");
    }
    let mut evidence: Vec<Evidence> = Vec::new();
    evidence.push(Evidence {
        kind: EvidenceKind::FileRegion,
        file: Some(normalize_path(file)),
        start_line: Some(start),
        end_line: Some(cap as u32),
        symbol: None,
        excerpt: body,
        tool_call_id: String::from_str(tool_call_id),
    });
    ToolResult { ok: true, text, evidence }
}

} // verus!
