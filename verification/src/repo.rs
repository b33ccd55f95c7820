//! The repository a case applies to, and the rules for paths inside it.

use vstd::prelude::*;
use crate::text::{chars_of, range_eq, same_text, seq_lt, split_ranges, str_lt, string_of};
use crate::order::{lemma_insert_pos, stable_sort};
use crate::eval::as_ints;

verus! {

/// The root of a benchmark repository. Every read an agent asks for is
/// resolved against it.
#[derive(Debug)]
pub struct RepoRoot {
    root: String,
}

impl RepoRoot {
    /// A root at an already canonical directory path.
    pub fn at(root: String) -> (r: RepoRoot)
        ensures
            r.root_path() == root@,
    {
        RepoRoot { root }
    }

    /// The root directory, as a path string.
    pub closed spec fn root_path(&self) -> Seq<char> {
        self.root@
    }

    pub fn path(&self) -> (p: &str)
        ensures
            p@ == self.root_path(),
    {
        self.root.as_str()
    }
}

} // verus!

verus! {

/// `s` without any number of leading `./` (`trim_start_matches("./")`).
pub open spec fn strip_dot_slashes(s: Seq<char>) -> Seq<char>
    decreases s.len(),
{
    if s.len() >= 2 && s[0] == '.' && s[1] == '/' {
        strip_dot_slashes(s.skip(2))
    } else {
        s
    }
}

/// The last path piece that names something: not empty and not `.`.
pub open spec fn last_named(pieces: Seq<Seq<char>>, n: int) -> Option<Seq<char>>
    decreases n,
{
    if n <= 0 {
        None
    } else if pieces[n - 1].len() > 0 && pieces[n - 1] != seq!['.'] {
        Some(pieces[n - 1])
    } else {
        last_named(pieces, n - 1)
    }
}

/// Files an agent must never read, wherever they sit.
pub open spec fn denied_name() -> Seq<char> {
    "ground_truth.json"@
}

/// `p` starts with a Windows drive prefix: an ASCII letter and a colon.
pub open spec fn has_drive_prefix(p: Seq<char>) -> bool {
    p.len() >= 2 && (('a' <= p[0] && p[0] <= 'z') || ('A' <= p[0] && p[0] <= 'Z')) && p[1] == ':'
}

/// What the sandbox makes of a repository-relative path before touching the
/// filesystem: the cleaned path, or why it is refused. Backslashes become
/// slashes and leading `./` go; an empty path, an absolute path (a leading
/// slash or a drive prefix such as `C:`), any `..` piece, and the
/// ground-truth file are refused.
pub open spec fn relative_check(relative: Seq<char>) -> Result<Seq<char>, Seq<char>> {
    let r = strip_dot_slashes(crate::finding::slashes_forward(relative));
    let pieces = crate::text::split_char(r, '/');
    if r.len() == 0 {
        Err("empty path"@)
    } else if r[0] == '/' || has_drive_prefix(r) {
        Err("absolute paths are not allowed: "@ + r)
    } else if pieces.contains(seq!['.', '.']) {
        Err("path escapes the repository root: "@ + r)
    } else if last_named(pieces, pieces.len() as int) == Some(denied_name()) {
        Err("access to "@ + denied_name() + " is not permitted"@)
    } else {
        Ok(r)
    }
}

/// The lexical half of resolving a repository-relative path: the path to
/// join onto the root, or the reason it is refused. Symlinks that leave the
/// root are the filesystem's half and are checked by whoever reads.
pub fn check_relative(relative: &str) -> (r: Result<String, String>)
    ensures
        match relative_check(relative@) {
            Ok(p) => r is Ok && r->Ok_0@ == p,
            Err(m) => r is Err && r->Err_0@ == m,
        },
{
    let v = chars_of(relative);
    let mut w: Vec<char> = Vec::new();
    let mut i: usize = 0;
    while i < v.len()
        invariant
            i <= v.len(),
            v@ == relative@,
            w@ == crate::finding::slashes_forward(v@.take(i as int)),
        decreases v.len() - i,
    {
        if v[i] == '\\' {
            w.push('/');
        } else {
            w.push(v[i]);
        }
        i = i + 1;
        assert(crate::finding::slashes_forward(v@.take(i as int)) =~= crate::finding::slashes_forward(
            v@.take(i - 1),
        ).push(
            if v@[i - 1] == '\\' {
                '/'
            } else {
                v@[i - 1]
            },
        ));
    }
    assert(v@.take(i as int) =~= v@);
    let ghost f = w@;
    let mut a: usize = 0;
    assert(f.skip(0) =~= f);
    while w.len() - a >= 2 && w[a] == '.' && w[a + 1] == '/'
        invariant
            a <= w.len(),
            strip_dot_slashes(f) == strip_dot_slashes(f.skip(a as int)),
            f == w@,
        decreases w.len() - a,
    {
        assert(f.skip(a as int).skip(2) =~= f.skip(a + 2));
        a = a + 2;
    }
    assert(strip_dot_slashes(f.skip(a as int)) == f.skip(a as int));
    let ghost r = f.skip(a as int);
    assert(r =~= w@.subrange(a as int, w.len() as int));
    let cleaned = string_of(&w, a, w.len());
    if a == w.len() {
        return Err(String::from_str("empty path"));
    }
    let drive = w.len() - a >= 2 && (('a' <= w[a] && w[a] <= 'z') || ('A' <= w[a] && w[a] <= 'Z'))
        && w[a + 1] == ':';
    if w[a] == '/' || drive {
        let mut m = String::from_str("absolute paths are not allowed: ");
        m.append(cleaned.as_str());
        return Err(m);
    }
    let pieces = split_ranges(&w, a, w.len(), '/');
    let ghost ps = crate::text::split_char(r, '/');
    let mut k: usize = 0;
    while k < pieces.len()
        invariant
            k <= pieces.len() == ps.len(),
            ps == crate::text::split_char(r, '/'),
            a <= w.len(),
            cleaned@ == r,
            r == strip_dot_slashes(crate::finding::slashes_forward(relative@)),
            r.len() > 0 && r[0] != '/' && !has_drive_prefix(r),
            r == w@.subrange(a as int, w.len() as int),
            forall|j: int|
                0 <= j < pieces.len() ==> a <= (#[trigger] pieces[j]).0 <= pieces[j].1 <= w.len()
                    && w@.subrange(pieces[j].0 as int, pieces[j].1 as int) == ps[j],
            forall|j: int| 0 <= j < k ==> ps[j] != seq!['.', '.'],
        decreases pieces.len() - k,
    {
        let (p0, p1) = pieces[k];
        if p1 - p0 == 2 && w[p0] == '.' && w[p0 + 1] == '.' {
            assert(ps[k as int] =~= seq!['.', '.']);
            assert(ps.contains(seq!['.', '.']));
            let mut m = String::from_str("path escapes the repository root: ");
            m.append(cleaned.as_str());
            return Err(m);
        }
        proof {
            if ps[k as int] == seq!['.', '.'] {
                assert(ps[k as int][0] == w@[p0 as int]);
                assert(ps[k as int][1] == w@[p0 + 1]);
            }
        }
        k = k + 1;
    }
    assert(!ps.contains(seq!['.', '.']));
    let mut n: usize = pieces.len();
    let mut named: Option<(usize, usize)> = None;
    while n > 0 && named.is_none()
        invariant
            n <= pieces.len() == ps.len(),
            forall|j: int|
                0 <= j < pieces.len() ==> a <= (#[trigger] pieces[j]).0 <= pieces[j].1 <= w.len()
                    && w@.subrange(pieces[j].0 as int, pieces[j].1 as int) == ps[j],
            named is None ==> last_named(ps, ps.len() as int) == last_named(ps, n as int),
            named matches Some(q) ==> q.0 <= q.1 <= w.len() && last_named(ps, ps.len() as int) == Some(
                w@.subrange(q.0 as int, q.1 as int),
            ),
        decreases n,
    {
        let (p0, p1) = pieces[n - 1];
        let is_dot = p1 - p0 == 1 && w[p0] == '.';
        proof {
            if ps[n - 1] == seq!['.'] {
                assert(ps[n - 1][0] == w@[p0 as int]);
            }
            if is_dot {
                assert(ps[n - 1] =~= seq!['.']);
            }
        }
        if p1 > p0 && !is_dot {
            named = Some((p0, p1));
        }
        n = n - 1;
    }
    let denied = vec!['g', 'r', 'o', 'u', 'n', 'd', '_', 't', 'r', 'u', 't', 'h', '.', 'j', 's', 'o', 'n'];
    proof {
        reveal_strlit("ground_truth.json");
        assert(denied@ =~= denied_name());
    }
    match named {
        Some((p0, p1)) => {
            if range_eq(&w, p0, p1, &denied) {
                let mut m = String::from_str("access to ");
                m.append("ground_truth.json");
                m.append(" is not permitted");
                return Err(m);
            }
        },
        None => {},
    }
    Ok(cleaned)
}

} // verus!

verus! {

/// The sandbox's promise about every path it lets through: nothing absolute
/// (no leading slash, no drive prefix),
/// no `..` piece anywhere, not empty, and never a file named
/// `ground_truth.json`, however the request spelled it.
pub proof fn law_admitted_paths_stay_inside(relative: Seq<char>)
    ensures
        relative_check(relative) matches Ok(p) ==> {
            &&& p.len() > 0
            &&& p[0] != '/'
            &&& !has_drive_prefix(p)
            &&& !crate::text::split_char(p, '/').contains(seq!['.', '.'])
            &&& last_named(crate::text::split_char(p, '/'), crate::text::split_char(p, '/').len() as int)
                != Some(denied_name())
        },
{
}

/// Parent traversal is refused wherever it appears.
pub proof fn law_parent_traversal_is_refused(relative: Seq<char>)
    requires
        crate::text::split_char(
            strip_dot_slashes(crate::finding::slashes_forward(relative)),
            '/',
        ).contains(seq!['.', '.']),
    ensures
        relative_check(relative) is Err,
{
}

/// A directory entry a repository listing never descends into or lists.
pub fn skipped_entry(name: &str) -> (b: bool)
    ensures
        b == (name@ == ".git"@ || name@ == "target"@),
{
    same_text(name, ".git") || same_text(name, "target")
}

/// Path `a` sorts after path `b`.
pub open spec fn path_gt_at(fs: Seq<String>) -> spec_fn(int, int) -> bool {
    |a: int, b: int| seq_lt(fs[b]@, fs[a]@)
}

/// The order a listing is reported in: the paths sorted, equal ones kept in
/// the order they were found.
pub open spec fn listing_order(fs: Seq<String>) -> Seq<int> {
    stable_sort(Seq::new(fs.len(), |i: int| i), path_gt_at(fs))
}

/// The paths a listing found, in sorted order.
pub fn sorted_paths(files: Vec<String>) -> (r: Vec<String>)
    ensures
        r@.len() == files@.len(),
        forall|j: int| 0 <= j < r@.len() ==> (#[trigger] r@[j])@ == files@[listing_order(files@)[j]]@,
{
    let ghost gt = path_gt_at(files@);
    let ghost xs = Seq::new(files@.len(), |i: int| i);
    let mut ord: Vec<usize> = Vec::new();
    let mut k: usize = 0;
    while k < files.len()
        invariant
            k <= files.len(),
            gt == path_gt_at(files@),
            xs == Seq::new(files@.len(), |i: int| i),
            as_ints(ord@) == stable_sort(xs.take(k as int), gt),
            forall|j: int| 0 <= j < ord.len() ==> (#[trigger] ord@[j]) < files.len(),
            ord.len() == k,
        decreases files.len() - k,
    {
        let mut p: usize = 0;
        while p < ord.len() && !str_lt(files[k].as_str(), files[ord[p]].as_str())
            invariant
                p <= ord.len(),
                k < files.len(),
                forall|j: int| 0 <= j < ord.len() ==> (#[trigger] ord@[j]) < files.len(),
                forall|j: int| 0 <= j < p ==> !gt(#[trigger] as_ints(ord@)[j], k as int),
                gt == path_gt_at(files@),
            decreases ord.len() - p,
        {
            p = p + 1;
        }
        proof {
            let s = as_ints(ord@);
            lemma_insert_pos(s, k as int, gt, p as int);
            assert(xs.take(k + 1).drop_last() =~= xs.take(k as int));
            assert(xs.take(k + 1).last() == k as int);
        }
        let ghost before = as_ints(ord@);
        ord.insert(p, k);
        assert(as_ints(ord@) =~= before.insert(p as int, k as int));
        k = k + 1;
    }
    assert(xs.take(files.len() as int) =~= xs);
    let mut out: Vec<String> = Vec::new();
    let mut j: usize = 0;
    while j < ord.len()
        invariant
            j <= ord.len() == files.len(),
            as_ints(ord@) == listing_order(files@),
            forall|q: int| 0 <= q < ord.len() ==> (#[trigger] ord@[q]) < files.len(),
            out@.len() == j,
            forall|q: int| 0 <= q < j ==> (#[trigger] out@[q])@ == files@[listing_order(files@)[q]]@,
        decreases ord.len() - j,
    {
        let f = files[ord[j]].clone();
        assert(as_ints(ord@)[j as int] == ord@[j as int] as int);
        out.push(f);
        j = j + 1;
    }
    out
}

} // verus!
