//! Stable insertion order over index sequences.
//!
//! Sorting here is always of indices into some other sequence, compared by a
//! key that lives in that sequence. The specification is the stable sort: an
//! element is placed after every element already placed that does not compare
//! greater than it, so equal keys keep their input order, as `sort_by` does.

use vstd::prelude::*;

verus! {

/// Where a stable insertion places `x` in `sorted`: before the first element
/// that is strictly greater.
pub open spec fn insert_pos(sorted: Seq<int>, x: int, gt: spec_fn(int, int) -> bool) -> int
    decreases sorted.len(),
{
    if sorted.len() == 0 {
        0
    } else if gt(sorted[0], x) {
        0
    } else {
        1 + insert_pos(sorted.drop_first(), x, gt)
    }
}

/// The stable sort of `xs` under the strict order `gt`.
pub open spec fn stable_sort(xs: Seq<int>, gt: spec_fn(int, int) -> bool) -> Seq<int>
    decreases xs.len(),
{
    if xs.len() == 0 {
        Seq::empty()
    } else {
        let s = stable_sort(xs.drop_last(), gt);
        s.insert(insert_pos(s, xs.last(), gt), xs.last())
    }
}

pub proof fn lemma_insert_pos(sorted: Seq<int>, x: int, gt: spec_fn(int, int) -> bool, p: int)
    requires
        0 <= p <= sorted.len(),
        forall|j: int| 0 <= j < p ==> !gt(#[trigger] sorted[j], x),
        p == sorted.len() || gt(sorted[p], x),
    ensures
        insert_pos(sorted, x, gt) == p,
    decreases p,
{
    if p > 0 {
        let t = sorted.drop_first();
        assert(!gt(sorted[0], x));
        assert forall|j: int| 0 <= j < p - 1 implies !gt(#[trigger] t[j], x) by {
            assert(t[j] == sorted[j + 1]);
        }
        if p - 1 < t.len() {
            assert(t[p - 1] == sorted[p]);
        }
        lemma_insert_pos(t, x, gt, p - 1);
    }
}

pub proof fn lemma_insert_pos_bound(sorted: Seq<int>, x: int, gt: spec_fn(int, int) -> bool)
    ensures
        0 <= insert_pos(sorted, x, gt) <= sorted.len(),
    decreases sorted.len(),
{
    if sorted.len() > 0 {
        lemma_insert_pos_bound(sorted.drop_first(), x, gt);
    }
}

/// The stable sort keeps the length and holds only elements of its input.
pub proof fn lemma_stable_sort_members(xs: Seq<int>, gt: spec_fn(int, int) -> bool)
    ensures
        stable_sort(xs, gt).len() == xs.len(),
        forall|k: int|
            0 <= k < xs.len() ==> xs.contains(#[trigger] stable_sort(xs, gt)[k]),
    decreases xs.len(),
{
    if xs.len() > 0 {
        let init = xs.drop_last();
        lemma_stable_sort_members(init, gt);
        let s = stable_sort(init, gt);
        let p = insert_pos(s, xs.last(), gt);
        lemma_insert_pos_bound(s, xs.last(), gt);
        let r = s.insert(p, xs.last());
        assert forall|k: int| 0 <= k < xs.len() implies xs.contains(#[trigger] r[k]) by {
            if k < p {
                assert(r[k] == s[k]);
                assert(init.contains(s[k]));
                let j = choose|j: int| 0 <= j < init.len() && init[j] == s[k];
                assert(xs[j] == init[j]);
            } else if k == p {
                assert(xs[xs.len() - 1] == r[k]);
            } else {
                assert(r[k] == s[k - 1]);
                assert(init.contains(s[k - 1]));
                let j = choose|j: int| 0 <= j < init.len() && init[j] == s[k - 1];
                assert(xs[j] == init[j]);
            }
        }
    }
}

/// `gt` is a strict total order on the elements of `xs`.
pub open spec fn strict_total_on(xs: Seq<int>, gt: spec_fn(int, int) -> bool) -> bool {
    &&& forall|a: int| xs.contains(a) ==> !gt(a, a)
    &&& forall|a: int, b: int, c: int|
        #![trigger gt(a, b), gt(b, c)]
        xs.contains(a) && xs.contains(b) && xs.contains(c) && gt(a, b) && gt(b, c) ==> gt(a, c)
    &&& forall|a: int, b: int|
        #![trigger xs.contains(a), xs.contains(b)]
        xs.contains(a) && xs.contains(b) && a != b ==> gt(a, b) || gt(b, a)
}

/// Where `insert_pos` puts `x`: after every element not greater than it,
/// before the first one that is.
pub proof fn lemma_insert_pos_props(sorted: Seq<int>, x: int, gt: spec_fn(int, int) -> bool)
    ensures
        0 <= insert_pos(sorted, x, gt) <= sorted.len(),
        forall|k: int| 0 <= k < insert_pos(sorted, x, gt) ==> !gt(#[trigger] sorted[k], x),
        insert_pos(sorted, x, gt) < sorted.len() ==> gt(sorted[insert_pos(sorted, x, gt)], x),
    decreases sorted.len(),
{
    if sorted.len() > 0 && !gt(sorted[0], x) {
        let t = sorted.drop_first();
        lemma_insert_pos_props(t, x, gt);
        assert forall|k: int| 0 <= k < insert_pos(sorted, x, gt) implies !gt(#[trigger] sorted[k], x) by {
            if k > 0 {
                assert(sorted[k] == t[k - 1]);
            }
        }
    }
}

/// Under a strict total order on distinct elements, the stable sort puts its
/// input in strictly increasing order and keeps every element.
pub proof fn lemma_stable_sort_sorted(xs: Seq<int>, gt: spec_fn(int, int) -> bool)
    requires
        strict_total_on(xs, gt),
        xs.no_duplicates(),
    ensures
        stable_sort(xs, gt).len() == xs.len(),
        forall|a: int| xs.contains(a) <==> stable_sort(xs, gt).contains(a),
        forall|i: int, j: int|
            0 <= i < j < xs.len() ==> gt(#[trigger] stable_sort(xs, gt)[j], #[trigger] stable_sort(xs, gt)[i]),
    decreases xs.len(),
{
    lemma_stable_sort_members(xs, gt);
    if xs.len() > 0 {
        let init = xs.drop_last();
        let x = xs.last();
        assert forall|a: int| init.contains(a) implies xs.contains(a) by {
            let k = choose|k: int| 0 <= k < init.len() && init[k] == a;
            assert(xs[k] == a);
        }
        assert(strict_total_on(init, gt));
        assert(init.no_duplicates());
        lemma_stable_sort_sorted(init, gt);
        let s = stable_sort(init, gt);
        lemma_insert_pos_props(s, x, gt);
        let p = insert_pos(s, x, gt);
        let r = s.insert(p, x);
        assert(r == stable_sort(xs, gt));
        assert(!init.contains(x)) by {
            if init.contains(x) {
                let k = choose|k: int| 0 <= k < init.len() && init[k] == x;
                assert(xs[k] == xs[xs.len() - 1]);
            }
        }
        assert(xs.contains(x)) by {
            assert(xs[xs.len() - 1] == x);
        }
        assert forall|a: int| xs.contains(a) <==> r.contains(a) by {
            if xs.contains(a) {
                let k = choose|k: int| 0 <= k < xs.len() && xs[k] == a;
                if k == xs.len() - 1 {
                    assert(r[p] == a);
                } else {
                    assert(init[k] == a);
                    assert(init.contains(a));
                    assert(s.contains(a));
                    let m = choose|m: int| 0 <= m < s.len() && s[m] == a;
                    if m < p {
                        assert(r[m] == a);
                    } else {
                        assert(r[m + 1] == a);
                    }
                }
            }
            if r.contains(a) {
                let m = choose|m: int| 0 <= m < r.len() && r[m] == a;
                assert(xs.contains(r[m]));
            }
        }
        // every element of `s` is in `init`, hence in `xs` and distinct from `x`
        assert forall|k: int| 0 <= k < s.len() implies xs.contains(#[trigger] s[k]) && s[k] != x by {
            assert(s.contains(s[k]));
            assert(init.contains(s[k]));
        }
        assert forall|k: int| 0 <= k < p implies gt(x, #[trigger] s[k]) by {
            assert(!gt(s[k], x));
            assert(xs.contains(s[k]) && s[k] != x);
        }
        assert forall|k: int| p <= k < s.len() implies gt(#[trigger] s[k], x) by {
            if k > p {
                assert(gt(s[k], s[p]));
                assert(gt(s[p], x));
                assert(xs.contains(s[k]) && xs.contains(s[p]));
            }
        }
        assert forall|i: int, j: int| 0 <= i < j < xs.len() implies gt(#[trigger] r[j], #[trigger] r[i]) by {
            if j < p {
                assert(r[i] == s[i] && r[j] == s[j]);
            } else if j == p {
                assert(r[j] == x && r[i] == s[i]);
            } else if i < p {
                assert(r[i] == s[i] && r[j] == s[j - 1]);
                assert(gt(x, s[i]));
                assert(gt(s[j - 1], x));
                assert(xs.contains(s[i]) && xs.contains(s[j - 1]));
            } else if i == p {
                assert(r[i] == x && r[j] == s[j - 1]);
            } else {
                assert(r[i] == s[i - 1] && r[j] == s[j - 1]);
            }
        }
    }
}

} // verus!
