//! A routing catalogue built once and looked up by name.

use vstd::prelude::*;
use crate::text::{
    lemma_seq_lt_irreflexive, lemma_seq_lt_total, lemma_seq_lt_transitive, same_text, seq_lt,
    str_lt,
};

verus! {

#[derive(Debug, PartialEq, Eq)]
pub struct Entry {
    pub name: String,
    pub target: u32,
}

impl Clone for Entry {
    fn clone(&self) -> (e: Entry)
        ensures
            e == *self,
    {
        Entry { name: self.name.clone(), target: self.target }
    }
}

/// The routes the first `n` entries register: later entries with a name
/// already seen replace the earlier one.
pub open spec fn routes_upto(entries: Seq<Entry>, n: int) -> Map<Seq<char>, u32>
    decreases n,
{
    if n <= 0 {
        Map::empty()
    } else {
        routes_upto(entries, n - 1).insert(entries[n - 1].name@, entries[n - 1].target)
    }
}

/// Entries in strictly ascending name order.
pub open spec fn sorted_by_name(items: Seq<Entry>) -> bool {
    forall|i: int, j: int| 0 <= i < j < items.len() ==> seq_lt(#[trigger] items[i].name@, #[trigger] items[j].name@)
}

/// The entries hold exactly the routes of `m`, one entry per name.
pub open spec fn holds_routes(items: Seq<Entry>, m: Map<Seq<char>, u32>) -> bool {
    &&& forall|i: int|
        0 <= i < items.len() ==> m.contains_key(#[trigger] items[i].name@) && m[items[i].name@]
            == items[i].target
    &&& forall|k: Seq<char>| #[trigger] m.contains_key(k) ==> exists|i: int| 0 <= i < items.len() && #[trigger] items[i].name@ == k
}

/// A finished catalogue.
///
/// `items` is private and [`Catalog::build`] is the only constructor; nothing
/// adds, removes or reorders an entry after construction. `items` is in
/// ascending name order with one entry per name.
#[derive(Debug)]
pub struct Catalog {
    items: Vec<Entry>,
}

impl Catalog {
    /// The entries, in the order the catalogue holds them.
    pub closed spec fn items_spec(&self) -> Seq<Entry> {
        self.items@
    }

    #[verifier::type_invariant]
    spec fn ordered(&self) -> bool {
        sorted_by_name(self.items@)
    }

    /// Build a catalogue from entries in any order.
    ///
    /// Later entries with a name already seen replace the earlier one, which
    /// is how an operator overrides a shipped default.
    pub fn build(entries: Vec<Entry>) -> (c: Catalog)
        ensures
            sorted_by_name(c.items_spec()),
            holds_routes(c.items_spec(), routes_upto(entries@, entries@.len() as int)),
    {
        let mut items: Vec<Entry> = Vec::new();
        let mut rest = entries;
        let ghost all = rest@;
        // Walk the entries front to back, keeping `items` sorted.
        let mut k: usize = 0;
        while k < rest.len()
            invariant
                k <= rest.len(),
                rest@ == all,
                sorted_by_name(items@),
                holds_routes(items@, routes_upto(all, k as int)),
            decreases rest.len() - k,
        {
            let e = rest[k].clone();
            let ghost en = all[k as int];
            assert(e == en);
            let ghost m = routes_upto(all, k as int);
            let mut i: usize = 0;
            while i < items.len() && str_lt(items[i].name.as_str(), e.name.as_str())
                invariant
                    i <= items.len(),
                    forall|j: int| 0 <= j < i ==> seq_lt(#[trigger] items@[j].name@, e.name@),
                decreases items.len() - i,
            {
                i = i + 1;
            }
            let ghost before = items@;
            if i < items.len() && same_text(items[i].name.as_str(), e.name.as_str()) {
                items.set(i, e);
                proof {
                    let m2 = m.insert(en.name@, en.target);
                    assert forall|a: int, b: int| 0 <= a < b < items@.len() implies seq_lt(
                        #[trigger] items@[a].name@,
                        #[trigger] items@[b].name@,
                    ) by {
                        assert(before[a].name@ == items@[a].name@);
                        assert(before[b].name@ == items@[b].name@);
                    }
                    assert forall|a: int| 0 <= a < items@.len() implies m2.contains_key(
                        #[trigger] items@[a].name@,
                    ) && m2[items@[a].name@] == items@[a].target by {
                        if a != i {
                            if a < i {
                                assert(seq_lt(before[a].name@, before[i as int].name@));
                            } else {
                                assert(seq_lt(before[i as int].name@, before[a].name@));
                            }
                            lemma_seq_lt_irreflexive(en.name@);
                        }
                    }
                    assert forall|key: Seq<char>| #[trigger] m2.contains_key(key) implies exists|a: int|
                        0 <= a < items@.len() && #[trigger] items@[a].name@ == key by {
                        if key == en.name@ {
                            assert(items@[i as int].name@ == key);
                        } else {
                            let a = choose|a: int| 0 <= a < before.len() && #[trigger] before[a].name@ == key;
                            assert(items@[a].name@ == key);
                        }
                    }
                }
            } else {
                proof {
                    if i < items.len() {
                        lemma_seq_lt_total(before[i as int].name@, e.name@);
                    }
                }
                items.insert(i, e);
                proof {
                    let m2 = m.insert(en.name@, en.target);
                    assert forall|a: int| 0 <= a < before.len() implies seq_lt(
                        en.name@,
                        #[trigger] before[a].name@,
                    ) || a < i by {
                        if a > i {
                            lemma_seq_lt_transitive(en.name@, before[i as int].name@, before[a].name@);
                        }
                    }
                    assert forall|a: int, b: int| 0 <= a < b < items@.len() implies seq_lt(
                        #[trigger] items@[a].name@,
                        #[trigger] items@[b].name@,
                    ) by {
                        if b < i {
                            assert(items@[a] == before[a] && items@[b] == before[b]);
                        } else if b == i {
                            assert(items@[a] == before[a]);
                        } else if a == i {
                            assert(items@[b] == before[b - 1]);
                        } else if a < i {
                            assert(items@[a] == before[a] && items@[b] == before[b - 1]);
                            lemma_seq_lt_transitive(before[a].name@, en.name@, before[b - 1].name@);
                        } else {
                            assert(items@[a] == before[a - 1] && items@[b] == before[b - 1]);
                        }
                    }
                    assert forall|a: int| 0 <= a < before.len() implies #[trigger] before[a].name@ != en.name@ by {
                        lemma_seq_lt_irreflexive(en.name@);
                        if a >= i {
                            lemma_seq_lt_total(en.name@, before[a].name@);
                        }
                    }
                    assert forall|a: int| 0 <= a < items@.len() implies m2.contains_key(
                        #[trigger] items@[a].name@,
                    ) && m2[items@[a].name@] == items@[a].target by {
                        if a < i {
                            assert(items@[a] == before[a]);
                        } else if a > i {
                            assert(items@[a] == before[a - 1]);
                        }
                    }
                    assert forall|key: Seq<char>| #[trigger] m2.contains_key(key) implies exists|a: int|
                        0 <= a < items@.len() && #[trigger] items@[a].name@ == key by {
                        if key == en.name@ {
                            assert(items@[i as int].name@ == key);
                        } else {
                            let a = choose|a: int| 0 <= a < before.len() && #[trigger] before[a].name@ == key;
                            if a < i {
                                assert(items@[a].name@ == key);
                            } else {
                                assert(items@[a + 1].name@ == key);
                            }
                        }
                    }
                }
            }
            k = k + 1;
        }
        Catalog { items }
    }

    /// The catalogue's entries, in the order it holds them.
    pub fn entries(&self) -> (s: &[Entry])
        ensures
            s@ == self.items_spec(),
    {
        self.items.as_slice()
    }

    pub fn len(&self) -> (n: usize)
        ensures
            n == self.items_spec().len(),
    {
        self.items.len()
    }

    pub fn is_empty(&self) -> (b: bool)
        ensures
            b == (self.items_spec().len() == 0),
    {
        self.items.len() == 0
    }
}

/// The entry registered under `name`.
pub fn find<'a>(catalog: &'a Catalog, name: &str) -> (r: Option<&'a Entry>)
    ensures
        match r {
            Some(e) => exists|i: int|
                0 <= i < catalog.items_spec().len() && catalog.items_spec()[i] == *e && e.name@
                    == name@,
            None => forall|i: int|
                0 <= i < catalog.items_spec().len() ==> (#[trigger] catalog.items_spec()[i]).name@
                    != name@,
        },
{
    proof {
        use_type_invariant(catalog);
    }
    let items = catalog.entries();
    let mut lo: usize = 0;
    let mut hi: usize = items.len();
    while lo < hi
        invariant
            lo <= hi <= items@.len(),
            items@ == catalog.items_spec(),
            sorted_by_name(items@),
            forall|j: int| 0 <= j < lo ==> seq_lt(#[trigger] items@[j].name@, name@),
            forall|j: int| hi <= j < items@.len() ==> seq_lt(name@, #[trigger] items@[j].name@),
        decreases hi - lo,
    {
        let mid = lo + (hi - lo) / 2;
        let here = items[mid].name.as_str();
        if same_text(here, name) {
            return Some(&items[mid]);
        }
        if str_lt(here, name) {
            proof {
                assert forall|j: int| 0 <= j <= mid implies seq_lt(#[trigger] items@[j].name@, name@) by {
                    if j < mid {
                        lemma_seq_lt_transitive(items@[j].name@, items@[mid as int].name@, name@);
                    }
                }
            }
            lo = mid + 1;
        } else {
            proof {
                lemma_seq_lt_total(items@[mid as int].name@, name@);
                assert forall|j: int| mid <= j < items@.len() implies seq_lt(name@, #[trigger] items@[j].name@) by {
                    if j > mid {
                        lemma_seq_lt_transitive(name@, items@[mid as int].name@, items@[j].name@);
                    }
                }
            }
            hi = mid;
        }
    }
    proof {
        assert forall|i: int| 0 <= i < items@.len() implies (#[trigger] items@[i]).name@ != name@ by {
            lemma_seq_lt_irreflexive(name@);
        }
    }
    None
}

/// The target `name` routes to.
pub fn target(catalog: &Catalog, name: &str) -> (r: Option<u32>)
    ensures
        match r {
            Some(t) => exists|i: int|
                0 <= i < catalog.items_spec().len() && (#[trigger] catalog.items_spec()[i]).name@
                    == name@ && catalog.items_spec()[i].target == t,
            None => forall|i: int|
                0 <= i < catalog.items_spec().len() ==> (#[trigger] catalog.items_spec()[i]).name@
                    != name@,
        },
{
    match find(catalog, name) {
        Some(e) => Some(e.target),
        None => None,
    }
}

} // verus!
