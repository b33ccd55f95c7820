//! A tag, and a set of tags.

use vstd::prelude::*;
use crate::text::{owned, same_text};

verus! {

/// A label attached to a resource.
#[derive(Debug, Clone, PartialEq, Eq, Hash)]
pub struct Tag(String);

impl Tag {
    /// The tag's text.
    pub closed spec fn text(&self) -> Seq<char> {
        self.0@
    }

    pub fn new(s: &str) -> (t: Tag)
        ensures
            t.text() == s@,
    {
        Tag(owned(s))
    }

    /// The tag exactly as the user wrote it.
    pub fn as_str(&self) -> (s: &str)
        ensures
            s@ == self.text(),
    {
        self.0.as_str()
    }
}

/// A set of tags. Adding a tag that is already present is a no-op.
///
/// Two tags are the same tag when their text is the same.
#[derive(Debug)]
pub struct TagSet {
    inner: Vec<Tag>,
}

impl TagSet {
    /// The texts held, in insertion order.
    pub closed spec fn texts(&self) -> Seq<Seq<char>> {
        self.inner@.map_values(|t: Tag| t.text())
    }

    /// The tags, as a set of texts.
    pub closed spec fn tags(&self) -> Set<Seq<char>> {
        self.texts().to_set()
    }

    /// A tag set is finite: it holds what a finite list holds.
    pub proof fn lemma_tags_finite(&self)
        ensures
            self.tags().finite(),
    {
        vstd::seq_lib::seq_to_set_is_finite(self.texts());
    }

    #[verifier::type_invariant]
    spec fn distinct(&self) -> bool {
        self.texts().no_duplicates()
    }

    pub fn new() -> (s: TagSet)
        ensures
            s.tags() == Set::<Seq<char>>::empty(),
            s.tags().finite(),
    {
        let s = TagSet { inner: Vec::new() };
        assert(s.texts() =~= Seq::<Seq<char>>::empty());
        assert(s.tags() =~= Set::<Seq<char>>::empty());
        s
    }

    fn find(&self, t: &Tag) -> (b: bool)
        ensures
            b == self.tags().contains(t.text()),
    {
        let mut i: usize = 0;
        while i < self.inner.len()
            invariant
                i <= self.inner.len(),
                forall|j: int| 0 <= j < i ==> self.texts()[j] != t.text(),
            decreases self.inner.len() - i,
        {
            if same_text(self.inner[i].as_str(), t.as_str()) {
                assert(self.texts()[i as int] == t.text());
                return true;
            }
            i = i + 1;
        }
        false
    }

    /// Returns true when the tag was not already present.
    pub fn insert(&mut self, t: Tag) -> (added: bool)
        ensures
            added == !old(self).tags().contains(t.text()),
            final(self).tags() == old(self).tags().insert(t.text()),
            final(self).tags().finite(),
            final(self).tags().len() == old(self).tags().len() + if added {
                1int
            } else {
                0int
            },
    {
        proof {
            use_type_invariant(&*self);
            self.lemma_tags_finite();
        }
        if self.find(&t) {
            assert(self.tags().insert(t.text()) =~= self.tags());
            return false;
        }
        let ghost before = self.texts();
        let ghost text = t.text();
        let mut items: Vec<Tag> = Vec::new();
        std::mem::swap(&mut items, &mut self.inner);
        items.push(t);
        assert(items@.map_values(|t: Tag| t.text()) =~= before.push(text));
        std::mem::swap(&mut items, &mut self.inner);
        assert(self.texts() =~= before.push(text));
        proof {
            before.lemma_push_to_set_commute(text);
            self.lemma_tags_finite();
        }
        true
    }

    pub fn contains(&self, t: &Tag) -> (b: bool)
        ensures
            b == self.tags().contains(t.text()),
    {
        self.find(t)
    }

    /// Number of distinct tags.
    pub fn len(&self) -> (n: usize)
        ensures
            n == self.tags().len(),
            self.tags().finite(),
    {
        proof {
            self.lemma_tags_finite();
            use_type_invariant(self);
            self.texts().unique_seq_to_set();
        }
        self.inner.len()
    }

    pub fn is_empty(&self) -> (b: bool)
        ensures
            b == (self.tags().len() == 0),
    {
        proof {
            use_type_invariant(self);
            self.texts().unique_seq_to_set();
        }
        self.inner.len() == 0
    }
}

/// Inserting a tag that is already present changes nothing and reports so;
/// a tag that was inserted is found afterwards.
pub proof fn law_insert_idempotent(before: Set<Seq<char>>, t: Seq<char>)
    ensures
        before.insert(t).contains(t),
        before.insert(t).insert(t) == before.insert(t),
{
    assert(before.insert(t).insert(t) =~= before.insert(t));
}

} // verus!
