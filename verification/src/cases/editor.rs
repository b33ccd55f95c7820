//! Documents, the operations that edit them, and an editor that runs
//! operations and decides when the document needs saving.

use vstd::prelude::*;
use vstd::wrapping::u64_specs::wrapping_mul;
use vstd::utf8::encode_utf8;

verus! {

#[derive(Debug, Clone, PartialEq, Eq)]
pub enum Op {
    Insert { at: usize, text: String },
    Remove { at: usize },
}

/// The offset basis the checksum starts from.
pub const CHECKSUM_BASIS: u64 = 0xcbf2_9ce4_8422_2325;

/// The prime each step multiplies by.
pub const CHECKSUM_PRIME: u64 = 0x0000_0100_0000_01b3;

/// One checksum step: fold a byte in.
pub open spec fn mix(h: u64, b: u8) -> u64 {
    wrapping_mul(h ^ (b as u64), CHECKSUM_PRIME)
}

/// The checksum state after folding in the bytes of `bs`.
pub open spec fn mix_bytes(h: u64, bs: Seq<u8>) -> u64
    decreases bs.len(),
{
    if bs.len() == 0 {
        h
    } else {
        mix(mix_bytes(h, bs.drop_last()), bs.last())
    }
}

/// The checksum state after folding in each line's bytes and a line end.
pub open spec fn mix_lines(h: u64, ls: Seq<Seq<u8>>) -> u64
    decreases ls.len(),
{
    if ls.len() == 0 {
        h
    } else {
        mix(mix_bytes(mix_lines(h, ls.drop_last()), ls.last()), 0xff)
    }
}

/// The bytes of each line.
pub open spec fn line_bytes(ls: Seq<String>) -> Seq<Seq<u8>> {
    ls.map_values(|l: String| encode_utf8(l@))
}

/// The text each operation leaves: positions outside the document change
/// nothing.
pub open spec fn applied(lines: Seq<Seq<char>>, op: Op) -> Seq<Seq<char>> {
    match op {
        Op::Insert { at, text } => if at <= lines.len() {
            lines.insert(at as int, text@)
        } else {
            lines
        },
        Op::Remove { at } => if at < lines.len() {
            lines.remove(at as int)
        } else {
            lines
        },
    }
}

/// The lines after `op`: positions outside the document change nothing.
pub fn applied_lines(lines: Vec<String>, op: &Op) -> (r: Vec<String>)
    ensures
        r@.map_values(|l: String| l@) == applied(lines@.map_values(|l: String| l@), *op),
{
    let mut lines = lines;
    match op {
        Op::Insert { at, text } => {
            if *at <= lines.len() {
                let t = text.clone();
                let ghost before = lines@;
                lines.insert(*at, t);
                assert(lines@.map_values(|l: String| l@) =~= before.map_values(|l: String| l@).insert(
                    *at as int,
                    text@,
                ));
            }
        },
        Op::Remove { at } => {
            if *at < lines.len() {
                let ghost before = lines@;
                lines.remove(*at);
                assert(lines@.map_values(|l: String| l@) =~= before.map_values(|l: String| l@).remove(
                    *at as int,
                ));
            }
        },
    }
    lines
}

/// A copy of `lines`.
pub fn copy_lines(lines: &Vec<String>) -> (out: Vec<String>)
    ensures
        out@ == lines@,
{
    let mut out: Vec<String> = Vec::new();
    let mut i: usize = 0;
    while i < lines.len()
        invariant
            i <= lines.len(),
            out@ == lines@.take(i as int),
        decreases lines.len() - i,
    {
        let l = lines[i].clone();
        out.push(l);
        i = i + 1;
        assert(out@ =~= lines@.take(i as int));
    }
    assert(lines@.take(i as int) =~= lines@);
    out
}

/// Order-sensitive checksum of `lines`.
pub fn checksum_of(lines: &Vec<String>) -> (h: u64)
    ensures
        h == mix_lines(CHECKSUM_BASIS, line_bytes(lines@)),
{
    let mut h: u64 = CHECKSUM_BASIS;
    let mut i: usize = 0;
    while i < lines.len()
        invariant
            i <= lines.len(),
            h == mix_lines(CHECKSUM_BASIS, line_bytes(lines@).take(i as int)),
        decreases lines.len() - i,
    {
        let bytes = lines[i].as_str().as_bytes();
        let ghost start = h;
        let mut j: usize = 0;
        while j < bytes.len()
            invariant
                j <= bytes@.len(),
                h == mix_bytes(start, bytes@.take(j as int)),
            decreases bytes@.len() - j,
        {
            h = (h ^ (bytes[j] as u64)).wrapping_mul(CHECKSUM_PRIME);
            j = j + 1;
            assert(bytes@.take(j as int).drop_last() =~= bytes@.take(j - 1));
        }
        assert(bytes@.take(j as int) =~= bytes@);
        h = (h ^ 0xff).wrapping_mul(CHECKSUM_PRIME);
        i = i + 1;
        assert(line_bytes(lines@).take(i as int).drop_last() =~= line_bytes(lines@).take(i - 1));
    }
    assert(line_bytes(lines@).take(i as int) =~= line_bytes(lines@));
    h
}

#[verifier::external_type_specification]
#[verifier::external_body]
#[verifier::reject_recursive_types(T)]
pub struct ExRefCell<T: ?Sized>(std::cell::RefCell<T>);

/// `RefCell::new`.
#[verifier::external_body]
fn buffer_new(lines: Vec<String>) -> (c: std::cell::RefCell<Vec<String>>) {
    std::cell::RefCell::new(lines)
}

/// `RefCell::replace`: stores `lines` and hands back what the cell held.
/// Every handle onto the cell sees the new lines. What comes back depends
/// on every earlier write through any handle, so it is unsaid here. It
/// panics only while the cell is borrowed, and no borrow of it is ever held.
#[verifier::external_body]
fn buffer_replace(c: &std::cell::RefCell<Vec<String>>, lines: Vec<String>) -> (old: Vec<String>) {
    c.replace(lines)
}

/// A cheap handle onto a shared line buffer.
///
/// `Doc` is a handle, not a value. Cloning one yields a second handle onto
/// the same text: an edit through any handle is seen through every other.
/// The text lives in a `RefCell` that any handle may write, so the methods
/// here say what they do with the text they read (through `applied_lines`,
/// `copy_lines` and `checksum_of`, which are exact) but not what that text
/// is.
#[derive(Debug, Clone, Default)]
pub struct Doc {
    lines: std::rc::Rc<std::cell::RefCell<Vec<String>>>,
}

impl Doc {
    pub fn new(lines: Vec<String>) -> (d: Doc) {
        Doc { lines: std::rc::Rc::new(buffer_new(lines)) }
    }

    /// Take the text out, leaving the buffer empty until it is put back.
    fn take(&self) -> (v: Vec<String>) {
        buffer_replace(&*self.lines, Vec::new())
    }

    /// Put the text back.
    fn put(&self, v: Vec<String>) {
        let _ = buffer_replace(&*self.lines, v);
    }

    /// How many lines the text has now.
    pub fn len(&self) -> (n: usize) {
        let v = self.take();
        let n = v.len();
        self.put(v);
        n
    }

    pub fn is_empty(&self) -> (b: bool) {
        let v = self.take();
        let b = v.len() == 0;
        self.put(v);
        b
    }

    /// A copy of the current text.
    pub fn lines(&self) -> (v: Vec<String>) {
        let cur = self.take();
        let out = copy_lines(&cur);
        self.put(cur);
        out
    }

    /// Order-sensitive checksum of the current text.
    pub fn checksum(&self) -> (h: u64) {
        let cur = self.take();
        let h = checksum_of(&cur);
        self.put(cur);
        h
    }

    /// Apply `op` to the shared text: every handle sees the edit.
    /// Positions outside the document are ignored (see `applied_lines`).
    pub fn apply(&self, op: &Op) {
        let cur = self.take();
        self.put(applied_lines(cur, op));
    }
}

/// Runs operations and decides when the document needs saving.
#[derive(Debug)]
pub struct Editor {
    doc: Doc,
    dirty: bool,
    saves: usize,
    /// The checksum of the text as last saved (as first seen, before any
    /// save).
    saved: u64,
}

impl Editor {
    pub closed spec fn document(&self) -> Doc {
        self.doc
    }

    /// Whether an operation was run through this editor since the last save.
    pub closed spec fn changed(&self) -> bool {
        self.dirty
    }

    /// The checksum of the text as last saved.
    pub closed spec fn saved_checksum(&self) -> u64 {
        self.saved
    }

    pub closed spec fn save_count(&self) -> usize {
        self.saves
    }

    pub fn new(doc: Doc) -> (e: Editor)
        ensures
            e.document() == doc,
            !e.changed(),
            e.save_count() == 0,
    {
        let saved = doc.checksum();
        Editor { doc, dirty: false, saves: 0, saved }
    }

    pub fn doc(&self) -> (d: &Doc)
        ensures
            *d == self.document(),
    {
        &self.doc
    }

    /// Whether the document changed since the last save: an operation was
    /// run here, or the text (which other handles may edit) no longer has
    /// the checksum it was saved with.
    pub fn is_dirty(&self) -> (b: bool)
        ensures
            self.changed() ==> b,
    {
        self.dirty || self.doc.checksum() != self.saved
    }

    /// How many times this editor has written the document out.
    pub fn saves(&self) -> (n: usize)
        ensures
            n == self.save_count(),
    {
        self.saves
    }

    /// Run one operation against the document.
    pub fn run(&mut self, op: Op)
        ensures
            final(self).document() == old(self).document(),
            final(self).changed(),
            final(self).save_count() == old(self).save_count(),
            final(self).saved_checksum() == old(self).saved_checksum(),
    {
        self.doc.apply(&op);
        self.dirty = true;
    }

    /// Write the document out if it has changed since the last save, through
    /// this editor or through any other handle onto the same text. An
    /// operation run here always counts as a change; an edit made elsewhere
    /// is seen through the text's checksum.
    pub fn save_if_needed(&mut self) -> (saved: bool)
        requires
            old(self).save_count() < usize::MAX,
        ensures
            old(self).changed() ==> saved,
            !saved ==> final(self).saved_checksum() == old(self).saved_checksum(),
            !final(self).changed(),
            final(self).save_count() == old(self).save_count() + (if saved {
                1int
            } else {
                0int
            }),
            final(self).document() == old(self).document(),
    {
        let now = self.doc.checksum();
        if !self.dirty && now == self.saved {
            return false;
        }
        self.saves = self.saves + 1;
        self.dirty = false;
        self.saved = now;
        true
    }
}

} // verus!
