//! The output document: an ordered list of traced regions, newest first.

use crate::keying::Rgba;
use vstd::prelude::*;

verus! {

/// One region of the output: which cluster of the segmentation it is, the
/// colour it is filled with, and the number of decimals its coordinates keep.
#[derive(Clone, Copy, Debug, PartialEq, Eq, Structural)]
pub struct PathEntry {
    pub cluster: usize,
    pub color: Rgba,
    pub precision: u32,
}

/// The entries in document order. A new entry goes in front of all earlier
/// ones, so the order is the reverse of that in which they were emitted.
#[derive(Debug)]
pub struct Document {
    entries: Vec<PathEntry>,
}

impl View for Document {
    type V = Seq<PathEntry>;

    closed spec fn view(&self) -> Seq<PathEntry> {
        self.entries@
    }
}

impl Document {
    /// An empty document.
    pub fn new() -> (d: Document)
        ensures
            d@ == Seq::<PathEntry>::empty(),
    {
        Document { entries: Vec::new() }
    }

    /// Puts `entry` in front of all others.
    pub fn prepend(&mut self, entry: PathEntry)
        ensures
            final(self)@ == seq![entry] + old(self)@,
    {
        self.entries.insert(0, entry);
        proof {
            assert(self.entries@ =~= seq![entry] + old(self).entries@);
        }
    }

    /// Number of entries.
    pub fn len(&self) -> (n: usize)
        ensures
            n == self@.len(),
    {
        self.entries.len()
    }

    /// A copy of the entries, first entry first.
    pub fn to_vec(&self) -> (v: Vec<PathEntry>)
        ensures
            v@ == self@,
    {
        let mut v: Vec<PathEntry> = Vec::new();
        let mut i: usize = 0;
        let n = self.entries.len();
        while i < n
            invariant
                i <= n,
                n == self.entries@.len(),
                v@ == self.entries@.subrange(0, i as int),
            decreases n - i,
        {
            v.push(self.entries[i]);
            i += 1;
        }
        proof {
            assert(self.entries@.subrange(0, n as int) =~= self.entries@);
        }
        v
    }

    /// The entry at position `i` of the document.
    pub fn get(&self, i: usize) -> (e: Option<PathEntry>)
        ensures
            e == (if i < self@.len() {
                Some(self@[i as int])
            } else {
                None
            }),
    {
        if i < self.entries.len() {
            Some(self.entries[i])
        } else {
            None
        }
    }
}

/// The document that holds `emitted`, given in the order of emission.
pub open spec fn document_of(emitted: Seq<PathEntry>) -> Seq<PathEntry>
    decreases emitted.len(),
{
    if emitted.len() == 0 {
        Seq::empty()
    } else {
        seq![emitted.last()] + document_of(emitted.drop_last())
    }
}

/// A document is its emissions read backwards: the entry at position `i` is
/// the one emitted as number `len - 1 - i`.
pub proof fn lemma_document_reverses(emitted: Seq<PathEntry>)
    ensures
        document_of(emitted).len() == emitted.len(),
        forall|i: int|
            0 <= i < emitted.len() ==> #[trigger] document_of(emitted)[i] == emitted[emitted.len()
                - 1 - i],
    decreases emitted.len(),
{
    if emitted.len() > 0 {
        lemma_document_reverses(emitted.drop_last());
    }
}

/// Prepending to a document is emitting one entry more.
pub proof fn lemma_prepend_is_emit(emitted: Seq<PathEntry>, entry: PathEntry)
    ensures
        seq![entry] + document_of(emitted) == document_of(emitted.push(entry)),
{
    assert(emitted.push(entry).drop_last() =~= emitted);
}

} // verus!
