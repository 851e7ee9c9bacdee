use vstd::prelude::*;

verus! {

/// A height on a chain: a revision number and a height inside that revision.
///
/// Heights are ordered first by revision number, then by revision height.
#[derive(Clone, Copy, Debug, PartialEq, Eq, Structural, PartialOrd, Ord, Hash)]
pub struct NearHeight {
    /// Previously known as "epoch".
    pub revision_number: u64,
    /// The height of a block.
    pub revision_height: u64,
}

impl NearHeight {
    /// Builds a height from its two parts.
    pub fn new(revision_number: u64, revision_height: u64) -> (h: NearHeight)
        ensures
            h.revision_number == revision_number,
            h.revision_height == revision_height,
    {
        NearHeight { revision_number, revision_height }
    }
}

/// Keys that the ascending queues and the key-sorted link map keep in order.
///
/// `precedes` is a strict total order; the exec methods compare, test equality
/// and copy keys in agreement with it.
pub trait AscendingKey: Sized {
    spec fn precedes(self, other: Self) -> bool;

    proof fn lemma_precedes_irreflexive(a: Self)
        ensures
            !a.precedes(a),
    ;

    proof fn lemma_precedes_transitive(a: Self, b: Self, c: Self)
        requires
            a.precedes(b),
            b.precedes(c),
        ensures
            a.precedes(c),
    ;

    proof fn lemma_precedes_total(a: Self, b: Self)
        ensures
            a.precedes(b) || a == b || b.precedes(a),
    ;

    fn is_same_key(&self, other: &Self) -> (r: bool)
        ensures
            r == (*self == *other),
    ;

    fn is_before(&self, other: &Self) -> (r: bool)
        ensures
            r == self.precedes(*other),
    ;

    fn copy_key(&self) -> (r: Self)
        ensures
            r == *self,
    ;
}

impl AscendingKey for u64 {
    open spec fn precedes(self, other: Self) -> bool {
        self < other
    }

    proof fn lemma_precedes_irreflexive(a: Self) {
    }

    proof fn lemma_precedes_transitive(a: Self, b: Self, c: Self) {
    }

    proof fn lemma_precedes_total(a: Self, b: Self) {
    }

    fn is_same_key(&self, other: &Self) -> (r: bool) {
        *self == *other
    }

    fn is_before(&self, other: &Self) -> (r: bool) {
        *self < *other
    }

    fn copy_key(&self) -> (r: Self) {
        *self
    }
}

impl AscendingKey for u32 {
    open spec fn precedes(self, other: Self) -> bool {
        self < other
    }

    proof fn lemma_precedes_irreflexive(a: Self) {
    }

    proof fn lemma_precedes_transitive(a: Self, b: Self, c: Self) {
    }

    proof fn lemma_precedes_total(a: Self, b: Self) {
    }

    fn is_same_key(&self, other: &Self) -> (r: bool) {
        *self == *other
    }

    fn is_before(&self, other: &Self) -> (r: bool) {
        *self < *other
    }

    fn copy_key(&self) -> (r: Self) {
        *self
    }
}

/// The order of heights: by revision number, then by revision height.
pub open spec fn height_lt(a: NearHeight, b: NearHeight) -> bool {
    a.revision_number < b.revision_number || (a.revision_number == b.revision_number
        && a.revision_height < b.revision_height)
}

impl AscendingKey for NearHeight {
    open spec fn precedes(self, other: Self) -> bool {
        height_lt(self, other)
    }

    proof fn lemma_precedes_irreflexive(a: Self) {
    }

    proof fn lemma_precedes_transitive(a: Self, b: Self, c: Self) {
    }

    proof fn lemma_precedes_total(a: Self, b: Self) {
    }

    fn is_same_key(&self, other: &Self) -> (r: bool) {
        self.revision_number == other.revision_number && self.revision_height
            == other.revision_height
    }

    fn is_before(&self, other: &Self) -> (r: bool) {
        self.revision_number < other.revision_number || (self.revision_number
            == other.revision_number && self.revision_height < other.revision_height)
    }

    fn copy_key(&self) -> (r: Self) {
        *self
    }
}

} // verus!
