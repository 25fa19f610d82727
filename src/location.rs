//! Canonical, totally ordered positions of transactions and outputs in the ledger.

use vstd::prelude::*;

verus! {

/// A key with a place in ledger order.
///
/// `rank` is the key's place as an integer: distinct keys have distinct ranks,
/// and comparing ranks is comparing keys.
pub trait LedgerKey: Copy + Sized {
    spec fn rank(self) -> int;

    /// Is `self` strictly before `other` in ledger order?
    fn precedes(&self, other: &Self) -> (r: bool)
        ensures
            r == (self.rank() < other.rank()),
    ;

    /// Do `self` and `other` name the same place?
    fn same_place(&self, other: &Self) -> (r: bool)
        ensures
            r == (self.rank() == other.rank()),
    ;

    /// Keys with equal ranks are equal.
    proof fn lemma_rank_injective(a: Self, b: Self)
        ensures
            a.rank() == b.rank() ==> a == b,
    ;
}

/// The position of a transaction: its block height, then its index in the block.
#[derive(Clone, Copy, Debug, PartialEq, Eq, Structural, PartialOrd, Ord, Hash)]
pub struct TransactionLocation {
    pub height: u32,
    pub index: u16,
}

/// The position of an output: its transaction's location, then its index in
/// that transaction.
#[derive(Clone, Copy, Debug, PartialEq, Eq, Structural, PartialOrd, Ord, Hash)]
pub struct OutputLocation {
    pub transaction_location: TransactionLocation,
    pub output_index: u32,
}

/// `hi * base + lo` with `lo < base` orders as the pair `(hi, lo)`.
proof fn lemma_pair_rank(h1: int, l1: int, h2: int, l2: int, base: int)
    requires
        base > 0,
        0 <= l1 < base,
        0 <= l2 < base,
    ensures
        (h1 * base + l1 < h2 * base + l2) == (h1 < h2 || (h1 == h2 && l1 < l2)),
        (h1 * base + l1 == h2 * base + l2) == (h1 == h2 && l1 == l2),
{
    if h1 < h2 {
        assert(h1 * base + base <= h2 * base) by (nonlinear_arith)
            requires h1 < h2, base > 0;
    } else if h1 > h2 {
        assert(h2 * base + base <= h1 * base) by (nonlinear_arith)
            requires h1 > h2, base > 0;
    }
}

impl TransactionLocation {
    /// Builds a location from a height and an in-block index.
    pub fn from_parts(height: u32, index: u16) -> (r: Self)
        ensures
            r.height == height,
            r.index == index,
    {
        TransactionLocation { height, index }
    }
}

impl LedgerKey for TransactionLocation {
    open spec fn rank(self) -> int {
        self.height as int * 0x1_0000 + self.index as int
    }

    fn precedes(&self, other: &Self) -> (r: bool) {
        proof {
            lemma_pair_rank(self.height as int, self.index as int, other.height as int, other.index as int, 0x1_0000);
        }
        self.height < other.height || (self.height == other.height && self.index < other.index)
    }

    fn same_place(&self, other: &Self) -> (r: bool) {
        proof {
            lemma_pair_rank(self.height as int, self.index as int, other.height as int, other.index as int, 0x1_0000);
        }
        self.height == other.height && self.index == other.index
    }

    proof fn lemma_rank_injective(a: Self, b: Self) {
        lemma_pair_rank(a.height as int, a.index as int, b.height as int, b.index as int, 0x1_0000);
    }
}

impl OutputLocation {
    /// The location of the transaction that created this output.
    pub fn transaction_location(&self) -> (r: TransactionLocation)
        ensures
            r == self.transaction_location,
    {
        self.transaction_location
    }
}

/// Outputs in ledger order have their transactions in ledger order.
pub proof fn lemma_output_order(a: OutputLocation, b: OutputLocation)
    ensures
        a.rank() < b.rank() ==> a.transaction_location.rank() <= b.transaction_location.rank(),
{
    lemma_pair_rank(a.transaction_location.rank(), a.output_index as int,
        b.transaction_location.rank(), b.output_index as int, 0x1_0000_0000);
}

impl LedgerKey for OutputLocation {
    open spec fn rank(self) -> int {
        self.transaction_location.rank() * 0x1_0000_0000 + self.output_index as int
    }

    fn precedes(&self, other: &Self) -> (r: bool) {
        let a = &self.transaction_location;
        let b = &other.transaction_location;
        proof {
            lemma_pair_rank(a.rank(), self.output_index as int, b.rank(), other.output_index as int, 0x1_0000_0000);
        }
        a.precedes(b) || (a.same_place(b) && self.output_index < other.output_index)
    }

    fn same_place(&self, other: &Self) -> (r: bool) {
        let a = &self.transaction_location;
        let b = &other.transaction_location;
        proof {
            lemma_pair_rank(a.rank(), self.output_index as int, b.rank(), other.output_index as int, 0x1_0000_0000);
        }
        a.same_place(b) && self.output_index == other.output_index
    }

    proof fn lemma_rank_injective(a: Self, b: Self) {
        lemma_pair_rank(a.transaction_location.rank(), a.output_index as int,
            b.transaction_location.rank(), b.output_index as int, 0x1_0000_0000);
        TransactionLocation::lemma_rank_injective(a.transaction_location, b.transaction_location);
    }
}

} // verus!
