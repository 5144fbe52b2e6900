//! Equality and order of strings: both go by the bytes alone.

use crate::string::IString;
use core::cmp::Ordering;
use vstd::prelude::*;
use vstd::std_specs::cmp::PartialEqSpecImpl;
use vstd::std_specs::cmp::PartialOrdSpecImpl;

verus! {

/// How one byte string stands to another.
#[derive(Clone, Copy, Debug, PartialEq, Eq, Structural)]
pub enum Rank {
    Before,
    Same,
    After,
}

/// The lexicographic order of byte strings: the first byte that differs
/// decides, and a proper prefix comes before what it is a prefix of.
pub open spec fn rank(a: Seq<u8>, b: Seq<u8>) -> Rank
    decreases a.len(),
{
    if a.len() == 0 {
        if b.len() == 0 {
            Rank::Same
        } else {
            Rank::Before
        }
    } else if b.len() == 0 {
        Rank::After
    } else if a[0] < b[0] {
        Rank::Before
    } else if a[0] > b[0] {
        Rank::After
    } else {
        rank(a.drop_first(), b.drop_first())
    }
}

/// Two byte strings rank the same exactly when they are equal.
pub proof fn lemma_rank_same(a: Seq<u8>, b: Seq<u8>)
    ensures
        rank(a, b) == Rank::Same <==> a == b,
    decreases a.len(),
{
    if a.len() > 0 && b.len() > 0 {
        lemma_rank_same(a.drop_first(), b.drop_first());
        if a[0] == b[0] && a.drop_first() == b.drop_first() {
            assert(a =~= seq![a[0]] + a.drop_first());
            assert(b =~= seq![b[0]] + b.drop_first());
        }
    } else if a.len() == 0 && b.len() == 0 {
        assert(a =~= b);
    }
}

/// Swapping the two sides swaps before and after.
pub proof fn lemma_rank_mirror(a: Seq<u8>, b: Seq<u8>)
    ensures
        rank(b, a) == match rank(a, b) {
            Rank::Before => Rank::After,
            Rank::Same => Rank::Same,
            Rank::After => Rank::Before,
        },
    decreases a.len(),
{
    if a.len() > 0 && b.len() > 0 {
        lemma_rank_mirror(a.drop_first(), b.drop_first());
    }
}

/// What comes before something that comes before a third comes before the
/// third.
pub proof fn lemma_rank_transitive(a: Seq<u8>, b: Seq<u8>, c: Seq<u8>)
    requires
        rank(a, b) == Rank::Before,
        rank(b, c) == Rank::Before,
    ensures
        rank(a, c) == Rank::Before,
    decreases a.len(),
{
    if a.len() > 0 && b.len() > 0 && c.len() > 0 && a[0] == b[0] && b[0] == c[0] {
        lemma_rank_transitive(a.drop_first(), b.drop_first(), c.drop_first());
    }
}

/// Whether two slices hold the same bytes.
pub fn same_bytes(a: &[u8], b: &[u8]) -> (same: bool)
    ensures
        same == (a@ == b@),
{
    if a.len() != b.len() {
        return false;
    }
    let mut i: usize = 0;
    while i < a.len()
        invariant
            i <= a.len(),
            a.len() == b.len(),
            a@.take(i as int) == b@.take(i as int),
        decreases a.len() - i,
    {
        if a[i] != b[i] {
            return false;
        }
        proof {
            assert(a@.take(i + 1) =~= a@.take(i as int).push(a@[i as int]));
            assert(b@.take(i + 1) =~= b@.take(i as int).push(b@[i as int]));
        }
        i += 1;
    }
    proof {
        assert(a@.take(i as int) =~= a@);
        assert(b@.take(i as int) =~= b@);
    }
    true
}

/// Ranks two slices in lexicographic order.
pub fn rank_bytes(a: &[u8], b: &[u8]) -> (r: Rank)
    ensures
        r == rank(a@, b@),
{
    let mut i: usize = 0;
    proof {
        assert(a@.skip(0) =~= a@);
        assert(b@.skip(0) =~= b@);
    }
    while i < a.len() && i < b.len()
        invariant
            i <= a.len(),
            i <= b.len(),
            rank(a@, b@) == rank(a@.skip(i as int), b@.skip(i as int)),
        decreases a.len() - i,
    {
        proof {
            assert(a@.skip(i as int).drop_first() =~= a@.skip(i + 1));
            assert(b@.skip(i as int).drop_first() =~= b@.skip(i + 1));
        }
        if a[i] < b[i] {
            return Rank::Before;
        }
        if a[i] > b[i] {
            return Rank::After;
        }
        i += 1;
    }
    if i < b.len() {
        Rank::Before
    } else if i < a.len() {
        Rank::After
    } else {
        Rank::Same
    }
}

impl PartialEq for IString {
    fn eq(&self, other: &IString) -> (equal: bool) {
        same_bytes(self.as_bytes(), other.as_bytes())
    }
}

impl PartialEqSpecImpl for IString {
    open spec fn obeys_eq_spec() -> bool {
        true
    }

    open spec fn eq_spec(&self, other: &IString) -> bool {
        self@ == other@
    }
}

impl PartialOrd for IString {
    fn partial_cmp(&self, other: &IString) -> (order: Option<Ordering>) {
        match rank_bytes(self.as_bytes(), other.as_bytes()) {
            Rank::Before => Some(Ordering::Less),
            Rank::Same => Some(Ordering::Equal),
            Rank::After => Some(Ordering::Greater),
        }
    }
}

impl PartialOrdSpecImpl for IString {
    open spec fn obeys_partial_cmp_spec() -> bool {
        true
    }

    open spec fn partial_cmp_spec(&self, other: &IString) -> Option<Ordering> {
        match rank(self@, other@) {
            Rank::Before => Some(Ordering::Less),
            Rank::Same => Some(Ordering::Equal),
            Rank::After => Some(Ordering::Greater),
        }
    }
}

} // verus!
