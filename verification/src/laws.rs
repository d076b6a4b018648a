//! Laws of the interning table, stated and proved over its mathematical
//! model: [`spec_intern`] is what [`crate::Interner::intern`] promises in its
//! `ensures`, so each law transfers to the executable table.

use vstd::prelude::*;

use crate::interner::entries_distinct;
use crate::interner::lemma_distinct_push;
use crate::interner::lemma_index_of_distinct;
use crate::interner::spec_intern;
use crate::interner::Symbol;

verus! {

/// Interning preserves the table invariant: entries stay distinct.
pub proof fn lemma_intern_preserves_distinct(t: Seq<Seq<char>>, s: Seq<char>)
    requires
        entries_distinct(t),
    ensures
        entries_distinct(spec_intern(t, s).0),
{
    if !t.contains(s) {
        lemma_distinct_push(t, s);
    }
}

/// Round-trip: the slot assigned to `s` holds exactly `s`, so recovering
/// text from the handle produced by interning `s` yields `s` itself.
pub proof fn lemma_intern_round_trip(t: Seq<Seq<char>>, s: Seq<char>)
    ensures
        0 <= spec_intern(t, s).1 < spec_intern(t, s).0.len(),
        spec_intern(t, s).0[spec_intern(t, s).1] == s,
{
    if t.contains(s) {
        let i = t.index_of(s);
        assert(0 <= i < t.len() && t[i] == s);
    }
}

/// Stability: interning never moves, changes or removes an existing entry,
/// so a handle's recovered text and ordering value never change after
/// creation, regardless of what is interned afterwards.
pub proof fn lemma_intern_stable(t: Seq<Seq<char>>, s: Seq<char>)
    ensures
        t.len() <= spec_intern(t, s).0.len(),
        forall|i: int| 0 <= i < t.len() ==> spec_intern(t, s).0[i] == t[i],
{
}

/// Identity: interning the same text twice yields the same handle index,
/// and the second interning leaves the table exactly as it was.
pub proof fn lemma_intern_identity(t: Seq<Seq<char>>, s: Seq<char>)
    requires
        entries_distinct(t),
    ensures
        spec_intern(spec_intern(t, s).0, s).0 == spec_intern(t, s).0,
        spec_intern(spec_intern(t, s).0, s).1 == spec_intern(t, s).1,
{
    let t1 = spec_intern(t, s).0;
    let i1 = spec_intern(t, s).1;
    lemma_intern_round_trip(t, s);
    lemma_intern_preserves_distinct(t, s);
    lemma_index_of_distinct(t1, s, i1);
}

/// Distinctness: interning two different texts, one after the other, yields
/// handles with different indices, and each index still recovers its own
/// text in the final table.
pub proof fn lemma_intern_distinct_texts(t: Seq<Seq<char>>, s1: Seq<char>, s2: Seq<char>)
    requires
        entries_distinct(t),
        s1 != s2,
    ensures
        ({
            let t1 = spec_intern(t, s1).0;
            let i1 = spec_intern(t, s1).1;
            let t2 = spec_intern(t1, s2).0;
            let i2 = spec_intern(t1, s2).1;
            &&& i1 != i2
            &&& t2[i1] == s1
            &&& t2[i2] == s2
        }),
{
    let t1 = spec_intern(t, s1).0;
    let i1 = spec_intern(t, s1).1;
    lemma_intern_round_trip(t, s1);
    lemma_intern_preserves_distinct(t, s1);
    lemma_intern_round_trip(t1, s2);
    lemma_intern_stable(t1, s2);
}

/// Insertion-order monotonicity: a fresh text receives the next sequential
/// index, namely the number of distinct texts interned before it; and the
/// index of any text interned earlier is smaller, so the earlier text's
/// handle orders before the fresh one's.
pub proof fn lemma_insertion_order(t: Seq<Seq<char>>, s1: Seq<char>, s2: Seq<char>)
    requires
        entries_distinct(t),
        t.contains(s1),
        !t.contains(s2),
    ensures
        spec_intern(t, s2).1 == t.len(),
        t.index_of(s1) < spec_intern(t, s2).1,
{
    let i = t.index_of(s1);
    assert(0 <= i < t.len() && t[i] == s1);
}

/// In any single well-formed table state, two handles whose slots hold the
/// same text are the same handle: a table never holds one text at two
/// indices, however many callers interned it.
pub proof fn lemma_same_text_same_handle(t: Seq<Seq<char>>, a: Symbol, b: Symbol)
    requires
        entries_distinct(t),
        0 <= a.idx() < t.len(),
        0 <= b.idx() < t.len(),
        t[a.idx()] == t[b.idx()],
    ensures
        a == b,
{
    if a.idx() != b.idx() {
        assert(t[a.idx()] != t[b.idx()]);
    }
    Symbol::lemma_eq_is_idx(a, b);
}

} // verus!
