//! Strict lexicographic order on character sequences.
//!
//! The signature table keeps its entries sorted by name; this module supplies
//! the order and the lemmas (transitivity, irreflexivity) from which the table
//! invariant yields pairwise-distinct names and ids.

use vstd::prelude::*;

verus! {

/// `a` comes strictly before `b` in lexicographic order by code point.
pub open spec fn lex_lt(a: Seq<char>, b: Seq<char>) -> bool
    decreases a.len(),
{
    if b.len() == 0 {
        false
    } else if a.len() == 0 {
        true
    } else if (a[0] as int) < (b[0] as int) {
        true
    } else if a[0] == b[0] {
        lex_lt(a.skip(1), b.skip(1))
    } else {
        false
    }
}

pub proof fn lemma_lex_lt_irrefl(a: Seq<char>)
    ensures
        !lex_lt(a, a),
    decreases a.len(),
{
    if a.len() > 0 {
        lemma_lex_lt_irrefl(a.skip(1));
    }
}

pub proof fn lemma_lex_lt_trans(a: Seq<char>, b: Seq<char>, c: Seq<char>)
    requires
        lex_lt(a, b),
        lex_lt(b, c),
    ensures
        lex_lt(a, c),
    decreases a.len(),
{
    if a.len() == 0 {
    } else if b.len() == 0 {
    } else if c.len() == 0 {
    } else {
        if a[0] == b[0] && b[0] == c[0] {
            lemma_lex_lt_trans(a.skip(1), b.skip(1), c.skip(1));
        }
    }
}

/// Every entry of `t` comes strictly before every later entry.
pub open spec fn strictly_sorted(t: Seq<Seq<char>>) -> bool {
    forall|i: int, j: int| 0 <= i < j < t.len() ==> lex_lt(t[i], t[j])
}

proof fn lemma_lex_chain(t: Seq<Seq<char>>, i: int, j: int)
    requires
        forall|k: int| 0 <= k < t.len() - 1 ==> #[trigger] lex_lt(t[k], t[k + 1]),
        0 <= i < j < t.len(),
    ensures
        lex_lt(t[i], t[j]),
    decreases j - i,
{
    if j == i + 1 {
    } else {
        lemma_lex_chain(t, i, j - 1);
        assert(lex_lt(t[j - 1], t[j - 1 + 1]));
        lemma_lex_lt_trans(t[i], t[j - 1], t[j]);
    }
}

/// A chain of adjacent comparisons orders the whole sequence.
pub proof fn lemma_adjacent_sorted(t: Seq<Seq<char>>)
    requires
        forall|k: int| 0 <= k < t.len() - 1 ==> #[trigger] lex_lt(t[k], t[k + 1]),
    ensures
        strictly_sorted(t),
{
    assert forall|i: int, j: int| 0 <= i < j < t.len() implies lex_lt(t[i], t[j]) by {
        lemma_lex_chain(t, i, j);
    }
}

/// A strictly sorted sequence has pairwise-distinct entries.
pub proof fn lemma_sorted_distinct(t: Seq<Seq<char>>)
    requires
        strictly_sorted(t),
    ensures
        forall|i: int, j: int| 0 <= i < t.len() && 0 <= j < t.len() && i != j ==> t[i] != t[j],
{
    assert forall|i: int, j: int|
        0 <= i < t.len() && 0 <= j < t.len() && i != j implies t[i] != t[j] by {
        if i < j {
            if t[i] == t[j] {
                lemma_lex_lt_irrefl(t[i]);
            }
        } else {
            if t[i] == t[j] {
                lemma_lex_lt_irrefl(t[j]);
            }
        }
    }
}

} // verus!
