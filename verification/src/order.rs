//! The order in which a `BTreeMap` yields its integer keys.
use vstd::laws_cmp::obeys_cmp;
use vstd::prelude::*;
use vstd::std_specs::btree::{axiom_increasing_seq_meaning, increasing_seq};
use vstd::std_specs::cmp::OrdSpec;

verus! {

/// In a sequence ordered by `increasing_seq`, each item orders before every later one.
proof fn lemma_increasing_less<K: Ord>(s: Seq<K>)
    requires
        obeys_cmp::<K>(),
        increasing_seq(s),
    ensures
        forall|i: int, j: int|
            #![trigger s[i], s[j]]
            0 <= i < j < s.len() ==> s[i].cmp_spec(&s[j]) is Less,
{
    axiom_increasing_seq_meaning(s);
}

/// Keys of type `u32` that a `BTreeMap` yields in increasing order are strictly increasing.
pub proof fn lemma_increasing_u32(ks: Seq<&u32>)
    requires
        increasing_seq(ks),
    ensures
        forall|a: int, b: int| 0 <= a < b < ks.len() ==> *ks[a] < *ks[b],
{
    assert(obeys_cmp::<&u32>());
    lemma_increasing_less(ks);
}

/// Keys of type `i32` that a `BTreeMap` yields in increasing order are strictly increasing.
pub proof fn lemma_increasing_i32(ks: Seq<&i32>)
    requires
        increasing_seq(ks),
    ensures
        forall|a: int, b: int| 0 <= a < b < ks.len() ==> *ks[a] < *ks[b],
{
    assert(obeys_cmp::<&i32>());
    lemma_increasing_less(ks);
}

} // verus!
