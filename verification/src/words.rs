//! Words of a transcript: those in a set, and those something is kept for.
use std::collections::{BTreeMap, BTreeSet};
use vstd::prelude::*;
use vstd::std_specs::btree::increasing_seq;
use vstd::std_specs::cmp::OrdSpec;
use vstd::std_specs::iter::IteratorSpec;

verus! {

/// A set is walked in the order of its words.
proof fn walked_in_order(all: Seq<&usize>)
    requires
        increasing_seq(all),
    ensures
        forall|i: int, j: int| 0 <= i < j < all.len() ==> *(#[trigger] all[i]) < *(#[trigger] all[j]),
{
    broadcast use vstd::laws_cmp::group_laws_cmp;

    assert(vstd::laws_cmp::obeys_cmp::<&usize>());
    assert forall|i: int, j: int| 0 <= i < j < all.len() implies *(#[trigger] all[i]) < *(
    #[trigger] all[j]) by {
        assert(OrdSpec::cmp_spec(&all[i], &all[j]) is Less);
    }
}

/// The words of a set, in order.
pub fn words_in(set: &BTreeSet<usize>) -> (out: Vec<usize>)
    ensures
        out@.to_set() == set@,
        forall|i: int, j: int|
            0 <= i < j < out@.len() ==> (#[trigger] out@[i]) < (#[trigger] out@[j]),
{
    let ghost all = set.iter().remaining();
    let mut out: Vec<usize> = Vec::new();
    for word in it: set.iter()
        invariant
            it.seq() == all,
            out@ == all.unref().take(it.index() as int),
    {
        out.push(*word);
        assert(out@ =~= all.unref().take(it.index() + 1));
    }
    assert(out@ =~= all.unref());
    proof {
        walked_in_order(all);
    }
    out
}

/// The words something is kept for, in order.
pub fn words_of<T>(kept: &BTreeMap<usize, T>) -> (out: Vec<usize>)
    ensures
        out@.to_set() == kept@.dom(),
        forall|i: int, j: int|
            0 <= i < j < out@.len() ==> (#[trigger] out@[i]) < (#[trigger] out@[j]),
{
    let ghost all = kept.keys().remaining();
    let mut out: Vec<usize> = Vec::new();
    for word in it: kept.keys()
        invariant
            it.seq() == all,
            out@ == all.unref().take(it.index() as int),
    {
        out.push(*word);
        assert(out@ =~= all.unref().take(it.index() + 1));
    }
    assert(out@ =~= all.unref());
    proof {
        walked_in_order(all);
    }
    out
}

/// Whether all of the words are in the set.
fn holds_all(set: &BTreeSet<usize>, words: &Vec<usize>) -> (out: bool)
    ensures
        out == words@.to_set().subset_of(set@),
{
    let mut i: usize = 0;
    while i < words.len()
        invariant
            i <= words@.len(),
            forall|k: int| 0 <= k < i ==> set@.contains(#[trigger] words@[k]),
        decreases words@.len() - i,
    {
        if !set.contains(&words[i]) {
            assert(words@.to_set().contains(words@[i as int]));
            return false;
        }
        i = i + 1;
    }
    true
}

/// Whether both sets hold the same words.
pub fn same_words(a: &BTreeSet<usize>, b: &BTreeSet<usize>) -> (out: bool)
    ensures
        out == (a@ == b@),
{
    let out = holds_all(b, &words_in(a)) && holds_all(a, &words_in(b));
    assert(out ==> a@ =~= b@);
    out
}

/// Whether `other` keeps something for every word that `kept` does.
pub fn keeps_no_more<T>(kept: &BTreeMap<usize, T>, other: &BTreeMap<usize, T>) -> (out: bool)
    ensures
        out == kept@.dom().subset_of(other@.dom()),
{
    let words = words_of(kept);
    let mut i: usize = 0;
    while i < words.len()
        invariant
            words@.to_set() == kept@.dom(),
            i <= words@.len(),
            forall|k: int| 0 <= k < i ==> other@.dom().contains(#[trigger] words@[k]),
        decreases words@.len() - i,
    {
        if !other.contains_key(&words[i]) {
            assert(words@.to_set().contains(words@[i as int]));
            return false;
        }
        i = i + 1;
    }
    assert forall|w: usize| #[trigger] kept@.dom().contains(w) implies other@.dom().contains(w) by {
        assert(words@.to_set().contains(w));
    }
    true
}

} // verus!
