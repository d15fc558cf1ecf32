//! Putting things in order.
use crate::seqs::{insert_holds, views};
use crate::text::{before, before_is_strict, before_is_total, before_is_transitive, is_before, same};
use vstd::prelude::*;

verus! {

/// What something is sorted by: a number, then two texts.
pub struct Key {
    pub rank: i128,
    pub group: String,
    pub name: String,
}

#[verifier::ext_equal]
pub struct KeyModel {
    pub rank: i128,
    pub group: Seq<char>,
    pub name: Seq<char>,
}

impl View for Key {
    type V = KeyModel;

    open spec fn view(&self) -> KeyModel {
        KeyModel { rank: self.rank, group: self.group@, name: self.name@ }
    }
}

/// `a` sorts before `b`.
pub open spec fn sorts_before(a: KeyModel, b: KeyModel) -> bool {
    if a.rank != b.rank {
        a.rank < b.rank
    } else if a.group != b.group {
        before(a.group, b.group)
    } else {
        before(a.name, b.name)
    }
}

/// Whether `a` sorts before `b`.
pub fn is_sorted_before(a: &Key, b: &Key) -> (out: bool)
    ensures
        out == sorts_before(a@, b@),
{
    if a.rank != b.rank {
        a.rank < b.rank
    } else if !same(a.group.as_str(), b.group.as_str()) {
        is_before(a.group.as_str(), b.group.as_str())
    } else {
        is_before(a.name.as_str(), b.name.as_str())
    }
}

/// Of two different keys one sorts before the other, and only one does.
pub proof fn sorting_is_total(a: KeyModel, b: KeyModel)
    ensures
        !(sorts_before(a, b) && sorts_before(b, a)),
        sorts_before(a, b) || sorts_before(b, a) || a == b,
        !sorts_before(a, a),
{
    before_is_strict(a.group, b.group);
    before_is_strict(a.name, b.name);
    before_is_strict(a.name, a.name);
    before_is_total(a.group, b.group);
    before_is_total(a.name, b.name);
}

/// What sorts before something sorts before everything after that.
pub proof fn sorting_is_transitive(a: KeyModel, b: KeyModel, c: KeyModel)
    requires
        sorts_before(a, b),
        sorts_before(b, c),
    ensures
        sorts_before(a, c),
{
    before_is_strict(a.group, b.group);
    if before(a.group, b.group) && before(b.group, c.group) {
        before_is_transitive(a.group, b.group, c.group);
        before_is_strict(a.group, c.group);
    }
    if before(a.name, b.name) && before(b.name, c.name) {
        before_is_transitive(a.name, b.name, c.name);
    }
}

/// `x` may stand before `y`: it sorts before it, or alike and came first.
pub open spec fn may_precede(keys: Seq<KeyModel>, x: usize, y: usize) -> bool {
    sorts_before(keys[x as int], keys[y as int]) || (keys[x as int] == keys[y as int] && x < y)
}

/// The places in `order` are sorted by their keys; those with the same key stay in the order
/// they came.
pub open spec fn in_order(keys: Seq<KeyModel>, order: Seq<usize>) -> bool {
    forall|i: int, j: int|
        0 <= i < j < order.len() ==> may_precede(keys, #[trigger] order[i], #[trigger] order[j])
}

/// The same places, each once.
pub open spec fn same_places(a: Seq<usize>, b: Seq<usize>) -> bool {
    &&& a.len() == b.len()
    &&& a.no_duplicates()
    &&& forall|x: usize| a.contains(x) <==> b.contains(x)
}

/// `kept` rises, and names keys there are.
pub open spec fn rises(kept: Seq<usize>, n: int) -> bool {
    &&& forall|i: int| 0 <= i < kept.len() ==> (#[trigger] kept[i]) < n
    &&& forall|i: int, j: int| 0 <= i < j < kept.len() ==> (#[trigger] kept[i]) < (
    #[trigger] kept[j])
}

/// Putting a place where it belongs keeps the order.
proof fn inserting_keeps_order(keys: Seq<KeyModel>, order: Seq<usize>, at: int, x: usize)
    requires
        0 <= at <= order.len(),
        in_order(keys, order),
        x < keys.len(),
        forall|i: int| 0 <= i < order.len() ==> (#[trigger] order[i]) < x,
        forall|i: int|
            0 <= i < at ==> !sorts_before(keys[x as int], keys[(#[trigger] order[i]) as int]),
        at < order.len() ==> sorts_before(keys[x as int], keys[order[at] as int]),
    ensures
        in_order(keys, order.insert(at, x)),
{
    let more = order.insert(at, x);
    assert forall|i: int, j: int| 0 <= i < j < more.len() implies may_precede(
        keys,
        #[trigger] more[i],
        #[trigger] more[j],
    ) by {
        if i < at && j < at {
            assert(more[i] == order[i] && more[j] == order[j]);
        } else if i < at && j == at {
            assert(more[i] == order[i] && more[j] == x);
            sorting_is_total(keys[x as int], keys[order[i] as int]);
        } else if i < at {
            assert(more[i] == order[i] && more[j] == order[j - 1]);
        } else if i == at {
            assert(more[i] == x && more[j] == order[j - 1]);
            if j - 1 > at {
                assert(may_precede(keys, order[at], order[j - 1]));
                if sorts_before(keys[order[at] as int], keys[order[j - 1] as int]) {
                    sorting_is_transitive(
                        keys[x as int],
                        keys[order[at] as int],
                        keys[order[j - 1] as int],
                    );
                }
            }
        } else {
            assert(more[i] == order[i - 1] && more[j] == order[j - 1]);
        }
    }
}

/// The places of `kept`, sorted by their keys; those with the same key stay in the order they
/// came.
pub fn sorted(keys: &Vec<Key>, kept: &Vec<usize>) -> (out: Vec<usize>)
    requires
        rises(kept@, keys@.len() as int),
    ensures
        in_order(views(keys@), out@),
        same_places(out@, kept@),
{
    let ghost all = views(keys@);
    let mut out: Vec<usize> = Vec::new();
    let mut k: usize = 0;
    while k < kept.len()
        invariant
            all == views(keys@),
            rises(kept@, keys@.len() as int),
            k <= kept@.len(),
            out@.len() == k,
            in_order(all, out@),
            out@.no_duplicates(),
            forall|x: usize| out@.contains(x) <==> kept@.take(k as int).contains(x),
            forall|i: int| 0 <= i < out@.len() ==> (#[trigger] out@[i]) < keys@.len(),
            forall|i: int|
                k < kept@.len() && 0 <= i < out@.len() ==> (#[trigger] out@[i]) < kept@[k as int],
        decreases kept@.len() - k,
    {
        let x: usize = kept[k];
        assert(x < keys@.len());
        let mut at: usize = 0;
        while at < out.len() && !is_sorted_before(&keys[x], &keys[out[at]])
            invariant
                all == views(keys@),
                x < keys@.len(),
                at <= out@.len(),
                forall|i: int| 0 <= i < out@.len() ==> (#[trigger] out@[i]) < keys@.len(),
                forall|i: int|
                    0 <= i < at ==> !sorts_before(all[x as int], all[(#[trigger] out@[i]) as int]),
            decreases out@.len() - at,
        {
            at = at + 1;
        }
        let ghost had = out@;
        proof {
            inserting_keeps_order(all, had, at as int, x);
            insert_holds(had, at as int, x);
            crate::seqs::push_holds(kept@.take(k as int), x);
            assert(kept@.take(k + 1) =~= kept@.take(k as int).push(x));
            assert(!had.contains(x));
        }
        out.insert(at, x);
        proof {
            assert(out@ == had.insert(at as int, x));
            assert forall|i: int, j: int|
                0 <= i < out@.len() && 0 <= j < out@.len() && i != j implies out@[i]
                != out@[j] by {
                let a = if i < at {
                    i
                } else {
                    i - 1
                };
                let b = if j < at {
                    j
                } else {
                    j - 1
                };
                if i != at {
                    assert(out@[i] == had[a]);
                }
                if j != at {
                    assert(out@[j] == had[b]);
                }
            }
            assert forall|i: int| 0 <= i < out@.len() implies (#[trigger] out@[i])
                < keys@.len() by {
                assert(out@.contains(out@[i]));
            }
            assert forall|i: int|
                k + 1 < kept@.len() && 0 <= i < out@.len() implies (#[trigger] out@[i])
                < kept@[k + 1] by {
                if out@[i] != x {
                    assert(out@.contains(out@[i]));
                    assert(had.contains(out@[i]));
                    let j = choose|j: int| 0 <= j < had.len() && had[j] == out@[i];
                    assert(had[j] < kept@[k as int]);
                }
                assert(kept@[k as int] < kept@[k + 1]);
            }
        }
        k = k + 1;
    }
    assert(kept@.take(k as int) =~= kept@);
    out
}

/// `order` says where each of `n` things goes.
pub open spec fn arranges(order: Seq<usize>, n: int) -> bool {
    &&& order.len() == n
    &&& order.no_duplicates()
    &&& forall|i: int| 0 <= i < order.len() ==> (#[trigger] order[i]) < n
}

/// `b` is `a` in another order.
pub open spec fn rearranged(a: Seq<Seq<char>>, b: Seq<Seq<char>>) -> bool {
    exists|order: Seq<usize>|
        #![trigger arranges(order, a.len() as int)]
        arranges(order, a.len() as int) && b == order.map_values(|i: usize| a[i as int])
}

/// In dictionary order.
pub open spec fn alphabetical(names: Seq<Seq<char>>) -> bool {
    forall|i: int, j: int|
        0 <= i < j < names.len() ==> !before(#[trigger] names[j], #[trigger] names[i])
}

/// The names in dictionary order.
pub fn sorted_names(names: &Vec<String>) -> (out: Vec<String>)
    ensures
        alphabetical(views(out@)),
        rearranged(views(names@), views(out@)),
{
    let ghost all = views(names@);
    let mut keys: Vec<Key> = Vec::new();
    let mut kept: Vec<usize> = Vec::new();
    let mut i: usize = 0;
    while i < names.len()
        invariant
            all == views(names@),
            i <= names@.len(),
            keys@.len() == i,
            kept@.len() == i,
            forall|k: int|
                0 <= k < i ==> (#[trigger] keys@[k])@ == (KeyModel {
                    rank: 0,
                    group: ""@,
                    name: names@[k]@,
                }),
            forall|k: int| 0 <= k < i ==> (#[trigger] kept@[k]) == k,
        decreases names@.len() - i,
    {
        keys.push(Key { rank: 0, group: "".to_owned(), name: names[i].clone() });
        kept.push(i);
        i = i + 1;
    }
    let order = sorted(&keys, &kept);
    let ghost ks = views(keys@);
    proof {
        assert forall|i: int| 0 <= i < order@.len() implies (#[trigger] order@[i])
            < names@.len() by {
            assert(order@.contains(order@[i]));
            assert(kept@.contains(order@[i]));
        }
    }
    let mut out: Vec<String> = Vec::new();
    let mut j: usize = 0;
    while j < order.len()
        invariant
            all == views(names@),
            forall|i: int| 0 <= i < order@.len() ==> (#[trigger] order@[i]) < names@.len(),
            j <= order@.len(),
            out@.len() == j,
            forall|k: int| 0 <= k < j ==> (#[trigger] out@[k])@ == names@[order@[k] as int]@,
        decreases order@.len() - j,
    {
        out.push(names[order[j]].clone());
        j = j + 1;
    }
    proof {
        let shown = views(out@);
        assert(arranges(order@, all.len() as int));
        assert(shown =~= order@.map_values(|i: usize| all[i as int]));
        assert forall|a: int, b: int| 0 <= a < b < shown.len() implies !before(
            #[trigger] shown[b],
            #[trigger] shown[a],
        ) by {
            assert(may_precede(ks, order@[a], order@[b]));
            assert(ks[order@[a] as int] == keys@[order@[a] as int]@);
            assert(ks[order@[b] as int] == keys@[order@[b] as int]@);
            sorting_is_total(ks[order@[a] as int], ks[order@[b] as int]);
            before_is_strict(shown[a], shown[b]);
        }
    }
    out
}

/// A name is among those rearranged exactly where it was among them before.
pub proof fn rearranging_keeps_names(a: Seq<Seq<char>>, b: Seq<Seq<char>>, i: int)
    requires
        rearranged(a, b),
        0 <= i < b.len(),
    ensures
        a.len() == b.len(),
        a.contains(b[i]),
{
    let order = choose|order: Seq<usize>|
        #![trigger arranges(order, a.len() as int)]
        arranges(order, a.len() as int) && b == order.map_values(|i: usize| a[i as int]);
    assert(b[i] == a[order[i] as int]);
}

} // verus!
