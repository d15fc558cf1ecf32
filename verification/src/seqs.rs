//! Sequences seen through what their elements mean.
use vstd::prelude::*;

verus! {

/// What the elements of `s` mean, in order.
pub open spec fn views<T: View>(s: Seq<T>) -> Seq<T::V> {
    s.map_values(|t: T| t@)
}

/// The elements of `s` that `keep`, taken one further.
pub proof fn filter_step<T>(s: Seq<T>, keep: spec_fn(T) -> bool, i: int)
    requires
        0 <= i < s.len(),
    ensures
        s.take(i + 1).filter(keep) == if keep(s[i]) {
            s.take(i).filter(keep).push(s[i])
        } else {
            s.take(i).filter(keep)
        },
{
    assert(s.take(i + 1) =~= s.take(i).push(s[i]));
    s.take(i).lemma_filter_push(s[i], keep);
}

/// What's kept of a prefix is a prefix of what's kept of the whole.
pub proof fn filter_prefix<T>(s: Seq<T>, keep: spec_fn(T) -> bool, i: int)
    requires
        0 <= i <= s.len(),
    ensures
        s.take(i).filter(keep).len() <= s.filter(keep).len(),
        forall|k: int|
            0 <= k < s.take(i).filter(keep).len() ==> s.filter(keep)[k] == #[trigger] s.take(
                i,
            ).filter(keep)[k],
    decreases s.len() - i,
{
    if i < s.len() {
        filter_prefix(s, keep, i + 1);
        filter_step(s, keep, i);
        assert forall|k: int| 0 <= k < s.take(i).filter(keep).len() implies s.filter(keep)[k]
            == #[trigger] s.take(i).filter(keep)[k] by {
            assert(s.take(i + 1).filter(keep)[k] == s.take(i).filter(keep)[k]);
        }
    } else {
        take_all(s);
    }
}

/// An element that's kept is, among the kept ones, where the number of kept ones before it
/// says.
pub proof fn filter_place<T>(s: Seq<T>, keep: spec_fn(T) -> bool, i: int)
    requires
        0 <= i < s.len(),
        keep(s[i]),
    ensures
        s.take(i).filter(keep).len() < s.filter(keep).len(),
        s.filter(keep)[s.take(i).filter(keep).len() as int] == s[i],
{
    filter_step(s, keep, i);
    filter_prefix(s, keep, i + 1);
    let n = s.take(i).filter(keep).len() as int;
    assert(s.take(i + 1).filter(keep)[n] == s[i]);
}

/// What's kept `k`-th was somewhere, after exactly `k` others that are kept.
pub proof fn filter_at<T>(s: Seq<T>, keep: spec_fn(T) -> bool, k: int)
    requires
        0 <= k < s.filter(keep).len(),
    ensures
        exists|j: int|
            0 <= j < s.len() && s[j] == s.filter(keep)[k] && keep(s[j]) && s.take(j).filter(
                keep,
            ).len() == k,
    decreases s.len(),
{
    if s.len() == 0 {
        assert(s.filter(keep).len() == 0) by {
            reveal_with_fuel(Seq::filter, 1);
        }
    } else {
        let n = s.len() - 1;
        filter_step(s, keep, n);
        take_all(s);
        let rest = s.take(n);
        if k < rest.filter(keep).len() {
            filter_at(rest, keep, k);
            let j = choose|j: int|
                0 <= j < rest.len() && rest[j] == rest.filter(keep)[k] && keep(rest[j])
                    && rest.take(j).filter(keep).len() == k;
            assert(rest.take(j) =~= s.take(j));
            assert(s[j] == s.filter(keep)[k]);
        } else {
            assert(s[n] == s.filter(keep)[k]);
        }
    }
}

/// One more element mapped and kept, or dropped.
pub proof fn filter_map_push<T, U>(s: Seq<T>, f: spec_fn(T) -> Option<U>, t: T)
    ensures
        s.push(t).filter_map(f) == match f(t) {
            Some(u) => s.filter_map(f).push(u),
            None => s.filter_map(f),
        },
{
    assert(s.push(t).drop_last() =~= s);
    match f(t) {
        Some(u) => {
            assert(s.filter_map(f) + seq![u] =~= s.filter_map(f).push(u));
        },
        None => {},
    }
}

/// Where nothing passes, nothing is kept.
pub proof fn nothing_kept<T>(s: Seq<T>, keep: spec_fn(T) -> bool)
    requires
        forall|k: int| 0 <= k < s.len() ==> !keep(#[trigger] s[k]),
    ensures
        s.filter(keep) == Seq::<T>::empty(),
    decreases s.len(),
{
    reveal_with_fuel(Seq::filter, 2);
    if s.len() > 0 {
        nothing_kept(s.drop_last(), keep);
    } else {
        assert(s =~= Seq::<T>::empty());
    }
}

/// Where each element gives nothing, nothing comes out.
pub proof fn nothing_mapped<T, U>(s: Seq<T>, f: spec_fn(T) -> Seq<U>)
    requires
        forall|k: int| 0 <= k < s.len() ==> f(#[trigger] s[k]).len() == 0,
    ensures
        s.flat_map(f) == Seq::<U>::empty(),
    decreases s.len(),
{
    if s.len() > 0 {
        let n = s.len() - 1;
        let rest = s.drop_last();
        nothing_mapped(rest, f);
        rest.lemma_flat_map_push(f, s[n]);
        assert(rest.push(s[n]) =~= s);
        assert(s.flat_map(f) =~= Seq::<U>::empty());
    } else {
        assert(s.flat_map(f) =~= Seq::<U>::empty());
    }
}

/// The first place from `i` on where `p` holds.
pub open spec fn first_from<T>(s: Seq<T>, p: spec_fn(T) -> bool, i: int) -> Option<int>
    decreases s.len() - i,
{
    if i < 0 || i >= s.len() {
        None
    } else if p(s[i]) {
        Some(i)
    } else {
        first_from(s, p, i + 1)
    }
}

/// The first place where `p` holds.
pub open spec fn first_where<T>(s: Seq<T>, p: spec_fn(T) -> bool) -> Option<int> {
    first_from(s, p, 0)
}

/// The place found is the first one where `p` holds.
pub proof fn first_is_right<T>(s: Seq<T>, p: spec_fn(T) -> bool, from: int)
    requires
        0 <= from,
    ensures
        match first_from(s, p, from) {
            Some(i) => from <= i < s.len() && p(s[i]) && forall|k: int|
                from <= k < i ==> !p(#[trigger] s[k]),
            None => forall|k: int| from <= k < s.len() ==> !p(#[trigger] s[k]),
        },
    decreases s.len() - from,
{
    if from < s.len() && !p(s[from]) {
        first_is_right(s, p, from + 1);
    }
}

/// The last place where `p` holds.
pub open spec fn last_where<T>(s: Seq<T>, p: spec_fn(T) -> bool) -> Option<int>
    decreases s.len(),
{
    if s.len() == 0 {
        None
    } else if p(s.last()) {
        Some(s.len() - 1)
    } else {
        last_where(s.drop_last(), p)
    }
}

/// The place found is the last one where `p` holds.
pub proof fn last_is_right<T>(s: Seq<T>, p: spec_fn(T) -> bool)
    ensures
        match last_where(s, p) {
            Some(i) => 0 <= i < s.len() && p(s[i]) && forall|k: int|
                i < k < s.len() ==> !p(#[trigger] s[k]),
            None => forall|k: int| 0 <= k < s.len() ==> !p(#[trigger] s[k]),
        },
    decreases s.len(),
{
    if s.len() > 0 && !p(s.last()) {
        last_is_right(s.drop_last(), p);
        assert forall|k: int| 0 <= k < s.len() - 1 implies s.drop_last()[k] == #[trigger] s[k] by {}
    }
}

/// What's in a sequence with one more element at its end.
pub proof fn push_holds<T>(s: Seq<T>, x: T)
    ensures
        forall|t: T| #[trigger] s.push(x).contains(t) <==> s.contains(t) || t == x,
{
    assert forall|t: T| #[trigger] s.push(x).contains(t) <==> s.contains(t) || t == x by {
        if s.contains(t) {
            let j = choose|j: int| 0 <= j < s.len() && s[j] == t;
            assert(s.push(x)[j] == t);
        }
        if t == x {
            assert(s.push(x)[s.len() as int] == t);
        }
        if s.push(x).contains(t) && t != x {
            let j = choose|j: int| 0 <= j < s.push(x).len() && s.push(x)[j] == t;
            assert(s[j] == t);
        }
    }
}

/// What's in a sequence with one more element in it.
pub proof fn insert_holds<T>(s: Seq<T>, at: int, x: T)
    requires
        0 <= at <= s.len(),
    ensures
        forall|t: T| #[trigger] s.insert(at, x).contains(t) <==> s.contains(t) || t == x,
{
    s.insert_ensures(at, x);
    assert forall|t: T| #[trigger] s.insert(at, x).contains(t) <==> s.contains(t) || t == x by {
        if s.contains(t) {
            let j = choose|j: int| 0 <= j < s.len() && s[j] == t;
            assert(s.insert(at, x)[if j < at {
                j
            } else {
                j + 1
            }] == t);
        }
        if t == x {
            assert(s.insert(at, x)[at] == t);
        }
        if s.insert(at, x).contains(t) && t != x {
            let j = choose|j: int| 0 <= j < s.insert(at, x).len() && s.insert(at, x)[j] == t;
            assert(s[if j < at {
                j
            } else {
                j - 1
            }] == t);
        }
    }
}

/// What `s` maps to, taken one further.
pub proof fn map_step<T, U>(s: Seq<T>, f: spec_fn(T) -> U, i: int)
    requires
        0 <= i < s.len(),
    ensures
        s.take(i + 1).map_values(f) == s.take(i).map_values(f).push(f(s[i])),
{
    assert(s.take(i + 1).map_values(f) =~= s.take(i).map_values(f).push(f(s[i])));
}

/// A prefix as long as the whole is the whole.
pub proof fn take_all<T>(s: Seq<T>)
    ensures
        s.take(s.len() as int) == s,
        s.take(0) == Seq::<T>::empty(),
{
    assert(s.take(s.len() as int) =~= s);
    assert(s.take(0) =~= Seq::<T>::empty());
}

/// Where something fits, there's a first that does.
pub proof fn some_is_first<T>(s: Seq<T>, p: spec_fn(T) -> bool, i: int, k: int)
    requires
        0 <= i <= k < s.len(),
        p(s[k]),
    ensures
        first_from(s, p, i) is Some,
    decreases k - i,
{
    if i < k {
        some_is_first(s, p, i + 1, k);
    }
}

/// Where nothing fits yet, what's added that fits is the first.
pub proof fn added_is_first<T>(s: Seq<T>, p: spec_fn(T) -> bool, x: T, i: int)
    requires
        0 <= i <= s.len(),
        first_from(s, p, i) is None,
        p(x),
    ensures
        first_from(s.push(x), p, i) == Some(s.len() as int),
    decreases s.len() - i,
{
    if i < s.len() {
        assert(s.push(x)[i] == s[i]);
        added_is_first(s, p, x, i + 1);
    } else {
        assert(s.push(x)[i] == x);
    }
}

/// Where the elements that are kept were: each at a later place than the one before it, and
/// none left out.
pub proof fn kept_places<T>(s: Seq<T>, keep: spec_fn(T) -> bool) -> (at: Seq<int>)
    ensures
        at.len() == s.filter(keep).len(),
        forall|k: int|
            0 <= k < at.len() ==> 0 <= (#[trigger] at[k]) < s.len() && s[at[k]] == s.filter(keep)[k]
                && keep(s[at[k]]),
        forall|a: int, b: int| 0 <= a < b < at.len() ==> (#[trigger] at[a]) < (#[trigger] at[b]),
        forall|i: int| 0 <= i < s.len() && keep(#[trigger] s[i]) ==> at.contains(i),
    decreases s.len(),
{
    if s.len() == 0 {
        nothing_kept(s, keep);
        Seq::empty()
    } else {
        let n = s.len() - 1;
        let rest = s.take(n);
        let had = kept_places(rest, keep);
        filter_step(s, keep, n);
        take_all(s);
        let at = if keep(s[n]) {
            had.push(n)
        } else {
            had
        };
        push_holds(had, n);
        assert forall|k: int| 0 <= k < at.len() implies 0 <= (#[trigger] at[k]) < s.len() && s[at[k]]
            == s.filter(keep)[k] && keep(s[at[k]]) by {
            if k < had.len() {
                assert(at[k] == had[k]);
                assert(rest[had[k]] == s[had[k]]);
            }
        }
        assert forall|a: int, b: int| 0 <= a < b < at.len() implies (#[trigger] at[a]) < (
        #[trigger] at[b]) by {
            assert(at[a] == had[a]);
            if b < had.len() {
                assert(at[b] == had[b]);
            }
        }
        assert forall|i: int| 0 <= i < s.len() && keep(#[trigger] s[i]) implies at.contains(i) by {
            if i < n {
                assert(keep(rest[i]));
                assert(had.contains(i));
            } else {
                assert(at[had.len() as int] == n);
            }
        }
        at
    }
}

/// Where the elements that `f` maps were: all of those that it maps, in their order.
pub proof fn mapped_places<T, U>(s: Seq<T>, f: spec_fn(T) -> Option<U>) -> (at: Seq<int>)
    ensures
        at.len() == s.filter_map(f).len(),
        forall|k: int|
            0 <= k < at.len() ==> 0 <= (#[trigger] at[k]) < s.len() && f(s[at[k]]) == Some(
                s.filter_map(f)[k],
            ),
        forall|a: int, b: int| 0 <= a < b < at.len() ==> (#[trigger] at[a]) < (#[trigger] at[b]),
        forall|i: int| 0 <= i < s.len() && f(#[trigger] s[i]) is Some ==> at.contains(i),
    decreases s.len(),
{
    if s.len() == 0 {
        assert(s.filter_map(f).len() == 0);
        Seq::empty()
    } else {
        let n = s.len() - 1;
        let rest = s.drop_last();
        let had = mapped_places(rest, f);
        assert(s =~= rest.push(s[n]));
        filter_map_push(rest, f, s[n]);
        let at = if f(s[n]) is Some {
            had.push(n)
        } else {
            had
        };
        push_holds(had, n);
        assert forall|k: int| 0 <= k < at.len() implies 0 <= (#[trigger] at[k]) < s.len() && f(
            s[at[k]],
        ) == Some(s.filter_map(f)[k]) by {
            if k < had.len() {
                assert(at[k] == had[k]);
                assert(rest[had[k]] == s[at[k]]);
            }
        }
        assert forall|a: int, b: int| 0 <= a < b < at.len() implies (#[trigger] at[a]) < (
        #[trigger] at[b]) by {
            assert(at[a] == had[a]);
            if b < had.len() {
                assert(at[b] == had[b]);
            }
        }
        assert forall|i: int| 0 <= i < s.len() && f(#[trigger] s[i]) is Some implies at.contains(
            i,
        ) by {
            if i < n {
                assert(rest[i] == s[i]);
                assert(had.contains(i));
            } else {
                assert(at[had.len() as int] == n);
            }
        }
        at
    }
}

} // verus!
