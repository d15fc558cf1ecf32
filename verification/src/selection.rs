//! Which clips are selected: a set that keeps to groups, and the primary one among them.
use crate::doc::{has_item, holds_id, is_at, item_of, ItemId, Sequence, SequenceModel, Time};
use crate::seqs::{insert_holds, push_holds, take_all};
use vstd::prelude::*;

verus! {

/// In order of their ids, each once.
pub open spec fn is_id_set(ids: Seq<ItemId>) -> bool {
    forall|i: int, j: int| 0 <= i < j < ids.len() ==> (#[trigger] ids[i]).0 < (#[trigger] ids[j]).0
}

/// Adds an id to the set.
pub fn add_id(ids: &mut Vec<ItemId>, id: ItemId)
    requires
        is_id_set(old(ids)@),
    ensures
        is_id_set(final(ids)@),
        forall|x: ItemId| #[trigger] final(ids)@.contains(x) <==> old(ids)@.contains(x) || x == id,
{
    let mut at: usize = 0;
    while at < ids.len() && ids[at].0 < id.0
        invariant
            at <= ids@.len(),
            is_id_set(ids@),
            forall|j: int| 0 <= j < at ==> (#[trigger] ids@[j]).0 < id.0,
        ensures
            at < ids@.len() ==> ids@[at as int].0 >= id.0,
        decreases ids@.len() - at,
    {
        at = at + 1;
    }
    if at < ids.len() && ids[at].0 == id.0 {
        assert(ids@[at as int] == id);
        return;
    }
    let ghost had = ids@;
    ids.insert(at, id);
    proof {
        had.insert_ensures(at as int, id);
        insert_holds(had, at as int, id);
    }
}

/// Adds the ids to the set.
pub fn add_ids(ids: &mut Vec<ItemId>, more: &Vec<ItemId>)
    requires
        is_id_set(old(ids)@),
    ensures
        is_id_set(final(ids)@),
        forall|x: ItemId| #[trigger]
            final(ids)@.contains(x) <==> old(ids)@.contains(x) || more@.contains(x),
{
    let ghost had = ids@;
    let mut i: usize = 0;
    while i < more.len()
        invariant
            i <= more@.len(),
            is_id_set(ids@),
            forall|x: ItemId| #[trigger]
                ids@.contains(x) <==> had.contains(x) || more@.take(i as int).contains(x),
        decreases more@.len() - i,
    {
        proof {
            assert(more@.take(i + 1) =~= more@.take(i as int).push(more@[i as int]));
            push_holds(more@.take(i as int), more@[i as int]);
        }
        add_id(ids, more[i]);
        i = i + 1;
    }
    proof {
        take_all(more@);
    }
}

/// The ids that aren't in `gone`.
pub fn without(ids: &Vec<ItemId>, gone: &Vec<ItemId>) -> (out: Vec<ItemId>)
    requires
        is_id_set(ids@),
    ensures
        is_id_set(out@),
        forall|x: ItemId| #[trigger]
            out@.contains(x) <==> ids@.contains(x) && !gone@.contains(x),
{
    let mut out: Vec<ItemId> = Vec::new();
    let mut i: usize = 0;
    while i < ids.len()
        invariant
            is_id_set(ids@),
            i <= ids@.len(),
            is_id_set(out@),
            forall|j: int|
                0 <= j < out@.len() && i < ids@.len() ==> (#[trigger] out@[j]).0 < ids@[i as int].0,
            forall|x: ItemId| #[trigger]
                out@.contains(x) <==> ids@.take(i as int).contains(x) && !gone@.contains(x),
        decreases ids@.len() - i,
    {
        proof {
            assert(ids@.take(i + 1) =~= ids@.take(i as int).push(ids@[i as int]));
            push_holds(ids@.take(i as int), ids@[i as int]);
        }
        if !holds_id(gone, ids[i]) {
            proof {
                push_holds(out@, ids@[i as int]);
            }
            out.push(ids[i]);
        }
        i = i + 1;
    }
    proof {
        take_all(ids@);
    }
    out
}

/// What's selected. `members` are in order of their ids.
pub struct Selection {
    /// The clip the inspector shows.
    pub primary: Option<ItemId>,
    pub members: Vec<ItemId>,
}

impl Selection {
    pub open spec fn well_formed(&self) -> bool {
        is_id_set(self.members@)
    }

    /// The member with the highest id.
    pub open spec fn last_member(&self) -> Option<ItemId> {
        if self.members@.len() == 0 {
            None
        } else {
            Some(self.members@.last())
        }
    }
}

fn last_of(ids: &Vec<ItemId>) -> (out: Option<ItemId>)
    ensures
        out == if ids@.len() == 0 {
            None
        } else {
            Some(ids@.last())
        },
{
    let n: usize = ids.len();
    if n == 0 {
        None
    } else {
        Some(ids[n - 1])
    }
}

/// The clip is in group `g`.
pub open spec fn in_group(s: SequenceModel, id: ItemId, g: u64) -> bool {
    item_of(s, id) matches Some(it) && it.group == Some(g)
}

/// A clip on a track that shares a group with one of `items`.
pub open spec fn grouped_with(s: SequenceModel, items: Seq<ItemId>, id: ItemId) -> bool {
    exists|t: int, i: int, m: ItemId|
        #![trigger is_at(s, id, t, i), items.contains(m)]
        is_at(s, id, t, i) && items.contains(m) && s.tracks[t].items[i].group is Some && in_group(
            s,
            m,
            s.tracks[t].items[i].group->0,
        )
}

/// `items` plus every clip grouped with any of them.
pub open spec fn in_groups(s: SequenceModel, items: Seq<ItemId>, id: ItemId) -> bool {
    items.contains(id) || grouped_with(s, items, id)
}

/// The groups that the clips are in.
fn groups_of(s: &Sequence, items: &Vec<ItemId>) -> (out: Vec<u64>)
    ensures
        forall|g: u64| #[trigger]
            out@.contains(g) <==> exists|m: ItemId| #[trigger] items@.contains(m) && in_group(s@, m, g),
{
    let mut out: Vec<u64> = Vec::new();
    let mut i: usize = 0;
    while i < items.len()
        invariant
            i <= items@.len(),
            forall|g: u64| #[trigger]
                out@.contains(g) <==> exists|k: int|
                    0 <= k < i && in_group(s@, #[trigger] items@[k], g),
        decreases items@.len() - i,
    {
        let ghost had = out@;
        if let Some(it) = s.item(items[i]) {
            if let Some(g) = it.group {
                out.push(g);
                proof {
                    push_holds(had, g);
                    assert(in_group(s@, items@[i as int], g));
                }
            }
        }
        assert forall|g: u64| #[trigger] out@.contains(g) <==> exists|k: int|
            0 <= k < i + 1 && in_group(s@, #[trigger] items@[k], g) by {
            if out@.contains(g) && had.contains(g) {
                let k = choose|k: int| 0 <= k < i && in_group(s@, #[trigger] items@[k], g);
                assert(in_group(s@, items@[k], g));
            }
            if exists|k: int| 0 <= k < i + 1 && in_group(s@, #[trigger] items@[k], g) {
                let k = choose|k: int| 0 <= k < i + 1 && in_group(s@, #[trigger] items@[k], g);
                if k < i {
                    assert(had.contains(g));
                }
            }
        }
        i = i + 1;
    }
    assert forall|g: u64| #[trigger] out@.contains(g) <==> exists|m: ItemId| #[trigger]
        items@.contains(m) && in_group(s@, m, g) by {
        if out@.contains(g) {
            let k = choose|k: int| 0 <= k < items@.len() && in_group(s@, #[trigger] items@[k], g);
            assert(items@.contains(items@[k]));
        }
        if exists|m: ItemId| #[trigger] items@.contains(m) && in_group(s@, m, g) {
            let m = choose|m: ItemId| #[trigger] items@.contains(m) && in_group(s@, m, g);
            let k = choose|k: int| 0 <= k < items@.len() && items@[k] == m;
            assert(in_group(s@, items@[k], g));
        }
    }
    out
}

fn holds_group(groups: &Vec<u64>, g: u64) -> (out: bool)
    ensures
        out == groups@.contains(g),
{
    let mut i: usize = 0;
    while i < groups.len()
        invariant
            i <= groups@.len(),
            forall|k: int| 0 <= k < i ==> groups@[k] != g,
        decreases groups@.len() - i,
    {
        if groups[i] == g {
            return true;
        }
        i = i + 1;
    }
    false
}

/// A clip of the first `t` tracks, or of the first `i` places of track `t`, whose group is
/// among `groups`.
spec fn seen(s: SequenceModel, groups: Seq<u64>, id: ItemId, t: int, i: int) -> bool {
    exists|u: int, j: int| #[trigger]
        is_at(s, id, u, j) && (u < t || (u == t && j < i)) && s.tracks[u].items[j].group is Some
            && groups.contains(s.tracks[u].items[j].group->0)
}

/// `items` plus every clip grouped with any of them.
pub fn with_groups(s: &Sequence, items: &Vec<ItemId>) -> (out: Vec<ItemId>)
    ensures
        is_id_set(out@),
        forall|x: ItemId| #[trigger] out@.contains(x) <==> in_groups(s@, items@, x),
{
    let mut out: Vec<ItemId> = Vec::new();
    add_ids(&mut out, items);
    let groups = groups_of(s, items);
    let mut t: usize = 0;
    while t < s.tracks.len()
        invariant
            t <= s.tracks@.len(),
            is_id_set(out@),
            forall|x: ItemId| #[trigger]
                out@.contains(x) <==> items@.contains(x) || seen(s@, groups@, x, t as int, 0),
        decreases s.tracks@.len() - t,
    {
        assert(s@.tracks[t as int] == s.tracks@[t as int]@);
        let all = &s.tracks[t].items;
        let mut i: usize = 0;
        while i < all.len()
            invariant
                t < s.tracks@.len(),
                s@.tracks[t as int] == s.tracks@[t as int]@,
                all == s.tracks@[t as int].items,
                i <= all@.len(),
                is_id_set(out@),
                forall|x: ItemId| #[trigger]
                    out@.contains(x) <==> items@.contains(x) || seen(
                        s@,
                        groups@,
                        x,
                        t as int,
                        i as int,
                    ),
            decreases all@.len() - i,
        {
            let it = &all[i];
            assert(s@.tracks[t as int].items[i as int] == all@[i as int]@);
            let ghost had = out@;
            let mut take = false;
            if let Some(g) = it.group {
                take = holds_group(&groups, g);
            }
            if take {
                add_id(&mut out, it.id);
            }
            assert forall|x: ItemId| #[trigger] out@.contains(x) <==> items@.contains(x) || seen(
                s@,
                groups@,
                x,
                t as int,
                i + 1,
            ) by {
                if seen(s@, groups@, x, t as int, i as int) {
                    let (u, j) = choose|u: int, j: int| #[trigger]
                        is_at(s@, x, u, j) && (u < t || (u == t && j < i))
                            && s@.tracks[u].items[j].group is Some && groups@.contains(
                            s@.tracks[u].items[j].group->0,
                        );
                    assert(is_at(s@, x, u, j));
                }
                if take && x == it.id {
                    assert(is_at(s@, x, t as int, i as int));
                }
                if seen(s@, groups@, x, t as int, i + 1) {
                    let (u, j) = choose|u: int, j: int| #[trigger]
                        is_at(s@, x, u, j) && (u < t || (u == t && j < i + 1))
                            && s@.tracks[u].items[j].group is Some && groups@.contains(
                            s@.tracks[u].items[j].group->0,
                        );
                    if u == t && j == i {
                        assert(take && x == it.id);
                    } else {
                        assert(is_at(s@, x, u, j));
                        assert(seen(s@, groups@, x, t as int, i as int));
                    }
                }
                assert(had.contains(x) || !had.contains(x));
            }
            i = i + 1;
        }
        assert forall|x: ItemId| #[trigger] out@.contains(x) <==> items@.contains(x) || seen(
            s@,
            groups@,
            x,
            t + 1,
            0,
        ) by {
            if seen(s@, groups@, x, t as int, i as int) {
                let (u, j) = choose|u: int, j: int| #[trigger]
                    is_at(s@, x, u, j) && (u < t || (u == t && j < i))
                        && s@.tracks[u].items[j].group is Some && groups@.contains(
                        s@.tracks[u].items[j].group->0,
                    );
                assert(is_at(s@, x, u, j));
            }
            if seen(s@, groups@, x, t + 1, 0) {
                let (u, j) = choose|u: int, j: int| #[trigger]
                    is_at(s@, x, u, j) && (u < t + 1 || (u == t + 1 && j < 0))
                        && s@.tracks[u].items[j].group is Some && groups@.contains(
                        s@.tracks[u].items[j].group->0,
                    );
                assert(is_at(s@, x, u, j));
                assert(seen(s@, groups@, x, t as int, i as int));
            }
        }
        t = t + 1;
    }
    assert forall|x: ItemId| #[trigger] out@.contains(x) <==> in_groups(s@, items@, x) by {
        if seen(s@, groups@, x, t as int, 0) {
            let (u, j) = choose|u: int, j: int| #[trigger]
                is_at(s@, x, u, j) && (u < t || (u == t && j < 0))
                    && s@.tracks[u].items[j].group is Some && groups@.contains(
                    s@.tracks[u].items[j].group->0,
                );
            let g = s@.tracks[u].items[j].group->0;
            let m = choose|m: ItemId| #[trigger] items@.contains(m) && in_group(s@, m, g);
            assert(is_at(s@, x, u, j) && items@.contains(m));
        }
        if grouped_with(s@, items@, x) {
            let (u, j, m) = choose|u: int, j: int, m: ItemId|
                #![trigger is_at(s@, x, u, j), items@.contains(m)]
                is_at(s@, x, u, j) && items@.contains(m) && s@.tracks[u].items[j].group is Some
                    && in_group(s@, m, s@.tracks[u].items[j].group->0);
            assert(groups@.contains(s@.tracks[u].items[j].group->0));
            assert(is_at(s@, x, u, j));
            assert(seen(s@, groups@, x, t as int, 0));
        }
    }
    out
}

/// The ids of clips that are (still) there.
fn kept(s: &Sequence, ids: &Vec<ItemId>) -> (out: Vec<ItemId>)
    requires
        is_id_set(ids@),
    ensures
        is_id_set(out@),
        forall|x: ItemId| #[trigger]
            out@.contains(x) <==> ids@.contains(x) && item_of(s@, x) is Some,
{
    let mut out: Vec<ItemId> = Vec::new();
    let mut i: usize = 0;
    while i < ids.len()
        invariant
            is_id_set(ids@),
            i <= ids@.len(),
            is_id_set(out@),
            forall|j: int|
                0 <= j < out@.len() && i < ids@.len() ==> (#[trigger] out@[j]).0 < ids@[i as int].0,
            forall|x: ItemId| #[trigger]
                out@.contains(x) <==> ids@.take(i as int).contains(x) && item_of(s@, x) is Some,
        decreases ids@.len() - i,
    {
        proof {
            assert(ids@.take(i + 1) =~= ids@.take(i as int).push(ids@[i as int]));
            push_holds(ids@.take(i as int), ids@[i as int]);
        }
        if s.item(ids[i]).is_some() {
            proof {
                push_holds(out@, ids@[i as int]);
            }
            out.push(ids[i]);
        }
        i = i + 1;
    }
    proof {
        take_all(ids@);
    }
    out
}

/// The members once the selection is made consistent: a primary outside them starts a new
/// selection; clips that are gone drop out.
pub open spec fn synced(s: SequenceModel, was: Selection, x: ItemId) -> bool {
    item_of(s, x) is Some && match was.primary {
        None => false,
        Some(p) => if was.members@.contains(p) {
            was.members@.contains(x)
        } else {
            in_groups(s, seq![p], x)
        },
    }
}

/// Making `was` consistent gives `now`. A primary that's gone hands over to the last member.
pub open spec fn sync_gives(s: SequenceModel, was: Selection, now: Selection) -> bool {
    &&& now.well_formed()
    &&& forall|x: ItemId| #[trigger] now.members@.contains(x) <==> synced(s, was, x)
    &&& now.primary == match was.primary {
        Some(p) => if now.members@.contains(p) {
            Some(p)
        } else {
            now.last_member()
        },
        None => None,
    }
}

impl Selection {
    /// Keeps the members consistent with the primary clip, which is set directly: a new
    /// primary outside them starts a new selection; deleted clips drop out.
    pub fn sync_selection(&mut self, s: &Sequence)
        requires
            old(self).well_formed(),
        ensures
            sync_gives(s@, *old(self), *final(self)),
    {
        let ghost was = *self;
        match self.primary {
            None => {
                self.members = Vec::new();
            },
            Some(p) => {
                if !holds_id(&self.members, p) {
                    let mut one: Vec<ItemId> = Vec::new();
                    one.push(p);
                    assert(one@ =~= seq![p]);
                    self.members = with_groups(s, &one);
                }
            },
        }
        self.members = kept(s, &self.members);
        if let Some(p) = self.primary {
            if !holds_id(&self.members, p) {
                self.primary = last_of(&self.members);
            }
        }
    }

    /// Selects a clip (and its group). `add`: toggle it in the current selection.
    pub fn select_clip(&mut self, s: &Sequence, id: ItemId, add: bool)
        requires
            old(self).well_formed(),
        ensures
            final(self).well_formed(),
            add && old(self).members@.contains(id) ==> {
                &&& forall|x: ItemId| #[trigger]
                    final(self).members@.contains(x) <==> old(self).members@.contains(x)
                        && !in_groups(s@, seq![id], x)
                &&& final(self).primary == final(self).last_member()
            },
            add && !old(self).members@.contains(id) ==> {
                &&& forall|x: ItemId| #[trigger]
                    final(self).members@.contains(x) <==> old(self).members@.contains(x)
                        || in_groups(s@, seq![id], x)
                &&& final(self).primary == Some(id)
            },
            !add ==> {
                &&& forall|x: ItemId| #[trigger]
                    final(self).members@.contains(x) <==> in_groups(s@, seq![id], x)
                &&& final(self).primary == Some(id)
            },
    {
        let mut one: Vec<ItemId> = Vec::new();
        one.push(id);
        assert(one@ =~= seq![id]);
        let members = with_groups(s, &one);
        if add {
            if holds_id(&self.members, id) {
                self.members = without(&self.members, &members);
                self.primary = last_of(&self.members);
                return;
            }
            let mut all = without(&self.members, &Vec::new());
            add_ids(&mut all, &members);
            self.members = all;
        } else {
            self.members = members;
        }
        self.primary = Some(id);
    }

    /// Selects every clip.
    pub fn select_all(&mut self, s: &Sequence)
        ensures
            final(self).well_formed(),
            forall|x: ItemId| #[trigger] final(self).members@.contains(x) <==> has_item(s@, x),
            final(self).primary == final(self).last_member(),
    {
        self.members = all_ids(s);
        self.primary = last_of(&self.members);
    }

    /// Selects exactly the clips just placed; the last of them is the primary one.
    pub fn select_placed(&mut self, ids: &Vec<ItemId>)
        ensures
            final(self).well_formed(),
            forall|x: ItemId| #[trigger] final(self).members@.contains(x) <==> ids@.contains(x),
            final(self).primary == if ids@.len() == 0 {
                None
            } else {
                Some(ids@.last())
            },
    {
        let mut members: Vec<ItemId> = Vec::new();
        add_ids(&mut members, ids);
        self.members = members;
        self.primary = last_of(ids);
    }

    /// Selects the clips of a section (and their groups).
    pub fn select_section(&mut self, s: &Sequence, ids: &Vec<ItemId>)
        ensures
            final(self).well_formed(),
            forall|x: ItemId| #[trigger]
                final(self).members@.contains(x) <==> in_groups(s@, ids@, x),
            final(self).primary == if ids@.len() == 0 {
                None
            } else {
                Some(ids@.last())
            },
    {
        self.members = with_groups(s, ids);
        self.primary = last_of(ids);
    }

    /// Selects nothing.
    pub fn clear(&mut self)
        ensures
            final(self).members@.len() == 0,
            final(self).primary is None,
            final(self).well_formed(),
    {
        self.members = Vec::new();
        self.primary = None;
    }
}

/// Every clip's id.
fn all_ids(s: &Sequence) -> (out: Vec<ItemId>)
    ensures
        is_id_set(out@),
        forall|x: ItemId| #[trigger] out@.contains(x) <==> has_item(s@, x),
{
    let mut out: Vec<ItemId> = Vec::new();
    let mut t: usize = 0;
    while t < s.tracks.len()
        invariant
            t <= s.tracks@.len(),
            is_id_set(out@),
            forall|x: ItemId| #[trigger] out@.contains(x) <==> met(s@, x, t as int, 0),
        decreases s.tracks@.len() - t,
    {
        assert(s@.tracks[t as int] == s.tracks@[t as int]@);
        let all = &s.tracks[t].items;
        let mut i: usize = 0;
        while i < all.len()
            invariant
                t < s.tracks@.len(),
                s@.tracks[t as int] == s.tracks@[t as int]@,
                all == s.tracks@[t as int].items,
                i <= all@.len(),
                is_id_set(out@),
                forall|x: ItemId| #[trigger] out@.contains(x) <==> met(s@, x, t as int, i as int),
            decreases all@.len() - i,
        {
            assert(s@.tracks[t as int].items[i as int] == all@[i as int]@);
            let ghost had = out@;
            add_id(&mut out, all[i].id);
            assert forall|x: ItemId| #[trigger] out@.contains(x) <==> met(
                s@,
                x,
                t as int,
                i + 1,
            ) by {
                if met(s@, x, t as int, i as int) {
                    let (u, j) = choose|u: int, j: int| #[trigger]
                        is_at(s@, x, u, j) && (u < t || (u == t && j < i));
                    assert(is_at(s@, x, u, j));
                }
                if x == all@[i as int].id {
                    assert(is_at(s@, x, t as int, i as int));
                }
                if met(s@, x, t as int, i + 1) {
                    let (u, j) = choose|u: int, j: int| #[trigger]
                        is_at(s@, x, u, j) && (u < t || (u == t && j < i + 1));
                    if !(u == t && j == i) {
                        assert(is_at(s@, x, u, j));
                        assert(met(s@, x, t as int, i as int));
                    }
                }
                assert(had.contains(x) || !had.contains(x));
            }
            i = i + 1;
        }
        assert forall|x: ItemId| #[trigger] out@.contains(x) <==> met(s@, x, t + 1, 0) by {
            if met(s@, x, t as int, i as int) {
                let (u, j) = choose|u: int, j: int| #[trigger]
                    is_at(s@, x, u, j) && (u < t || (u == t && j < i));
                assert(is_at(s@, x, u, j));
            }
            if met(s@, x, t + 1, 0) {
                let (u, j) = choose|u: int, j: int| #[trigger]
                    is_at(s@, x, u, j) && (u < t + 1 || (u == t + 1 && j < 0));
                assert(is_at(s@, x, u, j));
                assert(met(s@, x, t as int, i as int));
            }
        }
        t = t + 1;
    }
    assert forall|x: ItemId| #[trigger] out@.contains(x) <==> has_item(s@, x) by {
        if has_item(s@, x) {
            let (u, j) = choose|u: int, j: int| is_at(s@, x, u, j);
            assert(is_at(s@, x, u, j));
            assert(met(s@, x, t as int, 0));
        }
    }
    out
}

/// A clip of the first `t` tracks, or of the first `i` places of track `t`.
spec fn met(s: SequenceModel, id: ItemId, t: int, i: int) -> bool {
    exists|u: int, j: int| #[trigger] is_at(s, id, u, j) && (u < t || (u == t && j < i))
}

/// After it's made consistent, the primary clip is selected and everything selected is
/// there.
pub proof fn synced_is_consistent(s: SequenceModel, was: Selection, now: Selection)
    requires
        was.well_formed(),
        sync_gives(s, was, now),
    ensures
        now.primary matches Some(p) ==> now.members@.contains(p),
        now.primary is None ==> now.members@.len() == 0,
        forall|x: ItemId| #[trigger] now.members@.contains(x) ==> item_of(s, x) is Some,
{
    if was.primary is None && now.members@.len() > 0 {
        assert(now.members@.contains(now.members@[0]));
    }
    if now.members@.len() > 0 {
        assert(now.members@.contains(now.members@.last()));
    }
}

/// Making it consistent twice changes nothing more.
pub proof fn syncing_again_changes_nothing(
    s: SequenceModel,
    was: Selection,
    once: Selection,
    twice: Selection,
)
    requires
        was.well_formed(),
        sync_gives(s, was, once),
        sync_gives(s, once, twice),
    ensures
        twice.primary == once.primary,
        twice.members@ == once.members@,
{
    synced_is_consistent(s, was, once);
    assert forall|x: ItemId| #[trigger] twice.members@.contains(x) <==> once.members@.contains(x) by {
        if once.primary is None && once.members@.contains(x) {
            assert(false);
        }
    }
    same_set_same_order(twice.members@, once.members@);
}

/// Sets that hold the same ids list them alike.
proof fn same_set_same_order(a: Seq<ItemId>, b: Seq<ItemId>)
    requires
        is_id_set(a),
        is_id_set(b),
        forall|x: ItemId| #[trigger] a.contains(x) <==> b.contains(x),
    ensures
        a == b,
    decreases a.len(),
{
    if a.len() == 0 {
        if b.len() > 0 {
            assert(a.contains(b[0]));
        }
        assert(a =~= b);
    } else {
        let x = a.last();
        assert(a.contains(x) && b.contains(x));
        let i = choose|i: int| 0 <= i < b.len() && b[i] == x;
        let y = b.last();
        assert(a.contains(y));
        let j = choose|j: int| 0 <= j < a.len() && a[j] == y;
        assert(i == b.len() - 1);
        let (c, d) = (a.drop_last(), b.drop_last());
        assert forall|z: ItemId| #[trigger] c.contains(z) <==> d.contains(z) by {
            if c.contains(z) {
                let k = choose|k: int| 0 <= k < c.len() && c[k] == z;
                assert(a[k] == z && k < a.len() - 1);
                assert(a.contains(z));
                assert(b.contains(z));
                let m = choose|m: int| 0 <= m < b.len() && b[m] == z;
                assert(b[m].0 < y.0);
                assert(d[m] == z);
            }
            if d.contains(z) {
                let k = choose|k: int| 0 <= k < d.len() && d[k] == z;
                assert(b[k] == z);
                assert(b.contains(z) && a.contains(z));
                let m = choose|m: int| 0 <= m < a.len() && a[m] == z;
                assert(c[m] == z);
            }
        }
        same_set_same_order(c, d);
        assert(a =~= c.push(x));
        assert(b =~= d.push(y));
    }
}

// ---- in timeline order ----

/// Earlier clips first; of two that start together, the one with the lower id.
pub open spec fn goes_first(s: SequenceModel, a: ItemId, b: ItemId) -> bool {
    item_of(s, a) matches Some(x) && item_of(s, b) matches Some(y) && (x.range.start.0
        < y.range.start.0 || (x.range.start.0 == y.range.start.0 && a.0 < b.0))
}

/// In timeline order.
pub open spec fn in_timeline_order(s: SequenceModel, ids: Seq<ItemId>) -> bool {
    forall|i: int, j: int|
        0 <= i < j < ids.len() ==> goes_first(s, #[trigger] ids[i], #[trigger] ids[j])
}

/// The selected clips, in timeline order.
pub fn selected_clips(s: &Sequence, members: &Vec<ItemId>) -> (out: Vec<ItemId>)
    requires
        is_id_set(members@),
    ensures
        in_timeline_order(s@, out@),
        forall|x: ItemId| #[trigger]
            out@.contains(x) <==> members@.contains(x) && item_of(s@, x) is Some,
{
    let mut out: Vec<ItemId> = Vec::new();
    let mut starts: Vec<Time> = Vec::new();
    let mut i: usize = 0;
    while i < members.len()
        invariant
            is_id_set(members@),
            i <= members@.len(),
            starts@.len() == out@.len(),
            forall|j: int|
                0 <= j < out@.len() ==> item_of(s@, #[trigger] out@[j]) is Some && starts@[j]
                    == item_of(s@, out@[j])->0.range.start,
            in_timeline_order(s@, out@),
            forall|x: ItemId| #[trigger]
                out@.contains(x) <==> members@.take(i as int).contains(x) && item_of(
                    s@,
                    x,
                ) is Some,
        decreases members@.len() - i,
    {
        let id = members[i];
        proof {
            assert(members@.take(i + 1) =~= members@.take(i as int).push(id));
            push_holds(members@.take(i as int), id);
            assert forall|j: int| 0 <= j < out@.len() implies (#[trigger] out@[j]).0 < id.0 by {
                assert(out@.contains(out@[j]));
                let k = choose|k: int|
                    0 <= k < members@.take(i as int).len() && members@.take(i as int)[k] == out@[j];
                assert(members@[k].0 < members@[i as int].0);
            }
        }
        if let Some(it) = s.item(id) {
            let start = it.range.start;
            let mut at: usize = out.len();
            while at > 0 && starts[at - 1].0 > start.0
                invariant
                    at <= out@.len(),
                    starts@.len() == out@.len(),
                    forall|j: int| at <= j < out@.len() ==> (#[trigger] starts@[j]).0 > start.0,
                ensures
                    at > 0 ==> starts@[at - 1].0 <= start.0,
                decreases at,
            {
                at = at - 1;
            }
            let ghost had = out@;
            let ghost was = starts@;
            proof {
                assert forall|j: int| 0 <= j < at implies goes_first(s@, #[trigger] had[j], id) by {
                    if j < at - 1 {
                        assert(goes_first(s@, had[j], had[at - 1]));
                    }
                    assert(was[j].0 <= start.0);
                }
                assert forall|j: int| at <= j < had.len() implies goes_first(
                    s@,
                    id,
                    #[trigger] had[j],
                ) by {
                    assert(was[j].0 > start.0);
                }
            }
            out.insert(at, id);
            starts.insert(at, start);
            proof {
                had.insert_ensures(at as int, id);
                was.insert_ensures(at as int, start);
                insert_holds(had, at as int, id);
                assert forall|a: int, b: int| 0 <= a < b < out@.len() implies goes_first(
                    s@,
                    #[trigger] out@[a],
                    #[trigger] out@[b],
                ) by {
                    let x = if a < at {
                        a
                    } else {
                        a - 1
                    };
                    let y = if b < at {
                        b
                    } else {
                        b - 1
                    };
                    if a == at {
                        assert(out@[b] == had[y]);
                    } else if b == at {
                        assert(out@[a] == had[x]);
                    } else {
                        assert(out@[a] == had[x] && out@[b] == had[y]);
                        assert(goes_first(s@, had[x], had[y]));
                    }
                }
            }
        }
        i = i + 1;
    }
    proof {
        take_all(members@);
    }
    out
}

/// Groups are taken whole: a clip on a track comes along just where it shares a group with
/// one of the clips.
pub proof fn groups_are_taken_whole(
    s: SequenceModel,
    items: Seq<ItemId>,
    a: ItemId,
    g: u64,
    t: int,
    i: int,
)
    requires
        0 <= t < s.tracks.len(),
        0 <= i < s.tracks[t].items.len(),
        s.tracks[t].items[i].group == Some(g),
        items.contains(a),
        item_of(s, a) is Some,
        item_of(s, a)->0.group == Some(g),
    ensures
        in_groups(s, items, s.tracks[t].items[i].id),
        in_groups(s, items, a),
{
    let b = s.tracks[t].items[i].id;
    assert(is_at(s, b, t, i));
    assert(in_group(s, a, g));
}

/// Nothing else comes along: a clip that isn't in a group, or whose group none of the clips
/// is in, stays out.
pub proof fn only_groups_come_along(s: SequenceModel, items: Seq<ItemId>, id: ItemId)
    requires
        !items.contains(id),
        in_groups(s, items, id),
    ensures
        exists|t: int, i: int, k: int|
            0 <= t < s.tracks.len() && 0 <= i < s.tracks[t].items.len() && 0 <= k < items.len()
                && (#[trigger] s.tracks[t].items[i]).id == id && s.tracks[t].items[i].group is Some
                && item_of(s, #[trigger] items[k]) is Some && item_of(s, items[k])->0.group
                == s.tracks[t].items[i].group,
{
    let (t, i, m) = choose|t: int, i: int, m: ItemId|
        #![trigger is_at(s, id, t, i), items.contains(m)]
        is_at(s, id, t, i) && items.contains(m) && s.tracks[t].items[i].group is Some && in_group(
            s,
            m,
            s.tracks[t].items[i].group->0,
        );
    let k = choose|k: int| 0 <= k < items.len() && items[k] == m;
    assert(s.tracks[t].items[i].id == id);
    assert(item_of(s, items[k]) is Some);
}

/// A selection has every clip once, and the last of its clips is the newest.
pub proof fn the_newest_clip_is_last(sel: Selection, a: int, b: int)
    requires
        sel.well_formed(),
        0 <= a < b < sel.members@.len(),
    ensures
        sel.members@[a] != sel.members@[b],
        sel.last_member() is Some,
        sel.members@.contains(sel.last_member()->0),
        sel.members@[a].0 < (sel.last_member()->0).0,
{
    let n = sel.members@.len() - 1;
    assert(sel.members@[n] == sel.last_member()->0);
    assert(sel.members@[a].0 < sel.members@[b].0);
    if b < n {
        assert(sel.members@[b].0 < sel.members@[n].0);
    }
}

/// A selection that's made consistent has only clips that are there. Where the clip the
/// inspector shows is one of the selected, it and all others that are still there stay; where
/// it isn't, it and its group are what's selected. Nothing shown, nothing selected.
pub proof fn a_synced_selection_is_of_what_is_there(
    s: SequenceModel,
    was: Selection,
    now: Selection,
    x: ItemId,
)
    requires
        sync_gives(s, was, now),
    ensures
        now.members@.contains(x) ==> item_of(s, x) is Some,
        was.primary is None ==> now.primary is None && !now.members@.contains(x),
        was.primary matches Some(p) ==> {
            &&& was.members@.contains(p) ==> (now.members@.contains(x) <==> was.members@.contains(x)
                && item_of(s, x) is Some)
            &&& !was.members@.contains(p) && item_of(s, p) is Some ==> now.members@.contains(p)
            &&& !was.members@.contains(p) ==> (now.members@.contains(x) <==> item_of(s, x) is Some
                && (x == p || grouped_with(s, seq![p], x)))
            &&& item_of(s, p) is Some ==> now.primary == Some(p)
            &&& item_of(s, p) is None ==> now.primary != Some(p) && (now.primary is None
                || now.members@.contains(now.primary->0))
        },
{
    if let Some(p) = was.primary {
        assert(synced(s, was, x) == now.members@.contains(x));
        if !was.members@.contains(p) {
            assert(seq![p][0] == p);
            assert(in_groups(s, seq![p], p));
            assert(seq![p].contains(x) ==> x == p);
        }
        assert(synced(s, was, p) == now.members@.contains(p));
        if now.members@.len() > 0 {
            assert(now.members@[now.members@.len() - 1] == now.members@.last());
        }
    } else {
        assert(synced(s, was, x) == now.members@.contains(x));
    }
}

/// Clips go in the order they start, older ones first where two start together.
pub proof fn earlier_clips_go_first(s: SequenceModel, a: ItemId, b: ItemId)
    requires
        item_of(s, a) is Some,
        item_of(s, b) is Some,
    ensures
        item_of(s, a)->0.range.start.0 < item_of(s, b)->0.range.start.0 ==> goes_first(s, a, b)
            && !goes_first(s, b, a),
        item_of(s, a)->0.range.start == item_of(s, b)->0.range.start && a.0 < b.0 ==> goes_first(
            s,
            a,
            b,
        ) && !goes_first(s, b, a),
        !goes_first(s, a, a),
{
}

} // verus!
