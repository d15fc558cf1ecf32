//! Where each clip of the open timeline is, worked out once for each version of the project.
use crate::doc::{
    ids_differ, is_at, item_of, place_is_right, place_of, Item, ItemId, ItemModel, SeqId, Sequence, SequenceModel,
};
use std::collections::HashMap;
use vstd::prelude::*;

verus! {

broadcast use vstd::std_specs::hash::group_hash_axioms;

/// What an index was worked out for: the project's revision, its snapshot and the timeline.
#[derive(Copy, Clone, Debug, PartialEq, Eq, Structural)]
pub struct Version {
    pub revision: u64,
    pub snapshot: u64,
    pub seq: SeqId,
}

/// Where each clip is (its track, and its place there).
pub struct ClipIndex {
    version: Option<Version>,
    places: HashMap<u64, (usize, usize)>,
}

/// Where each clip is, up to (not with) place `i` of track `t`. Of clips that share an id,
/// the last counts.
pub open spec fn places_before(s: SequenceModel, t: int, i: int) -> Map<u64, (usize, usize)>
    decreases t, i,
{
    if i > 0 {
        places_before(s, t, i - 1).insert(s.tracks[t].items[i - 1].id.0, (t as usize, (i - 1) as usize))
    } else if t > 0 {
        places_before(s, t - 1, s.tracks[t - 1].items.len() as int)
    } else {
        Map::empty()
    }
}

/// Where each clip of the timeline is.
pub open spec fn all_places(s: SequenceModel) -> Map<u64, (usize, usize)> {
    places_before(s, s.tracks.len() as int, 0)
}

/// What's found through an index: nothing for a clip that isn't in it; a place that doesn't
/// hold the clip any more is looked up on the timeline.
pub open spec fn found_through(places: Map<u64, (usize, usize)>, s: SequenceModel, id: ItemId) -> Option<
    ItemModel,
> {
    if !places.contains_key(id.0) {
        None
    } else {
        let (t, i) = places[id.0];
        if is_at(s, id, t as int, i as int) {
            Some(s.tracks[t as int].items[i as int])
        } else {
            item_of(s, id)
        }
    }
}

impl ClipIndex {
    /// What it was worked out for.
    pub closed spec fn made_for(&self) -> Option<Version> {
        self.version
    }

    /// The places in it.
    pub closed spec fn places(&self) -> Map<u64, (usize, usize)> {
        self.places@
    }

    /// It's right for the timeline, if it was worked out for this version of it.
    pub open spec fn is_right(&self, s: SequenceModel, version: Version) -> bool {
        self.made_for() == Some(version) ==> self.places() == all_places(s)
    }

    pub fn new() -> (out: ClipIndex)
        ensures
            out.made_for() is None,
            out.places() == Map::<u64, (usize, usize)>::empty(),
    {
        ClipIndex { version: None, places: HashMap::new() }
    }

    /// Works the places out anew.
    fn rebuild(&mut self, s: &Sequence, version: Version)
        ensures
            final(self).made_for() == Some(version),
            final(self).places() == all_places(s@),
    {
        self.places.clear();
        let mut t: usize = 0;
        while t < s.tracks.len()
            invariant
                t <= s.tracks@.len(),
                self.places@ == places_before(s@, t as int, 0),
            decreases s.tracks@.len() - t,
        {
            let items = &s.tracks[t].items;
            let mut i: usize = 0;
            assert(s@.tracks[t as int] == s.tracks@[t as int]@);
            while i < items.len()
                invariant
                    t < s.tracks@.len(),
                    items == s.tracks@[t as int].items,
                    s@.tracks[t as int] == s.tracks@[t as int]@,
                    i <= items@.len(),
                    self.places@ == places_before(s@, t as int, i as int),
                decreases items@.len() - i,
            {
                assert(s@.tracks[t as int].items[i as int] == items@[i as int]@);
                self.places.insert(items[i].id.0, (t, i));
                i = i + 1;
            }
            t = t + 1;
        }
        self.version = Some(version);
    }

    /// The clip with the id on the timeline, as it is at `version`. The places are worked
    /// out anew only where they weren't for this version.
    pub fn find<'a>(&mut self, s: &'a Sequence, version: Version, id: ItemId) -> (out: Option<&'a Item>)
        ensures
            id == s.background.id ==> *final(self) == *old(self) && (out matches Some(it) && it@
                == s.background@),
            id != s.background.id ==> final(self).made_for() == Some(version) && final(self).places()
                == (if old(self).made_for() == Some(version) {
                old(self).places()
            } else {
                all_places(s@)
            }) && (match out {
                Some(it) => found_through(final(self).places(), s@, id) == Some(it@),
                None => found_through(final(self).places(), s@, id) is None,
            }),
            out matches Some(it) ==> it.id == id,
            old(self).is_right(s@, version) ==> final(self).is_right(s@, version),
    {
        if id == s.background.id {
            return Some(&s.background);
        }
        let known = match self.version {
            Some(v) => v == version,
            None => false,
        };
        if !known {
            self.rebuild(s, version);
        }
        match self.places.get(&id.0) {
            None => None,
            Some(place) => {
                let (t, i) = *place;
                if t < s.tracks.len() {
                    assert(s@.tracks[t as int] == s.tracks@[t as int]@);
                    if i < s.tracks[t].items.len() {
                        assert(s@.tracks[t as int].items[i as int] == s.tracks@[t as int].items@[i as int]@);
                        if s.tracks[t].items[i].id == id {
                            return Some(&s.tracks[t].items[i]);
                        }
                    }
                }
                s.item(id)
            },
        }
    }
}

/// A place that was noted holds its clip, and every clip up to there was noted.
proof fn places_are_right(s: SequenceModel, t: int, i: int, id: ItemId)
    requires
        0 <= t <= s.tracks.len(),
        t < s.tracks.len() ==> 0 <= i <= s.tracks[t].items.len(),
        t == s.tracks.len() ==> i == 0,
        s.tracks.len() <= usize::MAX,
        forall|u: int| 0 <= u < s.tracks.len() ==> (#[trigger] s.tracks[u]).items.len() <= usize::MAX,
    ensures
        ({
            let places = places_before(s, t, i);
            &&& places.contains_key(id.0) ==> is_at(
                s,
                id,
                places[id.0].0 as int,
                places[id.0].1 as int,
            )
            &&& forall|u: int, j: int|
                #[trigger] is_at(s, id, u, j) && (u < t || (u == t && j < i)) ==> places.contains_key(
                    id.0,
                )
        }),
    decreases t, i,
{
    if i > 0 {
        places_are_right(s, t, i - 1, id);
        assert(s.tracks[t].items.len() <= usize::MAX);
        assert(s.tracks[t].items[i - 1].id.0 == id.0 ==> s.tracks[t].items[i - 1].id == id);
    } else if t > 0 {
        places_are_right(s, t - 1, s.tracks[t - 1].items.len() as int, id);
    }
}

/// A clip found through the index is the clip on the timeline: none is missed, and none
/// that's gone is found.
pub proof fn the_index_is_never_stale(s: SequenceModel, id: ItemId)
    requires
        ids_differ(s),
        id != s.background.id,
        s.tracks.len() <= usize::MAX,
        forall|u: int| 0 <= u < s.tracks.len() ==> (#[trigger] s.tracks[u]).items.len() <= usize::MAX,
    ensures
        found_through(all_places(s), s, id) == item_of(s, id),
{
    places_are_right(s, s.tracks.len() as int, 0, id);
    place_is_right(s, id, 0, 0);
    let places = all_places(s);
    match place_of(s, id) {
        Some((t, i)) => {
            assert(is_at(s, id, t, i));
            assert(places.contains_key(id.0));
            assert(is_at(s, id, places[id.0].0 as int, places[id.0].1 as int));
        },
        None => {
            if places.contains_key(id.0) {
                assert(is_at(s, id, places[id.0].0 as int, places[id.0].1 as int));
            }
        },
    }
}

} // verus!
