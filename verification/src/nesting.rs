//! Making clips into a compound clip: a timeline of its own that plays as one clip.
use crate::doc::{
    copy_params, holds_id, EditError, FormatVariant, Item, ItemId, ItemKind, ItemModel, Op, OpModel,
    Override, OverrideModel, SeqId, Sequence, SequenceModel, Time, TimeRange, Track, TrackId,
    TrackKind, TrackModel, VariantId, VariantModel,
};
use crate::editor::Editor;
use crate::placing::{
    count_tracks, earliest_is_least, earliest_is_one, first_start, of_kind, plain,
};
use crate::seqs::{
    filter_step, first_from, first_is_right, first_where, kept_places, last_is_right, last_where,
    nothing_mapped, push_holds, take_all, views,
};
use crate::text::{decimal, join2, number};
use vstd::prelude::*;

verus! {

/// One of the clips meant.
pub open spec fn selected(items: Seq<ItemId>) -> spec_fn(ItemModel) -> bool {
    |i: ItemModel| items.contains(i.id)
}

/// The clips meant that are on the track.
pub open spec fn mine(t: TrackModel, items: Seq<ItemId>) -> Seq<ItemModel> {
    t.items.filter(selected(items))
}

pub open spec fn miner(items: Seq<ItemId>) -> spec_fn(TrackModel) -> Seq<ItemModel> {
    |t: TrackModel| mine(t, items)
}

/// The clips meant, going through the tracks in order.
pub open spec fn chosen(s: SequenceModel, items: Seq<ItemId>) -> Seq<ItemModel> {
    s.tracks.flat_map(miner(items))
}

/// The latest moment one of the clips ends.
pub open spec fn last_end(items: Seq<ItemModel>) -> int
    decreases items.len(),
{
    if items.len() <= 1 {
        items[0].range.ends()
    } else if last_end(items.drop_last()) < items.last().range.ends() {
        items.last().range.ends()
    } else {
        last_end(items.drop_last())
    }
}

/// How many fresh ids the compound and its first `n` tracks take.
pub open spec fn ids_taken(s: SequenceModel, items: Seq<ItemId>, n: int) -> int
    decreases n,
{
    if n <= 0 {
        2
    } else {
        let here = mine(s.tracks[n - 1], items).len();
        ids_taken(s, items, n - 1) + if here > 0 {
            1 + here
        } else {
            0
        }
    }
}

/// A clip's copy inside the compound: moved so that the first starts at 0, in no group.
pub open spec fn moved(it: ItemModel, id: ItemId, start: int) -> ItemModel {
    ItemModel {
        id,
        group: None,
        range: TimeRange {
            start: Time((it.range.start.0 - start) as i64),
            duration: it.range.duration,
        },
        ..it
    }
}

/// The copies of the clips meant on a track; `base` is where their fresh ids begin.
pub open spec fn moved_items(
    those: Seq<ItemModel>,
    fresh: Seq<u64>,
    base: int,
    start: int,
) -> Seq<ItemModel> {
    Seq::new(those.len(), |k: int| moved(those[k], ItemId(fresh[base + k]), start))
}

/// A track's copy, with the copies of its clips that are meant.
pub open spec fn inner_track(
    s: SequenceModel,
    items: Seq<ItemId>,
    fresh: Seq<u64>,
    start: int,
    t: int,
) -> TrackModel {
    let base = ids_taken(s, items, t);
    TrackModel {
        id: TrackId(fresh[base]),
        name: s.tracks[t].name,
        kind: s.tracks[t].kind,
        effects: false,
        items: moved_items(mine(s.tracks[t], items), fresh, base + 1, start),
        rest: 0,
    }
}

/// The compound's tracks: those of the first `n` with clips that are meant.
pub open spec fn inner_tracks(
    s: SequenceModel,
    items: Seq<ItemId>,
    fresh: Seq<u64>,
    start: int,
    n: int,
) -> Seq<TrackModel>
    decreases n,
{
    if n <= 0 {
        Seq::empty()
    } else {
        let before = inner_tracks(s, items, fresh, start, n - 1);
        if mine(s.tracks[n - 1], items).len() > 0 {
            before.push(inner_track(s, items, fresh, start, n - 1))
        } else {
            before
        }
    }
}

/// What a format changes on a clip of its own.
pub open spec fn override_for(id: ItemId) -> spec_fn(OverrideModel) -> bool {
    |o: OverrideModel| o.item == id
}

/// What the format changes on the first `n` of the clips, on their copies.
pub open spec fn moved_overrides(
    overrides: Seq<OverrideModel>,
    those: Seq<ItemModel>,
    fresh: Seq<u64>,
    base: int,
    n: int,
) -> Seq<OverrideModel>
    decreases n,
{
    if n <= 0 {
        Seq::empty()
    } else {
        let before = moved_overrides(overrides, those, fresh, base, n - 1);
        match first_where(overrides, override_for(those[n - 1].id)) {
            Some(i) => before.push(
                OverrideModel { item: ItemId(fresh[base + n - 1]), params: overrides[i].params },
            ),
            None => before,
        }
    }
}

/// What the format changes on the clips meant of the first `n` tracks, on their copies.
pub open spec fn inner_overrides(
    s: SequenceModel,
    items: Seq<ItemId>,
    fresh: Seq<u64>,
    n: int,
) -> Seq<OverrideModel>
    decreases n,
{
    if n <= 0 {
        Seq::empty()
    } else {
        let those = mine(s.tracks[n - 1], items);
        let before = inner_overrides(s, items, fresh, n - 1);
        if those.len() > 0 {
            before + moved_overrides(
                s.variants[s.active as int].overrides,
                those,
                fresh,
                ids_taken(s, items, n - 1) + 1,
                those.len() as int,
            )
        } else {
            before
        }
    }
}

/// The compound clip's timeline: at the open format only.
pub open spec fn inner_sequence(
    s: SequenceModel,
    items: Seq<ItemId>,
    fresh: Seq<u64>,
    name: Seq<char>,
    background: ItemModel,
) -> SequenceModel {
    let active = s.variants[s.active as int];
    let n = s.tracks.len() as int;
    SequenceModel {
        id: SeqId(fresh[0]),
        name,
        rate_num: s.rate_num,
        rate_den: s.rate_den,
        active: 0,
        variants: seq![
            VariantModel {
                id: VariantId(fresh[1]),
                name: active.name,
                width: active.width,
                height: active.height,
                overrides: inner_overrides(s, items, fresh, n),
            },
        ],
        tracks: inner_tracks(
            s,
            items,
            fresh,
            first_start(chosen(s, items)).0 as int,
            n,
        ),
        background,
        dividers: 0,
    }
}

/// A track with some of the clips meant that's free at `range` once they're gone.
pub open spec fn frees_up(items: Seq<ItemId>, range: TimeRange, video: bool) -> spec_fn(
    TrackModel,
) -> bool {
    |t: TrackModel|
        (t.kind is Video) == video && mine(t, items).len() > 0 && !others_in(t.items, items, range)
}

/// Some clip that isn't meant is in the way of `range`.
pub open spec fn others_in(all: Seq<ItemModel>, items: Seq<ItemId>, range: TimeRange) -> bool {
    exists|i: int|
        0 <= i < all.len() && !items.contains((#[trigger] all[i]).id) && all[i].range.meets(range)
}

/// Which track the compound clip takes: the first of its clips' tracks (video first) that's
/// free once they're gone.
pub open spec fn nest_track(s: SequenceModel, items: Seq<ItemId>, range: TimeRange) -> Option<int> {
    match first_where(s.tracks, frees_up(items, range, true)) {
        Some(t) => Some(t),
        None => first_where(s.tracks, frees_up(items, range, false)),
    }
}

pub open spec fn item_remover(seq: SeqId) -> spec_fn(ItemModel) -> OpModel {
    |i: ItemModel| OpModel::RemoveItem { seq, item: i.id }
}

/// The changes that put one clip playing the compound in place of the clips meant.
pub open spec fn nest_ops(
    s: SequenceModel,
    items: Seq<ItemId>,
    fresh: Seq<u64>,
    name: Seq<char>,
) -> Seq<OpModel> {
    let those = chosen(s, items);
    let start = first_start(those);
    let range = TimeRange { start, duration: Time((last_end(those) - start.0) as i64) };
    let base = ids_taken(s, items, s.tracks.len() as int);
    let gone = those.map_values(item_remover(s.id));
    let plays = ItemKind::Nested { sequence: SeqId(fresh[0]) };
    match nest_track(s, items, range) {
        Some(t) => gone.push(
            OpModel::InsertItem {
                seq: s.id,
                track: s.tracks[t].id,
                item: Item::fresh(ItemId(fresh[base]), name, plays, range),
            },
        ),
        None => gone.push(
            OpModel::InsertTrack {
                seq: s.id,
                index: match last_where(s.tracks, of_kind(TrackKind::Video)) {
                    Some(i) => (i + 1) as usize,
                    None => 0,
                },
                track: Track::empty(
                    TrackId(fresh[base]),
                    "V"@ + decimal(s.tracks.filter(plain(TrackKind::Video)).len() + 1),
                    TrackKind::Video,
                    false,
                ),
            },
        ).push(
            OpModel::InsertItem {
                seq: s.id,
                track: TrackId(fresh[base]),
                item: Item::fresh(ItemId(fresh[base + 1]), name, plays, range),
            },
        ),
    }
}

/// The clips meant lie within a stretch whose length can be written down.
pub open spec fn span_fits(s: SequenceModel, items: Seq<ItemId>) -> bool {
    let those = chosen(s, items);
    &&& forall|k: int|
        0 <= k < those.len() ==> (#[trigger] those[k]).range.fits() && those[k].range.start.0
            - first_start(those).0 <= i64::MAX
    &&& i64::MIN <= last_end(those) - first_start(those).0 <= i64::MAX
}

/// What making a compound clip asks for.
pub struct Compound {
    pub ops: Vec<Op>,
    pub seq: SeqId,
    /// The clip that plays it, when the clips were replaced.
    pub clip: Option<ItemId>,
}

/// The places on the track of the clips meant.
fn mine_places(track: &Track, items: &Vec<ItemId>) -> (out: Vec<usize>)
    ensures
        out@.len() == mine(track@, items@).len(),
        forall|k: int|
            0 <= k < out@.len() ==> (#[trigger] out@[k]) < track.items@.len()
                && track.items@[out@[k] as int]@ == mine(track@, items@)[k],
{
    let ghost all = track@.items;
    let ghost p = selected(items@);
    let mut out: Vec<usize> = Vec::new();
    let mut i: usize = 0;
    proof {
        take_all(all);
        reveal_with_fuel(Seq::filter, 1);
    }
    while i < track.items.len()
        invariant
            all == track@.items,
            p == selected(items@),
            i <= track.items@.len(),
            out@.len() == all.take(i as int).filter(p).len(),
            forall|k: int|
                0 <= k < out@.len() ==> (#[trigger] out@[k]) < track.items@.len()
                    && track.items@[out@[k] as int]@ == all.take(i as int).filter(p)[k],
        decreases track.items@.len() - i,
    {
        proof {
            filter_step(all, p, i as int);
            assert(all[i as int] == track.items@[i as int]@);
        }
        if holds_id(items, track.items[i].id) {
            out.push(i);
        }
        i = i + 1;
    }
    proof {
        take_all(all);
    }
    out
}

/// What the place list `places` points at.
pub open spec fn pointed(s: SequenceModel, places: Seq<(usize, usize)>) -> Seq<ItemModel> {
    places.map_values(|p: (usize, usize)| s.tracks[p.0 as int].items[p.1 as int])
}

/// The places are on the timeline.
pub open spec fn on_timeline(s: Sequence, places: Seq<(usize, usize)>) -> bool {
    forall|k: int|
        0 <= k < places.len() ==> (#[trigger] places[k]).0 < s.tracks@.len() && places[k].1
            < s.tracks@[places[k].0 as int].items@.len()
}

impl Editor {
    /// Where the clips meant are, going through the tracks in order.
    pub(crate) fn chosen_places(&self, items: &Vec<ItemId>) -> (out: Vec<(usize, usize)>)
        ensures
            on_timeline(self.timeline, out@),
            pointed(self.timeline@, out@) == chosen(self.timeline@, items@),
    {
        let s = &self.timeline;
        let ghost all = s@.tracks;
        let ghost f = miner(items@);
        let mut out: Vec<(usize, usize)> = Vec::new();
        let mut t: usize = 0;
        proof {
            take_all(all);
            assert(all.take(0).flat_map(f) =~= Seq::<ItemModel>::empty());
            assert(pointed(s@, out@) =~= Seq::<ItemModel>::empty());
        }
        while t < s.tracks.len()
            invariant
                s == &self.timeline,
                all == s@.tracks,
                f == miner(items@),
                t <= s.tracks@.len(),
                on_timeline(*s, out@),
                pointed(s@, out@) == all.take(t as int).flat_map(f),
            decreases s.tracks@.len() - t,
        {
            let here = mine_places(&s.tracks[t], items);
            let ghost had = out@;
            let ghost those = mine(all[t as int], items@);
            assert(all[t as int] == s.tracks@[t as int]@);
            let mut k: usize = 0;
            assert(pointed(s@, out@) + those.take(0) =~= pointed(s@, out@));
            while k < here.len()
                invariant
                    s == &self.timeline,
                    all == s@.tracks,
                    t < s.tracks@.len(),
                    all[t as int] == s.tracks@[t as int]@,
                    those == mine(all[t as int], items@),
                    here@.len() == those.len(),
                    forall|j: int|
                        0 <= j < here@.len() ==> (#[trigger] here@[j])
                            < s.tracks@[t as int].items@.len()
                            && s.tracks@[t as int].items@[here@[j] as int]@ == those[j],
                    k <= here@.len(),
                    on_timeline(*s, out@),
                    pointed(s@, out@) == pointed(s@, had) + those.take(k as int),
                decreases here@.len() - k,
            {
                let ghost before = out@;
                out.push((t, here[k]));
                proof {
                    assert(s@.tracks[t as int].items[here@[k as int] as int]
                        == s.tracks@[t as int].items@[here@[k as int] as int]@);
                    assert(pointed(s@, out@) =~= pointed(s@, before).push(those[k as int]));
                    assert(those.take(k + 1) =~= those.take(k as int).push(those[k as int]));
                    assert(pointed(s@, out@) =~= pointed(s@, had) + those.take(k + 1));
                }
                k = k + 1;
            }
            proof {
                take_all(those);
                all.lemma_flat_map_take_append(f, t as int);
            }
            t = t + 1;
        }
        proof {
            take_all(all);
        }
        out
    }

    /// The stretch that the clips at `places` lie in: where the first starts and the last
    /// ends.
    fn span(&self, places: &Vec<(usize, usize)>) -> (out: (Time, Time))
        requires
            on_timeline(self.timeline, places@),
            places@.len() > 0,
            forall|k: int|
                0 <= k < places@.len() ==> (#[trigger] pointed(
                    self.timeline@,
                    places@,
                )[k]).range.fits(),
        ensures
            out.0 == first_start(pointed(self.timeline@, places@)),
            out.1.0 == last_end(pointed(self.timeline@, places@)),
    {
        let s = &self.timeline;
        let ghost all = pointed(s@, places@);
        let (t0, i0) = places[0];
        proof {
            assert(s@.tracks[t0 as int].items[i0 as int] == s.tracks@[t0 as int].items@[i0 as int]@);
            assert(all[0].range.fits());
            assert(all.take(1).len() == 1);
        }
        let mut start = s.tracks[t0].items[i0].range.start;
        let mut end = s.tracks[t0].items[i0].range.end();
        let mut k: usize = 1;
        while k < places.len()
            invariant
                s == &self.timeline,
                all == pointed(s@, places@),
                on_timeline(*s, places@),
                forall|j: int| 0 <= j < places@.len() ==> (#[trigger] all[j]).range.fits(),
                1 <= k <= places@.len(),
                start == first_start(all.take(k as int)),
                end.0 == last_end(all.take(k as int)),
            decreases places@.len() - k,
        {
            let (t, i) = places[k];
            proof {
                assert(s@.tracks[t as int].items[i as int] == s.tracks@[t as int].items@[i as int]@);
                assert(all[k as int].range.fits());
                assert(all.take(k + 1).drop_last() =~= all.take(k as int));
                assert(all.take(k + 1).last() == all[k as int]);
            }
            let range = s.tracks[t].items[i].range;
            start = start.least(range.start);
            end = end.most(range.end());
            k = k + 1;
        }
        proof {
            take_all(all);
        }
        (start, end)
    }

    /// A track's copy, with the copies of its clips that are meant.
    fn copy_track(
        &self,
        t: usize,
        items: &Vec<ItemId>,
        here: &Vec<usize>,
        fresh: &Vec<u64>,
        base: usize,
        start: Time,
    ) -> (out: Track)
        requires
            t < self.timeline.tracks@.len(),
            base == ids_taken(self.timeline@, items@, t as int),
            base + 1 + here@.len() <= fresh.len(),
            here@.len() == mine(self.timeline@.tracks[t as int], items@).len(),
            forall|j: int|
                0 <= j < here@.len() ==> (#[trigger] here@[j])
                    < self.timeline.tracks@[t as int].items@.len()
                    && self.timeline.tracks@[t as int].items@[here@[j] as int]@ == mine(
                    self.timeline@.tracks[t as int],
                    items@,
                )[j] && i64::MIN <= mine(
                    self.timeline@.tracks[t as int],
                    items@,
                )[j].range.start.0 - start.0 <= i64::MAX,
        ensures
            out@ == inner_track(self.timeline@, items@, fresh@, start.0 as int, t as int),
    {
        let s = &self.timeline;
        let ghost those = mine(s@.tracks[t as int], items@);
        let ghost want = moved_items(those, fresh@, base + 1, start.0 as int);
        let mut copies: Vec<Item> = Vec::new();
        let mut k: usize = 0;
        while k < here.len()
            invariant
                s == &self.timeline,
                t < s.tracks@.len(),
                base + 1 + here@.len() <= fresh.len(),
                those == mine(s@.tracks[t as int], items@),
                here@.len() == those.len(),
                forall|j: int|
                    0 <= j < here@.len() ==> (#[trigger] here@[j])
                        < s.tracks@[t as int].items@.len()
                        && s.tracks@[t as int].items@[here@[j] as int]@ == those[j] && i64::MIN
                        <= those[j].range.start.0 - start.0 <= i64::MAX,
                want == moved_items(those, fresh@, base + 1, start.0 as int),
                k <= here@.len(),
                copies@.len() == k,
                forall|j: int| 0 <= j < k ==> (#[trigger] copies@[j])@ == want[j],
            decreases here@.len() - k,
        {
            let it = &s.tracks[t].items[here[k]];
            assert(it@ == those[k as int]);
            let mut item = it.copy();
            item.id = ItemId(fresh[base + 1 + k]);
            item.group = None;
            item.range = TimeRange {
                start: Time(it.range.start.0 - start.0),
                duration: it.range.duration,
            };
            assert(item@ =~= want[k as int]);
            copies.push(item);
            k = k + 1;
        }
        let track = &s.tracks[t];
        assert(s@.tracks[t as int] == s.tracks@[t as int]@);
        let out = Track {
            id: TrackId(fresh[base]),
            name: track.name.clone(),
            kind: track.kind,
            effects: false,
            items: copies,
            rest: 0,
        };
        assert(out@.items =~= want);
        out
    }

    /// What the open format changes on the clips meant of track `t`, on their copies.
    fn copy_track_overrides(
        &self,
        t: usize,
        items: &Vec<ItemId>,
        here: &Vec<usize>,
        fresh: &Vec<u64>,
        base: usize,
    ) -> (out: Vec<Override>)
        requires
            self.timeline.active < self.timeline.variants@.len(),
            t < self.timeline.tracks@.len(),
            base + here@.len() <= fresh.len(),
            here@.len() == mine(self.timeline@.tracks[t as int], items@).len(),
            forall|j: int|
                0 <= j < here@.len() ==> (#[trigger] here@[j])
                    < self.timeline.tracks@[t as int].items@.len()
                    && self.timeline.tracks@[t as int].items@[here@[j] as int]@ == mine(
                    self.timeline@.tracks[t as int],
                    items@,
                )[j],
        ensures
            views(out@) == moved_overrides(
                self.timeline@.variants[self.timeline.active as int].overrides,
                mine(self.timeline@.tracks[t as int], items@),
                fresh@,
                base as int,
                here@.len() as int,
            ),
    {
        let s = &self.timeline;
        let active = &s.variants[s.active];
        let ghost those = mine(s@.tracks[t as int], items@);
        let ghost all = s@.variants[s.active as int].overrides;
        assert(s@.variants[s.active as int] == s.variants@[s.active as int]@);
        let mut out: Vec<Override> = Vec::new();
        let mut k: usize = 0;
        assert(views(out@) =~= Seq::<OverrideModel>::empty());
        while k < here.len()
            invariant
                s == &self.timeline,
                t < s.tracks@.len(),
                those == mine(s@.tracks[t as int], items@),
                here@.len() == those.len(),
                all == views(active.overrides@),
                base + here@.len() <= fresh.len(),
                forall|j: int|
                    0 <= j < here@.len() ==> (#[trigger] here@[j])
                        < s.tracks@[t as int].items@.len()
                        && s.tracks@[t as int].items@[here@[j] as int]@ == those[j],
                k <= here@.len(),
                views(out@) == moved_overrides(all, those, fresh@, base as int, k as int),
            decreases here@.len() - k,
        {
            let id = s.tracks[t].items[here[k]].id;
            assert(s.tracks@[t as int].items@[here@[k as int] as int]@ == those[k as int]);
            let ghost p = override_for(id);
            let ghost had = out@;
            let mut j: usize = 0;
            let mut found = false;
            while j < active.overrides.len() && !found
                invariant
                    all == views(active.overrides@),
                    p == override_for(id),
                    k < here@.len(),
                    base + here@.len() <= fresh.len(),
                    j <= active.overrides@.len(),
                    !found ==> first_where(all, p) == first_from(all, p, j as int) && out@ == had,
                    found ==> first_where(all, p) is Some && views(out@) == views(had).push(
                        OverrideModel {
                            item: ItemId(fresh@[base + k]),
                            params: all[first_where(all, p)->0].params,
                        },
                    ),
                decreases active.overrides@.len() - j,
            {
                assert(all[j as int] == active.overrides@[j as int]@);
                if active.overrides[j].item == id {
                    found = true;
                    out.push(
                        Override {
                            item: ItemId(fresh[base + k]),
                            params: copy_params(&active.overrides[j].params),
                        },
                    );
                    assert(views(out@) =~= views(had).push(
                        OverrideModel {
                            item: ItemId(fresh@[base + k]),
                            params: all[j as int].params,
                        },
                    ));
                }
                j = j + 1;
            }
            k = k + 1;
        }
        out
    }
}

/// The clips of each track are among the ones meant.
proof fn mine_are_chosen(s: SequenceModel, items: Seq<ItemId>, t: int, j: int)
    requires
        0 <= t < s.tracks.len(),
        0 <= j < mine(s.tracks[t], items).len(),
    ensures
        chosen(s, items).contains(mine(s.tracks[t], items)[j]),
{
    flat_map_holds(s.tracks, miner(items), t, j);
}

proof fn flat_map_holds<T, U>(s: Seq<T>, f: spec_fn(T) -> Seq<U>, t: int, j: int)
    requires
        0 <= t < s.len(),
        0 <= j < f(s[t]).len(),
    ensures
        s.flat_map(f).contains(f(s[t])[j]),
    decreases s.len(),
{
    let n = s.len() - 1;
    let rest = s.drop_last();
    rest.lemma_flat_map_push(f, s[n]);
    assert(rest.push(s[n]) =~= s);
    let x = f(s[t])[j];
    if t == n {
        assert(s.flat_map(f)[rest.flat_map(f).len() + j] == x);
    } else {
        flat_map_holds(rest, f, t, j);
        let k = choose|k: int| 0 <= k < rest.flat_map(f).len() && rest.flat_map(f)[k] == x;
        assert(s.flat_map(f)[k] == x);
    }
}

/// The ids taken only grow.
proof fn ids_grow(s: SequenceModel, items: Seq<ItemId>, a: int, b: int)
    requires
        0 <= a <= b,
    ensures
        2 <= ids_taken(s, items, a) <= ids_taken(s, items, b),
    decreases b,
{
    if a < b {
        ids_grow(s, items, a, b - 1);
    } else if b > 0 {
        ids_grow(s, items, b - 1, b - 1);
    }
}

/// The first track (of the video ones, or of the others) that frees up.
fn first_freed(s: &Sequence, items: &Vec<ItemId>, range: TimeRange, video: bool) -> (out: Option<
    usize,
>)
    ensures
        match out {
            Some(t) => first_where(s@.tracks, frees_up(items@, range, video)) == Some(t as int) && t
                < s.tracks@.len(),
            None => first_where(s@.tracks, frees_up(items@, range, video)) is None,
        },
{
    let ghost p = frees_up(items@, range, video);
    let mut t: usize = 0;
    while t < s.tracks.len()
        invariant
            p == frees_up(items@, range, video),
            t <= s.tracks@.len(),
            first_where(s@.tracks, p) == first_from(s@.tracks, p, t as int),
        decreases s.tracks@.len() - t,
    {
        let track = &s.tracks[t];
        assert(s@.tracks[t as int] == s.tracks@[t as int]@);
        if matches!(track.kind, TrackKind::Video) == video && mine_places(track, items).len() > 0
            && !other_clip_in(&track.items, items, range) {
            return Some(t);
        }
        t = t + 1;
    }
    None
}

fn other_clip_in(all: &Vec<Item>, items: &Vec<ItemId>, range: TimeRange) -> (out: bool)
    ensures
        out == others_in(views(all@), items@, range),
{
    let mut i: usize = 0;
    while i < all.len()
        invariant
            i <= all@.len(),
            forall|k: int|
                0 <= k < i ==> items@.contains((#[trigger] views(all@)[k]).id) || !views(
                    all@,
                )[k].range.meets(range),
        decreases all@.len() - i,
    {
        assert(views(all@)[i as int] == all@[i as int]@);
        if !holds_id(items, all[i].id) && all[i].range.overlaps(range) {
            return true;
        }
        i = i + 1;
    }
    false
}

impl Editor {
    /// The changes that put one clip playing the compound in place of the clips meant.
    fn nest(
        &self,
        items: &Vec<ItemId>,
        places: &Vec<(usize, usize)>,
        fresh: &Vec<u64>,
        base: usize,
        name: &str,
        start: Time,
        end: Time,
    ) -> (out: (Vec<Op>, ItemId))
        requires
            self.timeline.tracks@.len() < usize::MAX,
            on_timeline(self.timeline, places@),
            pointed(self.timeline@, places@) == chosen(self.timeline@, items@),
            base == ids_taken(self.timeline@, items@, self.timeline.tracks@.len() as int),
            base + 2 <= fresh.len(),
            start == first_start(chosen(self.timeline@, items@)),
            end.0 == last_end(chosen(self.timeline@, items@)),
            i64::MIN <= end.0 - start.0 <= i64::MAX,
        ensures
            views(out.0@) == nest_ops(self.timeline@, items@, fresh@, name@),
            out.1 == clip_id(self.timeline@, items@, fresh@),
    {
        let s = &self.timeline;
        let ghost those = chosen(s@, items@);
        let range = TimeRange { start, duration: Time(end.0 - start.0) };
        let mut ops: Vec<Op> = Vec::new();
        let mut k: usize = 0;
        while k < places.len()
            invariant
                s == &self.timeline,
                on_timeline(*s, places@),
                those == pointed(s@, places@),
                k <= places@.len(),
                ops@.len() == k,
                forall|j: int|
                    0 <= j < k ==> (#[trigger] ops@[j])@ == item_remover(s.id)(those[j]),
            decreases places@.len() - k,
        {
            let (t, i) = places[k];
            assert(those[k as int] == s@.tracks[t as int].items[i as int]);
            assert(s@.tracks[t as int].items[i as int] == s.tracks@[t as int].items@[i as int]@);
            ops.push(Op::RemoveItem { seq: s.id, item: s.tracks[t].items[i].id });
            k = k + 1;
        }
        let ghost gone = those.map_values(item_remover(s.id));
        assert(views(ops@) =~= gone);
        let plays = ItemKind::Nested { sequence: SeqId(fresh[0]) };
        let found = match first_freed(s, items, range, true) {
            Some(t) => Some(t),
            None => first_freed(s, items, range, false),
        };
        match found {
            Some(t) => {
                let id = ItemId(fresh[base]);
                let ghost had = ops@;
                assert(s@.tracks[t as int] == s.tracks@[t as int]@);
                ops.push(
                    Op::InsertItem {
                        seq: s.id,
                        track: s.tracks[t].id,
                        item: Item::new(id, name, plays, range),
                    },
                );
                assert(views(ops@) =~= views(had).push(ops@.last()@));
                (ops, id)
            },
            None => {
                let track = TrackId(fresh[base]);
                let id = ItemId(fresh[base + 1]);
                let count: usize = count_tracks(s, TrackKind::Video, false);
                let title = join2("V", number(count as u64 + 1).as_str());
                let ghost had = ops@;
                ops.push(
                    Op::InsertTrack {
                        seq: s.id,
                        index: above_videos(s),
                        track: Track::new(track, title, TrackKind::Video, false),
                    },
                );
                assert(views(ops@) =~= views(had).push(ops@.last()@));
                let ghost had = ops@;
                ops.push(
                    Op::InsertItem { seq: s.id, track, item: Item::new(id, name, plays, range) },
                );
                assert(views(ops@) =~= views(had).push(ops@.last()@));
                (ops, id)
            },
        }
    }

    /// Copies `items` (clips of the open timeline) into a new one, a compound clip,
    /// keeping their tracks and spacing, moved to start at 0, at the open format. It's
    /// then media: it shows in the bin, can be added to the timeline and feeds effects
    /// that take a picture (a mask…). `nest`: the clips are also replaced by one clip
    /// playing it. `sequences` is how many timelines the project has, `background` what a
    /// new one has behind its clips, `fresh` ids nothing has yet.
    pub fn compound(
        &self,
        items: &Vec<ItemId>,
        nest: bool,
        sequences: usize,
        background: Item,
        fresh: &Vec<u64>,
    ) -> (out: Result<Compound, EditError>)
        requires
            self.timeline.active < self.timeline.variants@.len(),
            self.timeline.tracks@.len() < usize::MAX,
            chosen(self.timeline@, items@).len() > 0 ==> span_fits(self.timeline@, items@),
            fresh.len() >= ids_taken(
                self.timeline@,
                items@,
                self.timeline.tracks@.len() as int,
            ) + 2,
        ensures
            chosen(self.timeline@, items@).len() == 0 ==> (out matches Err(e) && e
                == EditError::NoClips),
            chosen(self.timeline@, items@).len() > 0 ==> (out matches Ok(c) && c.seq == SeqId(
                fresh@[0],
            ) && c.clip == (if nest {
                Some(clip_id(self.timeline@, items@, fresh@))
            } else {
                None
            }) && views(c.ops@) == compound_ops(
                self.timeline@,
                items@,
                fresh@,
                sequences as nat,
                background@,
                nest,
            )),
            out is Err <==> forall|t: int, i: int| !#[trigger]
                meant(self.timeline@, items@, t, i),
            out matches Ok(c) ==> (views(c.ops@)[0] matches OpModel::AddSequence { sequence }
                && sequence.id == c.seq && plays_as_it_was(self.timeline@, items@, sequence)),
            out matches Ok(c) ==> nest ==> c.clip is Some && replaces(
                self.timeline@,
                items@,
                c.seq,
                c.clip->0,
                views(c.ops@).skip(1),
            ),
            out matches Ok(c) ==> !nest ==> c.clip is None && c.ops@.len() == 1,
    {
        let ghost s = self.timeline@;
        let ghost behind = background@;
        let out = self.make_compound(items, nest, sequences, background, fresh);
        proof {
            compound_is_right(s, items@, fresh@, sequences as nat, behind, nest);
            assert(out is Ok ==> views((out->Ok_0).ops@).len() == (out->Ok_0).ops@.len());
        }
        out
    }

    /// Everything making a compound clip asks for.
    fn make_compound(
        &self,
        items: &Vec<ItemId>,
        nest: bool,
        sequences: usize,
        background: Item,
        fresh: &Vec<u64>,
    ) -> (out: Result<Compound, EditError>)
        requires
            self.timeline.active < self.timeline.variants@.len(),
            self.timeline.tracks@.len() < usize::MAX,
            chosen(self.timeline@, items@).len() > 0 ==> span_fits(self.timeline@, items@),
            fresh.len() >= ids_taken(
                self.timeline@,
                items@,
                self.timeline.tracks@.len() as int,
            ) + 2,
        ensures
            chosen(self.timeline@, items@).len() == 0 ==> (out matches Err(e) && e
                == EditError::NoClips),
            chosen(self.timeline@, items@).len() > 0 ==> (out matches Ok(c) && c.seq == SeqId(
                fresh@[0],
            ) && c.clip == (if nest {
                Some(clip_id(self.timeline@, items@, fresh@))
            } else {
                None
            }) && views(c.ops@) == compound_ops(
                self.timeline@,
                items@,
                fresh@,
                sequences as nat,
                background@,
                nest,
            )),
    {
        let s = &self.timeline;
        let ghost those = chosen(s@, items@);
        let places = self.chosen_places(items);
        assert(pointed(s@, places@).len() == places@.len());
        if places.len() == 0 {
            return Err(EditError::NoClips);
        }
        let (start, end) = self.span(&places);
        let name = join2("Compound ", number(sequences as u64).as_str());
        let mut tracks: Vec<Track> = Vec::new();
        let mut overrides: Vec<Override> = Vec::new();
        let mut t: usize = 0;
        let mut base: usize = 2;
        proof {
            ids_grow(s@, items@, 0, s.tracks@.len() as int);
            assert(views(tracks@) =~= Seq::<TrackModel>::empty());
            assert(views(overrides@) =~= Seq::<OverrideModel>::empty());
        }
        while t < s.tracks.len()
            invariant
                s == &self.timeline,
                s.active < s.variants@.len(),
                those == chosen(s@, items@),
                span_fits(s@, items@),
                start == first_start(those),
                fresh.len() >= ids_taken(s@, items@, s.tracks@.len() as int) + 2,
                t <= s.tracks@.len(),
                base == ids_taken(s@, items@, t as int),
                views(tracks@) == inner_tracks(s@, items@, fresh@, start.0 as int, t as int),
                views(overrides@) == inner_overrides(s@, items@, fresh@, t as int),
            decreases s.tracks@.len() - t,
        {
            let here = mine_places(&s.tracks[t], items);
            let n: usize = here.len();
            proof {
                assert(s@.tracks[t as int] == s.tracks@[t as int]@);
                ids_grow(s@, items@, t + 1, s.tracks@.len() as int);
                assert forall|j: int| 0 <= j < n implies i64::MIN <= (#[trigger] mine(
                    s@.tracks[t as int],
                    items@,
                )[j]).range.start.0 - start.0 <= i64::MAX by {
                    mine_are_chosen(s@, items@, t as int, j);
                    let x = mine(s@.tracks[t as int], items@)[j];
                    let k = choose|k: int| 0 <= k < those.len() && those[k] == x;
                    earliest_is_least(those, k);
                }
            }
            if n > 0 {
                let ghost had = tracks@;
                tracks.push(self.copy_track(t, items, &here, fresh, base, start));
                assert(views(tracks@) =~= views(had).push(tracks@.last()@));
                let mut more = self.copy_track_overrides(t, items, &here, fresh, base + 1);
                let ghost was = overrides@;
                let ghost got = more@;
                overrides.append(&mut more);
                assert(views(overrides@) =~= views(was) + views(got));
                base = base + 1 + n;
            }
            t = t + 1;
        }
        let active = &s.variants[s.active];
        assert(s@.variants[s.active as int] == s.variants@[s.active as int]@);
        let mut variants: Vec<FormatVariant> = Vec::new();
        variants.push(
            FormatVariant {
                id: VariantId(fresh[1]),
                name: active.name.clone(),
                width: active.width,
                height: active.height,
                overrides,
            },
        );
        let inner = Sequence {
            id: SeqId(fresh[0]),
            name: name.clone(),
            rate_num: s.rate_num,
            rate_den: s.rate_den,
            active: 0,
            variants,
            tracks,
            background,
            dividers: 0,
        };
        assert(inner@.variants =~= inner_sequence(
            s@,
            items@,
            fresh@,
            name@,
            background@,
        ).variants);
        assert(inner@ =~= inner_sequence(s@, items@, fresh@, name@, background@));
        let mut ops: Vec<Op> = Vec::new();
        ops.push(Op::AddSequence { sequence: inner });
        let ghost first = seq![OpModel::AddSequence { sequence: inner@ }];
        assert(views(ops@) =~= first);
        let mut clip: Option<ItemId> = None;
        if nest {
            let (mut more, id) = self.nest(items, &places, fresh, base, name.as_str(), start, end);
            let ghost got = more@;
            ops.append(&mut more);
            assert(views(ops@) =~= first + views(got));
            clip = Some(id);
        } else {
            assert(first + Seq::<OpModel>::empty() =~= first);
        }
        Ok(Compound { ops, seq: SeqId(fresh[0]), clip })
    }
}

/// Just above the topmost video track (at the bottom if there's none).
fn above_videos(s: &Sequence) -> (out: usize)
    ensures
        out == match last_where(s@.tracks, of_kind(TrackKind::Video)) {
            Some(i) => i + 1,
            None => 0,
        },
        out <= s.tracks@.len(),
{
    let ghost all = s@.tracks;
    let mut i: usize = s.tracks.len();
    proof {
        take_all(all);
    }
    while i > 0
        invariant
            all == s@.tracks,
            i <= s.tracks@.len(),
            last_where(all, of_kind(TrackKind::Video)) == last_where(
                all.take(i as int),
                of_kind(TrackKind::Video),
            ),
        decreases i,
    {
        assert(all[i - 1] == s.tracks@[i - 1]@);
        assert(all.take(i as int).drop_last() =~= all.take(i - 1));
        if matches!(s.tracks[i - 1].kind, TrackKind::Video) {
            return i;
        }
        i = i - 1;
    }
    0
}

/// The id of the clip that plays the compound.
pub open spec fn clip_id(s: SequenceModel, items: Seq<ItemId>, fresh: Seq<u64>) -> ItemId {
    let those = chosen(s, items);
    let start = first_start(those);
    let range = TimeRange { start, duration: Time((last_end(those) - start.0) as i64) };
    let base = ids_taken(s, items, s.tracks.len() as int);
    ItemId(
        fresh[if nest_track(s, items, range) is Some {
            base
        } else {
            base + 1
        }],
    )
}

/// Everything making a compound clip asks for.
pub open spec fn compound_ops(
    s: SequenceModel,
    items: Seq<ItemId>,
    fresh: Seq<u64>,
    sequences: nat,
    background: ItemModel,
    nest: bool,
) -> Seq<OpModel> {
    let name = "Compound "@ + decimal(sequences);
    let made = seq![
        OpModel::AddSequence {
            sequence: inner_sequence(s, items, fresh, name, background),
        },
    ];
    if nest {
        made + nest_ops(s, items, fresh, name)
    } else {
        made
    }
}

/// Inside the compound no clip starts before 0, and one starts there.
pub proof fn compound_starts_at_zero(s: SequenceModel, items: Seq<ItemId>, k: int, id: ItemId)
    requires
        span_fits(s, items),
        0 <= k < chosen(s, items).len(),
    ensures
        ({
            let start = first_start(chosen(s, items)).0 as int;
            &&& moved(chosen(s, items)[k], id, start).range.start.0 >= 0
            &&& exists|j: int|
                0 <= j < chosen(s, items).len() && moved(
                    #[trigger] chosen(s, items)[j],
                    id,
                    start,
                ).range.start.0 == 0
        }),
{
    let those = chosen(s, items);
    earliest_is_least(those, k);
    let j = earliest_is_one(those);
    assert(those[j].range.start == first_start(those));
    assert(moved(those[j], id, first_start(those).0 as int).range.start.0 == 0);
}

/// Inside the compound any two clips are as far apart as they were, and as long.
pub proof fn compound_keeps_the_spacing(
    s: SequenceModel,
    items: Seq<ItemId>,
    a: int,
    b: int,
    ia: ItemId,
    ib: ItemId,
)
    requires
        span_fits(s, items),
        0 <= a < chosen(s, items).len(),
        0 <= b < chosen(s, items).len(),
    ensures
        ({
            let those = chosen(s, items);
            let start = first_start(those).0 as int;
            let x = moved(those[a], ia, start);
            let y = moved(those[b], ib, start);
            &&& y.range.start.0 - x.range.start.0 == those[b].range.start.0
                - those[a].range.start.0
            &&& x.range.duration == those[a].range.duration
        }),
{
    let those = chosen(s, items);
    earliest_is_least(those, a);
    earliest_is_least(those, b);
}

// ---- what it keeps ----

/// The clip is one of those meant.
pub open spec fn meant(s: SequenceModel, items: Seq<ItemId>, t: int, i: int) -> bool {
    0 <= t < s.tracks.len() && 0 <= i < s.tracks[t].items.len() && items.contains(
        s.tracks[t].items[i].id,
    )
}

/// `copy` has the clips meant of `track` and no others, one for one and in their order (the
/// `k`-th is that at `from[k]`): each as it was, but for its id, its group, and where it starts.
pub open spec fn copies_track(
    track: TrackModel,
    items: Seq<ItemId>,
    copy: TrackModel,
    start: int,
    from: Seq<int>,
) -> bool {
    &&& copy.name == track.name
    &&& copy.kind == track.kind
    &&& !copy.effects
    &&& from.len() == copy.items.len()
    &&& from.len() > 0
    &&& forall|k: int|
        0 <= k < from.len() ==> {
            let was = track.items[#[trigger] from[k]];
            let now = copy.items[k];
            &&& 0 <= from[k] < track.items.len()
            &&& items.contains(was.id)
            &&& now.range.start.0 == was.range.start.0 - start
            &&& now.range.duration == was.range.duration
            &&& now.group is None
            &&& now == (ItemModel { id: now.id, group: now.group, range: now.range, ..was })
        }
    &&& forall|a: int, b: int| 0 <= a < b < from.len() ==> (#[trigger] from[a]) < (#[trigger] from[b])
    &&& forall|i: int|
        0 <= i < track.items.len() && items.contains((#[trigger] track.items[i]).id)
            ==> from.contains(i)
}

/// What the format changed on the clips at `from` it changes on their copies.
pub open spec fn changes_along(
    track: TrackModel,
    overrides: Seq<OverrideModel>,
    copy: TrackModel,
    copied: Seq<OverrideModel>,
    from: Seq<int>,
) -> bool {
    forall|k: int, j: int|
        0 <= k < from.len() && 0 <= j < overrides.len() && (#[trigger] overrides[j]).item
            == track.items[#[trigger] from[k]].id && (forall|h: int|
            0 <= h < j ==> (#[trigger] overrides[h]).item != overrides[j].item)
            ==> copied.contains(
            OverrideModel { item: copy.items[k].id, params: overrides[j].params },
        )
}

/// The compound's tracks are those of the timeline that hold clips meant (the `k`-th is a copy
/// of that at `at[k]`), layered as they were, with everything moved so that what started at
/// `start` starts at 0.
pub open spec fn mirrors(
    s: SequenceModel,
    items: Seq<ItemId>,
    inner: SequenceModel,
    start: int,
    at: Seq<int>,
    from: Seq<Seq<int>>,
) -> bool {
    &&& at.len() == inner.tracks.len()
    &&& from.len() == at.len()
    &&& forall|a: int, b: int| 0 <= a < b < at.len() ==> (#[trigger] at[a]) < (#[trigger] at[b])
    &&& forall|k: int|
        0 <= k < at.len() ==> 0 <= (#[trigger] at[k]) < s.tracks.len() && copies_track(
            s.tracks[at[k]],
            items,
            inner.tracks[k],
            start,
            from[k],
        ) && changes_along(
            s.tracks[at[k]],
            s.variants[s.active as int].overrides,
            inner.tracks[k],
            inner.variants[0].overrides,
            from[k],
        )
    &&& forall|t: int, i: int| #[trigger] meant(s, items, t, i) ==> at.contains(t)
}

/// The earliest moment one of the clips meant starts.
pub open spec fn starts_first(s: SequenceModel, items: Seq<ItemId>, start: int) -> bool {
    &&& forall|t: int, i: int| #[trigger]
        meant(s, items, t, i) ==> start <= s.tracks[t].items[i].range.start.0
    &&& exists|t: int, i: int| #[trigger]
        meant(s, items, t, i) && start == s.tracks[t].items[i].range.start.0
}

/// The latest moment one of the clips meant ends.
pub open spec fn ends_last(s: SequenceModel, items: Seq<ItemId>, end: int) -> bool {
    &&& forall|t: int, i: int| #[trigger]
        meant(s, items, t, i) ==> s.tracks[t].items[i].range.start.0
            + s.tracks[t].items[i].range.duration.0 <= end
    &&& exists|t: int, i: int| #[trigger]
        meant(s, items, t, i) && end == s.tracks[t].items[i].range.start.0
            + s.tracks[t].items[i].range.duration.0
}

/// What `Editor::compound` makes of the clips plays them as they were: on tracks layered as
/// theirs, as long as they were and as far apart, the first of them from 0 on, with what the
/// open format changes on them.
pub open spec fn plays_as_it_was(s: SequenceModel, items: Seq<ItemId>, inner: SequenceModel) -> bool {
    exists|start: int, at: Seq<int>, from: Seq<Seq<int>>|
        starts_first(s, items, start) && #[trigger] mirrors(s, items, inner, start, at, from)
}

/// The copies of a track's clips, seen one by one.
proof fn inner_track_copies(
    s: SequenceModel,
    items: Seq<ItemId>,
    fresh: Seq<u64>,
    start: int,
    t: int,
) -> (from: Seq<int>)
    requires
        0 <= t < s.tracks.len(),
        mine(s.tracks[t], items).len() > 0,
        forall|i: int| #[trigger]
            meant(s, items, t, i) ==> i64::MIN <= s.tracks[t].items[i].range.start.0 - start
                <= i64::MAX,
    ensures
        copies_track(s.tracks[t], items, inner_track(s, items, fresh, start, t), start, from),
        changes_along(
            s.tracks[t],
            s.variants[s.active as int].overrides,
            inner_track(s, items, fresh, start, t),
            moved_overrides(
                s.variants[s.active as int].overrides,
                mine(s.tracks[t], items),
                fresh,
                ids_taken(s, items, t) + 1,
                mine(s.tracks[t], items).len() as int,
            ),
            from,
        ),
{
    let track = s.tracks[t];
    let p = selected(items);
    let from = kept_places(track.items, p);
    let copy = inner_track(s, items, fresh, start, t);
    assert forall|k: int| 0 <= k < from.len() implies {
        let was = track.items[#[trigger] from[k]];
        let now = copy.items[k];
        &&& 0 <= from[k] < track.items.len()
        &&& items.contains(was.id)
        &&& now.range.start.0 == was.range.start.0 - start
        &&& now.range.duration == was.range.duration
        &&& now.group is None
        &&& now == (ItemModel { id: now.id, group: now.group, range: now.range, ..was })
    } by {
        assert(p(track.items[from[k]]));
        assert(meant(s, items, t, from[k]));
    }
    assert forall|i: int|
        0 <= i < track.items.len() && items.contains((#[trigger] track.items[i]).id) implies from.contains(
        i,
    ) by {
        assert(p(track.items[i]));
    }
    let overrides = s.variants[s.active as int].overrides;
    let those = mine(track, items);
    let base = ids_taken(s, items, t) + 1;
    let copied = moved_overrides(overrides, those, fresh, base, those.len() as int);
    assert forall|k: int, j: int|
        0 <= k < from.len() && 0 <= j < overrides.len() && (#[trigger] overrides[j]).item
            == track.items[#[trigger] from[k]].id && (forall|h: int|
            0 <= h < j ==> (#[trigger] overrides[h]).item != overrides[j].item) implies copied.contains(
    OverrideModel { item: copy.items[k].id, params: overrides[j].params }) by {
        let q = override_for(those[k].id);
        first_is_right(overrides, q, 0);
        assert(q(overrides[j]));
        assert(first_where(overrides, q) == Some(j));
        moved_overrides_hold(overrides, those, fresh, base, those.len() as int, k, j);
    }
    from
}

/// What the format changes on one of the clips is among what it changes on the copies.
proof fn moved_overrides_hold(
    overrides: Seq<OverrideModel>,
    those: Seq<ItemModel>,
    fresh: Seq<u64>,
    base: int,
    n: int,
    k: int,
    j: int,
)
    requires
        0 <= k < n <= those.len(),
        0 <= j < overrides.len(),
        first_where(overrides, override_for(those[k].id)) == Some(j),
    ensures
        moved_overrides(overrides, those, fresh, base, n).contains(
            OverrideModel { item: ItemId(fresh[base + k]), params: overrides[j].params },
        ),
    decreases n,
{
    let before = moved_overrides(overrides, those, fresh, base, n - 1);
    let x = OverrideModel { item: ItemId(fresh[base + k]), params: overrides[j].params };
    match first_where(overrides, override_for(those[n - 1].id)) {
        Some(i) => {
            push_holds(
                before,
                OverrideModel { item: ItemId(fresh[base + n - 1]), params: overrides[i].params },
            );
        },
        None => {},
    }
    if k < n - 1 {
        moved_overrides_hold(overrides, those, fresh, base, n - 1, k, j);
    }
}

/// The tracks of the first `n` that hold clips meant, layered as they were.
proof fn inner_tracks_mirror(
    s: SequenceModel,
    items: Seq<ItemId>,
    fresh: Seq<u64>,
    start: int,
    n: int,
) -> (out: (Seq<int>, Seq<Seq<int>>))
    requires
        0 <= n <= s.tracks.len(),
        forall|t: int, i: int| #[trigger]
            meant(s, items, t, i) ==> i64::MIN <= s.tracks[t].items[i].range.start.0 - start
                <= i64::MAX,
    ensures
        ({
            let inner = inner_tracks(s, items, fresh, start, n);
            let (at, from) = out;
            &&& at.len() == inner.len()
            &&& from.len() == at.len()
            &&& forall|a: int, b: int|
                0 <= a < b < at.len() ==> (#[trigger] at[a]) < (#[trigger] at[b])
            &&& forall|k: int|
                0 <= k < at.len() ==> 0 <= (#[trigger] at[k]) < n && copies_track(
                    s.tracks[at[k]],
                    items,
                    inner[k],
                    start,
                    from[k],
                ) && changes_along(
                    s.tracks[at[k]],
                    s.variants[s.active as int].overrides,
                    inner[k],
                    inner_overrides(s, items, fresh, n),
                    from[k],
                )
            &&& forall|t: int, i: int| #[trigger] meant(s, items, t, i) && t < n ==> at.contains(t)
        }),
    decreases n,
{
    if n <= 0 {
        (Seq::empty(), Seq::empty())
    } else {
        let (at, from) = inner_tracks_mirror(s, items, fresh, start, n - 1);
        let t = n - 1;
        let there = kept_places(s.tracks[t].items, selected(items));
        if mine(s.tracks[t], items).len() > 0 {
            let here = inner_track_copies(s, items, fresh, start, t);
            push_holds(at, t);
            let all = (at.push(t), from.push(here));
            let inner = inner_tracks(s, items, fresh, start, n);
            let overrides = s.variants[s.active as int].overrides;
            let before = inner_overrides(s, items, fresh, n - 1);
            let more = moved_overrides(
                overrides,
                mine(s.tracks[t], items),
                fresh,
                ids_taken(s, items, t) + 1,
                mine(s.tracks[t], items).len() as int,
            );
            let copied = inner_overrides(s, items, fresh, n);
            assert(copied == before + more);
            assert forall|x: OverrideModel| before.contains(x) || more.contains(x) implies
                #[trigger] copied.contains(x) by {
                if before.contains(x) {
                    let h = choose|h: int| 0 <= h < before.len() && before[h] == x;
                    assert(copied[h] == x);
                } else {
                    let h = choose|h: int| 0 <= h < more.len() && more[h] == x;
                    assert(copied[before.len() + h] == x);
                }
            }
            assert forall|k: int| 0 <= k < all.0.len() implies 0 <= (#[trigger] all.0[k]) < n
                && copies_track(s.tracks[all.0[k]], items, inner[k], start, all.1[k])
                && changes_along(s.tracks[all.0[k]], overrides, inner[k], copied, all.1[k]) by {
                if k < at.len() {
                    assert(all.0[k] == at[k]);
                }
            }
            assert forall|a: int, b: int| 0 <= a < b < all.0.len() implies (#[trigger] all.0[a]) < (
            #[trigger] all.0[b]) by {
                assert(all.0[a] == at[a]);
                if b < at.len() {
                    assert(all.0[b] == at[b]);
                }
            }
            assert forall|u: int, i: int| #[trigger] meant(s, items, u, i) && u < n implies all.0.contains(
            u) by {
                if u < t {
                    assert(at.contains(u));
                }
            }
            all
        } else {
            assert forall|u: int, i: int| #[trigger] meant(s, items, u, i) && u < n implies at.contains(
            u) by {
                if u == t {
                    assert(selected(items)(s.tracks[t].items[i]));
                    assert(there.contains(i));
                }
            }
            (at, from)
        }
    }
}

spec fn one_meant(s: SequenceModel, items: Seq<ItemId>, x: ItemModel) -> bool {
    exists|t: int, i: int| #[trigger] meant(s, items, t, i) && s.tracks[t].items[i] == x
}

/// A clip is one of those meant where it's chosen, and the other way round.
proof fn chosen_are_meant(s: SequenceModel, items: Seq<ItemId>)
    ensures
        forall|k: int|
            0 <= k < chosen(s, items).len() ==> one_meant(s, items, #[trigger] chosen(s, items)[k]),
        forall|t: int, i: int| #[trigger]
            meant(s, items, t, i) ==> chosen(s, items).contains(s.tracks[t].items[i]),
{
    let f = miner(items);
    assert forall|k: int| 0 <= k < chosen(s, items).len() implies one_meant(
        s,
        items,
        #[trigger] chosen(s, items)[k],
    ) by {
        let (t, j) = flat_map_from(s.tracks, f, k);
        let at = kept_places(s.tracks[t].items, selected(items));
        assert(s.tracks[t].items[at[j]] == chosen(s, items)[k]);
        assert(selected(items)(s.tracks[t].items[at[j]]));
        assert(meant(s, items, t, at[j]));
    }
    assert forall|t: int, i: int| #[trigger] meant(s, items, t, i) implies chosen(
        s,
        items,
    ).contains(s.tracks[t].items[i]) by {
        let at = kept_places(s.tracks[t].items, selected(items));
        assert(selected(items)(s.tracks[t].items[i]));
        let j = choose|j: int| 0 <= j < at.len() && at[j] == i;
        assert(s.tracks[t].items[at[j]] == mine(s.tracks[t], items)[j]);
        mine_are_chosen(s, items, t, j);
    }
}

/// What comes out of a list comes from one of its elements.
proof fn flat_map_from<T, U>(s: Seq<T>, f: spec_fn(T) -> Seq<U>, k: int) -> (out: (int, int))
    requires
        0 <= k < s.flat_map(f).len(),
    ensures
        0 <= out.0 < s.len(),
        0 <= out.1 < f(s[out.0]).len(),
        f(s[out.0])[out.1] == s.flat_map(f)[k],
    decreases s.len(),
{
    if s.len() == 0 {
        assert(s.flat_map(f) =~= Seq::<U>::empty()) by {
            nothing_mapped(s, f);
        }
        (0, 0)
    } else {
        let n = s.len() - 1;
        let rest = s.drop_last();
        rest.lemma_flat_map_push(f, s[n]);
        assert(rest.push(s[n]) =~= s);
        let m = rest.flat_map(f).len();
        if k < m {
            let (t, j) = flat_map_from(rest, f, k);
            assert(rest[t] == s[t]);
            (t, j)
        } else {
            (n, k - m)
        }
    }
}

/// The last of the clips to end.
proof fn latest_is_right(items: Seq<ItemModel>)
    requires
        items.len() > 0,
    ensures
        forall|k: int| 0 <= k < items.len() ==> (#[trigger] items[k]).range.ends() <= last_end(items),
        exists|k: int| 0 <= k < items.len() && (#[trigger] items[k]).range.ends() == last_end(items),
    decreases items.len(),
{
    if items.len() > 1 {
        let rest = items.drop_last();
        latest_is_right(rest);
        let k = choose|k: int| 0 <= k < rest.len() && (#[trigger] rest[k]).range.ends() == last_end(
            rest,
        );
        assert(items[k] == rest[k]);
        assert(items[items.len() - 1] == items.last());
        assert forall|k: int| 0 <= k < items.len() implies (#[trigger] items[k]).range.ends()
            <= last_end(items) by {
            if k < rest.len() {
                assert(rest[k] == items[k]);
            }
        }
    } else {
        assert(items[0].range.ends() == last_end(items));
    }
}

/// Where the clips meant start and end.
proof fn span_is_right(s: SequenceModel, items: Seq<ItemId>)
    requires
        chosen(s, items).len() > 0,
    ensures
        starts_first(s, items, first_start(chosen(s, items)).0 as int),
        ends_last(s, items, last_end(chosen(s, items))),
{
    let those = chosen(s, items);
    let start = first_start(those).0 as int;
    chosen_are_meant(s, items);
    latest_is_right(those);
    assert forall|t: int, i: int| #[trigger] meant(s, items, t, i) implies start
        <= s.tracks[t].items[i].range.start.0 && s.tracks[t].items[i].range.start.0
        + s.tracks[t].items[i].range.duration.0 <= last_end(those) by {
        let x = s.tracks[t].items[i];
        let k = choose|k: int| 0 <= k < those.len() && those[k] == x;
        earliest_is_least(those, k);
        assert(those[k].range.ends() <= last_end(those));
    }
    let j = earliest_is_one(those);
    assert(one_meant(s, items, those[j]));
    let (t, i) = choose|t: int, i: int| #[trigger]
        meant(s, items, t, i) && s.tracks[t].items[i] == those[j];
    assert(meant(s, items, t, i) && start == s.tracks[t].items[i].range.start.0);
    let k = choose|k: int| 0 <= k < those.len() && (#[trigger] those[k]).range.ends() == last_end(
        those,
    );
    assert(one_meant(s, items, those[k]));
    let (u, v) = choose|t: int, i: int| #[trigger]
        meant(s, items, t, i) && s.tracks[t].items[i] == those[k];
    assert(meant(s, items, u, v) && last_end(those) == s.tracks[u].items[v].range.start.0
        + s.tracks[u].items[v].range.duration.0);
}

/// Clips that can be made into a compound can be moved by where they start.
proof fn moves_fit(s: SequenceModel, items: Seq<ItemId>)
    requires
        chosen(s, items).len() > 0,
        span_fits(s, items),
    ensures
        forall|t: int, i: int| #[trigger]
            meant(s, items, t, i) ==> i64::MIN <= s.tracks[t].items[i].range.start.0 - first_start(
                chosen(s, items),
            ).0 <= i64::MAX,
{
    let those = chosen(s, items);
    chosen_are_meant(s, items);
    assert forall|t: int, i: int| #[trigger] meant(s, items, t, i) implies i64::MIN
        <= s.tracks[t].items[i].range.start.0 - first_start(those).0 <= i64::MAX by {
        let k = choose|k: int| 0 <= k < those.len() && those[k] == s.tracks[t].items[i];
        earliest_is_least(those, k);
        assert(those[k].range.fits());
    }
}

/// A compound clip plays its clips as they were: the layers stay in order (what was drawn over
/// something else still is), every clip is as long as it was and as far from the others, and
/// the first of them starts at 0.
pub proof fn compound_plays_as_it_was(
    s: SequenceModel,
    items: Seq<ItemId>,
    fresh: Seq<u64>,
    sequences: nat,
    background: ItemModel,
    nest: bool,
)
    requires
        s.active < s.variants.len(),
        chosen(s, items).len() > 0,
        span_fits(s, items),
    ensures
        ({
            let ops = compound_ops(s, items, fresh, sequences, background, nest);
            &&& ops.len() > 0
            &&& ops[0] matches OpModel::AddSequence { sequence } && plays_as_it_was(
                s,
                items,
                sequence,
            ) && sequence.rate_num == s.rate_num && sequence.rate_den == s.rate_den
                && sequence.variants.len() == 1 && sequence.variants[0].width
                == s.variants[s.active as int].width && sequence.variants[0].height
                == s.variants[s.active as int].height
        }),
{
    let start = first_start(chosen(s, items)).0 as int;
    moves_fit(s, items);
    span_is_right(s, items);
    let (at, from) = inner_tracks_mirror(s, items, fresh, start, s.tracks.len() as int);
    let name = "Compound "@ + decimal(sequences);
    let inner = inner_sequence(s, items, fresh, name, background);
    assert(mirrors(s, items, inner, start, at, from));
    let ops = compound_ops(s, items, fresh, sequences, background, nest);
    assert(ops[0] == OpModel::AddSequence { sequence: inner });
}

/// The track has clips meant and no other clip in the way of what they took up.
pub open spec fn makes_room(s: SequenceModel, items: Seq<ItemId>, t: int, range: TimeRange) -> bool {
    &&& 0 <= t < s.tracks.len()
    &&& exists|i: int| #[trigger] meant(s, items, t, i)
    &&& forall|i: int|
        0 <= i < s.tracks[t].items.len() && !items.contains((#[trigger] s.tracks[t].items[i]).id)
            ==> s.tracks[t].items[i].range.start.0 + s.tracks[t].items[i].range.duration.0
            <= range.start.0 || range.start.0 + range.duration.0
            <= s.tracks[t].items[i].range.start.0
}

/// The changes put one clip in place of those meant: all of them go and no others, and the one
/// plays the compound over the very stretch they took up, on a track of theirs that has room
/// once they're gone (a video track where one has), or on a new video track.
pub open spec fn replaces(s: SequenceModel, items: Seq<ItemId>, seq: SeqId, clip: ItemId, ops: Seq<OpModel>) -> bool {
    &&& ops.len() > 0
    &&& ops.last() matches OpModel::InsertItem { seq: on, track, item } && on == s.id && item.id
        == clip && item.kind == (ItemKind::Nested { sequence: seq }) && starts_first(
        s,
        items,
        item.range.start.0 as int,
    ) && ends_last(s, items, item.range.start.0 + item.range.duration.0) && {
        ||| exists|t: int| #[trigger]
            makes_room(s, items, t, item.range) && s.tracks[t].id == track && (
            s.tracks[t].kind is Video || forall|u: int| #[trigger]
                makes_room(s, items, u, item.range) ==> !(s.tracks[u].kind is Video))
        ||| (forall|u: int| !#[trigger] makes_room(s, items, u, item.range)) && ops.len() > 1 && (
        ops[ops.len() - 2] matches OpModel::InsertTrack { seq: to, index, track: new } && to
            == s.id && new.id == track && new.kind is Video && !new.effects && new.items.len() == 0)
    }
    &&& forall|t: int, i: int| #[trigger]
        meant(s, items, t, i) ==> ops.contains(
            OpModel::RemoveItem { seq: s.id, item: s.tracks[t].items[i].id },
        )
    &&& forall|j: int|
        0 <= j < ops.len() - 1 ==> {
            ||| ((#[trigger] ops[j]) matches OpModel::RemoveItem { seq: on, item } && on == s.id
                && items.contains(item))
            ||| (ops[j] is InsertTrack && j == ops.len() - 2)
        }
}

/// A track frees up just where it has room once the clips meant are gone.
proof fn freed_has_room(s: SequenceModel, items: Seq<ItemId>, range: TimeRange, t: int)
    requires
        0 <= t < s.tracks.len(),
    ensures
        frees_up(items, range, s.tracks[t].kind is Video)(s.tracks[t]) == makes_room(
            s,
            items,
            t,
            range,
        ),
{
    let track = s.tracks[t];
    let p = selected(items);
    let at = kept_places(track.items, p);
    if mine(track, items).len() > 0 {
        assert(p(track.items[at[0]]));
        assert(meant(s, items, t, at[0]));
    }
    if exists|i: int| #[trigger] meant(s, items, t, i) {
        let i = choose|i: int| #[trigger] meant(s, items, t, i);
        assert(p(track.items[i]));
        assert(at.contains(i));
    }
    if !others_in(track.items, items, range) {
        assert forall|i: int|
            0 <= i < track.items.len() && !items.contains((#[trigger] track.items[i]).id) implies track.items[i].range.start.0
            + track.items[i].range.duration.0 <= range.start.0 || range.start.0
            + range.duration.0 <= track.items[i].range.start.0 by {
            assert(!track.items[i].range.meets(range));
        }
    }
}

/// Nesting puts one clip in the place of the clips: none of them stays, nothing else goes, and
/// the one takes up exactly the stretch they took up. Without it nothing on the timeline
/// changes.
pub proof fn nesting_replaces_the_clips(
    s: SequenceModel,
    items: Seq<ItemId>,
    fresh: Seq<u64>,
    sequences: nat,
    background: ItemModel,
)
    requires
        chosen(s, items).len() > 0,
        span_fits(s, items),
    ensures
        replaces(
            s,
            items,
            SeqId(fresh[0]),
            clip_id(s, items, fresh),
            compound_ops(s, items, fresh, sequences, background, true).skip(1),
        ),
        compound_ops(s, items, fresh, sequences, background, false).len() == 1,
{
    let those = chosen(s, items);
    let start = first_start(those);
    let range = TimeRange { start, duration: Time((last_end(those) - start.0) as i64) };
    let name = "Compound "@ + decimal(sequences);
    let ops = nest_ops(s, items, fresh, name);
    let all = compound_ops(s, items, fresh, sequences, background, true);
    assert(all.skip(1) =~= ops);
    span_is_right(s, items);
    chosen_are_meant(s, items);
    let gone = those.map_values(item_remover(s.id));
    first_is_right(s.tracks, frees_up(items, range, true), 0);
    first_is_right(s.tracks, frees_up(items, range, false), 0);
    assert forall|u: int| #[trigger] makes_room(s, items, u, range) implies nest_track(
        s,
        items,
        range,
    ) is Some && (s.tracks[u].kind is Video ==> first_where(
        s.tracks,
        frees_up(items, range, true),
    ) is Some) by {
        freed_has_room(s, items, range, u);
        assert(frees_up(items, range, s.tracks[u].kind is Video)(s.tracks[u]));
    }
    match nest_track(s, items, range) {
        Some(t) => {
            freed_has_room(s, items, range, t);
            assert(makes_room(s, items, t, range));
            assert(ops =~= gone.push(ops.last()));
        },
        None => {
            assert(ops.len() == gone.len() + 2);
        },
    }
    assert forall|t: int, i: int| #[trigger] meant(s, items, t, i) implies ops.contains(
        OpModel::RemoveItem { seq: s.id, item: s.tracks[t].items[i].id },
    ) by {
        let k = choose|k: int| 0 <= k < those.len() && those[k] == s.tracks[t].items[i];
        assert(ops[k] == gone[k]);
    }
    assert forall|j: int| 0 <= j < ops.len() - 1 implies {
        ||| ((#[trigger] ops[j]) matches OpModel::RemoveItem { seq: on, item } && on == s.id
            && items.contains(item))
        ||| (ops[j] is InsertTrack && j == ops.len() - 2)
    } by {
        if j < gone.len() {
            assert(ops[j] == gone[j]);
            assert(one_meant(s, items, those[j]));
        }
    }
}

/// All of it at once.
proof fn compound_is_right(
    s: SequenceModel,
    items: Seq<ItemId>,
    fresh: Seq<u64>,
    sequences: nat,
    background: ItemModel,
    nest: bool,
)
    requires
        s.active < s.variants.len(),
        chosen(s, items).len() > 0 ==> span_fits(s, items),
    ensures
        chosen(s, items).len() == 0 <==> forall|t: int, i: int| !#[trigger] meant(s, items, t, i),
        chosen(s, items).len() > 0 ==> ({
            let ops = compound_ops(s, items, fresh, sequences, background, nest);
            &&& ops[0] matches OpModel::AddSequence { sequence } && sequence.id == SeqId(fresh[0])
                && plays_as_it_was(s, items, sequence)
            &&& nest ==> replaces(
                s,
                items,
                SeqId(fresh[0]),
                clip_id(s, items, fresh),
                ops.skip(1),
            )
            &&& !nest ==> ops.len() == 1
        }),
{
    chosen_are_meant(s, items);
    if chosen(s, items).len() > 0 {
        assert(one_meant(s, items, chosen(s, items)[0]));
        compound_plays_as_it_was(s, items, fresh, sequences, background, nest);
        nesting_replaces_the_clips(s, items, fresh, sequences, background);
    } else {
        assert forall|t: int, i: int| !#[trigger] meant(s, items, t, i) by {
            if meant(s, items, t, i) {
                assert(chosen(s, items).contains(s.tracks[t].items[i]));
            }
        }
    }
}

/// Two clips on different layers stay on different layers, the same one on top.
pub proof fn layers_stay_in_order(
    s: SequenceModel,
    items: Seq<ItemId>,
    inner: SequenceModel,
    lower: int,
    i: int,
    upper: int,
    j: int,
)
    requires
        plays_as_it_was(s, items, inner),
        meant(s, items, lower, i),
        meant(s, items, upper, j),
        lower < upper,
    ensures
        exists|a: int, b: int|
            0 <= a < b < inner.tracks.len() && (#[trigger] inner.tracks[a]).name
                == s.tracks[lower].name && inner.tracks[a].kind == s.tracks[lower].kind && (
            #[trigger] inner.tracks[b]).name == s.tracks[upper].name && inner.tracks[b].kind
                == s.tracks[upper].kind,
{
    let (start, at, from) = choose|start: int, at: Seq<int>, from: Seq<Seq<int>>|
        starts_first(s, items, start) && #[trigger] mirrors(s, items, inner, start, at, from);
    assert(at.contains(lower) && at.contains(upper));
    let a = choose|a: int| 0 <= a < at.len() && at[a] == lower;
    let b = choose|b: int| 0 <= b < at.len() && at[b] == upper;
    if b <= a {
        if b < a {
            assert(at[b] < at[a]);
        }
    }
    assert(copies_track(s.tracks[at[a]], items, inner.tracks[a], start, from[a]));
    assert(copies_track(s.tracks[at[b]], items, inner.tracks[b], start, from[b]));
}

} // verus!
