//! Clip and track commands behind the timeline's menus and shortcuts: copy and delete,
//! group and ungroup, enable and disable, sound on tracks of its own, and tracks moved or
//! deleted. Each is one undo step.
use crate::caption_track::stores;
use crate::doc::{
    get_param, item_of, param_from, param_of, place_of, track_of, EffectInstance, EffectModel, Item, ItemId,
    ItemKind, ItemModel, Op, OpModel, Param, ParamModel, ParamTarget, SeqId, Sequence,
    SequenceModel, Source, Time, TimeRange, Track, TrackId, TrackKind, TrackModel,
};
use crate::editor::{with_media, Editor, PoolItem};
use crate::placing::clear_of;
use crate::seqs::{
    filter_map_push, filter_step, first_from, first_is_right, first_where, kept_places, push_holds,
    take_all, views,
};
use crate::text::{decimal, join2, listed, number};
use vstd::prelude::*;

verus! {

/// A copied clip, with the track it came from.
pub struct Copied {
    pub track: TrackId,
    pub item: Item,
}

#[verifier::ext_equal]
pub struct CopiedModel {
    pub track: TrackId,
    pub item: ItemModel,
}

impl View for Copied {
    type V = CopiedModel;

    open spec fn view(&self) -> CopiedModel {
        CopiedModel { track: self.track, item: self.item@ }
    }
}

/// A clip of the timeline, copied.
pub open spec fn copied(s: SequenceModel) -> spec_fn(ItemId) -> Option<CopiedModel> {
    |id: ItemId|
        match place_of(s, id) {
            Some((t, i)) => Some(
                CopiedModel { track: s.tracks[t].id, item: s.tracks[t].items[i] },
            ),
            None => None,
        }
}

/// The change that removes a clip.
pub open spec fn removed(seq: SeqId) -> spec_fn(ItemId) -> OpModel {
    |id: ItemId| OpModel::RemoveItem { seq, item: id }
}

/// The change that puts a clip in a group.
pub open spec fn put_in_group(seq: SeqId, group: Option<u64>) -> spec_fn(ItemId) -> OpModel {
    |id: ItemId| OpModel::SetItemGroup { seq, item: id, group }
}

/// The change that switches a clip on or off.
pub open spec fn switched_to(seq: SeqId, enabled: bool) -> spec_fn(ItemId) -> OpModel {
    |id: ItemId| OpModel::SetItemEnabled { seq, item: id, enabled }
}

/// The clip is in some group.
pub open spec fn is_grouped(s: SequenceModel) -> spec_fn(ItemId) -> bool {
    |id: ItemId| item_of(s, id) matches Some(it) && it.group is Some
}

/// The clip plays a compound.
pub open spec fn is_compound(s: SequenceModel) -> spec_fn(ItemId) -> bool {
    |id: ItemId| item_of(s, id) matches Some(it) && it.kind is Nested
}

/// The clip is there, and off.
pub open spec fn is_off(s: SequenceModel) -> spec_fn(ItemId) -> bool {
    |id: ItemId| item_of(s, id) matches Some(it) && !it.enabled
}

/// Copies of the clips, each with the track it came from.
pub fn copy_selection(s: &Sequence, clips: &Vec<ItemId>) -> (out: Vec<Copied>)
    ensures
        views(out@) == clips@.filter_map(copied(s@)),
{
    let ghost f = copied(s@);
    let mut out: Vec<Copied> = Vec::new();
    let mut i: usize = 0;
    proof {
        take_all(clips@);
        assert(views(out@) =~= Seq::<CopiedModel>::empty());
    }
    while i < clips.len()
        invariant
            f == copied(s@),
            i <= clips@.len(),
            views(out@) == clips@.take(i as int).filter_map(f),
        decreases clips@.len() - i,
    {
        proof {
            assert(clips@.take(i + 1) =~= clips@.take(i as int).push(clips@[i as int]));
            filter_map_push(clips@.take(i as int), f, clips@[i as int]);
        }
        if let Some((t, k)) = s.find_item(clips[i]) {
            let ghost had = out@;
            assert(s@.tracks[t as int] == s.tracks@[t as int]@);
            out.push(Copied { track: s.tracks[t].id, item: s.tracks[t].items[k].copy() });
            assert(views(out@) =~= views(had).push(out@.last()@));
        }
        i = i + 1;
    }
    proof {
        take_all(clips@);
    }
    out
}

/// The changes that delete the clips.
pub fn delete_selection(seq: SeqId, clips: &Vec<ItemId>) -> (out: Vec<Op>)
    ensures
        views(out@) == clips@.map_values(removed(seq)),
{
    let mut out: Vec<Op> = Vec::new();
    let mut i: usize = 0;
    while i < clips.len()
        invariant
            i <= clips@.len(),
            out@.len() == i,
            forall|k: int| 0 <= k < i ==> (#[trigger] out@[k])@ == removed(seq)(clips@[k]),
        decreases clips@.len() - i,
    {
        out.push(Op::RemoveItem { seq, item: clips[i] });
        i = i + 1;
    }
    assert(views(out@) =~= clips@.map_values(removed(seq)));
    out
}

fn group_ops(seq: SeqId, clips: &Vec<ItemId>, group: Option<u64>) -> (out: Vec<Op>)
    ensures
        views(out@) == clips@.map_values(put_in_group(seq, group)),
{
    let mut out: Vec<Op> = Vec::new();
    let mut i: usize = 0;
    while i < clips.len()
        invariant
            i <= clips@.len(),
            out@.len() == i,
            forall|k: int|
                0 <= k < i ==> (#[trigger] out@[k])@ == put_in_group(seq, group)(clips@[k]),
        decreases clips@.len() - i,
    {
        out.push(Op::SetItemGroup { seq, item: clips[i], group });
        i = i + 1;
    }
    assert(views(out@) =~= clips@.map_values(put_in_group(seq, group)));
    out
}

/// The changes that group the clips (one alone can't be a group). `group` is a fresh id.
pub fn group_selection(seq: SeqId, clips: &Vec<ItemId>, group: u64) -> (out: Vec<Op>)
    ensures
        views(out@) == if clips@.len() < 2 {
            Seq::<OpModel>::empty()
        } else {
            clips@.map_values(put_in_group(seq, Some(group)))
        },
{
    if clips.len() < 2 {
        let out: Vec<Op> = Vec::new();
        assert(views(out@) =~= Seq::<OpModel>::empty());
        return out;
    }
    group_ops(seq, clips, Some(group))
}

/// The changes that take the clips out of their groups.
pub fn ungroup_selection(s: &Sequence, clips: &Vec<ItemId>) -> (out: Vec<Op>)
    ensures
        views(out@) == clips@.filter(is_grouped(s@)).map_values(put_in_group(s@.id, None)),
{
    let ghost p = is_grouped(s@);
    let mut those: Vec<ItemId> = Vec::new();
    let mut i: usize = 0;
    proof {
        take_all(clips@);
        reveal_with_fuel(Seq::filter, 1);
    }
    while i < clips.len()
        invariant
            p == is_grouped(s@),
            i <= clips@.len(),
            those@ == clips@.take(i as int).filter(p),
        decreases clips@.len() - i,
    {
        proof {
            filter_step(clips@, p, i as int);
        }
        if let Some(it) = s.item(clips[i]) {
            if it.group.is_some() {
                those.push(clips[i]);
            }
        }
        i = i + 1;
    }
    proof {
        take_all(clips@);
    }
    group_ops(s.id, &those, None)
}

/// Whether any of the clips is in a group.
pub fn selection_grouped(s: &Sequence, members: &Vec<ItemId>) -> (out: bool)
    ensures
        out <==> exists|k: int| 0 <= k < members@.len() && is_grouped(s@)(#[trigger] members@[k]),
{
    let mut i: usize = 0;
    while i < members.len()
        invariant
            i <= members@.len(),
            forall|k: int| 0 <= k < i ==> !is_grouped(s@)(#[trigger] members@[k]),
        decreases members@.len() - i,
    {
        if let Some(it) = s.item(members[i]) {
            if it.group.is_some() {
                assert(is_grouped(s@)(members@[i as int]));
                return true;
            }
        }
        i = i + 1;
    }
    false
}

/// Whether any of the clips is a compound clip (one that can be broken apart).
pub fn compound_selected(s: &Sequence, members: &Vec<ItemId>) -> (out: bool)
    ensures
        out <==> exists|k: int| 0 <= k < members@.len() && is_compound(s@)(#[trigger] members@[k]),
{
    let mut i: usize = 0;
    while i < members.len()
        invariant
            i <= members@.len(),
            forall|k: int| 0 <= k < i ==> !is_compound(s@)(#[trigger] members@[k]),
        decreases members@.len() - i,
    {
        if let Some(it) = s.item(members[i]) {
            if matches!(it.kind, ItemKind::Nested { .. }) {
                assert(is_compound(s@)(members@[i as int]));
                return true;
            }
        }
        i = i + 1;
    }
    false
}

/// Turns the clips off (or on, if they're all off): the changes, and which of the two.
pub fn toggle_selection_enabled(s: &Sequence, clips: &Vec<ItemId>) -> (out: (Vec<Op>, bool))
    ensures
        out.1 <==> forall|k: int| 0 <= k < clips@.len() ==> is_off(s@)(#[trigger] clips@[k]),
        views(out.0@) == clips@.map_values(switched_to(s@.id, out.1)),
{
    let mut all_off = true;
    let mut i: usize = 0;
    while i < clips.len()
        invariant
            i <= clips@.len(),
            all_off <==> forall|k: int| 0 <= k < i ==> is_off(s@)(#[trigger] clips@[k]),
        decreases clips@.len() - i,
    {
        let off = match s.item(clips[i]) {
            Some(it) => !it.enabled,
            None => false,
        };
        assert(off == is_off(s@)(clips@[i as int]));
        if !off {
            all_off = false;
        }
        i = i + 1;
    }
    let mut out: Vec<Op> = Vec::new();
    let mut j: usize = 0;
    while j < clips.len()
        invariant
            j <= clips@.len(),
            out@.len() == j,
            forall|k: int|
                0 <= k < j ==> (#[trigger] out@[k])@ == switched_to(s@.id, all_off)(clips@[k]),
        decreases clips@.len() - j,
    {
        out.push(Op::SetItemEnabled { seq: s.id, item: clips[j], enabled: all_off });
        j = j + 1;
    }
    assert(views(out@) =~= clips@.map_values(switched_to(s@.id, all_off)));
    (out, all_off)
}

/// Where the last of the clips ends (`None`: none of them is there).
pub open spec fn end_last(s: SequenceModel, clips: Seq<ItemId>, end: Option<Time>) -> bool {
    match end {
        Some(end) => (exists|k: int|
            0 <= k < clips.len() && item_of(s, #[trigger] clips[k]) is Some && item_of(
                s,
                clips[k],
            )->0.range.ends() == end.0) && forall|k: int|
            0 <= k < clips.len() && item_of(s, clips[k]) is Some ==> item_of(
                s,
                #[trigger] clips[k],
            )->0.range.ends() <= end.0,
        None => forall|k: int| 0 <= k < clips.len() ==> item_of(s, #[trigger] clips[k]) is None,
    }
}

/// Where copies of the clips go: where the last of them ends.
pub fn duplicate_at(s: &Sequence, clips: &Vec<ItemId>) -> (out: Option<Time>)
    requires
        forall|k: int|
            0 <= k < clips@.len() && item_of(s@, clips@[k]) is Some ==> item_of(
                s@,
                #[trigger] clips@[k],
            )->0.range.fits(),
    ensures
        end_last(s@, clips@, out),
{
    let mut best: Option<Time> = None;
    let mut i: usize = 0;
    while i < clips.len()
        invariant
            forall|k: int|
                0 <= k < clips@.len() && item_of(s@, clips@[k]) is Some ==> item_of(
                    s@,
                    #[trigger] clips@[k],
                )->0.range.fits(),
            i <= clips@.len(),
            match best {
                Some(end) => (exists|k: int|
                    0 <= k < i && item_of(s@, #[trigger] clips@[k]) is Some && item_of(
                        s@,
                        clips@[k],
                    )->0.range.ends() == end.0) && forall|k: int|
                    0 <= k < i && item_of(s@, clips@[k]) is Some ==> item_of(
                        s@,
                        #[trigger] clips@[k],
                    )->0.range.ends() <= end.0,
                None => forall|k: int|
                    0 <= k < i ==> item_of(s@, #[trigger] clips@[k]) is None,
            },
        decreases clips@.len() - i,
    {
        if let Some(it) = s.item(clips[i]) {
            assert(item_of(s@, clips@[i as int]) is Some);
            let end = it.range.end();
            best = match best {
                Some(b) => Some(b.most(end)),
                None => Some(end),
            };
        }
        i = i + 1;
    }
    best
}

/// The clips that were copied.
pub struct Clipboard {
    pub clips: Vec<Copied>,
}

/// Copies to paste, and where the first of them goes.
pub struct Paste {
    pub clips: Vec<Copied>,
    pub at: Time,
}

impl Clipboard {
    /// Copies the clips; what was copied before stays where there are none.
    pub fn copy_selection(&mut self, s: &Sequence, clips: &Vec<ItemId>)
        ensures
            views(final(self).clips@) == if clips@.filter_map(copied(s@)).len() == 0 {
                views(old(self).clips@)
            } else {
                clips@.filter_map(copied(s@))
            },
    {
        let copies = copy_selection(s, clips);
        assert(views(copies@).len() == copies@.len());
        if copies.len() > 0 {
            self.clips = copies;
        }
    }

    /// Copies of the clips, right after them. What was copied before is still copied.
    pub fn duplicate_selection(&mut self, s: &Sequence, clips: &Vec<ItemId>) -> (out: Option<Paste>)
        requires
            forall|k: int|
                0 <= k < clips@.len() && item_of(s@, clips@[k]) is Some ==> item_of(
                    s@,
                    #[trigger] clips@[k],
                )->0.range.fits(),
        ensures
            *final(self) == *old(self),
            match out {
                Some(p) => {
                    &&& clips@.filter_map(copied(s@)).len() > 0
                    &&& views(p.clips@) == clips@.filter_map(copied(s@))
                    &&& end_last(s@, clips@, Some(p.at))
                },
                None => end_last(s@, clips@, None) || clips@.filter_map(copied(s@)).len() == 0,
            },
    {
        match duplicate_at(s, clips) {
            Some(at) => {
                let mut saved: Vec<Copied> = Vec::new();
                std::mem::swap(&mut saved, &mut self.clips);
                assert(views(self.clips@) =~= Seq::<CopiedModel>::empty());
                self.copy_selection(s, clips);
                std::mem::swap(&mut saved, &mut self.clips);
                assert(views(saved@).len() == saved@.len());
                if saved.len() == 0 {
                    None
                } else {
                    Some(Paste { clips: saved, at })
                }
            },
            None => None,
        }
    }
}

// ---- tracks ----

/// Where the track goes when it's moved: one place up or down the list. Video is drawn
/// top-down from the end of the list, audio from the start.
pub open spec fn moved_to(kind: TrackKind, index: int, up: bool) -> int {
    if (kind is Video) == up {
        index + 1
    } else {
        index - 1
    }
}

/// The changes that move a track one place up (towards the top of the stack for video, up
/// the list for audio). Nothing happens past the tracks of its kind.
pub fn move_track(s: &Sequence, track: TrackId, up: bool) -> (out: Vec<Op>)
    ensures
        views(out@) == match track_of(s@, track) {
            None => Seq::<OpModel>::empty(),
            Some(i) => {
                let to = moved_to(s@.tracks[i].kind, i, up);
                if 0 <= to < s@.tracks.len() && s@.tracks[to].kind == s@.tracks[i].kind {
                    seq![
                        OpModel::RemoveTrack { seq: s@.id, track },
                        OpModel::InsertTrack {
                            seq: s@.id,
                            index: to as usize,
                            track: s@.tracks[i],
                        },
                    ]
                } else {
                    Seq::<OpModel>::empty()
                }
            },
        },
{
    let mut out: Vec<Op> = Vec::new();
    assert(views(out@) =~= Seq::<OpModel>::empty());
    let found = s.track_index(track);
    if found.is_none() {
        return out;
    }
    let i: usize = found.unwrap();
    assert(s@.tracks[i as int] == s.tracks@[i as int]@);
    let kind = s.tracks[i].kind;
    let n: usize = s.tracks.len();
    let to: usize = if matches!(kind, TrackKind::Video) == up {
        i + 1
    } else {
        if i == 0 {
            return out;
        }
        i - 1
    };
    if to >= n {
        return out;
    }
    assert(s@.tracks[to as int] == s.tracks@[to as int]@);
    if s.tracks[to].kind != kind {
        return out;
    }
    out.push(Op::RemoveTrack { seq: s.id, track });
    out.push(Op::InsertTrack { seq: s.id, index: to, track: s.tracks[i].copy() });
    assert(views(out@) =~= seq![
        OpModel::RemoveTrack { seq: s@.id, track },
        OpModel::InsertTrack { seq: s@.id, index: to, track: s@.tracks[i as int] },
    ]);
    out
}

/// The tracks once track `i` has been moved one place up or down.
pub open spec fn after_move(tracks: Seq<TrackModel>, i: int, up: bool) -> Seq<TrackModel> {
    tracks.remove(i).insert(moved_to(tracks[i].kind, i, up), tracks[i])
}

/// Moving a track up and then down again puts every track back: the second move is one that
/// can be made, and it leaves the tracks as they were.
pub proof fn moving_back_undoes_a_move(tracks: Seq<TrackModel>, i: int, up: bool)
    requires
        0 <= i < tracks.len(),
        0 <= moved_to(tracks[i].kind, i, up) < tracks.len(),
        tracks[moved_to(tracks[i].kind, i, up)].kind == tracks[i].kind,
    ensures
        ({
            let to = moved_to(tracks[i].kind, i, up);
            let moved = after_move(tracks, i, up);
            &&& moved[to] == tracks[i]
            &&& moved_to(moved[to].kind, to, !up) == i
            &&& moved[i].kind == moved[to].kind
            &&& after_move(moved, to, !up) == tracks
        }),
{
    let to = moved_to(tracks[i].kind, i, up);
    let moved = after_move(tracks, i, up);
    assert(moved[to] == tracks[i]);
    assert(moved[i] == tracks[to]);
    assert(after_move(moved, to, !up) =~= tracks);
}

/// What deleting a track comes to.
#[derive(Copy, Clone, Debug, PartialEq, Eq, Structural)]
pub enum TrackDeletion {
    /// There's no such track.
    Nothing,
    /// The last track of its kind stays.
    LastOfItsKind,
    Delete,
}

/// Whether a track can be deleted with its clips: the last track of a kind stays.
pub fn delete_track(s: &Sequence, track: TrackId) -> (out: TrackDeletion)
    ensures
        out == match track_of(s@, track) {
            None => TrackDeletion::Nothing,
            Some(t) => if exists|u: int|
                0 <= u < s@.tracks.len() && u != t && (#[trigger] s@.tracks[u]).kind
                    == s@.tracks[t].kind {
                TrackDeletion::Delete
            } else {
                TrackDeletion::LastOfItsKind
            },
        },
{
    let found = s.track_index(track);
    if found.is_none() {
        return TrackDeletion::Nothing;
    }
    let t: usize = found.unwrap();
    assert(s@.tracks[t as int] == s.tracks@[t as int]@);
    let mut u: usize = 0;
    while u < s.tracks.len()
        invariant
            t < s.tracks@.len(),
            track_of(s@, track) == Some(t as int),
            s@.tracks[t as int] == s.tracks@[t as int]@,
            u <= s.tracks@.len(),
            forall|k: int|
                0 <= k < u && k != t ==> (#[trigger] s@.tracks[k]).kind
                    != s@.tracks[t as int].kind,
        decreases s.tracks@.len() - u,
    {
        assert(s@.tracks[u as int] == s.tracks@[u as int]@);
        if u != t && s.tracks[u].kind == s.tracks[t].kind {
            return TrackDeletion::Delete;
        }
        u = u + 1;
    }
    TrackDeletion::LastOfItsKind
}

/// The color a new divider takes: each the next one, so neighbors differ.
pub fn divider_color(dividers: usize, colors: usize) -> (out: usize)
    requires
        colors > 0,
    ensures
        out == dividers % colors,
        out < colors,
{
    dividers % colors
}

/// Two dividers added one after the other have different colors.
pub proof fn neighbors_differ(dividers: nat, colors: nat)
    requires
        colors > 1,
    ensures
        dividers % colors != (dividers + 1) % colors,
{
    assert(dividers % colors != (dividers + 1) % colors) by (nonlinear_arith)
        requires
            colors > 1,
    {
        let q = dividers / colors;
        let r = dividers % colors;
        assert(dividers == q * colors + r);
    }
}

// ---- sound on tracks of its own ----

/// A picture clip whose file has sound that still plays from the clip.
pub open spec fn can_extract(s: SequenceModel, pool: Seq<PoolItem>) -> spec_fn(ItemId) -> bool {
    |id: ItemId|
        match place_of(s, id) {
            None => false,
            Some((t, i)) => s.tracks[t].kind is Video && s.tracks[t].items[i].audio && match s.tracks[
            t].items[i].kind {
                ItemKind::Media { media } => first_where(pool, with_media(media)) matches Some(p)
                    && pool[p].has_audio,
                _ => false,
            },
        }
}

impl Editor {
    /// The picture clips whose file has sound that still plays from the clip.
    pub fn extractable(&self, clips: &Vec<ItemId>) -> (out: Vec<ItemId>)
        ensures
            out@ == clips@.filter(can_extract(self.timeline@, self.pool@)),
    {
        let s = &self.timeline;
        let ghost p = can_extract(s@, self.pool@);
        let mut out: Vec<ItemId> = Vec::new();
        let mut i: usize = 0;
        proof {
            take_all(clips@);
            reveal_with_fuel(Seq::filter, 1);
        }
        while i < clips.len()
            invariant
                s == &self.timeline,
                p == can_extract(s@, self.pool@),
                i <= clips@.len(),
                out@ == clips@.take(i as int).filter(p),
            decreases clips@.len() - i,
        {
            proof {
                filter_step(clips@, p, i as int);
            }
            if let Some((t, k)) = s.find_item(clips[i]) {
                assert(s@.tracks[t as int] == s.tracks@[t as int]@);
                assert(s@.tracks[t as int].items[k as int] == s.tracks@[t as int].items@[k as int]@);
                let it = &s.tracks[t].items[k];
                if matches!(s.tracks[t].kind, TrackKind::Video) && it.audio {
                    if let ItemKind::Media { media } = it.kind {
                        if let Some(pool) = self.pool_item(media) {
                            if pool.has_audio {
                                out.push(clips[i]);
                            }
                        }
                    }
                }
            }
            i = i + 1;
        }
        proof {
            take_all(clips@);
        }
        out
    }
}

/// The names of the settings that sound has.
pub struct SoundSettings {
    /// Whether a clip's own sound plays.
    pub enabled: String,
    pub gain: String,
    pub keep_pitch: String,
    /// How "off" is stored.
    pub off: Source,
}

/// A clip's own sound, already placed on a track.
#[derive(Copy, Clone, Debug, PartialEq, Eq, Structural)]
pub struct Stretch {
    pub track: TrackId,
    pub range: TimeRange,
}

/// Something placed on the track is in the way of `range`.
pub open spec fn taken(placed: Seq<Stretch>, track: TrackId, range: TimeRange) -> bool {
    exists|k: int|
        0 <= k < placed.len() && (#[trigger] placed[k]).track == track && placed[k].range.meets(
            range,
        )
}

/// An audio track that's free at `range`, what's been placed counted in.
pub open spec fn sound_free(placed: Seq<Stretch>, range: TimeRange) -> spec_fn(TrackModel) -> bool {
    |t: TrackModel|
        t.kind is Audio && !t.effects && !(exists|i: int|
            0 <= i < t.items.len() && (#[trigger] t.items[i]).range.meets(range)) && !taken(
            placed,
            t.id,
            range,
        )
}

/// A setting carried over to another clip, if it was set.
pub open spec fn carried(params: Seq<ParamModel>, id: Seq<char>) -> Seq<ParamModel> {
    match param_of(params, id) {
        Some(source) => seq![ParamModel { id, source }],
        None => Seq::empty(),
    }
}

/// A sound effect.
pub open spec fn is_sound(types: Seq<Seq<char>>) -> spec_fn(EffectModel) -> bool {
    |e: EffectModel| types.contains(e.type_id)
}

/// The audio clip with a picture clip's sound: the same file, timing, speed and gain, with
/// the sound effects, grouped with its picture.
pub open spec fn sound_clip(
    it: ItemModel,
    id: ItemId,
    group: u64,
    gain: Seq<char>,
    keep_pitch: Seq<char>,
    types: Seq<Seq<char>>,
) -> ItemModel {
    ItemModel {
        time_map: it.time_map,
        group: Some(group),
        params: carried(it.params, gain) + carried(it.params, keep_pitch),
        effects: it.effects.filter(is_sound(types)),
        ..Item::fresh(id, it.name + " (audio)"@, it.kind, it.range)
    }
}

/// What's been worked out for the clips so far.
#[verifier::ext_equal]
pub struct Extraction {
    pub ops: Seq<OpModel>,
    pub placed: Seq<Stretch>,
    pub new_tracks: nat,
    /// How many of the fresh ids are used.
    pub used: nat,
}

/// One more clip's sound moved onto an audio track that's free there, or a new one. The
/// picture's own sound goes off, and the two are grouped.
pub open spec fn extract_one(
    s: SequenceModel,
    so_far: Extraction,
    it: ItemModel,
    fresh: Seq<u64>,
    settings: SoundSettings,
    types: Seq<Seq<char>>,
) -> Extraction {
    let found = first_where(s.tracks, sound_free(so_far.placed, it.range));
    let sounds = s.tracks.filter(crate::placing::of_kind(TrackKind::Audio)).len();
    let u0 = so_far.used;
    let (track, ops1, tracks1, u1) = match found {
        Some(t) => (s.tracks[t].id, so_far.ops, so_far.new_tracks, u0),
        None => (
            TrackId(fresh[u0 as int]),
            so_far.ops.push(
                OpModel::InsertTrack {
                    seq: s.id,
                    index: (s.tracks.len() + so_far.new_tracks + 1) as usize,
                    track: Track::empty(
                        TrackId(fresh[u0 as int]),
                        "A"@ + decimal(sounds + so_far.new_tracks + 1),
                        TrackKind::Audio,
                        false,
                    ),
                },
            ),
            so_far.new_tracks + 1,
            u0 + 1,
        ),
    };
    let (group, u2) = match it.group {
        Some(g) => (g, u1),
        None => (fresh[u1 as int], u1 + 1),
    };
    let off = ops1.push(
        OpModel::SetParam {
            seq: s.id,
            item: it.id,
            target: ParamTarget::Item,
            param: settings.enabled@,
            source: Some(settings.off),
        },
    );
    let together = if it.group is None {
        off.push(OpModel::SetItemGroup { seq: s.id, item: it.id, group: Some(group) })
    } else {
        off
    };
    Extraction {
        ops: together.push(
            OpModel::InsertItem {
                seq: s.id,
                track,
                item: sound_clip(
                    it,
                    ItemId(fresh[u2 as int]),
                    group,
                    settings.gain@,
                    settings.keep_pitch@,
                    types,
                ),
            },
        ),
        placed: so_far.placed.push(Stretch { track, range: it.range }),
        new_tracks: tracks1,
        used: u2 + 1,
    }
}

/// The sound of the clips, moved one after another.
pub open spec fn extracted(
    s: SequenceModel,
    clips: Seq<ItemId>,
    fresh: Seq<u64>,
    settings: SoundSettings,
    types: Seq<Seq<char>>,
) -> Extraction
    decreases clips.len(),
{
    if clips.len() == 0 {
        Extraction { ops: Seq::empty(), placed: Seq::empty(), new_tracks: 0, used: 0 }
    } else {
        let before = extracted(s, clips.drop_last(), fresh, settings, types);
        match item_of(s, clips.last()) {
            Some(it) => extract_one(s, before, it, fresh, settings, types),
            None => before,
        }
    }
}

fn is_taken(placed: &Vec<Stretch>, track: TrackId, range: TimeRange) -> (out: bool)
    ensures
        out == taken(placed@, track, range),
{
    let mut i: usize = 0;
    while i < placed.len()
        invariant
            i <= placed@.len(),
            forall|k: int|
                0 <= k < i ==> !((#[trigger] placed@[k]).track == track && placed@[k].range.meets(
                    range,
                )),
        decreases placed@.len() - i,
    {
        if placed[i].track == track && placed[i].range.overlaps(range) {
            return true;
        }
        i = i + 1;
    }
    false
}

fn free_sound_track(s: &Sequence, placed: &Vec<Stretch>, range: TimeRange) -> (out: Option<TrackId>)
    ensures
        match first_where(s@.tracks, sound_free(placed@, range)) {
            Some(t) => out == Some(s@.tracks[t].id),
            None => out is None,
        },
{
    let ghost p = sound_free(placed@, range);
    let mut t: usize = 0;
    while t < s.tracks.len()
        invariant
            p == sound_free(placed@, range),
            t <= s.tracks@.len(),
            first_where(s@.tracks, p) == first_from(s@.tracks, p, t as int),
        decreases s.tracks@.len() - t,
    {
        let track = &s.tracks[t];
        assert(s@.tracks[t as int] == s.tracks@[t as int]@);
        if matches!(track.kind, TrackKind::Audio) && !track.effects
            && !crate::placing::has_clip_in(&track.items, range) && !is_taken(
            placed,
            track.id,
            range,
        ) {
            return Some(track.id);
        }
        t = t + 1;
    }
    None
}

/// The sound effects among the effects, copied.
fn sound_effects(effects: &Vec<EffectInstance>, types: &Vec<String>) -> (out: Vec<EffectInstance>)
    ensures
        views(out@) == views(effects@).filter(is_sound(views(types@))),
{
    let ghost all = views(effects@);
    let ghost p = is_sound(views(types@));
    let mut out: Vec<EffectInstance> = Vec::new();
    let mut i: usize = 0;
    proof {
        take_all(all);
        reveal_with_fuel(Seq::filter, 1);
        assert(views(out@) =~= Seq::<EffectModel>::empty());
    }
    while i < effects.len()
        invariant
            all == views(effects@),
            p == is_sound(views(types@)),
            i <= effects@.len(),
            views(out@) == all.take(i as int).filter(p),
        decreases effects@.len() - i,
    {
        proof {
            filter_step(all, p, i as int);
            assert(all[i as int] == effects@[i as int]@);
        }
        if listed(types, effects[i].type_id.as_str()) {
            let ghost had = out@;
            out.push(effects[i].copy());
            assert(views(out@) =~= views(had).push(out@.last()@));
        }
        i = i + 1;
    }
    proof {
        take_all(all);
    }
    out
}

fn make_sound_clip(
    it: &Item,
    id: ItemId,
    group: u64,
    settings: &SoundSettings,
    types: &Vec<String>,
) -> (out: Item)
    ensures
        out@ == sound_clip(
            it@,
            id,
            group,
            settings.gain@,
            settings.keep_pitch@,
            views(types@),
        ),
{
    let name = join2(it.name.as_str(), " (audio)");
    let mut out = Item::new(id, name.as_str(), it.kind, it.range);
    out.time_map = it.time_map;
    out.group = Some(group);
    if let Some(source) = get_param(&it.params, settings.gain.as_str()) {
        out.params.push(Param { id: settings.gain.clone(), source });
    }
    if let Some(source) = get_param(&it.params, settings.keep_pitch.as_str()) {
        out.params.push(Param { id: settings.keep_pitch.clone(), source });
    }
    out.effects = sound_effects(&it.effects, types);
    assert(out@.params =~= carried(it@.params, settings.gain@) + carried(
        it@.params,
        settings.keep_pitch@,
    ));
    assert(out@ =~= sound_clip(
        it@,
        id,
        group,
        settings.gain@,
        settings.keep_pitch@,
        views(types@),
    ));
    out
}

/// How many audio tracks there are, effect tracks too.
fn count_audio(s: &Sequence) -> (out: usize)
    ensures
        out == s@.tracks.filter(crate::placing::of_kind(TrackKind::Audio)).len(),
        out <= s.tracks@.len(),
{
    let ghost all = s@.tracks;
    let ghost p = crate::placing::of_kind(TrackKind::Audio);
    let mut n: usize = 0;
    let mut i: usize = 0;
    proof {
        take_all(all);
        reveal_with_fuel(Seq::filter, 1);
    }
    while i < s.tracks.len()
        invariant
            all == s@.tracks,
            p == crate::placing::of_kind(TrackKind::Audio),
            i <= s.tracks@.len(),
            n <= i,
            n == all.take(i as int).filter(p).len(),
        decreases s.tracks@.len() - i,
    {
        proof {
            filter_step(all, p, i as int);
            assert(all[i as int] == s.tracks@[i as int]@);
        }
        if matches!(s.tracks[i].kind, TrackKind::Audio) {
            n = n + 1;
        }
        i = i + 1;
    }
    proof {
        take_all(all);
    }
    n
}

/// Each clip takes at most three fresh ids and one new track.
proof fn extraction_grows(
    s: SequenceModel,
    clips: Seq<ItemId>,
    fresh: Seq<u64>,
    settings: SoundSettings,
    types: Seq<Seq<char>>,
)
    ensures
        extracted(s, clips, fresh, settings, types).used <= 3 * clips.len(),
        extracted(s, clips, fresh, settings, types).new_tracks <= clips.len(),
    decreases clips.len(),
{
    if clips.len() > 0 {
        extraction_grows(s, clips.drop_last(), fresh, settings, types);
    }
}

/// Moves the sound of the clips (`Editor::extractable`) onto audio tracks: a new audio clip
/// each (same file, timing, speed and gain), grouped with its picture so they move
/// together, and the picture clip's own sound turned off. `types` are the effects that are
/// heard, `fresh` ids nothing has yet.
pub fn extract_audio(
    s: &Sequence,
    clips: &Vec<ItemId>,
    settings: &SoundSettings,
    types: &Vec<String>,
    fresh: &Vec<u64>,
) -> (out: Vec<Op>)
    requires
        fresh.len() >= 3 * clips.len(),
        s.tracks@.len() + clips@.len() < usize::MAX,
    ensures
        views(out@) == extracted(s@, clips@, fresh@, *settings, views(types@)).ops,
        moves_sound(s@, clips@, *settings, views(types@), views(out@)),
{
    proof {
        extracted_sound_moves(s@, clips@, fresh@, *settings, views(types@));
    }
    let mut ops: Vec<Op> = Vec::new();
    let mut placed: Vec<Stretch> = Vec::new();
    let mut new_tracks: usize = 0;
    let mut used: usize = 0;
    let mut k: usize = 0;
    let ghost heard = views(types@);
    let sounds: usize = count_audio(s);
    proof {
        take_all(clips@);
        assert(views(ops@) =~= Seq::<OpModel>::empty());
    }
    while k < clips.len()
        invariant
            fresh.len() >= 3 * clips.len(),
            s.tracks@.len() + clips@.len() < usize::MAX,
            heard == views(types@),
            sounds == s@.tracks.filter(crate::placing::of_kind(TrackKind::Audio)).len(),
            sounds <= s.tracks@.len(),
            k <= clips@.len(),
            ({
                let x = extracted(s@, clips@.take(k as int), fresh@, *settings, heard);
                views(ops@) == x.ops && placed@ == x.placed && new_tracks == x.new_tracks && used
                    == x.used
            }),
        decreases clips@.len() - k,
    {
        let ghost before = extracted(s@, clips@.take(k as int), fresh@, *settings, heard);
        proof {
            extraction_grows(s@, clips@.take(k as int), fresh@, *settings, heard);
            assert(clips@.take(k + 1).drop_last() =~= clips@.take(k as int));
            assert(clips@.take(k + 1).last() == clips@[k as int]);
        }
        if let Some(it) = s.item(clips[k]) {
            let ghost after = extract_one(s@, before, it@, fresh@, *settings, heard);
            let track = match free_sound_track(s, &placed, it.range) {
                Some(t) => t,
                None => {
                    let id = TrackId(fresh[used]);
                    let name = join2("A", number((sounds + new_tracks + 1) as u64).as_str());
                    let index: usize = s.tracks.len() + new_tracks + 1;
                    let ghost had = ops@;
                    ops.push(
                        Op::InsertTrack {
                            seq: s.id,
                            index,
                            track: Track::new(id, name, TrackKind::Audio, false),
                        },
                    );
                    assert(views(ops@) =~= views(had).push(ops@.last()@));
                    new_tracks = new_tracks + 1;
                    used = used + 1;
                    id
                },
            };
            placed.push(Stretch { track, range: it.range });
            let group: u64 = match it.group {
                Some(g) => g,
                None => {
                    used = used + 1;
                    fresh[used - 1]
                },
            };
            let sound = make_sound_clip(it, ItemId(fresh[used]), group, settings, types);
            used = used + 1;
            let ghost had = ops@;
            ops.push(
                Op::SetParam {
                    seq: s.id,
                    item: it.id,
                    target: ParamTarget::Item,
                    param: settings.enabled.clone(),
                    source: Some(settings.off),
                },
            );
            assert(views(ops@) =~= views(had).push(ops@.last()@));
            if it.group.is_none() {
                let ghost had = ops@;
                ops.push(Op::SetItemGroup { seq: s.id, item: it.id, group: Some(group) });
                assert(views(ops@) =~= views(had).push(ops@.last()@));
            }
            let ghost had = ops@;
            ops.push(Op::InsertItem { seq: s.id, track, item: sound });
            assert(views(ops@) =~= views(had).push(ops@.last()@));
            assert(views(ops@) == after.ops);
            assert(placed@ == after.placed);
        }
        k = k + 1;
    }
    proof {
        take_all(clips@);
    }
    ops
}

/// Sounds moved together never lie on top of each other: of two placed on the same track,
/// neither is in the other's way.
pub proof fn sounds_never_overlap(
    s: SequenceModel,
    clips: Seq<ItemId>,
    fresh: Seq<u64>,
    settings: SoundSettings,
    types: Seq<Seq<char>>,
    a: int,
    b: int,
)
    requires
        fresh.len() >= 3 * clips.len(),
        fresh.no_duplicates(),
        forall|t: int, k: int|
            0 <= t < s.tracks.len() && 0 <= k < fresh.len() ==> (#[trigger] s.tracks[t]).id.0 != (
            #[trigger] fresh[k]),
        0 <= a < b < extracted(s, clips, fresh, settings, types).placed.len(),
    ensures
        ({
            let placed = extracted(s, clips, fresh, settings, types).placed;
            placed[a].track == placed[b].track ==> !placed[a].range.meets(placed[b].range)
        }),
    decreases clips.len(),
{
    let before = extracted(s, clips.drop_last(), fresh, settings, types);
    if clips.len() > 0 {
        extraction_grows(s, clips.drop_last(), fresh, settings, types);
        tracks_are_known(s, clips.drop_last(), fresh, settings, types);
        match item_of(s, clips.last()) {
            Some(it) => {
                let after = extract_one(s, before, it, fresh, settings, types);
                if b < before.placed.len() {
                    sounds_never_overlap(s, clips.drop_last(), fresh, settings, types, a, b);
                    assert(after.placed[a] == before.placed[a]);
                    assert(after.placed[b] == before.placed[b]);
                } else {
                    let p = sound_free(before.placed, it.range);
                    crate::seqs::first_is_right(s.tracks, p, 0);
                    assert(after.placed[a] == before.placed[a]);
                    match first_where(s.tracks, p) {
                        Some(t) => {
                            assert(!taken(before.placed, s.tracks[t].id, it.range));
                        },
                        None => {
                            assert(before.placed[a].track != TrackId(fresh[before.used as int]));
                        },
                    }
                }
            },
            None => {
                sounds_never_overlap(s, clips.drop_last(), fresh, settings, types, a, b);
            },
        }
    }
}

/// Everything placed so far is on a track of the timeline or on one with an id used up.
proof fn tracks_are_known(
    s: SequenceModel,
    clips: Seq<ItemId>,
    fresh: Seq<u64>,
    settings: SoundSettings,
    types: Seq<Seq<char>>,
)
    requires
        fresh.len() >= 3 * clips.len(),
    ensures
        ({
            let x = extracted(s, clips, fresh, settings, types);
            forall|k: int|
                0 <= k < x.placed.len() ==> on_track(s, (#[trigger] x.placed[k]).track) || used_id(
                    fresh,
                    x.used,
                    x.placed[k].track,
                )
        }),
    decreases clips.len(),
{
    if clips.len() > 0 {
        tracks_are_known(s, clips.drop_last(), fresh, settings, types);
        extraction_grows(s, clips.drop_last(), fresh, settings, types);
        let before = extracted(s, clips.drop_last(), fresh, settings, types);
        let x = extracted(s, clips, fresh, settings, types);
        if item_of(s, clips.last()) is Some {
            let it = item_of(s, clips.last())->0;
            let p = sound_free(before.placed, it.range);
            crate::seqs::first_is_right(s.tracks, p, 0);
            assert forall|k: int| 0 <= k < x.placed.len() implies on_track(
                s,
                (#[trigger] x.placed[k]).track,
            ) || used_id(fresh, x.used, x.placed[k].track) by {
                if k < before.placed.len() {
                    assert(x.placed[k] == before.placed[k]);
                    if used_id(fresh, before.used, before.placed[k].track) {
                        let j = choose|j: int|
                            0 <= j < before.used && TrackId(#[trigger] fresh[j])
                                == before.placed[k].track;
                        assert(0 <= j < x.used && TrackId(fresh[j]) == x.placed[k].track);
                    }
                } else {
                    match first_where(s.tracks, p) {
                        Some(t) => {
                            assert(s.tracks[t].id == x.placed[k].track);
                        },
                        None => {
                            assert(TrackId(fresh[before.used as int]) == x.placed[k].track);
                        },
                    }
                }
            }
        }
    }
}

spec fn on_track(s: SequenceModel, id: TrackId) -> bool {
    exists|t: int| 0 <= t < s.tracks.len() && (#[trigger] s.tracks[t]).id == id
}

spec fn used_id(fresh: Seq<u64>, used: nat, id: TrackId) -> bool {
    exists|j: int| 0 <= j < used && TrackId(#[trigger] fresh[j]) == id
}

// ---- the sound plays on, once ----

/// The clip plays a picture clip's sound: the same file, from the same moment on and for as
/// long, at the same speed, with the gain and the sound effects it had and nothing else set.
pub open spec fn sounds_like(
    it: ItemModel,
    x: ItemModel,
    settings: SoundSettings,
    types: Seq<Seq<char>>,
) -> bool {
    &&& x.kind == it.kind
    &&& x.range == it.range
    &&& x.time_map == it.time_map
    &&& x.enabled
    &&& forall|v: Source|
        settings.gain@ != settings.keep_pitch@ ==> (#[trigger] stores(x.params, settings.gain@, v)
            <==> stores(it.params, settings.gain@, v))
    &&& forall|v: Source|
        settings.gain@ != settings.keep_pitch@ ==> (#[trigger] stores(
            x.params,
            settings.keep_pitch@,
            v,
        ) <==> stores(it.params, settings.keep_pitch@, v))
    &&& forall|k: int|
        0 <= k < x.params.len() ==> (#[trigger] x.params[k]).id == settings.gain@ || x.params[k].id
            == settings.keep_pitch@
    &&& forall|e: EffectModel| #[trigger]
        x.effects.contains(e) <==> it.effects.contains(e) && types.contains(e.type_id)
}

/// The change after which a clip's own sound is off.
pub open spec fn goes_off(s: SequenceModel, clip: ItemId, settings: SoundSettings) -> OpModel {
    OpModel::SetParam {
        seq: s.id,
        item: clip,
        target: ParamTarget::Item,
        source: Some(settings.off),
        param: settings.enabled@,
    }
}

/// The track is an audio track that takes clips: one of the timeline's that's free at `range`,
/// or one that an earlier change adds.
pub open spec fn is_for_sound(
    s: SequenceModel,
    ops: Seq<OpModel>,
    j: int,
    track: TrackId,
    range: TimeRange,
) -> bool {
    ||| exists|t: int|
        0 <= t < s.tracks.len() && (#[trigger] s.tracks[t]).id == track && s.tracks[t].kind is Audio
            && !s.tracks[t].effects && clear_of(s.tracks[t], range)
    ||| exists|h: int|
        0 <= h < j && ((#[trigger] ops[h]) matches OpModel::InsertTrack { seq, index, track: new }
            && seq == s.id && new.id == track && new.kind is Audio && !new.effects
            && new.items.len() == 0)
}

/// The change at `j` puts a clip with the sound of `it` on an audio track, in the group its
/// picture is in from then on.
pub open spec fn plays_on(
    s: SequenceModel,
    it: ItemModel,
    settings: SoundSettings,
    types: Seq<Seq<char>>,
    ops: Seq<OpModel>,
    j: int,
) -> bool {
    0 <= j < ops.len() && (ops[j] matches OpModel::InsertItem { seq, track, item: x } && seq == s.id
        && sounds_like(it, x, settings, types) && is_for_sound(s, ops, j, track, x.range)
        && x.group is Some && (it.group is Some ==> x.group == it.group) && (it.group is None
        ==> ops.contains(OpModel::SetItemGroup { seq: s.id, item: it.id, group: x.group })))
}

/// The sound of the clips moves: each picture's own goes off and stays off, and plays on from a
/// clip on an audio track that's grouped with it. Nothing else changes.
pub open spec fn moves_sound(
    s: SequenceModel,
    clips: Seq<ItemId>,
    settings: SoundSettings,
    types: Seq<Seq<char>>,
    ops: Seq<OpModel>,
) -> bool {
    &&& forall|k: int|
        0 <= k < clips.len() ==> (item_of(s, #[trigger] clips[k]) matches Some(it) ==> ops.contains(goes_off(s, it.id, settings)) && exists|j: int| #[trigger] plays_on(s, it, settings, types, ops, j))
    &&& forall|j: int|
        0 <= j < ops.len() ==> match #[trigger] ops[j] {
            OpModel::SetParam { seq, item, target, param, source } => target is Item && param
                == settings.enabled@ && source == Some(settings.off),
            OpModel::SetItemGroup { seq, item, group } => group is Some,
            OpModel::InsertTrack { seq, index, track } => track.kind is Audio,
            OpModel::InsertItem { seq, track, item } => exists|k: int|
                0 <= k < clips.len() && (item_of(s, #[trigger] clips[k]) matches Some(it)
                    && plays_on(s, it, settings, types, ops, j)),
            _ => false,
        }
}

/// What a setting is found as is what it's stored as.
proof fn found_is_stored(params: Seq<ParamModel>, id: Seq<char>, i: int)
    requires
        0 <= i <= params.len(),
        forall|j: int| 0 <= j < i ==> (#[trigger] params[j]).id != id,
    ensures
        match param_from(params, id, i) {
            Some(x) => stores(params, id, x) && forall|v: Source| #[trigger]
                stores(params, id, v) ==> v == x,
            None => forall|v: Source| !#[trigger] stores(params, id, v),
        },
    decreases params.len() - i,
{
    if i < params.len() && params[i].id != id {
        found_is_stored(params, id, i + 1);
    } else if i < params.len() {
        let x = params[i].source;
        assert(stores(params, id, x));
        assert forall|v: Source| #[trigger] stores(params, id, v) implies v == x by {
            let k = choose|k: int|
                0 <= k < params.len() && (#[trigger] params[k]).id == id && params[k].source == v
                    && forall|j: int| 0 <= j < k ==> (#[trigger] params[j]).id != id;
            if i < k {
                assert(params[i].id != id);
            }
        }
    }
}

/// The sound of a clip is like it was.
proof fn sound_clip_sounds_like(
    it: ItemModel,
    id: ItemId,
    group: u64,
    settings: SoundSettings,
    types: Seq<Seq<char>>,
)
    ensures
        sounds_like(
            it,
            sound_clip(it, id, group, settings.gain@, settings.keep_pitch@, types),
            settings,
            types,
        ),
{
    let gain = settings.gain@;
    let pitch = settings.keep_pitch@;
    let x = sound_clip(it, id, group, gain, pitch, types);
    found_is_stored(it.params, gain, 0);
    found_is_stored(it.params, pitch, 0);
    found_is_stored(x.params, gain, 0);
    found_is_stored(x.params, pitch, 0);
    let a = carried(it.params, gain);
    assert(x.params =~= a + carried(it.params, pitch));
    if gain != pitch {
        if let Some(v) = param_of(it.params, gain) {
            assert(x.params[0] == ParamModel { id: gain, source: v });
            assert(stores(x.params, gain, v));
        } else {
            assert forall|v: Source| !#[trigger] stores(x.params, gain, v) by {}
        }
        if let Some(v) = param_of(it.params, pitch) {
            assert(x.params[a.len() as int] == ParamModel { id: pitch, source: v });
            assert(stores(x.params, pitch, v));
        }
    }
    let p = is_sound(types);
    let at = kept_places(it.effects, p);
    assert forall|e: EffectModel| #[trigger] x.effects.contains(e) <==> it.effects.contains(e)
        && types.contains(e.type_id) by {
        if x.effects.contains(e) {
            let k = choose|k: int| 0 <= k < x.effects.len() && x.effects[k] == e;
            assert(it.effects[at[k]] == e && p(it.effects[at[k]]));
        }
        if it.effects.contains(e) && types.contains(e.type_id) {
            let i = choose|i: int| 0 <= i < it.effects.len() && it.effects[i] == e;
            assert(p(it.effects[i]));
            let k = choose|k: int| 0 <= k < at.len() && at[k] == i;
            assert(x.effects[k] == e);
        }
    }
}

/// What plays on still does with more changes behind it.
proof fn playing_on_lasts(
    s: SequenceModel,
    it: ItemModel,
    settings: SoundSettings,
    types: Seq<Seq<char>>,
    ops: Seq<OpModel>,
    more: Seq<OpModel>,
    j: int,
)
    requires
        plays_on(s, it, settings, types, ops, j),
        ops.is_prefix_of(more),
    ensures
        plays_on(s, it, settings, types, more, j),
{
    assert(forall|h: int| 0 <= h < ops.len() ==> (#[trigger] more[h]) == ops[h]);
    if it.group is None {
        let x = ops[j]->InsertItem_item;
        let g = OpModel::SetItemGroup { seq: s.id, item: it.id, group: x.group };
        let h = choose|h: int| 0 <= h < ops.len() && ops[h] == g;
        assert(more[h] == g);
    }
    let track = ops[j]->InsertItem_track;
    let range = (ops[j]->InsertItem_item).range;
    if exists|h: int|
        0 <= h < j && ((#[trigger] ops[h]) matches OpModel::InsertTrack { seq, index, track: new }
            && seq == s.id && new.id == track && new.kind is Audio && !new.effects
            && new.items.len() == 0) {
        let h = choose|h: int|
            0 <= h < j && ((#[trigger] ops[h]) matches OpModel::InsertTrack { seq, index, track: new }
                && seq == s.id && new.id == track && new.kind is Audio && !new.effects
                && new.items.len() == 0);
        assert(more[h] == ops[h]);
    }
    assert(is_for_sound(s, more, j, track, range));
}

/// Extracting sound moves it: it's heard from its own track and from nowhere else.
pub proof fn extracted_sound_moves(
    s: SequenceModel,
    clips: Seq<ItemId>,
    fresh: Seq<u64>,
    settings: SoundSettings,
    types: Seq<Seq<char>>,
)
    ensures
        moves_sound(s, clips, settings, types, extracted(s, clips, fresh, settings, types).ops),
    decreases clips.len(),
{
    if clips.len() > 0 {
        let rest = clips.drop_last();
        extracted_sound_moves(s, rest, fresh, settings, types);
        let before = extracted(s, rest, fresh, settings, types);
        let n = clips.len() - 1;
        match item_of(s, clips.last()) {
            None => {
                one_more_moves(s, clips, settings, types, before.ops, before.ops);
            },
            Some(it) => {
                let after = extract_one(s, before, it, fresh, settings, types);
                one_extracted(s, before, it, fresh, settings, types);
                one_more_moves(s, clips, settings, types, before.ops, after.ops);
            },
        }
    }
}

/// What one more clip adds to the changes.
spec fn adds_one(
    s: SequenceModel,
    it: ItemModel,
    settings: SoundSettings,
    types: Seq<Seq<char>>,
    ops: Seq<OpModel>,
    more: Seq<OpModel>,
) -> bool {
    &&& ops.is_prefix_of(more)
    &&& more.contains(goes_off(s, it.id, settings))
    &&& plays_on(s, it, settings, types, more, more.len() - 1)
    &&& forall|j: int|
        ops.len() <= j < more.len() - 1 ==> match #[trigger] more[j] {
            OpModel::SetParam { seq, item, target, param, source } => target is Item && param
                == settings.enabled@ && source == Some(settings.off),
            OpModel::SetItemGroup { seq, item, group } => group is Some,
            OpModel::InsertTrack { seq, index, track } => track.kind is Audio,
            _ => false,
        }
}

proof fn one_extracted(
    s: SequenceModel,
    before: Extraction,
    it: ItemModel,
    fresh: Seq<u64>,
    settings: SoundSettings,
    types: Seq<Seq<char>>,
)
    ensures
        adds_one(
            s,
            it,
            settings,
            types,
            before.ops,
            extract_one(s, before, it, fresh, settings, types).ops,
        ),
{
    let p = sound_free(before.placed, it.range);
    first_is_right(s.tracks, p, 0);
    let after = extract_one(s, before, it, fresh, settings, types);
    let ops = before.ops;
    let more = after.ops;
    let n = ops.len() as int;
    let m = more.len() - 1;
    let found = first_where(s.tracks, p);
    let off = goes_off(s, it.id, settings);
    let at = if found is Some {
        n
    } else {
        n + 1
    };
    assert(more[at] == off);
    assert(more.take(n) =~= ops);
    let x = more[m]->InsertItem_item;
    let track = more[m]->InsertItem_track;
    if it.group is None {
        assert(more[at + 1] == OpModel::SetItemGroup { seq: s.id, item: it.id, group: x.group });
    }
    match found {
        Some(t) => {
            assert(p(s.tracks[t]));
            let items = s.tracks[t].items;
            assert forall|i: int| 0 <= i < items.len() implies (#[trigger] items[i]).range.start.0
                + items[i].range.duration.0 <= it.range.start.0 || it.range.start.0
                + it.range.duration.0 <= items[i].range.start.0 by {
                assert(!items[i].range.meets(it.range));
            }
            assert(clear_of(s.tracks[t], it.range));
            assert(s.tracks[t].id == track);
        },
        None => {
            assert(more[n] is InsertTrack);
        },
    }
    let group = x.group->0;
    sound_clip_sounds_like(it, x.id, group, settings, types);
    assert(x == sound_clip(it, x.id, group, settings.gain@, settings.keep_pitch@, types));
    assert(is_for_sound(s, more, m, track, x.range));
}

proof fn one_more_moves(
    s: SequenceModel,
    clips: Seq<ItemId>,
    settings: SoundSettings,
    types: Seq<Seq<char>>,
    ops: Seq<OpModel>,
    more: Seq<OpModel>,
)
    requires
        clips.len() > 0,
        moves_sound(s, clips.drop_last(), settings, types, ops),
        match item_of(s, clips.last()) {
            Some(it) => adds_one(s, it, settings, types, ops, more),
            None => more == ops,
        },
    ensures
        moves_sound(s, clips, settings, types, more),
{
    let rest = clips.drop_last();
    let n = clips.len() - 1;
    assert(ops.is_prefix_of(more));
    assert(forall|h: int| 0 <= h < ops.len() ==> (#[trigger] more[h]) == ops[h]);
    assert forall|k: int| 0 <= k < clips.len() implies (item_of(s, #[trigger] clips[k]) matches Some(
        it,
    ) ==> more.contains(goes_off(s, it.id, settings)) && exists|j: int| #[trigger] plays_on(s, it, settings, types, more, j)) by {
        if let Some(it) = item_of(s, clips[k]) {
            if k < n {
                assert(rest[k] == clips[k]);
                let off = goes_off(s, it.id, settings);
                assert(ops.contains(off));
                let h = choose|h: int| 0 <= h < ops.len() && ops[h] == off;
                assert(more[h] == off);
                let j = choose|j: int| #[trigger] plays_on(s, it, settings, types, ops, j);
                playing_on_lasts(s, it, settings, types, ops, more, j);
            } else {
                assert(plays_on(s, it, settings, types, more, more.len() - 1));
            }
        }
    }
    assert forall|j: int| 0 <= j < more.len() implies match #[trigger] more[j] {
        OpModel::SetParam { seq, item, target, param, source } => target is Item && param
            == settings.enabled@ && source == Some(settings.off),
        OpModel::SetItemGroup { seq, item, group } => group is Some,
        OpModel::InsertTrack { seq, index, track } => track.kind is Audio,
        OpModel::InsertItem { seq, track, item } => exists|k: int|
            0 <= k < clips.len() && (item_of(s, #[trigger] clips[k]) matches Some(it) && plays_on(
                s,
                it,
                settings,
                types,
                more,
                j,
            )),
        _ => false,
    } by {
        if j < ops.len() {
            assert(more[j] == ops[j]);
            if ops[j] is InsertItem {
                let k = choose|k: int|
                    0 <= k < rest.len() && (item_of(s, #[trigger] rest[k]) matches Some(it)
                        && plays_on(s, it, settings, types, ops, j));
                assert(clips[k] == rest[k]);
                playing_on_lasts(s, item_of(s, rest[k])->0, settings, types, ops, more, j);
            }
        } else if j == more.len() - 1 {
            assert(clips[n] == clips.last());
        }
    }
}

} // verus!
