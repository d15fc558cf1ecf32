//! Putting clips and tracks on the timeline.
use crate::doc::{
    track_of, EditError, Item, ItemId, ItemKind, ItemModel, MediaId, MediaKind, Op, OpModel, Param,
    ParamModel, SeqId, Sequence, SequenceModel, Source, Time, TimeRange, Track, TrackId, TrackKind,
    TrackModel, SECOND,
};
use crate::editor::{with_media, Editor, PoolItem};
use crate::seqs::{
    filter_place, filter_step, first_from, first_is_right, first_where, kept_places, last_is_right,
    last_where, take_all, views,
};
use crate::text::{decimal, join2, number};
use vstd::prelude::*;

verus! {

/// A tenth of a second: the shortest title.
pub const TENTH: i64 = 70_560_000;

/// A track of the kind.
pub open spec fn of_kind(kind: TrackKind) -> spec_fn(TrackModel) -> bool {
    |t: TrackModel| t.kind == kind
}

/// A track of the kind that holds clips (no effect track).
pub open spec fn plain(kind: TrackKind) -> spec_fn(TrackModel) -> bool {
    |t: TrackModel| t.kind == kind && !t.effects
}

/// An effect track of the kind.
pub open spec fn effects_of(kind: TrackKind) -> spec_fn(TrackModel) -> bool {
    |t: TrackModel| t.kind == kind && t.effects
}

/// Some clip is in the way of `range`.
pub open spec fn busy(items: Seq<ItemModel>, range: TimeRange) -> bool {
    exists|i: int| 0 <= i < items.len() && (#[trigger] items[i]).range.meets(range)
}

/// A track of the kind that's free at `range`.
pub open spec fn free_at(kind: TrackKind, range: TimeRange) -> spec_fn(TrackModel) -> bool {
    |t: TrackModel| t.kind == kind && !t.effects && !busy(t.items, range)
}

/// Where a new track of the kind goes: after the last one of its kind, else at the end.
pub open spec fn slot_for(s: SequenceModel, kind: TrackKind) -> int {
    match last_where(s.tracks, of_kind(kind)) {
        Some(i) => i + 1,
        None => s.tracks.len() as int,
    }
}

/// `V1`, `A2`…: the kind's letter and one more than there are.
pub open spec fn name_for(s: SequenceModel, kind: TrackKind) -> Seq<char> {
    letter(kind) + decimal(s.tracks.filter(plain(kind)).len() + 1)
}

pub open spec fn letter(kind: TrackKind) -> Seq<char> {
    if kind is Video {
        "V"@
    } else {
        "A"@
    }
}

/// The change that adds a track of the kind: video tracks go on top of the other video
/// tracks, audio after the other audio tracks.
pub open spec fn track_added(s: SequenceModel, kind: TrackKind, id: TrackId) -> OpModel {
    OpModel::InsertTrack {
        seq: s.id,
        index: slot_for(s, kind) as usize,
        track: Track::empty(id, name_for(s, kind), kind, false),
    }
}

/// Every clip's end is a moment that can be written down.
pub open spec fn ranges_fit(s: SequenceModel) -> bool {
    forall|t: int, i: int|
        0 <= t < s.tracks.len() && 0 <= i < s.tracks[t].items.len() ==> (
        #[trigger] s.tracks[t].items[i]).range.fits()
}

/// Where the track's last clip ends (0 if it's empty).
pub open spec fn end_of(t: TrackModel) -> int {
    if t.items.len() == 0 {
        0
    } else {
        t.items.last().range.ends()
    }
}

/// What a command that puts one clip somewhere asks for: a new track first, where no other
/// will do, then the clip.
pub struct Placed {
    pub new_track: Option<Op>,
    pub insert: Op,
    pub clip: ItemId,
}

pub(crate) fn has_clip_in(items: &Vec<Item>, range: TimeRange) -> (out: bool)
    ensures
        out == busy(views(items@), range),
{
    let mut i: usize = 0;
    while i < items.len()
        invariant
            i <= items@.len(),
            forall|k: int| 0 <= k < i ==> !(#[trigger] views(items@)[k]).range.meets(range),
        decreases items@.len() - i,
    {
        assert(views(items@)[i as int] == items@[i as int]@);
        if items[i].range.overlaps(range) {
            return true;
        }
        i = i + 1;
    }
    false
}

/// How many tracks of the kind hold clips (or, with `effects`, effects).
pub(crate) fn count_tracks(s: &Sequence, kind: TrackKind, effects: bool) -> (out: usize)
    ensures
        out == s@.tracks.filter(
            if effects {
                effects_of(kind)
            } else {
                plain(kind)
            },
        ).len(),
        out <= s.tracks@.len(),
{
    let ghost p = if effects {
        effects_of(kind)
    } else {
        plain(kind)
    };
    let ghost all = s@.tracks;
    let mut n: usize = 0;
    let mut i: usize = 0;
    proof {
        take_all(all);
        reveal_with_fuel(Seq::filter, 1);
    }
    while i < s.tracks.len()
        invariant
            p == if effects {
                effects_of(kind)
            } else {
                plain(kind)
            },
            all == s@.tracks,
            i <= s.tracks@.len(),
            n <= i,
            n == all.take(i as int).filter(p).len(),
        decreases s.tracks@.len() - i,
    {
        proof {
            filter_step(all, p, i as int);
            assert(all[i as int] == s.tracks@[i as int]@);
        }
        if s.tracks[i].kind == kind && s.tracks[i].effects == effects {
            n = n + 1;
        }
        i = i + 1;
    }
    proof {
        take_all(all);
    }
    n
}

pub(crate) fn slot(s: &Sequence, kind: TrackKind) -> (out: usize)
    ensures
        out == slot_for(s@, kind),
        out <= s.tracks@.len(),
{
    let ghost all = s@.tracks;
    let mut i: usize = s.tracks.len();
    proof {
        take_all(all);
    }
    while i > 0
        invariant
            all == s@.tracks,
            i <= s.tracks@.len(),
            last_where(all, of_kind(kind)) == last_where(all.take(i as int), of_kind(kind)),
        decreases i,
    {
        assert(all[i - 1] == s.tracks@[i - 1]@);
        assert(all.take(i as int).drop_last() =~= all.take(i - 1));
        if s.tracks[i - 1].kind == kind {
            return i;
        }
        i = i - 1;
    }
    s.tracks.len()
}

fn kind_letter(kind: TrackKind) -> (out: &'static str)
    ensures
        out@ == letter(kind),
{
    if matches!(kind, TrackKind::Video) {
        "V"
    } else {
        "A"
    }
}

impl Editor {
    /// Adds a track: video tracks go on top of the other video tracks, audio after the
    /// other audio tracks. `id` is a fresh id.
    pub fn add_track(&self, kind: TrackKind, id: TrackId) -> (out: Op)
        requires
            self.timeline.tracks@.len() < usize::MAX,
        ensures
            out@ == track_added(self.timeline@, kind, id),
            adds_track(self.timeline@, kind, id, out@),
    {
        proof {
            new_tracks_go_behind_their_kind(self.timeline@, kind, id);
        }
        let count: usize = count_tracks(&self.timeline, kind, false);
        let index: usize = slot(&self.timeline, kind);
        let name = join2(kind_letter(kind), number(count as u64 + 1).as_str());
        Op::InsertTrack { seq: self.timeline.id, index, track: Track::new(id, name, kind, false) }
    }

    /// Adds an effect track of `kind` just above `track` as the timeline shows it — for
    /// pictures, the next layer up; for sound, the row above — so it covers that track
    /// and everything below it.
    pub fn add_effect_track(&self, kind: TrackKind, track: TrackId, id: TrackId) -> (out: Result<
        Op,
        EditError,
    >)
        requires
            self.timeline.tracks@.len() < usize::MAX,
        ensures
            match track_of(self.timeline@, track) {
                None => out == Err::<Op, EditError>(EditError::NoSuchTrack(track)),
                Some(at) => out matches Ok(op) && op@ == (OpModel::InsertTrack {
                    seq: self.timeline@.id,
                    index: if kind is Video {
                        (at + 1) as usize
                    } else {
                        at as usize
                    },
                    track: Track::empty(
                        id,
                        letter(kind) + "FX"@ + decimal(
                            self.timeline@.tracks.filter(effects_of(kind)).len() + 1,
                        ),
                        kind,
                        true,
                    ),
                }),
            },
    {
        match self.timeline.track_index(track) {
            None => Err(EditError::NoSuchTrack(track)),
            Some(at) => {
                // Picture tracks later in the list draw on top; audio rows run top down.
                let index: usize = if matches!(kind, TrackKind::Video) {
                    at + 1
                } else {
                    at
                };
                let count: usize = count_tracks(&self.timeline, kind, true);
                let mut name = join2(kind_letter(kind), "FX");
                name.append(number(count as u64 + 1).as_str());
                Ok(
                    Op::InsertTrack {
                        seq: self.timeline.id,
                        index,
                        track: Track::new(id, name, kind, true),
                    },
                )
            },
        }
    }
}

/// The track a clip of the kind is appended to: the preferred one while it's there, else
/// the first of its kind.
pub open spec fn append_track(s: SequenceModel, preferred: TrackId, kind: TrackKind) -> Option<int> {
    match track_of(s, preferred) {
        Some(t) => Some(t),
        None => first_where(s.tracks, plain(kind)),
    }
}

/// What appending a clip asks for.
pub open spec fn appended(
    s: SequenceModel,
    preferred: TrackId,
    kind: TrackKind,
    name: Seq<char>,
    plays: ItemKind,
    duration: Time,
    track_id: TrackId,
    id: ItemId,
) -> (Option<OpModel>, OpModel) {
    let length = duration.spec_most(Time(SECOND));
    match append_track(s, preferred, kind) {
        Some(t) => (
            None,
            OpModel::InsertItem {
                seq: s.id,
                track: s.tracks[t].id,
                item: Item::fresh(
                    id,
                    name,
                    plays,
                    TimeRange { start: Time(end_of(s.tracks[t]) as i64), duration: length },
                ),
            },
        ),
        None => (
            Some(track_added(s, kind, track_id)),
            OpModel::InsertItem {
                seq: s.id,
                track: track_id,
                item: Item::fresh(id, name, plays, TimeRange { start: Time(0), duration: length }),
            },
        ),
    }
}

impl Placed {
    /// The changes asked for.
    pub open spec fn asks(&self) -> (Option<OpModel>, OpModel) {
        (
            match self.new_track {
                Some(op) => Some(op@),
                None => None,
            },
            self.insert@,
        )
    }
}

impl Editor {
    /// The first plain track of the kind.
    fn first_plain(&self, kind: TrackKind) -> (out: Option<usize>)
        ensures
            match out {
                Some(t) => first_where(self.timeline@.tracks, plain(kind)) == Some(t as int) && t
                    < self.timeline.tracks@.len(),
                None => first_where(self.timeline@.tracks, plain(kind)) is None,
            },
    {
        let s = &self.timeline;
        let mut i: usize = 0;
        while i < s.tracks.len()
            invariant
                s == &self.timeline,
                i <= s.tracks@.len(),
                first_where(s@.tracks, plain(kind)) == first_from(s@.tracks, plain(kind), i as int),
            decreases s.tracks@.len() - i,
        {
            assert(s@.tracks[i as int] == s.tracks@[i as int]@);
            if s.tracks[i].kind == kind && !s.tracks[i].effects {
                return Some(i);
            }
            i = i + 1;
        }
        None
    }

    /// Puts a clip after the last one of the track clips of its kind go to.
    fn append(
        &self,
        preferred: TrackId,
        kind: TrackKind,
        name: &str,
        plays: ItemKind,
        duration: Time,
        track_id: TrackId,
        id: ItemId,
    ) -> (out: Placed)
        requires
            ranges_fit(self.timeline@),
            self.timeline.tracks@.len() < usize::MAX,
        ensures
            out.clip == id,
            out.asks() == appended(
                self.timeline@,
                preferred,
                kind,
                name@,
                plays,
                duration,
                track_id,
                id,
            ),
            goes_last(self.timeline@, preferred, kind, plays, duration, track_id, id, out.asks()),
    {
        proof {
            appended_clips_go_last(
                self.timeline@,
                preferred,
                kind,
                name@,
                plays,
                duration,
                track_id,
                id,
            );
        }
        let s = &self.timeline;
        let found = match s.track_index(preferred) {
            Some(t) => Some(t),
            None => self.first_plain(kind),
        };
        let length = duration.most(Time(SECOND));
        match found {
            Some(t) => {
                let n: usize = s.tracks[t].items.len();
                assert(s@.tracks[t as int] == s.tracks@[t as int]@);
                let start = if n == 0 {
                    Time(0)
                } else {
                    assert(s@.tracks[t as int].items[n - 1] == s.tracks@[t as int].items@[n - 1]@);
                    s.tracks[t].items[n - 1].range.end()
                };
                let item = Item::new(id, name, plays, TimeRange { start, duration: length });
                Placed {
                    new_track: None,
                    insert: Op::InsertItem { seq: s.id, track: s.tracks[t].id, item },
                    clip: id,
                }
            },
            None => {
                let item = Item::new(id, name, plays, TimeRange { start: Time(0), duration: length });
                Placed {
                    new_track: Some(self.add_track(kind, track_id)),
                    insert: Op::InsertItem { seq: s.id, track: track_id, item },
                    clip: id,
                }
            },
        }
    }

    /// Appends a clip playing `media` to the end of the matching track. `track_id` and
    /// `id` are fresh ids.
    pub fn append_clip(&self, media: MediaId, duration: Time, track_id: TrackId, id: ItemId) -> (out:
        Result<Placed, EditError>)
        requires
            ranges_fit(self.timeline@),
            self.timeline.tracks@.len() < usize::MAX,
        ensures
            match first_where(self.pool@, with_media(media)) {
                None => out matches Err(e) && e == EditError::NoSuchMedia(media),
                Some(p) => {
                    let sound = self.pool@[p].kind is Audio;
                    out matches Ok(placed) && placed.clip == id && placed.asks() == appended(
                        self.timeline@,
                        if sound {
                            self.audio_track
                        } else {
                            self.video_track
                        },
                        if sound {
                            TrackKind::Audio
                        } else {
                            TrackKind::Video
                        },
                        self.pool@[p].name@,
                        ItemKind::Media { media },
                        duration,
                        track_id,
                        id,
                    )
                },
            },
    {
        match self.pool_item(media) {
            None => Err(EditError::NoSuchMedia(media)),
            Some(pool) => {
                let sound = matches!(pool.kind, MediaKind::Audio);
                let preferred = if sound {
                    self.audio_track
                } else {
                    self.video_track
                };
                let kind = if sound {
                    TrackKind::Audio
                } else {
                    TrackKind::Video
                };
                Ok(
                    self.append(
                        preferred,
                        kind,
                        pool.name.as_str(),
                        ItemKind::Media { media },
                        duration,
                        track_id,
                        id,
                    ),
                )
            },
        }
    }

    /// Adds a clip playing compound `inner` (its name and length) at the end of the video
    /// track. `None`: there's no such compound.
    pub fn append_compound(
        &self,
        seq: SeqId,
        inner: Option<(String, Time)>,
        track_id: TrackId,
        id: ItemId,
    ) -> (out: Result<Placed, EditError>)
        requires
            ranges_fit(self.timeline@),
            self.timeline.tracks@.len() < usize::MAX,
        ensures
            match inner {
                None => out matches Err(e) && e == EditError::NoSuchSequence(seq),
                Some((name, duration)) => out matches Ok(placed) && placed.clip == id
                    && placed.asks() == appended(
                    self.timeline@,
                    self.video_track,
                    TrackKind::Video,
                    name@,
                    ItemKind::Nested { sequence: seq },
                    duration,
                    track_id,
                    id,
                ),
            },
    {
        match inner {
            None => Err(EditError::NoSuchSequence(seq)),
            Some((name, duration)) => Ok(
                self.append(
                    self.video_track,
                    TrackKind::Video,
                    name.as_str(),
                    ItemKind::Nested { sequence: seq },
                    duration,
                    track_id,
                    id,
                ),
            ),
        }
    }
}

/// A clip that's appended is in nobody's way: it starts where the track's last clip ends.
pub proof fn appending_never_overlaps(t: TrackModel, range: TimeRange)
    requires
        range.start.0 == end_of(t),
        forall|i: int, j: int|
            0 <= i <= j < t.items.len() ==> (#[trigger] t.items[i]).range.ends() <= (
            #[trigger] t.items[j]).range.ends(),
    ensures
        !busy(t.items, range),
{
    if busy(t.items, range) {
        let i = choose|i: int| 0 <= i < t.items.len() && (#[trigger] t.items[i]).range.meets(range);
        assert(t.items[i].range.ends() <= t.items[t.items.len() - 1].range.ends());
    }
}

/// The video tracks that hold clips, bottom first.
pub open spec fn pictures(s: SequenceModel) -> Seq<TrackModel> {
    s.tracks.filter(plain(TrackKind::Video))
}

/// Every one of the tracks is empty.
pub open spec fn all_empty(tracks: Seq<TrackModel>) -> bool {
    forall|i: int| 0 <= i < tracks.len() ==> (#[trigger] tracks[i]).items.len() == 0
}

/// Where a title at `range` goes: on the topmost video track if it's free there and
/// something lies beneath, on the lowest one if they're all empty, else on a new one.
pub open spec fn text_track(s: SequenceModel, range: TimeRange) -> Option<TrackId> {
    let videos = pictures(s);
    if videos.len() > 1 && !busy(videos.last().items, range) {
        Some(videos.last().id)
    } else if videos.len() > 0 && all_empty(videos) {
        Some(videos[0].id)
    } else {
        None
    }
}

/// A clip put on `track`, or (`None`) on a new track of the kind.
pub open spec fn put_on(
    s: SequenceModel,
    track: Option<TrackId>,
    kind: TrackKind,
    item: ItemModel,
    track_id: TrackId,
) -> (Option<OpModel>, OpModel) {
    match track {
        Some(t) => (None, OpModel::InsertItem { seq: s.id, track: t, item }),
        None => (
            Some(track_added(s, kind, track_id)),
            OpModel::InsertItem { seq: s.id, track: track_id, item },
        ),
    }
}

/// A title saying what `content` stores.
pub open spec fn title_item(id: ItemId, range: TimeRange, setting: Seq<char>, content: Source) -> ItemModel {
    ItemModel {
        params: seq![ParamModel { id: setting, source: content }],
        ..Item::fresh(id, "Text"@, ItemKind::Text, range)
    }
}

impl Editor {
    /// The places of the video tracks that hold clips.
    fn picture_tracks(&self) -> (out: Vec<usize>)
        ensures
            out@.len() == pictures(self.timeline@).len(),
            forall|k: int|
                0 <= k < out@.len() ==> (#[trigger] out@[k]) < self.timeline.tracks@.len()
                    && self.timeline.tracks@[out@[k] as int]@ == pictures(self.timeline@)[k],
    {
        let s = &self.timeline;
        let ghost all = s@.tracks;
        let ghost p = plain(TrackKind::Video);
        let mut out: Vec<usize> = Vec::new();
        let mut i: usize = 0;
        proof {
            take_all(all);
            reveal_with_fuel(Seq::filter, 1);
        }
        while i < s.tracks.len()
            invariant
                s == &self.timeline,
                all == s@.tracks,
                p == plain(TrackKind::Video),
                i <= s.tracks@.len(),
                out@.len() == all.take(i as int).filter(p).len(),
                forall|k: int|
                    0 <= k < out@.len() ==> (#[trigger] out@[k]) < s.tracks@.len()
                        && s.tracks@[out@[k] as int]@ == all.take(i as int).filter(p)[k],
            decreases s.tracks@.len() - i,
        {
            proof {
                filter_step(all, p, i as int);
                assert(all[i as int] == s.tracks@[i as int]@);
            }
            if matches!(s.tracks[i].kind, TrackKind::Video) && !s.tracks[i].effects {
                out.push(i);
            }
            i = i + 1;
        }
        proof {
            take_all(all);
        }
        out
    }

    fn put(&self, track: Option<TrackId>, kind: TrackKind, item: Item, track_id: TrackId) -> (out: Placed)
        requires
            self.timeline.tracks@.len() < usize::MAX,
        ensures
            out.clip == item.id,
            out.asks() == put_on(self.timeline@, track, kind, item@, track_id),
    {
        let seq = self.timeline.id;
        let clip = item.id;
        match track {
            Some(t) => Placed {
                new_track: None,
                insert: Op::InsertItem { seq, track: t, item },
                clip,
            },
            None => Placed {
                new_track: Some(self.add_track(kind, track_id)),
                insert: Op::InsertItem { seq, track: track_id, item },
                clip,
            },
        }
    }

    /// Adds a text clip at `at` on top of everything: on the topmost video track if it's
    /// free there and something lies beneath, otherwise on a new track above. `setting`
    /// is the title's text, stored as `content`.
    pub fn add_text(
        &self,
        at: Time,
        setting: &str,
        content: Source,
        length: Time,
        track_id: TrackId,
        id: ItemId,
    ) -> (out: Placed)
        requires
            self.timeline.tracks@.len() < usize::MAX,
        ensures
            ({
                let range = TimeRange { start: at, duration: length.spec_most(Time(TENTH)) };
                out.clip == id && out.asks() == put_on(
                    self.timeline@,
                    text_track(self.timeline@, range),
                    TrackKind::Video,
                    title_item(id, range, setting@, content),
                    track_id,
                ) && goes_on_top(self.timeline@, range, track_id, id, out.asks())
            }),
    {
        proof {
            let range = TimeRange { start: at, duration: length.spec_most(Time(TENTH)) };
            titles_go_on_top(
                self.timeline@,
                range,
                title_item(id, range, setting@, content),
                track_id,
            );
        }
        let range = TimeRange { start: at, duration: length.most(Time(TENTH)) };
        let s = &self.timeline;
        let videos = self.picture_tracks();
        let n: usize = videos.len();
        let ghost those = pictures(s@);
        assert(n > 0 ==> s.tracks@[videos@[n - 1] as int]@ == those.last());
        let track = if n > 1 && !has_clip_in(&s.tracks[videos[n - 1]].items, range) {
            Some(s.tracks[videos[n - 1]].id)
        } else {
            let mut empty = true;
            let mut i: usize = 0;
            while i < n
                invariant
                    s == &self.timeline,
                    those == pictures(s@),
                    n == videos@.len(),
                    n == those.len(),
                    i <= n,
                    forall|k: int|
                        0 <= k < n ==> (#[trigger] videos@[k]) < s.tracks@.len()
                            && s.tracks@[videos@[k] as int]@ == those[k],
                    empty <==> forall|k: int| 0 <= k < i ==> (#[trigger] those[k]).items.len() == 0,
                decreases n - i,
            {
                assert(those[i as int] == s.tracks@[videos@[i as int] as int]@);
                if s.tracks[videos[i]].items.len() > 0 {
                    empty = false;
                }
                i = i + 1;
            }
            if n > 0 && empty {
                assert(s.tracks@[videos@[0] as int]@ == those[0]);
                Some(s.tracks[videos[0]].id)
            } else {
                None
            }
        };
        let mut item = Item::new(id, "Text", ItemKind::Text, range);
        item.params.push(Param { id: setting.to_owned(), source: content });
        assert(item@ =~= title_item(id, range, setting@, content));
        self.put(track, TrackKind::Video, item, track_id)
    }
}

/// The clips that start after `at`.
pub open spec fn starts_after(items: Seq<ItemModel>, at: Time) -> Seq<ItemModel> {
    items.filter(later_than(at))
}

pub open spec fn later_than(at: Time) -> spec_fn(ItemModel) -> bool {
    |i: ItemModel| i.range.start.0 > at.0
}

/// The earliest moment one of the clips starts.
pub open spec fn first_start(items: Seq<ItemModel>) -> Time
    decreases items.len(),
{
    if items.len() <= 1 {
        items[0].range.start
    } else {
        first_start(items.drop_last()).spec_least(items.last().range.start)
    }
}

/// How long a new effect container at `at` is: five seconds, or up to the next one.
pub open spec fn container_length(items: Seq<ItemModel>, at: Time) -> int {
    let later = starts_after(items, at);
    let room = first_start(later).0 - at.0;
    if later.len() > 0 && room < 5 * SECOND {
        room
    } else {
        5 * SECOND
    }
}

impl Editor {
    /// Adds an effect container on effect track `track` from `at`: five seconds, or up to
    /// the next container. Its effects are added in the inspector (or dropped on it).
    pub fn add_container(&self, track: TrackId, at: Time, id: ItemId) -> (out: Result<Op, EditError>)
        ensures
            match track_of(self.timeline@, track) {
                Some(t) if self.timeline@.tracks[t].effects => {
                    let items = self.timeline@.tracks[t].items;
                    if exists|i: int|
                        0 <= i < items.len() && (#[trigger] items[i]).range.holds(at) {
                        out matches Err(e) && e == EditError::Overlap
                    } else {
                        out matches Ok(op) && op@ == (OpModel::InsertItem {
                            seq: self.timeline@.id,
                            track,
                            item: Item::fresh(
                                id,
                                "Effects"@,
                                ItemKind::Adjustment,
                                TimeRange {
                                    start: at,
                                    duration: Time(container_length(items, at) as i64),
                                },
                            ),
                        })
                    }
                },
                _ => out matches Err(e) && e == EditError::WrongTrackKind,
            },
    {
        let s = &self.timeline;
        let found = s.track_index(track);
        if found.is_none() {
            return Err(EditError::WrongTrackKind);
        }
        let t: usize = found.unwrap();
        assert(s@.tracks[t as int] == s.tracks@[t as int]@);
        if !s.tracks[t].effects {
            return Err(EditError::WrongTrackKind);
        }
        let items = &s.tracks[t].items;
        let ghost all = s@.tracks[t as int].items;
        let ghost p = later_than(at);
        let mut i: usize = 0;
        let mut next: Option<Time> = None;
        proof {
            take_all(all);
            reveal_with_fuel(Seq::filter, 1);
        }
        while i < items.len()
            invariant
                all == views(items@),
                p == later_than(at),
                i <= items@.len(),
                forall|k: int| 0 <= k < i ==> !(#[trigger] all[k]).range.holds(at),
                next is None <==> all.take(i as int).filter(p).len() == 0,
                next matches Some(n) ==> n == first_start(all.take(i as int).filter(p)) && n.0
                    > at.0,
                s == &self.timeline,
                t < s.tracks@.len(),
                track_of(s@, track) == Some(t as int),
                s@.tracks[t as int].effects,
                s@.tracks[t as int].items == all,
            decreases items@.len() - i,
        {
            let ghost had = all.take(i as int).filter(p);
            proof {
                filter_step(all, p, i as int);
                assert(all[i as int] == items@[i as int]@);
                assert(had.push(all[i as int]).drop_last() =~= had);
            }
            if items[i].range.contains(at) {
                return Err(EditError::Overlap);
            }
            let start = items[i].range.start;
            if start.0 > at.0 {
                next = match next {
                    Some(n) => Some(n.least(start)),
                    None => Some(start),
                };
            }
            i = i + 1;
        }
        proof {
            take_all(all);
        }
        let length: i64 = match next {
            Some(n) => {
                if (n.0 as i128) - (at.0 as i128) < 5 * SECOND as i128 {
                    n.0 - at.0
                } else {
                    5 * SECOND
                }
            },
            None => 5 * SECOND,
        };
        let range = TimeRange { start: at, duration: Time(length) };
        let item = Item::new(id, "Effects", ItemKind::Adjustment, range);
        Ok(Op::InsertItem { seq: s.id, track, item })
    }
}

/// A new effect container ends where the next one starts, at the latest.
pub proof fn containers_leave_the_next_alone(items: Seq<ItemModel>, at: Time, i: int)
    requires
        0 <= i < items.len(),
        items[i].range.start.0 > at.0,
    ensures
        at.0 + container_length(items, at) <= items[i].range.start.0,
        container_length(items, at) > 0,
{
    let p = later_than(at);
    let later = starts_after(items, at);
    filter_place(items, p, i);
    let k = items.take(i).filter(p).len() as int;
    earliest_is_least(later, k);
    let j = earliest_is_one(later);
    items.lemma_filter_pred(p, j);
}

/// No clip starts before the earliest does.
pub proof fn earliest_is_least(items: Seq<ItemModel>, k: int)
    requires
        0 <= k < items.len(),
    ensures
        first_start(items).0 <= items[k].range.start.0,
    decreases items.len(),
{
    if items.len() > 1 && k < items.len() - 1 {
        earliest_is_least(items.drop_last(), k);
    }
}

/// The earliest start is some clip's start.
pub proof fn earliest_is_one(items: Seq<ItemModel>) -> (j: int)
    requires
        items.len() > 0,
    ensures
        0 <= j < items.len(),
        items[j].range.start == first_start(items),
    decreases items.len(),
{
    if items.len() <= 1 {
        0
    } else {
        let j = earliest_is_one(items.drop_last());
        if first_start(items) == items.last().range.start {
            items.len() - 1
        } else {
            j
        }
    }
}

/// Where a clip of the kind goes at `range`: the preferred track if it's the right kind and
/// free there, else the first free track of the kind.
pub open spec fn free_track(
    s: SequenceModel,
    kind: TrackKind,
    range: TimeRange,
    preferred: Option<TrackId>,
) -> Option<TrackId> {
    let p = free_at(kind, range);
    let first = match first_where(s.tracks, p) {
        Some(t) => Some(s.tracks[t].id),
        None => None,
    };
    match preferred {
        Some(id) => match track_of(s, id) {
            Some(t) if p(s.tracks[t]) => Some(s.tracks[t].id),
            _ => first,
        },
        None => first,
    }
}

/// The kind of track a clip goes on: sound files on audio tracks.
pub open spec fn kind_for(pool: Seq<PoolItem>, plays: ItemKind) -> TrackKind {
    match plays {
        ItemKind::Media { media } => match first_where(pool, with_media(media)) {
            Some(p) if pool[p].kind is Audio => TrackKind::Audio,
            _ => TrackKind::Video,
        },
        _ => TrackKind::Video,
    }
}

impl Editor {
    fn is_free(&self, t: usize, kind: TrackKind, range: TimeRange) -> (out: bool)
        requires
            t < self.timeline.tracks@.len(),
        ensures
            out == free_at(kind, range)(self.timeline@.tracks[t as int]),
    {
        let track = &self.timeline.tracks[t];
        assert(self.timeline@.tracks[t as int] == self.timeline.tracks@[t as int]@);
        track.kind == kind && !track.effects && !has_clip_in(&track.items, range)
    }

    /// Puts a clip at `at` (a frame boundary): on `preferred` if it's the right kind of
    /// track and free there, else the first free track of the kind, else a new track.
    pub fn place_clip(
        &self,
        name: &str,
        plays: ItemKind,
        duration: Time,
        at: Time,
        preferred: Option<TrackId>,
        track_id: TrackId,
        id: ItemId,
    ) -> (out: Placed)
        requires
            self.timeline.tracks@.len() < usize::MAX,
        ensures
            ({
                let range = TimeRange { start: at, duration: duration.spec_most(Time(SECOND)) };
                let kind = kind_for(self.pool@, plays);
                out.clip == id && out.asks() == put_on(
                    self.timeline@,
                    free_track(self.timeline@, kind, range, preferred),
                    kind,
                    Item::fresh(id, name@, plays, range),
                    track_id,
                ) && lands_right(
                    self.timeline@,
                    kind,
                    range,
                    preferred,
                    Item::fresh(id, name@, plays, range),
                    track_id,
                    out.asks(),
                )
            }),
    {
        proof {
            let range = TimeRange { start: at, duration: duration.spec_most(Time(SECOND)) };
            clips_land_where_they_are_dropped(
                self.timeline@,
                kind_for(self.pool@, plays),
                range,
                preferred,
                Item::fresh(id, name@, plays, range),
                track_id,
            );
        }
        let kind = match plays {
            ItemKind::Media { media } => match self.pool_item(media) {
                Some(p) => {
                    if matches!(p.kind, MediaKind::Audio) {
                        TrackKind::Audio
                    } else {
                        TrackKind::Video
                    }
                },
                None => TrackKind::Video,
            },
            _ => TrackKind::Video,
        };
        let range = TimeRange { start: at, duration: duration.most(Time(SECOND)) };
        let s = &self.timeline;
        let mut found: Option<TrackId> = None;
        if let Some(p) = preferred {
            if let Some(t) = s.track_index(p) {
                assert(s@.tracks[t as int] == s.tracks@[t as int]@);
                if self.is_free(t, kind, range) {
                    found = Some(s.tracks[t].id);
                }
            }
        }
        if found.is_none() {
            let ghost p = free_at(kind, range);
            let mut i: usize = 0;
            while i < s.tracks.len() && found.is_none()
                invariant
                    s == &self.timeline,
                    p == free_at(kind, range),
                    i <= s.tracks@.len(),
                    found is None ==> first_where(s@.tracks, p) == first_from(
                        s@.tracks,
                        p,
                        i as int,
                    ),
                    found matches Some(id) ==> first_where(s@.tracks, p) matches Some(t)
                        && s@.tracks[t].id == id,
                decreases s.tracks@.len() - i,
            {
                assert(s@.tracks[i as int] == s.tracks@[i as int]@);
                if self.is_free(i, kind, range) {
                    found = Some(s.tracks[i].id);
                }
                i = i + 1;
            }
        }
        self.put(found, kind, Item::new(id, name, plays, range), track_id)
    }

    /// Compound clips (groups turned into media) usable in the open timeline: every
    /// sequence but those that contain it (itself, and the ones `around` it).
    pub fn compounds(&self, sequences: &Vec<SeqId>, around: &Vec<SeqId>) -> (out: Vec<SeqId>)
        ensures
            out@ == sequences@.filter(not_among(around@)),
    {
        let mut out: Vec<SeqId> = Vec::new();
        let ghost p = not_among(around@);
        let mut i: usize = 0;
        proof {
            take_all(sequences@);
            reveal_with_fuel(Seq::filter, 1);
        }
        while i < sequences.len()
            invariant
                p == not_among(around@),
                i <= sequences@.len(),
                out@ == sequences@.take(i as int).filter(p),
            decreases sequences@.len() - i,
        {
            proof {
                filter_step(sequences@, p, i as int);
            }
            let mut k: usize = 0;
            let mut contains = false;
            while k < around.len()
                invariant
                    i < sequences@.len(),
                    k <= around@.len(),
                    contains <==> exists|j: int|
                        0 <= j < k && (#[trigger] around@[j]) == sequences@[i as int],
                decreases around@.len() - k,
            {
                if around[k] == sequences[i] {
                    contains = true;
                }
                k = k + 1;
            }
            if !contains {
                out.push(sequences[i]);
            }
            i = i + 1;
        }
        proof {
            take_all(sequences@);
        }
        out
    }
}

pub open spec fn not_among(around: Seq<SeqId>) -> spec_fn(SeqId) -> bool {
    |s: SeqId| !around.contains(s)
}

// ---- where things land ----

/// No clip of the track shares a moment with the range.
pub open spec fn clear_of(t: TrackModel, range: TimeRange) -> bool {
    forall|i: int|
        0 <= i < t.items.len() ==> (#[trigger] t.items[i]).range.start.0
            + t.items[i].range.duration.0 <= range.start.0 || range.start.0 + range.duration.0
            <= t.items[i].range.start.0
}

/// The track takes clips of the kind, and has room for one at `range`.
pub open spec fn takes(s: SequenceModel, t: int, kind: TrackKind, range: TimeRange) -> bool {
    0 <= t < s.tracks.len() && s.tracks[t].kind == kind && !s.tracks[t].effects && clear_of(
        s.tracks[t],
        range,
    )
}

/// The track at `t` is the one the id names.
pub open spec fn names(s: SequenceModel, id: TrackId, t: int) -> bool {
    0 <= t < s.tracks.len() && s.tracks[t].id == id && forall|u: int|
        0 <= u < t ==> (#[trigger] s.tracks[u]).id != id
}

/// The change adds an empty track of the kind, for clips: after every other of its kind, right
/// behind the last of them (at the end where there's none).
pub open spec fn adds_track(s: SequenceModel, kind: TrackKind, id: TrackId, op: OpModel) -> bool {
    op matches OpModel::InsertTrack { seq, index, track } && seq == s.id && track.id == id
        && track.kind == kind && !track.effects && track.items.len() == 0 && index
        <= s.tracks.len() && (forall|t: int|
        index <= t < s.tracks.len() ==> (#[trigger] s.tracks[t]).kind != kind) && (index
        < s.tracks.len() ==> index > 0 && s.tracks[index - 1].kind == kind) && (index
        == s.tracks.len() && index > 0 && s.tracks[index - 1].kind != kind ==> forall|t: int|
        0 <= t < s.tracks.len() ==> (#[trigger] s.tracks[t]).kind != kind)
}

/// A clip of the kind that's dropped goes on the track it was dropped on where that has room
/// for it, else on the first that has, else on a new one; what's there stays as it is.
pub open spec fn lands_right(
    s: SequenceModel,
    kind: TrackKind,
    range: TimeRange,
    preferred: Option<TrackId>,
    item: ItemModel,
    track_id: TrackId,
    asks: (Option<OpModel>, OpModel),
) -> bool {
    asks.1 matches OpModel::InsertItem { seq, track, item: put } && seq == s.id && put == item && {
        &&& preferred matches Some(p) ==> forall|t: int| #[trigger]
            names(s, p, t) && takes(s, t, kind, range) ==> track == p && asks.0 is None
        &&& (forall|p: TrackId, t: int| preferred == Some(p) && #[trigger] names(s, p, t) ==> !takes(
            s,
            t,
            kind,
            range,
        )) ==> forall|u: int| #[trigger]
            takes(s, u, kind, range) && (forall|v: int|
                0 <= v < u ==> !#[trigger] takes(s, v, kind, range)) ==> track == s.tracks[u].id
                && asks.0 is None
        &&& (forall|u: int| !#[trigger] takes(s, u, kind, range)) ==> track == track_id && (
        asks.0 matches Some(op) && adds_track(s, kind, track_id, op))
        &&& asks.0 is None ==> exists|u: int| #[trigger]
            takes(s, u, kind, range) && s.tracks[u].id == track
    }
}

/// A track that's free has room, and the other way round.
proof fn free_has_room(s: SequenceModel, t: int, kind: TrackKind, range: TimeRange)
    requires
        0 <= t < s.tracks.len(),
    ensures
        free_at(kind, range)(s.tracks[t]) == takes(s, t, kind, range),
        busy(s.tracks[t].items, range) == !clear_of(s.tracks[t], range),
{
    let items = s.tracks[t].items;
    if !busy(items, range) {
        assert forall|i: int| 0 <= i < items.len() implies (#[trigger] items[i]).range.start.0
            + items[i].range.duration.0 <= range.start.0 || range.start.0 + range.duration.0
            <= items[i].range.start.0 by {
            assert(!items[i].range.meets(range));
        }
    }
}

/// The track found by an id is the one it names.
proof fn found_is_named(s: SequenceModel, id: TrackId, from: int)
    requires
        0 <= from,
        forall|u: int| 0 <= u < from && u < s.tracks.len() ==> (#[trigger] s.tracks[u]).id != id,
    ensures
        match crate::doc::track_from(s, id, from) {
            Some(t) => names(s, id, t),
            None => forall|t: int| !#[trigger] names(s, id, t),
        },
    decreases s.tracks.len() - from,
{
    if from < s.tracks.len() && s.tracks[from].id != id {
        found_is_named(s, id, from + 1);
    }
}

/// A new track goes where it should.
pub proof fn new_tracks_go_behind_their_kind(s: SequenceModel, kind: TrackKind, id: TrackId)
    requires
        s.tracks.len() < usize::MAX,
    ensures
        adds_track(s, kind, id, track_added(s, kind, id)),
{
    last_is_right(s.tracks, of_kind(kind));
    assert forall|t: int| slot_for(s, kind) <= t < s.tracks.len() implies (#[trigger] s.tracks[t]).kind
        != kind by {
        assert(!of_kind(kind)(s.tracks[t]));
    }
    if last_where(s.tracks, of_kind(kind)) is None {
        assert forall|t: int| 0 <= t < s.tracks.len() implies (#[trigger] s.tracks[t]).kind != kind by {
            assert(!of_kind(kind)(s.tracks[t]));
        }
    }
}

/// A clip that's dropped lands on the track it was dropped on, if that's of its kind and free
/// there; else on the first track that is; else on a new one. No clip ends up on another.
pub proof fn clips_land_where_they_are_dropped(
    s: SequenceModel,
    kind: TrackKind,
    range: TimeRange,
    preferred: Option<TrackId>,
    item: ItemModel,
    track_id: TrackId,
)
    requires
        s.tracks.len() < usize::MAX,
    ensures
        lands_right(
            s,
            kind,
            range,
            preferred,
            item,
            track_id,
            put_on(s, free_track(s, kind, range, preferred), kind, item, track_id),
        ),
{
    let p = free_at(kind, range);
    first_is_right(s.tracks, p, 0);
    new_tracks_go_behind_their_kind(s, kind, track_id);
    assert forall|u: int| 0 <= u < s.tracks.len() implies p(#[trigger] s.tracks[u]) == takes(
        s,
        u,
        kind,
        range,
    ) by {
        free_has_room(s, u, kind, range);
    }
    if let Some(id) = preferred {
        found_is_named(s, id, 0);
        assert forall|t: int| #[trigger] names(s, id, t) implies track_of(s, id) == Some(t) by {
            let u = track_of(s, id)->0;
            if u < t {
                assert(s.tracks[u].id != id);
            } else if t < u {
                assert(s.tracks[t].id != id);
            }
        }
    }
    match free_track(s, kind, range, preferred) {
        Some(id) => {
            match first_where(s.tracks, p) {
                Some(t) => {
                    assert(takes(s, t, kind, range));
                },
                None => {},
            }
        },
        None => {
            assert(first_where(s.tracks, p) is None);
        },
    }
    assert forall|u: int| #[trigger] takes(s, u, kind, range) && (forall|v: int|
        0 <= v < u ==> !#[trigger] takes(s, v, kind, range)) implies first_where(s.tracks, p)
        == Some(u) by {
        assert(p(s.tracks[u]));
        let t = first_where(s.tracks, p)->0;
        if t < u {
            assert(takes(s, t, kind, range));
        }
    }
}

/// Sound files go on audio tracks, everything else on video tracks.
pub proof fn sound_goes_on_audio_tracks(pool: Seq<PoolItem>, plays: ItemKind)
    ensures
        match plays {
            ItemKind::Media { media } => {
                &&& forall|p: int|
                    0 <= p < pool.len() && (#[trigger] pool[p]).id == media && (forall|q: int|
                        0 <= q < p ==> (#[trigger] pool[q]).id != media) ==> (kind_for(pool, plays)
                        is Audio <==> pool[p].kind is Audio)
                &&& (forall|p: int| 0 <= p < pool.len() ==> (#[trigger] pool[p]).id != media)
                    ==> kind_for(pool, plays) is Video
            },
            _ => kind_for(pool, plays) is Video,
        },
{
    if let ItemKind::Media { media } = plays {
        let w = with_media(media);
        first_is_right(pool, w, 0);
        assert forall|p: int|
            0 <= p < pool.len() && (#[trigger] pool[p]).id == media && (forall|q: int|
                0 <= q < p ==> (#[trigger] pool[q]).id != media) implies first_where(pool, w)
            == Some(p) by {
            assert(w(pool[p]));
            let t = first_where(pool, w)->0;
            if t < p {
                assert(w(pool[t]));
                assert(pool[t].id != media);
            }
        }
    }
}

/// A clip that's appended comes after everything on the track it goes to (from 0 on where
/// there's nothing), which is the preferred one while it's there, else the first that takes
/// clips of its kind, else a new one; and it's a second long at least.
pub open spec fn goes_last(
    s: SequenceModel,
    preferred: TrackId,
    kind: TrackKind,
    plays: ItemKind,
    duration: Time,
    track_id: TrackId,
    id: ItemId,
    asks: (Option<OpModel>, OpModel),
) -> bool {
    asks.1 matches OpModel::InsertItem { seq, track, item } && {
        &&& seq == s.id
        &&& item.id == id
        &&& item.kind == plays
        &&& item.range.duration.0 >= SECOND
        &&& item.range.duration.0 >= duration.0
        &&& item.range.duration.0 == SECOND || item.range.duration == duration
        &&& asks.0 is None ==> exists|t: int|
            0 <= t < s.tracks.len() && (#[trigger] s.tracks[t]).id == track && (
            s.tracks[t].items.len() > 0 ==> item.range.start.0
                == s.tracks[t].items.last().range.start.0
                + s.tracks[t].items.last().range.duration.0) && (s.tracks[t].items.len() == 0
                ==> item.range.start.0 == 0)
        &&& forall|t: int| #[trigger] names(s, preferred, t) ==> asks.0 is None && track == preferred
        &&& (forall|t: int| !#[trigger] names(s, preferred, t)) ==> forall|t: int| #[trigger]
            is_first_for(s, kind, t) ==> asks.0 is None && track == s.tracks[t].id
        &&& (asks.0 matches Some(op) ==> adds_track(s, kind, track_id, op) && track == track_id
            && item.range.start.0 == 0 && forall|t: int| !#[trigger] is_first_for(s, kind, t))
    }
}

/// The track is the first that takes clips of the kind.
pub open spec fn is_first_for(s: SequenceModel, kind: TrackKind, t: int) -> bool {
    0 <= t < s.tracks.len() && s.tracks[t].kind == kind && !s.tracks[t].effects && forall|u: int|
        0 <= u < t ==> (#[trigger] s.tracks[u]).kind != kind || s.tracks[u].effects
}

/// What's appended goes after everything that's there.
pub proof fn appended_clips_go_last(
    s: SequenceModel,
    preferred: TrackId,
    kind: TrackKind,
    name: Seq<char>,
    plays: ItemKind,
    duration: Time,
    track_id: TrackId,
    id: ItemId,
)
    requires
        s.tracks.len() < usize::MAX,
        ranges_fit(s),
    ensures
        goes_last(
            s,
            preferred,
            kind,
            plays,
            duration,
            track_id,
            id,
            appended(s, preferred, kind, name, plays, duration, track_id, id),
        ),
{
    let p = plain(kind);
    first_is_right(s.tracks, p, 0);
    found_is_named(s, preferred, 0);
    let asks = appended(s, preferred, kind, name, plays, duration, track_id, id);
    assert forall|t: int| #[trigger] names(s, preferred, t) implies track_of(s, preferred) == Some(
        t,
    ) by {
        let u = track_of(s, preferred)->0;
        if u < t {
            assert(s.tracks[u].id != preferred);
        } else if t < u {
            assert(s.tracks[t].id != preferred);
        }
    }
    assert forall|t: int| #[trigger] is_first_for(s, kind, t) implies first_where(s.tracks, p)
        == Some(t) by {
        assert(p(s.tracks[t]));
        let u = first_where(s.tracks, p)->0;
        if u < t {
            assert(p(s.tracks[u]));
        }
    }
    match append_track(s, preferred, kind) {
        Some(t) => {
            let track = s.tracks[t];
            assert(0 <= t < s.tracks.len());
            if track.items.len() > 0 {
                assert(s.tracks[t].items[track.items.len() - 1].range.fits());
            }
            assert(asks.0 is None);
            assert(goes_last(s, preferred, kind, plays, duration, track_id, id, asks));
        },
        None => {
            new_tracks_go_behind_their_kind(s, kind, track_id);
            assert(goes_last(s, preferred, kind, plays, duration, track_id, id, asks));
        },
    }
}

/// A video track that takes clips.
pub open spec fn shows(s: SequenceModel, t: int) -> bool {
    0 <= t < s.tracks.len() && s.tracks[t].kind is Video && !s.tracks[t].effects
}

/// A title at `range` is drawn over everything that's there then, and lies on no other clip.
/// It gets a track of its own only where the topmost one is taken then, or is the only one
/// and there are clips on it.
pub open spec fn goes_on_top(
    s: SequenceModel,
    range: TimeRange,
    track_id: TrackId,
    id: ItemId,
    asks: (Option<OpModel>, OpModel),
) -> bool {
    asks.1 matches OpModel::InsertItem { seq, track, item } && {
        &&& seq == s.id
        &&& item.id == id
        &&& item.range == range
        &&& item.kind is Text
        &&& asks.0 is None ==> exists|t: int| #[trigger]
            shows(s, t) && s.tracks[t].id == track && clear_of(s.tracks[t], range) && (forall|
                u: int,
            | #[trigger]
                shows(s, u) ==> u <= t) && (s.tracks[t].items.len() == 0 || exists|u: int| #[trigger]
                shows(s, u) && u < t)
        &&& (asks.0 matches Some(op) ==> track == track_id && adds_track(
            s,
            TrackKind::Video,
            track_id,
            op,
        ) && forall|t: int| #[trigger]
            shows(s, t) && (forall|u: int| #[trigger] shows(s, u) ==> u <= t) ==> !clear_of(
                s.tracks[t],
                range,
            ) || (s.tracks[t].items.len() > 0 && forall|u: int| #[trigger]
                shows(s, u) ==> u == t))
    }
}

/// Titles are drawn over everything else.
pub proof fn titles_go_on_top(s: SequenceModel, range: TimeRange, item: ItemModel, track_id: TrackId)
    requires
        s.tracks.len() < usize::MAX,
        item.kind is Text,
        item.range == range,
    ensures
        goes_on_top(
            s,
            range,
            track_id,
            item.id,
            put_on(s, text_track(s, range), TrackKind::Video, item, track_id),
        ),
{
    let p = plain(TrackKind::Video);
    let videos = pictures(s);
    let at = kept_places(s.tracks, p);
    new_tracks_go_behind_their_kind(s, TrackKind::Video, track_id);
    assert forall|t: int| #[trigger] shows(s, t) implies at.contains(t) by {
        assert(p(s.tracks[t]));
    }
    assert forall|k: int| 0 <= k < at.len() implies shows(s, #[trigger] at[k]) by {
        assert(p(s.tracks[at[k]]));
    }
    if videos.len() > 0 {
        let top = at[at.len() - 1];
        assert(shows(s, top));
        assert(s.tracks[top] == videos.last());
        free_has_room(s, top, TrackKind::Video, range);
        assert forall|u: int| #[trigger] shows(s, u) implies u <= top by {
            let k = choose|k: int| 0 <= k < at.len() && at[k] == u;
            if k < at.len() - 1 {
                assert(at[k] < at[at.len() - 1]);
            }
        }
        if videos.len() == 1 {
            assert forall|u: int| #[trigger] shows(s, u) implies u == top by {
                let k = choose|k: int| 0 <= k < at.len() && at[k] == u;
            }
            if !all_empty(videos) {
                assert(videos[0].items.len() > 0);
            }
        }
        let low = at[0];
        assert(shows(s, low));
        assert(s.tracks[low] == videos[0]);
        if all_empty(videos) {
            assert forall|u: int| #[trigger] shows(s, u) implies s.tracks[u].items.len() == 0 by {
                let k = choose|k: int| 0 <= k < at.len() && at[k] == u;
                assert(videos[k] == s.tracks[u]);
            }
            assert(clear_of(s.tracks[low], range));
        }
    }
}

/// A new effect container is five seconds long where the next one leaves it that; else it ends
/// just where the next one starts.
pub proof fn containers_reach_to_the_next(items: Seq<ItemModel>, at: Time)
    ensures
        container_length(items, at) <= 5 * SECOND,
        container_length(items, at) == 5 * SECOND || exists|i: int|
            0 <= i < items.len() && (#[trigger] items[i]).range.start.0 > at.0
                && items[i].range.start.0 == at.0 + container_length(items, at),
{
    let p = later_than(at);
    let later = starts_after(items, at);
    if later.len() > 0 {
        let j = earliest_is_one(later);
        let at_places = kept_places(items, p);
        assert(items[at_places[j]] == later[j]);
        assert(p(items[at_places[j]]));
    }
}

} // verus!
