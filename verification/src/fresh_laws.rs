//! What holds of things that are made anew: the clips, tracks and timelines that commands
//! make, what they're called, and that no two of them have the same id.
use crate::caption_lines::LineModel;
use crate::caption_track::{caption_item, placed, Look};
use crate::captions::Span;
use crate::compound::of_kind;
use crate::doc::{
    param_of, Item, ItemId, ItemKind, ItemModel, OpModel, SequenceModel, Source, TimeRange, Track,
    TrackId, TrackKind, TrackModel,
};
use crate::nesting::{
    clip_id, ids_taken, inner_sequence, inner_track, inner_tracks, mine, nest_ops,
};
use crate::placing::{letter, name_for, plain, title_item};
use crate::seqs::{filter_step, last_is_right, take_all};
use crate::text::decimal;
use vstd::prelude::*;

verus! {

/// A new clip plays as it is: on, with its sound, at its own speed from its file's start, with
/// nothing set on it and in no group.
pub proof fn new_clips_have_nothing_set(
    id: ItemId,
    name: Seq<char>,
    kind: ItemKind,
    range: TimeRange,
)
    ensures
        ({
            let it = Item::fresh(id, name, kind, range);
            &&& it.id == id && it.name == name && it.kind == kind && it.range == range
            &&& it.enabled && it.audio && !it.outro_reverses_intro
            &&& it.group is None
            &&& it.effects.len() == 0 && it.params.len() == 0 && it.transitions.len() == 0
                && it.word_times.len() == 0
            &&& it.time_map.source_in.0 == 0 && it.time_map.speed_num == it.time_map.speed_den
                && it.time_map.speed_den > 0
        }),
{
}

/// A new title says what it's given to say, and is otherwise a clip with nothing set on it.
pub proof fn new_titles_say_their_text(
    id: ItemId,
    range: TimeRange,
    setting: Seq<char>,
    content: Source,
)
    ensures
        ({
            let it = title_item(id, range, setting, content);
            &&& it.id == id && it.range == range && it.kind is Text && it.enabled
            &&& param_of(it.params, setting) == Some(content)
            &&& it.params.len() == 1 && it.effects.len() == 0 && it.group is None
            &&& it.word_times.len() == 0 && it.transitions.len() == 0
        }),
{
}

/// A new track is empty.
pub proof fn new_tracks_are_empty(id: TrackId, name: Seq<char>, kind: TrackKind, effects: bool)
    ensures
        ({
            let t = Track::empty(id, name, kind, effects);
            &&& t.id == id && t.name == name && t.kind == kind && t.effects == effects
            &&& t.items.len() == 0
        }),
{
}

/// Tracks are numbered as they come, video and audio each from one: the first is V1 or A1, and
/// one more track of the kind makes the next number one higher. Tracks of the other kind and
/// effect tracks don't count.
pub proof fn tracks_are_numbered_as_they_come(
    s: SequenceModel,
    more: SequenceModel,
    kind: TrackKind,
    new: TrackModel,
) -> (n: nat)
    requires
        more.tracks == s.tracks.push(new),
    ensures
        name_for(s, kind) == letter(kind) + decimal(n),
        name_for(more, kind) == letter(kind) + decimal(
            if new.kind == kind && !new.effects {
                n + 1
            } else {
                n
            },
        ),
        s.tracks.len() == 0 ==> n == 1,
        letter(TrackKind::Video) == "V"@ && letter(TrackKind::Audio) == "A"@,
{
    let p = plain(kind);
    let k = s.tracks.len() as int;
    filter_step(more.tracks, p, k);
    take_all(more.tracks);
    assert(more.tracks.take(k) =~= s.tracks);
    if k == 0 {
        assert(s.tracks.filter(p).len() == 0) by {
            reveal_with_fuel(Seq::filter, 1);
        }
    }
    s.tracks.filter(p).len() + 1
}

// ---- compound clips ----

/// The timeline of a compound clip runs at the same rate as the one it's made from, in its open
/// format alone, over the background it's given.
pub proof fn compounds_keep_the_picture(
    s: SequenceModel,
    items: Seq<ItemId>,
    fresh: Seq<u64>,
    name: Seq<char>,
    background: ItemModel,
)
    ensures
        ({
            let inner = inner_sequence(s, items, fresh, name, background);
            let open = s.variants[s.active as int];
            &&& inner.name == name
            &&& inner.rate_num == s.rate_num && inner.rate_den == s.rate_den
            &&& inner.variants.len() == 1 && inner.active == 0
            &&& inner.variants[0].width == open.width && inner.variants[0].height == open.height
            &&& inner.variants[0].name == open.name
            &&& inner.background == background
            &&& inner.id.0 == fresh[0] && inner.variants[0].id.0 == fresh[1]
        }),
{
}

/// The ids of the tracks and their clips, each after those before it: `at[k]` is where those of
/// the `k`-th track begin.
pub open spec fn ids_follow(tracks: Seq<TrackModel>, fresh: Seq<u64>, at: Seq<int>, end: int) -> bool {
    &&& at.len() == tracks.len()
    &&& forall|k: int|
        0 <= k < at.len() ==> 2 <= (#[trigger] at[k]) && at[k] + 1 + tracks[k].items.len() <= end
            && tracks[k].id.0 == fresh[at[k]]
    &&& forall|k: int, j: int|
        0 <= k < at.len() && 0 <= j < tracks[k].items.len() ==> (
        #[trigger] tracks[k].items[j]).id.0 == fresh[at[k] + 1 + j]
    &&& forall|a: int, b: int|
        0 <= a < b < at.len() ==> (#[trigger] at[a]) + 1 + tracks[a].items.len() <= (
        #[trigger] at[b])
}

/// Everything in a compound clip has an id of its own: no fresh id is used twice.
pub proof fn everything_inside_has_its_own_id(
    s: SequenceModel,
    items: Seq<ItemId>,
    fresh: Seq<u64>,
    start: int,
    n: int,
) -> (at: Seq<int>)
    requires
        0 <= n <= s.tracks.len(),
    ensures
        ids_follow(inner_tracks(s, items, fresh, start, n), fresh, at, ids_taken(s, items, n)),
        ids_taken(s, items, n) >= 2,
    decreases n,
{
    if n == 0 {
        Seq::empty()
    } else {
        let had = everything_inside_has_its_own_id(s, items, fresh, start, n - 1);
        let before = inner_tracks(s, items, fresh, start, n - 1);
        let all = inner_tracks(s, items, fresh, start, n);
        let base = ids_taken(s, items, n - 1);
        if mine(s.tracks[n - 1], items).len() > 0 {
            let at = had.push(base);
            let new = inner_track(s, items, fresh, start, n - 1);
            assert(all == before.push(new));
            assert forall|k: int| 0 <= k < at.len() implies 2 <= (#[trigger] at[k]) && at[k] + 1
                + all[k].items.len() <= ids_taken(s, items, n) && all[k].id.0 == fresh[at[k]] by {
                if k < had.len() {
                    assert(at[k] == had[k] && all[k] == before[k]);
                }
            }
            assert forall|k: int, j: int| 0 <= k < at.len() && 0 <= j < all[k].items.len() implies (
            #[trigger] all[k].items[j]).id.0 == fresh[at[k] + 1 + j] by {
                if k < had.len() {
                    assert(at[k] == had[k] && all[k] == before[k]);
                    assert(before[k].items[j].id.0 == fresh[had[k] + 1 + j]);
                }
            }
            assert forall|a: int, b: int| 0 <= a < b < at.len() implies (#[trigger] at[a]) + 1
                + all[a].items.len() <= (#[trigger] at[b]) by {
                assert(at[a] == had[a] && all[a] == before[a]);
                if b < had.len() {
                    assert(at[b] == had[b]);
                }
            }
            at
        } else {
            had
        }
    }
}

/// The clip that plays the compound has an id that nothing inside it has; a track made for it
/// goes on top of the video tracks and has an id of its own too.
pub proof fn the_compounds_clip_has_its_own_id(
    s: SequenceModel,
    items: Seq<ItemId>,
    fresh: Seq<u64>,
    name: Seq<char>,
)
    requires
        s.tracks.len() < usize::MAX,
    ensures
        ({
            let ops = nest_ops(s, items, fresh, name);
            let base = ids_taken(s, items, s.tracks.len() as int);
            &&& ops.len() > 0
            &&& ops.last() matches OpModel::InsertItem { seq, track, item } && {
                &&& item.id == clip_id(s, items, fresh)
                &&& item.name == name
                &&& item.id.0 == fresh[base] || (item.id.0 == fresh[base + 1] && ops.len() > 1 && (
                ops[ops.len() - 2] matches OpModel::InsertTrack { seq: on, index, track: new }
                    && new.id.0 == fresh[base] && {
                    &&& index <= s.tracks.len()
                    &&& forall|t: int|
                        index <= t < s.tracks.len() ==> !((#[trigger] s.tracks[t]).kind is Video)
                    &&& index > 0 ==> s.tracks[index - 1].kind is Video
                }))
            }
        }),
{
    last_is_right(s.tracks, of_kind(TrackKind::Video));
}

// ---- captions ----

/// A caption's clip is its own: it plays at its own speed, where it's put, and its id and those
/// of its effects are fresh, one after the other.
pub proof fn captions_are_clips_of_their_own(
    style: ItemModel,
    range: (int, int),
    fresh: Seq<u64>,
    base: int,
    content: (Seq<char>, Source),
    color: (Seq<char>, Option<Source>),
    times: Seq<TimeRange>,
    j: int,
)
    ensures
        ({
            let it = caption_item(style, range, fresh, base, content, color, times);
            &&& it.id.0 == fresh[base]
            &&& it.name == "Caption"@
            &&& 0 <= j < it.effects.len() ==> it.effects[j].id.0 == fresh[base + 1 + j]
            &&& it.time_map.source_in.0 == 0 && it.time_map.speed_num == it.time_map.speed_den
                && it.time_map.speed_den > 0
            &&& it.group == style.group && it.audio == style.audio
            &&& it.outro_reverses_intro == style.outro_reverses_intro
        }),
{
}

/// No two captions share an id: `at[k]` is where the ids of the `k`-th begin, after all those
/// of the captions before it. The first fresh id is the track's.
pub proof fn every_caption_has_its_own_ids(
    lines: Seq<LineModel>,
    snapped: Seq<Span>,
    frame: int,
    look: Look,
    fresh: Seq<u64>,
    n: int,
) -> (at: Seq<int>)
    requires
        0 <= n,
    ensures
        ({
            let done = placed(lines, snapped, frame, look, fresh, n);
            let each = 1 + look.style@.effects.len();
            &&& at.len() == done.items.len()
            &&& forall|k: int|
                0 <= k < at.len() ==> 1 <= (#[trigger] at[k]) && at[k] + each <= done.used
                    && done.items[k].id.0 == fresh[at[k]]
            &&& forall|a: int, b: int|
                0 <= a < b < at.len() ==> (#[trigger] at[a]) + each <= (#[trigger] at[b])
            &&& done.used >= 1
        }),
    decreases n,
{
    if n == 0 {
        Seq::empty()
    } else {
        let had = every_caption_has_its_own_ids(lines, snapped, frame, look, fresh, n - 1);
        let before = placed(lines, snapped, frame, look, fresh, n - 1);
        let done = placed(lines, snapped, frame, look, fresh, n);
        let each = 1 + look.style@.effects.len();
        if done.items.len() > before.items.len() {
            let at = had.push(before.used);
            assert forall|k: int| 0 <= k < at.len() implies 1 <= (#[trigger] at[k]) && at[k] + each
                <= done.used && done.items[k].id.0 == fresh[at[k]] by {
                if k < had.len() {
                    assert(at[k] == had[k] && done.items[k] == before.items[k]);
                }
            }
            assert forall|a: int, b: int| 0 <= a < b < at.len() implies (#[trigger] at[a]) + each
                <= (#[trigger] at[b]) by {
                assert(at[a] == had[a]);
                if b < had.len() {
                    assert(at[b] == had[b]);
                }
            }
            at
        } else {
            had
        }
    }
}

} // verus!
