//! What holds of timelines inside timelines, of formats, and of what the timeline shows.
use crate::band::{line_of, picked_for, Line};
use crate::caption_jobs::{hull, share_of, with_line, LOG};
use crate::caption_style::{first_line, ids_of, is_title, look_of, others_to, titles_to};
use crate::compound::{
    first_gone, of_kind, opening_of, stepped_in, tracks_in, Crumb, Opening, Place,
};
use crate::doc::{
    place_of, EffectModel, ItemId, ItemKind, ItemModel, OpModel, SeqId, SequenceModel, Time,
    TimeRange, TrackId, TrackKind, TrackModel, VariantId, VariantModel,
};
use crate::formats::{
    changed_by, edge_at, edge_place, is_format, shown_after, stepped, Action, Shows,
};
use crate::project::{new_timeline, Preset};
use crate::seqs::{first_is_right, first_where, kept_places, some_is_first};
use vstd::prelude::*;

verus! {

// ---- inside a compound clip ----

/// The tracks edited inside a compound are its first of each kind; where it has none of a
/// kind, the other's, or its first one.
pub proof fn the_first_tracks_are_edited(s: SequenceModel, v: int, a: int)
    requires
        0 <= v < s.tracks.len(),
        s.tracks[v].kind == TrackKind::Video,
        forall|j: int| 0 <= j < v ==> (#[trigger] s.tracks[j]).kind != TrackKind::Video,
        0 <= a < s.tracks.len(),
        s.tracks[a].kind == TrackKind::Audio,
        forall|j: int| 0 <= j < a ==> (#[trigger] s.tracks[j]).kind != TrackKind::Audio,
    ensures
        tracks_in(s) == Some((s.tracks[v].id, s.tracks[a].id)),
{
    first_is_right(s.tracks, of_kind(TrackKind::Video), 0);
    first_is_right(s.tracks, of_kind(TrackKind::Audio), 0);
    let x = first_where(s.tracks, of_kind(TrackKind::Video))->0;
    let y = first_where(s.tracks, of_kind(TrackKind::Audio))->0;
    some_is_first(s.tracks, of_kind(TrackKind::Video), 0, v);
    some_is_first(s.tracks, of_kind(TrackKind::Audio), 0, a);
    assert(x == v) by {
        if x < v {
            assert(s.tracks[x].kind != TrackKind::Video);
        }
    }
    assert(y == a) by {
        if y < a {
            assert(s.tracks[y].kind != TrackKind::Audio);
        }
    }
}

/// A compound with tracks of one kind only is edited on the first of them; one without tracks
/// can't be edited.
pub proof fn one_kind_of_track_is_enough(s: SequenceModel, kind: TrackKind)
    requires
        forall|j: int| 0 <= j < s.tracks.len() ==> (#[trigger] s.tracks[j]).kind == kind,
    ensures
        s.tracks.len() > 0 ==> tracks_in(s) == Some((s.tracks[0].id, s.tracks[0].id)),
        s.tracks.len() == 0 ==> tracks_in(s) is None,
{
    first_is_right(s.tracks, of_kind(TrackKind::Video), 0);
    first_is_right(s.tracks, of_kind(TrackKind::Audio), 0);
    if s.tracks.len() > 0 {
        some_is_first(s.tracks, of_kind(kind), 0, 0);
    }
}

/// Only a compound clip can be opened, and only one whose timeline is there and has a track.
pub proof fn only_compounds_open(it: Option<ItemModel>, inner: Option<SequenceModel>)
    ensures
        opening_of(it, inner) == Opening::Opened <==> it is Some && it->0.kind is Nested
            && inner is Some && inner->0.tracks.len() > 0,
        opening_of(it, inner) == Opening::NoTracks <==> it is Some && it->0.kind is Nested
            && inner is Some && inner->0.tracks.len() == 0,
{
    if let Some(s) = inner {
        first_is_right(s.tracks, of_kind(TrackKind::Video), 0);
    }
}

/// Inside, the editor is on the compound's own tracks at the moment that was shown, in its
/// first format; the way back is one step longer.
pub proof fn inside_it_is_the_same_moment(
    here: Place,
    crumbs: Seq<Crumb>,
    item: ItemId,
    sequence: SeqId,
    tracks: (TrackId, TrackId),
    inside: Time,
)
    ensures
        ({
            let (there, way) = stepped_in(here, crumbs, item, sequence, tracks, inside);
            &&& there.seq == sequence
            &&& there.video_track == tracks.0
            &&& there.audio_track == tracks.1
            &&& there.variant == 0
            &&& inside.0 >= 0 ==> there.playhead == inside
            &&& inside.0 < 0 ==> there.playhead.0 == 0
            &&& way.len() == crumbs.len() + 1
            &&& way.drop_last() == crumbs
            &&& way.last().item == item
            &&& way.last().place == here
        }),
{
    let way = crumbs.push(Crumb { place: here, item });
    assert(way.drop_last() =~= crumbs);
}

/// The first timeline that's gone is where the way ends: those before it are there.
pub proof fn the_way_ends_where_a_timeline_is_gone(there: Seq<bool>, from: int)
    requires
        0 <= from <= there.len(),
    ensures
        from <= first_gone(there, from) <= there.len(),
        forall|k: int| from <= k < first_gone(there, from) ==> #[trigger] there[k],
        first_gone(there, from) < there.len() ==> !there[first_gone(there, from)],
    decreases there.len() - from,
{
    if from < there.len() && there[from] {
        the_way_ends_where_a_timeline_is_gone(there, from + 1);
    }
}

// ---- the line a clip shows ----

/// A clip shows the first line picked for it; without one its volume if it's on a sound track,
/// its opacity if it's on a picture track.
pub proof fn clips_show_the_line_picked(s: SequenceModel, picked: Seq<ItemId>, item: ItemId)
    requires
        picked.len() <= usize::MAX,
    ensures
        match line_of(s, picked, item) {
            Some(Line::Picked(i)) => i < picked.len() && picked[i as int] == item && forall|k: int|
                0 <= k < i ==> picked[k] != item,
            Some(Line::Volume) => !picked.contains(item) && place_of(s, item) is Some
                && s.tracks[(place_of(s, item)->0).0].kind is Audio,
            Some(Line::Opacity) => !picked.contains(item) && place_of(s, item) is Some
                && s.tracks[(place_of(s, item)->0).0].kind is Video,
            None => !picked.contains(item) && place_of(s, item) is None,
        },
{
    picked_first(picked, item, 0);
}

proof fn picked_first(picked: Seq<ItemId>, item: ItemId, from: int)
    requires
        0 <= from,
    ensures
        match picked_for(picked, item, from) {
            Some(i) => from <= i < picked.len() && picked[i] == item && forall|k: int|
                from <= k < i ==> picked[k] != item,
            None => forall|k: int| from <= k < picked.len() ==> picked[k] != item,
        },
    decreases picked.len() - from,
{
    if from < picked.len() && picked[from] != item {
        picked_first(picked, item, from + 1);
    }
}

// ---- formats ----

/// The edges offered go up, and each is found at its own place.
pub proof fn edges_go_up(i: int, j: int)
    requires
        0 <= i < j < 4,
    ensures
        edge_at(i).0 < edge_at(j).0,
        edge_place(edge_at(i).0) == Some(i),
        edge_place(edge_at(j).0) == Some(j),
        edge_at(0).0 == 720 && edge_at(3).0 == 2160,
{
}

/// A step up is to the next edge that's larger, from the largest to the smallest; an edge that
/// isn't offered counts as 1080.
pub proof fn a_step_up_is_to_the_next_edge(edge: u32)
    ensures
        edge_place(edge) matches Some(i) && i < 3 ==> stepped(edge, true) == edge_at(
            edge_place(edge)->0 + 1,
        ).0 && stepped(edge, true) > edge,
        edge_place(edge) == Some(3int) ==> stepped(edge, true) == edge_at(0).0,
        edge_place(edge) is None ==> stepped(edge, true) == stepped(1080, true) && stepped(
            edge,
            false,
        ) == stepped(1080, false),
        stepped(stepped(edge, true), false) == if edge_place(edge) is Some {
            edge
        } else {
            1080
        },
{
}

/// What a change makes of a format (`None`: it's gone).
pub open spec fn format_after(v: VariantModel, op: OpModel) -> Option<VariantModel> {
    match op {
        OpModel::SetVariantSize { variant, width, height, .. } => Some(
            if variant == v.id {
                VariantModel { width, height, ..v }
            } else {
                v
            },
        ),
        OpModel::SetVariantName { variant, name, .. } => Some(
            if variant == v.id {
                VariantModel { name, ..v }
            } else {
                v
            },
        ),
        OpModel::RemoveVariant { variant, .. } => if variant == v.id {
            None
        } else {
            Some(v)
        },
        _ => Some(v),
    }
}

/// What the changes make of a format.
pub open spec fn format_later(v: VariantModel, ops: Seq<OpModel>) -> Option<VariantModel>
    decreases ops.len(),
{
    if ops.len() == 0 {
        Some(v)
    } else {
        match format_later(v, ops.drop_last()) {
            Some(w) => format_after(w, ops.last()),
            None => None,
        }
    }
}

/// Turning a format sideways swaps its sides; it's renamed only where it's called after the
/// preset it was. Resizing, renaming and removing do just that, to that format alone; its
/// settings stay. Picking or adding a format changes none.
pub proof fn formats_change_as_asked(
    s: SequenceModel,
    action: Action,
    fresh: VariantId,
    i: int,
)
    requires
        0 <= i < s.variants.len(),
        forall|j: int| 0 <= j < s.variants.len() && j != i ==> (#[trigger] s.variants[j]).id
            != s.variants[i].id,
    ensures
        ({
            let v = s.variants[i];
            let now = format_later(v, changed_by(s, action, fresh));
            match action {
                Action::Rotate { variant, was, becomes } => now == Some(
                    if variant != v.id {
                        v
                    } else {
                        VariantModel {
                            width: v.height,
                            height: v.width,
                            name: if was is Some && becomes is Some && v.name == (was->0)@ {
                                (becomes->0)@
                            } else {
                                v.name
                            },
                            ..v
                        }
                    },
                ),
                Action::Resize { variant, width, height } => now == Some(
                    if variant != v.id {
                        v
                    } else {
                        VariantModel { width, height, ..v }
                    },
                ),
                Action::Rename { variant, name } => now == Some(
                    if variant != v.id {
                        v
                    } else {
                        VariantModel { name: name@, ..v }
                    },
                ),
                Action::Remove(variant) => now == if variant != v.id {
                    Some(v)
                } else {
                    None
                },
                _ => now == Some(v),
            }
        }),
{
    reveal_with_fuel(format_later, 3);
    let v = s.variants[i];
    let ops = changed_by(s, action, fresh);
    if let Action::Rotate { variant, was, becomes } = action {
        let p = is_format(variant);
        first_is_right(s.variants, p, 0);
        if variant == v.id {
            some_is_first(s.variants, p, 0, i);
            let k = first_where(s.variants, p)->0;
            assert(p(s.variants[k]));
            assert(k == i);
        }
    }
    if ops.len() == 2 {
        assert(ops.drop_last().len() == 1);
        assert(ops.drop_last().drop_last().len() == 0);
        assert(ops.drop_last().last() == ops[0]);
    } else if ops.len() == 1 {
        assert(ops.drop_last().len() == 0);
    }
}

/// A format that's added is the last one, with its own id and the size asked for and nothing
/// of its own; it's the one shown.
pub proof fn added_formats_come_last(s: SequenceModel, action: Action, fresh: VariantId)
    requires
        action is Add || action is AddCustom,
        s.variants.len() <= usize::MAX,
    ensures
        ({
            let ops = changed_by(s, action, fresh);
            &&& ops.len() == 1
            &&& ops[0] matches OpModel::InsertVariant { seq, index, variant, make_active } && {
                &&& seq == s.id
                &&& index == s.variants.len()
                &&& variant.id == fresh
                &&& variant.overrides.len() == 0
                &&& !make_active
                &&& shown_after(s, action) == Shows::This(index)
                &&& action matches Action::Add(p) ==> variant.width == p.width && variant.height
                    == p.height && variant.name == p.name@
                &&& action matches Action::AddCustom { width, height, preset } ==> variant.width
                    == width && variant.height == height && (preset is Some ==> variant.name == (
                preset->0)@)
            }
        }),
{
}

/// A new project has one video and one audio track, both empty, and the three formats it was
/// given, the first of them shown.
pub proof fn new_projects_start_empty(
    ids: Seq<u64>,
    background: ItemModel,
    wide: Preset,
    tall: Preset,
    square: Preset,
)
    ensures
        ({
            let s = new_timeline(ids, background, wide, tall, square);
            &&& s.tracks.len() == 2
            &&& s.tracks[0].kind == TrackKind::Video && s.tracks[1].kind == TrackKind::Audio
            &&& s.tracks[0].items.len() == 0 && s.tracks[1].items.len() == 0
            &&& !s.tracks[0].effects && !s.tracks[1].effects
            &&& s.variants.len() == 3
            &&& s.active == 0
            &&& s.variants[0].width == wide.width && s.variants[0].height == wide.height
            &&& s.variants[1].width == tall.width && s.variants[1].height == tall.height
            &&& s.variants[2].width == square.width && s.variants[2].height == square.height
            &&& s.variants[0].name == wide.name@ && s.variants[1].name == tall.name@
                && s.variants[2].name == square.name@
            &&& s.background == background
            &&& s.rate_num == 30 * s.rate_den && s.rate_den > 0
            &&& s.id.0 == ids[0] && s.tracks[0].id.0 == ids[1] && s.tracks[1].id.0 == ids[2]
            &&& forall|k: int|
                0 <= k < 3 ==> (#[trigger] s.variants[k]).id.0 == ids[k + 3]
                    && s.variants[k].overrides.len() == 0
        }),
{
}

// ---- stretches and progress ----

/// The stretch that ranges lie in holds all of them and is no longer than it must be: one of
/// them starts where it starts, and one ends where it ends.
pub proof fn the_stretch_just_holds_them(ranges: Seq<TimeRange>)
    requires
        ranges.len() > 0,
    ensures
        forall|k: int|
            0 <= k < ranges.len() ==> hull(ranges).0 <= (#[trigger] ranges[k]).start.0
                && ranges[k].ends() <= hull(ranges).1,
        exists|k: int|
            0 <= k < ranges.len() && (#[trigger] ranges[k]).start.0 == hull(ranges).0,
        exists|k: int| 0 <= k < ranges.len() && (#[trigger] ranges[k]).ends() == hull(ranges).1,
    decreases ranges.len(),
{
    if ranges.len() == 1 {
        assert(ranges[0].start.0 == hull(ranges).0);
        assert(ranges[0].ends() == hull(ranges).1);
    } else {
        let rest = ranges.drop_last();
        let n = ranges.len() - 1;
        the_stretch_just_holds_them(rest);
        assert(forall|k: int| 0 <= k < n ==> rest[k] == ranges[k]);
        assert forall|k: int| 0 <= k < ranges.len() implies hull(ranges).0 <= (
        #[trigger] ranges[k]).start.0 && ranges[k].ends() <= hull(ranges).1 by {
            if k < n {
                assert(rest[k].start.0 >= hull(rest).0);
            }
        }
        let a = choose|k: int| 0 <= k < rest.len() && (#[trigger] rest[k]).start.0 == hull(rest).0;
        let b = choose|k: int| 0 <= k < rest.len() && (#[trigger] rest[k]).ends() == hull(rest).1;
        assert(ranges[a].start.0 == hull(ranges).0 || ranges[n].start.0 == hull(ranges).0);
        assert(ranges[b].ends() == hull(ranges).1 || ranges[n].ends() == hull(ranges).1);
    }
}

/// Progress is what's been heard of the whole: never less than nothing nor more than all, and
/// never less for hearing more.
pub proof fn progress_goes_up(end: Time, later: Time, length: Time)
    requires
        0 <= length.0,
        end.0 <= later.0,
    ensures
        0 <= share_of(end, length).done <= share_of(end, length).of,
        share_of(end, length).of == length.0,
        0 <= end.0 <= length.0 ==> share_of(end, length).done == end.0,
        share_of(end, length).done <= share_of(later, length).done,
        length.0 <= end.0 ==> share_of(end, length).done == share_of(end, length).of,
{
}

/// The log has the new line last; what it had before stays in its order, the oldest line going
/// where there'd be too many.
pub proof fn new_lines_come_last(log: Seq<Seq<char>>, line: Seq<char>, k: int)
    requires
        log.len() <= LOG,
    ensures
        with_line(log, line).len() > 0,
        with_line(log, line).last() == line,
        log.len() < LOG ==> with_line(log, line).len() == log.len() + 1,
        log.len() == LOG ==> with_line(log, line).len() == LOG,
        ({
            let gone = log.len() + 1 - with_line(log, line).len();
            gone <= k < log.len() ==> with_line(log, line)[k - gone] == log[k]
        }),
{
}

// ---- titles ----

/// The titles are all clips with text and no others.
pub proof fn titles_are_the_clips_with_text(tracks: Seq<TrackModel>, n: int, id: ItemId)
    requires
        0 <= n <= tracks.len(),
    ensures
        titles_to(tracks, n).contains(id) <==> exists|t: int, i: int|
            0 <= t < n && 0 <= i < tracks[t].items.len() && (#[trigger] tracks[t].items[i]).id == id
                && tracks[t].items[i].kind == ItemKind::Text,
    decreases n,
{
    if n > 0 {
        titles_are_the_clips_with_text(tracks, n - 1, id);
        let before = titles_to(tracks, n - 1);
        let items = tracks[n - 1].items;
        let p = is_title();
        let kept = items.filter(p);
        let at = kept_places(items, p);
        let here = ids_of(kept);
        let all = titles_to(tracks, n);
        if all.contains(id) {
            let k = choose|k: int| 0 <= k < all.len() && all[k] == id;
            if k < before.len() {
                assert(before[k] == id);
            } else {
                let j = k - before.len();
                assert(here[j] == id);
                assert(items[at[j]] == kept[j]);
                assert(tracks[n - 1].items[at[j]].id == id);
            }
        }
        if exists|t: int, i: int|
            0 <= t < n && 0 <= i < tracks[t].items.len() && (#[trigger] tracks[t].items[i]).id == id
                && tracks[t].items[i].kind == ItemKind::Text {
            let (t, i) = choose|t: int, i: int|
                0 <= t < n && 0 <= i < tracks[t].items.len() && (#[trigger] tracks[t].items[i]).id
                    == id && tracks[t].items[i].kind == ItemKind::Text;
            if t < n - 1 {
                let k = choose|k: int| 0 <= k < before.len() && before[k] == id;
                assert(all[k] == id);
            } else {
                assert(p(items[i]));
                let j = choose|j: int| 0 <= j < at.len() && at[j] == i;
                assert(kept[j] == items[i]);
                assert(here[j] == id);
                assert(all[before.len() + j] == id);
            }
        }
    }
}

/// A look is all of a title's settings and effects, and nothing of its place: no group, no
/// transitions, no words' times.
pub proof fn looks_are_tied_to_no_place(title: ItemModel)
    ensures
        look_of(title).params == title.params,
        look_of(title).effects == title.effects,
        look_of(title).kind == title.kind,
        look_of(title).outro_reverses_intro == title.outro_reverses_intro,
        look_of(title).group is None,
        look_of(title).transitions.len() == 0,
        look_of(title).word_times.len() == 0,
        look_of(look_of(title)) == look_of(title),
{
}

/// A title is called after its first line: up to the first line break, which isn't in it.
pub proof fn the_first_line_ends_at_a_break(s: Seq<char>)
    ensures
        first_line(s).is_prefix_of(s),
        !first_line(s).contains('\n'),
        !s.contains('\n') ==> first_line(s) == s,
        s.contains('\n') ==> ({
            let n = first_line(s).len() as int;
            n < s.len() && (s[n] == '\n' || (s[n] == '\r' && n + 1 < s.len() && s[n + 1] == '\n'))
                && (s[n] == '\n' && n > 0 ==> s[n - 1] != '\r')
        }),
{
    let p = |c: char| c == '\n';
    first_is_right(s, p, 0);
    if s.contains('\n') {
        let k = choose|k: int| 0 <= k < s.len() && s[k] == '\n';
        some_is_first(s, p, 0, k);
    }
    assert(first_line(s) =~= s.take(first_line(s).len() as int));
    if first_line(s).contains('\n') {
        let k = choose|k: int| 0 <= k < first_line(s).len() && first_line(s)[k] == '\n';
        assert(p(s[k]));
    }
}

/// The other effects are all that aren't the box, each in its place.
pub proof fn the_others_are_all_but_the_box(
    effects: Seq<EffectModel>,
    background: Seq<char>,
    n: int,
)
    requires
        0 <= n <= effects.len() <= usize::MAX,
    ensures
        ({
            let places = others_to(effects, background, n);
            &&& forall|a: int, b: int|
                0 <= a < b < places.len() ==> (#[trigger] places[a]) < (#[trigger] places[b])
            &&& forall|k: int|
                0 <= k < places.len() ==> (#[trigger] places[k]) < n && effects[places[k] as int].type_id
                    != background
            &&& forall|i: int|
                0 <= i < n && (#[trigger] effects[i]).type_id != background ==> places.contains(
                    i as usize,
                )
        }),
    decreases n,
{
    if n > 0 {
        the_others_are_all_but_the_box(effects, background, n - 1);
        let before = others_to(effects, background, n - 1);
        let places = others_to(effects, background, n);
        assert forall|i: int|
            0 <= i < n && (#[trigger] effects[i]).type_id != background implies places.contains(
            i as usize,
        ) by {
            if i < n - 1 {
                let k = choose|k: int| 0 <= k < before.len() && before[k] == i as usize;
                assert(places[k] == i as usize);
            } else {
                assert(places[before.len() as int] == i as usize);
            }
        }
    }
}

} // verus!
