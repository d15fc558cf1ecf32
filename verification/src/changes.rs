//! What the changes a command asks for make of a clip: the laws of the clip commands.
use crate::clips::{
    after_move, can_extract, copied, is_grouped, is_off, moved_to, put_in_group, removed, switched_to,
    CopiedModel,
};
use crate::doc::{
    item_of, place_of, EffectId, EffectModel, ItemId, ItemKind, ItemModel, MediaId, OpModel,
    ParamModel, SeqId, SequenceModel, Source, TrackKind, TrackModel,
};
use crate::editor::{with_media, PoolItem};
use crate::seqs::{
    filter_step, first_is_right, first_where, kept_places, mapped_places, some_is_first, take_all,
};
use vstd::prelude::*;

verus! {

/// Any effect but the one with the id.
pub open spec fn any_but(id: EffectId) -> spec_fn(EffectModel) -> bool {
    |e: EffectModel| e.id != id
}

/// Any setting but the one with the id.
pub open spec fn any_setting_but(id: Seq<char>) -> spec_fn(ParamModel) -> bool {
    |p: ParamModel| p.id != id
}

/// The settings once one is stored as `source` (`None`: it goes back to its default).
pub open spec fn params_after(params: Seq<ParamModel>, id: Seq<char>, source: Option<Source>) -> Seq<
    ParamModel,
> {
    let others = params.filter(any_setting_but(id));
    match source {
        Some(source) => others.push(ParamModel { id, source }),
        None => others,
    }
}

/// The effects once `change` is made of the one with the id.
pub open spec fn effects_after(
    effects: Seq<EffectModel>,
    id: EffectId,
    change: spec_fn(EffectModel) -> EffectModel,
) -> Seq<EffectModel> {
    effects.map_values(
        |e: EffectModel|
            if e.id == id {
                change(e)
            } else {
                e
            },
    )
}

/// What a change makes of a clip (`None`: it's gone).
pub open spec fn clip_after(it: ItemModel, op: OpModel) -> Option<ItemModel> {
    match op {
        OpModel::RemoveItem { seq, item } => if item == it.id {
            None
        } else {
            Some(it)
        },
        OpModel::SetItemGroup { seq, item, group } => Some(
            if item == it.id {
                ItemModel { group, ..it }
            } else {
                it
            },
        ),
        OpModel::SetItemEnabled { seq, item, enabled } => Some(
            if item == it.id {
                ItemModel { enabled, ..it }
            } else {
                it
            },
        ),
        OpModel::SetItemTiming { seq, item, range, time_map } => Some(
            if item == it.id {
                ItemModel { range, time_map, ..it }
            } else {
                it
            },
        ),
        OpModel::SetReverseIntro { seq, item, on } => Some(
            if item == it.id {
                ItemModel { outro_reverses_intro: on, ..it }
            } else {
                it
            },
        ),
        OpModel::SetParam { seq, item, target, param, source } => Some(
            if item == it.id && target is Item {
                ItemModel { params: params_after(it.params, param, source), ..it }
            } else {
                it
            },
        ),
        OpModel::InsertEffect { seq, item, index, effect } => Some(
            if item == it.id && index <= it.effects.len() {
                ItemModel { effects: it.effects.insert(index as int, effect), ..it }
            } else {
                it
            },
        ),
        OpModel::RemoveEffect { seq, item, effect } => Some(
            if item == it.id {
                ItemModel {
                    effects: it.effects.filter(any_but(effect)),
                    ..it
                }
            } else {
                it
            },
        ),
        OpModel::SetEffectEnabled { seq, item, effect, enabled } => Some(
            if item == it.id {
                ItemModel {
                    effects: effects_after(
                        it.effects,
                        effect,
                        |e: EffectModel| EffectModel { enabled, ..e },
                    ),
                    ..it
                }
            } else {
                it
            },
        ),
        OpModel::SetEffectRole { seq, item, effect, role } => Some(
            if item == it.id {
                ItemModel {
                    effects: effects_after(
                        it.effects,
                        effect,
                        |e: EffectModel| EffectModel { role, ..e },
                    ),
                    ..it
                }
            } else {
                it
            },
        ),
        _ => Some(it),
    }
}

/// What the changes make of a clip, one after the other.
pub open spec fn clip_later(it: ItemModel, ops: Seq<OpModel>) -> Option<ItemModel>
    decreases ops.len(),
{
    if ops.len() == 0 {
        Some(it)
    } else {
        match clip_later(it, ops.drop_last()) {
            Some(x) => clip_after(x, ops.last()),
            None => None,
        }
    }
}

/// Changes made in two goes.
pub proof fn later_still(it: ItemModel, first: Seq<OpModel>, then: Seq<OpModel>)
    ensures
        clip_later(it, first + then) == match clip_later(it, first) {
            Some(x) => clip_later(x, then),
            None => None,
        },
    decreases then.len(),
{
    if then.len() == 0 {
        assert(first + then =~= first);
    } else {
        later_still(it, first, then.drop_last());
        assert((first + then).drop_last() =~= first + then.drop_last());
    }
}

/// One change.
pub proof fn after_one(it: ItemModel, ops: Seq<OpModel>)
    requires
        ops.len() == 1,
    ensures
        clip_later(it, ops) == clip_after(it, ops[0]),
{
    reveal_with_fuel(clip_later, 2);
    assert(ops.drop_last().len() == 0);
}

/// Two changes.
pub proof fn after_two(it: ItemModel, ops: Seq<OpModel>)
    requires
        ops.len() == 2,
    ensures
        clip_later(it, ops) == match clip_after(it, ops[0]) {
            Some(x) => clip_after(x, ops[1]),
            None => None,
        },
{
    after_one(it, ops.drop_last());
}

/// The change is about another clip.
pub open spec fn leaves(op: OpModel, id: ItemId) -> bool {
    match op {
        OpModel::RemoveItem { item, .. } => item != id,
        OpModel::SetItemGroup { item, .. } => item != id,
        OpModel::SetItemEnabled { item, .. } => item != id,
        OpModel::SetItemTiming { item, .. } => item != id,
        OpModel::SetReverseIntro { item, .. } => item != id,
        OpModel::SetParam { item, .. } => item != id,
        OpModel::InsertEffect { item, .. } => item != id,
        OpModel::RemoveEffect { item, .. } => item != id,
        OpModel::SetEffectEnabled { item, .. } => item != id,
        OpModel::SetEffectRole { item, .. } => item != id,
        _ => true,
    }
}

/// Changes to other clips leave a clip as it is.
pub proof fn left_alone(it: ItemModel, ops: Seq<OpModel>)
    requires
        forall|k: int| 0 <= k < ops.len() ==> leaves(#[trigger] ops[k], it.id),
    ensures
        clip_later(it, ops) == Some(it),
    decreases ops.len(),
{
    if ops.len() > 0 {
        assert forall|k: int| 0 <= k < ops.drop_last().len() implies leaves(
            #[trigger] ops.drop_last()[k],
            it.id,
        ) by {
            assert(ops[k] == ops.drop_last()[k]);
        }
        left_alone(it, ops.drop_last());
        assert(leaves(ops[ops.len() - 1], it.id));
    }
}

/// Each effect has an id of its own.
pub open spec fn ids_differ(effects: Seq<EffectModel>) -> bool {
    forall|a: int, b: int|
        0 <= a < b < effects.len() ==> (#[trigger] effects[a]).id != (#[trigger] effects[b]).id
}

/// Removing the effect at place `i` by its id takes that one out.
pub proof fn taking_one_out(effects: Seq<EffectModel>, i: int)
    requires
        ids_differ(effects),
        0 <= i < effects.len(),
    ensures
        effects.filter(any_but(effects[i].id)) == effects.remove(i),
    decreases effects.len(),
{
    let n = effects.len() - 1;
    let p = any_but(effects[i].id);
    filter_step(effects, p, n);
    take_all(effects);
    let rest = effects.take(n);
    if i == n {
        none_goes(rest, p);
        assert(effects.remove(i) =~= rest);
    } else {
        taking_one_out(rest, i);
        assert(effects.remove(i) =~= rest.remove(i).push(effects[n]));
    }
}

/// A filter that holds of all keeps all.
proof fn none_goes<T>(s: Seq<T>, p: spec_fn(T) -> bool)
    requires
        forall|k: int| 0 <= k < s.len() ==> p(#[trigger] s[k]),
    ensures
        s.filter(p) == s,
    decreases s.len(),
{
    let n = s.len() - 1;
    if n < 0 {
        reveal_with_fuel(Seq::filter, 1);
        assert(s.filter(p) =~= s);
    } else {
        filter_step(s, p, n);
        take_all(s);
        assert forall|k: int| 0 <= k < s.take(n).len() implies p(#[trigger] s.take(n)[k]) by {
            assert(s[k] == s.take(n)[k]);
        }
        none_goes(s.take(n), p);
        assert(s =~= s.take(n).push(s[n]));
    }
}

/// Deleting clips takes just those off the timeline.
pub proof fn deleting_takes_just_those(seq: SeqId, clips: Seq<ItemId>, it: ItemModel)
    ensures
        clip_later(it, clips.map_values(removed(seq))) == if clips.contains(it.id) {
            None
        } else {
            Some(it)
        },
    decreases clips.len(),
{
    let ops = clips.map_values(removed(seq));
    if clips.len() > 0 {
        let rest = clips.drop_last();
        deleting_takes_just_those(seq, rest, it);
        assert(ops.drop_last() =~= rest.map_values(removed(seq)));
        last_or_before(clips, it.id);
    }
}

/// What's in a list is its last element or among those before.
proof fn last_or_before<T>(s: Seq<T>, x: T)
    requires
        s.len() > 0,
    ensures
        s.contains(x) <==> s.drop_last().contains(x) || s.last() == x,
{
    let rest = s.drop_last();
    if s.contains(x) {
        let k = choose|k: int| 0 <= k < s.len() && s[k] == x;
        if k < rest.len() {
            assert(rest[k] == x);
        }
    }
    if rest.contains(x) {
        let k = choose|k: int| 0 <= k < rest.len() && rest[k] == x;
        assert(s[k] == x);
    }
    if s.last() == x {
        assert(s[s.len() - 1] == x);
    }
}

/// Putting clips in a group (or in none) changes nothing but their group, and no other clip.
pub proof fn grouping_changes_their_group(
    seq: SeqId,
    clips: Seq<ItemId>,
    group: Option<u64>,
    it: ItemModel,
)
    ensures
        clip_later(it, clips.map_values(put_in_group(seq, group))) == Some(
            if clips.contains(it.id) {
                ItemModel { group, ..it }
            } else {
                it
            },
        ),
    decreases clips.len(),
{
    let ops = clips.map_values(put_in_group(seq, group));
    if clips.len() > 0 {
        let rest = clips.drop_last();
        grouping_changes_their_group(seq, rest, group, it);
        assert(ops.drop_last() =~= rest.map_values(put_in_group(seq, group)));
        last_or_before(clips, it.id);
    }
}

/// After ungrouping none of the clips is in a group, and nothing else is different.
pub proof fn ungrouped_clips_are_in_no_group(s: SequenceModel, clips: Seq<ItemId>, it: ItemModel)
    requires
        item_of(s, it.id) == Some(it),
    ensures
        clip_later(it, clips.filter(is_grouped(s)).map_values(put_in_group(s.id, None))) == Some(
            if clips.contains(it.id) {
                ItemModel { group: None, ..it }
            } else {
                it
            },
        ),
{
    let p = is_grouped(s);
    let those = clips.filter(p);
    grouping_changes_their_group(s.id, those, None, it);
    let at = kept_places(clips, p);
    if those.contains(it.id) {
        let k = choose|k: int| 0 <= k < those.len() && those[k] == it.id;
        assert(clips[at[k]] == it.id);
    } else if clips.contains(it.id) {
        let i = choose|i: int| 0 <= i < clips.len() && clips[i] == it.id;
        if p(clips[i]) {
            let k = choose|k: int| 0 <= k < at.len() && at[k] == i;
            assert(those[k] == it.id);
        }
        assert(it.group is None);
    }
}

/// After switching clips off or on, all of them are on where all of them were off, and off
/// else; no other clip is different.
pub proof fn switched_clips_are_alike(s: SequenceModel, clips: Seq<ItemId>, on: bool, it: ItemModel)
    ensures
        clip_later(it, clips.map_values(switched_to(s.id, on))) == Some(
            if clips.contains(it.id) {
                ItemModel { enabled: on, ..it }
            } else {
                it
            },
        ),
        is_off(s)(it.id) <==> (item_of(s, it.id) matches Some(x) && !x.enabled),
    decreases clips.len(),
{
    let ops = clips.map_values(switched_to(s.id, on));
    if clips.len() > 0 {
        let rest = clips.drop_last();
        switched_clips_are_alike(s, rest, on, it);
        assert(ops.drop_last() =~= rest.map_values(switched_to(s.id, on)));
        last_or_before(clips, it.id);
    }
}

/// Every clip that's on the timeline is copied with the track it's on, just as it is, in the
/// order they were picked. `at` are their places.
pub proof fn clips_are_copied_as_they_are(s: SequenceModel, clips: Seq<ItemId>) -> (at: Seq<int>)
    ensures
        at.len() == clips.filter_map(copied(s)).len(),
        forall|a: int, b: int| 0 <= a < b < at.len() ==> (#[trigger] at[a]) < (#[trigger] at[b]),
        forall|k: int|
            0 <= k < at.len() ==> 0 <= (#[trigger] at[k]) < clips.len() && is_copy_of(
                s,
                clips[at[k]],
                clips.filter_map(copied(s))[k],
            ),
        forall|i: int|
            0 <= i < clips.len() && place_of(s, #[trigger] clips[i]) is Some ==> at.contains(i),
{
    let f = copied(s);
    let at = mapped_places(clips, f);
    assert forall|k: int| 0 <= k < at.len() implies 0 <= (#[trigger] at[k]) < clips.len()
        && is_copy_of(s, clips[at[k]], clips.filter_map(f)[k]) by {
        assert(f(clips[at[k]]) == Some(clips.filter_map(f)[k]));
    }
    assert forall|i: int| 0 <= i < clips.len() && place_of(s, #[trigger] clips[i]) is Some implies
        at.contains(i) by {
        assert(f(clips[i]) is Some);
    }
    at
}

/// The copy is of the clip with the id, and remembers its track.
pub open spec fn is_copy_of(s: SequenceModel, id: ItemId, copy: CopiedModel) -> bool {
    place_of(s, id) matches Some((t, i)) && copy.track == s.tracks[t].id && copy.item
        == s.tracks[t].items[i]
}

/// Up is towards the top of the stack for video, whose last track is drawn on top, and up the
/// list for audio. A move is by one place.
pub proof fn up_is_towards_the_top(index: int, up: bool)
    ensures
        moved_to(TrackKind::Video, index, true) == index + 1,
        moved_to(TrackKind::Video, index, false) == index - 1,
        moved_to(TrackKind::Audio, index, true) == index - 1,
        moved_to(TrackKind::Audio, index, false) == index + 1,
{
}

/// A move swaps the track with its neighbour and leaves the others where they are.
pub proof fn a_move_swaps_neighbours(tracks: Seq<TrackModel>, i: int, up: bool, k: int)
    requires
        0 <= i < tracks.len(),
        0 <= moved_to(tracks[i].kind, i, up) < tracks.len(),
        0 <= k < tracks.len(),
    ensures
        after_move(tracks, i, up).len() == tracks.len(),
        after_move(tracks, i, up)[k] == if k == i {
            tracks[moved_to(tracks[i].kind, i, up)]
        } else if k == moved_to(tracks[i].kind, i, up) {
            tracks[i]
        } else {
            tracks[k]
        },
{
}

/// Sound can be taken off a clip just where it's on a picture track, plays a file with sound,
/// and that sound still plays from it.
pub proof fn sound_comes_off_pictures_that_play_it(
    s: SequenceModel,
    pool: Seq<PoolItem>,
    id: ItemId,
    p: int,
    media: MediaId,
)
    requires
        0 <= p < pool.len(),
        pool[p].id == media,
        forall|k: int| 0 <= k < p ==> (#[trigger] pool[k]).id != media,
    ensures
        ({
            let can = can_extract(s, pool)(id);
            match place_of(s, id) {
                Some((t, i)) => {
                    let it = s.tracks[t].items[i];
                    &&& can ==> s.tracks[t].kind is Video && it.audio && it.kind is Media
                    &&& it.kind == (ItemKind::Media { media }) && s.tracks[t].kind is Video
                        && it.audio ==> can == pool[p].has_audio
                },
                None => !can,
            }
        }),
{
    let q = with_media(media);
    first_is_right(pool, q, 0);
    some_is_first(pool, q, 0, p);
    let k = first_where(pool, q)->0;
    assert(q(pool[k]));
    if k < p {
        assert(pool[k].id != media);
    }
    assert(k == p);
}

} // verus!
