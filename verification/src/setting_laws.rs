//! What holds of settings that follow on the linked clips, and of their keyframes.
use crate::changes::ids_differ;
use crate::doc::{
    effect_at, effect_place_is_right, item_of, stored_at, ItemId, ItemModel, ParamTarget,
    SequenceModel, Time,
};
use crate::editor::{
    clip_key, effect_with_key, fanned_out, followers, is_type, key_finds_its_effect, key_of,
    other_than, place_finder,
};
use crate::keyframing::{
    clip_time, key_changer, turns_off, KeyChange, KeyframeAnchor, Switch,
};
use crate::seqs::{filter_at, kept_places, mapped_places};
use crate::text::parts;
use vstd::prelude::*;

verus! {

/// An effect with the key has just that key.
proof fn found_by_its_key(o: ItemModel, key: (Seq<char>, nat))
    requires
        ids_differ(o.effects),
        effect_with_key(o.effects, key) is Some,
    ensures
        key_of(o.effects, effect_with_key(o.effects, key)->0) == Some(key),
{
    let e = effect_with_key(o.effects, key)->0;
    let of = is_type(key.0);
    let those = o.effects.filter(of);
    filter_at(o.effects, of, key.1 as int);
    let j = choose|j: int|
        0 <= j < o.effects.len() && o.effects[j] == those[key.1 as int] && of(o.effects[j])
            && o.effects.take(j).filter(of).len() == key.1;
    effect_place_is_right(o.effects, e, 0);
    let found = effect_at(o.effects, e);
    assert(o.effects[j].id == e);
    if found->0 < j {
        assert(o.effects[found->0].id != o.effects[j].id);
    }
    assert(found == Some(j));
}

/// The place is the same setting on another clip: the clip is of a kind that has it (text
/// settings are for titles, color settings for solids), or the effect is of the same kind and
/// just as far along among those of its kind.
pub open spec fn is_same_setting(
    s: SequenceModel,
    item: ItemId,
    target: ParamTarget,
    param: Seq<char>,
    other: ItemId,
    place: (ItemId, ParamTarget),
) -> bool {
    place.0 == other && item_of(s, other) is Some && match target {
        ParamTarget::Item => {
            &&& place.1 == ParamTarget::Item
            &&& parts(param, '.')[0] == "text"@ ==> item_of(s, other)->0.kind is Text
            &&& parts(param, '.')[0] == "solid"@ ==> item_of(s, other)->0.kind is Solid
        },
        ParamTarget::Effect(id) => place.1 matches ParamTarget::Effect(e) && clip_key(s, other, e)
            == clip_key(s, item, id) && clip_key(s, item, id) is Some,
        _ => false,
    }
}

/// The other clip has the setting.
pub open spec fn has_same_setting(
    s: SequenceModel,
    item: ItemId,
    target: ParamTarget,
    param: Seq<char>,
    other: ItemId,
) -> bool {
    exists|place: (ItemId, ParamTarget)| #[trigger]
        is_same_setting(s, item, target, param, other, place)
}

/// The text and color settings are told apart by what their ids start with.
proof fn text_is_not_solid()
    ensures
        "text"@ != "solid"@,
{
    reveal_strlit("text");
    reveal_strlit("solid");
    assert("text"@.len() != "solid"@.len());
}

/// The setting of the clip comes first, then the same setting on every linked clip that has
/// it and on no other.
pub proof fn settings_follow_on_linked_clips(
    s: SequenceModel,
    linked: Seq<ItemId>,
    item: ItemId,
    target: ParamTarget,
    param: Seq<char>,
)
    requires
        forall|k: int|
            0 <= k < linked.len() && item_of(s, linked[k]) is Some ==> ids_differ(
                item_of(s, #[trigger] linked[k])->0.effects,
            ),
    ensures
        ({
            let all = fanned_out(s, linked, item, target, param);
            &&& all.len() > 0
            &&& all[0] == (item, target)
            &&& forall|k: int|
                1 <= k < all.len() ==> linked.contains((#[trigger] all[k]).0) && all[k].0 != item
                    && is_same_setting(s, item, target, param, all[k].0, all[k])
            &&& item_of(s, item) is Some ==> forall|i: int|
                0 <= i < linked.len() && linked[i] != item && has_same_setting(
                    s,
                    item,
                    target,
                    param,
                    #[trigger] linked[i],
                ) ==> exists|k: int| 1 <= k < all.len() && (#[trigger] all[k]).0 == linked[i]
            &&& item_of(s, item) is None ==> all.len() == 1
        }),
{
    let all = fanned_out(s, linked, item, target, param);
    if item_of(s, item) is Some {
        let p = other_than(item);
        let peers = followers(linked, item);
        let at = kept_places(linked, p);
        let f = place_finder(s, item, target, param);
        let to = mapped_places(peers, f);
        let rest = peers.filter_map(f);
        text_is_not_solid();
        assert(all =~= seq![(item, target)] + rest);
        assert forall|k: int| 1 <= k < all.len() implies linked.contains((#[trigger] all[k]).0)
            && all[k].0 != item && is_same_setting(
            s,
            item,
            target,
            param,
            all[k].0,
            all[k],
        ) by {
            let j = to[k - 1];
            let other = peers[j];
            assert(all[k] == rest[k - 1]);
            assert(f(other) == Some(all[k]));
            assert(linked[at[j]] == other);
            assert(p(linked[at[j]]));
            if let ParamTarget::Effect(id) = target {
                let key = clip_key(s, item, id)->0;
                found_by_its_key(item_of(s, other)->0, key);
            }
        }
        assert forall|i: int|
            0 <= i < linked.len() && linked[i] != item && has_same_setting(
                s,
                item,
                target,
                param,
                #[trigger] linked[i],
            ) implies exists|k: int| 1 <= k < all.len() && (#[trigger] all[k]).0 == linked[i] by {
            let other = linked[i];
            assert(p(other));
            let j = choose|j: int| 0 <= j < at.len() && at[j] == i;
            assert(peers[j] == other);
            let place = choose|place: (ItemId, ParamTarget)| #[trigger]
                is_same_setting(s, item, target, param, other, place);
            if let ParamTarget::Effect(e) = place.1 {
                if target is Effect {
                    key_finds_its_effect(item_of(s, other)->0.effects, e);
                }
            }
            assert(f(peers[j]) is Some);
            let m = choose|m: int| 0 <= m < to.len() && to[m] == j;
            assert(all[m + 1] == rest[m]);
        }
    }
}

/// A key tied to the file stays on its picture however the clip is trimmed: what's trimmed
/// off the start comes off its place in the clip. One tied to the clip's start stays put.
pub proof fn keys_stay_where_they_are_tied(before: Time, after: Time, t: Time)
    ensures
        clip_time(KeyframeAnchor::SourceMedia, before, t) - clip_time(
            KeyframeAnchor::SourceMedia,
            after,
            t,
        ) == after.0 - before.0,
        clip_time(KeyframeAnchor::SourceMedia, t, t) == 0,
        clip_time(KeyframeAnchor::ClipStart, before, t) == t.0,
{
}

/// Switching keyframes off or on is one thing on all of the clips: what the clip that was
/// clicked has decides. Every setting that isn't so already changes, in its place, and what
/// was stored there is what stays or becomes a key.
pub proof fn keyframes_are_switched_alike(
    s: SequenceModel,
    item: ItemId,
    target: ParamTarget,
    param: Seq<char>,
    places: Seq<(ItemId, ParamTarget)>,
) -> (at: Seq<int>)
    ensures
        ({
            let off = turns_off(s, item, target, param);
            let changes = places.filter_map(key_changer(s, param, off));
            &&& off <==> (item_of(s, item) matches Some(it) && (stored_at(
                it,
                target,
                param,
            ) matches Some(x) && x.keyed))
            &&& at.len() == changes.len()
            &&& forall|a: int, b: int|
                0 <= a < b < at.len() ==> (#[trigger] at[a]) < (#[trigger] at[b])
            &&& forall|k: int|
                0 <= k < at.len() ==> 0 <= (#[trigger] at[k]) < places.len() && is_switch(
                    s,
                    param,
                    off,
                    places[at[k]],
                    changes[k],
                )
            &&& forall|i: int|
                0 <= i < places.len() && is_otherwise(s, param, off, #[trigger] places[i])
                    ==> at.contains(i)
        }),
{
    let off = turns_off(s, item, target, param);
    let f = key_changer(s, param, off);
    let at = mapped_places(places, f);
    assert forall|k: int| 0 <= k < at.len() implies 0 <= (#[trigger] at[k]) < places.len()
        && is_switch(s, param, off, places[at[k]], places.filter_map(f)[k]) by {
        assert(f(places[at[k]]) == Some(places.filter_map(f)[k]));
    }
    assert forall|i: int|
        0 <= i < places.len() && is_otherwise(s, param, off, #[trigger] places[i]) implies
        at.contains(i) by {
        assert(f(places[i]) is Some);
    }
    at
}

/// The setting is there and isn't yet the way it should be.
pub open spec fn is_otherwise(
    s: SequenceModel,
    param: Seq<char>,
    off: bool,
    place: (ItemId, ParamTarget),
) -> bool {
    item_of(s, place.0) matches Some(it) && {
        let keyed = stored_at(it, place.1, param) matches Some(x) && x.keyed;
        keyed == off
    }
}

/// The change is for the setting there: it makes a key of what's stored, or ends its keys.
pub open spec fn is_switch(
    s: SequenceModel,
    param: Seq<char>,
    off: bool,
    place: (ItemId, ParamTarget),
    change: KeyChange,
) -> bool {
    &&& change.item == place.0
    &&& change.target == place.1
    &&& item_of(s, place.0) matches Some(it) && match stored_at(it, place.1, param) {
        Some(source) => if off {
            change.switch == Switch::Stop(source)
        } else {
            change.switch == Switch::Start(source) && !source.keyed
        },
        None => !off && change.switch == Switch::StartFromDefault,
    }
}

} // verus!
