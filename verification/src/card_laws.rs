//! What holds of the cards' and properties' commands: what they do to a clip, to the clips
//! linked with it, and to keys that are dragged.
use crate::cards::{card_op, CardAction};
use crate::changes::{any_setting_but, clip_after, ids_differ, taking_one_out};
use crate::connections::{has_id, heard_clips, name_in, usable_from, Heard};
use crate::curves::{dragged, first_near, grabbed, inside, key_at, room, CurveKey, Grab};
use crate::doc::{
    item_of, param_from, param_of, EffectId, EffectModel, EffectRole, ItemId, ItemModel, Op,
    OpModel, ParamModel, ParamTarget, SeqId, SequenceModel, Source, Time,
};
use crate::editor::{
    clip_key, echoer, echoes, fanned_ops, followers, inserted, key_finds_its_effect, other_than,
    peer_finder, peers_of, setter, shortened,
};
use crate::properties::{for_others, with_band, worked_out};
use crate::seqs::{kept_places, mapped_places};
use vstd::prelude::*;

verus! {

// ---- what a card does ----

/// What's done with a card is done to that effect alone: it's switched, taken off, or plays at
/// the time asked for; the clip's other effects stay as they are. Reversing the intro is done
/// to the clip.
pub proof fn cards_act_on_their_effect(
    seq: SeqId,
    it: ItemModel,
    i: int,
    action: CardAction,
    j: int,
)
    requires
        ids_differ(it.effects),
        0 <= i < it.effects.len(),
        0 <= j < it.effects.len(),
    ensures
        ({
            let now = clip_after(it, card_op(seq, it.id, it.effects[i].id, action));
            let e = it.effects[i];
            &&& now is Some
            &&& match action {
                CardAction::Toggle(on) => now->0.effects.len() == it.effects.len() && now->0.effects[j]
                    == if j == i {
                    EffectModel { enabled: on, ..e }
                } else {
                    it.effects[j]
                },
                CardAction::Remove => now->0.effects == it.effects.remove(i),
                CardAction::Retime(role) | CardAction::Last(role) => now->0.effects.len()
                    == it.effects.len() && now->0.effects[j] == if j == i {
                    EffectModel { role, ..e }
                } else {
                    it.effects[j]
                },
                CardAction::Reverse(on) => now->0 == (ItemModel { outro_reverses_intro: on, ..it }),
            }
        }),
{
    taking_one_out(it.effects, i);
    if i < j {
        assert(it.effects[i].id != it.effects[j].id);
    } else if j < i {
        assert(it.effects[j].id != it.effects[i].id);
    }
}

/// A setting that's stored is found as it was stored, and the other settings are as they were.
pub proof fn stored_settings_are_found(
    seq: SeqId,
    it: ItemModel,
    param: Seq<char>,
    source: Source,
    other: Seq<char>,
)
    ensures
        ({
            let now = clip_after(it, setter(seq, param, source)((it.id, ParamTarget::Item)));
            &&& now is Some
            &&& now->0 == (ItemModel { params: now->0.params, ..it })
            &&& param_of(now->0.params, param) == Some(source)
            &&& other != param ==> param_of(now->0.params, other) == param_of(it.params, other)
        }),
{
    let kept = it.params.filter(any_setting_but(param));
    let at = kept_places(it.params, any_setting_but(param));
    let now = kept.push(ParamModel { id: param, source });
    assert forall|k: int| 0 <= k < kept.len() implies (#[trigger] kept[k]).id != param by {
        assert(any_setting_but(param)(it.params[at[k]]));
    }
    found_at(now, param, 0, kept.len() as int);
    if other != param {
        param_is_right(it.params, other, 0);
        match param_of(it.params, other) {
            Some(_) => {
                let i = choose|i: int|
                    0 <= i < it.params.len() && (#[trigger] it.params[i]).id == other
                        && it.params[i].source == param_of(it.params, other)->0 && forall|k: int|
                        0 <= k < i ==> (#[trigger] it.params[k]).id != other;
                assert(any_setting_but(param)(it.params[i]));
                let k = choose|k: int| 0 <= k < at.len() && at[k] == i;
                assert(kept[k] == it.params[i]);
                assert forall|m: int| 0 <= m < k implies (#[trigger] now[m]).id != other by {
                    assert(at[m] < at[k]);
                    assert(now[m] == it.params[at[m]]);
                }
                found_at(now, other, 0, k);
            },
            None => {
                assert forall|m: int| 0 <= m < now.len() implies (
                #[trigger] now[m]).id != other by {
                    if m < kept.len() {
                        assert(now[m] == it.params[at[m]]);
                    }
                }
                param_is_right(now, other, 0);
            },
        }
    }
}

/// The setting found is the first with its id.
pub proof fn param_is_right(params: Seq<ParamModel>, id: Seq<char>, from: int)
    requires
        0 <= from,
    ensures
        match param_from(params, id, from) {
            Some(source) => exists|i: int|
                from <= i < params.len() && (#[trigger] params[i]).id == id && params[i].source
                    == source && forall|k: int| from <= k < i ==> (#[trigger] params[k]).id != id,
            None => forall|k: int| from <= k < params.len() ==> (#[trigger] params[k]).id != id,
        },
    decreases params.len() - from,
{
    if from < params.len() && params[from].id != id {
        param_is_right(params, id, from + 1);
        if let Some(source) = param_from(params, id, from) {
            let i = choose|i: int|
                from + 1 <= i < params.len() && (#[trigger] params[i]).id == id && params[i].source
                    == source && forall|k: int|
                    from + 1 <= k < i ==> (#[trigger] params[k]).id != id;
            assert(params[i].id == id);
        }
    } else if from < params.len() {
        assert(params[from].id == id);
    }
}

proof fn found_at(params: Seq<ParamModel>, id: Seq<char>, from: int, i: int)
    requires
        0 <= from <= i < params.len(),
        params[i].id == id,
        forall|k: int| from <= k < i ==> (#[trigger] params[k]).id != id,
    ensures
        param_from(params, id, from) == Some(params[i].source),
    decreases i - from,
{
    if from < i {
        assert(params[from].id != id);
        found_at(params, id, from + 1, i);
    }
}

// ---- the linked clips ----

/// An intro or outro stays one, as long as it was where the clip is long enough, as long as
/// the clip where it isn't.
pub proof fn shortened_to_the_clip(role: EffectRole, length: Time)
    ensures
        match role {
            EffectRole::In { duration } => shortened(role, length) matches EffectRole::In {
                duration: d,
            } && d.0 <= duration.0 && d.0 <= length.0 && (d == duration || d == length),
            EffectRole::Out { duration } => shortened(role, length) matches EffectRole::Out {
                duration: d,
            } && d.0 <= duration.0 && d.0 <= length.0 && (d == duration || d == length),
            _ => shortened(role, length) == role,
        },
{
}

/// Every linked clip but the clip itself that has the same effect is found, with that effect.
pub proof fn every_linked_clip_with_it_is_found(
    s: SequenceModel,
    linked: Seq<ItemId>,
    item: ItemId,
    effect: EffectId,
    other: ItemId,
    e: EffectId,
)
    requires
        linked.contains(other),
        other != item,
        clip_key(s, item, effect) is Some,
        clip_key(s, other, e) == clip_key(s, item, effect),
    ensures
        peers_of(s, linked, item, effect).contains((other, e)),
{
    let key = clip_key(s, item, effect)->0;
    let p = other_than(item);
    let f = peer_finder(s, key);
    let peers = followers(linked, item);
    let at = kept_places(linked, p);
    let i = choose|i: int| 0 <= i < linked.len() && linked[i] == other;
    assert(p(linked[i]));
    let k = choose|k: int| 0 <= k < at.len() && at[k] == i;
    assert(peers[k] == other);
    key_finds_its_effect(item_of(s, other)->0.effects, e);
    assert(f(peers[k]) == Some((other, e)));
    let to = mapped_places(peers, f);
    let m = choose|m: int| 0 <= m < to.len() && to[m] == k;
    assert(peers.filter_map(f)[m] == (other, e));
}

/// A change to a clip's effect is made to the same effect of every linked clip that has it: it's
/// switched the same, taken off too (unless it's only moved), and plays for as long, or as long
/// as that clip is. Reversing the intro is done to all of the linked clips. Other changes are
/// the clip's own.
pub proof fn linked_clips_get_the_same_change(
    s: SequenceModel,
    linked: Seq<ItemId>,
    moved: Seq<EffectId>,
    op: OpModel,
    k: int,
)
    ensures
        ({
            let all = echoes(s, linked, moved, op);
            match op {
                OpModel::SetEffectEnabled { seq, item, effect, enabled } => {
                    let peers = peers_of(s, linked, item, effect);
                    &&& all.len() == peers.len()
                    &&& 0 <= k < all.len() ==> all[k] == (OpModel::SetEffectEnabled {
                        seq,
                        item: peers[k].0,
                        effect: peers[k].1,
                        enabled,
                    })
                },
                OpModel::RemoveEffect { seq, item, effect } => {
                    let peers = peers_of(s, linked, item, effect);
                    &&& all.len() == if moved.contains(effect) {
                        0
                    } else {
                        peers.len()
                    }
                    &&& 0 <= k < all.len() ==> all[k] == (OpModel::RemoveEffect {
                        seq,
                        item: peers[k].0,
                        effect: peers[k].1,
                    })
                },
                OpModel::SetEffectRole { seq, item, effect, role } => {
                    let peers = peers_of(s, linked, item, effect);
                    &&& all.len() == peers.len()
                    &&& 0 <= k < all.len() && item_of(s, peers[k].0) is Some ==> all[k] == (
                    OpModel::SetEffectRole {
                        seq,
                        item: peers[k].0,
                        effect: peers[k].1,
                        role: shortened(role, item_of(s, peers[k].0)->0.range.duration),
                    })
                },
                OpModel::SetReverseIntro { seq, item, on } => {
                    &&& all.len() == followers(linked, item).len()
                    &&& 0 <= k < all.len() ==> all[k] == (OpModel::SetReverseIntro {
                        seq,
                        item: followers(linked, item)[k],
                        on,
                    })
                },
                _ => all.len() == 0,
            }
        }),
{
}

/// The clips that follow are all that are linked but the clip itself.
pub proof fn all_linked_clips_follow(linked: Seq<ItemId>, item: ItemId, other: ItemId)
    ensures
        followers(linked, item).contains(other) <==> linked.contains(other) && other != item,
{
    let p = other_than(item);
    let at = kept_places(linked, p);
    let peers = followers(linked, item);
    if peers.contains(other) {
        let k = choose|k: int| 0 <= k < peers.len() && peers[k] == other;
        assert(linked[at[k]] == other && p(linked[at[k]]));
    }
    if linked.contains(other) && other != item {
        let i = choose|i: int| 0 <= i < linked.len() && linked[i] == other;
        assert(p(linked[i]));
        let k = choose|k: int| 0 <= k < at.len() && at[k] == i;
        assert(peers[k] == other);
    }
}

/// The clip's own changes come first, as they are; what each of them is on the linked clips
/// comes after them all.
pub proof fn the_clips_own_changes_come_first(
    s: SequenceModel,
    linked: Seq<ItemId>,
    ops: Seq<OpModel>,
    k: int,
    j: int,
)
    requires
        0 <= k < ops.len(),
        0 <= j < echoes(s, linked, inserted(ops), ops[k]).len(),
    ensures
        ops.is_prefix_of(fanned_ops(s, linked, ops)),
        fanned_ops(s, linked, ops).skip(ops.len() as int).contains(
            echoes(s, linked, inserted(ops), ops[k])[j],
        ),
        ops.len() == 1 ==> fanned_ops(s, linked, ops).len() == 1 + echoes(
            s,
            linked,
            inserted(ops),
            ops[0],
        ).len(),
{
    let f = echoer(s, linked, inserted(ops));
    let rest = ops.flat_map(f);
    assert(ops.is_prefix_of(ops + rest));
    assert((ops + rest).skip(ops.len() as int) =~= rest);
    an_echo_is_there(ops, f, k, j);
    if ops.len() == 1 {
        let none = Seq::<OpModel>::empty();
        assert(ops =~= none.push(ops[0]));
        none.lemma_flat_map_push(f, ops[0]);
        assert(none.flat_map(f).len() == 0) by {
            assert(none.map_values(f).len() == 0);
        }
    }
}

proof fn an_echo_is_there(ops: Seq<OpModel>, f: spec_fn(OpModel) -> Seq<OpModel>, k: int, j: int)
    requires
        0 <= k < ops.len(),
        0 <= j < f(ops[k]).len(),
    ensures
        ops.flat_map(f).contains(f(ops[k])[j]),
    decreases ops.len(),
{
    let n = ops.len() - 1;
    let rest = ops.drop_last();
    let x = f(ops[k])[j];
    assert(ops =~= rest.push(ops[n]));
    rest.lemma_flat_map_push(f, ops[n]);
    if k == n {
        assert(ops.flat_map(f)[rest.flat_map(f).len() + j] == x);
    } else {
        assert(rest[k] == ops[k]);
        an_echo_is_there(rest, f, k, j);
        let m = choose|m: int| 0 <= m < rest.flat_map(f).len() && rest.flat_map(f)[m] == x;
        assert(ops.flat_map(f)[m] == x);
    }
}

// ---- curves ----

/// A moment outside the clip counts as its nearest inside.
pub proof fn moments_stay_inside(t: int, duration: Time)
    requires
        duration.0 > 0,
    ensures
        0 <= inside(t, duration) < duration.0,
        0 <= t < duration.0 ==> inside(t, duration) == t,
        t < 0 ==> inside(t, duration) == 0,
        t >= duration.0 ==> inside(t, duration) == duration.0 - 1,
{
}

/// What's found near the pointer is the first there is.
pub proof fn the_first_one_near_is_found(near: Seq<bool>, from: int)
    requires
        0 <= from,
    ensures
        match first_near(near, from) {
            Some(i) => from <= i < near.len() && near[i] && forall|k: int|
                from <= k < i ==> !#[trigger] near[k],
            None => forall|k: int| from <= k < near.len() ==> !#[trigger] near[k],
        },
    decreases near.len() - from,
{
    if from < near.len() && !near[from] {
        the_first_one_near_is_found(near, from + 1);
    }
}

/// The key found at a moment is the first one there.
pub proof fn the_first_key_there_is_found(keys: Seq<CurveKey>, t: Time, from: int)
    requires
        0 <= from,
    ensures
        match key_at(keys, t, from) {
            Some(i) => from <= i < keys.len() && keys[i].t == t && forall|k: int|
                from <= k < i ==> (#[trigger] keys[k]).t != t,
            None => forall|k: int| from <= k < keys.len() ==> (#[trigger] keys[k]).t != t,
        },
    decreases keys.len() - from,
{
    if from < keys.len() && keys[from].t != t {
        the_first_key_there_is_found(keys, t, from + 1);
    }
}

/// A key under the pointer is grabbed before any handle; handles can be grabbed only either
/// side of the selected key, and only where the pointer is.
pub proof fn keys_are_grabbed_before_handles(
    keys: Seq<bool>,
    out_of: Seq<bool>,
    into: Seq<bool>,
    selected: Option<usize>,
)
    requires
        keys.len() <= usize::MAX,
        out_of.len() <= usize::MAX,
        into.len() <= usize::MAX,
    ensures
        match grabbed(keys, out_of, into, selected) {
            Some(Grab::Key(i)) => i < keys.len() && keys[i as int],
            Some(Grab::Out(i)) => !keys.contains(true) && i < out_of.len() && out_of[i as int] && (
            selected matches Some(s) && (i == s || i + 1 == s)),
            Some(Grab::Into(i)) => !keys.contains(true) && i < into.len() && into[i as int] && (
            selected matches Some(s) && (i == s || i + 1 == s)),
            None => !keys.contains(true),
        },
        keys.contains(true) ==> grabbed(keys, out_of, into, selected) is Some && grabbed(
            keys,
            out_of,
            into,
            selected,
        )->0 is Key,
        !keys.contains(true) && selected is Some && selected->0 < out_of.len()
            && out_of[selected->0 as int] ==> grabbed(keys, out_of, into, selected) is Some,
        !keys.contains(true) && selected is Some && 0 < selected->0 <= into.len() && into[selected->0
            - 1] ==> grabbed(keys, out_of, into, selected) is Some,
{
    the_first_one_near_is_found(keys, 0);
    if let Some(i) = first_near(keys, 0) {
        assert(keys.contains(keys[i]));
    }
}

/// A dragged key goes where the pointer is if there's room, and takes the value there; how it
/// eases stays. A dragged handle changes how its key eases and nothing else. No other key
/// changes.
pub proof fn dragging_moves_one_key(
    start: Seq<CurveKey>,
    grab: Grab,
    frame: Time,
    duration: Time,
    t: Time,
    value: u64,
    ease: Option<u64>,
    k: int,
)
    requires
        0 <= k < start.len(),
        match grab {
            Grab::Key(i) | Grab::Out(i) | Grab::Into(i) => i < start.len(),
        },
    ensures
        ({
            let now = dragged(start, grab, frame, duration, t, value, ease);
            &&& now.len() == start.len()
            &&& match grab {
                Grab::Key(i) => if k == i {
                    let free = room(start, i as int, frame, duration);
                    &&& now[k].value == value
                    &&& now[k].ease == start[k].ease
                    &&& free.0 <= t.0 <= free.1 ==> now[k].t == t
                } else {
                    now[k] == start[k]
                },
                Grab::Out(i) | Grab::Into(i) => if k == i {
                    now[k].t == start[k].t && now[k].value == start[k].value && now[k].ease
                        == if ease is Some {
                        ease->0
                    } else {
                        start[k].ease
                    }
                } else {
                    now[k] == start[k]
                },
            }
        }),
{
}

// ---- connections ----

/// Every clip that's heard is offered, by the name it comes with first.
pub proof fn all_that_is_heard_is_offered(clips: Seq<(ItemId, Option<String>)>, n: int)
    requires
        0 <= n <= clips.len(),
    ensures
        forall|i: int|
            0 <= i < n && (#[trigger] clips[i]).1 is Some ==> has_id(heard_clips(clips, n), clips[i].0),
        forall|k: int|
            0 <= k < heard_clips(clips, n).len() ==> comes_first(
                clips,
                n,
                #[trigger] heard_clips(clips, n)[k],
            ),
    decreases n,
{
    if n > 0 {
        all_that_is_heard_is_offered(clips, n - 1);
        let rest = heard_clips(clips, n - 1);
        let all = heard_clips(clips, n);
        assert forall|i: int| 0 <= i < n && (#[trigger] clips[i]).1 is Some implies has_id(
            all,
            clips[i].0,
        ) by {
            if has_id(rest, clips[i].0) {
                let m = choose|m: int| 0 <= m < rest.len() && (#[trigger] rest[m]).0 == clips[i].0;
                assert(all[m] == rest[m]);
            } else {
                assert(i == n - 1);
                assert(all[rest.len() as int].0 == clips[i].0);
            }
        }
        assert forall|k: int| 0 <= k < all.len() implies comes_first(
            clips,
            n,
            #[trigger] all[k],
        ) by {
            if k < rest.len() {
                assert(all[k] == rest[k]);
                assert(comes_first(clips, n - 1, rest[k]));
                let i = choose|i: int|
                    0 <= i < n - 1 && (#[trigger] clips[i]).0 == rest[k].0 && clips[i].1 is Some
                        && (clips[i].1->0)@ == rest[k].1 && forall|j: int|
                        0 <= j < i ==> (#[trigger] clips[j]).1 is None || clips[j].0 != rest[k].0;
                assert(clips[i].0 == all[k].0);
            } else {
                assert(clips[n - 1].0 == all[k].0);
                assert forall|j: int| 0 <= j < n - 1 implies (#[trigger] clips[j]).1 is None
                    || clips[j].0 != all[k].0 by {
                    if clips[j].1 is Some && clips[j].0 == all[k].0 {
                        assert(has_id(rest, clips[j].0));
                    }
                }
            }
        }
    }
}

/// What's offered is the first of the clips with its id that's heard, by its name.
pub open spec fn comes_first(
    clips: Seq<(ItemId, Option<String>)>,
    n: int,
    offered: (ItemId, Seq<char>),
) -> bool {
    exists|i: int|
        0 <= i < n && (#[trigger] clips[i]).0 == offered.0 && clips[i].1 is Some && (clips[i].1->0)@
            == offered.1 && forall|j: int|
            0 <= j < i ==> (#[trigger] clips[j]).1 is None || clips[j].0 != offered.0
}

/// What's used of the selection is the first clip of it that's heard; never the clip itself.
pub proof fn the_first_heard_is_used(
    selected: Seq<ItemId>,
    item: ItemId,
    heard: Seq<ItemId>,
    from: int,
)
    requires
        0 <= from,
    ensures
        match usable_from(selected, item, heard, from) {
            Some(id) => id != item && heard.contains(id) && exists|i: int|
                from <= i < selected.len() && #[trigger] selected[i] == id && forall|k: int|
                    from <= k < i ==> selected[k] == item || !heard.contains(#[trigger] selected[k]),
            None => forall|k: int|
                from <= k < selected.len() ==> selected[k] == item || !heard.contains(
                    #[trigger] selected[k],
                ),
        },
    decreases selected.len() - from,
{
    if from < selected.len() {
        if selected[from] != item && heard.contains(selected[from]) {
            assert(selected[from] == usable_from(selected, item, heard, from)->0);
        } else {
            the_first_heard_is_used(selected, item, heard, from + 1);
            if let Some(id) = usable_from(selected, item, heard, from + 1) {
                let i = choose|i: int|
                    from + 1 <= i < selected.len() && #[trigger] selected[i] == id && forall|k: int|
                        from + 1 <= k < i ==> selected[k] == item || !heard.contains(
                            #[trigger] selected[k],
                        );
                assert(selected[i] == id);
            }
        }
    }
}

/// The name shown for a clip is the one it's heard by.
pub proof fn clips_are_named_as_they_are_heard(heard: Seq<Heard>, id: ItemId, from: int)
    requires
        0 <= from,
    ensures
        match name_in(heard, id, from) {
            Some(name) => exists|i: int|
                from <= i < heard.len() && (#[trigger] heard[i]).id == id && heard[i].name@ == name
                    && forall|k: int| from <= k < i ==> (#[trigger] heard[k]).id != id,
            None => forall|k: int| from <= k < heard.len() ==> (#[trigger] heard[k]).id != id,
        },
    decreases heard.len() - from,
{
    if from < heard.len() {
        if heard[from].id == id {
            assert(heard[from].name@ == name_in(heard, id, from)->0);
        } else {
            clips_are_named_as_they_are_heard(heard, id, from + 1);
            if let Some(name) = name_in(heard, id, from + 1) {
                let i = choose|i: int|
                    from + 1 <= i < heard.len() && (#[trigger] heard[i]).id == id && heard[i].name@
                        == name && forall|k: int|
                        from + 1 <= k < i ==> (#[trigger] heard[k]).id != id;
                assert(heard[i].id == id);
            }
        }
    }
}

// ---- properties ----

/// A clip has the one line that was picked for it, or none; the other clips keep theirs.
pub proof fn one_line_is_picked_for_a_clip(
    bands: Seq<(ItemId, u64)>,
    item: ItemId,
    band: Option<u64>,
    x: (ItemId, u64),
)
    ensures
        x.0 != item ==> (with_band(bands, item, band).contains(x) <==> bands.contains(x)),
        x.0 == item ==> (with_band(bands, item, band).contains(x) <==> band == Some(x.1)),
{
    let p = for_others(item);
    let rest = bands.filter(p);
    let at = kept_places(bands, p);
    let all = with_band(bands, item, band);
    if all.contains(x) {
        let k = choose|k: int| 0 <= k < all.len() && all[k] == x;
        if k < rest.len() {
            assert(rest[k] == x);
            assert(bands[at[k]] == x && p(bands[at[k]]));
        }
    }
    if x.0 != item && bands.contains(x) {
        let i = choose|i: int| 0 <= i < bands.len() && bands[i] == x;
        assert(p(bands[i]));
        let k = choose|k: int| 0 <= k < at.len() && at[k] == i;
        assert(rest[k] == x);
        assert(all[k] == x);
    }
    if x.0 == item && band == Some(x.1) {
        assert(all[rest.len() as int] == x);
    }
}

/// What could be worked out is all of it, in order.
pub proof fn all_that_worked_out_is_done(results: Seq<Result<Op, String>>, n: int) -> (at: Seq<int>)
    requires
        0 <= n <= results.len(),
    ensures
        at.len() == worked_out(results, n).len(),
        forall|a: int, b: int| 0 <= a < b < at.len() ==> (#[trigger] at[a]) < (#[trigger] at[b]),
        forall|k: int|
            0 <= k < at.len() ==> 0 <= (#[trigger] at[k]) < n && results[at[k]] == Ok::<Op, String>(
                worked_out(results, n)[k],
            ),
        forall|i: int| 0 <= i < n && (#[trigger] results[i]) is Ok ==> at.contains(i),
    decreases n,
{
    if n == 0 {
        Seq::empty()
    } else {
        let had = all_that_worked_out_is_done(results, n - 1);
        let at = if results[n - 1] is Ok {
            had.push(n - 1)
        } else {
            had
        };
        assert forall|k: int| 0 <= k < at.len() implies 0 <= (#[trigger] at[k]) < n
            && results[at[k]] == Ok::<Op, String>(worked_out(results, n)[k]) by {
            if k < had.len() {
                assert(at[k] == had[k]);
            }
        }
        assert forall|a: int, b: int| 0 <= a < b < at.len() implies (#[trigger] at[a]) < (
        #[trigger] at[b]) by {
            assert(at[a] == had[a]);
            if b < had.len() {
                assert(at[b] == had[b]);
            }
        }
        assert forall|i: int| 0 <= i < n && (#[trigger] results[i]) is Ok implies at.contains(i) by {
            if i < n - 1 {
                let k = choose|k: int| 0 <= k < had.len() && had[k] == i;
                assert(at[k] == i);
            } else {
                assert(at[had.len() as int] == i);
            }
        }
        at
    }
}

} // verus!
