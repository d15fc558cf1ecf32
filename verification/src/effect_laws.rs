//! What holds of the effect lists, and of the effects that clips get: the laws of the
//! effect commands.
use crate::changes::{
    after_one, after_two, clip_later, ids_differ, later_still, leaves, left_alone,
    taking_one_out,
};
use crate::doc::{
    item_of, place_of, EffectId, EffectModel, EffectRole, ItemId, ItemKind, ItemModel, MediaId,
    OpModel, SequenceModel, Time, TrackKind, SECOND,
};
use crate::editor::{clip_key, followers, other_than, with_media, PoolItem};
use crate::effects::{
    adds, audible, cards_of, container_of, fits, fitter, is_passive, last_length, lists, matching,
    new_role, own_cards, paste_one, pasted, pastes, place_for, put_copies, put_copy, shown_places,
    visual, wanted, with_effects, with_peers, EffectFacts, List,
};
use crate::seqs::{filter_step, first_is_right, first_where, kept_places, some_is_first};
use vstd::prelude::*;

verus! {

/// Every effect is on the list for what it does: what's heard on the sound list, of the rest
/// what's always on with the effects, intros and outros on theirs. A reversed intro is on none.
pub proof fn effects_are_on_the_list_for_what_they_do(list: List, role: EffectRole, heard: bool)
    ensures
        heard ==> (lists(list, role, heard) <==> list == List::Sound),
        !heard && role is Passive ==> (lists(list, role, heard) <==> list == List::Effects),
        !heard && role is In ==> (lists(list, role, heard) <==> list == List::Intro),
        !heard && role is Out ==> (lists(list, role, heard) <==> list == List::Outro),
        !heard && role is Reversed ==> !lists(list, role, heard),
{
}

/// A list shows all of a clip's effects that are on it and no others, in the clip's order.
pub proof fn lists_show_all_of_theirs(
    effects: Seq<EffectModel>,
    list: List,
    types: Seq<Seq<char>>,
    n: int,
)
    requires
        0 <= n <= effects.len(),
    ensures
        ({
            let places = shown_places(effects, list, types, n);
            &&& forall|a: int, b: int|
                0 <= a < b < places.len() ==> (#[trigger] places[a]) < (#[trigger] places[b])
            &&& forall|k: int|
                0 <= k < places.len() ==> 0 <= (#[trigger] places[k]) < n && lists(
                    list,
                    effects[places[k]].role,
                    types.contains(effects[places[k]].type_id),
                )
            &&& forall|i: int|
                0 <= i < n && lists(
                    list,
                    effects[i].role,
                    types.contains((#[trigger] effects[i]).type_id),
                ) ==> places.contains(i)
        }),
    decreases n,
{
    if n > 0 {
        lists_show_all_of_theirs(effects, list, types, n - 1);
        let before = shown_places(effects, list, types, n - 1);
        let places = shown_places(effects, list, types, n);
        assert forall|i: int|
            0 <= i < n && lists(
                list,
                effects[i].role,
                types.contains((#[trigger] effects[i]).type_id),
            ) implies places.contains(i) by {
            if i < n - 1 {
                let k = choose|k: int| 0 <= k < before.len() && before[k] == i;
                assert(places[k] == i);
            } else {
                assert(places.last() == i);
            }
        }
    }
}

/// The new effect of a list is on that list. It never plays longer than its clip; an intro or
/// outro plays as long as the last one did where the clip is long enough (half a second if
/// there was none), a sound that arrives or leaves for a second.
pub proof fn new_effects_are_on_their_list(
    list: List,
    last: Option<Time>,
    sound_in_out: bool,
    length: Time,
)
    ensures
        lists(list, new_role(list, last, sound_in_out, length), list == List::Sound),
        match new_role(list, last, sound_in_out, length) {
            EffectRole::In { duration } | EffectRole::Out { duration } => {
                &&& duration.0 <= length.0
                &&& list != List::Sound && last is Some ==> duration.0 <= (last->0).0 && (length.0
                    >= (last->0).0 ==> duration == last->0)
                &&& list != List::Sound && last is None ==> 2 * duration.0 <= SECOND && (2
                    * length.0 >= SECOND ==> 2 * duration.0 == SECOND)
                &&& list == List::Sound ==> sound_in_out && duration.0 <= SECOND && (length.0
                    >= SECOND ==> duration.0 == SECOND)
                &&& duration.0 < length.0 ==> duration.0 == if list == List::Sound {
                    SECOND as int
                } else if last is Some {
                    (last->0).0 as int
                } else {
                    SECOND / 2
                }
            },
            EffectRole::Passive => list == List::Effects || (list == List::Sound && !sound_in_out),
            EffectRole::Reversed { .. } => false,
        },
{
}

/// What arrives or leaves comes before the clip's passive effects and after its other ones;
/// a passive effect comes last.
pub proof fn arrivals_come_before_passive_effects(effects: Seq<EffectModel>, role: EffectRole)
    ensures
        0 <= place_for(effects, role) <= effects.len(),
        role is Passive ==> place_for(effects, role) == effects.len(),
        !(role is Passive) ==> {
            &&& forall|j: int|
                0 <= j < place_for(effects, role) ==> !((#[trigger] effects[j]).role is Passive)
            &&& place_for(effects, role) < effects.len() ==> effects[place_for(
                effects,
                role,
            )].role is Passive
        },
{
    first_is_right(effects, is_passive(), 0);
}

/// The change gives clip `target` a new effect of the list, in its right place.
pub open spec fn gives_effect(
    s: SequenceModel,
    op: OpModel,
    target: ItemId,
    list: List,
    type_id: Seq<char>,
    last: Option<Time>,
    sound_in_out: bool,
    id: u64,
) -> bool {
    op matches OpModel::InsertEffect { seq, item, index, effect } && (item_of(s, target) matches Some(
        it,
    ) && {
        &&& seq == s.id
        &&& item == target
        &&& effect.id == EffectId(id)
        &&& effect.type_id == type_id
        &&& effect.enabled
        &&& effect.params.len() == 0
        &&& effect.role == new_role(list, last, sound_in_out, it.range.duration)
        &&& index <= it.effects.len()
        &&& effect.role is Passive ==> index == it.effects.len()
        &&& !(effect.role is Passive) ==> forall|j: int|
            0 <= j < index ==> !((#[trigger] it.effects[j]).role is Passive)
        &&& !(effect.role is Passive) && index < it.effects.len()
            ==> it.effects[index as int].role is Passive
    })
}

/// Adding an effect gives it to every one of the clips that's there, one each, in their order,
/// each with an id of its own. `at` are the clips' places.
pub proof fn every_clip_gets_the_effect(
    s: SequenceModel,
    targets: Seq<ItemId>,
    list: List,
    type_id: Seq<char>,
    last: Option<Time>,
    sound_in_out: bool,
    fresh: Seq<u64>,
    n: int,
) -> (at: Seq<int>)
    requires
        0 <= n <= targets.len(),
        forall|i: int|
            0 <= i < n && item_of(s, targets[i]) is Some ==> item_of(
                s,
                #[trigger] targets[i],
            )->0.effects.len() <= usize::MAX,
    ensures
        ({
            let ops = adds(s, targets, list, type_id, last, sound_in_out, fresh, n);
            &&& at.len() == ops.len()
            &&& forall|a: int, b: int|
                0 <= a < b < at.len() ==> (#[trigger] at[a]) < (#[trigger] at[b])
            &&& forall|k: int|
                0 <= k < at.len() ==> 0 <= (#[trigger] at[k]) < n && gives_effect(
                    s,
                    ops[k],
                    targets[at[k]],
                    list,
                    type_id,
                    last,
                    sound_in_out,
                    fresh[k],
                )
            &&& forall|i: int|
                0 <= i < n && item_of(s, #[trigger] targets[i]) is Some ==> at.contains(i)
        }),
    decreases n,
{
    if n <= 0 {
        Seq::empty()
    } else {
        let before = every_clip_gets_the_effect(
            s,
            targets,
            list,
            type_id,
            last,
            sound_in_out,
            fresh,
            n - 1,
        );
        let had = adds(s, targets, list, type_id, last, sound_in_out, fresh, n - 1);
        let ops = adds(s, targets, list, type_id, last, sound_in_out, fresh, n);
        match item_of(s, targets[n - 1]) {
            None => {
                before
            },
            Some(it) => {
                let role = new_role(list, last, sound_in_out, it.range.duration);
                arrivals_come_before_passive_effects(it.effects, role);
                let at = before.push(n - 1);
                assert forall|k: int| 0 <= k < at.len() implies 0 <= (#[trigger] at[k]) < n
                    && gives_effect(
                    s,
                    ops[k],
                    targets[at[k]],
                    list,
                    type_id,
                    last,
                    sound_in_out,
                    fresh[k],
                ) by {
                    if k < before.len() {
                        assert(before[k] == at[k]);
                        assert(ops[k] == had[k]);
                    }
                }
                assert forall|i: int|
                    0 <= i < n && item_of(s, #[trigger] targets[i]) is Some implies at.contains(
                    i,
                ) by {
                    if i < n - 1 {
                        let k = choose|k: int| 0 <= k < before.len() && before[k] == i;
                        assert(at[k] == i);
                    } else {
                        assert(at.last() == i);
                    }
                }
                at
            },
        }
    }
}

/// The last of the list's effects on the clip says how long the next one plays: where it's an
/// intro or outro, as long as that one; else nothing does.
pub proof fn the_last_one_shown_is_repeated(it: ItemModel, list: List, types: Seq<Seq<char>>)
    ensures
        ({
            let on = |e: EffectModel| lists(list, e.role, types.contains(e.type_id));
            match last_length(it, list, types) {
                Some(d) => exists|i: int|
                    0 <= i < it.effects.len() && on(#[trigger] it.effects[i]) && (
                    it.effects[i].role == EffectRole::In { duration: d } || it.effects[i].role
                        == EffectRole::Out { duration: d }) && forall|j: int|
                        i < j < it.effects.len() ==> !on(#[trigger] it.effects[j]),
                None => (list == List::Outro && it.outro_reverses_intro) || forall|i: int|
                    0 <= i < it.effects.len() && on(#[trigger] it.effects[i])
                        && !(it.effects[i].role is Passive || it.effects[i].role is Reversed)
                        ==> exists|j: int|
                        i < j < it.effects.len() && on(#[trigger] it.effects[j]),
            }
        }),
{
    let on = |e: EffectModel| lists(list, e.role, types.contains(e.type_id));
    let n = it.effects.len() as int;
    let places = shown_places(it.effects, list, types, n);
    lists_show_all_of_theirs(it.effects, list, types, n);
    if places.len() > 0 {
        let i = places.last();
        assert(places[places.len() - 1] == i);
        assert(on(it.effects[i]));
        assert forall|j: int| i < j < n implies !on(#[trigger] it.effects[j]) by {
            if on(it.effects[j]) {
                let k = choose|k: int| 0 <= k < places.len() && places[k] == j;
            }
        }
        assert forall|i0: int|
            0 <= i0 < n && on(#[trigger] it.effects[i0]) && i0 != i implies exists|j: int|
            i0 < j < n && on(#[trigger] it.effects[j]) by {
            assert(i0 < i);
        }
    } else {
        assert forall|i: int| 0 <= i < n implies !on(#[trigger] it.effects[i]) by {
            if on(it.effects[i]) {
                let k = choose|k: int| 0 <= k < places.len() && places[k] == i;
            }
        }
    }
}

/// The card is for an effect of clip `of` that the list shows.
pub open spec fn is_for(
    s: SequenceModel,
    card: (ItemId, EffectId),
    of: ItemId,
    list: List,
    types: Seq<Seq<char>>,
) -> bool {
    card.0 == of && (item_of(s, of) matches Some(it) && exists|i: int|
        0 <= i < it.effects.len() && (#[trigger] it.effects[i]).id == card.1 && lists(
            list,
            it.effects[i].role,
            types.contains(it.effects[i].type_id),
        ))
}

/// One of the cards stands for the effect: it has the same key.
pub open spec fn stands_for(
    s: SequenceModel,
    cards: Seq<(ItemId, EffectId)>,
    of: ItemId,
    effect: EffectId,
) -> bool {
    exists|k: int|
        0 <= k < cards.len() && clip_key(s, (#[trigger] cards[k]).0, cards[k].1) == clip_key(
            s,
            of,
            effect,
        )
}

/// The cards stand for all of the clip's effects that the list shows.
pub open spec fn cover(
    s: SequenceModel,
    cards: Seq<(ItemId, EffectId)>,
    of: ItemId,
    list: List,
    types: Seq<Seq<char>>,
) -> bool {
    item_of(s, of) matches Some(it) ==> forall|i: int|
        0 <= i < it.effects.len() && lists(
            list,
            it.effects[i].role,
            types.contains(it.effects[i].type_id),
        ) ==> stands_for(s, cards, of, (#[trigger] it.effects[i]).id)
}

/// More cards cover what the first ones do.
proof fn more_cards_cover(
    s: SequenceModel,
    cards: Seq<(ItemId, EffectId)>,
    more: Seq<(ItemId, EffectId)>,
    of: ItemId,
    list: List,
    types: Seq<Seq<char>>,
)
    requires
        cover(s, cards, of, list, types),
        cards.is_prefix_of(more),
    ensures
        cover(s, more, of, list, types),
{
    if let Some(it) = item_of(s, of) {
        assert forall|i: int|
            0 <= i < it.effects.len() && lists(
                list,
                it.effects[i].role,
                types.contains(it.effects[i].type_id),
            ) implies stands_for(s, more, of, (#[trigger] it.effects[i]).id) by {
            let e = it.effects[i].id;
            assert(stands_for(s, cards, of, e));
            let k = choose|k: int|
                0 <= k < cards.len() && clip_key(s, (#[trigger] cards[k]).0, cards[k].1)
                    == clip_key(s, of, e);
            assert(more[k] == cards[k]);
        }
    }
}

proof fn effects_are_covered(
    s: SequenceModel,
    cards: Seq<(ItemId, EffectId)>,
    other: ItemId,
    it: ItemModel,
    list: List,
    types: Seq<Seq<char>>,
    n: int,
)
    requires
        item_of(s, other) == Some(it),
        0 <= n <= it.effects.len(),
    ensures
        ({
            let now = with_effects(s, cards, other, it.effects, list, types, n);
            &&& cards.is_prefix_of(now)
            &&& forall|k: int|
                cards.len() <= k < now.len() ==> is_for(s, #[trigger] now[k], other, list, types)
            &&& forall|i: int|
                0 <= i < n && lists(
                    list,
                    it.effects[i].role,
                    types.contains(it.effects[i].type_id),
                ) ==> stands_for(s, now, other, (#[trigger] it.effects[i]).id)
        }),
    decreases n,
{
    if n > 0 {
        effects_are_covered(s, cards, other, it, list, types, n - 1);
        let before = with_effects(s, cards, other, it.effects, list, types, n - 1);
        let now = with_effects(s, cards, other, it.effects, list, types, n);
        let e = it.effects[n - 1];
        assert(before.is_prefix_of(now));
        assert forall|k: int| cards.len() <= k < now.len() implies is_for(
            s,
            #[trigger] now[k],
            other,
            list,
            types,
        ) by {
            if k < before.len() {
                assert(now[k] == before[k]);
            } else {
                assert(it.effects[n - 1].id == now[k].1);
            }
        }
        assert forall|i: int|
            0 <= i < n && lists(
                list,
                it.effects[i].role,
                types.contains(it.effects[i].type_id),
            ) implies stands_for(s, now, other, (#[trigger] it.effects[i]).id) by {
            let id = it.effects[i].id;
            if i < n - 1 {
                assert(stands_for(s, before, other, id));
                let k = choose|k: int|
                    0 <= k < before.len() && clip_key(s, (#[trigger] before[k]).0, before[k].1)
                        == clip_key(s, other, id);
                assert(now[k] == before[k]);
            } else if now.len() > before.len() {
                assert(now[before.len() as int] == (other, id));
            } else {
                let k = choose|k: int|
                    0 <= k < before.len() && clip_key(s, (#[trigger] before[k]).0, before[k].1)
                        == clip_key(s, other, id);
                assert(now[k] == before[k]);
            }
        }
    }
}

proof fn peers_are_covered(
    s: SequenceModel,
    cards: Seq<(ItemId, EffectId)>,
    peers: Seq<ItemId>,
    list: List,
    types: Seq<Seq<char>>,
)
    ensures
        ({
            let now = with_peers(s, cards, peers, list, types);
            &&& cards.is_prefix_of(now)
            &&& forall|k: int|
                cards.len() <= k < now.len() ==> peers.contains((#[trigger] now[k]).0) && is_for(
                    s,
                    now[k],
                    now[k].0,
                    list,
                    types,
                )
            &&& forall|p: int|
                0 <= p < peers.len() ==> cover(s, now, #[trigger] peers[p], list, types)
        }),
    decreases peers.len(),
{
    if peers.len() > 0 {
        let rest = peers.drop_last();
        peers_are_covered(s, cards, rest, list, types);
        let before = with_peers(s, cards, rest, list, types);
        let now = with_peers(s, cards, peers, list, types);
        let other = peers.last();
        if let Some(it) = item_of(s, other) {
            effects_are_covered(s, before, other, it, list, types, it.effects.len() as int);
        }
        assert(before.is_prefix_of(now));
        assert forall|k: int| cards.len() <= k < now.len() implies peers.contains(
            (#[trigger] now[k]).0,
        ) && is_for(s, now[k], now[k].0, list, types) by {
            if k < before.len() {
                assert(now[k] == before[k]);
                let p = choose|p: int| 0 <= p < rest.len() && rest[p] == before[k].0;
                assert(peers[p] == before[k].0);
            } else {
                assert(peers[peers.len() - 1] == now[k].0);
            }
        }
        assert forall|p: int| 0 <= p < peers.len() implies cover(
            s,
            now,
            #[trigger] peers[p],
            list,
            types,
        ) by {
            if p < rest.len() {
                assert(rest[p] == peers[p]);
                more_cards_cover(s, before, now, peers[p], list, types);
            }
        }
    }
}

/// A list shows a clip's own effects first, then effects of the linked clips. Every card is
/// for an effect that's on the list, and every such effect of the clip and of the linked ones
/// has a card that stands for it.
pub proof fn cards_stand_for_every_effect(
    s: SequenceModel,
    linked: Seq<ItemId>,
    item: ItemId,
    list: List,
    types: Seq<Seq<char>>,
)
    requires
        item_of(s, item) is Some,
    ensures
        ({
            let it = item_of(s, item)->0;
            let cards = cards_of(s, linked, item, list, types);
            if list == List::Outro && it.outro_reverses_intro {
                cards.len() == 0
            } else {
                &&& forall|k: int|
                    0 <= k < cards.len() ==> is_for(
                        s,
                        #[trigger] cards[k],
                        cards[k].0,
                        list,
                        types,
                    ) && (cards[k].0 == item || linked.contains(cards[k].0))
                &&& forall|a: int, b: int|
                    0 <= a < b < cards.len() && (#[trigger] cards[b]).0 == item ==> (
                    #[trigger] cards[a]).0 == item
                &&& cover(s, cards, item, list, types)
                &&& forall|p: int|
                    0 <= p < linked.len() ==> cover(s, cards, #[trigger] linked[p], list, types)
            }
        }),
{
    let it = item_of(s, item)->0;
    let cards = cards_of(s, linked, item, list, types);
    if !(list == List::Outro && it.outro_reverses_intro) {
        let n = it.effects.len() as int;
        let own = own_cards(item, it.effects, list, types);
        let places = shown_places(it.effects, list, types, n);
        lists_show_all_of_theirs(it.effects, list, types, n);
        let p = other_than(item);
        let peers = followers(linked, item);
        let at = kept_places(linked, p);
        peers_are_covered(s, own, peers, list, types);
        assert(cover(s, own, item, list, types)) by {
            assert forall|i: int|
                0 <= i < it.effects.len() && lists(
                    list,
                    it.effects[i].role,
                    types.contains(it.effects[i].type_id),
                ) implies stands_for(s, own, item, (#[trigger] it.effects[i]).id) by {
                let k = choose|k: int| 0 <= k < places.len() && places[k] == i;
                assert(own[k] == (item, it.effects[i].id));
            }
        }
        more_cards_cover(s, own, cards, item, list, types);
        assert forall|k: int| 0 <= k < peers.len() implies (#[trigger] peers[k]) != item
            && linked.contains(peers[k]) by {
            assert(linked[at[k]] == peers[k]);
        }
        assert forall|k: int| 0 <= k < own.len() implies is_for(
            s,
            #[trigger] own[k],
            item,
            list,
            types,
        ) by {
            assert(0 <= places[k] < n);
            assert(it.effects[places[k]].id == own[k].1);
        }
        assert forall|k: int| 0 <= k < cards.len() implies is_for(
            s,
            #[trigger] cards[k],
            cards[k].0,
            list,
            types,
        ) && (cards[k].0 == item || linked.contains(cards[k].0)) && (cards[k].0 == item <==> k
            < own.len()) by {
            if k < own.len() {
                assert(cards[k] == own[k]);
            } else {
                let j = choose|j: int| 0 <= j < peers.len() && peers[j] == cards[k].0;
                assert(peers[j] != item);
            }
        }
        assert forall|q: int| 0 <= q < linked.len() implies cover(
            s,
            cards,
            #[trigger] linked[q],
            list,
            types,
        ) by {
            if linked[q] != item {
                assert(p(linked[q]));
                let k = choose|k: int| 0 <= k < at.len() && at[k] == q;
                assert(peers[k] == linked[q]);
            }
        }
    }
}

/// `now` is the clip's effects with a copy of `effect` among them: one of its kind in its role
/// that was there has its settings, in the same place; else a new one is there, in its right
/// place. The other effects are as they were.
pub open spec fn has_copy(
    had: Seq<EffectModel>,
    now: Seq<EffectModel>,
    effect: EffectModel,
    fresh: u64,
    i: int,
) -> bool {
    &&& 0 <= i < now.len()
    &&& now[i].type_id == effect.type_id
    &&& now[i].params == effect.params
    &&& now[i].role == effect.role
    &&& now[i].enabled == effect.enabled
    &&& if now.len() == had.len() {
        &&& now[i].id == had[i].id
        &&& now.remove(i) == had.remove(i)
        &&& had[i].type_id == effect.type_id
        &&& same_kind(had[i].role, effect.role)
        &&& forall|j: int|
            0 <= j < i ==> !((#[trigger] had[j]).type_id == effect.type_id && same_kind(
                had[j].role,
                effect.role,
            ))
    } else {
        &&& now.remove(i) == had
        &&& now[i].id == EffectId(fresh)
        &&& effect.role is Passive ==> i == had.len()
        &&& !(effect.role is Passive) ==> forall|j: int|
            0 <= j < i ==> !((#[trigger] now[j]).role is Passive)
        &&& !(effect.role is Passive) && i + 1 < now.len() ==> now[i + 1].role is Passive
        &&& forall|j: int|
            0 <= j < had.len() ==> !((#[trigger] had[j]).type_id == effect.type_id && same_kind(
                had[j].role,
                effect.role,
            ))
    }
}

/// Both are always on, both arrive, both leave or both are reversed.
pub open spec fn same_kind(a: EffectRole, b: EffectRole) -> bool {
    (a is Passive && b is Passive) || (a is In && b is In) || (a is Out && b is Out) || (
    a is Reversed && b is Reversed)
}

/// After putting a copy of an effect on a clip, the clip has it, in one place; nothing else on
/// the clip is different.
pub proof fn a_copy_is_put_on(
    s: SequenceModel,
    it: ItemModel,
    effect: EffectModel,
    fresh: u64,
) -> (i: int)
    requires
        ids_differ(it.effects),
        it.effects.len() <= usize::MAX,
    ensures
        ({
            let now = clip_later(it, put_copy(s, it, it.id, effect, fresh));
            &&& now matches Some(x) && x == (ItemModel { effects: x.effects, ..it }) && has_copy(
                it.effects,
                x.effects,
                effect,
                fresh,
                i,
            )
        }),
        forall|k: int|
            0 <= k < put_copy(s, it, it.id, effect, fresh).len() ==> about(
                #[trigger] put_copy(s, it, it.id, effect, fresh)[k],
                it.id,
            ),
        put_copy(s, it, it.id, effect, fresh).len() == 0 <==> clip_later(
            it,
            put_copy(s, it, it.id, effect, fresh),
        ) == Some(it),
{
    let ops = put_copy(s, it, it.id, effect, fresh);
    let p = matching(effect);
    first_is_right(it.effects, p, 0);
    match first_where(it.effects, p) {
        Some(i) => {
            let e = it.effects[i];
            if ops.len() > 0 {
                after_two(it, ops);
                taking_one_out(it.effects, i);
                let new = EffectModel {
                    params: effect.params,
                    role: effect.role,
                    enabled: effect.enabled,
                    ..e
                };
                let now = it.effects.remove(i).insert(i, new);
                assert(clip_later(it, ops) == Some(ItemModel { effects: now, ..it }));
                assert(now.remove(i) =~= it.effects.remove(i));
                assert(now[i] == new);
                assert(new != it.effects[i]);
            }
            i
        },
        None => {
            let i = place_for(it.effects, effect.role);
            arrivals_come_before_passive_effects(it.effects, effect.role);
            after_one(it, ops);
            let new = EffectModel { id: EffectId(fresh), ..effect };
            let now = it.effects.insert(i, new);
            assert(clip_later(it, ops) == Some(ItemModel { effects: now, ..it }));
            assert(now.remove(i) =~= it.effects);
            assert forall|j: int| 0 <= j < i && !(effect.role is Passive) implies !((
            #[trigger] now[j]).role is Passive) by {
                assert(now[j] == it.effects[j]);
            }
            if i + 1 < now.len() {
                assert(now[i + 1] == it.effects[i]);
            }
            assert(now.len() == it.effects.len() + 1);
            i
        },
    }
}

/// The change is to the effects of the clip.
pub open spec fn about(op: OpModel, id: ItemId) -> bool {
    match op {
        OpModel::InsertEffect { item, .. } => item == id,
        OpModel::RemoveEffect { item, .. } => item == id,
        OpModel::SetReverseIntro { item, .. } => item == id,
        _ => false,
    }
}

/// Changes to the effects of other clips leave a clip as it is.
proof fn others_change(it: ItemModel, ops: Seq<OpModel>, other: ItemId)
    requires
        other != it.id,
        forall|k: int| 0 <= k < ops.len() ==> about(#[trigger] ops[k], other),
    ensures
        clip_later(it, ops) == Some(it),
{
    assert forall|k: int| 0 <= k < ops.len() implies leaves(#[trigger] ops[k], it.id) by {
        assert(about(ops[k], other));
    }
    left_alone(it, ops);
}

/// The clips are there, each once, and each effect on them has an id of its own.
pub open spec fn are_fit(s: SequenceModel, targets: Seq<ItemId>) -> bool {
    &&& targets.no_duplicates()
    &&& forall|i: int|
        0 <= i < targets.len() && item_of(s, targets[i]) is Some ==> item_of(
            s,
            #[trigger] targets[i],
        )->0.id == targets[i] && ids_differ(item_of(s, targets[i])->0.effects) && item_of(
            s,
            targets[i],
        )->0.effects.len() <= usize::MAX
}

/// Putting an effect on several clips gives a copy to each of them that's there and to no
/// other clip.
pub proof fn copies_go_on_each(
    s: SequenceModel,
    targets: Seq<ItemId>,
    effect: EffectModel,
    fresh: Seq<u64>,
    n: int,
    it: ItemModel,
)
    requires
        0 <= n <= targets.len(),
        are_fit(s, targets),
        item_of(s, it.id) == Some(it),
    ensures
        ({
            let now = clip_later(it, put_copies(s, targets, effect, fresh, n).0);
            if targets.take(n).contains(it.id) {
                now matches Some(x) && x == (ItemModel { effects: x.effects, ..it }) && exists|
                    i: int,
                    k: int,
                |
                    0 <= k < n && #[trigger] targets[k] == it.id && #[trigger] has_copy(
                        it.effects,
                        x.effects,
                        effect,
                        fresh[k],
                        i,
                    )
            } else {
                now == Some(it)
            }
        }),
    decreases n,
{
    if n > 0 {
        copies_go_on_each(s, targets, effect, fresh, n - 1, it);
        let before = put_copies(s, targets, effect, fresh, n - 1).0;
        let t = targets[n - 1];
        let had = targets.take(n - 1);
        let now = targets.take(n);
        assert(now =~= had.push(t));
        assert(had.contains(it.id) ==> t != it.id) by {
            if had.contains(it.id) && t == it.id {
                let k = choose|k: int| 0 <= k < had.len() && had[k] == it.id;
                assert(targets[k] == targets[n - 1]);
            }
        }
        assert(now.contains(it.id) <==> had.contains(it.id) || t == it.id) by {
            if had.contains(it.id) {
                let k = choose|k: int| 0 <= k < had.len() && had[k] == it.id;
                assert(now[k] == it.id);
            }
            if t == it.id {
                assert(now[n - 1] == it.id);
            }
            if now.contains(it.id) && t != it.id {
                let k = choose|k: int| 0 <= k < now.len() && now[k] == it.id;
                assert(had[k] == it.id);
            }
        }
        if let Some(x) = item_of(s, t) {
            let here = put_copy(s, x, t, effect, fresh[n - 1]);
            let i = a_copy_is_put_on(s, x, effect, fresh[n - 1]);
            later_still(it, before, here);
            if t != it.id {
                if had.contains(it.id) {
                    let y = clip_later(it, before)->0;
                    others_change(y, here, t);
                } else {
                    others_change(it, here, t);
                }
            } else {
                assert(targets[n - 1] == it.id);
            }
        }
    } else {
        assert(targets.take(n).len() == 0);
    }
}

/// How many of the clips are changed is how many weren't already as asked.
pub proof fn changed_clips_are_counted(
    s: SequenceModel,
    targets: Seq<ItemId>,
    effect: EffectModel,
    fresh: Seq<u64>,
    n: int,
)
    requires
        0 <= n <= targets.len(),
        are_fit(s, targets),
    ensures
        put_copies(s, targets, effect, fresh, n).1 <= n,
        n > 0 ==> put_copies(s, targets, effect, fresh, n).1 == put_copies(
            s,
            targets,
            effect,
            fresh,
            n - 1,
        ).1 + if item_of(s, targets[n - 1]) is Some && !already_has(
            item_of(s, targets[n - 1])->0.effects,
            effect,
        ) {
            1nat
        } else {
            0nat
        },
    decreases n,
{
    if n > 0 {
        changed_clips_are_counted(s, targets, effect, fresh, n - 1);
        if let Some(x) = item_of(s, targets[n - 1]) {
            first_is_right(x.effects, matching(effect), 0);
        }
    }
}

/// The first of the effects of its kind in its role is just like `effect`.
pub open spec fn already_has(effects: Seq<EffectModel>, effect: EffectModel) -> bool {
    exists|i: int|
        0 <= i < effects.len() && #[trigger] effects[i] == (EffectModel {
            id: effects[i].id,
            ..effect
        }) && forall|j: int|
            0 <= j < i ==> !((#[trigger] effects[j]).type_id == effect.type_id && same_kind(
                effects[j].role,
                effect.role,
            ))
}

/// The clip with copies of the effects at its end, each with a fresh id (from the `base`-th on).
pub open spec fn with_pasted(
    it: ItemModel,
    effects: Seq<EffectModel>,
    reverse: Option<bool>,
    background: bool,
    fresh: Seq<u64>,
    base: int,
) -> ItemModel {
    ItemModel {
        effects: it.effects + Seq::new(
            effects.len(),
            |k: int| EffectModel { id: EffectId(fresh[base + k]), ..effects[k] },
        ),
        outro_reverses_intro: if reverse is Some && !background {
            reverse->0
        } else {
            it.outro_reverses_intro
        },
        ..it
    }
}

/// The copies come one after the other.
proof fn copies_are_pasted(
    s: SequenceModel,
    it: ItemModel,
    effects: Seq<EffectModel>,
    fresh: Seq<u64>,
    base: int,
    m: int,
    on: bool,
)
    requires
        0 <= m <= effects.len(),
        it.effects.len() + effects.len() <= usize::MAX,
    ensures
        clip_later(
            ItemModel { outro_reverses_intro: on, ..it },
            pasted(s, it.id, it.effects.len() as int, effects, fresh, base).take(m),
        ) == Some(
            ItemModel {
                effects: it.effects + Seq::new(
                    m as nat,
                    |k: int| EffectModel { id: EffectId(fresh[base + k]), ..effects[k] },
                ),
                outro_reverses_intro: on,
                ..it
            },
        ),
    decreases m,
{
    let start = ItemModel { outro_reverses_intro: on, ..it };
    let ops = pasted(s, it.id, it.effects.len() as int, effects, fresh, base);
    let copy = |k: int| EffectModel { id: EffectId(fresh[base + k]), ..effects[k] };
    if m == 0 {
        assert(it.effects + Seq::new(0, copy) =~= it.effects);
        assert(ops.take(0).len() == 0);
    } else {
        copies_are_pasted(s, it, effects, fresh, base, m - 1, on);
        assert(ops.take(m).drop_last() =~= ops.take(m - 1));
        let had = it.effects + Seq::new((m - 1) as nat, copy);
        let now = it.effects + Seq::new(m as nat, copy);
        assert(ops.take(m).last() == ops[m - 1]);
        assert(had.insert(had.len() as int, copy(m - 1)) =~= now);
        assert(had.len() == it.effects.len() + m - 1);
    }
}

/// Pasting on one clip adds all of the effects at its end, and turns its outro into its
/// intro backwards (or stops that) where that was copied; the background has no outro.
pub proof fn pasting_adds_all_at_the_end(
    s: SequenceModel,
    it: ItemModel,
    effects: Seq<EffectModel>,
    reverse: Option<bool>,
    fresh: Seq<u64>,
    base: int,
)
    requires
        it.effects.len() + effects.len() <= usize::MAX,
    ensures
        clip_later(it, paste_one(s, it, it.id, effects, reverse, fresh, base)) == Some(
            with_pasted(it, effects, reverse, it.id == s.background.id, fresh, base),
        ),
        forall|k: int|
            0 <= k < paste_one(s, it, it.id, effects, reverse, fresh, base).len() ==> about(
                #[trigger] paste_one(s, it, it.id, effects, reverse, fresh, base)[k],
                it.id,
            ),
{
    let own = pasted(s, it.id, it.effects.len() as int, effects, fresh, base);
    let ops = paste_one(s, it, it.id, effects, reverse, fresh, base);
    let on = with_pasted(it, effects, reverse, it.id == s.background.id, fresh, base);
    copies_are_pasted(
        s,
        it,
        effects,
        fresh,
        base,
        effects.len() as int,
        on.outro_reverses_intro,
    );
    assert(own.take(effects.len() as int) =~= own);
    assert(ItemModel { outro_reverses_intro: it.outro_reverses_intro, ..it } == it);
    if ops.len() > own.len() {
        let first = seq![
            OpModel::SetReverseIntro { seq: s.id, item: it.id, on: on.outro_reverses_intro },
        ];
        assert(ops =~= first + own);
        after_one(it, first);
        later_still(it, first, own);
    }
}

/// The clip is on the timeline.
pub open spec fn is_there(s: SequenceModel) -> spec_fn(ItemId) -> bool {
    |id: ItemId| item_of(s, id) is Some
}

/// Pasting effects gives copies of all of them to each of the clips and to no other clip; no
/// fresh id is used twice.
pub proof fn every_clip_gets_the_pasted_effects(
    s: SequenceModel,
    items: Seq<ItemId>,
    effects: Seq<EffectModel>,
    reverse: Option<bool>,
    fresh: Seq<u64>,
    n: int,
    it: ItemModel,
)
    requires
        0 <= n <= items.len(),
        are_fit(s, items),
        item_of(s, it.id) == Some(it),
        forall|i: int|
            0 <= i < items.len() && item_of(s, items[i]) is Some ==> item_of(
                s,
                #[trigger] items[i],
            )->0.effects.len() + effects.len() <= usize::MAX,
    ensures
        pastes(s, items, effects, reverse, fresh, n).1 == effects.len() * items.take(n).filter(
            is_there(s),
        ).len(),
        ({
            let now = clip_later(it, pastes(s, items, effects, reverse, fresh, n).0);
            if items.take(n).contains(it.id) {
                exists|k: int|
                    0 <= k < n && #[trigger] items[k] == it.id && now == Some(
                        with_pasted(
                            it,
                            effects,
                            reverse,
                            it.id == s.background.id,
                            fresh,
                            (effects.len() * items.take(k).filter(is_there(s)).len()) as int,
                        ),
                    )
            } else {
                now == Some(it)
            }
        }),
    decreases n,
{
    if n > 0 {
        every_clip_gets_the_pasted_effects(s, items, effects, reverse, fresh, n - 1, it);
        let before = pastes(s, items, effects, reverse, fresh, n - 1);
        let t = items[n - 1];
        let had = items.take(n - 1);
        let now = items.take(n);
        filter_step(items, is_there(s), n - 1);
        assert(now =~= had.push(t));
        assert(had.contains(it.id) ==> t != it.id) by {
            if had.contains(it.id) && t == it.id {
                let k = choose|k: int| 0 <= k < had.len() && had[k] == it.id;
                assert(items[k] == items[n - 1]);
            }
        }
        assert(now.contains(it.id) <==> had.contains(it.id) || t == it.id) by {
            if had.contains(it.id) {
                let k = choose|k: int| 0 <= k < had.len() && had[k] == it.id;
                assert(now[k] == it.id);
            }
            if t == it.id {
                assert(now[n - 1] == it.id);
            }
            if now.contains(it.id) && t != it.id {
                let k = choose|k: int| 0 <= k < now.len() && now[k] == it.id;
                assert(had[k] == it.id);
            }
        }
        let e = effects.len() as int;
        let f = had.filter(is_there(s)).len() as int;
        assert(e * (f + 1) == e * f + e) by (nonlinear_arith);
        if let Some(x) = item_of(s, t) {
            let here = paste_one(s, x, t, effects, reverse, fresh, before.1);
            pasting_adds_all_at_the_end(s, x, effects, reverse, fresh, before.1);
            later_still(it, before.0, here);
            if t != it.id {
                if had.contains(it.id) {
                    let y = clip_later(it, before.0)->0;
                    assert(y.id == it.id);
                    others_change(y, here, t);
                } else {
                    others_change(it, here, t);
                }
            } else {
                assert(items[n - 1] == it.id);
            }
        }
    } else {
        assert(items.take(n) =~= Seq::<ItemId>::empty());
        assert(items.take(n).filter(is_there(s)).len() == 0) by {
            reveal_with_fuel(Seq::filter, 1);
        }
        assert(effects.len() * 0 == 0);
    }
}

/// A clip has a picture unless it's of a file that's known to have none.
pub proof fn pictures_are_what_can_be_seen(
    s: SequenceModel,
    pool: Seq<PoolItem>,
    item: ItemId,
    media: MediaId,
    p: int,
)
    requires
        0 <= p < pool.len(),
        pool[p].id == media,
        forall|k: int| 0 <= k < p ==> (#[trigger] pool[k]).id != media,
    ensures
        match item_of(s, item) {
            Some(it) => {
                &&& it.kind == (ItemKind::Media { media }) ==> visual(s, pool, item)
                    == pool[p].has_video && audible(s, pool, item) == (it.audio
                    && pool[p].has_audio)
                &&& !(it.kind is Media) ==> visual(s, pool, item) && !audible(s, pool, item)
            },
            None => !visual(s, pool, item) && !audible(s, pool, item),
        },
{
    let q = with_media(media);
    first_is_right(pool, q, 0);
    some_is_first(pool, q, 0, p);
    let k = first_where(pool, q)->0;
    assert(q(pool[k]));
    if k < p {
        assert(pool[k].id != media);
    }
    assert(k == p);
}

/// A container is what's for effects on an effect track; it holds what that track runs.
pub proof fn containers_are_on_effect_tracks(s: SequenceModel, item: ItemId)
    ensures
        match place_of(s, item) {
            Some((t, i)) => container_of(s, item) == if s.tracks[t].effects
                && s.tracks[t].items[i].kind is Adjustment {
                Some(s.tracks[t].kind)
            } else {
                None
            },
            None => container_of(s, item) is None,
        },
{
}

/// What a picture effect needs: its plugin, and a picture to work on. Text effects need a
/// title; the background takes nothing that moves it, and a container of pictures nothing that
/// moves more than it fades.
pub proof fn picture_effects_need_a_picture(
    s: SequenceModel,
    pool: Seq<PoolItem>,
    item: ItemId,
    d: EffectFacts,
)
    requires
        !d.sound,
    ensures
        fits(s, pool, item, d) ==> d.known,
        fits(s, pool, item, d) ==> container_of(s, item) != Some(TrackKind::Audio),
        fits(s, pool, item, d) && d.text_only ==> item_of(s, item) is Some && item_of(
            s,
            item,
        )->0.kind is Text && item != s.background.id,
        fits(s, pool, item, d) && container_of(s, item) is None ==> item_of(s, item) is Some && (
        item == s.background.id || visual(s, pool, item)),
        fits(s, pool, item, d) && container_of(s, item) is None && item == s.background.id
            ==> !d.motion && !d.in_out,
        fits(s, pool, item, d) && container_of(s, item) is Some && d.motion ==> d.fades_only,
{
}

/// Where nothing speaks against it an effect fits: a plain picture effect whose plugin is there
/// on every clip with a picture, on the background and in containers of pictures; a text effect
/// on every title; a sound effect on all that's heard and in containers of sound.
pub proof fn effects_fit_where_nothing_is_against_it(
    s: SequenceModel,
    pool: Seq<PoolItem>,
    item: ItemId,
    d: EffectFacts,
)
    requires
        d.known,
    ensures
        !d.sound && !d.text_only && container_of(s, item) is None && item != s.background.id
            && visual(s, pool, item) ==> fits(s, pool, item, d),
        !d.sound && d.text_only && container_of(s, item) is None && item != s.background.id
            && item_of(s, item) is Some && item_of(s, item)->0.kind is Text ==> fits(
            s,
            pool,
            item,
            d,
        ),
        !d.sound && !d.text_only && !d.motion && !d.in_out && container_of(s, item) is None
            && item == s.background.id && item_of(s, item) is Some ==> fits(s, pool, item, d),
        !d.sound && !d.text_only && (!d.motion || d.fades_only) && container_of(s, item) == Some(
            TrackKind::Video,
        ) ==> fits(s, pool, item, d),
        d.sound && container_of(s, item) == Some(TrackKind::Audio) ==> fits(s, pool, item, d),
        d.sound && container_of(s, item) is None && audible(s, pool, item) ==> fits(
            s,
            pool,
            item,
            d,
        ),
{
}

/// Those of the clips that an effect goes on are all that it fits, in their order.
pub proof fn an_effect_goes_on_all_it_fits(
    s: SequenceModel,
    pool: Seq<PoolItem>,
    d: EffectFacts,
    items: Seq<ItemId>,
) -> (at: Seq<int>)
    ensures
        at.len() == items.filter(fitter(s, pool, d)).len(),
        forall|a: int, b: int| 0 <= a < b < at.len() ==> (#[trigger] at[a]) < (#[trigger] at[b]),
        forall|k: int|
            0 <= k < at.len() ==> 0 <= (#[trigger] at[k]) < items.len() && items[at[k]]
                == items.filter(fitter(s, pool, d))[k] && fits(s, pool, items[at[k]], d),
        forall|i: int|
            0 <= i < items.len() && fits(s, pool, #[trigger] items[i], d) ==> at.contains(i),
{
    let p = fitter(s, pool, d);
    let at = kept_places(items, p);
    assert forall|i: int| 0 <= i < items.len() && fits(s, pool, #[trigger] items[i], d) implies
        at.contains(i) by {
        assert(p(items[i]));
    }
    assert forall|k: int| 0 <= k < at.len() implies 0 <= (#[trigger] at[k]) < items.len()
        && items[at[k]] == items.filter(p)[k] && fits(s, pool, items[at[k]], d) by {
        assert(p(items[at[k]]));
    }
    at
}

/// Copying one effect copies just that one; copying all copies all of them as they are.
pub proof fn effects_are_copied_as_they_are(effects: Seq<EffectModel>, only: Option<EffectId>) -> (at:
    Seq<int>)
    ensures
        at.len() == effects.filter(wanted(only)).len(),
        forall|a: int, b: int| 0 <= a < b < at.len() ==> (#[trigger] at[a]) < (#[trigger] at[b]),
        forall|k: int|
            0 <= k < at.len() ==> 0 <= (#[trigger] at[k]) < effects.len() && effects[at[k]]
                == effects.filter(wanted(only))[k] && (only is Some ==> effects[at[k]].id
                == only->0),
        forall|i: int|
            0 <= i < effects.len() && (only is None || (#[trigger] effects[i]).id == only->0)
                ==> at.contains(i),
{
    let p = wanted(only);
    let at = kept_places(effects, p);
    assert forall|k: int| 0 <= k < at.len() implies 0 <= (#[trigger] at[k]) < effects.len()
        && effects[at[k]] == effects.filter(p)[k] && (only is Some ==> effects[at[k]].id
        == only->0) by {
        assert(p(effects[at[k]]));
    }
    assert forall|i: int|
        0 <= i < effects.len() && (only is None || (#[trigger] effects[i]).id == only->0) implies
        at.contains(i) by {
        assert(p(effects[i]));
    }
    at
}

} // verus!
