//! A clip's effects: which lists show them, where they can go, and copying, adding and
//! reordering them — across a multiple selection too.
use crate::doc::{
    find_effect, item_of, place_of, same_params, EffectId, EffectInstance, EffectModel, EffectRole,
    Item, ItemId, ItemKind, ItemModel, Op, OpModel, Sequence, SequenceModel, Time, TrackKind,
    SECOND,
};
use crate::editor::{clip_key, followers, with_media, Editor, PoolItem};
use crate::seqs::{filter_step, first_from, first_is_right, first_where, take_all, views};
use crate::text::{listed, same};
use vstd::prelude::*;

verus! {

// ---- where an effect can go ----

/// What's known of a kind of effect.
#[derive(Copy, Clone, Debug, PartialEq, Eq, Structural)]
pub struct EffectFacts {
    /// Its plugin is there and on.
    pub known: bool,
    /// It's heard rather than seen.
    pub sound: bool,
    /// It only works on titles.
    pub text_only: bool,
    /// It moves its clip.
    pub motion: bool,
    /// It moves its clip in no way but fading it.
    pub fades_only: bool,
    /// It's meant as an intro or outro.
    pub in_out: bool,
}

/// For an effect container: the kind of effect track it's on (what it can hold).
pub open spec fn container_of(s: SequenceModel, item: ItemId) -> Option<TrackKind> {
    match place_of(s, item) {
        Some((t, i)) => if s.tracks[t].effects && s.tracks[t].items[i].kind is Adjustment {
            Some(s.tracks[t].kind)
        } else {
            None
        },
        None => None,
    }
}

/// The clip has a picture.
pub open spec fn visual(s: SequenceModel, pool: Seq<PoolItem>, item: ItemId) -> bool {
    match item_of(s, item) {
        Some(it) => match it.kind {
            ItemKind::Media { media } => match first_where(pool, with_media(media)) {
                Some(p) => pool[p].has_video,
                None => true,
            },
            _ => true,
        },
        None => false,
    }
}

/// The clip is heard.
pub open spec fn audible(s: SequenceModel, pool: Seq<PoolItem>, item: ItemId) -> bool {
    match item_of(s, item) {
        Some(it) => match it.kind {
            ItemKind::Media { media } => it.audio && (first_where(pool, with_media(media)) matches Some(
                p,
            ) && pool[p].has_audio),
            _ => false,
        },
        None => false,
    }
}

/// An effect belongs on a clip: sound effects on clips that play sound, picture effects on
/// clips with a picture (text effects on titles only; the background takes neither motion
/// nor text effects nor intros). A container holds what its effect track runs.
pub open spec fn fits(s: SequenceModel, pool: Seq<PoolItem>, item: ItemId, d: EffectFacts) -> bool {
    match container_of(s, item) {
        Some(TrackKind::Audio) => d.sound,
        Some(TrackKind::Video) => !d.sound && d.known && !d.text_only && (!d.motion
            || d.fades_only),
        None => if d.sound {
            audible(s, pool, item)
        } else {
            d.known && item_of(s, item) is Some && if item == s.background.id {
                !d.text_only && !d.motion && !d.in_out
            } else {
                visual(s, pool, item) && (!d.text_only || item_of(s, item)->0.kind is Text)
            }
        },
    }
}

impl Editor {
    /// For an effect container: the kind of effect track it's on (what it can hold).
    pub fn container_kind(&self, item: ItemId) -> (out: Option<TrackKind>)
        ensures
            out == container_of(self.timeline@, item),
    {
        let s = &self.timeline;
        match s.find_item(item) {
            Some((t, i)) => {
                assert(s@.tracks[t as int] == s.tracks@[t as int]@);
                assert(s@.tracks[t as int].items[i as int] == s.tracks@[t as int].items@[i as int]@);
                if s.tracks[t].effects && matches!(s.tracks[t].items[i].kind, ItemKind::Adjustment) {
                    Some(s.tracks[t].kind)
                } else {
                    None
                }
            },
            None => None,
        }
    }

    /// Whether the clip has a picture.
    pub fn is_visual(&self, item: ItemId) -> (out: bool)
        ensures
            out == visual(self.timeline@, self.pool@, item),
    {
        match self.timeline.item(item) {
            Some(it) => match it.kind {
                ItemKind::Media { media } => match self.pool_item(media) {
                    Some(p) => p.has_video,
                    None => true,
                },
                _ => true,
            },
            None => false,
        }
    }

    /// Whether the clip is heard.
    pub fn is_audible(&self, item: ItemId) -> (out: bool)
        ensures
            out == audible(self.timeline@, self.pool@, item),
    {
        match self.timeline.item(item) {
            Some(it) => match it.kind {
                ItemKind::Media { media } => match self.pool_item(media) {
                    Some(p) => p.has_audio && it.audio,
                    None => false,
                },
                _ => false,
            },
            None => false,
        }
    }

    /// Whether an effect belongs on a clip.
    pub fn effect_fits(&self, item: ItemId, d: EffectFacts) -> (out: bool)
        ensures
            out == fits(self.timeline@, self.pool@, item, d),
    {
        if let Some(kind) = self.container_kind(item) {
            return match kind {
                TrackKind::Audio => d.sound,
                TrackKind::Video => !d.sound && d.known && !d.text_only && (!d.motion
                    || d.fades_only),
            };
        }
        if d.sound {
            return self.is_audible(item);
        }
        if !d.known {
            return false;
        }
        match self.timeline.item(item) {
            None => false,
            Some(it) => {
                if item == self.timeline.background.id {
                    !d.text_only && !d.motion && !d.in_out
                } else {
                    self.is_visual(item) && (!d.text_only || matches!(it.kind, ItemKind::Text))
                }
            },
        }
    }

    /// Those of the clips that the effect belongs on.
    pub fn fitting(&self, items: &Vec<ItemId>, d: EffectFacts) -> (out: Vec<ItemId>)
        ensures
            out@ == items@.filter(fitter(self.timeline@, self.pool@, d)),
    {
        let ghost p = fitter(self.timeline@, self.pool@, d);
        let mut out: Vec<ItemId> = Vec::new();
        let mut i: usize = 0;
        proof {
            take_all(items@);
            reveal_with_fuel(Seq::filter, 1);
        }
        while i < items.len()
            invariant
                p == fitter(self.timeline@, self.pool@, d),
                i <= items@.len(),
                out@ == items@.take(i as int).filter(p),
            decreases items@.len() - i,
        {
            proof {
                filter_step(items@, p, i as int);
            }
            if self.effect_fits(items[i], d) {
                out.push(items[i]);
            }
            i = i + 1;
        }
        proof {
            take_all(items@);
        }
        out
    }
}

pub open spec fn fitter(s: SequenceModel, pool: Seq<PoolItem>, d: EffectFacts) -> spec_fn(
    ItemId,
) -> bool {
    |id: ItemId| fits(s, pool, id, d)
}

/// A sound effect never goes where there's no sound: not on the background, nor on a clip
/// that isn't heard, nor in a picture container.
pub proof fn sound_needs_sound(s: SequenceModel, pool: Seq<PoolItem>, item: ItemId, d: EffectFacts)
    requires
        d.sound,
        fits(s, pool, item, d),
    ensures
        container_of(s, item) == Some(TrackKind::Audio) || audible(s, pool, item),
{
}

// ---- the lists of effect cards ----

/// Which of a clip's effects a list of effect cards shows.
#[derive(Copy, Clone, Debug, PartialEq, Eq, Structural)]
pub enum List {
    /// Passive picture effects.
    Effects,
    /// Sound effects, in any role.
    Sound,
    /// Picture intros.
    Intro,
    /// Picture outros.
    Outro,
}

/// The list shows an effect with the role (`heard`: a sound effect).
pub open spec fn lists(list: List, role: EffectRole, heard: bool) -> bool {
    match list {
        List::Effects => role is Passive && !heard,
        List::Sound => heard,
        List::Intro => role is In && !heard,
        List::Outro => role is Out && !heard,
    }
}

/// Whether the list shows an effect with the role.
pub fn in_list(list: List, role: EffectRole, heard: bool) -> (out: bool)
    ensures
        out == lists(list, role, heard),
{
    match list {
        List::Effects => matches!(role, EffectRole::Passive) && !heard,
        List::Sound => heard,
        List::Intro => matches!(role, EffectRole::In { .. }) && !heard,
        List::Outro => matches!(role, EffectRole::Out { .. }) && !heard,
    }
}

/// No effect is on two lists.
pub proof fn lists_are_apart(a: List, b: List, role: EffectRole, heard: bool)
    requires
        lists(a, role, heard),
        lists(b, role, heard),
    ensures
        a == b,
{
}

/// The list shows the effect; `types` are the effects that are heard.
pub open spec fn shows(list: List, types: Seq<Seq<char>>) -> spec_fn(EffectModel) -> bool {
    |e: EffectModel| lists(list, e.role, types.contains(e.type_id))
}

/// The places of a clip's effects that the list shows.
pub open spec fn shown_places(
    effects: Seq<EffectModel>,
    list: List,
    types: Seq<Seq<char>>,
    n: int,
) -> Seq<int>
    decreases n,
{
    if n <= 0 {
        Seq::empty()
    } else {
        let before = shown_places(effects, list, types, n - 1);
        if shows(list, types)(effects[n - 1]) {
            before.push(n - 1)
        } else {
            before
        }
    }
}

/// The places of a clip's effects that the list shows, in order.
pub fn shown(effects: &Vec<EffectInstance>, list: List, types: &Vec<String>) -> (out: Vec<usize>)
    ensures
        out@.len() == shown_places(
            views(effects@),
            list,
            views(types@),
            effects@.len() as int,
        ).len(),
        forall|k: int|
            0 <= k < out@.len() ==> (#[trigger] out@[k]) as int == shown_places(
                views(effects@),
                list,
                views(types@),
                effects@.len() as int,
            )[k] && out@[k] < effects@.len() && shows(list, views(types@))(
                effects@[out@[k] as int]@,
            ),
        forall|i: int, j: int| 0 <= i < j < out@.len() ==> (#[trigger] out@[i]) < (#[trigger] out@[j]),
{
    let ghost all = views(effects@);
    let ghost heard = views(types@);
    let mut out: Vec<usize> = Vec::new();
    let mut i: usize = 0;
    while i < effects.len()
        invariant
            all == views(effects@),
            heard == views(types@),
            i <= effects@.len(),
            out@.len() == shown_places(all, list, heard, i as int).len(),
            forall|k: int|
                0 <= k < out@.len() ==> (#[trigger] out@[k]) as int == shown_places(
                    all,
                    list,
                    heard,
                    i as int,
                )[k] && out@[k] < i && shows(list, heard)(effects@[out@[k] as int]@),
            forall|a: int, b: int|
                0 <= a < b < out@.len() ==> (#[trigger] out@[a]) < (#[trigger] out@[b]),
        decreases effects@.len() - i,
    {
        assert(all[i as int] == effects@[i as int]@);
        let heard_one = listed(types, effects[i].type_id.as_str());
        if in_list(list, effects[i].role, heard_one) {
            out.push(i);
        }
        i = i + 1;
    }
    out
}

/// A card has the key.
pub open spec fn has_key(
    s: SequenceModel,
    cards: Seq<(ItemId, EffectId)>,
    key: Option<(Seq<char>, nat)>,
) -> bool {
    exists|k: int|
        0 <= k < cards.len() && clip_key(s, (#[trigger] cards[k]).0, cards[k].1) == key
}

/// The cards, with those of the first `n` of clip `other`'s effects that the list shows and
/// that none of the cards stands for yet.
pub open spec fn with_effects(
    s: SequenceModel,
    cards: Seq<(ItemId, EffectId)>,
    other: ItemId,
    effects: Seq<EffectModel>,
    list: List,
    types: Seq<Seq<char>>,
    n: int,
) -> Seq<(ItemId, EffectId)>
    decreases n,
{
    if n <= 0 {
        cards
    } else {
        let before = with_effects(s, cards, other, effects, list, types, n - 1);
        let e = effects[n - 1];
        if shows(list, types)(e) && !has_key(s, before, clip_key(s, other, e.id)) {
            before.push((other, e.id))
        } else {
            before
        }
    }
}

/// The cards, with those of the clips `peers`.
pub open spec fn with_peers(
    s: SequenceModel,
    cards: Seq<(ItemId, EffectId)>,
    peers: Seq<ItemId>,
    list: List,
    types: Seq<Seq<char>>,
) -> Seq<(ItemId, EffectId)>
    decreases peers.len(),
{
    if peers.len() == 0 {
        cards
    } else {
        let before = with_peers(s, cards, peers.drop_last(), list, types);
        match item_of(s, peers.last()) {
            Some(o) => with_effects(
                s,
                before,
                peers.last(),
                o.effects,
                list,
                types,
                o.effects.len() as int,
            ),
            None => before,
        }
    }
}

/// A clip's own cards.
pub open spec fn own_cards(
    item: ItemId,
    effects: Seq<EffectModel>,
    list: List,
    types: Seq<Seq<char>>,
) -> Seq<(ItemId, EffectId)> {
    let places = shown_places(effects, list, types, effects.len() as int);
    Seq::new(places.len(), |k: int| (item, effects[places[k]].id))
}

/// The outro list stands for the reversed intro.
pub open spec fn reversing(it: ItemModel, list: List) -> bool {
    list is Outro && it.outro_reverses_intro
}

/// The cards a list shows for a clip: its own effects first, then those the linked clips
/// have and it doesn't. None while the outro is the reversed intro.
pub open spec fn cards_of(
    s: SequenceModel,
    linked: Seq<ItemId>,
    item: ItemId,
    list: List,
    types: Seq<Seq<char>>,
) -> Seq<(ItemId, EffectId)> {
    match item_of(s, item) {
        None => Seq::empty(),
        Some(it) => if reversing(it, list) {
            Seq::empty()
        } else {
            with_peers(
                s,
                own_cards(item, it.effects, list, types),
                followers(linked, item),
                list,
                types,
            )
        },
    }
}

/// The two keys are the same.
fn same_key(a: &Option<(String, usize)>, b: &Option<(String, usize)>) -> (out: bool)
    ensures
        out == match (a, b) {
            (Some(x), Some(y)) => x.0@ == y.0@ && x.1 == y.1,
            (None, None) => true,
            _ => false,
        },
{
    match (a, b) {
        (Some(x), Some(y)) => x.1 == y.1 && same(x.0.as_str(), y.0.as_str()),
        (None, None) => true,
        _ => false,
    }
}

impl Editor {
    fn card_has_key(&self, cards: &Vec<(ItemId, EffectId)>, key: &Option<(String, usize)>) -> (out:
        bool)
        ensures
            out == has_key(
                self.timeline@,
                cards@,
                match key {
                    Some(x) => Some((x.0@, x.1 as nat)),
                    None => None,
                },
            ),
    {
        let ghost want = match key {
            Some(x) => Some((x.0@, x.1 as nat)),
            None => None,
        };
        let mut i: usize = 0;
        while i < cards.len()
            invariant
                want == (match key {
                    Some(x) => Some((x.0@, x.1 as nat)),
                    None => None,
                }),
                i <= cards@.len(),
                forall|k: int|
                    0 <= k < i ==> clip_key(
                        self.timeline@,
                        (#[trigger] cards@[k]).0,
                        cards@[k].1,
                    ) != want,
            decreases cards@.len() - i,
        {
            let theirs = self.effect_key(cards[i].0, cards[i].1);
            if same_key(&theirs, key) {
                assert(clip_key(self.timeline@, cards@[i as int].0, cards@[i as int].1) == want);
                return true;
            }
            i = i + 1;
        }
        false
    }

    /// The cards of a list of effects: whose effect each is. With several clips selected
    /// they're every effect any of them has — this clip's first, then the others' it
    /// doesn't have. `types` are the effects that are heard.
    pub fn cards(&self, item: ItemId, list: List, types: &Vec<String>) -> (out: Vec<
        (ItemId, EffectId),
    >)
        ensures
            out@ == cards_of(self.timeline@, self.linked@, item, list, views(types@)),
    {
        let s = &self.timeline;
        let ghost heard = views(types@);
        let mut out: Vec<(ItemId, EffectId)> = Vec::new();
        let found = s.item(item);
        if found.is_none() {
            assert(out@ =~= cards_of(s@, self.linked@, item, list, heard));
            return out;
        }
        let it = found.unwrap();
        if matches!(list, List::Outro) && it.outro_reverses_intro {
            assert(out@ =~= cards_of(s@, self.linked@, item, list, heard));
            return out;
        }
        let places = shown(&it.effects, list, types);
        let ghost own = own_cards(item, it@.effects, list, heard);
        let mut i: usize = 0;
        while i < places.len()
            invariant
                own == own_cards(item, it@.effects, list, heard),
                places@.len() == own.len(),
                forall|k: int|
                    0 <= k < places@.len() ==> (#[trigger] places@[k]) < it.effects@.len() && own[k]
                        == (item, it@.effects[places@[k] as int].id),
                i <= places@.len(),
                out@ == own.take(i as int),
            decreases places@.len() - i,
        {
            assert(it@.effects[places@[i as int] as int] == it.effects@[places@[i as int] as int]@);
            out.push((item, it.effects[places[i]].id));
            i = i + 1;
            assert(out@ =~= own.take(i as int));
        }
        assert(own.take(i as int) =~= own);
        let peers = self.followers(item);
        let mut j: usize = 0;
        proof {
            take_all(peers@);
        }
        while j < peers.len()
            invariant
                s == &self.timeline,
                heard == views(types@),
                j <= peers@.len(),
                out@ == with_peers(s@, own, peers@.take(j as int), list, heard),
            decreases peers@.len() - j,
        {
            let other = peers[j];
            assert(peers@.take(j + 1).drop_last() =~= peers@.take(j as int));
            assert(peers@.take(j + 1).last() == other);
            if let Some(o) = s.item(other) {
                let ghost before = out@;
                let mut k: usize = 0;
                while k < o.effects.len()
                    invariant
                        s == &self.timeline,
                        heard == views(types@),
                        item_of(s@, other) == Some(o@),
                        k <= o.effects@.len(),
                        out@ == with_effects(s@, before, other, o@.effects, list, heard, k as int),
                    decreases o.effects@.len() - k,
                {
                    let e = &o.effects[k];
                    assert(o@.effects[k as int] == o.effects@[k as int]@);
                    let heard_one = listed(types, e.type_id.as_str());
                    if in_list(list, e.role, heard_one) {
                        let key = self.effect_key(other, e.id);
                        if !self.card_has_key(&out, &key) {
                            out.push((other, e.id));
                        }
                    }
                    k = k + 1;
                }
            }
            j = j + 1;
        }
        proof {
            take_all(peers@);
        }
        out
    }
}

/// Cards no two of which stand for the same effect.
pub open spec fn keys_differ(s: SequenceModel, cards: Seq<(ItemId, EffectId)>) -> bool {
    forall|a: int, b: int|
        0 <= a < b < cards.len() ==> clip_key(s, (#[trigger] cards[a]).0, cards[a].1) != clip_key(
            s,
            (#[trigger] cards[b]).0,
            cards[b].1,
        )
}

/// An effect of several selected clips gets one card: if the clip's own cards stand for
/// different effects, so do all of them.
pub proof fn one_card_for_each_effect(
    s: SequenceModel,
    own: Seq<(ItemId, EffectId)>,
    peers: Seq<ItemId>,
    list: List,
    types: Seq<Seq<char>>,
)
    requires
        keys_differ(s, own),
    ensures
        keys_differ(s, with_peers(s, own, peers, list, types)),
    decreases peers.len(),
{
    if peers.len() > 0 {
        one_card_for_each_effect(s, own, peers.drop_last(), list, types);
        let before = with_peers(s, own, peers.drop_last(), list, types);
        if item_of(s, peers.last()) is Some {
            let o = item_of(s, peers.last())->0;
            effects_add_new_keys(
                s,
                before,
                peers.last(),
                o.effects,
                list,
                types,
                o.effects.len() as int,
            );
        }
    }
}

proof fn effects_add_new_keys(
    s: SequenceModel,
    cards: Seq<(ItemId, EffectId)>,
    other: ItemId,
    effects: Seq<EffectModel>,
    list: List,
    types: Seq<Seq<char>>,
    n: int,
)
    requires
        keys_differ(s, cards),
    ensures
        keys_differ(s, with_effects(s, cards, other, effects, list, types, n)),
    decreases n,
{
    if n > 0 {
        effects_add_new_keys(s, cards, other, effects, list, types, n - 1);
    }
}

// ---- reordering ----

/// Where the effect shown `from`-th goes when it's dropped before the one shown `slot`-th (or
/// past the last), if it moves at all.
pub open spec fn dropped_at(positions: Seq<usize>, from: int, slot: int) -> Option<int> {
    if from >= positions.len() || slot == from || slot == from + 1 || (slot >= positions.len()
        && from == positions.len() - 1) {
        None
    } else {
        let at = if slot < positions.len() {
            positions[slot] as int
        } else {
            positions.last() + 1
        };
        Some(
            if positions[from] < at {
                at - 1
            } else {
                at
            },
        )
    }
}

/// Dragging the effect shown `from`-th to before the one shown `slot`-th (or past the
/// last): its new index in the clip's whole effect list, counted after taking it out.
/// `positions` are the shown effects' indices in that list (other kinds sit between).
/// `None` when it wouldn't move.
pub fn move_target(positions: &Vec<usize>, from: usize, slot: usize) -> (out: Option<usize>)
    requires
        forall|k: int| 0 <= k < positions@.len() ==> (#[trigger] positions@[k]) < usize::MAX,
    ensures
        match out {
            Some(at) => dropped_at(positions@, from as int, slot as int) == Some(at as int),
            None => dropped_at(positions@, from as int, slot as int) is None,
        },
{
    let n: usize = positions.len();
    if from >= n || slot == from || (slot > 0 && slot - 1 == from) || (slot >= n && from == n
        - 1) {
        return None;
    }
    let src: usize = positions[from];
    let at: usize = if slot < n {
        positions[slot]
    } else {
        assert(positions@[n - 1] < usize::MAX);
        positions[n - 1] + 1
    };
    Some(
        if src < at {
            at - 1
        } else {
            at
        },
    )
}

/// A dragged effect lands where it was dropped, which is another place than it had: just
/// before the effect shown there, or just after the last one shown; everything else keeps its
/// order.
pub proof fn dragging_lands_it_there<T>(list: Seq<T>, positions: Seq<usize>, from: int, slot: int)
    requires
        0 <= from < positions.len(),
        0 <= slot,
        forall|k: int| 0 <= k < positions.len() ==> (#[trigger] positions[k]) < list.len(),
        forall|a: int, b: int|
            0 <= a < b < positions.len() ==> (#[trigger] positions[a]) < (#[trigger] positions[b]),
        dropped_at(positions, from, slot) is Some,
    ensures
        ({
            let src = positions[from] as int;
            let at = dropped_at(positions, from, slot)->0;
            let rest = list.remove(src);
            let after = rest.insert(at, list[src]);
            &&& 0 <= at <= rest.len()
            &&& at != src
            &&& after[at] == list[src]
            &&& slot < positions.len() ==> at + 1 < after.len() && after[at + 1]
                == list[positions[slot] as int]
            &&& slot >= positions.len() ==> at > 0 && after[at - 1]
                == list[positions.last() as int]
            &&& after.remove(at) == rest
        }),
{
    let src = positions[from] as int;
    let at = dropped_at(positions, from, slot)->0;
    let rest = list.remove(src);
    let last = positions.len() - 1;
    if from < last {
        assert(positions[from] < positions[last]);
    }
    if slot < positions.len() {
        if slot < from {
            assert(positions[slot] < positions[from]);
        } else {
            assert(positions[from] < positions[from + 1]);
            assert(positions[from + 1] < positions[slot]);
        }
    }
    list.remove_ensures(src);
    rest.insert_ensures(at, list[src]);
    let after = rest.insert(at, list[src]);
    assert(after.remove(at) =~= rest);
}

/// The changes that move a clip's effect to another place among them.
pub fn reorder(s: &Sequence, item: ItemId, from: usize, to: usize) -> (out: Vec<Op>)
    ensures
        views(out@) == match item_of(s@, item) {
            Some(it) => if from < it.effects.len() {
                seq![
                    OpModel::RemoveEffect { seq: s@.id, item, effect: it.effects[from as int].id },
                    OpModel::InsertEffect {
                        seq: s@.id,
                        item,
                        index: to,
                        effect: it.effects[from as int],
                    },
                ]
            } else {
                Seq::<OpModel>::empty()
            },
            None => Seq::<OpModel>::empty(),
        },
{
    let mut out: Vec<Op> = Vec::new();
    assert(views(out@) =~= Seq::<OpModel>::empty());
    if let Some(it) = s.item(item) {
        if from < it.effects.len() {
            assert(it@.effects[from as int] == it.effects@[from as int]@);
            out.push(Op::RemoveEffect { seq: s.id, item, effect: it.effects[from].id });
            out.push(
                Op::InsertEffect { seq: s.id, item, index: to, effect: it.effects[from].copy() },
            );
            assert(views(out@) =~= seq![
                OpModel::RemoveEffect { seq: s@.id, item, effect: it@.effects[from as int].id },
                OpModel::InsertEffect {
                    seq: s@.id,
                    item,
                    index: to,
                    effect: it@.effects[from as int],
                },
            ]);
        }
    }
    out
}

// ---- adding and copying ----

/// Half a second: how long a new intro or outro plays.
pub const HALF: i64 = 352_800_000;

/// The role a new effect of a list gets on a clip `length` long: an intro or outro as long
/// as the last one (`last`), else half a second; sound fades and the like start out as an
/// intro of a second. Never longer than the clip.
pub open spec fn new_role(list: List, last: Option<Time>, sound_in_out: bool, length: Time) -> EffectRole {
    let time = match last {
        Some(d) => d,
        None => Time(HALF),
    };
    match list {
        List::Intro => EffectRole::In { duration: time.spec_least(length) },
        List::Outro => EffectRole::Out { duration: time.spec_least(length) },
        List::Sound => if sound_in_out {
            EffectRole::In { duration: Time(SECOND).spec_least(length) }
        } else {
            EffectRole::Passive
        },
        List::Effects => EffectRole::Passive,
    }
}

fn role_for(list: List, last: Option<Time>, sound_in_out: bool, length: Time) -> (out: EffectRole)
    ensures
        out == new_role(list, last, sound_in_out, length),
{
    let time = match last {
        Some(d) => d,
        None => Time(HALF),
    };
    match list {
        List::Intro => EffectRole::In { duration: time.least(length) },
        List::Outro => EffectRole::Out { duration: time.least(length) },
        List::Sound => {
            if sound_in_out {
                EffectRole::In { duration: Time(SECOND).least(length) }
            } else {
                EffectRole::Passive
            }
        },
        List::Effects => EffectRole::Passive,
    }
}

pub open spec fn is_passive() -> spec_fn(EffectModel) -> bool {
    |e: EffectModel| e.role is Passive
}

/// Where an effect with the role goes: intros and outros after the clip's others, before
/// its passive effects (so those see the clip as it arrives); everything else at the end.
pub open spec fn place_for(effects: Seq<EffectModel>, role: EffectRole) -> int {
    if role is Passive {
        effects.len() as int
    } else {
        match first_where(effects, is_passive()) {
            Some(i) => i,
            None => effects.len() as int,
        }
    }
}

fn insert_place(effects: &Vec<EffectInstance>, role: EffectRole) -> (out: usize)
    ensures
        out == place_for(views(effects@), role),
        out <= effects@.len(),
{
    if matches!(role, EffectRole::Passive) {
        return effects.len();
    }
    let mut i: usize = 0;
    while i < effects.len()
        invariant
            !(role is Passive),
            i <= effects@.len(),
            first_where(views(effects@), is_passive()) == first_from(
                views(effects@),
                is_passive(),
                i as int,
            ),
        decreases effects@.len() - i,
    {
        assert(views(effects@)[i as int] == effects@[i as int]@);
        if matches!(effects[i].role, EffectRole::Passive) {
            return i;
        }
        i = i + 1;
    }
    effects.len()
}

/// The changes that add an effect to the first `n` of the clips; the `k`-th change's effect
/// gets the `k`-th fresh id.
pub open spec fn adds(
    s: SequenceModel,
    targets: Seq<ItemId>,
    list: List,
    type_id: Seq<char>,
    last: Option<Time>,
    sound_in_out: bool,
    fresh: Seq<u64>,
    n: int,
) -> Seq<OpModel>
    decreases n,
{
    if n <= 0 {
        Seq::empty()
    } else {
        let before = adds(s, targets, list, type_id, last, sound_in_out, fresh, n - 1);
        match item_of(s, targets[n - 1]) {
            None => before,
            Some(it) => {
                let role = new_role(list, last, sound_in_out, it.range.duration);
                before.push(
                    OpModel::InsertEffect {
                        seq: s.id,
                        item: targets[n - 1],
                        index: place_for(it.effects, role) as usize,
                        effect: EffectModel {
                            id: EffectId(fresh[before.len() as int]),
                            type_id,
                            enabled: true,
                            role,
                            params: Seq::empty(),
                        },
                    },
                )
            },
        }
    }
}

/// The changes that add an effect of a list to each of the clips (`Editor::fitting`).
/// `last` is how long the list's last effect plays, if it's an intro or outro.
pub fn add_effect(
    s: &Sequence,
    targets: &Vec<ItemId>,
    list: List,
    type_id: &str,
    last: Option<Time>,
    sound_in_out: bool,
    fresh: &Vec<u64>,
) -> (out: Vec<Op>)
    requires
        fresh@.len() >= targets@.len(),
    ensures
        views(out@) == adds(
            s@,
            targets@,
            list,
            type_id@,
            last,
            sound_in_out,
            fresh@,
            targets@.len() as int,
        ),
{
    let mut out: Vec<Op> = Vec::new();
    let mut i: usize = 0;
    assert(views(out@) =~= Seq::<OpModel>::empty());
    while i < targets.len()
        invariant
            fresh@.len() >= targets@.len(),
            i <= targets@.len(),
            out@.len() <= i,
            views(out@) == adds(
                s@,
                targets@,
                list,
                type_id@,
                last,
                sound_in_out,
                fresh@,
                i as int,
            ),
        decreases targets@.len() - i,
    {
        if let Some(it) = s.item(targets[i]) {
            let role = role_for(list, last, sound_in_out, it.range.duration);
            let index: usize = insert_place(&it.effects, role);
            let effect = EffectInstance {
                id: EffectId(fresh[out.len()]),
                type_id: type_id.to_owned(),
                enabled: true,
                role,
                params: Vec::new(),
            };
            assert(effect@.params =~= Seq::empty());
            let ghost had = out@;
            assert(views(had).len() == had.len());
            out.push(Op::InsertEffect { seq: s.id, item: targets[i], index, effect });
            assert(views(out@) =~= views(had).push(out@.last()@));
        }
        i = i + 1;
    }
    out
}

/// How long the last effect the list shows of the clip plays, if it's an intro or outro.
pub open spec fn last_length(it: ItemModel, list: List, types: Seq<Seq<char>>) -> Option<Time> {
    let places = shown_places(it.effects, list, types, it.effects.len() as int);
    if reversing(it, list) || places.len() == 0 {
        None
    } else {
        match it.effects[places.last()].role {
            EffectRole::In { duration } => Some(duration),
            EffectRole::Out { duration } => Some(duration),
            _ => None,
        }
    }
}

/// How long the last effect the list shows of the clip plays, if it's an intro or outro.
pub fn last_shown_length(it: &Item, list: List, types: &Vec<String>) -> (out: Option<Time>)
    ensures
        out == last_length(it@, list, views(types@)),
{
    let places = shown(&it.effects, list, types);
    let n: usize = places.len();
    if n == 0 || (matches!(list, List::Outro) && it.outro_reverses_intro) {
        return None;
    }
    assert(it@.effects[places@[n - 1] as int] == it.effects@[places@[n - 1] as int]@);
    match it.effects[places[n - 1]].role {
        EffectRole::In { duration } => Some(duration),
        EffectRole::Out { duration } => Some(duration),
        _ => None,
    }
}

impl Editor {
    /// Adds an effect from one of clip `item`'s lists to each of `targets` it fits (`d`: what's
    /// known of it): an intro or outro plays as long as the last one of the list. The
    /// changes, and how many clips it goes on.
    pub fn add_from_list(
        &self,
        item: ItemId,
        list: List,
        type_id: &str,
        d: EffectFacts,
        targets: &Vec<ItemId>,
        types: &Vec<String>,
        fresh: &Vec<u64>,
    ) -> (out: (Vec<Op>, usize))
        requires
            fresh@.len() >= targets@.len(),
        ensures
            match item_of(self.timeline@, item) {
                Some(it) => {
                    let on = targets@.filter(fitter(self.timeline@, self.pool@, d));
                    &&& views(out.0@) == adds(
                        self.timeline@,
                        on,
                        list,
                        type_id@,
                        last_length(it, list, views(types@)),
                        list is Sound && d.known && d.in_out,
                        fresh@,
                        on.len() as int,
                    )
                    &&& out.1 == on.len()
                },
                None => out.0@.len() == 0 && out.1 == 0,
            },
    {
        match self.timeline.item(item) {
            Some(it) => {
                let last = last_shown_length(it, list, types);
                let on = self.fitting(targets, d);
                proof {
                    targets@.lemma_filter_len(fitter(self.timeline@, self.pool@, d));
                }
                let n: usize = on.len();
                (
                    add_effect(
                        &self.timeline,
                        &on,
                        list,
                        type_id,
                        last,
                        matches!(list, List::Sound) && d.known && d.in_out,
                        fresh,
                    ),
                    n,
                )
            },
            None => (Vec::new(), 0),
        }
    }
}

/// The two play at the same time: both passive, both intros, both outros.
pub open spec fn alike(a: EffectRole, b: EffectRole) -> bool {
    match a {
        EffectRole::Passive => b is Passive,
        EffectRole::In { .. } => b is In,
        EffectRole::Out { .. } => b is Out,
        EffectRole::Reversed { .. } => b is Reversed,
    }
}

fn same_role(a: EffectRole, b: EffectRole) -> (out: bool)
    ensures
        out == alike(a, b),
{
    match a {
        EffectRole::Passive => matches!(b, EffectRole::Passive),
        EffectRole::In { .. } => matches!(b, EffectRole::In { .. }),
        EffectRole::Out { .. } => matches!(b, EffectRole::Out { .. }),
        EffectRole::Reversed { .. } => matches!(b, EffectRole::Reversed { .. }),
    }
}

/// One of the same kind in the same role.
pub open spec fn matching(effect: EffectModel) -> spec_fn(EffectModel) -> bool {
    |e: EffectModel| e.type_id == effect.type_id && alike(e.role, effect.role)
}

/// It has the settings, timing and switch of `effect` already.
pub open spec fn is_like(existing: EffectModel, effect: EffectModel) -> bool {
    existing.params == effect.params && existing.role == effect.role && existing.enabled
        == effect.enabled
}

/// What putting a copy of `effect` on clip `it` asks for: a clip that already has one of the
/// same kind in the same role gets these settings instead of a second one.
pub open spec fn put_copy(s: SequenceModel, it: ItemModel, item: ItemId, effect: EffectModel, fresh: u64) -> Seq<
    OpModel,
> {
    match first_where(it.effects, matching(effect)) {
        Some(i) => {
            let existing = it.effects[i];
            if is_like(existing, effect) {
                Seq::empty()
            } else {
                seq![
                    OpModel::RemoveEffect { seq: s.id, item, effect: existing.id },
                    OpModel::InsertEffect {
                        seq: s.id,
                        item,
                        index: i as usize,
                        effect: EffectModel {
                            params: effect.params,
                            role: effect.role,
                            enabled: effect.enabled,
                            ..existing
                        },
                    },
                ]
            }
        },
        None => seq![
            OpModel::InsertEffect {
                seq: s.id,
                item,
                index: place_for(it.effects, effect.role) as usize,
                effect: EffectModel { id: EffectId(fresh), ..effect },
            },
        ],
    }
}

/// The changes for the first `n` of the clips, and how many of them change.
pub open spec fn put_copies(
    s: SequenceModel,
    targets: Seq<ItemId>,
    effect: EffectModel,
    fresh: Seq<u64>,
    n: int,
) -> (Seq<OpModel>, nat)
    decreases n,
{
    if n <= 0 {
        (Seq::empty(), 0)
    } else {
        let before = put_copies(s, targets, effect, fresh, n - 1);
        match item_of(s, targets[n - 1]) {
            None => before,
            Some(it) => {
                let here = put_copy(s, it, targets[n - 1], effect, fresh[n - 1]);
                (
                    before.0 + here,
                    if here.len() > 0 {
                        before.1 + 1
                    } else {
                        before.1
                    },
                )
            },
        }
    }
}

fn copy_onto(s: &Sequence, it: &Item, item: ItemId, effect: &EffectInstance, fresh: u64) -> (out: Vec<
    Op,
>)
    ensures
        views(out@) == put_copy(s@, it@, item, effect@, fresh),
{
    let ghost p = matching(effect@);
    let ghost all = views(it.effects@);
    let mut out: Vec<Op> = Vec::new();
    assert(views(out@) =~= Seq::<OpModel>::empty());
    let mut i: usize = 0;
    while i < it.effects.len()
        invariant
            p == matching(effect@),
            all == views(it.effects@),
            i <= it.effects@.len(),
            out@.len() == 0,
            views(out@) == Seq::<OpModel>::empty(),
            first_where(all, p) == first_from(all, p, i as int),
        decreases it.effects@.len() - i,
    {
        let existing = &it.effects[i];
        assert(all[i as int] == it.effects@[i as int]@);
        if same(existing.type_id.as_str(), effect.type_id.as_str()) && same_role(
            existing.role,
            effect.role,
        ) {
            if same_params(&existing.params, &effect.params) && existing.role == effect.role
                && existing.enabled == effect.enabled {
                return out;
            }
            let mut updated = effect.copy();
            updated.id = existing.id;
            out.push(Op::RemoveEffect { seq: s.id, item, effect: existing.id });
            out.push(Op::InsertEffect { seq: s.id, item, index: i, effect: updated });
            assert(views(out@) =~= put_copy(s@, it@, item, effect@, fresh));
            return out;
        }
        i = i + 1;
    }
    let index: usize = insert_place(&it.effects, effect.role);
    let mut copy = effect.copy();
    copy.id = EffectId(fresh);
    out.push(Op::InsertEffect { seq: s.id, item, index, effect: copy });
    assert(views(out@) =~= put_copy(s@, it@, item, effect@, fresh));
    out
}

/// Puts a copy of `effect` (its settings and role) on each of the clips
/// (`Editor::fitting`): a clip that already has one of the same kind in the same role gets
/// these settings instead of a second one. The changes, and how many clips change.
pub fn put_on_each(
    s: &Sequence,
    effect: &EffectInstance,
    targets: &Vec<ItemId>,
    fresh: &Vec<u64>,
) -> (out: (Vec<Op>, usize))
    requires
        fresh@.len() >= targets@.len(),
    ensures
        views(out.0@) == put_copies(s@, targets@, effect@, fresh@, targets@.len() as int).0,
        out.1 == put_copies(s@, targets@, effect@, fresh@, targets@.len() as int).1,
{
    let mut ops: Vec<Op> = Vec::new();
    let mut changed: usize = 0;
    let mut i: usize = 0;
    assert(views(ops@) =~= Seq::<OpModel>::empty());
    while i < targets.len()
        invariant
            fresh@.len() >= targets@.len(),
            i <= targets@.len(),
            changed <= i,
            views(ops@) == put_copies(s@, targets@, effect@, fresh@, i as int).0,
            changed == put_copies(s@, targets@, effect@, fresh@, i as int).1,
        decreases targets@.len() - i,
    {
        if let Some(it) = s.item(targets[i]) {
            let mut here = copy_onto(s, it, targets[i], effect, fresh[i]);
            let ghost had = ops@;
            let ghost got = here@;
            assert(views(got).len() == got.len());
            if here.len() > 0 {
                changed = changed + 1;
            }
            ops.append(&mut here);
            assert(views(ops@) =~= views(had) + views(got));
        }
        i = i + 1;
    }
    (ops, changed)
}

impl Editor {
    /// Puts a copy of `effect` on each of `items` it fits (`d`: what's known of it). The
    /// changes, and how many clips change.
    pub fn apply_effect_to(
        &self,
        effect: &EffectInstance,
        d: EffectFacts,
        items: &Vec<ItemId>,
        fresh: &Vec<u64>,
    ) -> (out: (Vec<Op>, usize))
        requires
            fresh@.len() >= items@.len(),
        ensures
            ({
                let targets = items@.filter(fitter(self.timeline@, self.pool@, d));
                let done = put_copies(
                    self.timeline@,
                    targets,
                    effect@,
                    fresh@,
                    targets.len() as int,
                );
                views(out.0@) == done.0 && out.1 == done.1
            }),
    {
        let targets = self.fitting(items, d);
        proof {
            items@.lemma_filter_len(fitter(self.timeline@, self.pool@, d));
        }
        put_on_each(&self.timeline, effect, &targets, fresh)
    }
}

/// The clip's effects once the changes that `put_copy` asks for are made.
pub open spec fn with_copy(effects: Seq<EffectModel>, effect: EffectModel, fresh: u64) -> Seq<EffectModel> {
    match first_where(effects, matching(effect)) {
        Some(i) => effects.remove(i).insert(
            i,
            EffectModel {
                params: effect.params,
                role: effect.role,
                enabled: effect.enabled,
                ..effects[i]
            },
        ),
        None => effects.insert(
            place_for(effects, effect.role),
            EffectModel { id: EffectId(fresh), ..effect },
        ),
    }
}

/// Applying an effect again, once a clip has it, changes nothing.
pub proof fn applying_again_changes_nothing(
    s: SequenceModel,
    it: ItemModel,
    item: ItemId,
    effect: EffectModel,
    fresh: u64,
    again: u64,
)
    ensures
        put_copy(
            s,
            ItemModel { effects: with_copy(it.effects, effect, fresh), ..it },
            item,
            effect,
            again,
        ).len() == 0,
{
    let had = it.effects;
    let now = with_copy(had, effect, fresh);
    let p = matching(effect);
    first_is_right(had, p, 0);
    first_is_right(had, is_passive(), 0);
    first_is_right(now, p, 0);
    let at = match first_where(had, p) {
        Some(i) => i,
        None => place_for(had, effect.role),
    };
    assert(0 <= at <= had.len());
    assert(now[at].type_id == effect.type_id && now[at].role == effect.role);
    assert(p(now[at]));
    assert forall|k: int| 0 <= k < at implies !p(#[trigger] now[k]) by {
        assert(now[k] == had[k]);
        assert(!p(had[k]));
    }
    assert(first_where(now, p) == Some(at));
    assert(is_like(now[at], effect));
}

/// What's been copied: a clip's effects, and (all of them copied) whether its outro is its
/// intro reversed.
pub struct EffectClipboard {
    pub effects: Vec<EffectInstance>,
    pub reverse: Option<bool>,
}

/// The effect asked for, or any.
pub open spec fn wanted(only: Option<EffectId>) -> spec_fn(EffectModel) -> bool {
    |e: EffectModel|
        match only {
            Some(id) => e.id == id,
            None => true,
        }
}

/// Copies one of a clip's effects, or (`None`) all of them.
pub fn copy_effects(it: &Item, only: Option<EffectId>) -> (out: EffectClipboard)
    ensures
        views(out.effects@) == it@.effects.filter(wanted(only)),
        out.reverse == if only is None {
            Some(it@.outro_reverses_intro)
        } else {
            None
        },
{
    let ghost all = it@.effects;
    let ghost p = wanted(only);
    let mut effects: Vec<EffectInstance> = Vec::new();
    let mut i: usize = 0;
    proof {
        take_all(all);
        reveal_with_fuel(Seq::filter, 1);
        assert(views(effects@) =~= Seq::<EffectModel>::empty());
    }
    while i < it.effects.len()
        invariant
            all == views(it.effects@),
            p == wanted(only),
            i <= it.effects@.len(),
            views(effects@) == all.take(i as int).filter(p),
        decreases it.effects@.len() - i,
    {
        proof {
            filter_step(all, p, i as int);
            assert(all[i as int] == it.effects@[i as int]@);
        }
        let take = match only {
            Some(id) => it.effects[i].id == id,
            None => true,
        };
        if take {
            let ghost had = effects@;
            effects.push(it.effects[i].copy());
            assert(views(effects@) =~= views(had).push(effects@.last()@));
        }
        i = i + 1;
    }
    proof {
        take_all(all);
    }
    let reverse = match only {
        Some(_) => None,
        None => Some(it.outro_reverses_intro),
    };
    EffectClipboard { effects, reverse }
}

/// The copies of the copied effects that go on clip `item`, after its own `n`; `base` is
/// where their fresh ids begin.
pub open spec fn pasted(
    s: SequenceModel,
    item: ItemId,
    n: int,
    effects: Seq<EffectModel>,
    fresh: Seq<u64>,
    base: int,
) -> Seq<OpModel> {
    Seq::new(
        effects.len(),
        |k: int|
            OpModel::InsertEffect {
                seq: s.id,
                item,
                index: (n + k) as usize,
                effect: EffectModel { id: EffectId(fresh[base + k]), ..effects[k] },
            },
    )
}

/// What pasting asks for on one clip.
pub open spec fn paste_one(
    s: SequenceModel,
    it: ItemModel,
    item: ItemId,
    effects: Seq<EffectModel>,
    reverse: Option<bool>,
    fresh: Seq<u64>,
    base: int,
) -> Seq<OpModel> {
    let own = pasted(s, item, it.effects.len() as int, effects, fresh, base);
    match reverse {
        Some(on) => if it.outro_reverses_intro != on && item != s.background.id {
            seq![OpModel::SetReverseIntro { seq: s.id, item, on }] + own
        } else {
            own
        },
        None => own,
    }
}

/// What pasting asks for on the first `n` of the clips, and how many fresh ids it takes.
pub open spec fn pastes(
    s: SequenceModel,
    items: Seq<ItemId>,
    effects: Seq<EffectModel>,
    reverse: Option<bool>,
    fresh: Seq<u64>,
    n: int,
) -> (Seq<OpModel>, int)
    decreases n,
{
    if n <= 0 {
        (Seq::empty(), 0)
    } else {
        let before = pastes(s, items, effects, reverse, fresh, n - 1);
        match item_of(s, items[n - 1]) {
            None => before,
            Some(it) => (
                before.0 + paste_one(s, it, items[n - 1], effects, reverse, fresh, before.1),
                before.1 + effects.len(),
            ),
        }
    }
}

/// Pasting on `n` clips takes no more ids than copies of the effects for each.
proof fn pasting_takes(
    s: SequenceModel,
    items: Seq<ItemId>,
    effects: Seq<EffectModel>,
    reverse: Option<bool>,
    fresh: Seq<u64>,
    n: int,
)
    requires
        0 <= n,
    ensures
        0 <= pastes(s, items, effects, reverse, fresh, n).1 <= n * effects.len(),
    decreases n,
{
    if n > 0 {
        pasting_takes(s, items, effects, reverse, fresh, n - 1);
        assert((n - 1) * effects.len() + effects.len() == n * effects.len()) by (nonlinear_arith);
    }
}

/// Adds copies of the copied effects (fresh ids, same settings and roles) to every one of
/// the clips, after their own.
pub fn paste_effects(
    s: &Sequence,
    clipboard: &EffectClipboard,
    items: &Vec<ItemId>,
    fresh: &Vec<u64>,
) -> (out: Vec<Op>)
    requires
        fresh.len() >= items@.len() * clipboard.effects@.len(),
        forall|k: int|
            0 <= k < items@.len() && item_of(s@, items@[k]) is Some ==> item_of(
                s@,
                #[trigger] items@[k],
            )->0.effects.len() + clipboard.effects@.len() <= usize::MAX,
    ensures
        views(out@) == if clipboard.effects@.len() == 0 {
            Seq::<OpModel>::empty()
        } else {
            pastes(
                s@,
                items@,
                views(clipboard.effects@),
                clipboard.reverse,
                fresh@,
                items@.len() as int,
            ).0
        },
{
    let mut ops: Vec<Op> = Vec::new();
    assert(views(ops@) =~= Seq::<OpModel>::empty());
    let m: usize = clipboard.effects.len();
    if m == 0 {
        return ops;
    }
    let ghost effects = views(clipboard.effects@);
    let mut used: usize = 0;
    let mut i: usize = 0;
    while i < items.len()
        invariant
            effects == views(clipboard.effects@),
            m == clipboard.effects@.len(),
            fresh.len() >= items@.len() * m,
            forall|k: int|
                0 <= k < items@.len() && item_of(s@, items@[k]) is Some ==> item_of(
                    s@,
                    #[trigger] items@[k],
                )->0.effects.len() + m <= usize::MAX,
            i <= items@.len(),
            views(ops@) == pastes(
                s@,
                items@,
                effects,
                clipboard.reverse,
                fresh@,
                i as int,
            ).0,
            used == pastes(s@, items@, effects, clipboard.reverse, fresh@, i as int).1,
        decreases items@.len() - i,
    {
        let item = items[i];
        if let Some(it) = s.item(item) {
            let n: usize = it.effects.len();
            proof {
                pasting_takes(s@, items@, effects, clipboard.reverse, fresh@, i as int);
                assert(i * m + m <= items@.len() * m) by (nonlinear_arith)
                    requires
                        i < items@.len(),
                ;
                assert(item_of(s@, items@[i as int])->0.effects.len() == n);
            }
            let ghost before = ops@;
            let ghost own = pasted(s@, item, n as int, effects, fresh@, used as int);
            let ghost mut first: Seq<OpModel> = Seq::empty();
            if let Some(on) = clipboard.reverse {
                if it.outro_reverses_intro != on && item != s.background.id {
                    ops.push(Op::SetReverseIntro { seq: s.id, item, on });
                    proof {
                        first = seq![OpModel::SetReverseIntro { seq: s@.id, item, on }];
                        assert(views(ops@) =~= views(before) + first);
                    }
                }
            }
            assert(views(ops@) =~= views(before) + first);
            let ghost had = ops@;
            let mut k: usize = 0;
            assert(views(had) + own.take(0) =~= views(had));
            while k < m
                invariant
                    effects == views(clipboard.effects@),
                    m == clipboard.effects@.len(),
                    n + m <= usize::MAX,
                    used + m <= fresh.len(),
                    own == pasted(s@, item, n as int, effects, fresh@, used as int),
                    k <= m,
                    views(ops@) == views(had) + own.take(k as int),
                decreases m - k,
            {
                let mut effect = clipboard.effects[k].copy();
                assert(effects[k as int] == clipboard.effects@[k as int]@);
                effect.id = EffectId(fresh[used + k]);
                let ghost prev = ops@;
                ops.push(Op::InsertEffect { seq: s.id, item, index: n + k, effect });
                proof {
                    assert(ops@.last()@ == own[k as int]);
                    assert(views(ops@) =~= views(prev).push(own[k as int]));
                    assert(own.take(k + 1) =~= own.take(k as int).push(own[k as int]));
                    assert(views(ops@) =~= views(had) + own.take(k + 1));
                }
                k = k + 1;
            }
            proof {
                take_all(own);
                assert(views(ops@) =~= views(before) + paste_one(
                    s@,
                    it@,
                    item,
                    effects,
                    clipboard.reverse,
                    fresh@,
                    used as int,
                ));
            }
            used = used + m;
        }
        i = i + 1;
    }
    ops
}

/// A copied effect of the type.
pub open spec fn of_this_type(type_id: Seq<char>) -> spec_fn(EffectModel) -> bool {
    |e: EffectModel| e.type_id == type_id
}

/// Replaces an effect's settings with the copied effect's (same type only).
pub fn paste_effect_settings(
    s: &Sequence,
    clipboard: &EffectClipboard,
    item: ItemId,
    effect: EffectId,
) -> (out: Vec<Op>)
    ensures
        views(out@) == match item_of(s@, item) {
            None => Seq::<OpModel>::empty(),
            Some(it) => match crate::doc::effect_at(it.effects, effect) {
                None => Seq::<OpModel>::empty(),
                Some(i) => match first_where(
                    views(clipboard.effects@),
                    of_this_type(it.effects[i].type_id),
                ) {
                    None => Seq::<OpModel>::empty(),
                    Some(j) => seq![
                        OpModel::RemoveEffect { seq: s@.id, item, effect },
                        OpModel::InsertEffect {
                            seq: s@.id,
                            item,
                            index: i as usize,
                            effect: EffectModel {
                                params: views(clipboard.effects@)[j].params,
                                ..it.effects[i]
                            },
                        },
                    ],
                },
            },
        },
{
    let mut out: Vec<Op> = Vec::new();
    assert(views(out@) =~= Seq::<OpModel>::empty());
    if let Some(it) = s.item(item) {
        if let Some(i) = find_effect(&it.effects, effect) {
            let target = &it.effects[i];
            assert(it@.effects[i as int] == it.effects@[i as int]@);
            let ghost all = views(clipboard.effects@);
            let ghost p = of_this_type(target.type_id@);
            let mut j: usize = 0;
            while j < clipboard.effects.len()
                invariant
                    all == views(clipboard.effects@),
                    p == of_this_type(target.type_id@),
                    target == it.effects@[i as int],
                    i < it.effects@.len(),
                    it@.effects[i as int] == it.effects@[i as int]@,
                    item_of(s@, item) == Some(it@),
                    crate::doc::effect_at(it@.effects, effect) == Some(i as int),
                    j <= clipboard.effects@.len(),
                    out@.len() == 0,
                    views(out@) == Seq::<OpModel>::empty(),
                    first_where(all, p) == first_from(all, p, j as int),
                decreases clipboard.effects@.len() - j,
            {
                assert(all[j as int] == clipboard.effects@[j as int]@);
                if same(clipboard.effects[j].type_id.as_str(), target.type_id.as_str()) {
                    let mut updated = target.copy();
                    updated.params = crate::doc::copy_params(&clipboard.effects[j].params);
                    out.push(Op::RemoveEffect { seq: s.id, item, effect });
                    out.push(Op::InsertEffect { seq: s.id, item, index: i, effect: updated });
                    assert(views(out@) =~= seq![
                        OpModel::RemoveEffect { seq: s@.id, item, effect },
                        OpModel::InsertEffect {
                            seq: s@.id,
                            item,
                            index: i,
                            effect: EffectModel {
                                params: all[j as int].params,
                                ..it@.effects[i as int]
                            },
                        },
                    ]);
                    return out;
                }
                j = j + 1;
            }
        }
    }
    out
}

} // verus!
