//! The edit session: the open timeline, its media pool, and the changes its commands
//! make. Commands don't touch the document: they say which changes to ask it for.
use crate::doc::{
    effect_at, effect_place_is_right, find_effect, item_of, stored_at, EffectId, EffectInstance,
    EffectModel, EffectRole, ItemId, ItemKind, MediaId, MediaKind, Op, OpModel, ParamTarget, SeqId,
    Sequence, SequenceModel, Source, Time, TrackId,
};
use crate::seqs::{
    filter_at, filter_map_push, filter_place, filter_step, first_from, first_where, nothing_kept,
    nothing_mapped, take_all, views,
};
use crate::text::{parts, parts_is_never_empty, same, split};
use vstd::prelude::*;

verus! {

/// What's known of one file of the media pool.
pub struct PoolItem {
    pub id: MediaId,
    pub name: String,
    pub kind: MediaKind,
    /// The file to decode: the original, or a copy made to play better.
    pub decode_path: String,
    /// Why there's such a copy.
    pub conformed: Option<String>,
    pub duration: Time,
    pub has_video: bool,
    pub has_audio: bool,
    /// What the file is, in a few words.
    pub about: String,
    pub missing: bool,
}

impl PoolItem {
    /// What the file is, or that it's gone.
    pub fn summary(&self) -> (out: String)
        ensures
            out@ == if self.missing {
                "missing \u{2014} the file moved or was deleted"@
            } else {
                self.about@
            },
    {
        if self.missing {
            "missing \u{2014} the file moved or was deleted".to_owned()
        } else {
            self.about.clone()
        }
    }
}

/// A project file: its path, and its name as the title shows it.
pub struct ProjectFile {
    pub path: String,
    pub name: String,
}

/// The edit session.
pub struct Editor {
    /// The open timeline.
    pub timeline: Sequence,
    /// Where clips go by default.
    pub video_track: TrackId,
    pub audio_track: TrackId,
    pub pool: Vec<PoolItem>,
    /// Where the project was last saved or opened from.
    pub file: Option<ProjectFile>,
    /// The project as it is now, and as it was saved, by number.
    pub snapshot: u64,
    pub saved: Option<u64>,
    /// The clips that follow what's done to one of them (the rest of a multiple
    /// selection, while the inspector is drawn).
    pub linked: Vec<ItemId>,
}

/// The pool item with the id.
pub open spec fn with_media(id: MediaId) -> spec_fn(PoolItem) -> bool {
    |p: PoolItem| p.id == id
}

/// What the document is asked for: changes that undo together as `label`. With a `key`,
/// they join the step before them if it has the same one and hasn't been sealed.
pub struct Edit {
    pub label: String,
    pub key: Option<String>,
    pub ops: Vec<Op>,
}

impl Editor {
    /// Whether the project changed since it was saved.
    pub open spec fn is_dirty(&self) -> bool {
        self.saved != Some(self.snapshot)
    }

    pub fn dirty(&self) -> (out: bool)
        ensures
            out == self.is_dirty(),
    {
        match self.saved {
            Some(saved) => saved != self.snapshot,
            None => true,
        }
    }

    /// A command's changes as one undo step (nothing is asked for an empty list).
    pub fn apply(label: &str, ops: Vec<Op>) -> (out: Option<Edit>)
        ensures
            match out {
                Some(e) => ops@.len() > 0 && e.label@ == label@ && e.key is None && e.ops == ops,
                None => ops@.len() == 0,
            },
    {
        if ops.len() == 0 {
            return None;
        }
        Some(Edit { label: label.to_owned(), key: None, ops })
    }

    /// Like `apply` for a drag: consecutive updates with the same `key` merge into one undo
    /// step until it's sealed.
    pub fn apply_drag(label: &str, key: &str, ops: Vec<Op>) -> (out: Option<Edit>)
        ensures
            match out {
                Some(e) => ops@.len() > 0 && e.label@ == label@ && (e.key matches Some(k) && k@
                    == key@) && e.ops == ops,
                None => ops@.len() == 0,
            },
    {
        if ops.len() == 0 {
            return None;
        }
        Some(Edit { label: label.to_owned(), key: Some(key.to_owned()), ops })
    }

    /// What the window's title says: the file's name, and a dot while it has changes that
    /// aren't saved.
    pub fn title(&self) -> (out: String)
        ensures
            out@ == (match self.file {
                Some(file) => file.name@,
                None => "Untitled"@,
            }) + if self.is_dirty() {
                " \u{2022}"@
            } else {
                Seq::<char>::empty()
            },
    {
        let mut out: String = match &self.file {
            Some(file) => file.name.clone(),
            None => "Untitled".to_owned(),
        };
        if self.dirty() {
            out.append(" \u{2022}");
        }
        assert(out@ + Seq::<char>::empty() =~= out@);
        out
    }

    /// A save of `snapshot` to `file` has finished. Edits made since keep the project
    /// marked changed.
    pub fn mark_saved(&mut self, file: ProjectFile, snapshot: u64)
        ensures
            final(self).file == Some(file),
            final(self).saved == Some(snapshot),
            final(self).snapshot == old(self).snapshot,
            final(self).timeline == old(self).timeline,
            final(self).video_track == old(self).video_track,
            final(self).audio_track == old(self).audio_track,
            final(self).pool == old(self).pool,
            final(self).linked == old(self).linked,
            final(self).is_dirty() <==> snapshot != old(self).snapshot,
    {
        self.file = Some(file);
        self.saved = Some(snapshot);
    }

    /// After opening an autosave: it belongs to `original` (if it was ever saved) and has
    /// changes that aren't in any real file yet.
    pub fn mark_recovered(&mut self, original: Option<ProjectFile>)
        ensures
            final(self).file == original,
            final(self).saved is None,
            final(self).snapshot == old(self).snapshot,
            final(self).timeline == old(self).timeline,
            final(self).video_track == old(self).video_track,
            final(self).audio_track == old(self).audio_track,
            final(self).pool == old(self).pool,
            final(self).linked == old(self).linked,
            final(self).is_dirty(),
    {
        self.file = original;
        self.saved = None;
    }

    /// The pool item with the id.
    pub fn pool_item(&self, id: MediaId) -> (out: Option<&PoolItem>)
        ensures
            match out {
                Some(p) => first_where(self.pool@, with_media(id)) matches Some(i) && *p
                    == self.pool@[i] && p.id == id,
                None => first_where(self.pool@, with_media(id)) is None,
            },
    {
        let mut i: usize = 0;
        while i < self.pool.len()
            invariant
                i <= self.pool@.len(),
                first_where(self.pool@, with_media(id)) == first_from(
                    self.pool@,
                    with_media(id),
                    i as int,
                ),
            decreases self.pool@.len() - i,
        {
            if self.pool[i].id == id {
                return Some(&self.pool[i]);
            }
            i = i + 1;
        }
        None
    }
}

// ---- effects that match across clips ----

/// Of the type.
pub open spec fn is_type(type_id: Seq<char>) -> spec_fn(EffectModel) -> bool {
    |e: EffectModel| e.type_id == type_id
}

/// The effects of one type, in order.
pub open spec fn of_type(effects: Seq<EffectModel>, type_id: Seq<char>) -> Seq<EffectModel> {
    effects.filter(is_type(type_id))
}

/// Which of its kind an effect is: its type, and how many of that type come before it.
pub open spec fn key_of(effects: Seq<EffectModel>, id: EffectId) -> Option<(Seq<char>, nat)> {
    match effect_at(effects, id) {
        Some(i) => Some((effects[i].type_id, of_type(effects.take(i), effects[i].type_id).len())),
        None => None,
    }
}

/// The effect that is the `key.1`-th (from zero) of type `key.0`.
pub open spec fn effect_with_key(effects: Seq<EffectModel>, key: (Seq<char>, nat)) -> Option<
    EffectId,
> {
    let those = of_type(effects, key.0);
    if key.1 < those.len() {
        Some(those[key.1 as int].id)
    } else {
        None
    }
}

/// Looking an effect up by its key finds that effect again.
pub proof fn key_finds_its_effect(effects: Seq<EffectModel>, id: EffectId)
    requires
        key_of(effects, id) is Some,
    ensures
        effect_with_key(effects, key_of(effects, id)->0) == Some(id),
{
    effect_place_is_right(effects, id, 0);
    let i = effect_at(effects, id)->0;
    filter_place(effects, is_type(effects[i].type_id), i);
}

/// How many of the first `upto` effects have the type, and the id of the `nth`.
fn count_type(effects: &Vec<EffectInstance>, upto: usize, type_id: &str) -> (out: usize)
    requires
        upto <= effects@.len(),
    ensures
        out == of_type(views(effects@).take(upto as int), type_id@).len(),
        out <= upto,
{
    let mut n: usize = 0;
    let mut i: usize = 0;
    let ghost of = is_type(type_id@);
    proof {
        take_all(views(effects@));
        assert(Seq::<EffectModel>::empty().filter(of).len() == 0) by {
            reveal_with_fuel(Seq::filter, 1);
        }
    }
    while i < upto
        invariant
            of == is_type(type_id@),
            i <= upto <= effects@.len(),
            n == views(effects@).take(i as int).filter(of).len(),
            n <= i,
        decreases upto - i,
    {
        proof {
            filter_step(views(effects@), of, i as int);
            assert(views(effects@)[i as int] == effects@[i as int]@);
        }
        if same(effects[i].type_id.as_str(), type_id) {
            n = n + 1;
        }
        i = i + 1;
    }
    n
}

/// The effect that is the `nth` (from zero) of its type.
fn nth_of_type(effects: &Vec<EffectInstance>, type_id: &str, nth: usize) -> (out: Option<EffectId>)
    ensures
        out == effect_with_key(views(effects@), (type_id@, nth as nat)),
{
    let mut n: usize = 0;
    let mut i: usize = 0;
    let ghost of = is_type(type_id@);
    let ghost all = views(effects@);
    proof {
        take_all(all);
        assert(Seq::<EffectModel>::empty().filter(of).len() == 0) by {
            reveal_with_fuel(Seq::filter, 1);
        }
    }
    while i < effects.len()
        invariant
            of == is_type(type_id@),
            all == views(effects@),
            i <= effects@.len(),
            n == all.take(i as int).filter(of).len(),
            n <= i,
            n <= nth,
        decreases effects@.len() - i,
    {
        proof {
            filter_step(all, of, i as int);
            assert(all[i as int] == effects@[i as int]@);
        }
        if same(effects[i].type_id.as_str(), type_id) {
            if n == nth {
                proof {
                    filter_place(all, of, i as int);
                }
                return Some(effects[i].id);
            }
            n = n + 1;
        }
        i = i + 1;
    }
    proof {
        take_all(all);
    }
    None
}

/// Which of its kind an effect is among `effects`.
fn effect_key_in(effects: &Vec<EffectInstance>, effect: EffectId) -> (out: Option<(String, usize)>)
    ensures
        match out {
            Some((type_id, nth)) => key_of(views(effects@), effect) == Some(
                (type_id@, nth as nat),
            ),
            None => key_of(views(effects@), effect) is None,
        },
{
    match find_effect(effects, effect) {
        Some(i) => {
            let nth: usize = count_type(effects, i, effects[i].type_id.as_str());
            assert(views(effects@)[i as int] == effects@[i as int]@);
            Some((effects[i].type_id.clone(), nth))
        },
        None => None,
    }
}

/// The key of effect `effect` of clip `item`.
pub open spec fn clip_key(s: SequenceModel, item: ItemId, effect: EffectId) -> Option<
    (Seq<char>, nat),
> {
    match item_of(s, item) {
        Some(it) => key_of(it.effects, effect),
        None => None,
    }
}

/// The clips that follow `item`: the linked ones but itself.
pub open spec fn followers(linked: Seq<ItemId>, item: ItemId) -> Seq<ItemId> {
    linked.filter(other_than(item))
}

/// Any clip but `item`.
pub open spec fn other_than(item: ItemId) -> spec_fn(ItemId) -> bool {
    |l: ItemId| l != item
}

/// The effect with `key` on clip `other`.
pub open spec fn peer_on(s: SequenceModel, key: (Seq<char>, nat), other: ItemId) -> Option<
    (ItemId, EffectId),
> {
    match item_of(s, other) {
        Some(o) => match effect_with_key(o.effects, key) {
            Some(e) => Some((other, e)),
            None => None,
        },
        None => None,
    }
}

/// The effect with `key` on each clip.
pub open spec fn peer_finder(s: SequenceModel, key: (Seq<char>, nat)) -> spec_fn(ItemId) -> Option<
    (ItemId, EffectId),
> {
    |o: ItemId| peer_on(s, key, o)
}

/// The same effect on the clips that follow.
pub open spec fn peers_of(s: SequenceModel, linked: Seq<ItemId>, item: ItemId, effect: EffectId) -> Seq<
    (ItemId, EffectId),
> {
    match clip_key(s, item, effect) {
        Some(key) => followers(linked, item).filter_map(peer_finder(s, key)),
        None => Seq::empty(),
    }
}

/// Effects match both ways: an effect's peer has the same key, and on any clip that has an
/// effect with that key the peer's match is found again.
pub proof fn peers_match_both_ways(
    s: SequenceModel,
    linked: Seq<ItemId>,
    item: ItemId,
    effect: EffectId,
    peer: (ItemId, EffectId),
)
    requires
        peers_of(s, linked, item, effect).contains(peer),
        item_of(s, peer.0) matches Some(o) ==> forall|a: int, b: int|
            0 <= a < b < o.effects.len() ==> (#[trigger] o.effects[a]).id != (
            #[trigger] o.effects[b]).id,
    ensures
        peer.0 != item,
        clip_key(s, peer.0, peer.1) == clip_key(s, item, effect),
        peer_on(s, clip_key(s, peer.0, peer.1)->0, item) == Some((item, effect)),
{
    let key = clip_key(s, item, effect)->0;
    let f = peer_finder(s, key);
    followers(linked, item).lemma_filter_map_contains(f, peer);
    let o = choose|o: ItemId| #[trigger]
        followers(linked, item).contains(o) && f(o) == Some(peer);
    assert(o == peer.0);
    assert(peer.0 != item) by {
        let k = choose|k: int|
            0 <= k < followers(linked, item).len() && followers(linked, item)[k] == o;
        linked.lemma_filter_pred(other_than(item), k);
    }
    let other = item_of(s, peer.0)->0;
    let of = is_type(key.0);
    let those = other.effects.filter(of);
    assert(those[key.1 as int].id == peer.1);
    filter_at(other.effects, of, key.1 as int);
    let j = choose|j: int|
        0 <= j < other.effects.len() && other.effects[j] == those[key.1 as int] && of(
            other.effects[j],
        ) && other.effects.take(j).filter(of).len() == key.1;
    effect_place_is_right(other.effects, peer.1, 0);
    assert(effect_at(other.effects, peer.1) == Some(j)) by {
        let found = effect_at(other.effects, peer.1);
        assert(other.effects[j].id == peer.1);
        assert(found is Some);
        if found->0 < j {
            assert(other.effects[found->0].id != other.effects[j].id);
        } else if found->0 > j {
            assert(other.effects[j].id != peer.1);
        }
    }
    key_finds_its_effect(item_of(s, item)->0.effects, effect);
}

impl Editor {
    /// Which of its kind an effect is on its clip: its type, and how many of that type
    /// come before it. Effects match across clips by this.
    pub fn effect_key(&self, item: ItemId, effect: EffectId) -> (out: Option<(String, usize)>)
        ensures
            match out {
                Some((type_id, nth)) => clip_key(self.timeline@, item, effect) == Some(
                    (type_id@, nth as nat),
                ),
                None => clip_key(self.timeline@, item, effect) is None,
            },
    {
        match self.timeline.item(item) {
            Some(it) => effect_key_in(&it.effects, effect),
            None => None,
        }
    }

    /// The same effect on the linked clips (the rest of a multiple selection).
    pub fn effect_peers(&self, item: ItemId, effect: EffectId) -> (out: Vec<(ItemId, EffectId)>)
        ensures
            out@ == peers_of(self.timeline@, self.linked@, item, effect),
    {
        let mut out: Vec<(ItemId, EffectId)> = Vec::new();
        let key = self.effect_key(item, effect);
        if key.is_none() {
            return out;
        }
        let (type_id, nth) = key.unwrap();
        let ghost k = (type_id@, nth as nat);
        let ghost s = self.timeline@;
        let ghost f = peer_finder(s, k);
        let ghost not = other_than(item);
        let mut i: usize = 0;
        proof {
            take_all(self.linked@);
            reveal_with_fuel(Seq::filter, 1);
        }
        while i < self.linked.len()
            invariant
                k == (type_id@, nth as nat),
                s == self.timeline@,
                f == peer_finder(s, k),
                not == other_than(item),
                i <= self.linked@.len(),
                out@ == self.linked@.take(i as int).filter(not).filter_map(f),
            decreases self.linked@.len() - i,
        {
            let other = self.linked[i];
            let ghost kept = self.linked@.take(i as int).filter(not);
            proof {
                filter_step(self.linked@, not, i as int);
            }
            if other != item {
                proof {
                    filter_map_push(kept, f, other);
                }
                match self.timeline.item(other) {
                    Some(o) => {
                        match nth_of_type(&o.effects, type_id.as_str(), nth) {
                            Some(e) => {
                                out.push((other, e));
                            },
                            None => {},
                        }
                    },
                    None => {},
                }
            }
            i = i + 1;
        }
        proof {
            take_all(self.linked@);
        }
        out
    }
}

// ---- settings that follow on the linked clips ----

/// Whether a clip of the kind has the setting `param`: a title's only on titles, a solid's
/// only on solids.
pub open spec fn kind_has(kind: ItemKind, param: Seq<char>) -> bool {
    let group = parts(param, '.')[0];
    if group == "text"@ {
        kind is Text
    } else if group == "solid"@ {
        kind is Solid
    } else {
        true
    }
}

/// Where the setting `param` at `target` of clip `item` is on clip `other`: the same place
/// on a clip that has it, the matching effect for an effect's setting.
pub open spec fn same_place(
    s: SequenceModel,
    item: ItemId,
    target: ParamTarget,
    param: Seq<char>,
    other: ItemId,
) -> Option<(ItemId, ParamTarget)> {
    match item_of(s, other) {
        None => None,
        Some(o) => match target {
            ParamTarget::Item => if kind_has(o.kind, param) {
                Some((other, ParamTarget::Item))
            } else {
                None
            },
            ParamTarget::Effect(id) => match clip_key(s, item, id) {
                None => None,
                Some(key) => match effect_with_key(o.effects, key) {
                    Some(e) => Some((other, ParamTarget::Effect(e))),
                    None => None,
                },
            },
            _ => None,
        },
    }
}

/// Where the setting is on each clip.
pub open spec fn place_finder(
    s: SequenceModel,
    item: ItemId,
    target: ParamTarget,
    param: Seq<char>,
) -> spec_fn(ItemId) -> Option<(ItemId, ParamTarget)> {
    |o: ItemId| same_place(s, item, target, param, o)
}

/// The setting `param` at `target` of clip `item`, and the same setting on each linked clip.
pub open spec fn fanned_out(
    s: SequenceModel,
    linked: Seq<ItemId>,
    item: ItemId,
    target: ParamTarget,
    param: Seq<char>,
) -> Seq<(ItemId, ParamTarget)> {
    let here = seq![(item, target)];
    match item_of(s, item) {
        None => here,
        Some(_) => here + followers(linked, item).filter_map(place_finder(s, item, target, param)),
    }
}

/// Whether a clip of the kind has the setting.
fn has_setting(kind: ItemKind, param: &str) -> (out: bool)
    ensures
        out == kind_has(kind, param@),
{
    let pieces = split(param, '.');
    proof {
        parts_is_never_empty(param@, '.');
        assert(views(pieces@)[0] == pieces@[0]@);
        assert(pieces@.len() == views(pieces@).len());
    }
    if same(pieces[0].as_str(), "text") {
        matches!(kind, ItemKind::Text)
    } else if same(pieces[0].as_str(), "solid") {
        matches!(kind, ItemKind::Solid)
    } else {
        true
    }
}

impl Editor {
    fn place_on(&self, item: ItemId, target: ParamTarget, param: &str, other: ItemId) -> (out: Option<
        (ItemId, ParamTarget),
    >)
        ensures
            out == same_place(self.timeline@, item, target, param@, other),
    {
        match self.timeline.item(other) {
            None => None,
            Some(o) => match target {
                ParamTarget::Item => {
                    if has_setting(o.kind, param) {
                        Some((other, ParamTarget::Item))
                    } else {
                        None
                    }
                },
                ParamTarget::Effect(id) => {
                    match self.effect_key(item, id) {
                        None => None,
                        Some((type_id, nth)) => {
                            match nth_of_type(&o.effects, type_id.as_str(), nth) {
                                Some(e) => Some((other, ParamTarget::Effect(e))),
                                None => None,
                            }
                        },
                    }
                },
                _ => None,
            },
        }
    }

    /// The setting `param` at `target` of `item`, and the same setting on each linked
    /// clip: the same place on a clip of a kind that has it (a title's text settings only
    /// on titles), the matching effect (the same kind, the same how-many-th) for an
    /// effect's setting.
    pub fn fan_out(&self, item: ItemId, target: ParamTarget, param: &str) -> (out: Vec<
        (ItemId, ParamTarget),
    >)
        ensures
            out@ == fanned_out(self.timeline@, self.linked@, item, target, param@),
    {
        let mut out: Vec<(ItemId, ParamTarget)> = Vec::new();
        out.push((item, target));
        let ghost here = seq![(item, target)];
        assert(out@ =~= here);
        if self.timeline.item(item).is_none() {
            return out;
        }
        let ghost f = place_finder(self.timeline@, item, target, param@);
        let ghost not = other_than(item);
        let mut i: usize = 0;
        proof {
            take_all(self.linked@);
            reveal_with_fuel(Seq::filter, 1);
            assert(here + Seq::<(ItemId, ParamTarget)>::empty() =~= here);
        }
        while i < self.linked.len()
            invariant
                f == place_finder(self.timeline@, item, target, param@),
                not == other_than(item),
                i <= self.linked@.len(),
                out@ == here + self.linked@.take(i as int).filter(not).filter_map(f),
            decreases self.linked@.len() - i,
        {
            let other = self.linked[i];
            let ghost kept = self.linked@.take(i as int).filter(not);
            proof {
                filter_step(self.linked@, not, i as int);
            }
            if other != item {
                proof {
                    filter_map_push(kept, f, other);
                }
                match self.place_on(item, target, param, other) {
                    Some(there) => {
                        out.push(there);
                        assert(out@ =~= here + kept.filter_map(f).push(there));
                    },
                    None => {},
                }
            }
            i = i + 1;
        }
        proof {
            take_all(self.linked@);
        }
        out
    }

    /// How a setting is stored (static, keyframed…), if it has been set.
    pub fn param_source(&self, item: ItemId, target: ParamTarget, param: &str) -> (out: Option<
        Source,
    >)
        ensures
            out == source_of(self.timeline@, item, target, param@),
    {
        match self.timeline.item(item) {
            Some(it) => it.stored(target, param),
            None => None,
        }
    }

    /// The changes that store `source` for the setting, on the linked clips too.
    pub fn set_param(&self, item: ItemId, target: ParamTarget, param: &str, source: Source) -> (out:
        Vec<Op>)
        ensures
            views(out@) == fanned_out(self.timeline@, self.linked@, item, target, param@).map_values(
                setter(self.timeline@.id, param@, source),
            ),
    {
        let places = self.fan_out(item, target, param);
        let mut out: Vec<Op> = Vec::new();
        let mut i: usize = 0;
        while i < places.len()
            invariant
                i <= places@.len(),
                out@.len() == i,
                forall|k: int|
                    0 <= k < i ==> (#[trigger] out@[k])@ == setter(
                        self.timeline@.id,
                        param@,
                        source,
                    )(places@[k]),
            decreases places@.len() - i,
        {
            out.push(
                Op::SetParam {
                    seq: self.timeline.id,
                    item: places[i].0,
                    target: places[i].1,
                    param: param.to_owned(),
                    source: Some(source),
                },
            );
            i = i + 1;
        }
        assert(views(out@) =~= places@.map_values(setter(self.timeline@.id, param@, source)));
        out
    }
}

/// How the setting `param` at `target` of clip `item` is stored.
pub open spec fn source_of(
    s: SequenceModel,
    item: ItemId,
    target: ParamTarget,
    param: Seq<char>,
) -> Option<Source> {
    match item_of(s, item) {
        Some(it) => stored_at(it, target, param),
        None => None,
    }
}

/// The change that stores `source` for the setting.
pub open spec fn setter(seq: SeqId, param: Seq<char>, source: Source) -> spec_fn(
    (ItemId, ParamTarget),
) -> OpModel {
    |p: (ItemId, ParamTarget)|
        OpModel::SetParam { seq, item: p.0, target: p.1, param, source: Some(source) }
}

/// With no other clip linked, a setting changes on its own clip only.
pub proof fn unlinked_settings_stay_put(
    s: SequenceModel,
    linked: Seq<ItemId>,
    item: ItemId,
    target: ParamTarget,
    param: Seq<char>,
)
    requires
        forall|k: int| 0 <= k < linked.len() ==> linked[k] == item,
    ensures
        fanned_out(s, linked, item, target, param) == seq![(item, target)],
{
    nothing_kept(linked, other_than(item));
    assert(seq![(item, target)] + Seq::<(ItemId, ParamTarget)>::empty() =~= seq![(item, target)]);
}

// ---- commands done to the linked clips too ----

/// The effects that a list of changes puts somewhere.
pub open spec fn inserted(ops: Seq<OpModel>) -> Seq<EffectId> {
    ops.filter_map(inserted_effect())
}

/// The effect that a change puts somewhere.
pub open spec fn inserted_effect() -> spec_fn(OpModel) -> Option<EffectId> {
    |op: OpModel|
        match op {
            OpModel::InsertEffect { effect, .. } => Some(effect.id),
            _ => None,
        }
}

/// An intro or outro no longer than `length`.
pub open spec fn shortened(role: EffectRole, length: Time) -> EffectRole {
    match role {
        EffectRole::In { duration } => EffectRole::In { duration: duration.spec_least(length) },
        EffectRole::Out { duration } => EffectRole::Out { duration: duration.spec_least(length) },
        _ => role,
    }
}

/// How long the clip is (as long as can be, if it isn't there).
pub open spec fn length_of(s: SequenceModel, item: ItemId) -> Time {
    match item_of(s, item) {
        Some(it) => it.range.duration,
        None => Time(i64::MAX),
    }
}

/// The change `op`, made for one clip, as the linked clips get it. Moves within one clip's
/// list (`moved`) stay its own.
pub open spec fn echoes(
    s: SequenceModel,
    linked: Seq<ItemId>,
    moved: Seq<EffectId>,
    op: OpModel,
) -> Seq<OpModel> {
    match op {
        OpModel::SetEffectEnabled { seq, item, effect, enabled } => peers_of(
            s,
            linked,
            item,
            effect,
        ).map_values(enabler(seq, enabled)),
        OpModel::RemoveEffect { seq, item, effect } => if moved.contains(effect) {
            Seq::empty()
        } else {
            peers_of(s, linked, item, effect).map_values(remover(seq))
        },
        OpModel::SetEffectRole { seq, item, effect, role } => peers_of(
            s,
            linked,
            item,
            effect,
        ).map_values(role_setter(s, seq, role)),
        OpModel::SetReverseIntro { seq, item, on } => followers(linked, item).map_values(
            reverser(seq, on),
        ),
        _ => Seq::empty(),
    }
}

pub open spec fn enabler(seq: SeqId, enabled: bool) -> spec_fn((ItemId, EffectId)) -> OpModel {
    |p: (ItemId, EffectId)| OpModel::SetEffectEnabled { seq, item: p.0, effect: p.1, enabled }
}

pub open spec fn remover(seq: SeqId) -> spec_fn((ItemId, EffectId)) -> OpModel {
    |p: (ItemId, EffectId)| OpModel::RemoveEffect { seq, item: p.0, effect: p.1 }
}

pub open spec fn role_setter(s: SequenceModel, seq: SeqId, role: EffectRole) -> spec_fn(
    (ItemId, EffectId),
) -> OpModel {
    |p: (ItemId, EffectId)|
        OpModel::SetEffectRole {
            seq,
            item: p.0,
            effect: p.1,
            role: shortened(role, length_of(s, p.0)),
        }
}

pub open spec fn reverser(seq: SeqId, on: bool) -> spec_fn(ItemId) -> OpModel {
    |o: ItemId| OpModel::SetReverseIntro { seq, item: o, on }
}

/// Each change as the linked clips get it.
pub open spec fn echoer(s: SequenceModel, linked: Seq<ItemId>, moved: Seq<EffectId>) -> spec_fn(
    OpModel,
) -> Seq<OpModel> {
    |op: OpModel| echoes(s, linked, moved, op)
}

/// `ops` made for one clip, done to the linked clips too.
pub open spec fn fanned_ops(s: SequenceModel, linked: Seq<ItemId>, ops: Seq<OpModel>) -> Seq<
    OpModel,
> {
    ops + ops.flat_map(echoer(s, linked, inserted(ops)))
}

fn shorten(role: EffectRole, length: Time) -> (out: EffectRole)
    ensures
        out == shortened(role, length),
{
    match role {
        EffectRole::In { duration } => EffectRole::In { duration: duration.least(length) },
        EffectRole::Out { duration } => EffectRole::Out { duration: duration.least(length) },
        _ => role,
    }
}

/// The effects that `ops` put somewhere.
fn moved_effects(ops: &Vec<Op>) -> (out: Vec<EffectId>)
    ensures
        out@ == inserted(views(ops@)),
{
    let mut out: Vec<EffectId> = Vec::new();
    let mut i: usize = 0;
    proof {
        take_all(views(ops@));
    }
    while i < ops.len()
        invariant
            i <= ops@.len(),
            out@ == views(ops@).take(i as int).filter_map(inserted_effect()),
        decreases ops@.len() - i,
    {
        proof {
            assert(views(ops@).take(i + 1) =~= views(ops@).take(i as int).push(
                views(ops@)[i as int],
            ));
            filter_map_push(views(ops@).take(i as int), inserted_effect(), views(ops@)[i as int]);
            assert(views(ops@)[i as int] == ops@[i as int]@);
        }
        match &ops[i] {
            Op::InsertEffect { effect, .. } => {
                out.push(effect.id);
            },
            _ => {},
        }
        i = i + 1;
    }
    proof {
        take_all(views(ops@));
    }
    out
}

fn holds_effect(ids: &Vec<EffectId>, id: EffectId) -> (out: bool)
    ensures
        out == ids@.contains(id),
{
    let mut i: usize = 0;
    while i < ids.len()
        invariant
            i <= ids@.len(),
            forall|k: int| 0 <= k < i ==> ids@[k] != id,
        decreases ids@.len() - i,
    {
        if ids[i] == id {
            return true;
        }
        i = i + 1;
    }
    false
}

impl Editor {
    /// The clips that follow `item`.
    pub fn followers(&self, item: ItemId) -> (out: Vec<ItemId>)
        ensures
            out@ == followers(self.linked@, item),
    {
        let mut out: Vec<ItemId> = Vec::new();
        let ghost not = other_than(item);
        let mut i: usize = 0;
        proof {
            take_all(self.linked@);
            reveal_with_fuel(Seq::filter, 1);
        }
        while i < self.linked.len()
            invariant
                not == other_than(item),
                i <= self.linked@.len(),
                out@ == self.linked@.take(i as int).filter(not),
            decreases self.linked@.len() - i,
        {
            proof {
                filter_step(self.linked@, not, i as int);
            }
            if self.linked[i] != item {
                out.push(self.linked[i]);
            }
            i = i + 1;
        }
        proof {
            take_all(self.linked@);
        }
        out
    }

    /// The change as the linked clips get it.
    fn echo(&self, op: &Op, moved: &Vec<EffectId>) -> (out: Vec<Op>)
        ensures
            views(out@) == echoes(self.timeline@, self.linked@, moved@, op@),
    {
        let mut out: Vec<Op> = Vec::new();
        match op {
            Op::SetEffectEnabled { seq, item, effect, enabled } => {
                let peers = self.effect_peers(*item, *effect);
                let mut i: usize = 0;
                while i < peers.len()
                    invariant
                        i <= peers@.len(),
                        out@.len() == i,
                        forall|k: int|
                            0 <= k < i ==> (#[trigger] out@[k])@ == enabler(*seq, *enabled)(
                                peers@[k],
                            ),
                    decreases peers@.len() - i,
                {
                    out.push(
                        Op::SetEffectEnabled {
                            seq: *seq,
                            item: peers[i].0,
                            effect: peers[i].1,
                            enabled: *enabled,
                        },
                    );
                    i = i + 1;
                }
                assert(views(out@) =~= peers@.map_values(enabler(*seq, *enabled)));
            },
            Op::RemoveEffect { seq, item, effect } => {
                if !holds_effect(moved, *effect) {
                    let peers = self.effect_peers(*item, *effect);
                    let mut i: usize = 0;
                    while i < peers.len()
                        invariant
                            i <= peers@.len(),
                            out@.len() == i,
                            forall|k: int|
                                0 <= k < i ==> (#[trigger] out@[k])@ == remover(*seq)(peers@[k]),
                        decreases peers@.len() - i,
                    {
                        out.push(
                            Op::RemoveEffect { seq: *seq, item: peers[i].0, effect: peers[i].1 },
                        );
                        i = i + 1;
                    }
                    assert(views(out@) =~= peers@.map_values(remover(*seq)));
                }
            },
            Op::SetEffectRole { seq, item, effect, role } => {
                let peers = self.effect_peers(*item, *effect);
                let mut i: usize = 0;
                while i < peers.len()
                    invariant
                        i <= peers@.len(),
                        out@.len() == i,
                        forall|k: int|
                            0 <= k < i ==> (#[trigger] out@[k])@ == role_setter(
                                self.timeline@,
                                *seq,
                                *role,
                            )(peers@[k]),
                    decreases peers@.len() - i,
                {
                    let length = match self.timeline.item(peers[i].0) {
                        Some(it) => it.range.duration,
                        None => Time(i64::MAX),
                    };
                    out.push(
                        Op::SetEffectRole {
                            seq: *seq,
                            item: peers[i].0,
                            effect: peers[i].1,
                            role: shorten(*role, length),
                        },
                    );
                    i = i + 1;
                }
                assert(views(out@) =~= peers@.map_values(
                    role_setter(self.timeline@, *seq, *role),
                ));
            },
            Op::SetReverseIntro { seq, item, on } => {
                let others = self.followers(*item);
                let mut i: usize = 0;
                while i < others.len()
                    invariant
                        i <= others@.len(),
                        out@.len() == i,
                        forall|k: int|
                            0 <= k < i ==> (#[trigger] out@[k])@ == reverser(*seq, *on)(others@[k]),
                    decreases others@.len() - i,
                {
                    out.push(Op::SetReverseIntro { seq: *seq, item: others[i], on: *on });
                    i = i + 1;
                }
                assert(views(out@) =~= others@.map_values(reverser(*seq, *on)));
            },
            _ => {},
        }
        assert(views(out@) =~= echoes(self.timeline@, self.linked@, moved@, op@));
        out
    }

    /// `ops` made for one clip, done to the linked clips too: an effect switched on or
    /// off, removed or retimed happens to the same effect on each; an intro reversed as
    /// the outro, on each clip. (Moves within one clip's list stay its own.)
    pub fn fanned(&self, ops: Vec<Op>) -> (out: Vec<Op>)
        ensures
            views(out@) == fanned_ops(self.timeline@, self.linked@, views(ops@)),
    {
        let moved = moved_effects(&ops);
        let ghost all = views(ops@);
        let ghost f = echoer(self.timeline@, self.linked@, moved@);
        let mut more: Vec<Op> = Vec::new();
        let mut i: usize = 0;
        proof {
            take_all(all);
            assert(all.take(0).flat_map(f) =~= Seq::<OpModel>::empty());
            assert(views(more@) =~= Seq::<OpModel>::empty());
        }
        while i < ops.len()
            invariant
                all == views(ops@),
                f == echoer(self.timeline@, self.linked@, moved@),
                i <= ops@.len(),
                views(more@) == all.take(i as int).flat_map(f),
            decreases ops@.len() - i,
        {
            let mut echo = self.echo(&ops[i], &moved);
            let ghost had = more@;
            let ghost got = echo@;
            more.append(&mut echo);
            proof {
                assert(all[i as int] == ops@[i as int]@);
                all.lemma_flat_map_take_append(f, i as int);
                assert(views(more@) =~= views(had) + views(got));
            }
            i = i + 1;
        }
        proof {
            take_all(all);
        }
        let mut out = ops;
        let ghost had = more@;
        out.append(&mut more);
        assert(views(out@) =~= all + views(had));
        out
    }
}

/// With no other clip linked, a command's changes are exactly what it asked for.
pub proof fn unlinked_commands_stay_put(s: SequenceModel, linked: Seq<ItemId>, ops: Seq<OpModel>)
    requires
        linked.len() == 0,
    ensures
        fanned_ops(s, linked, ops) == ops,
{
    let f = echoer(s, linked, inserted(ops));
    assert forall|k: int| 0 <= k < ops.len() implies f(#[trigger] ops[k]).len() == 0 by {
        assert forall|item: ItemId| followers(linked, item).len() == 0 by {
            nothing_kept(linked, other_than(item));
        }
        reveal_with_fuel(Seq::filter_map, 1);
    }
    nothing_mapped(ops, f);
    assert(ops + Seq::<OpModel>::empty() =~= ops);
}

} // verus!
