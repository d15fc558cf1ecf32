//! The look of captions: copied from a title, with boxes behind the text and the spoken
//! word lit.
use crate::caption_track::{set_setting, setting_with, with_setting};
use crate::doc::{
    get_param, param_of, same_params, EffectId, EffectInstance, EffectModel, EffectRole, Item,
    ItemId, ItemKind, ItemModel, Param, ParamModel, Sequence, Source, TimeRange, TrackModel, Transition,
};
use crate::seqs::{added_is_first, filter_step, first_from, first_is_right, first_where, some_is_first, take_all, views};
use crate::text::{chars_of, join2, join3, same, text_between};
use vstd::prelude::*;

verus! {

// ---- copying a title ----

pub open spec fn is_title() -> spec_fn(ItemModel) -> bool {
    |i: ItemModel| i.kind == ItemKind::Text
}

pub open spec fn ids_of(items: Seq<ItemModel>) -> Seq<ItemId> {
    items.map_values(|i: ItemModel| i.id)
}

/// The titles on the first `n` tracks, track by track.
pub open spec fn titles_to(tracks: Seq<TrackModel>, n: int) -> Seq<ItemId>
    decreases n,
{
    if n <= 0 {
        Seq::empty()
    } else {
        titles_to(tracks, n - 1) + ids_of(tracks[n - 1].items.filter(is_title()))
    }
}

/// The titles whose look can be copied, as they're listed.
pub fn titles(s: &Sequence) -> (out: Vec<ItemId>)
    ensures
        out@ == titles_to(s@.tracks, s@.tracks.len() as int),
{
    let ghost p = is_title();
    let mut out: Vec<ItemId> = Vec::new();
    let mut t: usize = 0;
    while t < s.tracks.len()
        invariant
            p == is_title(),
            t <= s.tracks@.len(),
            out@ == titles_to(s@.tracks, t as int),
        decreases s.tracks@.len() - t,
    {
        let ghost items = s@.tracks[t as int].items;
        let ghost had = out@;
        let mut i: usize = 0;
        assert(s@.tracks[t as int] == s.tracks@[t as int]@);
        assert(items.take(0).filter(p) =~= Seq::empty()) by {
            reveal_with_fuel(Seq::filter, 1);
        }
        assert(out@ =~= had + ids_of(items.take(0).filter(p)));
        while i < s.tracks[t as usize].items.len()
            invariant
                p == is_title(),
                t < s.tracks@.len(),
                items == views(s.tracks@[t as int].items@),
                i <= s.tracks@[t as int].items@.len(),
                out@ =~= had + ids_of(items.take(i as int).filter(p)),
            decreases s.tracks@[t as int].items@.len() - i,
        {
            assert(items[i as int] == s.tracks@[t as int].items@[i as int]@);
            proof {
                filter_step(items, p, i as int);
            }
            let it = &s.tracks[t].items[i];
            if it.kind == ItemKind::Text {
                out.push(it.id);
            }
            i = i + 1;
        }
        proof {
            take_all(items);
        }
        t = t + 1;
    }
    out
}

/// Where the first line ends: before a line break, and before the carriage return that goes
/// with it.
pub open spec fn first_line(s: Seq<char>) -> Seq<char> {
    match first_where(s, |c: char| c == '\n') {
        Some(i) => if i > 0 && s[i - 1] == '\r' {
            s.take(i - 1)
        } else {
            s.take(i)
        },
        None => s,
    }
}

/// A title as it's listed: its first line (`words`: what it says, if it says anything), and
/// when it starts.
pub fn title_name(words: Option<String>, seconds: &str) -> (out: String)
    ensures
        out@ == first_line(
            match words {
                Some(w) => w@,
                None => "Title"@,
            },
        ) + "  ("@ + seconds@ + "s)"@,
{
    let words = match words {
        Some(w) => w,
        None => "Title".to_owned(),
    };
    let chars = chars_of(words.as_str());
    let ghost p = |c: char| c == '\n';
    let mut i: usize = 0;
    while i < chars.len() && chars[i] != '\n'
        invariant
            p == (|c: char| c == '\n'),
            i <= chars@.len(),
            first_where(chars@, p) == first_from(chars@, p, i as int),
        decreases chars@.len() - i,
    {
        i = i + 1;
    }
    assert(first_where(chars@, p) == if i < chars@.len() {
        Some(i as int)
    } else {
        None
    });
    let n: usize = if i < chars.len() && i > 0 && chars[i - 1] == '\r' {
        i - 1
    } else {
        i
    };
    let line = text_between(&chars, 0, n);
    assert(line@ =~= first_line(words@));
    let tail = join3("  (", seconds, "s)");
    let out = join2(line.as_str(), tail.as_str());
    assert(out@ =~= first_line(words@) + "  ("@ + seconds@ + "s)"@);
    out
}

/// A title's look: all of it but what ties it to its place.
pub open spec fn look_of(title: ItemModel) -> ItemModel {
    ItemModel { transitions: Seq::empty(), group: None, word_times: Seq::empty(), ..title }
}

/// Copies a title's look.
pub fn copy_look(title: &Item) -> (out: Item)
    ensures
        out@ == look_of(title@),
{
    let mut out = title.copy();
    out.transitions = Vec::new();
    out.group = None;
    out.word_times = Vec::new();
    assert(out@ =~= look_of(title@));
    out
}

// ---- settings of the look ----

/// The settings without one of them.
pub open spec fn without_setting(params: Seq<ParamModel>, id: Seq<char>) -> Seq<ParamModel> {
    match first_where(params, setting_with(id)) {
        Some(i) => params.remove(i),
        None => params,
    }
}

/// Takes a setting off.
pub fn clear_setting(params: &mut Vec<Param>, id: &str)
    ensures
        views(final(params)@) == without_setting(views(old(params)@), id@),
{
    let ghost all = views(params@);
    let ghost p = setting_with(id@);
    let mut i: usize = 0;
    while i < params.len()
        invariant
            all == views(params@),
            all == views(old(params)@),
            p == setting_with(id@),
            i <= params@.len(),
            first_where(all, p) == first_from(all, p, i as int),
        decreases params@.len() - i,
    {
        assert(all[i as int] == params@[i as int]@);
        if same(params[i].id.as_str(), id) {
            let _ = params.remove(i);
            assert(views(params@) =~= all.remove(i as int));
            return;
        }
        i = i + 1;
    }
}

/// Lights the spoken word (stored under `key`) in a color of its own, or stops doing so.
pub fn toggle_spoken(style: &mut Item, key: &str, color: Source)
    ensures
        final(style)@ == (ItemModel {
            params: if param_of(old(style)@.params, key@) is Some {
                without_setting(old(style)@.params, key@)
            } else {
                with_setting(old(style)@.params, key@, color)
            },
            ..old(style)@
        }),
{
    if get_param(&style.params, key).is_some() {
        clear_setting(&mut style.params, key);
    } else {
        set_setting(&mut style.params, key, color);
    }
}

proof fn found_alike(params: Seq<ParamModel>, id: Seq<char>, i: int)
    requires
        0 <= i,
    ensures
        crate::doc::param_from(params, id, i) is Some <==> first_from(params, setting_with(id), i)
            is Some,
    decreases params.len() - i,
{
    if i < params.len() {
        found_alike(params, id, i + 1);
    }
}

/// Lighting the spoken word and stopping leaves the look as it was.
pub proof fn lighting_is_undone(params: Seq<ParamModel>, key: Seq<char>, color: Source)
    requires
        param_of(params, key) is None,
    ensures
        param_of(with_setting(params, key, color), key) == Some(color),
        without_setting(with_setting(params, key, color), key) == params,
{
    found_alike(params, key, 0);
    let p = setting_with(key);
    first_is_right(params, p, 0);
    let lit = with_setting(params, key, color);
    assert(lit == params.push(ParamModel { id: key, source: color }));
    added_is_first(params, p, ParamModel { id: key, source: color }, 0);
    lit_is_stored(params, key, color, 0);
    assert(lit.remove(params.len() as int) =~= params);
}

proof fn lit_is_stored(params: Seq<ParamModel>, key: Seq<char>, color: Source, i: int)
    requires
        0 <= i <= params.len(),
        crate::doc::param_from(params, key, i) is None,
    ensures
        crate::doc::param_from(params.push(ParamModel { id: key, source: color }), key, i) == Some(
            color,
        ),
    decreases params.len() - i,
{
    let more = params.push(ParamModel { id: key, source: color });
    if i < params.len() {
        assert(more[i] == params[i]);
        lit_is_stored(params, key, color, i + 1);
    } else {
        assert(more[i] == (ParamModel { id: key, source: color }));
    }
}

// ---- boxes behind the text ----

/// The box behind the text.
pub open spec fn is_box(background: Seq<char>) -> spec_fn(EffectModel) -> bool {
    |e: EffectModel| e.type_id == background && e.role is Passive
}

/// The box behind the spoken word: one with a color for it (stored under `key`).
pub open spec fn is_marker(background: Seq<char>, key: Seq<char>) -> spec_fn(EffectModel) -> bool {
    |e: EffectModel| e.type_id == background && param_of(e.params, key) is Some
}

/// Where the box behind the text is among the effects.
pub fn box_at(effects: &Vec<EffectInstance>, background: &str) -> (out: Option<usize>)
    ensures
        match out {
            Some(i) => first_where(views(effects@), is_box(background@)) == Some(i as int),
            None => first_where(views(effects@), is_box(background@)) is None,
        },
{
    let ghost all = views(effects@);
    let ghost p = is_box(background@);
    let mut i: usize = 0;
    while i < effects.len()
        invariant
            all == views(effects@),
            p == is_box(background@),
            i <= effects@.len(),
            first_where(all, p) == first_from(all, p, i as int),
        decreases effects@.len() - i,
    {
        assert(all[i as int] == effects@[i as int]@);
        if same(effects[i].type_id.as_str(), background) && matches!(effects[i].role, EffectRole::Passive) {
            return Some(i);
        }
        i = i + 1;
    }
    None
}

/// Where the box behind the spoken word is among the effects.
pub fn marker_at(effects: &Vec<EffectInstance>, background: &str, key: &str) -> (out: Option<usize>)
    ensures
        match out {
            Some(i) => first_where(views(effects@), is_marker(background@, key@)) == Some(i as int),
            None => first_where(views(effects@), is_marker(background@, key@)) is None,
        },
{
    let ghost all = views(effects@);
    let ghost p = is_marker(background@, key@);
    let mut i: usize = 0;
    while i < effects.len()
        invariant
            all == views(effects@),
            p == is_marker(background@, key@),
            i <= effects@.len(),
            first_where(all, p) == first_from(all, p, i as int),
        decreases effects@.len() - i,
    {
        assert(all[i as int] == effects@[i as int]@);
        if same(effects[i].type_id.as_str(), background) && get_param(&effects[i].params, key).is_some() {
            return Some(i);
        }
        i = i + 1;
    }
    None
}

/// The effects with the first that fits taken off, or (where none does) with `new` added.
pub open spec fn toggled(effects: Seq<EffectModel>, p: spec_fn(EffectModel) -> bool, new: EffectModel) -> Seq<
    EffectModel,
> {
    match first_where(effects, p) {
        Some(i) => effects.remove(i),
        None => effects.push(new),
    }
}

/// A box behind each line.
pub open spec fn new_box(background: Seq<char>, shape: Source) -> EffectModel {
    EffectModel {
        id: EffectId(1),
        type_id: background,
        enabled: true,
        role: EffectRole::Passive,
        params: seq![ParamModel { id: "shape"@, source: shape }],
    }
}

/// Colors of the box behind the spoken word: clear behind the others.
#[derive(Copy, Clone, Debug, PartialEq, Eq, Structural)]
pub struct MarkerLook {
    pub shape: Source,
    pub clear: Source,
    pub lit: Source,
}

/// A box behind the spoken word.
pub open spec fn new_marker(background: Seq<char>, key: Seq<char>, look: MarkerLook) -> EffectModel {
    EffectModel {
        id: EffectId(2),
        type_id: background,
        enabled: true,
        role: EffectRole::Passive,
        params: with_setting(
            seq![
                ParamModel { id: "shape"@, source: look.shape },
                ParamModel { id: "color"@, source: look.clear },
            ],
            key,
            look.lit,
        ),
    }
}

/// Puts a box behind each line of the text, or takes the box away.
pub fn toggle_box(style: &mut Item, background: &str, shape: Source)
    ensures
        final(style)@ == (ItemModel {
            effects: toggled(
                old(style)@.effects,
                is_box(background@),
                new_box(background@, shape),
            ),
            ..old(style)@
        }),
{
    let ghost all = views(style.effects@);
    match box_at(&style.effects, background) {
        Some(i) => {
            proof {
                first_is_right(all, is_box(background@), 0);
            }
            let _ = style.effects.remove(i);
            assert(views(style.effects@) =~= all.remove(i as int));
        },
        None => {
            let params = vec![Param { id: "shape".to_owned(), source: shape }];
            assert(views(params@) =~= new_box(background@, shape).params);
            style.effects.push(
                EffectInstance {
                    id: EffectId(1),
                    type_id: background.to_owned(),
                    enabled: true,
                    role: EffectRole::Passive,
                    params,
                },
            );
            assert(views(style.effects@) =~= all.push(new_box(background@, shape)));
        },
    }
}

/// Puts a box behind the spoken word, or takes it away.
pub fn toggle_marker(style: &mut Item, background: &str, key: &str, look: MarkerLook)
    ensures
        final(style)@ == (ItemModel {
            effects: toggled(
                old(style)@.effects,
                is_marker(background@, key@),
                new_marker(background@, key@, look),
            ),
            ..old(style)@
        }),
{
    let ghost all = views(style.effects@);
    match marker_at(&style.effects, background, key) {
        Some(i) => {
            proof {
                first_is_right(all, is_marker(background@, key@), 0);
            }
            let _ = style.effects.remove(i);
            assert(views(style.effects@) =~= all.remove(i as int));
        },
        None => {
            let mut params = vec![
                Param { id: "shape".to_owned(), source: look.shape },
                Param { id: "color".to_owned(), source: look.clear },
            ];
            assert(views(params@) =~= seq![
                ParamModel { id: "shape"@, source: look.shape },
                ParamModel { id: "color"@, source: look.clear },
            ]);
            set_setting(&mut params, key, look.lit);
            style.effects.push(
                EffectInstance {
                    id: EffectId(2),
                    type_id: background.to_owned(),
                    enabled: true,
                    role: EffectRole::Passive,
                    params,
                },
            );
            assert(views(style.effects@) =~= all.push(new_marker(background@, key@, look)));
        },
    }
}

/// Putting a box behind the text and taking it away leaves the look as it was.
pub proof fn a_box_is_undone(effects: Seq<EffectModel>, background: Seq<char>, shape: Source)
    requires
        first_where(effects, is_box(background)) is None,
    ensures
        ({
            let p = is_box(background);
            let new = new_box(background, shape);
            toggled(toggled(effects, p, new), p, new) == effects
        }),
{
    let p = is_box(background);
    let new = new_box(background, shape);
    added_is_first(effects, p, new, 0);
    assert(effects.push(new).remove(effects.len() as int) =~= effects);
}

/// Putting a box behind the spoken word and taking it away leaves the look as it was.
pub proof fn a_marker_is_undone(
    effects: Seq<EffectModel>,
    background: Seq<char>,
    key: Seq<char>,
    look: MarkerLook,
)
    requires
        first_where(effects, is_marker(background, key)) is None,
    ensures
        ({
            let p = is_marker(background, key);
            let new = new_marker(background, key, look);
            toggled(toggled(effects, p, new), p, new) == effects
        }),
{
    let p = is_marker(background, key);
    let new = new_marker(background, key, look);
    let base = seq![
        ParamModel { id: "shape"@, source: look.shape },
        ParamModel { id: "color"@, source: look.clear },
    ];
    let q = setting_with(key);
    first_is_right(base, q, 0);
    match first_where(base, q) {
        Some(i) => {
            assert(new.params[i] == (ParamModel { id: key, source: look.lit }));
            some_is_first(new.params, q, 0, i);
        },
        None => {
            assert(new.params[2] == (ParamModel { id: key, source: look.lit }));
            some_is_first(new.params, q, 0, 2);
        },
    }
    found_alike(new.params, key, 0);
    assert(p(new));
    added_is_first(effects, p, new, 0);
    assert(effects.push(new).remove(effects.len() as int) =~= effects);
}

/// Sets something on one of the look's effects.
pub fn set_on_effect(style: &mut Item, i: usize, id: &str, source: Source)
    requires
        i < old(style).effects@.len(),
    ensures
        final(style)@ == (ItemModel {
            effects: old(style)@.effects.update(
                i as int,
                EffectModel {
                    params: with_setting(old(style)@.effects[i as int].params, id@, source),
                    ..old(style)@.effects[i as int]
                },
            ),
            ..old(style)@
        }),
{
    let ghost all = views(style.effects@);
    assert(all[i as int] == style.effects@[i as int]@);
    let mut e = style.effects[i].copy();
    set_setting(&mut e.params, id, source);
    let ghost new = e@;
    style.effects.set(i, e);
    assert(views(style.effects@) =~= all.update(i as int, new));
}

/// How a box follows the text.
#[derive(Copy, Clone, Debug, PartialEq, Eq, Structural)]
pub enum BoxShape {
    Text,
    Lines,
    Words,
}

impl BoxShape {
    /// What it's stored as, what it's called, and what it does.
    pub fn about(self) -> (out: (&'static str, &'static str, &'static str))
        ensures
            (out.0@, out.1@, out.2@) == match self {
                BoxShape::Text => ("text"@, "Whole"@, "One box behind all the text"@),
                BoxShape::Lines => ("lines"@, "Each line"@, "A box behind each line"@),
                BoxShape::Words => ("words"@, "Each word"@, "A box behind each word"@),
            },
    {
        match self {
            BoxShape::Text => ("text", "Whole", "One box behind all the text"),
            BoxShape::Lines => ("lines", "Each line", "A box behind each line"),
            BoxShape::Words => ("words", "Each word", "A box behind each word"),
        }
    }
}

// ---- what else was copied ----

/// The places of the first `n` effects that aren't boxes.
pub open spec fn others_to(effects: Seq<EffectModel>, background: Seq<char>, n: int) -> Seq<usize>
    decreases n,
{
    if n <= 0 {
        Seq::empty()
    } else if effects[n - 1].type_id != background {
        others_to(effects, background, n - 1).push((n - 1) as usize)
    } else {
        others_to(effects, background, n - 1)
    }
}

/// The places of what else came with a title: the effects that aren't boxes.
pub fn others(effects: &Vec<EffectInstance>, background: &str) -> (out: Vec<usize>)
    ensures
        out@ == others_to(views(effects@), background@, effects@.len() as int),
{
    let mut out: Vec<usize> = Vec::new();
    let mut i: usize = 0;
    while i < effects.len()
        invariant
            i <= effects@.len(),
            out@ == others_to(views(effects@), background@, i as int),
        decreases effects@.len() - i,
    {
        assert(views(effects@)[i as int] == effects@[i as int]@);
        if !same(effects[i].type_id.as_str(), background) {
            out.push(i);
        }
        i = i + 1;
    }
    out
}

/// Leaves an effect off the captions.
pub fn leave_off(style: &mut Item, i: usize)
    requires
        i < old(style).effects@.len(),
    ensures
        final(style)@ == (ItemModel { effects: old(style)@.effects.remove(i as int), ..old(style)@ }),
{
    let ghost all = views(style.effects@);
    let _ = style.effects.remove(i);
    assert(views(style.effects@) =~= all.remove(i as int));
}

// ---- remembering the look ----

fn same_effects(a: &Vec<EffectInstance>, b: &Vec<EffectInstance>) -> (out: bool)
    ensures
        out == (views(a@) == views(b@)),
{
    if a.len() != b.len() {
        assert(views(a@).len() != views(b@).len());
        return false;
    }
    let mut i: usize = 0;
    while i < a.len()
        invariant
            a@.len() == b@.len(),
            i <= a@.len(),
            forall|k: int| 0 <= k < i ==> a@[k]@ == b@[k]@,
        decreases a@.len() - i,
    {
        if a[i].id != b[i].id || !same(a[i].type_id.as_str(), b[i].type_id.as_str()) || a[i].enabled
            != b[i].enabled || a[i].role != b[i].role || !same_params(&a[i].params, &b[i].params) {
            assert(views(a@)[i as int] != views(b@)[i as int]);
            return false;
        }
        assert(a@[i as int]@ =~= b@[i as int]@);
        i = i + 1;
    }
    assert(views(a@) =~= views(b@));
    true
}

fn same_transitions(a: &Vec<Transition>, b: &Vec<Transition>) -> (out: bool)
    ensures
        out == (views(a@) == views(b@)),
{
    if a.len() != b.len() {
        assert(views(a@).len() != views(b@).len());
        return false;
    }
    let mut i: usize = 0;
    while i < a.len()
        invariant
            a@.len() == b@.len(),
            i <= a@.len(),
            forall|k: int| 0 <= k < i ==> a@[k]@ == b@[k]@,
        decreases a@.len() - i,
    {
        if a[i].at_start != b[i].at_start || !same_params(&a[i].params, &b[i].params) {
            assert(views(a@)[i as int] != views(b@)[i as int]);
            return false;
        }
        assert(a@[i as int]@ =~= b@[i as int]@);
        i = i + 1;
    }
    assert(views(a@) =~= views(b@));
    true
}

fn same_ranges(a: &Vec<TimeRange>, b: &Vec<TimeRange>) -> (out: bool)
    ensures
        out == (a@ == b@),
{
    if a.len() != b.len() {
        return false;
    }
    let mut i: usize = 0;
    while i < a.len()
        invariant
            a@.len() == b@.len(),
            i <= a@.len(),
            forall|k: int| 0 <= k < i ==> a@[k] == b@[k],
        decreases a@.len() - i,
    {
        if a[i] != b[i] {
            return false;
        }
        i = i + 1;
    }
    assert(a@ =~= b@);
    true
}

/// Whether the two clips are alike in everything.
pub fn same_item(a: &Item, b: &Item) -> (out: bool)
    ensures
        out == (a@ == b@),
{
    let out = a.id == b.id && same(a.name.as_str(), b.name.as_str()) && a.kind == b.kind && a.range == b.range
        && a.group == b.group && a.enabled == b.enabled && a.audio == b.audio && a.outro_reverses_intro
        == b.outro_reverses_intro && a.time_map == b.time_map && same_effects(&a.effects, &b.effects)
        && same_params(&a.params, &b.params) && same_transitions(&a.transitions, &b.transitions)
        && same_ranges(&a.word_times, &b.word_times) && a.rest == b.rest;
    assert(out ==> a@ =~= b@);
    out
}

/// The look to remember, if it was changed.
pub fn changed_look(before: &Item, style: Item) -> (out: Option<Item>)
    ensures
        out == if style@ == before@ {
            None
        } else {
            Some(style)
        },
{
    if same_item(&style, before) {
        None
    } else {
        Some(style)
    }
}

} // verus!
