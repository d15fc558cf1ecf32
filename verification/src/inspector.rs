//! The clip inspector, in tabs: what it shows for a clip, how its rows are labelled, and
//! what its menus offer.
use crate::doc::{
    effect_at, find_effect, item_of, EffectInstance, EffectModel, ItemId, ItemKind, Op, OpModel,
    ParamTarget, SeqId, SequenceModel, Time, TimeRange, TrackKind,
};
use crate::editor::{followers, source_of, Editor, PoolItem};
use crate::effects::List;
use crate::seqs::{filter_map_push, filter_step, first_from, first_where, take_all, views};
use crate::text::{
    chars_of, decimal, ends_with, is_blank, join2, number, parts, parts_is_never_empty, same, split,
    text_between,
};
use vstd::prelude::*;

verus! {

/// Which part of the clip the inspector is showing.
#[derive(Copy, Clone, Debug, PartialEq, Eq, Structural)]
pub enum Tab {
    Properties,
    Transitions,
    Effects,
    Sound,
}

impl Default for Tab {
    fn default() -> (out: Tab)
        ensures
            out == Tab::Properties,
    {
        Tab::Properties
    }
}

impl Tab {
    pub fn title(self) -> (out: &'static str)
        ensures
            out@ == match self {
                Tab::Properties => "Properties"@,
                Tab::Transitions => "Transitions"@,
                Tab::Effects => "Effects"@,
                Tab::Sound => "Sound"@,
            },
    {
        match self {
            Tab::Properties => "Properties",
            Tab::Transitions => "Transitions",
            Tab::Effects => "Effects",
            Tab::Sound => "Sound",
        }
    }
}

/// The clip has anything in the tab.
pub open spec fn has_tab(tab: Tab, visual: bool, audible: bool) -> bool {
    match tab {
        Tab::Properties => true,
        Tab::Transitions => visual,
        Tab::Effects => visual,
        Tab::Sound => audible,
    }
}

pub open spec fn in_tab(visual: bool, audible: bool) -> spec_fn(Tab) -> bool {
    |t: Tab| has_tab(t, visual, audible)
}

/// All the tabs, in order.
pub open spec fn all_tabs() -> Seq<Tab> {
    seq![Tab::Properties, Tab::Transitions, Tab::Effects, Tab::Sound]
}

/// The tabs: only the ones the clip has anything in.
pub fn tabs(visual: bool, audible: bool) -> (out: Vec<Tab>)
    ensures
        out@ == all_tabs().filter(in_tab(visual, audible)),
{
    let mut out: Vec<Tab> = Vec::new();
    out.push(Tab::Properties);
    if visual {
        out.push(Tab::Transitions);
        out.push(Tab::Effects);
    }
    if audible {
        out.push(Tab::Sound);
    }
    proof {
        let p = in_tab(visual, audible);
        let all = all_tabs();
        filter_step(all, p, 0);
        filter_step(all, p, 1);
        filter_step(all, p, 2);
        filter_step(all, p, 3);
        take_all(all);
        reveal_with_fuel(Seq::filter, 1);
        assert(out@ =~= all.filter(p));
    }
    out
}

/// The tab to show: the one chosen, if the clip has anything in it.
pub fn shown_tab(chosen: Tab, visual: bool, audible: bool) -> (out: Tab)
    ensures
        out == if has_tab(chosen, visual, audible) {
            chosen
        } else {
            Tab::Properties
        },
        has_tab(out, visual, audible),
{
    let there = match chosen {
        Tab::Properties => true,
        Tab::Transitions => visual,
        Tab::Effects => visual,
        Tab::Sound => audible,
    };
    if there {
        chosen
    } else {
        Tab::Properties
    }
}

/// The moment the inspector's values are for: the playhead, or the clip's nearest edge.
pub fn shown_moment(range: TimeRange, playhead: Time) -> (out: Time)
    requires
        range.fits(),
        range.ends() > i64::MIN,
    ensures
        out.0 == ({
            let t = if playhead.0 < range.start.0 {
                range.start.0 as int
            } else {
                playhead.0 as int
            };
            if range.ends() - 1 < t {
                range.ends() - 1
            } else {
                t
            }
        }),
        range.duration.0 > 0 ==> range.holds(out),
        range.holds(playhead) ==> out == playhead,
{
    let last: i64 = range.end().0 - 1;
    playhead.most(range.start).least(Time(last))
}

/// The sections of a clip's properties.
#[derive(Copy, Clone, Debug, PartialEq, Eq, Structural)]
pub struct Sections {
    /// Footage plays at a speed; a title or a solid has nothing to speed up.
    pub speed: bool,
    pub text: bool,
    pub transform: bool,
    /// How a picture file's values are read as light.
    pub source_color: bool,
}

/// Which sections a clip's properties have.
pub fn sections(kind: ItemKind, visual: bool, advanced_color: bool, file_has_picture: bool) -> (out: Sections)
    ensures
        out.speed == (kind is Media || kind is Nested),
        out.text == (kind is Text),
        out.transform == visual,
        out.source_color == (advanced_color && kind is Media && file_has_picture),
{
    Sections {
        speed: matches!(kind, ItemKind::Media { .. } | ItemKind::Nested { .. }),
        text: matches!(kind, ItemKind::Text),
        transform: visual,
        source_color: advanced_color && matches!(kind, ItemKind::Media { .. }) && file_has_picture,
    }
}

/// Whether a row of the transform shows: squash and crop are advanced, but still shown once
/// they hold something.
pub fn transform_row_shows(crop: bool, squash: bool, advanced: bool, at_default: bool, animated: bool) -> (out:
    bool)
    ensures
        out == !((crop || squash) && !advanced && at_default && !animated),
{
    !((crop || squash) && !advanced && at_default && !animated)
}

/// Which list an effect container's panel shows, and whether it has a mix and intros.
pub fn container_panel(kind: TrackKind) -> (out: (List, bool))
    ensures
        out == match kind {
            TrackKind::Video => (List::Effects, true),
            TrackKind::Audio => (List::Sound, false),
        },
{
    match kind {
        TrackKind::Video => (List::Effects, true),
        TrackKind::Audio => (List::Sound, false),
    }
}

/// What a blend mode is called.
pub fn blend_title(mode: &str) -> (out: &'static str)
    ensures
        out@ == if mode@ == "add"@ {
            "Add"@
        } else if mode@ == "multiply"@ {
            "Multiply"@
        } else if mode@ == "screen"@ {
            "Screen"@
        } else if mode@ == "darken"@ {
            "Darken"@
        } else if mode@ == "lighten"@ {
            "Lighten"@
        } else {
            "Normal"@
        },
{
    if same(mode, "add") {
        "Add"
    } else if same(mode, "multiply") {
        "Multiply"
    } else if same(mode, "screen") {
        "Screen"
    } else if same(mode, "darken") {
        "Darken"
    } else if same(mode, "lighten") {
        "Lighten"
    } else {
        "Normal"
    }
}

/// What kind of background a mode is called.
pub fn background_label(mode: &str) -> (out: &'static str)
    ensures
        out@ == if mode@ == "blur"@ {
            "Blurred content"@
        } else if mode@ == "texture"@ {
            "Texture"@
        } else {
            "Solid color"@
        },
{
    if same(mode, "blur") {
        "Blurred content"
    } else if same(mode, "texture") {
        "Texture"
    } else {
        "Solid color"
    }
}

// ---- the rows of settings ----

/// A name with its dashes and underscores read as spaces.
pub open spec fn spaced(s: Seq<char>) -> Seq<char> {
    s.map_values(
        |c: char|
            if c == '_' || c == '-' {
                ' '
            } else {
                c
            },
    )
}

/// The last part of a setting's id, as a label.
pub open spec fn pretty(id: Seq<char>) -> Seq<char> {
    spaced(parts(id, '.').last())
}

/// What stands before the suffix.
pub open spec fn stripped(s: Seq<char>, suffix: Seq<char>) -> Option<Seq<char>> {
    if suffix.is_suffix_of(s) {
        Some(s.take(s.len() - suffix.len()))
    } else {
        None
    }
}

/// What stands before the suffix.
pub fn strip_suffix(s: &str, suffix: &str) -> (out: Option<String>)
    ensures
        match out {
            Some(base) => stripped(s@, suffix@) == Some(base@),
            None => stripped(s@, suffix@) is None,
        },
{
    if !ends_with(s, suffix) {
        return None;
    }
    let chars = chars_of(s);
    let end: usize = chars_of(suffix).len();
    let n: usize = chars.len();
    let out = text_between(&chars, 0, n - end);
    assert(out@ =~= s@.take(s@.len() - suffix@.len()));
    Some(out)
}

/// The last part of a setting's id, as a label.
pub fn pretty_label(id: &str) -> (out: String)
    ensures
        out@ == pretty(id@),
{
    let pieces = split(id, '.');
    proof {
        parts_is_never_empty(id@, '.');
        assert(views(pieces@).len() == pieces@.len());
        assert(views(pieces@).last() == pieces@.last()@);
    }
    let n: usize = pieces.len();
    let chars = chars_of(pieces[n - 1].as_str());
    let mut out: String = String::new();
    let mut i: usize = 0;
    assert(spaced(chars@).take(0) =~= Seq::<char>::empty());
    while i < chars.len()
        invariant
            i <= chars@.len(),
            out@ == spaced(chars@).take(i as int),
        decreases chars@.len() - i,
    {
        let c: char = chars[i];
        if c == '_' || c == '-' {
            out.push(' ');
        } else {
            out.push(c);
        }
        i = i + 1;
        assert(out@ =~= spaced(chars@).take(i as int));
    }
    assert(spaced(chars@).take(i as int) =~= spaced(chars@));
    out
}

/// How a setting is labelled: its name, and for a value used on the word being spoken that
/// it is (`suffix` marks those).
pub fn setting_label(id: &str, suffix: &str) -> (out: String)
    ensures
        out@ == match stripped(id@, suffix@) {
            Some(base) => pretty(base) + " when spoken"@,
            None => pretty(id@),
        },
{
    match strip_suffix(id, suffix) {
        Some(base) => {
            let mut out = pretty_label(base.as_str());
            out.append(" when spoken");
            out
        },
        None => pretty_label(id),
    }
}

/// The kinds of values settings have.
#[derive(Copy, Clone, Debug, PartialEq, Eq, Structural)]
pub enum ValueKind {
    Float,
    Bool,
    Enum,
    Color,
    Text,
    Media,
    Gradient,
    Vec2,
    Other,
}

/// The ways a setting is edited.
#[derive(Copy, Clone, Debug, PartialEq, Eq, Structural)]
pub enum Widget {
    /// A pinwheel to spin and a field.
    Direction,
    Slider,
    Checkbox,
    Choice,
    Color,
    TextField,
    MediaChoice,
    /// One color.
    Swatch,
    /// A directional gradient.
    Gradient,
    Point,
    NotHere,
}

/// How a setting is edited. A gradient is a plain color until it has more than one (or
/// `advanced` was asked for).
pub fn widget_for(kind: ValueKind, direction: bool, stops: usize, advanced: bool) -> (out: Widget)
    ensures
        out == match kind {
            ValueKind::Float => if direction {
                Widget::Direction
            } else {
                Widget::Slider
            },
            ValueKind::Bool => Widget::Checkbox,
            ValueKind::Enum => Widget::Choice,
            ValueKind::Color => Widget::Color,
            ValueKind::Text => Widget::TextField,
            ValueKind::Media => Widget::MediaChoice,
            ValueKind::Gradient => if advanced || stops > 1 {
                Widget::Gradient
            } else {
                Widget::Swatch
            },
            ValueKind::Vec2 => Widget::Point,
            ValueKind::Other => Widget::NotHere,
        },
{
    match kind {
        ValueKind::Float => {
            if direction {
                Widget::Direction
            } else {
                Widget::Slider
            }
        },
        ValueKind::Bool => Widget::Checkbox,
        ValueKind::Enum => Widget::Choice,
        ValueKind::Color => Widget::Color,
        ValueKind::Text => Widget::TextField,
        ValueKind::Media => Widget::MediaChoice,
        ValueKind::Gradient => {
            if advanced || stops > 1 {
                Widget::Gradient
            } else {
                Widget::Swatch
            }
        },
        ValueKind::Vec2 => Widget::Point,
        ValueKind::Other => Widget::NotHere,
    }
}

/// Something that can feed an effect with a picture.
pub struct MediaOption {
    pub id: u64,
    pub name: String,
}

#[verifier::ext_equal]
pub struct MediaOptionModel {
    pub id: u64,
    pub name: Seq<char>,
}

impl View for MediaOption {
    type V = MediaOptionModel;

    open spec fn view(&self) -> MediaOptionModel {
        MediaOptionModel { id: self.id, name: self.name@ }
    }
}

/// A file of the pool that can feed an effect: there, and with a picture.
pub open spec fn feeds() -> spec_fn(PoolItem) -> Option<MediaOptionModel> {
    |p: PoolItem|
        if !p.missing && p.has_video {
            Some(MediaOptionModel { id: p.id.0, name: p.name@ })
        } else {
            None
        }
}

/// A compound clip, as it's offered.
pub open spec fn compound_option() -> spec_fn((SeqId, String)) -> MediaOptionModel {
    |c: (SeqId, String)| MediaOptionModel { id: c.0.0, name: "\u{25a3} "@ + c.1@ }
}

/// What can feed an effect with a picture (a matte, a map…): anything in the pool with
/// one, then the compound clips.
pub fn media_options(pool: &Vec<PoolItem>, compounds: &Vec<(SeqId, String)>) -> (out: Vec<MediaOption>)
    ensures
        views(out@) == pool@.filter_map(feeds()) + compounds@.map_values(compound_option()),
{
    let mut out: Vec<MediaOption> = Vec::new();
    let mut i: usize = 0;
    proof {
        take_all(pool@);
        assert(views(out@) =~= Seq::<MediaOptionModel>::empty());
    }
    while i < pool.len()
        invariant
            i <= pool@.len(),
            views(out@) == pool@.take(i as int).filter_map(feeds()),
        decreases pool@.len() - i,
    {
        proof {
            assert(pool@.take(i + 1) =~= pool@.take(i as int).push(pool@[i as int]));
            filter_map_push(pool@.take(i as int), feeds(), pool@[i as int]);
        }
        if !pool[i].missing && pool[i].has_video {
            let ghost had = out@;
            out.push(MediaOption { id: pool[i].id.0, name: pool[i].name.clone() });
            assert(views(out@) =~= views(had).push(out@.last()@));
        }
        i = i + 1;
    }
    proof {
        take_all(pool@);
    }
    let ghost files = pool@.filter_map(feeds());
    let ghost nested = compounds@.map_values(compound_option());
    let mut j: usize = 0;
    assert(files + nested.take(0) =~= files);
    while j < compounds.len()
        invariant
            nested == compounds@.map_values(compound_option()),
            j <= compounds@.len(),
            views(out@) == files + nested.take(j as int),
        decreases compounds@.len() - j,
    {
        let ghost had = out@;
        out.push(
            MediaOption {
                id: compounds[j].0.0,
                name: join2("\u{25a3} ", compounds[j].1.as_str()),
            },
        );
        proof {
            assert(out@.last()@ == nested[j as int]);
            assert(views(out@) =~= views(had).push(nested[j as int]));
            assert(nested.take(j + 1) =~= nested.take(j as int).push(nested[j as int]));
            assert(views(out@) =~= files + nested.take(j + 1));
        }
        j = j + 1;
    }
    proof {
        take_all(nested);
    }
    out
}

pub open spec fn option_for(id: u64) -> spec_fn(MediaOptionModel) -> bool {
    |o: MediaOptionModel| o.id == id
}

/// What the chosen picture is called (`none`: nothing chosen, or it's gone).
pub fn option_name(options: &Vec<MediaOption>, chosen: Option<u64>, none: &str) -> (out: String)
    ensures
        out@ == match chosen {
            None => none@,
            Some(id) => match first_where(views(options@), option_for(id)) {
                Some(i) => views(options@)[i].name,
                None => none@,
            },
        },
{
    match chosen {
        None => none.to_owned(),
        Some(id) => {
            let ghost p = option_for(id);
            let ghost all = views(options@);
            let mut i: usize = 0;
            while i < options.len()
                invariant
                    chosen == Some(id),
                    p == option_for(id),
                    all == views(options@),
                    i <= options@.len(),
                    first_where(all, p) == first_from(all, p, i as int),
                decreases options@.len() - i,
            {
                assert(all[i as int] == options@[i as int]@);
                if options[i].id == id {
                    return options[i].name.clone();
                }
                i = i + 1;
            }
            none.to_owned()
        },
    }
}

/// What a point of an `n` by `n` surface is called.
pub fn surface_point_label(n: usize, row: usize, column: usize) -> (out: String)
    requires
        row < n,
        column < n,
    ensures
        out@ == if n == 2 {
            if row == 0 && column == 0 {
                "top left"@
            } else if row == 0 {
                "top right"@
            } else if column == 0 {
                "bottom left"@
            } else {
                "bottom right"@
            }
        } else {
            "row "@ + decimal((row + 1) as nat) + ", column "@ + decimal((column + 1) as nat)
        },
{
    if n == 2 {
        if row == 0 && column == 0 {
            "top left".to_owned()
        } else if row == 0 {
            "top right".to_owned()
        } else if column == 0 {
            "bottom left".to_owned()
        } else {
            "bottom right".to_owned()
        }
    } else {
        let mut out = join2("row ", number(row as u64 + 1).as_str());
        out.append(", column ");
        out.append(number(column as u64 + 1).as_str());
        out
    }
}

pub open spec fn not_blank() -> spec_fn(char) -> bool {
    |c: char| !is_blank(c)
}

/// How many letters a title has (spaces aren't letters), one at least.
pub fn letter_count(text: &str) -> (out: usize)
    ensures
        out == if text@.filter(not_blank()).len() > 0 {
            text@.filter(not_blank()).len()
        } else {
            1
        },
{
    let chars = chars_of(text);
    let ghost p = not_blank();
    let mut n: usize = 0;
    let mut i: usize = 0;
    proof {
        take_all(chars@);
        reveal_with_fuel(Seq::filter, 1);
    }
    while i < chars.len()
        invariant
            p == not_blank(),
            i <= chars@.len(),
            n <= i,
            n == chars@.take(i as int).filter(p).len(),
        decreases chars@.len() - i,
    {
        proof {
            filter_step(chars@, p, i as int);
        }
        if !crate::text::blank(chars[i]) {
            n = n + 1;
        }
        i = i + 1;
    }
    proof {
        take_all(chars@);
    }
    if n > 0 {
        n
    } else {
        1
    }
}

// ---- values used on the word being spoken ----

/// A setting of a clip can take its own value on the word being spoken: a title's color
/// and outline (`title_settings`), and any text effect's settings (`text_effects` are the
/// effects that only work on titles).
pub open spec fn can_highlight(
    s: SequenceModel,
    item: ItemId,
    target: ParamTarget,
    param: Seq<char>,
    suffix: Seq<char>,
    title_settings: Seq<Seq<char>>,
    text_effects: Seq<Seq<char>>,
) -> bool {
    !suffix.is_suffix_of(param) && match item_of(s, item) {
        None => false,
        Some(it) => it.kind is Text && match target {
            ParamTarget::Item => title_settings.contains(param),
            ParamTarget::Effect(id) => match effect_at(it.effects, id) {
                Some(i) => text_effects.contains(it.effects[i].type_id),
                None => false,
            },
            _ => false,
        },
    }
}

impl Editor {
    /// Whether a setting can take its own value on the word being spoken.
    pub fn can_highlight_spoken(
        &self,
        item: ItemId,
        target: ParamTarget,
        param: &str,
        suffix: &str,
        title_settings: &Vec<String>,
        text_effects: &Vec<String>,
    ) -> (out: bool)
        ensures
            out == can_highlight(
                self.timeline@,
                item,
                target,
                param@,
                suffix@,
                views(title_settings@),
                views(text_effects@),
            ),
    {
        if ends_with(param, suffix) {
            return false;
        }
        match self.timeline.item(item) {
            None => false,
            Some(it) => {
                if !matches!(it.kind, ItemKind::Text) {
                    return false;
                }
                match target {
                    ParamTarget::Item => crate::text::listed(title_settings, param),
                    ParamTarget::Effect(id) => match find_effect(&it.effects, id) {
                        Some(i) => {
                            assert(it@.effects[i as int] == it.effects@[i as int]@);
                            crate::text::listed(text_effects, it.effects[i].type_id.as_str())
                        },
                        None => false,
                    },
                    _ => false,
                }
            },
        }
    }

    /// Takes a "when spoken" value away — from every linked clip that has it, when
    /// several are being edited together.
    pub fn remove_spoken(&self, item: ItemId, target: ParamTarget, key: &str) -> (out: Vec<Op>)
        ensures
            views(out@) == spoken_places(self.timeline@, self.linked@, item, target).filter_map(
                unsetter(self.timeline@, key@),
            ),
    {
        let s = &self.timeline;
        let places = self.spoken_clips(item, target);
        let ghost f = unsetter(s@, key@);
        let mut out: Vec<Op> = Vec::new();
        let mut i: usize = 0;
        proof {
            take_all(places@);
            assert(views(out@) =~= Seq::<OpModel>::empty());
        }
        while i < places.len()
            invariant
                s == &self.timeline,
                f == unsetter(s@, key@),
                i <= places@.len(),
                views(out@) == places@.take(i as int).filter_map(f),
            decreases places@.len() - i,
        {
            proof {
                assert(places@.take(i + 1) =~= places@.take(i as int).push(places@[i as int]));
                filter_map_push(places@.take(i as int), f, places@[i as int]);
            }
            if self.param_source(places[i].0, places[i].1, key).is_some() {
                let ghost had = out@;
                out.push(
                    Op::SetParam {
                        seq: s.id,
                        item: places[i].0,
                        target: places[i].1,
                        param: key.to_owned(),
                        source: None,
                    },
                );
                assert(views(out@) =~= views(had).push(out@.last()@));
            }
            i = i + 1;
        }
        proof {
            take_all(places@);
        }
        out
    }

    fn spoken_clips(&self, item: ItemId, target: ParamTarget) -> (out: Vec<(ItemId, ParamTarget)>)
        ensures
            out@ == spoken_places(self.timeline@, self.linked@, item, target),
    {
        let s = &self.timeline;
        let peers = self.followers(item);
        let ghost f = spoken_finder(s@, item, target);
        let ghost here = seq![(item, target)];
        let mut out: Vec<(ItemId, ParamTarget)> = Vec::new();
        out.push((item, target));
        let mut i: usize = 0;
        proof {
            take_all(peers@);
            assert(out@ =~= here + Seq::<(ItemId, ParamTarget)>::empty());
        }
        while i < peers.len()
            invariant
                s == &self.timeline,
                f == spoken_finder(s@, item, target),
                i <= peers@.len(),
                out@ == here + peers@.take(i as int).filter_map(f),
            decreases peers@.len() - i,
        {
            let other = peers[i];
            let ghost kept = peers@.take(i as int);
            proof {
                assert(peers@.take(i + 1) =~= kept.push(other));
                filter_map_push(kept, f, other);
            }
            match self.spoken_on(item, target, other) {
                Some(there) => {
                    out.push(there);
                    assert(out@ =~= here + kept.filter_map(f).push(there));
                },
                None => {},
            }
            i = i + 1;
        }
        proof {
            take_all(peers@);
        }
        out
    }

    fn spoken_on(&self, item: ItemId, target: ParamTarget, other: ItemId) -> (out: Option<
        (ItemId, ParamTarget),
    >)
        ensures
            out == spoken_place(self.timeline@, item, target, other),
    {
        match target {
            ParamTarget::Effect(id) => {
                if let Some(it) = self.timeline.item(item) {
                    if let Some(i) = find_effect(&it.effects, id) {
                        assert(it@.effects[i as int] == it.effects@[i as int]@);
                        if let Some(o) = self.timeline.item(other) {
                            if let Some(j) = first_of_type(
                                &o.effects,
                                it.effects[i].type_id.as_str(),
                            ) {
                                assert(o@.effects[j as int] == o.effects@[j as int]@);
                                return Some((other, ParamTarget::Effect(o.effects[j].id)));
                            }
                        }
                    }
                }
                None
            },
            _ => Some((other, target)),
        }
    }
}

pub open spec fn has_type(type_id: Seq<char>) -> spec_fn(EffectModel) -> bool {
    |e: EffectModel| e.type_id == type_id
}

fn first_of_type(effects: &Vec<EffectInstance>, type_id: &str) -> (out: Option<usize>)
    ensures
        match out {
            Some(i) => first_where(views(effects@), has_type(type_id@)) == Some(i as int) && i
                < effects@.len(),
            None => first_where(views(effects@), has_type(type_id@)) is None,
        },
{
    let ghost all = views(effects@);
    let ghost p = has_type(type_id@);
    let mut i: usize = 0;
    while i < effects.len()
        invariant
            all == views(effects@),
            p == has_type(type_id@),
            i <= effects@.len(),
            first_where(all, p) == first_from(all, p, i as int),
        decreases effects@.len() - i,
    {
        assert(all[i as int] == effects@[i as int]@);
        if same(effects[i].type_id.as_str(), type_id) {
            return Some(i);
        }
        i = i + 1;
    }
    None
}

/// The same property on another clip: a title's own, or its first text effect of the type.
pub open spec fn spoken_place(s: SequenceModel, item: ItemId, target: ParamTarget, other: ItemId) -> Option<
    (ItemId, ParamTarget),
> {
    match target {
        ParamTarget::Effect(id) => match item_of(s, item) {
            None => None,
            Some(it) => match effect_at(it.effects, id) {
                None => None,
                Some(i) => match item_of(s, other) {
                    None => None,
                    Some(o) => match first_where(o.effects, has_type(it.effects[i].type_id)) {
                        Some(j) => Some((other, ParamTarget::Effect(o.effects[j].id))),
                        None => None,
                    },
                },
            },
        },
        _ => Some((other, target)),
    }
}

pub open spec fn spoken_finder(s: SequenceModel, item: ItemId, target: ParamTarget) -> spec_fn(
    ItemId,
) -> Option<(ItemId, ParamTarget)> {
    |o: ItemId| spoken_place(s, item, target, o)
}

/// The clip's setting, and the same one on each linked clip.
pub open spec fn spoken_places(
    s: SequenceModel,
    linked: Seq<ItemId>,
    item: ItemId,
    target: ParamTarget,
) -> Seq<(ItemId, ParamTarget)> {
    seq![(item, target)] + followers(linked, item).filter_map(spoken_finder(s, item, target))
}

/// The change that takes a setting away, where it's set.
pub open spec fn unsetter(s: SequenceModel, key: Seq<char>) -> spec_fn(
    (ItemId, ParamTarget),
) -> Option<OpModel> {
    |p: (ItemId, ParamTarget)|
        if source_of(s, p.0, p.1, key) is Some {
            Some(
                OpModel::SetParam { seq: s.id, item: p.0, target: p.1, param: key, source: None },
            )
        } else {
            None
        }
}

/// What a setting's menu says of the word being spoken.
#[derive(Copy, Clone, Debug, PartialEq, Eq, Structural)]
pub enum SpokenEntry {
    Nothing,
    Highlight,
    Remove,
}

/// What a setting's menu offers: taking a spoken value away (on the value itself, or where
/// there's one), or adding one. `spoken` says the setting is itself a spoken value, `can`
/// that it (or what it's for) can be highlighted, `set` that it has a spoken value.
pub fn spoken_entry(spoken: bool, can: bool, set: bool) -> (out: SpokenEntry)
    ensures
        out == if !can {
            SpokenEntry::Nothing
        } else if spoken || set {
            SpokenEntry::Remove
        } else {
            SpokenEntry::Highlight
        },
{
    if !can {
        SpokenEntry::Nothing
    } else if spoken || set {
        SpokenEntry::Remove
    } else {
        SpokenEntry::Highlight
    }
}

impl Editor {
    /// Whether a setting's spoken value has a row of its own under it. `spoken` is that
    /// value's setting, `suffix` what such settings end with.
    pub fn has_spoken_row(
        &self,
        item: ItemId,
        target: ParamTarget,
        param: &str,
        spoken: &str,
        suffix: &str,
    ) -> (out: bool)
        ensures
            out == (!suffix@.is_suffix_of(param@) && source_of(
                self.timeline@,
                item,
                target,
                spoken@,
            ) is Some),
    {
        !ends_with(param, suffix) && self.param_source(item, target, spoken).is_some()
    }
}

// ---- a title's rows ----

/// Whether a row of a title's settings shows: the outline's color only where there's an
/// outline.
pub fn text_row_shows(outline_color: bool, outlined: bool) -> (out: bool)
    ensures
        out == (!outline_color || outlined),
{
    !outline_color || outlined
}

// ---- the scene, shown where no clip is selected ----

/// The sections of the scene.
#[derive(Copy, Clone, Debug, PartialEq, Eq, Structural)]
pub enum SceneSection {
    Background,
    BackgroundEffects,
    /// How the picture meets a screen and the exported file.
    Output,
}

pub fn scene_sections(advanced_color: bool) -> (out: Vec<SceneSection>)
    ensures
        out@ == if advanced_color {
            seq![SceneSection::Background, SceneSection::BackgroundEffects, SceneSection::Output]
        } else {
            seq![SceneSection::Background, SceneSection::BackgroundEffects]
        },
{
    let mut out = vec![SceneSection::Background, SceneSection::BackgroundEffects];
    if advanced_color {
        out.push(SceneSection::Output);
    }
    out
}

/// What's set of a background.
#[derive(Copy, Clone, Debug, PartialEq, Eq, Structural)]
pub enum BackgroundPanel {
    /// How much it's blurred and darkened.
    Blur,
    /// Its picture, and how big its tiles are.
    Texture,
    /// One color.
    Color,
    /// A gradient.
    Gradient,
}

/// What's set of a background of a mode: a gradient where it was asked for (`advanced`) or
/// already has more than one color.
pub fn background_panel(mode: &str, advanced: bool, stops: usize) -> (out: BackgroundPanel)
    ensures
        out == if mode@ == "blur"@ {
            BackgroundPanel::Blur
        } else if mode@ == "texture"@ {
            BackgroundPanel::Texture
        } else if advanced || stops > 1 {
            BackgroundPanel::Gradient
        } else {
            BackgroundPanel::Color
        },
{
    if same(mode, "blur") {
        BackgroundPanel::Blur
    } else if same(mode, "texture") {
        BackgroundPanel::Texture
    } else if advanced || stops > 1 {
        BackgroundPanel::Gradient
    } else {
        BackgroundPanel::Color
    }
}

// ---- a property's menu ----

/// An entry of a property's menu.
#[derive(Copy, Clone, Debug, PartialEq, Eq, Structural)]
pub enum PropertyEntry {
    Copy,
    /// Whether there's a value that can be pasted.
    Paste(bool),
    Reset,
    Curve,
    Wave,
    Connection,
    /// Makes it the one the clip's line shows; whether it is.
    Line(bool),
    Track,
    Stabilize,
    Highlight,
    RemoveHighlight,
}

/// What a property's menu offers. `line`: it's a number, and whether the clip's line shows
/// it. `tracks`: it can follow a track, and whether one can steady the clip.
pub open spec fn menu_of(
    pastable: bool,
    line: Option<bool>,
    tracks: Option<bool>,
    spoken: SpokenEntry,
) -> Seq<PropertyEntry> {
    seq![PropertyEntry::Copy, PropertyEntry::Paste(pastable), PropertyEntry::Reset] + match line {
        Some(on) => seq![
            PropertyEntry::Curve,
            PropertyEntry::Wave,
            PropertyEntry::Connection,
            PropertyEntry::Line(on),
        ],
        None => seq![],
    } + match tracks {
        Some(true) => seq![PropertyEntry::Track, PropertyEntry::Stabilize],
        Some(false) => seq![PropertyEntry::Track],
        None => seq![],
    } + match spoken {
        SpokenEntry::Highlight => seq![PropertyEntry::Highlight],
        SpokenEntry::Remove => seq![PropertyEntry::RemoveHighlight],
        SpokenEntry::Nothing => seq![],
    }
}

pub fn property_menu(
    pastable: bool,
    line: Option<bool>,
    tracks: Option<bool>,
    spoken: SpokenEntry,
) -> (out: Vec<PropertyEntry>)
    ensures
        out@ == menu_of(pastable, line, tracks, spoken),
{
    let mut out = vec![PropertyEntry::Copy, PropertyEntry::Paste(pastable), PropertyEntry::Reset];
    if let Some(on) = line {
        out.push(PropertyEntry::Curve);
        out.push(PropertyEntry::Wave);
        out.push(PropertyEntry::Connection);
        out.push(PropertyEntry::Line(on));
    }
    if let Some(steadies) = tracks {
        out.push(PropertyEntry::Track);
        if steadies {
            out.push(PropertyEntry::Stabilize);
        }
    }
    match spoken {
        SpokenEntry::Highlight => {
            out.push(PropertyEntry::Highlight);
        },
        SpokenEntry::Remove => {
            out.push(PropertyEntry::RemoveHighlight);
        },
        SpokenEntry::Nothing => {},
    }
    assert(out@ =~= menu_of(pastable, line, tracks, spoken));
    out
}

} // verus!
