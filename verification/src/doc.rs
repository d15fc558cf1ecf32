//! What the editor reads of a project: clips on tracks, their effects and settings, and
//! the changes a command asks the document for.
use crate::color::InputColor;
use crate::outcomes::MediaScaling;
use crate::seqs::views;
use crate::text::same;
use vstd::prelude::*;

verus! {

#[derive(Copy, Clone, Debug, PartialEq, Eq, Structural)]
pub struct ItemId(pub u64);

#[derive(Copy, Clone, Debug, PartialEq, Eq, Structural)]
pub struct TrackId(pub u64);

#[derive(Copy, Clone, Debug, PartialEq, Eq, Structural)]
pub struct SeqId(pub u64);

#[derive(Copy, Clone, Debug, PartialEq, Eq, Structural)]
pub struct MediaId(pub u64);

#[derive(Copy, Clone, Debug, PartialEq, Eq, Structural)]
pub struct EffectId(pub u64);

#[derive(Copy, Clone, Debug, PartialEq, Eq, Structural)]
pub struct VariantId(pub u64);

/// A moment or a length, in flicks.
#[derive(Copy, Clone, Debug, PartialEq, Eq, Structural)]
pub struct Time(pub i64);

/// Flicks in a second.
pub const SECOND: i64 = 705_600_000;

/// A moment far enough from the ends of time to reckon with.
pub open spec fn reckonable(t: Time) -> bool {
    -0x1000_0000_0000_0000 <= t.0 <= 0x1000_0000_0000_0000
}

impl Time {
    /// The earlier (or shorter) of the two.
    pub open spec fn spec_least(self, other: Time) -> Time {
        if other.0 < self.0 {
            other
        } else {
            self
        }
    }

    /// The later (or longer) of the two.
    pub open spec fn spec_most(self, other: Time) -> Time {
        if other.0 > self.0 {
            other
        } else {
            self
        }
    }

    /// The earlier (or shorter) of the two.
    pub fn least(self, other: Time) -> (out: Time)
        ensures
            out == self.spec_least(other),
    {
        if other.0 < self.0 {
            other
        } else {
            self
        }
    }

    /// The later (or longer) of the two.
    pub fn most(self, other: Time) -> (out: Time)
        ensures
            out == self.spec_most(other),
    {
        if other.0 > self.0 {
            other
        } else {
            self
        }
    }
}

/// A stretch of the timeline: from `start`, up to but not including its end.
#[derive(Copy, Clone, Debug, PartialEq, Eq, Structural)]
pub struct TimeRange {
    pub start: Time,
    pub duration: Time,
}

impl TimeRange {
    /// Where it ends.
    pub open spec fn ends(self) -> int {
        self.start.0 + self.duration.0
    }

    /// Its end is a moment that can be written down.
    pub open spec fn fits(self) -> bool {
        i64::MIN <= self.ends() <= i64::MAX
    }

    /// The moment `t` is inside it.
    pub open spec fn holds(self, t: Time) -> bool {
        self.start.0 <= t.0 && t.0 < self.ends()
    }

    /// The two share a moment.
    pub open spec fn meets(self, other: TimeRange) -> bool {
        self.start.0 < other.ends() && other.start.0 < self.ends()
    }

    pub fn end(self) -> (out: Time)
        requires
            self.fits(),
        ensures
            out.0 == self.ends(),
    {
        Time(self.start.0 + self.duration.0)
    }

    /// Whether the moment `t` is inside it.
    pub fn contains(self, t: Time) -> (out: bool)
        ensures
            out == self.holds(t),
    {
        self.start.0 <= t.0 && (t.0 as i128) < self.start.0 as i128 + self.duration.0 as i128
    }

    /// Whether the two share a moment.
    pub fn overlaps(self, other: TimeRange) -> (out: bool)
        ensures
            out == self.meets(other),
    {
        (self.start.0 as i128) < other.start.0 as i128 + other.duration.0 as i128
            && (other.start.0 as i128) < self.start.0 as i128 + self.duration.0 as i128
    }
}

#[derive(Copy, Clone, Debug, PartialEq, Eq, Structural)]
pub enum TrackKind {
    Video,
    Audio,
}

#[derive(Copy, Clone, Debug, PartialEq, Eq, Structural)]
pub enum MediaKind {
    Video,
    Audio,
    Still,
}

/// What a clip plays.
#[derive(Copy, Clone, Debug, PartialEq, Eq, Structural)]
pub enum ItemKind {
    Media { media: MediaId },
    Nested { sequence: SeqId },
    Text,
    Solid,
    /// An effect container.
    Adjustment,
}

/// When an effect plays on its clip.
#[derive(Copy, Clone, Debug, PartialEq, Eq, Structural)]
pub enum EffectRole {
    /// For the clip's whole length.
    Passive,
    /// Over its first moments.
    In { duration: Time },
    /// Over its last moments.
    Out { duration: Time },
    /// An intro, played backwards over the clip's last moments.
    Reversed { duration: Time },
}

/// How a setting is stored: equal sources have the same `stored` number.
#[derive(Copy, Clone, Debug, PartialEq, Eq, Structural)]
pub struct Source {
    pub stored: u64,
    /// It has keyframes.
    pub keyed: bool,
}

/// Where in its file a clip starts and how fast it plays.
#[derive(Copy, Clone, Debug, PartialEq, Eq, Structural)]
pub struct TimeMap {
    pub source_in: Time,
    pub speed_num: i64,
    pub speed_den: i64,
}

/// One setting that isn't at its default.
pub struct Param {
    pub id: String,
    pub source: Source,
}

#[verifier::ext_equal]
pub struct ParamModel {
    pub id: Seq<char>,
    pub source: Source,
}

impl View for Param {
    type V = ParamModel;

    open spec fn view(&self) -> ParamModel {
        ParamModel { id: self.id@, source: self.source }
    }
}

/// An effect on a clip.
pub struct EffectInstance {
    pub id: EffectId,
    pub type_id: String,
    pub enabled: bool,
    pub role: EffectRole,
    pub params: Vec<Param>,
}

#[verifier::ext_equal]
pub struct EffectModel {
    pub id: EffectId,
    pub type_id: Seq<char>,
    pub enabled: bool,
    pub role: EffectRole,
    pub params: Seq<ParamModel>,
}

impl View for EffectInstance {
    type V = EffectModel;

    open spec fn view(&self) -> EffectModel {
        EffectModel {
            id: self.id,
            type_id: self.type_id@,
            enabled: self.enabled,
            role: self.role,
            params: views(self.params@),
        }
    }
}

/// A transition on one end of a clip.
pub struct Transition {
    /// On its start (else on its end).
    pub at_start: bool,
    pub params: Vec<Param>,
}

#[verifier::ext_equal]
pub struct TransitionModel {
    pub at_start: bool,
    pub params: Seq<ParamModel>,
}

impl View for Transition {
    type V = TransitionModel;

    open spec fn view(&self) -> TransitionModel {
        TransitionModel { at_start: self.at_start, params: views(self.params@) }
    }
}

/// A clip on a track.
pub struct Item {
    pub id: ItemId,
    pub name: String,
    pub kind: ItemKind,
    pub range: TimeRange,
    pub group: Option<u64>,
    pub enabled: bool,
    /// Its file's sound plays from it.
    pub audio: bool,
    /// Its outro is its intro, backwards.
    pub outro_reverses_intro: bool,
    pub time_map: TimeMap,
    pub effects: Vec<EffectInstance>,
    pub params: Vec<Param>,
    pub transitions: Vec<Transition>,
    /// When each word of a caption is said, on the clip's own clock.
    pub word_times: Vec<TimeRange>,
    /// What else the document keeps of the clip, by number.
    pub rest: u64,
}

#[verifier::ext_equal]
pub struct ItemModel {
    pub id: ItemId,
    pub name: Seq<char>,
    pub kind: ItemKind,
    pub range: TimeRange,
    pub group: Option<u64>,
    pub enabled: bool,
    pub audio: bool,
    pub outro_reverses_intro: bool,
    pub time_map: TimeMap,
    pub effects: Seq<EffectModel>,
    pub params: Seq<ParamModel>,
    pub transitions: Seq<TransitionModel>,
    pub word_times: Seq<TimeRange>,
    pub rest: u64,
}

impl View for Item {
    type V = ItemModel;

    open spec fn view(&self) -> ItemModel {
        ItemModel {
            id: self.id,
            name: self.name@,
            kind: self.kind,
            range: self.range,
            group: self.group,
            enabled: self.enabled,
            audio: self.audio,
            outro_reverses_intro: self.outro_reverses_intro,
            time_map: self.time_map,
            effects: views(self.effects@),
            params: views(self.params@),
            transitions: views(self.transitions@),
            word_times: self.word_times@,
            rest: self.rest,
        }
    }
}

/// A row of clips: sound or picture, or (`effects`) of effect containers.
pub struct Track {
    pub id: TrackId,
    pub name: String,
    pub kind: TrackKind,
    pub effects: bool,
    pub items: Vec<Item>,
    /// What else the document keeps of the track, by number.
    pub rest: u64,
}

#[verifier::ext_equal]
pub struct TrackModel {
    pub id: TrackId,
    pub name: Seq<char>,
    pub kind: TrackKind,
    pub effects: bool,
    pub items: Seq<ItemModel>,
    pub rest: u64,
}

impl View for Track {
    type V = TrackModel;

    open spec fn view(&self) -> TrackModel {
        TrackModel {
            id: self.id,
            name: self.name@,
            kind: self.kind,
            effects: self.effects,
            items: views(self.items@),
            rest: self.rest,
        }
    }
}

/// What one format keeps of its own for a clip.
pub struct Override {
    pub item: ItemId,
    pub params: Vec<Param>,
}

#[verifier::ext_equal]
pub struct OverrideModel {
    pub item: ItemId,
    pub params: Seq<ParamModel>,
}

impl View for Override {
    type V = OverrideModel;

    open spec fn view(&self) -> OverrideModel {
        OverrideModel { item: self.item, params: views(self.params@) }
    }
}

/// One of a sequence's formats.
pub struct FormatVariant {
    pub id: VariantId,
    pub name: String,
    pub width: u32,
    pub height: u32,
    pub overrides: Vec<Override>,
}

#[verifier::ext_equal]
pub struct VariantModel {
    pub id: VariantId,
    pub name: Seq<char>,
    pub width: u32,
    pub height: u32,
    pub overrides: Seq<OverrideModel>,
}

impl View for FormatVariant {
    type V = VariantModel;

    open spec fn view(&self) -> VariantModel {
        VariantModel {
            id: self.id,
            name: self.name@,
            width: self.width,
            height: self.height,
            overrides: views(self.overrides@),
        }
    }
}

/// A timeline: the project's main one, or a compound clip's.
pub struct Sequence {
    pub id: SeqId,
    pub name: String,
    /// Frames per second, as a fraction.
    pub rate_num: u32,
    pub rate_den: u32,
    /// Which of `variants` is the one being edited.
    pub active: usize,
    pub variants: Vec<FormatVariant>,
    pub tracks: Vec<Track>,
    /// What's behind the clips, edited as a clip of its own (on no track).
    pub background: Item,
    /// How many dividers cut it into sections.
    pub dividers: usize,
}

#[verifier::ext_equal]
pub struct SequenceModel {
    pub id: SeqId,
    pub name: Seq<char>,
    pub rate_num: u32,
    pub rate_den: u32,
    pub active: usize,
    pub variants: Seq<VariantModel>,
    pub tracks: Seq<TrackModel>,
    pub background: ItemModel,
    pub dividers: usize,
}

impl View for Sequence {
    type V = SequenceModel;

    open spec fn view(&self) -> SequenceModel {
        SequenceModel {
            id: self.id,
            name: self.name@,
            rate_num: self.rate_num,
            rate_den: self.rate_den,
            active: self.active,
            variants: views(self.variants@),
            tracks: views(self.tracks@),
            background: self.background@,
            dividers: self.dividers,
        }
    }
}

/// Whose setting is meant.
#[derive(Copy, Clone, Debug, PartialEq, Eq, Structural)]
pub enum ParamTarget {
    Item,
    Effect(EffectId),
    /// The transition at one end of the clip (`true`: the start).
    Transition(bool),
    VariantOverride(VariantId),
}

/// Why a command can't be done.
#[derive(Copy, Clone, Debug, PartialEq, Eq, Structural)]
pub enum EditError {
    NoSuchMedia(MediaId),
    NoSuchItem(ItemId),
    NoSuchTrack(TrackId),
    NoSuchSequence(SeqId),
    NoClips,
    WrongTrackKind,
    Overlap,
    InvalidRange,
}

/// A change asked of the document.
#[allow(inconsistent_fields)]
pub enum Op {
    InsertItem { seq: SeqId, track: TrackId, item: Item },
    RemoveItem { seq: SeqId, item: ItemId },
    InsertTrack { seq: SeqId, index: usize, track: Track },
    RemoveTrack { seq: SeqId, track: TrackId },
    SetTrackName { seq: SeqId, track: TrackId, name: String },
    AddSequence { sequence: Sequence },
    RemoveSequence { seq: SeqId },
    SetParam {
        seq: SeqId,
        item: ItemId,
        target: ParamTarget,
        param: String,
        source: Option<Source>,
    },
    InsertEffect { seq: SeqId, item: ItemId, index: usize, effect: EffectInstance },
    RemoveEffect { seq: SeqId, item: ItemId, effect: EffectId },
    SetEffectEnabled { seq: SeqId, item: ItemId, effect: EffectId, enabled: bool },
    SetEffectRole { seq: SeqId, item: ItemId, effect: EffectId, role: EffectRole },
    SetReverseIntro { seq: SeqId, item: ItemId, on: bool },
    SetItemGroup { seq: SeqId, item: ItemId, group: Option<u64> },
    SetItemEnabled { seq: SeqId, item: ItemId, enabled: bool },
    SetItemTiming { seq: SeqId, item: ItemId, range: TimeRange, time_map: TimeMap },
    InsertVariant { seq: SeqId, index: usize, variant: FormatVariant, make_active: bool },
    RemoveVariant { seq: SeqId, variant: VariantId },
    SetVariantSize { seq: SeqId, variant: VariantId, width: u32, height: u32 },
    SetVariantName { seq: SeqId, variant: VariantId, name: String },
    SetSequenceParam { seq: SeqId, param: String, source: Option<Source> },
    SetMediaFolder { media: MediaId, folder: String },
    SetMediaScaling { media: MediaId, scaling: MediaScaling },
    SetMediaColor { media: MediaId, color: InputColor },
    SetBinFolders { folders: Vec<String> },
}

#[allow(inconsistent_fields)]
#[verifier::ext_equal]
pub enum OpModel {
    InsertItem { seq: SeqId, track: TrackId, item: ItemModel },
    RemoveItem { seq: SeqId, item: ItemId },
    InsertTrack { seq: SeqId, index: usize, track: TrackModel },
    RemoveTrack { seq: SeqId, track: TrackId },
    SetTrackName { seq: SeqId, track: TrackId, name: Seq<char> },
    AddSequence { sequence: SequenceModel },
    RemoveSequence { seq: SeqId },
    SetParam {
        seq: SeqId,
        item: ItemId,
        target: ParamTarget,
        param: Seq<char>,
        source: Option<Source>,
    },
    InsertEffect { seq: SeqId, item: ItemId, index: usize, effect: EffectModel },
    RemoveEffect { seq: SeqId, item: ItemId, effect: EffectId },
    SetEffectEnabled { seq: SeqId, item: ItemId, effect: EffectId, enabled: bool },
    SetEffectRole { seq: SeqId, item: ItemId, effect: EffectId, role: EffectRole },
    SetReverseIntro { seq: SeqId, item: ItemId, on: bool },
    SetItemGroup { seq: SeqId, item: ItemId, group: Option<u64> },
    SetItemEnabled { seq: SeqId, item: ItemId, enabled: bool },
    SetItemTiming { seq: SeqId, item: ItemId, range: TimeRange, time_map: TimeMap },
    InsertVariant { seq: SeqId, index: usize, variant: VariantModel, make_active: bool },
    RemoveVariant { seq: SeqId, variant: VariantId },
    SetVariantSize { seq: SeqId, variant: VariantId, width: u32, height: u32 },
    SetVariantName { seq: SeqId, variant: VariantId, name: Seq<char> },
    SetSequenceParam { seq: SeqId, param: Seq<char>, source: Option<Source> },
    SetMediaFolder { media: MediaId, folder: Seq<char> },
    SetMediaScaling { media: MediaId, scaling: MediaScaling },
    SetMediaColor { media: MediaId, color: InputColor },
    SetBinFolders { folders: Seq<Seq<char>> },
}

impl View for Op {
    type V = OpModel;

    open spec fn view(&self) -> OpModel {
        match *self {
            Op::InsertItem { seq, track, item } => OpModel::InsertItem { seq, track, item: item@ },
            Op::RemoveItem { seq, item } => OpModel::RemoveItem { seq, item },
            Op::InsertTrack { seq, index, track } => OpModel::InsertTrack {
                seq,
                index,
                track: track@,
            },
            Op::RemoveTrack { seq, track } => OpModel::RemoveTrack { seq, track },
            Op::SetTrackName { seq, track, name } => OpModel::SetTrackName {
                seq,
                track,
                name: name@,
            },
            Op::AddSequence { sequence } => OpModel::AddSequence { sequence: sequence@ },
            Op::RemoveSequence { seq } => OpModel::RemoveSequence { seq },
            Op::SetParam { seq, item, target, param, source } => OpModel::SetParam {
                seq,
                item,
                target,
                param: param@,
                source,
            },
            Op::InsertEffect { seq, item, index, effect } => OpModel::InsertEffect {
                seq,
                item,
                index,
                effect: effect@,
            },
            Op::RemoveEffect { seq, item, effect } => OpModel::RemoveEffect { seq, item, effect },
            Op::SetEffectEnabled { seq, item, effect, enabled } => OpModel::SetEffectEnabled {
                seq,
                item,
                effect,
                enabled,
            },
            Op::SetEffectRole { seq, item, effect, role } => OpModel::SetEffectRole {
                seq,
                item,
                effect,
                role,
            },
            Op::SetReverseIntro { seq, item, on } => OpModel::SetReverseIntro { seq, item, on },
            Op::SetItemGroup { seq, item, group } => OpModel::SetItemGroup { seq, item, group },
            Op::SetItemEnabled { seq, item, enabled } => OpModel::SetItemEnabled {
                seq,
                item,
                enabled,
            },
            Op::SetItemTiming { seq, item, range, time_map } => OpModel::SetItemTiming {
                seq,
                item,
                range,
                time_map,
            },
            Op::InsertVariant { seq, index, variant, make_active } => OpModel::InsertVariant {
                seq,
                index,
                variant: variant@,
                make_active,
            },
            Op::RemoveVariant { seq, variant } => OpModel::RemoveVariant { seq, variant },
            Op::SetVariantSize { seq, variant, width, height } => OpModel::SetVariantSize {
                seq,
                variant,
                width,
                height,
            },
            Op::SetVariantName { seq, variant, name } => OpModel::SetVariantName {
                seq,
                variant,
                name: name@,
            },
            Op::SetSequenceParam { seq, param, source } => OpModel::SetSequenceParam {
                seq,
                param: param@,
                source,
            },
            Op::SetMediaFolder { media, folder } => OpModel::SetMediaFolder {
                media,
                folder: folder@,
            },
            Op::SetMediaScaling { media, scaling } => OpModel::SetMediaScaling { media, scaling },
            Op::SetMediaColor { media, color } => OpModel::SetMediaColor { media, color },
            Op::SetBinFolders { folders } => OpModel::SetBinFolders { folders: views(folders@) },
        }
    }
}

// ---- copies ----

/// A copy of the settings.
pub fn copy_params(params: &Vec<Param>) -> (out: Vec<Param>)
    ensures
        views(out@) == views(params@),
{
    let mut out: Vec<Param> = Vec::new();
    let mut i: usize = 0;
    while i < params.len()
        invariant
            i <= params@.len(),
            out@.len() == i,
            forall|j: int| 0 <= j < i ==> out@[j]@ == params@[j]@,
        decreases params@.len() - i,
    {
        out.push(Param { id: params[i].id.clone(), source: params[i].source });
        i = i + 1;
    }
    assert(views(out@) =~= views(params@));
    out
}

impl EffectInstance {
    /// A copy of the effect.
    pub fn copy(&self) -> (out: EffectInstance)
        ensures
            out@ == self@,
    {
        EffectInstance {
            id: self.id,
            type_id: self.type_id.clone(),
            enabled: self.enabled,
            role: self.role,
            params: copy_params(&self.params),
        }
    }
}

/// Copies of the effects.
pub fn copy_effects(effects: &Vec<EffectInstance>) -> (out: Vec<EffectInstance>)
    ensures
        views(out@) == views(effects@),
{
    let mut out: Vec<EffectInstance> = Vec::new();
    let mut i: usize = 0;
    while i < effects.len()
        invariant
            i <= effects@.len(),
            out@.len() == i,
            forall|j: int| 0 <= j < i ==> out@[j]@ == effects@[j]@,
        decreases effects@.len() - i,
    {
        out.push(effects[i].copy());
        i = i + 1;
    }
    assert(views(out@) =~= views(effects@));
    out
}

/// Copies of the transitions.
pub fn copy_transitions(transitions: &Vec<Transition>) -> (out: Vec<Transition>)
    ensures
        views(out@) == views(transitions@),
{
    let mut out: Vec<Transition> = Vec::new();
    let mut i: usize = 0;
    while i < transitions.len()
        invariant
            i <= transitions@.len(),
            out@.len() == i,
            forall|j: int| 0 <= j < i ==> out@[j]@ == transitions@[j]@,
        decreases transitions@.len() - i,
    {
        out.push(
            Transition {
                at_start: transitions[i].at_start,
                params: copy_params(&transitions[i].params),
            },
        );
        i = i + 1;
    }
    assert(views(out@) =~= views(transitions@));
    out
}

/// A copy of the stretches.
pub fn copy_ranges(ranges: &Vec<TimeRange>) -> (out: Vec<TimeRange>)
    ensures
        out@ == ranges@,
{
    let mut out: Vec<TimeRange> = Vec::new();
    while out.len() < ranges.len()
        invariant
            out@.len() <= ranges@.len(),
            out@ =~= ranges@.take(out@.len() as int),
        decreases ranges@.len() - out@.len(),
    {
        out.push(ranges[out.len()]);
    }
    out
}

/// Copies of the texts.
pub(crate) fn copy_texts(texts: &Vec<String>) -> (out: Vec<String>)
    ensures
        views(out@) == views(texts@),
{
    let mut out: Vec<String> = Vec::new();
    let mut i: usize = 0;
    while i < texts.len()
        invariant
            i <= texts@.len(),
            out@.len() == i,
            forall|j: int| 0 <= j < i ==> (#[trigger] out@[j])@ == texts@[j]@,
        decreases texts@.len() - i,
    {
        out.push(texts[i].clone());
        i = i + 1;
    }
    assert(views(out@) =~= views(texts@));
    out
}

impl Item {
    /// A copy of the clip.
    pub fn copy(&self) -> (out: Item)
        ensures
            out@ == self@,
    {
        Item {
            id: self.id,
            name: self.name.clone(),
            kind: self.kind,
            range: self.range,
            group: self.group,
            enabled: self.enabled,
            audio: self.audio,
            outro_reverses_intro: self.outro_reverses_intro,
            time_map: self.time_map,
            effects: copy_effects(&self.effects),
            params: copy_params(&self.params),
            transitions: copy_transitions(&self.transitions),
            word_times: copy_ranges(&self.word_times),
            rest: self.rest,
        }
    }

    /// A clip with nothing set on it yet.
    pub open spec fn fresh(id: ItemId, name: Seq<char>, kind: ItemKind, range: TimeRange) -> ItemModel {
        ItemModel {
            id,
            name,
            kind,
            range,
            group: None,
            enabled: true,
            audio: true,
            outro_reverses_intro: false,
            time_map: TimeMap { source_in: Time(0), speed_num: 1, speed_den: 1 },
            effects: Seq::empty(),
            params: Seq::empty(),
            transitions: Seq::empty(),
            word_times: Seq::empty(),
            rest: 0,
        }
    }

    pub fn new(id: ItemId, name: &str, kind: ItemKind, range: TimeRange) -> (out: Item)
        ensures
            out@ == Item::fresh(id, name@, kind, range),
    {
        let out = Item {
            id,
            name: name.to_owned(),
            kind,
            range,
            group: None,
            enabled: true,
            audio: true,
            outro_reverses_intro: false,
            time_map: TimeMap { source_in: Time(0), speed_num: 1, speed_den: 1 },
            effects: Vec::new(),
            params: Vec::new(),
            transitions: Vec::new(),
            word_times: Vec::new(),
            rest: 0,
        };
        assert(out@ =~= Item::fresh(id, name@, kind, range));
        out
    }
}

/// Copies of the clips.
pub fn copy_items(items: &Vec<Item>) -> (out: Vec<Item>)
    ensures
        views(out@) == views(items@),
{
    let mut out: Vec<Item> = Vec::new();
    let mut i: usize = 0;
    while i < items.len()
        invariant
            i <= items@.len(),
            out@.len() == i,
            forall|j: int| 0 <= j < i ==> out@[j]@ == items@[j]@,
        decreases items@.len() - i,
    {
        out.push(items[i].copy());
        i = i + 1;
    }
    assert(views(out@) =~= views(items@));
    out
}

impl Track {
    /// A copy of the track and its clips.
    pub fn copy(&self) -> (out: Track)
        ensures
            out@ == self@,
    {
        Track {
            id: self.id,
            name: self.name.clone(),
            kind: self.kind,
            effects: self.effects,
            items: copy_items(&self.items),
            rest: self.rest,
        }
    }

    /// An empty track.
    pub open spec fn empty(id: TrackId, name: Seq<char>, kind: TrackKind, effects: bool) -> TrackModel {
        TrackModel { id, name, kind, effects, items: Seq::empty(), rest: 0 }
    }

    pub fn new(id: TrackId, name: String, kind: TrackKind, effects: bool) -> (out: Track)
        ensures
            out@ == Track::empty(id, name@, kind, effects),
    {
        let out = Track { id, name, kind, effects, items: Vec::new(), rest: 0 };
        assert(out@.items =~= Seq::empty());
        out
    }
}

impl Op {
    /// A copy of the change.
    pub fn copy(&self) -> (out: Op)
        ensures
            out@ == self@,
    {
        match self {
            Op::InsertItem { seq, track, item } => Op::InsertItem {
                seq: *seq,
                track: *track,
                item: item.copy(),
            },
            Op::RemoveItem { seq, item } => Op::RemoveItem { seq: *seq, item: *item },
            Op::InsertTrack { seq, index, track } => Op::InsertTrack {
                seq: *seq,
                index: *index,
                track: track.copy(),
            },
            Op::RemoveTrack { seq, track } => Op::RemoveTrack { seq: *seq, track: *track },
            Op::SetTrackName { seq, track, name } => Op::SetTrackName {
                seq: *seq,
                track: *track,
                name: name.clone(),
            },
            Op::AddSequence { sequence } => Op::AddSequence { sequence: sequence.copy() },
            Op::RemoveSequence { seq } => Op::RemoveSequence { seq: *seq },
            Op::SetParam { seq, item, target, param, source } => Op::SetParam {
                seq: *seq,
                item: *item,
                target: *target,
                param: param.clone(),
                source: *source,
            },
            Op::InsertEffect { seq, item, index, effect } => Op::InsertEffect {
                seq: *seq,
                item: *item,
                index: *index,
                effect: effect.copy(),
            },
            Op::RemoveEffect { seq, item, effect } => Op::RemoveEffect {
                seq: *seq,
                item: *item,
                effect: *effect,
            },
            Op::SetEffectEnabled { seq, item, effect, enabled } => Op::SetEffectEnabled {
                seq: *seq,
                item: *item,
                effect: *effect,
                enabled: *enabled,
            },
            Op::SetEffectRole { seq, item, effect, role } => Op::SetEffectRole {
                seq: *seq,
                item: *item,
                effect: *effect,
                role: *role,
            },
            Op::SetReverseIntro { seq, item, on } => Op::SetReverseIntro {
                seq: *seq,
                item: *item,
                on: *on,
            },
            Op::SetItemGroup { seq, item, group } => Op::SetItemGroup {
                seq: *seq,
                item: *item,
                group: *group,
            },
            Op::SetItemEnabled { seq, item, enabled } => Op::SetItemEnabled {
                seq: *seq,
                item: *item,
                enabled: *enabled,
            },
            Op::SetItemTiming { seq, item, range, time_map } => Op::SetItemTiming {
                seq: *seq,
                item: *item,
                range: *range,
                time_map: *time_map,
            },
            Op::InsertVariant { seq, index, variant, make_active } => Op::InsertVariant {
                seq: *seq,
                index: *index,
                variant: variant.copy(),
                make_active: *make_active,
            },
            Op::RemoveVariant { seq, variant } => Op::RemoveVariant {
                seq: *seq,
                variant: *variant,
            },
            Op::SetVariantSize { seq, variant, width, height } => Op::SetVariantSize {
                seq: *seq,
                variant: *variant,
                width: *width,
                height: *height,
            },
            Op::SetVariantName { seq, variant, name } => Op::SetVariantName {
                seq: *seq,
                variant: *variant,
                name: name.clone(),
            },
            Op::SetSequenceParam { seq, param, source } => Op::SetSequenceParam {
                seq: *seq,
                param: param.clone(),
                source: *source,
            },
            Op::SetMediaFolder { media, folder } => Op::SetMediaFolder {
                media: *media,
                folder: folder.clone(),
            },
            Op::SetMediaScaling { media, scaling } => Op::SetMediaScaling {
                media: *media,
                scaling: *scaling,
            },
            Op::SetMediaColor { media, color } => Op::SetMediaColor {
                media: *media,
                color: *color,
            },
            Op::SetBinFolders { folders } => Op::SetBinFolders { folders: copy_texts(folders) },
        }
    }
}

/// Copies of the formats' own changes.
pub fn copy_overrides(overrides: &Vec<Override>) -> (out: Vec<Override>)
    ensures
        views(out@) == views(overrides@),
{
    let mut out: Vec<Override> = Vec::new();
    let mut i: usize = 0;
    while i < overrides.len()
        invariant
            i <= overrides@.len(),
            out@.len() == i,
            forall|j: int| 0 <= j < i ==> out@[j]@ == overrides@[j]@,
        decreases overrides@.len() - i,
    {
        out.push(Override { item: overrides[i].item, params: copy_params(&overrides[i].params) });
        i = i + 1;
    }
    assert(views(out@) =~= views(overrides@));
    out
}

impl FormatVariant {
    /// A copy of the format.
    pub fn copy(&self) -> (out: FormatVariant)
        ensures
            out@ == self@,
    {
        FormatVariant {
            id: self.id,
            name: self.name.clone(),
            width: self.width,
            height: self.height,
            overrides: copy_overrides(&self.overrides),
        }
    }
}

impl Sequence {
    /// A copy of the timeline.
    pub fn copy(&self) -> (out: Sequence)
        ensures
            out@ == self@,
    {
        let mut variants: Vec<FormatVariant> = Vec::new();
        let mut i: usize = 0;
        while i < self.variants.len()
            invariant
                i <= self.variants@.len(),
                variants@.len() == i,
                forall|j: int| 0 <= j < i ==> variants@[j]@ == self.variants@[j]@,
            decreases self.variants@.len() - i,
        {
            variants.push(self.variants[i].copy());
            i = i + 1;
        }
        assert(views(variants@) =~= views(self.variants@));
        let mut tracks: Vec<Track> = Vec::new();
        let mut k: usize = 0;
        while k < self.tracks.len()
            invariant
                k <= self.tracks@.len(),
                tracks@.len() == k,
                forall|j: int| 0 <= j < k ==> tracks@[j]@ == self.tracks@[j]@,
            decreases self.tracks@.len() - k,
        {
            tracks.push(self.tracks[k].copy());
            k = k + 1;
        }
        assert(views(tracks@) =~= views(self.tracks@));
        Sequence {
            id: self.id,
            name: self.name.clone(),
            rate_num: self.rate_num,
            rate_den: self.rate_den,
            active: self.active,
            variants,
            tracks,
            background: self.background.copy(),
            dividers: self.dividers,
        }
    }
}

// ---- looking things up ----

/// The clip at track `t`, place `i` has the id.
pub open spec fn is_at(s: SequenceModel, id: ItemId, t: int, i: int) -> bool {
    0 <= t < s.tracks.len() && 0 <= i < s.tracks[t].items.len() && s.tracks[t].items[i].id == id
}

/// A clip with the id is on the timeline.
pub open spec fn has_item(s: SequenceModel, id: ItemId) -> bool {
    exists|t: int, i: int| is_at(s, id, t, i)
}

/// No two clips of the timeline share an id.
pub open spec fn ids_differ(s: SequenceModel) -> bool {
    forall|id: ItemId, t: int, i: int, u: int, j: int|
        #![trigger is_at(s, id, t, i), is_at(s, id, u, j)]
        is_at(s, id, t, i) && is_at(s, id, u, j) ==> t == u && i == j
}

/// Where the clip with the id is: the first, going through the tracks in order.
pub open spec fn place_of(s: SequenceModel, id: ItemId) -> Option<(int, int)> {
    place_from(s, id, 0, 0)
}

/// Where the first clip with the id is, from track `t`, place `i` on.
pub open spec fn place_from(s: SequenceModel, id: ItemId, t: int, i: int) -> Option<(int, int)>
    decreases s.tracks.len() - t, s.tracks[t].items.len() - i,
{
    if t < 0 || t >= s.tracks.len() {
        None
    } else if i < 0 || i >= s.tracks[t].items.len() {
        place_from(s, id, t + 1, 0)
    } else if s.tracks[t].items[i].id == id {
        Some((t, i))
    } else {
        place_from(s, id, t, i + 1)
    }
}

/// The clip with the id (or the background).
pub open spec fn item_of(s: SequenceModel, id: ItemId) -> Option<ItemModel> {
    if id == s.background.id {
        Some(s.background)
    } else {
        match place_of(s, id) {
            Some((t, i)) => Some(s.tracks[t].items[i]),
            None => None,
        }
    }
}

/// The track with the id.
pub open spec fn track_from(s: SequenceModel, id: TrackId, t: int) -> Option<int>
    decreases s.tracks.len() - t,
{
    if t < 0 || t >= s.tracks.len() {
        None
    } else if s.tracks[t].id == id {
        Some(t)
    } else {
        track_from(s, id, t + 1)
    }
}

/// Which track has the id (the first).
pub open spec fn track_of(s: SequenceModel, id: TrackId) -> Option<int> {
    track_from(s, id, 0)
}

/// A place that was found holds the clip looked for.
pub proof fn place_is_right(s: SequenceModel, id: ItemId, t: int, i: int)
    requires
        0 <= t,
        0 <= i,
    ensures
        match place_from(s, id, t, i) {
            Some((u, j)) => is_at(s, id, u, j) && (u > t || (u == t && j >= i)),
            None => forall|u: int, j: int| (u > t || (u == t && j >= i)) ==> !is_at(s, id, u, j),
        },
    decreases s.tracks.len() - t, s.tracks[t].items.len() - i,
{
    if t < s.tracks.len() {
        if i >= s.tracks[t].items.len() {
            place_is_right(s, id, t + 1, 0);
        } else if s.tracks[t].items[i].id != id {
            place_is_right(s, id, t, i + 1);
        }
    }
}

/// A clip is found exactly when it's on the timeline (or is the background).
pub proof fn found_iff_there(s: SequenceModel, id: ItemId)
    ensures
        item_of(s, id) is Some <==> has_item(s, id) || id == s.background.id,
        place_of(s, id) is Some <==> has_item(s, id),
        item_of(s, id) is Some ==> item_of(s, id)->0.id == id,
        place_of(s, id) matches Some(p) ==> is_at(s, id, p.0, p.1),
{
    place_is_right(s, id, 0, 0);
    if has_item(s, id) {
        let (t, i) = choose|t: int, i: int| is_at(s, id, t, i);
        assert(is_at(s, id, t, i));
    }
}

impl Sequence {
    /// Where the clip with the id is: its track and its place there.
    pub fn find_item(&self, id: ItemId) -> (out: Option<(usize, usize)>)
        ensures
            match out {
                Some((t, i)) => place_of(self@, id) == Some((t as int, i as int)) && t
                    < self.tracks@.len() && i < self.tracks@[t as int].items@.len()
                    && self.tracks@[t as int].items@[i as int].id == id,
                None => place_of(self@, id) is None,
            },
    {
        let mut t: usize = 0;
        while t < self.tracks.len()
            invariant
                t <= self.tracks@.len(),
                place_of(self@, id) == place_from(self@, id, t as int, 0),
            decreases self.tracks@.len() - t,
        {
            let items = &self.tracks[t].items;
            let mut i: usize = 0;
            assert(self@.tracks[t as int] == self.tracks@[t as int]@);
            while i < items.len()
                invariant
                    t < self.tracks@.len(),
                    items == self.tracks@[t as int].items,
                    self@.tracks[t as int] == self.tracks@[t as int]@,
                    i <= items@.len(),
                    place_of(self@, id) == place_from(self@, id, t as int, i as int),
                decreases items@.len() - i,
            {
                assert(self@.tracks[t as int].items[i as int] == items@[i as int]@);
                if items[i].id == id {
                    return Some((t, i));
                }
                i = i + 1;
            }
            t = t + 1;
        }
        None
    }

    /// The clip with the id (or the background).
    pub fn item(&self, id: ItemId) -> (out: Option<&Item>)
        ensures
            match out {
                Some(it) => item_of(self@, id) == Some(it@) && it.id == id,
                None => item_of(self@, id) is None,
            },
    {
        if id == self.background.id {
            return Some(&self.background);
        }
        match self.find_item(id) {
            Some((t, i)) => {
                assert(self@.tracks[t as int] == self.tracks@[t as int]@);
                Some(&self.tracks[t].items[i])
            },
            None => None,
        }
    }

    /// Which track has the id.
    pub fn track_index(&self, id: TrackId) -> (out: Option<usize>)
        ensures
            match out {
                Some(t) => track_of(self@, id) == Some(t as int) && t < self.tracks@.len()
                    && self.tracks@[t as int].id == id,
                None => track_of(self@, id) is None,
            },
    {
        let mut t: usize = 0;
        while t < self.tracks.len()
            invariant
                t <= self.tracks@.len(),
                track_of(self@, id) == track_from(self@, id, t as int),
            decreases self.tracks@.len() - t,
        {
            assert(self@.tracks[t as int] == self.tracks@[t as int]@);
            if self.tracks[t].id == id {
                return Some(t);
            }
            t = t + 1;
        }
        None
    }
}

/// The place of the first setting with the id.
pub open spec fn param_from(params: Seq<ParamModel>, id: Seq<char>, i: int) -> Option<Source>
    decreases params.len() - i,
{
    if i < 0 || i >= params.len() {
        None
    } else if params[i].id == id {
        Some(params[i].source)
    } else {
        param_from(params, id, i + 1)
    }
}

/// How the setting `id` is stored (`None`: at its default).
pub open spec fn param_of(params: Seq<ParamModel>, id: Seq<char>) -> Option<Source> {
    param_from(params, id, 0)
}

/// How the setting `id` is stored (`None`: at its default).
pub fn get_param(params: &Vec<Param>, id: &str) -> (out: Option<Source>)
    ensures
        out == param_of(views(params@), id@),
{
    let mut i: usize = 0;
    while i < params.len()
        invariant
            i <= params@.len(),
            param_of(views(params@), id@) == param_from(views(params@), id@, i as int),
        decreases params@.len() - i,
    {
        assert(views(params@)[i as int] == params@[i as int]@);
        if same(params[i].id.as_str(), id) {
            return Some(params[i].source);
        }
        i = i + 1;
    }
    None
}

/// The settings of the transition on one end of a clip.
pub open spec fn transition_from(ts: Seq<TransitionModel>, at_start: bool, i: int) -> Option<
    Seq<ParamModel>,
>
    decreases ts.len() - i,
{
    if i < 0 || i >= ts.len() {
        None
    } else if ts[i].at_start == at_start {
        Some(ts[i].params)
    } else {
        transition_from(ts, at_start, i + 1)
    }
}

/// The settings that `target` names on clip `it` (a format's own are the format's, not the
/// clip's).
pub open spec fn params_at(it: ItemModel, target: ParamTarget) -> Option<Seq<ParamModel>> {
    match target {
        ParamTarget::Item => Some(it.params),
        ParamTarget::Effect(id) => match effect_at(it.effects, id) {
            Some(i) => Some(it.effects[i].params),
            None => None,
        },
        ParamTarget::Transition(at_start) => transition_from(it.transitions, at_start, 0),
        ParamTarget::VariantOverride(_) => None,
    }
}

/// How the setting `param` at `target` on clip `it` is stored.
pub open spec fn stored_at(it: ItemModel, target: ParamTarget, param: Seq<char>) -> Option<Source> {
    match params_at(it, target) {
        Some(params) => param_of(params, param),
        None => None,
    }
}

impl Item {
    /// How the setting `param` at `target` is stored (`None`: it was never set).
    pub fn stored(&self, target: ParamTarget, param: &str) -> (out: Option<Source>)
        ensures
            out == stored_at(self@, target, param@),
    {
        match target {
            ParamTarget::Item => get_param(&self.params, param),
            ParamTarget::Effect(id) => {
                match find_effect(&self.effects, id) {
                    Some(i) => {
                        assert(self@.effects[i as int] == self.effects@[i as int]@);
                        get_param(&self.effects[i].params, param)
                    },
                    None => None,
                }
            },
            ParamTarget::Transition(at_start) => {
                let mut i: usize = 0;
                while i < self.transitions.len()
                    invariant
                        target == ParamTarget::Transition(at_start),
                        i <= self.transitions@.len(),
                        transition_from(self@.transitions, at_start, 0) == transition_from(
                            self@.transitions,
                            at_start,
                            i as int,
                        ),
                    decreases self.transitions@.len() - i,
                {
                    assert(self@.transitions[i as int] == self.transitions@[i as int]@);
                    if self.transitions[i].at_start == at_start {
                        return get_param(&self.transitions[i].params, param);
                    }
                    i = i + 1;
                }
                None
            },
            ParamTarget::VariantOverride(_) => None,
        }
    }
}

/// The place of the first effect with the id, from `i` on.
pub open spec fn effect_from(effects: Seq<EffectModel>, id: EffectId, i: int) -> Option<int>
    decreases effects.len() - i,
{
    if i < 0 || i >= effects.len() {
        None
    } else if effects[i].id == id {
        Some(i)
    } else {
        effect_from(effects, id, i + 1)
    }
}

/// Which of the effects has the id (the first).
pub open spec fn effect_at(effects: Seq<EffectModel>, id: EffectId) -> Option<int> {
    effect_from(effects, id, 0)
}

/// An effect that was found has the id looked for, and none before it does.
pub proof fn effect_place_is_right(effects: Seq<EffectModel>, id: EffectId, from: int)
    requires
        0 <= from,
    ensures
        match effect_from(effects, id, from) {
            Some(i) => from <= i < effects.len() && effects[i].id == id && forall|k: int|
                from <= k < i ==> effects[k].id != id,
            None => forall|k: int| from <= k < effects.len() ==> effects[k].id != id,
        },
    decreases effects.len() - from,
{
    if from < effects.len() && effects[from].id != id {
        effect_place_is_right(effects, id, from + 1);
    }
}

/// Which of the effects has the id.
pub fn find_effect(effects: &Vec<EffectInstance>, id: EffectId) -> (out: Option<usize>)
    ensures
        match out {
            Some(i) => effect_at(views(effects@), id) == Some(i as int) && i < effects@.len()
                && effects@[i as int].id == id,
            None => effect_at(views(effects@), id) is None,
        },
{
    let mut i: usize = 0;
    while i < effects.len()
        invariant
            i <= effects@.len(),
            effect_at(views(effects@), id) == effect_from(views(effects@), id, i as int),
        decreases effects@.len() - i,
    {
        assert(views(effects@)[i as int] == effects@[i as int]@);
        if effects[i].id == id {
            return Some(i);
        }
        i = i + 1;
    }
    None
}

/// Whether the two effects have the same settings.
pub fn same_params(a: &Vec<Param>, b: &Vec<Param>) -> (out: bool)
    ensures
        out == (views(a@) == views(b@)),
{
    if a.len() != b.len() {
        assert(views(a@).len() != views(b@).len());
        return false;
    }
    let mut i: usize = 0;
    while i < a.len()
        invariant
            a@.len() == b@.len(),
            i <= a@.len(),
            forall|k: int| 0 <= k < i ==> a@[k]@ == b@[k]@,
        decreases a@.len() - i,
    {
        if !same(a[i].id.as_str(), b[i].id.as_str()) || a[i].source != b[i].source {
            assert(views(a@)[i as int] != views(b@)[i as int]);
            return false;
        }
        i = i + 1;
    }
    assert(views(a@) =~= views(b@));
    true
}

/// Whether `ids` holds `id`.
pub fn holds_id(ids: &Vec<ItemId>, id: ItemId) -> (out: bool)
    ensures
        out == ids@.contains(id),
{
    let mut i: usize = 0;
    while i < ids.len()
        invariant
            i <= ids@.len(),
            forall|k: int| 0 <= k < i ==> ids@[k] != id,
        decreases ids@.len() - i,
    {
        if ids[i] == id {
            return true;
        }
        i = i + 1;
    }
    false
}

} // verus!
