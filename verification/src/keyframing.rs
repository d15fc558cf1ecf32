//! Keyframes: where they are, turning them on and off, and setting a value while they're
//! on — on the linked clips too.
use crate::doc::{
    item_of, stored_at, EditError, ItemId, ItemModel, Op, OpModel, ParamTarget, SequenceModel, Source, Time,
};
use crate::editor::{fanned_out, Editor};
use crate::seqs::{filter_map_push, insert_holds, push_holds, take_all};
use vstd::prelude::*;

verus! {

/// What a curve's keys are tied to.
#[derive(Copy, Clone, Debug, PartialEq, Eq, Structural)]
pub enum KeyframeAnchor {
    ClipStart,
    SourceMedia,
}

/// Where keys stored at `t` are, in clip time (speed 1 assumed for keys tied to the file).
pub open spec fn clip_time(anchor: KeyframeAnchor, source_in: Time, t: Time) -> int {
    match anchor {
        KeyframeAnchor::ClipStart => t.0 as int,
        KeyframeAnchor::SourceMedia => t.0 - source_in.0,
    }
}

/// The moments as numbers.
pub open spec fn moments(times: Seq<Time>) -> Seq<int> {
    Seq::new(times.len(), |k: int| times[k].0 as int)
}

/// Where the keys are, in clip time.
pub open spec fn clip_times(keys: Seq<Time>, anchor: KeyframeAnchor, source_in: Time) -> Seq<int> {
    Seq::new(keys.len(), |k: int| clip_time(anchor, source_in, keys[k]))
}

/// Every one of the moments is one that a clock can tell.
pub open spec fn tellable(times: Seq<int>) -> bool {
    forall|k: int| 0 <= k < times.len() ==> i64::MIN <= #[trigger] times[k] <= i64::MAX
}

/// The clip whose setting is keyframed (`None`: it isn't, or there's no such clip).
pub open spec fn keyframed(
    s: SequenceModel,
    item: ItemId,
    target: ParamTarget,
    param: Seq<char>,
) -> Option<ItemModel> {
    match item_of(s, item) {
        Some(it) => match stored_at(it, target, param) {
            Some(source) => if source.keyed {
                Some(it)
            } else {
                None
            },
            None => None,
        },
        None => None,
    }
}

impl Editor {
    /// Where the keyframes of a clip's or effect's setting are, in clip time: none where it
    /// isn't keyframed. `keys` are those stored there, tied to `anchor`.
    pub fn keyframe_times(
        &self,
        item: ItemId,
        target: ParamTarget,
        param: &str,
        keys: &Vec<Time>,
        anchor: KeyframeAnchor,
    ) -> (out: Vec<Time>)
        requires
            keyframed(self.timeline@, item, target, param@) matches Some(it) ==> tellable(
                clip_times(keys@, anchor, it.time_map.source_in),
            ),
        ensures
            moments(out@) == match keyframed(self.timeline@, item, target, param@) {
                Some(it) => clip_times(keys@, anchor, it.time_map.source_in),
                None => Seq::<int>::empty(),
            },
    {
        let mut out: Vec<Time> = Vec::new();
        if let Some(it) = self.timeline.item(item) {
            if let Some(source) = it.stored(target, param) {
                if source.keyed {
                    let source_in = it.time_map.source_in;
                    let ghost times = clip_times(keys@, anchor, source_in);
                    let mut i: usize = 0;
                    while i < keys.len()
                        invariant
                            times == clip_times(keys@, anchor, source_in),
                            tellable(times),
                            i <= keys@.len(),
                            out@.len() == i,
                            forall|k: int| 0 <= k < i ==> (#[trigger] out@[k]).0 == times[k],
                        decreases keys@.len() - i,
                    {
                        assert(i64::MIN <= times[i as int] <= i64::MAX);
                        let t = match anchor {
                            KeyframeAnchor::ClipStart => keys[i],
                            KeyframeAnchor::SourceMedia => Time(keys[i].0 - source_in.0),
                        };
                        out.push(t);
                        i = i + 1;
                    }
                    assert(moments(out@) =~= times);
                }
            }
        }
        out
    }
}

/// What the diamond beside a setting shows.
#[derive(Copy, Clone, Debug, PartialEq, Eq, Structural)]
pub enum KeyState {
    /// Not keyframed.
    Off,
    /// Keyframed, no key at the playhead.
    Between,
    /// A key at the playhead.
    Here,
}

/// What the diamond shows for a setting with these keys, `local` into the clip.
pub fn key_state(keys: &Vec<Time>, local: Time) -> (out: KeyState)
    ensures
        out == if keys@.len() == 0 {
            KeyState::Off
        } else if keys@.contains(local) {
            KeyState::Here
        } else {
            KeyState::Between
        },
{
    let mut i: usize = 0;
    while i < keys.len()
        invariant
            i <= keys@.len(),
            forall|k: int| 0 <= k < i ==> keys@[k] != local,
        decreases keys@.len() - i,
    {
        if keys[i] == local {
            return KeyState::Here;
        }
        i = i + 1;
    }
    if keys.len() == 0 {
        KeyState::Off
    } else {
        KeyState::Between
    }
}

/// What becomes of one clip's setting when keyframing is switched.
#[derive(Copy, Clone, Debug, PartialEq, Eq, Structural)]
pub enum Switch {
    /// The value at the playhead stays; the keys go (procedural motion stays).
    Stop(Source),
    /// The stored value becomes a key at the playhead.
    Start(Source),
    /// The default becomes a key at the playhead.
    StartFromDefault,
}

/// One clip's setting, and what becomes of it.
#[derive(Copy, Clone, Debug, PartialEq, Eq, Structural)]
pub struct KeyChange {
    pub item: ItemId,
    pub target: ParamTarget,
    pub switch: Switch,
}

/// What becomes of a setting stored as `current`.
pub open spec fn switched(current: Option<Source>, off: bool) -> Option<Switch> {
    match current {
        Some(source) => if off {
            Some(Switch::Stop(source))
        } else if source.keyed {
            None
        } else {
            Some(Switch::Start(source))
        },
        None => if off {
            None
        } else {
            Some(Switch::StartFromDefault)
        },
    }
}

/// What becomes of the setting `param` on one clip.
pub open spec fn key_change(s: SequenceModel, param: Seq<char>, off: bool, p: (ItemId, ParamTarget)) -> Option<
    KeyChange,
> {
    match item_of(s, p.0) {
        None => None,
        Some(it) => match switched(stored_at(it, p.1, param), off) {
            Some(switch) => Some(KeyChange { item: p.0, target: p.1, switch }),
            None => None,
        },
    }
}

pub open spec fn key_changer(s: SequenceModel, param: Seq<char>, off: bool) -> spec_fn(
    (ItemId, ParamTarget),
) -> Option<KeyChange> {
    |p: (ItemId, ParamTarget)| key_change(s, param, off, p)
}

/// The setting is keyframed on the clip that was clicked: switching turns keyframing off.
pub open spec fn turns_off(s: SequenceModel, item: ItemId, target: ParamTarget, param: Seq<char>) -> bool {
    match item_of(s, item) {
        Some(it) => match stored_at(it, target, param) {
            Some(source) => source.keyed,
            None => false,
        },
        None => false,
    }
}

/// A setting and how it's stored now.
#[derive(Copy, Clone, Debug, PartialEq, Eq, Structural)]
pub struct Setting {
    pub item: ItemId,
    pub target: ParamTarget,
    pub stored: Option<Source>,
}

/// How the setting is stored on one clip.
pub open spec fn setting_at(s: SequenceModel, param: Seq<char>, p: (ItemId, ParamTarget)) -> Option<
    Setting,
> {
    match item_of(s, p.0) {
        None => None,
        Some(it) => Some(
            Setting { item: p.0, target: p.1, stored: stored_at(it, p.1, param) },
        ),
    }
}

pub open spec fn setting_finder(s: SequenceModel, param: Seq<char>) -> spec_fn(
    (ItemId, ParamTarget),
) -> Option<Setting> {
    |p: (ItemId, ParamTarget)| setting_at(s, param, p)
}

impl Editor {
    /// Turns keyframing of a setting on (the current value becomes a key at the playhead)
    /// or off (the value there becomes the static value). Every linked clip goes the way
    /// the clicked one does: all on, or all off.
    pub fn toggle_keyframing(&self, item: ItemId, target: ParamTarget, param: &str) -> (out: Result<
        Vec<KeyChange>,
        EditError,
    >)
        ensures
            match item_of(self.timeline@, item) {
                None => out matches Err(e) && e == EditError::NoSuchItem(item),
                Some(_) => out matches Ok(changes) && changes@ == fanned_out(
                    self.timeline@,
                    self.linked@,
                    item,
                    target,
                    param@,
                ).filter_map(
                    key_changer(
                        self.timeline@,
                        param@,
                        turns_off(self.timeline@, item, target, param@),
                    ),
                ),
            },
    {
        let s = &self.timeline;
        let found = s.item(item);
        if found.is_none() {
            return Err(EditError::NoSuchItem(item));
        }
        let off = match found.unwrap().stored(target, param) {
            Some(source) => source.keyed,
            None => false,
        };
        let places = self.fan_out(item, target, param);
        let ghost f = key_changer(s@, param@, off);
        let mut out: Vec<KeyChange> = Vec::new();
        let mut i: usize = 0;
        proof {
            take_all(places@);
        }
        while i < places.len()
            invariant
                s == &self.timeline,
                f == key_changer(s@, param@, off),
                i <= places@.len(),
                out@ == places@.take(i as int).filter_map(f),
            decreases places@.len() - i,
        {
            let (id, at) = places[i];
            proof {
                assert(places@.take(i + 1) =~= places@.take(i as int).push(places@[i as int]));
                filter_map_push(places@.take(i as int), f, places@[i as int]);
            }
            if let Some(it) = s.item(id) {
                let switch = match it.stored(at, param) {
                    Some(source) => {
                        if off {
                            Some(Switch::Stop(source))
                        } else if source.keyed {
                            None
                        } else {
                            Some(Switch::Start(source))
                        }
                    },
                    None => {
                        if off {
                            None
                        } else {
                            Some(Switch::StartFromDefault)
                        }
                    },
                };
                if let Some(switch) = switch {
                    out.push(KeyChange { item: id, target: at, switch });
                }
            }
            i = i + 1;
        }
        proof {
            take_all(places@);
        }
        Ok(out)
    }

    /// The setting on the clip and on each linked clip, as stored now: what a new value
    /// is written over, each its own way.
    pub fn settings(&self, item: ItemId, target: ParamTarget, param: &str) -> (out: Vec<Setting>)
        ensures
            out@ == fanned_out(
                self.timeline@,
                self.linked@,
                item,
                target,
                param@,
            ).filter_map(setting_finder(self.timeline@, param@)),
    {
        let s = &self.timeline;
        let places = self.fan_out(item, target, param);
        let ghost f = setting_finder(s@, param@);
        let mut out: Vec<Setting> = Vec::new();
        let mut i: usize = 0;
        proof {
            take_all(places@);
        }
        while i < places.len()
            invariant
                s == &self.timeline,
                f == setting_finder(s@, param@),
                i <= places@.len(),
                out@ == places@.take(i as int).filter_map(f),
            decreases places@.len() - i,
        {
            let (id, at) = places[i];
            proof {
                assert(places@.take(i + 1) =~= places@.take(i as int).push(places@[i as int]));
                filter_map_push(places@.take(i as int), f, places@[i as int]);
            }
            if let Some(it) = s.item(id) {
                out.push(Setting { item: id, target: at, stored: it.stored(at, param) });
            }
            i = i + 1;
        }
        proof {
            take_all(places@);
        }
        out
    }

    /// The change that sets one of the timeline's own settings (its background) the way a
    /// slider should: `written` over what's stored (a key at the playhead where it's
    /// keyframed), `plain` where nothing is stored yet.
    pub fn set_sequence_value(&self, param: &str, stored: bool, plain: Source, written: Source) -> (out: Op)
        ensures
            out@ == (OpModel::SetSequenceParam {
                seq: self.timeline@.id,
                param: param@,
                source: Some(
                    if stored {
                        written
                    } else {
                        plain
                    },
                ),
            }),
    {
        let source = if stored {
            written
        } else {
            plain
        };
        Op::SetSequenceParam { seq: self.timeline.id, param: param.to_owned(), source: Some(source) }
    }

    /// The changes that set a value the way a slider should: `written` over what each
    /// clip stores (a key at the playhead where it's keyframed), `plain` where it stores
    /// nothing yet.
    pub fn set_value_at(
        &self,
        settings: &Vec<Setting>,
        param: &str,
        plain: Source,
        written: &Vec<Source>,
    ) -> (out: Vec<Op>)
        requires
            written@.len() == settings@.len(),
        ensures
            out@.len() == settings@.len(),
            forall|k: int|
                0 <= k < settings@.len() ==> (#[trigger] out@[k])@ == (OpModel::SetParam {
                    seq: self.timeline@.id,
                    item: settings@[k].item,
                    target: settings@[k].target,
                    param: param@,
                    source: Some(
                        if settings@[k].stored is Some {
                            written@[k]
                        } else {
                            plain
                        },
                    ),
                }),
    {
        let mut out: Vec<Op> = Vec::new();
        let mut i: usize = 0;
        while i < settings.len()
            invariant
                written@.len() == settings@.len(),
                i <= settings@.len(),
                out@.len() == i,
                forall|k: int|
                    0 <= k < i ==> (#[trigger] out@[k])@ == (OpModel::SetParam {
                        seq: self.timeline@.id,
                        item: settings@[k].item,
                        target: settings@[k].target,
                        param: param@,
                        source: Some(
                            if settings@[k].stored is Some {
                                written@[k]
                            } else {
                                plain
                            },
                        ),
                    }),
            decreases settings@.len() - i,
        {
            let source = if settings[i].stored.is_some() {
                written[i]
            } else {
                plain
            };
            out.push(
                Op::SetParam {
                    seq: self.timeline.id,
                    item: settings[i].item,
                    target: settings[i].target,
                    param: param.to_owned(),
                    source: Some(source),
                },
            );
            i = i + 1;
        }
        out
    }
}

/// Switching keyframing off leaves every clip that stores the setting without keys, and
/// switching it on leaves every clip with keys: where nothing becomes of a setting, it's
/// already the way it should be.
pub proof fn switching_leaves_them_alike(current: Option<Source>, off: bool)
    ensures
        switched(current, off) is None ==> (if off {
            current is None
        } else {
            current matches Some(s) && s.keyed
        }),
        !off && switched(current, off) is Some ==> (switched(current, off)->0 is Start || switched(
            current,
            off,
        )->0 is StartFromDefault),
        off && switched(current, off) is Some ==> switched(current, off)->0 is Stop,
{
}

// ---- going from key to key ----

/// The last of the keys before `t`: keys come in no particular order.
pub fn previous_key(keys: &Vec<Time>, t: Time) -> (out: Option<Time>)
    ensures
        match out {
            Some(k) => keys@.contains(k) && k.0 < t.0 && forall|j: int|
                0 <= j < keys@.len() && keys@[j].0 < t.0 ==> (#[trigger] keys@[j]).0 <= k.0,
            None => forall|j: int| 0 <= j < keys@.len() ==> (#[trigger] keys@[j]).0 >= t.0,
        },
{
    let mut best: Option<Time> = None;
    let mut i: usize = 0;
    while i < keys.len()
        invariant
            i <= keys@.len(),
            match best {
                Some(k) => keys@.contains(k) && k.0 < t.0 && forall|j: int|
                    0 <= j < i && keys@[j].0 < t.0 ==> (#[trigger] keys@[j]).0 <= k.0,
                None => forall|j: int| 0 <= j < i ==> (#[trigger] keys@[j]).0 >= t.0,
            },
        decreases keys@.len() - i,
    {
        let k = keys[i];
        if k.0 < t.0 {
            best = match best {
                Some(b) => Some(b.most(k)),
                None => Some(k),
            };
        }
        i = i + 1;
    }
    best
}

/// The first of the keys after `t`.
pub fn next_key(keys: &Vec<Time>, t: Time) -> (out: Option<Time>)
    ensures
        match out {
            Some(k) => keys@.contains(k) && k.0 > t.0 && forall|j: int|
                0 <= j < keys@.len() && keys@[j].0 > t.0 ==> (#[trigger] keys@[j]).0 >= k.0,
            None => forall|j: int| 0 <= j < keys@.len() ==> (#[trigger] keys@[j]).0 <= t.0,
        },
{
    let mut best: Option<Time> = None;
    let mut i: usize = 0;
    while i < keys.len()
        invariant
            i <= keys@.len(),
            match best {
                Some(k) => keys@.contains(k) && k.0 > t.0 && forall|j: int|
                    0 <= j < i && keys@[j].0 > t.0 ==> (#[trigger] keys@[j]).0 >= k.0,
                None => forall|j: int| 0 <= j < i ==> (#[trigger] keys@[j]).0 <= t.0,
            },
        decreases keys@.len() - i,
    {
        let k = keys[i];
        if k.0 > t.0 {
            best = match best {
                Some(b) => Some(b.least(k)),
                None => Some(k),
            };
        }
        i = i + 1;
    }
    best
}

/// The moments without repeats, in order.
pub open spec fn is_ascending(s: Seq<Time>) -> bool {
    forall|i: int, j: int| 0 <= i < j < s.len() ==> (#[trigger] s[i]).0 < (#[trigger] s[j]).0
}

/// The keys in order, each once.
pub fn sorted_keys(keys: &Vec<Time>) -> (out: Vec<Time>)
    ensures
        is_ascending(out@),
        forall|t: Time| #[trigger] out@.contains(t) <==> keys@.contains(t),
{
    let mut out: Vec<Time> = Vec::new();
    let mut i: usize = 0;
    while i < keys.len()
        invariant
            i <= keys@.len(),
            is_ascending(out@),
            forall|t: Time| #[trigger] out@.contains(t) <==> keys@.take(i as int).contains(t),
        decreases keys@.len() - i,
    {
        let k = keys[i];
        let mut at: usize = 0;
        while at < out.len() && out[at].0 < k.0
            invariant
                at <= out@.len(),
                is_ascending(out@),
                forall|j: int| 0 <= j < at ==> (#[trigger] out@[j]).0 < k.0,
            ensures
                at < out@.len() ==> out@[at as int].0 >= k.0,
            decreases out@.len() - at,
        {
            at = at + 1;
        }
        let ghost had = out@;
        proof {
            assert(keys@.take(i + 1) =~= keys@.take(i as int).push(k));
            push_holds(keys@.take(i as int), k);
        }
        if at == out.len() || out[at].0 != k.0 {
            out.insert(at, k);
            proof {
                had.insert_ensures(at as int, k);
                insert_holds(had, at as int, k);
            }
        } else {
            assert(out@[at as int] == k);
        }
        i = i + 1;
    }
    proof {
        take_all(keys@);
    }
    out
}

} // verus!
