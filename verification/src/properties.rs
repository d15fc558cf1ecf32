//! The inspector's property rows: what the keyframe diamond says, which clips follow a
//! change of place, and what else stands beside a value.
use crate::doc::{
    get_param, param_of, EffectId, ItemId, Op, OpModel, Param, ParamModel, ParamTarget, SeqId,
    SequenceModel,
};
use crate::editor::{Editor, PoolItem};
use crate::effects::visual;
use crate::keyframing::{KeyState, KeyframeAnchor};
use crate::seqs::{filter_step, take_all, views};
use crate::text::{decimal, join2, join3, number, same};
use vstd::prelude::*;

verus! {

// ---- the keyframe diamond ----

/// What moves a value besides its keys.
pub struct Motion {
    /// A key of it eases in its own way.
    pub custom: bool,
    /// It swings on its own.
    pub wave: bool,
    /// The track it uses, and whether that steadies it (else it follows the track).
    pub track: Option<(String, bool)>,
    /// It follows the sound.
    pub sound: bool,
}

pub open spec fn state_tip(state: KeyState) -> Seq<char> {
    match state {
        KeyState::Off => "Keyframe this property (adds a key at the playhead)"@,
        KeyState::Here => "Stop keyframing (keeps the current value)"@,
        KeyState::Between => "Keyframed: change the value to add a key here; click to stop keyframing"@,
    }
}

pub open spec fn motion_tip(m: Motion) -> Seq<char> {
    (if m.custom {
        "\nCustom easing (right-click the value → Edit curve…)"@
    } else {
        ""@
    }) + (if m.wave {
        "\nHas a wave (right-click the value → Edit wave…)"@
    } else {
        ""@
    }) + (match m.track {
        Some((name, steadies)) => (if steadies {
            "\nStabilized with the track “"@
        } else {
            "\nFollows the track “"@
        }) + name@ + "” (right-click the value → Animate → Edit track…)"@,
        None => ""@,
    }) + if m.sound {
        "\nConnected to the sound (right-click the value → Animate → Edit connection offset…)"@
    } else {
        ""@
    }
}

/// What the diamond says: what a click does, and what else moves the value.
pub fn key_tip(state: KeyState, m: &Motion) -> (out: String)
    ensures
        out@ == state_tip(state) + motion_tip(*m),
{
    let first = match state {
        KeyState::Off => "Keyframe this property (adds a key at the playhead)",
        KeyState::Here => "Stop keyframing (keeps the current value)",
        KeyState::Between => "Keyframed: change the value to add a key here; click to stop keyframing",
    };
    let custom = if m.custom {
        "\nCustom easing (right-click the value → Edit curve…)"
    } else {
        ""
    };
    let wave = if m.wave {
        "\nHas a wave (right-click the value → Edit wave…)"
    } else {
        ""
    };
    let track = match &m.track {
        Some((name, steadies)) => join3(
            if *steadies {
                "\nStabilized with the track “"
            } else {
                "\nFollows the track “"
            },
            name.as_str(),
            "” (right-click the value → Animate → Edit track…)",
        ),
        None => "".to_owned(),
    };
    let sound = if m.sound {
        "\nConnected to the sound (right-click the value → Animate → Edit connection offset…)"
    } else {
        ""
    };
    let tail = join3(join2(custom, wave).as_str(), track.as_str(), sound);
    let out = join2(first, tail.as_str());
    assert(tail@ =~= motion_tip(*m));
    out
}

/// Some key before the last eases in its own way: `plain` says of each key that it doesn't.
pub open spec fn is_custom(plain: Seq<bool>) -> bool {
    exists|k: int| 0 <= k < plain.len() - 1 && !(#[trigger] plain[k])
}

pub fn custom_easing(plain: &Vec<bool>) -> (out: bool)
    ensures
        out == is_custom(plain@),
{
    let n: usize = plain.len();
    let mut i: usize = 0;
    while i < n && i < n - 1
        invariant
            n == plain@.len(),
            i <= n,
            forall|k: int| 0 <= k < i ==> #[trigger] plain@[k],
        decreases n - i,
    {
        if !plain[i] {
            return true;
        }
        i = i + 1;
    }
    false
}

/// What keys of a new curve are anchored to: the file for where the picture's focus is (the
/// setting `focus`), the clip for everything else.
pub fn anchor_for(param: &str, focus: &str) -> (out: KeyframeAnchor)
    ensures
        out == if param@ == focus@ {
            KeyframeAnchor::SourceMedia
        } else {
            KeyframeAnchor::ClipStart
        },
{
    if same(param, focus) {
        KeyframeAnchor::SourceMedia
    } else {
        KeyframeAnchor::ClipStart
    }
}

// ---- a change of place ----

pub open spec fn follows(s: SequenceModel, pool: Seq<PoolItem>, item: ItemId) -> spec_fn(ItemId) -> bool {
    |l: ItemId| l != item && visual(s, pool, l)
}

impl Editor {
    /// The clips a transform change is written to: the clip, and the linked ones that have
    /// a picture.
    pub fn placed_together(&self, item: ItemId) -> (out: Vec<ItemId>)
        ensures
            out@ == seq![item] + self.linked@.filter(
                follows(self.timeline@, self.pool@, item),
            ),
    {
        let ghost p = follows(self.timeline@, self.pool@, item);
        let mut out: Vec<ItemId> = vec![item];
        let mut i: usize = 0;
        assert(self.linked@.take(0).filter(p) =~= Seq::empty()) by {
            reveal_with_fuel(Seq::filter, 1);
        }
        while i < self.linked.len()
            invariant
                p == follows(self.timeline@, self.pool@, item),
                i <= self.linked@.len(),
                out@ =~= seq![item] + self.linked@.take(i as int).filter(p),
            decreases self.linked@.len() - i,
        {
            proof {
                filter_step(self.linked@, p, i as int);
            }
            let l = self.linked[i];
            if l != item && self.is_visual(l) {
                out.push(l);
            }
            i = i + 1;
        }
        proof {
            take_all(self.linked@);
        }
        out
    }
}

/// What a change of place writes to each clip.
#[derive(Copy, Clone, Debug, PartialEq, Eq, Structural)]
pub enum Written {
    /// The value itself.
    Value,
    /// As much as the value changes: the same position would pile the clips up.
    Shift,
}

/// What the change writes to clip `id`, made on `item`.
pub fn written(position: bool, id: ItemId, item: ItemId) -> (out: Written)
    ensures
        out == if position && id != item {
            Written::Shift
        } else {
            Written::Value
        },
{
    if position && id != item {
        Written::Shift
    } else {
        Written::Value
    }
}

/// The changes that could be worked out, of the clips after the first.
pub open spec fn worked_out(results: Seq<Result<Op, String>>, n: int) -> Seq<Op>
    decreases n,
{
    if n <= 0 {
        Seq::empty()
    } else {
        match results[n - 1] {
            Ok(op) => worked_out(results, n - 1).push(op),
            Err(_) => worked_out(results, n - 1),
        }
    }
}

/// The changes to ask for, of those worked out for the clip itself and the ones that follow
/// it: a clip that can't follow stays where it is, but the clip itself has to move.
pub fn gathered(first: Result<Op, String>, rest: Vec<Result<Op, String>>) -> (out: Result<Vec<Op>, String>)
    ensures
        match first {
            Err(e) => out matches Err(why) && why == e,
            Ok(op) => out matches Ok(ops) && ops@ == seq![op] + worked_out(
                rest@,
                rest@.len() as int,
            ),
        },
{
    let op = match first {
        Err(e) => {
            return Err(e);
        },
        Ok(op) => op,
    };
    let ghost all = rest@;
    let mut ops: Vec<Op> = vec![op];
    let mut left = rest;
    let mut back: Vec<Op> = Vec::new();
    let n: usize = left.len();
    let mut taken: usize = 0;
    // Taken from the end, then put the right way round.
    while taken < n
        invariant
            n == all.len(),
            taken <= n,
            left@ == all.take(n - taken),
            worked_out(all, n as int) =~= worked_out(all, n - taken) + back@.reverse(),
        decreases n - taken,
    {
        let ghost had = back@;
        let last = left.pop().unwrap();
        assert(last == all[n - taken - 1]);
        assert(left@ =~= all.take(n - taken - 1));
        match last {
            Ok(op) => {
                back.push(op);
                assert(back@.reverse() =~= seq![op] + had.reverse());
                assert(worked_out(all, n - taken) =~= worked_out(all, n - taken - 1) + seq![op]);
            },
            Err(_) => {},
        }
        taken = taken + 1;
    }
    let ghost want = back@.reverse();
    assert(worked_out(all, n as int) =~= want);
    let ghost m = back@.len();
    while back.len() > 0
        invariant
            back@.len() <= m,
            m == want.len(),
            back@ =~= want.reverse().take(back@.len() as int),
            ops@ =~= seq![op] + want.take(m - back@.len()),
        decreases back@.len(),
    {
        let ghost k = m - back@.len();
        let next = back.pop().unwrap();
        assert(next == want[k]);
        ops.push(next);
        assert(want.take(k + 1) =~= want.take(k).push(want[k]));
    }
    assert(want.take(m as int) =~= want);
    Ok(ops)
}

// ---- a surface's points ----

/// One of the points was moved.
pub open spec fn any_moved(params: Seq<ParamModel>, ids: Seq<Seq<char>>) -> bool {
    exists|k: int| 0 <= k < ids.len() && param_of(params, #[trigger] ids[k]) is Some
}

/// Whether one of a surface's points was moved; `ids` are its points' settings.
pub fn surface_moved(params: &Vec<Param>, ids: &Vec<String>) -> (out: bool)
    ensures
        out == any_moved(views(params@), views(ids@)),
{
    let mut i: usize = 0;
    while i < ids.len()
        invariant
            i <= ids@.len(),
            forall|k: int| 0 <= k < i ==> param_of(views(params@), #[trigger] views(ids@)[k]) is None,
        decreases ids@.len() - i,
    {
        assert(views(ids@)[i as int] == ids@[i as int]@);
        if get_param(params, ids[i].as_str()).is_some() {
            return true;
        }
        i = i + 1;
    }
    false
}

pub open spec fn point_reset(seq: SeqId, item: ItemId, effect: EffectId) -> spec_fn(Seq<char>) -> OpModel {
    |id: Seq<char>|
        OpModel::SetParam { seq, item, target: ParamTarget::Effect(effect), param: id, source: None }
}

/// The changes that put every point back where it rests.
pub fn reset_surface(seq: SeqId, item: ItemId, effect: EffectId, ids: &Vec<String>) -> (out: Vec<Op>)
    ensures
        views(out@) == views(ids@).map_values(point_reset(seq, item, effect)),
{
    let mut out: Vec<Op> = Vec::new();
    let mut i: usize = 0;
    while i < ids.len()
        invariant
            i <= ids@.len(),
            out@.len() == i,
            forall|k: int|
                0 <= k < i ==> (#[trigger] out@[k])@ == point_reset(seq, item, effect)(ids@[k]@),
        decreases ids@.len() - i,
    {
        out.push(
            Op::SetParam {
                seq,
                item,
                target: ParamTarget::Effect(effect),
                param: ids[i].clone(),
                source: None,
            },
        );
        i = i + 1;
    }
    assert(views(out@) =~= views(ids@).map_values(point_reset(seq, item, effect)));
    out
}

// ---- what stands beside values ----

/// What a position's label says where it's measured from a track.
pub fn offset_tip(track: &str, steadied: bool) -> (out: String)
    ensures
        out@ == (if steadied {
            "Stabilized with “"@ + track@ + "”: this is where it sits, the shake taken out on top."@
        } else {
            "Following “"@ + track@ + "”: this is the offset from the track."@
        }) + " Right-click the numbers → Animate → Edit track… to change or stop it."@,
{
    let how = if steadied {
        join3("Stabilized with “", track, "”: this is where it sits, the shake taken out on top.")
    } else {
        join3("Following “", track, "”: this is the offset from the track.")
    };
    join2(how.as_str(), " Right-click the numbers → Animate → Edit track… to change or stop it.")
}

/// What's said while `clips` clips are edited together.
pub fn together_note(clips: usize) -> (out: Option<String>)
    ensures
        if clips > 1 {
            out matches Some(t) && t@ == "Editing "@ + decimal(clips as nat)
                + " selected clips together: a change here changes each of them (the position moves them all by the same amount)."@
        } else {
            out is None
        },
{
    if clips > 1 {
        Some(
            join3(
                "Editing ",
                number(clips as u64).as_str(),
                " selected clips together: a change here changes each of them (the position moves them all by the same amount).",
            ),
        )
    } else {
        None
    }
}

/// What a blend mode does.
pub fn blend_tip(mode: &str) -> (out: &'static str)
    ensures
        out@ == if mode@ == "add"@ {
            "Adds its light to what's under it: glows, flares, fire"@
        } else if mode@ == "multiply"@ {
            "Darkens by its colors, white disappears: shadows, paper textures"@
        } else if mode@ == "screen"@ {
            "Lightens by its colors, black disappears: light leaks, smoke"@
        } else if mode@ == "darken"@ {
            "Keeps the darker of it and what's under it"@
        } else if mode@ == "lighten"@ {
            "Keeps the lighter of it and what's under it"@
        } else {
            "Covers what's under it"@
        },
{
    if same(mode, "add") {
        "Adds its light to what's under it: glows, flares, fire"
    } else if same(mode, "multiply") {
        "Darkens by its colors, white disappears: shadows, paper textures"
    } else if same(mode, "screen") {
        "Lightens by its colors, black disappears: light leaks, smoke"
    } else if same(mode, "darken") {
        "Keeps the darker of it and what's under it"
    } else if same(mode, "lighten") {
        "Keeps the lighter of it and what's under it"
    } else {
        "Covers what's under it"
    }
}

// ---- the property a clip's line shows ----

pub open spec fn for_others(item: ItemId) -> spec_fn((ItemId, u64)) -> bool {
    |b: (ItemId, u64)| b.0 != item
}

/// The clips a property was picked for, with the one for `item` gone, or picked (`band`, by
/// number) in place of any it had.
pub open spec fn with_band(bands: Seq<(ItemId, u64)>, item: ItemId, band: Option<u64>) -> Seq<(ItemId, u64)> {
    let rest = bands.filter(for_others(item));
    match band {
        Some(b) => rest.push((item, b)),
        None => rest,
    }
}

/// Makes a property (by number) the one the clip's line shows, or, where it is (`on`), stops
/// it being that.
pub fn toggle_band(bands: &Vec<(ItemId, u64)>, item: ItemId, band: u64, on: bool) -> (out: Vec<(ItemId, u64)>)
    ensures
        out@ == with_band(
            bands@,
            item,
            if on {
                None
            } else {
                Some(band)
            },
        ),
{
    let ghost p = for_others(item);
    let mut out: Vec<(ItemId, u64)> = Vec::new();
    let mut i: usize = 0;
    assert(bands@.take(0).filter(p) =~= Seq::empty()) by {
        reveal_with_fuel(Seq::filter, 1);
    }
    while i < bands.len()
        invariant
            p == for_others(item),
            i <= bands@.len(),
            out@ == bands@.take(i as int).filter(p),
        decreases bands@.len() - i,
    {
        proof {
            filter_step(bands@, p, i as int);
        }
        if bands[i].0 != item {
            out.push((bands[i].0, bands[i].1));
        }
        i = i + 1;
    }
    proof {
        take_all(bands@);
    }
    if !on {
        out.push((item, band));
    }
    out
}

} // verus!
