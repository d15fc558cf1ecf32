//! The keyframe line on a timeline clip: one property per clip, drawn across it with its
//! keyframes as points.
use crate::curves::{all_reckonable, fitted, key_time, room, CurveKey};
use crate::doc::{
    place_of, reckonable, ItemId, Sequence, SequenceModel, Time, TrackKind,
};
use vstd::prelude::*;

verus! {

/// The property a clip's line shows.
#[derive(Copy, Clone, Debug, PartialEq, Eq, Structural)]
pub enum Line {
    /// One that was picked for the clip, by its place among those.
    Picked(usize),
    /// Its volume, from -60 to 12 dB.
    Volume,
    /// Its opacity, from 0 to 1.
    Opacity,
}

/// The first line picked for a clip.
pub open spec fn picked_for(picked: Seq<ItemId>, item: ItemId, from: int) -> Option<int>
    decreases picked.len() - from,
{
    if from < 0 || from >= picked.len() {
        None
    } else if picked[from] == item {
        Some(from)
    } else {
        picked_for(picked, item, from + 1)
    }
}

/// The line a clip shows: the one picked for it, else volume for sound and opacity for
/// pictures.
pub open spec fn line_of(s: SequenceModel, picked: Seq<ItemId>, item: ItemId) -> Option<Line> {
    match picked_for(picked, item, 0) {
        Some(i) => Some(Line::Picked(i as usize)),
        None => match place_of(s, item) {
            Some(at) => Some(
                if s.tracks[at.0].kind == TrackKind::Audio {
                    Line::Volume
                } else {
                    Line::Opacity
                },
            ),
            None => None,
        },
    }
}

/// The property a clip's line shows; `picked` are the clips one was picked for.
pub fn clip_band(s: &Sequence, picked: &Vec<ItemId>, item: ItemId) -> (out: Option<Line>)
    ensures
        out == line_of(s@, picked@, item),
{
    let mut i: usize = 0;
    while i < picked.len()
        invariant
            i <= picked@.len(),
            picked_for(picked@, item, 0) == picked_for(picked@, item, i as int),
        decreases picked@.len() - i,
    {
        if picked[i] == item {
            return Some(Line::Picked(i));
        }
        i = i + 1;
    }
    match s.find_item(item) {
        Some((t, _)) => {
            assert(s@.tracks[t as int] == s.tracks@[t as int]@);
            if s.tracks[t].kind == TrackKind::Audio {
                Some(Line::Volume)
            } else {
                Some(Line::Opacity)
            }
        },
        None => None,
    }
}

/// What dragging the line changes.
#[derive(Copy, Clone, Debug, PartialEq, Eq, Structural)]
pub enum BandDrag {
    /// One key goes to this moment, and takes the pointer's value.
    Key(usize, Time),
    /// Every key moves by the distance dragged.
    All,
    /// The plain value moves by it.
    Plain,
}

/// Drags the line: a key (`key`) to the pointer at `t`, or the whole line. `keys` are those
/// of the property as it was when the drag began.
pub fn drag_band(
    key: Option<usize>,
    keys: &Option<Vec<CurveKey>>,
    t: Time,
    start: Time,
    frame: Time,
    duration: Time,
) -> (out: BandDrag)
    requires
        reckonable(t),
        reckonable(start),
        reckonable(frame),
        reckonable(duration),
        keys is Some ==> all_reckonable((keys->0)@),
    ensures
        match *keys {
            Some(k) => match key {
                Some(i) => if i < k@.len() {
                    &&& out is Key
                    &&& out->Key_0 == i
                    &&& (out->Key_1).0 == fitted(
                        Time((t.0 - start.0) as i64),
                        room(k@, i as int, frame, duration),
                    )
                } else {
                    out == BandDrag::All
                },
                None => out == BandDrag::All,
            },
            None => out == BandDrag::Plain,
        },
{
    match keys {
        Some(k) => {
            if let Some(i) = key {
                if i < k.len() {
                    return BandDrag::Key(
                        i,
                        key_time(k, i, Time(t.0 - start.0), frame, duration),
                    );
                }
            }
            BandDrag::All
        },
        None => BandDrag::Plain,
    }
}

/// What Ctrl+click on the line does.
#[derive(Copy, Clone, Debug, PartialEq, Eq, Structural)]
pub enum BandKey {
    /// Removes the key.
    Remove(usize),
    /// Back to a plain value: that of the only key.
    Plain,
    /// Adds a key there, keyframing the property if it wasn't.
    Add,
}

/// Ctrl+click on the line, or on a key of it; `keys` is how many keys it has (`None`: it
/// isn't keyframed).
pub fn toggle_band_key(key: Option<usize>, keys: Option<usize>) -> (out: BandKey)
    ensures
        out == match (key, keys) {
            (Some(i), Some(n)) => if n > 1 {
                BandKey::Remove(i)
            } else {
                BandKey::Plain
            },
            _ => BandKey::Add,
        },
{
    match (key, keys) {
        (Some(i), Some(n)) => if n > 1 {
            BandKey::Remove(i)
        } else {
            BandKey::Plain
        },
        _ => BandKey::Add,
    }
}

} // verus!
