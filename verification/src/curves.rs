//! The curve editor: one number property's animation as a graph over its clip.
use crate::doc::{reckonable, ItemId, Time};
use crate::keyframing::KeyframeAnchor;
use crate::text::{join2, join3, parts, parts_is_never_empty, split};
use vstd::prelude::*;

verus! {

/// A key of a curve: where it is, the number for its value and that for the easing after
/// it.
#[derive(Copy, Clone, Debug, PartialEq, Eq, Structural)]
pub struct CurveKey {
    pub t: Time,
    pub value: u64,
    pub ease: u64,
}

/// What's being dragged.
#[derive(Copy, Clone, Debug, PartialEq, Eq, Structural)]
pub enum Grab {
    Key(usize),
    /// The handle leaving a key.
    Out(usize),
    /// The handle arriving at the key after it.
    Into(usize),
}

/// The open curve editor.
pub struct CurveEditor {
    pub item: ItemId,
    /// The selected key.
    pub selected: Option<usize>,
    /// What's being dragged, with the curve as it was when the drag began.
    pub drag: Option<(Grab, Vec<CurveKey>)>,
}

/// What the window shows.
#[derive(Copy, Clone, Debug, PartialEq, Eq, Structural)]
pub enum CurveShown {
    Graph,
    /// The keys are tied to the file's own clock, and edited on the timeline.
    SourceClock,
    NotAnimated,
}

/// What the window shows for a property with such keys.
pub fn curve_shown(keys: Option<KeyframeAnchor>) -> (out: CurveShown)
    ensures
        out == match keys {
            Some(KeyframeAnchor::ClipStart) => CurveShown::Graph,
            Some(KeyframeAnchor::SourceMedia) => CurveShown::SourceClock,
            None => CurveShown::NotAnimated,
        },
{
    match keys {
        Some(KeyframeAnchor::ClipStart) => CurveShown::Graph,
        Some(KeyframeAnchor::SourceMedia) => CurveShown::SourceClock,
        None => CurveShown::NotAnimated,
    }
}

/// The window's title.
pub fn curve_title(clip: &str, param: &str) -> (out: String)
    ensures
        out@ == "Curve — "@ + clip@ + " · "@ + parts(param@, '.').last(),
{
    let names = split(param, '.');
    proof {
        parts_is_never_empty(param@, '.');
    }
    let ghost all = crate::seqs::views(names@);
    assert(all.last() == names@[names@.len() - 1]@);
    let head = join3("Curve — ", clip, " · ");
    join2(head.as_str(), names[names.len() - 1].as_str())
}

// ---- easing ----

/// An easing preset: how it's shaped, in hundredths of the way between its keys.
#[derive(Copy, Clone, Debug, PartialEq, Eq, Structural)]
pub enum Interp {
    Hold,
    Linear,
    /// Leaving x, y and arriving x, y.
    Bezier(i32, i32, i32, i32),
}

/// How handles shape a segment (`None`: the value holds).
pub open spec fn shape_of(handles: Option<(i32, i32, i32, i32)>) -> Interp {
    match handles {
        None => Interp::Hold,
        Some(h) => if h == (0i32, 0i32, 100i32, 100i32) {
            Interp::Linear
        } else {
            Interp::Bezier(h.0, h.1, h.2, h.3)
        },
    }
}

/// How handles shape a segment.
pub fn preset_interp(handles: Option<(i32, i32, i32, i32)>) -> (out: Interp)
    ensures
        out == shape_of(handles),
{
    match handles {
        None => Interp::Hold,
        Some(h) => if h.0 == 0 && h.1 == 0 && h.2 == 100 && h.3 == 100 {
            Interp::Linear
        } else {
            Interp::Bezier(h.0, h.1, h.2, h.3)
        },
    }
}

/// The presets offered, in order.
pub open spec fn preset_of(i: int) -> (Seq<char>, Interp) {
    if i == 0 {
        ("Hold"@, Interp::Hold)
    } else if i == 1 {
        ("Linear"@, Interp::Linear)
    } else if i == 2 {
        ("Ease in"@, Interp::Bezier(42, 0, 100, 100))
    } else if i == 3 {
        ("Ease out"@, Interp::Bezier(0, 0, 58, 100))
    } else if i == 4 {
        ("Ease in-out"@, Interp::Bezier(42, 0, 58, 100))
    } else {
        ("Overshoot"@, Interp::Bezier(34, 0, 30, 135))
    }
}

/// The easing presets for the segment after a key.
pub fn presets() -> (out: Vec<(&'static str, Interp)>)
    ensures
        out@.len() == 6,
        forall|i: int|
            0 <= i < 6 ==> (#[trigger] out@[i]).0@ == preset_of(i).0 && out@[i].1 == preset_of(
                i,
            ).1,
{
    vec![
        ("Hold", preset_interp(None)),
        ("Linear", preset_interp(Some((0, 0, 100, 100)))),
        ("Ease in", preset_interp(Some((42, 0, 100, 100)))),
        ("Ease out", preset_interp(Some((0, 0, 58, 100)))),
        ("Ease in-out", preset_interp(Some((42, 0, 58, 100)))),
        ("Overshoot", preset_interp(Some((34, 0, 30, 135)))),
    ]
}

// ---- keys ----

/// The room a key has between its neighbors, a frame from each, inside the clip.
pub open spec fn room(keys: Seq<CurveKey>, i: int, frame: Time, duration: Time) -> (int, int) {
    (
        if i > 0 {
            keys[i - 1].t.0 + frame.0
        } else {
            0
        },
        if i + 1 < keys.len() {
            keys[i + 1].t.0 - frame.0
        } else {
            duration.0 - 1
        },
    )
}

/// The moment nearest `t` in the room there is (its start, where there's none).
pub open spec fn fitted(t: Time, room: (int, int)) -> int {
    let from = if t.0 < room.0 {
        room.0
    } else {
        t.0 as int
    };
    let last = if room.1 < room.0 {
        room.0
    } else {
        room.1
    };
    if last < from {
        last
    } else {
        from
    }
}

/// All of the keys can be reckoned with.
pub open spec fn all_reckonable(keys: Seq<CurveKey>) -> bool {
    forall|k: int| 0 <= k < keys.len() ==> reckonable((#[trigger] keys[k]).t)
}

/// Where a key dragged to `t` goes: between its neighbors, a frame from each, inside the
/// clip.
pub fn key_time(keys: &Vec<CurveKey>, i: usize, t: Time, frame: Time, duration: Time) -> (out: Time)
    requires
        i < keys@.len(),
        all_reckonable(keys@),
        reckonable(frame),
        reckonable(duration),
    ensures
        out.0 == fitted(t, room(keys@, i as int, frame, duration)),
{
    let lo = if i > 0 {
        assert(reckonable(keys@[i - 1].t));
        Time(keys[i - 1].t.0 + frame.0)
    } else {
        Time(0)
    };
    let hi = if i < keys.len() - 1 {
        assert(reckonable(keys@[i + 1].t));
        Time(keys[i + 1].t.0 - frame.0)
    } else {
        Time(duration.0 - 1)
    };
    t.most(lo).least(hi.most(lo))
}

/// Keys stay in order: one dragged where there's room for it stays after the key before it
/// and before the one after it, inside the clip.
pub proof fn dragged_keys_stay_in_order(
    keys: Seq<CurveKey>,
    i: int,
    t: Time,
    frame: Time,
    duration: Time,
)
    requires
        0 <= i < keys.len(),
        frame.0 > 0,
        room(keys, i, frame, duration).0 <= room(keys, i, frame, duration).1,
    ensures
        ({
            let to = fitted(t, room(keys, i, frame, duration));
            &&& i > 0 ==> keys[i - 1].t.0 < to
            &&& i == 0 ==> to >= 0
            &&& i + 1 < keys.len() ==> to < keys[i + 1].t.0
            &&& i + 1 == keys.len() ==> to < duration.0
        }),
{
}

/// A moment inside the clip.
pub open spec fn inside(t: int, duration: Time) -> int {
    let from = if t < 0 {
        0
    } else {
        t
    };
    if duration.0 - 1 < from {
        duration.0 - 1
    } else {
        from
    }
}

/// The playhead's moment in a clip, kept inside it.
pub fn moment_in(playhead: Time, start: Time, duration: Time) -> (out: Time)
    requires
        reckonable(playhead),
        reckonable(start),
        reckonable(duration),
    ensures
        out.0 == inside(playhead.0 - start.0, duration),
{
    Time(playhead.0 - start.0).most(Time(0)).least(Time(duration.0 - 1))
}

/// The first of the places pointed at.
pub open spec fn first_near(near: Seq<bool>, from: int) -> Option<int>
    decreases near.len() - from,
{
    if from < 0 || from >= near.len() {
        None
    } else if near[from] {
        Some(from)
    } else {
        first_near(near, from + 1)
    }
}

fn first_of(near: &Vec<bool>) -> (out: Option<usize>)
    ensures
        match first_near(near@, 0) {
            Some(i) => out == Some(i as usize) && 0 <= i < near@.len() && near@[i],
            None => out is None,
        },
{
    let mut i: usize = 0;
    while i < near.len()
        invariant
            i <= near@.len(),
            first_near(near@, 0) == first_near(near@, i as int),
        decreases near@.len() - i,
    {
        if near[i] {
            return Some(i);
        }
        i = i + 1;
    }
    None
}

/// What of the segment at `seg` is pointed at (its leaving handle before its arriving one),
/// or `otherwise`.
pub open spec fn handle_at(
    out_of: Seq<bool>,
    into: Seq<bool>,
    seg: int,
    otherwise: Option<Grab>,
) -> Option<Grab> {
    if 0 <= seg < out_of.len() && out_of[seg] {
        Some(Grab::Out(seg as usize))
    } else if 0 <= seg < into.len() && into[seg] {
        Some(Grab::Into(seg as usize))
    } else {
        otherwise
    }
}

/// What's grabbed: the first key pointed at, or a handle either side of the selected key
/// (that before it over the one after it).
pub open spec fn grabbed(
    keys: Seq<bool>,
    out_of: Seq<bool>,
    into: Seq<bool>,
    selected: Option<usize>,
) -> Option<Grab> {
    match first_near(keys, 0) {
        Some(i) => Some(Grab::Key(i as usize)),
        None => match selected {
            Some(s) => handle_at(out_of, into, s - 1, handle_at(out_of, into, s as int, None)),
            None => None,
        },
    }
}

/// The first key at `t`.
pub open spec fn key_at(keys: Seq<CurveKey>, t: Time, from: int) -> Option<int>
    decreases keys.len() - from,
{
    if from < 0 || from >= keys.len() {
        None
    } else if keys[from].t == t {
        Some(from)
    } else {
        key_at(keys, t, from + 1)
    }
}

/// The keys as a drag leaves them.
pub open spec fn dragged(
    start: Seq<CurveKey>,
    grab: Grab,
    frame: Time,
    duration: Time,
    t: Time,
    value: u64,
    ease: Option<u64>,
) -> Seq<CurveKey> {
    match grab {
        Grab::Key(i) => start.update(
            i as int,
            CurveKey {
                t: Time(fitted(t, room(start, i as int, frame, duration)) as i64),
                value,
                ease: start[i as int].ease,
            },
        ),
        Grab::Out(i) | Grab::Into(i) => match ease {
            Some(e) => start.update(i as int, CurveKey { ease: e, ..start[i as int] }),
            None => start,
        },
    }
}

/// The key a drag is about.
pub open spec fn grab_key(grab: Grab) -> usize {
    match grab {
        Grab::Key(i) => i,
        Grab::Out(i) => i,
        Grab::Into(i) => i,
    }
}

fn copy_keys(keys: &Vec<CurveKey>) -> (out: Vec<CurveKey>)
    ensures
        out@ == keys@,
{
    let mut out: Vec<CurveKey> = Vec::new();
    let mut i: usize = 0;
    while i < keys.len()
        invariant
            i <= keys@.len(),
            out@ == keys@.take(i as int),
        decreases keys@.len() - i,
    {
        out.push(keys[i]);
        assert(keys@.take(i as int).push(keys@[i as int]) =~= keys@.take(i + 1));
        i = i + 1;
    }
    assert(keys@.take(i as int) =~= keys@);
    out
}

impl CurveEditor {
    /// Opens on a clip's property.
    pub fn new(item: ItemId) -> (out: CurveEditor)
        ensures
            out.item == item,
            out.selected is None,
            out.drag is None,
    {
        CurveEditor { item, selected: None, drag: None }
    }

    /// Forgets a selected key that isn't there any more (there are `n`).
    pub fn settle(&mut self, n: usize)
        ensures
            final(self).item == old(self).item,
            final(self).drag == old(self).drag,
            final(self).selected == match old(self).selected {
                Some(i) => if i < n {
                    Some(i)
                } else {
                    None
                },
                None => None,
            },
    {
        if let Some(i) = self.selected {
            if i >= n {
                self.selected = None;
            }
        }
    }

    /// The key whose next segment the easing buttons are about: the selected one, where
    /// there's a segment after it.
    pub fn eased(&self, n: usize) -> (out: Option<usize>)
        ensures
            out == match self.selected {
                Some(i) => if i + 1 < n {
                    Some(i)
                } else {
                    None
                },
                None => None,
            },
    {
        match self.selected {
            Some(i) => if n > 0 && i < n - 1 {
                Some(i)
            } else {
                None
            },
            None => None,
        }
    }

    /// Eases the selected key's next segment. Whether there was one.
    pub fn set_ease(&self, keys: &mut Vec<CurveKey>, ease: u64) -> (out: bool)
        ensures
            match self.selected {
                Some(i) => if i + 1 < old(keys)@.len() {
                    &&& out
                    &&& final(keys)@ == old(keys)@.update(
                        i as int,
                        CurveKey { ease, ..old(keys)@[i as int] },
                    )
                } else {
                    !out && final(keys)@ == old(keys)@
                },
                None => !out && final(keys)@ == old(keys)@,
            },
    {
        match self.eased(keys.len()) {
            Some(i) => {
                let was = keys[i];
                keys.set(i, CurveKey { t: was.t, value: was.value, ease });
                true
            },
            None => false,
        }
    }

    /// Whether the selected key can be deleted: there is one, and it's not the last.
    pub fn removable(&self, n: usize) -> (out: bool)
        ensures
            out == (self.selected is Some && n > 1),
    {
        self.selected.is_some() && n > 1
    }

    /// Deletes the selected key, unless it's the only one. Whether it did.
    pub fn delete(&mut self, keys: &mut Vec<CurveKey>) -> (out: bool)
        requires
            old(self).selected is Some ==> old(self).selected->0 < old(keys)@.len(),
        ensures
            final(self).item == old(self).item,
            final(self).drag == old(self).drag,
            out == (old(self).selected is Some && old(keys)@.len() > 1),
            out ==> final(self).selected is None && final(keys)@ == old(keys)@.remove(
                old(self).selected->0 as int,
            ),
            !out ==> final(self).selected == old(self).selected && final(keys)@ == old(keys)@,
            final(keys)@.len() == 0 ==> old(keys)@.len() == 0,
    {
        if let Some(i) = self.selected {
            if keys.len() > 1 {
                let _ = keys.remove(i);
                self.selected = None;
                return true;
            }
        }
        false
    }

    /// Selects the key at `t`.
    pub fn select_at(&mut self, keys: &Vec<CurveKey>, t: Time)
        ensures
            final(self).item == old(self).item,
            final(self).drag == old(self).drag,
            match key_at(keys@, t, 0) {
                Some(i) => final(self).selected == Some(i as usize) && i < keys@.len(),
                None => final(self).selected is None,
            },
    {
        self.selected = None;
        let mut i: usize = 0;
        let ghost was = *self;
        while i < keys.len()
            invariant
                *self == was,
                was.selected is None,
                was.item == old(self).item,
                was.drag == old(self).drag,
                i <= keys@.len(),
                key_at(keys@, t, 0) == key_at(keys@, t, i as int),
            decreases keys@.len() - i,
        {
            if keys[i].t.0 == t.0 {
                self.selected = Some(i);
                return;
            }
            i = i + 1;
        }
    }

    /// The pointer is pressed with these keys and handles under it (handle `i` is of the
    /// segment after key `i`).
    pub fn press(
        &mut self,
        keys: &Vec<CurveKey>,
        near: &Vec<bool>,
        out_of: &Vec<bool>,
        into: &Vec<bool>,
    )
        requires
            near@.len() == keys@.len(),
        ensures
            final(self).item == old(self).item,
            ({
                let grab = grabbed(near@, out_of@, into@, old(self).selected);
                &&& match grab {
                    Some(g) => final(self).drag is Some && (final(self).drag->0).0 == g && (
                    final(self).drag->0).1@ == keys@,
                    None => final(self).drag is None,
                }
                &&& final(self).selected == match grab {
                    Some(Grab::Key(i)) => Some(i),
                    _ => old(self).selected,
                }
            }),
    {
        let mut grab: Option<Grab> = None;
        if let Some(i) = first_of(near) {
            grab = Some(Grab::Key(i));
            self.selected = Some(i);
        } else if let Some(s) = self.selected {
            if s < out_of.len() && out_of[s] {
                grab = Some(Grab::Out(s));
            } else if s < into.len() && into[s] {
                grab = Some(Grab::Into(s));
            }
            if s > 0 {
                if s - 1 < out_of.len() && out_of[s - 1] {
                    grab = Some(Grab::Out(s - 1));
                } else if s - 1 < into.len() && into[s - 1] {
                    grab = Some(Grab::Into(s - 1));
                }
            }
        }
        self.drag = match grab {
            Some(g) => Some((g, copy_keys(keys))),
            None => None,
        };
    }

    /// The keys as the drag leaves them with the pointer at `t` and `value`; `ease` is the
    /// easing with the dragged handle there (`None` where it has no handles).
    pub fn drag_to(
        &self,
        frame: Time,
        duration: Time,
        t: Time,
        value: u64,
        ease: Option<u64>,
    ) -> (out: Option<Vec<CurveKey>>)
        requires
            reckonable(frame),
            reckonable(duration),
            self.drag is Some ==> all_reckonable((self.drag->0).1@) && grab_key((self.drag->0).0)
                < (self.drag->0).1@.len(),
        ensures
            match self.drag {
                Some((grab, start)) => out is Some && (out->0)@ == dragged(
                    start@,
                    grab,
                    frame,
                    duration,
                    t,
                    value,
                    ease,
                ),
                None => out is None,
            },
    {
        match &self.drag {
            Some((grab, start)) => {
                let mut keys = copy_keys(start);
                match *grab {
                    Grab::Key(i) => {
                        let to = key_time(&keys, i, t, frame, duration);
                        let was = keys[i];
                        keys.set(i, CurveKey { t: to, value, ease: was.ease });
                    },
                    Grab::Out(i) | Grab::Into(i) => {
                        if let Some(e) = ease {
                            let was = keys[i];
                            keys.set(i, CurveKey { t: was.t, value: was.value, ease: e });
                        }
                    },
                }
                Some(keys)
            },
            None => None,
        }
    }

    /// The drag ends. Whether there was one.
    pub fn release(&mut self) -> (out: bool)
        ensures
            out == old(self).drag is Some,
            final(self).drag is None,
            final(self).selected == old(self).selected,
            final(self).item == old(self).item,
    {
        let had = self.drag.is_some();
        self.drag = None;
        had
    }

    /// A click selects the first key pointed at, or none.
    pub fn click(&mut self, near: &Vec<bool>)
        ensures
            final(self).item == old(self).item,
            final(self).drag == old(self).drag,
            final(self).selected == match first_near(near@, 0) {
                Some(i) => Some(i as usize),
                None => None,
            },
    {
        self.selected = first_of(near);
    }
}

/// Where a double-click adds a key: on no other one, inside the clip.
pub fn added_at(near: &Vec<bool>, t: Time, duration: Time) -> (out: Option<Time>)
    requires
        reckonable(duration),
    ensures
        first_near(near@, 0) is Some ==> out is None,
        first_near(near@, 0) is None ==> out is Some && (out->0).0 == inside(t.0 as int, duration),
{
    match first_of(near) {
        Some(_) => None,
        None => Some(t.most(Time(0)).least(Time(duration.0 - 1))),
    }
}

} // verus!
