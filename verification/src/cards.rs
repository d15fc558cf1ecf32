//! The effect cards of the inspector: what they say, when sound effects play, and where a
//! dragged card goes.
use crate::doc::{EffectId, EffectRole, ItemId, Op, OpModel, SeqId, Time, SECOND};
use crate::editor::{fanned_ops, Editor};
use crate::effects::{dropped_at, move_target, List};
use crate::seqs::{filter_step, take_all, views};
use crate::text::{decimal, join2, join3, number};
use vstd::prelude::*;

verus! {

/// What stands over a list of `cards` cards: that there are none, or how to use them.
/// `reversing`: the outro is the intro, backwards.
pub open spec fn list_note_of(list: List, cards: nat, reversing: bool) -> Option<Seq<char>> {
    if cards == 0 && reversing {
        None
    } else if cards == 0 {
        Some(
            match list {
                List::Effects => "No effects yet."@,
                List::Sound => "No sound effects yet."@,
                List::Intro => "No intro yet."@,
                List::Outro => "No outro yet."@,
            },
        )
    } else if cards == 1 {
        Some("Drag ⋮⋮ onto another clip to copy it there."@)
    } else if list is Intro || list is Outro {
        Some("They play together. Drag ⋮⋮ to reorder, or onto another clip to copy."@)
    } else {
        Some("Applied top to bottom. Drag ⋮⋮ to reorder, or onto another clip to copy."@)
    }
}

pub fn list_note(list: List, cards: usize, reversing: bool) -> (out: Option<&'static str>)
    ensures
        match out {
            Some(t) => list_note_of(list, cards as nat, reversing) == Some(t@),
            None => list_note_of(list, cards as nat, reversing) is None,
        },
{
    if cards == 0 && reversing {
        None
    } else if cards == 0 {
        Some(
            match list {
                List::Effects => "No effects yet.",
                List::Sound => "No sound effects yet.",
                List::Intro => "No intro yet.",
                List::Outro => "No outro yet.",
            },
        )
    } else if cards == 1 {
        Some("Drag ⋮⋮ onto another clip to copy it there.")
    } else if matches!(list, List::Intro | List::Outro) {
        Some("They play together. Drag ⋮⋮ to reorder, or onto another clip to copy.")
    } else {
        Some("Applied top to bottom. Drag ⋮⋮ to reorder, or onto another clip to copy.")
    }
}

/// How many of the selected clips have an effect, where not all of them do.
pub fn shared_label(have: usize, total: usize) -> (out: Option<String>)
    ensures
        if have < total {
            out matches Some(t) && t@ == "on "@ + decimal(have as nat) + " of "@ + decimal(total as nat)
        } else {
            out is None
        },
{
    if have < total {
        let head = join3("on ", number(have as u64).as_str(), " of ");
        Some(join2(head.as_str(), number(total as u64).as_str()))
    } else {
        None
    }
}

/// What a card's name says on hover: what the effect does, and what its menu is for.
pub fn card_tip(about: &str, can_bound: bool) -> (out: String)
    ensures
        out@ == (if about@.len() == 0 {
            Seq::<char>::empty()
        } else {
            about@ + "\n"@
        }) + "Right-click to copy or paste"@ + if can_bound {
            ", or to bound it to some of the letters"@
        } else {
            ""@
        },
{
    let more = if can_bound {
        ", or to bound it to some of the letters"
    } else {
        ""
    };
    let tail = join2("Right-click to copy or paste", more);
    if about.unicode_len() == 0 {
        assert(tail@ =~= Seq::<char>::empty() + "Right-click to copy or paste"@ + more@);
        tail
    } else {
        let out = join3(about, "\n", tail.as_str());
        assert(out@ =~= about@ + "\n"@ + "Right-click to copy or paste"@ + more@);
        out
    }
}

// ---- several clips at once ----

pub open spec fn not_this(item: ItemId) -> spec_fn(ItemId) -> bool {
    |i: ItemId| i != item
}

/// The other selected clips (the background is never part of a selection).
pub fn others(selected: &Vec<ItemId>, item: ItemId, background: bool) -> (out: Vec<ItemId>)
    ensures
        out@ == if background {
            Seq::empty()
        } else {
            selected@.filter(not_this(item))
        },
{
    let mut out: Vec<ItemId> = Vec::new();
    if background {
        return out;
    }
    let ghost p = not_this(item);
    let mut i: usize = 0;
    assert(selected@.take(0).filter(p) =~= Seq::empty()) by {
        reveal_with_fuel(Seq::filter, 1);
    }
    while i < selected.len()
        invariant
            p == not_this(item),
            i <= selected@.len(),
            out@ == selected@.take(i as int).filter(p),
        decreases selected@.len() - i,
    {
        proof {
            filter_step(selected@, p, i as int);
        }
        if selected[i] != item {
            out.push(selected[i]);
        }
        i = i + 1;
    }
    proof {
        take_all(selected@);
    }
    out
}

/// The clips an effect is added to: this one, then the others.
pub fn targets(item: ItemId, others: &Vec<ItemId>) -> (out: Vec<ItemId>)
    ensures
        out@ == seq![item] + others@,
{
    let mut out: Vec<ItemId> = vec![item];
    let mut i: usize = 0;
    while i < others.len()
        invariant
            i <= others@.len(),
            out@ =~= seq![item] + others@.take(i as int),
        decreases others@.len() - i,
    {
        out.push(others[i]);
        i = i + 1;
    }
    assert(others@.take(i as int) =~= others@);
    out
}

/// What the list adds.
pub fn list_word(list: List) -> (out: &'static str)
    ensures
        out@ == match list {
            List::Effects => "effect"@,
            List::Sound => "sound effect"@,
            List::Intro => "intro"@,
            List::Outro => "outro"@,
        },
{
    match list {
        List::Effects => "effect",
        List::Sound => "sound effect",
        List::Intro => "intro",
        List::Outro => "outro",
    }
}

/// The button that adds an effect to this clip, or to each of the selected ones.
pub fn add_label(what: &str, others: usize) -> (out: String)
    requires
        others < usize::MAX,
    ensures
        out@ == if others == 0 {
            "+ Add "@ + what@
        } else {
            "+ Add "@ + what@ + " to "@ + decimal((others + 1) as nat) + " clips"@
        },
{
    let head = join2("+ Add ", what);
    if others == 0 {
        head
    } else {
        let mid = join3(head.as_str(), " to ", number((others + 1) as u64).as_str());
        join2(mid.as_str(), " clips")
    }
}

/// What's said of an effect added to `n` clips: nothing for one.
pub fn added_notice(name: &str, n: usize) -> (out: Option<String>)
    ensures
        if n > 1 {
            out matches Some(t) && t@ == "Added "@ + name@ + " to "@ + decimal(n as nat) + " clips."@
        } else {
            out is None
        },
{
    if n > 1 {
        let head = join3("Added ", name, " to ");
        Some(join3(head.as_str(), number(n as u64).as_str(), " clips."))
    } else {
        None
    }
}

pub open spec fn plural(n: nat) -> Seq<char> {
    if n == 1 {
        ""@
    } else {
        "s"@
    }
}

/// What "Apply to All Selected" says of the other `n` clips it goes on.
pub fn apply_tip(n: usize) -> (out: String)
    ensures
        out@ == "Put this effect, with these settings, on the other "@ + decimal(n as nat)
            + " selected clip"@ + plural(n as nat),
{
    let head = join3(
        "Put this effect, with these settings, on the other ",
        number(n as u64).as_str(),
        " selected clip",
    );
    join2(
        head.as_str(),
        if n == 1 {
            ""
        } else {
            "s"
        },
    )
}

/// What's said once it's applied, with `n` clips changed.
pub fn applied_notice(name: &str, n: usize) -> (out: String)
    ensures
        out@ == if n == 0 {
            "The selected clips already have "@ + name@ + " like this."@
        } else {
            "Applied "@ + name@ + " to "@ + decimal(n as nat) + " more clip"@ + plural(n as nat) + "."@
        },
{
    if n == 0 {
        join3("The selected clips already have ", name, " like this.")
    } else {
        let head = join3("Applied ", name, " to ");
        let mid = join3(head.as_str(), number(n as u64).as_str(), " more clip");
        join3(
            mid.as_str(),
            if n == 1 {
                ""
            } else {
                "s"
            },
            ".",
        )
    }
}

// ---- when a sound effect plays ----

/// When a sound effect plays.
#[derive(Copy, Clone, Debug, PartialEq, Eq, Structural)]
pub enum Timing {
    Whole,
    Intro,
    Outro,
}

impl Timing {
    /// What it's called, and what it means.
    pub fn about(self) -> (out: (&'static str, &'static str))
        ensures
            (out.0@, out.1@) == match self {
                Timing::Whole => ("Whole clip"@, "Plays for the whole clip"@),
                Timing::Intro => ("Intro"@, "Plays over the clip's first seconds"@),
                Timing::Outro => ("Outro"@, "Plays over the clip's last seconds"@),
            },
    {
        match self {
            Timing::Whole => ("Whole clip", "Plays for the whole clip"),
            Timing::Intro => ("Intro", "Plays over the clip's first seconds"),
            Timing::Outro => ("Outro", "Plays over the clip's last seconds"),
        }
    }
}

/// The shortest an effect plays over: 0.05 s.
pub const BRIEFEST: i64 = 35_280_000;

pub open spec fn timing_in(role: EffectRole) -> (Timing, Time) {
    match role {
        EffectRole::Passive => (Timing::Whole, Time(SECOND)),
        EffectRole::In { duration } => (Timing::Intro, duration),
        EffectRole::Out { duration } => (Timing::Outro, duration),
        EffectRole::Reversed { duration } => (Timing::Outro, duration),
    }
}

/// When an effect with the role plays, and for how long (a second to start with, where it
/// plays throughout).
pub fn timing_of(role: EffectRole) -> (out: (Timing, Time))
    ensures
        out == timing_in(role),
{
    match role {
        EffectRole::Passive => (Timing::Whole, Time(SECOND)),
        EffectRole::In { duration } => (Timing::Intro, duration),
        EffectRole::Out { duration } => (Timing::Outro, duration),
        EffectRole::Reversed { duration } => (Timing::Outro, duration),
    }
}

/// The role of an effect that plays at the timing: no longer than its clip, and never too
/// short to notice.
pub open spec fn role_at(timing: Timing, duration: Time, length: Time) -> EffectRole {
    let duration = duration.spec_least(length).spec_most(Time(BRIEFEST));
    match timing {
        Timing::Whole => EffectRole::Passive,
        Timing::Intro => EffectRole::In { duration },
        Timing::Outro => EffectRole::Out { duration },
    }
}

/// A sound effect of the role, picked to play at `to` on a clip `length` long; `None` where
/// it does already.
pub fn retimed(role: EffectRole, to: Timing, length: Time) -> (out: Option<EffectRole>)
    ensures
        out == if timing_in(role).0 == to {
            None
        } else {
            Some(role_at(to, timing_in(role).1, length))
        },
{
    let (was, duration) = timing_of(role);
    if was == to {
        return None;
    }
    let duration = duration.least(length).most(Time(BRIEFEST));
    Some(
        match to {
            Timing::Whole => EffectRole::Passive,
            Timing::Intro => EffectRole::In { duration },
            Timing::Outro => EffectRole::Out { duration },
        },
    )
}

/// A retimed effect plays when it was picked to, and never longer than its clip.
pub proof fn retiming_keeps_to_the_clip(to: Timing, duration: Time, length: Time)
    requires
        length.0 >= BRIEFEST,
    ensures
        timing_in(role_at(to, duration, length)).0 == to,
        to != Timing::Whole ==> BRIEFEST <= timing_in(role_at(to, duration, length)).1.0 <= length.0,
{
}

// ---- what a card shows ----

/// What's known of a card's effect.
#[derive(Copy, Clone, Debug, PartialEq, Eq, Structural)]
pub struct CardFacts {
    /// Its plugin is there and on.
    pub known: bool,
    /// It's shown among the sound effects.
    pub sound: bool,
    /// Its sound shader works.
    pub sounds: bool,
    pub renders: bool,
    pub surface: bool,
    pub equalizer: bool,
    /// It's on a title, and can be bounded to some of its letters.
    pub bounded: bool,
}

/// What a card shows under its name.
#[derive(Copy, Clone, Debug, PartialEq, Eq, Structural)]
pub enum CardBody {
    /// A note instead of settings.
    Missing,
    NoSound,
    NotRendered,
    Surface,
    Equalizer,
    Settings { meter: bool, bounds: bool },
}

/// What a card shows.
pub fn card_body(f: CardFacts) -> (out: CardBody)
    ensures
        out == if !f.known {
            CardBody::Missing
        } else if f.sound && !f.sounds {
            CardBody::NoSound
        } else if !f.sound && !f.renders {
            CardBody::NotRendered
        } else if f.surface {
            CardBody::Surface
        } else if f.equalizer {
            CardBody::Equalizer
        } else {
            CardBody::Settings { meter: f.sound, bounds: f.bounded }
        },
{
    if !f.known {
        CardBody::Missing
    } else if f.sound && !f.sounds {
        CardBody::NoSound
    } else if !f.sound && !f.renders {
        CardBody::NotRendered
    } else if f.surface {
        CardBody::Surface
    } else if f.equalizer {
        CardBody::Equalizer
    } else {
        CardBody::Settings { meter: f.sound, bounds: f.bounded }
    }
}

/// What a note instead of settings says.
pub fn card_note(body: CardBody) -> (out: Option<&'static str>)
    ensures
        match body {
            CardBody::Missing => out matches Some(t) && t@
                == "This effect's plugin is off or isn't installed; its settings are kept."@,
            CardBody::NoSound => out matches Some(t) && t@
                == "Its sound shader didn't compile; it's skipped (see Home → Plugins)."@,
            CardBody::NotRendered => out matches Some(t) && t@
                == "Can't be rendered by this version yet; it's skipped."@,
            _ => out is None,
        },
{
    match body {
        CardBody::Missing => Some(
            "This effect's plugin is off or isn't installed; its settings are kept.",
        ),
        CardBody::NoSound => Some(
            "Its sound shader didn't compile; it's skipped (see Home → Plugins).",
        ),
        CardBody::NotRendered => Some("Can't be rendered by this version yet; it's skipped."),
        _ => None,
    }
}

// ---- letting a dragged card go ----

/// Where a dragged card was let go.
#[derive(Copy, Clone, Debug, PartialEq, Eq, Structural)]
pub struct LetGo {
    /// Over the list itself.
    pub inside: bool,
    /// The clip there, in the timeline or the viewer.
    pub onto: Option<ItemId>,
    /// An effect track is there.
    pub lane: bool,
    /// The inspector is there.
    pub panel: bool,
}

/// What happens then.
#[derive(Copy, Clone, Debug, PartialEq, Eq, Structural)]
pub enum Release {
    Nothing,
    /// It goes to this place among the clip's effects (counted after taking it out).
    Move(usize),
    /// A copy goes onto the clip.
    Copy(ItemId),
    /// A container starts on the effect track, holding it.
    Contain,
    /// Say where it can be dropped.
    Hint,
}

/// What letting a dragged card go does: over the list, it's moved among the cards shown
/// (`positions`; it was the one at `from`, and goes before the one at `slot`).
pub fn let_go(g: LetGo, positions: &Vec<usize>, from: Option<usize>, slot: usize) -> (out: Release)
    requires
        forall|k: int| 0 <= k < positions@.len() ==> (#[trigger] positions@[k]) < usize::MAX,
    ensures
        out == if g.inside {
            match from {
                Some(f) => match dropped_at(positions@, f as int, slot as int) {
                    Some(at) => Release::Move(at as usize),
                    None => Release::Nothing,
                },
                None => Release::Nothing,
            }
        } else {
            match g.onto {
                Some(onto) => Release::Copy(onto),
                None => if g.lane {
                    Release::Contain
                } else if !g.panel {
                    Release::Hint
                } else {
                    Release::Nothing
                },
            }
        },
{
    if g.inside {
        return match from {
            Some(f) => match move_target(positions, f, slot) {
                Some(at) => Release::Move(at),
                None => Release::Nothing,
            },
            None => Release::Nothing,
        };
    }
    match g.onto {
        Some(onto) => Release::Copy(onto),
        None => if g.lane {
            Release::Contain
        } else if !g.panel {
            Release::Hint
        } else {
            Release::Nothing
        },
    }
}

// ---- what's done with a card ----

/// Something done with an effect's card.
#[derive(Copy, Clone, Debug, PartialEq, Eq, Structural)]
pub enum CardAction {
    /// Switches the effect on or off.
    Toggle(bool),
    Remove,
    /// Has a sound effect play at another time.
    Retime(EffectRole),
    /// Has an intro or outro play for longer or shorter.
    Last(EffectRole),
    /// The outro is the intro played backwards, or isn't.
    Reverse(bool),
}

/// What the undo step is called.
pub open spec fn card_label(action: CardAction) -> Seq<char> {
    match action {
        CardAction::Toggle(_) => "Toggle effect"@,
        CardAction::Remove => "Remove effect"@,
        CardAction::Retime(_) => "Effect timing"@,
        CardAction::Last(_) => "Effect duration"@,
        CardAction::Reverse(_) => "Reverse intro"@,
    }
}

/// What's done to the card's own clip.
pub open spec fn card_op(seq: SeqId, item: ItemId, effect: EffectId, action: CardAction) -> OpModel {
    match action {
        CardAction::Toggle(enabled) => OpModel::SetEffectEnabled { seq, item, effect, enabled },
        CardAction::Remove => OpModel::RemoveEffect { seq, item, effect },
        CardAction::Retime(role) => OpModel::SetEffectRole { seq, item, effect, role },
        CardAction::Last(role) => OpModel::SetEffectRole { seq, item, effect, role },
        CardAction::Reverse(on) => OpModel::SetReverseIntro { seq, item, on },
    }
}

impl Editor {
    /// What's done with a card of `item`'s effect comes to: what the undo step is called, and
    /// the changes, to the same effect on the linked clips too.
    pub fn card_action(&self, item: ItemId, effect: EffectId, action: CardAction) -> (out: (
        &'static str,
        Vec<Op>,
    ))
        ensures
            out.0@ == card_label(action),
            views(out.1@) == fanned_ops(
                self.timeline@,
                self.linked@,
                seq![card_op(self.timeline@.id, item, effect, action)],
            ),
    {
        let seq = self.timeline.id;
        let (label, op) = match action {
            CardAction::Toggle(enabled) => (
                "Toggle effect",
                Op::SetEffectEnabled { seq, item, effect, enabled },
            ),
            CardAction::Remove => ("Remove effect", Op::RemoveEffect { seq, item, effect }),
            CardAction::Retime(role) => (
                "Effect timing",
                Op::SetEffectRole { seq, item, effect, role },
            ),
            CardAction::Last(role) => (
                "Effect duration",
                Op::SetEffectRole { seq, item, effect, role },
            ),
            CardAction::Reverse(on) => ("Reverse intro", Op::SetReverseIntro { seq, item, on }),
        };
        let ops = vec![op];
        assert(views(ops@) =~= seq![card_op(seq, item, effect, action)]);
        (label, self.fanned(ops))
    }
}

} // verus!
