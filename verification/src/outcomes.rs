//! What comes of the clip and effect commands: what's asked of the document, what's selected
//! afterwards, and what's said.
use crate::doc::{
    EffectInstance, EffectModel, EffectRole, ItemId, MediaId, Op, OpModel, SequenceModel, TrackKind,
};
use crate::editor::Edit;
use crate::selection::{goes_first, in_timeline_order, Selection};
use crate::seqs::views;
use crate::text::{join2, join3, lowercase, lowercase_of, same};
use vstd::prelude::*;

verus! {

// ---- pasting ----

/// How clips come onto the timeline.
#[derive(Copy, Clone, Debug, PartialEq, Eq, Structural)]
pub enum PasteKind {
    Paste,
    Duplicate,
}

impl PasteKind {
    pub open spec fn spec_label(self) -> Seq<char> {
        match self {
            PasteKind::Paste => "Paste"@,
            PasteKind::Duplicate => "Duplicate"@,
        }
    }

    /// What the undo step is called.
    pub fn label(self) -> (out: &'static str)
        ensures
            out@ == self.spec_label(),
    {
        match self {
            PasteKind::Paste => "Paste",
            PasteKind::Duplicate => "Duplicate",
        }
    }
}

/// What's said where pasting can't be done.
pub fn paste_error(kind: PasteKind, e: &str) -> (out: String)
    ensures
        out@ == "can't "@ + lowercase_of(kind.spec_label()) + ": "@ + e@,
{
    let low = lowercase(kind.label());
    let head = join3("can't ", low.as_str(), ": ");
    join2(head.as_str(), e)
}

/// What to do about pasting clips.
pub enum Pasting {
    Nothing,
    /// Say why not.
    Refused(String),
    /// Ask for the changes; the clips they place are selected once they're made.
    Do { ops: Vec<Op>, ids: Vec<ItemId> },
}

/// Pasting clips into a track: `worked_out` is what it takes (`any`: there are clips to
/// paste), none where they are all the other kind from the track.
pub fn place_into_track(
    any: bool,
    kind: PasteKind,
    worked_out: Result<(Vec<Op>, Vec<ItemId>), String>,
) -> (out: Pasting)
    ensures
        match out {
            Pasting::Nothing => !any,
            Pasting::Refused(why) => any && match worked_out {
                Ok(w) => w.0@.len() == 0 && why@
                    == "nothing to put there: those clips are the other kind (sound or picture) from this track"@,
                Err(e) => why@ == "can't "@ + lowercase_of(kind.spec_label()) + ": "@ + e@,
            },
            Pasting::Do { ops, ids } => any && (worked_out matches Ok(w) && w.0@.len() > 0 && ops == w.0
                && ids == w.1),
        },
{
    if !any {
        return Pasting::Nothing;
    }
    match worked_out {
        Ok((ops, ids)) => {
            if ops.len() == 0 {
                Pasting::Refused(
                    "nothing to put there: those clips are the other kind (sound or picture) from this track".to_owned(),
                )
            } else {
                Pasting::Do { ops, ids }
            }
        },
        Err(e) => Pasting::Refused(paste_error(kind, e.as_str())),
    }
}

impl Selection {
    /// The clips pasted are selected, if the document took them; else why not.
    pub fn pasted(&mut self, kind: PasteKind, ids: &Vec<ItemId>, result: Result<(), String>) -> (out: Option<
        String,
    >)
        ensures
            match result {
                Ok(_) => {
                    &&& out is None
                    &&& final(self).well_formed()
                    &&& forall|x: ItemId| #[trigger]
                        final(self).members@.contains(x) <==> ids@.contains(x)
                    &&& final(self).primary == if ids@.len() == 0 {
                        None
                    } else {
                        Some(ids@.last())
                    }
                },
                Err(e) => {
                    &&& *final(self) == *old(self)
                    &&& (out matches Some(t) && t@ == "can't "@ + lowercase_of(kind.spec_label())
                        + ": "@ + e@)
                },
            },
    {
        match result {
            Ok(_) => {
                self.select_placed(ids);
                None
            },
            Err(e) => Some(paste_error(kind, e.as_str())),
        }
    }
}

// ---- deleting ----

/// The order clips are deleted in when the gaps close: last first, so earlier deletions
/// don't shift what the later ones remove.
pub fn ripple_order(clips: &Vec<ItemId>) -> (out: Vec<ItemId>)
    ensures
        out@ == clips@.reverse(),
{
    let mut out: Vec<ItemId> = Vec::new();
    let mut i: usize = clips.len();
    while i > 0
        invariant
            i <= clips@.len(),
            out@.len() == clips@.len() - i,
            forall|k: int| 0 <= k < out@.len() ==> (#[trigger] out@[k]) == clips@[clips@.len() - 1 - k],
        decreases i,
    {
        i = i - 1;
        out.push(clips[i]);
    }
    assert(out@ =~= clips@.reverse());
    out
}

/// When the gaps close, no clip is deleted before one that comes after it.
pub proof fn later_clips_go_first(s: SequenceModel, clips: Seq<ItemId>, a: int, b: int)
    requires
        in_timeline_order(s, clips),
        0 <= a < b < clips.len(),
    ensures
        goes_first(s, clips.reverse()[b], clips.reverse()[a]),
{
}

// ---- breaking compound clips apart ----

/// What came of breaking one compound clip apart.
pub enum Broken {
    /// It was broken apart; `dropped`: the compound's own changes aren't on the pieces.
    /// `applied`: the document took the changes.
    Apart { clips: Vec<ItemId>, dropped: bool, applied: Result<(), String> },
    /// It plays at another speed.
    Retimed,
    Failed(String),
}

/// What came of breaking compound clips apart so far.
pub struct Breaking {
    pub placed: Vec<ItemId>,
    pub lost: bool,
    pub retimed: usize,
    pub error: Option<String>,
}

/// The pieces on the timeline.
pub open spec fn pieces_of(b: Broken) -> Seq<ItemId> {
    match b {
        Broken::Apart { clips, dropped, applied } => if applied is Ok {
            clips@
        } else {
            Seq::empty()
        },
        _ => Seq::empty(),
    }
}

/// Why it couldn't be done.
pub open spec fn trouble_of(b: Broken) -> Option<Seq<char>> {
    match b {
        Broken::Apart { clips, dropped, applied } => match applied {
            Ok(_) => None,
            Err(e) => Some("can't break it apart: "@ + e@),
        },
        Broken::Retimed => None,
        Broken::Failed(e) => Some("can't break it apart: "@ + e@),
    }
}

impl Breaking {
    pub fn new() -> (out: Breaking)
        ensures
            out.placed@.len() == 0,
            !out.lost,
            out.retimed == 0,
            out.error is None,
    {
        Breaking { placed: Vec::new(), lost: false, retimed: 0, error: None }
    }

    /// Takes in what came of one more.
    pub fn step(&mut self, b: Broken)
        requires
            old(self).retimed < usize::MAX,
        ensures
            final(self).placed@ == old(self).placed@ + pieces_of(b),
            final(self).lost == (old(self).lost || (b matches Broken::Apart { clips, dropped, applied }
                && dropped)),
            final(self).retimed == if b is Retimed {
                old(self).retimed + 1
            } else {
                old(self).retimed as int
            },
            match trouble_of(b) {
                Some(t) => final(self).error matches Some(e) && e@ == t,
                None => final(self).error == old(self).error,
            },
    {
        let ghost had = self.placed@;
        assert(had + Seq::<ItemId>::empty() =~= had);
        match b {
            Broken::Apart { mut clips, dropped, applied } => {
                if dropped {
                    self.lost = true;
                }
                match applied {
                    Ok(_) => {
                        self.placed.append(&mut clips);
                    },
                    Err(e) => {
                        self.error = Some(join2("can't break it apart: ", e.as_str()));
                    },
                }
            },
            Broken::Retimed => {
                self.retimed = self.retimed + 1;
            },
            Broken::Failed(e) => {
                self.error = Some(join2("can't break it apart: ", e.as_str()));
            },
        }
    }

    /// What's said in the end: of what the pieces don't have, and of the clips that stayed.
    pub fn notices(&self) -> (out: (Option<&'static str>, Option<&'static str>))
        ensures
            if self.lost && self.placed@.len() > 0 {
                out.0 matches Some(t) && t@
                    == "Broken apart. The compound clip's own transform, effects and transitions applied to it as a whole, so the pieces don't have them."@
            } else {
                out.0 is None
            },
            if self.retimed > 0 {
                out.1 matches Some(t) && t@
                    == "A compound clip playing at another speed can't be broken apart yet — set it back to 1× first."@
            } else {
                out.1 is None
            },
    {
        let first = if self.lost && self.placed.len() > 0 {
            Some(
                "Broken apart. The compound clip's own transform, effects and transitions applied to it as a whole, so the pieces don't have them.",
            )
        } else {
            None
        };
        let second = if self.retimed > 0 {
            Some(
                "A compound clip playing at another speed can't be broken apart yet — set it back to 1× first.",
            )
        } else {
            None
        };
        (first, second)
    }
}

impl Selection {
    /// The pieces are selected, the first of them the primary one (nothing changes where
    /// there are none).
    pub fn select_pieces(&mut self, placed: &Vec<ItemId>)
        ensures
            placed@.len() == 0 ==> *final(self) == *old(self),
            placed@.len() > 0 ==> final(self).well_formed() && final(self).primary == Some(placed@[0])
                && forall|x: ItemId| #[trigger]
                final(self).members@.contains(x) <==> placed@.contains(x),
    {
        if placed.len() > 0 {
            self.select_placed(placed);
            self.primary = Some(placed[0]);
        }
    }
}

// ---- sections ----

/// Something done to one section of the timeline.
#[derive(Copy, Clone, Debug, PartialEq, Eq, Structural)]
pub enum SectionCommand {
    /// Select its clips.
    Select { section: usize },
    /// Remove its clips, keeping the space.
    Clear { section: usize },
    /// Remove it and close the gap.
    Delete { section: usize },
    Move { from: usize, to: usize },
    /// Change (move, recolor, rename) or remove a divider.
    Edit { divider: u64 },
}

impl SectionCommand {
    pub open spec fn spec_label(self) -> Option<Seq<char>> {
        match self {
            SectionCommand::Select { .. } => None,
            SectionCommand::Clear { .. } => Some("Clear section"@),
            SectionCommand::Delete { .. } => Some("Delete section"@),
            SectionCommand::Move { .. } => Some("Move section"@),
            SectionCommand::Edit { .. } => Some("Edit divider"@),
        }
    }

    /// What the undo step is called; selecting isn't one.
    pub fn label(self) -> (out: Option<&'static str>)
        ensures
            match out {
                Some(t) => self.spec_label() == Some(t@),
                None => self.spec_label() is None,
            },
    {
        match self {
            SectionCommand::Select { .. } => None,
            SectionCommand::Clear { .. } => Some("Clear section"),
            SectionCommand::Delete { .. } => Some("Delete section"),
            SectionCommand::Move { .. } => Some("Move section"),
            SectionCommand::Edit { .. } => Some("Edit divider"),
        }
    }

    /// What's said where it can't be done.
    pub fn error(self, e: &str) -> (out: Option<String>)
        ensures
            match self.spec_label() {
                Some(label) => out matches Some(t) && t@ == label + ": "@ + e@,
                None => out is None,
            },
    {
        match self.label() {
            Some(label) => Some(join3(label, ": ", e)),
            None => None,
        }
    }
}

// ---- effects dropped on clips and tracks ----

/// An effect's name as menus show it: its type's, where the plugin isn't there.
pub fn effect_name(type_id: &str, name: Option<&str>) -> (out: String)
    ensures
        out@ == match name {
            Some(n) => n@,
            None => type_id@,
        },
{
    match name {
        Some(n) => n.to_owned(),
        None => type_id.to_owned(),
    }
}

/// An effect dragged out of a clip's list.
pub struct EffectDrag {
    pub from: ItemId,
    pub effect: EffectInstance,
}

/// What comes of letting an effect go over something.
pub enum Dropped {
    Nothing,
    /// Say why not.
    Refused(String),
    /// A copy goes there.
    Copy,
}

pub open spec fn kind_word(sound: bool) -> Seq<char> {
    if sound {
        "sound"@
    } else {
        "picture"@
    }
}

/// Whether an effect can start a container on an effect track (`None`: the track is gone).
pub fn drop_on_track(name: &str, sound: bool, track: Option<TrackKind>) -> (out: Dropped)
    ensures
        match track {
            None => out is Nothing,
            Some(kind) => if sound == (kind == TrackKind::Audio) {
                out is Copy
            } else {
                out matches Dropped::Refused(t) && t@ == name@ + " is a "@ + kind_word(sound)
                    + " effect: drop it on a "@ + kind_word(sound) + " effect track."@
            },
        },
{
    match track {
        None => Dropped::Nothing,
        Some(kind) => {
            if sound == matches!(kind, TrackKind::Audio) {
                return Dropped::Copy;
            }
            let word = if sound {
                "sound"
            } else {
                "picture"
            };
            let head = join3(name, " is a ", word);
            let middle = join3(head.as_str(), " effect: drop it on a ", word);
            Dropped::Refused(join2(middle.as_str(), " effect track."))
        },
    }
}

/// The effect as it goes into a container: it plays for as long as the container lasts.
pub fn contained(drag: &EffectDrag) -> (out: EffectInstance)
    ensures
        out@ == (EffectModel { role: EffectRole::Passive, ..drag.effect@ }),
{
    let mut out = drag.effect.copy();
    out.role = EffectRole::Passive;
    out
}

/// What becomes of the container an effect was dropped into.
#[derive(Copy, Clone, Debug, PartialEq, Eq, Structural)]
pub enum Container {
    /// It goes again: the effect couldn't be put in it.
    Undo,
    /// It's selected.
    Select,
}

/// What becomes of a new container, with `changed` clips given the effect (`steps_before`
/// and `steps_now`: how many steps could be undone before it was made, and can be now).
pub fn container_made(changed: usize, steps_before: usize, steps_now: usize) -> (out: Container)
    ensures
        out == if changed == 0 && steps_now > steps_before {
            Container::Undo
        } else {
            Container::Select
        },
{
    if changed == 0 && steps_now > steps_before {
        Container::Undo
    } else {
        Container::Select
    }
}

/// What's said once it's in its container, and where no container can start.
pub fn container_texts(name: &str, e: &str) -> (out: (String, String))
    ensures
        out.0@ == name@
            + " now runs over everything below that track, for as long as its container lasts."@,
        out.1@ == "can't start a container there: "@ + e@,
{
    (
        join2(
            name,
            " now runs over everything below that track, for as long as its container lasts.",
        ),
        join2("can't start a container there: ", e),
    )
}

/// Whether a dragged effect is copied onto clip `onto` (called `target`).
pub fn drop_on_clip(drag: &EffectDrag, onto: ItemId, name: &str, target: &str, sound: bool, fits: bool) -> (out: Dropped)
    ensures
        if onto == drag.from {
            out is Nothing
        } else if fits {
            out is Copy
        } else {
            out matches Dropped::Refused(t) && t@ == name@ + " can't go on "@ + target@ + ": "@ + if sound {
                "it has no sound"@
            } else {
                "it doesn't take that kind of effect"@
            }
        },
{
    if onto == drag.from {
        return Dropped::Nothing;
    }
    if fits {
        return Dropped::Copy;
    }
    let head = join3(name, " can't go on ", target);
    Dropped::Refused(
        join3(
            head.as_str(),
            ": ",
            if sound {
                "it has no sound"
            } else {
                "it doesn't take that kind of effect"
            },
        ),
    )
}

/// What's said of a copied effect, with `changed` clips changed (nothing more where there's
/// an error).
pub fn copied_notice(name: &str, target: &str, changed: usize, error: bool) -> (out: Option<String>)
    ensures
        if changed > 0 {
            out matches Some(t) && t@ == "Copied "@ + name@ + " onto "@ + target@ + "."@
        } else if !error {
            out matches Some(t) && t@ == target@ + " already has "@ + name@ + " with these settings."@
        } else {
            out is None
        },
{
    if changed > 0 {
        let head = join3("Copied ", name, " onto ");
        Some(join3(head.as_str(), target, "."))
    } else if !error {
        let head = join3(target, " already has ", name);
        Some(join2(head.as_str(), " with these settings."))
    } else {
        None
    }
}

/// Whether an effect's settings can be replaced: one of its type was copied.
pub fn can_paste_settings(copied: &Vec<EffectInstance>, type_id: &str) -> (out: bool)
    ensures
        out == exists|k: int|
            0 <= k < copied@.len() && (#[trigger] views(copied@)[k]).type_id == type_id@,
{
    let mut i: usize = 0;
    while i < copied.len()
        invariant
            i <= copied@.len(),
            forall|k: int| 0 <= k < i ==> (#[trigger] views(copied@)[k]).type_id != type_id@,
        decreases copied@.len() - i,
    {
        assert(views(copied@)[i as int] == copied@[i as int]@);
        if same(copied[i].type_id.as_str(), type_id) {
            return true;
        }
        i = i + 1;
    }
    false
}

// ---- how a file's pixels are scaled ----

#[derive(Copy, Clone, Debug, PartialEq, Eq, Structural)]
pub enum MediaScaling {
    Auto,
    Pixel,
    Smooth,
}

/// A scale mode as the menu shows it, and what it's for. `current` is the file's mode, and
/// `pixelated` whether it's scaled by pixels now.
pub fn scaling_label(mode: MediaScaling, current: MediaScaling, pixelated: bool) -> (out: (
    &'static str,
    &'static str,
))
    ensures
        (out.0@, out.1@) == match mode {
            MediaScaling::Pixel => (
                "Pixel scale (nearest neighbor)"@,
                "Every pixel stays a crisp square — for pixel art"@,
            ),
            MediaScaling::Smooth => ("Smooth scale"@, "Filtered — for photos and video"@),
            MediaScaling::Auto => (
                if pixelated && current == MediaScaling::Auto {
                    "Automatic (pixel)"@
                } else {
                    "Automatic (smooth)"@
                },
                "Pixel for pictures up to 32×32, smooth otherwise"@,
            ),
        },
{
    match mode {
        MediaScaling::Pixel => (
            "Pixel scale (nearest neighbor)",
            "Every pixel stays a crisp square — for pixel art",
        ),
        MediaScaling::Smooth => ("Smooth scale", "Filtered — for photos and video"),
        MediaScaling::Auto => (
            if pixelated && matches!(current, MediaScaling::Auto) {
                "Automatic (pixel)"
            } else {
                "Automatic (smooth)"
            },
            "Pixel for pictures up to 32×32, smooth otherwise",
        ),
    }
}

/// Scales the file's pixels by `mode`: one step.
pub fn set_scaling(media: MediaId, mode: MediaScaling) -> (out: Edit)
    ensures
        out.label@ == "Scale mode"@,
        out.key is None,
        views(out.ops@) == seq![OpModel::SetMediaScaling { media, scaling: mode }],
{
    let ops = vec![Op::SetMediaScaling { media, scaling: mode }];
    assert(views(ops@) =~= seq![OpModel::SetMediaScaling { media, scaling: mode }]);
    Edit { label: "Scale mode".to_owned(), key: None, ops }
}

} // verus!
