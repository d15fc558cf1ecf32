//! The Captions window: when it's open, what it says, and starting to listen.
use crate::caption_jobs::{hull, listen_error, listen_range};
use crate::captions::{CaptionsUi, Mode, Work};
use crate::doc::{Time, TimeRange};
use crate::seqs::{first_from, first_where, views};
use crate::text::{decimal, join2, join3, number, same};
use vstd::prelude::*;

verus! {

/// A step through the window's own history.
#[derive(Copy, Clone, Debug, PartialEq, Eq, Structural)]
pub enum HistoryKey {
    Undo,
    Redo,
}

/// What the keys mean to the window: nothing while typing in some other window's field
/// (`typing`, and not in a caption: `own`); redo goes before undo.
pub fn history_key(typing: bool, own: bool, redo: bool, undo: bool) -> (out: Option<HistoryKey>)
    ensures
        out == if typing && !own {
            None
        } else if redo {
            Some(HistoryKey::Redo)
        } else if undo {
            Some(HistoryKey::Undo)
        } else {
            None
        },
{
    if typing && !own {
        None
    } else if redo {
        Some(HistoryKey::Redo)
    } else if undo {
        Some(HistoryKey::Undo)
    } else {
        None
    }
}

/// The window shows how to get the engine: it isn't there yet, or is being set up.
pub fn setting_up(installed: bool, job: Option<Work>) -> (out: bool)
    ensures
        out == (!installed || job == Some(Work::Install)),
{
    !installed || matches!(job, Some(Work::Install))
}

/// Where the window is. Closed by adding the captions it's kept, so undoing that brings it
/// back as it was.
#[derive(Copy, Clone, Debug, PartialEq, Eq, Structural)]
pub struct Place {
    pub open: bool,
    pub kept: bool,
}

/// What becomes of the window's state.
#[derive(Copy, Clone, Debug, PartialEq, Eq, Structural)]
pub enum Fate {
    /// A window starts, for the whole timeline or for the selected clips' stretch.
    New { whole_timeline: bool },
    /// The open one is kept aside (in place of any that was).
    Keep,
    /// The kept one is opened again.
    Return,
    /// The open one is dropped, and whatever was running stops.
    Drop,
    Nothing,
}

impl Place {
    /// Once the window was closed.
    pub open spec fn closed(self, added: bool) -> Place {
        Place { open: false, kept: self.kept || added }
    }

    /// Once adding the captions was undone.
    pub open spec fn reopened(self) -> Place {
        if !self.open && self.kept {
            Place { open: true, kept: false }
        } else {
            self
        }
    }

    /// Once adding the captions was redone.
    pub open spec fn away(self) -> Place {
        if self.open {
            Place { open: false, kept: true }
        } else {
            self
        }
    }

    /// Opens the window, where it isn't.
    pub fn open(&mut self, any_selected: bool) -> (out: Fate)
        ensures
            *final(self) == (Place { open: true, ..*old(self) }),
            out == if old(self).open {
                Fate::Nothing
            } else {
                Fate::New { whole_timeline: !any_selected }
            },
    {
        if self.open {
            return Fate::Nothing;
        }
        self.open = true;
        Fate::New { whole_timeline: !any_selected }
    }

    /// The window was closed: by adding the captions (`added`), or otherwise.
    pub fn close(&mut self, added: bool) -> (out: Fate)
        requires
            old(self).open,
        ensures
            *final(self) == old(self).closed(added),
            out == if added {
                Fate::Keep
            } else {
                Fate::Drop
            },
    {
        self.open = false;
        if added {
            self.kept = true;
            Fate::Keep
        } else {
            Fate::Drop
        }
    }

    /// Adding the captions was undone.
    pub fn reopen(&mut self) -> (out: Fate)
        ensures
            *final(self) == old(self).reopened(),
            out == if !old(self).open && old(self).kept {
                Fate::Return
            } else {
                Fate::Nothing
            },
    {
        if !self.open && self.kept {
            self.open = true;
            self.kept = false;
            Fate::Return
        } else {
            Fate::Nothing
        }
    }

    /// Adding the captions was redone.
    pub fn put_away(&mut self) -> (out: Fate)
        ensures
            *final(self) == old(self).away(),
            out == if old(self).open {
                Fate::Keep
            } else {
                Fate::Nothing
            },
    {
        if self.open {
            self.open = false;
            self.kept = true;
            Fate::Keep
        } else {
            Fate::Nothing
        }
    }
}

/// Undoing what closed the window brings it back, and redoing that puts it away again.
pub proof fn undoing_brings_the_window_back(place: Place)
    requires
        place.open,
    ensures
        place.closed(true).reopened().open,
        place.closed(true).reopened().away() == place.closed(true),
        place.away().reopened().open,
{
}

/// What's said when the window comes back.
pub fn came_back() -> (out: &'static str)
    ensures
        out@
            == "The captions came off the timeline — the Captions window is back as you left it."@,
{
    "The captions came off the timeline — the Captions window is back as you left it."
}

impl CaptionsUi {
    /// Starts listening: to the whole timeline or the selected clips' stretch. What to mix
    /// down, or the error shown instead.
    pub fn listen(
        &mut self,
        has_sound: bool,
        any_selected: bool,
        selected: &Vec<TimeRange>,
        duration: Time,
    ) -> (out: Option<(Time, Time)>)
        requires
            forall|k: int| 0 <= k < selected@.len() ==> (#[trigger] selected@[k]).fits(),
        ensures
            final(self).same_job(*old(self)),
            final(self).whole_timeline == old(self).whole_timeline,
            final(self).edits == old(self).edits,
            final(self).manual == old(self).manual,
            final(self).cursor == old(self).cursor,
            final(self).times == old(self).times,
            final(self).removed == old(self).removed,
            final(self).picked == old(self).picked,
            final(self).focus == old(self).focus,
            final(self).history() == old(self).history(),
            ({
                let whole = old(self).whole_timeline || !any_selected;
                let from = if whole {
                    0
                } else {
                    hull(selected@).0
                };
                let to = if whole {
                    duration.0 as int
                } else {
                    hull(selected@).1
                };
                if !has_sound {
                    &&& out is None
                    &&& (final(self).error matches Some(e) && e@
                        == "There's no sound on this timeline to listen to."@)
                } else if (!whole && selected@.len() == 0) || to <= from {
                    &&& out is None
                    &&& (final(self).error matches Some(e) && e@ == "That stretch is empty."@)
                } else {
                    &&& (out matches Some(r) && r.0.0 == from && r.1.0 == to && final(self).offset
                        == r.0)
                    &&& final(self).error is None
                    &&& final(self).transcript is None
                    &&& final(self).rendering
                }
            }),
            out is None ==> final(self).offset == old(self).offset && final(self).transcript == old(
                self).transcript && final(self).rendering == old(self).rendering,
    {
        match listen_range(has_sound, self.whole_timeline, any_selected, selected, duration) {
            Err(e) => {
                self.error = Some(listen_error(e).to_owned());
                None
            },
            Ok(r) => {
                self.offset = r.0;
                self.error = None;
                self.transcript = None;
                self.rendering = true;
                Some(r)
            },
        }
    }
}

// ---- the engine ----

/// What the window knows of the engine.
#[derive(Copy, Clone, Debug, PartialEq, Eq, Structural)]
pub struct EngineInfo {
    /// Its size on disk, once it's known.
    pub usage: Option<u64>,
    /// Removing it was asked for, and isn't confirmed yet.
    pub confirm: bool,
}

impl EngineInfo {
    /// Asks before removing it; not while something is running.
    pub fn ask(&mut self, busy: bool)
        ensures
            *final(self) == (EngineInfo { confirm: old(self).confirm || !busy, ..*old(self) }),
    {
        if !busy {
            self.confirm = true;
        }
    }

    /// A job ended: what the engine takes is measured again.
    pub fn job_ended(&mut self)
        ensures
            *final(self) == (EngineInfo { usage: None, ..*old(self) }),
    {
        self.usage = None;
    }

    pub fn keep(&mut self)
        ensures
            *final(self) == (EngineInfo { confirm: false, ..*old(self) }),
    {
        self.confirm = false;
    }

    /// It was removed, or (`error`) not all of it was; what to say.
    pub fn removed(&mut self, ui: &mut CaptionsUi, error: Option<String>) -> (out: Option<&'static str>)
        ensures
            *final(self) == (EngineInfo { usage: None, confirm: false }),
            final(ui).transcript is None,
            match error {
                None => out matches Some(t) && t@ == "Removed the caption engine."@ && final(ui).error
                    == old(ui).error,
                Some(e) => out is None && (final(ui).error matches Some(x) && x@
                    == "couldn't remove it all: "@ + e@),
            },
            final(ui).same_job(*old(ui)),
            final(ui).rendering == old(ui).rendering,
            final(ui).whole_timeline == old(ui).whole_timeline,
            final(ui).offset == old(ui).offset,
            final(ui).edits == old(ui).edits,
            final(ui).manual == old(ui).manual,
            final(ui).cursor == old(ui).cursor,
            final(ui).times == old(ui).times,
            final(ui).removed == old(ui).removed,
            final(ui).picked == old(ui).picked,
            final(ui).focus == old(ui).focus,
            final(ui).history() == old(ui).history(),
    {
        self.confirm = false;
        self.usage = None;
        ui.transcript = None;
        match error {
            None => Some("Removed the caption engine."),
            Some(e) => {
                ui.error = Some(join2("couldn't remove it all: ", e.as_str()));
                None
            },
        }
    }
}

/// How big something under a gigabyte is; `None` from there on.
pub fn megabytes(bytes: u64) -> (out: Option<String>)
    ensures
        if bytes < 0x4000_0000 {
            out matches Some(t) && t@ == decimal((bytes / 0x10_0000) as nat) + " MB"@
        } else {
            out is None
        },
{
    if bytes < 0x4000_0000 {
        Some(join2(number(bytes / 0x10_0000).as_str(), " MB"))
    } else {
        None
    }
}

/// What everything but the model takes, in megabytes.
pub const ENGINE_MB: u32 = 200;

pub open spec fn named(name: Seq<char>) -> spec_fn(Seq<char>) -> bool {
    |n: Seq<char>| n == name
}

/// The model to set up with: the chosen one, or (for a name that isn't offered) the third.
pub fn chosen_model(names: &Vec<String>, name: &str) -> (out: usize)
    ensures
        match first_where(views(names@), named(name@)) {
            Some(i) => out == i,
            None => out == 2,
        },
{
    let ghost all = views(names@);
    let ghost p = named(name@);
    let mut i: usize = 0;
    while i < names.len()
        invariant
            all == views(names@),
            p == named(name@),
            i <= names@.len(),
            first_where(all, p) == first_from(all, p, i as int),
        decreases names@.len() - i,
    {
        assert(all[i as int] == names@[i as int]@);
        if same(names[i].as_str(), name) {
            return i;
        }
        i = i + 1;
    }
    2
}

/// What setting it up takes, and the button for it.
pub fn set_up_texts(model: &str, size: u32) -> (out: (String, String))
    requires
        size <= u32::MAX - ENGINE_MB,
    ensures
        out.0@ == "About "@ + decimal((ENGINE_MB + size) as nat)
            + " MB in all: uv (a small Python installer), Python, faster-whisper and its libraries, and the "@
            + model@
            + " model. It all goes in one folder — nothing is installed anywhere else, and Remove deletes it:"@,
        out.1@ == "Download and set up  (~"@ + decimal((ENGINE_MB + size) as nat) + " MB)"@,
{
    let size = number((ENGINE_MB + size) as u64);
    let head = join3(
        "About ",
        size.as_str(),
        " MB in all: uv (a small Python installer), Python, faster-whisper and its libraries, and the ",
    );
    let all = join3(
        head.as_str(),
        model,
        " model. It all goes in one folder — nothing is installed anywhere else, and Remove deletes it:",
    );
    (all, join3("Download and set up  (~", size.as_str(), " MB)"))
}

/// A model as it's listed: ticked where it's there.
pub fn model_label(have: bool, name: &str, size: u32, about: &str) -> (out: String)
    ensures
        out@ == if have {
            "✓ "@
        } else {
            ""@
        } + name@ + "  ~"@ + decimal(size as nat) + " MB — "@ + about@,
{
    let head = join3(
        if have {
            "✓ "
        } else {
            ""
        },
        name,
        "  ~",
    );
    let size = number(size as u64);
    let out = join3(join2(head.as_str(), size.as_str()).as_str(), " MB — ", about);
    out
}

// ---- what a running job looks like ----

/// What's being done.
pub open spec fn doing(step: Seq<char>) -> Seq<char> {
    if step.len() == 0 {
        "Starting…"@
    } else {
        step
    }
}

/// The lines over and under a running job's bar.
pub fn job_texts(ui: &CaptionsUi, steps: usize) -> (out: (String, String))
    requires
        ui.job is Some,
        ui.step_index < usize::MAX,
    ensures
        if ui.job == Some(Work::Listen) {
            &&& out.0@ == doing(ui.step@) + "…"@
            &&& out.1@ == if ui.progress is Some {
                "Transcribing: captions arrive as it goes."@
            } else {
                "Loading the model…"@
            }
        } else {
            &&& out.0@ == doing(ui.step@)
            &&& out.1@ == "step "@ + decimal((ui.step_index + 1) as nat) + " of "@ + decimal(
                if steps == 0 {
                    1
                } else {
                    steps as nat
                },
            )
        },
{
    let what: String = if ui.step.as_str().unicode_len() == 0 {
        "Starting…".to_owned()
    } else {
        ui.step.clone()
    };
    if matches!(ui.job, Some(Work::Listen)) {
        let below = if ui.progress.is_some() {
            "Transcribing: captions arrive as it goes."
        } else {
            "Loading the model…"
        };
        (join2(what.as_str(), "…"), below.to_owned())
    } else {
        let total: usize = if steps == 0 {
            1
        } else {
            steps
        };
        let at = join3("step ", number((ui.step_index + 1) as u64).as_str(), " of ");
        (what, join2(at.as_str(), number(total as u64).as_str()))
    }
}

/// Lines of the log shown with an error: the last 40.
pub const SHOWN: usize = 40;

/// The first line of the log shown with an error.
pub fn first_shown(lines: usize) -> (out: usize)
    ensures
        out == if lines <= SHOWN {
            0
        } else {
            lines - SHOWN
        },
{
    if lines <= SHOWN {
        0
    } else {
        lines - SHOWN
    }
}

// ---- the list of captions ----

impl Mode {
    /// What it's called, and where it breaks.
    pub fn about(self) -> (out: (&'static str, &'static str))
        ensures
            (out.0@, out.1@) == match self {
                Mode::Phrases => (
                    "Phrases"@,
                    "Break at commas and sentence ends, and at the limits below"@,
                ),
                Mode::Sentences => ("Sentences"@, "Break at sentence ends, and at the limits below"@),
                Mode::Words => ("By count"@, "Break only at the limits below"@),
                Mode::Single => ("One word"@, "One word at a time"@),
            },
    {
        match self {
            Mode::Phrases => (
                "Phrases",
                "Break at commas and sentence ends, and at the limits below",
            ),
            Mode::Sentences => ("Sentences", "Break at sentence ends, and at the limits below"),
            Mode::Words => ("By count", "Break only at the limits below"),
            Mode::Single => ("One word", "One word at a time"),
        }
    }
}

/// What the captions were made from.
pub fn made_from(words: usize, language: &str) -> (out: String)
    ensures
        out@ == "from "@ + decimal(words as nat) + " words"@ + if language@.len() == 0 {
            Seq::empty()
        } else {
            " · "@ + language@
        },
{
    let head = join3("from ", number(words as u64).as_str(), " words");
    if language.unicode_len() == 0 {
        assert(head@ =~= head@ + Seq::empty());
        head
    } else {
        let out = join3(head.as_str(), " · ", language);
        assert(out@ =~= head@ + (" · "@ + language@));
        out
    }
}

/// How to color captions, with `ticked` of them ticked.
pub fn color_hint(ticked: usize) -> (out: String)
    ensures
        out@ == if ticked == 0 {
            "Tick captions, then pick their color:"@
        } else {
            "Color the "@ + decimal(ticked as nat) + " ticked:"@
        },
{
    if ticked == 0 {
        "Tick captions, then pick their color:".to_owned()
    } else {
        join3("Color the ", number(ticked as u64).as_str(), " ticked:")
    }
}

/// The button that adds them, and what's said once they're added.
pub fn add_texts(lines: usize) -> (out: (String, String))
    ensures
        out.0@ == "Add "@ + decimal(lines as nat) + " captions to the timeline"@,
        out.1@ == "Added "@ + decimal(lines as nat) + " captions on a new Captions track."@,
{
    let n = number(lines as u64);
    (
        join3("Add ", n.as_str(), " captions to the timeline"),
        join3("Added ", n.as_str(), " captions on a new Captions track."),
    )
}

} // verus!
