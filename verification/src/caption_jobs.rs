//! What the caption engine's jobs report, and what follows from it.
use crate::captions::{CaptionsUi, HistoryModel, Manual, Share, Span, Transcript, Word, Work};
use crate::doc::{Time, TimeRange};
use crate::seqs::views;
use crate::text::same;
use std::collections::{BTreeMap, BTreeSet};
use vstd::prelude::*;

verus! {

/// How many lines of a job's log are kept.
pub const LOG: usize = 200;

/// What mixing the sound down has come to.
pub enum RenderMsg {
    Pending,
    Done { path: String, length: Time },
    Failed(String),
    /// It stopped without saying anything.
    Stopped,
}

/// Something a job says.
pub enum JobMsg {
    Step { index: usize, label: String },
    Log(String),
    Progress(Share),
    /// Words heard up to a moment of the sound.
    Heard(Time),
}

/// The log with one more line, the oldest dropped where there are too many.
pub open spec fn with_line(log: Seq<Seq<char>>, line: Seq<char>) -> Seq<Seq<char>> {
    if log.len() + 1 > LOG {
        log.push(line).drop_first()
    } else {
        log.push(line)
    }
}

/// How far into the sound `end` is.
pub open spec fn share_of(end: Time, length: Time) -> Share {
    Share {
        done: if end.0 < 0 {
            0
        } else if end.0 > length.0 {
            length.0
        } else {
            end.0
        },
        of: length.0,
    }
}

impl CaptionsUi {
    /// The captions and their history are as in `was`.
    pub open spec fn same_captions(&self, was: CaptionsUi) -> bool {
        &&& self.transcript == was.transcript
        &&& self.edits == was.edits
        &&& self.manual == was.manual
        &&& self.cursor == was.cursor
        &&& self.times == was.times
        &&& self.removed == was.removed
        &&& self.picked == was.picked
        &&& self.focus == was.focus
        &&& self.undo == was.undo
        &&& self.redo == was.redo
        &&& self.committed == was.committed
        &&& self.typing == was.typing
        &&& self.last_change == was.last_change
        &&& self.whole_timeline == was.whole_timeline
        &&& self.offset == was.offset
    }

    /// The job and what it has said are as in `was`.
    pub open spec fn same_job(&self, was: CaptionsUi) -> bool {
        &&& self.job == was.job
        &&& self.step == was.step
        &&& self.step_index == was.step_index
        &&& self.progress == was.progress
        &&& self.log == was.log
        &&& self.audio == was.audio
        &&& self.length == was.length
    }

    /// A job starts.
    pub fn start(&mut self, work: Work)
        ensures
            final(self).job == Some(work),
            final(self).error is None,
            final(self).log@.len() == 0,
            final(self).progress is None,
            final(self).step@.len() == 0,
            final(self).step_index == 0,
            final(self).rendering == old(self).rendering,
            final(self).audio == old(self).audio,
            final(self).length == old(self).length,
            final(self).same_captions(*old(self)),
    {
        self.error = None;
        self.log = Vec::new();
        self.progress = None;
        self.step = String::new();
        self.step_index = 0;
        self.job = Some(work);
    }

    /// Takes in what mixing the sound down has come to. Once it's done, listening starts:
    /// the sound to transcribe.
    pub fn rendered(&mut self, msg: RenderMsg) -> (out: Option<String>)
        requires
            old(self).rendering,
        ensures
            final(self).same_captions(*old(self)),
            match msg {
                RenderMsg::Pending => {
                    &&& out is None
                    &&& *final(self) == *old(self)
                },
                RenderMsg::Done { path, length } => {
                    &&& (out matches Some(p) && p@ == path@)
                    &&& !final(self).rendering
                    &&& final(self).length == length
                    &&& (final(self).audio matches Some(a) && a@ == path@)
                    &&& final(self).job == Some(Work::Listen)
                    &&& final(self).error is None
                    &&& final(self).log@.len() == 0
                    &&& final(self).progress is None
                    &&& final(self).step@.len() == 0
                    &&& final(self).step_index == 0
                },
                RenderMsg::Failed(e) => {
                    &&& out is None
                    &&& !final(self).rendering
                    &&& (final(self).error matches Some(x) && x@ == e@)
                    &&& final(self).same_job(*old(self))
                },
                RenderMsg::Stopped => {
                    &&& out is None
                    &&& !final(self).rendering
                    &&& (final(self).error matches Some(x) && x@
                        == "mixing the sound down stopped unexpectedly"@)
                    &&& final(self).same_job(*old(self))
                },
            },
    {
        match msg {
            RenderMsg::Pending => None,
            RenderMsg::Done { path, length } => {
                self.rendering = false;
                self.length = length;
                self.audio = Some(path.clone());
                self.start(Work::Listen);
                Some(path)
            },
            RenderMsg::Failed(e) => {
                self.rendering = false;
                self.error = Some(e);
                None
            },
            RenderMsg::Stopped => {
                self.rendering = false;
                self.error = Some("mixing the sound down stopped unexpectedly".to_owned());
                None
            },
        }
    }

    /// Takes in something the running job says.
    pub fn heard(&mut self, msg: JobMsg)
        ensures
            final(self).same_captions(*old(self)),
            final(self).job == old(self).job,
            final(self).rendering == old(self).rendering,
            final(self).error == old(self).error,
            final(self).audio == old(self).audio,
            final(self).length == old(self).length,
            match msg {
                JobMsg::Step { index, label } => {
                    &&& final(self).step_index == index
                    &&& final(self).step@ == label@
                    &&& final(self).progress is None
                    &&& final(self).log == old(self).log
                },
                JobMsg::Log(line) => {
                    &&& views(final(self).log@) == with_line(views(old(self).log@), line@)
                    &&& final(self).progress == old(self).progress
                    &&& final(self).step == old(self).step
                    &&& final(self).step_index == old(self).step_index
                },
                JobMsg::Progress(p) => {
                    &&& final(self).progress == Some(p)
                    &&& final(self).log == old(self).log
                    &&& final(self).step == old(self).step
                    &&& final(self).step_index == old(self).step_index
                },
                JobMsg::Heard(end) => {
                    &&& final(self).progress == if old(self).length.0 > 0 {
                        Some(share_of(end, old(self).length))
                    } else {
                        old(self).progress
                    }
                    &&& final(self).log == old(self).log
                    &&& final(self).step == old(self).step
                    &&& final(self).step_index == old(self).step_index
                },
            },
    {
        match msg {
            JobMsg::Step { index, label } => {
                self.step_index = index;
                self.step = label;
                self.progress = None;
            },
            JobMsg::Log(line) => {
                let ghost had = self.log@;
                let ghost new = line@;
                self.log.push(line);
                assert(views(self.log@) =~= views(had).push(new));
                if self.log.len() > LOG {
                    let ghost full = self.log@;
                    let _ = self.log.remove(0);
                    assert(views(self.log@) =~= views(full).drop_first());
                }
            },
            JobMsg::Progress(p) => {
                self.progress = Some(p);
            },
            JobMsg::Heard(end) => {
                if self.length.0 > 0 {
                    let done: i64 = if end.0 < 0 {
                        0
                    } else if end.0 > self.length.0 {
                        self.length.0
                    } else {
                        end.0
                    };
                    self.progress = Some(Share { done, of: self.length.0 });
                }
            },
        }
    }

    /// The running job ended; `words` are what it heard, in `language`. A transcript starts
    /// the captions over. The mixed-down sound, which isn't needed any more.
    pub fn ended(&mut self, result: Result<(), String>, words: Vec<Word>, language: String) -> (out: Option<
        String,
    >)
        requires
            old(self).job is Some,
        ensures
            final(self).job is None,
            final(self).rendering == old(self).rendering,
            final(self).step == old(self).step,
            final(self).step_index == old(self).step_index,
            final(self).progress == old(self).progress,
            final(self).log == old(self).log,
            final(self).length == old(self).length,
            final(self).offset == old(self).offset,
            final(self).whole_timeline == old(self).whole_timeline,
            final(self).cursor == old(self).cursor,
            old(self).job != Some(Work::Listen) ==> out is None && final(self).audio == old(
                self).audio,
            old(self).job == Some(Work::Listen) ==> out == old(self).audio && final(
                self).audio is None,
            match result {
                Err(e) => {
                    &&& (final(self).error matches Some(x) && x@ == e@)
                    &&& final(self).same_captions(*old(self))
                },
                Ok(_) => if old(self).job != Some(Work::Listen) {
                    &&& final(self).error == old(self).error
                    &&& final(self).same_captions(*old(self))
                } else if words@.len() == 0 {
                    &&& (final(self).error matches Some(x) && x@
                        == "No speech was heard in that stretch."@)
                    &&& final(self).same_captions(*old(self))
                } else {
                    &&& final(self).error == old(self).error
                    &&& (final(self).transcript matches Some(t) && t.words@ == words@ && t.language@
                        == language@ && t.colors@ == Seq::new(
                        words@.len(),
                        |i: int| None::<u64>,
                    ))
                    &&& final(self).edits@ == Map::<usize, String>::empty()
                    &&& final(self).removed@ == Set::<usize>::empty()
                    &&& final(self).times@ == Map::<usize, Span>::empty()
                    &&& final(self).manual == Manual(0)
                    &&& final(self).picked@ == Set::<usize>::empty()
                    &&& final(self).focus == 0
                    &&& final(self).history() == (HistoryModel {
                        undo: Seq::empty(),
                        redo: Seq::empty(),
                        committed: None,
                        typing: None,
                        last_change: old(self).last_change,
                    })
                },
            },
    {
        let listening = matches!(self.job, Some(Work::Listen));
        self.job = None;
        let mut audio: Option<String> = None;
        if listening {
            audio = self.audio.take();
        }
        match result {
            Err(e) => {
                self.error = Some(e);
            },
            Ok(_) => {
                if listening {
                    if words.len() == 0 {
                        self.error = Some("No speech was heard in that stretch.".to_owned());
                    } else {
                        let mut colors: Vec<Option<u64>> = Vec::new();
                        let n: usize = words.len();
                        while colors.len() < n
                            invariant
                                colors@.len() <= n,
                                forall|k: int| 0 <= k < colors@.len() ==> (#[trigger] colors@[k]) is None,
                            decreases n - colors@.len(),
                        {
                            colors.push(None);
                        }
                        assert(colors@ =~= Seq::new(words@.len(), |i: int| None::<u64>));
                        self.transcript = Some(Transcript { words, colors, language });
                        self.edits = BTreeMap::new();
                        self.removed = BTreeSet::new();
                        self.times = BTreeMap::new();
                        self.manual = Manual(0);
                        self.picked = BTreeSet::new();
                        self.focus = 0;
                        self.forget_history();
                    }
                }
            },
        }
        audio
    }
}

/// The log never grows past what's kept of it.
pub proof fn the_log_is_bounded(log: Seq<Seq<char>>, line: Seq<char>)
    requires
        log.len() <= LOG,
    ensures
        with_line(log, line).len() <= LOG,
        with_line(log, line).last() == line,
{
}

// ---- what to listen to ----

/// Why there's nothing to listen to.
#[derive(Copy, Clone, Debug, PartialEq, Eq, Structural)]
pub enum ListenError {
    NoSound,
    Empty,
}

/// What to say of it.
pub fn listen_error(e: ListenError) -> (out: &'static str)
    ensures
        out@ == match e {
            ListenError::NoSound => "There's no sound on this timeline to listen to."@,
            ListenError::Empty => "That stretch is empty."@,
        },
{
    match e {
        ListenError::NoSound => "There's no sound on this timeline to listen to.",
        ListenError::Empty => "That stretch is empty.",
    }
}

/// The stretch the ranges lie in.
pub open spec fn hull(ranges: Seq<TimeRange>) -> (int, int)
    decreases ranges.len(),
{
    if ranges.len() <= 1 {
        (ranges[0].start.0 as int, ranges[0].ends())
    } else {
        let rest = hull(ranges.drop_last());
        let r = ranges.last();
        (
            if r.start.0 < rest.0 {
                r.start.0 as int
            } else {
                rest.0
            },
            if r.ends() > rest.1 {
                r.ends()
            } else {
                rest.1
            },
        )
    }
}

/// The stretch of the timeline to listen to: all of it, or that of the selected clips
/// (`whole`, or none selected: all of it).
pub fn listen_range(
    has_sound: bool,
    whole: bool,
    any_selected: bool,
    selected: &Vec<TimeRange>,
    duration: Time,
) -> (out: Result<(Time, Time), ListenError>)
    requires
        forall|k: int| 0 <= k < selected@.len() ==> (#[trigger] selected@[k]).fits(),
    ensures
        !has_sound ==> out == Err::<(Time, Time), ListenError>(ListenError::NoSound),
        has_sound && (whole || !any_selected) ==> out == if duration.0 > 0 {
            Ok::<(Time, Time), ListenError>((Time(0), duration))
        } else {
            Err(ListenError::Empty)
        },
        has_sound && !whole && any_selected && selected@.len() == 0 ==> out == Err::<
            (Time, Time),
            ListenError,
        >(ListenError::Empty),
        has_sound && !whole && any_selected && selected@.len() > 0 ==> ({
            let (from, to) = hull(selected@);
            if to > from {
                out matches Ok(r) && r.0.0 == from && r.1.0 == to
            } else {
                out == Err::<(Time, Time), ListenError>(ListenError::Empty)
            }
        }),
{
    if !has_sound {
        return Err(ListenError::NoSound);
    }
    let mut from = Time(0);
    let mut to = duration;
    if !whole && any_selected {
        if selected.len() == 0 {
            return Err(ListenError::Empty);
        }
        assert(selected@[0].fits());
        from = selected[0].start;
        to = selected[0].end();
        assert(selected@.take(1).len() == 1);
        let mut i: usize = 1;
        while i < selected.len()
            invariant
                forall|k: int| 0 <= k < selected@.len() ==> (#[trigger] selected@[k]).fits(),
                1 <= i <= selected@.len(),
                hull(selected@.take(i as int)) == (from.0 as int, to.0 as int),
            decreases selected@.len() - i,
        {
            assert(selected@[i as int].fits());
            assert(selected@.take(i + 1).drop_last() =~= selected@.take(i as int));
            assert(selected@.take(i + 1).last() == selected@[i as int]);
            from = from.least(selected[i].start);
            to = to.most(selected[i].end());
            i = i + 1;
        }
        assert(selected@.take(i as int) =~= selected@);
    }
    if to.0 > from.0 {
        Ok((from, to))
    } else {
        Err(ListenError::Empty)
    }
}

/// A language's name, for the codes offered ("" is to detect it); others are shown as they
/// are.
pub fn language_name(code: &str) -> (out: String)
    ensures
        out@ == known_language(code@),
{
    if same(code, "") {
        "Detect it".to_owned()
    } else if same(code, "en") {
        "English".to_owned()
    } else if same(code, "es") {
        "Spanish".to_owned()
    } else if same(code, "fr") {
        "French".to_owned()
    } else if same(code, "de") {
        "German".to_owned()
    } else if same(code, "it") {
        "Italian".to_owned()
    } else if same(code, "pt") {
        "Portuguese".to_owned()
    } else if same(code, "nl") {
        "Dutch".to_owned()
    } else if same(code, "pl") {
        "Polish".to_owned()
    } else if same(code, "tr") {
        "Turkish".to_owned()
    } else if same(code, "ru") {
        "Russian".to_owned()
    } else if same(code, "uk") {
        "Ukrainian".to_owned()
    } else if same(code, "ar") {
        "Arabic".to_owned()
    } else if same(code, "hi") {
        "Hindi".to_owned()
    } else if same(code, "ja") {
        "Japanese".to_owned()
    } else if same(code, "ko") {
        "Korean".to_owned()
    } else if same(code, "zh") {
        "Chinese".to_owned()
    } else if same(code, "sv") {
        "Swedish".to_owned()
    } else {
        code.to_owned()
    }
}

/// The languages offered.
pub open spec fn known_language(code: Seq<char>) -> Seq<char> {
    if code == ""@ {
        "Detect it"@
    } else if code == "en"@ {
        "English"@
    } else if code == "es"@ {
        "Spanish"@
    } else if code == "fr"@ {
        "French"@
    } else if code == "de"@ {
        "German"@
    } else if code == "it"@ {
        "Italian"@
    } else if code == "pt"@ {
        "Portuguese"@
    } else if code == "nl"@ {
        "Dutch"@
    } else if code == "pl"@ {
        "Polish"@
    } else if code == "tr"@ {
        "Turkish"@
    } else if code == "ru"@ {
        "Russian"@
    } else if code == "uk"@ {
        "Ukrainian"@
    } else if code == "ar"@ {
        "Arabic"@
    } else if code == "hi"@ {
        "Hindi"@
    } else if code == "ja"@ {
        "Japanese"@
    } else if code == "ko"@ {
        "Korean"@
    } else if code == "zh"@ {
        "Chinese"@
    } else if code == "sv"@ {
        "Swedish"@
    } else {
        code
    }
}

} // verus!
