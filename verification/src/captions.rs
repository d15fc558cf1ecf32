//! The Captions window: the captions made from a transcript, the changes made to them by
//! hand, and the window's own undo and redo.
use crate::doc::Time;
use crate::seqs::views;
use crate::text::same;
use crate::words::{keeps_no_more, same_words, words_of};
use std::collections::{BTreeMap, BTreeSet};
use vstd::prelude::*;

verus! {

/// Which splits and joins were made by hand, by number (0: none).
#[derive(Copy, Clone, Debug, PartialEq, Eq, Structural)]
pub struct Manual(pub u64);

impl Default for Manual {
    fn default() -> (out: Manual)
        ensures
            out == Manual(0),
    {
        Manual(0)
    }
}

/// Where captions break.
#[derive(Copy, Clone, Debug, PartialEq, Eq, Structural)]
pub enum Mode {
    /// At commas and sentence ends, and at the limits.
    Phrases,
    /// At sentence ends, and at the limits.
    Sentences,
    /// Only at the limits.
    Words,
    /// One word at a time.
    Single,
}

/// How words are grouped into captions.
#[derive(Copy, Clone, Debug, PartialEq, Eq, Structural)]
pub struct Grouping {
    pub mode: Mode,
    pub max_words: u32,
    pub max_length: Time,
    /// A pause this long ends a caption.
    pub pause: Time,
    pub shortest: Time,
    pub uppercase: bool,
    pub strip_punctuation: bool,
}

/// The window's choices, kept for next time.
pub struct CaptionPrefs {
    pub model: String,
    pub language: String,
    pub enhance_voice: bool,
    pub grouping: Grouping,
    /// The look, by number (`None`: the default one).
    pub style: Option<u64>,
}

#[verifier::ext_equal]
pub struct PrefsModel {
    pub model: Seq<char>,
    pub language: Seq<char>,
    pub enhance_voice: bool,
    pub grouping: Grouping,
    pub style: Option<u64>,
}

impl View for CaptionPrefs {
    type V = PrefsModel;

    open spec fn view(&self) -> PrefsModel {
        PrefsModel {
            model: self.model@,
            language: self.language@,
            enhance_voice: self.enhance_voice,
            grouping: self.grouping,
            style: self.style,
        }
    }
}

impl CaptionPrefs {
    pub fn copy(&self) -> (out: CaptionPrefs)
        ensures
            out@ == self@,
    {
        CaptionPrefs {
            model: self.model.clone(),
            language: self.language.clone(),
            enhance_voice: self.enhance_voice,
            grouping: self.grouping,
            style: self.style,
        }
    }

    fn same_as(&self, other: &CaptionPrefs) -> (out: bool)
        ensures
            out == (self@ == other@),
    {
        let style = match (self.style, other.style) {
            (Some(a), Some(b)) => a == b,
            (None, None) => true,
            _ => false,
        };
        style && self.enhance_voice == other.enhance_voice && self.grouping == other.grouping
            && same(self.model.as_str(), other.model.as_str()) && same(
            self.language.as_str(),
            other.language.as_str(),
        )
    }
}

/// When a caption shows, from the start of what was listened to.
#[derive(Copy, Clone, Debug, PartialEq, Eq, Structural)]
pub struct Span {
    pub start: Time,
    pub end: Time,
}

/// What one undo step puts back: the hand-made changes to the captions (text, splits,
/// joins, removals, times, colors) and the window's choices (grouping, style).
pub struct Snapshot {
    /// Captions retyped by hand, by their first word.
    pub edits: BTreeMap<usize, String>,
    /// Words of lines taken out.
    pub removed: BTreeSet<usize>,
    /// Times set by hand, by the caption's first word.
    pub times: BTreeMap<usize, Span>,
    pub manual: Manual,
    /// A color for each word, by number.
    pub colors: Vec<Option<u64>>,
    pub prefs: CaptionPrefs,
}

#[verifier::ext_equal]
pub struct SnapshotModel {
    pub edits: Map<usize, Seq<char>>,
    pub removed: Set<usize>,
    pub times: Map<usize, Span>,
    pub manual: Manual,
    pub colors: Seq<Option<u64>>,
    pub prefs: PrefsModel,
}

/// What's been typed, by word.
pub open spec fn typed(edits: Map<usize, String>) -> Map<usize, Seq<char>> {
    edits.map_values(|text: String| text@)
}

impl View for Snapshot {
    type V = SnapshotModel;

    open spec fn view(&self) -> SnapshotModel {
        SnapshotModel {
            edits: typed(self.edits@),
            removed: self.removed@,
            times: self.times@,
            manual: self.manual,
            colors: self.colors@,
            prefs: self.prefs@,
        }
    }
}

/// A copy of the colors.
pub fn copy_colors(colors: &Vec<Option<u64>>) -> (out: Vec<Option<u64>>)
    ensures
        out@ == colors@,
{
    let mut out: Vec<Option<u64>> = Vec::new();
    let mut i: usize = 0;
    while i < colors.len()
        invariant
            i <= colors@.len(),
            out@ == colors@.take(i as int),
        decreases colors@.len() - i,
    {
        out.push(colors[i]);
        i = i + 1;
        assert(out@ =~= colors@.take(i as int));
    }
    assert(out@ =~= colors@);
    out
}

/// Whether the same is typed for the words of the one.
fn same_edits_of(words: &Vec<usize>, a: &BTreeMap<usize, String>, b: &BTreeMap<usize, String>) -> (out: bool)
    ensures
        out == forall|k: int|
            0 <= k < words@.len() ==> typed(a@).get(#[trigger] words@[k]) == typed(b@).get(
                words@[k],
            ),
{
    let mut i: usize = 0;
    while i < words.len()
        invariant
            i <= words@.len(),
            forall|k: int|
                0 <= k < i ==> typed(a@).get(#[trigger] words@[k]) == typed(b@).get(words@[k]),
        decreases words@.len() - i,
    {
        let one = match (a.get(&words[i]), b.get(&words[i])) {
            (Some(x), Some(y)) => same(x.as_str(), y.as_str()),
            (None, None) => true,
            _ => false,
        };
        if !one {
            assert(typed(a@).get(words@[i as int]) != typed(b@).get(words@[i as int]));
            return false;
        }
        i = i + 1;
    }
    true
}

fn same_edits(a: &BTreeMap<usize, String>, b: &BTreeMap<usize, String>) -> (out: bool)
    ensures
        out == (typed(a@) == typed(b@)),
{
    let words = words_of(a);
    let out = same_edits_of(&words, a, b) && keeps_no_more(b, a);
    proof {
        if out {
            assert forall|w: usize| typed(a@).get(w) == typed(b@).get(w) by {
                if a@.dom().contains(w) {
                    assert(words@.to_set().contains(w));
                    let k = choose|k: int| 0 <= k < words@.len() && words@[k] == w;
                    assert(words@[k] == w);
                }
            }
            assert forall|w: usize| typed(a@).dom().contains(w) implies #[trigger] typed(a@)[w]
                == typed(b@)[w] by {
                assert(typed(a@).get(w) == typed(b@).get(w));
            }
            assert(typed(a@).dom() =~= typed(b@).dom()) by {
                assert forall|w: usize| typed(a@).dom().contains(w) == typed(b@).dom().contains(
                    w,
                ) by {
                    assert(typed(a@).get(w) == typed(b@).get(w));
                }
            }
            assert(typed(a@) =~= typed(b@));
        } else if typed(a@) == typed(b@) {
            assert(a@.dom() == typed(a@).dom());
            assert(b@.dom() == typed(b@).dom());
        }
    }
    out
}

fn same_times(a: &BTreeMap<usize, Span>, b: &BTreeMap<usize, Span>) -> (out: bool)
    ensures
        out == (a@ == b@),
{
    if !keeps_no_more(b, a) {
        return false;
    }
    let words = words_of(a);
    let mut i: usize = 0;
    while i < words.len()
        invariant
            i <= words@.len(),
            forall|k: int| 0 <= k < i ==> a@.get(#[trigger] words@[k]) == b@.get(words@[k]),
        decreases words@.len() - i,
    {
        let one = match (a.get(&words[i]), b.get(&words[i])) {
            (Some(x), Some(y)) => *x == *y,
            (None, None) => true,
            _ => false,
        };
        if !one {
            assert(a@.get(words@[i as int]) != b@.get(words@[i as int]));
            return false;
        }
        i = i + 1;
    }
    proof {
        assert forall|w: usize| #[trigger] a@.dom().contains(w) implies b@.dom().contains(w) && a@[w]
            == b@[w] by {
            assert(words@.to_set().contains(w));
            let k = choose|k: int| 0 <= k < words@.len() && words@[k] == w;
            assert(a@.get(words@[k]) == b@.get(words@[k]));
        }
        assert(a@ =~= b@);
    }
    true
}

fn same_colors(a: &Vec<Option<u64>>, b: &Vec<Option<u64>>) -> (out: bool)
    ensures
        out == (a@ == b@),
{
    if a.len() != b.len() {
        return false;
    }
    let mut i: usize = 0;
    while i < a.len()
        invariant
            a@.len() == b@.len(),
            i <= a@.len(),
            forall|k: int| 0 <= k < i ==> (#[trigger] a@[k]) == b@[k],
        decreases a@.len() - i,
    {
        let one = match (a[i], b[i]) {
            (Some(x), Some(y)) => x == y,
            (None, None) => true,
            _ => false,
        };
        if !one {
            assert(a@[i as int] != b@[i as int]);
            return false;
        }
        i = i + 1;
    }
    assert(a@ =~= b@);
    true
}

/// What's typed differs between the two, for the word.
pub open spec fn differs(a: SnapshotModel, b: SnapshotModel, word: usize) -> bool {
    a.edits.get(word) != b.edits.get(word)
}

/// Nothing but text changed.
pub open spec fn only_text(a: SnapshotModel, b: SnapshotModel) -> bool {
    a.manual == b.manual && a.removed == b.removed && a.times == b.times && a.colors == b.colors
        && a.prefs == b.prefs
}

/// The one caption typed into between the two, if that's all that happened.
pub open spec fn typed_into(a: SnapshotModel, b: SnapshotModel) -> Option<usize> {
    if only_text(a, b) && exists|w: usize| one_change(a, b, w) {
        Some(choose|w: usize| one_change(a, b, w))
    } else {
        None
    }
}

/// `w` is the one caption whose text differs.
pub open spec fn one_change(a: SnapshotModel, b: SnapshotModel, w: usize) -> bool {
    differs(a, b, w) && forall|v: usize| #[trigger] differs(a, b, v) ==> v == w
}

impl Snapshot {
    pub fn copy(&self) -> (out: Snapshot)
        ensures
            out@ == self@,
    {
        Snapshot {
            edits: self.edits.clone(),
            removed: self.removed.clone(),
            times: self.times.clone(),
            manual: self.manual,
            colors: copy_colors(&self.colors),
            prefs: self.prefs.copy(),
        }
    }

    fn same_but_text(&self, other: &Snapshot) -> (out: bool)
        ensures
            out == only_text(self@, other@),
    {
        self.manual == other.manual && same_words(&self.removed, &other.removed) && same_times(
            &self.times,
            &other.times,
        ) && same_colors(&self.colors, &other.colors) && self.prefs.same_as(&other.prefs)
    }

    fn same_as(&self, other: &Snapshot) -> (out: bool)
        ensures
            out == (self@ == other@),
    {
        self.same_but_text(other) && same_edits(&self.edits, &other.edits)
    }

    fn word_differs(&self, other: &Snapshot, word: usize) -> (out: bool)
        ensures
            out == differs(self@, other@, word),
    {
        match (self.edits.get(&word), other.edits.get(&word)) {
            (Some(a), Some(b)) => !same(a.as_str(), b.as_str()),
            (None, None) => false,
            _ => true,
        }
    }

    /// Looks through the words for changes between `self` and `other`: the
    /// first word that changed (`found` already, or found here), or that several did.
    fn changed_in(
        &self,
        other: &Snapshot,
        words: &Vec<usize>,
        found: Option<usize>,
        several: bool,
    ) -> (out: (Option<usize>, bool))
        requires
            found matches Some(w) ==> differs(self@, other@, w),
            several ==> exists|a: usize, b: usize|
                a != b && #[trigger] differs(self@, other@, a) && #[trigger] differs(
                    self@,
                    other@,
                    b,
                ),
        ensures
            out.0 matches Some(w) ==> differs(self@, other@, w),
            found is Some ==> out.0 == found,
            out.1 ==> exists|a: usize, b: usize|
                a != b && #[trigger] differs(self@, other@, a) && #[trigger] differs(
                    self@,
                    other@,
                    b,
                ),
            several ==> out.1,
            forall|k: int|
                0 <= k < words@.len() && differs(self@, other@, (#[trigger] words@[k]))
                    ==> out.1 || out.0 == Some(words@[k]),
    {
        let mut found = found;
        let mut several = several;
        let ghost first = found;
        let ghost many = several;
        let mut i: usize = 0;
        while i < words.len()
            invariant
                found matches Some(w) ==> differs(self@, other@, w),
                first is Some ==> found == first,
                many ==> several,
                several ==> exists|a: usize, b: usize|
                    a != b && #[trigger] differs(self@, other@, a) && #[trigger] differs(
                        self@,
                        other@,
                        b,
                    ),
                i <= words@.len(),
                forall|k: int|
                    0 <= k < i && differs(self@, other@, (#[trigger] words@[k])) ==> several
                        || found == Some(words@[k]),
            decreases words@.len() - i,
        {
            let word: usize = words[i];
            if self.word_differs(other, word) {
                match found {
                    None => {
                        found = Some(word);
                    },
                    Some(w) => {
                        if w != word {
                            several = true;
                            assert(differs(self@, other@, w) && differs(self@, other@, word));
                        }
                    },
                }
            }
            i = i + 1;
        }
        (found, several)
    }

    /// The one caption typed into between the two, if that's all that happened.
    fn typed_between(&self, other: &Snapshot) -> (out: Option<usize>)
        ensures
            out == typed_into(self@, other@),
    {
        if !self.same_but_text(other) {
            return None;
        }
        let mine = words_of(&self.edits);
        let theirs = words_of(&other.edits);
        let (found, several) = self.changed_in(other, &mine, None, false);
        let (found, several) = self.changed_in(other, &theirs, found, several);
        proof {
            let (a, b) = (self@, other@);
            assert forall|v: usize| #[trigger] differs(a, b, v) && !several implies found == Some(
                v,
            ) by {
                if self.edits@.dom().contains(v) {
                    assert(mine@.to_set().contains(v));
                    let i = choose|i: int| 0 <= i < mine@.len() && mine@[i] == v;
                    assert(differs(a, b, mine@[i]));
                } else {
                    assert(other.edits@.dom().contains(v));
                    assert(theirs@.to_set().contains(v));
                    let i = choose|i: int| 0 <= i < theirs@.len() && theirs@[i] == v;
                    assert(differs(a, b, theirs@[i]));
                }
            }
            if several {
                assert(!(exists|w: usize| one_change(a, b, w))) by {
                    let (x, y) = choose|x: usize, y: usize|
                        x != y && #[trigger] differs(a, b, x) && #[trigger] differs(a, b, y);
                    if exists|w: usize| one_change(a, b, w) {
                        let w = choose|w: usize| one_change(a, b, w);
                        assert(x == w && y == w);
                    }
                }
            } else if found is Some {
                assert(one_change(a, b, found->0));
                let w = choose|w: usize| one_change(a, b, w);
                assert(w == found->0) by {
                    assert(differs(a, b, w));
                }
            } else {
                assert(!(exists|w: usize| one_change(a, b, w)));
            }
        }
        if several {
            None
        } else {
            found
        }
    }
}

// ---- undo and redo ----

/// How many steps are kept.
pub const STEPS: usize = 200;

/// How long a pause ends a run of typing, in microseconds.
pub const PAUSE: u64 = 2_000_000;

/// The window's history.
#[verifier::ext_equal]
pub struct HistoryModel {
    pub undo: Seq<SnapshotModel>,
    pub redo: Seq<SnapshotModel>,
    pub committed: Option<SnapshotModel>,
    /// The caption last typed into, and when.
    pub typing: Option<usize>,
    pub last_change: u64,
}

/// One more step to undo, the oldest dropped where there are too many.
pub open spec fn with_step(undo: Seq<SnapshotModel>, step: SnapshotModel) -> Seq<SnapshotModel> {
    if undo.len() + 1 > STEPS {
        undo.push(step).drop_first()
    } else {
        undo.push(step)
    }
}

/// The change goes on the run of typing before it.
pub open spec fn same_run(h: HistoryModel, before: SnapshotModel, current: SnapshotModel, now: u64) -> bool {
    typed_into(before, current) is Some && typed_into(before, current) == h.typing && now
        - h.last_change < PAUSE
}

/// The history once the window has been drawn: anything changed since the last step becomes
/// a new one. Nothing is taken mid-drag, and typing into one caption is one step until
/// something else changes or there's a pause.
pub open spec fn recorded(h: HistoryModel, current: SnapshotModel, now: u64, dragging: bool) -> HistoryModel {
    match h.committed {
        None => HistoryModel { committed: Some(current), ..h },
        Some(before) => if before == current || dragging {
            h
        } else {
            HistoryModel {
                undo: if same_run(h, before, current, now) {
                    h.undo
                } else {
                    with_step(h.undo, before)
                },
                redo: Seq::empty(),
                committed: Some(current),
                typing: typed_into(before, current),
                last_change: now,
            }
        },
    }
}

/// A step back (or forward, `redo`): the history after it, and the state to restore.
pub open spec fn stepped(h: HistoryModel, redo: bool) -> Option<(HistoryModel, SnapshotModel)> {
    let from = if redo {
        h.redo
    } else {
        h.undo
    };
    if h.committed is None || from.len() == 0 {
        None
    } else {
        let target = from.last();
        let left = from.drop_last();
        Some(
            (
                HistoryModel {
                    undo: if redo {
                        h.undo.push(h.committed->0)
                    } else {
                        left
                    },
                    redo: if redo {
                        left
                    } else {
                        h.redo.push(h.committed->0)
                    },
                    committed: Some(target),
                    typing: None,
                    last_change: h.last_change,
                },
                target,
            ),
        )
    }
}

/// A word of a transcript, and when it's said.
pub struct Word {
    pub text: String,
    pub start: Time,
    pub end: Time,
}

/// A transcript, with a color for each word (so colors survive regrouping).
pub struct Transcript {
    pub words: Vec<Word>,
    pub colors: Vec<Option<u64>>,
    pub language: String,
}

/// What a running job is doing.
#[derive(Copy, Clone, Debug, PartialEq, Eq, Structural)]
pub enum Work {
    Install,
    Model,
    Listen,
}

/// How far along something is: this much of that much.
#[derive(Copy, Clone, Debug, PartialEq, Eq, Structural)]
pub struct Share {
    pub done: i64,
    pub of: i64,
}

/// The Captions window.
pub struct CaptionsUi {
    /// What's being done, if anything is.
    pub job: Option<Work>,
    /// The timeline's sound is being mixed down.
    pub rendering: bool,
    pub step: String,
    pub step_index: usize,
    pub progress: Option<Share>,
    pub log: Vec<String>,
    pub error: Option<String>,
    pub whole_timeline: bool,
    /// The mixed-down sound, and its length.
    pub audio: Option<String>,
    pub length: Time,
    /// Where the sound starts on the timeline.
    pub offset: Time,
    pub transcript: Option<Transcript>,
    pub edits: BTreeMap<usize, String>,
    pub manual: Manual,
    /// The caption whose text box has the cursor, and where it is (in characters).
    pub cursor: Option<(usize, usize)>,
    pub times: BTreeMap<usize, Span>,
    pub removed: BTreeSet<usize>,
    /// Captions ticked for coloring.
    pub picked: BTreeSet<usize>,
    /// The caption the preview shows.
    pub focus: usize,
    pub undo: Vec<Snapshot>,
    pub redo: Vec<Snapshot>,
    pub committed: Option<Snapshot>,
    pub typing: Option<usize>,
    pub last_change: u64,
}

impl CaptionsUi {
    pub open spec fn history(&self) -> HistoryModel {
        HistoryModel {
            undo: views(self.undo@),
            redo: views(self.redo@),
            committed: match self.committed {
                Some(s) => Some(s@),
                None => None,
            },
            typing: self.typing,
            last_change: self.last_change,
        }
    }

    /// The colors of the transcript's words.
    pub open spec fn colors(&self) -> Seq<Option<u64>> {
        match self.transcript {
            Some(t) => t.colors@,
            None => Seq::empty(),
        }
    }

    /// What an undo step would put back, as things are now.
    pub open spec fn state(&self, prefs: PrefsModel) -> SnapshotModel {
        SnapshotModel {
            edits: typed(self.edits@),
            removed: self.removed@,
            times: self.times@,
            manual: self.manual,
            colors: self.colors(),
            prefs,
        }
    }

    pub fn new(whole_timeline: bool) -> (out: CaptionsUi)
        ensures
            out.whole_timeline == whole_timeline,
            out.history() == (HistoryModel {
                undo: Seq::empty(),
                redo: Seq::empty(),
                committed: None,
                typing: None,
                last_change: 0,
            }),
            forall|p: PrefsModel|
                out.state(p) == (SnapshotModel {
                    edits: Map::empty(),
                    removed: Set::empty(),
                    times: Map::empty(),
                    manual: Manual(0),
                    colors: Seq::empty(),
                    prefs: p,
                }),
            out.job is None,
            !out.rendering,
            out.transcript is None,
            out.error is None,
            out.cursor is None,
            out.picked@ == Set::<usize>::empty(),
            out.focus == 0,
            out.step@.len() == 0,
            out.step_index == 0,
            out.progress is None,
            out.log@.len() == 0,
            out.audio is None,
            out.length == Time(0),
            out.offset == Time(0),
    {
        let out = CaptionsUi {
            job: None,
            rendering: false,
            step: String::new(),
            step_index: 0,
            progress: None,
            log: Vec::new(),
            error: None,
            whole_timeline,
            audio: None,
            length: Time(0),
            offset: Time(0),
            transcript: None,
            edits: BTreeMap::new(),
            manual: Manual(0),
            cursor: None,
            times: BTreeMap::new(),
            removed: BTreeSet::new(),
            picked: BTreeSet::new(),
            focus: 0,
            undo: Vec::new(),
            redo: Vec::new(),
            committed: None,
            typing: None,
            last_change: 0,
        };
        proof {
            assert(views(out.undo@) =~= Seq::<SnapshotModel>::empty());
            assert(views(out.redo@) =~= Seq::<SnapshotModel>::empty());
            assert(typed(out.edits@) =~= Map::<usize, Seq<char>>::empty());
        }
        out
    }

    pub fn busy(&self) -> (out: bool)
        ensures
            out == (self.job is Some || self.rendering),
    {
        self.job.is_some() || self.rendering
    }

    pub fn snapshot(&self, prefs: &CaptionPrefs) -> (out: Snapshot)
        ensures
            out@ == self.state(prefs@),
    {
        let colors = match &self.transcript {
            Some(t) => copy_colors(&t.colors),
            None => Vec::new(),
        };
        assert(colors@ =~= self.colors());
        Snapshot {
            edits: self.edits.clone(),
            removed: self.removed.clone(),
            times: self.times.clone(),
            manual: self.manual,
            colors,
            prefs: prefs.copy(),
        }
    }

    /// Everything but the history is as in `was`.
    pub open spec fn same_but_history(&self, was: CaptionsUi) -> bool {
        &&& self.job == was.job
        &&& self.rendering == was.rendering
        &&& self.step == was.step
        &&& self.step_index == was.step_index
        &&& self.progress == was.progress
        &&& self.log == was.log
        &&& self.error == was.error
        &&& self.whole_timeline == was.whole_timeline
        &&& self.audio == was.audio
        &&& self.length == was.length
        &&& self.offset == was.offset
        &&& self.transcript == was.transcript
        &&& self.edits == was.edits
        &&& self.manual == was.manual
        &&& self.cursor == was.cursor
        &&& self.times == was.times
        &&& self.removed == was.removed
        &&& self.picked == was.picked
        &&& self.focus == was.focus
    }

    /// Everything but the captions' own state and the history is as in `was`.
    pub open spec fn same_but_captions(&self, was: CaptionsUi) -> bool {
        &&& self.job == was.job
        &&& self.rendering == was.rendering
        &&& self.step == was.step
        &&& self.step_index == was.step_index
        &&& self.progress == was.progress
        &&& self.log == was.log
        &&& self.error == was.error
        &&& self.whole_timeline == was.whole_timeline
        &&& self.audio == was.audio
        &&& self.length == was.length
        &&& self.offset == was.offset
        &&& (match (self.transcript, was.transcript) {
            (Some(a), Some(b)) => a.words == b.words && a.language == b.language,
            (None, None) => true,
            _ => false,
        })
    }

    /// Starts the history over (a new transcript: the old steps don't apply to it).
    pub fn forget_history(&mut self)
        ensures
            final(self).same_but_history(*old(self)),
            final(self).history() == (HistoryModel {
                undo: Seq::empty(),
                redo: Seq::empty(),
                committed: None,
                typing: None,
                last_change: old(self).last_change,
            }),
    {
        self.undo = Vec::new();
        self.redo = Vec::new();
        self.committed = None;
        self.typing = None;
        proof {
            assert(views(self.undo@) =~= Seq::<SnapshotModel>::empty());
            assert(views(self.redo@) =~= Seq::<SnapshotModel>::empty());
        }
    }

    /// Called once a frame, after the window is drawn: anything changed since the last
    /// step becomes a new one. Nothing is taken mid-drag (a slider makes one step when
    /// let go), and typing into one caption is one step until something else changes or
    /// there's a pause.
    pub fn record(&mut self, prefs: &CaptionPrefs, now: u64, dragging: bool)
        ensures
            final(self).same_but_history(*old(self)),
            final(self).history() == recorded(
                old(self).history(),
                old(self).state(prefs@),
                now,
                dragging,
            ),
    {
        let current = self.snapshot(prefs);
        let ghost h = self.history();
        let committed = self.committed.take();
        match committed {
            None => {
                self.committed = Some(current);
            },
            Some(before) => {
                if before.same_as(&current) || dragging {
                    self.committed = Some(before);
                    return;
                }
                let into = before.typed_between(&current);
                let run = match (into, self.typing) {
                    (Some(a), Some(b)) => a == b && (now < self.last_change || now
                        - self.last_change < PAUSE),
                    _ => false,
                };
                let ghost b = before@;
                if !run {
                    let ghost had = self.undo@;
                    self.undo.push(before);
                    assert(views(self.undo@) =~= views(had).push(b));
                    if self.undo.len() > STEPS {
                        let ghost full = self.undo@;
                        let _ = self.undo.remove(0);
                        assert(views(self.undo@) =~= views(full).drop_first());
                    }
                }
                self.redo = Vec::new();
                assert(views(self.redo@) =~= Seq::<SnapshotModel>::empty());
                self.typing = into;
                self.last_change = now;
                self.committed = Some(current);
            },
        }
    }

    /// Steps back (or forward, `redo`); returns the state to restore, the window's
    /// choices included.
    pub fn step_history(&mut self, redo: bool) -> (out: Option<Snapshot>)
        ensures
            match stepped(old(self).history(), redo) {
                None => out is None && final(self).history() == old(self).history() && final(self).same_but_history(*old(self)),
                Some((h, target)) => out matches Some(s) && s@ == target
                    && final(self).history() == h && typed(final(self).edits@) == target.edits
                    && final(self).removed@ == target.removed && final(self).times@ == target.times
                    && final(self).manual == target.manual && final(self).same_but_captions(
                    *old(self),
                ) && final(self).picked == old(self).picked && final(self).focus == old(self).focus && final(self).cursor is None && final(self).colors() == (if old(self).colors().len() == target.colors.len() {
                    target.colors
                } else {
                    old(self).colors()
                }),
            },
    {
        if self.committed.is_none() {
            return None;
        }
        let ghost h = self.history();
        let popped = if redo {
            self.redo.pop()
        } else {
            self.undo.pop()
        };
        match popped {
            None => {
                assert(self.history() =~= h);
                None
            },
            Some(target) => {
                let ghost from = if redo {
                    old(self).redo@
                } else {
                    old(self).undo@
                };
                assert(from.len() > 0);
                assert(target == from.last());
                assert(views(from).last() == target@);
                assert(views(from.drop_last()) =~= views(from).drop_last());
                let current = self.committed.take().unwrap();
                let ghost cur = current@;
                if redo {
                    let ghost had = self.undo@;
                    self.undo.push(current);
                    assert(views(self.undo@) =~= views(had).push(cur));
                } else {
                    let ghost had = self.redo@;
                    self.redo.push(current);
                    assert(views(self.redo@) =~= views(had).push(cur));
                }
                self.edits = target.edits.clone();
                self.removed = target.removed.clone();
                self.times = target.times.clone();
                self.manual = target.manual;
                let mut transcript = self.transcript.take();
                if let Some(t) = transcript {
                    let colors = if t.colors.len() == target.colors.len() {
                        copy_colors(&target.colors)
                    } else {
                        t.colors
                    };
                    transcript = Some(Transcript { words: t.words, colors, language: t.language });
                }
                self.transcript = transcript;
                assert(self.colors() =~= if old(self).colors().len() == target@.colors.len() {
                    target@.colors
                } else {
                    old(self).colors()
                });
                self.committed = Some(target.copy());
                self.typing = None;
                self.cursor = None;
                assert(self.history() =~= (stepped(h, redo)->0).0);
                Some(target)
            },
        }
    }
}

/// Undoing and then redoing comes back to the same state, with the same steps left.
pub proof fn redo_undoes_undo(h: HistoryModel)
    requires
        stepped(h, false) is Some,
    ensures
        ({
            let back = (stepped(h, false)->0).0;
            let again = stepped(back, true)->0;
            &&& stepped(back, true) is Some
            &&& again.1 == h.committed->0
            &&& again.0.undo == h.undo
            &&& again.0.redo == h.redo
            &&& again.0.committed == h.committed
        }),
{
    let back = (stepped(h, false)->0).0;
    assert(back.redo.drop_last() =~= h.redo);
    assert(back.undo.push(back.committed->0) =~= h.undo);
}

/// Redoing and then undoing comes back to the same state, with the same steps left.
pub proof fn undo_undoes_redo(h: HistoryModel)
    requires
        stepped(h, true) is Some,
    ensures
        ({
            let on = (stepped(h, true)->0).0;
            let back = stepped(on, false)->0;
            &&& stepped(on, false) is Some
            &&& back.1 == h.committed->0
            &&& back.0.undo == h.undo
            &&& back.0.redo == h.redo
            &&& back.0.committed == h.committed
        }),
{
    let on = (stepped(h, true)->0).0;
    assert(on.undo.drop_last() =~= h.undo);
    assert(on.redo.push(on.committed->0) =~= h.redo);
}

/// A change that isn't part of a run of typing is a step of its own: undoing it gives the
/// state before it back.
pub proof fn a_change_undoes_on_its_own(h: HistoryModel, current: SnapshotModel, now: u64)
    requires
        h.committed is Some,
        h.committed->0 != current,
        !same_run(h, h.committed->0, current, now),
    ensures
        ({
            let after = recorded(h, current, now, false);
            &&& stepped(after, false) is Some
            &&& (stepped(after, false)->0).1 == h.committed->0
        }),
{
    let undo = with_step(h.undo, h.committed->0);
    assert(undo.last() == h.committed->0);
}

/// A run of typing is one step: what's undone after it is what was there before it.
pub proof fn a_run_of_typing_is_one_step(h: HistoryModel, current: SnapshotModel, now: u64)
    requires
        h.committed is Some,
        h.committed->0 != current,
        same_run(h, h.committed->0, current, now),
        h.undo.len() > 0,
    ensures
        (stepped(recorded(h, current, now, false), false)->0).1 == (stepped(h, false)->0).1,
{
}

/// Where nothing changed, or something is being dragged, nothing is recorded.
pub proof fn nothing_is_taken_mid_drag(h: HistoryModel, current: SnapshotModel, now: u64)
    requires
        h.committed is Some,
    ensures
        recorded(h, current, now, true) == h,
        recorded(h, h.committed->0, now, false) == h,
{
}

/// No more than so many steps are ever kept.
pub proof fn the_history_is_bounded(h: HistoryModel, current: SnapshotModel, now: u64, dragging: bool)
    requires
        h.undo.len() <= STEPS,
    ensures
        recorded(h, current, now, dragging).undo.len() <= STEPS,
{
}

} // verus!
