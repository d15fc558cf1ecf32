//! The caption in focus over the footage: which one is shown, when, and what it's drawn on.
use crate::caption_lines::{Line, LineModel};
use crate::caption_track::{
    set_setting, with_setting, word_times, word_times_of, words_reckonable,
};
use crate::captions::Word;
use crate::doc::{
    reckonable, Item, ItemId, ItemModel, Param, ParamModel, Sequence, SequenceModel, Source, Time,
    TimeRange, Track, TrackId, TrackKind, TrackModel,
};
use crate::seqs::{last_is_right, last_where, views};
use crate::text::ends_with;
use vstd::prelude::*;

verus! {

/// Half a second.
pub const AFTERWARDS: i64 = 352_800_000;

/// The least a caption is shown for: 0.4 s.
pub const LEAST: i64 = 282_240_000;

/// How long the sample is shown for: 2 s.
pub const SAMPLE: i64 = 1_411_200_000;

/// How long the preview rests between two plays: 0.6 s.
pub const REST: i64 = 423_360_000;

/// A hundredth of a second.
pub const MOMENT: i64 = 7_056_000;

/// The lines' times can be reckoned with.
pub open spec fn lines_reckonable(lines: Seq<LineModel>) -> bool {
    forall|k: int|
        0 <= k < lines.len() ==> reckonable((#[trigger] lines[k]).caption.span.start) && reckonable(
            lines[k].caption.span.end,
        )
}

/// How long the stretch under the captions is: to the last one's end, or as long as the
/// sound.
pub fn stretch(lines: &Vec<Line>, length: Time) -> (out: Time)
    ensures
        out == length.spec_most(
            if lines@.len() == 0 {
                Time(0)
            } else {
                lines@.last()@.caption.span.end
            },
        ),
{
    let end = if lines.len() == 0 {
        Time(0)
    } else {
        lines[lines.len() - 1].caption.span.end
    };
    length.most(end)
}

pub open spec fn begun(local: Time) -> spec_fn(LineModel) -> bool {
    |l: LineModel| l.caption.span.start.0 <= local.0
}

/// Follows the sound: the caption in focus is the last one that has begun at `local` (the
/// one it was where none has), and whether to stop, the last one being over.
pub fn follow(lines: &Vec<Line>, local: Time, focus: usize) -> (out: (usize, bool))
    requires
        lines_reckonable(views(lines@)),
    ensures
        match last_where(views(lines@), begun(local)) {
            Some(i) => out.0 == i,
            None => out.0 == focus,
        },
        out.1 == (lines@.len() > 0 && local.0 > lines@.last()@.caption.span.end.0 + AFTERWARDS),
{
    let ghost all = views(lines@);
    let ghost p = begun(local);
    let mut i: usize = lines.len();
    assert(all.take(i as int) =~= all);
    while i > 0 && lines[i - 1].caption.span.start.0 > local.0
        invariant
            all == views(lines@),
            p == begun(local),
            i <= lines@.len(),
            last_where(all, p) == last_where(all.take(i as int), p),
        decreases i,
    {
        assert(all[i - 1] == lines@[i - 1]@);
        assert(all.take(i as int).drop_last() =~= all.take(i - 1));
        assert(all.take(i as int).last() == all[i - 1]);
        i = i - 1;
    }
    let mut now: usize = focus;
    if i > 0 {
        assert(all[i - 1] == lines@[i - 1]@);
        assert(all.take(i as int).last() == all[i - 1]);
        assert(last_where(all, p) == Some(i - 1));
        now = i - 1;
    }
    let mut over = false;
    if lines.len() > 0 {
        assert(all[all.len() - 1] == lines@.last()@);
        over = local.0 > lines[lines.len() - 1].caption.span.end.0 + AFTERWARDS;
    }
    (now, over)
}

/// While the sound plays, each caption is in focus from its start to the next one's.
pub proof fn the_sound_is_followed(lines: Seq<LineModel>, local: Time, k: int)
    requires
        0 <= k < lines.len(),
        lines[k].caption.span.start.0 <= local.0,
        forall|j: int| k < j < lines.len() ==> local.0 < (#[trigger] lines[j]).caption.span.start.0,
    ensures
        last_where(lines, begun(local)) == Some(k),
{
    last_is_right(lines, begun(local));
}

/// What's shown over the footage.
pub struct Shown {
    pub text: String,
    /// Where on the timeline it starts.
    pub start: Time,
    pub length: Time,
    pub times: Vec<TimeRange>,
}

/// The caption in focus with its words' times, or a sample.
pub fn shown(lines: &Vec<Line>, words: &Vec<Word>, offset: Time, focus: usize, playhead: Time) -> (out: Shown)
    requires
        lines_reckonable(views(lines@)),
        words_reckonable(words@),
        reckonable(offset),
    ensures
        if focus < lines@.len() {
            let c = lines@[focus as int]@.caption;
            &&& out.text@ == c.text
            &&& out.start.0 == offset.0 + c.span.start.0
            &&& out.length.0 == if c.span.end.0 - c.span.start.0 < LEAST {
                LEAST as int
            } else {
                c.span.end.0 - c.span.start.0
            }
            &&& out.times@ == word_times_of(
                words@,
                c.first as int,
                c.past as int,
                c.span.start.0 as int,
            )
        } else {
            &&& out.text@ == "Your captions will look like this"@
            &&& out.start == playhead
            &&& out.length.0 == SAMPLE
            &&& out.times@.len() == 0
        },
{
    if focus < lines.len() {
        let c = &lines[focus].caption;
        assert(views(lines@)[focus as int] == lines@[focus as int]@);
        let long: i64 = c.span.end.0 - c.span.start.0;
        Shown {
            text: c.text.clone(),
            start: Time(offset.0 + c.span.start.0),
            length: Time(
                if long < LEAST {
                    LEAST
                } else {
                    long
                },
            ),
            times: word_times(words, c.first, c.past, c.span.start.0),
        }
    } else {
        Shown {
            text: "Your captions will look like this".to_owned(),
            start: playhead,
            length: Time(SAMPLE),
            times: Vec::new(),
        }
    }
}

// ---- following the spoken word ----

/// One of the settings is for the spoken word: its name ends in `suffix`.
pub open spec fn any_spoken(params: Seq<ParamModel>, suffix: Seq<char>) -> bool {
    exists|i: int| 0 <= i < params.len() && suffix.is_suffix_of((#[trigger] params[i]).id)
}

fn has_spoken(params: &Vec<Param>, suffix: &str) -> (out: bool)
    ensures
        out == any_spoken(views(params@), suffix@),
{
    let mut i: usize = 0;
    while i < params.len()
        invariant
            i <= params@.len(),
            forall|k: int| 0 <= k < i ==> !suffix@.is_suffix_of((#[trigger] views(params@)[k]).id),
        decreases params@.len() - i,
    {
        assert(views(params@)[i as int] == params@[i as int]@);
        if ends_with(params[i].id.as_str(), suffix) {
            return true;
        }
        i = i + 1;
    }
    false
}

/// Something in the look follows the spoken word: a setting of its own or of an effect.
pub fn follows_the_word(style: &Item, suffix: &str) -> (out: bool)
    ensures
        out == (any_spoken(style@.params, suffix@) || exists|i: int|
            0 <= i < style@.effects.len() && any_spoken(
                (#[trigger] style@.effects[i]).params,
                suffix@,
            )),
{
    if has_spoken(&style.params, suffix) {
        return true;
    }
    let mut i: usize = 0;
    while i < style.effects.len()
        invariant
            i <= style.effects@.len(),
            forall|k: int|
                0 <= k < i ==> !any_spoken((#[trigger] style@.effects[k]).params, suffix@),
        decreases style.effects@.len() - i,
    {
        assert(style@.effects[i as int] == style.effects@[i as int]@);
        if has_spoken(&style.effects[i].params, suffix) {
            return true;
        }
        i = i + 1;
    }
    false
}

/// How far into what's shown the preview is at `now` (a clock that only runs on): played
/// through over and over where it follows the spoken word, in its middle otherwise.
pub open spec fn into_of(highlight: bool, now: int, length: int) -> int {
    if !highlight {
        length / 2
    } else if now % (length + REST) > length - MOMENT {
        length - MOMENT
    } else {
        now % (length + REST)
    }
}

/// The moment the preview shows: the playhead's while playing.
pub fn moment(
    playing: bool,
    playhead: Time,
    highlight: bool,
    now: Time,
    start: Time,
    length: Time,
) -> (out: Time)
    requires
        0 <= now.0,
        LEAST <= length.0 <= 0x2000_0000_0000_0000,
        -0x2000_0000_0000_0000 <= start.0 <= 0x2000_0000_0000_0000,
    ensures
        playing ==> out == playhead,
        !playing ==> out.0 == start.0 + into_of(highlight, now.0 as int, length.0 as int),
{
    if playing {
        return playhead;
    }
    let mut into: i64 = length.0 / 2;
    if highlight {
        into = now.0 % (length.0 + REST);
        if into > length.0 - MOMENT {
            into = length.0 - MOMENT;
        }
    }
    Time(start.0 + into)
}

/// What the preview shows is always a moment of what's shown.
pub proof fn the_preview_stays_within(highlight: bool, now: int, length: int)
    requires
        0 <= now,
        LEAST <= length,
    ensures
        0 <= into_of(highlight, now, length) < length,
{
    assert(0 <= now % (length + REST)) by (nonlinear_arith)
        requires
            0 <= now,
            0 < length + REST,
    ;
}

// ---- drawing it ----

/// The clip the preview draws.
pub open spec fn preview_item(
    style: ItemModel,
    start: Time,
    length: Time,
    times: Seq<TimeRange>,
    setting: Seq<char>,
    content: Source,
) -> ItemModel {
    ItemModel {
        id: ItemId((u64::MAX - 3) as u64),
        range: TimeRange { start, duration: length },
        params: with_setting(style.params, setting, content),
        word_times: times,
        ..style
    }
}

/// A scratch copy of the timeline with the caption on top; nothing is edited. `content` is
/// the shown text, as stored under `setting`.
pub fn with_preview(s: &Sequence, style: &Item, shown: &Shown, setting: &str, content: Source) -> (out: Sequence)
    ensures
        out@ == (SequenceModel {
            tracks: s@.tracks.push(
                TrackModel {
                    id: TrackId((u64::MAX - 4) as u64),
                    name: "preview"@,
                    kind: TrackKind::Video,
                    effects: false,
                    items: seq![
                        preview_item(
                            style@,
                            shown.start,
                            shown.length,
                            shown.times@,
                            setting@,
                            content,
                        ),
                    ],
                    rest: 0,
                },
            ),
            ..s@
        }),
{
    let mut out = s.copy();
    let mut item = style.copy();
    item.id = ItemId(u64::MAX - 3);
    item.range = TimeRange { start: shown.start, duration: shown.length };
    set_setting(&mut item.params, setting, content);
    item.word_times = crate::doc::copy_ranges(&shown.times);
    let ghost it = preview_item(
        style@,
        shown.start,
        shown.length,
        shown.times@,
        setting@,
        content,
    );
    assert(item@ =~= it);
    let items = vec![item];
    assert(views(items@) =~= seq![it]);
    let track = Track {
        id: TrackId(u64::MAX - 4),
        name: "preview".to_owned(),
        kind: TrackKind::Video,
        effects: false,
        items,
        rest: 0,
    };
    let ghost had = out.tracks@;
    let ghost new = track@;
    out.tracks.push(track);
    assert(views(out.tracks@) =~= views(had).push(new));
    out
}

/// The last preview drawn.
#[derive(Copy, Clone, Debug, PartialEq, Eq, Structural)]
pub struct Preview {
    /// What it was drawn from (looks, text, moment, size and footage, by number).
    pub key: u64,
    pub drawn: bool,
}

/// What came of drawing it.
#[derive(Copy, Clone, Debug, PartialEq, Eq, Structural)]
pub enum Drawn {
    /// With the footage as it is.
    Exact,
    /// With what of the footage is there so far.
    Rough,
    Nothing,
}

impl Preview {
    /// It has to be drawn anew.
    pub fn is_stale(&self, key: u64) -> (out: bool)
        ensures
            out == (self.key != key || !self.drawn),
    {
        self.key != key || !self.drawn
    }

    /// Takes in what came of drawing it; whether to try again soon.
    pub fn drew(&mut self, key: u64, what: Drawn) -> (out: bool)
        ensures
            out == (what != Drawn::Exact),
            *final(self) == match what {
                Drawn::Exact => Preview { key, drawn: true },
                Drawn::Rough => Preview { drawn: true, ..*old(self) },
                Drawn::Nothing => *old(self),
            },
    {
        match what {
            Drawn::Exact => {
                self.key = key;
                self.drawn = true;
                false
            },
            Drawn::Rough => {
                self.drawn = true;
                true
            },
            Drawn::Nothing => true,
        }
    }
}

// ---- scrubbing ----

/// What the pointer does to the preview, or to the bar under it.
#[derive(Copy, Clone, Debug, PartialEq, Eq, Structural)]
pub enum Pointer {
    /// It drags (or, on the bar, clicks) at this far into the stretch (`None`: it's nowhere).
    Held(Option<Time>),
    /// It let go.
    LetGo,
    Away,
}

/// Where the timeline is, and whether it plays or is being scrubbed by the preview.
#[derive(Copy, Clone, Debug, PartialEq, Eq, Structural)]
pub struct Player {
    pub playing: bool,
    pub scrubbing: bool,
    pub playhead: Time,
}

/// There's something to scrub through: captions, over a stretch that isn't empty.
pub open spec fn has_stretch(lines: Seq<LineModel>, length: Time) -> bool {
    lines.len() > 0 && length.spec_most(lines.last().caption.span.end).0 > 0
}

impl Player {
    /// What the pointer makes of it; `any` is whether there's something to scrub through.
    pub open spec fn scrubbed(self, any: bool, offset: Time, pointer: Pointer) -> Player {
        if !any {
            self
        } else {
            match pointer {
                Pointer::Held(Some(at)) => Player {
                    playing: false,
                    scrubbing: true,
                    playhead: Time((offset.0 + at.0) as i64),
                },
                Pointer::LetGo => Player { scrubbing: false, ..self },
                _ => self,
            }
        }
    }

    /// Scrubs: dragging stops what plays, moves the playhead into the stretch and makes the
    /// preview follow it until it's let go. Nothing moves without captions.
    pub fn scrub(&mut self, lines: &Vec<Line>, length: Time, offset: Time, pointer: Pointer)
        requires
            reckonable(offset),
            pointer matches Pointer::Held(Some(at)) ==> reckonable(at),
        ensures
            *final(self) == old(self).scrubbed(
                has_stretch(views(lines@), length),
                offset,
                pointer,
            ),
    {
        assert(lines@.len() > 0 ==> views(lines@).last() == lines@.last()@);
        if lines.len() == 0 || stretch(lines, length).0 <= 0 {
            return;
        }
        match pointer {
            Pointer::Held(Some(at)) => {
                self.playing = false;
                self.scrubbing = true;
                self.playhead = Time(offset.0 + at.0);
            },
            Pointer::LetGo => {
                self.scrubbing = false;
            },
            _ => {},
        }
    }

    /// The preview follows the playhead: it plays or is scrubbed, and there are captions.
    pub open spec fn is_followed(self, any: bool) -> bool {
        (self.playing || self.scrubbing) && any
    }

    pub fn followed(&self, any: bool) -> (out: bool)
        ensures
            out == self.is_followed(any),
    {
        (self.playing || self.scrubbing) && any
    }

    /// While the preview follows the playhead: the caption in focus, and what plays past the
    /// last one stops.
    pub fn keep_up(&mut self, lines: &Vec<Line>, offset: Time, focus: usize) -> (out: usize)
        requires
            lines_reckonable(views(lines@)),
            reckonable(offset),
            reckonable(old(self).playhead),
        ensures
            ({
                let local = Time((old(self).playhead.0 - offset.0) as i64);
                let followed = old(self).is_followed(lines@.len() > 0);
                &&& out == match last_where(views(lines@), begun(local)) {
                    Some(i) if followed => i,
                    _ => focus as int,
                }
                &&& *final(self) == if followed && local.0 > lines@.last()@.caption.span.end.0
                    + AFTERWARDS {
                    Player { playing: false, ..*old(self) }
                } else {
                    *old(self)
                }
            }),
    {
        if !self.followed(lines.len() > 0) {
            return focus;
        }
        let (now, over) = follow(lines, Time(self.playhead.0 - offset.0), focus);
        if over {
            self.playing = false;
        }
        now
    }
}

/// Scrubbing to a caption stops what plays and brings the caption into focus; letting go
/// leaves the playhead there.
pub proof fn scrubbing_shows_the_caption(
    player: Player,
    lines: Seq<LineModel>,
    length: Time,
    offset: Time,
    at: Time,
    k: int,
)
    requires
        reckonable(offset),
        reckonable(at),
        has_stretch(lines, length),
        0 <= k < lines.len(),
        lines[k].caption.span.start.0 <= at.0,
        forall|j: int| k < j < lines.len() ==> at.0 < (#[trigger] lines[j]).caption.span.start.0,
    ensures
        ({
            let now = player.scrubbed(has_stretch(lines, length), offset, Pointer::Held(Some(at)));
            let after = now.scrubbed(has_stretch(lines, length), offset, Pointer::LetGo);
            &&& !now.playing && now.is_followed(lines.len() > 0)
            &&& last_where(lines, begun(Time((now.playhead.0 - offset.0) as i64))) == Some(k)
            &&& after.playhead == now.playhead && !after.is_followed(lines.len() > 0)
        }),
{
    the_sound_is_followed(lines, at, k);
}

// ---- playing ----

/// Where to play from.
#[derive(Copy, Clone, Debug, PartialEq, Eq, Structural)]
pub enum PlayFrom {
    Start,
    Selected,
}

/// Where on the timeline playing starts, if there's a caption there.
pub fn play_from(lines: &Vec<Line>, offset: Time, focus: usize, from: PlayFrom) -> (out: Option<Time>)
    requires
        lines_reckonable(views(lines@)),
        reckonable(offset),
    ensures
        ({
            let i = match from {
                PlayFrom::Start => 0,
                PlayFrom::Selected => focus as int,
            };
            if i < lines@.len() {
                out matches Some(t) && t.0 == offset.0 + lines@[i]@.caption.span.start.0
            } else {
                out is None
            }
        }),
{
    let i: usize = match from {
        PlayFrom::Start => 0,
        PlayFrom::Selected => focus,
    };
    if i < lines.len() {
        assert(views(lines@)[i as int] == lines@[i as int]@);
        Some(Time(offset.0 + lines[i].caption.span.start.0))
    } else {
        None
    }
}

} // verus!
