//! Captions on the timeline: a track of title clips in the caption style.
use crate::caption_lines::{Line, LineModel};
use crate::captions::{Span, Word};
use crate::doc::{
    copy_params, reckonable, EffectId, EffectInstance, EffectModel, Item, ItemId, ItemModel, Op,
    OpModel, Param, ParamModel, Sequence, Source, Time, TimeMap, TimeRange, Track, TrackId,
    TrackKind, TrackModel,
};
use crate::placing::slot_for;
use crate::seqs::{first_from, first_is_right, first_where, push_holds, views};
use crate::text::{all_blank, is_empty_text, same};
use vstd::prelude::*;

verus! {

/// A setting's place among the settings.
pub open spec fn setting_with(id: Seq<char>) -> spec_fn(ParamModel) -> bool {
    |p: ParamModel| p.id == id
}

/// The settings with one of them stored as `source`.
pub open spec fn with_setting(params: Seq<ParamModel>, id: Seq<char>, source: Source) -> Seq<
    ParamModel,
> {
    match first_where(params, setting_with(id)) {
        Some(i) => params.update(i, ParamModel { id, source }),
        None => params.push(ParamModel { id, source }),
    }
}

/// The setting is stored as `source` (the first with its name counts).
pub open spec fn stores(params: Seq<ParamModel>, id: Seq<char>, source: Source) -> bool {
    exists|i: int|
        0 <= i < params.len() && (#[trigger] params[i]).id == id && params[i].source == source
            && forall|j: int| 0 <= j < i ==> (#[trigger] params[j]).id != id
}

/// Storing a setting stores it, and leaves every other one alone.
pub proof fn a_setting_is_stored(params: Seq<ParamModel>, id: Seq<char>, source: Source)
    ensures
        stores(with_setting(params, id, source), id, source),
        forall|other: Seq<char>, x: Source|
            other != id ==> (#[trigger] stores(with_setting(params, id, source), other, x)
                <==> stores(params, other, x)),
{
    let p = setting_with(id);
    let now = with_setting(params, id, source);
    first_is_right(params, p, 0);
    match first_where(params, p) {
        Some(i) => {
            assert(now[i].id == id && now[i].source == source);
            assert forall|j: int| 0 <= j < i implies (#[trigger] now[j]).id != id by {
                assert(!p(params[j]));
            }
        },
        None => {
            let n = params.len() as int;
            assert(now[n].id == id && now[n].source == source);
            assert forall|j: int| 0 <= j < n implies (#[trigger] now[j]).id != id by {
                assert(!p(params[j]));
            }
        },
    }
    assert forall|other: Seq<char>, x: Source| other != id implies (#[trigger] stores(now, other, x)
        <==> stores(params, other, x)) by {
        assert(forall|j: int|
            0 <= j < params.len() ==> (#[trigger] now[j]).id == params[j].id);
        if stores(now, other, x) {
            let i = choose|i: int|
                0 <= i < now.len() && (#[trigger] now[i]).id == other && now[i].source == x
                    && forall|j: int| 0 <= j < i ==> (#[trigger] now[j]).id != other;
            assert(params[i].id == other && params[i].source == x);
            assert forall|j: int| 0 <= j < i implies (#[trigger] params[j]).id != other by {
                assert(now[j].id != other);
            }
        }
        if stores(params, other, x) {
            let i = choose|i: int|
                0 <= i < params.len() && (#[trigger] params[i]).id == other && params[i].source == x
                    && forall|j: int| 0 <= j < i ==> (#[trigger] params[j]).id != other;
            assert(now[i].id == other && now[i].source == x);
            assert forall|j: int| 0 <= j < i implies (#[trigger] now[j]).id != other by {
                assert(params[j].id != other);
            }
        }
    }
}

/// Stores a setting.
pub fn set_setting(params: &mut Vec<Param>, id: &str, source: Source)
    ensures
        views(final(params)@) == with_setting(views(old(params)@), id@, source),
        stores(views(final(params)@), id@, source),
        forall|other: Seq<char>, x: Source|
            other != id@ ==> (#[trigger] stores(views(final(params)@), other, x) <==> stores(
                views(old(params)@),
                other,
                x,
            )),
{
    proof {
        a_setting_is_stored(views(params@), id@, source);
    }
    let ghost all = views(params@);
    let ghost p = setting_with(id@);
    let mut i: usize = 0;
    while i < params.len()
        invariant
            all == views(params@),
            all == views(old(params)@),
            p == setting_with(id@),
            i <= params@.len(),
            first_where(all, p) == first_from(all, p, i as int),
        decreases params@.len() - i,
    {
        assert(all[i as int] == params@[i as int]@);
        if same(params[i].id.as_str(), id) {
            params.set(i, Param { id: id.to_owned(), source });
            assert(views(params@) =~= all.update(i as int, ParamModel { id: id@, source }));
            proof {
                a_setting_is_stored(all, id@, source);
            }
            return;
        }
        i = i + 1;
    }
    params.push(Param { id: id.to_owned(), source });
    assert(views(params@) =~= all.push(ParamModel { id: id@, source }));
}

/// Where a caption goes on the timeline, or that it doesn't: on frames, after the one
/// before it (which ends at `last_end`), no further than the next one's start.
pub open spec fn caption_range(
    snapped: Seq<Span>,
    k: int,
    last_end: int,
    frame: int,
    blank: bool,
) -> Option<(int, int)> {
    let start = if snapped[k].start.0 < last_end {
        last_end
    } else {
        snapped[k].start.0 as int
    };
    let least = if snapped[k].end.0 < start + frame {
        start + frame
    } else {
        snapped[k].end.0 as int
    };
    let end = if k + 1 < snapped.len() && snapped[k + 1].start.0 > start && snapped[k + 1].start.0
        < least {
        snapped[k + 1].start.0 as int
    } else {
        least
    };
    if end <= start || blank {
        None
    } else {
        Some((start, end))
    }
}

/// The shortest a word is said for.
pub const SHORTEST: i64 = 7_056_000;

/// When a word is said, on the clock of a clip that starts at `clip_start`.
pub open spec fn word_time(w: Word, clip_start: int) -> TimeRange {
    TimeRange {
        start: Time(
            if w.start.0 - clip_start < 0 {
                0
            } else {
                (w.start.0 - clip_start) as i64
            },
        ),
        duration: Time(
            if w.end.0 - w.start.0 < SHORTEST {
                SHORTEST
            } else {
                (w.end.0 - w.start.0) as i64
            },
        ),
    }
}

/// When each of the words from `first` up to `past` is said (the blank ones aren't).
pub open spec fn word_times_to(words: Seq<Word>, first: int, past: int, clip_start: int) -> Seq<TimeRange>
    decreases past - first,
{
    if past <= first {
        Seq::empty()
    } else if all_blank(words[past - 1].text@) {
        word_times_to(words, first, past - 1, clip_start)
    } else {
        word_times_to(words, first, past - 1, clip_start).push(word_time(words[past - 1], clip_start))
    }
}

/// When each of a caption's words is said; none where it has words that aren't there.
pub open spec fn word_times_of(words: Seq<Word>, first: int, past: int, clip_start: int) -> Seq<TimeRange> {
    if past <= words.len() {
        word_times_to(words, first, past, clip_start)
    } else {
        Seq::empty()
    }
}

/// Every word's times can be reckoned with.
pub open spec fn words_reckonable(words: Seq<Word>) -> bool {
    forall|k: int|
        0 <= k < words.len() ==> reckonable((#[trigger] words[k]).start) && reckonable(words[k].end)
}

/// The word is one of those from `first` up to `past`, and there's something to it.
pub open spec fn is_said(words: Seq<Word>, first: int, past: int, w: int) -> bool {
    first <= w < past && !all_blank(words[w].text@)
}

/// The times tell when the words are said (the `k`-th that of the word at `at[k]`), on a clock
/// that starts at `clip_start`: each of them from when it's said, for as long as it's said, one
/// after the other, and none left out.
pub open spec fn tells_each(
    words: Seq<Word>,
    first: int,
    past: int,
    clip_start: int,
    times: Seq<TimeRange>,
    at: Seq<int>,
) -> bool {
    &&& at.len() == times.len()
    &&& forall|a: int, b: int| 0 <= a < b < at.len() ==> (#[trigger] at[a]) < (#[trigger] at[b])
    &&& forall|w: int| #[trigger] is_said(words, first, past, w) ==> at.contains(w)
    &&& forall|k: int|
        0 <= k < at.len() ==> {
            let w = words[#[trigger] at[k]];
            &&& is_said(words, first, past, at[k])
            &&& times[k].start.0 >= 0
            &&& w.start.0 >= clip_start ==> clip_start + times[k].start.0 == w.start.0
            &&& w.start.0 < clip_start ==> times[k].start.0 == 0
            &&& w.end.0 - w.start.0 >= SHORTEST ==> times[k].duration.0 == w.end.0 - w.start.0
            &&& w.end.0 - w.start.0 < SHORTEST ==> times[k].duration.0 == SHORTEST
        }
}

pub open spec fn tells_words(
    words: Seq<Word>,
    first: int,
    past: int,
    clip_start: int,
    times: Seq<TimeRange>,
) -> bool {
    exists|at: Seq<int>| #[trigger] tells_each(words, first, past, clip_start, times, at)
}

/// A caption's word times say when each of its words is said.
pub proof fn words_are_timed(words: Seq<Word>, first: int, past: int, clip_start: int)
    requires
        0 <= first,
        past <= words.len(),
        words_reckonable(words),
        -0x3000_0000_0000_0000 <= clip_start <= 0x3000_0000_0000_0000,
    ensures
        tells_words(words, first, past, clip_start, word_times_to(words, first, past, clip_start)),
    decreases past - first,
{
    let times = word_times_to(words, first, past, clip_start);
    if past <= first {
        assert(tells_each(words, first, past, clip_start, times, Seq::empty()));
    } else {
        words_are_timed(words, first, past - 1, clip_start);
        let had = word_times_to(words, first, past - 1, clip_start);
        let at = choose|at: Seq<int>| #[trigger]
            tells_each(words, first, past - 1, clip_start, had, at);
        let w = past - 1;
        assert(reckonable(words[w].start));
        assert forall|v: int| #[trigger] is_said(words, first, past, v) && v != w implies at.contains(
            v,
        ) by {
            assert(is_said(words, first, past - 1, v));
        }
        if all_blank(words[w].text@) {
            assert forall|k: int| 0 <= k < at.len() implies is_said(
                words,
                first,
                past,
                #[trigger] at[k],
            ) by {
                assert(is_said(words, first, past - 1, at[k]));
            }
            assert(tells_each(words, first, past, clip_start, times, at));
        } else {
            let now = at.push(w);
            push_holds(at, w);
            assert forall|a: int, b: int| 0 <= a < b < now.len() implies (#[trigger] now[a]) < (
            #[trigger] now[b]) by {
                assert(now[a] == at[a]);
                assert(is_said(words, first, past - 1, at[a]));
                if b < at.len() {
                    assert(now[b] == at[b]);
                }
            }
            assert forall|k: int| 0 <= k < now.len() implies {
                let w = words[#[trigger] now[k]];
                &&& is_said(words, first, past, now[k])
                &&& times[k].start.0 >= 0
                &&& w.start.0 >= clip_start ==> clip_start + times[k].start.0 == w.start.0
                &&& w.start.0 < clip_start ==> times[k].start.0 == 0
                &&& w.end.0 - w.start.0 >= SHORTEST ==> times[k].duration.0 == w.end.0 - w.start.0
                &&& w.end.0 - w.start.0 < SHORTEST ==> times[k].duration.0 == SHORTEST
            } by {
                if k < at.len() {
                    assert(now[k] == at[k]);
                    assert(is_said(words, first, past - 1, at[k]));
                    assert(times[k] == had[k]);
                }
            }
            assert(tells_each(words, first, past, clip_start, times, now));
        }
    }
}

/// When each of a caption's words is said, on its clip's clock.
pub fn word_times(words: &Vec<Word>, first: usize, past: usize, clip_start: i64) -> (out: Vec<TimeRange>)
    requires
        words_reckonable(words@),
        -0x3000_0000_0000_0000 <= clip_start <= 0x3000_0000_0000_0000,
    ensures
        out@ == word_times_of(words@, first as int, past as int, clip_start as int),
        past <= words@.len() ==> tells_words(
            words@,
            first as int,
            past as int,
            clip_start as int,
            out@,
        ),
{
    proof {
        if past <= words@.len() {
            words_are_timed(words@, first as int, past as int, clip_start as int);
        }
    }
    let mut out: Vec<TimeRange> = Vec::new();
    if past > words.len() {
        return out;
    }
    let mut i: usize = first;
    while i < past
        invariant
            words_reckonable(words@),
            -0x3000_0000_0000_0000 <= clip_start <= 0x3000_0000_0000_0000,
            past <= words@.len(),
            first <= i,
            i <= past || i == first,
            out@ == word_times_to(words@, first as int, i as int, clip_start as int),
        decreases past - i,
    {
        let w = &words[i];
        assert(reckonable(words@[i as int].start));
        if !is_empty_text(w.text.as_str()) {
            let start: i64 = if w.start.0 - clip_start < 0 {
                0
            } else {
                w.start.0 - clip_start
            };
            let length: i64 = if w.end.0 - w.start.0 < SHORTEST {
                SHORTEST
            } else {
                w.end.0 - w.start.0
            };
            out.push(TimeRange { start: Time(start), duration: Time(length) });
        }
        i = i + 1;
    }
    out
}

/// The caption's title clip.
pub open spec fn caption_item(
    style: ItemModel,
    range: (int, int),
    fresh: Seq<u64>,
    base: int,
    content: (Seq<char>, Source),
    color: (Seq<char>, Option<Source>),
    times: Seq<TimeRange>,
) -> ItemModel {
    let said = with_setting(style.params, content.0, content.1);
    ItemModel {
        id: ItemId(fresh[base]),
        name: "Caption"@,
        range: TimeRange {
            start: Time(range.0 as i64),
            duration: Time((range.1 - range.0) as i64),
        },
        time_map: TimeMap { source_in: Time(0), speed_num: 1, speed_den: 1 },
        effects: Seq::new(
            style.effects.len(),
            |j: int| EffectModel { id: EffectId(fresh[base + 1 + j]), ..style.effects[j] },
        ),
        params: match color.1 {
            Some(source) => with_setting(said, color.0, source),
            None => said,
        },
        word_times: times,
        ..style
    }
}

/// The title clips for the first captions, in order.
#[verifier::ext_equal]
pub struct Placing {
    pub items: Seq<ItemModel>,
    /// Which caption each is for.
    pub lines: Seq<usize>,
    pub last_end: int,
    /// How many fresh ids are used.
    pub used: int,
}

/// What the captions become.
pub struct Look {
    pub style: Item,
    /// The title's text, and each caption's.
    pub content: String,
    pub contents: Vec<Source>,
    /// The title's color, and each caption's own.
    pub color: String,
    pub colors: Vec<Option<Source>>,
    /// The words said, and where on the timeline their clock starts.
    pub words: Vec<Word>,
    pub offset: Time,
}

pub open spec fn placed(
    lines: Seq<LineModel>,
    snapped: Seq<Span>,
    frame: int,
    look: Look,
    fresh: Seq<u64>,
    n: int,
) -> Placing
    decreases n,
{
    if n <= 0 {
        Placing { items: Seq::empty(), lines: Seq::empty(), last_end: 0, used: 1 }
    } else {
        let before = placed(lines, snapped, frame, look, fresh, n - 1);
        match caption_range(
            snapped,
            n - 1,
            before.last_end,
            frame,
            all_blank(lines[n - 1].caption.text),
        ) {
            None => before,
            Some(range) => Placing {
                items: before.items.push(
                    caption_item(
                        look.style@,
                        range,
                        fresh,
                        before.used,
                        (look.content@, look.contents@[n - 1]),
                        (look.color@, look.colors@[n - 1]),
                        word_times_of(
                            look.words@,
                            lines[n - 1].caption.first as int,
                            lines[n - 1].caption.past as int,
                            range.0 - look.offset.0,
                        ),
                    ),
                ),
                lines: before.lines.push((n - 1) as usize),
                last_end: range.1,
                used: before.used + 1 + look.style@.effects.len(),
            },
        }
    }
}

/// The captions' track, and which caption each of its clips is for.
pub struct CaptionTrack {
    pub op: Op,
    pub lines: Vec<usize>,
}

/// How far things can get: ids used, and where the last clip ends.
proof fn placing_is_bounded(
    lines: Seq<LineModel>,
    snapped: Seq<Span>,
    frame: int,
    look: Look,
    fresh: Seq<u64>,
    n: int,
)
    requires
        0 <= n <= snapped.len(),
        0 <= frame <= 0x1000_0000_0000_0000,
        forall|k: int|
            0 <= k < snapped.len() ==> reckonable((#[trigger] snapped[k]).start) && reckonable(
                snapped[k].end,
            ),
    ensures
        ({
            let p = placed(lines, snapped, frame, look, fresh, n);
            &&& 1 <= p.used <= 1 + n * (1 + look.style@.effects.len())
            &&& 0 <= p.last_end <= 0x1000_0000_0000_0000 + n * frame
            &&& p.items.len() <= n
        }),
    decreases n,
{
    if n > 0 {
        placing_is_bounded(lines, snapped, frame, look, fresh, n - 1);
        assert((n - 1) * (1 + look.style@.effects.len()) + (1 + look.style@.effects.len()) == n * (1
            + look.style@.effects.len())) by (nonlinear_arith);
        assert((n - 1) * frame + frame == n * frame) by (nonlinear_arith);
        assert(reckonable(snapped[n - 1].start));
        if n < snapped.len() {
            assert(reckonable(snapped[n].start));
        }
        assert(0 <= n * frame) by (nonlinear_arith)
            requires
                0 <= n,
                0 <= frame,
        ;
    }
}

fn make_caption(
    look: &Look,
    k: usize,
    start: i64,
    end: i64,
    fresh: &Vec<u64>,
    base: usize,
    times: Vec<TimeRange>,
) -> (out: Item)
    requires
        k < look.contents@.len(),
        k < look.colors@.len(),
        i64::MIN <= end - start <= i64::MAX,
        base + 1 + look.style.effects@.len() <= fresh.len(),
    ensures
        out@ == caption_item(
            look.style@,
            (start as int, end as int),
            fresh@,
            base as int,
            (look.content@, look.contents@[k as int]),
            (look.color@, look.colors@[k as int]),
            times@,
        ),
{
    let mut item = look.style.copy();
    item.id = ItemId(fresh[base]);
    item.name = "Caption".to_owned();
    item.range = TimeRange { start: Time(start), duration: Time(end - start) };
    item.time_map = TimeMap { source_in: Time(0), speed_num: 1, speed_den: 1 };
    let mut effects: Vec<EffectInstance> = Vec::new();
    let ghost want = caption_item(
        look.style@,
        (start as int, end as int),
        fresh@,
        base as int,
        (look.content@, look.contents@[k as int]),
        (look.color@, look.colors@[k as int]),
        times@,
    );
    let mut j: usize = 0;
    while j < look.style.effects.len()
        invariant
            want.effects.len() == look.style.effects@.len(),
            base + 1 + look.style.effects@.len() <= fresh.len(),
            forall|i: int|
                0 <= i < want.effects.len() ==> (#[trigger] want.effects[i]) == (EffectModel {
                    id: EffectId(fresh@[base + 1 + i]),
                    ..look.style@.effects[i]
                }),
            j <= look.style.effects@.len(),
            effects@.len() == j,
            forall|i: int| 0 <= i < j ==> (#[trigger] effects@[i])@ == want.effects[i],
        decreases look.style.effects@.len() - j,
    {
        let mut e = look.style.effects[j].copy();
        e.id = EffectId(fresh[base + 1 + j]);
        assert(look.style@.effects[j as int] == look.style.effects@[j as int]@);
        assert(want.effects[j as int] == e@);
        effects.push(e);
        j = j + 1;
    }
    assert(views(effects@) =~= want.effects);
    item.effects = effects;
    let mut params = copy_params(&look.style.params);
    set_setting(&mut params, look.content.as_str(), look.contents[k]);
    if let Some(source) = look.colors[k] {
        set_setting(&mut params, look.color.as_str(), source);
    }
    item.params = params;
    item.word_times = times;
    assert(item@ =~= want);
    item
}

/// Puts the captions on a new "Captions" track above the other video tracks, as title clips
/// in the caption style. `snapped` are their times on frames of the timeline, `frame` the
/// first frame's length, `fresh` ids nothing has yet. Each clip knows when its words are
/// said. Where there's nothing to add, it says so.
pub fn add_captions(
    s: &Sequence,
    lines: &Vec<Line>,
    snapped: &Vec<Span>,
    frame: Time,
    look: &Look,
    fresh: &Vec<u64>,
) -> (out: Result<CaptionTrack, &'static str>)
    requires
        snapped@.len() == lines@.len(),
        look.contents@.len() == lines@.len(),
        look.colors@.len() == lines@.len(),
        0 <= frame.0,
        lines@.len() * frame.0 <= 0x1000_0000_0000_0000,
        reckonable(frame),
        forall|k: int|
            0 <= k < snapped@.len() ==> reckonable((#[trigger] snapped@[k]).start) && reckonable(
                snapped@[k].end,
            ),
        reckonable(look.offset),
        words_reckonable(look.words@),
        fresh.len() >= 1 + lines@.len() * (1 + look.style.effects@.len()),
    ensures
        ({
            let p = placed(
                views(lines@),
                snapped@,
                frame.0 as int,
                *look,
                fresh@,
                lines@.len() as int,
            );
            if p.items.len() == 0 {
                out matches Err(e) && e@ == "there's nothing to add"@
            } else {
                out matches Ok(t) && t.lines@ == p.lines && t.op@ == (OpModel::InsertTrack {
                    seq: s@.id,
                    index: slot_for(s@, TrackKind::Video) as usize,
                    track: TrackModel {
                        id: TrackId(fresh@[0]),
                        name: "Captions"@,
                        kind: TrackKind::Video,
                        effects: false,
                        items: p.items,
                        rest: 0,
                    },
                })
            }
        }),
        out matches Ok(t) ==> (t.op@ matches OpModel::InsertTrack { seq, index, track }
            && shows_captions(
            views(lines@),
            snapped@,
            frame.0 as int,
            *look,
            track.items,
            t.lines@,
            lines@.len() as int,
        )),
{
    let ghost all = views(lines@);
    proof {
        assert(all.len() == lines.len());
        captions_show_while_said(
            all,
            snapped@,
            frame.0 as int,
            *look,
            fresh@,
            lines@.len() as int,
        );
    }
    let mut items: Vec<Item> = Vec::new();
    let mut which: Vec<usize> = Vec::new();
    let mut last_end: i64 = 0;
    let mut used: usize = 1;
    let mut k: usize = 0;
    let m: usize = look.style.effects.len();
    assert(views(items@) =~= Seq::<ItemModel>::empty());
    while k < lines.len()
        invariant
            all == views(lines@),
            m == look.style.effects@.len(),
            snapped@.len() == lines@.len(),
            look.contents@.len() == lines@.len(),
            look.colors@.len() == lines@.len(),
            0 <= frame.0,
            lines@.len() * frame.0 <= 0x1000_0000_0000_0000,
            reckonable(frame),
            forall|j: int|
                0 <= j < snapped@.len() ==> reckonable((#[trigger] snapped@[j]).start)
                    && reckonable(snapped@[j].end),
            reckonable(look.offset),
            words_reckonable(look.words@),
            fresh.len() >= 1 + lines@.len() * (1 + m),
            k <= lines@.len(),
            ({
                let p = placed(all, snapped@, frame.0 as int, *look, fresh@, k as int);
                views(items@) == p.items && which@ == p.lines && last_end == p.last_end && used
                    == p.used
            }),
        decreases lines@.len() - k,
    {
        proof {
            placing_is_bounded(all, snapped@, frame.0 as int, *look, fresh@, k as int);
            assert(k * frame.0 <= lines@.len() * frame.0) by (nonlinear_arith)
                requires
                    k <= lines@.len(),
                    0 <= frame.0,
            ;
            assert(k * (1 + m) + (1 + m) <= lines@.len() * (1 + m)) by (nonlinear_arith)
                requires
                    k < lines@.len(),
            ;
            assert(reckonable(snapped@[k as int].start));
            assert(all[k as int] == lines@[k as int]@);
            if k + 1 < snapped@.len() {
                assert(reckonable(snapped@[k + 1].start));
            }
            assert(look.style@.effects.len() == m);
        }
        let start: i64 = if snapped[k].start.0 < last_end {
            last_end
        } else {
            snapped[k].start.0
        };
        let mut end: i64 = if snapped[k].end.0 < start + frame.0 {
            start + frame.0
        } else {
            snapped[k].end.0
        };
        if k + 1 < snapped.len() {
            let next: i64 = snapped[k + 1].start.0;
            if next > start && next < end {
                end = next;
            }
        }
        if !(end <= start || is_empty_text(lines[k].caption.text.as_str())) {
            let said = word_times(
                &look.words,
                lines[k].caption.first,
                lines[k].caption.past,
                start - look.offset.0,
            );
            let item = make_caption(look, k, start, end, fresh, used, said);
            let ghost had = items@;
            items.push(item);
            assert(views(items@) =~= views(had).push(item@));
            which.push(k);
            last_end = end;
            used = used + 1 + m;
        }
        k = k + 1;
    }
    assert(views(items@).len() == items@.len());
    if items.len() == 0 {
        return Err("there's nothing to add");
    }
    let track = Track {
        id: TrackId(fresh[0]),
        name: "Captions".to_owned(),
        kind: TrackKind::Video,
        effects: false,
        items,
        rest: 0,
    };
    let index: usize = crate::placing::slot(s, TrackKind::Video);
    Ok(
        CaptionTrack { op: Op::InsertTrack { seq: s.id, index, track }, lines: which },
    )
}

/// Every caption on the timeline has a length and starts at 0 or later.
pub proof fn captions_have_a_length(
    lines: Seq<LineModel>,
    snapped: Seq<Span>,
    frame: int,
    look: Look,
    fresh: Seq<u64>,
    n: int,
    a: int,
)
    requires
        0 <= n <= snapped.len(),
        0 <= frame <= 0x1000_0000_0000_0000,
        n * frame <= 0x1000_0000_0000_0000,
        forall|k: int|
            0 <= k < snapped.len() ==> reckonable((#[trigger] snapped[k]).start) && reckonable(
                snapped[k].end,
            ),
        0 <= a < placed(lines, snapped, frame, look, fresh, n).items.len(),
    ensures
        ({
            let items = placed(lines, snapped, frame, look, fresh, n).items;
            items[a].range.start.0 >= 0 && items[a].range.duration.0 > 0
        }),
{
    clips_end_in_order(lines, snapped, frame, look, fresh, n, a, a);
}

/// Captions on the timeline never overlap and come in order: each starts where the one before
/// it ends or later.
pub proof fn captions_come_in_order(
    lines: Seq<LineModel>,
    snapped: Seq<Span>,
    frame: int,
    look: Look,
    fresh: Seq<u64>,
    n: int,
    a: int,
    b: int,
)
    requires
        0 <= n <= snapped.len(),
        0 <= frame <= 0x1000_0000_0000_0000,
        n * frame <= 0x1000_0000_0000_0000,
        forall|k: int|
            0 <= k < snapped.len() ==> reckonable((#[trigger] snapped[k]).start) && reckonable(
                snapped[k].end,
            ),
        0 <= a < b < placed(lines, snapped, frame, look, fresh, n).items.len(),
    ensures
        ({
            let items = placed(lines, snapped, frame, look, fresh, n).items;
            items[a].range.ends() <= items[b].range.start.0
        }),
{
    clips_end_in_order(lines, snapped, frame, look, fresh, n, a, b);
}

/// Every clip ends where the last one does or before, and those before it end where it
/// starts or before.
proof fn clips_end_in_order(
    lines: Seq<LineModel>,
    snapped: Seq<Span>,
    frame: int,
    look: Look,
    fresh: Seq<u64>,
    n: int,
    a: int,
    b: int,
)
    requires
        0 <= n <= snapped.len(),
        0 <= frame <= 0x1000_0000_0000_0000,
        n * frame <= 0x1000_0000_0000_0000,
        forall|k: int|
            0 <= k < snapped.len() ==> reckonable((#[trigger] snapped[k]).start) && reckonable(
                snapped[k].end,
            ),
        0 <= a <= b < placed(lines, snapped, frame, look, fresh, n).items.len(),
    ensures
        ({
            let p = placed(lines, snapped, frame, look, fresh, n);
            &&& p.items[a].range.start.0 >= 0
            &&& p.items[a].range.duration.0 > 0
            &&& p.items[a].range.ends() <= p.last_end
            &&& a < b ==> p.items[a].range.ends() <= p.items[b].range.start.0
        }),
    decreases n,
{
    if n > 0 {
        let before = placed(lines, snapped, frame, look, fresh, n - 1);
        let p = placed(lines, snapped, frame, look, fresh, n);
        placing_is_bounded(lines, snapped, frame, look, fresh, n - 1);
        placing_is_bounded(lines, snapped, frame, look, fresh, n);
        assert((n - 1) * frame <= n * frame) by (nonlinear_arith)
            requires
                0 <= frame,
        ;
        let m = before.items.len();
        if b < m {
            clips_end_in_order(lines, snapped, frame, look, fresh, n - 1, a, b);
            assert(p.items[a] == before.items[a]);
            assert(p.items[b] == before.items[b]);
        } else if a < m {
            clips_end_in_order(lines, snapped, frame, look, fresh, n - 1, a, a);
            assert(p.items[a] == before.items[a]);
        }
    }
}

/// The clip at `a` shows its caption while it's said: from its start (or the end of the clip
/// before, where that's later), to its own end or a frame later than it starts at least, but
/// no further than the next caption's start. What's silent between two captions stays empty.
pub open spec fn shows_while_said(
    snapped: Seq<Span>,
    frame: int,
    items: Seq<ItemModel>,
    which: Seq<usize>,
    a: int,
) -> bool {
    let l = which[a] as int;
    let start = items[a].range.start.0;
    let end = items[a].range.start.0 + items[a].range.duration.0;
    let before = if a > 0 {
        items[a - 1].range.start.0 + items[a - 1].range.duration.0
    } else {
        0
    };
    &&& start >= snapped[l].start.0
    &&& start >= before
    &&& start == snapped[l].start.0 || start == before
    &&& end > start
    &&& end <= snapped[l].end.0 || end <= start + frame
    &&& l + 1 < snapped.len() && snapped[l + 1].start.0 > start ==> end <= snapped[l + 1].start.0
    &&& l + 1 >= snapped.len() || snapped[l + 1].start.0 <= start || snapped[l + 1].start.0
        >= snapped[l].end.0 && snapped[l + 1].start.0 >= start + frame ==> end >= snapped[l].end.0
        && end >= start + frame
    &&& end >= snapped[l].end.0 && end >= start + frame || (l + 1 < snapped.len() && end
        == snapped[l + 1].start.0)
}

/// The clip at `a` says its caption's text, in the caption's own color if it has one, in the
/// style picked, and knows when its words are said.
pub open spec fn says_its_caption(
    lines: Seq<LineModel>,
    look: Look,
    items: Seq<ItemModel>,
    which: Seq<usize>,
    a: int,
) -> bool {
    let l = which[a] as int;
    let it = items[a];
    let style = look.style@;
    &&& it.kind == style.kind
    &&& it.transitions == style.transitions
    &&& it.enabled == style.enabled
    &&& it.effects.len() == style.effects.len()
    &&& forall|e: int|
        0 <= e < it.effects.len() ==> (#[trigger] it.effects[e]) == (EffectModel {
            id: it.effects[e].id,
            ..style.effects[e]
        })
    &&& look.color@ != look.content@ ==> stores(it.params, look.content@, look.contents@[l])
    &&& (look.colors@[l] matches Some(c) ==> stores(it.params, look.color@, c))
    &&& forall|other: Seq<char>, x: Source|
        other != look.content@ && (other != look.color@ || look.colors@[l] is None) ==> (
        #[trigger] stores(it.params, other, x) <==> stores(style.params, other, x))
    &&& lines[l].caption.past <= look.words@.len() ==> tells_words(
        look.words@,
        lines[l].caption.first as int,
        lines[l].caption.past as int,
        it.range.start.0 - look.offset.0,
        it.word_times,
    )
}

/// The clips show the captions, in order: each that says something (where a frame has a
/// length), and no other.
pub open spec fn shows_captions(
    lines: Seq<LineModel>,
    snapped: Seq<Span>,
    frame: int,
    look: Look,
    items: Seq<ItemModel>,
    which: Seq<usize>,
    n: int,
) -> bool {
    &&& items.len() == which.len()
    &&& forall|a: int, b: int| 0 <= a < b < which.len() ==> (#[trigger] which[a]) < (#[trigger] which[b])
    &&& forall|a: int|
        0 <= a < which.len() ==> (#[trigger] which[a]) < n && !all_blank(
            lines[which[a] as int].caption.text,
        ) && shows_while_said(snapped, frame, items, which, a) && says_its_caption(
            lines,
            look,
            items,
            which,
            a,
        )
    &&& frame > 0 ==> forall|l: usize|
        l < n && !all_blank((#[trigger] lines[l as int]).caption.text) ==> which.contains(l)
}

/// Captions show exactly while they're said.
pub proof fn captions_show_while_said(
    lines: Seq<LineModel>,
    snapped: Seq<Span>,
    frame: int,
    look: Look,
    fresh: Seq<u64>,
    n: int,
)
    requires
        0 <= n <= snapped.len() == lines.len(),
        lines.len() <= usize::MAX,
        0 <= frame <= 0x1000_0000_0000_0000,
        n * frame <= 0x1000_0000_0000_0000,
        forall|k: int|
            0 <= k < snapped.len() ==> reckonable((#[trigger] snapped[k]).start) && reckonable(
                snapped[k].end,
            ),
        reckonable(look.offset),
        words_reckonable(look.words@),
    ensures
        ({
            let p = placed(lines, snapped, frame, look, fresh, n);
            &&& shows_captions(lines, snapped, frame, look, p.items, p.lines, n)
            &&& p.last_end == if p.items.len() > 0 {
                p.items.last().range.start.0 + p.items.last().range.duration.0
            } else {
                0
            }
        }),
    decreases n,
{
    if n > 0 {
        assert((n - 1) * frame <= n * frame) by (nonlinear_arith)
            requires
                0 <= frame,
        ;
        captions_show_while_said(lines, snapped, frame, look, fresh, n - 1);
        placing_is_bounded(lines, snapped, frame, look, fresh, n - 1);
        placing_is_bounded(lines, snapped, frame, look, fresh, n);
        let before = placed(lines, snapped, frame, look, fresh, n - 1);
        let p = placed(lines, snapped, frame, look, fresh, n);
        let k = n - 1;
        assert(reckonable(snapped[k].start) && reckonable(snapped[k].end));
        if n < snapped.len() {
            assert(reckonable(snapped[n].start));
        }
        let blank = all_blank(lines[k].caption.text);
        match caption_range(snapped, k, before.last_end, frame, blank) {
            None => {
                assert(frame > 0 ==> blank);
            },
            Some(range) => {
                let m = before.items.len() as int;
                push_holds(before.lines, k as usize);
                let it = p.items[m];
                assert(it.range.start.0 == range.0);
                assert(it.range.duration.0 == range.1 - range.0);
                caption_says(lines, look, fresh, before.used, k, range, p.items, p.lines, m);
                assert(m > 0 ==> before.items.last() == p.items[m - 1]);
                assert(shows_while_said(snapped, frame, p.items, p.lines, m));
                assert forall|a: int| 0 <= a < p.lines.len() implies (#[trigger] p.lines[a]) < n
                    && !all_blank(lines[p.lines[a] as int].caption.text) && shows_while_said(
                    snapped,
                    frame,
                    p.items,
                    p.lines,
                    a,
                ) && says_its_caption(lines, look, p.items, p.lines, a) by {
                    if a < m {
                        assert(p.lines[a] == before.lines[a]);
                        assert(p.items[a] == before.items[a]);
                        assert(a > 0 ==> p.items[a - 1] == before.items[a - 1]);
                        assert(shows_while_said(snapped, frame, before.items, before.lines, a));
                        assert(says_its_caption(lines, look, before.items, before.lines, a));
                    }
                }
                assert forall|a: int, b: int| 0 <= a < b < p.lines.len() implies (
                #[trigger] p.lines[a]) < (#[trigger] p.lines[b]) by {
                    assert(p.lines[a] == before.lines[a]);
                    if b < m {
                        assert(p.lines[b] == before.lines[b]);
                    }
                }
            },
        }
    }
}

/// A caption's clip says it.
proof fn caption_says(
    lines: Seq<LineModel>,
    look: Look,
    fresh: Seq<u64>,
    base: int,
    k: int,
    range: (int, int),
    items: Seq<ItemModel>,
    which: Seq<usize>,
    a: int,
)
    requires
        0 <= k < lines.len() <= usize::MAX,
        0 <= a < which.len() == items.len(),
        which[a] == k,
        -0x2000_0000_0000_0000 <= range.0 <= 0x2000_0000_0000_0000,
        reckonable(look.offset),
        words_reckonable(look.words@),
        items[a] == caption_item(
            look.style@,
            range,
            fresh,
            base,
            (look.content@, look.contents@[k]),
            (look.color@, look.colors@[k]),
            word_times_of(
                look.words@,
                lines[k].caption.first as int,
                lines[k].caption.past as int,
                range.0 - look.offset.0,
            ),
        ),
    ensures
        says_its_caption(lines, look, items, which, a),
{
    let style = look.style@;
    let said = with_setting(style.params, look.content@, look.contents@[k]);
    a_setting_is_stored(style.params, look.content@, look.contents@[k]);
    if let Some(c) = look.colors@[k] {
        a_setting_is_stored(said, look.color@, c);
    }
    if lines[k].caption.past <= look.words@.len() {
        words_are_timed(
            look.words@,
            lines[k].caption.first as int,
            lines[k].caption.past as int,
            range.0 - look.offset.0,
        );
    }
}

} // verus!
