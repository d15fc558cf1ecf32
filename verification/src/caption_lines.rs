//! The captions as the window lists them: grouped words with the changes made by hand, and
//! splitting, joining, removing, retiming and coloring them.
use crate::captions::{typed, CaptionsUi, Grouping, Manual, Span, Transcript, Word};
use crate::doc::{Time, reckonable};
use crate::seqs::{filter_step, take_all, views};
use crate::text::{
    all_blank, blank, chars_of, count_words, find_byte, is_blank, is_empty_text, join3, same_byte,
    text_between, trim_end, trim_start, trimmed_end, trimmed_start, words_before,
};
use crate::words::words_in;
use std::collections::{BTreeMap, BTreeSet};
use vstd::prelude::*;

verus! {

/// Words grouped into a caption: those from `first`, up to but not including `past`.
pub struct Caption {
    pub first: usize,
    pub past: usize,
    pub text: String,
    pub span: Span,
}

#[verifier::ext_equal]
pub struct CaptionModel {
    pub first: usize,
    pub past: usize,
    pub text: Seq<char>,
    pub span: Span,
}

impl View for Caption {
    type V = CaptionModel;

    open spec fn view(&self) -> CaptionModel {
        CaptionModel { first: self.first, past: self.past, text: self.text@, span: self.span }
    }
}

/// A caption as it's listed, with its color.
pub struct Line {
    pub caption: Caption,
    pub color: Option<u64>,
}

#[verifier::ext_equal]
pub struct LineModel {
    pub caption: CaptionModel,
    pub color: Option<u64>,
}

impl View for Line {
    type V = LineModel;

    open spec fn view(&self) -> LineModel {
        LineModel { caption: self.caption@, color: self.color }
    }
}

/// Every word of the caption was taken out.
pub open spec fn gone(c: CaptionModel, removed: Set<usize>) -> bool {
    forall|w: usize| c.first <= w < c.past ==> #[trigger] removed.contains(w)
}

pub open spec fn still_there(removed: Set<usize>) -> spec_fn(CaptionModel) -> bool {
    |c: CaptionModel| !gone(c, removed)
}

/// The caption with what was changed by hand: times set, text typed, its first word's color.
pub open spec fn by_hand(
    edits: Map<usize, Seq<char>>,
    times: Map<usize, Span>,
    colors: Seq<Option<u64>>,
) -> spec_fn(CaptionModel) -> LineModel {
    |c: CaptionModel|
        LineModel {
            caption: CaptionModel {
                first: c.first,
                past: c.past,
                text: match edits.get(c.first) {
                    Some(t) => t,
                    None => c.text,
                },
                span: match times.get(c.first) {
                    Some(s) => s,
                    None => c.span,
                },
            },
            color: if c.first < colors.len() {
                colors[c.first as int]
            } else {
                None
            },
        }
}

impl CaptionsUi {
    /// What the window lists for the words grouped as `groups`: nothing without a
    /// transcript; lines taken out stay out.
    pub open spec fn lines_of(&self, groups: Seq<CaptionModel>) -> Seq<LineModel> {
        match self.transcript {
            None => Seq::empty(),
            Some(t) => groups.filter(still_there(self.removed@)).map_values(
                by_hand(typed(self.edits@), self.times@, t.colors@),
            ),
        }
    }

    fn is_gone(&self, c: &Caption) -> (out: bool)
        ensures
            out == gone(c@, self.removed@),
    {
        let mut w: usize = c.first;
        while w < c.past
            invariant
                c.first <= w,
                forall|v: usize| c.first <= v < w ==> #[trigger] self.removed@.contains(v),
            decreases c.past - w,
        {
            if !self.removed.contains(&w) {
                return false;
            }
            w = w + 1;
        }
        true
    }

    /// The captions as grouped now (lines taken out left out), with their colors, any
    /// hand-typed text and hand-set times.
    pub fn current_captions(&self, groups: &Vec<Caption>) -> (out: Vec<Line>)
        ensures
            views(out@) == self.lines_of(views(groups@)),
    {
        let mut out: Vec<Line> = Vec::new();
        if self.transcript.is_none() {
            assert(views(out@) =~= Seq::<LineModel>::empty());
            return out;
        }
        let t = self.transcript.as_ref().unwrap();
        let ghost all = views(groups@);
        let ghost p = still_there(self.removed@);
        let ghost f = by_hand(typed(self.edits@), self.times@, t.colors@);
        let mut i: usize = 0;
        proof {
            take_all(all);
            reveal_with_fuel(Seq::filter, 1);
            assert(views(out@) =~= Seq::<CaptionModel>::empty().map_values(f));
        }
        while i < groups.len()
            invariant
                self.transcript == Some(*t),
                all == views(groups@),
                p == still_there(self.removed@),
                f == by_hand(typed(self.edits@), self.times@, t.colors@),
                i <= groups@.len(),
                views(out@) == all.take(i as int).filter(p).map_values(f),
            decreases groups@.len() - i,
        {
            let c = &groups[i];
            let ghost kept = all.take(i as int).filter(p);
            proof {
                filter_step(all, p, i as int);
                assert(all[i as int] == groups@[i as int]@);
            }
            if !self.is_gone(c) {
                let span = match self.times.get(&c.first) {
                    Some(s) => *s,
                    None => c.span,
                };
                let text = match self.edits.get(&c.first) {
                    Some(s) => s.clone(),
                    None => c.text.clone(),
                };
                let color = if c.first < t.colors.len() {
                    t.colors[c.first]
                } else {
                    None
                };
                let ghost had = out@;
                out.push(
                    Line { caption: Caption { first: c.first, past: c.past, text, span }, color },
                );
                proof {
                    assert(out@.last()@ == f(all[i as int]));
                    assert(views(out@) =~= views(had).push(f(all[i as int])));
                    assert(kept.push(all[i as int]).map_values(f) =~= kept.map_values(f).push(
                        f(all[i as int]),
                    ));
                }
            }
            i = i + 1;
        }
        proof {
            take_all(all);
        }
        out
    }
}

/// Lines that are taken out stay out, however the words are grouped: no listed caption has
/// only words that were taken out.
pub proof fn removed_lines_stay_out(ui: CaptionsUi, groups: Seq<CaptionModel>, k: int)
    requires
        0 <= k < ui.lines_of(groups).len(),
    ensures
        !gone(ui.lines_of(groups)[k].caption, ui.removed@),
{
    let p = still_there(ui.removed@);
    groups.lemma_filter_pred(p, k);
}

// ---- splitting and joining ----

/// The words of a caption that say something.
pub open spec fn spoken(words: Seq<Word>) -> spec_fn(usize) -> bool {
    |w: usize| (w as int) < words.len() && !all_blank(words[w as int].text@)
}

/// The words of a caption that say something, in order.
pub open spec fn spoken_words(words: Seq<Word>, first: int, past: int) -> Seq<usize>
    decreases past - first,
{
    if past <= first {
        Seq::empty()
    } else {
        let before = spoken_words(words, first, past - 1);
        if spoken(words)((past - 1) as usize) {
            before.push((past - 1) as usize)
        } else {
            before
        }
    }
}

/// Where the cursor is in the text: no further than its end.
pub open spec fn cursor_place(text: Seq<char>, chars: int) -> int {
    if chars < text.len() {
        chars
    } else {
        text.len() as int
    }
}

/// Which of its words a caption is split before: the word the cursor is in (or before), the
/// middle one without a cursor; never the first.
pub open spec fn split_before(text: Seq<char>, cursor: Option<int>, words: nat) -> int {
    let at = match cursor {
        Some(place) => {
            let n = words_before(text, place) as int;
            if place > 0 && !is_blank(text[place - 1]) && place < text.len() && !is_blank(
                text[place],
            ) {
                if n > 0 {
                    n - 1
                } else {
                    0
                }
            } else {
                n
            }
        },
        None => words as int / 2,
    };
    let most = if words > 2 {
        words - 1
    } else {
        1
    };
    if at < 1 {
        1
    } else if at > most {
        most
    } else {
        at
    }
}

/// What's typed once a caption is split: hand-typed text is cut where the cursor was.
pub open spec fn split_text(
    edits: Map<usize, Seq<char>>,
    c: CaptionModel,
    cursor: Option<int>,
    word: usize,
    w: usize,
) -> Option<Seq<char>> {
    let cut = match (edits.get(c.first), cursor) {
        (Some(t), Some(place)) => match same_byte(t, c.text, place) {
            Some(k) => Some((trimmed_end(t.take(k)), trimmed_start(t.skip(k)))),
            None => None,
        },
        _ => None,
    };
    match cut {
        Some((front, back)) => if w == word {
            Some(back)
        } else if w == c.first {
            Some(front)
        } else {
            edits.get(w)
        },
        None => if w == c.first {
            None
        } else {
            edits.get(w)
        },
    }
}

impl CaptionsUi {
    /// The cursor's place in the text of the line `i`, if it's there.
    pub open spec fn cursor_in(&self, i: usize, text: Seq<char>) -> Option<int> {
        match self.cursor {
            Some((ci, chars)) => if ci == i {
                Some(cursor_place(text, chars as int))
            } else {
                None
            },
            None => None,
        }
    }

    /// The words that say something among those of a caption.
    fn saying(&self, first: usize, past: usize) -> (out: Vec<usize>)
        requires
            self.transcript is Some,
        ensures
            out@ == spoken_words(self.transcript->0.words@, first as int, past as int),
    {
        let t = self.transcript.as_ref().unwrap();
        let mut out: Vec<usize> = Vec::new();
        let mut w: usize = first;
        assert(out@ =~= spoken_words(t.words@, first as int, w as int));
        while w < past
            invariant
                self.transcript == Some(*t),
                first <= w,
                first <= past ==> w <= past,
                first > past ==> w == first,
                out@ == spoken_words(t.words@, first as int, w as int),
            decreases past - w,
        {
            if w < t.words.len() && !is_empty_text(t.words[w].text.as_str()) {
                out.push(w);
            }
            w = w + 1;
        }
        assert(out@ =~= spoken_words(t.words@, first as int, past as int));
        out
    }

    /// Splits line `i` where the cursor is: the word it's in (or before) starts the new
    /// caption; without a cursor in this caption, it's split in the middle. Hand-typed
    /// text is cut where the cursor was, not thrown away. The word the new caption starts
    /// with; `None` when there's nothing to split.
    pub fn split(&mut self, i: usize, c: &Caption) -> (out: Option<usize>)
        requires
            old(self).transcript is Some,
            c.text@.len() < 0x1000_0000_0000_0000,
            typed(old(self).edits@).get(c.first) matches Some(t) ==> t.len()
                < 0x1000_0000_0000_0000,
        ensures
            final(self).same_but_captions(*old(self)),
            final(self).colors() == old(self).colors(),
            final(self).times == old(self).times,
            final(self).removed == old(self).removed,
            final(self).picked == old(self).picked,
            final(self).focus == old(self).focus,
            final(self).manual == old(self).manual,
            final(self).history() == old(self).history(),
            ({
                let words = spoken_words(
                    old(self).transcript->0.words@,
                    c.first as int,
                    c.past as int,
                );
                let cursor = old(self).cursor_in(i, c.text@);
                let at = split_before(c.text@, cursor, words.len());
                if at < words.len() {
                    &&& out == Some(words[at])
                    &&& final(self).cursor is None
                    &&& forall|w: usize| #[trigger]
                        typed(final(self).edits@).get(w) == split_text(
                            typed(old(self).edits@),
                            c@,
                            cursor,
                            words[at],
                            w,
                        )
                } else {
                    &&& out is None
                    &&& final(self).edits == old(self).edits
                    &&& final(self).cursor == old(self).cursor
                }
            }),
    {
        let words = self.saying(c.first, c.past);
        let chars = chars_of(c.text.as_str());
        let m: usize = words.len();
        let place: Option<usize> = match self.cursor {
            Some((ci, n)) => {
                if ci == i {
                    if n < chars.len() {
                        Some(n)
                    } else {
                        Some(chars.len())
                    }
                } else {
                    None
                }
            },
            None => None,
        };
        let ghost cursor = self.cursor_in(i, c.text@);
        let mut at: usize = match place {
            Some(p) => {
                let n: usize = count_words(&chars, p);
                if p > 0 && !blank(chars[p - 1]) && p < chars.len() && !blank(chars[p]) && n > 0 {
                    n - 1
                } else {
                    n
                }
            },
            None => m / 2,
        };
        let most: usize = if m > 2 {
            m - 1
        } else {
            1
        };
        if at < 1 {
            at = 1;
        }
        if at > most {
            at = most;
        }
        assert(at == split_before(c.text@, cursor, words@.len()));
        if at >= m {
            return None;
        }
        let word: usize = words[at];
        let ghost had = self.edits@;
        let ghost was = typed(had);
        let old_text: Option<Vec<char>> = match self.edits.get(&c.first) {
            Some(s) => Some(chars_of(s.as_str())),
            None => None,
        };
        let _ = self.edits.remove(&c.first);
        let mut cut: Option<(String, String)> = None;
        if let (Some(t), Some(p)) = (&old_text, place) {
            if let Some(k) = find_byte(t, &chars, p) {
                let front = text_between(t, 0, k);
                let back = text_between(t, k, t.len());
                assert(front@ =~= t@.take(k as int));
                assert(back@ =~= t@.skip(k as int));
                cut = Some((trim_end(front.as_str()), trim_start(back.as_str())));
            }
        }
        match cut {
            Some((front, back)) => {
                let _ = self.edits.insert(c.first, front);
                let _ = self.edits.insert(word, back);
            },
            None => {},
        }
        self.cursor = None;
        Some(word)
    }

    /// Joins line `i` (`a`) with the one below it (`b`): what was typed into either is
    /// kept, one after the other. The word the join is at.
    pub fn join(&mut self, a: &Caption, b: &Caption) -> (out: usize)
        requires
            a.first != b.first,
        ensures
            final(self).same_but_captions(*old(self)),
            final(self).colors() == old(self).colors(),
            final(self).times == old(self).times,
            final(self).removed == old(self).removed,
            final(self).picked == old(self).picked,
            final(self).focus == old(self).focus,
            final(self).manual == old(self).manual,
            final(self).history() == old(self).history(),
            final(self).cursor is None,
            out == b.first,
            ({
                let was = typed(old(self).edits@);
                typed(final(self).edits@) == if was.contains_key(a.first) || was.contains_key(
                    b.first,
                ) {
                    was.remove(b.first).insert(
                        a.first,
                        trimmed_end(a.text@) + " "@ + trimmed_start(b.text@),
                    )
                } else {
                    was
                }
            }),
    {
        let by_hand = self.edits.contains_key(&a.first) || self.edits.contains_key(&b.first);
        let _ = self.edits.remove(&b.first);
        if by_hand {
            let front = trim_end(a.text.as_str());
            let back = trim_start(b.text.as_str());
            let _ = self.edits.insert(a.first, join3(front.as_str(), " ", back.as_str()));
        }
        self.cursor = None;
        b.first
    }

    /// Takes line `i` of `lines` out: by its words, so it stays out if the rest is
    /// regrouped. The first word of the line that takes its place, where the caret goes.
    pub fn remove(&mut self, lines: &Vec<Line>, i: usize) -> (out: Option<usize>)
        requires
            i < lines@.len(),
        ensures
            final(self).same_but_captions(*old(self)),
            final(self).colors() == old(self).colors(),
            final(self).times == old(self).times,
            final(self).manual == old(self).manual,
            final(self).history() == old(self).history(),
            final(self).cursor is None,
            final(self).focus == if i + 2 <= lines@.len() {
                i as int
            } else if lines@.len() >= 2 {
                lines@.len() - 2
            } else {
                0
            },
            forall|w: usize| #[trigger]
                final(self).removed@.contains(w) <==> old(self).removed@.contains(w)
                    || lines@[i as int].caption.first <= w < lines@[i as int].caption.past,
            final(self).picked@ == old(self).picked@.remove(i),
            final(self).edits@ == old(self).edits@.remove(lines@[i as int].caption.first),
            out == if i + 1 < lines@.len() {
                Some(lines@[i + 1].caption.first)
            } else if i > 0 {
                Some(lines@[i - 1].caption.first)
            } else {
                None
            },
    {
        let c = &lines[i].caption;
        let n: usize = lines.len();
        let ghost was = self.removed@;
        let mut w: usize = c.first;
        while w < c.past
            invariant
                c.first <= w,
                c.first <= c.past ==> w <= c.past,
                c.first > c.past ==> w == c.first,
                forall|v: usize| #[trigger]
                    self.removed@.contains(v) <==> was.contains(v) || c.first <= v < w,
                self.same_but_captions(*old(self)),
                self.colors() == old(self).colors(),
                self.times == old(self).times,
                self.manual == old(self).manual,
                self.history() == old(self).history(),
                self.edits == old(self).edits,
                self.picked == old(self).picked,
            decreases c.past - w,
        {
            let _ = self.removed.insert(w);
            w = w + 1;
        }
        let _ = self.edits.remove(&c.first);
        let _ = self.picked.remove(&i);
        self.cursor = None;
        self.focus = if n >= 2 {
            if i < n - 1 {
                i
            } else {
                n - 2
            }
        } else {
            0
        };
        if i + 1 < n {
            Some(lines[i + 1].caption.first)
        } else if i > 0 {
            Some(lines[i - 1].caption.first)
        } else {
            None
        }
    }
}

// ---- coloring ----

/// The word is in one of the lines picked.
pub open spec fn in_picked(lines: Seq<Line>, picked: Set<usize>, w: int) -> bool {
    exists|k: usize| #[trigger]
        picked.contains(k) && k < lines.len() && lines[k as int].caption.first <= w
            < lines[k as int].caption.past
}

/// The word is in one of the first `n` lines of the list.
spec fn in_first(lines: Seq<Line>, picked: Seq<usize>, w: int, n: int) -> bool {
    exists|k: int|
        0 <= k < n && (#[trigger] picked[k]) < lines.len() && lines[picked[k] as int].caption.first
            <= w < lines[picked[k] as int].caption.past
}

/// All of the list is all that's picked.
proof fn all_listed(lines: Seq<Line>, picked: Seq<usize>, w: int)
    ensures
        in_first(lines, picked, w, picked.len() as int) == in_picked(lines, picked.to_set(), w),
{
    if in_first(lines, picked, w, picked.len() as int) {
        let k = choose|k: int|
            0 <= k < picked.len() && (#[trigger] picked[k]) < lines.len()
                && lines[picked[k] as int].caption.first <= w
                < lines[picked[k] as int].caption.past;
        assert(picked.to_set().contains(picked[k]));
    }
    if in_picked(lines, picked.to_set(), w) {
        let v = choose|v: usize| #[trigger]
            picked.to_set().contains(v) && v < lines.len() && lines[v as int].caption.first <= w
                < lines[v as int].caption.past;
        let k = choose|k: int| 0 <= k < picked.len() && picked[k] == v;
        assert(picked[k] < lines.len());
    }
}

/// Gives the words from `first` up to `past` the color.
fn color_words(colors: &mut Vec<Option<u64>>, first: usize, past: usize, color: Option<u64>)
    requires
        past <= old(colors)@.len(),
    ensures
        final(colors)@.len() == old(colors)@.len(),
        forall|w: int|
            0 <= w < old(colors)@.len() ==> (#[trigger] final(colors)@[w]) == if first <= w < past {
                color
            } else {
                old(colors)@[w]
            },
{
    let ghost was = colors@;
    let mut w: usize = first;
    while w < past
        invariant
            was == old(colors)@,
            past <= was.len(),
            first <= w,
            first <= past ==> w <= past,
            first > past ==> w == first,
            colors@.len() == was.len(),
            forall|v: int|
                0 <= v < was.len() ==> (#[trigger] colors@[v]) == if first <= v < w {
                    color
                } else {
                    was[v]
                },
        decreases past - w,
    {
        colors.set(w, color);
        w = w + 1;
    }
}

impl CaptionsUi {
    /// Gives every word of a line the color.
    pub fn color_line(&mut self, line: &Line, color: u64)
        requires
            old(self).transcript matches Some(t) ==> line.caption.past <= t.colors@.len(),
        ensures
            final(self).same_but_captions(*old(self)),
            final(self).edits == old(self).edits,
            final(self).times == old(self).times,
            final(self).removed == old(self).removed,
            final(self).picked == old(self).picked,
            final(self).focus == old(self).focus,
            final(self).manual == old(self).manual,
            final(self).cursor == old(self).cursor,
            final(self).history() == old(self).history(),
            final(self).colors() == Seq::new(
                old(self).colors().len(),
                |w: int|
                    if line.caption.first <= w < line.caption.past {
                        Some(color)
                    } else {
                        old(self).colors()[w]
                    },
            ),
    {
        let transcript = self.transcript.take();
        if let Some(t) = transcript {
            let mut colors = t.colors;
            color_words(&mut colors, line.caption.first, line.caption.past, Some(color));
            self.transcript = Some(Transcript { words: t.words, colors, language: t.language });
        }
    }

    /// Gives every word of the picked lines the color (`None`: plain white).
    pub fn color_picked(&mut self, lines: &Vec<Line>, color: Option<u64>)
        requires
            old(self).transcript matches Some(t) ==> forall|k: int|
                0 <= k < lines@.len() ==> (#[trigger] lines@[k]).caption.past <= t.colors@.len(),
        ensures
            final(self).same_but_captions(*old(self)),
            final(self).edits == old(self).edits,
            final(self).times == old(self).times,
            final(self).removed == old(self).removed,
            final(self).picked == old(self).picked,
            final(self).focus == old(self).focus,
            final(self).manual == old(self).manual,
            final(self).cursor == old(self).cursor,
            final(self).history() == old(self).history(),
            final(self).colors().len() == old(self).colors().len(),
            forall|w: int|
                0 <= w < old(self).colors().len() ==> (#[trigger] final(self).colors()[w]) == if in_picked(
                    lines@,
                    old(self).picked@,
                    w,
                ) {
                    color
                } else {
                    old(self).colors()[w]
                },
    {
        let transcript = self.transcript.take();
        match transcript {
            None => {
                self.transcript = None;
            },
            Some(t) => {
                let ghost was = t.colors@;
                let mut colors = t.colors;
                let picked = words_in(&self.picked);
                let mut k: usize = 0;
                while k < picked.len()
                    invariant
                        forall|j: int|
                            0 <= j < lines@.len() ==> (#[trigger] lines@[j]).caption.past
                                <= was.len(),
                        k <= picked@.len(),
                        colors@.len() == was.len(),
                        forall|w: int|
                            0 <= w < was.len() ==> (#[trigger] colors@[w]) == if in_first(
                                lines@,
                                picked@,
                                w,
                                k as int,
                            ) {
                                color
                            } else {
                                was[w]
                            },
                    decreases picked@.len() - k,
                {
                    let i: usize = picked[k];
                    let ghost before = colors@;
                    if i < lines.len() {
                        let c = &lines[i].caption;
                        color_words(&mut colors, c.first, c.past, color);
                    }
                    assert forall|w: int| 0 <= w < was.len() implies (#[trigger] colors@[w])
                        == if in_first(lines@, picked@, w, k + 1) {
                        color
                    } else {
                        was[w]
                    } by {
                        assert(before[w] == if in_first(lines@, picked@, w, k as int) {
                            color
                        } else {
                            was[w]
                        });
                        if in_first(lines@, picked@, w, k as int) {
                            let j = choose|j: int|
                                0 <= j < k && (#[trigger] picked@[j]) < lines@.len()
                                    && lines@[picked@[j] as int].caption.first <= w
                                    < lines@[picked@[j] as int].caption.past;
                            assert(picked@[j] < lines@.len());
                        }
                        if i < lines@.len() && lines@[i as int].caption.first <= w
                            < lines@[i as int].caption.past {
                            assert(picked@[k as int] < lines@.len());
                            assert(in_first(lines@, picked@, w, k + 1));
                        } else if in_first(lines@, picked@, w, k + 1) {
                            let j = choose|j: int|
                                0 <= j < k + 1 && (#[trigger] picked@[j]) < lines@.len()
                                    && lines@[picked@[j] as int].caption.first <= w
                                    < lines@[picked@[j] as int].caption.past;
                            assert(j < k);
                            assert(in_first(lines@, picked@, w, k as int));
                        }
                    }
                    k = k + 1;
                }
                proof {
                    assert forall|w: int| 0 <= w < was.len() implies (#[trigger] colors@[w])
                        == if in_picked(lines@, self.picked@, w) {
                        color
                    } else {
                        was[w]
                    } by {
                        all_listed(lines@, picked@, w);
                    }
                }
                self.transcript = Some(Transcript { words: t.words, colors, language: t.language });
            },
        }
    }

    /// Ticks or unticks a line.
    pub fn pick(&mut self, i: usize, ticked: bool)
        ensures
            final(self).same_but_captions(*old(self)),
            final(self).colors() == old(self).colors(),
            final(self).edits == old(self).edits,
            final(self).times == old(self).times,
            final(self).removed == old(self).removed,
            final(self).focus == old(self).focus,
            final(self).manual == old(self).manual,
            final(self).cursor == old(self).cursor,
            final(self).history() == old(self).history(),
            final(self).picked@ == if ticked {
                old(self).picked@.insert(i)
            } else {
                old(self).picked@.remove(i)
            },
    {
        if ticked {
            let _ = self.picked.insert(i);
        } else {
            let _ = self.picked.remove(&i);
        }
    }

    /// A line is typed into: `text` is what it says now.
    pub fn retype(&mut self, line: &Line, text: String)
        ensures
            final(self).same_but_captions(*old(self)),
            final(self).colors() == old(self).colors(),
            final(self).times == old(self).times,
            final(self).removed == old(self).removed,
            final(self).picked == old(self).picked,
            final(self).focus == old(self).focus,
            final(self).manual == old(self).manual,
            final(self).cursor == old(self).cursor,
            final(self).history() == old(self).history(),
            final(self).edits@ == old(self).edits@.insert(line.caption.first, text),
    {
        let _ = self.edits.insert(line.caption.first, text);
    }

    /// Ticks all of `lines` lines, or none.
    pub fn pick_all(&mut self, lines: usize, ticked: bool)
        ensures
            final(self).same_but_captions(*old(self)),
            final(self).colors() == old(self).colors(),
            final(self).edits == old(self).edits,
            final(self).times == old(self).times,
            final(self).removed == old(self).removed,
            final(self).focus == old(self).focus,
            final(self).manual == old(self).manual,
            final(self).cursor == old(self).cursor,
            final(self).history() == old(self).history(),
            forall|k: usize| #[trigger]
                final(self).picked@.contains(k) <==> ticked && k < lines,
    {
        let mut picked: BTreeSet<usize> = BTreeSet::new();
        if ticked {
            let mut i: usize = 0;
            while i < lines
                invariant
                    i <= lines,
                    forall|k: usize| #[trigger] picked@.contains(k) <==> k < i,
                decreases lines - i,
            {
                let _ = picked.insert(i);
                i = i + 1;
            }
        }
        self.picked = picked;
    }

    /// Puts every removed line back.
    pub fn restore(&mut self)
        ensures
            final(self).same_but_captions(*old(self)),
            final(self).removed@ == Set::<usize>::empty(),
            final(self).colors() == old(self).colors(),
            final(self).edits == old(self).edits,
            final(self).times == old(self).times,
            final(self).picked == old(self).picked,
            final(self).focus == old(self).focus,
            final(self).manual == old(self).manual,
            final(self).cursor == old(self).cursor,
            final(self).history() == old(self).history(),
    {
        self.removed = BTreeSet::new();
    }

    /// How many of the grouped captions were taken out.
    pub fn gone_count(&self, groups: &Vec<Caption>) -> (out: usize)
        ensures
            out == groups@.len() - views(groups@).filter(still_there(self.removed@)).len(),
    {
        let ghost all = views(groups@);
        let ghost p = still_there(self.removed@);
        let mut out: usize = 0;
        let mut i: usize = 0;
        assert(all.take(0).filter(p) =~= Seq::empty()) by {
            reveal_with_fuel(Seq::filter, 1);
        }
        while i < groups.len()
            invariant
                all == views(groups@),
                p == still_there(self.removed@),
                i <= groups@.len(),
                out <= i,
                out == i - all.take(i as int).filter(p).len(),
            decreases groups@.len() - i,
        {
            assert(all[i as int] == groups@[i as int]@);
            proof {
                filter_step(all, p, i as int);
            }
            if self.is_gone(&groups[i]) {
                out = out + 1;
            }
            i = i + 1;
        }
        proof {
            take_all(all);
        }
        out
    }

    /// As `was`, with the text typed and the times set by hand forgotten and nothing ticked.
    pub open spec fn regroups(self, was: CaptionsUi) -> bool {
        &&& self.same_but_captions(was)
        &&& self.colors() == was.colors()
        &&& self.edits@ == Map::<usize, String>::empty()
        &&& self.times@ == Map::<usize, Span>::empty()
        &&& self.picked@ == Set::<usize>::empty()
        &&& self.removed == was.removed
        &&& self.focus == was.focus
        &&& self.manual == was.manual
        &&& self.cursor == was.cursor
        &&& self.history() == was.history()
    }

    /// The grouping changed: hand-typed text and hand-set times belong to the old one.
    pub fn regrouped(&mut self)
        ensures
            final(self).regroups(*old(self)),
    {
        self.edits = BTreeMap::new();
        self.times = BTreeMap::new();
        self.picked = BTreeSet::new();
    }

    /// Takes in the grouping rules as they were and as they are now: what was typed and set
    /// by hand goes only where a rule changed. Whether one did.
    pub fn rules_are(&mut self, before: Grouping, now: Grouping) -> (out: bool)
        ensures
            out == (before != now),
            out ==> final(self).regroups(*old(self)),
            !out ==> *final(self) == *old(self),
    {
        if before != now {
            self.regrouped();
            true
        } else {
            false
        }
    }

    /// Discards the captions, to transcribe again.
    pub fn listen_again(&mut self)
        ensures
            final(self).transcript is None,
            final(self).manual == Manual(0),
            final(self).edits@ == Map::<usize, String>::empty(),
            final(self).times@ == Map::<usize, Span>::empty(),
            final(self).removed@ == Set::<usize>::empty(),
            final(self).picked@ == Set::<usize>::empty(),
            final(self).focus == old(self).focus,
            final(self).cursor == old(self).cursor,
            final(self).job == old(self).job,
            final(self).rendering == old(self).rendering,
            final(self).step == old(self).step,
            final(self).step_index == old(self).step_index,
            final(self).progress == old(self).progress,
            final(self).log == old(self).log,
            final(self).error == old(self).error,
            final(self).whole_timeline == old(self).whole_timeline,
            final(self).audio == old(self).audio,
            final(self).length == old(self).length,
            final(self).offset == old(self).offset,
            final(self).history() == old(self).history(),
    {
        self.transcript = None;
        self.manual = Manual(0);
        self.edits = BTreeMap::new();
        self.times = BTreeMap::new();
        self.removed = BTreeSet::new();
        self.picked = BTreeSet::new();
    }
}

/// Restoring the removed lines puts all of them back.
pub proof fn restored_lines_are_back(groups: Seq<CaptionModel>)
    requires
        forall|k: int| 0 <= k < groups.len() ==> (#[trigger] groups[k]).first < groups[k].past,
    ensures
        groups.filter(still_there(Set::empty())) == groups,
{
    let p = still_there(Set::empty());
    assert forall|k: int| 0 <= k < groups.len() implies #[trigger] p(groups[k]) by {
        assert(!Set::<usize>::empty().contains(groups[k].first));
    }
    all_kept(groups, p);
}

proof fn all_kept<T>(s: Seq<T>, p: spec_fn(T) -> bool)
    requires
        forall|k: int| 0 <= k < s.len() ==> p(#[trigger] s[k]),
    ensures
        s.filter(p) == s,
    decreases s.len(),
{
    reveal_with_fuel(Seq::filter, 1);
    if s.len() > 0 {
        all_kept(s.drop_last(), p);
        assert(s.drop_last().push(s.last()) =~= s);
    } else {
        assert(s.filter(p) =~= s);
    }
}

// ---- going from line to line ----

/// The line in focus, when there are `lines` of them.
pub fn focus_within(focus: usize, lines: usize) -> (out: usize)
    ensures
        out == if lines == 0 {
            0
        } else if focus < lines {
            focus as int
        } else {
            lines - 1
        },
{
    if lines == 0 {
        0
    } else if focus < lines {
        focus
    } else {
        lines - 1
    }
}

/// The line one before or after, kept on the list.
pub fn step_focus(focus: usize, lines: usize, back: bool, on: bool) -> (out: usize)
    requires
        focus < lines,
    ensures
        out < lines,
        out == if on && !back && focus + 1 < lines {
            focus + 1
        } else if back && !on && focus > 0 {
            focus - 1
        } else {
            focus as int
        },
{
    if on && !back && focus + 1 < lines {
        focus + 1
    } else if back && !on && focus > 0 {
        focus - 1
    } else {
        focus
    }
}

/// Keys pressed in a line's text box.
#[derive(Copy, Clone, Debug, PartialEq, Eq, Structural)]
pub struct Keys {
    pub backspace: bool,
    pub delete: bool,
    pub up: bool,
    pub down: bool,
    pub left: bool,
    pub right: bool,
}

/// What they do.
#[derive(Copy, Clone, Debug, PartialEq, Eq, Structural)]
pub enum KeyAction {
    /// The text box's own business.
    Typing,
    /// Backspace at the very start: join with the line above.
    JoinAbove,
    /// Delete at the very end: join with the line below.
    JoinBelow,
    Above,
    Below,
    /// Left at the very start: on into the end of the line above.
    EndOfAbove,
    /// Right at the very end: on into the start of the line below.
    StartOfBelow,
}

/// What keys do in line `i` of `lines`, its text `length` characters long, the cursor at
/// `was` before them.
pub open spec fn key_action_of(k: Keys, i: int, lines: int, was: Option<usize>, length: usize) -> KeyAction {
    let at_start = was == Some(0usize) && i > 0;
    let at_end = was == Some(length) && i + 1 < lines;
    if k.backspace && at_start {
        KeyAction::JoinAbove
    } else if k.delete && at_end {
        KeyAction::JoinBelow
    } else if k.down && !k.up && i + 1 < lines {
        KeyAction::Below
    } else if k.up && !k.down && i > 0 {
        KeyAction::Above
    } else if k.left && at_start {
        KeyAction::EndOfAbove
    } else if k.right && at_end {
        KeyAction::StartOfBelow
    } else {
        KeyAction::Typing
    }
}

/// What keys do in line `i` of `lines`.
pub fn key_action(k: Keys, i: usize, lines: usize, was: Option<usize>, length: usize) -> (out: KeyAction)
    requires
        i < lines,
    ensures
        out == key_action_of(k, i as int, lines as int, was, length),
{
    let (start, end) = match was {
        Some(at) => (at == 0, at == length),
        None => (false, false),
    };
    let at_start = start && i > 0;
    let at_end = end && i + 1 < lines;
    if k.backspace && at_start {
        KeyAction::JoinAbove
    } else if k.delete && at_end {
        KeyAction::JoinBelow
    } else if k.down && !k.up && i + 1 < lines {
        KeyAction::Below
    } else if k.up && !k.down && i > 0 {
        KeyAction::Above
    } else if k.left && at_start {
        KeyAction::EndOfAbove
    } else if k.right && at_end {
        KeyAction::StartOfBelow
    } else {
        KeyAction::Typing
    }
}

/// The keys never lead off the list.
pub proof fn keys_stay_on_the_list(k: Keys, i: int, lines: int, was: Option<usize>, length: usize)
    requires
        0 <= i < lines,
    ensures
        ({
            let a = key_action_of(k, i, lines, was, length);
            &&& a is JoinAbove || a is Above || a is EndOfAbove ==> i > 0
            &&& a is JoinBelow || a is Below || a is StartOfBelow ==> i + 1 < lines
        }),
{
}

// ---- timing ----

/// The times a line gets: never inside out, never before the recording, a frame at least.
pub open spec fn set_span(start: Time, end: Time, moved_start: bool, frame: int) -> (int, int) {
    let from = if start.0 < 0 {
        0
    } else {
        start.0 as int
    };
    let to = if end.0 < from + frame {
        from + frame
    } else {
        end.0 as int
    };
    (
        if moved_start && to - frame < from {
            to - frame
        } else {
            from
        },
        to,
    )
}

impl CaptionsUi {
    /// Sets line `i`'s times by hand (its start or end moved): never inside out, never
    /// before the recording. The seams are kept: the line above ends where this one
    /// starts, the line below starts where this one ends.
    pub fn set_timing(
        &mut self,
        lines: &Vec<Line>,
        i: usize,
        start: Time,
        end: Time,
        moved_start: bool,
        moved_end: bool,
        frame: Time,
    )
        requires
            i < lines@.len(),
            moved_start || moved_end,
            0 < frame.0,
            reckonable(frame),
            reckonable(start),
            reckonable(end),
            forall|k: int|
                0 <= k < lines@.len() ==> reckonable((#[trigger] lines@[k]).caption.span.start)
                    && reckonable(lines@[k].caption.span.end),
            forall|a: int, b: int|
                0 <= a < b < lines@.len() ==> (#[trigger] lines@[a]).caption.first < (
                #[trigger] lines@[b]).caption.first,
        ensures
            final(self).same_but_captions(*old(self)),
            final(self).colors() == old(self).colors(),
            final(self).edits == old(self).edits,
            final(self).removed == old(self).removed,
            final(self).picked == old(self).picked,
            final(self).focus == old(self).focus,
            final(self).manual == old(self).manual,
            final(self).cursor == old(self).cursor,
            final(self).history() == old(self).history(),
            ({
                let (from, to) = set_span(start, end, moved_start, frame.0 as int);
                let above = moved_start && i > 0 && lines@[i - 1].caption.span.end.0 != from;
                let below = moved_end && i + 1 < lines@.len() && lines@[i + 1].caption.span.start.0
                    != to;
                forall|w: usize| #[trigger]
                    final(self).times@.get(w) == if below && w == lines@[i + 1].caption.first {
                        Some(
                            Span {
                                start: Time(to as i64),
                                end: Time(
                                    if lines@[i + 1].caption.span.end.0 < to + frame.0 {
                                        (to + frame.0) as i64
                                    } else {
                                        lines@[i + 1].caption.span.end.0
                                    },
                                ),
                            },
                        )
                    } else if above && w == lines@[i - 1].caption.first {
                        Some(
                            Span {
                                start: Time(
                                    if from - frame.0 < lines@[i - 1].caption.span.start.0 {
                                        (from - frame.0) as i64
                                    } else {
                                        lines@[i - 1].caption.span.start.0
                                    },
                                ),
                                end: Time(from as i64),
                            },
                        )
                    } else if w == lines@[i as int].caption.first {
                        Some(Span { start: Time(from as i64), end: Time(to as i64) })
                    } else {
                        old(self).times@.get(w)
                    }
            }),
    {
        let mut from: i64 = if start.0 < 0 {
            0
        } else {
            start.0
        };
        let to: i64 = if end.0 < from + frame.0 {
            from + frame.0
        } else {
            end.0
        };
        if moved_start && to - frame.0 < from {
            from = to - frame.0;
        }
        let n: usize = lines.len();
        let _ = self.times.insert(
            lines[i].caption.first,
            Span { start: Time(from), end: Time(to) },
        );
        if moved_start && i > 0 && lines[i - 1].caption.span.end.0 != from {
            let above = &lines[i - 1].caption;
            assert(reckonable(lines@[i - 1].caption.span.start));
            let at: i64 = if from - frame.0 < above.span.start.0 {
                from - frame.0
            } else {
                above.span.start.0
            };
            let _ = self.times.insert(above.first, Span { start: Time(at), end: Time(from) });
            assert(lines@[i - 1].caption.first < lines@[i as int].caption.first);
        }
        if moved_end && i + 1 < n && lines[i + 1].caption.span.start.0 != to {
            let below = &lines[i + 1].caption;
            assert(reckonable(lines@[i + 1].caption.span.end));
            let at: i64 = if below.span.end.0 < to + frame.0 {
                to + frame.0
            } else {
                below.span.end.0
            };
            let _ = self.times.insert(below.first, Span { start: Time(to), end: Time(at) });
            assert(lines@[i as int].caption.first < lines@[i + 1].caption.first);
        }
    }

    /// Puts the times the transcript gives back.
    pub fn by_the_words(&mut self, first: usize)
        ensures
            final(self).same_but_captions(*old(self)),
            final(self).colors() == old(self).colors(),
            final(self).edits == old(self).edits,
            final(self).removed == old(self).removed,
            final(self).picked == old(self).picked,
            final(self).focus == old(self).focus,
            final(self).manual == old(self).manual,
            final(self).cursor == old(self).cursor,
            final(self).history() == old(self).history(),
            final(self).times@ == old(self).times@.remove(first),
    {
        let _ = self.times.remove(&first);
    }

    /// Starts line `i` where the line above ends.
    pub fn close_the_gap(&mut self, lines: &Vec<Line>, i: usize, end: Time, frame: Time)
        requires
            i < lines@.len(),
            reckonable(frame),
            forall|k: int| 0 <= k < lines@.len() ==> reckonable((#[trigger] lines@[k]).caption.span.end),
        ensures
            final(self).same_but_captions(*old(self)),
            final(self).colors() == old(self).colors(),
            final(self).edits == old(self).edits,
            final(self).removed == old(self).removed,
            final(self).picked == old(self).picked,
            final(self).focus == old(self).focus,
            final(self).manual == old(self).manual,
            final(self).cursor == old(self).cursor,
            final(self).history() == old(self).history(),
            final(self).times@ == if i > 0 {
                let edge = lines@[i - 1].caption.span.end;
                old(self).times@.insert(
                    lines@[i as int].caption.first,
                    Span { start: edge, end: end.spec_most(Time((edge.0 + frame.0) as i64)) },
                )
            } else {
                old(self).times@
            },
    {
        if i > 0 {
            let edge = lines[i - 1].caption.span.end;
            assert(reckonable(lines@[i - 1].caption.span.end));
            let _ = self.times.insert(
                lines[i].caption.first,
                Span { start: edge, end: end.most(Time(edge.0 + frame.0)) },
            );
        }
    }
}

/// Times set by hand are never inside out and never before the recording: a line lasts a
/// frame at least.
pub proof fn times_are_never_inside_out(start: Time, end: Time, moved_start: bool, frame: int)
    requires
        frame > 0,
    ensures
        ({
            let (from, to) = set_span(start, end, moved_start, frame);
            0 <= from && from + frame <= to
        }),
{
}

} // verus!
