//! What holds of the captions as they're put right by hand: the laws of the lines.
use crate::caption_lines::{
    gone, key_action_of, set_span, split_before, split_text, spoken_words, still_there,
    CaptionModel, Keys, LineModel,
};
use crate::captions::{CaptionsUi, Word};
use crate::doc::Time;
use crate::seqs::kept_places;
use crate::text::{
    all_blank, is_blank, same_byte, trimmed_end, trimmed_start, words_before,
};
use vstd::prelude::*;

verus! {

/// The words of a caption that count are all of its words that say something, in order.
pub proof fn all_that_is_said_counts(words: Seq<Word>, first: int, past: int)
    requires
        0 <= first,
        past <= usize::MAX,
    ensures
        ({
            let said = spoken_words(words, first, past);
            &&& forall|a: int, b: int|
                0 <= a < b < said.len() ==> (#[trigger] said[a]) < (#[trigger] said[b])
            &&& forall|k: int|
                0 <= k < said.len() ==> first <= (#[trigger] said[k]) < past && said[k]
                    < words.len() && !all_blank(words[said[k] as int].text@)
            &&& forall|w: usize|
                first <= w < past && w < words.len() && !all_blank(words[w as int].text@)
                    ==> #[trigger] said.contains(w)
        }),
    decreases past - first,
{
    if past > first {
        all_that_is_said_counts(words, first, past - 1);
        let before = spoken_words(words, first, past - 1);
        let said = spoken_words(words, first, past);
        assert forall|w: usize|
            first <= w < past && w < words.len() && !all_blank(
                words[w as int].text@,
            ) implies #[trigger] said.contains(w) by {
            if w < past - 1 {
                assert(before.contains(w));
                let k = choose|k: int| 0 <= k < before.len() && before[k] == w;
                assert(said[k] == w);
            } else {
                assert(said.last() == w);
            }
        }
    }
}

/// How many words have ended by place `n`.
pub open spec fn words_ended(s: Seq<char>, n: int) -> nat
    decreases n,
{
    if n <= 0 {
        0
    } else {
        words_ended(s, n - 1) + if n <= s.len() && !is_blank(s[n - 1]) && (n == s.len() || is_blank(
            s[n],
        )) {
            1nat
        } else {
            0nat
        }
    }
}

/// Of the words that have started, all but the one the cursor is in have ended.
proof fn started_words_end(s: Seq<char>, n: int)
    requires
        0 <= n <= s.len(),
    ensures
        words_before(s, n) == words_ended(s, n) + if 0 < n < s.len() && !is_blank(s[n - 1])
            && !is_blank(s[n]) {
            1nat
        } else {
            0nat
        },
    decreases n,
{
    if n > 0 {
        started_words_end(s, n - 1);
    }
}

/// A caption is split after the words that have ended where the cursor is, or in the middle
/// without a cursor. Both halves get a word; one with fewer than two words can't be split.
pub proof fn captions_are_split_at_the_cursor(text: Seq<char>, cursor: Option<int>, words: nat)
    requires
        cursor matches Some(place) ==> 0 <= place <= text.len(),
    ensures
        ({
            let at = split_before(text, cursor, words);
            let meant = match cursor {
                Some(place) => words_ended(text, place) as int,
                None => words as int / 2,
            };
            &&& words >= 2 ==> 1 <= at < words
            &&& words < 2 ==> at >= words
            &&& 1 <= meant < words ==> at == meant
            &&& meant < 1 ==> at == 1
            &&& words >= 2 && meant >= words ==> at == words - 1
        }),
{
    if let Some(place) = cursor {
        started_words_end(text, place);
    }
}

/// What's cut off at the end is blank.
pub proof fn the_end_is_blank(s: Seq<char>)
    ensures
        trimmed_end(s).len() <= s.len(),
        trimmed_end(s) == s.take(trimmed_end(s).len() as int),
        all_blank(s.skip(trimmed_end(s).len() as int)),
        trimmed_end(s).len() > 0 ==> !is_blank(trimmed_end(s).last()),
    decreases s.len(),
{
    let n = trimmed_end(s).len() as int;
    if s.len() > 0 && is_blank(s.last()) {
        let rest = s.drop_last();
        the_end_is_blank(rest);
        assert(s.take(n) =~= rest.take(n));
        assert forall|i: int| 0 <= i < s.skip(n).len() implies is_blank(
            #[trigger] s.skip(n)[i],
        ) by {
            if i < rest.skip(n).len() {
                assert(rest.skip(n)[i] == s.skip(n)[i]);
            }
        }
    } else {
        assert(s.take(n) =~= s);
    }
}

/// What's cut off at the start is blank.
pub proof fn the_start_is_blank(s: Seq<char>)
    ensures
        trimmed_start(s).len() <= s.len(),
        trimmed_start(s) == s.skip(s.len() - trimmed_start(s).len()),
        all_blank(s.take(s.len() - trimmed_start(s).len())),
        trimmed_start(s).len() > 0 ==> !is_blank(trimmed_start(s)[0]),
    decreases s.len(),
{
    let n = s.len() - trimmed_start(s).len();
    if s.len() > 0 && is_blank(s[0]) {
        let rest = s.drop_first();
        the_start_is_blank(rest);
        assert(s.skip(n) =~= rest.skip(n - 1));
        assert forall|i: int| 0 <= i < s.take(n).len() implies is_blank(
            #[trigger] s.take(n)[i],
        ) by {
            if i > 0 {
                assert(rest.take(n - 1)[i - 1] == s.take(n)[i]);
            }
        }
    } else {
        assert(s.skip(0) =~= s);
    }
}

/// Splitting a line that was typed by hand loses nothing of it but blanks: the first half
/// keeps what's before the cursor, the second gets what's after it. The other lines keep what
/// was typed into them.
pub proof fn splitting_keeps_what_was_typed(
    edits: Map<usize, Seq<char>>,
    c: CaptionModel,
    place: int,
    word: usize,
    k: int,
    w: usize,
)
    requires
        edits.contains_key(c.first),
        word != c.first,
        same_byte(edits[c.first], c.text, place) == Some(k),
        0 <= k <= edits[c.first].len(),
    ensures
        ({
            let t = edits[c.first];
            let front = split_text(edits, c, Some(place), word, c.first);
            let back = split_text(edits, c, Some(place), word, word);
            &&& front is Some && back is Some
            &&& front->0.len() <= k
            &&& back->0.len() <= t.len() - k
            &&& t.take(front->0.len() as int) == front->0
            &&& t.skip(t.len() - back->0.len()) == back->0
            &&& all_blank(t.subrange(front->0.len() as int, t.len() - back->0.len()))
        }),
        w != c.first && w != word ==> split_text(edits, c, Some(place), word, w) == edits.get(w),
{
    let t = edits[c.first];
    let (a, b) = (t.take(k), t.skip(k));
    the_end_is_blank(a);
    the_start_is_blank(b);
    let front = trimmed_end(a);
    let back = trimmed_start(b);
    assert(edits.get(c.first) == Some(t));
    assert(t.take(front.len() as int) =~= front);
    assert(t.skip(t.len() - back.len()) =~= back);
    let mid = t.subrange(front.len() as int, t.len() - back.len());
    assert forall|i: int| 0 <= i < mid.len() implies is_blank(#[trigger] mid[i]) by {
        if front.len() + i < k {
            assert(a.skip(front.len() as int)[i] == mid[i]);
        } else {
            assert(b.take(b.len() - back.len())[front.len() + i - k] == mid[i]);
        }
    }
}

/// Splitting without a cursor in the line (or where the cursor has no place in what was
/// typed) goes back to what was heard there; the other lines keep what was typed into them.
pub proof fn splitting_without_a_place_untypes(
    edits: Map<usize, Seq<char>>,
    c: CaptionModel,
    cursor: Option<int>,
    word: usize,
    w: usize,
)
    requires
        !edits.contains_key(c.first) || cursor is None || same_byte(
            edits[c.first],
            c.text,
            cursor->0,
        ) is None,
    ensures
        split_text(edits, c, cursor, word, w) == if w == c.first {
            None
        } else {
            edits.get(w)
        },
{
}

/// A key does something only where it makes sense: Backspace joins and Left leaves at the very
/// start, Delete joins and Right leaves at the very end, Up and Down go to the next line if
/// there's one. All else is typing.
pub proof fn keys_do_what_they_say(k: Keys, i: int, lines: int, was: Option<usize>, length: usize)
    requires
        0 <= i < lines,
    ensures
        ({
            let a = key_action_of(k, i, lines, was, length);
            &&& a is JoinAbove <==> k.backspace && was == Some(0usize) && i > 0
            &&& a is JoinBelow ==> k.delete && was == Some(length)
            &&& a is Above ==> k.up && !k.down
            &&& a is Below ==> k.down && !k.up
            &&& a is EndOfAbove ==> k.left && was == Some(0usize)
            &&& a is StartOfBelow ==> k.right && was == Some(length)
            &&& k.delete && was == Some(length) && i + 1 < lines ==> a is JoinBelow || a is JoinAbove
            &&& !k.backspace && !k.delete ==> {
                &&& k.up && !k.down && i > 0 ==> a is Above
                &&& k.down && !k.up && i + 1 < lines ==> a is Below
                &&& !k.up && !k.down && k.left && was == Some(0usize) && i > 0 ==> a is EndOfAbove
                &&& !k.up && !k.down && !k.left && k.right && was == Some(length) && i + 1
                    < lines ==> a is StartOfBelow
            }
        }),
{
}

/// A line's times are as they were set, but it never starts before the recording and lasts a
/// frame at least.
pub proof fn times_are_as_they_were_set(start: Time, end: Time, moved_start: bool, frame: int)
    requires
        0 < frame,
    ensures
        ({
            let (from, to) = set_span(start, end, moved_start, frame);
            &&& 0 <= from
            &&& from + frame <= to
            &&& start.0 >= 0 ==> from == start.0
            &&& start.0 < 0 ==> from == 0
            &&& end.0 >= from + frame ==> to == end.0
            &&& end.0 < from + frame ==> to == from + frame
        }),
{
}

/// The lines are the captions that still have a word, in their order, each with what was typed
/// in place of what was heard, the times set by hand in place of those of its words, and the
/// color of its first word. `at` are the captions' places.
pub proof fn lines_are_what_is_left(ui: CaptionsUi, groups: Seq<CaptionModel>) -> (at: Seq<int>)
    requires
        ui.transcript is Some,
    ensures
        at.len() == ui.lines_of(groups).len(),
        forall|a: int, b: int| 0 <= a < b < at.len() ==> (#[trigger] at[a]) < (#[trigger] at[b]),
        forall|k: int|
            0 <= k < at.len() ==> 0 <= (#[trigger] at[k]) < groups.len() && is_line_of(
                ui,
                ui.lines_of(groups)[k],
                groups[at[k]],
            ),
        forall|i: int|
            0 <= i < groups.len() && has_a_word(ui, #[trigger] groups[i]) ==> at.contains(i),
{
    let p = still_there(ui.removed@);
    let at = kept_places(groups, p);
    assert forall|k: int| 0 <= k < at.len() implies 0 <= (#[trigger] at[k]) < groups.len()
        && is_line_of(ui, ui.lines_of(groups)[k], groups[at[k]]) by {
        assert(p(groups[at[k]]));
        let c = groups[at[k]];
        assert(!gone(c, ui.removed@));
    }
    assert forall|i: int| 0 <= i < groups.len() && has_a_word(ui, #[trigger] groups[i]) implies
        at.contains(i) by {
        let c = groups[i];
        let w = choose|w: usize| c.first <= w < c.past && !#[trigger] ui.removed@.contains(w);
        assert(!ui.removed@.contains(w));
        assert(p(groups[i]));
    }
    at
}

/// Not all words of the caption were taken out.
pub open spec fn has_a_word(ui: CaptionsUi, c: CaptionModel) -> bool {
    exists|w: usize| c.first <= w < c.past && !#[trigger] ui.removed@.contains(w)
}

/// The line shows the caption as it was put right by hand.
pub open spec fn is_line_of(ui: CaptionsUi, line: LineModel, c: CaptionModel) -> bool {
    &&& has_a_word(ui, c)
    &&& line.caption.first == c.first
    &&& line.caption.past == c.past
    &&& line.caption.text == if ui.edits@.contains_key(c.first) {
        ui.edits@[c.first]@
    } else {
        c.text
    }
    &&& line.caption.span == if ui.times@.contains_key(c.first) {
        ui.times@[c.first]
    } else {
        c.span
    }
    &&& line.color == if ui.transcript is Some && c.first < ui.transcript->0.colors@.len() {
        ui.transcript->0.colors@[c.first as int]
    } else {
        None
    }
}

} // verus!
