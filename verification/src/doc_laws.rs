//! What holds of times and ranges, of what's looked up in a project, and of how captions and
//! effects are set.
use crate::bin::{shown_places, shows, use_of, CardModel, Pointer};
use crate::caption_preview::{into_of, preview_item, MOMENT, REST};
use crate::caption_style::{is_box, is_marker, new_box, new_marker, MarkerLook};
use crate::caption_track::{a_setting_is_stored, stores};
use crate::caption_window::Place;
use crate::captions::{recorded, typed_into, with_step, HistoryModel, SnapshotModel, PAUSE, STEPS};
use crate::cards::{role_at, timing_in, Timing, BRIEFEST};
use crate::crop::{cursor_for, handle_at, is_corner, Cursor, Side};
use crate::deps::not_running;
use crate::doc::{
    param_of, track_from, track_of, transition_from, EffectRole, ItemModel, ParamModel,
    SequenceModel, Source, Time, TimeRange, TrackId, TransitionModel,
};
use vstd::prelude::*;

verus! {

// ---- times ----

/// The earlier of two moments is one of them and no later than either; so for the later.
pub proof fn the_earlier_and_the_later(a: Time, b: Time)
    ensures
        a.spec_least(b).0 <= a.0 && a.spec_least(b).0 <= b.0,
        a.spec_least(b) == a || a.spec_least(b) == b,
        a.spec_most(b).0 >= a.0 && a.spec_most(b).0 >= b.0,
        a.spec_most(b) == a || a.spec_most(b) == b,
        a.spec_least(b).0 + a.spec_most(b).0 == a.0 + b.0,
{
}

/// A range holds the moments from its start up to its end, as many as it's long.
pub proof fn ranges_hold_their_length(r: TimeRange, t: Time)
    ensures
        r.ends() - r.start.0 == r.duration.0,
        r.holds(t) <==> 0 <= t.0 - r.start.0 < r.duration.0,
        r.holds(r.start) <==> r.duration.0 > 0,
{
}

/// Two ranges meet just where they share a moment.
pub proof fn ranges_meet_where_they_share_a_moment(a: TimeRange, b: TimeRange)
    requires
        a.duration.0 > 0,
        b.duration.0 > 0,
    ensures
        a.meets(b) <==> exists|t: Time| #[trigger] a.holds(t) && b.holds(t),
        a.meets(b) == b.meets(a),
{
    if a.meets(b) {
        let t = a.start.spec_most(b.start);
        assert(a.holds(t) && b.holds(t));
    }
    if exists|t: Time| #[trigger] a.holds(t) && b.holds(t) {
        let t = choose|t: Time| #[trigger] a.holds(t) && b.holds(t);
        assert(a.holds(t) && b.holds(t));
    }
}

// ---- lookups ----

/// The track found is the first with its id.
pub proof fn the_track_found_has_the_id(s: SequenceModel, id: TrackId, from: int)
    requires
        0 <= from,
    ensures
        match track_from(s, id, from) {
            Some(t) => from <= t < s.tracks.len() && s.tracks[t].id == id && forall|k: int|
                from <= k < t ==> (#[trigger] s.tracks[k]).id != id,
            None => forall|k: int| from <= k < s.tracks.len() ==> (#[trigger] s.tracks[k]).id != id,
        },
        track_of(s, id) == track_from(s, id, 0),
    decreases s.tracks.len() - from,
{
    if from < s.tracks.len() && s.tracks[from].id != id {
        the_track_found_has_the_id(s, id, from + 1);
    }
}

/// The transition found is the first on that end of the clip.
pub proof fn the_transition_found_is_on_that_end(
    ts: Seq<TransitionModel>,
    at_start: bool,
    from: int,
)
    requires
        0 <= from,
    ensures
        match transition_from(ts, at_start, from) {
            Some(params) => exists|i: int|
                from <= i < ts.len() && (#[trigger] ts[i]).at_start == at_start && ts[i].params
                    == params && forall|k: int|
                    from <= k < i ==> (#[trigger] ts[k]).at_start != at_start,
            None => forall|k: int| from <= k < ts.len() ==> (#[trigger] ts[k]).at_start != at_start,
        },
    decreases ts.len() - from,
{
    if from < ts.len() {
        if ts[from].at_start == at_start {
            assert(ts[from].params == transition_from(ts, at_start, from)->0);
        } else {
            the_transition_found_is_on_that_end(ts, at_start, from + 1);
            if let Some(params) = transition_from(ts, at_start, from + 1) {
                let i = choose|i: int|
                    from + 1 <= i < ts.len() && (#[trigger] ts[i]).at_start == at_start
                        && ts[i].params == params && forall|k: int|
                        from + 1 <= k < i ==> (#[trigger] ts[k]).at_start != at_start;
                assert(ts[i].at_start == at_start);
            }
        }
    }
}

// ---- effects ----

/// An effect that's set to play at a time does, and shows so: for as long as was asked, but no
/// longer than the clip and never too short to notice.
pub proof fn timing_reads_back(timing: Timing, duration: Time, length: Time)
    ensures
        timing_in(role_at(timing, duration, length)).0 == timing,
        timing != Timing::Whole ==> ({
            let d = timing_in(role_at(timing, duration, length)).1;
            &&& d.0 >= BRIEFEST
            &&& BRIEFEST <= duration.0 <= length.0 ==> d == duration
            &&& BRIEFEST <= length.0 <= duration.0 ==> d == length
            &&& duration.0 <= BRIEFEST || length.0 <= BRIEFEST ==> d.0 == BRIEFEST
        }),
        timing_in(EffectRole::Reversed { duration }) == (Timing::Outro, duration),
        timing_in(EffectRole::Out { duration }) == (Timing::Outro, duration),
        timing_in(EffectRole::In { duration }) == (Timing::Intro, duration),
        timing_in(EffectRole::Passive).0 == Timing::Whole,
        timing == Timing::Whole <==> role_at(timing, duration, length) is Passive,
        timing == Timing::Intro <==> role_at(timing, duration, length) is In,
        timing == Timing::Outro <==> role_at(timing, duration, length) is Out,
{
}

/// A new box is one, is on, and has its shape; a new marker has its shape, no color but the one
/// for the spoken word, and that under its key.
pub proof fn new_boxes_are_boxes(background: Seq<char>, key: Seq<char>, shape: Source, look: MarkerLook)
    requires
        key != "shape"@,
        key != "color"@,
    ensures
        is_box(background)(new_box(background, shape)),
        new_box(background, shape).enabled,
        param_of(new_box(background, shape).params, "shape"@) == Some(shape),
        is_marker(background, key)(new_marker(background, key, look)),
        new_marker(background, key, look).enabled,
        new_marker(background, key, look).role is Passive,
        param_of(new_marker(background, key, look).params, key) == Some(look.lit),
        param_of(new_marker(background, key, look).params, "shape"@) == Some(look.shape),
        param_of(new_marker(background, key, look).params, "color"@) == Some(look.clear),
{
    reveal_with_fuel(crate::doc::param_from, 4);
    reveal_with_fuel(crate::seqs::first_from, 3);
    reveal_strlit("shape");
    reveal_strlit("color");
    assert("shape"@[0] == 's');
    assert("color"@[0] == 'c');
    let two = seq![
        ParamModel { id: "shape"@, source: look.shape },
        ParamModel { id: "color"@, source: look.clear },
    ];
    let made = new_marker(background, key, look).params;
    assert(made =~= two.push(ParamModel { id: key, source: look.lit }));
}

// ---- captions ----

/// The preview is in the middle of what's shown, unless it follows the spoken word: then it
/// runs with the clock, rests at the end, and starts again.
pub proof fn the_preview_runs_with_the_clock(now: int, length: int)
    requires
        0 <= now,
        MOMENT < length,
    ensures
        2 * into_of(false, now, length) <= length < 2 * into_of(false, now, length) + 2,
        now <= length - MOMENT ==> into_of(true, now, length) == now,
        length - MOMENT < now < length + REST ==> into_of(true, now, length) == length - MOMENT,
        into_of(true, now + (length + REST), length) == into_of(true, now, length),
{
    let period = length + REST;
    vstd::arithmetic::div_mod::lemma_mod_add_multiples_vanish(now, period);
    assert((now + period) % period == now % period) by {
        assert(now + period == period + now);
    }
    if now < period {
        vstd::arithmetic::div_mod::lemma_small_mod(now as nat, period as nat);
    }
}

/// The clip the preview draws looks like the style, says what it's given to say, and plays
/// for the time it's given.
pub proof fn the_preview_says_its_text(
    style: ItemModel,
    start: Time,
    length: Time,
    times: Seq<TimeRange>,
    setting: Seq<char>,
    content: Source,
)
    ensures
        ({
            let it = preview_item(style, start, length, times, setting, content);
            &&& it.range.start == start && it.range.duration == length
            &&& it.word_times == times
            &&& it.effects == style.effects && it.kind == style.kind && it.enabled == style.enabled
            &&& stores(it.params, setting, content)
        }),
{
    a_setting_is_stored(style.params, setting, content);
}

/// One more step to undo is the last one; those before it stay, the oldest going where there'd
/// be too many.
pub proof fn the_last_step_is_undone_first(undo: Seq<SnapshotModel>, step: SnapshotModel, k: int)
    requires
        undo.len() <= STEPS,
    ensures
        with_step(undo, step).len() > 0,
        with_step(undo, step).last() == step,
        undo.len() < STEPS ==> with_step(undo, step).len() == undo.len() + 1,
        undo.len() == STEPS ==> with_step(undo, step).len() == STEPS,
        ({
            let gone = undo.len() + 1 - with_step(undo, step).len();
            gone <= k < undo.len() ==> with_step(undo, step)[k - gone] == undo[k]
        }),
{
}

/// A change is what's undone next, and ends what could be redone. Typing on in one caption is
/// one step until there's a pause.
pub proof fn a_change_ends_what_could_be_redone(
    h: HistoryModel,
    current: SnapshotModel,
    now: u64,
    w: usize,
)
    requires
        h.committed is Some,
        h.committed->0 != current,
    ensures
        ({
            let after = recorded(h, current, now, false);
            &&& after.redo.len() == 0
            &&& after.committed == Some(current)
            &&& after.last_change == now
            &&& after.typing == typed_into(h.committed->0, current)
            &&& typed_into(h.committed->0, current) == Some(w) && h.typing == Some(w) && now
                < h.last_change + PAUSE ==> after.undo == h.undo
            &&& typed_into(h.committed->0, current) is None || h.typing != typed_into(
                h.committed->0,
                current,
            ) || now >= h.last_change + PAUSE ==> after.undo.len() > 0 && after.undo.last()
                == h.committed->0
        }),
        recorded(HistoryModel { committed: None, ..h }, current, now, false) == (HistoryModel {
            committed: Some(current),
            ..h
        }),
{
}

/// Typing into one caption is when only its text is different.
pub proof fn typing_is_into_one_caption(a: SnapshotModel, b: SnapshotModel, w: usize, v: usize)
    requires
        a.manual == b.manual,
        a.removed == b.removed,
        a.times == b.times,
        a.colors == b.colors,
        a.prefs == b.prefs,
        a.edits.get(w) != b.edits.get(w),
    ensures
        (forall|x: usize| x != w ==> #[trigger] a.edits.get(x) == b.edits.get(x)) ==> typed_into(
            a,
            b,
        ) == Some(w),
        v != w && a.edits.get(v) != b.edits.get(v) ==> typed_into(a, b) is None,
{
    if forall|x: usize| x != w ==> #[trigger] a.edits.get(x) == b.edits.get(x) {
        assert(crate::captions::differs(a, b, w));
        assert forall|x: usize| #[trigger] crate::captions::differs(a, b, x) implies x == w by {
            if x != w {
                assert(a.edits.get(x) == b.edits.get(x));
            }
        }
        assert(crate::captions::one_change(a, b, w));
        let y = typed_into(a, b)->0;
        assert(crate::captions::one_change(a, b, y));
    }
    if v != w && a.edits.get(v) != b.edits.get(v) {
        assert(crate::captions::differs(a, b, w));
        assert(crate::captions::differs(a, b, v));
        assert forall|x: usize| !crate::captions::one_change(a, b, x) by {
        }
    }
}

/// Undoing and redoing that captions were added opens and closes their window again.
pub proof fn the_window_comes_back_with_undo(p: Place)
    requires
        p.open,
    ensures
        !p.closed(true).open,
        p.closed(true).reopened().open,
        !p.closed(true).reopened().away().open,
        p.closed(true).reopened().away().reopened().open,
        !p.kept ==> !p.closed(false).reopened().open,
{
}

// ---- the bin, and cropping ----

/// The cards shown are all that belong there, in the order they come.
pub proof fn all_cards_that_belong_are_shown(
    cards: Seq<CardModel>,
    needle: Seq<char>,
    folder: Seq<char>,
    n: int,
)
    requires
        0 <= n <= cards.len() <= usize::MAX,
    ensures
        ({
            let places = shown_places(cards, needle, folder, n);
            &&& forall|a: int, b: int|
                0 <= a < b < places.len() ==> (#[trigger] places[a]) < (#[trigger] places[b])
            &&& forall|k: int|
                0 <= k < places.len() ==> (#[trigger] places[k]) < n && shows(
                    cards[places[k] as int],
                    needle,
                    folder,
                )
            &&& forall|i: int|
                0 <= i < n && shows(#[trigger] cards[i], needle, folder) ==> places.contains(
                    i as usize,
                )
        }),
    decreases n,
{
    if n > 0 {
        all_cards_that_belong_are_shown(cards, needle, folder, n - 1);
        let before = shown_places(cards, needle, folder, n - 1);
        let places = shown_places(cards, needle, folder, n);
        assert forall|i: int| 0 <= i < n && shows(#[trigger] cards[i], needle, folder) implies
            places.contains(i as usize) by {
            if i < n - 1 {
                let k = choose|k: int| 0 <= k < before.len() && before[k] == i as usize;
                assert(places[k] == i as usize);
            } else {
                assert(places[before.len() as int] == i as usize);
            }
        }
    }
}

/// A click on the plus or a double click adds a card's clip; a click on its listen button plays
/// it and adds nothing.
pub proof fn clicks_do_one_thing(card: CardModel, at: Pointer)
    ensures
        use_of(card, at).audition ==> card.sound && at.clicked && at.over_listen,
        card.sound && at.clicked && at.over_listen ==> use_of(card, at).audition && !use_of(
            card,
            at,
        ).add,
        !card.missing && at.clicked && at.over_plus && !at.over_listen ==> use_of(card, at).add,
        !card.missing && at.double_clicked && !at.over_listen ==> use_of(card, at).add,
        use_of(card, at).add ==> !card.missing && (at.double_clicked || (at.clicked
            && at.over_plus)),
        use_of(card, at).drag <==> !card.missing && at.drag_started,
{
}

/// The first four handles are the corners, the rest the edges; each moves the sides it's on,
/// never both of a pair.
pub proof fn handles_move_the_sides_they_are_on(i: int, j: int)
    requires
        0 <= i < 8,
        0 <= j < 8,
    ensures
        is_corner(handle_at(i)) <==> i < 4,
        handle_at(i).edges.left <==> handle_at(i).x == Side::Near,
        handle_at(i).edges.right <==> handle_at(i).x == Side::Far,
        handle_at(i).edges.top <==> handle_at(i).y == Side::Near,
        handle_at(i).edges.bottom <==> handle_at(i).y == Side::Far,
        i != j ==> handle_at(i).edges != handle_at(j).edges,
{
}

/// The pointer shows which way a handle moves: along its edge's direction, or on the diagonal
/// through its corner.
pub proof fn pointers_show_the_way(i: int)
    requires
        0 <= i < 8,
    ensures
        ({
            let h = handle_at(i);
            let c = cursor_for(h.edges);
            &&& c == Cursor::Horizontal <==> h.x != Side::Middle && h.y == Side::Middle
            &&& c == Cursor::Vertical <==> h.x == Side::Middle && h.y != Side::Middle
            &&& c == Cursor::NwSe <==> is_corner(h) && h.x == h.y
            &&& c == Cursor::NeSw <==> is_corner(h) && h.x != h.y
        }),
{
}

/// The programs that are missing are all that don't run, in their order.
pub proof fn programs_that_do_not_run_are_missing(
    tools: Seq<Seq<char>>,
    runs: Seq<bool>,
    n: int,
) -> (at: Seq<int>)
    requires
        0 <= n <= tools.len(),
        tools.len() == runs.len(),
    ensures
        at.len() == not_running(tools, runs, n).len(),
        forall|a: int, b: int| 0 <= a < b < at.len() ==> (#[trigger] at[a]) < (#[trigger] at[b]),
        forall|k: int|
            0 <= k < at.len() ==> 0 <= (#[trigger] at[k]) < n && !runs[at[k]] && not_running(
                tools,
                runs,
                n,
            )[k] == tools[at[k]],
        forall|i: int| 0 <= i < n && !#[trigger] runs[i] ==> at.contains(i),
    decreases n,
{
    if n == 0 {
        Seq::empty()
    } else {
        let had = programs_that_do_not_run_are_missing(tools, runs, n - 1);
        let at = if runs[n - 1] {
            had
        } else {
            had.push(n - 1)
        };
        assert forall|k: int| 0 <= k < at.len() implies 0 <= (#[trigger] at[k]) < n
            && !runs[at[k]] && not_running(tools, runs, n)[k] == tools[at[k]] by {
            if k < had.len() {
                assert(at[k] == had[k]);
            }
        }
        assert forall|a: int, b: int| 0 <= a < b < at.len() implies (#[trigger] at[a]) < (
        #[trigger] at[b]) by {
            assert(at[a] == had[a]);
            if b < had.len() {
                assert(at[b] == had[b]);
            }
        }
        assert forall|i: int| 0 <= i < n && !#[trigger] runs[i] implies at.contains(i) by {
            if i < n - 1 {
                let k = choose|k: int| 0 <= k < had.len() && had[k] == i;
                assert(at[k] == i);
            } else {
                assert(at[had.len() as int] == i);
            }
        }
        at
    }
}

} // verus!
