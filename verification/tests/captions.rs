//! The Captions window: history, lines, jobs, looks, preview and the track they become.
use openatelier::caption_jobs::{language_name, listen_error, listen_range, JobMsg, ListenError, RenderMsg, LOG};
use openatelier::caption_lines::{focus_within, key_action, step_focus, Caption, KeyAction, Keys, Line};
use openatelier::caption_preview::{
    follow, follows_the_word, moment, play_from, shown, stretch, with_preview, Drawn, PlayFrom, Player, Pointer, Preview, LEAST, SAMPLE,
};
use openatelier::caption_style::{
    box_at, changed_look, copy_look, leave_off, marker_at, others, same_item, set_on_effect, title_name, titles, toggle_box,
    toggle_marker, toggle_spoken, BoxShape, MarkerLook,
};
use openatelier::caption_track::{add_captions, set_setting, word_times, Look, SHORTEST};
use openatelier::caption_window::{
    add_texts, chosen_model, color_hint, first_shown, history_key, job_texts, made_from, megabytes, model_label, set_up_texts,
    setting_up, EngineInfo, Fate, HistoryKey, Place,
};
use openatelier::captions::{CaptionPrefs, CaptionsUi, Grouping, Manual, Mode, Share, Span, Transcript, Word, Work};
use openatelier::doc::{
    get_param, EffectId, EffectInstance, EffectRole, Item, ItemId, ItemKind, Op, Param, SeqId, Sequence, Source, Time, TimeRange,
    Track, TrackId, TrackKind, Transition, SECOND,
};
use std::collections::{BTreeMap, BTreeSet};

fn prefs() -> CaptionPrefs {
    CaptionPrefs {
        model: "base".to_string(),
        language: "".to_string(),
        enhance_voice: false,
        grouping: Grouping {
            mode: Mode::Phrases,
            max_words: 6,
            max_length: Time(3 * SECOND),
            pause: Time(SECOND / 2),
            shortest: Time(SECOND / 2),
            uppercase: false,
            strip_punctuation: false,
        },
        style: None,
    }
}

fn text_at(edits: &BTreeMap<usize, String>, word: usize) -> Option<&str> {
    edits.get(&word).map(|s| s.as_str())
}

fn secs(s: i64) -> Time {
    Time(s * SECOND)
}

fn source(stored: u64) -> Source {
    Source { stored, keyed: false }
}

fn caption(first: usize, past: usize, text: &str, start: i64, end: i64) -> Caption {
    Caption { first, past, text: text.to_string(), span: Span { start: secs(start), end: secs(end) } }
}

fn line(first: usize, past: usize, text: &str, start: i64, end: i64) -> Line {
    Line { caption: caption(first, past, text, start, end), color: None }
}

fn word(text: &str, start: i64, end: i64) -> Word {
    Word { text: text.to_string(), start: secs(start), end: secs(end) }
}

fn heard(texts: &[&str]) -> CaptionsUi {
    let mut c = CaptionsUi::new(true);
    c.job = Some(Work::Listen);
    let words = texts.iter().enumerate().map(|(i, t)| word(t, i as i64, i as i64 + 1)).collect();
    c.ended(Ok(()), words, "en".to_string());
    c
}

fn item(id: u64, kind: ItemKind, start: i64, length: i64) -> Item {
    Item::new(ItemId(id), "clip", kind, TimeRange { start: secs(start), duration: secs(length) })
}

fn timeline(tracks: Vec<Track>) -> Sequence {
    Sequence {
        id: SeqId(1),
        name: "Main".to_string(),
        rate_num: 30,
        rate_den: 1,
        active: 0,
        variants: Vec::new(),
        tracks,
        background: item(u64::MAX, ItemKind::Solid, 0, 0),
        dividers: 0,
    }
}

/// Typing into one caption is one undo step; a split is another; undoing them and redoing
/// comes back to the same state, and a grouping change undoes too.
#[test]
fn caption_changes_undo_in_steps() {
    let mut c = CaptionsUi::new(true);
    let mut prefs = prefs();
    c.record(&prefs, 0, false);
    for (t, text) in [(100_000, "h"), (200_000, "he"), (300_000, "hey")] {
        c.edits.insert(0, text.to_string());
        c.record(&prefs, t, false);
    }
    // Which words are split from those before them, by number.
    c.manual = Manual(3);
    c.record(&prefs, 400_000, false);
    // A slider being dragged: nothing until it's let go.
    prefs.grouping.max_words += 2;
    c.record(&prefs, 500_000, true);
    assert_eq!(c.undo.len(), 2);
    c.record(&prefs, 600_000, false);
    assert_eq!(c.undo.len(), 3);

    let back = c.step_history(false).unwrap();
    assert_eq!(back.prefs.grouping.max_words, prefs.grouping.max_words - 2, "the grouping comes back");
    c.step_history(false).unwrap();
    assert_eq!(c.manual, Manual::default(), "the split is undone");
    assert_eq!(text_at(&c.edits, 0), Some("hey"), "but not the typing");
    c.step_history(false).unwrap();
    assert!(c.edits.is_empty(), "the whole run of typing is one step");
    assert!(c.step_history(false).is_none());

    c.step_history(true).unwrap();
    c.step_history(true).unwrap();
    assert_eq!(text_at(&c.edits, 0), Some("hey"));
    assert_ne!(c.manual, Manual::default(), "redo splits again");
}

/// Removing a line is a step of its own: undo puts its words back, and a removal doesn't
/// coalesce into the typing before it.
#[test]
fn removing_a_line_undoes_on_its_own() {
    let mut c = CaptionsUi::new(true);
    let prefs = prefs();
    c.record(&prefs, 0, false);
    c.edits.insert(0, "hey".to_string());
    c.record(&prefs, 100_000, false);
    c.removed.extend(3..6);
    c.record(&prefs, 200_000, false);
    assert_eq!(c.undo.len(), 2);
    c.step_history(false).unwrap();
    assert!(c.removed.is_empty(), "the line comes back");
    assert_eq!(text_at(&c.edits, 0), Some("hey"), "and the typing stays");
    c.step_history(true).unwrap();
    assert_eq!(c.removed.len(), 3, "redo takes it out again");
}

#[test]
fn a_pause_ends_a_run_of_typing() {
    let mut c = CaptionsUi::new(true);
    let prefs = prefs();
    c.record(&prefs, 0, false);
    c.edits.insert(0, "a".to_string());
    c.record(&prefs, 100_000, false);
    c.edits.insert(0, "ab".to_string());
    c.record(&prefs, 5_000_000, false);
    assert_eq!(c.undo.len(), 2);
}

#[test]
fn a_transcript_starts_the_captions_over() {
    let mut c = heard(&["one", "two"]);
    assert!(c.job.is_none() && c.error.is_none());
    assert_eq!(c.transcript.as_ref().map(|t| t.words.len()), Some(2));
    c.job = Some(Work::Listen);
    c.ended(Ok(()), Vec::new(), "".to_string());
    assert_eq!(c.error.as_deref(), Some("No speech was heard in that stretch."));
    c.job = Some(Work::Install);
    c.ended(Err("no disk".to_string()), Vec::new(), "".to_string());
    assert_eq!(c.error.as_deref(), Some("no disk"));
}

#[test]
fn jobs_are_followed() {
    let mut c = CaptionsUi::new(false);
    c.start(Work::Install);
    assert!(c.busy());
    c.heard(JobMsg::Step { index: 1, label: "Getting Python".to_string() });
    assert_eq!(job_texts(&c, 4), ("Getting Python".to_string(), "step 2 of 4".to_string()));
    c.heard(JobMsg::Progress(Share { done: 1, of: 2 }));
    assert_eq!(c.progress, Some(Share { done: 1, of: 2 }));
    for i in 0..LOG + 5 {
        c.heard(JobMsg::Log(format!("line {i}")));
    }
    assert_eq!(c.log.len(), LOG);
    assert_eq!(c.log[0], "line 5");
    assert_eq!(first_shown(c.log.len()), 160);
}

#[test]
fn listening_starts_once_the_sound_is_mixed() {
    let mut c = CaptionsUi::new(true);
    assert_eq!(c.listen(true, false, &Vec::new(), secs(10)), Some((secs(0), secs(10))));
    assert!(c.rendering && c.transcript.is_none());
    assert_eq!(c.rendered(RenderMsg::Pending), None);
    assert_eq!(c.rendered(RenderMsg::Done { path: "a.wav".to_string(), length: secs(10) }), Some("a.wav".to_string()));
    assert_eq!(c.job, Some(Work::Listen));
    assert_eq!(job_texts(&c, 1).1, "Loading the model…");
    c.heard(JobMsg::Heard(secs(4)));
    assert_eq!(c.progress, Some(Share { done: secs(4).0, of: secs(10).0 }));
    assert_eq!(job_texts(&c, 1).1, "Transcribing: captions arrive as it goes.");
    let mut d = CaptionsUi::new(true);
    d.rendering = true;
    d.rendered(RenderMsg::Stopped);
    assert_eq!(d.error.as_deref(), Some("mixing the sound down stopped unexpectedly"));
    d.rendering = true;
    d.rendered(RenderMsg::Failed("disk full".to_string()));
    assert_eq!(d.error.as_deref(), Some("disk full"));
}

#[test]
fn what_to_listen_to() {
    let ranges = vec![
        TimeRange { start: secs(5), duration: secs(2) },
        TimeRange { start: secs(1), duration: secs(3) },
    ];
    assert_eq!(listen_range(true, false, true, &ranges, secs(60)), Ok((secs(1), secs(7))));
    assert_eq!(listen_range(true, true, true, &ranges, secs(60)), Ok((secs(0), secs(60))));
    assert_eq!(listen_range(false, true, true, &ranges, secs(60)), Err(ListenError::NoSound));
    assert_eq!(listen_range(true, true, false, &ranges, secs(0)), Err(ListenError::Empty));
    let mut c = CaptionsUi::new(false);
    assert_eq!(c.listen(true, true, &Vec::new(), secs(60)), None);
    assert_eq!(c.error.as_deref(), Some(listen_error(ListenError::Empty)));
    assert_eq!(language_name("uk"), "Ukrainian");
    assert_eq!(language_name("xx"), "xx");
}

#[test]
fn lines_show_what_was_changed_by_hand() {
    let mut c = heard(&["one", "two", "three", "four"]);
    let groups = vec![caption(0, 2, "one two", 0, 2), caption(2, 4, "three four", 2, 4)];
    c.edits.insert(2, "3 4".to_string());
    let lines = c.current_captions(&groups);
    assert_eq!(lines.len(), 2);
    assert_eq!(lines[1].caption.text, "3 4");
    let next = c.remove(&lines, 0);
    assert_eq!(next, Some(2));
    let left = c.current_captions(&groups);
    assert_eq!(left.len(), 1);
    assert_eq!(c.gone_count(&groups), 1);
    c.restore();
    assert_eq!(c.current_captions(&groups).len(), 2);
}

#[test]
fn splitting_at_the_cursor_moves_the_word_it_is_in() {
    let mut c = heard(&["one", "two", "three"]);
    let cap = caption(0, 3, "one two three", 0, 3);
    // In the middle of "three": that word moves down.
    c.cursor = Some((0, 10));
    assert_eq!(c.split(0, &cap), Some(2));
    // No cursor in this caption: in the middle.
    c.cursor = None;
    assert_eq!(c.split(0, &cap), Some(1));
    let one = caption(0, 1, "one", 0, 1);
    assert_eq!(c.split(0, &one), None);
}

#[test]
fn typed_text_is_cut_and_joined() {
    let mut c = heard(&["one", "two", "three"]);
    c.retype(&line(0, 3, "one two three", 0, 3), "uno dos tres".to_string());
    c.cursor = Some((0, 4));
    let cap = caption(0, 3, "uno dos tres", 0, 3);
    assert_eq!(c.split(0, &cap), Some(1));
    assert_eq!(text_at(&c.edits, 0), Some("uno"));
    assert_eq!(text_at(&c.edits, 1), Some("dos tres"));
    let (a, b) = (caption(0, 1, "uno", 0, 1), caption(1, 3, "dos tres", 1, 3));
    assert_eq!(c.join(&a, &b), 1);
    assert_eq!(text_at(&c.edits, 0), Some("uno dos tres"));
    assert_eq!(text_at(&c.edits, 1), None);
}

#[test]
fn coloring_goes_by_words() {
    let mut c = heard(&["one", "two", "three"]);
    let lines = vec![line(0, 2, "one two", 0, 2), line(2, 3, "three", 2, 3)];
    c.pick(1, true);
    c.color_picked(&lines, Some(7));
    assert_eq!(c.transcript.as_ref().map(|t| t.colors.clone()), Some(vec![None, None, Some(7)]));
    c.color_line(&lines[0], 9);
    assert_eq!(c.transcript.as_ref().map(|t| t.colors.clone()), Some(vec![Some(9), Some(9), Some(7)]));
    c.pick_all(2, true);
    assert_eq!(c.picked, BTreeSet::from([0, 1]));
    c.pick_all(2, false);
    assert!(c.picked.is_empty());
    c.listen_again();
    assert!(c.transcript.is_none());
}

#[test]
fn timing_by_hand_keeps_the_seams() {
    let mut c = heard(&["one", "two", "three"]);
    let lines = vec![line(0, 1, "one", 0, 2), line(1, 2, "two", 2, 4), line(2, 3, "three", 4, 6)];
    let frame = Time(SECOND / 30);
    c.set_timing(&lines, 1, secs(1), secs(4), true, false, frame);
    assert_eq!(c.times.get(&1).map(|s| s.start), Some(secs(1)));
    assert_eq!(c.times.get(&0).map(|s| s.end), Some(secs(1)), "the line above ends where this one starts");
    assert!(c.times.get(&2).is_none());
    // Inside out: it stays at least a frame long.
    c.set_timing(&lines, 1, secs(3), secs(1), true, true, frame);
    let now = *c.times.get(&1).unwrap();
    assert!(now.start.0 < now.end.0);
    c.by_the_words(1);
    assert!(c.times.get(&1).is_none());
    c.close_the_gap(&lines, 1, secs(4), frame);
    assert_eq!(c.times.get(&1).map(|s| s.start), Some(secs(2)));
}

#[test]
fn keys_go_from_line_to_line() {
    let none = Keys { backspace: false, delete: false, up: false, down: false, left: false, right: false };
    assert_eq!(key_action(Keys { backspace: true, ..none }, 1, 3, Some(0), 5), KeyAction::JoinAbove);
    assert_eq!(key_action(Keys { backspace: true, ..none }, 0, 3, Some(0), 5), KeyAction::Typing);
    assert_eq!(key_action(Keys { delete: true, ..none }, 1, 3, Some(5), 5), KeyAction::JoinBelow);
    assert_eq!(key_action(Keys { down: true, ..none }, 1, 3, Some(2), 5), KeyAction::Below);
    assert_eq!(key_action(Keys { left: true, ..none }, 1, 3, Some(0), 5), KeyAction::EndOfAbove);
    assert_eq!(key_action(none, 1, 3, Some(0), 5), KeyAction::Typing);
    assert_eq!(focus_within(9, 3), 2);
    assert_eq!(step_focus(2, 3, false, true), 2);
    assert_eq!(step_focus(1, 3, true, false), 0);
}

#[test]
fn words_keep_their_times() {
    let words = vec![word("a", 1, 2), word("  ", 2, 3), word("b", 3, 3)];
    let times = word_times(&words, 0, 3, secs(2).0);
    assert_eq!(times.len(), 2, "blank words aren't said");
    assert_eq!(times[0], TimeRange { start: secs(0), duration: secs(1) });
    assert_eq!(times[1], TimeRange { start: secs(1), duration: Time(SHORTEST) });
    assert!(word_times(&words, 0, 9, 0).is_empty());
}

fn title_style() -> Item {
    let mut style = item(0, ItemKind::Text, 0, 1);
    style.effects.push(EffectInstance {
        id: EffectId(1),
        type_id: "glow".to_string(),
        enabled: true,
        role: EffectRole::Passive,
        params: Vec::new(),
    });
    style
}

fn look(lines: usize) -> Look {
    Look {
        style: title_style(),
        content: "text.content".to_string(),
        contents: (0..lines).map(|i| source(100 + i as u64)).collect(),
        color: "text.color".to_string(),
        colors: (0..lines).map(|i| if i == 1 { Some(source(7)) } else { None }).collect(),
        words: vec![word("hi", 0, 1), word("there", 1, 2), word("you", 2, 3)],
        offset: secs(0),
    }
}

#[test]
fn captions_become_a_track() {
    let s = timeline(vec![Track::new(TrackId(2), "V1".to_string(), TrackKind::Video, false), Track::new(TrackId(3), "A1".to_string(), TrackKind::Audio, false)]);
    let lines = vec![line(0, 1, "hi", 0, 1), line(1, 2, "there", 1, 2), line(2, 3, " ", 2, 3)];
    let snapped: Vec<Span> = lines.iter().map(|l| l.caption.span).collect();
    let fresh: Vec<u64> = (10..40).collect();
    let made = add_captions(&s, &lines, &snapped, Time(SECOND / 30), &look(3), &fresh).expect("there are captions");
    assert_eq!(made.lines, vec![0, 1], "the blank one isn't added");
    match made.op {
        Op::InsertTrack { seq, index, track } => {
            assert_eq!((seq, index), (SeqId(1), 1));
            assert_eq!(track.name, "Captions");
            assert_eq!(track.items.len(), 2);
            assert_eq!(track.items[0].name, "Caption");
            assert_eq!(track.items[1].range, TimeRange { start: secs(1), duration: secs(1) });
            assert_eq!(get_param(&track.items[0].params, "text.content"), Some(source(100)));
            assert_eq!(get_param(&track.items[0].params, "text.color"), None);
            assert_eq!(get_param(&track.items[1].params, "text.color"), Some(source(7)));
            assert_eq!(track.items[1].word_times, vec![TimeRange { start: secs(0), duration: secs(1) }]);
            assert_ne!(track.items[0].effects[0].id, track.items[1].effects[0].id);
        }
        _ => panic!("a track is inserted"),
    }
    assert_eq!(add_captions(&s, &Vec::new(), &Vec::new(), Time(SECOND / 30), &look(0), &fresh).err(), Some("there's nothing to add"));
}

#[test]
fn captions_on_the_timeline_never_overlap() {
    let s = timeline(Vec::new());
    let lines = vec![line(0, 1, "a", 0, 5), line(1, 2, "b", 3, 4)];
    let snapped: Vec<Span> = lines.iter().map(|l| l.caption.span).collect();
    let fresh: Vec<u64> = (10..40).collect();
    let made = add_captions(&s, &lines, &snapped, Time(SECOND / 30), &look(2), &fresh).unwrap();
    if let Op::InsertTrack { track, .. } = made.op {
        assert_eq!(track.items[0].range, TimeRange { start: secs(0), duration: secs(3) });
        assert_eq!(track.items[1].range.start, secs(3));
    }
}

#[test]
fn a_look_is_copied_from_a_title() {
    let mut title = title_style();
    title.group = Some(4);
    title.transitions.push(Transition { at_start: true, params: Vec::new() });
    title.word_times.push(TimeRange { start: secs(0), duration: secs(1) });
    let copy = copy_look(&title);
    assert!(copy.group.is_none() && copy.transitions.is_empty() && copy.word_times.is_empty());
    assert_eq!(copy.effects.len(), 1);
    let mut v = Track::new(TrackId(2), "V1".to_string(), TrackKind::Video, false);
    v.items.push(item(5, ItemKind::Solid, 0, 1));
    v.items.push(item(6, ItemKind::Text, 1, 1));
    assert_eq!(titles(&timeline(vec![v])), vec![ItemId(6)]);
    assert_eq!(title_name(Some("Hello\r\nworld".to_string()), "1.5"), "Hello  (1.5s)");
    assert_eq!(title_name(None, "0.0"), "Title  (0.0s)");
}

#[test]
fn boxes_come_and_go() {
    let mut style = title_style();
    toggle_box(&mut style, "bg", source(1));
    assert_eq!(box_at(&style.effects, "bg"), Some(1));
    let lit = MarkerLook { shape: source(2), clear: source(3), lit: source(4) };
    toggle_marker(&mut style, "bg", "color@spoken", lit);
    assert_eq!(marker_at(&style.effects, "bg", "color@spoken"), Some(2));
    assert_eq!(others(&style.effects, "bg"), vec![0]);
    set_on_effect(&mut style, 1, "roundness", source(9));
    assert_eq!(get_param(&style.effects[1].params, "roundness"), Some(source(9)));
    toggle_marker(&mut style, "bg", "color@spoken", lit);
    toggle_box(&mut style, "bg", source(1));
    assert!(same_item(&style, &title_style()), "as it was");
    leave_off(&mut style, 0);
    assert!(style.effects.is_empty());
    assert_eq!(BoxShape::Words.about().0, "words");
}

#[test]
fn the_spoken_word_is_lit_and_unlit() {
    let mut style = title_style();
    assert!(!follows_the_word(&style, "@spoken"));
    toggle_spoken(&mut style, "text.color@spoken", source(5));
    assert!(follows_the_word(&style, "@spoken"));
    assert!(changed_look(&title_style(), style.copy()).is_some());
    toggle_spoken(&mut style, "text.color@spoken", source(5));
    assert!(changed_look(&title_style(), style).is_none());
    let mut params: Vec<Param> = Vec::new();
    set_setting(&mut params, "a", source(1));
    set_setting(&mut params, "a", source(2));
    assert_eq!((params.len(), get_param(&params, "a")), (1, Some(source(2))));
}

#[test]
fn the_preview_follows_the_sound() {
    let lines = vec![line(0, 1, "hi", 0, 1), line(1, 2, "there", 2, 3)];
    let words = vec![word("hi", 0, 1), word("there", 2, 3)];
    assert_eq!(stretch(&lines, secs(2)), secs(3));
    assert_eq!(follow(&lines, Time(SECOND + 1), 1), (0, false));
    assert_eq!(follow(&lines, secs(2), 0), (1, false));
    assert_eq!(follow(&lines, secs(4), 0), (1, true), "past the last caption");
    let one = shown(&lines, &words, secs(10), 1, secs(0));
    assert_eq!((one.text.as_str(), one.start, one.length), ("there", secs(12), secs(1)));
    assert_eq!(one.times, vec![TimeRange { start: secs(0), duration: secs(1) }]);
    let sample = shown(&Vec::new(), &Vec::new(), secs(10), 0, secs(5));
    assert_eq!((sample.text.as_str(), sample.start, sample.length), ("Your captions will look like this", secs(5), Time(SAMPLE)));
    let brief = vec![line(0, 1, "x", 1, 1)];
    assert_eq!(shown(&brief, &words, secs(0), 0, secs(0)).length, Time(LEAST));
    assert_eq!(play_from(&lines, secs(10), 1, PlayFrom::Start), Some(secs(10)));
    assert_eq!(play_from(&lines, secs(10), 1, PlayFrom::Selected), Some(secs(12)));
    assert_eq!(play_from(&Vec::new(), secs(10), 0, PlayFrom::Start), None);
}

#[test]
fn the_preview_plays_through() {
    assert_eq!(moment(true, secs(7), false, secs(0), secs(1), secs(2)), secs(7));
    assert_eq!(moment(false, secs(7), false, secs(0), secs(1), secs(2)), secs(2));
    assert_eq!(moment(false, secs(7), true, secs(1), secs(1), secs(2)), secs(2));
    let late = moment(false, secs(7), true, Time(2 * SECOND + SECOND / 2), secs(1), secs(2));
    assert!(late.0 < secs(3).0, "it rests on the last moment");
}

#[test]
fn the_preview_is_drawn_on_a_scratch_copy() {
    let s = timeline(Vec::new());
    let lines = vec![line(0, 1, "hi", 0, 1)];
    let what = shown(&lines, &vec![word("hi", 0, 1)], secs(0), 0, secs(0));
    let scratch = with_preview(&s, &title_style(), &what, "text.content", source(3));
    assert_eq!((s.tracks.len(), scratch.tracks.len()), (0, 1));
    assert_eq!(scratch.tracks[0].items[0].id, ItemId(u64::MAX - 3));
    let mut p = Preview { key: 0, drawn: false };
    assert!(p.is_stale(5));
    assert!(p.drew(5, Drawn::Rough), "try again soon");
    assert!(p.is_stale(5));
    assert!(!p.drew(5, Drawn::Exact));
    assert!(!p.is_stale(5));
    assert!(p.drew(6, Drawn::Nothing) && !p.is_stale(5));
}

#[test]
fn the_window_comes_back_after_an_undo() {
    let mut w = Place { open: false, kept: false };
    assert_eq!(w.open(true), Fate::New { whole_timeline: false });
    assert_eq!(w.open(false), Fate::Nothing);
    assert_eq!(w.close(true), Fate::Keep);
    assert_eq!(w.reopen(), Fate::Return);
    assert_eq!(w.put_away(), Fate::Keep);
    assert_eq!(w.reopen(), Fate::Return);
    assert_eq!(w.close(false), Fate::Drop);
    assert_eq!(w.reopen(), Fate::Nothing);
    assert_eq!(history_key(true, false, true, true), None);
    assert_eq!(history_key(true, true, true, true), Some(HistoryKey::Redo));
    assert_eq!(history_key(false, false, false, true), Some(HistoryKey::Undo));
    assert!(setting_up(false, None) && setting_up(true, Some(Work::Install)) && !setting_up(true, Some(Work::Model)));
}

#[test]
fn the_engine_is_removed_once_confirmed() {
    let mut c = heard(&["one"]);
    let mut e = EngineInfo { usage: Some(5), confirm: false };
    e.ask(true);
    assert!(!e.confirm);
    e.ask(false);
    assert!(e.confirm);
    e.keep();
    assert!(!e.confirm);
    e.job_ended();
    assert_eq!(e, EngineInfo { usage: None, confirm: false }, "what it takes is measured again");
    assert_eq!(e.removed(&mut c, Some("in use".to_string())), None);
    assert_eq!(c.error.as_deref(), Some("couldn't remove it all: in use"));
    assert!(c.transcript.is_none() && e.usage.is_none());
    assert_eq!(e.removed(&mut c, None), Some("Removed the caption engine."));
}

#[test]
fn what_the_window_says() {
    assert_eq!(megabytes(5 << 20), Some("5 MB".to_string()));
    assert_eq!(megabytes(1 << 30), None);
    let models = vec!["tiny".to_string(), "base".to_string(), "small".to_string()];
    assert_eq!(chosen_model(&models, "base"), 1);
    assert_eq!(chosen_model(&models, "huge"), 2);
    assert_eq!(set_up_texts("small", 480).1, "Download and set up  (~680 MB)");
    assert_eq!(model_label(true, "base", 140, "quick"), "✓ base  ~140 MB — quick");
    assert_eq!(made_from(3, ""), "from 3 words");
    assert_eq!(made_from(3, "en"), "from 3 words · en");
    assert_eq!(color_hint(0), "Tick captions, then pick their color:");
    assert_eq!(color_hint(2), "Color the 2 ticked:");
    assert_eq!(add_texts(4).1, "Added 4 captions on a new Captions track.");
    assert_eq!(Mode::Words.about().0, "By count");
    let t = Transcript { words: Vec::new(), colors: Vec::new(), language: "en".to_string() };
    assert!(t.words.is_empty());
}

#[test]
fn another_grouping_forgets_what_was_typed() {
    let mut c = heard(&["one", "two", "three"]);
    c.retype(&line(0, 2, "one two", 0, 2), "uno dos".to_string());
    c.pick_all(2, true);
    let rules = prefs().grouping;
    assert!(!c.rules_are(rules, rules));
    assert!(!c.edits.is_empty() && !c.picked.is_empty(), "the rules are the same");
    assert!(c.rules_are(rules, Grouping { max_words: rules.max_words + 1, ..rules }));
    assert!(c.edits.is_empty() && c.times.is_empty() && c.picked.is_empty());
    assert!(openatelier::caption_window::came_back().contains("back as you left it"));
}

#[test]
fn scrubbing_moves_through_the_captions() {
    let lines = vec![line(0, 1, "one", 0, 2), line(1, 2, "two", 2, 4)];
    let mut p = Player { playing: true, scrubbing: false, playhead: secs(10) };
    assert!(p.followed(true) && !p.followed(false));
    p.scrub(&lines, secs(4), secs(10), Pointer::Held(Some(secs(3))));
    assert_eq!(p, Player { playing: false, scrubbing: true, playhead: secs(13) });
    assert_eq!(p.keep_up(&lines, secs(10), 0), 1, "the caption under the playhead");
    p.scrub(&lines, secs(4), secs(10), Pointer::Held(None));
    assert_eq!(p.playhead, secs(13));
    p.scrub(&lines, secs(4), secs(10), Pointer::LetGo);
    assert_eq!(p, Player { playing: false, scrubbing: false, playhead: secs(13) });
    assert_eq!(p.keep_up(&lines, secs(10), 0), 0, "it's not followed any more");
    p.scrub(&Vec::new(), secs(4), secs(10), Pointer::Held(Some(secs(1))));
    assert_eq!(p.playhead, secs(13), "there's nothing to scrub through");
    let mut late = Player { playing: true, scrubbing: false, playhead: secs(15) };
    assert_eq!(late.keep_up(&lines, secs(10), 0), 1);
    assert!(!late.playing, "past the last caption");
    late.scrub(&lines, secs(4), secs(10), Pointer::Away);
    assert_eq!(late.playhead, secs(15));
}

#[test]
fn captions_that_differ_in_one_table_are_another_step() {
    let mut c = heard(&["one", "two"]);
    let prefs = prefs();
    c.record(&prefs, 0, false);
    c.record(&prefs, 1, false);
    assert_eq!(c.undo.len(), 0, "nothing changed");
    c.times.insert(1, Span { start: secs(1), end: secs(2) });
    c.record(&prefs, 2, false);
    c.removed.insert(1);
    c.record(&prefs, 3, false);
    c.edits.insert(1, "dos".to_string());
    c.record(&prefs, 4, false);
    c.edits.insert(0, "uno".to_string());
    c.record(&prefs, 5, false);
    assert_eq!(c.undo.len(), 4, "two captions typed into are two steps");
    c.times.remove(&1);
    c.record(&prefs, 6, false);
    assert_eq!(c.undo.len(), 5);
    for _ in 0..5 {
        c.step_history(false).unwrap();
    }
    assert!(c.edits.is_empty() && c.removed.is_empty() && c.times.is_empty());
}
