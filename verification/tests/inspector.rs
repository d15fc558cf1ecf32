//! The inspector: tabs, effect cards, property rows and the curve editor.
use openatelier::band::{clip_band, drag_band, toggle_band_key, BandDrag, BandKey, Line};
use openatelier::cards::{
    add_label, added_notice, applied_notice, apply_tip, card_body, CardAction, card_note, card_tip, let_go, list_note, list_word, others, retimed,
    shared_label, targets, timing_of, CardBody, CardFacts, LetGo, Release, Timing, BRIEFEST,
};
use openatelier::color::{pick_color, pick_tone_map, section_color, set_exposure, ColorPick, Gamut, Held, InputColor, Matrix, Range, Transfer};
use openatelier::connections::{ConnectionEditor, Follow, NumberHeld, SoundBand, SoundSource, Touched};
use openatelier::crop::{crop_cursor, grabbed, handles, Cursor, Edges, Grab as CropGrab};
use openatelier::curves::{
    added_at, curve_shown, curve_title, key_time, moment_in, preset_interp, presets, CurveEditor, CurveKey, CurveShown, Grab, Interp,
};
use openatelier::doc::{
    EffectId, EffectInstance, EffectRole, Item, ItemId, ItemKind, MediaId, MediaKind, Op, Param, ParamTarget, SeqId, Sequence, Source, Time,
    TimeRange, Track, TrackId, TrackKind, SECOND,
};
use openatelier::editor::{Editor, PoolItem};
use openatelier::effects::{in_list, move_target, List};
use openatelier::inspector::{
    background_label, background_panel, blend_title, container_panel, letter_count, property_menu, scene_sections, text_row_shows, BackgroundPanel,
    PropertyEntry, SceneSection, media_options, option_name, pretty_label, sections, setting_label,
    shown_moment, shown_tab, spoken_entry, strip_suffix, surface_point_label, tabs, transform_row_shows, widget_for, SpokenEntry, Tab,
    ValueKind, Widget,
};
use openatelier::keyframing::{key_state, next_key, previous_key, sorted_keys, KeyState, KeyframeAnchor};
use openatelier::properties::{
    anchor_for, blend_tip, custom_easing, gathered, key_tip, offset_tip, reset_surface, surface_moved, together_note, toggle_band, written,
    Motion, Written,
};

fn secs(s: i64) -> Time {
    Time(s * SECOND)
}

fn item(id: u64, kind: ItemKind, start: i64, length: i64) -> Item {
    Item::new(ItemId(id), "clip", kind, TimeRange { start: secs(start), duration: secs(length) })
}

fn editor(items: Vec<Item>, sounds: Vec<Item>) -> Editor {
    let mut v = Track::new(TrackId(2), "V1".to_string(), TrackKind::Video, false);
    v.items = items;
    let mut a = Track::new(TrackId(3), "A1".to_string(), TrackKind::Audio, false);
    a.items = sounds;
    Editor {
        timeline: Sequence {
            id: SeqId(1),
            name: "Main".to_string(),
            rate_num: 30,
            rate_den: 1,
            active: 0,
            variants: Vec::new(),
            tracks: vec![v, a],
            background: item(u64::MAX, ItemKind::Solid, 0, 0),
            dividers: 0,
        },
        video_track: TrackId(2),
        audio_track: TrackId(3),
        pool: Vec::new(),
        file: None,
        snapshot: 0,
        saved: None,
        linked: Vec::new(),
    }
}

/// Moves in a list shaped [intro, A, B, sound, C]: A B C are the shown effects.
#[test]
fn drag_targets() {
    let shown = vec![1, 2, 4];
    let apply = |from: usize, slot: usize| {
        let mut list = vec!["intro", "A", "B", "sound", "C"];
        let at = move_target(&shown, from, slot)?;
        let x = list.remove(shown[from]);
        list.insert(at, x);
        Some(list)
    };
    assert_eq!(apply(0, 3), Some(vec!["intro", "B", "sound", "C", "A"]), "A to the end");
    assert_eq!(apply(2, 0), Some(vec!["intro", "C", "A", "B", "sound"]), "C to the top");
    assert_eq!(apply(0, 2), Some(vec!["intro", "B", "sound", "A", "C"]), "A between B and C");
    assert_eq!(apply(1, 1), None);
    assert_eq!(apply(1, 2), None, "just below itself is where it already is");
}

/// The last effect shown dropped anywhere past the end stays where it is.
#[test]
fn the_last_effect_stays_last() {
    let shown = vec![1, 2, 4];
    for slot in 2..7 {
        assert_eq!(move_target(&shown, 2, slot), None);
    }
    assert_eq!(move_target(&shown, 1, 9), Some(4));
    let over = LetGo { inside: true, onto: None, lane: false, panel: true };
    assert_eq!(let_go(over, &shown, Some(2), 4), Release::Nothing);
}

#[test]
fn clips_show_the_tabs_they_have_something_in() {
    assert_eq!(tabs(true, true), vec![Tab::Properties, Tab::Transitions, Tab::Effects, Tab::Sound]);
    assert_eq!(tabs(false, true), vec![Tab::Properties, Tab::Sound]);
    assert_eq!(shown_tab(Tab::Effects, false, true), Tab::Properties);
    assert_eq!(Tab::default().title(), "Properties");
    let range = TimeRange { start: secs(2), duration: secs(3) };
    assert_eq!(shown_moment(range, secs(0)), secs(2));
    assert_eq!(shown_moment(range, secs(9)), Time(secs(5).0 - 1));
    assert!(sections(ItemKind::Text, true, false, false).text);
    assert!(sections(ItemKind::Media { media: MediaId(1) }, true, true, true).source_color);
    assert!(!transform_row_shows(true, false, false, true, false) && transform_row_shows(true, false, false, false, false));
    assert!(container_panel(TrackKind::Audio).0 == List::Sound);
}

#[test]
fn settings_are_called_what_they_are() {
    assert_eq!(pretty_label("text.outline_width"), "outline width");
    assert_eq!(setting_label("text.color@spoken", "@spoken"), "color when spoken");
    assert_eq!(setting_label("text.color", "@spoken"), "color");
    assert_eq!(strip_suffix("a@b", "@b"), Some("a".to_string()));
    assert_eq!(blend_title("screen"), "Screen");
    assert_eq!(blend_tip("screen"), "Lightens by its colors, black disappears: light leaks, smoke");
    assert_eq!(blend_title("odd"), "Normal");
    assert_eq!(background_label("blur"), "Blurred content");
    assert_eq!(surface_point_label(2, 0, 1), "top right");
    assert_eq!(surface_point_label(4, 0, 1), "row 1, column 2");
    assert_eq!(letter_count(" a b\n"), 2);
    assert_eq!(letter_count("  "), 1);
    assert_eq!(widget_for(ValueKind::Float, true, 0, false), Widget::Direction);
    assert_eq!(widget_for(ValueKind::Gradient, false, 2, false), Widget::Gradient);
    assert_eq!(widget_for(ValueKind::Gradient, false, 1, false), Widget::Swatch);
    assert_eq!(spoken_entry(false, true, false), SpokenEntry::Highlight);
    assert_eq!(spoken_entry(false, true, true), SpokenEntry::Remove);
    assert_eq!(spoken_entry(true, false, true), SpokenEntry::Nothing);
}

#[test]
fn pictures_feed_effects() {
    let p = |id: u64, has_video: bool, missing: bool| PoolItem {
        id: MediaId(id),
        name: format!("f{id}"),
        kind: MediaKind::Video,
        decode_path: String::new(),
        conformed: None,
        duration: secs(0),
        has_video,
        has_audio: false,
        about: String::new(),
        missing,
    };
    let options = media_options(&vec![p(1, true, false), p(2, false, false), p(3, true, true)], &vec![(SeqId(9), "Compound 1".to_string())]);
    assert_eq!(options.iter().map(|o| o.id).collect::<Vec<u64>>(), vec![1, 9]);
    assert_eq!(option_name(&options, Some(9), "none"), "▣ Compound 1");
    assert_eq!(option_name(&options, Some(7), "none"), "none");
    assert_eq!(option_name(&options, None, "none"), "none");
}

#[test]
fn spoken_values_come_off_every_linked_clip() {
    let title = |id: u64| {
        let mut t = item(id, ItemKind::Text, id as i64 * 3, 2);
        t.params.push(Param { id: "text.color@spoken".to_string(), source: Source { stored: 1, keyed: false } });
        t
    };
    let mut e = editor(vec![title(1), title(2)], Vec::new());
    let settings = vec!["text.color".to_string()];
    assert!(e.can_highlight_spoken(ItemId(1), ParamTarget::Item, "text.color", "@spoken", &settings, &Vec::new()));
    assert!(!e.can_highlight_spoken(ItemId(1), ParamTarget::Item, "text.size", "@spoken", &settings, &Vec::new()));
    assert!(!e.can_highlight_spoken(ItemId(1), ParamTarget::Item, "text.color@spoken", "@spoken", &settings, &Vec::new()));
    assert_eq!(e.remove_spoken(ItemId(1), ParamTarget::Item, "text.color@spoken").len(), 1);
    e.linked = vec![ItemId(1), ItemId(2)];
    assert_eq!(e.remove_spoken(ItemId(1), ParamTarget::Item, "text.color@spoken").len(), 2);
}

#[test]
fn lists_show_their_own_effects() {
    assert!(in_list(List::Effects, EffectRole::Passive, false) && !in_list(List::Effects, EffectRole::Passive, true));
    assert!(in_list(List::Sound, EffectRole::In { duration: secs(1) }, true));
    assert_eq!(list_note(List::Outro, 0, true), None);
    assert_eq!(list_note(List::Outro, 0, false), Some("No outro yet."));
    assert_eq!(list_note(List::Effects, 1, false), Some("Drag ⋮⋮ onto another clip to copy it there."));
    assert_eq!(shared_label(1, 3), Some("on 1 of 3".to_string()));
    assert_eq!(shared_label(3, 3), None);
    assert_eq!(card_tip("", false), "Right-click to copy or paste");
    assert_eq!(card_tip("Blurs it.", true), "Blurs it.\nRight-click to copy or paste, or to bound it to some of the letters");
    let selected = vec![ItemId(1), ItemId(2), ItemId(3)];
    let rest = others(&selected, ItemId(2), false);
    assert_eq!(rest, vec![ItemId(1), ItemId(3)]);
    assert!(others(&selected, ItemId(2), true).is_empty());
    assert_eq!(targets(ItemId(2), &rest), vec![ItemId(2), ItemId(1), ItemId(3)]);
    assert_eq!(add_label(list_word(List::Intro), 0), "+ Add intro");
    assert_eq!(add_label("effect", 2), "+ Add effect to 3 clips");
    assert_eq!(added_notice("Blur", 1), None);
    assert_eq!(added_notice("Blur", 3), Some("Added Blur to 3 clips.".to_string()));
    assert_eq!(apply_tip(1), "Put this effect, with these settings, on the other 1 selected clip");
    assert_eq!(applied_notice("Blur", 0), "The selected clips already have Blur like this.");
    assert_eq!(applied_notice("Blur", 2), "Applied Blur to 2 more clips.");
}

#[test]
fn sound_effects_are_retimed() {
    assert_eq!(timing_of(EffectRole::Passive), (Timing::Whole, secs(1)));
    assert_eq!(retimed(EffectRole::Passive, Timing::Whole, secs(5)), None);
    assert_eq!(retimed(EffectRole::Passive, Timing::Intro, secs(5)), Some(EffectRole::In { duration: secs(1) }));
    assert_eq!(retimed(EffectRole::In { duration: secs(4) }, Timing::Outro, secs(2)), Some(EffectRole::Out { duration: secs(2) }));
    assert_eq!(retimed(EffectRole::In { duration: Time(1) }, Timing::Outro, secs(2)), Some(EffectRole::Out { duration: Time(BRIEFEST) }));
    assert_eq!(Timing::Intro.about().0, "Intro");
}

#[test]
fn cards_show_settings_or_say_why_not() {
    let f = CardFacts { known: true, sound: false, sounds: false, renders: true, surface: false, equalizer: false, bounded: true };
    assert_eq!(card_body(f), CardBody::Settings { meter: false, bounds: true });
    assert_eq!(card_body(CardFacts { known: false, ..f }), CardBody::Missing);
    assert_eq!(card_body(CardFacts { sound: true, ..f }), CardBody::NoSound);
    assert_eq!(card_body(CardFacts { renders: false, ..f }), CardBody::NotRendered);
    assert_eq!(card_body(CardFacts { surface: true, ..f }), CardBody::Surface);
    assert!(card_note(CardBody::Missing).is_some() && card_note(CardBody::Surface).is_none());
}

#[test]
fn a_card_goes_where_it_is_let_go() {
    let g = LetGo { inside: true, onto: None, lane: false, panel: true };
    let shown = vec![1, 2, 4];
    assert_eq!(let_go(g, &shown, Some(0), 3), Release::Move(4));
    assert_eq!(let_go(g, &shown, Some(0), 1), Release::Nothing);
    assert_eq!(let_go(g, &shown, None, 1), Release::Nothing);
    let out = LetGo { inside: false, ..g };
    assert_eq!(let_go(LetGo { onto: Some(ItemId(4)), ..out }, &shown, Some(0), 0), Release::Copy(ItemId(4)));
    assert_eq!(let_go(LetGo { lane: true, ..out }, &shown, Some(0), 0), Release::Contain);
    assert_eq!(let_go(LetGo { panel: false, ..out }, &shown, Some(0), 0), Release::Hint);
    assert_eq!(let_go(out, &shown, Some(0), 0), Release::Nothing);
}

#[test]
fn keys_are_walked() {
    let keys = sorted_keys(&vec![secs(3), secs(1), secs(3)]);
    assert_eq!(keys, vec![secs(1), secs(3)]);
    assert_eq!(previous_key(&keys, secs(3)), Some(secs(1)));
    assert_eq!(next_key(&keys, secs(1)), Some(secs(3)));
    assert_eq!(next_key(&keys, secs(3)), None);
    assert_eq!(key_state(&Vec::new(), secs(1)), KeyState::Off);
    assert_eq!(key_state(&keys, secs(1)), KeyState::Here);
    assert_eq!(key_state(&keys, secs(2)), KeyState::Between);
    let mut clip = item(5, ItemKind::Text, 0, 4);
    clip.time_map.source_in = secs(1);
    clip.params = vec![
        Param { id: "opacity".to_string(), source: Source { stored: 1, keyed: true } },
        Param { id: "scale".to_string(), source: Source { stored: 2, keyed: false } },
    ];
    let e = editor(vec![clip], Vec::new());
    let times = |id: u64, param: &str, anchor: KeyframeAnchor| e.keyframe_times(ItemId(id), ParamTarget::Item, param, &keys, anchor);
    assert_eq!(times(5, "opacity", KeyframeAnchor::SourceMedia), vec![secs(0), secs(2)]);
    assert_eq!(times(5, "opacity", KeyframeAnchor::ClipStart), vec![secs(1), secs(3)]);
    assert_eq!(times(5, "scale", KeyframeAnchor::ClipStart), Vec::new());
    assert_eq!(times(6, "opacity", KeyframeAnchor::ClipStart), Vec::new());
}

#[test]
fn the_diamond_says_what_moves_a_value() {
    let still = Motion { custom: false, wave: false, track: None, sound: false };
    assert_eq!(key_tip(KeyState::Off, &still), "Keyframe this property (adds a key at the playhead)");
    let moving = Motion { custom: true, wave: true, track: Some(("Ball".to_string(), true)), sound: true };
    let tip = key_tip(KeyState::Here, &moving);
    assert!(tip.starts_with("Stop keyframing"));
    assert!(tip.contains("Custom easing") && tip.contains("Has a wave") && tip.contains("Stabilized with the track “Ball”") && tip.contains("Connected to the sound"));
    assert!(custom_easing(&vec![true, false, true]) && !custom_easing(&vec![true, false]) && !custom_easing(&Vec::new()));
    assert_eq!(anchor_for("focus", "focus"), KeyframeAnchor::SourceMedia);
    assert_eq!(anchor_for("opacity", "focus"), KeyframeAnchor::ClipStart);
    assert!(offset_tip("Ball", false).starts_with("Following “Ball”"));
    assert_eq!(together_note(1), None);
    assert!(together_note(3).is_some_and(|t| t.starts_with("Editing 3 selected clips")));
}

#[test]
fn clips_move_together() {
    let mut e = editor(vec![item(1, ItemKind::Text, 0, 2), item(2, ItemKind::Text, 3, 2)], vec![item(3, ItemKind::Media { media: MediaId(8) }, 0, 2)]);
    e.pool.push(PoolItem {
        id: MediaId(8),
        name: "s".to_string(),
        kind: MediaKind::Audio,
        decode_path: String::new(),
        conformed: None,
        duration: secs(2),
        has_video: false,
        has_audio: true,
        about: String::new(),
        missing: false,
    });
    e.linked = vec![ItemId(1), ItemId(2), ItemId(3)];
    assert_eq!(e.placed_together(ItemId(1)), vec![ItemId(1), ItemId(2)], "sound has no picture to place");
    assert_eq!(written(true, ItemId(2), ItemId(1)), Written::Shift);
    assert_eq!(written(true, ItemId(1), ItemId(1)), Written::Value);
    let op = |id: u64| Op::RemoveItem { seq: SeqId(1), item: ItemId(id) };
    let all = gathered(Ok(op(1)), vec![Err("no".to_string()), Ok(op(2)), Ok(op(3))]).unwrap_or_default();
    let ids: Vec<u64> = all.iter().map(|o| if let Op::RemoveItem { item, .. } = o { item.0 } else { 0 }).collect();
    assert_eq!(ids, vec![1, 2, 3]);
    assert!(matches!(gathered(Err("no".to_string()), vec![Ok(op(2))]), Err(e) if e == "no"));
}

#[test]
fn a_surface_is_reset() {
    let ids = vec!["p00".to_string(), "p01".to_string()];
    assert!(!surface_moved(&Vec::new(), &ids));
    let moved = vec![Param { id: "p01".to_string(), source: Source { stored: 1, keyed: false } }];
    assert!(surface_moved(&moved, &ids));
    let ops = reset_surface(SeqId(1), ItemId(2), EffectId(3), &ids);
    assert_eq!(ops.len(), 2);
    assert!(matches!(&ops[1], Op::SetParam { param, source: None, target: ParamTarget::Effect(EffectId(3)), .. } if param == "p01"));
    let fx = EffectInstance { id: EffectId(3), type_id: "s".to_string(), enabled: true, role: EffectRole::Passive, params: Vec::new() };
    assert!(!surface_moved(&fx.params, &ids));
}

#[test]
fn a_clips_line_shows_one_property() {
    let e = editor(vec![item(1, ItemKind::Text, 0, 2)], vec![item(3, ItemKind::Solid, 0, 2)]);
    assert_eq!(clip_band(&e.timeline, &Vec::new(), ItemId(1)), Some(Line::Opacity));
    assert_eq!(clip_band(&e.timeline, &Vec::new(), ItemId(3)), Some(Line::Volume));
    assert_eq!(clip_band(&e.timeline, &vec![ItemId(1)], ItemId(1)), Some(Line::Picked(0)));
    assert_eq!(clip_band(&e.timeline, &Vec::new(), ItemId(9)), None);
    let bands = toggle_band(&vec![(ItemId(1), 5)], ItemId(1), 6, false);
    assert_eq!(bands, vec![(ItemId(1), 6)]);
    assert!(toggle_band(&bands, ItemId(1), 6, true).is_empty());
    assert!(matches!(drag_band(None, &None, secs(1), secs(0), Time(1), secs(2)), BandDrag::Plain));
    let keys = Some(vec![key(0), key(2)]);
    assert!(matches!(drag_band(Some(0), &keys, secs(9), secs(0), Time(1), secs(3)), BandDrag::Key(0, t) if t.0 == secs(2).0 - 1));
    assert!(matches!(drag_band(None, &keys, secs(9), secs(0), Time(1), secs(3)), BandDrag::All));
    assert!(matches!(toggle_band_key(Some(1), Some(3)), BandKey::Remove(1)));
    assert!(matches!(toggle_band_key(None, Some(3)), BandKey::Add));
}

fn key(t: i64) -> CurveKey {
    CurveKey { t: secs(t), value: 0, ease: 0 }
}

#[test]
fn curve_keys_are_dragged_between_their_neighbors() {
    let keys = vec![key(0), key(2), key(4)];
    let frame = Time(SECOND / 10);
    assert_eq!(key_time(&keys, 1, secs(9), frame, secs(6)), Time(secs(4).0 - frame.0));
    assert_eq!(key_time(&keys, 1, secs(1), frame, secs(6)), secs(1));
    assert_eq!(key_time(&keys, 2, secs(9), frame, secs(6)), Time(secs(6).0 - 1));
    let mut c = CurveEditor::new(ItemId(1));
    c.press(&keys, &vec![false, true, false], &vec![false, false], &vec![false, false]);
    assert!(c.selected == Some(1) && matches!(c.drag, Some((Grab::Key(1), _))));
    let moved = c.drag_to(frame, secs(6), secs(3), 7, None).expect("dragging");
    assert_eq!((moved[1].t, moved[1].value), (secs(3), 7));
    assert!(c.release() && !c.release());
    let mut now = moved;
    assert!(c.set_ease(&mut now, 5));
    assert_eq!(now[1].ease, 5);
    assert!(c.delete(&mut now));
    assert_eq!((now.len(), c.selected), (2, None));
    c.select_at(&now, secs(4));
    assert_eq!(c.selected, Some(1));
    assert_eq!(c.eased(2), None, "there's no segment after the last");
    c.settle(1);
    assert_eq!(c.selected, None);
    c.click(&vec![true, false]);
    assert!(c.selected == Some(0) && c.removable(2) && !c.removable(1));
    assert_eq!(added_at(&vec![false, true], secs(1), secs(2)), None);
    assert_eq!(added_at(&vec![false, false], secs(5), secs(2)), Some(Time(secs(2).0 - 1)));
    assert_eq!(moment_in(secs(5), secs(1), secs(10)), secs(4));
}

#[test]
fn curves_are_shown_on_the_clips_clock() {
    assert_eq!(curve_shown(None), CurveShown::NotAnimated);
    assert_eq!(curve_shown(Some(KeyframeAnchor::SourceMedia)), CurveShown::SourceClock);
    assert_eq!(curve_shown(Some(KeyframeAnchor::ClipStart)), CurveShown::Graph);
    assert_eq!(curve_title("Clip", "transform.opacity"), "Curve — Clip · opacity");
    assert!(presets().iter().any(|(_, i)| *i == Interp::Linear));
    assert_eq!(preset_interp(Some((10, 20, 30, 40))), Interp::Bezier(10, 20, 30, 40));
}

#[test]
fn crop_handles_say_which_way_they_go() {
    let corners: Vec<Edges> = handles().iter().map(|h| h.edges).collect();
    assert_eq!(corners.len(), 8);
    let top_left = Edges { left: true, right: false, top: true, bottom: false };
    assert!(corners.contains(&top_left));
    assert_eq!(crop_cursor(Some(top_left), true), Some(Cursor::NwSe));
    assert_eq!(crop_cursor(None, true), Some(Cursor::Hand));
    assert_eq!(crop_cursor(None, false), None);
    assert_eq!(grabbed(Some(top_left), false), Some(CropGrab::Edges(top_left)));
    assert_eq!(grabbed(None, true), Some(CropGrab::Pan));
    assert_eq!(grabbed(None, false), None);
}

#[test]
fn what_is_done_with_a_card_is_done_to_all() {
    let fx = |id: u64| EffectInstance { id: EffectId(id), type_id: "t".to_string(), enabled: true, role: EffectRole::Passive, params: Vec::new() };
    let mut a = item(1, ItemKind::Text, 0, 4);
    a.effects.push(fx(10));
    let mut b = item(2, ItemKind::Text, 5, 4);
    b.effects.push(fx(20));
    let mut e = editor(vec![a, b], Vec::new());
    assert_eq!(e.card_action(ItemId(1), EffectId(10), CardAction::Remove).1.len(), 1);
    e.linked = vec![ItemId(1), ItemId(2)];
    let (label, ops) = e.card_action(ItemId(1), EffectId(10), CardAction::Toggle(false));
    assert_eq!(label, "Toggle effect");
    assert!(matches!(ops[1], Op::SetEffectEnabled { item: ItemId(2), effect: EffectId(20), enabled: false, .. }));
    let (label, ops) = e.card_action(ItemId(1), EffectId(10), CardAction::Retime(EffectRole::In { duration: secs(9) }));
    assert_eq!(label, "Effect timing");
    assert!(matches!(ops[1], Op::SetEffectRole { item: ItemId(2), role: EffectRole::In { duration }, .. } if duration == secs(4)), "no longer than the clip");
    let (label, ops) = e.card_action(ItemId(1), EffectId(10), CardAction::Reverse(true));
    assert!(label == "Reverse intro" && ops.len() == 2);
    assert_eq!(e.card_action(ItemId(1), EffectId(10), CardAction::Last(EffectRole::Passive)).0, "Effect duration");
}

#[test]
fn the_scene_shows_where_nothing_is_selected() {
    assert_eq!(scene_sections(false), vec![SceneSection::Background, SceneSection::BackgroundEffects]);
    assert_eq!(scene_sections(true).len(), 3);
    assert_eq!(background_panel("blur", true, 3), BackgroundPanel::Blur);
    assert_eq!(background_panel("texture", false, 1), BackgroundPanel::Texture);
    assert_eq!(background_panel("solid", false, 1), BackgroundPanel::Color);
    assert_eq!(background_panel("solid", false, 2), BackgroundPanel::Gradient);
    assert!(text_row_shows(false, false) && text_row_shows(true, true) && !text_row_shows(true, false));
    let e = editor(Vec::new(), Vec::new());
    let (plain, written) = (Source { stored: 1, keyed: false }, Source { stored: 2, keyed: true });
    assert!(matches!(e.set_sequence_value("bg.dim", false, plain, written), Op::SetSequenceParam { source: Some(s), .. } if s.stored == 1));
    assert!(matches!(e.set_sequence_value("bg.dim", true, plain, written), Op::SetSequenceParam { source: Some(s), .. } if s.stored == 2));
}

#[test]
fn a_property_has_a_menu() {
    let plain = property_menu(false, None, None, SpokenEntry::Nothing);
    assert_eq!(plain, vec![PropertyEntry::Copy, PropertyEntry::Paste(false), PropertyEntry::Reset]);
    let all = property_menu(true, Some(true), Some(true), SpokenEntry::Highlight);
    assert_eq!(all.len(), 10);
    assert_eq!((all[6], all[8], all[9]), (PropertyEntry::Line(true), PropertyEntry::Stabilize, PropertyEntry::Highlight));
    let mut title = item(1, ItemKind::Text, 0, 2);
    title.params.push(Param { id: "text.color@spoken".to_string(), source: Source { stored: 1, keyed: false } });
    let e = editor(vec![title], Vec::new());
    assert!(e.has_spoken_row(ItemId(1), ParamTarget::Item, "text.color", "text.color@spoken", "@spoken"));
    assert!(!e.has_spoken_row(ItemId(1), ParamTarget::Item, "text.size", "text.size@spoken", "@spoken"));
}

#[test]
fn the_connection_editor_closes_with_its_clip() {
    let e = editor(vec![item(5, ItemKind::Text, 0, 4)], Vec::new());
    let open = |id: u64| ConnectionEditor { item: ItemId(id), target: ParamTarget::Item, param: "transform.opacity".to_string() };
    assert_eq!(open(5).title(&e), Some("Connection — clip · opacity".to_string()));
    assert_eq!(open(6).title(&e), None);
}

#[test]
fn connecting_a_property_is_a_step_of_its_own() {
    let e = editor(vec![item(5, ItemKind::Text, 0, 4)], Vec::new());
    let open = ConnectionEditor { item: ItemId(5), target: ParamTarget::Item, param: "transform.opacity".to_string() };
    let connected = Source { stored: 8, keyed: false };
    let step = open.toggle(&e, connected);
    let edit = step.edit.expect("a change");
    assert_eq!((edit.label.as_str(), edit.key.as_deref()), ("connection-editor", Some("connection-editor")));
    assert!(step.seal);
    assert_eq!(edit.ops.len(), 1);
    assert!(matches!(
        &edit.ops[0],
        Op::SetParam { item: ItemId(5), target: ParamTarget::Item, param, source: Some(s), .. } if param == "transform.opacity" && *s == connected
    ));
    let nothing = open.change(&e, Touched { changed: false, finished: true }, connected);
    assert!(nothing.edit.is_none() && nothing.seal);
    let dragged = open.change(&e, Touched { changed: true, finished: false }, connected);
    assert!(dragged.edit.is_some() && !dragged.seal);
}

#[test]
fn what_a_property_listens_to_is_picked() {
    let mut f = Follow::new(3, 4);
    assert_eq!(f, Follow { source: SoundSource::Mix, band: SoundBand::Loudness, amount: 3, floor: 4 });
    assert!(!f.listen(SoundSource::Mix).changed);
    assert_eq!(f.listen(SoundSource::Item(ItemId(2))), Touched { changed: true, finished: true });
    assert_eq!(f.source, SoundSource::Item(ItemId(2)));
    assert!(f.listen_to_selected(Some(ItemId(2))).changed, "asked for by name");
    assert_eq!(f.listen_to_selected(None), Touched { changed: false, finished: false });
    assert!(!f.part(SoundBand::Loudness).changed);
    assert!(f.part(SoundBand::Bass).finished);
    assert_eq!(f.band, SoundBand::Bass);
    let held = NumberHeld { changed: true, dragged: true, focused: false, let_go: false, left: false };
    assert_eq!(held.touched(), Touched { changed: true, finished: false });
    assert!(NumberHeld { dragged: false, ..held }.touched().finished, "stepped by a key");
    assert!(!NumberHeld { dragged: false, focused: true, ..held }.touched().finished, "being typed");
    let let_go = NumberHeld { changed: false, let_go: true, ..held }.touched();
    assert_eq!(let_go, Touched { changed: false, finished: true });
    assert_eq!(held.touched().and(let_go), Touched { changed: true, finished: true });
}

#[test]
fn picking_a_files_color_is_one_step() {
    let own = InputColor::default();
    assert!(!own.can_reset());
    let edit = pick_color(MediaId(3), own, ColorPick::Transfer(Transfer(2)));
    assert_eq!((edit.label.as_str(), edit.key), ("Source color", None));
    let log = InputColor { transfer: Transfer(2), ..own };
    assert!(matches!(edit.ops[..], [Op::SetMediaColor { media: MediaId(3), color }] if color == log));
    assert!(log.can_reset());
    assert_eq!(log.picked(ColorPick::Range(Range::Full)), InputColor { range: Range::Full, ..log });
    assert_eq!(log.picked(ColorPick::Matrix(Matrix::Bt601)), InputColor { matrix: Matrix::Bt601, ..log });
    assert_eq!(log.picked(ColorPick::Gamut(Gamut(1))), InputColor { gamut: Gamut(1), ..log });
    assert_eq!(log.picked(ColorPick::Reset), own);
    let still = Held { dragged: false, focused: false, let_go: false, left: false };
    let (nothing, seal) = section_color(MediaId(3), log, log, still);
    assert!(nothing.is_none() && !seal);
    let (dragged, seal) = section_color(MediaId(3), log, InputColor { exposure: 7, ..log }, Held { dragged: true, ..still });
    assert_eq!(dragged.and_then(|e| e.key).as_deref(), Some("source-color"));
    assert!(!seal);
    let (picked, seal) = section_color(MediaId(3), log, own, Held { let_go: true, ..still });
    assert!(picked.is_some_and(|e| e.key.is_none()) && seal);
}

#[test]
fn the_whole_picture_is_toned_and_lit() {
    let e = editor(vec![item(5, ItemKind::Text, 0, 4)], Vec::new());
    let (plain, written) = (Source { stored: 1, keyed: false }, Source { stored: 2, keyed: true });
    assert!(pick_tone_map(&e, "output.tone_map", "soft", "soft", true, plain, written).is_none());
    let edit = pick_tone_map(&e, "output.tone_map", "soft", "filmic", true, plain, written).expect("a change");
    assert_eq!((edit.label.as_str(), edit.key.as_deref()), ("output-tone-map", Some("output-tone-map")));
    assert!(matches!(&edit.ops[..], [Op::SetSequenceParam { param, source: Some(s), .. }] if param == "output.tone_map" && *s == written));
    let edit = set_exposure(&e, "output.exposure", false, plain, written);
    assert_eq!(edit.key.as_deref(), Some("output-exposure"));
    assert!(matches!(&edit.ops[..], [Op::SetSequenceParam { param, source: Some(s), .. }] if param == "output.exposure" && *s == plain));
}
