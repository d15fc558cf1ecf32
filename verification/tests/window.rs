//! Exporting, formats, compound clips, layouts and what keeps the window going.
use openatelier::color::{choice_label, matrix_label, range_label, source_hint, tone_map_label, Matrix, Range};
use openatelier::compound::{edit_tracks, no_tracks, Opening, Place, Trail};
use openatelier::connections::{band_tip, connection_title, heard, source_name, use_selected, Follower, Refresh, SoundBand, SoundSource};
use openatelier::doc::{FormatVariant, Item, ItemId, ItemKind, Op, SeqId, Sequence, Time, TimeRange, Track, TrackId, TrackKind, VariantId, SECOND};
use openatelier::editor::Editor;
use openatelier::export::{
    alpha_note, codec_of, even, export_lines, file_name, filter_name, first_choice, format_file_name, kept_part, next_step, part_between,
    part_from, poll, preview_due, queue_exports, resolutions, safe_name, see_through, selected_part, stem, targets, type_of, types, AlphaNote,
    Encoder, ExportPrefs, Next, Poll, Said, VideoCodec,
};
use openatelier::formats::{
    custom_name, edge_label, edges, even_up, format_tip, removable, renamed, scaled_side, shown_format, step, turned, turned_name, Action, Shows,
};
use openatelier::guard::{kept_selected, kept_selection, safe_timeline, Guard};
use openatelier::layout::{fit_window, layout, restored_format, vertical_layout, Fitting, Layout, OpenView, Pending, ProjectView, Remember, Views};
use openatelier::logo::{outline, path_data, tokens, Piece, Token, Word};
use openatelier::project::Preset;
use openatelier::selection::Selection;
use openatelier::text::trim;

fn secs(s: i64) -> Time {
    Time(s * SECOND)
}

fn timeline() -> Sequence {
    let variant = |id: u64, name: &str, width: u32, height: u32| FormatVariant { id: VariantId(id), name: name.to_string(), width, height, overrides: Vec::new() };
    Sequence {
        id: SeqId(1),
        name: "Main".to_string(),
        rate_num: 30,
        rate_den: 1,
        active: 0,
        variants: vec![variant(5, "Landscape 16:9", 1920, 1080), variant(6, "Vertical 9:16", 1080, 1920)],
        tracks: vec![Track::new(TrackId(2), "V1".to_string(), TrackKind::Video, false), Track::new(TrackId(3), "A1".to_string(), TrackKind::Audio, false)],
        background: Item::new(ItemId(u64::MAX), "", ItemKind::Solid, TimeRange { start: secs(0), duration: secs(0) }),
        dividers: 0,
    }
}

fn open_editor() -> Editor {
    Editor {
        timeline: timeline(),
        video_track: TrackId(2),
        audio_track: TrackId(3),
        pool: Vec::new(),
        file: None,
        snapshot: 0,
        saved: None,
        linked: Vec::new(),
    }
}

fn prefs(codec: &str) -> ExportPrefs {
    ExportPrefs { codec: codec.to_string(), short_edge: 0, gif_fps: 12, crf: 18, encoder: "auto".to_string(), audio: true }
}

/// Sizes are even, names fit in file names, and a GIF keeps its frame rate. The factor a size
/// is scaled by is worked out here, as the window does.
#[test]
fn sizes_names_and_clock() {
    let out_size = |w: u32, h: u32, edge: u32| {
        let k = if edge == 0 { 1.0 } else { edge as f64 / w.min(h).max(1) as f64 };
        [even((w as f64 * k).round() as u32), even((h as f64 * k).round() as u32)]
    };
    assert_eq!(out_size(1920, 1080, 0), [1920, 1080]);
    assert_eq!(out_size(1920, 1080, 720), [1280, 720]);
    assert_eq!(out_size(1080, 1920, 2160), [2160, 3840]);
    assert_eq!(safe_name("Vertical 9:16"), "Vertical 9-16");
    assert_eq!(safe_name(" a/b\\c:d "), "a-b-c-d");
    assert_eq!(safe_name(&safe_name("\u{2003}Ünï 1/2. ")), safe_name("\u{2003}Ünï 1/2. "), "once is enough");
    assert_eq!(codec_of("gif", 12), VideoCodec::Gif { fps: 12 });
}

/// Spaces and letters are the ones Unicode says.
#[test]
fn characters_are_told_apart() {
    for c in (0..0x1_1000).filter_map(char::from_u32) {
        let s = format!("{c}x{c}");
        assert_eq!(trim(&s), s.trim(), "{:x}", c as u32);
        let stays = c.is_alphanumeric() || c == ' ' || c == '-' || c == '.';
        assert_eq!(safe_name(&format!("x{c}x")).chars().nth(1), Some(if stays { c } else { '-' }), "{:x}", c as u32);
    }
}

#[test]
fn resolutions_keep_the_shape() {
    let scale_to = |w: u32, h: u32, edge: u32| {
        let k = edge as f64 / w.min(h).max(1) as f64;
        (scaled_side(((w as f64 * k) / 2.0).round() as u32), scaled_side(((h as f64 * k) / 2.0).round() as u32))
    };
    assert_eq!(scale_to(1920, 1080, 2160), (3840, 2160));
    assert_eq!(scale_to(1080, 1920, 720), (720, 1280));
    // A custom shape scales too, staying even.
    assert_eq!(scale_to(1000, 600, 1080), (1800, 1080));
}

#[test]
fn odd_names_are_made_safe() {
    assert_eq!(safe_name(" a/b\\c?. "), "a-b-c-.");
    assert_eq!(safe_name("Ünïcode 2"), "Ünïcode 2");
    assert_eq!(stem(Some("film.oaproj.json")), "film");
    assert_eq!(file_name("film", "mp4"), "film.mp4");
    assert_eq!(format_file_name("film", "Vertical 9:16", "mp4"), "film - Vertical 9-16.mp4");
    assert_ne!(filter_name("gif"), filter_name("mp4"));
}

#[test]
fn file_types_know_what_they_take() {
    assert!(types().len() >= 6);
    assert_eq!(type_of("gif").ext, "gif");
    assert_eq!(type_of("no such").key, types()[0].key);
    assert_eq!(resolutions()[0], (0, "Full"));
    let mut p = prefs("h264");
    assert!(p.parts().quality && p.parts().hardware && p.with_sound());
    p.pick_type("gif");
    assert_eq!(p.short_edge, 480);
    assert!(p.parts().frame_rate && !p.parts().quality && !p.with_sound());
    assert_eq!(p.encoder_used(), Encoder::Ffmpeg);
    p.set_quality(100);
    assert_eq!((p.crf, p.quality(), p.quality_label()), (12, 28, "Very high"));
    assert_eq!(prefs("h264").encoder_used(), Encoder::Auto);
    assert_eq!(alpha_note(true, false), AlphaNote::Lost);
    assert_eq!(alpha_note(false, true), AlphaNote::Nothing);
    assert!(see_through(None, true) && !see_through(Some("blur"), true));
}

#[test]
fn parts_of_the_timeline_are_exported() {
    assert_eq!(kept_part(Some((secs(-1), secs(99))), secs(10)), Some((secs(0), secs(10))));
    assert_eq!(kept_part(None, secs(10)), None);
    assert_eq!(part_from(secs(8), secs(10)), (secs(8), secs(10)));
    assert_eq!(part_from(secs(1), secs(10)), (secs(1), secs(6)));
    let (a, b) = part_between(secs(5), secs(5), secs(10));
    assert!(a.0 < b.0);
    let ranges = vec![TimeRange { start: secs(4), duration: secs(1) }, TimeRange { start: secs(1), duration: secs(2) }];
    assert_eq!(selected_part(&ranges, false), Some((secs(1), secs(5))));
    assert_eq!(selected_part(&ranges, true), None);
}

#[test]
fn every_format_is_exported() {
    let s = timeline();
    assert_eq!(targets(1, 2), vec![1]);
    assert_eq!(targets(usize::MAX, 2), vec![0, 1]);
    assert_eq!(first_choice(&vec![VariantId(5), VariantId(6)], VariantId(6)), 1);
    let one = queue_exports(&s, 0, &prefs("h264"), None, "film");
    assert_eq!(one.len(), 1);
    assert_eq!(one[0].name, "film.mp4");
    let all = queue_exports(&s, usize::MAX, &prefs("h264"), Some((secs(1), secs(3))), "film");
    assert_eq!(all.iter().map(|j| j.name.as_str()).collect::<Vec<&str>>(), vec!["film - Landscape 16-9.mp4", "film - Vertical 9-16.mp4"]);
    assert_eq!(all[0].range, Some(TimeRange { start: secs(1), duration: secs(2) }));
}

#[test]
fn exports_are_followed_to_the_end() {
    assert!(matches!(poll(Said::Nothing), Poll::Running));
    assert!(matches!(poll(Said::Result(Ok(5))), Poll::Finished(Ok(5))));
    assert!(matches!(poll(Said::Gone), Poll::Finished(Err(e)) if e == "the export stopped unexpectedly"));
    assert!(preview_due(None) && preview_due(Some(300)) && !preview_due(Some(10)));
    assert_eq!(next_step(true, false), Next::Canceled);
    assert_eq!(next_step(false, true), Next::Finish);
    assert_eq!(next_step(false, false), Next::Batch);
    let lines = export_lines(3, 10, 2, "x264");
    assert!(lines.frame.starts_with("Frame 3"));
    assert_eq!((lines.queued.as_deref(), lines.encoder.as_deref(), lines.cancel), (Some(" · 2 more queued"), Some("with x264"), "Cancel all"));
    assert_eq!(export_lines(0, 10, 0, "").cancel, "Cancel");
}

#[test]
fn formats_are_stepped_named_and_turned() {
    assert_eq!(edges().len(), 4);
    assert_eq!((edge_label(2160), edge_label(500)), ("4K".to_string(), "500p".to_string()));
    assert_eq!((step(1080, true), step(720, false), step(2160, true)), (1440, 2160, 720));
    assert_eq!((even_up(7), even_up(8)), (8, 8));
    assert_eq!((scaled_side(0), scaled_side(3)), (2, 6));
    assert_eq!(custom_name(None, 100, 50), "Custom 100×50");
    assert_eq!(custom_name(Some("Square"), 100, 100), "Square");
    assert_eq!(turned_name("16:9", Some("16:9"), Some("9:16")), Some("9:16".to_string()));
    assert_eq!(turned_name("Mine", Some("16:9"), Some("9:16")), None);
    assert_eq!(turned(1920, 1080), (1080, 1920));
    assert_eq!(renamed("  New ", "Old"), Some("New".to_string()));
    assert_eq!(renamed(" ", "Old"), None);
    assert!(removable(2, 1) && !removable(2, 0));
    assert_eq!(shown_format(9, 2), 1);
    assert_ne!(format_tip(0), format_tip(1));
}

#[test]
fn stepping_out_of_a_compound_comes_back() {
    let here = Place { seq: SeqId(1), video_track: TrackId(2), audio_track: TrackId(3), variant: 1, playhead: secs(7) };
    let mut trail = Trail { here, crumbs: Vec::new() };
    assert_eq!(edit_tracks(&timeline()), Some((TrackId(2), TrackId(3))));
    let mut e = open_editor();
    let clip = |id: u64, kind: ItemKind| Item::new(ItemId(id), "", kind, TimeRange { start: secs(1), duration: secs(2) });
    e.timeline.tracks[0].items = vec![
        clip(10, ItemKind::Nested { sequence: SeqId(20) }),
        clip(11, ItemKind::Nested { sequence: SeqId(21) }),
        clip(12, ItemKind::Text),
    ];
    let inner = timeline();
    let mut bare = timeline();
    bare.tracks = Vec::new();
    assert_eq!(trail.open_compound(&e, ItemId(99), Some(&inner), secs(0)), Opening::Nothing, "it's gone");
    assert_eq!(trail.open_compound(&e, ItemId(12), Some(&inner), secs(0)), Opening::Nothing, "it's a title");
    assert_eq!(trail.open_compound(&e, ItemId(10), None, secs(0)), Opening::Nothing, "its timeline is gone");
    assert_eq!(trail.open_compound(&e, ItemId(10), Some(&bare), secs(0)), Opening::NoTracks);
    assert_eq!(no_tracks(), "This compound clip has no tracks to edit.");
    assert!(trail.crumbs.is_empty());
    assert_eq!(trail.main_timeline(None, VariantId(5)), (SeqId(1), VariantId(5)));
    assert_eq!(trail.open_compound(&e, ItemId(10), Some(&inner), secs(-1)), Opening::Opened);
    assert_eq!((trail.here.seq, trail.here.playhead), (SeqId(20), secs(0)));
    assert_eq!(trail.open_compound(&e, ItemId(11), Some(&inner), secs(1)), Opening::Opened);
    let mut main = timeline();
    assert_eq!(trail.main_timeline(Some(&main), VariantId(9)), (SeqId(1), VariantId(6)));
    main.variants.truncate(1);
    assert_eq!(trail.main_timeline(Some(&main), VariantId(9)), (SeqId(1), VariantId(5)), "the last format there is");
    main.variants.clear();
    assert_eq!(trail.main_timeline(Some(&main), VariantId(9)), (SeqId(21), VariantId(9)), "it can't be shown");
    assert_eq!(trail.main_timeline(None, VariantId(9)), (SeqId(21), VariantId(9)), "it's gone");
    let mut sel = Selection { primary: Some(ItemId(1)), members: vec![ItemId(1), ItemId(2)] };
    sel.entered(&e.timeline, Some(ItemId(10)));
    assert_eq!((sel.primary, sel.members.clone()), (Some(ItemId(10)), vec![ItemId(10)]));
    sel.entered(&e.timeline, Some(ItemId(99)));
    assert!(sel.primary.is_none() && sel.members.is_empty());
    assert_eq!(trail.levels_to(0), 2);
    assert_eq!(trail.levels_gone(&vec![true, true], true), 0);
    assert_eq!(trail.levels_gone(&vec![true, false], true), 2);
    assert_eq!(trail.close_compound(2), Some(ItemId(10)));
    assert_eq!((trail.here.seq, trail.here.playhead, trail.crumbs.len()), (SeqId(1), secs(7), 0));
    assert_eq!(trail.close_compound(1), None);
}

#[test]
fn layouts_follow_the_format() {
    assert_eq!(layout(None, Layout::Auto), Layout::Auto);
    assert_eq!(layout(Some(Layout::Vertical), Layout::Auto), Layout::Vertical);
    assert!(vertical_layout(Layout::Auto, 1080, 1920) && !vertical_layout(Layout::Auto, 1920, 1080));
    let mut view = ProjectView { layout: None, variant: Some(6), inspector: 1, media: 2, timeline: 3, viewer: 4 };
    assert_eq!(restored_format(view, &vec![5, 6], 0), 1);
    let mut open = OpenView { view, settings: Layout::Auto, epoch: 3 };
    open.toggle_layout(1080, 1920);
    assert_eq!((open.view.layout, open.settings, open.epoch), (Some(Layout::Standard), Layout::Auto, 4));
    assert!(!open.vertical_layout(1080, 1920));
    open.toggle_layout(1080, 1920);
    assert!(open.vertical_layout(1080, 1920) && open.epoch == 5);
    let plain = ProjectView { layout: None, variant: None, ..view };
    assert_eq!(open.restore_view(None, plain, &vec![5, 6], 1), 1);
    assert_eq!((open.view, open.epoch), (plain, 6));
    assert_eq!(open.restore_view(Some(view), plain, &vec![5, 6], 0), 1);
    assert_eq!(open.view, view);
    view.note_sizes(true, 9, 8, 7);
    assert_eq!((view.viewer, view.inspector, view.media, view.timeline), (9, 1, 8, 7));
    let mut views = Views { entries: Vec::new() };
    for k in ["/c", "/a", "/b"] {
        views.remember(k, view, 2);
    }
    assert_eq!(views.entries.len(), 2);
    assert!(views.get("/a").is_none() && views.get("/b").is_some());
    assert!(!views.is_news("/b", view, false), "it's seen the same way");
    assert!(views.is_news("/a", view, false) && !views.is_news("/a", view, true), "not while something is dragged");
    // What's remembered comes back, and the others stay as they were.
    let wide = ProjectView { inspector: 77, ..view };
    views.remember("/b", wide, 2);
    assert_eq!((views.get("/b"), views.get("/c")), (Some(wide), Some(view)));
}

#[test]
fn windows_are_fitted_and_remembered() {
    assert_eq!(fit_window(0, true, false, false, false, true, false), Fitting::Wait);
    assert_eq!(fit_window(40, true, false, false, false, true, false), Fitting::Fit);
    assert_eq!(fit_window(0, true, true, true, false, false, false), Fitting::Maximize);
    assert_eq!(fit_window(0, true, true, false, false, false, false), Fitting::Keep);
    let mut p = Pending { held: None, saved: None };
    assert_eq!(p.remember_window(true, 1600, 900, false, false, 0), Remember::Nothing, "it's being fitted");
    assert_eq!(p.remember_window(false, 1600, 900, false, true, 0), Remember::Nothing);
    assert_eq!(p.remember_window(false, 1600, 900, false, false, 0), Remember::Later);
    assert_eq!(p.remember_window(false, 1600, 900, false, false, 600), Remember::Save);
    assert_eq!(p.remember_window(false, 1600, 900, false, false, 700), Remember::Nothing);
}

#[test]
fn the_editor_gives_up_at_the_third_failure() {
    let mut g = Guard { failed: 0 };
    assert!(!g.failed(true, "x").home);
    assert!(!g.failed(true, "x").home);
    let last = g.failed(false, "x");
    assert!(last.home && !last.save);
    g.failed(true, "x");
    g.went_well();
    assert_eq!(g.failed, 0);
    assert_eq!(kept_selection(Some(ItemId(1)), &vec![ItemId(2)]), None);
    assert_eq!(kept_selected(&vec![ItemId(1), ItemId(2)], &vec![ItemId(2)]), vec![ItemId(2)]);
    assert_eq!(safe_timeline(SeqId(5), false, Some(SeqId(1))), SeqId(1));
    assert_eq!(safe_timeline(SeqId(5), true, Some(SeqId(1))), SeqId(5));
}

#[test]
fn the_logo_is_read_from_its_drawing() {
    let svg = "<svg><path fill=\"none\" d=\"M0 0h24v24H0z\"/><path d=\"M1.5-2l3 4C1 2 3 4 5 6z\"/></svg>";
    let d = path_data(svg).expect("a path");
    assert_eq!(d, "M1.5-2l3 4C1 2 3 4 5 6z");
    assert_eq!(path_data("<svg><path d=\"M0 0z\"/></svg>"), None, "too little to be the mark");
    let read = tokens(&d);
    assert!(matches!(&read[1], Token::Number(n) if n == "1.5"));
    assert!(matches!(&read[2], Token::Number(n) if n == "-2"), "a sign starts a new number");
    let words: Vec<Word> = read.iter().map(|t| match t {
        Token::Command(c) => Word::Command(*c),
        Token::Number(_) => Word::Number,
    }).collect();
    let drawn = outline(&words);
    assert!(drawn.iter().any(|p| p.piece == Piece::Line && p.relative));
}

#[test]
fn colors_are_called_what_they_are() {
    assert_ne!(range_label(Range::Full), range_label(Range::Limited));
    assert_ne!(matrix_label(Matrix::Bt709), matrix_label(Matrix::Bt2020));
    assert_eq!(choice_label(true, "x", "Rec. 709"), "Automatic (Rec. 709)");
    assert_eq!(tone_map_label("filmic", false), "Filmic");
    assert_eq!(tone_map_label("", true), "Automatic (off)");
    assert_ne!(source_hint(true), source_hint(false));
}

#[test]
fn values_follow_the_sound_of_clips() {
    let clips = vec![(ItemId(1), Some("a".to_string())), (ItemId(2), None), (ItemId(1), Some("b".to_string()))];
    let list = heard(&clips);
    assert_eq!(list.iter().map(|h| (h.id, h.name.as_str())).collect::<Vec<(ItemId, &str)>>(), vec![(ItemId(1), "a")]);
    assert_eq!(source_name(SoundSource::Item(ItemId(1)), &list), "a");
    assert_ne!(source_name(SoundSource::Mix, &list), "a");
    assert_eq!(use_selected(&vec![ItemId(1), ItemId(5)], ItemId(5), &list), Some(ItemId(1)));
    assert!(!band_tip(SoundBand::Bass).is_empty());
    let mut f = Follower { ready: false, document: 0, files: 0, complete: false };
    assert_eq!(f.refresh(3, 1, true), Refresh::Build);
    assert_eq!(f.refresh(3, 1, false), Refresh::Keep);
    assert!(f.is_current(3) && !f.is_current(4));
    assert_eq!(f.nothing_follows(4), Refresh::Drop);
}

#[test]
fn formats_are_added_turned_and_removed() {
    let e = open_editor();
    let fresh = VariantId(9);
    let c = e.format_action(Action::Select(1), fresh);
    assert!(c.ops.is_empty() && c.shows == Shows::This(1));
    let c = e.format_action(Action::Add(Preset { name: "Square 1:1".to_string(), width: 1080, height: 1080 }), fresh);
    assert_eq!((c.label, c.shows), ("Add format", Shows::This(2)));
    assert!(matches!(&c.ops[0], Op::InsertVariant { index: 2, variant, make_active: false, .. } if variant.name == "Square 1:1" && variant.id == fresh));
    let c = e.format_action(Action::AddCustom { width: 100, height: 50, preset: None }, fresh);
    assert!(matches!(&c.ops[0], Op::InsertVariant { variant, .. } if variant.name == "Custom 100×50"));
    let turn = |was: &str| e.format_action(Action::Rotate { variant: VariantId(5), was: Some(was.to_string()), becomes: Some("Vertical 9:16".to_string()) }, fresh);
    let c = turn("Landscape 16:9");
    assert!(matches!(c.ops[0], Op::SetVariantSize { width: 1080, height: 1920, .. }));
    assert!(matches!(&c.ops[1], Op::SetVariantName { name, .. } if name == "Vertical 9:16"));
    assert_eq!(turn("Another").ops.len(), 1, "a format that was renamed keeps its name");
    assert!(e.format_action(Action::Rotate { variant: VariantId(77), was: None, becomes: None }, fresh).ops.is_empty());
    let c = e.format_action(Action::Remove(VariantId(6)), fresh);
    assert!(c.shows == Shows::Within && matches!(c.ops[0], Op::RemoveVariant { variant: VariantId(6), .. }));
    assert_eq!(shown_format(1, 1), 0);
    let c = e.format_action(Action::Rename { variant: VariantId(6), name: "Tall".to_string() }, fresh);
    assert!(c.label == "Rename format" && c.shows == Shows::Same);
    let c = e.format_action(Action::Resize { variant: VariantId(6), width: 720, height: 1280 }, fresh);
    assert!(matches!(c.ops[0], Op::SetVariantSize { width: 720, height: 1280, .. }));
    assert_eq!(connection_title("Clip", "transform.opacity"), "Connection — Clip · opacity");
}
