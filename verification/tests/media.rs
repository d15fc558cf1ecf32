//! The media bin, its folders, the asset library, the start page and the fonts.
use openatelier::assets::{
    asset_order, folder_name_error, in_folder, is_read, kind_of, kind_word, landing, nth_name, visit, Asset, Found, Visit,
};
use openatelier::audition::Audition;
use openatelier::autosave::{origin_path, recoverable, Autosave, Left, Original, Recovery, Tick, NANOS};
use openatelier::bin::{
    clock, compound_card, compound_detail, compound_picture, counted, empty_note, is_shown, media_card, shown_cards, swap_texts, swapped_length,
    two_parts, BinDrop, BinSort, BinTab, BinView, Border, Card, Entry, Pointer, Typed,
};
use openatelier::deps::{how_to_install, missing_tools, Deps, System};
use openatelier::doc::{Item, ItemId, ItemKind, MediaId, MediaKind, Op, SeqId, Sequence, Time, TimeMap, TimeRange, Track, TrackId, TrackKind, SECOND};
use openatelier::folders::{
    bin_folders, child_folders, child_of, count_within, folder_error, inside, is_within, last_step, move_to_folder, new_folder, removal,
    remove_folder, steps_to,
    FolderError,
};
use openatelier::fontpick::{font_needle, found_families, picked_family, shown_family, FontSamples, Sample, PER_FRAME};
use openatelier::home::{
    edge, has_unsaved, load_png, plugin_count, plugin_face, project_tip, recovery_card, shown_name, to_picture, Channels, Edge, HomeTab, Screen, Stored,
};
use openatelier::i18n::Active;
use openatelier::icons::Shape;
use openatelier::order::{sorted, sorted_names, Key};

fn secs(s: i64) -> Time {
    Time(s * SECOND)
}

fn names(list: &[&str]) -> Vec<String> {
    list.iter().map(|s| s.to_string()).collect()
}

fn asset(path: &str, folder: &str, kind: MediaKind) -> Asset {
    Asset { path: path.to_string(), name: path.rsplit('/').next().unwrap_or("").to_string(), kind, folder: folder.to_string() }
}

fn card(id: u64, name: &str, kind: MediaKind, folder: &str) -> Card {
    media_card(MediaId(id), name, "1920×1080 · 0:05 · h264", kind, 0, false, None, secs(5), secs(3), folder)
}

/// The library is just a folder: files in it are assets, folders are folders, and anything
/// that isn't media is ignored.
#[test]
fn the_library_is_a_folder() {
    let known = names(&["wav", "png", "mp4"]);
    let found = |path: &str, directory: bool, ext: Option<&str>| Found {
        path: path.to_string(),
        name: path.rsplit('/').next().unwrap_or("").to_string(),
        directory,
        ext: ext.map(|e| e.to_string()),
    };
    assert!(matches!(visit(found("/l/whoosh.wav", false, Some("wav")), "", &known), Visit::Asset(a) if a.kind == MediaKind::Audio && a.folder.is_empty()));
    assert!(matches!(visit(found("/l/notes.txt", false, Some("txt")), "", &known), Visit::Skip), "the text file isn't media");
    assert!(matches!(visit(found("/l/logos", true, None), "", &known), Visit::Folder(f) if f == "logos"));
    let logo = match visit(found("/l/logos/mark.png", false, Some("PNG")), "logos", &known) {
        Visit::Asset(a) => a,
        _ => panic!("the logo"),
    };
    assert_eq!((logo.kind, logo.folder.as_str()), (MediaKind::Still, "logos"));
    // Preview ids are stable per path and never look like a project's own media id.
    assert_eq!(logo.preview_id(), logo.preview_id());
    assert!(logo.preview_id().0 > (1 << 62));
    assert_ne!(logo.preview_id(), asset("/l/whoosh.wav", "", MediaKind::Audio).preview_id());
    assert_eq!(kind_of(None, &known), None);
    assert!(is_read("a/b/c/d/e/f/g") && !is_read("a/b/c/d/e/f/g/h"));
}

#[test]
fn assets_are_listed_by_folder() {
    let items = vec![asset("/l/b.wav", "", MediaKind::Audio), asset("/l/x/a.wav", "x", MediaKind::Audio), asset("/l/A.wav", "", MediaKind::Audio)];
    let order = asset_order(&items);
    assert_eq!(order.iter().map(|&i| items[i].name.as_str()).collect::<Vec<&str>>(), vec!["A.wav", "b.wav", "a.wav"]);
    assert_eq!(in_folder(&items, ""), vec![0, 2]);
    assert_eq!(kind_word(MediaKind::Still), "picture");
}

/// Saving to the library gives a second copy of the same name its own.
#[test]
fn copies_get_names_of_their_own() {
    let lands = |taken: &[bool]| landing("beep.wav", "beep", ".wav", &taken.to_vec());
    assert_eq!(lands(&[false, false]), Some("beep.wav".to_string()));
    assert_eq!(lands(&[true, false]), Some("beep 2.wav".to_string()));
    // Where every name looked at is taken, there's no name that would replace a file.
    assert_eq!(lands(&[true; 200]), None);
    assert_eq!(lands(&[]), None);
    let mut many = vec![true; 200];
    many.push(false);
    assert_eq!(lands(&many), Some("beep 201.wav".to_string()));
    assert_eq!(nth_name("beep.wav", "beep", ".wav", 2), "beep 3.wav");
    assert!(folder_name_error("a/b").is_some() && folder_name_error("a\\b").is_some() && folder_name_error("ab").is_none());
}

#[test]
fn auditions_play_one_at_a_time() {
    let mut a = Audition { playing: None };
    assert!(a.audition("x.wav", secs(3)).is_some());
    a.started("x.wav");
    assert!(a.auditioning("x.wav") && !a.auditioning("y.wav"));
    assert_eq!(a.audition("x.wav", secs(3)), None, "again: it stops");
    a.started("y.wav");
    a.tick(true, false);
    assert!(!a.auditioning("y.wav"), "the timeline plays");
}

/// Only changed work that isn't saved is autosaved, one write at a time.
#[test]
fn autosaves_only_changed_dirty_work() {
    let mut a = Autosave::new(0, 0);
    assert!(matches!(a.tick(1, false, 10, None), Tick::Clear | Tick::Nothing), "clean projects aren't autosaved");
    assert!(matches!(a.tick(1, true, 20, None), Tick::Write));
    assert!(a.pending, "writing in the background");
    assert!(matches!(a.tick(1, true, 30, None), Tick::Nothing), "one at a time");
    assert!(matches!(a.tick(1, true, 40, Some(Ok(()))), Tick::Report(Ok(()))), "and it gets there");
    assert!(matches!(a.tick(1, true, 50, None), Tick::Nothing), "unchanged since the last autosave");
    assert!(matches!(a.tick(2, true, 60, None), Tick::Write));
    assert!(matches!(a.tick(2, true, 70, Some(Err("full".to_string()))), Tick::Report(Err(e)) if e == "full"));
    assert!(matches!(a.tick(2, true, 80, None), Tick::Write), "a failed write is tried again");
    a.wrote(3, 90);
    assert!(!a.pending && a.written == Some(3), "written at once, with nothing left to wait for");
    assert!(matches!(a.tick(3, true, 95, None), Tick::Nothing));
}

#[test]
fn other_sessions_work_is_recoverable() {
    let left = |path: &str, modified: i128| Left { path: path.to_string(), origin: None, modified };
    let files = vec![left("/a/1.oaproj.json", 5), left("/a/2.oaproj.json", 9), left("/a/me.oaproj.json", 10), left("/a/x.tmp", 11)];
    assert_eq!(recoverable(&files, "/a/me.oaproj.json"), vec![1, 0], "newest first, not its own");
    let close = vec![left("/a/1.oaproj.json", 7 * NANOS + 1), left("/a/2.oaproj.json", 7 * NANOS + 2)];
    assert_eq!(recoverable(&close, "/a/me.oaproj.json"), vec![1, 0], "within one second too");
    assert_eq!(origin_path(Some(" C:/x/one.oaproj.json\n".to_string())), Some("C:/x/one.oaproj.json".to_string()));
    assert_eq!(origin_path(Some("  ".to_string())), None);
    let r = Recovery {
        file: "/a/1.oaproj.json".to_string(),
        original: Some(Original { path: "/p/one.oaproj.json".to_string(), name: "one.oaproj.json".to_string() }),
        modified: 1_000 * NANOS,
    };
    assert_eq!(r.age(1_030 * NANOS), "moments ago");
    assert_eq!(r.age(1_060 * NANOS - 1), "moments ago");
    assert_eq!(r.age(1_060 * NANOS), "1 min ago");
    assert_eq!(r.age(0), "moments ago", "it's from the future");
    assert_eq!(r.age((1_000 + 7_200) * NANOS), "2 h ago");
    assert_eq!(r.age((1_000 + 3 * 86_400) * NANOS), "3 days ago");
    assert!(!r.name().is_empty());
    assert!(has_unsaved(&vec![r], "/p/one.oaproj.json"));
}

#[test]
fn unsaved_work_offers_what_it_can() {
    let of = |original: Option<Original>| Recovery { file: "/a/1".to_string(), original, modified: 0 };
    let one = || Original { path: "/p/one".to_string(), name: "one".to_string() };
    let there = recovery_card(&of(Some(one())), true);
    assert!(there.as_changes && there.icon == Shape::Warning && there.title == "Unsaved changes to one");
    let gone = recovery_card(&of(Some(one())), false);
    assert!(!gone.as_changes && gone.title == "Unsaved work from one (its file is gone)");
    assert_eq!(recovery_card(&of(None), true).title, "Unsaved work from an untitled project");
    assert!(project_tip("/p/one", true).starts_with("/p/one\n"));
    assert_eq!(edge(false, true, true), Edge::Unsaved);
    assert_eq!(edge(false, false, true), Edge::Missing);
    assert_eq!(edge(true, false, true), Edge::Hovered);
    assert_eq!(shown_name("", "one.oaproj.json"), "one.oaproj.json");
    assert_eq!(HomeTab::default(), HomeTab::Projects);
    assert_ne!(Screen::Home, Screen::Editor);
}

#[test]
fn moments_are_told_in_words() {
    let active = Active::default();
    assert_eq!(openatelier::home::when(&active, Some(120)), "2 min ago");
    assert_ne!(openatelier::home::when(&active, None), openatelier::home::when(&active, Some(10)));
    assert!(plugin_count(&active, &vec![true, false, true]).contains('3'));
    let face = plugin_face(&active, "1.2", "Ann", "", false, "/plugins/x", false);
    assert_eq!((face.version.as_str(), face.source.as_str()), ("v1.2", "/plugins/x"));
    assert!(face.off && face.description.is_none() && face.author.is_some_and(|a| a.contains("Ann")));
    let own = plugin_face(&active, "1.2", "", "Core.", true, "", true);
    assert!(!own.off && own.builtin && own.author.is_none() && own.switch != face.switch);
}

fn png_of(width: u32, height: u32, color: png::ColorType, bytes: &[u8]) -> Vec<u8> {
    let mut out = Vec::new();
    let mut encoder = png::Encoder::new(&mut out, width, height);
    encoder.set_color(color);
    encoder.set_depth(png::BitDepth::Eight);
    encoder.write_header().unwrap().write_image_data(bytes).unwrap();
    out
}

#[test]
fn pictures_are_read_from_png_files() {
    let file = png_of(2, 1, png::ColorType::Rgba, &[10, 20, 30, 255, 200, 100, 0, 128]);
    let p = load_png(&file).expect("a picture");
    assert_eq!((p.width, p.height), (2, 1));
    assert_eq!(p.pixels[0], [10, 20, 30, 255]);
    assert_eq!(p.pixels[1], [100, 50, 0, 128], "colors are lighter where it's clear");
    let rgb = load_png(&png_of(1, 1, png::ColorType::Rgb, &[1, 2, 3])).expect("a picture");
    assert_eq!(rgb.pixels, vec![[1, 2, 3, 255]]);
    assert!(load_png(&png_of(1, 1, png::ColorType::Grayscale, &[9])).is_none());
    assert!(load_png(&png_of(1, 1, png::ColorType::GrayscaleAlpha, &[9, 8])).is_none());
    assert!(load_png(&vec![1, 2, 3]).is_none());
    let short = Stored { width: 2, height: 2, channels: Channels::Rgb, bytes: vec![1, 2, 3] };
    assert_eq!(to_picture(&short).map(|p| p.pixels), Some(vec![[1, 2, 3, 255]]));
}

#[test]
fn cards_are_searched_and_sorted() {
    let mut view = BinView::default();
    let cards = vec![card(1, "Zebra.mp4", MediaKind::Video, ""), card(2, "apple.png", MediaKind::Still, ""), card(3, "zoo.wav", MediaKind::Audio, "sounds")];
    assert_eq!(shown_cards(&view, &cards), vec![0, 1], "this folder, in the order they came");
    view.sort = BinSort::Name;
    assert_eq!(shown_cards(&view, &cards), vec![1, 0]);
    view.search = "  Z ".to_string();
    assert_eq!(shown_cards(&view, &cards), vec![0, 2], "searching looks everywhere");
    view.descending = true;
    assert_eq!(shown_cards(&view, &cards), vec![2, 0]);
    assert!(is_shown(&cards[2], "zoo.wav", "", "sounds") && !is_shown(&cards[2], "zoo.wav", "", ""));
    assert_eq!(BinSort::all().len(), 4);
    assert_eq!(BinSort::Length.label(), "Length");
    assert_eq!(empty_note(" "), "Nothing imported yet — drop files here, or use Import.");
    assert_eq!(empty_note("x"), "Nothing matches.");
    assert_eq!(view.tab, BinTab::Project);
}

#[test]
fn a_card_says_what_it_is() {
    let at = Pointer { hovered: true, over_listen: false, over_plus: true, clicked: true, double_clicked: false, drag_started: true };
    let c = card(1, "a.mp4", MediaKind::Video, "");
    assert!(c.used(at).add && c.used(at).drag);
    assert_eq!(c.face(false, false, at).icon, Some('🎞'));
    assert_eq!(c.line(), "1920×1080 · 0:05");
    assert_eq!(two_parts("one"), "one");
    assert!(c.tip().starts_with("a.mp4\n"));
    assert!(c.menu(false, true).color && !c.menu(false, false).color);
    let lost = media_card(MediaId(1), "a.mp4", "", MediaKind::Video, 0, true, None, secs(5), secs(3), "");
    assert!(!lost.used(at).add && !lost.used(at).drag);
    assert_eq!(lost.face(true, false, at).border, Border::Missing);
    assert_eq!(lost.line(), "missing");
    let d: BinDrop = c.dragged();
    assert!(d.is_in(Some(ItemKind::Media { media: MediaId(1) })) && !d.is_in(Some(ItemKind::Text)) && !d.is_in(None));
    assert_eq!(d.kind(), ItemKind::Media { media: MediaId(1) });
    assert_eq!(swapped_length(Entry::Media(MediaId(1)), Some(MediaKind::Still), Some(secs(2))), None);
    assert_eq!(swapped_length(Entry::Compound(SeqId(1)), None, Some(secs(2))), Some(secs(2)));
    assert_eq!(clock(secs(65)), "1:05");
    assert_eq!(clock(secs(-3)), "0:00");
    assert_eq!((counted(1, "clip"), counted(2, "clip")), ("1 clip".to_string(), "2 clips".to_string()));
}

#[test]
fn a_compound_shows_its_first_picture() {
    let mut v = Track::new(TrackId(2), "V1".to_string(), TrackKind::Video, false);
    let mut late = Item::new(ItemId(5), "b", ItemKind::Media { media: MediaId(8) }, TimeRange { start: secs(4), duration: secs(1) });
    late.time_map = TimeMap { source_in: secs(1), speed_num: 1, speed_den: 1 };
    v.items.push(Item::new(ItemId(6), "a", ItemKind::Media { media: MediaId(9) }, TimeRange { start: secs(1), duration: secs(1) }));
    v.items.push(late);
    let s = Sequence {
        id: SeqId(7),
        name: "Compound 1".to_string(),
        rate_num: 30,
        rate_den: 1,
        active: 0,
        variants: Vec::new(),
        tracks: vec![v],
        background: Item::new(ItemId(u64::MAX), "", ItemKind::Solid, TimeRange { start: secs(0), duration: secs(0) }),
        dividers: 0,
    };
    assert_eq!(compound_picture(&s).map(|p| p.media), Some(MediaId(9)));
    assert!(compound_detail(&s, secs(5)).starts_with("compound · 2 clips"));
    let c = compound_card(&s, secs(5));
    assert!(c.compound && c.entry == Entry::Compound(SeqId(7)));
}

#[test]
fn folders_are_named_in_a_box() {
    let mut view = BinView::default();
    let typed = |enter: bool, escape: bool, left: bool, name: &str| Typed { enter, escape, left, name: name.to_string() };
    view.start_naming();
    assert!(view.naming_fresh);
    view.typed(typed(false, false, false, "Lo"), false);
    assert_eq!(view.naming.as_deref(), Some("Lo"));
    view.typed(typed(true, false, true, "Logos"), false);
    assert_eq!(view.naming.as_deref(), Some("Logos"), "a name that can't be had is kept");
    view.typed(typed(true, false, true, "Logos"), true);
    assert!(view.naming.is_none());
}

#[test]
fn folders_hold_folders() {
    assert_eq!(inside("a", "b"), "a/b");
    assert_eq!(inside("", "b"), "b");
    assert_eq!(steps_to("a/b"), vec![("a".to_string(), "a".to_string()), ("b".to_string(), "a/b".to_string())]);
    assert_eq!(last_step("a/b"), "b");
    assert!(is_within("a/b", "a") && !is_within("ab", "a"));
    assert!(child_of("a/b", "a") && !child_of("a/b/c", "a") && child_of("a", ""));
    let held = names(&["a/b", "c", ""]);
    assert_eq!(count_within(&held, "a"), 1);
    let all = bin_folders(&names(&["z"]), &held);
    assert_eq!(all, names(&["a", "a/b", "c", "z"]));
    assert_eq!(child_folders(&all, &held, ""), vec![("a".to_string(), 1), ("c".to_string(), 1), ("z".to_string(), 0)]);
    let removed = remove_folder(&all, &held, "a/b", "a");
    assert_eq!(removed.moved, vec![0]);
    assert_eq!(removed.folders, names(&["c", "z"]));
    assert_eq!(removed.shown, "");
    let ops = removal(&vec![MediaId(7), MediaId(8), MediaId(9)], removed);
    assert_eq!(ops.len(), 2);
    assert!(matches!(&ops[0], Op::SetMediaFolder { media: MediaId(7), folder } if folder.is_empty()));
    assert!(matches!(&ops[1], Op::SetBinFolders { folders } if *folders == names(&["c", "z"])));
    assert!(matches!(move_to_folder(MediaId(8), "z"), Op::SetMediaFolder { media: MediaId(8), folder } if folder == "z"));
    assert!(new_folder(&all, &held, "", "new").is_ok());
    assert!(matches!(new_folder(&all, &held, "", "a/x"), Err(FolderError::Slash)));
    match new_folder(&all, &held, "a", "b") {
        Err(e) => assert!(matches!(&e, FolderError::Taken(_)) && !folder_error(&e).is_empty()),
        Ok(_) => panic!("there's one by that name"),
    }
}

#[test]
fn sorting_is_stable() {
    let key = |rank: i128, name: &str| Key { rank, group: String::new(), name: name.to_string() };
    let keys = vec![key(1, "b"), key(0, "z"), key(1, "a"), key(0, "z")];
    assert_eq!(sorted(&keys, &vec![0, 1, 2, 3]), vec![1, 3, 2, 0]);
    assert_eq!(sorted(&keys, &vec![3, 0]), vec![3, 0]);
    assert_eq!(sorted_names(&names(&["b", "a", "c"])), names(&["a", "b", "c"]));
}

#[test]
fn fonts_are_drawn_a_few_at_a_time() {
    let mut s = FontSamples::new();
    s.frame_start();
    assert_eq!(s.sample("Inter"), Sample::Make);
    s.made("Inter", true);
    assert_eq!(s.sample("Inter"), Sample::Drawn);
    s.made("Broken", false);
    assert_eq!(s.sample("Broken"), Sample::Plain);
    for i in 2..PER_FRAME {
        s.made(&format!("F{i}"), true);
    }
    assert_eq!(s.sample("One more"), Sample::Later);
    s.frame_start();
    assert_eq!(s.sample("One more"), Sample::Make);
    assert_eq!(shown_family("", "Inter"), "Inter (default)");
    let needle = font_needle(" SANS ");
    assert_eq!(found_families(&names(&["Open Sans", "Serif"]), &needle), names(&["Open Sans"]));
    assert_eq!(picked_family(Some("Inter".to_string()), "Inter"), None);
    assert_eq!(picked_family(Some("Serif".to_string()), "Inter"), Some("Serif".to_string()));
}

#[test]
fn missing_programs_are_told_once() {
    let mut d = Deps::default();
    d.check();
    assert!(d.checking && d.banner().is_none());
    d.checked(missing_tools(&names(&["ffmpeg", "ffprobe"]), &vec![true, false]));
    assert!(d.banner().is_some_and(|b| b.contains("ffprobe") && !b.contains("ffmpeg")));
    d.dismiss();
    assert!(d.banner().is_none());
    assert_ne!(how_to_install(System::Windows), how_to_install(System::Other));
}

#[test]
fn swapping_says_what_it_kept() {
    let (label, told) = swap_texts("b.mp4", None);
    assert_eq!(label, "Swap in b.mp4");
    assert!(told.starts_with("Swapped in b.mp4 — the clip kept"));
    assert_eq!(swap_texts("b.mp4", Some("no room")).1, "can't swap in b.mp4: no room");
}
