//! The command list, the texts and the icons the rest of the interface reads.
use openatelier::command::{commands, run_command, Group, State, COUNT};
use openatelier::i18n::{activate, args, available, language, language_files, system_language, t, wanted, Active, Catalog, EN};
use openatelier::icons::{all, drawn_with_font, font_dirs, font_path, hover_text, is_font, marks, material_font, Icon, Known, Mark, Shape};

fn nothing() -> State {
    State {
        selected: 0,
        one: false,
        picture: false,
        grouped: false,
        clips: false,
        exporting: false,
        can_undo: false,
        can_redo: false,
        clipboard: false,
        extractable: false,
        compound: false,
        effects: false,
        transform: false,
    }
}

/// The list is what the menus, the palette and the action bar all read, so it has to hold
/// together: unique ids, a name for each, and an icon for anything that claims a place on the
/// action bar.
#[test]
fn the_command_list_holds_together() {
    let groups = [Group::Project, Group::Edit, Group::Clip, Group::Timeline, Group::View];
    for g in groups {
        assert!(!g.title().is_empty());
    }
    let mut sorted = groups;
    sorted.sort();
    assert_eq!(sorted, groups, "groups are declared in display order");
    let everything = State { selected: 2, one: true, grouped: true, extractable: true, compound: true, ..nothing() };
    let list = commands(everything);
    let mut ids: Vec<&str> = list.iter().map(|c| c.id).collect();
    ids.sort();
    ids.dedup();
    assert_eq!(ids.len(), COUNT);
    assert!(list.iter().all(|c| !c.title.is_empty()));
    let bar: Vec<&str> = list.iter().filter(|c| c.contextual).map(|c| c.id).collect();
    assert!(bar.contains(&"clip.ungroup") && bar.contains(&"clip.break"));
    assert!(list.iter().filter(|c| c.contextual).all(|c| c.icon.is_some()));
    let mut keys: Vec<&str> = list.iter().map(|c| c.shortcut).filter(|k| !k.is_empty()).collect();
    let n = keys.len();
    keys.sort();
    keys.dedup();
    assert_eq!(keys.len(), n, "no two commands share a shortcut");
}

#[test]
fn only_what_can_be_done_is_run() {
    assert_eq!(run_command(nothing(), "edit.undo"), None);
    let able = State { can_undo: true, ..nothing() };
    let at = run_command(able, "edit.undo").expect("undo can be run");
    assert_eq!(commands(able)[at].id, "edit.undo");
    assert_eq!(run_command(able, "no.such.command"), None);
}

/// English is embedded, so keys resolve with no files around; unknown keys come back as
/// themselves rather than panicking or showing nothing.
#[test]
fn english_is_the_fallback() {
    let active = Active::default();
    assert_eq!(t(&active, "home.new_project"), "New project");
    assert_eq!(t(&active, "nope.not.a.key"), "nope.not.a.key");
    assert_eq!(args(&active, "error.name_empty", &vec![("kind", "track")]), "A track needs a name.");
}

/// Every value in the catalog is non-empty and the file parses (a broken catalog would
/// silently blank the interface).
#[test]
fn the_catalog_is_sound() {
    let en = Catalog::parse(EN);
    assert!(en.entries.len() > 20, "{} keys", en.entries.len());
    for (k, v) in &en.entries {
        assert!(!v.trim().is_empty(), "{k} is empty");
    }
}

#[test]
fn a_broken_catalog_is_empty() {
    assert!(Catalog::parse("{ not json").is_empty());
    assert!(Catalog::parse("[1, 2]").is_empty());
    assert!(!Catalog::parse("{\"a\": \"b\"}").is_empty());
}

#[test]
fn a_translation_stands_over_english() {
    let texts = vec![Some("{\"home.new_project\": \"Neues Projekt\"}".to_string())];
    let active = activate("de", &texts);
    assert_eq!(language(&active), "de");
    assert_eq!(t(&active, "home.new_project"), "Neues Projekt");
    assert_eq!(args(&active, "error.name_empty", &vec![("kind", "track")]), "A track needs a name.");
}

#[test]
fn languages_are_told_from_locales() {
    assert_eq!(system_language("de_AT.UTF-8"), "de_AT");
    assert_eq!(system_language("pt-BR"), "pt-BR");
    assert_eq!(wanted(Some("fr".to_string()), Some("de".to_string()), None), "fr");
    assert_eq!(language_files("en-GB"), vec!["en-GB".to_string()]);
    assert_eq!(language_files("pt_BR"), vec!["pt".to_string(), "pt_BR".to_string()]);
    let listed = available(&vec!["fr".to_string(), "de".to_string(), "fr".to_string()]);
    assert_eq!(listed, vec!["de".to_string(), "en".to_string(), "fr".to_string()]);
}

/// Every icon has a name, a codepoint in Material's private-use range, and its own drawn
/// shape: the three have to agree, because the font can be missing.
#[test]
fn icons_are_complete() {
    for icon in all() {
        assert!(!icon.name.is_empty());
        let c = icon.code as u32;
        assert!((0xe000..=0xf8ff).contains(&c), "{} is {c:#x}, not a Material codepoint", icon.name);
    }
    let mut codes: Vec<u32> = all().iter().map(|i| i.code as u32).collect();
    codes.sort();
    let count = codes.len();
    codes.dedup();
    assert_eq!(codes.len(), count, "two icons share a codepoint");
}

#[test]
fn shapes_are_drawn() {
    for icon in all() {
        assert!(!marks(icon.shape).is_empty(), "{}", icon.name);
    }
    let play = marks(Shape::Play);
    assert!(matches!(play[0], Mark::Corner(_, _)));
    assert_eq!(Icon::of(Shape::Play).name, Icon::of(Shape::Play).name);
}

#[test]
fn fonts_are_found_by_name() {
    assert!(is_font("materialsymbolsrounded.ttf"));
    assert!(!is_font("notes.txt"));
    assert_eq!(font_dirs("/home/me/.config/oa/fonts"), vec!["/home/me/.config/oa/fonts", "assets/fonts"], "one's own font wins");
    let font = || Some(vec!["MaterialSymbolsRounded.ttf".to_string()]);
    assert_eq!(font_path(&vec![font(), font()]), Some((0, 0)));
    let dirs = vec![None, Some(vec!["readme.md".to_string(), "MaterialSymbolsRounded.TTF".to_string()])];
    assert_eq!(font_path(&dirs), Some((1, 1)));
    assert!(material_font(&dirs));
    assert!(!material_font(&vec![None]));
}

#[test]
fn glyphs_are_looked_up_once() {
    let mut known = Known { codes: Vec::new() };
    assert_eq!(known.recall('\u{e037}'), None);
    known.note('\u{e037}', true);
    assert_eq!(known.recall('\u{e037}'), Some(true));
    assert!(drawn_with_font(true, true));
    assert!(!drawn_with_font(true, false));
    assert_eq!(hover_text("Play", "Space", true), Some("Play  ·  Space".to_string()));
    assert_eq!(hover_text("Play", "", true), Some("Play".to_string()));
    assert_eq!(hover_text("Play", "Space", false), None);
}
