//! What holds of the windows round the timeline: the bin, the home screen, what's remembered
//! and what's recovered.
use crate::assets::{inside_folder, kind_by, slashes, sound_ext, still_ext, AssetModel};
use crate::audition::{preview_length, MOST};
use crate::autosave::{ago, after_write, by_newest, left_by_others, ticked, Autosave, LeftModel};
use crate::bin::{card_key, clip_kind, clips_on, clock_of, first_two, BinSort, CardModel, Entry};
use crate::doc::{ItemKind, MediaKind, Time, TrackModel};
use crate::guard::{after_failure, MAX_FAILED_FRAMES};
use crate::home::{ago_key, drawn, on_count, pixels_of, Channels, StoredModel};
use crate::i18n::{
    all_read, catalog_in, catalog_or_empty, files_for, languages, text_for, up_to,
};
use crate::layout::{format_place, is_vertical, layout_in, window_now, Layout, WindowState};
use crate::order::sorts_before;
use crate::seqs::filter_step;
use crate::text::{decimal, next_of, occurs_at};
use vstd::prelude::*;

verus! {

// ---- the bin ----

/// A card makes a clip of just what it's for.
pub proof fn cards_make_clips_of_what_they_are_for(entry: Entry)
    ensures
        entry matches Entry::Media(m) ==> clip_kind(entry) == (ItemKind::Media { media: m }),
        entry matches Entry::Compound(s) ==> clip_kind(entry) == (ItemKind::Nested { sequence: s }),
{
}

/// Sorted by length the shorter comes first, by kind compounds come after all files; cards as
/// they were added have no other order, and equal ones stay as they are.
pub proof fn cards_are_sorted_as_asked(a: CardModel, b: CardModel)
    ensures
        !sorts_before(card_key(a, BinSort::Added), card_key(b, BinSort::Added)),
        a.length.0 < b.length.0 ==> sorts_before(
            card_key(a, BinSort::Length),
            card_key(b, BinSort::Length),
        ),
        a.length == b.length ==> !sorts_before(
            card_key(a, BinSort::Length),
            card_key(b, BinSort::Length),
        ),
        !a.compound && a.rank < 3 && b.compound ==> sorts_before(
            card_key(a, BinSort::Kind),
            card_key(b, BinSort::Kind),
        ),
        !a.compound && !b.compound && a.rank < b.rank ==> sorts_before(
            card_key(a, BinSort::Kind),
            card_key(b, BinSort::Kind),
        ),
        sorts_before(card_key(a, BinSort::Name), card_key(b, BinSort::Name)) ==> !sorts_before(
            card_key(b, BinSort::Name),
            card_key(a, BinSort::Name),
        ),
{
    crate::text::before_is_strict(""@, ""@);
    crate::text::before_is_strict(
        card_key(a, BinSort::Name).name,
        card_key(b, BinSort::Name).name,
    );
}

/// A clock tells whole minutes and what's left of seconds, in two digits.
pub proof fn clocks_tell_minutes_and_seconds(t: Time, minutes: nat, seconds: nat)
    requires
        seconds < 60,
        (60 * minutes + seconds) * 705_600_000 <= t.0,
        t.0 < (60 * minutes + seconds + 1) * 705_600_000,
    ensures
        clock_of(t) == decimal(minutes) + ":"@ + if seconds < 10 {
            "0"@ + decimal(seconds)
        } else {
            decimal(seconds)
        },
{
    let s = t.0 as int / 705_600_000;
    assert(s == 60 * minutes + seconds);
    assert(s / 60 == minutes);
    assert(s % 60 == seconds);
}

/// How many clips there are goes up with every track by as many as it has.
pub proof fn clips_are_counted_track_by_track(tracks: Seq<TrackModel>, more: TrackModel)
    ensures
        clips_on(Seq::empty(), 0) == 0,
        clips_on(tracks.push(more), tracks.push(more).len() as int) == clips_on(tracks, tracks.len() as int)
            + more.items.len(),
{
    same_tracks_same_count(tracks.push(more), tracks, tracks.len() as int);
}

proof fn same_tracks_same_count(a: Seq<TrackModel>, b: Seq<TrackModel>, n: int)
    requires
        n <= a.len(),
        n <= b.len(),
        forall|k: int| 0 <= k < n ==> a[k] == #[trigger] b[k],
    ensures
        clips_on(a, n) == clips_on(b, n),
    decreases n,
{
    if n > 0 {
        assert(a[n - 1] == b[n - 1]);
        same_tracks_same_count(a, b, n - 1);
    }
}

/// Of a detail its start is shown, as far as the second dot; all of it, if there's none.
pub proof fn the_start_of_a_detail_is_shown(s: Seq<char>)
    ensures
        first_two(s).is_prefix_of(s),
        first_two(s) != s ==> occurs_at(s, " · "@, first_two(s).len() as int),
{
    let dot = " · "@;
    if let Some(a) = next_of(s, dot, 0) {
        next_occurs(s, dot, 0);
        if let Some(b) = next_of(s, dot, a + dot.len()) {
            next_occurs(s, dot, a + dot.len());
            assert(s.take(b) =~= s.subrange(0, b));
        }
    }
    assert(s.is_prefix_of(s));
}

proof fn next_occurs(s: Seq<char>, p: Seq<char>, from: int)
    requires
        0 <= from,
    ensures
        next_of(s, p, from) matches Some(i) ==> from <= i && i + p.len() <= s.len() && occurs_at(
            s,
            p,
            i,
        ),
    decreases s.len() + 1 - from,
{
    if from <= s.len() && !occurs_at(s, p, from) {
        next_occurs(s, p, from + 1);
    }
}

// ---- the home screen ----

/// How long ago something was is told in the largest whole unit: minutes, hours, days, weeks.
pub proof fn ages_are_told_in_whole_units(secs: u64)
    ensures
        match ago_key(secs).1 {
            None => secs < 60 && ago_key(secs).0 == "time.moments"@,
            Some(n) => n >= 1 && {
                ||| ago_key(secs).0 == "time.minutes"@ && n * 60 <= secs < (n + 1) * 60 && n < 60
                ||| ago_key(secs).0 == "time.hours"@ && n * 3600 <= secs < (n + 1) * 3600 && n < 24
                ||| ago_key(secs).0 == "time.days"@ && n * 86_400 <= secs < (n + 1) * 86_400 && n
                    < 7
                ||| ago_key(secs).0 == "time.weeks"@ && n * 604_800 <= secs < (n + 1) * 604_800
            },
        },
{
}

/// The same of what's offered for recovery: whole minutes, hours or days.
pub proof fn recovered_ages_are_whole(secs: int, n: nat)
    requires
        0 <= secs,
    ensures
        secs < 60 ==> ago(secs) == "moments ago"@,
        1 <= n < 60 && n * 60 <= secs < (n + 1) * 60 ==> ago(secs) == decimal(n) + " min ago"@,
        1 <= n < 24 && n * 3600 <= secs < (n + 1) * 3600 ==> ago(secs) == decimal(n) + " h ago"@,
        1 <= n && n * 86_400 <= secs < (n + 1) * 86_400 ==> ago(secs) == decimal(n)
            + " days ago"@,
{
    if 1 <= n < 60 && n * 60 <= secs < (n + 1) * 60 {
        assert(secs / 60 == n);
    }
    if 1 <= n < 24 && n * 3600 <= secs < (n + 1) * 3600 {
        assert(secs / 3600 == n);
    }
    if 1 <= n && n * 86_400 <= secs < (n + 1) * 86_400 {
        assert(secs / 86_400 == n);
    }
}

/// As many plugins are on as there are in the list that are.
pub proof fn plugins_that_are_on_are_counted(enabled: Seq<bool>, n: int)
    requires
        0 <= n <= enabled.len(),
    ensures
        on_count(enabled, n) == enabled.take(n).filter(|on: bool| on).len(),
    decreases n,
{
    let p = |on: bool| on;
    if n > 0 {
        plugins_that_are_on_are_counted(enabled, n - 1);
        filter_step(enabled, p, n - 1);
    } else {
        reveal_with_fuel(Seq::filter, 1);
        assert(enabled.take(n).len() == 0);
    }
}

/// Every pixel of a picture is drawn from its own bytes, in order; one without transparency is
/// drawn solid.
pub proof fn pixels_are_drawn_from_their_bytes(p: StoredModel, n: int, i: int)
    requires
        0 <= i < n,
    ensures
        pixels_of(p, n).len() == n,
        p.channels == Channels::Rgba ==> pixels_of(p, n)[i] == drawn(
            p.bytes[4 * i],
            p.bytes[4 * i + 1],
            p.bytes[4 * i + 2],
            p.bytes[4 * i + 3],
        ),
        p.channels != Channels::Rgba ==> pixels_of(p, n)[i] == seq![
            p.bytes[3 * i],
            p.bytes[3 * i + 1],
            p.bytes[3 * i + 2],
            255u8,
        ],
    decreases n,
{
    if i < n - 1 {
        pixels_are_drawn_from_their_bytes(p, n - 1, i);
    } else {
        as_many_pixels(p, n - 1);
    }
}

proof fn as_many_pixels(p: StoredModel, n: int)
    requires
        0 <= n,
    ensures
        pixels_of(p, n).len() == n,
    decreases n,
{
    if n > 0 {
        as_many_pixels(p, n - 1);
    }
}

// ---- autosaves ----

/// What's offered for recovery is every autosave of another session, and nothing else.
pub proof fn every_autosave_of_others_is_offered(files: Seq<LeftModel>, mine: Seq<char>, n: int)
    requires
        0 <= n <= files.len() <= usize::MAX,
    ensures
        ({
            let places = left_by_others(files, mine, n);
            &&& forall|a: int, b: int|
                0 <= a < b < places.len() ==> (#[trigger] places[a]) < (#[trigger] places[b])
            &&& forall|k: int|
                0 <= k < places.len() ==> (#[trigger] places[k]) < n
                    && files[places[k] as int].path != mine && ".oaproj.json"@.is_suffix_of(
                    files[places[k] as int].path,
                )
            &&& forall|i: int|
                0 <= i < n && (#[trigger] files[i]).path != mine && ".oaproj.json"@.is_suffix_of(
                    files[i].path,
                ) ==> places.contains(i as usize)
        }),
    decreases n,
{
    if n > 0 {
        every_autosave_of_others_is_offered(files, mine, n - 1);
        let before = left_by_others(files, mine, n - 1);
        let places = left_by_others(files, mine, n);
        assert forall|i: int|
            0 <= i < n && (#[trigger] files[i]).path != mine && ".oaproj.json"@.is_suffix_of(
                files[i].path,
            ) implies places.contains(i as usize) by {
            if i < n - 1 {
                let k = choose|k: int| 0 <= k < before.len() && before[k] == i as usize;
                assert(places[k] == i as usize);
            } else {
                assert(places[before.len() as int] == i as usize);
            }
        }
    }
}

/// The newest autosave comes first.
pub proof fn the_newest_autosave_comes_first(a: LeftModel, b: LeftModel)
    requires
        i128::MIN < a.modified,
        i128::MIN < b.modified,
    ensures
        a.modified > b.modified ==> sorts_before(by_newest()(a), by_newest()(b)),
        a.modified == b.modified ==> !sorts_before(by_newest()(a), by_newest()(b)),
{
    crate::text::before_is_strict(""@, ""@);
}

/// Changes are written once the interval has passed and no sooner; a write that fails is tried
/// again, one that worked isn't.
pub proof fn changes_are_written_in_time(save: Autosave, project: u64, now: u64, ok: bool)
    requires
        !save.pending,
    ensures
        ticked(save, project, true, now).1 ==> now >= save.last + save.interval || save.interval
            == 0,
        now >= save.last + save.interval && save.written != Some(project) ==> {
            let (next, writes) = ticked(save, project, true, now);
            &&& writes
            &&& next.pending && next.last == now && next.interval == save.interval
            &&& !after_write(next, ok).pending
            &&& after_write(next, true).written == Some(project)
            &&& after_write(next, false).written is None
            &&& after_write(next, ok).last == now
        },
        !ticked(save, project, true, now).1 ==> ticked(save, project, true, now).0 == save,
{
}

// ---- files ----

/// The assets in a folder are all that are right in it.
pub proof fn a_folder_shows_all_that_is_in_it(items: Seq<AssetModel>, folder: Seq<char>, n: int)
    requires
        0 <= n <= items.len() <= usize::MAX,
    ensures
        ({
            let places = inside_folder(items, folder, n);
            &&& forall|a: int, b: int|
                0 <= a < b < places.len() ==> (#[trigger] places[a]) < (#[trigger] places[b])
            &&& forall|k: int|
                0 <= k < places.len() ==> (#[trigger] places[k]) < n
                    && items[places[k] as int].folder == folder
            &&& forall|i: int|
                0 <= i < n && (#[trigger] items[i]).folder == folder ==> places.contains(
                    i as usize,
                )
        }),
    decreases n,
{
    if n > 0 {
        a_folder_shows_all_that_is_in_it(items, folder, n - 1);
        let before = inside_folder(items, folder, n - 1);
        let places = inside_folder(items, folder, n);
        assert forall|i: int|
            0 <= i < n && (#[trigger] items[i]).folder == folder implies places.contains(
            i as usize,
        ) by {
            if i < n - 1 {
                let k = choose|k: int| 0 <= k < before.len() && before[k] == i as usize;
                assert(places[k] == i as usize);
            } else {
                assert(places[before.len() as int] == i as usize);
            }
        }
    }
}

/// Only media that's known is taken; what's neither sound nor a still is video.
pub proof fn known_media_has_one_kind(ext: Seq<char>, known: Seq<Seq<char>>)
    ensures
        kind_by(ext, known) is Some <==> known.contains(ext),
        kind_by(ext, known) == Some(MediaKind::Audio) ==> sound_ext(ext),
        kind_by(ext, known) == Some(MediaKind::Still) ==> still_ext(ext),
        kind_by(ext, known) == Some(MediaKind::Video) ==> !sound_ext(ext) && !still_ext(ext),
{
}

/// The slashes of a path are counted one by one.
pub proof fn slashes_are_counted(s: Seq<char>, n: int)
    requires
        0 <= n <= s.len(),
    ensures
        slashes(s, n) == s.take(n).filter(|c: char| c == '/').len(),
    decreases n,
{
    let p = |c: char| c == '/';
    if n > 0 {
        slashes_are_counted(s, n - 1);
        filter_step(s, p, n - 1);
    } else {
        reveal_with_fuel(Seq::filter, 1);
        assert(s.take(n).len() == 0);
    }
}

/// A preview is the whole file, or as much of it as the longest one runs.
pub proof fn previews_are_no_longer_than_the_file(duration: Time)
    ensures
        0 < preview_length(duration).0 <= MOST,
        0 < duration.0 <= MOST ==> preview_length(duration) == duration,
        duration.0 > MOST || duration.0 <= 0 ==> preview_length(duration).0 == MOST,
{
}

// ---- what's remembered ----

/// A window that's maximized or too small keeps the size it had; a normal one's size is
/// remembered.
pub proof fn the_size_of_a_normal_window_is_remembered(
    last: Option<WindowState>,
    width: u32,
    height: u32,
    maximized: bool,
)
    ensures
        ({
            let now = window_now(last, width, height, maximized);
            &&& now.maximized == maximized
            &&& !maximized && width >= 800 && height >= 500 ==> now.width == width && now.height
                == height
            &&& (maximized || width < 800 || height < 500) && last is Some ==> now.width
                == last->0.width && now.height == last->0.height
            &&& (last matches Some(w) ==> w.width >= 800 && w.height >= 500) ==> now.width >= 800
                && now.height >= 500
        }),
{
}

/// A project's own layout goes before the one from the settings; left to itself the viewer is
/// in the tall column just where the picture is taller than wide.
pub proof fn a_projects_own_layout_goes_first(
    own: Option<Layout>,
    settings: Layout,
    width: u32,
    height: u32,
)
    ensures
        own is Some ==> layout_in(own, settings) == own->0,
        own is None ==> layout_in(own, settings) == settings,
        is_vertical(Layout::Vertical, width, height),
        !is_vertical(Layout::Standard, width, height),
        is_vertical(Layout::Auto, width, height) <==> height > width,
{
}

/// The format shown is the one that was, or the first where that's gone.
pub proof fn the_format_that_was_is_shown(ids: Seq<u64>, id: u64, from: int)
    requires
        0 <= from,
    ensures
        ({
            let at = format_place(ids, id, from);
            ||| from <= at < ids.len() && ids[at] == id && forall|k: int| from <= k < at ==> ids[k] != id
            ||| at == 0 && forall|k: int| from <= k < ids.len() ==> ids[k] != id
        }),
    decreases ids.len() - from,
{
    if from < ids.len() && ids[from] != id {
        the_format_that_was_is_shown(ids, id, from + 1);
    }
}

/// Frames that failed are counted until there are too many, and then from nothing again.
pub proof fn failures_are_counted(failed: u32)
    requires
        failed < MAX_FAILED_FRAMES,
    ensures
        after_failure(failed) < MAX_FAILED_FRAMES,
        failed + 1 < MAX_FAILED_FRAMES ==> after_failure(failed) == failed + 1,
        failed + 1 == MAX_FAILED_FRAMES ==> after_failure(failed) == 0,
{
}

// ---- languages ----

/// A text is in the language in force where it has it, in English where only that has it, and
/// its own key where neither has.
pub proof fn texts_fall_back_to_english(
    strings: Map<Seq<char>, Seq<char>>,
    english: Map<Seq<char>, Seq<char>>,
    key: Seq<char>,
)
    ensures
        strings.contains_key(key) ==> text_for(strings, english, key) == strings[key],
        !strings.contains_key(key) && english.contains_key(key) ==> text_for(strings, english, key)
            == english[key],
        !strings.contains_key(key) && !english.contains_key(key) ==> text_for(
            strings,
            english,
            key,
        ) == key,
{
}

/// What comes before the first of two characters holds neither, and ends where one stands (or
/// at the end).
pub proof fn up_to_the_first_of_two(s: Seq<char>, a: char, b: char)
    ensures
        up_to(s, a, b).is_prefix_of(s),
        !up_to(s, a, b).contains(a) && !up_to(s, a, b).contains(b),
        up_to(s, a, b).len() < s.len() ==> s[up_to(s, a, b).len() as int] == a || s[up_to(
            s,
            a,
            b,
        ).len() as int] == b,
    decreases s.len(),
{
    let u = up_to(s, a, b);
    if s.len() > 0 && s[0] != a && s[0] != b {
        let rest = s.drop_first();
        let v = up_to(rest, a, b);
        up_to_the_first_of_two(rest, a, b);
        assert(v =~= rest.subrange(0, v.len() as int));
        assert(u =~= s.subrange(0, u.len() as int));
        assert(forall|k: int| 0 <= k < v.len() ==> u[k + 1] == v[k]);
        if u.contains(a) {
            let k = choose|k: int| 0 <= k < u.len() && u[k] == a;
            assert(v[k - 1] == a);
        }
        if u.contains(b) {
            let k = choose|k: int| 0 <= k < u.len() && u[k] == b;
            assert(v[k - 1] == b);
        }
    } else {
        assert(u =~= s.subrange(0, 0));
    }
}

/// A language's own file is read last, so that it goes before its base language's; English
/// needs no file.
pub proof fn a_languages_own_file_is_read_last(wanted: Seq<char>)
    ensures
        wanted != "en"@ ==> files_for(wanted).len() > 0 && files_for(wanted).last() == wanted,
        forall|k: int|
            0 <= k < files_for(wanted).len() ==> (#[trigger] files_for(wanted)[k]) != "en"@ && (
            files_for(wanted)[k] == wanted || files_for(wanted)[k] == up_to(wanted, '-', '_')),
        up_to(wanted, '-', '_') != "en"@ ==> files_for(wanted).contains(up_to(wanted, '-', '_')),
        wanted == "en"@ ==> files_for(wanted).len() == 0,
{
    let base = up_to(wanted, '-', '_');
    if base != "en"@ {
        assert(files_for(wanted)[0] == base);
    }
    if wanted == "en"@ {
        reveal_strlit("en");
        let s = "en"@;
        assert(s.len() == 2 && s[0] == 'e' && s[1] == 'n');
        up_to_the_first_of_two(s, '-', '_');
        if base.len() < 2 {
            assert(s[base.len() as int] != '-');
        }
        assert(base =~= s);
    }
}

/// Of two files with the same text the later one's counts; a file that can't be read changes
/// nothing.
pub proof fn later_files_go_before_earlier(texts: Seq<Option<String>>, n: int, key: Seq<char>)
    requires
        0 < n <= texts.len(),
    ensures
        texts[n - 1] is None ==> all_read(texts, n) == all_read(texts, n - 1),
        texts[n - 1] is Some ==> ({
            let last = catalog_or_empty(catalog_in((texts[n - 1]->0)@));
            &&& last.contains_key(key) ==> all_read(texts, n).contains_key(key) && all_read(
                texts,
                n,
            )[key] == last[key]
            &&& !last.contains_key(key) ==> (all_read(texts, n).contains_key(key) <==> all_read(
                texts,
                n - 1,
            ).contains_key(key)) && (all_read(texts, n - 1).contains_key(key) ==> all_read(
                texts,
                n,
            )[key] == all_read(texts, n - 1)[key])
        }),
        all_read(texts, 0).dom() == Set::<Seq<char>>::empty(),
{
}

/// English can always be picked, and every language there's a file for, each once.
pub proof fn every_language_can_be_picked(stems: Seq<Seq<char>>, n: int, x: Seq<char>)
    requires
        0 <= n <= stems.len(),
    ensures
        languages(stems, n).contains(x) <==> x == "en"@ || exists|k: int|
            0 <= k < n && #[trigger] stems[k] == x,
        languages(stems, n).no_duplicates(),
    decreases n,
{
    if n == 0 {
        assert(languages(stems, 0)[0] == "en"@);
    } else {
        every_language_can_be_picked(stems, n - 1, x);
        every_language_can_be_picked(stems, n - 1, stems[n - 1]);
        let before = languages(stems, n - 1);
        let all = languages(stems, n);
        if before.contains(x) {
            let k = choose|k: int| 0 <= k < before.len() && before[k] == x;
            assert(all[k] == x);
        }
        if !before.contains(stems[n - 1]) {
            assert(all[before.len() as int] == stems[n - 1]);
            assert forall|i: int, j: int| 0 <= i < j < all.len() implies all[i] != all[j] by {
                if j == before.len() {
                    assert(before[i] == all[i]);
                } else {
                    assert(before[i] == all[i] && before[j] == all[j]);
                }
            }
        }
        if all.contains(x) && !before.contains(x) {
            assert(stems[n - 1] == x) by {
                let k = choose|k: int| 0 <= k < all.len() && all[k] == x;
                if k < before.len() {
                    assert(before[k] == x);
                }
            }
        }
    }
}

} // verus!
