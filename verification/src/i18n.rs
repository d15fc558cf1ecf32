//! Translations. Text the user reads is looked up by a key in the language in force; English
//! is the fallback for what a translation hasn't covered yet, and a key that nothing covers
//! shows as itself rather than blank.
use crate::order::{alphabetical, rearranged, sorted_names};
use crate::seqs::views;
use crate::text::{chars_of, join3, replace_all, replaced, same, text_between};
use vstd::prelude::*;

verus! {

/// English, always available.
pub const EN: &'static str = "{
  \"app.tagline\": \"A video editor for everyone\",
  \"home.projects\": \"Projects\",
  \"home.plugins\": \"Plugins\",
  \"home.new_project\": \"New project\",
  \"home.new_project_hint\": \"Start with an empty timeline\",
  \"home.open\": \"Open\",
  \"home.open_hint\": \"Continue with a project file\",
  \"home.import\": \"Import media\",
  \"home.import_hint\": \"Start from your own files\",
  \"home.drop_hint\": \"You can also drop files or a project on the window.\",
  \"home.unsaved\": \"Unsaved work\",
  \"home.recent\": \"Recent projects\",
  \"home.recent_empty\": \"Projects you open or save show up here.\",
  \"home.missing\": \"File not found\",
  \"home.remove_from_list\": \"Remove from this list\",
  \"home.language\": \"Language\",
  \"home.language_hint\": \"The language changes the next time OpenAtelier starts.\",
  \"time.moments\": \"moments ago\",
  \"time.minutes\": \"{n} min ago\",
  \"time.hours\": \"{n} h ago\",
  \"time.days\": \"{n} days ago\",
  \"time.weeks\": \"{n} weeks ago\",
  \"plugins.count\": \"{n} plugins, {on} on\",
  \"plugins.open_folder\": \"Open folder\",
  \"plugins.reload\": \"Reload\",
  \"plugins.reload_hint\": \"Reads the plugin folders again\",
  \"plugins.what_is\": \"A plugin adds effects, transitions and titles to the editor.\",
  \"plugins.your_folder\": \"Your plugins:\",
  \"plugins.also_scanning\": \"Also looking in:\",
  \"plugins.problems\": \"Some plugins have problems\",
  \"plugins.builtin\": \"built in\",
  \"plugins.off\": \"off\",
  \"plugins.by\": \"by {author}\",
  \"plugins.built_in_source\": \"Comes with OpenAtelier\",
  \"plugins.off_note\": \"Projects that use it keep what it made, but it can't be added.\",
  \"plugins.turn_off\": \"Turn off\",
  \"plugins.turn_on\": \"Turn on\",
  \"action.discard\": \"Discard\",
  \"error.name_empty\": \"A {kind} needs a name.\"
}";

/// Keys and their texts; where a key comes twice, the later one counts.
pub struct Catalog {
    pub entries: Vec<(String, String)>,
}

/// The keys and texts as written.
pub open spec fn pairs_of(entries: Seq<(String, String)>) -> Seq<(Seq<char>, Seq<char>)> {
    Seq::new(entries.len(), |i: int| (entries[i].0@, entries[i].1@))
}

/// The texts by their keys.
pub open spec fn by_key(pairs: Seq<(Seq<char>, Seq<char>)>) -> Map<Seq<char>, Seq<char>>
    decreases pairs.len(),
{
    if pairs.len() == 0 {
        Map::empty()
    } else {
        by_key(pairs.drop_last()).insert(pairs.last().0, pairs.last().1)
    }
}

impl View for Catalog {
    type V = Map<Seq<char>, Seq<char>>;

    open spec fn view(&self) -> Map<Seq<char>, Seq<char>> {
        by_key(pairs_of(self.entries@))
    }
}

/// The keys and texts of a JSON object of strings, in the order of the keys; `None` for a
/// text that isn't one.
pub uninterp spec fn catalog_in(text: Seq<char>) -> Option<Seq<(Seq<char>, Seq<char>)>>;

/// Calls `serde_json::from_str` for a `BTreeMap<String, String>`. Claims that what it reads
/// depends on the text alone.
#[verifier::external_body]
fn read_catalog(text: &str) -> (out: Option<Vec<(String, String)>>)
    ensures
        match out {
            Some(entries) => catalog_in(text@) == Some(pairs_of(entries@)),
            None => catalog_in(text@) is None,
        },
{
    let read: Result<std::collections::BTreeMap<String, String>, serde_json::Error> =
        serde_json::from_str(text);
    read.ok().map(|map| map.into_iter().collect())
}

/// The catalog that was read: an empty one, where it couldn't be.
pub open spec fn catalog_or_empty(read: Option<Seq<(Seq<char>, Seq<char>)>>) -> Map<
    Seq<char>,
    Seq<char>,
> {
    match read {
        Some(pairs) => by_key(pairs),
        None => Map::empty(),
    }
}

impl Catalog {
    /// A catalog with nothing in it.
    pub fn new() -> (out: Catalog)
        ensures
            out.entries@.len() == 0,
            out@ == Map::<Seq<char>, Seq<char>>::empty(),
    {
        let out = Catalog { entries: Vec::new() };
        assert(pairs_of(out.entries@).len() == 0);
        out
    }

    /// The catalog that was read: an empty one, where it couldn't be.
    pub fn of(read: Option<Vec<(String, String)>>) -> (out: Catalog)
        ensures
            out@ == catalog_or_empty(
                match read {
                    Some(entries) => Some(pairs_of(entries@)),
                    None => None,
                },
            ),
    {
        match read {
            Some(entries) => Catalog { entries },
            None => Catalog::new(),
        }
    }

    /// The catalog written in a JSON text.
    pub fn parse(text: &str) -> (out: Catalog)
        ensures
            out@ == catalog_or_empty(catalog_in(text@)),
    {
        Catalog::of(read_catalog(text))
    }

    /// The text of a key.
    pub fn get(&self, key: &str) -> (out: Option<&String>)
        ensures
            match out {
                Some(text) => self@.dom().contains(key@) && self@[key@] == text@,
                None => !self@.dom().contains(key@),
            },
    {
        let ghost pairs = pairs_of(self.entries@);
        let mut i: usize = self.entries.len();
        assert(pairs.take(i as int) =~= pairs);
        while i > 0
            invariant
                pairs == pairs_of(self.entries@),
                i <= self.entries@.len(),
                self@.dom().contains(key@) == by_key(pairs.take(i as int)).dom().contains(key@),
                self@.dom().contains(key@) ==> self@[key@] == by_key(pairs.take(i as int))[key@],
            decreases i,
        {
            let ghost here = pairs.take(i as int);
            i = i - 1;
            assert(here.drop_last() =~= pairs.take(i as int));
            assert(here.last() == pairs[i as int]);
            if same(self.entries[i].0.as_str(), key) {
                return Some(&self.entries[i].1);
            }
        }
        assert(pairs.take(0).len() == 0);
        None
    }

    /// Whether there's nothing in it.
    pub fn is_empty(&self) -> (out: bool)
        ensures
            out == (self@ == Map::<Seq<char>, Seq<char>>::empty()),
    {
        let out = self.entries.len() == 0;
        proof {
            let pairs = pairs_of(self.entries@);
            if out {
                assert(pairs.len() == 0);
            } else {
                assert(self@.dom().contains(pairs.last().0));
            }
        }
        out
    }

    /// Adds what another catalog has; its texts replace those there were.
    pub fn extend(&mut self, other: Catalog)
        ensures
            final(self)@ == old(self)@.union_prefer_right(other@),
    {
        let ghost had = pairs_of(self.entries@);
        let ghost more = pairs_of(other.entries@);
        let mut rest = other.entries;
        self.entries.append(&mut rest);
        proof {
            assert(pairs_of(self.entries@) =~= had + more);
            later_texts_count(had, more);
        }
    }
}

/// Reading one catalog after another gives the later one's texts where both have a key.
pub proof fn later_texts_count(a: Seq<(Seq<char>, Seq<char>)>, b: Seq<(Seq<char>, Seq<char>)>)
    ensures
        by_key(a + b) == by_key(a).union_prefer_right(by_key(b)),
    decreases b.len(),
{
    if b.len() == 0 {
        assert(a + b =~= a);
        assert(by_key(a).union_prefer_right(by_key(b)) =~= by_key(a));
    } else {
        later_texts_count(a, b.drop_last());
        assert((a + b).drop_last() =~= a + b.drop_last());
        assert(by_key(a + b) =~= by_key(a).union_prefer_right(by_key(b)));
    }
}

// ---- the language in force ----

/// The language in force.
pub struct Active {
    pub lang: String,
    pub strings: Catalog,
    pub english: Catalog,
}

/// The text for a key: in the language in force, else in English, else the key itself.
pub open spec fn text_for(
    strings: Map<Seq<char>, Seq<char>>,
    english: Map<Seq<char>, Seq<char>>,
    key: Seq<char>,
) -> Seq<char> {
    if strings.dom().contains(key) {
        strings[key]
    } else if english.dom().contains(key) {
        english[key]
    } else {
        key
    }
}

impl Default for Active {
    fn default() -> (out: Active)
        ensures
            out.lang@ == "en"@,
            out.strings@ == catalog_or_empty(catalog_in(EN@)),
            out.english@ == catalog_or_empty(catalog_in(EN@)),
    {
        Active { lang: "en".to_owned(), strings: Catalog::parse(EN), english: Catalog::parse(EN) }
    }
}

/// The language in force.
pub fn language(active: &Active) -> (out: &str)
    ensures
        out@ == active.lang@,
{
    active.lang.as_str()
}

/// The text for `key`, in the language in force.
pub fn t(active: &Active, key: &str) -> (out: String)
    ensures
        out@ == text_for(active.strings@, active.english@, key@),
{
    match active.strings.get(key) {
        Some(text) => text.clone(),
        None => match active.english.get(key) {
            Some(text) => text.clone(),
            None => key.to_owned(),
        },
    }
}

/// A text with the first values in its `{placeholders}`.
pub open spec fn filled(text: Seq<char>, values: Seq<(&str, &str)>, n: int) -> Seq<char>
    decreases n,
{
    if n <= 0 {
        text
    } else {
        replaced(
            filled(text, values, n - 1),
            "{"@ + values[n - 1].0@ + "}"@,
            values[n - 1].1@,
        )
    }
}

/// The text for `key` with values in its `{placeholders}`, one after another.
pub fn args(active: &Active, key: &str, values: &Vec<(&str, &str)>) -> (out: String)
    ensures
        out@ == filled(
            text_for(active.strings@, active.english@, key@),
            values@,
            values@.len() as int,
        ),
{
    let mut text = t(active, key);
    let ghost plain = text@;
    let mut i: usize = 0;
    while i < values.len()
        invariant
            plain == text_for(active.strings@, active.english@, key@),
            i <= values@.len(),
            text@ == filled(plain, values@, i as int),
        decreases values@.len() - i,
    {
        let (name, value) = values[i];
        proof {
            reveal_strlit("{");
            reveal_strlit("}");
        }
        let mark = join3("{", name, "}");
        text = replace_all(text.as_str(), mark.as_str(), value);
        i = i + 1;
    }
    text
}

/// A key that a translation covers shows in its language; one that it doesn't shows in
/// English; and one that neither covers shows as itself.
pub proof fn every_key_shows_something(
    strings: Map<Seq<char>, Seq<char>>,
    english: Map<Seq<char>, Seq<char>>,
    key: Seq<char>,
)
    requires
        key.len() > 0,
        forall|k: Seq<char>| #[trigger] strings.dom().contains(k) ==> strings[k].len() > 0,
        forall|k: Seq<char>| #[trigger] english.dom().contains(k) ==> english[k].len() > 0,
    ensures
        text_for(strings, english, key).len() > 0,
        strings.dom().contains(key) ==> text_for(strings, english, key) == strings[key],
        !strings.dom().contains(key) && english.dom().contains(key) ==> text_for(
            strings,
            english,
            key,
        ) == english[key],
        !strings.dom().contains(key) && !english.dom().contains(key) ==> text_for(
            strings,
            english,
            key,
        ) == key,
{
}

// ---- picking the language ----

/// What a text says up to the first of two characters.
pub open spec fn up_to(s: Seq<char>, a: char, b: char) -> Seq<char>
    decreases s.len(),
{
    if s.len() == 0 || s[0] == a || s[0] == b {
        Seq::empty()
    } else {
        seq![s[0]] + up_to(s.drop_first(), a, b)
    }
}

/// What a text says up to the first of two characters.
pub fn before_either(s: &str, a: char, b: char) -> (out: String)
    ensures
        out@ == up_to(s@, a, b),
{
    let chars = chars_of(s);
    let mut n: usize = 0;
    assert(s@.skip(0) =~= s@);
    assert(s@.take(0) + up_to(s@, a, b) =~= up_to(s@, a, b));
    while n < chars.len() && chars[n] != a && chars[n] != b
        invariant
            chars@ == s@,
            n <= chars@.len(),
            up_to(s@, a, b) == s@.take(n as int) + up_to(s@.skip(n as int), a, b),
        ensures
            n <= chars@.len(),
            n == chars@.len() || chars@[n as int] == a || chars@[n as int] == b,
            up_to(s@, a, b) == s@.take(n as int) + up_to(s@.skip(n as int), a, b),
        decreases chars@.len() - n,
    {
        let ghost rest = s@.skip(n as int);
        assert(rest[0] == s@[n as int]);
        assert(rest.drop_first() =~= s@.skip(n + 1));
        assert(s@.take(n + 1) =~= s@.take(n as int).push(s@[n as int]));
        assert(s@.take(n as int) + (seq![rest[0]] + up_to(rest.drop_first(), a, b)) =~= s@.take(
            n + 1,
        ) + up_to(s@.skip(n + 1), a, b));
        n = n + 1;
    }
    let out = text_between(&chars, 0, n);
    proof {
        let rest = s@.skip(n as int);
        if n < chars@.len() {
            assert(rest[0] == s@[n as int]);
        }
        assert(up_to(rest, a, b) =~= Seq::<char>::empty());
        assert(out@ =~= up_to(s@, a, b));
    }
    out
}

/// The language the system asks for, from `LC_ALL` or `LANG` ("fr_FR.UTF-8" asks for "fr_FR").
pub fn system_language(locale: &str) -> (out: String)
    ensures
        out@ == up_to(locale@, '.', '.'),
{
    before_either(locale, '.', '.')
}

/// The language asked for: by the settings, else by `OA_LANG`, else by the system, else
/// English.
pub fn wanted(
    settings: Option<String>,
    environment: Option<String>,
    system: Option<String>,
) -> (out: String)
    ensures
        out@ == match settings {
            Some(lang) => lang@,
            None => match environment {
                Some(lang) => lang@,
                None => match system {
                    Some(lang) => lang@,
                    None => "en"@,
                },
            },
        },
{
    match settings {
        Some(lang) => lang,
        None => match environment {
            Some(lang) => lang,
            None => match system {
                Some(lang) => lang,
                None => "en".to_owned(),
            },
        },
    }
}

/// The languages whose files are read for the one asked for, in order: the base language
/// ("fr" of "fr-CA") and the language itself. English needs none.
pub open spec fn files_for(wanted: Seq<char>) -> Seq<Seq<char>> {
    let base = up_to(wanted, '-', '_');
    let first = if base == "en"@ {
        Seq::<Seq<char>>::empty()
    } else {
        seq![base]
    };
    if wanted == "en"@ {
        first
    } else {
        first.push(wanted)
    }
}

/// The languages whose files are read for the one asked for.
pub fn language_files(wanted: &str) -> (out: Vec<String>)
    ensures
        views(out@) == files_for(wanted@),
{
    let base = before_either(wanted, '-', '_');
    let mut out: Vec<String> = Vec::new();
    let ghost name = base@;
    let ghost first = if name == "en"@ {
        Seq::<Seq<char>>::empty()
    } else {
        seq![name]
    };
    if !same(base.as_str(), "en") {
        out.push(base);
    }
    assert(views(out@) =~= first);
    if !same(wanted, "en") {
        let ghost had = out@;
        out.push(wanted.to_owned());
        assert(views(out@) =~= views(had).push(wanted@));
    }
    out
}

/// The texts of the first files that could be read, the later ones over the earlier.
pub open spec fn all_read(texts: Seq<Option<String>>, n: int) -> Map<Seq<char>, Seq<char>>
    decreases n,
{
    if n <= 0 {
        Map::empty()
    } else {
        match texts[n - 1] {
            Some(text) => all_read(texts, n - 1).union_prefer_right(
                catalog_or_empty(catalog_in(text@)),
            ),
            None => all_read(texts, n - 1),
        }
    }
}

/// The language in force once the files of the one asked for were read (`None`: there's no
/// such file). Where they say nothing, it's English.
pub fn activate(wanted: &str, texts: &Vec<Option<String>>) -> (out: Active)
    ensures
        out.strings@ == all_read(texts@, texts@.len() as int),
        out.english@ == catalog_or_empty(catalog_in(EN@)),
        out.lang@ == if out.strings@ == Map::<Seq<char>, Seq<char>>::empty() {
            "en"@
        } else {
            wanted@
        },
{
    let mut strings = Catalog::new();
    let mut i: usize = 0;
    while i < texts.len()
        invariant
            i <= texts@.len(),
            strings@ == all_read(texts@, i as int),
        decreases texts@.len() - i,
    {
        if let Some(text) = &texts[i] {
            strings.extend(Catalog::parse(text.as_str()));
        }
        i = i + 1;
    }
    let lang = if strings.is_empty() {
        "en".to_owned()
    } else {
        wanted.to_owned()
    };
    Active { lang, strings, english: Catalog::parse(EN) }
}

/// The languages that can be picked: English and those there's a file for, each once.
pub open spec fn languages(stems: Seq<Seq<char>>, n: int) -> Seq<Seq<char>>
    decreases n,
{
    if n <= 0 {
        seq!["en"@]
    } else {
        crate::folders::with_name(languages(stems, n - 1), stems[n - 1])
    }
}

/// The languages that can be picked, in order; `stems` are the names of the language files.
pub fn available(stems: &Vec<String>) -> (out: Vec<String>)
    ensures
        alphabetical(views(out@)),
        rearranged(languages(views(stems@), stems@.len() as int), views(out@)),
{
    let ghost all = views(stems@);
    let mut names: Vec<String> = Vec::new();
    names.push("en".to_owned());
    assert(views(names@) =~= languages(all, 0));
    let mut i: usize = 0;
    while i < stems.len()
        invariant
            all == views(stems@),
            i <= stems@.len(),
            views(names@) == languages(all, i as int),
        decreases stems@.len() - i,
    {
        assert(all[i as int] == stems@[i as int]@);
        crate::folders::add_name(&mut names, stems[i].as_str());
        i = i + 1;
    }
    sorted_names(&names)
}

} // verus!
