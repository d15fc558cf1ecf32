//! The media bin: imported files and compound clips as cards.
use crate::doc::{
    ItemKind, ItemModel, MediaId, MediaKind, SeqId, Sequence, Time, TrackKind, TrackModel,
};
use crate::order::{in_order, rises, same_places, sorted, Key, KeyModel};
use crate::seqs::views;
use crate::text::{
    chars_of, contains, decimal, find_from, join2, join3, lowercase, lowercase_of, next_is_first,
    next_is_nowhere, next_of, number, occurs, same, text_between, trim, trimmed,
};
use vstd::prelude::*;

verus! {

/// What the cards are sorted by.
#[derive(Copy, Clone, Debug, PartialEq, Eq, Structural)]
pub enum BinSort {
    Added,
    Name,
    Kind,
    Length,
}

impl Default for BinSort {
    fn default() -> (out: BinSort)
        ensures
            out == BinSort::Added,
    {
        BinSort::Added
    }
}

impl BinSort {
    /// What it's called.
    pub fn label(self) -> (out: &'static str)
        ensures
            out@ == match self {
                BinSort::Added => "Added"@,
                BinSort::Name => "Name"@,
                BinSort::Kind => "Type"@,
                BinSort::Length => "Length"@,
            },
    {
        match self {
            BinSort::Added => "Added",
            BinSort::Name => "Name",
            BinSort::Kind => "Type",
            BinSort::Length => "Length",
        }
    }

    /// All of them, as they're offered.
    pub fn all() -> (out: Vec<BinSort>)
        ensures
            out@ == seq![BinSort::Added, BinSort::Name, BinSort::Kind, BinSort::Length],
    {
        vec![BinSort::Added, BinSort::Name, BinSort::Kind, BinSort::Length]
    }
}

/// Which library the bin is showing.
#[derive(Copy, Clone, Debug, PartialEq, Eq, Structural)]
pub enum BinTab {
    /// What this project has imported.
    Project,
    /// The things kept on this computer, for every project.
    Assets,
}

impl Default for BinTab {
    fn default() -> (out: BinTab)
        ensures
            out == BinTab::Project,
    {
        BinTab::Project
    }
}

/// What the bin is showing.
pub struct BinView {
    pub tab: BinTab,
    /// Where you are in the asset library (its own folders).
    pub asset_folder: String,
    pub sort: BinSort,
    pub descending: bool,
    pub search: String,
    /// The folder being shown: "" is the top, "b-roll/day 2" is nested.
    pub folder: String,
    /// A folder being named, and what has been typed so far.
    pub naming: Option<String>,
    /// The name box was just opened and hasn't been focused yet.
    pub naming_fresh: bool,
}

impl Default for BinView {
    fn default() -> (out: BinView)
        ensures
            out.tab == BinTab::Project,
            out.asset_folder@ == ""@,
            out.sort == BinSort::Added,
            !out.descending,
            out.search@ == ""@,
            out.folder@ == ""@,
            out.naming is None,
            !out.naming_fresh,
    {
        BinView {
            tab: BinTab::default(),
            asset_folder: "".to_owned(),
            sort: BinSort::default(),
            descending: false,
            search: "".to_owned(),
            folder: "".to_owned(),
            naming: None,
            naming_fresh: false,
        }
    }
}

/// What happened to the box a folder is named in.
pub struct Typed {
    pub enter: bool,
    pub escape: bool,
    /// It isn't being typed in any more.
    pub left: bool,
    pub name: String,
}

impl BinView {
    /// Opens the box a new folder is named in.
    pub fn start_naming(&mut self)
        ensures
            final(self).naming is Some,
            (final(self).naming->0)@ == ""@,
            final(self).naming_fresh,
            final(self).folder == old(self).folder,
            final(self).tab == old(self).tab,
            final(self).search == old(self).search,
            final(self).sort == old(self).sort,
            final(self).descending == old(self).descending,
            final(self).asset_folder == old(self).asset_folder,
    {
        self.naming = Some("".to_owned());
        self.naming_fresh = true;
    }

    /// Takes in what was typed; `made` is whether Enter made the folder. The box closes when
    /// it's made, given up with Escape, or left with nothing typed.
    pub fn typed(&mut self, typed: Typed, made: bool)
        ensures
            final(self).folder == old(self).folder,
            final(self).tab == old(self).tab,
            final(self).search == old(self).search,
            final(self).sort == old(self).sort,
            final(self).descending == old(self).descending,
            final(self).asset_folder == old(self).asset_folder,
            !final(self).naming_fresh,
            ({
                let abandoned = typed.left && !typed.enter && trimmed(typed.name@) == ""@;
                let closes = if typed.enter {
                    made
                } else {
                    typed.escape || abandoned
                };
                if closes {
                    final(self).naming is None
                } else {
                    final(self).naming is Some && (final(self).naming->0)@ == typed.name@
                }
            }),
    {
        let abandoned = typed.left && !typed.enter && same(trim(typed.name.as_str()).as_str(), "");
        let closes = if typed.enter {
            made
        } else {
            typed.escape || abandoned
        };
        self.naming = if closes {
            None
        } else {
            Some(typed.name)
        };
        self.naming_fresh = false;
    }
}

/// What a card is.
#[derive(Copy, Clone, Debug, PartialEq, Eq, Structural)]
pub enum Entry {
    Media(MediaId),
    Compound(SeqId),
}

/// What a card being dragged carries.
pub struct BinDrop {
    pub entry: Entry,
    pub name: String,
    pub length: Time,
    /// It goes on an audio track.
    pub audio: bool,
}

/// The clip a card makes.
pub open spec fn clip_kind(entry: Entry) -> ItemKind {
    match entry {
        Entry::Media(media) => ItemKind::Media { media },
        Entry::Compound(sequence) => ItemKind::Nested { sequence },
    }
}

impl BinDrop {
    /// Whether a clip already shows what this card is (`None`: there's no such clip).
    pub fn is_in(&self, clip: Option<ItemKind>) -> (out: bool)
        ensures
            out == (clip == Some(clip_kind(self.entry))),
    {
        match clip {
            Some(kind) => match (self.entry, kind) {
                (Entry::Media(a), ItemKind::Media { media }) => a == media,
                (Entry::Compound(a), ItemKind::Nested { sequence }) => a == sequence,
                _ => false,
            },
            None => false,
        }
    }

    /// The clip the card makes.
    pub fn kind(&self) -> (out: ItemKind)
        ensures
            out == clip_kind(self.entry),
    {
        match self.entry {
            Entry::Media(media) => ItemKind::Media { media },
            Entry::Compound(sequence) => ItemKind::Nested { sequence },
        }
    }
}

/// How long what's swapped into a clip is: a still has no end; a video, a sound or a compound
/// has its length.
pub fn swapped_length(entry: Entry, kind: Option<MediaKind>, length: Option<Time>) -> (out: Option<
    Time,
>)
    ensures
        out == match entry {
            Entry::Media(_) => if kind is None || kind == Some(MediaKind::Still) {
                None
            } else {
                length
            },
            Entry::Compound(_) => length,
        },
{
    match entry {
        Entry::Media(_) => match kind {
            Some(MediaKind::Still) => None,
            Some(_) => length,
            None => None,
        },
        Entry::Compound(_) => length,
    }
}

/// What swapping something into a clip says: its undo step, and what's told where it worked,
/// or (`error`) where it didn't.
pub fn swap_texts(name: &str, error: Option<&str>) -> (out: (String, String))
    ensures
        out.0@ == "Swap in "@ + name@,
        out.1@ == match error {
            None => "Swapped in "@ + name@ + " — the clip kept its place, transform and effects."@,
            Some(e) => "can't swap in "@ + name@ + ": "@ + e@,
        },
{
    let told = match error {
        None => join3("Swapped in ", name, " — the clip kept its place, transform and effects."),
        Some(e) => {
            let head = join3("can't swap in ", name, ": ");
            join2(head.as_str(), e)
        },
    };
    (join2("Swap in ", name), told)
}

// ---- the cards ----

/// One card.
pub struct Card {
    pub entry: Entry,
    pub name: String,
    pub detail: String,
    pub kind: MediaKind,
    /// Where its kind sorts.
    pub rank: u8,
    pub compound: bool,
    pub missing: bool,
    pub conformed: Option<String>,
    pub length: Time,
    /// It has sound to listen to.
    pub sound: bool,
    /// The bin folder it's in (compounds are always at the top).
    pub folder: String,
}

#[verifier::ext_equal]
pub struct CardModel {
    pub entry: Entry,
    pub name: Seq<char>,
    pub detail: Seq<char>,
    pub kind: MediaKind,
    pub rank: u8,
    pub compound: bool,
    pub missing: bool,
    pub conformed: Option<Seq<char>>,
    pub length: Time,
    pub sound: bool,
    pub folder: Seq<char>,
}

impl View for Card {
    type V = CardModel;

    open spec fn view(&self) -> CardModel {
        CardModel {
            entry: self.entry,
            name: self.name@,
            detail: self.detail@,
            kind: self.kind,
            rank: self.rank,
            compound: self.compound,
            missing: self.missing,
            conformed: match self.conformed {
                Some(reason) => Some(reason@),
                None => None,
            },
            length: self.length,
            sound: self.sound,
            folder: self.folder@,
        }
    }
}

/// Whether a card is shown: searching looks everywhere; otherwise it's what's in the folder
/// being shown. `needle` is what's searched for, trimmed and in lower case.
pub open spec fn shows(card: CardModel, needle: Seq<char>, folder: Seq<char>) -> bool {
    if needle == ""@ {
        card.folder == folder
    } else {
        occurs(lowercase_of(card.name), needle)
    }
}

/// Whether a card is shown; `lower` is its name in lower case.
pub fn is_shown(card: &Card, lower: &str, needle: &str, folder: &str) -> (out: bool)
    requires
        lower@ == lowercase_of(card.name@),
    ensures
        out == shows(card@, needle@, folder@),
{
    if same(needle, "") {
        same(card.folder.as_str(), folder)
    } else {
        contains(lower, needle)
    }
}

/// What a card is sorted by.
pub open spec fn card_key(card: CardModel, sort: BinSort) -> KeyModel {
    match sort {
        BinSort::Added => KeyModel { rank: 0, group: ""@, name: ""@ },
        BinSort::Name => KeyModel { rank: 0, group: ""@, name: lowercase_of(card.name) },
        BinSort::Kind => KeyModel {
            rank: if card.compound {
                3
            } else {
                card.rank as i128
            },
            group: ""@,
            name: lowercase_of(card.name),
        },
        BinSort::Length => KeyModel { rank: card.length.0 as i128, group: ""@, name: ""@ },
    }
}

/// What each card is sorted by.
pub open spec fn card_keys(sort: BinSort) -> spec_fn(CardModel) -> KeyModel {
    |card: CardModel| card_key(card, sort)
}

/// What's searched for.
pub open spec fn needle_of(search: Seq<char>) -> Seq<char> {
    lowercase_of(trimmed(search))
}

/// The places of the cards that are shown.
pub open spec fn shown_places(
    cards: Seq<CardModel>,
    needle: Seq<char>,
    folder: Seq<char>,
    n: int,
) -> Seq<usize>
    decreases n,
{
    if n <= 0 {
        Seq::empty()
    } else if shows(cards[n - 1], needle, folder) {
        shown_places(cards, needle, folder, n - 1).push((n - 1) as usize)
    } else {
        shown_places(cards, needle, folder, n - 1)
    }
}

proof fn shown_places_rise(cards: Seq<CardModel>, needle: Seq<char>, folder: Seq<char>, n: int)
    requires
        0 <= n <= cards.len() <= usize::MAX,
    ensures
        rises(shown_places(cards, needle, folder, n), n),
        shown_places(cards, needle, folder, n).no_duplicates(),
    decreases n,
{
    if n > 0 {
        shown_places_rise(cards, needle, folder, n - 1);
    }
}

/// The cards to show, by their place among `cards` (which are in the order they were added):
/// those being searched for, or those of the folder being shown, in the order asked for.
pub fn shown_cards(view: &BinView, cards: &Vec<Card>) -> (out: Vec<usize>)
    ensures
        ({
            let kept = shown_places(
                views(cards@),
                needle_of(view.search@),
                view.folder@,
                cards@.len() as int,
            );
            let order = if view.descending {
                out@.reverse()
            } else {
                out@
            };
            &&& same_places(order, kept)
            &&& view.sort == BinSort::Added ==> order == kept
            &&& in_order(views(cards@).map_values(card_keys(view.sort)), order)
        }),
{
    let lower = lowercase(trim(view.search.as_str()).as_str());
    let ghost all = views(cards@);
    let ghost needle = needle_of(view.search@);
    let ghost f = card_keys(view.sort);
    let mut keys: Vec<Key> = Vec::new();
    let mut kept: Vec<usize> = Vec::new();
    let mut i: usize = 0;
    while i < cards.len()
        invariant
            all == views(cards@),
            needle == needle_of(view.search@),
            lower@ == needle,
            f == card_keys(view.sort),
            i <= cards@.len(),
            kept@ == shown_places(all, needle, view.folder@, i as int),
            keys@.len() == i,
            forall|k: int| 0 <= k < i ==> (#[trigger] keys@[k])@ == f(all[k]),
        decreases cards@.len() - i,
    {
        let card = &cards[i];
        assert(all[i as int] == card@);
        let name = lowercase(card.name.as_str());
        if is_shown(card, name.as_str(), lower.as_str(), view.folder.as_str()) {
            kept.push(i);
        }
        let key = match view.sort {
            BinSort::Added => Key { rank: 0, group: "".to_owned(), name: "".to_owned() },
            BinSort::Name => Key { rank: 0, group: "".to_owned(), name },
            BinSort::Kind => Key {
                rank: if card.compound {
                    3
                } else {
                    card.rank as i128
                },
                group: "".to_owned(),
                name,
            },
            BinSort::Length => Key {
                rank: card.length.0 as i128,
                group: "".to_owned(),
                name: "".to_owned(),
            },
        };
        assert(key@ =~= f(all[i as int]));
        keys.push(key);
        i = i + 1;
    }
    proof {
        shown_places_rise(all, needle, view.folder@, cards@.len() as int);
        assert(views(keys@) =~= all.map_values(f));
    }
    let order = match view.sort {
        BinSort::Added => {
            let ghost ks = views(keys@);
            proof {
                assert forall|a: int, b: int|
                    0 <= a < b < kept@.len() implies crate::order::may_precede(
                    ks,
                    #[trigger] kept@[a],
                    #[trigger] kept@[b],
                ) by {
                    assert(ks[kept@[a] as int] == f(all[kept@[a] as int]));
                    assert(ks[kept@[b] as int] == f(all[kept@[b] as int]));
                }
            }
            kept
        },
        _ => sorted(&keys, &kept),
    };
    if !view.descending {
        return order;
    }
    let mut out: Vec<usize> = Vec::new();
    let n: usize = order.len();
    let mut k: usize = 0;
    while k < n
        invariant
            n == order@.len(),
            k <= n,
            out@.len() == k,
            forall|j: int| 0 <= j < k ==> (#[trigger] out@[j]) == order@[n - 1 - j],
        decreases n - k,
    {
        out.push(order[n - 1 - k]);
        k = k + 1;
    }
    assert(out@.reverse() =~= order@);
    out
}

/// A search finds a file wherever it is: with something searched for, whether a card is shown
/// doesn't depend on the folder.
pub proof fn searching_looks_everywhere(
    card: CardModel,
    needle: Seq<char>,
    here: Seq<char>,
    there: Seq<char>,
)
    requires
        needle != ""@,
    ensures
        shows(card, needle, here) == shows(card, needle, there),
{
}

/// A card is shown exactly where it belongs: its place is among those shown if and only if
/// it's searched for, or in the folder.
pub proof fn shown_where_it_belongs(
    cards: Seq<CardModel>,
    needle: Seq<char>,
    folder: Seq<char>,
    n: int,
    i: int,
)
    requires
        0 <= i < n <= cards.len() <= usize::MAX,
    ensures
        shown_places(cards, needle, folder, n).contains(i as usize) <==> shows(
            cards[i],
            needle,
            folder,
        ),
    decreases n,
{
    let rest = shown_places(cards, needle, folder, n - 1);
    crate::seqs::push_holds(rest, (n - 1) as usize);
    shown_places_rise(cards, needle, folder, n - 1);
    if i < n - 1 {
        shown_where_it_belongs(cards, needle, folder, n - 1, i);
    } else if rest.contains(i as usize) {
        let k = choose|k: int| 0 <= k < rest.len() && rest[k] == i as usize;
        assert(rest[k] < n - 1);
    }
}

// ---- making the cards ----

/// Minutes and seconds, as "1:05".
pub open spec fn clock_of(t: Time) -> Seq<char> {
    let s = if t.0 < 0 {
        0
    } else {
        t.0 as int / 705_600_000
    };
    let secs = (s % 60) as nat;
    decimal((s / 60) as nat) + ":"@ + if secs < 10 {
        "0"@ + decimal(secs)
    } else {
        decimal(secs)
    }
}

/// Minutes and seconds, as "1:05".
pub fn clock(t: Time) -> (out: String)
    ensures
        out@ == clock_of(t),
{
    let s: u64 = if t.0 < 0 {
        0
    } else {
        (t.0 / 705_600_000) as u64
    };
    let secs: u64 = s % 60;
    let tail = if secs < 10 {
        join2("0", number(secs).as_str())
    } else {
        number(secs)
    };
    join3(number(s / 60).as_str(), ":", tail.as_str())
}

/// "1 item", "2 items".
pub fn counted(n: usize, thing: &str) -> (out: String)
    ensures
        out@ == decimal(n as nat) + " "@ + thing@ + if n == 1 {
            ""@
        } else {
            "s"@
        },
{
    let head = join3(number(n as u64).as_str(), " ", thing);
    join2(
        head.as_str(),
        if n == 1 {
            ""
        } else {
            "s"
        },
    )
}

/// How many clips the first tracks have.
pub open spec fn clips_on(tracks: Seq<TrackModel>, n: int) -> int
    decreases n,
{
    if n <= 0 {
        0
    } else {
        clips_on(tracks, n - 1) + tracks[n - 1].items.len()
    }
}

/// A file on the timeline: where its clip starts, which it is, and where in it that starts.
#[derive(Copy, Clone, Debug, PartialEq, Eq, Structural)]
pub struct Seen {
    pub start: Time,
    pub media: MediaId,
    pub source_in: Time,
}

/// The earlier of what was seen and a clip, if that shows a file.
pub open spec fn seen_or(best: Option<Seen>, item: ItemModel) -> Option<Seen> {
    match item.kind {
        ItemKind::Media { media } => if best is None || item.range.start.0 < (best->0).start.0 {
            Some(Seen { start: item.range.start, media, source_in: item.time_map.source_in })
        } else {
            best
        },
        _ => best,
    }
}

/// The earliest file among the first clips of a track.
pub open spec fn seen_on(best: Option<Seen>, items: Seq<ItemModel>, n: int) -> Option<Seen>
    decreases n,
{
    if n <= 0 {
        best
    } else {
        seen_or(seen_on(best, items, n - 1), items[n - 1])
    }
}

/// The earliest file on the first tracks that show pictures.
pub open spec fn first_seen(tracks: Seq<TrackModel>, n: int) -> Option<Seen>
    decreases n,
{
    if n <= 0 {
        None
    } else if tracks[n - 1].kind == TrackKind::Video {
        seen_on(first_seen(tracks, n - 1), tracks[n - 1].items, tracks[n - 1].items.len() as int)
    } else {
        first_seen(tracks, n - 1)
    }
}

/// What a compound's card shows a picture of: the file that comes first on its video tracks.
pub fn compound_picture(s: &Sequence) -> (out: Option<Seen>)
    ensures
        out == first_seen(s@.tracks, s@.tracks.len() as int),
{
    let ghost tracks = s@.tracks;
    let mut best: Option<Seen> = None;
    let mut t: usize = 0;
    while t < s.tracks.len()
        invariant
            tracks == s@.tracks,
            t <= s.tracks@.len(),
            best == first_seen(tracks, t as int),
        decreases s.tracks@.len() - t,
    {
        let track = &s.tracks[t];
        assert(tracks[t as int] == track@);
        if track.kind == TrackKind::Video {
            let ghost was = best;
            let mut i: usize = 0;
            while i < track.items.len()
                invariant
                    i <= track.items@.len(),
                    best == seen_on(was, track@.items, i as int),
                decreases track.items@.len() - i,
            {
                let item = &track.items[i];
                assert(track@.items[i as int] == item@);
                if let ItemKind::Media { media } = item.kind {
                    let earlier = match best {
                        Some(b) => item.range.start.0 < b.start.0,
                        None => true,
                    };
                    if earlier {
                        best = Some(
                            Seen {
                                start: item.range.start,
                                media,
                                source_in: item.time_map.source_in,
                            },
                        );
                    }
                }
                i = i + 1;
            }
            assert(track@.items.len() == track.items@.len());
        }
        t = t + 1;
    }
    best
}

proof fn seen_only_gets_earlier(best: Option<Seen>, items: Seq<ItemModel>, n: int, i: int)
    requires
        0 <= n <= items.len(),
    ensures
        best is Some ==> seen_on(best, items, n) is Some && (seen_on(best, items, n)->0).start.0 <= (
        best->0).start.0,
        0 <= i < n && items[i].kind is Media ==> seen_on(best, items, n) is Some && (seen_on(
            best,
            items,
            n,
        )->0).start.0 <= items[i].range.start.0,
    decreases n,
{
    if n > 0 {
        seen_only_gets_earlier(best, items, n - 1, i);
    }
}

/// No file on a video track comes before the one a compound's card shows.
pub proof fn the_picture_comes_first(tracks: Seq<TrackModel>, n: int, t: int, i: int)
    requires
        0 <= t < n <= tracks.len(),
        tracks[t].kind == TrackKind::Video,
        0 <= i < tracks[t].items.len(),
        tracks[t].items[i].kind is Media,
    ensures
        first_seen(tracks, n) is Some,
        (first_seen(tracks, n)->0).start.0 <= tracks[t].items[i].range.start.0,
    decreases n,
{
    let items = tracks[n - 1].items;
    let best = first_seen(tracks, n - 1);
    if t == n - 1 {
        seen_only_gets_earlier(best, items, items.len() as int, i);
    } else {
        the_picture_comes_first(tracks, n - 1, t, i);
        if tracks[n - 1].kind == TrackKind::Video {
            seen_only_gets_earlier(best, items, items.len() as int, -1);
        }
    }
}

/// What a compound's card says: how many clips it has, and how long it is.
pub fn compound_detail(s: &Sequence, length: Time) -> (out: String)
    requires
        clips_on(s@.tracks, s@.tracks.len() as int) <= usize::MAX,
    ensures
        ({
            let clips = clips_on(s@.tracks, s@.tracks.len() as int);
            out@ == "compound · "@ + (decimal(clips as nat) + " "@ + "clip"@ + if clips == 1 {
                ""@
            } else {
                "s"@
            }) + " · "@ + clock_of(length)
        }),
{
    let ghost tracks = s@.tracks;
    let mut clips: usize = 0;
    let mut t: usize = 0;
    while t < s.tracks.len()
        invariant
            tracks == s@.tracks,
            clips_on(tracks, tracks.len() as int) <= usize::MAX,
            t <= s.tracks@.len(),
            clips == clips_on(tracks, t as int),
        decreases s.tracks@.len() - t,
    {
        proof {
            assert(tracks[t as int] == s.tracks@[t as int]@);
            clips_add_up(tracks, t + 1, tracks.len() as int);
        }
        clips = clips + s.tracks[t].items.len();
        t = t + 1;
    }
    let head = join2("compound · ", counted(clips, "clip").as_str());
    join3(head.as_str(), " · ", clock(length).as_str())
}

proof fn clips_add_up(tracks: Seq<TrackModel>, a: int, b: int)
    requires
        0 <= a <= b,
    ensures
        clips_on(tracks, a) <= clips_on(tracks, b),
    decreases b - a,
{
    if a < b {
        clips_add_up(tracks, a, b - 1);
    }
}

/// The card for a file of the pool; `still` is how long a still is shown for.
pub fn media_card(
    id: MediaId,
    name: &str,
    detail: &str,
    kind: MediaKind,
    rank: u8,
    missing: bool,
    conformed: Option<String>,
    duration: Time,
    still: Time,
    folder: &str,
) -> (out: Card)
    ensures
        out@ == (CardModel {
            entry: Entry::Media(id),
            name: name@,
            detail: detail@,
            kind,
            rank,
            compound: false,
            missing,
            conformed: match conformed {
                Some(reason) => Some(reason@),
                None => None,
            },
            length: if kind == MediaKind::Still {
                still
            } else {
                duration
            },
            sound: kind == MediaKind::Audio && !missing,
            folder: folder@,
        }),
{
    Card {
        entry: Entry::Media(id),
        name: name.to_owned(),
        detail: detail.to_owned(),
        kind,
        rank,
        compound: false,
        missing,
        conformed,
        length: if kind == MediaKind::Still {
            still
        } else {
            duration
        },
        sound: kind == MediaKind::Audio && !missing,
        folder: folder.to_owned(),
    }
}

/// The card for a compound clip: always at the top.
pub fn compound_card(s: &Sequence, length: Time) -> (out: Card)
    requires
        clips_on(s@.tracks, s@.tracks.len() as int) <= usize::MAX,
    ensures
        out@.entry == Entry::Compound(s.id),
        out@.name == s@.name,
        out@.compound,
        out@.rank == 0,
        out@.kind == MediaKind::Video,
        !out@.missing,
        out@.conformed is None,
        out@.length == length,
        !out@.sound,
        out@.folder == ""@,
        ({
            let clips = clips_on(s@.tracks, s@.tracks.len() as int);
            out@.detail == "compound · "@ + (decimal(clips as nat) + " "@ + "clip"@ + if clips == 1 {
                ""@
            } else {
                "s"@
            }) + " · "@ + clock_of(length)
        }),
{
    Card {
        entry: Entry::Compound(s.id),
        name: s.name.clone(),
        detail: compound_detail(s, length),
        kind: MediaKind::Video,
        rank: 0,
        compound: true,
        missing: false,
        conformed: None,
        length,
        sound: false,
        folder: "".to_owned(),
    }
}

// ---- one card ----

/// How a card's frame is drawn.
#[derive(Copy, Clone, Debug, PartialEq, Eq, Structural)]
pub enum Border {
    Missing,
    Hovered,
    Plain,
}

/// What's under the pointer on a card.
#[derive(Copy, Clone, Debug, PartialEq, Eq, Structural)]
pub struct Pointer {
    pub hovered: bool,
    pub over_listen: bool,
    pub over_plus: bool,
    pub clicked: bool,
    pub double_clicked: bool,
    pub drag_started: bool,
}

/// What a card draws over its picture.
#[derive(Copy, Clone, Debug, PartialEq, Eq, Structural)]
pub struct Face {
    /// The mark for what it is, where there's no picture.
    pub icon: Option<char>,
    /// The mark of a compound.
    pub compound: bool,
    pub length: bool,
    pub border: Border,
    pub listen: bool,
    /// The listen button stops, rather than plays.
    pub stop: bool,
    pub plus: bool,
}

/// What using a card does.
#[derive(Copy, Clone, Debug, PartialEq, Eq, Structural)]
pub struct Use {
    pub audition: bool,
    pub add: bool,
    pub drag: bool,
}

/// What the pointer does with a card.
pub open spec fn use_of(card: CardModel, at: Pointer) -> Use {
    Use {
        audition: at.clicked && at.over_listen && card.sound,
        add: !card.missing && !(card.sound && at.over_listen) && ((at.clicked && at.over_plus)
            || at.double_clicked),
        drag: !card.missing && at.drag_started,
    }
}

impl Card {
    /// What the card draws over its picture.
    pub fn face(&self, drawn: bool, playing: bool, at: Pointer) -> (out: Face)
        ensures
            out == (Face {
                icon: if drawn {
                    None
                } else if self.compound {
                    Some('▣')
                } else {
                    Some(
                        match self.kind {
                            MediaKind::Video => '🎞',
                            MediaKind::Still => '🖼',
                            MediaKind::Audio => '🔊',
                        },
                    )
                },
                compound: self.compound,
                length: self.kind != MediaKind::Still || self.compound,
                border: if self.missing {
                    Border::Missing
                } else if at.hovered {
                    Border::Hovered
                } else {
                    Border::Plain
                },
                listen: self.sound && (at.hovered || playing),
                stop: self.sound && playing,
                plus: at.hovered && !self.missing,
            }),
    {
        Face {
            icon: if drawn {
                None
            } else if self.compound {
                Some('▣')
            } else {
                Some(
                    match self.kind {
                        MediaKind::Video => '🎞',
                        MediaKind::Still => '🖼',
                        MediaKind::Audio => '🔊',
                    },
                )
            },
            compound: self.compound,
            length: self.kind != MediaKind::Still || self.compound,
            border: if self.missing {
                Border::Missing
            } else if at.hovered {
                Border::Hovered
            } else {
                Border::Plain
            },
            listen: self.sound && (at.hovered || playing),
            stop: self.sound && playing,
            plus: at.hovered && !self.missing,
        }
    }

    /// What the pointer does with the card: its listen button plays it, its plus or a
    /// double-click adds it to the timeline, and dragging takes it there. One whose file is
    /// missing can't be used.
    pub fn used(&self, at: Pointer) -> (out: Use)
        ensures
            out == use_of(self@, at),
    {
        Use {
            audition: at.clicked && at.over_listen && self.sound,
            add: !self.missing && !(self.sound && at.over_listen) && ((at.clicked && at.over_plus)
                || at.double_clicked),
            drag: !self.missing && at.drag_started,
        }
    }

    /// What the card carries when it's dragged.
    pub fn dragged(&self) -> (out: BinDrop)
        ensures
            out.entry == self.entry,
            out.name@ == self.name@,
            out.length == self.length,
            out.audio == (self.kind == MediaKind::Audio && !self.compound),
    {
        BinDrop {
            entry: self.entry,
            name: self.name.clone(),
            length: self.length,
            audio: self.kind == MediaKind::Audio && !self.compound,
        }
    }

    /// The line under the card's name.
    pub fn line(&self) -> (out: String)
        ensures
            out@ == if self.missing {
                "missing"@
            } else {
                first_two(self.detail@)
            },
    {
        if self.missing {
            "missing".to_owned()
        } else {
            two_parts(self.detail.as_str())
        }
    }

    /// What's said when the card is pointed at.
    pub fn tip(&self) -> (out: String)
        ensures
            out@ == self.name@ + "\n"@ + self.detail@ + match self.conformed {
                Some(reason) => "\nconverted for playback ("@ + reason@ + ")"@,
                None => ""@,
            } + "\nDouble-click or ＋ to add to the timeline; right-click for more."@,
    {
        let mut out = join3(self.name.as_str(), "\n", self.detail.as_str());
        let note = match &self.conformed {
            Some(reason) => join3("\nconverted for playback (", reason.as_str(), ")"),
            None => "".to_owned(),
        };
        out.append(note.as_str());
        out.append("\nDouble-click or ＋ to add to the timeline; right-click for more.");
        out
    }

    /// What the card's menu offers.
    pub fn menu(&self, used: bool, advanced_color: bool) -> (out: Menu)
        ensures
            out == (Menu {
                add: !self.missing,
                file: self.entry is Media,
                picture: self.entry is Media && self.kind != MediaKind::Audio,
                color: self.entry is Media && self.kind != MediaKind::Audio && advanced_color,
                relink: self.entry is Media && self.missing,
                delete: if self.entry is Compound {
                    Some(!used)
                } else {
                    None
                },
            }),
    {
        let file = matches!(self.entry, Entry::Media(_));
        let picture = file && self.kind != MediaKind::Audio;
        Menu {
            add: !self.missing,
            file,
            picture,
            color: picture && advanced_color,
            relink: file && self.missing,
            delete: if file {
                None
            } else {
                Some(!used)
            },
        }
    }
}

/// What a card's menu offers.
#[derive(Copy, Clone, Debug, PartialEq, Eq, Structural)]
pub struct Menu {
    /// It can be added to the timeline.
    pub add: bool,
    /// It can be saved to the assets and moved to a folder.
    pub file: bool,
    /// How it's scaled can be set.
    pub picture: bool,
    /// How its colors are read can be set.
    pub color: bool,
    pub relink: bool,
    /// A compound, and whether it can be deleted (no clip uses it).
    pub delete: Option<bool>,
}

/// A card whose file is missing never gets onto the timeline.
pub proof fn missing_files_stay_off_the_timeline(card: CardModel, at: Pointer)
    requires
        card.missing,
    ensures
        !use_of(card, at).add,
        !use_of(card, at).drag,
{
}

/// The first two parts of a detail, between its " · "s.
pub open spec fn first_two(s: Seq<char>) -> Seq<char> {
    let dot = " · "@;
    match next_of(s, dot, 0) {
        Some(a) => match next_of(s, dot, a + dot.len()) {
            Some(b) => s.take(b),
            None => s,
        },
        None => s,
    }
}

/// The first two parts of a detail.
pub fn two_parts(s: &str) -> (out: String)
    ensures
        out@ == first_two(s@),
{
    let chars = chars_of(s);
    let dot = chars_of(" · ");
    let ghost p = " · "@;
    match find_from(&chars, &dot, 0) {
        Some(a) => {
            proof {
                next_is_first(s@, p, 0, a as int);
            }
            let n: usize = chars.len();
            assert(a + dot@.len() <= n);
            match find_from(&chars, &dot, a + dot.len()) {
                Some(b) => {
                    proof {
                        next_is_first(s@, p, a + p.len(), b as int);
                    }
                    let out = text_between(&chars, 0, b);
                    assert(out@ =~= s@.take(b as int));
                    out
                },
                None => {
                    proof {
                        next_is_nowhere(s@, p, a + p.len());
                    }
                    s.to_owned()
                },
            }
        },
        None => {
            proof {
                next_is_nowhere(s@, p, 0);
            }
            s.to_owned()
        },
    }
}

/// What the bin says where it has nothing to show.
pub fn empty_note(search: &str) -> (out: &'static str)
    ensures
        out@ == if trimmed(search@) == ""@ {
            "Nothing imported yet — drop files here, or use Import."@
        } else {
            "Nothing matches."@
        },
{
    if same(trim(search).as_str(), "") {
        "Nothing imported yet — drop files here, or use Import."
    } else {
        "Nothing matches."
    }
}

} // verus!
