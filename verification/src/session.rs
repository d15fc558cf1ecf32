//! Importing files and opening projects: what goes in the media pool, and what to say
//! about it.
use crate::color::{automatic, InputColor};
use crate::doc::{EditError, ItemId, MediaId, MediaKind, Op, Sequence, Time, TrackId, TrackKind};
use crate::editor::{Editor, PoolItem};
use crate::outcomes::MediaScaling;
use crate::placing::plain;
use crate::seqs::{first_from, first_is_right, first_where, views};
use crate::text::{join2, same};
use vstd::prelude::*;

verus! {

/// Frames per second, as a fraction.
#[derive(Copy, Clone, Debug, PartialEq, Eq, Structural)]
pub struct Rate {
    pub num: u32,
    pub den: u32,
}

/// What a file is, as the project keeps it.
#[derive(Copy, Clone, Debug, PartialEq, Eq, Structural)]
pub struct MediaInfo {
    pub width: u32,
    pub height: u32,
    pub duration: Time,
    pub rate: Option<Rate>,
    pub has_video: bool,
    pub has_audio: bool,
    pub still: bool,
    /// What the file says of its colors, by number (0: nothing).
    pub color_tags: u64,
}

/// A file of the project.
pub struct MediaRef {
    pub id: MediaId,
    pub path: String,
    /// What its contents hash to.
    pub fingerprint: Option<String>,
    pub info: Option<MediaInfo>,
    /// How its pixels are scaled.
    pub scaling: MediaScaling,
    /// How its colors are read.
    pub color: InputColor,
    /// The bin folder it's in ("" at the top).
    pub folder: String,
}

/// A file just probed.
pub struct Imported {
    pub path: String,
    pub name: String,
    pub fingerprint: String,
    pub kind: MediaKind,
    pub decode_path: String,
    pub conformed: Option<String>,
    pub info: MediaInfo,
    /// What it is, in a few words.
    pub about: String,
}

/// What importing a file comes to.
pub enum Import {
    /// The project has it already.
    Existing(MediaId),
    /// A new file of the project, and its place in the pool.
    New { media: MediaRef, item: PoolItem },
}

/// A file with the contents.
pub open spec fn with_fingerprint(fingerprint: Seq<char>) -> spec_fn(MediaRef) -> bool {
    |m: MediaRef| m.fingerprint matches Some(f) && f@ == fingerprint
}

/// The pool item of a file just probed.
pub open spec fn pool_of(id: MediaId, imported: Imported, item: PoolItem) -> bool {
    &&& item.id == id
    &&& item.name@ == imported.name@
    &&& item.kind == imported.kind
    &&& item.decode_path@ == imported.decode_path@
    &&& match imported.conformed {
        Some(why) => item.conformed matches Some(w) && w@ == why@,
        None => item.conformed is None,
    }
    &&& item.duration == imported.info.duration
    &&& item.has_video == imported.info.has_video
    &&& item.has_audio == imported.info.has_audio
    &&& item.about@ == imported.about@
    &&& !item.missing
}

/// What the project keeps of a file just probed.
pub open spec fn ref_of(id: MediaId, imported: Imported, media: MediaRef) -> bool {
    &&& media.id == id
    &&& media.path@ == imported.path@
    &&& (media.fingerprint matches Some(f) && f@ == imported.fingerprint@)
    &&& media.info == Some(imported.info)
    &&& media.scaling == MediaScaling::Auto
    &&& media.color == automatic()
    &&& media.folder@ == Seq::<char>::empty()
}

fn pool_item_of(id: MediaId, imported: &Imported) -> (out: PoolItem)
    ensures
        pool_of(id, *imported, out),
{
    PoolItem {
        id,
        name: imported.name.clone(),
        kind: imported.kind,
        decode_path: imported.decode_path.clone(),
        conformed: match &imported.conformed {
            Some(why) => Some(why.clone()),
            None => None,
        },
        duration: imported.info.duration,
        has_video: imported.info.has_video,
        has_audio: imported.info.has_audio,
        about: imported.about.clone(),
        missing: false,
    }
}

impl Editor {
    /// Adds an imported file to the project (deduplicating by fingerprint). `id` is a
    /// fresh id.
    pub fn add_media(media: &Vec<MediaRef>, imported: &Imported, id: MediaId) -> (out: Import)
        ensures
            match first_where(media@, with_fingerprint(imported.fingerprint@)) {
                Some(i) => out == Import::Existing(media@[i].id),
                None => out matches Import::New { media: m, item } && ref_of(id, *imported, m)
                    && pool_of(id, *imported, item),
            },
    {
        let ghost p = with_fingerprint(imported.fingerprint@);
        let mut i: usize = 0;
        while i < media.len()
            invariant
                p == with_fingerprint(imported.fingerprint@),
                i <= media@.len(),
                first_where(media@, p) == first_from(media@, p, i as int),
            decreases media@.len() - i,
        {
            if let Some(f) = &media[i].fingerprint {
                if same(f.as_str(), imported.fingerprint.as_str()) {
                    return Import::Existing(media[i].id);
                }
            }
            i = i + 1;
        }
        Import::New {
            media: MediaRef {
                id,
                path: imported.path.clone(),
                fingerprint: Some(imported.fingerprint.clone()),
                info: Some(imported.info),
                scaling: MediaScaling::Auto,
                color: InputColor::default(),
                folder: String::new(),
            },
            item: pool_item_of(id, imported),
        }
    }

    /// Each clip's own cut, as one: the changes one after another, and the new back
    /// halves. Clips that can't be cut there are skipped; if none can, the last one's
    /// reason is given.
    pub fn split_many(results: Vec<Result<(Vec<Op>, ItemId), EditError>>) -> (out: Result<
        (Vec<Op>, Vec<ItemId>),
        EditError,
    >)
        ensures
            ({
                let all = cut_ops(results@);
                if all.len() == 0 {
                    out == Err::<(Vec<Op>, Vec<ItemId>), EditError>(
                        match last_error(results@) {
                            Some(e) => e,
                            None => EditError::InvalidRange,
                        },
                    )
                } else {
                    out matches Ok(done) && done.0@ == all && done.1@ == cut_backs(results@)
                }
            }),
    {
        let mut ops: Vec<Op> = Vec::new();
        let mut backs: Vec<ItemId> = Vec::new();
        let mut last: Option<EditError> = None;
        let ghost all = results@;
        let mut left = results;
        let n: usize = left.len();
        let mut i: usize = 0;
        left = reversed(left);
        assert(all.take(0) =~= Seq::<Result<(Vec<Op>, ItemId), EditError>>::empty());
        while i < n
            invariant
                n == all.len(),
                i <= n,
                left@.len() == n - i,
                forall|k: int| 0 <= k < left@.len() ==> left@[k] == all[n - 1 - k],
                ops@ == cut_ops(all.take(i as int)),
                backs@ == cut_backs(all.take(i as int)),
                last == last_error(all.take(i as int)),
            decreases n - i,
        {
            let result = left.pop().unwrap();
            assert(all.take(i + 1).drop_last() =~= all.take(i as int));
            assert(all.take(i + 1).last() == result);
            match result {
                Ok((mut more, back)) => {
                    ops.append(&mut more);
                    backs.push(back);
                },
                Err(e) => {
                    last = Some(e);
                },
            }
            i = i + 1;
        }
        assert(all.take(n as int) =~= all);
        if ops.len() == 0 {
            Err(
                match last {
                    Some(e) => e,
                    None => EditError::InvalidRange,
                },
            )
        } else {
            Ok((ops, backs))
        }
    }
}

/// The results, last first.
fn reversed(v: Vec<Result<(Vec<Op>, ItemId), EditError>>) -> (out: Vec<
    Result<(Vec<Op>, ItemId), EditError>,
>)
    ensures
        out@ == v@.reverse(),
{
    let mut out: Vec<Result<(Vec<Op>, ItemId), EditError>> = Vec::new();
    let mut v = v;
    let ghost all = v@;
    let n: usize = v.len();
    let mut i: usize = 0;
    while i < n
        invariant
            n == all.len(),
            i <= n,
            v@ == all.take(n - i),
            out@ == all.reverse().take(i as int),
        decreases n - i,
    {
        let x = v.pop().unwrap();
        out.push(x);
        i = i + 1;
        assert(v@ =~= all.take(n - i));
        assert(out@ =~= all.reverse().take(i as int));
    }
    assert(out@ =~= all.reverse());
    out
}

/// The changes of the cuts that worked, one after another.
pub open spec fn cut_ops(results: Seq<Result<(Vec<Op>, ItemId), EditError>>) -> Seq<Op>
    decreases results.len(),
{
    if results.len() == 0 {
        Seq::empty()
    } else {
        match results.last() {
            Ok(done) => cut_ops(results.drop_last()) + done.0@,
            Err(_) => cut_ops(results.drop_last()),
        }
    }
}

/// The new back halves of the cuts that worked.
pub open spec fn cut_backs(results: Seq<Result<(Vec<Op>, ItemId), EditError>>) -> Seq<ItemId>
    decreases results.len(),
{
    if results.len() == 0 {
        Seq::empty()
    } else {
        match results.last() {
            Ok(done) => cut_backs(results.drop_last()).push(done.1),
            Err(_) => cut_backs(results.drop_last()),
        }
    }
}

/// Why the last cut that didn't work didn't.
pub open spec fn last_error(results: Seq<Result<(Vec<Op>, ItemId), EditError>>) -> Option<EditError>
    decreases results.len(),
{
    if results.len() == 0 {
        None
    } else {
        match results.last() {
            Err(e) => Some(e),
            Ok(_) => last_error(results.drop_last()),
        }
    }
}

/// Importing the same file again finds the one added: nothing is kept twice.
pub proof fn importing_twice_keeps_one(
    media: Seq<MediaRef>,
    imported: Imported,
    id: MediaId,
    added: MediaRef,
)
    requires
        first_where(media, with_fingerprint(imported.fingerprint@)) is None,
        ref_of(id, imported, added),
    ensures
        first_where(media.push(added), with_fingerprint(imported.fingerprint@)) == Some(
            media.len() as int,
        ),
{
    let p = with_fingerprint(imported.fingerprint@);
    first_is_right(media, p, 0);
    first_is_right(media.push(added), p, 0);
    assert(media.push(added)[media.len() as int] == added);
    let found = first_where(media.push(added), p);
    if found is Some && found->0 < media.len() {
        assert(media[found->0] == media.push(added)[found->0]);
    }
}

// ---- opening a project ----

/// Why a project can't be opened.
#[derive(Copy, Clone, Debug, PartialEq, Eq, Structural)]
pub enum OpenError {
    NoSequences,
    NoVideoTrack,
}

/// What to say of it.
pub fn open_error(e: OpenError) -> (out: &'static str)
    ensures
        out@ == match e {
            OpenError::NoSequences => "project has no sequences"@,
            OpenError::NoVideoTrack => "project has no video track"@,
        },
{
    match e {
        OpenError::NoSequences => "project has no sequences",
        OpenError::NoVideoTrack => "project has no video track",
    }
}

/// The tracks clips go to by default: the first that holds pictures, and the first that
/// holds sound (the picture one if there's none).
pub fn default_tracks(first: Option<&Sequence>) -> (out: Result<(TrackId, TrackId), OpenError>)
    ensures
        match first {
            None => out == Err::<(TrackId, TrackId), OpenError>(OpenError::NoSequences),
            Some(s) => match first_where(s@.tracks, plain(TrackKind::Video)) {
                None => out == Err::<(TrackId, TrackId), OpenError>(OpenError::NoVideoTrack),
                Some(v) => out == Ok::<(TrackId, TrackId), OpenError>(
                    (
                        s@.tracks[v].id,
                        match first_where(s@.tracks, plain(TrackKind::Audio)) {
                            Some(a) => s@.tracks[a].id,
                            None => s@.tracks[v].id,
                        },
                    ),
                ),
            },
        },
{
    match first {
        None => Err(OpenError::NoSequences),
        Some(s) => match first_plain_id(s, TrackKind::Video) {
            None => Err(OpenError::NoVideoTrack),
            Some(video) => {
                let audio = match first_plain_id(s, TrackKind::Audio) {
                    Some(a) => a,
                    None => video,
                };
                Ok((video, audio))
            },
        },
    }
}

fn first_plain_id(s: &Sequence, kind: TrackKind) -> (out: Option<TrackId>)
    ensures
        match first_where(s@.tracks, plain(kind)) {
            Some(t) => out == Some(s@.tracks[t].id),
            None => out is None,
        },
{
    let ghost p = plain(kind);
    let mut i: usize = 0;
    while i < s.tracks.len()
        invariant
            p == plain(kind),
            i <= s.tracks@.len(),
            first_where(s@.tracks, p) == first_from(s@.tracks, p, i as int),
        decreases s.tracks@.len() - i,
    {
        assert(s@.tracks[i as int] == s.tracks@[i as int]@);
        if s.tracks[i].kind == kind && !s.tracks[i].effects {
            return Some(s.tracks[i].id);
        }
        i = i + 1;
    }
    None
}

/// Where a project's file turned up.
pub enum Found {
    /// Where the project says.
    Kept,
    /// Somewhere else, with the same contents.
    Relinked(String),
    Gone,
}

/// One file of a project being opened: where it turned up, and what importing it gave.
pub struct Reopened {
    pub media: MediaRef,
    /// The name of the file its path names (`None`: it names none).
    pub name: Option<String>,
    pub found: Found,
    pub import: Result<Imported, String>,
}

/// A file that can't be used: its place in the pool stays, marked missing.
pub open spec fn missing_of(media: MediaRef, name: Option<String>, item: PoolItem) -> bool {
    &&& item.id == media.id
    &&& item.name@ == (match name {
        Some(n) => n@,
        None => media.path@,
    })
    &&& item.decode_path@ == media.path@
    &&& item.conformed is None
    &&& item.duration == (match media.info {
        Some(info) => info.duration,
        None => Time(0),
    })
    &&& item.about@ == Seq::<char>::empty()
    &&& item.kind == (match media.info {
        Some(info) => if info.has_video {
            MediaKind::Video
        } else {
            MediaKind::Audio
        },
        None => MediaKind::Video,
    })
    &&& !item.has_video
    &&& !item.has_audio
    &&& item.missing
}

/// A file that can't be used: its place in the pool stays, marked missing. It's called after
/// the file its path names, or after the path where that names none.
pub fn missing_item(media: &MediaRef, name: &Option<String>) -> (out: PoolItem)
    ensures
        missing_of(*media, *name, out),
{
    let kind = match media.info {
        Some(info) => {
            if info.has_video {
                MediaKind::Video
            } else {
                MediaKind::Audio
            }
        },
        None => MediaKind::Video,
    };
    PoolItem {
        id: media.id,
        name: match name {
            Some(n) => n.clone(),
            None => media.path.clone(),
        },
        kind,
        decode_path: media.path.clone(),
        conformed: None,
        duration: match media.info {
            Some(info) => info.duration,
            None => Time(0),
        },
        has_video: false,
        has_audio: false,
        about: String::new(),
        missing: true,
    }
}

/// What's to be said about a file that was reopened.
pub open spec fn reopen_warnings(r: Reopened) -> Seq<Seq<char>> {
    let path = r.media.path@;
    let moved = match r.found {
        Found::Relinked(to) => seq!["relinked "@ + path + " \u{2192} "@ + to@],
        _ => Seq::empty(),
    };
    match r.found {
        Found::Gone => seq!["missing: "@ + path],
        _ => match r.import {
            Ok(_) => moved,
            Err(why) => moved.push(path + ": "@ + why@),
        },
    }
}

/// The pool item of a file that was reopened.
pub open spec fn reopen_item(r: Reopened, item: PoolItem) -> bool {
    match r.found {
        Found::Gone => missing_of(r.media, r.name, item),
        _ => match r.import {
            Ok(imported) => pool_of(r.media.id, imported, item),
            Err(_) => missing_of(r.media, r.name, item),
        },
    }
}

/// The files that moved, with where to.
pub open spec fn relinked(all: Seq<Reopened>) -> Seq<(MediaId, Seq<char>)> {
    all.filter_map(relink_of())
}

pub open spec fn relink_of() -> spec_fn(Reopened) -> Option<(MediaId, Seq<char>)> {
    |r: Reopened|
        match r.found {
            Found::Relinked(to) => Some((r.media.id, to@)),
            _ => None,
        }
}

pub open spec fn warner() -> spec_fn(Reopened) -> Seq<Seq<char>> {
    |r: Reopened| reopen_warnings(r)
}

/// Where the files that moved are now.
pub open spec fn relink_views(v: Seq<(MediaId, String)>) -> Seq<(MediaId, Seq<char>)> {
    v.map_values(|p: (MediaId, String)| (p.0, p.1@))
}

fn warnings_for(r: &Reopened) -> (out: Vec<String>)
    ensures
        views(out@) == reopen_warnings(*r),
{
    let mut out: Vec<String> = Vec::new();
    match &r.found {
        Found::Gone => {
            out.push(join2("missing: ", r.media.path.as_str()));
            assert(views(out@) =~= seq!["missing: "@ + r.media.path@]);
            return out;
        },
        Found::Relinked(to) => {
            let mut line = join2("relinked ", r.media.path.as_str());
            line.append(" \u{2192} ");
            line.append(to.as_str());
            out.push(line);
        },
        Found::Kept => {},
    }
    if let Err(why) = &r.import {
        let mut line = join2(r.media.path.as_str(), ": ");
        line.append(why.as_str());
        out.push(line);
    }
    assert(views(out@) =~= reopen_warnings(*r));
    out
}

/// The media pool of a project being opened, what to say about its files, and those whose
/// path in the project is to be changed. Every file keeps its place in the pool, found or
/// not.
pub fn reopen(all: &Vec<Reopened>) -> (out: (Vec<PoolItem>, Vec<String>, Vec<(MediaId, String)>))
    ensures
        out.0@.len() == all@.len(),
        forall|k: int| 0 <= k < all@.len() ==> reopen_item(all@[k], #[trigger] out.0@[k]),
        views(out.1@) == all@.flat_map(warner()),
        relink_views(out.2@) == relinked(all@),
{
    let mut pool: Vec<PoolItem> = Vec::new();
    let mut warnings: Vec<String> = Vec::new();
    let mut relinks: Vec<(MediaId, String)> = Vec::new();
    let mut i: usize = 0;
    proof {
        assert(all@.take(0) =~= Seq::<Reopened>::empty());
        assert(all@.take(0).flat_map(warner()) =~= Seq::<Seq<char>>::empty());
        assert(views(warnings@) =~= Seq::<Seq<char>>::empty());
        assert(relink_views(relinks@) =~= Seq::<(MediaId, Seq<char>)>::empty());
    }
    while i < all.len()
        invariant
            i <= all@.len(),
            pool@.len() == i,
            forall|k: int| 0 <= k < i ==> reopen_item(all@[k], #[trigger] pool@[k]),
            views(warnings@) == all@.take(i as int).flat_map(warner()),
            relink_views(relinks@) == all@.take(i as int).filter_map(relink_of()),
        decreases all@.len() - i,
    {
        let r = &all[i];
        let mut more = warnings_for(r);
        let ghost had = warnings@;
        let ghost got = more@;
        let ghost was = relinks@;
        warnings.append(&mut more);
        proof {
            all@.lemma_flat_map_take_append(warner(), i as int);
            assert(views(warnings@) =~= views(had) + views(got));
            all@.lemma_filter_map_take_succ(relink_of(), i as int);
        }
        let mut gone = false;
        match &r.found {
            Found::Relinked(to) => {
                relinks.push((r.media.id, to.clone()));
            },
            Found::Gone => {
                gone = true;
            },
            Found::Kept => {},
        }
        assert(relink_views(relinks@) =~= all@.take(i + 1).filter_map(relink_of()));
        if gone {
            pool.push(missing_item(&r.media, &r.name));
        } else {
            match &r.import {
                Ok(imported) => {
                    pool.push(pool_item_of(r.media.id, imported));
                },
                Err(_) => {
                    pool.push(missing_item(&r.media, &r.name));
                },
            }
        }
        i = i + 1;
    }
    assert(all@.take(i as int) =~= all@);
    (pool, warnings, relinks)
}

/// A project still opens when files are gone: each keeps its place in the pool, and is
/// marked missing exactly when it wasn't found or couldn't be imported.
pub proof fn files_stay_in_the_pool(r: Reopened, item: PoolItem)
    requires
        reopen_item(r, item),
    ensures
        item.id == r.media.id,
        item.missing <==> (r.found is Gone || r.import is Err),
{
}

/// Whether a file saved before color tags were kept takes them from the fresh probe.
pub fn takes_color_tags(known: bool, stored_empty: bool, probed_empty: bool) -> (out: bool)
    ensures
        out == (known && stored_empty && !probed_empty),
{
    known && stored_empty && !probed_empty
}

} // verus!
