//! The asset library: a folder on this computer with the files you reach for in every
//! project.
use crate::doc::{MediaId, MediaKind};
use crate::order::{in_order, sorted, Key, KeyModel};
use crate::seqs::views;
use crate::text::{
    chars_of, contains, decimal, join2, join3, lowercase, lowercase_of, number, occurs, same,
};
use vstd::prelude::*;

verus! {

/// One file in the library.
pub struct Asset {
    pub path: String,
    pub name: String,
    pub kind: MediaKind,
    /// Which folder inside the library it's in ("" is the top).
    pub folder: String,
}

#[verifier::ext_equal]
pub struct AssetModel {
    pub path: Seq<char>,
    pub name: Seq<char>,
    pub kind: MediaKind,
    pub folder: Seq<char>,
}

impl View for Asset {
    type V = AssetModel;

    open spec fn view(&self) -> AssetModel {
        AssetModel { path: self.path@, name: self.name@, kind: self.kind, folder: self.folder@ }
    }
}

/// The 64-bit FNV-1a hash of the first bytes.
pub open spec fn hash_of(bytes: Seq<u8>, n: int) -> u64
    decreases n,
{
    if n <= 0 {
        0xcbf2_9ce4_8422_2325
    } else {
        (hash_of(bytes, n - 1) ^ (bytes[n - 1] as u64)).wrapping_mul(0x1000_0000_01b3)
    }
}

/// An asset's id in preview caches.
pub open spec fn preview_of(path: Seq<char>) -> u64 {
    let bytes = vstd::utf8::encode_utf8(path);
    hash_of(bytes, bytes.len() as int) | 0x8000_0000_0000_0000
}

impl Asset {
    /// A stable id for preview caches, from the path. The high bit keeps it clear of the
    /// project's own media ids, which count up from 1.
    pub fn preview_id(&self) -> (out: MediaId)
        ensures
            out == MediaId(preview_of(self.path@)),
    {
        let bytes = self.path.as_str().as_bytes();
        let n: usize = bytes.len();
        let mut hash: u64 = 0xcbf2_9ce4_8422_2325;
        let mut i: usize = 0;
        while i < n
            invariant
                n == bytes@.len(),
                i <= n,
                hash == hash_of(bytes@, i as int),
            decreases n - i,
        {
            hash = (hash ^ (bytes[i] as u64)).wrapping_mul(0x1000_0000_01b3);
            i = i + 1;
        }
        MediaId(hash | 0x8000_0000_0000_0000)
    }
}

/// A preview's id never looks like one of a project's media ids, which are below half of all
/// ids there can be.
pub proof fn previews_stay_clear(path: Seq<char>)
    ensures
        preview_of(path) >= 0x8000_0000_0000_0000,
{
    let bytes = vstd::utf8::encode_utf8(path);
    let h = hash_of(bytes, bytes.len() as int);
    assert(h | 0x8000_0000_0000_0000 >= 0x8000_0000_0000_0000) by (bit_vector);
}

/// A sound, by its extension in lower case.
pub open spec fn sound_ext(ext: Seq<char>) -> bool {
    ext == "mp3"@ || ext == "m4a"@ || ext == "wav"@ || ext == "flac"@ || ext == "aac"@ || ext
        == "ogg"@
}

/// A picture, by its extension in lower case.
pub open spec fn still_ext(ext: Seq<char>) -> bool {
    ext == "png"@ || ext == "jpg"@ || ext == "jpeg"@ || ext == "bmp"@ || ext == "webp"@
}

/// What kind of file it is, by its extension in lower case; `known` are those of media.
pub open spec fn kind_by(ext: Seq<char>, known: Seq<Seq<char>>) -> Option<MediaKind> {
    if !known.contains(ext) {
        None
    } else if sound_ext(ext) {
        Some(MediaKind::Audio)
    } else if still_ext(ext) {
        Some(MediaKind::Still)
    } else {
        Some(MediaKind::Video)
    }
}

/// What kind of file it is, by its extension in lower case.
pub fn kind_of_lower(ext: &str, known: &Vec<String>) -> (out: Option<MediaKind>)
    ensures
        out == kind_by(ext@, views(known@)),
{
    if !crate::folders::holds_name(known, ext) {
        None
    } else if same(ext, "mp3") || same(ext, "m4a") || same(ext, "wav") || same(ext, "flac") || same(
        ext,
        "aac",
    ) || same(ext, "ogg") {
        Some(MediaKind::Audio)
    } else if same(ext, "png") || same(ext, "jpg") || same(ext, "jpeg") || same(ext, "bmp") || same(
        ext,
        "webp",
    ) {
        Some(MediaKind::Still)
    } else {
        Some(MediaKind::Video)
    }
}

/// What kind of file it is, by its extension (`None`: it has none); `known` are the
/// extensions of media.
pub fn kind_of(ext: Option<&str>, known: &Vec<String>) -> (out: Option<MediaKind>)
    ensures
        out == match ext {
            Some(e) => kind_by(lowercase_of(e@), views(known@)),
            None => None,
        },
{
    match ext {
        Some(e) => kind_of_lower(lowercase(e).as_str(), known),
        None => None,
    }
}

// ---- reading the folder ----

/// How many slashes there are in the first characters.
pub open spec fn slashes(s: Seq<char>, n: int) -> nat
    decreases n,
{
    if n <= 0 {
        0
    } else {
        slashes(s, n - 1) + if s[n - 1] == '/' {
            1nat
        } else {
            0nat
        }
    }
}

/// How deep folders are read.
pub const DEEPEST: usize = 6;

/// Whether a folder is read: not one deeper than organizing needs, so a folder that leads
/// back to itself can't go on for ever.
pub fn is_read(folder: &str) -> (out: bool)
    ensures
        out == (slashes(folder@, folder@.len() as int) <= DEEPEST),
{
    let chars = chars_of(folder);
    let mut n: usize = 0;
    let mut i: usize = 0;
    while i < chars.len()
        invariant
            chars@ == folder@,
            i <= chars@.len(),
            n <= i,
            n == slashes(folder@, i as int),
        decreases chars@.len() - i,
    {
        if chars[i] == '/' {
            n = n + 1;
        }
        i = i + 1;
    }
    n <= DEEPEST
}

/// Something found in a folder.
pub struct Found {
    pub path: String,
    pub name: String,
    pub directory: bool,
    pub ext: Option<String>,
}

/// What a thing found in a folder is.
pub enum Visit {
    /// A folder, by its path in the library.
    Folder(String),
    Asset(Asset),
    /// Not media.
    Skip,
}

/// What a thing found in `folder` is.
pub fn visit(found: Found, folder: &str, known: &Vec<String>) -> (out: Visit)
    ensures
        if found.directory {
            out matches Visit::Folder(path) && path@ == crate::folders::step_into(
                folder@,
                found.name@,
            )
        } else {
            match found.ext {
                Some(ext) => match kind_by(lowercase_of(ext@), views(known@)) {
                    Some(kind) => out matches Visit::Asset(a) && a@ == (AssetModel {
                        path: found.path@,
                        name: found.name@,
                        kind,
                        folder: folder@,
                    }),
                    None => out is Skip,
                },
                None => out is Skip,
            }
        },
{
    if found.directory {
        return Visit::Folder(crate::folders::inside(folder, found.name.as_str()));
    }
    let kind = match &found.ext {
        Some(ext) => kind_of(Some(ext.as_str()), known),
        None => None,
    };
    match kind {
        Some(kind) => Visit::Asset(
            Asset { path: found.path, name: found.name, kind, folder: folder.to_owned() },
        ),
        None => Visit::Skip,
    }
}

/// What an asset is sorted by: its folder, then its name, whatever their case.
pub open spec fn asset_keys() -> spec_fn(AssetModel) -> KeyModel {
    |a: AssetModel|
        KeyModel { rank: 0, group: lowercase_of(a.folder), name: lowercase_of(a.name) }
}

/// The library's files in the order they're shown, by their place.
pub fn asset_order(items: &Vec<Asset>) -> (out: Vec<usize>)
    ensures
        crate::order::arranges(out@, items@.len() as int),
        in_order(views(items@).map_values(asset_keys()), out@),
{
    let ghost all = views(items@);
    let ghost f = asset_keys();
    let mut keys: Vec<Key> = Vec::new();
    let mut kept: Vec<usize> = Vec::new();
    let mut i: usize = 0;
    while i < items.len()
        invariant
            all == views(items@),
            f == asset_keys(),
            i <= items@.len(),
            keys@.len() == i,
            kept@.len() == i,
            forall|k: int| 0 <= k < i ==> (#[trigger] keys@[k])@ == f(all[k]),
            forall|k: int| 0 <= k < i ==> (#[trigger] kept@[k]) == k,
        decreases items@.len() - i,
    {
        assert(all[i as int] == items@[i as int]@);
        let key = Key {
            rank: 0,
            group: lowercase(items[i].folder.as_str()),
            name: lowercase(items[i].name.as_str()),
        };
        assert(key@ =~= f(all[i as int]));
        keys.push(key);
        kept.push(i);
        i = i + 1;
    }
    assert(views(keys@) =~= all.map_values(f));
    let out = sorted(&keys, &kept);
    proof {
        assert forall|k: int| 0 <= k < out@.len() implies (#[trigger] out@[k])
            < items@.len() by {
            assert(out@.contains(out@[k]));
            assert(kept@.contains(out@[k]));
        }
    }
    out
}

/// The places of the first assets directly inside `folder`.
pub open spec fn inside_folder(items: Seq<AssetModel>, folder: Seq<char>, n: int) -> Seq<usize>
    decreases n,
{
    if n <= 0 {
        Seq::empty()
    } else if items[n - 1].folder == folder {
        inside_folder(items, folder, n - 1).push((n - 1) as usize)
    } else {
        inside_folder(items, folder, n - 1)
    }
}

/// What's directly inside `folder`, by its place.
pub fn in_folder(items: &Vec<Asset>, folder: &str) -> (out: Vec<usize>)
    ensures
        out@ == inside_folder(views(items@), folder@, items@.len() as int),
{
    let ghost all = views(items@);
    let mut out: Vec<usize> = Vec::new();
    let mut i: usize = 0;
    while i < items.len()
        invariant
            all == views(items@),
            i <= items@.len(),
            out@ == inside_folder(all, folder@, i as int),
        decreases items@.len() - i,
    {
        assert(all[i as int] == items@[i as int]@);
        if same(items[i].folder.as_str(), folder) {
            out.push(i);
        }
        i = i + 1;
    }
    out
}

// ---- copying a file in ----

/// The names a copy may get: its own, then "whoosh 2.wav", "whoosh 3.wav" and so on.
pub open spec fn copy_name(name: Seq<char>, stem: Seq<char>, ext: Seq<char>, k: int) -> Seq<char> {
    if k <= 0 {
        name
    } else {
        stem + " "@ + decimal((k + 1) as nat) + ext
    }
}

/// One of the names a copy may get.
pub fn nth_name(name: &str, stem: &str, ext: &str, k: usize) -> (out: String)
    requires
        k < usize::MAX,
    ensures
        out@ == copy_name(name@, stem@, ext@, k as int),
{
    if k == 0 {
        name.to_owned()
    } else {
        let head = join3(stem, " ", number(k as u64 + 1).as_str());
        join2(head.as_str(), ext)
    }
}

/// The first of the names from `from` on that's free (`None`: they're all taken).
pub open spec fn first_free(taken: Seq<bool>, from: int) -> Option<int>
    decreases taken.len() - from,
{
    if from < 0 || from >= taken.len() {
        None
    } else if !taken[from] {
        Some(from)
    } else {
        first_free(taken, from + 1)
    }
}

/// What a copy is called: the first of its names that's free. `taken` says which of the first
/// ones there are files for; where that's all of them there's no name yet (`None`), and more
/// of them have to be looked at.
pub fn landing(name: &str, stem: &str, ext: &str, taken: &Vec<bool>) -> (out: Option<String>)
    ensures
        match first_free(taken@, 0) {
            Some(k) => out matches Some(t) && t@ == copy_name(name@, stem@, ext@, k),
            None => out is None,
        },
{
    let mut k: usize = 0;
    while k < taken.len()
        invariant
            k <= taken@.len(),
            first_free(taken@, 0) == first_free(taken@, k as int),
        decreases taken@.len() - k,
    {
        if !taken[k] {
            return Some(nth_name(name, stem, ext, k));
        }
        k = k + 1;
    }
    None
}

/// A copy never replaces a file: the name it gets is one that's free, and the first one. It
/// gets none only where every name that was looked at is taken.
pub proof fn copies_never_overwrite(taken: Seq<bool>, from: int)
    requires
        0 <= from,
    ensures
        match first_free(taken, from) {
            Some(k) => from <= k < taken.len() && !taken[k] && forall|j: int|
                from <= j < k ==> #[trigger] taken[j],
            None => forall|j: int| from <= j < taken.len() ==> #[trigger] taken[j],
        },
    decreases taken.len() - from,
{
    if from < taken.len() && taken[from] {
        copies_never_overwrite(taken, from + 1);
    }
}

/// The numbered names differ, so where there are more names to look at than files there's a
/// free one among them.
pub proof fn numbered_names_differ(name: Seq<char>, stem: Seq<char>, ext: Seq<char>, a: int, b: int)
    requires
        0 < a < b,
    ensures
        copy_name(name, stem, ext, a) != copy_name(name, stem, ext, b),
{
    let (x, y) = (decimal((a + 1) as nat), decimal((b + 1) as nat));
    let (p, q) = (copy_name(name, stem, ext, a), copy_name(name, stem, ext, b));
    crate::text::numbers_differ((a + 1) as nat, (b + 1) as nat);
    if p == q {
        let at = (stem + " "@).len() as int;
        assert(p.len() == at + x.len() + ext.len());
        assert(q.len() == at + y.len() + ext.len());
        assert(x =~= p.subrange(at, at + x.len()));
        assert(y =~= q.subrange(at, at + y.len()));
    }
}

/// Whether a folder of the library can have the name: a slash of either kind would name
/// another folder.
pub fn folder_name_error(name: &str) -> (out: Option<&'static str>)
    ensures
        occurs(name@, "/"@) || occurs(name@, "\\"@) ==> out is Some && (out->0)@
            == "A folder name can't contain a slash."@,
        !(occurs(name@, "/"@) || occurs(name@, "\\"@)) ==> out is None,
{
    if contains(name, "/") || contains(name, "\\") {
        Some("A folder name can't contain a slash.")
    } else {
        None
    }
}

/// What an asset is, in a word.
pub fn kind_word(kind: MediaKind) -> (out: &'static str)
    ensures
        out@ == match kind {
            MediaKind::Audio => "sound"@,
            MediaKind::Still => "picture"@,
            MediaKind::Video => "video"@,
        },
{
    match kind {
        MediaKind::Audio => "sound",
        MediaKind::Still => "picture",
        MediaKind::Video => "video",
    }
}

} // verus!
