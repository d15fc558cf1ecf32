//! Exporting: what to write and how, and the export's own thread.
use crate::caption_jobs::hull;
use crate::doc::{reckonable, Sequence, SequenceModel, Time, TimeRange, VariantId};
use crate::seqs::{first_from, first_is_right, first_where, views};
use crate::text::{
    chars_of, ends_with, is_letter_or_number, join2, join3, letter_or_number, number, decimal, same,
    starts_with, text_of, trim, trimmed, trimming_keeps_the_middle,
};
use vstd::prelude::*;

verus! {

// ---- file types ----

/// How the pictures are written.
#[derive(Copy, Clone, Debug, PartialEq, Eq, Structural)]
pub enum VideoCodec {
    H264,
    Hevc,
    ProRes,
    ProRes4444,
    WebmAlpha,
    Gif { fps: u32 },
}

/// A file type: its key, name, what's inside, extension and what it's for.
pub struct FileType {
    pub key: &'static str,
    pub name: &'static str,
    pub detail: &'static str,
    pub ext: &'static str,
    pub hint: &'static str,
}

#[verifier::ext_equal]
pub struct TypeModel {
    pub key: Seq<char>,
    pub name: Seq<char>,
    pub detail: Seq<char>,
    pub ext: Seq<char>,
    pub hint: Seq<char>,
}

impl View for FileType {
    type V = TypeModel;

    open spec fn view(&self) -> TypeModel {
        TypeModel {
            key: self.key@,
            name: self.name@,
            detail: self.detail@,
            ext: self.ext@,
            hint: self.hint@,
        }
    }
}

/// The file types, in the order they're offered.
pub open spec fn file_types() -> Seq<TypeModel> {
    seq![
        TypeModel {
            key: "h264"@,
            name: "MP4"@,
            detail: "H.264"@,
            ext: "mp4"@,
            hint: "Plays everywhere: the web, phones, social apps"@,
        },
        TypeModel {
            key: "hevc"@,
            name: "MP4"@,
            detail: "HEVC"@,
            ext: "mp4"@,
            hint: "About half the size at the same quality; newer devices"@,
        },
        TypeModel {
            key: "prores"@,
            name: "MOV"@,
            detail: "ProRes 422 HQ"@,
            ext: "mov"@,
            hint: "Large, near-lossless: for handing to another editor"@,
        },
        TypeModel {
            key: "prores4444"@,
            name: "MOV"@,
            detail: "ProRes 4444 · alpha"@,
            ext: "mov"@,
            hint: "Keeps transparency: overlays and titles for other editors"@,
        },
        TypeModel {
            key: "webm"@,
            name: "WebM"@,
            detail: "VP9 · alpha"@,
            ext: "webm"@,
            hint: "Keeps transparency, small: overlays for the web"@,
        },
        TypeModel {
            key: "gif"@,
            name: "GIF"@,
            detail: "Animated"@,
            ext: "gif"@,
            hint: "Loops anywhere, no sound — keep it short and small"@,
        },
    ]
}

/// The file types offered.
pub fn types() -> (out: Vec<FileType>)
    ensures
        views(out@) == file_types(),
{
    let out: Vec<FileType> = vec![
        FileType {
            key: "h264",
            name: "MP4",
            detail: "H.264",
            ext: "mp4",
            hint: "Plays everywhere: the web, phones, social apps",
        },
        FileType {
            key: "hevc",
            name: "MP4",
            detail: "HEVC",
            ext: "mp4",
            hint: "About half the size at the same quality; newer devices",
        },
        FileType {
            key: "prores",
            name: "MOV",
            detail: "ProRes 422 HQ",
            ext: "mov",
            hint: "Large, near-lossless: for handing to another editor",
        },
        FileType {
            key: "prores4444",
            name: "MOV",
            detail: "ProRes 4444 · alpha",
            ext: "mov",
            hint: "Keeps transparency: overlays and titles for other editors",
        },
        FileType {
            key: "webm",
            name: "WebM",
            detail: "VP9 · alpha",
            ext: "webm",
            hint: "Keeps transparency, small: overlays for the web",
        },
        FileType {
            key: "gif",
            name: "GIF",
            detail: "Animated",
            ext: "gif",
            hint: "Loops anywhere, no sound — keep it short and small",
        },
    ];
    assert(views(out@) =~= file_types());
    out
}

/// The type with a key.
pub open spec fn with_key(key: Seq<char>) -> spec_fn(TypeModel) -> bool {
    |t: TypeModel| t.key == key
}

/// The type a key names; the first one, for a key that names none.
pub open spec fn type_named(key: Seq<char>) -> TypeModel {
    match first_where(file_types(), with_key(key)) {
        Some(i) => file_types()[i],
        None => file_types()[0],
    }
}

/// The type a key names; the first one, for a key that names none.
pub fn type_of(key: &str) -> (out: FileType)
    ensures
        out@ == type_named(key@),
{
    let mut all = types();
    let ghost p = with_key(key@);
    let mut i: usize = 0;
    while i < all.len()
        invariant
            p == with_key(key@),
            views(all@) == file_types(),
            i <= all@.len(),
            first_where(file_types(), p) == first_from(file_types(), p, i as int),
        decreases all@.len() - i,
    {
        assert(file_types()[i as int] == all@[i as int]@);
        if same(all[i].key, key) {
            return all.swap_remove(i);
        }
        i = i + 1;
    }
    assert(file_types()[0] == all@[0]@);
    all.swap_remove(0)
}

/// How a type's pictures are written (as H.264, for a key that names no type).
pub open spec fn codec_named(key: Seq<char>, gif_fps: u32) -> VideoCodec {
    if key == "hevc"@ {
        VideoCodec::Hevc
    } else if key == "prores"@ {
        VideoCodec::ProRes
    } else if key == "prores4444"@ {
        VideoCodec::ProRes4444
    } else if key == "webm"@ {
        VideoCodec::WebmAlpha
    } else if key == "gif"@ {
        VideoCodec::Gif { fps: gif_fps }
    } else {
        VideoCodec::H264
    }
}

/// How a type's pictures are written.
pub fn codec_of(key: &str, gif_fps: u32) -> (out: VideoCodec)
    ensures
        out == codec_named(key@, gif_fps),
{
    if same(key, "hevc") {
        VideoCodec::Hevc
    } else if same(key, "prores") {
        VideoCodec::ProRes
    } else if same(key, "prores4444") {
        VideoCodec::ProRes4444
    } else if same(key, "webm") {
        VideoCodec::WebmAlpha
    } else if same(key, "gif") {
        VideoCodec::Gif { fps: gif_fps }
    } else {
        VideoCodec::H264
    }
}

/// The resolutions offered, as short edges (0: the format's own size).
pub open spec fn resolution_at(i: int) -> (u32, Seq<char>) {
    if i == 0 {
        (0, "Full"@)
    } else if i == 1 {
        (480, "480p"@)
    } else if i == 2 {
        (720, "720p"@)
    } else if i == 3 {
        (1080, "1080p"@)
    } else if i == 4 {
        (1440, "1440p"@)
    } else {
        (2160, "4K"@)
    }
}

/// The resolutions offered.
pub fn resolutions() -> (out: Vec<(u32, &'static str)>)
    ensures
        out@.len() == 6,
        forall|i: int|
            0 <= i < 6 ==> (#[trigger] out@[i]).0 == resolution_at(i).0 && out@[i].1@
                == resolution_at(i).1,
{
    vec![(0, "Full"), (480, "480p"), (720, "720p"), (1080, "1080p"), (1440, "1440p"), (2160, "4K")]
}

/// A side of the picture made even, as encoders need it.
pub open spec fn even_side(x: u32) -> int {
    if x < 2 {
        2
    } else {
        (x / 2) * 2
    }
}

/// A side of the picture made even, as encoders need it.
pub fn even(x: u32) -> (out: u32)
    ensures
        out == even_side(x),
        out % 2 == 0,
        out >= 2,
{
    let x: u32 = if x < 2 {
        2
    } else {
        x
    };
    (x / 2) * 2
}

// ---- the choices ----

/// The choices the Export window remembers.
pub struct ExportPrefs {
    pub codec: String,
    pub short_edge: u32,
    pub gif_fps: u32,
    pub crf: u32,
    pub encoder: String,
    pub audio: bool,
}

#[verifier::ext_equal]
pub struct PrefsModel {
    pub codec: Seq<char>,
    pub short_edge: u32,
    pub gif_fps: u32,
    pub crf: u32,
    pub encoder: Seq<char>,
    pub audio: bool,
}

impl View for ExportPrefs {
    type V = PrefsModel;

    open spec fn view(&self) -> PrefsModel {
        PrefsModel {
            codec: self.codec@,
            short_edge: self.short_edge,
            gif_fps: self.gif_fps,
            crf: self.crf,
            encoder: self.encoder@,
            audio: self.audio,
        }
    }
}

/// What the window says of a see-through background.
#[derive(Copy, Clone, Debug, PartialEq, Eq, Structural)]
pub enum AlphaNote {
    Nothing,
    /// It'll be black: this type can't keep it.
    Lost,
    Kept,
}

/// What the window says of the background: only types with alpha keep a see-through one.
pub fn alpha_note(see_through: bool, keeps_alpha: bool) -> (out: AlphaNote)
    ensures
        out == if !see_through {
            AlphaNote::Nothing
        } else if keeps_alpha {
            AlphaNote::Kept
        } else {
            AlphaNote::Lost
        },
{
    if !see_through {
        AlphaNote::Nothing
    } else if keeps_alpha {
        AlphaNote::Kept
    } else {
        AlphaNote::Lost
    }
}

/// Whether a background is see-through: a solid or gradient one with a color that is.
pub fn see_through(mode: Option<&str>, clear_stop: bool) -> (out: bool)
    ensures
        out == ((mode is None || (mode->0)@ == "solid"@) && clear_stop),
{
    match mode {
        Some(m) => same(m, "solid") && clear_stop,
        None => clear_stop,
    }
}

/// The parts of the window that go with a file type.
#[derive(Copy, Clone, Debug, PartialEq, Eq, Structural)]
pub struct Parts {
    pub frame_rate: bool,
    pub quality: bool,
    pub encoder: bool,
    /// The graphics card's encoder can be picked.
    pub hardware: bool,
}

/// The parts of the window that go with a file type.
pub open spec fn parts_for(codec: Seq<char>) -> Parts {
    Parts {
        frame_rate: codec == "gif"@,
        quality: codec != "gif"@ && !"prores"@.is_prefix_of(codec),
        encoder: codec != "gif"@,
        hardware: codec == "h264"@ || codec == "hevc"@,
    }
}

/// How good a quality is, in words.
pub open spec fn quality_of(crf: u32) -> Seq<char> {
    if crf <= 15 {
        "Very high"@
    } else if crf <= 19 {
        "High"@
    } else if crf <= 24 {
        "Standard"@
    } else {
        "Small file"@
    }
}

/// Which encoder writes the file.
#[derive(Copy, Clone, Debug, PartialEq, Eq, Structural)]
pub enum Encoder {
    Ffmpeg,
    MediaFoundation,
    Auto,
}

/// Which encoder writes the file: only H.264 and HEVC have a hardware encoder.
pub open spec fn encoder_for(picked: Seq<char>, codec: VideoCodec) -> Encoder {
    if codec != VideoCodec::H264 && codec != VideoCodec::Hevc {
        Encoder::Ffmpeg
    } else if picked == "software"@ {
        Encoder::Ffmpeg
    } else if picked == "hardware"@ {
        Encoder::MediaFoundation
    } else {
        Encoder::Auto
    }
}

impl ExportPrefs {
    /// Picks a file type. A GIF of the format's own size becomes a small one.
    pub fn pick_type(&mut self, key: &str)
        ensures
            final(self)@ == (PrefsModel {
                codec: key@,
                short_edge: if key@ == "gif"@ && old(self).short_edge == 0 {
                    480
                } else {
                    old(self).short_edge
                },
                ..old(self)@
            }),
    {
        self.codec = key.to_owned();
        if same(key, "gif") && self.short_edge == 0 {
            self.short_edge = 480;
        }
    }

    /// The parts of the window that go with the type picked.
    pub fn parts(&self) -> (out: Parts)
        ensures
            out == parts_for(self.codec@),
    {
        let codec = self.codec.as_str();
        Parts {
            frame_rate: same(codec, "gif"),
            quality: !same(codec, "gif") && !starts_with(codec, "prores"),
            encoder: !same(codec, "gif"),
            hardware: same(codec, "h264") || same(codec, "hevc"),
        }
    }

    /// Where the quality slider stands: better is higher.
    pub fn quality(&self) -> (out: i64)
        ensures
            out == 40 - self.crf,
    {
        40 - self.crf as i64
    }

    /// The quality slider moved.
    pub fn set_quality(&mut self, q: i64)
        requires
            i64::MIN <= 40 - q <= i64::MAX,
        ensures
            final(self)@ == (PrefsModel {
                crf: if 40 - q < 12 {
                    12
                } else if 40 - q > 32 {
                    32
                } else {
                    (40 - q) as u32
                },
                ..old(self)@
            }),
    {
        let crf: i64 = 40 - q;
        self.crf = if crf < 12 {
            12
        } else if crf > 32 {
            32
        } else {
            crf as u32
        };
    }

    /// How good the quality is, in words.
    pub fn quality_label(&self) -> (out: &'static str)
        ensures
            out@ == quality_of(self.crf),
    {
        if self.crf <= 15 {
            "Very high"
        } else if self.crf <= 19 {
            "High"
        } else if self.crf <= 24 {
            "Standard"
        } else {
            "Small file"
        }
    }

    /// Which encoder writes the file.
    pub fn encoder_used(&self) -> (out: Encoder)
        ensures
            out == encoder_for(self.encoder@, codec_named(self.codec@, self.gif_fps)),
    {
        let codec = codec_of(self.codec.as_str(), self.gif_fps);
        if codec != VideoCodec::H264 && codec != VideoCodec::Hevc {
            Encoder::Ffmpeg
        } else if same(self.encoder.as_str(), "software") {
            Encoder::Ffmpeg
        } else if same(self.encoder.as_str(), "hardware") {
            Encoder::MediaFoundation
        } else {
            Encoder::Auto
        }
    }

    /// Whether the file gets the timeline's sound: not where it's turned off, and never a
    /// GIF.
    pub fn with_sound(&self) -> (out: bool)
        ensures
            out == (self.audio && !(codec_named(self.codec@, self.gif_fps) is Gif)),
    {
        let codec = codec_of(self.codec.as_str(), self.gif_fps);
        self.audio && !matches!(codec, VideoCodec::Gif { .. })
    }
}

// ---- which part ----

/// Five seconds.
pub const FIVE_SECONDS: i64 = 3_528_000_000;

/// A tenth of a second.
pub const TENTH: i64 = 70_560_000;

/// The shortest part there can be: a twenty-fifth of a second.
pub const SHORTEST: i64 = 28_224_000;

/// The part remembered, kept inside the timeline.
pub fn kept_part(range: Option<(Time, Time)>, whole: Time) -> (out: Option<(Time, Time)>)
    ensures
        match range {
            Some((a, b)) => out is Some && (out->0).0 == a.spec_most(Time(0)).spec_least(whole) && (
            out->0).1 == b.spec_least(whole),
            None => out is None,
        },
{
    match range {
        Some((a, b)) => Some((a.most(Time(0)).least(whole), b.least(whole))),
        None => None,
    }
}

/// The part the selected clips take up, on the main timeline.
pub fn selected_part(ranges: &Vec<TimeRange>, inside_compound: bool) -> (out: Option<(Time, Time)>)
    requires
        forall|k: int| 0 <= k < ranges@.len() ==> (#[trigger] ranges@[k]).fits(),
    ensures
        if ranges@.len() == 0 || inside_compound {
            out is None
        } else {
            out is Some && (out->0).0.0 == hull(ranges@).0 && (out->0).1.0 == hull(ranges@).1
        },
{
    if ranges.len() == 0 || inside_compound {
        return None;
    }
    assert(ranges@[0].fits());
    let mut from = ranges[0].start;
    let mut to = ranges[0].end();
    assert(ranges@.take(1).len() == 1);
    let mut i: usize = 1;
    while i < ranges.len()
        invariant
            forall|k: int| 0 <= k < ranges@.len() ==> (#[trigger] ranges@[k]).fits(),
            1 <= i <= ranges@.len(),
            hull(ranges@.take(i as int)) == (from.0 as int, to.0 as int),
        decreases ranges@.len() - i,
    {
        assert(ranges@[i as int].fits());
        assert(ranges@.take(i + 1).drop_last() =~= ranges@.take(i as int));
        assert(ranges@.take(i + 1).last() == ranges@[i as int]);
        from = from.least(ranges[i].start);
        to = to.most(ranges[i].end());
        i = i + 1;
    }
    assert(ranges@.take(i as int) =~= ranges@);
    Some((from, to))
}

/// The part "From – to" starts with: five seconds from the playhead, as far as there are.
pub fn part_from(playhead: Time, whole: Time) -> (out: (Time, Time))
    requires
        reckonable(playhead),
        reckonable(whole),
    ensures
        out.0 == playhead.spec_least(whole),
        out.1 == Time((out.0.0 + FIVE_SECONDS) as i64).spec_least(whole).spec_most(
            Time((out.0.0 + TENTH) as i64),
        ),
{
    let at = playhead.least(whole);
    (at, Time(at.0 + FIVE_SECONDS).least(whole).most(Time(at.0 + TENTH)))
}

/// A part from one moment to another, in either order, kept inside the timeline and never
/// shorter than the shortest there can be.
pub open spec fn part_of(a: Time, b: Time, whole: Time) -> (int, int) {
    let first = if a.0 < b.0 {
        a.0
    } else {
        b.0
    };
    let last = if a.0 < b.0 {
        b.0
    } else {
        a.0
    };
    let lo = if first < 0 {
        0
    } else if first > whole.0 {
        whole.0 as int
    } else {
        first as int
    };
    let hi = if last < 0 {
        0
    } else if last > whole.0 {
        whole.0 as int
    } else {
        last as int
    };
    (
        lo,
        if hi < lo + SHORTEST {
            lo + SHORTEST
        } else {
            hi
        },
    )
}

/// The part between the two moments typed in.
pub fn part_between(a: Time, b: Time, whole: Time) -> (out: (Time, Time))
    requires
        0 <= whole.0,
        reckonable(whole),
    ensures
        out.0.0 == part_of(a, b, whole).0,
        out.1.0 == part_of(a, b, whole).1,
{
    let lo = a.least(b).most(Time(0)).least(whole);
    let hi = a.most(b).most(Time(0)).least(whole);
    let least = Time(lo.0 + SHORTEST);
    (lo, hi.most(least).least(whole.most(least)))
}

/// Whatever was typed, the part starts inside the timeline and has a length; it ends inside
/// too, unless that would leave it too short.
pub proof fn parts_have_a_length(a: Time, b: Time, whole: Time)
    requires
        0 <= whole.0,
    ensures
        ({
            let part = part_of(a, b, whole);
            &&& 0 <= part.0 <= whole.0
            &&& part.1 - part.0 >= SHORTEST
            &&& part.1 <= whole.0 || part.1 == part.0 + SHORTEST
        }),
{
}

// ---- which formats, and the files ----

/// Every format, one file each.
pub open spec fn every_format() -> usize {
    usize::MAX
}

/// The places from 0 to `n`.
pub open spec fn places(n: int) -> Seq<usize> {
    Seq::new(n as nat, |i: int| i as usize)
}

/// The formats that are exported, by their place.
pub open spec fn chosen(which: usize, n: int) -> Seq<usize> {
    if which == every_format() {
        places(n)
    } else if which < n {
        seq![which]
    } else {
        seq![(n - 1) as usize]
    }
}

/// The formats that are exported.
pub fn targets(which: usize, n: usize) -> (out: Vec<usize>)
    requires
        0 < n,
    ensures
        out@ == chosen(which, n as int),
{
    let mut out: Vec<usize> = Vec::new();
    if which == usize::MAX {
        while out.len() < n
            invariant
                out@.len() <= n,
                forall|i: int| 0 <= i < out@.len() ==> (#[trigger] out@[i]) == i,
            decreases n - out@.len(),
        {
            let i: usize = out.len();
            out.push(i);
        }
        assert(out@ =~= places(n as int));
    } else {
        out.push(
            if which < n {
                which
            } else {
                n - 1
            },
        );
        assert(out@ =~= chosen(which, n as int));
    }
    out
}

/// The format that's picked at first: the one being edited.
pub fn first_choice(ids: &Vec<VariantId>, current: VariantId) -> (out: usize)
    ensures
        ids@.contains(current) ==> out < ids@.len() && ids@[out as int] == current && forall|k: int|
            0 <= k < out ==> ids@[k] != current,
        !ids@.contains(current) ==> out == 0,
{
    let mut i: usize = 0;
    while i < ids.len()
        invariant
            i <= ids@.len(),
            forall|k: int| 0 <= k < i ==> ids@[k] != current,
        decreases ids@.len() - i,
    {
        if ids[i] == current {
            assert(ids@.contains(ids@[i as int]));
            return i;
        }
        i = i + 1;
    }
    0
}

/// A character of a file's name: letters, numbers, spaces, dashes and dots stay; anything
/// else becomes a dash.
pub open spec fn name_char(c: char, letter: bool) -> char {
    if letter || c == ' ' || c == '-' || c == '.' {
        c
    } else {
        '-'
    }
}

/// A character of a file's name.
pub fn safe_char(c: char, letter: bool) -> (out: char)
    ensures
        out == name_char(c, letter),
{
    if letter || c == ' ' || c == '-' || c == '.' {
        c
    } else {
        '-'
    }
}

/// How each character of a name is written.
pub open spec fn name_chars() -> spec_fn(char) -> char {
    |c: char| name_char(c, is_letter_or_number(c))
}

/// A format's name as it can stand in a file's name.
pub fn safe_name(name: &str) -> (out: String)
    ensures
        out@ == as_safe(name@),
{
    let chars = chars_of(name);
    let ghost f = name_chars();
    let mut safe: Vec<char> = Vec::new();
    let mut i: usize = 0;
    while i < chars.len()
        invariant
            f == name_chars(),
            i <= chars@.len(),
            safe@.len() == i,
            forall|k: int| 0 <= k < i ==> (#[trigger] safe@[k]) == f(chars@[k]),
        decreases chars@.len() - i,
    {
        safe.push(safe_char(chars[i], letter_or_number(chars[i])));
        i = i + 1;
    }
    assert(safe@ =~= name@.map_values(f));
    trim(text_of(&safe).as_str())
}

/// A name as it can stand in a file's name.
pub open spec fn as_safe(name: Seq<char>) -> Seq<char> {
    trimmed(name.map_values(name_chars()))
}

/// A character that parts a path, or a drive from one.
pub open spec fn parts_a_path(c: char) -> bool {
    c == '/' || c == '\\' || c == ':'
}

/// A safe name holds letters, numbers, spaces, dashes and dots only, so nothing in it parts a
/// path; it neither starts nor ends with a space.
pub proof fn safe_names_stay_in_their_folder(name: Seq<char>)
    ensures
        forall|i: int|
            0 <= i < as_safe(name).len() ==> {
                let c = #[trigger] as_safe(name)[i];
                !parts_a_path(c) && (is_letter_or_number(c) || c == ' ' || c == '-' || c == '.')
            },
        as_safe(name).len() > 0 ==> as_safe(name)[0] != ' ' && as_safe(name).last() != ' ',
{
    let mapped = name.map_values(name_chars());
    trimming_keeps_the_middle(mapped);
    assert forall|i: int| 0 <= i < as_safe(name).len() implies {
        let c = #[trigger] as_safe(name)[i];
        !parts_a_path(c) && (is_letter_or_number(c) || c == ' ' || c == '-' || c == '.')
    } by {
        let c = as_safe(name)[i];
        assert(as_safe(name).contains(c));
        assert(mapped.contains(c));
        let k = choose|k: int| 0 <= k < mapped.len() && mapped[k] == c;
        assert(c == name_chars()(name[k]));
    }
}

/// Making a safe name safe again changes nothing.
pub proof fn safe_names_stay_as_they_are(name: Seq<char>)
    ensures
        as_safe(as_safe(name)) == as_safe(name),
{
    let safe = as_safe(name);
    safe_names_stay_in_their_folder(name);
    trimming_keeps_the_middle(name.map_values(name_chars()));
    assert(safe.map_values(name_chars()) =~= safe);
}

/// `s` without the `end`s it ends with.
pub open spec fn without_ends(s: Seq<char>, end: Seq<char>) -> Seq<char>
    decreases s.len(),
{
    if end.len() > 0 && end.is_suffix_of(s) {
        without_ends(s.take(s.len() - end.len()), end)
    } else {
        s
    }
}

/// `s` without the `end`s it ends with.
pub fn trim_ends(s: &str, end: &str) -> (out: String)
    ensures
        out@ == without_ends(s@, end@),
    decreases s@.len(),
{
    let n: usize = chars_of(end).len();
    if n > 0 && ends_with(s, end) {
        let chars = chars_of(s);
        let rest = crate::text::text_between(&chars, 0, chars.len() - n);
        assert(rest@ =~= s@.take(s@.len() - end@.len()));
        trim_ends(rest.as_str(), end)
    } else {
        s.to_owned()
    }
}

/// What exported files are called after: the project's file, or "export".
pub open spec fn stem_of(file: Option<Seq<char>>) -> Seq<char> {
    match file {
        Some(name) => without_ends(without_ends(name, ".json"@), ".oaproj"@),
        None => "export"@,
    }
}

/// What exported files are called after.
pub fn stem(file: Option<&str>) -> (out: String)
    ensures
        out@ == stem_of(
            match file {
                Some(name) => Some(name@),
                None => None,
            },
        ),
{
    match file {
        Some(name) => trim_ends(trim_ends(name, ".json").as_str(), ".oaproj"),
        None => "export".to_owned(),
    }
}

/// The name the one file is offered under.
pub fn file_name(stem: &str, ext: &str) -> (out: String)
    ensures
        out@ == stem@ + "."@ + ext@,
{
    join3(stem, ".", ext)
}

/// The name of a format's file among several.
pub fn format_file_name(stem: &str, format: &str, ext: &str) -> (out: String)
    ensures
        out@ == stem@ + " - "@ + as_safe(format@) + "."@ + ext@,
{
    let head = join3(stem, " - ", safe_name(format).as_str());
    join3(head.as_str(), ".", ext)
}

/// What files with the extension are called in the file dialog.
pub fn filter_name(ext: &str) -> (out: &'static str)
    ensures
        out@ == if ext@ == "mov"@ {
            "QuickTime movie"@
        } else if ext@ == "gif"@ {
            "Animated GIF"@
        } else if ext@ == "webm"@ {
            "WebM video"@
        } else {
            "MP4 video"@
        },
{
    if same(ext, "mov") {
        "QuickTime movie"
    } else if same(ext, "gif") {
        "Animated GIF"
    } else if same(ext, "webm") {
        "WebM video"
    } else {
        "MP4 video"
    }
}

/// One file to write.
pub struct ExportJob {
    pub variant: VariantId,
    pub name: String,
    pub codec: VideoCodec,
    pub crf: u32,
    pub encoder: Encoder,
    pub short_edge: u32,
    pub sound: bool,
    pub range: Option<TimeRange>,
}

#[verifier::ext_equal]
pub struct JobModel {
    pub variant: VariantId,
    pub name: Seq<char>,
    pub codec: VideoCodec,
    pub crf: u32,
    pub encoder: Encoder,
    pub short_edge: u32,
    pub sound: bool,
    pub range: Option<TimeRange>,
}

impl View for ExportJob {
    type V = JobModel;

    open spec fn view(&self) -> JobModel {
        JobModel {
            variant: self.variant,
            name: self.name@,
            codec: self.codec,
            crf: self.crf,
            encoder: self.encoder,
            short_edge: self.short_edge,
            sound: self.sound,
            range: self.range,
        }
    }
}

/// The file for the format at `i`, one of `n`.
pub open spec fn job_for(
    s: SequenceModel,
    i: usize,
    n: int,
    prefs: PrefsModel,
    range: Option<(Time, Time)>,
    stem: Seq<char>,
) -> JobModel {
    let v = s.variants[i as int];
    let ext = type_named(prefs.codec).ext;
    let codec = codec_named(prefs.codec, prefs.gif_fps);
    JobModel {
        variant: v.id,
        name: if n == 1 {
            stem + "."@ + ext
        } else {
            stem + " - "@ + as_safe(v.name) + "."@ + ext
        },
        codec,
        crf: prefs.crf,
        encoder: encoder_for(prefs.encoder, codec),
        short_edge: prefs.short_edge,
        sound: prefs.audio && !(codec is Gif),
        range: match range {
            Some((a, b)) => Some(TimeRange { start: a, duration: Time((b.0 - a.0) as i64) }),
            None => None,
        },
    }
}

/// How each chosen format becomes a file.
pub open spec fn jobs_for(
    s: SequenceModel,
    n: int,
    prefs: PrefsModel,
    range: Option<(Time, Time)>,
    stem: Seq<char>,
) -> spec_fn(usize) -> JobModel {
    |i: usize| job_for(s, i, n, prefs, range, stem)
}

/// The files to write, one for each format that was chosen, in order. A single one is
/// called after the project; several are told apart by their formats.
pub fn queue_exports(
    s: &Sequence,
    which: usize,
    prefs: &ExportPrefs,
    range: Option<(Time, Time)>,
    stem: &str,
) -> (out: Vec<ExportJob>)
    requires
        s.variants@.len() > 0,
        range is Some ==> reckonable((range->0).0) && reckonable((range->0).1),
    ensures
        ({
            let picked = chosen(which, s@.variants.len() as int);
            views(out@) == picked.map_values(
                jobs_for(s@, picked.len() as int, prefs@, range, stem@),
            )
        }),
        writes_each_format(s@, which, views(out@)),
        forall|k: int|
            0 <= k < out@.len() ==> as_it_was_picked(prefs@, range, stem@, #[trigger] views(out@)[k]),
        which != usize::MAX ==> out@.len() == 1 && views(out@)[0].name == stem@ + "."@ + ext_for(
            prefs@.codec,
        ),
{
    proof {
        assert(s@.variants.len() == s.variants.len());
        files_are_as_picked(s@, which, prefs@, range, stem@);
    }
    let picked = targets(which, s.variants.len());
    let kind = type_of(prefs.codec.as_str());
    let codec = codec_of(prefs.codec.as_str(), prefs.gif_fps);
    let encoder = prefs.encoder_used();
    let sound = prefs.with_sound();
    let part: Option<TimeRange> = match range {
        Some((a, b)) => Some(TimeRange { start: a, duration: Time(b.0 - a.0) }),
        None => None,
    };
    let n: usize = picked.len();
    let ghost f = jobs_for(s@, n as int, prefs@, range, stem@);
    let mut out: Vec<ExportJob> = Vec::new();
    let mut i: usize = 0;
    while i < n
        invariant
            n == picked@.len(),
            s.variants@.len() > 0,
            picked@ == chosen(which, s@.variants.len() as int),
            f == jobs_for(s@, n as int, prefs@, range, stem@),
            kind@ == type_named(prefs@.codec),
            codec == codec_named(prefs@.codec, prefs@.gif_fps),
            encoder == encoder_for(prefs@.encoder, codec),
            sound == (prefs@.audio && !(codec is Gif)),
            part == match range {
                Some((a, b)) => Some(TimeRange { start: a, duration: Time((b.0 - a.0) as i64) }),
                None => None,
            },
            i <= n,
            out@.len() == i,
            forall|k: int| 0 <= k < i ==> (#[trigger] out@[k])@ == f(picked@[k]),
        decreases n - i,
    {
        let at: usize = picked[i];
        assert(at < s@.variants.len());
        let v = &s.variants[at];
        assert(s@.variants[at as int] == v@);
        let name = if n == 1 {
            file_name(stem, kind.ext)
        } else {
            format_file_name(stem, v.name.as_str(), kind.ext)
        };
        let job = ExportJob {
            variant: v.id,
            name,
            codec,
            crf: prefs.crf,
            encoder,
            short_edge: prefs.short_edge,
            sound,
            range: part,
        };
        assert(job@ =~= f(picked@[i as int]));
        out.push(job);
        i = i + 1;
    }
    assert(views(out@) =~= picked@.map_values(f));
    assert(views(out@).len() == out@.len());
    out
}

/// There's one file for each format where all of them are picked, in their order; else one,
/// for the format that's picked (the last, for a place past them).
pub open spec fn writes_each_format(s: SequenceModel, which: usize, jobs: Seq<JobModel>) -> bool {
    if which == usize::MAX {
        jobs.len() == s.variants.len() && forall|k: int|
            0 <= k < jobs.len() ==> (#[trigger] jobs[k]).variant == s.variants[k].id
    } else {
        jobs.len() == 1 && (which < s.variants.len() ==> jobs[0].variant
            == s.variants[which as int].id) && (which >= s.variants.len() ==> jobs[0].variant
            == s.variants.last().id)
    }
}

/// The extension that files of a type have.
pub open spec fn ext_for(key: Seq<char>) -> Seq<char> {
    if key == "prores"@ || key == "prores4444"@ {
        "mov"@
    } else if key == "webm"@ {
        "webm"@
    } else if key == "gif"@ {
        "gif"@
    } else {
        "mp4"@
    }
}

/// A file is written the way it was picked: with sound exactly where sound is on and it's no
/// GIF, as the type that was picked, in the quality and size that were picked, the whole of
/// the timeline or just the part that was picked.
pub open spec fn as_it_was_picked(
    prefs: PrefsModel,
    range: Option<(Time, Time)>,
    stem: Seq<char>,
    job: JobModel,
) -> bool {
    &&& job.sound <==> prefs.audio && prefs.codec != "gif"@
    &&& job.codec == (VideoCodec::Gif { fps: prefs.gif_fps }) <==> prefs.codec == "gif"@
    &&& job.codec is Gif <==> prefs.codec == "gif"@
    &&& job.codec is Hevc <==> prefs.codec == "hevc"@
    &&& job.codec is ProRes <==> prefs.codec == "prores"@
    &&& job.codec is ProRes4444 <==> prefs.codec == "prores4444"@
    &&& job.codec is WebmAlpha <==> prefs.codec == "webm"@
    &&& job.crf == prefs.crf
    &&& job.short_edge == prefs.short_edge
    &&& job.encoder is MediaFoundation <==> (job.codec is H264 || job.codec is Hevc)
        && prefs.encoder == "hardware"@
    &&& job.encoder is Ffmpeg <==> !(job.codec is H264 || job.codec is Hevc) || prefs.encoder
        == "software"@
    &&& range is None <==> job.range is None
    &&& (range matches Some(part) ==> (job.range matches Some(r) && r.start == part.0 && r.start.0
        + r.duration.0 == part.1.0))
    &&& stem.is_prefix_of(job.name)
    &&& ("."@ + ext_for(prefs.codec)).is_suffix_of(job.name)
}

/// The type a key names has the extension its files have.
proof fn types_have_their_extensions(key: Seq<char>)
    ensures
        type_named(key).ext == ext_for(key),
{
    let p = with_key(key);
    let all = file_types();
    first_is_right(all, p, 0);
    reveal_strlit("h264");
    reveal_strlit("hevc");
    reveal_strlit("prores");
    reveal_strlit("prores4444");
    reveal_strlit("webm");
    reveal_strlit("gif");
    assert("h264"@ != "hevc"@) by {
        assert("h264"@[1] != "hevc"@[1]);
    }
    assert("h264"@ != "webm"@) by {
        assert("h264"@[0] != "webm"@[0]);
    }
    assert("hevc"@ != "webm"@) by {
        assert("hevc"@[0] != "webm"@[0]);
    }
    assert("prores"@.len() == 6 && "prores4444"@.len() == 10 && "gif"@.len() == 3 && "h264"@.len()
        == 4 && "hevc"@.len() == 4 && "webm"@.len() == 4);
    assert(p(all[0]) == (key == "h264"@));
    assert(p(all[1]) == (key == "hevc"@));
    assert(p(all[2]) == (key == "prores"@));
    assert(p(all[3]) == (key == "prores4444"@));
    assert(p(all[4]) == (key == "webm"@));
    assert(p(all[5]) == (key == "gif"@));
}

/// A key names the way its pictures are written, and no other key does.
proof fn keys_name_their_codecs(key: Seq<char>, fps: u32)
    ensures
        ({
            let codec = codec_named(key, fps);
            &&& codec is Gif <==> key == "gif"@
            &&& codec is Gif ==> codec == (VideoCodec::Gif { fps })
            &&& codec is Hevc <==> key == "hevc"@
            &&& codec is ProRes <==> key == "prores"@
            &&& codec is ProRes4444 <==> key == "prores4444"@
            &&& codec is WebmAlpha <==> key == "webm"@
        }),
{
    reveal_strlit("hevc");
    reveal_strlit("prores");
    reveal_strlit("prores4444");
    reveal_strlit("webm");
    reveal_strlit("gif");
    assert("hevc"@ != "webm"@) by {
        assert("hevc"@[0] != "webm"@[0]);
    }
    assert("prores"@.len() == 6 && "prores4444"@.len() == 10 && "gif"@.len() == 3 && "hevc"@.len()
        == 4 && "webm"@.len() == 4);
}

/// Every file is written the way it was picked, and there's one for each format asked for.
pub proof fn files_are_as_picked(
    s: SequenceModel,
    which: usize,
    prefs: PrefsModel,
    range: Option<(Time, Time)>,
    stem: Seq<char>,
)
    requires
        0 < s.variants.len() <= usize::MAX,
        range is Some ==> reckonable((range->0).0) && reckonable((range->0).1),
    ensures
        ({
            let picked = chosen(which, s.variants.len() as int);
            let jobs = picked.map_values(jobs_for(s, picked.len() as int, prefs, range, stem));
            &&& writes_each_format(s, which, jobs)
            &&& forall|k: int|
                0 <= k < jobs.len() ==> as_it_was_picked(prefs, range, stem, #[trigger] jobs[k])
            &&& which != usize::MAX ==> jobs[0].name == stem + "."@ + ext_for(prefs.codec)
        }),
{
    let picked = chosen(which, s.variants.len() as int);
    let jobs = picked.map_values(jobs_for(s, picked.len() as int, prefs, range, stem));
    types_have_their_extensions(prefs.codec);
    keys_name_their_codecs(prefs.codec, prefs.gif_fps);
    reveal_strlit("software");
    reveal_strlit("hardware");
    assert("software"@ != "hardware"@) by {
        assert("software"@[0] != "hardware"@[0]);
    }
    let ext = ext_for(prefs.codec);
    let end = "."@ + ext;
    assert forall|k: int| 0 <= k < jobs.len() implies as_it_was_picked(
        prefs,
        range,
        stem,
        #[trigger] jobs[k],
    ) by {
        let name = jobs[k].name;
        if picked.len() == 1 {
            assert(name =~= stem + end);
        } else {
            let middle = " - "@ + as_safe(s.variants[picked[k] as int].name);
            assert(name =~= stem + middle + end);
        }
        assert(name.take(stem.len() as int) =~= stem);
        assert(name.skip(name.len() - end.len()) =~= end);
    }
}

/// The names of the files of formats with different names (as they can stand in a file's name)
/// differ: no file is written over another.
pub proof fn files_of_formats_differ(
    s: SequenceModel,
    prefs: PrefsModel,
    range: Option<(Time, Time)>,
    stem: Seq<char>,
    a: int,
    b: int,
)
    requires
        0 <= a < b < s.variants.len() <= usize::MAX,
        as_safe(s.variants[a].name) != as_safe(s.variants[b].name),
    ensures
        ({
            let picked = chosen(usize::MAX, s.variants.len() as int);
            let jobs = picked.map_values(jobs_for(s, picked.len() as int, prefs, range, stem));
            jobs[a].name != jobs[b].name
        }),
{
    let picked = chosen(usize::MAX, s.variants.len() as int);
    let jobs = picked.map_values(jobs_for(s, picked.len() as int, prefs, range, stem));
    let end = "."@ + type_named(prefs.codec).ext;
    let x = as_safe(s.variants[a].name);
    let y = as_safe(s.variants[b].name);
    let head = stem + " - "@;
    assert(jobs[a].name =~= head + x + end);
    assert(jobs[b].name =~= head + y + end);
    if jobs[a].name == jobs[b].name {
        assert((head + x + end).len() == (head + y + end).len());
        assert(x =~= (head + x + end).subrange(head.len() as int, (head.len() + x.len()) as int));
        assert(y =~= (head + y + end).subrange(head.len() as int, (head.len() + y.len()) as int));
    }
}

/// Exporting every format writes a file for each of them.
pub proof fn every_format_gets_a_file(
    s: SequenceModel,
    prefs: PrefsModel,
    range: Option<(Time, Time)>,
    stem: Seq<char>,
    v: int,
)
    requires
        0 <= v < s.variants.len() <= usize::MAX,
    ensures
        ({
            let picked = chosen(every_format(), s.variants.len() as int);
            let jobs = picked.map_values(jobs_for(s, picked.len() as int, prefs, range, stem));
            jobs.len() == s.variants.len() && jobs[v].variant == s.variants[v].id
        }),
{
}

// ---- the export's own thread ----

/// What an export's thread has said by now.
pub enum Said {
    Nothing,
    /// It ended, and how.
    Result(Result<u64, String>),
    /// It's gone without a word.
    Gone,
}

/// How an export is getting on.
pub enum Poll {
    Running,
    Finished(Result<u64, String>),
}

/// How an export is getting on.
pub fn poll(said: Said) -> (out: Poll)
    ensures
        match said {
            Said::Nothing => out is Running,
            Said::Result(r) => out == Poll::Finished(r),
            Said::Gone => out matches Poll::Finished(r) && r is Err && (r->Err_0)@
                == "the export stopped unexpectedly"@,
        },
{
    match said {
        Said::Nothing => Poll::Running,
        Said::Result(r) => Poll::Finished(r),
        Said::Gone => Poll::Finished(Err("the export stopped unexpectedly".to_owned())),
    }
}

/// How often the picture of an export is refreshed, in milliseconds.
pub const PREVIEW_EVERY: u64 = 250;

/// Whether a new picture of the export is due; `since` is how long ago the last one was
/// made, in milliseconds.
pub fn preview_due(since: Option<u64>) -> (out: bool)
    ensures
        out == (since is None || since->0 >= PREVIEW_EVERY),
{
    match since {
        Some(ms) => ms >= PREVIEW_EVERY,
        None => true,
    }
}

/// What an export's thread does next.
#[derive(Copy, Clone, Debug, PartialEq, Eq, Structural)]
pub enum Next {
    /// Writes the next batch of frames.
    Batch,
    /// Closes the file.
    Finish,
    /// Gives up: it was canceled.
    Canceled,
}

/// What an export's thread does next: it stops as soon as it's told to, within a batch.
pub fn next_step(canceled: bool, all_written: bool) -> (out: Next)
    ensures
        out == if all_written {
            Next::Finish
        } else if canceled {
            Next::Canceled
        } else {
            Next::Batch
        },
{
    if all_written {
        Next::Finish
    } else if canceled {
        Next::Canceled
    } else {
        Next::Batch
    }
}

// ---- the Exporting window ----

/// What the Exporting window's lines say.
pub struct ExportLines {
    pub frame: String,
    pub queued: Option<String>,
    pub encoder: Option<String>,
    pub cancel: &'static str,
}

/// What the Exporting window's lines say: how far it is, what else is queued, what writes it.
pub fn export_lines(done: u64, total: u64, queued: usize, encoder: &str) -> (out: ExportLines)
    ensures
        out.frame@ == "Frame "@ + decimal(
            (if done < total {
                done
            } else {
                total
            }) as nat,
        ) + " of "@ + decimal(total as nat),
        queued == 0 ==> out.queued is None && out.cancel@ == "Cancel"@,
        queued > 0 ==> out.queued is Some && (out.queued->0)@ == " · "@ + decimal(queued as nat)
            + " more queued"@ && out.cancel@ == "Cancel all"@,
        encoder@ == ""@ ==> out.encoder is None,
        encoder@ != ""@ ==> out.encoder is Some && (out.encoder->0)@ == "with "@ + encoder@,
{
    let at: u64 = if done < total {
        done
    } else {
        total
    };
    let head = join3("Frame ", number(at).as_str(), " of ");
    ExportLines {
        frame: join2(head.as_str(), number(total).as_str()),
        queued: if queued > 0 {
            Some(join3(" · ", number(queued as u64).as_str(), " more queued"))
        } else {
            None
        },
        encoder: if same(encoder, "") {
            None
        } else {
            Some(join2("with ", encoder))
        },
        cancel: if queued > 0 {
            "Cancel all"
        } else {
            "Cancel"
        },
    }
}

} // verus!
