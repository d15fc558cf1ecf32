//! The start page: the projects you've been working on, the work that wasn't saved, and the
//! plugins you have.
use crate::autosave::Recovery;
use crate::i18n::{args, filled, t, text_for, Active};
use crate::icons::Shape;
use crate::text::{decimal, join2, join3, number, same};
use vstd::prelude::*;

verus! {

/// What the window is showing.
#[derive(Copy, Clone, Debug, PartialEq, Eq, Structural)]
pub enum Screen {
    Home,
    Editor,
}

/// The start page's tabs.
#[derive(Copy, Clone, Debug, PartialEq, Eq, Structural)]
pub enum HomeTab {
    Projects,
    Plugins,
}

impl Default for HomeTab {
    fn default() -> (out: HomeTab)
        ensures
            out == HomeTab::Projects,
    {
        HomeTab::Projects
    }
}

/// Which text says how long ago something was, and the number in it.
pub open spec fn ago_key(secs: u64) -> (Seq<char>, Option<nat>) {
    if secs < 60 {
        ("time.moments"@, None)
    } else if secs < 3600 {
        ("time.minutes"@, Some((secs / 60) as nat))
    } else if secs < 86_400 {
        ("time.hours"@, Some((secs / 3600) as nat))
    } else if secs < 604_800 {
        ("time.days"@, Some((secs / 86_400) as nat))
    } else {
        ("time.weeks"@, Some((secs / 604_800) as nat))
    }
}

/// What a text with one number in it says.
pub open spec fn with_number(active: Active, key: Seq<char>, n: Seq<char>) -> Seq<char> {
    crate::text::replaced(
        text_for(active.strings@, active.english@, key),
        "{"@ + "n"@ + "}"@,
        n,
    )
}

/// How long ago a file was changed, in words (`None`: it can't be read).
pub open spec fn when_of(active: Active, secs: Option<u64>) -> Seq<char> {
    match secs {
        None => text_for(active.strings@, active.english@, "home.missing"@),
        Some(secs) => match ago_key(secs) {
            (key, Some(n)) => with_number(active, key, decimal(n)),
            (key, None) => text_for(active.strings@, active.english@, key),
        },
    }
}

fn counted(active: &Active, key: &str, n: u64) -> (out: String)
    ensures
        out@ == with_number(*active, key@, decimal(n as nat)),
{
    let digits = number(n);
    let mut values: Vec<(&str, &str)> = Vec::new();
    values.push(("n", digits.as_str()));
    let out = args(active, key, &values);
    proof {
        reveal_with_fuel(filled, 2);
    }
    out
}

/// How long ago a file was changed, in words; `secs` is how many seconds ago that was
/// (`None`: it can't be read).
pub fn when(active: &Active, secs: Option<u64>) -> (out: String)
    ensures
        out@ == when_of(*active, secs),
{
    match secs {
        None => t(active, "home.missing"),
        Some(secs) => if secs < 60 {
            t(active, "time.moments")
        } else if secs < 3600 {
            counted(active, "time.minutes", secs / 60)
        } else if secs < 86_400 {
            counted(active, "time.hours", secs / 3600)
        } else if secs < 604_800 {
            counted(active, "time.days", secs / 86_400)
        } else {
            counted(active, "time.weeks", secs / 604_800)
        },
    }
}

// ---- the pictures of projects ----

/// How the colors of a picture are stored.
#[derive(Copy, Clone, Debug, PartialEq, Eq, Structural)]
pub enum Channels {
    Rgba,
    Rgb,
    Gray,
    GrayAlpha,
    /// Colors by number.
    Indexed,
}

impl Channels {
    /// Each pixel is stored as its red, green and blue.
    pub open spec fn in_colors(self) -> bool {
        self == Channels::Rgba || self == Channels::Rgb
    }
}

/// A picture as it's stored: its size, how its colors are stored, and their bytes.
pub struct Stored {
    pub width: u32,
    pub height: u32,
    pub channels: Channels,
    pub bytes: Vec<u8>,
}

#[verifier::ext_equal]
pub struct StoredModel {
    pub width: u32,
    pub height: u32,
    pub channels: Channels,
    pub bytes: Seq<u8>,
}

impl View for Stored {
    type V = StoredModel;

    open spec fn view(&self) -> StoredModel {
        StoredModel {
            width: self.width,
            height: self.height,
            channels: self.channels,
            bytes: self.bytes@,
        }
    }
}

/// The picture in a PNG file: its first frame, with its colors as they're stored. `None` where
/// the file can't be read; `bits` is how wide an address is, which bounds how large a picture
/// can be.
pub uninterp spec fn picture_in(file: Seq<u8>, bits: u32) -> Option<StoredModel>;

/// Calls `png::Decoder::new`, `Decoder::read_info`, `Reader::output_buffer_size` and
/// `Reader::next_frame`. Claims that whether a picture is read, and what it holds, depends on
/// the file's bytes and on how wide an address is alone: the decoder's limits are fixed
/// numbers of bytes, and a picture larger than what can be addressed isn't read.
#[verifier::external_body]
fn decode(file: &Vec<u8>) -> (out: Option<Stored>)
    ensures
        match out {
            Some(p) => picture_in(file@, usize::BITS) == Some(p@),
            None => picture_in(file@, usize::BITS) is None,
        },
{
    let mut reader = png::Decoder::new(std::io::Cursor::new(file)).read_info().ok()?;
    let mut bytes: Vec<u8> = vec![0; reader.output_buffer_size()?];
    let info = reader.next_frame(&mut bytes).ok()?;
    bytes.truncate(info.buffer_size());
    let channels = match info.color_type {
        png::ColorType::Rgba => Channels::Rgba,
        png::ColorType::Rgb => Channels::Rgb,
        png::ColorType::Grayscale => Channels::Gray,
        png::ColorType::GrayscaleAlpha => Channels::GrayAlpha,
        png::ColorType::Indexed => Channels::Indexed,
    };
    Some(Stored { width: info.width, height: info.height, channels, bytes })
}

/// A color made lighter by how clear it is: `v` times `a` / 255, rounded.
pub open spec fn faded(v: u8, a: u8) -> u8 {
    let p = v * a + 128;
    ((p + p / 256) / 256) as u8
}

/// A color as it's drawn: what's clear of it is taken out of its colors.
pub open spec fn drawn(r: u8, g: u8, b: u8, a: u8) -> Seq<u8> {
    if a == 0 {
        seq![0u8, 0u8, 0u8, 0u8]
    } else if a == 255 {
        seq![r, g, b, 255u8]
    } else {
        seq![faded(r, a), faded(g, a), faded(b, a), a]
    }
}

/// Calls `egui::Color32::from_rgba_unmultiplied`. Claims that a clear color is nothing at all,
/// a solid one stays as it is, and others have their colors multiplied by how solid they are.
#[verifier::external_body]
fn to_drawn(r: u8, g: u8, b: u8, a: u8) -> (out: [u8; 4])
    ensures
        out@ == drawn(r, g, b, a),
{
    egui::Color32::from_rgba_unmultiplied(r, g, b, a).to_array()
}

/// The pixels of a picture as they're drawn, of its first `n`.
pub open spec fn pixels_of(p: StoredModel, n: int) -> Seq<Seq<u8>>
    decreases n,
{
    if n <= 0 {
        Seq::empty()
    } else {
        let i = n - 1;
        pixels_of(p, n - 1).push(
            if p.channels == Channels::Rgba {
                drawn(p.bytes[4 * i], p.bytes[4 * i + 1], p.bytes[4 * i + 2], p.bytes[4 * i + 3])
            } else {
                seq![p.bytes[3 * i], p.bytes[3 * i + 1], p.bytes[3 * i + 2], 255u8]
            },
        )
    }
}

/// How many whole pixels there are.
pub open spec fn pixel_count(p: StoredModel) -> int {
    if p.channels == Channels::Rgba {
        p.bytes.len() as int / 4
    } else {
        p.bytes.len() as int / 3
    }
}

/// A picture ready to draw.
pub struct Picture {
    pub width: usize,
    pub height: usize,
    pub pixels: Vec<[u8; 4]>,
}

/// The picture's pixels, as they're drawn.
pub open spec fn drawn_pixels(pixels: Seq<[u8; 4]>) -> Seq<Seq<u8>> {
    Seq::new(pixels.len(), |i: int| pixels[i]@)
}

/// A picture that was read, ready to draw: only those stored in colors are.
pub fn to_picture(p: &Stored) -> (out: Option<Picture>)
    ensures
        !p.channels.in_colors() ==> out is None,
        p.channels.in_colors() ==> {
            &&& out is Some
            &&& (out->0).width == p.width
            &&& (out->0).height == p.height
            &&& drawn_pixels((out->0).pixels@) == pixels_of(p@, pixel_count(p@))
        },
{
    let step: usize = match p.channels {
        Channels::Rgba => 4,
        Channels::Rgb => 3,
        _ => return None,
    };
    let n: usize = p.bytes.len() / step;
    let mut pixels: Vec<[u8; 4]> = Vec::new();
    let mut i: usize = 0;
    let total: usize = p.bytes.len();
    assert(n * step <= total) by (nonlinear_arith)
        requires
            n == total / step,
            step == 3 || step == 4,
    ;
    assert(drawn_pixels(pixels@) =~= pixels_of(p@, 0));
    while i < n
        invariant
            total == p.bytes@.len(),
            step == (if p.channels == Channels::Rgba {
                4int
            } else {
                3int
            }),
            n * step <= total,
            i <= n,
            drawn_pixels(pixels@) == pixels_of(p@, i as int),
        decreases n - i,
    {
        assert(i * step + step <= n * step) by (nonlinear_arith)
            requires
                i < n,
                step == 3 || step == 4,
        ;
        let at: usize = i * step;
        let color: [u8; 4] = if step == 4 {
            to_drawn(p.bytes[at], p.bytes[at + 1], p.bytes[at + 2], p.bytes[at + 3])
        } else {
            [p.bytes[at], p.bytes[at + 1], p.bytes[at + 2], 255]
        };
        let ghost had = pixels@;
        pixels.push(color);
        proof {
            if step == 3 {
                assert(color@ =~= seq![
                    p@.bytes[3 * i],
                    p@.bytes[3 * i + 1],
                    p@.bytes[3 * i + 2],
                    255u8,
                ]);
            }
            assert(drawn_pixels(pixels@) =~= drawn_pixels(had).push(color@));
        }
        i = i + 1;
    }
    assert(n == pixel_count(p@)) by {
        assert(total as int / 4 == p@.bytes.len() as int / 4);
    }
    Some(Picture { width: p.width as usize, height: p.height as usize, pixels })
}

/// The picture in a PNG file, ready to draw: none where the file can't be read, or where its
/// picture isn't stored in colors.
pub fn load_png(file: &Vec<u8>) -> (out: Option<Picture>)
    ensures
        match picture_in(file@, usize::BITS) {
            Some(p) => {
                &&& out is Some <==> p.channels.in_colors()
                &&& out is Some ==> {
                    &&& (out->0).width == p.width
                    &&& (out->0).height == p.height
                    &&& drawn_pixels((out->0).pixels@) == pixels_of(p, pixel_count(p))
                }
            },
            None => out is None,
        },
{
    match decode(file) {
        Some(p) => to_picture(&p),
        None => None,
    }
}

/// A pixel is drawn with the solidity it's stored with, and none of its colors is brighter
/// than that.
pub proof fn colors_fit_their_solidity(r: u8, g: u8, b: u8, a: u8)
    ensures
        drawn(r, g, b, a)[3] == a,
        a > 0 ==> drawn(r, g, b, a)[0] <= a && drawn(r, g, b, a)[1] <= a && drawn(r, g, b, a)[2]
            <= a,
{
    faded_fits(r, a);
    faded_fits(g, a);
    faded_fits(b, a);
}

proof fn faded_fits(v: u8, a: u8)
    ensures
        faded(v, a) <= a,
{
    let p = v * a + 128;
    assert(v * a <= 255 * a) by (nonlinear_arith)
        requires
            v <= 255,
    ;
    assert(0 <= v * a) by (nonlinear_arith);
    assert(p / 256 <= (255 * a + 128) / 256);
    assert((p + p / 256) / 256 <= a);
}

// ---- the cards ----

/// How a recent project's card is drawn.
#[derive(Copy, Clone, Debug, PartialEq, Eq, Structural)]
pub enum Edge {
    Missing,
    Unsaved,
    Hovered,
    Plain,
}

/// How a recent project's card is framed: unsaved work over everything else.
pub fn edge(there: bool, unsaved: bool, hovered: bool) -> (out: Edge)
    ensures
        out == if unsaved {
            Edge::Unsaved
        } else if !there {
            Edge::Missing
        } else if hovered {
            Edge::Hovered
        } else {
            Edge::Plain
        },
{
    if unsaved {
        Edge::Unsaved
    } else if !there {
        Edge::Missing
    } else if hovered {
        Edge::Hovered
    } else {
        Edge::Plain
    }
}

/// What a recent project is called: its own name, or its file's.
pub fn shown_name(name: &str, file: &str) -> (out: String)
    ensures
        out@ == if name@ == ""@ {
            file@
        } else {
            name@
        },
{
    if same(name, "") {
        file.to_owned()
    } else {
        name.to_owned()
    }
}

/// An earlier session left changes to the project at `path`.
pub open spec fn is_unsaved(left: Seq<Recovery>, path: Seq<char>) -> bool {
    exists|i: int|
        0 <= i < left.len() && (#[trigger] left[i]).original is Some && (left[i].original->0).path@
            == path
}

/// Whether an earlier session left changes to the project at `path`.
pub fn has_unsaved(left: &Vec<Recovery>, path: &str) -> (out: bool)
    ensures
        out == is_unsaved(left@, path@),
{
    let mut i: usize = 0;
    while i < left.len()
        invariant
            i <= left@.len(),
            forall|k: int|
                0 <= k < i ==> !((#[trigger] left@[k]).original is Some && (
                left@[k].original->0).path@ == path@),
        decreases left@.len() - i,
    {
        if let Some(o) = &left[i].original {
            if same(o.path.as_str(), path) {
                assert(left@[i as int].original is Some);
                return true;
            }
        }
        i = i + 1;
    }
    false
}

/// What's said when a recent project's card is pointed at.
pub fn project_tip(path: &str, unsaved: bool) -> (out: String)
    ensures
        out@ == if unsaved {
            path@ + "\nHas unsaved changes from an earlier session — see Unsaved work above"@
        } else {
            path@
        },
{
    if unsaved {
        join2(path, "\nHas unsaved changes from an earlier session — see Unsaved work above")
    } else {
        path.to_owned()
    }
}

/// What the card of unsaved work offers.
pub struct RecoveryCard {
    pub icon: Shape,
    pub title: String,
    /// The project's file, shown where it's still there.
    pub file: Option<String>,
    pub question: &'static str,
    /// It can be carried on with as the project's own changes.
    pub as_changes: bool,
    /// What carrying on with it as a new project is called.
    pub as_new: &'static str,
}

/// The card of unsaved work; `there` is whether the project's file is still there. Where it
/// is, the work can be carried on with as that project's changes or as a new project;
/// otherwise only as a new one.
pub fn recovery_card(r: &Recovery, there: bool) -> (out: RecoveryCard)
    ensures
        ({
            let saved = r.original is Some && there;
            &&& out.as_changes == saved
            &&& out.icon == if saved {
                Shape::Warning
            } else {
                Shape::History
            }
            &&& out.title@ == if saved {
                "Unsaved changes to "@ + (r.original->0).name@
            } else if r.original is Some {
                "Unsaved work from "@ + (r.original->0).name@ + " (its file is gone)"@
            } else {
                "Unsaved work from an untitled project"@
            }
            &&& if saved {
                out.file is Some && (out.file->0)@ == (r.original->0).path@
            } else {
                out.file is None
            }
            &&& out.question@ == if saved {
                "Would you like to continue with the previous session, discard it, or move it to a new project and continue?"@
            } else {
                "The app didn't close normally. Continue with it, or discard it?"@
            }
            &&& out.as_new@ == if saved {
                "Move to new project"@
            } else {
                "Continue"@
            }
        }),
{
    match &r.original {
        Some(o) => if there {
            RecoveryCard {
                icon: Shape::Warning,
                title: join2("Unsaved changes to ", o.name.as_str()),
                file: Some(o.path.clone()),
                question: "Would you like to continue with the previous session, discard it, or move it to a new project and continue?",
                as_changes: true,
                as_new: "Move to new project",
            }
        } else {
            RecoveryCard {
                icon: Shape::History,
                title: join3("Unsaved work from ", o.name.as_str(), " (its file is gone)"),
                file: None,
                question: "The app didn't close normally. Continue with it, or discard it?",
                as_changes: false,
                as_new: "Continue",
            }
        },
        None => RecoveryCard {
            icon: Shape::History,
            title: "Unsaved work from an untitled project".to_owned(),
            file: None,
            question: "The app didn't close normally. Continue with it, or discard it?",
            as_changes: false,
            as_new: "Continue",
        },
    }
}

/// How many of the first plugins are on.
pub open spec fn on_count(enabled: Seq<bool>, n: int) -> nat
    decreases n,
{
    if n <= 0 {
        0
    } else {
        on_count(enabled, n - 1) + if enabled[n - 1] {
            1nat
        } else {
            0nat
        }
    }
}

/// How many plugins there are, and how many are on.
pub fn plugin_count(active: &Active, enabled: &Vec<bool>) -> (out: String)
    ensures
        out@ == crate::text::replaced(
            crate::text::replaced(
                text_for(active.strings@, active.english@, "plugins.count"@),
                "{"@ + "n"@ + "}"@,
                decimal(enabled@.len()),
            ),
            "{"@ + "on"@ + "}"@,
            decimal(on_count(enabled@, enabled@.len() as int)),
        ),
{
    let mut on: usize = 0;
    let mut i: usize = 0;
    while i < enabled.len()
        invariant
            i <= enabled@.len(),
            on <= i,
            on == on_count(enabled@, i as int),
        decreases enabled@.len() - i,
    {
        if enabled[i] {
            on = on + 1;
        }
        i = i + 1;
    }
    let n = number(enabled.len() as u64);
    let m = number(on as u64);
    let mut values: Vec<(&str, &str)> = Vec::new();
    values.push(("n", n.as_str()));
    values.push(("on", m.as_str()));
    let out = args(active, "plugins.count", &values);
    proof {
        reveal_with_fuel(filled, 3);
    }
    out
}

/// A plugin as the list shows it.
pub struct PluginFace {
    /// What's said of its version.
    pub version: String,
    pub author: Option<String>,
    pub description: Option<String>,
    /// Where it comes from.
    pub source: String,
    pub builtin: bool,
    /// It's off, with a note on what that means.
    pub off: bool,
    /// What its switch says.
    pub switch: String,
}

/// What the list says of a plugin.
pub fn plugin_face(
    active: &Active,
    version: &str,
    author: &str,
    description: &str,
    builtin: bool,
    folder: &str,
    enabled: bool,
) -> (out: PluginFace)
    ensures
        out.version@ == "v"@ + version@,
        if author@ == ""@ {
            out.author is None
        } else {
            out.author is Some && (out.author->0)@ == crate::text::replaced(
                text_for(active.strings@, active.english@, "plugins.by"@),
                "{"@ + "author"@ + "}"@,
                author@,
            )
        },
        if description@ == ""@ {
            out.description is None
        } else {
            out.description is Some && (out.description->0)@ == description@
        },
        out.source@ == if builtin {
            text_for(active.strings@, active.english@, "plugins.built_in_source"@)
        } else {
            folder@
        },
        out.builtin == builtin,
        out.off == !enabled,
        out.switch@ == text_for(
            active.strings@,
            active.english@,
            if enabled {
                "plugins.turn_off"@
            } else {
                "plugins.turn_on"@
            },
        ),
{
    let by = if same(author, "") {
        None
    } else {
        let mut values: Vec<(&str, &str)> = Vec::new();
        values.push(("author", author));
        let text = args(active, "plugins.by", &values);
        proof {
            reveal_with_fuel(filled, 2);
        }
        Some(text)
    };
    PluginFace {
        version: join2("v", version),
        author: by,
        description: if same(description, "") {
            None
        } else {
            Some(description.to_owned())
        },
        source: if builtin {
            t(active, "plugins.built_in_source")
        } else {
            folder.to_owned()
        },
        builtin,
        off: !enabled,
        switch: if enabled {
            t(active, "plugins.turn_off")
        } else {
            t(active, "plugins.turn_on")
        },
    }
}

} // verus!
