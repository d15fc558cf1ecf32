//! The icon set: each icon is drawn by its codepoint in the Material Symbols font, or as
//! simple shapes on a 24-unit grid where the font, or the icon in it, is missing.
use crate::text::{
    ends_with, join3, lowercase, lowercase_of, same, starts_with,
};
use vstd::prelude::*;

verus! {

/// What an icon shows.
#[derive(Copy, Clone, Debug, PartialEq, Eq, Structural)]
pub enum Shape {
    Play,
    Pause,
    SkipStart,
    SkipEnd,
    StepBack,
    StepOn,
    Cut,
    Copy,
    Delete,
    Group,
    HalfCircle,
    Volume,
    Title,
    Magnet,
    FitScreen,
    Height,
    Undo,
    Redo,
    Home,
    Add,
    Folder,
    Movie,
    Music,
    NewFolder,
    Upload,
    Library,
    Star,
    Stop,
    Mic,
    Record,
    Subtitles,
    FolderOpen,
    Puzzle,
    Refresh,
    History,
    Warning,
    Globe,
    Move,
    Gear,
    Save,
    Download,
    Sparkle,
    Info,
}

/// An icon: its Material name, the codepoint that draws it, and how to draw it without the
/// font.
#[derive(Copy, Clone)]
pub struct Icon {
    pub name: &'static str,
    pub code: char,
    pub shape: Shape,
}

/// A shape's Material name.
pub open spec fn name_of(shape: Shape) -> Seq<char> {
    match shape {
        Shape::Play => "play_arrow"@,
        Shape::Pause => "pause"@,
        Shape::SkipStart => "skip_previous"@,
        Shape::SkipEnd => "skip_next"@,
        Shape::StepBack => "chevron_left"@,
        Shape::StepOn => "chevron_right"@,
        Shape::Cut => "content_cut"@,
        Shape::Copy => "content_copy"@,
        Shape::Delete => "delete"@,
        Shape::Group => "link"@,
        Shape::HalfCircle => "contrast"@,
        Shape::Volume => "volume_up"@,
        Shape::Title => "title"@,
        Shape::Magnet => "align_horizontal_center"@,
        Shape::FitScreen => "fit_screen"@,
        Shape::Height => "height"@,
        Shape::Undo => "undo"@,
        Shape::Redo => "redo"@,
        Shape::Home => "home"@,
        Shape::Add => "add"@,
        Shape::Folder => "folder"@,
        Shape::Movie => "movie"@,
        Shape::Music => "music_note"@,
        Shape::NewFolder => "create_new_folder"@,
        Shape::Upload => "upload"@,
        Shape::Library => "photo_library"@,
        Shape::Star => "inventory_2"@,
        Shape::Stop => "stop"@,
        Shape::Mic => "mic"@,
        Shape::Record => "fiber_manual_record"@,
        Shape::Subtitles => "subtitles"@,
        Shape::FolderOpen => "folder_open"@,
        Shape::Puzzle => "extension"@,
        Shape::Refresh => "refresh"@,
        Shape::History => "history"@,
        Shape::Warning => "warning"@,
        Shape::Globe => "language"@,
        Shape::Move => "open_with"@,
        Shape::Gear => "settings"@,
        Shape::Save => "save"@,
        Shape::Download => "file_download"@,
        Shape::Sparkle => "auto_awesome"@,
        Shape::Info => "info"@,
    }
}

/// A shape's codepoint.
pub open spec fn code_of(shape: Shape) -> char {
    match shape {
        Shape::Play => '\u{e037}',
        Shape::Pause => '\u{e034}',
        Shape::SkipStart => '\u{e045}',
        Shape::SkipEnd => '\u{e044}',
        Shape::StepBack => '\u{e408}',
        Shape::StepOn => '\u{e409}',
        Shape::Cut => '\u{e14e}',
        Shape::Copy => '\u{e14d}',
        Shape::Delete => '\u{e872}',
        Shape::Group => '\u{e157}',
        Shape::HalfCircle => '\u{eb37}',
        Shape::Volume => '\u{e050}',
        Shape::Title => '\u{e264}',
        Shape::Magnet => '\u{e00f}',
        Shape::FitScreen => '\u{ea10}',
        Shape::Height => '\u{ea16}',
        Shape::Undo => '\u{e166}',
        Shape::Redo => '\u{e15a}',
        Shape::Home => '\u{e88a}',
        Shape::Add => '\u{e145}',
        Shape::Folder => '\u{e2c7}',
        Shape::Movie => '\u{e02c}',
        Shape::Music => '\u{e405}',
        Shape::NewFolder => '\u{e2cc}',
        Shape::Upload => '\u{e2c6}',
        Shape::Library => '\u{e413}',
        Shape::Star => '\u{e1a1}',
        Shape::Stop => '\u{e047}',
        Shape::Mic => '\u{e029}',
        Shape::Record => '\u{e061}',
        Shape::Subtitles => '\u{e048}',
        Shape::FolderOpen => '\u{e2c8}',
        Shape::Puzzle => '\u{e87b}',
        Shape::Refresh => '\u{e5d5}',
        Shape::History => '\u{e889}',
        Shape::Warning => '\u{e002}',
        Shape::Globe => '\u{e894}',
        Shape::Move => '\u{e89f}',
        Shape::Gear => '\u{e8b8}',
        Shape::Save => '\u{e161}',
        Shape::Download => '\u{e2c4}',
        Shape::Sparkle => '\u{e65f}',
        Shape::Info => '\u{e88e}',
    }
}

impl Icon {
    /// The icon and the name and codepoint that draw it agree.
    pub open spec fn agrees(self) -> bool {
        self.name@ == name_of(self.shape) && self.code == code_of(self.shape)
    }

    /// The icon that shows `shape`.
    pub fn of(shape: Shape) -> (out: Icon)
        ensures
            out.shape == shape,
            out.agrees(),
    {
        let name: &'static str = match shape {
            Shape::Play => "play_arrow",
            Shape::Pause => "pause",
            Shape::SkipStart => "skip_previous",
            Shape::SkipEnd => "skip_next",
            Shape::StepBack => "chevron_left",
            Shape::StepOn => "chevron_right",
            Shape::Cut => "content_cut",
            Shape::Copy => "content_copy",
            Shape::Delete => "delete",
            Shape::Group => "link",
            Shape::HalfCircle => "contrast",
            Shape::Volume => "volume_up",
            Shape::Title => "title",
            Shape::Magnet => "align_horizontal_center",
            Shape::FitScreen => "fit_screen",
            Shape::Height => "height",
            Shape::Undo => "undo",
            Shape::Redo => "redo",
            Shape::Home => "home",
            Shape::Add => "add",
            Shape::Folder => "folder",
            Shape::Movie => "movie",
            Shape::Music => "music_note",
            Shape::NewFolder => "create_new_folder",
            Shape::Upload => "upload",
            Shape::Library => "photo_library",
            Shape::Star => "inventory_2",
            Shape::Stop => "stop",
            Shape::Mic => "mic",
            Shape::Record => "fiber_manual_record",
            Shape::Subtitles => "subtitles",
            Shape::FolderOpen => "folder_open",
            Shape::Puzzle => "extension",
            Shape::Refresh => "refresh",
            Shape::History => "history",
            Shape::Warning => "warning",
            Shape::Globe => "language",
            Shape::Move => "open_with",
            Shape::Gear => "settings",
            Shape::Save => "save",
            Shape::Download => "file_download",
            Shape::Sparkle => "auto_awesome",
            Shape::Info => "info",
        };
        let code: char = match shape {
            Shape::Play => '\u{e037}',
            Shape::Pause => '\u{e034}',
            Shape::SkipStart => '\u{e045}',
            Shape::SkipEnd => '\u{e044}',
            Shape::StepBack => '\u{e408}',
            Shape::StepOn => '\u{e409}',
            Shape::Cut => '\u{e14e}',
            Shape::Copy => '\u{e14d}',
            Shape::Delete => '\u{e872}',
            Shape::Group => '\u{e157}',
            Shape::HalfCircle => '\u{eb37}',
            Shape::Volume => '\u{e050}',
            Shape::Title => '\u{e264}',
            Shape::Magnet => '\u{e00f}',
            Shape::FitScreen => '\u{ea10}',
            Shape::Height => '\u{ea16}',
            Shape::Undo => '\u{e166}',
            Shape::Redo => '\u{e15a}',
            Shape::Home => '\u{e88a}',
            Shape::Add => '\u{e145}',
            Shape::Folder => '\u{e2c7}',
            Shape::Movie => '\u{e02c}',
            Shape::Music => '\u{e405}',
            Shape::NewFolder => '\u{e2cc}',
            Shape::Upload => '\u{e2c6}',
            Shape::Library => '\u{e413}',
            Shape::Star => '\u{e1a1}',
            Shape::Stop => '\u{e047}',
            Shape::Mic => '\u{e029}',
            Shape::Record => '\u{e061}',
            Shape::Subtitles => '\u{e048}',
            Shape::FolderOpen => '\u{e2c8}',
            Shape::Puzzle => '\u{e87b}',
            Shape::Refresh => '\u{e5d5}',
            Shape::History => '\u{e889}',
            Shape::Warning => '\u{e002}',
            Shape::Globe => '\u{e894}',
            Shape::Move => '\u{e89f}',
            Shape::Gear => '\u{e8b8}',
            Shape::Save => '\u{e161}',
            Shape::Download => '\u{e2c4}',
            Shape::Sparkle => '\u{e65f}',
            Shape::Info => '\u{e88e}',
        };
        Icon { name, code, shape }
    }
}

/// Every shape, in the order the set lists them.
pub open spec fn every_shape() -> Seq<Shape> {
    seq![
        Shape::Play,
        Shape::Pause,
        Shape::SkipStart,
        Shape::SkipEnd,
        Shape::StepBack,
        Shape::StepOn,
        Shape::Cut,
        Shape::Copy,
        Shape::Delete,
        Shape::Group,
        Shape::HalfCircle,
        Shape::Volume,
        Shape::Title,
        Shape::Magnet,
        Shape::FitScreen,
        Shape::Height,
        Shape::Undo,
        Shape::Redo,
        Shape::Home,
        Shape::Add,
        Shape::Folder,
        Shape::Movie,
        Shape::Music,
        Shape::NewFolder,
        Shape::Upload,
        Shape::Library,
        Shape::Star,
        Shape::Stop,
        Shape::Mic,
        Shape::Record,
        Shape::Subtitles,
        Shape::FolderOpen,
        Shape::Puzzle,
        Shape::Refresh,
        Shape::History,
        Shape::Warning,
        Shape::Globe,
        Shape::Move,
        Shape::Gear,
        Shape::Save,
        Shape::Download,
        Shape::Sparkle,
        Shape::Info,
    ]
}

/// Every icon.
pub fn all() -> (out: Vec<Icon>)
    ensures
        out@.len() == every_shape().len(),
        forall|i: int|
            0 <= i < out@.len() ==> (#[trigger] out@[i]).shape == every_shape()[i]
                && out@[i].agrees(),
{
    let shapes: Vec<Shape> = vec![
        Shape::Play,
        Shape::Pause,
        Shape::SkipStart,
        Shape::SkipEnd,
        Shape::StepBack,
        Shape::StepOn,
        Shape::Cut,
        Shape::Copy,
        Shape::Delete,
        Shape::Group,
        Shape::HalfCircle,
        Shape::Volume,
        Shape::Title,
        Shape::Magnet,
        Shape::FitScreen,
        Shape::Height,
        Shape::Undo,
        Shape::Redo,
        Shape::Home,
        Shape::Add,
        Shape::Folder,
        Shape::Movie,
        Shape::Music,
        Shape::NewFolder,
        Shape::Upload,
        Shape::Library,
        Shape::Star,
        Shape::Stop,
        Shape::Mic,
        Shape::Record,
        Shape::Subtitles,
        Shape::FolderOpen,
        Shape::Puzzle,
        Shape::Refresh,
        Shape::History,
        Shape::Warning,
        Shape::Globe,
        Shape::Move,
        Shape::Gear,
        Shape::Save,
        Shape::Download,
        Shape::Sparkle,
        Shape::Info,
    ];
    assert(shapes@ =~= every_shape());
    let mut out: Vec<Icon> = Vec::new();
    let mut i: usize = 0;
    while i < shapes.len()
        invariant
            shapes@ == every_shape(),
            i <= shapes@.len(),
            out@.len() == i,
            forall|k: int|
                0 <= k < i ==> (#[trigger] out@[k]).shape == every_shape()[k] && out@[k].agrees(),
        decreases shapes@.len() - i,
    {
        out.push(Icon::of(shapes[i]));
        i = i + 1;
    }
    out
}

/// The set leaves no shape out.
pub proof fn every_shape_is_listed(shape: Shape)
    ensures
        every_shape().contains(shape),
{
    let at = choose|i: int| 0 <= i < every_shape().len() && shape_at(i) == shape;
    assert(exists|i: int| 0 <= i < every_shape().len() && shape_at(i) == shape) by {
        assert(shape_at(place_of(shape)) == shape);
    }
    assert(every_shape()[at] == shape);
}

spec fn shape_at(i: int) -> Shape {
    every_shape()[i]
}

spec fn place_of(shape: Shape) -> int {
    match shape {
        Shape::Play => 0,
        Shape::Pause => 1,
        Shape::SkipStart => 2,
        Shape::SkipEnd => 3,
        Shape::StepBack => 4,
        Shape::StepOn => 5,
        Shape::Cut => 6,
        Shape::Copy => 7,
        Shape::Delete => 8,
        Shape::Group => 9,
        Shape::HalfCircle => 10,
        Shape::Volume => 11,
        Shape::Title => 12,
        Shape::Magnet => 13,
        Shape::FitScreen => 14,
        Shape::Height => 15,
        Shape::Undo => 16,
        Shape::Redo => 17,
        Shape::Home => 18,
        Shape::Add => 19,
        Shape::Folder => 20,
        Shape::Movie => 21,
        Shape::Music => 22,
        Shape::NewFolder => 23,
        Shape::Upload => 24,
        Shape::Library => 25,
        Shape::Star => 26,
        Shape::Stop => 27,
        Shape::Mic => 28,
        Shape::Record => 29,
        Shape::Subtitles => 30,
        Shape::FolderOpen => 31,
        Shape::Puzzle => 32,
        Shape::Refresh => 33,
        Shape::History => 34,
        Shape::Warning => 35,
        Shape::Globe => 36,
        Shape::Move => 37,
        Shape::Gear => 38,
        Shape::Save => 39,
        Shape::Download => 40,
        Shape::Sparkle => 41,
        Shape::Info => 42,
    }
}

/// Every icon has a name and a codepoint in Material's private-use range.
pub proof fn icons_are_material(shape: Shape)
    ensures
        name_of(shape).len() > 0,
        0xe000 <= code_of(shape) as u32 <= 0xf8ff,
{
    reveal_strlit("play_arrow");
    reveal_strlit("pause");
    reveal_strlit("skip_previous");
    reveal_strlit("skip_next");
    reveal_strlit("chevron_left");
    reveal_strlit("chevron_right");
    reveal_strlit("content_cut");
    reveal_strlit("content_copy");
    reveal_strlit("delete");
    reveal_strlit("link");
    reveal_strlit("contrast");
    reveal_strlit("volume_up");
    reveal_strlit("title");
    reveal_strlit("align_horizontal_center");
    reveal_strlit("fit_screen");
    reveal_strlit("height");
    reveal_strlit("undo");
    reveal_strlit("redo");
    reveal_strlit("home");
    reveal_strlit("add");
    reveal_strlit("folder");
    reveal_strlit("movie");
    reveal_strlit("music_note");
    reveal_strlit("create_new_folder");
    reveal_strlit("upload");
    reveal_strlit("photo_library");
    reveal_strlit("inventory_2");
    reveal_strlit("stop");
    reveal_strlit("mic");
    reveal_strlit("fiber_manual_record");
    reveal_strlit("subtitles");
    reveal_strlit("folder_open");
    reveal_strlit("extension");
    reveal_strlit("refresh");
    reveal_strlit("history");
    reveal_strlit("warning");
    reveal_strlit("language");
    reveal_strlit("open_with");
    reveal_strlit("settings");
    reveal_strlit("save");
    reveal_strlit("file_download");
    reveal_strlit("auto_awesome");
    reveal_strlit("info");
}

/// No two icons share a codepoint.
pub proof fn codes_tell_icons_apart(a: Shape, b: Shape)
    ensures
        code_of(a) == code_of(b) ==> a == b,
{
}

// ---- drawing without the font ----

/// A mark of a drawn icon, in tenths of a unit of the 24-unit grid.
#[derive(Copy, Clone, Debug, PartialEq, Eq, Structural)]
pub enum Mark {
    /// A corner of the outline being made.
    Corner(i32, i32),
    /// Fills the outline the corners before it make.
    Fill,
    /// Draws that outline as a closed line.
    Outline,
    /// A line between two points.
    Line(i32, i32, i32, i32),
    /// A filled bar between two corners, barely rounded.
    Bar(i32, i32, i32, i32),
    /// A frame between two corners, rounded by the last.
    Frame(i32, i32, i32, i32, i32),
    /// A circle's center, radius and how thick its line is.
    Ring(i32, i32, i32, i32),
    /// A filled circle's center and radius.
    Dot(i32, i32, i32),
    /// The right half of a circle, filled: center and radius.
    Half(i32, i32, i32),
    /// An arc: center, radii (negative ones mirror it), where it starts and how far it
    /// goes, in hundredths of half a turn, and in how many pieces.
    Arc(i32, i32, i32, i32, i32, i32, i32),
    /// A star's outline: center, outer and inner radius, corners.
    Star(i32, i32, i32, i32, i32),
    /// Teeth around a center: from one radius to another, how thick, how many.
    Teeth(i32, i32, i32, i32, i32, i32),
}

/// How far the grid goes.
pub const GRID: i32 = 240;

/// The span from `c - r` to `c + r` is on the grid.
pub open spec fn spans(c: i32, r: i32) -> bool {
    0 <= c - r && c + r <= GRID && 0 <= c + r && c - r <= GRID
}

/// A point on the grid.
pub open spec fn point(x: i32, y: i32) -> bool {
    spans(x, 0) && spans(y, 0)
}

/// The mark is on the grid.
pub open spec fn on_grid(m: Mark) -> bool {
    match m {
        Mark::Corner(x, y) => point(x, y),
        Mark::Fill | Mark::Outline => true,
        Mark::Line(a, b, c, d) => point(a, b) && point(c, d),
        Mark::Bar(a, b, c, d) => point(a, b) && point(c, d) && a < c && b < d,
        Mark::Frame(a, b, c, d, r) => point(a, b) && point(c, d) && a < c && b < d && 0 <= r,
        Mark::Ring(x, y, r, w) => spans(x, r) && spans(y, r) && 0 < r && 0 < w,
        Mark::Dot(x, y, r) => spans(x, r) && spans(y, r) && 0 < r,
        Mark::Half(x, y, r) => spans(x, r) && spans(y, r) && 0 < r,
        Mark::Arc(x, y, a, b, _, sweep, n) => spans(x, a) && spans(y, b) && 0 < sweep && 0 < n,
        Mark::Star(x, y, a, b, n) => spans(x, a) && spans(y, a) && 0 < b < a && 0 < n,
        Mark::Teeth(x, y, a, b, w, n) => spans(x, b) && spans(y, b) && 0 < a < b && 0 < w && 0 < n,
    }
}

/// The marks that draw a shape.
pub open spec fn drawing(shape: Shape) -> Seq<Mark> {
    match shape {
        Shape::Play => seq![
            Mark::Corner(80, 50),
            Mark::Corner(190, 120),
            Mark::Corner(80, 190),
            Mark::Fill,
        ],
        Shape::Pause => seq![
            Mark::Bar(60, 50, 100, 190),
            Mark::Bar(140, 50, 180, 190),
        ],
        Shape::SkipStart => seq![
            Mark::Bar(60, 60, 85, 180),
            Mark::Corner(190, 60),
            Mark::Corner(190, 180),
            Mark::Corner(95, 120),
            Mark::Fill,
        ],
        Shape::SkipEnd => seq![
            Mark::Corner(50, 60),
            Mark::Corner(145, 120),
            Mark::Corner(50, 180),
            Mark::Fill,
            Mark::Bar(155, 60, 180, 180),
        ],
        Shape::StepBack => seq![
            Mark::Line(150, 50, 90, 120),
            Mark::Line(90, 120, 150, 190),
        ],
        Shape::StepOn => seq![
            Mark::Line(90, 50, 150, 120),
            Mark::Line(150, 120, 90, 190),
        ],
        Shape::Cut => seq![
            Mark::Line(70, 40, 160, 160),
            Mark::Line(170, 40, 80, 160),
            Mark::Ring(70, 185, 26, 20),
            Mark::Ring(170, 185, 26, 20),
        ],
        Shape::Copy => seq![
            Mark::Frame(80, 40, 200, 160, 20),
            Mark::Frame(40, 80, 160, 200, 20),
        ],
        Shape::Delete => seq![
            Mark::Bar(50, 55, 190, 75),
            Mark::Bar(90, 30, 150, 50),
            Mark::Frame(65, 80, 175, 210, 20),
            Mark::Line(100, 110, 100, 180),
            Mark::Line(140, 110, 140, 180),
        ],
        Shape::Group => seq![
            Mark::Frame(30, 90, 130, 150, 30),
            Mark::Frame(110, 90, 210, 150, 30),
        ],
        Shape::HalfCircle => seq![
            Mark::Ring(120, 120, 80, 20),
            Mark::Half(120, 120, 80),
        ],
        Shape::Volume => seq![
            Mark::Corner(40, 95),
            Mark::Corner(80, 95),
            Mark::Corner(120, 50),
            Mark::Corner(120, 190),
            Mark::Corner(80, 145),
            Mark::Corner(40, 145),
            Mark::Fill,
            Mark::Ring(130, 120, 40, 20),
            Mark::Ring(130, 120, 70, 20),
        ],
        Shape::Title => seq![
            Mark::Bar(40, 50, 200, 70),
            Mark::Bar(105, 70, 135, 190),
        ],
        Shape::Magnet => seq![
            Mark::Ring(120, 120, 70, 30),
            Mark::Bar(40, 120, 80, 200),
            Mark::Bar(160, 120, 200, 200),
        ],
        Shape::FitScreen => seq![
            Mark::Frame(30, 60, 210, 180, 20),
            Mark::Line(80, 120, 160, 120),
            Mark::Corner(60, 120),
            Mark::Corner(95, 95),
            Mark::Corner(95, 145),
            Mark::Fill,
            Mark::Corner(180, 120),
            Mark::Corner(145, 95),
            Mark::Corner(145, 145),
            Mark::Fill,
        ],
        Shape::Height => seq![
            Mark::Line(120, 50, 120, 190),
            Mark::Corner(120, 30),
            Mark::Corner(85, 75),
            Mark::Corner(155, 75),
            Mark::Fill,
            Mark::Corner(120, 210),
            Mark::Corner(85, 165),
            Mark::Corner(155, 165),
            Mark::Fill,
        ],
        Shape::Undo => seq![
            Mark::Arc(120, 140, -70 as i32, -60 as i32, 15, 85, 12),
            Mark::Corner(50, 60),
            Mark::Corner(50, 130),
            Mark::Corner(110, 95),
            Mark::Fill,
        ],
        Shape::Redo => seq![
            Mark::Arc(120, 140, 70, -60 as i32, 15, 85, 12),
            Mark::Corner(190, 60),
            Mark::Corner(190, 130),
            Mark::Corner(130, 95),
            Mark::Fill,
        ],
        Shape::Home => seq![
            Mark::Corner(120, 30),
            Mark::Corner(220, 120),
            Mark::Corner(20, 120),
            Mark::Fill,
            Mark::Frame(50, 110, 190, 210, 10),
        ],
        Shape::Add => seq![
            Mark::Line(120, 50, 120, 190),
            Mark::Line(50, 120, 190, 120),
        ],
        Shape::Folder => seq![
            Mark::Corner(30, 55),
            Mark::Corner(100, 55),
            Mark::Corner(120, 80),
            Mark::Corner(30, 80),
            Mark::Fill,
            Mark::Frame(30, 70, 210, 190, 20),
        ],
        Shape::Movie => seq![
            Mark::Frame(30, 60, 210, 180, 20),
            Mark::Bar(45, 75, 65, 93),
            Mark::Bar(175, 75, 195, 93),
            Mark::Bar(45, 111, 65, 129),
            Mark::Bar(175, 111, 195, 129),
            Mark::Bar(45, 147, 65, 165),
            Mark::Bar(175, 147, 195, 165),
        ],
        Shape::Music => seq![
            Mark::Ring(85, 170, 30, 20),
            Mark::Line(115, 170, 115, 55),
            Mark::Line(115, 55, 190, 80),
            Mark::Line(115, 95, 190, 120),
        ],
        Shape::NewFolder => seq![
            Mark::Corner(30, 55),
            Mark::Corner(100, 55),
            Mark::Corner(120, 80),
            Mark::Corner(30, 80),
            Mark::Fill,
            Mark::Frame(30, 70, 210, 190, 20),
            Mark::Line(120, 105, 120, 165),
            Mark::Line(90, 135, 150, 135),
        ],
        Shape::Upload => seq![
            Mark::Line(120, 40, 120, 150),
            Mark::Corner(120, 25),
            Mark::Corner(75, 80),
            Mark::Corner(165, 80),
            Mark::Fill,
            Mark::Line(40, 185, 200, 185),
        ],
        Shape::Library => seq![
            Mark::Frame(70, 40, 210, 160, 20),
            Mark::Corner(90, 140),
            Mark::Corner(130, 90),
            Mark::Corner(170, 140),
            Mark::Fill,
            Mark::Line(30, 80, 30, 200),
            Mark::Line(30, 200, 160, 200),
        ],
        Shape::Star => seq![
            Mark::Star(120, 120, 90, 40, 10),
        ],
        Shape::Stop => seq![
            Mark::Bar(60, 60, 180, 180),
        ],
        Shape::Mic => seq![
            Mark::Frame(90, 30, 150, 140, 30),
            Mark::Line(60, 110, 65, 135),
            Mark::Line(180, 110, 175, 135),
            Mark::Line(65, 135, 120, 175),
            Mark::Line(175, 135, 120, 175),
            Mark::Line(120, 175, 120, 210),
        ],
        Shape::Record => seq![
            Mark::Dot(120, 120, 70),
        ],
        Shape::Subtitles => seq![
            Mark::Frame(30, 50, 210, 190, 20),
            Mark::Bar(60, 125, 90, 145),
            Mark::Bar(105, 125, 180, 145),
            Mark::Bar(60, 155, 140, 175),
            Mark::Bar(155, 155, 180, 175),
        ],
        Shape::FolderOpen => seq![
            Mark::Corner(30, 55),
            Mark::Corner(100, 55),
            Mark::Corner(120, 80),
            Mark::Corner(30, 80),
            Mark::Fill,
            Mark::Line(30, 70, 30, 190),
            Mark::Line(30, 70, 190, 70),
            Mark::Corner(30, 190),
            Mark::Corner(65, 110),
            Mark::Corner(220, 110),
            Mark::Corner(185, 190),
            Mark::Outline,
        ],
        Shape::Puzzle => seq![
            Mark::Frame(40, 70, 170, 200, 15),
            Mark::Dot(105, 55, 26),
            Mark::Dot(185, 135, 26),
        ],
        Shape::Refresh => seq![
            Mark::Arc(120, 120, 75, 75, 24, 160, 20),
            Mark::Corner(215, 40),
            Mark::Corner(210, 110),
            Mark::Corner(145, 90),
            Mark::Fill,
        ],
        Shape::History => seq![
            Mark::Arc(120, 120, 75, 75, 24, 160, 20),
            Mark::Corner(25, 80),
            Mark::Corner(85, 85),
            Mark::Corner(45, 130),
            Mark::Fill,
            Mark::Line(120, 80, 120, 125),
            Mark::Line(120, 125, 150, 145),
        ],
        Shape::Warning => seq![
            Mark::Corner(120, 30),
            Mark::Corner(220, 200),
            Mark::Corner(20, 200),
            Mark::Outline,
            Mark::Line(120, 90, 120, 140),
            Mark::Dot(120, 170, 12),
        ],
        Shape::Globe => seq![
            Mark::Ring(120, 120, 90, 20),
            Mark::Line(30, 120, 210, 120),
            Mark::Arc(120, 120, 40, 90, -50 as i32, 100, 12),
            Mark::Arc(120, 120, -40 as i32, 90, -50 as i32, 100, 12),
        ],
        Shape::Move => seq![
            Mark::Line(120, 40, 120, 200),
            Mark::Line(40, 120, 200, 120),
            Mark::Corner(120, 20),
            Mark::Corner(90, 60),
            Mark::Corner(150, 60),
            Mark::Fill,
            Mark::Corner(120, 220),
            Mark::Corner(90, 180),
            Mark::Corner(150, 180),
            Mark::Fill,
            Mark::Corner(20, 120),
            Mark::Corner(60, 90),
            Mark::Corner(60, 150),
            Mark::Fill,
            Mark::Corner(220, 120),
            Mark::Corner(180, 90),
            Mark::Corner(180, 150),
            Mark::Fill,
        ],
        Shape::Gear => seq![
            Mark::Teeth(120, 120, 60, 95, 32, 8),
            Mark::Ring(120, 120, 60, 24),
            Mark::Ring(120, 120, 22, 20),
        ],
        Shape::Save => seq![
            Mark::Frame(40, 40, 200, 200, 20),
            Mark::Bar(70, 50, 150, 90),
            Mark::Ring(120, 145, 25, 20),
        ],
        Shape::Download => seq![
            Mark::Line(120, 30, 120, 140),
            Mark::Corner(120, 165),
            Mark::Corner(75, 110),
            Mark::Corner(165, 110),
            Mark::Fill,
            Mark::Line(40, 195, 200, 195),
        ],
        Shape::Sparkle => seq![
            Mark::Corner(100, 40),
            Mark::Corner(120, 100),
            Mark::Corner(180, 120),
            Mark::Corner(120, 140),
            Mark::Corner(100, 200),
            Mark::Corner(80, 140),
            Mark::Corner(20, 120),
            Mark::Corner(80, 100),
            Mark::Fill,
            Mark::Corner(180, 20),
            Mark::Corner(190, 50),
            Mark::Corner(220, 60),
            Mark::Corner(190, 70),
            Mark::Corner(180, 100),
            Mark::Corner(170, 70),
            Mark::Corner(140, 60),
            Mark::Corner(170, 50),
            Mark::Fill,
        ],
        Shape::Info => seq![
            Mark::Ring(120, 120, 90, 20),
            Mark::Line(120, 110, 120, 170),
            Mark::Dot(120, 75, 13),
        ],
    }
}

/// How to draw a shape without the font.
pub fn marks(shape: Shape) -> (out: Vec<Mark>)
    ensures
        out@ == drawing(shape),
{
    match shape {
        Shape::Play => vec![
            Mark::Corner(80, 50),
            Mark::Corner(190, 120),
            Mark::Corner(80, 190),
            Mark::Fill,
        ],
        Shape::Pause => vec![
            Mark::Bar(60, 50, 100, 190),
            Mark::Bar(140, 50, 180, 190),
        ],
        Shape::SkipStart => vec![
            Mark::Bar(60, 60, 85, 180),
            Mark::Corner(190, 60),
            Mark::Corner(190, 180),
            Mark::Corner(95, 120),
            Mark::Fill,
        ],
        Shape::SkipEnd => vec![
            Mark::Corner(50, 60),
            Mark::Corner(145, 120),
            Mark::Corner(50, 180),
            Mark::Fill,
            Mark::Bar(155, 60, 180, 180),
        ],
        Shape::StepBack => vec![
            Mark::Line(150, 50, 90, 120),
            Mark::Line(90, 120, 150, 190),
        ],
        Shape::StepOn => vec![
            Mark::Line(90, 50, 150, 120),
            Mark::Line(150, 120, 90, 190),
        ],
        Shape::Cut => vec![
            Mark::Line(70, 40, 160, 160),
            Mark::Line(170, 40, 80, 160),
            Mark::Ring(70, 185, 26, 20),
            Mark::Ring(170, 185, 26, 20),
        ],
        Shape::Copy => vec![
            Mark::Frame(80, 40, 200, 160, 20),
            Mark::Frame(40, 80, 160, 200, 20),
        ],
        Shape::Delete => vec![
            Mark::Bar(50, 55, 190, 75),
            Mark::Bar(90, 30, 150, 50),
            Mark::Frame(65, 80, 175, 210, 20),
            Mark::Line(100, 110, 100, 180),
            Mark::Line(140, 110, 140, 180),
        ],
        Shape::Group => vec![
            Mark::Frame(30, 90, 130, 150, 30),
            Mark::Frame(110, 90, 210, 150, 30),
        ],
        Shape::HalfCircle => vec![
            Mark::Ring(120, 120, 80, 20),
            Mark::Half(120, 120, 80),
        ],
        Shape::Volume => vec![
            Mark::Corner(40, 95),
            Mark::Corner(80, 95),
            Mark::Corner(120, 50),
            Mark::Corner(120, 190),
            Mark::Corner(80, 145),
            Mark::Corner(40, 145),
            Mark::Fill,
            Mark::Ring(130, 120, 40, 20),
            Mark::Ring(130, 120, 70, 20),
        ],
        Shape::Title => vec![
            Mark::Bar(40, 50, 200, 70),
            Mark::Bar(105, 70, 135, 190),
        ],
        Shape::Magnet => vec![
            Mark::Ring(120, 120, 70, 30),
            Mark::Bar(40, 120, 80, 200),
            Mark::Bar(160, 120, 200, 200),
        ],
        Shape::FitScreen => vec![
            Mark::Frame(30, 60, 210, 180, 20),
            Mark::Line(80, 120, 160, 120),
            Mark::Corner(60, 120),
            Mark::Corner(95, 95),
            Mark::Corner(95, 145),
            Mark::Fill,
            Mark::Corner(180, 120),
            Mark::Corner(145, 95),
            Mark::Corner(145, 145),
            Mark::Fill,
        ],
        Shape::Height => vec![
            Mark::Line(120, 50, 120, 190),
            Mark::Corner(120, 30),
            Mark::Corner(85, 75),
            Mark::Corner(155, 75),
            Mark::Fill,
            Mark::Corner(120, 210),
            Mark::Corner(85, 165),
            Mark::Corner(155, 165),
            Mark::Fill,
        ],
        Shape::Undo => vec![
            Mark::Arc(120, 140, -70, -60, 15, 85, 12),
            Mark::Corner(50, 60),
            Mark::Corner(50, 130),
            Mark::Corner(110, 95),
            Mark::Fill,
        ],
        Shape::Redo => vec![
            Mark::Arc(120, 140, 70, -60, 15, 85, 12),
            Mark::Corner(190, 60),
            Mark::Corner(190, 130),
            Mark::Corner(130, 95),
            Mark::Fill,
        ],
        Shape::Home => vec![
            Mark::Corner(120, 30),
            Mark::Corner(220, 120),
            Mark::Corner(20, 120),
            Mark::Fill,
            Mark::Frame(50, 110, 190, 210, 10),
        ],
        Shape::Add => vec![
            Mark::Line(120, 50, 120, 190),
            Mark::Line(50, 120, 190, 120),
        ],
        Shape::Folder => vec![
            Mark::Corner(30, 55),
            Mark::Corner(100, 55),
            Mark::Corner(120, 80),
            Mark::Corner(30, 80),
            Mark::Fill,
            Mark::Frame(30, 70, 210, 190, 20),
        ],
        Shape::Movie => vec![
            Mark::Frame(30, 60, 210, 180, 20),
            Mark::Bar(45, 75, 65, 93),
            Mark::Bar(175, 75, 195, 93),
            Mark::Bar(45, 111, 65, 129),
            Mark::Bar(175, 111, 195, 129),
            Mark::Bar(45, 147, 65, 165),
            Mark::Bar(175, 147, 195, 165),
        ],
        Shape::Music => vec![
            Mark::Ring(85, 170, 30, 20),
            Mark::Line(115, 170, 115, 55),
            Mark::Line(115, 55, 190, 80),
            Mark::Line(115, 95, 190, 120),
        ],
        Shape::NewFolder => vec![
            Mark::Corner(30, 55),
            Mark::Corner(100, 55),
            Mark::Corner(120, 80),
            Mark::Corner(30, 80),
            Mark::Fill,
            Mark::Frame(30, 70, 210, 190, 20),
            Mark::Line(120, 105, 120, 165),
            Mark::Line(90, 135, 150, 135),
        ],
        Shape::Upload => vec![
            Mark::Line(120, 40, 120, 150),
            Mark::Corner(120, 25),
            Mark::Corner(75, 80),
            Mark::Corner(165, 80),
            Mark::Fill,
            Mark::Line(40, 185, 200, 185),
        ],
        Shape::Library => vec![
            Mark::Frame(70, 40, 210, 160, 20),
            Mark::Corner(90, 140),
            Mark::Corner(130, 90),
            Mark::Corner(170, 140),
            Mark::Fill,
            Mark::Line(30, 80, 30, 200),
            Mark::Line(30, 200, 160, 200),
        ],
        Shape::Star => vec![
            Mark::Star(120, 120, 90, 40, 10),
        ],
        Shape::Stop => vec![
            Mark::Bar(60, 60, 180, 180),
        ],
        Shape::Mic => vec![
            Mark::Frame(90, 30, 150, 140, 30),
            Mark::Line(60, 110, 65, 135),
            Mark::Line(180, 110, 175, 135),
            Mark::Line(65, 135, 120, 175),
            Mark::Line(175, 135, 120, 175),
            Mark::Line(120, 175, 120, 210),
        ],
        Shape::Record => vec![
            Mark::Dot(120, 120, 70),
        ],
        Shape::Subtitles => vec![
            Mark::Frame(30, 50, 210, 190, 20),
            Mark::Bar(60, 125, 90, 145),
            Mark::Bar(105, 125, 180, 145),
            Mark::Bar(60, 155, 140, 175),
            Mark::Bar(155, 155, 180, 175),
        ],
        Shape::FolderOpen => vec![
            Mark::Corner(30, 55),
            Mark::Corner(100, 55),
            Mark::Corner(120, 80),
            Mark::Corner(30, 80),
            Mark::Fill,
            Mark::Line(30, 70, 30, 190),
            Mark::Line(30, 70, 190, 70),
            Mark::Corner(30, 190),
            Mark::Corner(65, 110),
            Mark::Corner(220, 110),
            Mark::Corner(185, 190),
            Mark::Outline,
        ],
        Shape::Puzzle => vec![
            Mark::Frame(40, 70, 170, 200, 15),
            Mark::Dot(105, 55, 26),
            Mark::Dot(185, 135, 26),
        ],
        Shape::Refresh => vec![
            Mark::Arc(120, 120, 75, 75, 24, 160, 20),
            Mark::Corner(215, 40),
            Mark::Corner(210, 110),
            Mark::Corner(145, 90),
            Mark::Fill,
        ],
        Shape::History => vec![
            Mark::Arc(120, 120, 75, 75, 24, 160, 20),
            Mark::Corner(25, 80),
            Mark::Corner(85, 85),
            Mark::Corner(45, 130),
            Mark::Fill,
            Mark::Line(120, 80, 120, 125),
            Mark::Line(120, 125, 150, 145),
        ],
        Shape::Warning => vec![
            Mark::Corner(120, 30),
            Mark::Corner(220, 200),
            Mark::Corner(20, 200),
            Mark::Outline,
            Mark::Line(120, 90, 120, 140),
            Mark::Dot(120, 170, 12),
        ],
        Shape::Globe => vec![
            Mark::Ring(120, 120, 90, 20),
            Mark::Line(30, 120, 210, 120),
            Mark::Arc(120, 120, 40, 90, -50, 100, 12),
            Mark::Arc(120, 120, -40, 90, -50, 100, 12),
        ],
        Shape::Move => vec![
            Mark::Line(120, 40, 120, 200),
            Mark::Line(40, 120, 200, 120),
            Mark::Corner(120, 20),
            Mark::Corner(90, 60),
            Mark::Corner(150, 60),
            Mark::Fill,
            Mark::Corner(120, 220),
            Mark::Corner(90, 180),
            Mark::Corner(150, 180),
            Mark::Fill,
            Mark::Corner(20, 120),
            Mark::Corner(60, 90),
            Mark::Corner(60, 150),
            Mark::Fill,
            Mark::Corner(220, 120),
            Mark::Corner(180, 90),
            Mark::Corner(180, 150),
            Mark::Fill,
        ],
        Shape::Gear => vec![
            Mark::Teeth(120, 120, 60, 95, 32, 8),
            Mark::Ring(120, 120, 60, 24),
            Mark::Ring(120, 120, 22, 20),
        ],
        Shape::Save => vec![
            Mark::Frame(40, 40, 200, 200, 20),
            Mark::Bar(70, 50, 150, 90),
            Mark::Ring(120, 145, 25, 20),
        ],
        Shape::Download => vec![
            Mark::Line(120, 30, 120, 140),
            Mark::Corner(120, 165),
            Mark::Corner(75, 110),
            Mark::Corner(165, 110),
            Mark::Fill,
            Mark::Line(40, 195, 200, 195),
        ],
        Shape::Sparkle => vec![
            Mark::Corner(100, 40),
            Mark::Corner(120, 100),
            Mark::Corner(180, 120),
            Mark::Corner(120, 140),
            Mark::Corner(100, 200),
            Mark::Corner(80, 140),
            Mark::Corner(20, 120),
            Mark::Corner(80, 100),
            Mark::Fill,
            Mark::Corner(180, 20),
            Mark::Corner(190, 50),
            Mark::Corner(220, 60),
            Mark::Corner(190, 70),
            Mark::Corner(180, 100),
            Mark::Corner(170, 70),
            Mark::Corner(140, 60),
            Mark::Corner(170, 50),
            Mark::Fill,
        ],
        Shape::Info => vec![
            Mark::Ring(120, 120, 90, 20),
            Mark::Line(120, 110, 120, 170),
            Mark::Dot(120, 75, 13),
        ],
    }
}

/// There's never an empty box: every shape draws something, and all of it is on the grid.
pub proof fn no_empty_boxes(shape: Shape)
    ensures
        drawing(shape).len() > 0,
        forall|i: int| 0 <= i < drawing(shape).len() ==> on_grid(#[trigger] drawing(shape)[i]),
{
}

/// Every outline has at least three corners, and every corner is part of an outline.
pub proof fn outlines_have_corners(shape: Shape, i: int)
    requires
        0 <= i < drawing(shape).len(),
    ensures
        drawing(shape)[i] is Fill || drawing(shape)[i] is Outline ==> i >= 3 && drawing(shape)[i
            - 1] is Corner && drawing(shape)[i - 2] is Corner && drawing(shape)[i - 3] is Corner,
        drawing(shape)[i] is Corner ==> i + 1 < drawing(shape).len() && (drawing(shape)[i
            + 1] is Corner || drawing(shape)[i + 1] is Fill || drawing(shape)[i + 1] is Outline),
{
}

// ---- the font ----

/// The name of a Material Symbols font file, in lower case.
pub open spec fn font_name(lower: Seq<char>) -> bool {
    "materialsymbols"@.is_prefix_of(lower) && (".ttf"@.is_suffix_of(lower) || ".otf"@.is_suffix_of(lower))
}

/// Whether a file of this name, in lower case, is a Material Symbols font.
pub fn is_font(lower: &str) -> (out: bool)
    ensures
        out == font_name(lower@),
{
    starts_with(lower, "materialsymbols") && (ends_with(lower, ".ttf") || ends_with(lower, ".otf"))
}

/// Where a Material Symbols font may be dropped, in the order they're looked for: the fonts
/// folder of the editor's settings (`own`) first, so a font that's put there is used in place
/// of the one that's shipped.
pub fn font_dirs(own: &str) -> (out: Vec<String>)
    ensures
        crate::seqs::views(out@) == seq![own@, "assets/fonts"@],
{
    let mut out: Vec<String> = Vec::new();
    out.push(own.to_owned());
    out.push("assets/fonts".to_owned());
    assert(crate::seqs::views(out@) =~= seq![own@, "assets/fonts"@]);
    out
}

/// The first font among a folder's files, or `None`.
pub open spec fn font_in(names: Seq<Seq<char>>, from: int) -> Option<int>
    decreases names.len() - from,
{
    if from < 0 || from >= names.len() {
        None
    } else if font_name(lowercase_of(names[from])) {
        Some(from)
    } else {
        font_in(names, from + 1)
    }
}

/// Where the font is among the folders looked in (`None`: a folder that can't be read).
pub open spec fn font_at(dirs: Seq<Option<Seq<Seq<char>>>>, from: int) -> Option<(int, int)>
    decreases dirs.len() - from,
{
    if from < 0 || from >= dirs.len() {
        None
    } else {
        match dirs[from] {
            Some(names) => match font_in(names, 0) {
                Some(i) => Some((from, i)),
                None => font_at(dirs, from + 1),
            },
            None => font_at(dirs, from + 1),
        }
    }
}

/// A font in the first folder looked in (the settings' own) is the one that's used, whatever
/// the others hold.
pub proof fn the_first_folder_wins(names: Seq<Seq<char>>, others: Seq<Option<Seq<Seq<char>>>>)
    requires
        font_in(names, 0) is Some,
    ensures
        font_at(seq![Some(names)] + others, 0) == Some((0int, font_in(names, 0)->0)),
{
    assert((seq![Some(names)] + others)[0] == Some(names));
}

/// The files of each folder, by name.
pub open spec fn listings(dirs: Seq<Option<Vec<String>>>) -> Seq<Option<Seq<Seq<char>>>> {
    Seq::new(
        dirs.len(),
        |i: int|
            match dirs[i] {
                Some(names) => Some(crate::seqs::views(names@)),
                None => None,
            },
    )
}

fn find_font(names: &Vec<String>) -> (out: Option<usize>)
    ensures
        match font_in(crate::seqs::views(names@), 0) {
            Some(i) => out == Some(i as usize) && 0 <= i < names@.len(),
            None => out is None,
        },
{
    let ghost all = crate::seqs::views(names@);
    let mut i: usize = 0;
    while i < names.len()
        invariant
            all == crate::seqs::views(names@),
            i <= names@.len(),
            font_in(all, 0) == font_in(all, i as int),
        decreases names@.len() - i,
    {
        assert(all[i as int] == names@[i as int]@);
        let lower = lowercase(names[i].as_str());
        if is_font(lower.as_str()) {
            return Some(i);
        }
        i = i + 1;
    }
    None
}

/// Finds the font among the files of the folders it may be in: the folder, and the file in
/// it. A folder that can't be read is passed over.
pub fn font_path(dirs: &Vec<Option<Vec<String>>>) -> (out: Option<(usize, usize)>)
    ensures
        match font_at(listings(dirs@), 0) {
            Some(at) => out == Some((at.0 as usize, at.1 as usize)) && at.0 < dirs@.len(),
            None => out is None,
        },
{
    let ghost all = listings(dirs@);
    let mut i: usize = 0;
    while i < dirs.len()
        invariant
            all == listings(dirs@),
            i <= dirs@.len(),
            font_at(all, 0) == font_at(all, i as int),
        decreases dirs@.len() - i,
    {
        assert(all[i as int] == match dirs@[i as int] {
            Some(names) => Some(crate::seqs::views(names@)),
            None => None,
        });
        if let Some(names) = &dirs[i] {
            if let Some(k) = find_font(names) {
                return Some((i, k));
            }
        }
        i = i + 1;
    }
    None
}

/// Whether the Material font was found.
pub fn material_font(dirs: &Vec<Option<Vec<String>>>) -> (out: bool)
    ensures
        out == font_at(listings(dirs@), 0) is Some,
{
    font_path(dirs).is_some()
}

/// What's known of which icons the font has.
pub struct Known {
    pub codes: Vec<(char, bool)>,
}

/// The first thing noted of `code`.
pub open spec fn noted(codes: Seq<(char, bool)>, code: char, from: int) -> Option<bool>
    decreases codes.len() - from,
{
    if from < 0 || from >= codes.len() {
        None
    } else if codes[from].0 == code {
        Some(codes[from].1)
    } else {
        noted(codes, code, from + 1)
    }
}

impl Known {
    /// Whether the font has `code`, where that was asked before.
    pub fn recall(&self, code: char) -> (out: Option<bool>)
        ensures
            out == noted(self.codes@, code, 0),
    {
        let mut i: usize = 0;
        while i < self.codes.len()
            invariant
                i <= self.codes@.len(),
                noted(self.codes@, code, 0) == noted(self.codes@, code, i as int),
            decreases self.codes@.len() - i,
        {
            if self.codes[i].0 == code {
                return Some(self.codes[i].1);
            }
            i = i + 1;
        }
        None
    }

    /// Remembers whether the font has `code`.
    pub fn note(&mut self, code: char, has: bool)
        requires
            noted(old(self).codes@, code, 0) is None,
        ensures
            final(self).codes@ == old(self).codes@.push((code, has)),
    {
        self.codes.push((code, has));
    }
}

/// What's noted of one icon is recalled, and what was noted of others stays as it was.
pub proof fn notes_are_recalled(
    codes: Seq<(char, bool)>,
    code: char,
    has: bool,
    other: char,
    from: int,
)
    requires
        0 <= from <= codes.len(),
        noted(codes, code, from) is None,
    ensures
        noted(codes.push((code, has)), code, from) == Some(has),
        other != code ==> noted(codes.push((code, has)), other, from) == noted(codes, other, from),
    decreases codes.len() - from,
{
    let more = codes.push((code, has));
    if from < codes.len() {
        assert(more[from] == codes[from]);
        notes_are_recalled(codes, code, has, other, from + 1);
    } else {
        assert(noted(more, other, from + 1) is None);
    }
}

/// Whether an icon is drawn with the font: the font is there, and has the icon.
pub fn drawn_with_font(font: bool, has: bool) -> (out: bool)
    ensures
        out == (font && has),
{
    font && has
}

/// What an icon button says when pointed at: what it does, and its shortcut if it has one.
pub open spec fn tip_of(tip: Seq<char>, shortcut: Seq<char>) -> Seq<char> {
    if shortcut == ""@ {
        tip
    } else {
        tip + "  ·  "@ + shortcut
    }
}

/// What an icon button says when pointed at (a disabled one, or one with nothing to say,
/// says nothing of its own).
pub fn hover_text(tip: &str, shortcut: &str, enabled: bool) -> (out: Option<String>)
    ensures
        !enabled || tip@ == ""@ ==> out is None,
        enabled && tip@ != ""@ ==> out is Some && (out->0)@ == tip_of(tip@, shortcut@),
{
    if !enabled || same(tip, "") {
        return None;
    }
    if same(shortcut, "") {
        Some(tip.to_owned())
    } else {
        Some(join3(tip, "  ·  ", shortcut))
    }
}

} // verus!
