//! How a file's colors are read: what the controls say and offer, and what picking asks for.
use crate::doc::{MediaId, Op, OpModel, Source};
use crate::editor::{Edit, Editor};
use crate::seqs::views;
use crate::text::{join3, same};
use vstd::prelude::*;

verus! {

/// Which of a file's values are black and white.
#[derive(Copy, Clone, Debug, PartialEq, Eq, Structural)]
pub enum Range {
    Auto,
    Limited,
    Full,
}

/// How a file's brightness and color are told apart.
#[derive(Copy, Clone, Debug, PartialEq, Eq, Structural)]
pub enum Matrix {
    Auto,
    Bt601,
    Bt709,
    Bt2020,
}

/// A curve from a file's values to light, by number (0: the file says).
#[derive(Copy, Clone, Debug, PartialEq, Eq, Structural)]
pub struct Transfer(pub u32);

/// The colors a file can hold, by number (0: the file says).
#[derive(Copy, Clone, Debug, PartialEq, Eq, Structural)]
pub struct Gamut(pub u32);

/// How a file's values are read as light.
#[derive(Copy, Clone, Debug, PartialEq, Eq, Structural)]
pub struct InputColor {
    pub transfer: Transfer,
    pub gamut: Gamut,
    pub range: Range,
    pub matrix: Matrix,
    /// How much brighter it's made, by number (0: not at all).
    pub exposure: u64,
}

/// As the file's own tags say.
pub open spec fn automatic() -> InputColor {
    InputColor {
        transfer: Transfer(0),
        gamut: Gamut(0),
        range: Range::Auto,
        matrix: Matrix::Auto,
        exposure: 0,
    }
}

impl Default for InputColor {
    fn default() -> (out: Self)
        ensures
            out == automatic(),
    {
        InputColor {
            transfer: Transfer(0),
            gamut: Gamut(0),
            range: Range::Auto,
            matrix: Matrix::Auto,
            exposure: 0,
        }
    }
}

/// What's picked for a file in its menu.
#[derive(Copy, Clone, Debug, PartialEq, Eq, Structural)]
pub enum ColorPick {
    Transfer(Transfer),
    Gamut(Gamut),
    Range(Range),
    Matrix(Matrix),
    /// Back to the file's own tags.
    Reset,
}

impl InputColor {
    /// The colors with what's picked.
    pub open spec fn with(self, pick: ColorPick) -> InputColor {
        match pick {
            ColorPick::Transfer(transfer) => InputColor { transfer, ..self },
            ColorPick::Gamut(gamut) => InputColor { gamut, ..self },
            ColorPick::Range(range) => InputColor { range, ..self },
            ColorPick::Matrix(matrix) => InputColor { matrix, ..self },
            ColorPick::Reset => automatic(),
        }
    }

    /// The colors with what's picked.
    pub fn picked(self, pick: ColorPick) -> (out: InputColor)
        ensures
            out == self.with(pick),
    {
        match pick {
            ColorPick::Transfer(transfer) => InputColor { transfer, ..self },
            ColorPick::Gamut(gamut) => InputColor { gamut, ..self },
            ColorPick::Range(range) => InputColor { range, ..self },
            ColorPick::Matrix(matrix) => InputColor { matrix, ..self },
            ColorPick::Reset => InputColor::default(),
        }
    }

    /// Whether the menu offers to go back to the file's own tags: not where they're used.
    pub fn can_reset(&self) -> (out: bool)
        ensures
            out == (*self != automatic()),
    {
        *self != InputColor::default()
    }
}

/// Resetting undoes every pick, and leaves nothing to reset.
pub proof fn resetting_undoes_picks(color: InputColor, pick: ColorPick)
    ensures
        color.with(pick).with(ColorPick::Reset) == automatic(),
        color.with(pick).with(pick) == color.with(pick),
{
}

/// What the document is asked for when a file's colors are to be read as `color`: one step, or
/// with `drag` one that goes on until it's sealed.
pub open spec fn asks_for_color(edit: Edit, media: MediaId, color: InputColor, drag: bool) -> bool {
    &&& edit.label@ == "Source color"@
    &&& if drag {
        edit.key matches Some(k) && k@ == "source-color"@
    } else {
        edit.key is None
    }
    &&& views(edit.ops@) == seq![OpModel::SetMediaColor { media, color }]
}

/// Reads the file's colors as `color`.
pub fn set_media_color(media: MediaId, color: InputColor, drag: bool) -> (out: Edit)
    ensures
        asks_for_color(out, media, color, drag),
{
    let ops = vec![Op::SetMediaColor { media, color }];
    assert(views(ops@) =~= seq![OpModel::SetMediaColor { media, color }]);
    Edit {
        label: "Source color".to_owned(),
        key: if drag {
            Some("source-color".to_owned())
        } else {
            None
        },
        ops,
    }
}

/// What's picked in a file's color menu is one step.
pub fn pick_color(media: MediaId, color: InputColor, pick: ColorPick) -> (out: Edit)
    ensures
        asks_for_color(out, media, color.with(pick), false),
{
    set_media_color(media, color.picked(pick), false)
}

/// How the exposure's slider is held.
#[derive(Copy, Clone, Debug, PartialEq, Eq, Structural)]
pub struct Held {
    pub dragged: bool,
    pub focused: bool,
    pub let_go: bool,
    /// It lost the keyboard.
    pub left: bool,
}

/// What the clip's own color section asks for: nothing while it stays as it is, and a step
/// that goes on while the exposure is dragged or typed. Also whether the step is sealed.
pub fn section_color(media: MediaId, color: InputColor, next: InputColor, slider: Held) -> (out: (
    Option<Edit>,
    bool,
))
    ensures
        match out.0 {
            Some(edit) => next != color && asks_for_color(
                edit,
                media,
                next,
                slider.dragged || slider.focused,
            ),
            None => next == color,
        },
        out.1 == (slider.let_go || slider.left),
{
    let edit = if next == color {
        None
    } else {
        Some(set_media_color(media, next, slider.dragged || slider.focused))
    };
    (edit, slider.let_go || slider.left)
}

/// What the levels are called.
pub fn range_label(range: Range) -> (out: &'static str)
    ensures
        out@ == match range {
            Range::Auto => "Automatic (from the file)"@,
            Range::Limited => "Video (16–235)"@,
            Range::Full => "Full (0–255)"@,
        },
{
    match range {
        Range::Auto => "Automatic (from the file)",
        Range::Limited => "Video (16–235)",
        Range::Full => "Full (0–255)",
    }
}

/// What the matrices are called.
pub fn matrix_label(matrix: Matrix) -> (out: &'static str)
    ensures
        out@ == match matrix {
            Matrix::Auto => "Automatic (from the file)"@,
            Matrix::Bt601 => "BT.601 (SD)"@,
            Matrix::Bt709 => "BT.709 (HD)"@,
            Matrix::Bt2020 => "BT.2020 (UHD / HDR)"@,
        },
{
    match matrix {
        Matrix::Auto => "Automatic (from the file)",
        Matrix::Bt601 => "BT.601 (SD)",
        Matrix::Bt709 => "BT.709 (HD)",
        Matrix::Bt2020 => "BT.2020 (UHD / HDR)",
    }
}

/// What a choice is called: picking it automatically says what that comes to.
pub fn choice_label(automatic: bool, label: &str, resolved: &str) -> (out: String)
    ensures
        out@ == if automatic {
            "Automatic ("@ + resolved@ + ")"@
        } else {
            label@
        },
{
    if automatic {
        join3("Automatic (", resolved, ")")
    } else {
        label.to_owned()
    }
}

/// What a tone map is called; `off` is whether picking it automatically turns it off.
pub fn tone_map_label(mode: &str, off: bool) -> (out: String)
    ensures
        out@ == if mode@ == "off"@ {
            "Off (clip at white)"@
        } else if mode@ == "soft"@ {
            "Soft highlights"@
        } else if mode@ == "filmic"@ {
            "Filmic"@
        } else {
            "Automatic ("@ + (if off {
                "off"@
            } else {
                "soft"@
            }) + ")"@
        },
{
    if same(mode, "off") {
        "Off (clip at white)".to_owned()
    } else if same(mode, "soft") {
        "Soft highlights".to_owned()
    } else if same(mode, "filmic") {
        "Filmic".to_owned()
    } else {
        join3(
            "Automatic (",
            if off {
                "off"
            } else {
                "soft"
            },
            ")",
        )
    }
}

/// What the document is asked for when one of the timeline's settings is to be stored: a step
/// that's called by what's dragged, and goes on until it's sealed.
pub open spec fn asks_for_setting(
    edit: Edit,
    editor: Editor,
    key: Seq<char>,
    setting: Seq<char>,
    source: Source,
) -> bool {
    &&& edit.label@ == key
    &&& (edit.key matches Some(k) && k@ == key)
    &&& views(edit.ops@) == seq![
        OpModel::SetSequenceParam {
            seq: editor.timeline@.id,
            param: setting,
            source: Some(source),
        },
    ]
}

fn set_output(
    editor: &Editor,
    key: &str,
    setting: &str,
    stored: bool,
    plain: Source,
    written: Source,
) -> (out: Edit)
    ensures
        asks_for_setting(
            out,
            *editor,
            key@,
            setting@,
            if stored {
                written
            } else {
                plain
            },
        ),
{
    let op = editor.set_sequence_value(setting, stored, plain, written);
    let ghost model = op@;
    let ops = vec![op];
    assert(views(ops@) =~= seq![model]);
    Edit { label: key.to_owned(), key: Some(key.to_owned()), ops }
}

/// Picks the timeline's tone map, stored under `setting`: nothing is asked for where it's the
/// one it has. The step is sealed at once.
pub fn pick_tone_map(
    editor: &Editor,
    setting: &str,
    current: &str,
    chosen: &str,
    stored: bool,
    plain: Source,
    written: Source,
) -> (out: Option<Edit>)
    ensures
        match out {
            Some(edit) => chosen@ != current@ && asks_for_setting(
                edit,
                *editor,
                "output-tone-map"@,
                setting@,
                if stored {
                    written
                } else {
                    plain
                },
            ),
            None => chosen@ == current@,
        },
{
    if same(chosen, current) {
        None
    } else {
        Some(set_output(editor, "output-tone-map", setting, stored, plain, written))
    }
}

/// Makes the whole picture brighter or darker: a step that goes on while the slider is held.
pub fn set_exposure(editor: &Editor, setting: &str, stored: bool, plain: Source, written: Source) -> (out:
    Edit)
    ensures
        asks_for_setting(
            out,
            *editor,
            "output-exposure"@,
            setting@,
            if stored {
                written
            } else {
                plain
            },
        ),
{
    set_output(editor, "output-exposure", setting, stored, plain, written)
}

/// What's said of a file's color; `high` is whether its highlights go past white.
pub fn source_hint(high: bool) -> (out: &'static str)
    ensures
        out@ == if high {
            "HDR / log: its highlights go past white, so the output tone maps them (Output, with nothing selected)."@
        } else {
            "Applies to every clip of this file. Levels and matrix: right-click the file."@
        },
{
    if high {
        "HDR / log: its highlights go past white, so the output tone maps them (Output, with nothing selected)."
    } else {
        "Applies to every clip of this file. Levels and matrix: right-click the file."
    }
}

} // verus!
