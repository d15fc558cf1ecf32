//! The format picker: one project, several shapes.
use crate::doc::{FormatVariant, Op, OpModel, SequenceModel, VariantId, VariantModel};
use crate::editor::Editor;
use crate::project::{format_of, Preset};
use crate::seqs::{first_from, first_is_right, first_where, views};
use crate::text::{decimal, join2, join3, number, same, trim, trimmed};
use vstd::prelude::*;

verus! {

/// The short edges offered for a format.
pub open spec fn edge_at(i: int) -> (u32, Seq<char>) {
    if i == 0 {
        (720, "720p"@)
    } else if i == 1 {
        (1080, "1080p"@)
    } else if i == 2 {
        (1440, "1440p"@)
    } else {
        (2160, "4K"@)
    }
}

/// How many there are.
pub const EDGES: u32 = 4;

/// The place of a short edge among those offered.
pub open spec fn edge_place(edge: u32) -> Option<int> {
    if edge == 720 {
        Some(0)
    } else if edge == 1080 {
        Some(1)
    } else if edge == 1440 {
        Some(2)
    } else if edge == 2160 {
        Some(3)
    } else {
        None
    }
}

/// The short edges offered.
pub fn edges() -> (out: Vec<(u32, &'static str)>)
    ensures
        out@.len() == EDGES,
        forall|i: int|
            0 <= i < EDGES ==> (#[trigger] out@[i]).0 == edge_at(i).0 && out@[i].1@ == edge_at(
                i,
            ).1,
{
    vec![(720, "720p"), (1080, "1080p"), (1440, "1440p"), (2160, "4K")]
}

fn place(edge: u32) -> (out: Option<u32>)
    ensures
        match edge_place(edge) {
            Some(i) => out == Some(i as u32),
            None => out is None,
        },
{
    if edge == 720 {
        Some(0)
    } else if edge == 1080 {
        Some(1)
    } else if edge == 1440 {
        Some(2)
    } else if edge == 2160 {
        Some(3)
    } else {
        None
    }
}

/// What a short edge is called.
pub fn edge_label(edge: u32) -> (out: String)
    ensures
        out@ == match edge_place(edge) {
            Some(i) => edge_at(i).1,
            None => decimal(edge as nat) + "p"@,
        },
{
    match place(edge) {
        Some(0) => "720p".to_owned(),
        Some(1) => "1080p".to_owned(),
        Some(2) => "1440p".to_owned(),
        Some(_) => "4K".to_owned(),
        None => join2(number(edge as u64).as_str(), "p"),
    }
}

/// The next edge up or down from one (from 1080, for one that isn't offered), around the ends.
pub open spec fn stepped(edge: u32, up: bool) -> u32 {
    let at = match edge_place(edge) {
        Some(i) => i,
        None => 1,
    };
    edge_at(
        if up {
            (at + 1) % 4
        } else {
            (at + 3) % 4
        },
    ).0
}

/// The next edge up or down.
pub fn step(edge: u32, up: bool) -> (out: u32)
    ensures
        out == stepped(edge, up),
{
    let at: u32 = match place(edge) {
        Some(i) => i,
        None => 1,
    };
    let to: u32 = if up {
        (at + 1) % 4
    } else {
        (at + 3) % 4
    };
    if to == 0 {
        720
    } else if to == 1 {
        1080
    } else if to == 2 {
        1440
    } else {
        2160
    }
}

/// A step down undoes a step up, and a step up a step down, among the edges offered.
pub proof fn stepping_back_undoes_a_step(edge: u32, up: bool)
    requires
        edge_place(edge) is Some,
    ensures
        stepped(stepped(edge, up), !up) == edge,
        edge_place(stepped(edge, up)) is Some,
{
}

/// A side of a custom size, rounded up to even.
pub fn even_up(x: u32) -> (out: u32)
    requires
        x < u32::MAX,
    ensures
        out == x + x % 2,
        out % 2 == 0,
{
    if x % 2 == 0 {
        x
    } else {
        x + 1
    }
}

/// A side of a scaled size, from half of it rounded: even, and at least 2.
pub fn scaled_side(half: u32) -> (out: u32)
    requires
        half <= u32::MAX / 2,
    ensures
        out == if half == 0 {
            2
        } else {
            2 * half
        },
        out % 2 == 0,
{
    if half == 0 {
        2
    } else {
        2 * half
    }
}

/// What a format of a custom size is called: the preset it matches, or its size.
pub fn custom_name(preset: Option<&str>, width: u32, height: u32) -> (out: String)
    ensures
        out@ == match preset {
            Some(name) => name@,
            None => "Custom "@ + decimal(width as nat) + "×"@ + decimal(height as nat),
        },
{
    match preset {
        Some(name) => name.to_owned(),
        None => {
            let head = join3("Custom ", number(width as u64).as_str(), "×");
            join2(head.as_str(), number(height as u64).as_str())
        },
    }
}

/// What a format turned sideways is called: a preset's name follows its new shape, unless the
/// format was renamed. `None`: it keeps its name.
pub fn turned_name(name: &str, was: Option<&str>, becomes: Option<&str>) -> (out: Option<String>)
    ensures
        ({
            let follows = was is Some && becomes is Some && name@ == (was->0)@;
            if follows {
                out is Some && (out->0)@ == (becomes->0)@
            } else {
                out is None
            }
        }),
{
    if let (Some(old_name), Some(new_name)) = (was, becomes) {
        if same(name, old_name) {
            return Some(new_name.to_owned());
        }
    }
    None
}

/// A format's size turned sideways.
pub fn turned(width: u32, height: u32) -> (out: (u32, u32))
    ensures
        out == (height, width),
{
    (height, width)
}

/// The name typed for a format, if it changes anything.
pub fn renamed(typed: &str, name: &str) -> (out: Option<String>)
    ensures
        trimmed(typed@) == ""@ || trimmed(typed@) == name@ ==> out is None,
        trimmed(typed@) != ""@ && trimmed(typed@) != name@ ==> out is Some && (out->0)@ == trimmed(
            typed@,
        ),
{
    let new_name = trim(typed);
    if same(new_name.as_str(), "") || same(new_name.as_str(), name) {
        None
    } else {
        Some(new_name)
    }
}

/// Whether a format can be removed: never the main one.
pub fn removable(formats: usize, i: usize) -> (out: bool)
    ensures
        out == (formats > 1 && i > 0),
{
    formats > 1 && i > 0
}

/// The format that's shown, where there are `formats` of them.
pub fn shown_format(variant: usize, formats: usize) -> (out: usize)
    requires
        formats > 0,
    ensures
        out < formats,
        variant < formats ==> out == variant,
        variant >= formats ==> out == formats - 1,
{
    if variant < formats {
        variant
    } else {
        formats - 1
    }
}

/// What's said of a format when it's pointed at.
pub fn format_tip(i: usize) -> (out: &'static str)
    ensures
        out@ == if i == 0 {
            "The main format: transform edits here apply to every format. Double-click to rename."@
        } else {
            "Edits here change only this format (unless “all formats” is on). Double-click to rename."@
        },
{
    if i == 0 {
        "The main format: transform edits here apply to every format. Double-click to rename."
    } else {
        "Edits here change only this format (unless “all formats” is on). Double-click to rename."
    }
}

// ---- what's done to formats ----

/// Something the picker asks for.
pub enum Action {
    Select(usize),
    /// A format from a preset.
    Add(Preset),
    /// A format of a custom size, and what the preset it matches is called.
    AddCustom { width: u32, height: u32, preset: Option<String> },
    /// Turns a format sideways; what the presets it matches before and after are called.
    Rotate { variant: VariantId, was: Option<String>, becomes: Option<String> },
    Resize { variant: VariantId, width: u32, height: u32 },
    Rename { variant: VariantId, name: String },
    Remove(VariantId),
}

/// Which format is shown once the changes are made.
#[derive(Copy, Clone, Debug, PartialEq, Eq, Structural)]
pub enum Shows {
    /// The one that was.
    Same,
    This(usize),
    /// The one that was, or the last there is (`shown_format`).
    Within,
}

/// What an action comes to: the changes, what their undo step is called, and what's shown.
pub struct Change {
    pub label: &'static str,
    pub ops: Vec<Op>,
    pub shows: Shows,
}

pub open spec fn is_format(id: VariantId) -> spec_fn(VariantModel) -> bool {
    |v: VariantModel| v.id == id
}

/// The format's place.
pub open spec fn format_at(s: SequenceModel, id: VariantId) -> Option<int> {
    first_where(s.variants, is_format(id))
}

fn find_format(variants: &Vec<FormatVariant>, id: VariantId) -> (out: Option<usize>)
    ensures
        match out {
            Some(i) => i < variants@.len() && first_where(views(variants@), is_format(id)) == Some(
                i as int,
            ),
            None => first_where(views(variants@), is_format(id)) is None,
        },
{
    let ghost all = views(variants@);
    let mut i: usize = 0;
    while i < variants.len()
        invariant
            all == views(variants@),
            i <= variants@.len(),
            first_where(all, is_format(id)) == first_from(all, is_format(id), i as int),
        decreases variants@.len() - i,
    {
        assert(all[i as int] == variants@[i as int]@);
        if variants[i].id == id {
            return Some(i);
        }
        i = i + 1;
    }
    None
}

pub open spec fn custom_named(preset: Option<String>, width: u32, height: u32) -> Seq<char> {
    match preset {
        Some(name) => name@,
        None => "Custom "@ + decimal(width as nat) + "×"@ + decimal(height as nat),
    }
}

/// The changes an action makes; `fresh` is the id of a format it adds.
pub open spec fn changed_by(s: SequenceModel, action: Action, fresh: VariantId) -> Seq<OpModel> {
    let seq = s.id;
    match action {
        Action::Select(_) => Seq::empty(),
        Action::Add(preset) => seq![
            OpModel::InsertVariant {
                seq,
                index: s.variants.len() as usize,
                variant: format_of(preset, fresh),
                make_active: false,
            },
        ],
        Action::AddCustom { width, height, preset } => seq![
            OpModel::InsertVariant {
                seq,
                index: s.variants.len() as usize,
                variant: (VariantModel {
                    id: fresh,
                    name: custom_named(preset, width, height),
                    width,
                    height,
                    overrides: Seq::empty(),
                }),
                make_active: false,
            },
        ],
        Action::Rotate { variant, was, becomes } => match format_at(s, variant) {
            None => Seq::empty(),
            Some(i) => {
                let sized = seq![
                    OpModel::SetVariantSize {
                        seq,
                        variant,
                        width: s.variants[i].height,
                        height: s.variants[i].width,
                    },
                ];
                if was is Some && becomes is Some && s.variants[i].name == (was->0)@ {
                    sized.push(OpModel::SetVariantName { seq, variant, name: (becomes->0)@ })
                } else {
                    sized
                }
            },
        },
        Action::Resize { variant, width, height } => seq![
            OpModel::SetVariantSize { seq, variant, width, height },
        ],
        Action::Rename { variant, name } => seq![
            OpModel::SetVariantName { seq, variant, name: name@ },
        ],
        Action::Remove(variant) => seq![OpModel::RemoveVariant { seq, variant }],
    }
}

pub open spec fn shown_after(s: SequenceModel, action: Action) -> Shows {
    match action {
        Action::Select(i) => Shows::This(i),
        Action::Add(_) => Shows::This(s.variants.len() as usize),
        Action::AddCustom { .. } => Shows::This(s.variants.len() as usize),
        Action::Remove(_) => Shows::Within,
        _ => Shows::Same,
    }
}

pub open spec fn action_label(action: Action) -> Seq<char> {
    match action {
        Action::Select(_) => ""@,
        Action::Add(_) => "Add format"@,
        Action::AddCustom { .. } => "Add format"@,
        Action::Rotate { .. } => "Turn format sideways"@,
        Action::Resize { .. } => "Format resolution"@,
        Action::Rename { .. } => "Rename format"@,
        Action::Remove(_) => "Remove format"@,
    }
}

fn as_text(text: &Option<String>) -> (out: Option<&str>)
    ensures
        match text {
            Some(t) => out is Some && (out->0)@ == t@,
            None => out is None,
        },
{
    match text {
        Some(t) => Some(t.as_str()),
        None => None,
    }
}

impl Editor {
    /// What an action of the picker comes to; `fresh` is an id nothing has yet.
    pub fn format_action(&self, action: Action, fresh: VariantId) -> (out: Change)
        ensures
            out.label@ == action_label(action),
            views(out.ops@) == changed_by(self.timeline@, action, fresh),
            out.shows == shown_after(self.timeline@, action),
    {
        let seq = self.timeline.id;
        let ghost s = self.timeline@;
        let ghost want = changed_by(s, action, fresh);
        let mut ops: Vec<Op> = Vec::new();
        assert(views(self.timeline.variants@).len() == self.timeline.variants@.len());
        let (label, shows) = match action {
            Action::Select(i) => ("", Shows::This(i)),
            Action::Add(preset) => {
                let (index, variant) = self.add_variant(&preset, fresh);
                ops.push(Op::InsertVariant { seq, index, variant, make_active: false });
                ("Add format", Shows::This(index))
            },
            Action::AddCustom { width, height, preset } => {
                let index: usize = self.timeline.variants.len();
                let name = custom_name(as_text(&preset), width, height);
                let variant = FormatVariant { id: fresh, name, width, height, overrides: Vec::new() };
                assert(variant@.overrides =~= Seq::empty());
                ops.push(Op::InsertVariant { seq, index, variant, make_active: false });
                ("Add format", Shows::This(index))
            },
            Action::Rotate { variant, was, becomes } => {
                if let Some(i) = find_format(&self.timeline.variants, variant) {
                    let v = &self.timeline.variants[i];
                    assert(s.variants[i as int] == v@);
                    let (width, height) = turned(v.width, v.height);
                    ops.push(Op::SetVariantSize { seq, variant, width, height });
                    if let Some(name) = turned_name(v.name.as_str(), as_text(&was), as_text(&becomes)) {
                        ops.push(Op::SetVariantName { seq, variant, name });
                    }
                }
                ("Turn format sideways", Shows::Same)
            },
            Action::Resize { variant, width, height } => {
                ops.push(Op::SetVariantSize { seq, variant, width, height });
                ("Format resolution", Shows::Same)
            },
            Action::Rename { variant, name } => {
                ops.push(Op::SetVariantName { seq, variant, name });
                ("Rename format", Shows::Same)
            },
            Action::Remove(variant) => {
                ops.push(Op::RemoveVariant { seq, variant });
                ("Remove format", Shows::Within)
            },
        };
        assert(views(ops@) =~= want);
        Change { label, ops, shows }
    }
}

/// A format turned sideways twice has the size it had.
pub proof fn turning_twice_changes_nothing(s: SequenceModel, variant: VariantId, fresh: VariantId)
    requires
        format_at(s, variant) is Some,
    ensures
        ({
            let i = format_at(s, variant)->0;
            let turn = Action::Rotate { variant, was: None, becomes: None };
            let once = changed_by(s, turn, fresh)[0];
            let after = SequenceModel {
                variants: s.variants.update(
                    i,
                    (VariantModel {
                        width: once->SetVariantSize_width,
                        height: once->SetVariantSize_height,
                        ..s.variants[i]
                    }),
                ),
                ..s
            };
            changed_by(after, turn, fresh)[0] == (OpModel::SetVariantSize {
                seq: s.id,
                variant,
                width: s.variants[i].width,
                height: s.variants[i].height,
            })
        }),
{
    let i = format_at(s, variant)->0;
    first_is_right(s.variants, is_format(variant), 0);
    let after = SequenceModel {
        variants: s.variants.update(
            i,
            (VariantModel { width: s.variants[i].height, height: s.variants[i].width, ..s.variants[i] }),
        ),
        ..s
    };
    first_is_right(after.variants, is_format(variant), 0);
    assert(after.variants[i].id == variant);
    assert forall|k: int| 0 <= k < i implies (#[trigger] after.variants[k]).id != variant by {
        assert(after.variants[k] == s.variants[k]);
        assert(!is_format(variant)(s.variants[k]));
    }
    assert(is_format(variant)(after.variants[i]));
    assert(format_at(after, variant) == Some(i));
}

} // verus!
