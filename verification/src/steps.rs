//! The undo steps: what each is called, and which of them join with the one before.
use crate::doc::Op;
use crate::editor::Edit;
use vstd::prelude::*;

verus! {

/// What a step of the document is for.
pub enum Step {
    ImportMedia,
    RelinkMedia,
    AddClip,
    AddText,
    AddTrack,
    AddEffectTrack,
    AddContainer,
    NestClips,
    MakeCompound,
    DeleteCompound,
    Keyframing,
    NewFolder,
    DeleteFolder,
    MoveToFolder,
    AddCaptions,
    Delete,
    Group,
    Ungroup,
    EnableClips,
    DisableClips,
    ExtractAudio,
    PasteTransform,
    PasteEffects,
    PasteEffectSettings,
    AddDivider,
    RenameTrack,
    MoveTrack,
    DeleteTrack,
    ResetSurface,
    /// One for each clip that's taken out; they join.
    RippleDelete,
    /// One for each clip that's broken apart; they join.
    BreakApart,
    /// One for each moment of a drag, as all below; they join until they're sealed.
    Crop,
    ClipSpeed,
    EffectDuration,
    /// Of an effect of the sound.
    SoundDuration,
    /// From here on they're called by what's dragged.
    KeyframeLine,
    KeyframeLineKey,
    Curve,
    Blend,
    TextContent,
    TextAlign,
    TextFont,
    BoundedUnit,
    KeepPitch,
    BackgroundMode,
    BackgroundTexture,
    BackgroundColor,
    /// Moving a clip on the canvas: one of its transform's settings.
    Transform(String),
    /// Any other setting, by its name.
    Setting(String),
}

impl Step {
    /// What it's called.
    pub open spec fn label(self) -> Seq<char> {
        match self {
            Step::ImportMedia => "Import media"@,
            Step::RelinkMedia => "Relink media"@,
            Step::AddClip => "Add clip"@,
            Step::AddText => "Add text"@,
            Step::AddTrack => "Add track"@,
            Step::AddEffectTrack => "Add effect track"@,
            Step::AddContainer => "Add effect container"@,
            Step::NestClips => "Nest clips"@,
            Step::MakeCompound => "Make compound clip"@,
            Step::DeleteCompound => "Delete compound clip"@,
            Step::Keyframing => "Keyframing"@,
            Step::NewFolder => "New folder"@,
            Step::DeleteFolder => "Delete folder"@,
            Step::MoveToFolder => "Move to folder"@,
            Step::AddCaptions => "Add captions"@,
            Step::Delete => "Delete"@,
            Step::Group => "Group"@,
            Step::Ungroup => "Ungroup"@,
            Step::EnableClips => "Enable clips"@,
            Step::DisableClips => "Disable clips"@,
            Step::ExtractAudio => "Extract audio"@,
            Step::PasteTransform => "Paste transform"@,
            Step::PasteEffects => "Paste effects"@,
            Step::PasteEffectSettings => "Paste effect settings"@,
            Step::AddDivider => "Add divider"@,
            Step::RenameTrack => "Rename track"@,
            Step::MoveTrack => "Move track"@,
            Step::DeleteTrack => "Delete track"@,
            Step::ResetSurface => "Reset surface"@,
            Step::RippleDelete => "Ripple delete"@,
            Step::BreakApart => "Break apart"@,
            Step::Crop => "Crop"@,
            Step::ClipSpeed => "Clip speed"@,
            Step::EffectDuration => "Effect duration"@,
            Step::SoundDuration => "Effect duration"@,
            Step::KeyframeLine => "keyframe-line"@,
            Step::KeyframeLineKey => "keyframe-line-key"@,
            Step::Curve => "curve-editor"@,
            Step::Blend => "blend"@,
            Step::TextContent => "text-content"@,
            Step::TextAlign => "text-align"@,
            Step::TextFont => "text-font"@,
            Step::BoundedUnit => "bounded-unit"@,
            Step::KeepPitch => "keep-pitch"@,
            Step::BackgroundMode => "background-mode"@,
            Step::BackgroundTexture => "background-texture"@,
            Step::BackgroundColor => "background-color"@,
            Step::Transform(_) => "Transform"@,
            Step::Setting(param) => param@,
        }
    }

    /// What it joins with: a step before it with the same key that isn't sealed (`None`: it
    /// stands alone).
    pub open spec fn key(self) -> Option<Seq<char>> {
        match self {
            Step::RippleDelete => Some("ripple-delete-selection"@),
            Step::BreakApart => Some("break-apart"@),
            Step::Crop => Some("viewer-crop"@),
            Step::ClipSpeed => Some("clip-speed"@),
            Step::EffectDuration => Some("in-out-duration"@),
            Step::SoundDuration => Some("sound-fx-duration"@),
            Step::KeyframeLine => Some("keyframe-line"@),
            Step::KeyframeLineKey => Some("keyframe-line-key"@),
            Step::Curve => Some("curve-editor"@),
            Step::Blend => Some("blend"@),
            Step::TextContent => Some("text-content"@),
            Step::TextAlign => Some("text-align"@),
            Step::TextFont => Some("text-font"@),
            Step::BoundedUnit => Some("bounded-unit"@),
            Step::KeepPitch => Some("keep-pitch"@),
            Step::BackgroundMode => Some("background-mode"@),
            Step::BackgroundTexture => Some("background-texture"@),
            Step::BackgroundColor => Some("background-color"@),
            Step::Transform(param) => Some(param@),
            Step::Setting(param) => Some(param@),
            _ => None,
        }
    }

    /// What the document is asked for: the changes as one step (nothing without changes).
    pub fn of(self, ops: Vec<Op>) -> (out: Option<Edit>)
        ensures
            match out {
                Some(e) => {
                    &&& ops@.len() > 0
                    &&& e.label@ == self.label()
                    &&& match self.key() {
                        Some(key) => e.key matches Some(k) && k@ == key,
                        None => e.key is None,
                    }
                    &&& e.ops == ops
                },
                None => ops@.len() == 0,
            },
    {
        if ops.len() == 0 {
            return None;
        }
        let (label, key): (String, Option<String>) = match self {
            Step::ImportMedia => ("Import media".to_owned(), None),
            Step::RelinkMedia => ("Relink media".to_owned(), None),
            Step::AddClip => ("Add clip".to_owned(), None),
            Step::AddText => ("Add text".to_owned(), None),
            Step::AddTrack => ("Add track".to_owned(), None),
            Step::AddEffectTrack => ("Add effect track".to_owned(), None),
            Step::AddContainer => ("Add effect container".to_owned(), None),
            Step::NestClips => ("Nest clips".to_owned(), None),
            Step::MakeCompound => ("Make compound clip".to_owned(), None),
            Step::DeleteCompound => ("Delete compound clip".to_owned(), None),
            Step::Keyframing => ("Keyframing".to_owned(), None),
            Step::NewFolder => ("New folder".to_owned(), None),
            Step::DeleteFolder => ("Delete folder".to_owned(), None),
            Step::MoveToFolder => ("Move to folder".to_owned(), None),
            Step::AddCaptions => ("Add captions".to_owned(), None),
            Step::Delete => ("Delete".to_owned(), None),
            Step::Group => ("Group".to_owned(), None),
            Step::Ungroup => ("Ungroup".to_owned(), None),
            Step::EnableClips => ("Enable clips".to_owned(), None),
            Step::DisableClips => ("Disable clips".to_owned(), None),
            Step::ExtractAudio => ("Extract audio".to_owned(), None),
            Step::PasteTransform => ("Paste transform".to_owned(), None),
            Step::PasteEffects => ("Paste effects".to_owned(), None),
            Step::PasteEffectSettings => ("Paste effect settings".to_owned(), None),
            Step::AddDivider => ("Add divider".to_owned(), None),
            Step::RenameTrack => ("Rename track".to_owned(), None),
            Step::MoveTrack => ("Move track".to_owned(), None),
            Step::DeleteTrack => ("Delete track".to_owned(), None),
            Step::ResetSurface => ("Reset surface".to_owned(), None),
            Step::RippleDelete => (
                "Ripple delete".to_owned(),
                Some("ripple-delete-selection".to_owned()),
            ),
            Step::BreakApart => ("Break apart".to_owned(), Some("break-apart".to_owned())),
            Step::Crop => ("Crop".to_owned(), Some("viewer-crop".to_owned())),
            Step::ClipSpeed => ("Clip speed".to_owned(), Some("clip-speed".to_owned())),
            Step::EffectDuration => (
                "Effect duration".to_owned(),
                Some("in-out-duration".to_owned()),
            ),
            Step::SoundDuration => (
                "Effect duration".to_owned(),
                Some("sound-fx-duration".to_owned()),
            ),
            Step::KeyframeLine => ("keyframe-line".to_owned(), Some("keyframe-line".to_owned())),
            Step::KeyframeLineKey => (
                "keyframe-line-key".to_owned(),
                Some("keyframe-line-key".to_owned()),
            ),
            Step::Curve => ("curve-editor".to_owned(), Some("curve-editor".to_owned())),
            Step::Blend => ("blend".to_owned(), Some("blend".to_owned())),
            Step::TextContent => ("text-content".to_owned(), Some("text-content".to_owned())),
            Step::TextAlign => ("text-align".to_owned(), Some("text-align".to_owned())),
            Step::TextFont => ("text-font".to_owned(), Some("text-font".to_owned())),
            Step::BoundedUnit => ("bounded-unit".to_owned(), Some("bounded-unit".to_owned())),
            Step::KeepPitch => ("keep-pitch".to_owned(), Some("keep-pitch".to_owned())),
            Step::BackgroundMode => (
                "background-mode".to_owned(),
                Some("background-mode".to_owned()),
            ),
            Step::BackgroundTexture => (
                "background-texture".to_owned(),
                Some("background-texture".to_owned()),
            ),
            Step::BackgroundColor => (
                "background-color".to_owned(),
                Some("background-color".to_owned()),
            ),
            Step::Transform(param) => ("Transform".to_owned(), Some(param)),
            Step::Setting(param) => (param.clone(), Some(param)),
        };
        Some(Edit { label, key, ops })
    }
}

/// The step that turns clips off or on: on where all of them were off.
pub fn enabling(all_off: bool) -> (out: Step)
    ensures
        out == if all_off {
            Step::EnableClips
        } else {
            Step::DisableClips
        },
{
    if all_off {
        Step::EnableClips
    } else {
        Step::DisableClips
    }
}

/// The step that makes a compound clip of copies of clips, or (`nest`) in place of them.
pub fn compounding(nest: bool) -> (out: Step)
    ensures
        out == if nest {
            Step::NestClips
        } else {
            Step::MakeCompound
        },
{
    if nest {
        Step::NestClips
    } else {
        Step::MakeCompound
    }
}

} // verus!
