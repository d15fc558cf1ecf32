//! A new project, and the changes that are made to it as a whole.
use crate::doc::{
    FormatVariant, Item, ItemModel, Op, OpModel, SeqId, Sequence, SequenceModel, Track, TrackId, TrackKind,
    VariantId, VariantModel,
};
use crate::editor::Editor;
use crate::seqs::views;
use vstd::prelude::*;

verus! {

/// A format a timeline can have.
pub struct Preset {
    pub name: String,
    pub width: u32,
    pub height: u32,
}

/// The format of a preset, with nothing of its own yet.
pub open spec fn format_of(preset: Preset, id: VariantId) -> VariantModel {
    VariantModel {
        id,
        name: preset.name@,
        width: preset.width,
        height: preset.height,
        overrides: Seq::empty(),
    }
}

fn make_format(preset: &Preset, id: VariantId) -> (out: FormatVariant)
    ensures
        out@ == format_of(*preset, id),
{
    let out = FormatVariant {
        id,
        name: preset.name.clone(),
        width: preset.width,
        height: preset.height,
        overrides: Vec::new(),
    };
    assert(out@ =~= format_of(*preset, id));
    out
}

/// The timeline of a new project: a video and an audio track, in three formats, 30 frames a
/// second.
pub open spec fn new_timeline(
    ids: Seq<u64>,
    background: ItemModel,
    wide: Preset,
    tall: Preset,
    square: Preset,
) -> SequenceModel {
    SequenceModel {
        id: SeqId(ids[0]),
        name: "Main"@,
        rate_num: 30,
        rate_den: 1,
        active: 0,
        variants: seq![
            format_of(wide, VariantId(ids[3])),
            format_of(tall, VariantId(ids[4])),
            format_of(square, VariantId(ids[5])),
        ],
        tracks: seq![
            Track::empty(TrackId(ids[1]), "V1"@, TrackKind::Video, false),
            Track::empty(TrackId(ids[2]), "A1"@, TrackKind::Audio, false),
        ],
        background,
        dividers: 0,
    }
}

impl Editor {
    /// An empty project, with nothing to save. `ids` are ids nothing has yet, `snapshot`
    /// the number of the project as it is.
    pub fn new(
        ids: &Vec<u64>,
        background: Item,
        wide: &Preset,
        tall: &Preset,
        square: &Preset,
        snapshot: u64,
    ) -> (out: Editor)
        requires
            ids@.len() >= 6,
        ensures
            out.timeline@ == new_timeline(ids@, background@, *wide, *tall, *square),
            out.video_track == TrackId(ids@[1]),
            out.audio_track == TrackId(ids@[2]),
            out.pool@.len() == 0,
            out.file is None,
            out.snapshot == snapshot,
            out.saved == Some(snapshot),
            out.linked@.len() == 0,
            !out.is_dirty(),
    {
        let variants = vec![
            make_format(wide, VariantId(ids[3])),
            make_format(tall, VariantId(ids[4])),
            make_format(square, VariantId(ids[5])),
        ];
        let tracks = vec![
            Track::new(TrackId(ids[1]), "V1".to_owned(), TrackKind::Video, false),
            Track::new(TrackId(ids[2]), "A1".to_owned(), TrackKind::Audio, false),
        ];
        let ghost want = new_timeline(ids@, background@, *wide, *tall, *square);
        assert(views(variants@) =~= want.variants);
        assert(views(tracks@) =~= want.tracks);
        let timeline = Sequence {
            id: SeqId(ids[0]),
            name: "Main".to_owned(),
            rate_num: 30,
            rate_den: 1,
            active: 0,
            variants,
            tracks,
            background,
            dividers: 0,
        };
        Editor {
            timeline,
            video_track: TrackId(ids[1]),
            audio_track: TrackId(ids[2]),
            pool: Vec::new(),
            file: None,
            snapshot,
            saved: Some(snapshot),
            linked: Vec::new(),
        }
    }

    /// A new format, after the others: its place, and the format.
    pub fn add_variant(&self, preset: &Preset, id: VariantId) -> (out: (usize, FormatVariant))
        ensures
            out.0 == self.timeline.variants@.len(),
            out.1@ == format_of(*preset, id),
    {
        (self.timeline.variants.len(), make_format(preset, id))
    }

    /// The change that deletes a compound clip (the document refuses it while a clip uses
    /// it).
    pub fn remove_compound(seq: SeqId) -> (out: Op)
        ensures
            out@ == (OpModel::RemoveSequence { seq }),
    {
        Op::RemoveSequence { seq }
    }

    /// The change that renames a track.
    pub fn rename_track(&self, track: TrackId, name: String) -> (out: Op)
        ensures
            out@ == (OpModel::SetTrackName { seq: self.timeline@.id, track, name: name@ }),
    {
        Op::SetTrackName { seq: self.timeline.id, track, name }
    }
}

/// What the undo step of cutting clips is called: `clips` of them, or (`None`) every clip
/// under the playhead.
pub fn split_label(clips: Option<usize>) -> (out: &'static str)
    ensures
        out@ == match clips {
            None => "Split"@,
            Some(n) => if n == 1 {
                "Split clip"@
            } else {
                "Split clips"@
            },
        },
{
    match clips {
        None => "Split",
        Some(n) => if n == 1 {
            "Split clip"
        } else {
            "Split clips"
        },
    }
}

} // verus!
