//! Editing inside a compound clip: its own timeline takes over the editor, and a trail leads
//! back out.
use crate::doc::{
    item_of, ItemId, ItemKind, ItemModel, SeqId, Sequence, SequenceModel, Time, TrackId,
    TrackKind, TrackModel, VariantId,
};
use crate::editor::Editor;
use crate::selection::Selection;
use crate::seqs::{first_from, first_where};
use vstd::prelude::*;

verus! {

/// Where the editor is: the timeline that's open, its tracks, format and moment.
#[derive(Copy, Clone, Debug, PartialEq, Eq, Structural)]
pub struct Place {
    pub seq: SeqId,
    pub video_track: TrackId,
    pub audio_track: TrackId,
    pub variant: usize,
    pub playhead: Time,
}

/// Where the editor was before stepping into a compound clip, and which clip that was.
#[derive(Copy, Clone, Debug, PartialEq, Eq, Structural)]
pub struct Crumb {
    pub place: Place,
    pub item: ItemId,
}

/// Where the editor is, and the way back out.
pub struct Trail {
    pub here: Place,
    pub crumbs: Vec<Crumb>,
}

/// A track of a kind.
pub open spec fn of_kind(kind: TrackKind) -> spec_fn(TrackModel) -> bool {
    |t: TrackModel| t.kind == kind
}

/// The first track of a kind.
pub open spec fn first_track(s: SequenceModel, kind: TrackKind) -> Option<TrackId> {
    match first_where(s.tracks, of_kind(kind)) {
        Some(i) => Some(s.tracks[i].id),
        None => None,
    }
}

/// The tracks that are edited in a compound: its first video track (or its first of any kind)
/// and its first audio track (or the same one).
pub open spec fn tracks_in(s: SequenceModel) -> Option<(TrackId, TrackId)> {
    let video = match first_track(s, TrackKind::Video) {
        Some(t) => Some(t),
        None => if s.tracks.len() > 0 {
            Some(s.tracks[0].id)
        } else {
            None
        },
    };
    match video {
        Some(v) => Some(
            (
                v,
                match first_track(s, TrackKind::Audio) {
                    Some(a) => a,
                    None => v,
                },
            ),
        ),
        None => None,
    }
}

fn find_track(s: &Sequence, kind: TrackKind) -> (out: Option<TrackId>)
    ensures
        out == first_track(s@, kind),
{
    let ghost all = s@.tracks;
    let ghost p = of_kind(kind);
    let mut i: usize = 0;
    while i < s.tracks.len()
        invariant
            all == s@.tracks,
            p == of_kind(kind),
            i <= s.tracks@.len(),
            first_where(all, p) == first_from(all, p, i as int),
        decreases s.tracks@.len() - i,
    {
        assert(all[i as int] == s.tracks@[i as int]@);
        if s.tracks[i].kind == kind {
            return Some(s.tracks[i].id);
        }
        i = i + 1;
    }
    None
}

/// The tracks that are edited in a compound. `None`: it has no tracks to edit.
pub fn edit_tracks(s: &Sequence) -> (out: Option<(TrackId, TrackId)>)
    ensures
        out == tracks_in(s@),
{
    let video = match find_track(s, TrackKind::Video) {
        Some(t) => Some(t),
        None => if s.tracks.len() > 0 {
            assert(s@.tracks[0] == s.tracks@[0]@);
            Some(s.tracks[0].id)
        } else {
            None
        },
    };
    match video {
        Some(v) => Some(
            (
                v,
                match find_track(s, TrackKind::Audio) {
                    Some(a) => a,
                    None => v,
                },
            ),
        ),
        None => None,
    }
}

/// How many levels are really left.
pub open spec fn depth(crumbs: Seq<Crumb>, levels: usize) -> int {
    if levels < crumbs.len() {
        levels as int
    } else {
        crumbs.len() as int
    }
}

/// Where the editor is after stepping out of `levels` compound clips.
pub open spec fn stepped_out(here: Place, crumbs: Seq<Crumb>, levels: usize) -> (Place, Seq<Crumb>) {
    let n = depth(crumbs, levels);
    if n == 0 {
        (here, crumbs)
    } else {
        (crumbs[crumbs.len() - n].place, crumbs.take(crumbs.len() - n))
    }
}

/// Where the editor is after stepping into a compound clip.
pub open spec fn stepped_in(
    here: Place,
    crumbs: Seq<Crumb>,
    item: ItemId,
    sequence: SeqId,
    tracks: (TrackId, TrackId),
    inside: Time,
) -> (Place, Seq<Crumb>) {
    (
        Place {
            seq: sequence,
            video_track: tracks.0,
            audio_track: tracks.1,
            variant: 0,
            playhead: if inside.0 < 0 {
                Time(0)
            } else {
                inside
            },
        },
        crumbs.push(Crumb { place: here, item }),
    )
}

/// What comes of opening a compound clip.
#[derive(Copy, Clone, Debug, PartialEq, Eq, Structural)]
pub enum Opening {
    /// It isn't one, or its timeline is gone.
    Nothing,
    /// It has no tracks to edit: `no_tracks` says so.
    NoTracks,
    Opened,
}

/// What's said of a compound clip without tracks.
pub fn no_tracks() -> (out: &'static str)
    ensures
        out@ == "This compound clip has no tracks to edit."@,
{
    "This compound clip has no tracks to edit."
}

/// What comes of opening the clip (`None`: it's gone), whose timeline is `inner` (`None`: the
/// project doesn't have it).
pub open spec fn opening_of(it: Option<ItemModel>, inner: Option<SequenceModel>) -> Opening {
    match it {
        Some(it) => match it.kind {
            ItemKind::Nested { .. } => match inner {
                Some(s) => if tracks_in(s) is Some {
                    Opening::Opened
                } else {
                    Opening::NoTracks
                },
                None => Opening::Nothing,
            },
            _ => Opening::Nothing,
        },
        None => Opening::Nothing,
    }
}

/// The first crumb whose timeline is gone.
pub open spec fn first_gone(there: Seq<bool>, from: int) -> int
    decreases there.len() - from,
{
    if from < 0 || from >= there.len() || !there[from] {
        from
    } else {
        first_gone(there, from + 1)
    }
}

impl Trail {
    /// Opens a compound clip of the open timeline as the open timeline. `inner` is its own
    /// timeline (`None`: the project doesn't have it), and `inside` the moment of that one
    /// that's showing (`inspector::shown_moment`, on its clock), so the playhead keeps its place in the
    /// picture.
    pub fn open_compound(
        &mut self,
        editor: &Editor,
        item: ItemId,
        inner: Option<&Sequence>,
        inside: Time,
    ) -> (out: Opening)
        ensures
            ({
                let it = item_of(editor.timeline@, item);
                let own = match inner {
                    Some(s) => Some(s@),
                    None => None,
                };
                &&& out == opening_of(it, own)
                &&& (final(self).here, final(self).crumbs@) == if out == Opening::Opened {
                    stepped_in(
                        old(self).here,
                        old(self).crumbs@,
                        item,
                        it->0.kind->sequence,
                        tracks_in(own->0)->0,
                        inside,
                    )
                } else {
                    (old(self).here, old(self).crumbs@)
                }
            }),
    {
        match editor.timeline.item(item) {
            Some(it) => match it.kind {
                ItemKind::Nested { sequence } => match inner {
                    Some(s) => match edit_tracks(s) {
                        Some(tracks) => {
                            self.crumbs.push(Crumb { place: self.here, item });
                            self.here = Place {
                                seq: sequence,
                                video_track: tracks.0,
                                audio_track: tracks.1,
                                variant: 0,
                                playhead: inside.most(Time(0)),
                            };
                            Opening::Opened
                        },
                        None => Opening::NoTracks,
                    },
                    None => Opening::Nothing,
                },
                _ => Opening::Nothing,
            },
            None => Opening::Nothing,
        }
    }

    /// Steps out of `levels` compound clips (all of them, where there aren't as many): the
    /// clip that was opened, to select again.
    pub fn close_compound(&mut self, levels: usize) -> (out: Option<ItemId>)
        ensures
            (final(self).here, final(self).crumbs@) == stepped_out(
                old(self).here,
                old(self).crumbs@,
                levels,
            ),
            ({
                let n = depth(old(self).crumbs@, levels);
                out == if n == 0 {
                    None
                } else {
                    Some(old(self).crumbs@[old(self).crumbs@.len() - n].item)
                }
            }),
    {
        let mut back: Option<Crumb> = None;
        let ghost all = self.crumbs@;
        let mut n: usize = 0;
        while n < levels && self.crumbs.len() > 0
            invariant
                all == old(self).crumbs@,
                self.here == old(self).here,
                n <= levels,
                n <= all.len(),
                self.crumbs@ == all.take(all.len() - n),
                back == if n == 0 {
                    None
                } else {
                    Some(all[all.len() - n])
                },
            ensures
                self.here == old(self).here,
                n == depth(all, levels),
                self.crumbs@ == all.take(all.len() - n),
                back == if n == 0 {
                    None
                } else {
                    Some(all[all.len() - n])
                },
            decreases levels - n,
        {
            back = self.crumbs.pop();
            n = n + 1;
            assert(self.crumbs@ =~= all.take(all.len() - n));
        }
        assert(n == 0 ==> self.crumbs@ =~= all);
        match back {
            Some(c) => {
                self.here = c.place;
                Some(c.item)
            },
            None => None,
        }
    }

    /// How many levels to step out where a timeline of the trail is gone: to the nearest one
    /// that still exists. `there` is whether each crumb's timeline exists.
    pub fn levels_gone(&self, there: &Vec<bool>, here_there: bool) -> (out: usize)
        requires
            there@.len() == self.crumbs@.len(),
            there@.len() < usize::MAX,
        ensures
            out == if there@.len() == 0 || (here_there && first_gone(there@, 0) == there@.len()) {
                0
            } else {
                there@.len() - first_gone(there@, 0) + 1
            },
    {
        let n: usize = there.len();
        let mut k: usize = 0;
        while k < n && there[k]
            invariant
                n == there@.len(),
                k <= n,
                first_gone(there@, 0) == first_gone(there@, k as int),
            ensures
                k <= n,
                k == first_gone(there@, 0),
            decreases n - k,
        {
            k = k + 1;
        }
        if n == 0 || (here_there && k == n) {
            0
        } else {
            n - k + 1
        }
    }

    /// The project's own timeline, even while a compound clip is open, and the format it's
    /// shown in. `main` is the timeline at the start of the trail (`None`: there's no trail,
    /// or it's gone), and `shown` the format of the open one, which stands in where the other
    /// can't be shown.
    pub fn main_timeline(&self, main: Option<&Sequence>, shown: VariantId) -> (out: (
        SeqId,
        VariantId,
    ))
        ensures
            out == match main {
                Some(s) => if self.crumbs@.len() > 0 && s@.variants.len() > 0 {
                    (
                        self.crumbs@[0].place.seq,
                        s@.variants[clamped(
                            self.crumbs@[0].place.variant as int,
                            s@.variants.len() as int,
                        )].id,
                    )
                } else {
                    (self.here.seq, shown)
                },
                None => (self.here.seq, shown),
            },
    {
        if let Some(s) = main {
            let n: usize = s.variants.len();
            if self.crumbs.len() > 0 && n > 0 {
                let place: usize = self.crumbs[0].place.variant;
                let at: usize = if place < n {
                    place
                } else {
                    n - 1
                };
                assert(s@.variants[at as int] == s.variants@[at as int]@);
                return (self.crumbs[0].place.seq, s.variants[at].id);
            }
        }
        (self.here.seq, shown)
    }

    /// How many levels clicking a step of the trail leaves (the last step is where the editor
    /// is).
    pub fn levels_to(&self, step: usize) -> (out: usize)
        requires
            step <= self.crumbs@.len(),
        ensures
            out == self.crumbs@.len() - step,
    {
        self.crumbs.len() - step
    }
}

/// A place in a list of `n`: the last one, where it's past them.
pub open spec fn clamped(place: int, n: int) -> int {
    if place < n {
        place
    } else {
        n - 1
    }
}

impl Selection {
    /// Another timeline is open: only the clip that was opened is selected there, if it's
    /// still on it.
    pub fn entered(&mut self, s: &Sequence, item: Option<ItemId>)
        ensures
            final(self).well_formed(),
            final(self).primary == match item {
                Some(id) => if item_of(s@, id) is Some {
                    Some(id)
                } else {
                    None
                },
                None => None,
            },
            final(self).members@ == match final(self).primary {
                Some(id) => seq![id],
                None => Seq::<ItemId>::empty(),
            },
    {
        self.primary = None;
        self.members = Vec::new();
        if let Some(id) = item {
            if s.item(id).is_some() {
                self.primary = Some(id);
                self.members.push(id);
            }
        }
        assert(self.members@ =~= match self.primary {
            Some(id) => seq![id],
            None => Seq::<ItemId>::empty(),
        });
    }
}

/// Stepping out of a compound clip undoes stepping into it.
pub proof fn stepping_out_undoes_stepping_in(
    here: Place,
    crumbs: Seq<Crumb>,
    item: ItemId,
    sequence: SeqId,
    tracks: (TrackId, TrackId),
    inside: Time,
)
    ensures
        ({
            let open = stepped_in(here, crumbs, item, sequence, tracks, inside);
            stepped_out(open.0, open.1, 1) == (here, crumbs)
        }),
{
    let open = stepped_in(here, crumbs, item, sequence, tracks, inside);
    assert(open.1.take(open.1.len() - 1) =~= crumbs);
}

/// Clicking a step of the trail goes to its timeline.
pub proof fn steps_lead_to_their_timelines(here: Place, crumbs: Seq<Crumb>, step: int)
    requires
        0 <= step < crumbs.len() <= usize::MAX,
    ensures
        stepped_out(here, crumbs, (crumbs.len() - step) as usize).0 == crumbs[step].place,
{
}

/// Where timelines are gone, the editor lands on one that exists, so long as the project's own
/// does.
pub proof fn it_lands_where_there_is_a_timeline(
    here: Place,
    crumbs: Seq<Crumb>,
    there: Seq<bool>,
    here_there: bool,
)
    requires
        there.len() == crumbs.len(),
        0 < there.len() < usize::MAX,
        there[0],
        !here_there || first_gone(there, 0) < there.len(),
    ensures
        ({
            let levels = (there.len() - first_gone(there, 0) + 1) as usize;
            let at = crumbs.len() - levels;
            &&& 0 <= at < crumbs.len()
            &&& there[at]
            &&& stepped_out(here, crumbs, levels).0 == crumbs[at].place
        }),
{
    first_gone_is_right(there, 0);
}

proof fn first_gone_is_right(there: Seq<bool>, from: int)
    requires
        0 <= from <= there.len(),
    ensures
        from <= first_gone(there, from) <= there.len(),
        forall|k: int| from <= k < first_gone(there, from) ==> there[k],
        from < there.len() && there[from] ==> first_gone(there, from) > from,
    decreases there.len() - from,
{
    if from < there.len() && there[from] {
        first_gone_is_right(there, from + 1);
    }
}

} // verus!
