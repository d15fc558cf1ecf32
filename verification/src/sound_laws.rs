//! What holds of sound that's moved onto tracks of its own: where the clips and tracks go.
use crate::clips::{extracted, SoundSettings, Stretch};
use crate::doc::{item_of, ItemId, OpModel, SequenceModel, TrackKind};
use crate::placing::of_kind;
use crate::seqs::filter_map_push;
use crate::text::decimal;
use vstd::prelude::*;

verus! {

/// The stretch that a change puts a clip on.
pub open spec fn stretch_taken() -> spec_fn(OpModel) -> Option<Stretch> {
    |op: OpModel|
        match op {
            OpModel::InsertItem { seq, track, item } => Some(Stretch { track, range: item.range }),
            _ => None,
        }
}

/// Where a change adds a track, and what it's called.
pub open spec fn track_made() -> spec_fn(OpModel) -> Option<(int, Seq<char>)> {
    |op: OpModel|
        match op {
            OpModel::InsertTrack { seq, index, track } => Some((index as int, track.name)),
            _ => None,
        }
}

/// The new tracks: after all of the timeline's and each other, numbered on.
pub open spec fn numbered_on(s: SequenceModel, n: nat) -> Seq<(int, Seq<char>)> {
    let sounds = s.tracks.filter(of_kind(TrackKind::Audio)).len();
    Seq::new(n, |k: int| (s.tracks.len() + k + 1, "A"@ + decimal((sounds + k + 1) as nat)))
}

/// Every sound that's been moved is counted in where the next one looks for room, and every
/// new track goes after all there were and is numbered on from them.
pub proof fn every_sound_is_counted_in(
    s: SequenceModel,
    clips: Seq<ItemId>,
    fresh: Seq<u64>,
    settings: SoundSettings,
    types: Seq<Seq<char>>,
)
    requires
        s.tracks.len() + clips.len() < usize::MAX,
    ensures
        ({
            let done = extracted(s, clips, fresh, settings, types);
            &&& done.ops.filter_map(stretch_taken()) == done.placed
            &&& done.ops.filter_map(track_made()) == numbered_on(s, done.new_tracks)
            &&& done.new_tracks <= clips.len()
        }),
    decreases clips.len(),
{
    let f = stretch_taken();
    let g = track_made();
    if clips.len() == 0 {
        let none = Seq::<OpModel>::empty();
        assert(none.filter_map(f) =~= Seq::<Stretch>::empty());
        assert(none.filter_map(g) =~= numbered_on(s, 0));
    } else {
        let rest = clips.drop_last();
        every_sound_is_counted_in(s, rest, fresh, settings, types);
        let before = extracted(s, rest, fresh, settings, types);
        let done = extracted(s, clips, fresh, settings, types);
        if let Some(it) = item_of(s, clips.last()) {
            let n = before.ops.len() as int;
            let a = done.ops.skip(n);
            assert(done.ops =~= before.ops + a);
            mapped_apart(before.ops, a, f);
            mapped_apart(before.ops, a, g);
            assert(2 <= a.len() <= 4);
            assert(a.drop_last().len() == a.len() - 1);
            let last = a[a.len() - 1];
            assert(a =~= a.drop_last().push(last));
            filter_map_push(a.drop_last(), f, last);
            filter_map_push(a.drop_last(), g, last);
            no_clip_before(a.drop_last(), f);
            assert(a.filter_map(f) =~= seq![done.placed.last()]);
            assert(done.placed =~= before.placed + seq![done.placed.last()]);
            if done.new_tracks > before.new_tracks {
                let first = a[0];
                let others = a.skip(1);
                assert(a =~= seq![first] + others);
                mapped_apart(seq![first], others, g);
                no_clip_before(others, g);
                let none = Seq::<OpModel>::empty();
                assert(seq![first] =~= none.push(first));
                filter_map_push(none, g, first);
                assert(none.filter_map(g) =~= Seq::<(int, Seq<char>)>::empty());
                assert(a.filter_map(g) =~= seq![g(first)->0]);
                assert(numbered_on(s, done.new_tracks) =~= numbered_on(s, before.new_tracks) + seq![
                    g(first)->0,
                ]);
            } else {
                no_clip_before(a, g);
                assert(a.filter_map(g) =~= Seq::<(int, Seq<char>)>::empty());
                assert(numbered_on(s, before.new_tracks) + Seq::<(int, Seq<char>)>::empty()
                    =~= numbered_on(s, before.new_tracks));
            }
        }
    }
}

/// Mapping two lists together is mapping each.
proof fn mapped_apart<T, U>(a: Seq<T>, b: Seq<T>, f: spec_fn(T) -> Option<U>)
    ensures
        (a + b).filter_map(f) == a.filter_map(f) + b.filter_map(f),
    decreases b.len(),
{
    if b.len() == 0 {
        assert(a + b =~= a);
        assert(a.filter_map(f) + b.filter_map(f) =~= a.filter_map(f));
    } else {
        let rest = b.drop_last();
        mapped_apart(a, rest, f);
        assert(a + b =~= (a + rest).push(b.last()));
        assert(b =~= rest.push(b.last()));
        filter_map_push(a + rest, f, b.last());
        filter_map_push(rest, f, b.last());
        assert((a + b).filter_map(f) =~= a.filter_map(f) + b.filter_map(f));
    }
}

/// What's mapped to nothing gives nothing.
proof fn no_clip_before<T, U>(a: Seq<T>, f: spec_fn(T) -> Option<U>)
    requires
        forall|k: int| 0 <= k < a.len() ==> f(#[trigger] a[k]) is None,
    ensures
        a.filter_map(f) == Seq::<U>::empty(),
    decreases a.len(),
{
    if a.len() > 0 {
        let rest = a.drop_last();
        assert forall|k: int| 0 <= k < rest.len() implies f(#[trigger] rest[k]) is None by {
            assert(rest[k] == a[k]);
        }
        no_clip_before(rest, f);
        assert(a =~= rest.push(a.last()));
        filter_map_push(rest, f, a.last());
        assert(f(a[a.len() - 1]) is None);
    }
}

} // verus!
