//! What holds of files as they're taken into a project and found again, and of cuts.
use crate::doc::{EditError, ItemId, MediaId, MediaKind, Op};
use crate::editor::PoolItem;
use crate::seqs::mapped_places;
use crate::session::{
    cut_backs, cut_ops, last_error, missing_of, pool_of, ref_of, relink_of, relinked, reopen_item,
    Found, Imported, MediaRef, Reopened,
};
use vstd::prelude::*;

verus! {

/// A file that goes missing keeps its place in the pool: the same id, the same length, sound
/// if it was only sound. Nothing of it plays until it's found.
pub proof fn a_missing_file_keeps_its_place(
    id: MediaId,
    imported: Imported,
    media: MediaRef,
    was: PoolItem,
    name: Option<String>,
    gone: PoolItem,
)
    requires
        ref_of(id, imported, media),
        pool_of(id, imported, was),
        missing_of(media, name, gone),
    ensures
        was.id == id && gone.id == id && media.id == id,
        gone.duration == was.duration && was.duration == imported.info.duration,
        gone.kind == if was.has_video {
            MediaKind::Video
        } else {
            MediaKind::Audio
        },
        was.has_video == imported.info.has_video,
        was.has_audio == imported.info.has_audio,
        !gone.has_video && !gone.has_audio,
        gone.missing && !was.missing,
        gone.decode_path@ == imported.path@,
        gone.name@ == if name is Some {
            name->0@
        } else {
            imported.path@
        },
        was.name@ == imported.name@ && was.decode_path@ == imported.decode_path@,
        was.kind == imported.kind && was.about@ == imported.about@,
        was.conformed is Some <==> imported.conformed is Some,
        gone.conformed is None && gone.about@.len() == 0,
        media.info == Some(imported.info) && media.folder@.len() == 0,
        media.fingerprint is Some && media.fingerprint->0@ == imported.fingerprint@,
{
}

/// Opening a project again gives back the pool as it was: a file that's where it was, with the
/// same contents, is in the pool just as when it was added.
pub proof fn reopening_gives_the_pool_back(
    imported: Imported,
    r: Reopened,
    was: PoolItem,
    again: PoolItem,
)
    requires
        pool_of(r.media.id, imported, was),
        r.import == Ok::<Imported, String>(imported),
        !(r.found is Gone),
        reopen_item(r, again),
    ensures
        again.id == was.id && again.name@ == was.name@ && again.kind == was.kind,
        again.decode_path@ == was.decode_path@ && again.duration == was.duration,
        again.has_video == was.has_video && again.has_audio == was.has_audio,
        again.about@ == was.about@ && !again.missing,
{
}

/// A file is read from somewhere else from now on just where it was found somewhere else.
pub proof fn moved_files_are_read_where_they_are(all: Seq<Reopened>) -> (at: Seq<int>)
    ensures
        at.len() == relinked(all).len(),
        forall|a: int, b: int| 0 <= a < b < at.len() ==> (#[trigger] at[a]) < (#[trigger] at[b]),
        forall|k: int|
            0 <= k < at.len() ==> 0 <= (#[trigger] at[k]) < all.len() && (
            all[at[k]].found matches Found::Relinked(to) && relinked(all)[k] == (
                all[at[k]].media.id,
                to@,
            )),
        forall|i: int|
            0 <= i < all.len() && (#[trigger] all[i]).found is Relinked ==> at.contains(i),
{
    let f = relink_of();
    let at = mapped_places(all, f);
    assert forall|k: int| 0 <= k < at.len() implies 0 <= (#[trigger] at[k]) < all.len() && (
    all[at[k]].found matches Found::Relinked(to) && relinked(all)[k] == (
        all[at[k]].media.id,
        to@,
    )) by {
        assert(f(all[at[k]]) == Some(relinked(all)[k]));
    }
    assert forall|i: int| 0 <= i < all.len() && (#[trigger] all[i]).found is Relinked implies
        at.contains(i) by {
        assert(f(all[i]) is Some);
    }
    at
}

/// Every cut that worked gives its back half, in the order of the cuts; a cut that failed
/// gives none. `at` are the places of those that worked.
pub proof fn every_cut_gives_its_back_half(
    results: Seq<Result<(Vec<Op>, ItemId), EditError>>,
) -> (at: Seq<int>)
    ensures
        at.len() == cut_backs(results).len(),
        forall|a: int, b: int| 0 <= a < b < at.len() ==> (#[trigger] at[a]) < (#[trigger] at[b]),
        forall|k: int|
            0 <= k < at.len() ==> 0 <= (#[trigger] at[k]) < results.len() && results[at[k]] is Ok
                && (results[at[k]]->Ok_0).1 == cut_backs(results)[k],
        forall|i: int|
            0 <= i < results.len() && (#[trigger] results[i]) is Ok ==> at.contains(i),
    decreases results.len(),
{
    if results.len() == 0 {
        Seq::empty()
    } else {
        let n = results.len() - 1;
        let rest = results.drop_last();
        let had = every_cut_gives_its_back_half(rest);
        let at = if results[n] is Ok {
            had.push(n)
        } else {
            had
        };
        assert forall|k: int| 0 <= k < at.len() implies 0 <= (#[trigger] at[k]) < results.len()
            && results[at[k]] is Ok && (results[at[k]]->Ok_0).1 == cut_backs(results)[k] by {
            if k < had.len() {
                assert(at[k] == had[k]);
                assert(rest[had[k]] == results[at[k]]);
            }
        }
        assert forall|a: int, b: int| 0 <= a < b < at.len() implies (#[trigger] at[a]) < (
        #[trigger] at[b]) by {
            assert(at[a] == had[a]);
            if b < had.len() {
                assert(at[b] == had[b]);
            }
        }
        assert forall|i: int| 0 <= i < results.len() && (#[trigger] results[i]) is Ok implies
            at.contains(i) by {
            if i < n {
                assert(rest[i] == results[i]);
                let k = choose|k: int| 0 <= k < had.len() && had[k] == i;
                assert(at[k] == i);
            } else {
                assert(at[had.len() as int] == n);
            }
        }
        at
    }
}

/// The changes of the cuts up to the `i`-th come before the rest, those of the `i`-th (if it
/// worked) all together.
pub proof fn cuts_are_made_one_after_the_other(
    results: Seq<Result<(Vec<Op>, ItemId), EditError>>,
    i: int,
)
    requires
        0 <= i < results.len(),
    ensures
        ({
            let before = cut_ops(results.take(i));
            let all = cut_ops(results);
            &&& before.is_prefix_of(all)
            &&& results[i] is Ok ==> (before + (results[i]->Ok_0).0@).is_prefix_of(all)
            &&& i == results.len() - 1 ==> all.len() == before.len() + if results[i] is Ok {
                (results[i]->Ok_0).0@.len()
            } else {
                0
            }
        }),
    decreases results.len(),
{
    let n = results.len() - 1;
    let rest = results.drop_last();
    assert(results.take(n) =~= rest);
    if i < n {
        cuts_are_made_one_after_the_other(rest, i);
        assert(rest.take(i) =~= results.take(i));
        assert(rest[i] == results[i]);
        assert(cut_ops(rest).is_prefix_of(cut_ops(results)));
    }
}

/// The error told of is that of the last cut that failed; there's none only where none did.
pub proof fn the_last_failure_is_told(results: Seq<Result<(Vec<Op>, ItemId), EditError>>)
    ensures
        match last_error(results) {
            Some(e) => exists|i: int|
                0 <= i < results.len() && #[trigger] results[i] == Err::<
                    (Vec<Op>, ItemId),
                    EditError,
                >(e) && forall|j: int| i < j < results.len() ==> (#[trigger] results[j]) is Ok,
            None => forall|i: int| 0 <= i < results.len() ==> (#[trigger] results[i]) is Ok,
        },
    decreases results.len(),
{
    if results.len() > 0 {
        let n = results.len() - 1;
        let rest = results.drop_last();
        the_last_failure_is_told(rest);
        assert(forall|i: int| 0 <= i < n ==> rest[i] == results[i]);
        if results[n] is Ok {
            if let Some(e) = last_error(results) {
                let i = choose|i: int|
                    0 <= i < rest.len() && #[trigger] rest[i] == Err::<
                        (Vec<Op>, ItemId),
                        EditError,
                    >(e) && forall|j: int| i < j < rest.len() ==> (#[trigger] rest[j]) is Ok;
                assert forall|j: int| i < j < results.len() implies (
                #[trigger] results[j]) is Ok by {
                    if j < n {
                        assert(rest[j] is Ok);
                    }
                }
                assert(results[i] == rest[i]);
            } else {
                assert forall|i: int| 0 <= i < results.len() implies (
                #[trigger] results[i]) is Ok by {
                    if i < n {
                        assert(rest[i] is Ok);
                    }
                }
            }
        } else {
            assert(results[n] == Err::<(Vec<Op>, ItemId), EditError>(results[n]->Err_0));
        }
    }
}

} // verus!
