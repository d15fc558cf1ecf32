//! What happens when a frame fails: the work is saved, the editor is put back where it can go
//! on, and if frames keep failing it steps back to the start page.
use crate::doc::{ItemId, SeqId};
use crate::seqs::{filter_step, take_all};
use crate::text::join3;
use vstd::prelude::*;

verus! {

/// Failing frames in a row before giving up on the editor.
pub const MAX_FAILED_FRAMES: u32 = 3;

/// How many frames failed in a row.
pub struct Guard {
    pub failed: u32,
}

/// What's done about a frame that failed.
pub struct Failure {
    /// The work is autosaved first.
    pub save: bool,
    /// The editor gives way to the start page.
    pub home: bool,
    pub message: String,
}

/// The count after a frame failed.
pub open spec fn after_failure(failed: u32) -> u32 {
    if failed + 1 >= MAX_FAILED_FRAMES {
        0
    } else {
        (failed + 1) as u32
    }
}

impl Guard {
    /// A frame went well.
    pub fn went_well(&mut self)
        ensures
            final(self).failed == 0,
    {
        self.failed = 0;
    }

    /// A frame failed for a reason; `dirty` is whether there's work that isn't saved.
    pub fn failed(&mut self, dirty: bool, why: &str) -> (out: Failure)
        requires
            old(self).failed < u32::MAX,
        ensures
            final(self).failed == after_failure(old(self).failed),
            out.save == dirty,
            out.home == (old(self).failed + 1 >= MAX_FAILED_FRAMES),
            out.message@ == if out.home {
                "The editor kept failing ("@ + why@
                    + "). Your work was autosaved — reopen the project to continue."@
            } else {
                "Something went wrong ("@ + why@
                    + "). Your work was autosaved and the editor recovered."@
            },
    {
        self.failed = self.failed + 1;
        if self.failed >= MAX_FAILED_FRAMES {
            self.failed = 0;
            Failure {
                save: dirty,
                home: true,
                message: join3(
                    "The editor kept failing (",
                    why,
                    "). Your work was autosaved — reopen the project to continue.",
                ),
            }
        } else {
            Failure {
                save: dirty,
                home: false,
                message: join3(
                    "Something went wrong (",
                    why,
                    "). Your work was autosaved and the editor recovered.",
                ),
            }
        }
    }
}

/// The count after `n` failures in a row.
pub open spec fn after_failures(n: nat) -> u32
    decreases n,
{
    if n == 0 {
        0
    } else {
        after_failure(after_failures((n - 1) as nat))
    }
}

/// The editor gives up at every third failure in a row, and at no other.
pub proof fn the_third_failure_gives_up(n: nat)
    ensures
        after_failures(n) == n % 3,
        (after_failures(n) + 1 >= MAX_FAILED_FRAMES) <==> (n + 1) % 3 == 0,
    decreases n,
{
    if n > 0 {
        the_third_failure_gives_up((n - 1) as nat);
    }
}

/// The clips of `there`.
pub open spec fn is_there(there: Seq<ItemId>) -> spec_fn(ItemId) -> bool {
    |id: ItemId| there.contains(id)
}

fn holds(ids: &Vec<ItemId>, id: ItemId) -> (out: bool)
    ensures
        out == ids@.contains(id),
{
    let mut i: usize = 0;
    while i < ids.len()
        invariant
            i <= ids@.len(),
            forall|k: int| 0 <= k < i ==> ids@[k] != id,
        decreases ids@.len() - i,
    {
        if ids[i] == id {
            assert(ids@.contains(ids@[i as int]));
            return true;
        }
        i = i + 1;
    }
    false
}

/// The selected clip, if it's still there.
pub fn kept_selection(selection: Option<ItemId>, there: &Vec<ItemId>) -> (out: Option<ItemId>)
    ensures
        out == match selection {
            Some(id) => if there@.contains(id) {
                Some(id)
            } else {
                None
            },
            None => None,
        },
{
    match selection {
        Some(id) => if holds(there, id) {
            Some(id)
        } else {
            None
        },
        None => None,
    }
}

/// The selected clips that are still there, in order.
pub fn kept_selected(selected: &Vec<ItemId>, there: &Vec<ItemId>) -> (out: Vec<ItemId>)
    ensures
        out@ == selected@.filter(is_there(there@)),
{
    let ghost p = is_there(there@);
    let mut out: Vec<ItemId> = Vec::new();
    let mut i: usize = 0;
    proof {
        take_all(selected@);
        reveal_with_fuel(Seq::filter, 1);
    }
    while i < selected.len()
        invariant
            p == is_there(there@),
            i <= selected@.len(),
            out@ == selected@.take(i as int).filter(p),
        decreases selected@.len() - i,
    {
        proof {
            filter_step(selected@, p, i as int);
        }
        if holds(there, selected[i]) {
            out.push(selected[i]);
        }
        i = i + 1;
    }
    proof {
        take_all(selected@);
    }
    out
}

/// The timeline to go back to once every compound was closed: the one that's open, if it
/// exists, else the first there is.
pub fn safe_timeline(open: SeqId, still_there: bool, first: Option<SeqId>) -> (out: SeqId)
    ensures
        out == if still_there || first is None {
            open
        } else {
            first->0
        },
{
    if still_there {
        open
    } else {
        match first {
            Some(seq) => seq,
            None => open,
        }
    }
}

} // verus!
