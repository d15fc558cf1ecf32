//! The font menu: every installed family, searchable, each name drawn in its own font.
use crate::seqs::{filter_step, take_all, views};
use crate::text::{contains, join2, lowercase, lowercase_of, occurs, same, trim, trimmed};
use vstd::prelude::*;

verus! {

/// How many samples are drawn in one frame.
pub const PER_FRAME: usize = 8;

/// Which families were drawn, and how many in this frame.
pub struct FontSamples {
    /// The families that were tried, and whether they can draw their own name.
    pub known: Vec<(String, bool)>,
    pub made_this_frame: usize,
}

/// What's known of a family.
pub open spec fn known_of(known: Seq<(String, bool)>, family: Seq<char>, from: int) -> Option<bool>
    decreases known.len() - from,
{
    if from < 0 || from >= known.len() {
        None
    } else if known[from].0@ == family {
        Some(known[from].1)
    } else {
        known_of(known, family, from + 1)
    }
}

/// How a family's name is shown.
#[derive(Copy, Clone, Debug, PartialEq, Eq, Structural)]
pub enum Sample {
    /// In its own font.
    Drawn,
    /// As plain text.
    Plain,
    /// It can be drawn now.
    Make,
    /// As plain text, until the next frame.
    Later,
}

impl FontSamples {
    /// Nothing was drawn yet.
    pub fn new() -> (out: FontSamples)
        ensures
            out.known@.len() == 0,
            out.made_this_frame == 0,
    {
        FontSamples { known: Vec::new(), made_this_frame: 0 }
    }

    /// A new frame starts.
    pub fn frame_start(&mut self)
        ensures
            final(self).made_this_frame == 0,
            final(self).known == old(self).known,
    {
        self.made_this_frame = 0;
    }

    /// How a family's name is shown: only so many are drawn in one frame, so a machine with a
    /// thousand fonts doesn't stall.
    pub fn sample(&self, family: &str) -> (out: Sample)
        ensures
            out == match known_of(self.known@, family@, 0) {
                Some(true) => Sample::Drawn,
                Some(false) => Sample::Plain,
                None => if self.made_this_frame >= PER_FRAME {
                    Sample::Later
                } else {
                    Sample::Make
                },
            },
    {
        let mut i: usize = 0;
        while i < self.known.len()
            invariant
                i <= self.known@.len(),
                known_of(self.known@, family@, 0) == known_of(self.known@, family@, i as int),
            decreases self.known@.len() - i,
        {
            if same(self.known[i].0.as_str(), family) {
                return if self.known[i].1 {
                    Sample::Drawn
                } else {
                    Sample::Plain
                };
            }
            i = i + 1;
        }
        if self.made_this_frame >= PER_FRAME {
            Sample::Later
        } else {
            Sample::Make
        }
    }

    /// A family was drawn (or can't draw its own name).
    pub fn made(&mut self, family: &str, can: bool)
        requires
            old(self).made_this_frame < PER_FRAME,
            known_of(old(self).known@, family@, 0) is None,
        ensures
            final(self).made_this_frame == old(self).made_this_frame + 1,
            final(self).known@.len() == old(self).known@.len() + 1,
            final(self).known@.last().0@ == family@,
            final(self).known@.last().1 == can,
            final(self).known@.drop_last() == old(self).known@,
            final(self).made_this_frame <= PER_FRAME,
    {
        let ghost had = self.known@;
        self.known.push((family.to_owned(), can));
        assert(self.known@.drop_last() =~= had);
        self.made_this_frame = self.made_this_frame + 1;
    }
}

/// A family is only tried once: what was found stays known.
pub proof fn families_are_tried_once(
    known: Seq<(String, bool)>,
    family: Seq<char>,
    more: (String, bool),
    from: int,
)
    requires
        0 <= from <= known.len(),
        known_of(known, family, from) is Some || more.0@ == family,
    ensures
        known_of(known.push(more), family, from) == match known_of(known, family, from) {
            Some(can) => Some(can),
            None => Some(more.1),
        },
    decreases known.len() - from,
{
    let all = known.push(more);
    if from < known.len() {
        assert(all[from] == known[from]);
        if known[from].0@ != family {
            families_are_tried_once(known, family, more, from + 1);
        }
    }
}

/// What a family is called where it's chosen ("": the default one).
pub fn shown_family(family: &str, default: &str) -> (out: String)
    ensures
        out@ == if family@ == ""@ {
            default@ + " (default)"@
        } else {
            family@
        },
{
    if same(family, "") {
        join2(default, " (default)")
    } else {
        family.to_owned()
    }
}

/// What's searched for.
pub fn font_needle(search: &str) -> (out: String)
    ensures
        out@ == lowercase_of(trimmed(search@)),
{
    lowercase(trim(search).as_str())
}

/// The families with `needle` in their names, whatever its case.
pub open spec fn named_like(needle: Seq<char>) -> spec_fn(Seq<char>) -> bool {
    |family: Seq<char>| needle == ""@ || occurs(lowercase_of(family), needle)
}

/// Whether a family is found; `lower` is its name in lower case.
pub fn is_found(lower: &str, needle: &str) -> (out: bool)
    ensures
        out == (needle@ == ""@ || occurs(lower@, needle@)),
{
    same(needle, "") || contains(lower, needle)
}

/// The families a search finds, in order (all of them, for an empty one).
pub fn found_families(families: &Vec<String>, needle: &str) -> (out: Vec<String>)
    ensures
        views(out@) == views(families@).filter(named_like(needle@)),
{
    let ghost all = views(families@);
    let ghost p = named_like(needle@);
    let mut out: Vec<String> = Vec::new();
    let mut i: usize = 0;
    proof {
        take_all(all);
        reveal_with_fuel(Seq::filter, 1);
        assert(views(out@) =~= all.take(0).filter(p));
    }
    while i < families.len()
        invariant
            all == views(families@),
            p == named_like(needle@),
            i <= families@.len(),
            views(out@) == all.take(i as int).filter(p),
        decreases families@.len() - i,
    {
        proof {
            filter_step(all, p, i as int);
            assert(all[i as int] == families@[i as int]@);
        }
        let lower = lowercase(families[i].as_str());
        if is_found(lower.as_str(), needle) {
            let ghost had = out@;
            out.push(families[i].clone());
            assert(views(out@) =~= views(had).push(families@[i as int]@));
        }
        i = i + 1;
    }
    proof {
        take_all(all);
    }
    out
}

/// The family that was picked, if it's another one.
pub fn picked_family(picked: Option<String>, family: &str) -> (out: Option<String>)
    ensures
        match picked {
            Some(p) => if p@ == family@ {
                out is None
            } else {
                out is Some && (out->0)@ == p@
            },
            None => out is None,
        },
{
    match picked {
        Some(p) => if same(p.as_str(), family) {
            None
        } else {
            Some(p)
        },
        None => None,
    }
}

} // verus!
