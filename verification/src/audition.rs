//! Listening to a sound without putting it on the timeline.
use crate::doc::Time;
use crate::text::same;
use vstd::prelude::*;

verus! {

/// The longest a preview runs before stopping itself: two minutes.
pub const MOST: i64 = 84_672_000_000;

/// The file that's playing on its own.
pub struct Audition {
    pub playing: Option<String>,
}

/// How long a preview runs: as long as the file, but never longer than the longest; a file of
/// unknown length that long.
pub open spec fn preview_length(duration: Time) -> Time {
    if duration.0 > 0 && duration.0 < MOST {
        duration
    } else {
        Time(MOST)
    }
}

impl Audition {
    /// Whether this file is the one that's playing.
    pub fn auditioning(&self, path: &str) -> (out: bool)
        ensures
            out == (self.playing is Some && (self.playing->0)@ == path@),
    {
        match &self.playing {
            Some(p) => same(p.as_str(), path),
            None => false,
        }
    }

    /// A file's play button was clicked: how long to play it for, from the start. The one
    /// that's playing stops instead.
    pub fn audition(&mut self, path: &str, duration: Time) -> (out: Option<Time>)
        ensures
            final(self).playing is None,
            out == if old(self).playing is Some && (old(self).playing->0)@ == path@ {
                None
            } else {
                Some(preview_length(duration))
            },
    {
        let same_one = self.auditioning(path);
        self.playing = None;
        if same_one {
            return None;
        }
        if duration.0 > 0 && duration.0 < MOST {
            Some(duration)
        } else {
            Some(Time(MOST))
        }
    }

    /// The file started playing.
    pub fn started(&mut self, path: &str)
        ensures
            final(self).playing is Some,
            (final(self).playing->0)@ == path@,
    {
        self.playing = Some(path.to_owned());
    }

    /// Called every frame: it stops when it's done, and when the timeline itself starts
    /// playing.
    pub fn tick(&mut self, timeline_playing: bool, ended: bool)
        ensures
            timeline_playing || ended ==> final(self).playing is None,
            !(timeline_playing || ended) ==> final(self).playing == old(self).playing,
    {
        if timeline_playing || ended {
            self.playing = None;
        }
    }
}

} // verus!
