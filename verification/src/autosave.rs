//! Autosave and crash recovery. While a project has unsaved changes it's written every few
//! seconds to a file of its own; one that's still there at startup means that a session ended
//! without saving.
use crate::order::{in_order, rises, same_places, sorted, Key, KeyModel};
use crate::seqs::views;
use crate::text::{decimal, ends_with, join2, number, same, trim, trimmed};
use vstd::prelude::*;

verus! {

/// A project's file.
pub struct Original {
    pub path: String,
    /// Its name, without the folders it's in.
    pub name: String,
}

/// An autosave left behind by a session that didn't end cleanly.
pub struct Recovery {
    pub file: String,
    /// The project file it was editing, if it had been saved before.
    pub original: Option<Original>,
    /// When it was written, in nanoseconds.
    pub modified: i128,
}

/// A second, in nanoseconds.
pub const NANOS: i128 = 1_000_000_000;

/// How long ago something was, in words.
pub open spec fn ago(secs: int) -> Seq<char> {
    if secs < 60 {
        "moments ago"@
    } else if secs < 3600 {
        decimal((secs / 60) as nat) + " min ago"@
    } else if secs < 86_400 {
        decimal((secs / 3600) as nat) + " h ago"@
    } else {
        decimal((secs / 86_400) as nat) + " days ago"@
    }
}

impl Recovery {
    /// What to call it.
    pub fn name(&self) -> (out: String)
        ensures
            out@ == match self.original {
                Some(o) => o.name@,
                None => "an untitled project"@,
            },
    {
        match &self.original {
            Some(o) => o.name.clone(),
            None => "an untitled project".to_owned(),
        }
    }

    /// How long ago it was written, in whole seconds (`now` in nanoseconds; one from the
    /// future is of this moment).
    pub fn age(&self, now: i128) -> (out: String)
        requires
            now - self.modified < (u64::MAX + 1) * NANOS,
        ensures
            out@ == ago(
                if now > self.modified {
                    (now - self.modified) / NANOS as int
                } else {
                    0
                },
            ),
    {
        let secs: u64 = if now > self.modified {
            let passed: i128 = (now - self.modified) / NANOS;
            passed as u64
        } else {
            0
        };
        if secs < 60 {
            "moments ago".to_owned()
        } else if secs < 3600 {
            join2(number(secs / 60).as_str(), " min ago")
        } else if secs < 86_400 {
            join2(number(secs / 3600).as_str(), " h ago")
        } else {
            join2(number(secs / 86_400).as_str(), " days ago")
        }
    }
}

/// A file of the autosave folder.
pub struct Left {
    pub path: String,
    /// What the file beside it says of the project it came from (`None`: there's none).
    pub origin: Option<String>,
    /// When it was written, in nanoseconds.
    pub modified: i128,
}

#[verifier::ext_equal]
pub struct LeftModel {
    pub path: Seq<char>,
    pub origin: Option<Seq<char>>,
    pub modified: i128,
}

impl View for Left {
    type V = LeftModel;

    open spec fn view(&self) -> LeftModel {
        LeftModel {
            path: self.path@,
            origin: match self.origin {
                Some(o) => Some(o@),
                None => None,
            },
            modified: self.modified,
        }
    }
}

/// Whether a file is another session's autosave.
pub open spec fn from_another(file: LeftModel, mine: Seq<char>) -> bool {
    ".oaproj.json"@.is_suffix_of(file.path) && file.path != mine
}

/// The places of the autosaves of other sessions among the first files.
pub open spec fn left_by_others(files: Seq<LeftModel>, mine: Seq<char>, n: int) -> Seq<usize>
    decreases n,
{
    if n <= 0 {
        Seq::empty()
    } else if from_another(files[n - 1], mine) {
        left_by_others(files, mine, n - 1).push((n - 1) as usize)
    } else {
        left_by_others(files, mine, n - 1)
    }
}

proof fn left_rise(files: Seq<LeftModel>, mine: Seq<char>, n: int)
    requires
        0 <= n <= files.len() <= usize::MAX,
    ensures
        rises(left_by_others(files, mine, n), n),
    decreases n,
{
    if n > 0 {
        left_rise(files, mine, n - 1);
    }
}

/// What autosaves are sorted by: the newest first.
pub open spec fn by_newest() -> spec_fn(LeftModel) -> KeyModel {
    |f: LeftModel| KeyModel { rank: (-f.modified) as i128, group: ""@, name: ""@ }
}

/// The autosaves that other sessions left, by their place among the files, newest first.
pub fn recoverable(files: &Vec<Left>, mine: &str) -> (out: Vec<usize>)
    requires
        forall|k: int| 0 <= k < files@.len() ==> (#[trigger] files@[k]).modified > i128::MIN,
    ensures
        same_places(out@, left_by_others(views(files@), mine@, files@.len() as int)),
        in_order(views(files@).map_values(by_newest()), out@),
{
    let ghost all = views(files@);
    let ghost f = by_newest();
    let mut keys: Vec<Key> = Vec::new();
    let mut kept: Vec<usize> = Vec::new();
    let mut i: usize = 0;
    while i < files.len()
        invariant
            forall|k: int| 0 <= k < files@.len() ==> (#[trigger] files@[k]).modified > i128::MIN,
            all == views(files@),
            f == by_newest(),
            i <= files@.len(),
            kept@ == left_by_others(all, mine@, i as int),
            keys@.len() == i,
            forall|k: int| 0 <= k < i ==> (#[trigger] keys@[k])@ == f(all[k]),
        decreases files@.len() - i,
    {
        let file = &files[i];
        assert(all[i as int] == file@);
        if ends_with(file.path.as_str(), ".oaproj.json") && !same(file.path.as_str(), mine) {
            kept.push(i);
        }
        let key = Key { rank: -file.modified, group: "".to_owned(), name: "".to_owned() };
        assert(key@ =~= f(all[i as int]));
        keys.push(key);
        i = i + 1;
    }
    proof {
        left_rise(all, mine@, files@.len() as int);
        assert(views(keys@) =~= all.map_values(f));
    }
    sorted(&keys, &kept)
}

/// A session is never offered its own autosave.
pub proof fn its_own_is_not_offered(files: Seq<LeftModel>, mine: Seq<char>, n: int, at: usize)
    requires
        0 <= n <= files.len() <= usize::MAX,
        left_by_others(files, mine, n).contains(at),
    ensures
        at < n,
        files[at as int].path != mine,
        ".oaproj.json"@.is_suffix_of(files[at as int].path),
    decreases n,
{
    if n > 0 {
        let rest = left_by_others(files, mine, n - 1);
        crate::seqs::push_holds(rest, (n - 1) as usize);
        if rest.contains(at) {
            its_own_is_not_offered(files, mine, n - 1, at);
        }
    }
}

/// The path of the project an autosave came from, as the file beside it says: none where it
/// says nothing.
pub fn origin_path(origin: Option<String>) -> (out: Option<String>)
    ensures
        match origin {
            Some(o) => if trimmed(o@) == ""@ {
                out is None
            } else {
                out is Some && (out->0)@ == trimmed(o@)
            },
            None => out is None,
        },
{
    match origin {
        Some(o) => {
            let path = trim(o.as_str());
            if same(path.as_str(), "") {
                None
            } else {
                Some(path)
            }
        },
        None => None,
    }
}

// ---- writing ----

/// When this session's autosave is written. Snapshots of the project are told apart by a
/// number; times are in milliseconds.
pub struct Autosave {
    /// The snapshot last written, so that an unchanged one isn't written again.
    pub written: Option<u64>,
    /// A write is going on.
    pub pending: bool,
    pub last: u64,
    pub interval: u64,
}

/// What to do about the autosave.
pub enum Tick {
    Nothing,
    /// A write ended, and how.
    Report(Result<(), String>),
    /// Remove the autosave: the project's own file is the safe copy now.
    Clear,
    /// Write the project, on a thread of its own.
    Write,
}

/// How long it is from one moment to another (no time at all to an earlier one).
pub open spec fn elapsed(from: u64, to: u64) -> int {
    if to > from {
        to - from
    } else {
        0
    }
}

/// What a tick does where no write just ended: the autosave after it, and whether it writes.
pub open spec fn ticked(save: Autosave, project: u64, dirty: bool, now: u64) -> (Autosave, bool) {
    if save.pending {
        (save, false)
    } else if !dirty {
        (Autosave { written: None, ..save }, false)
    } else if elapsed(save.last, now) < save.interval || save.written == Some(project) {
        (save, false)
    } else {
        (Autosave { written: Some(project), pending: true, last: now, ..save }, true)
    }
}

/// An autosave after its write ended.
pub open spec fn after_write(save: Autosave, ok: bool) -> Autosave {
    Autosave {
        pending: false,
        written: if ok {
            save.written
        } else {
            None
        },
        ..save
    }
}

/// A project that's saved is never autosaved.
pub proof fn clean_projects_are_not_written(save: Autosave, project: u64, now: u64)
    ensures
        !ticked(save, project, false, now).1,
{
}

/// There's one write at a time.
pub proof fn one_write_at_a_time(save: Autosave, project: u64, dirty: bool, now: u64)
    requires
        save.pending,
    ensures
        ticked(save, project, dirty, now) == (save, false),
{
}

/// What was written isn't written again while it stays unchanged; a write that failed is
/// tried again once the interval has passed.
pub proof fn unchanged_work_is_written_once(
    save: Autosave,
    project: u64,
    now: u64,
    later: u64,
    ok: bool,
)
    requires
        ticked(save, project, true, now).1,
    ensures
        ({
            let next = after_write(ticked(save, project, true, now).0, ok);
            &&& ok ==> !ticked(next, project, true, later).1
            &&& !ok && elapsed(now, later) >= save.interval ==> ticked(next, project, true, later).1
        }),
{
}

impl Autosave {
    /// Nothing was written yet.
    pub fn new(now: u64, interval: u64) -> (out: Autosave)
        ensures
            out.written is None,
            !out.pending,
            out.last == now,
            out.interval == interval,
    {
        Autosave { written: None, pending: false, last: now, interval }
    }

    /// A write ended. One that failed is tried again next time.
    pub fn ended(&mut self, result: &Result<(), String>)
        ensures
            *final(self) == after_write(*old(self), *result is Ok),
    {
        self.pending = false;
        if result.is_err() {
            self.written = None;
        }
    }

    /// What to do now; `finished` is how the write that was going on ended, if it did.
    /// `dirty` is whether the project differs from its file.
    pub fn tick(
        &mut self,
        project: u64,
        dirty: bool,
        now: u64,
        finished: Option<Result<(), String>>,
    ) -> (out: Tick)
        requires
            finished is Some ==> old(self).pending,
        ensures
            match finished {
                Some(result) => {
                    &&& out == Tick::Report(result)
                    &&& *final(self) == after_write(*old(self), result is Ok)
                },
                None => {
                    &&& *final(self) == ticked(*old(self), project, dirty, now).0
                    &&& if ticked(*old(self), project, dirty, now).1 {
                        out is Write
                    } else if !old(self).pending && !dirty && old(self).written is Some {
                        out is Clear
                    } else {
                        out is Nothing
                    }
                },
            },
    {
        if let Some(result) = finished {
            self.ended(&result);
            return Tick::Report(result);
        }
        if self.pending {
            return Tick::Nothing;
        }
        if !dirty {
            let had = self.written.is_some();
            self.written = None;
            return if had {
                Tick::Clear
            } else {
                Tick::Nothing
            };
        }
        let passed: u64 = if now > self.last {
            now - self.last
        } else {
            0
        };
        if passed < self.interval {
            return Tick::Nothing;
        }
        if let Some(w) = self.written {
            if w == project {
                return Tick::Nothing;
            }
        }
        self.last = now;
        self.written = Some(project);
        self.pending = true;
        Tick::Write
    }

    /// The thread for the write couldn't be started.
    pub fn not_started(&mut self)
        ensures
            !final(self).pending,
            final(self).written == old(self).written,
            final(self).last == old(self).last,
            final(self).interval == old(self).interval,
    {
        self.pending = false;
    }

    /// The project was written at once (a write that was going on had ended first).
    pub fn wrote(&mut self, project: u64, now: u64)
        ensures
            final(self).written == Some(project),
            !final(self).pending,
            final(self).last == now,
            final(self).interval == old(self).interval,
    {
        self.written = Some(project);
        self.pending = false;
        self.last = now;
    }

    /// Writes at the next tick instead of waiting for the interval.
    pub fn soon(&mut self, now: u64)
        ensures
            final(self).written is None,
            final(self).pending == old(self).pending,
            final(self).interval == old(self).interval,
            final(self).last == if now >= old(self).interval {
                (now - old(self).interval) as u64
            } else {
                old(self).last
            },
    {
        if now >= self.interval {
            self.last = now - self.interval;
        }
        self.written = None;
    }

    /// This session's autosave was removed.
    pub fn clear(&mut self)
        ensures
            final(self).written is None,
            !final(self).pending,
            final(self).last == old(self).last,
            final(self).interval == old(self).interval,
    {
        self.pending = false;
        self.written = None;
    }
}

} // verus!
