//! The programs the editor runs, and the bar that says when one of them is missing.
use crate::seqs::views;
use crate::text::{join, join2, joined};
use vstd::prelude::*;

verus! {

/// What's known of the programs the editor needs.
pub struct Deps {
    /// They're being looked for.
    pub checking: bool,
    pub missing: Vec<String>,
    pub dismissed: bool,
}

impl Default for Deps {
    fn default() -> (out: Deps)
        ensures
            !out.checking,
            out.missing@.len() == 0,
            !out.dismissed,
    {
        Deps { checking: false, missing: Vec::new(), dismissed: false }
    }
}

/// The programs that don't run, of the first ones.
pub open spec fn not_running(tools: Seq<Seq<char>>, runs: Seq<bool>, n: int) -> Seq<Seq<char>>
    decreases n,
{
    if n <= 0 {
        Seq::empty()
    } else if runs[n - 1] {
        not_running(tools, runs, n - 1)
    } else {
        not_running(tools, runs, n - 1).push(tools[n - 1])
    }
}

/// The programs that are missing: those that don't run.
pub fn missing_tools(tools: &Vec<String>, runs: &Vec<bool>) -> (out: Vec<String>)
    requires
        tools@.len() == runs@.len(),
    ensures
        views(out@) == not_running(views(tools@), runs@, tools@.len() as int),
{
    let ghost all = views(tools@);
    let mut out: Vec<String> = Vec::new();
    let mut i: usize = 0;
    assert(views(out@) =~= not_running(all, runs@, 0));
    while i < tools.len()
        invariant
            tools@.len() == runs@.len(),
            all == views(tools@),
            i <= tools@.len(),
            views(out@) == not_running(all, runs@, i as int),
        decreases tools@.len() - i,
    {
        assert(all[i as int] == tools@[i as int]@);
        if !runs[i] {
            let ghost had = out@;
            out.push(tools[i].clone());
            assert(views(out@) =~= views(had).push(tools@[i as int]@));
        }
        i = i + 1;
    }
    out
}

/// The systems there are instructions for.
#[derive(Copy, Clone, Debug, PartialEq, Eq, Structural)]
pub enum System {
    Windows,
    MacOs,
    Other,
}

/// How to get the programs.
pub fn how_to_install(system: System) -> (out: &'static str)
    ensures
        out@ == match system {
            System::Windows => "Reinstall OpenAtelier with its installer (it includes them), or put ffmpeg.exe and ffprobe.exe next to OpenAtelier.exe."@,
            System::MacOs => "Install them with Homebrew: brew install ffmpeg"@,
            System::Other => "Install them with your package manager, e.g. sudo apt install ffmpeg (Debian, Ubuntu) or sudo dnf install ffmpeg (Fedora)."@,
        },
{
    match system {
        System::Windows => "Reinstall OpenAtelier with its installer (it includes them), or put ffmpeg.exe and ffprobe.exe next to OpenAtelier.exe.",
        System::MacOs => "Install them with Homebrew: brew install ffmpeg",
        System::Other => "Install them with your package manager, e.g. sudo apt install ffmpeg (Debian, Ubuntu) or sudo dnf install ffmpeg (Fedora).",
    }
}

impl Deps {
    /// The programs are being looked for.
    pub fn check(&mut self)
        ensures
            final(self).checking,
            final(self).missing == old(self).missing,
            final(self).dismissed == old(self).dismissed,
    {
        self.checking = true;
    }

    /// They were looked for: these are missing.
    pub fn checked(&mut self, missing: Vec<String>)
        ensures
            !final(self).checking,
            final(self).missing == missing,
            final(self).dismissed == old(self).dismissed,
    {
        self.missing = missing;
        self.checking = false;
    }

    /// The bar was dismissed.
    pub fn dismiss(&mut self)
        ensures
            final(self).dismissed,
            final(self).missing == old(self).missing,
            final(self).checking == old(self).checking,
    {
        self.dismissed = true;
    }

    /// What the bar says, where it's shown.
    pub fn banner(&self) -> (out: Option<String>)
        ensures
            self.missing@.len() == 0 || self.dismissed ==> out is None,
            self.missing@.len() > 0 && !self.dismissed ==> out is Some && (out->0)@ == "⚠ "@
                + joined(views(self.missing@), " and "@)
                + " can't be found: importing, playing and exporting video need it."@,
    {
        if self.missing.len() == 0 || self.dismissed {
            return None;
        }
        let names = join(&self.missing, " and ");
        let head = join2("⚠ ", names.as_str());
        Some(
            join2(
                head.as_str(),
                " can't be found: importing, playing and exporting video need it.",
            ),
        )
    }
}

} // verus!
