//! Connections: a property that follows the sound.
use crate::doc::{item_of, ItemId, ParamTarget, Source};
use crate::editor::{fanned_out, setter, Edit, Editor};
use crate::seqs::views;
use crate::text::{join2, join3, parts, parts_is_never_empty, split};
use vstd::prelude::*;

verus! {

/// What a property listens to.
#[derive(Copy, Clone, Debug, PartialEq, Eq, Structural)]
pub enum SoundSource {
    /// Everything that's playing.
    Mix,
    Item(ItemId),
}

/// Which part of the sound it listens to.
#[derive(Copy, Clone, Debug, PartialEq, Eq, Structural)]
pub enum SoundBand {
    Loudness,
    Bass,
    Mids,
    Treble,
}

/// What a part of the sound is.
pub fn band_tip(band: SoundBand) -> (out: &'static str)
    ensures
        out@ == match band {
            SoundBand::Loudness => "The whole sound"@,
            SoundBand::Bass => "Below about 200 Hz: kicks, bass lines"@,
            SoundBand::Mids => "About 200 Hz to 4 kHz: voices, most instruments"@,
            SoundBand::Treble => "Above about 4 kHz: hi-hats, sibilance, sparkle"@,
        },
{
    match band {
        SoundBand::Loudness => "The whole sound",
        SoundBand::Bass => "Below about 200 Hz: kicks, bass lines",
        SoundBand::Mids => "About 200 Hz to 4 kHz: voices, most instruments",
        SoundBand::Treble => "Above about 4 kHz: hi-hats, sibilance, sparkle",
    }
}

// ---- what can be listened to ----

/// A clip that can be heard, and its name.
pub struct Heard {
    pub id: ItemId,
    pub name: String,
}

/// The ids of the clips.
pub open spec fn ids(heard: Seq<Heard>) -> Seq<ItemId> {
    Seq::new(heard.len(), |i: int| heard[i].id)
}

/// The clips, each with its name.
pub open spec fn named(heard: Seq<Heard>) -> Seq<(ItemId, Seq<char>)> {
    Seq::new(heard.len(), |i: int| (heard[i].id, heard[i].name@))
}

/// One of the clips has the id.
pub open spec fn has_id(named: Seq<(ItemId, Seq<char>)>, id: ItemId) -> bool {
    exists|i: int| 0 <= i < named.len() && (#[trigger] named[i]).0 == id
}

/// The first clips that are heard, each once, that are still on the timeline (`None`: one
/// that isn't), with the name each comes with first.
pub open spec fn heard_clips(clips: Seq<(ItemId, Option<String>)>, n: int) -> Seq<
    (ItemId, Seq<char>),
>
    decreases n,
{
    if n <= 0 {
        Seq::empty()
    } else {
        let rest = heard_clips(clips, n - 1);
        match clips[n - 1].1 {
            Some(name) => if has_id(rest, clips[n - 1].0) {
                rest
            } else {
                rest.push((clips[n - 1].0, name@))
            },
            None => rest,
        }
    }
}

fn is_heard(heard: &Vec<Heard>, id: ItemId) -> (out: bool)
    ensures
        out == ids(heard@).contains(id),
{
    let ghost all = ids(heard@);
    let mut i: usize = 0;
    while i < heard.len()
        invariant
            all == ids(heard@),
            i <= heard@.len(),
            forall|k: int| 0 <= k < i ==> (#[trigger] all[k]) != id,
        decreases heard@.len() - i,
    {
        if heard[i].id == id {
            assert(all[i as int] == id);
            return true;
        }
        i = i + 1;
    }
    false
}

/// The clips that can be listened to: those that are heard, each once, in the order they're
/// heard in, with their names.
pub fn heard(clips: &Vec<(ItemId, Option<String>)>) -> (out: Vec<Heard>)
    ensures
        named(out@) == heard_clips(clips@, clips@.len() as int),
{
    let mut out: Vec<Heard> = Vec::new();
    let mut i: usize = 0;
    assert(named(out@) =~= heard_clips(clips@, 0));
    while i < clips.len()
        invariant
            i <= clips@.len(),
            named(out@) == heard_clips(clips@, i as int),
        decreases clips@.len() - i,
    {
        let id = clips[i].0;
        let there = is_heard(&out, id);
        proof {
            ids_are_named(out@, id);
        }
        if !there {
            if let Some(name) = &clips[i].1 {
                let ghost had = out@;
                out.push(Heard { id, name: name.clone() });
                assert(named(out@) =~= named(had).push((id, name@)));
            }
        }
        i = i + 1;
    }
    out
}

proof fn ids_are_named(heard: Seq<Heard>, id: ItemId)
    ensures
        ids(heard).contains(id) == has_id(named(heard), id),
{
    if ids(heard).contains(id) {
        let i = choose|i: int| 0 <= i < heard.len() && ids(heard)[i] == id;
        assert(named(heard)[i].0 == id);
    }
    if has_id(named(heard), id) {
        let i = choose|i: int| 0 <= i < heard.len() && (#[trigger] named(heard)[i]).0 == id;
        assert(ids(heard)[i] == id);
    }
}

/// No clip is offered twice.
pub proof fn heard_once(clips: Seq<(ItemId, Option<String>)>, n: int)
    requires
        0 <= n <= clips.len(),
    ensures
        forall|i: int, j: int|
            0 <= i < j < heard_clips(clips, n).len() ==> (#[trigger] heard_clips(clips, n)[i]).0 != (
            #[trigger] heard_clips(clips, n)[j]).0,
    decreases n,
{
    if n > 0 {
        heard_once(clips, n - 1);
        let rest = heard_clips(clips, n - 1);
        let all = heard_clips(clips, n);
        assert forall|i: int, j: int| 0 <= i < j < all.len() implies (#[trigger] all[i]).0 != (
        #[trigger] all[j]).0 by {
            assert(all[i] == rest[i]);
            if j < rest.len() {
                assert(all[j] == rest[j]);
            }
        }
    }
}

/// The name of a clip that's heard.
pub open spec fn name_in(heard: Seq<Heard>, id: ItemId, from: int) -> Option<Seq<char>>
    decreases heard.len() - from,
{
    if from < 0 || from >= heard.len() {
        None
    } else if heard[from].id == id {
        Some(heard[from].name@)
    } else {
        name_in(heard, id, from + 1)
    }
}

/// What a source is called.
pub fn source_name(source: SoundSource, heard: &Vec<Heard>) -> (out: String)
    ensures
        out@ == match source {
            SoundSource::Mix => "Everything playing"@,
            SoundSource::Item(id) => match name_in(heard@, id, 0) {
                Some(name) => name,
                None => "A clip that's gone"@,
            },
        },
{
    match source {
        SoundSource::Mix => "Everything playing".to_owned(),
        SoundSource::Item(id) => {
            let mut i: usize = 0;
            while i < heard.len()
                invariant
                    source == SoundSource::Item(id),
                    i <= heard@.len(),
                    name_in(heard@, id, 0) == name_in(heard@, id, i as int),
                decreases heard@.len() - i,
            {
                if heard[i].id == id {
                    return heard[i].name.clone();
                }
                i = i + 1;
            }
            "A clip that's gone".to_owned()
        },
    }
}

/// The first selected clip that's heard, other than the one whose property it is.
pub open spec fn usable_from(
    selected: Seq<ItemId>,
    item: ItemId,
    heard: Seq<ItemId>,
    from: int,
) -> Option<ItemId>
    decreases selected.len() - from,
{
    if from < 0 || from >= selected.len() {
        None
    } else if selected[from] != item && heard.contains(selected[from]) {
        Some(selected[from])
    } else {
        usable_from(selected, item, heard, from + 1)
    }
}

/// The clip "Use selected" listens to: the other selected clip that's heard.
pub fn use_selected(selected: &Vec<ItemId>, item: ItemId, heard: &Vec<Heard>) -> (out: Option<
    ItemId,
>)
    ensures
        out == usable_from(selected@, item, ids(heard@), 0),
{
    let ghost all = ids(heard@);
    let mut i: usize = 0;
    while i < selected.len()
        invariant
            all == ids(heard@),
            i <= selected@.len(),
            usable_from(selected@, item, all, 0) == usable_from(selected@, item, all, i as int),
        decreases selected@.len() - i,
    {
        if selected[i] != item && is_heard(heard, selected[i]) {
            return Some(selected[i]);
        }
        i = i + 1;
    }
    None
}

// ---- keeping up with the sound ----

/// What the levels were last worked out from: the document, and how many files were analyzed.
/// Documents are told apart by a number.
pub struct Follower {
    pub ready: bool,
    pub document: u64,
    pub files: usize,
    /// Every file was analyzed.
    pub complete: bool,
}

/// What's done about the levels.
#[derive(Copy, Clone, Debug, PartialEq, Eq, Structural)]
pub enum Refresh {
    /// They're as they should be.
    Keep,
    /// Nothing follows the sound: there are none.
    Drop,
    /// They're worked out from what was analyzed so far.
    Build,
}

impl Follower {
    /// There's nothing to do: the same document, with every file analyzed.
    pub fn is_current(&self, document: u64) -> (out: bool)
        ensures
            out == (self.complete && self.document == document),
    {
        self.complete && self.document == document
    }

    /// Nothing of the document follows the sound.
    pub fn nothing_follows(&mut self, document: u64) -> (out: Refresh)
        ensures
            *final(self) == (Follower { ready: false, document, files: 0, complete: true }),
            out == Refresh::Drop,
    {
        *self = Follower { ready: false, document, files: 0, complete: true };
        Refresh::Drop
    }

    /// `files` files of the document were analyzed by now; `pending` is whether others still
    /// are. A file that can't be analyzed stays silent, and isn't waited for.
    pub fn refresh(&mut self, document: u64, files: usize, pending: bool) -> (out: Refresh)
        ensures
            out == if !old(self).ready || old(self).document != document || old(self).files
                != files {
                Refresh::Build
            } else {
                Refresh::Keep
            },
            *final(self) == (Follower { ready: true, document, files, complete: !pending }),
    {
        let out = if !self.ready || self.document != document || self.files != files {
            Refresh::Build
        } else {
            Refresh::Keep
        };
        *self = Follower { ready: true, document, files, complete: !pending };
        out
    }
}

/// The window's title.
pub fn connection_title(clip: &str, param: &str) -> (out: String)
    ensures
        out@ == "Connection — "@ + clip@ + " · "@ + parts(param@, '.').last(),
{
    let names = split(param, '.');
    proof {
        parts_is_never_empty(param@, '.');
    }
    assert(views(names@).last() == names@[names@.len() - 1]@);
    let head = join3("Connection — ", clip, " · ");
    join2(head.as_str(), names[names.len() - 1].as_str())
}

/// What a property follows: which part of which sound. How far it's moved and what's too quiet
/// to move it are by number.
#[derive(Copy, Clone, Debug, PartialEq, Eq, Structural)]
pub struct Follow {
    pub source: SoundSource,
    pub band: SoundBand,
    pub amount: u64,
    pub floor: u64,
}

/// What was done to a connection: whether it changed, and whether the change is finished.
#[derive(Copy, Clone, Debug, PartialEq, Eq, Structural)]
pub struct Touched {
    pub changed: bool,
    pub finished: bool,
}

impl Follow {
    /// A new connection: to the loudness of everything that's playing.
    pub fn new(amount: u64, floor: u64) -> (out: Follow)
        ensures
            out == (Follow {
                source: SoundSource::Mix,
                band: SoundBand::Loudness,
                amount,
                floor,
            }),
    {
        Follow { source: SoundSource::Mix, band: SoundBand::Loudness, amount, floor }
    }

    /// Listens to another sound: picking the one it listens to changes nothing.
    pub fn listen(&mut self, source: SoundSource) -> (out: Touched)
        ensures
            *final(self) == (Follow { source, ..*old(self) }),
            out == (Touched {
                changed: source != old(self).source,
                finished: source != old(self).source,
            }),
    {
        let other = source != self.source;
        self.source = source;
        Touched { changed: other, finished: other }
    }

    /// Listens to the other selected clip: that's a change though it listens to it already.
    pub fn listen_to_selected(&mut self, selected: Option<ItemId>) -> (out: Touched)
        ensures
            match selected {
                Some(id) => *final(self) == (Follow {
                    source: SoundSource::Item(id),
                    ..*old(self)
                }) && out == (Touched { changed: true, finished: true }),
                None => *final(self) == *old(self) && out == (Touched {
                    changed: false,
                    finished: false,
                }),
            },
    {
        match selected {
            Some(id) => {
                self.source = SoundSource::Item(id);
                Touched { changed: true, finished: true }
            },
            None => Touched { changed: false, finished: false },
        }
    }

    /// Listens to another part of the sound.
    pub fn part(&mut self, band: SoundBand) -> (out: Touched)
        ensures
            *final(self) == (Follow { band, ..*old(self) }),
            out == (Touched { changed: band != old(self).band, finished: band != old(self).band }),
    {
        let other = band != self.band;
        self.band = band;
        Touched { changed: other, finished: other }
    }
}

/// How a number of the connection is held.
#[derive(Copy, Clone, Debug, PartialEq, Eq, Structural)]
pub struct NumberHeld {
    pub changed: bool,
    pub dragged: bool,
    pub focused: bool,
    pub let_go: bool,
    /// It lost the keyboard.
    pub left: bool,
}

impl NumberHeld {
    /// What changing the number does: it's finished when it's let go or left, or at once where
    /// it was neither dragged nor typed.
    pub fn touched(self) -> (out: Touched)
        ensures
            out == (Touched {
                changed: self.changed,
                finished: self.let_go || self.left || (self.changed && !self.dragged
                    && !self.focused),
            }),
    {
        Touched {
            changed: self.changed,
            finished: self.let_go || self.left || (self.changed && !self.dragged && !self.focused),
        }
    }
}

impl Touched {
    /// Both of two things were done.
    pub fn and(self, other: Touched) -> (out: Touched)
        ensures
            out == (Touched {
                changed: self.changed || other.changed,
                finished: self.finished || other.finished,
            }),
    {
        Touched {
            changed: self.changed || other.changed,
            finished: self.finished || other.finished,
        }
    }
}

/// What the connection editor asks for, and whether the step is sealed afterwards.
pub struct Step {
    pub edit: Option<Edit>,
    pub seal: bool,
}

/// The open connection editor: which property of which clip it edits.
pub struct ConnectionEditor {
    pub item: ItemId,
    pub target: ParamTarget,
    pub param: String,
}

impl ConnectionEditor {
    /// What the document is asked for when the property is to be stored as `source`, on the
    /// linked clips too: a step that goes on until it's sealed.
    pub open spec fn asks_for(self, editor: Editor, edit: Edit, source: Source) -> bool {
        &&& edit.label@ == "connection-editor"@
        &&& (edit.key matches Some(k) && k@ == "connection-editor"@)
        &&& views(edit.ops@) == fanned_out(
            editor.timeline@,
            editor.linked@,
            self.item,
            self.target,
            self.param@,
        ).map_values(setter(editor.timeline@.id, self.param@, source))
    }

    fn store(&self, editor: &Editor, source: Source) -> (out: Edit)
        ensures
            self.asks_for(*editor, out, source),
    {
        Edit {
            label: "connection-editor".to_owned(),
            key: Some("connection-editor".to_owned()),
            ops: editor.set_param(self.item, self.target, self.param.as_str(), source),
        }
    }

    /// Connects the property to the sound, or disconnects it: `source` is what it's stored as
    /// with or without the connection. Either is sealed at once.
    pub fn toggle(&self, editor: &Editor, source: Source) -> (out: Step)
        ensures
            out.edit matches Some(e) && self.asks_for(*editor, e, source),
            out.seal,
    {
        Step { edit: Some(self.store(editor, source)), seal: true }
    }

    /// Changes the connection: `source` is what it's stored as from then on. Nothing is asked
    /// for where nothing changed; it's sealed once the change is finished.
    pub fn change(&self, editor: &Editor, touched: Touched, source: Source) -> (out: Step)
        ensures
            match out.edit {
                Some(e) => touched.changed && self.asks_for(*editor, e, source),
                None => !touched.changed,
            },
            out.seal == touched.finished,
    {
        Step {
            edit: if touched.changed {
                Some(self.store(editor, source))
            } else {
                None
            },
            seal: touched.finished,
        }
    }

    /// What its window is called; it closes once its clip is gone (`None`).
    pub fn title(&self, editor: &Editor) -> (out: Option<String>)
        ensures
            match item_of(editor.timeline@, self.item) {
                Some(it) => out matches Some(t) && t@ == "Connection — "@ + it.name + " · "@ + parts(
                    self.param@,
                    '.',
                ).last(),
                None => out is None,
            },
    {
        match editor.timeline.item(self.item) {
            Some(it) => Some(connection_title(it.name.as_str(), self.param.as_str())),
            None => None,
        }
    }
}

} // verus!
