//! Every command the editor has, in one list: the source for the menu bar, the palette and
//! the action bar above the timeline.
use crate::icons::Shape;
use crate::seqs::{first_from, first_where, views};
use crate::text::same;
use vstd::prelude::*;

verus! {

/// Where a command belongs; also the palette's grouping, in the order it shows them.
#[derive(Copy, Clone, Debug, PartialEq, Eq, PartialOrd, Ord, Structural)]
pub enum Group {
    Project,
    Edit,
    Clip,
    Timeline,
    View,
}

impl Group {
    /// What the group is called.
    pub fn title(self) -> (out: &'static str)
        ensures
            out@ == match self {
                Group::Project => "Project"@,
                Group::Edit => "Edit"@,
                Group::Clip => "Clip"@,
                Group::Timeline => "Timeline"@,
                Group::View => "View"@,
            },
    {
        match self {
            Group::Project => "Project",
            Group::Edit => "Edit",
            Group::Clip => "Clip",
            Group::Timeline => "Timeline",
            Group::View => "View",
        }
    }

    /// Where the group comes in the order they're shown.
    pub open spec fn place(self) -> int {
        match self {
            Group::Project => 0,
            Group::Edit => 1,
            Group::Clip => 2,
            Group::Timeline => 3,
            Group::View => 4,
        }
    }
}

/// A command as it stands.
pub struct Command {
    /// A stable id.
    pub id: &'static str,
    pub title: &'static str,
    pub group: Group,
    /// As the user would type it; empty when there isn't one.
    pub shortcut: &'static str,
    /// What the action bar draws for it, if it belongs there.
    pub icon: Option<Shape>,
    pub enabled: bool,
    /// Worth offering for what's selected right now.
    pub contextual: bool,
}

#[verifier::ext_equal]
pub struct CommandModel {
    pub id: Seq<char>,
    pub title: Seq<char>,
    pub group: Group,
    pub shortcut: Seq<char>,
    pub icon: Option<Shape>,
    pub enabled: bool,
    pub contextual: bool,
}

impl View for Command {
    type V = CommandModel;

    open spec fn view(&self) -> CommandModel {
        CommandModel {
            id: self.id@,
            title: self.title@,
            group: self.group,
            shortcut: self.shortcut@,
            icon: self.icon,
            enabled: self.enabled,
            contextual: self.contextual,
        }
    }
}

/// What decides which commands can run.
#[derive(Copy, Clone, Debug, PartialEq, Eq, Structural)]
pub struct State {
    /// How many clips are selected.
    pub selected: usize,
    /// One clip is the selected one.
    pub one: bool,
    /// That one isn't a title.
    pub picture: bool,
    /// A selected clip is in a group.
    pub grouped: bool,
    /// There are clips on the timeline.
    pub clips: bool,
    pub exporting: bool,
    pub can_undo: bool,
    pub can_redo: bool,
    /// Clips were copied.
    pub clipboard: bool,
    /// A selected clip has sound that can be taken out.
    pub extractable: bool,
    /// A compound clip is selected.
    pub compound: bool,
    /// Effects were copied.
    pub effects: bool,
    /// A transform was copied.
    pub transform: bool,
}

pub open spec fn model(
    id: Seq<char>,
    title: Seq<char>,
    group: Group,
    shortcut: Seq<char>,
    icon: Option<Shape>,
    enabled: bool,
    contextual: bool,
) -> CommandModel {
    CommandModel { id, title, group, shortcut, icon, enabled, contextual }
}

/// How many commands there are.
pub const COUNT: usize = 40;

/// A command, by its place in the list.
pub open spec fn command_at(s: State, i: int) -> CommandModel {
    if i == 0 {
        model("project.new"@, "New project"@, Group::Project, ""@, Some(Shape::Add), true, false)
    } else if i == 1 {
        model("project.open"@, "Open project…"@, Group::Project, ""@, Some(Shape::FolderOpen), true, false)
    } else if i == 2 {
        model("project.save"@, "Save"@, Group::Project, "Ctrl+S"@, Some(Shape::Save), true, false)
    } else if i == 3 {
        model("project.save_as"@, "Save as…"@, Group::Project, "Ctrl+Shift+S"@, Some(Shape::Save), true, false)
    } else if i == 4 {
        model("project.import"@, "Import media…"@, Group::Project, "Ctrl+I"@, Some(Shape::Upload), true, false)
    } else if i == 5 {
        model("project.export"@, "Export…"@, Group::Project, ""@, Some(Shape::Download), !s.exporting, false)
    } else if i == 6 {
        model("project.home"@, "Home: projects and plugins"@, Group::Project, ""@, Some(Shape::Home), true, false)
    } else if i == 7 {
        model("edit.undo"@, "Undo"@, Group::Edit, "Ctrl+Z"@, Some(Shape::Undo), s.can_undo, false)
    } else if i == 8 {
        model("edit.redo"@, "Redo"@, Group::Edit, "Ctrl+Shift+Z"@, Some(Shape::Redo), s.can_redo, false)
    } else if i == 9 {
        model("edit.cut"@, "Cut"@, Group::Edit, "Ctrl+X"@, None, s.selected > 0, false)
    } else if i == 10 {
        model("edit.copy"@, "Copy"@, Group::Edit, "Ctrl+C"@, None, s.selected > 0, false)
    } else if i == 11 {
        model("edit.paste"@, "Paste at playhead"@, Group::Edit, "Ctrl+V"@, None, s.clipboard, false)
    } else if i == 12 {
        model("edit.duplicate"@, "Duplicate"@, Group::Edit, "Ctrl+D"@, Some(Shape::Copy), s.selected > 0, true)
    } else if i == 13 {
        model("edit.delete"@, "Delete"@, Group::Edit, "Del"@, Some(Shape::Delete), s.selected > 0, true)
    } else if i == 14 {
        model("edit.ripple_delete"@, "Ripple delete"@, Group::Edit, "Shift+Del"@, None, s.selected > 0, false)
    } else if i == 15 {
        model("edit.select_all"@, "Select all clips"@, Group::Edit, "Ctrl+A"@, None, s.clips, false)
    } else if i == 16 {
        model("clip.split"@, "Split at playhead"@, Group::Clip, "S"@, Some(Shape::Cut), s.selected > 0, true)
    } else if i == 17 {
        model("clip.group"@, "Group"@, Group::Clip, "Ctrl+G"@, Some(Shape::Group), s.selected >= 2, true)
    } else if i == 18 {
        model("clip.ungroup"@, "Ungroup"@, Group::Clip, "Ctrl+Shift+G"@, Some(Shape::Group), s.grouped, s.grouped)
    } else if i == 19 {
        model("clip.enable"@, "Enable or disable"@, Group::Clip, ""@, Some(Shape::HalfCircle), s.selected > 0, true)
    } else if i == 20 {
        model("clip.extract_audio"@, "Extract audio"@, Group::Clip, ""@, Some(Shape::Volume), s.extractable, s.extractable)
    } else if i == 21 {
        model("clip.compound"@, "Make a compound clip (As media)"@, Group::Clip, ""@, None, s.selected > 0, false)
    } else if i == 22 {
        model("clip.nest"@, "Nest into one clip"@, Group::Clip, ""@, None, s.selected > 0, false)
    } else if i == 23 {
        model("clip.break"@, "Break compound apart"@, Group::Clip, ""@, Some(Shape::Move), s.compound, s.compound)
    } else if i == 24 {
        model("clip.copy_effects"@, "Copy effects"@, Group::Clip, ""@, None, s.one, false)
    } else if i == 25 {
        model("clip.paste_effects"@, "Paste effects"@, Group::Clip, ""@, None, s.effects && s.selected > 0, false)
    } else if i == 26 {
        model("clip.copy_transform"@, "Copy transform"@, Group::Clip, ""@, None, s.one && s.picture, false)
    } else if i == 27 {
        model("clip.paste_transform"@, "Paste transform"@, Group::Clip, ""@, None, s.transform && s.selected > 0, false)
    } else if i == 28 {
        model("timeline.add_text"@, "Add a title"@, Group::Timeline, "Ctrl+T"@, Some(Shape::Title), true, false)
    } else if i == 29 {
        model("timeline.add_video_track"@, "Add a video track"@, Group::Timeline, ""@, None, true, false)
    } else if i == 30 {
        model("timeline.add_audio_track"@, "Add an audio track"@, Group::Timeline, ""@, None, true, false)
    } else if i == 31 {
        model("timeline.snap"@, "Snapping on or off"@, Group::Timeline, ""@, Some(Shape::Magnet), true, false)
    } else if i == 32 {
        model("timeline.fit"@, "Fit the whole sequence"@, Group::Timeline, ""@, None, true, false)
    } else if i == 33 {
        model("view.play"@, "Play or pause"@, Group::View, "Space"@, None, true, false)
    } else if i == 34 {
        model("view.start"@, "Go to the start"@, Group::View, "Home"@, None, true, false)
    } else if i == 35 {
        model("view.end"@, "Go to the end"@, Group::View, "End"@, None, true, false)
    } else if i == 36 {
        model("view.zoom_fit"@, "Fit the viewer"@, Group::View, "Ctrl+0"@, None, true, false)
    } else if i == 37 {
        model("view.actual_size"@, "Viewer at 100%"@, Group::View, "Ctrl+1"@, None, true, false)
    } else if i == 38 {
        model("view.thirds"@, "Rule-of-thirds guides"@, Group::View, ""@, None, true, false)
    } else {
        model("view.safe"@, "Title and action safe areas"@, Group::View, ""@, None, true, false)
    }
}

/// The list of commands.
pub open spec fn command_list(s: State) -> Seq<CommandModel> {
    Seq::new(COUNT as nat, |i: int| command_at(s, i))
}

fn cmd(
    id: &'static str,
    title: &'static str,
    group: Group,
    shortcut: &'static str,
    icon: Option<Shape>,
    enabled: bool,
    contextual: bool,
) -> (out: Command)
    ensures
        out@ == model(id@, title@, group, shortcut@, icon, enabled, contextual),
{
    Command { id, title, group, shortcut, icon, enabled, contextual }
}

/// The commands as they stand.
pub fn commands(s: State) -> (out: Vec<Command>)
    ensures
        views(out@) == command_list(s),
{
    let out: Vec<Command> = vec![
        cmd("project.new", "New project", Group::Project, "", Some(Shape::Add), true, false),
        cmd("project.open", "Open project…", Group::Project, "", Some(Shape::FolderOpen), true, false),
        cmd("project.save", "Save", Group::Project, "Ctrl+S", Some(Shape::Save), true, false),
        cmd("project.save_as", "Save as…", Group::Project, "Ctrl+Shift+S", Some(Shape::Save), true, false),
        cmd("project.import", "Import media…", Group::Project, "Ctrl+I", Some(Shape::Upload), true, false),
        cmd("project.export", "Export…", Group::Project, "", Some(Shape::Download), !s.exporting, false),
        cmd("project.home", "Home: projects and plugins", Group::Project, "", Some(Shape::Home), true, false),
        cmd("edit.undo", "Undo", Group::Edit, "Ctrl+Z", Some(Shape::Undo), s.can_undo, false),
        cmd("edit.redo", "Redo", Group::Edit, "Ctrl+Shift+Z", Some(Shape::Redo), s.can_redo, false),
        cmd("edit.cut", "Cut", Group::Edit, "Ctrl+X", None, s.selected > 0, false),
        cmd("edit.copy", "Copy", Group::Edit, "Ctrl+C", None, s.selected > 0, false),
        cmd("edit.paste", "Paste at playhead", Group::Edit, "Ctrl+V", None, s.clipboard, false),
        cmd("edit.duplicate", "Duplicate", Group::Edit, "Ctrl+D", Some(Shape::Copy), s.selected > 0, true),
        cmd("edit.delete", "Delete", Group::Edit, "Del", Some(Shape::Delete), s.selected > 0, true),
        cmd("edit.ripple_delete", "Ripple delete", Group::Edit, "Shift+Del", None, s.selected > 0, false),
        cmd("edit.select_all", "Select all clips", Group::Edit, "Ctrl+A", None, s.clips, false),
        cmd("clip.split", "Split at playhead", Group::Clip, "S", Some(Shape::Cut), s.selected > 0, true),
        cmd("clip.group", "Group", Group::Clip, "Ctrl+G", Some(Shape::Group), s.selected >= 2, true),
        cmd("clip.ungroup", "Ungroup", Group::Clip, "Ctrl+Shift+G", Some(Shape::Group), s.grouped, s.grouped),
        cmd("clip.enable", "Enable or disable", Group::Clip, "", Some(Shape::HalfCircle), s.selected > 0, true),
        cmd("clip.extract_audio", "Extract audio", Group::Clip, "", Some(Shape::Volume), s.extractable, s.extractable),
        cmd("clip.compound", "Make a compound clip (As media)", Group::Clip, "", None, s.selected > 0, false),
        cmd("clip.nest", "Nest into one clip", Group::Clip, "", None, s.selected > 0, false),
        cmd("clip.break", "Break compound apart", Group::Clip, "", Some(Shape::Move), s.compound, s.compound),
        cmd("clip.copy_effects", "Copy effects", Group::Clip, "", None, s.one, false),
        cmd("clip.paste_effects", "Paste effects", Group::Clip, "", None, s.effects && s.selected > 0, false),
        cmd("clip.copy_transform", "Copy transform", Group::Clip, "", None, s.one && s.picture, false),
        cmd("clip.paste_transform", "Paste transform", Group::Clip, "", None, s.transform && s.selected > 0, false),
        cmd("timeline.add_text", "Add a title", Group::Timeline, "Ctrl+T", Some(Shape::Title), true, false),
        cmd("timeline.add_video_track", "Add a video track", Group::Timeline, "", None, true, false),
        cmd("timeline.add_audio_track", "Add an audio track", Group::Timeline, "", None, true, false),
        cmd("timeline.snap", "Snapping on or off", Group::Timeline, "", Some(Shape::Magnet), true, false),
        cmd("timeline.fit", "Fit the whole sequence", Group::Timeline, "", None, true, false),
        cmd("view.play", "Play or pause", Group::View, "Space", None, true, false),
        cmd("view.start", "Go to the start", Group::View, "Home", None, true, false),
        cmd("view.end", "Go to the end", Group::View, "End", None, true, false),
        cmd("view.zoom_fit", "Fit the viewer", Group::View, "Ctrl+0", None, true, false),
        cmd("view.actual_size", "Viewer at 100%", Group::View, "Ctrl+1", None, true, false),
        cmd("view.thirds", "Rule-of-thirds guides", Group::View, "", None, true, false),
        cmd("view.safe", "Title and action safe areas", Group::View, "", None, true, false),
    ];
    assert(views(out@) =~= command_list(s));
    out
}

/// The command with an id, where it can run.
pub open spec fn runs(id: Seq<char>) -> spec_fn(CommandModel) -> bool {
    |c: CommandModel| c.id == id && c.enabled
}

/// Finds the command to run for an id: by its place in the list, if it's available.
pub fn run_command(s: State, id: &str) -> (out: Option<usize>)
    ensures
        match first_where(command_list(s), runs(id@)) {
            Some(i) => out == Some(i as usize) && 0 <= i < COUNT,
            None => out is None,
        },
{
    let list = commands(s);
    let ghost all = command_list(s);
    let ghost p = runs(id@);
    let mut i: usize = 0;
    while i < list.len()
        invariant
            all == command_list(s),
            views(list@) == all,
            p == runs(id@),
            i <= list@.len(),
            first_where(all, p) == first_from(all, p, i as int),
        decreases list@.len() - i,
    {
        assert(all[i as int] == list@[i as int]@);
        if list[i].enabled && same(list[i].id, id) {
            return Some(i);
        }
        i = i + 1;
    }
    None
}

/// A number made of an id's length and three of its characters.
spec fn mark(id: Seq<char>) -> int {
    let n = id.len();
    n * 0x1_0000_0000 + (if n > 5 {
        id[5] as int * 0x10000
    } else {
        0
    }) + (if n > 8 {
        id[8] as int * 0x100
    } else {
        0
    }) + (if n > 13 {
        id[13] as int
    } else {
        0
    })
}

/// The number of each command's id.
spec fn mark_at(i: int) -> int {
    if i == 0 {
        0xb00636e00
    } else if i == 1 {
        0xc00636f00
    } else if i == 2 {
        0xc00637300
    } else if i == 3 {
        0xf00637361
    } else if i == 4 {
        0xe00636974
    } else if i == 5 {
        0xe00636574
    } else if i == 6 {
        0xc00636800
    } else if i == 7 {
        0x900756f00
    } else if i == 8 {
        0x900726f00
    } else if i == 9 {
        0x800630000
    } else if i == 10 {
        0x900637900
    } else if i == 11 {
        0xa00707400
    } else if i == 12 {
        0xe00646c65
    } else if i == 13 {
        0xb00646500
    } else if i == 14 {
        0x1200727065
    } else if i == 15 {
        0xf0073656c
    } else if i == 16 {
        0xa00736900
    } else if i == 17 {
        0xa00677500
    } else if i == 18 {
        0xc00757200
    } else if i == 19 {
        0xb00656200
    } else if i == 20 {
        0x1200657261
    } else if i == 21 {
        0xd00637000
    } else if i == 22 {
        0x9006e7400
    } else if i == 23 {
        0xa00626100
    } else if i == 24 {
        0x1100637965
    } else if i == 25 {
        0x1200707466
    } else if i == 26 {
        0x130063796e
    } else if i == 27 {
        0x1400707461
    } else if i == 28 {
        0x1100692e74
    } else if i == 29 {
        0x1800692e76
    } else if i == 30 {
        0x1800692e61
    } else if i == 31 {
        0xd00692e00
    } else if i == 32 {
        0xc00692e00
    } else if i == 33 {
        0x900707900
    } else if i == 34 {
        0xa00737200
    } else if i == 35 {
        0x800650000
    } else if i == 36 {
        0xd007a6d00
    } else if i == 37 {
        0x1000617569
    } else if i == 38 {
        0xb00747200
    } else {
        0x900736500
    }
}

/// A number made of a shortcut's length and its last character.
spec fn key_mark(shortcut: Seq<char>) -> int {
    shortcut.len() * 0x10000 + (if shortcut.len() > 0 {
        shortcut.last() as int
    } else {
        0
    })
}

/// The number of each command's shortcut.
spec fn key_mark_at(i: int) -> int {
    if i == 2 {
        0x60053
    } else if i == 3 {
        0xc0053
    } else if i == 4 {
        0x60049
    } else if i == 7 {
        0x6005a
    } else if i == 8 {
        0xc005a
    } else if i == 9 {
        0x60058
    } else if i == 10 {
        0x60043
    } else if i == 11 {
        0x60056
    } else if i == 12 {
        0x60044
    } else if i == 13 {
        0x3006c
    } else if i == 14 {
        0x9006c
    } else if i == 15 {
        0x60041
    } else if i == 16 {
        0x10053
    } else if i == 17 {
        0x60047
    } else if i == 18 {
        0xc0047
    } else if i == 28 {
        0x60054
    } else if i == 33 {
        0x50065
    } else if i == 34 {
        0x40065
    } else if i == 35 {
        0x30064
    } else if i == 36 {
        0x60030
    } else if i == 37 {
        0x60031
    } else {
        0
    }
}

/// What the texts of a command are, as far as it's told by numbers.
proof fn marks_are_right(s: State, i: int)
    requires
        0 <= i < COUNT,
    ensures
        mark(command_at(s, i).id) == mark_at(i),
        key_mark(command_at(s, i).shortcut) == key_mark_at(i),
        command_at(s, i).shortcut.len() > 0 ==> key_mark_at(i) > 0,
        command_at(s, i).id.len() > 0,
        command_at(s, i).title.len() > 0,
{
    reveal_strlit("project.new");
    reveal_strlit("project.open");
    reveal_strlit("project.save");
    reveal_strlit("project.save_as");
    reveal_strlit("project.import");
    reveal_strlit("project.export");
    reveal_strlit("project.home");
    reveal_strlit("edit.undo");
    reveal_strlit("edit.redo");
    reveal_strlit("edit.cut");
    reveal_strlit("edit.copy");
    reveal_strlit("edit.paste");
    reveal_strlit("edit.duplicate");
    reveal_strlit("edit.delete");
    reveal_strlit("edit.ripple_delete");
    reveal_strlit("edit.select_all");
    reveal_strlit("clip.split");
    reveal_strlit("clip.group");
    reveal_strlit("clip.ungroup");
    reveal_strlit("clip.enable");
    reveal_strlit("clip.extract_audio");
    reveal_strlit("clip.compound");
    reveal_strlit("clip.nest");
    reveal_strlit("clip.break");
    reveal_strlit("clip.copy_effects");
    reveal_strlit("clip.paste_effects");
    reveal_strlit("clip.copy_transform");
    reveal_strlit("clip.paste_transform");
    reveal_strlit("timeline.add_text");
    reveal_strlit("timeline.add_video_track");
    reveal_strlit("timeline.add_audio_track");
    reveal_strlit("timeline.snap");
    reveal_strlit("timeline.fit");
    reveal_strlit("view.play");
    reveal_strlit("view.start");
    reveal_strlit("view.end");
    reveal_strlit("view.zoom_fit");
    reveal_strlit("view.actual_size");
    reveal_strlit("view.thirds");
    reveal_strlit("view.safe");
    reveal_strlit("New project");
    reveal_strlit("Open project…");
    reveal_strlit("Save");
    reveal_strlit("Save as…");
    reveal_strlit("Import media…");
    reveal_strlit("Export…");
    reveal_strlit("Home: projects and plugins");
    reveal_strlit("Undo");
    reveal_strlit("Redo");
    reveal_strlit("Cut");
    reveal_strlit("Copy");
    reveal_strlit("Paste at playhead");
    reveal_strlit("Duplicate");
    reveal_strlit("Delete");
    reveal_strlit("Ripple delete");
    reveal_strlit("Select all clips");
    reveal_strlit("Split at playhead");
    reveal_strlit("Group");
    reveal_strlit("Ungroup");
    reveal_strlit("Enable or disable");
    reveal_strlit("Extract audio");
    reveal_strlit("Make a compound clip (As media)");
    reveal_strlit("Nest into one clip");
    reveal_strlit("Break compound apart");
    reveal_strlit("Copy effects");
    reveal_strlit("Paste effects");
    reveal_strlit("Copy transform");
    reveal_strlit("Paste transform");
    reveal_strlit("Add a title");
    reveal_strlit("Add a video track");
    reveal_strlit("Add an audio track");
    reveal_strlit("Snapping on or off");
    reveal_strlit("Fit the whole sequence");
    reveal_strlit("Play or pause");
    reveal_strlit("Go to the start");
    reveal_strlit("Go to the end");
    reveal_strlit("Fit the viewer");
    reveal_strlit("Viewer at 100%");
    reveal_strlit("Rule-of-thirds guides");
    reveal_strlit("Title and action safe areas");
    reveal_strlit("");
    reveal_strlit("Ctrl+S");
    reveal_strlit("Ctrl+Shift+S");
    reveal_strlit("Ctrl+I");
    reveal_strlit("Ctrl+Z");
    reveal_strlit("Ctrl+Shift+Z");
    reveal_strlit("Ctrl+X");
    reveal_strlit("Ctrl+C");
    reveal_strlit("Ctrl+V");
    reveal_strlit("Ctrl+D");
    reveal_strlit("Del");
    reveal_strlit("Shift+Del");
    reveal_strlit("Ctrl+A");
    reveal_strlit("S");
    reveal_strlit("Ctrl+G");
    reveal_strlit("Ctrl+Shift+G");
    reveal_strlit("Ctrl+T");
    reveal_strlit("Space");
    reveal_strlit("Home");
    reveal_strlit("End");
    reveal_strlit("Ctrl+0");
    reveal_strlit("Ctrl+1");
    let id = command_at(s, i).id;
    assert(id[5] == id[5] && id[8] == id[8] && id[13] == id[13]);
}

/// No two commands have the same id.
pub proof fn ids_tell_commands_apart(s: State, i: int, j: int)
    requires
        0 <= i < COUNT,
        0 <= j < COUNT,
        command_at(s, i).id == command_at(s, j).id,
    ensures
        i == j,
{
    marks_are_right(s, i);
    marks_are_right(s, j);
}

/// No two commands share a shortcut.
pub proof fn shortcuts_tell_commands_apart(s: State, i: int, j: int)
    requires
        0 <= i < COUNT,
        0 <= j < COUNT,
        command_at(s, i).shortcut.len() > 0,
        command_at(s, i).shortcut == command_at(s, j).shortcut,
    ensures
        i == j,
{
    marks_are_right(s, i);
    marks_are_right(s, j);
}

/// Every command has a name and an id, and the list is in the order of its groups.
pub proof fn commands_have_names(s: State, i: int)
    requires
        0 <= i < COUNT,
    ensures
        command_at(s, i).title.len() > 0,
        command_at(s, i).id.len() > 0,
        i + 1 < COUNT ==> command_at(s, i).group.place() <= command_at(s, i + 1).group.place(),
{
    marks_are_right(s, i);
}

/// A command that claims a place on the action bar has an icon.
pub proof fn the_action_bar_has_icons(s: State, i: int)
    requires
        0 <= i < COUNT,
        command_at(s, i).contextual,
    ensures
        command_at(s, i).icon is Some,
{
}

/// Nothing is offered on the clips that are selected while none is.
pub proof fn nothing_selected_nothing_offered(s: State, i: int)
    requires
        0 <= i < COUNT,
        s.selected == 0,
        !s.one,
        !s.grouped,
        !s.extractable,
        !s.compound,
        command_at(s, i).group == Group::Clip,
    ensures
        !command_at(s, i).enabled,
{
}

} // verus!
