//! Where the panels go, and remembering it per project.
use crate::text::{before, before_is_strict, before_is_total, before_is_transitive, is_before, same};
use vstd::prelude::*;

verus! {

/// Where the viewer and the properties go.
#[derive(Copy, Clone, Debug, PartialEq, Eq, Structural)]
pub enum Layout {
    /// The viewer in the middle, the properties in the tall column on the right.
    Standard,
    /// The other way round, for upright formats.
    Vertical,
    /// Vertical while the format being edited is taller than it is wide.
    Auto,
}

/// How a project is seen: its layout, format and panel sizes, in whole points.
#[derive(Copy, Clone, Debug, PartialEq, Eq, Structural)]
pub struct ProjectView {
    pub layout: Option<Layout>,
    pub variant: Option<u64>,
    pub inspector: u32,
    pub media: u32,
    pub timeline: u32,
    pub viewer: u32,
}

/// The layout in effect: the project's own, or the one from the settings.
pub open spec fn layout_in(own: Option<Layout>, settings: Layout) -> Layout {
    match own {
        Some(l) => l,
        None => settings,
    }
}

/// The layout in effect: the project's own, or the one from the settings.
pub fn layout(own: Option<Layout>, settings: Layout) -> (out: Layout)
    ensures
        out == layout_in(own, settings),
{
    match own {
        Some(l) => l,
        None => settings,
    }
}

/// The viewer is in the tall column.
pub open spec fn is_vertical(layout: Layout, width: u32, height: u32) -> bool {
    match layout {
        Layout::Vertical => true,
        Layout::Standard => false,
        Layout::Auto => height > width,
    }
}

/// Whether the viewer is in the tall column, for a format of that size.
pub fn vertical_layout(layout: Layout, width: u32, height: u32) -> (out: bool)
    ensures
        out == is_vertical(layout, width, height),
{
    match layout {
        Layout::Vertical => true,
        Layout::Standard => false,
        Layout::Auto => height > width,
    }
}

/// How the open project is seen: its own view, the layout that the settings say where it has
/// none, and a count that goes up whenever the panels are to be drawn anew, so that they take
/// the sizes they're given.
#[derive(Copy, Clone, Debug, PartialEq, Eq, Structural)]
pub struct OpenView {
    pub view: ProjectView,
    pub settings: Layout,
    pub epoch: u64,
}

impl OpenView {
    /// The viewer is in the tall column, for a format of that size.
    pub open spec fn spec_vertical(self, width: u32, height: u32) -> bool {
        is_vertical(layout_in(self.view.layout, self.settings), width, height)
    }

    /// The view with the other layout as the project's own, and its panels drawn anew.
    pub open spec fn toggled(self, width: u32, height: u32) -> OpenView {
        OpenView {
            view: ProjectView {
                layout: Some(
                    if self.spec_vertical(width, height) {
                        Layout::Standard
                    } else {
                        Layout::Vertical
                    },
                ),
                ..self.view
            },
            epoch: (self.epoch + 1) as u64,
            ..self
        }
    }

    /// Whether the viewer is in the tall column, for a format of that size.
    pub fn vertical_layout(&self, width: u32, height: u32) -> (out: bool)
        ensures
            out == self.spec_vertical(width, height),
    {
        vertical_layout(layout(self.view.layout, self.settings), width, height)
    }

    /// Switches the project between the standard and the vertical layout; the panels are
    /// drawn anew.
    pub fn toggle_layout(&mut self, width: u32, height: u32)
        requires
            old(self).epoch < u64::MAX,
        ensures
            *final(self) == old(self).toggled(width, height),
            final(self).epoch == old(self).epoch + 1,
    {
        self.view.layout = Some(
            if self.vertical_layout(width, height) {
                Layout::Standard
            } else {
                Layout::Vertical
            },
        );
        self.epoch = self.epoch + 1;
    }

    /// Puts back how the project was last seen (`saved`; `plain` is how a new one is), with
    /// its panels drawn anew. The place of the format to show is among `ids`; it's `now` where
    /// none is remembered.
    pub fn restore_view(
        &mut self,
        saved: Option<ProjectView>,
        plain: ProjectView,
        ids: &Vec<u64>,
        now: usize,
    ) -> (out: usize)
        requires
            old(self).epoch < u64::MAX,
        ensures
            final(self).view == match saved {
                Some(v) => v,
                None => plain,
            },
            final(self).settings == old(self).settings,
            final(self).epoch == old(self).epoch + 1,
            out == match final(self).view.variant {
                Some(id) => format_place(ids@, id, 0),
                None => now as int,
            },
    {
        self.view = match saved {
            Some(v) => v,
            None => plain,
        };
        self.epoch = self.epoch + 1;
        restored_format(self.view, ids, now)
    }
}

/// Switching always changes where the viewer is, whatever the layout was, and switching twice
/// puts it back. The settings stay as they are, and each time the panels are drawn anew.
pub proof fn switching_moves_the_viewer(v: OpenView, width: u32, height: u32)
    requires
        v.epoch < u64::MAX - 1,
    ensures
        ({
            let once = v.toggled(width, height);
            let twice = once.toggled(width, height);
            &&& once.spec_vertical(width, height) == !v.spec_vertical(width, height)
            &&& twice.spec_vertical(width, height) == v.spec_vertical(width, height)
            &&& once.settings == v.settings
            &&& once.epoch == v.epoch + 1
            &&& twice.epoch == v.epoch + 2
        }),
{
}

impl ProjectView {
    /// Notes the panel sizes; `right` is that of the tall column: the viewer's or the
    /// properties'.
    pub fn note_sizes(&mut self, vertical: bool, right: u32, media: u32, timeline: u32)
        ensures
            *final(self) == (ProjectView {
                viewer: if vertical {
                    right
                } else {
                    old(self).viewer
                },
                inspector: if vertical {
                    old(self).inspector
                } else {
                    right
                },
                media,
                timeline,
                ..*old(self)
            }),
    {
        if vertical {
            self.viewer = right;
        } else {
            self.inspector = right;
        }
        self.media = media;
        self.timeline = timeline;
    }
}

/// The place of the format a project was last seen in (the first one, where it's gone).
pub open spec fn format_place(ids: Seq<u64>, id: u64, from: int) -> int
    decreases ids.len() - from,
{
    if from < 0 || from >= ids.len() {
        0
    } else if ids[from] == id {
        from
    } else {
        format_place(ids, id, from + 1)
    }
}

/// The format to show: the one the project was last seen in, or the one shown now.
pub fn restored_format(view: ProjectView, ids: &Vec<u64>, now: usize) -> (out: usize)
    ensures
        out == match view.variant {
            Some(id) => format_place(ids@, id, 0),
            None => now as int,
        },
{
    match view.variant {
        Some(id) => {
            let mut i: usize = 0;
            while i < ids.len()
                invariant
                    view.variant == Some(id),
                    i <= ids@.len(),
                    format_place(ids@, id, 0) == format_place(ids@, id, i as int),
                decreases ids@.len() - i,
            {
                if ids[i] == id {
                    return i;
                }
                i = i + 1;
            }
            0
        },
        None => now,
    }
}

// ---- the views that are remembered ----

/// How projects were last seen, by the paths of their files, in the order of those.
pub struct Views {
    pub entries: Vec<(String, ProjectView)>,
}

/// In order, each once.
pub open spec fn in_path_order(paths: Seq<Seq<char>>) -> bool {
    forall|i: int, j: int|
        0 <= i < j < paths.len() ==> before(#[trigger] paths[i], #[trigger] paths[j])
}

/// The first place whose path isn't before `key`.
pub open spec fn place_for(paths: Seq<Seq<char>>, key: Seq<char>, from: int) -> int
    decreases paths.len() - from,
{
    if from < 0 || from >= paths.len() || !before(paths[from], key) {
        from
    } else {
        place_for(paths, key, from + 1)
    }
}

/// What's remembered, as paths and views.
pub open spec fn remembered(entries: Seq<(String, ProjectView)>) -> Seq<(Seq<char>, ProjectView)> {
    Seq::new(entries.len(), |i: int| (entries[i].0@, entries[i].1))
}

/// The paths of what's remembered.
pub open spec fn keys_of(list: Seq<(Seq<char>, ProjectView)>) -> Seq<Seq<char>> {
    Seq::new(list.len(), |i: int| list[i].0)
}

/// How a project was last seen, among what's remembered in the order of the paths.
pub open spec fn seen(list: Seq<(Seq<char>, ProjectView)>, key: Seq<char>) -> Option<ProjectView> {
    let at = place_for(keys_of(list), key, 0);
    if at < list.len() && list[at].0 == key {
        Some(list[at].1)
    } else {
        None
    }
}

/// What's remembered with one more view, or a newer one for the same project.
pub open spec fn with_view(
    list: Seq<(Seq<char>, ProjectView)>,
    key: Seq<char>,
    view: ProjectView,
) -> Seq<(Seq<char>, ProjectView)> {
    let at = place_for(keys_of(list), key, 0);
    if at < list.len() && list[at].0 == key {
        list.update(at, (key, view))
    } else {
        list.insert(at, (key, view))
    }
}

/// No more than `most` of them: the first ones go.
pub open spec fn trimmed_to(list: Seq<(Seq<char>, ProjectView)>, most: int) -> Seq<
    (Seq<char>, ProjectView),
> {
    if list.len() > most {
        list.skip(list.len() - most)
    } else {
        list
    }
}

impl Views {
    /// The paths are in order, each once.
    pub open spec fn well_formed(&self) -> bool {
        in_path_order(keys_of(remembered(self.entries@)))
    }

    fn find(&self, key: &str) -> (out: usize)
        ensures
            out == place_for(keys_of(remembered(self.entries@)), key@, 0),
            out <= self.entries@.len(),
    {
        let ghost keys = keys_of(remembered(self.entries@));
        let mut i: usize = 0;
        while i < self.entries.len() && is_before(self.entries[i].0.as_str(), key)
            invariant
                keys == keys_of(remembered(self.entries@)),
                i <= self.entries@.len(),
                place_for(keys, key@, 0) == place_for(keys, key@, i as int),
            ensures
                i <= self.entries@.len(),
                i == place_for(keys, key@, 0),
            decreases self.entries@.len() - i,
        {
            i = i + 1;
        }
        i
    }

    /// How a project was last seen.
    pub fn get(&self, key: &str) -> (out: Option<ProjectView>)
        ensures
            out == seen(remembered(self.entries@), key@),
    {
        let at: usize = self.find(key);
        if at < self.entries.len() && same(self.entries[at].0.as_str(), key) {
            Some(self.entries[at].1)
        } else {
            None
        }
    }

    /// Remembers how a project is seen, forgetting the first ones over `most`.
    pub fn remember(&mut self, key: &str, view: ProjectView, most: usize)
        requires
            old(self).well_formed(),
        ensures
            final(self).well_formed(),
            remembered(final(self).entries@) == trimmed_to(
                with_view(remembered(old(self).entries@), key@, view),
                most as int,
            ),
    {
        let at: usize = self.find(key);
        let ghost list = remembered(self.entries@);
        if at < self.entries.len() && same(self.entries[at].0.as_str(), key) {
            self.entries.set(at, (key.to_owned(), view));
            assert(remembered(self.entries@) =~= list.update(at as int, (key@, view)));
        } else {
            self.entries.insert(at, (key.to_owned(), view));
            assert(remembered(self.entries@) =~= list.insert(at as int, (key@, view)));
        }
        let ghost all = remembered(self.entries@);
        let ghost mut gone: int = 0;
        assert(all.skip(0) =~= all);
        while self.entries.len() > most
            invariant
                0 <= gone <= all.len(),
                remembered(self.entries@) == all.skip(gone),
                gone > 0 ==> self.entries@.len() >= most,
            decreases self.entries@.len(),
        {
            let ghost had = self.entries@;
            let _ = self.entries.remove(0);
            proof {
                assert(remembered(had).len() == had.len());
                assert(remembered(self.entries@) =~= remembered(had).skip(1));
                assert(all.skip(gone).skip(1) =~= all.skip(gone + 1));
                gone = gone + 1;
            }
        }
        assert(remembered(self.entries@).len() == self.entries@.len());
        assert(remembered(self.entries@) =~= trimmed_to(all, most as int));
        proof {
            views_stay_in_order(list, key@, view, most as int);
        }
    }

    /// Whether how a project is seen has to be remembered anew: it changed, and nothing is
    /// being dragged.
    pub fn is_news(&self, key: &str, view: ProjectView, pressed: bool) -> (out: bool)
        ensures
            out == (seen(remembered(self.entries@), key@) != Some(view) && !pressed),
    {
        match self.get(key) {
            Some(was) => was != view && !pressed,
            None => !pressed,
        }
    }
}

/// The place for a path is past everything that comes before it.
proof fn place_is_right(paths: Seq<Seq<char>>, key: Seq<char>, from: int)
    requires
        0 <= from <= paths.len(),
    ensures
        ({
            let at = place_for(paths, key, from);
            &&& from <= at <= paths.len()
            &&& forall|i: int| from <= i < at ==> before(#[trigger] paths[i], key)
            &&& at < paths.len() ==> !before(paths[at], key)
        }),
    decreases paths.len() - from,
{
    if from < paths.len() && before(paths[from], key) {
        place_is_right(paths, key, from + 1);
    }
}

/// A path that's there is found.
proof fn a_path_is_found(list: Seq<(Seq<char>, ProjectView)>, i: int)
    requires
        in_path_order(keys_of(list)),
        0 <= i < list.len(),
    ensures
        seen(list, list[i].0) == Some(list[i].1),
{
    let keys = keys_of(list);
    let key = list[i].0;
    place_is_right(keys, key, 0);
    let at = place_for(keys, key, 0);
    if at < i {
        assert(before(keys[at], keys[i]));
    } else if i < at {
        assert(before(keys[i], key));
        before_is_strict(key, key);
    }
}

/// A path that isn't there isn't found.
proof fn no_path_is_found(list: Seq<(Seq<char>, ProjectView)>, key: Seq<char>)
    requires
        forall|i: int| 0 <= i < list.len() ==> (#[trigger] list[i]).0 != key,
    ensures
        seen(list, key) is None,
{
    place_is_right(keys_of(list), key, 0);
}

/// What's remembered stays in the order of the paths, each once.
pub proof fn views_stay_in_order(
    list: Seq<(Seq<char>, ProjectView)>,
    key: Seq<char>,
    view: ProjectView,
    most: int,
)
    requires
        in_path_order(keys_of(list)),
        0 <= most,
    ensures
        in_path_order(keys_of(with_view(list, key, view))),
        in_path_order(keys_of(trimmed_to(with_view(list, key, view), most))),
{
    let keys = keys_of(list);
    let at = place_for(keys, key, 0);
    place_is_right(keys, key, 0);
    let all = with_view(list, key, view);
    let now = keys_of(all);
    if at < list.len() && list[at].0 == key {
        assert(now =~= keys);
    } else {
        assert(now =~= keys.insert(at, key));
        assert forall|i: int, j: int| 0 <= i < j < now.len() implies before(
            #[trigger] now[i],
            #[trigger] now[j],
        ) by {
            if i == at {
                // What stands from its place on comes after it.
                before_is_total(keys[at], key);
                if j - 1 > at {
                    assert(before(keys[at], keys[j - 1]));
                    before_is_transitive(key, keys[at], keys[j - 1]);
                }
            } else {
                let a = if i < at {
                    i
                } else {
                    i - 1
                };
                if j == at {
                    assert(before(keys[a], key));
                } else {
                    let b = if j < at {
                        j
                    } else {
                        j - 1
                    };
                    assert(before(keys[a], keys[b]));
                }
            }
        }
    }
    let kept = trimmed_to(all, most);
    let gone = all.len() - kept.len();
    assert forall|i: int, j: int| 0 <= i < j < kept.len() implies before(
        #[trigger] keys_of(kept)[i],
        #[trigger] keys_of(kept)[j],
    ) by {
        assert(keys_of(kept)[i] == now[i + gone] && keys_of(kept)[j] == now[j + gone]);
    }
}

/// A view that's remembered comes back, and the others are as they were, where there's room
/// for them all.
pub proof fn remembered_views_come_back(
    list: Seq<(Seq<char>, ProjectView)>,
    key: Seq<char>,
    view: ProjectView,
    most: int,
    other: Seq<char>,
)
    requires
        in_path_order(keys_of(list)),
        with_view(list, key, view).len() <= most,
        other != key,
    ensures
        seen(trimmed_to(with_view(list, key, view), most), key) == Some(view),
        seen(trimmed_to(with_view(list, key, view), most), other) == seen(list, other),
{
    let all = with_view(list, key, view);
    views_stay_in_order(list, key, view, most);
    let at = place_for(keys_of(list), key, 0);
    place_is_right(keys_of(list), key, 0);
    assert(all[at] == (key, view));
    a_path_is_found(all, at);
    let replaced = at < list.len() && list[at].0 == key;
    if exists|i: int| 0 <= i < list.len() && (#[trigger] list[i]).0 == other {
        let i = choose|i: int| 0 <= i < list.len() && (#[trigger] list[i]).0 == other;
        a_path_is_found(list, i);
        let there = if replaced || i < at {
            i
        } else {
            i + 1
        };
        assert(all[there] == list[i]);
        a_path_is_found(all, there);
    } else {
        no_path_is_found(list, other);
        assert forall|k: int| 0 <= k < all.len() implies (#[trigger] all[k]).0 != other by {
            if k != at {
                let i = if replaced || k < at {
                    k
                } else {
                    k - 1
                };
                assert(all[k] == list[i]);
            }
        }
        no_path_is_found(all, other);
    }
}

/// No more views are remembered than there's room for.
pub proof fn views_are_bounded(
    list: Seq<(Seq<char>, ProjectView)>,
    key: Seq<char>,
    view: ProjectView,
    most: int,
)
    requires
        0 <= most,
    ensures
        trimmed_to(with_view(list, key, view), most).len() <= most,
{
}

// ---- the window ----

/// What's done about the window's size when it opens.
#[derive(Copy, Clone, Debug, PartialEq, Eq, Structural)]
pub enum Fitting {
    /// Not yet: its size, or the screen's, isn't known.
    Wait,
    Maximize,
    /// It's fitted to most of the screen, in its middle.
    Fit,
    /// It stays as it is.
    Keep,
}

/// How many frames the screen's size is waited for.
pub const FRAMES: u32 = 30;

/// What's done about the window's size in its first frames. `small` and `big` are whether the
/// window is much smaller than the screen, or bigger (than a sensible one, where the screen's
/// size isn't known).
pub fn fit_window(
    frames: u32,
    size_known: bool,
    screen_known: bool,
    was_maximized: bool,
    maximized: bool,
    small: bool,
    big: bool,
) -> (out: Fitting)
    ensures
        out == if !size_known || (!screen_known && frames < FRAMES) {
            Fitting::Wait
        } else if was_maximized {
            if maximized {
                Fitting::Keep
            } else {
                Fitting::Maximize
            }
        } else if !maximized && (small || big) {
            Fitting::Fit
        } else {
            Fitting::Keep
        },
{
    if !size_known || (!screen_known && frames < FRAMES) {
        Fitting::Wait
    } else if was_maximized {
        if maximized {
            Fitting::Keep
        } else {
            Fitting::Maximize
        }
    } else if !maximized && (small || big) {
        Fitting::Fit
    } else {
        Fitting::Keep
    }
}

/// A window's size, in whole points, and whether it's maximized.
#[derive(Copy, Clone, Debug, PartialEq, Eq, Structural)]
pub struct WindowState {
    pub width: u32,
    pub height: u32,
    pub maximized: bool,
}

/// The window as it'd be remembered: its size only while it's a normal window that can be
/// worked in.
pub open spec fn window_now(
    last: Option<WindowState>,
    width: u32,
    height: u32,
    maximized: bool,
) -> WindowState {
    let was = match last {
        Some(w) => w,
        None => WindowState { width: 1440, height: 900, maximized: false },
    };
    if !maximized && width >= 800 && height >= 500 {
        WindowState { width, height, maximized }
    } else {
        WindowState { maximized, ..was }
    }
}

/// What's done about remembering the window.
#[derive(Copy, Clone, Debug, PartialEq, Eq, Structural)]
pub enum Remember {
    Nothing,
    /// It's the same for half a second by now.
    Save,
    /// It's looked at again in half a second.
    Later,
}

/// How long a window's size has to hold before it's remembered, in milliseconds.
pub const HOLDS: u64 = 500;

/// A window's size that's held so far, and since when.
pub struct Pending {
    pub held: Option<(WindowState, u64)>,
    pub saved: Option<WindowState>,
}

impl Pending {
    /// Takes in the window as it is; `now` is in milliseconds. A size is remembered once it's
    /// held for a while, so not every step of a resize is; and none is while the window is
    /// still being fitted or a script runs (`passing`).
    pub fn remember_window(
        &mut self,
        passing: bool,
        width: u32,
        height: u32,
        maximized: bool,
        pressed: bool,
        now: u64,
    ) -> (out: Remember)
        ensures
            ({
                let state = window_now(old(self).saved, width, height, maximized);
                if passing || pressed || old(self).saved == Some(state) {
                    &&& out == Remember::Nothing
                    &&& final(self).held == old(self).held
                    &&& final(self).saved == old(self).saved
                } else {
                    match old(self).held {
                        Some((held, since)) => if held == state {
                            if now >= since && now - since >= HOLDS {
                                &&& out == Remember::Save
                                &&& final(self).saved == Some(state)
                                &&& final(self).held is None
                            } else {
                                &&& out == Remember::Later
                                &&& final(self).saved == old(self).saved
                                &&& final(self).held == old(self).held
                            }
                        } else {
                            &&& out == Remember::Later
                            &&& final(self).saved == old(self).saved
                            &&& final(self).held == Some((state, now))
                        },
                        None => {
                            &&& out == Remember::Later
                            &&& final(self).saved == old(self).saved
                            &&& final(self).held == Some((state, now))
                        },
                    }
                }
            }),
    {
        let was = match self.saved {
            Some(w) => w,
            None => WindowState { width: 1440, height: 900, maximized: false },
        };
        let state = if !maximized && width >= 800 && height >= 500 {
            WindowState { width, height, maximized }
        } else {
            WindowState { width: was.width, height: was.height, maximized }
        };
        if passing || pressed {
            return Remember::Nothing;
        }
        if let Some(saved) = self.saved {
            if saved == state {
                return Remember::Nothing;
            }
        }
        if let Some((held, since)) = self.held {
            if held == state {
                if now >= since && now - since >= HOLDS {
                    self.saved = Some(state);
                    self.held = None;
                    return Remember::Save;
                }
                return Remember::Later;
            }
        }
        self.held = Some((state, now));
        Remember::Later
    }
}

} // verus!
