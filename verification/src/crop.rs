//! Cropping on the canvas: the handles around a clip's picture, and what grabbing one does.
use vstd::prelude::*;

verus! {

/// Which edges follow the pointer.
#[derive(Copy, Clone, Debug, PartialEq, Eq, Structural)]
pub struct Edges {
    pub left: bool,
    pub right: bool,
    pub top: bool,
    pub bottom: bool,
}

/// What's grabbed.
#[derive(Copy, Clone, Debug, PartialEq, Eq, Structural)]
pub enum Grab {
    Edges(Edges),
    /// The whole crop window slides.
    Pan,
}

/// Where along a side a handle is.
#[derive(Copy, Clone, Debug, PartialEq, Eq, Structural)]
pub enum Side {
    Near,
    Middle,
    Far,
}

/// A handle: which edges it moves, and where it is.
#[derive(Copy, Clone, Debug, PartialEq, Eq, Structural)]
pub struct Handle {
    pub edges: Edges,
    pub x: Side,
    pub y: Side,
}

/// How many handles there are.
pub const HANDLES: usize = 8;

/// The handles, in the order they're looked at: the corners, then the edges.
pub open spec fn handle_at(i: int) -> Handle {
    if i == 0 {
        handle(true, false, true, false)
    } else if i == 1 {
        handle(false, true, true, false)
    } else if i == 2 {
        handle(false, true, false, true)
    } else if i == 3 {
        handle(true, false, false, true)
    } else if i == 4 {
        handle(true, false, false, false)
    } else if i == 5 {
        handle(false, true, false, false)
    } else if i == 6 {
        handle(false, false, true, false)
    } else {
        handle(false, false, false, true)
    }
}

/// The handle that moves these edges is where they are.
pub open spec fn handle(left: bool, right: bool, top: bool, bottom: bool) -> Handle {
    Handle {
        edges: Edges { left, right, top, bottom },
        x: if left {
            Side::Near
        } else if right {
            Side::Far
        } else {
            Side::Middle
        },
        y: if top {
            Side::Near
        } else if bottom {
            Side::Far
        } else {
            Side::Middle
        },
    }
}

fn make_handle(left: bool, right: bool, top: bool, bottom: bool) -> (out: Handle)
    ensures
        out == handle(left, right, top, bottom),
{
    Handle {
        edges: Edges { left, right, top, bottom },
        x: if left {
            Side::Near
        } else if right {
            Side::Far
        } else {
            Side::Middle
        },
        y: if top {
            Side::Near
        } else if bottom {
            Side::Far
        } else {
            Side::Middle
        },
    }
}

/// The eight handles.
pub fn handles() -> (out: Vec<Handle>)
    ensures
        out@ == Seq::new(HANDLES as nat, |i: int| handle_at(i)),
{
    let out: Vec<Handle> = vec![
        make_handle(true, false, true, false),
        make_handle(false, true, true, false),
        make_handle(false, true, false, true),
        make_handle(true, false, false, true),
        make_handle(true, false, false, false),
        make_handle(false, true, false, false),
        make_handle(false, false, true, false),
        make_handle(false, false, false, true),
    ];
    assert(out@ =~= Seq::new(HANDLES as nat, |i: int| handle_at(i)));
    out
}

/// A handle at a corner.
pub open spec fn is_corner(h: Handle) -> bool {
    h.x != Side::Middle && h.y != Side::Middle
}

/// The pointer over a handle.
#[derive(Copy, Clone, Debug, PartialEq, Eq, Structural)]
pub enum Cursor {
    NwSe,
    NeSw,
    Horizontal,
    Vertical,
    Hand,
}

/// The pointer that shows which way the edges move.
pub open spec fn cursor_for(e: Edges) -> Cursor {
    if (e.left && !e.right && e.top && !e.bottom) || (!e.left && e.right && !e.top && e.bottom) {
        Cursor::NwSe
    } else if (!e.left && e.right && e.top && !e.bottom) || (e.left && !e.right && !e.top
        && e.bottom) {
        Cursor::NeSw
    } else if (e.left && !e.right && !e.top && !e.bottom) || (!e.left && e.right && !e.top
        && !e.bottom) {
        Cursor::Horizontal
    } else {
        Cursor::Vertical
    }
}

/// The pointer over the crop: by the handle it's near, or the picture it's over.
pub fn crop_cursor(near: Option<Edges>, over: bool) -> (out: Option<Cursor>)
    ensures
        out == match near {
            Some(e) => Some(cursor_for(e)),
            None => if over {
                Some(Cursor::Hand)
            } else {
                None
            },
        },
{
    match near {
        Some(e) => Some(
            if (e.left && !e.right && e.top && !e.bottom) || (!e.left && e.right && !e.top
                && e.bottom) {
                Cursor::NwSe
            } else if (!e.left && e.right && e.top && !e.bottom) || (e.left && !e.right && !e.top
                && e.bottom) {
                Cursor::NeSw
            } else if (e.left && !e.right && !e.top && !e.bottom) || (!e.left && e.right && !e.top
                && !e.bottom) {
                Cursor::Horizontal
            } else {
                Cursor::Vertical
            },
        ),
        None => if over {
            Some(Cursor::Hand)
        } else {
            None
        },
    }
}

/// What a press grabs: the handle it's near, or the crop window it's over.
pub fn grabbed(near: Option<Edges>, over: bool) -> (out: Option<Grab>)
    ensures
        out == match near {
            Some(e) => Some(Grab::Edges(e)),
            None => if over {
                Some(Grab::Pan)
            } else {
                None
            },
        },
{
    match near {
        Some(e) => Some(Grab::Edges(e)),
        None => if over {
            Some(Grab::Pan)
        } else {
            None
        },
    }
}

/// Corners drag along a diagonal, and the pointer of opposite corners is the same.
pub proof fn corners_drag_diagonally(i: int)
    requires
        0 <= i < HANDLES,
    ensures
        is_corner(handle_at(i)) <==> i < 4,
        i < 4 ==> cursor_for(handle_at(i).edges) == if i % 2 == 0 {
            Cursor::NwSe
        } else {
            Cursor::NeSw
        },
        4 <= i ==> cursor_for(handle_at(i).edges) == if i < 6 {
            Cursor::Horizontal
        } else {
            Cursor::Vertical
        },
{
}

} // verus!
