//! What holds of folders and the ways to them.
use crate::doc::{MediaId, OpModel};
use crate::folders::{
    found_inside, found_within, is_child, not_within, path_to, step_into, to_the_top, with_claimed,
    with_way, within,
};
use crate::seqs::kept_places;
use crate::text::{occurs, occurs_at, parts, parts_is_never_empty};
use vstd::prelude::*;

verus! {

/// What "" and "/" are.
proof fn empty_and_slash()
    ensures
        ""@ == Seq::<char>::empty(),
        "/"@ == seq!['/'],
{
    reveal_strlit("");
    reveal_strlit("/");
    assert(""@ =~= Seq::<char>::empty());
    assert("/"@ =~= seq!['/']);
}

/// A slash occurs in a text just where a character of it is one.
proof fn slash_is_a_character(s: Seq<char>)
    ensures
        occurs(s, "/"@) <==> s.contains('/'),
{
    empty_and_slash();
    if occurs(s, "/"@) {
        let i = choose|i: int| occurs_at(s, "/"@, i);
        assert(s.subrange(i, i + 1)[0] == '/');
        assert(s[i] == '/');
    }
    if s.contains('/') {
        let i = choose|i: int| 0 <= i < s.len() && s[i] == '/';
        assert(s.subrange(i, i + 1) =~= seq!['/']);
        assert(occurs_at(s, "/"@, i));
    }
}

/// A folder's children are what's one step into it: the folder, a slash (none at the top) and
/// a name without slashes.
pub proof fn children_are_one_step_in(path: Seq<char>, parent: Seq<char>)
    ensures
        is_child(path, parent) <==> exists|name: Seq<char>|
            !name.contains('/') && path == #[trigger] step_into(parent, name),
{
    empty_and_slash();
    let n = parent.len() as int;
    if is_child(path, parent) {
        let name = if parent.len() == 0 {
            path
        } else {
            path.skip(n).skip(1)
        };
        assert(parent.len() == 0 ==> parent =~= ""@);
        slash_is_a_character(name);
        if parent.len() > 0 {
            let tail = path.skip(n);
            assert(tail.subrange(0, 1) == "/"@);
            assert(tail.subrange(0, 1)[0] == tail[0]);
            assert(tail[0] == '/');
            assert(path =~= parent + "/"@ + name);
        } else {
            assert(path =~= parent + name);
        }
        assert(path == step_into(parent, name));
    }
    if exists|name: Seq<char>| !name.contains('/') && path == #[trigger] step_into(parent, name) {
        let name = choose|name: Seq<char>|
            !name.contains('/') && path == #[trigger] step_into(parent, name);
        slash_is_a_character(name);
        if parent == ""@ {
            assert(path =~= name);
        } else {
            assert(parent.is_prefix_of(path));
            assert(path.skip(n) =~= "/"@ + name);
            assert(path.skip(n).skip(1) =~= name);
            assert("/"@.is_prefix_of(path.skip(n)));
        }
    }
}

/// What's in a folder stays in it however the folder is reached: one step into a folder is
/// within it and within whatever that is within.
pub proof fn a_step_in_stays_within(parent: Seq<char>, name: Seq<char>, over: Seq<char>)
    requires
        parent != ""@,
        within(parent, over),
    ensures
        within(step_into(parent, name), parent),
        within(step_into(parent, name), over),
        name.len() > 0 ==> !within(parent, step_into(parent, name)),
{
    empty_and_slash();
    let path = step_into(parent, name);
    assert((parent + "/"@).is_prefix_of(path));
    if parent != over {
        assert((over + "/"@).is_prefix_of(path)) by {
            assert(path =~= parent + ("/"@ + name));
        }
    }
    assert(path.len() > parent.len());
}

/// The way to a folder depends only on the steps so far.
proof fn same_steps_same_way(a: Seq<Seq<char>>, b: Seq<Seq<char>>, n: int)
    requires
        n <= a.len(),
        n <= b.len(),
        forall|k: int| 0 <= k < n ==> a[k] == #[trigger] b[k],
    ensures
        path_to(a, n) == path_to(b, n),
    decreases n,
{
    if n > 0 {
        same_steps_same_way(a, b, n - 1);
        assert(a[n - 1] == b[n - 1]);
    }
}

/// The steps to a folder lead to it: the way at the last of them is the folder itself.
pub proof fn the_steps_lead_to_the_folder(folder: Seq<char>)
    requires
        folder.len() > 0,
        folder[0] != '/',
    ensures
        path_to(parts(folder, '/'), parts(folder, '/').len() as int) == folder,
        parts(folder, '/')[0].len() > 0,
    decreases folder.len(),
{
    empty_and_slash();
    let all = parts(folder, '/');
    let n = all.len() as int;
    let c = folder.last();
    parts_is_never_empty(folder, '/');
    if folder.len() == 1 {
        let none = folder.drop_last();
        assert(none.len() == 0);
        assert(parts(none, '/') =~= seq![Seq::<char>::empty()]);
        assert(all =~= seq![seq![c]]);
        assert(path_to(all, 0) == ""@);
        assert(path_to(all, 1) =~= folder);
    } else {
        let rest = folder.drop_last();
        let before = parts(rest, '/');
        let m = before.len() as int;
        the_steps_lead_to_the_folder(rest);
        parts_is_never_empty(rest, '/');
        assert(folder =~= rest.push(c));
        if c == '/' {
            assert(n == m + 1);
            same_steps_same_way(all, before, m);
            assert(path_to(all, m) == rest);
            assert(rest != ""@);
            assert(path_to(all, n) =~= rest + "/"@ + Seq::<char>::empty());
            assert(all[0] == before[0]);
        } else {
            assert(n == m);
            same_steps_same_way(all, before, m - 1);
            let way = path_to(all, m - 1);
            assert(all[m - 1] == before[m - 1].push(c));
            assert(path_to(all, n) =~= step_into(way, before[m - 1]).push(c));
            if m > 1 {
                assert(all[0] == before[0]);
            }
        }
    }
}

/// Only folders that are listed, or that lead to something that's held, are claimed.
pub proof fn no_folder_is_made_up(
    listed: Seq<Seq<char>>,
    held: Seq<Seq<char>>,
    n: int,
    x: Seq<char>,
)
    requires
        0 <= n <= held.len(),
        with_claimed(listed, held, n).contains(x),
    ensures
        listed.contains(x) || exists|m: int, k: int|
            0 <= m < n && held[m] != ""@ && 1 <= k <= parts(held[m], '/').len() && x
                == #[trigger] path_to(parts(held[m], '/'), k),
    decreases n,
{
    if n > 0 {
        let before = with_claimed(listed, held, n - 1);
        let steps = parts(held[n - 1], '/');
        if before.contains(x) {
            no_folder_is_made_up(listed, held, n - 1, x);
        } else {
            ways_are_steps(before, steps, steps.len() as int, x);
        }
    }
}

proof fn ways_are_steps(list: Seq<Seq<char>>, steps: Seq<Seq<char>>, n: int, x: Seq<char>)
    requires
        with_way(list, steps, n).contains(x),
        !list.contains(x),
    ensures
        exists|k: int| 1 <= k <= n && x == #[trigger] path_to(steps, k),
    decreases n,
{
    if n > 0 {
        let before = with_way(list, steps, n - 1);
        if before.contains(x) {
            ways_are_steps(list, steps, n - 1, x);
        } else {
            let all = with_way(list, steps, n);
            let k = choose|k: int| 0 <= k < all.len() && all[k] == x;
            if k < before.len() {
                assert(before[k] == x);
            }
            assert(x == path_to(steps, n));
        }
    }
}

/// What goes back to the top is the file at that place, and it's in no folder afterwards.
pub proof fn files_go_back_to_the_top(media: Seq<MediaId>, at: usize)
    ensures
        to_the_top(media)(at) matches OpModel::SetMediaFolder { media: m, folder } && m
            == media[at as int] && folder.len() == 0,
{
    empty_and_slash();
}

/// What's within a folder is the folder itself and all whose way begins with it and a slash.
pub proof fn within_is_the_folder_and_below(path: Seq<char>, folder: Seq<char>)
    ensures
        within(path, folder) <==> path == folder || exists|rest: Seq<char>|
            path == #[trigger] (folder + "/"@ + rest),
{
    let way = folder + "/"@;
    if way.is_prefix_of(path) {
        let rest = path.skip(way.len() as int);
        assert(path =~= folder + "/"@ + rest);
    }
    if exists|rest: Seq<char>| path == #[trigger] (folder + "/"@ + rest) {
        let rest = choose|rest: Seq<char>| path == #[trigger] (folder + "/"@ + rest);
        assert(way =~= path.subrange(0, way.len() as int));
    }
}

/// A folder that's removed takes with it all that's within it and nothing else; what's counted
/// in it and shown in it is what's there.
pub proof fn removing_takes_all_that_is_within(
    listed: Seq<Seq<char>>,
    path: Seq<char>,
    x: Seq<char>,
)
    ensures
        listed.filter(not_within(path)).contains(x) <==> listed.contains(x) && !within(x, path),
        listed.filter(found_within(path)).contains(x) <==> listed.contains(x) && within(x, path),
        listed.filter(found_inside(path)).contains(x) <==> listed.contains(x) && is_child(x, path),
{
    held_if_kept(listed, not_within(path), x);
    held_if_kept(listed, found_within(path), x);
    held_if_kept(listed, found_inside(path), x);
}

/// A filter holds what was there and is kept.
proof fn held_if_kept(s: Seq<Seq<char>>, p: spec_fn(Seq<char>) -> bool, x: Seq<char>)
    ensures
        s.filter(p).contains(x) <==> s.contains(x) && p(x),
{
    let at = kept_places(s, p);
    let kept = s.filter(p);
    if kept.contains(x) {
        let k = choose|k: int| 0 <= k < kept.len() && kept[k] == x;
        assert(s[at[k]] == x && p(s[at[k]]));
    }
    if s.contains(x) && p(x) {
        let i = choose|i: int| 0 <= i < s.len() && s[i] == x;
        assert(p(s[i]));
        let k = choose|k: int| 0 <= k < at.len() && at[k] == i;
        assert(kept[k] == x);
    }
}

} // verus!
