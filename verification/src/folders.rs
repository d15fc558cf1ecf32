//! Folders named by their paths: "b-roll/day 2" is inside "b-roll", and "" is the top.
use crate::doc::{copy_texts, MediaId, Op, OpModel};
use crate::order::{alphabetical, rearranged, sorted_names};
use crate::seqs::{filter_step, take_all, views};
use crate::text::{
    chars_of, contains, join2, join3, occurs, parts, parts_is_never_empty, same, split, starts_with,
    text_between,
};
use vstd::prelude::*;

verus! {

/// A step further down from `path`.
pub open spec fn step_into(path: Seq<char>, part: Seq<char>) -> Seq<char> {
    if path == ""@ {
        path + part
    } else {
        path + "/"@ + part
    }
}

/// A folder named in `path`.
pub fn inside(path: &str, part: &str) -> (out: String)
    ensures
        out@ == step_into(path@, part@),
{
    if same(path, "") {
        join2(path, part)
    } else {
        join3(path, "/", part)
    }
}

/// The path that `n` steps of it lead to.
pub open spec fn path_to(steps: Seq<Seq<char>>, n: int) -> Seq<char>
    decreases n,
{
    if n <= 0 {
        ""@
    } else {
        step_into(path_to(steps, n - 1), steps[n - 1])
    }
}

/// The way down to a folder: each step's name, and the path it leads to.
pub fn steps_to(folder: &str) -> (out: Vec<(String, String)>)
    ensures
        out@.len() == parts(folder@, '/').len(),
        forall|i: int|
            0 <= i < out@.len() ==> (#[trigger] out@[i]).0@ == parts(folder@, '/')[i]
                && out@[i].1@ == path_to(parts(folder@, '/'), i + 1),
{
    let names = split(folder, '/');
    let ghost steps = parts(folder@, '/');
    let mut out: Vec<(String, String)> = Vec::new();
    let mut path: String = "".to_owned();
    let mut i: usize = 0;
    while i < names.len()
        invariant
            steps == views(names@),
            i <= names@.len(),
            path@ == path_to(steps, i as int),
            out@.len() == i,
            forall|k: int|
                0 <= k < i ==> (#[trigger] out@[k]).0@ == steps[k] && out@[k].1@ == path_to(
                    steps,
                    k + 1,
                ),
        decreases names@.len() - i,
    {
        assert(steps[i as int] == names@[i as int]@);
        path = inside(path.as_str(), names[i].as_str());
        out.push((names[i].clone(), path.clone()));
        i = i + 1;
    }
    out
}

/// A folder's own name: the last step of its path.
pub fn last_step(folder: &str) -> (out: String)
    ensures
        out@ == parts(folder@, '/').last(),
{
    let names = split(folder, '/');
    proof {
        parts_is_never_empty(folder@, '/');
        assert(views(names@).last() == names@[names@.len() - 1]@);
    }
    names[names.len() - 1].clone()
}

/// `path` is `folder` or somewhere in it.
pub open spec fn within(path: Seq<char>, folder: Seq<char>) -> bool {
    path == folder || (folder + "/"@).is_prefix_of(path)
}

/// Whether `path` is `folder` or somewhere in it.
pub fn is_within(path: &str, folder: &str) -> (out: bool)
    ensures
        out == within(path@, folder@),
{
    same(path, folder) || starts_with(path, join2(folder, "/").as_str())
}

/// What's in a folder that's in another is in that one too.
pub proof fn within_is_transitive(a: Seq<char>, b: Seq<char>, c: Seq<char>)
    requires
        within(a, b),
        within(b, c),
    ensures
        within(a, c),
{
    let slash = "/"@;
    if a != b && b != c {
        assert((c + slash) =~= b.take((c + slash).len() as int));
        assert((b + slash) =~= a.take((b + slash).len() as int));
        assert(a.take((c + slash).len() as int) =~= b.take((c + slash).len() as int));
    }
}

/// `path` is directly inside `parent`.
pub open spec fn is_child(path: Seq<char>, parent: Seq<char>) -> bool {
    if parent == ""@ {
        !occurs(path, "/"@)
    } else {
        &&& parent.is_prefix_of(path)
        &&& "/"@.is_prefix_of(path.skip(parent.len() as int))
        &&& !occurs(path.skip(parent.len() as int).skip(1), "/"@)
    }
}

/// Whether `path` is directly inside `parent`.
pub fn child_of(path: &str, parent: &str) -> (out: bool)
    ensures
        out == is_child(path@, parent@),
{
    if same(parent, "") {
        return !contains(path, "/");
    }
    if !starts_with(path, parent) {
        return false;
    }
    let chars = chars_of(path);
    let n: usize = chars_of(parent).len();
    let rest = text_between(&chars, n, chars.len());
    assert(rest@ =~= path@.skip(parent@.len() as int));
    if !starts_with(rest.as_str(), "/") {
        return false;
    }
    proof {
        reveal_strlit("/");
    }
    let below = text_between(&chars, n + 1, chars.len());
    assert(below@ =~= path@.skip(parent@.len() as int).skip(1));
    !contains(below.as_str(), "/")
}

/// A folder directly inside another is within it.
pub proof fn children_are_within(path: Seq<char>, parent: Seq<char>)
    requires
        parent != ""@,
        is_child(path, parent),
    ensures
        within(path, parent),
{
    reveal_strlit("/");
    assert(path.skip(parent.len() as int)[0] == "/"@[0]);
    assert((parent + "/"@) =~= path.take((parent + "/"@).len() as int));
}

/// What's within a folder.
pub open spec fn found_within(folder: Seq<char>) -> spec_fn(Seq<char>) -> bool {
    |path: Seq<char>| within(path, folder)
}

/// How many of the things kept in these folders are within `folder`.
pub fn count_within(held: &Vec<String>, folder: &str) -> (out: usize)
    ensures
        out == views(held@).filter(found_within(folder@)).len(),
        out <= held@.len(),
{
    let ghost all = views(held@);
    let ghost p = found_within(folder@);
    let mut n: usize = 0;
    let mut i: usize = 0;
    proof {
        take_all(all);
        reveal_with_fuel(Seq::filter, 1);
    }
    while i < held.len()
        invariant
            all == views(held@),
            p == found_within(folder@),
            i <= held@.len(),
            n <= i,
            n == all.take(i as int).filter(p).len(),
        decreases held@.len() - i,
    {
        proof {
            filter_step(all, p, i as int);
            assert(all[i as int] == held@[i as int]@);
        }
        if is_within(held[i].as_str(), folder) {
            n = n + 1;
        }
        i = i + 1;
    }
    proof {
        take_all(all);
    }
    n
}

/// The folders directly inside `parent`.
pub open spec fn found_inside(parent: Seq<char>) -> spec_fn(Seq<char>) -> bool {
    |path: Seq<char>| is_child(path, parent)
}

/// The folders directly inside `parent`, with how many of the things kept in the folders of
/// `held` are in each (nested ones too).
pub fn child_folders(folders: &Vec<String>, held: &Vec<String>, parent: &str) -> (out: Vec<
    (String, usize),
>)
    ensures
        ({
            let kids = views(folders@).filter(found_inside(parent@));
            &&& out@.len() == kids.len()
            &&& forall|i: int|
                0 <= i < out@.len() ==> (#[trigger] out@[i]).0@ == kids[i] && out@[i].1
                    == views(held@).filter(found_within(kids[i])).len()
        }),
{
    let ghost all = views(folders@);
    let ghost p = found_inside(parent@);
    let mut out: Vec<(String, usize)> = Vec::new();
    let mut i: usize = 0;
    proof {
        take_all(all);
        reveal_with_fuel(Seq::filter, 1);
    }
    while i < folders.len()
        invariant
            all == views(folders@),
            p == found_inside(parent@),
            i <= folders@.len(),
            ({
                let kids = all.take(i as int).filter(p);
                &&& out@.len() == kids.len()
                &&& forall|k: int|
                    0 <= k < out@.len() ==> (#[trigger] out@[k]).0@ == kids[k] && out@[k].1
                        == views(held@).filter(found_within(kids[k])).len()
            }),
        decreases folders@.len() - i,
    {
        proof {
            filter_step(all, p, i as int);
            assert(all[i as int] == folders@[i as int]@);
        }
        if child_of(folders[i].as_str(), parent) {
            let n: usize = count_within(held, folders[i].as_str());
            out.push((folders[i].clone(), n));
        }
        i = i + 1;
    }
    proof {
        take_all(all);
    }
    out
}

// ---- the project's folders ----

/// The list with a name it doesn't have yet.
pub open spec fn with_name(list: Seq<Seq<char>>, name: Seq<char>) -> Seq<Seq<char>> {
    if list.contains(name) {
        list
    } else {
        list.push(name)
    }
}

/// The list with every folder on the way down to one.
pub open spec fn with_way(list: Seq<Seq<char>>, steps: Seq<Seq<char>>, n: int) -> Seq<Seq<char>>
    decreases n,
{
    if n <= 0 {
        list
    } else {
        with_name(with_way(list, steps, n - 1), path_to(steps, n))
    }
}

/// The list with every folder the first `n` files say they're in ("" is no folder).
pub open spec fn with_claimed(list: Seq<Seq<char>>, held: Seq<Seq<char>>, n: int) -> Seq<Seq<char>>
    decreases n,
{
    if n <= 0 {
        list
    } else {
        let rest = with_claimed(list, held, n - 1);
        if held[n - 1] == ""@ {
            rest
        } else {
            let steps = parts(held[n - 1], '/');
            with_way(rest, steps, steps.len() as int)
        }
    }
}

/// Whether `name` is among the names.
pub fn holds_name(names: &Vec<String>, name: &str) -> (out: bool)
    ensures
        out == views(names@).contains(name@),
{
    let ghost all = views(names@);
    let mut i: usize = 0;
    while i < names.len()
        invariant
            all == views(names@),
            i <= names@.len(),
            forall|k: int| 0 <= k < i ==> (#[trigger] all[k]) != name@,
        decreases names@.len() - i,
    {
        assert(all[i as int] == names@[i as int]@);
        if same(names[i].as_str(), name) {
            assert(all.contains(all[i as int]));
            return true;
        }
        i = i + 1;
    }
    false
}

pub(crate) fn add_name(names: &mut Vec<String>, name: &str)
    ensures
        views(final(names)@) == with_name(views(old(names)@), name@),
{
    if !holds_name(names, name) {
        let ghost had = names@;
        names.push(name.to_owned());
        assert(views(names@) =~= views(had).push(name@));
    }
}

fn add_way(names: &mut Vec<String>, folder: &str)
    ensures
        ({
            let steps = parts(folder@, '/');
            views(final(names)@) == with_way(views(old(names)@), steps, steps.len() as int)
        }),
{
    let way = steps_to(folder);
    let ghost steps = parts(folder@, '/');
    let ghost had = views(names@);
    let mut i: usize = 0;
    while i < way.len()
        invariant
            had == views(old(names)@),
            steps == parts(folder@, '/'),
            way@.len() == steps.len(),
            forall|k: int| 0 <= k < way@.len() ==> (#[trigger] way@[k]).1@ == path_to(steps, k + 1),
            i <= way@.len(),
            views(names@) == with_way(had, steps, i as int),
        decreases way@.len() - i,
    {
        add_name(names, way[i].1.as_str());
        i = i + 1;
    }
}

/// Every folder, as full paths in order: those the project lists, and any that a file says
/// it's in ("a/b" also means that "a" exists).
pub fn bin_folders(listed: &Vec<String>, held: &Vec<String>) -> (out: Vec<String>)
    ensures
        alphabetical(views(out@)),
        rearranged(with_claimed(views(listed@), views(held@), held@.len() as int), views(out@)),
{
    let mut names = copy_texts(listed);
    let ghost had = views(listed@);
    let ghost all = views(held@);
    let mut i: usize = 0;
    while i < held.len()
        invariant
            all == views(held@),
            i <= held@.len(),
            views(names@) == with_claimed(had, all, i as int),
        decreases held@.len() - i,
    {
        assert(all[i as int] == held@[i as int]@);
        if !same(held[i].as_str(), "") {
            add_way(&mut names, held[i].as_str());
        }
        i = i + 1;
    }
    sorted_names(&names)
}

/// Adding a name never takes one away.
proof fn names_stay(list: Seq<Seq<char>>, name: Seq<char>, x: Seq<char>)
    requires
        list.contains(x) || x == name,
    ensures
        with_name(list, name).contains(x),
{
    if !list.contains(name) {
        if list.contains(x) {
            let i = choose|i: int| 0 <= i < list.len() && list[i] == x;
            assert(list.push(name)[i] == x);
        } else {
            assert(list.push(name)[list.len() as int] == x);
        }
    }
}

proof fn ways_stay(list: Seq<Seq<char>>, steps: Seq<Seq<char>>, n: int, x: Seq<char>)
    requires
        list.contains(x) || exists|k: int| 1 <= k <= n && x == #[trigger] path_to(steps, k),
    ensures
        with_way(list, steps, n).contains(x),
    decreases n,
{
    if n > 0 {
        let rest = with_way(list, steps, n - 1);
        if x == path_to(steps, n) {
            names_stay(rest, path_to(steps, n), x);
        } else {
            if !list.contains(x) {
                let k = choose|k: int| 1 <= k <= n && x == #[trigger] path_to(steps, k);
                assert(1 <= k <= n - 1 && x == path_to(steps, k));
            }
            ways_stay(list, steps, n - 1, x);
            names_stay(rest, path_to(steps, n), x);
        }
    }
}

/// Every folder the project lists is there, and every folder on the way down to one that a
/// file says it's in.
pub proof fn no_folder_is_missing(
    listed: Seq<Seq<char>>,
    held: Seq<Seq<char>>,
    n: int,
    x: Seq<char>,
)
    requires
        0 <= n <= held.len(),
        listed.contains(x) || exists|m: int, k: int|
            0 <= m < n && held[m] != ""@ && 1 <= k <= parts(held[m], '/').len() && x
                == #[trigger] path_to(parts(held[m], '/'), k),
    ensures
        with_claimed(listed, held, n).contains(x),
    decreases n,
{
    if n > 0 {
        let rest = with_claimed(listed, held, n - 1);
        let steps = parts(held[n - 1], '/');
        if listed.contains(x) {
            no_folder_is_missing(listed, held, n - 1, x);
            if held[n - 1] != ""@ {
                ways_stay(rest, steps, steps.len() as int, x);
            }
        } else {
            let (m, k) = choose|m: int, k: int|
                0 <= m < n && held[m] != ""@ && 1 <= k <= parts(held[m], '/').len() && x
                    == #[trigger] path_to(parts(held[m], '/'), k);
            if m == n - 1 {
                assert(x == path_to(steps, k));
                ways_stay(rest, steps, steps.len() as int, x);
            } else {
                assert(x == path_to(parts(held[m], '/'), k));
                no_folder_is_missing(listed, held, n - 1, x);
                if held[n - 1] != ""@ {
                    ways_stay(rest, steps, steps.len() as int, x);
                }
            }
        }
    }
}

/// Why a folder can't be made.
pub enum FolderError {
    Slash,
    /// There's one at this path.
    Taken(String),
}

/// What to say of it.
pub fn folder_error(e: &FolderError) -> (out: String)
    ensures
        out@ == match e {
            FolderError::Slash => "A folder name can't contain \"/\"."@,
            FolderError::Taken(path) => "There's already a folder called "@ + path@ + "."@,
        },
{
    match e {
        FolderError::Slash => "A folder name can't contain \"/\".".to_owned(),
        FolderError::Taken(path) => join3("There's already a folder called ", path.as_str(), "."),
    }
}

/// Makes a folder inside the one being shown: the project's folders with it. `name` isn't
/// empty.
pub fn new_folder(listed: &Vec<String>, held: &Vec<String>, here: &str, name: &str) -> (out: Result<
    Vec<String>,
    FolderError,
>)
    ensures
        ({
            let path = step_into(here@, name@);
            let there = with_claimed(views(listed@), views(held@), held@.len() as int);
            if occurs(name@, "/"@) {
                out matches Err(FolderError::Slash)
            } else if there.contains(path) {
                out matches Err(FolderError::Taken(p)) && p@ == path
            } else {
                out is Ok && alphabetical(views((out->Ok_0)@)) && rearranged(
                    views(listed@).push(path),
                    views((out->Ok_0)@),
                )
            }
        }),
{
    if contains(name, "/") {
        return Err(FolderError::Slash);
    }
    let path = inside(here, name);
    let mut there = copy_texts(listed);
    let ghost had = views(listed@);
    let ghost all = views(held@);
    let mut i: usize = 0;
    while i < held.len()
        invariant
            all == views(held@),
            i <= held@.len(),
            views(there@) == with_claimed(had, all, i as int),
        decreases held@.len() - i,
    {
        assert(all[i as int] == held@[i as int]@);
        if !same(held[i].as_str(), "") {
            add_way(&mut there, held[i].as_str());
        }
        i = i + 1;
    }
    if holds_name(&there, path.as_str()) {
        return Err(FolderError::Taken(path));
    }
    let mut folders = copy_texts(listed);
    let ghost before = folders@;
    let ghost added = path@;
    folders.push(path);
    assert(views(folders@) =~= views(before).push(added));
    Ok(sorted_names(&folders))
}

/// What removing a folder does.
pub struct Removed {
    /// The files, by their place, that go back to the top.
    pub moved: Vec<usize>,
    pub folders: Vec<String>,
    /// The folder shown afterwards.
    pub shown: String,
}

/// The folders that stay.
pub open spec fn not_within(folder: Seq<char>) -> spec_fn(Seq<char>) -> bool {
    |path: Seq<char>| !within(path, folder)
}

/// The places of the things within a folder.
pub open spec fn places_within(held: Seq<Seq<char>>, folder: Seq<char>, n: int) -> Seq<usize>
    decreases n,
{
    if n <= 0 {
        Seq::empty()
    } else if within(held[n - 1], folder) {
        places_within(held, folder, n - 1).push((n - 1) as usize)
    } else {
        places_within(held, folder, n - 1)
    }
}

/// Removes a folder and those in it, putting whatever is inside back at the top.
pub fn remove_folder(listed: &Vec<String>, held: &Vec<String>, shown: &str, path: &str) -> (out:
    Removed)
    ensures
        out.moved@ == places_within(views(held@), path@, held@.len() as int),
        forall|k: int| 0 <= k < out.moved@.len() ==> (#[trigger] out.moved@[k]) < held@.len(),
        views(out.folders@) == views(listed@).filter(not_within(path@)),
        out.shown@ == if within(shown@, path@) {
            ""@
        } else {
            shown@
        },
{
    let ghost files = views(held@);
    let mut moved: Vec<usize> = Vec::new();
    let mut i: usize = 0;
    while i < held.len()
        invariant
            files == views(held@),
            i <= held@.len(),
            moved@ == places_within(files, path@, i as int),
            forall|k: int| 0 <= k < moved@.len() ==> (#[trigger] moved@[k]) < i,
        decreases held@.len() - i,
    {
        assert(files[i as int] == held@[i as int]@);
        if is_within(held[i].as_str(), path) {
            moved.push(i);
        }
        i = i + 1;
    }
    let ghost all = views(listed@);
    let ghost p = not_within(path@);
    let mut folders: Vec<String> = Vec::new();
    let mut k: usize = 0;
    proof {
        take_all(all);
        reveal_with_fuel(Seq::filter, 1);
        assert(views(folders@) =~= all.take(0).filter(p));
    }
    while k < listed.len()
        invariant
            all == views(listed@),
            p == not_within(path@),
            k <= listed@.len(),
            views(folders@) == all.take(k as int).filter(p),
        decreases listed@.len() - k,
    {
        proof {
            filter_step(all, p, k as int);
            assert(all[k as int] == listed@[k as int]@);
        }
        if !is_within(listed[k].as_str(), path) {
            let ghost had = folders@;
            folders.push(listed[k].clone());
            assert(views(folders@) =~= views(had).push(listed@[k as int]@));
        }
        k = k + 1;
    }
    proof {
        take_all(all);
    }
    Removed {
        moved,
        folders,
        shown: if is_within(shown, path) {
            "".to_owned()
        } else {
            shown.to_owned()
        },
    }
}

/// Where a file is after the files at `moved` went back to the top.
pub open spec fn folder_after(held: Seq<Seq<char>>, moved: Seq<usize>, i: int) -> Seq<char> {
    if moved.contains(i as usize) {
        ""@
    } else {
        held[i]
    }
}

/// Nothing is left in a folder that was removed: every file that was within it is at the top,
/// and the others are where they were.
pub proof fn removed_folders_are_empty(held: Seq<Seq<char>>, path: Seq<char>, n: int, i: int)
    requires
        0 <= i < n <= held.len() <= usize::MAX,
    ensures
        folder_after(held, places_within(held, path, n), i) == if within(held[i], path) {
            ""@
        } else {
            held[i]
        },
    decreases n,
{
    places_are_right(held, path, n);
}

proof fn places_are_right(held: Seq<Seq<char>>, path: Seq<char>, n: int)
    requires
        0 <= n <= held.len() <= usize::MAX,
    ensures
        forall|x: usize|
            places_within(held, path, n).contains(x) <==> x < n && within(held[x as int], path),
    decreases n,
{
    if n > 0 {
        places_are_right(held, path, n - 1);
        crate::seqs::push_holds(places_within(held, path, n - 1), (n - 1) as usize);
    }
}

pub open spec fn to_the_top(media: Seq<MediaId>) -> spec_fn(usize) -> OpModel {
    |at: usize| OpModel::SetMediaFolder { media: media[at as int], folder: ""@ }
}

/// The changes that remove a folder: what was in it goes to the top, then it goes. `media`
/// are the files, by their places.
pub fn removal(media: &Vec<MediaId>, removed: Removed) -> (out: Vec<Op>)
    requires
        forall|k: int| 0 <= k < removed.moved@.len() ==> (#[trigger] removed.moved@[k]) < media@.len(),
    ensures
        views(out@) == removed.moved@.map_values(to_the_top(media@)).push(
            OpModel::SetBinFolders { folders: views(removed.folders@) },
        ),
{
    let ghost moves = removed.moved@.map_values(to_the_top(media@));
    let mut out: Vec<Op> = Vec::new();
    let mut i: usize = 0;
    while i < removed.moved.len()
        invariant
            forall|k: int|
                0 <= k < removed.moved@.len() ==> (#[trigger] removed.moved@[k]) < media@.len(),
            moves == removed.moved@.map_values(to_the_top(media@)),
            i <= removed.moved@.len(),
            out@.len() == i,
            forall|k: int| 0 <= k < i ==> (#[trigger] out@[k])@ == moves[k],
        decreases removed.moved@.len() - i,
    {
        out.push(Op::SetMediaFolder { media: media[removed.moved[i]], folder: "".to_owned() });
        i = i + 1;
    }
    out.push(Op::SetBinFolders { folders: removed.folders });
    assert(views(out@) =~= moves.push(out@.last()@));
    out
}

/// The change that moves a file into a folder ("" is the top).
pub fn move_to_folder(media: MediaId, folder: &str) -> (out: Op)
    ensures
        out@ == (OpModel::SetMediaFolder { media, folder: folder@ }),
{
    Op::SetMediaFolder { media, folder: folder.to_owned() }
}

} // verus!
