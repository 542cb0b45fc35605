//! What a set of paths holds: the extensions of its files, and whether it is
//! one file or directory or many.
//!
//! The paths are given as they were found on disk, each directory with what
//! is in it (see [`PathNode`]).

use crate::functions::push_unique;
use crate::paths::{extension_of, lowercase, or_empty, split_file_path, to_lowercase, PathNode};
use crate::text::views;
use vstd::prelude::*;
use vstd::string::StringExecFns;

verus! {

/// No more extensions are collected once there are this many.
pub const MAX_EXTENSIONS: usize = 100;

/// The smaller of a number and two.
pub open spec fn up_to_two(n: nat) -> nat {
    if n < 2 {
        n
    } else {
        2
    }
}

/// The number of files at and below a node.
pub open spec fn files_in(node: PathNode) -> nat
    decreases node,
{
    if node.is_dir {
        files_among(node.children@)
    } else if node.is_file {
        1
    } else {
        0
    }
}

pub open spec fn files_among(nodes: Seq<PathNode>) -> nat
    decreases nodes,
{
    if nodes.len() == 0 {
        0
    } else {
        files_among(nodes.drop_last()) + files_in(nodes.last())
    }
}

/// The number of directories at and below a node.
pub open spec fn dirs_in(node: PathNode) -> nat
    decreases node,
{
    if node.is_dir {
        1 + dirs_among(node.children@)
    } else {
        0
    }
}

pub open spec fn dirs_among(nodes: Seq<PathNode>) -> nat
    decreases nodes,
{
    if nodes.len() == 0 {
        0
    } else {
        dirs_among(nodes.drop_last()) + dirs_in(nodes.last())
    }
}

fn add_up_to_two(a: usize, b: usize) -> (r: usize)
    requires
        a <= 2,
        b <= 2,
    ensures
        r == up_to_two((a + b) as nat),
{
    if a + b < 2 {
        a + b
    } else {
        2
    }
}

fn count_node(node: &PathNode) -> (r: (usize, usize))
    ensures
        r.0 == up_to_two(files_in(*node)),
        r.1 == up_to_two(dirs_in(*node)),
    decreases node,
{
    if node.is_dir {
        let mut files: usize = 0;
        let mut dirs: usize = 0;
        let mut i: usize = 0;
        proof {
            assert(node.children@.take(0) =~= Seq::<PathNode>::empty());
        }
        while i < node.children.len()
            invariant
                i <= node.children.len(),
                files == up_to_two(files_among(node.children@.take(i as int))),
                dirs == up_to_two(dirs_among(node.children@.take(i as int))),
            decreases node.children.len() - i,
        {
            proof {
                assert(decreases_to!(*node => node.children));
                assert(decreases_to!(node.children => node.children@));
                assert(decreases_to!(node.children@ => node.children@[i as int]));
                assert(node.children@.take(i + 1).drop_last() =~= node.children@.take(i as int));
                assert(node.children@.take(i + 1).last() == node.children@[i as int]);
            }
            let (f, d) = count_node(&node.children[i]);
            files = add_up_to_two(files, f);
            dirs = add_up_to_two(dirs, d);
            i = i + 1;
        }
        proof {
            assert(node.children@.take(node.children@.len() as int) =~= node.children@);
        }
        (files, add_up_to_two(dirs, 1))
    } else if node.is_file {
        (1, 0)
    } else {
        (0, 0)
    }
}

/// Counts the files and the directories at and below the paths, each count
/// going no further than two: the counts serve to tell one from many.
pub fn count_files_and_dirs_to_check_bulk(paths: &Vec<PathNode>) -> (r: (usize, usize))
    ensures
        r.0 == up_to_two(files_among(paths@)),
        r.1 == up_to_two(dirs_among(paths@)),
{
    let mut files: usize = 0;
    let mut dirs: usize = 0;
    let mut i: usize = 0;
    proof {
        assert(paths@.take(0) =~= Seq::<PathNode>::empty());
    }
    while i < paths.len()
        invariant
            i <= paths.len(),
            files == up_to_two(files_among(paths@.take(i as int))),
            dirs == up_to_two(dirs_among(paths@.take(i as int))),
        decreases paths.len() - i,
    {
        proof {
            assert(paths@.take(i + 1).drop_last() =~= paths@.take(i as int));
            assert(paths@.take(i + 1).last() == paths@[i as int]);
        }
        let (f, d) = count_node(&paths[i]);
        files = add_up_to_two(files, f);
        dirs = add_up_to_two(dirs, d);
        i = i + 1;
    }
    proof {
        assert(paths@.take(paths@.len() as int) =~= paths@);
    }
    (files, dirs)
}

/// How far a walk has come: the files it has seen, and the extensions it has
/// found.
pub struct Walk {
    pub seen: nat,
    pub exts: Seq<Seq<char>>,
}

/// The extensions with one more, unless it is among them.
pub open spec fn with_ext(exts: Seq<Seq<char>>, ext: Seq<char>) -> Seq<Seq<char>> {
    if exts.contains(ext) {
        exts
    } else {
        exts.push(ext)
    }
}

/// A number of files, counted no further than a `u32` goes.
pub open spec fn one_more(seen: nat) -> nat {
    if seen < u32::MAX {
        seen + 1
    } else {
        seen
    }
}

/// The walk after a node. Nothing is looked at once a hundred extensions are
/// known. A file is counted, and its extension, in lower case, is added
/// unless the file has none; a directory is walked entry by entry.
pub open spec fn walked(node: PathNode, walk: Walk) -> Walk
    decreases node,
{
    if !node.exists || walk.exts.len() >= MAX_EXTENSIONS {
        walk
    } else if node.is_file {
        let ext = or_empty(extension_of(node.path@));
        Walk {
            seen: one_more(walk.seen),
            exts: if ext.len() == 0 {
                walk.exts
            } else {
                with_ext(walk.exts, lowercase(ext))
            },
        }
    } else if node.is_dir {
        walked_all(node.children@, walk)
    } else {
        walk
    }
}

pub open spec fn walked_all(nodes: Seq<PathNode>, walk: Walk) -> Walk
    decreases nodes,
{
    if nodes.len() == 0 {
        walk
    } else {
        walked(nodes.last(), walked_all(nodes.drop_last(), walk))
    }
}

/// The walk over the given paths from path `from` on; it ends once `limit`
/// files have been seen.
pub open spec fn walked_paths(paths: Seq<PathNode>, from: int, limit: u32, walk: Walk) -> Walk
    decreases paths.len() - from,
{
    if from < 0 || from >= paths.len() {
        walk
    } else {
        let next = walked(paths[from], walk);
        if next.seen >= limit {
            next
        } else {
            walked_paths(paths, from + 1, limit, next)
        }
    }
}

/// More than one path was given, and neither the files nor the directories
/// among them are more than one.
///
/// This is a choice of this library: `/paths` marks a set of several paths
/// only where no other token marks it, so that two files and a directory are
/// summed up as `/files` and `/dir` alone. Another reading, under which every
/// set of more than one path gets `/paths`, gives that token for two files
/// as well.
pub open spec fn several_single_paths(paths: Seq<PathNode>) -> bool {
    paths.len() > 1 && files_among(paths) <= 1 && dirs_among(paths) <= 1
}

/// The tokens that say what kind of paths were given: `/file` or `/files`
/// for one file or more, `/dir` or `/dirs` for one directory or more, and
/// `/paths` for more than one path where neither `/files` nor `/dirs` says
/// so already.
pub open spec fn with_kinds(exts: Seq<Seq<char>>, paths: Seq<PathNode>) -> Seq<Seq<char>> {
    let a = if several_single_paths(paths) {
        with_ext(exts, "/paths"@)
    } else {
        exts
    };
    let b = if files_among(paths) == 1 {
        with_ext(a, "/file"@)
    } else if files_among(paths) > 1 {
        with_ext(a, "/files"@)
    } else {
        a
    };
    if dirs_among(paths) == 1 {
        with_ext(b, "/dir"@)
    } else if dirs_among(paths) > 1 {
        with_ext(b, "/dirs"@)
    } else {
        b
    }
}

fn add_token(exts: &mut Vec<String>, token: &str)
    requires
        views(old(exts)@).no_duplicates(),
    ensures
        views(final(exts)@) == with_ext(views(old(exts)@), token@),
        views(final(exts)@).no_duplicates(),
{
    let ghost before = exts@;
    let t = String::from_str(token);
    push_unique(exts, t);
    proof {
        if !views(before).contains(token@) {
            assert(views(before.push(t)) =~= views(before).push(token@));
        }
    }
}

fn walk_node(node: &PathNode, seen: &mut u32, exts: &mut Vec<String>, Ghost(before): Ghost<Walk>)
    requires
        before.seen == *old(seen),
        before.exts == views(old(exts)@),
        views(old(exts)@).no_duplicates(),
    ensures
        walked(*node, before).seen == *final(seen),
        walked(*node, before).exts == views(final(exts)@),
        views(final(exts)@).no_duplicates(),
    decreases node,
{
    if !node.exists || exts.len() >= MAX_EXTENSIONS {
        return ;
    }
    if node.is_file {
        if *seen < u32::MAX {
            *seen = *seen + 1;
        }
        let (_, _, ext) = split_file_path(node.path.as_str());
        if !ext.as_str().is_empty() {
            let lower = to_lowercase(ext.as_str());
            add_token(exts, lower.as_str());
        }
    } else if node.is_dir {
        let mut i: usize = 0;
        proof {
            assert(node.children@.take(0) =~= Seq::<PathNode>::empty());
        }
        while i < node.children.len()
            invariant
                i <= node.children.len(),
                walked_all(node.children@.take(i as int), before).seen == *seen,
                walked_all(node.children@.take(i as int), before).exts == views(exts@),
                views(exts@).no_duplicates(),
            decreases node.children.len() - i,
        {
            proof {
                assert(decreases_to!(*node => node.children));
                assert(decreases_to!(node.children => node.children@));
                assert(decreases_to!(node.children@ => node.children@[i as int]));
                assert(node.children@.take(i + 1).drop_last() =~= node.children@.take(i as int));
                assert(node.children@.take(i + 1).last() == node.children@[i as int]);
            }
            let ghost here = walked_all(node.children@.take(i as int), before);
            walk_node(&node.children[i], seen, exts, Ghost(here));
            i = i + 1;
        }
        proof {
            assert(node.children@.take(node.children@.len() as int) =~= node.children@);
        }
    }
}

/// The tokens that sum up the paths: the lower-case extensions of the files
/// at and below them, and the tokens for the kind of paths. The walk ends
/// once `limit_walk_file` files have been seen.
pub fn get_all_extensions(paths: &Vec<PathNode>, limit_walk_file: u32) -> (r: Vec<String>)
    ensures
        views(r@) == with_kinds(
            walked_paths(paths@, 0, limit_walk_file, Walk { seen: 0, exts: Seq::empty() }).exts,
            paths@,
        ),
        views(r@).no_duplicates(),
{
    let mut exts: Vec<String> = Vec::new();
    let mut seen: u32 = 0;
    let mut i: usize = 0;
    let ghost start = Walk { seen: 0, exts: Seq::empty() };
    let ghost mut walk = start;
    proof {
        assert(views(exts@) =~= Seq::<Seq<char>>::empty());
    }
    while i < paths.len()
        invariant_except_break
            walked_paths(paths@, i as int, limit_walk_file, walk) == walked_paths(
                paths@,
                0,
                limit_walk_file,
                start,
            ),
        invariant
            i <= paths.len(),
            walk.seen == seen,
            walk.exts == views(exts@),
            views(exts@).no_duplicates(),
        ensures
            walk == walked_paths(paths@, 0, limit_walk_file, start),
        decreases paths.len() - i,
    {
        let ghost before = walk;
        walk_node(&paths[i], &mut seen, &mut exts, Ghost(before));
        proof {
            walk = walked(paths@[i as int], before);
        }
        if seen >= limit_walk_file {
            proof {
                assert(walked_paths(paths@, i as int, limit_walk_file, before) == walk);
            }
            break ;
        }
        i = i + 1;
    }
    let (file_num, dir_num) = count_files_and_dirs_to_check_bulk(paths);
    if paths.len() > 1 && file_num <= 1 && dir_num <= 1 {
        add_token(&mut exts, "/paths");
    }
    if file_num == 1 {
        add_token(&mut exts, "/file");
    } else if file_num > 1 {
        add_token(&mut exts, "/files");
    }
    if dir_num == 1 {
        add_token(&mut exts, "/dir");
    } else if dir_num > 1 {
        add_token(&mut exts, "/dirs");
    }
    exts
}

} // verus!
