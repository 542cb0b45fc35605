//! Looking at the paths of a task: what each path is, what kinds of files the
//! paths hold, and which file functions are offered for them.

use crate::errors::{failure, CommandError, ErrorKind};
use crate::functions::{push_entry, push_unique, texts_in, texts_of};
use crate::json::{entry_trees, lemma_trees_push, trees, Json, JsonModel};
use crate::paths::{
    extension_of, file_stem_of, get_relative_path_with_home_dir, optional_text, or_empty,
    parent_of, relative_with_home, split_file_path, PathNode,
};
use crate::registry::FileRegistry;
use crate::result::{success_with, CommandResult};
use crate::scan::{
    count_files_and_dirs_to_check_bulk, dirs_among, files_among, get_all_extensions, walked_paths,
    with_kinds, Walk,
};
use crate::support::{get_supported_file_functions, is_support_listing, offered};
use crate::text::{is_sorted, sorted_texts, views};
use vstd::prelude::*;
use vstd::string::StringExecFns;

verus! {

/// The walk for extensions ends once this many files have been seen.
pub const WALK_LIMIT: u32 = 500;

/// The paths of a task: those that the request names, each once, in ascending
/// order. A path that is no string counts as the empty path.
pub fn task_paths(params: &Json) -> (r: Result<Vec<String>, CommandError>)
    ensures
        match params@.member("input_paths"@) {
            JsonModel::Array(items) => {
                &&& r is Ok
                &&& is_sorted(views(r->Ok_0@))
                &&& views(r->Ok_0@).no_duplicates()
                &&& forall|t: Seq<char>|
                    views(r->Ok_0@).contains(t) <==> texts_of(items).contains(t)
            },
            _ => r is Err && r->Err_0@ == failure(ErrorKind::Param, "Missing input_paths"@),
        },
{
    let list: &Json = match params.get("input_paths") {
        Some(v) => v,
        None => {
            return Err(CommandError::new(ErrorKind::Param, "Missing input_paths"));
        },
    };
    if list.as_array().is_none() {
        return Err(CommandError::new(ErrorKind::Param, "Missing input_paths"));
    }
    let all = texts_in(Some(list));
    let ghost wanted = views(all@);
    let mut unique: Vec<String> = Vec::new();
    let mut i: usize = 0;
    proof {
        assert(views(unique@) =~= Seq::<Seq<char>>::empty());
    }
    while i < all.len()
        invariant
            i <= all.len(),
            wanted == views(all@),
            views(unique@).no_duplicates(),
            forall|t: Seq<char>| views(unique@).contains(t) <==> wanted.take(i as int).contains(t),
        decreases all.len() - i,
    {
        let ghost before = views(unique@);
        let item = all[i].clone();
        proof {
            assert(wanted.take(i + 1) =~= wanted.take(i as int).push(item@));
            crate::functions::lemma_push_contains(wanted.take(i as int), item@);
        }
        push_unique(&mut unique, item);
        i = i + 1;
    }
    proof {
        assert(wanted.take(all@.len() as int) =~= wanted);
    }
    let sorted = sorted_texts(&unique);
    proof {
        views(unique@).lemma_multiset_has_no_duplicates();
        views(sorted@).lemma_multiset_has_no_duplicates_conv();
    }
    Ok(sorted)
}

/// What the user interface is told of one path.
pub open spec fn path_item(node: PathNode, home: Option<Seq<char>>) -> JsonModel {
    JsonModel::Object(
        seq![
            ("dir"@, JsonModel::String(or_empty(parent_of(node.path@)))),
            (
                "ext"@,
                JsonModel::String(
                    if node.is_dir {
                        Seq::empty()
                    } else {
                        or_empty(extension_of(node.path@))
                    },
                ),
            ),
            ("full"@, JsonModel::String(node.path@)),
            ("is_dir"@, JsonModel::Bool(node.is_dir)),
            ("is_exist"@, JsonModel::Bool(node.exists)),
            ("is_file"@, JsonModel::Bool(node.is_file)),
            ("rel_full"@, JsonModel::String(relative_with_home(node.path@, home))),
            ("stem"@, JsonModel::String(or_empty(file_stem_of(node.path@)))),
        ],
    )
}

pub fn path_item_json(node: &PathNode, home_dir: Option<&str>) -> (r: Json)
    ensures
        r@ == path_item(*node, optional_text(home_dir)),
{
    let (dir, stem, ext) = split_file_path(node.path.as_str());
    let shown_ext = if node.is_dir {
        String::new()
    } else {
        ext
    };
    let mut entries: Vec<(String, Json)> = Vec::new();
    push_entry(&mut entries, "dir", Json::String(dir));
    push_entry(&mut entries, "ext", Json::String(shown_ext));
    push_entry(&mut entries, "full", Json::String(node.path.clone()));
    push_entry(&mut entries, "is_dir", Json::Bool(node.is_dir));
    push_entry(&mut entries, "is_exist", Json::Bool(node.exists));
    push_entry(&mut entries, "is_file", Json::Bool(node.is_file));
    push_entry(
        &mut entries,
        "rel_full",
        Json::String(get_relative_path_with_home_dir(node.path.as_str(), home_dir)),
    );
    push_entry(&mut entries, "stem", Json::String(stem));
    let r = Json::Object(entries);
    proof {
        assert(r@->Object_0 =~= path_item(*node, optional_text(home_dir))->Object_0);
    }
    r
}

/// The tokens that sum up the paths of a task.
pub open spec fn task_tokens(nodes: Seq<PathNode>) -> Seq<Seq<char>> {
    with_kinds(
        walked_paths(nodes, 0, WALK_LIMIT, Walk { seen: 0, exts: Seq::empty() }).exts,
        nodes,
    )
}

/// What is told of each path, in the order of the paths.
pub open spec fn path_items(nodes: Seq<PathNode>, home: Option<Seq<char>>) -> Seq<JsonModel> {
    Seq::new(nodes.len(), |i: int| path_item(nodes[i], home))
}

/// Describes the paths of a task, given what was found at each of them: every
/// path taken apart, the tokens that sum the paths up, the file functions
/// that are offered for these tokens, and whether there is more than one file
/// or more than one directory.
pub fn parse_for_task(nodes: &Vec<PathNode>, home_dir: Option<&str>, registry: &FileRegistry) -> (r:
    Result<CommandResult, CommandError>)
    ensures
        r is Ok,
        exists|listing: JsonModel| #[trigger]
            is_support_listing(listing, registry.functions@, task_tokens(nodes@)) && r->Ok_0@
                == success_with(
                JsonModel::Object(
                    seq![
                        ("file_exts"@, JsonModel::of_texts(task_tokens(nodes@))),
                        ("file_functions"@, listing),
                        ("is_multiple_dirs"@, JsonModel::Bool(dirs_among(nodes@) > 1)),
                        ("is_multiple_files"@, JsonModel::Bool(files_among(nodes@) > 1)),
                        ("paths"@, JsonModel::Array(path_items(nodes@, optional_text(home_dir)))),
                    ],
                ),
            ),
{
    let mut items: Vec<Json> = Vec::new();
    let mut i: usize = 0;
    while i < nodes.len()
        invariant
            i <= nodes.len(),
            trees(items@).len() == i,
            forall|k: int|
                0 <= k < i ==> (#[trigger] trees(items@)[k]) == path_item(
                    nodes@[k],
                    optional_text(home_dir),
                ),
        decreases nodes.len() - i,
    {
        let item = path_item_json(&nodes[i], home_dir);
        proof {
            lemma_trees_push(items@, item);
        }
        items.push(item);
        i = i + 1;
    }
    let tokens = get_all_extensions(nodes, WALK_LIMIT);
    let functions = match get_supported_file_functions(registry, &tokens) {
        Ok(f) => f,
        Err(e) => {
            return Err(e);
        },
    };
    let (file_num, dir_num) = count_files_and_dirs_to_check_bulk(nodes);
    let ghost listing = functions@;
    let mut entries: Vec<(String, Json)> = Vec::new();
    proof {
        crate::json::lemma_entry_trees(entries@);
        assert(trees(items@) =~= path_items(nodes@, optional_text(home_dir)));
    }
    push_entry(&mut entries, "file_exts", Json::texts(&tokens));
    push_entry(&mut entries, "file_functions", functions);
    push_entry(&mut entries, "is_multiple_dirs", Json::Bool(dir_num > 1));
    push_entry(&mut entries, "is_multiple_files", Json::Bool(file_num > 1));
    push_entry(&mut entries, "paths", Json::Array(items));
    proof {
        assert(entry_trees(entries@) =~= seq![
            ("file_exts"@, JsonModel::of_texts(task_tokens(nodes@))),
            ("file_functions"@, listing),
            ("is_multiple_dirs"@, JsonModel::Bool(dirs_among(nodes@) > 1)),
            ("is_multiple_files"@, JsonModel::Bool(files_among(nodes@) > 1)),
            ("paths"@, JsonModel::Array(path_items(nodes@, optional_text(home_dir)))),
        ]);
        assert(is_support_listing(listing, registry.functions@, task_tokens(nodes@)));
    }
    Ok(CommandResult::with_content(Json::Object(entries)))
}

} // verus!
