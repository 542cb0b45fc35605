//! The commands on paths: what each reads from its request, and what it
//! returns for what was found on disk.

use crate::errors::{failure, CommandError, ErrorKind, ErrorModel};
use crate::functions::{push_entry, texts_in, texts_of};
use crate::json::{lemma_trees, tree, trees, Json, JsonModel};
use crate::params::{
    get_string_val_from_params, input_file_keys, str_views, string_param,
};
use crate::paths::{
    absolute_with_home, extension_of, file_stem_of, get_absolute_path_with_home_dir,
    get_relative_path_with_home_dir, get_unique_filepath, holds_text, is_first_free, joined,
    lowercase, optional_text, or_empty, parent_of, relative_with_home, split_file_path,
    to_lowercase, unique_candidate, PathNode,
};
use crate::resource::{app_data_dir_of, get_temp_dir, joined_all, text_result, Environment};
use crate::result::{success_with, CommandResult};
use crate::text::{concat2, concat3, copy_str, has_prefix, starts_with, str_eq, views};
use crate::tools::ShellCommand;
use vstd::prelude::*;
use vstd::string::StringExecFns;

verus! {

/// `uuid::Uuid::new_v4`, written out: a fresh random identifier.
#[verifier::external_body]
pub(crate) fn fresh_uuid() -> String {
    uuid::Uuid::new_v4().to_string()
}

/// The command that shows a path in the platform's file manager; nothing on a
/// platform that is not known.
pub fn reveal_path(platform: &str, path: &str) -> (r: Option<ShellCommand>)
    ensures
        match r {
            Some(c) => if platform@ == "macos"@ {
                c.program@ == "open"@ && views(c.arguments@) == seq!["-R"@, path@]
            } else if platform@ == "windows"@ {
                c.program@ == "explorer"@ && views(c.arguments@) == seq!["/select,"@, path@]
            } else {
                platform@ == "linux"@ && c.program@ == "xdg-open"@ && views(c.arguments@) == seq![
                    path@,
                ]
            },
            None => platform@ != "macos"@ && platform@ != "windows"@ && platform@ != "linux"@,
        },
{
    let mut arguments: Vec<String> = Vec::new();
    if str_eq(platform, "macos") {
        arguments.push(String::from_str("-R"));
        arguments.push(String::from_str(path));
        proof {
            assert(views(arguments@) =~= seq!["-R"@, path@]);
        }
        Some(ShellCommand { program: String::from_str("open"), arguments })
    } else if str_eq(platform, "windows") {
        arguments.push(String::from_str("/select,"));
        arguments.push(String::from_str(path));
        proof {
            assert(views(arguments@) =~= seq!["/select,"@, path@]);
        }
        Some(ShellCommand { program: String::from_str("explorer"), arguments })
    } else if str_eq(platform, "linux") {
        arguments.push(String::from_str(path));
        proof {
            assert(views(arguments@) =~= seq![path@]);
        }
        Some(ShellCommand { program: String::from_str("xdg-open"), arguments })
    } else {
        None
    }
}

/// The command that opens an address in the platform's browser.
pub fn open_url_command(platform: &str, url: &str) -> (r: Option<ShellCommand>)
    ensures
        match r {
            Some(c) => if platform@ == "macos"@ {
                c.program@ == "open"@ && views(c.arguments@) == seq![url@]
            } else if platform@ == "windows"@ {
                c.program@ == "powershell"@ && views(c.arguments@) == seq!["start"@, url@]
            } else {
                platform@ == "linux"@ && c.program@ == "xdg-open"@ && views(c.arguments@) == seq![
                    url@,
                ]
            },
            None => platform@ != "macos"@ && platform@ != "windows"@ && platform@ != "linux"@,
        },
{
    let mut arguments: Vec<String> = Vec::new();
    if str_eq(platform, "macos") {
        arguments.push(String::from_str(url));
        proof {
            assert(views(arguments@) =~= seq![url@]);
        }
        Some(ShellCommand { program: String::from_str("open"), arguments })
    } else if str_eq(platform, "windows") {
        arguments.push(String::from_str("start"));
        arguments.push(String::from_str(url));
        proof {
            assert(views(arguments@) =~= seq!["start"@, url@]);
        }
        Some(ShellCommand { program: String::from_str("powershell"), arguments })
    } else if str_eq(platform, "linux") {
        arguments.push(String::from_str(url));
        proof {
            assert(views(arguments@) =~= seq![url@]);
        }
        Some(ShellCommand { program: String::from_str("xdg-open"), arguments })
    } else {
        None
    }
}

pub open spec fn input_path_keys() -> Seq<Seq<char>> {
    seq!["input_path"@, "path"@]
}

pub open spec fn file_path_keys() -> Seq<Seq<char>> {
    seq!["file_path"@, "path"@]
}

/// The path that a request asks about.
pub fn is_exists(params: &Json) -> (r: Result<String, CommandError>)
    ensures
        text_result(r) == string_param(params@, input_path_keys()),
{
    let mut keys: Vec<&str> = Vec::new();
    keys.push("input_path");
    keys.push("path");
    proof {
        assert(str_views(keys@) =~= input_path_keys());
    }
    get_string_val_from_params(keys, params)
}

/// The outcome that tells whether the path exists.
pub fn exists_done(exists: bool) -> (r: CommandResult)
    ensures
        r@ == success_with(JsonModel::Bool(exists)),
{
    CommandResult::with_content(Json::Bool(exists))
}

/// The paths of a request, each of which has to be a string.
pub open spec fn path_list(params: JsonModel) -> Result<Seq<Seq<char>>, ErrorModel> {
    match params.field("input_paths"@) {
        None => Err(failure(ErrorKind::Param, "input_paths is required"@)),
        Some(JsonModel::Array(items)) => if forall|i: int|
            0 <= i < items.len() ==> (#[trigger] items[i]) is String {
            Ok(texts_of(items))
        } else {
            Err(failure(ErrorKind::Param, "path must be a string"@))
        },
        Some(_) => Err(failure(ErrorKind::Param, "input_paths must be an array"@)),
    }
}

fn read_path_list(params: &Json) -> (r: Result<Vec<String>, CommandError>)
    ensures
        match r {
            Ok(paths) => path_list(params@) == Ok::<Seq<Seq<char>>, ErrorModel>(views(paths@)),
            Err(e) => path_list(params@) == Err::<Seq<Seq<char>>, ErrorModel>(e@),
        },
{
    let items: &Vec<Json> = match params.get("input_paths") {
        None => {
            return Err(CommandError::new(ErrorKind::Param, "input_paths is required"));
        },
        Some(v) => match v.as_array() {
            Some(items) => items,
            None => {
                return Err(CommandError::new(ErrorKind::Param, "input_paths must be an array"));
            },
        },
    };
    proof {
        lemma_trees(items@);
        assert(params@.field("input_paths"@) == Some(JsonModel::Array(trees(items@))));
    }
    let mut out: Vec<String> = Vec::new();
    let mut i: usize = 0;
    while i < items.len()
        invariant
            i <= items.len(),
            params@.field("input_paths"@) == Some(JsonModel::Array(trees(items@))),
            trees(items@).len() == items@.len(),
            forall|k: int|
                0 <= k < items@.len() ==> (#[trigger] trees(items@)[k]) == tree(items@[k]),
            forall|k: int| 0 <= k < i ==> (#[trigger] trees(items@)[k]) is String,
            views(out@) =~= texts_of(trees(items@)).take(i as int),
        decreases items.len() - i,
    {
        match items[i].as_str() {
            Some(s) => {
                let t = copy_str(s);
                proof {
                    assert(trees(items@)[i as int] == tree(items@[i as int]));
                    assert(t@ == trees(items@)[i as int].text_or_empty());
                    assert(views(out@.push(t)) =~= views(out@).push(t@));
                    assert(texts_of(trees(items@)).take(i + 1) =~= texts_of(trees(items@)).take(
                        i as int,
                    ).push(t@));
                }
                out.push(t);
            },
            None => {
                proof {
                    assert(trees(items@)[i as int] == tree(items@[i as int]));
                    assert(!(trees(items@)[i as int] is String));
                    assert(params@.field("input_paths"@) == Some(JsonModel::Array(trees(items@))));
                }
                return Err(CommandError::new(ErrorKind::Param, "path must be a string"));
            },
        }
        i = i + 1;
    }
    proof {
        assert(texts_of(trees(items@)).take(items@.len() as int) =~= texts_of(trees(items@)));
    }
    Ok(out)
}

/// Writes `~` for the home directory in each path of the request.
pub fn relative_with_home_dir(params: &Json, home_dir: Option<&str>) -> (r: Result<
    CommandResult,
    CommandError,
>)
    ensures
        match path_list(params@) {
            Err(e) => r is Err && r->Err_0@ == e,
            Ok(paths) => r is Ok && r->Ok_0@ == success_with(
                JsonModel::of_texts(
                    Seq::new(
                        paths.len(),
                        |i: int| relative_with_home(paths[i], optional_text(home_dir)),
                    ),
                ),
            ),
        },
{
    let paths = match read_path_list(params) {
        Ok(p) => p,
        Err(e) => {
            return Err(e);
        },
    };
    let mut out: Vec<String> = Vec::new();
    let mut i: usize = 0;
    while i < paths.len()
        invariant
            i <= paths.len(),
            views(out@) =~= Seq::new(
                i as nat,
                |k: int| relative_with_home(views(paths@)[k], optional_text(home_dir)),
            ),
        decreases paths.len() - i,
    {
        let t = get_relative_path_with_home_dir(paths[i].as_str(), home_dir);
        proof {
            assert(views(out@.push(t)) =~= views(out@).push(t@));
        }
        out.push(t);
        i = i + 1;
    }
    proof {
        assert(views(out@) =~= Seq::new(
            views(paths@).len(),
            |k: int| relative_with_home(views(paths@)[k], optional_text(home_dir)),
        ));
    }
    Ok(CommandResult::with_content(Json::texts(&out)))
}

/// Writes the home directory out in each path of the request.
pub fn absolute_with_home_dir(params: &Json, home_dir: Option<&str>, separator: char) -> (r: Result<
    CommandResult,
    CommandError,
>)
    ensures
        match path_list(params@) {
            Err(e) => r is Err && r->Err_0@ == e,
            Ok(paths) => r is Ok && r->Ok_0@ == success_with(
                JsonModel::of_texts(
                    Seq::new(
                        paths.len(),
                        |i: int| absolute_with_home(paths[i], optional_text(home_dir), separator),
                    ),
                ),
            ),
        },
{
    let paths = match read_path_list(params) {
        Ok(p) => p,
        Err(e) => {
            return Err(e);
        },
    };
    let mut out: Vec<String> = Vec::new();
    let mut i: usize = 0;
    while i < paths.len()
        invariant
            i <= paths.len(),
            views(out@) =~= Seq::new(
                i as nat,
                |k: int| absolute_with_home(views(paths@)[k], optional_text(home_dir), separator),
            ),
        decreases paths.len() - i,
    {
        let t = get_absolute_path_with_home_dir(paths[i].as_str(), home_dir, separator);
        proof {
            assert(views(out@.push(t)) =~= views(out@).push(t@));
        }
        out.push(t);
        i = i + 1;
    }
    proof {
        assert(views(out@) =~= Seq::new(
            views(paths@).len(),
            |k: int| absolute_with_home(views(paths@)[k], optional_text(home_dir), separator),
        ));
    }
    Ok(CommandResult::with_content(Json::texts(&out)))
}

/// A path taken apart, as the user interface receives it.
pub open spec fn split_json(path: Seq<char>) -> JsonModel {
    JsonModel::Object(
        seq![
            ("dir"@, JsonModel::String(or_empty(parent_of(path)))),
            ("ext"@, JsonModel::String(lowercase(or_empty(extension_of(path))))),
            ("stem"@, JsonModel::String(or_empty(file_stem_of(path)))),
        ],
    )
}

/// Splits the path of the request into directory, stem and lower-case extension.
pub fn split_path(params: &Json) -> (r: Result<CommandResult, CommandError>)
    ensures
        match string_param(params@, file_path_keys()) {
            Err(e) => r is Err && r->Err_0@ == e,
            Ok(path) => r is Ok && r->Ok_0@ == success_with(split_json(path)),
        },
{
    let mut keys: Vec<&str> = Vec::new();
    keys.push("file_path");
    keys.push("path");
    proof {
        assert(str_views(keys@) =~= file_path_keys());
    }
    let path = match get_string_val_from_params(keys, params) {
        Ok(p) => p,
        Err(e) => {
            return Err(e);
        },
    };
    let (dir, stem, ext) = split_file_path(path.as_str());
    let mut entries: Vec<(String, Json)> = Vec::new();
    push_entry(&mut entries, "dir", Json::String(dir));
    push_entry(&mut entries, "ext", Json::String(to_lowercase(ext.as_str())));
    push_entry(&mut entries, "stem", Json::String(stem));
    let content = Json::Object(entries);
    proof {
        assert(content@->Object_0 =~= split_json(path@)->Object_0);
    }
    Ok(CommandResult::with_content(content))
}

/// The parts of a request joined into one path: the first part, with each
/// other part joined to it in turn. A part that is no string counts as empty.
pub open spec fn joined_parts(params: JsonModel) -> Result<Seq<char>, ErrorModel> {
    match params.field("parts"@) {
        None => Err(failure(ErrorKind::Param, "`parts` is required"@)),
        Some(JsonModel::Array(items)) => if items.len() == 0 {
            Err(failure(ErrorKind::Param, "`parts` must not be empty"@))
        } else {
            Ok(joined_all(texts_of(items)[0], texts_of(items).skip(1)))
        },
        Some(_) => Err(failure(ErrorKind::Param, "`parts` must be an array"@)),
    }
}

/// Joins the parts of the request into one path.
pub fn join_path(params: &Json) -> (r: Result<CommandResult, CommandError>)
    ensures
        match joined_parts(params@) {
            Err(e) => r is Err && r->Err_0@ == e,
            Ok(path) => r is Ok && r->Ok_0@ == success_with(JsonModel::String(path)),
        },
{
    let parts_json: &Json = match params.get("parts") {
        None => {
            return Err(CommandError::new(ErrorKind::Param, "`parts` is required"));
        },
        Some(v) => v,
    };
    if parts_json.as_array().is_none() {
        return Err(CommandError::new(ErrorKind::Param, "`parts` must be an array"));
    }
    let parts = texts_in(Some(parts_json));
    if parts.len() == 0 {
        proof {
            assert(views(parts@).len() == 0);
        }
        return Err(CommandError::new(ErrorKind::Param, "`parts` must not be empty"));
    }
    let ghost texts = views(parts@);
    let mut path = parts[0].clone();
    let mut i: usize = 1;
    proof {
        assert(texts.skip(1).take(0) =~= Seq::<Seq<char>>::empty());
    }
    while i < parts.len()
        invariant
            1 <= i <= parts.len(),
            texts == views(parts@),
            path@ == joined_all(texts[0], texts.skip(1).take(i - 1)),
        decreases parts.len() - i,
    {
        proof {
            assert(texts.skip(1).take(i as int).drop_last() =~= texts.skip(1).take(i - 1));
            assert(texts.skip(1).take(i as int).last() == texts[i as int]);
        }
        path = crate::paths::join_path(path.as_str(), parts[i].as_str());
        i = i + 1;
    }
    proof {
        assert(texts.skip(1).take(parts@.len() - 1) =~= texts.skip(1));
    }
    Ok(CommandResult::with_content(Json::String(path)))
}

pub open spec fn format_keys() -> Seq<Seq<char>> {
    seq!["ext"@, "extension"@, "to_format"@, "format"@]
}

/// The extension that a request asks for, where it names one.
pub open spec fn wanted_format(params: JsonModel) -> Option<Seq<char>> {
    match string_param(params, format_keys()) {
        Ok(e) => Some(e),
        Err(_) => None,
    }
}

/// The outcome `r` holds the first path for `input`, with the extension
/// replaced where one is given, that is not among the `taken` ones; it fails
/// where every attempt is taken.
pub open spec fn is_first_unused(
    input: Seq<char>,
    ext: Option<Seq<char>>,
    taken: Seq<String>,
    r: Result<CommandResult, CommandError>,
) -> bool {
    match r {
        Ok(c) => exists|n: nat|
            c@ == success_with(JsonModel::String(unique_candidate(input, None, ext, n)))
                && #[trigger] is_first_free(input, None, ext, taken, n),
        Err(e) => e@ == failure(ErrorKind::Io, "Invalid new file path"@) && forall|m: nat|
            m <= u64::MAX ==> holds_text(taken, #[trigger] unique_candidate(input, None, ext, m)),
    }
}

/// A path for the input file of the request, with the extension that the
/// request names, that is not among the `taken` ones: the first free one of
/// `stem.ext`, `stem-1.ext`, `stem-2.ext` and so on.
pub fn make_unused_file_path(params: &Json, taken: &Vec<String>) -> (r: Result<
    CommandResult,
    CommandError,
>)
    ensures
        match string_param(params@, input_file_keys()) {
            Err(e) => r is Err && r->Err_0@ == e,
            Ok(input) => is_first_unused(input, wanted_format(params@), taken@, r),
        },
{
    let mut keys: Vec<&str> = Vec::new();
    keys.push("input_file");
    keys.push("input_path");
    proof {
        assert(str_views(keys@) =~= input_file_keys());
    }
    let input_file = match get_string_val_from_params(keys, params) {
        Ok(p) => p,
        Err(e) => {
            return Err(e);
        },
    };
    let mut format: Vec<&str> = Vec::new();
    format.push("ext");
    format.push("extension");
    format.push("to_format");
    format.push("format");
    proof {
        assert(str_views(format@) =~= format_keys());
    }
    let ext: Option<String> = match get_string_val_from_params(format, params) {
        Ok(e) => Some(e),
        Err(_) => None,
    };
    let new_ext: Option<&str> = match &ext {
        Some(e) => Some(e.as_str()),
        None => None,
    };
    let no_stem: Option<&str> = None;
    proof {
        assert(optional_text(new_ext) == wanted_format(params@));
        assert(optional_text(no_stem) == None::<Seq<char>>);
    }
    match get_unique_filepath(input_file.as_str(), no_stem, new_ext, taken) {
        Ok(p) => {
            let ghost n = choose|n: nat|
                p@ == unique_candidate(
                    input_file@,
                    None,
                    wanted_format(params@),
                    n,
                ) && #[trigger] is_first_free(
                    input_file@,
                    None,
                    wanted_format(params@),
                    taken@,
                    n,
                );
            let r = CommandResult::with_content(Json::String(p));
            proof {
                assert(r@ == success_with(
                    JsonModel::String(
                        unique_candidate(
                            input_file@,
                            None,
                            wanted_format(params@),
                            n,
                        ),
                    ),
                ));
                assert(is_first_free(
                    input_file@,
                    None,
                    wanted_format(params@),
                    taken@,
                    n,
                ));
            }
            proof {
                assert(is_first_unused(input_file@, wanted_format(params@), taken@, Ok(r)));
            }
            Ok(r)
        },
        Err(e) => {
            proof {
                assert forall|m: nat| m <= u64::MAX implies holds_text(
                    taken@,
                    #[trigger] unique_candidate(
                        input_file@,
                        None,
                        wanted_format(params@),
                        m,
                    ),
                ) by {
                    assert(holds_text(
                        taken@,
                        unique_candidate(
                            input_file@,
                            optional_text(no_stem),
                            optional_text(new_ext),
                            m,
                        ),
                    ));
                }
            }
            proof {
                assert(is_first_unused(input_file@, wanted_format(params@), taken@, Err(e)));
            }
            Err(e)
        },
    }
}

/// The path of a temporary file: the identifier, a dot and the extension, in
/// the directory.
pub fn temp_file_path(temp_dir: &str, id: &str, ext: &str) -> (r: String)
    ensures
        r@ == joined(temp_dir@, id@ + "."@ + ext@),
{
    let name = concat3(id, ".", ext);
    crate::paths::join_path(temp_dir, name.as_str())
}

/// A path for a new temporary file in the directory, named by a fresh random
/// identifier.
pub fn new_temp_file_path(temp_dir: &str, ext: &str) -> (r: String)
    ensures
        exists|id: Seq<char>| r@ == joined(temp_dir@, id + "."@ + ext@),
{
    let id = fresh_uuid();
    temp_file_path(temp_dir, id.as_str(), ext)
}

/// The text of the first of two optional members, each of which has to be a
/// string where it is there.
pub open spec fn either_text(
    params: JsonModel,
    first: Seq<char>,
    second: Seq<char>,
    fallback: Seq<char>,
) -> Result<Seq<char>, ErrorModel> {
    match params.field(first) {
        Some(JsonModel::String(s)) => Ok(s),
        Some(_) => Err(failure(ErrorKind::Param, first + " must be a string"@)),
        None => match params.field(second) {
            Some(JsonModel::String(s)) => Ok(s),
            Some(_) => Err(failure(ErrorKind::Param, second + " must be a string"@)),
            None => Ok(fallback),
        },
    }
}

fn read_either(params: &Json, first: &str, second: &str, fallback: &str) -> (r: Result<
    String,
    CommandError,
>)
    ensures
        text_result(r) == either_text(params@, first@, second@, fallback@),
{
    match params.get(first) {
        Some(v) => match v.as_str() {
            Some(s) => Ok(copy_str(s)),
            None => Err(
                CommandError { kind: ErrorKind::Param, message: concat2(first, " must be a string") },
            ),
        },
        None => match params.get(second) {
            Some(v) => match v.as_str() {
                Some(s) => Ok(copy_str(s)),
                None => Err(
                    CommandError {
                        kind: ErrorKind::Param,
                        message: concat2(second, " must be a string"),
                    },
                ),
            },
            None => Ok(copy_str(fallback)),
        },
    }
}

/// The directory and the extension of the temporary file that a request asks
/// for: the extension is `tmp` and the directory is the application's own
/// where the request names none.
pub fn temp_file_request(params: &Json, env: &Environment) -> (r: Result<
    (String, String),
    CommandError,
>)
    ensures
        match either_text(params@, "ext"@, "extension"@, "tmp"@) {
            Err(e) => r is Err && r->Err_0@ == e,
            Ok(ext) => match either_text(params@, "parent_dir"@, "dir"@, ""@) {
                Err(e) => r is Err && r->Err_0@ == e,
                Ok(dir) => if dir.len() > 0 {
                    r is Ok && r->Ok_0.0@ == dir && r->Ok_0.1@ == ext
                } else {
                    match app_data_dir_of(*env) {
                        Ok(d) => r is Ok && r->Ok_0.0@ == joined(d, ".temp"@) && r->Ok_0.1@ == ext,
                        Err(e) => r is Err && r->Err_0@ == failure(
                            ErrorKind::NotFound,
                            "Can't get dir for temp file: "@ + e.message,
                        ),
                    }
                },
            },
        },
{
    let ext = match read_either(params, "ext", "extension", "tmp") {
        Ok(e) => e,
        Err(e) => {
            return Err(e);
        },
    };
    let dir = match read_either(params, "parent_dir", "dir", "") {
        Ok(d) => d,
        Err(e) => {
            return Err(e);
        },
    };
    if !dir.as_str().is_empty() {
        return Ok((dir, ext));
    }
    match get_temp_dir(env) {
        Ok(d) => Ok((d, ext)),
        Err(e) => Err(
            CommandError {
                kind: ErrorKind::NotFound,
                message: concat2("Can't get dir for temp file: ", e.message.as_str()),
            },
        ),
    }
}

/// The texts that are not empty, in their order.
pub open spec fn non_empty(texts: Seq<Seq<char>>) -> Seq<Seq<char>> {
    texts.filter(|t: Seq<char>| t.len() > 0)
}

/// Keeps the texts that are not empty, in their order.
pub fn keep_non_empty(texts: Vec<String>) -> (r: Vec<String>)
    ensures
        views(r@) == non_empty(views(texts@)),
{
    let mut out: Vec<String> = Vec::new();
    let mut i: usize = 0;
    let ghost all = views(texts@);
    proof {
        assert(all.take(0) =~= Seq::<Seq<char>>::empty());
        assert(views(out@) =~= non_empty(all.take(0)));
    }
    while i < texts.len()
        invariant
            i <= texts.len(),
            all == views(texts@),
            views(out@) == non_empty(all.take(i as int)),
        decreases texts.len() - i,
    {
        proof {
            assert(all.take(i + 1).drop_last() =~= all.take(i as int));
            assert(all.take(i + 1).last() == texts@[i as int]@);
            reveal(Seq::filter);
        }
        if !texts[i].as_str().is_empty() {
            let t = texts[i].clone();
            proof {
                assert(views(out@.push(t)) =~= views(out@).push(t@));
            }
            out.push(t);
        }
        i = i + 1;
    }
    proof {
        assert(all.take(texts@.len() as int) =~= all);
    }
    out
}

/// The paths that a request to delete names: those of `input_paths`, or of
/// `paths` where there is no `input_paths`; a path that is no string or is
/// empty is passed over.
pub open spec fn delete_list(params: JsonModel) -> Result<Seq<Seq<char>>, ErrorModel> {
    match params.field("input_paths"@) {
        Some(JsonModel::Array(items)) => Ok(non_empty(texts_of(items))),
        Some(_) => Err(failure(ErrorKind::Param, "input_paths must be an array"@)),
        None => match params.field("paths"@) {
            Some(JsonModel::Array(items)) => Ok(non_empty(texts_of(items))),
            Some(_) => Err(failure(ErrorKind::Param, "paths must be an array"@)),
            None => Err(
                failure(ErrorKind::Param, "parameter `input_paths` or `paths` is required"@),
            ),
        },
    }
}

/// Reads the paths that a request to delete names.
pub fn delete_targets(params: &Json) -> (r: Result<Vec<String>, CommandError>)
    ensures
        match r {
            Ok(paths) => delete_list(params@) == Ok::<Seq<Seq<char>>, ErrorModel>(views(paths@)),
            Err(e) => delete_list(params@) == Err::<Seq<Seq<char>>, ErrorModel>(e@),
        },
{
    let list: &Json = match params.get("input_paths") {
        Some(v) => {
            if v.as_array().is_none() {
                return Err(CommandError::new(ErrorKind::Param, "input_paths must be an array"));
            }
            v
        },
        None => match params.get("paths") {
            Some(v) => {
                if v.as_array().is_none() {
                    return Err(CommandError::new(ErrorKind::Param, "paths must be an array"));
                }
                v
            },
            None => {
                return Err(
                    CommandError::new(
                        ErrorKind::Param,
                        "parameter `input_paths` or `paths` is required",
                    ),
                );
            },
        },
    };
    Ok(keep_non_empty(texts_in(Some(list))))
}

/// The path lies below the directory: it begins with the directory and a
/// separator.
pub open spec fn is_under(path: Seq<char>, dir: Seq<char>, separator: char) -> bool {
    dir.len() > 0 && has_prefix(path, dir.push(separator))
}

/// How a path is deleted.
#[derive(Clone, Debug, PartialEq)]
pub enum Deletion {
    /// Remove the directory and what is in it, for good.
    RemoveDir(String),
    /// Remove the file, for good.
    RemoveFile(String),
    /// The path is one of the application's own, and nothing is there.
    Nothing(String),
    /// Move the path to the trash.
    Trash(String),
}

impl Deletion {
    pub open spec fn path(self) -> Seq<char> {
        match self {
            Deletion::RemoveDir(p) => p@,
            Deletion::RemoveFile(p) => p@,
            Deletion::Nothing(p) => p@,
            Deletion::Trash(p) => p@,
        }
    }

    pub open spec fn uses_trash(self) -> bool {
        self is Trash
    }
}

/// The deletion of one path: a path below the application's data directory is
/// removed for good, any other goes to the trash.
pub open spec fn deletion_fits(d: Deletion, node: PathNode, app_data_dir: Seq<char>, separator: char) -> bool {
    &&& d.path() == node.path@
    &&& if is_under(node.path@, app_data_dir, separator) {
        if node.is_dir {
            d is RemoveDir
        } else if node.is_file {
            d is RemoveFile
        } else {
            d is Nothing
        }
    } else {
        d is Trash
    }
}

/// Plans the deletion of the paths, one deletion for each path, in the order
/// of the paths. The deletions that bypass the trash are to be carried out
/// first, then those that use it.
pub fn delete_path(targets: &Vec<PathNode>, app_data_dir: &str, separator: char) -> (r: Vec<Deletion>)
    ensures
        r@.len() == targets@.len(),
        forall|i: int|
            0 <= i < targets@.len() ==> deletion_fits(
                #[trigger] r@[i],
                targets@[i],
                app_data_dir@,
                separator,
            ),
{
    let mut prefix = String::from_str(app_data_dir);
    prefix.push(separator);
    let mut plan: Vec<Deletion> = Vec::new();
    let mut i: usize = 0;
    while i < targets.len()
        invariant
            i <= targets.len(),
            prefix@ == app_data_dir@.push(separator),
            plan@.len() == i,
            forall|k: int|
                0 <= k < i ==> deletion_fits(
                    #[trigger] plan@[k],
                    targets@[k],
                    app_data_dir@,
                    separator,
                ),
        decreases targets.len() - i,
    {
        let node = &targets[i];
        let under = !app_data_dir.is_empty() && starts_with(node.path.as_str(), prefix.as_str());
        let d = if under {
            if node.is_dir {
                Deletion::RemoveDir(node.path.clone())
            } else if node.is_file {
                Deletion::RemoveFile(node.path.clone())
            } else {
                Deletion::Nothing(node.path.clone())
            }
        } else {
            Deletion::Trash(node.path.clone())
        };
        plan.push(d);
        i = i + 1;
    }
    plan
}

/// The outcome of a deletion: how many paths were deleted.
pub fn delete_done(count: usize) -> (r: CommandResult)
    ensures
        r@ == success_with(JsonModel::Number(crate::json::NumberModel::Unsigned(count as u64))),
{
    CommandResult::with_content(Json::unsigned(count as u64))
}

/// A path below the application's data directory is removed for good, the
/// trash having no part in it; any other path goes to the trash.
pub proof fn law_own_paths_bypass_the_trash(
    d: Deletion,
    node: PathNode,
    app_data_dir: Seq<char>,
    separator: char,
)
    requires
        deletion_fits(d, node, app_data_dir, separator),
    ensures
        is_under(node.path@, app_data_dir, separator) ==> !d.uses_trash(),
        !is_under(node.path@, app_data_dir, separator) ==> d.uses_trash(),
{
}

} // verus!
