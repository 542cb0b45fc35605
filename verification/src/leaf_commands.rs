//! The commands that hand work to the platform or to a media library: what
//! each reads from its request, and how its outcome is put together.

use crate::errors::{failure, CommandError, ErrorKind, ErrorModel};
use crate::file_commands::{
    added, counted, counter_json, nothing_counted, CounterModel, FilesCounter,
};
use crate::functions::{push_entry, texts_in, texts_of};
use crate::json::{
    entry_trees, lemma_trees, lemma_trees_push, set_entry, tree, trees, with_entry, Json, JsonModel,
    NumberModel,
};
use crate::params::{
    conversion_failure, get_optional_bool, get_optional_string, get_required_string,
    get_string_val_from_params, is_conversion_of, optional_flag_param, optional_string_param,
    parse_file_conversion_params, required_string_param, str_views, string_param,
    FileConversionParams,
};
use crate::path_commands::{keep_non_empty, non_empty};
use crate::paths::{
    absolute_with_home, file_name, file_name_of, get_absolute_path_with_home_dir,
    get_relative_path_with_home_dir, join_path, joined, list_holds, lowercase, optional_text,
    or_empty, relative_with_home, split_file_path, to_lowercase, PathNode,
};
use crate::pattern::{compile, is_match, regex_compile_error, regex_matches, regex_source};
use crate::resource::{text_result, Environment};
use crate::result::{plain_success, success_with, CommandResult, ResultModel, Status};
use crate::order::{is_stable_order, stable_order};
use crate::text::{concat3, copy_str, decimal, str_eq, u64_to_string, views};
use crate::tools::ShellCommand;
use vstd::prelude::*;
use vstd::string::StringExecFns;

verus! {

/// The outcome whose content is a text.
pub fn text_done(text: &str) -> (r: CommandResult)
    ensures
        r@ == success_with(JsonModel::String(text@)),
{
    CommandResult::with_content(Json::text(text))
}

/// The outcome whose content is a flag.
pub fn flag_done(flag: bool) -> (r: CommandResult)
    ensures
        r@ == success_with(JsonModel::Bool(flag)),
{
    CommandResult::with_content(Json::Bool(flag))
}

/// The outcome that tells the platform.
pub fn get_platform(env: &Environment) -> (r: Result<CommandResult, CommandError>)
    ensures
        r is Ok,
        r->Ok_0@ == success_with(JsonModel::String(env.platform@)),
{
    Ok(text_done(env.platform.as_str()))
}

/// The outcome that tells whether this is a debug build.
pub fn is_debug(env: &Environment) -> (r: Result<CommandResult, CommandError>)
    ensures
        r is Ok,
        r->Ok_0@ == success_with(JsonModel::Bool(env.debug)),
{
    Ok(flag_done(env.debug))
}

/// The outcome that tells the application's data directory.
pub fn get_app_data_dir(env: &Environment) -> (r: Result<CommandResult, CommandError>)
    ensures
        match crate::resource::app_data_dir_of(*env) {
            Ok(d) => r is Ok && r->Ok_0@ == success_with(JsonModel::String(d)),
            Err(e) => r is Err && r->Err_0@ == e,
        },
{
    match crate::resource::get_app_data_dir(env) {
        Ok(d) => Ok(CommandResult::with_content(Json::String(d))),
        Err(e) => Err(e),
    }
}

/// The outcome that tells the user's home directory.
pub fn get_home_dir(env: &Environment) -> (r: Result<CommandResult, CommandError>)
    ensures
        match env.home_dir {
            Some(h) => r is Ok && r->Ok_0@ == success_with(JsonModel::String(h@)),
            None => r is Err && r->Err_0@ == failure(
                ErrorKind::NotFound,
                "Cannot get user's home directory"@,
            ),
        },
{
    match crate::resource::get_home_dir(env) {
        Ok(d) => Ok(CommandResult::with_content(Json::String(d))),
        Err(e) => Err(e),
    }
}

/// The command that tells the version of the platform; nothing on a platform
/// that is not known.
pub fn platform_version_command(platform: &str) -> (r: Option<ShellCommand>)
    ensures
        match r {
            Some(c) => if platform@ == "macos"@ {
                c.program@ == "sw_vers"@ && views(c.arguments@) == seq!["-productVersion"@]
            } else if platform@ == "linux"@ {
                c.program@ == "lsb_release"@ && views(c.arguments@) == seq!["-a"@]
            } else {
                platform@ == "windows"@ && c.program@ == "ver"@ && c.arguments@.len() == 0
            },
            None => platform@ != "macos"@ && platform@ != "windows"@ && platform@ != "linux"@,
        },
{
    let mut arguments: Vec<String> = Vec::new();
    if str_eq(platform, "macos") {
        arguments.push(String::from_str("-productVersion"));
        proof {
            assert(views(arguments@) =~= seq!["-productVersion"@]);
        }
        Some(ShellCommand { program: String::from_str("sw_vers"), arguments })
    } else if str_eq(platform, "linux") {
        arguments.push(String::from_str("-a"));
        proof {
            assert(views(arguments@) =~= seq!["-a"@]);
        }
        Some(ShellCommand { program: String::from_str("lsb_release"), arguments })
    } else if str_eq(platform, "windows") {
        Some(ShellCommand { program: String::from_str("ver"), arguments })
    } else {
        None
    }
}

/// The version of the platform, from what the command of
/// [`platform_version_command`] printed; `unknown` where the platform is not
/// known or the command could not be run.
pub fn get_platform_version(platform: &str, output: Option<String>) -> (r: String)
    ensures
        r@ == if platform@ == "macos"@ || platform@ == "linux"@ || platform@ == "windows"@ {
            match output {
                Some(o) => o@,
                None => "unknown"@,
            }
        } else {
            "unknown"@
        },
{
    if str_eq(platform, "macos") || str_eq(platform, "linux") || str_eq(platform, "windows") {
        match output {
            Some(o) => o,
            None => String::from_str("unknown"),
        }
    } else {
        String::from_str("unknown")
    }
}

/// The paths with the home directory written out in each.
pub open spec fn written_out(paths: Seq<Seq<char>>, home: Option<Seq<char>>, sep: char) -> Seq<
    Seq<char>,
> {
    Seq::new(paths.len(), |k: int| absolute_with_home(paths[k], home, sep))
}

/// The paths that a request asks to show: those that are strings and not
/// empty, the home directory written out.
pub fn locate_path(parameters: &Json, home_dir: Option<&str>, separator: char) -> (r: Result<
    Vec<String>,
    CommandError,
>)
    ensures
        match parameters@.member("input_paths"@) {
            JsonModel::Array(items) => r is Ok && views(r->Ok_0@) == written_out(
                non_empty(texts_of(items)),
                optional_text(home_dir),
                separator,
            ),
            _ => r is Err && r->Err_0@ == failure(ErrorKind::Param, "Missing input_paths"@),
        },
{
    let list: &Json = match parameters.get("input_paths") {
        Some(v) => v,
        None => {
            return Err(CommandError::new(ErrorKind::Param, "Missing input_paths"));
        },
    };
    if list.as_array().is_none() {
        return Err(CommandError::new(ErrorKind::Param, "Missing input_paths"));
    }
    let kept = keep_non_empty(texts_in(Some(list)));
    let mut out: Vec<String> = Vec::new();
    let mut i: usize = 0;
    while i < kept.len()
        invariant
            i <= kept.len(),
            out@.len() == i,
            forall|k: int|
                0 <= k < i ==> (#[trigger] out@[k])@ == absolute_with_home(
                    kept@[k]@,
                    optional_text(home_dir),
                    separator,
                ),
        decreases kept.len() - i,
    {
        out.push(get_absolute_path_with_home_dir(kept[i].as_str(), home_dir, separator));
        i = i + 1;
    }
    proof {
        assert(views(out@) =~= written_out(views(kept@), optional_text(home_dir), separator));
    }
    Ok(out)
}

/// What a request to list a directory asks for.
#[derive(Clone, Debug, PartialEq)]
pub struct ListRequest {
    pub input_dir: String,
    pub pattern: String,
    pub is_full_path: bool,
    pub ignore_file: bool,
    pub ignore_dir: bool,
}

pub open spec fn input_dir_keys() -> Seq<Seq<char>> {
    seq!["input_dir"@, "dir"@]
}

/// How the entries of a directory are listed.
pub struct ListRule {
    pub pattern: Seq<char>,
    pub is_full_path: bool,
    pub ignore_file: bool,
    pub ignore_dir: bool,
}

impl ListRequest {
    /// How this request wants the entries listed.
    pub open spec fn rule(self) -> ListRule {
        ListRule {
            pattern: self.pattern@,
            is_full_path: self.is_full_path,
            ignore_file: self.ignore_file,
            ignore_dir: self.ignore_dir,
        }
    }
}

/// What a request to list a directory asks for: the directory, and how to
/// list; the pattern is `.*` where none is named, and a flag that is left out
/// is not set.
pub open spec fn list_request_of(params: JsonModel) -> Result<(Seq<char>, ListRule), ErrorModel> {
    match string_param(params, input_dir_keys()) {
        Err(e) => Err(e),
        Ok(dir) => match optional_string_param(
            params,
            "pattern"@,
            "regex `pattern` must be a string"@,
        ) {
            Err(e) => Err(e),
            Ok(named) => match optional_flag_param(
                params,
                "is_full_path"@,
                "is_full_path must be a boolean"@,
            ) {
                Err(e) => Err(e),
                Ok(is_full_path) => match optional_flag_param(
                    params,
                    "ignore_file"@,
                    "ignore_file must be a boolean"@,
                ) {
                    Err(e) => Err(e),
                    Ok(ignore_file) => match optional_flag_param(
                        params,
                        "ignore_dir"@,
                        "ignore_dir must be a boolean"@,
                    ) {
                        Err(e) => Err(e),
                        Ok(ignore_dir) => Ok(
                            (
                                dir,
                                ListRule {
                                    pattern: match named {
                                        Some(p) => p,
                                        None => ".*"@,
                                    },
                                    is_full_path,
                                    ignore_file,
                                    ignore_dir,
                                },
                            ),
                        ),
                    },
                },
            },
        }
    }
}

/// Reads a request to list a directory.
pub fn dir_list_request(params: &Json) -> (r: Result<ListRequest, CommandError>)
    ensures
        match r {
            Ok(request) => list_request_of(params@) == Ok::<(Seq<char>, ListRule), ErrorModel>(
                (request.input_dir@, request.rule()),
            ),
            Err(e) => list_request_of(params@) == Err::<(Seq<char>, ListRule), ErrorModel>(e@),
        },
{
    let mut keys: Vec<&str> = Vec::new();
    keys.push("input_dir");
    keys.push("dir");
    proof {
        assert(str_views(keys@) =~= input_dir_keys());
    }
    let input_dir = match get_string_val_from_params(keys, params) {
        Ok(s) => s,
        Err(e) => {
            return Err(e);
        },
    };
    let pattern = match get_optional_string(params, "pattern", "regex `pattern` must be a string") {
        Ok(Some(p)) => p,
        Ok(None) => String::from_str(".*"),
        Err(e) => {
            return Err(e);
        },
    };
    let is_full_path = match get_optional_bool(params, "is_full_path", "is_full_path must be a boolean") {
        Ok(b) => b,
        Err(e) => {
            return Err(e);
        },
    };
    let ignore_file = match get_optional_bool(params, "ignore_file", "ignore_file must be a boolean") {
        Ok(b) => b,
        Err(e) => {
            return Err(e);
        },
    };
    let ignore_dir = match get_optional_bool(params, "ignore_dir", "ignore_dir must be a boolean") {
        Ok(b) => b,
        Err(e) => {
            return Err(e);
        },
    };
    Ok(ListRequest { input_dir, pattern, is_full_path, ignore_file, ignore_dir })
}

/// The entry is listed: it is not of a kind that is passed over, and its name
/// matches the pattern.
pub open spec fn is_listed(entry: PathNode, rule: ListRule) -> bool {
    &&& !(rule.ignore_file && entry.is_file)
    &&& !(rule.ignore_dir && entry.is_dir)
    &&& regex_matches(rule.pattern, or_empty(file_name_of(entry.path@)))
}

/// What is listed of an entry: its path, or its name.
pub open spec fn listing_of(entry: PathNode, rule: ListRule) -> Seq<char> {
    if rule.is_full_path {
        entry.path@
    } else {
        or_empty(file_name_of(entry.path@))
    }
}

/// The entries of a directory that are listed, in their order.
pub open spec fn listed(entries: Seq<PathNode>, rule: ListRule) -> Seq<Seq<char>>
    decreases entries.len(),
{
    if entries.len() == 0 {
        Seq::empty()
    } else if is_listed(entries.last(), rule) {
        listed(entries.drop_last(), rule).push(listing_of(entries.last(), rule))
    } else {
        listed(entries.drop_last(), rule)
    }
}

/// Lists a directory, given what was found at it: the names, or the paths, of
/// the entries whose name the pattern matches. What is no directory has no
/// entries.
pub fn dir_list(node: &PathNode, request: &ListRequest) -> (r: Result<Vec<String>, CommandError>)
    ensures
        match r {
            Ok(names) => if node.is_dir {
                regex_compile_error(request.pattern@) is None && views(names@) == listed(
                    node.children@,
                    request.rule(),
                )
            } else {
                names@.len() == 0
            },
            Err(e) => node.is_dir && regex_compile_error(request.pattern@) is Some && e@ == failure(
                ErrorKind::Param,
                regex_compile_error(request.pattern@)->Some_0,
            ),
        },
{
    let mut out: Vec<String> = Vec::new();
    if !node.is_dir {
        return Ok(out);
    }
    let re = match compile(request.pattern.as_str()) {
        Ok(re) => re,
        Err(m) => {
            return Err(CommandError { kind: ErrorKind::Param, message: m });
        },
    };
    let mut i: usize = 0;
    proof {
        assert(node.children@.take(0) =~= Seq::<PathNode>::empty());
        assert(views(out@) =~= Seq::<Seq<char>>::empty());
    }
    while i < node.children.len()
        invariant
            i <= node.children.len(),
            regex_source(re) == request.pattern@,
            views(out@) == listed(node.children@.take(i as int), request.rule()),
        decreases node.children.len() - i,
    {
        let entry = &node.children[i];
        proof {
            assert(node.children@.take(i + 1).drop_last() =~= node.children@.take(i as int));
            assert(node.children@.take(i + 1).last() == node.children@[i as int]);
        }
        let name = match file_name(entry.path.as_str()) {
            Some(n) => n,
            None => String::new(),
        };
        let passed_over = (request.ignore_file && entry.is_file) || (request.ignore_dir
            && entry.is_dir);
        if !passed_over && is_match(&re, name.as_str()) {
            let shown = if request.is_full_path {
                entry.path.clone()
            } else {
                name
            };
            proof {
                assert(views(out@.push(shown)) =~= views(out@).push(shown@));
            }
            out.push(shown);
        }
        i = i + 1;
    }
    proof {
        assert(node.children@.take(node.children@.len() as int) =~= node.children@);
    }
    Ok(out)
}

/// The sum of the counts of what lies at and below each of the nodes.
pub open spec fn total_of(nodes: Seq<PathNode>) -> CounterModel
    decreases nodes.len(),
{
    if nodes.len() == 0 {
        nothing_counted()
    } else {
        added(total_of(nodes.drop_last()), counted(nothing_counted(), nodes.last()))
    }
}

/// The counts of each node under its path, written with `~` for the home
/// directory; of two nodes with the same path the later one counts.
pub open spec fn counts_by_path(nodes: Seq<PathNode>, home: Option<Seq<char>>) -> Seq<
    (Seq<char>, JsonModel),
>
    decreases nodes.len(),
{
    if nodes.len() == 0 {
        Seq::empty()
    } else {
        with_entry(
            counts_by_path(nodes.drop_last(), home),
            relative_with_home(nodes.last().path@, home),
            counter_json(counted(nothing_counted(), nodes.last())),
        )
    }
}

/// The counts below each path, each under the path written with `~` for the
/// home directory, and the sum of all under `total`.
pub fn count_in_paths(nodes: &Vec<PathNode>, home_dir: Option<&str>) -> (r: Json)
    ensures
        r@ == JsonModel::Object(
            with_entry(
                counts_by_path(nodes@, optional_text(home_dir)),
                "total"@,
                counter_json(total_of(nodes@)),
            ),
        ),
{
    let mut total = FilesCounter::new();
    let mut entries: Vec<(String, Json)> = Vec::new();
    let mut i: usize = 0;
    proof {
        crate::json::lemma_entry_trees(entries@);
        assert(nodes@.take(0) =~= Seq::<PathNode>::empty());
    }
    while i < nodes.len()
        invariant
            i <= nodes.len(),
            total@ == total_of(nodes@.take(i as int)),
            entry_trees(entries@) == counts_by_path(
                nodes@.take(i as int),
                optional_text(home_dir),
            ),
        decreases nodes.len() - i,
    {
        proof {
            assert(nodes@.take(i + 1).drop_last() =~= nodes@.take(i as int));
            assert(nodes@.take(i + 1).last() == nodes@[i as int]);
        }
        let mut counter = FilesCounter::new();
        counter.count(&nodes[i]);
        let rel = get_relative_path_with_home_dir(nodes[i].path.as_str(), home_dir);
        set_entry(&mut entries, rel.as_str(), counter.to_json());
        total.add(&counter);
        i = i + 1;
    }
    proof {
        assert(nodes@.take(nodes@.len() as int) =~= nodes@);
    }
    set_entry(&mut entries, "total", total.to_json());
    Json::Object(entries)
}

/// The paths that a request to count names: those of `input_paths` that are
/// strings and not empty.
pub fn count_files(params: &Json) -> (r: Result<Vec<String>, CommandError>)
    ensures
        match params@.field("input_paths"@) {
            None => r is Err && r->Err_0@ == failure(
                ErrorKind::Param,
                "`input_paths` is required"@,
            ),
            Some(JsonModel::Array(items)) => r is Ok && views(r->Ok_0@) == non_empty(
                texts_of(items),
            ),
            Some(_) => r is Err && r->Err_0@ == failure(
                ErrorKind::Param,
                "`input_paths` must be an array"@,
            ),
        },
{
    let list: &Json = match params.get("input_paths") {
        Some(v) => v,
        None => {
            return Err(CommandError::new(ErrorKind::Param, "`input_paths` is required"));
        },
    };
    if list.as_array().is_none() {
        return Err(CommandError::new(ErrorKind::Param, "`input_paths` must be an array"));
    }
    Ok(keep_non_empty(texts_in(Some(list))))
}

/// The value that the members of `source` are merged into `target`: where both
/// are objects, each member of `source` is merged into the member of `target`
/// of the same name, a member that `target` lacks being taken over; in every
/// other case the value is `source`.
pub open spec fn merged(target: JsonModel, source: JsonModel) -> JsonModel
    decreases source,
{
    match (target, source) {
        (JsonModel::Object(t), JsonModel::Object(s)) => JsonModel::Object(merged_members(t, s)),
        _ => source,
    }
}

pub open spec fn merged_members(
    target: Seq<(Seq<char>, JsonModel)>,
    source: Seq<(Seq<char>, JsonModel)>,
) -> Seq<(Seq<char>, JsonModel)>
    decreases source,
{
    if source.len() == 0 {
        target
    } else {
        let front = merged_members(target, source.drop_last());
        let key = source.last().0;
        let held = match crate::json::lookup(front, key) {
            Some(v) => v,
            None => JsonModel::Null,
        };
        with_entry(front, key, merged(held, source.last().1))
    }
}

/// Merges `source` into `target`, member by member and level by level.
pub fn merge_json_value(target: &mut Json, source: &Json)
    ensures
        final(target)@ == merged(old(target)@, source@),
    decreases source,
{
    let members: &Vec<(String, Json)> = match source {
        Json::Object(m) => m,
        _ => {
            *target = source.duplicate();
            return ;
        },
    };
    let mut entries: Vec<(String, Json)> = match target {
        Json::Object(_) => match target.duplicate() {
            Json::Object(e) => e,
            _ => Vec::new(),
        },
        _ => {
            *target = source.duplicate();
            return ;
        },
    };
    let ghost base = entry_trees(entries@);
    let ghost all = entry_trees(members@);
    let mut i: usize = 0;
    proof {
        crate::json::lemma_entry_trees(members@);
        assert(all.take(0) =~= Seq::<(Seq<char>, JsonModel)>::empty());
    }
    while i < members.len()
        invariant
            i <= members.len(),
            source is Object,
            source->Object_0 == *members,
            all == entry_trees(members@),
            all.len() == members@.len(),
            forall|k: int|
                0 <= k < members@.len() ==> (#[trigger] all[k]) == (
                    members@[k].0@,
                    tree(members@[k].1),
                ),
            entry_trees(entries@) == merged_members(base, all.take(i as int)),
        decreases members.len() - i,
    {
        proof {
            assert(decreases_to!(*source => source->Object_0));
            assert(decreases_to!(*members => members@));
            assert(decreases_to!(members@ => members@[i as int]));
            assert(decreases_to!(members@[i as int] => members@[i as int].1));
            assert(all.take(i + 1).drop_last() =~= all.take(i as int));
            assert(all.take(i + 1).last() == all[i as int]);
        }
        let key = members[i].0.as_str();
        let mut held: Json = match crate::json::find_key(&entries, key) {
            Some(k) => entries[k].1.duplicate(),
            None => Json::Null,
        };
        merge_json_value(&mut held, &members[i].1);
        set_entry(&mut entries, key, held);
        i = i + 1;
    }
    proof {
        assert(all.take(members@.len() as int) =~= all);
    }
    *target = Json::Object(entries);
}

/// The tool that reads the metadata of files.
pub const EXIFTOOL_TOOL_NAME: &'static str = "tool.exe.exiftool";

/// The tool that removes the background of images.
pub const RMBG_TOOL_NAME: &'static str = "tool.model.briaai_rmbg";

/// The arguments with which the metadata tool reads a file: as JSON, grouped.
pub fn metadata_arguments(file_path: &str) -> (r: Vec<String>)
    ensures
        views(r@) == seq!["-j"@, "-g"@, file_path@],
{
    let mut arguments: Vec<String> = Vec::new();
    arguments.push(String::from_str("-j"));
    arguments.push(String::from_str("-g"));
    arguments.push(String::from_str(file_path));
    proof {
        assert(views(arguments@) =~= seq!["-j"@, "-g"@, file_path@]);
    }
    arguments
}

/// The metadata of a file, from what the metadata tool printed: the first
/// item of what it printed, an empty object where it printed nothing.
pub fn get_file_metadata(parsed: Option<&Json>) -> (r: Json)
    ensures
        r@ == match parsed {
            None => JsonModel::Object(Seq::empty()),
            Some(j) => match j@ {
                JsonModel::Array(items) => if items.len() > 0 {
                    items[0]
                } else {
                    JsonModel::Null
                },
                _ => JsonModel::Null,
            },
        },
{
    match parsed {
        None => Json::empty_object(),
        Some(j) => match j.as_array() {
            Some(items) => {
                proof {
                    lemma_trees(items@);
                }
                if items.len() > 0 {
                    items[0].duplicate()
                } else {
                    Json::Null
                }
            },
            None => Json::Null,
        },
    }
}

/// The extended attributes as the members of an object; of two attributes
/// with the same name the later one counts.
pub open spec fn attribute_members(attributes: Seq<(String, String)>) -> Seq<
    (Seq<char>, JsonModel),
>
    decreases attributes.len(),
{
    if attributes.len() == 0 {
        Seq::empty()
    } else {
        with_entry(
            attribute_members(attributes.drop_last()),
            attributes.last().0@,
            JsonModel::String(attributes.last().1@),
        )
    }
}

/// What the extended attributes of a file contribute to its metadata: an
/// object with the one member `Extended file attributes`, or an empty object
/// where the file has none.
pub open spec fn attribute_metadata(attributes: Seq<(String, String)>) -> JsonModel {
    if attributes.len() == 0 {
        JsonModel::Object(Seq::empty())
    } else {
        JsonModel::Object(
            seq![
                ("Extended file attributes"@, JsonModel::Object(attribute_members(attributes))),
            ],
        )
    }
}

/// All metadata of a file: the extended attributes, where it has any, with
/// what the metadata tool found merged into them.
pub fn get_metadata(attributes: &Vec<(String, String)>, tool_metadata: &Json) -> (r: Json)
    ensures
        r@ == merged(attribute_metadata(attributes@), tool_metadata@),
{
    let mut base = Json::empty_object();
    if attributes.len() > 0 {
        let mut members: Vec<(String, Json)> = Vec::new();
        let mut i: usize = 0;
        proof {
            crate::json::lemma_entry_trees(members@);
            assert(attributes@.take(0) =~= Seq::<(String, String)>::empty());
        }
        while i < attributes.len()
            invariant
                i <= attributes.len(),
                entry_trees(members@) == attribute_members(attributes@.take(i as int)),
            decreases attributes.len() - i,
        {
            proof {
                assert(attributes@.take(i + 1).drop_last() =~= attributes@.take(i as int));
                assert(attributes@.take(i + 1).last() == attributes@[i as int]);
            }
            set_entry(&mut members, attributes[i].0.as_str(), Json::text(attributes[i].1.as_str()));
            i = i + 1;
        }
        proof {
            assert(attributes@.take(attributes@.len() as int) =~= attributes@);
        }
        let mut outer: Vec<(String, Json)> = Vec::new();
        proof {
            crate::json::lemma_entry_trees(outer@);
        }
        push_entry(&mut outer, "Extended file attributes", Json::Object(members));
        base = Json::Object(outer);
        proof {
            assert(base@->Object_0 =~= attribute_metadata(attributes@)->Object_0);
        }
    }
    merge_json_value(&mut base, tool_metadata);
    base
}

/// What was found at a path, as far as the basic attributes tell of it: the
/// kind of thing, where a link leads, the size, and the times, each already
/// written as a local time.
#[derive(Clone, Debug, PartialEq)]
pub struct PathFacts {
    pub exists: bool,
    pub name: String,
    pub is_symlink: bool,
    pub is_file: bool,
    pub is_dir: bool,
    pub link_target: Option<String>,
    pub size: Option<u64>,
    pub modified: Option<String>,
    pub created: Option<String>,
    pub accessed: Option<String>,
}

/// The kind of thing at a path, as a text.
pub open spec fn path_type_text(is_symlink: bool, is_file: bool, is_dir: bool) -> Seq<char> {
    if is_symlink {
        "SYMLINK"@
    } else if is_file {
        "FILE"@
    } else if is_dir {
        "DIR"@
    } else {
        "UNKNOWN"@
    }
}

/// The members with a text added under `key`, where there is one.
pub open spec fn with_text(
    members: Seq<(Seq<char>, JsonModel)>,
    key: Seq<char>,
    text: Option<Seq<char>>,
) -> Seq<(Seq<char>, JsonModel)> {
    match text {
        Some(t) => members.push((key, JsonModel::String(t))),
        None => members,
    }
}

/// The view of an optional text that is held.
pub open spec fn held_text(text: Option<String>) -> Option<Seq<char>> {
    match text {
        Some(t) => Some(t@),
        None => None,
    }
}

/// The basic attributes of a path: its name and kind always, and what else
/// is known of it.
pub open spec fn basic_attributes(facts: PathFacts) -> Seq<(Seq<char>, JsonModel)> {
    let times = with_text(
        with_text(
            with_text(Seq::empty(), "FileAccessDate"@, held_text(facts.accessed)),
            "FileCreateDate"@,
            held_text(facts.created),
        ),
        "FileModifyDate"@,
        held_text(facts.modified),
    );
    let sized = with_text(
        times,
        "FileSize"@,
        match facts.size {
            Some(n) => Some(decimal(n as nat)),
            None => None,
        },
    );
    with_text(sized, "LinkTarget"@, held_text(facts.link_target)).push(
        ("PathName"@, JsonModel::String(facts.name@)),
    ).push(
        (
            "PathType"@,
            JsonModel::String(path_type_text(facts.is_symlink, facts.is_file, facts.is_dir)),
        ),
    )
}

fn push_text(members: &mut Vec<(String, Json)>, key: &str, text: &Option<String>)
    ensures
        entry_trees(final(members)@) == with_text(
            entry_trees(old(members)@),
            key@,
            held_text(*text),
        ),
{
    match text {
        Some(t) => {
            push_entry(members, key, Json::text(t.as_str()));
        },
        None => {},
    }
}

/// The basic attributes of what lies at a path, all as texts. Nothing can be
/// told of a path at which nothing lies.
pub fn get_basic(facts: &PathFacts) -> (r: Result<Json, CommandError>)
    ensures
        match r {
            Ok(attributes) => facts.exists && attributes@ == JsonModel::Object(
                basic_attributes(*facts),
            ),
            Err(e) => !facts.exists && e@ == failure(ErrorKind::NotFound, "File not found"@),
        },
{
    if !facts.exists {
        return Err(CommandError::new(ErrorKind::NotFound, "File not found"));
    }
    let mut members: Vec<(String, Json)> = Vec::new();
    proof {
        crate::json::lemma_entry_trees(members@);
    }
    push_text(&mut members, "FileAccessDate", &facts.accessed);
    push_text(&mut members, "FileCreateDate", &facts.created);
    push_text(&mut members, "FileModifyDate", &facts.modified);
    let size: Option<String> = match facts.size {
        Some(n) => Some(u64_to_string(n)),
        None => None,
    };
    push_text(&mut members, "FileSize", &size);
    push_text(&mut members, "LinkTarget", &facts.link_target);
    push_entry(&mut members, "PathName", Json::text(facts.name.as_str()));
    push_entry(
        &mut members,
        "PathType",
        Json::text(path_type(facts.is_symlink, facts.is_file, facts.is_dir)),
    );
    Ok(Json::Object(members))
}

/// The file of which a request wants the basic attributes.
pub fn get_basic_info(params: &Json) -> (r: Result<String, CommandError>)
    ensures
        text_result(r) == string_param(params@, crate::params::input_file_keys()),
{
    let mut keys: Vec<&str> = Vec::new();
    keys.push("input_file");
    keys.push("input_path");
    proof {
        assert(str_views(keys@) =~= crate::params::input_file_keys());
    }
    get_string_val_from_params(keys, params)
}

/// The file of which a request wants all metadata.
pub fn get_metadata_info(params: &Json) -> (r: Result<String, CommandError>)
    ensures
        text_result(r) == string_param(params@, crate::params::input_file_keys()),
{
    get_basic_info(params)
}

/// What a request to draw an SVG file asks for.
#[derive(Clone, Debug, PartialEq)]
pub struct SvgFileRequest {
    pub input_file: String,
    pub output_file: String,
    pub width: u32,
    pub height: u32,
}

/// What a request to draw an SVG file into a PNG file asks for: the two
/// files, and the size.
pub fn file_svg_to_png(params: &Json) -> (r: Result<SvgFileRequest, CommandError>)
    ensures
        match string_param(params@, seq!["input_file"@]) {
            Err(e) => r is Err && r->Err_0@ == e,
            Ok(input) => match string_param(params@, seq!["output_file"@]) {
                Err(e) => r is Err && r->Err_0@ == e,
                Ok(output) => {
                    &&& r is Ok
                    &&& r->Ok_0.input_file@ == input
                    &&& r->Ok_0.output_file@ == output
                    &&& r->Ok_0.width == pixel_size(params@, "width"@)
                    &&& r->Ok_0.height == pixel_size(params@, "height"@)
                },
            },
        },
{
    let mut input_keys: Vec<&str> = Vec::new();
    input_keys.push("input_file");
    proof {
        assert(str_views(input_keys@) =~= seq!["input_file"@]);
    }
    let input_file = match get_string_val_from_params(input_keys, params) {
        Ok(s) => s,
        Err(e) => {
            return Err(e);
        },
    };
    let mut output_keys: Vec<&str> = Vec::new();
    output_keys.push("output_file");
    proof {
        assert(str_views(output_keys@) =~= seq!["output_file"@]);
    }
    let output_file = match get_string_val_from_params(output_keys, params) {
        Ok(s) => s,
        Err(e) => {
            return Err(e);
        },
    };
    Ok(
        SvgFileRequest {
            input_file,
            output_file,
            width: read_pixel_size(params, "width"),
            height: read_pixel_size(params, "height"),
        },
    )
}

/// The outcome of a drawing into a file: the path of the file.
pub fn svg_file_drawn(output_file: &str) -> (r: CommandResult)
    ensures
        r@ == (ResultModel { output_paths: seq![output_file@], ..plain_success() }),
{
    let mut done = CommandResult::default();
    done.add_output_path(output_file);
    proof {
        assert(done@.output_paths =~= seq![output_file@]);
    }
    done
}

/// What kind of thing lies at a path.
pub fn path_type(is_symlink: bool, is_file: bool, is_dir: bool) -> (r: &'static str)
    ensures
        r@ == path_type_text(is_symlink, is_file, is_dir),
{
    if is_symlink {
        "SYMLINK"
    } else if is_file {
        "FILE"
    } else if is_dir {
        "DIR"
    } else {
        "UNKNOWN"
    }
}

/// Why an item is no tag that can be asked for: it is no string, or names
/// another tag than `DateTimeOriginal`.
pub open spec fn tag_failure(item: JsonModel) -> Option<ErrorModel> {
    match item {
        JsonModel::String(name) => if name == "DateTimeOriginal"@ {
            None
        } else {
            Some(failure(ErrorKind::Unsupported, "Tag "@ + name + " not supported"@))
        },
        _ => Some(failure(ErrorKind::Param, "Invalid tag name"@)),
    }
}

/// The failure of the first item that is no tag that can be asked for.
pub open spec fn tags_failure(items: Seq<JsonModel>) -> Option<ErrorModel>
    decreases items.len(),
{
    if items.len() == 0 {
        None
    } else {
        match tag_failure(items[0]) {
            Some(e) => Some(e),
            None => tags_failure(items.skip(1)),
        }
    }
}

/// What a request for tags of an image asks for: the file, and the tags.
pub open spec fn tags_request(params: JsonModel) -> Result<(Seq<char>, Seq<Seq<char>>), ErrorModel> {
    match string_param(params, seq!["input_file"@, "file"@]) {
        Err(e) => Err(e),
        Ok(file) => match params.member("tags"@) {
            JsonModel::Array(items) => match tags_failure(items) {
                Some(e) => Err(e),
                None => Ok((file, texts_of(items))),
            },
            _ => Err(failure(ErrorKind::Param, "Missing tags parameter"@)),
        },
    }
}

/// The file and the tags that a request for tags of an image asks for. Only
/// `DateTimeOriginal` can be asked for.
#[verifier::loop_isolation(false)]
pub fn get_tags(params: &Json) -> (r: Result<(String, Vec<String>), CommandError>)
    ensures
        match r {
            Ok(found) => tags_request(params@) == Ok::<(Seq<char>, Seq<Seq<char>>), ErrorModel>(
                (found.0@, views(found.1@)),
            ),
            Err(e) => tags_request(params@) == Err::<(Seq<char>, Seq<Seq<char>>), ErrorModel>(e@),
        },
{
    let mut keys: Vec<&str> = Vec::new();
    keys.push("input_file");
    keys.push("file");
    proof {
        assert(str_views(keys@) =~= seq!["input_file"@, "file"@]);
    }
    let input_file = match get_string_val_from_params(keys, params) {
        Ok(s) => s,
        Err(e) => {
            return Err(e);
        },
    };
    let items: &Vec<Json> = match params.get("tags") {
        Some(v) => match v.as_array() {
            Some(items) => items,
            None => {
                return Err(CommandError::new(ErrorKind::Param, "Missing tags parameter"));
            },
        },
        None => {
            return Err(CommandError::new(ErrorKind::Param, "Missing tags parameter"));
        },
    };
    let ghost all = trees(items@);
    proof {
        lemma_trees(items@);
        assert(all.skip(0) =~= all);
    }
    let mut tags: Vec<String> = Vec::new();
    let mut i: usize = 0;
    while i < items.len()
        invariant
            i <= items.len(),
            tags@.len() == i,
            tags_failure(all.skip(i as int)) == tags_failure(all),
            forall|k: int| 0 <= k < i ==> (#[trigger] tags@[k])@ == all[k].text_or_empty(),
        decreases items.len() - i,
    {
        proof {
            assert(all.skip(i as int).skip(1) =~= all.skip(i + 1));
            assert(all.skip(i as int)[0] == all[i as int]);
        }
        let name = match items[i].as_str() {
            Some(n) => n,
            None => {
                return Err(CommandError::new(ErrorKind::Param, "Invalid tag name"));
            },
        };
        if !str_eq(name, "DateTimeOriginal") {
            return Err(
                CommandError {
                    kind: ErrorKind::Unsupported,
                    message: concat3("Tag ", name, " not supported"),
                },
            );
        }
        tags.push(copy_str(name));
        i = i + 1;
    }
    proof {
        assert(views(tags@) =~= texts_of(all));
    }
    Ok((input_file, tags))
}

/// The size in pixels that a request names; 0 where it names none, which
/// stands for the size of the drawing itself.
pub open spec fn pixel_size(params: JsonModel, key: Seq<char>) -> u32 {
    match params.member(key).as_unsigned() {
        Some(n) => (n % 0x1_0000_0000) as u32,
        None => 0,
    }
}

pub fn read_pixel_size(params: &Json, key: &str) -> (r: u32)
    ensures
        r == pixel_size(params@, key@),
{
    match params.get(key) {
        Some(v) => match v.as_u64() {
            Some(n) => (n % 0x1_0000_0000) as u32,
            None => 0,
        },
        None => 0,
    }
}

/// What a request to draw an SVG text asks for: the text, and the size.
pub fn raw_svg_to_png(params: &Json) -> (r: Result<(String, u32, u32), CommandError>)
    ensures
        match params@.member("svg"@) {
            JsonModel::String(svg) => r is Ok && r->Ok_0.0@ == svg && r->Ok_0.1 == pixel_size(
                params@,
                "width"@,
            ) && r->Ok_0.2 == pixel_size(params@, "height"@),
            _ => r is Err && r->Err_0@ == failure(ErrorKind::Param, "Missing 'svg' parameter"@),
        },
{
    let svg = match params.get_str("svg") {
        Some(s) => copy_str(s),
        None => {
            return Err(CommandError::new(ErrorKind::Param, "Missing 'svg' parameter"));
        },
    };
    Ok((svg, read_pixel_size(params, "width"), read_pixel_size(params, "height")))
}

/// The outcome of a drawing: the size and the bytes of the picture.
pub fn svg_drawn(width: u32, height: u32, data: &Vec<u8>) -> (r: CommandResult)
    ensures
        r@.status == Status::Success,
        r@.content is Object,
        r@.content->Object_0 == seq![
            ("data"@, crate::file_commands::bytes_json(data@)),
            ("height"@, JsonModel::Number(NumberModel::Unsigned(height as u64))),
            ("width"@, JsonModel::Number(NumberModel::Unsigned(width as u64))),
        ],
{
    let mut entries: Vec<(String, Json)> = Vec::new();
    push_entry(
        &mut entries,
        "data",
        crate::file_commands::encode_content(crate::file_commands::Encoding::Bytes, data),
    );
    push_entry(&mut entries, "height", Json::unsigned(height as u64));
    push_entry(&mut entries, "width", Json::unsigned(width as u64));
    let content = Json::Object(entries);
    proof {
        assert(content@->Object_0 =~= seq![
            ("data"@, crate::file_commands::bytes_json(data@)),
            ("height"@, JsonModel::Number(NumberModel::Unsigned(height as u64))),
            ("width"@, JsonModel::Number(NumberModel::Unsigned(width as u64))),
        ]);
    }
    CommandResult::with_content(content)
}

/// What a conversion of an image into an SVG is to do: nothing where source
/// and target have the same format.
pub fn file_image_to_svg(params: &Json) -> (r: Result<
    (FileConversionParams, Option<CommandResult>, bool),
    CommandError,
>)
    ensures
        match r {
            Ok(found) => {
                &&& conversion_failure(params@) is None
                &&& is_conversion_of(params@, found.0)
                &&& match found.1 {
                    Some(done) => found.0.src_ext@ == found.0.target_ext@ && done@ == (ResultModel {
                        status: Status::Ignored,
                        message: "Source and target format are the same"@,
                        ..plain_success()
                    }),
                    None => found.0.src_ext@ != found.0.target_ext@,
                }
                &&& found.2 == (params@.member("color_colorful"@) == JsonModel::Bool(true))
            },
            Err(e) => conversion_failure(params@) == Some(e@),
        },
{
    let fcp = match parse_file_conversion_params(params) {
        Ok(p) => p,
        Err(e) => {
            return Err(e);
        },
    };
    let colorful = match params.get("color_colorful") {
        Some(v) => match v.as_bool() {
            Some(b) => b,
            None => false,
        },
        None => false,
    };
    if str_eq(fcp.src_ext.as_str(), fcp.target_ext.as_str()) {
        let mut ignored = CommandResult::default();
        ignored.status = Status::Ignored;
        ignored.message = String::from_str("Source and target format are the same");
        Ok((fcp, Some(ignored), colorful))
    } else {
        Ok((fcp, None, colorful))
    }
}

/// The outcome of a conversion that wrote the file `output_file`.
pub fn converted(output_file: &str) -> (r: CommandResult)
    ensures
        r@ == (ResultModel {
            output_paths: seq![output_file@],
            ..success_with(JsonModel::String(output_file@))
        }),
{
    let mut done = CommandResult::with_content(Json::text(output_file));
    done.add_output_path(output_file);
    proof {
        assert(done@.output_paths =~= seq![output_file@]);
    }
    done
}

/// The directory and the files of a language: `app.json`, `file-info.json`
/// and `raw.json`, each with the key under which its content is handed over.
pub fn load_translation(params: &Json, i18n_dir: &str) -> (r: Result<
    Vec<(String, String)>,
    CommandError,
>)
    ensures
        match required_string_param(
            params@,
            "lang_code"@,
            "`lang_code` is required"@,
            "`lang_code` must be a string"@,
        ) {
            Err(e) => r is Err && r->Err_0@ == e,
            Ok(code) => r is Ok && r->Ok_0@.len() == 3 && r->Ok_0@[0].0@ == "app"@
                && r->Ok_0@[0].1@ == joined(joined(i18n_dir@, code), "app.json"@) && r->Ok_0@[1].0@
                == "file-info"@ && r->Ok_0@[1].1@ == joined(
                joined(i18n_dir@, code),
                "file-info.json"@,
            ) && r->Ok_0@[2].0@ == "raw"@ && r->Ok_0@[2].1@ == joined(
                joined(i18n_dir@, code),
                "raw.json"@,
            ),
        },
{
    let code = match get_required_string(
        params,
        "lang_code",
        "`lang_code` is required",
        "`lang_code` must be a string",
    ) {
        Ok(c) => c,
        Err(e) => {
            return Err(e);
        },
    };
    let dir = join_path(i18n_dir, code.as_str());
    let mut files: Vec<(String, String)> = Vec::new();
    files.push((String::from_str("app"), join_path(dir.as_str(), "app.json")));
    files.push((String::from_str("file-info"), join_path(dir.as_str(), "file-info.json")));
    files.push((String::from_str("raw"), join_path(dir.as_str(), "raw.json")));
    Ok(files)
}

/// The members of the translations of a language: what each file holds
/// under its key, an empty object for a file that could not be read, nothing
/// for a file that is not there.
pub open spec fn translations(loaded: Seq<(String, Option<Option<Json>>)>) -> Seq<
    (Seq<char>, JsonModel),
>
    decreases loaded.len(),
{
    if loaded.len() == 0 {
        Seq::empty()
    } else {
        let front = translations(loaded.drop_last());
        match loaded.last().1 {
            None => front,
            Some(Some(held)) => with_entry(front, loaded.last().0@, held@),
            Some(None) => with_entry(front, loaded.last().0@, JsonModel::Object(Seq::empty())),
        }
    }
}

/// The translations of a language, from what its files hold: each file that
/// exists under its key, a file that could not be read as an empty object.
pub fn translation_loaded(loaded: &Vec<(String, Option<Option<Json>>)>) -> (r: CommandResult)
    ensures
        r@ == success_with(JsonModel::Object(translations(loaded@))),
{
    let mut entries: Vec<(String, Json)> = Vec::new();
    let mut i: usize = 0;
    proof {
        crate::json::lemma_entry_trees(entries@);
        assert(loaded@.take(0) =~= Seq::<(String, Option<Option<Json>>)>::empty());
    }
    while i < loaded.len()
        invariant
            i <= loaded.len(),
            entry_trees(entries@) == translations(loaded@.take(i as int)),
        decreases loaded.len() - i,
    {
        proof {
            assert(loaded@.take(i + 1).drop_last() =~= loaded@.take(i as int));
            assert(loaded@.take(i + 1).last() == loaded@[i as int]);
        }
        match &loaded[i].1 {
            None => {},
            Some(data) => {
                let value = match data {
                    Some(j) => j.duplicate(),
                    None => Json::empty_object(),
                };
                set_entry(&mut entries, loaded[i].0.as_str(), value);
            },
        }
        i = i + 1;
    }
    proof {
        assert(loaded@.take(loaded@.len() as int) =~= loaded@);
    }
    CommandResult::with_content(Json::Object(entries))
}

/// The file that lists the languages.
pub fn load_languages(i18n_dir: &str) -> (r: String)
    ensures
        r@ == joined(i18n_dir@, "languages.json"@),
{
    join_path(i18n_dir, "languages.json")
}

/// The directory of the templates of a scope and category.
pub fn list_templates(params: &Json, templates_dir: &str) -> (r: Result<String, CommandError>)
    ensures
        text_result(r) == match required_string_param(
            params@,
            "scope"@,
            "`scope` is required"@,
            "`scope` must be a string"@,
        ) {
            Err(e) => Err(e),
            Ok(scope) => match required_string_param(
                params@,
                "category"@,
                "`category` is required"@,
                "`category` must be a string"@,
            ) {
                Err(e) => Err(e),
                Ok(category) => Ok(joined(joined(templates_dir@, scope), category)),
            },
        },
{
    let scope = match get_required_string(
        params,
        "scope",
        "`scope` is required",
        "`scope` must be a string",
    ) {
        Ok(c) => c,
        Err(e) => {
            return Err(e);
        },
    };
    let category = match get_required_string(
        params,
        "category",
        "`category` is required",
        "`category` must be a string",
    ) {
        Ok(c) => c,
        Err(e) => {
            return Err(e);
        },
    };
    let dir = join_path(templates_dir, scope.as_str());
    Ok(join_path(dir.as_str(), category.as_str()))
}

/// A template as it was found: its name, what its `meta.json` holds, and the
/// bytes of its preview.
#[derive(Clone, Debug)]
pub struct Template {
    pub name: String,
    pub meta: Json,
    pub preview: Vec<u8>,
}

/// The names of the templates.
pub open spec fn template_names(templates: Seq<Template>) -> Seq<Seq<char>> {
    Seq::new(templates.len(), |i: int| templates[i].name@)
}

/// A template as the user interface receives it.
pub open spec fn template_json(template: Template) -> JsonModel {
    JsonModel::Object(
        seq![
            ("meta"@, template.meta@),
            ("name"@, JsonModel::String(template.name@)),
            ("preview"@, crate::file_commands::bytes_json(template.preview@)),
        ],
    )
}

/// The templates at the places that `order` names, as the user interface
/// receives them.
pub open spec fn templates_in_order(templates: Seq<Template>, order: Seq<usize>) -> Seq<
    JsonModel,
> {
    Seq::new(order.len(), |k: int| template_json(templates[order[k] as int]))
}

/// The templates as the user interface receives them, in the ascending order
/// of their names; templates of the same name stay in the order they have.
pub fn templates_listed(templates: &Vec<Template>) -> (r: CommandResult)
    ensures
        exists|order: Seq<usize>| #[trigger]
            is_stable_order(order, template_names(templates@)) && r@ == success_with(
                JsonModel::Array(templates_in_order(templates@, order)),
            ),
{
    let mut names: Vec<String> = Vec::new();
    let mut i: usize = 0;
    while i < templates.len()
        invariant
            i <= templates.len(),
            names@.len() == i,
            forall|j: int| 0 <= j < i ==> (#[trigger] names@[j])@ == templates@[j].name@,
        decreases templates.len() - i,
    {
        names.push(templates[i].name.clone());
        i = i + 1;
    }
    proof {
        assert(views(names@) =~= template_names(templates@));
    }
    let order = stable_order(&names);
    let mut items: Vec<Json> = Vec::new();
    let mut k: usize = 0;
    proof {
        lemma_trees(items@);
        assert(trees(items@) =~= templates_in_order(templates@, order@.take(0)));
    }
    while k < order.len()
        invariant
            k <= order.len(),
            is_stable_order(order@, template_names(templates@)),
            trees(items@) == templates_in_order(templates@, order@.take(k as int)),
        decreases order.len() - k,
    {
        let template = &templates[order[k]];
        let mut entries: Vec<(String, Json)> = Vec::new();
        proof {
            crate::json::lemma_entry_trees(entries@);
        }
        push_entry(&mut entries, "meta", template.meta.duplicate());
        push_entry(&mut entries, "name", Json::text(template.name.as_str()));
        push_entry(
            &mut entries,
            "preview",
            crate::file_commands::encode_content(
                crate::file_commands::Encoding::Bytes,
                &template.preview,
            ),
        );
        let item = Json::Object(entries);
        proof {
            assert(item@->Object_0 =~= template_json(templates@[order@[k as int] as int])->Object_0);
            lemma_trees_push(items@, item);
            assert(templates_in_order(templates@, order@.take(k + 1)) =~= templates_in_order(
                templates@,
                order@.take(k as int),
            ).push(item@));
        }
        items.push(item);
        k = k + 1;
    }
    proof {
        assert(order@.take(order@.len() as int) =~= order@);
    }
    CommandResult::with_content(Json::Array(items))
}

/// The file that holds the content of a template.
pub fn get_template_content(params: &Json, templates_dir: &str) -> (r: Result<String, CommandError>)
    ensures
        text_result(r) == match required_string_param(
            params@,
            "scope"@,
            "`scope` is required"@,
            "`scope` must be a string"@,
        ) {
            Err(e) => Err(e),
            Ok(scope) => match required_string_param(
                params@,
                "category"@,
                "`category` is required"@,
                "`category` must be a string"@,
            ) {
                Err(e) => Err(e),
                Ok(category) => match required_string_param(
                    params@,
                    "template"@,
                    "`template` is required"@,
                    "`template` must be a string"@,
                ) {
                    Err(e) => Err(e),
                    Ok(template) => match required_string_param(
                        params@,
                        "content_file"@,
                        "`content_file` is required"@,
                        "`content_file` must be a string"@,
                    ) {
                        Err(e) => Err(e),
                        Ok(content_file) => Ok(
                            joined(
                                joined(joined(joined(templates_dir@, scope), category), template),
                                content_file,
                            ),
                        ),
                    },
                },
            },
        },
{
    let scope = match get_required_string(
        params,
        "scope",
        "`scope` is required",
        "`scope` must be a string",
    ) {
        Ok(c) => c,
        Err(e) => {
            return Err(e);
        },
    };
    let category = match get_required_string(
        params,
        "category",
        "`category` is required",
        "`category` must be a string",
    ) {
        Ok(c) => c,
        Err(e) => {
            return Err(e);
        },
    };
    let template = match get_required_string(
        params,
        "template",
        "`template` is required",
        "`template` must be a string",
    ) {
        Ok(c) => c,
        Err(e) => {
            return Err(e);
        },
    };
    let content_file = match get_required_string(
        params,
        "content_file",
        "`content_file` is required",
        "`content_file` must be a string",
    ) {
        Ok(c) => c,
        Err(e) => {
            return Err(e);
        },
    };
    let a = join_path(templates_dir, scope.as_str());
    let b = join_path(a.as_str(), category.as_str());
    let c = join_path(b.as_str(), template.as_str());
    Ok(join_path(c.as_str(), content_file.as_str()))
}

/// The extensions of the fonts that a request asks for; none stands for all.
pub fn list_system_fonts(params: &Json) -> (r: Result<Vec<String>, CommandError>)
    ensures
        match params@.field("exts"@) {
            None => r is Ok && r->Ok_0@.len() == 0,
            Some(JsonModel::Array(items)) => r is Ok && views(r->Ok_0@) == texts_of(items),
            Some(_) => r is Err && r->Err_0@ == failure(
                ErrorKind::Param,
                "exts must be an array"@,
            ),
        },
{
    match params.get("exts") {
        None => Ok(Vec::new()),
        Some(v) => {
            if v.as_array().is_none() {
                return Err(CommandError::new(ErrorKind::Param, "exts must be an array"));
            }
            Ok(texts_in(Some(v)))
        },
    }
}

/// Whether a font file of the given extension is among those asked for.
pub fn font_wanted(exts: &Vec<String>, ext: &str) -> (r: bool)
    ensures
        r == (exts@.len() == 0 || crate::paths::holds_text(exts@, ext@)),
{
    exts.len() == 0 || list_holds(exts, ext)
}

/// One of the names that a font file gives its font.
#[derive(Clone, Debug, PartialEq)]
pub struct FontName {
    pub name: String,
    pub language_id: u16,
    pub encoding_id: u16,
    pub name_id: u16,
}

/// The last of the names with the given language and kind; empty where there
/// is none.
pub open spec fn last_name(names: Seq<FontName>, language_id: u16, name_id: u16) -> Seq<char>
    decreases names.len(),
{
    if names.len() == 0 {
        Seq::empty()
    } else if names.last().language_id == language_id && names.last().name_id == name_id {
        names.last().name@
    } else {
        last_name(names.drop_last(), language_id, name_id)
    }
}

pub fn pick_name(names: &Vec<FontName>, language_id: u16, name_id: u16) -> (r: String)
    ensures
        r@ == last_name(names@, language_id, name_id),
{
    let mut i: usize = names.len();
    proof {
        assert(names@.take(names@.len() as int) =~= names@);
    }
    while i > 0
        invariant
            i <= names.len(),
            last_name(names@.take(i as int), language_id, name_id) == last_name(
                names@,
                language_id,
                name_id,
            ),
        decreases i,
    {
        proof {
            assert(names@.take(i as int).drop_last() =~= names@.take(i - 1));
            assert(names@.take(i as int).last() == names@[i - 1]);
        }
        i = i - 1;
        if names[i].language_id == language_id && names[i].name_id == name_id {
            return names[i].name.clone();
        }
    }
    String::new()
}

/// A font file: where it lies, its extension, and the names that it gives
/// its font.
#[derive(Clone, Debug, PartialEq)]
pub struct FontFile {
    pub path: String,
    pub ext: String,
    pub names: Vec<FontName>,
}

/// A name of a font as the user interface receives it, the numbers written
/// as texts.
pub open spec fn font_name_json(name: FontName) -> JsonModel {
    JsonModel::Object(
        seq![
            ("encoding_id"@, JsonModel::String(decimal(name.encoding_id as nat))),
            ("language_id"@, JsonModel::String(decimal(name.language_id as nat))),
            ("name"@, JsonModel::String(name.name@)),
            ("name_id"@, JsonModel::String(decimal(name.name_id as nat))),
        ],
    )
}

/// A font file as the user interface receives it.
pub open spec fn font_json(font: FontFile) -> JsonModel {
    JsonModel::Object(
        seq![
            ("ext"@, JsonModel::String(font.ext@)),
            ("family_name"@, JsonModel::String(last_name(font.names@, 1033, 1))),
            ("full_name"@, JsonModel::String(last_name(font.names@, 1033, 4))),
            ("local_name"@, JsonModel::String(last_name(font.names@, 2052, 1))),
            (
                "names"@,
                JsonModel::Array(
                    Seq::new(font.names@.len(), |i: int| font_name_json(font.names@[i])),
                ),
            ),
            ("path"@, JsonModel::String(font.path@)),
        ],
    )
}

/// The full names of the fonts.
pub open spec fn full_names(fonts: Seq<FontFile>) -> Seq<Seq<char>> {
    Seq::new(fonts.len(), |i: int| last_name(fonts[i].names@, 1033, 4))
}

/// The fonts at the places that `order` names, as the user interface
/// receives them.
pub open spec fn fonts_in_order(fonts: Seq<FontFile>, order: Seq<usize>) -> Seq<JsonModel> {
    Seq::new(order.len(), |k: int| font_json(fonts[order[k] as int]))
}

/// Describes a font file for the user interface.
pub fn describe_font(font: &FontFile) -> (r: Json)
    ensures
        r@ == font_json(*font),
{
    let mut names: Vec<Json> = Vec::new();
    let mut i: usize = 0;
    proof {
        lemma_trees(names@);
    }
    while i < font.names.len()
        invariant
            i <= font.names.len(),
            trees(names@).len() == i,
            forall|k: int|
                0 <= k < i ==> (#[trigger] trees(names@)[k]) == font_name_json(font.names@[k]),
        decreases font.names.len() - i,
    {
        let name = &font.names[i];
        let mut entries: Vec<(String, Json)> = Vec::new();
        proof {
            crate::json::lemma_entry_trees(entries@);
        }
        push_entry(
            &mut entries,
            "encoding_id",
            Json::String(u64_to_string(name.encoding_id as u64)),
        );
        push_entry(
            &mut entries,
            "language_id",
            Json::String(u64_to_string(name.language_id as u64)),
        );
        push_entry(&mut entries, "name", Json::text(name.name.as_str()));
        push_entry(&mut entries, "name_id", Json::String(u64_to_string(name.name_id as u64)));
        let item = Json::Object(entries);
        proof {
            assert(item@->Object_0 =~= font_name_json(font.names@[i as int])->Object_0);
            lemma_trees_push(names@, item);
        }
        names.push(item);
        i = i + 1;
    }
    let mut entries: Vec<(String, Json)> = Vec::new();
    proof {
        crate::json::lemma_entry_trees(entries@);
        assert(trees(names@) =~= Seq::new(
            font.names@.len(),
            |i: int| font_name_json(font.names@[i]),
        ));
    }
    push_entry(&mut entries, "ext", Json::text(font.ext.as_str()));
    push_entry(&mut entries, "family_name", Json::String(family_name(&font.names)));
    push_entry(&mut entries, "full_name", Json::String(full_name(&font.names)));
    push_entry(&mut entries, "local_name", Json::String(local_name(&font.names)));
    push_entry(&mut entries, "names", Json::Array(names));
    push_entry(&mut entries, "path", Json::text(font.path.as_str()));
    proof {
        assert(entry_trees(entries@) =~= font_json(*font)->Object_0);
    }
    Json::Object(entries)
}

/// The fonts that were found, as the user interface receives them: in the
/// ascending order of their full names, fonts of the same full name in the
/// order they were found in; and the user's home directory, empty where it is
/// not known.
pub fn fonts_listed(fonts: &Vec<FontFile>, home_dir: Option<&str>) -> (r: CommandResult)
    ensures
        exists|order: Seq<usize>| #[trigger]
            is_stable_order(order, full_names(fonts@)) && r@ == success_with(
                JsonModel::Object(
                    seq![
                        ("fonts"@, JsonModel::Array(fonts_in_order(fonts@, order))),
                        ("home_dir"@, JsonModel::String(or_empty(optional_text(home_dir)))),
                    ],
                ),
            ),
{
    let mut keys: Vec<String> = Vec::new();
    let mut i: usize = 0;
    while i < fonts.len()
        invariant
            i <= fonts.len(),
            keys@.len() == i,
            forall|j: int|
                0 <= j < i ==> (#[trigger] keys@[j])@ == last_name(fonts@[j].names@, 1033, 4),
        decreases fonts.len() - i,
    {
        keys.push(full_name(&fonts[i].names));
        i = i + 1;
    }
    proof {
        assert(views(keys@) =~= full_names(fonts@));
    }
    let order = stable_order(&keys);
    let mut items: Vec<Json> = Vec::new();
    let mut k: usize = 0;
    proof {
        lemma_trees(items@);
        assert(trees(items@) =~= fonts_in_order(fonts@, order@.take(0)));
    }
    while k < order.len()
        invariant
            k <= order.len(),
            is_stable_order(order@, full_names(fonts@)),
            trees(items@) == fonts_in_order(fonts@, order@.take(k as int)),
        decreases order.len() - k,
    {
        let item = describe_font(&fonts[order[k]]);
        proof {
            lemma_trees_push(items@, item);
            assert(fonts_in_order(fonts@, order@.take(k + 1)) =~= fonts_in_order(
                fonts@,
                order@.take(k as int),
            ).push(item@));
        }
        items.push(item);
        k = k + 1;
    }
    let home = match home_dir {
        Some(h) => Json::text(h),
        None => Json::String(String::new()),
    };
    let mut entries: Vec<(String, Json)> = Vec::new();
    proof {
        crate::json::lemma_entry_trees(entries@);
        assert(order@.take(order@.len() as int) =~= order@);
    }
    push_entry(&mut entries, "fonts", Json::Array(items));
    push_entry(&mut entries, "home_dir", home);
    proof {
        assert(entry_trees(entries@) =~= seq![
            ("fonts"@, JsonModel::Array(fonts_in_order(fonts@, order@))),
            ("home_dir"@, JsonModel::String(or_empty(optional_text(home_dir)))),
        ]);
    }
    CommandResult::with_content(Json::Object(entries))
}

/// The family name of a font: its English name with the identifier for
/// family names.
pub fn family_name(names: &Vec<FontName>) -> (r: String)
    ensures
        r@ == last_name(names@, 1033, 1),
{
    pick_name(names, 1033, 1)
}

/// The full name of a font: its English name with the identifier for full
/// names.
pub fn full_name(names: &Vec<FontName>) -> (r: String)
    ensures
        r@ == last_name(names@, 1033, 4),
{
    pick_name(names, 1033, 4)
}

/// The local name of a font: its Chinese name with the identifier for
/// family names.
pub fn local_name(names: &Vec<FontName>) -> (r: String)
    ensures
        r@ == last_name(names@, 2052, 1),
{
    pick_name(names, 2052, 1)
}

/// What a request to read a path asks for: the path, and whether the names
/// and the paths of what is in it are to be listed.
pub fn read_path_request(params: &Json) -> (r: Result<(String, bool, bool), CommandError>)
    ensures
        match string_param(params@, seq!["file_path"@, "path"@]) {
            Err(e) => r is Err && r->Err_0@ == e,
            Ok(path) => r is Ok && r->Ok_0.0@ == path && r->Ok_0.1 == (params@.member(
                "list_sub_names"@,
            ) == JsonModel::Bool(true)) && r->Ok_0.2 == (params@.member("list_sub_paths"@)
                == JsonModel::Bool(true)),
        },
{
    let mut keys: Vec<&str> = Vec::new();
    keys.push("file_path");
    keys.push("path");
    proof {
        assert(str_views(keys@) =~= seq!["file_path"@, "path"@]);
    }
    let path = match get_string_val_from_params(keys, params) {
        Ok(s) => s,
        Err(e) => {
            return Err(e);
        },
    };
    let names = match params.get("list_sub_names") {
        Some(v) => match v.as_bool() {
            Some(b) => b,
            None => false,
        },
        None => false,
    };
    let paths = match params.get("list_sub_paths") {
        Some(v) => match v.as_bool() {
            Some(b) => b,
            None => false,
        },
        None => false,
    };
    Ok((path, names, paths))
}

/// What is in a directory, by name or by path, as an array of texts; an
/// empty array where the pattern that matches every name does not compile.
pub open spec fn sub_listing(node: PathNode, is_full_path: bool) -> JsonModel {
    if regex_compile_error(".*"@) is None {
        JsonModel::of_texts(
            listed(
                node.children@,
                ListRule { pattern: ".*"@, is_full_path, ignore_file: false, ignore_dir: false },
            ),
        )
    } else {
        JsonModel::of_texts(Seq::empty())
    }
}

/// What is told of a path: its parts, whether it exists and what it is, and
/// for a directory, where asked for, the names and the paths of what is in it.
pub open spec fn path_facts(node: PathNode, list_sub_names: bool, list_sub_paths: bool) -> Seq<
    (Seq<char>, JsonModel),
> {
    let parts = seq![
        (
            "file_ext"@,
            JsonModel::String(lowercase(or_empty(crate::paths::extension_of(node.path@)))),
        ),
        ("file_name"@, JsonModel::String(or_empty(file_name_of(node.path@)))),
        ("file_stem"@, JsonModel::String(or_empty(crate::paths::file_stem_of(node.path@)))),
        ("is_dir"@, JsonModel::Bool(node.is_dir)),
        ("is_exists"@, JsonModel::Bool(node.exists)),
        ("is_file"@, JsonModel::Bool(node.is_file)),
        ("parent_dir"@, JsonModel::String(or_empty(crate::paths::parent_of(node.path@)))),
    ];
    let with_names = if node.is_dir && list_sub_names {
        parts.push(("sub_names"@, sub_listing(node, false)))
    } else {
        parts
    };
    if node.is_dir && list_sub_paths {
        with_names.push(("sub_paths"@, sub_listing(node, true)))
    } else {
        with_names
    }
}

/// What is told of a path, given what was found at it: whether it exists and
/// what it is, its parts, and for a directory, where asked for, the names and
/// the paths of what is in it.
pub fn read_path(node: &PathNode, list_sub_names: bool, list_sub_paths: bool) -> (r: Result<
    CommandResult,
    CommandError,
>)
    ensures
        r is Ok,
        r->Ok_0@ == success_with(
            JsonModel::Object(path_facts(*node, list_sub_names, list_sub_paths)),
        ),
{
    let (dir, stem, ext) = split_file_path(node.path.as_str());
    let name = match file_name(node.path.as_str()) {
        Some(n) => n,
        None => String::new(),
    };
    let mut entries: Vec<(String, Json)> = Vec::new();
    proof {
        crate::json::lemma_entry_trees(entries@);
    }
    push_entry(&mut entries, "file_ext", Json::String(to_lowercase(ext.as_str())));
    push_entry(&mut entries, "file_name", Json::String(name));
    push_entry(&mut entries, "file_stem", Json::String(stem));
    push_entry(&mut entries, "is_dir", Json::Bool(node.is_dir));
    push_entry(&mut entries, "is_exists", Json::Bool(node.exists));
    push_entry(&mut entries, "is_file", Json::Bool(node.is_file));
    push_entry(&mut entries, "parent_dir", Json::String(dir));
    if node.is_dir && list_sub_names {
        let request = ListRequest {
            input_dir: node.path.clone(),
            pattern: String::from_str(".*"),
            is_full_path: false,
            ignore_file: false,
            ignore_dir: false,
        };
        match dir_list(node, &request) {
            Ok(names) => {
                push_entry(&mut entries, "sub_names", Json::texts(&names));
            },
            Err(_) => {
                let none: Vec<String> = Vec::new();
                proof {
                    assert(views(none@) =~= Seq::<Seq<char>>::empty());
                }
                push_entry(&mut entries, "sub_names", Json::texts(&none));
            },
        }
    }
    if node.is_dir && list_sub_paths {
        let request = ListRequest {
            input_dir: node.path.clone(),
            pattern: String::from_str(".*"),
            is_full_path: true,
            ignore_file: false,
            ignore_dir: false,
        };
        match dir_list(node, &request) {
            Ok(paths) => {
                push_entry(&mut entries, "sub_paths", Json::texts(&paths));
            },
            Err(_) => {
                let none: Vec<String> = Vec::new();
                proof {
                    assert(views(none@) =~= Seq::<Seq<char>>::empty());
                }
                push_entry(&mut entries, "sub_paths", Json::texts(&none));
            },
        }
    }
    proof {
        assert(entry_trees(entries@) =~= path_facts(*node, list_sub_names, list_sub_paths));
    }
    Ok(CommandResult::with_content(Json::Object(entries)))
}

/// The file and the format of a request to read a file. The file has to be
/// there.
pub fn read_file(params: &Json, is_file: bool) -> (r: Result<
    crate::file_commands::ContentFormat,
    CommandError,
>)
    ensures
        match string_param(params@, crate::params::input_file_keys()) {
            Err(e) => r is Err && r->Err_0@ == e,
            Ok(path) => if !is_file {
                r is Err && r->Err_0@ == failure(
                    ErrorKind::NotFound,
                    "File not found: '"@ + path + "'"@,
                )
            } else {
                match crate::file_commands::format_of(params@) {
                    Ok(f) => r == Ok::<crate::file_commands::ContentFormat, CommandError>(f),
                    Err(e) => r is Err && r->Err_0@ == e,
                }
            },
        },
{
    let mut keys: Vec<&str> = Vec::new();
    keys.push("input_file");
    keys.push("input_path");
    proof {
        assert(str_views(keys@) =~= crate::params::input_file_keys());
    }
    let input_file = match get_string_val_from_params(keys, params) {
        Ok(s) => s,
        Err(e) => {
            return Err(e);
        },
    };
    if !is_file {
        return Err(
            CommandError {
                kind: ErrorKind::NotFound,
                message: concat3("File not found: '", input_file.as_str(), "'"),
            },
        );
    }
    crate::file_commands::read_format(params)
}

/// What a request to write a file hands over.
#[derive(Clone, Debug, PartialEq)]
pub enum FileContent {
    Text(String),
    Bytes(Vec<u8>),
}

/// The file and the content of a request to write a file.
pub fn write_file(params: &Json) -> (r: Result<(String, FileContent), CommandError>)
    ensures
        match string_param(params@, crate::params::output_file_keys()) {
            Err(e) => r is Err && r->Err_0@ == e,
            Ok(path) => match crate::file_commands::format_of(params@) {
                Err(e) => r is Err && r->Err_0@ == e,
                Ok(format) => match params@.field("content"@) {
                    None => r is Err && r->Err_0@ == failure(
                        ErrorKind::Param,
                        "content is required"@,
                    ),
                    Some(content) => match format {
                        crate::file_commands::ContentFormat::Text => match content {
                            JsonModel::String(t) => r is Ok && r->Ok_0.0@ == path && (r->Ok_0.1
                                matches FileContent::Text(x) && x@ == t),
                            _ => r is Err && r->Err_0@ == failure(
                                ErrorKind::Param,
                                "content must be a string"@,
                            ),
                        },
                        crate::file_commands::ContentFormat::Encoded(encoding) => match crate::file_commands::content_bytes(
                            encoding,
                            content,
                        ) {
                            Ok(b) => r is Ok && r->Ok_0.0@ == path && (r->Ok_0.1 matches
                                FileContent::Bytes(x) && x@ == b),
                            Err(e) => r is Err && r->Err_0@ == e,
                        },
                    },
                },
            },
        },
{
    let mut keys: Vec<&str> = Vec::new();
    keys.push("output_file");
    keys.push("output_path");
    proof {
        assert(str_views(keys@) =~= crate::params::output_file_keys());
    }
    let output_file = match get_string_val_from_params(keys, params) {
        Ok(s) => s,
        Err(e) => {
            return Err(e);
        },
    };
    let format = match crate::file_commands::read_format(params) {
        Ok(f) => f,
        Err(e) => {
            return Err(e);
        },
    };
    let content = match params.get("content") {
        Some(c) => c,
        None => {
            return Err(CommandError::new(ErrorKind::Param, "content is required"));
        },
    };
    match format {
        crate::file_commands::ContentFormat::Text => match content.as_str() {
            Some(t) => Ok((output_file, FileContent::Text(copy_str(t)))),
            None => Err(CommandError::new(ErrorKind::Param, "content must be a string")),
        },
        crate::file_commands::ContentFormat::Encoded(encoding) => match crate::file_commands::decode_content(
            encoding,
            content,
        ) {
            Ok(b) => Ok((output_file, FileContent::Bytes(b))),
            Err(e) => Err(e),
        },
    }
}

/// The address that a request asks to open.
pub fn open_url(params: &Json) -> (r: Result<String, CommandError>)
    ensures
        text_result(r) == required_string_param(
            params@,
            "url"@,
            "`url` is required"@,
            "`url` must be a string"@,
        ),
{
    get_required_string(params, "url", "`url` is required", "`url` must be a string")
}

/// The outcome of a request to open an address: the address, and what the
/// platform's command printed.
pub fn url_opened(url: &str, printed: &str) -> (r: CommandResult)
    ensures
        r@ == (ResultModel { message: printed@, ..success_with(JsonModel::String(url@)) }),
{
    let mut done = CommandResult::with_content(Json::text(url));
    done.message = String::from_str(printed);
    done
}

} // verus!
