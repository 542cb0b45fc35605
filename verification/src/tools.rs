//! Whether a tool can be used: what has to be tried to find out, and what is
//! remembered once it worked.
//!
//! A tool that was found to work stays available: nothing here ever takes the
//! mark away.

use crate::errors::{failure, CommandError, ErrorKind};
use crate::functions::{push_entry, tool_json, ToolFunction};
use crate::json::{entry_trees, Json, JsonModel};
use crate::params::{get_string_val_from_params, str_views, string_param};
use crate::registry::{has_tool, is_available, is_first_tool, tool_names, ToolRegistry};
use crate::result::{plain_success, success_with, CommandResult, ResultModel, Status};
use crate::text::{concat2, concat3, is_sorted, sorted_texts, str_eq, views};
use vstd::prelude::*;
use vstd::string::StringExecFns;

verus! {

/// A program to run, with its arguments.
#[derive(Clone, Debug, PartialEq)]
pub struct ShellCommand {
    pub program: String,
    pub arguments: Vec<String>,
}

/// What is known of a tool, or what has to be tried to know more.
#[derive(Clone, Debug, PartialEq)]
pub enum ToolCheck {
    /// No tool of that name is in the catalog.
    Absent,
    /// The tool was found to work before.
    Available,
    /// The tool is a model: it is available if this file exists.
    ModelFile(String),
    /// The tool is an executable: it is available if this command succeeds.
    Executable(ShellCommand),
}

pub fn copy_texts(v: &Vec<String>) -> (r: Vec<String>)
    ensures
        views(r@) == views(v@),
{
    let mut out: Vec<String> = Vec::new();
    let mut i: usize = 0;
    while i < v.len()
        invariant
            i <= v.len(),
            views(out@) =~= views(v@).take(i as int),
        decreases v.len() - i,
    {
        let item = v[i].clone();
        proof {
            assert(views(out@.push(item)) =~= views(out@).push(item@));
            assert(views(v@).take(i + 1) =~= views(v@).take(i as int).push(item@));
        }
        out.push(item);
        i = i + 1;
    }
    proof {
        assert(views(v@).take(v@.len() as int) =~= views(v@));
    }
    out
}

/// `r` is what is known of the tool: a tool that is marked available needs no
/// probe; a model is probed by looking for its file, an executable by running
/// it with the arguments that make it tell its version; of any other type
/// nothing can be known.
pub open spec fn check_fits(r: Result<ToolCheck, CommandError>, tool: ToolFunction) -> bool {
    if tool.available {
        r matches Ok(ToolCheck::Available)
    } else if tool.func_type@ == "tool.model"@ {
        r matches Ok(ToolCheck::ModelFile(path)) && path@ == tool.bin_path@
    } else if tool.func_type@ == "tool.exe"@ {
        r matches Ok(ToolCheck::Executable(command)) && command.program@ == tool.bin_path@
            && views(command.arguments@) == views(tool.bin_version_args@)
    } else {
        r matches Err(e) && e@ == failure(
            ErrorKind::Unsupported,
            "Unknown tool type: "@ + tool.func_type@,
        )
    }
}

/// What the catalog knows of the first tool `name`. A tool that is marked available
/// needs no probe; a model is probed by looking for its file, an executable
/// by running it with the arguments that make it tell its version.
pub fn check_tool_available(registry: &ToolRegistry, name: &str) -> (r: Result<
    ToolCheck,
    CommandError,
>)
    ensures
        !has_tool(registry.tools@, name@) <==> r matches Ok(ToolCheck::Absent),
        forall|at: int| #[trigger]
            is_first_tool(registry.tools@, name@, at) ==> check_fits(r, registry.tools@[at]),
        r matches Ok(ToolCheck::Available) ==> is_available(registry.tools@, name@),
        tool_names(registry.tools@).no_duplicates() && is_available(registry.tools@, name@) ==> r
            matches Ok(ToolCheck::Available),
{
    match registry.find(name) {
        None => Ok(ToolCheck::Absent),
        Some(i) => {
            let tool = &registry.tools[i];
            proof {
                assert forall|at: int| #[trigger]
                    is_first_tool(registry.tools@, name@, at) implies at == i by {
                    if at < i {
                        assert(registry.tools@[at].name@ == name@);
                    } else if i < at {
                        assert(registry.tools@[i as int].name@ == name@);
                    }
                }
                if tool_names(registry.tools@).no_duplicates() && is_available(
                    registry.tools@,
                    name@,
                ) {
                    let k = choose|k: int|
                        0 <= k < registry.tools@.len() && (#[trigger] registry.tools@[k]).name@
                            == name@ && registry.tools@[k].available;
                    assert(tool_names(registry.tools@)[k] == name@);
                    assert(tool_names(registry.tools@)[i as int] == name@);
                    assert(k == i);
                }
            }
            if tool.available {
                Ok(ToolCheck::Available)
            } else if str_eq(tool.func_type.as_str(), "tool.model") {
                Ok(ToolCheck::ModelFile(tool.bin_path.clone()))
            } else if str_eq(tool.func_type.as_str(), "tool.exe") {
                Ok(
                    ToolCheck::Executable(
                        ShellCommand {
                            program: tool.bin_path.clone(),
                            arguments: copy_texts(&tool.bin_version_args),
                        },
                    ),
                )
            } else {
                Err(
                    CommandError {
                        kind: ErrorKind::Unsupported,
                        message: concat2("Unknown tool type: ", tool.func_type.as_str()),
                    },
                )
            }
        },
    }
}

/// The tool with the mark that it works.
pub open spec fn marked_tool(t: ToolFunction) -> ToolFunction {
    ToolFunction { available: true, ..t }
}

/// The catalog with every tool of the given name marked as working.
pub open spec fn marked(tools: Seq<ToolFunction>, name: Seq<char>) -> Seq<ToolFunction> {
    Seq::new(
        tools.len(),
        |i: int|
            if tools[i].name@ == name {
                marked_tool(tools[i])
            } else {
                tools[i]
            },
    )
}

/// The catalog after a probe of the tool `name`.
pub open spec fn recorded(tools: Seq<ToolFunction>, name: Seq<char>, succeeded: bool) -> Seq<
    ToolFunction,
> {
    if succeeded {
        marked(tools, name)
    } else {
        tools
    }
}

/// Marks the tool `name` as working.
pub fn mark_available(registry: &mut ToolRegistry, name: &str)
    ensures
        final(registry).tools@ == marked(old(registry).tools@, name@),
{
    let ghost before = registry.tools@;
    let mut i: usize = 0;
    while i < registry.tools.len()
        invariant
            i <= registry.tools.len(),
            registry.tools@.len() == before.len(),
            forall|k: int| 0 <= k < i ==> (#[trigger] registry.tools@[k]) == marked(before, name@)[k],
            forall|k: int| i <= k < before.len() ==> (#[trigger] registry.tools@[k]) == before[k],
        decreases registry.tools.len() - i,
    {
        if str_eq(registry.tools[i].name.as_str(), name) {
            let ghost middle = registry.tools@;
            let mut tool = registry.tools.remove(i);
            tool.available = true;
            registry.tools.insert(i, tool);
            proof {
                assert(registry.tools@ =~= middle.update(i as int, marked_tool(middle[i as int])));
            }
        }
        i = i + 1;
    }
    proof {
        assert(registry.tools@ =~= marked(before, name@));
    }
}

/// Takes note of how a probe of the tool `name` went: a tool that worked is
/// marked available. A probe that failed changes nothing.
pub fn record_probe(registry: &mut ToolRegistry, name: &str, succeeded: bool) -> (r: bool)
    ensures
        r == succeeded,
        final(registry).tools@ == recorded(old(registry).tools@, name@, succeeded),
{
    if succeeded {
        mark_available(registry, name);
    }
    succeeded
}

/// Marking a tool changes neither the names in the catalog nor what the
/// descriptors say, so a catalog that was well formed stays so.
pub proof fn law_marking_keeps_the_catalog(
    tools: Seq<ToolFunction>,
    name: Seq<char>,
    succeeded: bool,
)
    ensures
        tool_names(recorded(tools, name, succeeded)) == tool_names(tools),
        recorded(tools, name, succeeded).len() == tools.len(),
        forall|i: int|
            0 <= i < tools.len() ==> (#[trigger] recorded(tools, name, succeeded)[i]).matches
                == tools[i].matches && recorded(tools, name, succeeded)[i].bin_path
                == tools[i].bin_path,
        forall|n: Seq<char>| has_tool(recorded(tools, name, succeeded), n) == has_tool(tools, n),
{
    let after = recorded(tools, name, succeeded);
    assert(tool_names(after) =~= tool_names(tools));
    assert forall|n: Seq<char>| has_tool(after, n) == has_tool(tools, n) by {
        if has_tool(after, n) {
            let k = choose|k: int| 0 <= k < after.len() && (#[trigger] after[k]).name@ == n;
            assert(tools[k].name@ == n);
        }
        if has_tool(tools, n) {
            let k = choose|k: int| 0 <= k < tools.len() && (#[trigger] tools[k]).name@ == n;
            assert(after[k].name@ == n);
        }
    }
}

/// A tool that is available stays available, whatever probe is recorded
/// afterwards, of this tool or of another, and however that probe went.
pub proof fn law_availability_is_kept(
    tools: Seq<ToolFunction>,
    name: Seq<char>,
    probed: Seq<char>,
    succeeded: bool,
)
    requires
        is_available(tools, name),
    ensures
        is_available(recorded(tools, probed, succeeded), name),
{
    let k = choose|k: int|
        0 <= k < tools.len() && (#[trigger] tools[k]).name@ == name && tools[k].available;
    let after = recorded(tools, probed, succeeded);
    assert(after[k].name@ == name && after[k].available);
}

/// Once a probe of a tool in the catalog has succeeded, the tool is available.
pub proof fn law_successful_probe_makes_available(tools: Seq<ToolFunction>, name: Seq<char>)
    requires
        has_tool(tools, name),
    ensures
        is_available(recorded(tools, name, true), name),
{
    let k = choose|k: int| 0 <= k < tools.len() && (#[trigger] tools[k]).name@ == name;
    let after = recorded(tools, name, true);
    assert(after[k].name@ == name && after[k].available);
}

/// `names` holds, each once and in ascending order, the names of the tools of
/// the given type, and no other.
pub open spec fn is_names_of_type(
    names: Seq<Seq<char>>,
    tools: Seq<ToolFunction>,
    func_type: Seq<char>,
) -> bool {
    &&& is_sorted(names)
    &&& names.no_duplicates()
    &&& forall|n: Seq<char>|
        names.contains(n) <==> exists|i: int|
            0 <= i < tools.len() && (#[trigger] tools[i]).name@ == n && tools[i].func_type@
                == func_type
}

/// Every descriptor of the catalog under its name, in the order of the
/// catalog.
pub open spec fn tool_members(tools: Seq<ToolFunction>) -> Seq<(Seq<char>, JsonModel)> {
    Seq::new(tools.len(), |i: int| (tools[i].name@, tool_json(tools[i])))
}

/// The names of the tools of the given type, in ascending order.
pub fn names_of_type(registry: &ToolRegistry, func_type: &str) -> (r: Vec<String>)
    ensures
        is_names_of_type(views(r@), registry.tools@, func_type@),
{
    let mut names: Vec<String> = Vec::new();
    let mut i: usize = 0;
    while i < registry.tools.len()
        invariant
            i <= registry.tools.len(),
            views(names@).no_duplicates(),
            forall|n: Seq<char>|
                views(names@).contains(n) <==> exists|k: int|
                    0 <= k < i && (#[trigger] registry.tools@[k]).name@ == n
                        && registry.tools@[k].func_type@ == func_type@,
        decreases registry.tools.len() - i,
    {
        let ghost before = views(names@);
        let tool = &registry.tools[i];
        if str_eq(tool.func_type.as_str(), func_type) {
            crate::functions::push_unique(&mut names, tool.name.clone());
        }
        proof {
            assert forall|n: Seq<char>|
                views(names@).contains(n) <==> exists|k: int|
                    0 <= k < i + 1 && (#[trigger] registry.tools@[k]).name@ == n
                        && registry.tools@[k].func_type@ == func_type@ by {
                let earlier = exists|k: int|
                    0 <= k < i && (#[trigger] registry.tools@[k]).name@ == n
                        && registry.tools@[k].func_type@ == func_type@;
                assert(before.contains(n) <==> earlier);
                if earlier {
                    let k = choose|k: int|
                        0 <= k < i && (#[trigger] registry.tools@[k]).name@ == n
                            && registry.tools@[k].func_type@ == func_type@;
                    assert(0 <= k < i + 1 && registry.tools@[k].name@ == n);
                }
                if registry.tools@[i as int].func_type@ == func_type@ && n
                    == registry.tools@[i as int].name@ {
                    assert(registry.tools@[i as int].name@ == n);
                }
            }
        }
        i = i + 1;
    }
    let sorted = sorted_texts(&names);
    sorted
}

/// The catalog of tools as the user interface receives it: the names of the
/// executables and of the models, each in ascending order, and every
/// descriptor under its name.
pub fn get_tools(registry: &ToolRegistry) -> (r: Result<CommandResult, CommandError>)
    ensures
        r is Ok,
        exists|executables: Seq<Seq<char>>, models: Seq<Seq<char>>|
            {
                &&& #[trigger] is_names_of_type(executables, registry.tools@, "tool.exe"@)
                &&& #[trigger] is_names_of_type(models, registry.tools@, "tool.model"@)
                &&& r->Ok_0@ == success_with(
                    JsonModel::Object(
                        seq![
                            ("exe_names"@, JsonModel::of_texts(executables)),
                            ("items"@, JsonModel::Object(tool_members(registry.tools@))),
                            ("model_names"@, JsonModel::of_texts(models)),
                        ],
                    ),
                )
            },
{
    let exe_names = names_of_type(registry, "tool.exe");
    let model_names = names_of_type(registry, "tool.model");
    let mut items: Vec<(String, Json)> = Vec::new();
    let mut i: usize = 0;
    while i < registry.tools.len()
        invariant
            i <= registry.tools.len(),
            entry_trees(items@).len() == i,
            forall|k: int|
                0 <= k < i ==> (#[trigger] entry_trees(items@)[k]) == (
                    registry.tools@[k].name@,
                    tool_json(registry.tools@[k]),
                ),
        decreases registry.tools.len() - i,
    {
        let tool = &registry.tools[i];
        push_entry(&mut items, tool.name.as_str(), tool.to_json());
        i = i + 1;
    }
    let mut entries: Vec<(String, Json)> = Vec::new();
    proof {
        crate::json::lemma_entry_trees(entries@);
        assert(entry_trees(items@) =~= tool_members(registry.tools@));
    }
    push_entry(&mut entries, "exe_names", Json::texts(&exe_names));
    push_entry(&mut entries, "items", Json::Object(items));
    push_entry(&mut entries, "model_names", Json::texts(&model_names));
    let done = CommandResult::with_content(Json::Object(entries));
    proof {
        assert(entry_trees(entries@) =~= seq![
            ("exe_names"@, JsonModel::of_texts(views(exe_names@))),
            ("items"@, JsonModel::Object(tool_members(registry.tools@))),
            ("model_names"@, JsonModel::of_texts(views(model_names@))),
        ]);
        assert(is_names_of_type(views(exe_names@), registry.tools@, "tool.exe"@));
        assert(is_names_of_type(views(model_names@), registry.tools@, "tool.model"@));
    }
    Ok(done)
}

pub open spec fn tool_name_keys() -> Seq<Seq<char>> {
    seq!["tool_name"@, "name"@]
}

/// The path of the tool that the parameters name. A name that is not in the
/// catalog gives an outcome with status `error`.
pub fn get_tool_bin_path(registry: &ToolRegistry, params: &Json) -> (r: Result<
    CommandResult,
    CommandError,
>)
    ensures
        match string_param(params@, tool_name_keys()) {
            Err(e) => r is Err && r->Err_0@ == e,
            Ok(name) => r is Ok && if has_tool(registry.tools@, name) {
                exists|i: int|
                    is_first_tool(registry.tools@, name, i) && r->Ok_0@ == success_with(
                        JsonModel::String((#[trigger] registry.tools@[i]).bin_path@),
                    )
            } else {
                r->Ok_0@ == (ResultModel {
                    status: Status::Failed,
                    message: "Tool `"@ + name + "` not found."@,
                    ..plain_success()
                })
            },
        },
{
    let mut keys: Vec<&str> = Vec::new();
    keys.push("tool_name");
    keys.push("name");
    proof {
        assert(str_views(keys@) =~= tool_name_keys());
    }
    let tool_name = match get_string_val_from_params(keys, params) {
        Ok(n) => n,
        Err(e) => {
            return Err(e);
        },
    };
    match registry.find(tool_name.as_str()) {
        Some(i) => Ok(CommandResult::with_content(Json::String(registry.tools[i].bin_path.clone()))),
        None => {
            let mut result = CommandResult::default();
            result.status = Status::Failed;
            result.message = concat3("Tool `", tool_name.as_str(), "` not found.");
            Ok(result)
        },
    }
}

/// The first argument of a request, where it is a string.
pub open spec fn first_argument(params: JsonModel) -> Option<Seq<char>> {
    match params.member("arguments"@) {
        JsonModel::Array(items) => if items.len() > 0 {
            Some(items[0].text_or_empty())
        } else {
            None
        },
        _ => None,
    }
}

/// What a model answers in place of a run: asked for its version, it says
/// that it exists; anything else it cannot do, and the outcome has the status
/// `error`: called without arguments it says so, and called with any other
/// first argument it names that argument.
pub open spec fn model_mock_outcome(params: JsonModel) -> ResultModel {
    match first_argument(params) {
        None => ResultModel {
            status: Status::Failed,
            message: "No arguments provided."@,
            ..plain_success()
        },
        Some(arg) => if arg == "-v"@ || arg == "--version"@ {
            success_with(JsonModel::String("is_exists"@))
        } else {
            ResultModel {
                status: Status::Failed,
                message: "Unsupported argument: "@ + arg,
                ..plain_success()
            }
        },
    }
}

/// Stands in for the run of a model, which is no program: see
/// [`model_mock_outcome`].
pub fn model_tool_mock_command_execution(_command: &str, params: &Json) -> (r: Result<
    CommandResult,
    CommandError,
>)
    ensures
        r is Ok,
        r->Ok_0@ == model_mock_outcome(params@),
{
    let arguments: Option<&Vec<Json>> = match params.get("arguments") {
        Some(a) => a.as_array(),
        None => None,
    };
    let first: Option<&Json> = match arguments {
        Some(items) => {
            proof {
                crate::json::lemma_trees(items@);
            }
            if items.len() > 0 {
                Some(&items[0])
            } else {
                None
            }
        },
        None => None,
    };
    match first {
        None => {
            let mut result = CommandResult::default();
            result.status = Status::Failed;
            result.message = String::from_str("No arguments provided.");
            Ok(result)
        },
        Some(arg) => {
            let text: &str = match arg.as_str() {
                Some(s) => s,
                None => "",
            };
            proof {
                reveal_strlit("");
                assert(""@ =~= Seq::<char>::empty());
            }
            if str_eq(text, "-v") || str_eq(text, "--version") {
                Ok(CommandResult::with_content(Json::text("is_exists")))
            } else {
                let mut result = CommandResult::default();
                result.status = Status::Failed;
                result.message = concat2("Unsupported argument: ", text);
                Ok(result)
            }
        },
    }
}

} // verus!
