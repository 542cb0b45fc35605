//! The dispatch of a request: by its identifier a request is a program to
//! run, a tool to use, or a built-in command.
//!
//! Nothing is run here. [`dispatch`] says what has to be done next, and is
//! asked again once a tool has been probed.

use crate::command_names::{command_of, parse_command, CommandName};
use crate::errors::{failure, CallError, CommandError, ErrorKind, ErrorModel};
use crate::functions::{items_or_none, ToolFunction};
use crate::json::{Json, JsonModel};
use crate::registry::{has_tool, is_first_tool, ToolRegistry};
use crate::result::CommandResult;
use crate::shell::{arguments_texts, convert_args_to_strings};
use crate::text::{chars_of, concat3, has_prefix, starts_with, str_eq, string_between, views};
use crate::tools::{
    check_fits, check_tool_available, model_mock_outcome, model_tool_mock_command_execution,
    record_probe, recorded, ShellCommand, ToolCheck,
};
use vstd::prelude::*;
use vstd::string::StringExecFns;

verus! {

/// What has to be done for a request.
#[derive(Clone, Debug)]
pub enum Dispatch {
    /// Run the program. The outcome of the request is what
    /// [`crate::shell::execute_outcome`] makes of the program's end.
    Run { command: ShellCommand, ignore_error: bool },
    /// Find out whether the tool works, then dispatch again with the answer.
    Probe(ToolCheck),
    /// Call the handler of the built-in command.
    Builtin(CommandName),
    /// The request is done.
    Finished(CommandResult),
    /// The request has failed.
    Failed(CommandError),
}

/// The failure of a request for a tool that cannot be used.
pub open spec fn tool_unavailable(name: Seq<char>) -> ErrorModel {
    failure(
        ErrorKind::ToolUnavailable,
        "Tool '"@ + name + "' not available, please install it first."@,
    )
}

/// The failure of a request that names no command.
pub open spec fn unknown_command(name: Seq<char>) -> ErrorModel {
    failure(ErrorKind::Unsupported, "Unknown command: "@ + name)
}

pub open spec fn is_shell_request(command: Seq<char>) -> bool {
    has_prefix(command, "shell."@)
}

pub open spec fn is_exe_request(command: Seq<char>) -> bool {
    !is_shell_request(command) && has_prefix(command, "tool.exe."@)
}

pub open spec fn is_model_request(command: Seq<char>) -> bool {
    !is_shell_request(command) && !has_prefix(command, "tool.exe."@) && has_prefix(
        command,
        "tool.model."@,
    )
}

pub open spec fn is_tool_request(command: Seq<char>) -> bool {
    is_exe_request(command) || is_model_request(command)
}

/// The arguments that a request gives to a program.
pub open spec fn request_arguments(params: JsonModel) -> Result<Seq<Seq<char>>, ErrorModel> {
    arguments_texts(items_or_none(params.member("arguments"@)))
}

/// `r` runs the program with the arguments of the request, or fails where
/// the arguments cannot be given to a program.
pub open spec fn run_fits(r: Dispatch, program: Seq<char>, params: JsonModel) -> bool {
    match request_arguments(params) {
        Err(e) => r matches Dispatch::Failed(f) && f@ == e,
        Ok(texts) => r matches Dispatch::Run { command, ignore_error } && command.program@
            == program && views(command.arguments@) == texts && ignore_error == params.field(
            "ignore_error"@,
        ) is Some,
    }
}

/// `r` is what has to be done for a request for the tool, as the catalog
/// holds it once the probe is recorded: a tool that works runs, or answers
/// as a model does; one that does not work yet is probed, and fails the
/// request once the probe has failed.
pub open spec fn tool_dispatch_fits(
    r: Dispatch,
    tool: ToolFunction,
    command: Seq<char>,
    params: JsonModel,
    probe: Option<bool>,
) -> bool {
    if tool.available {
        if is_exe_request(command) {
            run_fits(r, tool.bin_path@, params)
        } else {
            r matches Dispatch::Finished(done) && done@ == model_mock_outcome(params)
        }
    } else if tool.func_type@ != "tool.model"@ && tool.func_type@ != "tool.exe"@ {
        r matches Dispatch::Failed(f) && f@ == failure(
            ErrorKind::Unsupported,
            "Unknown tool type: "@ + tool.func_type@,
        )
    } else {
        match probe {
            None => r matches Dispatch::Probe(check) && check_fits(
                Ok::<ToolCheck, CommandError>(check),
                tool,
            ),
            Some(_) => r matches Dispatch::Failed(f) && f@ == tool_unavailable(command),
        }
    }
}

fn unavailable(name: &str) -> (e: CommandError)
    ensures
        e@ == tool_unavailable(name@),
{
    CommandError {
        kind: ErrorKind::ToolUnavailable,
        message: concat3("Tool '", name, "' not available, please install it first."),
    }
}

fn run_with(program: String, params: &Json) -> (r: Dispatch)
    ensures
        run_fits(r, program@, params@),
{
    let ignore_error = match params.get("ignore_error") {
        Some(_) => true,
        None => false,
    };
    let converted = match params.get("arguments") {
        Some(a) => match a.as_array() {
            Some(items) => convert_args_to_strings(items),
            None => Ok(Vec::new()),
        },
        None => Ok(Vec::new()),
    };
    match converted {
        Ok(arguments) => {
            proof {
                if !(params@.member("arguments"@) is Array) {
                    assert(views(arguments@) =~= Seq::<Seq<char>>::empty());
                }
            }
            Dispatch::Run { command: ShellCommand { program, arguments }, ignore_error }
        },
        Err(e) => Dispatch::Failed(e),
    }
}

/// Says what has to be done for the request `command`.
///
/// A request `shell.<program>` runs the program. A request `tool.exe.<name>`
/// or `tool.model.<name>` needs the tool of that name: a tool that is not in
/// the catalog, or that was probed without success, fails the request; a tool
/// that is not yet known to work has to be probed; an executable then runs,
/// and a model answers by [`model_mock_outcome`]. Any other request has to
/// name a built-in command.
///
/// `probe` is the outcome of the probe that an earlier dispatch of the same
/// request asked for; a probe that succeeded is recorded.
pub fn dispatch(command: &str, params: &Json, registry: &mut ToolRegistry, probe: Option<bool>) -> (r:
    Dispatch)
    ensures
        is_tool_request(command@) ==> final(registry).tools@ == recorded(
            old(registry).tools@,
            command@,
            probe == Some(true),
        ),
        !is_tool_request(command@) ==> final(registry).tools@ == old(registry).tools@,
        is_shell_request(command@) ==> run_fits(r, command@.skip(6), params@),
        !is_shell_request(command@) && !is_tool_request(command@) ==> match command_of(command@) {
            Some(c) => r matches Dispatch::Builtin(b) && b == c,
            None => r matches Dispatch::Failed(f) && f@ == unknown_command(command@),
        },
        is_tool_request(command@) && !has_tool(old(registry).tools@, command@) ==> (r matches
            Dispatch::Failed(f) && f@ == tool_unavailable(command@)),
        forall|at: int|
            is_tool_request(command@) && #[trigger] is_first_tool(
                final(registry).tools@,
                command@,
                at,
            ) ==> tool_dispatch_fits(r, final(registry).tools@[at], command@, params@, probe),
{
    if starts_with(command, "shell.") {
        let chars = chars_of(command);
        proof {
            reveal_strlit("shell.");
        }
        let program = string_between(&chars, 6, chars.len());
        return run_with(program, params);
    }
    let is_exe = starts_with(command, "tool.exe.");
    if is_exe || starts_with(command, "tool.model.") {
        let ghost before = registry.tools@;
        match probe {
            Some(succeeded) => {
                record_probe(registry, command, succeeded);
            },
            None => {},
        }
        proof {
            crate::tools::law_marking_keeps_the_catalog(before, command@, probe == Some(true));
        }
        return match check_tool_available(registry, command) {
            Err(e) => Dispatch::Failed(e),
            Ok(ToolCheck::Absent) => Dispatch::Failed(unavailable(command)),
            Ok(ToolCheck::Available) => {
                match registry.get_bin_path(command) {
                    Err(e) => Dispatch::Failed(e),
                    Ok(bin_path) => {
                        if is_exe {
                            run_with(bin_path, params)
                        } else {
                            match model_tool_mock_command_execution(bin_path.as_str(), params) {
                                Ok(done) => Dispatch::Finished(done),
                                Err(e) => Dispatch::Failed(e),
                            }
                        }
                    },
                }
            },
            Ok(check) => {
                match probe {
                    None => Dispatch::Probe(check),
                    Some(_) => Dispatch::Failed(unavailable(command)),
                }
            },
        };
    }
    match parse_command(command) {
        Some(c) => Dispatch::Builtin(c),
        None => Dispatch::Failed(
            CommandError {
                kind: ErrorKind::Unsupported,
                message: crate::text::concat2("Unknown command: ", command),
            },
        ),
    }
}

/// The programs that a worker script may run.
pub open spec fn shell_allowed(command: Seq<char>) -> bool {
    command == "shell.xattr"@
}

/// What a worker script may ask for: anything but a program that is not on
/// the list of allowed ones. The request has to have a name.
pub open spec fn gate_outcome(command: Seq<char>) -> Result<(), Seq<char>> {
    if command.len() == 0 {
        Err("file function's command caller name is empty"@)
    } else if has_prefix(command, "shell."@) && !shell_allowed(command) {
        Err("shell command is not allowed"@)
    } else {
        Ok(())
    }
}

/// Holds a request of a worker script to what such a script may ask for.
pub fn check_file_function_command(command_name: &str) -> (r: Result<(), CallError>)
    ensures
        match r {
            Ok(_) => gate_outcome(command_name@) is Ok,
            Err(e) => gate_outcome(command_name@) == Err::<(), Seq<char>>(e@),
        },
{
    if command_name.is_empty() {
        return Err(CallError::new("file function's command caller name is empty"));
    }
    if starts_with(command_name, "shell.") && !str_eq(command_name, "shell.xattr") {
        return Err(CallError::new("shell command is not allowed"));
    }
    Ok(())
}

/// What the user interface may ask of the service besides commands.
#[derive(Clone, Copy, Debug, PartialEq, Eq, Structural)]
pub enum Action {
    /// Open the developer tools: `open.dev_tools`.
    OpenDevTools,
    /// Ask whether this is a development build: `is.dev`.
    IsDev,
    /// Write the parameters to the log: `log.info`.
    LogInfo,
    /// Write the parameters to the log as an error: `log.error`.
    LogError,
    /// Load the file functions anew: `load.file.functions`.
    LoadFileFunctions,
    /// Load the tools anew: `load.tools`.
    LoadTools,
    /// Anything else is a command.
    Command,
}

pub open spec fn action_of(action: Seq<char>) -> Action {
    if action == "open.dev_tools"@ {
        Action::OpenDevTools
    } else if action == "is.dev"@ {
        Action::IsDev
    } else if action == "log.info"@ {
        Action::LogInfo
    } else if action == "log.error"@ {
        Action::LogError
    } else if action == "load.file.functions"@ {
        Action::LoadFileFunctions
    } else if action == "load.tools"@ {
        Action::LoadTools
    } else {
        Action::Command
    }
}

pub fn classify_action(action: &str) -> (r: Action)
    ensures
        r == action_of(action@),
{
    if str_eq(action, "open.dev_tools") {
        Action::OpenDevTools
    } else if str_eq(action, "is.dev") {
        Action::IsDev
    } else if str_eq(action, "log.info") {
        Action::LogInfo
    } else if str_eq(action, "log.error") {
        Action::LogError
    } else if str_eq(action, "load.file.functions") {
        Action::LoadFileFunctions
    } else if str_eq(action, "load.tools") {
        Action::LoadTools
    } else {
        Action::Command
    }
}

/// The parameters of a call, or the failure to read them; `what` names them
/// in the message.
pub fn unpack_params(parsed: Result<Json, String>, what: &str) -> (r: Result<Json, CallError>)
    ensures
        match parsed {
            Ok(j) => r is Ok && r->Ok_0 == j,
            Err(m) => r is Err && r->Err_0@ == "Failed to unpack "@ + what@ + ": "@ + m@,
        },
{
    match parsed {
        Ok(j) => Ok(j),
        Err(m) => {
            let text = crate::text::concat4("Failed to unpack ", what, ": ", m.as_str());
            Err(CallError::new(text.as_str()))
        },
    }
}

/// What the caller of a request gets: the envelope of the outcome, or the
/// message of the failure.
pub fn reply(outcome: Result<CommandResult, CommandError>) -> (r: Result<Json, CallError>)
    ensures
        match outcome {
            Ok(done) => r is Ok && r->Ok_0@ == crate::result::envelope(done@),
            Err(e) => r is Err && r->Err_0@ == e.message@,
        },
{
    match outcome {
        Ok(done) => Ok(done.to_json()),
        Err(e) => Err(CallError::new(e.message.as_str())),
    }
}

} // verus!
