//! Unpacking an archive: where each entry goes, and which entries are refused.

use crate::errors::{failure, CommandError, ErrorKind};
use crate::json::{Json, JsonModel};
use crate::params::{get_string_val_from_params, input_file_keys, str_views, string_param};
use crate::paths::{join_path, joined, parent, parent_of};
use crate::binary::output_dir_keys;
use crate::result::{CommandResult, ResultModel, Status};
use crate::functions::lemma_holds_is_contains;
use crate::paths::list_holds;
use crate::text::{chars_of, concat2, replace, replace_all, split, split_on};
use vstd::prelude::*;
use vstd::string::StringExecFns;

verus! {

/// What a request to unpack an archive asks for.
#[derive(Clone, Debug, PartialEq)]
pub struct UnzipRequest {
    pub input_file: String,
    pub output_dir: String,
}

pub fn unzip_file(params: &Json) -> (r: Result<UnzipRequest, CommandError>)
    ensures
        match string_param(params@, input_file_keys()) {
            Err(e) => r is Err && r->Err_0@ == e,
            Ok(input) => match string_param(params@, output_dir_keys()) {
                Err(e) => r is Err && r->Err_0@ == e,
                Ok(dir) => r is Ok && r->Ok_0.input_file@ == input && r->Ok_0.output_dir@ == dir,
            },
        },
{
    let mut keys: Vec<&str> = Vec::new();
    keys.push("input_file");
    keys.push("input_path");
    proof {
        assert(str_views(keys@) =~= input_file_keys());
    }
    let input_file = match get_string_val_from_params(keys, params) {
        Ok(s) => s,
        Err(e) => {
            return Err(e);
        },
    };
    let mut dir_keys: Vec<&str> = Vec::new();
    dir_keys.push("output_dir");
    proof {
        assert(str_views(dir_keys@) =~= output_dir_keys());
    }
    let output_dir = match get_string_val_from_params(dir_keys, params) {
        Ok(s) => s,
        Err(e) => {
            return Err(e);
        },
    };
    Ok(UnzipRequest { input_file, output_dir })
}

pub open spec fn is_separator(c: char) -> bool {
    c == '/' || c == '\\'
}

/// The components of a name: what stands between its separators.
pub open spec fn components(name: Seq<char>) -> Seq<Seq<char>> {
    split_on(replace_all(name, "\\"@, "/"@), "/"@)
}

/// The name leads out of the directory it is unpacked into: it is empty, it
/// begins at the root or on a drive, or one of its components is `..`.
pub open spec fn escapes(name: Seq<char>) -> bool {
    ||| name.len() == 0
    ||| is_separator(name[0])
    ||| (name.len() >= 2 && name[1] == ':')
    ||| components(name).contains(".."@)
}

/// Whether the name of an entry leads out of the directory it is unpacked into.
pub fn entry_escapes(name: &str) -> (r: bool)
    ensures
        r == escapes(name@),
{
    let chars = chars_of(name);
    if chars.len() == 0 {
        return true;
    }
    if chars[0] == '/' || chars[0] == '\\' {
        return true;
    }
    if chars.len() >= 2 && chars[1] == ':' {
        return true;
    }
    let normal = replace(name, "\\", "/");
    let parts = split(normal.as_str(), "/");
    proof {
        lemma_holds_is_contains(parts@, ".."@);
    }
    list_holds(&parts, "..")
}

/// Where an entry of an archive goes.
#[derive(Clone, Debug, PartialEq)]
pub struct EntryPlan {
    /// The path of the entry below the target directory.
    pub path: String,
    /// The entry is a directory: create it, and those above it.
    pub is_dir: bool,
    /// For a file, the directory to create before the file is written.
    pub parent: Option<String>,
}

/// Plans the unpacking of one entry. `name` is the entry's name as the archive
/// library hands it out for unpacking. An entry whose name leads out of the
/// target directory is refused.
pub fn plan_entry(target_dir: &str, name: &str, is_dir: bool) -> (r: Result<EntryPlan, CommandError>)
    ensures
        match r {
            Ok(plan) => !escapes(name@) && plan.path@ == joined(target_dir@, name@) && plan.is_dir
                == is_dir && match plan.parent {
                Some(p) => !is_dir && parent_of(plan.path@) == Some(p@),
                None => is_dir || parent_of(plan.path@) is None,
            },
            Err(e) => escapes(name@) && e@ == failure(
                ErrorKind::Io,
                "Archive entry leads out of the target directory: "@ + name@,
            ),
        },
{
    if entry_escapes(name) {
        return Err(
            CommandError {
                kind: ErrorKind::Io,
                message: concat2("Archive entry leads out of the target directory: ", name),
            },
        );
    }
    let path = join_path(target_dir, name);
    let parent_dir = if is_dir {
        None
    } else {
        parent(path.as_str())
    };
    Ok(EntryPlan { path, is_dir, parent: parent_dir })
}

/// The outcome of an unpacking that went well.
pub fn unzip_done(output_dir: &str) -> (r: CommandResult)
    ensures
        r@ == (ResultModel {
            content: JsonModel::String(output_dir@),
            status: Status::Success,
            message: "File unzipped successfully"@,
            output_paths: seq![output_dir@],
        }),
{
    let mut done = CommandResult::with_content(Json::text(output_dir));
    done.message = String::from_str("File unzipped successfully");
    done.add_output_path(output_dir);
    proof {
        assert(done@.output_paths =~= seq![output_dir@]);
    }
    done
}

} // verus!
