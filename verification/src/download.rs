//! Downloading a file over HTTP: what a request asks for, how the file on
//! disk is prepared, and what the server's answer means.

use crate::errors::{failure, CommandError, ErrorKind};
use crate::json::{entry_trees, lemma_entry_trees, tree, Json, JsonModel};
use crate::params::{get_string_val_from_params, output_file_keys, str_views, string_param};
use crate::result::{CommandResult, ResultModel, Status};
use crate::text::{concat3, copy_str, decimal, u64_to_string};
use vstd::prelude::*;
use vstd::string::StringExecFns;

verus! {

/// What a request to download a file asks for.
#[derive(Clone, Debug, PartialEq)]
pub struct DownloadRequest {
    pub url: String,
    pub output_file: String,
    /// Whether a file that is already there is to be continued.
    pub resume: bool,
    /// Headers to send with the request.
    pub headers: Option<Vec<(String, String)>>,
}

/// The headers that an object stands for: each member's name with its text,
/// a member that is no string giving an empty value.
pub open spec fn header_list(entries: Seq<(Seq<char>, JsonModel)>) -> Seq<(Seq<char>, Seq<char>)> {
    Seq::new(entries.len(), |i: int| (entries[i].0, entries[i].1.text_or_empty()))
}

pub open spec fn header_views(headers: Seq<(String, String)>) -> Seq<(Seq<char>, Seq<char>)> {
    Seq::new(headers.len(), |i: int| (headers[i].0@, headers[i].1@))
}

/// Reads a request to download a file: the address, the file to write, whether
/// to resume, and the headers to send.
pub fn download_file(params: &Json) -> (r: Result<DownloadRequest, CommandError>)
    ensures
        match params@.member("url"@) {
            JsonModel::String(url) => match string_param(params@, output_file_keys()) {
                Err(e) => r is Err && r->Err_0@ == e,
                Ok(output) => {
                    &&& r is Ok
                    &&& r->Ok_0.url@ == url
                    &&& r->Ok_0.output_file@ == output
                    &&& r->Ok_0.resume == (params@.member("resume"@) == JsonModel::Bool(true))
                    &&& match params@.member("headers"@) {
                        JsonModel::Object(entries) => r->Ok_0.headers is Some && header_views(
                            r->Ok_0.headers->Some_0@,
                        ) == header_list(entries),
                        _ => r->Ok_0.headers is None,
                    }
                },
            },
            _ => r is Err && r->Err_0@ == failure(ErrorKind::Param, "`url` is required"@),
        },
{
    let url = match params.get_str("url") {
        Some(u) => copy_str(u),
        None => {
            return Err(CommandError::new(ErrorKind::Param, "`url` is required"));
        },
    };
    let mut keys: Vec<&str> = Vec::new();
    keys.push("output_file");
    keys.push("output_path");
    proof {
        assert(str_views(keys@) =~= output_file_keys());
    }
    let output_file = match get_string_val_from_params(keys, params) {
        Ok(s) => s,
        Err(e) => {
            return Err(e);
        },
    };
    let resume = match params.get("resume") {
        Some(v) => match v.as_bool() {
            Some(b) => b,
            None => false,
        },
        None => false,
    };
    let entries: Option<&Vec<(String, Json)>> = match params.get("headers") {
        Some(h) => h.as_object(),
        None => None,
    };
    let headers = match entries {
        None => None,
        Some(entries) => {
            let mut list: Vec<(String, String)> = Vec::new();
            let mut i: usize = 0;
            proof {
                lemma_entry_trees(entries@);
            }
            while i < entries.len()
                invariant
                    i <= entries.len(),
                    entry_trees(entries@).len() == entries@.len(),
                    forall|k: int|
                        0 <= k < entries@.len() ==> (#[trigger] entry_trees(entries@)[k]) == (
                            entries@[k].0@,
                            tree(entries@[k].1),
                        ),
                    header_views(list@) =~= header_list(entry_trees(entries@)).take(i as int),
                decreases entries.len() - i,
            {
                let value = match entries[i].1.as_str() {
                    Some(s) => copy_str(s),
                    None => String::new(),
                };
                let pair = (entries[i].0.clone(), value);
                proof {
                    assert(entry_trees(entries@)[i as int] == (
                        entries@[i as int].0@,
                        tree(entries@[i as int].1),
                    ));
                    assert(pair.1@ == entry_trees(entries@)[i as int].1.text_or_empty());
                    assert(header_views(list@.push(pair)) =~= header_views(list@).push(
                        (pair.0@, pair.1@),
                    ));
                    assert(header_list(entry_trees(entries@)).take(i + 1) =~= header_list(
                        entry_trees(entries@),
                    ).take(i as int).push((pair.0@, pair.1@)));
                }
                list.push(pair);
                i = i + 1;
            }
            proof {
                assert(header_list(entry_trees(entries@)).take(entries@.len() as int)
                    =~= header_list(entry_trees(entries@)));
            }
            Some(list)
        },
    };
    Ok(DownloadRequest { url, output_file, resume, headers })
}

/// How the file on disk is prepared before the request is sent.
#[derive(Clone, Debug, PartialEq)]
pub struct DownloadPlan {
    /// Remove the file that is there.
    pub remove_existing: bool,
    /// Create the directory of the file, and those above it.
    pub create_parent: bool,
    /// Open the file so that what is written is appended.
    pub append: bool,
    /// The place in the file from which on is written.
    pub start: u64,
    /// The value of the `Range` header to send, if any.
    pub range: Option<String>,
}

/// The value of the `Range` header that asks for the bytes from `start` on.
pub open spec fn range_from(start: nat) -> Seq<char> {
    "bytes="@ + decimal(start) + "-"@
}

/// Plans the download of a file. A file that is there is removed, unless the
/// download resumes: then writing goes on at its end and the server is asked
/// for the bytes from there on. Where no file is there its directory is
/// created.
pub fn plan_download(target_exists: bool, existing_length: u64, resume: bool) -> (r: DownloadPlan)
    ensures
        r.remove_existing == (target_exists && !resume),
        r.create_parent == !target_exists,
        r.append == resume,
        r.start == if target_exists && resume {
            existing_length
        } else {
            0
        },
        match r.range {
            Some(value) => resume && value@ == range_from(r.start as nat),
            None => !resume,
        },
{
    let start: u64 = if target_exists && resume {
        existing_length
    } else {
        0
    };
    let range = if resume {
        let number = u64_to_string(start);
        Some(concat3("bytes=", number.as_str(), "-"))
    } else {
        None
    };
    DownloadPlan {
        remove_existing: target_exists && !resume,
        create_parent: !target_exists,
        append: resume,
        start,
        range,
    }
}

/// What the server's answer means for the download.
#[derive(Clone, Copy, Debug, PartialEq, Eq, Structural)]
pub enum ResponseDecision {
    /// Write the body to the file.
    Stream,
    /// The file is complete already: leave it as it is.
    AlreadyComplete,
    /// The download has failed.
    Fail,
}

/// A status from 200 to 299.
pub open spec fn is_success_status(status: u16) -> bool {
    200 <= status <= 299
}

pub open spec fn decision_of(status: u16, resume: bool) -> ResponseDecision {
    if is_success_status(status) {
        ResponseDecision::Stream
    } else if status == 416 && resume {
        ResponseDecision::AlreadyComplete
    } else {
        ResponseDecision::Fail
    }
}

/// Decides on the server's answer: a success is written to the file; the
/// status 416 to a request that resumes means that nothing is left to fetch;
/// any other status fails the download.
pub fn decide_response(status: u16, resume: bool) -> (r: ResponseDecision)
    ensures
        r == decision_of(status, resume),
{
    if 200 <= status && status <= 299 {
        ResponseDecision::Stream
    } else if status == 416 && resume {
        ResponseDecision::AlreadyComplete
    } else {
        ResponseDecision::Fail
    }
}

/// The failure of a download that the server refused: the status as the
/// server gave it, and the address.
pub fn response_failure(status_text: &str, url: &str) -> (e: CommandError)
    ensures
        e@ == failure(ErrorKind::Io, status_text@ + ". URL: "@ + url@),
{
    CommandError { kind: ErrorKind::Io, message: concat3(status_text, ". URL: ", url) }
}

/// The outcome of a download that went well.
pub open spec fn downloaded(output_file: Seq<char>) -> ResultModel {
    ResultModel {
        content: JsonModel::String(output_file),
        status: Status::Success,
        message: "File downloaded successfully"@,
        output_paths: seq![output_file],
    }
}

pub fn download_done(output_file: &str) -> (r: CommandResult)
    ensures
        r@ == downloaded(output_file@),
{
    let mut done = CommandResult::with_content(Json::text(output_file));
    done.message = String::from_str("File downloaded successfully");
    done.add_output_path(output_file);
    proof {
        assert(done@.output_paths =~= seq![output_file@]);
    }
    done
}

/// The outcome of a download, given the server's status: a download whose
/// file was complete already is a success like any other.
pub fn download_outcome(request: &DownloadRequest, status: u16, status_text: &str) -> (r: Result<
    CommandResult,
    CommandError,
>)
    ensures
        match decision_of(status, request.resume) {
            ResponseDecision::Fail => r is Err && r->Err_0@ == failure(
                ErrorKind::Io,
                status_text@ + ". URL: "@ + request.url@,
            ),
            _ => r is Ok && r->Ok_0@ == downloaded(request.output_file@),
        },
{
    match decide_response(status, request.resume) {
        ResponseDecision::Fail => Err(response_failure(status_text, request.url.as_str())),
        _ => Ok(download_done(request.output_file.as_str())),
    }
}

/// A server that answers 416 to a download that resumes makes the download
/// succeed, and nothing is written to the file.
pub proof fn law_range_not_satisfiable_is_success(output_file: Seq<char>)
    ensures
        decision_of(416, true) == ResponseDecision::AlreadyComplete,
        decision_of(416, true) != ResponseDecision::Stream,
        decision_of(416, false) == ResponseDecision::Fail,
        downloaded(output_file).status == Status::Success,
{
}

} // verus!
