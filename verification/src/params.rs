//! Reading the parameters of a request.

use crate::errors::{failure, CommandError, ErrorKind, ErrorModel};
use crate::json::{Json, JsonModel};
use crate::paths::{extension_of, lowercase, or_empty, split_file_path, to_lowercase};
use crate::resource::text_result;
use crate::text::{concat2, copy_str};
use vstd::prelude::*;
use vstd::string::StringExecFns;

verus! {

/// The views of a list of texts.
pub open spec fn str_views(v: Seq<&str>) -> Seq<Seq<char>> {
    Seq::new(v.len(), |i: int| v[i]@)
}

/// The index of the first key under which the parameters hold a value.
pub open spec fn first_present(params: JsonModel, keys: Seq<Seq<char>>) -> Option<int>
    decreases keys.len(),
{
    if keys.len() == 0 {
        None
    } else if !(params.member(keys[0]) is Null) {
        Some(0int)
    } else {
        match first_present(params, keys.skip(1)) {
            Some(i) => Some(i + 1),
            None => None,
        }
    }
}

/// The text parameter found under the first of the keys that is present. It
/// has to be a string and must not be empty.
pub open spec fn string_param(params: JsonModel, keys: Seq<Seq<char>>) -> Result<
    Seq<char>,
    ErrorModel,
> {
    match first_present(params, keys) {
        None => Err(
            failure(
                ErrorKind::Param,
                "Missing parameter: "@ + if keys.len() > 0 {
                    keys[0]
                } else {
                    Seq::empty()
                },
            ),
        ),
        Some(i) => match params.member(keys[i]) {
            JsonModel::String(s) => if s.len() == 0 {
                Err(failure(ErrorKind::Param, "Missing value for parameter: "@ + keys[i]))
            } else {
                Ok(s)
            },
            _ => Err(failure(ErrorKind::Param, "Invalid parameter: "@ + keys[i])),
        },
    }
}

/// Reads a text parameter that may stand under any of `accept_keys`; the
/// first key that is present decides. Where none is present the failure
/// names the first key.
pub fn get_string_val_from_params(accept_keys: Vec<&str>, params: &Json) -> (r: Result<
    String,
    CommandError,
>)
    ensures
        text_result(r) == string_param(params@, str_views(accept_keys@)),
{
    let ghost keys = str_views(accept_keys@);
    if accept_keys.len() == 0 {
        proof {
            reveal_strlit("");
            assert("Missing parameter: "@ + ""@ =~= "Missing parameter: "@ + Seq::<char>::empty());
        }
        return Err(
            CommandError { kind: ErrorKind::Param, message: concat2("Missing parameter: ", "") },
        );
    }
    proof {
        assert(keys.skip(0) =~= keys);
    }
    let mut i: usize = 0;
    while i < accept_keys.len()
        invariant
            i <= accept_keys.len(),
            keys == str_views(accept_keys@),
            match first_present(params@, keys.skip(i as int)) {
                Some(k) => first_present(params@, keys) == Some(k + i),
                None => first_present(params@, keys) is None,
            },
        decreases accept_keys.len() - i,
    {
        proof {
            assert(keys.skip(i as int).skip(1) =~= keys.skip(i + 1));
            assert(keys.skip(i as int)[0] == keys[i as int]);
        }
        let key: &str = accept_keys[i];
        match params.get(key) {
            Some(v) => {
                if !v.is_null() {
                    return match v.as_str() {
                        Some(s) => {
                            if s.is_empty() {
                                Err(
                                    CommandError {
                                        kind: ErrorKind::Param,
                                        message: concat2("Missing value for parameter: ", key),
                                    },
                                )
                            } else {
                                Ok(copy_str(s))
                            }
                        },
                        None => Err(
                            CommandError {
                                kind: ErrorKind::Param,
                                message: concat2("Invalid parameter: ", key),
                            },
                        ),
                    };
                }
            },
            None => {},
        }
        i = i + 1;
    }
    Err(
        CommandError {
            kind: ErrorKind::Param,
            message: concat2("Missing parameter: ", accept_keys[0]),
        },
    )
}

/// A text parameter that may be left out. It fails only where the parameter is
/// there and is no string.
pub open spec fn optional_string_param(
    params: JsonModel,
    key: Seq<char>,
    message: Seq<char>,
) -> Result<Option<Seq<char>>, ErrorModel> {
    match params.field(key) {
        None => Ok(None),
        Some(JsonModel::String(s)) => Ok(Some(s)),
        Some(_) => Err(failure(ErrorKind::Param, message)),
    }
}

/// Reads a text parameter that may be left out; `message` is the failure where
/// it is there and is no string.
pub fn get_optional_string(params: &Json, key: &str, message: &str) -> (r: Result<
    Option<String>,
    CommandError,
>)
    ensures
        match r {
            Ok(Some(s)) => optional_string_param(params@, key@, message@) == Ok::<
                Option<Seq<char>>,
                ErrorModel,
            >(Some(s@)),
            Ok(None) => optional_string_param(params@, key@, message@) == Ok::<
                Option<Seq<char>>,
                ErrorModel,
            >(None),
            Err(e) => optional_string_param(params@, key@, message@) == Err::<
                Option<Seq<char>>,
                ErrorModel,
            >(e@),
        },
{
    match params.get(key) {
        None => Ok(None),
        Some(v) => match v.as_str() {
            Some(s) => Ok(Some(copy_str(s))),
            None => Err(CommandError::new(ErrorKind::Param, message)),
        },
    }
}

/// A text parameter that must be there; `missing` and `invalid` are the
/// messages where it is not there and where it is no string.
pub open spec fn required_string_param(
    params: JsonModel,
    key: Seq<char>,
    missing: Seq<char>,
    invalid: Seq<char>,
) -> Result<Seq<char>, ErrorModel> {
    match params.field(key) {
        None => Err(failure(ErrorKind::Param, missing)),
        Some(JsonModel::String(s)) => Ok(s),
        Some(_) => Err(failure(ErrorKind::Param, invalid)),
    }
}

pub fn get_required_string(params: &Json, key: &str, missing: &str, invalid: &str) -> (r: Result<
    String,
    CommandError,
>)
    ensures
        text_result(r) == required_string_param(params@, key@, missing@, invalid@),
{
    match params.get(key) {
        None => Err(CommandError::new(ErrorKind::Param, missing)),
        Some(v) => match v.as_str() {
            Some(s) => Ok(copy_str(s)),
            None => Err(CommandError::new(ErrorKind::Param, invalid)),
        },
    }
}

/// A flag that may be left out, and is then not set. It fails only where the
/// parameter is there and is no boolean.
pub open spec fn optional_flag_param(params: JsonModel, key: Seq<char>, message: Seq<char>) -> Result<
    bool,
    ErrorModel,
> {
    match params.field(key) {
        None => Ok(false),
        Some(JsonModel::Bool(b)) => Ok(b),
        Some(_) => Err(failure(ErrorKind::Param, message)),
    }
}

/// Reads a flag that may be left out; `message` is the failure where it is
/// there and is no boolean.
pub fn get_optional_bool(params: &Json, key: &str, message: &str) -> (r: Result<bool, CommandError>)
    ensures
        match r {
            Ok(b) => optional_flag_param(params@, key@, message@) == Ok::<bool, ErrorModel>(b),
            Err(e) => optional_flag_param(params@, key@, message@) == Err::<bool, ErrorModel>(e@),
        },
{
    match params.get(key) {
        None => Ok(false),
        Some(v) => match v.as_bool() {
            Some(b) => Ok(b),
            None => Err(CommandError::new(ErrorKind::Param, message)),
        },
    }
}

/// What a conversion of one file into another works on.
#[derive(Clone, Debug, PartialEq)]
pub struct FileConversionParams {
    pub input_file: String,
    pub is_bulk: bool,
    pub output_file: String,
    pub output_dir: String,
    pub src_ext: String,
    pub target_ext: String,
    pub actual_output_file: String,
}

impl FileConversionParams {
    pub fn new() -> (r: FileConversionParams)
        ensures
            r.input_file@.len() == 0,
            !r.is_bulk,
            r.output_file@.len() == 0,
            r.output_dir@.len() == 0,
            r.src_ext@.len() == 0,
            r.target_ext@.len() == 0,
            r.actual_output_file@.len() == 0,
    {
        FileConversionParams {
            input_file: String::new(),
            is_bulk: false,
            output_file: String::new(),
            output_dir: String::new(),
            src_ext: String::new(),
            target_ext: String::new(),
            actual_output_file: String::new(),
        }
    }
}

pub open spec fn input_file_keys() -> Seq<Seq<char>> {
    seq!["input_file"@, "input_path"@]
}

pub open spec fn output_file_keys() -> Seq<Seq<char>> {
    seq!["output_file"@, "output_path"@]
}

/// Why a request is no conversion: the first of its two files that it does
/// not name as it should.
pub open spec fn conversion_failure(params: JsonModel) -> Option<ErrorModel> {
    match string_param(params, input_file_keys()) {
        Err(e) => Some(e),
        Ok(_) => match string_param(params, output_file_keys()) {
            Err(e) => Some(e),
            Ok(_) => None,
        },
    }
}

/// `p` is the conversion that the request asks for: its two files, and the
/// lower-case extensions of both.
pub open spec fn is_conversion_of(params: JsonModel, p: FileConversionParams) -> bool {
    &&& string_param(params, input_file_keys()) == Ok::<Seq<char>, ErrorModel>(p.input_file@)
    &&& string_param(params, output_file_keys()) == Ok::<Seq<char>, ErrorModel>(p.output_file@)
    &&& p.src_ext@ == lowercase(or_empty(extension_of(p.input_file@)))
    &&& p.target_ext@ == lowercase(or_empty(extension_of(p.output_file@)))
    &&& p.actual_output_file@ == p.output_file@
    &&& !p.is_bulk
    &&& p.output_dir@.len() == 0
}

/// Reads the input file and the output file of a conversion, and the
/// lower-case extensions of both.
pub fn parse_file_conversion_params(params: &Json) -> (r: Result<FileConversionParams, CommandError>)
    ensures
        match r {
            Ok(p) => conversion_failure(params@) is None && is_conversion_of(params@, p),
            Err(e) => conversion_failure(params@) == Some(e@),
        },
{
    let mut fcp = FileConversionParams::new();
    let mut input_keys: Vec<&str> = Vec::new();
    input_keys.push("input_file");
    input_keys.push("input_path");
    proof {
        assert(str_views(input_keys@) =~= input_file_keys());
    }
    let input_file = match get_string_val_from_params(input_keys, params) {
        Ok(s) => s,
        Err(e) => {
            return Err(e);
        },
    };
    let (_, _, src_ext) = split_file_path(input_file.as_str());
    let mut output_keys: Vec<&str> = Vec::new();
    output_keys.push("output_file");
    output_keys.push("output_path");
    proof {
        assert(str_views(output_keys@) =~= output_file_keys());
    }
    let output_file = match get_string_val_from_params(output_keys, params) {
        Ok(s) => s,
        Err(e) => {
            return Err(e);
        },
    };
    let (_, _, target_ext) = split_file_path(output_file.as_str());
    fcp.src_ext = to_lowercase(src_ext.as_str());
    fcp.target_ext = to_lowercase(target_ext.as_str());
    fcp.actual_output_file = output_file.clone();
    fcp.input_file = input_file;
    fcp.output_file = output_file;
    Ok(fcp)
}

} // verus!
