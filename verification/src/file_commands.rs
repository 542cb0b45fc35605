//! The commands on files: which files a clearing removes, how the content of
//! a file is handed over and taken, digests, and the counting of files.

use crate::digest::{
    base64_bytes, base64_decode, base64_encode, base64_text, calc_md5, calc_sha1, calc_sha256,
    calc_sha512, md5_hex, sha1_hex, sha256_hex, sha512_hex,
};
use crate::errors::{failure, CommandError, ErrorKind, ErrorModel};
use crate::functions::{items_or_none, push_entry, texts_in, texts_of};
use crate::json::{
    entry_trees, lemma_trees, lemma_trees_push, tree, trees, Json, JsonModel, NumberModel,
};
use crate::params::{
    get_string_val_from_params, input_file_keys, output_file_keys, str_views, string_param,
};
use crate::paths::{
    extension_of, file_name, file_name_of, lowercase, or_empty, split_file_path, to_lowercase,
    with_extension, with_extension_of, PathNode,
};
use crate::pattern::{compile, is_match, regex_compile_error, regex_matches, regex_source};
use crate::result::{success_with, CommandResult, ResultModel};
use crate::text::{concat2, concat3, copy_str, decimal, str_eq, u64_to_string, views};
use vstd::prelude::*;
use vstd::string::StringExecFns;

verus! {

/// What a request to clear files asks for.
#[derive(Clone, Debug, PartialEq)]
pub struct ClearRequest {
    /// The files and directories to look at.
    pub input_paths: Vec<String>,
    /// The patterns of which one has to match the name of a file.
    pub name_patterns: Vec<String>,
    /// The patterns of which one has to match the path of a file.
    pub path_patterns: Vec<String>,
}

/// The values under the first of `input_paths`, `paths`, `input_dir` and
/// `input_file` that gives any.
pub open spec fn clear_sources(params: JsonModel) -> Result<Seq<JsonModel>, ErrorModel> {
    let first = match params.field("input_paths"@) {
        Some(JsonModel::Array(items)) => Ok(items),
        Some(_) => Err(failure(ErrorKind::Param, "input_paths must be an array"@)),
        None => Ok(Seq::empty()),
    };
    match first {
        Err(e) => Err(e),
        Ok(items) => if items.len() > 0 {
            Ok(items)
        } else {
            match params.field("paths"@) {
                Some(JsonModel::Array(more)) if more.len() > 0 => Ok(more),
                Some(JsonModel::Array(_)) | None => match params.field("input_dir"@) {
                    Some(v) => Ok(seq![v]),
                    None => match params.field("input_file"@) {
                        Some(v) => Ok(seq![v]),
                        None => Err(
                            failure(ErrorKind::Param, "Missing parameter `input_paths`"@),
                        ),
                    },
                },
                Some(_) => Err(failure(ErrorKind::Param, "paths must be an array"@)),
            }
        },
    }
}

/// The texts that are not empty, in their order.
pub open spec fn kept(texts: Seq<Seq<char>>) -> Seq<Seq<char>>
    decreases texts.len(),
{
    if texts.len() == 0 {
        Seq::empty()
    } else if texts.last().len() == 0 {
        kept(texts.drop_last())
    } else {
        kept(texts.drop_last()).push(texts.last())
    }
}

/// The patterns under `includes`: each has to be a string that is not empty.
pub open spec fn include_patterns(params: JsonModel, key: Seq<char>, message: Seq<char>) -> Result<
    Seq<Seq<char>>,
    ErrorModel,
> {
    let items = items_or_none(params.member("includes"@).member(key));
    if forall|i: int| 0 <= i < items.len() ==> (#[trigger] items[i]).text_or_empty().len() > 0 {
        Ok(texts_of(items))
    } else {
        Err(failure(ErrorKind::Param, message))
    }
}

fn texts_kept(items: &Vec<Json>) -> (r: Vec<String>)
    ensures
        views(r@) == kept(texts_of(trees(items@))),
{
    let ghost all = texts_of(trees(items@));
    let mut out: Vec<String> = Vec::new();
    let mut i: usize = 0;
    proof {
        lemma_trees(items@);
        assert(all.take(0) =~= Seq::<Seq<char>>::empty());
        assert(views(out@) =~= Seq::<Seq<char>>::empty());
    }
    while i < items.len()
        invariant
            i <= items.len(),
            all == texts_of(trees(items@)),
            trees(items@).len() == items@.len(),
            forall|k: int|
                0 <= k < items@.len() ==> (#[trigger] trees(items@)[k]) == tree(items@[k]),
            views(out@) == kept(all.take(i as int)),
        decreases items.len() - i,
    {
        proof {
            assert(all.take(i + 1).drop_last() =~= all.take(i as int));
            assert(all.take(i + 1).last() == all[i as int]);
            assert(trees(items@)[i as int] == tree(items@[i as int]));
        }
        match items[i].as_str() {
            Some(s) => {
                if !s.is_empty() {
                    let t = copy_str(s);
                    proof {
                        assert(views(out@.push(t)) =~= views(out@).push(t@));
                    }
                    out.push(t);
                }
            },
            None => {},
        }
        i = i + 1;
    }
    proof {
        assert(all.take(items@.len() as int) =~= all);
    }
    out
}

fn read_patterns(params: &Json, key: &str, message: &str) -> (r: Result<Vec<String>, CommandError>)
    ensures
        match r {
            Ok(p) => include_patterns(params@, key@, message@) == Ok::<Seq<Seq<char>>, ErrorModel>(
                views(p@),
            ),
            Err(e) => include_patterns(params@, key@, message@) == Err::<
                Seq<Seq<char>>,
                ErrorModel,
            >(e@),
        },
{
    let list: Option<&Json> = match params.get("includes") {
        Some(i) => i.get(key),
        None => None,
    };
    let texts = texts_in(list);
    let ghost items = items_or_none(params@.member("includes"@).member(key@));
    let mut i: usize = 0;
    proof {
        assert(views(texts@).len() == texts@.len());
        assert(texts_of(items).len() == items.len());
    }
    while i < texts.len()
        invariant
            i <= texts.len(),
            texts@.len() == items.len(),
            items == items_or_none(params@.member("includes"@).member(key@)),
            views(texts@) == texts_of(items),
            forall|k: int| 0 <= k < i ==> (#[trigger] items[k]).text_or_empty().len() > 0,
        decreases texts.len() - i,
    {
        proof {
            assert(views(texts@)[i as int] == texts@[i as int]@);
            assert(texts_of(items)[i as int] == items[i as int].text_or_empty());
        }
        if texts[i].as_str().is_empty() {
            return Err(CommandError::new(ErrorKind::Param, message));
        }
        i = i + 1;
    }
    proof {
        assert(views(texts@).len() == texts@.len());
        assert(texts_of(items).len() == items.len());
    }
    Ok(texts)
}

/// Reads a request to clear files: where to look, and by which patterns a
/// file is chosen.
pub fn clear_files(params: &Json) -> (r: Result<ClearRequest, CommandError>)
    ensures
        match clear_sources(params@) {
            Err(e) => r is Err && r->Err_0@ == e,
            Ok(sources) => match include_patterns(
                params@,
                "name_patterns"@,
                "Invalid include name patterns"@,
            ) {
                Err(e) => r is Err && r->Err_0@ == e,
                Ok(names) => match include_patterns(
                    params@,
                    "path_patterns"@,
                    "Invalid include path patterns"@,
                ) {
                    Err(e) => r is Err && r->Err_0@ == e,
                    Ok(paths) => r is Ok && views(r->Ok_0.input_paths@) == kept(texts_of(sources))
                        && views(r->Ok_0.name_patterns@) == names && views(
                        r->Ok_0.path_patterns@,
                    ) == paths,
                },
            },
        },
{
    let mut single: Vec<Json> = Vec::new();
    let mut sources: Option<&Vec<Json>> = None;
    match params.get("input_paths") {
        Some(v) => match v.as_array() {
            Some(items) => {
                if items.len() > 0 {
                    sources = Some(items);
                }
                proof {
                    lemma_trees(items@);
                }
            },
            None => {
                return Err(CommandError::new(ErrorKind::Param, "input_paths must be an array"));
            },
        },
        None => {},
    }
    if sources.is_none() {
        match params.get("paths") {
            Some(v) => match v.as_array() {
                Some(items) => {
                    if items.len() > 0 {
                        sources = Some(items);
                    }
                    proof {
                        lemma_trees(items@);
                    }
                },
                None => {
                    return Err(CommandError::new(ErrorKind::Param, "paths must be an array"));
                },
            },
            None => {},
        }
    }
    let input_paths = match sources {
        Some(items) => texts_kept(items),
        None => {
            match params.get("input_dir") {
                Some(v) => {
                    single.push(v.duplicate());
                },
                None => match params.get("input_file") {
                    Some(v) => {
                        single.push(v.duplicate());
                    },
                    None => {
                        return Err(
                            CommandError::new(ErrorKind::Param, "Missing parameter `input_paths`"),
                        );
                    },
                },
            }
            proof {
                lemma_trees(single@);
                assert(trees(single@) =~= seq![single@[0]@]);
            }
            texts_kept(&single)
        },
    };
    let name_patterns = match read_patterns(
        params,
        "name_patterns",
        "Invalid include name patterns",
    ) {
        Ok(p) => p,
        Err(e) => {
            return Err(e);
        },
    };
    let path_patterns = match read_patterns(
        params,
        "path_patterns",
        "Invalid include path patterns",
    ) {
        Ok(p) => p,
        Err(e) => {
            return Err(e);
        },
    };
    Ok(ClearRequest { input_paths, name_patterns, path_patterns })
}

/// The patterns that compiled expressions were made from.
pub open spec fn sources_of(matchers: Seq<regex::Regex>) -> Seq<Seq<char>> {
    Seq::new(matchers.len(), |i: int| regex_source(matchers[i]))
}

/// One of the patterns matches the text.
pub open spec fn any_pattern_matches(patterns: Seq<Seq<char>>, text: Seq<char>) -> bool {
    exists|i: int| 0 <= i < patterns.len() && regex_matches(#[trigger] patterns[i], text)
}

/// Why the first pattern that the expression library does not accept is
/// refused; nothing where it accepts all.
pub open spec fn first_refusal(patterns: Seq<Seq<char>>) -> Option<Seq<char>>
    decreases patterns.len(),
{
    if patterns.len() == 0 {
        None
    } else {
        match regex_compile_error(patterns[0]) {
            Some(m) => Some(m),
            None => first_refusal(patterns.skip(1)),
        }
    }
}

/// Why a clearing with these patterns fails: a name pattern is refused, or,
/// where all of these are accepted, a path pattern.
pub open spec fn clearing_failure(names: Seq<Seq<char>>, paths: Seq<Seq<char>>) -> Option<
    ErrorModel,
> {
    match first_refusal(names) {
        Some(m) => Some(
            failure(ErrorKind::Param, "Invalid include name patterns"@ + ", error: "@ + m),
        ),
        None => match first_refusal(paths) {
            Some(m) => Some(
                failure(ErrorKind::Param, "Invalid include path patterns"@ + ", error: "@ + m),
            ),
            None => None,
        },
    }
}

fn compile_all(patterns: &Vec<String>, message: &str) -> (r: Result<Vec<regex::Regex>, CommandError>)
    ensures
        match first_refusal(views(patterns@)) {
            Some(m) => r is Err && r->Err_0@ == failure(
                ErrorKind::Param,
                message@ + ", error: "@ + m,
            ),
            None => r is Ok && sources_of(r->Ok_0@) == views(patterns@),
        },
{
    let ghost all = views(patterns@);
    proof {
        assert(all.skip(0) =~= all);
    }
    let mut out: Vec<regex::Regex> = Vec::new();
    let mut i: usize = 0;
    while i < patterns.len()
        invariant
            i <= patterns.len(),
            all == views(patterns@),
            first_refusal(all.skip(i as int)) == first_refusal(all),
            sources_of(out@) =~= all.take(i as int),
        decreases patterns.len() - i,
    {
        proof {
            assert(all[i as int] == patterns@[i as int]@);
            assert(all.skip(i as int).skip(1) =~= all.skip(i + 1));
            assert(all.skip(i as int)[0] == all[i as int]);
        }
        match compile(patterns[i].as_str()) {
            Ok(re) => {
                proof {
                    assert(sources_of(out@.push(re)) =~= sources_of(out@).push(regex_source(re)));
                    assert(views(patterns@).take(i + 1) =~= views(patterns@).take(i as int).push(
                        patterns@[i as int]@,
                    ));
                    assert(sources_of(out@.push(re)) =~= views(patterns@).take(i + 1));
                }
                out.push(re);
            },
            Err(m) => {
                return Err(
                    CommandError {
                        kind: ErrorKind::Param,
                        message: concat3(message, ", error: ", m.as_str()),
                    },
                );
            },
        }
        i = i + 1;
    }
    proof {
        assert(views(patterns@).take(patterns@.len() as int) =~= views(patterns@));
    }
    Ok(out)
}

fn matches_any(matchers: &Vec<regex::Regex>, text: &str) -> (r: bool)
    ensures
        r == any_pattern_matches(sources_of(matchers@), text@),
{
    let mut i: usize = 0;
    while i < matchers.len()
        invariant
            i <= matchers.len(),
            forall|k: int|
                0 <= k < i ==> !regex_matches(#[trigger] sources_of(matchers@)[k], text@),
        decreases matchers.len() - i,
    {
        proof {
            assert(sources_of(matchers@)[i as int] == regex_source(matchers@[i as int]));
        }
        if is_match(&matchers[i], text) {
            return true;
        }
        i = i + 1;
    }
    false
}

/// The files at and below a node that a clearing removes: every file whose
/// name is matched by a name pattern, or whose path is matched by a path
/// pattern. Directories are gone through, and stay.
pub open spec fn cleared(node: PathNode, names: Seq<Seq<char>>, paths: Seq<Seq<char>>) -> Seq<
    Seq<char>,
>
    decreases node,
{
    if !node.exists {
        Seq::empty()
    } else if node.is_file {
        let name = or_empty(file_name_of(node.path@));
        if name.len() > 0 && (any_pattern_matches(names, name) || any_pattern_matches(
            paths,
            node.path@,
        )) {
            seq![node.path@]
        } else {
            Seq::empty()
        }
    } else if node.is_dir {
        cleared_among(node.children@, names, paths)
    } else {
        Seq::empty()
    }
}

pub open spec fn cleared_among(
    nodes: Seq<PathNode>,
    names: Seq<Seq<char>>,
    paths: Seq<Seq<char>>,
) -> Seq<Seq<char>>
    decreases nodes,
{
    if nodes.len() == 0 {
        Seq::empty()
    } else {
        cleared_among(nodes.drop_last(), names, paths) + cleared(nodes.last(), names, paths)
    }
}

fn collect_cleared(
    node: &PathNode,
    names: &Vec<regex::Regex>,
    paths: &Vec<regex::Regex>,
    out: &mut Vec<String>,
)
    ensures
        views(final(out)@) == views(old(out)@) + cleared(
            *node,
            sources_of(names@),
            sources_of(paths@),
        ),
    decreases node,
{
    let ghost start = views(out@);
    if !node.exists {
        proof {
            assert(start + Seq::<Seq<char>>::empty() =~= start);
        }
        return ;
    }
    if node.is_file {
        let name = match file_name(node.path.as_str()) {
            Some(n) => n,
            None => String::new(),
        };
        if !name.as_str().is_empty() && (matches_any(names, name.as_str()) || matches_any(
            paths,
            node.path.as_str(),
        )) {
            let p = node.path.clone();
            proof {
                assert(views(out@.push(p)) =~= start + seq![node.path@]);
            }
            out.push(p);
        } else {
            proof {
                assert(start + Seq::<Seq<char>>::empty() =~= start);
            }
        }
    } else if node.is_dir {
        let mut i: usize = 0;
        proof {
            assert(node.children@.take(0) =~= Seq::<PathNode>::empty());
            assert(start + Seq::<Seq<char>>::empty() =~= start);
        }
        while i < node.children.len()
            invariant
                i <= node.children.len(),
                views(out@) == start + cleared_among(
                    node.children@.take(i as int),
                    sources_of(names@),
                    sources_of(paths@),
                ),
            decreases node.children.len() - i,
        {
            proof {
                assert(decreases_to!(*node => node.children));
                assert(decreases_to!(node.children => node.children@));
                assert(decreases_to!(node.children@ => node.children@[i as int]));
                assert(node.children@.take(i + 1).drop_last() =~= node.children@.take(i as int));
                assert(node.children@.take(i + 1).last() == node.children@[i as int]);
            }
            let ghost before = views(out@);
            collect_cleared(&node.children[i], names, paths, out);
            proof {
                let front = cleared_among(
                    node.children@.take(i as int),
                    sources_of(names@),
                    sources_of(paths@),
                );
                let back = cleared(node.children@[i as int], sources_of(names@), sources_of(paths@));
                assert((start + front) + back =~= start + (front + back));
            }
            i = i + 1;
        }
        proof {
            assert(node.children@.take(node.children@.len() as int) =~= node.children@);
        }
    } else {
        proof {
            assert(start + Seq::<Seq<char>>::empty() =~= start);
        }
    }
}

/// The files that a clearing removes, given what was found at the paths of
/// the request, in the order in which they are met. It fails, before any file
/// is chosen, where a pattern is refused by the expression library.
pub fn files_to_clear(request: &ClearRequest, nodes: &Vec<PathNode>) -> (r: Result<
    Vec<String>,
    CommandError,
>)
    ensures
        match clearing_failure(views(request.name_patterns@), views(request.path_patterns@)) {
            Some(e) => r is Err && r->Err_0@ == e,
            None => r is Ok && views(r->Ok_0@) == cleared_among(
                nodes@,
                views(request.name_patterns@),
                views(request.path_patterns@),
            ),
        },
{
    let names = match compile_all(&request.name_patterns, "Invalid include name patterns") {
        Ok(m) => m,
        Err(e) => {
            return Err(e);
        },
    };
    let paths = match compile_all(&request.path_patterns, "Invalid include path patterns") {
        Ok(m) => m,
        Err(e) => {
            return Err(e);
        },
    };
    let mut out: Vec<String> = Vec::new();
    let mut i: usize = 0;
    proof {
        assert(nodes@.take(0) =~= Seq::<PathNode>::empty());
        assert(views(out@) =~= Seq::<Seq<char>>::empty());
    }
    while i < nodes.len()
        invariant
            i <= nodes.len(),
            views(out@) == cleared_among(
                nodes@.take(i as int),
                sources_of(names@),
                sources_of(paths@),
            ),
        decreases nodes.len() - i,
    {
        proof {
            assert(nodes@.take(i + 1).drop_last() =~= nodes@.take(i as int));
            assert(nodes@.take(i + 1).last() == nodes@[i as int]);
        }
        collect_cleared(&nodes[i], &names, &paths, &mut out);
        i = i + 1;
    }
    proof {
        assert(nodes@.take(nodes@.len() as int) =~= nodes@);
    }
    Ok(out)
}

/// The outcome of a clearing: how many files were removed.
pub fn clear_done(count: u64) -> (r: CommandResult)
    ensures
        r@ == (ResultModel {
            message: decimal(count as nat),
            ..success_with(JsonModel::Number(NumberModel::Unsigned(count)))
        }),
{
    let mut done = CommandResult::with_content(Json::unsigned(count));
    done.message = u64_to_string(count);
    done
}

/// A clearing without patterns removes nothing.
pub proof fn law_no_patterns_clear_nothing(node: PathNode)
    ensures
        cleared(node, Seq::empty(), Seq::empty()) == Seq::<Seq<char>>::empty(),
    decreases node,
{
    if node.exists && !node.is_file && node.is_dir {
        law_no_patterns_clear_nothing_among(node.children@);
    }
}

pub proof fn law_no_patterns_clear_nothing_among(nodes: Seq<PathNode>)
    ensures
        cleared_among(nodes, Seq::empty(), Seq::empty()) == Seq::<Seq<char>>::empty(),
    decreases nodes,
{
    if nodes.len() > 0 {
        law_no_patterns_clear_nothing_among(nodes.drop_last());
        law_no_patterns_clear_nothing(nodes.last());
        assert(Seq::<Seq<char>>::empty() + Seq::<Seq<char>>::empty() =~= Seq::<
            Seq<char>,
        >::empty());
    }
}

/// How bytes are written in a request or an outcome.
#[derive(Clone, Copy, Debug, PartialEq, Eq, Structural)]
pub enum Encoding {
    /// As a Base64 text.
    Base64,
    /// As an array of numbers.
    Bytes,
}

/// How the content of a file is handed over or taken: as the text it is, or
/// as bytes in an encoding.
#[derive(Clone, Copy, Debug, PartialEq, Eq, Structural)]
pub enum ContentFormat {
    Text,
    Encoded(Encoding),
}

/// The format that a request names; `text` where it names none.
pub open spec fn format_of(params: JsonModel) -> Result<ContentFormat, ErrorModel> {
    match params.field("format"@) {
        None => Ok(ContentFormat::Text),
        Some(JsonModel::String(f)) => if f == "text"@ {
            Ok(ContentFormat::Text)
        } else if f == "base64"@ {
            Ok(ContentFormat::Encoded(Encoding::Base64))
        } else if f == "bytes"@ {
            Ok(ContentFormat::Encoded(Encoding::Bytes))
        } else {
            Err(
                failure(
                    ErrorKind::Unsupported,
                    "Invalid format: '"@ + f + "'. Must be 'text', 'base64' or 'bytes'"@,
                ),
            )
        },
        Some(_) => Err(failure(ErrorKind::Param, "format must be a string"@)),
    }
}

pub fn read_format(params: &Json) -> (r: Result<ContentFormat, CommandError>)
    ensures
        match r {
            Ok(f) => format_of(params@) == Ok::<ContentFormat, ErrorModel>(f),
            Err(e) => format_of(params@) == Err::<ContentFormat, ErrorModel>(e@),
        },
{
    match params.get("format") {
        None => Ok(ContentFormat::Text),
        Some(v) => match v.as_str() {
            None => Err(CommandError::new(ErrorKind::Param, "format must be a string")),
            Some(f) => {
                if str_eq(f, "text") {
                    Ok(ContentFormat::Text)
                } else if str_eq(f, "base64") {
                    Ok(ContentFormat::Encoded(Encoding::Base64))
                } else if str_eq(f, "bytes") {
                    Ok(ContentFormat::Encoded(Encoding::Bytes))
                } else {
                    Err(
                        CommandError {
                            kind: ErrorKind::Unsupported,
                            message: concat3(
                                "Invalid format: '",
                                f,
                                "'. Must be 'text', 'base64' or 'bytes'",
                            ),
                        },
                    )
                }
            },
        },
    }
}

/// The bytes as an array of numbers.
pub open spec fn bytes_json(data: Seq<u8>) -> JsonModel {
    JsonModel::Array(
        Seq::new(data.len(), |i: int| JsonModel::Number(NumberModel::Unsigned(data[i] as u64))),
    )
}

/// The bytes of a file as a request receives them.
pub fn encode_content(format: Encoding, data: &Vec<u8>) -> (r: Json)
    ensures
        r@ == if format == Encoding::Base64 {
            JsonModel::String(base64_text(data@))
        } else {
            bytes_json(data@)
        },
{
    match format {
        Encoding::Bytes => {
            let mut items: Vec<Json> = Vec::new();
            let mut i: usize = 0;
            while i < data.len()
                invariant
                    i <= data.len(),
                    trees(items@) =~= Seq::new(
                        i as nat,
                        |k: int| JsonModel::Number(NumberModel::Unsigned(data@[k] as u64)),
                    ),
                decreases data.len() - i,
            {
                let item = Json::unsigned(data[i] as u64);
                proof {
                    lemma_trees_push(items@, item);
                }
                items.push(item);
                i = i + 1;
            }
            let r = Json::Array(items);
            proof {
                assert(r@->Array_0 =~= bytes_json(data@)->Array_0);
            }
            r
        },
        Encoding::Base64 => Json::String(base64_encode(data.as_slice())),
    }
}

/// The byte that a value stands for in the format `bytes`: the number cut to
/// its lowest eight bits, 0 for what is no number.
pub open spec fn byte_of(v: JsonModel) -> u8 {
    match v.as_unsigned() {
        Some(n) => (n % 256) as u8,
        None => 0,
    }
}

/// The bytes that a content stands for in the given encoding.
pub open spec fn content_bytes(format: Encoding, content: JsonModel) -> Result<
    Seq<u8>,
    ErrorModel,
> {
    match format {
        Encoding::Bytes => match content {
            JsonModel::Array(items) => Ok(Seq::new(items.len(), |i: int| byte_of(items[i]))),
            _ => Err(failure(ErrorKind::Param, "content must be an array"@)),
        },
        Encoding::Base64 => match content {
            JsonModel::String(s) => match base64_bytes(s) {
                Ok(b) => Ok(b),
                Err(m) => Err(failure(ErrorKind::Format, m)),
            },
            _ => Err(failure(ErrorKind::Param, "content must be a string"@)),
        },
    }
}

/// The bytes that the content of a request stands for.
pub fn decode_content(format: Encoding, content: &Json) -> (r: Result<Vec<u8>, CommandError>)
    ensures
        match r {
            Ok(b) => content_bytes(format, content@) == Ok::<Seq<u8>, ErrorModel>(b@),
            Err(e) => content_bytes(format, content@) == Err::<Seq<u8>, ErrorModel>(e@),
        },
{
    match format {
        Encoding::Bytes => {
            let items = match content.as_array() {
                Some(i) => i,
                None => {
                    return Err(CommandError::new(ErrorKind::Param, "content must be an array"));
                },
            };
            proof {
                lemma_trees(items@);
            }
            let mut out: Vec<u8> = Vec::new();
            let mut i: usize = 0;
            while i < items.len()
                invariant
                    i <= items.len(),
                    trees(items@).len() == items@.len(),
                    forall|k: int|
                        0 <= k < items@.len() ==> (#[trigger] trees(items@)[k]) == tree(items@[k]),
                    out@ =~= Seq::new(i as nat, |k: int| byte_of(trees(items@)[k])),
                decreases items.len() - i,
            {
                let byte: u8 = match items[i].as_u64() {
                    Some(n) => (n % 256) as u8,
                    None => 0,
                };
                proof {
                    assert(trees(items@)[i as int] == tree(items@[i as int]));
                }
                out.push(byte);
                i = i + 1;
            }
            proof {
                assert(out@ =~= content_bytes(format, content@)->Ok_0);
            }
            Ok(out)
        },
        Encoding::Base64 => {
            let text = match content.as_str() {
                Some(s) => s,
                None => {
                    return Err(CommandError::new(ErrorKind::Param, "content must be a string"));
                },
            };
            match base64_decode(text) {
                Ok(b) => Ok(b),
                Err(m) => Err(CommandError { kind: ErrorKind::Format, message: m }),
            }
        },
    }
}

/// The digest that a request names; MD5 where it names none.
#[derive(Clone, Copy, Debug, PartialEq, Eq, Structural)]
pub enum HashType {
    Md5,
    Sha1,
    Sha256,
    Sha512,
}

pub open spec fn hash_type_of(params: JsonModel) -> Result<HashType, ErrorModel> {
    match params.field("hash_type"@) {
        None => Ok(HashType::Md5),
        Some(JsonModel::String(t)) => if t == "md5"@ {
            Ok(HashType::Md5)
        } else if t == "sha1"@ {
            Ok(HashType::Sha1)
        } else if t == "sha256"@ {
            Ok(HashType::Sha256)
        } else if t == "sha512"@ {
            Ok(HashType::Sha512)
        } else {
            Err(failure(ErrorKind::Unsupported, "Invalid hash type: '"@ + t + "'"@))
        },
        Some(_) => Err(failure(ErrorKind::Param, "hash_type must be a string"@)),
    }
}

pub fn read_hash_type(params: &Json) -> (r: Result<HashType, CommandError>)
    ensures
        match r {
            Ok(t) => hash_type_of(params@) == Ok::<HashType, ErrorModel>(t),
            Err(e) => hash_type_of(params@) == Err::<HashType, ErrorModel>(e@),
        },
{
    match params.get("hash_type") {
        None => Ok(HashType::Md5),
        Some(v) => match v.as_str() {
            None => Err(CommandError::new(ErrorKind::Param, "hash_type must be a string")),
            Some(t) => {
                if str_eq(t, "md5") {
                    Ok(HashType::Md5)
                } else if str_eq(t, "sha1") {
                    Ok(HashType::Sha1)
                } else if str_eq(t, "sha256") {
                    Ok(HashType::Sha256)
                } else if str_eq(t, "sha512") {
                    Ok(HashType::Sha512)
                } else {
                    Err(
                        CommandError {
                            kind: ErrorKind::Unsupported,
                            message: concat3("Invalid hash type: '", t, "'"),
                        },
                    )
                }
            },
        },
    }
}

/// The digest of the bytes, in hexadecimal.
pub open spec fn digest_of(hash_type: HashType, data: Seq<u8>) -> Seq<char> {
    match hash_type {
        HashType::Md5 => md5_hex(data),
        HashType::Sha1 => sha1_hex(data),
        HashType::Sha256 => sha256_hex(data),
        HashType::Sha512 => sha512_hex(data),
    }
}

/// The outcome of a request for the digest of a file, given the file's bytes.
pub fn hash_file(hash_type: HashType, data: &Vec<u8>) -> (r: CommandResult)
    ensures
        r@ == success_with(JsonModel::String(digest_of(hash_type, data@))),
{
    let hash = match hash_type {
        HashType::Md5 => calc_md5(data.as_slice()),
        HashType::Sha1 => calc_sha1(data.as_slice()),
        HashType::Sha256 => calc_sha256(data.as_slice()),
        HashType::Sha512 => calc_sha512(data.as_slice()),
    };
    CommandResult::with_content(Json::String(hash))
}

/// The name of the input file of a request.
pub fn get_file_name(params: &Json) -> (r: Result<CommandResult, CommandError>)
    ensures
        match string_param(params@, input_file_keys()) {
            Err(e) => r is Err && r->Err_0@ == e,
            Ok(path) => match file_name_of(path) {
                Some(n) => r is Ok && r->Ok_0@ == success_with(JsonModel::String(n)),
                None => r is Err && r->Err_0@ == failure(ErrorKind::Param, "Invalid file name"@),
            },
        },
{
    let mut keys: Vec<&str> = Vec::new();
    keys.push("input_file");
    keys.push("input_path");
    proof {
        assert(str_views(keys@) =~= input_file_keys());
    }
    let input_file = match get_string_val_from_params(keys, params) {
        Ok(s) => s,
        Err(e) => {
            return Err(e);
        },
    };
    match file_name(input_file.as_str()) {
        Some(n) => Ok(CommandResult::with_content(Json::String(n))),
        None => Err(CommandError::new(ErrorKind::Param, "Invalid file name")),
    }
}

/// The extension of the input file of a request.
pub fn get_file_extension(params: &Json) -> (r: Result<CommandResult, CommandError>)
    ensures
        match string_param(params@, input_file_keys()) {
            Err(e) => r is Err && r->Err_0@ == e,
            Ok(path) => r is Ok && r->Ok_0@ == success_with(
                JsonModel::String(or_empty(extension_of(path))),
            ),
        },
{
    let mut keys: Vec<&str> = Vec::new();
    keys.push("input_file");
    keys.push("input_path");
    proof {
        assert(str_views(keys@) =~= input_file_keys());
    }
    let input_file = match get_string_val_from_params(keys, params) {
        Ok(s) => s,
        Err(e) => {
            return Err(e);
        },
    };
    let (_, _, ext) = split_file_path(input_file.as_str());
    Ok(CommandResult::with_content(Json::String(ext)))
}

/// The file to move and the place to move it to, from a request to rename.
pub fn rename_file(params: &Json) -> (r: Result<(String, String), CommandError>)
    ensures
        match string_param(params@, input_file_keys()) {
            Err(e) => r is Err && r->Err_0@ == e,
            Ok(input) => match string_param(params@, output_file_keys()) {
                Err(e) => r is Err && r->Err_0@ == e,
                Ok(output) => r is Ok && r->Ok_0.0@ == input && r->Ok_0.1@ == output,
            },
        },
{
    let mut keys: Vec<&str> = Vec::new();
    keys.push("input_file");
    keys.push("input_path");
    proof {
        assert(str_views(keys@) =~= input_file_keys());
    }
    let input_file = match get_string_val_from_params(keys, params) {
        Ok(s) => s,
        Err(e) => {
            return Err(e);
        },
    };
    let mut out_keys: Vec<&str> = Vec::new();
    out_keys.push("output_file");
    out_keys.push("output_path");
    proof {
        assert(str_views(out_keys@) =~= output_file_keys());
    }
    let output_file = match get_string_val_from_params(out_keys, params) {
        Ok(s) => s,
        Err(e) => {
            return Err(e);
        },
    };
    Ok((input_file, output_file))
}

/// The file to copy and the place of the copy, from a request to copy.
pub fn copy_file(params: &Json) -> (r: Result<(String, String), CommandError>)
    ensures
        match string_param(params@, input_file_keys()) {
            Err(e) => r is Err && r->Err_0@ == e,
            Ok(input) => match string_param(params@, output_file_keys()) {
                Err(e) => r is Err && r->Err_0@ == e,
                Ok(output) => r is Ok && r->Ok_0.0@ == input && r->Ok_0.1@ == output,
            },
        },
{
    rename_file(params)
}

/// The outcome of a request that wrote the file `output_file`.
pub fn written(output_file: &str) -> (r: CommandResult)
    ensures
        r@ == (ResultModel {
            output_paths: seq![output_file@],
            ..success_with(JsonModel::Bool(true))
        }),
{
    let mut done = CommandResult::with_content(Json::Bool(true));
    done.add_output_path(output_file);
    proof {
        assert(done@.output_paths =~= seq![output_file@]);
    }
    done
}

/// The formats of images that can be loaded.
pub open spec fn is_image_format(ext: Seq<char>) -> bool {
    ext == "bmp"@ || ext == "dds"@ || ext == "farbfeld"@ || ext == "gif"@ || ext == "hdr"@ || ext
        == "ico"@ || ext == "jpeg"@ || ext == "exr"@ || ext == "png"@ || ext == "pnm"@ || ext
        == "qoi"@ || ext == "tga"@ || ext == "tiff"@ || ext == "webp"@
}

/// Whether the file at a path can be loaded as an image: it has to exist, to
/// be a file, and to have the extension of a format that can be loaded.
pub fn load_image(node: &PathNode) -> (r: Result<(), CommandError>)
    ensures
        match r {
            Ok(_) => node.exists && node.is_file && is_image_format(
                lowercase(or_empty(extension_of(node.path@))),
            ),
            Err(e) => if !node.exists {
                e@ == failure(ErrorKind::NotFound, "File does not exist: "@ + node.path@)
            } else if !node.is_file {
                e@ == failure(ErrorKind::Param, "Path is not a file: "@ + node.path@)
            } else {
                !is_image_format(lowercase(or_empty(extension_of(node.path@)))) && e@ == failure(
                    ErrorKind::Unsupported,
                    "Unsupported image format: "@ + or_empty(extension_of(node.path@)),
                )
            },
        },
{
    if !node.exists {
        return Err(
            CommandError {
                kind: ErrorKind::NotFound,
                message: concat2("File does not exist: ", node.path.as_str()),
            },
        );
    }
    if !node.is_file {
        return Err(
            CommandError {
                kind: ErrorKind::Param,
                message: concat2("Path is not a file: ", node.path.as_str()),
            },
        );
    }
    let (_, _, ext) = split_file_path(node.path.as_str());
    let lower = to_lowercase(ext.as_str());
    let l = lower.as_str();
    if str_eq(l, "bmp") || str_eq(l, "dds") || str_eq(l, "farbfeld") || str_eq(l, "gif") || str_eq(
        l,
        "hdr",
    ) || str_eq(l, "ico") || str_eq(l, "jpeg") || str_eq(l, "exr") || str_eq(l, "png") || str_eq(
        l,
        "pnm",
    ) || str_eq(l, "qoi") || str_eq(l, "tga") || str_eq(l, "tiff") || str_eq(l, "webp") {
        Ok(())
    } else {
        Err(
            CommandError {
                kind: ErrorKind::Unsupported,
                message: concat2("Unsupported image format: ", ext.as_str()),
            },
        )
    }
}

/// The path under which an image is saved as PNG: the path with the
/// extension `png`.
pub fn save_image_with_png(path: &str) -> (r: String)
    ensures
        r@ == with_extension_of(path@, "png"@),
{
    proof {
        reveal_strlit("png");
        assert(crate::paths::is_plain_extension("png"@));
    }
    with_extension(path, "png")
}

/// The counts of what lies at and below a path.
#[derive(Clone, Debug, PartialEq)]
pub struct FilesCounter {
    pub dir_quantity: u64,
    pub file_quantity: u64,
    pub file_quantity_of_types: Vec<(String, u64)>,
    pub file_size_sum: u64,
    pub file_size_of_types: Vec<(String, u64)>,
    pub file_type_quantity: u64,
}

/// The number of bytes in the files at and below a node.
pub open spec fn bytes_in(node: PathNode) -> nat
    decreases node,
{
    if node.is_file {
        node.size as nat
    } else {
        bytes_among(node.children@)
    }
}

pub open spec fn bytes_among(nodes: Seq<PathNode>) -> nat
    decreases nodes,
{
    if nodes.len() == 0 {
        0
    } else {
        bytes_among(nodes.drop_last()) + bytes_in(nodes.last())
    }
}

/// The number of files at and below a node, what is no file counting as a
/// directory to go through.
pub open spec fn counted_files(node: PathNode) -> nat
    decreases node,
{
    if node.is_file {
        1
    } else {
        counted_files_among(node.children@)
    }
}

pub open spec fn counted_files_among(nodes: Seq<PathNode>) -> nat
    decreases nodes,
{
    if nodes.len() == 0 {
        0
    } else {
        counted_files_among(nodes.drop_last()) + counted_files(nodes.last())
    }
}

/// The number of directories at and below a node.
pub open spec fn counted_dirs(node: PathNode) -> nat
    decreases node,
{
    if node.is_file {
        0
    } else {
        1 + counted_dirs_among(node.children@)
    }
}

pub open spec fn counted_dirs_among(nodes: Seq<PathNode>) -> nat
    decreases nodes,
{
    if nodes.len() == 0 {
        0
    } else {
        counted_dirs_among(nodes.drop_last()) + counted_dirs(nodes.last())
    }
}

/// A count that stops at the largest number a `u64` holds.
pub open spec fn capped(n: int) -> u64 {
    if n < 0 {
        0
    } else if n <= u64::MAX {
        n as u64
    } else {
        u64::MAX
    }
}

fn add_capped(a: u64, b: u64) -> (r: u64)
    ensures
        r == capped(a + b),
{
    if a > u64::MAX - b {
        u64::MAX
    } else {
        a + b
    }
}

/// The tallies of the types as plain values.
pub open spec fn tallies(v: Seq<(String, u64)>) -> Seq<(Seq<char>, u64)> {
    Seq::new(v.len(), |i: int| (v[i].0@, v[i].1))
}

/// The place of the first tally of the type `key`.
pub open spec fn tally_place(map: Seq<(Seq<char>, u64)>, key: Seq<char>) -> Option<int>
    decreases map.len(),
{
    if map.len() == 0 {
        None
    } else if map[0].0 == key {
        Some(0int)
    } else {
        match tally_place(map.skip(1), key) {
            Some(i) => Some(i + 1),
            None => None,
        }
    }
}

/// The tallies with `amount` more for the type `key`: added to its first
/// tally, or as a new tally at the end.
pub open spec fn bumped(map: Seq<(Seq<char>, u64)>, key: Seq<char>, amount: u64) -> Seq<
    (Seq<char>, u64),
> {
    match tally_place(map, key) {
        Some(i) => map.update(i, (key, capped(map[i].1 + amount))),
        None => map.push((key, amount)),
    }
}

/// The tallies with every tally of `more` added, one after the other.
pub open spec fn bumped_all(map: Seq<(Seq<char>, u64)>, more: Seq<(Seq<char>, u64)>) -> Seq<
    (Seq<char>, u64),
>
    decreases more.len(),
{
    if more.len() == 0 {
        map
    } else {
        bumped(bumped_all(map, more.drop_last()), more.last().0, more.last().1)
    }
}

fn bump(map: &mut Vec<(String, u64)>, key: &str, amount: u64)
    ensures
        tallies(final(map)@) == bumped(tallies(old(map)@), key@, amount),
{
    let ghost all = tallies(map@);
    proof {
        assert(all.skip(0) =~= all);
    }
    let mut i: usize = 0;
    while i < map.len()
        invariant
            i <= map.len(),
            map@ == old(map)@,
            all == tallies(map@),
            match tally_place(all.skip(i as int), key@) {
                Some(k) => tally_place(all, key@) == Some(k + i),
                None => tally_place(all, key@) is None,
            },
        decreases map.len() - i,
    {
        proof {
            assert(all.skip(i as int).skip(1) =~= all.skip(i + 1));
            assert(all.skip(i as int)[0] == all[i as int]);
        }
        if str_eq(map[i].0.as_str(), key) {
            let held: u64 = map[i].1;
            map[i] = (copy_str(key), add_capped(held, amount));
            proof {
                assert(tallies(map@) =~= all.update(
                    i as int,
                    (key@, capped(all[i as int].1 + amount)),
                ));
            }
            return ;
        }
        i = i + 1;
    }
    map.push((copy_str(key), amount));
    proof {
        assert(tallies(map@) =~= all.push((key@, amount)));
    }
}

/// The counts as plain values.
pub struct CounterModel {
    pub dir_quantity: u64,
    pub file_quantity: u64,
    pub file_quantity_of_types: Seq<(Seq<char>, u64)>,
    pub file_size_sum: u64,
    pub file_size_of_types: Seq<(Seq<char>, u64)>,
    pub file_type_quantity: u64,
}

impl View for FilesCounter {
    type V = CounterModel;

    open spec fn view(&self) -> CounterModel {
        CounterModel {
            dir_quantity: self.dir_quantity,
            file_quantity: self.file_quantity,
            file_quantity_of_types: tallies(self.file_quantity_of_types@),
            file_size_sum: self.file_size_sum,
            file_size_of_types: tallies(self.file_size_of_types@),
            file_type_quantity: self.file_type_quantity,
        }
    }
}

/// The counts before anything is counted.
pub open spec fn nothing_counted() -> CounterModel {
    CounterModel {
        dir_quantity: 0,
        file_quantity: 0,
        file_quantity_of_types: Seq::empty(),
        file_size_sum: 0,
        file_size_of_types: Seq::empty(),
        file_type_quantity: 0,
    }
}

/// The counts after what lies at and below a node is counted: a file with
/// its size, under its extension; a directory as one directory, and then what
/// is in it. The number of types is that of the tallies.
pub open spec fn counted(c: CounterModel, node: PathNode) -> CounterModel
    decreases node,
{
    if node.is_file {
        let ext = or_empty(extension_of(node.path@));
        let quantities = bumped(c.file_quantity_of_types, ext, 1);
        CounterModel {
            dir_quantity: c.dir_quantity,
            file_quantity: capped(c.file_quantity + 1),
            file_quantity_of_types: quantities,
            file_size_sum: capped(c.file_size_sum + node.size),
            file_size_of_types: bumped(c.file_size_of_types, ext, node.size),
            file_type_quantity: capped(quantities.len() as int),
        }
    } else {
        let below = counted_among(
            CounterModel { dir_quantity: capped(c.dir_quantity + 1), ..c },
            node.children@,
        );
        CounterModel {
            file_type_quantity: capped(below.file_quantity_of_types.len() as int),
            ..below
        }
    }
}

pub open spec fn counted_among(c: CounterModel, nodes: Seq<PathNode>) -> CounterModel
    decreases nodes,
{
    if nodes.len() == 0 {
        c
    } else {
        counted(counted_among(c, nodes.drop_last()), nodes.last())
    }
}

/// The sum of two counts, the tallies of the second added to those of the
/// first.
pub open spec fn added(c: CounterModel, other: CounterModel) -> CounterModel {
    let quantities = bumped_all(c.file_quantity_of_types, other.file_quantity_of_types);
    CounterModel {
        dir_quantity: capped(c.dir_quantity + other.dir_quantity),
        file_quantity: capped(c.file_quantity + other.file_quantity),
        file_quantity_of_types: quantities,
        file_size_sum: capped(c.file_size_sum + other.file_size_sum),
        file_size_of_types: bumped_all(c.file_size_of_types, other.file_size_of_types),
        file_type_quantity: capped(quantities.len() as int),
    }
}

/// The tallies as an object: each type with its number.
pub open spec fn tallies_json(map: Seq<(Seq<char>, u64)>) -> JsonModel {
    JsonModel::Object(
        Seq::new(
            map.len(),
            |i: int| (map[i].0, JsonModel::Number(NumberModel::Unsigned(map[i].1))),
        ),
    )
}

/// The counts as the user interface receives them.
pub open spec fn counter_json(c: CounterModel) -> JsonModel {
    JsonModel::Object(
        seq![
            ("dir_quantity"@, JsonModel::Number(NumberModel::Unsigned(c.dir_quantity))),
            ("file_quantity"@, JsonModel::Number(NumberModel::Unsigned(c.file_quantity))),
            ("file_quantity_of_types"@, tallies_json(c.file_quantity_of_types)),
            ("file_size_of_types"@, tallies_json(c.file_size_of_types)),
            ("file_size_sum"@, JsonModel::Number(NumberModel::Unsigned(c.file_size_sum))),
            ("file_type_quantity"@, JsonModel::Number(NumberModel::Unsigned(c.file_type_quantity))),
        ],
    )
}

fn length_of(map: &Vec<(String, u64)>) -> (r: u64)
    ensures
        r == capped(tallies(map@).len() as int),
{
    map.len() as u64
}

impl FilesCounter {
    pub fn new() -> (r: FilesCounter)
        ensures
            r@ == nothing_counted(),
    {
        let r = FilesCounter {
            dir_quantity: 0,
            file_quantity: 0,
            file_quantity_of_types: Vec::new(),
            file_size_sum: 0,
            file_size_of_types: Vec::new(),
            file_type_quantity: 0,
        };
        proof {
            assert(tallies(r.file_quantity_of_types@) =~= Seq::empty());
            assert(tallies(r.file_size_of_types@) =~= Seq::empty());
        }
        r
    }

    /// Counts what lies at and below the node.
    pub fn count(&mut self, node: &PathNode)
        ensures
            final(self)@ == counted(old(self)@, *node),
            final(self).file_quantity == capped(old(self).file_quantity + counted_files(*node)),
            final(self).dir_quantity == capped(old(self).dir_quantity + counted_dirs(*node)),
            final(self).file_size_sum == capped(old(self).file_size_sum + bytes_in(*node)),
        decreases node,
    {
        if node.is_file {
            self.file_quantity = add_capped(self.file_quantity, 1);
            self.file_size_sum = add_capped(self.file_size_sum, node.size);
            let (_, _, ext) = split_file_path(node.path.as_str());
            bump(&mut self.file_quantity_of_types, ext.as_str(), 1);
            bump(&mut self.file_size_of_types, ext.as_str(), node.size);
        } else {
            self.dir_quantity = add_capped(self.dir_quantity, 1);
            let ghost start = self@;
            let mut i: usize = 0;
            proof {
                assert(node.children@.take(0) =~= Seq::<PathNode>::empty());
            }
            while i < node.children.len()
                invariant
                    i <= node.children.len(),
                    self@ == counted_among(start, node.children@.take(i as int)),
                    self.file_quantity == capped(
                        start.file_quantity + counted_files_among(node.children@.take(i as int)),
                    ),
                    self.dir_quantity == capped(
                        start.dir_quantity + counted_dirs_among(node.children@.take(i as int)),
                    ),
                    self.file_size_sum == capped(
                        start.file_size_sum + bytes_among(node.children@.take(i as int)),
                    ),
                decreases node.children.len() - i,
            {
                proof {
                    assert(decreases_to!(*node => node.children));
                    assert(decreases_to!(node.children => node.children@));
                    assert(decreases_to!(node.children@ => node.children@[i as int]));
                    assert(node.children@.take(i + 1).drop_last() =~= node.children@.take(
                        i as int,
                    ));
                    assert(node.children@.take(i + 1).last() == node.children@[i as int]);
                }
                self.count(&node.children[i]);
                i = i + 1;
            }
            proof {
                assert(node.children@.take(node.children@.len() as int) =~= node.children@);
            }
        }
        self.file_type_quantity = length_of(&self.file_quantity_of_types);
    }

    /// Adds the counts of another counter to this one.
    pub fn add(&mut self, other: &FilesCounter)
        ensures
            final(self)@ == added(old(self)@, other@),
    {
        self.dir_quantity = add_capped(self.dir_quantity, other.dir_quantity);
        self.file_quantity = add_capped(self.file_quantity, other.file_quantity);
        self.file_size_sum = add_capped(self.file_size_sum, other.file_size_sum);
        let ghost quantities = tallies(other.file_quantity_of_types@);
        let ghost sizes = tallies(other.file_size_of_types@);
        let mut i: usize = 0;
        proof {
            assert(quantities.take(0) =~= Seq::empty());
        }
        while i < other.file_quantity_of_types.len()
            invariant
                i <= other.file_quantity_of_types.len(),
                quantities == tallies(other.file_quantity_of_types@),
                self.file_quantity == capped(old(self).file_quantity + other.file_quantity),
                self.dir_quantity == capped(old(self).dir_quantity + other.dir_quantity),
                self.file_size_sum == capped(old(self).file_size_sum + other.file_size_sum),
                self.file_size_of_types@ == old(self).file_size_of_types@,
                tallies(self.file_quantity_of_types@) == bumped_all(
                    old(self)@.file_quantity_of_types,
                    quantities.take(i as int),
                ),
            decreases other.file_quantity_of_types.len() - i,
        {
            proof {
                assert(quantities.take(i + 1).drop_last() =~= quantities.take(i as int));
                assert(quantities.take(i + 1).last() == quantities[i as int]);
            }
            let entry = &other.file_quantity_of_types[i];
            bump(&mut self.file_quantity_of_types, entry.0.as_str(), entry.1);
            i = i + 1;
        }
        let mut k: usize = 0;
        proof {
            assert(quantities.take(quantities.len() as int) =~= quantities);
            assert(sizes.take(0) =~= Seq::empty());
        }
        while k < other.file_size_of_types.len()
            invariant
                k <= other.file_size_of_types.len(),
                sizes == tallies(other.file_size_of_types@),
                self.file_quantity == capped(old(self).file_quantity + other.file_quantity),
                self.dir_quantity == capped(old(self).dir_quantity + other.dir_quantity),
                self.file_size_sum == capped(old(self).file_size_sum + other.file_size_sum),
                tallies(self.file_quantity_of_types@) == bumped_all(
                    old(self)@.file_quantity_of_types,
                    quantities,
                ),
                tallies(self.file_size_of_types@) == bumped_all(
                    old(self)@.file_size_of_types,
                    sizes.take(k as int),
                ),
            decreases other.file_size_of_types.len() - k,
        {
            proof {
                assert(sizes.take(k + 1).drop_last() =~= sizes.take(k as int));
                assert(sizes.take(k + 1).last() == sizes[k as int]);
            }
            let entry = &other.file_size_of_types[k];
            bump(&mut self.file_size_of_types, entry.0.as_str(), entry.1);
            k = k + 1;
        }
        proof {
            assert(sizes.take(sizes.len() as int) =~= sizes);
        }
        self.file_type_quantity = length_of(&self.file_quantity_of_types);
    }

    /// The counts as the user interface receives them.
    pub fn to_json(&self) -> (r: Json)
        ensures
            r@ == counter_json(self@),
    {
        let mut entries: Vec<(String, Json)> = Vec::new();
        proof {
            crate::json::lemma_entry_trees(entries@);
        }
        push_entry(&mut entries, "dir_quantity", Json::unsigned(self.dir_quantity));
        push_entry(&mut entries, "file_quantity", Json::unsigned(self.file_quantity));
        push_entry(&mut entries, "file_quantity_of_types", numbers_json(&self.file_quantity_of_types));
        push_entry(&mut entries, "file_size_of_types", numbers_json(&self.file_size_of_types));
        push_entry(&mut entries, "file_size_sum", Json::unsigned(self.file_size_sum));
        push_entry(&mut entries, "file_type_quantity", Json::unsigned(self.file_type_quantity));
        proof {
            assert(entry_trees(entries@) =~= counter_json(self@)->Object_0);
        }
        Json::Object(entries)
    }
}

/// A map from texts to numbers as an object.
pub fn numbers_json(map: &Vec<(String, u64)>) -> (r: Json)
    ensures
        r@ == tallies_json(tallies(map@)),
{
    let mut entries: Vec<(String, Json)> = Vec::new();
    let mut i: usize = 0;
    proof {
        crate::json::lemma_entry_trees(entries@);
    }
    while i < map.len()
        invariant
            i <= map.len(),
            entry_trees(entries@).len() == i,
            forall|k: int|
                0 <= k < i ==> (#[trigger] entry_trees(entries@)[k]) == (
                    map@[k].0@,
                    JsonModel::Number(NumberModel::Unsigned(map@[k].1)),
                ),
        decreases map.len() - i,
    {
        push_entry(&mut entries, map[i].0.as_str(), Json::unsigned(map[i].1));
        i = i + 1;
    }
    proof {
        assert(entry_trees(entries@) =~= tallies_json(tallies(map@))->Object_0);
    }
    Json::Object(entries)
}

} // verus!
