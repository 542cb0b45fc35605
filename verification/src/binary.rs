//! Cutting a file into parts of a given size, and putting the parts together
//! again.

use crate::errors::{failure, CommandError, ErrorKind, ErrorModel};
use crate::json::{Json, JsonModel};
use crate::params::{get_optional_string, get_string_val_from_params, input_file_keys, str_views, string_param};
use crate::paths::{
    file_name, file_name_of, file_stem_of, extension_of, holds_text, join_path, joined, list_holds,
    or_empty, parent, parent_of, split_file_path,
};
use crate::result::{plain_success, CommandResult, ResultModel};
use crate::text::{
    chars_of, concat3, concat5, ends_with, has_suffix, matches_at, pad3, padded3, string_between,
    views,
};
use vstd::prelude::*;
use vstd::string::StringExecFns;

verus! {

/// The size of a part where the request names none: one mebibyte.
pub const DEFAULT_CHUNK_SIZE: u64 = 1048576;

/// The contents of a list of byte vectors.
pub open spec fn byte_views(parts: Seq<Vec<u8>>) -> Seq<Seq<u8>> {
    Seq::new(parts.len(), |i: int| parts[i]@)
}

/// The bytes cut into parts of `size` bytes, the last part holding what is
/// left. No bytes, or parts of no size, give no parts.
pub open spec fn chunks(data: Seq<u8>, size: nat) -> Seq<Seq<u8>>
    decreases data.len(),
{
    if size == 0 || data.len() == 0 {
        Seq::empty()
    } else if data.len() <= size {
        seq![data]
    } else {
        seq![data.take(size as int)] + chunks(data.skip(size as int), size)
    }
}

/// The parts, one after the other.
pub open spec fn joined_bytes(parts: Seq<Seq<u8>>) -> Seq<u8>
    decreases parts.len(),
{
    if parts.len() == 0 {
        Seq::empty()
    } else {
        joined_bytes(parts.drop_last()) + parts.last()
    }
}

/// The name of part `index` of a file: stem, extension, and the index in at
/// least three digits, with dots between.
pub open spec fn part_name(stem: Seq<char>, ext: Seq<char>, index: nat) -> Seq<char> {
    stem + "."@ + ext + "."@ + padded3(index)
}

pub proof fn lemma_joined_bytes_front(first: Seq<u8>, rest: Seq<Seq<u8>>)
    ensures
        joined_bytes(seq![first] + rest) == first + joined_bytes(rest),
    decreases rest.len(),
{
    let all = seq![first] + rest;
    if rest.len() == 0 {
        assert(all.drop_last() =~= Seq::<Seq<u8>>::empty());
        assert(all.last() == first);
        assert(joined_bytes(all.drop_last()) =~= Seq::<u8>::empty());
        assert(joined_bytes(all) =~= first);
        assert(first + joined_bytes(rest) =~= first);
    } else {
        assert(all.drop_last() =~= seq![first] + rest.drop_last());
        assert(all.last() == rest.last());
        lemma_joined_bytes_front(first, rest.drop_last());
        assert((first + joined_bytes(rest.drop_last())) + rest.last() =~= first + (joined_bytes(
            rest.drop_last(),
        ) + rest.last()));
    }
}

/// The parts of a file, put together in their order, are the file.
pub proof fn law_join_undoes_split(data: Seq<u8>, size: nat)
    requires
        size > 0,
    ensures
        joined_bytes(chunks(data, size)) == data,
    decreases data.len(),
{
    if data.len() == 0 {
        assert(joined_bytes(chunks(data, size)) =~= data);
    } else if data.len() <= size {
        let one = seq![data];
        assert(one.drop_last() =~= Seq::<Seq<u8>>::empty());
        assert(one.last() == data);
        assert(joined_bytes(one.drop_last()) =~= Seq::<u8>::empty());
        assert(joined_bytes(one) =~= data);
    } else {
        law_join_undoes_split(data.skip(size as int), size);
        lemma_joined_bytes_front(data.take(size as int), chunks(data.skip(size as int), size));
        assert(data.take(size as int) + data.skip(size as int) =~= data);
    }
}

/// Every part but the last has the full size, the last has what is left, and
/// there are as many parts as the size goes into the length, rounded up.
pub proof fn law_parts_have_the_size(data: Seq<u8>, size: nat)
    requires
        size > 0,
    ensures
        chunks(data, size).len() == (data.len() + size - 1) / size as int,
        forall|i: int|
            0 <= i < chunks(data, size).len() - 1 ==> (#[trigger] chunks(data, size)[i]).len()
                == size,
        chunks(data, size).len() > 0 ==> chunks(data, size).last().len() == data.len() - (chunks(
            data,
            size,
        ).len() - 1) * size,
    decreases data.len(),
{
    if data.len() == 0 {
        assert((0 + size - 1) / size as int == 0) by (nonlinear_arith)
            requires
                size > 0,
        ;
    } else if data.len() <= size {
        assert((data.len() + size - 1) / size as int == 1) by (nonlinear_arith)
            requires
                0 < data.len() <= size,
        ;
        assert(chunks(data, size) =~= seq![data]);
        assert(chunks(data, size).last() == data);
        assert((chunks(data, size).len() - 1) * size == 0) by (nonlinear_arith)
            requires
                chunks(data, size).len() == 1,
        ;
    } else {
        let rest = data.skip(size as int);
        law_parts_have_the_size(rest, size);
        let tail = chunks(rest, size);
        let all = chunks(data, size);
        assert(all =~= seq![data.take(size as int)] + tail);
        assert((data.len() + size - 1) / size as int == (rest.len() + size - 1) / size as int + 1)
            by (nonlinear_arith)
            requires
                rest.len() == data.len() - size,
                size > 0,
        ;
        assert(tail.len() > 0) by (nonlinear_arith)
            requires
                tail.len() == (rest.len() + size - 1) / size as int,
                rest.len() > 0,
                size > 0,
        ;
        assert forall|i: int| 0 <= i < all.len() - 1 implies (#[trigger] all[i]).len() == size by {
            if i > 0 {
                assert(all[i] == tail[i - 1]);
            }
        }
        assert(all.last() == tail.last());
        assert(data.len() - (all.len() - 1) * size == rest.len() - (tail.len() - 1) * size)
            by (nonlinear_arith)
            requires
                all.len() == tail.len() + 1,
                rest.len() == data.len() - size,
        ;
    }
}

/// Cuts the bytes into parts of `chunk_size` bytes.
pub fn split_in_bytes(data: &Vec<u8>, chunk_size: u64) -> (r: Vec<Vec<u8>>)
    ensures
        byte_views(r@) == chunks(data@, chunk_size as nat),
{
    let mut parts: Vec<Vec<u8>> = Vec::new();
    if chunk_size == 0 || data.len() == 0 {
        proof {
            assert(byte_views(parts@) =~= Seq::<Seq<u8>>::empty());
        }
        return parts;
    }
    let mut start: usize = 0;
    proof {
        assert(data@.skip(0) =~= data@);
        assert(byte_views(parts@) + chunks(data@, chunk_size as nat) =~= chunks(
            data@,
            chunk_size as nat,
        ));
    }
    while start < data.len()
        invariant
            start <= data.len(),
            chunk_size > 0,
            byte_views(parts@) + chunks(data@.skip(start as int), chunk_size as nat) == chunks(
                data@,
                chunk_size as nat,
            ),
        decreases data.len() - start,
    {
        let left: usize = data.len() - start;
        let take: usize = if (left as u64) <= chunk_size {
            left
        } else {
            chunk_size as usize
        };
        let mut part: Vec<u8> = Vec::new();
        let mut k: usize = 0;
        while k < take
            invariant
                k <= take,
                start + take <= data.len(),
                part@ == data@.subrange(start as int, start + k),
            decreases take - k,
        {
            part.push(data[start + k]);
            proof {
                assert(data@.subrange(start as int, start + k + 1) =~= data@.subrange(
                    start as int,
                    start + k,
                ).push(data@[start + k]));
            }
            k = k + 1;
        }
        proof {
            let rest = data@.skip(start as int);
            assert(part@ =~= rest.take(take as int));
            assert(rest.skip(take as int) =~= data@.skip(start + take));
            if rest.len() <= chunk_size {
                assert(part@ =~= rest);
                assert(data@.skip(start + take).len() == 0);
                assert(chunks(rest, chunk_size as nat) =~= seq![part@] + chunks(
                    data@.skip(start + take),
                    chunk_size as nat,
                ));
            }
            assert(byte_views(parts@.push(part)) =~= byte_views(parts@) + seq![part@]);
            assert((byte_views(parts@) + seq![part@]) + chunks(
                data@.skip(start + take),
                chunk_size as nat,
            ) =~= byte_views(parts@) + (seq![part@] + chunks(
                data@.skip(start + take),
                chunk_size as nat,
            )));
        }
        parts.push(part);
        start = start + take;
    }
    proof {
        assert(data@.skip(data@.len() as int).len() == 0);
        assert(byte_views(parts@) + Seq::<Seq<u8>>::empty() =~= byte_views(parts@));
    }
    parts
}

/// Puts the parts together, in the order given.
pub fn join_in_bytes(parts: &Vec<Vec<u8>>) -> (r: Vec<u8>)
    ensures
        r@ == joined_bytes(byte_views(parts@)),
{
    let mut out: Vec<u8> = Vec::new();
    let mut i: usize = 0;
    proof {
        assert(byte_views(parts@).take(0) =~= Seq::<Seq<u8>>::empty());
    }
    while i < parts.len()
        invariant
            i <= parts.len(),
            out@ == joined_bytes(byte_views(parts@).take(i as int)),
        decreases parts.len() - i,
    {
        let part = &parts[i];
        let ghost before = out@;
        let mut k: usize = 0;
        while k < part.len()
            invariant
                k <= part.len(),
                out@ == before + part@.take(k as int),
            decreases part.len() - k,
        {
            out.push(part[k]);
            proof {
                assert(part@.take(k + 1) =~= part@.take(k as int).push(part@[k as int]));
                assert(before + part@.take(k + 1) =~= (before + part@.take(k as int)).push(
                    part@[k as int],
                ));
            }
            k = k + 1;
        }
        proof {
            assert(part@.take(part@.len() as int) =~= part@);
            assert(byte_views(parts@).take(i + 1).drop_last() =~= byte_views(parts@).take(i as int));
            assert(byte_views(parts@).take(i + 1).last() == part@);
        }
        i = i + 1;
    }
    proof {
        assert(byte_views(parts@).take(parts@.len() as int) =~= byte_views(parts@));
    }
    out
}

/// The path of part `index` of `file_path` in `output_dir`.
pub fn part_path(file_path: &str, output_dir: &str, index: u64) -> (r: String)
    ensures
        r@ == joined(
            output_dir@,
            part_name(
                or_empty(file_stem_of(file_path@)),
                or_empty(extension_of(file_path@)),
                index as nat,
            ),
        ),
{
    let (_, stem, ext) = split_file_path(file_path);
    let number = pad3(index);
    let name = concat5(stem.as_str(), ".", ext.as_str(), ".", number.as_str());
    join_path(output_dir, name.as_str())
}

/// The number of parts into which `length` bytes are cut.
pub fn part_count(length: u64, chunk_size: u64) -> (r: u64)
    ensures
        chunk_size == 0 ==> r == 0,
        chunk_size > 0 ==> r == (length + chunk_size - 1) / chunk_size as int,
{
    if chunk_size == 0 {
        0
    } else {
        let full = length / chunk_size;
        let left = length % chunk_size;
        proof {
            assert((length + chunk_size - 1) / chunk_size as int == if left == 0 {
                full as int
            } else {
                full + 1
            }) by (nonlinear_arith)
                requires
                    chunk_size > 0,
                    full == length / chunk_size,
                    left == length % chunk_size,
            ;
        }
        if left == 0 {
            full
        } else {
            proof {
                assert(full < length) by (nonlinear_arith)
                    requires
                        chunk_size > 0,
                        full == length / chunk_size,
                        left == length % chunk_size,
                        left > 0,
                ;
            }
            full + 1
        }
    }
}

/// What a request to split a file asks for.
#[derive(Clone, Debug, PartialEq)]
pub struct SplitRequest {
    pub input_file: String,
    pub chunk_size: u64,
    pub output_dir: String,
}

pub open spec fn output_dir_keys() -> Seq<Seq<char>> {
    seq!["output_dir"@]
}

/// The size of a part that a request names: one mebibyte where it names none.
pub open spec fn chunk_size_param(params: JsonModel) -> Result<u64, ErrorModel> {
    match params.field("chunk_size"@) {
        None => Ok(DEFAULT_CHUNK_SIZE),
        Some(v) => match v.as_unsigned() {
            Some(n) => Ok(n),
            None => Err(failure(ErrorKind::Param, "chunk_size must be an integer"@)),
        },
    }
}

/// Reads a request to split a file: the file, the directory for the parts, and
/// the size of a part, one mebibyte where none is named.
pub fn split_file_in_bytes(params: &Json) -> (r: Result<SplitRequest, CommandError>)
    ensures
        match string_param(params@, input_file_keys()) {
            Err(e) => r is Err && r->Err_0@ == e,
            Ok(input) => match chunk_size_param(params@) {
                Err(e) => r is Err && r->Err_0@ == e,
                Ok(size) => match string_param(params@, output_dir_keys()) {
                    Err(e) => r is Err && r->Err_0@ == e,
                    Ok(dir) => r is Ok && r->Ok_0.input_file@ == input && r->Ok_0.output_dir@
                        == dir && r->Ok_0.chunk_size == size,
                },
            },
        },
{
    let mut keys: Vec<&str> = Vec::new();
    keys.push("input_file");
    keys.push("input_path");
    proof {
        assert(str_views(keys@) =~= input_file_keys());
    }
    let input_file = match get_string_val_from_params(keys, params) {
        Ok(s) => s,
        Err(e) => {
            return Err(e);
        },
    };
    let chunk_size: u64 = match params.get("chunk_size") {
        Some(v) => match v.as_u64() {
            Some(n) => n,
            None => {
                return Err(CommandError::new(ErrorKind::Param, "chunk_size must be an integer"));
            },
        },
        None => DEFAULT_CHUNK_SIZE,
    };
    let mut dir_keys: Vec<&str> = Vec::new();
    dir_keys.push("output_dir");
    proof {
        assert(str_views(dir_keys@) =~= output_dir_keys());
    }
    let output_dir = match get_string_val_from_params(dir_keys, params) {
        Ok(s) => s,
        Err(e) => {
            return Err(e);
        },
    };
    Ok(SplitRequest { input_file, chunk_size, output_dir })
}

/// `s` without `suffix` at its end, taken away as often as it stands there.
pub open spec fn without_suffix(s: Seq<char>, suffix: Seq<char>) -> Seq<char>
    decreases s.len(),
{
    if suffix.len() > 0 && has_suffix(s, suffix) {
        without_suffix(s.take(s.len() - suffix.len()), suffix)
    } else {
        s
    }
}

pub fn trim_end_matches(s: &str, suffix: &str) -> (r: String)
    ensures
        r@ == without_suffix(s@, suffix@),
{
    let sv = chars_of(s);
    let pv = chars_of(suffix);
    let mut end: usize = sv.len();
    proof {
        assert(sv@.take(sv@.len() as int) =~= sv@);
    }
    if pv.len() == 0 {
        return string_between(&sv, 0, end);
    }
    while end >= pv.len() && matches_at(&sv, end - pv.len(), &pv)
        invariant
            end <= sv.len(),
            pv.len() > 0,
            without_suffix(sv@.take(end as int), pv@) == without_suffix(sv@, pv@),
        decreases end,
    {
        proof {
            let cur = sv@.take(end as int);
            assert(cur.subrange(end - pv.len(), end as int) =~= sv@.subrange(
                end - pv.len(),
                end as int,
            ));
            assert(cur.take(cur.len() - pv.len()) =~= sv@.take(end - pv.len()));
        }
        end = end - pv.len();
    }
    proof {
        let cur = sv@.take(end as int);
        if end >= pv.len() {
            assert(cur.subrange(end - pv.len(), end as int) =~= sv@.subrange(
                end - pv.len(),
                end as int,
            ));
        }
        assert(sv@.subrange(0, end as int) =~= cur);
    }
    string_between(&sv, 0, end)
}

/// What a request to join the parts of a file asks for.
#[derive(Clone, Debug, PartialEq)]
pub struct JoinRequest {
    /// The first part.
    pub input_file: String,
    /// The directory of the parts.
    pub input_dir: String,
    /// The name that all parts share, before the dot and the index.
    pub base_name: String,
    /// The file that is put together.
    pub output_file: String,
}

/// Reads a request to join the parts of a file. The input has to be the first
/// part, `….001`; the output is the input without that ending, unless the
/// request names another.
pub fn join_files_in_bytes(params: &Json) -> (r: Result<JoinRequest, CommandError>)
    ensures
        match string_param(params@, input_file_keys()) {
            Err(e) => r is Err && r->Err_0@ == e,
            Ok(input) => if !has_suffix(input, ".001"@) {
                r is Err && r->Err_0@ == failure(ErrorKind::Param, "Not found .001 file"@)
            } else if file_name_of(input) is None {
                r is Err && r->Err_0@ == failure(ErrorKind::Param, "Invalid file name"@)
            } else if params@.field("output_file"@) is Some && !(params@.field(
                "output_file"@,
            )->Some_0 is String) {
                r is Err && r->Err_0@ == failure(
                    ErrorKind::Param,
                    "Invalid parameter `output_file`"@,
                )
            } else if parent_of(input) is None {
                r is Err && r->Err_0@ == failure(ErrorKind::Param, "Invalid parent directory"@)
            } else {
                &&& r is Ok
                &&& r->Ok_0.input_file@ == input
                &&& r->Ok_0.input_dir@ == parent_of(input)->Some_0
                &&& r->Ok_0.base_name@ == without_suffix(file_name_of(input)->Some_0, ".001"@)
                &&& r->Ok_0.output_file@ == if params@.member("output_file"@).text_or_empty().len()
                    > 0 {
                    params@.member("output_file"@).text_or_empty()
                } else {
                    without_suffix(input, ".001"@)
                }
            },
        },
{
    let mut keys: Vec<&str> = Vec::new();
    keys.push("input_file");
    keys.push("input_path");
    proof {
        assert(str_views(keys@) =~= input_file_keys());
    }
    let input_file = match get_string_val_from_params(keys, params) {
        Ok(s) => s,
        Err(e) => {
            return Err(e);
        },
    };
    if !ends_with(input_file.as_str(), ".001") {
        return Err(CommandError::new(ErrorKind::Param, "Not found .001 file"));
    }
    let name = match file_name(input_file.as_str()) {
        Some(n) => n,
        None => {
            return Err(CommandError::new(ErrorKind::Param, "Invalid file name"));
        },
    };
    let base_name = trim_end_matches(name.as_str(), ".001");
    let named = match get_optional_string(params, "output_file", "Invalid parameter `output_file`") {
        Ok(o) => o,
        Err(e) => {
            return Err(e);
        },
    };
    let output_file = match named {
        Some(o) => {
            if o.as_str().is_empty() {
                trim_end_matches(input_file.as_str(), ".001")
            } else {
                o
            }
        },
        None => trim_end_matches(input_file.as_str(), ".001"),
    };
    let input_dir = match parent(input_file.as_str()) {
        Some(d) => d,
        None => {
            return Err(CommandError::new(ErrorKind::Param, "Invalid parent directory"));
        },
    };
    Ok(JoinRequest { input_file, input_dir, base_name, output_file })
}

/// The path at which part `index` of a join is looked for.
pub open spec fn join_candidate(request: JoinRequest, index: nat) -> Seq<char> {
    joined(request.input_dir@, request.base_name@ + "."@ + padded3(index))
}

pub fn join_part_path(request: &JoinRequest, index: u64) -> (r: String)
    ensures
        r@ == join_candidate(*request, index as nat),
{
    let number = pad3(index);
    let name = concat3(request.base_name.as_str(), ".", number.as_str());
    join_path(request.input_dir.as_str(), name.as_str())
}

/// The parts that a join puts together, in the order in which they are put
/// together: part 1, part 2 and so on, as long as each is among the files
/// that exist.
pub fn join_sources(request: &JoinRequest, existing: &Vec<String>) -> (r: Vec<String>)
    ensures
        r@.len() <= existing@.len(),
        forall|i: int|
            0 <= i < r@.len() ==> (#[trigger] r@[i])@ == join_candidate(*request, (i + 1) as nat)
                && holds_text(existing@, r@[i]@),
        r@.len() < existing@.len() ==> !holds_text(
            existing@,
            join_candidate(*request, (r@.len() + 1) as nat),
        ),
{
    let mut found: Vec<String> = Vec::new();
    while found.len() < existing.len()
        invariant
            found@.len() <= existing@.len(),
            forall|i: int|
                0 <= i < found@.len() ==> (#[trigger] found@[i])@ == join_candidate(
                    *request,
                    (i + 1) as nat,
                ) && holds_text(existing@, found@[i]@),
        decreases existing.len() - found.len(),
    {
        let index: u64 = (found.len() + 1) as u64;
        let candidate = join_part_path(request, index);
        if !list_holds(existing, candidate.as_str()) {
            return found;
        }
        found.push(candidate);
    }
    found
}

/// The outcome of a split: the paths of the parts.
pub fn split_done(output_files: Vec<String>) -> (r: CommandResult)
    ensures
        r@ == (ResultModel { output_paths: views(output_files@), ..plain_success() }),
{
    let mut done = CommandResult::default();
    done.output_paths = output_files;
    done
}

/// The outcome of a join: the path of the file.
pub fn join_done(output_file: &str) -> (r: CommandResult)
    ensures
        r@ == (ResultModel { output_paths: seq![output_file@], ..plain_success() }),
{
    let mut done = CommandResult::default();
    done.add_output_path(output_file);
    proof {
        assert(done@.output_paths =~= seq![output_file@]);
    }
    done
}

} // verus!
