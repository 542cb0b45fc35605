//! Paths as texts, taken apart and put together by the standard library's
//! rules for the platform, and what is on disk as a value.

use crate::errors::{failure, CommandError, ErrorKind};
use crate::text::{
    chars_of, concat2, concat3, copy_str, decimal, has_prefix, starts_with, str_eq,
    string_between, u64_to_string,
};
use vstd::prelude::*;
use vstd::string::StringExecFns;

verus! {

/// `base` with `part` joined to it, as `Path::join` does it for the platform
/// that the library is built for. Nothing is stated of it here: it depends
/// on the two texts alone.
pub uninterp spec fn joined(base: Seq<char>, part: Seq<char>) -> Seq<char>;

/// The path without its final component, where it has one, as `Path::parent`
/// gives it.
pub uninterp spec fn parent_of(path: Seq<char>) -> Option<Seq<char>>;

/// The final component of the path, where it has one, as `Path::file_name`
/// gives it.
pub uninterp spec fn file_name_of(path: Seq<char>) -> Option<Seq<char>>;

/// The final component without its extension, as `Path::file_stem` gives it.
pub uninterp spec fn file_stem_of(path: Seq<char>) -> Option<Seq<char>>;

/// What follows the last dot of the final component, as `Path::extension`
/// gives it.
pub uninterp spec fn extension_of(path: Seq<char>) -> Option<Seq<char>>;

/// The path with the extension of its final component set to `ext`, as
/// `Path::with_extension` gives it.
pub uninterp spec fn with_extension_of(path: Seq<char>, ext: Seq<char>) -> Seq<char>;

/// The lower-case form of a text, as `str::to_lowercase` gives it.
pub uninterp spec fn lowercase(s: Seq<char>) -> Seq<char>;

/// `Path::join` of the standard library, on texts.
#[verifier::external_body]
pub(crate) fn join_path(base: &str, part: &str) -> (r: String)
    ensures
        r@ == joined(base@, part@),
{
    std::path::Path::new(base).join(part).to_string_lossy().into_owned()
}

/// `Path::parent` of the standard library, on texts.
#[verifier::external_body]
pub(crate) fn parent(path: &str) -> (r: Option<String>)
    ensures
        match r {
            Some(p) => parent_of(path@) == Some(p@),
            None => parent_of(path@) is None,
        },
{
    std::path::Path::new(path).parent().map(|p| p.to_string_lossy().into_owned())
}

/// `Path::file_name` of the standard library, on texts.
#[verifier::external_body]
pub(crate) fn file_name(path: &str) -> (r: Option<String>)
    ensures
        match r {
            Some(p) => file_name_of(path@) == Some(p@),
            None => file_name_of(path@) is None,
        },
{
    std::path::Path::new(path).file_name().map(|p| p.to_string_lossy().into_owned())
}

/// `Path::file_stem` of the standard library, on texts.
#[verifier::external_body]
pub(crate) fn file_stem(path: &str) -> (r: Option<String>)
    ensures
        match r {
            Some(p) => file_stem_of(path@) == Some(p@),
            None => file_stem_of(path@) is None,
        },
{
    std::path::Path::new(path).file_stem().map(|p| p.to_string_lossy().into_owned())
}

/// `Path::extension` of the standard library, on texts.
#[verifier::external_body]
pub(crate) fn extension(path: &str) -> (r: Option<String>)
    ensures
        match r {
            Some(p) => extension_of(path@) == Some(p@),
            None => extension_of(path@) is None,
        },
{
    std::path::Path::new(path).extension().map(|p| p.to_string_lossy().into_owned())
}

/// An extension that holds no path separator of any platform.
pub open spec fn is_plain_extension(ext: Seq<char>) -> bool {
    forall|i: int| 0 <= i < ext.len() ==> ext[i] != '/' && ext[i] != '\\'
}

/// `Path::with_extension` of the standard library, on texts. The standard
/// library panics on an extension that holds a path separator, so none may
/// be handed over.
#[verifier::external_body]
pub(crate) fn with_extension(path: &str, ext: &str) -> (r: String)
    requires
        is_plain_extension(ext@),
    ensures
        r@ == with_extension_of(path@, ext@),
{
    std::path::Path::new(path).with_extension(ext).to_string_lossy().into_owned()
}

/// `str::to_lowercase` of the standard library.
#[verifier::external_body]
pub(crate) fn to_lowercase(s: &str) -> (r: String)
    ensures
        r@ == lowercase(s@),
{
    s.to_lowercase()
}

/// The text of an optional component, empty where there is none.
pub open spec fn or_empty(part: Option<Seq<char>>) -> Seq<char> {
    match part {
        Some(p) => p,
        None => Seq::empty(),
    }
}

fn text_or_empty(part: Option<String>) -> (r: String)
    ensures
        r@ == or_empty(
            match part {
                Some(p) => Some(p@),
                None => None,
            },
        ),
{
    match part {
        Some(p) => p,
        None => String::new(),
    }
}

/// Splits a path into its directory, the stem of its final component and the
/// extension of that component, each empty where the path has none.
pub fn split_file_path(file_path: &str) -> (r: (String, String, String))
    ensures
        r.0@ == or_empty(parent_of(file_path@)),
        r.1@ == or_empty(file_stem_of(file_path@)),
        r.2@ == or_empty(extension_of(file_path@)),
{
    let dir = text_or_empty(parent(file_path));
    let stem = text_or_empty(file_stem(file_path));
    let ext = text_or_empty(extension(file_path));
    (dir, stem, ext)
}

/// A path under the home directory, written with `~` for the home directory
/// at its front; what follows the home directory stays as it is.
pub open spec fn relative_with_home(path: Seq<char>, home: Option<Seq<char>>) -> Seq<char> {
    match home {
        None => path,
        Some(h) => if h.len() == 0 || !has_prefix(path, h) {
            path
        } else {
            "~"@ + path.skip(h.len() as int)
        },
    }
}

/// Writes `~` for the home directory in a path that lies under it. A path
/// elsewhere, or any path where the home directory is unknown, is returned as
/// it is.
pub fn get_relative_path_with_home_dir(path: &str, home_dir: Option<&str>) -> (r: String)
    ensures
        r@ == relative_with_home(path@, optional_text(home_dir)),
{
    match home_dir {
        None => copy_str(path),
        Some(home) => {
            if home.is_empty() || !starts_with(path, home) {
                copy_str(path)
            } else {
                let chars = chars_of(path);
                let from = chars_of(home).len();
                let rest = string_between(&chars, from, chars.len());
                proof {
                    assert(chars@.subrange(from as int, chars@.len() as int) =~= path@.skip(
                        from as int,
                    ));
                }
                concat2("~", rest.as_str())
            }
        },
    }
}

/// A path that begins with `~` and the separator, with the home directory
/// written out in place of that `~`; what follows stays as it is. `sep` is
/// the platform's separator.
pub open spec fn absolute_with_home(path: Seq<char>, home: Option<Seq<char>>, sep: char) -> Seq<
    char,
> {
    match home {
        None => path,
        Some(h) => if h.len() == 0 || !has_prefix(path, "~"@.push(sep)) {
            path
        } else {
            h + path.skip(1)
        },
    }
}

/// Writes the home directory out in a path that begins with `~`.
pub fn get_absolute_path_with_home_dir(path: &str, home_dir: Option<&str>, separator: char) -> (r:
    String)
    ensures
        r@ == absolute_with_home(path@, optional_text(home_dir), separator),
{
    match home_dir {
        None => copy_str(path),
        Some(home) => {
            let mut front = String::from_str("~");
            front.push(separator);
            if home.is_empty() || !starts_with(path, front.as_str()) {
                copy_str(path)
            } else {
                let chars = chars_of(path);
                let rest = string_between(&chars, 1, chars.len());
                proof {
                    assert(chars@.subrange(1, chars@.len() as int) =~= path@.skip(1));
                }
                concat2(home, rest.as_str())
            }
        },
    }
}

/// The name that the given attempt tries: `stem.ext` at first, then `stem-1.ext`,
/// `stem-2.ext` and so on, in the directory of the path.
pub open spec fn unique_candidate(
    file_path: Seq<char>,
    new_stem: Option<Seq<char>>,
    new_ext: Option<Seq<char>>,
    attempt: nat,
) -> Seq<char> {
    let dir = or_empty(parent_of(file_path));
    let stem = match new_stem {
        Some(s) => s,
        None => or_empty(file_stem_of(file_path)),
    };
    let ext = match new_ext {
        Some(e) => e,
        None => or_empty(extension_of(file_path)),
    };
    if attempt == 0 {
        joined(dir, stem + "."@ + ext)
    } else {
        joined(dir, stem + "-"@ + decimal(attempt) + "."@ + ext)
    }
}

/// The path that the given attempt at a free name tries.
pub fn get_unique_candidate(
    file_path: &str,
    new_stem: Option<&str>,
    new_ext: Option<&str>,
    attempt: u64,
) -> (r: String)
    ensures
        r@ == unique_candidate(
            file_path@,
            optional_text(new_stem),
            optional_text(new_ext),
            attempt as nat,
        ),
{
    let (dir, old_stem, old_ext) = split_file_path(file_path);
    let stem = match new_stem {
        Some(s) => copy_str(s),
        None => old_stem,
    };
    let ext = match new_ext {
        Some(e) => copy_str(e),
        None => old_ext,
    };
    if attempt == 0 {
        let name = concat3(stem.as_str(), ".", ext.as_str());
        join_path(dir.as_str(), name.as_str())
    } else {
        let number = u64_to_string(attempt);
        let name = crate::text::concat5(stem.as_str(), "-", number.as_str(), ".", ext.as_str());
        join_path(dir.as_str(), name.as_str())
    }
}

/// `taken` holds the text `t`.
pub open spec fn holds_text(taken: Seq<String>, t: Seq<char>) -> bool {
    exists|i: int| 0 <= i < taken.len() && (#[trigger] taken[i])@ == t
}

pub fn list_holds(taken: &Vec<String>, t: &str) -> (r: bool)
    ensures
        r == holds_text(taken@, t@),
{
    let mut i: usize = 0;
    while i < taken.len()
        invariant
            i <= taken.len(),
            forall|k: int| 0 <= k < i ==> (#[trigger] taken@[k])@ != t@,
        decreases taken.len() - i,
    {
        if str_eq(taken[i].as_str(), t) {
            return true;
        }
        i = i + 1;
    }
    false
}

/// The view of an optional text.
pub open spec fn optional_text(o: Option<&str>) -> Option<Seq<char>> {
    match o {
        Some(s) => Some(s@),
        None => None,
    }
}

/// Attempt `n` is free, and every attempt before it is taken.
pub open spec fn is_first_free(
    file_path: Seq<char>,
    new_stem: Option<Seq<char>>,
    new_ext: Option<Seq<char>>,
    taken: Seq<String>,
    n: nat,
) -> bool {
    &&& !holds_text(taken, unique_candidate(file_path, new_stem, new_ext, n))
    &&& forall|m: nat|
        m < n ==> holds_text(taken, #[trigger] unique_candidate(file_path, new_stem, new_ext, m))
}

/// A path for `file_path`, with the stem and the extension replaced where they
/// are given, that is not among the `taken` ones: the first free one of
/// `stem.ext`, `stem-1.ext`, `stem-2.ext` and so on.
pub fn get_unique_filepath(
    file_path: &str,
    new_stem: Option<&str>,
    new_ext: Option<&str>,
    taken: &Vec<String>,
) -> (r: Result<String, CommandError>)
    ensures
        match r {
            Ok(p) => exists|n: nat|
                p@ == unique_candidate(
                    file_path@,
                    optional_text(new_stem),
                    optional_text(new_ext),
                    n,
                ) && #[trigger] is_first_free(
                    file_path@,
                    optional_text(new_stem),
                    optional_text(new_ext),
                    taken@,
                    n,
                ),
            Err(e) => e@ == failure(ErrorKind::Io, "Invalid new file path"@) && forall|m: nat|
                m <= u64::MAX ==> holds_text(
                    taken@,
                    #[trigger] unique_candidate(
                        file_path@,
                        optional_text(new_stem),
                        optional_text(new_ext),
                        m,
                    ),
                ),
        },
{
    let ghost stem = optional_text(new_stem);
    let ghost ext = optional_text(new_ext);
    let mut attempt: u64 = 0;
    loop
        invariant
            stem == optional_text(new_stem),
            ext == optional_text(new_ext),
            forall|m: nat|
                m < attempt ==> holds_text(
                    taken@,
                    #[trigger] unique_candidate(file_path@, stem, ext, m),
                ),
        decreases u64::MAX - attempt,
    {
        let candidate = get_unique_candidate(file_path, new_stem, new_ext, attempt);
        if !list_holds(taken, candidate.as_str()) {
            proof {
                assert(is_first_free(file_path@, stem, ext, taken@, attempt as nat));
            }
            return Ok(candidate);
        }
        if attempt == u64::MAX {
            return Err(CommandError::new(ErrorKind::Io, "Invalid new file path"));
        }
        attempt = attempt + 1;
    }
}

/// What is on disk at a path: whether anything is there, whether it is a file
/// or a directory, its size, and for a directory its entries, each in turn
/// described in the same way.
#[derive(Debug, PartialEq)]
pub struct PathNode {
    pub path: String,
    pub exists: bool,
    pub is_file: bool,
    pub is_dir: bool,
    pub size: u64,
    pub children: Vec<PathNode>,
}

impl PathNode {
    /// A path at which nothing is.
    pub fn missing(path: &str) -> (r: PathNode)
        ensures
            r.path@ == path@,
            !r.exists,
            !r.is_file,
            !r.is_dir,
            r.size == 0,
            r.children@.len() == 0,
    {
        PathNode {
            path: String::from_str(path),
            exists: false,
            is_file: false,
            is_dir: false,
            size: 0,
            children: Vec::new(),
        }
    }

    /// A file of the given size.
    pub fn file(path: &str, size: u64) -> (r: PathNode)
        ensures
            r.path@ == path@,
            r.exists,
            r.is_file,
            !r.is_dir,
            r.size == size,
            r.children@.len() == 0,
    {
        PathNode {
            path: String::from_str(path),
            exists: true,
            is_file: true,
            is_dir: false,
            size,
            children: Vec::new(),
        }
    }

    /// A directory with the given entries.
    pub fn dir(path: &str, children: Vec<PathNode>) -> (r: PathNode)
        ensures
            r.path@ == path@,
            r.exists,
            !r.is_file,
            r.is_dir,
            r.size == 0,
            r.children == children,
    {
        PathNode {
            path: String::from_str(path),
            exists: true,
            is_file: false,
            is_dir: true,
            size: 0,
            children,
        }
    }
}

} // verus!
