//! Where the service keeps and finds its files.
//!
//! Translations, function catalogs and templates are looked for under the
//! user's application data, in a directory named after the application's
//! major and minor version, and otherwise among the resources shipped beside
//! the executable.

use crate::errors::{failure, CommandError, ErrorKind, ErrorModel};
use crate::paths::{join_path, joined, parent, parent_of};
use crate::text::{concat2, join, join_with, split, split_on, str_eq, views};
use vstd::prelude::*;
use vstd::string::StringExecFns;

verus! {

/// What the service knows of the machine it runs on.
#[derive(Clone, Debug, PartialEq)]
pub struct Environment {
    /// The operating system: `linux`, `macos`, `windows`.
    pub platform: String,
    /// The application's version.
    pub app_version: String,
    /// The directory in which applications keep the user's data.
    pub data_dir: Option<String>,
    /// The user's home directory.
    pub home_dir: Option<String>,
    /// The directory of the running executable.
    pub exe_dir: Option<String>,
    /// The character that separates the components of a path.
    pub separator: char,
    /// Whether this is a debug build.
    pub debug: bool,
}

/// `dirs::data_dir`: the user's data directory, where the platform has one.
#[verifier::external_body]
pub(crate) fn user_data_dir() -> Option<String> {
    dirs::data_dir().map(|p| p.to_string_lossy().into_owned())
}

/// `dirs::home_dir`: the user's home directory, where it is known.
#[verifier::external_body]
pub(crate) fn user_home_dir() -> Option<String> {
    dirs::home_dir().map(|p| p.to_string_lossy().into_owned())
}

/// `dirs::font_dir`: the user's font directory, where the platform has one.
#[verifier::external_body]
pub(crate) fn user_font_dir() -> Option<String> {
    dirs::font_dir().map(|p| p.to_string_lossy().into_owned())
}

/// `std::path::MAIN_SEPARATOR`.
#[verifier::external_body]
pub(crate) fn main_separator() -> char {
    std::path::MAIN_SEPARATOR
}

impl Environment {
    /// The environment of this process: the user's directories and the
    /// separator are asked of the platform, the rest is as given.
    pub fn detect(platform: &str, app_version: &str, exe_dir: Option<&str>, debug: bool) -> (r:
        Environment)
        ensures
            r.platform@ == platform@,
            r.app_version@ == app_version@,
            r.debug == debug,
            match exe_dir {
                Some(d) => r.exe_dir is Some && r.exe_dir->Some_0@ == d@,
                None => r.exe_dir is None,
            },
    {
        Environment {
            platform: String::from_str(platform),
            app_version: String::from_str(app_version),
            data_dir: user_data_dir(),
            home_dir: user_home_dir(),
            exe_dir: match exe_dir {
                Some(d) => Some(String::from_str(d)),
                None => None,
            },
            separator: main_separator(),
            debug,
        }
    }

    /// The user's font directory, as the platform tells it.
    pub fn font_dir() -> Option<String> {
        user_font_dir()
    }
}

pub open spec fn no_data_dir() -> ErrorModel {
    failure(ErrorKind::NotFound, "Cannot get user's data directory"@)
}

pub open spec fn no_exe_dir() -> ErrorModel {
    failure(ErrorKind::NotFound, "Failed to get current exe path"@)
}

pub open spec fn no_font_dir() -> ErrorModel {
    failure(ErrorKind::NotFound, "Cannot get user's font directory"@)
}

/// A text or a failure, as contracts speak of it.
pub open spec fn text_result(r: Result<String, CommandError>) -> Result<Seq<char>, ErrorModel> {
    match r {
        Ok(s) => Ok(s@),
        Err(e) => Err(e@),
    }
}

/// The application's own directory under the user's data directory.
pub open spec fn app_data_dir_of(env: Environment) -> Result<Seq<char>, ErrorModel> {
    match env.data_dir {
        Some(d) => Ok(joined(d@, "FileThings"@)),
        None => Err(no_data_dir()),
    }
}

/// The first two of the pieces, or all of them where they are fewer.
pub open spec fn first_two(parts: Seq<Seq<char>>) -> Seq<Seq<char>> {
    if parts.len() > 2 {
        parts.take(2)
    } else {
        parts
    }
}

/// `v`, then the major and the minor number of a version.
pub open spec fn version_dirname(version: Seq<char>) -> Seq<char> {
    "v"@ + join_with(first_two(split_on(version, "."@)), "."@)
}

/// The directory of an asset kind under the application's data, for the
/// running version.
pub open spec fn kind_dir_in_app_data(env: Environment, kind: Seq<char>) -> Result<
    Seq<char>,
    ErrorModel,
> {
    match app_data_dir_of(env) {
        Ok(d) => Ok(joined(joined(d, kind), version_dirname(env.app_version@))),
        Err(e) => Err(e),
    }
}

/// The directory of the resources shipped with the executable. In a macOS
/// bundle they lie in `Resources/resources` beside the executable's
/// directory, where that exists.
pub open spec fn exe_resources_dir_of(env: Environment, bundle_exists: bool) -> Result<
    Seq<char>,
    ErrorModel,
> {
    match env.exe_dir {
        None => Err(no_exe_dir()),
        Some(exe) => if env.platform@ == "macos"@ && parent_of(exe@) is Some && bundle_exists {
            Ok(joined(joined(parent_of(exe@)->Some_0, "Resources"@), "resources"@))
        } else {
            Ok(joined(exe@, "resources"@))
        },
    }
}

/// The directory of an asset kind that is in use: the one under the
/// application's data where it exists, else the shipped one.
pub open spec fn kind_dir_using(
    env: Environment,
    kind: Seq<char>,
    overlay_exists: bool,
    bundle_exists: bool,
) -> Result<Seq<char>, ErrorModel> {
    match kind_dir_in_app_data(env, kind) {
        Err(e) => Err(e),
        Ok(d) => if overlay_exists {
            Ok(d)
        } else {
            match exe_resources_dir_of(env, bundle_exists) {
                Err(e) => Err(e),
                Ok(res) => Ok(joined(res, kind)),
            }
        },
    }
}

/// `base` with each of `parts` joined to it in turn.
pub open spec fn joined_all(base: Seq<char>, parts: Seq<Seq<char>>) -> Seq<char>
    decreases parts.len(),
{
    if parts.len() == 0 {
        base
    } else {
        joined(joined_all(base, parts.drop_last()), parts.last())
    }
}

pub fn get_app_data_dir(env: &Environment) -> (r: Result<String, CommandError>)
    ensures
        text_result(r) == app_data_dir_of(*env),
{
    match &env.data_dir {
        Some(d) => Ok(join_path(d.as_str(), "FileThings")),
        None => Err(CommandError::new(ErrorKind::NotFound, "Cannot get user's data directory")),
    }
}

/// The directory into which downloads are staged.
pub fn get_app_download_dir(env: &Environment) -> (r: Result<String, CommandError>)
    ensures
        text_result(r) == match app_data_dir_of(*env) {
            Ok(d) => Ok(joined(d, "downloads"@)),
            Err(e) => Err(e),
        },
{
    match get_app_data_dir(env) {
        Ok(d) => Ok(join_path(d.as_str(), "downloads")),
        Err(e) => Err(e),
    }
}

/// The default directory for temporary files.
pub fn get_temp_dir(env: &Environment) -> (r: Result<String, CommandError>)
    ensures
        text_result(r) == match app_data_dir_of(*env) {
            Ok(d) => Ok(joined(d, ".temp"@)),
            Err(e) => Err(e),
        },
{
    match get_app_data_dir(env) {
        Ok(d) => Ok(join_path(d.as_str(), ".temp")),
        Err(e) => Err(e),
    }
}

/// The name of the directory that belongs to the running version: `v`, the
/// major number, a dot, the minor number.
pub fn get_app_ver_dirname(app_version: &str) -> (r: String)
    ensures
        r@ == version_dirname(app_version@),
{
    let mut parts = split(app_version, ".");
    let ghost all = parts@;
    if parts.len() > 2 {
        parts.truncate(2);
        proof {
            assert(views(parts@) =~= views(all).take(2));
        }
    }
    let major_minor = join(&parts, ".");
    concat2("v", major_minor.as_str())
}

fn kind_dir(env: &Environment, kind: &str) -> (r: Result<String, CommandError>)
    ensures
        text_result(r) == kind_dir_in_app_data(*env, kind@),
{
    match get_app_data_dir(env) {
        Ok(d) => {
            let versioned = get_app_ver_dirname(env.app_version.as_str());
            let kind_dir = join_path(d.as_str(), kind);
            Ok(join_path(kind_dir.as_str(), versioned.as_str()))
        },
        Err(e) => Err(e),
    }
}

/// The directory of the shipped resources; `bundle_exists` says whether
/// `Resources/resources` exists beside the directory of the executable.
pub fn get_exe_resources_dir(env: &Environment, bundle_exists: bool) -> (r: Result<
    String,
    CommandError,
>)
    ensures
        text_result(r) == exe_resources_dir_of(*env, bundle_exists),
{
    match &env.exe_dir {
        None => Err(CommandError::new(ErrorKind::NotFound, "Failed to get current exe path")),
        Some(exe) => {
            if str_eq(env.platform.as_str(), "macos") {
                match parent(exe.as_str()) {
                    Some(p) => {
                        if bundle_exists {
                            let res = join_path(p.as_str(), "Resources");
                            return Ok(join_path(res.as_str(), "resources"));
                        }
                    },
                    None => {},
                }
            }
            Ok(join_path(exe.as_str(), "resources"))
        },
    }
}

/// The directory in `Resources` of a macOS bundle whose existence decides
/// where the shipped resources are; nothing on other platforms.
pub fn bundle_resources_candidate(env: &Environment) -> (r: Option<String>)
    ensures
        match r {
            Some(p) => env.exe_dir is Some && env.platform@ == "macos"@ && parent_of(
                env.exe_dir->Some_0@,
            ) is Some && p@ == joined(
                joined(parent_of(env.exe_dir->Some_0@)->Some_0, "Resources"@),
                "resources"@,
            ),
            None => env.exe_dir is None || env.platform@ != "macos"@ || parent_of(
                env.exe_dir->Some_0@,
            ) is None,
        },
{
    match &env.exe_dir {
        None => None,
        Some(exe) => {
            if str_eq(env.platform.as_str(), "macos") {
                match parent(exe.as_str()) {
                    Some(p) => {
                        let res = join_path(p.as_str(), "Resources");
                        Some(join_path(res.as_str(), "resources"))
                    },
                    None => None,
                }
            } else {
                None
            }
        },
    }
}

fn kind_using(env: &Environment, kind: &str, overlay_exists: bool, bundle_exists: bool) -> (r:
    Result<String, CommandError>)
    ensures
        text_result(r) == kind_dir_using(*env, kind@, overlay_exists, bundle_exists),
{
    match kind_dir(env, kind) {
        Err(e) => Err(e),
        Ok(d) => {
            if overlay_exists {
                Ok(d)
            } else {
                match get_exe_resources_dir(env, bundle_exists) {
                    Err(e) => Err(e),
                    Ok(res) => Ok(join_path(res.as_str(), kind)),
                }
            }
        },
    }
}

/// The translations of the running version under the application's data.
pub fn get_i18n_dir_in_app_data(env: &Environment) -> (r: Result<String, CommandError>)
    ensures
        text_result(r) == kind_dir_in_app_data(*env, "i18n"@),
{
    kind_dir(env, "i18n")
}

/// The translations in use; `overlay_exists` says whether the directory under
/// the application's data exists.
pub fn get_i18n_dir_using(env: &Environment, overlay_exists: bool, bundle_exists: bool) -> (r:
    Result<String, CommandError>)
    ensures
        text_result(r) == kind_dir_using(*env, "i18n"@, overlay_exists, bundle_exists),
{
    kind_using(env, "i18n", overlay_exists, bundle_exists)
}

/// The function catalog of the running version under the application's data.
pub fn get_function_dir_in_app_data(env: &Environment) -> (r: Result<String, CommandError>)
    ensures
        text_result(r) == kind_dir_in_app_data(*env, "functions"@),
{
    kind_dir(env, "functions")
}

/// The function catalog in use.
pub fn get_function_dir_using(env: &Environment, overlay_exists: bool, bundle_exists: bool) -> (r:
    Result<String, CommandError>)
    ensures
        text_result(r) == kind_dir_using(*env, "functions"@, overlay_exists, bundle_exists),
{
    kind_using(env, "functions", overlay_exists, bundle_exists)
}

/// A directory below the function catalog in use, one component of
/// `category_dirnames` after the other.
pub fn get_function_category_dir_using(
    env: &Environment,
    overlay_exists: bool,
    bundle_exists: bool,
    category_dirnames: &Vec<String>,
) -> (r: Result<String, CommandError>)
    ensures
        text_result(r) == match kind_dir_using(
            *env,
            "functions"@,
            overlay_exists,
            bundle_exists,
        ) {
            Ok(d) => Ok(joined_all(d, views(category_dirnames@))),
            Err(e) => Err(e),
        },
{
    match get_function_dir_using(env, overlay_exists, bundle_exists) {
        Err(e) => Err(e),
        Ok(base) => {
            let mut dir = base;
            let mut i: usize = 0;
            proof {
                assert(views(category_dirnames@).take(0).len() == 0);
            }
            while i < category_dirnames.len()
                invariant
                    i <= category_dirnames.len(),
                    dir@ == joined_all(base@, views(category_dirnames@).take(i as int)),
                decreases category_dirnames.len() - i,
            {
                proof {
                    assert(views(category_dirnames@).take(i + 1).drop_last() =~= views(
                        category_dirnames@,
                    ).take(i as int));
                }
                dir = join_path(dir.as_str(), category_dirnames[i].as_str());
                i = i + 1;
            }
            proof {
                assert(views(category_dirnames@).take(category_dirnames@.len() as int) =~= views(
                    category_dirnames@,
                ));
            }
            Ok(dir)
        },
    }
}

/// The templates of the running version under the application's data.
pub fn get_template_dir_in_app_data(env: &Environment) -> (r: Result<String, CommandError>)
    ensures
        text_result(r) == kind_dir_in_app_data(*env, "templates"@),
{
    kind_dir(env, "templates")
}

/// The templates in use.
pub fn get_template_dir_using(env: &Environment, overlay_exists: bool, bundle_exists: bool) -> (r:
    Result<String, CommandError>)
    ensures
        text_result(r) == kind_dir_using(*env, "templates"@, overlay_exists, bundle_exists),
{
    kind_using(env, "templates", overlay_exists, bundle_exists)
}

/// The per-user font directory of Windows below the local application data.
pub fn windows_user_font_dir(local_app_data: &str) -> (r: String)
    ensures
        r@ == joined(joined(joined(local_app_data@, "Microsoft"@), "Windows"@), "Fonts"@),
{
    let a = join_path(local_app_data, "Microsoft");
    let b = join_path(a.as_str(), "Windows");
    join_path(b.as_str(), "Fonts")
}

/// The system-wide font directory of Windows.
pub fn windows_system_font_dir(windir: &str) -> (r: String)
    ensures
        r@ == joined(windir@, "Fonts"@),
{
    join_path(windir, "Fonts")
}

/// The directory of the user's fonts. On Windows the per-user directory is
/// taken where it is a directory, else the system-wide one where that is a
/// directory; elsewhere the platform's own answer is taken.
pub fn get_font_dir(
    env: &Environment,
    platform_font_dir: Option<String>,
    user_fonts: Option<String>,
    user_fonts_is_dir: bool,
    system_fonts: Option<String>,
    system_fonts_is_dir: bool,
) -> (r: Result<String, CommandError>)
    ensures
        text_result(r) == if env.platform@ == "windows"@ {
            if user_fonts is Some && user_fonts_is_dir {
                Ok(user_fonts->Some_0@)
            } else if system_fonts is Some && system_fonts_is_dir {
                Ok(system_fonts->Some_0@)
            } else {
                Err(no_font_dir())
            }
        } else {
            match platform_font_dir {
                Some(d) => Ok(d@),
                None => Err(no_font_dir()),
            }
        },
{
    if str_eq(env.platform.as_str(), "windows") {
        match user_fonts {
            Some(d) => {
                if user_fonts_is_dir {
                    return Ok(d);
                }
            },
            None => {},
        }
        match system_fonts {
            Some(d) => {
                if system_fonts_is_dir {
                    return Ok(d);
                }
            },
            None => {},
        }
        Err(CommandError::new(ErrorKind::NotFound, "Cannot get user's font directory"))
    } else {
        match platform_font_dir {
            Some(d) => Ok(d),
            None => Err(CommandError::new(ErrorKind::NotFound, "Cannot get user's font directory")),
        }
    }
}

/// Whether this is a debug build.
pub fn is_debug(env: &Environment) -> (r: bool)
    ensures
        r == env.debug,
{
    env.debug
}

/// The home directory, or the failure to know it.
pub fn get_home_dir(env: &Environment) -> (r: Result<String, CommandError>)
    ensures
        text_result(r) == match env.home_dir {
            Some(h) => Ok(h@),
            None => Err(failure(ErrorKind::NotFound, "Cannot get user's home directory"@)),
        },
{
    match &env.home_dir {
        Some(h) => Ok(h.clone()),
        None => Err(CommandError::new(ErrorKind::NotFound, "Cannot get user's home directory")),
    }
}

} // verus!
