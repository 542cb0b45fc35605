//! The catalogs of file functions and of tools, each keyed by the function's
//! full name.
//!
//! A catalog holds no name twice, and every descriptor in it is admitted on
//! the platform and for the version of the application it was loaded for.

use crate::errors::{failure, CommandError, ErrorKind};
use crate::functions::{
    admitted, file_accepted, is_file_function_of, is_tool_of, tool_accepted, FileFunction,
    ToolFunction,
};
use crate::json::Json;
use crate::paths::{holds_text, join_path, joined, list_holds};
use crate::resource::Environment;
use crate::text::{concat2, concat3, str_eq};
use vstd::prelude::*;
use vstd::string::StringExecFns;

verus! {

/// What was found in the directory of one function: the directory's name, its
/// configuration where it could be read, and whether its worker script exists.
#[derive(Clone, Debug)]
pub struct FunctionSource {
    pub dirname: String,
    pub config: Option<Json>,
    pub worker_exists: bool,
}

/// The files of the function in directory `dirname` of a category: its
/// configuration, its worker script, and the helper script that all workers
/// of the category share.
pub fn descriptor_paths(category_dir: &str, function_dir: &str, dirname: &str, utils_name: &str) -> (r:
    (String, String, String))
    ensures
        r.0@ == joined(joined(category_dir@, dirname@), "config.json"@),
        r.1@ == joined(joined(category_dir@, dirname@), "worker.js"@),
        r.2@ == joined(joined(function_dir@, "_utils"@), utils_name@),
{
    let dir = join_path(category_dir, dirname);
    let utils_dir = join_path(function_dir, "_utils");
    (
        join_path(dir.as_str(), "config.json"),
        join_path(dir.as_str(), "worker.js"),
        join_path(utils_dir.as_str(), utils_name),
    )
}

pub open spec fn file_names(functions: Seq<FileFunction>) -> Seq<Seq<char>> {
    Seq::new(functions.len(), |i: int| functions[i].name@)
}

pub open spec fn tool_names(tools: Seq<ToolFunction>) -> Seq<Seq<char>> {
    Seq::new(tools.len(), |i: int| tools[i].name@)
}

pub open spec fn has_file_function(functions: Seq<FileFunction>, name: Seq<char>) -> bool {
    exists|i: int| 0 <= i < functions.len() && (#[trigger] functions[i]).name@ == name
}

pub open spec fn has_tool(tools: Seq<ToolFunction>, name: Seq<char>) -> bool {
    exists|i: int| 0 <= i < tools.len() && (#[trigger] tools[i]).name@ == name
}

/// `at` is the place of the first tool of that name.
pub open spec fn is_first_tool(tools: Seq<ToolFunction>, name: Seq<char>, at: int) -> bool {
    &&& 0 <= at < tools.len()
    &&& tools[at].name@ == name
    &&& forall|k: int| 0 <= k < at ==> (#[trigger] tools[k]).name@ != name
}

/// The tool of that name is known to work.
pub open spec fn is_available(tools: Seq<ToolFunction>, name: Seq<char>) -> bool {
    exists|i: int|
        0 <= i < tools.len() && (#[trigger] tools[i]).name@ == name && tools[i].available
}

/// The catalog of file functions.
#[derive(Clone, Debug)]
pub struct FileRegistry {
    pub functions: Vec<FileFunction>,
}

/// The catalog of tools.
#[derive(Clone, Debug)]
pub struct ToolRegistry {
    pub tools: Vec<ToolFunction>,
}

/// The source yields a file function on this platform and for this version.
pub open spec fn file_source_accepted(
    s: FunctionSource,
    platform: Seq<char>,
    app_version: Seq<char>,
) -> bool {
    s.config is Some && s.worker_exists && file_accepted(s.config->Some_0@, platform, app_version)
}

/// The source yields a tool in this environment.
pub open spec fn tool_source_accepted(s: FunctionSource, env: Environment) -> bool {
    s.config is Some && s.worker_exists && tool_accepted(s.config->Some_0@, env)
}

/// The descriptor was made from the source found in `category_dir`: it is the
/// file function that the configuration of the source declares, named after
/// the source's directory, with the worker script of that directory.
pub open spec fn file_made_from(
    f: FileFunction,
    s: FunctionSource,
    category_dir: Seq<char>,
    function_dir: Seq<char>,
    platform: Seq<char>,
    app_version: Seq<char>,
) -> bool {
    &&& s.config is Some
    &&& is_file_function_of(
        f,
        "file."@ + s.dirname@,
        s.config->Some_0@,
        joined(joined(category_dir, s.dirname@), "worker.js"@),
        joined(joined(function_dir, "_utils"@), "file.js"@),
        platform,
        app_version,
    )
}

/// The descriptor was made from the source found in `category_dir`: it is the
/// tool that the configuration of the source declares, named after the type
/// and the source's directory, with the worker script of that directory.
pub open spec fn tool_made_from(
    t: ToolFunction,
    s: FunctionSource,
    func_type: Seq<char>,
    category_dir: Seq<char>,
    function_dir: Seq<char>,
    env: Environment,
) -> bool {
    &&& s.config is Some
    &&& is_tool_of(
        t,
        func_type + "."@ + s.dirname@,
        s.config->Some_0@,
        joined(joined(category_dir, s.dirname@), "worker.js"@),
        joined(joined(function_dir, "_utils"@), "tool.js"@),
        env,
    )
}

/// A tool of that name is known to work among the first `upto` tools.
pub open spec fn available_among(tools: Seq<ToolFunction>, upto: int, name: Seq<char>) -> bool {
    exists|k: int|
        0 <= k < upto && k < tools.len() && (#[trigger] tools[k]).name@ == name
            && tools[k].available
}

/// The tool with the mark that it works, where `known` says so.
pub open spec fn with_mark(t: ToolFunction, known: bool) -> ToolFunction {
    if known {
        ToolFunction { available: true, ..t }
    } else {
        t
    }
}

impl FileRegistry {
    pub open spec fn well_formed(&self, platform: Seq<char>, app_version: Seq<char>) -> bool {
        &&& file_names(self.functions@).no_duplicates()
        &&& forall|i: int|
            0 <= i < self.functions@.len() ==> admitted(
                (#[trigger] self.functions@[i]).matches@,
                platform,
                app_version,
            )
    }

    pub fn new() -> (r: FileRegistry)
        ensures
            r.functions@.len() == 0,
            forall|p: Seq<char>, v: Seq<char>| r.well_formed(p, v),
    {
        FileRegistry { functions: Vec::new() }
    }

    /// The place of the function of that name.
    pub fn find(&self, name: &str) -> (r: Option<usize>)
        ensures
            match r {
                Some(i) => i < self.functions@.len() && self.functions@[i as int].name@ == name@,
                None => !has_file_function(self.functions@, name@),
            },
    {
        let mut i: usize = 0;
        while i < self.functions.len()
            invariant
                i <= self.functions.len(),
                forall|k: int| 0 <= k < i ==> (#[trigger] self.functions@[k]).name@ != name@,
            decreases self.functions.len() - i,
        {
            if str_eq(self.functions[i].name.as_str(), name) {
                return Some(i);
            }
            i = i + 1;
        }
        None
    }

    pub fn get(&self, name: &str) -> (r: Option<&FileFunction>)
        ensures
            match r {
                Some(f) => f.name@ == name@ && exists|i: int|
                    0 <= i < self.functions@.len() && #[trigger] self.functions@[i] == *f,
                None => !has_file_function(self.functions@, name@),
            },
    {
        match self.find(name) {
            Some(i) => Some(&self.functions[i]),
            None => None,
        }
    }

    /// Puts a function into the catalog, in the place of the one of the same
    /// name where there is one.
    pub fn insert(&mut self, function: FileFunction)
        ensures
            forall|p: Seq<char>, v: Seq<char>|
                old(self).well_formed(p, v) && admitted(function.matches@, p, v) ==> final(self).well_formed(p, v),
            forall|n: Seq<char>|
                has_file_function(final(self).functions@, n) <==> (has_file_function(
                    old(self).functions@,
                    n,
                ) || n == function.name@),
            forall|i: int|
                0 <= i < final(self).functions@.len() ==> (#[trigger] final(self).functions@[i])
                    == function || exists|j: int|
                    0 <= j < old(self).functions@.len() && #[trigger] old(self).functions@[j]
                        == final(self).functions@[i],
            exists|i: int|
                0 <= i < final(self).functions@.len() && #[trigger] final(self).functions@[i]
                    == function,
    {
        let ghost before = self.functions@;
        match self.find(function.name.as_str()) {
            Some(i) => {
                self.functions[i] = function;
                proof {
                    let after = self.functions@;
                    assert(file_names(after) =~= file_names(before));
                    assert forall|n: Seq<char>|
                        has_file_function(after, n) <==> (has_file_function(before, n) || n
                            == function.name@) by {
                        if has_file_function(after, n) {
                            let k = choose|k: int|
                                0 <= k < after.len() && (#[trigger] after[k]).name@ == n;
                            assert(before[k].name@ == n);
                        }
                        if has_file_function(before, n) {
                            let k = choose|k: int|
                                0 <= k < before.len() && (#[trigger] before[k]).name@ == n;
                            assert(after[k].name@ == n);
                        }
                        if n == function.name@ {
                            assert(after[i as int].name@ == n);
                        }
                    }
                    assert forall|k: int| 0 <= k < after.len() implies (#[trigger] after[k])
                        == function || exists|j: int|
                        0 <= j < before.len() && #[trigger] before[j] == after[k] by {
                        if k != i {
                            assert(before[k] == after[k]);
                        }
                    }
                    assert(after[i as int] == function);
                }
            },
            None => {
                self.functions.push(function);
                proof {
                    let after = self.functions@;
                    assert(file_names(after) =~= file_names(before).push(function.name@));
                    assert(!file_names(before).contains(function.name@)) by {
                        if file_names(before).contains(function.name@) {
                            let k = choose|k: int|
                                0 <= k < before.len() && file_names(before)[k] == function.name@;
                            assert(before[k].name@ == function.name@);
                        }
                    }
                    assert forall|n: Seq<char>|
                        has_file_function(after, n) <==> (has_file_function(before, n) || n
                            == function.name@) by {
                        if has_file_function(after, n) {
                            let k = choose|k: int|
                                0 <= k < after.len() && (#[trigger] after[k]).name@ == n;
                            if k < before.len() {
                                assert(before[k].name@ == n);
                            }
                        }
                        if has_file_function(before, n) {
                            let k = choose|k: int|
                                0 <= k < before.len() && (#[trigger] before[k]).name@ == n;
                            assert(after[k].name@ == n);
                        }
                        if n == function.name@ {
                            assert(after[before.len() as int].name@ == n);
                        }
                    }
                    assert forall|k: int| 0 <= k < after.len() implies (#[trigger] after[k])
                        == function || exists|j: int|
                        0 <= j < before.len() && #[trigger] before[j] == after[k] by {
                        if k < before.len() {
                            assert(before[k] == after[k]);
                        }
                    }
                    assert(after[before.len() as int] == function);
                }
            },
        }
    }
}

impl ToolRegistry {
    pub open spec fn well_formed(&self, platform: Seq<char>, app_version: Seq<char>) -> bool {
        &&& tool_names(self.tools@).no_duplicates()
        &&& forall|i: int|
            0 <= i < self.tools@.len() ==> admitted(
                (#[trigger] self.tools@[i]).matches@,
                platform,
                app_version,
            )
    }

    pub fn new() -> (r: ToolRegistry)
        ensures
            r.tools@.len() == 0,
            forall|p: Seq<char>, v: Seq<char>| r.well_formed(p, v),
    {
        ToolRegistry { tools: Vec::new() }
    }

    /// The place of the first tool of that name.
    pub fn find(&self, name: &str) -> (r: Option<usize>)
        ensures
            match r {
                Some(i) => is_first_tool(self.tools@, name@, i as int),
                None => !has_tool(self.tools@, name@),
            },
    {
        let mut i: usize = 0;
        while i < self.tools.len()
            invariant
                i <= self.tools.len(),
                forall|k: int| 0 <= k < i ==> (#[trigger] self.tools@[k]).name@ != name@,
            decreases self.tools.len() - i,
        {
            if str_eq(self.tools[i].name.as_str(), name) {
                return Some(i);
            }
            i = i + 1;
        }
        None
    }

    pub fn get(&self, name: &str) -> (r: Option<&ToolFunction>)
        ensures
            match r {
                Some(t) => t.name@ == name@ && exists|i: int|
                    0 <= i < self.tools@.len() && #[trigger] self.tools@[i] == *t,
                None => !has_tool(self.tools@, name@),
            },
    {
        match self.find(name) {
            Some(i) => Some(&self.tools[i]),
            None => None,
        }
    }

    /// Puts a tool into the catalog, in the place of the one of the same name
    /// where there is one.
    pub fn insert(&mut self, tool: ToolFunction)
        ensures
            forall|p: Seq<char>, v: Seq<char>|
                old(self).well_formed(p, v) && admitted(tool.matches@, p, v) ==> final(self).well_formed(p, v),
            forall|n: Seq<char>|
                has_tool(final(self).tools@, n) <==> (has_tool(old(self).tools@, n) || n
                    == tool.name@),
            forall|i: int|
                0 <= i < final(self).tools@.len() ==> (#[trigger] final(self).tools@[i]) == tool
                    || exists|j: int|
                    0 <= j < old(self).tools@.len() && #[trigger] old(self).tools@[j] == final(self).tools@[i],
            exists|i: int| 0 <= i < final(self).tools@.len() && #[trigger] final(self).tools@[i] == tool,
    {
        let ghost before = self.tools@;
        match self.find(tool.name.as_str()) {
            Some(i) => {
                self.tools[i] = tool;
                proof {
                    let after = self.tools@;
                    assert(tool_names(after) =~= tool_names(before));
                    assert forall|n: Seq<char>|
                        has_tool(after, n) <==> (has_tool(before, n) || n == tool.name@) by {
                        if has_tool(after, n) {
                            let k = choose|k: int|
                                0 <= k < after.len() && (#[trigger] after[k]).name@ == n;
                            assert(before[k].name@ == n);
                        }
                        if has_tool(before, n) {
                            let k = choose|k: int|
                                0 <= k < before.len() && (#[trigger] before[k]).name@ == n;
                            assert(after[k].name@ == n);
                        }
                        if n == tool.name@ {
                            assert(after[i as int].name@ == n);
                        }
                    }
                    assert forall|k: int| 0 <= k < after.len() implies (#[trigger] after[k])
                        == tool || exists|j: int|
                        0 <= j < before.len() && #[trigger] before[j] == after[k] by {
                        if k != i {
                            assert(before[k] == after[k]);
                        }
                    }
                    assert(after[i as int] == tool);
                }
            },
            None => {
                self.tools.push(tool);
                proof {
                    let after = self.tools@;
                    assert(tool_names(after) =~= tool_names(before).push(tool.name@));
                    assert(!tool_names(before).contains(tool.name@)) by {
                        if tool_names(before).contains(tool.name@) {
                            let k = choose|k: int|
                                0 <= k < before.len() && tool_names(before)[k] == tool.name@;
                            assert(before[k].name@ == tool.name@);
                        }
                    }
                    assert forall|n: Seq<char>|
                        has_tool(after, n) <==> (has_tool(before, n) || n == tool.name@) by {
                        if has_tool(after, n) {
                            let k = choose|k: int|
                                0 <= k < after.len() && (#[trigger] after[k]).name@ == n;
                            if k < before.len() {
                                assert(before[k].name@ == n);
                            }
                        }
                        if has_tool(before, n) {
                            let k = choose|k: int|
                                0 <= k < before.len() && (#[trigger] before[k]).name@ == n;
                            assert(after[k].name@ == n);
                        }
                        if n == tool.name@ {
                            assert(after[before.len() as int].name@ == n);
                        }
                    }
                    assert forall|k: int| 0 <= k < after.len() implies (#[trigger] after[k])
                        == tool || exists|j: int|
                        0 <= j < before.len() && #[trigger] before[j] == after[k] by {
                        if k < before.len() {
                            assert(before[k] == after[k]);
                        }
                    }
                    assert(after[before.len() as int] == tool);
                }
            },
        }
    }

    /// The path of the first tool of that name.
    pub fn get_bin_path(&self, name: &str) -> (r: Result<String, CommandError>)
        ensures
            match r {
                Ok(p) => exists|i: int|
                    is_first_tool(self.tools@, name@, i) && (#[trigger] self.tools@[i]).bin_path@
                        == p@,
                Err(e) => !has_tool(self.tools@, name@) && e@ == failure(
                    ErrorKind::NotFound,
                    "Not found tool bin path for: "@ + name@,
                ),
            },
    {
        match self.find(name) {
            Some(i) => Ok(self.tools[i].bin_path.clone()),
            None => Err(
                CommandError {
                    kind: ErrorKind::NotFound,
                    message: concat2("Not found tool bin path for: ", name),
                },
            ),
        }
    }
}

/// One of the first `upto` sources is accepted, and the function was made from it.
pub open spec fn file_from_sources(
    f: FileFunction,
    sources: Seq<FunctionSource>,
    upto: int,
    category_dir: Seq<char>,
    function_dir: Seq<char>,
    platform: Seq<char>,
    app_version: Seq<char>,
) -> bool {
    exists|k: int|
        0 <= k < upto && k < sources.len() && file_source_accepted(
            #[trigger] sources[k],
            platform,
            app_version,
        ) && file_made_from(f, sources[k], category_dir, function_dir, platform, app_version)
}

/// One of the first `upto` sources is accepted and gives the name `n`.
pub open spec fn file_name_from_sources(
    n: Seq<char>,
    sources: Seq<FunctionSource>,
    upto: int,
    platform: Seq<char>,
    app_version: Seq<char>,
) -> bool {
    exists|k: int|
        0 <= k < upto && k < sources.len() && file_source_accepted(
            #[trigger] sources[k],
            platform,
            app_version,
        ) && n == "file."@ + sources[k].dirname@
}

/// Loads the file functions found in the category directory. The catalog then
/// holds the functions of the sources that have a configuration and a worker
/// script and whose configuration is admitted, and nothing else.
pub fn load_functions(
    registry: &mut FileRegistry,
    sources: &Vec<FunctionSource>,
    category_dir: &str,
    function_dir: &str,
    platform: &str,
    app_version: &str,
) -> (loaded: usize)
    ensures
        final(registry).well_formed(platform@, app_version@),
        forall|n: Seq<char>|
            has_file_function(final(registry).functions@, n) <==> file_name_from_sources(
                n,
                sources@,
                sources@.len() as int,
                platform@,
                app_version@,
            ),
        forall|i: int|
            0 <= i < final(registry).functions@.len() ==> file_from_sources(
                #[trigger] final(registry).functions@[i],
                sources@,
                sources@.len() as int,
                category_dir@,
                function_dir@,
                platform@,
                app_version@,
            ),
        loaded == final(registry).functions@.len(),
{
    let mut fresh = FileRegistry::new();
    let mut i: usize = 0;
    while i < sources.len()
        invariant
            i <= sources.len(),
            fresh.well_formed(platform@, app_version@),
            forall|n: Seq<char>|
                has_file_function(fresh.functions@, n) <==> file_name_from_sources(
                    n,
                    sources@,
                    i as int,
                    platform@,
                    app_version@,
                ),
            forall|j: int|
                0 <= j < fresh.functions@.len() ==> file_from_sources(
                    #[trigger] fresh.functions@[j],
                    sources@,
                    i as int,
                    category_dir@,
                    function_dir@,
                    platform@,
                    app_version@,
                ),
        decreases sources.len() - i,
    {
        let source = &sources[i];
        let ghost before = fresh.functions@;
        let (_, worker_file, worker_utils_file) = descriptor_paths(
            category_dir,
            function_dir,
            source.dirname.as_str(),
            "file.js",
        );
        let name = concat2("file.", source.dirname.as_str());
        let built: Option<FileFunction> = match &source.config {
            Some(config) => {
                if source.worker_exists {
                    match FileFunction::new(
                        name.as_str(),
                        config,
                        &worker_file,
                        &worker_utils_file,
                        platform,
                        app_version,
                    ) {
                        Ok(function) => Some(function),
                        Err(_) => None,
                    }
                } else {
                    None
                }
            },
            None => None,
        };
        let ghost accepted = file_source_accepted(sources@[i as int], platform@, app_version@);
        let ghost made = built;
        proof {
            assert(built is Some <==> accepted);
            if built is Some {
                assert(file_made_from(
                    built->Some_0,
                    sources@[i as int],
                    category_dir@,
                    function_dir@,
                    platform@,
                    app_version@,
                ));
            }
        }
        match built {
            Some(function) => {
                fresh.insert(function);
            },
            None => {},
        }
        proof {
            assert forall|j: int| 0 <= j < fresh.functions@.len() implies file_from_sources(
                #[trigger] fresh.functions@[j],
                sources@,
                i + 1,
                category_dir@,
                function_dir@,
                platform@,
                app_version@,
            ) by {
                let f = fresh.functions@[j];
                if accepted && f == made->Some_0 {
                    assert(file_source_accepted(sources@[i as int], platform@, app_version@));
                } else {
                    let b = if accepted {
                        choose|b: int| 0 <= b < before.len() && #[trigger] before[b] == f
                    } else {
                        j
                    };
                    assert(before[b] == f);
                    assert(file_from_sources(
                        before[b],
                        sources@,
                        i as int,
                        category_dir@,
                        function_dir@,
                        platform@,
                        app_version@,
                    ));
                    let k = choose|k: int|
                        0 <= k < i && k < sources@.len() && file_source_accepted(
                            #[trigger] sources@[k],
                            platform@,
                            app_version@,
                        ) && file_made_from(
                            f,
                            sources@[k],
                            category_dir@,
                            function_dir@,
                            platform@,
                            app_version@,
                        );
                    assert(file_source_accepted(sources@[k], platform@, app_version@));
                }
            }
            assert forall|n: Seq<char>|
                has_file_function(fresh.functions@, n) <==> file_name_from_sources(
                    n,
                    sources@,
                    i + 1,
                    platform@,
                    app_version@,
                ) by {
                let earlier = file_name_from_sources(
                    n,
                    sources@,
                    i as int,
                    platform@,
                    app_version@,
                );
                assert(has_file_function(before, n) <==> earlier);
                if accepted {
                    assert(has_file_function(fresh.functions@, n) <==> (has_file_function(before, n)
                        || n == name@));
                } else {
                    assert(fresh.functions@ == before);
                }
                if earlier {
                    let k = choose|k: int|
                        0 <= k < i && k < sources@.len() && file_source_accepted(
                            #[trigger] sources@[k],
                            platform@,
                            app_version@,
                        ) && n == "file."@ + sources@[k].dirname@;
                    assert(file_source_accepted(sources@[k], platform@, app_version@));
                }
                if accepted && n == name@ {
                    assert(file_source_accepted(sources@[i as int], platform@, app_version@));
                }
                if file_name_from_sources(n, sources@, i + 1, platform@, app_version@) {
                    let k = choose|k: int|
                        0 <= k < i + 1 && k < sources@.len() && file_source_accepted(
                            #[trigger] sources@[k],
                            platform@,
                            app_version@,
                        ) && n == "file."@ + sources@[k].dirname@;
                    if k < i {
                        assert(file_source_accepted(sources@[k], platform@, app_version@));
                        assert(earlier);
                    }
                }
            }
        }
        i = i + 1;
    }
    let loaded = fresh.functions.len();
    *registry = fresh;
    loaded
}

/// The tool was in the catalog before, or one of the first `upto` sources is
/// accepted and the tool was made from it.
pub open spec fn tool_from_sources(
    t: ToolFunction,
    held: Seq<ToolFunction>,
    sources: Seq<FunctionSource>,
    upto: int,
    func_type: Seq<char>,
    category_dir: Seq<char>,
    function_dir: Seq<char>,
    env: Environment,
) -> bool {
    ||| exists|j: int| 0 <= j < held.len() && #[trigger] held[j] == t
    ||| exists|k: int|
        0 <= k < upto && k < sources.len() && tool_source_accepted(#[trigger] sources[k], env)
            && tool_made_from(t, sources[k], func_type, category_dir, function_dir, env)
            && !t.available
}

/// One of the first `upto` sources is accepted and gives the name `n`.
pub open spec fn tool_name_from_sources(
    n: Seq<char>,
    sources: Seq<FunctionSource>,
    upto: int,
    func_type: Seq<char>,
    env: Environment,
) -> bool {
    exists|k: int|
        0 <= k < upto && k < sources.len() && tool_source_accepted(#[trigger] sources[k], env) && n
            == func_type + "."@ + sources[k].dirname@
}

/// Loads the tools of one category into the catalog: `executables` as
/// `tool.exe`, `models` as `tool.model`. What the catalog held stays, but for
/// a tool of the same name as a loaded one.
pub fn load_tool_functions(
    registry: &mut ToolRegistry,
    func_type: &str,
    sources: &Vec<FunctionSource>,
    category_dir: &str,
    function_dir: &str,
    env: &Environment,
) -> (loaded: usize)
    ensures
        old(registry).well_formed(env.platform@, env.app_version@) ==> final(registry).well_formed(
            env.platform@,
            env.app_version@,
        ),
        forall|n: Seq<char>|
            has_tool(final(registry).tools@, n) <==> (has_tool(old(registry).tools@, n)
                || tool_name_from_sources(n, sources@, sources@.len() as int, func_type@, *env)),
        forall|i: int|
            0 <= i < final(registry).tools@.len() ==> tool_from_sources(
                #[trigger] final(registry).tools@[i],
                old(registry).tools@,
                sources@,
                sources@.len() as int,
                func_type@,
                category_dir@,
                function_dir@,
                *env,
            ),
{
    let mut loaded: usize = 0;
    let mut i: usize = 0;
    let ghost held = registry.tools@;
    while i < sources.len()
        invariant
            i <= sources.len(),
            loaded <= i,
            old(registry).well_formed(env.platform@, env.app_version@) ==> registry.well_formed(
                env.platform@,
                env.app_version@,
            ),
            forall|n: Seq<char>|
                has_tool(registry.tools@, n) <==> (has_tool(held, n) || tool_name_from_sources(
                    n,
                    sources@,
                    i as int,
                    func_type@,
                    *env,
                )),
            forall|j: int|
                0 <= j < registry.tools@.len() ==> tool_from_sources(
                    #[trigger] registry.tools@[j],
                    held,
                    sources@,
                    i as int,
                    func_type@,
                    category_dir@,
                    function_dir@,
                    *env,
                ),
        decreases sources.len() - i,
    {
        let source = &sources[i];
        let ghost before = registry.tools@;
        proof {
            assert(forall|n: Seq<char>|
                has_tool(before, n) <==> (has_tool(held, n) || tool_name_from_sources(
                    n,
                    sources@,
                    i as int,
                    func_type@,
                    *env,
                )));
        }
        let (_, worker_file, worker_utils_file) = descriptor_paths(
            category_dir,
            function_dir,
            source.dirname.as_str(),
            "tool.js",
        );
        let name = concat3(func_type, ".", source.dirname.as_str());
        let built: Option<ToolFunction> = match &source.config {
            Some(config) => {
                if source.worker_exists {
                    match ToolFunction::new(&name, config, &worker_file, &worker_utils_file, env) {
                        Ok(tool) => Some(tool),
                        Err(_) => None,
                    }
                } else {
                    None
                }
            },
            None => None,
        };
        let ghost accepted = tool_source_accepted(sources@[i as int], *env);
        let ghost made = built;
        proof {
            assert(built is Some <==> accepted);
            if built is Some {
                assert(tool_made_from(
                    built->Some_0,
                    sources@[i as int],
                    func_type@,
                    category_dir@,
                    function_dir@,
                    *env,
                ));
                assert(!built->Some_0.available);
            }
        }
        match built {
            Some(tool) => {
                registry.insert(tool);
                loaded = loaded + 1;
            },
            None => {},
        }
        proof {
            assert forall|j: int| 0 <= j < registry.tools@.len() implies tool_from_sources(
                #[trigger] registry.tools@[j],
                held,
                sources@,
                i + 1,
                func_type@,
                category_dir@,
                function_dir@,
                *env,
            ) by {
                let t = registry.tools@[j];
                if accepted && t == made->Some_0 {
                    assert(tool_source_accepted(sources@[i as int], *env));
                } else {
                    let b = if accepted {
                        choose|b: int| 0 <= b < before.len() && #[trigger] before[b] == t
                    } else {
                        j
                    };
                    assert(before[b] == t);
                    assert(tool_from_sources(
                        before[b],
                        held,
                        sources@,
                        i as int,
                        func_type@,
                        category_dir@,
                        function_dir@,
                        *env,
                    ));
                    if !(exists|c: int| 0 <= c < held.len() && #[trigger] held[c] == t) {
                        let k = choose|k: int|
                            0 <= k < i && k < sources@.len() && tool_source_accepted(
                                #[trigger] sources@[k],
                                *env,
                            ) && tool_made_from(
                                t,
                                sources@[k],
                                func_type@,
                                category_dir@,
                                function_dir@,
                                *env,
                            ) && !t.available;
                        assert(tool_source_accepted(sources@[k], *env));
                    }
                }
            }
            assert forall|n: Seq<char>|
                has_tool(registry.tools@, n) <==> (has_tool(held, n) || tool_name_from_sources(
                    n,
                    sources@,
                    i + 1,
                    func_type@,
                    *env,
                )) by {
                let earlier = tool_name_from_sources(n, sources@, i as int, func_type@, *env);
                assert(has_tool(before, n) <==> (has_tool(held, n) || earlier));
                if accepted {
                    assert(has_tool(registry.tools@, n) <==> (has_tool(before, n) || n == name@));
                } else {
                    assert(registry.tools@ == before);
                }
                if earlier {
                    let k = choose|k: int|
                        0 <= k < i && k < sources@.len() && tool_source_accepted(
                            #[trigger] sources@[k],
                            *env,
                        ) && n == func_type@ + "."@ + sources@[k].dirname@;
                    assert(tool_source_accepted(sources@[k], *env));
                }
                if accepted && n == name@ {
                    assert(tool_source_accepted(sources@[i as int], *env));
                }
                if tool_name_from_sources(n, sources@, i + 1, func_type@, *env) {
                    let k = choose|k: int|
                        0 <= k < i + 1 && k < sources@.len() && tool_source_accepted(
                            #[trigger] sources@[k],
                            *env,
                        ) && n == func_type@ + "."@ + sources@[k].dirname@;
                    if k < i {
                        assert(tool_source_accepted(sources@[k], *env));
                        assert(earlier);
                    }
                }
            }
        }
        i = i + 1;
    }
    loaded
}

/// The tool was made from one of the sources that are accepted: from an
/// executable as `tool.exe`, or from a model as `tool.model`.
pub open spec fn tool_loaded_from(
    t: ToolFunction,
    executables: Seq<FunctionSource>,
    executables_dir: Seq<char>,
    models: Seq<FunctionSource>,
    models_dir: Seq<char>,
    function_dir: Seq<char>,
    env: Environment,
) -> bool {
    ||| exists|k: int|
        0 <= k < executables.len() && tool_source_accepted(#[trigger] executables[k], env)
            && tool_made_from(t, executables[k], "tool.exe"@, executables_dir, function_dir, env)
    ||| exists|k: int|
        0 <= k < models.len() && tool_source_accepted(#[trigger] models[k], env)
            && tool_made_from(t, models[k], "tool.model"@, models_dir, function_dir, env)
}

/// The names of the tools that are known to work.
fn available_names(registry: &ToolRegistry) -> (r: Vec<String>)
    ensures
        forall|n: Seq<char>| holds_text(r@, n) <==> is_available(registry.tools@, n),
{
    let mut out: Vec<String> = Vec::new();
    let mut i: usize = 0;
    while i < registry.tools.len()
        invariant
            i <= registry.tools.len(),
            forall|n: Seq<char>|
                holds_text(out@, n) <==> available_among(registry.tools@, i as int, n),
        decreases registry.tools.len() - i,
    {
        let ghost before = out@;
        let tool = &registry.tools[i];
        if tool.available {
            out.push(tool.name.clone());
        }
        proof {
            let tools = registry.tools@;
            assert forall|n: Seq<char>|
                holds_text(out@, n) <==> available_among(tools, i + 1, n) by {
                let earlier = available_among(tools, i as int, n);
                assert(holds_text(before, n) <==> earlier);
                if holds_text(out@, n) {
                    let k = choose|k: int| 0 <= k < out@.len() && (#[trigger] out@[k])@ == n;
                    if k < before.len() {
                        assert(before[k]@ == n);
                        assert(holds_text(before, n));
                    } else {
                        assert(tools[i as int].name@ == n && tools[i as int].available);
                    }
                }
                if earlier {
                    let k = choose|k: int|
                        0 <= k < i && k < tools.len() && (#[trigger] tools[k]).name@ == n
                            && tools[k].available;
                    assert(tools[k].name@ == n && tools[k].available);
                    let b = choose|b: int| 0 <= b < before.len() && (#[trigger] before[b])@ == n;
                    assert(out@[b]@ == n);
                }
                if available_among(tools, i + 1, n) {
                    let k = choose|k: int|
                        0 <= k < i + 1 && k < tools.len() && (#[trigger] tools[k]).name@ == n
                            && tools[k].available;
                    if k < i {
                        assert(tools[k].name@ == n && tools[k].available);
                        assert(earlier);
                    } else {
                        assert(out@[before.len() as int]@ == n);
                    }
                }
            }
        }
        i = i + 1;
    }
    proof {
        let tools = registry.tools@;
        assert forall|n: Seq<char>| holds_text(out@, n) <==> is_available(tools, n) by {
            if available_among(tools, tools.len() as int, n) {
                let k = choose|k: int|
                    0 <= k < tools.len() && k < tools.len() && (#[trigger] tools[k]).name@ == n
                        && tools[k].available;
                assert(tools[k].name@ == n && tools[k].available);
            }
            if is_available(tools, n) {
                let k = choose|k: int|
                    0 <= k < tools.len() && (#[trigger] tools[k]).name@ == n && tools[k].available;
                assert(tools[k].name@ == n && tools[k].available);
            }
        }
    }
    out
}

/// Loads the tools anew: the catalog is emptied, then the executables are
/// loaded as `tool.exe` and the models as `tool.model`. A tool that was known
/// to work before is known to work afterwards, where it is loaded again: the
/// mark is never taken away.
pub fn load_tools(
    registry: &mut ToolRegistry,
    executables: &Vec<FunctionSource>,
    executables_dir: &str,
    models: &Vec<FunctionSource>,
    models_dir: &str,
    function_dir: &str,
    env: &Environment,
)
    ensures
        final(registry).well_formed(env.platform@, env.app_version@),
        forall|n: Seq<char>|
            has_tool(final(registry).tools@, n) <==> (tool_name_from_sources(
                n,
                executables@,
                executables@.len() as int,
                "tool.exe"@,
                *env,
            ) || tool_name_from_sources(n, models@, models@.len() as int, "tool.model"@, *env)),
        forall|i: int|
            0 <= i < final(registry).tools@.len() ==> tool_loaded_from(
                #[trigger] final(registry).tools@[i],
                executables@,
                executables_dir@,
                models@,
                models_dir@,
                function_dir@,
                *env,
            ),
        forall|i: int|
            0 <= i < final(registry).tools@.len() ==> (#[trigger] final(registry).tools@[i]).available
                == is_available(old(registry).tools@, final(registry).tools@[i].name@),
        forall|n: Seq<char>|
            is_available(old(registry).tools@, n) && has_tool(final(registry).tools@, n)
                ==> is_available(final(registry).tools@, n),
{
    let kept = available_names(registry);
    let ghost before = registry.tools@;
    *registry = ToolRegistry::new();
    let ghost empty = registry.tools@;
    load_tool_functions(registry, "tool.exe", executables, executables_dir, function_dir, env);
    let ghost middle = registry.tools@;
    proof {
        assert forall|j: int| 0 <= j < middle.len() implies !(#[trigger] middle[j]).available
            && tool_loaded_from(
            middle[j],
            executables@,
            executables_dir@,
            models@,
            models_dir@,
            function_dir@,
            *env,
        ) by {
            assert(tool_from_sources(
                middle[j],
                empty,
                executables@,
                executables@.len() as int,
                "tool.exe"@,
                executables_dir@,
                function_dir@,
                *env,
            ));
        }
    }
    load_tool_functions(registry, "tool.model", models, models_dir, function_dir, env);
    let ghost loaded = registry.tools@;
    proof {
        assert forall|i: int| 0 <= i < loaded.len() implies !(#[trigger] loaded[i]).available
            && tool_loaded_from(
            loaded[i],
            executables@,
            executables_dir@,
            models@,
            models_dir@,
            function_dir@,
            *env,
        ) by {
            let t = loaded[i];
            assert(tool_from_sources(
                t,
                middle,
                models@,
                models@.len() as int,
                "tool.model"@,
                models_dir@,
                function_dir@,
                *env,
            ));
            if exists|j: int| 0 <= j < middle.len() && #[trigger] middle[j] == t {
                let j = choose|j: int| 0 <= j < middle.len() && #[trigger] middle[j] == t;
                assert(!middle[j].available);
            }
        }
    }
    let mut i: usize = 0;
    while i < registry.tools.len()
        invariant
            i <= registry.tools.len(),
            registry.tools@.len() == loaded.len(),
            forall|k: int|
                0 <= k < i ==> (#[trigger] registry.tools@[k]) == with_mark(
                    loaded[k],
                    holds_text(kept@, loaded[k].name@),
                ),
            forall|k: int| i <= k < loaded.len() ==> (#[trigger] registry.tools@[k]) == loaded[k],
        decreases registry.tools.len() - i,
    {
        if list_holds(&kept, registry.tools[i].name.as_str()) {
            let ghost held = registry.tools@;
            let mut tool = registry.tools.remove(i);
            tool.available = true;
            registry.tools.insert(i, tool);
            proof {
                assert(registry.tools@ =~= held.update(i as int, with_mark(held[i as int], true)));
            }
        }
        i = i + 1;
    }
    proof {
        let after = registry.tools@;
        assert(tool_names(after) =~= tool_names(loaded));
        assert forall|k: int| 0 <= k < after.len() implies {
            &&& (#[trigger] after[k]).name@ == loaded[k].name@
            &&& after[k].matches == loaded[k].matches
            &&& after[k].available == is_available(before, after[k].name@)
            &&& tool_loaded_from(
                after[k],
                executables@,
                executables_dir@,
                models@,
                models_dir@,
                function_dir@,
                *env,
            )
        } by {
            assert(after[k] == with_mark(loaded[k], holds_text(kept@, loaded[k].name@)));
            assert(!loaded[k].available);
            assert(tool_loaded_from(
                loaded[k],
                executables@,
                executables_dir@,
                models@,
                models_dir@,
                function_dir@,
                *env,
            ));
            if exists|c: int|
                0 <= c < executables@.len() && tool_source_accepted(
                    #[trigger] executables@[c],
                    *env,
                ) && tool_made_from(
                    loaded[k],
                    executables@[c],
                    "tool.exe"@,
                    executables_dir@,
                    function_dir@,
                    *env,
                ) {
                let c = choose|c: int|
                    0 <= c < executables@.len() && tool_source_accepted(
                        #[trigger] executables@[c],
                        *env,
                    ) && tool_made_from(
                        loaded[k],
                        executables@[c],
                        "tool.exe"@,
                        executables_dir@,
                        function_dir@,
                        *env,
                    );
                assert(tool_made_from(
                    after[k],
                    executables@[c],
                    "tool.exe"@,
                    executables_dir@,
                    function_dir@,
                    *env,
                ));
            } else {
                let c = choose|c: int|
                    0 <= c < models@.len() && tool_source_accepted(#[trigger] models@[c], *env)
                        && tool_made_from(
                        loaded[k],
                        models@[c],
                        "tool.model"@,
                        models_dir@,
                        function_dir@,
                        *env,
                    );
                assert(tool_made_from(
                    after[k],
                    models@[c],
                    "tool.model"@,
                    models_dir@,
                    function_dir@,
                    *env,
                ));
            }
        }
        assert forall|n: Seq<char>| has_tool(after, n) <==> has_tool(loaded, n) by {
            if has_tool(after, n) {
                let k = choose|k: int| 0 <= k < after.len() && (#[trigger] after[k]).name@ == n;
                assert(loaded[k].name@ == n);
            }
            if has_tool(loaded, n) {
                let k = choose|k: int| 0 <= k < loaded.len() && (#[trigger] loaded[k]).name@ == n;
                assert(after[k].name@ == n);
            }
        }
        assert forall|n: Seq<char>| is_available(before, n) && has_tool(after, n) implies is_available(
            after,
            n,
        ) by {
            let k = choose|k: int| 0 <= k < after.len() && (#[trigger] after[k]).name@ == n;
            assert(after[k].name@ == n && after[k].available);
        }
        assert forall|k: int| 0 <= k < after.len() implies admitted(
            (#[trigger] after[k]).matches@,
            env.platform@,
            env.app_version@,
        ) by {
            assert(admitted(loaded[k].matches@, env.platform@, env.app_version@));
        }
    }
}

/// A tool that a load made from a source is admitted on the platform and for
/// the version of the environment, and is named after its type and the
/// directory of the source: whatever the catalog held before the load.
pub proof fn law_loaded_tool_is_admitted(
    t: ToolFunction,
    s: FunctionSource,
    func_type: Seq<char>,
    category_dir: Seq<char>,
    function_dir: Seq<char>,
    env: Environment,
)
    requires
        tool_made_from(t, s, func_type, category_dir, function_dir, env),
    ensures
        admitted(t.matches@, env.platform@, env.app_version@),
        t.name@ == func_type + "."@ + s.dirname@,
{
}

/// A file function that a load made from a source is admitted on the
/// platform and for the version, and is named after the directory of the
/// source.
pub proof fn law_loaded_function_is_admitted(
    f: FileFunction,
    s: FunctionSource,
    category_dir: Seq<char>,
    function_dir: Seq<char>,
    platform: Seq<char>,
    app_version: Seq<char>,
)
    requires
        file_made_from(f, s, category_dir, function_dir, platform, app_version),
    ensures
        admitted(f.matches@, platform, app_version),
        f.name@ == "file."@ + s.dirname@,
{
}

} // verus!
