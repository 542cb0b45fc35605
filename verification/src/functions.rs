//! Function descriptors: what a file function or a tool declares of itself,
//! and the rule by which a descriptor is admitted on this platform and for
//! this version of the application.

use crate::errors::{failure, CommandError, ErrorKind, ErrorModel};
use crate::json::{
    copy_or_null, entry_trees, lemma_entry_trees_push, lemma_trees, tree, trees, Json, JsonModel,
};
use crate::paths::{holds_text, join_path, list_holds, lowercase, to_lowercase};
use crate::pattern::{regex_compile_error, regex_groups};
use crate::resource::{app_data_dir_of, get_app_data_dir, joined_all, Environment};
use crate::text::{
    concat2, concat4, contains, contains_text, copy_str, split, split_on, str_eq, views,
};
use crate::version::{compare_semver, semver_outcome, version_pattern};
use vstd::prelude::*;
use vstd::string::StringExecFns;

verus! {

/// Adds an entry at the end of an object under construction.
pub fn push_entry(entries: &mut Vec<(String, Json)>, key: &str, value: Json)
    ensures
        entry_trees(final(entries)@) == entry_trees(old(entries)@).push((key@, value@)),
{
    let e = (String::from_str(key), value);
    proof {
        lemma_entry_trees_push(entries@, e);
    }
    entries.push(e);
}

/// How a function presents itself.
#[derive(Clone, Debug)]
pub struct FunctionProfile {
    pub title: Json,
    pub summary: Json,
    pub version: String,
    pub website: String,
    pub authors: Json,
}

pub struct ProfileModel {
    pub title: JsonModel,
    pub summary: JsonModel,
    pub version: Seq<char>,
    pub website: Seq<char>,
    pub authors: JsonModel,
}

impl View for FunctionProfile {
    type V = ProfileModel;

    open spec fn view(&self) -> ProfileModel {
        ProfileModel {
            title: self.title@,
            summary: self.summary@,
            version: self.version@,
            website: self.website@,
            authors: self.authors@,
        }
    }
}

pub open spec fn profile_of(data: JsonModel) -> ProfileModel {
    ProfileModel {
        title: data.member("title"@),
        summary: data.member("summary"@),
        version: data.member("version"@).text_or_empty(),
        website: data.member("website"@).text_or_empty(),
        authors: data.member("authors"@),
    }
}

pub open spec fn profile_json(p: ProfileModel) -> JsonModel {
    JsonModel::Object(
        seq![
            ("authors"@, p.authors),
            ("summary"@, p.summary),
            ("title"@, p.title),
            ("version"@, JsonModel::String(p.version)),
            ("website"@, JsonModel::String(p.website)),
        ],
    )
}

/// The text of an optional member, empty where it is missing or no string.
pub fn text_member(data: &Json, key: &str) -> (r: String)
    ensures
        r@ == data@.member(key@).text_or_empty(),
{
    match data.get_str(key) {
        Some(s) => copy_str(s),
        None => String::new(),
    }
}

impl FunctionProfile {
    pub fn from_json(data: &Json) -> (r: FunctionProfile)
        ensures
            r@ == profile_of(data@),
    {
        FunctionProfile {
            title: copy_or_null(data.get("title")),
            summary: copy_or_null(data.get("summary")),
            version: text_member(data, "version"),
            website: text_member(data, "website"),
            authors: copy_or_null(data.get("authors")),
        }
    }

    pub fn to_json(&self) -> (r: Json)
        ensures
            r@ == profile_json(self@),
    {
        let mut entries: Vec<(String, Json)> = Vec::new();
        push_entry(&mut entries, "authors", self.authors.duplicate());
        push_entry(&mut entries, "summary", self.summary.duplicate());
        push_entry(&mut entries, "title", self.title.duplicate());
        push_entry(&mut entries, "version", Json::String(self.version.clone()));
        push_entry(&mut entries, "website", Json::String(self.website.clone()));
        let r = Json::Object(entries);
        proof {
            assert(r@->Object_0 =~= profile_json(self@)->Object_0);
        }
        r
    }
}

/// What a function applies to: platforms, file extensions, and a range of
/// application versions. Platforms and extensions are sets of lower-case
/// tokens; an empty bound leaves the range open on that side.
#[derive(Clone, Debug)]
pub struct FunctionMatches {
    pub platforms: Vec<String>,
    pub extensions: Vec<String>,
    pub app_version_min: String,
    pub app_version_max: String,
}

/// The lower-case texts of the items of an array, an item that is no string
/// counting as the empty text.
pub open spec fn lowered(items: Seq<JsonModel>) -> Seq<Seq<char>> {
    Seq::new(items.len(), |i: int| lowercase(items[i].text_or_empty()))
}

/// The items of an optional array.
pub open spec fn items_or_none(m: JsonModel) -> Seq<JsonModel> {
    match m {
        JsonModel::Array(items) => items,
        _ => Seq::empty(),
    }
}

/// `v` holds the same texts as `wanted`, each once.
pub open spec fn is_set_of(v: Seq<String>, wanted: Seq<Seq<char>>) -> bool {
    &&& views(v).no_duplicates()
    &&& forall|t: Seq<char>| views(v).contains(t) <==> wanted.contains(t)
}

/// What a sequence holds after a push is what it held before, and the item.
pub proof fn lemma_push_contains(s: Seq<Seq<char>>, x: Seq<char>)
    ensures
        forall|t: Seq<char>| s.push(x).contains(t) <==> (s.contains(t) || t == x),
{
    assert forall|t: Seq<char>| s.push(x).contains(t) <==> (s.contains(t) || t == x) by {
        if s.contains(t) {
            let k = choose|k: int| 0 <= k < s.len() && s[k] == t;
            assert(s.push(x)[k] == t);
        }
        if t == x {
            assert(s.push(x)[s.len() as int] == t);
        }
    }
}

/// Adds a text to a list that holds no text twice, unless the list holds it.
pub fn push_unique(out: &mut Vec<String>, token: String)
    ensures
        views(old(out)@).no_duplicates() ==> views(final(out)@).no_duplicates(),
        forall|t: Seq<char>|
            views(final(out)@).contains(t) <==> (views(old(out)@).contains(t) || t == token@),
        views(old(out)@).contains(token@) ==> final(out)@ == old(out)@,
        !views(old(out)@).contains(token@) ==> final(out)@ == old(out)@.push(token),
{
    let ghost old_views = views(out@);
    let present = list_holds(out, token.as_str());
    proof {
        lemma_holds_is_contains(out@, token@);
        lemma_push_contains(old_views, token@);
    }
    if !present {
        proof {
            assert(views(out@.push(token)) =~= old_views.push(token@));
        }
        out.push(token);
    }
}

/// The lower-case tokens of an array, each once, in the order of their first
/// occurrence.
pub fn lowered_tokens(data: Option<&Json>) -> (r: Vec<String>)
    ensures
        is_set_of(
            r@,
            lowered(
                items_or_none(
                    match data {
                        Some(j) => j@,
                        None => JsonModel::Null,
                    },
                ),
            ),
        ),
{
    let mut out: Vec<String> = Vec::new();
    let items: &Vec<Json> = match data {
        Some(j) => match j.as_array() {
            Some(items) => items,
            None => {
                proof {
                    assert(views(out@) =~= Seq::<Seq<char>>::empty());
                }
                return out;
            },
        },
        None => {
            proof {
                assert(views(out@) =~= Seq::<Seq<char>>::empty());
            }
            return out;
        },
    };
    let ghost models = trees(items@);
    proof {
        lemma_trees(items@);
        assert(views(out@) =~= Seq::<Seq<char>>::empty());
    }
    let mut i: usize = 0;
    while i < items.len()
        invariant
            i <= items.len(),
            models == trees(items@),
            models.len() == items@.len(),
            forall|k: int| 0 <= k < items@.len() ==> (#[trigger] models[k]) == tree(items@[k]),
            views(out@).no_duplicates(),
            forall|t: Seq<char>|
                views(out@).contains(t) <==> lowered(models.take(i as int)).contains(t),
        decreases items.len() - i,
    {
        let token = match items[i].as_str() {
            Some(s) => to_lowercase(s),
            None => to_lowercase(""),
        };
        let ghost before = lowered(models.take(i as int));
        let ghost after = lowered(models.take(i + 1));
        let ghost old_views = views(out@);
        proof {
            reveal_strlit("");
            assert(""@ =~= Seq::<char>::empty());
            assert(models[i as int] == tree(items@[i as int]));
            assert(token@ == lowercase(models[i as int].text_or_empty()));
            assert(after =~= before.push(token@));
            lemma_push_contains(before, token@);
        }
        push_unique(&mut out, token);
        proof {
            assert forall|t: Seq<char>| views(out@).contains(t) <==> after.contains(t) by {
                assert(views(out@).contains(t) <==> (old_views.contains(t) || t == token@));
                assert(after.contains(t) <==> (before.contains(t) || t == token@));
            }
        }
        i = i + 1;
    }
    proof {
        assert(models.take(models.len() as int) =~= models);
    }
    out
}

pub struct MatchesModel {
    pub platforms: Seq<Seq<char>>,
    pub extensions: Seq<Seq<char>>,
    pub app_version_min: Seq<char>,
    pub app_version_max: Seq<char>,
}

impl View for FunctionMatches {
    type V = MatchesModel;

    open spec fn view(&self) -> MatchesModel {
        MatchesModel {
            platforms: views(self.platforms@),
            extensions: views(self.extensions@),
            app_version_min: self.app_version_min@,
            app_version_max: self.app_version_max@,
        }
    }
}

pub open spec fn matches_json(m: MatchesModel) -> JsonModel {
    JsonModel::Object(
        seq![
            (
                "app"@,
                JsonModel::Object(
                    seq![
                        ("max"@, JsonModel::String(m.app_version_max)),
                        ("min"@, JsonModel::String(m.app_version_min)),
                    ],
                ),
            ),
            ("extensions"@, JsonModel::of_texts(m.extensions)),
            ("platforms"@, JsonModel::of_texts(m.platforms)),
        ],
    )
}

impl FunctionMatches {
    /// Reads the `matches` part of a descriptor. Tokens are put in lower case;
    /// a part that is missing is empty.
    pub fn from_json(data: &Json) -> (r: Result<FunctionMatches, CommandError>)
        ensures
            r is Ok,
            is_set_of(r->Ok_0.extensions@, lowered(items_or_none(data@.member("extensions"@)))),
            is_set_of(r->Ok_0.platforms@, lowered(items_or_none(data@.member("platforms"@)))),
            r->Ok_0.app_version_min@ == data@.member("app"@).member("min"@).text_or_empty(),
            r->Ok_0.app_version_max@ == data@.member("app"@).member("max"@).text_or_empty(),
    {
        let extensions = lowered_tokens(data.get("extensions"));
        let platforms = lowered_tokens(data.get("platforms"));
        let (min, max) = match data.get("app") {
            Some(app) => (text_member(app, "min"), text_member(app, "max")),
            None => (String::new(), String::new()),
        };
        Ok(FunctionMatches { platforms, extensions, app_version_min: min, app_version_max: max })
    }

    pub fn to_json(&self) -> (r: Json)
        ensures
            r@ == matches_json(self@),
    {
        let mut app: Vec<(String, Json)> = Vec::new();
        push_entry(&mut app, "max", Json::String(self.app_version_max.clone()));
        push_entry(&mut app, "min", Json::String(self.app_version_min.clone()));
        let app_json = Json::Object(app);
        let mut entries: Vec<(String, Json)> = Vec::new();
        push_entry(&mut entries, "app", app_json);
        push_entry(&mut entries, "extensions", Json::texts(&self.extensions));
        push_entry(&mut entries, "platforms", Json::texts(&self.platforms));
        let r = Json::Object(entries);
        proof {
            assert(app_json@->Object_0 =~= matches_json(self@)->Object_0[0].1->Object_0);
            assert(r@->Object_0 =~= matches_json(self@)->Object_0);
        }
        r
    }

    pub fn has_platform(&self, platform: &str) -> (r: bool)
        ensures
            r == views(self.platforms@).contains(platform@),
    {
        let r = list_holds(&self.platforms, platform);
        proof {
            lemma_holds_is_contains(self.platforms@, platform@);
        }
        r
    }

    pub fn has_extension(&self, token: &str) -> (r: bool)
        ensures
            r == views(self.extensions@).contains(token@),
    {
        let r = list_holds(&self.extensions, token);
        proof {
            lemma_holds_is_contains(self.extensions@, token@);
        }
        r
    }
}

pub proof fn lemma_holds_is_contains(v: Seq<String>, t: Seq<char>)
    ensures
        holds_text(v, t) == views(v).contains(t),
{
    if holds_text(v, t) {
        let i = choose|i: int| 0 <= i < v.len() && (#[trigger] v[i])@ == t;
        assert(views(v)[i] == t);
    }
    if views(v).contains(t) {
        let i = choose|i: int| 0 <= i < views(v).len() && views(v)[i] == t;
        assert(v[i]@ == t);
    }
}

/// The comparison of the running version with a bound gives true.
pub open spec fn version_satisfies(version: Seq<char>, op: Seq<char>, bound: Seq<char>) -> bool {
    regex_compile_error(version_pattern()) is None && semver_outcome(
        regex_groups(version_pattern(), version),
        op,
        regex_groups(version_pattern(), bound),
    ) == Ok::<bool, ErrorModel>(true)
}

/// A descriptor is admitted where its platforms hold the current one or `*`,
/// and the application's version lies within its range, an empty bound
/// leaving the range open.
pub open spec fn admitted(m: MatchesModel, platform: Seq<char>, app_version: Seq<char>) -> bool {
    &&& m.platforms.contains(platform) || m.platforms.contains("*"@)
    &&& m.app_version_min.len() == 0 || version_satisfies(app_version, ">="@, m.app_version_min)
    &&& m.app_version_max.len() == 0 || version_satisfies(app_version, "<="@, m.app_version_max)
}

/// Why a version does not meet a bound: the comparison cannot be made, or it
/// gives false, and then `message` says so.
pub open spec fn bound_refusal(
    version: Seq<char>,
    op: Seq<char>,
    bound: Seq<char>,
    message: Seq<char>,
) -> Option<ErrorModel> {
    match regex_compile_error(version_pattern()) {
        Some(m) => Some(failure(ErrorKind::Format, m)),
        None => match semver_outcome(
            regex_groups(version_pattern(), version),
            op,
            regex_groups(version_pattern(), bound),
        ) {
            Err(e) => Some(e),
            Ok(met) => if met {
                None
            } else {
                Some(failure(ErrorKind::Unsupported, message))
            },
        },
    }
}

/// Why a descriptor is not admitted: it names no platform; it names neither
/// the current platform nor `*`; the application's version is below its
/// lower bound; or above its upper bound. The first of these that holds
/// gives the reason.
pub open spec fn refusal(m: MatchesModel, platform: Seq<char>, app_version: Seq<char>) -> Option<
    ErrorModel,
> {
    if m.platforms.len() == 0 {
        Some(
            failure(
                ErrorKind::Unsupported,
                "Ignore the function, not found platforms in matches"@,
            ),
        )
    } else if !(m.platforms.contains(platform) || m.platforms.contains("*"@)) {
        Some(
            failure(
                ErrorKind::Unsupported,
                "Ignore the function, not match current platform: "@ + platform,
            ),
        )
    } else {
        let below = if m.app_version_min.len() == 0 {
            None
        } else {
            bound_refusal(
                app_version,
                ">="@,
                m.app_version_min,
                "Ignore the function, current app version is lower than min version: "@
                    + app_version + " < "@ + m.app_version_min,
            )
        };
        match below {
            Some(e) => Some(e),
            None => if m.app_version_max.len() == 0 {
                None
            } else {
                bound_refusal(
                    app_version,
                    "<="@,
                    m.app_version_max,
                    "Ignore the function, current app version is higher than max version: "@
                        + app_version + " > "@ + m.app_version_max,
                )
            },
        }
    }
}

/// Whether a descriptor is refused depends on which platforms it names, not
/// on how often or in which order it names them.
pub proof fn lemma_refusal_of_tokens(
    m: MatchesModel,
    w: MatchesModel,
    platform: Seq<char>,
    app_version: Seq<char>,
)
    requires
        forall|t: Seq<char>| m.platforms.contains(t) <==> w.platforms.contains(t),
        m.app_version_min == w.app_version_min,
        m.app_version_max == w.app_version_max,
    ensures
        refusal(m, platform, app_version) == refusal(w, platform, app_version),
{
    if w.platforms.len() > 0 {
        assert(w.platforms.contains(w.platforms[0]));
    }
    if m.platforms.len() > 0 {
        assert(m.platforms.contains(m.platforms[0]));
    }
}

/// What the `matches` part of a configuration says, every token in lower case.
pub open spec fn matches_of(matches: JsonModel) -> MatchesModel {
    MatchesModel {
        platforms: lowered(items_or_none(matches.member("platforms"@))),
        extensions: lowered(items_or_none(matches.member("extensions"@))),
        app_version_min: matches.member("app"@).member("min"@).text_or_empty(),
        app_version_max: matches.member("app"@).member("max"@).text_or_empty(),
    }
}

/// `m` holds what the `matches` part of a configuration says, each token
/// once.
pub open spec fn is_matches_of(m: FunctionMatches, matches: JsonModel) -> bool {
    &&& is_set_of(m.extensions@, matches_of(matches).extensions)
    &&& is_set_of(m.platforms@, matches_of(matches).platforms)
    &&& m.app_version_min@ == matches_of(matches).app_version_min
    &&& m.app_version_max@ == matches_of(matches).app_version_max
}

/// The `matches` part of a configuration admits the platform and the version.
pub open spec fn admitted_by(matches: JsonModel, platform: Seq<char>, app_version: Seq<char>) -> bool {
    admitted(matches_of(matches), platform, app_version)
}

/// Why a configuration has no header that admits the platform and the
/// version.
pub open spec fn header_refusal(config: JsonModel, platform: Seq<char>, app_version: Seq<char>) -> Option<
    ErrorModel,
> {
    if config.member("profile"@) is Null {
        Some(failure(ErrorKind::Format, "Not found `profile` key in config data"@))
    } else if config.member("matches"@) is Null {
        Some(failure(ErrorKind::Format, "Not found `matches` key in config data"@))
    } else {
        refusal(matches_of(config.member("matches"@)), platform, app_version)
    }
}

/// Why a configuration gives no file function.
pub open spec fn file_refusal(config: JsonModel, platform: Seq<char>, app_version: Seq<char>) -> Option<
    ErrorModel,
> {
    let kind = config.member("type"@).text_or_empty();
    if kind != "file"@ {
        Some(failure(ErrorKind::Unsupported, "Ignore the function, type is not file: "@ + kind))
    } else {
        header_refusal(config, platform, app_version)
    }
}

/// Why a configuration gives no tool.
pub open spec fn tool_refusal(config: JsonModel, env: Environment) -> Option<ErrorModel> {
    let kind = config.member("type"@).text_or_empty();
    let paths = config.member("bin"@).member("path"@);
    let choice = bin_path_choice(paths, env.platform@);
    if kind != "tool.exe"@ && kind != "tool.model"@ {
        Some(failure(ErrorKind::Unsupported, "Ignore the function, unknown type: "@ + kind))
    } else {
        match header_refusal(config, env.platform@, env.app_version@) {
            Some(e) => Some(e),
            None => if paths is Null {
                Some(failure(ErrorKind::Format, "Not found `bin.path` key in config data"@))
            } else if choice is Null {
                Some(failure(ErrorKind::NotFound, "Not found bin path for current platform"@))
            } else {
                match bin_path_of(choice.text_or_empty(), app_data_dir_of(env)) {
                    Err(e) => Some(e),
                    Ok(_) => if kind == "tool.exe"@ && items_or_none(
                        config.member("bin"@).member("version_arguments"@),
                    ).len() == 0 {
                        Some(
                            failure(
                                ErrorKind::Format,
                                "Missing `version_arguments` in config data for tool.exe"@,
                            ),
                        )
                    } else {
                        None
                    },
                }
            },
        }
    }
}

/// A configuration has the header of a descriptor, and the header admits the
/// platform and the version.
pub open spec fn header_accepted(
    config: JsonModel,
    platform: Seq<char>,
    app_version: Seq<char>,
) -> bool {
    &&& !(config.member("profile"@) is Null)
    &&& !(config.member("matches"@) is Null)
    &&& admitted_by(config.member("matches"@), platform, app_version)
}

/// A configuration is that of a file function which this platform and version admit.
pub open spec fn file_accepted(config: JsonModel, platform: Seq<char>, app_version: Seq<char>) -> bool {
    &&& config.member("type"@).text_or_empty() == "file"@
    &&& header_accepted(config, platform, app_version)
}

/// A configuration is that of a tool which this platform and version admit,
/// with a path for the platform, and for an executable with the arguments that
/// make it tell its version.
pub open spec fn tool_accepted(config: JsonModel, env: Environment) -> bool {
    let kind = config.member("type"@).text_or_empty();
    let choice = bin_path_choice(config.member("bin"@).member("path"@), env.platform@);
    &&& kind == "tool.exe"@ || kind == "tool.model"@
    &&& header_accepted(config, env.platform@, env.app_version@)
    &&& !(config.member("bin"@).member("path"@) is Null)
    &&& !(choice is Null)
    &&& bin_path_of(choice.text_or_empty(), app_data_dir_of(env)) is Ok
    &&& kind == "tool.exe"@ ==> items_or_none(
        config.member("bin"@).member("version_arguments"@),
    ).len() > 0
}

/// Holds a descriptor to the platform and to the application's version.
pub fn check_admitted(matches: &FunctionMatches, platform: &str, app_version: &str) -> (r: Result<
    (),
    CommandError,
>)
    ensures
        r is Ok <==> admitted(matches@, platform@, app_version@),
        match refusal(matches@, platform@, app_version@) {
            Some(e) => r is Err && r->Err_0@ == e,
            None => r is Ok,
        },
{
    if matches.platforms.len() == 0 {
        proof {
            assert(views(matches.platforms@) =~= Seq::<Seq<char>>::empty());
        }
        return Err(
            CommandError::new(
                ErrorKind::Unsupported,
                "Ignore the function, not found platforms in matches",
            ),
        );
    }
    if !matches.has_platform(platform) && !matches.has_platform("*") {
        return Err(
            CommandError {
                kind: ErrorKind::Unsupported,
                message: concat2("Ignore the function, not match current platform: ", platform),
            },
        );
    }
    if !matches.app_version_min.as_str().is_empty() {
        match compare_semver(app_version, ">=", matches.app_version_min.as_str()) {
            Err(e) => {
                return Err(e);
            },
            Ok(matched) => {
                if !matched {
                    return Err(
                        CommandError {
                            kind: ErrorKind::Unsupported,
                            message: concat4(
                                "Ignore the function, current app version is lower than min version: ",
                                app_version,
                                " < ",
                                matches.app_version_min.as_str(),
                            ),
                        },
                    );
                }
            },
        }
    }
    if !matches.app_version_max.as_str().is_empty() {
        match compare_semver(app_version, "<=", matches.app_version_max.as_str()) {
            Err(e) => {
                return Err(e);
            },
            Ok(matched) => {
                if !matched {
                    return Err(
                        CommandError {
                            kind: ErrorKind::Unsupported,
                            message: concat4(
                                "Ignore the function, current app version is higher than max version: ",
                                app_version,
                                " > ",
                                matches.app_version_max.as_str(),
                            ),
                        },
                    );
                }
            },
        }
    }
    Ok(())
}

/// The header that every descriptor has, read and held to the platform and
/// the version.
fn read_header(config_data: &Json, platform: &str, app_version: &str) -> (r: Result<
    (FunctionProfile, FunctionMatches),
    CommandError,
>)
    ensures
        r is Ok <==> header_accepted(config_data@, platform@, app_version@),
        match header_refusal(config_data@, platform@, app_version@) {
            Some(e) => r is Err && r->Err_0@ == e,
            None => r is Ok,
        },
        match r {
            Ok(h) => {
                &&& !(config_data@.member("profile"@) is Null)
                &&& !(config_data@.member("matches"@) is Null)
                &&& h.0@ == profile_of(config_data@.member("profile"@))
                &&& is_matches_of(h.1, config_data@.member("matches"@))
                &&& admitted(h.1@, platform@, app_version@)
            },
            Err(_) => true,
        },
{
    let profile = match config_data.get("profile") {
        Some(p) => {
            if p.is_null() {
                return Err(
                    CommandError::new(ErrorKind::Format, "Not found `profile` key in config data"),
                );
            }
            FunctionProfile::from_json(p)
        },
        None => {
            return Err(
                CommandError::new(ErrorKind::Format, "Not found `profile` key in config data"),
            );
        },
    };
    let matches = match config_data.get("matches") {
        Some(m) => {
            if m.is_null() {
                return Err(
                    CommandError::new(ErrorKind::Format, "Not found `matches` key in config data"),
                );
            }
            match FunctionMatches::from_json(m) {
                Ok(x) => x,
                Err(e) => {
                    return Err(e);
                },
            }
        },
        None => {
            return Err(
                CommandError::new(ErrorKind::Format, "Not found `matches` key in config data"),
            );
        },
    };
    proof {
        lemma_refusal_of_tokens(
            matches@,
            matches_of(config_data@.member("matches"@)),
            platform@,
            app_version@,
        );
    }
    match check_admitted(&matches, platform, app_version) {
        Ok(_) => Ok((profile, matches)),
        Err(e) => Err(e),
    }
}

/// A function that works on files, run by a worker script.
#[derive(Clone, Debug)]
pub struct FileFunction {
    pub name: String,
    pub func_type: String,
    pub profile: FunctionProfile,
    pub matches: FunctionMatches,
    pub variables: Json,
    pub worker_file: String,
    pub worker_utils_file: String,
}

/// `f` is the file function that a configuration declares under the given
/// name, with the given worker scripts: profile, matches and variables are
/// those of the configuration, and the matches admit the platform and the
/// version.
pub open spec fn is_file_function_of(
    f: FileFunction,
    name: Seq<char>,
    config: JsonModel,
    worker_file: Seq<char>,
    worker_utils_file: Seq<char>,
    platform: Seq<char>,
    app_version: Seq<char>,
) -> bool {
    &&& config.member("type"@).text_or_empty() == "file"@
    &&& f.name@ == name
    &&& f.func_type@ == "file"@
    &&& f.profile@ == profile_of(config.member("profile"@))
    &&& is_matches_of(f.matches, config.member("matches"@))
    &&& admitted(f.matches@, platform, app_version)
    &&& f.variables@ == config.member("variables"@)
    &&& f.worker_file@ == worker_file
    &&& f.worker_utils_file@ == worker_utils_file
}

impl FileFunction {
    /// Builds the descriptor of a file function from its configuration. The
    /// type has to be `file`, profile and matches have to be there, and the
    /// descriptor has to be admitted on this platform and for this version.
    pub fn new(
        name: &str,
        config_data: &Json,
        worker_file: &String,
        worker_utils_file: &String,
        platform: &str,
        app_version: &str,
    ) -> (r: Result<FileFunction, CommandError>)
        ensures
            r is Ok <==> file_accepted(config_data@, platform@, app_version@),
            match file_refusal(config_data@, platform@, app_version@) {
                Some(e) => r is Err && r->Err_0@ == e,
                None => r is Ok,
            },
            match r {
                Ok(f) => is_file_function_of(
                    f,
                    name@,
                    config_data@,
                    worker_file@,
                    worker_utils_file@,
                    platform@,
                    app_version@,
                ),
                Err(_) => true,
            },
    {
        let func_type = text_member(config_data, "type");
        if !str_eq(func_type.as_str(), "file") {
            return Err(
                CommandError {
                    kind: ErrorKind::Unsupported,
                    message: concat2("Ignore the function, type is not file: ", func_type.as_str()),
                },
            );
        }
        let (profile, matches) = match read_header(config_data, platform, app_version) {
            Ok(h) => h,
            Err(e) => {
                return Err(e);
            },
        };
        Ok(
            FileFunction {
                name: String::from_str(name),
                func_type,
                profile,
                matches,
                variables: copy_or_null(config_data.get("variables")),
                worker_file: worker_file.clone(),
                worker_utils_file: worker_utils_file.clone(),
            },
        )
    }

    pub fn to_json(&self) -> (r: Json)
        ensures
            r@ == file_json(*self),
    {
        let mut entries: Vec<(String, Json)> = Vec::new();
        push_entry(&mut entries, "func_type", Json::String(self.func_type.clone()));
        push_entry(&mut entries, "matches", self.matches.to_json());
        push_entry(&mut entries, "name", Json::String(self.name.clone()));
        push_entry(&mut entries, "profile", self.profile.to_json());
        push_entry(&mut entries, "variables", self.variables.duplicate());
        push_entry(&mut entries, "worker_file", Json::String(self.worker_file.clone()));
        push_entry(&mut entries, "worker_utils_file", Json::String(self.worker_utils_file.clone()));
        let r = Json::Object(entries);
        proof {
            assert(r@->Object_0 =~= file_json(*self)->Object_0);
        }
        r
    }
}

/// A file function as the user interface receives it.
pub open spec fn file_json(f: FileFunction) -> JsonModel {
    JsonModel::Object(
        seq![
            ("func_type"@, JsonModel::String(f.func_type@)),
            ("matches"@, matches_json(f.matches@)),
            ("name"@, JsonModel::String(f.name@)),
            ("profile"@, profile_json(f.profile@)),
            ("variables"@, f.variables@),
            ("worker_file"@, JsonModel::String(f.worker_file@)),
            ("worker_utils_file"@, JsonModel::String(f.worker_utils_file@)),
        ],
    )
}

/// A tool: an executable or a model file that a descriptor declares, with the
/// arguments that make an executable tell its version.
#[derive(Clone, Debug)]
pub struct ToolFunction {
    pub name: String,
    pub func_type: String,
    pub profile: FunctionProfile,
    pub matches: FunctionMatches,
    pub worker_file: String,
    pub worker_utils_file: String,
    pub bin_path: String,
    pub bin_version_args: Vec<String>,
    pub required_bin_version_min: String,
    pub required_bin_version_max: String,
    pub installation: Json,
    /// Whether the tool was found to work.
    pub available: bool,
    pub version: String,
}

/// The path that a descriptor gives for the platform: the one under the
/// platform's name, else the one under `*`, else nothing.
pub open spec fn bin_path_choice(paths: JsonModel, platform: Seq<char>) -> JsonModel {
    match paths.field(platform) {
        Some(p) => p,
        None => paths.member("*"@),
    }
}

/// Where the tool lies: a path with `/` in it is taken below the
/// application's data directory, component by component; any other is taken
/// as it stands.
pub open spec fn bin_path_of(text: Seq<char>, app_data_dir: Result<Seq<char>, ErrorModel>) -> Result<
    Seq<char>,
    ErrorModel,
> {
    if contains_text(text, "/"@) {
        match app_data_dir {
            Ok(d) => Ok(joined_all(d, split_on(text, "/"@))),
            Err(e) => Err(e),
        }
    } else {
        Ok(text)
    }
}

/// The texts of the items of an array, an item that is no string counting as
/// the empty text.
pub open spec fn texts_of(items: Seq<JsonModel>) -> Seq<Seq<char>> {
    Seq::new(items.len(), |i: int| items[i].text_or_empty())
}

pub fn texts_in(data: Option<&Json>) -> (r: Vec<String>)
    ensures
        views(r@) == texts_of(
            items_or_none(
                match data {
                    Some(j) => j@,
                    None => JsonModel::Null,
                },
            ),
        ),
{
    let mut out: Vec<String> = Vec::new();
    let items: &Vec<Json> = match data {
        Some(j) => match j.as_array() {
            Some(items) => items,
            None => {
                proof {
                    assert(views(out@) =~= Seq::<Seq<char>>::empty());
                }
                return out;
            },
        },
        None => {
            proof {
                assert(views(out@) =~= Seq::<Seq<char>>::empty());
            }
            return out;
        },
    };
    proof {
        lemma_trees(items@);
    }
    let mut i: usize = 0;
    while i < items.len()
        invariant
            i <= items.len(),
            trees(items@).len() == items@.len(),
            forall|k: int|
                0 <= k < items@.len() ==> (#[trigger] trees(items@)[k]) == tree(items@[k]),
            views(out@) =~= texts_of(trees(items@).take(i as int)),
        decreases items.len() - i,
    {
        let t = match items[i].as_str() {
            Some(s) => copy_str(s),
            None => String::new(),
        };
        proof {
            assert(trees(items@)[i as int] == tree(items@[i as int]));
            assert(t@ == trees(items@)[i as int].text_or_empty());
            assert(views(out@.push(t)) =~= views(out@).push(t@));
            assert(texts_of(trees(items@).take(i + 1)) =~= texts_of(
                trees(items@).take(i as int),
            ).push(t@));
        }
        out.push(t);
        i = i + 1;
    }
    proof {
        assert(trees(items@).take(items@.len() as int) =~= trees(items@));
    }
    out
}

/// `t` is the tool that a configuration declares under the given name, with
/// the given worker scripts: type, profile and matches are those of the
/// configuration, and the matches admit the environment; the path is the one
/// the configuration gives for the platform; the arguments that make the
/// tool tell its version, the range of versions it has to have and what is
/// said of its installation are those of the configuration. Whether the tool
/// is known to work is no part of this.
pub open spec fn is_tool_of(
    t: ToolFunction,
    name: Seq<char>,
    config: JsonModel,
    worker_file: Seq<char>,
    worker_utils_file: Seq<char>,
    env: Environment,
) -> bool {
    let bin = config.member("bin"@);
    &&& t.name@ == name
    &&& t.func_type@ == config.member("type"@).text_or_empty()
    &&& t.func_type@ == "tool.exe"@ || t.func_type@ == "tool.model"@
    &&& t.profile@ == profile_of(config.member("profile"@))
    &&& is_matches_of(t.matches, config.member("matches"@))
    &&& admitted(t.matches@, env.platform@, env.app_version@)
    &&& !(bin_path_choice(bin.member("path"@), env.platform@) is Null)
    &&& bin_path_of(
        bin_path_choice(bin.member("path"@), env.platform@).text_or_empty(),
        app_data_dir_of(env),
    ) == Ok::<Seq<char>, ErrorModel>(t.bin_path@)
    &&& views(t.bin_version_args@) == texts_of(items_or_none(bin.member("version_arguments"@)))
    &&& t.func_type@ == "tool.exe"@ ==> t.bin_version_args@.len() > 0
    &&& t.required_bin_version_min@ == bin.member("required_version"@).member(
        "min"@,
    ).text_or_empty()
    &&& t.required_bin_version_max@ == bin.member("required_version"@).member(
        "max"@,
    ).text_or_empty()
    &&& t.installation@ == bin.member("installation"@)
    &&& t.worker_file@ == worker_file
    &&& t.worker_utils_file@ == worker_utils_file
    &&& t.version@.len() == 0
}

impl ToolFunction {
    /// Builds the descriptor of a tool from its configuration. The type has to
    /// be `tool.exe` or `tool.model`; the descriptor has to be admitted on this
    /// platform and for this version; it has to name a path for the platform;
    /// and an executable has to say with which arguments it tells its version.
    /// A new tool is not yet known to be available.
    pub fn new(
        name: &String,
        config_data: &Json,
        worker_file: &String,
        worker_utils_file: &String,
        env: &Environment,
    ) -> (r: Result<ToolFunction, CommandError>)
        ensures
            r is Ok <==> tool_accepted(config_data@, *env),
            match tool_refusal(config_data@, *env) {
                Some(e) => r is Err && r->Err_0@ == e,
                None => r is Ok,
            },
            match r {
                Ok(t) => is_tool_of(t, name@, config_data@, worker_file@, worker_utils_file@, *env)
                    && !t.available,
                Err(_) => true,
            },
    {
        let func_type = text_member(config_data, "type");
        if !str_eq(func_type.as_str(), "tool.exe") && !str_eq(func_type.as_str(), "tool.model") {
            return Err(
                CommandError {
                    kind: ErrorKind::Unsupported,
                    message: concat2("Ignore the function, unknown type: ", func_type.as_str()),
                },
            );
        }
        let (profile, matches) = match read_header(
            config_data,
            env.platform.as_str(),
            env.app_version.as_str(),
        ) {
            Ok(h) => h,
            Err(e) => {
                return Err(e);
            },
        };
        let bin: Option<&Json> = config_data.get("bin");
        let all_bin_paths: Option<&Json> = match bin {
            Some(b) => b.get("path"),
            None => None,
        };
        let all_bin_paths: &Json = match all_bin_paths {
            Some(p) => p,
            None => {
                return Err(
                    CommandError::new(ErrorKind::Format, "Not found `bin.path` key in config data"),
                );
            },
        };
        if all_bin_paths.is_null() {
            return Err(
                CommandError::new(ErrorKind::Format, "Not found `bin.path` key in config data"),
            );
        }
        let path_json: Option<&Json> = match all_bin_paths.get(env.platform.as_str()) {
            Some(p) => Some(p),
            None => all_bin_paths.get("*"),
        };
        let path_json: &Json = match path_json {
            Some(p) => p,
            None => {
                return Err(
                    CommandError::new(ErrorKind::NotFound, "Not found bin path for current platform"),
                );
            },
        };
        if path_json.is_null() {
            return Err(
                CommandError::new(ErrorKind::NotFound, "Not found bin path for current platform"),
            );
        }
        let path_str: &str = match path_json.as_str() {
            Some(s) => s,
            None => "",
        };
        proof {
            reveal_strlit("");
            assert(""@ =~= Seq::<char>::empty());
        }
        let bin_path: String = if contains(path_str, "/") {
            let parts = split(path_str, "/");
            let base = match get_app_data_dir(env) {
                Ok(d) => d,
                Err(e) => {
                    return Err(e);
                },
            };
            let mut p = base;
            let mut i: usize = 0;
            proof {
                assert(views(parts@).take(0).len() == 0);
            }
            while i < parts.len()
                invariant
                    i <= parts.len(),
                    p@ == joined_all(base@, views(parts@).take(i as int)),
                decreases parts.len() - i,
            {
                proof {
                    assert(views(parts@).take(i + 1).drop_last() =~= views(parts@).take(i as int));
                }
                p = join_path(p.as_str(), parts[i].as_str());
                i = i + 1;
            }
            proof {
                assert(views(parts@).take(parts@.len() as int) =~= views(parts@));
            }
            p
        } else {
            copy_str(path_str)
        };
        let bin_ref: &Json = match bin {
            Some(b) => b,
            None => {
                return Err(
                    CommandError::new(ErrorKind::Format, "Not found `bin.path` key in config data"),
                );
            },
        };
        let version_arguments = texts_in(bin_ref.get("version_arguments"));
        proof {
            let items = items_or_none(config_data@.member("bin"@).member("version_arguments"@));
            assert(views(version_arguments@).len() == version_arguments@.len());
            assert(texts_of(items).len() == items.len());
        }
        if str_eq(func_type.as_str(), "tool.exe") && version_arguments.len() == 0 {
            return Err(
                CommandError::new(
                    ErrorKind::Format,
                    "Missing `version_arguments` in config data for tool.exe",
                ),
            );
        }
        let (required_min, required_max) = match bin_ref.get("required_version") {
            Some(rv) => (text_member(rv, "min"), text_member(rv, "max")),
            None => (String::new(), String::new()),
        };
        Ok(
            ToolFunction {
                name: name.clone(),
                func_type,
                profile,
                matches,
                worker_file: worker_file.clone(),
                worker_utils_file: worker_utils_file.clone(),
                bin_path,
                bin_version_args: version_arguments,
                required_bin_version_min: required_min,
                required_bin_version_max: required_max,
                installation: copy_or_null(bin_ref.get("installation")),
                available: false,
                version: String::new(),
            },
        )
    }

    pub fn to_json(&self) -> (r: Json)
        ensures
            r@ == tool_json(*self),
    {
        let mut required: Vec<(String, Json)> = Vec::new();
        push_entry(&mut required, "max", Json::String(self.required_bin_version_max.clone()));
        push_entry(&mut required, "min", Json::String(self.required_bin_version_min.clone()));
        let required_json = Json::Object(required);
        let mut entries: Vec<(String, Json)> = Vec::new();
        push_entry(&mut entries, "available", Json::Bool(self.available));
        push_entry(&mut entries, "bin_path", Json::String(self.bin_path.clone()));
        push_entry(&mut entries, "bin_version_args", Json::texts(&self.bin_version_args));
        push_entry(&mut entries, "func_type", Json::String(self.func_type.clone()));
        push_entry(&mut entries, "installation", self.installation.duplicate());
        push_entry(&mut entries, "matches", self.matches.to_json());
        push_entry(&mut entries, "name", Json::String(self.name.clone()));
        push_entry(&mut entries, "profile", self.profile.to_json());
        push_entry(&mut entries, "required_bin_version", required_json);
        push_entry(&mut entries, "version", Json::String(self.version.clone()));
        push_entry(&mut entries, "worker_file", Json::String(self.worker_file.clone()));
        push_entry(&mut entries, "worker_utils_file", Json::String(self.worker_utils_file.clone()));
        let r = Json::Object(entries);
        proof {
            assert(required_json@->Object_0 =~= tool_json(*self)->Object_0[8].1->Object_0);
            assert(r@->Object_0 =~= tool_json(*self)->Object_0);
        }
        r
    }
}

/// A tool descriptor as the user interface receives it.
pub open spec fn tool_json(t: ToolFunction) -> JsonModel {
    JsonModel::Object(
        seq![
            ("available"@, JsonModel::Bool(t.available)),
            ("bin_path"@, JsonModel::String(t.bin_path@)),
            ("bin_version_args"@, JsonModel::of_texts(views(t.bin_version_args@))),
            ("func_type"@, JsonModel::String(t.func_type@)),
            ("installation"@, t.installation@),
            ("matches"@, matches_json(t.matches@)),
            ("name"@, JsonModel::String(t.name@)),
            ("profile"@, profile_json(t.profile@)),
            (
                "required_bin_version"@,
                JsonModel::Object(
                    seq![
                        ("max"@, JsonModel::String(t.required_bin_version_max@)),
                        ("min"@, JsonModel::String(t.required_bin_version_min@)),
                    ],
                ),
            ),
            ("version"@, JsonModel::String(t.version@)),
            ("worker_file"@, JsonModel::String(t.worker_file@)),
            ("worker_utils_file"@, JsonModel::String(t.worker_utils_file@)),
        ],
    )
}

} // verus!
