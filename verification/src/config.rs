//! The settings that the user interface keeps: one document for each domain
//! and scope, read and changed through four actions.

use crate::errors::{failure, CallError, CommandError, ErrorKind};
use crate::functions::push_entry;
use crate::json::{copy_or_null, entry_trees, lookup, set_entry, trees, with_entry, Json, JsonModel};
use crate::paths::{join_path, joined};
use crate::text::{concat2, concat4, str_eq};
use vstd::prelude::*;
use vstd::string::StringExecFns;

verus! {

/// What is known of the running application.
#[derive(Clone, Debug)]
pub struct AppStatus {
    pub version: String,
}

impl AppStatus {
    /// The status before the version is known.
    pub fn new() -> (r: AppStatus)
        ensures
            r.version@ == "unknown"@,
    {
        AppStatus { version: String::from_str("unknown") }
    }
}

/// The settings of one domain and scope.
#[derive(Clone, Debug)]
pub struct AppConfig {
    config: Json,
    domain: String,
    scope: String,
}

/// What was found where the settings are kept.
#[derive(Clone, Debug)]
pub enum Stored {
    /// There is no file.
    Missing,
    /// The file holds this document.
    Document(Json),
    /// The file could not be read or understood, for this reason.
    Unreadable(String),
}

/// The document with the member `key` for each key of `keys`, taken from
/// `config`; a key that `config` does not have gives null.
pub open spec fn picked(config: JsonModel, keys: Seq<JsonModel>) -> Seq<(Seq<char>, JsonModel)>
    decreases keys.len(),
{
    if keys.len() == 0 {
        Seq::empty()
    } else {
        let front = picked(config, keys.drop_last());
        match keys.last() {
            JsonModel::String(k) => with_entry(front, k, config.member(k)),
            _ => front,
        }
    }
}

/// The entries with every entry of `changes` bound in turn: a member that is
/// there is replaced, a new one is added at the end.
pub open spec fn merged_entries(
    entries: Seq<(Seq<char>, JsonModel)>,
    changes: Seq<(Seq<char>, JsonModel)>,
) -> Seq<(Seq<char>, JsonModel)>
    decreases changes.len(),
{
    if changes.len() == 0 {
        entries
    } else {
        with_entry(
            merged_entries(entries, changes.drop_last()),
            changes.last().0,
            changes.last().1,
        )
    }
}

/// The entries of a document that is to be changed member by member: those of
/// an object, none for null.
pub open spec fn base_entries(config: JsonModel) -> Option<Seq<(Seq<char>, JsonModel)>> {
    match config {
        JsonModel::Object(entries) => Some(entries),
        JsonModel::Null => Some(Seq::empty()),
        _ => None,
    }
}

impl AppConfig {
    pub closed spec fn document(&self) -> JsonModel {
        self.config@
    }

    pub closed spec fn domain_name(&self) -> Seq<char> {
        self.domain@
    }

    pub closed spec fn scope_name(&self) -> Seq<char> {
        self.scope@
    }

    /// Settings that hold nothing yet.
    pub fn new(domain: &str, scope: &str) -> (r: AppConfig)
        ensures
            r.document() == JsonModel::Object(Seq::empty()),
            r.domain_name() == domain@,
            r.scope_name() == scope@,
    {
        AppConfig {
            config: Json::empty_object(),
            domain: String::from_str(domain),
            scope: String::from_str(scope),
        }
    }

    /// The file in which the settings are kept, below the application's data
    /// directory: `settings/<domain>/<scope>.json`.
    pub fn get_file(&self, app_data_dir: &str) -> (r: String)
        ensures
            r@ == joined(
                joined(joined(app_data_dir@, "settings"@), self.domain_name()),
                self.scope_name() + ".json"@,
            ),
    {
        let filename = concat2(self.scope.as_str(), ".json");
        let settings = join_path(app_data_dir, "settings");
        let dir = join_path(settings.as_str(), self.domain.as_str());
        join_path(dir.as_str(), filename.as_str())
    }

    /// Takes over what was found in the file. Where there is no file the
    /// settings are empty, and the file is to be created with an empty
    /// document: the result says so. Where the file could not be read the
    /// settings stay as they are.
    pub fn load_from_file(&mut self, stored: Stored) -> (r: Result<bool, CommandError>)
        ensures
            final(self).domain_name() == old(self).domain_name(),
            final(self).scope_name() == old(self).scope_name(),
            match stored {
                Stored::Missing => r == Ok::<bool, CommandError>(true) && final(self).document()
                    == JsonModel::Object(Seq::empty()),
                Stored::Document(d) => r == Ok::<bool, CommandError>(false) && final(self).document() == d@,
                Stored::Unreadable(m) => r is Err && r->Err_0@ == failure(ErrorKind::Io, m@)
                    && final(self).document() == old(self).document(),
            },
    {
        match stored {
            Stored::Missing => {
                self.config = Json::empty_object();
                Ok(true)
            },
            Stored::Document(d) => {
                self.config = d;
                Ok(false)
            },
            Stored::Unreadable(m) => Err(CommandError { kind: ErrorKind::Io, message: m }),
        }
    }

    /// The whole document.
    pub fn get_all(&self) -> (r: Result<Json, CommandError>)
        ensures
            r is Ok,
            r->Ok_0@ == self.document(),
    {
        Ok(self.config.duplicate())
    }

    /// The members that `args`, an array of keys, asks for.
    pub fn get(&self, args: &Json) -> (r: Result<Json, CommandError>)
        ensures
            match args@ {
                JsonModel::Array(keys) => r is Ok && r->Ok_0@ == JsonModel::Object(
                    picked(self.document(), keys),
                ),
                _ => r is Err && r->Err_0@ == failure(
                    ErrorKind::Param,
                    "Invalid args, require an array"@,
                ),
            },
    {
        let keys: &Vec<Json> = match args.as_array() {
            Some(k) => k,
            None => {
                return Err(CommandError::new(ErrorKind::Param, "Invalid args, require an array"));
            },
        };
        let mut entries: Vec<(String, Json)> = Vec::new();
        let mut i: usize = 0;
        proof {
            assert(keys@.take(0) =~= Seq::<Json>::empty());
        }
        while i < keys.len()
            invariant
                i <= keys.len(),
                entry_trees(entries@) == picked(self.config@, trees(keys@.take(i as int))),
            decreases keys.len() - i,
        {
            proof {
                crate::json::lemma_trees_push(keys@.take(i as int), keys@[i as int]);
                assert(keys@.take(i + 1) =~= keys@.take(i as int).push(keys@[i as int]));
                assert(trees(keys@.take(i + 1)).drop_last() =~= trees(keys@.take(i as int)));
            }
            match keys[i].as_str() {
                Some(k) => {
                    let value = copy_or_null(self.config.get(k));
                    set_entry(&mut entries, k, value);
                },
                None => {},
            }
            i = i + 1;
        }
        proof {
            assert(keys@.take(keys@.len() as int) =~= keys@);
        }
        Ok(Json::Object(entries))
    }

    /// Replaces the whole document.
    pub fn set_all(&mut self, data: Json) -> (r: Result<Json, CommandError>)
        ensures
            final(self).document() == data@,
            final(self).domain_name() == old(self).domain_name(),
            final(self).scope_name() == old(self).scope_name(),
            r is Ok,
            r->Ok_0@ == JsonModel::Object(seq![("all"@, JsonModel::String("ok"@))]),
    {
        self.config = data;
        let mut entries: Vec<(String, Json)> = Vec::new();
        push_entry(&mut entries, "all", Json::text("ok"));
        let reply = Json::Object(entries);
        proof {
            assert(reply@->Object_0 =~= seq![("all"@, JsonModel::String("ok"@))]);
        }
        Ok(reply)
    }

    /// Sets the members that `args`, an object, holds: a member that the
    /// document has is replaced, any other is added; the other members of the
    /// document stay. The reply is `args`.
    pub fn set(&mut self, args: &Json) -> (r: Result<Json, CommandError>)
        ensures
            final(self).domain_name() == old(self).domain_name(),
            final(self).scope_name() == old(self).scope_name(),
            match args@ {
                JsonModel::Object(changes) => match base_entries(old(self).document()) {
                    Some(entries) => r is Ok && r->Ok_0@ == args@ && final(self).document()
                        == JsonModel::Object(merged_entries(entries, changes)),
                    None => r is Err && r->Err_0@ == failure(
                        ErrorKind::Format,
                        "Invalid config, require an object"@,
                    ) && final(self).document() == old(self).document(),
                },
                _ => r is Err && r->Err_0@ == failure(
                    ErrorKind::Param,
                    "Invalid args, require an object"@,
                ) && final(self).document() == old(self).document(),
            },
    {
        let changes: &Vec<(String, Json)> = match args.as_object() {
            Some(c) => c,
            None => {
                return Err(CommandError::new(ErrorKind::Param, "Invalid args, require an object"));
            },
        };
        let mut entries: Vec<(String, Json)> = match &self.config {
            Json::Object(_) => {
                match self.config.duplicate() {
                    Json::Object(e) => e,
                    _ => Vec::new(),
                }
            },
            Json::Null => Vec::new(),
            _ => {
                return Err(
                    CommandError::new(ErrorKind::Format, "Invalid config, require an object"),
                );
            },
        };
        let ghost base = entry_trees(entries@);
        let mut i: usize = 0;
        proof {
            assert(changes@.take(0) =~= Seq::<(String, Json)>::empty());
        }
        while i < changes.len()
            invariant
                i <= changes.len(),
                entry_trees(entries@) == merged_entries(
                    base,
                    entry_trees(changes@.take(i as int)),
                ),
            decreases changes.len() - i,
        {
            proof {
                crate::json::lemma_entry_trees_push(changes@.take(i as int), changes@[i as int]);
                assert(changes@.take(i + 1) =~= changes@.take(i as int).push(changes@[i as int]));
                assert(entry_trees(changes@.take(i + 1)).drop_last() =~= entry_trees(
                    changes@.take(i as int),
                ));
            }
            set_entry(&mut entries, changes[i].0.as_str(), changes[i].1.duplicate());
            i = i + 1;
        }
        proof {
            assert(changes@.take(changes@.len() as int) =~= changes@);
        }
        self.config = Json::Object(entries);
        Ok(args.duplicate())
    }
}

/// Whose settings a call is about.
#[derive(Clone, Copy, Debug, PartialEq, Eq, Structural)]
pub enum ConfigScope {
    Ui,
    FileFunction,
}

/// What a call does with the settings.
#[derive(Clone, Copy, Debug, PartialEq, Eq, Structural)]
pub enum ConfigAction {
    GetSome,
    SetSome,
    GetAll,
    SetAll,
}

impl ConfigAction {
    pub open spec fn text(self) -> Seq<char> {
        match self {
            ConfigAction::GetSome => "get"@,
            ConfigAction::SetSome => "set"@,
            ConfigAction::GetAll => "get_all"@,
            ConfigAction::SetAll => "set_all"@,
        }
    }

    pub fn as_str(&self) -> (r: &'static str)
        ensures
            r@ == self.text(),
    {
        match self {
            ConfigAction::GetSome => "get",
            ConfigAction::SetSome => "set",
            ConfigAction::GetAll => "get_all",
            ConfigAction::SetAll => "set_all",
        }
    }

    /// The action changes the document, which then has to be saved.
    pub open spec fn changes(self) -> bool {
        self == ConfigAction::SetSome || self == ConfigAction::SetAll
    }
}

pub open spec fn scope_of(scope: Seq<char>) -> Option<ConfigScope> {
    if scope == "ui"@ {
        Some(ConfigScope::Ui)
    } else if scope == "file_function"@ {
        Some(ConfigScope::FileFunction)
    } else {
        None
    }
}

pub open spec fn config_action_of(action: Seq<char>) -> Option<ConfigAction> {
    if action == "get"@ {
        Some(ConfigAction::GetSome)
    } else if action == "set"@ {
        Some(ConfigAction::SetSome)
    } else if action == "get_all"@ {
        Some(ConfigAction::GetAll)
    } else if action == "set_all"@ {
        Some(ConfigAction::SetAll)
    } else {
        None
    }
}

/// Reads the scope and the action of a call; the scope is looked at first.
pub fn check_config_call(scope: &str, action: &str) -> (r: Result<
    (ConfigScope, ConfigAction),
    CallError,
>)
    ensures
        match scope_of(scope@) {
            None => r is Err && r->Err_0@ == "Invalid scope: "@ + scope@,
            Some(s) => match config_action_of(action@) {
                None => r is Err && r->Err_0@ == "Invalid action: "@ + action@,
                Some(a) => r == Ok::<(ConfigScope, ConfigAction), CallError>((s, a)),
            },
        },
{
    let s = if str_eq(scope, "ui") {
        ConfigScope::Ui
    } else if str_eq(scope, "file_function") {
        ConfigScope::FileFunction
    } else {
        return Err(CallError::new(concat2("Invalid scope: ", scope).as_str()));
    };
    let a = if str_eq(action, "get") {
        ConfigAction::GetSome
    } else if str_eq(action, "set") {
        ConfigAction::SetSome
    } else if str_eq(action, "get_all") {
        ConfigAction::GetAll
    } else if str_eq(action, "set_all") {
        ConfigAction::SetAll
    } else {
        return Err(CallError::new(concat2("Invalid action: ", action).as_str()));
    };
    Ok((s, a))
}

/// The failure of an action on the settings, as the caller is told.
pub fn config_failure(action: ConfigAction, message: &str) -> (e: CallError)
    ensures
        e@ == "Failed to "@ + action.text() + " config: "@ + message@,
{
    CallError::new(concat4("Failed to ", action.as_str(), " config: ", message).as_str())
}

/// Carries out an action on the settings. After an action that changes the
/// document, the document has to be saved.
pub fn route(config: &mut AppConfig, action: ConfigAction, args: Json) -> (r: Result<
    Json,
    CallError,
>)
    ensures
        final(config).domain_name() == old(config).domain_name(),
        final(config).scope_name() == old(config).scope_name(),
        !action.changes() ==> final(config).document() == old(config).document(),
        match action {
            ConfigAction::GetAll => r is Ok && r->Ok_0@ == old(config).document(),
            ConfigAction::SetAll => r is Ok && r->Ok_0@ == JsonModel::Object(
                seq![("all"@, JsonModel::String("ok"@))],
            ) && final(config).document() == args@,
            ConfigAction::GetSome => match args@ {
                JsonModel::Array(keys) => r is Ok && r->Ok_0@ == JsonModel::Object(
                    picked(old(config).document(), keys),
                ),
                _ => r is Err && r->Err_0@ == "Failed to get config: "@
                    + "Invalid args, require an array"@,
            },
            ConfigAction::SetSome => match args@ {
                JsonModel::Object(changes) => match base_entries(old(config).document()) {
                    Some(entries) => r is Ok && r->Ok_0@ == args@ && final(config).document()
                        == JsonModel::Object(merged_entries(entries, changes)),
                    None => r is Err && r->Err_0@ == "Failed to set config: "@
                        + "Invalid config, require an object"@ && final(config).document()
                        == old(config).document(),
                },
                _ => r is Err && r->Err_0@ == "Failed to set config: "@
                    + "Invalid args, require an object"@ && final(config).document() == old(config).document(),
            },
        },
{
    let outcome = match action {
        ConfigAction::GetAll => config.get_all(),
        ConfigAction::GetSome => config.get(&args),
        ConfigAction::SetAll => config.set_all(args),
        ConfigAction::SetSome => config.set(&args),
    };
    match outcome {
        Ok(data) => Ok(data),
        Err(e) => {
            proof {
                assert(("Failed to "@ + action.text() + " config: "@) + e.message@ =~= "Failed to "@
                    + action.text() + " config: "@ + e.message@);
                reveal_strlit("Failed to ");
                reveal_strlit(" config: ");
                reveal_strlit("get");
                reveal_strlit("set");
                reveal_strlit("Failed to get config: ");
                reveal_strlit("Failed to set config: ");
                assert("Failed to "@ + "get"@ + " config: "@ =~= "Failed to get config: "@);
                assert("Failed to "@ + "set"@ + " config: "@ =~= "Failed to set config: "@);
            }
            Err(config_failure(action, e.message.as_str()))
        },
    }
}

/// The document after loading: what is stored; an empty object where nothing
/// is stored; the document as it was where what is stored cannot be read.
pub open spec fn loaded(document: JsonModel, stored: Stored) -> JsonModel {
    match stored {
        Stored::Missing => JsonModel::Object(Seq::empty()),
        Stored::Document(d) => d@,
        Stored::Unreadable(_) => document,
    }
}

/// `r` reports a load: whether the file has to be created, or why the load
/// failed.
pub open spec fn load_fits(r: Result<bool, CommandError>, stored: Stored) -> bool {
    match stored {
        Stored::Missing => r == Ok::<bool, CommandError>(true),
        Stored::Document(_) => r == Ok::<bool, CommandError>(false),
        Stored::Unreadable(m) => r is Err && r->Err_0@ == failure(ErrorKind::Io, m@),
    }
}

/// Loads the settings of the user interface and those of the file functions
/// at start-up. A failure to load either is reported and does not stop the
/// other: the result holds the report for each, in this order.
pub fn load_user_config(
    ui: &mut AppConfig,
    ui_stored: Stored,
    file_function: &mut AppConfig,
    file_function_stored: Stored,
) -> (r: (Result<bool, CommandError>, Result<bool, CommandError>))
    ensures
        final(ui).document() == loaded(old(ui).document(), ui_stored),
        final(file_function).document() == loaded(
            old(file_function).document(),
            file_function_stored,
        ),
        load_fits(r.0, ui_stored),
        load_fits(r.1, file_function_stored),
        final(ui).domain_name() == old(ui).domain_name(),
        final(ui).scope_name() == old(ui).scope_name(),
        final(file_function).domain_name() == old(file_function).domain_name(),
        final(file_function).scope_name() == old(file_function).scope_name(),
{
    let first = ui.load_from_file(ui_stored);
    let second = file_function.load_from_file(file_function_stored);
    (first, second)
}

/// How long to wait, in milliseconds, before a lock is tried again.
pub const LOCK_RETRY_MS: u64 = 10;

/// How long, in milliseconds, a lock is waited for.
pub const LOCK_DEADLINE_MS: u64 = 200;

/// What to do after a lock could not be taken, `elapsed_ms` after the first
/// try: wait and try again, or give up once the deadline has passed.
pub fn after_failed_lock(elapsed_ms: u64, what: &str) -> (r: Result<u64, CommandError>)
    ensures
        match r {
            Ok(wait) => elapsed_ms <= LOCK_DEADLINE_MS && wait == LOCK_RETRY_MS,
            Err(e) => elapsed_ms > LOCK_DEADLINE_MS && e@ == failure(
                ErrorKind::LockTimeout,
                "Failed to acquire lock "@ + what@,
            ),
        },
{
    if elapsed_ms > LOCK_DEADLINE_MS {
        Err(
            CommandError {
                kind: ErrorKind::LockTimeout,
                message: concat2("Failed to acquire lock ", what),
            },
        )
    } else {
        Ok(LOCK_RETRY_MS)
    }
}

/// Setting members leaves every other member of the document as it was, and
/// each member that was set has its new value.
pub proof fn law_set_merges(
    entries: Seq<(Seq<char>, JsonModel)>,
    key: Seq<char>,
    value: JsonModel,
    other: Seq<char>,
)
    requires
        other != key,
    ensures
        lookup(with_entry(entries, key, value), key) == Some(value),
        lookup(with_entry(entries, key, value), other) == lookup(entries, other),
    decreases entries.len(),
{
    crate::json::lemma_with_entry(entries, key, value, other);
}

} // verus!
