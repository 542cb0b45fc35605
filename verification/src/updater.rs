//! Bringing the function catalog and the translations up to date.
//!
//! An update is a run through a fixed sequence of steps. The run is a value:
//! [`UpdateRun::step`] takes what happened and says what has to be done next.
//! Nothing on disk is touched before the remote version has been found to be
//! newer than the one installed, and every failure ends the run.

use crate::errors::{failure, CommandError, ErrorKind, ErrorModel};
use crate::functions::push_entry;
use crate::json::{Json, JsonModel};
use crate::params::{get_required_string, required_string_param};
use crate::paths::{join_path, joined, parent, parent_of};
use crate::resource::{
    app_data_dir_of, get_app_data_dir, get_app_download_dir, get_app_ver_dirname,
    kind_dir_in_app_data, version_dirname, Environment,
};
use crate::result::{success_with, CommandResult, ResultModel, Status};
use crate::text::{concat2, concat3, concat4, concat5, copy_str, lex_le, str_le, trim, trimmed};
use vstd::prelude::*;
use vstd::string::StringExecFns;

verus! {

/// What is brought up to date.
#[derive(Clone, Copy, Debug, PartialEq, Eq, Structural)]
pub enum UpdateKind {
    Functions,
    I18n,
}

impl UpdateKind {
    pub open spec fn text(self) -> Seq<char> {
        match self {
            UpdateKind::Functions => "functions"@,
            UpdateKind::I18n => "i18n"@,
        }
    }

    pub fn as_str(&self) -> (r: &'static str)
        ensures
            r@ == self.text(),
    {
        match self {
            UpdateKind::Functions => "functions",
            UpdateKind::I18n => "i18n",
        }
    }

    /// What the user is told after an update.
    pub open spec fn updated_message(self) -> Seq<char> {
        match self {
            UpdateKind::Functions => "Functions updated"@,
            UpdateKind::I18n => "I18N translations updated"@,
        }
    }

    /// The failure for a manifest that names no archive.
    pub open spec fn missing_url_message(self) -> Seq<char> {
        match self {
            UpdateKind::Functions => "Invalid functions.json, missing url"@,
            UpdateKind::I18n => "Invalid i18n.json, missing url"@,
        }
    }
}

/// The places that an update works with.
#[derive(Clone, Debug)]
pub struct UpdatePaths {
    /// Where the manifest of the latest version is served.
    pub endpoint: String,
    /// Where the manifest is downloaded to.
    pub manifest_file: String,
    /// Where the archive is downloaded to.
    pub archive_file: String,
    /// The directory into which the archive is extracted.
    pub staging_dir: String,
    /// The directory in the staging directory that becomes the target.
    pub staged_dir: String,
    /// The directory that is brought up to date.
    pub target_dir: String,
    /// The directory that holds the target.
    pub target_parent: Option<String>,
    /// The file in the target that holds its version.
    pub version_file: String,
}

/// The address of the manifest of a kind for a version of the application.
pub open spec fn endpoint_of(kind: UpdateKind, app_version: Seq<char>) -> Seq<char> {
    "https://releases.filethings.net/res/"@ + kind.text() + "/for-app-"@ + version_dirname(
        app_version,
    ) + ".json"@
}

/// `p` holds the places of an update of the kind in this environment: the
/// endpoint for the application's version; under `downloads` in the
/// application's data the manifest file, the archive and the staging
/// directory; the target directory of the kind, its version file, and the
/// directory above it where it has one.
pub open spec fn is_places_of(p: UpdatePaths, kind: UpdateKind, env: Environment) -> bool {
    let downloads = joined(app_data_dir_of(env)->Ok_0, "downloads"@);
    &&& app_data_dir_of(env) is Ok
    &&& p.endpoint@ == endpoint_of(kind, env.app_version@)
    &&& p.manifest_file@ == joined(downloads, "latest-"@ + kind.text() + ".json"@)
    &&& p.archive_file@ == joined(downloads, kind.text() + ".zip"@)
    &&& p.staging_dir@ == joined(downloads, kind.text() + "_new"@)
    &&& p.staged_dir@ == joined(p.staging_dir@, kind.text())
    &&& Ok::<Seq<char>, ErrorModel>(p.target_dir@) == kind_dir_in_app_data(env, kind.text())
    &&& p.version_file@ == joined(p.target_dir@, "version.txt"@)
    &&& match p.target_parent {
        Some(d) => parent_of(p.target_dir@) == Some(d@),
        None => parent_of(p.target_dir@) is None,
    }
}

/// `run` is a run of the kind that has not begun, for these places.
pub open spec fn is_fresh_run(run: UpdateRun, kind: UpdateKind, paths: UpdatePaths) -> bool {
    &&& run.kind == kind
    &&& run.phase == UpdatePhase::Idle
    &&& run.has_target_parent == paths.target_parent is Some
    &&& run.manifest_file@ == paths.manifest_file@
    &&& run.url is None
    &&& run.remote_version@.len() == 0
}

/// The places of an update of the given kind in the given environment.
pub fn update_paths(kind: UpdateKind, env: &Environment) -> (r: Result<UpdatePaths, CommandError>)
    ensures
        match r {
            Err(e) => app_data_dir_of(*env) == Err::<Seq<char>, ErrorModel>(e@),
            Ok(p) => is_places_of(p, kind, *env),
        },
{
    let downloads = match get_app_download_dir(env) {
        Ok(d) => d,
        Err(e) => {
            return Err(e);
        },
    };
    let data_dir = match get_app_data_dir(env) {
        Ok(d) => d,
        Err(e) => {
            return Err(e);
        },
    };
    let name = kind.as_str();
    let versioned = get_app_ver_dirname(env.app_version.as_str());
    let kind_dir = join_path(data_dir.as_str(), name);
    let target_dir = join_path(kind_dir.as_str(), versioned.as_str());
    let staging_dir = join_path(downloads.as_str(), concat2(name, "_new").as_str());
    Ok(
        UpdatePaths {
            endpoint: concat5(
                "https://releases.filethings.net/res/",
                name,
                "/for-app-",
                versioned.as_str(),
                ".json",
            ),
            manifest_file: join_path(downloads.as_str(), concat3("latest-", name, ".json").as_str()),
            archive_file: join_path(downloads.as_str(), concat2(name, ".zip").as_str()),
            staged_dir: join_path(staging_dir.as_str(), name),
            staging_dir,
            version_file: join_path(target_dir.as_str(), "version.txt"),
            target_parent: parent(target_dir.as_str()),
            target_dir,
        },
    )
}

/// Where a run stands: what it is waiting for.
#[derive(Clone, Copy, Debug, PartialEq, Eq, Structural)]
pub enum UpdatePhase {
    Idle,
    FetchingManifest,
    ReadingManifest,
    Comparing,
    FetchingArchive,
    ClearingStaging,
    CreatingStaging,
    Extracting,
    RemovingTarget,
    CreatingTargetParent,
    Swapping,
    RemovingArchive,
    RemovingStaging,
    ReadingNewVersion,
    Done,
}

/// What happened since the last step.
#[derive(Clone, Debug)]
pub enum UpdateEvent {
    /// The run is asked to begin.
    Start,
    /// What was to be done has been done.
    Completed,
    /// What was to be done has failed, with this message.
    Failed(String),
    /// The manifest was read: this is what it holds.
    Manifest(Json),
    /// The manifest could not be read, for this reason.
    Unreadable(String),
    /// The manifest is not well formed, for this reason.
    Unparsable(String),
    /// The version file was read: this is its text.
    Text(String),
    /// There is no version file.
    Missing,
}

/// What has to be done next.
#[derive(Clone, Debug)]
pub enum UpdateAction {
    /// Download the manifest from the endpoint, not resuming.
    DownloadManifest,
    /// Read the manifest file and hand over what it holds.
    ReadManifest,
    /// Read the version file of the target.
    ReadVersion,
    /// Download the archive from this address, not resuming.
    DownloadArchive(String),
    /// Remove the staging directory if it exists.
    ClearStaging,
    /// Create the staging directory.
    CreateStaging,
    /// Extract the archive into the staging directory.
    Extract,
    /// Remove the target directory if it exists.
    RemoveTarget,
    /// Create the directory that holds the target, and those above it.
    CreateTargetParent,
    /// Rename the staged directory to the target directory.
    Swap,
    /// Remove the archive.
    RemoveArchive,
    /// Remove the staging directory.
    RemoveStaging,
    /// The run has ended with this outcome.
    Finish(CommandResult),
    /// The run has ended with this failure.
    Fail(CommandError),
}

impl UpdateAction {
    /// The action changes what is installed or staged.
    pub open spec fn changes_the_disk(self) -> bool {
        self is ClearStaging || self is CreateStaging || self is Extract || self is RemoveTarget
            || self is CreateTargetParent || self is Swap || self is RemoveArchive || self
            is RemoveStaging || self is DownloadArchive
    }

    pub open spec fn ends_the_run(self) -> bool {
        self is Finish || self is Fail
    }
}

/// How many steps a run can still take.
pub open spec fn steps_left(phase: UpdatePhase) -> nat {
    match phase {
        UpdatePhase::Idle => 14,
        UpdatePhase::FetchingManifest => 13,
        UpdatePhase::ReadingManifest => 12,
        UpdatePhase::Comparing => 11,
        UpdatePhase::FetchingArchive => 10,
        UpdatePhase::ClearingStaging => 9,
        UpdatePhase::CreatingStaging => 8,
        UpdatePhase::Extracting => 7,
        UpdatePhase::RemovingTarget => 6,
        UpdatePhase::CreatingTargetParent => 5,
        UpdatePhase::Swapping => 4,
        UpdatePhase::RemovingArchive => 3,
        UpdatePhase::RemovingStaging => 2,
        UpdatePhase::ReadingNewVersion => 1,
        UpdatePhase::Done => 0,
    }
}

/// The phase that follows when a step of the plain sequence is completed.
pub open spec fn phase_after(phase: UpdatePhase) -> UpdatePhase {
    match phase {
        UpdatePhase::Idle => UpdatePhase::FetchingManifest,
        UpdatePhase::FetchingManifest => UpdatePhase::ReadingManifest,
        UpdatePhase::ReadingManifest => UpdatePhase::Comparing,
        UpdatePhase::Comparing => UpdatePhase::FetchingArchive,
        UpdatePhase::FetchingArchive => UpdatePhase::ClearingStaging,
        UpdatePhase::ClearingStaging => UpdatePhase::CreatingStaging,
        UpdatePhase::CreatingStaging => UpdatePhase::Extracting,
        UpdatePhase::Extracting => UpdatePhase::RemovingTarget,
        UpdatePhase::RemovingTarget => UpdatePhase::CreatingTargetParent,
        UpdatePhase::CreatingTargetParent => UpdatePhase::Swapping,
        UpdatePhase::Swapping => UpdatePhase::RemovingArchive,
        UpdatePhase::RemovingArchive => UpdatePhase::RemovingStaging,
        UpdatePhase::RemovingStaging => UpdatePhase::ReadingNewVersion,
        UpdatePhase::ReadingNewVersion => UpdatePhase::Done,
        UpdatePhase::Done => UpdatePhase::Done,
    }
}

/// The phases in which the only thing that can happen is that the step is
/// completed or fails.
pub open spec fn is_plain_phase(phase: UpdatePhase) -> bool {
    phase == UpdatePhase::FetchingManifest || phase == UpdatePhase::FetchingArchive || phase
        == UpdatePhase::ClearingStaging || phase == UpdatePhase::CreatingStaging || phase
        == UpdatePhase::Extracting || phase == UpdatePhase::RemovingTarget || phase
        == UpdatePhase::CreatingTargetParent || phase == UpdatePhase::Swapping || phase
        == UpdatePhase::RemovingArchive || phase == UpdatePhase::RemovingStaging
}

/// The installed version that a version file tells: its text without the
/// white space around it, `0` where there is no file.
pub open spec fn installed_version(event: UpdateEvent) -> Option<Seq<char>> {
    match event {
        UpdateEvent::Text(t) => Some(trimmed(t@)),
        UpdateEvent::Missing => Some("0"@),
        _ => None,
    }
}

/// The version that a manifest announces: `0` where it names none.
pub open spec fn announced_version(manifest: JsonModel) -> Seq<char> {
    match manifest.member("version"@) {
        JsonModel::String(s) => s,
        _ => "0"@,
    }
}

/// The outcome of a run that found nothing newer.
pub open spec fn up_to_date(current: Seq<char>) -> ResultModel {
    ResultModel {
        content: JsonModel::String(current),
        status: Status::Ignored,
        message: "It's already the latest version"@,
        output_paths: Seq::empty(),
    }
}

/// The outcome of a run that installed a version.
pub open spec fn updated_to(kind: UpdateKind, version: Seq<char>) -> ResultModel {
    ResultModel {
        content: JsonModel::String(version),
        status: Status::Success,
        message: kind.updated_message(),
        output_paths: Seq::empty(),
    }
}

/// The failure of a run that is told of something it did not ask for.
pub open spec fn unexpected_event() -> ErrorModel {
    failure(ErrorKind::Format, "The update was told of something it did not ask for"@)
}

impl UpdatePhase {
    /// The phase has asked for what the event tells.
    pub open spec fn expects(self, event: UpdateEvent) -> bool {
        match self {
            UpdatePhase::Idle => event is Start,
            UpdatePhase::ReadingManifest => event is Manifest || event is Unreadable || event
                is Unparsable,
            UpdatePhase::Comparing => event is Text || event is Missing || event is Unreadable,
            UpdatePhase::ReadingNewVersion => event is Text || event is Missing || event
                is Unreadable,
            UpdatePhase::Done => false,
            _ => event is Completed,
        }
    }
}

/// A run of the update of one kind.
#[derive(Clone, Debug)]
pub struct UpdateRun {
    pub kind: UpdateKind,
    pub phase: UpdatePhase,
    /// The version that the manifest announces, once it is known.
    pub remote_version: String,
    /// The address of the archive, once it is known.
    pub url: Option<String>,
    /// Whether the target has a directory above it.
    pub has_target_parent: bool,
    /// The manifest file, for messages.
    pub manifest_file: String,
}

impl UpdateRun {
    pub fn new(kind: UpdateKind, paths: &UpdatePaths) -> (r: UpdateRun)
        ensures
            is_fresh_run(r, kind, *paths),
    {
        UpdateRun {
            kind,
            phase: UpdatePhase::Idle,
            remote_version: String::new(),
            url: None,
            has_target_parent: paths.target_parent.is_some(),
            manifest_file: paths.manifest_file.clone(),
        }
    }

    fn fail(&mut self, kind: ErrorKind, message: String) -> (r: UpdateAction)
        ensures
            final(self).phase == UpdatePhase::Done,
            final(self).kind == old(self).kind,
            final(self).has_target_parent == old(self).has_target_parent,
            final(self).manifest_file == old(self).manifest_file,
            final(self).remote_version == old(self).remote_version,
            final(self).url == old(self).url,
            r matches UpdateAction::Fail(e) && e@ == failure(kind, message@),
    {
        self.phase = UpdatePhase::Done;
        UpdateAction::Fail(CommandError { kind, message })
    }

    /// Takes what happened and says what has to be done next.
    ///
    /// A failure ends the run, whatever it was doing. The manifest is
    /// downloaded and read; the version it announces is compared, as a text,
    /// with the installed one; where it is not greater the run ends with the
    /// status `ignored` and the installed version as content. Else the archive
    /// is downloaded and extracted into a fresh staging directory, the target
    /// is replaced by what was staged, the archive and the staging directory
    /// are removed, and the run ends with the version now installed.
    pub fn step(&mut self, event: UpdateEvent) -> (r: UpdateAction)
        ensures
            final(self).kind == old(self).kind,
            final(self).has_target_parent == old(self).has_target_parent,
            final(self).manifest_file == old(self).manifest_file,
            // every step brings the run nearer to its end
            old(self).phase != UpdatePhase::Done ==> steps_left(final(self).phase) < steps_left(
                old(self).phase,
            ),
            r.ends_the_run() <==> final(self).phase == UpdatePhase::Done,
            // a failure ends the run
            event matches UpdateEvent::Failed(m) ==> (r matches UpdateAction::Fail(e) && e@
                == failure(ErrorKind::Io, m@)),
            // what the run remembers of the manifest stays
            !(old(self).phase == UpdatePhase::ReadingManifest && event is Manifest)
                ==> final(self).remote_version == old(self).remote_version
                && final(self).url == old(self).url,
            // an event that the phase did not ask for ends the run
            !(event is Failed) && !old(self).phase.expects(event) ==> (r matches UpdateAction::Fail(
                e,
            ) && e@ == unexpected_event()),
            // the plain sequence
            old(self).phase == UpdatePhase::Idle && event is Start ==> r is DownloadManifest
                && final(self).phase == UpdatePhase::FetchingManifest,
            is_plain_phase(old(self).phase) && event is Completed && !(old(self).phase
                == UpdatePhase::RemovingTarget && !old(self).has_target_parent) ==> final(self).phase == phase_after(old(self).phase) && match old(self).phase {
                UpdatePhase::FetchingManifest => r is ReadManifest,
                UpdatePhase::FetchingArchive => r is ClearStaging,
                UpdatePhase::ClearingStaging => r is CreateStaging,
                UpdatePhase::CreatingStaging => r is Extract,
                UpdatePhase::Extracting => r is RemoveTarget,
                UpdatePhase::RemovingTarget => r is CreateTargetParent,
                UpdatePhase::CreatingTargetParent => r is Swap,
                UpdatePhase::Swapping => r is RemoveArchive,
                UpdatePhase::RemovingArchive => r is RemoveStaging,
                _ => r is ReadVersion,
            },
            old(self).phase == UpdatePhase::RemovingTarget && event is Completed && !old(self).has_target_parent ==> (r matches UpdateAction::Fail(e) && e@ == failure(
                ErrorKind::Io,
                "Failed to get the parent dir of the target dir"@,
            )),
            // the manifest
            old(self).phase == UpdatePhase::ReadingManifest ==> match event {
                UpdateEvent::Manifest(m) => r is ReadVersion && final(self).phase
                    == UpdatePhase::Comparing && final(self).remote_version@ == announced_version(
                    m@,
                ) && match final(self).url {
                    Some(u) => m@.member("url"@) == JsonModel::String(u@),
                    None => !(m@.member("url"@) is String),
                },
                UpdateEvent::Unreadable(m) => r matches UpdateAction::Fail(e) && e@ == failure(
                    ErrorKind::Io,
                    "Failed to read the latest data file: "@ + old(self).manifest_file@
                        + ", Error:"@ + m@,
                ),
                UpdateEvent::Unparsable(m) => r matches UpdateAction::Fail(e) && e@ == failure(
                    ErrorKind::Format,
                    "Failed to parse the data json: "@ + m@,
                ),
                _ => true,
            },
            // the comparison
            old(self).phase == UpdatePhase::Comparing ==> match installed_version(event) {
                None => event matches UpdateEvent::Unreadable(m) ==> (r matches UpdateAction::Fail(
                    e,
                ) && e@ == failure(ErrorKind::Io, m@)),
                Some(current) => if lex_le(old(self).remote_version@, current) {
                    r matches UpdateAction::Finish(done) && done@ == up_to_date(current)
                } else {
                    match old(self).url {
                        Some(u) => r matches UpdateAction::DownloadArchive(a) && a@ == u@ && final(self).phase == UpdatePhase::FetchingArchive,
                        None => r matches UpdateAction::Fail(e) && e@ == failure(
                            ErrorKind::Format,
                            old(self).kind.missing_url_message(),
                        ),
                    }
                },
            },
            // the end
            old(self).phase == UpdatePhase::ReadingNewVersion ==> match event {
                UpdateEvent::Text(t) => r matches UpdateAction::Finish(done) && done@
                    == updated_to(old(self).kind, trimmed(t@)),
                UpdateEvent::Missing => r matches UpdateAction::Finish(done) && done@
                    == updated_to(old(self).kind, "0"@),
                UpdateEvent::Unreadable(_) => r matches UpdateAction::Finish(done) && done@
                    == updated_to(old(self).kind, "0"@),
                _ => true,
            },
            // nothing on disk is changed before the comparison has been made
            r.changes_the_disk() ==> old(self).phase == UpdatePhase::Comparing || steps_left(
                old(self).phase,
            ) <= steps_left(UpdatePhase::FetchingArchive),
    {
        if let UpdateEvent::Failed(m) = event {
            return self.fail(ErrorKind::Io, m);
        }
        match self.phase {
            UpdatePhase::Idle => {
                match event {
                    UpdateEvent::Start => {
                        self.phase = UpdatePhase::FetchingManifest;
                        UpdateAction::DownloadManifest
                    },
                    _ => self.unexpected(),
                }
            },
            UpdatePhase::ReadingManifest => {
                match event {
                    UpdateEvent::Manifest(m) => {
                        self.remote_version = match m.get_str("version") {
                            Some(v) => copy_str(v),
                            None => String::from_str("0"),
                        };
                        self.url = match m.get_str("url") {
                            Some(u) => Some(copy_str(u)),
                            None => None,
                        };
                        self.phase = UpdatePhase::Comparing;
                        UpdateAction::ReadVersion
                    },
                    UpdateEvent::Unreadable(m) => {
                        let message = concat4(
                            "Failed to read the latest data file: ",
                            self.manifest_file.as_str(),
                            ", Error:",
                            m.as_str(),
                        );
                        self.fail(ErrorKind::Io, message)
                    },
                    UpdateEvent::Unparsable(m) => {
                        let message = concat2("Failed to parse the data json: ", m.as_str());
                        self.fail(ErrorKind::Format, message)
                    },
                    _ => self.unexpected(),
                }
            },
            UpdatePhase::Comparing => {
                let current = match event {
                    UpdateEvent::Text(t) => trim(t.as_str()),
                    UpdateEvent::Missing => String::from_str("0"),
                    UpdateEvent::Unreadable(m) => {
                        return self.fail(ErrorKind::Io, m);
                    },
                    _ => {
                        return self.unexpected();
                    },
                };
                if str_le(self.remote_version.as_str(), current.as_str()) {
                    self.phase = UpdatePhase::Done;
                    let mut done = CommandResult::with_content(Json::String(current));
                    done.status = Status::Ignored;
                    done.message = String::from_str("It's already the latest version");
                    return UpdateAction::Finish(done);
                }
                let address: Option<String> = match &self.url {
                    Some(u) => Some(u.clone()),
                    None => None,
                };
                match address {
                    Some(u) => {
                        self.phase = UpdatePhase::FetchingArchive;
                        UpdateAction::DownloadArchive(u)
                    },
                    None => {
                        let message = match self.kind {
                            UpdateKind::Functions => String::from_str(
                                "Invalid functions.json, missing url",
                            ),
                            UpdateKind::I18n => String::from_str("Invalid i18n.json, missing url"),
                        };
                        self.fail(ErrorKind::Format, message)
                    },
                }
            },
            UpdatePhase::ReadingNewVersion => {
                let version = match event {
                    UpdateEvent::Text(t) => trim(t.as_str()),
                    UpdateEvent::Missing => String::from_str("0"),
                    UpdateEvent::Unreadable(_) => String::from_str("0"),
                    _ => {
                        return self.unexpected();
                    },
                };
                self.phase = UpdatePhase::Done;
                let mut done = CommandResult::with_content(Json::String(version));
                done.message = match self.kind {
                    UpdateKind::Functions => String::from_str("Functions updated"),
                    UpdateKind::I18n => String::from_str("I18N translations updated"),
                };
                UpdateAction::Finish(done)
            },
            UpdatePhase::Done => self.unexpected(),
            plain => {
                match event {
                    UpdateEvent::Completed => {},
                    _ => {
                        return self.unexpected();
                    },
                }
                match plain {
                    UpdatePhase::FetchingManifest => {
                        self.phase = UpdatePhase::ReadingManifest;
                        UpdateAction::ReadManifest
                    },
                    UpdatePhase::FetchingArchive => {
                        self.phase = UpdatePhase::ClearingStaging;
                        UpdateAction::ClearStaging
                    },
                    UpdatePhase::ClearingStaging => {
                        self.phase = UpdatePhase::CreatingStaging;
                        UpdateAction::CreateStaging
                    },
                    UpdatePhase::CreatingStaging => {
                        self.phase = UpdatePhase::Extracting;
                        UpdateAction::Extract
                    },
                    UpdatePhase::Extracting => {
                        self.phase = UpdatePhase::RemovingTarget;
                        UpdateAction::RemoveTarget
                    },
                    UpdatePhase::RemovingTarget => {
                        if self.has_target_parent {
                            self.phase = UpdatePhase::CreatingTargetParent;
                            UpdateAction::CreateTargetParent
                        } else {
                            self.fail(
                                ErrorKind::Io,
                                String::from_str("Failed to get the parent dir of the target dir"),
                            )
                        }
                    },
                    UpdatePhase::CreatingTargetParent => {
                        self.phase = UpdatePhase::Swapping;
                        UpdateAction::Swap
                    },
                    UpdatePhase::Swapping => {
                        self.phase = UpdatePhase::RemovingArchive;
                        UpdateAction::RemoveArchive
                    },
                    UpdatePhase::RemovingArchive => {
                        self.phase = UpdatePhase::RemovingStaging;
                        UpdateAction::RemoveStaging
                    },
                    _ => {
                        self.phase = UpdatePhase::ReadingNewVersion;
                        UpdateAction::ReadVersion
                    },
                }
            },
        }
    }

    fn unexpected(&mut self) -> (r: UpdateAction)
        ensures
            final(self).phase == UpdatePhase::Done,
            final(self).kind == old(self).kind,
            final(self).has_target_parent == old(self).has_target_parent,
            final(self).manifest_file == old(self).manifest_file,
            final(self).remote_version == old(self).remote_version,
            final(self).url == old(self).url,
            r matches UpdateAction::Fail(e) && e@ == unexpected_event(),
    {
        self.phase = UpdatePhase::Done;
        UpdateAction::Fail(
            CommandError::new(ErrorKind::Format, "The update was told of something it did not ask for"),
        )
    }
}

/// A run that brings the function catalog up to date, with its places.
pub fn update_functions(env: &Environment) -> (r: Result<(UpdatePaths, UpdateRun), CommandError>)
    ensures
        match r {
            Ok(p) => is_places_of(p.0, UpdateKind::Functions, *env) && is_fresh_run(
                p.1,
                UpdateKind::Functions,
                p.0,
            ),
            Err(e) => app_data_dir_of(*env) == Err::<Seq<char>, ErrorModel>(e@),
        },
{
    match update_paths(UpdateKind::Functions, env) {
        Ok(paths) => {
            let run = UpdateRun::new(UpdateKind::Functions, &paths);
            Ok((paths, run))
        },
        Err(e) => Err(e),
    }
}

/// A run that brings the translations up to date, with its places.
pub fn update_i18n(env: &Environment) -> (r: Result<(UpdatePaths, UpdateRun), CommandError>)
    ensures
        match r {
            Ok(p) => is_places_of(p.0, UpdateKind::I18n, *env) && is_fresh_run(
                p.1,
                UpdateKind::I18n,
                p.0,
            ),
            Err(e) => app_data_dir_of(*env) == Err::<Seq<char>, ErrorModel>(e@),
        },
{
    match update_paths(UpdateKind::I18n, env) {
        Ok(paths) => {
            let run = UpdateRun::new(UpdateKind::I18n, &paths);
            Ok((paths, run))
        },
        Err(e) => Err(e),
    }
}

/// The parameters with which a file is downloaded during an update: to the
/// given file, and never resuming.
pub fn download_request(url: &str, output_file: &str) -> (r: Json)
    ensures
        r@ == JsonModel::Object(
            seq![
                ("output_file"@, JsonModel::String(output_file@)),
                ("resume"@, JsonModel::Bool(false)),
                ("url"@, JsonModel::String(url@)),
            ],
        ),
{
    let mut entries: Vec<(String, Json)> = Vec::new();
    push_entry(&mut entries, "output_file", Json::text(output_file));
    push_entry(&mut entries, "resume", Json::Bool(false));
    push_entry(&mut entries, "url", Json::text(url));
    let r = Json::Object(entries);
    proof {
        assert(r@->Object_0 =~= seq![
            ("output_file"@, JsonModel::String(output_file@)),
            ("resume"@, JsonModel::Bool(false)),
            ("url"@, JsonModel::String(url@)),
        ]);
    }
    r
}

/// The parameters with which an archive is extracted during an update.
pub fn unzip_request(input_file: &str, output_dir: &str) -> (r: Json)
    ensures
        r@ == JsonModel::Object(
            seq![
                ("input_file"@, JsonModel::String(input_file@)),
                ("output_dir"@, JsonModel::String(output_dir@)),
            ],
        ),
{
    let mut entries: Vec<(String, Json)> = Vec::new();
    push_entry(&mut entries, "input_file", Json::text(input_file));
    push_entry(&mut entries, "output_dir", Json::text(output_dir));
    let r = Json::Object(entries);
    proof {
        assert(r@->Object_0 =~= seq![
            ("input_file"@, JsonModel::String(input_file@)),
            ("output_dir"@, JsonModel::String(output_dir@)),
        ]);
    }
    r
}

/// What the download of an update came to: an outcome that is not `ok` is a
/// failure with the outcome's message.
pub fn download_event(outcome: Result<CommandResult, CommandError>) -> (r: UpdateEvent)
    ensures
        match outcome {
            Ok(done) => if done.status == Status::Success {
                r is Completed
            } else {
                r matches UpdateEvent::Failed(m) && m@ == done.message@
            },
            Err(e) => r matches UpdateEvent::Failed(m) && m@ == e.message@,
        },
{
    match outcome {
        Ok(done) => {
            match done.status {
                Status::Success => UpdateEvent::Completed,
                _ => UpdateEvent::Failed(done.message),
            }
        },
        Err(e) => UpdateEvent::Failed(e.message),
    }
}

/// Where the installer of a version for Windows is served.
pub open spec fn installer_endpoint(version: Seq<char>) -> Seq<char> {
    "https://releases.filethings.net/app/v"@ + version + "/FileThings_"@ + version
        + "_x64-setup.exe"@
}

/// The download of the installer for Windows: from where, and to which file.
#[derive(Clone, Debug)]
pub struct InstallerDownload {
    pub endpoint: String,
    pub installer_file: String,
}

/// Plans the download of the installer of the version that the parameters name.
pub fn download_app_windows_installer(params: &Json, env: &Environment) -> (r: Result<
    InstallerDownload,
    CommandError,
>)
    ensures
        match required_string_param(
            params@,
            "version"@,
            "`version` is required"@,
            "`version` must be a string"@,
        ) {
            Err(e) => r is Err && r->Err_0@ == e,
            Ok(version) => match app_data_dir_of(*env) {
                Err(e) => r is Err && r->Err_0@ == e,
                Ok(d) => r is Ok && r->Ok_0.endpoint@ == installer_endpoint(version)
                    && r->Ok_0.installer_file@ == joined(
                    joined(d, "downloads"@),
                    "filethings-installer.exe"@,
                ),
            },
        },
{
    let version = match get_required_string(
        params,
        "version",
        "`version` is required",
        "`version` must be a string",
    ) {
        Ok(v) => v,
        Err(e) => {
            return Err(e);
        },
    };
    let downloads = match get_app_download_dir(env) {
        Ok(d) => d,
        Err(e) => {
            return Err(e);
        },
    };
    Ok(
        InstallerDownload {
            endpoint: concat5(
                "https://releases.filethings.net/app/v",
                version.as_str(),
                "/FileThings_",
                version.as_str(),
                "_x64-setup.exe",
            ),
            installer_file: join_path(downloads.as_str(), "filethings-installer.exe"),
        },
    )
}

/// The outcome of a request for the installer once it has been downloaded.
pub fn installer_downloaded(installer_file: &str) -> (r: CommandResult)
    ensures
        r@ == (ResultModel {
            message: "Installer downloaded"@,
            ..success_with(JsonModel::String(installer_file@))
        }),
{
    let mut done = CommandResult::with_content(Json::text(installer_file));
    done.message = String::from_str("Installer downloaded");
    done
}

/// A run against a manifest that announces the installed version, or an older
/// one, ends as soon as the versions are compared, with the status `ignored`
/// and the installed version as its content; and up to there it has asked for
/// nothing that changes the disk. So a second run finds what the first found.
pub proof fn law_nothing_newer_changes_nothing(
    remote: Seq<char>,
    current: Seq<char>,
    action: UpdateAction,
)
    requires
        lex_le(remote, current),
        action is DownloadManifest || action is ReadManifest || action is ReadVersion || action
            is Finish || action is Fail,
    ensures
        up_to_date(current).status == Status::Ignored,
        up_to_date(current).content == JsonModel::String(current),
        !action.changes_the_disk(),
{
}

} // verus!
