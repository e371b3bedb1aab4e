//! The steps of a deployment, what is to be done for each, and what may be answered.
use vstd::prelude::*;

use crate::error::AppError;
#[allow(unused_imports)]
use crate::error::{outcome, AppErrorView};
use crate::model::DeploymentStatus;
use crate::process::CommandSpec;
#[allow(unused_imports)]
use crate::process::CommandView;

verus! {

/// A step that prepares a release: fetching the tag and finding its commit.
#[derive(Debug)]
pub enum Prepare<T> {
    /// Record that the tag is being fetched.
    MarkFetching,
    /// Create the directory of the mirrors.
    CreateMirrorParent { parent: T },
    /// See whether the mirror exists.
    CheckMirror,
    /// Ask the mirror for the URL of its origin.
    ReadOrigin,
    /// Create the mirror.
    InitMirror,
    /// Give the new mirror its origin.
    AddOrigin,
    /// Have Git check the name of the tag.
    CheckTagRef,
    /// Fetch the tag; attempts are counted from 1.
    Fetch { attempt: u32 },
    /// Wait before the next attempt.
    FetchPause { attempt: u32 },
    /// Ask for the object that the tag names.
    ResolveTag,
    /// Ask for the commit that the tag leads to.
    ResolveCommit,
    /// Record the commit.
    RecordCommit { commit: T },
    /// See whether the commit has a release.
    CheckRelease { commit: T },
    /// See whether a worktree was left behind.
    CheckStaleWorktree { commit: T },
    /// Validate the release that exists.
    ValidateExisting { commit: T },
    /// Record that the release is being built.
    MarkBuilding { commit: T },
    /// Have Git forget worktrees that are gone.
    PruneWorktrees { commit: T },
    /// See whether a worktree is in the way.
    CheckWorktree { commit: T },
    /// Create the directory of the worktrees.
    CreateWorktreeParent { commit: T, parent: T },
    /// Check the commit out.
    AddWorktree { commit: T },
    /// Record the release.
    RecordRelease { commit: T },
}

/// Why a worktree is removed.
#[allow(inconsistent_fields)]
#[derive(Debug)]
pub enum Removal<E> {
    /// The release exists already.
    Stale,
    /// A new worktree takes its place.
    Replace,
    /// The build has ended, with an error or without.
    Built { outcome: Option<E> },
}

/// A step that builds a release in a temporary directory and puts it in its place.
#[allow(inconsistent_fields)]
#[derive(Debug)]
pub enum Build<T, E, P> {
    /// Create the directory of the releases.
    CreateReleaseParent,
    /// Remove what an earlier build left behind.
    ClearTemporary,
    /// Create the temporary directory.
    CreateTemporary,
    /// Copy the files of the tag.
    CopyTree,
    /// Copy the program that the tag holds.
    CopyPrebuilt,
    /// See whether the Cargo manifest is a file.
    CheckManifest,
    /// Remove the target directory of an earlier build.
    ClearTarget,
    /// Create the target directory.
    CreateTarget,
    /// Read the environment file.
    LoadEnvironment { file: T },
    /// Build the programs.
    Cargo { environment: P },
    /// Copy a program that was built.
    CopyBinary { index: usize },
    /// Copy a path that the release is to hold.
    CopyInclude { index: usize },
    /// Remove the target directory.
    RemoveTarget { outcome: Option<E> },
    /// Validate the temporary directory.
    Validate,
    /// Put the release in its place.
    Publish,
    /// Make that last.
    Sync,
    /// Remove a directory of a build that failed.
    Discard { path: T, error: E },
}

/// A step that migrates and switches to a release.
#[derive(Debug)]
pub enum Activate<T, P> {
    /// Validate a release whose migration was interrupted.
    Recheck { release: T },
    /// Record that the migration runs.
    MarkMigrating { release: T },
    /// Read the environment file.
    LoadEnvironment { release: T, file: T },
    /// Run the migration.
    Migrate { release: T, environment: P },
    /// Validate the release.
    ValidateCandidate { release: T },
    /// Read where the current link points.
    ReadCurrent { release: T },
    /// Record where the current link pointed.
    RecordActivation { release: T, previous: Option<T> },
    /// Point the current link to the release.
    SwitchTo { release: T, previous: Option<T> },
}

/// For what a release is reloaded and probed.
#[derive(Debug)]
pub enum Purpose<T, E> {
    /// It was activated.
    Forward { previous: Option<T> },
    /// It was returned to because of an error.
    Back { error: E },
    /// It was returned to and the service was interrupted.
    Resume,
}

/// A step that reloads and probes what the current link points to.
#[allow(inconsistent_fields)]
#[derive(Debug)]
pub enum Check<T, E> {
    /// Run a reload command.
    Reload { index: usize, purpose: Purpose<T, E> },
    /// Record that the release is probed.
    MarkHealthChecking { previous: Option<T> },
    /// Probe; attempts are counted from 1.
    Probe { attempt: u32, purpose: Purpose<T, E> },
    /// Wait before the next attempt.
    ProbePause { attempt: u32, purpose: Purpose<T, E> },
}

/// A step that recovers, or returns to the previous release.
#[allow(inconsistent_fields)]
#[derive(Debug)]
pub enum Back<T, E> {
    /// Read where the current link of an interrupted activation points.
    ReadInterrupted { original: T },
    /// Record that the previous release is returned to.
    MarkRollingBack { previous: Option<T>, error: E },
    /// Validate the previous release.
    ValidatePrevious { previous: T, error: E },
    /// Point the current link to the previous release.
    SwitchBack { previous: T, error: E },
    /// Read where the current link of an interrupted rollback points.
    ReadRollback { previous: T },
    /// Point the current link to the previous release after an interruption.
    SwitchResumed { previous: T },
}

/// A step that ends a deployment.
#[allow(inconsistent_fields)]
#[derive(Debug)]
pub enum Close<T, E, L> {
    /// Record the success.
    MarkSucceeded,
    /// Read where the current link points.
    ReadRetained,
    /// List the releases of the project.
    ListRetained { current: Option<T> },
    /// Remove a release that is no longer kept.
    Retire { paths: L, index: usize, refusal: Option<E> },
    /// Record the failure.
    MarkFailed { code: T, message: T },
    /// Record that the rollback failed.
    MarkRollbackFailed { reason: T },
    /// Block the project.
    BlockProject { reason: T },
}

/// A step of a deployment.
#[allow(inconsistent_fields)]
#[derive(Debug)]
pub enum Step<T, E, L, P> {
    /// It prepares a release.
    Prepare(Prepare<T>),
    /// It removes the worktree.
    RemoveWorktree { commit: T, why: Removal<E> },
    /// It sees whether a worktree that could not be removed is gone.
    CheckRemoved { commit: T, why: Removal<E>, error: E },
    /// It builds a release below a directory.
    Build { commit: T, parent: T, build: Build<T, E, P> },
    /// It switches to a release.
    Activate(Activate<T, P>),
    /// It checks what was switched to.
    Check(Check<T, E>),
    /// It recovers or rolls back.
    Back(Back<T, E>),
    /// It ends the deployment.
    Close(Close<T, E, L>),
    /// There is nothing left to do; an error is reported.
    Finished(Option<E>),
}

/// What is to be done for a step.
#[allow(inconsistent_fields)]
#[derive(Debug)]
pub enum Action<T, C> {
    /// Record a state of the deployment.
    SetStatus(DeploymentStatus),
    /// Record the commit of the deployment.
    SetResolvedCommit(T),
    /// Record the release of the deployment.
    SetRelease(T),
    /// Record the activation and the previous release.
    SetActivation(Option<T>),
    /// Record the success of the deployment.
    MarkSucceeded,
    /// Record the failure of the deployment.
    MarkFailed { code: T, message: T },
    /// Record the failed rollback of the deployment.
    MarkRollbackFailed { code: T, message: T },
    /// Block the project.
    BlockProject { reason: T },
    /// List the release paths of the project.
    RetainedPaths,
    /// Run a command.
    Run(C),
    /// See whether a path leads to something.
    Exists(T),
    /// See whether a path leads to a regular file.
    IsFile(T),
    /// Create a directory and those above it.
    CreateDirectories(T),
    /// Create a directory.
    CreateDirectory(T),
    /// Remove a directory, if it exists.
    RemoveDirectory(T),
    /// Rename a directory.
    Rename { from: T, to: T },
    /// Flush a directory.
    SyncDirectory(T),
    /// Copy a tree of files.
    CopyTree { from: T, to: T },
    /// Copy a program that the tag holds.
    CopyPrebuilt { from: T, to: T, file: T },
    /// Copy a program that was built.
    CopyBuilt { target: T, to: T, name: T },
    /// Copy a path that the release is to hold.
    CopyIncluded { from: T, to: T, path: T },
    /// Validate a release.
    Validate(T),
    /// Read where the current link points.
    ReadCurrent(T),
    /// Point the current link to a release.
    SwitchCurrent { current: T, release: T },
    /// Read an environment file.
    LoadEnvironment(T),
    /// Probe the project once.
    Probe { url: T, timeout_ms: u64 },
    /// Wait.
    Pause { ms: u64 },
    /// Do nothing: the deployment is done.
    Finish,
}

/// What an action came to.
#[derive(Debug)]
pub enum Reply<T, E, L, P> {
    /// It was done, or failed.
    Done(Result<(), E>),
    /// It was seen whether something holds.
    Flag(bool),
    /// A command ended and printed a text, or failed.
    Output(Result<T, E>),
    /// The current link points somewhere, or does not exist; or reading it failed.
    Target(Result<Option<T>, E>),
    /// The variables of an environment file were read, or reading it failed.
    Environment(Result<P, E>),
    /// The release paths were listed, or listing them failed.
    Paths(Result<L, E>),
    /// The time is up.
    Elapsed,
}

impl View for Prepare<String> {
    type V = Prepare<Seq<char>>;

    open spec fn view(&self) -> Prepare<Seq<char>> {
        match self {
            Prepare::MarkFetching => Prepare::MarkFetching,
            Prepare::CreateMirrorParent { parent } => Prepare::CreateMirrorParent {
                parent: parent@,
            },
            Prepare::CheckMirror => Prepare::CheckMirror,
            Prepare::ReadOrigin => Prepare::ReadOrigin,
            Prepare::InitMirror => Prepare::InitMirror,
            Prepare::AddOrigin => Prepare::AddOrigin,
            Prepare::CheckTagRef => Prepare::CheckTagRef,
            Prepare::Fetch { attempt } => Prepare::Fetch { attempt: *attempt },
            Prepare::FetchPause { attempt } => Prepare::FetchPause { attempt: *attempt },
            Prepare::ResolveTag => Prepare::ResolveTag,
            Prepare::ResolveCommit => Prepare::ResolveCommit,
            Prepare::RecordCommit { commit } => Prepare::RecordCommit { commit: commit@ },
            Prepare::CheckRelease { commit } => Prepare::CheckRelease { commit: commit@ },
            Prepare::CheckStaleWorktree { commit } => Prepare::CheckStaleWorktree {
                commit: commit@,
            },
            Prepare::ValidateExisting { commit } => Prepare::ValidateExisting { commit: commit@ },
            Prepare::MarkBuilding { commit } => Prepare::MarkBuilding { commit: commit@ },
            Prepare::PruneWorktrees { commit } => Prepare::PruneWorktrees { commit: commit@ },
            Prepare::CheckWorktree { commit } => Prepare::CheckWorktree { commit: commit@ },
            Prepare::CreateWorktreeParent { commit, parent } => Prepare::CreateWorktreeParent {
                commit: commit@,
                parent: parent@,
            },
            Prepare::AddWorktree { commit } => Prepare::AddWorktree { commit: commit@ },
            Prepare::RecordRelease { commit } => Prepare::RecordRelease { commit: commit@ },
        }
    }
}

impl View for Removal<AppError> {
    type V = Removal<AppErrorView>;

    open spec fn view(&self) -> Removal<AppErrorView> {
        match self {
            Removal::Stale => Removal::Stale,
            Removal::Replace => Removal::Replace,
            Removal::Built { outcome } => Removal::Built { outcome: outcome.deep_view() },
        }
    }
}

impl View for Build<String, AppError, Vec<(String, String)>> {
    type V = Build<Seq<char>, AppErrorView, Seq<(Seq<char>, Seq<char>)>>;

    open spec fn view(&self) -> Build<Seq<char>, AppErrorView, Seq<(Seq<char>, Seq<char>)>> {
        match self {
            Build::CreateReleaseParent => Build::CreateReleaseParent,
            Build::ClearTemporary => Build::ClearTemporary,
            Build::CreateTemporary => Build::CreateTemporary,
            Build::CopyTree => Build::CopyTree,
            Build::CopyPrebuilt => Build::CopyPrebuilt,
            Build::CheckManifest => Build::CheckManifest,
            Build::ClearTarget => Build::ClearTarget,
            Build::CreateTarget => Build::CreateTarget,
            Build::LoadEnvironment { file } => Build::LoadEnvironment { file: file@ },
            Build::Cargo { environment } => Build::Cargo { environment: environment.deep_view() },
            Build::CopyBinary { index } => Build::CopyBinary { index: *index },
            Build::CopyInclude { index } => Build::CopyInclude { index: *index },
            Build::RemoveTarget { outcome } => Build::RemoveTarget { outcome: outcome.deep_view() },
            Build::Validate => Build::Validate,
            Build::Publish => Build::Publish,
            Build::Sync => Build::Sync,
            Build::Discard { path, error } => Build::Discard { path: path@, error: error@ },
        }
    }
}

impl View for Activate<String, Vec<(String, String)>> {
    type V = Activate<Seq<char>, Seq<(Seq<char>, Seq<char>)>>;

    open spec fn view(&self) -> Activate<Seq<char>, Seq<(Seq<char>, Seq<char>)>> {
        match self {
            Activate::Recheck { release } => Activate::Recheck { release: release@ },
            Activate::MarkMigrating { release } => Activate::MarkMigrating { release: release@ },
            Activate::LoadEnvironment { release, file } => Activate::LoadEnvironment {
                release: release@,
                file: file@,
            },
            Activate::Migrate { release, environment } => Activate::Migrate {
                release: release@,
                environment: environment.deep_view(),
            },
            Activate::ValidateCandidate { release } => Activate::ValidateCandidate {
                release: release@,
            },
            Activate::ReadCurrent { release } => Activate::ReadCurrent { release: release@ },
            Activate::RecordActivation { release, previous } => Activate::RecordActivation {
                release: release@,
                previous: previous.deep_view(),
            },
            Activate::SwitchTo { release, previous } => Activate::SwitchTo {
                release: release@,
                previous: previous.deep_view(),
            },
        }
    }
}

impl View for Purpose<String, AppError> {
    type V = Purpose<Seq<char>, AppErrorView>;

    open spec fn view(&self) -> Purpose<Seq<char>, AppErrorView> {
        match self {
            Purpose::Forward { previous } => Purpose::Forward { previous: previous.deep_view() },
            Purpose::Back { error } => Purpose::Back { error: error@ },
            Purpose::Resume => Purpose::Resume,
        }
    }
}

impl View for Check<String, AppError> {
    type V = Check<Seq<char>, AppErrorView>;

    open spec fn view(&self) -> Check<Seq<char>, AppErrorView> {
        match self {
            Check::Reload { index, purpose } => Check::Reload { index: *index, purpose: purpose@ },
            Check::MarkHealthChecking { previous } => Check::MarkHealthChecking {
                previous: previous.deep_view(),
            },
            Check::Probe { attempt, purpose } => Check::Probe {
                attempt: *attempt,
                purpose: purpose@,
            },
            Check::ProbePause { attempt, purpose } => Check::ProbePause {
                attempt: *attempt,
                purpose: purpose@,
            },
        }
    }
}

impl View for Back<String, AppError> {
    type V = Back<Seq<char>, AppErrorView>;

    open spec fn view(&self) -> Back<Seq<char>, AppErrorView> {
        match self {
            Back::ReadInterrupted { original } => Back::ReadInterrupted { original: original@ },
            Back::MarkRollingBack { previous, error } => Back::MarkRollingBack {
                previous: previous.deep_view(),
                error: error@,
            },
            Back::ValidatePrevious { previous, error } => Back::ValidatePrevious {
                previous: previous@,
                error: error@,
            },
            Back::SwitchBack { previous, error } => Back::SwitchBack {
                previous: previous@,
                error: error@,
            },
            Back::ReadRollback { previous } => Back::ReadRollback { previous: previous@ },
            Back::SwitchResumed { previous } => Back::SwitchResumed { previous: previous@ },
        }
    }
}

impl View for Close<String, AppError, Vec<String>> {
    type V = Close<Seq<char>, AppErrorView, Seq<Seq<char>>>;

    open spec fn view(&self) -> Close<Seq<char>, AppErrorView, Seq<Seq<char>>> {
        match self {
            Close::MarkSucceeded => Close::MarkSucceeded,
            Close::ReadRetained => Close::ReadRetained,
            Close::ListRetained { current } => Close::ListRetained { current: current.deep_view() },
            Close::Retire { paths, index, refusal } => Close::Retire {
                paths: paths.deep_view(),
                index: *index,
                refusal: refusal.deep_view(),
            },
            Close::MarkFailed { code, message } => Close::MarkFailed {
                code: code@,
                message: message@,
            },
            Close::MarkRollbackFailed { reason } => Close::MarkRollbackFailed { reason: reason@ },
            Close::BlockProject { reason } => Close::BlockProject { reason: reason@ },
        }
    }
}

impl View for Step<String, AppError, Vec<String>, Vec<(String, String)>> {
    type V = Step<Seq<char>, AppErrorView, Seq<Seq<char>>, Seq<(Seq<char>, Seq<char>)>>;

    open spec fn view(&self) -> Step<Seq<char>, AppErrorView, Seq<Seq<char>>, Seq<(Seq<char>, Seq<char>)>> {
        match self {
            Step::Prepare(value) => Step::Prepare(value@),
            Step::RemoveWorktree { commit, why } => Step::RemoveWorktree {
                commit: commit@,
                why: why@,
            },
            Step::CheckRemoved { commit, why, error } => Step::CheckRemoved {
                commit: commit@,
                why: why@,
                error: error@,
            },
            Step::Build { commit, parent, build } => Step::Build {
                commit: commit@,
                parent: parent@,
                build: build@,
            },
            Step::Activate(value) => Step::Activate(value@),
            Step::Check(value) => Step::Check(value@),
            Step::Back(value) => Step::Back(value@),
            Step::Close(value) => Step::Close(value@),
            Step::Finished(value) => Step::Finished(value.deep_view()),
        }
    }
}

impl View for Action<String, CommandSpec> {
    type V = Action<Seq<char>, CommandView>;

    open spec fn view(&self) -> Action<Seq<char>, CommandView> {
        match self {
            Action::SetStatus(value) => Action::SetStatus(*value),
            Action::SetResolvedCommit(value) => Action::SetResolvedCommit(value@),
            Action::SetRelease(value) => Action::SetRelease(value@),
            Action::SetActivation(value) => Action::SetActivation(value.deep_view()),
            Action::MarkSucceeded => Action::MarkSucceeded,
            Action::MarkFailed { code, message } => Action::MarkFailed {
                code: code@,
                message: message@,
            },
            Action::MarkRollbackFailed { code, message } => Action::MarkRollbackFailed {
                code: code@,
                message: message@,
            },
            Action::BlockProject { reason } => Action::BlockProject { reason: reason@ },
            Action::RetainedPaths => Action::RetainedPaths,
            Action::Run(value) => Action::Run(value@),
            Action::Exists(value) => Action::Exists(value@),
            Action::IsFile(value) => Action::IsFile(value@),
            Action::CreateDirectories(value) => Action::CreateDirectories(value@),
            Action::CreateDirectory(value) => Action::CreateDirectory(value@),
            Action::RemoveDirectory(value) => Action::RemoveDirectory(value@),
            Action::Rename { from, to } => Action::Rename { from: from@, to: to@ },
            Action::SyncDirectory(value) => Action::SyncDirectory(value@),
            Action::CopyTree { from, to } => Action::CopyTree { from: from@, to: to@ },
            Action::CopyPrebuilt { from, to, file } => Action::CopyPrebuilt {
                from: from@,
                to: to@,
                file: file@,
            },
            Action::CopyBuilt { target, to, name } => Action::CopyBuilt {
                target: target@,
                to: to@,
                name: name@,
            },
            Action::CopyIncluded { from, to, path } => Action::CopyIncluded {
                from: from@,
                to: to@,
                path: path@,
            },
            Action::Validate(value) => Action::Validate(value@),
            Action::ReadCurrent(value) => Action::ReadCurrent(value@),
            Action::SwitchCurrent { current, release } => Action::SwitchCurrent {
                current: current@,
                release: release@,
            },
            Action::LoadEnvironment(value) => Action::LoadEnvironment(value@),
            Action::Probe { url, timeout_ms } => Action::Probe {
                url: url@,
                timeout_ms: *timeout_ms,
            },
            Action::Pause { ms } => Action::Pause { ms: *ms },
            Action::Finish => Action::Finish,
        }
    }
}

impl View for Reply<String, AppError, Vec<String>, Vec<(String, String)>> {
    type V = Reply<Seq<char>, AppErrorView, Seq<Seq<char>>, Seq<(Seq<char>, Seq<char>)>>;

    open spec fn view(&self) -> Reply<
        Seq<char>,
        AppErrorView,
        Seq<Seq<char>>,
        Seq<(Seq<char>, Seq<char>)>,
    > {
        match self {
            Reply::Done(result) => Reply::Done(outcome(*result)),
            Reply::Flag(value) => Reply::Flag(*value),
            Reply::Output(result) => Reply::Output(outcome(*result)),
            Reply::Target(result) => Reply::Target(outcome(*result)),
            Reply::Environment(result) => Reply::Environment(outcome(*result)),
            Reply::Paths(result) => Reply::Paths(outcome(*result)),
            Reply::Elapsed => Reply::Elapsed,
        }
    }
}

/// A step as it is executed.
pub type ExecStep = Step<String, AppError, Vec<String>, Vec<(String, String)>>;

/// A step with the characters of its texts.
pub type StepView = Step<
    Seq<char>,
    AppErrorView,
    Seq<Seq<char>>,
    Seq<(Seq<char>, Seq<char>)>,
>;

/// An action as it is executed.
pub type ExecAction = Action<String, CommandSpec>;

/// An action with the characters of its texts.
pub type ActionView = Action<Seq<char>, CommandView>;

/// A reply as it is received.
pub type ExecReply = Reply<String, AppError, Vec<String>, Vec<(String, String)>>;

/// A reply with the characters of its texts.
pub type ReplyView = Reply<
    Seq<char>,
    AppErrorView,
    Seq<Seq<char>>,
    Seq<(Seq<char>, Seq<char>)>,
>;

} // verus!
