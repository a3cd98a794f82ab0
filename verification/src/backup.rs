//! Carrying out one backup job. The job is a state machine: its state says
//! what is to be done next outside the program, and the outcome of that is
//! handed back as an event. Merge mode stages every source path into one
//! workspace and backs that up; individual mode backs each path up on its
//! own and goes on after a failure.

use crate::config::{FinalConfig, FinalConfigView};
use crate::summary::{SummaryEntry, SummaryEntryView};
use crate::text::{
    chars_of, check_ends_with, check_starts_with, decimal, decimal_text, ends_with, join,
    join_texts, lemma_deep_view_push, push_text, starts_with,
};
use crate::utils::{
    backup_args, backup_arguments, describe_error, init_args, init_arguments, interpret,
    is_restic_repo, repo_layout, run_restic_command, ProcessReport, ProcessReportView, RepoProbe,
    RepoProbeView, ToolError, ToolErrorView,
};
use vstd::prelude::*;
use vstd::string::*;

verus! {

/// What a backup job waits for.
#[derive(Clone, Copy, Debug, PartialEq, Eq, Structural)]
pub enum BackupPhase {
    /// The merge workspace is being created.
    CreatingWorkspace,
    /// A source path is being copied into the workspace.
    Copying,
    /// The repository path is being looked at.
    Probing,
    /// The repository directory is being created.
    CreatingRepository,
    /// The tool is creating the repository.
    Initializing,
    /// The tool is backing up.
    BackingUp,
    /// The merge workspace is being removed.
    RemovingWorkspace,
    /// Nothing: the outcome is known.
    Finished,
}

/// Why one backup into the repository did not succeed.
#[derive(Debug, Clone, PartialEq, Eq)]
pub enum StepFailure {
    /// Something that is no repository is in the way.
    RepositoryInvalid { path: String },
    /// The repository directory at `path` could not be created.
    RepositoryNotCreated { path: String, detail: String },
    /// The tool failed, creating the repository or backing up.
    Tool(ToolError),
}

/// The model of a [`StepFailure`].
pub enum StepFailureView {
    RepositoryInvalid { path: Seq<char> },
    RepositoryNotCreated { path: Seq<char>, detail: Seq<char> },
    Tool(ToolErrorView),
}

impl DeepView for StepFailure {
    type V = StepFailureView;

    open spec fn deep_view(&self) -> StepFailureView {
        match self {
            StepFailure::RepositoryInvalid { path } => StepFailureView::RepositoryInvalid {
                path: path@,
            },
            StepFailure::RepositoryNotCreated { path, detail } => StepFailureView::RepositoryNotCreated {
                path: path@,
                detail: detail@,
            },
            StepFailure::Tool(e) => StepFailureView::Tool(e.deep_view()),
        }
    }
}

/// A source path that could not be copied into the workspace.
#[derive(Debug, Clone, PartialEq, Eq)]
pub struct CopyFailure {
    pub source: String,
    pub detail: String,
}

/// The model of a [`CopyFailure`].
pub struct CopyFailureView {
    pub source: Seq<char>,
    pub detail: Seq<char>,
}

impl DeepView for CopyFailure {
    type V = CopyFailureView;

    open spec fn deep_view(&self) -> CopyFailureView {
        CopyFailureView { source: self.source@, detail: self.detail@ }
    }
}

/// A source path that could not be backed up.
#[derive(Debug, Clone, PartialEq, Eq)]
pub struct PathFailure {
    pub path: String,
    pub cause: StepFailure,
}

/// The model of a [`PathFailure`].
pub struct PathFailureView {
    pub path: Seq<char>,
    pub cause: StepFailureView,
}

impl DeepView for PathFailure {
    type V = PathFailureView;

    open spec fn deep_view(&self) -> PathFailureView {
        PathFailureView { path: self.path@, cause: self.cause.deep_view() }
    }
}

/// How a backup job ended.
#[derive(Debug, Clone, PartialEq, Eq)]
pub enum BackupOutcome {
    /// Merge mode: the workspace was backed up; `output` is what the tool printed.
    Merged { output: String },
    /// Individual mode: every one of `count` paths was backed up.
    AllPaths { count: usize },
    /// Merge mode: the workspace called `name` could not be created.
    WorkspaceNotCreated { name: String, detail: String },
    /// Merge mode: some paths could not be copied; the backup was not attempted.
    CopyFailed { failures: Vec<CopyFailure> },
    /// Merge mode: the backup of the workspace failed.
    BackupFailed(StepFailure),
    /// Individual mode: `succeeded` of `total` paths were backed up.
    SomePaths { succeeded: usize, total: usize, failures: Vec<PathFailure> },
    /// The job has no repository path that lies under its repository root
    /// and ends in its name; nothing was done for it.
    NoRepositoryPath { root: String, name: String },
}

/// The model of a [`BackupOutcome`].
pub enum BackupOutcomeView {
    Merged { output: Seq<char> },
    AllPaths { count: nat },
    WorkspaceNotCreated { name: Seq<char>, detail: Seq<char> },
    CopyFailed { failures: Seq<CopyFailureView> },
    BackupFailed(StepFailureView),
    SomePaths { succeeded: nat, total: nat, failures: Seq<PathFailureView> },
    NoRepositoryPath { root: Seq<char>, name: Seq<char> },
}

impl DeepView for BackupOutcome {
    type V = BackupOutcomeView;

    open spec fn deep_view(&self) -> BackupOutcomeView {
        match self {
            BackupOutcome::Merged { output } => BackupOutcomeView::Merged { output: output@ },
            BackupOutcome::AllPaths { count } => BackupOutcomeView::AllPaths {
                count: *count as nat,
            },
            BackupOutcome::WorkspaceNotCreated { name, detail } => BackupOutcomeView::WorkspaceNotCreated {
                name: name@,
                detail: detail@,
            },
            BackupOutcome::CopyFailed { failures } => BackupOutcomeView::CopyFailed {
                failures: failures.deep_view(),
            },
            BackupOutcome::BackupFailed(f) => BackupOutcomeView::BackupFailed(f.deep_view()),
            BackupOutcome::SomePaths { succeeded, total, failures } => BackupOutcomeView::SomePaths {
                succeeded: *succeeded as nat,
                total: *total as nat,
                failures: failures.deep_view(),
            },
            BackupOutcome::NoRepositoryPath { root, name } => BackupOutcomeView::NoRepositoryPath {
                root: root@,
                name: name@,
            },
        }
    }
}

impl BackupOutcomeView {
    /// Whether the job did all that it was asked to do.
    pub open spec fn is_success(self) -> bool {
        self is Merged || self is AllPaths
    }
}

/// What happened outside the program.
#[derive(Debug, PartialEq, Eq)]
pub enum BackupEvent {
    /// The workspace was created at the path given, or could not be.
    WorkspaceCreated(Result<String, String>),
    /// The source path was copied into the workspace, or could not be.
    Copied(Result<(), String>),
    /// The workspace is gone, or its removal failed; either way it was tried.
    WorkspaceRemoved,
    /// The repository path was looked at.
    Probed(RepoProbe),
    /// The repository directory was created, or could not be.
    RepositoryCreated(Result<(), String>),
    /// The tool was run.
    ToolReturned(ProcessReport),
}

/// The model of a [`BackupEvent`].
pub enum BackupEventView {
    WorkspaceCreated(Result<Seq<char>, Seq<char>>),
    Copied(Result<(), Seq<char>>),
    WorkspaceRemoved,
    Probed(RepoProbeView),
    RepositoryCreated(Result<(), Seq<char>>),
    ToolReturned(ProcessReportView),
}

impl DeepView for BackupEvent {
    type V = BackupEventView;

    open spec fn deep_view(&self) -> BackupEventView {
        match self {
            BackupEvent::WorkspaceCreated(r) => BackupEventView::WorkspaceCreated(
                match r {
                    Ok(p) => Ok(p@),
                    Err(d) => Err(d@),
                },
            ),
            BackupEvent::Copied(r) => BackupEventView::Copied(
                match r {
                    Ok(_) => Ok(()),
                    Err(d) => Err(d@),
                },
            ),
            BackupEvent::WorkspaceRemoved => BackupEventView::WorkspaceRemoved,
            BackupEvent::Probed(p) => BackupEventView::Probed(p.deep_view()),
            BackupEvent::RepositoryCreated(r) => BackupEventView::RepositoryCreated(
                match r {
                    Ok(_) => Ok(()),
                    Err(d) => Err(d@),
                },
            ),
            BackupEvent::ToolReturned(r) => BackupEventView::ToolReturned(r.deep_view()),
        }
    }
}

/// What is to be done outside the program.
#[derive(Debug, Clone, PartialEq, Eq)]
pub enum BackupAction {
    /// Create a fresh directory of this name under the system's
    /// temporary directory.
    CreateWorkspace { name: String },
    /// Copy `source`, a file or a whole directory, into `workspace` under
    /// its own last name.
    CopySource { source: String, workspace: String },
    /// Remove the workspace and all that is in it.
    RemoveWorkspace { path: String },
    /// Look at the repository path.
    ProbeRepository { path: String },
    /// Create the repository directory and what is missing above it.
    CreateRepository { path: String },
    /// Run the tool with these arguments and hand it the secret.
    RunTool { args: Vec<String>, secret: String },
    /// Nothing: the job has ended.
    Done,
}

/// The model of a [`BackupAction`].
pub enum BackupActionView {
    CreateWorkspace { name: Seq<char> },
    CopySource { source: Seq<char>, workspace: Seq<char> },
    RemoveWorkspace { path: Seq<char> },
    ProbeRepository { path: Seq<char> },
    CreateRepository { path: Seq<char> },
    RunTool { args: Seq<Seq<char>>, secret: Seq<char> },
    Done,
}

impl DeepView for BackupAction {
    type V = BackupActionView;

    open spec fn deep_view(&self) -> BackupActionView {
        match self {
            BackupAction::CreateWorkspace { name } => BackupActionView::CreateWorkspace {
                name: name@,
            },
            BackupAction::CopySource { source, workspace } => BackupActionView::CopySource {
                source: source@,
                workspace: workspace@,
            },
            BackupAction::RemoveWorkspace { path } => BackupActionView::RemoveWorkspace {
                path: path@,
            },
            BackupAction::ProbeRepository { path } => BackupActionView::ProbeRepository {
                path: path@,
            },
            BackupAction::CreateRepository { path } => BackupActionView::CreateRepository {
                path: path@,
            },
            BackupAction::RunTool { args, secret } => BackupActionView::RunTool {
                args: args.deep_view(),
                secret: secret@,
            },
            BackupAction::Done => BackupActionView::Done,
        }
    }
}

/// One backup job under way.
#[derive(Debug, Clone, PartialEq, Eq)]
pub struct BackupRun {
    /// The job.
    pub job: FinalConfig,
    /// The repository path: the job's name under its repository root.
    pub repo: String,
    /// When the job began, in seconds since the epoch.
    pub started: u64,
    /// What the job waits for.
    pub phase: BackupPhase,
    /// The index of the source path that is being copied or backed up.
    pub item: usize,
    /// The workspace, once it is there.
    pub workspace: Option<String>,
    /// The source paths that could not be copied.
    pub copy_failures: Vec<CopyFailure>,
    /// The source paths that were backed up on their own.
    pub done: Vec<String>,
    /// The source paths that could not be backed up on their own.
    pub path_failures: Vec<PathFailure>,
    /// What the tool printed at its last backup that succeeded.
    pub last_output: String,
    /// How the job ended, once that is known.
    pub outcome: Option<BackupOutcome>,
}

/// The model of a [`BackupRun`].
pub struct BackupRunView {
    pub job: FinalConfigView,
    pub repo: Seq<char>,
    pub started: u64,
    pub phase: BackupPhase,
    pub item: nat,
    pub workspace: Option<Seq<char>>,
    pub copy_failures: Seq<CopyFailureView>,
    pub done: Seq<Seq<char>>,
    pub path_failures: Seq<PathFailureView>,
    pub last_output: Seq<char>,
    pub outcome: Option<BackupOutcomeView>,
}

impl DeepView for BackupRun {
    type V = BackupRunView;

    open spec fn deep_view(&self) -> BackupRunView {
        BackupRunView {
            job: self.job.deep_view(),
            repo: self.repo@,
            started: self.started,
            phase: self.phase,
            item: self.item as nat,
            workspace: self.workspace.deep_view(),
            copy_failures: self.copy_failures.deep_view(),
            done: self.done.deep_view(),
            path_failures: self.path_failures.deep_view(),
            last_output: self.last_output@,
            outcome: self.outcome.deep_view(),
        }
    }
}

/// Whether what is at the repository path keeps a repository from being
/// created there: something is there, and it is no directory or a
/// directory that holds something.
pub open spec fn in_the_way(probe: RepoProbeView) -> bool {
    probe.exists && (!probe.is_dir || probe.entries.len() > 0)
}

/// The name of the workspace of a job that began at `started`: the job's
/// workspace name, an underscore, the seconds since the epoch.
pub open spec fn workspace_name(merge_name: Seq<char>, started: u64) -> Seq<char> {
    merge_name + seq!['_'] + decimal(started as nat)
}

/// Whether the job stages its paths into one workspace.
pub open spec fn merges(job: FinalConfigView) -> bool {
    job.merge == 1
}

impl BackupRunView {
    /// The source path that is being copied or backed up.
    pub open spec fn source(self) -> Seq<char> {
        if self.item < self.job.path.len() {
            self.job.path[self.item as int]
        } else {
            Seq::empty()
        }
    }

    /// The path of the workspace.
    pub open spec fn workspace_path(self) -> Seq<char> {
        match self.workspace {
            Some(p) => p,
            None => Seq::empty(),
        }
    }

    /// What is backed up next: the workspace in merge mode, else the source path.
    pub open spec fn target(self) -> Seq<char> {
        if merges(self.job) {
            self.workspace_path()
        } else {
            self.source()
        }
    }

    /// The index after the current one, within the job's paths.
    pub open spec fn next_item(self) -> nat {
        if self.item < self.job.path.len() {
            self.item + 1
        } else {
            self.item
        }
    }

    /// The state once the outcome is known: the workspace, where there is
    /// one, is removed before the job ends.
    pub open spec fn closing(self, outcome: BackupOutcomeView) -> BackupRunView {
        BackupRunView {
            phase: if self.workspace is Some {
                BackupPhase::RemovingWorkspace
            } else {
                BackupPhase::Finished
            },
            outcome: Some(outcome),
            ..self
        }
    }

    /// The state after one backup into the repository ended with `result`.
    /// In merge mode that is the job's outcome. In individual mode the path
    /// is counted as done or as failed and the next path is taken up; after
    /// the last one the job ends with the count.
    pub open spec fn settled(self, result: Result<Seq<char>, StepFailureView>) -> BackupRunView {
        if merges(self.job) {
            self.closing(
                match result {
                    Ok(output) => BackupOutcomeView::Merged { output },
                    Err(f) => BackupOutcomeView::BackupFailed(f),
                },
            )
        } else {
            let done = match result {
                Ok(_) => self.done.push(self.source()),
                Err(_) => self.done,
            };
            let path_failures = match result {
                Ok(_) => self.path_failures,
                Err(f) => self.path_failures.push(PathFailureView { path: self.source(), cause: f }),
            };
            let last_output = match result {
                Ok(output) => output,
                Err(_) => self.last_output,
            };
            let item = self.next_item();
            if item < self.job.path.len() {
                BackupRunView {
                    phase: BackupPhase::Probing,
                    item,
                    done,
                    path_failures,
                    last_output,
                    ..self
                }
            } else {
                BackupRunView {
                    phase: BackupPhase::Finished,
                    item,
                    done,
                    path_failures,
                    last_output,
                    outcome: Some(
                        if path_failures.len() == 0 {
                            BackupOutcomeView::AllPaths { count: done.len() }
                        } else {
                            BackupOutcomeView::SomePaths {
                                succeeded: done.len(),
                                total: self.job.path.len(),
                                failures: path_failures,
                            }
                        },
                    ),
                    ..self
                }
            }
        }
    }

    /// What the job asks for in this state.
    pub open spec fn requested(self) -> BackupActionView {
        match self.phase {
            BackupPhase::CreatingWorkspace => BackupActionView::CreateWorkspace {
                name: workspace_name(self.job.merge_name, self.started),
            },
            BackupPhase::Copying => BackupActionView::CopySource {
                source: self.source(),
                workspace: self.workspace_path(),
            },
            BackupPhase::Probing => BackupActionView::ProbeRepository { path: self.repo },
            BackupPhase::CreatingRepository => BackupActionView::CreateRepository {
                path: self.repo,
            },
            BackupPhase::Initializing => BackupActionView::RunTool {
                args: init_arguments(self.repo),
                secret: self.job.passwd,
            },
            BackupPhase::BackingUp => BackupActionView::RunTool {
                args: backup_arguments(
                    self.repo,
                    self.target(),
                    self.job.tag,
                    self.job.pack_size as nat,
                ),
                secret: self.job.passwd,
            },
            BackupPhase::RemovingWorkspace => BackupActionView::RemoveWorkspace {
                path: self.workspace_path(),
            },
            BackupPhase::Finished => BackupActionView::Done,
        }
    }

    /// The state after `event`. An event that the state does not wait for
    /// changes nothing.
    pub open spec fn after(self, event: BackupEventView) -> BackupRunView {
        match (self.phase, event) {
            (BackupPhase::CreatingWorkspace, BackupEventView::WorkspaceCreated(Ok(path))) => {
                BackupRunView {
                    phase: if self.job.path.len() == 0 {
                        BackupPhase::Probing
                    } else {
                        BackupPhase::Copying
                    },
                    item: 0,
                    workspace: Some(path),
                    ..self
                }
            },
            (BackupPhase::CreatingWorkspace, BackupEventView::WorkspaceCreated(Err(detail))) => {
                self.closing(
                    BackupOutcomeView::WorkspaceNotCreated {
                        name: workspace_name(self.job.merge_name, self.started),
                        detail,
                    },
                )
            },
            (BackupPhase::Copying, BackupEventView::Copied(copied)) => {
                let copy_failures = match copied {
                    Ok(_) => self.copy_failures,
                    Err(detail) => self.copy_failures.push(
                        CopyFailureView { source: self.source(), detail },
                    ),
                };
                let item = self.next_item();
                let moved = BackupRunView { item, copy_failures, ..self };
                if item < self.job.path.len() {
                    moved
                } else if copy_failures.len() > 0 {
                    moved.closing(BackupOutcomeView::CopyFailed { failures: copy_failures })
                } else {
                    BackupRunView { phase: BackupPhase::Probing, ..moved }
                }
            },
            (BackupPhase::Probing, BackupEventView::Probed(probe)) => {
                if repo_layout(probe) {
                    BackupRunView { phase: BackupPhase::BackingUp, ..self }
                } else if in_the_way(probe) {
                    self.settled(Err(StepFailureView::RepositoryInvalid { path: self.repo }))
                } else {
                    BackupRunView { phase: BackupPhase::CreatingRepository, ..self }
                }
            },
            (BackupPhase::CreatingRepository, BackupEventView::RepositoryCreated(Ok(_))) => {
                BackupRunView { phase: BackupPhase::Initializing, ..self }
            },
            (BackupPhase::CreatingRepository, BackupEventView::RepositoryCreated(Err(detail))) => {
                self.settled(Err(StepFailureView::RepositoryNotCreated { path: self.repo, detail }))
            },
            (BackupPhase::Initializing, BackupEventView::ToolReturned(report)) => {
                match interpret(report) {
                    Ok(_) => BackupRunView { phase: BackupPhase::BackingUp, ..self },
                    Err(e) => self.settled(Err(StepFailureView::Tool(e))),
                }
            },
            (BackupPhase::BackingUp, BackupEventView::ToolReturned(report)) => {
                match interpret(report) {
                    Ok(output) => self.settled(Ok(output)),
                    Err(e) => self.settled(Err(StepFailureView::Tool(e))),
                }
            },
            (BackupPhase::RemovingWorkspace, BackupEventView::WorkspaceRemoved) => {
                BackupRunView { phase: BackupPhase::Finished, ..self }
            },
            _ => self,
        }
    }
}

/// Whether `path` lies under `root` and ends in `name`: it begins with
/// the one, ends with the other, and the two do not overlap.
pub open spec fn lies_under(path: Seq<char>, root: Seq<char>, name: Seq<char>) -> bool {
    &&& starts_with(path, root)
    &&& ends_with(path, name)
    &&& root.len() + name.len() <= path.len()
}

/// The state of a job for which there is no repository path: it has ended
/// before it began, and nothing is asked for on its account.
pub open spec fn refused(job: FinalConfigView, started: u64) -> BackupRunView {
    BackupRunView {
        job,
        repo: Seq::empty(),
        started,
        phase: BackupPhase::Finished,
        item: 0,
        workspace: None,
        copy_failures: Seq::empty(),
        done: Seq::empty(),
        path_failures: Seq::empty(),
        last_output: Seq::empty(),
        outcome: Some(
            BackupOutcomeView::NoRepositoryPath { root: job.restic_home_path, name: job.name },
        ),
    }
}

/// The state in which a job begins. A merge job begins by creating its
/// workspace, any other job by looking at the repository for its first
/// path; a job of the second kind without paths has ended at once.
pub open spec fn begun(job: FinalConfigView, repo: Seq<char>, started: u64) -> BackupRunView {
    let blank = BackupRunView {
        job,
        repo,
        started,
        phase: BackupPhase::Probing,
        item: 0,
        workspace: None,
        copy_failures: Seq::empty(),
        done: Seq::empty(),
        path_failures: Seq::empty(),
        last_output: Seq::empty(),
        outcome: None,
    };
    if merges(job) {
        BackupRunView { phase: BackupPhase::CreatingWorkspace, ..blank }
    } else if job.path.len() == 0 {
        BackupRunView {
            phase: BackupPhase::Finished,
            outcome: Some(BackupOutcomeView::AllPaths { count: 0 }),
            ..blank
        }
    } else {
        blank
    }
}

impl BackupRun {
    /// Begins the job `job`, whose repository is at `repo`, at the time `started`.
    pub fn start(job: FinalConfig, repo: String, started: u64) -> (r: BackupRun)
        ensures
            r.deep_view() == begun(job.deep_view(), repo@, started),
    {
        let merge = job.merge == 1;
        let empty = job.path.len() == 0;
        let copy_failures: Vec<CopyFailure> = Vec::new();
        let done: Vec<String> = Vec::new();
        let path_failures: Vec<PathFailure> = Vec::new();
        assert(copy_failures.deep_view() == Seq::<CopyFailureView>::empty());
        assert(done.deep_view() == Seq::<Seq<char>>::empty());
        assert(path_failures.deep_view() == Seq::<PathFailureView>::empty());
        BackupRun {
            job,
            repo,
            started,
            phase: if merge {
                BackupPhase::CreatingWorkspace
            } else if empty {
                BackupPhase::Finished
            } else {
                BackupPhase::Probing
            },
            item: 0,
            workspace: None,
            copy_failures,
            done,
            path_failures,
            last_output: String::new(),
            outcome: if !merge && empty {
                Some(BackupOutcome::AllPaths { count: 0 })
            } else {
                None
            },
        }
    }

    /// Ends the job `job` before it begins, for want of a repository path.
    pub fn refuse(job: FinalConfig, started: u64) -> (r: BackupRun)
        ensures
            r.deep_view() == refused(job.deep_view(), started),
    {
        let copy_failures: Vec<CopyFailure> = Vec::new();
        let done: Vec<String> = Vec::new();
        let path_failures: Vec<PathFailure> = Vec::new();
        assert(copy_failures.deep_view() == Seq::<CopyFailureView>::empty());
        assert(done.deep_view() == Seq::<Seq<char>>::empty());
        assert(path_failures.deep_view() == Seq::<PathFailureView>::empty());
        let outcome = BackupOutcome::NoRepositoryPath {
            root: job.restic_home_path.clone(),
            name: job.name.clone(),
        };
        BackupRun {
            job,
            repo: String::new(),
            started,
            phase: BackupPhase::Finished,
            item: 0,
            workspace: None,
            copy_failures,
            done,
            path_failures,
            last_output: String::new(),
            outcome: Some(outcome),
        }
    }

    fn workspace_name(&self) -> (r: String)
        ensures
            r@ == workspace_name(self.deep_view().job.merge_name, self.started),
    {
        let mut name = self.job.merge_name.clone();
        name.push('_');
        assert(name@ == self.job.merge_name@ + seq!['_']);
        name.append(decimal_text(self.started).as_str());
        name
    }

    fn source(&self) -> (r: String)
        ensures
            r@ == self.deep_view().source(),
    {
        if self.item < self.job.path.len() {
            assert(self.job.path.deep_view()[self.item as int] == self.job.path@[self.item as int]@);
            self.job.path[self.item].clone()
        } else {
            String::new()
        }
    }

    fn workspace_path(&self) -> (r: String)
        ensures
            r@ == self.deep_view().workspace_path(),
    {
        match &self.workspace {
            Some(p) => p.clone(),
            None => String::new(),
        }
    }

    fn target(&self) -> (r: String)
        ensures
            r@ == self.deep_view().target(),
    {
        if self.job.merge == 1 {
            self.workspace_path()
        } else {
            self.source()
        }
    }

    fn next_item(&self) -> (r: usize)
        ensures
            r == self.deep_view().next_item(),
    {
        if self.item < self.job.path.len() {
            self.item + 1
        } else {
            self.item
        }
    }

    fn close(self, outcome: BackupOutcome) -> (r: BackupRun)
        ensures
            r.deep_view() == self.deep_view().closing(outcome.deep_view()),
    {
        let mut s = self;
        s.phase = if s.workspace.is_some() {
            BackupPhase::RemovingWorkspace
        } else {
            BackupPhase::Finished
        };
        s.outcome = Some(outcome);
        s
    }

    fn settle(self, result: Result<String, StepFailure>) -> (r: BackupRun)
        ensures
            r.deep_view() == self.deep_view().settled(
                match result {
                    Ok(output) => Ok(output@),
                    Err(f) => Err(f.deep_view()),
                },
            ),
    {
        if self.job.merge == 1 {
            return self.close(
                match result {
                    Ok(output) => BackupOutcome::Merged { output },
                    Err(f) => BackupOutcome::BackupFailed(f),
                },
            );
        }
        let source = self.source();
        let item = self.next_item();
        let mut s = self;
        match result {
            Ok(output) => {
                push_text(&mut s.done, source);
                s.last_output = output;
            },
            Err(cause) => {
                let ghost before = s.path_failures;
                let failure = PathFailure { path: source, cause };
                s.path_failures.push(failure);
                proof {
                    lemma_deep_view_push(before, s.path_failures, failure);
                }
            },
        }
        s.item = item;
        if item < s.job.path.len() {
            s.phase = BackupPhase::Probing;
        } else {
            s.phase = BackupPhase::Finished;
            let succeeded = s.done.len();
            let total = s.job.path.len();
            if s.path_failures.len() == 0 {
                s.outcome = Some(BackupOutcome::AllPaths { count: succeeded });
            } else {
                let failures = copy_path_failures(&s.path_failures);
                s.outcome = Some(BackupOutcome::SomePaths { succeeded, total, failures });
            }
        }
        s
    }

    /// What the job asks for now.
    pub fn request(&self) -> (r: BackupAction)
        ensures
            r.deep_view() == self.deep_view().requested(),
    {
        match self.phase {
            BackupPhase::CreatingWorkspace => BackupAction::CreateWorkspace {
                name: self.workspace_name(),
            },
            BackupPhase::Copying => BackupAction::CopySource {
                source: self.source(),
                workspace: self.workspace_path(),
            },
            BackupPhase::Probing => BackupAction::ProbeRepository { path: self.repo.clone() },
            BackupPhase::CreatingRepository => BackupAction::CreateRepository {
                path: self.repo.clone(),
            },
            BackupPhase::Initializing => BackupAction::RunTool {
                args: init_args(self.repo.as_str()),
                secret: self.job.passwd.clone(),
            },
            BackupPhase::BackingUp => BackupAction::RunTool {
                args: backup_args(
                    self.repo.as_str(),
                    self.target().as_str(),
                    self.job.tag.as_str(),
                    self.job.pack_size,
                ),
                secret: self.job.passwd.clone(),
            },
            BackupPhase::RemovingWorkspace => BackupAction::RemoveWorkspace {
                path: self.workspace_path(),
            },
            BackupPhase::Finished => BackupAction::Done,
        }
    }

    /// Takes in what happened outside the program.
    pub fn advance(self, event: BackupEvent) -> (r: BackupRun)
        ensures
            r.deep_view() == self.deep_view().after(event.deep_view()),
    {
        match (self.phase, event) {
            (BackupPhase::CreatingWorkspace, BackupEvent::WorkspaceCreated(Ok(path))) => {
                let mut s = self;
                s.phase = if s.job.path.len() == 0 {
                    BackupPhase::Probing
                } else {
                    BackupPhase::Copying
                };
                s.item = 0;
                s.workspace = Some(path);
                s
            },
            (BackupPhase::CreatingWorkspace, BackupEvent::WorkspaceCreated(Err(detail))) => {
                let name = self.workspace_name();
                self.close(BackupOutcome::WorkspaceNotCreated { name, detail })
            },
            (BackupPhase::Copying, BackupEvent::Copied(copied)) => {
                let source = self.source();
                let item = self.next_item();
                let mut s = self;
                match copied {
                    Ok(_) => {},
                    Err(detail) => {
                        let ghost before = s.copy_failures;
                        let failure = CopyFailure { source, detail };
                        s.copy_failures.push(failure);
                        proof {
                            lemma_deep_view_push(before, s.copy_failures, failure);
                        }
                    },
                }
                s.item = item;
                if item < s.job.path.len() {
                    s
                } else if s.copy_failures.len() > 0 {
                    let failures = copy_copy_failures(&s.copy_failures);
                    s.close(BackupOutcome::CopyFailed { failures })
                } else {
                    s.phase = BackupPhase::Probing;
                    s
                }
            },
            (BackupPhase::Probing, BackupEvent::Probed(probe)) => {
                if is_restic_repo(&probe) {
                    let mut s = self;
                    s.phase = BackupPhase::BackingUp;
                    s
                } else if probe.exists && (!probe.is_dir || probe.entries.len() > 0) {
                    let path = self.repo.clone();
                    self.settle(Err(StepFailure::RepositoryInvalid { path }))
                } else {
                    let mut s = self;
                    s.phase = BackupPhase::CreatingRepository;
                    s
                }
            },
            (BackupPhase::CreatingRepository, BackupEvent::RepositoryCreated(Ok(_))) => {
                let mut s = self;
                s.phase = BackupPhase::Initializing;
                s
            },
            (BackupPhase::CreatingRepository, BackupEvent::RepositoryCreated(Err(detail))) => {
                let path = self.repo.clone();
                self.settle(Err(StepFailure::RepositoryNotCreated { path, detail }))
            },
            (BackupPhase::Initializing, BackupEvent::ToolReturned(report)) => {
                match run_restic_command(report) {
                    Ok(_) => {
                        let mut s = self;
                        s.phase = BackupPhase::BackingUp;
                        s
                    },
                    Err(e) => self.settle(Err(StepFailure::Tool(e))),
                }
            },
            (BackupPhase::BackingUp, BackupEvent::ToolReturned(report)) => {
                match run_restic_command(report) {
                    Ok(output) => self.settle(Ok(output)),
                    Err(e) => self.settle(Err(StepFailure::Tool(e))),
                }
            },
            (BackupPhase::RemovingWorkspace, BackupEvent::WorkspaceRemoved) => {
                let mut s = self;
                s.phase = BackupPhase::Finished;
                s
            },
            _ => self,
        }
    }
}

impl StepFailure {
    /// A copy of this failure.
    pub fn duplicate(&self) -> (r: StepFailure)
        ensures
            r.deep_view() == self.deep_view(),
    {
        match self {
            StepFailure::RepositoryInvalid { path } => StepFailure::RepositoryInvalid {
                path: path.clone(),
            },
            StepFailure::RepositoryNotCreated { path, detail } => StepFailure::RepositoryNotCreated {
                path: path.clone(),
                detail: detail.clone(),
            },
            StepFailure::Tool(e) => StepFailure::Tool(e.duplicate()),
        }
    }
}

fn copy_copy_failures(v: &Vec<CopyFailure>) -> (r: Vec<CopyFailure>)
    ensures
        r.deep_view() == v.deep_view(),
{
    let mut out: Vec<CopyFailure> = Vec::new();
    let mut i: usize = 0;
    while i < v.len()
        invariant
            i <= v.len(),
            out.deep_view() == v.deep_view().take(i as int),
        decreases v.len() - i,
    {
        let item = CopyFailure { source: v[i].source.clone(), detail: v[i].detail.clone() };
        let ghost before = out;
        out.push(item);
        proof {
            lemma_deep_view_push(before, out, item);
            assert(v.deep_view().take(i + 1) == v.deep_view().take(i as int).push(
                v@[i as int].deep_view(),
            ));
        }
        i = i + 1;
    }
    assert(v.deep_view().take(v.len() as int) == v.deep_view());
    out
}

fn copy_path_failures(v: &Vec<PathFailure>) -> (r: Vec<PathFailure>)
    ensures
        r.deep_view() == v.deep_view(),
{
    let mut out: Vec<PathFailure> = Vec::new();
    let mut i: usize = 0;
    while i < v.len()
        invariant
            i <= v.len(),
            out.deep_view() == v.deep_view().take(i as int),
        decreases v.len() - i,
    {
        let item = PathFailure { path: v[i].path.clone(), cause: v[i].cause.duplicate() };
        let ghost before = out;
        out.push(item);
        proof {
            lemma_deep_view_push(before, out, item);
            assert(v.deep_view().take(i + 1) == v.deep_view().take(i as int).push(
                v@[i as int].deep_view(),
            ));
        }
        i = i + 1;
    }
    assert(v.deep_view().take(v.len() as int) == v.deep_view());
    out
}

/// Whether the phase is one of the four of a backup into the repository.
pub open spec fn backing_up(phase: BackupPhase) -> bool {
    phase is Probing || phase is CreatingRepository || phase is Initializing || phase is BackingUp
}

/// What holds of every state that a job passes through.
pub open spec fn consistent(s: BackupRunView) -> bool {
    let paths = s.job.path.len();
    &&& s.item <= paths
    &&& s.outcome is Some <==> (s.phase is Finished || s.phase is RemovingWorkspace)
    &&& s.phase is RemovingWorkspace ==> s.workspace is Some
    &&& merges(s.job) ==> {
        &&& s.done.len() == 0
        &&& s.path_failures.len() == 0
        &&& s.phase is CreatingWorkspace ==> s.workspace is None && s.copy_failures.len() == 0
        &&& s.phase is Copying || backing_up(s.phase) ==> s.workspace is Some
        &&& backing_up(s.phase) ==> s.copy_failures.len() == 0
        &&& s.phase is Copying ==> s.item < paths
        &&& s.copy_failures.len() > 0 && s.outcome is Some ==> s.outcome == Some(
            BackupOutcomeView::CopyFailed { failures: s.copy_failures },
        )
    }
    &&& !merges(s.job) ==> {
        &&& s.workspace is None
        &&& s.copy_failures.len() == 0
        &&& !(s.phase is CreatingWorkspace || s.phase is Copying || s.phase is RemovingWorkspace)
        &&& s.done.len() + s.path_failures.len() == s.item
        &&& backing_up(s.phase) ==> s.item < paths
        &&& s.phase is Finished ==> s.item == paths && s.outcome == Some(
            if s.path_failures.len() == 0 {
                BackupOutcomeView::AllPaths { count: s.done.len() }
            } else {
                BackupOutcomeView::SomePaths {
                    succeeded: s.done.len(),
                    total: paths,
                    failures: s.path_failures,
                }
            },
        )
    }
}

/// The state that a job is in after `events`, one after another.
pub open spec fn state_after(
    job: FinalConfigView,
    repo: Seq<char>,
    started: u64,
    events: Seq<BackupEventView>,
) -> BackupRunView
    decreases events.len(),
{
    if events.len() == 0 {
        begun(job, repo, started)
    } else {
        state_after(job, repo, started, events.drop_last()).after(events.last())
    }
}

/// A step leads from a consistent state to a consistent state.
pub proof fn lemma_step_consistent(s: BackupRunView, event: BackupEventView)
    requires
        consistent(s),
    ensures
        consistent(s.after(event)),
{
}

/// Whatever happens outside the program, the job is in a consistent state.
pub proof fn lemma_always_consistent(
    job: FinalConfigView,
    repo: Seq<char>,
    started: u64,
    events: Seq<BackupEventView>,
)
    ensures
        consistent(state_after(job, repo, started, events)),
    decreases events.len(),
{
    if events.len() > 0 {
        lemma_always_consistent(job, repo, started, events.drop_last());
        lemma_step_consistent(
            state_after(job, repo, started, events.drop_last()),
            events.last(),
        );
    }
}

/// A copy that failed is never forgotten: the failures recorded before a
/// step are the first of those recorded after it.
pub proof fn lemma_copy_failures_kept(s: BackupRunView, event: BackupEventView)
    ensures
        s.copy_failures.is_prefix_of(s.after(event).copy_failures),
        event matches BackupEventView::Copied(Err(detail)) ==> (s.phase is Copying ==> s.after(
            event,
        ).copy_failures == s.copy_failures.push(CopyFailureView { source: s.source(), detail })),
{
    assert(s.copy_failures.is_prefix_of(s.copy_failures));
    if s.phase is Copying {
        if let BackupEventView::Copied(Err(detail)) = event {
            let more = s.copy_failures.push(CopyFailureView { source: s.source(), detail });
            assert(s.copy_failures.is_prefix_of(more));
        }
    }
}

/// Merge mode, whatever happens outside the program: once a copy has
/// failed the tool is not run any more, the job ends with every failed
/// copy in its outcome, and it does not end before the removal of the
/// workspace was asked for.
pub proof fn lemma_failed_copy_stops_backup(
    job: FinalConfigView,
    repo: Seq<char>,
    started: u64,
    events: Seq<BackupEventView>,
)
    requires
        merges(job),
        state_after(job, repo, started, events).copy_failures.len() > 0,
    ensures
        ({
            let s = state_after(job, repo, started, events);
            &&& !(s.requested() is RunTool)
            &&& s.phase is Copying || s.phase is RemovingWorkspace || s.phase is Finished
            &&& s.phase is RemovingWorkspace || s.phase is Finished ==> s.outcome == Some(
                BackupOutcomeView::CopyFailed { failures: s.copy_failures },
            )
        }),
{
    lemma_always_consistent(job, repo, started, events);
    lemma_job_kept(job, repo, started, events);
}

/// The job, its repository and its start do not change while it runs.
pub proof fn lemma_job_kept(
    job: FinalConfigView,
    repo: Seq<char>,
    started: u64,
    events: Seq<BackupEventView>,
)
    ensures
        state_after(job, repo, started, events).job == job,
        state_after(job, repo, started, events).repo == repo,
        state_after(job, repo, started, events).started == started,
    decreases events.len(),
{
    if events.len() > 0 {
        lemma_job_kept(job, repo, started, events.drop_last());
    }
}

/// The workspace is always removed: a job that holds a workspace ends
/// only as the answer to the removal of that workspace, and it keeps the
/// workspace it holds until then.
pub proof fn lemma_workspace_removed_before_end(s: BackupRunView, event: BackupEventView)
    requires
        consistent(s),
        s.workspace is Some,
        !(s.phase is Finished),
    ensures
        s.after(event).workspace == s.workspace,
        s.after(event).phase is Finished ==> s.phase is RemovingWorkspace
            && event is WorkspaceRemoved && s.requested() == (BackupActionView::RemoveWorkspace {
            path: s.workspace->0,
        }),
{
}

/// Whether, in the run of a job through `events`, the event at `k` answers
/// the request to remove the workspace at `path`.
pub open spec fn removed_at(
    job: FinalConfigView,
    repo: Seq<char>,
    started: u64,
    events: Seq<BackupEventView>,
    k: int,
    path: Seq<char>,
) -> bool {
    &&& 0 <= k < events.len()
    &&& state_after(job, repo, started, events.take(k)).requested() == (
    BackupActionView::RemoveWorkspace { path })
    &&& events[k] is WorkspaceRemoved
}

/// No workspace is left behind: whatever happens outside the program, a
/// job that has ended and had a workspace has asked for the removal of
/// that workspace and has been answered, on every way to its end.
pub proof fn lemma_no_workspace_left(
    job: FinalConfigView,
    repo: Seq<char>,
    started: u64,
    events: Seq<BackupEventView>,
)
    requires
        state_after(job, repo, started, events).phase is Finished,
        state_after(job, repo, started, events).workspace is Some,
    ensures
        exists|k: int|
            removed_at(
                job,
                repo,
                started,
                events,
                k,
                state_after(job, repo, started, events).workspace->0,
            ),
    decreases events.len(),
{
    let end = state_after(job, repo, started, events);
    let path = end.workspace->0;
    if events.len() > 0 {
        let front = events.drop_last();
        let prev = state_after(job, repo, started, front);
        lemma_always_consistent(job, repo, started, front);
        if prev.phase is Finished {
            lemma_no_workspace_left(job, repo, started, front);
            let k = choose|k: int| removed_at(job, repo, started, front, k, path);
            assert(front.take(k) == events.take(k));
            assert(removed_at(job, repo, started, events, k, path));
        } else {
            lemma_workspace_removed_before_end(prev, events.last());
            let k = events.len() - 1;
            assert(events.take(k) == front);
            assert(removed_at(job, repo, started, events, k, path));
        }
    }
}

/// Individual mode: a path that fails does not stop the job. Whatever the
/// backup of a path gives, the next path is taken up, and after the last
/// one every path has been attempted and is counted as done or as failed.
pub proof fn lemma_every_path_attempted(
    job: FinalConfigView,
    repo: Seq<char>,
    started: u64,
    events: Seq<BackupEventView>,
)
    requires
        !merges(job),
    ensures
        ({
            let s = state_after(job, repo, started, events);
            &&& s.done.len() + s.path_failures.len() == s.item
            &&& !(s.phase is Finished) ==> s.item < job.path.len()
            &&& s.phase is Probing ==> s.requested() == (BackupActionView::ProbeRepository {
                path: repo,
            })
            &&& s.phase is Finished ==> {
                &&& s.done.len() + s.path_failures.len() == job.path.len()
                &&& s.path_failures.len() == 0 ==> s.outcome == Some(
                    BackupOutcomeView::AllPaths { count: job.path.len() },
                )
                &&& s.path_failures.len() > 0 ==> s.outcome == Some(
                    BackupOutcomeView::SomePaths {
                        succeeded: s.done.len(),
                        total: job.path.len(),
                        failures: s.path_failures,
                    },
                )
            }
        }),
{
    lemma_always_consistent(job, repo, started, events);
    lemma_job_kept(job, repo, started, events);
}

/// What is at the repository path and is no repository is left alone:
/// whether it is a file or a directory that holds something, the backup
/// into it fails as invalid, and neither its creation nor a run of the
/// tool is asked for on its account. In merge mode that ends the job, in
/// individual mode the path.
pub proof fn lemma_occupied_path_is_refused(s: BackupRunView, probe: RepoProbeView)
    requires
        consistent(s),
        s.phase is Probing,
        !repo_layout(probe),
        in_the_way(probe),
    ensures
        ({
            let next = s.after(BackupEventView::Probed(probe));
            let failure = StepFailureView::RepositoryInvalid { path: s.repo };
            &&& next == s.settled(Err(failure))
            &&& !(next.requested() is CreateRepository)
            &&& !(next.requested() is RunTool)
            &&& merges(s.job) ==> next.outcome == Some(BackupOutcomeView::BackupFailed(failure))
            &&& !merges(s.job) ==> next.path_failures == s.path_failures.push(
                PathFailureView { path: s.job.path[s.item as int], cause: failure },
            )
        }),
{
}

/// Individual mode: when the backup of a path fails and paths are left,
/// the failure is recorded with its path and the next path is taken up.
pub proof fn lemma_failure_moves_on(s: BackupRunView, report: ProcessReportView)
    requires
        consistent(s),
        !merges(s.job),
        s.phase is BackingUp,
        interpret(report) is Err,
    ensures
        ({
            let next = s.after(BackupEventView::ToolReturned(report));
            &&& next.item == s.item + 1
            &&& next.done == s.done
            &&& next.path_failures == s.path_failures.push(
                PathFailureView {
                    path: s.job.path[s.item as int],
                    cause: StepFailureView::Tool(interpret(report)->Err_0),
                },
            )
            &&& s.item + 1 < s.job.path.len() ==> next.phase is Probing
            &&& s.item + 1 == s.job.path.len() ==> next.phase is Finished
        }),
{
}

/// The secret reaches the tool on its standard input only: what the job
/// asks for does not depend on the secret, but for the secret that is
/// handed over beside the arguments.
pub proof fn lemma_secret_kept_out_of_arguments(s: BackupRunView, other: Seq<char>)
    ensures
        ({
            let t = BackupRunView { job: FinalConfigView { passwd: other, ..s.job }, ..s };
            match s.requested() {
                BackupActionView::RunTool { args, secret } => secret == s.job.passwd
                    && t.requested() == (BackupActionView::RunTool { args, secret: other }),
                asked => t.requested() == asked,
            }
        }),
{
}

/// The events of a run in which the repository is found in order before
/// each path and the tool answers the backups with `reports`, one for each
/// path in turn.
pub open spec fn rounds(probe: RepoProbeView, reports: Seq<ProcessReportView>) -> Seq<
    BackupEventView,
>
    decreases reports.len(),
{
    if reports.len() == 0 {
        Seq::empty()
    } else {
        rounds(probe, reports.drop_last()).push(BackupEventView::Probed(probe)).push(
            BackupEventView::ToolReturned(reports.last()),
        )
    }
}

/// The paths whose backup the tool answered with success, in their order.
pub open spec fn paths_done(paths: Seq<Seq<char>>, reports: Seq<ProcessReportView>) -> Seq<
    Seq<char>,
>
    decreases reports.len(),
{
    if reports.len() == 0 {
        Seq::empty()
    } else {
        let rest = paths_done(paths, reports.drop_last());
        if interpret(reports.last()) is Ok {
            rest.push(paths[reports.len() - 1])
        } else {
            rest
        }
    }
}

/// The paths whose backup the tool answered with a failure, each with
/// that failure, in their order.
pub open spec fn paths_failed(paths: Seq<Seq<char>>, reports: Seq<ProcessReportView>) -> Seq<
    PathFailureView,
>
    decreases reports.len(),
{
    if reports.len() == 0 {
        Seq::empty()
    } else {
        let rest = paths_failed(paths, reports.drop_last());
        match interpret(reports.last()) {
            Ok(_) => rest,
            Err(e) => rest.push(
                PathFailureView { path: paths[reports.len() - 1], cause: StepFailureView::Tool(e) },
            ),
        }
    }
}

/// Individual mode, the repository in order: whatever the tool answers to
/// the backups of the first paths, those answers decide which paths count
/// as done and which as failed, and nothing else. After them the next path
/// is taken up, or the job has ended where there is none.
pub proof fn lemma_rounds(
    job: FinalConfigView,
    repo: Seq<char>,
    started: u64,
    probe: RepoProbeView,
    reports: Seq<ProcessReportView>,
)
    requires
        !merges(job),
        repo_layout(probe),
        job.path.len() > 0,
        reports.len() <= job.path.len(),
    ensures
        ({
            let s = state_after(job, repo, started, rounds(probe, reports));
            &&& s.job == job
            &&& s.repo == repo
            &&& s.item == reports.len()
            &&& s.done == paths_done(job.path, reports)
            &&& s.path_failures == paths_failed(job.path, reports)
            &&& reports.len() < job.path.len() ==> s.phase is Probing
            &&& reports.len() == job.path.len() ==> s.phase is Finished
        }),
    decreases reports.len(),
{
    lemma_job_kept(job, repo, started, rounds(probe, reports));
    if reports.len() > 0 {
        let front = reports.drop_last();
        lemma_rounds(job, repo, started, probe, front);
        let probed = BackupEventView::Probed(probe);
        let answered = BackupEventView::ToolReturned(reports.last());
        let events = rounds(probe, reports);
        assert(events.drop_last() == rounds(probe, front).push(probed));
        assert(events.drop_last().drop_last() == rounds(probe, front));
        assert(events.last() == answered);
        assert(events.drop_last().last() == probed);
        let before = state_after(job, repo, started, rounds(probe, front));
        assert(state_after(job, repo, started, events.drop_last()) == before.after(probed));
        assert(state_after(job, repo, started, events) == before.after(probed).after(answered));
    }
}

/// Individual mode, the repository in order: the tool is asked to back
/// up every path, one after another in the order of the job, whatever it
/// answered to the paths before.
pub proof fn lemma_each_path_is_backed_up(
    job: FinalConfigView,
    repo: Seq<char>,
    started: u64,
    probe: RepoProbeView,
    reports: Seq<ProcessReportView>,
    k: int,
)
    requires
        !merges(job),
        repo_layout(probe),
        0 <= k < job.path.len(),
        reports.len() == k,
    ensures
        ({
            let s = state_after(job, repo, started, rounds(probe, reports));
            &&& s.requested() == BackupActionView::ProbeRepository { path: repo }
            &&& s.after(BackupEventView::Probed(probe)).requested() == (BackupActionView::RunTool {
                args: backup_arguments(repo, job.path[k], job.tag, job.pack_size as nat),
                secret: job.passwd,
            })
        }),
{
    lemma_rounds(job, repo, started, probe, reports);
}

/// Individual mode, the repository in order: once the tool has answered
/// the backup of every path, the job has ended, and its outcome counts the
/// paths that succeeded and lists the others with their failures.
pub proof fn lemma_outcome_counts_paths(
    job: FinalConfigView,
    repo: Seq<char>,
    started: u64,
    probe: RepoProbeView,
    reports: Seq<ProcessReportView>,
)
    requires
        !merges(job),
        repo_layout(probe),
        job.path.len() > 0,
        reports.len() == job.path.len(),
    ensures
        ({
            let s = state_after(job, repo, started, rounds(probe, reports));
            let done = paths_done(job.path, reports);
            let failed = paths_failed(job.path, reports);
            &&& s.requested() is Done
            &&& done.len() + failed.len() == job.path.len()
            &&& failed.len() == 0 ==> s.outcome == Some(
                BackupOutcomeView::AllPaths { count: job.path.len() },
            )
            &&& failed.len() > 0 ==> s.outcome == Some(
                BackupOutcomeView::SomePaths {
                    succeeded: done.len(),
                    total: job.path.len(),
                    failures: failed,
                },
            )
        }),
{
    lemma_rounds(job, repo, started, probe, reports);
    lemma_every_path_attempted(job, repo, started, rounds(probe, reports));
}

/// Three paths of which the second fails: the third is backed up all the
/// same, and the job ends with two of three paths done and the failure of
/// the second, under its path.
pub proof fn lemma_second_of_three_fails(
    job: FinalConfigView,
    repo: Seq<char>,
    started: u64,
    probe: RepoProbeView,
    first: ProcessReportView,
    second: ProcessReportView,
    third: ProcessReportView,
)
    requires
        !merges(job),
        repo_layout(probe),
        job.path.len() == 3,
        interpret(first) is Ok,
        interpret(second) is Err,
        interpret(third) is Ok,
    ensures
        ({
            let tool = |path: Seq<char>|
                BackupActionView::RunTool {
                    args: backup_arguments(repo, path, job.tag, job.pack_size as nat),
                    secret: job.passwd,
                };
            let probed = BackupEventView::Probed(probe);
            let s0 = state_after(job, repo, started, rounds(probe, Seq::empty()));
            let s1 = state_after(job, repo, started, rounds(probe, seq![first]));
            let s2 = state_after(job, repo, started, rounds(probe, seq![first, second]));
            let s3 = state_after(job, repo, started, rounds(probe, seq![first, second, third]));
            &&& s0.after(probed).requested() == tool(job.path[0])
            &&& s1.after(probed).requested() == tool(job.path[1])
            &&& s2.after(probed).requested() == tool(job.path[2])
            &&& s3.requested() is Done
            &&& s3.outcome == Some(
                BackupOutcomeView::SomePaths {
                    succeeded: 2,
                    total: 3,
                    failures: seq![
                        PathFailureView {
                            path: job.path[1],
                            cause: StepFailureView::Tool(interpret(second)->Err_0),
                        },
                    ],
                },
            )
        }),
{
    let none = Seq::<ProcessReportView>::empty();
    let one = seq![first];
    let two = seq![first, second];
    let all = seq![first, second, third];
    lemma_each_path_is_backed_up(job, repo, started, probe, none, 0);
    lemma_each_path_is_backed_up(job, repo, started, probe, one, 1);
    lemma_each_path_is_backed_up(job, repo, started, probe, two, 2);
    lemma_outcome_counts_paths(job, repo, started, probe, all);
    assert(all.drop_last() == two);
    assert(two.drop_last() == one);
    assert(one.drop_last() == none);
    let p = job.path;
    assert(paths_done(p, none) == Seq::<Seq<char>>::empty());
    assert(paths_done(p, one) == seq![p[0]]);
    assert(paths_done(p, two) == seq![p[0]]);
    assert(paths_done(p, all) == seq![p[0], p[2]]);
    assert(paths_failed(p, none) == Seq::<PathFailureView>::empty());
    assert(paths_failed(p, one) == Seq::<PathFailureView>::empty());
    let failure = PathFailureView {
        path: p[1],
        cause: StepFailureView::Tool(interpret(second)->Err_0),
    };
    assert(paths_failed(p, two) == seq![failure]);
    assert(paths_failed(p, all) == seq![failure]);
}

/// Whether `event` is what the phase waits for.
pub open spec fn awaited(phase: BackupPhase, event: BackupEventView) -> bool {
    match phase {
        BackupPhase::CreatingWorkspace => event is WorkspaceCreated,
        BackupPhase::Copying => event is Copied,
        BackupPhase::Probing => event is Probed,
        BackupPhase::CreatingRepository => event is RepositoryCreated,
        BackupPhase::Initializing | BackupPhase::BackingUp => event is ToolReturned,
        BackupPhase::RemovingWorkspace => event is WorkspaceRemoved,
        BackupPhase::Finished => false,
    }
}

/// A bound on the number of steps that a job has before it.
pub open spec fn steps_left(s: BackupRunView) -> nat {
    let rank: nat = match s.phase {
        BackupPhase::Probing => 4,
        BackupPhase::CreatingRepository => 3,
        BackupPhase::Initializing => 2,
        BackupPhase::BackingUp => 1,
        _ => 0,
    };
    let paths = s.job.path.len();
    let open = if s.item < paths {
        (paths - s.item) as nat
    } else {
        0
    };
    if merges(s.job) {
        match s.phase {
            BackupPhase::CreatingWorkspace => paths + 7,
            BackupPhase::Copying => open + 6,
            BackupPhase::RemovingWorkspace => 1,
            BackupPhase::Finished => 0,
            _ => rank + 1,
        }
    } else {
        match s.phase {
            BackupPhase::Finished => 0,
            _ => (4 * open + rank) as nat,
        }
    }
}

/// Every job ends: each answer that the job waits for brings its end nearer.
pub proof fn lemma_progress(s: BackupRunView, event: BackupEventView)
    requires
        consistent(s),
        awaited(s.phase, event),
    ensures
        steps_left(s.after(event)) < steps_left(s),
{
}

/// A job that has ended stays as it is, and a job that has not ended asks
/// for something.
pub proof fn lemma_finished_is_final(s: BackupRunView, event: BackupEventView)
    ensures
        s.phase is Finished ==> s.after(event) == s,
        s.requested() is Done <==> s.phase is Finished,
{
}

/// What is said of a backup into the repository that failed.
pub open spec fn describe_step(f: StepFailureView) -> Seq<char> {
    match f {
        StepFailureView::RepositoryInvalid { path } => "目录 "@ + path
            + " 已存在但不是有效的 restic 仓库。"@,
        StepFailureView::RepositoryNotCreated { detail, .. } => "创建仓库目录失败: "@ + detail,
        StepFailureView::Tool(e) => describe_error(e),
    }
}

/// What is said of a source path that could not be copied.
pub open spec fn copy_line(f: CopyFailureView) -> Seq<char> {
    "复制 "@ + f.source + " 失败: "@ + f.detail
}

/// What is said of a source path that could not be backed up.
pub open spec fn path_line(f: PathFailureView) -> Seq<char> {
    "路径 "@ + f.path + " 备份失败: "@ + describe_step(f.cause)
}

/// What is said of how a job ended.
pub open spec fn describe_outcome(o: BackupOutcomeView) -> Seq<char> {
    match o {
        BackupOutcomeView::Merged { output } => output,
        BackupOutcomeView::AllPaths { count } => "所有 "@ + decimal(count)
            + " 个路径单独备份成功。"@,
        BackupOutcomeView::WorkspaceNotCreated { detail, .. } => "创建合并目录失败: "@ + detail,
        BackupOutcomeView::CopyFailed { failures } => "文件复制阶段出现错误:\n"@ + join(
            Seq::new(failures.len(), |i: int| copy_line(failures[i])),
            "\n"@,
        ),
        BackupOutcomeView::BackupFailed(f) => describe_step(f),
        BackupOutcomeView::SomePaths { succeeded, total, failures } => decimal(succeeded) + "/"@
            + decimal(total) + " 个路径备份成功，错误详情:\n"@ + join(
            Seq::new(failures.len(), |i: int| path_line(failures[i])),
            "\n"@,
        ),
        BackupOutcomeView::NoRepositoryPath { root, name } => "仓库目录名 '"@ + name
            + "' 无效: 仓库必须位于 '"@ + root + "' 之下。"@,
    }
}

impl StepFailure {
    /// What is said of this failure.
    pub fn describe(&self) -> (r: String)
        ensures
            r@ == describe_step(self.deep_view()),
    {
        match self {
            StepFailure::RepositoryInvalid { path } => {
                let mut r = String::from_str("目录 ");
                r.append(path.as_str());
                r.append(" 已存在但不是有效的 restic 仓库。");
                r
            },
            StepFailure::RepositoryNotCreated { detail, .. } => {
                let mut r = String::from_str("创建仓库目录失败: ");
                r.append(detail.as_str());
                r
            },
            StepFailure::Tool(e) => e.describe(),
        }
    }
}

impl BackupOutcome {
    /// Whether the job did all that it was asked to do.
    pub fn is_success(&self) -> (r: bool)
        ensures
            r == self.deep_view().is_success(),
    {
        match self {
            BackupOutcome::Merged { .. } => true,
            BackupOutcome::AllPaths { .. } => true,
            _ => false,
        }
    }

    /// What is said of this outcome.
    pub fn describe(&self) -> (r: String)
        ensures
            r@ == describe_outcome(self.deep_view()),
    {
        match self {
            BackupOutcome::Merged { output } => output.clone(),
            BackupOutcome::AllPaths { count } => {
                let mut r = String::from_str("所有 ");
                r.append(decimal_text(*count as u64).as_str());
                r.append(" 个路径单独备份成功。");
                r
            },
            BackupOutcome::WorkspaceNotCreated { detail, .. } => {
                let mut r = String::from_str("创建合并目录失败: ");
                r.append(detail.as_str());
                r
            },
            BackupOutcome::CopyFailed { failures } => {
                let ghost lines = Seq::new(
                    failures.deep_view().len(),
                    |i: int| copy_line(failures.deep_view()[i]),
                );
                let mut texts: Vec<String> = Vec::new();
                let mut i: usize = 0;
                assert(texts.deep_view() == lines.take(0));
                while i < failures.len()
                    invariant
                        i <= failures.len(),
                        lines == Seq::new(
                            failures.deep_view().len(),
                            |i: int| copy_line(failures.deep_view()[i]),
                        ),
                        texts.deep_view() == lines.take(i as int),
                    decreases failures.len() - i,
                {
                    let mut l = String::from_str("复制 ");
                    l.append(failures[i].source.as_str());
                    l.append(" 失败: ");
                    l.append(failures[i].detail.as_str());
                    let ghost before = texts;
                    texts.push(l);
                    proof {
                        lemma_deep_view_push(before, texts, l);
                        assert(failures.deep_view()[i as int] == failures@[i as int].deep_view());
                        assert(lines.take(i + 1) == lines.take(i as int).push(lines[i as int]));
                    }
                    i = i + 1;
                }
                assert(lines.take(failures.len() as int) == lines);
                let mut r = String::from_str("文件复制阶段出现错误:\n");
                r.append(join_texts(&texts, "\n").as_str());
                r
            },
            BackupOutcome::BackupFailed(f) => f.describe(),
            BackupOutcome::SomePaths { succeeded, total, failures } => {
                let ghost lines = Seq::new(
                    failures.deep_view().len(),
                    |i: int| path_line(failures.deep_view()[i]),
                );
                let mut texts: Vec<String> = Vec::new();
                let mut i: usize = 0;
                assert(texts.deep_view() == lines.take(0));
                while i < failures.len()
                    invariant
                        i <= failures.len(),
                        lines == Seq::new(
                            failures.deep_view().len(),
                            |i: int| path_line(failures.deep_view()[i]),
                        ),
                        texts.deep_view() == lines.take(i as int),
                    decreases failures.len() - i,
                {
                    let mut l = String::from_str("路径 ");
                    l.append(failures[i].path.as_str());
                    l.append(" 备份失败: ");
                    l.append(failures[i].cause.describe().as_str());
                    let ghost before = texts;
                    texts.push(l);
                    proof {
                        lemma_deep_view_push(before, texts, l);
                        assert(failures.deep_view()[i as int] == failures@[i as int].deep_view());
                        assert(lines.take(i + 1) == lines.take(i as int).push(lines[i as int]));
                    }
                    i = i + 1;
                }
                assert(lines.take(failures.len() as int) == lines);
                let mut r = decimal_text(*succeeded as u64);
                r.append("/");
                r.append(decimal_text(*total as u64).as_str());
                r.append(" 个路径备份成功，错误详情:\n");
                r.append(join_texts(&texts, "\n").as_str());
                r
            },
            BackupOutcome::NoRepositoryPath { root, name } => {
                let mut r = String::from_str("仓库目录名 '");
                r.append(name.as_str());
                r.append("' 无效: 仓库必须位于 '");
                r.append(root.as_str());
                r.append("' 之下。");
                r
            },
        }
    }
}

/// `Path::join` of std, on two texts: `name` adjoined to `root` as the
/// platform writes paths. What comes back depends on the platform, so nothing
/// is claimed of it.
#[verifier::external_body]
fn join_path(root: &str, name: &str) -> String {
    std::path::Path::new(root).join(name).to_string_lossy().into_owned()
}

/// `joined` as the repository path of a job, where it lies under the
/// job's repository root and ends in the job's name; else none.
pub fn accept_repository_path(job: &FinalConfig, joined: String) -> (r: Option<String>)
    ensures
        r.deep_view() == (if lies_under(joined@, job.restic_home_path@, job.name@) {
            Some(joined@)
        } else {
            None
        }),
{
    let path = chars_of(joined.as_str());
    let root = chars_of(job.restic_home_path.as_str());
    let name = chars_of(job.name.as_str());
    if check_starts_with(&path, &root) && check_ends_with(&path, &name) && root.len() <= path.len()
        && name.len() <= path.len() - root.len() {
        Some(joined)
    } else {
        None
    }
}

/// The repository path of a job: its name adjoined to its repository root
/// as the platform writes paths, where that gives a path that lies under
/// the root and ends in the name. A name for which it does not, such as
/// one that is a whole path of its own, has no repository path.
pub fn repository_path(job: &FinalConfig) -> (r: Option<String>)
    ensures
        r matches Some(path) ==> lies_under(path@, job.restic_home_path@, job.name@),
{
    accept_repository_path(job, join_path(job.restic_home_path.as_str(), job.name.as_str()))
}

/// The entry that the report holds for a job that ended with `outcome`.
pub open spec fn backup_entry(name: Seq<char>, outcome: Option<BackupOutcomeView>) -> SummaryEntryView {
    match outcome {
        Some(o) => SummaryEntryView {
            name,
            success: o.is_success(),
            message: describe_outcome(o),
            notes: Seq::empty(),
        },
        None => SummaryEntryView {
            name,
            success: false,
            message: Seq::empty(),
            notes: Seq::empty(),
        },
    }
}

/// A batch of backup jobs under way. The jobs run one after another; how
/// one ends has no bearing on the next.
#[derive(Debug, Clone, PartialEq, Eq)]
pub struct BatchBackup {
    /// The jobs, in the order in which they run.
    pub jobs: Vec<FinalConfig>,
    /// The repository path of each job; none for a job that has none.
    pub repos: Vec<Option<String>>,
    /// When the batch began, in seconds since the epoch.
    pub started: u64,
    /// The index of the job that runs; the number of jobs once all have ended.
    pub index: usize,
    /// The job that runs.
    pub current: Option<BackupRun>,
    /// One entry for each job that has ended.
    pub entries: Vec<SummaryEntry>,
}

/// The model of a [`BatchBackup`].
pub struct BatchBackupView {
    pub jobs: Seq<FinalConfigView>,
    pub repos: Seq<Option<Seq<char>>>,
    pub started: u64,
    pub index: nat,
    pub current: Option<BackupRunView>,
    pub entries: Seq<SummaryEntryView>,
}

impl DeepView for BatchBackup {
    type V = BatchBackupView;

    open spec fn deep_view(&self) -> BatchBackupView {
        BatchBackupView {
            jobs: self.jobs.deep_view(),
            repos: self.repos.deep_view(),
            started: self.started,
            index: self.index as nat,
            current: self.current.deep_view(),
            entries: self.entries.deep_view(),
        }
    }
}

impl BatchBackupView {
    /// The repository path of the job at `index`, where it has one.
    pub open spec fn repo_of(self, index: nat) -> Option<Seq<char>> {
        if index < self.repos.len() {
            self.repos[index as int]
        } else {
            None
        }
    }

    /// The state in which the job at `index` begins; none past the last
    /// job. A job without a repository path has ended before it begins.
    pub open spec fn opening(self, index: nat) -> Option<BackupRunView> {
        if index < self.jobs.len() {
            Some(
                match self.repo_of(index) {
                    Some(repo) => begun(self.jobs[index as int], repo, self.started),
                    None => refused(self.jobs[index as int], self.started),
                },
            )
        } else {
            None
        }
    }

    /// The batch once every job that has ended is entered in the report
    /// and the next job that has something to ask for is taken up.
    pub open spec fn settled(self) -> BatchBackupView
        decreases self.jobs.len() - self.index,
    {
        match self.current {
            Some(run) => if run.phase is Finished && self.index < self.jobs.len() {
                (BatchBackupView {
                    index: self.index + 1,
                    current: self.opening(self.index + 1),
                    entries: self.entries.push(
                        backup_entry(self.jobs[self.index as int].key_name, run.outcome),
                    ),
                    ..self
                }).settled()
            } else {
                self
            },
            None => self,
        }
    }

    /// The batch after `event`, which goes to the job that runs.
    pub open spec fn after(self, event: BackupEventView) -> BatchBackupView {
        match self.current {
            Some(run) => (BatchBackupView { current: Some(run.after(event)), ..self }).settled(),
            None => self,
        }
    }

    /// What the batch asks for: what its running job asks for, or nothing
    /// once every job has ended.
    pub open spec fn requested(self) -> BackupActionView {
        match self.current {
            Some(run) => run.requested(),
            None => BackupActionView::Done,
        }
    }
}

/// The state in which a batch begins.
pub open spec fn batch_begun(
    jobs: Seq<FinalConfigView>,
    repos: Seq<Option<Seq<char>>>,
    started: u64,
) -> BatchBackupView {
    let blank = BatchBackupView {
        jobs,
        repos,
        started,
        index: 0,
        current: None,
        entries: Seq::empty(),
    };
    (BatchBackupView { current: blank.opening(0), ..blank }).settled()
}

impl BatchBackup {
    fn open(&self, index: usize) -> (r: Option<BackupRun>)
        ensures
            r.deep_view() == self.deep_view().opening(index as nat),
    {
        if index < self.jobs.len() {
            assert(self.jobs.deep_view()[index as int] == self.jobs@[index as int].deep_view());
            let job = self.jobs[index].duplicate();
            if index < self.repos.len() {
                assert(self.repos.deep_view()[index as int]
                    == self.repos@[index as int].deep_view());
                match &self.repos[index] {
                    Some(repo) => Some(BackupRun::start(job, repo.clone(), self.started)),
                    None => Some(BackupRun::refuse(job, self.started)),
                }
            } else {
                Some(BackupRun::refuse(job, self.started))
            }
        } else {
            None
        }
    }

    fn settle(self) -> (r: BatchBackup)
        ensures
            r.deep_view() == self.deep_view().settled(),
        decreases self.jobs.len() - self.index,
    {
        let finished = match &self.current {
            Some(run) => run.phase == BackupPhase::Finished && self.index < self.jobs.len(),
            None => false,
        };
        if !finished {
            return self;
        }
        let next = self.open(self.index + 1);
        let mut s = self;
        let run = s.current.unwrap();
        assert(s.jobs.deep_view()[s.index as int] == s.jobs@[s.index as int].deep_view());
        let name = s.jobs[s.index].key_name.clone();
        let notes: Vec<String> = Vec::new();
        assert(notes.deep_view() == Seq::<Seq<char>>::empty());
        let entry = match &run.outcome {
            Some(o) => SummaryEntry { name, success: o.is_success(), message: o.describe(), notes },
            None => SummaryEntry { name, success: false, message: String::new(), notes },
        };
        let ghost before = s.entries;
        s.entries.push(entry);
        proof {
            lemma_deep_view_push(before, s.entries, entry);
        }
        s.index = s.index + 1;
        s.current = next;
        s.settle()
    }

    /// Begins a batch whose repository paths are `repos`, one for each
    /// job; a job for which `repos` holds none ends at once as refused.
    pub fn start_with(jobs: Vec<FinalConfig>, repos: Vec<Option<String>>, started: u64) -> (r:
        BatchBackup)
        requires
            repos.len() == jobs.len(),
        ensures
            r.deep_view() == batch_begun(jobs.deep_view(), repos.deep_view(), started),
    {
        let entries: Vec<SummaryEntry> = Vec::new();
        assert(entries.deep_view() == Seq::<SummaryEntryView>::empty());
        let blank = BatchBackup { jobs, repos, started, index: 0, current: None, entries };
        let first = blank.open(0);
        let mut s = blank;
        s.current = first;
        s.settle()
    }

    /// Begins a batch. The repository path of each job is its name
    /// adjoined to its repository root as the platform writes paths; each
    /// lies under the root of its job and ends in the job's name. A job
    /// for which that cannot be had ends at once as refused.
    pub fn start(jobs: Vec<FinalConfig>, started: u64) -> (r: BatchBackup)
        ensures
            r.deep_view().repos.len() == jobs.len(),
            forall|i: int|
                0 <= i < jobs.len() ==> (#[trigger] r.deep_view().repos[i] matches Some(path)
                    ==> lies_under(
                    path,
                    jobs.deep_view()[i].restic_home_path,
                    jobs.deep_view()[i].name,
                )),
            r.deep_view() == batch_begun(jobs.deep_view(), r.deep_view().repos, started),
    {
        let mut repos: Vec<Option<String>> = Vec::new();
        let mut i: usize = 0;
        while i < jobs.len()
            invariant
                i <= jobs.len(),
                repos.len() == i,
                forall|k: int|
                    0 <= k < i ==> (#[trigger] repos.deep_view()[k] matches Some(path)
                        ==> lies_under(
                        path,
                        jobs.deep_view()[k].restic_home_path,
                        jobs.deep_view()[k].name,
                    )),
            decreases jobs.len() - i,
        {
            let repo = repository_path(&jobs[i]);
            let ghost before = repos;
            repos.push(repo);
            proof {
                lemma_deep_view_push(before, repos, repo);
                assert(jobs.deep_view()[i as int] == jobs@[i as int].deep_view());
            }
            i = i + 1;
        }
        let r = BatchBackup::start_with(jobs, repos, started);
        proof {
            let blank = BatchBackupView {
                jobs: jobs.deep_view(),
                repos: repos.deep_view(),
                started,
                index: 0,
                current: None,
                entries: Seq::empty(),
            };
            lemma_batch_keeps_jobs(BatchBackupView { current: blank.opening(0), ..blank });
        }
        r
    }

    /// What the batch asks for now.
    pub fn request(&self) -> (r: BackupAction)
        ensures
            r.deep_view() == self.deep_view().requested(),
    {
        match &self.current {
            Some(run) => run.request(),
            None => BackupAction::Done,
        }
    }

    /// Takes in what happened outside the program.
    pub fn advance(self, event: BackupEvent) -> (r: BatchBackup)
        ensures
            r.deep_view() == self.deep_view().after(event.deep_view()),
    {
        if self.current.is_none() {
            return self;
        }
        let mut s = self;
        let run = s.current.unwrap();
        s.current = Some(run.advance(event));
        s.settle()
    }
}

/// Settling a batch changes neither its jobs nor their repositories.
pub proof fn lemma_batch_keeps_jobs(s: BatchBackupView)
    ensures
        s.settled().jobs == s.jobs,
        s.settled().repos == s.repos,
        s.settled().started == s.started,
    decreases s.jobs.len() - s.index,
{
    match s.current {
        Some(run) => {
            if run.phase is Finished && s.index < s.jobs.len() {
                lemma_batch_keeps_jobs(
                    BatchBackupView {
                        index: s.index + 1,
                        current: s.opening(s.index + 1),
                        entries: s.entries.push(
                            backup_entry(s.jobs[s.index as int].key_name, run.outcome),
                        ),
                        ..s
                    },
                );
            }
        },
        None => {},
    }
}

/// What holds of every state that a batch passes through: each job that
/// has ended has its one entry, in the order of the jobs, and the job that
/// runs is the next one.
pub open spec fn batch_consistent(s: BatchBackupView) -> bool {
    &&& s.index <= s.jobs.len()
    &&& s.entries.len() == s.index
    &&& forall|i: int| 0 <= i < s.index ==> (#[trigger] s.entries[i]).name == s.jobs[i].key_name
    &&& s.current is None <==> s.index == s.jobs.len()
    &&& s.current matches Some(run) ==> {
        &&& consistent(run)
        &&& run.job == s.jobs[s.index as int]
        &&& s.repo_of(s.index) == Some(run.repo)
        &&& !(run.phase is Finished)
    }
}

proof fn lemma_settled_consistent(s: BatchBackupView)
    requires
        s.index <= s.jobs.len(),
        s.entries.len() == s.index,
        forall|i: int| 0 <= i < s.index ==> (#[trigger] s.entries[i]).name == s.jobs[i].key_name,
        s.current is None <==> s.index == s.jobs.len(),
        s.current matches Some(run) ==> (consistent(run) || run.phase is Finished) && run.job
            == s.jobs[s.index as int] && (s.repo_of(s.index) == Some(run.repo)
            || run.phase is Finished),
    ensures
        batch_consistent(s.settled()),
        s.settled().index >= s.index,
        s.current matches Some(run) && !(run.phase is Finished) ==> s.settled() == s,
        s.current matches Some(run) && run.phase is Finished ==> s.settled().index > s.index,
    decreases s.jobs.len() - s.index,
{
    match s.current {
        Some(run) => {
            if run.phase is Finished && s.index < s.jobs.len() {
                let next = BatchBackupView {
                    index: s.index + 1,
                    current: s.opening(s.index + 1),
                    entries: s.entries.push(
                        backup_entry(s.jobs[s.index as int].key_name, run.outcome),
                    ),
                    ..s
                };
                assert forall|i: int| 0 <= i < next.index implies (#[trigger] next.entries[i]).name
                    == next.jobs[i].key_name by {
                    if i < s.index {
                        assert(next.entries[i] == s.entries[i]);
                    }
                }
                lemma_settled_consistent(next);
            }
        },
        None => {},
    }
}

/// A batch begins in a consistent state.
pub proof fn lemma_batch_begun_consistent(
    jobs: Seq<FinalConfigView>,
    repos: Seq<Option<Seq<char>>>,
    started: u64,
)
    ensures
        batch_consistent(batch_begun(jobs, repos, started)),
{
    let blank = BatchBackupView {
        jobs,
        repos,
        started,
        index: 0,
        current: None,
        entries: Seq::empty(),
    };
    lemma_settled_consistent(BatchBackupView { current: blank.opening(0), ..blank });
}

/// The tool is only ever pointed at the repository of the job that runs:
/// whatever a batch in a consistent state asks the tool to do, the
/// repository that it names is the repository path of the running job.
pub proof fn lemma_tool_is_pointed_at_the_job(s: BatchBackupView)
    requires
        batch_consistent(s),
        s.requested() is RunTool,
    ensures
        s.repo_of(s.index) is Some,
        s.requested()->RunTool_args.len() >= 2,
        s.requested()->RunTool_args[0] == "-r"@,
        Some(s.requested()->RunTool_args[1]) == s.repo_of(s.index),
        s.requested()->RunTool_secret == s.jobs[s.index as int].passwd,
{
}

/// A step leads a batch from a consistent state to a consistent state, and
/// brings its end nearer where the step is what the running job waits for:
/// either a job ends and the next is taken up, whatever the outcome, or
/// the running job has fewer steps before it.
pub proof fn lemma_batch_step(s: BatchBackupView, event: BackupEventView)
    requires
        batch_consistent(s),
    ensures
        batch_consistent(s.after(event)),
        s.after(event).jobs == s.jobs,
        s.after(event).index >= s.index,
        forall|i: int| 0 <= i < s.index ==> s.after(event).entries[i] == s.entries[i],
        s.current is Some && awaited(s.current->0.phase, event) ==> s.after(event).index > s.index
            || (s.after(event).current is Some && steps_left(s.after(event).current->0)
            < steps_left(s.current->0)),
{
    match s.current {
        Some(run) => {
            lemma_step_consistent(run, event);
            lemma_job_of_step(run, event);
            let moved = BatchBackupView { current: Some(run.after(event)), ..s };
            lemma_settled_consistent(moved);
            lemma_batch_keeps_jobs(moved);
            lemma_settled_keeps_entries(moved);
            if awaited(run.phase, event) {
                lemma_progress(run, event);
            }
        },
        None => {},
    }
}

/// A step does not change the job.
pub proof fn lemma_job_of_step(s: BackupRunView, event: BackupEventView)
    ensures
        s.after(event).job == s.job,
        s.after(event).repo == s.repo,
        s.after(event).started == s.started,
{
}

proof fn lemma_settled_keeps_entries(s: BatchBackupView)
    ensures
        s.entries.len() <= s.settled().entries.len(),
        forall|i: int| 0 <= i < s.entries.len() ==> s.settled().entries[i] == s.entries[i],
    decreases s.jobs.len() - s.index,
{
    match s.current {
        Some(run) => {
            if run.phase is Finished && s.index < s.jobs.len() {
                let next = BatchBackupView {
                    index: s.index + 1,
                    current: s.opening(s.index + 1),
                    entries: s.entries.push(
                        backup_entry(s.jobs[s.index as int].key_name, run.outcome),
                    ),
                    ..s
                };
                lemma_settled_keeps_entries(next);
                assert forall|i: int| 0 <= i < s.entries.len() implies s.settled().entries[i]
                    == s.entries[i] by {
                    assert(next.entries[i] == s.entries[i]);
                }
            }
        },
        None => {},
    }
}

/// The state that a batch is in after `events`, one after another.
pub open spec fn batch_after(
    jobs: Seq<FinalConfigView>,
    repos: Seq<Option<Seq<char>>>,
    started: u64,
    events: Seq<BackupEventView>,
) -> BatchBackupView
    decreases events.len(),
{
    if events.len() == 0 {
        batch_begun(jobs, repos, started)
    } else {
        batch_after(jobs, repos, started, events.drop_last()).after(events.last())
    }
}

/// Whatever the jobs and whatever happens outside the program: no job
/// stops the batch. Once the batch asks for nothing more, the report holds
/// exactly one entry for each job, under the job's name, in the order of
/// the jobs.
pub proof fn lemma_one_entry_for_each_job(
    jobs: Seq<FinalConfigView>,
    repos: Seq<Option<Seq<char>>>,
    started: u64,
    events: Seq<BackupEventView>,
)
    ensures
        ({
            let s = batch_after(jobs, repos, started, events);
            &&& batch_consistent(s)
            &&& s.jobs == jobs
            &&& s.requested() is Done ==> {
                &&& s.entries.len() == jobs.len()
                &&& forall|i: int|
                    0 <= i < jobs.len() ==> (#[trigger] s.entries[i]).name == jobs[i].key_name
            }
        }),
    decreases events.len(),
{
    if events.len() == 0 {
        lemma_batch_begun_consistent(jobs, repos, started);
        let blank = BatchBackupView {
            jobs,
            repos,
            started,
            index: 0,
            current: None,
            entries: Seq::empty(),
        };
        lemma_batch_keeps_jobs(BatchBackupView { current: blank.opening(0), ..blank });
    } else {
        lemma_one_entry_for_each_job(jobs, repos, started, events.drop_last());
        lemma_batch_step(batch_after(jobs, repos, started, events.drop_last()), events.last());
    }
    let s = batch_after(jobs, repos, started, events);
    if s.requested() is Done {
        match s.current {
            Some(run) => {
                lemma_finished_is_final(run, BackupEventView::WorkspaceRemoved);
            },
            None => {},
        }
    }
}

/// How a backup is to be carried out.
#[derive(Debug, Clone, PartialEq, Eq)]
pub enum BackupPlan {
    /// Run the jobs of the configuration document at `path`.
    FromConfig { path: String },
    /// Ask for what is missing and back up one path: `target` where it
    /// was given.
    Interactive { target: Option<String> },
    /// The path given to be backed up is not on disk.
    MissingTarget { path: String },
}

/// The model of a [`BackupPlan`].
pub enum BackupPlanView {
    FromConfig { path: Seq<char> },
    Interactive { target: Option<Seq<char>> },
    MissingTarget { path: Seq<char> },
}

impl DeepView for BackupPlan {
    type V = BackupPlanView;

    open spec fn deep_view(&self) -> BackupPlanView {
        match self {
            BackupPlan::FromConfig { path } => BackupPlanView::FromConfig { path: path@ },
            BackupPlan::Interactive { target } => BackupPlanView::Interactive {
                target: target.deep_view(),
            },
            BackupPlan::MissingTarget { path } => BackupPlanView::MissingTarget { path: path@ },
        }
    }
}

/// The configuration document that is used where none is named.
pub open spec fn default_config() -> Seq<char> {
    "backup_config.toml"@
}

/// The plan for a backup. A named document is used; else a named path is
/// backed up, if it is on disk; else the default document is used where it
/// is there; else everything is asked for.
pub open spec fn planned(
    config_path: Option<Seq<char>>,
    target_path: Option<Seq<char>>,
    target_exists: bool,
    default_exists: bool,
) -> BackupPlanView {
    match config_path {
        Some(path) => BackupPlanView::FromConfig { path },
        None => match target_path {
            Some(path) => if target_exists {
                BackupPlanView::Interactive { target: Some(path) }
            } else {
                BackupPlanView::MissingTarget { path }
            },
            None => if default_exists {
                BackupPlanView::FromConfig { path: default_config() }
            } else {
                BackupPlanView::Interactive { target: None }
            },
        },
    }
}

/// Decides how a backup is to be carried out. `target_exists` says
/// whether `target_path` is on disk, `default_exists` whether the default
/// document is.
pub fn handle_backup(
    config_path: Option<String>,
    target_path: Option<String>,
    target_exists: bool,
    default_exists: bool,
) -> (r: BackupPlan)
    ensures
        r.deep_view() == planned(
            config_path.deep_view(),
            target_path.deep_view(),
            target_exists,
            default_exists,
        ),
{
    match config_path {
        Some(path) => BackupPlan::FromConfig { path },
        None => match target_path {
            Some(path) => {
                if target_exists {
                    BackupPlan::Interactive { target: Some(path) }
                } else {
                    BackupPlan::MissingTarget { path }
                }
            },
            None => {
                if default_exists {
                    BackupPlan::FromConfig { path: String::from_str("backup_config.toml") }
                } else {
                    BackupPlan::Interactive { target: None }
                }
            },
        },
    }
}

/// What is said of a path to back up that is not on disk.
pub open spec fn missing_target_text(path: Seq<char>) -> Seq<char> {
    "错误: 提供的路径 '"@ + path + "' 不存在。"@
}

/// What is said of a path to back up that is not on disk.
pub fn describe_missing_target(path: &str) -> (r: String)
    ensures
        r@ == missing_target_text(path@),
{
    let mut r = String::from_str("错误: 提供的路径 '");
    r.append(path);
    r.append("' 不存在。");
    r
}

/// Whether a command-line argument names a configuration document: it
/// ends in `.toml`.
pub open spec fn names_config(argument: Seq<char>) -> bool {
    ends_with(argument, ".toml"@)
}

/// Whether a command-line argument names a configuration document.
pub fn is_config_argument(argument: &str) -> (r: bool)
    ensures
        r == names_config(argument@),
{
    check_ends_with(&chars_of(argument), &chars_of(".toml"))
}

/// Begins the batch of the jobs of a configuration document.
pub fn run_toml_backup(configs: Vec<FinalConfig>, started: u64) -> (r: BatchBackup)
    ensures
        r.deep_view().repos.len() == configs.len(),
        forall|i: int|
            0 <= i < configs.len() ==> (#[trigger] r.deep_view().repos[i] matches Some(path)
                ==> lies_under(
                path,
                configs.deep_view()[i].restic_home_path,
                configs.deep_view()[i].name,
            )),
        r.deep_view() == batch_begun(configs.deep_view(), r.deep_view().repos, started),
{
    BatchBackup::start(configs, started)
}

/// The job that backs up the one path `target` into a repository called
/// `name` with the secret `password`: no tag, no merging, the default
/// pack size.
pub open spec fn interactive_job(
    target: Seq<char>,
    name: Seq<char>,
    password: Seq<char>,
) -> FinalConfigView {
    FinalConfigView {
        key_name: name,
        name,
        path: seq![target],
        tag: Seq::empty(),
        passwd: password,
        restic_home_path: Seq::empty(),
        merge: 0,
        merge_name: crate::config::default_merge_name(),
        pack_size: crate::config::DEFAULT_PACK_SIZE as u64,
    }
}

/// Begins the backup of one path from what was asked for: the path, the
/// name of the repository, the secret, and the repository path that
/// belongs to the name. Without the last confirmation nothing is begun.
pub fn run_interactive_backup(
    target: String,
    name: String,
    password: String,
    repo: String,
    confirmed: bool,
    started: u64,
) -> (r: Option<BackupRun>)
    ensures
        r.deep_view() == (if confirmed {
            Some(begun(interactive_job(target@, name@, password@), repo@, started))
        } else {
            None
        }),
{
    if !confirmed {
        return None;
    }
    let mut path: Vec<String> = Vec::new();
    assert(path.deep_view() == Seq::<Seq<char>>::empty());
    push_text(&mut path, target);
    assert(path.deep_view() == seq![target@]);
    let job = FinalConfig {
        key_name: name.clone(),
        name,
        path,
        tag: String::new(),
        passwd: password,
        restic_home_path: String::new(),
        merge: 0,
        merge_name: String::from_str("merged_backup"),
        pack_size: crate::config::DEFAULT_PACK_SIZE as u64,
    };
    Some(BackupRun::start(job, repo, started))
}

} // verus!
