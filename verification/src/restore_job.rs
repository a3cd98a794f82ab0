//! Carrying out one restore job, and a batch of them. As with backups the
//! job is a state machine: its state says what is to be done outside the
//! program, and the outcome of that is handed back as an event.

use crate::config::{FinalRestoreConfig, FinalRestoreConfigView};
use crate::restore::{
    describe_parse_error, get_snapshots, listing, resolve_argument,
    resolve_restore_argument, select, select_snapshots, PathSyntax, RestorePathNotFound,
    RestorePathNotFoundView, Snapshot, SnapshotParseError, SnapshotParseErrorView, SnapshotView,
};
use crate::summary::{SummaryEntry, SummaryEntryView};
use crate::text::{decimal, decimal_text, lemma_deep_view_push};
use crate::utils::{
    describe_error, interpret, is_restic_repo, repo_layout, restore_args, restore_arguments,
    run_restic_command, snapshots_args, snapshots_arguments, ProcessReport, ProcessReportView,
    RepoProbe, RepoProbeView, ToolError, ToolErrorView,
};
use vstd::prelude::*;
use vstd::string::*;

verus! {

/// What a restore job waits for.
#[derive(Clone, Copy, Debug, PartialEq, Eq, Structural)]
pub enum RestorePhase {
    /// The repository path is being looked at.
    Probing,
    /// The target directory is being made sure of.
    PreparingTarget,
    /// The tool is listing the snapshots.
    Listing,
    /// The tool is restoring a snapshot.
    Restoring,
    /// Nothing: the outcome is known.
    Finished,
}

/// How a restore job ended.
#[derive(Debug, Clone, PartialEq, Eq)]
pub enum RestoreOutcome {
    /// Every one of `count` selected snapshots was restored.
    Restored { count: usize },
    /// What is at `path` is no repository, or nothing is there.
    RepositoryInvalid { path: String },
    /// The target directory is not there and could not be created.
    TargetNotCreated { path: String, detail: String },
    /// The tool could not list the snapshots.
    ListingFailed(ToolError),
    /// The tool's listing could not be read.
    ListingUnreadable(SnapshotParseError),
    /// The repository holds no snapshot.
    NoSnapshots,
    /// The selector matches no snapshot.
    NothingSelected,
    /// A selected snapshot records no path that ends with the configured
    /// subpath; the snapshots after it were not taken up.
    PathNotFound(RestorePathNotFound),
    /// The tool could not restore a snapshot; the snapshots after it were
    /// not taken up.
    RestoreFailed { snapshot: String, error: ToolError },
}

/// The model of a [`RestoreOutcome`].
pub enum RestoreOutcomeView {
    Restored { count: nat },
    RepositoryInvalid { path: Seq<char> },
    TargetNotCreated { path: Seq<char>, detail: Seq<char> },
    ListingFailed(ToolErrorView),
    ListingUnreadable(SnapshotParseErrorView),
    NoSnapshots,
    NothingSelected,
    PathNotFound(RestorePathNotFoundView),
    RestoreFailed { snapshot: Seq<char>, error: ToolErrorView },
}

impl DeepView for RestoreOutcome {
    type V = RestoreOutcomeView;

    open spec fn deep_view(&self) -> RestoreOutcomeView {
        match self {
            RestoreOutcome::Restored { count } => RestoreOutcomeView::Restored {
                count: *count as nat,
            },
            RestoreOutcome::RepositoryInvalid { path } => RestoreOutcomeView::RepositoryInvalid {
                path: path@,
            },
            RestoreOutcome::TargetNotCreated { path, detail } => RestoreOutcomeView::TargetNotCreated {
                path: path@,
                detail: detail@,
            },
            RestoreOutcome::ListingFailed(e) => RestoreOutcomeView::ListingFailed(e.deep_view()),
            RestoreOutcome::ListingUnreadable(e) => RestoreOutcomeView::ListingUnreadable(
                e.deep_view(),
            ),
            RestoreOutcome::NoSnapshots => RestoreOutcomeView::NoSnapshots,
            RestoreOutcome::NothingSelected => RestoreOutcomeView::NothingSelected,
            RestoreOutcome::PathNotFound(e) => RestoreOutcomeView::PathNotFound(e.deep_view()),
            RestoreOutcome::RestoreFailed { snapshot, error } => RestoreOutcomeView::RestoreFailed {
                snapshot: snapshot@,
                error: error.deep_view(),
            },
        }
    }
}

/// What happened outside the program.
#[derive(Debug, PartialEq, Eq)]
pub enum RestoreEvent {
    /// The repository path was looked at.
    Probed(RepoProbe),
    /// The target directory is there, or could not be created.
    TargetPrepared(Result<(), String>),
    /// The tool was run.
    ToolReturned(ProcessReport),
}

/// The model of a [`RestoreEvent`].
pub enum RestoreEventView {
    Probed(RepoProbeView),
    TargetPrepared(Result<(), Seq<char>>),
    ToolReturned(ProcessReportView),
}

impl DeepView for RestoreEvent {
    type V = RestoreEventView;

    open spec fn deep_view(&self) -> RestoreEventView {
        match self {
            RestoreEvent::Probed(p) => RestoreEventView::Probed(p.deep_view()),
            RestoreEvent::TargetPrepared(r) => RestoreEventView::TargetPrepared(
                match r {
                    Ok(_) => Ok(()),
                    Err(d) => Err(d@),
                },
            ),
            RestoreEvent::ToolReturned(r) => RestoreEventView::ToolReturned(r.deep_view()),
        }
    }
}

/// What is to be done outside the program.
#[derive(Debug, Clone, PartialEq, Eq)]
pub enum RestoreAction {
    /// Look at the repository path.
    ProbeRepository { path: String },
    /// Create the target directory and what is missing above it, unless it
    /// is there.
    PrepareTarget { path: String },
    /// Run the tool with these arguments and hand it the secret.
    RunTool { args: Vec<String>, secret: String },
    /// Nothing: the job has ended.
    Done,
}

/// The model of a [`RestoreAction`].
pub enum RestoreActionView {
    ProbeRepository { path: Seq<char> },
    PrepareTarget { path: Seq<char> },
    RunTool { args: Seq<Seq<char>>, secret: Seq<char> },
    Done,
}

impl DeepView for RestoreAction {
    type V = RestoreActionView;

    open spec fn deep_view(&self) -> RestoreActionView {
        match self {
            RestoreAction::ProbeRepository { path } => RestoreActionView::ProbeRepository {
                path: path@,
            },
            RestoreAction::PrepareTarget { path } => RestoreActionView::PrepareTarget {
                path: path@,
            },
            RestoreAction::RunTool { args, secret } => RestoreActionView::RunTool {
                args: args.deep_view(),
                secret: secret@,
            },
            RestoreAction::Done => RestoreActionView::Done,
        }
    }
}

/// One restore job under way.
#[derive(Debug, Clone, PartialEq, Eq)]
pub struct RestoreRun {
    /// The job.
    pub job: FinalRestoreConfig,
    /// How paths are written where the backups were taken.
    pub syntax: PathSyntax,
    /// What the job waits for.
    pub phase: RestorePhase,
    /// The snapshots that the selector chose, in the order to restore them.
    pub selected: Vec<Snapshot>,
    /// The id prefixes of the selector that no snapshot matched.
    pub not_found: Vec<String>,
    /// The index of the snapshot that is being restored.
    pub item: usize,
    /// What is handed to the tool for that snapshot.
    pub argument: String,
    /// How the job ended, once that is known.
    pub outcome: Option<RestoreOutcome>,
}

/// The model of a [`RestoreRun`].
pub struct RestoreRunView {
    pub job: FinalRestoreConfigView,
    pub syntax: PathSyntax,
    pub phase: RestorePhase,
    pub selected: Seq<SnapshotView>,
    pub not_found: Seq<Seq<char>>,
    pub item: nat,
    pub argument: Seq<char>,
    pub outcome: Option<RestoreOutcomeView>,
}

impl DeepView for RestoreRun {
    type V = RestoreRunView;

    open spec fn deep_view(&self) -> RestoreRunView {
        RestoreRunView {
            job: self.job.deep_view(),
            syntax: self.syntax,
            phase: self.phase,
            selected: self.selected.deep_view(),
            not_found: self.not_found.deep_view(),
            item: self.item as nat,
            argument: self.argument@,
            outcome: self.outcome.deep_view(),
        }
    }
}

impl RestoreRunView {
    /// The job ended with `outcome`.
    pub open spec fn ended(self, outcome: RestoreOutcomeView) -> RestoreRunView {
        RestoreRunView { phase: RestorePhase::Finished, outcome: Some(outcome), ..self }
    }

    /// The state in which the snapshot at `item` is taken up: what is
    /// handed to the tool is worked out; where the snapshot records no path
    /// that ends with the configured subpath the job ends.
    pub open spec fn taken_up(self) -> RestoreRunView {
        if self.item < self.selected.len() {
            match resolve_argument(
                self.selected[self.item as int],
                self.job.restore_path,
                self.syntax,
            ) {
                Ok(argument) => RestoreRunView {
                    phase: RestorePhase::Restoring,
                    argument,
                    ..self
                },
                Err(e) => self.ended(RestoreOutcomeView::PathNotFound(e)),
            }
        } else {
            self.ended(RestoreOutcomeView::Restored { count: self.selected.len() })
        }
    }

    /// The state after the tool printed `output` as its listing.
    pub open spec fn listed(self, output: Seq<char>) -> RestoreRunView {
        match listing(output) {
            Err(e) => self.ended(RestoreOutcomeView::ListingUnreadable(e)),
            Ok(available) => if available.len() == 0 {
                self.ended(RestoreOutcomeView::NoSnapshots)
            } else {
                let chosen = select(self.job.snapshots, available);
                let noted = RestoreRunView { not_found: chosen.not_found, ..self };
                if chosen.snapshots.len() == 0 {
                    noted.ended(RestoreOutcomeView::NothingSelected)
                } else {
                    (RestoreRunView { selected: chosen.snapshots, item: 0, ..noted }).taken_up()
                }
            },
        }
    }

    /// What the job asks for in this state.
    pub open spec fn requested(self) -> RestoreActionView {
        match self.phase {
            RestorePhase::Probing => RestoreActionView::ProbeRepository { path: self.job.repo },
            RestorePhase::PreparingTarget => RestoreActionView::PrepareTarget {
                path: self.job.target,
            },
            RestorePhase::Listing => RestoreActionView::RunTool {
                args: snapshots_arguments(self.job.repo),
                secret: self.job.passwd,
            },
            RestorePhase::Restoring => RestoreActionView::RunTool {
                args: restore_arguments(self.job.repo, self.argument, self.job.target),
                secret: self.job.passwd,
            },
            RestorePhase::Finished => RestoreActionView::Done,
        }
    }

    /// The state after `event`. An event that the state does not wait for
    /// changes nothing.
    pub open spec fn after(self, event: RestoreEventView) -> RestoreRunView {
        match (self.phase, event) {
            (RestorePhase::Probing, RestoreEventView::Probed(probe)) => {
                if repo_layout(probe) {
                    RestoreRunView { phase: RestorePhase::PreparingTarget, ..self }
                } else {
                    self.ended(RestoreOutcomeView::RepositoryInvalid { path: self.job.repo })
                }
            },
            (RestorePhase::PreparingTarget, RestoreEventView::TargetPrepared(Ok(_))) => {
                RestoreRunView { phase: RestorePhase::Listing, ..self }
            },
            (RestorePhase::PreparingTarget, RestoreEventView::TargetPrepared(Err(detail))) => {
                self.ended(RestoreOutcomeView::TargetNotCreated { path: self.job.target, detail })
            },
            (RestorePhase::Listing, RestoreEventView::ToolReturned(report)) => {
                match interpret(report) {
                    Ok(output) => self.listed(output),
                    Err(e) => self.ended(RestoreOutcomeView::ListingFailed(e)),
                }
            },
            (RestorePhase::Restoring, RestoreEventView::ToolReturned(report)) => {
                match interpret(report) {
                    Ok(_) => (RestoreRunView {
                        item: if self.item < self.selected.len() {
                            self.item + 1
                        } else {
                            self.item
                        },
                        ..self
                    }).taken_up(),
                    Err(error) => self.ended(
                        RestoreOutcomeView::RestoreFailed {
                            snapshot: if self.item < self.selected.len() {
                                self.selected[self.item as int].short_id
                            } else {
                                Seq::empty()
                            },
                            error,
                        },
                    ),
                }
            },
            _ => self,
        }
    }
}

/// The state in which a restore job begins: with a look at its repository.
pub open spec fn restore_begun(job: FinalRestoreConfigView, syntax: PathSyntax) -> RestoreRunView {
    RestoreRunView {
        job,
        syntax,
        phase: RestorePhase::Probing,
        selected: Seq::empty(),
        not_found: Seq::empty(),
        item: 0,
        argument: Seq::empty(),
        outcome: None,
    }
}

impl RestoreRun {
    /// Begins the job.
    pub fn start(job: FinalRestoreConfig, syntax: PathSyntax) -> (r: RestoreRun)
        ensures
            r.deep_view() == restore_begun(job.deep_view(), syntax),
    {
        let selected: Vec<Snapshot> = Vec::new();
        let not_found: Vec<String> = Vec::new();
        assert(selected.deep_view() == Seq::<SnapshotView>::empty());
        assert(not_found.deep_view() == Seq::<Seq<char>>::empty());
        RestoreRun {
            job,
            syntax,
            phase: RestorePhase::Probing,
            selected,
            not_found,
            item: 0,
            argument: String::new(),
            outcome: None,
        }
    }

    fn end(self, outcome: RestoreOutcome) -> (r: RestoreRun)
        ensures
            r.deep_view() == self.deep_view().ended(outcome.deep_view()),
    {
        let mut s = self;
        s.phase = RestorePhase::Finished;
        s.outcome = Some(outcome);
        s
    }

    fn take_up(self) -> (r: RestoreRun)
        ensures
            r.deep_view() == self.deep_view().taken_up(),
    {
        if self.item < self.selected.len() {
            assert(self.selected.deep_view()[self.item as int]
                == self.selected@[self.item as int].deep_view());
            match resolve_restore_argument(
                &self.selected[self.item],
                &self.job.restore_path,
                self.syntax,
            ) {
                Ok(argument) => {
                    let mut s = self;
                    s.phase = RestorePhase::Restoring;
                    s.argument = argument;
                    s
                },
                Err(e) => self.end(RestoreOutcome::PathNotFound(e)),
            }
        } else {
            let count = self.selected.len();
            self.end(RestoreOutcome::Restored { count })
        }
    }

    fn list(self, output: &str) -> (r: RestoreRun)
        ensures
            r.deep_view() == self.deep_view().listed(output@),
    {
        match get_snapshots(output) {
            Err(e) => self.end(RestoreOutcome::ListingUnreadable(e)),
            Ok(available) => {
                if available.len() == 0 {
                    self.end(RestoreOutcome::NoSnapshots)
                } else {
                    let chosen = select_snapshots(self.job.snapshots.as_str(), &available);
                    let mut s = self;
                    s.not_found = chosen.not_found;
                    if chosen.snapshots.len() == 0 {
                        s.end(RestoreOutcome::NothingSelected)
                    } else {
                        s.selected = chosen.snapshots;
                        s.item = 0;
                        s.take_up()
                    }
                }
            },
        }
    }

    /// What the job asks for now.
    pub fn request(&self) -> (r: RestoreAction)
        ensures
            r.deep_view() == self.deep_view().requested(),
    {
        match self.phase {
            RestorePhase::Probing => RestoreAction::ProbeRepository { path: self.job.repo.clone() },
            RestorePhase::PreparingTarget => RestoreAction::PrepareTarget {
                path: self.job.target.clone(),
            },
            RestorePhase::Listing => RestoreAction::RunTool {
                args: snapshots_args(self.job.repo.as_str()),
                secret: self.job.passwd.clone(),
            },
            RestorePhase::Restoring => RestoreAction::RunTool {
                args: restore_args(
                    self.job.repo.as_str(),
                    self.argument.as_str(),
                    self.job.target.as_str(),
                ),
                secret: self.job.passwd.clone(),
            },
            RestorePhase::Finished => RestoreAction::Done,
        }
    }

    /// Takes in what happened outside the program.
    pub fn advance(self, event: RestoreEvent) -> (r: RestoreRun)
        ensures
            r.deep_view() == self.deep_view().after(event.deep_view()),
    {
        match (self.phase, event) {
            (RestorePhase::Probing, RestoreEvent::Probed(probe)) => {
                if is_restic_repo(&probe) {
                    let mut s = self;
                    s.phase = RestorePhase::PreparingTarget;
                    s
                } else {
                    let path = self.job.repo.clone();
                    self.end(RestoreOutcome::RepositoryInvalid { path })
                }
            },
            (RestorePhase::PreparingTarget, RestoreEvent::TargetPrepared(Ok(_))) => {
                let mut s = self;
                s.phase = RestorePhase::Listing;
                s
            },
            (RestorePhase::PreparingTarget, RestoreEvent::TargetPrepared(Err(detail))) => {
                let path = self.job.target.clone();
                self.end(RestoreOutcome::TargetNotCreated { path, detail })
            },
            (RestorePhase::Listing, RestoreEvent::ToolReturned(report)) => {
                match run_restic_command(report) {
                    Ok(output) => self.list(output.as_str()),
                    Err(e) => self.end(RestoreOutcome::ListingFailed(e)),
                }
            },
            (RestorePhase::Restoring, RestoreEvent::ToolReturned(report)) => {
                match run_restic_command(report) {
                    Ok(_) => {
                        let mut s = self;
                        if s.item < s.selected.len() {
                            s.item = s.item + 1;
                        }
                        s.take_up()
                    },
                    Err(error) => {
                        let snapshot = if self.item < self.selected.len() {
                            assert(self.selected.deep_view()[self.item as int]
                                == self.selected@[self.item as int].deep_view());
                            self.selected[self.item].short_id.clone()
                        } else {
                            String::new()
                        };
                        self.end(RestoreOutcome::RestoreFailed { snapshot, error })
                    },
                }
            },
            _ => self,
        }
    }
}

/// What is said of how a restore job ended.
pub open spec fn describe_restore(o: RestoreOutcomeView) -> Seq<char> {
    match o {
        RestoreOutcomeView::Restored { count } => "成功恢复了 "@ + decimal(count) + " 个快照。"@,
        RestoreOutcomeView::RepositoryInvalid { path } => "仓库路径 '"@ + path
            + "' 不是有效的 restic 仓库。"@,
        RestoreOutcomeView::TargetNotCreated { path, detail } => "创建目标目录 '"@ + path
            + "' 失败: "@ + detail,
        RestoreOutcomeView::ListingFailed(e) => "获取快照列表失败: "@ + describe_error(e),
        RestoreOutcomeView::ListingUnreadable(e) => "获取快照列表失败: "@ + describe_parse_error(e),
        RestoreOutcomeView::NoSnapshots => "仓库中未找到任何快照。"@,
        RestoreOutcomeView::NothingSelected => "根据配置未找到匹配的快照进行恢复。"@,
        RestoreOutcomeView::PathNotFound(e) => "快照 "@ + e.snapshot + " 中未找到以 '"@ + e.subpath
            + "' 结尾的备份路径。"@,
        RestoreOutcomeView::RestoreFailed { snapshot, error } => "恢复快照 "@ + snapshot
            + " 失败: "@ + describe_error(error),
    }
}

/// What is said of an id prefix that no snapshot matched.
pub open spec fn not_found_note(prefix: Seq<char>) -> Seq<char> {
    "在仓库中未找到快照 ID: "@ + prefix
}

/// The entry that the report holds for a restore job: the outcome, and a
/// note for each id prefix that no snapshot matched.
pub open spec fn restore_entry(
    name: Seq<char>,
    outcome: Option<RestoreOutcomeView>,
    not_found: Seq<Seq<char>>,
) -> SummaryEntryView {
    SummaryEntryView {
        name,
        success: outcome matches Some(RestoreOutcomeView::Restored { .. }),
        message: match outcome {
            Some(o) => describe_restore(o),
            None => Seq::empty(),
        },
        notes: Seq::new(not_found.len(), |i: int| not_found_note(not_found[i])),
    }
}

impl RestoreOutcome {
    /// Whether the job did all that it was asked to do.
    pub fn is_success(&self) -> (r: bool)
        ensures
            r == (self.deep_view() is Restored),
    {
        match self {
            RestoreOutcome::Restored { .. } => true,
            _ => false,
        }
    }

    /// What is said of this outcome.
    pub fn describe(&self) -> (r: String)
        ensures
            r@ == describe_restore(self.deep_view()),
    {
        match self {
            RestoreOutcome::Restored { count } => {
                let mut r = String::from_str("成功恢复了 ");
                r.append(decimal_text(*count as u64).as_str());
                r.append(" 个快照。");
                r
            },
            RestoreOutcome::RepositoryInvalid { path } => {
                let mut r = String::from_str("仓库路径 '");
                r.append(path.as_str());
                r.append("' 不是有效的 restic 仓库。");
                r
            },
            RestoreOutcome::TargetNotCreated { path, detail } => {
                let mut r = String::from_str("创建目标目录 '");
                r.append(path.as_str());
                r.append("' 失败: ");
                r.append(detail.as_str());
                r
            },
            RestoreOutcome::ListingFailed(e) => {
                let mut r = String::from_str("获取快照列表失败: ");
                r.append(e.describe().as_str());
                r
            },
            RestoreOutcome::ListingUnreadable(e) => {
                let mut r = String::from_str("获取快照列表失败: ");
                r.append(e.describe().as_str());
                r
            },
            RestoreOutcome::NoSnapshots => String::from_str("仓库中未找到任何快照。"),
            RestoreOutcome::NothingSelected => String::from_str("根据配置未找到匹配的快照进行恢复。"),
            RestoreOutcome::PathNotFound(e) => {
                let mut r = String::from_str("快照 ");
                r.append(e.snapshot.as_str());
                r.append(" 中未找到以 '");
                r.append(e.subpath.as_str());
                r.append("' 结尾的备份路径。");
                r
            },
            RestoreOutcome::RestoreFailed { snapshot, error } => {
                let mut r = String::from_str("恢复快照 ");
                r.append(snapshot.as_str());
                r.append(" 失败: ");
                r.append(error.describe().as_str());
                r
            },
        }
    }
}

impl RestoreRun {
    /// The entry that the report holds for this job.
    pub fn entry(&self) -> (r: SummaryEntry)
        ensures
            r.deep_view() == restore_entry(
                self.deep_view().job.job_name,
                self.deep_view().outcome,
                self.deep_view().not_found,
            ),
    {
        let ghost missing = self.not_found.deep_view();
        let ghost all = Seq::new(missing.len(), |i: int| not_found_note(missing[i]));
        let mut notes: Vec<String> = Vec::new();
        let mut i: usize = 0;
        assert(notes.deep_view() == all.take(0));
        while i < self.not_found.len()
            invariant
                i <= self.not_found.len(),
                missing == self.not_found.deep_view(),
                all == Seq::new(missing.len(), |i: int| not_found_note(missing[i])),
                notes.deep_view() == all.take(i as int),
            decreases self.not_found.len() - i,
        {
            let mut note = String::from_str("在仓库中未找到快照 ID: ");
            note.append(self.not_found[i].as_str());
            let ghost before = notes;
            notes.push(note);
            proof {
                lemma_deep_view_push(before, notes, note);
                assert(missing[i as int] == self.not_found@[i as int]@);
                assert(all.take(i + 1) == all.take(i as int).push(all[i as int]));
            }
            i = i + 1;
        }
        assert(all.take(self.not_found.len() as int) == all);
        match &self.outcome {
            Some(o) => SummaryEntry {
                name: self.job.job_name.clone(),
                success: o.is_success(),
                message: o.describe(),
                notes,
            },
            None => SummaryEntry {
                name: self.job.job_name.clone(),
                success: false,
                message: String::new(),
                notes,
            },
        }
    }
}

/// What holds of every state that a restore job passes through.
pub open spec fn restore_consistent(s: RestoreRunView) -> bool {
    &&& s.item <= s.selected.len()
    &&& s.outcome is Some <==> s.phase is Finished
    &&& s.phase is Restoring ==> s.item < s.selected.len() && resolve_argument(
        s.selected[s.item as int],
        s.job.restore_path,
        s.syntax,
    ) == Ok::<Seq<char>, RestorePathNotFoundView>(s.argument)
    &&& s.phase is Probing || s.phase is PreparingTarget || s.phase is Listing
        ==> s.selected.len() == 0 && s.not_found.len() == 0
    &&& s.outcome matches Some(RestoreOutcomeView::Restored { count }) ==> count
        == s.selected.len() && s.item == s.selected.len() && count > 0
}

/// A restore job begins in a consistent state, and a step leads from a
/// consistent state to a consistent state without changing the job.
pub proof fn lemma_restore_step_consistent(s: RestoreRunView, event: RestoreEventView)
    requires
        restore_consistent(s),
    ensures
        restore_consistent(s.after(event)),
        s.after(event).job == s.job,
        s.after(event).syntax == s.syntax,
        restore_consistent(restore_begun(s.job, s.syntax)),
{
}

/// The secret reaches the tool on its standard input only: what the job
/// asks for does not depend on the secret, but for the secret that is
/// handed over beside the arguments.
pub proof fn lemma_restore_secret_kept_out_of_arguments(s: RestoreRunView, other: Seq<char>)
    ensures
        ({
            let t = RestoreRunView { job: FinalRestoreConfigView { passwd: other, ..s.job }, ..s };
            match s.requested() {
                RestoreActionView::RunTool { args, secret } => secret == s.job.passwd
                    && t.requested() == (RestoreActionView::RunTool { args, secret: other }),
                asked => t.requested() == asked,
            }
        }),
{
}

/// Whether `event` is what the phase waits for.
pub open spec fn restore_awaited(phase: RestorePhase, event: RestoreEventView) -> bool {
    match phase {
        RestorePhase::Probing => event is Probed,
        RestorePhase::PreparingTarget => event is TargetPrepared,
        RestorePhase::Listing | RestorePhase::Restoring => event is ToolReturned,
        RestorePhase::Finished => false,
    }
}

/// How far a phase is from the end of the job.
pub open spec fn phase_rank(phase: RestorePhase) -> nat {
    match phase {
        RestorePhase::Probing => 4,
        RestorePhase::PreparingTarget => 3,
        RestorePhase::Listing => 2,
        RestorePhase::Restoring => 1,
        RestorePhase::Finished => 0,
    }
}

/// Every restore job ends: each answer that the job waits for moves it to
/// a later phase, or to the next of its selected snapshots.
pub proof fn lemma_restore_progress(s: RestoreRunView, event: RestoreEventView)
    requires
        restore_consistent(s),
        restore_awaited(s.phase, event),
    ensures
        phase_rank(s.after(event).phase) < phase_rank(s.phase) || (s.after(event).phase == s.phase
            && s.after(event).selected == s.selected && s.after(event).item == s.item + 1),
        s.requested() is Done <==> s.phase is Finished,
{
}

/// A repository that is not there or not in order fails its job before
/// anything is done for it: neither the target is prepared nor the tool
/// run, and the outcome names the repository path.
pub proof fn lemma_invalid_repository_ends_restore(
    job: FinalRestoreConfigView,
    syntax: PathSyntax,
    probe: RepoProbeView,
)
    requires
        !repo_layout(probe),
    ensures
        ({
            let begun = restore_begun(job, syntax);
            let next = begun.after(RestoreEventView::Probed(probe));
            &&& begun.requested() == RestoreActionView::ProbeRepository { path: job.repo }
            &&& next.requested() is Done
            &&& next.outcome == Some(RestoreOutcomeView::RepositoryInvalid { path: job.repo })
        }),
{
}

/// A snapshot that cannot be restored ends the job: whether the tool
/// fails on it or it records no path that ends with the configured
/// subpath, the snapshots after it are not taken up.
pub proof fn lemma_failure_ends_restore(s: RestoreRunView, report: ProcessReportView)
    requires
        restore_consistent(s),
        s.phase is Restoring,
    ensures
        ({
            let next = s.after(RestoreEventView::ToolReturned(report));
            &&& interpret(report) matches Err(error) ==> next.phase is Finished && next.outcome
                == Some(
                RestoreOutcomeView::RestoreFailed {
                    snapshot: s.selected[s.item as int].short_id,
                    error,
                },
            )
            &&& interpret(report) is Ok && s.item + 1 < s.selected.len() ==> (match resolve_argument(
                s.selected[s.item as int + 1],
                s.job.restore_path,
                s.syntax,
            ) {
                Ok(argument) => next.phase is Restoring && next.argument == argument,
                Err(e) => next.phase is Finished && next.outcome == Some(
                    RestoreOutcomeView::PathNotFound(e),
                ),
            })
            &&& interpret(report) is Ok && s.item + 1 == s.selected.len() ==> next.outcome == Some(
                RestoreOutcomeView::Restored { count: s.selected.len() },
            )
        }),
{
}

/// A batch of restore jobs under way. The jobs run one after another; how
/// one ends has no bearing on the next.
#[derive(Debug, Clone, PartialEq, Eq)]
pub struct BatchRestore {
    /// The jobs, in the order in which they run.
    pub jobs: Vec<FinalRestoreConfig>,
    /// How paths are written where the backups were taken.
    pub syntax: PathSyntax,
    /// The index of the job that runs; the number of jobs once all have ended.
    pub index: usize,
    /// The job that runs.
    pub current: Option<RestoreRun>,
    /// One entry for each job that has ended.
    pub entries: Vec<SummaryEntry>,
}

/// The model of a [`BatchRestore`].
pub struct BatchRestoreView {
    pub jobs: Seq<FinalRestoreConfigView>,
    pub syntax: PathSyntax,
    pub index: nat,
    pub current: Option<RestoreRunView>,
    pub entries: Seq<SummaryEntryView>,
}

impl DeepView for BatchRestore {
    type V = BatchRestoreView;

    open spec fn deep_view(&self) -> BatchRestoreView {
        BatchRestoreView {
            jobs: self.jobs.deep_view(),
            syntax: self.syntax,
            index: self.index as nat,
            current: self.current.deep_view(),
            entries: self.entries.deep_view(),
        }
    }
}

impl BatchRestoreView {
    /// The state in which the job at `index` begins; none past the last job.
    pub open spec fn opening(self, index: nat) -> Option<RestoreRunView> {
        if index < self.jobs.len() {
            Some(restore_begun(self.jobs[index as int], self.syntax))
        } else {
            None
        }
    }

    /// The batch once the job that has ended is entered in the report and
    /// the next job is taken up.
    pub open spec fn settled(self) -> BatchRestoreView {
        match self.current {
            Some(run) => if run.phase is Finished && self.index < self.jobs.len() {
                BatchRestoreView {
                    index: self.index + 1,
                    current: self.opening(self.index + 1),
                    entries: self.entries.push(
                        restore_entry(run.job.job_name, run.outcome, run.not_found),
                    ),
                    ..self
                }
            } else {
                self
            },
            None => self,
        }
    }

    /// The batch after `event`, which goes to the job that runs.
    pub open spec fn after(self, event: RestoreEventView) -> BatchRestoreView {
        match self.current {
            Some(run) => (BatchRestoreView { current: Some(run.after(event)), ..self }).settled(),
            None => self,
        }
    }

    /// What the batch asks for: what its running job asks for, or nothing
    /// once every job has ended.
    pub open spec fn requested(self) -> RestoreActionView {
        match self.current {
            Some(run) => run.requested(),
            None => RestoreActionView::Done,
        }
    }
}

/// The state in which a batch of restore jobs begins.
pub open spec fn restores_begun(jobs: Seq<FinalRestoreConfigView>, syntax: PathSyntax) -> BatchRestoreView {
    let blank = BatchRestoreView { jobs, syntax, index: 0, current: None, entries: Seq::empty() };
    BatchRestoreView { current: blank.opening(0), ..blank }
}

impl BatchRestore {
    fn open(&self, index: usize) -> (r: Option<RestoreRun>)
        ensures
            r.deep_view() == self.deep_view().opening(index as nat),
    {
        if index < self.jobs.len() {
            assert(self.jobs.deep_view()[index as int] == self.jobs@[index as int].deep_view());
            Some(RestoreRun::start(self.jobs[index].duplicate(), self.syntax))
        } else {
            None
        }
    }

    fn settle(self) -> (r: BatchRestore)
        ensures
            r.deep_view() == self.deep_view().settled(),
    {
        let finished = match &self.current {
            Some(run) => run.phase == RestorePhase::Finished && self.index < self.jobs.len(),
            None => false,
        };
        if !finished {
            return self;
        }
        let next = self.open(self.index + 1);
        let mut s = self;
        let run = s.current.unwrap();
        let entry = run.entry();
        let ghost before = s.entries;
        s.entries.push(entry);
        proof {
            lemma_deep_view_push(before, s.entries, entry);
        }
        s.index = s.index + 1;
        s.current = next;
        s
    }

    /// What the batch asks for now.
    pub fn request(&self) -> (r: RestoreAction)
        ensures
            r.deep_view() == self.deep_view().requested(),
    {
        match &self.current {
            Some(run) => run.request(),
            None => RestoreAction::Done,
        }
    }

    /// Takes in what happened outside the program.
    pub fn advance(self, event: RestoreEvent) -> (r: BatchRestore)
        ensures
            r.deep_view() == self.deep_view().after(event.deep_view()),
    {
        if self.current.is_none() {
            return self;
        }
        let mut s = self;
        let run = s.current.unwrap();
        s.current = Some(run.advance(event));
        s.settle()
    }
}

/// Begins the batch of the jobs of a restore document.
pub fn handle_batch_restore(jobs: Vec<FinalRestoreConfig>, syntax: PathSyntax) -> (r: BatchRestore)
    ensures
        r.deep_view() == restores_begun(jobs.deep_view(), syntax),
{
    let entries: Vec<SummaryEntry> = Vec::new();
    assert(entries.deep_view() == Seq::<SummaryEntryView>::empty());
    let blank = BatchRestore { jobs, syntax, index: 0, current: None, entries };
    let first = blank.open(0);
    let mut s = blank;
    s.current = first;
    s
}

/// What holds of every state that a batch of restore jobs passes through:
/// each job that has ended has its one entry, in the order of the jobs,
/// and the job that runs is the next one.
pub open spec fn restores_consistent(s: BatchRestoreView) -> bool {
    &&& s.index <= s.jobs.len()
    &&& s.entries.len() == s.index
    &&& forall|i: int| 0 <= i < s.index ==> (#[trigger] s.entries[i]).name == s.jobs[i].job_name
    &&& s.current is None <==> s.index == s.jobs.len()
    &&& s.current matches Some(run) ==> {
        &&& restore_consistent(run)
        &&& run.job == s.jobs[s.index as int]
        &&& run.syntax == s.syntax
        &&& !(run.phase is Finished)
    }
}

/// A step leads a batch from a consistent state to a consistent state.
/// Where the step is what the running job waits for, either the job ends
/// and the next one is taken up, whatever the outcome, or the job comes
/// nearer to its end. The entries of the jobs that have ended stay.
pub proof fn lemma_restores_step(s: BatchRestoreView, event: RestoreEventView)
    requires
        restores_consistent(s),
    ensures
        restores_consistent(s.after(event)),
        s.after(event).jobs == s.jobs,
        s.after(event).syntax == s.syntax,
        s.after(event).index == s.index || s.after(event).index == s.index + 1,
        forall|i: int| 0 <= i < s.index ==> s.after(event).entries[i] == s.entries[i],
        s.current is Some && restore_awaited(s.current->0.phase, event) ==> s.after(event).index
            == s.index + 1 || (s.after(event).current is Some && (phase_rank(
            s.after(event).current->0.phase,
        ) < phase_rank(s.current->0.phase) || s.after(event).current->0.item == s.current->0.item
            + 1)),
{
    match s.current {
        Some(run) => {
            lemma_restore_step_consistent(run, event);
            if restore_awaited(run.phase, event) {
                lemma_restore_progress(run, event);
            }
            let moved = BatchRestoreView { current: Some(run.after(event)), ..s };
            let next = moved.settled();
            if run.after(event).phase is Finished {
                lemma_restore_step_consistent(
                    restore_begun(s.jobs[s.index as int], s.syntax),
                    event,
                );
                assert forall|i: int| 0 <= i < next.index implies (#[trigger] next.entries[i]).name
                    == next.jobs[i].job_name by {
                    if i < s.index {
                        assert(next.entries[i] == s.entries[i]);
                    }
                }
            }
        },
        None => {},
    }
}

/// A job whose repository is not in order fails alone: the batch enters
/// its failure under its name, without a run of the tool, and takes up
/// the job after it as if nothing had happened.
pub proof fn lemma_invalid_repository_fails_alone(s: BatchRestoreView, probe: RepoProbeView)
    requires
        restores_consistent(s),
        s.current matches Some(run) && run.phase is Probing,
        !repo_layout(probe),
    ensures
        ({
            let next = s.after(RestoreEventView::Probed(probe));
            let job = s.jobs[s.index as int];
            &&& next.index == s.index + 1
            &&& next.entries == s.entries.push(
                restore_entry(
                    job.job_name,
                    Some(RestoreOutcomeView::RepositoryInvalid { path: job.repo }),
                    Seq::empty(),
                ),
            )
            &&& !next.entries.last().success
            &&& next.current == s.opening(s.index + 1)
            &&& s.index + 1 < s.jobs.len() ==> next.requested() == (
            RestoreActionView::ProbeRepository { path: s.jobs[s.index as int + 1].repo })
            &&& s.index + 1 == s.jobs.len() ==> next.requested() is Done
        }),
{
    lemma_restores_step(s, RestoreEventView::Probed(probe));
    assert(s.current->0.not_found == Seq::<Seq<char>>::empty());
}

/// The state that a batch of restore jobs is in after `events`, one after another.
pub open spec fn restores_after(
    jobs: Seq<FinalRestoreConfigView>,
    syntax: PathSyntax,
    events: Seq<RestoreEventView>,
) -> BatchRestoreView
    decreases events.len(),
{
    if events.len() == 0 {
        restores_begun(jobs, syntax)
    } else {
        restores_after(jobs, syntax, events.drop_last()).after(events.last())
    }
}

/// Whatever the jobs and whatever happens outside the program: no job
/// stops the batch. Once the batch asks for nothing more, the report holds
/// exactly one entry for each job, under the job's name, in the order of
/// the jobs.
pub proof fn lemma_one_entry_for_each_restore(
    jobs: Seq<FinalRestoreConfigView>,
    syntax: PathSyntax,
    events: Seq<RestoreEventView>,
)
    ensures
        ({
            let s = restores_after(jobs, syntax, events);
            &&& restores_consistent(s)
            &&& s.jobs == jobs
            &&& s.requested() is Done ==> {
                &&& s.entries.len() == jobs.len()
                &&& forall|i: int|
                    0 <= i < jobs.len() ==> (#[trigger] s.entries[i]).name == jobs[i].job_name
            }
        }),
    decreases events.len(),
{
    if events.len() == 0 {
        if jobs.len() > 0 {
            lemma_restore_step_consistent(
                restore_begun(jobs[0], syntax),
                RestoreEventView::TargetPrepared(Ok(())),
            );
        }
    } else {
        lemma_one_entry_for_each_restore(jobs, syntax, events.drop_last());
        lemma_restores_step(restores_after(jobs, syntax, events.drop_last()), events.last());
    }
}

} // verus!
