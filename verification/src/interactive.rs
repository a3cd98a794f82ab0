//! Restoring one snapshot by question and answer: the repository, the
//! secret, the snapshot and the target are asked for in turn. The questions
//! are put and the tool is run outside the program; this module decides
//! what comes next.

use crate::restore::{
    describe_parse_error, get_snapshots, listing, Snapshot, SnapshotParseError,
    SnapshotParseErrorView, SnapshotView,
};
use crate::text::{
    chars_of, find_char_from, find_from, join, join_texts, lemma_deep_view_push, text_of,
    text_of_range, trim, trim_chars,
};
use crate::utils::{
    describe_error, interpret, is_restic_repo, repo_layout, restore_args, restore_arguments,
    run_restic_command, snapshots_args, snapshots_arguments, ProcessReport, ProcessReportView,
    RepoProbe, RepoProbeView, ToolError, ToolErrorView,
};
use vstd::prelude::*;
use vstd::string::*;

verus! {

/// The day of a time stamp: what stands before its first `T`.
pub open spec fn day_of(time: Seq<char>) -> Seq<char> {
    time.subrange(0, find_from(time, 'T', 0))
}

/// The line that stands for a snapshot in a menu: its id, its day in
/// round brackets, and its paths with commas between them.
pub open spec fn snapshot_label(s: SnapshotView) -> Seq<char> {
    s.short_id + "  ("@ + day_of(s.time) + ")  "@ + join(s.paths, ", "@)
}

/// The lines that stand for the snapshots of a listing.
pub open spec fn snapshot_labels(snaps: Seq<SnapshotView>) -> Seq<Seq<char>> {
    Seq::new(snaps.len(), |i: int| snapshot_label(snaps[i]))
}

impl Snapshot {
    /// The line that stands for this snapshot in a menu.
    pub fn label(&self) -> (r: String)
        ensures
            r@ == snapshot_label(self.deep_view()),
    {
        let time = chars_of(self.time.as_str());
        let end = find_char_from(&time, 'T', 0);
        let mut r = self.short_id.clone();
        r.append("  (");
        r.append(text_of_range(&time, 0, end).as_str());
        r.append(")  ");
        r.append(join_texts(&self.paths, ", ").as_str());
        r
    }
}

/// The lines that stand for the snapshots of a listing.
pub fn label_snapshots(snaps: &Vec<Snapshot>) -> (r: Vec<String>)
    ensures
        r.deep_view() == snapshot_labels(snaps.deep_view()),
{
    let ghost all = snapshot_labels(snaps.deep_view());
    let mut out: Vec<String> = Vec::new();
    let mut i: usize = 0;
    assert(out.deep_view() == all.take(0));
    while i < snaps.len()
        invariant
            i <= snaps.len(),
            all == snapshot_labels(snaps.deep_view()),
            out.deep_view() == all.take(i as int),
        decreases snaps.len() - i,
    {
        let l = snaps[i].label();
        let ghost before = out;
        out.push(l);
        proof {
            lemma_deep_view_push(before, out, l);
            assert(snaps.deep_view()[i as int] == snaps@[i as int].deep_view());
            assert(all.take(i + 1) == all.take(i as int).push(all[i as int]));
        }
        i = i + 1;
    }
    assert(all.take(snaps.len() as int) == all);
    out
}

/// What the dialogue waits for.
#[derive(Clone, Copy, Debug, PartialEq, Eq, Structural)]
pub enum DialoguePhase {
    /// The repository path is being asked for.
    AskingRepository,
    /// The repository path is being looked at.
    Probing,
    /// The secret is being asked for.
    AskingPassword,
    /// The tool is listing the snapshots.
    Listing,
    /// A snapshot is being chosen.
    Choosing,
    /// The target directory is being asked for.
    AskingTarget,
    /// The tool is restoring the snapshot.
    Restoring,
    /// Nothing: the outcome is known.
    Finished,
}

/// How the dialogue ended.
#[derive(Debug, Clone, PartialEq, Eq)]
pub enum DialogueOutcome {
    /// The snapshot was restored; `output` is what the tool printed.
    Restored { output: String },
    /// No snapshot was chosen.
    Cancelled,
    /// What is at the path given is no repository.
    NotARepository,
    /// The tool could not list the snapshots.
    ListingFailed(ToolError),
    /// The tool's listing could not be read.
    ListingUnreadable(SnapshotParseError),
    /// The repository holds no snapshot.
    NoSnapshots,
    /// The tool could not restore the snapshot.
    RestoreFailed(ToolError),
}

/// The model of a [`DialogueOutcome`].
pub enum DialogueOutcomeView {
    Restored { output: Seq<char> },
    Cancelled,
    NotARepository,
    ListingFailed(ToolErrorView),
    ListingUnreadable(SnapshotParseErrorView),
    NoSnapshots,
    RestoreFailed(ToolErrorView),
}

impl DeepView for DialogueOutcome {
    type V = DialogueOutcomeView;

    open spec fn deep_view(&self) -> DialogueOutcomeView {
        match self {
            DialogueOutcome::Restored { output } => DialogueOutcomeView::Restored {
                output: output@,
            },
            DialogueOutcome::Cancelled => DialogueOutcomeView::Cancelled,
            DialogueOutcome::NotARepository => DialogueOutcomeView::NotARepository,
            DialogueOutcome::ListingFailed(e) => DialogueOutcomeView::ListingFailed(e.deep_view()),
            DialogueOutcome::ListingUnreadable(e) => DialogueOutcomeView::ListingUnreadable(
                e.deep_view(),
            ),
            DialogueOutcome::NoSnapshots => DialogueOutcomeView::NoSnapshots,
            DialogueOutcome::RestoreFailed(e) => DialogueOutcomeView::RestoreFailed(e.deep_view()),
        }
    }
}

/// What happened outside the program.
#[derive(Debug, Clone, PartialEq, Eq)]
pub enum DialogueEvent {
    /// The question was answered.
    Answered(String),
    /// The repository path was looked at.
    Probed(RepoProbe),
    /// The tool was run.
    ToolReturned(ProcessReport),
    /// The line with this index was chosen, or none.
    Chosen(Option<usize>),
}

/// The model of a [`DialogueEvent`].
pub enum DialogueEventView {
    Answered(Seq<char>),
    Probed(RepoProbeView),
    ToolReturned(ProcessReportView),
    Chosen(Option<usize>),
}

impl DeepView for DialogueEvent {
    type V = DialogueEventView;

    open spec fn deep_view(&self) -> DialogueEventView {
        match self {
            DialogueEvent::Answered(s) => DialogueEventView::Answered(s@),
            DialogueEvent::Probed(p) => DialogueEventView::Probed(p.deep_view()),
            DialogueEvent::ToolReturned(r) => DialogueEventView::ToolReturned(r.deep_view()),
            DialogueEvent::Chosen(c) => DialogueEventView::Chosen(*c),
        }
    }
}

/// What is to be done outside the program.
#[derive(Debug, Clone, PartialEq, Eq)]
pub enum DialogueAction {
    /// Ask for the path of the repository.
    AskRepository,
    /// Look at the repository path.
    ProbeRepository { path: String },
    /// Ask for the secret of the repository.
    AskPassword,
    /// Run the tool with these arguments and hand it the secret.
    RunTool { args: Vec<String>, secret: String },
    /// Let one of these lines be chosen.
    Choose { labels: Vec<String> },
    /// Ask for the directory to restore into.
    AskTarget,
    /// Nothing: the dialogue has ended.
    Done,
}

/// The model of a [`DialogueAction`].
pub enum DialogueActionView {
    AskRepository,
    ProbeRepository { path: Seq<char> },
    AskPassword,
    RunTool { args: Seq<Seq<char>>, secret: Seq<char> },
    Choose { labels: Seq<Seq<char>> },
    AskTarget,
    Done,
}

impl DeepView for DialogueAction {
    type V = DialogueActionView;

    open spec fn deep_view(&self) -> DialogueActionView {
        match self {
            DialogueAction::AskRepository => DialogueActionView::AskRepository,
            DialogueAction::ProbeRepository { path } => DialogueActionView::ProbeRepository {
                path: path@,
            },
            DialogueAction::AskPassword => DialogueActionView::AskPassword,
            DialogueAction::RunTool { args, secret } => DialogueActionView::RunTool {
                args: args.deep_view(),
                secret: secret@,
            },
            DialogueAction::Choose { labels } => DialogueActionView::Choose {
                labels: labels.deep_view(),
            },
            DialogueAction::AskTarget => DialogueActionView::AskTarget,
            DialogueAction::Done => DialogueActionView::Done,
        }
    }
}

/// A restore by question and answer under way.
#[derive(Debug, Clone, PartialEq, Eq)]
pub struct RestoreDialogue {
    /// What the dialogue waits for.
    pub phase: DialoguePhase,
    /// The repository path, once given.
    pub repo: String,
    /// The secret, once given.
    pub password: String,
    /// The snapshots of the repository, newest first, once listed.
    pub snapshots: Vec<Snapshot>,
    /// The index of the snapshot that was chosen.
    pub chosen: usize,
    /// The directory to restore into, once given.
    pub target: String,
    /// How the dialogue ended, once that is known.
    pub outcome: Option<DialogueOutcome>,
}

/// The model of a [`RestoreDialogue`].
pub struct RestoreDialogueView {
    pub phase: DialoguePhase,
    pub repo: Seq<char>,
    pub password: Seq<char>,
    pub snapshots: Seq<SnapshotView>,
    pub chosen: nat,
    pub target: Seq<char>,
    pub outcome: Option<DialogueOutcomeView>,
}

impl DeepView for RestoreDialogue {
    type V = RestoreDialogueView;

    open spec fn deep_view(&self) -> RestoreDialogueView {
        RestoreDialogueView {
            phase: self.phase,
            repo: self.repo@,
            password: self.password@,
            snapshots: self.snapshots.deep_view(),
            chosen: self.chosen as nat,
            target: self.target@,
            outcome: self.outcome.deep_view(),
        }
    }
}

impl RestoreDialogueView {
    /// The dialogue ended with `outcome`.
    pub open spec fn ended(self, outcome: DialogueOutcomeView) -> RestoreDialogueView {
        RestoreDialogueView { phase: DialoguePhase::Finished, outcome: Some(outcome), ..self }
    }

    /// The id of the snapshot that was chosen.
    pub open spec fn chosen_id(self) -> Seq<char> {
        if self.chosen < self.snapshots.len() {
            self.snapshots[self.chosen as int].short_id
        } else {
            Seq::empty()
        }
    }

    /// What the dialogue asks for in this state.
    pub open spec fn requested(self) -> DialogueActionView {
        match self.phase {
            DialoguePhase::AskingRepository => DialogueActionView::AskRepository,
            DialoguePhase::Probing => DialogueActionView::ProbeRepository { path: self.repo },
            DialoguePhase::AskingPassword => DialogueActionView::AskPassword,
            DialoguePhase::Listing => DialogueActionView::RunTool {
                args: snapshots_arguments(self.repo),
                secret: self.password,
            },
            DialoguePhase::Choosing => DialogueActionView::Choose {
                labels: snapshot_labels(self.snapshots),
            },
            DialoguePhase::AskingTarget => DialogueActionView::AskTarget,
            DialoguePhase::Restoring => DialogueActionView::RunTool {
                args: restore_arguments(self.repo, self.chosen_id(), self.target),
                secret: self.password,
            },
            DialoguePhase::Finished => DialogueActionView::Done,
        }
    }

    /// The state after `event`. An event that the state does not wait
    /// for, and the choice of a line that is not there, change nothing.
    pub open spec fn after(self, event: DialogueEventView) -> RestoreDialogueView {
        match (self.phase, event) {
            (DialoguePhase::AskingRepository, DialogueEventView::Answered(answer)) => {
                RestoreDialogueView { phase: DialoguePhase::Probing, repo: trim(answer), ..self }
            },
            (DialoguePhase::Probing, DialogueEventView::Probed(probe)) => {
                if repo_layout(probe) {
                    RestoreDialogueView { phase: DialoguePhase::AskingPassword, ..self }
                } else {
                    self.ended(DialogueOutcomeView::NotARepository)
                }
            },
            (DialoguePhase::AskingPassword, DialogueEventView::Answered(answer)) => {
                RestoreDialogueView { phase: DialoguePhase::Listing, password: answer, ..self }
            },
            (DialoguePhase::Listing, DialogueEventView::ToolReturned(report)) => {
                match interpret(report) {
                    Err(e) => self.ended(DialogueOutcomeView::ListingFailed(e)),
                    Ok(output) => match listing(output) {
                        Err(e) => self.ended(DialogueOutcomeView::ListingUnreadable(e)),
                        Ok(snapshots) => if snapshots.len() == 0 {
                            self.ended(DialogueOutcomeView::NoSnapshots)
                        } else {
                            RestoreDialogueView {
                                phase: DialoguePhase::Choosing,
                                snapshots,
                                ..self
                            }
                        },
                    },
                }
            },
            (DialoguePhase::Choosing, DialogueEventView::Chosen(None)) => {
                self.ended(DialogueOutcomeView::Cancelled)
            },
            (DialoguePhase::Choosing, DialogueEventView::Chosen(Some(index))) => {
                if index < self.snapshots.len() {
                    RestoreDialogueView {
                        phase: DialoguePhase::AskingTarget,
                        chosen: index as nat,
                        ..self
                    }
                } else {
                    self
                }
            },
            (DialoguePhase::AskingTarget, DialogueEventView::Answered(answer)) => {
                RestoreDialogueView { phase: DialoguePhase::Restoring, target: answer, ..self }
            },
            (DialoguePhase::Restoring, DialogueEventView::ToolReturned(report)) => {
                match interpret(report) {
                    Ok(output) => self.ended(DialogueOutcomeView::Restored { output }),
                    Err(e) => self.ended(DialogueOutcomeView::RestoreFailed(e)),
                }
            },
            _ => self,
        }
    }
}

/// The state in which the dialogue begins.
pub open spec fn dialogue_begun() -> RestoreDialogueView {
    RestoreDialogueView {
        phase: DialoguePhase::AskingRepository,
        repo: Seq::empty(),
        password: Seq::empty(),
        snapshots: Seq::empty(),
        chosen: 0,
        target: Seq::empty(),
        outcome: None,
    }
}

/// Begins a restore by question and answer.
pub fn handle_restore() -> (r: RestoreDialogue)
    ensures
        r.deep_view() == dialogue_begun(),
{
    let snapshots: Vec<Snapshot> = Vec::new();
    assert(snapshots.deep_view() == Seq::<SnapshotView>::empty());
    RestoreDialogue {
        phase: DialoguePhase::AskingRepository,
        repo: String::new(),
        password: String::new(),
        snapshots,
        chosen: 0,
        target: String::new(),
        outcome: None,
    }
}

impl RestoreDialogue {
    fn end(self, outcome: DialogueOutcome) -> (r: RestoreDialogue)
        ensures
            r.deep_view() == self.deep_view().ended(outcome.deep_view()),
    {
        let mut s = self;
        s.phase = DialoguePhase::Finished;
        s.outcome = Some(outcome);
        s
    }

    /// What the dialogue asks for now.
    pub fn request(&self) -> (r: DialogueAction)
        ensures
            r.deep_view() == self.deep_view().requested(),
    {
        match self.phase {
            DialoguePhase::AskingRepository => DialogueAction::AskRepository,
            DialoguePhase::Probing => DialogueAction::ProbeRepository { path: self.repo.clone() },
            DialoguePhase::AskingPassword => DialogueAction::AskPassword,
            DialoguePhase::Listing => DialogueAction::RunTool {
                args: snapshots_args(self.repo.as_str()),
                secret: self.password.clone(),
            },
            DialoguePhase::Choosing => DialogueAction::Choose {
                labels: label_snapshots(&self.snapshots),
            },
            DialoguePhase::AskingTarget => DialogueAction::AskTarget,
            DialoguePhase::Restoring => {
                let id = if self.chosen < self.snapshots.len() {
                    assert(self.snapshots.deep_view()[self.chosen as int]
                        == self.snapshots@[self.chosen as int].deep_view());
                    self.snapshots[self.chosen].short_id.clone()
                } else {
                    String::new()
                };
                DialogueAction::RunTool {
                    args: restore_args(self.repo.as_str(), id.as_str(), self.target.as_str()),
                    secret: self.password.clone(),
                }
            },
            DialoguePhase::Finished => DialogueAction::Done,
        }
    }

    /// Takes in what happened outside the program.
    pub fn advance(self, event: DialogueEvent) -> (r: RestoreDialogue)
        ensures
            r.deep_view() == self.deep_view().after(event.deep_view()),
    {
        match (self.phase, event) {
            (DialoguePhase::AskingRepository, DialogueEvent::Answered(answer)) => {
                let mut s = self;
                s.phase = DialoguePhase::Probing;
                s.repo = text_of(&trim_chars(&chars_of(answer.as_str())));
                s
            },
            (DialoguePhase::Probing, DialogueEvent::Probed(probe)) => {
                if is_restic_repo(&probe) {
                    let mut s = self;
                    s.phase = DialoguePhase::AskingPassword;
                    s
                } else {
                    self.end(DialogueOutcome::NotARepository)
                }
            },
            (DialoguePhase::AskingPassword, DialogueEvent::Answered(answer)) => {
                let mut s = self;
                s.phase = DialoguePhase::Listing;
                s.password = answer;
                s
            },
            (DialoguePhase::Listing, DialogueEvent::ToolReturned(report)) => {
                match run_restic_command(report) {
                    Err(e) => self.end(DialogueOutcome::ListingFailed(e)),
                    Ok(output) => match get_snapshots(output.as_str()) {
                        Err(e) => self.end(DialogueOutcome::ListingUnreadable(e)),
                        Ok(snapshots) => {
                            if snapshots.len() == 0 {
                                self.end(DialogueOutcome::NoSnapshots)
                            } else {
                                let mut s = self;
                                s.phase = DialoguePhase::Choosing;
                                s.snapshots = snapshots;
                                s
                            }
                        },
                    },
                }
            },
            (DialoguePhase::Choosing, DialogueEvent::Chosen(None)) => {
                self.end(DialogueOutcome::Cancelled)
            },
            (DialoguePhase::Choosing, DialogueEvent::Chosen(Some(index))) => {
                if index < self.snapshots.len() {
                    let mut s = self;
                    s.phase = DialoguePhase::AskingTarget;
                    s.chosen = index;
                    s
                } else {
                    self
                }
            },
            (DialoguePhase::AskingTarget, DialogueEvent::Answered(answer)) => {
                let mut s = self;
                s.phase = DialoguePhase::Restoring;
                s.target = answer;
                s
            },
            (DialoguePhase::Restoring, DialogueEvent::ToolReturned(report)) => {
                match run_restic_command(report) {
                    Ok(output) => self.end(DialogueOutcome::Restored { output }),
                    Err(e) => self.end(DialogueOutcome::RestoreFailed(e)),
                }
            },
            _ => self,
        }
    }
}

/// What is said of how the dialogue ended.
pub open spec fn describe_dialogue(o: DialogueOutcomeView) -> Seq<char> {
    match o {
        DialogueOutcomeView::Restored { output } => output,
        DialogueOutcomeView::Cancelled => "操作已取消。"@,
        DialogueOutcomeView::NotARepository => "提供的路径不是一个有效的 restic 仓库。"@,
        DialogueOutcomeView::ListingFailed(e) => describe_error(e),
        DialogueOutcomeView::ListingUnreadable(e) => describe_parse_error(e),
        DialogueOutcomeView::NoSnapshots => "仓库中未找到任何快照。"@,
        DialogueOutcomeView::RestoreFailed(e) => "恢复失败: "@ + describe_error(e),
    }
}

impl DialogueOutcome {
    /// Whether the dialogue ended without an error: the snapshot was
    /// restored, or nothing was chosen.
    pub fn is_success(&self) -> (r: bool)
        ensures
            r == (self.deep_view() is Restored || self.deep_view() is Cancelled),
    {
        match self {
            DialogueOutcome::Restored { .. } => true,
            DialogueOutcome::Cancelled => true,
            _ => false,
        }
    }

    /// What is said of this outcome.
    pub fn describe(&self) -> (r: String)
        ensures
            r@ == describe_dialogue(self.deep_view()),
    {
        match self {
            DialogueOutcome::Restored { output } => output.clone(),
            DialogueOutcome::Cancelled => String::from_str("操作已取消。"),
            DialogueOutcome::NotARepository => String::from_str(
                "提供的路径不是一个有效的 restic 仓库。",
            ),
            DialogueOutcome::ListingFailed(e) => e.describe(),
            DialogueOutcome::ListingUnreadable(e) => e.describe(),
            DialogueOutcome::NoSnapshots => String::from_str("仓库中未找到任何快照。"),
            DialogueOutcome::RestoreFailed(e) => {
                let mut r = String::from_str("恢复失败: ");
                r.append(e.describe().as_str());
                r
            },
        }
    }
}

/// The dialogue restores nothing that was not chosen: the tool is asked to
/// restore only after a line of the menu was chosen, and then the snapshot
/// of that line, from the repository and into the target that were given.
pub proof fn lemma_restores_what_was_chosen(s: RestoreDialogueView, index: usize, target: Seq<char>)
    requires
        s.phase is Choosing,
        index < s.snapshots.len(),
    ensures
        s.after(DialogueEventView::Chosen(Some(index))).after(
            DialogueEventView::Answered(target),
        ).requested() == (DialogueActionView::RunTool {
            args: restore_arguments(s.repo, s.snapshots[index as int].short_id, target),
            secret: s.password,
        }),
        s.after(DialogueEventView::Chosen(None)).requested() is Done,
{
}

} // verus!
