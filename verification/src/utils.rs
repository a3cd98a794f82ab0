//! The gateway to the backup tool: what is written to it, how its exit is
//! read, how a JSON listing is cut out of its output, and the checks on a
//! repository directory and on the tool's own presence.

use crate::text::{
    chars_of, check_contains, contains_text, decimal, decimal_text, find_char_from, find_from,
    find_last_before, find_last_char_before, push_str, push_text, same_text, text_of_range,
};
use vstd::prelude::*;
use vstd::string::*;

verus! {

/// The stage at which a run of the tool could not be carried through.
#[derive(Clone, Copy, Debug, PartialEq, Eq, Structural)]
pub enum Stage {
    /// The process did not start.
    Launch,
    /// The secret could not be written to its standard input.
    Secret,
    /// Its exit could not be awaited.
    Wait,
}

/// What one attempt to run the tool gave back to the caller that ran it.
#[derive(Debug, Clone, PartialEq, Eq)]
pub enum ProcessReport {
    /// The process could not be driven to its exit; `detail` is the system's message.
    Failed { stage: Stage, detail: String },
    /// The process ran and exited.
    Exited { success: bool, stdout: String, stderr: String },
}

/// Why a run of the tool did not succeed.
#[derive(Debug, Clone, PartialEq, Eq)]
pub enum ToolError {
    /// The process could not be driven to its exit.
    Invocation { stage: Stage, detail: String },
    /// The tool rejected the secret.
    WrongSecret,
    /// There is no valid repository at the given location.
    RepositoryNotFound,
    /// Any other failure, with both captured streams.
    Unclassified { stdout: String, stderr: String },
}

/// The model of a [`ToolError`].
pub enum ToolErrorView {
    Invocation { stage: Stage, detail: Seq<char> },
    WrongSecret,
    RepositoryNotFound,
    Unclassified { stdout: Seq<char>, stderr: Seq<char> },
}

impl DeepView for ToolError {
    type V = ToolErrorView;

    open spec fn deep_view(&self) -> ToolErrorView {
        match self {
            ToolError::Invocation { stage, detail } => ToolErrorView::Invocation {
                stage: *stage,
                detail: detail@,
            },
            ToolError::WrongSecret => ToolErrorView::WrongSecret,
            ToolError::RepositoryNotFound => ToolErrorView::RepositoryNotFound,
            ToolError::Unclassified { stdout, stderr } => ToolErrorView::Unclassified {
                stdout: stdout@,
                stderr: stderr@,
            },
        }
    }
}

/// The model of a [`ProcessReport`].
pub enum ProcessReportView {
    Failed { stage: Stage, detail: Seq<char> },
    Exited { success: bool, stdout: Seq<char>, stderr: Seq<char> },
}

impl DeepView for ProcessReport {
    type V = ProcessReportView;

    open spec fn deep_view(&self) -> ProcessReportView {
        match self {
            ProcessReport::Failed { stage, detail } => ProcessReportView::Failed {
                stage: *stage,
                detail: detail@,
            },
            ProcessReport::Exited { success, stdout, stderr } => ProcessReportView::Exited {
                success: *success,
                stdout: stdout@,
                stderr: stderr@,
            },
        }
    }
}

/// The model of the outcome of a run: the captured output, or the error.
pub open spec fn outcome_view(r: Result<String, ToolError>) -> Result<Seq<char>, ToolErrorView> {
    match r {
        Ok(s) => Ok(s@),
        Err(e) => Err(e.deep_view()),
    }
}

/// What is written to the tool's standard input: the secret and a line end.
pub open spec fn secret_line(secret: Seq<char>) -> Seq<char> {
    secret.push('\n')
}

/// What is written to the tool's standard input for `secret`.
pub fn secret_input(secret: &str) -> (r: String)
    ensures
        r@ == secret_line(secret@),
{
    let mut r = String::from_str(secret);
    r.push('\n');
    r
}

/// What the tool writes to its error stream when it rejects the secret.
pub open spec fn wrong_secret_marker() -> Seq<char> {
    "wrong password or no key found"@
}

/// What the tool writes to its error stream when it finds no repository.
pub open spec fn no_repository_marker() -> Seq<char> {
    "Is there a repository at the given location?"@
}

/// What the tool writes to its error stream when the repository is not there.
pub open spec fn missing_repository_marker() -> Seq<char> {
    "repository does not exist"@
}

/// The class of a failed run, read off the error stream: a rejected secret
/// first, then a missing repository, else unclassified with both streams.
pub open spec fn classify(stdout: Seq<char>, stderr: Seq<char>) -> ToolErrorView {
    if contains_text(stderr, wrong_secret_marker()) {
        ToolErrorView::WrongSecret
    } else if contains_text(stderr, no_repository_marker()) || contains_text(
        stderr,
        missing_repository_marker(),
    ) {
        ToolErrorView::RepositoryNotFound
    } else {
        ToolErrorView::Unclassified { stdout, stderr }
    }
}

/// Classifies a run that failed by what it wrote to its error stream.
pub fn classify_failure(stdout: String, stderr: String) -> (r: ToolError)
    ensures
        r.deep_view() == classify(stdout@, stderr@),
{
    let err = chars_of(stderr.as_str());
    if check_contains(&err, &chars_of("wrong password or no key found")) {
        ToolError::WrongSecret
    } else if check_contains(&err, &chars_of("Is there a repository at the given location?"))
        || check_contains(&err, &chars_of("repository does not exist")) {
        ToolError::RepositoryNotFound
    } else {
        ToolError::Unclassified { stdout, stderr }
    }
}

/// The outcome of a run of the tool: its standard output where it exited with
/// success, whatever it wrote to the error stream; else the classified error.
pub open spec fn interpret(report: ProcessReportView) -> Result<Seq<char>, ToolErrorView> {
    match report {
        ProcessReportView::Failed { stage, detail } => Err(
            ToolErrorView::Invocation { stage, detail },
        ),
        ProcessReportView::Exited { success, stdout, stderr } => if success {
            Ok(stdout)
        } else {
            Err(classify(stdout, stderr))
        },
    }
}

/// Reads the outcome of one run of the tool from what the process gave back.
pub fn run_restic_command(report: ProcessReport) -> (r: Result<String, ToolError>)
    ensures
        outcome_view(r) == interpret(report.deep_view()),
{
    match report {
        ProcessReport::Failed { stage, detail } => Err(ToolError::Invocation { stage, detail }),
        ProcessReport::Exited { success, stdout, stderr } => {
            if success {
                Ok(stdout)
            } else {
                Err(classify_failure(stdout, stderr))
            }
        },
    }
}

/// The message shown for an error of the tool.
pub open spec fn describe_error(e: ToolErrorView) -> Seq<char> {
    match e {
        ToolErrorView::Invocation { stage: Stage::Launch, detail } => "启动 restic 进程失败: "@
            + detail,
        ToolErrorView::Invocation { stage: Stage::Secret, detail } => "向 restic 写入密码失败: "@
            + detail,
        ToolErrorView::Invocation { stage: Stage::Wait, detail } => "等待 restic 进程失败: "@
            + detail,
        ToolErrorView::WrongSecret => "密码错误。"@,
        ToolErrorView::RepositoryNotFound => "仓库路径无效或不存在。"@,
        ToolErrorView::Unclassified { stdout, stderr } => "Restic 命令执行失败:\n--- 标准输出 ---\n"@
            + stdout + "\n--- 标准错误 ---\n"@ + stderr,
    }
}

impl ToolError {
    /// The message shown for this error.
    pub fn describe(&self) -> (r: String)
        ensures
            r@ == describe_error(self.deep_view()),
    {
        match self {
            ToolError::Invocation { stage, detail } => {
                let mut r = match stage {
                    Stage::Launch => String::from_str("启动 restic 进程失败: "),
                    Stage::Secret => String::from_str("向 restic 写入密码失败: "),
                    Stage::Wait => String::from_str("等待 restic 进程失败: "),
                };
                r.append(detail.as_str());
                r
            },
            ToolError::WrongSecret => String::from_str("密码错误。"),
            ToolError::RepositoryNotFound => String::from_str("仓库路径无效或不存在。"),
            ToolError::Unclassified { stdout, stderr } => {
                let mut r = String::from_str("Restic 命令执行失败:\n--- 标准输出 ---\n");
                r.append(stdout.as_str());
                r.append("\n--- 标准错误 ---\n");
                r.append(stderr.as_str());
                r
            },
        }
    }

    /// A copy of this error.
    pub fn duplicate(&self) -> (r: ToolError)
        ensures
            r.deep_view() == self.deep_view(),
    {
        match self {
            ToolError::Invocation { stage, detail } => ToolError::Invocation {
                stage: *stage,
                detail: detail.clone(),
            },
            ToolError::WrongSecret => ToolError::WrongSecret,
            ToolError::RepositoryNotFound => ToolError::RepositoryNotFound,
            ToolError::Unclassified { stdout, stderr } => ToolError::Unclassified {
                stdout: stdout.clone(),
                stderr: stderr.clone(),
            },
        }
    }
}

/// The arguments that create a repository at `repo`.
pub open spec fn init_arguments(repo: Seq<char>) -> Seq<Seq<char>> {
    seq!["-r"@, repo, "init"@]
}

/// The arguments that create a repository at `repo`.
pub fn init_args(repo: &str) -> (r: Vec<String>)
    ensures
        r.deep_view() == init_arguments(repo@),
{
    let mut r: Vec<String> = Vec::new();
    assert(r.deep_view() == Seq::<Seq<char>>::empty());
    push_str(&mut r, "-r");
    push_str(&mut r, repo);
    push_str(&mut r, "init");
    r
}

/// The arguments that back `target` up into `repo`: the repository, the
/// target, no rescan of directories, the pack size in MiB, and the tag
/// where there is one.
pub open spec fn backup_arguments(
    repo: Seq<char>,
    target: Seq<char>,
    tag: Seq<char>,
    pack_size: nat,
) -> Seq<Seq<char>> {
    let fixed = seq![
        "-r"@,
        repo,
        "backup"@,
        target,
        "--no-scan"@,
        "--pack-size"@,
        decimal(pack_size),
    ];
    if tag.len() > 0 {
        fixed + seq!["--tag"@, tag]
    } else {
        fixed
    }
}

/// The arguments that back `target` up into `repo`.
pub fn backup_args(repo: &str, target: &str, tag: &str, pack_size: u64) -> (r: Vec<String>)
    ensures
        r.deep_view() == backup_arguments(repo@, target@, tag@, pack_size as nat),
{
    let mut r: Vec<String> = Vec::new();
    assert(r.deep_view() == Seq::<Seq<char>>::empty());
    push_str(&mut r, "-r");
    push_str(&mut r, repo);
    push_str(&mut r, "backup");
    push_str(&mut r, target);
    push_str(&mut r, "--no-scan");
    push_str(&mut r, "--pack-size");
    push_text(&mut r, decimal_text(pack_size));
    if !tag.is_empty() {
        push_str(&mut r, "--tag");
        push_str(&mut r, tag);
    }
    r
}

/// The arguments that restore `snapshot` (an id, or an id, a colon and a
/// path inside the snapshot) from `repo` into `target`.
pub open spec fn restore_arguments(
    repo: Seq<char>,
    snapshot: Seq<char>,
    target: Seq<char>,
) -> Seq<Seq<char>> {
    seq!["-r"@, repo, "restore"@, snapshot, "--target"@, target]
}

/// The arguments that restore `snapshot` from `repo` into `target`.
pub fn restore_args(repo: &str, snapshot: &str, target: &str) -> (r: Vec<String>)
    ensures
        r.deep_view() == restore_arguments(repo@, snapshot@, target@),
{
    let mut r: Vec<String> = Vec::new();
    assert(r.deep_view() == Seq::<Seq<char>>::empty());
    push_str(&mut r, "-r");
    push_str(&mut r, repo);
    push_str(&mut r, "restore");
    push_str(&mut r, snapshot);
    push_str(&mut r, "--target");
    push_str(&mut r, target);
    r
}

/// The arguments that list the snapshots of `repo` as JSON.
pub open spec fn snapshots_arguments(repo: Seq<char>) -> Seq<Seq<char>> {
    seq!["-r"@, repo, "snapshots"@, "--json"@]
}

/// The arguments that list the snapshots of `repo` as JSON.
pub fn snapshots_args(repo: &str) -> (r: Vec<String>)
    ensures
        r.deep_view() == snapshots_arguments(repo@),
{
    let mut r: Vec<String> = Vec::new();
    assert(r.deep_view() == Seq::<Seq<char>>::empty());
    push_str(&mut r, "-r");
    push_str(&mut r, repo);
    push_str(&mut r, "snapshots");
    push_str(&mut r, "--json");
    r
}

/// Where the JSON array lies in `output`: from the first `[` to the last
/// `]` of the whole text, line ends included, as a half-open range; `None`
/// where no `]` follows the first `[`.
pub open spec fn array_span(output: Seq<char>) -> Option<(int, int)> {
    let open = find_from(output, '[', 0);
    let close = find_last_before(output, ']', output.len() as int);
    if open < close {
        Some((open, close + 1))
    } else {
        None
    }
}

/// The text of the JSON array in `output`, brackets included.
pub open spec fn array_text(output: Seq<char>) -> Option<Seq<char>> {
    match array_span(output) {
        Some((from, to)) => Some(output.subrange(from, to)),
        None => None,
    }
}

/// What is cut out runs from the first `[` of the output to its last `]`:
/// it begins with `[` and ends with `]`, no `[` stands before it and no
/// `]` after it; and nothing is cut out only where no `]` follows the
/// first `[`.
pub proof fn lemma_array_span(output: Seq<char>)
    ensures
        match array_span(output) {
            Some((from, to)) => {
                &&& 0 <= from < to - 1 < output.len()
                &&& output[from] == '['
                &&& output[to - 1] == ']'
                &&& forall|k: int| 0 <= k < from ==> output[k] != '['
                &&& forall|k: int| to <= k < output.len() ==> output[k] != ']'
            },
            None => forall|i: int, j: int|
                0 <= i < j < output.len() && output[i] == '[' ==> output[j] != ']',
        },
{
    crate::text::lemma_find_from_is_first(output, '[', 0);
    crate::text::lemma_find_last_is_last(output, ']', output.len() as int);
}

/// Cuts the JSON array out of the tool's output, whatever text surrounds it.
pub fn extract_json_array(output: &str) -> (r: Option<String>)
    ensures
        r.deep_view() == array_text(output@),
{
    let chars = chars_of(output);
    let open = find_char_from(&chars, '[', 0);
    match find_last_char_before(&chars, ']', chars.len()) {
        Some(close) => {
            if open < close {
                Some(text_of_range(&chars, open, close + 1))
            } else {
                None
            }
        },
        None => None,
    }
}

proof fn lemma_find_from_skips(s: Seq<char>, c: char, from: int, at: int)
    requires
        0 <= from <= at < s.len(),
        s[at] == c,
        forall|k: int| from <= k < at ==> s[k] != c,
    ensures
        find_from(s, c, from) == at,
    decreases at - from,
{
    if from < at {
        lemma_find_from_skips(s, c, from + 1, at);
    }
}

proof fn lemma_find_last_skips(s: Seq<char>, c: char, end: int, at: int)
    requires
        0 <= at < end <= s.len(),
        s[at] == c,
        forall|k: int| at < k < end ==> s[k] != c,
    ensures
        find_last_before(s, c, end) == at,
    decreases end - at,
{
    if at < end - 1 {
        lemma_find_last_skips(s, c, end - 1, at);
    }
}

/// Whatever stands around it, the array is recovered as it is: where the
/// text before it holds no `[` and the text after it no `]`, a text that
/// begins with `[` and ends with `]` is cut out unchanged, line ends and
/// all.
pub proof fn lemma_array_recovered(banner: Seq<char>, array: Seq<char>, trailer: Seq<char>)
    requires
        array.len() >= 2,
        array[0] == '[',
        array[array.len() - 1] == ']',
        forall|k: int| 0 <= k < banner.len() ==> banner[k] != '[',
        forall|k: int| 0 <= k < trailer.len() ==> trailer[k] != ']',
    ensures
        array_text(banner + array + trailer) == Some(array),
{
    let text = banner + array + trailer;
    let open = banner.len() as int;
    let close = banner.len() + array.len() - 1;
    assert(text[open] == array[0]);
    assert(text[close] == array[array.len() - 1]);
    assert forall|k: int| 0 <= k < open implies text[k] != '[' by {
        assert(text[k] == banner[k]);
    }
    assert forall|k: int| close < k < text.len() implies text[k] != ']' by {
        assert(text[k] == trailer[k - close - 1]);
    }
    lemma_find_from_skips(text, '[', 0, open);
    lemma_find_last_skips(text, ']', text.len() as int, close);
    assert(text.subrange(open, close + 1) == array);
}

/// What an entry of a directory is, links followed.
#[derive(Clone, Copy, Debug, PartialEq, Eq, Structural)]
pub enum EntryKind {
    Directory,
    File,
    Other,
}

/// One entry of a directory.
#[derive(Debug, Clone, PartialEq, Eq)]
pub struct DirEntry {
    pub name: String,
    pub kind: EntryKind,
}

/// The model of a [`DirEntry`].
pub struct DirEntryView {
    pub name: Seq<char>,
    pub kind: EntryKind,
}

impl DeepView for DirEntry {
    type V = DirEntryView;

    open spec fn deep_view(&self) -> DirEntryView {
        DirEntryView { name: self.name@, kind: self.kind }
    }
}

/// What was found at a path that should hold a repository.
#[derive(Debug, Clone, PartialEq, Eq)]
pub struct RepoProbe {
    /// Something exists at the path.
    pub exists: bool,
    /// It is a directory.
    pub is_dir: bool,
    /// The entries of that directory; none where it is no directory.
    pub entries: Vec<DirEntry>,
}

/// The model of a [`RepoProbe`].
pub struct RepoProbeView {
    pub exists: bool,
    pub is_dir: bool,
    pub entries: Seq<DirEntryView>,
}

impl DeepView for RepoProbe {
    type V = RepoProbeView;

    open spec fn deep_view(&self) -> RepoProbeView {
        RepoProbeView {
            exists: self.exists,
            is_dir: self.is_dir,
            entries: self.entries.deep_view(),
        }
    }
}

/// Whether `entries` holds an entry called `name` of kind `kind`.
pub open spec fn has_entry(entries: Seq<DirEntryView>, name: Seq<char>, kind: EntryKind) -> bool {
    exists|i: int|
        0 <= i < entries.len() && (#[trigger] entries[i]).name == name && entries[i].kind == kind
}

/// A path holds a repository exactly if it is a directory with the
/// subdirectories `snapshots`, `index`, `data`, `keys` and `locks` and a
/// regular file `config`.
pub open spec fn repo_layout(probe: RepoProbeView) -> bool {
    &&& probe.is_dir
    &&& has_entry(probe.entries, "snapshots"@, EntryKind::Directory)
    &&& has_entry(probe.entries, "index"@, EntryKind::Directory)
    &&& has_entry(probe.entries, "data"@, EntryKind::Directory)
    &&& has_entry(probe.entries, "keys"@, EntryKind::Directory)
    &&& has_entry(probe.entries, "locks"@, EntryKind::Directory)
    &&& has_entry(probe.entries, "config"@, EntryKind::File)
}

/// Whether `entries` holds an entry called `name` of kind `kind`.
pub fn find_entry(entries: &Vec<DirEntry>, name: &str, kind: EntryKind) -> (r: bool)
    ensures
        r == has_entry(entries.deep_view(), name@, kind),
{
    let mut i: usize = 0;
    while i < entries.len()
        invariant
            i <= entries.len(),
            forall|k: int|
                0 <= k < i ==> !((#[trigger] entries.deep_view()[k]).name == name@
                    && entries.deep_view()[k].kind == kind),
        decreases entries.len() - i,
    {
        assert(entries.deep_view()[i as int] == entries@[i as int].deep_view());
        if same_text(entries[i].name.as_str(), name) && entries[i].kind == kind {
            return true;
        }
        i = i + 1;
    }
    false
}

/// Whether what was found at a path is a repository of the tool.
pub fn is_restic_repo(probe: &RepoProbe) -> (r: bool)
    ensures
        r == repo_layout(probe.deep_view()),
{
    probe.is_dir && find_entry(&probe.entries, "snapshots", EntryKind::Directory) && find_entry(
        &probe.entries,
        "index",
        EntryKind::Directory,
    ) && find_entry(&probe.entries, "data", EntryKind::Directory) && find_entry(
        &probe.entries,
        "keys",
        EntryKind::Directory,
    ) && find_entry(&probe.entries, "locks", EntryKind::Directory) && find_entry(
        &probe.entries,
        "config",
        EntryKind::File,
    )
}

/// Whether the regular expression `pattern` has a match somewhere in `text`,
/// as the `regex` crate decides it; `None` where it does not accept `pattern`.
pub uninterp spec fn regex_search(pattern: Seq<char>, text: Seq<char>) -> Option<bool>;

/// Builds a regular expression with `regex::Regex::new` and asks
/// `Regex::is_match` whether it matches anywhere in `text`. The answer
/// depends on the two texts alone and is named [`regex_search`]; a pattern
/// that `Regex::new` turns down gives `None`.
#[verifier::external_body]
fn pattern_found(pattern: &str, text: &str) -> (r: Option<bool>)
    ensures
        r == regex_search(pattern@, text@),
{
    match regex::Regex::new(pattern) {
        Ok(re) => Some(re.is_match(text)),
        Err(_) => None,
    }
}

/// The pattern that the tool's version banner matches: its name, a blank,
/// digits and a dot.
pub open spec fn version_pattern() -> Seq<char> {
    "restic \\d+\\."@
}

/// Whether `output` is what the tool prints when asked for its version.
pub fn is_restic_version(output: &str) -> (r: bool)
    ensures
        r == (regex_search(version_pattern(), output@) == Some(true)),
{
    match pattern_found("restic \\d+\\.", output) {
        Some(found) => found,
        None => false,
    }
}

/// The tool could not be found.
#[derive(Clone, Copy, Debug, PartialEq, Eq, Structural)]
pub struct ResticNotFound;

impl ResticNotFound {
    /// The message shown where the tool is missing.
    pub open spec fn message() -> Seq<char> {
        "错误: 未找到 restic 环境。\n请将 restic.exe 放置于本程序同目录下，或将其路径添加到系统 PATH 环境变量中。"@
    }

    /// The message shown where the tool is missing.
    pub fn describe(&self) -> (r: String)
        ensures
            r@ == Self::message(),
    {
        String::from_str(
            "错误: 未找到 restic 环境。\n请将 restic.exe 放置于本程序同目录下，或将其路径添加到系统 PATH 环境变量中。",
        )
    }
}

/// The executable to run: the one found beside the program where there is
/// one, else the bare command name where the search path answered with the
/// tool's version banner.
pub open spec fn located(bundled: Option<Seq<char>>, on_path: bool) -> Result<
    Seq<char>,
    ResticNotFound,
> {
    match bundled {
        Some(path) => Ok(path),
        None => if on_path {
            Ok("restic"@)
        } else {
            Err(ResticNotFound)
        },
    }
}

/// The model of the executable that was picked, or of its absence.
pub open spec fn located_view(r: Result<String, ResticNotFound>) -> Result<
    Seq<char>,
    ResticNotFound,
> {
    match r {
        Ok(path) => Ok(path@),
        Err(e) => Err(e),
    }
}

/// Picks the executable from what the two probes found.
pub fn locate_restic(bundled: Option<String>, on_path: bool) -> (r: Result<String, ResticNotFound>)
    ensures
        located_view(r) == located(bundled.deep_view(), on_path),
{
    match bundled {
        Some(path) => Ok(path),
        None => {
            if on_path {
                Ok(String::from_str("restic"))
            } else {
                Err(ResticNotFound)
            }
        },
    }
}

/// Whether the command on the search path is the tool: its version run
/// succeeded and printed the banner.
pub open spec fn answers_as_restic(version_output: Option<Seq<char>>) -> bool {
    match version_output {
        Some(out) => regex_search(version_pattern(), out) == Some(true),
        None => false,
    }
}

/// Decides which executable to run. `bundled` is the path of the executable
/// beside the program, where one exists; `version_output` is what the
/// command on the search path printed when asked for its version, where
/// that run succeeded. The second is not read where the first is present.
pub fn check_restic_path(bundled: Option<String>, version_output: Option<String>) -> (r: Result<
    String,
    ResticNotFound,
>)
    ensures
        located_view(r) == located(
            bundled.deep_view(),
            answers_as_restic(version_output.deep_view()),
        ),
{
    if bundled.is_some() {
        return locate_restic(bundled, false);
    }
    let on_path = match version_output {
        Some(out) => is_restic_version(out.as_str()),
        None => false,
    };
    locate_restic(bundled, on_path)
}

} // verus!
