use xcompress::config::FinalRestoreConfig;
use xcompress::restore::{PathSyntax, RestorePathNotFound, SnapshotParseError};
use xcompress::restore_job::{
    handle_batch_restore, RestoreAction, RestoreEvent, RestoreOutcome, RestorePhase, RestoreRun,
};
use xcompress::summary::render_summary;
use xcompress::utils::{DirEntry, EntryKind, ProcessReport, RepoProbe, ToolError};

fn job(name: &str, selector: &str, subpath: Option<&str>) -> FinalRestoreConfig {
    FinalRestoreConfig {
        job_name: name.to_string(),
        repo: format!("/repos/{}", name),
        target: format!("/out/{}", name),
        passwd: "pw".to_string(),
        snapshots: selector.to_string(),
        restore_path: subpath.map(|s| s.to_string()),
    }
}

fn valid() -> RestoreEvent {
    let dir = |n: &str| DirEntry { name: n.to_string(), kind: EntryKind::Directory };
    RestoreEvent::Probed(RepoProbe {
        exists: true,
        is_dir: true,
        entries: vec![
            dir("snapshots"),
            dir("index"),
            dir("data"),
            dir("keys"),
            dir("locks"),
            DirEntry { name: "config".to_string(), kind: EntryKind::File },
        ],
    })
}

fn absent() -> RestoreEvent {
    RestoreEvent::Probed(RepoProbe { exists: false, is_dir: false, entries: vec![] })
}

fn begin(job: FinalRestoreConfig, syntax: PathSyntax) -> RestoreRun {
    let run = RestoreRun::start(job, syntax);
    assert_eq!(run.request(), RestoreAction::ProbeRepository { path: run.job.repo.clone() });
    run.advance(valid())
}

fn ok(output: &str) -> RestoreEvent {
    RestoreEvent::ToolReturned(ProcessReport::Exited {
        success: true,
        stdout: output.to_string(),
        stderr: String::new(),
    })
}

fn failed(stderr: &str) -> RestoreEvent {
    RestoreEvent::ToolReturned(ProcessReport::Exited {
        success: false,
        stdout: String::new(),
        stderr: stderr.to_string(),
    })
}

fn strings(items: &[&str]) -> Vec<String> {
    items.iter().map(|s| s.to_string()).collect()
}

const LISTING: &str = "[{\"short_id\":\"old1aaaa\",\"time\":\"2023-01-01T10:00:00Z\",\"paths\":[\"/a/b/my_app\"]},{\"short_id\":\"new1bbbb\",\"time\":\"2024-01-01T10:00:00Z\",\"paths\":[\"/x/docs\",\"/a/b/my_app\"]}]";

fn tool_args(run: &RestoreRun) -> Vec<String> {
    match run.request() {
        RestoreAction::RunTool { args, secret } => {
            assert_eq!(secret, "pw");
            args
        }
        other => panic!("unexpected {:?}", other),
    }
}

#[test]
fn latest_snapshot_is_restored_whole_without_a_subpath() {
    let mut run = begin(job("docs", "latest", None), PathSyntax::Plain);
    assert_eq!(run.request(), RestoreAction::PrepareTarget { path: "/out/docs".into() });
    run = run.advance(RestoreEvent::TargetPrepared(Ok(())));
    assert_eq!(tool_args(&run), strings(&["-r", "/repos/docs", "snapshots", "--json"]));
    run = run.advance(ok(LISTING));
    assert_eq!(
        tool_args(&run),
        strings(&["-r", "/repos/docs", "restore", "new1bbbb", "--target", "/out/docs"])
    );
    run = run.advance(ok("restored"));
    assert_eq!(run.request(), RestoreAction::Done);
    assert_eq!(run.outcome, Some(RestoreOutcome::Restored { count: 1 }));
    let entry = run.entry();
    assert!(entry.success);
    assert_eq!(entry.name, "docs");
    assert_eq!(entry.message, "成功恢复了 1 个快照。");
    assert!(entry.notes.is_empty());
}

#[test]
fn all_snapshots_are_restored_newest_first_under_the_subpath() {
    let mut run = begin(job("docs", "all", Some("my_app")), PathSyntax::Plain);
    run = run.advance(RestoreEvent::TargetPrepared(Ok(())));
    run = run.advance(ok(LISTING));
    assert_eq!(
        tool_args(&run),
        strings(&["-r", "/repos/docs", "restore", "new1bbbb:/a/b", "--target", "/out/docs"])
    );
    run = run.advance(ok(""));
    assert_eq!(run.phase, RestorePhase::Restoring);
    assert_eq!(
        tool_args(&run),
        strings(&["-r", "/repos/docs", "restore", "old1aaaa:/a/b", "--target", "/out/docs"])
    );
    run = run.advance(ok(""));
    assert_eq!(run.outcome, Some(RestoreOutcome::Restored { count: 2 }));
    assert_eq!(run.entry().message, "成功恢复了 2 个快照。");
}

#[test]
fn unmatched_ids_are_noted_and_the_matched_ones_restored() {
    let mut run = begin(job("docs", "old1, zz99", None), PathSyntax::Plain);
    run = run.advance(RestoreEvent::TargetPrepared(Ok(())));
    run = run.advance(ok(LISTING));
    assert_eq!(run.not_found, strings(&["zz99"]));
    assert_eq!(tool_args(&run)[3], "old1aaaa");
    run = run.advance(ok(""));
    let entry = run.entry();
    assert!(entry.success);
    assert_eq!(entry.notes, strings(&["在仓库中未找到快照 ID: zz99"]));
    assert_eq!(
        render_summary(&vec![entry]),
        "✔ docs: 成功恢复了 1 个快照。 (在仓库中未找到快照 ID: zz99)"
    );
}

#[test]
fn job_fails_when_nothing_is_selected() {
    let mut run = begin(job("docs", "zz99", None), PathSyntax::Plain);
    run = run.advance(RestoreEvent::TargetPrepared(Ok(())));
    run = run.advance(ok(LISTING));
    assert_eq!(run.request(), RestoreAction::Done);
    assert_eq!(run.outcome, Some(RestoreOutcome::NothingSelected));
    let entry = run.entry();
    assert!(!entry.success);
    assert_eq!(entry.message, "根据配置未找到匹配的快照进行恢复。");
    assert_eq!(entry.notes, strings(&["在仓库中未找到快照 ID: zz99"]));
}

#[test]
fn job_fails_when_the_target_cannot_be_created() {
    let mut run = begin(job("docs", "latest", None), PathSyntax::Plain);
    run = run.advance(RestoreEvent::TargetPrepared(Err("denied".to_string())));
    assert_eq!(run.request(), RestoreAction::Done);
    assert_eq!(run.entry().message, "创建目标目录 '/out/docs' 失败: denied");
}

#[test]
fn job_fails_when_the_listing_fails_or_cannot_be_read() {
    let mut run = begin(job("docs", "latest", None), PathSyntax::Plain);
    run = run.advance(RestoreEvent::TargetPrepared(Ok(())));
    let wrong = run.clone().advance(failed("wrong password or no key found"));
    assert_eq!(wrong.outcome, Some(RestoreOutcome::ListingFailed(ToolError::WrongSecret)));
    assert_eq!(wrong.entry().message, "获取快照列表失败: 密码错误。");
    let none = run.clone().advance(ok("no listing here"));
    assert_eq!(
        none.outcome,
        Some(RestoreOutcome::ListingUnreadable(SnapshotParseError::NoJsonArray))
    );
    assert_eq!(none.entry().message, "获取快照列表失败: 无法从 restic 输出中解析快照 JSON 数据。");
    let bad = run.clone().advance(ok("[oops]"));
    assert!(bad.entry().message.starts_with("获取快照列表失败: 解析快照 JSON 失败: "));
    let empty = run.advance(ok("[]"));
    assert_eq!(empty.outcome, Some(RestoreOutcome::NoSnapshots));
    assert_eq!(empty.entry().message, "仓库中未找到任何快照。");
}

#[test]
fn first_failed_snapshot_ends_the_job() {
    let mut run = begin(job("docs", "all", None), PathSyntax::Plain);
    run = run.advance(RestoreEvent::TargetPrepared(Ok(())));
    run = run.advance(ok(LISTING));
    run = run.advance(failed("disk full"));
    assert_eq!(run.request(), RestoreAction::Done);
    assert_eq!(
        run.outcome,
        Some(RestoreOutcome::RestoreFailed {
            snapshot: "new1bbbb".into(),
            error: ToolError::Unclassified { stdout: "".into(), stderr: "disk full".into() },
        })
    );
    assert_eq!(
        run.entry().message,
        "恢复快照 new1bbbb 失败: Restic 命令执行失败:\n--- 标准输出 ---\n\n--- 标准错误 ---\ndisk full"
    );
}

#[test]
fn snapshot_without_the_subpath_ends_the_job() {
    let mut run = begin(job("docs", "all", Some("docs")), PathSyntax::Plain);
    run = run.advance(RestoreEvent::TargetPrepared(Ok(())));
    run = run.advance(ok(LISTING));
    assert_eq!(tool_args(&run)[3], "new1bbbb:/x");
    run = run.advance(ok(""));
    assert_eq!(run.request(), RestoreAction::Done);
    assert_eq!(
        run.outcome,
        Some(RestoreOutcome::PathNotFound(RestorePathNotFound {
            snapshot: "old1aaaa".into(),
            subpath: "docs".into(),
        }))
    );
    assert_eq!(run.entry().message, "快照 old1aaaa 中未找到以 'docs' 结尾的备份路径。");
    assert!(!run.entry().success);
}

#[test]
fn drive_letter_paths_are_converted_for_the_tool() {
    let listing = "[{\"short_id\":\"ab12\",\"time\":\"2024\",\"paths\":[\"D:\\\\work\\\\proj\\\\my_app\"]}]";
    let mut run = begin(job("w", "latest", Some("proj\\my_app")), PathSyntax::DriveLetters);
    run = run.advance(RestoreEvent::TargetPrepared(Ok(())));
    run = run.advance(ok(listing));
    assert_eq!(tool_args(&run)[3], "ab12:/D/work/proj");
    let mut run = begin(job("w", "latest", Some("my_app")), PathSyntax::DriveLetters);
    run = run.advance(RestoreEvent::TargetPrepared(Ok(())));
    run = run.advance(ok(listing));
    assert_eq!(tool_args(&run)[3], "ab12:/D/work/proj");
}

#[test]
fn repository_that_is_not_in_order_ends_the_job_before_anything_is_done() {
    let mut run = RestoreRun::start(job("docs", "latest", None), PathSyntax::Plain);
    assert_eq!(run.phase, RestorePhase::Probing);
    run = run.advance(absent());
    assert_eq!(run.request(), RestoreAction::Done);
    assert_eq!(run.outcome, Some(RestoreOutcome::RepositoryInvalid { path: "/repos/docs".into() }));
    let entry = run.entry();
    assert!(!entry.success);
    assert_eq!(entry.message, "仓库路径 '/repos/docs' 不是有效的 restic 仓库。");
    let file = RestoreRun::start(job("docs", "latest", None), PathSyntax::Plain).advance(
        RestoreEvent::Probed(RepoProbe { exists: true, is_dir: false, entries: vec![] }),
    );
    assert_eq!(file.outcome, Some(RestoreOutcome::RepositoryInvalid { path: "/repos/docs".into() }));
}

#[test]
fn events_out_of_turn_change_nothing() {
    let run = begin(job("docs", "latest", None), PathSyntax::Plain);
    let same = run.clone().advance(ok(LISTING));
    assert_eq!(same, run);
    let fresh = RestoreRun::start(job("docs", "latest", None), PathSyntax::Plain);
    assert_eq!(fresh.clone().advance(RestoreEvent::TargetPrepared(Ok(()))), fresh);
    let mut done = run.advance(RestoreEvent::TargetPrepared(Err("x".into())));
    let before = done.clone();
    done = done.advance(RestoreEvent::TargetPrepared(Ok(())));
    assert_eq!(done, before);
}

fn run_batch(jobs: Vec<FinalRestoreConfig>, invalid: &str, on_disk: bool) -> (String, Vec<Vec<String>>) {
    let mut batch = handle_batch_restore(jobs, PathSyntax::Plain);
    let mut tool_runs = Vec::new();
    let mut steps = 0;
    loop {
        steps += 1;
        assert!(steps < 100);
        let event = match batch.request() {
            RestoreAction::Done => break,
            RestoreAction::ProbeRepository { path } => {
                if path == format!("/repos/{}", invalid) && !on_disk {
                    absent()
                } else {
                    valid()
                }
            }
            RestoreAction::PrepareTarget { .. } => RestoreEvent::TargetPrepared(Ok(())),
            RestoreAction::RunTool { args, .. } => {
                tool_runs.push(args.clone());
                if args[1] == format!("/repos/{}", invalid) {
                    failed("Fatal: unable to open config file: Is there a repository at the given location?")
                } else if args[2] == "snapshots" {
                    ok(LISTING)
                } else {
                    ok("restored")
                }
            }
        };
        batch = batch.advance(event);
    }
    assert_eq!(batch.index, batch.jobs.len());
    assert_eq!(batch.entries.len(), batch.jobs.len());
    (render_summary(&batch.entries), tool_runs)
}

fn restores(runs: &[Vec<String>]) -> Vec<String> {
    runs.iter().filter(|a| a[2] == "restore").map(|a| a[1].clone()).collect()
}

#[test]
fn batch_isolates_the_job_whose_repository_is_not_on_disk() {
    let a = job("A", "latest", None);
    let b = job("B", "latest", None);
    let (report, runs) = run_batch(vec![a.clone(), b.clone()], "A", false);
    assert_eq!(
        report,
        "✖ A: 仓库路径 '/repos/A' 不是有效的 restic 仓库。\n✔ B: 成功恢复了 1 个快照。"
    );
    assert_eq!(report.lines().count(), 2);
    assert!(runs.iter().all(|args| args[1] == "/repos/B"));
    assert_eq!(restores(&runs), vec!["/repos/B"]);
    let (report, runs) = run_batch(vec![b, a], "A", false);
    assert_eq!(
        report,
        "✔ B: 成功恢复了 1 个快照。\n✖ A: 仓库路径 '/repos/A' 不是有效的 restic 仓库。"
    );
    assert_eq!(restores(&runs), vec!["/repos/B"]);
}

#[test]
fn batch_isolates_the_job_whose_repository_the_tool_turns_down() {
    let a = job("A", "latest", None);
    let b = job("B", "latest", None);
    let (report, runs) = run_batch(vec![a.clone(), b.clone()], "A", true);
    assert_eq!(report, "✖ A: 获取快照列表失败: 仓库路径无效或不存在。\n✔ B: 成功恢复了 1 个快照。");
    assert_eq!(restores(&runs), vec!["/repos/B"]);
    let (report, runs) = run_batch(vec![b, a], "A", true);
    assert_eq!(report, "✔ B: 成功恢复了 1 个快照。\n✖ A: 获取快照列表失败: 仓库路径无效或不存在。");
    assert_eq!(restores(&runs), vec!["/repos/B"]);
}

#[test]
fn unmatched_ids_add_no_line_to_the_report() {
    let (report, _) = run_batch(vec![job("A", "new1,zz99", None), job("B", "zz99", None)], "-", true);
    assert_eq!(
        report,
        "✔ A: 成功恢复了 1 个快照。 (在仓库中未找到快照 ID: zz99)\n✖ B: 根据配置未找到匹配的快照进行恢复。 (在仓库中未找到快照 ID: zz99)"
    );
    assert_eq!(report.lines().count(), 2);
}

#[test]
fn empty_batch_of_restores_asks_for_nothing() {
    let batch = handle_batch_restore(vec![], PathSyntax::Plain);
    assert_eq!(batch.request(), RestoreAction::Done);
    assert!(batch.entries.is_empty());
    let same = batch.clone().advance(ok(""));
    assert_eq!(same, batch);
}
