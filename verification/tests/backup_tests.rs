use xcompress::backup::{
    accept_repository_path, describe_missing_target, repository_path, handle_backup, is_config_argument, run_interactive_backup,
    run_toml_backup, BackupAction, BackupEvent, BackupOutcome, BackupPhase, BackupPlan, BackupRun,
    BatchBackup, CopyFailure, PathFailure, StepFailure,
};
use xcompress::config::FinalConfig;
use xcompress::utils::{DirEntry, EntryKind, ProcessReport, RepoProbe, Stage, ToolError};

fn job(key: &str, paths: &[&str], merge: i64) -> FinalConfig {
    FinalConfig {
        key_name: key.to_string(),
        name: format!("{}_repo", key),
        path: paths.iter().map(|p| p.to_string()).collect(),
        tag: "daily".to_string(),
        passwd: "secret".to_string(),
        restic_home_path: "/repos".to_string(),
        merge,
        merge_name: "merged_backup".to_string(),
        pack_size: 64,
    }
}

fn entry(name: &str, kind: EntryKind) -> DirEntry {
    DirEntry { name: name.to_string(), kind }
}

fn repo_probe() -> RepoProbe {
    RepoProbe {
        exists: true,
        is_dir: true,
        entries: vec![
            entry("config", EntryKind::File),
            entry("data", EntryKind::Directory),
            entry("index", EntryKind::Directory),
            entry("keys", EntryKind::Directory),
            entry("locks", EntryKind::Directory),
            entry("snapshots", EntryKind::Directory),
        ],
    }
}

fn absent_probe() -> RepoProbe {
    RepoProbe { exists: false, is_dir: false, entries: vec![] }
}

fn ok(output: &str) -> BackupEvent {
    BackupEvent::ToolReturned(ProcessReport::Exited {
        success: true,
        stdout: output.to_string(),
        stderr: String::new(),
    })
}

fn failed(stderr: &str) -> BackupEvent {
    BackupEvent::ToolReturned(ProcessReport::Exited {
        success: false,
        stdout: "out".to_string(),
        stderr: stderr.to_string(),
    })
}

fn strings(items: &[&str]) -> Vec<String> {
    items.iter().map(|s| s.to_string()).collect()
}

#[test]
fn merge_job_stages_backs_up_and_cleans_up() {
    let mut run = BackupRun::start(job("a", &["/src/one", "/src/two"], 1), "/repos/a_repo".into(), 1700000000);
    assert_eq!(
        run.request(),
        BackupAction::CreateWorkspace { name: "merged_backup_1700000000".to_string() }
    );
    run = run.advance(BackupEvent::WorkspaceCreated(Ok("/tmp/ws".to_string())));
    assert_eq!(
        run.request(),
        BackupAction::CopySource { source: "/src/one".into(), workspace: "/tmp/ws".into() }
    );
    run = run.advance(BackupEvent::Copied(Ok(())));
    assert_eq!(
        run.request(),
        BackupAction::CopySource { source: "/src/two".into(), workspace: "/tmp/ws".into() }
    );
    run = run.advance(BackupEvent::Copied(Ok(())));
    assert_eq!(run.request(), BackupAction::ProbeRepository { path: "/repos/a_repo".into() });
    run = run.advance(BackupEvent::Probed(repo_probe()));
    assert_eq!(
        run.request(),
        BackupAction::RunTool {
            args: strings(&[
                "-r", "/repos/a_repo", "backup", "/tmp/ws", "--no-scan", "--pack-size", "64",
                "--tag", "daily",
            ]),
            secret: "secret".to_string(),
        }
    );
    run = run.advance(ok("snapshot 1234 saved"));
    assert_eq!(run.request(), BackupAction::RemoveWorkspace { path: "/tmp/ws".into() });
    assert_eq!(run.phase, BackupPhase::RemovingWorkspace);
    run = run.advance(BackupEvent::WorkspaceRemoved);
    assert_eq!(run.request(), BackupAction::Done);
    assert_eq!(run.outcome, Some(BackupOutcome::Merged { output: "snapshot 1234 saved".into() }));
    assert_eq!(run.outcome.unwrap().describe(), "snapshot 1234 saved");
}

#[test]
fn merge_job_with_a_failed_copy_never_runs_the_tool_and_removes_the_workspace() {
    let mut run = BackupRun::start(job("a", &["/s/1", "/s/2", "/s/3"], 1), "/repos/a_repo".into(), 5);
    let mut asked = vec![run.request()];
    let events = vec![
        BackupEvent::WorkspaceCreated(Ok("/tmp/ws".to_string())),
        BackupEvent::Copied(Ok(())),
        BackupEvent::Copied(Err("permission denied".to_string())),
        BackupEvent::Copied(Ok(())),
        BackupEvent::WorkspaceRemoved,
    ];
    for e in events {
        run = run.advance(e);
        asked.push(run.request());
    }
    assert!(asked.iter().all(|a| !matches!(a, BackupAction::RunTool { .. })));
    assert!(asked.iter().all(|a| !matches!(a, BackupAction::ProbeRepository { .. })));
    assert_eq!(asked[asked.len() - 2], BackupAction::RemoveWorkspace { path: "/tmp/ws".into() });
    assert_eq!(asked[asked.len() - 1], BackupAction::Done);
    let outcome = run.outcome.unwrap();
    assert_eq!(
        outcome,
        BackupOutcome::CopyFailed {
            failures: vec![CopyFailure { source: "/s/2".into(), detail: "permission denied".into() }],
        }
    );
    assert!(!outcome.is_success());
    assert_eq!(outcome.describe(), "文件复制阶段出现错误:\n复制 /s/2 失败: permission denied");
}

#[test]
fn merge_job_reports_every_failed_copy() {
    let mut run = BackupRun::start(job("a", &["/s/1", "/s/2"], 1), "/r".into(), 5);
    run = run.advance(BackupEvent::WorkspaceCreated(Ok("/tmp/ws".to_string())));
    run = run.advance(BackupEvent::Copied(Err("e1".to_string())));
    run = run.advance(BackupEvent::Copied(Err("e2".to_string())));
    assert_eq!(run.phase, BackupPhase::RemovingWorkspace);
    run = run.advance(BackupEvent::WorkspaceRemoved);
    assert_eq!(
        run.outcome.unwrap().describe(),
        "文件复制阶段出现错误:\n复制 /s/1 失败: e1\n复制 /s/2 失败: e2"
    );
}

#[test]
fn merge_job_removes_the_workspace_after_a_failed_backup() {
    let mut run = BackupRun::start(job("a", &["/s/1"], 1), "/r".into(), 5);
    run = run.advance(BackupEvent::WorkspaceCreated(Ok("/tmp/ws".to_string())));
    run = run.advance(BackupEvent::Copied(Ok(())));
    run = run.advance(BackupEvent::Probed(repo_probe()));
    run = run.advance(failed("Fatal: wrong password or no key found"));
    assert_eq!(run.request(), BackupAction::RemoveWorkspace { path: "/tmp/ws".into() });
    run = run.advance(BackupEvent::WorkspaceRemoved);
    assert_eq!(
        run.outcome,
        Some(BackupOutcome::BackupFailed(StepFailure::Tool(ToolError::WrongSecret)))
    );
    assert_eq!(run.outcome.unwrap().describe(), "密码错误。");
}

#[test]
fn merge_job_without_workspace_ends_at_once() {
    let mut run = BackupRun::start(job("a", &["/s/1"], 1), "/r".into(), 5);
    run = run.advance(BackupEvent::WorkspaceCreated(Err("disk full".to_string())));
    assert_eq!(run.request(), BackupAction::Done);
    assert_eq!(
        run.outcome,
        Some(BackupOutcome::WorkspaceNotCreated {
            name: "merged_backup_5".into(),
            detail: "disk full".into(),
        })
    );
    assert_eq!(
        run.outcome.as_ref().unwrap().describe(),
        "创建合并目录失败: disk full"
    );
}

#[test]
fn individual_job_goes_on_after_a_failed_path() {
    let mut run = BackupRun::start(job("b", &["/p/1", "/p/2", "/p/3"], 0), "/r".into(), 5);
    let mut targets = Vec::new();
    for step in 0..3 {
        assert_eq!(run.request(), BackupAction::ProbeRepository { path: "/r".into() });
        run = run.advance(BackupEvent::Probed(repo_probe()));
        match run.request() {
            BackupAction::RunTool { args, .. } => targets.push(args[3].clone()),
            other => panic!("unexpected {:?}", other),
        }
        run = run.advance(if step == 1 { failed("boom") } else { ok("fine") });
    }
    assert_eq!(targets, strings(&["/p/1", "/p/2", "/p/3"]));
    assert_eq!(run.request(), BackupAction::Done);
    let outcome = run.outcome.unwrap();
    assert_eq!(
        outcome,
        BackupOutcome::SomePaths {
            succeeded: 2,
            total: 3,
            failures: vec![PathFailure {
                path: "/p/2".into(),
                cause: StepFailure::Tool(ToolError::Unclassified {
                    stdout: "out".into(),
                    stderr: "boom".into(),
                }),
            }],
        }
    );
    assert!(!outcome.is_success());
    assert_eq!(
        outcome.describe(),
        "2/3 个路径备份成功，错误详情:\n路径 /p/2 备份失败: Restic 命令执行失败:\n--- 标准输出 ---\nout\n--- 标准错误 ---\nboom"
    );
}

#[test]
fn individual_job_counts_every_path_when_all_succeed() {
    let mut run = BackupRun::start(job("b", &["/p/1", "/p/2"], 0), "/r".into(), 5);
    for _ in 0..2 {
        run = run.advance(BackupEvent::Probed(repo_probe()));
        run = run.advance(ok("fine"));
    }
    let outcome = run.outcome.unwrap();
    assert_eq!(outcome, BackupOutcome::AllPaths { count: 2 });
    assert!(outcome.is_success());
    assert_eq!(outcome.describe(), "所有 2 个路径单独备份成功。");
}

#[test]
fn missing_repository_is_created_and_initialized_first() {
    let mut run = BackupRun::start(job("b", &["/p/1"], 0), "/r".into(), 5);
    run = run.advance(BackupEvent::Probed(absent_probe()));
    assert_eq!(run.request(), BackupAction::CreateRepository { path: "/r".into() });
    run = run.advance(BackupEvent::RepositoryCreated(Ok(())));
    assert_eq!(
        run.request(),
        BackupAction::RunTool { args: strings(&["-r", "/r", "init"]), secret: "secret".into() }
    );
    run = run.advance(ok("created"));
    match run.request() {
        BackupAction::RunTool { args, .. } => assert_eq!(args[2], "backup"),
        other => panic!("unexpected {:?}", other),
    }
    run = run.advance(ok("saved"));
    assert_eq!(run.outcome, Some(BackupOutcome::AllPaths { count: 1 }));
    assert_eq!(run.last_output, "saved");
}

#[test]
fn empty_directory_counts_as_missing_repository() {
    let mut run = BackupRun::start(job("b", &["/p/1"], 0), "/r".into(), 5);
    run = run.advance(BackupEvent::Probed(RepoProbe { exists: true, is_dir: true, entries: vec![] }));
    assert_eq!(run.request(), BackupAction::CreateRepository { path: "/r".into() });
}

#[test]
fn occupied_directory_that_is_no_repository_fails_the_path() {
    let mut run = BackupRun::start(job("b", &["/p/1"], 0), "/r".into(), 5);
    run = run.advance(BackupEvent::Probed(RepoProbe {
        exists: true,
        is_dir: true,
        entries: vec![entry("notes.txt", EntryKind::File)],
    }));
    assert_eq!(run.request(), BackupAction::Done);
    assert_eq!(
        run.outcome.unwrap().describe(),
        "0/1 个路径备份成功，错误详情:\n路径 /p/1 备份失败: 目录 /r 已存在但不是有效的 restic 仓库。"
    );
}

#[test]
fn file_at_the_repository_path_fails_the_path_without_any_action() {
    let mut run = BackupRun::start(job("b", &["/p/1"], 0), "/r".into(), 5);
    run = run.advance(BackupEvent::Probed(RepoProbe { exists: true, is_dir: false, entries: vec![] }));
    assert_eq!(run.request(), BackupAction::Done);
    assert_eq!(
        run.path_failures,
        vec![PathFailure {
            path: "/p/1".into(),
            cause: StepFailure::RepositoryInvalid { path: "/r".into() },
        }]
    );
    let mut merged = BackupRun::start(job("a", &["/s/1"], 1), "/r".into(), 5);
    merged = merged.advance(BackupEvent::WorkspaceCreated(Ok("/tmp/ws".to_string())));
    merged = merged.advance(BackupEvent::Copied(Ok(())));
    merged = merged.advance(BackupEvent::Probed(RepoProbe {
        exists: true,
        is_dir: false,
        entries: vec![],
    }));
    assert_eq!(merged.request(), BackupAction::RemoveWorkspace { path: "/tmp/ws".into() });
    merged = merged.advance(BackupEvent::WorkspaceRemoved);
    assert_eq!(
        merged.outcome,
        Some(BackupOutcome::BackupFailed(StepFailure::RepositoryInvalid { path: "/r".into() }))
    );
    assert_eq!(merged.outcome.unwrap().describe(), "目录 /r 已存在但不是有效的 restic 仓库。");
}

#[test]
fn failures_to_create_or_initialize_the_repository_are_reported() {
    let mut run = BackupRun::start(job("b", &["/p/1"], 0), "/r".into(), 5);
    run = run.advance(BackupEvent::Probed(absent_probe()));
    run = run.advance(BackupEvent::RepositoryCreated(Err("read-only".to_string())));
    assert_eq!(
        run.path_failures,
        vec![PathFailure {
            path: "/p/1".into(),
            cause: StepFailure::RepositoryNotCreated { path: "/r".into(), detail: "read-only".into() },
        }]
    );
    assert_eq!(
        run.outcome.unwrap().describe(),
        "0/1 个路径备份成功，错误详情:\n路径 /p/1 备份失败: 创建仓库目录失败: read-only"
    );
    let mut run = BackupRun::start(job("b", &["/p/1"], 0), "/r".into(), 5);
    run = run.advance(BackupEvent::Probed(absent_probe()));
    run = run.advance(BackupEvent::RepositoryCreated(Ok(())));
    run = run.advance(BackupEvent::ToolReturned(ProcessReport::Failed {
        stage: Stage::Launch,
        detail: "not found".to_string(),
    }));
    assert_eq!(
        run.outcome.unwrap().describe(),
        "0/1 个路径备份成功，错误详情:\n路径 /p/1 备份失败: 启动 restic 进程失败: not found"
    );
}

#[test]
fn an_event_that_is_not_awaited_changes_nothing() {
    let run = BackupRun::start(job("b", &["/p/1"], 0), "/r".into(), 5);
    let before = run.clone();
    let after = run.advance(BackupEvent::WorkspaceRemoved);
    assert_eq!(after, before);
    let done = BackupRun::start(job("b", &[], 0), "/r".into(), 5);
    assert_eq!(done.request(), BackupAction::Done);
    assert_eq!(done.outcome, Some(BackupOutcome::AllPaths { count: 0 }));
}

#[test]
fn job_without_tag_passes_no_tag() {
    let mut j = job("b", &["/p/1"], 0);
    j.tag = String::new();
    let mut run = BackupRun::start(j, "/r".into(), 5);
    run = run.advance(BackupEvent::Probed(repo_probe()));
    assert_eq!(
        run.request(),
        BackupAction::RunTool {
            args: strings(&["-r", "/r", "backup", "/p/1", "--no-scan", "--pack-size", "64"]),
            secret: "secret".into(),
        }
    );
}

#[test]
fn batch_gives_each_job_one_entry_in_order_whatever_its_outcome() {
    let jobs = vec![job("first", &["/p/1"], 0), job("second", &["/s/1"], 1), job("third", &["/p/3"], 0)];
    let repos = strings(&["/r/1", "/r/2", "/r/3"]).into_iter().map(Some).collect();
    let mut batch = BatchBackup::start_with(jobs, repos, 7);
    // first: fails
    assert_eq!(batch.request(), BackupAction::ProbeRepository { path: "/r/1".into() });
    batch = batch.advance(BackupEvent::Probed(repo_probe()));
    batch = batch.advance(failed("wrong password or no key found"));
    assert_eq!(batch.index, 1);
    // second: workspace cannot be created
    assert_eq!(batch.request(), BackupAction::CreateWorkspace { name: "merged_backup_7".into() });
    batch = batch.advance(BackupEvent::WorkspaceCreated(Err("no space".to_string())));
    // third: succeeds
    assert_eq!(batch.request(), BackupAction::ProbeRepository { path: "/r/3".into() });
    batch = batch.advance(BackupEvent::Probed(repo_probe()));
    batch = batch.advance(ok("fine"));
    assert_eq!(batch.request(), BackupAction::Done);
    let names: Vec<&str> = batch.entries.iter().map(|e| e.name.as_str()).collect();
    assert_eq!(names, vec!["first", "second", "third"]);
    let marks: Vec<bool> = batch.entries.iter().map(|e| e.success).collect();
    assert_eq!(marks, vec![false, false, true]);
    assert_eq!(
        xcompress::summary::render_summary(&batch.entries),
        "✖ first: 0/1 个路径备份成功，错误详情:\n路径 /p/1 备份失败: 密码错误。\n✖ second: 创建合并目录失败: no space\n✔ third: 所有 1 个路径单独备份成功。"
    );
}

#[test]
fn batch_takes_the_repository_of_each_job_from_its_root_and_name() {
    let batch = run_toml_backup(vec![job("a", &["/p/1"], 0), job("b", &["/p/2"], 0)], 7);
    let expected: Vec<String> = ["a_repo", "b_repo"]
        .iter()
        .map(|n| std::path::Path::new("/repos").join(n).to_string_lossy().into_owned())
        .collect();
    assert_eq!(batch.repos, expected.iter().cloned().map(Some).collect::<Vec<_>>());
    assert_eq!(batch.request(), BackupAction::ProbeRepository { path: expected[0].clone() });
    for path in &expected {
        assert!(path.starts_with("/repos") && path.len() > "/repos".len());
    }
    assert!(expected[0].ends_with("a_repo"));
}

#[test]
fn repository_path_must_lie_under_the_root_and_end_in_the_name() {
    let j = job("a", &["/p"], 0);
    assert_eq!(accept_repository_path(&j, "/repos/a_repo".into()), Some("/repos/a_repo".into()));
    assert_eq!(accept_repository_path(&j, "/repos/x/a_repo".into()), Some("/repos/x/a_repo".into()));
    assert_eq!(accept_repository_path(&j, "/repos".into()), None);
    assert_eq!(accept_repository_path(&j, "/other/a_repo".into()), None);
    assert_eq!(accept_repository_path(&j, "/repos/a_repo2".into()), None);
    assert_eq!(accept_repository_path(&j, "".into()), None);
    let mut plain = job("a", &["/p"], 0);
    plain.restic_home_path = "/re".into();
    plain.name = "repo".into();
    assert_eq!(accept_repository_path(&plain, "/repo".into()), None);
    assert_eq!(accept_repository_path(&plain, "/rerepo".into()), Some("/rerepo".into()));
    let own = std::path::Path::new("/repos").join("a_repo").to_string_lossy().into_owned();
    assert_eq!(repository_path(&j), Some(own));
}

#[test]
fn job_without_a_repository_path_fails_alone() {
    let mut stray = job("stray", &["/p/1"], 0);
    stray.name = "/elsewhere/stray".to_string();
    assert_eq!(repository_path(&stray), None);
    let stray_name = stray.name.clone();
    let mut batch = run_toml_backup(vec![stray, job("fine", &["/p/2"], 0)], 7);
    assert_eq!(batch.repos[0], None);
    assert_eq!(batch.index, 1);
    match batch.request() {
        BackupAction::ProbeRepository { path } => assert_eq!(Some(path), batch.repos[1]),
        other => panic!("unexpected {:?}", other),
    }
    batch = batch.advance(BackupEvent::Probed(repo_probe()));
    batch = batch.advance(ok("fine"));
    assert_eq!(batch.request(), BackupAction::Done);
    assert_eq!(
        batch.entries[0].message,
        format!("仓库目录名 '{}' 无效: 仓库必须位于 '/repos' 之下。", stray_name)
    );
    assert!(!batch.entries[0].success);
    assert!(batch.entries[1].success);
    let short = BatchBackup::start_with(vec![job("x", &["/p"], 0)], vec![None], 7);
    assert_eq!(short.request(), BackupAction::Done);
    assert_eq!(
        short.entries[0].message,
        "仓库目录名 'x_repo' 无效: 仓库必须位于 '/repos' 之下。"
    );
}

#[test]
fn empty_batch_asks_for_nothing() {
    let batch = BatchBackup::start_with(vec![], vec![], 7);
    assert_eq!(batch.request(), BackupAction::Done);
    assert!(batch.entries.is_empty());
}

#[test]
fn batch_passes_over_jobs_that_end_at_once() {
    let jobs = vec![job("none", &[], 0), job("one", &["/p"], 0)];
    let batch = BatchBackup::start_with(jobs, vec![Some("/r/0".into()), Some("/r/1".into())], 7);
    assert_eq!(batch.index, 1);
    assert_eq!(batch.entries.len(), 1);
    assert_eq!(batch.entries[0].message, "所有 0 个路径单独备份成功。");
    assert_eq!(batch.request(), BackupAction::ProbeRepository { path: "/r/1".into() });
}

#[test]
fn plan_prefers_a_named_document_then_a_named_path_then_the_default() {
    assert_eq!(
        handle_backup(Some("jobs.toml".into()), Some("/x".into()), false, false),
        BackupPlan::FromConfig { path: "jobs.toml".into() }
    );
    assert_eq!(
        handle_backup(None, Some("/x".into()), true, true),
        BackupPlan::Interactive { target: Some("/x".into()) }
    );
    assert_eq!(
        handle_backup(None, Some("/x".into()), false, true),
        BackupPlan::MissingTarget { path: "/x".into() }
    );
    assert_eq!(
        handle_backup(None, None, false, true),
        BackupPlan::FromConfig { path: "backup_config.toml".into() }
    );
    assert_eq!(handle_backup(None, None, false, false), BackupPlan::Interactive { target: None });
    assert_eq!(describe_missing_target("/x"), "错误: 提供的路径 '/x' 不存在。");
}

#[test]
fn argument_that_ends_in_toml_names_a_document() {
    assert!(is_config_argument("jobs.toml"));
    assert!(is_config_argument(".toml"));
    assert!(!is_config_argument("jobs.toml.bak"));
    assert!(!is_config_argument("D:\\MyProject"));
    assert!(!is_config_argument("toml"));
}

#[test]
fn interactive_backup_begins_only_when_confirmed() {
    assert_eq!(
        run_interactive_backup("/x".into(), "mine".into(), "pw".into(), "/cwd/mine".into(), false, 1),
        None
    );
    let run =
        run_interactive_backup("/x".into(), "mine".into(), "pw".into(), "/cwd/mine".into(), true, 1)
            .unwrap();
    assert_eq!(run.job.path, strings(&["/x"]));
    assert_eq!(run.job.pack_size, 128);
    assert_eq!(run.request(), BackupAction::ProbeRepository { path: "/cwd/mine".into() });
    let run = run.advance(BackupEvent::Probed(repo_probe()));
    assert_eq!(
        run.request(),
        BackupAction::RunTool {
            args: strings(&["-r", "/cwd/mine", "backup", "/x", "--no-scan", "--pack-size", "128"]),
            secret: "pw".into(),
        }
    );
}
