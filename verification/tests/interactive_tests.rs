use xcompress::interactive::{
    handle_restore, label_snapshots, DialogueAction, DialogueEvent, DialogueOutcome, DialoguePhase,
};
use xcompress::restore::Snapshot;
use xcompress::utils::{DirEntry, EntryKind, ProcessReport, RepoProbe, ToolError};

fn repo_probe() -> RepoProbe {
    let dir = |n: &str| DirEntry { name: n.to_string(), kind: EntryKind::Directory };
    RepoProbe {
        exists: true,
        is_dir: true,
        entries: vec![
            dir("snapshots"),
            dir("index"),
            dir("data"),
            dir("keys"),
            dir("locks"),
            DirEntry { name: "config".to_string(), kind: EntryKind::File },
        ],
    }
}

fn ok(output: &str) -> DialogueEvent {
    DialogueEvent::ToolReturned(ProcessReport::Exited {
        success: true,
        stdout: output.to_string(),
        stderr: String::new(),
    })
}

fn strings(items: &[&str]) -> Vec<String> {
    items.iter().map(|s| s.to_string()).collect()
}

const LISTING: &str = "[{\"short_id\":\"old1\",\"time\":\"2023-01-01T10:00:00Z\",\"paths\":[\"/a\"]},{\"short_id\":\"new1\",\"time\":\"2024-02-03T10:00:00Z\",\"paths\":[\"/x\",\"/y\"]}]";

#[test]
fn labels_show_id_day_and_paths() {
    let snaps = vec![
        Snapshot {
            short_id: "ab12".into(),
            time: "2024-02-03T10:00:00Z".into(),
            paths: strings(&["/x", "/y"]),
            total_size_bytes: 0,
        },
        Snapshot { short_id: "cd34".into(), time: "yesterday".into(), paths: vec![], total_size_bytes: 0 },
    ];
    assert_eq!(label_snapshots(&snaps), strings(&["ab12  (2024-02-03)  /x, /y", "cd34  (yesterday)  "]));
    assert_eq!(snaps[0].label(), "ab12  (2024-02-03)  /x, /y");
}

#[test]
fn dialogue_restores_the_chosen_snapshot() {
    let mut d = handle_restore();
    assert_eq!(d.request(), DialogueAction::AskRepository);
    d = d.advance(DialogueEvent::Answered("  /repos/docs \n".into()));
    assert_eq!(d.request(), DialogueAction::ProbeRepository { path: "/repos/docs".into() });
    d = d.advance(DialogueEvent::Probed(repo_probe()));
    assert_eq!(d.request(), DialogueAction::AskPassword);
    d = d.advance(DialogueEvent::Answered("pw".into()));
    assert_eq!(
        d.request(),
        DialogueAction::RunTool {
            args: strings(&["-r", "/repos/docs", "snapshots", "--json"]),
            secret: "pw".into(),
        }
    );
    d = d.advance(ok(LISTING));
    assert_eq!(
        d.request(),
        DialogueAction::Choose {
            labels: strings(&["new1  (2024-02-03)  /x, /y", "old1  (2023-01-01)  /a"]),
        }
    );
    let stay = d.clone().advance(DialogueEvent::Chosen(Some(2)));
    assert_eq!(stay, d);
    d = d.advance(DialogueEvent::Chosen(Some(1)));
    assert_eq!(d.request(), DialogueAction::AskTarget);
    d = d.advance(DialogueEvent::Answered("/out".into()));
    assert_eq!(
        d.request(),
        DialogueAction::RunTool {
            args: strings(&["-r", "/repos/docs", "restore", "old1", "--target", "/out"]),
            secret: "pw".into(),
        }
    );
    d = d.advance(ok("restored 3 files"));
    assert_eq!(d.request(), DialogueAction::Done);
    assert_eq!(d.phase, DialoguePhase::Finished);
    let outcome = d.outcome.unwrap();
    assert_eq!(outcome, DialogueOutcome::Restored { output: "restored 3 files".into() });
    assert!(outcome.is_success());
    assert_eq!(outcome.describe(), "restored 3 files");
}

#[test]
fn dialogue_ends_when_the_path_holds_no_repository() {
    let mut d = handle_restore();
    d = d.advance(DialogueEvent::Answered("/nowhere".into()));
    d = d.advance(DialogueEvent::Probed(RepoProbe { exists: false, is_dir: false, entries: vec![] }));
    assert_eq!(d.request(), DialogueAction::Done);
    let outcome = d.outcome.unwrap();
    assert!(!outcome.is_success());
    assert_eq!(outcome.describe(), "提供的路径不是一个有效的 restic 仓库。");
}

fn at_listing() -> xcompress::interactive::RestoreDialogue {
    let mut d = handle_restore();
    d = d.advance(DialogueEvent::Answered("/repos/docs".into()));
    d = d.advance(DialogueEvent::Probed(repo_probe()));
    d.advance(DialogueEvent::Answered("pw".into()))
}

#[test]
fn dialogue_ends_on_listing_errors_and_empty_repositories() {
    let d = at_listing().advance(DialogueEvent::ToolReturned(ProcessReport::Exited {
        success: false,
        stdout: "".into(),
        stderr: "wrong password or no key found".into(),
    }));
    assert_eq!(d.outcome, Some(DialogueOutcome::ListingFailed(ToolError::WrongSecret)));
    assert_eq!(d.outcome.unwrap().describe(), "密码错误。");
    let d = at_listing().advance(ok("nothing"));
    assert_eq!(d.outcome.unwrap().describe(), "无法从 restic 输出中解析快照 JSON 数据。");
    let d = at_listing().advance(ok("[]"));
    assert_eq!(d.outcome, Some(DialogueOutcome::NoSnapshots));
    assert_eq!(d.outcome.unwrap().describe(), "仓库中未找到任何快照。");
}

#[test]
fn dialogue_can_be_cancelled_and_reports_a_failed_restore() {
    let d = at_listing().advance(ok(LISTING)).advance(DialogueEvent::Chosen(None));
    let outcome = d.outcome.unwrap();
    assert_eq!(outcome, DialogueOutcome::Cancelled);
    assert!(outcome.is_success());
    assert_eq!(outcome.describe(), "操作已取消。");
    let d = at_listing()
        .advance(ok(LISTING))
        .advance(DialogueEvent::Chosen(Some(0)))
        .advance(DialogueEvent::Answered("/out".into()))
        .advance(DialogueEvent::ToolReturned(ProcessReport::Exited {
            success: false,
            stdout: "".into(),
            stderr: "repository does not exist".into(),
        }));
    let outcome = d.outcome.unwrap();
    assert_eq!(outcome, DialogueOutcome::RestoreFailed(ToolError::RepositoryNotFound));
    assert!(!outcome.is_success());
    assert_eq!(outcome.describe(), "恢复失败: 仓库路径无效或不存在。");
}
