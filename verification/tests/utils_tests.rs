use xcompress::utils::{
    backup_args, check_restic_path, classify_failure, extract_json_array, init_args,
    is_restic_repo, is_restic_version, locate_restic, restore_args, run_restic_command,
    secret_input, snapshots_args, DirEntry, EntryKind, ProcessReport, RepoProbe, ResticNotFound,
    Stage, ToolError,
};

fn strings(items: &[&str]) -> Vec<String> {
    items.iter().map(|s| s.to_string()).collect()
}

fn exited(success: bool, stdout: &str, stderr: &str) -> ProcessReport {
    ProcessReport::Exited { success, stdout: stdout.to_string(), stderr: stderr.to_string() }
}

#[test]
fn secret_is_written_as_one_line() {
    assert_eq!(secret_input("hunter2"), "hunter2\n");
    assert_eq!(secret_input(""), "\n");
}

#[test]
fn success_returns_the_captured_output() {
    assert_eq!(
        run_restic_command(exited(true, "snapshot saved", "warning: wrong password or no key found")),
        Ok("snapshot saved".to_string())
    );
}

#[test]
fn failures_are_classified_by_the_error_stream() {
    assert_eq!(
        run_restic_command(exited(false, "", "Fatal: wrong password or no key found")),
        Err(ToolError::WrongSecret)
    );
    assert_eq!(
        run_restic_command(exited(
            false,
            "",
            "Fatal: unable to open config file: Is there a repository at the given location?"
        )),
        Err(ToolError::RepositoryNotFound)
    );
    assert_eq!(
        run_restic_command(exited(false, "", "Fatal: repository does not exist: /x")),
        Err(ToolError::RepositoryNotFound)
    );
    assert_eq!(
        run_restic_command(exited(false, "partial", "disk on fire")),
        Err(ToolError::Unclassified { stdout: "partial".into(), stderr: "disk on fire".into() })
    );
    assert_eq!(
        classify_failure(
            "wrong password or no key found".into(),
            "repository does not exist, wrong password or no key found".into()
        ),
        ToolError::WrongSecret
    );
    assert_eq!(
        classify_failure("wrong password or no key found".into(), "".into()),
        ToolError::Unclassified { stdout: "wrong password or no key found".into(), stderr: "".into() }
    );
}

#[test]
fn process_that_could_not_be_driven_is_an_invocation_error() {
    let e = run_restic_command(ProcessReport::Failed {
        stage: Stage::Launch,
        detail: "No such file".into(),
    })
    .unwrap_err();
    assert_eq!(e, ToolError::Invocation { stage: Stage::Launch, detail: "No such file".into() });
    assert_eq!(e.describe(), "启动 restic 进程失败: No such file");
    assert_eq!(
        ToolError::Invocation { stage: Stage::Secret, detail: "pipe".into() }.describe(),
        "向 restic 写入密码失败: pipe"
    );
    assert_eq!(
        ToolError::Invocation { stage: Stage::Wait, detail: "gone".into() }.describe(),
        "等待 restic 进程失败: gone"
    );
}

#[test]
fn errors_are_described() {
    assert_eq!(ToolError::WrongSecret.describe(), "密码错误。");
    assert_eq!(ToolError::RepositoryNotFound.describe(), "仓库路径无效或不存在。");
    let e = ToolError::Unclassified { stdout: "o".into(), stderr: "e".into() };
    assert_eq!(e.describe(), "Restic 命令执行失败:\n--- 标准输出 ---\no\n--- 标准错误 ---\ne");
    assert_eq!(e.duplicate(), e);
}

#[test]
fn arguments_are_built_in_order() {
    assert_eq!(init_args("/r"), strings(&["-r", "/r", "init"]));
    assert_eq!(snapshots_args("/r"), strings(&["-r", "/r", "snapshots", "--json"]));
    assert_eq!(
        restore_args("/r", "ab12:/a/b", "/t"),
        strings(&["-r", "/r", "restore", "ab12:/a/b", "--target", "/t"])
    );
    assert_eq!(
        backup_args("/r", "/src", "nightly", 128),
        strings(&["-r", "/r", "backup", "/src", "--no-scan", "--pack-size", "128", "--tag", "nightly"])
    );
    assert_eq!(
        backup_args("/r", "/src", "", 16),
        strings(&["-r", "/r", "backup", "/src", "--no-scan", "--pack-size", "16"])
    );
}

#[test]
fn array_is_cut_out_of_banner_text() {
    let output = "using repository at /r\npassword is correct\n[\n  {\n    \"time\": \"2024-01-01T00:00:00Z\",\n    \"paths\": [\n      \"/a\"\n    ]\n  }\n]\n\n   ";
    let raw = extract_json_array(output).unwrap();
    assert_eq!(
        raw,
        "[\n  {\n    \"time\": \"2024-01-01T00:00:00Z\",\n    \"paths\": [\n      \"/a\"\n    ]\n  }\n]"
    );
    assert_eq!(extract_json_array("[ \u{4e2d}\u{6587} ]!"), Some("[ \u{4e2d}\u{6587} ]".to_string()));
    assert_eq!(extract_json_array(""), None);
    assert_eq!(extract_json_array("[ never closed"), None);
}

fn entry(name: &str, kind: EntryKind) -> DirEntry {
    DirEntry { name: name.to_string(), kind }
}

fn full_layout() -> Vec<DirEntry> {
    vec![
        entry("snapshots", EntryKind::Directory),
        entry("index", EntryKind::Directory),
        entry("data", EntryKind::Directory),
        entry("keys", EntryKind::Directory),
        entry("locks", EntryKind::Directory),
        entry("config", EntryKind::File),
    ]
}

#[test]
fn directory_with_the_full_layout_is_a_repository() {
    let mut entries = full_layout();
    entries.push(entry("extra", EntryKind::Other));
    assert!(is_restic_repo(&RepoProbe { exists: true, is_dir: true, entries }));
}

#[test]
fn anything_short_of_the_layout_is_no_repository() {
    assert!(!is_restic_repo(&RepoProbe { exists: true, is_dir: false, entries: full_layout() }));
    assert!(!is_restic_repo(&RepoProbe { exists: false, is_dir: false, entries: vec![] }));
    for skip in 0..6 {
        let mut entries = full_layout();
        entries.remove(skip);
        assert!(!is_restic_repo(&RepoProbe { exists: true, is_dir: true, entries }));
    }
    let mut entries = full_layout();
    entries[5] = entry("config", EntryKind::Directory);
    assert!(!is_restic_repo(&RepoProbe { exists: true, is_dir: true, entries }));
    let mut entries = full_layout();
    entries[0] = entry("snapshots", EntryKind::File);
    assert!(!is_restic_repo(&RepoProbe { exists: true, is_dir: true, entries }));
}

#[test]
fn version_banner_is_recognized() {
    assert!(is_restic_version("restic 0.16.4 compiled with go1.21.6 on linux/amd64"));
    assert!(is_restic_version("banner\nrestic 12.\n"));
    assert!(!is_restic_version("restic version unknown"));
    assert!(!is_restic_version("Restic 0.16.4"));
    assert!(!is_restic_version("restic 0"));
    assert!(!is_restic_version(""));
}

#[test]
fn bundled_executable_is_preferred() {
    assert_eq!(
        check_restic_path(Some("/opt/app/restic.exe".into()), Some("restic 0.16.4".into())),
        Ok("/opt/app/restic.exe".to_string())
    );
    assert_eq!(
        check_restic_path(Some("/opt/app/restic.exe".into()), None),
        Ok("/opt/app/restic.exe".to_string())
    );
    assert_eq!(check_restic_path(None, Some("restic 0.16.4".into())), Ok("restic".to_string()));
    assert_eq!(check_restic_path(None, Some("something else".into())), Err(ResticNotFound));
    assert_eq!(check_restic_path(None, None), Err(ResticNotFound));
    assert_eq!(locate_restic(None, true), Ok("restic".to_string()));
    assert_eq!(locate_restic(None, false), Err(ResticNotFound));
    assert_eq!(
        ResticNotFound.describe(),
        "错误: 未找到 restic 环境。\n请将 restic.exe 放置于本程序同目录下，或将其路径添加到系统 PATH 环境变量中。"
    );
}
