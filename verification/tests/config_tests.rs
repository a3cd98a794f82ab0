use xcompress::config::{
    parse_restore_toml, parse_toml, ConfigError, Document, Fault, FinalConfig, FinalRestoreConfig,
    GlobalConfig, GlobalRestoreConfig, RestoreJob, TomlConfig, Violation,
};

fn s(text: &str) -> Option<String> {
    Some(text.to_string())
}

fn entry(paths: &[&str]) -> TomlConfig {
    TomlConfig {
        name: None,
        path: Some(paths.iter().map(|p| p.to_string()).collect()),
        tag: None,
        passwd: None,
        restic_home_path: None,
        merge: None,
        merge_name: None,
        pack_size: None,
    }
}

fn global() -> GlobalConfig {
    GlobalConfig {
        merge: None,
        passwd: s("global-pw"),
        restic_home_path: s("/repos"),
        tag: s("daily"),
        pack_size: None,
    }
}

fn violation(entry: &str, fault: Fault) -> Violation {
    Violation { entry: entry.to_string(), fault }
}

#[test]
fn global_fields_are_inherited_by_entries_that_do_not_override_them() {
    let job = FinalConfig::resolve(&global(), "docs", &entry(&["/a"]));
    assert_eq!(job.key_name, "docs");
    assert_eq!(job.name, "docs");
    assert_eq!(job.path, vec!["/a".to_string()]);
    assert_eq!(job.tag, "daily");
    assert_eq!(job.passwd, "global-pw");
    assert_eq!(job.restic_home_path, "/repos");
    assert_eq!(job.merge, 0);
    assert_eq!(job.merge_name, "merged_backup");
    assert_eq!(job.pack_size, 128);
}

#[test]
fn entry_values_take_precedence_over_global_ones() {
    let mut g = global();
    g.merge = Some(1);
    g.pack_size = Some(32);
    let mut e = entry(&["/a", "/b"]);
    e.name = s("Docs_Backup");
    e.tag = s("weekly");
    e.passwd = s("own-pw");
    e.restic_home_path = s("/elsewhere");
    e.merge = Some(0);
    e.merge_name = s("merged_docs");
    e.pack_size = Some(64);
    let job = FinalConfig::resolve(&g, "docs", &e);
    assert_eq!(job.name, "Docs_Backup");
    assert_eq!(job.tag, "weekly");
    assert_eq!(job.passwd, "own-pw");
    assert_eq!(job.restic_home_path, "/elsewhere");
    assert_eq!(job.merge, 0);
    assert!(!job.merge_mode());
    assert_eq!(job.merge_name, "merged_docs");
    assert_eq!(job.pack_size, 64);
}

#[test]
fn merge_defaults_to_on_for_several_paths_and_off_for_one() {
    let mut g = global();
    assert_eq!(FinalConfig::resolve(&g, "k", &entry(&["/a", "/b"])).merge, 1);
    assert_eq!(FinalConfig::resolve(&g, "k", &entry(&["/a"])).merge, 0);
    assert_eq!(FinalConfig::resolve(&g, "k", &entry(&[])).merge, 0);
    g.merge = Some(0);
    assert_eq!(FinalConfig::resolve(&g, "k", &entry(&["/a", "/b"])).merge, 0);
    g.merge = Some(1);
    assert_eq!(FinalConfig::resolve(&g, "k", &entry(&["/a"])).merge, 1);
    assert!(FinalConfig::resolve(&g, "k", &entry(&["/a"])).merge_mode());
}

#[test]
fn pack_size_is_kept_within_what_the_tool_takes() {
    let mut g = global();
    g.pack_size = Some(8);
    assert_eq!(FinalConfig::resolve(&g, "k", &entry(&["/a"])).pack_size, 16);
    g.pack_size = Some(4096);
    assert_eq!(FinalConfig::resolve(&g, "k", &entry(&["/a"])).pack_size, 128);
    g.pack_size = Some(-1);
    assert_eq!(FinalConfig::resolve(&g, "k", &entry(&["/a"])).pack_size, 16);
    g.pack_size = Some(16);
    assert_eq!(FinalConfig::resolve(&g, "k", &entry(&["/a"])).pack_size, 16);
}

#[test]
fn valid_document_yields_its_jobs_in_order() {
    let entries = vec![("b".to_string(), entry(&["/b"])), ("a".to_string(), entry(&["/a1", "/a2"]))];
    let jobs = parse_toml(&global(), &entries, &vec![]).unwrap();
    assert_eq!(jobs.len(), 2);
    assert_eq!(jobs[0].key_name, "b");
    assert_eq!(jobs[1].key_name, "a");
    assert_eq!(jobs[1].merge, 1);
}

#[test]
fn every_violation_of_every_entry_is_reported_at_once() {
    let mut bad_merge = entry(&["/ok", "/gone"]);
    bad_merge.merge = Some(2);
    let entries = vec![
        ("empty".to_string(), TomlConfig { path: None, ..entry(&[]) }),
        ("fine".to_string(), {
            let mut e = entry(&["/ok"]);
            e.passwd = s("pw");
            e.restic_home_path = s("/r");
            e
        }),
        ("odd".to_string(), bad_merge),
    ];
    let missing = vec!["/gone".to_string()];
    let err = parse_toml(&GlobalConfig::default(), &entries, &missing).unwrap_err();
    let expected = vec![
        violation("empty", Fault::EmptyPath),
        violation("empty", Fault::EmptyPasswd),
        violation("empty", Fault::EmptyResticHomePath),
        violation("odd", Fault::EmptyPasswd),
        violation("odd", Fault::EmptyResticHomePath),
        violation("odd", Fault::MergeOutOfRange),
        violation("odd", Fault::MissingSource("/gone".to_string())),
    ];
    assert_eq!(err, ConfigError::Invalid { document: Document::Backup, violations: expected });
    assert_eq!(
        err.describe(),
        "配置文件验证失败:\n\
         [empty]: `path` 字段不能为空。\n\
         [empty]: `passwd` 字段不能为空 (全局或局部必须设置一个)。\n\
         [empty]: `restic_home_path` 字段不能为空 (全局或局部必须设置一个)。\n\
         [odd]: `passwd` 字段不能为空 (全局或局部必须设置一个)。\n\
         [odd]: `restic_home_path` 字段不能为空 (全局或局部必须设置一个)。\n\
         [odd]: `merge` 字段必须为 0 或 1。\n\
         [odd]: 备份源路径 '/gone' 不存在。\n"
    );
}

#[test]
fn document_without_entries_is_refused() {
    let err = parse_toml(&global(), &vec![], &vec![]).unwrap_err();
    assert_eq!(err, ConfigError::NoEntries { document: Document::Backup });
    assert_eq!(err.describe(), "配置文件中未找到任何有效的 [config] 配置项。");
}

#[test]
fn each_missing_source_path_is_named() {
    let entries = vec![("k".to_string(), entry(&["/x", "/y", "/z"]))];
    let missing = vec!["/z".to_string(), "/x".to_string()];
    match parse_toml(&global(), &entries, &missing).unwrap_err() {
        ConfigError::Invalid { violations, .. } => {
            assert_eq!(
                violations,
                vec![
                    violation("k", Fault::MissingSource("/x".into())),
                    violation("k", Fault::MissingSource("/z".into())),
                ]
            );
        }
        other => panic!("unexpected {:?}", other),
    }
}

fn restore_job(repo: &str, target: &str) -> RestoreJob {
    RestoreJob { repo: s(repo), target: s(target), passwd: None, snapshots: None, restore_path: None }
}

#[test]
fn restore_job_takes_its_defaults_and_the_global_secret() {
    let g = GlobalRestoreConfig { passwd: s("global-pw") };
    let job = FinalRestoreConfig::resolve(&g, "docs", &restore_job("/r", "/t"));
    assert_eq!(
        job,
        FinalRestoreConfig {
            job_name: "docs".into(),
            repo: "/r".into(),
            target: "/t".into(),
            passwd: "global-pw".into(),
            snapshots: "latest".into(),
            restore_path: None,
        }
    );
    let own = RestoreJob {
        passwd: s("own"),
        snapshots: s("all"),
        restore_path: s("my_app"),
        ..restore_job("/r", "/t")
    };
    let job = FinalRestoreConfig::resolve(&g, "docs", &own);
    assert_eq!(job.passwd, "own");
    assert_eq!(job.snapshots, "all");
    assert_eq!(job.restore_path, s("my_app"));
    assert_eq!(job.duplicate(), job);
}

#[test]
fn restore_document_reports_every_violation() {
    let entries = vec![
        (
            "blank".to_string(),
            RestoreJob { repo: None, target: None, passwd: None, snapshots: None, restore_path: None },
        ),
        ("fine".to_string(), RestoreJob { passwd: s("pw"), ..restore_job("/r", "/t") }),
        ("half".to_string(), restore_job("/r", "")),
    ];
    let err = parse_restore_toml(&GlobalRestoreConfig::default(), &entries).unwrap_err();
    assert_eq!(
        err,
        ConfigError::Invalid {
            document: Document::Restore,
            violations: vec![
                violation("blank", Fault::EmptyRepo),
                violation("blank", Fault::EmptyTarget),
                violation("blank", Fault::EmptyPasswd),
                violation("half", Fault::EmptyTarget),
                violation("half", Fault::EmptyPasswd),
            ],
        }
    );
    assert_eq!(
        err.describe(),
        "恢复配置文件验证失败:\n\
         [blank]: `repo` 字段不能为空。\n\
         [blank]: `target` 字段不能为空。\n\
         [blank]: `passwd` 字段不能为空 (全局或局部必须设置一个)。\n\
         [half]: `target` 字段不能为空。\n\
         [half]: `passwd` 字段不能为空 (全局或局部必须设置一个)。\n"
    );
}

#[test]
fn restore_document_is_accepted_whatever_is_at_its_repository_paths() {
    let g = GlobalRestoreConfig { passwd: s("pw") };
    let entries = vec![
        ("a".to_string(), restore_job("/nowhere/at/all", "/t1")),
        ("b".to_string(), restore_job("/r2", "/t2")),
    ];
    let jobs = parse_restore_toml(&g, &entries).unwrap();
    assert_eq!(jobs.len(), 2);
    assert_eq!(jobs[0].repo, "/nowhere/at/all");
}

#[test]
fn repeated_names_are_reported() {
    let entries = vec![
        ("a".to_string(), entry(&["/a"])),
        ("b".to_string(), entry(&["/b"])),
        ("a".to_string(), entry(&[])),
        ("a".to_string(), entry(&["/c"])),
    ];
    let err = parse_toml(&global(), &entries, &vec![]).unwrap_err();
    assert_eq!(
        err,
        ConfigError::Invalid {
            document: Document::Backup,
            violations: vec![
                violation("a", Fault::RepeatedName),
                violation("a", Fault::EmptyPath),
                violation("a", Fault::RepeatedName),
            ],
        }
    );
    assert_eq!(
        err.describe(),
        "配置文件验证失败:\n[a]: 配置项名称重复。\n[a]: `path` 字段不能为空。\n[a]: 配置项名称重复。\n"
    );
    let g = GlobalRestoreConfig { passwd: s("pw") };
    let jobs = vec![
        ("x".to_string(), restore_job("/r1", "/t1")),
        ("x".to_string(), restore_job("/r2", "/t2")),
    ];
    assert_eq!(
        parse_restore_toml(&g, &jobs).unwrap_err(),
        ConfigError::Invalid {
            document: Document::Restore,
            violations: vec![violation("x", Fault::RepeatedName)],
        }
    );
}

#[test]
fn restore_document_without_jobs_is_refused() {
    let err = parse_restore_toml(&GlobalRestoreConfig::default(), &vec![]).unwrap_err();
    assert_eq!(err.describe(), "恢复配置文件中未找到任何有效的 [restore_jobs] 配置项。");
}

#[test]
fn valid_restore_document_yields_its_jobs() {
    let g = GlobalRestoreConfig { passwd: s("pw") };
    let entries = vec![("a".to_string(), restore_job("/r1", "/t1")), ("b".to_string(), restore_job("/r2", "/t2"))];
    let jobs = parse_restore_toml(&g, &entries).unwrap();
    assert_eq!(jobs.len(), 2);
    assert_eq!(jobs[0].job_name, "a");
    assert_eq!(jobs[1].repo, "/r2");
}

#[test]
fn jobs_run_in_the_order_of_the_document() {
    let text = "[config.zeta]\npath = [\"/z\"]\n\n[config.alpha]\npath = [\"/a1\", \"/a2\"]\n\n[config.mid]\npath = [\"/m\"]\n";
    let document: toml::Table = text.parse().unwrap();
    let mut entries = Vec::new();
    for (key, value) in document["config"].as_table().unwrap() {
        let paths: Vec<String> = value["path"]
            .as_array()
            .unwrap()
            .iter()
            .map(|p| p.as_str().unwrap().to_string())
            .collect();
        entries.push((key.clone(), TomlConfig { path: Some(paths), ..entry(&[]) }));
    }
    let jobs = parse_toml(&global(), &entries, &vec![]).unwrap();
    let names: Vec<&str> = jobs.iter().map(|j| j.key_name.as_str()).collect();
    assert_eq!(names, vec!["zeta", "alpha", "mid"]);
}
