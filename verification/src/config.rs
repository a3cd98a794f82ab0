//! Layered configuration: each job entry is resolved against the global
//! section and the built-in defaults, and every entry is validated before
//! any job runs.

use crate::text::{lemma_deep_view_push, push_text, same_text};
use vstd::prelude::*;
use vstd::string::*;

verus! {

/// One backup entry as the configuration document states it.
#[derive(Debug, Clone, PartialEq, Eq)]
pub struct TomlConfig {
    pub name: Option<String>,
    pub path: Option<Vec<String>>,
    pub tag: Option<String>,
    pub passwd: Option<String>,
    pub restic_home_path: Option<String>,
    pub merge: Option<i64>,
    pub merge_name: Option<String>,
    pub pack_size: Option<i64>,
}

/// The global section of a backup document.
#[derive(Debug, Clone, PartialEq, Eq)]
pub struct GlobalConfig {
    pub merge: Option<i64>,
    pub passwd: Option<String>,
    pub restic_home_path: Option<String>,
    pub tag: Option<String>,
    pub pack_size: Option<i64>,
}

/// A backup job with every field resolved.
#[derive(Debug, Clone, PartialEq, Eq)]
pub struct FinalConfig {
    pub key_name: String,
    pub name: String,
    pub path: Vec<String>,
    pub tag: String,
    pub passwd: String,
    pub restic_home_path: String,
    pub merge: i64,
    pub merge_name: String,
    pub pack_size: u64,
}

/// The model of a [`TomlConfig`].
pub struct TomlConfigView {
    pub name: Option<Seq<char>>,
    pub path: Option<Seq<Seq<char>>>,
    pub tag: Option<Seq<char>>,
    pub passwd: Option<Seq<char>>,
    pub restic_home_path: Option<Seq<char>>,
    pub merge: Option<i64>,
    pub merge_name: Option<Seq<char>>,
    pub pack_size: Option<i64>,
}

/// The model of a [`GlobalConfig`].
pub struct GlobalConfigView {
    pub merge: Option<i64>,
    pub passwd: Option<Seq<char>>,
    pub restic_home_path: Option<Seq<char>>,
    pub tag: Option<Seq<char>>,
    pub pack_size: Option<i64>,
}

/// The model of a [`FinalConfig`].
pub struct FinalConfigView {
    pub key_name: Seq<char>,
    pub name: Seq<char>,
    pub path: Seq<Seq<char>>,
    pub tag: Seq<char>,
    pub passwd: Seq<char>,
    pub restic_home_path: Seq<char>,
    pub merge: i64,
    pub merge_name: Seq<char>,
    pub pack_size: u64,
}

impl DeepView for TomlConfig {
    type V = TomlConfigView;

    open spec fn deep_view(&self) -> TomlConfigView {
        TomlConfigView {
            name: self.name.deep_view(),
            path: self.path.deep_view(),
            tag: self.tag.deep_view(),
            passwd: self.passwd.deep_view(),
            restic_home_path: self.restic_home_path.deep_view(),
            merge: self.merge,
            merge_name: self.merge_name.deep_view(),
            pack_size: self.pack_size,
        }
    }
}

impl DeepView for GlobalConfig {
    type V = GlobalConfigView;

    open spec fn deep_view(&self) -> GlobalConfigView {
        GlobalConfigView {
            merge: self.merge,
            passwd: self.passwd.deep_view(),
            restic_home_path: self.restic_home_path.deep_view(),
            tag: self.tag.deep_view(),
            pack_size: self.pack_size,
        }
    }
}

impl DeepView for FinalConfig {
    type V = FinalConfigView;

    open spec fn deep_view(&self) -> FinalConfigView {
        FinalConfigView {
            key_name: self.key_name@,
            name: self.name@,
            path: self.path.deep_view(),
            tag: self.tag@,
            passwd: self.passwd@,
            restic_home_path: self.restic_home_path@,
            merge: self.merge,
            merge_name: self.merge_name@,
            pack_size: self.pack_size,
        }
    }
}

impl Default for GlobalConfig {
    fn default() -> (r: GlobalConfig)
        ensures
            r.deep_view() == (GlobalConfigView {
                merge: None,
                passwd: None,
                restic_home_path: None,
                tag: None,
                pack_size: None,
            }),
    {
        GlobalConfig { merge: None, passwd: None, restic_home_path: None, tag: None, pack_size: None }
    }
}

/// The entry's value where it has one, else the global one, else the empty text.
pub open spec fn layered_text(local: Option<Seq<char>>, global: Option<Seq<char>>) -> Seq<char> {
    match local {
        Some(s) => s,
        None => match global {
            Some(s) => s,
            None => Seq::empty(),
        },
    }
}

/// The workspace name of an entry that states none.
pub open spec fn default_merge_name() -> Seq<char> {
    "merged_backup"@
}

/// The pack size, in MiB, of a job for which none is configured.
pub const DEFAULT_PACK_SIZE: i64 = 128;

/// The least pack size, in MiB, that the tool takes.
pub const MIN_PACK_SIZE: i64 = 16;

/// The greatest pack size, in MiB, that the tool takes.
pub const MAX_PACK_SIZE: i64 = 128;

/// The configured pack size brought into the range that the tool takes: the
/// entry's value where it has one, else the global one, else the default.
pub open spec fn layered_pack_size(local: Option<i64>, global: Option<i64>) -> u64 {
    let stated = match local {
        Some(n) => n,
        None => match global {
            Some(n) => n,
            None => DEFAULT_PACK_SIZE,
        },
    };
    if stated < MIN_PACK_SIZE {
        MIN_PACK_SIZE as u64
    } else if stated > MAX_PACK_SIZE {
        MAX_PACK_SIZE as u64
    } else {
        stated as u64
    }
}

/// The merge setting: the entry's where it has one, else the global one;
/// where neither states it, an entry with more than one path merges.
pub open spec fn layered_merge(local: Option<i64>, global: Option<i64>, paths: nat) -> i64 {
    match local {
        Some(m) => m,
        None => match global {
            Some(m) => m,
            None => if paths > 1 {
                1
            } else {
                0
            },
        },
    }
}

/// The job that the entry `cfg`, filed under `key`, resolves to.
pub open spec fn resolve_entry(
    global: GlobalConfigView,
    key: Seq<char>,
    cfg: TomlConfigView,
) -> FinalConfigView {
    let path = match cfg.path {
        Some(p) => p,
        None => Seq::empty(),
    };
    FinalConfigView {
        key_name: key,
        name: match cfg.name {
            Some(n) => n,
            None => key,
        },
        path,
        tag: layered_text(cfg.tag, global.tag),
        passwd: layered_text(cfg.passwd, global.passwd),
        restic_home_path: layered_text(cfg.restic_home_path, global.restic_home_path),
        merge: layered_merge(cfg.merge, global.merge, path.len()),
        merge_name: match cfg.merge_name {
            Some(n) => n,
            None => default_merge_name(),
        },
        pack_size: layered_pack_size(cfg.pack_size, global.pack_size),
    }
}

fn pick_text(local: &Option<String>, global: &Option<String>) -> (r: String)
    ensures
        r@ == layered_text(local.deep_view(), global.deep_view()),
{
    match local {
        Some(s) => s.clone(),
        None => match global {
            Some(s) => s.clone(),
            None => String::new(),
        },
    }
}

fn pick_pack_size(local: Option<i64>, global: Option<i64>) -> (r: u64)
    ensures
        r == layered_pack_size(local, global),
{
    let stated: i64 = match local {
        Some(n) => n,
        None => match global {
            Some(n) => n,
            None => DEFAULT_PACK_SIZE,
        },
    };
    if stated < MIN_PACK_SIZE {
        MIN_PACK_SIZE as u64
    } else if stated > MAX_PACK_SIZE {
        MAX_PACK_SIZE as u64
    } else {
        stated as u64
    }
}

/// A copy of a list of texts.
pub fn copy_texts(v: &Vec<String>) -> (r: Vec<String>)
    ensures
        r.deep_view() == v.deep_view(),
{
    let mut r: Vec<String> = Vec::new();
    let mut i: usize = 0;
    while i < v.len()
        invariant
            i <= v.len(),
            r.deep_view() == v.deep_view().take(i as int),
        decreases v.len() - i,
    {
        let ghost before = r;
        let s = v[i].clone();
        r.push(s);
        proof {
            lemma_deep_view_push(before, r, s);
            assert(v.deep_view().take(i + 1) == v.deep_view().take(i as int).push(v@[i as int]@));
        }
        i = i + 1;
    }
    assert(v.deep_view().take(v.len() as int) == v.deep_view());
    r
}

impl FinalConfig {
    /// Resolves the entry `cfg`, filed under `key`, against the global section.
    pub fn resolve(global: &GlobalConfig, key: &str, cfg: &TomlConfig) -> (r: FinalConfig)
        ensures
            r.deep_view() == resolve_entry(global.deep_view(), key@, cfg.deep_view()),
    {
        let path = match &cfg.path {
            Some(p) => copy_texts(p),
            None => {
                let empty: Vec<String> = Vec::new();
                assert(empty.deep_view() == Seq::<Seq<char>>::empty());
                empty
            },
        };
        let merge: i64 = match cfg.merge {
            Some(m) => m,
            None => match global.merge {
                Some(m) => m,
                None => if path.len() > 1 {
                    1
                } else {
                    0
                },
            },
        };
        FinalConfig {
            key_name: String::from_str(key),
            name: match &cfg.name {
                Some(n) => n.clone(),
                None => String::from_str(key),
            },
            path,
            tag: pick_text(&cfg.tag, &global.tag),
            passwd: pick_text(&cfg.passwd, &global.passwd),
            restic_home_path: pick_text(&cfg.restic_home_path, &global.restic_home_path),
            merge,
            merge_name: match &cfg.merge_name {
                Some(n) => n.clone(),
                None => String::from_str("merged_backup"),
            },
            pack_size: pick_pack_size(cfg.pack_size, global.pack_size),
        }
    }

    /// A copy of this job.
    pub fn duplicate(&self) -> (r: FinalConfig)
        ensures
            r.deep_view() == self.deep_view(),
    {
        FinalConfig {
            key_name: self.key_name.clone(),
            name: self.name.clone(),
            path: copy_texts(&self.path),
            tag: self.tag.clone(),
            passwd: self.passwd.clone(),
            restic_home_path: self.restic_home_path.clone(),
            merge: self.merge,
            merge_name: self.merge_name.clone(),
            pack_size: self.pack_size,
        }
    }

    /// Whether the job stages its paths into one workspace.
    pub fn merge_mode(&self) -> (r: bool)
        ensures
            r == (self.merge == 1),
    {
        self.merge == 1
    }
}

/// What is wrong with one field of one entry.
#[derive(Debug, Clone, PartialEq, Eq)]
pub enum Fault {
    /// The entry names no source path.
    EmptyPath,
    /// Neither the entry nor the global section gives a secret.
    EmptyPasswd,
    /// Neither the entry nor the global section gives a repository root.
    EmptyResticHomePath,
    /// The merge setting is neither 0 nor 1.
    MergeOutOfRange,
    /// This source path is not on disk.
    MissingSource(String),
    /// The restore job names no repository.
    EmptyRepo,
    /// The restore job names no target.
    EmptyTarget,
    /// An entry before this one has the same name.
    RepeatedName,
}

/// The model of a [`Fault`].
pub enum FaultView {
    EmptyPath,
    EmptyPasswd,
    EmptyResticHomePath,
    MergeOutOfRange,
    MissingSource(Seq<char>),
    EmptyRepo,
    EmptyTarget,
    RepeatedName,
}

impl DeepView for Fault {
    type V = FaultView;

    open spec fn deep_view(&self) -> FaultView {
        match self {
            Fault::EmptyPath => FaultView::EmptyPath,
            Fault::EmptyPasswd => FaultView::EmptyPasswd,
            Fault::EmptyResticHomePath => FaultView::EmptyResticHomePath,
            Fault::MergeOutOfRange => FaultView::MergeOutOfRange,
            Fault::MissingSource(p) => FaultView::MissingSource(p@),
            Fault::EmptyRepo => FaultView::EmptyRepo,
            Fault::EmptyTarget => FaultView::EmptyTarget,
            Fault::RepeatedName => FaultView::RepeatedName,
        }
    }
}

/// One violation found while validating a document: the entry and the fault.
#[derive(Debug, Clone, PartialEq, Eq)]
pub struct Violation {
    pub entry: String,
    pub fault: Fault,
}

/// The model of a [`Violation`].
pub struct ViolationView {
    pub entry: Seq<char>,
    pub fault: FaultView,
}

impl DeepView for Violation {
    type V = ViolationView;

    open spec fn deep_view(&self) -> ViolationView {
        ViolationView { entry: self.entry@, fault: self.fault.deep_view() }
    }
}

/// The kind of document that was validated.
#[derive(Clone, Copy, Debug, PartialEq, Eq, Structural)]
pub enum Document {
    Backup,
    Restore,
}

/// Why a document yields no jobs.
#[derive(Debug, Clone, PartialEq, Eq)]
pub enum ConfigError {
    /// Some entries break a rule; every violation of every entry is listed,
    /// entry by entry in the order of the document.
    Invalid { document: Document, violations: Vec<Violation> },
    /// The document holds no entry.
    NoEntries { document: Document },
}

/// The model of a [`ConfigError`].
pub enum ConfigErrorView {
    Invalid { document: Document, violations: Seq<ViolationView> },
    NoEntries { document: Document },
}

impl DeepView for ConfigError {
    type V = ConfigErrorView;

    open spec fn deep_view(&self) -> ConfigErrorView {
        match self {
            ConfigError::Invalid { document, violations } => ConfigErrorView::Invalid {
                document: *document,
                violations: violations.deep_view(),
            },
            ConfigError::NoEntries { document } => ConfigErrorView::NoEntries {
                document: *document,
            },
        }
    }
}

/// `one` where `present` holds, else nothing.
pub open spec fn when(present: bool, one: ViolationView) -> Seq<ViolationView> {
    if present {
        seq![one]
    } else {
        Seq::empty()
    }
}

/// The violations of a backup job that its own fields show, in the order
/// path, secret, repository root, merge setting.
pub open spec fn field_violations(cfg: FinalConfigView) -> Seq<ViolationView> {
    when(cfg.path.len() == 0, ViolationView { entry: cfg.key_name, fault: FaultView::EmptyPath })
        + when(
        cfg.passwd.len() == 0,
        ViolationView { entry: cfg.key_name, fault: FaultView::EmptyPasswd },
    ) + when(
        cfg.restic_home_path.len() == 0,
        ViolationView { entry: cfg.key_name, fault: FaultView::EmptyResticHomePath },
    ) + when(
        cfg.merge != 0 && cfg.merge != 1,
        ViolationView { entry: cfg.key_name, fault: FaultView::MergeOutOfRange },
    )
}

/// One violation for each of `paths` that is among `missing`, in the order of `paths`.
pub open spec fn missing_sources(
    entry: Seq<char>,
    paths: Seq<Seq<char>>,
    missing: Seq<Seq<char>>,
) -> Seq<ViolationView>
    decreases paths.len(),
{
    if paths.len() == 0 {
        Seq::empty()
    } else {
        missing_sources(entry, paths.drop_last(), missing) + when(
            missing.contains(paths.last()),
            ViolationView { entry, fault: FaultView::MissingSource(paths.last()) },
        )
    }
}

/// Every violation of one backup job; `missing` holds the paths that are not on disk.
pub open spec fn entry_violations(cfg: FinalConfigView, missing: Seq<Seq<char>>) -> Seq<
    ViolationView,
> {
    field_violations(cfg) + missing_sources(cfg.key_name, cfg.path, missing)
}

/// The names of the first `i` jobs.
pub open spec fn earlier_names(configs: Seq<FinalConfigView>, i: int) -> Seq<Seq<char>> {
    Seq::new(i as nat, |k: int| configs[k].key_name)
}

/// Every violation of the job at `i` among the jobs of a document: that
/// its name is that of a job before it, then those of its own fields.
pub open spec fn job_violations(
    configs: Seq<FinalConfigView>,
    missing: Seq<Seq<char>>,
    i: int,
) -> Seq<ViolationView> {
    when(
        earlier_names(configs, i).contains(configs[i].key_name),
        ViolationView { entry: configs[i].key_name, fault: FaultView::RepeatedName },
    ) + entry_violations(configs[i], missing)
}

/// Every violation of every job, job by job.
pub open spec fn all_violations(configs: Seq<FinalConfigView>, missing: Seq<Seq<char>>) -> Seq<
    ViolationView,
>
    decreases configs.len(),
{
    if configs.len() == 0 {
        Seq::empty()
    } else {
        all_violations(configs.drop_last(), missing) + job_violations(
            configs,
            missing,
            configs.len() - 1,
        )
    }
}

/// The jobs that the entries of a document resolve to, in the document's order.
pub open spec fn resolve_entries(
    global: GlobalConfigView,
    entries: Seq<(Seq<char>, TomlConfigView)>,
) -> Seq<FinalConfigView> {
    Seq::new(entries.len(), |i: int| resolve_entry(global, entries[i].0, entries[i].1))
}

/// What a backup document yields: its jobs where no entry breaks a rule and
/// there is at least one; else every violation, or the lack of entries. A
/// name that occurs a second time is a violation of the entry that repeats
/// it.
pub open spec fn resolve_document(
    global: GlobalConfigView,
    entries: Seq<(Seq<char>, TomlConfigView)>,
    missing: Seq<Seq<char>>,
) -> Result<Seq<FinalConfigView>, ConfigErrorView> {
    let configs = resolve_entries(global, entries);
    let violations = all_violations(configs, missing);
    if violations.len() > 0 {
        Err(ConfigErrorView::Invalid { document: Document::Backup, violations })
    } else if configs.len() == 0 {
        Err(ConfigErrorView::NoEntries { document: Document::Backup })
    } else {
        Ok(configs)
    }
}

/// Whether `list` holds `s`.
pub fn holds_text(list: &Vec<String>, s: &str) -> (r: bool)
    ensures
        r == list.deep_view().contains(s@),
{
    let mut i: usize = 0;
    while i < list.len()
        invariant
            i <= list.len(),
            forall|k: int| 0 <= k < i ==> list.deep_view()[k] != s@,
        decreases list.len() - i,
    {
        if same_text(list[i].as_str(), s) {
            assert(list.deep_view()[i as int] == s@);
            return true;
        }
        i = i + 1;
    }
    false
}

fn push_violation(out: &mut Vec<Violation>, present: bool, entry: &String, fault: Fault)
    ensures
        final(out).deep_view() == old(out).deep_view() + when(
            present,
            ViolationView { entry: entry@, fault: fault.deep_view() },
        ),
{
    if present {
        let ghost before = *out;
        let v = Violation { entry: entry.clone(), fault };
        out.push(v);
        proof {
            lemma_deep_view_push(before, *out, v);
            assert(before.deep_view().push(v.deep_view()) == before.deep_view() + seq![
                v.deep_view(),
            ]);
        }
    } else {
        assert(out.deep_view() + Seq::<ViolationView>::empty() == out.deep_view());
    }
}

impl FinalConfig {
    /// Appends every violation of this job to `out`; `missing` holds the
    /// paths that are not on disk.
    pub fn validate(&self, missing: &Vec<String>, out: &mut Vec<Violation>)
        ensures
            final(out).deep_view() == old(out).deep_view() + entry_violations(
                self.deep_view(),
                missing.deep_view(),
            ),
    {
        let ghost start = out.deep_view();
        let ghost me = self.deep_view();
        push_violation(out, self.path.len() == 0, &self.key_name, Fault::EmptyPath);
        push_violation(out, self.passwd.as_str().is_empty(), &self.key_name, Fault::EmptyPasswd);
        push_violation(
            out,
            self.restic_home_path.as_str().is_empty(),
            &self.key_name,
            Fault::EmptyResticHomePath,
        );
        push_violation(
            out,
            self.merge != 0 && self.merge != 1,
            &self.key_name,
            Fault::MergeOutOfRange,
        );
        assert(out.deep_view() == start + field_violations(me));
        let mut i: usize = 0;
        assert(me.path.take(0) == Seq::<Seq<char>>::empty());
        assert(start + field_violations(me) + Seq::<ViolationView>::empty() == start
            + field_violations(me));
        while i < self.path.len()
            invariant
                i <= self.path.len(),
                me == self.deep_view(),
                out.deep_view() == start + field_violations(me) + missing_sources(
                    me.key_name,
                    me.path.take(i as int),
                    missing.deep_view(),
                ),
            decreases self.path.len() - i,
        {
            let absent = holds_text(missing, self.path[i].as_str());
            let ghost before = out.deep_view();
            push_violation(out, absent, &self.key_name, Fault::MissingSource(self.path[i].clone()));
            proof {
                assert(me.path.take(i + 1).drop_last() == me.path.take(i as int));
                assert(me.path.take(i + 1).last() == self.path@[i as int]@);
                let done = missing_sources(me.key_name, me.path.take(i as int), missing.deep_view());
                let one = when(
                    absent,
                    ViolationView {
                        entry: me.key_name,
                        fault: FaultView::MissingSource(self.path@[i as int]@),
                    },
                );
                assert(start + field_violations(me) + done + one == start + field_violations(me) + (
                done + one));
            }
            i = i + 1;
        }
        proof {
            assert(me.path.take(self.path.len() as int) == me.path);
            let tail = missing_sources(me.key_name, me.path, missing.deep_view());
            assert(start + field_violations(me) + tail == start + (field_violations(me) + tail));
        }
    }
}

/// The model of what resolving a backup document gave.
pub open spec fn resolved_view(r: Result<Vec<FinalConfig>, ConfigError>) -> Result<
    Seq<FinalConfigView>,
    ConfigErrorView,
> {
    match r {
        Ok(configs) => Ok(configs.deep_view()),
        Err(e) => Err(e.deep_view()),
    }
}

/// Resolves and validates a backup document. `entries` are the named
/// entries in the order in which they are to run; `missing` holds the source
/// paths that are not on disk.
pub fn parse_toml(
    global: &GlobalConfig,
    entries: &Vec<(String, TomlConfig)>,
    missing: &Vec<String>,
) -> (r: Result<Vec<FinalConfig>, ConfigError>)
    ensures
        resolved_view(r) == resolve_document(
            global.deep_view(),
            entries.deep_view(),
            missing.deep_view(),
        ),
{
    let ghost all = resolve_entries(global.deep_view(), entries.deep_view());
    let mut configs: Vec<FinalConfig> = Vec::new();
    let mut names: Vec<String> = Vec::new();
    let mut violations: Vec<Violation> = Vec::new();
    let mut i: usize = 0;
    assert(all.take(0) == Seq::<FinalConfigView>::empty());
    assert(configs.deep_view() == all.take(0));
    assert(names.deep_view() == earlier_names(all, 0));
    assert(violations.deep_view() == Seq::<ViolationView>::empty());
    while i < entries.len()
        invariant
            i <= entries.len(),
            all == resolve_entries(global.deep_view(), entries.deep_view()),
            configs.deep_view() == all.take(i as int),
            names.deep_view() == earlier_names(all, i as int),
            violations.deep_view() == all_violations(all.take(i as int), missing.deep_view()),
        decreases entries.len() - i,
    {
        let cfg = FinalConfig::resolve(global, entries[i].0.as_str(), &entries[i].1);
        proof {
            assert(entries.deep_view()[i as int] == (
                entries@[i as int].0@,
                entries@[i as int].1.deep_view(),
            ));
            assert(all[i as int] == cfg.deep_view());
            assert(all.take(i + 1) == all.take(i as int).push(all[i as int]));
            assert(all.take(i + 1).drop_last() == all.take(i as int));
            assert(earlier_names(all.take(i + 1), i as int) == earlier_names(all, i as int));
        }
        let repeated = holds_text(&names, cfg.key_name.as_str());
        let ghost start = violations.deep_view();
        push_violation(&mut violations, repeated, &cfg.key_name, Fault::RepeatedName);
        cfg.validate(missing, &mut violations);
        proof {
            let one = when(
                repeated,
                ViolationView { entry: cfg.key_name@, fault: FaultView::RepeatedName },
            );
            let own = entry_violations(cfg.deep_view(), missing.deep_view());
            assert(start + one + own == start + (one + own));
        }
        push_text(&mut names, cfg.key_name.clone());
        let ghost before = configs;
        configs.push(cfg);
        proof {
            lemma_deep_view_push(before, configs, cfg);
            assert(earlier_names(all, i + 1) == earlier_names(all, i as int).push(
                all[i as int].key_name,
            ));
        }
        i = i + 1;
    }
    assert(all.take(entries.len() as int) == all);
    if violations.len() > 0 {
        Err(ConfigError::Invalid { document: Document::Backup, violations })
    } else if configs.len() == 0 {
        Err(ConfigError::NoEntries { document: Document::Backup })
    } else {
        Ok(configs)
    }
}

/// One restore job as the configuration document states it.
#[derive(Debug, Clone, PartialEq, Eq)]
pub struct RestoreJob {
    pub repo: Option<String>,
    pub target: Option<String>,
    pub passwd: Option<String>,
    pub snapshots: Option<String>,
    pub restore_path: Option<String>,
}

/// The global section of a restore document.
#[derive(Debug, Clone, PartialEq, Eq)]
pub struct GlobalRestoreConfig {
    pub passwd: Option<String>,
}

/// A restore job with every field resolved.
#[derive(Debug, Clone, PartialEq, Eq)]
pub struct FinalRestoreConfig {
    pub job_name: String,
    pub repo: String,
    pub target: String,
    pub passwd: String,
    /// `latest`, `all`, or id prefixes separated by commas.
    pub snapshots: String,
    /// The end of a recorded path; only what lies below it is restored.
    pub restore_path: Option<String>,
}

/// The model of a [`RestoreJob`].
pub struct RestoreJobView {
    pub repo: Option<Seq<char>>,
    pub target: Option<Seq<char>>,
    pub passwd: Option<Seq<char>>,
    pub snapshots: Option<Seq<char>>,
    pub restore_path: Option<Seq<char>>,
}

/// The model of a [`GlobalRestoreConfig`].
pub struct GlobalRestoreConfigView {
    pub passwd: Option<Seq<char>>,
}

/// The model of a [`FinalRestoreConfig`].
pub struct FinalRestoreConfigView {
    pub job_name: Seq<char>,
    pub repo: Seq<char>,
    pub target: Seq<char>,
    pub passwd: Seq<char>,
    pub snapshots: Seq<char>,
    pub restore_path: Option<Seq<char>>,
}

impl DeepView for RestoreJob {
    type V = RestoreJobView;

    open spec fn deep_view(&self) -> RestoreJobView {
        RestoreJobView {
            repo: self.repo.deep_view(),
            target: self.target.deep_view(),
            passwd: self.passwd.deep_view(),
            snapshots: self.snapshots.deep_view(),
            restore_path: self.restore_path.deep_view(),
        }
    }
}

impl DeepView for GlobalRestoreConfig {
    type V = GlobalRestoreConfigView;

    open spec fn deep_view(&self) -> GlobalRestoreConfigView {
        GlobalRestoreConfigView { passwd: self.passwd.deep_view() }
    }
}

impl DeepView for FinalRestoreConfig {
    type V = FinalRestoreConfigView;

    open spec fn deep_view(&self) -> FinalRestoreConfigView {
        FinalRestoreConfigView {
            job_name: self.job_name@,
            repo: self.repo@,
            target: self.target@,
            passwd: self.passwd@,
            snapshots: self.snapshots@,
            restore_path: self.restore_path.deep_view(),
        }
    }
}

impl Default for GlobalRestoreConfig {
    fn default() -> (r: GlobalRestoreConfig)
        ensures
            r.deep_view() == (GlobalRestoreConfigView { passwd: None }),
    {
        GlobalRestoreConfig { passwd: None }
    }
}

/// The selector of a job that states none.
pub open spec fn default_selector() -> Seq<char> {
    "latest"@
}

/// The job that the entry `job`, filed under `name`, resolves to.
pub open spec fn resolve_restore_entry(
    global: GlobalRestoreConfigView,
    name: Seq<char>,
    job: RestoreJobView,
) -> FinalRestoreConfigView {
    FinalRestoreConfigView {
        job_name: name,
        repo: layered_text(job.repo, None),
        target: layered_text(job.target, None),
        passwd: layered_text(job.passwd, global.passwd),
        snapshots: match job.snapshots {
            Some(s) => s,
            None => default_selector(),
        },
        restore_path: job.restore_path,
    }
}

/// Every violation that the fields of one restore job show, in the order
/// repository, target, secret. Whether the repository is there and in
/// order is found out when the job runs, and fails that job alone.
pub open spec fn restore_violations(cfg: FinalRestoreConfigView) -> Seq<ViolationView> {
    when(cfg.repo.len() == 0, ViolationView { entry: cfg.job_name, fault: FaultView::EmptyRepo })
        + when(
        cfg.target.len() == 0,
        ViolationView { entry: cfg.job_name, fault: FaultView::EmptyTarget },
    ) + when(
        cfg.passwd.len() == 0,
        ViolationView { entry: cfg.job_name, fault: FaultView::EmptyPasswd },
    )
}

/// The names of the first `i` restore jobs.
pub open spec fn earlier_restore_names(configs: Seq<FinalRestoreConfigView>, i: int) -> Seq<
    Seq<char>,
> {
    Seq::new(i as nat, |k: int| configs[k].job_name)
}

/// Every violation of the restore job at `i` among the jobs of a
/// document: that its name is that of a job before it, then those of its
/// own fields.
pub open spec fn restore_job_violations(configs: Seq<FinalRestoreConfigView>, i: int) -> Seq<
    ViolationView,
> {
    when(
        earlier_restore_names(configs, i).contains(configs[i].job_name),
        ViolationView { entry: configs[i].job_name, fault: FaultView::RepeatedName },
    ) + restore_violations(configs[i])
}

/// Every violation of every restore job, job by job.
pub open spec fn all_restore_violations(configs: Seq<FinalRestoreConfigView>) -> Seq<ViolationView>
    decreases configs.len(),
{
    if configs.len() == 0 {
        Seq::empty()
    } else {
        all_restore_violations(configs.drop_last()) + restore_job_violations(
            configs,
            configs.len() - 1,
        )
    }
}

/// The jobs that the entries of a restore document resolve to, in the document's order.
pub open spec fn resolve_restore_entries(
    global: GlobalRestoreConfigView,
    entries: Seq<(Seq<char>, RestoreJobView)>,
) -> Seq<FinalRestoreConfigView> {
    Seq::new(entries.len(), |i: int| resolve_restore_entry(global, entries[i].0, entries[i].1))
}

/// What a restore document yields: its jobs where no entry breaks a rule
/// and there is at least one; else every violation, or the lack of entries.
pub open spec fn resolve_restore_document(
    global: GlobalRestoreConfigView,
    entries: Seq<(Seq<char>, RestoreJobView)>,
) -> Result<Seq<FinalRestoreConfigView>, ConfigErrorView> {
    let configs = resolve_restore_entries(global, entries);
    let violations = all_restore_violations(configs);
    if violations.len() > 0 {
        Err(ConfigErrorView::Invalid { document: Document::Restore, violations })
    } else if configs.len() == 0 {
        Err(ConfigErrorView::NoEntries { document: Document::Restore })
    } else {
        Ok(configs)
    }
}

fn copy_optional(s: &Option<String>) -> (r: Option<String>)
    ensures
        r.deep_view() == s.deep_view(),
{
    match s {
        Some(t) => Some(t.clone()),
        None => None,
    }
}

impl FinalRestoreConfig {
    /// Resolves the entry `job`, filed under `name`, against the global section.
    pub fn resolve(global: &GlobalRestoreConfig, name: &str, job: &RestoreJob) -> (r:
        FinalRestoreConfig)
        ensures
            r.deep_view() == resolve_restore_entry(global.deep_view(), name@, job.deep_view()),
    {
        FinalRestoreConfig {
            job_name: String::from_str(name),
            repo: pick_text(&job.repo, &None),
            target: pick_text(&job.target, &None),
            passwd: pick_text(&job.passwd, &global.passwd),
            snapshots: match &job.snapshots {
                Some(s) => s.clone(),
                None => String::from_str("latest"),
            },
            restore_path: copy_optional(&job.restore_path),
        }
    }

    /// Appends every violation that the fields of this job show to `out`.
    pub fn validate(&self, out: &mut Vec<Violation>)
        ensures
            final(out).deep_view() == old(out).deep_view() + restore_violations(self.deep_view()),
    {
        let ghost start = out.deep_view();
        push_violation(out, self.repo.as_str().is_empty(), &self.job_name, Fault::EmptyRepo);
        push_violation(out, self.target.as_str().is_empty(), &self.job_name, Fault::EmptyTarget);
        push_violation(out, self.passwd.as_str().is_empty(), &self.job_name, Fault::EmptyPasswd);
        assert(out.deep_view() == start + restore_violations(self.deep_view()));
    }

    /// A copy of this job.
    pub fn duplicate(&self) -> (r: FinalRestoreConfig)
        ensures
            r.deep_view() == self.deep_view(),
    {
        FinalRestoreConfig {
            job_name: self.job_name.clone(),
            repo: self.repo.clone(),
            target: self.target.clone(),
            passwd: self.passwd.clone(),
            snapshots: self.snapshots.clone(),
            restore_path: copy_optional(&self.restore_path),
        }
    }
}

/// The model of what resolving a restore document gave.
pub open spec fn resolved_restore_view(r: Result<Vec<FinalRestoreConfig>, ConfigError>) -> Result<
    Seq<FinalRestoreConfigView>,
    ConfigErrorView,
> {
    match r {
        Ok(configs) => Ok(configs.deep_view()),
        Err(e) => Err(e.deep_view()),
    }
}

/// Resolves and validates a restore document. `entries` are the named jobs
/// in the order in which they are to run.
pub fn parse_restore_toml(global: &GlobalRestoreConfig, entries: &Vec<(String, RestoreJob)>) -> (r:
    Result<Vec<FinalRestoreConfig>, ConfigError>)
    ensures
        resolved_restore_view(r) == resolve_restore_document(
            global.deep_view(),
            entries.deep_view(),
        ),
{
    let ghost all = resolve_restore_entries(global.deep_view(), entries.deep_view());
    let mut configs: Vec<FinalRestoreConfig> = Vec::new();
    let mut names: Vec<String> = Vec::new();
    let mut violations: Vec<Violation> = Vec::new();
    let mut i: usize = 0;
    assert(all.take(0) == Seq::<FinalRestoreConfigView>::empty());
    assert(configs.deep_view() == all.take(0));
    assert(names.deep_view() == earlier_restore_names(all, 0));
    assert(violations.deep_view() == Seq::<ViolationView>::empty());
    while i < entries.len()
        invariant
            i <= entries.len(),
            all == resolve_restore_entries(global.deep_view(), entries.deep_view()),
            configs.deep_view() == all.take(i as int),
            names.deep_view() == earlier_restore_names(all, i as int),
            violations.deep_view() == all_restore_violations(all.take(i as int)),
        decreases entries.len() - i,
    {
        let cfg = FinalRestoreConfig::resolve(global, entries[i].0.as_str(), &entries[i].1);
        proof {
            assert(entries.deep_view()[i as int] == (
                entries@[i as int].0@,
                entries@[i as int].1.deep_view(),
            ));
            assert(all[i as int] == cfg.deep_view());
            assert(all.take(i + 1) == all.take(i as int).push(all[i as int]));
            assert(all.take(i + 1).drop_last() == all.take(i as int));
            assert(earlier_restore_names(all.take(i + 1), i as int) == earlier_restore_names(
                all,
                i as int,
            ));
        }
        let repeated = holds_text(&names, cfg.job_name.as_str());
        let ghost start = violations.deep_view();
        push_violation(&mut violations, repeated, &cfg.job_name, Fault::RepeatedName);
        cfg.validate(&mut violations);
        proof {
            let one = when(
                repeated,
                ViolationView { entry: cfg.job_name@, fault: FaultView::RepeatedName },
            );
            let own = restore_violations(cfg.deep_view());
            assert(start + one + own == start + (one + own));
        }
        push_text(&mut names, cfg.job_name.clone());
        let ghost before = configs;
        configs.push(cfg);
        proof {
            lemma_deep_view_push(before, configs, cfg);
            assert(earlier_restore_names(all, i + 1) == earlier_restore_names(all, i as int).push(
                all[i as int].job_name,
            ));
        }
        i = i + 1;
    }
    assert(all.take(entries.len() as int) == all);
    if violations.len() > 0 {
        Err(ConfigError::Invalid { document: Document::Restore, violations })
    } else if configs.len() == 0 {
        Err(ConfigError::NoEntries { document: Document::Restore })
    } else {
        Ok(configs)
    }
}

/// What is said of a fault.
pub open spec fn fault_text(fault: FaultView) -> Seq<char> {
    match fault {
        FaultView::EmptyPath => "`path` 字段不能为空。"@,
        FaultView::EmptyPasswd => "`passwd` 字段不能为空 (全局或局部必须设置一个)。"@,
        FaultView::EmptyResticHomePath => "`restic_home_path` 字段不能为空 (全局或局部必须设置一个)。"@,
        FaultView::MergeOutOfRange => "`merge` 字段必须为 0 或 1。"@,
        FaultView::MissingSource(p) => "备份源路径 '"@ + p + "' 不存在。"@,
        FaultView::EmptyRepo => "`repo` 字段不能为空。"@,
        FaultView::EmptyTarget => "`target` 字段不能为空。"@,
        FaultView::RepeatedName => "配置项名称重复。"@,
    }
}

/// The line of a report that names one violation: the entry in square
/// brackets, the fault, a line end.
pub open spec fn violation_line(v: ViolationView) -> Seq<char> {
    "["@ + v.entry + "]: "@ + fault_text(v.fault) + "\n"@
}

/// The lines of a report, one for each violation.
pub open spec fn violation_lines(violations: Seq<ViolationView>) -> Seq<char>
    decreases violations.len(),
{
    if violations.len() == 0 {
        Seq::empty()
    } else {
        violation_lines(violations.drop_last()) + violation_line(violations.last())
    }
}

/// The report shown for a document that yields no jobs.
pub open spec fn describe_config_error(e: ConfigErrorView) -> Seq<char> {
    match e {
        ConfigErrorView::Invalid { document: Document::Backup, violations } => "配置文件验证失败:\n"@
            + violation_lines(violations),
        ConfigErrorView::Invalid { document: Document::Restore, violations } => "恢复配置文件验证失败:\n"@
            + violation_lines(violations),
        ConfigErrorView::NoEntries { document: Document::Backup } => "配置文件中未找到任何有效的 [config] 配置项。"@,
        ConfigErrorView::NoEntries { document: Document::Restore } => "恢复配置文件中未找到任何有效的 [restore_jobs] 配置项。"@,
    }
}

impl Fault {
    /// What is said of this fault.
    pub fn describe(&self) -> (r: String)
        ensures
            r@ == fault_text(self.deep_view()),
    {
        match self {
            Fault::EmptyPath => String::from_str("`path` 字段不能为空。"),
            Fault::EmptyPasswd => String::from_str("`passwd` 字段不能为空 (全局或局部必须设置一个)。"),
            Fault::EmptyResticHomePath => String::from_str(
                "`restic_home_path` 字段不能为空 (全局或局部必须设置一个)。",
            ),
            Fault::MergeOutOfRange => String::from_str("`merge` 字段必须为 0 或 1。"),
            Fault::MissingSource(p) => {
                let mut r = String::from_str("备份源路径 '");
                r.append(p.as_str());
                r.append("' 不存在。");
                r
            },
            Fault::EmptyRepo => String::from_str("`repo` 字段不能为空。"),
            Fault::EmptyTarget => String::from_str("`target` 字段不能为空。"),
            Fault::RepeatedName => String::from_str("配置项名称重复。"),
        }
    }
}

impl Violation {
    /// The line of a report that names this violation.
    pub fn describe(&self) -> (r: String)
        ensures
            r@ == violation_line(self.deep_view()),
    {
        let mut r = String::from_str("[");
        r.append(self.entry.as_str());
        r.append("]: ");
        r.append(self.fault.describe().as_str());
        r.append("\n");
        r
    }
}

impl ConfigError {
    /// The report shown for this error.
    pub fn describe(&self) -> (r: String)
        ensures
            r@ == describe_config_error(self.deep_view()),
    {
        match self {
            ConfigError::Invalid { document, violations } => {
                let mut r = match document {
                    Document::Backup => String::from_str("配置文件验证失败:\n"),
                    Document::Restore => String::from_str("恢复配置文件验证失败:\n"),
                };
                let ghost header = r@;
                let ghost all = violations.deep_view();
                let mut i: usize = 0;
                assert(all.take(0) == Seq::<ViolationView>::empty());
                assert(header + Seq::<char>::empty() == header);
                while i < violations.len()
                    invariant
                        i <= violations.len(),
                        all == violations.deep_view(),
                        r@ == header + violation_lines(all.take(i as int)),
                    decreases violations.len() - i,
                {
                    let line = violations[i].describe();
                    proof {
                        assert(all.take(i + 1).drop_last() == all.take(i as int));
                        assert(all.take(i + 1).last() == violations@[i as int].deep_view());
                        assert(header + violation_lines(all.take(i as int)) + line@ == header + (
                        violation_lines(all.take(i as int)) + line@));
                    }
                    r.append(line.as_str());
                    i = i + 1;
                }
                assert(all.take(violations.len() as int) == all);
                r
            },
            ConfigError::NoEntries { document } => match document {
                Document::Backup => String::from_str("配置文件中未找到任何有效的 [config] 配置项。"),
                Document::Restore => String::from_str(
                    "恢复配置文件中未找到任何有效的 [restore_jobs] 配置项。",
                ),
            },
        }
    }
}

/// Whatever the document: a field that the entry states is taken from the
/// entry, and a field that only the global section states is taken from
/// there. This holds of the tag, the secret, the repository root and the
/// merge setting of every job.
pub proof fn lemma_entry_overrides_global(
    global: GlobalConfigView,
    entries: Seq<(Seq<char>, TomlConfigView)>,
    i: int,
)
    requires
        0 <= i < entries.len(),
    ensures
        ({
            let cfg = entries[i].1;
            let job = resolve_entries(global, entries)[i];
            &&& cfg.tag matches Some(t) ==> job.tag == t
            &&& cfg.passwd matches Some(p) ==> job.passwd == p
            &&& cfg.restic_home_path matches Some(h) ==> job.restic_home_path == h
            &&& cfg.merge matches Some(m) ==> job.merge == m
            &&& cfg.tag is None && global.tag is Some ==> job.tag == global.tag->0
            &&& cfg.passwd is None && global.passwd is Some ==> job.passwd == global.passwd->0
            &&& cfg.restic_home_path is None && global.restic_home_path is Some
                ==> job.restic_home_path == global.restic_home_path->0
            &&& cfg.merge is None && global.merge is Some ==> job.merge == global.merge->0
        }),
{
}

/// Whatever the restore document: a job's own secret is taken where it
/// states one, else the global one.
pub proof fn lemma_restore_entry_overrides_global(
    global: GlobalRestoreConfigView,
    entries: Seq<(Seq<char>, RestoreJobView)>,
    i: int,
)
    requires
        0 <= i < entries.len(),
    ensures
        ({
            let job = resolve_restore_entries(global, entries)[i];
            &&& entries[i].1.passwd matches Some(p) ==> job.passwd == p
            &&& entries[i].1.passwd is None && global.passwd is Some ==> job.passwd
                == global.passwd->0
        }),
{
}

/// Where neither the entry nor the global section states the merge setting,
/// a job with more than one source path merges and a job with one does not.
pub proof fn lemma_merge_default(
    global: GlobalConfigView,
    entries: Seq<(Seq<char>, TomlConfigView)>,
    i: int,
)
    requires
        0 <= i < entries.len(),
        entries[i].1.merge is None,
        global.merge is None,
    ensures
        ({
            let job = resolve_entries(global, entries)[i];
            &&& job.path.len() > 1 ==> job.merge == 1
            &&& job.path.len() == 1 ==> job.merge == 0
        }),
{
}

/// The violations of the job at `i` stand together in the list of all
/// violations, after those of the jobs before it.
pub proof fn lemma_violations_of_entry(
    configs: Seq<FinalConfigView>,
    missing: Seq<Seq<char>>,
    i: int,
)
    requires
        0 <= i < configs.len(),
    ensures
        ({
            let before = all_violations(configs.take(i), missing);
            let own = job_violations(configs, missing, i);
            let all = all_violations(configs, missing);
            &&& before.len() + own.len() <= all.len()
            &&& all.subrange(before.len() as int, (before.len() + own.len()) as int) == own
        }),
    decreases configs.len(),
{
    let before = all_violations(configs.take(i), missing);
    let own = job_violations(configs, missing, i);
    let all = all_violations(configs, missing);
    let front = configs.drop_last();
    if i == configs.len() - 1 {
        assert(configs.take(i) == front);
        assert(all == before + own);
        assert(all.subrange(before.len() as int, (before.len() + own.len()) as int) == own);
    } else {
        lemma_violations_of_entry(front, missing, i);
        assert(front.take(i) == configs.take(i));
        assert(front[i] == configs[i]);
        assert(earlier_names(front, i) == earlier_names(configs, i));
        let shorter = all_violations(front, missing);
        assert(all == shorter + job_violations(configs, missing, configs.len() - 1));
        assert(all.subrange(before.len() as int, (before.len() + own.len()) as int) == shorter.subrange(
            before.len() as int,
            (before.len() + own.len()) as int,
        ));
    }
}

/// Validation does not stop at the first fault: whichever entry a violation
/// belongs to, and however many there are, the document is refused with a
/// report that holds that violation.
pub proof fn lemma_every_violation_reported(
    global: GlobalConfigView,
    entries: Seq<(Seq<char>, TomlConfigView)>,
    missing: Seq<Seq<char>>,
    i: int,
    v: ViolationView,
)
    requires
        0 <= i < entries.len(),
        job_violations(resolve_entries(global, entries), missing, i).contains(v),
    ensures
        resolve_document(global, entries, missing) matches Err(
            ConfigErrorView::Invalid { violations, .. },
        ) && violations.contains(v),
{
    let configs = resolve_entries(global, entries);
    let own = job_violations(configs, missing, i);
    let all = all_violations(configs, missing);
    let before = all_violations(configs.take(i), missing);
    lemma_violations_of_entry(configs, missing, i);
    let k = choose|k: int| 0 <= k < own.len() && own[k] == v;
    assert(all.subrange(before.len() as int, (before.len() + own.len()) as int)[k] == all[before.len() + k]);
    assert(all[before.len() + k] == v);
}

/// The report of a refused document holds as many violations as its
/// entries have between them.
pub proof fn lemma_violation_count(configs: Seq<FinalConfigView>, missing: Seq<Seq<char>>)
    ensures
        all_violations(configs, missing).len() == violation_count(configs, missing),
    decreases configs.len(),
{
    if configs.len() > 0 {
        lemma_violation_count(configs.drop_last(), missing);
    }
}

/// The number of violations that the jobs have between them.
pub open spec fn violation_count(configs: Seq<FinalConfigView>, missing: Seq<Seq<char>>) -> nat
    decreases configs.len(),
{
    if configs.len() == 0 {
        0
    } else {
        violation_count(configs.drop_last(), missing) + job_violations(
            configs,
            missing,
            configs.len() - 1,
        ).len()
    }
}

/// The violations of the restore job at `i` stand together in the list of
/// all violations, after those of the jobs before it.
pub proof fn lemma_violations_of_restore_entry(configs: Seq<FinalRestoreConfigView>, i: int)
    requires
        0 <= i < configs.len(),
    ensures
        ({
            let before = all_restore_violations(configs.take(i));
            let own = restore_job_violations(configs, i);
            let all = all_restore_violations(configs);
            &&& before.len() + own.len() <= all.len()
            &&& all.subrange(before.len() as int, (before.len() + own.len()) as int) == own
        }),
    decreases configs.len(),
{
    let before = all_restore_violations(configs.take(i));
    let own = restore_job_violations(configs, i);
    let all = all_restore_violations(configs);
    let front = configs.drop_last();
    if i == configs.len() - 1 {
        assert(configs.take(i) == front);
        assert(all == before + own);
        assert(all.subrange(before.len() as int, (before.len() + own.len()) as int) == own);
    } else {
        lemma_violations_of_restore_entry(front, i);
        assert(front.take(i) == configs.take(i));
        assert(front[i] == configs[i]);
        assert(earlier_restore_names(front, i) == earlier_restore_names(configs, i));
        let shorter = all_restore_violations(front);
        assert(all == shorter + restore_job_violations(configs, configs.len() - 1));
        assert(all.subrange(before.len() as int, (before.len() + own.len()) as int)
            == shorter.subrange(before.len() as int, (before.len() + own.len()) as int));
    }
}

/// Validation of a restore document does not stop at the first fault
/// either: whichever job a violation belongs to, the document is refused
/// with a report that holds that violation.
pub proof fn lemma_every_restore_violation_reported(
    global: GlobalRestoreConfigView,
    entries: Seq<(Seq<char>, RestoreJobView)>,
    i: int,
    v: ViolationView,
)
    requires
        0 <= i < entries.len(),
        restore_job_violations(resolve_restore_entries(global, entries), i).contains(v),
    ensures
        resolve_restore_document(global, entries) matches Err(
            ConfigErrorView::Invalid { violations, .. },
        ) && violations.contains(v),
{
    let configs = resolve_restore_entries(global, entries);
    let own = restore_job_violations(configs, i);
    let all = all_restore_violations(configs);
    let before = all_restore_violations(configs.take(i));
    lemma_violations_of_restore_entry(configs, i);
    let k = choose|k: int| 0 <= k < own.len() && own[k] == v;
    assert(all.subrange(before.len() as int, (before.len() + own.len()) as int)[k] == all[before.len()
        + k]);
    assert(all[before.len() + k] == v);
}

proof fn lemma_no_missing_source(entry: Seq<char>, paths: Seq<Seq<char>>, missing: Seq<Seq<char>>)
    requires
        missing_sources(entry, paths, missing).len() == 0,
    ensures
        forall|k: int| 0 <= k < paths.len() ==> !missing.contains(#[trigger] paths[k]),
    decreases paths.len(),
{
    if paths.len() > 0 {
        lemma_no_missing_source(entry, paths.drop_last(), missing);
        assert forall|k: int| 0 <= k < paths.len() implies !missing.contains(
            #[trigger] paths[k],
        ) by {
            if k < paths.len() - 1 {
                assert(paths.drop_last()[k] == paths[k]);
            }
        }
    }
}

/// Every job of a document that is accepted is fit to run: no job before
/// it has its name, it has a source path, a secret and a repository root,
/// its merge setting is 0 or 1, its pack size is one that the tool takes,
/// and each of its source paths is on disk.
pub proof fn lemma_accepted_jobs_are_valid(
    global: GlobalConfigView,
    entries: Seq<(Seq<char>, TomlConfigView)>,
    missing: Seq<Seq<char>>,
    i: int,
)
    requires
        resolve_document(global, entries, missing) is Ok,
        0 <= i < entries.len(),
    ensures
        ({
            let jobs = resolve_document(global, entries, missing)->Ok_0;
            &&& jobs.len() == entries.len()
            &&& jobs.len() > 0
            &&& jobs[i].key_name == entries[i].0
            &&& forall|k: int| 0 <= k < i ==> (#[trigger] jobs[k]).key_name != jobs[i].key_name
            &&& jobs[i].path.len() > 0
            &&& jobs[i].passwd.len() > 0
            &&& jobs[i].restic_home_path.len() > 0
            &&& jobs[i].merge == 0 || jobs[i].merge == 1
            &&& MIN_PACK_SIZE <= jobs[i].pack_size <= MAX_PACK_SIZE
            &&& forall|k: int|
                0 <= k < jobs[i].path.len() ==> !missing.contains(#[trigger] jobs[i].path[k])
        }),
{
    let jobs = resolve_entries(global, entries);
    lemma_violations_of_entry(jobs, missing, i);
    let own = job_violations(jobs, missing, i);
    assert(own.len() == 0);
    assert(entry_violations(jobs[i], missing).len() == 0);
    assert(field_violations(jobs[i]).len() == 0);
    lemma_no_missing_source(jobs[i].key_name, jobs[i].path, missing);
    assert forall|k: int| 0 <= k < i implies (#[trigger] jobs[k]).key_name
        != jobs[i].key_name by {
        assert(earlier_names(jobs, i)[k] == jobs[k].key_name);
    }
}

/// Every job of a restore document that is accepted has a name of its
/// own, a repository, a target and a secret. A repository that is not
/// there, or not in order, does not keep the document from being accepted:
/// it fails its job when the job runs, and no other.
pub proof fn lemma_accepted_restore_jobs_are_valid(
    global: GlobalRestoreConfigView,
    entries: Seq<(Seq<char>, RestoreJobView)>,
    i: int,
)
    requires
        resolve_restore_document(global, entries) is Ok,
        0 <= i < entries.len(),
    ensures
        ({
            let jobs = resolve_restore_document(global, entries)->Ok_0;
            &&& jobs.len() == entries.len()
            &&& jobs[i].job_name == entries[i].0
            &&& forall|k: int| 0 <= k < i ==> (#[trigger] jobs[k]).job_name != jobs[i].job_name
            &&& jobs[i].repo.len() > 0
            &&& jobs[i].target.len() > 0
            &&& jobs[i].passwd.len() > 0
        }),
{
    let jobs = resolve_restore_entries(global, entries);
    lemma_violations_of_restore_entry(jobs, i);
    assert(restore_job_violations(jobs, i).len() == 0);
    assert(restore_violations(jobs[i]).len() == 0);
    assert forall|k: int| 0 <= k < i implies (#[trigger] jobs[k]).job_name
        != jobs[i].job_name by {
        assert(earlier_restore_names(jobs, i)[k] == jobs[k].job_name);
    }
}

} // verus!
