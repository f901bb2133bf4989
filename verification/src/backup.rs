//! Backup creation: one snapshot for each selected application of a host.
//!
//! The work on one application is a fixed row of operations. This module
//! says which operation comes next and what follows from how the last one
//! went; carrying them out is left to the caller. An application whose
//! operation fails is marked as failed and the next application is taken
//! up: snapshots that were completed stay.

use crate::catalog::snapshot_path;
use crate::fstree::{lemma_name_leads_to_itself, FsNode};
use crate::hosts::Host;
use crate::planner::{lemma_latest_leads_to_newest, source_of};
use crate::registry::{profile_of, profiles, AppBackupConfig, AppProfile};
use crate::remote::{pull_text, systemctl_text, CommandLine, CommandText, ServiceAction};
use crate::moment::{has_a_stamp, is_stamp, moment_text, names_a_moment, stamp_of, stamp_now};
use crate::text::{
    digit_value, file_name_of, is_name, join_path, joined, lemma_joined_is_an_entry, names_entry, parent_of,
    text_eq, texts, trimmed_path,
};
use vstd::prelude::*;

verus! {

/// One operation of a snapshot, as plain text values.
pub enum BackupOpText {
    CreateDir { path: Seq<char> },
    Service { action: ServiceAction, service: Seq<char> },
    Pull { remote_path: Seq<char>, local_dir: Seq<char> },
    Measure { path: Seq<char> },
    PointLatest { link: Seq<char>, target: Seq<char> },
}

/// One operation of a snapshot.
#[derive(Debug)]
pub enum BackupOp {
    /// Create the local directory and what is missing above it.
    CreateDir { path: String },
    /// Start or stop the service on the host.
    Service { action: ServiceAction, service: String },
    /// Copy the remote path into the local directory.
    Pull { remote_path: String, local_dir: String },
    /// Scan the local directory and report its size.
    Measure { path: String },
    /// Replace the link at `link` by one that points to `target`.
    PointLatest { link: String, target: String },
}

impl View for BackupOp {
    type V = BackupOpText;

    open spec fn view(&self) -> BackupOpText {
        match self {
            BackupOp::CreateDir { path } => BackupOpText::CreateDir { path: path@ },
            BackupOp::Service { action, service } => BackupOpText::Service {
                action: *action,
                service: service@,
            },
            BackupOp::Pull { remote_path, local_dir } => BackupOpText::Pull {
                remote_path: remote_path@,
                local_dir: local_dir@,
            },
            BackupOp::Measure { path } => BackupOpText::Measure { path: path@ },
            BackupOp::PointLatest { link, target } => BackupOpText::PointLatest {
                link: link@,
                target: target@,
            },
        }
    }
}

/// The texts of a list of operations, in the same order.
pub open spec fn op_texts(ops: Seq<BackupOp>) -> Seq<BackupOpText> {
    Seq::new(ops.len(), |i: int| ops[i]@)
}

/// The service operation of an application, if it declares a service.
pub open spec fn service_op(profile: AppProfile, action: ServiceAction) -> Seq<BackupOpText> {
    match profile.service {
        Some(service) => seq![BackupOpText::Service { action, service }],
        None => Seq::empty(),
    }
}

/// One copy for each declared path, in the declared order.
pub open spec fn pull_ops(paths: Seq<Seq<char>>, local_dir: Seq<char>) -> Seq<BackupOpText> {
    Seq::new(
        paths.len(),
        |i: int| BackupOpText::Pull { remote_path: paths[i], local_dir },
    )
}

/// The operations of one snapshot, in the order in which they are carried
/// out: make the directory, stop the service, copy each path, start the
/// service, measure, and only then point `latest` at the snapshot.
pub open spec fn snapshot_ops(
    dest: Seq<char>,
    host: Seq<char>,
    profile: AppProfile,
    stamp: Seq<char>,
) -> Seq<BackupOpText> {
    let dir = snapshot_path(dest, host, profile.name, stamp);
    seq![BackupOpText::CreateDir { path: dir }] + service_op(profile, ServiceAction::Stop)
        + pull_ops(profile.paths, dir) + service_op(profile, ServiceAction::Start) + seq![
        BackupOpText::Measure { path: dir },
        BackupOpText::PointLatest {
            link: joined(joined(joined(dest, host), profile.name), "latest"@),
            target: stamp,
        },
    ]
}

/// Lists the operations of one snapshot.
pub fn snapshot_operations(dest: &str, host: &str, config: &AppBackupConfig, stamp: &str) -> (r:
    Vec<BackupOp>)
    ensures
        op_texts(r@) == snapshot_ops(dest@, host@, config@, stamp@),
{
    let host_dir = join_path(dest, host);
    let app_dir = join_path(host_dir.as_str(), config.name);
    let dir = join_path(app_dir.as_str(), stamp);
    let mut ops: Vec<BackupOp> = Vec::new();
    ops.push(BackupOp::CreateDir { path: dir.clone() });
    match config.systemd_service {
        Some(service) => {
            ops.push(
                BackupOp::Service {
                    action: ServiceAction::Stop,
                    service: String::from_str(service),
                },
            );
        },
        None => {},
    }
    let ghost head = op_texts(ops@);
    assert(head =~= seq![BackupOpText::CreateDir { path: dir@ }] + service_op(
        config@,
        ServiceAction::Stop,
    ));
    let mut i: usize = 0;
    while i < config.paths.len()
        invariant
            i <= config.paths.len(),
            op_texts(ops@) == head + pull_ops(config@.paths, dir@).take(i as int),
        decreases config.paths.len() - i,
    {
        let ghost earlier = op_texts(ops@);
        ops.push(
            BackupOp::Pull {
                remote_path: String::from_str(config.paths[i]),
                local_dir: dir.clone(),
            },
        );
        assert(op_texts(ops@) =~= earlier.push(pull_ops(config@.paths, dir@)[i as int]));
        assert(op_texts(ops@) =~= head + pull_ops(config@.paths, dir@).take(i + 1));
        i = i + 1;
    }
    assert(pull_ops(config@.paths, dir@).take(i as int) =~= pull_ops(config@.paths, dir@));
    match config.systemd_service {
        Some(service) => {
            ops.push(
                BackupOp::Service {
                    action: ServiceAction::Start,
                    service: String::from_str(service),
                },
            );
        },
        None => {},
    }
    let link = join_path(app_dir.as_str(), "latest");
    ops.push(BackupOp::Measure { path: dir });
    ops.push(BackupOp::PointLatest { link, target: String::from_str(stamp) });
    assert(op_texts(ops@) =~= snapshot_ops(dest@, host@, config@, stamp@));
    ops
}

impl BackupOp {
    /// The command that carries out an operation on the host; `None` for
    /// an operation on the local file system.
    pub open spec fn command_text(self, host: Host, key: Seq<char>) -> Option<CommandText> {
        match self {
            BackupOp::Service { action, service } => Some(
                systemctl_text(host, key, action, service@),
            ),
            BackupOp::Pull { remote_path, local_dir } => Some(
                pull_text(host, key, remote_path@, local_dir@),
            ),
            _ => None,
        }
    }

    /// The command that carries out an operation on the host.
    pub fn command(&self, host: &Host, key: &str) -> (r: Option<CommandLine>)
        ensures
            match r {
                Some(c) => self.command_text(*host, key@) == Some(c@),
                None => self.command_text(*host, key@) is None,
            },
    {
        match self {
            BackupOp::Service { action, service } => Some(
                CommandLine::systemctl(host, key, *action, service.as_str()),
            ),
            BackupOp::Pull { remote_path, local_dir } => Some(
                CommandLine::pull(host, key, remote_path.as_str(), local_dir.as_str()),
            ),
            _ => None,
        }
    }
}

/// Why no application could be selected.
#[derive(Debug, Clone, Copy, PartialEq, Eq, Structural)]
pub enum SelectError {
    /// The name at this position of the request is no application.
    UnknownApp { index: usize },
    /// The request names no application at all.
    NothingSelected,
}

/// The catalog entries of the first `upto` names.
pub open spec fn selected(names: Seq<Seq<char>>, include_music: bool, upto: nat) -> Seq<
    AppProfile,
>
    decreases upto,
{
    if upto == 0 || upto > names.len() {
        Seq::empty()
    } else {
        let earlier = selected(names, include_music, (upto - 1) as nat);
        match profile_of(names[upto - 1], include_music) {
            Some(profile) => earlier.push(profile),
            None => earlier,
        }
    }
}

/// Whether each of the first `upto` names is an application.
pub open spec fn all_known(names: Seq<Seq<char>>, upto: nat) -> bool {
    forall|j: int| 0 <= j < upto && j < names.len() ==> profile_of(#[trigger] names[j], false) is Some
}

/// The applications to back up: those named, or the whole catalog where
/// none is named. A name that is no application is an error, and so is an
/// empty list of names.
pub fn select_apps(names: Option<&Vec<String>>, include_music: bool) -> (r: Result<
    Vec<AppBackupConfig>,
    SelectError,
>)
    ensures
        match r {
            Ok(configs) => match names {
                None => profiles(configs@) == crate::registry::catalog(),
                Some(list) => list@.len() > 0 && all_known(texts(list@), list@.len()) && profiles(
                    configs@,
                ) == selected(texts(list@), include_music, list@.len()) && configs@.len()
                    == list@.len(),
            },
            Err(SelectError::NothingSelected) => names matches Some(list) && list@.len() == 0,
            Err(SelectError::UnknownApp { index }) => names matches Some(list) && index
                < list@.len() && all_known(texts(list@), index as nat) && profile_of(
                list@[index as int]@,
                false,
            ) is None,
        },
{
    match names {
        None => Ok(AppBackupConfig::all()),
        Some(list) => {
            if list.len() == 0 {
                return Err(SelectError::NothingSelected);
            }
            let mut configs: Vec<AppBackupConfig> = Vec::new();
            let mut i: usize = 0;
            assert(profiles(configs@) =~= selected(texts(list@), include_music, 0));
            while i < list.len()
                invariant
                    i <= list.len(),
                    names == Some(list),
                    configs@.len() == i,
                    all_known(texts(list@), i as nat),
                    profiles(configs@) == selected(texts(list@), include_music, i as nat),
                decreases list.len() - i,
            {
                let ghost earlier = profiles(configs@);
                assert(texts(list@)[i as int] == list@[i as int]@);
                assert(profile_of(list@[i as int]@, include_music) is Some <==> profile_of(
                    list@[i as int]@,
                    false,
                ) is Some);
                match AppBackupConfig::by_name(list[i].as_str(), include_music) {
                    Some(config) => {
                        let ghost profile = config@;
                        configs.push(config);
                        assert(profiles(configs@) =~= earlier.push(profile));
                    },
                    None => {
                        return Err(SelectError::UnknownApp { index: i });
                    },
                }
                i = i + 1;
            }
            Ok(configs)
        },
    }
}

/// Where the snapshots of one application go, and what is copied there.
#[derive(Debug)]
pub struct PlannedTarget {
    pub app: String,
    pub directory: String,
    pub paths: Vec<String>,
}

/// One planned target, as plain text values.
pub struct TargetText {
    pub app: Seq<char>,
    pub directory: Seq<char>,
    pub paths: Seq<Seq<char>>,
}

impl View for PlannedTarget {
    type V = TargetText;

    open spec fn view(&self) -> TargetText {
        TargetText { app: self.app@, directory: self.directory@, paths: texts(self.paths@) }
    }
}

/// The texts of a list of planned targets, in the same order.
pub open spec fn target_texts(targets: Seq<PlannedTarget>) -> Seq<TargetText> {
    Seq::new(targets.len(), |i: int| targets[i]@)
}

/// The planned targets of a backup of `apps` of `host` below `dest`.
pub open spec fn targets_of(dest: Seq<char>, host: Seq<char>, apps: Seq<AppProfile>) -> Seq<
    TargetText,
> {
    Seq::new(
        apps.len(),
        |i: int|
            TargetText {
                app: apps[i].name,
                directory: joined(joined(dest, host), apps[i].name),
                paths: apps[i].paths,
            },
    )
}

/// What a backup would do, without doing any of it: for each application
/// the directory that takes its snapshots and the paths that are copied.
pub fn planned_targets(dest: &str, host: &str, configs: &Vec<AppBackupConfig>) -> (r: Vec<
    PlannedTarget,
>)
    ensures
        target_texts(r@) == targets_of(dest@, host@, profiles(configs@)),
{
    let host_dir = join_path(dest, host);
    let mut targets: Vec<PlannedTarget> = Vec::new();
    let mut i: usize = 0;
    while i < configs.len()
        invariant
            i <= configs.len(),
            host_dir@ == joined(dest@, host@),
            target_texts(targets@) == targets_of(dest@, host@, profiles(configs@)).take(i as int),
        decreases configs.len() - i,
    {
        let ghost earlier = target_texts(targets@);
        let config = &configs[i];
        let mut paths: Vec<String> = Vec::new();
        let mut k: usize = 0;
        while k < config.paths.len()
            invariant
                k <= config.paths.len(),
                texts(paths@) == config@.paths.take(k as int),
            decreases config.paths.len() - k,
        {
            let ghost before = texts(paths@);
            paths.push(String::from_str(config.paths[k]));
            assert(texts(paths@) =~= before.push(config@.paths[k as int]));
            assert(texts(paths@) =~= config@.paths.take(k + 1));
            k = k + 1;
        }
        assert(texts(paths@) =~= config@.paths);
        let target = PlannedTarget {
            app: String::from_str(config.name),
            directory: join_path(host_dir.as_str(), config.name),
            paths,
        };
        assert(target@ == targets_of(dest@, host@, profiles(configs@))[i as int]);
        let ghost text = target@;
        targets.push(target);
        assert(target_texts(targets@) =~= earlier.push(text));
        assert(target_texts(targets@) =~= targets_of(dest@, host@, profiles(configs@)).take(
            i + 1,
        ));
        i = i + 1;
    }
    assert(target_texts(targets@) =~= targets_of(dest@, host@, profiles(configs@)));
    targets
}

/// How an operation went, as plain values.
pub enum OpResultText {
    Done,
    Measured(u64),
    Failed(Seq<char>),
}

/// How an operation went.
#[derive(Debug)]
pub enum OpResult {
    /// It was carried out.
    Done,
    /// It was carried out and found this many bytes.
    Measured(u64),
    /// It could not be carried out, for the reason given.
    Failed(String),
}

impl View for OpResult {
    type V = OpResultText;

    open spec fn view(&self) -> OpResultText {
        match self {
            OpResult::Done => OpResultText::Done,
            OpResult::Measured(n) => OpResultText::Measured(*n),
            OpResult::Failed(message) => OpResultText::Failed(message@),
        }
    }
}

/// How the backup of one application ended, as plain values.
pub enum AppResultText {
    Saved { size_bytes: u64 },
    Failed { op: nat, message: Seq<char> },
}

/// How the backup of one application ended.
#[derive(Debug)]
pub enum AppResult {
    /// The snapshot is complete and holds this many bytes.
    Saved { size_bytes: u64 },
    /// The operation at this position failed, for the reason given.
    Failed { op: usize, message: String },
}

impl View for AppResult {
    type V = AppResultText;

    open spec fn view(&self) -> AppResultText {
        match self {
            AppResult::Saved { size_bytes } => AppResultText::Saved { size_bytes: *size_bytes },
            AppResult::Failed { op, message } => AppResultText::Failed {
                op: *op as nat,
                message: message@,
            },
        }
    }
}

/// An application and how its backup ended, as plain values.
pub struct OutcomeText {
    pub app: Seq<char>,
    pub result: AppResultText,
}

/// An application and how its backup ended.
#[derive(Debug)]
pub struct AppOutcome {
    pub app: String,
    pub result: AppResult,
}

impl View for AppOutcome {
    type V = OutcomeText;

    open spec fn view(&self) -> OutcomeText {
        OutcomeText { app: self.app@, result: self.result@ }
    }
}

/// The texts of a list of outcomes, in the same order.
pub open spec fn outcome_texts(outcomes: Seq<AppOutcome>) -> Seq<OutcomeText> {
    Seq::new(outcomes.len(), |i: int| outcomes[i]@)
}

/// A backup under way, as plain values.
pub struct RunState {
    pub host: Seq<char>,
    pub dest: Seq<char>,
    pub stamp: Seq<char>,
    pub apps: Seq<AppProfile>,
    pub dry_run: bool,
    pub app: nat,
    pub op: nat,
    pub measured: u64,
    pub outcomes: Seq<OutcomeText>,
}

/// A backup under way: the applications to back up, the position of the
/// operation that is due, and how the applications before it ended.
#[derive(Debug)]
pub struct BackupRun {
    pub host: String,
    pub dest: String,
    pub stamp: String,
    pub configs: Vec<AppBackupConfig>,
    pub dry_run: bool,
    pub app: usize,
    pub op: usize,
    pub measured: u64,
    pub outcomes: Vec<AppOutcome>,
}

impl View for BackupRun {
    type V = RunState;

    open spec fn view(&self) -> RunState {
        RunState {
            host: self.host@,
            dest: self.dest@,
            stamp: self.stamp@,
            apps: profiles(self.configs@),
            dry_run: self.dry_run,
            app: self.app as nat,
            op: self.op as nat,
            measured: self.measured,
            outcomes: outcome_texts(self.outcomes@),
        }
    }
}

/// A backup before its first operation.
pub open spec fn initial(
    host: Seq<char>,
    dest: Seq<char>,
    stamp: Seq<char>,
    apps: Seq<AppProfile>,
    dry_run: bool,
) -> RunState {
    RunState { host, dest, stamp, apps, dry_run, app: 0, op: 0, measured: 0, outcomes: Seq::empty() }
}

/// The operations of the application that is being backed up.
pub open spec fn ops_at(s: RunState) -> Seq<BackupOpText> {
    if s.app < s.apps.len() {
        snapshot_ops(s.dest, s.host, s.apps[s.app as int], s.stamp)
    } else {
        Seq::empty()
    }
}

/// The operation that is due. A dry run asks for none, and neither does a
/// backup that has gone through all its applications.
pub open spec fn current_op(s: RunState) -> Option<BackupOpText> {
    if s.dry_run || s.op >= ops_at(s).len() {
        None
    } else {
        Some(ops_at(s)[s.op as int])
    }
}

/// The state once the application under way has ended with `result`.
pub open spec fn next_app(s: RunState, result: AppResultText) -> RunState {
    RunState {
        app: s.app + 1,
        op: 0,
        measured: 0,
        outcomes: s.outcomes.push(OutcomeText { app: s.apps[s.app as int].name, result }),
        ..s
    }
}

/// The backup after the operation that was due went as `result` says.
///
/// A failure ends the application under way and the next one is taken up.
/// The last operation of an application completes its snapshot, with the
/// size that its measuring found.
pub open spec fn step(s: RunState, result: OpResultText) -> RunState {
    if s.dry_run || s.app >= s.apps.len() {
        s
    } else {
        match result {
            OpResultText::Failed(message) => next_app(
                s,
                AppResultText::Failed { op: s.op, message },
            ),
            _ => {
                let measured = match (current_op(s), result) {
                    (Some(BackupOpText::Measure { .. }), OpResultText::Measured(n)) => n,
                    _ => s.measured,
                };
                if s.op + 1 < ops_at(s).len() {
                    RunState { op: s.op + 1, measured, ..s }
                } else {
                    next_app(s, AppResultText::Saved { size_bytes: measured })
                }
            },
        }
    }
}

/// The number of applications among the first `upto` outcomes that failed.
pub open spec fn failures(outcomes: Seq<OutcomeText>, upto: nat) -> nat
    decreases upto,
{
    if upto == 0 || upto > outcomes.len() {
        0
    } else {
        failures(outcomes, (upto - 1) as nat) + if outcomes[upto - 1].result is Failed {
            1nat
        } else {
            0nat
        }
    }
}

/// The bytes of the snapshots among the first `upto` outcomes.
pub open spec fn bytes_saved(outcomes: Seq<OutcomeText>, upto: nat) -> nat
    decreases upto,
{
    if upto == 0 || upto > outcomes.len() {
        0
    } else {
        bytes_saved(outcomes, (upto - 1) as nat) + match outcomes[upto - 1].result {
            AppResultText::Saved { size_bytes } => size_bytes as nat,
            AppResultText::Failed { .. } => 0nat,
        }
    }
}

/// The sums over the outcomes of a backup.
#[derive(Debug, Clone, Copy, PartialEq, Eq, Structural)]
pub struct BackupReport {
    /// The number of applications whose snapshot is complete.
    pub saved: usize,
    /// The number of applications that failed.
    pub failed: usize,
    /// The bytes of the complete snapshots; `None` beyond 64 bits.
    pub total_bytes: Option<u64>,
}

impl BackupReport {
    /// Whether the backup as a whole succeeded: no application failed.
    pub fn is_success(&self) -> (r: bool)
        ensures
            r == (self.failed == 0),
    {
        self.failed == 0
    }
}

proof fn lemma_bytes_saved_grows(outcomes: Seq<OutcomeText>, a: nat, b: nat)
    requires
        a <= b <= outcomes.len(),
    ensures
        bytes_saved(outcomes, a) <= bytes_saved(outcomes, b),
    decreases b,
{
    if a < b {
        lemma_bytes_saved_grows(outcomes, a, (b - 1) as nat);
    }
}

impl BackupRun {
    /// Starts the backup of `configs` of `host` into snapshots named
    /// `stamp` below `dest`. A backup that writes needs a name for its
    /// snapshots that can stand beside `latest` in a directory; without
    /// one nothing is started. A dry run names nothing and starts with any
    /// stamp.
    pub fn begin(
        host: &str,
        dest: &str,
        stamp: &str,
        configs: Vec<AppBackupConfig>,
        dry_run: bool,
    ) -> (r: Option<Self>)
        ensures
            r is Some <==> dry_run || names_snapshot(stamp@),
            r matches Some(run) ==> run@ == initial(
                host@,
                dest@,
                stamp@,
                profiles(configs@),
                dry_run,
            ),
    {
        if !dry_run && !(names_entry(stamp) && !text_eq(stamp, "latest")) {
            return None;
        }
        let r = BackupRun {
            host: String::from_str(host),
            dest: String::from_str(dest),
            stamp: String::from_str(stamp),
            configs,
            dry_run,
            app: 0,
            op: 0,
            measured: 0,
            outcomes: Vec::new(),
        };
        assert(outcome_texts(r.outcomes@) =~= Seq::empty());
        Some(r)
    }

    /// Starts a backup whose snapshots are named after the moment `seconds`
    /// after the start of 1970. A dry run has no use for the moment and is
    /// started without it, so that every dry run of the same request
    /// starts out the same. A backup that writes is started only where
    /// there is a moment and it lies before the year 10000.
    pub fn begin_at(
        host: &str,
        dest: &str,
        seconds: Option<u64>,
        configs: Vec<AppBackupConfig>,
        dry_run: bool,
    ) -> (r: Option<Self>)
        ensures
            r is Some <==> dry_run || (seconds matches Some(s) && has_a_stamp(s as int)),
            r matches Some(run) ==> run@ == initial(
                host@,
                dest@,
                if dry_run {
                    Seq::<char>::empty()
                } else {
                    moment_text(seconds->0 as int)->0
                },
                profiles(configs@),
                dry_run,
            ),
            r matches Some(run) ==> !dry_run ==> is_stamp(run@.stamp) && names_snapshot(run@.stamp),
    {
        if dry_run {
            proof {
                reveal_strlit("");
            }
            let r = Self::begin(host, dest, "", configs, dry_run);
            assert(""@ =~= Seq::<char>::empty());
            return r;
        }
        let stamp = match seconds {
            Some(s) => stamp_of(s),
            None => None,
        };
        match stamp {
            Some(stamp) => {
                proof {
                    lemma_stamp_names_a_snapshot(stamp@);
                }
                Self::begin(host, dest, stamp.as_str(), configs, dry_run)
            },
            None => None,
        }
    }

    /// Starts a backup whose snapshots are named after the present moment.
    /// A dry run does not ask for the moment and always starts. A backup
    /// that writes does not start where the clock shows no moment that
    /// has a name.
    pub fn begin_now(host: &str, dest: &str, configs: Vec<AppBackupConfig>, dry_run: bool) -> (r:
        Option<Self>)
        ensures
            dry_run ==> r is Some,
            r matches Some(run) ==> {
                &&& run@ == initial(host@, dest@, run@.stamp, profiles(configs@), dry_run)
                &&& dry_run ==> run@.stamp == Seq::<char>::empty()
                &&& !dry_run ==> is_stamp(run@.stamp) && names_a_moment(run@.stamp)
                    && names_snapshot(run@.stamp)
            },
    {
        if dry_run {
            Self::begin_at(host, dest, None, configs, dry_run)
        } else {
            match stamp_now() {
                Some(stamp) => {
                    proof {
                        lemma_stamp_names_a_snapshot(stamp@);
                    }
                    Self::begin(host, dest, stamp.as_str(), configs, dry_run)
                },
                None => None,
            }
        }
    }

    fn operations(&self) -> (r: Vec<BackupOp>)
        ensures
            op_texts(r@) == ops_at(self@),
    {
        if self.app < self.configs.len() {
            assert(profiles(self.configs@)[self.app as int] == self.configs@[self.app as int]@);
            snapshot_operations(
                self.dest.as_str(),
                self.host.as_str(),
                &self.configs[self.app],
                self.stamp.as_str(),
            )
        } else {
            let r: Vec<BackupOp> = Vec::new();
            assert(op_texts(r@) =~= Seq::empty());
            r
        }
    }

    /// The operation that is due; `None` when there is nothing left to do.
    pub fn current(&self) -> (r: Option<BackupOp>)
        ensures
            match r {
                Some(op) => current_op(self@) == Some(op@),
                None => current_op(self@) is None,
            },
    {
        if self.dry_run {
            return None;
        }
        let mut ops = self.operations();
        if self.op < ops.len() {
            assert(op_texts(ops@)[self.op as int] == ops@[self.op as int]@);
            Some(ops.remove(self.op))
        } else {
            None
        }
    }

    /// Whether nothing is left to do.
    pub fn is_finished(&self) -> (r: bool)
        ensures
            r == (self@.dry_run || self@.app >= self@.apps.len()),
    {
        self.dry_run || self.app >= self.configs.len()
    }

    fn finish_app(&mut self, result: AppResult)
        requires
            old(self).app < old(self).configs.len(),
        ensures
            final(self)@ == next_app(old(self)@, result@),
    {
        let ghost before = outcome_texts(self.outcomes@);
        assert(profiles(self.configs@)[self.app as int] == self.configs@[self.app as int]@);
        let outcome = AppOutcome {
            app: String::from_str(self.configs[self.app].name),
            result,
        };
        let ghost text = outcome@;
        self.outcomes.push(outcome);
        assert(outcome_texts(self.outcomes@) =~= before.push(text));
        self.app = self.app + 1;
        self.op = 0;
        self.measured = 0;
    }

    /// Takes in how the operation that was due went.
    pub fn record(&mut self, result: OpResult)
        ensures
            final(self)@ == step(old(self)@, result@),
    {
        if self.dry_run || self.app >= self.configs.len() {
            return ;
        }
        let ops = self.operations();
        match result {
            OpResult::Failed(message) => {
                let op = self.op;
                self.finish_app(AppResult::Failed { op, message });
            },
            other => {
                let measures = if self.op < ops.len() {
                    assert(op_texts(ops@)[self.op as int] == ops@[self.op as int]@);
                    match &ops[self.op] {
                        BackupOp::Measure { .. } => true,
                        _ => false,
                    }
                } else {
                    false
                };
                let measured = match other {
                    OpResult::Measured(n) => if measures {
                        n
                    } else {
                        self.measured
                    },
                    _ => self.measured,
                };
                if self.op < ops.len() && self.op + 1 < ops.len() {
                    self.op = self.op + 1;
                    self.measured = measured;
                } else {
                    self.finish_app(AppResult::Saved { size_bytes: measured });
                }
            },
        }
    }

    /// Sums up how the applications ended so far.
    pub fn report(&self) -> (r: BackupReport)
        ensures
            r.failed == failures(self@.outcomes, self@.outcomes.len()),
            r.saved + r.failed == self@.outcomes.len(),
            r.total_bytes == (if bytes_saved(self@.outcomes, self@.outcomes.len()) <= u64::MAX {
                Some(bytes_saved(self@.outcomes, self@.outcomes.len()) as u64)
            } else {
                None
            }),
    {
        let ghost all = outcome_texts(self.outcomes@);
        let mut saved: usize = 0;
        let mut failed: usize = 0;
        let mut total: Option<u64> = Some(0);
        let mut i: usize = 0;
        while i < self.outcomes.len()
            invariant
                i <= self.outcomes.len(),
                all == outcome_texts(self.outcomes@),
                failed == failures(all, i as nat),
                saved + failed == i,
                total == (if bytes_saved(all, i as nat) <= u64::MAX {
                    Some(bytes_saved(all, i as nat) as u64)
                } else {
                    None
                }),
            decreases self.outcomes.len() - i,
        {
            assert(all[i as int] == self.outcomes@[i as int]@);
            proof {
                lemma_bytes_saved_grows(all, i as nat, (i + 1) as nat);
            }
            match &self.outcomes[i].result {
                AppResult::Saved { size_bytes } => {
                    saved = saved + 1;
                    total = match total {
                        Some(sum) => if *size_bytes > u64::MAX - sum {
                            None
                        } else {
                            Some(sum + *size_bytes)
                        },
                        None => None,
                    };
                },
                AppResult::Failed { .. } => {
                    failed = failed + 1;
                },
            }
            i = i + 1;
        }
        BackupReport { saved, failed, total_bytes: total }
    }
}

/// Whether a snapshot can be named `stamp`: it names an entry of a
/// directory, and not the one that points at the newest snapshot.
pub open spec fn names_snapshot(stamp: Seq<char>) -> bool {
    is_name(stamp) && stamp != "latest"@
}

/// The name of a moment can name a snapshot.
pub proof fn lemma_stamp_names_a_snapshot(stamp: Seq<char>)
    requires
        is_stamp(stamp),
    ensures
        names_snapshot(stamp),
{
    reveal_strlit("latest");
    assert forall|i: int| 0 <= i < stamp.len() implies stamp[i] != '/' by {
        if i != 4 && i != 7 && i != 10 && i != 13 && i != 16 {
            assert(digit_value(stamp[i]) is Some);
        }
    }
}

/// A snapshot is an entry of its application's directory, under the name
/// that it was given.
pub proof fn lemma_snapshot_is_an_entry(
    dest: Seq<char>,
    host: Seq<char>,
    app: Seq<char>,
    stamp: Seq<char>,
)
    requires
        names_snapshot(stamp),
    ensures
        file_name_of(snapshot_path(dest, host, app, stamp)) == Some(stamp),
        parent_of(snapshot_path(dest, host, app, stamp)) == Some(
            trimmed_path(joined(joined(dest, host), app)),
        ),
        snapshot_path(dest, host, app, stamp) != joined(joined(joined(dest, host), app), "latest"@),
{
    let dir = joined(joined(dest, host), app);
    lemma_joined_is_an_entry(dir, stamp);
    reveal_strlit("latest");
    assert(is_name("latest"@)) by {
        assert("latest"@.len() == 6);
        assert("latest"@[0] == 'l');
    }
    lemma_joined_is_an_entry(dir, "latest"@);
}

/// The backup after a row of results, one after another.
pub open spec fn run(s: RunState, results: Seq<OpResultText>) -> RunState
    decreases results.len(),
{
    if results.len() == 0 {
        s
    } else {
        step(run(s, results.drop_last()), results.last())
    }
}

/// A dry run asks for no operation and is changed by nothing: it touches
/// neither the host nor the local file system, however often it is made.
pub proof fn lemma_dry_run_is_inert(s: RunState, results: Seq<OpResultText>)
    requires
        s.dry_run,
    ensures
        current_op(s) is None,
        run(s, results) == s,
    decreases results.len(),
{
    if results.len() > 0 {
        lemma_dry_run_is_inert(s, results.drop_last());
    }
}

/// The directory of a snapshot is made first, the copies follow, and the
/// `latest` link is pointed at the snapshot by the very last operation:
/// after every copy and after the measuring.
pub proof fn lemma_latest_comes_last(
    dest: Seq<char>,
    host: Seq<char>,
    profile: AppProfile,
    stamp: Seq<char>,
)
    ensures
        ({
            let ops = snapshot_ops(dest, host, profile, stamp);
            &&& ops.len() >= 3
            &&& ops[0] == (BackupOpText::CreateDir {
                path: snapshot_path(dest, host, profile.name, stamp),
            })
            &&& ops.last() == (BackupOpText::PointLatest {
                link: joined(joined(joined(dest, host), profile.name), "latest"@),
                target: stamp,
            })
            &&& forall|i: int| 0 <= i < ops.len() - 1 ==> !(#[trigger] ops[i] is PointLatest)
            &&& forall|i: int| 0 <= i < ops.len() && #[trigger] ops[i] is Pull ==> 0 < i < ops.len() - 2
        }),
{
    let ops = snapshot_ops(dest, host, profile, stamp);
    let dir = snapshot_path(dest, host, profile.name, stamp);
    let head = seq![BackupOpText::CreateDir { path: dir }] + service_op(
        profile,
        ServiceAction::Stop,
    );
    let pulls = pull_ops(profile.paths, dir);
    let mid = service_op(profile, ServiceAction::Start);
    assert forall|i: int| 0 <= i < ops.len() implies (#[trigger] ops[i] is PointLatest ==> i
        == ops.len() - 1) && (ops[i] is Pull ==> 0 < i < ops.len() - 2) by {
        if i < head.len() {
            assert(ops[i] == head[i]);
        } else if i < head.len() + pulls.len() {
            assert(ops[i] == pulls[i - head.len()]);
        } else if i < head.len() + pulls.len() + mid.len() {
            assert(ops[i] == mid[i - head.len() - pulls.len()]);
        }
    }
}

/// Backing up an application and then restoring its newest snapshot leads
/// back to the directory that the backup made: once the operations of a
/// snapshot are through, its directory is there and `latest` points at
/// it, and the id `latest` then resolves to that very directory.
pub proof fn lemma_backup_then_latest(
    dest: Seq<char>,
    host: Seq<char>,
    profile: AppProfile,
    stamp: Seq<char>,
    host_dir: FsNode,
)
    requires
        names_snapshot(stamp),
        host_dir.lookup(profile.name) matches Some(app_dir) && (app_dir.lookup("latest"@) matches Some(
            FsNode::Link { target, .. },
        ) && target@ == stamp) && (app_dir.lookup(stamp) matches Some(node) && node is Dir),
    ensures
        source_of(joined(dest, host), host_dir, "latest"@, profile.name) matches Ok(step)
            && snapshot_ops(dest, host, profile, stamp)[0] == (BackupOpText::CreateDir {
            path: step.source,
        }),
{
    lemma_name_leads_to_itself(joined(joined(dest, host), profile.name), stamp);
    lemma_latest_leads_to_newest(joined(dest, host), host_dir, profile.name, stamp);
    lemma_latest_comes_last(dest, host, profile, stamp);
}

/// An operation that fails ends its application only: the application is
/// recorded as failed, what was recorded before stays, and the backup goes
/// on with the first operation of the next application.
pub proof fn lemma_failure_spares_the_rest(s: RunState, message: Seq<char>)
    requires
        !s.dry_run,
        s.app < s.apps.len(),
    ensures
        ({
            let t = step(s, OpResultText::Failed(message));
            &&& t.app == s.app + 1
            &&& t.op == 0
            &&& t.apps == s.apps
            &&& t.outcomes == s.outcomes.push(
                OutcomeText {
                    app: s.apps[s.app as int].name,
                    result: AppResultText::Failed { op: s.op, message },
                },
            )
            &&& (s.app + 1 < s.apps.len() ==> current_op(t) == Some(
                snapshot_ops(s.dest, s.host, s.apps[(s.app + 1) as int], s.stamp)[0],
            ))
        }),
{
    lemma_latest_comes_last(s.dest, s.host, s.apps[(s.app + 1) as int], s.stamp);
}

/// An application is recorded as saved only by the success of its last
/// operation, the one that points `latest` at the snapshot; any other
/// success just moves on to the operation that follows.
pub proof fn lemma_saved_means_complete(s: RunState, result: OpResultText)
    requires
        !s.dry_run,
        s.app < s.apps.len(),
        s.op < ops_at(s).len(),
        !(result is Failed),
    ensures
        step(s, result).outcomes.len() > s.outcomes.len() <==> s.op == ops_at(s).len() - 1,
        s.op < ops_at(s).len() - 1 ==> step(s, result).app == s.app && step(s, result).op == s.op
            + 1 && step(s, result).outcomes == s.outcomes,
        s.op == ops_at(s).len() - 1 ==> (current_op(s) matches Some(op) && op is PointLatest),
{
    lemma_latest_comes_last(s.dest, s.host, s.apps[s.app as int], s.stamp);
}

/// Whether a state has one outcome for each application that it has left
/// behind, under the name of that application.
pub open spec fn is_in_step(s: RunState) -> bool {
    &&& s.app <= s.apps.len()
    &&& s.outcomes.len() == s.app
    &&& forall|i: int| 0 <= i < s.app ==> (#[trigger] s.outcomes[i]).app == s.apps[i].name
}

/// However a backup goes, every application gets one outcome of its own,
/// in the order of the applications, and an outcome once recorded stays.
pub proof fn lemma_one_outcome_for_each_app(s: RunState, results: Seq<OpResultText>)
    requires
        is_in_step(s),
    ensures
        is_in_step(run(s, results)),
        run(s, results).apps == s.apps,
        s.outcomes.len() <= run(s, results).outcomes.len(),
        forall|i: int| 0 <= i < s.outcomes.len() ==> run(s, results).outcomes[i] == s.outcomes[i],
    decreases results.len(),
{
    if results.len() > 0 {
        lemma_one_outcome_for_each_app(s, results.drop_last());
    }
}

/// The backup as a whole succeeded exactly if every application that was
/// recorded was saved.
pub proof fn lemma_success_means_all_saved(outcomes: Seq<OutcomeText>, upto: nat)
    requires
        upto <= outcomes.len(),
    ensures
        failures(outcomes, upto) == 0 <==> forall|i: int|
            0 <= i < upto ==> (#[trigger] outcomes[i]).result is Saved,
    decreases upto,
{
    if upto > 0 {
        lemma_success_means_all_saved(outcomes, (upto - 1) as nat);
    }
}

} // verus!
