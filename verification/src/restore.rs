//! Restoring snapshots onto a host.
//!
//! A restore passes through a fixed row of phases and never goes back:
//! the target is checked where the snapshots stem from another host (one
//! question after another, as the validator sets them), the
//! plan is shown, the operator confirms, the target's present state is
//! saved where the snapshots stem from another host, each application is
//! restored in the order of the plan, and permissions are put right.
//! This module says what is due in each phase and which phase follows;
//! carrying it out is left to the caller.
//!
//! The first operation that fails ends the restore: the applications
//! behind it are not touched.

use crate::ansible::{ansible_dir, PlaybookRun};
use crate::planner::{step_records, RestorePlan, StepRecord};
use crate::registry::{profile_of, profiles, AppBackupConfig, AppProfile};
use crate::validator::declared_services;
use crate::remote::{
    chown_text, mkdir_text, push_text_of, systemctl_text, CommandLine, CommandText, ServiceAction,
};
use crate::hosts::Host;
use crate::text::{
    concat2, join_path, join_texts, joined, joined_with, make_relative, parent_dir, parent_of,
    lemma_named_has_parent, relative, text_eq, texts,
};
use crate::validator::{
    finding_of, probe_at, query_at, Failure, Query, Stage, Validation, ValidationState,
};
use vstd::prelude::*;

verus! {

/// The seconds that a restore from another host waits before it starts
/// when it was told not to ask: the last chance to interrupt it.
pub const CONFIRM_DELAY_SECONDS: u64 = 3;

/// What the operator asked for.
#[derive(Debug)]
pub struct RestoreOptions {
    pub backup_id: String,
    pub host_arg: Option<String>,
    pub from_host_arg: Option<String>,
    pub apps: Option<Vec<String>>,
    pub ssh_key: Option<String>,
    pub dry_run: bool,
    pub yes: bool,
    pub skip_playbook_unsafe: bool,
}

impl RestoreOptions {
    /// The host whose snapshots are restored: the one named as the source,
    /// or the target itself.
    pub open spec fn source_of(self, target: Seq<char>) -> Seq<char> {
        match self.from_host_arg {
            Some(from) => from@,
            None => target,
        }
    }

    /// Whether the snapshots stem from another host than the target.
    pub open spec fn crosses_hosts(self, target: Seq<char>) -> bool {
        self.source_of(target) != target
    }

    /// The host whose snapshots are restored.
    pub fn source_host(&self, target: &str) -> (r: String)
        ensures
            r@ == self.source_of(target@),
    {
        match &self.from_host_arg {
            Some(from) => from.clone(),
            None => String::from_str(target),
        }
    }

    /// Whether the snapshots stem from another host than the target.
    pub fn is_cross_host(&self, target: &str) -> (r: bool)
        ensures
            r == self.crosses_hosts(target@),
    {
        match &self.from_host_arg {
            Some(from) => !text_eq(from.as_str(), target),
            None => false,
        }
    }

    /// The applications to restore: those asked for, or the whole catalog.
    pub fn requested_apps(&self) -> (r: Vec<String>)
        ensures
            texts(r@) == match self.apps {
                Some(list) => texts(list@),
                None => default_apps(),
            },
    {
        match &self.apps {
            Some(list) => {
                let mut r: Vec<String> = Vec::new();
                let mut i: usize = 0;
                while i < list.len()
                    invariant
                        i <= list.len(),
                        texts(r@) == texts(list@).take(i as int),
                    decreases list.len() - i,
                {
                    let ghost before = texts(r@);
                    r.push(list[i].clone());
                    assert(texts(r@) =~= before.push(list@[i as int]@));
                    assert(texts(r@) =~= texts(list@).take(i + 1));
                    i = i + 1;
                }
                assert(texts(r@) =~= texts(list@));
                r
            },
            None => {
                let mut r: Vec<String> = Vec::new();
                r.push(String::from_str("radicale"));
                r.push(String::from_str("freshrss"));
                r.push(String::from_str("navidrome"));
                r.push(String::from_str("calibre"));
                r.push(String::from_str("webdav"));
                assert(texts(r@) =~= default_apps());
                r
            },
        }
    }
}

/// The names of the whole catalog, in catalog order.
pub open spec fn default_apps() -> Seq<Seq<char>> {
    seq!["radicale"@, "freshrss"@, "navidrome"@, "calibre"@, "webdav"@]
}

/// One operation of restoring an application, as plain text values.
pub enum RestoreOpText {
    Service { action: ServiceAction, service: Seq<char> },
    Locate { local_dir: Seq<char> },
    MakeParent { remote_path: Seq<char> },
    Reject { remote_path: Seq<char> },
    Mirror { local_dir: Seq<char>, remote_path: Seq<char> },
    Chown { path: Seq<char>, user: Seq<char>, group: Seq<char> },
}

/// One operation of restoring an application.
#[derive(Debug)]
pub enum RestoreOp {
    /// Start or stop the service on the target.
    Service { action: ServiceAction, service: String },
    /// See whether the snapshot holds this directory. Where it does not,
    /// the path it stands for is passed over.
    Locate { local_dir: String },
    /// Create the directory above the remote path, and what is missing
    /// above that. Whether this works does not matter to what follows.
    MakeParent { remote_path: String },
    /// The remote path has no directory above it and cannot be restored
    /// to. This operation always fails.
    Reject { remote_path: String },
    /// Make the remote path an exact copy of the local directory.
    Mirror { local_dir: String, remote_path: String },
    /// Hand the remote path and all below it to the user and group.
    Chown { path: String, user: String, group: String },
}

impl View for RestoreOp {
    type V = RestoreOpText;

    open spec fn view(&self) -> RestoreOpText {
        match self {
            RestoreOp::Service { action, service } => RestoreOpText::Service {
                action: *action,
                service: service@,
            },
            RestoreOp::Locate { local_dir } => RestoreOpText::Locate { local_dir: local_dir@ },
            RestoreOp::MakeParent { remote_path } => RestoreOpText::MakeParent {
                remote_path: remote_path@,
            },
            RestoreOp::Reject { remote_path } => RestoreOpText::Reject {
                remote_path: remote_path@,
            },
            RestoreOp::Mirror { local_dir, remote_path } => RestoreOpText::Mirror {
                local_dir: local_dir@,
                remote_path: remote_path@,
            },
            RestoreOp::Chown { path, user, group } => RestoreOpText::Chown {
                path: path@,
                user: user@,
                group: group@,
            },
        }
    }
}

/// The texts of a list of operations, in the same order.
pub open spec fn op_texts(ops: Seq<RestoreOp>) -> Seq<RestoreOpText> {
    Seq::new(ops.len(), |i: int| ops[i]@)
}

/// The service operation of an application, if it declares a service.
pub open spec fn service_op(profile: AppProfile, action: ServiceAction) -> Seq<RestoreOpText> {
    match profile.service {
        Some(service) => seq![RestoreOpText::Service { action, service }],
        None => Seq::empty(),
    }
}

/// The three operations that restore one declared path from the snapshot
/// at `source`: the snapshot holds the path's contents under the path
/// itself.
pub open spec fn path_ops(source: Seq<char>, path: Seq<char>) -> Seq<RestoreOpText> {
    let local_dir = joined(source, relative(path));
    seq![
        RestoreOpText::Locate { local_dir },
        if parent_of(path) is Some {
            RestoreOpText::MakeParent { remote_path: path }
        } else {
            RestoreOpText::Reject { remote_path: path }
        },
        RestoreOpText::Mirror { local_dir, remote_path: path },
    ]
}

/// The operations that restore the first `upto` declared paths.
pub open spec fn copy_ops(source: Seq<char>, paths: Seq<Seq<char>>, upto: nat) -> Seq<
    RestoreOpText,
>
    decreases upto,
{
    if upto == 0 || upto > paths.len() {
        Seq::empty()
    } else {
        copy_ops(source, paths, (upto - 1) as nat) + path_ops(source, paths[upto - 1])
    }
}

/// One change of ownership for each declared path, if the application
/// declares an owner.
pub open spec fn owner_ops(profile: AppProfile) -> Seq<RestoreOpText> {
    match profile.owner {
        Some((user, group)) => Seq::new(
            profile.paths.len(),
            |i: int| RestoreOpText::Chown { path: profile.paths[i], user, group },
        ),
        None => Seq::empty(),
    }
}

/// The operations that restore one application from the snapshot at
/// `source`, in the order in which they are carried out: stop the service,
/// restore each declared path, hand the paths to their owner, start the
/// service.
pub open spec fn restore_ops(profile: AppProfile, source: Seq<char>) -> Seq<RestoreOpText> {
    service_op(profile, ServiceAction::Stop) + copy_ops(
        source,
        profile.paths,
        profile.paths.len(),
    ) + owner_ops(profile) + service_op(profile, ServiceAction::Start)
}

/// Lists the operations that restore one application.
pub fn restore_operations(config: &AppBackupConfig, source: &str) -> (r: Vec<RestoreOp>)
    ensures
        op_texts(r@) == restore_ops(config@, source@),
{
    let mut ops: Vec<RestoreOp> = Vec::new();
    match config.systemd_service {
        Some(service) => {
            ops.push(
                RestoreOp::Service {
                    action: ServiceAction::Stop,
                    service: String::from_str(service),
                },
            );
        },
        None => {},
    }
    let ghost head = op_texts(ops@);
    assert(head =~= service_op(config@, ServiceAction::Stop));
    let mut i: usize = 0;
    while i < config.paths.len()
        invariant
            i <= config.paths.len(),
            op_texts(ops@) == head + copy_ops(source@, config@.paths, i as nat),
        decreases config.paths.len() - i,
    {
        let ghost earlier = op_texts(ops@);
        let path = config.paths[i];
        assert(config@.paths[i as int] == path@);
        let inner = make_relative(path);
        let local_dir = join_path(source, inner.as_str());
        ops.push(RestoreOp::Locate { local_dir: local_dir.clone() });
        match parent_dir(path) {
            Some(_) => {
                ops.push(RestoreOp::MakeParent { remote_path: String::from_str(path) });
            },
            None => {
                ops.push(RestoreOp::Reject { remote_path: String::from_str(path) });
            },
        }
        ops.push(RestoreOp::Mirror { local_dir, remote_path: String::from_str(path) });
        assert(op_texts(ops@) =~= earlier + path_ops(source@, path@));
        i = i + 1;
    }
    let ghost copied = op_texts(ops@);
    match config.owner {
        Some((user, group)) => {
            let mut k: usize = 0;
            while k < config.paths.len()
                invariant
                    k <= config.paths.len(),
                    config.owner == Some((user, group)),
                    op_texts(ops@) == copied + owner_ops(config@).take(k as int),
                decreases config.paths.len() - k,
            {
                let ghost earlier = op_texts(ops@);
                assert(config@.paths[k as int] == config.paths@[k as int]@);
                ops.push(
                    RestoreOp::Chown {
                        path: String::from_str(config.paths[k]),
                        user: String::from_str(user),
                        group: String::from_str(group),
                    },
                );
                assert(op_texts(ops@) =~= earlier.push(owner_ops(config@)[k as int]));
                assert(op_texts(ops@) =~= copied + owner_ops(config@).take(k + 1));
                k = k + 1;
            }
            assert(owner_ops(config@).take(k as int) =~= owner_ops(config@));
        },
        None => {
            assert(op_texts(ops@) =~= copied + owner_ops(config@));
        },
    }
    let ghost owned = op_texts(ops@);
    match config.systemd_service {
        Some(service) => {
            ops.push(
                RestoreOp::Service {
                    action: ServiceAction::Start,
                    service: String::from_str(service),
                },
            );
        },
        None => {},
    }
    assert(op_texts(ops@) =~= owned + service_op(config@, ServiceAction::Start));
    assert(op_texts(ops@) =~= restore_ops(config@, source@));
    ops
}

/// How an operation is carried out, as plain text values.
pub enum TaskText {
    CheckLocal { path: Seq<char> },
    Run(CommandText),
    Invalid { remote_path: Seq<char> },
}

/// How an operation is carried out.
#[derive(Debug)]
pub enum Task {
    /// See whether this local directory exists.
    CheckLocal { path: String },
    /// Run this command.
    Run(CommandLine),
    /// There is nothing to run: the remote path is not valid.
    Invalid { remote_path: String },
}

impl View for Task {
    type V = TaskText;

    open spec fn view(&self) -> TaskText {
        match self {
            Task::CheckLocal { path } => TaskText::CheckLocal { path: path@ },
            Task::Run(command) => TaskText::Run(command@),
            Task::Invalid { remote_path } => TaskText::Invalid { remote_path: remote_path@ },
        }
    }
}

impl RestoreOp {
    /// How an operation is carried out on the target `host`.
    pub open spec fn task_text(self, host: Host, key: Seq<char>) -> TaskText {
        match self {
            RestoreOp::Service { action, service } => TaskText::Run(
                systemctl_text(host, key, action, service@),
            ),
            RestoreOp::Locate { local_dir } => TaskText::CheckLocal { path: local_dir@ },
            RestoreOp::MakeParent { remote_path } => match parent_of(remote_path@) {
                Some(dir) => TaskText::Run(mkdir_text(host, key, dir)),
                None => TaskText::Invalid { remote_path: remote_path@ },
            },
            RestoreOp::Reject { remote_path } => TaskText::Invalid { remote_path: remote_path@ },
            RestoreOp::Mirror { local_dir, remote_path } => TaskText::Run(
                push_text_of(host, key, local_dir@, remote_path@),
            ),
            RestoreOp::Chown { path, user, group } => TaskText::Run(
                chown_text(host, key, path@, user@, group@),
            ),
        }
    }

    /// How an operation is carried out on the target `host`.
    pub fn task(&self, host: &Host, key: &str) -> (r: Task)
        ensures
            r@ == self.task_text(*host, key@),
    {
        match self {
            RestoreOp::Service { action, service } => Task::Run(
                CommandLine::systemctl(host, key, *action, service.as_str()),
            ),
            RestoreOp::Locate { local_dir } => Task::CheckLocal { path: local_dir.clone() },
            RestoreOp::MakeParent { remote_path } => match parent_dir(remote_path.as_str()) {
                Some(dir) => Task::Run(CommandLine::mkdir(host, key, dir.as_str())),
                None => Task::Invalid { remote_path: remote_path.clone() },
            },
            RestoreOp::Reject { remote_path } => Task::Invalid { remote_path: remote_path.clone() },
            RestoreOp::Mirror { local_dir, remote_path } => Task::Run(
                CommandLine::push(host, key, local_dir.as_str(), remote_path.as_str()),
            ),
            RestoreOp::Chown { path, user, group } => Task::Run(
                CommandLine::chown(host, key, path.as_str(), user.as_str(), group.as_str()),
            ),
        }
    }
}

/// How an operation went.
#[derive(Debug, Clone, Copy, PartialEq, Eq, Structural)]
pub enum Performed {
    /// It was carried out.
    Done,
    /// What it looked for is not there.
    Missing,
    /// It could not be carried out.
    Failed,
}

/// Whether permissions were put right after the restore.
#[derive(Debug, Clone, Copy, PartialEq, Eq, Structural)]
pub enum Permissions {
    /// The playbook ran and succeeded.
    Fixed,
    /// The playbook failed or could not be run; the data stays restored.
    Unfixed,
    /// The playbook was left out on request.
    Skipped,
}

/// Why a restore failed.
#[derive(Debug, Clone, Copy, PartialEq, Eq, Structural)]
pub enum RestoreFailure {
    /// The target did not pass the checks; nothing on it was touched.
    Validation(Failure),
    /// This operation of this application of the plan failed.
    Operation { app: usize, op: usize },
}

/// How a restore ended.
#[derive(Debug, Clone, Copy, PartialEq, Eq, Structural)]
pub enum Outcome {
    /// Every application of the plan was restored.
    Completed(Permissions),
    /// The plan was shown and nothing was done.
    DryRun,
    /// The operator called it off.
    Cancelled,
    /// It failed and was abandoned.
    Failed(RestoreFailure),
}

/// Where a restore stands.
#[derive(Debug, Clone, Copy, PartialEq, Eq, Structural)]
pub enum Phase {
    /// The target host is being checked.
    Validate,
    /// The plan is being shown.
    Display,
    /// The operator is typing the name of the target host.
    ConfirmName,
    /// The operator is deciding whether the data may be overwritten.
    ConfirmOverwrite,
    /// The last chance to interrupt is running out.
    Pause,
    /// The target host is being backed up as it is.
    EmergencyBackup,
    /// The operator is deciding whether to go on without that backup.
    ConfirmUnprotected,
    /// The operation at `op` of the application at `app` of the plan is
    /// being carried out.
    Apply { app: usize, op: usize },
    /// The playbook that puts permissions right is running.
    FixPermissions,
    /// The restore has ended.
    Done(Outcome),
}

/// What is due, as plain text values.
pub enum ActionText {
    Probe(Query),
    ShowPlan,
    AskHostName,
    AskOverwrite,
    Pause { seconds: u64 },
    EmergencyBackup,
    AskUnprotected,
    Perform(RestoreOpText),
    RunPlaybook,
}

/// What is due.
#[derive(Debug)]
pub enum RestoreAction {
    /// Find out the answer to this question about the target host.
    Probe(Query),
    /// Show the plan to the operator.
    ShowPlan,
    /// Have the operator type the name of the target host. Only the name
    /// itself, character for character, confirms; anything else, white
    /// space around the name too, calls the restore off.
    AskHostName,
    /// Ask the operator whether the data on the host may be overwritten.
    AskOverwrite,
    /// Wait for this many seconds.
    Pause { seconds: u64 },
    /// Back up the target host as it is now.
    EmergencyBackup,
    /// Ask the operator whether to go on though the backup failed.
    AskUnprotected,
    /// Carry out this operation on the target host.
    Perform(RestoreOp),
    /// Run the playbook that puts permissions right.
    RunPlaybook,
}

impl View for RestoreAction {
    type V = ActionText;

    open spec fn view(&self) -> ActionText {
        match self {
            RestoreAction::Probe(query) => ActionText::Probe(*query),
            RestoreAction::ShowPlan => ActionText::ShowPlan,
            RestoreAction::AskHostName => ActionText::AskHostName,
            RestoreAction::AskOverwrite => ActionText::AskOverwrite,
            RestoreAction::Pause { seconds } => ActionText::Pause { seconds: *seconds },
            RestoreAction::EmergencyBackup => ActionText::EmergencyBackup,
            RestoreAction::AskUnprotected => ActionText::AskUnprotected,
            RestoreAction::Perform(op) => ActionText::Perform(op@),
            RestoreAction::RunPlaybook => ActionText::RunPlaybook,
        }
    }
}

/// What came of the action that was due, as plain text values.
pub enum EventText {
    Probed(Option<(bool, Seq<char>)>),
    Shown,
    Typed(Seq<char>),
    Answered(bool),
    Resumed,
    BackedUp(bool),
    Performed(Performed),
    PlaybookRan(bool),
}

/// What came of the action that was due.
#[derive(Debug)]
pub enum RestoreEvent {
    /// The command that answers the question was run: whether it
    /// succeeded, and what it printed. `None` where it could not be run at
    /// all.
    Probed(Option<(bool, String)>),
    /// The plan was shown.
    Shown,
    /// The operator typed this, without the end of the line.
    Typed(String),
    /// The operator said yes or no.
    Answered(bool),
    /// The wait is over.
    Resumed,
    /// The backup of the target succeeded or not.
    BackedUp(bool),
    /// The operation went like this.
    Performed(Performed),
    /// The playbook succeeded or not.
    PlaybookRan(bool),
}

impl View for RestoreEvent {
    type V = EventText;

    open spec fn view(&self) -> EventText {
        match self {
            RestoreEvent::Probed(answer) => EventText::Probed(
                match answer {
                    Some((succeeded, output)) => Some((*succeeded, output@)),
                    None => None,
                },
            ),
            RestoreEvent::Shown => EventText::Shown,
            RestoreEvent::Typed(t) => EventText::Typed(t@),
            RestoreEvent::Answered(b) => EventText::Answered(*b),
            RestoreEvent::Resumed => EventText::Resumed,
            RestoreEvent::BackedUp(b) => EventText::BackedUp(*b),
            RestoreEvent::Performed(p) => EventText::Performed(*p),
            RestoreEvent::PlaybookRan(b) => EventText::PlaybookRan(*b),
        }
    }
}

/// A restore under way, as plain values.
pub struct RestoreState {
    pub target: Seq<char>,
    pub cross_host: bool,
    pub dry_run: bool,
    pub yes: bool,
    pub skip_playbook: bool,
    pub apps: Seq<AppProfile>,
    pub sources: Seq<Seq<char>>,
    pub checks: ValidationState,
    pub phase: Phase,
}

/// A restore under way: the plan, what the operator asked for, the checks
/// on the target, and the phase it has reached.
#[derive(Debug)]
pub struct RestoreRun {
    pub target: String,
    pub cross_host: bool,
    pub dry_run: bool,
    pub yes: bool,
    pub skip_playbook: bool,
    pub configs: Vec<AppBackupConfig>,
    pub sources: Vec<String>,
    pub checks: Validation,
    pub phase: Phase,
}

impl View for RestoreRun {
    type V = RestoreState;

    open spec fn view(&self) -> RestoreState {
        RestoreState {
            target: self.target@,
            cross_host: self.cross_host,
            dry_run: self.dry_run,
            yes: self.yes,
            skip_playbook: self.skip_playbook,
            apps: profiles(self.configs@),
            sources: texts(self.sources@),
            checks: self.checks@,
            phase: self.phase,
        }
    }
}

/// The operations of the application at position `app` of the plan.
pub open spec fn ops_of(s: RestoreState, app: int) -> Seq<RestoreOpText> {
    if 0 <= app < s.apps.len() && app < s.sources.len() {
        restore_ops(s.apps[app], s.sources[app])
    } else {
        Seq::empty()
    }
}

/// The phase that has the operation at `op` of application `app` due, or
/// the first operation behind it where there is none at that place; once
/// the plan is through, the phase that follows the last application.
pub open spec fn seek(s: RestoreState, app: nat, op: nat) -> Phase
    decreases s.apps.len() - app,
{
    if app >= s.apps.len() || app >= s.sources.len() {
        if s.skip_playbook {
            Phase::Done(Outcome::Completed(Permissions::Skipped))
        } else {
            Phase::FixPermissions
        }
    } else if op < ops_of(s, app as int).len() {
        Phase::Apply { app: app as usize, op: op as usize }
    } else {
        seek(s, app + 1, 0)
    }
}

/// The phase in which the operator confirms, or what follows it where the
/// operator asked not to be asked.
pub open spec fn after_display(s: RestoreState) -> Phase {
    if s.dry_run {
        Phase::Done(Outcome::DryRun)
    } else if s.yes {
        if s.cross_host {
            Phase::Pause
        } else {
            seek(s, 0, 0)
        }
    } else if s.cross_host {
        Phase::ConfirmName
    } else {
        Phase::ConfirmOverwrite
    }
}

/// The phase after an operation of the plan went as `result` says.
///
/// A failure ends the restore, except where the directory above a path
/// could not be made: the copy that follows decides. A directory that the
/// snapshot does not hold takes the other two operations on its path with
/// it.
pub open spec fn after_operation(s: RestoreState, app: usize, op: usize, result: Performed) -> Phase {
    let ops = ops_of(s, app as int);
    if op >= ops.len() {
        seek(s, app as nat, op as nat)
    } else {
        match (ops[op as int], result) {
            (RestoreOpText::MakeParent { .. }, Performed::Failed) => seek(
                s,
                app as nat,
                (op + 1) as nat,
            ),
            (_, Performed::Failed) => Phase::Done(
                Outcome::Failed(RestoreFailure::Operation { app, op }),
            ),
            (RestoreOpText::Locate { .. }, Performed::Missing) => seek(
                s,
                app as nat,
                (op + 3) as nat,
            ),
            _ => seek(s, app as nat, (op + 1) as nat),
        }
    }
}

/// The restore before anything was done.
pub open spec fn initial(
    target: Seq<char>,
    cross_host: bool,
    dry_run: bool,
    yes: bool,
    skip_playbook: bool,
    apps: Seq<AppProfile>,
    sources: Seq<Seq<char>>,
    checks: ValidationState,
) -> RestoreState {
    RestoreState {
        target,
        cross_host,
        dry_run,
        yes,
        skip_playbook,
        apps,
        sources,
        checks,
        phase: if cross_host {
            Phase::Validate
        } else {
            Phase::Display
        },
    }
}

/// What is due in a phase; nothing once the restore has ended.
pub open spec fn action_at(s: RestoreState) -> Option<ActionText> {
    match s.phase {
        Phase::Validate => match query_at(s.checks) {
            Some(query) => Some(ActionText::Probe(query)),
            None => None,
        },
        Phase::Display => Some(ActionText::ShowPlan),
        Phase::ConfirmName => Some(ActionText::AskHostName),
        Phase::ConfirmOverwrite => Some(ActionText::AskOverwrite),
        Phase::Pause => Some(ActionText::Pause { seconds: CONFIRM_DELAY_SECONDS }),
        Phase::EmergencyBackup => Some(ActionText::EmergencyBackup),
        Phase::ConfirmUnprotected => Some(ActionText::AskUnprotected),
        Phase::Apply { app, op } => if op < ops_of(s, app as int).len() {
            Some(ActionText::Perform(ops_of(s, app as int)[op as int]))
        } else {
            None
        },
        Phase::FixPermissions => Some(ActionText::RunPlaybook),
        Phase::Done(_) => None,
    }
}

/// The phase that follows on an answer about the target: the plan is shown
/// once the target has passed its checks, the restore ends where it has
/// failed them, and the next question is due otherwise.
pub open spec fn after_probe(checks: ValidationState) -> Phase {
    match checks.stage {
        Stage::Passed => Phase::Display,
        Stage::Failed(failure) => Phase::Done(Outcome::Failed(RestoreFailure::Validation(failure))),
        _ => Phase::Validate,
    }
}

/// The checks after an event: an answer about the target moves them on
/// while the target is being checked; nothing else touches them.
pub open spec fn next_checks(s: RestoreState, event: EventText) -> ValidationState {
    match (s.phase, event) {
        (Phase::Validate, EventText::Probed(answer)) => crate::validator::step(
            s.checks,
            finding_of(s.checks, answer),
        ),
        _ => s.checks,
    }
}

/// The phase that follows on an event. An event that does not belong to
/// the phase changes nothing.
pub open spec fn next_phase(s: RestoreState, event: EventText) -> Phase {
    match (s.phase, event) {
        (Phase::Validate, EventText::Probed(answer)) => after_probe(
            crate::validator::step(s.checks, finding_of(s.checks, answer)),
        ),
        (Phase::Display, EventText::Shown) => after_display(s),
        (Phase::ConfirmName, EventText::Typed(typed)) => if typed == s.target {
            Phase::EmergencyBackup
        } else {
            Phase::Done(Outcome::Cancelled)
        },
        (Phase::ConfirmOverwrite, EventText::Answered(true)) => seek(s, 0, 0),
        (Phase::ConfirmOverwrite, EventText::Answered(false)) => Phase::Done(Outcome::Cancelled),
        (Phase::Pause, EventText::Resumed) => Phase::EmergencyBackup,
        (Phase::EmergencyBackup, EventText::BackedUp(true)) => seek(s, 0, 0),
        (Phase::EmergencyBackup, EventText::BackedUp(false)) => Phase::ConfirmUnprotected,
        (Phase::ConfirmUnprotected, EventText::Answered(true)) => seek(s, 0, 0),
        (Phase::ConfirmUnprotected, EventText::Answered(false)) => Phase::Done(Outcome::Cancelled),
        (Phase::Apply { app, op }, EventText::Performed(result)) => after_operation(
            s,
            app,
            op,
            result,
        ),
        (Phase::FixPermissions, EventText::PlaybookRan(true)) => Phase::Done(
            Outcome::Completed(Permissions::Fixed),
        ),
        (Phase::FixPermissions, EventText::PlaybookRan(false)) => Phase::Done(
            Outcome::Completed(Permissions::Unfixed),
        ),
        _ => s.phase,
    }
}

/// The restore after an event.
pub open spec fn step(s: RestoreState, event: EventText) -> RestoreState {
    RestoreState { phase: next_phase(s, event), checks: next_checks(s, event), ..s }
}

/// Why a restore could not be started.
#[derive(Debug, Clone, Copy, PartialEq, Eq, Structural)]
pub enum BeginError {
    /// The application at this position of the plan is not in the catalog.
    UnknownApp { index: usize },
}

/// The catalog entries of the first `upto` steps of a plan.
pub open spec fn plan_apps(steps: Seq<StepRecord>, upto: nat) -> Seq<AppProfile>
    decreases upto,
{
    if upto == 0 || upto > steps.len() {
        Seq::empty()
    } else {
        match profile_of(steps[upto - 1].app, false) {
            Some(profile) => plan_apps(steps, (upto - 1) as nat).push(profile),
            None => plan_apps(steps, (upto - 1) as nat),
        }
    }
}

/// The sources of the steps of a plan.
pub open spec fn plan_sources(steps: Seq<StepRecord>) -> Seq<Seq<char>> {
    Seq::new(steps.len(), |i: int| steps[i].source)
}

/// Whether each of the first `upto` steps names an application of the
/// catalog.
pub open spec fn plan_known(steps: Seq<StepRecord>, upto: nat) -> bool {
    forall|j: int| 0 <= j < upto && j < steps.len() ==> profile_of((#[trigger] steps[j]).app, false) is Some
}

impl RestoreRun {
    /// Sets up the restore of `plan` onto the host `target`. `requested`
    /// are the applications that were asked for, whose services the
    /// target must have.
    ///
    /// Every application of the plan must be in the catalog; the first
    /// that is not is reported, before anything is touched.
    pub fn begin(
        target: &str,
        options: &RestoreOptions,
        plan: &RestorePlan,
        requested: &Vec<AppBackupConfig>,
    ) -> (r: Result<Self, BeginError>)
        ensures
            match r {
                Ok(run) => plan_known(step_records(plan.steps@), plan.steps@.len()) && run@
                    == initial(
                    target@,
                    options.crosses_hosts(target@),
                    options.dry_run,
                    options.yes,
                    options.skip_playbook_unsafe,
                    plan_apps(step_records(plan.steps@), plan.steps@.len()),
                    plan_sources(step_records(plan.steps@)),
                    crate::validator::initial(
                        declared_services(profiles(requested@), requested@.len()),
                        plan.total_bytes,
                    ),
                ) && run@.apps.len() == run@.sources.len(),
                Err(BeginError::UnknownApp { index }) => index < plan.steps@.len() && plan_known(
                    step_records(plan.steps@),
                    index as nat,
                ) && profile_of(plan.steps@[index as int]@.app, false) is None,
            },
    {
        let ghost records = step_records(plan.steps@);
        let mut configs: Vec<AppBackupConfig> = Vec::new();
        let mut sources: Vec<String> = Vec::new();
        let mut i: usize = 0;
        assert(profiles(configs@) =~= plan_apps(records, 0));
        assert(texts(sources@) =~= plan_sources(records).take(0));
        while i < plan.steps.len()
            invariant
                i <= plan.steps.len(),
                records == step_records(plan.steps@),
                configs@.len() == i,
                sources@.len() == i,
                plan_known(records, i as nat),
                profiles(configs@) == plan_apps(records, i as nat),
                texts(sources@) == plan_sources(records).take(i as int),
            decreases plan.steps.len() - i,
        {
            let ghost apps_before = profiles(configs@);
            let ghost sources_before = texts(sources@);
            assert(records[i as int] == plan.steps@[i as int]@);
            match AppBackupConfig::by_name(plan.steps[i].app.as_str(), false) {
                Some(config) => {
                    let ghost profile = config@;
                    configs.push(config);
                    assert(profiles(configs@) =~= apps_before.push(profile));
                    sources.push(plan.steps[i].source.clone());
                    assert(texts(sources@) =~= sources_before.push(records[i as int].source));
                    assert(texts(sources@) =~= plan_sources(records).take(i + 1));
                },
                None => {
                    return Err(BeginError::UnknownApp { index: i });
                },
            }
            i = i + 1;
        }
        assert(texts(sources@) =~= plan_sources(records));
        let cross_host = options.is_cross_host(target);
        Ok(
            RestoreRun {
                target: String::from_str(target),
                cross_host,
                dry_run: options.dry_run,
                yes: options.yes,
                skip_playbook: options.skip_playbook_unsafe,
                configs,
                sources,
                checks: Validation::begin(requested, plan.total_bytes),
                phase: if cross_host {
                    Phase::Validate
                } else {
                    Phase::Display
                },
            },
        )
    }

    fn operations(&self, app: usize) -> (r: Vec<RestoreOp>)
        ensures
            op_texts(r@) == ops_of(self@, app as int),
    {
        if app < self.configs.len() && app < self.sources.len() {
            assert(profiles(self.configs@)[app as int] == self.configs@[app as int]@);
            assert(texts(self.sources@)[app as int] == self.sources@[app as int]@);
            restore_operations(&self.configs[app], self.sources[app].as_str())
        } else {
            let r: Vec<RestoreOp> = Vec::new();
            assert(op_texts(r@) =~= Seq::empty());
            r
        }
    }

    /// What is due; `None` once the restore has ended.
    pub fn current(&self) -> (r: Option<RestoreAction>)
        ensures
            match r {
                Some(action) => action_at(self@) == Some(action@),
                None => action_at(self@) is None,
            },
    {
        match self.phase {
            Phase::Validate => match self.checks.next_query() {
                Some(query) => Some(RestoreAction::Probe(query)),
                None => None,
            },
            Phase::Display => Some(RestoreAction::ShowPlan),
            Phase::ConfirmName => Some(RestoreAction::AskHostName),
            Phase::ConfirmOverwrite => Some(RestoreAction::AskOverwrite),
            Phase::Pause => Some(RestoreAction::Pause { seconds: CONFIRM_DELAY_SECONDS }),
            Phase::EmergencyBackup => Some(RestoreAction::EmergencyBackup),
            Phase::ConfirmUnprotected => Some(RestoreAction::AskUnprotected),
            Phase::Apply { app, op } => {
                let mut ops = self.operations(app);
                if op < ops.len() {
                    assert(op_texts(ops@)[op as int] == ops@[op as int]@);
                    Some(RestoreAction::Perform(ops.remove(op)))
                } else {
                    None
                }
            },
            Phase::FixPermissions => Some(RestoreAction::RunPlaybook),
            Phase::Done(_) => None,
        }
    }

    fn seek_from(&self, app: usize, op: usize) -> (r: Phase)
        ensures
            r == seek(self@, app as nat, op as nat),
    {
        let mut a: usize = app;
        let mut o: usize = op;
        while a < self.configs.len() && a < self.sources.len()
            invariant
                seek(self@, app as nat, op as nat) == seek(self@, a as nat, o as nat),
            decreases self.configs.len() - a,
        {
            let ops = self.operations(a);
            if o < ops.len() {
                return Phase::Apply { app: a, op: o };
            }
            a = a + 1;
            o = 0;
        }
        if self.skip_playbook {
            Phase::Done(Outcome::Completed(Permissions::Skipped))
        } else {
            Phase::FixPermissions
        }
    }

    fn after_display(&self) -> (r: Phase)
        ensures
            r == after_display(self@),
    {
        if self.dry_run {
            Phase::Done(Outcome::DryRun)
        } else if self.yes {
            if self.cross_host {
                Phase::Pause
            } else {
                self.seek_from(0, 0)
            }
        } else if self.cross_host {
            Phase::ConfirmName
        } else {
            Phase::ConfirmOverwrite
        }
    }

    fn after_operation(&self, app: usize, op: usize, result: Performed) -> (r: Phase)
        ensures
            r == after_operation(self@, app, op, result),
    {
        let ops = self.operations(app);
        if op >= ops.len() {
            return self.seek_from(app, op);
        }
        assert(op_texts(ops@)[op as int] == ops@[op as int]@);
        assert(ops.len() <= usize::MAX);
        let failed = match result {
            Performed::Failed => true,
            _ => false,
        };
        let missing = match result {
            Performed::Missing => true,
            _ => false,
        };
        match &ops[op] {
            RestoreOp::MakeParent { .. } => self.seek_from(app, op + 1),
            RestoreOp::Locate { .. } => {
                if failed {
                    Phase::Done(Outcome::Failed(RestoreFailure::Operation { app, op }))
                } else if missing {
                    if op > usize::MAX - 3 {
                        proof {
                            lemma_seek_beyond(self@, app as nat, (op + 3) as nat);
                            lemma_seek_beyond(self@, app as nat, ops@.len());
                        }
                        self.seek_from(app, ops.len())
                    } else {
                        self.seek_from(app, op + 3)
                    }
                } else {
                    self.seek_from(app, op + 1)
                }
            },
            _ => {
                if failed {
                    Phase::Done(Outcome::Failed(RestoreFailure::Operation { app, op }))
                } else {
                    self.seek_from(app, op + 1)
                }
            },
        }
    }

    /// Takes in what came of the action that was due.
    pub fn record(&mut self, event: RestoreEvent)
        ensures
            final(self)@ == step(old(self)@, event@),
    {
        let next = match (self.phase, &event) {
            (Phase::Validate, RestoreEvent::Probed(answer)) => {
                let read = match answer {
                    Some((succeeded, output)) => Some((*succeeded, output.as_str())),
                    None => None,
                };
                self.checks.read(read);
                match self.checks.stage {
                    Stage::Passed => Phase::Display,
                    Stage::Failed(failure) => Phase::Done(
                        Outcome::Failed(RestoreFailure::Validation(failure)),
                    ),
                    _ => Phase::Validate,
                }
            },
            (Phase::Display, RestoreEvent::Shown) => self.after_display(),
            (Phase::ConfirmName, RestoreEvent::Typed(typed)) => {
                if text_eq(typed.as_str(), self.target.as_str()) {
                    Phase::EmergencyBackup
                } else {
                    Phase::Done(Outcome::Cancelled)
                }
            },
            (Phase::ConfirmOverwrite, RestoreEvent::Answered(true)) => self.seek_from(0, 0),
            (Phase::ConfirmOverwrite, RestoreEvent::Answered(false)) => Phase::Done(
                Outcome::Cancelled,
            ),
            (Phase::Pause, RestoreEvent::Resumed) => Phase::EmergencyBackup,
            (Phase::EmergencyBackup, RestoreEvent::BackedUp(true)) => self.seek_from(0, 0),
            (Phase::EmergencyBackup, RestoreEvent::BackedUp(false)) => Phase::ConfirmUnprotected,
            (Phase::ConfirmUnprotected, RestoreEvent::Answered(true)) => self.seek_from(0, 0),
            (Phase::ConfirmUnprotected, RestoreEvent::Answered(false)) => Phase::Done(
                Outcome::Cancelled,
            ),
            (Phase::Apply { app, op }, RestoreEvent::Performed(result)) => self.after_operation(
                app,
                op,
                *result,
            ),
            (Phase::FixPermissions, RestoreEvent::PlaybookRan(true)) => Phase::Done(
                Outcome::Completed(Permissions::Fixed),
            ),
            (Phase::FixPermissions, RestoreEvent::PlaybookRan(false)) => Phase::Done(
                Outcome::Completed(Permissions::Unfixed),
            ),
            _ => self.phase,
        };
        self.phase = next;
    }

    /// The command that answers the question that is due about the
    /// target host; none where no question is due.
    pub fn probe_command(&self, host: &Host, key: &str) -> (r: Option<CommandLine>)
        ensures
            match r {
                Some(command) => self@.phase is Validate && probe_at(self@.checks, *host, key@)
                    == Some(command@),
                None => !(self@.phase is Validate) || probe_at(self@.checks, *host, key@) is None,
            },
    {
        match self.phase {
            Phase::Validate => self.checks.probe(host, key),
            _ => None,
        }
    }

    /// How the restore ended; `None` while it is under way.
    pub fn outcome(&self) -> (r: Option<Outcome>)
        ensures
            r == match self@.phase {
                Phase::Done(outcome) => Some(outcome),
                _ => None,
            },
    {
        match self.phase {
            Phase::Done(outcome) => Some(outcome),
            _ => None,
        }
    }

    /// The run of the playbook that puts permissions right: the playbook
    /// of the applications of the project at `project_root`, limited to
    /// the target host and to the applications of the plan, and run for
    /// real, not to show what would change.
    pub fn permissions_run(&self, project_root: &str, vars_file: &str) -> (r: PlaybookRun)
        ensures
            r.playbook@ == joined(joined(project_root@, "ansible"@), "playbooks/apps.yml"@),
            r.ansible_dir@ == joined(project_root@, "ansible"@),
            r.host@ == self@.target,
            r.vars_file@ == vars_file@,
            !r.check,
            !r.ask_vault_pass,
            !r.ask_pass,
            r.tags matches Some(tags) && texts(tags@) == Seq::new(
                self@.apps.len(),
                |i: int| self@.apps[i].name,
            ),
            r.extra_vars@.len() == 0,
    {
        let dir = ansible_dir(project_root);
        PlaybookRun {
            playbook: join_path(dir.as_str(), "playbooks/apps.yml"),
            ansible_dir: dir,
            host: self.target.clone(),
            vars_file: String::from_str(vars_file),
            check: false,
            ask_vault_pass: false,
            ask_pass: false,
            tags: Some(self.playbook_tags()),
            extra_vars: Vec::new(),
        }
    }

    /// The tags that the playbook is run with: the names of the
    /// applications of the plan.
    pub fn playbook_tags(&self) -> (r: Vec<String>)
        ensures
            texts(r@) == Seq::new(self@.apps.len(), |i: int| self@.apps[i].name),
    {
        let mut tags: Vec<String> = Vec::new();
        let mut i: usize = 0;
        while i < self.configs.len()
            invariant
                i <= self.configs.len(),
                texts(tags@) == Seq::new(self@.apps.len(), |i: int| self@.apps[i].name).take(
                    i as int,
                ),
            decreases self.configs.len() - i,
        {
            let ghost before = texts(tags@);
            assert(profiles(self.configs@)[i as int] == self.configs@[i as int]@);
            tags.push(String::from_str(self.configs[i].name));
            assert(texts(tags@) =~= before.push(self@.apps[i as int].name));
            assert(texts(tags@) =~= Seq::new(self@.apps.len(), |i: int| self@.apps[i].name).take(
                i + 1,
            ));
            i = i + 1;
        }
        assert(texts(tags@) =~= Seq::new(self@.apps.len(), |i: int| self@.apps[i].name));
        tags
    }
}

/// Past the last operation of an application every place leads to the
/// same phase.
proof fn lemma_seek_beyond(s: RestoreState, app: nat, op: nat)
    requires
        op >= ops_of(s, app as int).len(),
    ensures
        seek(s, app, op) == seek(s, app, ops_of(s, app as int).len()),
{
}

/// The restore after a row of events, one after another.
pub open spec fn run(s: RestoreState, events: Seq<EventText>) -> RestoreState
    decreases events.len(),
{
    if events.len() == 0 {
        s
    } else {
        step(run(s, events.drop_last()), events.last())
    }
}

/// A restore that has ended stays as it ended: nothing more is due and no
/// event leads on.
pub proof fn lemma_ended_is_final(s: RestoreState, events: Seq<EventText>)
    requires
        s.phase is Done,
    ensures
        action_at(s) is None,
        run(s, events) == s,
    decreases events.len(),
{
    if events.len() > 0 {
        lemma_ended_is_final(s, events.drop_last());
    }
}

/// A target that fails a check ends the restore there and then, with the
/// failure that the check came to, so that nothing on the target is
/// touched.
pub proof fn lemma_failed_checks_end_the_restore(
    s: RestoreState,
    answer: Option<(bool, Seq<char>)>,
)
    requires
        s.phase == Phase::Validate,
        crate::validator::step(s.checks, finding_of(s.checks, answer)).stage is Failed,
    ensures
        step(s, EventText::Probed(answer)).phase == Phase::Done(
            Outcome::Failed(
                RestoreFailure::Validation(
                    crate::validator::step(s.checks, finding_of(s.checks, answer)).stage->Failed_0,
                ),
            ),
        ),
        action_at(step(s, EventText::Probed(answer))) is None,
{
}

/// A target that has too little free space for the snapshots and their
/// margin ends the restore before anything is copied.
pub proof fn lemma_too_little_space_ends_the_restore(
    s: RestoreState,
    kib: nat,
    output: Seq<char>,
)
    requires
        s.phase == Phase::Validate,
        s.checks.stage == Stage::DiskSpace,
        crate::text::unsigned_value(crate::text::trimmed(output)) == Some(kib),
        kib * 1024 < crate::validator::required_bytes(s.checks.plan_bytes),
    ensures
        step(s, EventText::Probed(Some((true, output)))).phase == Phase::Done(
            Outcome::Failed(
                RestoreFailure::Validation(
                    Failure::InsufficientSpace {
                        required: crate::validator::required_bytes(s.checks.plan_bytes),
                        available: (kib * 1024) as u64,
                    },
                ),
            ),
        ),
{
}

/// Whether a phase is one in which nothing on the target is changed yet.
pub open spec fn is_harmless(phase: Phase) -> bool {
    phase is Validate || phase is Display || phase is Done
}

/// A dry run never leaves the harmless phases: it checks, shows the plan
/// and ends.
pub proof fn lemma_dry_run_stays_harmless(s: RestoreState, event: EventText)
    requires
        s.dry_run,
        is_harmless(s.phase),
    ensures
        is_harmless(step(s, event).phase),
        s.phase is Display && event is Shown ==> step(s, event).phase == Phase::Done(
            Outcome::DryRun,
        ),
{
}

/// A restore starts in a harmless phase.
pub proof fn lemma_starts_harmless(
    target: Seq<char>,
    cross_host: bool,
    dry_run: bool,
    yes: bool,
    skip_playbook: bool,
    apps: Seq<AppProfile>,
    sources: Seq<Seq<char>>,
    checks: ValidationState,
)
    ensures
        is_harmless(
            initial(target, cross_host, dry_run, yes, skip_playbook, apps, sources, checks).phase,
        ),
{
}

/// Whether a phase belongs to a restore from another host only.
pub open spec fn is_cross_host_phase(phase: Phase) -> bool {
    phase is Validate || phase is ConfirmName || phase is Pause || phase is EmergencyBackup
        || phase is ConfirmUnprotected
}

/// Wherever the plan is entered or taken up again, what follows is an
/// operation of the plan, the playbook, or the end.
pub proof fn lemma_seek_lands(s: RestoreState, app: nat, op: nat)
    ensures
        seek(s, app, op) is Apply || seek(s, app, op) is FixPermissions || seek(s, app, op)
            == Phase::Done(Outcome::Completed(Permissions::Skipped)),
    decreases s.apps.len() - app,
{
    if app < s.apps.len() && app < s.sources.len() && op >= ops_of(s, app as int).len() {
        lemma_seek_lands(s, app + 1, 0);
    }
}

proof fn lemma_operation_lands(s: RestoreState, app: usize, op: usize, result: Performed)
    ensures
        after_operation(s, app, op, result) is Apply || after_operation(s, app, op, result)
            is FixPermissions || after_operation(s, app, op, result) is Done,
{
    lemma_seek_lands(s, app as nat, op as nat);
    lemma_seek_lands(s, app as nat, (op + 1) as nat);
    lemma_seek_lands(s, app as nat, (op + 3) as nat);
}

/// A restore of a host's own snapshots never checks the target, never asks
/// for its name, never waits and never takes an emergency backup.
pub proof fn lemma_same_host_takes_no_backup(s: RestoreState, event: EventText)
    requires
        !s.cross_host,
        !is_cross_host_phase(s.phase),
    ensures
        !is_cross_host_phase(step(s, event).phase),
{
    lemma_seek_lands(s, 0, 0);
    if let Phase::Apply { app, op } = s.phase {
        if let EventText::Performed(result) = event {
            lemma_operation_lands(s, app, op, result);
        }
    }
}

/// In a restore from another host the first operation on the target is
/// reached in two ways only: the emergency backup succeeded, or it failed
/// and the operator said to go on without it. And the emergency backup is
/// reached in two ways only: the operator typed the name of the target,
/// character for character, or had asked not to be asked and the wait is
/// over.
pub proof fn lemma_cross_host_is_guarded(s: RestoreState, event: EventText)
    requires
        s.cross_host,
        !(s.phase is ConfirmOverwrite),
    ensures
        !(step(s, event).phase is ConfirmOverwrite),
        !(s.phase is Apply) && step(s, event).phase is Apply ==> (s.phase is EmergencyBackup
            && event == EventText::BackedUp(true)) || (s.phase is ConfirmUnprotected && event
            == EventText::Answered(true)),
        !(s.phase is EmergencyBackup) && step(s, event).phase is EmergencyBackup ==> (s.phase
            is ConfirmName && (event matches EventText::Typed(typed) && typed == s.target))
            || (s.phase is Pause && event is Resumed),
        !(s.phase is Pause) && step(s, event).phase is Pause ==> s.phase is Display && s.yes
            && !s.dry_run,
        !(s.phase is Display) && step(s, event).phase is Display ==> s.phase is Validate && step(
            s,
            event,
        ).checks.stage == Stage::Passed,
{
    lemma_seek_lands(s, 0, 0);
    if let Phase::Apply { app, op } = s.phase {
        if let EventText::Performed(result) = event {
            lemma_operation_lands(s, app, op, result);
        }
    }
}

/// Whether a state of a restore from another host has the checks behind
/// it wherever it is past them: only while the target is being checked,
/// or once the restore has ended in the failure of a check, may the checks
/// be anything but passed.
pub open spec fn is_checked(s: RestoreState) -> bool {
    s.phase is Validate || (s.phase matches Phase::Done(
        Outcome::Failed(RestoreFailure::Validation(_)),
    )) || s.checks.stage == Stage::Passed
}

/// However a restore from another host goes, nothing but the checks
/// themselves happens before the target has passed them: the plan is
/// shown, the operator is asked, the target is backed up and written to
/// only with the checks passed.
pub proof fn lemma_nothing_happens_before_the_checks_pass(s: RestoreState, events: Seq<EventText>)
    requires
        s.phase == Phase::Validate,
    ensures
        is_checked(run(s, events)),
    decreases events.len(),
{
    if events.len() > 0 {
        let earlier = run(s, events.drop_last());
        lemma_nothing_happens_before_the_checks_pass(s, events.drop_last());
        lemma_seek_lands(earlier, 0, 0);
        if let Phase::Apply { app, op } = earlier.phase {
            if let EventText::Performed(result) = events.last() {
                lemma_operation_lands(earlier, app, op, result);
            }
        }
    }
}

/// However a dry run goes, it never leaves the harmless phases.
pub proof fn lemma_dry_run_touches_nothing(s: RestoreState, events: Seq<EventText>)
    requires
        s.dry_run,
        is_harmless(s.phase),
    ensures
        is_harmless(run(s, events).phase),
        run(s, events).dry_run,
    decreases events.len(),
{
    if events.len() > 0 {
        lemma_dry_run_touches_nothing(s, events.drop_last());
        lemma_dry_run_stays_harmless(run(s, events.drop_last()), events.last());
    }
}

/// However a restore of a host's own snapshots goes, it never enters a
/// phase that belongs to a restore from another host.
pub proof fn lemma_same_host_stays_plain(s: RestoreState, events: Seq<EventText>)
    requires
        !s.cross_host,
        !is_cross_host_phase(s.phase),
    ensures
        !is_cross_host_phase(run(s, events).phase),
        !run(s, events).cross_host,
    decreases events.len(),
{
    if events.len() > 0 {
        lemma_same_host_stays_plain(s, events.drop_last());
        lemma_same_host_takes_no_backup(run(s, events.drop_last()), events.last());
    }
}

/// Whatever the operator types but the name of the target itself calls a
/// restore from another host off, and a restore that is called off asks
/// for nothing more: no backup is taken and nothing on the target is
/// changed.
pub proof fn lemma_any_other_text_cancels(s: RestoreState, typed: Seq<char>)
    requires
        s.phase == Phase::ConfirmName,
        typed != s.target,
    ensures
        step(s, EventText::Typed(typed)).phase == Phase::Done(Outcome::Cancelled),
        action_at(step(s, EventText::Typed(typed))) is None,
{
}

/// A no to either question calls the restore off.
pub proof fn lemma_no_cancels(s: RestoreState)
    requires
        s.phase is ConfirmOverwrite || s.phase is ConfirmUnprotected,
    ensures
        step(s, EventText::Answered(false)).phase == Phase::Done(Outcome::Cancelled),
        action_at(step(s, EventText::Answered(false))) is None,
{
}

/// The first operation that fails ends the restore; the applications
/// behind it in the plan are not touched. The one exception is the making
/// of the directory above a path.
pub proof fn lemma_first_failure_ends_the_restore(s: RestoreState, app: usize, op: usize)
    requires
        s.phase == (Phase::Apply { app, op }),
        op < ops_of(s, app as int).len(),
        !(ops_of(s, app as int)[op as int] is MakeParent),
    ensures
        step(s, EventText::Performed(Performed::Failed)).phase == Phase::Done(
            Outcome::Failed(RestoreFailure::Operation { app, op }),
        ),
{
}

/// A failing playbook leaves the restore completed: the data stays as
/// restored.
pub proof fn lemma_playbook_is_advisory(s: RestoreState, ok: bool)
    requires
        s.phase == Phase::FixPermissions,
    ensures
        step(s, EventText::PlaybookRan(ok)).phase matches Phase::Done(Outcome::Completed(_)),
{
}

proof fn lemma_copy_ops_shape(source: Seq<char>, paths: Seq<Seq<char>>, upto: nat, i: int)
    requires
        upto <= paths.len(),
        0 <= i < copy_ops(source, paths, upto).len(),
    ensures
        copy_ops(source, paths, upto).len() == 3 * upto,
        0 <= i / 3 < upto,
        copy_ops(source, paths, upto)[i] == path_ops(source, paths[i / 3])[i % 3],
    decreases upto,
{
    if upto > 0 {
        let earlier = copy_ops(source, paths, (upto - 1) as nat);
        lemma_copy_ops_len(source, paths, (upto - 1) as nat);
        if i < earlier.len() {
            lemma_copy_ops_shape(source, paths, (upto - 1) as nat, i);
        } else {
            assert(i - earlier.len() == i % 3 && i / 3 == upto - 1) by {
                assert(earlier.len() == 3 * (upto - 1));
            }
        }
    }
}

proof fn lemma_copy_ops_len(source: Seq<char>, paths: Seq<Seq<char>>, upto: nat)
    requires
        upto <= paths.len(),
    ensures
        copy_ops(source, paths, upto).len() == 3 * upto,
    decreases upto,
{
    if upto > 0 {
        lemma_copy_ops_len(source, paths, (upto - 1) as nat);
    }
}

/// The remote path that an operation touches, if it touches one.
pub open spec fn touched_path(op: RestoreOpText) -> Option<Seq<char>> {
    match op {
        RestoreOpText::MakeParent { remote_path } => Some(remote_path),
        RestoreOpText::Reject { remote_path } => Some(remote_path),
        RestoreOpText::Mirror { remote_path, .. } => Some(remote_path),
        RestoreOpText::Chown { path, .. } => Some(path),
        _ => None,
    }
}

/// Only the paths that an application declares are ever touched, whatever
/// else its snapshot holds; and what is copied onto a path is what the
/// snapshot holds under that path.
pub proof fn lemma_only_declared_paths(profile: AppProfile, source: Seq<char>, i: int)
    requires
        0 <= i < restore_ops(profile, source).len(),
    ensures
        touched_path(restore_ops(profile, source)[i]) matches Some(path) ==> profile.paths.contains(
            path,
        ),
        restore_ops(profile, source)[i] matches RestoreOpText::Mirror { local_dir, remote_path }
            ==> local_dir == joined(source, relative(remote_path)),
{
    let ops = restore_ops(profile, source);
    let head = service_op(profile, ServiceAction::Stop);
    let copies = copy_ops(source, profile.paths, profile.paths.len());
    let owners = owner_ops(profile);
    if i < head.len() {
        assert(ops[i] == head[i]);
    } else if i < head.len() + copies.len() {
        let k = i - head.len();
        assert(ops[i] == copies[k]);
        lemma_copy_ops_shape(source, profile.paths, profile.paths.len(), k);
        assert(profile.paths.contains(profile.paths[k / 3]));
    } else if i < head.len() + copies.len() + owners.len() {
        let k = i - head.len() - copies.len();
        assert(ops[i] == owners[k]);
        assert(profile.paths.contains(profile.paths[k]));
    } else {
        let tail = service_op(profile, ServiceAction::Start);
        assert(ops[i] == tail[i - head.len() - copies.len() - owners.len()]);
    }
}

/// No path of the catalog is ever rejected: each has a directory above it.
pub proof fn lemma_catalog_paths_are_restorable(
    name: Seq<char>,
    include_music: bool,
    source: Seq<char>,
    i: int,
)
    requires
        profile_of(name, include_music) is Some,
        0 <= i < restore_ops(profile_of(name, include_music)->0, source).len(),
    ensures
        !(restore_ops(profile_of(name, include_music)->0, source)[i] is Reject),
{
    let profile = profile_of(name, include_music)->0;
    let ops = restore_ops(profile, source);
    let head = service_op(profile, ServiceAction::Stop);
    let copies = copy_ops(source, profile.paths, profile.paths.len());
    let owners = owner_ops(profile);
    if i < head.len() {
        assert(ops[i] == head[i]);
    } else if i < head.len() + copies.len() {
        let k = i - head.len();
        assert(ops[i] == copies[k]);
        lemma_copy_ops_shape(source, profile.paths, profile.paths.len(), k);
        crate::registry::lemma_paths_are_absolute(name, include_music, k / 3);
        lemma_named_has_parent(profile.paths[k / 3]);
    } else if i < head.len() + copies.len() + owners.len() {
        assert(ops[i] == owners[i - head.len() - copies.len()]);
    } else {
        let tail = service_op(profile, ServiceAction::Start);
        assert(ops[i] == tail[i - head.len() - copies.len() - owners.len()]);
    }
}

/// The command that puts permissions right by hand, for the applications
/// that the tags name.
pub open spec fn remedy_text(tags: Seq<Seq<char>>) -> Seq<char> {
    "cd ansible && ansible-playbook playbooks/apps.yml --tags "@ + joined_with(
        tags,
        ","@,
        tags.len(),
    )
}

/// Writes out the command that puts permissions right by hand.
pub fn remedy_command(tags: &Vec<String>) -> (r: String)
    ensures
        r@ == remedy_text(texts(tags@)),
{
    let list = join_texts(tags, ",");
    concat2("cd ansible && ansible-playbook playbooks/apps.yml --tags ", list.as_str())
}

} // verus!
