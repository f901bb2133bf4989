//! Checks made on the target host before data of another host is restored
//! onto it. They run in a fixed order, the cheap and decisive ones first,
//! and stop at the first that fails for certain:
//!
//! 1. the host answers;
//! 2. every service that the applications declare exists there;
//! 3. the free space covers the snapshots with a margin.
//!
//! A service or the space that could not be asked about only leaves a
//! warning.

use crate::hosts::Host;
use crate::registry::{profiles, AppBackupConfig, AppProfile};
use crate::remote::{
    available_bytes, disk_probe_text, free_space, liveness_text, service_listed,
    service_probe_text, unit_listed, CommandLine, CommandText,
};
use crate::text::texts;
use vstd::prelude::*;

verus! {

/// The share of the snapshots' size that must be free on top of it, in
/// percent.
pub const SPACE_MARGIN_PERCENT: u64 = 20;

/// The path whose file system must have the space.
pub open spec fn space_path() -> Seq<char> {
    "/"@
}

/// The path whose file system must have the space.
pub fn free_space_path() -> (r: &'static str)
    ensures
        r@ == space_path(),
{
    "/"
}

/// The free space that snapshots of `plan_bytes` bytes ask for.
pub open spec fn required_space(plan_bytes: nat) -> nat {
    plan_bytes * (100 + SPACE_MARGIN_PERCENT as nat) / 100
}

/// The free space asked for, held to what 64 bits can say.
pub open spec fn required_bytes(plan_bytes: u64) -> u64 {
    if required_space(plan_bytes as nat) <= u64::MAX {
        required_space(plan_bytes as nat) as u64
    } else {
        u64::MAX
    }
}

/// Computes the free space that snapshots of `plan_bytes` bytes ask for.
pub fn space_needed(plan_bytes: u64) -> (r: u64)
    ensures
        r == required_bytes(plan_bytes),
{
    let factor: u128 = (100 + SPACE_MARGIN_PERCENT) as u128;
    assert(plan_bytes as u128 * factor <= u64::MAX as u128 * 120) by (nonlinear_arith)
        requires
            factor == 120,
            plan_bytes <= u64::MAX,
    ;
    let wide: u128 = (plan_bytes as u128) * factor / 100;
    if wide > u64::MAX as u128 {
        u64::MAX
    } else {
        wide as u64
    }
}

/// Why the target host must not be restored onto.
#[derive(Debug, Clone, Copy, PartialEq, Eq, Structural)]
pub enum Failure {
    /// The host did not answer.
    Unreachable,
    /// The service at this position of the list does not exist on the host.
    ServiceMissing { index: usize },
    /// The host has less free space than the snapshots ask for.
    InsufficientSpace { required: u64, available: u64 },
}

/// What could not be checked.
#[derive(Debug, Clone, Copy, PartialEq, Eq, Structural)]
pub enum Warning {
    /// Whether the service at this position exists could not be found out.
    ServiceUnchecked { index: usize },
    /// The free space could not be found out.
    SpaceUnchecked,
}

/// How far the checks have come.
#[derive(Debug, Clone, Copy, PartialEq, Eq, Structural)]
pub enum Stage {
    /// Waiting to hear whether the host answers.
    Reachability,
    /// Waiting to hear whether the service at this position exists.
    Service { index: usize },
    /// Waiting to hear how much space is free.
    DiskSpace,
    /// Every check is done and none failed.
    Passed,
    /// A check failed; nothing more is asked.
    Failed(Failure),
}

/// What is to be found out next.
#[derive(Debug, Clone, Copy, PartialEq, Eq, Structural)]
pub enum Query {
    /// Does the host answer?
    Reachability,
    /// Does the service at this position of the list exist?
    ServiceExists { index: usize },
    /// How much space is free below `space_path`?
    FreeSpace,
}

/// What was found out. `None` stands for a question that could not be
/// asked or whose answer could not be read.
#[derive(Debug, Clone, Copy, PartialEq, Eq, Structural)]
pub enum Finding {
    Reachable(bool),
    ServiceExists(Option<bool>),
    FreeSpace(Option<u64>),
}

/// The checks of one target host, as plain values.
pub struct ValidationState {
    pub services: Seq<Seq<char>>,
    pub plan_bytes: u64,
    pub stage: Stage,
    pub warnings: Seq<Warning>,
}

/// The checks of one target host.
#[derive(Debug)]
pub struct Validation {
    pub services: Vec<String>,
    pub plan_bytes: u64,
    pub stage: Stage,
    pub warnings: Vec<Warning>,
}

impl View for Validation {
    type V = ValidationState;

    open spec fn view(&self) -> ValidationState {
        ValidationState {
            services: texts(self.services@),
            plan_bytes: self.plan_bytes,
            stage: self.stage,
            warnings: self.warnings@,
        }
    }
}

/// The services that the first `upto` applications declare, in order.
pub open spec fn declared_services(apps: Seq<AppProfile>, upto: nat) -> Seq<Seq<char>>
    decreases upto,
{
    if upto == 0 || upto > apps.len() {
        Seq::empty()
    } else {
        let earlier = declared_services(apps, (upto - 1) as nat);
        match apps[upto - 1].service {
            Some(service) => earlier.push(service),
            None => earlier,
        }
    }
}

/// The stage that follows the check of the service at `index`.
pub open spec fn after_service(services: Seq<Seq<char>>, index: usize) -> Stage {
    if index + 1 < services.len() {
        Stage::Service { index: (index + 1) as usize }
    } else {
        Stage::DiskSpace
    }
}

/// The checks before anything has been found out.
pub open spec fn initial(services: Seq<Seq<char>>, plan_bytes: u64) -> ValidationState {
    ValidationState { services, plan_bytes, stage: Stage::Reachability, warnings: Seq::empty() }
}

/// What is asked at a stage; nothing once the checks have ended.
pub open spec fn query_at(v: ValidationState) -> Option<Query> {
    match v.stage {
        Stage::Reachability => Some(Query::Reachability),
        Stage::Service { index } => Some(Query::ServiceExists { index }),
        Stage::DiskSpace => Some(Query::FreeSpace),
        Stage::Passed => None,
        Stage::Failed(_) => None,
    }
}

/// The checks after a finding. A finding that answers another question
/// than the one asked changes nothing.
pub open spec fn step(v: ValidationState, finding: Finding) -> ValidationState {
    match (v.stage, finding) {
        (Stage::Reachability, Finding::Reachable(true)) => ValidationState {
            stage: if v.services.len() > 0 {
                Stage::Service { index: 0 }
            } else {
                Stage::DiskSpace
            },
            ..v
        },
        (Stage::Reachability, Finding::Reachable(false)) => ValidationState {
            stage: Stage::Failed(Failure::Unreachable),
            ..v
        },
        (Stage::Service { index }, Finding::ServiceExists(Some(true))) => ValidationState {
            stage: after_service(v.services, index),
            ..v
        },
        (Stage::Service { index }, Finding::ServiceExists(Some(false))) => ValidationState {
            stage: Stage::Failed(Failure::ServiceMissing { index }),
            ..v
        },
        (Stage::Service { index }, Finding::ServiceExists(None)) => ValidationState {
            stage: after_service(v.services, index),
            warnings: v.warnings.push(Warning::ServiceUnchecked { index }),
            ..v
        },
        (Stage::DiskSpace, Finding::FreeSpace(Some(available))) => ValidationState {
            stage: if available < required_bytes(v.plan_bytes) {
                Stage::Failed(
                    Failure::InsufficientSpace {
                        required: required_bytes(v.plan_bytes),
                        available,
                    },
                )
            } else {
                Stage::Passed
            },
            ..v
        },
        (Stage::DiskSpace, Finding::FreeSpace(None)) => ValidationState {
            stage: Stage::Passed,
            warnings: v.warnings.push(Warning::SpaceUnchecked),
            ..v
        },
        _ => v,
    }
}

/// The command that finds out what is asked at a stage; none once the
/// checks have ended.
pub open spec fn probe_at(v: ValidationState, host: Host, key: Seq<char>) -> Option<CommandText> {
    match v.stage {
        Stage::Reachability => Some(liveness_text(host, key)),
        Stage::Service { index } => if index < v.services.len() {
            Some(service_probe_text(host, key, v.services[index as int]))
        } else {
            None
        },
        Stage::DiskSpace => Some(disk_probe_text(host, key, space_path())),
        Stage::Passed => None,
        Stage::Failed(_) => None,
    }
}

/// What the answer to the command of a stage says. An answer is whether
/// the command succeeded and what it printed; there is none where the
/// command could not be run at all. A host counts as answering only
/// where the command succeeded.
pub open spec fn finding_of(v: ValidationState, answer: Option<(bool, Seq<char>)>) -> Finding {
    match v.stage {
        Stage::Service { index } => Finding::ServiceExists(
            match answer {
                Some((succeeded, output)) => if index < v.services.len() {
                    Some(unit_listed(succeeded, output, v.services[index as int]))
                } else {
                    None
                },
                None => None,
            },
        ),
        Stage::DiskSpace => Finding::FreeSpace(
            match answer {
                Some((succeeded, output)) => free_space(succeeded, output),
                None => None,
            },
        ),
        _ => Finding::Reachable(answer matches Some((succeeded, _)) && succeeded),
    }
}

impl Validation {
    /// The command that finds out what is asked next.
    pub fn probe(&self, host: &Host, key: &str) -> (r: Option<CommandLine>)
        ensures
            match r {
                Some(command) => probe_at(self@, *host, key@) == Some(command@),
                None => probe_at(self@, *host, key@) is None,
            },
    {
        match self.stage {
            Stage::Reachability => Some(CommandLine::liveness(host, key)),
            Stage::Service { index } => {
                if index < self.services.len() {
                    assert(texts(self.services@)[index as int] == self.services@[index as int]@);
                    Some(CommandLine::service_probe(host, key, self.services[index].as_str()))
                } else {
                    None
                }
            },
            Stage::DiskSpace => Some(CommandLine::disk_probe(host, key, free_space_path())),
            Stage::Passed => None,
            Stage::Failed(_) => None,
        }
    }

    /// Takes in the answer to the command that `probe` gave.
    pub fn read(&mut self, answer: Option<(bool, &str)>)
        ensures
            final(self)@ == step(
                old(self)@,
                finding_of(
                    old(self)@,
                    match answer {
                        Some((succeeded, output)) => Some((succeeded, output@)),
                        None => None,
                    },
                ),
            ),
    {
        let finding = match self.stage {
            Stage::Service { index } => Finding::ServiceExists(
                match answer {
                    Some((succeeded, output)) => {
                        if index < self.services.len() {
                            assert(texts(self.services@)[index as int]
                                == self.services@[index as int]@);
                            Some(service_listed(succeeded, output, self.services[index].as_str()))
                        } else {
                            None
                        }
                    },
                    None => None,
                },
            ),
            Stage::DiskSpace => Finding::FreeSpace(
                match answer {
                    Some((succeeded, output)) => available_bytes(succeeded, output),
                    None => None,
                },
            ),
            _ => Finding::Reachable(
                match answer {
                    Some((succeeded, _)) => succeeded,
                    None => false,
                },
            ),
        };
        self.record(finding);
    }

    /// Sets up the checks for restoring `apps`, whose snapshots hold
    /// `plan_bytes` bytes.
    pub fn begin(apps: &Vec<AppBackupConfig>, plan_bytes: u64) -> (r: Self)
        ensures
            r@ == initial(declared_services(profiles(apps@), apps@.len()), plan_bytes),
    {
        let mut services: Vec<String> = Vec::new();
        let mut i: usize = 0;
        assert(texts(services@) =~= declared_services(profiles(apps@), 0));
        while i < apps.len()
            invariant
                i <= apps.len(),
                texts(services@) == declared_services(profiles(apps@), i as nat),
            decreases apps.len() - i,
        {
            let ghost earlier = texts(services@);
            assert(profiles(apps@)[i as int] == apps@[i as int]@);
            match apps[i].systemd_service {
                Some(service) => {
                    services.push(String::from_str(service));
                    assert(texts(services@) =~= earlier.push(service@));
                },
                None => {},
            }
            i = i + 1;
        }
        Validation { services, plan_bytes, stage: Stage::Reachability, warnings: Vec::new() }
    }

    /// What is to be found out next; `None` once the checks have ended.
    pub fn next_query(&self) -> (r: Option<Query>)
        ensures
            r == query_at(self@),
    {
        match self.stage {
            Stage::Reachability => Some(Query::Reachability),
            Stage::Service { index } => Some(Query::ServiceExists { index }),
            Stage::DiskSpace => Some(Query::FreeSpace),
            Stage::Passed => None,
            Stage::Failed(_) => None,
        }
    }

    /// Takes in what was found out.
    pub fn record(&mut self, finding: Finding)
        ensures
            final(self)@ == step(old(self)@, finding),
    {
        match (self.stage, finding) {
            (Stage::Reachability, Finding::Reachable(true)) => {
                self.stage = if self.services.len() > 0 {
                    Stage::Service { index: 0 }
                } else {
                    Stage::DiskSpace
                };
            },
            (Stage::Reachability, Finding::Reachable(false)) => {
                self.stage = Stage::Failed(Failure::Unreachable);
            },
            (Stage::Service { index }, Finding::ServiceExists(Some(true))) => {
                self.stage = self.following(index);
            },
            (Stage::Service { index }, Finding::ServiceExists(Some(false))) => {
                self.stage = Stage::Failed(Failure::ServiceMissing { index });
            },
            (Stage::Service { index }, Finding::ServiceExists(None)) => {
                self.stage = self.following(index);
                self.warnings.push(Warning::ServiceUnchecked { index });
            },
            (Stage::DiskSpace, Finding::FreeSpace(Some(available))) => {
                let required = space_needed(self.plan_bytes);
                self.stage = if available < required {
                    Stage::Failed(Failure::InsufficientSpace { required, available })
                } else {
                    Stage::Passed
                };
            },
            (Stage::DiskSpace, Finding::FreeSpace(None)) => {
                self.stage = Stage::Passed;
                self.warnings.push(Warning::SpaceUnchecked);
            },
            _ => {},
        }
    }

    fn following(&self, index: usize) -> (r: Stage)
        ensures
            r == after_service(texts(self.services@), index),
    {
        if index < self.services.len() && index + 1 < self.services.len() {
            Stage::Service { index: index + 1 }
        } else {
            Stage::DiskSpace
        }
    }

    /// Whether the checks have ended, either way.
    pub fn is_over(&self) -> (r: bool)
        ensures
            r == (query_at(self@) is None),
    {
        match self.stage {
            Stage::Passed => true,
            Stage::Failed(_) => true,
            _ => false,
        }
    }

    /// The name of the service at a position of the list.
    pub fn service(&self, index: usize) -> (r: Option<&str>)
        ensures
            match r {
                Some(name) => index < self@.services.len() && name@ == self@.services[index as int],
                None => index >= self@.services.len(),
            },
    {
        if index < self.services.len() {
            Some(self.services[index].as_str())
        } else {
            None
        }
    }
}

/// The checks after a row of findings, one after another.
pub open spec fn run(v: ValidationState, findings: Seq<Finding>) -> ValidationState
    decreases findings.len(),
{
    if findings.len() == 0 {
        v
    } else {
        step(run(v, findings.drop_last()), findings.last())
    }
}

/// Nothing changes the outcome once the checks have ended: after a failure
/// no finding leads on, and nothing more is asked.
pub proof fn lemma_ended_is_final(v: ValidationState, findings: Seq<Finding>)
    requires
        query_at(v) is None,
    ensures
        run(v, findings) == v,
    decreases findings.len(),
{
    if findings.len() > 0 {
        lemma_ended_is_final(v, findings.drop_last());
    }
}

/// Whether a stage can be where the checks stand: a service that is asked
/// about or missing is one of the list, and space is called insufficient
/// only where less is free than is asked for.
pub open spec fn is_sound(v: ValidationState) -> bool {
    match v.stage {
        Stage::Service { index } => index < v.services.len(),
        Stage::Failed(Failure::ServiceMissing { index }) => index < v.services.len(),
        Stage::Failed(Failure::InsufficientSpace { required, available }) => required
            == required_bytes(v.plan_bytes) && available < required,
        _ => true,
    }
}

/// However the checks go, they only ever name a service of the list, and
/// they only fail for want of space where less is free than is asked for.
pub proof fn lemma_checks_stay_sound(v: ValidationState, findings: Seq<Finding>)
    requires
        is_sound(v),
    ensures
        is_sound(run(v, findings)),
        run(v, findings).services == v.services,
        run(v, findings).plan_bytes == v.plan_bytes,
    decreases findings.len(),
{
    if findings.len() > 0 {
        lemma_checks_stay_sound(v, findings.drop_last());
    }
}

/// Whether the row of findings holds the news that the host answers.
pub open spec fn heard_from_host(findings: Seq<Finding>) -> bool {
    exists|i: int| 0 <= i < findings.len() && #[trigger] findings[i] == Finding::Reachable(true)
}

/// However the checks go, nothing is asked of a host and nothing passes
/// before the host has answered.
pub proof fn lemma_the_host_answers_first(
    services: Seq<Seq<char>>,
    plan_bytes: u64,
    findings: Seq<Finding>,
)
    ensures
        heard_from_host(findings) || run(initial(services, plan_bytes), findings).stage
            is Reachability || run(initial(services, plan_bytes), findings).stage == Stage::Failed(
            Failure::Unreachable,
        ),
    decreases findings.len(),
{
    if findings.len() > 0 {
        let earlier = findings.drop_last();
        lemma_the_host_answers_first(services, plan_bytes, earlier);
        if heard_from_host(earlier) {
            let i = choose|i: int|
                0 <= i < earlier.len() && #[trigger] earlier[i] == Finding::Reachable(true);
            assert(findings[i] == Finding::Reachable(true));
        } else if findings.last() == Finding::Reachable(true) {
            assert(findings[findings.len() - 1] == Finding::Reachable(true));
        }
    }
}

/// Less free space than the snapshots ask for, margin included, fails the
/// checks, whatever was found out before.
pub proof fn lemma_insufficient_space_is_fatal(v: ValidationState, available: u64)
    requires
        v.stage == Stage::DiskSpace,
        available < required_bytes(v.plan_bytes),
    ensures
        step(v, Finding::FreeSpace(Some(available))).stage == Stage::Failed(
            Failure::InsufficientSpace { required: required_bytes(v.plan_bytes), available },
        ),
        query_at(step(v, Finding::FreeSpace(Some(available)))) is None,
{
}

/// A service that is known to be missing fails the checks at once, before
/// the space is asked about.
pub proof fn lemma_missing_service_is_fatal(v: ValidationState, index: usize)
    requires
        v.stage == (Stage::Service { index }),
    ensures
        step(v, Finding::ServiceExists(Some(false))).stage == Stage::Failed(
            Failure::ServiceMissing { index },
        ),
        query_at(step(v, Finding::ServiceExists(Some(false)))) is None,
{
}

/// A host that does not answer fails the checks before anything else is
/// asked.
pub proof fn lemma_unreachable_is_fatal(services: Seq<Seq<char>>, plan_bytes: u64)
    ensures
        query_at(initial(services, plan_bytes)) == Some(Query::Reachability),
        query_at(step(initial(services, plan_bytes), Finding::Reachable(false))) is None,
        step(initial(services, plan_bytes), Finding::Reachable(false)).stage == Stage::Failed(
            Failure::Unreachable,
        ),
{
}

/// A question that could not be answered never fails the checks: it leaves
/// a warning and the checks go on.
pub proof fn lemma_unanswered_is_a_warning(v: ValidationState)
    ensures
        v.stage is Service ==> !(step(v, Finding::ServiceExists(None)).stage
            is Failed) && step(v, Finding::ServiceExists(None)).warnings.len()
            == v.warnings.len() + 1,
        v.stage is DiskSpace ==> step(v, Finding::FreeSpace(None)).stage
            == Stage::Passed && step(v, Finding::FreeSpace(None)).warnings.len()
            == v.warnings.len() + 1,
{
}

/// The margin is a fifth: the space asked for is the size and a fifth of
/// it, rounded down.
pub proof fn lemma_margin_is_a_fifth(plan_bytes: nat)
    ensures
        required_space(plan_bytes) == (plan_bytes * 6) / 5,
        required_space(plan_bytes) >= plan_bytes,
{
    assert(plan_bytes * 120 / 100 == (plan_bytes * 6) / 5) by (nonlinear_arith);
}

} // verus!
