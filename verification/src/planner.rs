//! Restore planning: which snapshot each requested application is restored
//! from. Planning only reads a scan of the source host's snapshots, so the
//! same plan serves a preview and the real run.

use crate::fstree::{led_to, FsNode};
use crate::text::{join_path, joined, text_eq, texts};
use vstd::prelude::*;

verus! {

/// Why a requested application has no place in the plan.
#[derive(Debug, Clone, Copy, PartialEq, Eq, Structural)]
pub enum SkipReason {
    /// The host has no snapshots of the application at all.
    NoBackups,
    /// The newest snapshot was asked for and the `latest` link leads nowhere.
    NoLatest,
    /// The snapshot asked for by its timestamp does not exist.
    NotFound,
}

/// One application of the plan, as plain values.
pub struct StepRecord {
    pub app: Seq<char>,
    pub source: Seq<char>,
    pub size_bytes: nat,
}

/// One application of the plan and the snapshot it is restored from.
#[derive(Debug)]
pub struct PlannedRestore {
    pub app: String,
    pub source: String,
    pub size_bytes: u64,
}

impl View for PlannedRestore {
    type V = StepRecord;

    open spec fn view(&self) -> StepRecord {
        StepRecord { app: self.app@, source: self.source@, size_bytes: self.size_bytes as nat }
    }
}

/// A requested application that was left out, and why. It is reported as a
/// warning.
#[derive(Debug)]
pub struct SkippedApp {
    pub app: String,
    pub reason: SkipReason,
}

impl View for SkippedApp {
    type V = (Seq<char>, SkipReason);

    open spec fn view(&self) -> (Seq<char>, SkipReason) {
        (self.app@, self.reason)
    }
}

/// What is to be restored, in the order of the request.
#[derive(Debug)]
pub struct RestorePlan {
    pub steps: Vec<PlannedRestore>,
    pub skipped: Vec<SkippedApp>,
    pub total_bytes: u64,
}

/// Why there is no plan.
#[derive(Debug, Clone, Copy, PartialEq, Eq, Structural)]
pub enum PlanError {
    /// None of the requested applications has the snapshot asked for.
    NothingToRestore,
    /// The snapshots of the plan add up to more than 64 bits can hold.
    SizeOverflow,
}

/// The records of a list of planned applications, in the same order.
pub open spec fn step_records(steps: Seq<PlannedRestore>) -> Seq<StepRecord> {
    Seq::new(steps.len(), |i: int| steps[i]@)
}

/// The records of a list of skipped applications, in the same order.
pub open spec fn skip_records(skipped: Seq<SkippedApp>) -> Seq<(Seq<char>, SkipReason)> {
    Seq::new(skipped.len(), |i: int| skipped[i]@)
}

/// The snapshot that `app` is restored from, or why there is none.
///
/// `host_dir` is the scanned directory of the source host at `root`. The
/// id `latest` follows the application's `latest` link and yields the
/// snapshot that the link leads to, whether the link gives the bare name
/// of the snapshot, writes it from the application's directory (`./` and
/// the name) or gives its absolute path below `root`. A link that leads
/// out of the application's directory, or names it by another path than
/// `root` does, counts as missing: the scan holds nothing of what lies
/// there. Any other id names the snapshot literally.
pub open spec fn source_of(
    root: Seq<char>,
    host_dir: FsNode,
    backup_id: Seq<char>,
    app: Seq<char>,
) -> Result<StepRecord, SkipReason> {
    match host_dir.lookup(app) {
        None => Err(SkipReason::NoBackups),
        Some(app_dir) => match app_dir.resolve(joined(root, app), backup_id) {
            None => Err(
                if backup_id == "latest"@ {
                    SkipReason::NoLatest
                } else {
                    SkipReason::NotFound
                },
            ),
            Some((last, node)) => Ok(
                StepRecord {
                    app,
                    source: joined(
                        joined(root, app),
                        if backup_id == "latest"@ {
                            last
                        } else {
                            backup_id
                        },
                    ),
                    size_bytes: node.bytes(),
                },
            ),
        },
    }
}

/// The planned applications among the first `upto` requested.
pub open spec fn planned(
    root: Seq<char>,
    host_dir: FsNode,
    backup_id: Seq<char>,
    apps: Seq<Seq<char>>,
    upto: nat,
) -> Seq<StepRecord>
    decreases upto,
{
    if upto == 0 || upto > apps.len() {
        Seq::empty()
    } else {
        let earlier = planned(root, host_dir, backup_id, apps, (upto - 1) as nat);
        match source_of(root, host_dir, backup_id, apps[upto - 1]) {
            Ok(step) => earlier.push(step),
            Err(_) => earlier,
        }
    }
}

/// The skipped applications among the first `upto` requested.
pub open spec fn skipped(
    root: Seq<char>,
    host_dir: FsNode,
    backup_id: Seq<char>,
    apps: Seq<Seq<char>>,
    upto: nat,
) -> Seq<(Seq<char>, SkipReason)>
    decreases upto,
{
    if upto == 0 || upto > apps.len() {
        Seq::empty()
    } else {
        let earlier = skipped(root, host_dir, backup_id, apps, (upto - 1) as nat);
        match source_of(root, host_dir, backup_id, apps[upto - 1]) {
            Ok(_) => earlier,
            Err(reason) => earlier.push((apps[upto - 1], reason)),
        }
    }
}

/// The bytes of the first `upto` steps together.
pub open spec fn bytes_of_steps(steps: Seq<StepRecord>, upto: nat) -> nat
    decreases upto,
{
    if upto == 0 || upto > steps.len() {
        0
    } else {
        bytes_of_steps(steps, (upto - 1) as nat) + steps[upto - 1].size_bytes
    }
}

/// The bytes of all the steps together.
pub open spec fn plan_bytes(steps: Seq<StepRecord>) -> nat {
    bytes_of_steps(steps, steps.len())
}

proof fn lemma_bytes_of_push(steps: Seq<StepRecord>, step: StepRecord)
    ensures
        plan_bytes(steps.push(step)) == plan_bytes(steps) + step.size_bytes,
{
    lemma_bytes_of_prefix(steps.push(step), steps, steps.len());
}

proof fn lemma_bytes_of_prefix(longer: Seq<StepRecord>, shorter: Seq<StepRecord>, upto: nat)
    requires
        upto <= shorter.len() <= longer.len(),
        forall|i: int| 0 <= i < shorter.len() ==> longer[i] == shorter[i],
    ensures
        bytes_of_steps(longer, upto) == bytes_of_steps(shorter, upto),
    decreases upto,
{
    if upto > 0 {
        lemma_bytes_of_prefix(longer, shorter, (upto - 1) as nat);
    }
}

/// Later requests only add to the plan.
proof fn lemma_planned_grows(
    root: Seq<char>,
    host_dir: FsNode,
    backup_id: Seq<char>,
    apps: Seq<Seq<char>>,
    a: nat,
    b: nat,
)
    requires
        a <= b <= apps.len(),
    ensures
        planned(root, host_dir, backup_id, apps, a).len() <= planned(
            root,
            host_dir,
            backup_id,
            apps,
            b,
        ).len(),
        plan_bytes(planned(root, host_dir, backup_id, apps, a)) <= plan_bytes(
            planned(root, host_dir, backup_id, apps, b),
        ),
    decreases b,
{
    if a < b {
        lemma_planned_grows(root, host_dir, backup_id, apps, a, (b - 1) as nat);
        let earlier = planned(root, host_dir, backup_id, apps, (b - 1) as nat);
        match source_of(root, host_dir, backup_id, apps[b - 1]) {
            Ok(step) => {
                lemma_bytes_of_push(earlier, step);
            },
            Err(_) => {},
        }
    }
}

/// Resolves one request against the scan.
fn locate(root: &str, host_dir: &FsNode, backup_id: &str, app: &str) -> (r: Result<
    (String, Option<u64>),
    SkipReason,
>)
    ensures
        match r {
            Ok((source, size)) => source_of(root@, *host_dir, backup_id@, app@) matches Ok(step)
                && step.source == source@ && size == (if step.size_bytes <= u64::MAX {
                Some(step.size_bytes as u64)
            } else {
                None
            }),
            Err(reason) => source_of(root@, *host_dir, backup_id@, app@) == Err::<
                StepRecord,
                SkipReason,
            >(reason),
        },
{
    let newest = text_eq(backup_id, "latest");
    match host_dir.find(app) {
        None => Err(SkipReason::NoBackups),
        Some(app_dir) => match app_dir.follow(join_path(root, app).as_str(), backup_id) {
            None => Err(
                if newest {
                    SkipReason::NoLatest
                } else {
                    SkipReason::NotFound
                },
            ),
            Some((last, node)) => {
                let app_path = join_path(root, app);
                let source = if newest {
                    join_path(app_path.as_str(), last.as_str())
                } else {
                    join_path(app_path.as_str(), backup_id)
                };
                Ok((source, node.size()))
            },
        },
    }
}

/// Plans the restore of `apps` from the snapshot `backup_id`.
///
/// An application without that snapshot is left out and reported among the
/// skipped; only when every one is left out is there no plan.
pub fn plan(root: &str, host_dir: &FsNode, backup_id: &str, apps: &Vec<String>) -> (r: Result<
    RestorePlan,
    PlanError,
>)
    ensures
        match r {
            Ok(p) => {
                &&& step_records(p.steps@) == planned(
                    root@,
                    *host_dir,
                    backup_id@,
                    texts(apps@),
                    apps@.len(),
                )
                &&& skip_records(p.skipped@) == skipped(
                    root@,
                    *host_dir,
                    backup_id@,
                    texts(apps@),
                    apps@.len(),
                )
                &&& p.steps@.len() > 0
                &&& p.total_bytes == plan_bytes(step_records(p.steps@))
            },
            Err(PlanError::NothingToRestore) => planned(
                root@,
                *host_dir,
                backup_id@,
                texts(apps@),
                apps@.len(),
            ).len() == 0,
            Err(PlanError::SizeOverflow) => plan_bytes(
                planned(root@, *host_dir, backup_id@, texts(apps@), apps@.len()),
            ) > u64::MAX,
        },
{
    let ghost names = texts(apps@);
    let mut steps: Vec<PlannedRestore> = Vec::new();
    let mut left_out: Vec<SkippedApp> = Vec::new();
    let mut total: u64 = 0;
    let mut i: usize = 0;
    assert(step_records(steps@) =~= planned(root@, *host_dir, backup_id@, names, 0));
    assert(skip_records(left_out@) =~= skipped(root@, *host_dir, backup_id@, names, 0));
    while i < apps.len()
        invariant
            i <= apps.len(),
            names == texts(apps@),
            step_records(steps@) == planned(root@, *host_dir, backup_id@, names, i as nat),
            skip_records(left_out@) == skipped(root@, *host_dir, backup_id@, names, i as nat),
            total == plan_bytes(step_records(steps@)),
        decreases apps.len() - i,
    {
        let ghost earlier = step_records(steps@);
        let ghost earlier_skipped = skip_records(left_out@);
        let app = &apps[i];
        assert(names[i as int] == app@);
        match locate(root, host_dir, backup_id, app.as_str()) {
            Ok((source, size)) => {
                let ghost step = source_of(root@, *host_dir, backup_id@, app@)->Ok_0;
                proof {
                    lemma_bytes_of_push(earlier, step);
                    if step.size_bytes + total > u64::MAX {
                        lemma_planned_grows(
                            root@,
                            *host_dir,
                            backup_id@,
                            names,
                            (i + 1) as nat,
                            apps@.len(),
                        );
                    }
                }
                match size {
                    None => {
                        return Err(PlanError::SizeOverflow);
                    },
                    Some(size_bytes) => {
                        if size_bytes > u64::MAX - total {
                            return Err(PlanError::SizeOverflow);
                        }
                        total = total + size_bytes;
                        steps.push(PlannedRestore { app: app.clone(), source, size_bytes });
                        assert(step_records(steps@) =~= earlier.push(step));
                    },
                }
            },
            Err(reason) => {
                left_out.push(SkippedApp { app: app.clone(), reason });
                assert(skip_records(left_out@) =~= earlier_skipped.push((app@, reason)));
            },
        }
        i = i + 1;
    }
    if steps.len() == 0 {
        return Err(PlanError::NothingToRestore);
    }
    Ok(RestorePlan { steps, skipped: left_out, total_bytes: total })
}

/// Every request ends up in exactly one of the two lists, so nothing is
/// dropped in silence.
pub proof fn lemma_every_request_is_answered(
    root: Seq<char>,
    host_dir: FsNode,
    backup_id: Seq<char>,
    apps: Seq<Seq<char>>,
    upto: nat,
)
    requires
        upto <= apps.len(),
    ensures
        planned(root, host_dir, backup_id, apps, upto).len() + skipped(
            root,
            host_dir,
            backup_id,
            apps,
            upto,
        ).len() == upto,
    decreases upto,
{
    if upto > 0 {
        lemma_every_request_is_answered(root, host_dir, backup_id, apps, (upto - 1) as nat);
    }
}

/// A request without a matching snapshot is reported as skipped, and leaves
/// the rest of the plan as it would be without that request.
pub proof fn lemma_missing_snapshot_is_skipped(
    root: Seq<char>,
    host_dir: FsNode,
    backup_id: Seq<char>,
    apps: Seq<Seq<char>>,
    app: Seq<char>,
)
    requires
        source_of(root, host_dir, backup_id, app) is Err,
    ensures
        planned(root, host_dir, backup_id, apps.push(app), apps.len() + 1) == planned(
            root,
            host_dir,
            backup_id,
            apps,
            apps.len(),
        ),
        skipped(root, host_dir, backup_id, apps.push(app), apps.len() + 1) == skipped(
            root,
            host_dir,
            backup_id,
            apps,
            apps.len(),
        ).push((app, source_of(root, host_dir, backup_id, app)->Err_0)),
        planned(root, host_dir, backup_id, seq![app], 1).len() == 0,
{
    lemma_request_prefix(root, host_dir, backup_id, apps.push(app), apps, apps.len());
    assert(planned(root, host_dir, backup_id, seq![app], 0).len() == 0);
}

proof fn lemma_request_prefix(
    root: Seq<char>,
    host_dir: FsNode,
    backup_id: Seq<char>,
    longer: Seq<Seq<char>>,
    shorter: Seq<Seq<char>>,
    upto: nat,
)
    requires
        upto <= shorter.len() <= longer.len(),
        forall|i: int| 0 <= i < shorter.len() ==> longer[i] == shorter[i],
    ensures
        planned(root, host_dir, backup_id, longer, upto) == planned(
            root,
            host_dir,
            backup_id,
            shorter,
            upto,
        ),
        skipped(root, host_dir, backup_id, longer, upto) == skipped(
            root,
            host_dir,
            backup_id,
            shorter,
            upto,
        ),
    decreases upto,
{
    if upto > 0 {
        lemma_request_prefix(root, host_dir, backup_id, longer, shorter, (upto - 1) as nat);
    }
}

/// After a snapshot `stamp` of `app` has been completed, which leaves the
/// snapshot's directory in place and the `latest` link leading to it, the
/// id `latest` leads to that very directory, however the link is written.
pub proof fn lemma_latest_leads_to_newest(
    root: Seq<char>,
    host_dir: FsNode,
    app: Seq<char>,
    stamp: Seq<char>,
)
    requires
        host_dir.lookup(app) matches Some(app_dir) && (app_dir.lookup("latest"@) matches Some(
            FsNode::Link { target, .. },
        ) && led_to(joined(root, app), target@) == Some(stamp)) && (app_dir.lookup(stamp) matches Some(
            node,
        ) && node is Dir),
    ensures
        source_of(root, host_dir, "latest"@, app) matches Ok(step) && step.source == joined(
            joined(root, app),
            stamp,
        ),
{
}

} // verus!
