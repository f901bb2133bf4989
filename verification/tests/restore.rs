use auberge::fstree::FsNode;
use auberge::hosts::Host;
use auberge::planner::{plan, PlannedRestore, RestorePlan};
use auberge::registry::AppBackupConfig;
use auberge::remote::ServiceAction;
use auberge::restore::{
    remedy_command, restore_operations, BeginError, Outcome, Performed, Permissions, Phase,
    RestoreAction, RestoreEvent, RestoreFailure, RestoreOp, RestoreOptions, RestoreRun, Task,
    CONFIRM_DELAY_SECONDS,
};
use auberge::validator::{Failure, Query, Stage, Warning};

fn options(from: Option<&str>, dry_run: bool, yes: bool, skip: bool) -> RestoreOptions {
    RestoreOptions {
        backup_id: "latest".to_string(),
        host_arg: Some("h1".to_string()),
        from_host_arg: from.map(|s| s.to_string()),
        apps: None,
        ssh_key: None,
        dry_run,
        yes,
        skip_playbook_unsafe: skip,
    }
}

fn a_plan(apps: &[&str]) -> RestorePlan {
    RestorePlan {
        steps: apps
            .iter()
            .map(|a| PlannedRestore {
                app: a.to_string(),
                source: format!("/backups/h2/{}/s", a),
                size_bytes: 10,
            })
            .collect(),
        skipped: vec![],
        total_bytes: 10 * apps.len() as u64,
    }
}

fn host() -> Host {
    Host {
        name: "h1".to_string(),
        address: "10.0.0.1".to_string(),
        user: "admin".to_string(),
        port: 22,
        ssh_key: None,
        tags: vec![],
        description: None,
        python_interpreter: None,
        become_method: "sudo".to_string(),
    }
}

fn start(opts: &RestoreOptions, apps: &[&str]) -> Result<RestoreRun, BeginError> {
    let requested: Vec<AppBackupConfig> =
        apps.iter().filter_map(|a| AppBackupConfig::by_name(a, false)).collect();
    RestoreRun::begin("h1", opts, &a_plan(apps), &requested)
}

/// Answers every question about the target so that it passes.
fn pass_checks(run: &mut RestoreRun) {
    while let Some(RestoreAction::Probe(query)) = run.current() {
        let printed = match query {
            Query::Reachability => "ok\n".to_string(),
            Query::ServiceExists { index } => {
                format!("{}.service enabled\n", run.checks.service(index).unwrap())
            }
            Query::FreeSpace => "99999999\n".to_string(),
        };
        run.record(RestoreEvent::Probed(Some((true, printed))));
    }
}

fn describe(op: &RestoreOp) -> String {
    match op {
        RestoreOp::Service { action: ServiceAction::Stop, service } => format!("stop {}", service),
        RestoreOp::Service { action: ServiceAction::Start, service } => format!("start {}", service),
        RestoreOp::Locate { local_dir } => format!("locate {}", local_dir),
        RestoreOp::MakeParent { remote_path } => format!("parent {}", remote_path),
        RestoreOp::Reject { remote_path } => format!("reject {}", remote_path),
        RestoreOp::Mirror { local_dir, remote_path } => format!("mirror {} {}", local_dir, remote_path),
        RestoreOp::Chown { path, user, group } => format!("chown {}:{} {}", user, group, path),
    }
}

fn perform_all(run: &mut RestoreRun) -> Vec<String> {
    let mut seen = Vec::new();
    while let Some(RestoreAction::Perform(op)) = run.current() {
        seen.push(describe(&op));
        run.record(RestoreEvent::Performed(Performed::Done));
    }
    seen
}

#[test]
fn the_source_is_the_target_unless_another_host_is_named() {
    assert_eq!(options(None, false, false, false).source_host("h1"), "h1");
    assert_eq!(options(Some("h2"), false, false, false).source_host("h1"), "h2");
    assert!(!options(None, false, false, false).is_cross_host("h1"));
    assert!(!options(Some("h1"), false, false, false).is_cross_host("h1"));
    assert!(options(Some("h2"), false, false, false).is_cross_host("h1"));
}

#[test]
fn the_whole_catalog_is_restored_where_no_app_is_named() {
    let all = options(None, false, false, false).requested_apps();
    assert_eq!(all, vec!["radicale", "freshrss", "navidrome", "calibre", "webdav"]);
    let mut some = options(None, false, false, false);
    some.apps = Some(vec!["webdav".to_string(), "calibre".to_string()]);
    assert_eq!(some.requested_apps(), vec!["webdav", "calibre"]);
}

#[test]
fn operations_of_restoring_an_app() {
    let config = AppBackupConfig::by_name("radicale", false).unwrap();
    let ops = restore_operations(&config, "/backups/h1/radicale/s");
    let got: Vec<String> = ops.iter().map(describe).collect();
    assert_eq!(
        got,
        vec![
            "stop radicale",
            "locate /backups/h1/radicale/s/var/lib/radicale/collections",
            "parent /var/lib/radicale/collections",
            "mirror /backups/h1/radicale/s/var/lib/radicale/collections /var/lib/radicale/collections",
            "locate /backups/h1/radicale/s/etc/radicale",
            "parent /etc/radicale",
            "mirror /backups/h1/radicale/s/etc/radicale /etc/radicale",
            "chown radicale:radicale /var/lib/radicale/collections",
            "chown radicale:radicale /etc/radicale",
            "start radicale",
        ]
    );
}

#[test]
fn operations_of_restoring_an_app_without_service_or_owner() {
    let config = AppBackupConfig::by_name("webdav", false).unwrap();
    let ops = restore_operations(&config, "/b/h/webdav/s");
    let got: Vec<String> = ops.iter().map(describe).collect();
    assert_eq!(
        got,
        vec![
            "locate /b/h/webdav/s/var/www/webdav-files",
            "parent /var/www/webdav-files",
            "mirror /b/h/webdav/s/var/www/webdav-files /var/www/webdav-files",
        ]
    );
}

#[test]
fn only_declared_paths_are_touched() {
    for config in AppBackupConfig::all() {
        for op in restore_operations(&config, "/b/h/a/s") {
            let touched = match &op {
                RestoreOp::MakeParent { remote_path } => Some(remote_path.clone()),
                RestoreOp::Reject { remote_path } => Some(remote_path.clone()),
                RestoreOp::Mirror { remote_path, .. } => Some(remote_path.clone()),
                RestoreOp::Chown { path, .. } => Some(path.clone()),
                _ => None,
            };
            if let Some(path) = touched {
                assert!(config.paths.contains(&path.as_str()));
            }
            assert!(!matches!(op, RestoreOp::Reject { .. }));
        }
    }
}

#[test]
fn a_path_without_a_directory_above_it_is_rejected() {
    let odd = AppBackupConfig {
        name: "odd",
        systemd_service: None,
        paths: vec!["/", "/srv/x"],
        owner: None,
    };
    let ops = restore_operations(&odd, "/b");
    let got: Vec<String> = ops.iter().map(describe).collect();
    assert_eq!(
        got,
        vec!["locate /b/", "reject /", "mirror /b/ /", "locate /b/srv/x", "parent /srv/x", "mirror /b/srv/x /srv/x"]
    );
    assert!(matches!(ops[1].task(&host(), "/k"), Task::Invalid { .. }));
}

#[test]
fn tasks_of_operations() {
    let config = AppBackupConfig::by_name("radicale", false).unwrap();
    let ops = restore_operations(&config, "/b/h1/radicale/s");
    match ops[1].task(&host(), "/k") {
        Task::CheckLocal { path } => assert_eq!(path, "/b/h1/radicale/s/var/lib/radicale/collections"),
        other => panic!("expected a local check, got {:?}", other),
    }
    match ops[2].task(&host(), "/k") {
        Task::Run(c) => {
            assert_eq!(c.program, "ssh");
            assert_eq!(
                c.args,
                vec!["-i", "/k", "-p", "22", "admin@10.0.0.1", "sudo", "mkdir", "-p", "/var/lib/radicale"]
            );
        }
        other => panic!("expected a command, got {:?}", other),
    }
    match ops[3].task(&host(), "/k") {
        Task::Run(c) => {
            assert_eq!(c.program, "rsync");
            assert!(c.args.contains(&"--delete".to_string()));
            assert_eq!(c.args[c.args.len() - 2], "/b/h1/radicale/s/var/lib/radicale/collections/");
            assert_eq!(c.args[c.args.len() - 1], "admin@10.0.0.1:/var/lib/radicale/collections");
        }
        other => panic!("expected a command, got {:?}", other),
    }
    match ops[7].task(&host(), "/k") {
        Task::Run(c) => assert_eq!(
            &c.args[c.args.len() - 5..],
            ["sudo", "chown", "-R", "radicale:radicale", "/var/lib/radicale/collections"]
        ),
        other => panic!("expected a command, got {:?}", other),
    }
    match ops[0].task(&host(), "/k") {
        Task::Run(c) => assert_eq!(&c.args[c.args.len() - 4..], ["sudo", "systemctl", "stop", "radicale"]),
        other => panic!("expected a command, got {:?}", other),
    }
}

#[test]
fn a_restore_of_own_snapshots_asks_once_and_applies() {
    let mut run = start(&options(None, false, false, false), &["webdav"]).unwrap();
    assert!(!run.cross_host);
    assert!(matches!(run.current(), Some(RestoreAction::ShowPlan)));
    run.record(RestoreEvent::Shown);
    assert!(matches!(run.current(), Some(RestoreAction::AskOverwrite)));
    run.record(RestoreEvent::Answered(true));
    assert_eq!(run.phase, Phase::Apply { app: 0, op: 0 });
    let seen = perform_all(&mut run);
    assert_eq!(seen.len(), 3);
    assert!(matches!(run.current(), Some(RestoreAction::RunPlaybook)));
    assert_eq!(run.playbook_tags(), vec!["webdav"]);
    run.record(RestoreEvent::PlaybookRan(true));
    assert_eq!(run.outcome(), Some(Outcome::Completed(Permissions::Fixed)));
    assert!(run.current().is_none());
}

#[test]
fn saying_no_calls_the_restore_off() {
    let mut run = start(&options(None, false, false, false), &["webdav"]).unwrap();
    run.record(RestoreEvent::Shown);
    run.record(RestoreEvent::Answered(false));
    assert_eq!(run.outcome(), Some(Outcome::Cancelled));
    assert!(run.current().is_none());
}

#[test]
fn a_dry_run_ends_after_the_plan_is_shown() {
    let mut run = start(&options(None, true, false, false), &["webdav"]).unwrap();
    assert!(matches!(run.current(), Some(RestoreAction::ShowPlan)));
    run.record(RestoreEvent::Shown);
    assert_eq!(run.outcome(), Some(Outcome::DryRun));
    assert!(run.current().is_none());
    run.record(RestoreEvent::Answered(true));
    run.record(RestoreEvent::Performed(Performed::Done));
    assert_eq!(run.outcome(), Some(Outcome::DryRun));
}

#[test]
fn a_dry_run_from_another_host_still_checks_the_target() {
    let mut run =
        start(&options(Some("h2"), true, true, false), &["webdav"]).unwrap();
    assert!(matches!(run.current(), Some(RestoreAction::Probe(Query::Reachability))));
    pass_checks(&mut run);
    assert!(matches!(run.current(), Some(RestoreAction::ShowPlan)));
    run.record(RestoreEvent::Shown);
    assert_eq!(run.outcome(), Some(Outcome::DryRun));
}

#[test]
fn a_restore_from_another_host_needs_the_name_of_the_target() {
    let mut run =
        start(&options(Some("h2"), false, false, true), &["webdav"]).unwrap();
    assert!(run.cross_host);
    assert!(matches!(run.current(), Some(RestoreAction::Probe(Query::Reachability))));
    pass_checks(&mut run);
    assert_eq!(run.checks.stage, Stage::Passed);
    run.record(RestoreEvent::Shown);
    assert!(matches!(run.current(), Some(RestoreAction::AskHostName)));
    run.record(RestoreEvent::Typed("h1".to_string()));
    assert!(matches!(run.current(), Some(RestoreAction::EmergencyBackup)));
    run.record(RestoreEvent::BackedUp(true));
    assert_eq!(run.phase, Phase::Apply { app: 0, op: 0 });
    perform_all(&mut run);
    assert_eq!(run.outcome(), Some(Outcome::Completed(Permissions::Skipped)));
}

#[test]
fn the_wrong_name_calls_the_restore_off() {
    for typed in ["h2", "H1", "", "h1x", "yes", " h1", "h1 ", "  h1 \n", "h1\n", "\th1"] {
        let mut run =
            start(&options(Some("h2"), false, false, false), &["webdav"])
                .unwrap();
        pass_checks(&mut run);
        run.record(RestoreEvent::Shown);
        run.record(RestoreEvent::Typed(typed.to_string()));
        assert_eq!(run.outcome(), Some(Outcome::Cancelled));
    }
}

#[test]
fn not_asking_inserts_a_wait_before_a_restore_from_another_host() {
    let mut run =
        start(&options(Some("h2"), false, true, false), &["webdav"]).unwrap();
    pass_checks(&mut run);
    run.record(RestoreEvent::Shown);
    match run.current() {
        Some(RestoreAction::Pause { seconds }) => {
            assert_eq!(seconds, 3);
            assert_eq!(seconds, CONFIRM_DELAY_SECONDS);
        }
        other => panic!("expected a wait, got {:?}", other),
    }
    run.record(RestoreEvent::Resumed);
    assert!(matches!(run.current(), Some(RestoreAction::EmergencyBackup)));
}

#[test]
fn not_asking_goes_straight_to_work_on_own_snapshots() {
    let mut run = start(&options(None, false, true, false), &["webdav"]).unwrap();
    run.record(RestoreEvent::Shown);
    assert_eq!(run.phase, Phase::Apply { app: 0, op: 0 });
}

#[test]
fn a_failed_emergency_backup_is_put_to_the_operator() {
    for (answer, expected) in [(true, None), (false, Some(Outcome::Cancelled))] {
        let mut run =
            start(&options(Some("h2"), false, true, false), &["webdav"])
                .unwrap();
        pass_checks(&mut run);
        run.record(RestoreEvent::Shown);
        run.record(RestoreEvent::Resumed);
        run.record(RestoreEvent::BackedUp(false));
        assert!(matches!(run.current(), Some(RestoreAction::AskUnprotected)));
        run.record(RestoreEvent::Answered(answer));
        assert_eq!(run.outcome(), expected);
        if answer {
            assert_eq!(run.phase, Phase::Apply { app: 0, op: 0 });
        }
    }
}

#[test]
fn a_target_without_navidrome_fails_before_anything_is_touched() {
    let tree = FsNode::Dir {
        name: "h2".to_string(),
        children: vec![FsNode::Dir {
            name: "navidrome".to_string(),
            children: vec![
                FsNode::Dir { name: "s".to_string(), children: vec![] },
                FsNode::Link { name: "latest".to_string(), target: "s".to_string() },
            ],
        }],
    };
    let opts = options(Some("h2"), false, true, false);
    let requested: Vec<AppBackupConfig> = opts
        .requested_apps()
        .iter()
        .map(|name| AppBackupConfig::by_name(name, false).unwrap())
        .collect();
    let planned = plan("/backups/h2", &tree, "latest", &opts.requested_apps()).unwrap();
    assert_eq!(planned.steps.len(), 1);
    let mut run = RestoreRun::begin("h1", &opts, &planned, &requested).unwrap();

    let mut asked = Vec::new();
    while let Some(action) = run.current() {
        match action {
            RestoreAction::Probe(query) => {
                asked.push(query);
                let printed = match query {
                    Query::Reachability => "ok\n".to_string(),
                    Query::ServiceExists { index } => {
                        let service = run.checks.service(index).unwrap().to_string();
                        if service == "navidrome" {
                            "0 unit files listed.\n".to_string()
                        } else {
                            format!("{}.service enabled\n", service)
                        }
                    }
                    Query::FreeSpace => "99999999\n".to_string(),
                };
                run.record(RestoreEvent::Probed(Some((true, printed))));
            }
            other => panic!("nothing but questions may be due, got {:?}", other),
        }
    }
    assert_eq!(
        asked,
        vec![
            Query::Reachability,
            Query::ServiceExists { index: 0 },
            Query::ServiceExists { index: 1 },
            Query::ServiceExists { index: 2 },
        ]
    );
    assert_eq!(
        run.outcome(),
        Some(Outcome::Failed(RestoreFailure::Validation(Failure::ServiceMissing { index: 2 })))
    );
    assert_eq!(run.checks.service(2), Some("navidrome"));
    assert!(run.current().is_none());
    run.record(RestoreEvent::Shown);
    run.record(RestoreEvent::BackedUp(true));
    run.record(RestoreEvent::Performed(Performed::Done));
    assert!(run.current().is_none());
}

#[test]
fn a_target_with_too_little_space_fails_before_anything_is_touched() {
    let mut run = start(&options(Some("h2"), false, true, false), &["webdav", "radicale"]).unwrap();
    assert_eq!(run.checks.plan_bytes, 20);
    run.record(RestoreEvent::Probed(Some((true, "ok".to_string()))));
    run.record(RestoreEvent::Probed(Some((true, "radicale.service".to_string()))));
    assert!(matches!(run.current(), Some(RestoreAction::Probe(Query::FreeSpace))));
    run.record(RestoreEvent::Probed(Some((true, " 0\n".to_string()))));
    assert_eq!(
        run.outcome(),
        Some(Outcome::Failed(RestoreFailure::Validation(Failure::InsufficientSpace {
            required: 24,
            available: 0
        })))
    );
    assert!(run.current().is_none());
}

#[test]
fn a_target_that_does_not_answer_fails_at_once() {
    let mut run = start(&options(Some("h2"), false, true, false), &["webdav"]).unwrap();
    run.record(RestoreEvent::Probed(None));
    assert_eq!(
        run.outcome(),
        Some(Outcome::Failed(RestoreFailure::Validation(Failure::Unreachable)))
    );
}

#[test]
fn questions_without_answer_do_not_stop_a_restore() {
    let mut run = start(&options(Some("h2"), false, true, false), &["radicale"]).unwrap();
    run.record(RestoreEvent::Probed(Some((true, "ok".to_string()))));
    run.record(RestoreEvent::Probed(None));
    run.record(RestoreEvent::Probed(Some((false, "".to_string()))));
    assert_eq!(run.phase, Phase::Display);
    assert_eq!(
        run.checks.warnings,
        vec![Warning::ServiceUnchecked { index: 0 }, Warning::SpaceUnchecked]
    );
}

#[test]
fn the_commands_of_the_questions() {
    let mut run = start(&options(Some("h2"), false, true, false), &["radicale"]).unwrap();
    let c = run.probe_command(&host(), "/k").unwrap();
    assert_eq!(&c.args[c.args.len() - 2..], ["echo", "ok"]);
    run.record(RestoreEvent::Probed(Some((true, "ok".to_string()))));
    let c = run.probe_command(&host(), "/k").unwrap();
    assert_eq!(c.args.last().unwrap(), "radicale.service");
    pass_checks(&mut run);
    assert!(run.probe_command(&host(), "/k").is_none());
    let own = start(&options(None, false, true, false), &["radicale"]).unwrap();
    assert!(own.probe_command(&host(), "/k").is_none());
}

#[test]
fn the_first_failure_ends_the_restore() {
    let mut run =
        start(&options(None, false, true, false), &["radicale", "webdav"])
            .unwrap();
    run.record(RestoreEvent::Shown);
    run.record(RestoreEvent::Performed(Performed::Done));
    run.record(RestoreEvent::Performed(Performed::Done));
    run.record(RestoreEvent::Performed(Performed::Done));
    assert_eq!(run.phase, Phase::Apply { app: 0, op: 3 });
    run.record(RestoreEvent::Performed(Performed::Failed));
    assert_eq!(run.outcome(), Some(Outcome::Failed(RestoreFailure::Operation { app: 0, op: 3 })));
    assert!(run.current().is_none());
}

#[test]
fn a_directory_that_cannot_be_made_does_not_end_the_restore() {
    let mut run = start(&options(None, false, true, true), &["webdav"]).unwrap();
    run.record(RestoreEvent::Shown);
    run.record(RestoreEvent::Performed(Performed::Done));
    assert_eq!(run.phase, Phase::Apply { app: 0, op: 1 });
    run.record(RestoreEvent::Performed(Performed::Failed));
    assert_eq!(run.phase, Phase::Apply { app: 0, op: 2 });
    run.record(RestoreEvent::Performed(Performed::Done));
    assert_eq!(run.outcome(), Some(Outcome::Completed(Permissions::Skipped)));
}

#[test]
fn a_path_that_the_snapshot_does_not_hold_is_passed_over() {
    let mut run = start(&options(None, false, true, true), &["radicale"]).unwrap();
    run.record(RestoreEvent::Shown);
    run.record(RestoreEvent::Performed(Performed::Done));
    assert_eq!(run.phase, Phase::Apply { app: 0, op: 1 });
    run.record(RestoreEvent::Performed(Performed::Missing));
    assert_eq!(run.phase, Phase::Apply { app: 0, op: 4 });
    run.record(RestoreEvent::Performed(Performed::Missing));
    assert_eq!(run.phase, Phase::Apply { app: 0, op: 7 });
    match run.current() {
        Some(RestoreAction::Perform(RestoreOp::Chown { path, .. })) => {
            assert_eq!(path, "/var/lib/radicale/collections")
        }
        other => panic!("expected a change of ownership, got {:?}", other),
    }
}

#[test]
fn apps_are_restored_in_the_order_of_the_plan() {
    let mut run =
        start(&options(None, false, true, true), &["webdav", "radicale"])
            .unwrap();
    run.record(RestoreEvent::Shown);
    let seen = perform_all(&mut run);
    assert_eq!(seen.len(), 3 + 10);
    assert_eq!(seen[0], "locate /backups/h2/webdav/s/var/www/webdav-files");
    assert_eq!(seen[3], "stop radicale");
    assert_eq!(seen[12], "start radicale");
    assert_eq!(run.outcome(), Some(Outcome::Completed(Permissions::Skipped)));
}

#[test]
fn a_failing_playbook_leaves_the_restore_completed() {
    let mut run = start(&options(None, false, true, false), &["webdav"]).unwrap();
    run.record(RestoreEvent::Shown);
    perform_all(&mut run);
    assert!(matches!(run.current(), Some(RestoreAction::RunPlaybook)));
    run.record(RestoreEvent::PlaybookRan(false));
    assert_eq!(run.outcome(), Some(Outcome::Completed(Permissions::Unfixed)));
}

#[test]
fn an_app_that_is_not_in_the_catalog_stops_the_restore_before_it_starts() {
    let r = start(&options(None, false, true, false), &["webdav", "nextcloud"]);
    assert_eq!(r.unwrap_err(), BeginError::UnknownApp { index: 1 });
}

#[test]
fn events_that_do_not_belong_change_nothing() {
    let mut run = start(&options(None, false, false, false), &["webdav"]).unwrap();
    run.record(RestoreEvent::Answered(true));
    pass_checks(&mut run);
    run.record(RestoreEvent::BackedUp(true));
    run.record(RestoreEvent::Performed(Performed::Failed));
    run.record(RestoreEvent::PlaybookRan(true));
    run.record(RestoreEvent::Typed("h1".to_string()));
    run.record(RestoreEvent::Resumed);
    assert_eq!(run.phase, Phase::Display);
}

#[test]
fn the_playbook_is_run_for_real_on_the_target_with_the_apps_as_tags() {
    let run =
        start(&options(Some("h2"), false, true, false), &["webdav", "radicale"])
            .unwrap();
    let playbook = run.permissions_run("/project", "/tmp/vars.yml");
    assert_eq!(playbook.playbook, "/project/ansible/playbooks/apps.yml");
    assert_eq!(playbook.host, "h1");
    assert!(!playbook.check);
    assert_eq!(playbook.tags, Some(vec!["webdav".to_string(), "radicale".to_string()]));
    assert_eq!(
        playbook.command().args,
        vec![
            "-i",
            "inventory.yml",
            "playbooks/apps.yml",
            "--limit",
            "h1",
            "--extra-vars",
            "@/tmp/vars.yml",
            "--tags",
            "webdav,radicale",
        ]
    );
}

#[test]
fn the_remedy_names_the_tags() {
    assert_eq!(
        remedy_command(&vec!["radicale".to_string(), "webdav".to_string()]),
        "cd ansible && ansible-playbook playbooks/apps.yml --tags radicale,webdav"
    );
    assert_eq!(
        remedy_command(&vec!["navidrome".to_string()]),
        "cd ansible && ansible-playbook playbooks/apps.yml --tags navidrome"
    );
}
