use auberge::backup::{
    planned_targets, select_apps, snapshot_operations, AppResult, BackupOp, BackupRun, OpResult,
    SelectError,
};
use auberge::hosts::Host;
use auberge::registry::AppBackupConfig;
use auberge::remote::ServiceAction;

fn names(list: &[&str]) -> Vec<String> {
    list.iter().map(|s| s.to_string()).collect()
}

fn configs(list: &[&str]) -> Vec<AppBackupConfig> {
    select_apps(Some(&names(list)), false).unwrap()
}

fn host() -> Host {
    Host {
        name: "h1".to_string(),
        address: "10.0.0.1".to_string(),
        user: "admin".to_string(),
        port: 22,
        ssh_key: None,
        tags: vec![],
        description: None,
        python_interpreter: None,
        become_method: "sudo".to_string(),
    }
}

fn describe(op: &BackupOp) -> String {
    match op {
        BackupOp::CreateDir { path } => format!("mkdir {}", path),
        BackupOp::Service { action: ServiceAction::Stop, service } => format!("stop {}", service),
        BackupOp::Service { action: ServiceAction::Start, service } => format!("start {}", service),
        BackupOp::Pull { remote_path, local_dir } => format!("pull {} {}", remote_path, local_dir),
        BackupOp::Measure { path } => format!("measure {}", path),
        BackupOp::PointLatest { link, target } => format!("latest {} {}", link, target),
    }
}

#[test]
fn all_apps_are_selected_where_none_is_named() {
    let all = select_apps(None, true).unwrap();
    let got: Vec<&str> = all.iter().map(|c| c.name).collect();
    assert_eq!(got, vec!["radicale", "freshrss", "navidrome", "calibre", "webdav"]);
    assert_eq!(all[2].paths.len(), 2);
}

#[test]
fn named_apps_are_selected_in_the_order_given() {
    let some = select_apps(Some(&names(&["webdav", "navidrome"])), true).unwrap();
    assert_eq!(some.len(), 2);
    assert_eq!(some[0].name, "webdav");
    assert_eq!(some[1].name, "navidrome");
    assert_eq!(some[1].paths, vec!["/var/lib/navidrome", "/etc/navidrome", "/srv/music"]);
}

#[test]
fn an_unknown_app_is_an_error() {
    let r = select_apps(Some(&names(&["radicale", "nextcloud", "alsounknown"])), false);
    assert_eq!(r.unwrap_err(), SelectError::UnknownApp { index: 1 });
}

#[test]
fn an_empty_selection_is_an_error() {
    let r = select_apps(Some(&names(&[])), false);
    assert_eq!(r.unwrap_err(), SelectError::NothingSelected);
}

#[test]
fn operations_of_a_snapshot_with_a_service() {
    let config = AppBackupConfig::by_name("radicale", false).unwrap();
    let ops = snapshot_operations("/backups", "h1", &config, "2024-01-01_00-00-00");
    let got: Vec<String> = ops.iter().map(describe).collect();
    assert_eq!(
        got,
        vec![
            "mkdir /backups/h1/radicale/2024-01-01_00-00-00",
            "stop radicale",
            "pull /var/lib/radicale/collections /backups/h1/radicale/2024-01-01_00-00-00",
            "pull /etc/radicale /backups/h1/radicale/2024-01-01_00-00-00",
            "start radicale",
            "measure /backups/h1/radicale/2024-01-01_00-00-00",
            "latest /backups/h1/radicale/latest 2024-01-01_00-00-00",
        ]
    );
}

#[test]
fn operations_of_a_snapshot_without_a_service() {
    let config = AppBackupConfig::by_name("webdav", false).unwrap();
    let ops = snapshot_operations("/backups/", "h1", &config, "s");
    let got: Vec<String> = ops.iter().map(describe).collect();
    assert_eq!(
        got,
        vec![
            "mkdir /backups/h1/webdav/s",
            "pull /var/www/webdav-files /backups/h1/webdav/s",
            "measure /backups/h1/webdav/s",
            "latest /backups/h1/webdav/latest s",
        ]
    );
}

#[test]
fn remote_operations_have_commands() {
    let config = AppBackupConfig::by_name("radicale", false).unwrap();
    let ops = snapshot_operations("/backups", "h1", &config, "s");
    assert!(ops[0].command(&host(), "/k").is_none());
    let stop = ops[1].command(&host(), "/k").unwrap();
    assert_eq!(stop.program, "ssh");
    assert_eq!(&stop.args[stop.args.len() - 4..], ["sudo", "systemctl", "stop", "radicale"]);
    let pull = ops[2].command(&host(), "/k").unwrap();
    assert_eq!(pull.program, "rsync");
    assert_eq!(pull.args[pull.args.len() - 1], "/backups/h1/radicale/s");
    assert_eq!(pull.args[pull.args.len() - 2], "admin@10.0.0.1:/var/lib/radicale/collections");
    assert!(ops[5].command(&host(), "/k").is_none());
    assert!(ops[6].command(&host(), "/k").is_none());
}

#[test]
fn a_dry_run_shows_the_targets_and_asks_for_nothing() {
    let selected = configs(&["radicale", "freshrss"]);
    let targets = planned_targets("/backups", "h1", &selected);
    assert_eq!(targets.len(), 2);
    assert_eq!(targets[0].app, "radicale");
    assert_eq!(targets[0].directory, "/backups/h1/radicale");
    assert_eq!(
        targets[0].paths,
        vec!["/var/lib/radicale/collections".to_string(), "/etc/radicale".to_string()]
    );
    assert_eq!(targets[1].app, "freshrss");
    assert_eq!(targets[1].directory, "/backups/h1/freshrss");
    assert_eq!(
        targets[1].paths,
        vec!["/var/lib/freshrss".to_string(), "/opt/freshrss/data".to_string()]
    );
    let mut run = BackupRun::begin_now("h1", "/backups", selected, true).unwrap();
    assert!(run.current().is_none());
    assert!(run.is_finished());
    run.record(OpResult::Done);
    run.record(OpResult::Failed("nothing was run".to_string()));
    assert!(run.current().is_none());
    assert!(run.outcomes.is_empty());
    let report = run.report();
    assert_eq!(report.failed, 0);
    assert_eq!(report.saved, 0);
    assert!(report.is_success());
}

#[test]
fn two_dry_runs_start_out_the_same() {
    let first = BackupRun::begin_now("h1", "/backups", configs(&["radicale", "freshrss"]), true).unwrap();
    let second = BackupRun::begin_now("h1", "/backups", configs(&["radicale", "freshrss"]), true).unwrap();
    assert_eq!(first.stamp, "");
    assert_eq!(first.stamp, second.stamp);
    assert_eq!(first.app, second.app);
    assert_eq!(first.op, second.op);
    assert!(first.outcomes.is_empty() && second.outcomes.is_empty());
    assert!(first.current().is_none() && second.current().is_none());
}

#[test]
fn two_dry_runs_plan_the_same() {
    let first = planned_targets("/backups", "h1", &configs(&["radicale", "freshrss"]));
    let second = planned_targets("/backups", "h1", &configs(&["radicale", "freshrss"]));
    assert_eq!(first.len(), second.len());
    for (a, b) in first.iter().zip(second.iter()) {
        assert_eq!(a.app, b.app);
        assert_eq!(a.directory, b.directory);
        assert_eq!(a.paths, b.paths);
    }
}

#[test]
fn a_backup_goes_through_every_app() {
    let mut run = BackupRun::begin("h1", "/backups", "s", configs(&["webdav", "radicale"]), false).unwrap();
    let mut seen = Vec::new();
    while let Some(op) = run.current() {
        seen.push(describe(&op));
        match op {
            BackupOp::Measure { .. } => run.record(OpResult::Measured(500)),
            _ => run.record(OpResult::Done),
        }
    }
    assert_eq!(seen.len(), 4 + 7);
    assert_eq!(seen[0], "mkdir /backups/h1/webdav/s");
    assert_eq!(seen[3], "latest /backups/h1/webdav/latest s");
    assert_eq!(seen[4], "mkdir /backups/h1/radicale/s");
    assert_eq!(seen[10], "latest /backups/h1/radicale/latest s");
    assert!(run.is_finished());
    assert_eq!(run.outcomes.len(), 2);
    assert_eq!(run.outcomes[0].app, "webdav");
    assert!(matches!(run.outcomes[0].result, AppResult::Saved { size_bytes: 500 }));
    assert!(matches!(run.outcomes[1].result, AppResult::Saved { size_bytes: 500 }));
    let report = run.report();
    assert_eq!(report.saved, 2);
    assert_eq!(report.failed, 0);
    assert_eq!(report.total_bytes, Some(1000));
    assert!(report.is_success());
}

#[test]
fn a_failing_app_does_not_stop_the_others() {
    let mut run =
        BackupRun::begin("h1", "/backups", "s", configs(&["radicale", "freshrss", "webdav"]), false).unwrap();
    let mut seen = Vec::new();
    while let Some(op) = run.current() {
        seen.push(describe(&op));
        match op {
            BackupOp::Pull { remote_path, .. } if remote_path == "/var/lib/freshrss" => {
                run.record(OpResult::Failed("rsync failed for /var/lib/freshrss".to_string()))
            }
            BackupOp::Measure { .. } => run.record(OpResult::Measured(10)),
            _ => run.record(OpResult::Done),
        }
    }
    assert!(!seen.contains(&"pull /opt/freshrss/data /backups/h1/freshrss/s".to_string()));
    assert!(!seen.contains(&"latest /backups/h1/freshrss/latest s".to_string()));
    assert!(seen.contains(&"latest /backups/h1/radicale/latest s".to_string()));
    assert!(seen.contains(&"latest /backups/h1/webdav/latest s".to_string()));
    assert_eq!(run.outcomes.len(), 3);
    match &run.outcomes[1].result {
        AppResult::Failed { op, message } => {
            assert_eq!(*op, 2);
            assert_eq!(message, "rsync failed for /var/lib/freshrss");
        }
        other => panic!("freshrss should have failed, got {:?}", other),
    }
    assert_eq!(run.outcomes[1].app, "freshrss");
    let report = run.report();
    assert_eq!(report.saved, 2);
    assert_eq!(report.failed, 1);
    assert_eq!(report.total_bytes, Some(20));
    assert!(!report.is_success());
}

#[test]
fn latest_is_pointed_only_after_every_copy() {
    for config in AppBackupConfig::all() {
        let ops = snapshot_operations("/b", "h", &config, "s");
        let last = ops.len() - 1;
        for (i, op) in ops.iter().enumerate() {
            match op {
                BackupOp::PointLatest { .. } => assert_eq!(i, last),
                BackupOp::Pull { .. } => assert!(i < last - 1),
                BackupOp::CreateDir { .. } => assert_eq!(i, 0),
                _ => {}
            }
        }
    }
}

#[test]
fn a_size_is_taken_from_the_measuring_only() {
    let mut run = BackupRun::begin("h1", "/backups", "s", configs(&["webdav"]), false).unwrap();
    run.record(OpResult::Measured(999));
    run.record(OpResult::Measured(998));
    run.record(OpResult::Measured(42));
    run.record(OpResult::Measured(997));
    assert!(run.is_finished());
    assert!(matches!(run.outcomes[0].result, AppResult::Saved { size_bytes: 42 }));
}

#[test]
fn a_total_beyond_64_bits_is_not_reported() {
    let mut run = BackupRun::begin("h1", "/backups", "s", configs(&["webdav", "webdav"]), false).unwrap();
    while let Some(op) = run.current() {
        match op {
            BackupOp::Measure { .. } => run.record(OpResult::Measured(u64::MAX)),
            _ => run.record(OpResult::Done),
        }
    }
    let report = run.report();
    assert_eq!(report.saved, 2);
    assert_eq!(report.total_bytes, None);
}

#[test]
fn a_real_run_is_stamped_with_the_moment() {
    let run = BackupRun::begin_now("h1", "/backups", configs(&["webdav"]), false).unwrap();
    assert_eq!(run.stamp.len(), 19);
    let bytes = run.stamp.as_bytes();
    for (i, b) in bytes.iter().enumerate() {
        match i {
            4 | 7 | 13 | 16 => assert_eq!(*b, b'-'),
            10 => assert_eq!(*b, b'_'),
            _ => assert!(b.is_ascii_digit()),
        }
    }
    match run.current() {
        Some(BackupOp::CreateDir { path }) => {
            assert_eq!(path, format!("/backups/h1/webdav/{}", run.stamp))
        }
        other => panic!("expected the directory to be made first, got {:?}", other),
    }
}

#[test]
fn a_backup_that_writes_needs_a_name_for_its_snapshots() {
    for stamp in ["", ".", "..", "latest", "a/b", "/", "2024-01-01/00", "/2024"] {
        assert!(
            BackupRun::begin("h1", "/backups", stamp, configs(&["webdav"]), false).is_none(),
            "{:?}",
            stamp
        );
    }
    for stamp in ["s", "2024-01-01_00-00-00", "+10000-01-01_00-00-00", "latest2", "...", "Latest"] {
        let run = BackupRun::begin("h1", "/backups", stamp, configs(&["webdav"]), false)
            .expect("a name for the snapshots");
        assert_eq!(run.stamp, stamp);
        assert_eq!(run.host, "h1");
        assert_eq!(run.dest, "/backups");
        assert!(!run.dry_run);
    }
}

#[test]
fn a_dry_run_starts_with_any_stamp() {
    for stamp in ["", "latest", "a/b", "2024-01-01_00-00-00"] {
        let run = BackupRun::begin("h1", "/backups", stamp, configs(&["webdav"]), true)
            .expect("a dry run names nothing");
        assert!(run.dry_run);
        assert!(run.current().is_none());
    }
}

#[test]
fn a_snapshot_is_an_entry_of_the_directory_of_its_app() {
    let run = BackupRun::begin_now("h1", "/backups/", configs(&["webdav"]), false).unwrap();
    let path = match run.current() {
        Some(BackupOp::CreateDir { path }) => path,
        other => panic!("expected the directory to be made first, got {:?}", other),
    };
    assert_eq!(auberge::text::file_name(&path), Some(run.stamp.clone()));
    assert_eq!(auberge::text::parent_dir(&path), Some("/backups/h1/webdav".to_string()));
    assert!(auberge::text::names_entry(&run.stamp));
    assert_ne!(run.stamp, "latest");
}

#[test]
fn a_backup_is_named_after_its_moment() {
    let run = BackupRun::begin_at("h1", "/backups", Some(1718454600), configs(&["webdav"]), false)
        .expect("a moment before the year 10000");
    assert_eq!(run.stamp, "2024-06-15_12-30-00");
    match run.current() {
        Some(BackupOp::CreateDir { path }) => {
            assert_eq!(path, "/backups/h1/webdav/2024-06-15_12-30-00")
        }
        other => panic!("expected the directory to be made first, got {:?}", other),
    }
    let first = BackupRun::begin_at("h1", "/backups", Some(0), configs(&["webdav"]), false);
    assert_eq!(first.unwrap().stamp, "1970-01-01_00-00-00");
    let last =
        BackupRun::begin_at("h1", "/backups", Some(253_402_300_799), configs(&["webdav"]), false);
    assert_eq!(last.unwrap().stamp, "9999-12-31_23-59-59");
}

#[test]
fn a_backup_without_a_moment_does_not_start() {
    assert!(BackupRun::begin_at("h1", "/backups", None, configs(&["webdav"]), false).is_none());
    assert!(BackupRun::begin_at(
        "h1",
        "/backups",
        Some(253_402_300_800),
        configs(&["webdav"]),
        false
    )
    .is_none());
    assert!(BackupRun::begin_at("h1", "/backups", Some(u64::MAX), configs(&["webdav"]), false)
        .is_none());
}

#[test]
fn a_dry_run_starts_without_a_moment() {
    for seconds in [None, Some(0), Some(1718454600), Some(u64::MAX)] {
        let run = BackupRun::begin_at("h1", "/backups", seconds, configs(&["webdav"]), true)
            .expect("a dry run needs no moment");
        assert_eq!(run.stamp, "");
        assert!(run.dry_run);
        assert!(run.current().is_none());
    }
}
