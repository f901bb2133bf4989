use auberge::fstree::FsNode;
use auberge::planner::{plan, PlanError, SkipReason};

fn file(name: &str, len: u64) -> FsNode {
    FsNode::File { name: name.to_string(), len }
}

fn dir(name: &str, children: Vec<FsNode>) -> FsNode {
    FsNode::Dir { name: name.to_string(), children }
}

fn link(name: &str, target: &str) -> FsNode {
    FsNode::Link { name: name.to_string(), target: target.to_string() }
}

fn names(list: &[&str]) -> Vec<String> {
    list.iter().map(|s| s.to_string()).collect()
}

fn host_dir() -> FsNode {
    dir(
        "h1",
        vec![
            dir(
                "radicale",
                vec![
                    dir("2024-01-01_00-00-00", vec![file("a", 10)]),
                    dir("2024-06-15_12-30-00", vec![file("a", 100), file("b", 11)]),
                    link("latest", "2024-06-15_12-30-00"),
                ],
            ),
            dir("freshrss", vec![dir("2024-01-01_00-00-00", vec![file("db", 5)])]),
            dir("calibre", vec![link("latest", "2023-01-01_00-00-00")]),
        ],
    )
}

#[test]
fn latest_leads_to_the_snapshot_the_link_names() {
    let p = plan("/backups/h1", &host_dir(), "latest", &names(&["radicale"])).unwrap();
    assert_eq!(p.steps.len(), 1);
    assert_eq!(p.steps[0].app, "radicale");
    assert_eq!(p.steps[0].source, "/backups/h1/radicale/2024-06-15_12-30-00");
    assert_eq!(p.steps[0].size_bytes, 111);
    assert_eq!(p.total_bytes, 111);
    assert!(p.skipped.is_empty());
}

#[test]
fn a_snapshot_that_was_just_made_is_what_latest_leads_to() {
    let stamp = "2025-02-03_04-05-06";
    let after_backup = dir(
        "h1",
        vec![dir(
            "radicale",
            vec![
                dir("2024-01-01_00-00-00", vec![]),
                dir(stamp, vec![file("a", 1)]),
                link("latest", stamp),
            ],
        )],
    );
    let p = plan("/backups/h1", &after_backup, "latest", &names(&["radicale"])).unwrap();
    assert_eq!(p.steps[0].source, "/backups/h1/radicale/2025-02-03_04-05-06");
}

#[test]
fn a_timestamp_names_the_snapshot_literally() {
    let p = plan("/backups/h1", &host_dir(), "2024-01-01_00-00-00", &names(&["radicale", "freshrss"]))
        .unwrap();
    assert_eq!(p.steps.len(), 2);
    assert_eq!(p.steps[0].source, "/backups/h1/radicale/2024-01-01_00-00-00");
    assert_eq!(p.steps[1].source, "/backups/h1/freshrss/2024-01-01_00-00-00");
    assert_eq!(p.total_bytes, 15);
}

#[test]
fn an_app_without_the_snapshot_is_dropped_with_a_warning() {
    let p = plan(
        "/backups/h1",
        &host_dir(),
        "latest",
        &names(&["navidrome", "radicale", "freshrss", "calibre"]),
    )
    .unwrap();
    assert_eq!(p.steps.len(), 1);
    assert_eq!(p.steps[0].app, "radicale");
    let skipped: Vec<(String, SkipReason)> =
        p.skipped.iter().map(|s| (s.app.clone(), s.reason)).collect();
    assert_eq!(
        skipped,
        vec![
            ("navidrome".to_string(), SkipReason::NoBackups),
            ("freshrss".to_string(), SkipReason::NoLatest),
            ("calibre".to_string(), SkipReason::NoLatest),
        ]
    );
}

#[test]
fn a_missing_timestamp_is_reported_as_not_found() {
    let p = plan("/backups/h1", &host_dir(), "2024-06-15_12-30-00", &names(&["freshrss", "radicale"]))
        .unwrap();
    assert_eq!(p.steps.len(), 1);
    assert_eq!(p.skipped.len(), 1);
    assert_eq!(p.skipped[0].app, "freshrss");
    assert_eq!(p.skipped[0].reason, SkipReason::NotFound);
}

#[test]
fn planning_fails_when_the_only_app_has_no_snapshot() {
    let r = plan("/backups/h1", &host_dir(), "latest", &names(&["navidrome"]));
    assert_eq!(r.unwrap_err(), PlanError::NothingToRestore);
}

#[test]
fn planning_fails_when_every_app_is_dropped() {
    let r = plan("/backups/h1", &host_dir(), "1999-01-01_00-00-00", &names(&["radicale", "freshrss"]));
    assert_eq!(r.unwrap_err(), PlanError::NothingToRestore);
    let none = plan("/backups/h1", &host_dir(), "latest", &names(&[]));
    assert_eq!(none.unwrap_err(), PlanError::NothingToRestore);
}

#[test]
fn the_plan_keeps_the_order_of_the_request() {
    let p = plan("/backups/h1", &host_dir(), "2024-01-01_00-00-00", &names(&["freshrss", "radicale"]))
        .unwrap();
    let apps: Vec<&str> = p.steps.iter().map(|s| s.app.as_str()).collect();
    assert_eq!(apps, vec!["freshrss", "radicale"]);
}

#[test]
fn a_plan_beyond_64_bits_is_an_error() {
    let tree = dir(
        "h1",
        vec![
            dir("radicale", vec![dir("s", vec![file("a", u64::MAX)])]),
            dir("freshrss", vec![dir("s", vec![file("a", 1)])]),
        ],
    );
    let r = plan("/backups/h1", &tree, "s", &names(&["radicale", "freshrss"]));
    assert_eq!(r.unwrap_err(), PlanError::SizeOverflow);
    let one = plan("/backups/h1", &tree, "s", &names(&["radicale"])).unwrap();
    assert_eq!(one.total_bytes, u64::MAX);
}

#[test]
fn latest_is_followed_however_the_link_is_written() {
    for target in [
        "2024-06-15_12-30-00",
        "./2024-06-15_12-30-00",
        "2024-06-15_12-30-00/",
        "/backups/h1/radicale/2024-06-15_12-30-00",
    ] {
        let tree = dir(
            "h1",
            vec![dir(
                "radicale",
                vec![
                    dir("2024-01-01_00-00-00", vec![file("a", 10)]),
                    dir("2024-06-15_12-30-00", vec![file("a", 100), file("b", 11)]),
                    link("latest", target),
                ],
            )],
        );
        let p = plan("/backups/h1", &tree, "latest", &names(&["radicale"])).unwrap();
        assert_eq!(p.steps.len(), 1, "{:?}", target);
        assert_eq!(p.steps[0].source, "/backups/h1/radicale/2024-06-15_12-30-00");
        assert_eq!(p.steps[0].size_bytes, 111);
    }
}

#[test]
fn a_latest_that_leads_elsewhere_counts_as_missing() {
    for target in ["/mnt/2024-06-15_12-30-00", "../freshrss/2024-01-01_00-00-00", "gone"] {
        let tree = dir(
            "h1",
            vec![
                dir(
                    "radicale",
                    vec![dir("2024-06-15_12-30-00", vec![file("a", 1)]), link("latest", target)],
                ),
                dir("freshrss", vec![dir("2024-01-01_00-00-00", vec![file("db", 5)])]),
            ],
        );
        let r = plan("/backups/h1", &tree, "latest", &names(&["radicale"]));
        assert!(matches!(r, Err(PlanError::NothingToRestore)), "{:?}", target);
    }
}
