use auberge::environment::{backup_dir_below, default_backup_dir, home_expanded};
use auberge::hosts::Host;
use auberge::keys::{chmod_advice, permissive, FileFacts, KeyCandidates, KeyError, KeyPlace};

fn host(ssh_key: Option<&str>) -> Host {
    Host {
        name: "h1".to_string(),
        address: "10.0.0.1".to_string(),
        user: "deploy".to_string(),
        port: 22,
        ssh_key: ssh_key.map(|s| s.to_string()),
        tags: vec![],
        description: None,
        python_interpreter: None,
        become_method: "sudo".to_string(),
    }
}

const GOOD: FileFacts = FileFacts { exists: true, is_file: true, mode: 0o600 };
const OPEN: FileFacts = FileFacts { exists: true, is_file: true, mode: 0o644 };
const DIRECTORY: FileFacts = FileFacts { exists: true, is_file: false, mode: 0o700 };
const ABSENT: FileFacts = FileFacts { exists: false, is_file: false, mode: 0 };

#[test]
fn the_home_directory_takes_the_place_of_the_tilde() {
    assert_eq!(home_expanded("~/x", Some("/home/u")), "/home/u/x");
    assert_eq!(home_expanded("~", Some("/home/u")), "/home/u");
    assert_eq!(home_expanded("~/", Some("/home/u")), "/home/u/");
    assert_eq!(home_expanded("~x/y", Some("/home/u")), "~x/y");
    assert_eq!(home_expanded("/abs/~", Some("/home/u")), "/abs/~");
    assert_eq!(home_expanded("", Some("/home/u")), "");
    assert_eq!(home_expanded("~/x", None), "~/x");
    assert_eq!(home_expanded("~\\x", Some("/home/u")), "~\\x");
}

#[test]
fn where_snapshots_are_kept() {
    assert_eq!(backup_dir_below(Some("/home/u/.local/share")), "/home/u/.local/share/auberge/backups");
    assert_eq!(backup_dir_below(None), "~/.local/share/auberge/backups");
    assert!(default_backup_dir().ends_with("auberge/backups"));
}

#[test]
fn the_places_where_a_key_is_looked_for() {
    let c = KeyCandidates::with_home(&host(Some("~/.ssh/special")), None, Some("/home/u"));
    assert_eq!(c.named, None);
    assert_eq!(c.configured, Some("/home/u/.ssh/special".to_string()));
    assert_eq!(c.derived, Some("/home/u/.ssh/identities/deploy_h1".to_string()));
    assert_eq!(c.path(KeyPlace::Derived), Some("/home/u/.ssh/identities/deploy_h1"));
    assert_eq!(c.path(KeyPlace::Named), None);
    let d = KeyCandidates::with_home(&host(None), Some("/k".to_string()), None);
    assert_eq!(d.named, Some("/k".to_string()));
    assert_eq!(d.configured, None);
    assert_eq!(d.derived, None);
    let here = KeyCandidates::of(&host(None), None);
    assert_eq!(here.configured, None);
}

#[test]
fn the_key_that_was_named_wins() {
    let c = KeyCandidates::with_home(&host(Some("/c")), Some("/n".to_string()), Some("/home/u"));
    let choice = c.pick(GOOD, GOOD, true).unwrap();
    assert_eq!(choice.place, KeyPlace::Named);
    assert!(!choice.too_open);
    assert!(!choice.configured_missing);
    assert_eq!(c.pick(ABSENT, GOOD, true), Err(KeyError::NamedMissing));
    assert_eq!(c.pick(DIRECTORY, GOOD, true), Err(KeyError::NotAFile(KeyPlace::Named)));
    assert!(c.pick(OPEN, GOOD, true).unwrap().too_open);
}

#[test]
fn the_configured_key_comes_next() {
    let c = KeyCandidates::with_home(&host(Some("/c")), None, Some("/home/u"));
    let choice = c.pick(GOOD, OPEN, true).unwrap();
    assert_eq!(choice.place, KeyPlace::Configured);
    assert!(choice.too_open);
    assert_eq!(c.pick(ABSENT, DIRECTORY, true), Err(KeyError::NotAFile(KeyPlace::Configured)));
}

#[test]
fn the_key_kept_for_the_user_is_the_last_resort() {
    let c = KeyCandidates::with_home(&host(Some("/c")), None, Some("/home/u"));
    let choice = c.pick(ABSENT, ABSENT, true).unwrap();
    assert_eq!(choice.place, KeyPlace::Derived);
    assert!(choice.configured_missing);
    assert!(!choice.too_open);
    assert_eq!(c.pick(ABSENT, ABSENT, false), Err(KeyError::DerivedMissing));
    let plain = KeyCandidates::with_home(&host(None), None, Some("/home/u"));
    assert!(!plain.pick(ABSENT, GOOD, true).unwrap().configured_missing);
    let homeless = KeyCandidates::with_home(&host(None), None, None);
    assert_eq!(homeless.pick(ABSENT, ABSENT, true), Err(KeyError::NoHome));
}

#[test]
fn keys_that_others_can_get_at() {
    assert!(!permissive(0o600));
    assert!(!permissive(0o400));
    assert!(!permissive(0o700));
    assert!(permissive(0o640));
    assert!(permissive(0o604));
    assert!(permissive(0o601));
    assert!(permissive(0o777));
    assert!(!permissive(0o100600));
    assert_eq!(chmod_advice("/home/u/.ssh/k"), "chmod 600 /home/u/.ssh/k");
}
