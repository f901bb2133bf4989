use auberge::hosts::Host;
use auberge::remote::{available_bytes, service_listed, CommandLine, ServiceAction};

fn host() -> Host {
    Host {
        name: "h1".to_string(),
        address: "203.0.113.10".to_string(),
        user: "deploy".to_string(),
        port: 2209,
        ssh_key: None,
        tags: vec![],
        description: None,
        python_interpreter: None,
        become_method: "sudo".to_string(),
    }
}

fn strings(list: &[&str]) -> Vec<String> {
    list.iter().map(|s| s.to_string()).collect()
}

const SESSION: [&str; 6] = [
    "-o",
    "ControlMaster=auto",
    "-o",
    "ControlPath=/tmp/ssh-%r@%h:%p",
    "-o",
    "ControlPersist=60s",
];

const IDENTITY: [&str; 5] = ["-i", "/keys/k", "-p", "2209", "deploy@203.0.113.10"];

const EXCLUDES: [&str; 17] = [
    "--exclude=.git",
    "--exclude=.git/",
    "--exclude=venv",
    "--exclude=venv/",
    "--exclude=node_modules",
    "--exclude=node_modules/",
    "--exclude=__pycache__",
    "--exclude=__pycache__/",
    "--exclude=*.pyc",
    "--exclude=*.pyo",
    "--exclude=.cache",
    "--exclude=.cache/",
    "--exclude=.Radicale.cache",
    "--exclude=.Radicale.cache/",
    "--exclude=*.tmp",
    "--exclude=*.log",
    "--exclude=.DS_Store",
];

const TRANSPORT: &str = "ssh -o ControlMaster=auto -o ControlPath=/tmp/ssh-%r@%h:%p -o ControlPersist=60s -i /keys/k -p 2209";

fn expect(parts: &[&[&str]]) -> Vec<String> {
    let mut all = Vec::new();
    for part in parts {
        all.extend(strings(part));
    }
    all
}

#[test]
fn stopping_a_service() {
    let c = CommandLine::systemctl(&host(), "/keys/k", ServiceAction::Stop, "radicale");
    assert_eq!(c.program, "ssh");
    assert_eq!(c.args, expect(&[&SESSION, &IDENTITY, &["sudo", "systemctl", "stop", "radicale"]]));
}

#[test]
fn starting_a_service() {
    let c = CommandLine::systemctl(&host(), "/keys/k", ServiceAction::Start, "navidrome");
    assert_eq!(c.args, expect(&[&SESSION, &IDENTITY, &["sudo", "systemctl", "start", "navidrome"]]));
    assert_eq!(ServiceAction::Start.as_str(), "start");
    assert_eq!(ServiceAction::Stop.as_str(), "stop");
}

#[test]
fn changing_ownership() {
    let c = CommandLine::chown(&host(), "/keys/k", "/etc/radicale", "radicale", "users");
    assert_eq!(c.program, "ssh");
    assert_eq!(
        c.args,
        expect(&[&SESSION, &IDENTITY, &["sudo", "chown", "-R", "radicale:users", "/etc/radicale"]])
    );
}

#[test]
fn making_a_remote_directory() {
    let c = CommandLine::mkdir(&host(), "/keys/k", "/var/lib");
    assert_eq!(c.program, "ssh");
    assert_eq!(c.args, expect(&[&IDENTITY, &["sudo", "mkdir", "-p", "/var/lib"]]));
}

#[test]
fn probing_whether_the_host_answers() {
    let c = CommandLine::liveness(&host(), "/keys/k");
    assert_eq!(c.program, "ssh");
    assert_eq!(
        c.args,
        expect(&[&["-o", "ConnectTimeout=10", "-o", "BatchMode=yes"], &IDENTITY, &["echo", "ok"]])
    );
}

#[test]
fn probing_for_a_service() {
    let c = CommandLine::service_probe(&host(), "/keys/k", "navidrome");
    assert_eq!(
        c.args,
        expect(&[&SESSION, &IDENTITY, &["systemctl", "list-unit-files", "navidrome.service"]])
    );
}

#[test]
fn probing_for_free_space() {
    let c = CommandLine::disk_probe(&host(), "/keys/k", "/");
    assert_eq!(c.args, expect(&[&SESSION, &IDENTITY, &["df --output=avail / | tail -1"]]));
}

#[test]
fn pulling_a_remote_path() {
    let c = CommandLine::pull(&host(), "/keys/k", "/etc/radicale", "/backups/h1/radicale/s");
    assert_eq!(c.program, "rsync");
    assert_eq!(
        c.args,
        expect(&[
            &["-az", "--relative", "--delete", "--rsync-path=sudo rsync"],
            &EXCLUDES,
            &["-e", TRANSPORT, "deploy@203.0.113.10:/etc/radicale", "/backups/h1/radicale/s"],
        ])
    );
}

#[test]
fn pushing_onto_a_remote_path() {
    let c = CommandLine::push(&host(), "/keys/k", "/backups/h1/radicale/s/etc/radicale", "/etc/radicale");
    assert_eq!(c.program, "rsync");
    assert_eq!(
        c.args,
        expect(&[
            &["-az", "--delete", "--rsync-path=sudo rsync"],
            &EXCLUDES,
            &[
                "-e",
                TRANSPORT,
                "/backups/h1/radicale/s/etc/radicale/",
                "deploy@203.0.113.10:/etc/radicale",
            ],
        ])
    );
}

#[test]
fn every_copy_is_an_exact_one() {
    let pull = CommandLine::pull(&host(), "k", "/a", "/b");
    let push = CommandLine::push(&host(), "k", "/b", "/a");
    assert!(pull.args.contains(&"--delete".to_string()));
    assert!(push.args.contains(&"--delete".to_string()));
    assert!(pull.args.contains(&"--relative".to_string()));
    assert!(!push.args.contains(&"--relative".to_string()));
}

#[test]
fn the_default_port_is_written_out() {
    let mut h = host();
    h.port = 22;
    let c = CommandLine::mkdir(&h, "k", "/x");
    assert_eq!(c.args[3], "22");
    h.port = 65535;
    let c = CommandLine::mkdir(&h, "k", "/x");
    assert_eq!(c.args[3], "65535");
}

#[test]
fn reading_the_service_probe() {
    let listing = "UNIT FILE         STATE   PRESET\nnavidrome.service enabled enabled\n\n1 unit files listed.\n";
    assert!(service_listed(true, listing, "navidrome"));
    assert!(!service_listed(false, listing, "navidrome"));
    assert!(!service_listed(true, "0 unit files listed.\n", "navidrome"));
    assert!(!service_listed(true, listing, "radicale"));
    assert!(!service_listed(true, "", "navidrome"));
}

#[test]
fn reading_the_space_probe() {
    assert_eq!(available_bytes(true, "  12345678\n"), Some(12345678 * 1024));
    assert_eq!(available_bytes(true, "0\n"), Some(0));
    assert_eq!(available_bytes(true, "1"), Some(1024));
    assert_eq!(available_bytes(false, "12345678\n"), None);
    assert_eq!(available_bytes(true, "Avail\n"), None);
    assert_eq!(available_bytes(true, ""), None);
    assert_eq!(available_bytes(true, "12 34\n"), None);
    assert_eq!(available_bytes(true, "-5\n"), None);
}

#[test]
fn free_space_beyond_64_bits_is_no_answer() {
    assert_eq!(available_bytes(true, "18014398509481983"), Some(18014398509481983 * 1024));
    assert_eq!(available_bytes(true, "18014398509481984"), None);
    assert_eq!(available_bytes(true, "18446744073709551615"), None);
    assert_eq!(available_bytes(true, "99999999999999999999"), None);
}
