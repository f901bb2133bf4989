use auberge::hosts::{parse_tags, Host};
use auberge::keys::{
    authorize_command, client_key_name, identity_key_name, keygen_command, public_key_name,
};
use auberge::opml::{export_command, import_command, upload_command};
use auberge::selector::{position_of, select_unasked};
use auberge::sync::music_sync_command;

fn host() -> Host {
    Host {
        name: "h1".to_string(),
        address: "10.0.0.1".to_string(),
        user: "admin".to_string(),
        port: 2222,
        ssh_key: None,
        tags: vec![],
        description: None,
        python_interpreter: None,
        become_method: "sudo".to_string(),
    }
}

#[test]
fn tags_from_a_list_with_commas() {
    assert_eq!(parse_tags("production, eu ,db"), vec!["production", "eu", "db"]);
    assert_eq!(parse_tags("one"), vec!["one"]);
    assert_eq!(parse_tags(""), vec![""]);
    assert_eq!(parse_tags("a,"), vec!["a", ""]);
    assert_eq!(parse_tags(",a"), vec!["", "a"]);
    assert_eq!(parse_tags(" , "), vec!["", ""]);
}

#[test]
fn tags_agree_with_splitting_and_trimming() {
    for text in ["a,b", " a , b ", "", ",", ",,", "a b,c", "x,\ty\n,z"] {
        let expected: Vec<String> = text.split(',').map(|s| s.trim().to_string()).collect();
        assert_eq!(parse_tags(text), expected);
    }
}

#[test]
fn key_files_by_their_names() {
    assert!(public_key_name("id_ed25519.pub"));
    assert!(!public_key_name("id_ed25519"));
    assert!(!public_key_name(".pub"));
    assert!(!public_key_name("pub"));
    assert!(identity_key_name("deploy_h1"));
    assert!(!identity_key_name("deploy_h1.pub"));
    assert!(client_key_name("id_rsa"));
    assert!(client_key_name("id_"));
    assert!(client_key_name("identity"));
    assert!(!client_key_name("id_rsa.pub"));
    assert!(!client_key_name("known_hosts"));
    assert!(!client_key_name("authorized_keys"));
    assert!(!client_key_name("config"));
    assert!(!client_key_name("id"));
    assert!(!client_key_name("identity2"));
    assert!(!client_key_name(""));
}

#[test]
fn making_a_key() {
    let c = keygen_command("/home/u/.ssh/identities/ansible_h1", "ansible", "h1", false);
    assert_eq!(c.program, "ssh-keygen");
    assert_eq!(
        c.args,
        vec!["-t", "ed25519", "-f", "/home/u/.ssh/identities/ansible_h1", "-C", "ansible@h1", "-N", ""]
    );
    let forced = keygen_command("/k", "u", "h", true);
    assert_eq!(forced.args, vec!["-t", "ed25519", "-f", "/k", "-C", "u@h", "-N", "", "-y"]);
}

#[test]
fn authorizing_a_key() {
    let c = authorize_command("/k", "10.0.0.1", 22, "ansible", "ssh-ed25519 AAAA me@here");
    assert_eq!(c.program, "ssh");
    assert_eq!(
        c.args,
        vec![
            "-i",
            "/k",
            "-p",
            "22",
            "ansible@10.0.0.1",
            "mkdir -p ~/.ssh && chmod 700 ~/.ssh && echo 'ssh-ed25519 AAAA me@here' >> ~/.ssh/authorized_keys && chmod 600 ~/.ssh/authorized_keys && echo 'Key added successfully'",
        ]
    );
}

#[test]
fn exporting_feeds() {
    let c = export_command(&host(), "/k", "alice");
    assert_eq!(c.program, "ssh");
    assert_eq!(
        c.args,
        vec![
            "-i",
            "/k",
            "-p",
            "2222",
            "admin@10.0.0.1",
            "cd /opt/freshrss && sudo -u freshrss ./cli/export-opml-for-user.php --user alice",
        ]
    );
}

#[test]
fn importing_feeds() {
    let up = upload_command(&host(), "/k", "/tmp/feeds.opml", "alice");
    assert_eq!(up.program, "scp");
    assert_eq!(
        up.args,
        vec!["-i", "/k", "-P", "2222", "/tmp/feeds.opml", "admin@10.0.0.1:/tmp/freshrss_import_alice.opml"]
    );
    let c = import_command(&host(), "/k", "alice");
    assert_eq!(c.program, "ssh");
    assert_eq!(
        c.args,
        vec![
            "-i",
            "/k",
            "-p",
            "2222",
            "admin@10.0.0.1",
            "cd /opt/freshrss && sudo -u freshrss ./cli/import-for-user.php --user alice --filename /tmp/freshrss_import_alice.opml && rm /tmp/freshrss_import_alice.opml",
        ]
    );
}

#[test]
fn copying_music() {
    let c = music_sync_command("/home/u/Music", "10.0.0.1", 2222, "alice", "/k", false);
    assert_eq!(c.program, "rsync");
    assert_eq!(
        c.args,
        vec![
            "-avzP",
            "--delete",
            "--exclude=.DS_Store",
            "--exclude=*.tmp",
            "-e",
            "ssh -p 2222 -i /k",
            "/home/u/Music/",
            "alice@10.0.0.1:/srv/music/",
        ]
    );
    let dry = music_sync_command("/m", "h", 22, "u", "/k", true);
    assert_eq!(dry.args.last().unwrap(), "--dry-run");
    assert_eq!(dry.args.len(), 9);
}

#[test]
fn choosing_without_asking() {
    assert_eq!(select_unasked(&vec!["only".to_string()]), Some("only".to_string()));
    assert_eq!(select_unasked(&vec!["a".to_string(), "b".to_string()]), None);
    assert_eq!(select_unasked(&vec![]), None);
}

#[test]
fn the_item_that_an_answer_stands_for() {
    let shown = vec!["a (1)".to_string(), "b (2)".to_string(), "a (1)".to_string()];
    assert_eq!(position_of(&shown, "b (2)"), Some(1));
    assert_eq!(position_of(&shown, "a (1)"), Some(0));
    assert_eq!(position_of(&shown, "c"), None);
    assert_eq!(position_of(&vec![], "a"), None);
}
