use auberge::dns::{
    full_name, migration_preview, missing_subdomains, select_subdomains, subdomain_of,
    subdomain_variables, ARecord, NamedSubdomain,
};

fn record(name: &str, ip: &str) -> ARecord {
    ARecord { name: name.to_string(), ip: ip.to_string() }
}

#[test]
fn full_names() {
    assert_eq!(full_name("rss", "example.com"), "rss.example.com");
    assert_eq!(full_name("", "example.com"), ".example.com");
}

#[test]
fn the_domain_is_taken_off_a_name() {
    assert_eq!(subdomain_of("rss.example.com", "example.com"), "rss");
    assert_eq!(subdomain_of("a.b.example.com", "example.com"), "a.b");
    assert_eq!(subdomain_of("example.com", "example.com"), "example.com");
    assert_eq!(subdomain_of(".example.com", "example.com"), "");
    assert_eq!(subdomain_of("rss.example.org", "example.com"), "rss.example.org");
    assert_eq!(subdomain_of("rssexample.com", "example.com"), "rssexample.com");
    assert_eq!(subdomain_of("com", "example.com"), "com");
    assert_eq!(subdomain_of("x.", ""), "x");
}

#[test]
fn a_preview_touches_every_record() {
    let records = vec![record("rss.example.com", "1.1.1.1"), record("other.org", "2.2.2.2")];
    let results = migration_preview(&records, "example.com", "9.9.9.9");
    assert_eq!(results.len(), 2);
    assert_eq!(results[0].subdomain, "rss");
    assert_eq!(results[0].old_ip, "1.1.1.1");
    assert_eq!(results[0].new_ip, "9.9.9.9");
    assert!(results[0].success);
    assert_eq!(results[1].subdomain, "other.org");
    assert_eq!(results[1].old_ip, "2.2.2.2");
    assert!(results[1].success);
    assert!(migration_preview(&vec![], "example.com", "9.9.9.9").is_empty());
}

#[test]
fn subdomains_without_a_record() {
    let records = vec![record("rss.example.com", "1.1.1.1"), record("music.example.com", "1.1.1.1")];
    let configured = vec!["music".to_string(), "books".to_string(), "rss".to_string(), "dav".to_string()];
    assert_eq!(
        missing_subdomains(&configured, &records, "example.com"),
        vec!["books".to_string(), "dav".to_string()]
    );
    assert!(missing_subdomains(&vec![], &records, "example.com").is_empty());
    assert_eq!(missing_subdomains(&configured, &vec![], "example.com"), configured);
}

fn named(app: &str, subdomain: &str) -> NamedSubdomain {
    NamedSubdomain { app: app.to_string(), subdomain: subdomain.to_string() }
}

fn strings(list: &[&str]) -> Vec<String> {
    list.iter().map(|s| s.to_string()).collect()
}

fn apps(list: &[NamedSubdomain]) -> Vec<(&str, &str)> {
    list.iter().map(|n| (n.app.as_str(), n.subdomain.as_str())).collect()
}

#[test]
fn the_variables_that_hold_subdomains() {
    let got: Vec<(String, String)> =
        subdomain_variables().into_iter().map(|v| (v.app, v.variable)).collect();
    let expected: Vec<(String, String)> =
        ["BAIKAL", "BLOCKY", "CALIBRE", "FRESHRSS", "NAVIDROME", "WEBDAV", "YOURLS"]
            .iter()
            .map(|app| (app.to_lowercase(), format!("{}_SUBDOMAIN", app)))
            .collect();
    assert_eq!(got, expected);
}

#[test]
fn all_known_subdomains_are_taken_where_none_is_asked_for() {
    let known = vec![named("freshrss", "rss"), named("webdav", "dav"), named("calibre", "books")];
    let all = select_subdomains(&known, &strings(&[]), &strings(&[]));
    assert_eq!(apps(&all), vec![("freshrss", "rss"), ("webdav", "dav"), ("calibre", "books")]);
    let some = select_subdomains(&known, &strings(&[]), &strings(&["webdav", "nothing"]));
    assert_eq!(apps(&some), vec![("freshrss", "rss"), ("calibre", "books")]);
}

#[test]
fn subdomains_that_are_asked_for() {
    let known = vec![named("freshrss", "rss"), named("webdav", "dav"), named("calibre", "books")];
    let got = select_subdomains(
        &known,
        &strings(&["calibre", "unknown", "freshrss", "calibre", "webdav"]),
        &strings(&["webdav"]),
    );
    assert_eq!(apps(&got), vec![("calibre", "books"), ("freshrss", "rss")]);
    let none = select_subdomains(&known, &strings(&["unknown"]), &strings(&[]));
    assert!(none.is_empty());
    let skipped = select_subdomains(&known, &strings(&["calibre"]), &strings(&["calibre"]));
    assert!(skipped.is_empty());
}
