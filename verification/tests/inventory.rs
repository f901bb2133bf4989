use auberge::hosts;
use auberge::inventory::{
    default_bootstrap_user, default_port, filter_by_group, from_managed, Host, HostVars, Inventory,
    InventoryGroup, Member,
};

fn member(name: &str, address: &str) -> Member {
    Member {
        name: name.to_string(),
        vars: HostVars {
            ansible_host: address.to_string(),
            ansible_port: 22,
            bootstrap_user: "root".to_string(),
        },
    }
}

fn group(name: &str, hosts: Vec<Member>, children: &[&str]) -> InventoryGroup {
    InventoryGroup {
        name: name.to_string(),
        hosts,
        children: children.iter().map(|c| c.to_string()).collect(),
    }
}

fn inventory() -> Inventory {
    Inventory {
        groups: vec![
            group("selfhosted", vec![member("extra", "10.0.0.9")], &["eu", "us", "missing"]),
            group("eu", vec![member("paris", "10.0.0.1"), member("berlin", "10.0.0.2")], &[]),
            group("us", vec![member("boston", "10.0.1.1"), member("paris", "10.9.9.9")], &["east"]),
            group("east", vec![member("nyc", "10.0.2.1")], &[]),
            group("lab", vec![member("bench", "10.0.3.1"), member("nyc", "10.8.8.8")], &[]),
        ],
    }
}

fn summary(hosts: &[Host]) -> Vec<(String, String, Vec<String>)> {
    hosts.iter().map(|h| (h.name.clone(), h.vars.ansible_host.clone(), h.groups.clone())).collect()
}

fn row(name: &str, address: &str, groups: &[&str]) -> (String, String, Vec<String>) {
    (name.to_string(), address.to_string(), groups.iter().map(|g| g.to_string()).collect())
}

#[test]
fn inventory_defaults() {
    assert_eq!(default_port(), 22);
    assert_eq!(default_bootstrap_user(), "root");
}

#[test]
fn the_hosts_of_a_group_include_those_of_its_children() {
    let hosts = inventory().get_hosts(Some("selfhosted"));
    assert_eq!(
        summary(&hosts),
        vec![
            row("paris", "10.0.0.1", &["selfhosted", "eu"]),
            row("berlin", "10.0.0.2", &["selfhosted", "eu"]),
            row("nyc", "10.0.2.1", &["selfhosted", "us", "east"]),
            row("boston", "10.0.1.1", &["selfhosted", "us"]),
            row("extra", "10.0.0.9", &["selfhosted"]),
        ]
    );
}

#[test]
fn the_hosts_of_a_leaf() {
    let hosts = inventory().get_hosts(Some("east"));
    assert_eq!(summary(&hosts), vec![row("nyc", "10.0.2.1", &["east"])]);
}

#[test]
fn an_unknown_group_has_no_hosts() {
    assert!(inventory().get_hosts(Some("nowhere")).is_empty());
    assert!(Inventory { groups: vec![] }.get_hosts(None).is_empty());
    assert!(Inventory { groups: vec![] }.get_hosts(Some("x")).is_empty());
}

#[test]
fn every_host_is_listed_once_where_it_is_met_first() {
    let hosts = inventory().get_hosts(None);
    let names: Vec<&str> = hosts.iter().map(|h| h.name.as_str()).collect();
    assert_eq!(names, vec!["paris", "berlin", "nyc", "boston", "extra", "bench"]);
    let nyc = hosts.iter().find(|h| h.name == "nyc").unwrap();
    assert_eq!(nyc.vars.ansible_host, "10.0.2.1");
    assert_eq!(nyc.groups, vec!["selfhosted", "us", "east"]);
}

#[test]
fn groups_that_name_each_other_do_not_hang() {
    let circle = Inventory {
        groups: vec![
            group("a", vec![member("one", "1.1.1.1")], &["b"]),
            group("b", vec![member("two", "2.2.2.2")], &["a"]),
        ],
    };
    let hosts = circle.get_hosts(Some("a"));
    let names: Vec<&str> = hosts.iter().map(|h| h.name.as_str()).collect();
    assert_eq!(names, vec!["two", "one"]);
    assert_eq!(hosts[0].groups, vec!["a", "b"]);
    let own = Inventory { groups: vec![group("a", vec![member("one", "1.1.1.1")], &["a"])] };
    assert_eq!(own.get_hosts(None).len(), 1);
}

#[test]
fn a_chain_as_long_as_the_inventory_is_followed_to_its_end() {
    let chain = Inventory {
        groups: vec![
            group("c", vec![member("deep", "3.3.3.3")], &[]),
            group("b", vec![], &["c"]),
            group("a", vec![], &["b"]),
        ],
    };
    let hosts = chain.get_hosts(Some("a"));
    assert_eq!(summary(&hosts), vec![row("deep", "3.3.3.3", &["a", "b", "c"])]);
}

#[test]
fn getting_a_host_by_name() {
    let host = inventory().get_host("boston").unwrap();
    assert_eq!(host.vars.ansible_host, "10.0.1.1");
    assert_eq!(host.groups, vec!["selfhosted", "us"]);
    assert!(inventory().get_host("nobody").is_none());
}

#[test]
fn hosts_by_the_group_they_were_reached_through() {
    let all = inventory().get_hosts(None);
    let us = filter_by_group(all, Some("us"));
    let names: Vec<&str> = us.iter().map(|h| h.name.as_str()).collect();
    assert_eq!(names, vec!["nyc", "boston"]);
    let everyone = filter_by_group(inventory().get_hosts(None), None);
    assert_eq!(everyone.len(), 6);
    assert!(filter_by_group(inventory().get_hosts(None), Some("nowhere")).is_empty());
}

#[test]
fn a_managed_host_as_a_host_of_the_inventory() {
    let managed = hosts::Host {
        name: "h1".to_string(),
        address: "10.0.0.1".to_string(),
        user: "deploy".to_string(),
        port: 2209,
        ssh_key: None,
        tags: vec!["production".to_string(), "eu".to_string()],
        description: None,
        python_interpreter: None,
        become_method: "sudo".to_string(),
    };
    let host = from_managed(&managed);
    assert_eq!(host.name, "h1");
    assert_eq!(host.vars.ansible_host, "10.0.0.1");
    assert_eq!(host.vars.ansible_port, 2209);
    assert_eq!(host.vars.bootstrap_user, "deploy");
    assert_eq!(host.groups, vec!["production", "eu"]);
}
