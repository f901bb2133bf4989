use auberge::user_config::{Entry, UserConfig, Value, TEMPLATE};
use std::collections::BTreeMap;

fn value_of(v: &toml::Value) -> Value {
    match v {
        toml::Value::String(s) => Value::Text(s.clone()),
        toml::Value::Integer(i) => Value::Integer(*i),
        toml::Value::Boolean(b) => Value::Boolean(*b),
        toml::Value::Float(f) => Value::Float(f.to_string()),
        toml::Value::Table(t) => Value::Table(entries_of(t)),
        _ => Value::Other,
    }
}

fn entries_of(table: &toml::Table) -> Vec<Entry> {
    table.iter().map(|(k, v)| Entry { key: k.clone(), value: value_of(v) }).collect()
}

fn config(toml_str: &str) -> UserConfig {
    let table: toml::Table = toml::from_str(toml_str).unwrap();
    UserConfig { path: "/tmp/fake".to_string(), table: entries_of(&table) }
}

fn as_map(pairs: Vec<(String, String)>) -> BTreeMap<String, String> {
    pairs.into_iter().collect()
}

#[test]
fn test_flatten_toml() {
    let toml_str = r#"
            [dns]
            domain = "example.com"

            [identity]
            ssh_port = 22022
            admin_user_name = "alice"
        "#;
    let flat = as_map(config(toml_str).flatten_for_ansible());
    assert_eq!(flat.get("domain").unwrap(), "example.com");
    assert_eq!(flat.get("ssh_port").unwrap(), "22022");
    assert_eq!(flat.get("admin_user_name").unwrap(), "alice");
    assert!(!flat.contains_key("dns"));
    assert!(!flat.contains_key("identity"));
}

#[test]
fn test_template_parses() {
    let table: toml::Table = toml::from_str(TEMPLATE).unwrap();
    assert!(table.contains_key("dns"));
    assert!(table.contains_key("identity"));
    assert!(table.contains_key("api_tokens"));
}

#[test]
fn test_get_nonexistent_key() {
    let config = config(TEMPLATE);
    assert!(config.get("nonexistent_key").is_none());
}

#[test]
fn test_keys_redacted() {
    let toml_str = r#"
            [identity]
            admin_user_name = "alice"

            [api_tokens]
            cloudflare_dns_api_token = "secret123"

            [baikal]
            baikal_admin_password = ""
        "#;
    let items = config(toml_str).keys_redacted();
    let map: BTreeMap<_, _> = items.into_iter().collect();
    assert_eq!(map.get("admin_user_name").unwrap(), "alice");
    assert_eq!(map.get("cloudflare_dns_api_token").unwrap(), "****");
    assert_eq!(map.get("baikal_admin_password").unwrap(), "(empty)");
}

#[test]
fn test_flatten_for_ansible() {
    let toml_str = r#"
            [dns]
            domain = "example.com"

            [identity]
            ssh_port = 22022

            [baikal]
            baikal_admin_password = "secret"
        "#;
    let flat = as_map(config(toml_str).flatten_for_ansible());
    assert_eq!(flat.get("domain").unwrap(), "example.com");
    assert_eq!(flat.get("ssh_port").unwrap(), "22022");
    assert_eq!(flat.get("baikal_admin_password").unwrap(), "secret");
}

#[test]
fn setting_and_getting_a_key() {
    let mut config = config(TEMPLATE);
    assert!(config.set("admin_user_name", "bob"));
    assert_eq!(config.get("admin_user_name").unwrap(), "bob");
    assert_eq!(config.get("ssh_port").unwrap(), "22022");
    assert_eq!(config.path, "/tmp/fake");
}

#[test]
fn setting_an_unknown_key_changes_nothing() {
    let mut config = config(TEMPLATE);
    let before = format!("{:?}", config.table);
    assert!(!config.set("no_such_key", "x"));
    assert_eq!(format!("{:?}", config.table), before);
}

#[test]
fn a_number_becomes_a_text_when_it_is_set() {
    let mut config = config(TEMPLATE);
    assert!(config.set("ssh_port", "22"));
    assert_eq!(config.get("ssh_port").unwrap(), "22");
    let identity = config.table.iter().find(|e| e.key == "identity").unwrap();
    match &identity.value {
        Value::Table(inner) => {
            let port = inner.iter().find(|e| e.key == "ssh_port").unwrap();
            assert!(matches!(&port.value, Value::Text(t) if t == "22"));
        }
        other => panic!("expected a table, got {:?}", other),
    }
}

#[test]
fn removing_a_key() {
    let mut config = config(TEMPLATE);
    config.set("admin_user_name", "test");
    assert!(config.remove("admin_user_name"));
    assert!(config.get("admin_user_name").is_none());
    assert!(!config.remove("admin_user_name"));
    assert!(config.get("admin_user_email").is_some());
}

#[test]
fn the_first_section_that_holds_a_key_counts() {
    let toml_str = r#"
            top = "outside"
            shared = "top"

            [a]
            shared = "first"

            [b]
            shared = "second"
            only_b = 7
            flag = true
            ratio = 1.5
            list = [1, 2]
        "#;
    let mut c = config(toml_str);
    assert_eq!(c.get("shared").unwrap(), "first");
    assert_eq!(c.get("top").unwrap(), "outside");
    assert_eq!(c.get("only_b").unwrap(), "7");
    assert_eq!(c.get("flag").unwrap(), "true");
    assert_eq!(c.get("ratio").unwrap(), "1.5");
    assert!(c.get("list").is_none());
    assert!(c.get("a").is_none());
    assert!(c.set("shared", "changed"));
    assert_eq!(c.get("shared").unwrap(), "changed");
    assert!(c.remove("shared"));
    assert_eq!(c.get("shared").unwrap(), "second");
    assert!(!c.set("top", "x"));
    assert!(!c.remove("top"));
}

#[test]
fn flattening_keeps_the_value_met_last_and_orders_by_key() {
    let toml_str = r#"
            zeta = "top"
            n = -12

            [a]
            shared = "first"
            zeta = "inner"

            [b]
            shared = "second"

            [b.deeper]
            deepest = "found"
        "#;
    let flat = config(toml_str).flatten_for_ansible();
    let got: Vec<(&str, &str)> = flat.iter().map(|p| (p.0.as_str(), p.1.as_str())).collect();
    assert_eq!(
        got,
        vec![("deepest", "found"), ("n", "-12"), ("shared", "second"), ("zeta", "top")]
    );
}

#[test]
fn flattening_agrees_with_a_sorted_map() {
    fn flatten(table: &toml::Table) -> BTreeMap<String, String> {
        let mut result = BTreeMap::new();
        for (key, value) in table {
            match value {
                toml::Value::Table(inner) => result.extend(flatten(inner)),
                toml::Value::String(s) => {
                    result.insert(key.clone(), s.clone());
                }
                toml::Value::Integer(i) => {
                    result.insert(key.clone(), i.to_string());
                }
                toml::Value::Boolean(b) => {
                    result.insert(key.clone(), b.to_string());
                }
                toml::Value::Float(f) => {
                    result.insert(key.clone(), f.to_string());
                }
                _ => {}
            }
        }
        result
    }
    let toml_str = r#"
            k = 1
            [m]
            k = 2
            a = "x"
            [m.n]
            a = "y"
            z = false
            [o]
            b = 9223372036854775807
            c = -9223372036854775808
        "#;
    let table: toml::Table = toml::from_str(toml_str).unwrap();
    let expected: Vec<(String, String)> = flatten(&table).into_iter().collect();
    let got: Vec<(String, String)> = config(toml_str).flatten_for_ansible();
    assert_eq!(got, expected);
}

#[test]
fn what_is_shown_of_values() {
    let toml_str = r#"
            loose = "not shown at all"

            [identity]
            name = "alice"
            port = 22
            empty = ""

            [yourls]
            password = "p"
            blank = ""
            retries = 3
            list = [1]
        "#;
    let items = config(toml_str).keys_redacted();
    let got: Vec<(&str, &str)> = items.iter().map(|p| (p.0.as_str(), p.1.as_str())).collect();
    assert_eq!(
        got,
        vec![
            ("empty", ""),
            ("name", "alice"),
            ("port", "22"),
            ("blank", "(empty)"),
            ("list", ""),
            ("password", "****"),
            ("retries", "3"),
        ]
    );
}

#[test]
fn texts_of_values() {
    assert_eq!(Value::Text("t".to_string()).to_text(), Some("t".to_string()));
    assert_eq!(Value::Integer(0).to_text(), Some("0".to_string()));
    assert_eq!(Value::Integer(-5).to_text(), Some("-5".to_string()));
    assert_eq!(Value::Integer(i64::MIN).to_text(), Some("-9223372036854775808".to_string()));
    assert_eq!(Value::Integer(i64::MAX).to_text(), Some("9223372036854775807".to_string()));
    assert_eq!(Value::Boolean(true).to_text(), Some("true".to_string()));
    assert_eq!(Value::Boolean(false).to_text(), Some("false".to_string()));
    assert_eq!(Value::Float("2.5".to_string()).to_text(), Some("2.5".to_string()));
    assert_eq!(Value::Table(vec![]).to_text(), None);
    assert_eq!(Value::Other.to_text(), None);
}
