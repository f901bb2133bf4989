use auberge::config::{config_candidates, default_ttl, first_existing, DnsConfig};

#[test]
fn test_dns_config_parsing() {
    let config = DnsConfig {
        domain: "example.com".to_string(),
        subdomains: vec!["www".to_string(), "api".to_string()],
        default_ttl: 300,
    };
    assert_eq!(config.sld(), "example");
    assert_eq!(config.tld(), "com");
}

#[test]
fn test_sld_tld_parsing() {
    let config = DnsConfig {
        domain: "sripwoud.xyz".to_string(),
        subdomains: vec![],
        default_ttl: 300,
    };
    assert_eq!(config.sld(), "sripwoud");
    assert_eq!(config.tld(), "xyz");
}

#[test]
fn default_ttl_is_five_minutes() {
    assert_eq!(default_ttl(), 300);
}

#[test]
fn labels_of_a_bare_name() {
    let config = DnsConfig { domain: "localhost".to_string(), subdomains: vec![], default_ttl: 300 };
    assert_eq!(config.sld(), "localhost");
    assert_eq!(config.tld(), "localhost");
}

#[test]
fn second_label_of_a_long_name() {
    let config = DnsConfig { domain: "a.b.c".to_string(), subdomains: vec![], default_ttl: 300 };
    assert_eq!(config.sld(), "a");
    assert_eq!(config.tld(), "b");
}

#[test]
fn labels_of_a_name_that_ends_in_a_dot() {
    let config = DnsConfig { domain: "example.".to_string(), subdomains: vec![], default_ttl: 300 };
    assert_eq!(config.sld(), "example");
    assert_eq!(config.tld(), "");
}

#[test]
fn configuration_is_looked_for_in_three_places() {
    let places = config_candidates("/work", Some("/home/alice"));
    assert_eq!(
        places,
        vec![
            "/work/config.toml".to_string(),
            "/work/../config.toml".to_string(),
            "/home/alice/.config/auberge/config.toml".to_string(),
        ]
    );
    let homeless = config_candidates("/work", None);
    assert_eq!(homeless[2], "~/.config/auberge/config.toml");
}

#[test]
fn the_first_place_that_exists_is_taken() {
    assert_eq!(first_existing(&vec![false, true, true]), Some(1));
    assert_eq!(first_existing(&vec![false, false, false]), None);
    assert_eq!(first_existing(&vec![]), None);
}

fn dns_config_of(
    domain: Option<&str>,
    subdomains: Vec<String>,
    ttl: Option<i64>,
) -> DnsConfig {
    DnsConfig {
        domain: domain.unwrap().to_string(),
        subdomains,
        default_ttl: ttl.map(|t| t as u32).unwrap_or_else(default_ttl),
    }
}

#[test]
fn config_test_default_ttl() {
    let toml_str = r#"
            domain = "example.com"
            subdomains = []
        "#;
    let table: toml::Table = toml::from_str(toml_str).unwrap();
    let config = dns_config_of(
        table.get("domain").and_then(|v| v.as_str()),
        table
            .get("subdomains")
            .and_then(|v| v.as_array())
            .unwrap()
            .iter()
            .map(|v| v.as_str().unwrap().to_string())
            .collect(),
        table.get("default_ttl").and_then(|v| v.as_integer()),
    );
    assert_eq!(config.default_ttl, 300);
}

#[test]
fn dns_test_default_ttl() {
    let yaml = r#"
domain: example.com
subdomains: []
"#;
    let value: serde_yaml::Value = serde_yaml::from_str(yaml).unwrap();
    let config = dns_config_of(
        value.get("domain").and_then(|v| v.as_str()),
        value
            .get("subdomains")
            .and_then(|v| v.as_sequence())
            .unwrap()
            .iter()
            .map(|v| v.as_str().unwrap().to_string())
            .collect(),
        value.get("default_ttl").and_then(|v| v.as_i64()),
    );
    assert_eq!(config.default_ttl, 300);
}
