use auberge::secrets::SecretsManager;

#[test]
fn test_required_secrets_list() {
    let secrets = SecretsManager::required_secrets();
    assert!(!secrets.is_empty());
    assert!(secrets.contains(&"ADMIN_USER_NAME"));
}

#[test]
fn required_secrets_in_order() {
    assert_eq!(
        SecretsManager::required_secrets(),
        vec![
            "ADMIN_USER_NAME",
            "ADMIN_USER_EMAIL",
            "PRIMARY_DOMAIN",
            "CLOUDFLARE_DNS_API_TOKEN",
            "RADICALE_PASSWORD",
            "WEBDAV_PASSWORD",
            "TAILSCALE_AUTHKEY",
            "SSH_PORT",
            "AUBERGE_HOST",
        ]
    );
}
