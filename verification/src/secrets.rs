//! The secrets that a deployment needs.

use vstd::prelude::*;

verus! {

/// The store of secrets. Reading and writing it is done elsewhere; here is
/// the list of what it has to hold.
pub struct SecretsManager;

/// The names of the secrets that a deployment needs, in their fixed order.
pub open spec fn required_names() -> Seq<Seq<char>> {
    seq![
        "ADMIN_USER_NAME"@,
        "ADMIN_USER_EMAIL"@,
        "PRIMARY_DOMAIN"@,
        "CLOUDFLARE_DNS_API_TOKEN"@,
        "RADICALE_PASSWORD"@,
        "WEBDAV_PASSWORD"@,
        "TAILSCALE_AUTHKEY"@,
        "SSH_PORT"@,
        "AUBERGE_HOST"@,
    ]
}

impl SecretsManager {
    /// The names of the secrets that a deployment needs.
    pub fn required_secrets() -> (r: Vec<&'static str>)
        ensures
            r@.len() == required_names().len(),
            forall|i: int| 0 <= i < r@.len() ==> (#[trigger] r@[i])@ == required_names()[i],
    {
        let mut r: Vec<&'static str> = Vec::new();
        r.push("ADMIN_USER_NAME");
        r.push("ADMIN_USER_EMAIL");
        r.push("PRIMARY_DOMAIN");
        r.push("CLOUDFLARE_DNS_API_TOKEN");
        r.push("RADICALE_PASSWORD");
        r.push("WEBDAV_PASSWORD");
        r.push("TAILSCALE_AUTHKEY");
        r.push("SSH_PORT");
        r.push("AUBERGE_HOST");
        r
    }
}

} // verus!
