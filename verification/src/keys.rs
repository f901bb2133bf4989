//! Which private key a host is reached with.
//!
//! Three places are tried in turn: the key that the operator named, the
//! key that is configured for the host, and the key that is kept for the
//! host's user under the home directory. This module names the places and
//! makes the choice; looking at the files is left to the caller.

use crate::environment::{home_directory, home_expanded, path_text, tilde_expanded};
use crate::hosts::Host;
use crate::remote::{CommandLine, CommandText};
use crate::text::{
    concat2, concat3, decimal, decimal_text, extension_of, file_extension, joined, join_path,
    optional_text, push_text, text_eq, texts, to_chars,
};
use vstd::prelude::*;

verus! {

/// The places where the key of a host is looked for, as plain text values.
pub struct CandidateTexts {
    pub named: Option<Seq<char>>,
    pub configured: Option<Seq<char>>,
    pub derived: Option<Seq<char>>,
}

/// The places where the key of a host is looked for.
#[derive(Debug)]
pub struct KeyCandidates {
    /// The key that the operator named.
    pub named: Option<String>,
    /// The key that is configured for the host.
    pub configured: Option<String>,
    /// The key that is kept for the host's user; there is none where the
    /// home directory is not known.
    pub derived: Option<String>,
}

impl View for KeyCandidates {
    type V = CandidateTexts;

    open spec fn view(&self) -> CandidateTexts {
        CandidateTexts {
            named: optional_text(self.named),
            configured: optional_text(self.configured),
            derived: optional_text(self.derived),
        }
    }
}

/// The key that is kept for a user of a host below the home directory.
pub open spec fn derived_key(home: Seq<char>, user: Seq<char>, host: Seq<char>) -> Seq<char> {
    joined(home, ".ssh/identities/"@ + user + "_"@ + host)
}

/// The places where the key of `host` is looked for.
pub open spec fn candidates_of(
    host: Host,
    named: Option<Seq<char>>,
    home: Option<Seq<char>>,
) -> CandidateTexts {
    CandidateTexts {
        named,
        configured: match host.ssh_key {
            Some(key) => Some(tilde_expanded(key@, home)),
            None => None,
        },
        derived: match home {
            Some(h) => Some(derived_key(h, host.user@, host.name@)),
            None => None,
        },
    }
}

/// What is known of the file at a place.
#[derive(Debug, Clone, Copy, PartialEq, Eq, Structural)]
pub struct FileFacts {
    pub exists: bool,
    pub is_file: bool,
    /// The permission bits of the file.
    pub mode: u32,
}

/// Which of the places holds the key.
#[derive(Debug, Clone, Copy, PartialEq, Eq, Structural)]
pub enum KeyPlace {
    Named,
    Configured,
    Derived,
}

/// Why there is no key.
#[derive(Debug, Clone, Copy, PartialEq, Eq, Structural)]
pub enum KeyError {
    /// The key that the operator named does not exist.
    NamedMissing,
    /// What lies at this place is no file.
    NotAFile(KeyPlace),
    /// The home directory is not known.
    NoHome,
    /// The key that is kept for the host's user does not exist.
    DerivedMissing,
}

/// The key that was chosen, and what there is to say about it.
#[derive(Debug, Clone, Copy, PartialEq, Eq, Structural)]
pub struct KeyChoice {
    pub place: KeyPlace,
    /// The key can be read or written by others than its owner.
    pub too_open: bool,
    /// A key is configured for the host but does not exist.
    pub configured_missing: bool,
}

/// Whether permission bits let others than the owner at the file.
pub open spec fn lets_others_in(mode: u32) -> bool {
    mode & 0o077 != 0
}

/// The choice among the places, given what is known of the files there.
/// Facts on a place that is not among the candidates are not looked at.
pub open spec fn choice_of(
    candidates: CandidateTexts,
    named: FileFacts,
    configured: FileFacts,
    derived_exists: bool,
) -> Result<KeyChoice, KeyError> {
    if candidates.named is Some {
        if !named.exists {
            Err(KeyError::NamedMissing)
        } else if !named.is_file {
            Err(KeyError::NotAFile(KeyPlace::Named))
        } else {
            Ok(
                KeyChoice {
                    place: KeyPlace::Named,
                    too_open: lets_others_in(named.mode),
                    configured_missing: false,
                },
            )
        }
    } else if candidates.configured is Some && configured.exists {
        if !configured.is_file {
            Err(KeyError::NotAFile(KeyPlace::Configured))
        } else {
            Ok(
                KeyChoice {
                    place: KeyPlace::Configured,
                    too_open: lets_others_in(configured.mode),
                    configured_missing: false,
                },
            )
        }
    } else if candidates.derived is None {
        Err(KeyError::NoHome)
    } else if !derived_exists {
        Err(KeyError::DerivedMissing)
    } else {
        Ok(
            KeyChoice {
                place: KeyPlace::Derived,
                too_open: false,
                configured_missing: candidates.configured is Some,
            },
        )
    }
}

impl KeyCandidates {
    /// The places where the key of `host` is looked for, with `home` as
    /// the home directory.
    pub fn with_home(host: &Host, named: Option<String>, home: Option<&str>) -> (r: Self)
        ensures
            r@ == candidates_of(*host, optional_text(named), path_text(home)),
    {
        let configured = match &host.ssh_key {
            Some(key) => Some(home_expanded(key.as_str(), home)),
            None => None,
        };
        let derived = match home {
            Some(h) => {
                let owner = concat3(host.user.as_str(), "_", host.name.as_str());
                let below = concat2(".ssh/identities/", owner.as_str());
                assert(below@ =~= ".ssh/identities/"@ + host.user@ + "_"@ + host.name@);
                Some(join_path(h, below.as_str()))
            },
            None => None,
        };
        KeyCandidates { named, configured, derived }
    }

    /// The places where the key of `host` is looked for on this machine.
    pub fn of(host: &Host, named: Option<String>) -> (r: Self)
        ensures
            exists|home: Option<Seq<char>>| r@ == candidates_of(*host, optional_text(named), home),
    {
        let home = home_directory();
        match &home {
            Some(h) => {
                let ghost text = optional_text(named);
                let r = Self::with_home(host, named, Some(h.as_str()));
                assert(r@ == candidates_of(*host, text, Some(h@)));
                r
            },
            None => {
                let ghost text = optional_text(named);
                let r = Self::with_home(host, named, None);
                assert(r@ == candidates_of(*host, text, None));
                r
            },
        }
    }

    /// Chooses among the places, given what is known of the files there.
    pub fn pick(&self, named: FileFacts, configured: FileFacts, derived_exists: bool) -> (r:
        Result<KeyChoice, KeyError>)
        ensures
            r == choice_of(self@, named, configured, derived_exists),
    {
        if self.named.is_some() {
            if !named.exists {
                Err(KeyError::NamedMissing)
            } else if !named.is_file {
                Err(KeyError::NotAFile(KeyPlace::Named))
            } else {
                Ok(
                    KeyChoice {
                        place: KeyPlace::Named,
                        too_open: permissive(named.mode),
                        configured_missing: false,
                    },
                )
            }
        } else if self.configured.is_some() && configured.exists {
            if !configured.is_file {
                Err(KeyError::NotAFile(KeyPlace::Configured))
            } else {
                Ok(
                    KeyChoice {
                        place: KeyPlace::Configured,
                        too_open: permissive(configured.mode),
                        configured_missing: false,
                    },
                )
            }
        } else if self.derived.is_none() {
            Err(KeyError::NoHome)
        } else if !derived_exists {
            Err(KeyError::DerivedMissing)
        } else {
            Ok(
                KeyChoice {
                    place: KeyPlace::Derived,
                    too_open: false,
                    configured_missing: self.configured.is_some(),
                },
            )
        }
    }

    /// The path at a place, if the place is among the candidates.
    pub fn path(&self, place: KeyPlace) -> (r: Option<&str>)
        ensures
            path_text(r) == match place {
                KeyPlace::Named => self@.named,
                KeyPlace::Configured => self@.configured,
                KeyPlace::Derived => self@.derived,
            },
    {
        let held = match place {
            KeyPlace::Named => &self.named,
            KeyPlace::Configured => &self.configured,
            KeyPlace::Derived => &self.derived,
        };
        match held {
            Some(path) => Some(path.as_str()),
            None => None,
        }
    }
}

/// Whether a file name has the extension of a public key.
pub open spec fn is_public_name(name: Seq<char>) -> bool {
    extension_of(name) == Some("pub"@)
}

/// Whether a file of the directory of identities may be a private key:
/// any file but a public key.
pub open spec fn is_identity_name(name: Seq<char>) -> bool {
    !is_public_name(name)
}

/// Whether a file of the directory of the SSH client may be a private
/// key: its name starts with `id_` or is `identity`, and it is no public
/// key.
pub open spec fn is_client_key_name(name: Seq<char>) -> bool {
    !is_public_name(name) && ((name.len() >= 3 && name.subrange(0, 3) == "id_"@) || name
        == "identity"@)
}

/// Tells a public key by its file name.
pub fn public_key_name(name: &str) -> (r: bool)
    ensures
        r == is_public_name(name@),
{
    match file_extension(name) {
        Some(extension) => text_eq(extension.as_str(), "pub"),
        None => false,
    }
}

/// Tells what may be a private key among the files of the directory of
/// identities.
pub fn identity_key_name(name: &str) -> (r: bool)
    ensures
        r == is_identity_name(name@),
{
    !public_key_name(name)
}

/// Tells what may be a private key among the files of the directory of
/// the SSH client.
pub fn client_key_name(name: &str) -> (r: bool)
    ensures
        r == is_client_key_name(name@),
{
    if public_key_name(name) {
        return false;
    }
    if text_eq(name, "identity") {
        return true;
    }
    let chars = to_chars(name);
    proof {
        reveal_strlit("id_");
    }
    if chars.len() >= 3 && chars[0] == 'i' && chars[1] == 'd' && chars[2] == '_' {
        assert(name@.subrange(0, 3) =~= "id_"@);
        true
    } else {
        proof {
            if name@.len() >= 3 && name@.subrange(0, 3) == "id_"@ {
                assert(name@.subrange(0, 3)[0] == 'i');
                assert(name@.subrange(0, 3)[1] == 'd');
                assert(name@.subrange(0, 3)[2] == '_');
            }
        }
        false
    }
}

/// The command that makes a key for a user of a host: a key of the type
/// `ed25519` without a passphrase, marked with user and host.
pub open spec fn keygen_text(key_path: Seq<char>, user: Seq<char>, host: Seq<char>, force: bool) -> CommandText {
    CommandText {
        program: "ssh-keygen"@,
        args: seq!["-t"@, "ed25519"@, "-f"@, key_path, "-C"@, user + "@"@ + host, "-N"@, ""@] + (if force {
            seq!["-y"@]
        } else {
            Seq::empty()
        }),
    }
}

/// The command that makes a key for a user of a host.
pub fn keygen_command(key_path: &str, user: &str, host: &str, force: bool) -> (r: CommandLine)
    ensures
        r@ == keygen_text(key_path@, user@, host@, force),
{
    let mut args: Vec<String> = Vec::new();
    push_text(&mut args, "-t");
    push_text(&mut args, "ed25519");
    push_text(&mut args, "-f");
    push_text(&mut args, key_path);
    push_text(&mut args, "-C");
    let mark = concat3(user, "@", host);
    push_text(&mut args, mark.as_str());
    push_text(&mut args, "-N");
    push_text(&mut args, "");
    if force {
        push_text(&mut args, "-y");
    }
    assert(texts(args@) =~= keygen_text(key_path@, user@, host@, force).args);
    CommandLine { program: String::from_str("ssh-keygen"), args }
}

/// The remote command that adds a public key to those that may log in.
pub open spec fn authorize_script(public_key: Seq<char>) -> Seq<char> {
    "mkdir -p ~/.ssh && chmod 700 ~/.ssh && echo '"@ + public_key
        + "' >> ~/.ssh/authorized_keys && chmod 600 ~/.ssh/authorized_keys && echo 'Key added successfully'"@
}

/// The command that lets a public key log in as `user` at an address.
pub open spec fn authorize_text(
    connect_key: Seq<char>,
    address: Seq<char>,
    port: u16,
    user: Seq<char>,
    public_key: Seq<char>,
) -> CommandText {
    CommandText {
        program: "ssh"@,
        args: seq![
            "-i"@,
            connect_key,
            "-p"@,
            decimal_text(port as nat),
            user + "@"@ + address,
            authorize_script(public_key),
        ],
    }
}

/// The command that lets a public key log in as `user` at an address.
/// The key is taken as it is given; white space around it should be
/// taken off before.
pub fn authorize_command(
    connect_key: &str,
    address: &str,
    port: u16,
    user: &str,
    public_key: &str,
) -> (r: CommandLine)
    ensures
        r@ == authorize_text(connect_key@, address@, port, user@, public_key@),
{
    let mut args: Vec<String> = Vec::new();
    push_text(&mut args, "-i");
    push_text(&mut args, connect_key);
    push_text(&mut args, "-p");
    let number = decimal(port as u64);
    push_text(&mut args, number.as_str());
    let target = concat3(user, "@", address);
    push_text(&mut args, target.as_str());
    let script = concat3(
        "mkdir -p ~/.ssh && chmod 700 ~/.ssh && echo '",
        public_key,
        "' >> ~/.ssh/authorized_keys && chmod 600 ~/.ssh/authorized_keys && echo 'Key added successfully'",
    );
    push_text(&mut args, script.as_str());
    assert(texts(args@) =~= authorize_text(connect_key@, address@, port, user@, public_key@).args);
    CommandLine { program: String::from_str("ssh"), args }
}

/// Tells whether permission bits let others than the owner at the file.
pub fn permissive(mode: u32) -> (r: bool)
    ensures
        r == lets_others_in(mode),
{
    mode & 0o077 != 0
}

/// The command that limits a key to its owner, which is what is advised
/// for a key that others can get at.
pub fn chmod_advice(path: &str) -> (r: String)
    ensures
        r@ == "chmod 600 "@ + path@,
{
    concat2("chmod 600 ", path)
}

} // verus!
