//! Running playbooks: the command line that a run is started with, and
//! the checks on what the operator gives for bootstrapping a host.

use crate::remote::{CommandLine, CommandText};
use crate::text::{
    concat2, concat3, decimal, decimal_text, file_name, file_name_of, join_path, join_texts,
    joined, joined_with, parse_u64, push_text, text_eq, texts, to_chars, unsigned_value,
};
use vstd::prelude::*;

verus! {

/// Four groups of one to three digits with dots between them.
pub open spec fn ipv4_pattern() -> Seq<char> {
    r"^(\d{1,3})\.(\d{1,3})\.(\d{1,3})\.(\d{1,3})$"@
}

/// Three to eight groups of up to four hexadecimal digits with colons
/// between them.
pub open spec fn ipv6_pattern() -> Seq<char> {
    r"^([0-9a-fA-F]{0,4}:){2,7}[0-9a-fA-F]{0,4}$"@
}

/// What the group `index` of the regular expression `pattern` holds in
/// its first match in `text`: `None` where the pattern is no valid
/// expression, does not match, has no such group, or the group took no
/// part in the match. Group 0 is the whole match.
pub uninterp spec fn regex_group(pattern: Seq<char>, text: Seq<char>, index: int) -> Option<
    Seq<char>,
>;

/// Compiles `pattern` with `regex::Regex::new`, searches `text` with
/// `Regex::captures` and reads the group with `Captures::get`. The result
/// is what `regex_group` names; nothing more is claimed of it.
#[verifier::external_body]
fn capture_group(pattern: &str, text: &str, index: usize) -> (r: Option<String>)
    ensures
        match r {
            Some(group) => regex_group(pattern@, text@, index as int) == Some(group@),
            None => regex_group(pattern@, text@, index as int) is None,
        },
{
    let expression = regex::Regex::new(pattern).ok()?;
    let captures = expression.captures(text)?;
    captures.get(index).map(|found| found.as_str().to_string())
}

/// Why an address was refused.
#[derive(Debug, Clone, Copy, PartialEq, Eq, Structural)]
pub enum IpError {
    /// It has the form of neither kind of address.
    InvalidFormat,
    /// A group of a dotted address is above 255. The value is 256 for a
    /// group that is no number.
    OctetOutOfRange { octet: u16 },
}

/// The number that a group of a dotted address stands for; 256 where it
/// stands for none below 65536.
pub open spec fn octet_of(group: Seq<char>) -> u16 {
    match unsigned_value(group) {
        Some(v) => if v <= 65535 {
            v as u16
        } else {
            256
        },
        None => 256,
    }
}

/// The first of the groups from `from` on that is above 255.
pub open spec fn first_bad_octet(groups: Seq<Option<Seq<char>>>, from: nat) -> Option<u16>
    decreases groups.len() - from,
{
    if from >= groups.len() {
        None
    } else {
        match groups[from as int] {
            Some(group) => if octet_of(group) > 255 {
                Some(octet_of(group))
            } else {
                first_bad_octet(groups, from + 1)
            },
            None => first_bad_octet(groups, from + 1),
        }
    }
}

/// What the check of the groups of a dotted address comes to.
pub open spec fn octets_verdict(groups: Seq<Option<Seq<char>>>) -> Result<(), IpError> {
    match first_bad_octet(groups, 0) {
        Some(octet) => Err(IpError::OctetOutOfRange { octet }),
        None => Ok(()),
    }
}

/// The texts of a list of groups, in the same order.
pub open spec fn group_texts(groups: Seq<Option<String>>) -> Seq<Option<Seq<char>>> {
    Seq::new(
        groups.len(),
        |i: int|
            match groups[i] {
                Some(g) => Some(g@),
                None => None,
            },
    )
}

fn octet(group: &str) -> (r: u16)
    ensures
        r == octet_of(group@),
{
    match parse_u64(group) {
        Some(v) => if v <= 65535 {
            v as u16
        } else {
            256
        },
        None => 256,
    }
}

/// Checks the groups of a dotted address: each one that is present must
/// be a number up to 255. The first that is not is reported.
pub fn check_octets(groups: &Vec<Option<String>>) -> (r: Result<(), IpError>)
    ensures
        r == octets_verdict(group_texts(groups@)),
{
    let mut i: usize = 0;
    while i < groups.len()
        invariant
            i <= groups.len(),
            first_bad_octet(group_texts(groups@), 0) == first_bad_octet(
                group_texts(groups@),
                i as nat,
            ),
        decreases groups.len() - i,
    {
        match &groups[i] {
            Some(group) => {
                assert(group_texts(groups@)[i as int] == Some(group@));
                let value = octet(group.as_str());
                if value > 255 {
                    return Err(IpError::OctetOutOfRange { octet: value });
                }
            },
            None => {
                assert(group_texts(groups@)[i as int] is None);
            },
        }
        i = i + 1;
    }
    Ok(())
}

/// What the check of an address comes to: a dotted address with each
/// group up to 255 passes, and so does an address of the colon form.
pub open spec fn ip_verdict(ip: Seq<char>) -> Result<(), IpError> {
    if regex_group(ipv4_pattern(), ip, 0) is Some {
        octets_verdict(
            seq![
                regex_group(ipv4_pattern(), ip, 1),
                regex_group(ipv4_pattern(), ip, 2),
                regex_group(ipv4_pattern(), ip, 3),
                regex_group(ipv4_pattern(), ip, 4),
            ],
        )
    } else if regex_group(ipv6_pattern(), ip, 0) is Some {
        Ok(())
    } else {
        Err(IpError::InvalidFormat)
    }
}

/// Checks that a text has the form of an address.
pub fn validate_ip(ip: &str) -> (r: Result<(), IpError>)
    ensures
        r == ip_verdict(ip@),
{
    let dotted = r"^(\d{1,3})\.(\d{1,3})\.(\d{1,3})\.(\d{1,3})$";
    let colons = r"^([0-9a-fA-F]{0,4}:){2,7}[0-9a-fA-F]{0,4}$";
    if capture_group(dotted, ip, 0).is_some() {
        let mut groups: Vec<Option<String>> = Vec::new();
        groups.push(capture_group(dotted, ip, 1));
        groups.push(capture_group(dotted, ip, 2));
        groups.push(capture_group(dotted, ip, 3));
        groups.push(capture_group(dotted, ip, 4));
        assert(group_texts(groups@) =~= seq![
            regex_group(ipv4_pattern(), ip@, 1),
            regex_group(ipv4_pattern(), ip@, 2),
            regex_group(ipv4_pattern(), ip@, 3),
            regex_group(ipv4_pattern(), ip@, 4),
        ]);
        check_octets(&groups)
    } else if capture_group(colons, ip, 0).is_some() {
        Ok(())
    } else {
        Err(IpError::InvalidFormat)
    }
}

/// Where the address for bootstrapping a host comes from.
#[derive(Debug)]
pub enum IpSource {
    /// The operator gave it, and it has the form of an address.
    Given(String),
    /// The operator is asked for it.
    Ask,
}

/// Why a host cannot be bootstrapped with what was given.
#[derive(Debug, Clone, Copy, PartialEq, Eq, Structural)]
pub enum BootstrapError {
    /// The address that was given is none.
    Address(IpError),
    /// No address was given and asking is ruled out.
    AddressRequired,
}

/// Decides where the address for bootstrapping comes from: the one given
/// if it is an address; else the operator is asked, unless asking is
/// ruled out by `force`.
pub fn bootstrap_ip(ip: Option<String>, force: bool) -> (r: Result<IpSource, BootstrapError>)
    ensures
        match ip {
            Some(given) => match ip_verdict(given@) {
                Ok(_) => r matches Ok(IpSource::Given(taken)) && taken == given,
                Err(e) => r matches Err(BootstrapError::Address(f)) && f == e,
            },
            None => if force {
                r matches Err(BootstrapError::AddressRequired)
            } else {
                r matches Ok(IpSource::Ask)
            },
        },
{
    match ip {
        Some(given) => match validate_ip(given.as_str()) {
            Ok(_) => Ok(IpSource::Given(given)),
            Err(e) => Err(BootstrapError::Address(e)),
        },
        None => if force {
            Err(BootstrapError::AddressRequired)
        } else {
            Ok(IpSource::Ask)
        },
    }
}

/// Whether the playbook at a path is the one that sets up a fresh host,
/// which is reached by password at the default port.
pub open spec fn is_bootstrap(playbook: Seq<char>) -> bool {
    file_name_of(playbook) == Some("bootstrap.yml"@)
}

/// Whether the playbook at a path installs applications, which needs the
/// token for the name service to be in place.
pub open spec fn installs_apps(playbook: Seq<char>) -> bool {
    file_name_of(playbook) == Some("apps.yml"@) || file_name_of(playbook) == Some("auberge.yml"@)
}

/// Whether the playbook at a path is the one that sets up a fresh host.
pub fn is_fresh_bootstrap(playbook: &str) -> (r: bool)
    ensures
        r == is_bootstrap(playbook@),
{
    match file_name(playbook) {
        Some(name) => text_eq(name.as_str(), "bootstrap.yml"),
        None => false,
    }
}

/// Whether the playbook at a path installs applications.
pub fn needs_cloudflare_warning(playbook: &str) -> (r: bool)
    ensures
        r == installs_apps(playbook@),
{
    match file_name(playbook) {
        Some(name) => text_eq(name.as_str(), "apps.yml") || text_eq(name.as_str(), "auberge.yml"),
        None => false,
    }
}

/// A path as it is written from inside the directory `dir`: without the
/// directory and the separator in front, where it starts with them.
pub open spec fn inside(path: Seq<char>, dir: Seq<char>) -> Seq<char> {
    let prefix = dir + seq!['/'];
    if path.len() >= prefix.len() && path.subrange(0, prefix.len() as int) == prefix {
        path.subrange(prefix.len() as int, path.len() as int)
    } else {
        path
    }
}

fn strip_dir(path: &str, dir: &str) -> (r: String)
    ensures
        r@ == inside(path@, dir@),
{
    let p = to_chars(path);
    let d = to_chars(dir);
    let ghost prefix = dir@ + seq!['/'];
    if d.len() >= p.len() {
        return String::from_str(path);
    }
    let mut i: usize = 0;
    while i < d.len()
        invariant
            i <= d.len() < p.len(),
            p@ == path@,
            d@ == dir@,
            prefix == dir@ + seq!['/'],
            forall|k: int| 0 <= k < i ==> p@[k] == d@[k],
        decreases d.len() - i,
    {
        if p[i] != d[i] {
            assert(path@.subrange(0, prefix.len() as int)[i as int] != prefix[i as int]);
            return String::from_str(path);
        }
        i = i + 1;
    }
    if p[d.len()] != '/' {
        assert(path@.subrange(0, prefix.len() as int)[d@.len() as int] != prefix[d@.len() as int]);
        return String::from_str(path);
    }
    assert(path@.subrange(0, prefix.len() as int) =~= prefix);
    String::from_str(path.substring_char(d.len() + 1, p.len()))
}

/// One variable for a run, as plain text values.
pub struct VarText {
    pub key: Seq<char>,
    pub value: Seq<char>,
}

/// One variable for a run.
#[derive(Debug)]
pub struct ExtraVar {
    pub key: String,
    pub value: String,
}

impl View for ExtraVar {
    type V = VarText;

    open spec fn view(&self) -> VarText {
        VarText { key: self.key@, value: self.value@ }
    }
}

/// The texts of a list of variables, in the same order.
pub open spec fn var_texts(vars: Seq<ExtraVar>) -> Seq<VarText> {
    Seq::new(vars.len(), |i: int| vars[i]@)
}

/// The options that pass the first `upto` variables.
pub open spec fn var_flags(vars: Seq<VarText>, upto: nat) -> Seq<Seq<char>>
    decreases upto,
{
    if upto == 0 || upto > vars.len() {
        Seq::empty()
    } else {
        var_flags(vars, (upto - 1) as nat) + seq![
            "-e"@,
            vars[upto - 1].key + "="@ + vars[upto - 1].value,
        ]
    }
}

/// What a run of a playbook is asked to do.
#[derive(Debug)]
pub struct PlaybookRun {
    /// The path of the playbook.
    pub playbook: String,
    /// The directory that holds the inventory, from which the run starts.
    pub ansible_dir: String,
    /// The host that the run is limited to.
    pub host: String,
    /// The file that holds the variables of the configuration.
    pub vars_file: String,
    /// Whether only to show what would change.
    pub check: bool,
    pub ask_vault_pass: bool,
    pub ask_pass: bool,
    /// The tags that the run is limited to, if it is.
    pub tags: Option<Vec<String>>,
    /// Variables on top of those of the configuration.
    pub extra_vars: Vec<ExtraVar>,
}

/// The options that a optional flag comes to.
pub open spec fn flag(on: bool, text: Seq<char>) -> Seq<Seq<char>> {
    if on {
        seq![text]
    } else {
        Seq::empty()
    }
}

/// The options that open a fresh host: it is asked for its password, at
/// the default port, and its key is not checked.
pub open spec fn fresh_host_flags() -> Seq<Seq<char>> {
    seq![
        "--ask-pass"@,
        "-e"@,
        "ansible_port=22"@,
        "-e"@,
        "ansible_ssh_common_args='-o StrictHostKeyChecking=no -o UserKnownHostsFile=/dev/null'"@,
    ]
}

impl PlaybookRun {
    /// The arguments of the run.
    pub open spec fn arg_texts(self) -> Seq<Seq<char>> {
        let fresh = is_bootstrap(self.playbook@);
        seq![
            "-i"@,
            "inventory.yml"@,
            inside(self.playbook@, self.ansible_dir@),
            "--limit"@,
            self.host@,
            "--extra-vars"@,
            "@"@ + self.vars_file@,
        ] + flag(self.check, "--check"@) + flag(self.ask_vault_pass, "--ask-vault-pass"@) + (if fresh {
            fresh_host_flags()
        } else {
            flag(self.ask_pass, "--ask-pass"@)
        }) + (match self.tags {
            Some(tags) => seq!["--tags"@, joined_with(texts(tags@), ","@, tags@.len())],
            None => Seq::empty(),
        }) + var_flags(var_texts(self.extra_vars@), self.extra_vars@.len())
    }

    /// The command that starts the run. It is run from `ansible_dir`.
    pub fn command(&self) -> (r: CommandLine)
        ensures
            r@ == (CommandText { program: "ansible-playbook"@, args: self.arg_texts() }),
    {
        let mut args: Vec<String> = Vec::new();
        push_text(&mut args, "-i");
        push_text(&mut args, "inventory.yml");
        let relative = strip_dir(self.playbook.as_str(), self.ansible_dir.as_str());
        push_text(&mut args, relative.as_str());
        push_text(&mut args, "--limit");
        push_text(&mut args, self.host.as_str());
        push_text(&mut args, "--extra-vars");
        let vars = concat2("@", self.vars_file.as_str());
        push_text(&mut args, vars.as_str());
        add_flag(&mut args, self.check, "--check");
        add_flag(&mut args, self.ask_vault_pass, "--ask-vault-pass");
        add_password_flags(&mut args, self.playbook.as_str(), self.ask_pass);
        add_tags(&mut args, &self.tags);
        add_vars(&mut args, &self.extra_vars);
        assert(texts(args@) =~= self.arg_texts());
        CommandLine { program: String::from_str("ansible-playbook"), args }
    }
}

fn add_flag(args: &mut Vec<String>, on: bool, text: &str)
    ensures
        texts(final(args)@) == texts(old(args)@) + flag(on, text@),
{
    if on {
        push_text(args, text);
    }
    assert(texts(args@) =~= texts(old(args)@) + flag(on, text@));
}

fn add_password_flags(args: &mut Vec<String>, playbook: &str, ask_pass: bool)
    ensures
        texts(final(args)@) == texts(old(args)@) + (if is_bootstrap(playbook@) {
            fresh_host_flags()
        } else {
            flag(ask_pass, "--ask-pass"@)
        }),
{
    if is_fresh_bootstrap(playbook) {
        push_text(args, "--ask-pass");
        push_text(args, "-e");
        push_text(args, "ansible_port=22");
        push_text(args, "-e");
        push_text(
            args,
            "ansible_ssh_common_args='-o StrictHostKeyChecking=no -o UserKnownHostsFile=/dev/null'",
        );
        assert(texts(args@) =~= texts(old(args)@) + fresh_host_flags());
    } else {
        add_flag(args, ask_pass, "--ask-pass");
    }
}

fn add_tags(args: &mut Vec<String>, tags: &Option<Vec<String>>)
    ensures
        texts(final(args)@) == texts(old(args)@) + (match tags {
            Some(list) => seq!["--tags"@, joined_with(texts(list@), ","@, list@.len())],
            None => Seq::empty(),
        }),
{
    match tags {
        Some(list) => {
            push_text(args, "--tags");
            let joined = join_texts(list, ",");
            push_text(args, joined.as_str());
            assert(texts(args@) =~= texts(old(args)@) + seq![
                "--tags"@,
                joined_with(texts(list@), ","@, list@.len()),
            ]);
        },
        None => {
            assert(texts(args@) =~= texts(old(args)@) + Seq::<Seq<char>>::empty());
        },
    }
}

fn add_vars(args: &mut Vec<String>, vars: &Vec<ExtraVar>)
    ensures
        texts(final(args)@) == texts(old(args)@) + var_flags(var_texts(vars@), vars@.len()),
{
    let ghost head = texts(args@);
    let mut i: usize = 0;
    assert(texts(args@) =~= head + var_flags(var_texts(vars@), 0));
    while i < vars.len()
        invariant
            i <= vars.len(),
            texts(args@) == head + var_flags(var_texts(vars@), i as nat),
        decreases vars.len() - i,
    {
        assert(var_texts(vars@)[i as int] == vars@[i as int]@);
        push_text(args, "-e");
        let pair = concat3(vars[i].key.as_str(), "=", vars[i].value.as_str());
        push_text(args, pair.as_str());
        assert(texts(args@) =~= head + var_flags(var_texts(vars@), (i + 1) as nat));
        i = i + 1;
    }
}

/// The arguments that bootstrap a host: the run is limited to the host,
/// which is reached at the given address and port as the given user, by
/// password.
pub open spec fn bootstrap_args(
    playbook: Seq<char>,
    ansible_dir: Seq<char>,
    host: Seq<char>,
    vars_file: Seq<char>,
    host_ip: Seq<char>,
    user: Seq<char>,
    port: u16,
) -> Seq<Seq<char>> {
    seq![
        "-i"@,
        "inventory.yml"@,
        inside(playbook, ansible_dir),
        "--limit"@,
        host,
        "--extra-vars"@,
        "@"@ + vars_file,
        "-e"@,
        "ansible_port="@ + decimal_text(port as nat),
        "-e"@,
        "ansible_user="@ + user,
        "-e"@,
        "ansible_host="@ + host_ip,
        "--ask-pass"@,
    ]
}

/// The command that bootstraps a host. It is run from `ansible_dir`.
pub fn bootstrap_command(
    playbook: &str,
    ansible_dir: &str,
    host: &str,
    vars_file: &str,
    host_ip: &str,
    user: &str,
    port: u16,
) -> (r: CommandLine)
    ensures
        r@ == (CommandText {
            program: "ansible-playbook"@,
            args: bootstrap_args(
                playbook@,
                ansible_dir@,
                host@,
                vars_file@,
                host_ip@,
                user@,
                port,
            ),
        }),
{
    let mut args: Vec<String> = Vec::new();
    push_text(&mut args, "-i");
    push_text(&mut args, "inventory.yml");
    let relative = strip_dir(playbook, ansible_dir);
    push_text(&mut args, relative.as_str());
    push_text(&mut args, "--limit");
    push_text(&mut args, host);
    push_text(&mut args, "--extra-vars");
    let vars = concat2("@", vars_file);
    push_text(&mut args, vars.as_str());
    push_text(&mut args, "-e");
    let number = decimal(port as u64);
    let port_var = concat2("ansible_port=", number.as_str());
    push_text(&mut args, port_var.as_str());
    push_text(&mut args, "-e");
    let user_var = concat2("ansible_user=", user);
    push_text(&mut args, user_var.as_str());
    push_text(&mut args, "-e");
    let host_var = concat2("ansible_host=", host_ip);
    push_text(&mut args, host_var.as_str());
    push_text(&mut args, "--ask-pass");
    assert(texts(args@) =~= bootstrap_args(
        playbook@,
        ansible_dir@,
        host@,
        vars_file@,
        host_ip@,
        user@,
        port,
    ));
    CommandLine { program: String::from_str("ansible-playbook"), args }
}

/// The directory that holds the inventory and the playbooks of a project.
pub fn ansible_dir(project_root: &str) -> (r: String)
    ensures
        r@ == joined(project_root@, "ansible"@),
{
    join_path(project_root, "ansible")
}

} // verus!
