//! The commands that are run against a remote host, written out as argument
//! lists, and the reading of what the probes print. Running them is not
//! done here.
//!
//! Every remote shell but the first probe shares one connection, kept open
//! for a minute after its last use. Copies exclude a fixed list of
//! transient files and run with privileges on the remote side.

use crate::hosts::Host;
use crate::text::{
    concat2, concat3, contains_text, decimal, decimal_text, occurs_in, parse_u64, push_text,
    texts, trim_text, trimmed, unsigned_value,
};
use vstd::prelude::*;

verus! {

/// A program and its arguments, as plain text values.
pub struct CommandText {
    pub program: Seq<char>,
    pub args: Seq<Seq<char>>,
}

/// A program and its arguments.
#[derive(Debug)]
pub struct CommandLine {
    pub program: String,
    pub args: Vec<String>,
}

impl View for CommandLine {
    type V = CommandText;

    open spec fn view(&self) -> CommandText {
        CommandText { program: self.program@, args: texts(self.args@) }
    }
}

/// What a service is told to do.
#[derive(Debug, Clone, Copy, PartialEq, Eq, Structural)]
pub enum ServiceAction {
    Start,
    Stop,
}

impl ServiceAction {
    /// The word for the action on the command line.
    pub open spec fn word(self) -> Seq<char> {
        match self {
            ServiceAction::Start => "start"@,
            ServiceAction::Stop => "stop"@,
        }
    }

    /// The word for the action on the command line.
    pub fn as_str(self) -> (r: &'static str)
        ensures
            r@ == self.word(),
    {
        match self {
            ServiceAction::Start => "start",
            ServiceAction::Stop => "stop",
        }
    }
}

/// The options that make remote shells share one connection.
pub open spec fn session_flags() -> Seq<Seq<char>> {
    seq![
        "-o"@,
        "ControlMaster=auto"@,
        "-o"@,
        "ControlPath=/tmp/ssh-%r@%h:%p"@,
        "-o"@,
        "ControlPersist=60s"@,
    ]
}

/// The options of the first probe: give up after ten seconds, never ask.
pub open spec fn probe_flags() -> Seq<Seq<char>> {
    seq!["-o"@, "ConnectTimeout=10"@, "-o"@, "BatchMode=yes"@]
}

/// The user and address to log in at.
pub open spec fn login(host: Host) -> Seq<char> {
    host.user@ + "@"@ + host.address@
}

/// Key, port and login, as every remote shell gets them.
pub open spec fn identity(host: Host, key: Seq<char>) -> Seq<Seq<char>> {
    seq!["-i"@, key, "-p"@, decimal_text(host.port as nat), login(host)]
}

/// The file patterns that no copy takes along: version control data,
/// caches and build outputs, temporary files and logs.
pub open spec fn transient_patterns() -> Seq<Seq<char>> {
    seq![
        ".git"@,
        ".git/"@,
        "venv"@,
        "venv/"@,
        "node_modules"@,
        "node_modules/"@,
        "__pycache__"@,
        "__pycache__/"@,
        "*.pyc"@,
        "*.pyo"@,
        ".cache"@,
        ".cache/"@,
        ".Radicale.cache"@,
        ".Radicale.cache/"@,
        "*.tmp"@,
        "*.log"@,
        ".DS_Store"@,
    ]
}

/// One exclusion option for each transient pattern.
pub open spec fn exclusions() -> Seq<Seq<char>> {
    Seq::new(transient_patterns().len(), |i: int| "--exclude="@ + transient_patterns()[i])
}

/// The remote shell that a copy travels through.
pub open spec fn transport(host: Host, key: Seq<char>) -> Seq<char> {
    "ssh -o ControlMaster=auto -o ControlPath=/tmp/ssh-%r@%h:%p -o ControlPersist=60s -i "@ + key
        + " -p "@ + decimal_text(host.port as nat)
}

/// `systemctl start` or `stop` of a service, with privileges.
pub open spec fn systemctl_text(
    host: Host,
    key: Seq<char>,
    action: ServiceAction,
    service: Seq<char>,
) -> CommandText {
    CommandText {
        program: "ssh"@,
        args: session_flags() + identity(host, key) + seq![
            "sudo"@,
            "systemctl"@,
            action.word(),
            service,
        ],
    }
}

/// `chown -R user:group path`, with privileges.
pub open spec fn chown_text(
    host: Host,
    key: Seq<char>,
    path: Seq<char>,
    user: Seq<char>,
    group: Seq<char>,
) -> CommandText {
    CommandText {
        program: "ssh"@,
        args: session_flags() + identity(host, key) + seq![
            "sudo"@,
            "chown"@,
            "-R"@,
            user + ":"@ + group,
            path,
        ],
    }
}

/// `mkdir -p` of a remote directory, with privileges.
pub open spec fn mkdir_text(host: Host, key: Seq<char>, dir: Seq<char>) -> CommandText {
    CommandText {
        program: "ssh"@,
        args: identity(host, key) + seq!["sudo"@, "mkdir"@, "-p"@, dir],
    }
}

/// The probe that tells whether the host can be reached at all.
pub open spec fn liveness_text(host: Host, key: Seq<char>) -> CommandText {
    CommandText {
        program: "ssh"@,
        args: probe_flags() + identity(host, key) + seq!["echo"@, "ok"@],
    }
}

/// The probe that lists the unit file of a service.
pub open spec fn service_probe_text(host: Host, key: Seq<char>, service: Seq<char>) -> CommandText {
    CommandText {
        program: "ssh"@,
        args: session_flags() + identity(host, key) + seq![
            "systemctl"@,
            "list-unit-files"@,
            service + ".service"@,
        ],
    }
}

/// The probe that prints the free space below `path`, in kibibytes.
pub open spec fn disk_probe_text(host: Host, key: Seq<char>, path: Seq<char>) -> CommandText {
    CommandText {
        program: "ssh"@,
        args: session_flags() + identity(host, key) + seq![
            "df --output=avail "@ + path + " | tail -1"@,
        ],
    }
}

/// The copy of a remote path into a local directory, under its full path.
/// It deletes there what the remote path does not hold, so that the copy
/// is an exact one.
pub open spec fn pull_text(
    host: Host,
    key: Seq<char>,
    remote_path: Seq<char>,
    local_dir: Seq<char>,
) -> CommandText {
    CommandText {
        program: "rsync"@,
        args: seq!["-az"@, "--relative"@, "--delete"@, "--rsync-path=sudo rsync"@] + exclusions()
            + seq!["-e"@, transport(host, key), login(host) + ":"@ + remote_path, local_dir],
    }
}

/// The copy of the contents of a local directory onto a remote path, which
/// deletes there what the local directory does not hold.
pub open spec fn push_text_of(
    host: Host,
    key: Seq<char>,
    local_dir: Seq<char>,
    remote_path: Seq<char>,
) -> CommandText {
    CommandText {
        program: "rsync"@,
        args: seq!["-az"@, "--delete"@, "--rsync-path=sudo rsync"@] + exclusions() + seq![
            "-e"@,
            transport(host, key),
            local_dir + "/"@,
            login(host) + ":"@ + remote_path,
        ],
    }
}

fn add_session_flags(args: &mut Vec<String>)
    ensures
        texts(final(args)@) == texts(old(args)@) + session_flags(),
{
    push_text(args, "-o");
    push_text(args, "ControlMaster=auto");
    push_text(args, "-o");
    push_text(args, "ControlPath=/tmp/ssh-%r@%h:%p");
    push_text(args, "-o");
    push_text(args, "ControlPersist=60s");
    assert(texts(args@) =~= texts(old(args)@) + session_flags());
}

/// Appends key, port and login to a list of arguments.
pub(crate) fn add_identity(args: &mut Vec<String>, host: &Host, key: &str)
    ensures
        texts(final(args)@) == texts(old(args)@) + identity(*host, key@),
{
    push_text(args, "-i");
    push_text(args, key);
    push_text(args, "-p");
    let port = decimal(host.port as u64);
    push_text(args, port.as_str());
    let target = concat3(host.user.as_str(), "@", host.address.as_str());
    push_text(args, target.as_str());
    assert(texts(args@) =~= texts(old(args)@) + identity(*host, key@));
}

fn add_exclusion(args: &mut Vec<String>, pattern: &str)
    ensures
        texts(final(args)@) == texts(old(args)@).push("--exclude="@ + pattern@),
{
    let flag = concat2("--exclude=", pattern);
    push_text(args, flag.as_str());
}

fn add_exclusions(args: &mut Vec<String>)
    ensures
        texts(final(args)@) == texts(old(args)@) + exclusions(),
{
    add_exclusion(args, ".git");
    add_exclusion(args, ".git/");
    add_exclusion(args, "venv");
    add_exclusion(args, "venv/");
    add_exclusion(args, "node_modules");
    add_exclusion(args, "node_modules/");
    add_exclusion(args, "__pycache__");
    add_exclusion(args, "__pycache__/");
    add_exclusion(args, "*.pyc");
    add_exclusion(args, "*.pyo");
    add_exclusion(args, ".cache");
    add_exclusion(args, ".cache/");
    add_exclusion(args, ".Radicale.cache");
    add_exclusion(args, ".Radicale.cache/");
    add_exclusion(args, "*.tmp");
    add_exclusion(args, "*.log");
    add_exclusion(args, ".DS_Store");
    assert(texts(args@) =~= texts(old(args)@) + exclusions());
}

fn transport_of(host: &Host, key: &str) -> (r: String)
    ensures
        r@ == transport(*host, key@),
{
    let mut r = String::from_str(
        "ssh -o ControlMaster=auto -o ControlPath=/tmp/ssh-%r@%h:%p -o ControlPersist=60s -i ",
    );
    r.append(key);
    r.append(" -p ");
    let port = decimal(host.port as u64);
    r.append(port.as_str());
    r
}

impl CommandLine {
    /// Starts or stops a service on the host.
    pub fn systemctl(host: &Host, key: &str, action: ServiceAction, service: &str) -> (r: Self)
        ensures
            r@ == systemctl_text(*host, key@, action, service@),
    {
        let mut args: Vec<String> = Vec::new();
        add_session_flags(&mut args);
        add_identity(&mut args, host, key);
        push_text(&mut args, "sudo");
        push_text(&mut args, "systemctl");
        push_text(&mut args, action.as_str());
        push_text(&mut args, service);
        assert(texts(args@) =~= systemctl_text(*host, key@, action, service@).args);
        CommandLine { program: String::from_str("ssh"), args }
    }

    /// Hands a remote path and all below it to a user and group.
    pub fn chown(host: &Host, key: &str, path: &str, user: &str, group: &str) -> (r: Self)
        ensures
            r@ == chown_text(*host, key@, path@, user@, group@),
    {
        let mut args: Vec<String> = Vec::new();
        add_session_flags(&mut args);
        add_identity(&mut args, host, key);
        push_text(&mut args, "sudo");
        push_text(&mut args, "chown");
        push_text(&mut args, "-R");
        let owner = concat3(user, ":", group);
        push_text(&mut args, owner.as_str());
        push_text(&mut args, path);
        assert(texts(args@) =~= chown_text(*host, key@, path@, user@, group@).args);
        CommandLine { program: String::from_str("ssh"), args }
    }

    /// Creates a remote directory and what is missing above it.
    pub fn mkdir(host: &Host, key: &str, dir: &str) -> (r: Self)
        ensures
            r@ == mkdir_text(*host, key@, dir@),
    {
        let mut args: Vec<String> = Vec::new();
        add_identity(&mut args, host, key);
        push_text(&mut args, "sudo");
        push_text(&mut args, "mkdir");
        push_text(&mut args, "-p");
        push_text(&mut args, dir);
        assert(texts(args@) =~= mkdir_text(*host, key@, dir@).args);
        CommandLine { program: String::from_str("ssh"), args }
    }

    /// Probes whether the host answers, without ever asking for input.
    pub fn liveness(host: &Host, key: &str) -> (r: Self)
        ensures
            r@ == liveness_text(*host, key@),
    {
        let mut args: Vec<String> = Vec::new();
        push_text(&mut args, "-o");
        push_text(&mut args, "ConnectTimeout=10");
        push_text(&mut args, "-o");
        push_text(&mut args, "BatchMode=yes");
        add_identity(&mut args, host, key);
        push_text(&mut args, "echo");
        push_text(&mut args, "ok");
        assert(texts(args@) =~= liveness_text(*host, key@).args);
        CommandLine { program: String::from_str("ssh"), args }
    }

    /// Asks the host for the unit file of a service.
    pub fn service_probe(host: &Host, key: &str, service: &str) -> (r: Self)
        ensures
            r@ == service_probe_text(*host, key@, service@),
    {
        let mut args: Vec<String> = Vec::new();
        add_session_flags(&mut args);
        add_identity(&mut args, host, key);
        push_text(&mut args, "systemctl");
        push_text(&mut args, "list-unit-files");
        let unit = concat2(service, ".service");
        push_text(&mut args, unit.as_str());
        assert(texts(args@) =~= service_probe_text(*host, key@, service@).args);
        CommandLine { program: String::from_str("ssh"), args }
    }

    /// Asks the host for the free space below `path`.
    pub fn disk_probe(host: &Host, key: &str, path: &str) -> (r: Self)
        ensures
            r@ == disk_probe_text(*host, key@, path@),
    {
        let mut args: Vec<String> = Vec::new();
        add_session_flags(&mut args);
        add_identity(&mut args, host, key);
        let script = concat3("df --output=avail ", path, " | tail -1");
        push_text(&mut args, script.as_str());
        assert(texts(args@) =~= disk_probe_text(*host, key@, path@).args);
        CommandLine { program: String::from_str("ssh"), args }
    }

    /// Copies a remote path into a local directory.
    pub fn pull(host: &Host, key: &str, remote_path: &str, local_dir: &str) -> (r: Self)
        ensures
            r@ == pull_text(*host, key@, remote_path@, local_dir@),
    {
        let mut args: Vec<String> = Vec::new();
        push_text(&mut args, "-az");
        push_text(&mut args, "--relative");
        push_text(&mut args, "--delete");
        push_text(&mut args, "--rsync-path=sudo rsync");
        add_exclusions(&mut args);
        push_text(&mut args, "-e");
        let shell = transport_of(host, key);
        push_text(&mut args, shell.as_str());
        let target = concat3(host.user.as_str(), "@", host.address.as_str());
        let source = concat3(target.as_str(), ":", remote_path);
        push_text(&mut args, source.as_str());
        push_text(&mut args, local_dir);
        assert(texts(args@) =~= pull_text(*host, key@, remote_path@, local_dir@).args);
        CommandLine { program: String::from_str("rsync"), args }
    }

    /// Mirrors the contents of a local directory onto a remote path.
    pub fn push(host: &Host, key: &str, local_dir: &str, remote_path: &str) -> (r: Self)
        ensures
            r@ == push_text_of(*host, key@, local_dir@, remote_path@),
    {
        let mut args: Vec<String> = Vec::new();
        push_text(&mut args, "-az");
        push_text(&mut args, "--delete");
        push_text(&mut args, "--rsync-path=sudo rsync");
        add_exclusions(&mut args);
        push_text(&mut args, "-e");
        let shell = transport_of(host, key);
        push_text(&mut args, shell.as_str());
        let source = concat2(local_dir, "/");
        push_text(&mut args, source.as_str());
        let target = concat3(host.user.as_str(), "@", host.address.as_str());
        let destination = concat3(target.as_str(), ":", remote_path);
        push_text(&mut args, destination.as_str());
        assert(texts(args@) =~= push_text_of(*host, key@, local_dir@, remote_path@).args);
        CommandLine { program: String::from_str("rsync"), args }
    }
}

/// Whether the listing of unit files shows the service: the listing
/// succeeded and names the unit.
pub open spec fn unit_listed(succeeded: bool, output: Seq<char>, service: Seq<char>) -> bool {
    succeeded && occurs_in(output, service + ".service"@)
}

/// Reads the answer of the service probe.
pub fn service_listed(succeeded: bool, output: &str, service: &str) -> (r: bool)
    ensures
        r == unit_listed(succeeded, output@, service@),
{
    if !succeeded {
        return false;
    }
    let unit = concat2(service, ".service");
    contains_text(output, unit.as_str())
}

/// The free space that the disk probe reported, in bytes: the number it
/// printed, taken as kibibytes. No answer where the probe failed, printed
/// no number, or the space is beyond 64 bits.
pub open spec fn free_space(succeeded: bool, output: Seq<char>) -> Option<u64> {
    if !succeeded {
        None
    } else {
        match unsigned_value(trimmed(output)) {
            Some(kib) => if kib * 1024 <= u64::MAX {
                Some((kib * 1024) as u64)
            } else {
                None
            },
            None => None,
        }
    }
}

/// Reads the answer of the disk probe.
pub fn available_bytes(succeeded: bool, output: &str) -> (r: Option<u64>)
    ensures
        r == free_space(succeeded, output@),
{
    if !succeeded {
        return None;
    }
    let number = trim_text(output);
    match parse_u64(number.as_str()) {
        Some(kib) => {
            if kib > u64::MAX / 1024 {
                None
            } else {
                Some(kib * 1024)
            }
        },
        None => None,
    }
}

} // verus!
