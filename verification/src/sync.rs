//! Copying the music library onto a host.

use crate::remote::{CommandLine, CommandText};
use crate::text::{concat2, concat3, decimal, decimal_text, push_text, texts};
use vstd::prelude::*;

verus! {

/// Where the music lies on a host.
pub open spec fn music_path() -> Seq<char> {
    "/srv/music/"@
}

/// The command that makes the music on a host an exact copy of the local
/// directory `source`, or only shows what would change.
pub open spec fn music_sync_text(
    source: Seq<char>,
    address: Seq<char>,
    port: u16,
    user: Seq<char>,
    key: Seq<char>,
    dry_run: bool,
) -> CommandText {
    CommandText {
        program: "rsync"@,
        args: seq![
            "-avzP"@,
            "--delete"@,
            "--exclude=.DS_Store"@,
            "--exclude=*.tmp"@,
            "-e"@,
            "ssh -p "@ + decimal_text(port as nat) + " -i "@ + key,
            source + "/"@,
            user + "@"@ + address + ":"@ + music_path(),
        ] + (if dry_run {
            seq!["--dry-run"@]
        } else {
            Seq::empty()
        }),
    }
}

/// The command that copies the music onto a host.
pub fn music_sync_command(
    source: &str,
    address: &str,
    port: u16,
    user: &str,
    key: &str,
    dry_run: bool,
) -> (r: CommandLine)
    ensures
        r@ == music_sync_text(source@, address@, port, user@, key@, dry_run),
{
    let mut args: Vec<String> = Vec::new();
    push_text(&mut args, "-avzP");
    push_text(&mut args, "--delete");
    push_text(&mut args, "--exclude=.DS_Store");
    push_text(&mut args, "--exclude=*.tmp");
    push_text(&mut args, "-e");
    let number = decimal(port as u64);
    let mut shell = concat2("ssh -p ", number.as_str());
    shell.append(" -i ");
    shell.append(key);
    push_text(&mut args, shell.as_str());
    let from = concat2(source, "/");
    push_text(&mut args, from.as_str());
    let mut to = concat3(user, "@", address);
    to.append(":");
    to.append("/srv/music/");
    push_text(&mut args, to.as_str());
    if dry_run {
        push_text(&mut args, "--dry-run");
    }
    assert(texts(args@) =~= music_sync_text(source@, address@, port, user@, key@, dry_run).args);
    CommandLine { program: String::from_str("rsync"), args }
}

} // verus!
