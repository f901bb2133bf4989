//! Moving the list of feeds of the feed reader out of a host and into it:
//! the commands that do it.

use crate::hosts::Host;
use crate::remote::{add_identity, identity, login, CommandLine, CommandText};
use crate::text::{concat2, concat3, decimal, decimal_text, push_text, texts};
use vstd::prelude::*;

verus! {

/// The remote command that writes out the feeds of a user.
pub open spec fn export_script(user: Seq<char>) -> Seq<char> {
    "cd /opt/freshrss && sudo -u freshrss ./cli/export-opml-for-user.php --user "@ + user
}

/// Where an uploaded list of feeds lies on the host until it is imported.
pub open spec fn upload_path(user: Seq<char>) -> Seq<char> {
    "/tmp/freshrss_import_"@ + user + ".opml"@
}

/// The remote command that reads in the uploaded feeds of a user and
/// removes the upload.
pub open spec fn import_script(user: Seq<char>) -> Seq<char> {
    "cd /opt/freshrss && sudo -u freshrss ./cli/import-for-user.php --user "@ + user
        + " --filename "@ + upload_path(user) + " && rm "@ + upload_path(user)
}

/// The command that prints the feeds of a user.
pub open spec fn export_text(host: Host, key: Seq<char>, user: Seq<char>) -> CommandText {
    CommandText { program: "ssh"@, args: identity(host, key) + seq![export_script(user)] }
}

/// The command that uploads a list of feeds.
pub open spec fn upload_text(host: Host, key: Seq<char>, input: Seq<char>, user: Seq<char>) -> CommandText {
    CommandText {
        program: "scp"@,
        args: seq![
            "-i"@,
            key,
            "-P"@,
            decimal_text(host.port as nat),
            input,
            login(host) + ":"@ + upload_path(user),
        ],
    }
}

/// The command that reads in the uploaded feeds.
pub open spec fn import_text(host: Host, key: Seq<char>, user: Seq<char>) -> CommandText {
    CommandText { program: "ssh"@, args: identity(host, key) + seq![import_script(user)] }
}

fn upload_place(user: &str) -> (r: String)
    ensures
        r@ == upload_path(user@),
{
    concat3("/tmp/freshrss_import_", user, ".opml")
}

/// The command that prints the feeds of a user.
pub fn export_command(host: &Host, key: &str, user: &str) -> (r: CommandLine)
    ensures
        r@ == export_text(*host, key@, user@),
{
    let mut args: Vec<String> = Vec::new();
    add_identity(&mut args, host, key);
    let script = concat2(
        "cd /opt/freshrss && sudo -u freshrss ./cli/export-opml-for-user.php --user ",
        user,
    );
    push_text(&mut args, script.as_str());
    assert(texts(args@) =~= export_text(*host, key@, user@).args);
    CommandLine { program: String::from_str("ssh"), args }
}

/// The command that uploads a list of feeds.
pub fn upload_command(host: &Host, key: &str, input: &str, user: &str) -> (r: CommandLine)
    ensures
        r@ == upload_text(*host, key@, input@, user@),
{
    let mut args: Vec<String> = Vec::new();
    push_text(&mut args, "-i");
    push_text(&mut args, key);
    push_text(&mut args, "-P");
    let port = decimal(host.port as u64);
    push_text(&mut args, port.as_str());
    push_text(&mut args, input);
    let target = concat3(host.user.as_str(), "@", host.address.as_str());
    let place = upload_place(user);
    let destination = concat3(target.as_str(), ":", place.as_str());
    push_text(&mut args, destination.as_str());
    assert(texts(args@) =~= upload_text(*host, key@, input@, user@).args);
    CommandLine { program: String::from_str("scp"), args }
}

/// The command that reads in the uploaded feeds.
pub fn import_command(host: &Host, key: &str, user: &str) -> (r: CommandLine)
    ensures
        r@ == import_text(*host, key@, user@),
{
    let mut args: Vec<String> = Vec::new();
    add_identity(&mut args, host, key);
    let place = upload_place(user);
    let mut script = concat2(
        "cd /opt/freshrss && sudo -u freshrss ./cli/import-for-user.php --user ",
        user,
    );
    script.append(" --filename ");
    script.append(place.as_str());
    script.append(" && rm ");
    script.append(place.as_str());
    assert(script@ =~= import_script(user@));
    push_text(&mut args, script.as_str());
    assert(texts(args@) =~= import_text(*host, key@, user@).args);
    CommandLine { program: String::from_str("ssh"), args }
}

} // verus!
