//! What the library takes from the machine it runs on: the user's
//! directories. What is made of them is decided elsewhere, by functions
//! that take them as arguments.

use crate::text::{join_path, joined};
use vstd::prelude::*;

verus! {

/// The user's home directory as `dirs::home_dir` reports it, where it can
/// be written as text. It depends on the environment of the process, so
/// nothing is claimed of it.
#[verifier::external_body]
pub(crate) fn home_directory() -> (r: Option<String>) {
    dirs::home_dir().and_then(|path| path.to_str().map(|text| text.to_string()))
}

/// The directory for the user's local data as `dirs::data_local_dir`
/// reports it, where it can be written as text. It depends on the
/// environment of the process, so nothing is claimed of it.
#[verifier::external_body]
pub(crate) fn data_directory() -> (r: Option<String>) {
    dirs::data_local_dir().and_then(|path| path.to_str().map(|text| text.to_string()))
}

/// A path with the home directory in the place of a `~` at its start. The
/// `~` stands for the home directory only where it is the whole path or a
/// `/` follows it, and only where the home directory is known.
pub open spec fn tilde_expanded(input: Seq<char>, home: Option<Seq<char>>) -> Seq<char> {
    if input.len() > 0 && input[0] == '~' && (input.len() == 1 || input[1] == '/') {
        match home {
            Some(h) => h + input.subrange(1, input.len() as int),
            None => input,
        }
    } else {
        input
    }
}

/// The text of an optional path.
pub open spec fn path_text(path: Option<&str>) -> Option<Seq<char>> {
    match path {
        Some(p) => Some(p@),
        None => None,
    }
}

/// Calls `shellexpand::tilde_with_context` with `home` as the home
/// directory. By its source the call returns `home` followed by what
/// stands behind the `~`, where the input is `~` alone or starts with
/// `~/` and `home` is given, and the input itself in every other case.
/// An input that starts with `~\` is kept out: what becomes of it depends
/// on the system the library was built for.
#[verifier::external_body]
fn expand_tilde(input: &str, home: Option<&str>) -> (r: String)
    requires
        !(input@.len() > 1 && input@[0] == '~' && input@[1] == '\\'),
    ensures
        r@ == tilde_expanded(input@, path_text(home)),
{
    shellexpand::tilde_with_context(input, || home).into_owned()
}

/// Puts the home directory in the place of a `~` at the start of a path.
pub fn home_expanded(input: &str, home: Option<&str>) -> (r: String)
    ensures
        r@ == tilde_expanded(input@, path_text(home)),
{
    let len = input.unicode_len();
    if len > 1 && input.get_char(0) == '~' && input.get_char(1) == '\\' {
        String::from_str(input)
    } else {
        expand_tilde(input, home)
    }
}

/// Where snapshots are kept, given the directory for the user's local
/// data.
pub open spec fn backup_dir_text(data: Option<Seq<char>>) -> Seq<char> {
    match data {
        Some(d) => joined(joined(d, "auberge"@), "backups"@),
        None => "~/.local/share/auberge/backups"@,
    }
}

/// Where snapshots are kept, given the directory for the user's local
/// data.
pub fn backup_dir_below(data: Option<&str>) -> (r: String)
    ensures
        r@ == backup_dir_text(path_text(data)),
{
    match data {
        Some(d) => {
            let own = join_path(d, "auberge");
            join_path(own.as_str(), "backups")
        },
        None => String::from_str("~/.local/share/auberge/backups"),
    }
}

/// Where snapshots are kept on this machine.
pub fn default_backup_dir() -> (r: String)
    ensures
        exists|data: Option<Seq<char>>| r@ == backup_dir_text(data),
{
    let data = data_directory();
    match &data {
        Some(d) => {
            let r = backup_dir_below(Some(d.as_str()));
            assert(r@ == backup_dir_text(Some(d@)));
            r
        },
        None => {
            let r = backup_dir_below(None);
            assert(r@ == backup_dir_text(None));
            r
        },
    }
}

} // verus!
