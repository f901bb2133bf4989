//! The machines that are managed, and the list they are kept in.

use crate::ssh_config::SshConfigHost;
use crate::text::{join_path, joined, text_eq, texts, to_chars, trim_text, trimmed};
use vstd::prelude::*;

verus! {

/// One managed machine and how to reach it.
#[derive(Debug)]
pub struct Host {
    pub name: String,
    pub address: String,
    pub user: String,
    pub port: u16,
    pub ssh_key: Option<String>,
    pub tags: Vec<String>,
    pub description: Option<String>,
    pub python_interpreter: Option<String>,
    pub become_method: String,
}

/// Why a change to the list of hosts was refused.
#[derive(Debug, Clone, Copy, PartialEq, Eq, Structural)]
pub enum HostError {
    /// A host of that name is in the list already.
    AlreadyExists,
    /// No host of that name is in the list.
    NotFound,
}

/// The port a host is reached at when none is given.
pub fn default_port() -> (r: u16)
    ensures
        r == 22,
{
    22
}

/// The way to gain privileges on a host when none is given.
pub fn default_become_method() -> (r: String)
    ensures
        r@ == "sudo"@,
{
    String::from_str("sudo")
}

/// The end of the item that starts at `from` of a list written with
/// commas: the position of the next comma, or the end of the text.
pub open spec fn item_end(s: Seq<char>, from: nat) -> nat
    decreases s.len() - from,
{
    if from >= s.len() {
        s.len()
    } else if s[from as int] == ',' {
        from
    } else {
        item_end(s, from + 1)
    }
}

/// The items from position `from` on of a list written with commas, each
/// without the white space around it. A text without any comma is one
/// item, and so is the empty text.
pub open spec fn items_from(s: Seq<char>, from: nat) -> Seq<Seq<char>>
    decreases s.len() - from,
    via items_from_ends
{
    let end = item_end(s, from);
    let item = seq![trimmed(s.subrange(from as int, end as int))];
    if end >= s.len() {
        item
    } else {
        item + items_from(s, end + 1)
    }
}

#[via_fn]
proof fn items_from_ends(s: Seq<char>, from: nat) {
    lemma_item_end_bounds(s, from);
}

proof fn lemma_item_end_bounds(s: Seq<char>, from: nat)
    ensures
        from <= s.len() ==> from <= item_end(s, from) <= s.len(),
        from > s.len() ==> item_end(s, from) == s.len(),
    decreases s.len() - from,
{
    if from < s.len() && s[from as int] != ',' {
        lemma_item_end_bounds(s, from + 1);
    }
}

/// Reads tags from a list written with commas.
pub fn parse_tags(text: &str) -> (r: Vec<String>)
    ensures
        texts(r@) == items_from(text@, 0),
{
    let chars = to_chars(text);
    let mut tags: Vec<String> = Vec::new();
    let mut from: usize = 0;
    loop
        invariant
            from <= chars.len(),
            chars@ == text@,
            items_from(text@, 0) == texts(tags@) + items_from(text@, from as nat),
        decreases chars.len() - from,
    {
        let mut end: usize = from;
        while end < chars.len() && chars[end] != ','
            invariant
                from <= end <= chars.len(),
                item_end(chars@, from as nat) == item_end(chars@, end as nat),
            decreases chars.len() - end,
        {
            end = end + 1;
        }
        let ghost before = texts(tags@);
        let item = trim_text(text.substring_char(from, end));
        tags.push(item);
        assert(texts(tags@) =~= before.push(trimmed(text@.subrange(from as int, end as int))));
        if end >= chars.len() {
            assert(items_from(text@, 0) =~= texts(tags@));
            return tags;
        }
        assert(items_from(text@, 0) =~= texts(tags@) + items_from(text@, (end + 1) as nat));
        from = end + 1;
    }
}

/// What the operator gave for a host that is to be added.
#[derive(Debug)]
pub struct AddHostArgs {
    pub name: Option<String>,
    pub address: Option<String>,
    pub user: Option<String>,
    pub port: u16,
    pub ssh_key: Option<String>,
    /// Tags, written as a list with commas.
    pub tags: Option<String>,
    pub description: Option<String>,
    /// Whether the operator must not be asked for what is missing.
    pub no_input: bool,
}

/// Why a host cannot be made of what was given.
#[derive(Debug, Clone, Copy, PartialEq, Eq, Structural)]
pub enum AddError {
    /// No name was given.
    NameRequired,
    /// No address was given.
    AddressRequired,
}

/// The tags that were given; none where no list was given.
pub open spec fn given_tags(tags: Option<String>) -> Seq<Seq<char>> {
    match tags {
        Some(list) => items_from(list@, 0),
        None => Seq::empty(),
    }
}

impl AddHostArgs {
    /// Whether the operator can be asked for what is missing: there is a
    /// terminal and asking was not ruled out.
    pub fn is_interactive(&self, is_tty: bool) -> (r: bool)
        ensures
            r == (is_tty && !self.no_input),
    {
        is_tty && !self.no_input
    }

    /// The host made of what was given. Name and address must have been
    /// given; the user is `default_user` where none was given.
    pub fn into_host(self, default_user: &str) -> (r: Result<Host, AddError>)
        ensures
            match r {
                Ok(host) => {
                    &&& self.name matches Some(name) && host.name == name
                    &&& self.address matches Some(address) && host.address == address
                    &&& host.user@ == (match self.user {
                        Some(user) => user@,
                        None => default_user@,
                    })
                    &&& host.port == self.port
                    &&& host.ssh_key == self.ssh_key
                    &&& texts(host.tags@) == given_tags(self.tags)
                    &&& host.description == self.description
                    &&& host.python_interpreter is None
                    &&& host.become_method@ == "sudo"@
                },
                Err(AddError::NameRequired) => self.name is None,
                Err(AddError::AddressRequired) => self.name is Some && self.address is None,
            },
    {
        let AddHostArgs { name, address, user, port, ssh_key, tags, description, no_input: _ } = self;
        let name = match name {
            Some(name) => name,
            None => {
                return Err(AddError::NameRequired);
            },
        };
        let address = match address {
            Some(address) => address,
            None => {
                return Err(AddError::AddressRequired);
            },
        };
        let user = match user {
            Some(user) => user,
            None => String::from_str(default_user),
        };
        let tags = match &tags {
            Some(list) => parse_tags(list.as_str()),
            None => {
                let none: Vec<String> = Vec::new();
                assert(texts(none@) =~= Seq::<Seq<char>>::empty());
                none
            },
        };
        Ok(
            Host {
                name,
                address,
                user,
                port,
                ssh_key,
                tags,
                description,
                python_interpreter: None,
                become_method: default_become_method(),
            },
        )
    }

    /// The host made of an entry of the configuration of the SSH client,
    /// with tags and description as they were given. The entry must have
    /// an address. Its user is `default_user` where it names none, and its
    /// port the default one. Its key is taken where the file exists, else
    /// the key that was given.
    pub fn import(self, entry: SshConfigHost, default_user: &str, key_exists: bool) -> (r: Option<
        Host,
    >)
        ensures
            match r {
                Some(host) => {
                    &&& host.name == entry.name
                    &&& entry.hostname matches Some(address) && host.address == address
                    &&& host.user@ == (match entry.user {
                        Some(user) => user@,
                        None => default_user@,
                    })
                    &&& host.port == (match entry.port {
                        Some(port) => port,
                        None => 22u16,
                    })
                    &&& host.ssh_key == (if entry.identity_file is Some && key_exists {
                        entry.identity_file
                    } else {
                        self.ssh_key
                    })
                    &&& texts(host.tags@) == given_tags(self.tags)
                    &&& host.description == self.description
                    &&& host.python_interpreter is None
                    &&& host.become_method@ == "sudo"@
                },
                None => entry.hostname is None,
            },
    {
        let AddHostArgs {
            name: _,
            address: _,
            user: _,
            port: _,
            ssh_key,
            tags,
            description,
            no_input: _,
        } = self;
        let SshConfigHost { name, hostname, user, port, identity_file } = entry;
        let address = match hostname {
            Some(address) => address,
            None => {
                return None;
            },
        };
        let user = match user {
            Some(user) => user,
            None => String::from_str(default_user),
        };
        let port = match port {
            Some(port) => port,
            None => default_port(),
        };
        let ssh_key = if identity_file.is_some() && key_exists {
            identity_file
        } else {
            ssh_key
        };
        let tags = match &tags {
            Some(list) => parse_tags(list.as_str()),
            None => {
                let none: Vec<String> = Vec::new();
                assert(texts(none@) =~= Seq::<Seq<char>>::empty());
                none
            },
        };
        Some(
            Host {
                name,
                address,
                user,
                port,
                ssh_key,
                tags,
                description,
                python_interpreter: None,
                become_method: default_become_method(),
            },
        )
    }
}

/// Those of the first `upto` entries whose name no host goes by yet.
pub open spec fn not_yet_hosts(
    entries: Seq<SshConfigHost>,
    hosts: Seq<Host>,
    upto: nat,
) -> Seq<SshConfigHost>
    decreases upto,
{
    if upto == 0 || upto > entries.len() {
        Seq::empty()
    } else {
        let earlier = not_yet_hosts(entries, hosts, (upto - 1) as nat);
        if first_named(hosts, entries[upto - 1].name@, 0) is Some {
            earlier
        } else {
            earlier.push(entries[upto - 1])
        }
    }
}

/// The entries of the configuration of the SSH client that can still be
/// added: those whose name no host goes by yet, in their order.
pub fn importable(entries: Vec<SshConfigHost>, hosts: &Vec<Host>) -> (r: Vec<SshConfigHost>)
    ensures
        r@ == not_yet_hosts(entries@, hosts@, entries@.len()),
{
    let mut entries = entries;
    let ghost before = entries@;
    let ghost mut done: nat = 0;
    let mut i: usize = 0;
    while i < entries.len()
        invariant
            done <= before.len(),
            i <= entries.len(),
            i == not_yet_hosts(before, hosts@, done).len(),
            entries@ == not_yet_hosts(before, hosts@, done) + before.subrange(
                done as int,
                before.len() as int,
            ),
        decreases before.len() - done,
    {
        assert(entries@[i as int] == before[done as int]);
        let known = find_named(hosts, entries[i].name.as_str()).is_some();
        if known {
            let _ = entries.remove(i);
            proof {
                assert(entries@ =~= not_yet_hosts(before, hosts@, done + 1) + before.subrange(
                    (done + 1) as int,
                    before.len() as int,
                ));
                done = done + 1;
            }
        } else {
            proof {
                assert(entries@ =~= not_yet_hosts(before, hosts@, done + 1) + before.subrange(
                    (done + 1) as int,
                    before.len() as int,
                ));
                done = done + 1;
            }
            i = i + 1;
        }
    }
    assert(entries@ =~= not_yet_hosts(before, hosts@, before.len()));
    entries
}

/// The position of the first host from `from` on that goes by `name`.
pub open spec fn first_named(hosts: Seq<Host>, name: Seq<char>, from: nat) -> Option<int>
    decreases hosts.len() - from,
{
    if from >= hosts.len() {
        None
    } else if hosts[from as int].name@ == name {
        Some(from as int)
    } else {
        first_named(hosts, name, from + 1)
    }
}

/// The first `upto` hosts without those that go by `name`.
pub open spec fn without_named(hosts: Seq<Host>, name: Seq<char>, upto: nat) -> Seq<Host>
    decreases upto,
{
    if upto == 0 || upto > hosts.len() {
        Seq::empty()
    } else {
        let earlier = without_named(hosts, name, (upto - 1) as nat);
        if hosts[upto - 1].name@ == name {
            earlier
        } else {
            earlier.push(hosts[upto - 1])
        }
    }
}

/// Whether a host carries at least one of `tags`.
pub open spec fn carries_any(host: Host, tags: Seq<Seq<char>>) -> bool {
    exists|i: int, j: int|
        0 <= i < tags.len() && 0 <= j < host.tags@.len() && #[trigger] tags[i]
            == (#[trigger] host.tags@[j])@
}

/// Those of the first `upto` hosts that carry at least one of `tags`.
pub open spec fn tagged(hosts: Seq<Host>, tags: Seq<Seq<char>>, upto: nat) -> Seq<Host>
    decreases upto,
{
    if upto == 0 || upto > hosts.len() {
        Seq::empty()
    } else {
        let earlier = tagged(hosts, tags, (upto - 1) as nat);
        if carries_any(hosts[upto - 1], tags) {
            earlier.push(hosts[upto - 1])
        } else {
            earlier
        }
    }
}

fn find_named(hosts: &Vec<Host>, name: &str) -> (r: Option<usize>)
    ensures
        match r {
            Some(k) => first_named(hosts@, name@, 0) == Some(k as int) && k < hosts.len()
                && hosts@[k as int].name@ == name@,
            None => first_named(hosts@, name@, 0) is None,
        },
{
    let mut i: usize = 0;
    while i < hosts.len()
        invariant
            i <= hosts.len(),
            first_named(hosts@, name@, 0) == first_named(hosts@, name@, i as nat),
        decreases hosts.len() - i,
    {
        if text_eq(hosts[i].name.as_str(), name) {
            return Some(i);
        }
        i = i + 1;
    }
    None
}

fn has_text(list: &Vec<String>, wanted: &str) -> (r: bool)
    ensures
        r == exists|j: int| 0 <= j < list@.len() && (#[trigger] list@[j])@ == wanted@,
{
    let mut j: usize = 0;
    while j < list.len()
        invariant
            j <= list.len(),
            forall|k: int| 0 <= k < j ==> (#[trigger] list@[k])@ != wanted@,
        decreases list.len() - j,
    {
        if text_eq(list[j].as_str(), wanted) {
            return true;
        }
        j = j + 1;
    }
    false
}

fn has_any_tag(host: &Host, tags: &Vec<String>) -> (r: bool)
    ensures
        r == carries_any(*host, texts(tags@)),
{
    let mut i: usize = 0;
    while i < tags.len()
        invariant
            i <= tags.len(),
            forall|a: int, b: int|
                0 <= a < i && 0 <= b < host.tags@.len() ==> #[trigger] texts(tags@)[a]
                    != (#[trigger] host.tags@[b])@,
        decreases tags.len() - i,
    {
        if has_text(&host.tags, tags[i].as_str()) {
            let ghost j = choose|j: int| 0 <= j < host.tags@.len() && (#[trigger] host.tags@[j])@ == tags@[i as int]@;
            assert(texts(tags@)[i as int] == host.tags@[j]@);
            return true;
        }
        assert(forall|b: int| 0 <= b < host.tags@.len() ==> texts(tags@)[i as int] != (#[trigger] host.tags@[b])@);
        i = i + 1;
    }
    false
}

/// The list of managed hosts. It is kept in a file, which is read and
/// written elsewhere; here are the rules for changing it.
pub struct HostManager;

impl HostManager {
    /// Where the list is kept, given the directory of the configuration.
    pub fn config_path(config_dir: &str) -> (r: String)
        ensures
            r@ == joined(config_dir@, "hosts.toml"@),
    {
        join_path(config_dir, "hosts.toml")
    }

    /// Adds a host at the end, unless one of the same name is there.
    pub fn add_host(hosts: &mut Vec<Host>, host: Host) -> (r: Result<(), HostError>)
        ensures
            match r {
                Ok(_) => first_named(old(hosts)@, host.name@, 0) is None && final(hosts)@ == old(
                    hosts,
                )@.push(host),
                Err(e) => e == HostError::AlreadyExists && first_named(old(hosts)@, host.name@, 0)
                    is Some && final(hosts)@ == old(hosts)@,
            },
    {
        match find_named(hosts, host.name.as_str()) {
            Some(_) => Err(HostError::AlreadyExists),
            None => {
                hosts.push(host);
                Ok(())
            },
        }
    }

    /// Removes every host that goes by `name`; fails if there is none.
    pub fn remove_host(hosts: &mut Vec<Host>, name: &str) -> (r: Result<(), HostError>)
        ensures
            final(hosts)@ == without_named(old(hosts)@, name@, old(hosts)@.len()),
            match r {
                Ok(_) => first_named(old(hosts)@, name@, 0) is Some,
                Err(e) => e == HostError::NotFound && first_named(old(hosts)@, name@, 0) is None
                    && final(hosts)@ == old(hosts)@,
            },
    {
        let found = find_named(hosts, name);
        let ghost before = hosts@;
        let ghost mut done: nat = 0;
        let mut i: usize = 0;
        while i < hosts.len()
            invariant
                done <= before.len(),
                i <= hosts.len(),
                i == without_named(before, name@, done).len(),
                hosts@ == without_named(before, name@, done) + before.subrange(
                    done as int,
                    before.len() as int,
                ),
                found is None ==> first_named(before, name@, done) is None,
                found is None ==> without_named(before, name@, done) == before.take(done as int),
            decreases before.len() - done,
        {
            assert(hosts@[i as int] == before[done as int]);
            if text_eq(hosts[i].name.as_str(), name) {
                let _ = hosts.remove(i);
                proof {
                    assert(hosts@ =~= without_named(before, name@, done + 1) + before.subrange(
                        (done + 1) as int,
                        before.len() as int,
                    ));
                    done = done + 1;
                }
            } else {
                proof {
                    assert(hosts@ =~= without_named(before, name@, done + 1) + before.subrange(
                        (done + 1) as int,
                        before.len() as int,
                    ));
                    assert(before.take(done as int).push(before[done as int]) =~= before.take(
                        (done + 1) as int,
                    ));
                    done = done + 1;
                }
                i = i + 1;
            }
        }
        assert(hosts@ =~= without_named(before, name@, before.len()));
        match found {
            Some(_) => Ok(()),
            None => {
                assert(before.take(before.len() as int) =~= before);
                Err(HostError::NotFound)
            },
        }
    }

    /// The first host that goes by `name`.
    pub fn get_host<'a>(hosts: &'a Vec<Host>, name: &str) -> (r: Result<&'a Host, HostError>)
        ensures
            match r {
                Ok(host) => first_named(hosts@, name@, 0) matches Some(k) && *host == hosts@[k],
                Err(e) => e == HostError::NotFound && first_named(hosts@, name@, 0) is None,
            },
    {
        match find_named(hosts, name) {
            Some(k) => Ok(&hosts[k]),
            None => Err(HostError::NotFound),
        }
    }

    /// Puts `updated` in the place of the first host that goes by `name`.
    pub fn update_host(hosts: &mut Vec<Host>, name: &str, updated: Host) -> (r: Result<
        (),
        HostError,
    >)
        ensures
            match r {
                Ok(_) => first_named(old(hosts)@, name@, 0) matches Some(k) && final(hosts)@ == old(
                    hosts,
                )@.update(k, updated),
                Err(e) => e == HostError::NotFound && first_named(old(hosts)@, name@, 0) is None
                    && final(hosts)@ == old(hosts)@,
            },
    {
        match find_named(hosts, name) {
            Some(k) => {
                hosts.set(k, updated);
                Ok(())
            },
            None => Err(HostError::NotFound),
        }
    }

    /// The hosts that carry at least one of the given tags, in their order;
    /// all of them where no tags are given.
    pub fn list_hosts_filtered(hosts: Vec<Host>, tags: Option<&Vec<String>>) -> (r: Vec<Host>)
        ensures
            r@ == match tags {
                Some(wanted) => tagged(hosts@, texts(wanted@), hosts@.len()),
                None => hosts@,
            },
    {
        match tags {
            None => hosts,
            Some(wanted) => {
                let mut hosts = hosts;
                let ghost before = hosts@;
                let ghost mut done: nat = 0;
                let mut i: usize = 0;
                while i < hosts.len()
                    invariant
                        done <= before.len(),
                        i <= hosts.len(),
                        i == tagged(before, texts(wanted@), done).len(),
                        hosts@ == tagged(before, texts(wanted@), done) + before.subrange(
                            done as int,
                            before.len() as int,
                        ),
                    decreases before.len() - done,
                {
                    assert(hosts@[i as int] == before[done as int]);
                    if has_any_tag(&hosts[i], wanted) {
                        proof {
                            assert(hosts@ =~= tagged(before, texts(wanted@), done + 1)
                                + before.subrange((done + 1) as int, before.len() as int));
                            done = done + 1;
                        }
                        i = i + 1;
                    } else {
                        let _ = hosts.remove(i);
                        proof {
                            assert(hosts@ =~= tagged(before, texts(wanted@), done + 1)
                                + before.subrange((done + 1) as int, before.len() as int));
                            done = done + 1;
                        }
                    }
                }
                assert(hosts@ =~= tagged(before, texts(wanted@), before.len()));
                hosts
            },
        }
    }
}

} // verus!
