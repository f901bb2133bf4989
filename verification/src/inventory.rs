//! The inventory: groups of hosts, where a group may name other groups as
//! its children. The hosts of a group are those of its children, and of
//! theirs, and its own; a host that is met more than once is listed where
//! it is met first.

use crate::text::{text_eq, texts};
use vstd::prelude::*;

verus! {

/// How a host of the inventory is reached.
#[derive(Debug)]
pub struct HostVars {
    pub ansible_host: String,
    pub ansible_port: u16,
    pub bootstrap_user: String,
}

/// The port at which a host is reached where it names none.
pub fn default_port() -> (r: u16)
    ensures
        r == 22,
{
    22
}

/// The user that a host is set up as where it names none.
pub fn default_bootstrap_user() -> (r: String)
    ensures
        r@ == "root"@,
{
    String::from_str("root")
}

/// A host of the inventory, as plain values.
pub struct HostText {
    pub name: Seq<char>,
    pub address: Seq<char>,
    pub port: u16,
    pub bootstrap_user: Seq<char>,
    pub groups: Seq<Seq<char>>,
}

/// A host of the inventory and the groups it was reached through, from
/// the outermost to its own.
#[derive(Debug)]
pub struct Host {
    pub name: String,
    pub vars: HostVars,
    pub groups: Vec<String>,
}

impl View for Host {
    type V = HostText;

    open spec fn view(&self) -> HostText {
        HostText {
            name: self.name@,
            address: self.vars.ansible_host@,
            port: self.vars.ansible_port,
            bootstrap_user: self.vars.bootstrap_user@,
            groups: texts(self.groups@),
        }
    }
}

/// The texts of a list of hosts, in the same order.
pub open spec fn host_texts(hosts: Seq<Host>) -> Seq<HostText> {
    Seq::new(hosts.len(), |i: int| hosts[i]@)
}

/// A host as a group lists it.
#[derive(Debug)]
pub struct Member {
    pub name: String,
    pub vars: HostVars,
}

/// A group: its own hosts and the names of its children.
#[derive(Debug)]
pub struct InventoryGroup {
    pub name: String,
    pub hosts: Vec<Member>,
    pub children: Vec<String>,
}

/// The groups of an inventory.
#[derive(Debug)]
pub struct Inventory {
    pub groups: Vec<InventoryGroup>,
}

/// The position of the first group from `from` on that goes by `name`.
pub open spec fn first_group(groups: Seq<InventoryGroup>, name: Seq<char>, from: nat) -> Option<int>
    decreases groups.len() - from,
{
    if from >= groups.len() {
        None
    } else if groups[from as int].name@ == name {
        Some(from as int)
    } else {
        first_group(groups, name, from + 1)
    }
}

/// Whether one of the hosts goes by `name`.
pub open spec fn lists(hosts: Seq<HostText>, name: Seq<char>) -> bool {
    exists|i: int| 0 <= i < hosts.len() && (#[trigger] hosts[i]).name == name
}

/// A member of a group as a host that was reached through `path`.
pub open spec fn member_text(member: Member, path: Seq<Seq<char>>) -> HostText {
    HostText {
        name: member.name@,
        address: member.vars.ansible_host@,
        port: member.vars.ansible_port,
        bootstrap_user: member.vars.bootstrap_user@,
        groups: path,
    }
}

/// The hosts found so far and those of the first `upto` members that are
/// not among them yet.
pub open spec fn with_members(
    members: Seq<Member>,
    upto: nat,
    path: Seq<Seq<char>>,
    found: Seq<HostText>,
) -> Seq<HostText>
    decreases upto,
{
    if upto == 0 || upto > members.len() {
        found
    } else {
        let earlier = with_members(members, (upto - 1) as nat, path, found);
        if lists(earlier, members[upto - 1].name@) {
            earlier
        } else {
            earlier.push(member_text(members[upto - 1], path))
        }
    }
}

/// The hosts found so far and those of the group `name`: first those of
/// its children, then its own. `path` holds the groups above it. No more
/// than `depth` groups are entered one inside the other, which ends the
/// search where groups name each other in a circle.
pub open spec fn with_group(
    groups: Seq<InventoryGroup>,
    name: Seq<char>,
    path: Seq<Seq<char>>,
    depth: nat,
    found: Seq<HostText>,
) -> Seq<HostText>
    decreases depth, 0nat,
{
    if depth == 0 {
        found
    } else {
        match first_group(groups, name, 0) {
            None => found,
            Some(g) => {
                let here = path.push(name);
                let below = with_children(
                    groups,
                    groups[g].children@,
                    groups[g].children@.len(),
                    here,
                    (depth - 1) as nat,
                    found,
                );
                with_members(groups[g].hosts@, groups[g].hosts@.len(), here, below)
            },
        }
    }
}

/// The hosts found so far and those of the first `upto` of the children.
pub open spec fn with_children(
    groups: Seq<InventoryGroup>,
    children: Seq<String>,
    upto: nat,
    path: Seq<Seq<char>>,
    depth: nat,
    found: Seq<HostText>,
) -> Seq<HostText>
    decreases depth, upto + 1,
{
    if upto == 0 || upto > children.len() {
        found
    } else {
        let earlier = with_children(groups, children, (upto - 1) as nat, path, depth, found);
        with_group(groups, children[upto - 1]@, path, depth, earlier)
    }
}

/// The hosts found so far and those of the first `upto` groups of the
/// inventory.
pub open spec fn with_all(groups: Seq<InventoryGroup>, upto: nat, found: Seq<HostText>) -> Seq<
    HostText,
>
    decreases upto,
{
    if upto == 0 || upto > groups.len() {
        found
    } else {
        with_group(
            groups,
            groups[upto - 1].name@,
            Seq::empty(),
            groups.len(),
            with_all(groups, (upto - 1) as nat, found),
        )
    }
}

/// The hosts of a group, or of the whole inventory where no group is
/// named.
pub open spec fn hosts_of(groups: Seq<InventoryGroup>, group: Option<Seq<char>>) -> Seq<HostText> {
    match group {
        Some(name) => with_group(groups, name, Seq::empty(), groups.len(), Seq::empty()),
        None => with_all(groups, groups.len(), Seq::empty()),
    }
}

fn copy_texts(list: &Vec<String>) -> (r: Vec<String>)
    ensures
        texts(r@) == texts(list@),
{
    let mut r: Vec<String> = Vec::new();
    let mut i: usize = 0;
    while i < list.len()
        invariant
            i <= list.len(),
            texts(r@) == texts(list@).take(i as int),
        decreases list.len() - i,
    {
        let ghost before = texts(r@);
        r.push(list[i].clone());
        assert(texts(r@) =~= before.push(list@[i as int]@));
        assert(texts(r@) =~= texts(list@).take(i + 1));
        i = i + 1;
    }
    assert(texts(r@) =~= texts(list@));
    r
}

fn listed(hosts: &Vec<Host>, name: &str) -> (r: bool)
    ensures
        r == lists(host_texts(hosts@), name@),
{
    let mut i: usize = 0;
    while i < hosts.len()
        invariant
            i <= hosts.len(),
            forall|k: int| 0 <= k < i ==> (#[trigger] host_texts(hosts@)[k]).name != name@,
        decreases hosts.len() - i,
    {
        assert(host_texts(hosts@)[i as int] == hosts@[i as int]@);
        if text_eq(hosts[i].name.as_str(), name) {
            return true;
        }
        i = i + 1;
    }
    false
}

fn find_group(groups: &Vec<InventoryGroup>, name: &str) -> (r: Option<usize>)
    ensures
        match r {
            Some(g) => first_group(groups@, name@, 0) == Some(g as int) && g < groups.len(),
            None => first_group(groups@, name@, 0) is None,
        },
{
    let mut i: usize = 0;
    while i < groups.len()
        invariant
            i <= groups.len(),
            first_group(groups@, name@, 0) == first_group(groups@, name@, i as nat),
        decreases groups.len() - i,
    {
        if text_eq(groups[i].name.as_str(), name) {
            return Some(i);
        }
        i = i + 1;
    }
    None
}

fn add_members(members: &Vec<Member>, path: &Vec<String>, found: &mut Vec<Host>)
    ensures
        host_texts(final(found)@) == with_members(
            members@,
            members@.len(),
            texts(path@),
            host_texts(old(found)@),
        ),
{
    let ghost start = host_texts(found@);
    let mut i: usize = 0;
    while i < members.len()
        invariant
            i <= members.len(),
            host_texts(found@) == with_members(members@, i as nat, texts(path@), start),
        decreases members.len() - i,
    {
        let ghost before = host_texts(found@);
        let member = &members[i];
        if !listed(found, member.name.as_str()) {
            let host = Host {
                name: member.name.clone(),
                vars: HostVars {
                    ansible_host: member.vars.ansible_host.clone(),
                    ansible_port: member.vars.ansible_port,
                    bootstrap_user: member.vars.bootstrap_user.clone(),
                },
                groups: copy_texts(path),
            };
            assert(host@ == member_text(*member, texts(path@)));
            let ghost text = host@;
            found.push(host);
            assert(host_texts(found@) =~= before.push(text));
        }
        i = i + 1;
    }
}

fn add_group(
    groups: &Vec<InventoryGroup>,
    name: &str,
    path: &Vec<String>,
    depth: usize,
    found: &mut Vec<Host>,
)
    ensures
        host_texts(final(found)@) == with_group(
            groups@,
            name@,
            texts(path@),
            depth as nat,
            host_texts(old(found)@),
        ),
    decreases depth, 0nat,
{
    if depth == 0 {
        return ;
    }
    match find_group(groups, name) {
        None => {},
        Some(g) => {
            let mut here = copy_texts(path);
            here.push(String::from_str(name));
            assert(texts(here@) =~= texts(path@).push(name@));
            add_children(groups, &groups[g].children, &here, depth - 1, found);
            add_members(&groups[g].hosts, &here, found);
        },
    }
}

fn add_children(
    groups: &Vec<InventoryGroup>,
    children: &Vec<String>,
    path: &Vec<String>,
    depth: usize,
    found: &mut Vec<Host>,
)
    ensures
        host_texts(final(found)@) == with_children(
            groups@,
            children@,
            children@.len(),
            texts(path@),
            depth as nat,
            host_texts(old(found)@),
        ),
    decreases depth, 1nat,
{
    let ghost start = host_texts(found@);
    let mut i: usize = 0;
    while i < children.len()
        invariant
            i <= children.len(),
            host_texts(found@) == with_children(
                groups@,
                children@,
                i as nat,
                texts(path@),
                depth as nat,
                start,
            ),
        decreases children.len() - i,
    {
        add_group(groups, children[i].as_str(), path, depth, found);
        i = i + 1;
    }
}

impl Inventory {
    /// The hosts of a group, or of the whole inventory where no group is
    /// named.
    pub fn get_hosts(&self, group: Option<&str>) -> (r: Vec<Host>)
        ensures
            host_texts(r@) == hosts_of(
                self.groups@,
                match group {
                    Some(g) => Some(g@),
                    None => None,
                },
            ),
    {
        let mut found: Vec<Host> = Vec::new();
        assert(host_texts(found@) =~= Seq::empty());
        let none: Vec<String> = Vec::new();
        assert(texts(none@) =~= Seq::empty());
        match group {
            Some(g) => {
                add_group(&self.groups, g, &none, self.groups.len(), &mut found);
            },
            None => {
                let mut i: usize = 0;
                while i < self.groups.len()
                    invariant
                        i <= self.groups.len(),
                        texts(none@) == Seq::<Seq<char>>::empty(),
                        host_texts(found@) == with_all(self.groups@, i as nat, Seq::empty()),
                    decreases self.groups.len() - i,
                {
                    add_group(
                        &self.groups,
                        self.groups[i].name.as_str(),
                        &none,
                        self.groups.len(),
                        &mut found,
                    );
                    i = i + 1;
                }
            },
        }
        found
    }

    /// The host of the inventory that goes by `name`.
    pub fn get_host(&self, name: &str) -> (r: Option<Host>)
        ensures
            match r {
                Some(host) => exists|i: int|
                    0 <= i < hosts_of(self.groups@, None).len() && host@ == #[trigger] hosts_of(
                        self.groups@,
                        None,
                    )[i] && host@.name == name@ && forall|j: int|
                        0 <= j < i ==> (#[trigger] hosts_of(self.groups@, None)[j]).name != name@,
                None => !lists(hosts_of(self.groups@, None), name@),
            },
    {
        let mut hosts = self.get_hosts(None);
        let ghost all = host_texts(hosts@);
        let mut i: usize = 0;
        while i < hosts.len()
            invariant
                i <= hosts.len(),
                all == host_texts(hosts@),
                all == hosts_of(self.groups@, None),
                forall|j: int| 0 <= j < i ==> (#[trigger] all[j]).name != name@,
            decreases hosts.len() - i,
        {
            assert(all[i as int] == hosts@[i as int]@);
            if text_eq(hosts[i].name.as_str(), name) {
                let host = hosts.remove(i);
                return Some(host);
            }
            i = i + 1;
        }
        None
    }
}

/// Those of the first `upto` hosts that were reached through `group`.
pub open spec fn in_group(hosts: Seq<HostText>, group: Seq<char>, upto: nat) -> Seq<HostText>
    decreases upto,
{
    if upto == 0 || upto > hosts.len() {
        Seq::empty()
    } else {
        let earlier = in_group(hosts, group, (upto - 1) as nat);
        if hosts[upto - 1].groups.contains(group) {
            earlier.push(hosts[upto - 1])
        } else {
            earlier
        }
    }
}

fn reached_through(host: &Host, group: &str) -> (r: bool)
    ensures
        r == host@.groups.contains(group@),
{
    let mut i: usize = 0;
    while i < host.groups.len()
        invariant
            i <= host.groups.len(),
            forall|k: int| 0 <= k < i ==> texts(host.groups@)[k] != group@,
        decreases host.groups.len() - i,
    {
        assert(texts(host.groups@)[i as int] == host.groups@[i as int]@);
        if text_eq(host.groups[i].as_str(), group) {
            return true;
        }
        i = i + 1;
    }
    false
}

/// The hosts that were reached through `group`, in their order; all of
/// them where no group is named.
pub fn filter_by_group(hosts: Vec<Host>, group: Option<&str>) -> (r: Vec<Host>)
    ensures
        host_texts(r@) == match group {
            Some(g) => in_group(host_texts(hosts@), g@, hosts@.len()),
            None => host_texts(hosts@),
        },
{
    match group {
        None => hosts,
        Some(g) => {
            let mut hosts = hosts;
            let ghost before = host_texts(hosts@);
            let ghost mut done: nat = 0;
            let mut i: usize = 0;
            assert(host_texts(hosts@) =~= in_group(before, g@, 0) + before.subrange(
                0,
                before.len() as int,
            ));
            while i < hosts.len()
                invariant
                    done <= before.len(),
                    i <= hosts.len(),
                    i == in_group(before, g@, done).len(),
                    host_texts(hosts@) == in_group(before, g@, done) + before.subrange(
                        done as int,
                        before.len() as int,
                    ),
                decreases before.len() - done,
            {
                assert(host_texts(hosts@)[i as int] == before[done as int]);
                assert(host_texts(hosts@)[i as int] == hosts@[i as int]@);
                if reached_through(&hosts[i], g) {
                    proof {
                        assert(host_texts(hosts@) =~= in_group(before, g@, done + 1)
                            + before.subrange((done + 1) as int, before.len() as int));
                        done = done + 1;
                    }
                    i = i + 1;
                } else {
                    let ghost listed = host_texts(hosts@);
                    let _ = hosts.remove(i);
                    proof {
                        assert(host_texts(hosts@) =~= listed.remove(i as int));
                        assert(host_texts(hosts@) =~= in_group(before, g@, done + 1)
                            + before.subrange((done + 1) as int, before.len() as int));
                        done = done + 1;
                    }
                }
            }
            assert(host_texts(hosts@) =~= in_group(before, g@, before.len()));
            hosts
        },
    }
}

/// A managed host as a host of the inventory: its tags are its groups.
pub fn from_managed(host: &crate::hosts::Host) -> (r: Host)
    ensures
        r@ == (HostText {
            name: host.name@,
            address: host.address@,
            port: host.port,
            bootstrap_user: host.user@,
            groups: texts(host.tags@),
        }),
{
    Host {
        name: host.name.clone(),
        vars: HostVars {
            ansible_host: host.address.clone(),
            ansible_port: host.port,
            bootstrap_user: host.user.clone(),
        },
        groups: copy_texts(&host.tags),
    }
}

} // verus!
