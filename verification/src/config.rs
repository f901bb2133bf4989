//! Settings that are read from the configuration files: the domain whose
//! records are managed, and where a configuration file is looked for.

use crate::text::{join_path, joined, texts, to_chars};
use vstd::prelude::*;

verus! {

/// The time to live of a record, in seconds, where none is configured.
pub fn default_ttl() -> (r: u32)
    ensures
        r == 300,
{
    300
}

/// The domain whose records are managed.
#[derive(Debug)]
pub struct DnsConfig {
    pub domain: String,
    pub subdomains: Vec<String>,
    pub default_ttl: u32,
}

/// The account at the registrar.
#[derive(Debug)]
pub struct NamecheapConfig {
    pub api_user: String,
}

/// The position of the first `.` from `from` on; the length of the text
/// where there is none.
pub open spec fn first_dot(s: Seq<char>, from: nat) -> nat
    decreases s.len() - from,
{
    if from >= s.len() {
        s.len()
    } else if s[from as int] == '.' {
        from
    } else {
        first_dot(s, from + 1)
    }
}

/// The first label of a domain name: what stands before its first `.`.
pub open spec fn sld_of(domain: Seq<char>) -> Seq<char> {
    domain.subrange(0, first_dot(domain, 0) as int)
}

/// The second label of a domain name: what stands between its first `.`
/// and its second. A name without any `.` is its own second label.
pub open spec fn tld_of(domain: Seq<char>) -> Seq<char> {
    let dot = first_dot(domain, 0);
    if dot >= domain.len() {
        domain
    } else {
        domain.subrange((dot + 1) as int, first_dot(domain, dot + 1) as int)
    }
}

fn find_dot(chars: &Vec<char>, from: usize) -> (r: usize)
    requires
        from <= chars.len(),
    ensures
        r == first_dot(chars@, from as nat),
        from <= r <= chars.len(),
{
    let mut i: usize = from;
    while i < chars.len() && chars[i] != '.'
        invariant
            from <= i <= chars.len(),
            first_dot(chars@, from as nat) == first_dot(chars@, i as nat),
        decreases chars.len() - i,
    {
        i = i + 1;
    }
    i
}

impl DnsConfig {
    /// The first label of the domain.
    pub fn sld(&self) -> (r: &str)
        ensures
            r@ == sld_of(self.domain@),
    {
        let chars = to_chars(self.domain.as_str());
        let dot = find_dot(&chars, 0);
        self.domain.as_str().substring_char(0, dot)
    }

    /// The second label of the domain.
    pub fn tld(&self) -> (r: &str)
        ensures
            r@ == tld_of(self.domain@),
    {
        let chars = to_chars(self.domain.as_str());
        let dot = find_dot(&chars, 0);
        if dot >= chars.len() {
            self.domain.as_str()
        } else {
            let end = find_dot(&chars, dot + 1);
            self.domain.as_str().substring_char(dot + 1, end)
        }
    }
}

/// The places where a configuration file is looked for, in the order in
/// which they are tried: the working directory, the directory above it,
/// and the user's own configuration directory.
pub open spec fn candidate_texts(cwd: Seq<char>, home: Option<Seq<char>>) -> Seq<Seq<char>> {
    seq![
        joined(cwd, "config.toml"@),
        joined(cwd, "../config.toml"@),
        match home {
            Some(h) => joined(h, ".config/auberge/config.toml"@),
            None => "~/.config/auberge/config.toml"@,
        },
    ]
}

/// Lists the places where a configuration file is looked for.
pub fn config_candidates(cwd: &str, home: Option<&str>) -> (r: Vec<String>)
    ensures
        texts(r@) == candidate_texts(
            cwd@,
            match home {
                Some(h) => Some(h@),
                None => None,
            },
        ),
{
    let mut r: Vec<String> = Vec::new();
    r.push(join_path(cwd, "config.toml"));
    r.push(join_path(cwd, "../config.toml"));
    match home {
        Some(h) => {
            r.push(join_path(h, ".config/auberge/config.toml"));
        },
        None => {
            r.push(String::from_str("~/.config/auberge/config.toml"));
        },
    }
    assert(texts(r@) =~= candidate_texts(
        cwd@,
        match home {
            Some(h) => Some(h@),
            None => None,
        },
    ));
    r
}

/// The position of the first candidate that exists, given for each one
/// whether it does.
pub fn first_existing(exists: &Vec<bool>) -> (r: Option<usize>)
    ensures
        match r {
            Some(k) => k < exists@.len() && exists@[k as int] && forall|j: int|
                0 <= j < k ==> !exists@[j],
            None => forall|j: int| 0 <= j < exists@.len() ==> !exists@[j],
        },
{
    let mut i: usize = 0;
    while i < exists.len()
        invariant
            i <= exists.len(),
            forall|j: int| 0 <= j < i ==> !exists@[j],
        decreases exists.len() - i,
    {
        if exists[i] {
            return Some(i);
        }
        i = i + 1;
    }
    None
}

} // verus!
