//! Reading the hosts of an SSH client configuration.
//!
//! The file is read line by line. A line that is empty or starts with `#`
//! says nothing. Of every other line the first word is the keyword, taken
//! without regard to the case of its letters, and the second word its
//! value; whatever follows is passed over. `Host` opens a new entry, and
//! `HostName`, `User`, `Port` and `IdentityFile` fill in the entry that is
//! open. Other keywords are passed over.

use crate::environment::{home_directory, home_expanded, path_text, tilde_expanded};
use crate::text::{
    is_space, optional_text, parse_u64, skip_spaces, space, to_chars, trimmed, unsigned_value,
};
use vstd::prelude::*;

verus! {

/// One entry of the configuration, as plain values.
pub struct HostText {
    pub name: Seq<char>,
    pub hostname: Option<Seq<char>>,
    pub user: Option<Seq<char>>,
    pub port: Option<u16>,
    pub identity_file: Option<Seq<char>>,
}

/// One entry of the configuration.
#[derive(Debug, PartialEq)]
pub struct SshConfigHost {
    pub name: String,
    pub hostname: Option<String>,
    pub user: Option<String>,
    pub port: Option<u16>,
    pub identity_file: Option<String>,
}

impl View for SshConfigHost {
    type V = HostText;

    open spec fn view(&self) -> HostText {
        HostText {
            name: self.name@,
            hostname: optional_text(self.hostname),
            user: optional_text(self.user),
            port: self.port,
            identity_file: optional_text(self.identity_file),
        }
    }
}

/// The texts of a list of entries, in the same order.
pub open spec fn host_texts(hosts: Seq<SshConfigHost>) -> Seq<HostText> {
    Seq::new(hosts.len(), |i: int| hosts[i]@)
}

/// The entries read so far, and the one that is open.
pub struct Progress {
    pub done: Seq<HostText>,
    pub open: Option<HostText>,
}

/// The end of the line that starts at `from`: the position of the next
/// line feed, or the end of the text.
pub open spec fn line_end(s: Seq<char>, from: nat) -> nat
    decreases s.len() - from,
{
    if from >= s.len() {
        s.len()
    } else if s[from as int] == '\n' {
        from
    } else {
        line_end(s, from + 1)
    }
}

/// The end of the word that starts at `from`: the position of the next
/// white space, or the end of the text.
pub open spec fn word_end(s: Seq<char>, from: nat) -> nat
    decreases s.len() - from,
{
    if from >= s.len() {
        s.len()
    } else if is_space(s[from as int]) {
        from
    } else {
        word_end(s, from + 1)
    }
}

/// Whether a character is the letter `k`, small or capital; `k` is the
/// small one.
pub open spec fn is_letter(c: char, k: char) -> bool {
    c == k || ('A' <= c && c <= 'Z' && c as int + 32 == k as int)
}

/// Whether a word is the keyword, without regard to the case of its
/// letters.
pub open spec fn is_keyword(word: Seq<char>, keyword: Seq<char>) -> bool {
    word.len() == keyword.len() && forall|i: int|
        0 <= i < word.len() ==> is_letter(#[trigger] word[i], keyword[i])
}

/// The number of a port: a number up to 65535.
pub open spec fn port_of(value: Seq<char>) -> Option<u16> {
    match unsigned_value(value) {
        Some(v) => if v <= 65535 {
            Some(v as u16)
        } else {
            None
        },
        None => None,
    }
}

/// A new entry with nothing but its name.
pub open spec fn named(name: Seq<char>) -> HostText {
    HostText { name, hostname: None, user: None, port: None, identity_file: None }
}

/// What has been read once the entry that is open is closed.
pub open spec fn closed(p: Progress) -> Seq<HostText> {
    match p.open {
        Some(host) => p.done.push(host),
        None => p.done,
    }
}

/// What has been read after a line that holds `keyword` and, if it has
/// one, `value`.
pub open spec fn after_directive(
    p: Progress,
    keyword: Seq<char>,
    value: Option<Seq<char>>,
    home: Option<Seq<char>>,
) -> Progress {
    if is_keyword(keyword, "host"@) {
        Progress {
            done: closed(p),
            open: match value {
                Some(name) => Some(named(name)),
                None => None,
            },
        }
    } else {
        match (p.open, value) {
            (Some(host), Some(v)) => if is_keyword(keyword, "hostname"@) {
                Progress { open: Some(HostText { hostname: Some(v), ..host }), ..p }
            } else if is_keyword(keyword, "user"@) {
                Progress { open: Some(HostText { user: Some(v), ..host }), ..p }
            } else if is_keyword(keyword, "port"@) {
                match port_of(v) {
                    Some(port) => Progress { open: Some(HostText { port: Some(port), ..host }), ..p },
                    None => p,
                }
            } else if is_keyword(keyword, "identityfile"@) {
                Progress {
                    open: Some(HostText { identity_file: Some(tilde_expanded(v, home)), ..host }),
                    ..p
                }
            } else {
                p
            },
            _ => p,
        }
    }
}

/// What has been read after one more line.
pub open spec fn after_line(p: Progress, line: Seq<char>, home: Option<Seq<char>>) -> Progress {
    let t = trimmed(line);
    if t.len() == 0 || t[0] == '#' {
        p
    } else {
        let key_end = word_end(t, 0);
        let value_start = skip_spaces(t, key_end);
        after_directive(
            p,
            t.subrange(0, key_end as int),
            if value_start < t.len() {
                Some(t.subrange(value_start as int, word_end(t, value_start) as int))
            } else {
                None
            },
            home,
        )
    }
}

/// What has been read after the lines from position `from` on.
pub open spec fn after_lines(s: Seq<char>, from: nat, p: Progress, home: Option<Seq<char>>) -> Progress
    decreases s.len() - from,
    via after_lines_ends
{
    if from >= s.len() {
        p
    } else {
        let end = line_end(s, from);
        let next = after_line(p, s.subrange(from as int, end as int), home);
        if end >= s.len() {
            next
        } else {
            after_lines(s, end + 1, next, home)
        }
    }
}

/// The entries of a configuration, in the order of the file. `home` is the
/// home directory that `~` stands for in the path of an identity file.
pub open spec fn entries_of(content: Seq<char>, home: Option<Seq<char>>) -> Seq<HostText> {
    closed(after_lines(content, 0, Progress { done: Seq::empty(), open: None }, home))
}

/// Whether an entry names a machine that can be managed: it has an
/// address, and its name is no pattern.
pub open spec fn is_usable(host: HostText) -> bool {
    host.hostname is Some && !host.name.contains('*') && !host.name.contains('?')
        && !host.name.contains('!')
}

/// Those of the first `upto` entries that are usable.
pub open spec fn usable_among(hosts: Seq<HostText>, upto: nat) -> Seq<HostText>
    decreases upto,
{
    if upto == 0 || upto > hosts.len() {
        Seq::empty()
    } else {
        let earlier = usable_among(hosts, (upto - 1) as nat);
        if is_usable(hosts[upto - 1]) {
            earlier.push(hosts[upto - 1])
        } else {
            earlier
        }
    }
}

#[via_fn]
proof fn after_lines_ends(s: Seq<char>, from: nat, p: Progress, home: Option<Seq<char>>) {
    if from < s.len() {
        lemma_line_end_bounds(s, from);
    }
}

proof fn lemma_line_end_bounds(s: Seq<char>, from: nat)
    requires
        from <= s.len(),
    ensures
        from <= line_end(s, from) <= s.len(),
    decreases s.len() - from,
{
    if from < s.len() && s[from as int] != '\n' {
        lemma_line_end_bounds(s, from + 1);
    }
}

fn find_word_end(chars: &Vec<char>, from: usize) -> (r: usize)
    requires
        from <= chars.len(),
    ensures
        r == word_end(chars@, from as nat),
        from <= r <= chars.len(),
{
    let mut i: usize = from;
    while i < chars.len() && !space(chars[i])
        invariant
            from <= i <= chars.len(),
            word_end(chars@, from as nat) == word_end(chars@, i as nat),
        decreases chars.len() - i,
    {
        i = i + 1;
    }
    i
}

fn find_word_start(chars: &Vec<char>, from: usize) -> (r: usize)
    requires
        from <= chars.len(),
    ensures
        r == skip_spaces(chars@, from as nat),
        from <= r <= chars.len(),
{
    let mut i: usize = from;
    while i < chars.len() && space(chars[i])
        invariant
            from <= i <= chars.len(),
            skip_spaces(chars@, from as nat) == skip_spaces(chars@, i as nat),
        decreases chars.len() - i,
    {
        i = i + 1;
    }
    i
}

fn letter(c: char, k: char) -> (r: bool)
    ensures
        r == is_letter(c, k),
{
    c == k || ('A' <= c && c <= 'Z' && (c as u32) + 32 == (k as u32))
}

fn keyword(word: &str, expected: &str) -> (r: bool)
    ensures
        r == is_keyword(word@, expected@),
{
    let w = to_chars(word);
    let k = to_chars(expected);
    if w.len() != k.len() {
        return false;
    }
    let mut i: usize = 0;
    while i < w.len()
        invariant
            i <= w.len(),
            w.len() == k.len(),
            w@ == word@,
            k@ == expected@,
            forall|j: int| 0 <= j < i ==> is_letter(#[trigger] w@[j], k@[j]),
        decreases w.len() - i,
    {
        if !letter(w[i], k[i]) {
            return false;
        }
        i = i + 1;
    }
    true
}

fn port(value: &str) -> (r: Option<u16>)
    ensures
        r == port_of(value@),
{
    match parse_u64(value) {
        Some(v) => if v <= 65535 {
            Some(v as u16)
        } else {
            None
        },
        None => None,
    }
}

/// The entries read so far, and the one that is open.
struct Reader {
    done: Vec<SshConfigHost>,
    open: Option<SshConfigHost>,
}

impl View for Reader {
    type V = Progress;

    closed spec fn view(&self) -> Progress {
        Progress {
            done: host_texts(self.done@),
            open: match self.open {
                Some(host) => Some(host@),
                None => None,
            },
        }
    }
}

impl Reader {
    fn close(&mut self)
        ensures
            final(self)@.done == closed(old(self)@),
            final(self)@.open is None,
    {
        let ghost before = host_texts(self.done@);
        match self.open.take() {
            Some(host) => {
                let ghost text = host@;
                self.done.push(host);
                assert(host_texts(self.done@) =~= before.push(text));
            },
            None => {},
        }
    }

    fn directive(&mut self, key: &str, value: Option<&str>, home: Option<&str>)
        ensures
            final(self)@ == after_directive(old(self)@, key@, path_text(value), path_text(home)),
    {
        if keyword(key, "host") {
            self.close();
            match value {
                Some(name) => {
                    self.open = Some(
                        SshConfigHost {
                            name: String::from_str(name),
                            hostname: None,
                            user: None,
                            port: None,
                            identity_file: None,
                        },
                    );
                },
                None => {},
            }
            return ;
        }
        let v = match value {
            Some(v) => v,
            None => {
                return ;
            },
        };
        let is_hostname = keyword(key, "hostname");
        let is_user = keyword(key, "user");
        let is_port = keyword(key, "port");
        let is_identity = keyword(key, "identityfile");
        match self.open.take() {
            Some(host) => {
                let SshConfigHost { name, hostname, user, port: old_port, identity_file } = host;
                let updated = if is_hostname {
                    SshConfigHost {
                        name,
                        hostname: Some(String::from_str(v)),
                        user,
                        port: old_port,
                        identity_file,
                    }
                } else if is_user {
                    SshConfigHost {
                        name,
                        hostname,
                        user: Some(String::from_str(v)),
                        port: old_port,
                        identity_file,
                    }
                } else if is_port {
                    match port(v) {
                        Some(number) => SshConfigHost {
                            name,
                            hostname,
                            user,
                            port: Some(number),
                            identity_file,
                        },
                        None => SshConfigHost { name, hostname, user, port: old_port, identity_file },
                    }
                } else if is_identity {
                    SshConfigHost {
                        name,
                        hostname,
                        user,
                        port: old_port,
                        identity_file: Some(home_expanded(v, home)),
                    }
                } else {
                    SshConfigHost { name, hostname, user, port: old_port, identity_file }
                };
                self.open = Some(updated);
            },
            None => {},
        }
    }

    fn line(&mut self, line: &str, home: Option<&str>)
        ensures
            final(self)@ == after_line(old(self)@, line@, path_text(home)),
    {
        let text = crate::text::trim_text(line);
        let chars = to_chars(text.as_str());
        if chars.len() == 0 || chars[0] == '#' {
            return ;
        }
        let key_end = find_word_end(&chars, 0);
        let value_start = find_word_start(&chars, key_end);
        let key = text.as_str().substring_char(0, key_end);
        if value_start < chars.len() {
            let value_end = find_word_end(&chars, value_start);
            let value = text.as_str().substring_char(value_start, value_end);
            self.directive(key, Some(value), home);
        } else {
            self.directive(key, None, home);
        }
    }
}

/// Reads the entries of a configuration, with `home` as the home
/// directory.
pub fn parse_with_home(content: &str, home: Option<&str>) -> (r: Vec<SshConfigHost>)
    ensures
        host_texts(r@) == entries_of(content@, path_text(home)),
{
    let chars = to_chars(content);
    let mut reader = Reader { done: Vec::new(), open: None };
    assert(host_texts(reader.done@) =~= Seq::empty());
    let mut from: usize = 0;
    while from < chars.len()
        invariant
            from <= chars.len(),
            chars@ == content@,
            entries_of(content@, path_text(home)) == closed(
                after_lines(content@, from as nat, reader@, path_text(home)),
            ),
        decreases chars.len() - from,
    {
        let mut end: usize = from;
        while end < chars.len() && chars[end] != '\n'
            invariant
                from <= end <= chars.len(),
                line_end(chars@, from as nat) == line_end(chars@, end as nat),
            decreases chars.len() - end,
        {
            end = end + 1;
        }
        let line = content.substring_char(from, end);
        reader.line(line, home);
        if end >= chars.len() {
            reader.close();
            return reader.done;
        }
        from = end + 1;
    }
    reader.close();
    reader.done
}

/// Reads the entries of a configuration. The `~` in the path of an
/// identity file stands for the home directory of the user.
pub fn parse_content(content: &str) -> (r: Vec<SshConfigHost>)
    ensures
        exists|home: Option<Seq<char>>| host_texts(r@) == entries_of(content@, home),
{
    let home = home_directory();
    match &home {
        Some(h) => {
            let r = parse_with_home(content, Some(h.as_str()));
            assert(host_texts(r@) == entries_of(content@, Some(h@)));
            r
        },
        None => {
            let r = parse_with_home(content, None);
            assert(host_texts(r@) == entries_of(content@, None));
            r
        },
    }
}

fn has_char(s: &str, c: char) -> (r: bool)
    ensures
        r == s@.contains(c),
{
    let chars = to_chars(s);
    let mut i: usize = 0;
    while i < chars.len()
        invariant
            i <= chars.len(),
            chars@ == s@,
            forall|j: int| 0 <= j < i ==> chars@[j] != c,
        decreases chars.len() - i,
    {
        if chars[i] == c {
            return true;
        }
        i = i + 1;
    }
    false
}

/// The configuration file of the SSH client.
#[derive(Debug)]
pub struct SshConfigParser {
    pub path: String,
}

impl SshConfigParser {
    /// The configuration of the user whose home directory is `home`.
    pub fn at_home(home: Option<&str>) -> (r: Self)
        ensures
            r.path@ == tilde_expanded("~/.ssh/config"@, path_text(home)),
    {
        SshConfigParser { path: home_expanded("~/.ssh/config", home) }
    }

    /// The configuration of the user who runs the process.
    pub fn new() -> (r: Self)
        ensures
            exists|home: Option<Seq<char>>| r.path@ == tilde_expanded("~/.ssh/config"@, home),
    {
        let home = home_directory();
        match &home {
            Some(h) => {
                let r = Self::at_home(Some(h.as_str()));
                assert(r.path@ == tilde_expanded("~/.ssh/config"@, Some(h@)));
                r
            },
            None => {
                let r = Self::at_home(None);
                assert(r.path@ == tilde_expanded("~/.ssh/config"@, None));
                r
            },
        }
    }

    /// The usable entries of the configuration, given what the file
    /// holds; none where there is no file.
    pub fn parse(&self, content: Option<&str>) -> (r: Vec<SshConfigHost>)
        ensures
            match content {
                Some(text) => exists|home: Option<Seq<char>>|
                    host_texts(r@) == usable_among(
                        entries_of(text@, home),
                        entries_of(text@, home).len(),
                    ),
                None => r@.len() == 0,
            },
    {
        match content {
            Some(text) => {
                let found = parse_content(text);
                let ghost home = choose|home: Option<Seq<char>>|
                    host_texts(found@) == entries_of(text@, home);
                let r = Self::usable(found);
                assert(host_texts(r@) == usable_among(
                    entries_of(text@, home),
                    entries_of(text@, home).len(),
                ));
                r
            },
            None => Vec::new(),
        }
    }

    /// The usable entries among `hosts`, in their order: those that have
    /// an address and whose name is no pattern.
    pub fn usable(hosts: Vec<SshConfigHost>) -> (r: Vec<SshConfigHost>)
        ensures
            host_texts(r@) == usable_among(host_texts(hosts@), hosts@.len()),
    {
        let mut hosts = hosts;
        let ghost before = host_texts(hosts@);
        let ghost mut done: nat = 0;
        let mut i: usize = 0;
        assert(host_texts(hosts@) =~= usable_among(before, 0) + before.subrange(
            0,
            before.len() as int,
        ));
        while i < hosts.len()
            invariant
                done <= before.len(),
                i <= hosts.len(),
                i == usable_among(before, done).len(),
                host_texts(hosts@) == usable_among(before, done) + before.subrange(
                    done as int,
                    before.len() as int,
                ),
            decreases before.len() - done,
        {
            assert(host_texts(hosts@)[i as int] == before[done as int]);
            assert(host_texts(hosts@)[i as int] == hosts@[i as int]@);
            let host = &hosts[i];
            let keep = host.hostname.is_some() && !has_char(host.name.as_str(), '*') && !has_char(
                host.name.as_str(),
                '?',
            ) && !has_char(host.name.as_str(), '!');
            if keep {
                proof {
                    assert(host_texts(hosts@) =~= usable_among(before, done + 1) + before.subrange(
                        (done + 1) as int,
                        before.len() as int,
                    ));
                    done = done + 1;
                }
                i = i + 1;
            } else {
                let ghost listed = host_texts(hosts@);
                let _ = hosts.remove(i);
                proof {
                    assert(host_texts(hosts@) =~= listed.remove(i as int));
                    assert(host_texts(hosts@) =~= usable_among(before, done + 1) + before.subrange(
                        (done + 1) as int,
                        before.len() as int,
                    ));
                    done = done + 1;
                }
            }
        }
        assert(host_texts(hosts@) =~= usable_among(before, before.len()));
        hosts
    }
}

} // verus!
