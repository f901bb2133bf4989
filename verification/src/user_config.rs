//! The user's configuration: a table of sections, each a table of keys
//! and values. Reading and writing the file is done elsewhere; here is
//! how values are looked up, changed, listed and flattened.

use crate::text::{
    compare_text, decimal_signed, lemma_lex_total, lemma_lex_transitive, lex_lt, signed_text,
    text_eq, Rank,
};
use vstd::prelude::*;

verus! {

/// A value of the configuration.
#[derive(Debug)]
pub enum Value {
    Text(String),
    Integer(i64),
    Boolean(bool),
    /// A number with a fraction, held as it is written.
    Float(String),
    /// A table of keys and values, in the order of its keys.
    Table(Vec<Entry>),
    /// A date or a list: a value that has no text.
    Other,
}

/// A key of a table and its value.
#[derive(Debug)]
pub struct Entry {
    pub key: String,
    pub value: Value,
}

/// A key and the text of its value.
pub struct PairText {
    pub key: Seq<char>,
    pub value: Seq<char>,
}

/// A key and the text of its value, as plain text values.
pub open spec fn pair_text(pair: (String, String)) -> PairText {
    PairText { key: pair.0@, value: pair.1@ }
}

/// The texts of a list of pairs of a key and a text, in the same order.
pub open spec fn pair_texts(pairs: Seq<(String, String)>) -> Seq<PairText> {
    Seq::new(pairs.len(), |i: int| pair_text(pairs[i]))
}

impl Value {
    /// The text of a plain value; a table, a date and a list have none.
    pub open spec fn text(self) -> Option<Seq<char>> {
        match self {
            Value::Text(s) => Some(s@),
            Value::Integer(i) => Some(signed_text(i as int)),
            Value::Boolean(b) => Some(
                if b {
                    "true"@
                } else {
                    "false"@
                },
            ),
            Value::Float(s) => Some(s@),
            Value::Table(_) => None,
            Value::Other => None,
        }
    }

    /// The entries of a table; none for any other value.
    pub open spec fn entries(self) -> Seq<Entry> {
        match self {
            Value::Table(entries) => entries@,
            _ => Seq::empty(),
        }
    }

    /// The text of a plain value.
    pub fn to_text(&self) -> (r: Option<String>)
        ensures
            match r {
                Some(t) => self.text() == Some(t@),
                None => self.text() is None,
            },
    {
        match self {
            Value::Text(s) => Some(s.clone()),
            Value::Integer(i) => Some(decimal_signed(*i)),
            Value::Boolean(b) => Some(
                if *b {
                    String::from_str("true")
                } else {
                    String::from_str("false")
                },
            ),
            Value::Float(s) => Some(s.clone()),
            Value::Table(_) => None,
            Value::Other => None,
        }
    }
}

/// The position of the first entry from `from` on that has the key.
pub open spec fn first_keyed(entries: Seq<Entry>, key: Seq<char>, from: nat) -> Option<int>
    decreases entries.len() - from,
{
    if from >= entries.len() {
        None
    } else if entries[from as int].key@ == key {
        Some(from as int)
    } else {
        first_keyed(entries, key, from + 1)
    }
}

/// The position of the first section from `from` on that holds the key.
pub open spec fn first_section_with(table: Seq<Entry>, key: Seq<char>, from: nat) -> Option<int>
    decreases table.len() - from,
{
    if from >= table.len() {
        None
    } else if first_keyed(table[from as int].value.entries(), key, 0) is Some {
        Some(from as int)
    } else {
        first_section_with(table, key, from + 1)
    }
}

/// The text of the value that goes by `key`: that of the first section
/// that holds the key, even where it has none; else that of the key at
/// the top of the table.
pub open spec fn lookup(table: Seq<Entry>, key: Seq<char>) -> Option<Seq<char>> {
    match first_section_with(table, key, 0) {
        Some(s) => {
            let inner = table[s].value.entries();
            inner[first_keyed(inner, key, 0)->0].value.text()
        },
        None => match first_keyed(table, key, 0) {
            Some(k) => table[k].value.text(),
            None => None,
        },
    }
}

/// The sections whose values are not shown.
pub open spec fn is_sensitive(section: Seq<char>) -> bool {
    ||| section == "api_tokens"@
    ||| section == "baikal"@
    ||| section == "colporteur"@
    ||| section == "booklore"@
    ||| section == "webdav"@
    ||| section == "yourls"@
    ||| section == "openclaw"@
}

/// What is shown of a value: its text, or nothing but whether there is
/// one where the section is sensitive.
pub open spec fn shown(value: Value, sensitive: bool) -> Seq<char> {
    match value {
        Value::Text(s) => if !sensitive {
            s@
        } else if s@.len() == 0 {
            "(empty)"@
        } else {
            "****"@
        },
        other => match other.text() {
            Some(t) => t,
            None => Seq::empty(),
        },
    }
}

/// What is shown of the first `upto` entries of a section.
pub open spec fn shown_of_section(entries: Seq<Entry>, sensitive: bool, upto: nat) -> Seq<PairText>
    decreases upto,
{
    if upto == 0 || upto > entries.len() {
        Seq::empty()
    } else {
        shown_of_section(entries, sensitive, (upto - 1) as nat).push(
            PairText {
                key: entries[upto - 1].key@,
                value: shown(entries[upto - 1].value, sensitive),
            },
        )
    }
}

/// What is shown of the first `upto` sections of a table. What stands at
/// the top of the table outside any section is not shown.
pub open spec fn shown_of_table(table: Seq<Entry>, upto: nat) -> Seq<PairText>
    decreases upto,
{
    if upto == 0 || upto > table.len() {
        Seq::empty()
    } else {
        let section = table[upto - 1];
        shown_of_table(table, (upto - 1) as nat) + shown_of_section(
            section.value.entries(),
            is_sensitive(section.key@),
            section.value.entries().len(),
        )
    }
}

fn find_key(entries: &Vec<Entry>, key: &str) -> (r: Option<usize>)
    ensures
        match r {
            Some(k) => first_keyed(entries@, key@, 0) == Some(k as int) && k < entries.len(),
            None => first_keyed(entries@, key@, 0) is None,
        },
{
    let mut i: usize = 0;
    while i < entries.len()
        invariant
            i <= entries.len(),
            first_keyed(entries@, key@, 0) == first_keyed(entries@, key@, i as nat),
        decreases entries.len() - i,
    {
        if text_eq(entries[i].key.as_str(), key) {
            return Some(i);
        }
        i = i + 1;
    }
    None
}

fn find_section(table: &Vec<Entry>, key: &str) -> (r: Option<(usize, usize)>)
    ensures
        match r {
            Some((s, k)) => first_section_with(table@, key@, 0) == Some(s as int) && s
                < table.len() && table@[s as int].value is Table && first_keyed(
                table@[s as int].value.entries(),
                key@,
                0,
            ) == Some(k as int) && k < table@[s as int].value.entries().len(),
            None => first_section_with(table@, key@, 0) is None,
        },
{
    let mut i: usize = 0;
    while i < table.len()
        invariant
            i <= table.len(),
            first_section_with(table@, key@, 0) == first_section_with(table@, key@, i as nat),
        decreases table.len() - i,
    {
        match &table[i].value {
            Value::Table(inner) => {
                match find_key(inner, key) {
                    Some(k) => {
                        return Some((i, k));
                    },
                    None => {},
                }
            },
            _ => {},
        }
        i = i + 1;
    }
    None
}

fn sensitive(section: &str) -> (r: bool)
    ensures
        r == is_sensitive(section@),
{
    text_eq(section, "api_tokens") || text_eq(section, "baikal") || text_eq(section, "colporteur")
        || text_eq(section, "booklore") || text_eq(section, "webdav") || text_eq(section, "yourls")
        || text_eq(section, "openclaw")
}

fn show(value: &Value, hide: bool) -> (r: String)
    ensures
        r@ == shown(*value, hide),
{
    match value {
        Value::Text(s) => {
            if !hide {
                s.clone()
            } else if s.as_str().unicode_len() == 0 {
                String::from_str("(empty)")
            } else {
                String::from_str("****")
            }
        },
        other => match other.to_text() {
            Some(t) => t,
            None => String::new(),
        },
    }
}

/// The plain values of the first `upto` entries of a table and of the
/// tables inside them, each under its own key, added to `known`. Where a
/// key occurs more than once, the value that is met last counts.
pub open spec fn flat_of(entries: Seq<Entry>, upto: nat, known: Map<Seq<char>, Seq<char>>) -> Map<
    Seq<char>,
    Seq<char>,
>
    decreases entries, upto,
{
    if upto == 0 || upto > entries.len() {
        known
    } else {
        let earlier = flat_of(entries, (upto - 1) as nat, known);
        match entries[upto - 1].value {
            Value::Table(inner) => flat_of(inner@, inner@.len(), earlier),
            other => match other.text() {
                Some(t) => earlier.insert(entries[upto - 1].key@, t),
                None => earlier,
            },
        }
    }
}

/// Whether the keys of a list go up strictly, so that none occurs twice.
pub open spec fn is_sorted(pairs: Seq<PairText>) -> bool {
    forall|i: int, j: int|
        0 <= i < j < pairs.len() ==> lex_lt((#[trigger] pairs[i]).key, (#[trigger] pairs[j]).key)
}

/// Whether a list holds the key.
pub open spec fn holds(pairs: Seq<PairText>, key: Seq<char>) -> bool {
    exists|i: int| 0 <= i < pairs.len() && (#[trigger] pairs[i]).key == key
}

/// A list of pairs as a map from its keys to their texts.
pub open spec fn as_map(pairs: Seq<PairText>) -> Map<Seq<char>, Seq<char>> {
    Map::new(
        |key: Seq<char>| holds(pairs, key),
        |key: Seq<char>|
            pairs[choose|i: int| 0 <= i < pairs.len() && (#[trigger] pairs[i]).key == key].value,
    )
}

proof fn lemma_sorted_keys_differ(pairs: Seq<PairText>, i: int, j: int)
    requires
        is_sorted(pairs),
        0 <= i < pairs.len(),
        0 <= j < pairs.len(),
        i != j,
    ensures
        pairs[i].key != pairs[j].key,
{
    if i < j {
        lemma_lex_total(pairs[i].key, pairs[j].key);
    } else {
        lemma_lex_total(pairs[j].key, pairs[i].key);
    }
}

proof fn lemma_map_reads(pairs: Seq<PairText>, i: int)
    requires
        is_sorted(pairs),
        0 <= i < pairs.len(),
    ensures
        as_map(pairs).contains_key(pairs[i].key),
        as_map(pairs)[pairs[i].key] == pairs[i].value,
{
    let key = pairs[i].key;
    let chosen = choose|k: int| 0 <= k < pairs.len() && (#[trigger] pairs[k]).key == key;
    if chosen != i {
        lemma_sorted_keys_differ(pairs, chosen, i);
    }
}

/// The place of a key in a sorted list: where it stands, or where it
/// would have to stand.
fn place_of(pairs: &Vec<(String, String)>, key: &str) -> (r: (usize, bool))
    ensures
        r.0 <= pairs@.len(),
        forall|k: int| 0 <= k < r.0 ==> lex_lt((#[trigger] pair_texts(pairs@)[k]).key, key@),
        r.1 ==> r.0 < pairs@.len() && pair_texts(pairs@)[r.0 as int].key == key@,
        !r.1 && r.0 < pairs@.len() ==> lex_lt(key@, pair_texts(pairs@)[r.0 as int].key),
{
    let mut at: usize = 0;
    while at < pairs.len()
        invariant
            at <= pairs.len(),
            forall|k: int| 0 <= k < at ==> lex_lt((#[trigger] pair_texts(pairs@)[k]).key, key@),
        decreases pairs.len() - at,
    {
        assert(pair_texts(pairs@)[at as int] == pair_text(pairs@[at as int]));
        proof {
            lemma_lex_total(pairs@[at as int].0@, key@);
        }
        match compare_text(pairs[at].0.as_str(), key) {
            Rank::Before => {
                at = at + 1;
            },
            Rank::Same => {
                return (at, true);
            },
            Rank::After => {
                return (at, false);
            },
        }
    }
    (at, false)
}

/// Sets the text of a key in a sorted list: in place where the list holds
/// the key, else at the place that keeps the list sorted.
fn upsert(pairs: &mut Vec<(String, String)>, key: &str, value: String)
    requires
        is_sorted(pair_texts(old(pairs)@)),
    ensures
        is_sorted(pair_texts(final(pairs)@)),
        as_map(pair_texts(final(pairs)@)) == as_map(pair_texts(old(pairs)@)).insert(key@, value@),
{
    let ghost before = pair_texts(pairs@);
    let (at, found) = place_of(pairs, key);
    let ghost entry = PairText { key: key@, value: value@ };
    if found {
        pairs.set(at, (String::from_str(key), value));
        let ghost after = pair_texts(pairs@);
        proof {
            assert(after =~= before.update(at as int, entry));
            assert forall|i: int, j: int| 0 <= i < j < after.len() implies lex_lt(
                (#[trigger] after[i]).key,
                (#[trigger] after[j]).key,
            ) by {
                assert(after[i].key == before[i].key);
                assert(after[j].key == before[j].key);
            }
            assert forall|k: Seq<char>| holds(after, k) <==> #[trigger] as_map(before).insert(
                key@,
                value@,
            ).contains_key(k) by {
                if holds(after, k) {
                    let i = choose|i: int| 0 <= i < after.len() && (#[trigger] after[i]).key == k;
                    assert(before[i].key == k);
                }
                if holds(before, k) {
                    let i = choose|i: int| 0 <= i < before.len() && (#[trigger] before[i]).key == k;
                    assert(after[i].key == k);
                }
                assert(after[at as int].key == key@);
            }
            assert forall|k: Seq<char>| holds(after, k) implies #[trigger] as_map(after)[k]
                == as_map(before).insert(key@, value@)[k] by {
                let i = choose|i: int| 0 <= i < after.len() && (#[trigger] after[i]).key == k;
                lemma_map_reads(after, i);
                if i != at {
                    assert(before[i] == after[i]);
                    lemma_map_reads(before, i);
                    lemma_sorted_keys_differ(after, i, at as int);
                }
            }
            assert(as_map(after) =~= as_map(before).insert(key@, value@));
        }
    } else {
        pairs.insert(at, (String::from_str(key), value));
        let ghost after = pair_texts(pairs@);
        proof {
            assert(after =~= before.insert(at as int, entry));
            assert forall|j: int| at <= j < before.len() implies lex_lt(
                key@,
                (#[trigger] before[j]).key,
            ) by {
                if j > at {
                    lemma_lex_transitive(key@, before[at as int].key, before[j].key);
                }
            }
            assert forall|i: int, j: int| 0 <= i < j < after.len() implies lex_lt(
                (#[trigger] after[i]).key,
                (#[trigger] after[j]).key,
            ) by {
                let bi = if i < at {
                    i
                } else {
                    i - 1
                };
                let bj = if j < at {
                    j
                } else {
                    j - 1
                };
                if i != at {
                    assert(after[i] == before[bi]);
                }
                if j != at {
                    assert(after[j] == before[bj]);
                }
            }
            assert forall|k: Seq<char>| holds(after, k) <==> #[trigger] as_map(before).insert(
                key@,
                value@,
            ).contains_key(k) by {
                if holds(after, k) {
                    let i = choose|i: int| 0 <= i < after.len() && (#[trigger] after[i]).key == k;
                    if i < at {
                        assert(before[i].key == k);
                    } else if i > at {
                        assert(before[i - 1].key == k);
                    }
                }
                if holds(before, k) {
                    let i = choose|i: int| 0 <= i < before.len() && (#[trigger] before[i]).key == k;
                    if i < at {
                        assert(after[i].key == k);
                    } else {
                        assert(after[i + 1].key == k);
                    }
                }
                assert(after[at as int].key == key@);
            }
            assert forall|k: Seq<char>| holds(after, k) implies #[trigger] as_map(after)[k]
                == as_map(before).insert(key@, value@)[k] by {
                let i = choose|i: int| 0 <= i < after.len() && (#[trigger] after[i]).key == k;
                lemma_map_reads(after, i);
                if i < at {
                    assert(before[i] == after[i]);
                    lemma_map_reads(before, i);
                    lemma_sorted_keys_differ(after, i, at as int);
                } else if i > at {
                    assert(before[i - 1] == after[i]);
                    lemma_map_reads(before, i - 1);
                    lemma_sorted_keys_differ(after, i, at as int);
                }
            }
            assert(as_map(after) =~= as_map(before).insert(key@, value@));
        }
    }
}

fn flatten_into(entries: &Vec<Entry>, pairs: &mut Vec<(String, String)>)
    requires
        is_sorted(pair_texts(old(pairs)@)),
    ensures
        is_sorted(pair_texts(final(pairs)@)),
        as_map(pair_texts(final(pairs)@)) == flat_of(
            entries@,
            entries@.len(),
            as_map(pair_texts(old(pairs)@)),
        ),
    decreases entries,
{
    let ghost known = as_map(pair_texts(pairs@));
    let mut i: usize = 0;
    while i < entries.len()
        invariant
            i <= entries.len(),
            is_sorted(pair_texts(pairs@)),
            as_map(pair_texts(pairs@)) == flat_of(entries@, i as nat, known),
        decreases entries.len() - i,
    {
        match &entries[i].value {
            Value::Table(inner) => {
                proof {
                    vstd::std_specs::vec::axiom_vec_index_decreases(*entries, i as int);
                    assert(decreases_to!(*entries => entries[i as int]));
                    assert(decreases_to!(entries[i as int] => entries[i as int].value));
                    assert(decreases_to!(entries[i as int].value => *inner));
                }
                flatten_into(inner, pairs);
            },
            other => match other.to_text() {
                Some(text) => {
                    upsert(pairs, entries[i].key.as_str(), text);
                },
                None => {},
            },
        }
        i = i + 1;
    }
}

/// The configuration that a new installation starts from: every section,
/// and every key with an empty value.
pub const TEMPLATE: &'static str = r#"[dns]
domain = ""

[cloudflare]
# zone_id = ""

[identity]
admin_user_name = ""
admin_user_email = ""
primary_domain = ""
ssh_port = 22022

[api_tokens]
cloudflare_dns_api_token = ""
tailscale_authkey = ""
namecheap_api_key = ""
namecheap_api_user = ""
namecheap_client_ip = ""

[baikal]
baikal_subdomain = ""
baikal_admin_password = ""

[colporteur]
colporteur_subdomain = ""
colporteur_feeds_password = ""

[blocky]
blocky_subdomain = ""

[booklore]
booklore_subdomain = ""
booklore_db_password = ""
booklore_admin_user = ""
booklore_admin_password = ""

[freshrss]
freshrss_subdomain = ""

[navidrome]
navidrome_subdomain = ""

[webdav]
webdav_subdomain = ""
webdav_password = ""

[yourls]
yourls_subdomain = ""
yourls_db_password = ""
yourls_admin_user = ""
yourls_admin_password = ""
yourls_cookiekey = ""
yourls_api_signature = ""

[openclaw]
openclaw_gateway_token = ""
openclaw_claude_ai_session_key = ""
openclaw_claude_web_session_key = ""
openclaw_claude_web_cookie = ""
"#;

/// The user's configuration and the file it is kept in.
#[derive(Debug)]
pub struct UserConfig {
    pub path: String,
    pub table: Vec<Entry>,
}

impl UserConfig {
    /// The text of the value that goes by `key`.
    pub fn get(&self, key: &str) -> (r: Option<String>)
        ensures
            match r {
                Some(t) => lookup(self.table@, key@) == Some(t@),
                None => lookup(self.table@, key@) is None,
            },
    {
        match find_section(&self.table, key) {
            Some((s, k)) => match &self.table[s].value {
                Value::Table(inner) => inner[k].value.to_text(),
                _ => None,
            },
            None => match find_key(&self.table, key) {
                Some(k) => self.table[k].value.to_text(),
                None => None,
            },
        }
    }

    /// Gives the key a new text in the first section that holds it.
    /// Returns whether there is such a section; nothing changes where
    /// there is none.
    pub fn set(&mut self, key: &str, value: &str) -> (r: bool)
        ensures
            final(self).path == old(self).path,
            final(self).table@.len() == old(self).table@.len(),
            match first_section_with(old(self).table@, key@, 0) {
                Some(s) => {
                    let inner = old(self).table@[s].value.entries();
                    let k = first_keyed(inner, key@, 0)->0;
                    &&& r
                    &&& forall|i: int|
                        0 <= i < old(self).table@.len() && i != s ==> final(self).table@[i] == old(
                            self,
                        ).table@[i]
                    &&& final(self).table@[s].key == old(self).table@[s].key
                    &&& final(self).table@[s].value is Table
                    &&& final(self).table@[s].value.entries().len() == inner.len()
                    &&& forall|j: int|
                        0 <= j < inner.len() && j != k ==> final(self).table@[s].value.entries()[j]
                            == inner[j]
                    &&& final(self).table@[s].value.entries()[k].key == inner[k].key
                    &&& final(self).table@[s].value.entries()[k].value matches Value::Text(t)
                    &&& t@ == value@
                },
                None => !r && final(self).table@ == old(self).table@,
            },
    {
        match find_section(&self.table, key) {
            Some((s, k)) => {
                let section = self.table.remove(s);
                let Entry { key: name, value: held } = section;
                match held {
                    Value::Table(mut inner) => {
                        let old_entry = inner.remove(k);
                        let Entry { key: old_key, value: _ } = old_entry;
                        inner.insert(
                            k,
                            Entry { key: old_key, value: Value::Text(String::from_str(value)) },
                        );
                        self.table.insert(s, Entry { key: name, value: Value::Table(inner) });
                    },
                    other => {
                        self.table.insert(s, Entry { key: name, value: other });
                    },
                }
                true
            },
            None => false,
        }
    }

    /// Takes the key out of the first section that holds it. Returns
    /// whether there is such a section; nothing changes where there is
    /// none.
    pub fn remove(&mut self, key: &str) -> (r: bool)
        ensures
            final(self).path == old(self).path,
            final(self).table@.len() == old(self).table@.len(),
            match first_section_with(old(self).table@, key@, 0) {
                Some(s) => {
                    let inner = old(self).table@[s].value.entries();
                    let k = first_keyed(inner, key@, 0)->0;
                    &&& r
                    &&& forall|i: int|
                        0 <= i < old(self).table@.len() && i != s ==> final(self).table@[i] == old(
                            self,
                        ).table@[i]
                    &&& final(self).table@[s].key == old(self).table@[s].key
                    &&& final(self).table@[s].value is Table
                    &&& final(self).table@[s].value.entries() == inner.remove(k)
                },
                None => !r && final(self).table@ == old(self).table@,
            },
    {
        match find_section(&self.table, key) {
            Some((s, k)) => {
                let section = self.table.remove(s);
                let Entry { key: name, value: held } = section;
                match held {
                    Value::Table(mut inner) => {
                        let _ = inner.remove(k);
                        self.table.insert(s, Entry { key: name, value: Value::Table(inner) });
                    },
                    other => {
                        self.table.insert(s, Entry { key: name, value: other });
                    },
                }
                true
            },
            None => false,
        }
    }

    /// Every plain value of the configuration under its own key, whatever
    /// section it stands in, ordered by key.
    pub fn flatten_for_ansible(&self) -> (r: Vec<(String, String)>)
        ensures
            is_sorted(pair_texts(r@)),
            as_map(pair_texts(r@)) == flat_of(self.table@, self.table@.len(), Map::empty()),
    {
        let mut pairs: Vec<(String, String)> = Vec::new();
        assert(as_map(pair_texts(pairs@)) =~= Map::empty());
        flatten_into(&self.table, &mut pairs);
        pairs
    }

    /// Every key of every section with what is shown of its value, in the
    /// order of the table.
    pub fn keys_redacted(&self) -> (r: Vec<(String, String)>)
        ensures
            pair_texts(r@) == shown_of_table(self.table@, self.table@.len()),
    {
        let mut result: Vec<(String, String)> = Vec::new();
        let mut i: usize = 0;
        assert(pair_texts(result@) =~= shown_of_table(self.table@, 0));
        while i < self.table.len()
            invariant
                i <= self.table.len(),
                pair_texts(result@) == shown_of_table(self.table@, i as nat),
            decreases self.table.len() - i,
        {
            let ghost before = pair_texts(result@);
            let section = &self.table[i];
            match &section.value {
                Value::Table(inner) => {
                    let hide = sensitive(section.key.as_str());
                    let mut k: usize = 0;
                    assert(pair_texts(result@) =~= before + shown_of_section(inner@, hide, 0));
                    while k < inner.len()
                        invariant
                            k <= inner.len(),
                            pair_texts(result@) == before + shown_of_section(inner@, hide, k as nat),
                        decreases inner.len() - k,
                    {
                        let ghost listed = pair_texts(result@);
                        let pair = (inner[k].key.clone(), show(&inner[k].value, hide));
                        let ghost text = pair_text(pair);
                        result.push(pair);
                        assert(pair_texts(result@) =~= listed.push(text));
                        assert(pair_texts(result@) =~= before + shown_of_section(
                            inner@,
                            hide,
                            (k + 1) as nat,
                        ));
                        k = k + 1;
                    }
                },
                _ => {
                    assert(pair_texts(result@) =~= before + shown_of_section(
                        section.value.entries(),
                        is_sensitive(section.key@),
                        0,
                    ));
                },
            }
            i = i + 1;
        }
        result
    }
}

} // verus!
