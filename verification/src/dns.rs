//! Name records: which records a change of address touches, and which of
//! the configured names have no record yet. Talking to the name service is
//! done elsewhere.

use crate::text::{concat3, text_eq, texts, to_chars};
use vstd::prelude::*;

verus! {

/// An address record, as plain text values.
pub struct RecordText {
    pub name: Seq<char>,
    pub ip: Seq<char>,
}

/// An address record of the zone: a full name and the address it has.
#[derive(Debug)]
pub struct ARecord {
    pub name: String,
    pub ip: String,
}

impl View for ARecord {
    type V = RecordText;

    open spec fn view(&self) -> RecordText {
        RecordText { name: self.name@, ip: self.ip@ }
    }
}

/// The texts of a list of records, in the same order.
pub open spec fn record_texts(records: Seq<ARecord>) -> Seq<RecordText> {
    Seq::new(records.len(), |i: int| records[i]@)
}

/// What became of one record in a change of address, as plain values.
pub struct MigrationText {
    pub subdomain: Seq<char>,
    pub old_ip: Seq<char>,
    pub new_ip: Seq<char>,
    pub success: bool,
}

/// What became of one record in a change of address.
#[derive(Debug)]
pub struct MigrationResult {
    pub subdomain: String,
    pub old_ip: String,
    pub new_ip: String,
    pub success: bool,
}

impl View for MigrationResult {
    type V = MigrationText;

    open spec fn view(&self) -> MigrationText {
        MigrationText {
            subdomain: self.subdomain@,
            old_ip: self.old_ip@,
            new_ip: self.new_ip@,
            success: self.success,
        }
    }
}

/// The texts of a list of results, in the same order.
pub open spec fn migration_texts(results: Seq<MigrationResult>) -> Seq<MigrationText> {
    Seq::new(results.len(), |i: int| results[i]@)
}

/// The full name of a subdomain of a domain.
pub open spec fn full_name_of(subdomain: Seq<char>, domain: Seq<char>) -> Seq<char> {
    subdomain + "."@ + domain
}

/// The full name of a subdomain of a domain.
pub fn full_name(subdomain: &str, domain: &str) -> (r: String)
    ensures
        r@ == full_name_of(subdomain@, domain@),
{
    concat3(subdomain, ".", domain)
}

/// A full name without the domain and the dot before it; the name itself
/// where it does not end in them.
pub open spec fn subdomain_text(name: Seq<char>, domain: Seq<char>) -> Seq<char> {
    let suffix = "."@ + domain;
    if name.len() >= suffix.len() && name.subrange(name.len() - suffix.len(), name.len() as int)
        == suffix {
        name.subrange(0, name.len() - suffix.len())
    } else {
        name
    }
}

/// Takes the domain off a full name.
pub fn subdomain_of(name: &str, domain: &str) -> (r: String)
    ensures
        r@ == subdomain_text(name@, domain@),
{
    let n = to_chars(name);
    let d = to_chars(domain);
    let ghost suffix = "."@ + domain@;
    proof {
        reveal_strlit(".");
        assert(suffix.len() == d@.len() + 1);
        assert(suffix[0] == '.');
        assert(forall|k: int| 0 <= k < d@.len() ==> suffix[k + 1] == d@[k]);
    }
    if n.len() <= d.len() {
        return String::from_str(name);
    }
    let start: usize = n.len() - d.len() - 1;
    let ghost tail = name@.subrange(start as int, name@.len() as int);
    if n[start] != '.' {
        assert(tail[0] != suffix[0]);
        return String::from_str(name);
    }
    let mut i: usize = 0;
    while i < d.len()
        invariant
            i <= d.len(),
            n.len() == start + 1 + d.len(),
            n@ == name@,
            d@ == domain@,
            suffix == "."@ + domain@,
            suffix.len() == d@.len() + 1,
            forall|k: int| 0 <= k < d@.len() ==> suffix[k + 1] == d@[k],
            tail == name@.subrange(start as int, name@.len() as int),
            forall|k: int| 0 <= k < i ==> n@[start + 1 + k] == d@[k],
        decreases d.len() - i,
    {
        if n[start + 1 + i] != d[i] {
            assert(tail[i + 1] != suffix[i + 1]);
            return String::from_str(name);
        }
        i = i + 1;
    }
    assert(tail =~= suffix);
    String::from_str(name.substring_char(0, start))
}

/// What a change of every record to `new_ip` would do: one result for
/// each record, in their order, each marked as a success.
pub open spec fn preview_of(records: Seq<RecordText>, domain: Seq<char>, new_ip: Seq<char>) -> Seq<
    MigrationText,
> {
    Seq::new(
        records.len(),
        |i: int|
            MigrationText {
                subdomain: subdomain_text(records[i].name, domain),
                old_ip: records[i].ip,
                new_ip,
                success: true,
            },
    )
}

/// What a change of every record to `new_ip` would do.
pub fn migration_preview(records: &Vec<ARecord>, domain: &str, new_ip: &str) -> (r: Vec<
    MigrationResult,
>)
    ensures
        migration_texts(r@) == preview_of(record_texts(records@), domain@, new_ip@),
{
    let mut results: Vec<MigrationResult> = Vec::new();
    let mut i: usize = 0;
    while i < records.len()
        invariant
            i <= records.len(),
            migration_texts(results@) == preview_of(record_texts(records@), domain@, new_ip@).take(
                i as int,
            ),
        decreases records.len() - i,
    {
        let ghost before = migration_texts(results@);
        assert(record_texts(records@)[i as int] == records@[i as int]@);
        let result = MigrationResult {
            subdomain: subdomain_of(records[i].name.as_str(), domain),
            old_ip: records[i].ip.clone(),
            new_ip: String::from_str(new_ip),
            success: true,
        };
        let ghost text = result@;
        results.push(result);
        assert(migration_texts(results@) =~= before.push(text));
        assert(migration_texts(results@) =~= preview_of(
            record_texts(records@),
            domain@,
            new_ip@,
        ).take(i + 1));
        i = i + 1;
    }
    assert(migration_texts(results@) =~= preview_of(record_texts(records@), domain@, new_ip@));
    results
}

/// Whether one of the records stands for the subdomain.
pub open spec fn has_record(records: Seq<RecordText>, domain: Seq<char>, subdomain: Seq<char>) -> bool {
    exists|j: int|
        0 <= j < records.len() && subdomain_text((#[trigger] records[j]).name, domain) == subdomain
}

/// Those of the first `upto` subdomains that have no record.
pub open spec fn missing_among(
    configured: Seq<Seq<char>>,
    records: Seq<RecordText>,
    domain: Seq<char>,
    upto: nat,
) -> Seq<Seq<char>>
    decreases upto,
{
    if upto == 0 || upto > configured.len() {
        Seq::empty()
    } else {
        let earlier = missing_among(configured, records, domain, (upto - 1) as nat);
        if has_record(records, domain, configured[upto - 1]) {
            earlier
        } else {
            earlier.push(configured[upto - 1])
        }
    }
}

fn recorded(records: &Vec<ARecord>, domain: &str, subdomain: &str) -> (r: bool)
    ensures
        r == has_record(record_texts(records@), domain@, subdomain@),
{
    let mut j: usize = 0;
    while j < records.len()
        invariant
            j <= records.len(),
            forall|k: int|
                0 <= k < j ==> subdomain_text((#[trigger] record_texts(records@)[k]).name, domain@)
                    != subdomain@,
        decreases records.len() - j,
    {
        assert(record_texts(records@)[j as int] == records@[j as int]@);
        let name = subdomain_of(records[j].name.as_str(), domain);
        if text_eq(name.as_str(), subdomain) {
            return true;
        }
        j = j + 1;
    }
    false
}

/// The configured subdomains that have no address record, in their order.
pub fn missing_subdomains(configured: &Vec<String>, records: &Vec<ARecord>, domain: &str) -> (r:
    Vec<String>)
    ensures
        texts(r@) == missing_among(
            texts(configured@),
            record_texts(records@),
            domain@,
            configured@.len(),
        ),
{
    let mut missing: Vec<String> = Vec::new();
    let mut i: usize = 0;
    assert(texts(missing@) =~= missing_among(texts(configured@), record_texts(records@), domain@, 0));
    while i < configured.len()
        invariant
            i <= configured.len(),
            texts(missing@) == missing_among(
                texts(configured@),
                record_texts(records@),
                domain@,
                i as nat,
            ),
        decreases configured.len() - i,
    {
        let ghost before = texts(missing@);
        assert(texts(configured@)[i as int] == configured@[i as int]@);
        if !recorded(records, domain, configured[i].as_str()) {
            missing.push(configured[i].clone());
            assert(texts(missing@) =~= before.push(configured@[i as int]@));
        }
        i = i + 1;
    }
    missing
}

/// An application and the subdomain it is served under, as plain text
/// values.
pub struct NamedText {
    pub app: Seq<char>,
    pub subdomain: Seq<char>,
}

/// An application and the subdomain it is served under.
#[derive(Debug)]
pub struct NamedSubdomain {
    pub app: String,
    pub subdomain: String,
}

impl View for NamedSubdomain {
    type V = NamedText;

    open spec fn view(&self) -> NamedText {
        NamedText { app: self.app@, subdomain: self.subdomain@ }
    }
}

/// The texts of a list of named subdomains, in the same order.
pub open spec fn named_texts(list: Seq<NamedSubdomain>) -> Seq<NamedText> {
    Seq::new(list.len(), |i: int| list[i]@)
}

/// An application and the variable that holds its subdomain, as plain text
/// values.
pub struct VariableText {
    pub app: Seq<char>,
    pub variable: Seq<char>,
}

/// An application and the variable of the environment that holds its
/// subdomain.
#[derive(Debug)]
pub struct AppVariable {
    pub app: String,
    pub variable: String,
}

impl View for AppVariable {
    type V = VariableText;

    open spec fn view(&self) -> VariableText {
        VariableText { app: self.app@, variable: self.variable@ }
    }
}

/// The applications that may be served under a subdomain of their own,
/// each with the variable that holds the subdomain.
pub open spec fn known_variables() -> Seq<VariableText> {
    seq![
        VariableText { app: "baikal"@, variable: "BAIKAL_SUBDOMAIN"@ },
        VariableText { app: "blocky"@, variable: "BLOCKY_SUBDOMAIN"@ },
        VariableText { app: "calibre"@, variable: "CALIBRE_SUBDOMAIN"@ },
        VariableText { app: "freshrss"@, variable: "FRESHRSS_SUBDOMAIN"@ },
        VariableText { app: "navidrome"@, variable: "NAVIDROME_SUBDOMAIN"@ },
        VariableText { app: "webdav"@, variable: "WEBDAV_SUBDOMAIN"@ },
        VariableText { app: "yourls"@, variable: "YOURLS_SUBDOMAIN"@ },
    ]
}

fn app_variable(app: &str, variable: &str) -> (r: AppVariable)
    ensures
        r@ == (VariableText { app: app@, variable: variable@ }),
{
    AppVariable { app: String::from_str(app), variable: String::from_str(variable) }
}

/// The applications that may be served under a subdomain of their own,
/// each with the variable that holds the subdomain.
pub fn subdomain_variables() -> (r: Vec<AppVariable>)
    ensures
        Seq::new(r@.len(), |i: int| r@[i]@) == known_variables(),
{
    let mut r: Vec<AppVariable> = Vec::new();
    r.push(app_variable("baikal", "BAIKAL_SUBDOMAIN"));
    r.push(app_variable("blocky", "BLOCKY_SUBDOMAIN"));
    r.push(app_variable("calibre", "CALIBRE_SUBDOMAIN"));
    r.push(app_variable("freshrss", "FRESHRSS_SUBDOMAIN"));
    r.push(app_variable("navidrome", "NAVIDROME_SUBDOMAIN"));
    r.push(app_variable("webdav", "WEBDAV_SUBDOMAIN"));
    r.push(app_variable("yourls", "YOURLS_SUBDOMAIN"));
    assert(Seq::new(r@.len(), |i: int| r@[i]@) =~= known_variables());
    r
}

/// Whether one of the texts equals `wanted`.
pub open spec fn among(list: Seq<Seq<char>>, wanted: Seq<char>) -> bool {
    exists|i: int| 0 <= i < list.len() && #[trigger] list[i] == wanted
}

/// The position of the first of the named subdomains from `from` on that
/// belongs to `app`.
pub open spec fn first_of_app(list: Seq<NamedText>, app: Seq<char>, from: nat) -> Option<int>
    decreases list.len() - from,
{
    if from >= list.len() {
        None
    } else if list[from as int].app == app {
        Some(from as int)
    } else {
        first_of_app(list, app, from + 1)
    }
}

/// Those of the first `upto` named subdomains whose application is not
/// skipped.
pub open spec fn unskipped(list: Seq<NamedText>, skip: Seq<Seq<char>>, upto: nat) -> Seq<NamedText>
    decreases upto,
{
    if upto == 0 || upto > list.len() {
        Seq::empty()
    } else {
        let earlier = unskipped(list, skip, (upto - 1) as nat);
        if among(skip, list[upto - 1].app) {
            earlier
        } else {
            earlier.push(list[upto - 1])
        }
    }
}

/// The named subdomains of the first `upto` applications that are asked
/// for: each one that is not skipped, is known, and was not asked for
/// before, in the order of the asking.
pub open spec fn asked_for(
    list: Seq<NamedText>,
    wanted: Seq<Seq<char>>,
    skip: Seq<Seq<char>>,
    upto: nat,
) -> Seq<NamedText>
    decreases upto,
{
    if upto == 0 || upto > wanted.len() {
        Seq::empty()
    } else {
        let earlier = asked_for(list, wanted, skip, (upto - 1) as nat);
        let app = wanted[upto - 1];
        match first_of_app(list, app, 0) {
            Some(k) => if among(skip, app) || among(wanted.take(upto - 1), app) {
                earlier
            } else {
                earlier.push(list[k])
            },
            None => earlier,
        }
    }
}

/// The subdomains to work on: those asked for, or all that are known
/// where none is asked for; never one that is skipped.
pub open spec fn selection(
    list: Seq<NamedText>,
    wanted: Seq<Seq<char>>,
    skip: Seq<Seq<char>>,
) -> Seq<NamedText> {
    if wanted.len() > 0 {
        asked_for(list, wanted, skip, wanted.len())
    } else {
        unskipped(list, skip, list.len())
    }
}

fn is_among(list: &Vec<String>, upto: usize, wanted: &str) -> (r: bool)
    requires
        upto <= list@.len(),
    ensures
        r == among(texts(list@).take(upto as int), wanted@),
{
    let mut i: usize = 0;
    while i < upto
        invariant
            i <= upto <= list@.len(),
            forall|k: int| 0 <= k < i ==> texts(list@)[k] != wanted@,
        decreases upto - i,
    {
        assert(texts(list@)[i as int] == list@[i as int]@);
        if text_eq(list[i].as_str(), wanted) {
            assert(texts(list@).take(upto as int)[i as int] == wanted@);
            return true;
        }
        i = i + 1;
    }
    assert forall|k: int| 0 <= k < upto implies texts(list@).take(upto as int)[k] != wanted@ by {
        assert(texts(list@).take(upto as int)[k] == texts(list@)[k]);
    }
    false
}

fn find_app(list: &Vec<NamedSubdomain>, app: &str) -> (r: Option<usize>)
    ensures
        match r {
            Some(k) => first_of_app(named_texts(list@), app@, 0) == Some(k as int) && k
                < list@.len(),
            None => first_of_app(named_texts(list@), app@, 0) is None,
        },
{
    let mut i: usize = 0;
    while i < list.len()
        invariant
            i <= list.len(),
            first_of_app(named_texts(list@), app@, 0) == first_of_app(
                named_texts(list@),
                app@,
                i as nat,
            ),
        decreases list.len() - i,
    {
        assert(named_texts(list@)[i as int] == list@[i as int]@);
        if text_eq(list[i].app.as_str(), app) {
            return Some(i);
        }
        i = i + 1;
    }
    None
}

/// Chooses the subdomains to work on among those that are known.
pub fn select_subdomains(
    known: &Vec<NamedSubdomain>,
    wanted: &Vec<String>,
    skip: &Vec<String>,
) -> (r: Vec<NamedSubdomain>)
    ensures
        named_texts(r@) == selection(named_texts(known@), texts(wanted@), texts(skip@)),
{
    let mut chosen: Vec<NamedSubdomain> = Vec::new();
    proof {
        assert(texts(skip@).take(skip@.len() as int) =~= texts(skip@));
    }
    if wanted.len() > 0 {
        let mut i: usize = 0;
        assert(named_texts(chosen@) =~= asked_for(
            named_texts(known@),
            texts(wanted@),
            texts(skip@),
            0,
        ));
        while i < wanted.len()
            invariant
                i <= wanted.len(),
                texts(skip@).take(skip@.len() as int) == texts(skip@),
                named_texts(chosen@) == asked_for(
                    named_texts(known@),
                    texts(wanted@),
                    texts(skip@),
                    i as nat,
                ),
            decreases wanted.len() - i,
        {
            let ghost before = named_texts(chosen@);
            assert(texts(wanted@)[i as int] == wanted@[i as int]@);
            let app = wanted[i].as_str();
            match find_app(known, app) {
                Some(k) => {
                    if !is_among(skip, skip.len(), app) && !is_among(wanted, i, app) {
                        assert(named_texts(known@)[k as int] == known@[k as int]@);
                        chosen.push(
                            NamedSubdomain {
                                app: known[k].app.clone(),
                                subdomain: known[k].subdomain.clone(),
                            },
                        );
                        assert(named_texts(chosen@) =~= before.push(known@[k as int]@));
                    }
                },
                None => {},
            }
            i = i + 1;
        }
    } else {
        let mut i: usize = 0;
        assert(named_texts(chosen@) =~= unskipped(named_texts(known@), texts(skip@), 0));
        while i < known.len()
            invariant
                i <= known.len(),
                wanted@.len() == 0,
                texts(skip@).take(skip@.len() as int) == texts(skip@),
                named_texts(chosen@) == unskipped(named_texts(known@), texts(skip@), i as nat),
            decreases known.len() - i,
        {
            let ghost before = named_texts(chosen@);
            assert(named_texts(known@)[i as int] == known@[i as int]@);
            if !is_among(skip, skip.len(), known[i].app.as_str()) {
                chosen.push(
                    NamedSubdomain {
                        app: known[i].app.clone(),
                        subdomain: known[i].subdomain.clone(),
                    },
                );
                assert(named_texts(chosen@) =~= before.push(known@[i as int]@));
            }
            i = i + 1;
        }
    }
    chosen
}

} // verus!
