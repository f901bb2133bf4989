//! Playbooks: the files that describe how a host is set up, and the list
//! that is made of the files of a directory.

use crate::text::{
    compare_text, extension_of, file_extension, file_name, file_name_of, file_stem,
    lemma_lex_total, lemma_lex_transitive, lex_lt, stem_of, text_eq, texts, Rank,
};
use vstd::prelude::*;

verus! {

/// A playbook, as plain text values.
pub struct PlaybookText {
    pub path: Seq<char>,
    pub name: Seq<char>,
}

/// A playbook: where it lies and what it is called.
#[derive(Debug)]
pub struct Playbook {
    pub path: String,
    pub name: String,
}

impl View for Playbook {
    type V = PlaybookText;

    open spec fn view(&self) -> PlaybookText {
        PlaybookText { path: self.path@, name: self.name@ }
    }
}

/// The name of the playbook at a path: the file name without its
/// extension, and `unknown` for a path that names no file.
pub open spec fn name_of(path: Seq<char>) -> Seq<char> {
    match file_name_of(path) {
        Some(file) => stem_of(file),
        None => "unknown"@,
    }
}

/// The playbook at a path.
pub open spec fn playbook_at(path: Seq<char>) -> PlaybookText {
    PlaybookText { path, name: name_of(path) }
}

impl Playbook {
    /// The playbook at a path.
    pub fn from_path(path: String) -> (r: Self)
        ensures
            r@ == playbook_at(path@),
    {
        let name = match file_name(path.as_str()) {
            Some(file) => file_stem(file.as_str()),
            None => String::from_str("unknown"),
        };
        Playbook { path, name }
    }
}

/// How a run of a playbook ended.
#[derive(Debug, Clone, Copy, PartialEq, Eq, Structural)]
pub struct AnsibleResult {
    pub success: bool,
    pub exit_code: i32,
}

/// The texts of a list of playbooks, in the same order.
pub open spec fn playbook_texts(list: Seq<Playbook>) -> Seq<PlaybookText> {
    Seq::new(list.len(), |i: int| list[i]@)
}

/// Whether the file at a path is a playbook by its extension: `yml`, or
/// `yaml` too where that is accepted.
pub open spec fn has_playbook_extension(path: Seq<char>, yaml_too: bool) -> bool {
    match file_name_of(path) {
        Some(file) => extension_of(file) == Some("yml"@) || (yaml_too && extension_of(file)
            == Some("yaml"@)),
        None => false,
    }
}

/// The playbooks among the first `upto` paths, in the order of the paths.
pub open spec fn playbooks_among(paths: Seq<Seq<char>>, yaml_too: bool, upto: nat) -> Seq<
    PlaybookText,
>
    decreases upto,
{
    if upto == 0 || upto > paths.len() {
        Seq::empty()
    } else {
        let earlier = playbooks_among(paths, yaml_too, (upto - 1) as nat);
        if has_playbook_extension(paths[upto - 1], yaml_too) {
            earlier.push(playbook_at(paths[upto - 1]))
        } else {
            earlier
        }
    }
}

/// Whether the names of a list never go down.
pub open spec fn is_sorted_by_name(list: Seq<PlaybookText>) -> bool {
    forall|i: int, j: int|
        0 <= i < j < list.len() ==> !lex_lt((#[trigger] list[j]).name, (#[trigger] list[i]).name)
}

/// The names of a list of playbooks, in the same order.
pub open spec fn names_of(list: Seq<PlaybookText>) -> Seq<Seq<char>> {
    Seq::new(list.len(), |i: int| list[i].name)
}

fn is_playbook_file(path: &str, yaml_too: bool) -> (r: bool)
    ensures
        r == has_playbook_extension(path@, yaml_too),
{
    match file_name(path) {
        Some(file) => match file_extension(file.as_str()) {
            Some(extension) => text_eq(extension.as_str(), "yml") || (yaml_too && text_eq(
                extension.as_str(),
                "yaml",
            )),
            None => false,
        },
        None => false,
    }
}

fn named_before(a: &Playbook, b: &Playbook) -> (r: bool)
    ensures
        r == lex_lt(a@.name, b@.name),
{
    proof {
        lemma_lex_total(a@.name, b@.name);
    }
    match compare_text(a.name.as_str(), b.name.as_str()) {
        Rank::Before => true,
        _ => false,
    }
}

fn insert_by_name(list: &mut Vec<Playbook>, playbook: Playbook)
    requires
        is_sorted_by_name(playbook_texts(old(list)@)),
    ensures
        is_sorted_by_name(playbook_texts(final(list)@)),
        playbook_texts(final(list)@).to_multiset() == playbook_texts(
            old(list)@,
        ).to_multiset().insert(playbook@),
{
    let ghost before = playbook_texts(list@);
    let mut at: usize = 0;
    while at < list.len() && named_before(&list[at], &playbook)
        invariant
            at <= list.len(),
            playbook_texts(list@) == before,
            forall|k: int| 0 <= k < at ==> lex_lt((#[trigger] before[k]).name, playbook@.name),
        decreases list.len() - at,
    {
        at = at + 1;
    }
    proof {
        if at < list.len() {
            lemma_lex_total(before[at as int].name, playbook@.name);
        }
    }
    list.insert(at, playbook);
    let ghost after = playbook_texts(list@);
    assert(after =~= before.insert(at as int, playbook@));
    proof {
        vstd::seq_lib::to_multiset_insert(before, at as int, playbook@);
        assert forall|i: int, j: int| 0 <= i < j < after.len() implies !lex_lt(
            (#[trigger] after[j]).name,
            (#[trigger] after[i]).name,
        ) by {
            if j == at {
                lemma_lex_total(after[i].name, playbook@.name);
            } else if i == at {
                let pivot = before[at as int];
                assert(!lex_lt(pivot.name, playbook@.name));
                if j > at + 1 {
                    assert(after[j] == before[j - 1]);
                    assert(!lex_lt(before[j - 1].name, before[at as int].name));
                }
                lemma_lex_total(pivot.name, playbook@.name);
                lemma_lex_total(after[j].name, pivot.name);
                if lex_lt(after[j].name, playbook@.name) && pivot.name != playbook@.name
                    && after[j].name != pivot.name {
                    lemma_lex_transitive(playbook@.name, pivot.name, after[j].name);
                    lemma_lex_total(after[j].name, playbook@.name);
                }
            } else {
                let bi = if i < at {
                    i
                } else {
                    i - 1
                };
                let bj = if j < at {
                    j
                } else {
                    j - 1
                };
                assert(after[i] == before[bi]);
                assert(after[j] == before[bj]);
            }
        }
    }
}

proof fn lemma_nothing_held(s: Seq<PlaybookText>)
    requires
        s.len() == 0,
    ensures
        s.to_multiset() =~= vstd::multiset::Multiset::<PlaybookText>::empty(),
{
    s.to_multiset_ensures();
    vstd::multiset::lemma_multiset_empty_len(s.to_multiset());
}

/// The playbooks of a directory. Listing the directory is done elsewhere;
/// here is what is made of the list.
pub struct PlaybookManager;

impl PlaybookManager {
    /// The playbooks among the files at `paths`, in the order of the paths.
    pub fn from_files(paths: &Vec<String>, yaml_too: bool) -> (r: Vec<Playbook>)
        ensures
            playbook_texts(r@) == playbooks_among(texts(paths@), yaml_too, paths@.len()),
    {
        let mut found: Vec<Playbook> = Vec::new();
        let mut i: usize = 0;
        assert(playbook_texts(found@) =~= playbooks_among(texts(paths@), yaml_too, 0));
        while i < paths.len()
            invariant
                i <= paths.len(),
                playbook_texts(found@) == playbooks_among(texts(paths@), yaml_too, i as nat),
            decreases paths.len() - i,
        {
            let ghost earlier = playbook_texts(found@);
            assert(texts(paths@)[i as int] == paths@[i as int]@);
            if is_playbook_file(paths[i].as_str(), yaml_too) {
                let playbook = Playbook::from_path(paths[i].clone());
                let ghost text = playbook@;
                found.push(playbook);
                assert(playbook_texts(found@) =~= earlier.push(text));
            }
            i = i + 1;
        }
        found
    }

    /// The same playbooks ordered by name.
    pub fn sorted(playbooks: Vec<Playbook>) -> (r: Vec<Playbook>)
        ensures
            is_sorted_by_name(playbook_texts(r@)),
            playbook_texts(r@).to_multiset() == playbook_texts(playbooks@).to_multiset(),
    {
        let mut rest = playbooks;
        let ghost all = playbook_texts(rest@);
        let mut list: Vec<Playbook> = Vec::new();
        proof {
            assert(playbook_texts(list@) =~= Seq::<PlaybookText>::empty());
            lemma_nothing_held(playbook_texts(list@));
        }
        while rest.len() > 0
            invariant
                is_sorted_by_name(playbook_texts(list@)),
                playbook_texts(list@).to_multiset().add(playbook_texts(rest@).to_multiset())
                    == all.to_multiset(),
            decreases rest.len(),
        {
            let ghost left = playbook_texts(rest@);
            let ghost done = playbook_texts(list@);
            let playbook = rest.pop().unwrap();
            proof {
                assert(playbook_texts(rest@) =~= left.drop_last());
                assert(left =~= left.drop_last().push(playbook@));
                vstd::seq_lib::to_multiset_build(left.drop_last(), playbook@);
            }
            insert_by_name(&mut list, playbook);
            assert(playbook_texts(list@).to_multiset().add(playbook_texts(rest@).to_multiset())
                =~= done.to_multiset().add(left.to_multiset()));
        }
        proof {
            lemma_nothing_held(playbook_texts(rest@));
            assert(playbook_texts(list@).to_multiset() =~= all.to_multiset());
        }
        list
    }

    /// The names of the playbooks among the files at `paths` that end in
    /// `.yml`, in ascending order.
    pub fn list_available_playbooks(paths: &Vec<String>) -> (r: Vec<String>)
        ensures
            exists|list: Seq<PlaybookText>|
                is_sorted_by_name(list) && list.to_multiset() == playbooks_among(
                    texts(paths@),
                    false,
                    paths@.len(),
                ).to_multiset() && texts(r@) == names_of(list),
    {
        let list = Self::sorted(Self::from_files(paths, false));
        let mut names: Vec<String> = Vec::new();
        let mut i: usize = 0;
        while i < list.len()
            invariant
                i <= list.len(),
                texts(names@) == names_of(playbook_texts(list@)).take(i as int),
            decreases list.len() - i,
        {
            let ghost before = texts(names@);
            names.push(list[i].name.clone());
            assert(texts(names@) =~= before.push(list@[i as int]@.name));
            assert(texts(names@) =~= names_of(playbook_texts(list@)).take(i + 1));
            i = i + 1;
        }
        assert(texts(names@) =~= names_of(playbook_texts(list@)));
        names
    }
}

} // verus!
