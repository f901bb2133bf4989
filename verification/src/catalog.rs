//! The catalog of snapshots: what a scan of the snapshot store holds, in the
//! order in which it is listed.
//!
//! Snapshots live at `<root>/<host>/<app>/<timestamp>/`. Beside them each
//! application directory holds a link named `latest`; links are never
//! listed.

use crate::fstree::FsNode;
use crate::text::{
    compare_text, join_path, joined, lemma_lex_total, lemma_lex_transitive, lex_lt, text_eq, Rank,
};
use vstd::prelude::*;

verus! {

/// One snapshot, as plain values.
pub struct EntryRecord {
    pub host: Seq<char>,
    pub app: Seq<char>,
    pub timestamp: Seq<char>,
    pub path: Seq<char>,
    pub size_bytes: nat,
}

/// One snapshot found on disk.
#[derive(Debug)]
pub struct BackupEntry {
    pub host: String,
    pub app: String,
    pub timestamp: String,
    pub path: String,
    pub size_bytes: u64,
}

impl View for BackupEntry {
    type V = EntryRecord;

    open spec fn view(&self) -> EntryRecord {
        EntryRecord {
            host: self.host@,
            app: self.app@,
            timestamp: self.timestamp@,
            path: self.path@,
            size_bytes: self.size_bytes as nat,
        }
    }
}

/// Why a scan could not be turned into a listing.
#[derive(Debug, Clone, Copy, PartialEq, Eq, Structural)]
pub enum CatalogError {
    /// The files of one snapshot add up to more than 64 bits can hold.
    SizeOverflow,
}

/// The records of a list of entries, in the same order.
pub open spec fn records(entries: Seq<BackupEntry>) -> Seq<EntryRecord> {
    Seq::new(entries.len(), |i: int| entries[i]@)
}

/// The listing order, strictly: host ascending, then application ascending,
/// then timestamp descending. Timestamps have a fixed width, so the order of
/// their texts is the order of the moments they name.
pub open spec fn listed_before(x: EntryRecord, y: EntryRecord) -> bool {
    ||| lex_lt(x.host, y.host)
    ||| (x.host == y.host && lex_lt(x.app, y.app))
    ||| (x.host == y.host && x.app == y.app && lex_lt(y.timestamp, x.timestamp))
}

/// Whether no record of `s` stands behind one that it is listed before.
pub open spec fn is_listing_order(s: Seq<EntryRecord>) -> bool {
    forall|i: int, j: int| 0 <= i < j < s.len() ==> !listed_before(#[trigger] s[j], #[trigger] s[i])
}

/// Whether the size of every record fits in 64 bits.
pub open spec fn sizes_fit(s: Seq<EntryRecord>) -> bool {
    forall|i: int| 0 <= i < s.len() ==> (#[trigger] s[i]).size_bytes <= u64::MAX
}

/// Whether a filter lets a name through: no filter admits every name, a
/// filter admits the name equal to it.
pub open spec fn admits(filter: Option<Seq<char>>, name: Seq<char>) -> bool {
    filter matches Some(f) ==> f == name
}

/// The text of an optional filter.
pub open spec fn filter_text(filter: Option<&str>) -> Option<Seq<char>> {
    match filter {
        Some(f) => Some(f@),
        None => None,
    }
}

/// The path of a snapshot below the root of the store.
pub open spec fn snapshot_path(
    root: Seq<char>,
    host: Seq<char>,
    app: Seq<char>,
    timestamp: Seq<char>,
) -> Seq<char> {
    joined(joined(joined(root, host), app), timestamp)
}

/// The record of the snapshot directory `node` of `app` on `host`.
pub open spec fn snapshot_record(
    root: Seq<char>,
    host: Seq<char>,
    app: Seq<char>,
    node: FsNode,
) -> EntryRecord {
    EntryRecord {
        host,
        app,
        timestamp: node.label(),
        path: snapshot_path(root, host, app, node.label()),
        size_bytes: node.bytes(),
    }
}

/// The snapshots among the first `upto` entries of an application's
/// directory: its directories, and nothing else.
pub open spec fn records_of_app(
    root: Seq<char>,
    host: Seq<char>,
    app_dir: FsNode,
    upto: nat,
) -> Seq<EntryRecord>
    decreases upto,
{
    if upto == 0 || upto > app_dir.entries().len() {
        Seq::empty()
    } else {
        let earlier = records_of_app(root, host, app_dir, (upto - 1) as nat);
        let node = app_dir.entries()[upto - 1];
        if node is Dir {
            earlier.push(snapshot_record(root, host, app_dir.label(), node))
        } else {
            earlier
        }
    }
}

/// The snapshots below the first `upto` entries of a host's directory, of
/// the applications that the filter admits.
pub open spec fn records_of_host(
    root: Seq<char>,
    host_dir: FsNode,
    app_filter: Option<Seq<char>>,
    upto: nat,
) -> Seq<EntryRecord>
    decreases upto,
{
    if upto == 0 || upto > host_dir.entries().len() {
        Seq::empty()
    } else {
        let earlier = records_of_host(root, host_dir, app_filter, (upto - 1) as nat);
        let node = host_dir.entries()[upto - 1];
        if node is Dir && admits(app_filter, node.label()) {
            earlier + records_of_app(root, host_dir.label(), node, node.entries().len())
        } else {
            earlier
        }
    }
}

/// The snapshots below the first `upto` entries of the store, of the hosts
/// and applications that the filters admit.
pub open spec fn records_of_store(
    root: Seq<char>,
    store: FsNode,
    host_filter: Option<Seq<char>>,
    app_filter: Option<Seq<char>>,
    upto: nat,
) -> Seq<EntryRecord>
    decreases upto,
{
    if upto == 0 || upto > store.entries().len() {
        Seq::empty()
    } else {
        let earlier = records_of_store(root, store, host_filter, app_filter, (upto - 1) as nat);
        let node = store.entries()[upto - 1];
        if node is Dir && admits(host_filter, node.label()) {
            earlier + records_of_host(root, node, app_filter, node.entries().len())
        } else {
            earlier
        }
    }
}

/// Every snapshot of the store that the filters admit, in the order of the
/// scan. A store that is no directory holds none.
pub open spec fn found(
    root: Seq<char>,
    store: FsNode,
    host_filter: Option<Seq<char>>,
    app_filter: Option<Seq<char>>,
) -> Seq<EntryRecord> {
    records_of_store(root, store, host_filter, app_filter, store.entries().len())
}

proof fn lemma_app_prefix_fits(root: Seq<char>, host: Seq<char>, app_dir: FsNode, a: nat, b: nat)
    requires
        a <= b <= app_dir.entries().len(),
        sizes_fit(records_of_app(root, host, app_dir, b)),
    ensures
        sizes_fit(records_of_app(root, host, app_dir, a)),
    decreases b,
{
    if a < b {
        let whole = records_of_app(root, host, app_dir, b);
        let earlier = records_of_app(root, host, app_dir, (b - 1) as nat);
        assert forall|i: int| 0 <= i < earlier.len() implies (#[trigger] earlier[i]).size_bytes
            <= u64::MAX by {
            assert(earlier[i] == whole[i]);
        }
        lemma_app_prefix_fits(root, host, app_dir, a, (b - 1) as nat);
    }
}

proof fn lemma_host_prefix_fits(
    root: Seq<char>,
    host_dir: FsNode,
    app_filter: Option<Seq<char>>,
    a: nat,
    b: nat,
)
    requires
        a <= b <= host_dir.entries().len(),
        sizes_fit(records_of_host(root, host_dir, app_filter, b)),
    ensures
        sizes_fit(records_of_host(root, host_dir, app_filter, a)),
    decreases b,
{
    if a < b {
        let whole = records_of_host(root, host_dir, app_filter, b);
        let earlier = records_of_host(root, host_dir, app_filter, (b - 1) as nat);
        assert forall|i: int| 0 <= i < earlier.len() implies (#[trigger] earlier[i]).size_bytes
            <= u64::MAX by {
            assert(earlier[i] == whole[i]);
        }
        lemma_host_prefix_fits(root, host_dir, app_filter, a, (b - 1) as nat);
    }
}

proof fn lemma_store_prefix_fits(
    root: Seq<char>,
    store: FsNode,
    host_filter: Option<Seq<char>>,
    app_filter: Option<Seq<char>>,
    a: nat,
    b: nat,
)
    requires
        a <= b <= store.entries().len(),
        sizes_fit(records_of_store(root, store, host_filter, app_filter, b)),
    ensures
        sizes_fit(records_of_store(root, store, host_filter, app_filter, a)),
    decreases b,
{
    if a < b {
        let whole = records_of_store(root, store, host_filter, app_filter, b);
        let earlier = records_of_store(root, store, host_filter, app_filter, (b - 1) as nat);
        assert forall|i: int| 0 <= i < earlier.len() implies (#[trigger] earlier[i]).size_bytes
            <= u64::MAX by {
            assert(earlier[i] == whole[i]);
        }
        lemma_store_prefix_fits(root, store, host_filter, app_filter, a, (b - 1) as nat);
    }
}

proof fn lemma_fits_concat(a: Seq<EntryRecord>, b: Seq<EntryRecord>)
    ensures
        sizes_fit(a + b) <==> (sizes_fit(a) && sizes_fit(b)),
{
    let whole = a + b;
    if sizes_fit(whole) {
        assert forall|i: int| 0 <= i < a.len() implies (#[trigger] a[i]).size_bytes
            <= u64::MAX by {
            assert(a[i] == whole[i]);
        }
        assert forall|i: int| 0 <= i < b.len() implies (#[trigger] b[i]).size_bytes
            <= u64::MAX by {
            assert(b[i] == whole[i + a.len()]);
        }
    }
    if sizes_fit(a) && sizes_fit(b) {
        assert forall|i: int| 0 <= i < whole.len() implies (#[trigger] whole[i]).size_bytes
            <= u64::MAX by {
            if i < a.len() {
                assert(whole[i] == a[i]);
            } else {
                assert(whole[i] == b[i - a.len()]);
            }
        }
    }
}

fn admitted(filter: Option<&str>, name: &str) -> (r: bool)
    ensures
        r == admits(filter_text(filter), name@),
{
    match filter {
        Some(f) => text_eq(f, name),
        None => true,
    }
}

/// Appends the snapshots of one application's directory to `list`.
/// Returns whether every size fitted; `list` is complete only if so.
fn collect_app(root: &str, host: &str, app_dir: &FsNode, list: &mut Vec<BackupEntry>) -> (ok: bool)
    requires
        app_dir is Dir,
    ensures
        ok == sizes_fit(records_of_app(root@, host@, *app_dir, app_dir.entries().len())),
        ok ==> records(final(list)@) == records(old(list)@) + records_of_app(
            root@,
            host@,
            *app_dir,
            app_dir.entries().len(),
        ),
{
    let ghost before = records(list@);
    match app_dir {
        FsNode::Dir { name, children } => {
            let host_path = join_path(root, host);
            let app_path = join_path(host_path.as_str(), name.as_str());
            let mut i: usize = 0;
            while i < children.len()
                invariant
                    i <= children.len(),
                    app_dir is Dir,
                    app_dir->children == *children,
                    app_dir->Dir_name == *name,
                    app_path@ == joined(joined(root@, host@), name@),
                    sizes_fit(records_of_app(root@, host@, *app_dir, i as nat)),
                    records(list@) == before + records_of_app(root@, host@, *app_dir, i as nat),
                decreases children.len() - i,
            {
                let ghost earlier = records_of_app(root@, host@, *app_dir, i as nat);
                let ghost next = records_of_app(root@, host@, *app_dir, (i + 1) as nat);
                match &children[i] {
                    FsNode::Dir { name: stamp, .. } => {
                        let ghost record = snapshot_record(root@, host@, name@, children@[i as int]);
                        assert(next == earlier.push(record));
                        match children[i].size() {
                            Some(size_bytes) => {
                                let entry = BackupEntry {
                                    host: String::from_str(host),
                                    app: name.clone(),
                                    timestamp: stamp.clone(),
                                    path: join_path(app_path.as_str(), stamp.as_str()),
                                    size_bytes,
                                };
                                assert(entry@ == record);
                                let ghost listed = list@;
                                list.push(entry);
                                assert(records(list@) =~= records(listed).push(record));
                                assert(records(list@) =~= before + next);
                                assert(sizes_fit(next)) by {
                                    assert(next =~= earlier + seq![record]);
                                    lemma_fits_concat(earlier, seq![record]);
                                }
                            },
                            None => {
                                proof {
                                    assert(next[next.len() - 1] == record);
                                    assert(!sizes_fit(next));
                                    if sizes_fit(
                                        records_of_app(
                                            root@,
                                            host@,
                                            *app_dir,
                                            app_dir.entries().len(),
                                        ),
                                    ) {
                                        lemma_app_prefix_fits(
                                            root@,
                                            host@,
                                            *app_dir,
                                            (i + 1) as nat,
                                            app_dir.entries().len(),
                                        );
                                    }
                                }
                                return false;
                            },
                        }
                    },
                    _ => {
                        assert(next == earlier);
                    },
                }
                i = i + 1;
            }
            true
        },
        _ => true,
    }
}

/// Appends the snapshots below one host's directory to `list`.
fn collect_host(
    root: &str,
    host_dir: &FsNode,
    app_filter: Option<&str>,
    list: &mut Vec<BackupEntry>,
) -> (ok: bool)
    requires
        host_dir is Dir,
    ensures
        ok == sizes_fit(
            records_of_host(
                root@,
                *host_dir,
                filter_text(app_filter),
                host_dir.entries().len(),
            ),
        ),
        ok ==> records(final(list)@) == records(old(list)@) + records_of_host(
            root@,
            *host_dir,
            filter_text(app_filter),
            host_dir.entries().len(),
        ),
{
    let ghost before = records(list@);
    let ghost filter = filter_text(app_filter);
    match host_dir {
        FsNode::Dir { name, children } => {
            let mut i: usize = 0;
            while i < children.len()
                invariant
                    i <= children.len(),
                    host_dir is Dir,
                    host_dir->children == *children,
                    host_dir->Dir_name == *name,
                    filter == filter_text(app_filter),
                    sizes_fit(records_of_host(root@, *host_dir, filter, i as nat)),
                    records(list@) == before + records_of_host(root@, *host_dir, filter, i as nat),
                decreases children.len() - i,
            {
                let ghost earlier = records_of_host(root@, *host_dir, filter, i as nat);
                let ghost next = records_of_host(root@, *host_dir, filter, (i + 1) as nat);
                let child = &children[i];
                let is_dir = match child {
                    FsNode::Dir { .. } => true,
                    _ => false,
                };
                if is_dir && admitted(app_filter, child.name()) {
                    let ghost part = records_of_app(root@, name@, *child, child.entries().len());
                    assert(next == earlier + part);
                    proof {
                        lemma_fits_concat(earlier, part);
                    }
                    let ok = collect_app(root, name.as_str(), child, list);
                    if !ok {
                        proof {
                            if sizes_fit(
                                records_of_host(
                                    root@,
                                    *host_dir,
                                    filter,
                                    host_dir.entries().len(),
                                ),
                            ) {
                                lemma_host_prefix_fits(
                                    root@,
                                    *host_dir,
                                    filter,
                                    (i + 1) as nat,
                                    host_dir.entries().len(),
                                );
                            }
                        }
                        return false;
                    }
                    assert(records(list@) =~= before + next);
                } else {
                    assert(next == earlier);
                }
                i = i + 1;
            }
            true
        },
        _ => true,
    }
}

/// Whether `x` is listed strictly before `y`.
fn precedes(x: &BackupEntry, y: &BackupEntry) -> (r: bool)
    ensures
        r == listed_before(x@, y@),
{
    proof {
        lemma_lex_total(x.host@, y.host@);
        lemma_lex_total(x.app@, y.app@);
        lemma_lex_total(y.timestamp@, x.timestamp@);
    }
    match compare_text(x.host.as_str(), y.host.as_str()) {
        Rank::Before => true,
        Rank::After => false,
        Rank::Same => match compare_text(x.app.as_str(), y.app.as_str()) {
            Rank::Before => true,
            Rank::After => false,
            Rank::Same => match compare_text(y.timestamp.as_str(), x.timestamp.as_str()) {
                Rank::Before => true,
                _ => false,
            },
        },
    }
}

/// The listing order is a strict weak order: it never holds both ways, and
/// whatever is listed before `z` is listed before `y` too unless `y` itself
/// is listed before `z`.
pub proof fn lemma_listing_order(x: EntryRecord, y: EntryRecord, z: EntryRecord)
    ensures
        !(listed_before(x, y) && listed_before(y, x)),
        listed_before(x, z) ==> listed_before(x, y) || listed_before(y, z),
        listed_before(x, y) && listed_before(y, z) ==> listed_before(x, z),
{
    lemma_lex_total(x.host, y.host);
    lemma_lex_total(y.host, z.host);
    lemma_lex_total(x.host, z.host);
    lemma_lex_total(x.app, y.app);
    lemma_lex_total(y.app, z.app);
    lemma_lex_total(x.app, z.app);
    lemma_lex_total(y.timestamp, x.timestamp);
    lemma_lex_total(z.timestamp, y.timestamp);
    lemma_lex_total(z.timestamp, x.timestamp);
    lemma_lex_chain(x.host, y.host, z.host);
    lemma_lex_chain(x.app, y.app, z.app);
    lemma_lex_chain(z.timestamp, y.timestamp, x.timestamp);
}

/// Transitivity of the order of texts, for each way three texts can stand.
proof fn lemma_lex_chain(a: Seq<char>, b: Seq<char>, c: Seq<char>)
    ensures
        lex_lt(a, b) && lex_lt(b, c) ==> lex_lt(a, c),
        lex_lt(a, c) && lex_lt(c, b) ==> lex_lt(a, b),
        lex_lt(b, a) && lex_lt(a, c) ==> lex_lt(b, c),
        lex_lt(b, c) && lex_lt(c, a) ==> lex_lt(b, a),
        lex_lt(c, a) && lex_lt(a, b) ==> lex_lt(c, b),
        lex_lt(c, b) && lex_lt(b, a) ==> lex_lt(c, a),
{
    if lex_lt(a, b) && lex_lt(b, c) {
        lemma_lex_transitive(a, b, c);
    }
    if lex_lt(a, c) && lex_lt(c, b) {
        lemma_lex_transitive(a, c, b);
    }
    if lex_lt(b, a) && lex_lt(a, c) {
        lemma_lex_transitive(b, a, c);
    }
    if lex_lt(b, c) && lex_lt(c, a) {
        lemma_lex_transitive(b, c, a);
    }
    if lex_lt(c, a) && lex_lt(a, b) {
        lemma_lex_transitive(c, a, b);
    }
    if lex_lt(c, b) && lex_lt(b, a) {
        lemma_lex_transitive(c, b, a);
    }
}

proof fn lemma_nothing_listed(s: Seq<EntryRecord>)
    requires
        s.len() == 0,
    ensures
        s.to_multiset() =~= vstd::multiset::Multiset::<EntryRecord>::empty(),
{
    s.to_multiset_ensures();
    vstd::multiset::lemma_multiset_empty_len(s.to_multiset());
}

/// Puts `entry` into a list that is in listing order, before the first
/// entry that is not listed before it.
fn insert_in_order(list: &mut Vec<BackupEntry>, entry: BackupEntry)
    requires
        is_listing_order(records(old(list)@)),
    ensures
        is_listing_order(records(final(list)@)),
        records(final(list)@).to_multiset() == records(old(list)@).to_multiset().insert(entry@),
{
    let ghost before = records(list@);
    let mut at: usize = 0;
    while at < list.len() && precedes(&list[at], &entry)
        invariant
            at <= list.len(),
            records(list@) == before,
            forall|k: int| 0 <= k < at ==> listed_before(#[trigger] before[k], entry@),
        decreases list.len() - at,
    {
        at = at + 1;
    }
    list.insert(at, entry);
    let ghost after = records(list@);
    assert(after =~= before.insert(at as int, entry@));
    proof {
        vstd::seq_lib::to_multiset_insert(before, at as int, entry@);
        assert forall|i: int, j: int| 0 <= i < j < after.len() implies !listed_before(
            #[trigger] after[j],
            #[trigger] after[i],
        ) by {
            if j == at {
                lemma_listing_order(after[i], entry@, entry@);
            } else if i == at {
                if at + 1 < after.len() {
                    let pivot = before[at as int];
                    assert(!listed_before(pivot, entry@));
                    if j > at + 1 {
                        assert(after[j] == before[j - 1]);
                        assert(!listed_before(before[j - 1], before[at as int]));
                    }
                    lemma_listing_order(after[j], pivot, entry@);
                }
            } else {
                let bi = if i < at { i } else { i - 1 };
                let bj = if j < at { j } else { j - 1 };
                assert(after[i] == before[bi]);
                assert(after[j] == before[bj]);
            }
        }
    }
}

/// Every snapshot of the store that the filters admit, in listing order.
///
/// `store` is the scanned directory at the path `root`. Only directories
/// count, at each of the three levels: files, links and special entries are
/// passed over, so a `latest` link is never listed.
pub fn discover(
    root: &str,
    store: &FsNode,
    host_filter: Option<&str>,
    app_filter: Option<&str>,
) -> (r: Result<Vec<BackupEntry>, CatalogError>)
    ensures
        r is Ok <==> sizes_fit(
            found(root@, *store, filter_text(host_filter), filter_text(app_filter)),
        ),
        r matches Ok(list) ==> {
            &&& is_listing_order(records(list@))
            &&& records(list@).to_multiset() == found(
                root@,
                *store,
                filter_text(host_filter),
                filter_text(app_filter),
            ).to_multiset()
        },
        r matches Err(e) ==> e == CatalogError::SizeOverflow,
{
    let ghost hosts = filter_text(host_filter);
    let ghost apps = filter_text(app_filter);
    let mut walk: Vec<BackupEntry> = Vec::new();
    match store {
        FsNode::Dir { children, .. } => {
            let mut i: usize = 0;
            while i < children.len()
                invariant
                    i <= children.len(),
                    store is Dir,
                    store->children == *children,
                    hosts == filter_text(host_filter),
                    apps == filter_text(app_filter),
                    sizes_fit(records_of_store(root@, *store, hosts, apps, i as nat)),
                    records(walk@) == records_of_store(root@, *store, hosts, apps, i as nat),
                decreases children.len() - i,
            {
                let ghost earlier = records_of_store(root@, *store, hosts, apps, i as nat);
                let ghost next = records_of_store(root@, *store, hosts, apps, (i + 1) as nat);
                let child = &children[i];
                let is_dir = match child {
                    FsNode::Dir { .. } => true,
                    _ => false,
                };
                if is_dir && admitted(host_filter, child.name()) {
                    let ghost part = records_of_host(root@, *child, apps, child.entries().len());
                    assert(next == earlier + part);
                    proof {
                        lemma_fits_concat(earlier, part);
                    }
                    let ok = collect_host(root, child, app_filter, &mut walk);
                    if !ok {
                        proof {
                            if sizes_fit(found(root@, *store, hosts, apps)) {
                                lemma_store_prefix_fits(
                                    root@,
                                    *store,
                                    hosts,
                                    apps,
                                    (i + 1) as nat,
                                    store.entries().len(),
                                );
                            }
                        }
                        return Err(CatalogError::SizeOverflow);
                    }
                } else {
                    assert(next == earlier);
                }
                i = i + 1;
            }
        },
        _ => {
            assert(records(walk@) =~= found(root@, *store, hosts, apps));
        },
    }
    let ghost all = records(walk@);
    let mut list: Vec<BackupEntry> = Vec::new();
    proof {
        assert(records(list@) =~= Seq::<EntryRecord>::empty());
        lemma_nothing_listed(records(list@));
    }
    while walk.len() > 0
        invariant
            is_listing_order(records(list@)),
            records(list@).to_multiset().add(records(walk@).to_multiset()) == all.to_multiset(),
        decreases walk.len(),
    {
        let ghost rest = records(walk@);
        let ghost done = records(list@);
        let entry = walk.pop().unwrap();
        proof {
            assert(records(walk@) =~= rest.drop_last());
            assert(rest =~= rest.drop_last().push(entry@));
            vstd::seq_lib::to_multiset_build(rest.drop_last(), entry@);
        }
        insert_in_order(&mut list, entry);
        assert(records(list@).to_multiset().add(records(walk@).to_multiset()) =~= done.to_multiset().add(
            rest.to_multiset(),
        ));
    }
    proof {
        lemma_nothing_listed(records(walk@));
        assert(records(list@).to_multiset() =~= all.to_multiset());
    }
    Ok(list)
}

/// Whether `record` describes one of the directories directly inside the
/// application directory `app_dir`.
pub open spec fn app_holds(
    root: Seq<char>,
    host: Seq<char>,
    app_dir: FsNode,
    record: EntryRecord,
) -> bool {
    exists|t: int|
        0 <= t < app_dir.entries().len() && (#[trigger] app_dir.entries()[t]) is Dir && record
            == snapshot_record(root, host, app_dir.label(), app_dir.entries()[t])
}

/// Whether `record` describes a snapshot directory of an admitted
/// application directory inside the host directory `host_dir`.
pub open spec fn host_holds(
    root: Seq<char>,
    host_dir: FsNode,
    app_filter: Option<Seq<char>>,
    record: EntryRecord,
) -> bool {
    exists|a: int|
        0 <= a < host_dir.entries().len() && (#[trigger] host_dir.entries()[a]) is Dir && admits(
            app_filter,
            host_dir.entries()[a].label(),
        ) && app_holds(root, host_dir.label(), host_dir.entries()[a], record)
}

/// Whether `record` describes a directory at the third level of the store,
/// below directories whose names the filters admit.
pub open spec fn store_holds(
    root: Seq<char>,
    store: FsNode,
    host_filter: Option<Seq<char>>,
    app_filter: Option<Seq<char>>,
    record: EntryRecord,
) -> bool {
    exists|h: int|
        0 <= h < store.entries().len() && (#[trigger] store.entries()[h]) is Dir && admits(
            host_filter,
            store.entries()[h].label(),
        ) && host_holds(root, store.entries()[h], app_filter, record)
}

proof fn lemma_app_records_are_directories(
    root: Seq<char>,
    host: Seq<char>,
    app_dir: FsNode,
    upto: nat,
    i: int,
)
    requires
        0 <= i < records_of_app(root, host, app_dir, upto).len(),
    ensures
        app_holds(root, host, app_dir, records_of_app(root, host, app_dir, upto)[i]),
    decreases upto,
{
    let earlier = records_of_app(root, host, app_dir, (upto - 1) as nat);
    if i < earlier.len() {
        lemma_app_records_are_directories(root, host, app_dir, (upto - 1) as nat, i);
    } else {
        assert(app_dir.entries()[upto - 1] is Dir);
    }
}

proof fn lemma_host_records_are_directories(
    root: Seq<char>,
    host_dir: FsNode,
    app_filter: Option<Seq<char>>,
    upto: nat,
    i: int,
)
    requires
        0 <= i < records_of_host(root, host_dir, app_filter, upto).len(),
    ensures
        host_holds(root, host_dir, app_filter, records_of_host(root, host_dir, app_filter, upto)[i]),
    decreases upto,
{
    let earlier = records_of_host(root, host_dir, app_filter, (upto - 1) as nat);
    if i < earlier.len() {
        lemma_host_records_are_directories(root, host_dir, app_filter, (upto - 1) as nat, i);
    } else {
        let node = host_dir.entries()[upto - 1];
        assert(node is Dir);
        lemma_app_records_are_directories(
            root,
            host_dir.label(),
            node,
            node.entries().len(),
            i - earlier.len(),
        );
    }
}

proof fn lemma_store_records_are_directories(
    root: Seq<char>,
    store: FsNode,
    host_filter: Option<Seq<char>>,
    app_filter: Option<Seq<char>>,
    upto: nat,
    i: int,
)
    requires
        0 <= i < records_of_store(root, store, host_filter, app_filter, upto).len(),
    ensures
        store_holds(
            root,
            store,
            host_filter,
            app_filter,
            records_of_store(root, store, host_filter, app_filter, upto)[i],
        ),
    decreases upto,
{
    let earlier = records_of_store(root, store, host_filter, app_filter, (upto - 1) as nat);
    if i < earlier.len() {
        lemma_store_records_are_directories(
            root,
            store,
            host_filter,
            app_filter,
            (upto - 1) as nat,
            i,
        );
    } else {
        let node = store.entries()[upto - 1];
        assert(node is Dir);
        lemma_host_records_are_directories(
            root,
            node,
            app_filter,
            node.entries().len(),
            i - earlier.len(),
        );
    }
}

proof fn lemma_app_directories_are_found(
    root: Seq<char>,
    host: Seq<char>,
    app_dir: FsNode,
    upto: nat,
    t: int,
)
    requires
        0 <= t < upto <= app_dir.entries().len(),
        app_dir.entries()[t] is Dir,
    ensures
        records_of_app(root, host, app_dir, upto).contains(
            snapshot_record(root, host, app_dir.label(), app_dir.entries()[t]),
        ),
    decreases upto,
{
    let whole = records_of_app(root, host, app_dir, upto);
    let earlier = records_of_app(root, host, app_dir, (upto - 1) as nat);
    let record = snapshot_record(root, host, app_dir.label(), app_dir.entries()[t]);
    if t == upto - 1 {
        assert(whole[whole.len() - 1] == record);
    } else {
        lemma_app_directories_are_found(root, host, app_dir, (upto - 1) as nat, t);
        let k = choose|k: int| 0 <= k < earlier.len() && earlier[k] == record;
        assert(whole[k] == record);
    }
}

proof fn lemma_host_directories_are_found(
    root: Seq<char>,
    host_dir: FsNode,
    app_filter: Option<Seq<char>>,
    upto: nat,
    a: int,
    record: EntryRecord,
)
    requires
        0 <= a < upto <= host_dir.entries().len(),
        host_dir.entries()[a] is Dir,
        admits(app_filter, host_dir.entries()[a].label()),
        app_holds(root, host_dir.label(), host_dir.entries()[a], record),
    ensures
        records_of_host(root, host_dir, app_filter, upto).contains(record),
    decreases upto,
{
    let whole = records_of_host(root, host_dir, app_filter, upto);
    let earlier = records_of_host(root, host_dir, app_filter, (upto - 1) as nat);
    if a == upto - 1 {
        let app_dir = host_dir.entries()[a];
        let t = choose|t: int|
            0 <= t < app_dir.entries().len() && (#[trigger] app_dir.entries()[t]) is Dir && record
                == snapshot_record(root, host_dir.label(), app_dir.label(), app_dir.entries()[t]);
        lemma_app_directories_are_found(
            root,
            host_dir.label(),
            app_dir,
            app_dir.entries().len(),
            t,
        );
        let part = records_of_app(root, host_dir.label(), app_dir, app_dir.entries().len());
        let k = choose|k: int| 0 <= k < part.len() && part[k] == record;
        assert(whole[earlier.len() + k] == record);
    } else {
        lemma_host_directories_are_found(root, host_dir, app_filter, (upto - 1) as nat, a, record);
        let k = choose|k: int| 0 <= k < earlier.len() && earlier[k] == record;
        assert(whole[k] == record);
    }
}

proof fn lemma_store_directories_are_found(
    root: Seq<char>,
    store: FsNode,
    host_filter: Option<Seq<char>>,
    app_filter: Option<Seq<char>>,
    upto: nat,
    h: int,
    record: EntryRecord,
)
    requires
        0 <= h < upto <= store.entries().len(),
        store.entries()[h] is Dir,
        admits(host_filter, store.entries()[h].label()),
        host_holds(root, store.entries()[h], app_filter, record),
    ensures
        records_of_store(root, store, host_filter, app_filter, upto).contains(record),
    decreases upto,
{
    let whole = records_of_store(root, store, host_filter, app_filter, upto);
    let earlier = records_of_store(root, store, host_filter, app_filter, (upto - 1) as nat);
    if h == upto - 1 {
        let host_dir = store.entries()[h];
        let a = choose|a: int|
            0 <= a < host_dir.entries().len() && (#[trigger] host_dir.entries()[a]) is Dir
                && admits(app_filter, host_dir.entries()[a].label()) && app_holds(
                root,
                host_dir.label(),
                host_dir.entries()[a],
                record,
            );
        lemma_host_directories_are_found(
            root,
            host_dir,
            app_filter,
            host_dir.entries().len(),
            a,
            record,
        );
        let part = records_of_host(root, host_dir, app_filter, host_dir.entries().len());
        let k = choose|k: int| 0 <= k < part.len() && part[k] == record;
        assert(whole[earlier.len() + k] == record);
    } else {
        lemma_store_directories_are_found(
            root,
            store,
            host_filter,
            app_filter,
            (upto - 1) as nat,
            h,
            record,
        );
        let k = choose|k: int| 0 <= k < earlier.len() && earlier[k] == record;
        assert(whole[k] == record);
    }
}

/// Every directory of the store three levels down, below directories whose
/// names the filters admit, is in every listing of the store: no snapshot
/// is left out.
pub proof fn lemma_directories_are_listed(
    root: Seq<char>,
    store: FsNode,
    host_filter: Option<Seq<char>>,
    app_filter: Option<Seq<char>>,
    listing: Seq<EntryRecord>,
    record: EntryRecord,
)
    requires
        listing.to_multiset() == found(root, store, host_filter, app_filter).to_multiset(),
        store_holds(root, store, host_filter, app_filter, record),
    ensures
        listing.contains(record),
{
    let all = found(root, store, host_filter, app_filter);
    let h = choose|h: int|
        0 <= h < store.entries().len() && (#[trigger] store.entries()[h]) is Dir && admits(
            host_filter,
            store.entries()[h].label(),
        ) && host_holds(root, store.entries()[h], app_filter, record);
    lemma_store_directories_are_found(
        root,
        store,
        host_filter,
        app_filter,
        store.entries().len(),
        h,
        record,
    );
    listing.to_multiset_ensures();
    all.to_multiset_ensures();
    assert(all.to_multiset().count(record) > 0);
    assert(listing.to_multiset().count(record) > 0);
}

/// Whatever a listing of the store holds is a directory of the store, three
/// levels down: never a link, a file or a special entry.
///
/// `listing` is any arrangement of the snapshots found, such as the one
/// that `discover` returns.
pub proof fn lemma_listed_are_directories(
    root: Seq<char>,
    store: FsNode,
    host_filter: Option<Seq<char>>,
    app_filter: Option<Seq<char>>,
    listing: Seq<EntryRecord>,
    i: int,
)
    requires
        listing.to_multiset() == found(root, store, host_filter, app_filter).to_multiset(),
        0 <= i < listing.len(),
    ensures
        store_holds(root, store, host_filter, app_filter, listing[i]),
{
    let all = found(root, store, host_filter, app_filter);
    listing.to_multiset_ensures();
    all.to_multiset_ensures();
    assert(listing.contains(listing[i]));
    assert(listing.to_multiset().count(listing[i]) > 0);
    assert(all.to_multiset().count(listing[i]) > 0);
    assert(all.contains(listing[i]));
    let k = choose|k: int| 0 <= k < all.len() && all[k] == listing[i];
    lemma_store_records_are_directories(
        root,
        store,
        host_filter,
        app_filter,
        store.entries().len(),
        k,
    );
}

/// Whether no two of `nodes` carry the same name, as the entries of one
/// directory on a disk do not.
pub open spec fn names_differ(nodes: Seq<FsNode>) -> bool {
    forall|i: int, j: int|
        0 <= i < j < nodes.len() ==> (#[trigger] nodes[i]).label() != (#[trigger] nodes[j]).label()
}

/// Whether neither a host's directory nor any directory inside it holds a
/// name twice.
pub open spec fn host_names_differ(host_dir: FsNode) -> bool {
    &&& names_differ(host_dir.entries())
    &&& forall|a: int|
        0 <= a < host_dir.entries().len() ==> names_differ(
            (#[trigger] host_dir.entries()[a]).entries(),
        )
}

/// Whether the store is as a disk holds it, down to the snapshots: no
/// directory holds a name twice.
pub open spec fn store_names_differ(store: FsNode) -> bool {
    &&& names_differ(store.entries())
    &&& forall|h: int|
        0 <= h < store.entries().len() ==> host_names_differ(#[trigger] store.entries()[h])
}

/// Whether two records speak of the same snapshot: of the same moment of
/// the same application on the same host.
pub open spec fn same_snapshot(x: EntryRecord, y: EntryRecord) -> bool {
    x.host == y.host && x.app == y.app && x.timestamp == y.timestamp
}

proof fn lemma_app_record_source(
    root: Seq<char>,
    host: Seq<char>,
    app_dir: FsNode,
    upto: nat,
    i: int,
) -> (t: int)
    requires
        upto <= app_dir.entries().len(),
        0 <= i < records_of_app(root, host, app_dir, upto).len(),
    ensures
        0 <= t < upto,
        records_of_app(root, host, app_dir, upto)[i] == snapshot_record(
            root,
            host,
            app_dir.label(),
            app_dir.entries()[t],
        ),
    decreases upto,
{
    let earlier = records_of_app(root, host, app_dir, (upto - 1) as nat);
    if i < earlier.len() {
        lemma_app_record_source(root, host, app_dir, (upto - 1) as nat, i)
    } else {
        upto - 1
    }
}

proof fn lemma_app_records_differ(
    root: Seq<char>,
    host: Seq<char>,
    app_dir: FsNode,
    upto: nat,
    i: int,
    j: int,
)
    requires
        names_differ(app_dir.entries()),
        upto <= app_dir.entries().len(),
        0 <= i < j < records_of_app(root, host, app_dir, upto).len(),
    ensures
        !same_snapshot(
            records_of_app(root, host, app_dir, upto)[i],
            records_of_app(root, host, app_dir, upto)[j],
        ),
    decreases upto,
{
    let earlier = records_of_app(root, host, app_dir, (upto - 1) as nat);
    if j < earlier.len() {
        lemma_app_records_differ(root, host, app_dir, (upto - 1) as nat, i, j);
    } else {
        let t = lemma_app_record_source(root, host, app_dir, (upto - 1) as nat, i);
        assert(app_dir.entries()[t].label() != app_dir.entries()[upto - 1].label());
    }
}

proof fn lemma_host_record_source(
    root: Seq<char>,
    host_dir: FsNode,
    app_filter: Option<Seq<char>>,
    upto: nat,
    i: int,
) -> (a: int)
    requires
        upto <= host_dir.entries().len(),
        0 <= i < records_of_host(root, host_dir, app_filter, upto).len(),
    ensures
        0 <= a < upto,
        records_of_host(root, host_dir, app_filter, upto)[i].host == host_dir.label(),
        records_of_host(root, host_dir, app_filter, upto)[i].app == host_dir.entries()[a].label(),
    decreases upto,
{
    let earlier = records_of_host(root, host_dir, app_filter, (upto - 1) as nat);
    if i < earlier.len() {
        lemma_host_record_source(root, host_dir, app_filter, (upto - 1) as nat, i)
    } else {
        let node = host_dir.entries()[upto - 1];
        lemma_app_record_source(
            root,
            host_dir.label(),
            node,
            node.entries().len(),
            i - earlier.len(),
        );
        upto - 1
    }
}

proof fn lemma_host_records_differ(
    root: Seq<char>,
    host_dir: FsNode,
    app_filter: Option<Seq<char>>,
    upto: nat,
    i: int,
    j: int,
)
    requires
        host_names_differ(host_dir),
        upto <= host_dir.entries().len(),
        0 <= i < j < records_of_host(root, host_dir, app_filter, upto).len(),
    ensures
        !same_snapshot(
            records_of_host(root, host_dir, app_filter, upto)[i],
            records_of_host(root, host_dir, app_filter, upto)[j],
        ),
    decreases upto,
{
    let earlier = records_of_host(root, host_dir, app_filter, (upto - 1) as nat);
    if j < earlier.len() {
        lemma_host_records_differ(root, host_dir, app_filter, (upto - 1) as nat, i, j);
    } else {
        let node = host_dir.entries()[upto - 1];
        let count = node.entries().len();
        if i < earlier.len() {
            let a = lemma_host_record_source(root, host_dir, app_filter, (upto - 1) as nat, i);
            lemma_app_record_source(root, host_dir.label(), node, count, j - earlier.len());
            assert(host_dir.entries()[a].label() != host_dir.entries()[upto - 1].label());
        } else {
            lemma_app_records_differ(
                root,
                host_dir.label(),
                node,
                count,
                i - earlier.len(),
                j - earlier.len(),
            );
        }
    }
}

proof fn lemma_store_record_source(
    root: Seq<char>,
    store: FsNode,
    host_filter: Option<Seq<char>>,
    app_filter: Option<Seq<char>>,
    upto: nat,
    i: int,
) -> (h: int)
    requires
        upto <= store.entries().len(),
        0 <= i < records_of_store(root, store, host_filter, app_filter, upto).len(),
    ensures
        0 <= h < upto,
        records_of_store(root, store, host_filter, app_filter, upto)[i].host
            == store.entries()[h].label(),
    decreases upto,
{
    let earlier = records_of_store(root, store, host_filter, app_filter, (upto - 1) as nat);
    if i < earlier.len() {
        lemma_store_record_source(root, store, host_filter, app_filter, (upto - 1) as nat, i)
    } else {
        let node = store.entries()[upto - 1];
        lemma_host_record_source(root, node, app_filter, node.entries().len(), i - earlier.len());
        upto - 1
    }
}

proof fn lemma_store_records_differ(
    root: Seq<char>,
    store: FsNode,
    host_filter: Option<Seq<char>>,
    app_filter: Option<Seq<char>>,
    upto: nat,
    i: int,
    j: int,
)
    requires
        store_names_differ(store),
        upto <= store.entries().len(),
        0 <= i < j < records_of_store(root, store, host_filter, app_filter, upto).len(),
    ensures
        !same_snapshot(
            records_of_store(root, store, host_filter, app_filter, upto)[i],
            records_of_store(root, store, host_filter, app_filter, upto)[j],
        ),
    decreases upto,
{
    let earlier = records_of_store(root, store, host_filter, app_filter, (upto - 1) as nat);
    if j < earlier.len() {
        lemma_store_records_differ(root, store, host_filter, app_filter, (upto - 1) as nat, i, j);
    } else {
        let node = store.entries()[upto - 1];
        let count = node.entries().len();
        assert(host_names_differ(node));
        if i < earlier.len() {
            let h = lemma_store_record_source(
                root,
                store,
                host_filter,
                app_filter,
                (upto - 1) as nat,
                i,
            );
            lemma_host_record_source(root, node, app_filter, count, j - earlier.len());
            assert(store.entries()[h].label() != store.entries()[upto - 1].label());
        } else {
            lemma_host_records_differ(
                root,
                node,
                app_filter,
                count,
                i - earlier.len(),
                j - earlier.len(),
            );
        }
    }
}

/// Where no directory of the store holds a name twice, no snapshot is
/// listed twice, and the listing order is strict: of two entries of a
/// listing in that order, the first is listed before the second. For one
/// application of one host the timestamps then only fall.
///
/// `listing` is any arrangement of the snapshots found in the listing
/// order, such as the one that `discover` returns.
pub proof fn lemma_listing_is_strict(
    root: Seq<char>,
    store: FsNode,
    host_filter: Option<Seq<char>>,
    app_filter: Option<Seq<char>>,
    listing: Seq<EntryRecord>,
    i: int,
    j: int,
)
    requires
        store_names_differ(store),
        listing.to_multiset() == found(root, store, host_filter, app_filter).to_multiset(),
        is_listing_order(listing),
        0 <= i < j < listing.len(),
    ensures
        !same_snapshot(listing[i], listing[j]),
        listed_before(listing[i], listing[j]),
        listing[i].host == listing[j].host && listing[i].app == listing[j].app ==> lex_lt(
            listing[j].timestamp,
            listing[i].timestamp,
        ),
{
    let all = found(root, store, host_filter, app_filter);
    let count = store.entries().len();
    assert forall|a: int, b: int| 0 <= a < all.len() && 0 <= b < all.len() && a != b implies all[a]
        != all[b] by {
        if a < b {
            lemma_store_records_differ(root, store, host_filter, app_filter, count, a, b);
        } else {
            lemma_store_records_differ(root, store, host_filter, app_filter, count, b, a);
        }
    }
    assert(all.no_duplicates());
    all.lemma_multiset_has_no_duplicates();
    listing.lemma_multiset_has_no_duplicates_conv();
    assert(listing[i] != listing[j]);
    listing.to_multiset_ensures();
    all.to_multiset_ensures();
    assert(listing.contains(listing[i]));
    assert(listing.contains(listing[j]));
    assert(listing.to_multiset().count(listing[i]) > 0);
    assert(listing.to_multiset().count(listing[j]) > 0);
    assert(all.contains(listing[i]));
    assert(all.contains(listing[j]));
    let a = choose|a: int| 0 <= a < all.len() && all[a] == listing[i];
    let b = choose|b: int| 0 <= b < all.len() && all[b] == listing[j];
    if a < b {
        lemma_store_records_differ(root, store, host_filter, app_filter, count, a, b);
    } else {
        lemma_store_records_differ(root, store, host_filter, app_filter, count, b, a);
    }
    let x = listing[i];
    let y = listing[j];
    assert(!listed_before(y, x));
    lemma_lex_total(x.host, y.host);
    lemma_lex_total(x.app, y.app);
    lemma_lex_total(x.timestamp, y.timestamp);
}

} // verus!
