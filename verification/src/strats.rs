//! Strategy list state kept in sync with the core: strategy rows, decoded
//! snapshots, the folder tree and locally submitted edits.

use crate::state::MoonTime;
use std::sync::Arc;
use vstd::prelude::*;

verus! {

/// One decoded strategy: its identity, revision, checked state, folder and
/// its named field values as carried on the wire.
#[derive(Debug, Clone)]
pub struct StrategySnapshot {
    /// Server strategy identifier.
    pub strategy_id: u64,
    /// Strategy version from the serialized strategy header.
    pub strategy_ver: i32,
    /// Unix epoch milliseconds of the last edit.
    pub last_date: u64,
    /// Checked (started) state.
    pub checked: bool,
    /// Folder path in the strategy tree.
    pub path: String,
    /// Named field values, each as its wire bytes, in wire order.
    pub fields: Vec<(String, Vec<u8>)>,
}

/// A decoded strategy batch: the strategies and the folder paths it carries.
#[derive(Debug, Clone)]
pub struct StrategyBatch {
    pub strategies: Vec<StrategySnapshot>,
    pub paths: Vec<String>,
}

/// Checked state of one strategy as synchronized with the core.
#[derive(Debug, Clone, Copy, PartialEq, Eq, Structural)]
pub struct StratCheckedItem {
    pub strategy_id: u64,
    pub checked: bool,
}

/// State of a strategy field edit submitted to the core.
#[derive(Debug, Clone, Copy, PartialEq, Eq, Structural)]
pub enum StrategyEditStatus {
    /// The edit was sent and no matching core snapshot has arrived yet.
    Pending,
    /// No matching core snapshot arrived within the confirmation window.
    ///
    /// This is not a rejection: the core may have applied the edit while its
    /// echo was lost. A later matching snapshot still confirms the edit.
    TimedOut,
}

/// One locally submitted strategy edit waiting for core confirmation.
#[derive(Debug, Clone)]
pub struct StrategyEdit {
    desired: Arc<StrategySnapshot>,
    submitted_at: MoonTime,
    status: StrategyEditStatus,
    /// Monotonic milliseconds after which the edit times out.
    pub(crate) deadline_ms: u64,
}

impl StrategyEdit {
    /// A pending edit of `desired`, submitted at `submitted_at`.
    pub fn new(desired: Arc<StrategySnapshot>, submitted_at: MoonTime, deadline_ms: u64) -> (r: Self)
        ensures
            *r.desired_spec() == *desired,
            r.submitted_at_spec() == submitted_at,
            r.status_spec() == StrategyEditStatus::Pending,
            r.deadline_spec() == deadline_ms,
    {
        StrategyEdit { desired, submitted_at, status: StrategyEditStatus::Pending, deadline_ms }
    }

    /// Monotonic milliseconds after which the edit times out.
    pub closed spec fn deadline_spec(&self) -> u64 {
        self.deadline_ms
    }

    /// The submitted snapshot.
    pub closed spec fn desired_spec(&self) -> Arc<StrategySnapshot> {
        self.desired
    }

    /// The submission time.
    pub closed spec fn submitted_at_spec(&self) -> MoonTime {
        self.submitted_at
    }

    /// The confirmation state.
    pub closed spec fn status_spec(&self) -> StrategyEditStatus {
        self.status
    }

    /// Exact strategy snapshot submitted by the application.
    pub fn desired(&self) -> (r: &StrategySnapshot)
        ensures
            *r == *self.desired_spec(),
    {
        &self.desired
    }

    /// Local time at which the runtime submitted this edit.
    pub fn submitted_at(&self) -> (r: MoonTime)
        ensures
            r == self.submitted_at_spec(),
    {
        self.submitted_at
    }

    /// Whether the edit is still pending or has timed out.
    pub fn status(&self) -> (r: StrategyEditStatus)
        ensures
            r == self.status_spec(),
    {
        self.status
    }

    /// Record that no matching snapshot arrived in time.
    pub fn mark_timed_out(&mut self)
        ensures
            final(self).status_spec() == StrategyEditStatus::TimedOut,
            final(self).desired_spec() == old(self).desired_spec(),
            final(self).submitted_at_spec() == old(self).submitted_at_spec(),
            final(self).deadline_spec() == old(self).deadline_spec(),
    {
        self.status = StrategyEditStatus::TimedOut;
    }
}

/// Strategy-level events of the active session.
#[derive(Debug, Clone)]
pub enum StratEvent {
    /// Full snapshot (`Full=true`) was decoded and applied.
    SnapshotFull {
        server_epoch: u64,
        /// Compressed snapshot payload length.
        raw_len: usize,
    },
    /// Partial snapshot (`Full=false`) was decoded and applied.
    SnapshotPartial {
        server_epoch: u64,
        /// Compressed snapshot payload length.
        raw_len: usize,
    },
    /// Local field edits were serialized and submitted to the core.
    EditSubmitted { strategy_ids: Vec<u64> },
    /// The core echoed these exact strategy revisions and fields after applying them.
    EditConfirmed { strategy_ids: Vec<u64> },
    /// The core accepted these revisions but returned different canonical fields.
    EditAdjusted { strategy_ids: Vec<u64> },
    /// The core retained newer revisions instead of these local edits.
    EditSuperseded { strategy_ids: Vec<u64> },
    /// No matching core snapshot arrived within the confirmation window.
    EditTimedOut { strategy_ids: Vec<u64> },
    /// Result of a strategy/folder delete command, emitted only when at least
    /// one part changed state.
    Deleted {
        strategy_id: u64,
        folder_path: String,
        strategy_deleted: bool,
        folder_deleted: bool,
    },
    /// Checked flags were synchronized, either by full replace or by delta.
    CheckedSynced { changed: usize, is_delta: bool },
    /// Server echo for a checked-state sync sent by this client.
    CheckedEcho { count: usize },
    /// Strategy schema was received and parsed.
    SchemaApplied { raw_len: usize, format_version: u8, kind_count: usize, field_count: usize },
    /// Server sent a strategy schema, but the compressed body parse failed.
    SchemaParseFailed { raw_len: usize },
    /// Server reported whether the global strategy engine is currently running.
    RuntimeState { strategies_running: bool },
}

impl StratEvent {
    /// Server epoch for full/partial strategy snapshots.
    pub fn snapshot_server_epoch(&self) -> (r: Option<u64>)
        ensures
            r == (match *self {
                StratEvent::SnapshotFull { server_epoch, .. } => Some(server_epoch),
                StratEvent::SnapshotPartial { server_epoch, .. } => Some(server_epoch),
                _ => None,
            }),
    {
        match self {
            StratEvent::SnapshotFull { server_epoch, .. } => Some(*server_epoch),
            StratEvent::SnapshotPartial { server_epoch, .. } => Some(*server_epoch),
            _ => None,
        }
    }

    /// Raw snapshot or schema payload length, without touching the bytes.
    pub fn snapshot_raw_len(&self) -> (r: Option<usize>)
        ensures
            r == (match *self {
                StratEvent::SnapshotFull { raw_len, .. } => Some(raw_len),
                StratEvent::SnapshotPartial { raw_len, .. } => Some(raw_len),
                StratEvent::SchemaApplied { raw_len, .. } => Some(raw_len),
                StratEvent::SchemaParseFailed { raw_len } => Some(raw_len),
                _ => None,
            }),
    {
        match self {
            StratEvent::SnapshotFull { raw_len, .. } => Some(*raw_len),
            StratEvent::SnapshotPartial { raw_len, .. } => Some(*raw_len),
            StratEvent::SchemaApplied { raw_len, .. } => Some(*raw_len),
            StratEvent::SchemaParseFailed { raw_len } => Some(*raw_len),
            _ => None,
        }
    }
}

/// Whether two snapshots carry the same revision.
pub open spec fn same_revision_spec(l: StrategySnapshot, r: StrategySnapshot) -> bool {
    l.last_date == r.last_date && l.strategy_ver == r.strategy_ver
}

/// Whether `l` is at least as new as `r` in both date and version.
pub open spec fn revision_dominates_spec(l: StrategySnapshot, r: StrategySnapshot) -> bool {
    l.last_date >= r.last_date && l.strategy_ver >= r.strategy_ver
}

/// Whether two snapshots carry the same revision.
pub fn same_revision(left: &StrategySnapshot, right: &StrategySnapshot) -> (r: bool)
    ensures
        r == same_revision_spec(*left, *right),
{
    left.last_date == right.last_date && left.strategy_ver == right.strategy_ver
}

/// Whether `left` is at least as new as `right` in both date and version.
pub fn revision_dominates(left: &StrategySnapshot, right: &StrategySnapshot) -> (r: bool)
    ensures
        r == revision_dominates_spec(*left, *right),
{
    left.last_date >= right.last_date && left.strategy_ver >= right.strategy_ver
}

/// Whether `left` dominates `right` and is a different revision.
pub fn revision_strictly_dominates(left: &StrategySnapshot, right: &StrategySnapshot) -> (r: bool)
    ensures
        r == (revision_dominates_spec(*left, *right) && !same_revision_spec(*left, *right)),
{
    revision_dominates(left, right) && !same_revision(left, right)
}

/// What `str::to_lowercase` gives for a text: its Unicode lower case.
pub uninterp spec fn lowercase(s: Seq<char>) -> Seq<char>;

/// `str::to_lowercase`, the folder key of a path; the result is named, not stated.
#[verifier::external_body]
fn to_lowercase(s: &str) -> (r: String)
    ensures
        r@ == lowercase(s@),
{
    s.to_lowercase()
}

/// The texts of the folder table: lower-case key and path as first seen.
pub open spec fn folder_pairs(v: Seq<(String, String)>) -> Seq<(Seq<char>, Seq<char>)> {
    Seq::new(v.len(), |i: int| (v[i].0@, v[i].1@))
}

/// Whether the folder table has the key `k`.
pub open spec fn has_key(v: Seq<(Seq<char>, Seq<char>)>, k: Seq<char>) -> bool {
    exists|i: int| 0 <= i < v.len() && #[trigger] v[i].0 == k
}

/// Whether no two folder rows share a key.
pub open spec fn keys_unique(v: Seq<(Seq<char>, Seq<char>)>) -> bool {
    forall|i: int, j: int| 0 <= i < v.len() && 0 <= j < v.len() && i != j ==> v[i].0 != v[j].0
}

/// The table with the folder `path` added under its key, unless the key is there.
pub open spec fn put_folder(v: Seq<(Seq<char>, Seq<char>)>, path: Seq<char>) -> Seq<
    (Seq<char>, Seq<char>),
> {
    if has_key(v, lowercase(path)) {
        v
    } else {
        v.push((lowercase(path), path))
    }
}

/// The table with the folders `ps` added in order.
pub open spec fn put_folders(v: Seq<(Seq<char>, Seq<char>)>, ps: Seq<Seq<char>>) -> Seq<
    (Seq<char>, Seq<char>),
>
    decreases ps.len(),
{
    if ps.len() == 0 {
        v
    } else {
        put_folder(put_folders(v, ps.drop_last()), ps.last())
    }
}

/// Splitting a path at `/` from the left: the folder built so far, and the
/// folders completed before it. A `/` is kept only after a nonempty folder.
pub open spec fn scan_path(path: Seq<char>) -> (Seq<char>, Seq<Seq<char>>)
    decreases path.len(),
{
    if path.len() == 0 {
        (Seq::empty(), Seq::empty())
    } else {
        let st = scan_path(path.drop_last());
        let c = path.last();
        if c == '/' {
            (if st.0.len() > 0 {
                st.0.push('/')
            } else {
                st.0
            }, st.1.push(st.0))
        } else {
            (st.0.push(c), st.1)
        }
    }
}

/// The folders on the way to `path`, from the top one down to `path` itself.
pub open spec fn folder_prefixes(path: Seq<char>) -> Seq<Seq<char>> {
    scan_path(path).1.push(scan_path(path).0)
}

/// The row of `key` in the folder table.
fn find_folder(folders: &Vec<(String, String)>, key: &String) -> (r: Option<usize>)
    ensures
        match r {
            Some(i) => i < folders@.len() && folders@[i as int].0@ == key@,
            None => !has_key(folder_pairs(folders@), key@),
        },
{
    let mut i: usize = 0;
    while i < folders.len()
        invariant
            0 <= i <= folders@.len(),
            forall|k: int| 0 <= k < i ==> folders@[k].0@ != key@,
        decreases folders@.len() - i,
    {
        if folders[i].0 == *key {
            return Some(i);
        }
        i = i + 1;
    }
    proof {
        let v = folder_pairs(folders@);
        assert forall|k: int| 0 <= k < v.len() implies #[trigger] v[k].0 != key@ by {
            assert(v[k].0 == folders@[k].0@);
        }
    }
    None
}

/// Add one folder under its key unless the key is there.
fn put_folder_exec(folders: &mut Vec<(String, String)>, path: String)
    requires
        keys_unique(folder_pairs(old(folders)@)),
    ensures
        folder_pairs(final(folders)@) == put_folder(folder_pairs(old(folders)@), path@),
        keys_unique(folder_pairs(final(folders)@)),
{
    let key = to_lowercase(path.as_str());
    match find_folder(folders, &key) {
        Some(i) => {
            proof {
                let v = folder_pairs(folders@);
                assert(v[i as int].0 == lowercase(path@));
            }
        },
        None => {
            let ghost before = folder_pairs(folders@);
            folders.push((key, path));
            proof {
                assert(folder_pairs(folders@) =~= before.push((lowercase(path@), path@)));
                let v = folder_pairs(folders@);
                assert forall|i: int, j: int|
                    0 <= i < v.len() && 0 <= j < v.len() && i != j implies v[i].0 != v[j].0 by {
                    if i < before.len() && j < before.len() {
                        assert(v[i] == before[i] && v[j] == before[j]);
                    } else if i == before.len() {
                        assert(v[j] == before[j]);
                    } else {
                        assert(v[i] == before[i]);
                    }
                }
            }
        },
    }
}

/// Add a folder path and every folder on the way to it, each under its
/// lower-case key unless the key is there. Does nothing and gives `false`
/// for an empty path or one whose own key is already there.
pub fn add_folder_path(folders: &mut Vec<(String, String)>, path: &str) -> (r: bool)
    requires
        keys_unique(folder_pairs(old(folders)@)),
    ensures
        keys_unique(folder_pairs(final(folders)@)),
        r == (path@.len() > 0 && !has_key(folder_pairs(old(folders)@), lowercase(path@))),
        r ==> folder_pairs(final(folders)@) == put_folders(folder_pairs(old(folders)@), folder_prefixes(path@)),
        !r ==> final(folders)@ == old(folders)@,
{
    if path.is_empty() {
        return false;
    }
    let key = to_lowercase(path);
    match find_folder(folders, &key) {
        Some(i) => {
            proof {
                assert(folder_pairs(folders@)[i as int].0 == key@);
            }
            return false;
        },
        None => {},
    }
    let ghost text = path@;
    let ghost start = folder_pairs(folders@);
    let mut current = String::new();
    let mut current_len: usize = 0;
    for c in it: path.chars()
        invariant
            it.seq() == text,
            current@ == scan_path(text.take(it.index() as int)).0,
            (current_len == 0) == (current@.len() == 0),
            folder_pairs(folders@) == put_folders(start, scan_path(text.take(it.index() as int)).1),
            keys_unique(folder_pairs(folders@)),
    {
        let ghost n = it.index();
        proof {
            assert(text.take(n + 1).drop_last() =~= text.take(n as int));
            assert(text.take(n + 1).last() == c);
        }
        if c == '/' {
            let done = current.clone();
            put_folder_exec(folders, done);
            proof {
                let st = scan_path(text.take(n as int));
                assert(st.1.push(st.0).drop_last() =~= st.1);
            }
            if current_len > 0 {
                current.push('/');
                current_len = 1;
            }
        } else {
            current.push(c);
            current_len = 1;
        }
    }
    proof {
        assert(text.take(text.len() as int) =~= text);
        let st = scan_path(text);
        assert(st.1.push(st.0).drop_last() =~= st.1);
    }
    put_folder_exec(folders, current);
    true
}

/// The characters of a text, one by one.
fn chars_of(s: &str) -> (r: Vec<char>)
    ensures
        r@ == s@,
{
    let mut out: Vec<char> = Vec::new();
    for c in it: s.chars()
        invariant
            it.seq() == s@,
            out@ == s@.take(it.index() as int),
    {
        proof {
            assert(s@.take(it.index() + 1) =~= s@.take(it.index() as int).push(c));
        }
        out.push(c);
    }
    proof {
        assert(s@.take(s@.len() as int) =~= s@);
    }
    out
}

/// Whether folder key `candidate` is `folder` itself or lies below it.
pub open spec fn same_or_child(candidate: Seq<char>, folder: Seq<char>) -> bool {
    candidate == folder || (candidate.len() > folder.len() && candidate.take(folder.len() as int)
        == folder && candidate[folder.len() as int] == '/')
}

/// The folder table without `key` and the folders below it, in order.
pub open spec fn drop_folder(t: Seq<(Seq<char>, Seq<char>)>, key: Seq<char>) -> Seq<
    (Seq<char>, Seq<char>),
>
    decreases t.len(),
{
    if t.len() == 0 {
        t
    } else if same_or_child(t.last().0, key) {
        drop_folder(t.drop_last(), key)
    } else {
        drop_folder(t.drop_last(), key).push(t.last())
    }
}

/// Whether some row lies in the folder `key` or below it.
pub open spec fn rows_in_folder(v: Seq<RowView>, key: Seq<char>) -> bool {
    exists|i: int| 0 <= i < v.len() && same_or_child(lowercase(#[trigger] v[i].5), key)
}

/// Whether the folder `path` can be deleted: it is there and holds no strategy.
pub open spec fn folder_deletable(
    t: Seq<(Seq<char>, Seq<char>)>,
    v: Seq<RowView>,
    path: Seq<char>,
) -> bool {
    path.len() > 0 && has_key(t, lowercase(path)) && !rows_in_folder(v, lowercase(path))
}

/// The folder table without `key` and the folders below it.
fn drop_folder_exec(folders: &mut Vec<(String, String)>, key: &str)
    requires
        keys_unique(folder_pairs(old(folders)@)),
    ensures
        folder_pairs(final(folders)@) == drop_folder(folder_pairs(old(folders)@), key@),
        keys_unique(folder_pairs(final(folders)@)),
{
    let ghost t = folder_pairs(folders@);
    let mut kept: Vec<(String, String)> = Vec::new();
    let ghost mut idx: Seq<int> = Seq::empty();
    let mut i: usize = 0;
    while i < folders.len()
        invariant
            0 <= i <= folders@.len(),
            t == folder_pairs(folders@),
            keys_unique(t),
            folder_pairs(kept@) == drop_folder(t.take(i as int), key@),
            idx.len() == kept@.len(),
            forall|j: int| 0 <= j < idx.len() ==> 0 <= #[trigger] idx[j] < i,
            forall|j: int| 0 <= j < idx.len() ==> folder_pairs(kept@)[j] == t[#[trigger] idx[j]],
            keys_unique(folder_pairs(kept@)),
        decreases folders@.len() - i,
    {
        proof {
            assert(t.take(i + 1).drop_last() =~= t.take(i as int));
            assert(t.take(i + 1).last() == t[i as int]);
        }
        let under = StratsState::is_same_or_child_folder(folders[i].0.as_str(), key);
        if !under {
            let ghost before = folder_pairs(kept@);
            kept.push((folders[i].0.clone(), folders[i].1.clone()));
            proof {
                idx = idx.push(i as int);
                let after = folder_pairs(kept@);
                assert(after =~= before.push(t[i as int]));
                assert forall|a: int, b: int|
                    0 <= a < after.len() && 0 <= b < after.len() && a != b implies after[a].0
                    != after[b].0 by {
                    if a < before.len() && b < before.len() {
                        assert(after[a] == before[a] && after[b] == before[b]);
                    } else if a < before.len() {
                        assert(after[a] == t[idx[a]]);
                    } else {
                        assert(after[b] == t[idx[b]]);
                    }
                }
                assert forall|j: int| 0 <= j < idx.len() implies folder_pairs(kept@)[j] == t[#[trigger] idx[j]] by {
                    if j < before.len() {
                        assert(after[j] == before[j]);
                    }
                }
            }
        }
        i = i + 1;
    }
    proof {
        assert(t.take(folders@.len() as int) =~= t);
    }
    *folders = kept;
}

/// A path that starts with a folder name is its own last folder prefix.
pub proof fn lemma_scan_path_keeps(path: Seq<char>)
    requires
        path.len() > 0,
        path[0] != '/',
    ensures
        scan_path(path).0 == path,
    decreases path.len(),
{
    let q = path.drop_last();
    assert(path =~= q.push(path.last()));
    if path.len() > 1 {
        assert(q[0] == path[0]);
        lemma_scan_path_keeps(q);
        assert(scan_path(q).0.len() > 0);
    } else {
        assert(q.len() == 0);
        assert(scan_path(q).0 =~= Seq::<char>::empty());
        assert(path.last() == path[0]);
    }
}

/// Adding folders keeps every key the table had.
pub proof fn lemma_put_folders_keeps(v: Seq<(Seq<char>, Seq<char>)>, ps: Seq<Seq<char>>, k: Seq<char>)
    requires
        has_key(v, k),
    ensures
        has_key(put_folders(v, ps), k),
    decreases ps.len(),
{
    if ps.len() > 0 {
        lemma_put_folders_keeps(v, ps.drop_last(), k);
        let w = put_folders(v, ps.drop_last());
        let i = choose|i: int| 0 <= i < w.len() && w[i].0 == k;
        if !has_key(w, lowercase(ps.last())) {
            assert(w.push((lowercase(ps.last()), ps.last()))[i].0 == k);
        }
    }
}

/// Creating a folder path that starts with a folder name registers the path
/// under its key, and keeps every folder that was there.
pub proof fn law_create_folders_registers_path(t: Seq<(Seq<char>, Seq<char>)>, path: Seq<char>, k: Seq<char>)
    requires
        path.len() > 0,
        path[0] != '/',
    ensures
        has_key(with_folders_of(t, path), lowercase(path)),
        has_key(t, k) ==> has_key(with_folders_of(t, path), k),
{
    if !has_key(t, lowercase(path)) {
        lemma_scan_path_keeps(path);
        let ps = folder_prefixes(path);
        assert(ps.last() == path);
        assert(ps.drop_last() =~= scan_path(path).1);
        let w = put_folders(t, ps.drop_last());
        if !has_key(w, lowercase(path)) {
            assert(w.push((lowercase(path), path))[w.len() as int].0 == lowercase(path));
        }
        if has_key(t, k) {
            lemma_put_folders_keeps(t, ps, k);
        }
    }
}

/// Dropping a folder leaves no folder at or below it, and keeps every other folder.
pub proof fn law_drop_folder(t: Seq<(Seq<char>, Seq<char>)>, key: Seq<char>)
    ensures
        forall|i: int| 0 <= i < drop_folder(t, key).len() ==> !same_or_child(#[trigger] drop_folder(t, key)[i].0, key),
        forall|i: int| 0 <= i < t.len() && !same_or_child(#[trigger] t[i].0, key) ==> has_key(drop_folder(t, key), t[i].0),
    decreases t.len(),
{
    if t.len() > 0 {
        let q = t.drop_last();
        law_drop_folder(q, key);
        let d = drop_folder(q, key);
        assert forall|i: int| 0 <= i < t.len() && !same_or_child(#[trigger] t[i].0, key) implies has_key(drop_folder(t, key), t[i].0) by {
            if i < q.len() {
                assert(q[i] == t[i]);
                let j = choose|j: int| 0 <= j < d.len() && d[j].0 == q[i].0;
                if !same_or_child(t.last().0, key) {
                    assert(d.push(t.last())[j] == d[j]);
                }
            } else {
                assert(d.push(t.last())[d.len() as int] == t.last());
            }
        }
    }
}

/// Lightweight strategy row kept by the active client.
#[derive(Debug, Clone)]
pub struct StrategyInfo {
    /// Server strategy identifier. `0` is not a valid live strategy id.
    pub strategy_id: u64,
    /// Strategy version from the serialized strategy header.
    pub strategy_ver: i32,
    /// Unix epoch milliseconds used by strategy edit/rollback guards.
    pub last_date: u64,
    /// Current checked-state used by strategy start/stop UI.
    pub checked: bool,
    /// Last server-acknowledged checked-state.
    pub prev_checked: bool,
    /// Folder path in the strategy tree.
    pub folder_path: String,
}

/// A row as plain values: id, version, date, checked, acknowledged checked, folder.
pub type RowView = (u64, i32, u64, bool, bool, Seq<char>);

/// The plain values of a row.
pub open spec fn row_view(r: StrategyInfo) -> RowView {
    (r.strategy_id, r.strategy_ver, r.last_date, r.checked, r.prev_checked, r.folder_path@)
}

/// The plain values of the rows.
pub open spec fn row_views(rows: Seq<StrategyInfo>) -> Seq<RowView> {
    Seq::new(rows.len(), |i: int| row_view(rows[i]))
}

/// A fresh row for `id`: version and date zero, unchecked, at the top folder.
pub open spec fn blank_row(id: u64) -> RowView {
    (id, 0, 0, false, false, Seq::empty())
}

/// Whether no two rows share an id.
pub open spec fn row_ids_unique(rows: Seq<StrategyInfo>) -> bool {
    forall|i: int, j: int|
        0 <= i < rows.len() && 0 <= j < rows.len() && i != j ==> rows[i].strategy_id
            != rows[j].strategy_id
}

/// Whether no two snapshots share an id.
pub open spec fn snapshot_ids_unique(v: Seq<StrategySnapshot>) -> bool {
    forall|i: int, j: int|
        0 <= i < v.len() && 0 <= j < v.len() && i != j ==> v[i].strategy_id != v[j].strategy_id
}

/// A snapshot as plain values: id, version, date, checked, folder and fields.
pub type SnapView = (u64, i32, u64, bool, Seq<char>, Seq<(Seq<char>, Seq<u8>)>);

/// The plain values of a snapshot.
pub open spec fn snap_view(s: StrategySnapshot) -> SnapView {
    (
        s.strategy_id,
        s.strategy_ver,
        s.last_date,
        s.checked,
        s.path@,
        Seq::new(s.fields@.len(), |i: int| (s.fields@[i].0@, s.fields@[i].1@)),
    )
}

/// The plain values of the snapshots.
pub open spec fn snap_views(v: Seq<StrategySnapshot>) -> Seq<SnapView> {
    Seq::new(v.len(), |i: int| snap_view(v[i]))
}

/// Whether a snapshot of `id` is there.
pub open spec fn has_snapshot(v: Seq<SnapView>, id: u64) -> bool {
    exists|i: int| 0 <= i < v.len() && #[trigger] v[i].0 == id
}

/// The snapshots with `s` stored under its id, replacing the one there.
pub open spec fn put_snapshot(v: Seq<SnapView>, s: SnapView) -> Seq<SnapView> {
    if has_snapshot(v, s.0) {
        v.update(choose|i: int| 0 <= i < v.len() && v[i].0 == s.0, s)
    } else {
        v.push(s)
    }
}

/// A copy of a snapshot with the same plain values.
pub fn copy_snapshot(s: &StrategySnapshot) -> (r: StrategySnapshot)
    ensures
        snap_view(r) == snap_view(*s),
{
    let mut fields: Vec<(String, Vec<u8>)> = Vec::new();
    let mut i: usize = 0;
    while i < s.fields.len()
        invariant
            0 <= i <= s.fields@.len(),
            fields@.len() == i,
            forall|k: int| 0 <= k < i ==> #[trigger] fields@[k].0@ == s.fields@[k].0@ && fields@[k].1@ == s.fields@[k].1@,
        decreases s.fields@.len() - i,
    {
        let name = s.fields[i].0.clone();
        let mut value: Vec<u8> = Vec::new();
        crate::le::push_bytes(&mut value, s.fields[i].1.as_slice());
        proof {
            assert(value@ =~= s.fields@[i as int].1@);
        }
        let ghost before = fields@;
        fields.push((name, value));
        proof {
            assert forall|k: int| 0 <= k < i + 1 implies #[trigger] fields@[k].0@ == s.fields@[k].0@ && fields@[k].1@ == s.fields@[k].1@ by {
                if k < i {
                    assert(fields@[k] == before[k]);
                }
            }
        }
        i = i + 1;
    }
    let r = StrategySnapshot {
        strategy_id: s.strategy_id,
        strategy_ver: s.strategy_ver,
        last_date: s.last_date,
        checked: s.checked,
        path: s.path.clone(),
        fields,
    };
    proof {
        assert(snap_view(r).5 =~= snap_view(*s).5);
    }
    r
}

/// The folder table after creating the folders of `path`.
pub open spec fn with_folders_of(v: Seq<(Seq<char>, Seq<char>)>, path: Seq<char>) -> Seq<
    (Seq<char>, Seq<char>),
> {
    if path.len() > 0 && !has_key(v, lowercase(path)) {
        put_folders(v, folder_prefixes(path))
    } else {
        v
    }
}

/// Whether a row of `id` is there.
pub open spec fn has_id(v: Seq<RowView>, id: u64) -> bool {
    exists|i: int| 0 <= i < v.len() && #[trigger] v[i].0 == id
}

/// The position of the row of `id`.
pub open spec fn id_index(v: Seq<RowView>, id: u64) -> int {
    choose|i: int| 0 <= i < v.len() && v[i].0 == id
}

/// The rows with a fresh row for `id` appended when there is none.
pub open spec fn with_row(v: Seq<RowView>, id: u64) -> Seq<RowView> {
    if has_id(v, id) {
        v
    } else {
        v.push(blank_row(id))
    }
}

/// After `with_row`, the row of `id` is there and `id_index` finds it.
pub proof fn lemma_with_row_has(v: Seq<RowView>, id: u64)
    ensures
        has_id(with_row(v, id), id),
        0 <= id_index(with_row(v, id), id) < with_row(v, id).len(),
        with_row(v, id)[id_index(with_row(v, id), id)].0 == id,
{
    let w = with_row(v, id);
    if !has_id(v, id) {
        assert(w[v.len() as int].0 == id);
    }
}

/// The display order with `id` appended when its row is new.
pub open spec fn with_order(order: Seq<u64>, v: Seq<RowView>, id: u64) -> Seq<u64> {
    if has_id(v, id) {
        order
    } else {
        order.push(id)
    }
}

/// The rows after setting the date and folder of `id`, creating its row if needed.
pub open spec fn upserted(v: Seq<RowView>, id: u64, last_date: u64, path: Seq<char>) -> Seq<RowView> {
    let w = with_row(v, id);
    let i = id_index(w, id);
    w.update(i, (id, w[i].1, last_date, w[i].3, w[i].4, path))
}

/// The rows after taking the header of snapshot `s`, creating its row if needed.
pub open spec fn from_snapshot(v: Seq<RowView>, s: StrategySnapshot) -> Seq<RowView> {
    let w = with_row(v, s.strategy_id);
    let i = id_index(w, s.strategy_id);
    w.update(i, (s.strategy_id, s.strategy_ver, s.last_date, s.checked, s.checked, s.path@))
}

/// Whether the row of `s` is at least as new as `s` in date and version.
pub open spec fn is_old_or_equal(v: Seq<RowView>, s: StrategySnapshot) -> bool {
    has_id(v, s.strategy_id) && v[id_index(v, s.strategy_id)].2 >= s.last_date && v[id_index(
        v,
        s.strategy_id,
    )].1 >= s.strategy_ver
}

/// The ids with every `id` taken out, in order.
pub open spec fn retain_ne(v: Seq<u64>, id: u64) -> Seq<u64>
    decreases v.len(),
{
    if v.len() == 0 {
        v
    } else if v.last() == id {
        retain_ne(v.drop_last(), id)
    } else {
        retain_ne(v.drop_last(), id).push(v.last())
    }
}

/// The rows without the row of `id`.
pub open spec fn without_row(v: Seq<RowView>, id: u64) -> Seq<RowView> {
    if has_id(v, id) {
        v.remove(id_index(v, id))
    } else {
        v
    }
}

/// The position of the snapshot of `id`.
pub open spec fn snapshot_index(v: Seq<SnapView>, id: u64) -> int {
    choose|i: int| 0 <= i < v.len() && v[i].0 == id
}

/// The snapshots without the one of `id`.
pub open spec fn without_snapshot(v: Seq<SnapView>, id: u64) -> Seq<SnapView> {
    if has_snapshot(v, id) {
        v.remove(snapshot_index(v, id))
    } else {
        v
    }
}

/// The position of the snapshot of `id` in a list of snapshots.
fn find_snapshot(v: &Vec<StrategySnapshot>, id: u64) -> (r: Option<usize>)
    requires
        snapshot_ids_unique(v@),
    ensures
        match r {
            Some(i) => i < v@.len() && v@[i as int].strategy_id == id && has_snapshot(snap_views(v@), id)
                && snapshot_index(snap_views(v@), id) == i,
            None => !has_snapshot(snap_views(v@), id),
        },
{
    let ghost sv = snap_views(v@);
    let mut i: usize = 0;
    while i < v.len()
        invariant
            0 <= i <= v@.len(),
            sv == snap_views(v@),
            snapshot_ids_unique(v@),
            forall|k: int| 0 <= k < i ==> v@[k].strategy_id != id,
        decreases v@.len() - i,
    {
        if v[i].strategy_id == id {
            proof {
                assert(sv[i as int].0 == id);
                let j = snapshot_index(sv, id);
                assert(sv[j].0 == v@[j].strategy_id);
            }
            return Some(i);
        }
        i = i + 1;
    }
    proof {
        assert forall|k: int| 0 <= k < sv.len() implies #[trigger] sv[k].0 != id by {
            assert(sv[k].0 == v@[k].strategy_id);
        }
    }
    None
}

/// Take the snapshot of `id` out of a list of snapshots with unique ids.
fn remove_snapshot_exec(v: &mut Vec<StrategySnapshot>, id: u64)
    requires
        snapshot_ids_unique(old(v)@),
    ensures
        snapshot_ids_unique(final(v)@),
        snap_views(final(v)@) == without_snapshot(snap_views(old(v)@), id),
{
    match find_snapshot(v, id) {
        Some(i) => {
            let ghost before = v@;
            v.remove(i);
            proof {
                assert(snap_views(v@) =~= snap_views(before).remove(i as int));
                assert forall|a: int, b: int|
                    0 <= a < v@.len() && 0 <= b < v@.len() && a != b implies v@[a].strategy_id
                    != v@[b].strategy_id by {
                    let oa = if a < i { a } else { a + 1 };
                    let ob = if b < i { b } else { b + 1 };
                    assert(v@[a] == before[oa] && v@[b] == before[ob]);
                }
            }
        },
        None => {},
    }
}

/// Take every `id` out of a list of ids.
fn retain_ne_exec(v: &mut Vec<u64>, id: u64)
    ensures
        final(v)@ == retain_ne(old(v)@, id),
{
    let ghost t = v@;
    let mut out: Vec<u64> = Vec::new();
    let mut i: usize = 0;
    while i < v.len()
        invariant
            0 <= i <= v@.len(),
            t == v@,
            out@ == retain_ne(t.take(i as int), id),
        decreases v@.len() - i,
    {
        proof {
            assert(t.take(i + 1).drop_last() =~= t.take(i as int));
        }
        if v[i] != id {
            out.push(v[i]);
        }
        i = i + 1;
    }
    proof {
        assert(t.take(t.len() as int) =~= t);
    }
    *v = out;
}

/// The ids of a list of edits.
pub open spec fn edit_ids_of(e: Seq<(u64, StrategyEdit)>) -> Seq<u64> {
    Seq::new(e.len(), |i: int| e[i].0)
}

/// The edits with every edit of `id` taken out, in order.
pub open spec fn retain_edits(e: Seq<(u64, StrategyEdit)>, id: u64) -> Seq<(u64, StrategyEdit)>
    decreases e.len(),
{
    if e.len() == 0 {
        e
    } else if e.last().0 == id {
        retain_edits(e.drop_last(), id)
    } else {
        retain_edits(e.drop_last(), id).push(e.last())
    }
}

/// Taking out the edits of `id` takes `id` out of their ids.
pub proof fn lemma_edit_ids_retain(e: Seq<(u64, StrategyEdit)>, id: u64)
    ensures
        edit_ids_of(retain_edits(e, id)) == retain_ne(edit_ids_of(e), id),
    decreases e.len(),
{
    if e.len() > 0 {
        lemma_edit_ids_retain(e.drop_last(), id);
        assert(edit_ids_of(e).drop_last() =~= edit_ids_of(e.drop_last()));
        assert(edit_ids_of(e).last() == e.last().0);
        let r = retain_edits(e.drop_last(), id);
        assert(edit_ids_of(r.push(e.last())) =~= edit_ids_of(r).push(e.last().0));
    }
}

/// The rows after taking the headers of `ss` in turn.
pub open spec fn rows_after(v: Seq<RowView>, ss: Seq<StrategySnapshot>) -> Seq<RowView>
    decreases ss.len(),
{
    if ss.len() == 0 {
        v
    } else {
        from_snapshot(rows_after(v, ss.drop_last()), ss.last())
    }
}

/// The display order after taking the snapshots `ss` in turn.
pub open spec fn order_after(order: Seq<u64>, v: Seq<RowView>, ss: Seq<StrategySnapshot>) -> Seq<u64>
    decreases ss.len(),
{
    if ss.len() == 0 {
        order
    } else {
        with_order(order_after(order, v, ss.drop_last()), rows_after(v, ss.drop_last()), ss.last().strategy_id)
    }
}

/// The folder table after creating the folders of the snapshots `ss` in turn.
pub open spec fn folders_after(t: Seq<(Seq<char>, Seq<char>)>, ss: Seq<StrategySnapshot>) -> Seq<
    (Seq<char>, Seq<char>),
>
    decreases ss.len(),
{
    if ss.len() == 0 {
        t
    } else {
        with_folders_of(folders_after(t, ss.drop_last()), ss.last().path@)
    }
}

/// The stored snapshots after storing `ss` in turn.
pub open spec fn snaps_after(sv: Seq<SnapView>, ss: Seq<StrategySnapshot>) -> Seq<SnapView>
    decreases ss.len(),
{
    if ss.len() == 0 {
        sv
    } else {
        put_snapshot(snaps_after(sv, ss.drop_last()), snap_view(ss.last()))
    }
}

/// The rows after setting the checked state of one strategy, creating its row if needed.
pub open spec fn with_checked(v: Seq<RowView>, id: u64, checked: bool) -> Seq<RowView> {
    let w = with_row(v, id);
    let i = id_index(w, id);
    w.update(i, (w[i].0, w[i].1, w[i].2, checked, w[i].4, w[i].5))
}

/// The rows after setting the checked states of `items` in turn.
pub open spec fn rows_checked(v: Seq<RowView>, items: Seq<StratCheckedItem>) -> Seq<RowView>
    decreases items.len(),
{
    if items.len() == 0 {
        v
    } else {
        with_checked(rows_checked(v, items.drop_last()), items.last().strategy_id, items.last().checked)
    }
}

/// The display order after setting the checked states of `items` in turn.
pub open spec fn order_checked(order: Seq<u64>, v: Seq<RowView>, items: Seq<StratCheckedItem>) -> Seq<u64>
    decreases items.len(),
{
    if items.len() == 0 {
        order
    } else {
        with_order(order_checked(order, v, items.drop_last()), rows_checked(v, items.drop_last()), items.last().strategy_id)
    }
}

/// The folder table after creating the folders of each path of `ps` in turn.
pub open spec fn with_paths(t: Seq<(Seq<char>, Seq<char>)>, ps: Seq<Seq<char>>) -> Seq<
    (Seq<char>, Seq<char>),
>
    decreases ps.len(),
{
    if ps.len() == 0 {
        t
    } else {
        with_folders_of(with_paths(t, ps.drop_last()), ps.last())
    }
}

/// The paths of the folders of `t` whose keys `wanted` lacks, in order.
pub open spec fn absent_paths(t: Seq<(Seq<char>, Seq<char>)>, wanted: Seq<(Seq<char>, Seq<char>)>) -> Seq<Seq<char>>
    decreases t.len(),
{
    if t.len() == 0 {
        Seq::empty()
    } else if has_key(wanted, t.last().0) {
        absent_paths(t.drop_last(), wanted)
    } else {
        absent_paths(t.drop_last(), wanted).push(t.last().1)
    }
}

/// The folder table after deleting the folder `path` where it can be deleted.
pub open spec fn deleted_folder(t: Seq<(Seq<char>, Seq<char>)>, v: Seq<RowView>, path: Seq<char>) -> Seq<
    (Seq<char>, Seq<char>),
> {
    if folder_deletable(t, v, path) {
        drop_folder(t, lowercase(path))
    } else {
        t
    }
}

/// The folder table after deleting the folders `ps` in turn where they can be deleted.
pub open spec fn deleted_folders(t: Seq<(Seq<char>, Seq<char>)>, v: Seq<RowView>, ps: Seq<Seq<char>>) -> Seq<
    (Seq<char>, Seq<char>),
>
    decreases ps.len(),
{
    if ps.len() == 0 {
        t
    } else {
        deleted_folder(deleted_folders(t, v, ps.drop_last()), v, ps.last())
    }
}

/// The confirmed folder table after a server folder list `ps`: its folders
/// are created, then every other folder is deleted where it holds no strategy.
pub open spec fn server_folders(t: Seq<(Seq<char>, Seq<char>)>, v: Seq<RowView>, ps: Seq<Seq<char>>) -> Seq<
    (Seq<char>, Seq<char>),
> {
    let created = with_paths(t, ps);
    deleted_folders(created, v, absent_paths(created, with_paths(Seq::empty(), ps)))
}

/// The texts of a list of strings.
pub open spec fn texts_of(v: Seq<String>) -> Seq<Seq<char>> {
    Seq::new(v.len(), |i: int| v[i]@)
}

/// The folder paths of a list of snapshots.
pub open spec fn snapshot_paths(v: Seq<SnapView>) -> Seq<Seq<char>> {
    Seq::new(v.len(), |i: int| v[i].4)
}

/// Whether two folder tables hold the same keys (the first has no key the second lacks
/// and both are as long).
pub open spec fn same_keys(a: Seq<(Seq<char>, Seq<char>)>, b: Seq<(Seq<char>, Seq<char>)>) -> bool {
    a.len() == b.len() && forall|i: int| 0 <= i < a.len() ==> has_key(b, #[trigger] a[i].0)
}

/// Folders wanted by the local list: the given paths, or the previous local
/// (or confirmed) table, plus the folder of every local (or confirmed) strategy.
pub open spec fn wanted_local_folders(
    previous: Seq<(Seq<char>, Seq<char>)>,
    paths: Option<Seq<Seq<char>>>,
    strategies: Seq<SnapView>,
) -> Seq<(Seq<char>, Seq<char>)> {
    let base = match paths {
        Some(ps) => with_paths(Seq::empty(), ps),
        None => previous,
    };
    with_paths(base, snapshot_paths(strategies))
}

/// An item is in a concatenation exactly when it is in one of the parts.
proof fn lemma_concat_contains<T>(a: Seq<T>, b: Seq<T>, x: T)
    ensures
        (a + b).contains(x) <==> a.contains(x) || b.contains(x),
{
    if (a + b).contains(x) {
        let i = choose|i: int| 0 <= i < (a + b).len() && (a + b)[i] == x;
        if i < a.len() {
            assert(a[i] == x);
        } else {
            assert(b[i - a.len()] == x);
        }
    }
    if a.contains(x) {
        let i = choose|i: int| 0 <= i < a.len() && a[i] == x;
        assert((a + b)[i] == x);
    }
    if b.contains(x) {
        let i = choose|i: int| 0 <= i < b.len() && b[i] == x;
        assert((a + b)[a.len() + i] == x);
    }
}

/// An item is in a pushed sequence exactly when it is the new one or was there.
proof fn lemma_push_contains<T>(a: Seq<T>, y: T, x: T)
    ensures
        a.push(y).contains(x) <==> a.contains(x) || x == y,
{
    if a.push(y).contains(x) {
        let i = choose|i: int| 0 <= i < a.push(y).len() && a.push(y)[i] == x;
        if i < a.len() {
            assert(a[i] == x);
        }
    }
    if a.contains(x) {
        let i = choose|i: int| 0 <= i < a.len() && a[i] == x;
        assert(a.push(y)[i] == x);
    }
    if x == y {
        assert(a.push(y)[a.len() as int] == x);
    }
}

/// An item is in a sequence exactly when it is in the sequence without its
/// last item or is that last item.
proof fn lemma_drop_last_contains<T>(a: Seq<T>, x: T)
    requires
        a.len() > 0,
    ensures
        a.contains(x) <==> a.drop_last().contains(x) || x == a.last(),
{
    assert(a =~= a.drop_last().push(a.last()));
    lemma_push_contains(a.drop_last(), a.last(), x);
}

/// The items kept for key `id` are the items of `v` with that key.
proof fn lemma_keep_key_contains<T>(v: Seq<T>, key: spec_fn(T) -> u64, id: u64, x: T)
    ensures
        keep_key(v, key, id).contains(x) <==> v.contains(x) && key(x) == id,
    decreases v.len(),
{
    if v.len() > 0 {
        lemma_keep_key_contains(v.drop_last(), key, id, x);
        lemma_drop_last_contains(v, x);
        if key(v.last()) == id {
            lemma_push_contains(keep_key(v.drop_last(), key, id), v.last(), x);
        }
    }
}

/// The unlisted items are the items of `v` whose key `order` does not list.
proof fn lemma_keep_unranked_contains<T>(v: Seq<T>, key: spec_fn(T) -> u64, order: Seq<u64>, x: T)
    ensures
        keep_unranked(v, key, order).contains(x) <==> v.contains(x) && !order.contains(key(x)),
    decreases v.len(),
{
    if v.len() > 0 {
        lemma_keep_unranked_contains(v.drop_last(), key, order, x);
        lemma_drop_last_contains(v, x);
        if !order.contains(key(v.last())) {
            lemma_push_contains(keep_unranked(v.drop_last(), key, order), v.last(), x);
        }
    }
}

/// The grouped items of the first `n` places are the items of `v` whose key
/// has its last listing among them.
proof fn lemma_ranked_contains<T>(v: Seq<T>, key: spec_fn(T) -> u64, order: Seq<u64>, n: int, x: T)
    requires
        0 <= n <= order.len(),
    ensures
        ranked(v, key, order, n).contains(x) <==> v.contains(x) && exists|j: int|
            0 <= j < n && last_at(order, j) && #[trigger] order[j] == key(x),
    decreases n,
{
    if n > 0 {
        lemma_ranked_contains(v, key, order, n - 1, x);
        if last_at(order, n - 1) {
            lemma_concat_contains(ranked(v, key, order, n - 1), keep_key(v, key, order[n - 1]), x);
            lemma_keep_key_contains(v, key, order[n - 1], x);
        }
        if v.contains(x) && exists|j: int| 0 <= j < n && last_at(order, j) && #[trigger] order[j] == key(x) {
            let j = choose|j: int| 0 <= j < n && last_at(order, j) && #[trigger] order[j] == key(x);
            if j < n - 1 {
                assert(exists|j2: int| 0 <= j2 < n - 1 && last_at(order, j2) && #[trigger] order[j2] == key(x));
            }
        }
    }
}

/// A listed id has a last listing.
proof fn lemma_last_listing(order: Seq<u64>, id: u64)
    requires
        order.contains(id),
    ensures
        exists|j: int| 0 <= j < order.len() && last_at(order, j) && #[trigger] order[j] == id,
    decreases order.len(),
{
    if order.last() == id {
        let j = order.len() - 1;
        assert(last_at(order, j));
    } else {
        let q = order.drop_last();
        let i = choose|i: int| 0 <= i < order.len() && order[i] == id;
        assert(q[i] == id);
        lemma_last_listing(q, id);
        let j = choose|j: int| 0 <= j < q.len() && last_at(q, j) && #[trigger] q[j] == id;
        assert(order[j] == id);
        assert forall|k: int| j < k < order.len() implies order[k] != order[j] by {
            if k < q.len() {
                assert(q[k] == order[k]);
            }
        }
    }
}

/// Sorting by rank neither drops nor adds items: strategies that the order
/// does not list are kept.
pub proof fn law_order_by_rank_keeps_items<T>(v: Seq<T>, key: spec_fn(T) -> u64, order: Seq<u64>, x: T)
    ensures
        order_by_rank(v, key, order).contains(x) <==> v.contains(x),
{
    lemma_concat_contains(ranked(v, key, order, order.len() as int), keep_unranked(v, key, order), x);
    lemma_ranked_contains(v, key, order, order.len() as int, x);
    lemma_keep_unranked_contains(v, key, order, x);
    if order.contains(key(x)) {
        lemma_last_listing(order, key(x));
    } else {
        assert(!exists|j: int| 0 <= j < order.len() && last_at(order, j) && #[trigger] order[j] == key(x));
    }
}

/// Whether the ids ascend (ties allowed).
pub open spec fn ascending(v: Seq<u64>) -> bool {
    forall|i: int, j: int| 0 <= i < j < v.len() ==> v[i] <= v[j]
}

/// Whether an edit is still pending and its deadline is not after `now_ms`.
pub open spec fn edit_due(e: StrategyEdit, now_ms: u64) -> bool {
    e.status_spec() == StrategyEditStatus::Pending && e.deadline_spec() <= now_ms
}

/// The ids of the edits due at `now_ms`, in edit order.
pub open spec fn due_edit_ids(e: Seq<(u64, StrategyEdit)>, now_ms: u64) -> Seq<u64>
    decreases e.len(),
{
    if e.len() == 0 {
        Seq::empty()
    } else if edit_due(e.last().1, now_ms) {
        due_edit_ids(e.drop_last(), now_ms).push(e.last().0)
    } else {
        due_edit_ids(e.drop_last(), now_ms)
    }
}

/// Insert `x` into ascending ids, keeping them ascending.
fn insert_ascending(v: &mut Vec<u64>, x: u64)
    requires
        ascending(old(v)@),
    ensures
        ascending(final(v)@),
        final(v)@.to_multiset() == old(v)@.to_multiset().insert(x),
{
    let ghost s = v@;
    let mut p: usize = 0;
    while p < v.len() && v[p] <= x
        invariant
            0 <= p <= v@.len(),
            v@ == s,
            forall|k: int| 0 <= k < p ==> v@[k] <= x,
        decreases v@.len() - p,
    {
        p = p + 1;
    }
    v.insert(p, x);
    proof {
        broadcast use vstd::seq_lib::group_to_multiset_ensures;
        let a = s.subrange(0, p as int);
        let b = s.subrange(p as int, s.len() as int);
        assert(s =~= a + b);
        vstd::seq_lib::lemma_multiset_commutative(a, b);
        vstd::seq_lib::lemma_multiset_commutative(a.push(x), b);
        assert(v@ == a.push(x) + b);
        assert(v@.to_multiset() =~= s.to_multiset().insert(x));
        s.insert_ensures(p as int, x);
        assert forall|i: int, j: int| 0 <= i < j < v@.len() implies v@[i] <= v@[j] by {
            if j < p {
            } else if j == p {
                assert(v@[i] == s[i]);
            } else if i < p {
                assert(v@[i] == s[i]);
                assert(v@[j] == s[j - 1]);
                assert(s[p as int] > x);
                assert(s[p as int] <= s[j - 1]);
            } else if i == p {
                assert(v@[j] == s[j - 1]);
                assert(s[p as int] > x);
                assert(s[p as int] <= s[j - 1]);
            } else {
                assert(v@[i] == s[i - 1] && v@[j] == s[j - 1]);
            }
        }
    }
}

/// Whether position `j` of `order` holds the last occurrence of its id.
pub open spec fn last_at(order: Seq<u64>, j: int) -> bool {
    forall|k: int| j < k < order.len() ==> order[k] != order[j]
}

/// The items of `v` whose key is `id`, in order.
pub open spec fn keep_key<T>(v: Seq<T>, key: spec_fn(T) -> u64, id: u64) -> Seq<T>
    decreases v.len(),
{
    if v.len() == 0 {
        v
    } else if key(v.last()) == id {
        keep_key(v.drop_last(), key, id).push(v.last())
    } else {
        keep_key(v.drop_last(), key, id)
    }
}

/// The items of `v` whose key `order` does not list, in order.
pub open spec fn keep_unranked<T>(v: Seq<T>, key: spec_fn(T) -> u64, order: Seq<u64>) -> Seq<T>
    decreases v.len(),
{
    if v.len() == 0 {
        v
    } else if order.contains(key(v.last())) {
        keep_unranked(v.drop_last(), key, order)
    } else {
        keep_unranked(v.drop_last(), key, order).push(v.last())
    }
}

/// The items of `v` whose keys are listed in the first `n` places of
/// `order`, grouped by the place of each key's last listing.
pub open spec fn ranked<T>(v: Seq<T>, key: spec_fn(T) -> u64, order: Seq<u64>, n: int) -> Seq<T>
    decreases n,
{
    if n <= 0 {
        Seq::empty()
    } else if last_at(order, n - 1) {
        ranked(v, key, order, n - 1) + keep_key(v, key, order[n - 1])
    } else {
        ranked(v, key, order, n - 1)
    }
}

/// `v` stably sorted by the place of each item's key in `order` (its last
/// listing), with unlisted items kept at the end in their order.
pub open spec fn order_by_rank<T>(v: Seq<T>, key: spec_fn(T) -> u64, order: Seq<u64>) -> Seq<T> {
    ranked(v, key, order, order.len() as int) + keep_unranked(v, key, order)
}

/// The id itself, as the key of an id.
pub open spec fn id_key() -> spec_fn(u64) -> u64 {
    |x: u64| x
}

/// The strategy id, as the key of a snapshot.
pub open spec fn snap_key() -> spec_fn(SnapView) -> u64 {
    |s: SnapView| s.0
}

/// Whether `order` lists `id`.
fn lists(order: &[u64], id: u64) -> (r: bool)
    ensures
        r == order@.contains(id),
{
    let mut i: usize = 0;
    while i < order.len()
        invariant
            0 <= i <= order@.len(),
            forall|k: int| 0 <= k < i ==> order@[k] != id,
        decreases order@.len() - i,
    {
        if order[i] == id {
            return true;
        }
        i = i + 1;
    }
    false
}

/// Whether position `j` of `order` holds the last occurrence of its id.
fn is_last_at(order: &[u64], j: usize) -> (r: bool)
    requires
        j < order@.len(),
    ensures
        r == last_at(order@, j as int),
{
    let _n = order.len();
    let mut k: usize = j + 1;
    while k < order.len()
        invariant
            j < k <= order@.len(),
            forall|m: int| j < m < k ==> order@[m] != order@[j as int],
        decreases order@.len() - k,
    {
        if order[k] == order[j] {
            return false;
        }
        k = k + 1;
    }
    true
}

/// `v` stably sorted by the rank of each id in `order`.
fn order_ids_by_rank(v: &Vec<u64>, order: &[u64]) -> (r: Vec<u64>)
    ensures
        r@ == order_by_rank(v@, id_key(), order@),
{
    let mut out: Vec<u64> = Vec::new();
    let mut j: usize = 0;
    while j < order.len()
        invariant
            0 <= j <= order@.len(),
            out@ == ranked(v@, id_key(), order@, j as int),
        decreases order@.len() - j,
    {
        if is_last_at(order, j) {
            let id = order[j];
            let ghost before = out@;
            let mut i: usize = 0;
            while i < v.len()
                invariant
                    0 <= i <= v@.len(),
                    out@ == before + keep_key(v@.take(i as int), id_key(), id),
                decreases v@.len() - i,
            {
                proof {
                    assert(v@.take(i + 1).drop_last() =~= v@.take(i as int));
                    assert(v@.take(i + 1).last() == v@[i as int]);
                }
                if v[i] == id {
                    out.push(v[i]);
                    proof {
                        assert(out@ =~= before + keep_key(v@.take(i as int), id_key(), id).push(v@[i as int]));
                    }
                }
                i = i + 1;
            }
            proof {
                assert(v@.take(v@.len() as int) =~= v@);
            }
        }
        j = j + 1;
    }
    let ghost before = out@;
    let mut i: usize = 0;
    while i < v.len()
        invariant
            0 <= i <= v@.len(),
            out@ == before + keep_unranked(v@.take(i as int), id_key(), order@),
        decreases v@.len() - i,
    {
        proof {
            assert(v@.take(i + 1).drop_last() =~= v@.take(i as int));
            assert(v@.take(i + 1).last() == v@[i as int]);
        }
        if !lists(order, v[i]) {
            out.push(v[i]);
            proof {
                assert(out@ =~= before + keep_unranked(v@.take(i as int), id_key(), order@).push(v@[i as int]));
            }
        }
        i = i + 1;
    }
    proof {
        assert(v@.take(v@.len() as int) =~= v@);
    }
    out
}

/// Snapshots stably sorted by the rank of their ids in `order`.
fn order_snapshots_by_rank(v: &Vec<StrategySnapshot>, order: &[u64]) -> (r: Vec<StrategySnapshot>)
    ensures
        snap_views(r@) == order_by_rank(snap_views(v@), snap_key(), order@),
{
    let ghost sv = snap_views(v@);
    let mut out: Vec<StrategySnapshot> = Vec::new();
    let mut j: usize = 0;
    while j < order.len()
        invariant
            0 <= j <= order@.len(),
            sv == snap_views(v@),
            snap_views(out@) == ranked(sv, snap_key(), order@, j as int),
        decreases order@.len() - j,
    {
        if is_last_at(order, j) {
            let id = order[j];
            let ghost before = snap_views(out@);
            let mut i: usize = 0;
            while i < v.len()
                invariant
                    0 <= i <= v@.len(),
                    sv == snap_views(v@),
                    snap_views(out@) == before + keep_key(sv.take(i as int), snap_key(), id),
                decreases v@.len() - i,
            {
                proof {
                    assert(sv.take(i + 1).drop_last() =~= sv.take(i as int));
                    assert(sv.take(i + 1).last() == sv[i as int]);
                }
                if v[i].strategy_id == id {
                    let ghost prev = out@;
                    let c = copy_snapshot(&v[i]);
                    out.push(c);
                    proof {
                        assert(snap_views(out@) =~= snap_views(prev).push(sv[i as int]));
                    }
                }
                i = i + 1;
            }
            proof {
                assert(sv.take(v@.len() as int) =~= sv);
            }
        }
        j = j + 1;
    }
    let ghost before = snap_views(out@);
    let mut i: usize = 0;
    while i < v.len()
        invariant
            0 <= i <= v@.len(),
            sv == snap_views(v@),
            snap_views(out@) == before + keep_unranked(sv.take(i as int), snap_key(), order@),
        decreases v@.len() - i,
    {
        proof {
            assert(sv.take(i + 1).drop_last() =~= sv.take(i as int));
            assert(sv.take(i + 1).last() == sv[i as int]);
        }
        if !lists(order, v[i].strategy_id) {
            let ghost prev = out@;
            let c = copy_snapshot(&v[i]);
            out.push(c);
            proof {
                assert(snap_views(out@) =~= snap_views(prev).push(sv[i as int]));
            }
        }
        i = i + 1;
    }
    proof {
        assert(sv.take(v@.len() as int) =~= sv);
    }
    out
}

/// The snapshots without any of `id`, in order.
pub open spec fn snaps_without(v: Seq<SnapView>, id: u64) -> Seq<SnapView>
    decreases v.len(),
{
    if v.len() == 0 {
        v
    } else if v.last().0 == id {
        snaps_without(v.drop_last(), id)
    } else {
        snaps_without(v.drop_last(), id).push(v.last())
    }
}

/// Take every snapshot of `id` out of a list of snapshots.
fn retain_snapshots_ne(v: &mut Vec<StrategySnapshot>, id: u64)
    ensures
        snap_views(final(v)@) == snaps_without(snap_views(old(v)@), id),
{
    let ghost sv = snap_views(v@);
    let mut out: Vec<StrategySnapshot> = Vec::new();
    let mut i: usize = 0;
    while i < v.len()
        invariant
            0 <= i <= v@.len(),
            sv == snap_views(v@),
            snap_views(out@) == snaps_without(sv.take(i as int), id),
        decreases v@.len() - i,
    {
        proof {
            assert(sv.take(i + 1).drop_last() =~= sv.take(i as int));
            assert(sv.take(i + 1).last() == sv[i as int]);
        }
        if v[i].strategy_id != id {
            let ghost prev = out@;
            let c = copy_snapshot(&v[i]);
            out.push(c);
            proof {
                assert(snap_views(out@) =~= snap_views(prev).push(sv[i as int]));
            }
        }
        i = i + 1;
    }
    proof {
        assert(sv.take(v@.len() as int) =~= sv);
    }
    *v = out;
}

/// The snapshots with the checked state of the one of `id` set.
pub open spec fn snap_with_checked(v: Seq<SnapView>, id: u64, checked: bool) -> Seq<SnapView> {
    let j = first_snapshot_index(v, id);
    v.update(j, (v[j].0, v[j].1, v[j].2, checked, v[j].4, v[j].5))
}

/// The ids of snapshots, in order.
pub open spec fn snap_ids(v: Seq<SnapView>) -> Seq<u64> {
    Seq::new(v.len(), |i: int| v[i].0)
}

/// The ids of a list of snapshots, in order.
pub open spec fn snapshot_ids(v: Seq<StrategySnapshot>) -> Seq<u64> {
    Seq::new(v.len(), |i: int| v[i].strategy_id)
}

/// The first position of a snapshot of `id`.
pub open spec fn first_snapshot_index(v: Seq<SnapView>, id: u64) -> int {
    choose|i: int| 0 <= i < v.len() && v[i].0 == id && forall|k: int| 0 <= k < i ==> v[k].0 != id
}

/// The first position of a snapshot of `id` in a list of snapshots.
fn find_first_snapshot(v: &Vec<StrategySnapshot>, id: u64) -> (r: Option<usize>)
    ensures
        match r {
            Some(i) => i < v@.len() && has_snapshot(snap_views(v@), id) && first_snapshot_index(snap_views(v@), id) == i,
            None => !has_snapshot(snap_views(v@), id),
        },
{
    let ghost sv = snap_views(v@);
    let mut i: usize = 0;
    while i < v.len()
        invariant
            0 <= i <= v@.len(),
            sv == snap_views(v@),
            forall|k: int| 0 <= k < i ==> v@[k].strategy_id != id,
        decreases v@.len() - i,
    {
        if v[i].strategy_id == id {
            proof {
                assert(sv[i as int].0 == id);
                assert forall|k: int| 0 <= k < i implies sv[k].0 != id by {
                    assert(sv[k].0 == v@[k].strategy_id);
                }
                let j = first_snapshot_index(sv, id);
                assert(0 <= j < sv.len() && sv[j].0 == id && forall|k: int| 0 <= k < j ==> sv[k].0 != id);
                if j < i {
                    assert(sv[j].0 == v@[j].strategy_id);
                } else if j > i {
                    assert(sv[i as int].0 != id);
                }
            }
            return Some(i);
        }
        i = i + 1;
    }
    proof {
        assert forall|k: int| 0 <= k < sv.len() implies #[trigger] sv[k].0 != id by {
            assert(sv[k].0 == v@[k].strategy_id);
        }
    }
    None
}

/// The local list after taking a core snapshot: it replaces the local copy
/// of its id when forced or when that copy is not at least as new, and is
/// appended when there is no copy.
pub open spec fn local_from_server(v: Seq<SnapView>, s: SnapView, force: bool) -> Seq<SnapView> {
    if has_snapshot(v, s.0) {
        let j = first_snapshot_index(v, s.0);
        if force || !(v[j].2 >= s.2 && v[j].1 >= s.1) {
            v.update(j, s)
        } else {
            v
        }
    } else {
        v.push(s)
    }
}

/// Strategy list state: rows, confirmed snapshots, the folder tree, the
/// staged local list and the edits waiting for confirmation.
#[derive(Debug, Clone)]
pub struct StratsState {
    entries: Vec<StrategyInfo>,
    order: Vec<u64>,
    snapshots: Vec<StrategySnapshot>,
    folders: Vec<(String, String)>,
    folders_last_modified: i64,
    local_folders: Option<(i64, Vec<(String, String)>)>,
    local_snapshots: Option<Vec<StrategySnapshot>>,
    strategy_edits: Vec<(u64, StrategyEdit)>,
    /// The serialized snapshot payload as the core sent it, with the latest
    /// strategy date it holds, while it still matches the state.
    snapshot_payload_cache: Option<(u64, Vec<u8>)>,
    /// Date of the last applied server strategy order; zero before any.
    last_modified: u64,
}

impl StratsState {
    /// The strategy rows.
    pub closed spec fn rows(&self) -> Seq<StrategyInfo> {
        self.entries@
    }

    /// The strategy ids in display order.
    pub closed spec fn order_spec(&self) -> Seq<u64> {
        self.order@
    }

    /// The core-confirmed snapshots.
    pub closed spec fn snapshot_rows(&self) -> Seq<SnapView> {
        snap_views(self.snapshots@)
    }

    /// The confirmed folder tree: key and path of each folder.
    pub closed spec fn folder_table(&self) -> Seq<(Seq<char>, Seq<char>)> {
        folder_pairs(self.folders@)
    }

    /// UTC milliseconds of the confirmed folder tree.
    pub closed spec fn folders_date(&self) -> i64 {
        self.folders_last_modified
    }

    /// The staged local folder tree and its date, if one is staged.
    pub closed spec fn local_folder_table(&self) -> Option<(i64, Seq<(Seq<char>, Seq<char>)>)> {
        match self.local_folders {
            Some((d, v)) => Some((d, folder_pairs(v@))),
            None => None,
        }
    }

    /// Whether a serialized snapshot payload is cached.
    pub closed spec fn cached(&self) -> bool {
        self.snapshot_payload_cache is Some
    }

    /// The cached serialized snapshot payload: its latest strategy date and its bytes.
    pub closed spec fn payload_cache(&self) -> Option<(u64, Seq<u8>)> {
        match self.snapshot_payload_cache {
            Some((d, v)) => Some((d, v@)),
            None => None,
        }
    }

    /// Ids and folder keys are unique.
    pub closed spec fn wf(&self) -> bool {
        &&& row_ids_unique(self.entries@)
        &&& snapshot_ids_unique(self.snapshots@)
        &&& keys_unique(folder_pairs(self.folders@))
        &&& (self.local_folders matches Some((_, v)) ==> keys_unique(folder_pairs(v@)))
    }

    /// The staged local strategy list, if one is staged.
    pub closed spec fn local_rows(&self) -> Option<Seq<SnapView>> {
        match self.local_snapshots {
            Some(v) => Some(snap_views(v@)),
            None => None,
        }
    }

    /// The ids of the edits waiting for confirmation, in order.
    pub closed spec fn edit_ids(&self) -> Seq<u64> {
        edit_ids_of(self.strategy_edits@)
    }

    /// The edits waiting for confirmation, each under its strategy id, in order.
    pub closed spec fn edit_list(&self) -> Seq<(u64, StrategyEdit)> {
        self.strategy_edits@
    }

    /// Date of the last applied server strategy order; zero before any.
    pub closed spec fn order_date(&self) -> u64 {
        self.last_modified
    }

    /// No strategies, folders, staged lists or edits, and no order applied yet.
    pub fn new() -> (r: Self)
        ensures
            r.wf(),
            r.rows() == Seq::<StrategyInfo>::empty(),
            r.order_spec() == Seq::<u64>::empty(),
            r.snapshot_rows() == Seq::<SnapView>::empty(),
            r.folder_table() == Seq::<(Seq<char>, Seq<char>)>::empty(),
            r.folders_date() == 0,
            r.local_folder_table() is None,
            r.local_rows() is None,
            r.edit_list() == Seq::<(u64, StrategyEdit)>::empty(),
            r.order_date() == 0,
            !r.cached(),
    {
        let r = StratsState {
            entries: Vec::new(),
            order: Vec::new(),
            snapshots: Vec::new(),
            folders: Vec::new(),
            folders_last_modified: 0,
            local_folders: None,
            local_snapshots: None,
            last_modified: 0,
            strategy_edits: Vec::new(),
            snapshot_payload_cache: None,
        };
        proof {
            assert(folder_pairs(r.folders@) =~= Seq::<(Seq<char>, Seq<char>)>::empty());
            assert(snap_views(r.snapshots@) =~= Seq::<SnapView>::empty());
        }
        r
    }

    /// Complete core-confirmed folder paths, including empty folders and parents.
    pub fn folder_paths(&self) -> (r: Vec<String>)
        ensures
            r@.len() == self.folder_table().len(),
            forall|i: int| 0 <= i < r@.len() ==> #[trigger] r@[i]@ == self.folder_table()[i].1,
    {
        let mut out: Vec<String> = Vec::new();
        let mut i: usize = 0;
        while i < self.folders.len()
            invariant
                0 <= i <= self.folders@.len(),
                out@.len() == i,
                forall|k: int| 0 <= k < i ==> #[trigger] out@[k]@ == self.folders@[k].1@,
            decreases self.folders@.len() - i,
        {
            out.push(self.folders[i].1.clone());
            i = i + 1;
        }
        out
    }

    /// UTC milliseconds of the confirmed folder tree. Zero means that no
    /// versioned tree has arrived yet (including cores without folder sync).
    pub fn folders_last_modified(&self) -> (r: i64)
        ensures
            r == self.folders_date(),
    {
        self.folders_last_modified
    }

    /// Date of the staged local folder tree, or of the confirmed one when none is staged.
    pub fn local_folders_last_modified(&self) -> (r: i64)
        ensures
            r == (match self.local_folder_table() {
                Some((d, _)) => d,
                None => self.folders_date(),
            }),
    {
        match &self.local_folders {
            Some((date, _)) => *date,
            None => self.folders_last_modified,
        }
    }

    /// Drop the cached serialized payload.
    fn invalidate_snapshot_payload_cache(&mut self)
        ensures
            *final(self) == (StratsState { snapshot_payload_cache: None, ..*old(self) }),
    {
        self.snapshot_payload_cache = None;
    }

    /// The row of `id`, created fresh and appended to the order when missing.
    fn get_or_insert(&mut self, id: u64) -> (idx: usize)
        requires
            old(self).wf(),
        ensures
            final(self).wf(),
            idx < final(self).rows().len(),
            row_views(final(self).rows()) == with_row(row_views(old(self).rows()), id),
            idx == id_index(row_views(final(self).rows()), id),
            final(self).order_spec() == with_order(old(self).order_spec(), row_views(old(self).rows()), id),
            *final(self) == (StratsState { entries: final(self).entries, order: final(self).order, ..*old(self) }),
    {
        let ghost v = row_views(self.entries@);
        let mut i: usize = 0;
        while i < self.entries.len()
            invariant
                0 <= i <= self.entries@.len(),
                v == row_views(self.entries@),
                *self == *old(self),
                self.wf(),
                forall|k: int| 0 <= k < i ==> self.entries@[k].strategy_id != id,
            decreases self.entries@.len() - i,
        {
            if self.entries[i].strategy_id == id {
                proof {
                    assert(v[i as int].0 == id);
                    assert(has_id(v, id));
                    let j = id_index(v, id);
                    assert(v[j].0 == id);
                    assert(self.entries@[j].strategy_id == v[j].0);
                    assert(self.entries@[i as int].strategy_id == v[i as int].0);
                }
                return i;
            }
            i = i + 1;
        }
        proof {
            assert forall|k: int| 0 <= k < v.len() implies #[trigger] v[k].0 != id by {
                assert(v[k].0 == self.entries@[k].strategy_id);
            }
        }
        self.entries.push(StrategyInfo {
            strategy_id: id,
            strategy_ver: 0,
            last_date: 0,
            checked: false,
            prev_checked: false,
            folder_path: String::new(),
        });
        self.order.push(id);
        proof {
            let w = row_views(self.entries@);
            assert(w =~= v.push(blank_row(id)));
            assert(w[v.len() as int].0 == id);
            let j = id_index(w, id);
            if j != v.len() {
                assert(w[j] == v[j]);
            }
            assert forall|a: int, b: int|
                0 <= a < self.entries@.len() && 0 <= b < self.entries@.len() && a != b implies self.entries@[a].strategy_id != self.entries@[b].strategy_id by {
                if a < v.len() && b < v.len() {
                    assert(self.entries@[a].strategy_id == v[a].0);
                    assert(self.entries@[b].strategy_id == v[b].0);
                } else if a < v.len() {
                    assert(self.entries@[a].strategy_id == v[a].0);
                } else {
                    assert(self.entries@[b].strategy_id == v[b].0);
                }
            }
        }
        i
    }

    /// Update lightweight strategy state from decoded snapshot header fields.
    pub fn upsert(&mut self, strategy_id: u64, last_date: u64, folder_path: String)
        requires
            old(self).wf(),
        ensures
            final(self).wf(),
            row_views(final(self).rows()) == upserted(row_views(old(self).rows()), strategy_id, last_date, folder_path@),
            final(self).order_spec() == with_order(old(self).order_spec(), row_views(old(self).rows()), strategy_id),
            final(self).folder_table() == with_folders_of(old(self).folder_table(), folder_path@),
            final(self).snapshot_rows() == old(self).snapshot_rows(),
            final(self).folders_date() == old(self).folders_date(),
            final(self).local_folder_table() == old(self).local_folder_table(),
    {
        let idx = self.get_or_insert(strategy_id);
        let ghost w = row_views(self.entries@);
        proof {
            lemma_with_row_has(row_views(old(self).entries@), strategy_id);
        }
        let path = folder_path.clone();
        self.entries[idx].last_date = last_date;
        self.entries[idx].folder_path = folder_path;
        proof {
            assert(row_views(self.entries@) =~= w.update(idx as int, (strategy_id, w[idx as int].1, last_date, w[idx as int].3, w[idx as int].4, path@)));
        }
        self.create_folders_for_path(path.as_str());
    }

    /// Store `s` under its id among the confirmed snapshots.
    fn put_snapshot_exec(&mut self, s: StrategySnapshot)
        requires
            old(self).wf(),
        ensures
            final(self).wf(),
            final(self).snapshot_rows() == put_snapshot(old(self).snapshot_rows(), snap_view(s)),
            *final(self) == (StratsState { snapshots: final(self).snapshots, ..*old(self) }),
    {
        let ghost v = self.snapshots@;
        let ghost sv = snap_views(v);
        let mut i: usize = 0;
        while i < self.snapshots.len()
            invariant
                0 <= i <= self.snapshots@.len(),
                v == self.snapshots@,
                sv == snap_views(v),
                *self == *old(self),
                self.wf(),
                forall|k: int| 0 <= k < i ==> self.snapshots@[k].strategy_id != s.strategy_id,
            decreases self.snapshots@.len() - i,
        {
            if self.snapshots[i].strategy_id == s.strategy_id {
                proof {
                    assert(sv[i as int].0 == s.strategy_id);
                    assert(has_snapshot(sv, s.strategy_id));
                    let j = choose|j: int| 0 <= j < sv.len() && sv[j].0 == s.strategy_id;
                    assert(sv[j].0 == v[j].strategy_id);
                    assert(j == i);
                }
                self.snapshots.set(i, s);
                proof {
                    assert(snap_views(self.snapshots@) =~= sv.update(i as int, snap_view(s)));
                    let w = self.snapshots@;
                    assert forall|a: int, b: int| 0 <= a < w.len() && 0 <= b < w.len() && a != b implies w[a].strategy_id != w[b].strategy_id by {
                        if a != i && b != i {
                            assert(w[a] == v[a] && w[b] == v[b]);
                        } else if a == i {
                            assert(w[b] == v[b]);
                        } else {
                            assert(w[a] == v[a]);
                        }
                    }
                }
                return;
            }
            i = i + 1;
        }
        proof {
            assert forall|k: int| 0 <= k < sv.len() implies #[trigger] sv[k].0 != s.strategy_id by {
                assert(sv[k].0 == v[k].strategy_id);
            }
        }
        self.snapshots.push(s);
        proof {
            assert(snap_views(self.snapshots@) =~= sv.push(snap_view(s)));
            let w = self.snapshots@;
            assert forall|a: int, b: int| 0 <= a < w.len() && 0 <= b < w.len() && a != b implies w[a].strategy_id != w[b].strategy_id by {
                if a < v.len() && b < v.len() {
                    assert(w[a] == v[a] && w[b] == v[b]);
                } else if a < v.len() {
                    assert(w[a] == v[a]);
                } else {
                    assert(w[b] == v[b]);
                }
            }
        }
    }

    /// Take the header of `s` into its row and store `s`, with no rollback guard.
    fn insert_snapshot_unchecked(&mut self, s: StrategySnapshot)
        requires
            old(self).wf(),
        ensures
            final(self).wf(),
            row_views(final(self).rows()) == from_snapshot(row_views(old(self).rows()), s),
            final(self).order_spec() == with_order(old(self).order_spec(), row_views(old(self).rows()), s.strategy_id),
            final(self).folder_table() == with_folders_of(old(self).folder_table(), s.path@),
            final(self).snapshot_rows() == put_snapshot(old(self).snapshot_rows(), snap_view(s)),
            final(self).folders_date() == old(self).folders_date(),
            final(self).local_folder_table() == old(self).local_folder_table(),
            final(self).local_rows() == old(self).local_rows(),
            final(self).edit_list() == old(self).edit_list(),
            final(self).order_date() == old(self).order_date(),
            !final(self).cached(),
    {
        let idx = self.get_or_insert(s.strategy_id);
        let ghost w = row_views(self.entries@);
        proof {
            lemma_with_row_has(row_views(old(self).entries@), s.strategy_id);
        }
        let path = s.path.clone();
        self.entries[idx].strategy_ver = s.strategy_ver;
        self.entries[idx].last_date = s.last_date;
        self.entries[idx].folder_path = s.path.clone();
        self.entries[idx].checked = s.checked;
        self.entries[idx].prev_checked = s.checked;
        proof {
            assert(row_views(self.entries@) =~= w.update(idx as int, (s.strategy_id, s.strategy_ver, s.last_date, s.checked, s.checked, s.path@)));
        }
        self.create_folders_for_path(path.as_str());
        self.put_snapshot_exec(s);
        self.invalidate_snapshot_payload_cache();
    }

    /// Insert or replace one application-owned strategy without rollback guard.
    ///
    /// For the local strategy list the application is the source of truth, so an
    /// explicit snapshot replaces the previous value even with equal dates or
    /// versions.
    pub fn upsert_local_snapshot(&mut self, strategy: StrategySnapshot)
        requires
            old(self).wf(),
        ensures
            final(self).wf(),
            row_views(final(self).rows()) == from_snapshot(row_views(old(self).rows()), strategy),
            final(self).order_spec() == with_order(old(self).order_spec(), row_views(old(self).rows()), strategy.strategy_id),
            final(self).folder_table() == with_folders_of(old(self).folder_table(), strategy.path@),
            final(self).snapshot_rows() == put_snapshot(old(self).snapshot_rows(), snap_view(strategy)),
            final(self).folders_date() == old(self).folders_date(),
            !final(self).cached(),
    {
        self.insert_snapshot_unchecked(strategy);
    }

    /// Whether the row of `s` is at least as new as `s` in date and version.
    pub fn snapshot_is_old_or_equal(&self, s: &StrategySnapshot) -> (r: bool)
        requires
            self.wf(),
        ensures
            r == is_old_or_equal(row_views(self.rows()), *s),
    {
        let ghost v = row_views(self.entries@);
        let mut i: usize = 0;
        while i < self.entries.len()
            invariant
                0 <= i <= self.entries@.len(),
                v == row_views(self.entries@),
                self.wf(),
                forall|k: int| 0 <= k < i ==> self.entries@[k].strategy_id != s.strategy_id,
            decreases self.entries@.len() - i,
        {
            if self.entries[i].strategy_id == s.strategy_id {
                proof {
                    assert(v[i as int].0 == s.strategy_id);
                    let j = id_index(v, s.strategy_id);
                    assert(v[j].0 == s.strategy_id);
                    assert(self.entries@[j].strategy_id == v[j].0);
                    assert(self.entries@[i as int].strategy_id == v[i as int].0);
                }
                return self.entries[i].last_date >= s.last_date && self.entries[i].strategy_ver >= s.strategy_ver;
            }
            i = i + 1;
        }
        proof {
            assert forall|k: int| 0 <= k < v.len() implies #[trigger] v[k].0 != s.strategy_id by {
                assert(v[k].0 == self.entries@[k].strategy_id);
            }
        }
        false
    }

    /// Apply one decoded strategy snapshot unless its row is at least as new.
    ///
    /// Updates `last_date`, `folder_path`, and `checked` from the header and
    /// stores the full `StrategySnapshot` for API reads and
    /// `TStratSnapshotRequest` replies. Returns whether it was applied.
    pub fn upsert_from_snapshot(&mut self, s: &StrategySnapshot) -> (r: bool)
        requires
            old(self).wf(),
        ensures
            final(self).wf(),
            r == !is_old_or_equal(row_views(old(self).rows()), *s),
            !r ==> *final(self) == *old(self),
            r ==> row_views(final(self).rows()) == from_snapshot(row_views(old(self).rows()), *s),
            r ==> final(self).order_spec() == with_order(old(self).order_spec(), row_views(old(self).rows()), s.strategy_id),
            r ==> final(self).folder_table() == with_folders_of(old(self).folder_table(), s.path@),
            r ==> final(self).snapshot_rows() == put_snapshot(old(self).snapshot_rows(), snap_view(*s)),
            r ==> !final(self).cached(),
            final(self).folders_date() == old(self).folders_date(),
            final(self).local_folder_table() == old(self).local_folder_table(),
            final(self).local_rows() == old(self).local_rows(),
            final(self).edit_list() == old(self).edit_list(),
            final(self).order_date() == old(self).order_date(),
    {
        if self.snapshot_is_old_or_equal(s) {
            return false;
        }
        let copy = copy_snapshot(s);
        self.insert_snapshot_unchecked(copy);
        true
    }

    /// Whether folder key `candidate_key` is `folder_key` or lies below it.
    fn is_same_or_child_folder(candidate_key: &str, folder_key: &str) -> (r: bool)
        ensures
            r == same_or_child(candidate_key@, folder_key@),
    {
        let c = chars_of(candidate_key);
        let f = chars_of(folder_key);
        if c.len() < f.len() {
            return false;
        }
        let mut i: usize = 0;
        while i < f.len()
            invariant
                0 <= i <= f@.len() <= c@.len(),
                c@ == candidate_key@,
                f@ == folder_key@,
                forall|k: int| 0 <= k < i ==> c@[k] == f@[k],
            decreases f@.len() - i,
        {
            if c[i] != f[i] {
                proof {
                    assert(c@.take(f@.len() as int)[i as int] == c@[i as int]);
                }
                return false;
            }
            i = i + 1;
        }
        proof {
            assert(c@.take(f@.len() as int) =~= f@);
        }
        if c.len() == f.len() {
            proof {
                assert(c@ =~= f@);
            }
            return true;
        }
        c[f.len()] == '/'
    }

    /// Whether some strategy row lies in the folder `folder_key` or below it.
    fn folder_has_strategies(&self, folder_key: &str) -> (r: bool)
        ensures
            r == rows_in_folder(row_views(self.rows()), folder_key@),
    {
        let ghost v = row_views(self.entries@);
        let mut i: usize = 0;
        while i < self.entries.len()
            invariant
                0 <= i <= self.entries@.len(),
                v == row_views(self.entries@),
                forall|k: int| 0 <= k < i ==> !same_or_child(lowercase(#[trigger] v[k].5), folder_key@),
            decreases self.entries@.len() - i,
        {
            let key = to_lowercase(self.entries[i].folder_path.as_str());
            if StratsState::is_same_or_child_folder(key.as_str(), folder_key) {
                proof {
                    assert(v[i as int].5 == self.entries@[i as int].folder_path@);
                    assert(same_or_child(lowercase(v[i as int].5), folder_key@));
                }
                return true;
            }
            proof {
                assert(v[i as int].5 == self.entries@[i as int].folder_path@);
            }
            i = i + 1;
        }
        false
    }

    /// Delete the folder `path` and the folders below it, unless it is missing
    /// or a strategy lies in it. Gives whether it was deleted.
    pub fn delete_folder_by_path(&mut self, path: &str) -> (r: bool)
        requires
            old(self).wf(),
        ensures
            final(self).wf(),
            r == folder_deletable(old(self).folder_table(), row_views(old(self).rows()), path@),
            r ==> final(self).folder_table() == drop_folder(old(self).folder_table(), lowercase(path@)),
            r ==> !final(self).cached(),
            !r ==> *final(self) == *old(self),
            final(self).rows() == old(self).rows(),
            final(self).order_spec() == old(self).order_spec(),
            final(self).snapshot_rows() == old(self).snapshot_rows(),
            final(self).folders_date() == old(self).folders_date(),
            final(self).local_folder_table() == old(self).local_folder_table(),
    {
        if path.is_empty() {
            return false;
        }
        let key = to_lowercase(path);
        match find_folder(&self.folders, &key) {
            None => {
                return false;
            },
            Some(i) => {
                proof {
                    assert(folder_pairs(self.folders@)[i as int].0 == key@);
                }
            },
        }
        if self.folder_has_strategies(key.as_str()) {
            return false;
        }
        drop_folder_exec(&mut self.folders, key.as_str());
        self.invalidate_snapshot_payload_cache();
        true
    }

    /// The position of the row of `id`.
    fn find_row(&self, id: u64) -> (r: Option<usize>)
        requires
            self.wf(),
        ensures
            match r {
                Some(i) => i < self.rows().len() && has_id(row_views(self.rows()), id) && i == id_index(
                    row_views(self.rows()),
                    id,
                ),
                None => !has_id(row_views(self.rows()), id),
            },
    {
        let ghost v = row_views(self.entries@);
        let mut i: usize = 0;
        while i < self.entries.len()
            invariant
                0 <= i <= self.entries@.len(),
                v == row_views(self.entries@),
                self.wf(),
                forall|k: int| 0 <= k < i ==> self.entries@[k].strategy_id != id,
            decreases self.entries@.len() - i,
        {
            if self.entries[i].strategy_id == id {
                proof {
                    assert(v[i as int].0 == id);
                    let j = id_index(v, id);
                    assert(v[j].0 == self.entries@[j].strategy_id);
                }
                return Some(i);
            }
            i = i + 1;
        }
        proof {
            assert forall|k: int| 0 <= k < v.len() implies #[trigger] v[k].0 != id by {
                assert(v[k].0 == self.entries@[k].strategy_id);
            }
        }
        None
    }

    /// Forget strategy `id`: its row, its place in the order, its snapshot,
    /// its local copy and its pending edit. Gives whether it had a row.
    pub fn remove_strategy_by_id(&mut self, strategy_id: u64) -> (r: bool)
        requires
            old(self).wf(),
        ensures
            final(self).wf(),
            r == has_id(row_views(old(self).rows()), strategy_id),
            !r ==> *final(self) == *old(self),
            r ==> row_views(final(self).rows()) == without_row(row_views(old(self).rows()), strategy_id),
            r ==> final(self).order_spec() == retain_ne(old(self).order_spec(), strategy_id),
            r ==> final(self).snapshot_rows() == without_snapshot(old(self).snapshot_rows(), strategy_id),
            r ==> final(self).edit_ids() == retain_ne(old(self).edit_ids(), strategy_id),
            r ==> final(self).local_rows() == (match old(self).local_rows() {
                Some(v) => Some(snaps_without(v, strategy_id)),
                None => None,
            }),
            r ==> !final(self).cached(),
            final(self).folder_table() == old(self).folder_table(),
            final(self).folders_date() == old(self).folders_date(),
            final(self).local_folder_table() == old(self).local_folder_table(),
    {
        let found = self.find_row(strategy_id);
        let i = match found {
            None => {
                return false;
            },
            Some(i) => i,
        };
        let ghost before = self.entries@;
        self.entries.remove(i);
        proof {
            assert(row_views(self.entries@) =~= row_views(before).remove(i as int));
            assert forall|a: int, b: int|
                0 <= a < self.entries@.len() && 0 <= b < self.entries@.len() && a != b implies self.entries@[a].strategy_id
                != self.entries@[b].strategy_id by {
                let oa = if a < i { a } else { a + 1 };
                let ob = if b < i { b } else { b + 1 };
                assert(self.entries@[a] == before[oa] && self.entries@[b] == before[ob]);
            }
        }
        retain_ne_exec(&mut self.order, strategy_id);
        remove_snapshot_exec(&mut self.snapshots, strategy_id);
        self.remove_local_snapshot(strategy_id);
        self.invalidate_snapshot_payload_cache();
        true
    }

    /// Forget every strategy row, the order and the confirmed snapshots.
    fn clear_entries(&mut self)
        requires
            old(self).wf(),
        ensures
            final(self).wf(),
            final(self).rows() == Seq::<StrategyInfo>::empty(),
            final(self).order_spec() == Seq::<u64>::empty(),
            final(self).snapshot_rows() == Seq::<SnapView>::empty(),
            final(self).folder_table() == old(self).folder_table(),
            final(self).folders_date() == old(self).folders_date(),
            final(self).local_folder_table() == old(self).local_folder_table(),
            final(self).local_rows() == old(self).local_rows(),
            final(self).edit_ids() == old(self).edit_ids(),
            !final(self).cached(),
    {
        self.entries = Vec::new();
        self.order = Vec::new();
        self.snapshots = Vec::new();
        proof {
            assert(snap_views(self.snapshots@) =~= Seq::<SnapView>::empty());
        }
        self.invalidate_snapshot_payload_cache();
    }

    /// Replace the application-owned strategy list.
    ///
    /// User code normally calls this before init. After that the dispatcher owns
    /// the list, sends it during init, and maintains it through the protocol.
    pub fn replace_with_snapshots(&mut self, strategies: &[StrategySnapshot])
        requires
            old(self).wf(),
        ensures
            final(self).wf(),
            row_views(final(self).rows()) == rows_after(Seq::empty(), strategies@),
            final(self).order_spec() == order_after(Seq::empty(), Seq::empty(), strategies@),
            final(self).snapshot_rows() == snaps_after(Seq::empty(), strategies@),
            final(self).folder_table() == folders_after(old(self).folder_table(), strategies@),
            final(self).folders_date() == old(self).folders_date(),
            !final(self).cached(),
    {
        self.clear_entries();
        proof {
            assert(row_views(self.entries@) =~= Seq::<RowView>::empty());
        }
        let ghost t0 = self.folder_table();
        let mut i: usize = 0;
        while i < strategies.len()
            invariant
                0 <= i <= strategies@.len(),
                self.wf(),
                row_views(self.rows()) == rows_after(Seq::empty(), strategies@.take(i as int)),
                self.order_spec() == order_after(Seq::empty(), Seq::empty(), strategies@.take(i as int)),
                self.snapshot_rows() == snaps_after(Seq::empty(), strategies@.take(i as int)),
                self.folder_table() == folders_after(t0, strategies@.take(i as int)),
                self.folders_date() == old(self).folders_date(),
                !self.cached(),
            decreases strategies@.len() - i,
        {
            proof {
                assert(strategies@.take(i + 1).drop_last() =~= strategies@.take(i as int));
                assert(strategies@.take(i + 1).last() == strategies@[i as int]);
            }
            let copy = copy_snapshot(&strategies[i]);
            self.insert_snapshot_unchecked(copy);
            i = i + 1;
        }
        proof {
            assert(strategies@.take(strategies@.len() as int) =~= strategies@);
        }
    }

    /// Set the checked state of each item's strategy, creating rows as needed.
    pub fn upsert_checked_items(&mut self, items: &[StratCheckedItem])
        requires
            old(self).wf(),
        ensures
            final(self).wf(),
            row_views(final(self).rows()) == rows_checked(row_views(old(self).rows()), items@),
            final(self).order_spec() == order_checked(old(self).order_spec(), row_views(old(self).rows()), items@),
            final(self).snapshot_rows() == old(self).snapshot_rows(),
            final(self).folder_table() == old(self).folder_table(),
            final(self).folders_date() == old(self).folders_date(),
            final(self).local_folder_table() == old(self).local_folder_table(),
            final(self).cached() == old(self).cached(),
    {
        let ghost v0 = row_views(self.entries@);
        let ghost o0 = self.order@;
        let mut i: usize = 0;
        while i < items.len()
            invariant
                0 <= i <= items@.len(),
                self.wf(),
                row_views(self.rows()) == rows_checked(v0, items@.take(i as int)),
                self.order_spec() == order_checked(o0, v0, items@.take(i as int)),
                self.snapshot_rows() == old(self).snapshot_rows(),
                self.folder_table() == old(self).folder_table(),
                self.folders_date() == old(self).folders_date(),
                self.local_folder_table() == old(self).local_folder_table(),
                self.cached() == old(self).cached(),
            decreases items@.len() - i,
        {
            proof {
                assert(items@.take(i + 1).drop_last() =~= items@.take(i as int));
                assert(items@.take(i + 1).last() == items@[i as int]);
            }
            let it = items[i];
            let idx = self.get_or_insert(it.strategy_id);
            let ghost w = row_views(self.entries@);
            proof {
                lemma_with_row_has(rows_checked(v0, items@.take(i as int)), it.strategy_id);
            }
            self.entries[idx].checked = it.checked;
            proof {
                assert(row_views(self.entries@) =~= w.update(idx as int, (w[idx as int].0, w[idx as int].1, w[idx as int].2, it.checked, w[idx as int].4, w[idx as int].5)));
            }
            i = i + 1;
        }
        proof {
            assert(items@.take(items@.len() as int) =~= items@);
        }
    }

    /// Create the folders of each path of `ps` in `folders`, in turn.
    fn add_folder_paths(folders: &mut Vec<(String, String)>, ps: &[String])
        requires
            keys_unique(folder_pairs(old(folders)@)),
        ensures
            keys_unique(folder_pairs(final(folders)@)),
            folder_pairs(final(folders)@) == with_paths(folder_pairs(old(folders)@), texts_of(ps@)),
    {
        let ghost t0 = folder_pairs(folders@);
        let mut i: usize = 0;
        while i < ps.len()
            invariant
                0 <= i <= ps@.len(),
                keys_unique(folder_pairs(folders@)),
                folder_pairs(folders@) == with_paths(t0, texts_of(ps@).take(i as int)),
            decreases ps@.len() - i,
        {
            proof {
                assert(texts_of(ps@).take(i + 1).drop_last() =~= texts_of(ps@).take(i as int));
                assert(texts_of(ps@).take(i + 1).last() == ps@[i as int]@);
            }
            add_folder_path(folders, ps[i].as_str());
            i = i + 1;
        }
        proof {
            assert(texts_of(ps@).take(ps@.len() as int) =~= texts_of(ps@));
        }
    }

    /// Create the folder of each snapshot of `v` in `folders`, in turn.
    fn add_snapshot_folders(folders: &mut Vec<(String, String)>, v: &Vec<StrategySnapshot>)
        requires
            keys_unique(folder_pairs(old(folders)@)),
        ensures
            keys_unique(folder_pairs(final(folders)@)),
            folder_pairs(final(folders)@) == with_paths(folder_pairs(old(folders)@), snapshot_paths(snap_views(v@))),
    {
        let ghost t0 = folder_pairs(folders@);
        let ghost ps = snapshot_paths(snap_views(v@));
        let mut i: usize = 0;
        while i < v.len()
            invariant
                0 <= i <= v@.len(),
                ps == snapshot_paths(snap_views(v@)),
                keys_unique(folder_pairs(folders@)),
                folder_pairs(folders@) == with_paths(t0, ps.take(i as int)),
            decreases v@.len() - i,
        {
            proof {
                assert(ps.take(i + 1).drop_last() =~= ps.take(i as int));
                assert(ps.take(i + 1).last() == v@[i as int].path@);
            }
            add_folder_path(folders, v[i].path.as_str());
            i = i + 1;
        }
        proof {
            assert(ps.take(v@.len() as int) =~= ps);
        }
    }

    /// A copy of a folder table.
    fn copy_folders(folders: &Vec<(String, String)>) -> (r: Vec<(String, String)>)
        ensures
            folder_pairs(r@) == folder_pairs(folders@),
    {
        let mut out: Vec<(String, String)> = Vec::new();
        let mut i: usize = 0;
        while i < folders.len()
            invariant
                0 <= i <= folders@.len(),
                folder_pairs(out@) == folder_pairs(folders@).take(i as int),
            decreases folders@.len() - i,
        {
            let ghost before = folder_pairs(out@);
            let k = folders[i].0.clone();
            let p = folders[i].1.clone();
            out.push((k, p));
            proof {
                let fp = folder_pairs(folders@);
                assert(folder_pairs(out@) =~= before.push(fp[i as int]));
                assert(fp.take(i + 1) =~= fp.take(i as int).push(fp[i as int]));
            }
            i = i + 1;
        }
        proof {
            assert(folder_pairs(folders@).take(folders@.len() as int) =~= folder_pairs(folders@));
        }
        out
    }

    /// Whether the tables hold the same keys.
    fn same_folder_keys(a: &Vec<(String, String)>, b: &Vec<(String, String)>) -> (r: bool)
        ensures
            r == same_keys(folder_pairs(a@), folder_pairs(b@)),
    {
        if a.len() != b.len() {
            return false;
        }
        let mut i: usize = 0;
        while i < a.len()
            invariant
                0 <= i <= a@.len(),
                a@.len() == b@.len(),
                forall|k: int| 0 <= k < i ==> has_key(folder_pairs(b@), #[trigger] folder_pairs(a@)[k].0),
            decreases a@.len() - i,
        {
            match find_folder(b, &a[i].0) {
                None => {
                    proof {
                        assert(folder_pairs(a@)[i as int].0 == a@[i as int].0@);
                    }
                    return false;
                },
                Some(j) => {
                    proof {
                        assert(folder_pairs(b@)[j as int].0 == folder_pairs(a@)[i as int].0);
                    }
                },
            }
            i = i + 1;
        }
        true
    }

    /// The paths of the folders of `t` whose keys `wanted` lacks.
    fn absent_folder_paths(t: &Vec<(String, String)>, wanted: &Vec<(String, String)>) -> (r: Vec<String>)
        ensures
            texts_of(r@) == absent_paths(folder_pairs(t@), folder_pairs(wanted@)),
    {
        let ghost tp = folder_pairs(t@);
        let mut out: Vec<String> = Vec::new();
        let mut i: usize = 0;
        while i < t.len()
            invariant
                0 <= i <= t@.len(),
                tp == folder_pairs(t@),
                texts_of(out@) == absent_paths(tp.take(i as int), folder_pairs(wanted@)),
            decreases t@.len() - i,
        {
            proof {
                assert(tp.take(i + 1).drop_last() =~= tp.take(i as int));
                assert(tp.take(i + 1).last() == tp[i as int]);
            }
            match find_folder(wanted, &t[i].0) {
                Some(j) => {
                    proof {
                        assert(folder_pairs(wanted@)[j as int].0 == tp[i as int].0);
                    }
                },
                None => {
                    let ghost before = texts_of(out@);
                    out.push(t[i].1.clone());
                    proof {
                        assert(texts_of(out@) =~= before.push(t@[i as int].1@));
                    }
                },
            }
            i = i + 1;
        }
        proof {
            assert(tp.take(t@.len() as int) =~= tp);
        }
        out
    }

    /// Apply the core's folder tree of date `date`, unless it is not newer than
    /// the confirmed one: its folders are created, every other folder is
    /// deleted where it holds no strategy, and a staged local tree that is not
    /// newer is dropped.
    pub fn apply_server_folders(&mut self, paths: &[String], date: i64)
        requires
            old(self).wf(),
        ensures
            final(self).wf(),
            date <= old(self).folders_date() ==> *final(self) == *old(self),
            date > old(self).folders_date() ==> final(self).folder_table() == server_folders(
                old(self).folder_table(),
                row_views(old(self).rows()),
                texts_of(paths@),
            ),
            date > old(self).folders_date() ==> final(self).folders_date() == date,
            date > old(self).folders_date() ==> final(self).local_folder_table() == (match old(self).local_folder_table() {
                Some((d, t)) => if date >= d { None } else { Some((d, t)) },
                None => None,
            }),
            date > old(self).folders_date() ==> !final(self).cached(),
            final(self).rows() == old(self).rows(),
            final(self).order_spec() == old(self).order_spec(),
            final(self).snapshot_rows() == old(self).snapshot_rows(),
    {
        if date <= self.folders_last_modified {
            return;
        }
        let ghost rows = row_views(self.entries@);
        let mut wanted: Vec<(String, String)> = Vec::new();
        proof {
            assert(folder_pairs(wanted@) =~= Seq::<(Seq<char>, Seq<char>)>::empty());
        }
        StratsState::add_folder_paths(&mut wanted, paths);
        let mut i: usize = 0;
        let ghost t0 = self.folder_table();
        while i < paths.len()
            invariant
                0 <= i <= paths@.len(),
                self.wf(),
                self.folder_table() == with_paths(t0, texts_of(paths@).take(i as int)),
                row_views(self.rows()) == rows,
                self.rows() == old(self).rows(),
                self.order_spec() == old(self).order_spec(),
                self.snapshot_rows() == old(self).snapshot_rows(),
                self.folders_date() == old(self).folders_date(),
                self.local_folder_table() == old(self).local_folder_table(),
            decreases paths@.len() - i,
        {
            proof {
                assert(texts_of(paths@).take(i + 1).drop_last() =~= texts_of(paths@).take(i as int));
                assert(texts_of(paths@).take(i + 1).last() == paths@[i as int]@);
            }
            self.create_folders_for_path(paths[i].as_str());
            i = i + 1;
        }
        proof {
            assert(texts_of(paths@).take(paths@.len() as int) =~= texts_of(paths@));
        }
        let absent = StratsState::absent_folder_paths(&self.folders, &wanted);
        let ghost t1 = self.folder_table();
        let mut j: usize = 0;
        while j < absent.len()
            invariant
                0 <= j <= absent@.len(),
                self.wf(),
                self.folder_table() == deleted_folders(t1, rows, texts_of(absent@).take(j as int)),
                row_views(self.rows()) == rows,
                self.rows() == old(self).rows(),
                self.order_spec() == old(self).order_spec(),
                self.snapshot_rows() == old(self).snapshot_rows(),
                self.folders_date() == old(self).folders_date(),
                self.local_folder_table() == old(self).local_folder_table(),
            decreases absent@.len() - j,
        {
            proof {
                assert(texts_of(absent@).take(j + 1).drop_last() =~= texts_of(absent@).take(j as int));
                assert(texts_of(absent@).take(j + 1).last() == absent@[j as int]@);
            }
            self.delete_folder_by_path(absent[j].as_str());
            j = j + 1;
        }
        proof {
            assert(texts_of(absent@).take(absent@.len() as int) =~= texts_of(absent@));
        }
        self.folders_last_modified = date;
        let clear = match &self.local_folders {
            Some((pending, _)) => date >= *pending,
            None => false,
        };
        if clear {
            self.local_folders = None;
        }
        self.invalidate_snapshot_payload_cache();
    }

    /// Stage the application's folder tree: the given paths (or the previous
    /// staged or confirmed tree when none are given) plus the folder of every
    /// local (or confirmed) strategy. Gives `false` and changes nothing when
    /// that holds the same keys as the previous tree; otherwise stages it with
    /// a date after the previous one, no earlier than `now_ms`.
    pub fn stage_local_folders(&mut self, paths: Option<&[String]>, now_ms: i64) -> (r: bool)
        requires
            old(self).wf(),
        ensures
            final(self).wf(),
            ({
                let previous = match old(self).local_folder_table() {
                    Some((_, t)) => t,
                    None => old(self).folder_table(),
                };
                let given = match paths {
                    Some(ps) => Some(texts_of(ps@)),
                    None => None,
                };
                let strategies = match old(self).local_rows() {
                    Some(v) => v,
                    None => old(self).snapshot_rows(),
                };
                let wanted = wanted_local_folders(previous, given, strategies);
                let prev_date = match old(self).local_folder_table() {
                    Some((d, _)) => d,
                    None => old(self).folders_date(),
                };
                let date = if now_ms >= (if prev_date == i64::MAX { prev_date } else { (prev_date + 1) as i64 }) {
                    now_ms
                } else {
                    (if prev_date == i64::MAX { prev_date } else { (prev_date + 1) as i64 })
                };
                &&& r == !same_keys(wanted, previous)
                &&& !r ==> *final(self) == *old(self)
                &&& r ==> final(self).local_folder_table() == Some((date, wanted))
                &&& r ==> !final(self).cached()
            }),
            final(self).rows() == old(self).rows(),
            final(self).order_spec() == old(self).order_spec(),
            final(self).snapshot_rows() == old(self).snapshot_rows(),
            final(self).folder_table() == old(self).folder_table(),
            final(self).folders_date() == old(self).folders_date(),
    {
        let previous: Vec<(String, String)> = match &self.local_folders {
            Some((_, t)) => StratsState::copy_folders(t),
            None => StratsState::copy_folders(&self.folders),
        };
        let mut wanted: Vec<(String, String)> = match paths {
            Some(ps) => {
                let mut w: Vec<(String, String)> = Vec::new();
                proof {
                    assert(folder_pairs(w@) =~= Seq::<(Seq<char>, Seq<char>)>::empty());
                }
                StratsState::add_folder_paths(&mut w, ps);
                w
            },
            None => StratsState::copy_folders(&previous),
        };
        match &self.local_snapshots {
            Some(local) => StratsState::add_snapshot_folders(&mut wanted, local),
            None => StratsState::add_snapshot_folders(&mut wanted, &self.snapshots),
        }
        if StratsState::same_folder_keys(&wanted, &previous) {
            return false;
        }
        let prev_date = self.local_folders_last_modified();
        let next = if prev_date == i64::MAX { prev_date } else { prev_date + 1 };
        let date = if now_ms >= next { now_ms } else { next };
        self.local_folders = Some((date, wanted));
        self.invalidate_snapshot_payload_cache();
        true
    }

    /// Mark every pending edit whose deadline has passed at `now_ms` as timed
    /// out and give their strategy ids in ascending order.
    pub fn tick_strategy_edit_timeouts(&mut self, now_ms: u64) -> (r: Vec<u64>)
        requires
            old(self).wf(),
        ensures
            final(self).wf(),
            ascending(r@),
            r@.to_multiset() == due_edit_ids(old(self).edit_list(), now_ms).to_multiset(),
            final(self).edit_list().len() == old(self).edit_list().len(),
            forall|i: int|
                0 <= i < old(self).edit_list().len() ==> {
                    let (id, e) = #[trigger] old(self).edit_list()[i];
                    let (id2, e2) = final(self).edit_list()[i];
                    &&& id2 == id
                    &&& e2.desired_spec() == e.desired_spec()
                    &&& e2.submitted_at_spec() == e.submitted_at_spec()
                    &&& e2.deadline_spec() == e.deadline_spec()
                    &&& e2.status_spec() == (if edit_due(e, now_ms) {
                        StrategyEditStatus::TimedOut
                    } else {
                        e.status_spec()
                    })
                },
            final(self).rows() == old(self).rows(),
            final(self).order_spec() == old(self).order_spec(),
            final(self).snapshot_rows() == old(self).snapshot_rows(),
            final(self).folder_table() == old(self).folder_table(),
            final(self).folders_date() == old(self).folders_date(),
            final(self).local_folder_table() == old(self).local_folder_table(),
            final(self).local_rows() == old(self).local_rows(),
            final(self).cached() == old(self).cached(),
    {
        let ghost e = self.strategy_edits@;
        let mut out: Vec<u64> = Vec::new();
        let mut i: usize = 0;
        while i < self.strategy_edits.len()
            invariant
                0 <= i <= self.strategy_edits@.len(),
                self.strategy_edits@.len() == e.len(),
                ascending(out@),
                out@.to_multiset() == due_edit_ids(e.take(i as int), now_ms).to_multiset(),
                forall|k: int|
                    #![trigger self.strategy_edits@[k]]
                    0 <= k < e.len() ==> {
                        let (id, x) = e[k];
                        let (id2, x2) = self.strategy_edits@[k];
                        &&& id2 == id
                        &&& x2.desired == x.desired
                        &&& x2.submitted_at == x.submitted_at
                        &&& x2.deadline_ms == x.deadline_ms
                        &&& x2.status == (if k < i && edit_due(x, now_ms) {
                            StrategyEditStatus::TimedOut
                        } else {
                            x.status
                        })
                    },
                self.entries == old(self).entries,
                self.order == old(self).order,
                self.snapshots == old(self).snapshots,
                self.folders == old(self).folders,
                self.folders_last_modified == old(self).folders_last_modified,
                self.local_folders == old(self).local_folders,
                self.local_snapshots == old(self).local_snapshots,
                self.snapshot_payload_cache == old(self).snapshot_payload_cache,
                self.last_modified == old(self).last_modified,
            decreases self.strategy_edits@.len() - i,
        {
            proof {
                assert(e.take(i + 1).drop_last() =~= e.take(i as int));
                assert(e.take(i + 1).last() == e[i as int]);
            }
            let due = self.strategy_edits[i].1.status == StrategyEditStatus::Pending
                && self.strategy_edits[i].1.deadline_ms <= now_ms;
            proof {
                let (id0, x0) = e[i as int];
                assert(self.strategy_edits@[i as int].1.status == x0.status);
                assert(due == edit_due(x0, now_ms));
            }
            let ghost before = out@;
            if due {
                let id = self.strategy_edits[i].0;
                self.strategy_edits[i].1.status = StrategyEditStatus::TimedOut;
                insert_ascending(&mut out, id);
                proof {
                    broadcast use vstd::seq_lib::group_to_multiset_ensures;
                    let d = due_edit_ids(e.take(i as int), now_ms);
                    assert(due_edit_ids(e.take(i + 1), now_ms) == d.push(id));
                    assert(d.push(id).to_multiset() =~= d.to_multiset().insert(id));
                }
            }
            i = i + 1;
        }
        proof {
            assert(e.take(e.len() as int) =~= e);
        }
        out
    }

    /// The row of strategy `id`, if there is one.
    pub fn strategy(&self, id: u64) -> (r: Option<&StrategyInfo>)
        requires
            self.wf(),
        ensures
            match r {
                Some(row) => has_id(row_views(self.rows()), id) && row_view(*row) == row_views(
                    self.rows(),
                )[id_index(row_views(self.rows()), id)],
                None => !has_id(row_views(self.rows()), id),
            },
    {
        match self.find_row(id) {
            Some(i) => Some(&self.entries[i]),
            None => None,
        }
    }

    /// Strategy ids in display order.
    pub fn order(&self) -> (r: &[u64])
        ensures
            r@ == self.order_spec(),
    {
        self.order.as_slice()
    }

    /// The confirmed snapshot of strategy `id`, if there is one.
    pub fn snapshot(&self, id: u64) -> (r: Option<&StrategySnapshot>)
        requires
            self.wf(),
        ensures
            match r {
                Some(s) => has_snapshot(self.snapshot_rows(), id) && snap_view(*s)
                    == self.snapshot_rows()[snapshot_index(self.snapshot_rows(), id)],
                None => !has_snapshot(self.snapshot_rows(), id),
            },
    {
        match find_snapshot(&self.snapshots, id) {
            Some(i) => Some(&self.snapshots[i]),
            None => None,
        }
    }

    /// Number of strategy rows.
    pub fn len(&self) -> (r: usize)
        ensures
            r == self.rows().len(),
    {
        self.entries.len()
    }

    /// The ids of the local list, or the confirmed order when none is staged.
    fn current_order_ids(&self) -> (r: Vec<u64>)
        ensures
            r@ == (match self.local_rows() {
                Some(v) => snap_ids(v),
                None => self.order_spec(),
            }),
    {
        match &self.local_snapshots {
            Some(local) => {
                let mut out: Vec<u64> = Vec::new();
                let mut i: usize = 0;
                while i < local.len()
                    invariant
                        0 <= i <= local@.len(),
                        out@ == snap_ids(snap_views(local@)).take(i as int),
                    decreases local@.len() - i,
                {
                    out.push(local[i].strategy_id);
                    proof {
                        assert(out@ =~= snap_ids(snap_views(local@)).take(i + 1));
                    }
                    i = i + 1;
                }
                proof {
                    assert(snap_ids(snap_views(local@)).take(local@.len() as int) =~= snap_ids(snap_views(local@)));
                }
                out
            },
            None => {
                let mut out: Vec<u64> = Vec::new();
                let mut i: usize = 0;
                while i < self.order.len()
                    invariant
                        0 <= i <= self.order@.len(),
                        out@ == self.order@.take(i as int),
                    decreases self.order@.len() - i,
                {
                    out.push(self.order[i]);
                    proof {
                        assert(out@ =~= self.order@.take(i + 1));
                    }
                    i = i + 1;
                }
                proof {
                    assert(self.order@.take(self.order@.len() as int) =~= self.order@);
                }
                out
            },
        }
    }

    /// Whether the incoming strategies come in the order of the local list
    /// (or of the confirmed order when no local list is staged).
    pub fn local_order_matches(&self, strategies: &[StrategySnapshot]) -> (r: bool)
        ensures
            r == (match self.local_rows() {
                Some(v) => snap_ids(v) == snapshot_ids(strategies@),
                None => self.order_spec() == snapshot_ids(strategies@),
            }),
    {
        let ghost incoming = snapshot_ids(strategies@);
        let ids = self.current_order_ids();
        if ids.len() != strategies.len() {
            proof {
                assert(ids@.len() != incoming.len());
            }
            return false;
        }
        let mut k: usize = 0;
        while k < ids.len()
            invariant
                0 <= k <= ids@.len() == strategies@.len(),
                incoming == snapshot_ids(strategies@),
                ids@ == (match self.local_rows() {
                    Some(v) => snap_ids(v),
                    None => self.order_spec(),
                }),
                forall|m: int| 0 <= m < k ==> ids@[m] == incoming[m],
            decreases ids@.len() - k,
        {
            if ids[k] != strategies[k].strategy_id {
                proof {
                    assert(ids@[k as int] != incoming[k as int]);
                }
                return false;
            }
            k = k + 1;
        }
        proof {
            assert(ids@ =~= incoming);
        }
        true
    }

    /// Apply the core's strategy order of date `date`, unless an order was
    /// applied before and `date` is not newer: strategies are stably sorted
    /// by their place in `order`, and ones it does not list keep their order
    /// at the end (they are not deleted). With `update_local` the staged local
    /// list is sorted the same way.
    pub fn apply_server_order(&mut self, order: &[u64], date: u64, update_local: bool)
        requires
            old(self).wf(),
        ensures
            final(self).wf(),
            old(self).order_date() != 0 && date <= old(self).order_date() ==> *final(self) == *old(self),
            !(old(self).order_date() != 0 && date <= old(self).order_date()) ==> {
                &&& final(self).order_spec() == order_by_rank(old(self).order_spec(), id_key(), order@)
                &&& final(self).local_rows() == (match old(self).local_rows() {
                    Some(v) => if update_local {
                        Some(order_by_rank(v, snap_key(), order@))
                    } else {
                        Some(v)
                    },
                    None => None,
                })
                &&& final(self).order_date() == date
                &&& !final(self).cached()
                &&& final(self).rows() == old(self).rows()
                &&& final(self).snapshot_rows() == old(self).snapshot_rows()
                &&& final(self).folder_table() == old(self).folder_table()
                &&& final(self).folders_date() == old(self).folders_date()
                &&& final(self).local_folder_table() == old(self).local_folder_table()
                &&& final(self).edit_list() == old(self).edit_list()
            },
    {
        if self.last_modified != 0 && date <= self.last_modified {
            return;
        }
        let sorted = order_ids_by_rank(&self.order, order);
        self.order = sorted;
        if update_local {
            let reordered = match &self.local_snapshots {
                Some(local) => Some(order_snapshots_by_rank(local, order)),
                None => None,
            };
            self.local_snapshots = reordered;
        }
        self.last_modified = date;
        self.invalidate_snapshot_payload_cache();
    }

    /// Set the checked state of the local copy of strategy `id`. Gives whether
    /// a local copy changed.
    pub fn set_local_snapshot_checked(&mut self, strategy_id: u64, checked: bool) -> (r: bool)
        requires
            old(self).wf(),
        ensures
            final(self).wf(),
            r == (match old(self).local_rows() {
                Some(v) => has_snapshot(v, strategy_id) && v[first_snapshot_index(v, strategy_id)].3 != checked,
                None => false,
            }),
            !r ==> *final(self) == *old(self),
            r ==> final(self).local_rows() == (match old(self).local_rows() {
                Some(v) => Some(snap_with_checked(v, strategy_id, checked)),
                None => None,
            }),
            final(self).rows() == old(self).rows(),
            final(self).order_spec() == old(self).order_spec(),
            final(self).snapshot_rows() == old(self).snapshot_rows(),
            final(self).folder_table() == old(self).folder_table(),
            final(self).cached() == old(self).cached(),
    {
        let found: Option<usize> = match &self.local_snapshots {
            Some(local) => find_first_snapshot(local, strategy_id),
            None => None,
        };
        let p = match found {
            Some(p) => p,
            None => {
                return false;
            },
        };
        match &mut self.local_snapshots {
            Some(local) => {
                if local[p].checked == checked {
                    return false;
                }
                let ghost v = snap_views(local@);
                local[p].checked = checked;
                proof {
                    assert(snap_views(local@) =~= v.update(p as int, (v[p as int].0, v[p as int].1, v[p as int].2, checked, v[p as int].4, v[p as int].5)));
                }
                true
            },
            None => false,
        }
    }

    /// Take a core snapshot into the staged local list, if one is staged.
    pub fn set_local_snapshot_from_server(&mut self, snapshot: StrategySnapshot, force: bool)
        requires
            old(self).wf(),
        ensures
            final(self).wf(),
            final(self).local_rows() == (match old(self).local_rows() {
                Some(v) => Some(local_from_server(v, snap_view(snapshot), force)),
                None => None,
            }),
            final(self).rows() == old(self).rows(),
            final(self).order_spec() == old(self).order_spec(),
            final(self).snapshot_rows() == old(self).snapshot_rows(),
            final(self).folder_table() == old(self).folder_table(),
            final(self).folders_date() == old(self).folders_date(),
            final(self).local_folder_table() == old(self).local_folder_table(),
            final(self).edit_list() == old(self).edit_list(),
            final(self).order_date() == old(self).order_date(),
            final(self).cached() == old(self).cached(),
            final(self).payload_cache() == old(self).payload_cache(),
    {
        let found: Option<usize> = match &self.local_snapshots {
            Some(local) => find_first_snapshot(local, snapshot.strategy_id),
            None => {
                return;
            },
        };
        match &mut self.local_snapshots {
            Some(local) => {
                let ghost v = snap_views(local@);
                match found {
                    Some(p) => {
                        let dominates = local[p].last_date >= snapshot.last_date
                            && local[p].strategy_ver >= snapshot.strategy_ver;
                        if force || !dominates {
                            let ghost sv = snap_view(snapshot);
                            local.set(p, snapshot);
                            proof {
                                assert(snap_views(local@) =~= v.update(p as int, sv));
                            }
                        }
                    },
                    None => {
                        let ghost sv = snap_view(snapshot);
                        local.push(snapshot);
                        proof {
                            assert(snap_views(local@) =~= v.push(sv));
                        }
                    },
                }
            },
            None => {},
        }
    }

    /// Take the edits of strategy `strategy_id` out of the waiting list.
    fn drop_edits(&mut self, strategy_id: u64)
        requires
            old(self).wf(),
        ensures
            final(self).wf(),
            final(self).edit_list() == retain_edits(old(self).edit_list(), strategy_id),
            *final(self) == (StratsState { strategy_edits: final(self).strategy_edits, ..*old(self) }),
    {
        let ghost e = self.strategy_edits@;
        let ghost mut k: int = 0;
        let mut i: usize = 0;
        while i < self.strategy_edits.len()
            invariant
                0 <= i <= k <= e.len(),
                i <= self.strategy_edits@.len(),
                self.strategy_edits@.take(i as int) == retain_edits(e.take(k), strategy_id),
                self.strategy_edits@.skip(i as int) == e.skip(k),
                self.entries == old(self).entries,
                self.order == old(self).order,
                self.snapshots == old(self).snapshots,
                self.folders == old(self).folders,
                self.folders_last_modified == old(self).folders_last_modified,
                self.local_folders == old(self).local_folders,
                self.local_snapshots == old(self).local_snapshots,
                self.snapshot_payload_cache == old(self).snapshot_payload_cache,
                self.last_modified == old(self).last_modified,
            decreases self.strategy_edits@.len() - i,
        {
            let ghost v = self.strategy_edits@;
            proof {
                assert(v.skip(i as int).len() == v.len() - i);
                assert(e.skip(k).len() == e.len() - k);
                assert(k < e.len());
                assert(v[i as int] == v.skip(i as int)[0]);
                assert(e.skip(k)[0] == e[k]);
                assert(e.take(k + 1).drop_last() =~= e.take(k));
                assert(e.take(k + 1).last() == e[k]);
            }
            if self.strategy_edits[i].0 == strategy_id {
                self.strategy_edits.remove(i);
                proof {
                    assert(self.strategy_edits@.take(i as int) =~= v.take(i as int));
                    assert(self.strategy_edits@.skip(i as int) =~= v.skip(i as int).skip(1));
                    assert(e.skip(k).skip(1) =~= e.skip(k + 1));
                    k = k + 1;
                }
            } else {
                proof {
                    assert(v.take(i + 1) =~= v.take(i as int).push(v[i as int]));
                    assert(v.skip(i + 1) =~= v.skip(i as int).skip(1));
                    assert(e.skip(k).skip(1) =~= e.skip(k + 1));
                    k = k + 1;
                }
                i = i + 1;
            }
        }
        proof {
            assert(e.skip(k).len() == 0);
            assert(k == e.len());
            assert(e.take(k) =~= e);
            assert(self.strategy_edits@ =~= self.strategy_edits@.take(i as int));
        }
    }

    /// Forget the local copy and the pending edit of strategy `id`.
    pub fn remove_local_snapshot(&mut self, strategy_id: u64)
        requires
            old(self).wf(),
        ensures
            final(self).wf(),
            final(self).edit_ids() == retain_ne(old(self).edit_ids(), strategy_id),
            final(self).local_rows() == (match old(self).local_rows() {
                Some(v) => Some(snaps_without(v, strategy_id)),
                None => None,
            }),
            final(self).rows() == old(self).rows(),
            final(self).order_spec() == old(self).order_spec(),
            final(self).snapshot_rows() == old(self).snapshot_rows(),
            final(self).folder_table() == old(self).folder_table(),
            final(self).folders_date() == old(self).folders_date(),
            final(self).local_folder_table() == old(self).local_folder_table(),
            final(self).cached() == old(self).cached(),
    {
        self.drop_edits(strategy_id);
        proof {
            lemma_edit_ids_retain(old(self).strategy_edits@, strategy_id);
        }
        match &mut self.local_snapshots {
            Some(local) => {
                retain_snapshots_ne(local, strategy_id);
            },
            None => {},
        }
    }

    /// Create the folders of `path` in the confirmed tree.
    pub fn create_folders_for_path(&mut self, path: &str)
        requires
            old(self).wf(),
        ensures
            final(self).wf(),
            final(self).folder_table() == with_folders_of(old(self).folder_table(), path@),
            final(self).rows() == old(self).rows(),
            final(self).order_spec() == old(self).order_spec(),
            final(self).snapshot_rows() == old(self).snapshot_rows(),
            final(self).folders_date() == old(self).folders_date(),
            final(self).local_folder_table() == old(self).local_folder_table(),
            final(self).local_rows() == old(self).local_rows(),
            final(self).edit_list() == old(self).edit_list(),
            final(self).order_date() == old(self).order_date(),
            final(self).folder_table() != old(self).folder_table() ==> !final(self).cached(),
            !final(self).cached() <== !old(self).cached(),
    {
        if add_folder_path(&mut self.folders, path) {
            self.invalidate_snapshot_payload_cache();
        }
    }
}

/// How a core snapshot resolves the pending edit of its strategy.
#[derive(Debug, Clone, Copy, PartialEq, Eq, Structural)]
pub enum EditResolution {
    /// The core echoed the edited revision with effectively the same fields.
    Confirmed,
    /// The core accepted the revision but returned different canonical fields.
    Adjusted,
    /// The core kept a strictly newer revision instead of the edit.
    Superseded,
}

/// Strategies whose pending edits a batch of core snapshots resolved.
#[derive(Debug, Clone, Default)]
pub struct StrategySnapshotApplyOutcome {
    pub confirmed: Vec<u64>,
    pub adjusted: Vec<u64>,
    pub superseded: Vec<u64>,
}

/// The first waiting edit of strategy `id`, if any.
pub open spec fn first_edit(e: Seq<(u64, StrategyEdit)>, id: u64) -> Option<StrategyEdit>
    decreases e.len(),
{
    if e.len() == 0 {
        None
    } else {
        match first_edit(e.drop_last(), id) {
            Some(x) => Some(x),
            None => if e.last().0 == id {
                Some(e.last().1)
            } else {
                None
            },
        }
    }
}

/// Whether core snapshot `s` is effectively the strategy `desired`: the same
/// revision, id, checked state and folder path, and field values that match
/// (`fields_equal`: the schema-aware verdict on the fields, which carry the
/// strategy kind, where a field one side omits counts as its schema default).
pub open spec fn effectively_equal(s: StrategySnapshot, desired: StrategySnapshot, fields_equal: bool) -> bool {
    &&& same_revision_spec(s, desired)
    &&& s.strategy_id == desired.strategy_id
    &&& s.checked == desired.checked
    &&& s.path@ == desired.path@
    &&& fields_equal
}

/// How core snapshot `s` resolves an edit that wanted `desired`;
/// `fields_equal` is the verdict on their field values.
pub open spec fn edit_resolution(s: StrategySnapshot, desired: StrategySnapshot, fields_equal: bool) -> Option<EditResolution> {
    if same_revision_spec(s, desired) {
        Some(if effectively_equal(s, desired, fields_equal) { EditResolution::Confirmed } else { EditResolution::Adjusted })
    } else if revision_dominates_spec(s, desired) {
        Some(EditResolution::Superseded)
    } else {
        None
    }
}

/// How core snapshot `s` resolves the waiting edit of its strategy in `e`.
pub open spec fn resolution_in(e: Seq<(u64, StrategyEdit)>, s: StrategySnapshot, fields_equal: bool) -> Option<EditResolution> {
    match first_edit(e, s.strategy_id) {
        Some(x) => edit_resolution(s, *x.desired_spec(), fields_equal),
        None => None,
    }
}

/// Whether rows `rows` take core snapshot `s`: its row is missing or older.
pub open spec fn takes_snapshot(rows: Seq<StrategyInfo>, s: StrategySnapshot) -> bool {
    !is_old_or_equal(row_views(rows), s)
}

/// `ids` with `id` appended when `hit`.
pub open spec fn push_if(ids: Seq<u64>, hit: bool, id: u64) -> Seq<u64> {
    if hit {
        ids.push(id)
    } else {
        ids
    }
}

/// The first waiting edit of a prefix is the first of the whole list.
proof fn lemma_first_edit_prefix(e: Seq<(u64, StrategyEdit)>, n: int, id: u64)
    requires
        0 <= n <= e.len(),
        first_edit(e.take(n), id) is Some,
    ensures
        first_edit(e, id) == first_edit(e.take(n), id),
    decreases e.len() - n,
{
    if n < e.len() {
        assert(e.take(n + 1).drop_last() =~= e.take(n));
        lemma_first_edit_prefix(e, n + 1, id);
    } else {
        assert(e.take(n) =~= e);
    }
}

/// A list none of whose first `n` edits is of `id` has no first edit of `id` there.
proof fn lemma_first_edit_none(e: Seq<(u64, StrategyEdit)>, n: int, id: u64)
    requires
        0 <= n <= e.len(),
        forall|k: int| 0 <= k < n ==> (#[trigger] e[k]).0 != id,
    ensures
        first_edit(e.take(n), id) is None,
    decreases n,
{
    if n > 0 {
        assert(e.take(n).drop_last() =~= e.take(n - 1));
        lemma_first_edit_none(e, n - 1, id);
    }
}

/// The state `b` after core snapshot `s` was applied to state `a`, as
/// `apply_server_snapshot` does it; `fields_equal` is the verdict on the
/// fields of `s` against the waiting edit's desired strategy.
pub open spec fn server_snapshot_applied(a: StratsState, s: StrategySnapshot, fields_equal: bool, b: StratsState) -> bool {
    let takes = takes_snapshot(a.rows(), s);
    let res = resolution_in(a.edit_list(), s, fields_equal);
    &&& b.wf()
    &&& row_views(b.rows()) == (if takes { from_snapshot(row_views(a.rows()), s) } else { row_views(a.rows()) })
    &&& b.order_spec() == (if takes {
        with_order(a.order_spec(), row_views(a.rows()), s.strategy_id)
    } else {
        a.order_spec()
    })
    &&& b.folder_table() == (if takes { with_folders_of(a.folder_table(), s.path@) } else { a.folder_table() })
    &&& b.snapshot_rows() == (if takes { put_snapshot(a.snapshot_rows(), snap_view(s)) } else { a.snapshot_rows() })
    &&& b.edit_list() == (if res is Some { retain_edits(a.edit_list(), s.strategy_id) } else { a.edit_list() })
    &&& b.local_rows() == (match a.local_rows() {
        Some(v) => Some(if res is Some {
            local_from_server(v, snap_view(s), true)
        } else if first_edit(a.edit_list(), s.strategy_id) is None {
            local_from_server(v, snap_view(s), false)
        } else {
            v
        }),
        None => None,
    })
    &&& b.folders_date() == a.folders_date()
    &&& b.local_folder_table() == a.local_folder_table()
    &&& b.order_date() == a.order_date()
    &&& b.payload_cache() == (if takes { None } else { a.payload_cache() })
}


/// Whether `chain` runs from one state to the next through the core
/// snapshots `ss`, each applied as `apply_server_snapshot` does with its
/// verdict from `fe`.
pub open spec fn snapshot_chain(chain: Seq<StratsState>, ss: Seq<StrategySnapshot>, fe: Seq<bool>) -> bool {
    &&& chain.len() == ss.len() + 1
    &&& fe.len() == ss.len()
    &&& forall|j: int| 0 <= j < ss.len() ==> #[trigger] server_snapshot_applied(chain[j], ss[j], fe[j], chain[j + 1])
}

/// The strategies among the first `k` snapshots whose waiting edit was
/// settled as `kind`, in order.
pub open spec fn settled_ids(chain: Seq<StratsState>, ss: Seq<StrategySnapshot>, fe: Seq<bool>, kind: EditResolution, k: int) -> Seq<u64>
    decreases k,
{
    if k <= 0 {
        Seq::empty()
    } else {
        push_if(
            settled_ids(chain, ss, fe, kind, k - 1),
            resolution_in(chain[k - 1].edit_list(), ss[k - 1], fe[k - 1]) == Some(kind),
            ss[k - 1].strategy_id,
        )
    }
}

/// Whether one of the first `k` snapshots changed the state: its row took it
/// or it settled a waiting edit.
pub open spec fn batch_changed(chain: Seq<StratsState>, ss: Seq<StrategySnapshot>, fe: Seq<bool>, k: int) -> bool {
    exists|j: int| 0 <= j < k && (takes_snapshot(chain[j].rows(), #[trigger] ss[j]) || resolution_in(chain[j].edit_list(), ss[j], fe[j]) is Some)
}

/// Whether one of the first `k` snapshots met a row at least as new.
pub open spec fn batch_skipped_old(chain: Seq<StratsState>, ss: Seq<StrategySnapshot>, k: int) -> bool {
    exists|j: int| 0 <= j < k && !takes_snapshot(chain[j].rows(), #[trigger] ss[j])
}

/// The latest strategy date among the first `k` snapshots; zero for none.
pub open spec fn batch_max_date(ss: Seq<StrategySnapshot>, k: int) -> u64
    decreases k,
{
    if k <= 0 {
        0
    } else if ss[k - 1].last_date > batch_max_date(ss, k - 1) {
        ss[k - 1].last_date
    } else {
        batch_max_date(ss, k - 1)
    }
}

/// The cached payload after a batch: kept from before only while nothing
/// changed; taken from the wire when no local list or tree is staged, no
/// row was newer, and the batch holds every confirmed strategy and exactly
/// the folder tree; dropped when the batch holds every strategy but another tree.
pub open spec fn cache_after_batch(
    end: StratsState,
    count: nat,
    paths: Seq<Seq<char>>,
    max_date: u64,
    data: Seq<u8>,
    changed: bool,
    skipped_old: bool,
) -> Option<(u64, Seq<u8>)> {
    if end.local_rows() is Some || end.local_folder_table() is Some || skipped_old {
        if changed { None } else { end.payload_cache() }
    } else if count == end.snapshot_rows().len() {
        if same_keys(end.folder_table(), with_paths(Seq::empty(), paths)) {
            Some((max_date, data))
        } else {
            None
        }
    } else if changed {
        None
    } else {
        end.payload_cache()
    }
}

/// Settled ids depend only on the states before each of the first `k` snapshots.
proof fn lemma_settled_prefix(c1: Seq<StratsState>, c2: Seq<StratsState>, ss: Seq<StrategySnapshot>, fe: Seq<bool>, k: int)
    requires
        0 <= k,
        k < c1.len(),
        k < c2.len(),
        forall|j: int| 0 <= j < k ==> c1[j] == c2[j],
    ensures
        settled_ids(c1, ss, fe, EditResolution::Confirmed, k) == settled_ids(c2, ss, fe, EditResolution::Confirmed, k),
        settled_ids(c1, ss, fe, EditResolution::Adjusted, k) == settled_ids(c2, ss, fe, EditResolution::Adjusted, k),
        settled_ids(c1, ss, fe, EditResolution::Superseded, k) == settled_ids(c2, ss, fe, EditResolution::Superseded, k),
    decreases k,
{
    if k > 0 {
        lemma_settled_prefix(c1, c2, ss, fe, k - 1);
        assert(c1[k - 1] == c2[k - 1]);
    }
}

/// What applying the batch `ss` did, through the states `chain`: `end`
/// holds what the last state holds, with the cached payload settled, and
/// `r` lists the settled edits.
pub open spec fn batch_outcome(
    chain: Seq<StratsState>,
    start: StratsState,
    end: StratsState,
    ss: Seq<StrategySnapshot>,
    fe: Seq<bool>,
    paths: Seq<Seq<char>>,
    data: Seq<u8>,
    r: StrategySnapshotApplyOutcome,
) -> bool {
    let n = ss.len() as int;
    &&& snapshot_chain(chain, ss, fe)
    &&& chain[0] == start
    &&& row_views(end.rows()) == row_views(chain[n].rows())
    &&& end.order_spec() == chain[n].order_spec()
    &&& end.folder_table() == chain[n].folder_table()
    &&& end.snapshot_rows() == chain[n].snapshot_rows()
    &&& end.edit_list() == chain[n].edit_list()
    &&& end.local_rows() == chain[n].local_rows()
    &&& end.folders_date() == chain[n].folders_date()
    &&& end.local_folder_table() == chain[n].local_folder_table()
    &&& end.order_date() == chain[n].order_date()
    &&& end.payload_cache() == cache_after_batch(
        chain[n],
        ss.len(),
        paths,
        batch_max_date(ss, n),
        data,
        batch_changed(chain, ss, fe, n),
        batch_skipped_old(chain, ss, n),
    )
    &&& r.confirmed@ == settled_ids(chain, ss, fe, EditResolution::Confirmed, n)
    &&& r.adjusted@ == settled_ids(chain, ss, fe, EditResolution::Adjusted, n)
    &&& r.superseded@ == settled_ids(chain, ss, fe, EditResolution::Superseded, n)
}

/// Snapshots with the same plain values are applied alike.
proof fn lemma_applied_by_view(a: StratsState, s1: StrategySnapshot, s2: StrategySnapshot, fe: bool, b: StratsState)
    requires
        snap_view(s1) == snap_view(s2),
    ensures
        server_snapshot_applied(a, s1, fe, b) == server_snapshot_applied(a, s2, fe, b),
        resolution_in(a.edit_list(), s1, fe) == resolution_in(a.edit_list(), s2, fe),
        takes_snapshot(a.rows(), s1) == takes_snapshot(a.rows(), s2),
        from_snapshot(row_views(a.rows()), s1) == from_snapshot(row_views(a.rows()), s2),
{
    assert(s1.path@ == s2.path@);
}

impl StratsState {
    /// Index of the first waiting edit of strategy `id`.
    fn find_edit(&self, id: u64) -> (r: Option<usize>)
        ensures
            match r {
                Some(i) => i < self.edit_list().len() && first_edit(self.edit_list(), id) == Some(self.edit_list()[i as int].1),
                None => first_edit(self.edit_list(), id) is None,
            },
    {
        let ghost e = self.strategy_edits@;
        let mut i: usize = 0;
        while i < self.strategy_edits.len()
            invariant
                0 <= i <= e.len(),
                e == self.strategy_edits@,
                forall|k: int| 0 <= k < i ==> (#[trigger] e[k]).0 != id,
            decreases e.len() - i,
        {
            if self.strategy_edits[i].0 == id {
                proof {
                    lemma_first_edit_none(e, i as int, id);
                    assert(e.take(i + 1).drop_last() =~= e.take(i as int));
                    assert(e.take(i + 1).last() == e[i as int]);
                    lemma_first_edit_prefix(e, i + 1, id);
                }
                return Some(i);
            }
            i = i + 1;
        }
        proof {
            lemma_first_edit_none(e, e.len() as int, id);
            assert(e.take(e.len() as int) =~= e);
        }
        None
    }

    /// Apply a decoded core strategy batch: each snapshot in turn as
    /// `apply_server_snapshot` applies it (`fields_equal[i]` is the verdict
    /// for the `i`-th), then keep, take or drop the cached payload. Strategies
    /// that the batch does not name stay. Returns the settled edits.
    pub fn apply_snapshot_batch(
        &mut self,
        deflate_data: &[u8],
        batch: &StrategyBatch,
        fields_equal: &[bool],
    ) -> (r: StrategySnapshotApplyOutcome)
        requires
            old(self).wf(),
            fields_equal@.len() == batch.strategies@.len(),
        ensures
            final(self).wf(),
            exists|chain: Seq<StratsState>| #[trigger] batch_outcome(chain, *old(self), *final(self), batch.strategies@, fields_equal@, texts_of(batch.paths@), deflate_data@, r),
    {
        let ghost ss = batch.strategies@;
        let ghost fe = fields_equal@;
        let ghost mut chain: Seq<StratsState> = seq![*self];
        let mut outcome = StrategySnapshotApplyOutcome { confirmed: Vec::new(), adjusted: Vec::new(), superseded: Vec::new() };
        let mut changed = false;
        let mut skipped_old = false;
        let mut max_date: u64 = 0;
        let mut i: usize = 0;
        while i < batch.strategies.len()
            invariant
                0 <= i <= ss.len(),
                ss == batch.strategies@,
                fe == fields_equal@,
                fe.len() == ss.len(),
                self.wf(),
                chain.len() == i + 1,
                chain[0] == *old(self),
                chain[i as int] == *self,
                forall|j: int| 0 <= j < i ==> #[trigger] server_snapshot_applied(chain[j], ss[j], fe[j], chain[j + 1]),
                changed == batch_changed(chain, ss, fe, i as int),
                skipped_old == batch_skipped_old(chain, ss, i as int),
                max_date == batch_max_date(ss, i as int),
                outcome.confirmed@ == settled_ids(chain, ss, fe, EditResolution::Confirmed, i as int),
                outcome.adjusted@ == settled_ids(chain, ss, fe, EditResolution::Adjusted, i as int),
                outcome.superseded@ == settled_ids(chain, ss, fe, EditResolution::Superseded, i as int),
            decreases ss.len() - i,
        {
            let s = &batch.strategies[i];
            if s.last_date > max_date {
                max_date = s.last_date;
            }
            let old_or_equal = self.snapshot_is_old_or_equal(s);
            skipped_old = skipped_old || old_or_equal;
            let copy = copy_snapshot(s);
            let ghost before = *self;
            let ghost chain0 = chain;
            let c = self.apply_server_snapshot(copy, fields_equal[i], &mut outcome);
            proof {
                lemma_applied_by_view(before, copy, ss[i as int], fe[i as int], *self);
                chain = chain.push(*self);
                assert forall|j: int| 0 <= j < i + 1 implies #[trigger] server_snapshot_applied(chain[j], ss[j], fe[j], chain[j + 1]) by {
                    if j < i {
                        assert(chain[j] == chain0[j] && chain[j + 1] == chain0[j + 1]);
                    }
                }
                assert forall|k: int| 0 <= k <= i implies #[trigger] settled_ids(chain, ss, fe, EditResolution::Confirmed, k) == settled_ids(chain0, ss, fe, EditResolution::Confirmed, k)
                    && settled_ids(chain, ss, fe, EditResolution::Adjusted, k) == settled_ids(chain0, ss, fe, EditResolution::Adjusted, k)
                    && settled_ids(chain, ss, fe, EditResolution::Superseded, k) == settled_ids(chain0, ss, fe, EditResolution::Superseded, k) by {
                    lemma_settled_prefix(chain0, chain, ss, fe, k);
                }
                assert(chain[i as int] == before);
                assert(copy.strategy_id == ss[i as int].strategy_id);
                assert(resolution_in(before.edit_list(), copy, fe[i as int]) == resolution_in(chain[i as int].edit_list(), ss[i as int], fe[i as int]));
                assert(settled_ids(chain, ss, fe, EditResolution::Confirmed, i + 1) == push_if(
                    settled_ids(chain, ss, fe, EditResolution::Confirmed, i as int),
                    resolution_in(chain[i as int].edit_list(), ss[i as int], fe[i as int]) == Some(EditResolution::Confirmed),
                    ss[i as int].strategy_id,
                ));
                assert(settled_ids(chain, ss, fe, EditResolution::Adjusted, i + 1) == push_if(
                    settled_ids(chain, ss, fe, EditResolution::Adjusted, i as int),
                    resolution_in(chain[i as int].edit_list(), ss[i as int], fe[i as int]) == Some(EditResolution::Adjusted),
                    ss[i as int].strategy_id,
                ));
                assert(settled_ids(chain, ss, fe, EditResolution::Superseded, i + 1) == push_if(
                    settled_ids(chain, ss, fe, EditResolution::Superseded, i as int),
                    resolution_in(chain[i as int].edit_list(), ss[i as int], fe[i as int]) == Some(EditResolution::Superseded),
                    ss[i as int].strategy_id,
                ));
                assert(batch_changed(chain, ss, fe, i + 1) == (batch_changed(chain0, ss, fe, i as int) || c)) by {
                    if batch_changed(chain0, ss, fe, i as int) {
                        let j = choose|j: int| 0 <= j < i && (takes_snapshot(chain0[j].rows(), #[trigger] ss[j]) || resolution_in(chain0[j].edit_list(), ss[j], fe[j]) is Some);
                        assert(chain[j] == chain0[j]);
                    }
                    if batch_changed(chain, ss, fe, i + 1) {
                        let j = choose|j: int| 0 <= j < i + 1 && (takes_snapshot(chain[j].rows(), #[trigger] ss[j]) || resolution_in(chain[j].edit_list(), ss[j], fe[j]) is Some);
                        if j < i {
                            assert(chain[j] == chain0[j]);
                        }
                    }
                    if c {
                        assert(chain[i as int] == before);
                    }
                }
                assert(batch_skipped_old(chain, ss, i + 1) == (batch_skipped_old(chain0, ss, i as int) || old_or_equal)) by {
                    if batch_skipped_old(chain0, ss, i as int) {
                        let j = choose|j: int| 0 <= j < i && !takes_snapshot(chain0[j].rows(), #[trigger] ss[j]);
                        assert(chain[j] == chain0[j]);
                    }
                    if batch_skipped_old(chain, ss, i + 1) {
                        let j = choose|j: int| 0 <= j < i + 1 && !takes_snapshot(chain[j].rows(), #[trigger] ss[j]);
                        if j < i {
                            assert(chain[j] == chain0[j]);
                        }
                    }
                    if old_or_equal {
                        assert(chain[i as int] == before);
                    }
                }
            }
            changed = changed || c;
            i = i + 1;
        }
        let staged = self.local_snapshots.is_some() || self.local_folders.is_some();
        if staged || skipped_old {
            if changed {
                self.invalidate_snapshot_payload_cache();
            }
        } else if batch.strategies.len() == self.snapshots.len() {
            let mut wanted: Vec<(String, String)> = Vec::new();
            proof {
                assert(folder_pairs(wanted@) =~= Seq::<(Seq<char>, Seq<char>)>::empty());
            }
            Self::add_folder_paths(&mut wanted, batch.paths.as_slice());
            if Self::same_folder_keys(&self.folders, &wanted) {
                let mut data: Vec<u8> = Vec::new();
                crate::le::push_bytes(&mut data, deflate_data);
                proof {
                    assert(data@ =~= deflate_data@);
                }
                self.snapshot_payload_cache = Some((max_date, data));
            } else {
                self.invalidate_snapshot_payload_cache();
            }
        } else if changed {
            self.invalidate_snapshot_payload_cache();
        }
        proof {
            assert(snapshot_chain(chain, ss, fe));
            assert(batch_outcome(chain, *old(self), *self, ss, fe, texts_of(batch.paths@), deflate_data@, outcome));
        }
        outcome
    }

    /// Apply one core strategy snapshot: store it unless its row is at least
    /// as new, and settle the waiting edit of its strategy. A snapshot of the
    /// edited revision confirms the edit (or adjusts it, when the core's
    /// fields differ); a strictly newer one supersedes it. A settled edit is
    /// dropped and the snapshot replaces the staged local copy; with no edit
    /// waiting, the snapshot updates the staged local copy unless that is at
    /// least as new. `fields_equal` is the schema-aware verdict whether the
    /// snapshot's field values match those of the edit's desired strategy.
    /// Returns whether anything changed.
    pub fn apply_server_snapshot(
        &mut self,
        snapshot: StrategySnapshot,
        fields_equal: bool,
        outcome: &mut StrategySnapshotApplyOutcome,
    ) -> (r: bool)
        requires
            old(self).wf(),
        ensures
            server_snapshot_applied(*old(self), snapshot, fields_equal, *final(self)),
            r == (takes_snapshot(old(self).rows(), snapshot) || resolution_in(old(self).edit_list(), snapshot, fields_equal) is Some),
            final(outcome).confirmed@ == push_if(old(outcome).confirmed@, resolution_in(old(self).edit_list(), snapshot, fields_equal) == Some(EditResolution::Confirmed), snapshot.strategy_id),
            final(outcome).adjusted@ == push_if(old(outcome).adjusted@, resolution_in(old(self).edit_list(), snapshot, fields_equal) == Some(EditResolution::Adjusted), snapshot.strategy_id),
            final(outcome).superseded@ == push_if(old(outcome).superseded@, resolution_in(old(self).edit_list(), snapshot, fields_equal) == Some(EditResolution::Superseded), snapshot.strategy_id),
    {
        let id = snapshot.strategy_id;
        let ghost res = resolution_in(self.edit_list(), snapshot, fields_equal);
        let found = self.find_edit(id);
        let resolution: Option<EditResolution> = match found {
            Some(i) => {
                let desired = self.strategy_edits[i].1.desired();
                if same_revision(&snapshot, desired) {
                    let equal = fields_equal && snapshot.strategy_id == desired.strategy_id
                        && snapshot.checked == desired.checked && snapshot.path == desired.path;
                    if equal {
                        Some(EditResolution::Confirmed)
                    } else {
                        Some(EditResolution::Adjusted)
                    }
                } else if revision_strictly_dominates(&snapshot, desired) {
                    Some(EditResolution::Superseded)
                } else {
                    None
                }
            },
            None => None,
        };
        assert(resolution == res);
        let changed = self.upsert_from_snapshot(&snapshot);
        match resolution {
            Some(kind) => {
                self.drop_edits(id);
                self.set_local_snapshot_from_server(snapshot, true);
                match kind {
                    EditResolution::Confirmed => outcome.confirmed.push(id),
                    EditResolution::Adjusted => outcome.adjusted.push(id),
                    EditResolution::Superseded => outcome.superseded.push(id),
                }
            },
            None => {
                if found.is_none() {
                    self.set_local_snapshot_from_server(snapshot, false);
                }
            },
        }
        changed || resolution.is_some()
    }
}

} // verus!
