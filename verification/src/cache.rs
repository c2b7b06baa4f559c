//! The bookkeeping of a persistent cache server: which entries are loading, which are
//! ready and which clients hold handles to them.
//!
//! Requests are served in two steps where the server must persist a change or read a
//! file first: the state machine decides, the server does the work, and the state
//! machine commits the change once the work succeeded.
use std::collections::HashMap;
use vstd::prelude::*;

verus! {

broadcast use vstd::std_specs::hash::group_hash_axioms;

/// A key whose equality is the equality of its view.
pub trait KeyEq: View + Sized {
    /// Whether the two keys are equal.
    fn key_eq(&self, other: &Self) -> (r: bool)
        ensures
            r == (self@ == other@),
    ;

    /// A copy of the key.
    fn copy_key(&self) -> (r: Self)
        ensures
            r@ == self@,
    ;
}

/// An ID corresponding to a client assigned to generate a certain value.
#[derive(Clone, Copy, Debug, Default, Hash, PartialEq, Eq, Structural)]
pub struct AssignmentId(pub u64);

impl AssignmentId {
    /// Moves to the next ID.
    pub fn increment(&mut self)
        requires
            old(self).0 < u64::MAX,
        ensures
            final(self).0 == old(self).0 + 1,
    {
        self.0 = self.0 + 1;
    }
}

impl View for AssignmentId {
    type V = u64;

    open spec fn view(&self) -> u64 {
        self.0
    }
}

/// An ID corresponding to a client that currently has a handle to a ready entry.
#[derive(Clone, Copy, Debug, Default, Hash, PartialEq, Eq, Structural)]
pub struct HandleId(pub u64);

impl HandleId {
    /// Moves to the next ID.
    pub fn increment(&mut self)
        requires
            old(self).0 < u64::MAX,
        ensures
            final(self).0 == old(self).0 + 1,
    {
        self.0 = self.0 + 1;
    }
}

impl View for HandleId {
    type V = u64;

    open spec fn view(&self) -> u64 {
        self.0
    }
}

/// The key of a cache entry: a namespace and a byte string.
#[derive(Clone, Debug, Hash, PartialEq, Eq)]
pub struct EntryKey {
    /// The namespace.
    pub namespace: String,
    /// The key within the namespace.
    pub key: Vec<u8>,
}

impl View for EntryKey {
    type V = (Seq<char>, Seq<u8>);

    open spec fn view(&self) -> (Seq<char>, Seq<u8>) {
        (self.namespace@, self.key@)
    }
}

/// Whether two byte strings are equal.
fn bytes_eq(a: &Vec<u8>, b: &Vec<u8>) -> (r: bool)
    ensures
        r == (a@ == b@),
{
    if a.len() != b.len() {
        return false;
    }
    let mut i: usize = 0;
    while i < a.len()
        invariant
            a@.len() == b@.len(),
            i <= a@.len(),
            forall|j: int| 0 <= j < i ==> a@[j] == b@[j],
        decreases a@.len() - i,
    {
        if a[i] != b[i] {
            return false;
        }
        i = i + 1;
    }
    assert(a@ =~= b@);
    true
}

/// Copies a byte string.
fn copy_bytes(a: &Vec<u8>) -> (r: Vec<u8>)
    ensures
        r@ == a@,
{
    let mut r: Vec<u8> = Vec::new();
    let mut i: usize = 0;
    while i < a.len()
        invariant
            i <= a@.len(),
            r@ == a@.take(i as int),
        decreases a@.len() - i,
    {
        r.push(a[i]);
        i = i + 1;
        assert(r@ =~= a@.take(i as int));
    }
    assert(r@ =~= a@);
    r
}

impl KeyEq for EntryKey {
    fn key_eq(&self, other: &Self) -> (r: bool) {
        let same_ns = self.namespace == other.namespace;
        same_ns && bytes_eq(&self.key, &other.key)
    }

    fn copy_key(&self) -> (r: Self) {
        EntryKey { namespace: self.namespace.clone(), key: copy_bytes(&self.key) }
    }
}

/// A map held as a list of key-value pairs whose keys are distinct.
pub struct AssocList<K, V> {
    items: Vec<(K, V)>,
}

impl<K: KeyEq, V> AssocList<K, V> {
    /// The pairs.
    pub closed spec fn pairs(&self) -> Seq<(K, V)> {
        self.items@
    }

    /// No two pairs have equal keys.
    pub closed spec fn wf(&self) -> bool {
        forall|i: int, j: int|
            0 <= i < self.items@.len() && 0 <= j < self.items@.len() && i != j ==> #[trigger] self.items@[i].0@
                != #[trigger] self.items@[j].0@
    }

    /// Whether a pair has key `k`.
    pub open spec fn has(&self, k: K::V) -> bool {
        exists|i: int| 0 <= i < self.pairs().len() && #[trigger] self.pairs()[i].0@ == k
    }

    /// The value under key `k`, where [`Self::has`] it.
    pub open spec fn at(&self, k: K::V) -> V {
        self.pairs()[choose|i: int| 0 <= i < self.pairs().len() && #[trigger] self.pairs()[i].0@ == k].1
    }

    /// The map the list stands for.
    pub open spec fn map(&self) -> Map<K::V, V> {
        Map::new(|k: K::V| self.has(k), |k: K::V| self.at(k))
    }

    /// An empty list.
    pub fn new() -> (r: Self)
        ensures
            r.wf(),
            r.map() == Map::<K::V, V>::empty(),
    {
        let r = AssocList { items: Vec::new() };
        assert(r.map() =~= Map::<K::V, V>::empty());
        r
    }

    /// The position of the pair with key `k`, if any.
    pub fn find(&self, k: &K) -> (r: Option<usize>)
        requires
            self.wf(),
        ensures
            r matches Some(i) ==> i < self.pairs().len() && self.pairs()[i as int].0@ == k@
                && self.map().dom().contains(k@) && self.map()[k@] == self.pairs()[i as int].1,
            r is None ==> !self.map().dom().contains(k@),
    {
        let mut i: usize = 0;
        while i < self.items.len()
            invariant
                self.wf(),
                i <= self.items@.len(),
                forall|j: int| 0 <= j < i ==> #[trigger] self.items@[j].0@ != k@,
            decreases self.items@.len() - i,
        {
            if self.items[i].0.key_eq(k) {
                proof {
                    assert(self.pairs()[i as int].0@ == k@);
                    let c = choose|c: int| 0 <= c < self.pairs().len() && #[trigger] self.pairs()[c].0@ == k@;
                    assert(c == i);
                }
                return Some(i);
            }
            i = i + 1;
        }
        None
    }

    /// The value under key `k`, if any.
    pub fn get(&self, k: &K) -> (r: Option<&V>)
        requires
            self.wf(),
        ensures
            r matches Some(v) ==> self.map().dom().contains(k@) && self.map()[k@] == *v,
            r is None ==> !self.map().dom().contains(k@),
    {
        match self.find(k) {
            Some(i) => Some(&self.items[i].1),
            None => None,
        }
    }

    /// Adds the pair `(k, v)`, whose key is not in the list.
    pub fn push_new(&mut self, k: K, v: V)
        requires
            old(self).wf(),
            !old(self).map().dom().contains(k@),
        ensures
            final(self).wf(),
            final(self).map() == old(self).map().insert(k@, v),
    {
        let ghost kv = k@;
        let ghost old_pairs = self.pairs();
        self.items.push((k, v));
        proof {
            let n = old_pairs.len() as int;
            assert forall|key: K::V| #[trigger] self.has(key) == (old_pairs.len() >= 0 && (
            exists|i: int| 0 <= i < n && #[trigger] old_pairs[i].0@ == key) || key == kv) by {
                if key == kv {
                    assert(self.pairs()[n].0@ == key);
                }
                if exists|i: int| 0 <= i < n && #[trigger] old_pairs[i].0@ == key {
                    let i = choose|i: int| 0 <= i < n && #[trigger] old_pairs[i].0@ == key;
                    assert(self.pairs()[i].0@ == key);
                }
            }
            assert forall|key: K::V| self.has(key) && key != kv implies #[trigger] self.at(key)
                == old(self).at(key) by {
                let c = choose|c: int| 0 <= c < self.pairs().len() && #[trigger] self.pairs()[c].0@ == key;
                let i = choose|i: int| 0 <= i < n && #[trigger] old_pairs[i].0@ == key;
                assert(self.pairs()[i].0@ == key);
            }
            assert(self.at(kv) == v) by {
                assert(self.pairs()[n].0@ == kv);
                let c = choose|c: int| 0 <= c < self.pairs().len() && #[trigger] self.pairs()[c].0@ == kv;
                if c != n {
                    assert(old_pairs[c].0@ == kv);
                }
            }
            assert(self.map() =~= old(self).map().insert(kv, v));
        }
    }

    /// Replaces the value at position `i`.
    pub fn set_at(&mut self, i: usize, v: V)
        requires
            old(self).wf(),
            i < old(self).pairs().len(),
        ensures
            final(self).wf(),
            final(self).map() == old(self).map().insert(old(self).pairs()[i as int].0@, v),
            final(self).pairs().len() == old(self).pairs().len(),
            forall|j: int| 0 <= j < final(self).pairs().len() ==> (#[trigger] final(self).pairs()[j]).0
                == old(self).pairs()[j].0,
    {
        let ghost kv = self.items@[i as int].0@;
        let (k, _old) = self.items.remove(i);
        self.items.insert(i, (k, v));
        proof {
            assert(self.pairs() =~= old(self).pairs().update(i as int, (old(self).pairs()[i as int].0, v)));
            assert forall|key: K::V| #[trigger] self.has(key) == old(self).has(key) by {
                if old(self).has(key) {
                    let c = choose|c: int| 0 <= c < old(self).pairs().len() && #[trigger] old(self).pairs()[c].0@ == key;
                    assert(self.pairs()[c].0@ == key);
                }
                if self.has(key) {
                    let c = choose|c: int| 0 <= c < self.pairs().len() && #[trigger] self.pairs()[c].0@ == key;
                    assert(old(self).pairs()[c].0@ == key);
                }
            }
            assert forall|key: K::V| self.has(key) implies #[trigger] self.at(key) == (if key == kv {
                v
            } else {
                old(self).at(key)
            }) by {
                let c = choose|c: int| 0 <= c < self.pairs().len() && #[trigger] self.pairs()[c].0@ == key;
                let d = choose|d: int| 0 <= d < old(self).pairs().len() && #[trigger] old(self).pairs()[d].0@ == key;
                assert(old(self).pairs()[c].0@ == key);
                if key == kv {
                    assert(old(self).pairs()[i as int].0@ == key);
                }
            }
            assert(self.map() =~= old(self).map().insert(kv, v));
        }
    }

    /// Removes the pair at position `i`, returning it.
    pub fn remove_at(&mut self, i: usize) -> (r: (K, V))
        requires
            old(self).wf(),
            i < old(self).pairs().len(),
        ensures
            final(self).wf(),
            r == old(self).pairs()[i as int],
            final(self).map() == old(self).map().remove(r.0@),
    {
        let ghost kv = self.items@[i as int].0@;
        let r = self.items.remove(i);
        proof {
            let o = old(self).pairs();
            assert(self.pairs() =~= o.remove(i as int));
            assert forall|key: K::V| #[trigger] self.has(key) == (old(self).has(key) && key != kv) by {
                if old(self).has(key) && key != kv {
                    let c = choose|c: int| 0 <= c < o.len() && #[trigger] o[c].0@ == key;
                    if c < i {
                        assert(self.pairs()[c].0@ == key);
                    } else {
                        assert(c != i);
                        assert(self.pairs()[c - 1].0@ == key);
                    }
                }
                if self.has(key) {
                    let c = choose|c: int| 0 <= c < self.pairs().len() && #[trigger] self.pairs()[c].0@ == key;
                    if c < i {
                        assert(o[c].0@ == key);
                    } else {
                        assert(o[c + 1].0@ == key);
                    }
                }
            }
            assert forall|key: K::V| self.has(key) implies #[trigger] self.at(key) == old(self).at(key) by {
                let c = choose|c: int| 0 <= c < self.pairs().len() && #[trigger] self.pairs()[c].0@ == key;
                let d = choose|d: int| 0 <= d < o.len() && #[trigger] o[d].0@ == key;
                if c < i {
                    assert(o[c].0@ == key);
                } else {
                    assert(o[c + 1].0@ == key);
                }
            }
            assert(self.map() =~= old(self).map().remove(kv));
        }
        r
    }
}

/// The status of a cache entry.
#[derive(Clone, Copy, Debug, PartialEq, Eq, Structural)]
pub enum EntryStatus {
    /// The entry is being generated by the holder of this assignment.
    Loading(AssignmentId),
    /// The entry is ready; the number of local requests using it.
    Ready(u64),
    /// The entry is being evicted.
    Evicting,
}

/// The status of an entry as persisted in the status database.
#[derive(Clone, Copy, Debug, PartialEq, Eq, Structural)]
pub enum DbEntryStatus {
    /// Being generated.
    Loading,
    /// Ready.
    Ready,
    /// Marked for eviction.
    Evicting,
}

/// The integer that encodes each persisted status.
pub open spec fn db_code(s: DbEntryStatus) -> u64 {
    match s {
        DbEntryStatus::Loading => 0,
        DbEntryStatus::Ready => 1,
        DbEntryStatus::Evicting => 2,
    }
}

impl DbEntryStatus {
    /// The integer that encodes the status.
    pub fn to_int(self) -> (r: u64)
        ensures
            r == db_code(self),
    {
        match self {
            DbEntryStatus::Loading => 0,
            DbEntryStatus::Ready => 1,
            DbEntryStatus::Evicting => 2,
        }
    }

    /// The status that `val` encodes, if any.
    pub fn from_int(val: u64) -> (r: Option<DbEntryStatus>)
        ensures
            r matches Some(s) ==> db_code(s) == val,
            r is None <==> val > 2,
    {
        match val {
            0 => Some(DbEntryStatus::Loading),
            1 => Some(DbEntryStatus::Ready),
            2 => Some(DbEntryStatus::Evicting),
            _ => None,
        }
    }
}

/// Decoding an encoded status gives it back, and distinct statuses have distinct codes.
pub proof fn law_db_status_roundtrip(s: DbEntryStatus, t: DbEntryStatus)
    ensures
        db_code(s) <= 2,
        db_code(s) == db_code(t) ==> s == t,
{
}

/// The persisted rows as keys and statuses.
pub open spec fn rows_view(rows: Seq<(EntryKey, DbEntryStatus)>) -> Seq<((Seq<char>, Seq<u8>), DbEntryStatus)> {
    rows.map_values(|r: (EntryKey, DbEntryStatus)| (r.0@, r.1))
}

/// The entries that the persisted rows stand for after a restart, the rows taken in order
/// and a later row for a key replacing an earlier one: a loading row is left out, since
/// its assignment cannot be recovered, and a ready entry starts with no local users.
pub open spec fn restored_entries(rows: Seq<((Seq<char>, Seq<u8>), DbEntryStatus)>) -> Map<
    (Seq<char>, Seq<u8>),
    EntryStatus,
>
    decreases rows.len(),
{
    if rows.len() == 0 {
        Map::empty()
    } else {
        let prev = restored_entries(rows.drop_last());
        let k = rows.last().0;
        match rows.last().1 {
            DbEntryStatus::Loading => prev,
            DbEntryStatus::Ready => prev.insert(k, EntryStatus::Ready(0)),
            DbEntryStatus::Evicting => prev.insert(k, EntryStatus::Evicting),
        }
    }
}

/// What the server keeps about an entry being generated.
pub struct LoadingData {
    /// When the last heartbeat of its generator arrived.
    pub last_heartbeat: u64,
    /// The entry's key.
    pub key: EntryKey,
}

/// The answer to a request for an entry.
pub enum GetReplyStatus {
    /// The entry is not available and the requester was not assigned to generate it.
    Unassigned,
    /// The requester is assigned to generate the entry.
    Assign(AssignmentId),
    /// Someone else is generating the entry.
    Loading,
    /// The entry's value.
    Ready(Vec<u8>),
    /// A handle to the ready entry, for a local requester.
    ReadyLocal(HandleId),
}

/// The mathematical value of a [`GetReplyStatus`].
pub enum ReplyView {
    Unassigned,
    Assign(u64),
    Loading,
    Ready(Seq<u8>),
    ReadyLocal(u64),
}

impl View for GetReplyStatus {
    type V = ReplyView;

    open spec fn view(&self) -> ReplyView {
        match self {
            GetReplyStatus::Unassigned => ReplyView::Unassigned,
            GetReplyStatus::Assign(id) => ReplyView::Assign(id.0),
            GetReplyStatus::Loading => ReplyView::Loading,
            GetReplyStatus::Ready(v) => ReplyView::Ready(v@),
            GetReplyStatus::ReadyLocal(h) => ReplyView::ReadyLocal(h.0),
        }
    }
}

/// A reply status as sent to a remote client.
pub enum RemoteEntryStatus {
    Unassigned,
    Assign(u64),
    Loading,
    Ready(Vec<u8>),
}

/// An ID with the path of the entry's file.
pub struct IdPath {
    pub id: u64,
    pub path: String,
}

/// A reply status as sent to a local client.
pub enum LocalEntryStatus {
    Unassigned,
    Assign(IdPath),
    Loading,
    Ready(IdPath),
}

impl GetReplyStatus {
    /// The status for a remote client; local handles have no remote form.
    pub fn into_remote(self) -> (r: RemoteEntryStatus)
        requires
            !(self is ReadyLocal),
        ensures
            match self@ {
                ReplyView::Unassigned => r is Unassigned,
                ReplyView::Assign(id) => r == RemoteEntryStatus::Assign(id),
                ReplyView::Loading => r is Loading,
                ReplyView::Ready(v) => r matches RemoteEntryStatus::Ready(x) && x@ == v,
                ReplyView::ReadyLocal(_) => false,
            },
    {
        match self {
            GetReplyStatus::Unassigned => RemoteEntryStatus::Unassigned,
            GetReplyStatus::Assign(id) => RemoteEntryStatus::Assign(id.0),
            GetReplyStatus::Loading => RemoteEntryStatus::Loading,
            GetReplyStatus::Ready(val) => RemoteEntryStatus::Ready(val),
            GetReplyStatus::ReadyLocal(_) => RemoteEntryStatus::Unassigned,
        }
    }

    /// The status for a local client, whose entries live at `path`; values read for
    /// remote clients have no local form.
    pub fn into_local(self, path: String) -> (r: LocalEntryStatus)
        requires
            !(self is Ready),
        ensures
            match self@ {
                ReplyView::Unassigned => r is Unassigned,
                ReplyView::Assign(id) => r matches LocalEntryStatus::Assign(x) && x.id == id
                    && x.path@ == path@,
                ReplyView::Loading => r is Loading,
                ReplyView::ReadyLocal(id) => r matches LocalEntryStatus::Ready(x) && x.id == id
                    && x.path@ == path@,
                ReplyView::Ready(_) => false,
            },
    {
        match self {
            GetReplyStatus::Unassigned => LocalEntryStatus::Unassigned,
            GetReplyStatus::Assign(id) => LocalEntryStatus::Assign(IdPath { id: id.0, path }),
            GetReplyStatus::Loading => LocalEntryStatus::Loading,
            GetReplyStatus::ReadyLocal(id) => LocalEntryStatus::Ready(IdPath { id: id.0, path }),
            GetReplyStatus::Ready(_) => LocalEntryStatus::Unassigned,
        }
    }
}

/// The server's bookkeeping, as mathematical maps.
pub struct CacheView {
    pub next_assignment: u64,
    pub next_handle: u64,
    pub entries: Map<(Seq<char>, Seq<u8>), EntryStatus>,
    pub loading: Map<u64, (u64, (Seq<char>, Seq<u8>))>,
    pub handles: Map<u64, (Seq<char>, Seq<u8>)>,
}

/// What a request for an entry needs next.
pub enum GetStep {
    /// Answer with this status.
    Reply(GetReplyStatus),
    /// The entry is loading under an assignment the server no longer knows.
    KeyLost,
    /// Persist a loading status for the key, then [`CacheInner::commit_assign`] this
    /// assignment.
    PersistAssign(AssignmentId),
    /// Delete the key's persisted status, then [`CacheInner::commit_unassign`] it.
    PersistUnassign,
    /// Read the entry's file and answer with its content.
    ReadValue,
}

/// The mathematical value of a [`GetStep`].
pub enum StepView {
    Reply(ReplyView),
    KeyLost,
    PersistAssign(u64),
    PersistUnassign,
    ReadValue,
}

impl View for GetStep {
    type V = StepView;

    open spec fn view(&self) -> StepView {
        match self {
            GetStep::Reply(r) => StepView::Reply(r@),
            GetStep::KeyLost => StepView::KeyLost,
            GetStep::PersistAssign(id) => StepView::PersistAssign(id.0),
            GetStep::PersistUnassign => StepView::PersistUnassign,
            GetStep::ReadValue => StepView::ReadValue,
        }
    }
}

/// The time from `then` to `now`, or zero where `then` is later.
pub open spec fn elapsed(now: u64, then: u64) -> u64 {
    if now >= then {
        (now - then) as u64
    } else {
        0
    }
}

/// How a request for key `k` changes the bookkeeping `v`, and what it needs next.
///
/// A loading entry whose generator missed its heartbeats for longer than `timeout` is
/// reassigned to the requester if it asks to be assigned, and otherwise dropped (once the
/// drop is persisted). A ready entry gives a local requester a new handle, and a remote
/// one its value. An absent entry is assigned to the requester if it asks (once the
/// assignment is persisted).
pub open spec fn get_spec(
    v: CacheView,
    k: (Seq<char>, Seq<u8>),
    assign: bool,
    local: bool,
    now: u64,
    timeout: u64,
) -> (CacheView, StepView) {
    if v.entries.dom().contains(k) {
        match v.entries[k] {
            EntryStatus::Loading(id) => if !v.loading.dom().contains(id.0) {
                (v, StepView::KeyLost)
            } else if elapsed(now, v.loading[id.0].0) > timeout {
                if assign {
                    let n = (v.next_assignment + 1) as u64;
                    (
                        CacheView {
                            next_assignment: n,
                            entries: v.entries.insert(k, EntryStatus::Loading(AssignmentId(n))),
                            loading: v.loading.remove(id.0).insert(n, (now, k)),
                            ..v
                        },
                        StepView::Reply(ReplyView::Assign(n)),
                    )
                } else {
                    (v, StepView::PersistUnassign)
                }
            } else {
                (v, StepView::Reply(ReplyView::Loading))
            },
            EntryStatus::Ready(in_use) => if local {
                let h = (v.next_handle + 1) as u64;
                (
                    CacheView {
                        next_handle: h,
                        entries: v.entries.insert(k, EntryStatus::Ready((in_use + 1) as u64)),
                        handles: v.handles.insert(h, k),
                        ..v
                    },
                    StepView::Reply(ReplyView::ReadyLocal(h)),
                )
            } else {
                (v, StepView::ReadValue)
            },
            EntryStatus::Evicting => (v, StepView::Reply(ReplyView::Unassigned)),
        }
    } else if assign {
        (
            CacheView { next_assignment: (v.next_assignment + 1) as u64, ..v },
            StepView::PersistAssign((v.next_assignment + 1) as u64),
        )
    } else {
        (v, StepView::Reply(ReplyView::Unassigned))
    }
}

/// Whether a request for key `k` would push a counter past its largest value.
pub open spec fn get_overflows(
    v: CacheView,
    k: (Seq<char>, Seq<u8>),
    assign: bool,
    local: bool,
    now: u64,
    timeout: u64,
) -> bool {
    if v.entries.dom().contains(k) {
        match v.entries[k] {
            EntryStatus::Loading(id) => v.loading.dom().contains(id.0) && elapsed(
                now,
                v.loading[id.0].0,
            ) > timeout && assign && v.next_assignment == u64::MAX,
            EntryStatus::Ready(in_use) => local && (in_use == u64::MAX || v.next_handle
                == u64::MAX),
            EntryStatus::Evicting => false,
        }
    } else {
        assign && v.next_assignment == u64::MAX
    }
}

/// The outcome of dropping a handle.
#[derive(Clone, Copy, Debug, PartialEq, Eq, Structural)]
pub enum DropOutcome {
    /// The handle was released.
    Released,
    /// No such handle.
    InvalidHandle,
    /// The handle's entry is unknown.
    KeyLost,
    /// The handle's entry is not ready.
    Inconsistent,
}

/// The bookkeeping behind a cache server's lock.
pub struct CacheInner {
    /// The last assignment ID handed out.
    pub next_assignment_id: AssignmentId,
    /// The last handle ID handed out.
    pub next_handle_id: HandleId,
    entry_status: AssocList<EntryKey, EntryStatus>,
    loading: HashMap<u64, LoadingData>,
    handles: HashMap<u64, EntryKey>,
}

impl CacheInner {
    /// The bookkeeping as maps.
    pub closed spec fn view_of(&self) -> CacheView {
        CacheView {
            next_assignment: self.next_assignment_id.0,
            next_handle: self.next_handle_id.0,
            entries: self.entry_status.map(),
            loading: self.loading@.map_values(|d: LoadingData| (d.last_heartbeat, d.key@)),
            handles: self.handles@.map_values(|k: EntryKey| k@),
        }
    }

    /// The lists have distinct keys, and no assignment or handle ID is ahead of the last
    /// one handed out.
    pub closed spec fn wf(&self) -> bool {
        &&& self.entry_status.wf()
        &&& forall|id: u64| #[trigger] self.loading@.dom().contains(id) ==> id
            <= self.next_assignment_id.0
        &&& forall|h: u64| #[trigger] self.handles@.dom().contains(h) ==> h
            <= self.next_handle_id.0
    }

    /// Empty bookkeeping.
    pub fn new() -> (r: CacheInner)
        ensures
            r.wf(),
            r.view_of().next_assignment == 0,
            r.view_of().next_handle == 0,
            r.view_of().entries == Map::<(Seq<char>, Seq<u8>), EntryStatus>::empty(),
            r.view_of().loading == Map::<u64, (u64, (Seq<char>, Seq<u8>))>::empty(),
            r.view_of().handles == Map::<u64, (Seq<char>, Seq<u8>)>::empty(),
    {
        let r = CacheInner {
            next_assignment_id: AssignmentId(0),
            next_handle_id: HandleId(0),
            entry_status: AssocList::new(),
            loading: HashMap::new(),
            handles: HashMap::new(),
        };
        assert(r.view_of().loading =~= Map::<u64, (u64, (Seq<char>, Seq<u8>))>::empty());
        assert(r.view_of().handles =~= Map::<u64, (Seq<char>, Seq<u8>)>::empty());
        r
    }

    /// Replaces the entries by those that the persisted status rows stand for, the rows in the
    /// order they were read (see [`restored_entries`]).
    pub fn load_entries(&mut self, rows: Vec<(EntryKey, DbEntryStatus)>)
        requires
            old(self).wf(),
        ensures
            final(self).wf(),
            final(self).view_of() == (CacheView {
                entries: restored_entries(rows_view(rows@)),
                ..old(self).view_of()
            }),
    {
        let ghost rv = rows_view(rows@);
        let mut entries: AssocList<EntryKey, EntryStatus> = AssocList::new();
        let mut i: usize = 0;
        while i < rows.len()
            invariant
                rv == rows_view(rows@),
                i <= rows@.len(),
                entries.wf(),
                entries.map() == restored_entries(rv.take(i as int)),
            decreases rows@.len() - i,
        {
            let status = match rows[i].1 {
                DbEntryStatus::Loading => None,
                DbEntryStatus::Ready => Some(EntryStatus::Ready(0)),
                DbEntryStatus::Evicting => Some(EntryStatus::Evicting),
            };
            proof {
                assert(rv.take(i + 1).drop_last() =~= rv.take(i as int));
                assert(rv.take(i + 1).last() == (rows@[i as int].0@, rows@[i as int].1));
            }
            if let Some(s) = status {
                match entries.find(&rows[i].0) {
                    Some(j) => entries.set_at(j, s),
                    None => entries.push_new(rows[i].0.copy_key(), s),
                }
            }
            i = i + 1;
        }
        proof {
            assert(rv.take(rows@.len() as int) =~= rv);
        }
        self.entry_status = entries;
    }

    /// Whether a request for `key` can be served without a counter overflowing.
    pub fn get_fits(&self, key: &EntryKey, assign: bool, local: bool, now: u64, timeout: u64) -> (r: bool)
        requires
            self.wf(),
        ensures
            r == !get_overflows(self.view_of(), key@, assign, local, now, timeout),
    {
        match self.entry_status.find(key) {
            Some(i) => match self.entry_status.items[i].1 {
                EntryStatus::Loading(id) => match self.loading.get(&id.0) {
                    Some(data) => {
                        let el = if now >= data.last_heartbeat { now - data.last_heartbeat } else { 0 };
                        !(el > timeout && assign && self.next_assignment_id.0 == u64::MAX)
                    },
                    None => true,
                },
                EntryStatus::Ready(in_use) => !(local && (in_use == u64::MAX || self.next_handle_id.0
                    == u64::MAX)),
                EntryStatus::Evicting => true,
            },
            None => !(assign && self.next_assignment_id.0 == u64::MAX),
        }
    }

    /// Decides a request for entry `key` at time `now`: updates the bookkeeping where no
    /// persistence is needed, and says what to do next.
    pub fn get_begin(
        &mut self,
        key: &EntryKey,
        assign: bool,
        local: bool,
        now: u64,
        timeout: u64,
    ) -> (r: GetStep)
        requires
            old(self).wf(),
            !get_overflows(old(self).view_of(), key@, assign, local, now, timeout),
        ensures
            final(self).wf(),
            (final(self).view_of(), r@) == get_spec(old(self).view_of(), key@, assign, local, now, timeout),
            r matches GetStep::PersistAssign(id) ==> id.0 == final(self).view_of().next_assignment
                && !final(self).view_of().loading.dom().contains(id.0)
                && !final(self).view_of().entries.dom().contains(key@),
    {
        let ghost v = self.view_of();
        match self.entry_status.find(key) {
            Some(i) => {
                let status = self.entry_status.items[i].1;
                match status {
                    EntryStatus::Loading(id) => {
                        let hb = match self.loading.get(&id.0) {
                            Some(d) => d.last_heartbeat,
                            None => {
                                return GetStep::KeyLost;
                            },
                        };
                        let el = if now >= hb { now - hb } else { 0 };
                        if el > timeout {
                            if assign {
                                self.loading.remove(&id.0);
                                self.next_assignment_id.increment();
                                let nid = self.next_assignment_id;
                                self.entry_status.set_at(i, EntryStatus::Loading(nid));
                                self.loading.insert(nid.0, LoadingData { last_heartbeat: now, key: key.copy_key() });
                                proof {
                                    assert(self.view_of().loading =~= v.loading.remove(id.0).insert(nid.0, (now, key@)));
                                    assert(self.view_of().entries =~= v.entries.insert(key@, EntryStatus::Loading(nid)));
                                    assert(self.view_of().handles =~= v.handles);
                                }
                                GetStep::Reply(GetReplyStatus::Assign(nid))
                            } else {
                                GetStep::PersistUnassign
                            }
                        } else {
                            GetStep::Reply(GetReplyStatus::Loading)
                        }
                    },
                    EntryStatus::Ready(in_use) => {
                        if local {
                            self.entry_status.set_at(i, EntryStatus::Ready(in_use + 1));
                            self.next_handle_id.increment();
                            let h = self.next_handle_id;
                            self.handles.insert(h.0, key.copy_key());
                            proof {
                                assert(self.view_of().handles =~= v.handles.insert(h.0, key@));
                                assert(self.view_of().loading =~= v.loading);
                            }
                            GetStep::Reply(GetReplyStatus::ReadyLocal(h))
                        } else {
                            GetStep::ReadValue
                        }
                    },
                    EntryStatus::Evicting => GetStep::Reply(GetReplyStatus::Unassigned),
                }
            },
            None => {
                if assign {
                    self.next_assignment_id.increment();
                    proof {
                        assert(self.view_of().loading =~= v.loading);
                        assert(self.view_of().handles =~= v.handles);
                    }
                    GetStep::PersistAssign(self.next_assignment_id)
                } else {
                    GetStep::Reply(GetReplyStatus::Unassigned)
                }
            },
        }
    }

    /// Records the assignment `id` of the absent entry `key`, once its loading status is
    /// persisted; `id` is the assignment just handed out.
    pub fn commit_assign(&mut self, key: EntryKey, id: AssignmentId, now: u64) -> (r: GetReplyStatus)
        requires
            old(self).wf(),
            !old(self).view_of().entries.dom().contains(key@),
            id.0 == old(self).view_of().next_assignment,
            !old(self).view_of().loading.dom().contains(id.0),
        ensures
            final(self).wf(),
            r@ == ReplyView::Assign(id.0),
            final(self).view_of() == (CacheView {
                entries: old(self).view_of().entries.insert(key@, EntryStatus::Loading(id)),
                loading: old(self).view_of().loading.insert(id.0, (now, key@)),
                ..old(self).view_of()
            }),
    {
        let ghost v = self.view_of();
        let k2 = key.copy_key();
        self.entry_status.push_new(key, EntryStatus::Loading(id));
        self.loading.insert(id.0, LoadingData { last_heartbeat: now, key: k2 });
        proof {
            assert(self.view_of().loading =~= v.loading.insert(id.0, (now, k2@)));
            assert(self.view_of().handles =~= v.handles);
        }
        GetReplyStatus::Assign(id)
    }

    /// Forgets the entry `key`, once the deletion of its persisted status succeeded.
    pub fn commit_unassign(&mut self, key: &EntryKey) -> (r: GetReplyStatus)
        requires
            old(self).wf(),
        ensures
            final(self).wf(),
            r@ == ReplyView::Unassigned,
            final(self).view_of() == (CacheView {
                entries: old(self).view_of().entries.remove(key@),
                ..old(self).view_of()
            }),
    {
        let ghost v = self.view_of();
        if let Some(i) = self.entry_status.find(key) {
            self.entry_status.remove_at(i);
        } else {
            assert(v.entries.remove(key@) =~= v.entries);
        }
        proof {
            assert(self.view_of().loading =~= v.loading);
            assert(self.view_of().handles =~= v.handles);
        }
        GetReplyStatus::Unassigned
    }

    /// Records a heartbeat at time `now` from the holder of assignment `id`; `false`
    /// where no entry is loading under that assignment.
    pub fn heartbeat(&mut self, id: AssignmentId, now: u64) -> (r: bool)
        requires
            old(self).wf(),
        ensures
            final(self).wf(),
            r == old(self).view_of().loading.dom().contains(id.0),
            r ==> final(self).view_of() == (CacheView {
                loading: old(self).view_of().loading.insert(
                    id.0,
                    (now, old(self).view_of().loading[id.0].1),
                ),
                ..old(self).view_of()
            }),
            !r ==> final(self).view_of() == old(self).view_of(),
    {
        let ghost v = self.view_of();
        match self.loading.remove(&id.0) {
            Some(d) => {
                self.loading.insert(id.0, LoadingData { last_heartbeat: now, key: d.key });
                proof {
                    assert(self.view_of().loading =~= v.loading.insert(id.0, (now, v.loading[id.0].1)));
                    assert(self.view_of().handles =~= v.handles);
                }
                true
            },
            None => {
                proof {
                    assert(self.view_of().loading =~= v.loading);
                    assert(self.view_of().handles =~= v.handles);
                }
                false
            },
        }
    }

    /// The key of the entry loading under assignment `id`, if any.
    pub fn set_begin(&self, id: AssignmentId) -> (r: Option<EntryKey>)
        requires
            self.wf(),
        ensures
            r is Some == self.view_of().loading.dom().contains(id.0),
            r matches Some(k) ==> k@ == self.view_of().loading[id.0].1,
    {
        match self.loading.get(&id.0) {
            Some(d) => Some(d.key.copy_key()),
            None => None,
        }
    }

    /// Marks entry `key` ready with no users, once its value is written and its status
    /// persisted; `false` where the entry is unknown.
    pub fn set_commit(&mut self, key: &EntryKey) -> (r: bool)
        requires
            old(self).wf(),
        ensures
            final(self).wf(),
            r == old(self).view_of().entries.dom().contains(key@),
            r ==> final(self).view_of() == (CacheView {
                entries: old(self).view_of().entries.insert(key@, EntryStatus::Ready(0)),
                ..old(self).view_of()
            }),
            !r ==> final(self).view_of() == old(self).view_of(),
    {
        let ghost v = self.view_of();
        match self.entry_status.find(key) {
            Some(i) => {
                self.entry_status.set_at(i, EntryStatus::Ready(0));
                proof {
                    assert(self.view_of().loading =~= v.loading);
                    assert(self.view_of().handles =~= v.handles);
                }
                true
            },
            None => false,
        }
    }

    /// Whether dropping handle `id` would take an entry's user count below zero.
    pub open spec fn drop_underflows(v: CacheView, id: u64) -> bool {
        v.handles.dom().contains(id) && v.entries.dom().contains(v.handles[id])
            && v.entries[v.handles[id]] == EntryStatus::Ready(0)
    }

    /// Releases handle `id`: its entry loses one user and the handle is forgotten.
    pub fn drop_handle(&mut self, id: HandleId) -> (r: DropOutcome)
        requires
            old(self).wf(),
            !Self::drop_underflows(old(self).view_of(), id.0),
        ensures
            final(self).wf(),
            ({
                let v = old(self).view_of();
                if !v.handles.dom().contains(id.0) {
                    r == DropOutcome::InvalidHandle && final(self).view_of() == v
                } else if !v.entries.dom().contains(v.handles[id.0]) {
                    r == DropOutcome::KeyLost && final(self).view_of() == v
                } else {
                    match v.entries[v.handles[id.0]] {
                        EntryStatus::Ready(n) => r == DropOutcome::Released && final(self).view_of() == (
                        CacheView {
                            entries: v.entries.insert(v.handles[id.0], EntryStatus::Ready((n - 1) as u64)),
                            handles: v.handles.remove(id.0),
                            ..v
                        }),
                        _ => r == DropOutcome::Inconsistent && final(self).view_of() == v,
                    }
                }
            }),
    {
        let ghost v = self.view_of();
        let hk = match self.handles.get(&id.0) {
            Some(k) => k,
            None => {
                return DropOutcome::InvalidHandle;
            },
        };
        let ei = match self.entry_status.find(hk) {
            Some(ei) => ei,
            None => {
                return DropOutcome::KeyLost;
            },
        };
        match self.entry_status.items[ei].1 {
            EntryStatus::Ready(n) => {
                self.entry_status.set_at(ei, EntryStatus::Ready(n - 1));
                self.handles.remove(&id.0);
                proof {
                    assert(self.view_of().handles =~= v.handles.remove(id.0));
                    assert(self.view_of().loading =~= v.loading);
                }
                DropOutcome::Released
            },
            _ => DropOutcome::Inconsistent,
        }
    }
}

} // verus!
