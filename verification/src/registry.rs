//! The connection registry: the directory of live connections.
//!
//! The registry maps a connection identifier to its entry (display name,
//! outbound handle, lifecycle state). Identifiers are issued from a counter
//! that only grows, so an identifier is never reused and a fresh registration
//! can never collide with a live entry — the double-registration fault is
//! impossible by construction. The surrounding process guards the whole
//! registry with one lock held only around directory work, never across
//! socket I/O: delivery only queues frames on an entry's handle, and the
//! queued frames are drained to the sockets after the lock is released.

use vstd::prelude::*;

use crate::handle::ConnectionHandle;
use crate::handle::HandleModel;
use crate::handle::HandleStatus;
use crate::handle::SendError;
use crate::message::bytes_eq;
use crate::message::Frame;
use crate::message::FrameModel;
use crate::session::SessionState;

verus! {

/// One connection's record in the directory.
pub struct ConnectionEntry {
    id: u64,
    name: Vec<u8>,
    handle: ConnectionHandle,
    state: SessionState,
}

/// Mathematical model of a [`ConnectionEntry`].
#[verifier::ext_equal]
pub struct EntryModel {
    pub id: u64,
    pub name: Seq<u8>,
    pub handle: HandleModel,
    pub state: SessionState,
}

impl View for ConnectionEntry {
    type V = EntryModel;

    closed spec fn view(&self) -> EntryModel {
        EntryModel { id: self.id, name: self.name@, handle: self.handle@, state: self.state }
    }
}

impl ConnectionEntry {
    /// The connection identifier (immutable for the entry's lifetime).
    pub fn id(&self) -> (r: u64)
        ensures
            r == self@.id,
    {
        self.id
    }

    /// The display name chosen at registration.
    pub fn name(&self) -> (r: &Vec<u8>)
        ensures
            r@ == self@.name,
    {
        &self.name
    }

    /// The entry's outbound handle.
    pub fn handle(&self) -> (r: &ConnectionHandle)
        ensures
            r@ == self@.handle,
    {
        &self.handle
    }

    /// The session's lifecycle state as recorded in the directory.
    pub fn state(&self) -> (r: SessionState)
        ensures
            r == self@.state,
    {
        self.state
    }
}

/// Mathematical model of a [`Registry`].
#[verifier::ext_equal]
pub struct RegistryModel {
    pub entries: Seq<EntryModel>,
    pub next_id: u64,
}

/// The directory invariant: every issued identifier is below the counter,
/// identifiers are unique, and every entry belongs to a live (`Active`)
/// session — an entry exists exactly while its session is registered.
pub open spec fn reg_valid(m: RegistryModel) -> bool {
    &&& forall|i: int| 0 <= i < m.entries.len() ==> m.entries[i].id < m.next_id
    &&& forall|i: int, j: int|
        0 <= i < j < m.entries.len() ==> m.entries[i].id != m.entries[j].id
    &&& forall|i: int| 0 <= i < m.entries.len() ==> m.entries[i].state == SessionState::Active
}

/// Is `id` registered?
pub open spec fn reg_contains(m: RegistryModel, id: u64) -> bool {
    exists|i: int| 0 <= i < m.entries.len() && m.entries[i].id == id
}

/// The index of `id`'s entry (meaningful when `reg_contains` holds; unique
/// under the directory invariant).
pub open spec fn index_of_id(m: RegistryModel, id: u64) -> int {
    choose|i: int| 0 <= i < m.entries.len() && m.entries[i].id == id
}

/// Does some entry bear `name`?
pub open spec fn has_name(s: Seq<EntryModel>, name: Seq<u8>) -> bool {
    exists|i: int| 0 <= i < s.len() && s[i].name == name
}

/// The first index bearing `name`: names are not unique, and whisper routing
/// resolves to the first match in registration order.
pub open spec fn first_with_name(s: Seq<EntryModel>, name: Seq<u8>) -> int
    decreases s.len(),
{
    if s.len() == 0 {
        0
    } else if s[0].name == name {
        0
    } else {
        1 + first_with_name(s.drop_first(), name)
    }
}

/// When `name` occurs, `first_with_name` is its first occurrence.
pub proof fn lemma_first_with_name(s: Seq<EntryModel>, name: Seq<u8>)
    requires
        has_name(s, name),
    ensures
        0 <= first_with_name(s, name) < s.len(),
        s[first_with_name(s, name)].name == name,
        forall|j: int| 0 <= j < first_with_name(s, name) ==> s[j].name != name,
    decreases s.len(),
{
    if s.len() == 0 {
    } else if s[0].name == name {
    } else {
        let d = s.drop_first();
        assert(has_name(d, name)) by {
            let w = choose|i: int| 0 <= i < s.len() && s[i].name == name;
            assert(d[w - 1] == s[w]);
        }
        lemma_first_with_name(d, name);
        assert forall|j: int| 0 <= j < first_with_name(s, name) implies s[j].name != name by {
            if j > 0 {
                assert(s[j] == d[j - 1]);
            }
        }
        assert(s[first_with_name(s, name)] == d[first_with_name(d, name)]);
    }
}

/// The entries other than `excluded`'s, in registration order: the snapshot a
/// broadcast fans out over.
pub open spec fn entries_except(s: Seq<EntryModel>, excluded: u64) -> Seq<EntryModel>
    decreases s.len(),
{
    if s.len() == 0 {
        Seq::empty()
    } else {
        entries_except(s.drop_last(), excluded) + (if s.last().id == excluded {
            Seq::empty()
        } else {
            seq![s.last()]
        })
    }
}

/// The model after registering `name`: one fresh entry appended, the counter
/// advanced.
pub open spec fn register_model(m: RegistryModel, name: Seq<u8>) -> RegistryModel {
    RegistryModel {
        entries: m.entries.push(
            EntryModel {
                id: m.next_id,
                name: name,
                handle: HandleModel { outbox: Seq::empty(), status: HandleStatus::Open },
                state: SessionState::Active,
            },
        ),
        next_id: (m.next_id + 1) as u64,
    }
}

/// The model after removing `id`: that entry deleted if present, everything
/// else untouched. Removal is idempotent — an absent id is a no-op.
pub open spec fn remove_model(m: RegistryModel, id: u64) -> RegistryModel {
    if reg_contains(m, id) {
        RegistryModel { entries: m.entries.remove(index_of_id(m, id)), next_id: m.next_id }
    } else {
        m
    }
}

/// Replacing one entry's handle (same id, name and state) preserves the
/// directory invariant.
proof fn lemma_update_handle_preserves_valid(m: RegistryModel, i: int, e: EntryModel)
    requires
        reg_valid(m),
        0 <= i < m.entries.len(),
        e.id == m.entries[i].id,
        e.state == m.entries[i].state,
    ensures
        reg_valid(RegistryModel { entries: m.entries.update(i, e), next_id: m.next_id }),
{
}

/// The concurrency-safe directory of live connections.
///
/// The structure itself is sequential; the process shares it behind a single
/// mutual-exclusion lock, so each operation below is one atomic step of the
/// directory, and every contract here describes that whole step.
pub struct Registry {
    entries: Vec<ConnectionEntry>,
    next_id: u64,
}

impl View for Registry {
    type V = RegistryModel;

    closed spec fn view(&self) -> RegistryModel {
        RegistryModel { entries: self.entries.deep_view(), next_id: self.next_id }
    }
}

impl DeepView for ConnectionEntry {
    type V = EntryModel;

    open spec fn deep_view(&self) -> EntryModel {
        self.view()
    }
}

impl Registry {
    #[verifier::type_invariant]
    spec fn wf(self) -> bool {
        reg_valid(self@)
    }

    /// An empty directory; no identifier has been issued yet.
    pub fn new() -> (r: Registry)
        ensures
            r@.entries == Seq::<EntryModel>::empty(),
            r@.next_id == 0,
            reg_valid(r@),
    {
        let r = Registry { entries: Vec::new(), next_id: 0 };
        proof {
            assert(r@.entries =~= Seq::<EntryModel>::empty());
        }
        r
    }

    /// Number of live entries.
    pub fn len(&self) -> (n: usize)
        ensures
            n == self@.entries.len(),
    {
        self.entries.len()
    }

    /// The identifier of the entry at position `i` (registration order).
    pub fn id_at(&self, i: usize) -> (id: u64)
        requires
            i < self@.entries.len(),
        ensures
            id == self@.entries[i as int].id,
    {
        self.entries[i].id
    }

    /// Has the identifier space been exhausted? `register` must not be
    /// called once this holds (unreachable in practice with 64-bit ids).
    pub fn ids_exhausted(&self) -> (r: bool)
        ensures
            r == (self@.next_id == u64::MAX),
    {
        self.next_id == u64::MAX
    }

    /// Register a new connection under `name`: issue a fresh identifier,
    /// create an `Active` entry with an open, empty handle, and return the
    /// identifier. The identifier was not in use — freshness is guaranteed by
    /// the growing counter, so concurrent registrations (serialized by the
    /// registry lock) can never collide.
    pub fn register(&mut self, name: Vec<u8>) -> (id: u64)
        requires
            old(self)@.next_id < u64::MAX,
        ensures
            id == old(self)@.next_id,
            !reg_contains(old(self)@, id),
            final(self)@ == register_model(old(self)@, name@),
            reg_valid(final(self)@),
    {
        proof {
            use_type_invariant(&*self);
        }
        let ghost gname = name@;
        let id = self.next_id;
        let entry = ConnectionEntry {
            id,
            name,
            handle: ConnectionHandle::new(),
            state: SessionState::Active,
        };
        let ghost gentry = entry@;
        self.next_id = id + 1;
        let mut entries: Vec<ConnectionEntry> = Vec::new();
        core::mem::swap(&mut entries, &mut self.entries);
        entries.push(entry);
        proof {
            assert(entries.deep_view() =~= old(self)@.entries.push(gentry));
            assert forall|k: int| 0 <= k < entries.deep_view().len() implies entries.deep_view()[k].id
                < self.next_id && entries.deep_view()[k].state == SessionState::Active by {
                if k < old(self)@.entries.len() {
                    assert(entries.deep_view()[k] == old(self)@.entries[k]);
                }
            }
        }
        self.entries = entries;
        proof {
            assert(self@.entries =~= register_model(old(self)@, gname).entries);
        }
        id
    }

    /// Find the position of `id`, if it is registered.
    fn index_of(&self, id: u64) -> (r: Option<usize>)
        ensures
            match r {
                Some(i) => i < self@.entries.len() && self@.entries[i as int].id == id
                    && i == index_of_id(self@, id),
                None => !reg_contains(self@, id),
            },
    {
        proof {
            use_type_invariant(&*self);
        }
        let n = self.entries.len();
        let mut i: usize = 0;
        while i < n && self.entries[i].id != id
            invariant
                i <= n,
                n == self@.entries.len(),
                forall|j: int| 0 <= j < i ==> self@.entries[j].id != id,
            decreases n - i,
        {
            i = i + 1;
        }
        if i < n {
            proof {
                use_type_invariant(&*self);
                assert(self@.entries[i as int].id == id);
                assert(reg_contains(self@, id));
                let k = index_of_id(self@, id);
                assert(0 <= k < self@.entries.len() && self@.entries[k].id == id);
            }
            Some(i)
        } else {
            None
        }
    }

    /// A read-only snapshot of `id`'s entry, for routing.
    pub fn lookup_by_id(&self, id: u64) -> (r: Option<&ConnectionEntry>)
        ensures
            r is Some <==> reg_contains(self@, id),
            r matches Some(e) ==> e@ == self@.entries[index_of_id(self@, id)] && e@.id == id,
    {
        match self.index_of(id) {
            Some(i) => Some(&self.entries[i]),
            None => None,
        }
    }

    /// The position of the first entry bearing `name`, if any: names are not
    /// unique, and resolution is first match in registration order.
    pub(crate) fn index_of_name(&self, name: &Vec<u8>) -> (r: Option<usize>)
        ensures
            match r {
                Some(i) => has_name(self@.entries, name@) && i == first_with_name(
                    self@.entries,
                    name@,
                ) && i < self@.entries.len() && self@.entries[i as int].name == name@,
                None => !has_name(self@.entries, name@),
            },
    {
        let n = self.entries.len();
        let mut i: usize = 0;
        while i < n && !bytes_eq(&self.entries[i].name, name)
            invariant
                i <= n,
                n == self@.entries.len(),
                forall|j: int| 0 <= j < i ==> self@.entries[j].name != name@,
            decreases n - i,
        {
            i = i + 1;
        }
        if i < n {
            proof {
                assert(self@.entries[i as int].name == name@);
                assert(has_name(self@.entries, name@));
                lemma_first_with_name(self@.entries, name@);
            }
            Some(i)
        } else {
            None
        }
    }

    /// A read-only snapshot of the first entry bearing `name`, for whisper
    /// routing.
    pub fn lookup_by_name(&self, name: &Vec<u8>) -> (r: Option<&ConnectionEntry>)
        ensures
            r is Some <==> has_name(self@.entries, name@),
            r matches Some(e) ==> e@ == self@.entries[first_with_name(self@.entries, name@)]
                && e@.name == name@,
    {
        proof {
            if has_name(self@.entries, name@) {
                lemma_first_with_name(self@.entries, name@);
            }
        }
        match self.index_of_name(name) {
            Some(i) => Some(&self.entries[i]),
            None => None,
        }
    }

    /// Remove `id`'s entry. Idempotent: removing an absent id is a no-op, so
    /// a teardown racing a concurrent broadcast is harmless.
    pub fn remove(&mut self, id: u64)
        ensures
            final(self)@ == remove_model(old(self)@, id),
            !reg_contains(final(self)@, id),
            reg_valid(final(self)@),
    {
        proof {
            use_type_invariant(&*self);
        }
        match self.index_of(id) {
            Some(i) => {
                let mut entries: Vec<ConnectionEntry> = Vec::new();
                core::mem::swap(&mut entries, &mut self.entries);
                entries.remove(i);
                proof {
                    assert(entries.deep_view() =~= old(self)@.entries.remove(i as int));
                    lemma_remove_exact(old(self)@, id, id);
                }
                self.entries = entries;
                proof {
                    assert(self@.entries =~= old(self)@.entries.remove(i as int));
                    assert forall|k: int|
                        0 <= k < self@.entries.len() implies self@.entries[k].id != id by {
                        if k < i {
                            assert(self@.entries[k] == old(self)@.entries[k]);
                        } else {
                            assert(self@.entries[k] == old(self)@.entries[k + 1]);
                        }
                    }
                }
            },
            None => {
                proof {
                    assert(self@ =~= remove_model(old(self)@, id));
                }
            },
        }
    }

    /// The snapshot a broadcast fans out over: every entry except
    /// `excluded`'s, in registration order, at the moment of the call.
    pub fn all_except(&self, excluded: u64) -> (r: Vec<&ConnectionEntry>)
        ensures
            r.deep_view() == entries_except(self@.entries, excluded),
    {
        let n = self.entries.len();
        let mut r: Vec<&ConnectionEntry> = Vec::new();
        let mut i: usize = 0;
        while i < n
            invariant
                i <= n,
                n == self@.entries.len(),
                r.deep_view() == entries_except(self@.entries.take(i as int), excluded),
            decreases n - i,
        {
            let ghost prefix = self@.entries.take(i as int);
            let ghost prefix1 = self@.entries.take(i + 1);
            if self.entries[i].id != excluded {
                r.push(&self.entries[i]);
            }
            proof {
                assert(prefix1.drop_last() =~= prefix);
                assert(prefix1.last() == self@.entries[i as int]);
                assert(r.deep_view() =~= entries_except(prefix1, excluded));
            }
            i = i + 1;
        }
        proof {
            assert(self@.entries.take(n as int) =~= self@.entries);
        }
        r
    }

    /// Queue `frame` on the handle of the entry at position `i`. Everything
    /// else in the directory is untouched; the outcome at `i` is exactly the
    /// handle's own send contract.
    pub(crate) fn send_at(&mut self, i: usize, frame: Frame) -> (r: Result<(), SendError>)
        requires
            i < old(self)@.entries.len(),
        ensures
            final(self)@.next_id == old(self)@.next_id,
            final(self)@.entries.len() == old(self)@.entries.len(),
            forall|j: int|
                0 <= j < old(self)@.entries.len() && j != i ==> final(self)@.entries[j] == old(
                    self,
                )@.entries[j],
            final(self)@.entries[i as int].id == old(self)@.entries[i as int].id,
            final(self)@.entries[i as int].name == old(self)@.entries[i as int].name,
            final(self)@.entries[i as int].state == old(self)@.entries[i as int].state,
            final(self)@.entries[i as int].handle.status == old(
                self,
            )@.entries[i as int].handle.status,
            old(self)@.entries[i as int].handle.status == HandleStatus::Open ==> r is Ok
                && final(self)@.entries[i as int].handle.outbox == old(
                self,
            )@.entries[i as int].handle.outbox.push(frame@),
            old(self)@.entries[i as int].handle.status != HandleStatus::Open ==> r is Err
                && final(self)@.entries[i as int].handle.outbox == old(
                self,
            )@.entries[i as int].handle.outbox,
            old(self)@.entries[i as int].handle.status == HandleStatus::Closed ==> r == Err::<
                (),
                SendError,
            >(SendError::Closed),
            old(self)@.entries[i as int].handle.status == HandleStatus::Broken ==> r == Err::<
                (),
                SendError,
            >(SendError::Unreachable),
    {
        proof {
            use_type_invariant(&*self);
        }
        let mut entries: Vec<ConnectionEntry> = Vec::new();
        core::mem::swap(&mut entries, &mut self.entries);
        let mut entry = entries.remove(i);
        let r = entry.handle.send(frame);
        let ghost gentry = entry@;
        entries.insert(i, entry);
        proof {
            assert(entries.deep_view() =~= old(self)@.entries.update(i as int, gentry));
            lemma_update_handle_preserves_valid(old(self)@, i as int, gentry);
        }
        self.entries = entries;
        proof {
            assert forall|j: int|
                0 <= j < old(self)@.entries.len() && j != i implies self@.entries[j]
                == old(self)@.entries[j] by {
            }
        }
        r
    }

    /// Hand the frames queued for the entry at position `i` to the writer:
    /// returns the identifier and the queued frames, leaving the outbox
    /// empty. The process calls this under the lock and performs the actual
    /// socket writes after releasing it.
    pub fn drain_at(&mut self, i: usize) -> (r: (u64, Vec<Frame>))
        requires
            i < old(self)@.entries.len(),
        ensures
            final(self)@.next_id == old(self)@.next_id,
            final(self)@.entries.len() == old(self)@.entries.len(),
            forall|j: int|
                0 <= j < old(self)@.entries.len() && j != i ==> final(self)@.entries[j] == old(
                    self,
                )@.entries[j],
            r.0 == old(self)@.entries[i as int].id,
            r.1.deep_view() == old(self)@.entries[i as int].handle.outbox,
            final(self)@.entries[i as int].id == old(self)@.entries[i as int].id,
            final(self)@.entries[i as int].name == old(self)@.entries[i as int].name,
            final(self)@.entries[i as int].state == old(self)@.entries[i as int].state,
            final(self)@.entries[i as int].handle.status == old(
                self,
            )@.entries[i as int].handle.status,
            final(self)@.entries[i as int].handle.outbox == Seq::<FrameModel>::empty(),
    {
        proof {
            use_type_invariant(&*self);
        }
        let mut entries: Vec<ConnectionEntry> = Vec::new();
        core::mem::swap(&mut entries, &mut self.entries);
        let mut entry = entries.remove(i);
        let id = entry.id;
        let drained = entry.handle.take_outbox();
        let ghost gentry = entry@;
        entries.insert(i, entry);
        proof {
            assert(entries.deep_view() =~= old(self)@.entries.update(i as int, gentry));
            lemma_update_handle_preserves_valid(old(self)@, i as int, gentry);
        }
        self.entries = entries;
        (id, drained)
    }

    /// Record that `id`'s transport failed: its handle becomes `Broken`, so
    /// later fan-outs treat the peer as unreachable. A no-op if `id` is not
    /// registered (the entry may already be torn down).
    pub fn mark_unreachable(&mut self, id: u64)
        ensures
            final(self)@.next_id == old(self)@.next_id,
            final(self)@.entries.len() == old(self)@.entries.len(),
            !reg_contains(old(self)@, id) ==> final(self)@ == old(self)@,
            reg_contains(old(self)@, id) ==> {
                let k = index_of_id(old(self)@, id);
                &&& forall|j: int|
                    0 <= j < old(self)@.entries.len() && j != k ==> final(self)@.entries[j]
                        == old(self)@.entries[j]
                &&& final(self)@.entries[k].id == old(self)@.entries[k].id
                &&& final(self)@.entries[k].name == old(self)@.entries[k].name
                &&& final(self)@.entries[k].state == old(self)@.entries[k].state
                &&& final(self)@.entries[k].handle.outbox == old(self)@.entries[k].handle.outbox
                &&& final(self)@.entries[k].handle.status == HandleStatus::Broken
            },
    {
        proof {
            use_type_invariant(&*self);
        }
        match self.index_of(id) {
            Some(i) => {
                let mut entries: Vec<ConnectionEntry> = Vec::new();
                core::mem::swap(&mut entries, &mut self.entries);
                let mut entry = entries.remove(i);
                entry.handle.mark_broken();
                let ghost gentry = entry@;
                entries.insert(i, entry);
                proof {
                    assert(entries.deep_view() =~= old(self)@.entries.update(i as int, gentry));
                    lemma_update_handle_preserves_valid(old(self)@, i as int, gentry);
                }
                self.entries = entries;
            },
            None => {
                proof {
                    assert(self@ =~= old(self)@);
                }
            },
        }
    }
}

/// Registering issues a genuinely fresh identifier — the new id was not
/// registered before — and disturbs no other entry: every previously
/// registered id remains, and no id appears out of nowhere.
pub proof fn lemma_register_exact(m: RegistryModel, name: Seq<u8>, other: u64)
    requires
        reg_valid(m),
        m.next_id < u64::MAX,
    ensures
        !reg_contains(m, m.next_id),
        reg_contains(register_model(m, name), m.next_id),
        other != m.next_id ==> reg_contains(register_model(m, name), other) == reg_contains(
            m,
            other,
        ),
        reg_valid(register_model(m, name)),
{
    let m2 = register_model(m, name);
    assert(m2.entries[m.entries.len() as int].id == m.next_id);
    if other != m.next_id {
        if reg_contains(m, other) {
            let w = choose|i: int| 0 <= i < m.entries.len() && m.entries[i].id == other;
            assert(m2.entries[w].id == other);
        }
        if reg_contains(m2, other) {
            let w = choose|i: int| 0 <= i < m2.entries.len() && m2.entries[i].id == other;
            assert(m.entries[w].id == other);
        }
    }
}

/// Removing a connection hides exactly that identifier: afterwards the
/// removed id resolves to nothing, while every other id resolves exactly as
/// before — no phantom loss of a still-active entry.
pub proof fn lemma_remove_exact(m: RegistryModel, removed: u64, other: u64)
    requires
        reg_valid(m),
    ensures
        !reg_contains(remove_model(m, removed), removed),
        other != removed ==> reg_contains(remove_model(m, removed), other) == reg_contains(
            m,
            other,
        ),
        reg_valid(remove_model(m, removed)),
{
    let m2 = remove_model(m, removed);
    if reg_contains(m, removed) {
        let k = index_of_id(m, removed);
        assert(0 <= k < m.entries.len() && m.entries[k].id == removed);
        assert forall|j: int| 0 <= j < m2.entries.len() implies m2.entries[j].id != removed by {
            if j < k {
                assert(m2.entries[j] == m.entries[j]);
            } else {
                assert(m2.entries[j] == m.entries[j + 1]);
            }
        }
        if other != removed {
            if reg_contains(m, other) {
                let w = choose|i: int| 0 <= i < m.entries.len() && m.entries[i].id == other;
                if w < k {
                    assert(m2.entries[w].id == other);
                } else {
                    assert(m2.entries[w - 1].id == other);
                }
            }
            if reg_contains(m2, other) {
                let w = choose|i: int| 0 <= i < m2.entries.len() && m2.entries[i].id == other;
                if w < k {
                    assert(m.entries[w].id == other);
                } else {
                    assert(m.entries[w + 1].id == other);
                }
            }
        }
        assert forall|i: int, j: int|
            0 <= i < j < m2.entries.len() implies m2.entries[i].id != m2.entries[j].id by {
            let i0 = if i < k {
                i
            } else {
                i + 1
            };
            let j0 = if j < k {
                j
            } else {
                j + 1
            };
            assert(m2.entries[i] == m.entries[i0]);
            assert(m2.entries[j] == m.entries[j0]);
        }
        assert forall|i: int| 0 <= i < m2.entries.len() implies m2.entries[i].id < m2.next_id
            && m2.entries[i].state == SessionState::Active by {
            let i0 = if i < k {
                i
            } else {
                i + 1
            };
            assert(m2.entries[i] == m.entries[i0]);
        }
    }
}

} // verus!
