//! The message router: who receives a message, and failure isolation.
//!
//! A broadcast fans a frame out to every directory entry except the sender's,
//! from one consistent snapshot — the directory state at the moment of the
//! call. A whisper resolves its recipient by display name (first match in
//! registration order) and delivers one private-tagged text. In both cases a
//! target whose handle is terminal is simply skipped over and reported; one
//! unreachable peer never stops delivery to the rest.

use vstd::prelude::*;

use crate::handle::HandleModel;
use crate::handle::HandleStatus;
use crate::message::build_private_text;
use crate::message::private_text;
use crate::message::Frame;
use crate::message::FrameModel;
use crate::registry::first_with_name;
use crate::registry::has_name;
use crate::registry::lemma_first_with_name;
use crate::registry::EntryModel;
use crate::registry::Registry;
use crate::registry::RegistryModel;

verus! {

/// Why the router could not deliver a whisper.
#[derive(Clone, Copy, Debug, PartialEq, Eq, Structural)]
pub enum RouteError {
    /// No registered connection bears the recipient's name.
    RecipientNotFound,
    /// The recipient was found but its handle no longer accepts frames.
    SendFailure,
}

/// What a broadcast does to one entry: an open handle of anyone but the
/// sender receives exactly one copy of the frame; the sender and every
/// terminal handle are left untouched.
pub open spec fn broadcast_entry_model(e: EntryModel, sender: u64, f: FrameModel) -> EntryModel {
    if e.id != sender && e.handle.status == HandleStatus::Open {
        EntryModel {
            id: e.id,
            name: e.name,
            handle: HandleModel { outbox: e.handle.outbox.push(f), status: e.handle.status },
            state: e.state,
        }
    } else {
        e
    }
}

/// The directory after a broadcast: every entry transformed pointwise by
/// [`broadcast_entry_model`]; membership and the id counter are untouched.
pub open spec fn broadcast_model(m: RegistryModel, sender: u64, f: FrameModel) -> RegistryModel {
    RegistryModel {
        entries: Seq::new(
            m.entries.len(),
            |i: int| broadcast_entry_model(m.entries[i], sender, f),
        ),
        next_id: m.next_id,
    }
}

/// The identifiers a broadcast could not reach: every non-sender entry whose
/// handle is terminal, in registration order.
pub open spec fn failed_ids(s: Seq<EntryModel>, sender: u64) -> Seq<u64>
    decreases s.len(),
{
    if s.len() == 0 {
        Seq::empty()
    } else {
        failed_ids(s.drop_last(), sender) + (if s.last().id != sender && s.last().handle.status
            != HandleStatus::Open {
            seq![s.last().id]
        } else {
            Seq::empty()
        })
    }
}

/// Deliver `frame` to every entry except the sender's, from the snapshot the
/// registry holds at the moment of the call. Each per-target failure is
/// caught and reported in the returned list; it never stops delivery to the
/// remaining targets. The sender receives nothing, and each open target
/// receives exactly one copy.
pub fn broadcast(reg: &mut Registry, sender_id: u64, frame: &Frame) -> (failed: Vec<u64>)
    ensures
        final(reg)@ == broadcast_model(old(reg)@, sender_id, frame@),
        failed@ == failed_ids(old(reg)@.entries, sender_id),
{
    let ghost m0 = reg@;
    let n = reg.len();
    let mut failed: Vec<u64> = Vec::new();
    proof {
        assert(m0.entries.take(0) =~= Seq::<EntryModel>::empty());
        assert(failed@ =~= failed_ids(m0.entries.take(0), sender_id));
    }
    let mut i: usize = 0;
    while i < n
        invariant
            i <= n,
            n == m0.entries.len(),
            reg@.next_id == m0.next_id,
            reg@.entries.len() == n,
            forall|j: int|
                0 <= j < i ==> reg@.entries[j] == broadcast_entry_model(
                    m0.entries[j],
                    sender_id,
                    frame@,
                ),
            forall|j: int| i <= j < n ==> reg@.entries[j] == m0.entries[j],
            failed@ == failed_ids(m0.entries.take(i as int), sender_id),
        decreases n - i,
    {
        let ghost t1 = m0.entries.take(i + 1);
        let eid = reg.id_at(i);
        if eid != sender_id {
            match reg.send_at(i, frame.duplicate()) {
                Ok(_) => {},
                Err(_) => {
                    failed.push(eid);
                },
            }
        }
        proof {
            assert(t1.drop_last() =~= m0.entries.take(i as int));
            assert(t1.last() == m0.entries[i as int]);
            assert(reg@.entries[i as int] =~~= broadcast_entry_model(
                m0.entries[i as int],
                sender_id,
                frame@,
            ));
            assert(failed@ =~= failed_ids(t1, sender_id));
        }
        i = i + 1;
    }
    proof {
        assert(m0.entries.take(n as int) =~= m0.entries);
        assert(reg@ =~~= broadcast_model(m0, sender_id, frame@));
    }
    failed
}

/// The directory after a whisper: if some entry bears the recipient's name,
/// the first such entry (registration order) has the private-tagged text
/// appended to its outbox — provided its handle is open; otherwise, and when
/// the name is unknown, nothing changes at all.
pub open spec fn whisper_model(
    m: RegistryModel,
    sender: Seq<u8>,
    recipient: Seq<u8>,
    body: Seq<u8>,
) -> RegistryModel {
    if !has_name(m.entries, recipient) {
        m
    } else {
        let k = first_with_name(m.entries, recipient);
        let e = m.entries[k];
        if e.handle.status == HandleStatus::Open {
            RegistryModel {
                entries: m.entries.update(
                    k,
                    EntryModel {
                        id: e.id,
                        name: e.name,
                        handle: HandleModel {
                            outbox: e.handle.outbox.push(
                                FrameModel::Text(private_text(sender, recipient, body)),
                            ),
                            status: e.handle.status,
                        },
                        state: e.state,
                    },
                ),
                next_id: m.next_id,
            }
        } else {
            m
        }
    }
}

/// Deliver `body` privately from `sender_name` to the first entry bearing
/// `recipient_name`. The recipient's handle receives exactly one
/// private-tagged message and nobody else receives anything; an unknown name
/// is reported as [`RouteError::RecipientNotFound`] and changes nothing; an
/// unreachable recipient is reported as [`RouteError::SendFailure`] and also
/// changes nothing.
pub fn whisper(
    reg: &mut Registry,
    sender_name: &Vec<u8>,
    recipient_name: &Vec<u8>,
    body: &Vec<u8>,
) -> (r: Result<(), RouteError>)
    ensures
        final(reg)@ == whisper_model(old(reg)@, sender_name@, recipient_name@, body@),
        r is Ok <==> has_name(old(reg)@.entries, recipient_name@) && old(reg)@.entries[
            first_with_name(old(reg)@.entries, recipient_name@)
        ].handle.status == HandleStatus::Open,
        r == Err::<(), RouteError>(RouteError::RecipientNotFound) <==> !has_name(
            old(reg)@.entries,
            recipient_name@,
        ),
        r == Err::<(), RouteError>(RouteError::SendFailure) <==> has_name(
            old(reg)@.entries,
            recipient_name@,
        ) && old(reg)@.entries[first_with_name(old(reg)@.entries, recipient_name@)].handle.status
            != HandleStatus::Open,
{
    let ghost m0 = reg@;
    match reg.index_of_name(recipient_name) {
        None => {
            proof {
                assert(reg@ =~~= whisper_model(m0, sender_name@, recipient_name@, body@));
            }
            Err(RouteError::RecipientNotFound)
        },
        Some(k) => {
            let text = build_private_text(sender_name, recipient_name, body);
            match reg.send_at(k, Frame::Text(text)) {
                Ok(_) => {
                    proof {
                        assert(reg@.entries =~~= whisper_model(
                            m0,
                            sender_name@,
                            recipient_name@,
                            body@,
                        ).entries);
                    }
                    Ok(())
                },
                Err(_) => {
                    proof {
                        assert(reg@.entries =~~= m0.entries);
                    }
                    Err(RouteError::SendFailure)
                },
            }
        },
    }
}

/// Broadcast delivery is exact: a target other than the sender with an open
/// handle receives exactly one copy of the frame; the sender's own entry is
/// untouched; a terminal target is untouched; and every entry keeps its
/// identity, name, state and status.
pub proof fn lemma_broadcast_exact(m: RegistryModel, sender: u64, f: FrameModel, i: int)
    requires
        0 <= i < m.entries.len(),
    ensures
        broadcast_model(m, sender, f).entries.len() == m.entries.len(),
        broadcast_model(m, sender, f).next_id == m.next_id,
        m.entries[i].id != sender && m.entries[i].handle.status == HandleStatus::Open
            ==> broadcast_model(m, sender, f).entries[i].handle.outbox
            == m.entries[i].handle.outbox.push(f),
        m.entries[i].id == sender ==> broadcast_model(m, sender, f).entries[i] == m.entries[i],
        m.entries[i].handle.status != HandleStatus::Open ==> broadcast_model(
            m,
            sender,
            f,
        ).entries[i] == m.entries[i],
        broadcast_model(m, sender, f).entries[i].id == m.entries[i].id,
        broadcast_model(m, sender, f).entries[i].name == m.entries[i].name,
        broadcast_model(m, sender, f).entries[i].state == m.entries[i].state,
        broadcast_model(m, sender, f).entries[i].handle.status == m.entries[i].handle.status,
{
}

/// Failure isolation: what a broadcast does to one entry depends on that
/// entry alone. However many other targets are closed or broken, an open
/// target still receives its copy.
pub proof fn lemma_broadcast_failure_isolated(
    m1: RegistryModel,
    m2: RegistryModel,
    sender: u64,
    f: FrameModel,
    i: int,
)
    requires
        0 <= i < m1.entries.len(),
        0 <= i < m2.entries.len(),
        m1.entries[i] == m2.entries[i],
    ensures
        broadcast_model(m1, sender, f).entries[i] == broadcast_model(m2, sender, f).entries[i],
{
}

/// A whisper to a registered, reachable name delivers exactly one
/// private-tagged message to the first entry bearing that name and nothing
/// to any other entry; directory membership and the id counter never change.
pub proof fn lemma_whisper_exact(
    m: RegistryModel,
    sender: Seq<u8>,
    recipient: Seq<u8>,
    body: Seq<u8>,
)
    requires
        has_name(m.entries, recipient),
    ensures
        ({
            let k = first_with_name(m.entries, recipient);
            let m2 = whisper_model(m, sender, recipient, body);
            &&& m2.entries.len() == m.entries.len()
            &&& m2.next_id == m.next_id
            &&& 0 <= k < m.entries.len()
            &&& m.entries[k].name == recipient
            &&& forall|j: int|
                0 <= j < m.entries.len() && j != k ==> m2.entries[j] == m.entries[j]
            &&& m.entries[k].handle.status == HandleStatus::Open ==> m2.entries[k].handle.outbox
                == m.entries[k].handle.outbox.push(
                FrameModel::Text(private_text(sender, recipient, body)),
            )
            &&& m.entries[k].handle.status != HandleStatus::Open ==> m2 == m
        }),
{
    lemma_first_with_name(m.entries, recipient);
}

/// A whisper to a name nobody bears changes nothing at all: no entry, no
/// outbox, no counter.
pub proof fn lemma_whisper_unknown_recipient(
    m: RegistryModel,
    sender: Seq<u8>,
    recipient: Seq<u8>,
    body: Seq<u8>,
)
    requires
        !has_name(m.entries, recipient),
    ensures
        whisper_model(m, sender, recipient, body) == m,
{
}

} // verus!
