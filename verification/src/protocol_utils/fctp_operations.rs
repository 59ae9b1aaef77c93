//! What the operator of a server does.

use vstd::prelude::*;
use crate::protocol_utils::fctp::{message_of, FctpCode, FctpMessage, FctpMessageView};
use crate::protocol_utils::fctp_client::{goes_by, nick_in_use, registry_ok, Clients, Registry};
use crate::protocol_utils::fctp_handlers::{deliveries, Delivery, DeliveryView};
use crate::text::texts;

verus! {

/// Whether a message goes to every client but one, once to each, and to nobody else.
pub open spec fn reaches_all_but(
    m: Registry,
    server_id: Seq<char>,
    id: Seq<char>,
    msg: Seq<char>,
    sent: Seq<DeliveryView>,
) -> bool {
    &&& forall|i: int|
        0 <= i < sent.len() ==> m.dom().contains((#[trigger] sent[i]).client_id)
            && sent[i].client_id != id && sent[i].message == message_of(
            FctpCode::Command,
            server_id,
            msg,
            sent[i].client_id,
        )
    &&& forall|i: int, j: int|
        0 <= i < j < sent.len() ==> (#[trigger] sent[i]).client_id != (#[trigger] sent[j]).client_id
    &&& forall|other: Seq<char>| #[trigger]
        m.dom().contains(other) && other != id ==> exists|i: int|
            0 <= i < sent.len() && (#[trigger] sent[i]).client_id == other
}

/// Sends a message to every client but one. Nothing is promised of the order.
pub fn send_broadcast(server_id: &str, clients: &Clients, id: &str, msg: &str) -> (r: Vec<Delivery>)
    requires
        clients.wf(),
    ensures
        reaches_all_but(clients@, server_id@, id@, msg@, deliveries(r@)),
{
    let ids = clients.ids();
    let except = id.to_owned();
    let mut r: Vec<Delivery> = Vec::new();
    let ghost names = texts(ids@);
    for k in 0..ids.len()
        invariant
            except@ == id@,
            names == texts(ids@),
            names.no_duplicates(),
            forall|i: int|
                0 <= i < r@.len() ==> names.take(k as int).contains((#[trigger] r@[i])@.client_id)
                    && r@[i]@.client_id != id@ && r@[i]@.message == message_of(
                    FctpCode::Command,
                    server_id@,
                    msg@,
                    r@[i]@.client_id,
                ),
            forall|i: int, j: int|
                0 <= i < j < r@.len() ==> (#[trigger] r@[i])@.client_id != (
                #[trigger] r@[j])@.client_id,
            forall|n: int|
                0 <= n < k && #[trigger] names[n] != id@ ==> exists|i: int|
                    0 <= i < r@.len() && (#[trigger] r@[i])@.client_id == names[n],
    {
        let ghost before = r@;
        proof {
            assert(names[k as int] == ids@[k as int]@);
            let now = names.take(k + 1);
            assert forall|name: Seq<char>| #[trigger] names.take(k as int).contains(
                name,
            ) implies now.contains(name) && name != names[k as int] by {
                let n = choose|n: int| 0 <= n < k && names.take(k as int)[n] == name;
                assert(now[n] == name);
                assert(names[n] == name);
            }
            assert(now[k as int] == names[k as int]);
            assert(now.contains(names[k as int]));
        }
        if ids[k] != except {
            let client_id = ids[k].clone();
            let message = FctpMessage::new(FctpCode::Command, server_id, msg, client_id.as_str());
            r.push(Delivery { client_id, message });
            proof {
                assert forall|n: int| 0 <= n < k + 1 && #[trigger] names[n] != id@ implies exists|
                    i: int,
                |
                    0 <= i < r@.len() && (#[trigger] r@[i])@.client_id == names[n] by {
                    if n == k {
                        assert(r@[r@.len() - 1]@.client_id == names[n]);
                    } else {
                        let i = choose|i: int|
                            0 <= i < before.len() && (#[trigger] before[i])@.client_id == names[n];
                        assert(r@[i]@.client_id == names[n]);
                    }
                }
            }
        }
    }
    proof {
        let sent = deliveries(r@);
        assert(names.take(names.len() as int) == names);
        assert forall|i: int| 0 <= i < sent.len() implies clients@.dom().contains(
            (#[trigger] sent[i]).client_id,
        ) && sent[i].client_id != id@ && sent[i].message == message_of(
            FctpCode::Command,
            server_id@,
            msg@,
            sent[i].client_id,
        ) by {
            assert(sent[i] == r@[i]@);
            assert(names.contains(r@[i]@.client_id));
        }
        assert forall|i: int, j: int| 0 <= i < j < sent.len() implies (#[trigger] sent[i]).client_id
            != (#[trigger] sent[j]).client_id by {
            assert(r@[i]@.client_id != r@[j]@.client_id);
        }
        assert forall|other: Seq<char>| #[trigger]
            clients@.dom().contains(other) && other != id@ implies exists|i: int|
            0 <= i < sent.len() && (#[trigger] sent[i]).client_id == other by {
            assert(names.contains(other));
            let n = choose|n: int| 0 <= n < names.len() && names[n] == other;
            let i = choose|i: int|
                0 <= i < r@.len() && (#[trigger] r@[i])@.client_id == names[n];
            assert(sent[i].client_id == other);
        }
    }
    r
}

/// Removes a client and says whether it was connected.
pub fn kick_client(clients: &mut Clients, id: &str) -> (r: bool)
    requires
        old(clients).wf(),
    ensures
        final(clients).wf(),
        r == old(clients)@.dom().contains(id@),
        final(clients)@ == old(clients)@.remove(id@),
{
    clients.remove(id)
}

/// The name of a client that was removed is free again.
pub proof fn law_kick_frees_name(m: Registry, id: Seq<char>, nick: Seq<char>)
    requires
        registry_ok(m),
        goes_by(m, id, nick),
    ensures
        !nick_in_use(m.remove(id), nick),
{
    assert forall|other: Seq<char>| !goes_by(m.remove(id), other, nick) by {
        if goes_by(m.remove(id), other, nick) {
            assert(goes_by(m, other, nick));
        }
    }
}

/// A broadcast reaches a client exactly where it is connected and is not the one left out, reaches it
/// once, and brings it the text as a command of the server that is addressed to it.
pub proof fn law_broadcast(
    m: Registry,
    server_id: Seq<char>,
    id: Seq<char>,
    msg: Seq<char>,
    sent: Seq<DeliveryView>,
    other: Seq<char>,
)
    requires
        reaches_all_but(m, server_id, id, msg, sent),
    ensures
        m.dom().contains(other) && other != id <==> exists|i: int|
            0 <= i < sent.len() && (#[trigger] sent[i]).client_id == other,
        forall|i: int, j: int|
            0 <= i < sent.len() && 0 <= j < sent.len() && (#[trigger] sent[i]).client_id == (
            #[trigger] sent[j]).client_id ==> i == j,
        forall|i: int|
            0 <= i < sent.len() ==> (#[trigger] sent[i]).message == (FctpMessageView {
                code: FctpCode::Command,
                from: server_id,
                body: msg,
                to: sent[i].client_id,
            }),
{
    assert forall|i: int, j: int|
        0 <= i < sent.len() && 0 <= j < sent.len() && (#[trigger] sent[i]).client_id == (
        #[trigger] sent[j]).client_id implies i == j by {
        if i < j {
            assert(sent[i].client_id != sent[j].client_id);
        } else if j < i {
            assert(sent[j].client_id != sent[i].client_id);
        }
    }
}

} // verus!
