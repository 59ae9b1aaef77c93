//! What the answers of the server are, message by message.

use vstd::prelude::*;
use vstd::utf8::encode_utf8;
use crate::crypt::utils::base64_text;
use crate::number::decimal;
use crate::protocol_utils::fctp::{
    is_nickname, law_nickname, FctpCode, FctpError, FctpErrorView, FctpMessageView,
};
use crate::protocol_utils::fctp_client::{
    law_holder, law_names, law_names_are_unique, lemma_registry_rename, nick_taken, registry_ok,
    ClientView, Registry,
};
use crate::protocol_utils::fctp_handlers::{
    clients_after, command_answer, commanded, deliveries, dispatched, greeted, key_answer, outcome,
    pinged, rename_answer, renamed, routed, to_client, whoami_text, Delivery, DeliveryView,
};
use crate::protocol_utils::fctp_secure::{key_announced, key_announcement_result};
use crate::text::{trimmed, words};

verus! {

/// What is sent is seen as it is: the same messages for the same clients in the same order, or the
/// same error.
pub proof fn law_deliveries(v: Vec<Delivery>, e: FctpError)
    ensures
        deliveries(v@).len() == v@.len(),
        forall|i: int|
            0 <= i < v@.len() ==> (#[trigger] deliveries(v@)[i]).client_id == v@[i].client_id@
                && deliveries(v@)[i].message == v@[i].message@,
        outcome(Ok(v)) == Ok::<Seq<DeliveryView>, FctpErrorView>(deliveries(v@)),
        outcome(Err(e)) == Err::<Seq<DeliveryView>, FctpErrorView>(e@),
{
}

/// A message for a client goes to that client alone, and to nobody if it is not connected.
pub proof fn law_to_client(m: Registry, id: Seq<char>, message: FctpMessageView)
    ensures
        m.dom().contains(id) ==> to_client(m, id, message) == seq![
            DeliveryView { client_id: id, message },
        ],
        !m.dom().contains(id) ==> to_client(m, id, message).len() == 0,
{
}

/// A chat message to the identifier of a connected client, whatever name that client goes by, reaches
/// this client and no other, with the same body and under the name of its sender.
pub proof fn law_chat_by_identifier(
    m: Registry,
    server_id: Seq<char>,
    chat: FctpMessageView,
    sender_id: Seq<char>,
)
    requires
        registry_ok(m),
        m.dom().contains(trimmed(chat.to)),
    ensures
        routed(m, server_id, chat, sender_id) == seq![
            DeliveryView {
                client_id: trimmed(chat.to),
                message: FctpMessageView {
                    code: FctpCode::Message,
                    from: if m.dom().contains(sender_id) {
                        m[sender_id].username
                    } else {
                        sender_id
                    },
                    body: chat.body,
                    to: trimmed(chat.to),
                },
            },
        ],
{
    let id = trimmed(chat.to);
    law_names(m, id, id);
    if exists|other: Seq<char>| #[trigger] m.dom().contains(other) && m[other].username == id {
        let other = choose|other: Seq<char>| #[trigger]
            m.dom().contains(other) && m[other].username == id;
        law_names_are_unique(m, other, id);
        law_holder(m, other);
    }
}

/// A chat message to the name of a connected client reaches this client and no other, with the same
/// body and under the name of its sender.
pub proof fn law_chat_by_name(
    m: Registry,
    server_id: Seq<char>,
    chat: FctpMessageView,
    sender_id: Seq<char>,
    id: Seq<char>,
)
    requires
        registry_ok(m),
        m.dom().contains(id),
        trimmed(chat.to) == m[id].username,
    ensures
        routed(m, server_id, chat, sender_id) == seq![
            DeliveryView {
                client_id: id,
                message: FctpMessageView {
                    code: FctpCode::Message,
                    from: if m.dom().contains(sender_id) {
                        m[sender_id].username
                    } else {
                        sender_id
                    },
                    body: chat.body,
                    to: id,
                },
            },
        ],
{
    law_names(m, trimmed(chat.to), id);
    law_holder(m, id);
}

/// A chat message to what is neither a name nor an identifier of a connected client reaches no other
/// client: its sender, if connected, is told so.
pub proof fn law_chat_to_nobody(
    m: Registry,
    server_id: Seq<char>,
    chat: FctpMessageView,
    sender_id: Seq<char>,
)
    requires
        !m.dom().contains(trimmed(chat.to)),
        forall|id: Seq<char>| #[trigger] m.dom().contains(id) ==> m[id].username != trimmed(chat.to),
    ensures
        m.dom().contains(sender_id) ==> routed(m, server_id, chat, sender_id) == seq![
            DeliveryView {
                client_id: sender_id,
                message: FctpMessageView {
                    code: FctpCode::MethodNotAllowed,
                    from: server_id,
                    body: "Recipient not found"@,
                    to: sender_id,
                },
            },
        ],
        !m.dom().contains(sender_id) ==> routed(m, server_id, chat, sender_id).len() == 0,
{
    law_names(m, trimmed(chat.to), sender_id);
}

/// A connected client that pings is sent a pong, and nothing else is sent.
pub proof fn law_ping(m: Registry, server_id: Seq<char>, client_id: Seq<char>)
    ensures
        m.dom().contains(client_id) ==> pinged(m, server_id, client_id) == seq![
            DeliveryView {
                client_id,
                message: FctpMessageView {
                    code: FctpCode::Pong,
                    from: server_id,
                    body: "pong"@,
                    to: client_id,
                },
            },
        ],
        !m.dom().contains(client_id) ==> pinged(m, server_id, client_id).len() == 0,
{
}

/// A connected client that says hello is sent its identifier, then the message of the day, and nothing
/// else is sent.
pub proof fn law_hello(m: Registry, server_id: Seq<char>, client_id: Seq<char>)
    ensures
        m.dom().contains(client_id) ==> greeted(m, server_id, client_id) == seq![
            DeliveryView {
                client_id,
                message: FctpMessageView {
                    code: FctpCode::Hello,
                    from: server_id,
                    body: "id"@,
                    to: client_id,
                },
            },
            DeliveryView {
                client_id,
                message: FctpMessageView {
                    code: FctpCode::Command,
                    from: server_id,
                    body: "Welcome to Loop64.com FoggyChat server!"@,
                    to: client_id,
                },
            },
        ],
        !m.dom().contains(client_id) ==> greeted(m, server_id, client_id).len() == 0,
{
}

/// Whoever asks for the key of a connected client by its name is sent the base64 text of that key,
/// whatever the name and the key.
pub proof fn law_key_request(
    m: Registry,
    server_id: Seq<char>,
    body: Seq<char>,
    asker: Seq<char>,
    id: Seq<char>,
)
    requires
        registry_ok(m),
        m.dom().contains(id),
        trimmed(body) == m[id].username,
    ensures
        key_answer(m, server_id, body, asker) == (FctpMessageView {
            code: FctpCode::KeyRequest,
            from: server_id,
            body: base64_text(m[id].e2ee_public),
            to: asker,
        }),
{
    law_names(m, trimmed(body), id);
    law_holder(m, id);
}

/// Whoever asks for the key of a name that nobody goes by is told that there is none.
pub proof fn law_key_of_nobody(
    m: Registry,
    server_id: Seq<char>,
    body: Seq<char>,
    asker: Seq<char>,
)
    requires
        forall|id: Seq<char>| #[trigger] m.dom().contains(id) ==> m[id].username != trimmed(body),
    ensures
        key_answer(m, server_id, body, asker) == (FctpMessageView {
            code: FctpCode::ServiceUnavailable,
            from: server_id,
            body: "User key not found"@,
            to: asker,
        }),
{
    law_names(m, trimmed(body), asker);
}

/// A client is told its identifier, its name, the server, for how many whole seconds it is connected,
/// and its public key. A part of a second does not count.
pub proof fn law_whoami(
    c: ClientView,
    server_id: Seq<char>,
    client_id: Seq<char>,
    seconds: nat,
    nanoseconds: nat,
)
    requires
        nanoseconds < 1_000_000_000,
    ensures
        whoami_text(
            c,
            server_id,
            client_id,
            c.connected_at + seconds * 1_000_000_000 + nanoseconds,
        ) == "You are connected as: "@ + client_id + " / Your session nick: "@ + c.username
            + " / ServerID: "@ + server_id + " / Connected for: "@ + decimal(seconds)
            + " seconds / Your E2EE public key (base64): "@ + base64_text(c.e2ee_public),
{
    assert((seconds * 1_000_000_000 + nanoseconds) / 1_000_000_000 == seconds);
}

/// A clock that reads less than when the client connected counts as no time.
pub proof fn law_whoami_before_connecting(
    c: ClientView,
    server_id: Seq<char>,
    client_id: Seq<char>,
    now: nat,
)
    requires
        now < c.connected_at,
    ensures
        whoami_text(c, server_id, client_id, now) == whoami_text(
            c,
            server_id,
            client_id,
            c.connected_at,
        ),
{
}

/// Every nickname that no other client goes by is granted, whatever its letters: the client goes by it
/// from then on, and nothing else about any client changes.
pub proof fn law_name_granted(
    m: Registry,
    server_id: Seq<char>,
    nick: Seq<char>,
    client_id: Seq<char>,
    other: Seq<char>,
)
    requires
        m.dom().contains(client_id),
        is_nickname(nick),
        forall|id: Seq<char>| #[trigger]
            m.dom().contains(id) && id != client_id ==> m[id].username != nick,
    ensures
        ({
            let after = renamed(m, Some(nick), client_id);
            &&& after.dom() == m.dom()
            &&& after[client_id] == ClientView { username: nick, ..m[client_id] }
            &&& other != client_id ==> after[other] == m[other]
            &&& rename_answer(m, server_id, Some(nick), client_id) == FctpMessageView {
                code: FctpCode::Command,
                from: server_id,
                body: "Nick changed to: "@ + nick + " / ServerID: "@ + server_id,
                to: client_id,
            }
        }),
{
    law_nickname(nick);
    law_names(m, nick, client_id);
    assert(renamed(m, Some(nick), client_id).dom() =~= m.dom());
}

/// A request for a name changes nothing where no name was given, where it is no nickname, and where
/// another client goes by it; the client is told which. A client that is not connected gets no name.
pub proof fn law_name_refused(
    m: Registry,
    server_id: Seq<char>,
    nick: Seq<char>,
    client_id: Seq<char>,
    other: Seq<char>,
)
    ensures
        renamed(m, None, client_id) == m,
        rename_answer(m, server_id, None, client_id) == (FctpMessageView {
            code: FctpCode::BadRequest,
            from: server_id,
            body: "Usage: setnick <new_name>"@,
            to: client_id,
        }),
        !is_nickname(nick) ==> renamed(m, Some(nick), client_id) == m && rename_answer(
            m,
            server_id,
            Some(nick),
            client_id,
        ) == (FctpMessageView {
            code: FctpCode::MethodNotAllowed,
            from: server_id,
            body: "Invalid nickname: "@ + if 3 <= encode_utf8(nick).len() <= 20 {
                "Nickname can only contain letters, numbers, underscores and hyphens"@
            } else {
                "Nickname must be between 3 and 20 characters"@
            },
            to: client_id,
        }),
        is_nickname(nick) && m.dom().contains(other) && other != client_id && m[other].username
            == nick ==> renamed(m, Some(nick), client_id) == m && rename_answer(
            m,
            server_id,
            Some(nick),
            client_id,
        ) == (FctpMessageView {
            code: FctpCode::MethodNotAllowed,
            from: server_id,
            body: "Nick '"@ + nick + "' is already taken. Choose a different one."@,
            to: client_id,
        }),
        !m.dom().contains(client_id) ==> renamed(m, Some(nick), client_id) == m,
{
    law_nickname(nick);
    law_names(m, nick, client_id);
}

/// A command is what its first word says: `help`, `whoami` and `setnick`, whose name is the second
/// word, have their answers, and any other word is answered as unknown. Only `setnick` changes anything.
pub proof fn law_command(
    m: Registry,
    server_id: Seq<char>,
    body: Seq<char>,
    client_id: Seq<char>,
    now: nat,
)
    ensures
        ({
            let ws = words(trimmed(body));
            let first = if ws.len() > 0 {
                ws[0]
            } else {
                Seq::empty()
            };
            let second = if ws.len() > 1 {
                Some(ws[1])
            } else {
                None
            };
            let answer = command_answer(m, server_id, body, client_id, now);
            let after = commanded(m, body, client_id);
            &&& answer.from == server_id && answer.to == client_id
            &&& first == "help"@ ==> answer.code == FctpCode::Command && answer.body
                == "Welcome to server! ServerID: "@ + server_id
                + " / Available commands: help, whoami, setnick <name>"@
            &&& first == "whoami"@ ==> answer.code == FctpCode::Command && answer.body
                == whoami_text(m[client_id], server_id, client_id, now)
            &&& first == "setnick"@ ==> answer == rename_answer(m, server_id, second, client_id)
                && after == renamed(m, second, client_id)
            &&& first != "setnick"@ ==> after == m
            &&& first != "help"@ && first != "whoami"@ && first != "setnick"@ ==> answer.code
                == FctpCode::MethodNotAllowed && answer.body == "Unknown command: "@ + first
                + ". Type 'help' for available commands."@
        }),
{
    reveal_strlit("help");
    reveal_strlit("whoami");
    reveal_strlit("setnick");
    assert("help"@.len() == 4 && "whoami"@.len() == 6 && "setnick"@.len() == 7);
}

/// A message is handled by its code: chat is routed, a ping, a hello, a key request and a command are
/// answered to the client, an announced key is stored, and any other code is answered as unsupported.
/// Only an announced key and a command can change what the server knows.
pub proof fn law_dispatch(
    m: Registry,
    server_id: Seq<char>,
    message: FctpMessageView,
    client_id: Seq<char>,
    now: nat,
)
    ensures
        ({
            let sent = dispatched(m, server_id, message, client_id, now);
            let after = clients_after(m, message, client_id);
            &&& message.code is Message ==> sent == Ok::<Seq<DeliveryView>, FctpErrorView>(
                routed(m, server_id, message, client_id),
            )
            &&& message.code is Ping ==> sent == Ok::<Seq<DeliveryView>, FctpErrorView>(
                pinged(m, server_id, client_id),
            )
            &&& message.code is Hello ==> sent == Ok::<Seq<DeliveryView>, FctpErrorView>(
                greeted(m, server_id, client_id),
            )
            &&& message.code is KeyRequest && m.dom().contains(client_id) ==> sent == Ok::<
                Seq<DeliveryView>,
                FctpErrorView,
            >(
                seq![
                    DeliveryView {
                        client_id,
                        message: key_answer(m, server_id, message.body, client_id),
                    },
                ],
            )
            &&& message.code is Command && m.dom().contains(client_id) ==> sent == Ok::<
                Seq<DeliveryView>,
                FctpErrorView,
            >(
                seq![
                    DeliveryView {
                        client_id,
                        message: command_answer(m, server_id, message.body, client_id, now),
                    },
                ],
            )
            &&& message.code is PublicKeyExchange ==> match key_announcement_result(
                m,
                message.body,
                client_id,
            ) {
                Ok(_) => sent is Ok && sent->Ok_0.len() == 0,
                Err(e) => sent == Err::<Seq<DeliveryView>, FctpErrorView>(e),
            }
            &&& (message.code is Pong || message.code is BadRequest || message.code
                is MethodNotAllowed || message.code is InternalServerError || message.code
                is ServiceUnavailable) && m.dom().contains(client_id) ==> sent == Ok::<
                Seq<DeliveryView>,
                FctpErrorView,
            >(
                seq![
                    DeliveryView {
                        client_id,
                        message: FctpMessageView {
                            code: FctpCode::MethodNotAllowed,
                            from: server_id,
                            body: "Unsupported message code"@,
                            to: client_id,
                        },
                    },
                ],
            )
            &&& !(message.code is Message) && !m.dom().contains(client_id) ==> sent is Ok
                && sent->Ok_0.len() == 0
            &&& message.code is PublicKeyExchange ==> after == key_announced(
                m,
                message.body,
                client_id,
            )
            &&& message.code is Command ==> after == commanded(m, message.body, client_id)
            &&& !(message.code is PublicKeyExchange) && !(message.code is Command) ==> after == m
        }),
{
}

/// A client that was granted a name is known by it in the next chat message that it sends, and is told
/// it when it asks who it is.
pub proof fn law_granted_name_is_shown(
    m: Registry,
    server_id: Seq<char>,
    nick: Seq<char>,
    client_id: Seq<char>,
    chat: FctpMessageView,
    receiver: Seq<char>,
)
    requires
        registry_ok(m),
        m.dom().contains(client_id),
        m.dom().contains(receiver),
        is_nickname(nick),
        !nick_taken(m, nick, client_id),
        trimmed(chat.to) == receiver,
    ensures
        ({
            let after = renamed(m, Some(nick), client_id);
            &&& routed(after, server_id, chat, client_id) == seq![
                DeliveryView {
                    client_id: receiver,
                    message: FctpMessageView {
                        code: FctpCode::Message,
                        from: nick,
                        body: chat.body,
                        to: receiver,
                    },
                },
            ]
            &&& whoami_text(after[client_id], server_id, client_id, m[client_id].connected_at)
                == "You are connected as: "@ + client_id + " / Your session nick: "@ + nick
                + " / ServerID: "@ + server_id + " / Connected for: "@ + decimal(0)
                + " seconds / Your E2EE public key (base64): "@ + base64_text(
                m[client_id].e2ee_public,
            )
        }),
{
    law_names(m, nick, client_id);
    law_name_granted(m, server_id, nick, client_id, receiver);
    lemma_registry_rename(m, client_id, nick);
    let after = renamed(m, Some(nick), client_id);
    assert(after =~= m.insert(client_id, ClientView { username: nick, ..m[client_id] }));
    law_chat_by_identifier(after, server_id, chat, client_id);
    law_whoami(after[client_id], server_id, client_id, 0, 0);
}

} // verus!
