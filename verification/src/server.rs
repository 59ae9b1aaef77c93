//! The life of a connection: what the server does when a client connects, when it sends a packet and
//! when it leaves.

use vstd::prelude::*;
use vstd::string::StringExecFns;
use crate::crypt::keys::{zero_key, Key};
use crate::crypt::utils::blake3_hex;
use crate::identity::{hyphenated, Uuid};
use crate::protocol_utils::fctp::{
    joined3, message_of, FctpCode, FctpMessage, FctpMessageView,
};
use crate::protocol_utils::fctp_client::{
    admitted, after_packet, fresh_client, ClientView, Clients, Registry, RATE_LIMIT_INTERVAL,
};
use crate::protocol_utils::fctp_handlers::{Delivery, DeliveryView};
use crate::protocol_utils::fctp_secure::{
    fingerprint, greeting, plain_line, session_started, Certificate,
};

verus! {

/// The size of the buffer that packets are read into.
pub const BUFFER_SIZE: usize = 8096;

/// What the server says when it starts.
pub open spec fn banner_text(server_id: Seq<char>, public: Seq<u8>) -> Seq<char> {
    "© Loop64 / FOG64 | Launching FoggyChat™ FCTP protocol server | SERVER_ID: "@ + server_id
        + " | FINGERPRINT: "@ + blake3_hex(public)
}

/// What the server says when it starts: its name and the fingerprint of its certificate.
pub fn banner(server_id: &str, cert: &Certificate) -> (r: String)
    ensures
        r@ == banner_text(server_id@, cert.public_view()),
{
    let mut r = joined3(
        "© Loop64 / FOG64 | Launching FoggyChat™ FCTP protocol server | SERVER_ID: ",
        server_id,
        " | FINGERPRINT: ",
    );
    let print = fingerprint(cert);
    r.append(print.as_str());
    r
}

/// Connects a client under an identifier. The first part of the result is the text of the
/// identifier; the second is what the client is sent first, the public key of the server.
pub fn accept_client(id: &Uuid, cert: &Certificate, clients: &mut Clients, now: u128) -> (r: (
    String,
    Vec<u8>,
))
    requires
        old(clients).wf(),
    ensures
        final(clients).wf(),
        r.0@ == hyphenated(id@),
        r.1@ == plain_line(cert.public_view()),
        final(clients)@ == old(clients)@.insert(r.0@, fresh_client(r.0@, now as nat)),
{
    let name = clients.connect(id, now);
    (name, greeting(cert))
}

/// What the server does with a packet.
pub enum PacketDecision {
    /// The packet fills the buffer: the connection is closed.
    Close,
    /// The client has no session key yet: the packet is its exchange key.
    ExchangeKeys,
    /// The packet is a frame under this session key.
    Handle(Key),
    /// The client sends too fast: the packet is dropped, and the client hears of it.
    RateLimited(Delivery),
}

/// What the server does with a packet, as plain values.
pub enum PacketDecisionView {
    Close,
    ExchangeKeys,
    Handle(Seq<u8>),
    RateLimited(DeliveryView),
}

impl View for PacketDecision {
    type V = PacketDecisionView;

    open spec fn view(&self) -> PacketDecisionView {
        match self {
            PacketDecision::Close => PacketDecisionView::Close,
            PacketDecision::ExchangeKeys => PacketDecisionView::ExchangeKeys,
            PacketDecision::Handle(key) => PacketDecisionView::Handle(key@),
            PacketDecision::RateLimited(delivery) => PacketDecisionView::RateLimited(delivery@),
        }
    }
}

/// Whether a client is connected and has a session key.
pub open spec fn in_session(m: Registry, id: Seq<char>) -> bool {
    m.dom().contains(id) && m[id].session_key != zero_key()
}

/// Whether a packet leaves room in the buffer.
pub open spec fn fits_buffer(len: nat) -> bool {
    len < BUFFER_SIZE
}

/// What the server does with a packet of a client.
pub open spec fn packet_decision(
    m: Registry,
    server_id: Seq<char>,
    id: Seq<char>,
    len: nat,
    now: nat,
) -> PacketDecisionView {
    if !fits_buffer(len) {
        PacketDecisionView::Close
    } else if !in_session(m, id) {
        PacketDecisionView::ExchangeKeys
    } else if admitted(m[id], now) {
        PacketDecisionView::Handle(m[id].session_key)
    } else {
        PacketDecisionView::RateLimited(
            DeliveryView {
                client_id: id,
                message: message_of(
                    FctpCode::MethodNotAllowed,
                    server_id,
                    "You are being rate limited, slow down! Your message has been dropped."@,
                    id,
                ),
            },
        )
    }
}

/// The clients after a packet of one of them has been counted. Only packets within a session count.
pub open spec fn packet_counted(m: Registry, id: Seq<char>, len: nat, now: nat) -> Registry {
    if fits_buffer(len) && in_session(m, id) {
        m.insert(id, after_packet(m[id], now))
    } else {
        m
    }
}

/// Decides what to do with a packet and counts it.
pub fn handle_packet(
    server_id: &str,
    message: &[u8],
    client_id: &str,
    clients: &mut Clients,
    now: u128,
) -> (r: PacketDecision)
    requires
        old(clients).wf(),
    ensures
        final(clients).wf(),
        r@ == packet_decision(old(clients)@, server_id@, client_id@, message@.len(), now as nat),
        final(clients)@ == packet_counted(old(clients)@, client_id@, message@.len(), now as nat),
{
    if message.len() > BUFFER_SIZE - 1 {
        return PacketDecision::Close;
    }
    let session_key = clients.session_key(client_id);
    if session_key.is_default() {
        return PacketDecision::ExchangeKeys;
    }
    match clients.admit_packet(client_id, now) {
        Some(true) => PacketDecision::Handle(session_key),
        _ => {
            let message = FctpMessage::new(
                FctpCode::MethodNotAllowed,
                server_id,
                "You are being rate limited, slow down! Your message has been dropped.",
                client_id,
            );
            PacketDecision::RateLimited(Delivery { client_id: client_id.to_owned(), message })
        },
    }
}

/// A packet that is dropped because its client sends too fast changes nothing.
pub proof fn law_dropped_packet_changes_nothing(
    m: Registry,
    server_id: Seq<char>,
    id: Seq<char>,
    len: nat,
    now: nat,
)
    requires
        packet_decision(m, server_id, id, len, now) is RateLimited,
    ensures
        packet_counted(m, id, len, now) == m,
{
    assert(m.insert(id, m[id]) =~= m);
}

/// A client in session that has waited for the whole interval is heard.
pub proof fn law_patient_client_is_heard(
    m: Registry,
    server_id: Seq<char>,
    id: Seq<char>,
    len: nat,
    now: nat,
)
    requires
        in_session(m, id),
        fits_buffer(len),
        now >= m[id].last_packet + RATE_LIMIT_INTERVAL,
    ensures
        packet_decision(m, server_id, id, len, now) == PacketDecisionView::Handle(m[id].session_key),
{
}

/// A client that connects under a new identifier and leaves again leaves nothing behind.
pub proof fn law_connect_and_leave(m: Registry, id: Seq<char>, now: nat)
    requires
        !m.dom().contains(id),
    ensures
        m.insert(id, fresh_client(id, now)).remove(id) == m,
{
    assert(m.insert(id, fresh_client(id, now)).remove(id) =~= m);
}

/// A client whose keys were exchanged is in session, unless the random session key is the default
/// key; nothing else about it changes, nor about any other client.
pub proof fn law_exchange_opens_session(
    before: Registry,
    after: Registry,
    id: Seq<char>,
    public: Seq<u8>,
    answer: Seq<u8>,
    other: Seq<char>,
)
    requires
        before.dom().contains(id),
        session_started(before, after, id, public, answer),
    ensures
        in_session(after, id) <==> after[id].session_key != zero_key(),
        after[id] == (ClientView { session_key: after[id].session_key, ..before[id] }),
        after.dom() == before.dom(),
        other != id && before.dom().contains(other) ==> after[other] == before[other],
{
    assert(after.dom() =~= before.dom());
}

/// The first packet of a new client within its session is heard.
pub proof fn law_first_packet_is_heard(
    m: Registry,
    server_id: Seq<char>,
    id: Seq<char>,
    connected: nat,
    key: Seq<u8>,
    len: nat,
    now: nat,
)
    requires
        m.dom().contains(id),
        m[id] == (ClientView { session_key: key, ..fresh_client(id, connected) }),
        key != zero_key(),
        fits_buffer(len),
    ensures
        packet_decision(m, server_id, id, len, now) == PacketDecisionView::Handle(key),
{
}

/// What has happened on a connection.
#[derive(Clone, Copy, Debug, PartialEq, Eq, Structural)]
pub enum ConnectionEvent {
    /// The public key of the server was sent to the new client.
    Greeted,
    /// It could not be sent.
    GreetingFailed,
    /// The client has closed the connection.
    Disconnected,
    /// Reading from the client has failed.
    ReadFailed,
    /// A packet has filled the buffer.
    BufferFilled,
    /// The session key was sent to the client.
    KeysExchanged,
    /// The exchange key was refused, or the session key could not be sent.
    KeyExchangeFailed,
    /// A message was handled.
    MessageHandled,
    /// A message was refused, or what it led to could not be sent.
    MessageFailed,
    /// The client was told that it sends too fast.
    Warned,
    /// It could not be told.
    WarningFailed,
}

/// How a connection goes on.
#[derive(Clone, Copy, Debug, PartialEq, Eq, Structural)]
pub enum ConnectionStep {
    /// The next packet is read.
    ReadNext,
    /// The connection ends, and the client is removed.
    CleanUp,
    /// The connection ends with an error; the client is not removed.
    Abort,
}

/// How a connection goes on after an event.
pub open spec fn step_after(event: ConnectionEvent) -> ConnectionStep {
    match event {
        ConnectionEvent::Greeted
        | ConnectionEvent::KeysExchanged
        | ConnectionEvent::MessageHandled
        | ConnectionEvent::MessageFailed
        | ConnectionEvent::Warned => ConnectionStep::ReadNext,
        ConnectionEvent::Disconnected
        | ConnectionEvent::ReadFailed
        | ConnectionEvent::BufferFilled
        | ConnectionEvent::KeyExchangeFailed => ConnectionStep::CleanUp,
        ConnectionEvent::GreetingFailed | ConnectionEvent::WarningFailed => ConnectionStep::Abort,
    }
}

/// Decides how a connection goes on after an event: errors of single messages are survived, while
/// a failed key exchange ends the connection.
pub fn next_step(event: ConnectionEvent) -> (r: ConnectionStep)
    ensures
        r == step_after(event),
{
    match event {
        ConnectionEvent::Greeted => ConnectionStep::ReadNext,
        ConnectionEvent::KeysExchanged => ConnectionStep::ReadNext,
        ConnectionEvent::MessageHandled => ConnectionStep::ReadNext,
        ConnectionEvent::MessageFailed => ConnectionStep::ReadNext,
        ConnectionEvent::Warned => ConnectionStep::ReadNext,
        ConnectionEvent::Disconnected => ConnectionStep::CleanUp,
        ConnectionEvent::ReadFailed => ConnectionStep::CleanUp,
        ConnectionEvent::BufferFilled => ConnectionStep::CleanUp,
        ConnectionEvent::KeyExchangeFailed => ConnectionStep::CleanUp,
        ConnectionEvent::GreetingFailed => ConnectionStep::Abort,
        ConnectionEvent::WarningFailed => ConnectionStep::Abort,
    }
}

/// A packet of 8096 bytes or more closes the connection. A shorter one is an exchange key, unless its
/// client is connected with a session key that is not all zero; then it is a frame under that key, or
/// is dropped with a warning if it is not admitted.
pub proof fn law_packet_decision(
    m: Registry,
    server_id: Seq<char>,
    id: Seq<char>,
    len: nat,
    now: nat,
)
    requires
        m.dom().contains(id) ==> m[id].session_key.len() == 32,
    ensures
        ({
            let decision = packet_decision(m, server_id, id, len, now);
            let session = m.dom().contains(id) && exists|i: int|
                0 <= i < 32 && #[trigger] m[id].session_key[i] != 0;
            let heard = m[id].free_packets > 0 || m[id].burst > 0 || now >= m[id].last_packet
                + 500_000_000;
            &&& len >= 8096 <==> decision == PacketDecisionView::Close
            &&& len < 8096 && !session <==> decision == PacketDecisionView::ExchangeKeys
            &&& len < 8096 && session && heard ==> decision == PacketDecisionView::Handle(
                m[id].session_key,
            )
            &&& len < 8096 && session && !heard ==> decision == PacketDecisionView::RateLimited(
                DeliveryView {
                    client_id: id,
                    message: FctpMessageView {
                        code: FctpCode::MethodNotAllowed,
                        from: server_id,
                        body:
                            "You are being rate limited, slow down! Your message has been dropped."@,
                        to: id,
                    },
                },
            )
        }),
{
    if m.dom().contains(id) {
        lemma_session(m, id);
    }
}

/// A connected client is in session exactly where a byte of its session key is not zero.
proof fn lemma_session(m: Registry, id: Seq<char>)
    requires
        m.dom().contains(id),
        m[id].session_key.len() == 32,
    ensures
        in_session(m, id) <==> exists|i: int| 0 <= i < 32 && #[trigger] m[id].session_key[i] != 0,
{
    if forall|i: int| 0 <= i < 32 ==> #[trigger] m[id].session_key[i] == 0 {
        assert(m[id].session_key == zero_key());
    } else {
        let i = choose|i: int| 0 <= i < 32 && #[trigger] m[id].session_key[i] != 0;
        assert(zero_key()[i] == 0);
    }
}

/// A packet is counted exactly where it is shorter than 8096 bytes and its client is in session: its
/// credits are then as after a packet. Nothing else changes, of this client or of another.
pub proof fn law_packet_counted(
    m: Registry,
    id: Seq<char>,
    len: nat,
    now: nat,
    other: Seq<char>,
)
    requires
        m.dom().contains(id),
        m[id].session_key.len() == 32,
    ensures
        ({
            let after = packet_counted(m, id, len, now);
            let session = exists|i: int| 0 <= i < 32 && #[trigger] m[id].session_key[i] != 0;
            &&& after.dom() == m.dom()
            &&& other != id ==> after[other] == m[other]
            &&& len < 8096 && session ==> after[id] == after_packet(m[id], now)
            &&& !(len < 8096 && session) ==> after == m
        }),
{
    lemma_session(m, id);
    assert(packet_counted(m, id, len, now).dom() =~= m.dom());
}

/// A packet of a client that is not connected is taken for an exchange key and counted for nobody.
pub proof fn law_stranger_is_not_counted(m: Registry, id: Seq<char>, len: nat, now: nat)
    requires
        !m.dom().contains(id),
    ensures
        packet_counted(m, id, len, now) == m,
{
}

/// The server says its name and the fingerprint of its public key when it starts.
pub proof fn law_banner(server_id: Seq<char>, public: Seq<u8>)
    ensures
        banner_text(server_id, public)
            == "© Loop64 / FOG64 | Launching FoggyChat™ FCTP protocol server | SERVER_ID: "@
            + server_id + " | FINGERPRINT: "@ + blake3_hex(public),
{
}

/// A decision is seen as it is, with the key or the message that it carries.
pub proof fn law_decision_views(key: Key, delivery: Delivery)
    ensures
        PacketDecision::Close@ == PacketDecisionView::Close,
        PacketDecision::ExchangeKeys@ == PacketDecisionView::ExchangeKeys,
        PacketDecision::Handle(key)@ == PacketDecisionView::Handle(key.bytes@),
        PacketDecision::RateLimited(delivery)@ == PacketDecisionView::RateLimited(delivery@),
{
}

/// A connection goes on after a greeting, a key exchange, a message, whether it was handled or not, and
/// a warning. It ends and its client is removed when the client leaves, when reading or the key exchange
/// fails and when the buffer is full; it ends at once when the greeting or a warning cannot be sent.
pub proof fn law_course_of_a_connection(event: ConnectionEvent)
    ensures
        step_after(event) == ConnectionStep::ReadNext <==> event is Greeted || event is KeysExchanged
            || event is MessageHandled || event is MessageFailed || event is Warned,
        step_after(event) == ConnectionStep::CleanUp <==> event is Disconnected || event is ReadFailed
            || event is BufferFilled || event is KeyExchangeFailed,
        step_after(event) == ConnectionStep::Abort <==> event is GreetingFailed
            || event is WarningFailed,
{
}

} // verus!
