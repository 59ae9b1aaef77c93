//! What the server does with the messages of its clients.

use vstd::prelude::*;
use vstd::string::StringExecFns;
use vstd::utf8::encode_utf8;
use crate::crypt::error::{crypt_error_quoted, CryptError};
use crate::crypt::keys::{zero_key, Key};
use crate::crypt::symmetric;
use crate::crypt::utils::{base64_decoded, base64_encode, base64_text};
use crate::number::{decimal, decimal_text};
use crate::protocol_utils::fctp::{
    canonical, canonical_field, decapsulate_fctp_message, decapsulated, encapsulate_to_fctp,
    fctp_error_text, fits_cipher, frame_text, is_nickname, joined, joined3,
    law_message_round_trip, law_parsed_is_canonical, message_of, nickname_result, parsed_message,
    validate_nickname, FctpCode, FctpError, FctpErrorView, FctpMessage, FctpMessageView,
};
use crate::protocol_utils::fctp_client::{
    elapsed, goes_by, holder, law_one_holder, lemma_nickname, lemma_registry_rename,
    lemma_registry_update, nick_in_use, nick_taken, registry_ok, ClientInfo, ClientView, Clients,
    Registry,
};
use crate::protocol_utils::fctp_secure::{
    announced_key, handle_public_key_exchange, key_announced, key_announcement_result,
};
use crate::text::{is_white_space, no_white_space, split_words, trim, trimmed, words};

verus! {

/// A message for a client.
pub struct Delivery {
    pub client_id: String,
    pub message: FctpMessage,
}

/// A message for a client, as plain values.
#[verifier::ext_equal]
pub struct DeliveryView {
    pub client_id: Seq<char>,
    pub message: FctpMessageView,
}

impl View for Delivery {
    type V = DeliveryView;

    open spec fn view(&self) -> DeliveryView {
        DeliveryView { client_id: self.client_id@, message: self.message@ }
    }
}

/// Messages for clients, in the order in which they are sent.
pub open spec fn deliveries(v: Seq<Delivery>) -> Seq<DeliveryView> {
    v.map_values(|d: Delivery| d@)
}

/// What came of a message, as plain values.
pub open spec fn outcome(r: Result<Vec<Delivery>, FctpError>) -> Result<
    Seq<DeliveryView>,
    FctpErrorView,
> {
    match r {
        Ok(v) => Ok(deliveries(v@)),
        Err(e) => Err(e@),
    }
}

/// A message for one client.
pub open spec fn one_delivery(id: Seq<char>, message: FctpMessageView) -> Seq<DeliveryView> {
    seq![DeliveryView { client_id: id, message }]
}

/// A message for a client, if it is connected.
pub open spec fn to_client(m: Registry, id: Seq<char>, message: FctpMessageView) -> Seq<
    DeliveryView,
> {
    if m.dom().contains(id) {
        one_delivery(id, message)
    } else {
        Seq::empty()
    }
}

/// Prepares a message to a client: what is written to its socket, which is the message under its
/// session key. The client reads the message from it as it was, if its fields are canonical.
pub fn send_fctp_message(client_info: &ClientInfo, message: &FctpMessage) -> (r: Result<
    Vec<u8>,
    FctpError,
>)
    ensures
        match r {
            Ok(frame) => fits_cipher(message@) && exists|nonce: Seq<u8>|
                nonce.len() == symmetric::NONCE_SIZE && frame@ == #[trigger] symmetric::sealed(
                    client_info@.session_key,
                    nonce,
                    encode_utf8(frame_text(message@)),
                ),
            Err(e) => !fits_cipher(message@) && e@ == FctpErrorView::EncryptionFailed(
                crypt_error_quoted(CryptError::EncryptFailed),
            ),
        },
        r matches Ok(frame) ==> symmetric::opened(client_info@.session_key, frame@) == Ok::<Seq<u8>, CryptError>(
            encode_utf8(frame_text(message@)),
        ),
        r matches Ok(frame) ==> frame@.len() == encode_utf8(frame_text(message@)).len() + 28,
        r matches Ok(frame) ==> client_info@.session_key != zero_key() && canonical(message@)
            ==> decapsulated(frame@, client_info@.session_key) == Ok::<
            FctpMessageView,
            FctpErrorView,
        >(message@),
{
    encapsulate_to_fctp(message, &client_info.conn_session_key)
}

/// What is said of a message that could not be written to a socket, and why.
pub fn send_failure(reason: &str) -> (r: FctpError)
    ensures
        r@ == FctpErrorView::NetworkError("Failed to send message: "@ + reason@),
{
    FctpError::NetworkError(joined("Failed to send message: ", reason))
}

/// Makes a message for one client.
fn deliver(client_id: &str, message: FctpMessage) -> (r: Vec<Delivery>)
    ensures
        deliveries(r@) == one_delivery(client_id@, message@),
{
    let mut r: Vec<Delivery> = Vec::new();
    r.push(Delivery { client_id: client_id.to_owned(), message });
    assert(deliveries(r@) == one_delivery(client_id@, message@));
    r
}

/// Makes a message for a client, if it is connected.
fn deliver_to(clients: &Clients, client_id: &str, message: FctpMessage) -> (r: Vec<Delivery>)
    requires
        clients.wf(),
    ensures
        deliveries(r@) == to_client(clients@, client_id@, message@),
{
    if clients.contains(client_id) {
        deliver(client_id, message)
    } else {
        let r: Vec<Delivery> = Vec::new();
        assert(deliveries(r@) == Seq::<DeliveryView>::empty());
        r
    }
}

/// Answers a command.
pub fn send_command_response(server_id: &str, client_id: &str, clients: &Clients, message: &str) -> (r:
    Vec<Delivery>)
    requires
        clients.wf(),
    ensures
        deliveries(r@) == to_client(
            clients@,
            client_id@,
            message_of(FctpCode::Command, server_id@, message@, client_id@),
        ),
{
    let response = FctpMessage::new(FctpCode::Command, server_id, message, client_id);
    deliver_to(clients, client_id, response)
}

/// Reports an error to a client.
pub fn send_error_to_client(
    server_id: &str,
    client_id: &str,
    clients: &Clients,
    error_code: FctpCode,
    message: &str,
) -> (r: Vec<Delivery>)
    requires
        clients.wf(),
    ensures
        deliveries(r@) == to_client(
            clients@,
            client_id@,
            message_of(error_code, server_id@, message@, client_id@),
        ),
{
    let response = FctpMessage::error(server_id, error_code, message, client_id);
    deliver_to(clients, client_id, response)
}

/// The identifier that a chat message is addressed to: that of the client which goes by the name on
/// it, or else the name itself.
pub open spec fn recipient(m: Registry, to: Seq<char>) -> Seq<char> {
    if nick_in_use(m, trimmed(to)) {
        holder(m, trimmed(to))
    } else {
        trimmed(to)
    }
}

/// The name by which the recipient of a chat message knows its sender.
pub open spec fn sender_name(m: Registry, sender_id: Seq<char>) -> Seq<char> {
    if m.dom().contains(sender_id) {
        m[sender_id].username
    } else {
        sender_id
    }
}

/// A chat message goes to its recipient under the name of its sender; if there is no such
/// recipient, the sender hears of it.
pub open spec fn routed(
    m: Registry,
    server_id: Seq<char>,
    message: FctpMessageView,
    sender_id: Seq<char>,
) -> Seq<DeliveryView> {
    let id = recipient(m, message.to);
    if m.dom().contains(id) {
        one_delivery(id, message_of(FctpCode::Message, sender_name(m, sender_id), message.body, id))
    } else {
        to_client(
            m,
            sender_id,
            message_of(FctpCode::MethodNotAllowed, server_id, "Recipient not found"@, sender_id),
        )
    }
}

/// Routes a chat message.
pub fn handle_message_routing(
    server_id: &str,
    fctp_message: &FctpMessage,
    sender_id: &str,
    clients: &Clients,
) -> (r: Vec<Delivery>)
    requires
        clients.wf(),
    ensures
        deliveries(r@) == routed(clients@, server_id@, fctp_message@, sender_id@),
{
    let recipient_nick = trim(fctp_message.to.as_str());
    let recipient_id = match clients.find_client_by_nick(recipient_nick.as_str()) {
        Some((id, _)) => id,
        None => recipient_nick,
    };
    let sender_nick = match clients.get(sender_id) {
        Some(c) => c.ext_session_username.clone(),
        None => sender_id.to_owned(),
    };
    if clients.contains(recipient_id.as_str()) {
        let message = FctpMessage::new(
            FctpCode::Message,
            sender_nick.as_str(),
            fctp_message.body.as_str(),
            recipient_id.as_str(),
        );
        deliver(recipient_id.as_str(), message)
    } else {
        send_error_to_client(
            server_id,
            sender_id,
            clients,
            FctpCode::MethodNotAllowed,
            "Recipient not found",
        )
    }
}

/// A ping is answered with a pong.
pub open spec fn pinged(m: Registry, server_id: Seq<char>, client_id: Seq<char>) -> Seq<
    DeliveryView,
> {
    to_client(m, client_id, message_of(FctpCode::Pong, server_id, "pong"@, client_id))
}

/// Answers a ping.
pub fn handle_ping(server_id: &str, client_id: &str, clients: &Clients) -> (r: Vec<Delivery>)
    requires
        clients.wf(),
    ensures
        deliveries(r@) == pinged(clients@, server_id@, client_id@),
{
    let pong_msg = FctpMessage::pong(server_id, client_id);
    deliver_to(clients, client_id, pong_msg)
}

/// A client that says hello is told its identifier, then the message of the day.
pub open spec fn greeted(m: Registry, server_id: Seq<char>, client_id: Seq<char>) -> Seq<
    DeliveryView,
> {
    to_client(m, client_id, message_of(FctpCode::Hello, server_id, "id"@, client_id)) + to_client(
        m,
        client_id,
        message_of(
            FctpCode::Command,
            server_id,
            "Welcome to Loop64.com FoggyChat server!"@,
            client_id,
        ),
    )
}

/// Answers a hello.
pub fn handle_client_join(server_id: &str, client_id: &str, clients: &Clients) -> (r: Vec<Delivery>)
    requires
        clients.wf(),
    ensures
        deliveries(r@) == greeted(clients@, server_id@, client_id@),
{
    let id_msg = FctpMessage::new(FctpCode::Hello, server_id, "id", client_id);
    let mut r = deliver_to(clients, client_id, id_msg);
    let motd_msg = FctpMessage::new(
        FctpCode::Command,
        server_id,
        "Welcome to Loop64.com FoggyChat server!",
        client_id,
    );
    let mut motd = deliver_to(clients, client_id, motd_msg);
    let ghost first = r@;
    let ghost second = motd@;
    r.append(&mut motd);
    assert(deliveries(r@) == deliveries(first) + deliveries(second));
    r
}

/// The answer to a request for the public key of the client that goes by a name.
pub open spec fn key_answer(
    m: Registry,
    server_id: Seq<char>,
    body: Seq<char>,
    client_id: Seq<char>,
) -> FctpMessageView {
    if nick_in_use(m, trimmed(body)) {
        message_of(
            FctpCode::KeyRequest,
            server_id,
            base64_text(m[holder(m, trimmed(body))].e2ee_public),
            client_id,
        )
    } else {
        message_of(FctpCode::ServiceUnavailable, server_id, "User key not found"@, client_id)
    }
}

/// Answers a request for a public key. The text of a key that is sent stands for the bytes of that
/// key.
pub fn handle_e2ee_key_request(
    server_id: &str,
    fctp_message: &FctpMessage,
    client_id: &str,
    clients: &Clients,
) -> (r: Vec<Delivery>)
    requires
        clients.wf(),
    ensures
        deliveries(r@) == to_client(
            clients@,
            client_id@,
            key_answer(clients@, server_id@, fctp_message@.body, client_id@),
        ),
        clients@.dom().contains(client_id@) && nick_in_use(clients@, trimmed(fctp_message@.body))
            ==> base64_decoded(deliveries(r@)[0].message.body) is Ok && base64_decoded(
            deliveries(r@)[0].message.body,
        )->Ok_0 == clients@[holder(clients@, trimmed(fctp_message@.body))].e2ee_public,
{
    let requested_nick = trim(fctp_message.body.as_str());
    match clients.find_client_by_nick(requested_nick.as_str()) {
        Some((_, pk)) => {
            let text = base64_encode(pk.bytes.as_slice());
            let key_response = FctpMessage::new(
                FctpCode::KeyRequest,
                server_id,
                text.as_str(),
                client_id,
            );
            deliver_to(clients, client_id, key_response)
        },
        None => send_error_to_client(
            server_id,
            client_id,
            clients,
            FctpCode::ServiceUnavailable,
            "User key not found",
        ),
    }
}

/// What a client is told of itself.
pub open spec fn whoami_text(
    c: ClientView,
    server_id: Seq<char>,
    client_id: Seq<char>,
    now: nat,
) -> Seq<char> {
    "You are connected as: "@ + client_id + " / Your session nick: "@ + c.username
        + " / ServerID: "@ + server_id + " / Connected for: "@ + decimal(
        elapsed(c.connected_at, now) / 1_000_000_000,
    ) + " seconds / Your E2EE public key (base64): "@ + base64_text(c.e2ee_public)
}

/// Tells a client what the server knows of it.
pub fn handle_whoami_command(server_id: &str, client_id: &str, clients: &Clients, now: u128) -> (r:
    Vec<Delivery>)
    requires
        clients.wf(),
    ensures
        deliveries(r@) == to_client(
            clients@,
            client_id@,
            message_of(
                FctpCode::Command,
                server_id@,
                whoami_text(clients@[client_id@], server_id@, client_id@, now as nat),
                client_id@,
            ),
        ),
{
    match clients.get(client_id) {
        Some(c) => {
            let mut msg = joined("You are connected as: ", client_id);
            msg.append(" / Your session nick: ");
            msg.append(c.ext_session_username.as_str());
            msg.append(" / ServerID: ");
            msg.append(server_id);
            msg.append(" / Connected for: ");
            let age: u128 = if now >= c.ext_connected_at {
                now - c.ext_connected_at
            } else {
                0
            };
            let seconds = decimal_text(age / 1_000_000_000);
            msg.append(seconds.as_str());
            msg.append(" seconds / Your E2EE public key (base64): ");
            let key = base64_encode(c.conn_e2ee_public.bytes.as_slice());
            msg.append(key.as_str());
            send_command_response(server_id, client_id, clients, msg.as_str())
        },
        None => {
            let r: Vec<Delivery> = Vec::new();
            assert(deliveries(r@) == Seq::<DeliveryView>::empty());
            r
        },
    }
}

/// Why a client may not go by a name: the code and the text of the error that it is sent.
pub open spec fn nick_refusal(m: Registry, new_nick: Option<Seq<char>>, client_id: Seq<char>) -> Option<
    (FctpCode, Seq<char>),
> {
    match new_nick {
        None => Some((FctpCode::BadRequest, "Usage: setnick <new_name>"@)),
        Some(nick) => match nickname_result(nick) {
            Err(e) => Some((FctpCode::MethodNotAllowed, fctp_error_text(e))),
            Ok(_) => if nick_taken(m, nick, client_id) {
                Some(
                    (
                        FctpCode::MethodNotAllowed,
                        "Nick '"@ + nick + "' is already taken. Choose a different one."@,
                    ),
                )
            } else {
                None
            },
        },
    }
}

/// The clients after one of them has asked to go by a name.
pub open spec fn renamed(m: Registry, new_nick: Option<Seq<char>>, client_id: Seq<char>) -> Registry {
    if m.dom().contains(client_id) && nick_refusal(m, new_nick, client_id) is None {
        m.insert(client_id, ClientView { username: new_nick->Some_0, ..m[client_id] })
    } else {
        m
    }
}

/// What a client is told that has asked to go by a name.
pub open spec fn rename_answer(
    m: Registry,
    server_id: Seq<char>,
    new_nick: Option<Seq<char>>,
    client_id: Seq<char>,
) -> FctpMessageView {
    match nick_refusal(m, new_nick, client_id) {
        Some((code, text)) => message_of(code, server_id, text, client_id),
        None => message_of(
            FctpCode::Command,
            server_id,
            "Nick changed to: "@ + new_nick->Some_0 + " / ServerID: "@ + server_id,
            client_id,
        ),
    }
}

/// Lets a client go by a name, if it may.
pub fn handle_setnick_command(
    server_id: &str,
    new_nick: Option<&str>,
    client_id: &str,
    clients: &mut Clients,
) -> (r: Vec<Delivery>)
    requires
        old(clients).wf(),
    ensures
        final(clients).wf(),
        ({
            let nick = match new_nick {
                Some(n) => Some(n@),
                None => None,
            };
            &&& final(clients)@ == renamed(old(clients)@, nick, client_id@)
            &&& deliveries(r@) == to_client(
                old(clients)@,
                client_id@,
                rename_answer(old(clients)@, server_id@, nick, client_id@),
            )
        }),
{
    let new_nick = match new_nick {
        Some(n) => n,
        None => {
            return send_error_to_client(
                server_id,
                client_id,
                clients,
                FctpCode::BadRequest,
                "Usage: setnick <new_name>",
            );
        },
    };
    if let Err(e) = validate_nickname(new_nick) {
        let text = e.message();
        return send_error_to_client(
            server_id,
            client_id,
            clients,
            FctpCode::MethodNotAllowed,
            text.as_str(),
        );
    }
    if clients.is_nick_taken(new_nick, client_id) {
        let msg = joined3("Nick '", new_nick, "' is already taken. Choose a different one.");
        return send_error_to_client(
            server_id,
            client_id,
            clients,
            FctpCode::MethodNotAllowed,
            msg.as_str(),
        );
    }
    clients.set_username(client_id, new_nick);
    let mut msg = joined3("Nick changed to: ", new_nick, " / ServerID: ");
    msg.append(server_id);
    send_command_response(server_id, client_id, clients, msg.as_str())
}

/// The word at an index of a command.
pub open spec fn word_at(ws: Seq<Seq<char>>, i: int) -> Option<Seq<char>> {
    if 0 <= i < ws.len() {
        Some(ws[i])
    } else {
        None
    }
}

/// The name of a command: its first word.
pub open spec fn command_name(body: Seq<char>) -> Seq<char> {
    let ws = words(trimmed(body));
    if ws.len() > 0 {
        ws[0]
    } else {
        Seq::empty()
    }
}

/// What a command is given: its second word.
pub open spec fn command_argument(body: Seq<char>) -> Option<Seq<char>> {
    word_at(words(trimmed(body)), 1)
}

/// What the server says of its commands.
pub open spec fn help_text(server_id: Seq<char>) -> Seq<char> {
    "Welcome to server! ServerID: "@ + server_id
        + " / Available commands: help, whoami, setnick <name>"@
}

/// The clients after a command of one of them.
pub open spec fn commanded(m: Registry, body: Seq<char>, client_id: Seq<char>) -> Registry {
    if command_name(body) == "setnick"@ {
        renamed(m, command_argument(body), client_id)
    } else {
        m
    }
}

/// The answer to a command.
pub open spec fn command_answer(
    m: Registry,
    server_id: Seq<char>,
    body: Seq<char>,
    client_id: Seq<char>,
    now: nat,
) -> FctpMessageView {
    let name = command_name(body);
    if name == "help"@ {
        message_of(FctpCode::Command, server_id, help_text(server_id), client_id)
    } else if name == "whoami"@ {
        message_of(
            FctpCode::Command,
            server_id,
            whoami_text(m[client_id], server_id, client_id, now),
            client_id,
        )
    } else if name == "setnick"@ {
        rename_answer(m, server_id, command_argument(body), client_id)
    } else {
        message_of(
            FctpCode::MethodNotAllowed,
            server_id,
            "Unknown command: "@ + name + ". Type 'help' for available commands."@,
            client_id,
        )
    }
}

/// Carries out a command.
pub fn handle_command(
    server_id: &str,
    fctp_message: &FctpMessage,
    client_id: &str,
    clients: &mut Clients,
    now: u128,
) -> (r: Vec<Delivery>)
    requires
        old(clients).wf(),
    ensures
        final(clients).wf(),
        final(clients)@ == commanded(old(clients)@, fctp_message@.body, client_id@),
        deliveries(r@) == to_client(
            old(clients)@,
            client_id@,
            command_answer(old(clients)@, server_id@, fctp_message@.body, client_id@, now as nat),
        ),
{
    proof {
        reveal_strlit("help");
        reveal_strlit("whoami");
        reveal_strlit("setnick");
        assert("help"@.len() != "whoami"@.len());
        assert("help"@.len() != "setnick"@.len());
        assert("whoami"@.len() != "setnick"@.len());
    }
    let body = trim(fctp_message.body.as_str());
    let parts = split_words(body.as_str());
    let command = if parts.len() > 0 {
        parts[0].clone()
    } else {
        String::new()
    };
    assert(command@ == command_name(fctp_message@.body));
    if command == "help".to_owned() {
        let msg = joined3(
            "Welcome to server! ServerID: ",
            server_id,
            " / Available commands: help, whoami, setnick <name>",
        );
        send_command_response(server_id, client_id, clients, msg.as_str())
    } else if command == "whoami".to_owned() {
        handle_whoami_command(server_id, client_id, clients, now)
    } else if command == "setnick".to_owned() {
        let argument = if parts.len() > 1 {
            Some(parts[1].as_str())
        } else {
            None
        };
        handle_setnick_command(server_id, argument, client_id, clients)
    } else {
        let msg = joined3(
            "Unknown command: ",
            command.as_str(),
            ". Type 'help' for available commands.",
        );
        send_error_to_client(
            server_id,
            client_id,
            clients,
            FctpCode::MethodNotAllowed,
            msg.as_str(),
        )
    }
}

/// The clients after a message of one of them.
pub open spec fn clients_after(m: Registry, message: FctpMessageView, client_id: Seq<char>) -> Registry {
    match message.code {
        FctpCode::PublicKeyExchange => key_announced(m, message.body, client_id),
        FctpCode::Command => commanded(m, message.body, client_id),
        _ => m,
    }
}

/// What a message of a client leads to: messages for clients, or an error.
pub open spec fn dispatched(
    m: Registry,
    server_id: Seq<char>,
    message: FctpMessageView,
    client_id: Seq<char>,
    now: nat,
) -> Result<Seq<DeliveryView>, FctpErrorView> {
    match message.code {
        FctpCode::Message => Ok(routed(m, server_id, message, client_id)),
        FctpCode::Ping => Ok(pinged(m, server_id, client_id)),
        FctpCode::Hello => Ok(greeted(m, server_id, client_id)),
        FctpCode::PublicKeyExchange => match key_announcement_result(m, message.body, client_id) {
            Ok(_) => Ok(Seq::empty()),
            Err(e) => Err(e),
        },
        FctpCode::KeyRequest => Ok(
            to_client(m, client_id, key_answer(m, server_id, message.body, client_id)),
        ),
        FctpCode::Command => Ok(
            to_client(m, client_id, command_answer(m, server_id, message.body, client_id, now)),
        ),
        _ => Ok(
            to_client(
                m,
                client_id,
                message_of(
                    FctpCode::MethodNotAllowed,
                    server_id,
                    "Unsupported message code"@,
                    client_id,
                ),
            ),
        ),
    }
}

/// Does what a message of a client asks for.
pub fn dispatch_fctp_message(
    server_id: &str,
    fctp_message: &FctpMessage,
    client_id: &str,
    clients: &mut Clients,
    now: u128,
) -> (r: Result<Vec<Delivery>, FctpError>)
    requires
        old(clients).wf(),
    ensures
        final(clients).wf(),
        final(clients)@ == clients_after(old(clients)@, fctp_message@, client_id@),
        outcome(r) == dispatched(
            old(clients)@,
            server_id@,
            fctp_message@,
            client_id@,
            now as nat,
        ),
{
    match fctp_message.code {
        FctpCode::Message => Ok(
            handle_message_routing(server_id, fctp_message, client_id, clients),
        ),
        FctpCode::Ping => Ok(handle_ping(server_id, client_id, clients)),
        FctpCode::Hello => Ok(handle_client_join(server_id, client_id, clients)),
        FctpCode::PublicKeyExchange => match handle_public_key_exchange(
            fctp_message,
            client_id,
            clients,
        ) {
            Ok(_) => {
                let r: Vec<Delivery> = Vec::new();
                assert(deliveries(r@) == Seq::<DeliveryView>::empty());
                Ok(r)
            },
            Err(e) => Err(e),
        },
        FctpCode::KeyRequest => Ok(
            handle_e2ee_key_request(server_id, fctp_message, client_id, clients),
        ),
        FctpCode::Command => Ok(handle_command(server_id, fctp_message, client_id, clients, now)),
        _ => Ok(
            send_error_to_client(
                server_id,
                client_id,
                clients,
                FctpCode::MethodNotAllowed,
                "Unsupported message code",
            ),
        ),
    }
}

/// A message that was received, and what came of it.
pub struct Handled {
    pub received: FctpMessage,
    pub outcome: Result<Vec<Delivery>, FctpError>,
}

/// Reads a frame of a client under its session key and does what the message on it asks for. A
/// frame that cannot be read changes nothing.
pub fn handle_fctp_message(
    server_id: &str,
    msg: &[u8],
    client_id: &str,
    session_key: &Key,
    clients: &mut Clients,
    now: u128,
) -> (r: Result<Handled, FctpError>)
    requires
        old(clients).wf(),
    ensures
        final(clients).wf(),
        match decapsulated(msg@, session_key@) {
            Ok(m) => {
                &&& r matches Ok(handled)
                &&& handled.received@ == m
                &&& outcome(handled.outcome) == dispatched(
                    old(clients)@,
                    server_id@,
                    m,
                    client_id@,
                    now as nat,
                )
                &&& final(clients)@ == clients_after(old(clients)@, m, client_id@)
            },
            Err(e) => {
                &&& r matches Err(error)
                &&& error@ == e
                &&& final(clients)@ == old(clients)@
            },
        },
{
    let received = match decapsulate_fctp_message(msg, session_key) {
        Ok(m) => m,
        Err(e) => {
            return Err(e);
        },
    };
    let outcome = dispatch_fctp_message(server_id, &received, client_id, clients, now);
    Ok(Handled { received, outcome })
}

/// Whatever a message leads to, its messages go to clients that are connected.
pub proof fn law_deliveries_reach_clients(
    m: Registry,
    server_id: Seq<char>,
    message: FctpMessageView,
    client_id: Seq<char>,
    now: nat,
)
    ensures
        dispatched(m, server_id, message, client_id, now) matches Ok(sent) ==> forall|i: int|
            0 <= i < sent.len() ==> m.dom().contains((#[trigger] sent[i]).client_id),
{
}

/// Every message that is sent is addressed to the client that it is sent to.
pub proof fn law_deliveries_are_addressed(
    m: Registry,
    server_id: Seq<char>,
    message: FctpMessageView,
    client_id: Seq<char>,
    now: nat,
)
    ensures
        dispatched(m, server_id, message, client_id, now) matches Ok(sent) ==> forall|i: int|
            0 <= i < sent.len() ==> (#[trigger] sent[i]).message.to == sent[i].client_id,
{
}

/// Only a chat message is ever sent to a client other than the one whose message is handled.
pub proof fn law_only_chat_reaches_others(
    m: Registry,
    server_id: Seq<char>,
    message: FctpMessageView,
    client_id: Seq<char>,
    now: nat,
)
    ensures
        dispatched(m, server_id, message, client_id, now) matches Ok(sent) ==> forall|i: int|
            0 <= i < sent.len() && (#[trigger] sent[i]).client_id != client_id ==> message.code
                == FctpCode::Message && sent[i].message.code == FctpCode::Message
                && sent[i].message.body == message.body,
{
}

/// No message connects or disconnects a client, and a message of one client leaves what the server
/// knows of the others as it was.
pub proof fn law_others_untouched(
    m: Registry,
    message: FctpMessageView,
    client_id: Seq<char>,
    other: Seq<char>,
)
    requires
        other != client_id,
    ensures
        clients_after(m, message, client_id).dom() == m.dom(),
        m.dom().contains(other) ==> clients_after(m, message, client_id)[other] == m[other],
{
    assert(clients_after(m, message, client_id).dom() =~= m.dom());
}

/// No message touches a session key or a counter.
pub proof fn law_session_untouched(m: Registry, message: FctpMessageView, client_id: Seq<char>)
    requires
        m.dom().contains(client_id),
    ensures
        ({
            let before = m[client_id];
            let after = clients_after(m, message, client_id)[client_id];
            &&& after.session_key == before.session_key
            &&& after.connected_at == before.connected_at
            &&& after.last_packet == before.last_packet
            &&& after.free_packets == before.free_packets
            &&& after.burst == before.burst
        }),
{
}

/// Names stay unique, whatever message is handled.
pub proof fn law_names_stay_unique(m: Registry, message: FctpMessageView, client_id: Seq<char>)
    requires
        registry_ok(m),
    ensures
        registry_ok(clients_after(m, message, client_id)),
{
    match message.code {
        FctpCode::PublicKeyExchange => {
            if m.dom().contains(client_id) && announced_key(message.body) is Ok {
                let c = ClientView { e2ee_public: announced_key(message.body)->Ok_0, ..m[client_id] };
                lemma_registry_update(m, client_id, c);
            }
        },
        FctpCode::Command => {
            let nick = command_argument(message.body);
            if command_name(message.body) == "setnick"@ && m.dom().contains(client_id)
                && nick_refusal(m, nick, client_id) is None {
                lemma_registry_rename(m, client_id, nick->Some_0);
            }
        },
        _ => {},
    }
}

/// A client that was refused a name keeps the one it has, and is sent the reason.
pub proof fn law_refused_name(
    m: Registry,
    server_id: Seq<char>,
    message: FctpMessageView,
    client_id: Seq<char>,
    now: nat,
)
    requires
        m.dom().contains(client_id),
        message.code == FctpCode::Command,
        command_name(message.body) == "setnick"@,
        nick_refusal(m, command_argument(message.body), client_id) is Some,
    ensures
        clients_after(m, message, client_id) == m,
        ({
            let reason = nick_refusal(m, command_argument(message.body), client_id)->Some_0;
            dispatched(m, server_id, message, client_id, now) == Ok::<
                Seq<DeliveryView>,
                FctpErrorView,
            >(one_delivery(client_id, message_of(reason.0, server_id, reason.1, client_id)))
        }),
{
    reveal_strlit("help");
    reveal_strlit("whoami");
    reveal_strlit("setnick");
    assert("help"@.len() != "setnick"@.len());
    assert("whoami"@.len() != "setnick"@.len());
}

/// A name by which another client goes is refused.
pub proof fn law_taken_name_is_refused(
    m: Registry,
    nick: Seq<char>,
    client_id: Seq<char>,
    other: Seq<char>,
)
    requires
        goes_by(m, other, nick),
        other != client_id,
    ensures
        nick_refusal(m, Some(nick), client_id) is Some,
        renamed(m, Some(nick), client_id) == m,
{
}

/// A nickname that no other client goes by is granted, also to the client that goes by it already.
pub proof fn law_free_name_is_granted(m: Registry, nick: Seq<char>, client_id: Seq<char>)
    requires
        registry_ok(m),
        m.dom().contains(client_id),
        is_nickname(nick),
        !nick_in_use(m, nick) || goes_by(m, client_id, nick),
    ensures
        nick_refusal(m, Some(nick), client_id) is None,
        goes_by(renamed(m, Some(nick), client_id), client_id, nick),
{
}

/// A client that was granted a name goes by it: chat messages to that name reach it and no other
/// client.
pub proof fn law_granted_name_receives(
    m: Registry,
    server_id: Seq<char>,
    request: FctpMessageView,
    client_id: Seq<char>,
    chat: FctpMessageView,
    sender_id: Seq<char>,
)
    requires
        registry_ok(m),
        m.dom().contains(client_id),
        request.code == FctpCode::Command,
        command_name(request.body) == "setnick"@,
        nick_refusal(m, command_argument(request.body), client_id) is None,
        chat.code == FctpCode::Message,
        trimmed(chat.to) == command_argument(request.body)->Some_0,
    ensures
        ({
            let n = clients_after(m, request, client_id);
            routed(n, server_id, chat, sender_id) == one_delivery(
                client_id,
                message_of(FctpCode::Message, sender_name(n, sender_id), chat.body, client_id),
            )
        }),
{
    let n = clients_after(m, request, client_id);
    law_names_stay_unique(m, request, client_id);
    law_one_holder(n, client_id, trimmed(chat.to));
}

/// A chat message that was read from a text arrives at a connected recipient as it was sent: the
/// recipient reads the same body, under the name by which its sender goes.
pub proof fn law_chat_arrives(
    m: Registry,
    server_id: Seq<char>,
    text: Seq<char>,
    sender_id: Seq<char>,
    now: nat,
)
    requires
        registry_ok(m),
        m.dom().contains(sender_id),
        parsed_message(text) is Ok,
        parsed_message(text)->Ok_0.code == FctpCode::Message,
        m.dom().contains(recipient(m, parsed_message(text)->Ok_0.to)),
    ensures
        ({
            let chat = parsed_message(text)->Ok_0;
            let id = recipient(m, chat.to);
            let message = message_of(FctpCode::Message, m[sender_id].username, chat.body, id);
            &&& dispatched(m, server_id, chat, sender_id, now) == Ok::<
                Seq<DeliveryView>,
                FctpErrorView,
            >(one_delivery(id, message))
            &&& canonical(message)
            &&& parsed_message(frame_text(message)) == Ok::<FctpMessageView, FctpErrorView>(message)
        }),
{
    let chat = parsed_message(text)->Ok_0;
    let id = recipient(m, chat.to);
    let message = message_of(FctpCode::Message, m[sender_id].username, chat.body, id);
    law_parsed_is_canonical(text);
    if is_nickname(m[sender_id].username) {
        lemma_nickname(m[sender_id].username);
    }
    lemma_no_white_space_is_canonical(m[sender_id].username);
    lemma_no_white_space_is_canonical(id);
    law_message_round_trip(message);
}

/// A text without white space is canonical.
proof fn lemma_no_white_space_is_canonical(s: Seq<char>)
    requires
        no_white_space(s),
    ensures
        canonical_field(s),
{
    if s.len() > 0 {
        assert(!is_white_space(s[0]) && !is_white_space(s[s.len() - 1]));
    }
    assert forall|i: int| 0 <= i < s.len() implies s[i] != '\n' by {
        assert(!is_white_space(s[i]));
    }
}

/// A chat message to nobody comes back to its sender as an error.
pub proof fn law_unknown_recipient(
    m: Registry,
    server_id: Seq<char>,
    chat: FctpMessageView,
    sender_id: Seq<char>,
)
    requires
        m.dom().contains(sender_id),
        !nick_in_use(m, trimmed(chat.to)),
        !m.dom().contains(trimmed(chat.to)),
    ensures
        routed(m, server_id, chat, sender_id) == one_delivery(
            sender_id,
            message_of(FctpCode::MethodNotAllowed, server_id, "Recipient not found"@, sender_id),
        ),
{
}

/// The key that a client has announced is the one that is sent to whoever asks for it.
pub proof fn law_announced_key_is_answered(
    m: Registry,
    server_id: Seq<char>,
    announcement: FctpMessageView,
    client_id: Seq<char>,
    request: FctpMessageView,
    asker: Seq<char>,
    now: nat,
)
    requires
        registry_ok(m),
        m.dom().contains(client_id),
        m.dom().contains(asker),
        announcement.code == FctpCode::PublicKeyExchange,
        announced_key(announcement.body) is Ok,
        request.code == FctpCode::KeyRequest,
        trimmed(request.body) == m[client_id].username,
    ensures
        ({
            let n = clients_after(m, announcement, client_id);
            dispatched(n, server_id, request, asker, now) == Ok::<Seq<DeliveryView>, FctpErrorView>(
                one_delivery(
                    asker,
                    message_of(
                        FctpCode::KeyRequest,
                        server_id,
                        base64_text(announced_key(announcement.body)->Ok_0),
                        asker,
                    ),
                ),
            )
        }),
{
    let n = clients_after(m, announcement, client_id);
    law_names_stay_unique(m, announcement, client_id);
    law_one_holder(n, client_id, trimmed(request.body));
}

} // verus!
