//! Decisions of the TCP server: numbering connections, and what a client's
//! session does on each event of its connection.
//!
//! The sockets, channels and tasks live with the caller; it reports each event
//! here and performs the actions it gets back, in order.

use crate::tcp_message::{decoding, MessageModel, PublicField, TcpMessage};
use vstd::prelude::*;
use vstd::utf8::encode_utf8;

verus! {

/// Hands out the numbers of accepted connections, from 0 upwards.
pub struct ConnectionIds {
    /// The number that the next accepted connection gets.
    pub next: u16,
}

impl ConnectionIds {
    /// No connection accepted yet.
    pub fn new() -> (r: ConnectionIds)
        ensures
            r.next == 0,
    {
        ConnectionIds { next: 0 }
    }

    /// The number of a newly accepted connection. The counter is a `u16`;
    /// counting past its largest value is an overflow, so the last number
    /// cannot be handed out.
    pub fn assign(&mut self) -> (id: u16)
        requires
            old(self).next < u16::MAX,
        ensures
            id == old(self).next,
            final(self).next == old(self).next + 1,
    {
        let id = self.next;
        self.next = self.next + 1;
        id
    }
}

/// The status line sent to the terminal interface once the server listens.
pub fn listening_notice(addr: &str) -> (r: TcpMessage)
    ensures
        r@ == MessageModel::TuiStatus("Listening on: "@ + addr@),
{
    let mut s = String::from_str("Listening on: ");
    s.append(addr);
    TcpMessage::TuiStatusMessage(s)
}

/// The status line sent to the terminal interface for an accepted connection.
pub fn connection_notice(addr: &str) -> (r: TcpMessage)
    ensures
        r@ == MessageModel::TuiStatus("Connection from: "@ + addr@),
{
    let mut s = String::from_str("Connection from: ");
    s.append(addr);
    TcpMessage::TuiStatusMessage(s)
}

/// What a client's session loop has just observed.
pub enum ClientEvent {
    /// A read from the client returned no bytes: the client closed the connection.
    Closed,
    /// A read from the client returned these bytes.
    Received(Vec<u8>),
    /// A read from the client failed; the text of the error.
    ReadFailed(String),
    /// The server broadcast this message to every client.
    Broadcast(TcpMessage),
}

/// What a client's session does in answer to an event.
pub enum ClientAction {
    /// Send this message to the terminal interface.
    Notify(TcpMessage),
    /// Tell the terminal interface that this message arrived, as the line
    /// "Message Received: " followed by the message's debug form.
    ReportReceived(TcpMessage),
    /// Print this line on standard output.
    Print(String),
    /// Write these bytes to the client.
    Write(Vec<u8>),
    /// Hand this message to the server, which broadcasts it.
    Forward(TcpMessage),
}

/// The actions in answer to one event, and whether the session ends after them.
pub struct ClientReply {
    pub actions: Vec<ClientAction>,
    pub close: bool,
}

/// An event, with texts as characters and bytes as sequences.
pub enum EventModel {
    Closed,
    Received(Seq<u8>),
    ReadFailed(Seq<char>),
    Broadcast(MessageModel),
}

/// An action, with texts as characters and bytes as sequences.
pub enum ActionModel {
    Notify(MessageModel),
    ReportReceived(MessageModel),
    Print(Seq<char>),
    Write(Seq<u8>),
    Forward(MessageModel),
}

impl View for ClientEvent {
    type V = EventModel;

    open spec fn view(&self) -> EventModel {
        match self {
            ClientEvent::Closed => EventModel::Closed,
            ClientEvent::Received(b) => EventModel::Received(b@),
            ClientEvent::ReadFailed(e) => EventModel::ReadFailed(e@),
            ClientEvent::Broadcast(m) => EventModel::Broadcast(m@),
        }
    }
}

impl View for ClientAction {
    type V = ActionModel;

    open spec fn view(&self) -> ActionModel {
        match self {
            ClientAction::Notify(m) => ActionModel::Notify(m@),
            ClientAction::ReportReceived(m) => ActionModel::ReportReceived(m@),
            ClientAction::Print(s) => ActionModel::Print(s@),
            ClientAction::Write(b) => ActionModel::Write(b@),
            ClientAction::Forward(m) => ActionModel::Forward(m@),
        }
    }
}

impl ClientReply {
    /// The actions, each by its view.
    pub open spec fn action_models(&self) -> Seq<ActionModel> {
        self.actions@.map_values(|a: ClientAction| a@)
    }
}

/// The actions of client `id`'s session in answer to `event`, in order.
///
/// Bytes from the client are read as one message: it is reported to the
/// terminal interface, or its failure is printed and reported; either way the
/// client is greeted and a public message from it goes to the server.
/// A broadcast public or private message is written to the client as its
/// text; any other broadcast as "Unknown message".
pub open spec fn session_actions(id: u16, event: EventModel) -> Seq<ActionModel> {
    match event {
        EventModel::Closed => seq![
            ActionModel::Notify(MessageModel::TuiStatus("Client closed connection."@)),
        ],
        EventModel::Received(bytes) => {
            let report = match decoding(bytes) {
                Some(m) => seq![ActionModel::ReportReceived(m)],
                None => seq![
                    ActionModel::Print("Message decoding failed."@),
                    ActionModel::Notify(MessageModel::TuiStatus("Message decoding failed."@)),
                ],
            };
            report + seq![
                ActionModel::Write(encode_utf8("Hello from the server"@)),
                ActionModel::Forward(
                    MessageModel::Public { message: "This is a public message"@, from_id: id },
                ),
            ]
        },
        EventModel::ReadFailed(e) => seq![ActionModel::Print("Error: "@ + e)],
        EventModel::Broadcast(m) => match m {
            MessageModel::Private { message, .. } => seq![ActionModel::Write(encode_utf8(message))],
            MessageModel::Public { message, .. } => seq![ActionModel::Write(encode_utf8(message))],
            _ => seq![ActionModel::Write(encode_utf8("Unknown message"@))],
        },
    }
}

/// The UTF-8 bytes of `s`.
fn utf8_bytes(s: &str) -> (r: Vec<u8>)
    ensures
        r@ == encode_utf8(s@),
{
    vstd::slice::slice_to_vec(s.as_bytes())
}

/// One step of client `id`'s session: the actions in answer to `event`, and
/// whether the session ends (only when the client closed the connection).
pub fn client_step(id: u16, event: ClientEvent) -> (r: ClientReply)
    ensures
        r.action_models() == session_actions(id, event@),
        r.close == (event is Closed),
{
    let ghost e = event@;
    let mut actions: Vec<ClientAction> = Vec::new();
    let close = match event {
        ClientEvent::Closed => {
            actions.push(
                ClientAction::Notify(
                    TcpMessage::TuiStatusMessage(String::from_str("Client closed connection.")),
                ),
            );
            true
        },
        ClientEvent::Received(bytes) => {
            match TcpMessage::decode(bytes.as_slice()) {
                Some(m) => {
                    actions.push(ClientAction::ReportReceived(m));
                },
                None => {
                    actions.push(ClientAction::Print(String::from_str("Message decoding failed.")));
                    actions.push(
                        ClientAction::Notify(
                            TcpMessage::TuiStatusMessage(
                                String::from_str("Message decoding failed."),
                            ),
                        ),
                    );
                },
            }
            actions.push(ClientAction::Write(utf8_bytes("Hello from the server")));
            actions.push(
                ClientAction::Forward(
                    TcpMessage::PublicMessage(
                        PublicField {
                            message: String::from_str("This is a public message"),
                            from_id: id,
                        },
                    ),
                ),
            );
            false
        },
        ClientEvent::ReadFailed(err) => {
            let mut s = String::from_str("Error: ");
            s.append(err.as_str());
            actions.push(ClientAction::Print(s));
            false
        },
        ClientEvent::Broadcast(msg) => {
            match msg {
                TcpMessage::PrivateMessage(p) => {
                    actions.push(ClientAction::Write(utf8_bytes(p.message.as_str())));
                },
                TcpMessage::PublicMessage(p) => {
                    actions.push(ClientAction::Write(utf8_bytes(p.message.as_str())));
                },
                _ => {
                    actions.push(ClientAction::Write(utf8_bytes("Unknown message")));
                },
            }
            false
        },
    };
    let r = ClientReply { actions, close };
    assert(r.action_models() =~= session_actions(id, e));
    r
}

} // verus!

verus! {

/// Bytes from a client are always answered the same way, whatever they decode
/// to: after the report come the greeting "Hello from the server" written to
/// the client and the public message "This is a public message" from it
/// handed to the server. The report is the decoded message, or, when nothing
/// decodes, a printed and a notified "Message decoding failed.".
pub proof fn law_session_received(id: u16, bytes: Seq<u8>)
    ensures
        ({
            let a = session_actions(id, EventModel::Received(bytes));
            &&& a.len() == (if decoding(bytes) is Some {
                3int
            } else {
                4int
            })
            &&& a[a.len() - 2] == ActionModel::Write(encode_utf8("Hello from the server"@))
            &&& a[a.len() - 1] == ActionModel::Forward(
                MessageModel::Public { message: "This is a public message"@, from_id: id },
            )
            &&& decoding(bytes) matches Some(m) ==> a[0] == ActionModel::ReportReceived(m)
            &&& decoding(bytes) is None ==> a[0] == ActionModel::Print("Message decoding failed."@)
                && a[1] == ActionModel::Notify(MessageModel::TuiStatus("Message decoding failed."@))
        }),
{
}

/// A closed connection is only reported to the interface; a failed read only
/// prints "Error: " and the error.
pub proof fn law_session_closed_and_failed(e: Seq<char>)
    ensures
        session_actions(0, EventModel::Closed) == seq![
            ActionModel::Notify(MessageModel::TuiStatus("Client closed connection."@)),
        ],
        forall|id: u16|
            #[trigger] session_actions(id, EventModel::ReadFailed(e)) == seq![
                ActionModel::Print("Error: "@ + e),
            ] && session_actions(id, EventModel::Closed) == session_actions(0, EventModel::Closed),
{
}

/// A broadcast message is written to the client as one write: the UTF-8 bytes
/// of its text for public and private messages, "Unknown message" otherwise.
pub proof fn law_session_broadcast(id: u16, m: MessageModel)
    ensures
        session_actions(id, EventModel::Broadcast(m)) == seq![
            ActionModel::Write(
                match m {
                    MessageModel::Public { message, .. } => encode_utf8(message),
                    MessageModel::Private { message, .. } => encode_utf8(message),
                    _ => encode_utf8("Unknown message"@),
                },
            ),
        ],
{
}

} // verus!
