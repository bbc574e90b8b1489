//! How the outside world becomes messages to the server: the output and the end
//! of processes, and what the connections of clients deliver.

use crate::common::{LogEntry, LogKind, NetMessageC2S};
use crate::ids::{is_random_uuid, new_client_id};
use crate::model::{ProcessMessage, ServerMessage};
use std::time::SystemTime;
use vstd::prelude::*;

verus! {

/// What reading a line of a service's output gives the server. Where no line
/// could be read there is no message, and reading ends.
pub fn line_read(id: u128, kind: LogKind, line: Option<String>, now: SystemTime) -> (message:
    Option<ServerMessage>)
    ensures
        message is Some == line is Some,
        message matches Some(message) ==> {
            &&& message matches ServerMessage::Process {
                id: service,
                message: ProcessMessage::Log(log),
            }
            &&& service == id
            &&& log.text == line->0
            &&& log.kind == kind
            &&& log.time == now
        },
{
    match line {
        Some(text) => Some(
            ServerMessage::Process {
                id,
                message: ProcessMessage::Log(LogEntry { text, kind, time: now }),
            },
        ),
        None => None,
    }
}

/// What waiting for the process of a service gives the server. A wait that
/// failed gives it nothing.
pub fn process_waited(id: u128, ended: bool) -> (message: Option<ServerMessage>)
    ensures
        message == (if ended {
            Some(ServerMessage::Process { id, message: ProcessMessage::Exit })
        } else {
            None
        }),
{
    if ended {
        Some(ServerMessage::Process { id, message: ProcessMessage::Exit })
    } else {
        None
    }
}

/// A new connection: the identifier of the client, and what the server is told.
pub fn client_accepted() -> (accepted: (u128, ServerMessage))
    ensures
        is_random_uuid(accepted.0),
        accepted.1 == ServerMessage::ClientConnect(accepted.0),
{
    let id = new_client_id();
    (id, ServerMessage::ClientConnect(id))
}

/// What reading from the connection of a client gives the server, and whether
/// reading goes on. Where no request could be read the client is gone, and
/// reading ends.
pub fn request_read(client: u128, request: Option<NetMessageC2S>) -> (read: (ServerMessage, bool))
    ensures
        read == (match request {
            Some(message) => (ServerMessage::ClientMessage { client, message }, true),
            None => (ServerMessage::ClientDisconnect(client), false),
        }),
{
    match request {
        Some(message) => (ServerMessage::ClientMessage { client, message }, true),
        None => (ServerMessage::ClientDisconnect(client), false),
    }
}

/// A line that was read reaches the server as it is: of this service, on this
/// stream, at this time. Reading ends where no line was read.
pub proof fn lemma_line_reaches_server(
    id: u128,
    kind: LogKind,
    line: Option<String>,
    now: SystemTime,
    message: Option<ServerMessage>,
)
    requires
        call_ensures(line_read, (id, kind, line, now), message),
    ensures
        line is None ==> message is None,
        line matches Some(text) ==> message == Some(
            ServerMessage::Process {
                id,
                message: ProcessMessage::Log(LogEntry { text, kind, time: now }),
            },
        ),
{
}

/// The end of a process reaches the server as the end of the process of this
/// service. A wait that failed reaches it not at all.
pub proof fn lemma_end_reaches_server(id: u128, ended: bool, message: Option<ServerMessage>)
    requires
        call_ensures(process_waited, (id, ended), message),
    ensures
        !ended ==> message is None,
        ended ==> message == Some(
            ServerMessage::Process { id, message: ProcessMessage::Exit },
        ),
{
}

/// A client is announced under the identifier that it got.
pub proof fn lemma_client_is_announced(id: u128, message: ServerMessage)
    requires
        call_ensures(client_accepted, (), (id, message)),
    ensures
        message == ServerMessage::ClientConnect(id),
{
}

/// A request reaches the server as it is and from this client, and reading goes
/// on. Where none was read the client is gone, and reading ends.
pub proof fn lemma_request_reaches_server(
    client: u128,
    request: Option<NetMessageC2S>,
    message: ServerMessage,
    more: bool,
)
    requires
        call_ensures(request_read, (client, request), (message, more)),
    ensures
        more == request is Some,
        request is None ==> message == ServerMessage::ClientDisconnect(client),
        request matches Some(asked) ==> message == (ServerMessage::ClientMessage {
            client,
            message: asked,
        }),
{
}

} // verus!
