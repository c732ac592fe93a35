//! What the echo targets answer over HTTP, WebSocket and gRPC.
use vstd::prelude::*;

use crate::text::{self, decimal_text, parse_unsigned};

verus! {

/// The body of a `/post` request, and of its answer.
pub struct PostData {
    pub data: String,
}

/// The query of a `/check` request.
pub struct Params {
    pub sleep: Option<String>,
}

/// The answer to a `/check` request.
pub struct CheckReply {
    /// How many seconds to wait before answering, if the request asks for a wait.
    pub delay: Option<u64>,
    /// The answer.
    pub body: &'static str,
}

/// The HTTP status for a resource that has been made.
pub const CREATED: u16 = 201;

/// Answers `/check`: always the same text, after the wait that the request asks
/// for. A wait that is not a number of seconds is no wait.
pub fn check(params: &Params) -> (r: CheckReply)
    ensures
        r.body@ == "ok!"@,
        r.delay is Some <==> params.sleep is Some,
        params.sleep matches Some(text) ==> r.delay == Some(
            match text::unsigned_value(text@, u64::MAX as int) {
                Some(n) => n as u64,
                None => 0,
            },
        ),
{
    let delay: Option<u64> = match &params.sleep {
        Some(text) => Some(
            match parse_unsigned(text.as_str(), u64::MAX) {
                Some(n) => n,
                None => 0,
            },
        ),
        None => None,
    };
    CheckReply { delay, body: "ok!" }
}

/// Answers `/ping`.
pub fn ping() -> (r: &'static str)
    ensures
        r@ == "pong"@,
{
    "pong"
}

/// Answers `/post`: the data that came, as newly made.
pub fn post_data(payload: PostData) -> (r: (u16, PostData))
    ensures
        r.0 == 201,
        r.1.data@ == payload.data@,
{
    (CREATED, PostData { data: payload.data })
}

/// What a WebSocket gave.
pub enum SocketEvent {
    /// A text message.
    Text(String),
    /// A message that closes the socket.
    Close,
    /// Any other message.
    Other,
    /// An error.
    Failed,
    /// Its end.
    Ended,
    /// Whether the reply that was sent last went through.
    Sent(bool),
}

/// What to do with a WebSocket next.
pub enum SocketAction {
    /// Wait for the next message.
    Receive,
    /// Send this text message.
    Reply(String),
    /// Let go of the socket.
    Stop,
}

/// Echoes every text message of a WebSocket until it closes, fails or ends, or
/// a reply does not go through; passes over other messages.
pub fn handle_socket(event: SocketEvent) -> (r: SocketAction)
    ensures
        match event {
            SocketEvent::Text(text) => r matches SocketAction::Reply(reply) && reply@ == "Echo: "@
                + text@,
            SocketEvent::Other => r is Receive,
            SocketEvent::Sent(true) => r is Receive,
            SocketEvent::Close | SocketEvent::Failed | SocketEvent::Ended | SocketEvent::Sent(
                false,
            ) => r is Stop,
        },
{
    match event {
        SocketEvent::Text(text) => SocketAction::Reply("Echo: ".to_owned().concat(text.as_str())),
        SocketEvent::Other => SocketAction::Receive,
        SocketEvent::Sent(went_through) => if went_through {
            SocketAction::Receive
        } else {
            SocketAction::Stop
        },
        SocketEvent::Close => SocketAction::Stop,
        SocketEvent::Failed => SocketAction::Stop,
        SocketEvent::Ended => SocketAction::Stop,
    }
}

/// Answers a gRPC echo request: the message that came.
pub fn echo(message: String) -> (r: String)
    ensures
        r@ == message@,
{
    message
}

/// The address on which a server listens: the given port of every interface.
pub fn listen_address(port: u16) -> (r: String)
    ensures
        r@ == "0.0.0.0:"@ + text::decimal(port as nat),
{
    let digits = decimal_text(port as u64);
    "0.0.0.0:".to_owned().concat(digits.as_str())
}

/// What the gRPC program runs as.
pub enum GrpcMode {
    /// A server on this port.
    Server(u16),
    /// A client of the server at this URL.
    Client(String),
}

/// Why the gRPC program cannot run.
#[derive(Debug, Clone, Copy, PartialEq, Eq, Structural)]
pub enum GrpcModeError {
    /// It was told to be a server and a client.
    ServerWithUrl,
    /// It was told to be neither.
    ClientWithoutUrl,
}

impl GrpcModeError {
    /// What to tell the user.
    pub fn message(self) -> (r: &'static str)
        ensures
            self is ServerWithUrl ==> r@ == "error: -s and -u cannot be used together"@,
            self is ClientWithoutUrl ==> r@
                == "error: -u is required when not running in server mode"@,
    {
        match self {
            GrpcModeError::ServerWithUrl => "error: -s and -u cannot be used together",
            GrpcModeError::ClientWithoutUrl => {
                "error: -u is required when not running in server mode"
            },
        }
    }
}

/// What the gRPC program runs as, given whether it was told to be a server, the
/// port to listen on, and the URL of a server.
pub fn grpc_mode(server: bool, listen: u16, url: Option<String>) -> (r: Result<
    GrpcMode,
    GrpcModeError,
>)
    ensures
        match (server, url) {
            (true, None) => r == Ok::<GrpcMode, GrpcModeError>(GrpcMode::Server(listen)),
            (false, Some(address)) => r matches Ok(GrpcMode::Client(to)) && to@ == address@,
            (true, Some(_)) => r == Err::<GrpcMode, GrpcModeError>(GrpcModeError::ServerWithUrl),
            (false, None) => r == Err::<GrpcMode, GrpcModeError>(GrpcModeError::ClientWithoutUrl),
        },
{
    match url {
        Some(address) => if server {
            Err(GrpcModeError::ServerWithUrl)
        } else {
            Ok(GrpcMode::Client(address))
        },
        None => if server {
            Ok(GrpcMode::Server(listen))
        } else {
            Err(GrpcModeError::ClientWithoutUrl)
        },
    }
}

} // verus!
