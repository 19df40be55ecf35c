//! The per-socket connection state machine and the routing of received
//! commands onto the internal bus.
//!
//! A socket starts waiting for its `Connect` frame, is then registered
//! under the peer's identifier, reads frames until the peer hangs up or
//! proves too flaky, and closes. The read loop around it feeds in one
//! line at a time and performs what comes out.

use vstd::prelude::*;
use crate::peer::{
    Command, PeerMessage, CommandV, PeerMessageV, spec_decode_message, decode_peer_message,
};
use crate::broker::{InternalMessage, InternalMessageV, ExternalToInternal, ExternalToInternalV};

verus! {

/// Consecutive parse failures tolerated on one connection before it is
/// closed as flaky.
pub const ERROR_THRESHOLD: u32 = 10;

/// Why a connection failed or ended.
#[derive(Debug, Clone, Copy, PartialEq, Eq, Structural)]
pub enum PeerError {
    /// A malformed frame, or the wrong command in the wrong state.
    Protocol,
    /// Too many consecutive malformed frames.
    PeerFlaky,
    /// The peer hung up.
    Eof,
}

/// Where a connection stands.
pub enum ConnState {
    /// Nothing read yet; the first frame must be `Connect`.
    AwaitConnect,
    /// The peer introduced itself; frames are being forwarded.
    Registered { peer_id: String, error_count: u32 },
    /// The socket is done; the reason says why.
    Closed { reason: PeerError },
}

/// Mathematical model of a [`ConnState`].
pub enum ConnStateV {
    AwaitConnect,
    Registered { peer_id: Seq<char>, error_count: u32 },
    Closed { reason: PeerError },
}

impl View for ConnState {
    type V = ConnStateV;

    open spec fn view(&self) -> ConnStateV {
        match self {
            ConnState::AwaitConnect => ConnStateV::AwaitConnect,
            ConnState::Registered { peer_id, error_count } => ConnStateV::Registered {
                peer_id: peer_id@,
                error_count: *error_count,
            },
            ConnState::Closed { reason } => ConnStateV::Closed { reason: *reason },
        }
    }
}

/// What a received command means to the bus: some are forwarded, the
/// rest are only noted.
pub open spec fn spec_route_command(c: CommandV) -> Option<InternalMessageV> {
    match c {
        CommandV::Connect { .. } => None,
        CommandV::Leave { id, client_id } => Some(
            InternalMessageV::LeavePeer { id, peer_id: client_id },
        ),
        CommandV::CreateNewFile { id, peer_id, file_path, sha } => Some(
            InternalMessageV::ExternalToInternal {
                message: ExternalToInternalV::NewFileCreate { id, peer_id, file_path, sha },
            },
        ),
        CommandV::CreateFolder { .. } => None,
        CommandV::ModifyFile { .. } => None,
        CommandV::DataRequestCommand { id, peer_id, file_path } => Some(
            InternalMessageV::ExternalToInternal {
                message: ExternalToInternalV::DataRequest { id, peer_id, file_path },
            },
        ),
        CommandV::WriteDataCommand { id, peer_id, file_path, offset, data } => Some(
            InternalMessageV::ExternalToInternal {
                message: ExternalToInternalV::DataWrite { id, peer_id, file_path, offset, data },
            },
        ),
        CommandV::Test { .. } => None,
    }
}

/// What a received message means to the bus; events are reserved and
/// only noted.
pub open spec fn spec_route_message(m: PeerMessageV) -> Option<InternalMessageV> {
    match m {
        PeerMessageV::PeerCommand { command } => spec_route_command(command),
        PeerMessageV::PeerEvent { .. } => None,
    }
}

/// Turns received frames into bus events.
#[derive(Debug)]
pub struct PeerMessageHandler {}

impl PeerMessageHandler {
    pub fn new() -> Self {
        PeerMessageHandler {  }
    }

    /// Parses one line and routes the command it holds; a line that is
    /// no frame is a protocol error.
    pub fn handle_peer_message(&self, line: &str) -> (r: Result<Option<InternalMessage>, PeerError>)
        ensures
            match r {
                Ok(Some(m)) => spec_decode_message(line@) is Some && spec_route_message(
                    spec_decode_message(line@).unwrap(),
                ) == Some(m@),
                Ok(None) => spec_decode_message(line@) is Some && spec_route_message(
                    spec_decode_message(line@).unwrap(),
                ) is None,
                Err(e) => e == PeerError::Protocol && spec_decode_message(line@) is None,
            },
    {
        match decode_peer_message(line) {
            None => Err(PeerError::Protocol),
            Some(m) => Ok(route_message(m)),
        }
    }
}

/// Executable twin of [`spec_route_message`].
fn route_message(m: PeerMessage) -> (r: Option<InternalMessage>)
    ensures
        match r {
            Some(im) => spec_route_message(m@) == Some(im@),
            None => spec_route_message(m@) is None,
        },
{
    match m {
        PeerMessage::PeerCommand { command } => match command {
            Command::Connect { .. } => None,
            Command::Leave { id, client_id } => Some(
                InternalMessage::LeavePeer { id, peer_id: client_id },
            ),
            Command::CreateNewFile { id, peer_id, file_path, sha } => Some(
                InternalMessage::ExternalToInternal {
                    message: ExternalToInternal::NewFileCreate { id, peer_id, file_path, sha },
                },
            ),
            Command::CreateFolder { .. } => None,
            Command::ModifyFile { .. } => None,
            Command::DataRequestCommand { id, peer_id, file_path } => Some(
                InternalMessage::ExternalToInternal {
                    message: ExternalToInternal::DataRequest { id, peer_id, file_path },
                },
            ),
            Command::WriteDataCommand { id, peer_id, file_path, offset, data } => Some(
                InternalMessage::ExternalToInternal {
                    message: ExternalToInternal::DataWrite { id, peer_id, file_path, offset, data },
                },
            ),
            Command::Test { .. } => None,
        },
        PeerMessage::PeerEvent { .. } => None,
    }
}

/// The identifier, client and port of the one `Connect` command that
/// must open every peer socket, if the line is exactly that.
pub open spec fn spec_first_connect(s: Seq<char>) -> Option<(Seq<char>, Seq<char>, i32)> {
    match spec_decode_message(s) {
        Some(PeerMessageV::PeerCommand { command: CommandV::Connect { id, client_id, port } }) => Some(
            (id, client_id, port),
        ),
        _ => None,
    }
}

/// Reads the opening `Connect` out of the first line of a connection;
/// anything else is a protocol error.
pub fn extract_first_message(line: &str) -> (r: Result<(String, String, i32), PeerError>)
    ensures
        match r {
            Ok((id, client_id, port)) => spec_first_connect(line@) == Some(
                (id@, client_id@, port),
            ),
            Err(e) => e == PeerError::Protocol && spec_first_connect(line@) is None,
        },
{
    match decode_peer_message(line) {
        Some(PeerMessage::PeerCommand { command: Command::Connect { id, client_id, port } }) => Ok(
            (id, client_id, port),
        ),
        _ => Err(PeerError::Protocol),
    }
}

/// One step of the connection state machine: the next state and the bus
/// events to emit, for one received line (or the end of the stream).
pub open spec fn spec_conn_step(
    state: ConnStateV,
    line: Option<Seq<char>>,
    addr: Seq<char>,
    event_id: Seq<char>,
) -> (ConnStateV, Seq<InternalMessageV>) {
    match state {
        ConnStateV::AwaitConnect => match line {
            None => (ConnStateV::Closed { reason: PeerError::Eof }, Seq::empty()),
            Some(l) => match spec_first_connect(l) {
                Some((id, client_id, port)) => (
                    ConnStateV::Registered { peer_id: client_id, error_count: 0 },
                    seq![InternalMessageV::NewPeer { id, peer_id: client_id, address: addr, port }],
                ),
                None => (ConnStateV::Closed { reason: PeerError::Protocol }, Seq::empty()),
            },
        },
        ConnStateV::Registered { peer_id, error_count } => match line {
            None => (
                ConnStateV::Closed { reason: PeerError::Eof },
                seq![InternalMessageV::LeavePeer { id: event_id, peer_id }],
            ),
            Some(l) => match spec_decode_message(l) {
                None => if error_count + 1 >= ERROR_THRESHOLD {
                    (
                        ConnStateV::Closed { reason: PeerError::PeerFlaky },
                        seq![InternalMessageV::LeavePeer { id: event_id, peer_id }],
                    )
                } else {
                    (
                        ConnStateV::Registered { peer_id, error_count: (error_count + 1) as u32 },
                        Seq::empty(),
                    )
                },
                Some(pm) => match spec_route_message(pm) {
                    Some(m) => (
                        ConnStateV::Registered { peer_id, error_count: 0 },
                        seq![m],
                    ),
                    None => (ConnStateV::Registered { peer_id, error_count: 0 }, Seq::empty()),
                },
            },
        },
        ConnStateV::Closed { reason } => (ConnStateV::Closed { reason }, Seq::empty()),
    }
}

/// Executable twin of [`spec_conn_step`]. The caller hands in the
/// socket's address text and a fresh event identifier for a possible
/// leave event.
pub fn conn_step(state: ConnState, line: Option<&str>, addr: &str, event_id: String) -> (r: (
    ConnState,
    Vec<InternalMessage>,
))
    ensures
        ({
            let (s2, msgs) = spec_conn_step(
                state@,
                match line {
                    Some(l) => Some(l@),
                    None => None,
                },
                addr@,
                event_id@,
            );
            &&& r.0@ == s2
            &&& r.1@.len() == msgs.len()
            &&& forall|k: int| 0 <= k < msgs.len() ==> (#[trigger] r.1@[k])@ == msgs[k]
        }),
{
    match state {
        ConnState::AwaitConnect => match line {
            None => (ConnState::Closed { reason: PeerError::Eof }, Vec::new()),
            Some(l) => match extract_first_message(l) {
                Ok((id, client_id, port)) => {
                    let mut msgs: Vec<InternalMessage> = Vec::new();
                    let registered_id = client_id.clone();
                    msgs.push(
                        InternalMessage::NewPeer {
                            id,
                            peer_id: client_id,
                            address: crate::chars::str_to_string(addr),
                            port,
                        },
                    );
                    (ConnState::Registered { peer_id: registered_id, error_count: 0 }, msgs)
                },
                Err(_) => (ConnState::Closed { reason: PeerError::Protocol }, Vec::new()),
            },
        },
        ConnState::Registered { peer_id, error_count } => match line {
            None => {
                let mut msgs: Vec<InternalMessage> = Vec::new();
                msgs.push(InternalMessage::LeavePeer { id: event_id, peer_id });
                (ConnState::Closed { reason: PeerError::Eof }, msgs)
            },
            Some(l) => {
                let handler = PeerMessageHandler::new();
                match handler.handle_peer_message(l) {
                    Ok(Some(m)) => {
                        let mut msgs: Vec<InternalMessage> = Vec::new();
                        msgs.push(m);
                        (ConnState::Registered { peer_id, error_count: 0 }, msgs)
                    },
                    Ok(None) => (ConnState::Registered { peer_id, error_count: 0 }, Vec::new()),
                    Err(_) => {
                        if error_count >= ERROR_THRESHOLD - 1 {
                            let mut msgs: Vec<InternalMessage> = Vec::new();
                            msgs.push(InternalMessage::LeavePeer { id: event_id, peer_id });
                            (ConnState::Closed { reason: PeerError::PeerFlaky }, msgs)
                        } else {
                            (
                                ConnState::Registered { peer_id, error_count: error_count + 1 },
                                Vec::new(),
                            )
                        }
                    },
                }
            },
        },
        ConnState::Closed { reason } => (ConnState::Closed { reason }, Vec::new()),
    }
}

} // verus!
