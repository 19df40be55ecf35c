use decen_peer::conn::{
    ConnState, PeerError, PeerMessageHandler, conn_step, extract_first_message, ERROR_THRESHOLD,
};
use decen_peer::peer::{Command, PeerMessage, encode_frame};
use decen_peer::broker::InternalMessage;

fn connect_line(client: &str, port: i32) -> String {
    let framed = encode_frame(&PeerMessage::PeerCommand {
        command: Command::Connect {
            id: String::from("cid"),
            client_id: String::from(client),
            port,
        },
    });
    framed[..framed.len() - 1].to_string()
}

fn line_of(c: Command) -> String {
    let framed = encode_frame(&PeerMessage::PeerCommand { command: c });
    framed[..framed.len() - 1].to_string()
}

#[test]
fn extract_first_message_takes_only_connect() {
    let (id, client_id, port) = extract_first_message(&connect_line("c7", 8001)).unwrap();
    assert_eq!(id, "cid");
    assert_eq!(client_id, "c7");
    assert_eq!(port, 8001);
    let leave = line_of(Command::Leave {
        id: String::from("x"),
        client_id: String::from("c7"),
    });
    assert_eq!(extract_first_message(&leave), Err(PeerError::Protocol));
    assert_eq!(extract_first_message("garbage"), Err(PeerError::Protocol));
}

#[test]
fn handshake_registers_the_peer() {
    let line = connect_line("c1", 8002);
    let (state, msgs) = conn_step(ConnState::AwaitConnect, Some(&line), "10.0.0.9", String::from("ev"));
    assert!(matches!(state, ConnState::Registered { ref peer_id, error_count: 0 } if peer_id == "c1"));
    assert_eq!(msgs.len(), 1);
    match &msgs[0] {
        InternalMessage::NewPeer { peer_id, address, port, .. } => {
            assert_eq!(peer_id, "c1");
            assert_eq!(address, "10.0.0.9");
            assert_eq!(*port, 8002);
        },
        _ => panic!("expected a new peer event"),
    }
}

#[test]
fn handshake_with_wrong_first_frame_closes() {
    let bad = line_of(Command::Test {
        id: String::from("x"),
        peer_id: String::from("p"),
        message: String::from("hi"),
    });
    let (state, msgs) = conn_step(ConnState::AwaitConnect, Some(&bad), "a", String::from("ev"));
    assert!(matches!(state, ConnState::Closed { reason: PeerError::Protocol }));
    assert_eq!(msgs.len(), 0);
}

#[test]
fn eof_after_registration_emits_leave() {
    let state = ConnState::Registered { peer_id: String::from("c1"), error_count: 3 };
    let (state, msgs) = conn_step(state, None, "a", String::from("ev9"));
    assert!(matches!(state, ConnState::Closed { reason: PeerError::Eof }));
    assert_eq!(msgs.len(), 1);
    assert!(matches!(&msgs[0], InternalMessage::LeavePeer { peer_id, .. } if peer_id == "c1"));
}

#[test]
fn ten_consecutive_bad_lines_close_as_flaky() {
    let mut state = ConnState::Registered { peer_id: String::from("b"), error_count: 0 };
    for k in 0..ERROR_THRESHOLD {
        let (next, msgs) = conn_step(state, Some("not a frame"), "a", String::from("ev"));
        state = next;
        if k + 1 < ERROR_THRESHOLD {
            assert!(matches!(
                state,
                ConnState::Registered { error_count, .. } if error_count == k + 1
            ));
            assert_eq!(msgs.len(), 0);
        } else {
            assert!(matches!(state, ConnState::Closed { reason: PeerError::PeerFlaky }));
            assert_eq!(msgs.len(), 1);
            assert!(matches!(
                &msgs[0],
                InternalMessage::LeavePeer { peer_id, .. } if peer_id == "b"
            ));
        }
    }
}

#[test]
fn one_good_frame_resets_the_error_count() {
    let state = ConnState::Registered { peer_id: String::from("b"), error_count: 9 };
    let good = line_of(Command::Test {
        id: String::from("x"),
        peer_id: String::from("b"),
        message: String::from("ping"),
    });
    let (state, msgs) = conn_step(state, Some(&good), "a", String::from("ev"));
    assert!(matches!(state, ConnState::Registered { error_count: 0, .. }));
    assert_eq!(msgs.len(), 0);
    // after the reset, bad lines start counting from zero again
    let (state, _): (ConnState, _) = conn_step(state, Some("junk"), "a", String::from("ev"));
    assert!(matches!(state, ConnState::Registered { error_count: 1, .. }));
}

#[test]
fn routing_forwards_file_commands() {
    let handler = PeerMessageHandler::new();
    let create = line_of(Command::CreateNewFile {
        id: String::from("i"),
        peer_id: String::from("p"),
        file_path: String::from("f"),
        sha: String::from("S"),
    });
    assert!(matches!(
        handler.handle_peer_message(&create),
        Ok(Some(InternalMessage::ExternalToInternal { .. }))
    ));
    let leave = line_of(Command::Leave { id: String::from("i"), client_id: String::from("c") });
    assert!(matches!(
        handler.handle_peer_message(&leave),
        Ok(Some(InternalMessage::LeavePeer { .. }))
    ));
    let test = line_of(Command::Test {
        id: String::from("i"),
        peer_id: String::from("p"),
        message: String::from("m"),
    });
    assert!(matches!(handler.handle_peer_message(&test), Ok(None)));
    assert!(matches!(handler.handle_peer_message("nope"), Err(PeerError::Protocol)));
}
