use decen_peer::rendezvous::{
    ClientCommand, ClientEvent, ConnectedPeer, encode_client_command_frame,
    encode_client_event_frame, decode_client_command, decode_client_event,
};
use decen_peer::watch::{WatchKind, handle_event, get_relative_path};
use decen_peer::broker::{InternalMessage, InternalToExternal};
use decen_peer::ids::new_event_id;

#[test]
fn connect_client_exact_text() {
    let framed = encode_client_command_frame(&ClientCommand::ConnectClient {
        id: String::from("u1"),
        client_id: String::from("client_123_5"),
        port: 8000,
    });
    assert_eq!(
        framed,
        "{\"ConnectClient\":{\"id\":\"u1\",\"client_id\":\"client_123_5\",\"port\":8000}}\n"
    );
}

#[test]
fn client_command_round_trips() {
    for c in [
        ClientCommand::ConnectClient {
            id: String::from("u1"),
            client_id: String::from("me"),
            port: 8000,
        },
        ClientCommand::LeaveClient { id: String::from("u2"), client_id: String::from("me") },
    ] {
        let framed = encode_client_command_frame(&c);
        assert!(framed.ends_with('\n'));
        let line = &framed[..framed.len() - 1];
        let back = decode_client_command(line).expect("command must parse back");
        let framed2 = encode_client_command_frame(&back);
        assert_eq!(framed, framed2);
    }
}

#[test]
fn roster_event_round_trips() {
    let e = ClientEvent::ClientConnected {
        id: String::from("u3"),
        client_id: String::from("me"),
        peers: vec![
            ConnectedPeer {
                peer_id: String::from("a"),
                address: String::from("127.0.0.1"),
                port: 8001,
            },
            ConnectedPeer {
                peer_id: String::from("b"),
                address: String::from("10.1.2.3"),
                port: 8002,
            },
        ],
    };
    let framed = encode_client_event_frame(&e);
    assert_eq!(
        framed,
        "{\"ClientConnected\":{\"id\":\"u3\",\"client_id\":\"me\",\"peers\":[{\"peer_id\":\"a\",\"address\":\"127.0.0.1\",\"port\":8001},{\"peer_id\":\"b\",\"address\":\"10.1.2.3\",\"port\":8002}]}}\n"
    );
    let line = &framed[..framed.len() - 1];
    match decode_client_event(line).expect("event must parse back") {
        ClientEvent::ClientConnected { peers, .. } => {
            assert_eq!(peers.len(), 2);
            assert_eq!(peers[0].peer_id, "a");
            assert_eq!(peers[1].address, "10.1.2.3");
            assert_eq!(peers[1].port, 8002);
        },
        _ => panic!("expected a roster"),
    }
}

#[test]
fn empty_roster_round_trips() {
    let e = ClientEvent::ClientConnected {
        id: String::from("u4"),
        client_id: String::from("me"),
        peers: Vec::new(),
    };
    let framed = encode_client_event_frame(&e);
    let line = &framed[..framed.len() - 1];
    match decode_client_event(line).unwrap() {
        ClientEvent::ClientConnected { peers, .. } => assert_eq!(peers.len(), 0),
        _ => panic!("expected a roster"),
    }
}

#[test]
fn left_event_round_trips() {
    let e = ClientEvent::ClientLeft { id: String::from("u5"), client_id: String::from("gone") };
    let framed = encode_client_event_frame(&e);
    let line = &framed[..framed.len() - 1];
    assert!(matches!(
        decode_client_event(line).unwrap(),
        ClientEvent::ClientLeft { client_id, .. } if client_id == "gone"
    ));
    assert!(decode_client_event("junk").is_none());
}

#[test]
fn watcher_kinds_map_to_announcements() {
    let m = handle_event(
        WatchKind::CreateFile,
        String::from("e1"),
        String::from("a.txt"),
        String::from("S"),
    );
    assert!(matches!(
        m,
        Some(InternalMessage::InternalToExternal {
            message: InternalToExternal::FileCreated { .. }
        })
    ));
    let m = handle_event(
        WatchKind::ModifyData,
        String::from("e2"),
        String::from("a.txt"),
        String::from("S"),
    );
    assert!(matches!(
        m,
        Some(InternalMessage::InternalToExternal {
            message: InternalToExternal::FileModified { .. }
        })
    ));
    for ignored in [WatchKind::ModifyName, WatchKind::ModifyMetadata, WatchKind::Access, WatchKind::Other] {
        assert!(handle_event(ignored, String::from("e"), String::from("p"), String::from("S"))
            .is_none());
    }
}

#[test]
fn relative_paths_are_stripped() {
    assert_eq!(get_relative_path("/root/sync", "/root/sync/a/b.txt").unwrap(), "a/b.txt");
    assert_eq!(get_relative_path("/root/sync", "/root/sync").unwrap(), "");
    assert!(get_relative_path("/root/sync", "/other/a").is_none());
    assert!(get_relative_path("/root/sync", "/root/synced/a").is_none());
}

#[test]
fn event_ids_have_the_uuid_shape() {
    let a = new_event_id();
    let b = new_event_id();
    assert_eq!(a.len(), 36);
    assert_eq!(b.len(), 36);
    assert_eq!(a.chars().filter(|c| *c == '-').count(), 4);
}
