use decen_peer::broker::{
    Broker, InternalToExternal, ExternalToInternal, StoreReply, OutFrame,
};
use decen_peer::peer::Command;
use decen_peer::store::{CreateOutcome, FileStore};
use decen_peer::ids::sha256_hex;

const HELLO_SHA: &str = "5891B5B522D5DF086D0FF0B110FBD9D21BB4FC7163AF34D08286A2E846F6BE03";
const EMPTY_SHA: &str = "E3B0C44298FC1C149AFBF4C8996FB92427AE41E4649B934CA495991B7852B855";

fn broker_with_peers(names: &[&str]) -> Broker {
    let mut b = Broker::new(String::from("me"));
    for n in names {
        assert!(b.handle_new_peer(String::from(*n), String::from("127.0.0.1"), 8000));
    }
    b
}

#[test]
fn duplicate_new_peer_is_ignored() {
    let mut b = Broker::new(String::from("me"));
    assert!(b.handle_new_peer(String::from("p1"), String::from("host-a"), 8000));
    // the second registration is dropped silently; the first record stays
    assert!(!b.handle_new_peer(String::from("p1"), String::from("host-b"), 9999));
    assert_eq!(b.peers.len(), 1);
    assert_eq!(b.peers[0].address, "host-a");
    assert_eq!(b.peers[0].port, 8000);
}

#[test]
fn leave_of_unknown_peer_is_a_no_op() {
    let mut b = broker_with_peers(&["p1", "p2"]);
    b.handle_peer_leave("ghost");
    assert_eq!(b.peers.len(), 2);
    b.handle_peer_leave("p1");
    assert_eq!(b.peers.len(), 1);
    assert_eq!(b.peers[0].peer_id, "p2");
    // leaving twice changes nothing
    b.handle_peer_leave("p1");
    assert_eq!(b.peers.len(), 1);
}

#[test]
fn file_created_fans_out_and_marks_in_flight() {
    let mut b = broker_with_peers(&["p1", "p2", "p3"]);
    let frames = b.handle_internal_to_external(InternalToExternal::FileCreated {
        id: String::from("e1"),
        file: String::from("notes.txt"),
        sha: String::from(HELLO_SHA),
    });
    assert_eq!(frames.len(), 3);
    for (k, f) in frames.iter().enumerate() {
        assert_eq!(f.peer_id, format!("p{}", k + 1));
        match &f.command {
            Command::CreateNewFile { peer_id, file_path, sha, .. } => {
                assert_eq!(peer_id, "me");
                assert_eq!(file_path, "notes.txt");
                assert_eq!(sha, HELLO_SHA);
            },
            _ => panic!("expected a file announcement"),
        }
    }
    // while the path is in flight, this node's own echoes are dropped
    let echo = b.handle_internal_to_external(InternalToExternal::FileCreated {
        id: String::from("e2"),
        file: String::from("notes.txt"),
        sha: String::from(HELLO_SHA),
    });
    assert_eq!(echo.len(), 0);
    let echo = b.handle_internal_to_external(InternalToExternal::FileModified {
        id: String::from("e2b"),
        file: String::from("notes.txt"),
        sha: String::from(HELLO_SHA),
    });
    assert_eq!(echo.len(), 0);
    // once the transfer completes, announcements flow again
    b.complete_transfer("notes.txt", HELLO_SHA);
    let again = b.handle_internal_to_external(InternalToExternal::FileCreated {
        id: String::from("e3"),
        file: String::from("notes.txt"),
        sha: String::from(HELLO_SHA),
    });
    assert_eq!(again.len(), 3);
}

#[test]
fn complete_transfer_needs_the_recorded_digest() {
    let mut b = broker_with_peers(&["p1"]);
    b.handle_internal_to_external(InternalToExternal::FileCreated {
        id: String::from("e1"),
        file: String::from("f"),
        sha: String::from(HELLO_SHA),
    });
    b.complete_transfer("f", "SOME_OTHER_DIGEST");
    // still suppressed: the digest did not match
    let echo = b.handle_internal_to_external(InternalToExternal::FileCreated {
        id: String::from("e2"),
        file: String::from("f"),
        sha: String::from(HELLO_SHA),
    });
    assert_eq!(echo.len(), 0);
}

#[test]
fn deletes_are_not_propagated() {
    let mut b = broker_with_peers(&["p1"]);
    let frames = b.handle_internal_to_external(InternalToExternal::FileDeleted {
        id: String::from("e"),
        folder: String::from("f"),
        sha: String::new(),
    });
    assert_eq!(frames.len(), 0);
    let frames = b.handle_internal_to_external(InternalToExternal::FolderDeleted {
        id: String::from("e"),
        file: String::from("f"),
        sha: String::new(),
    });
    assert_eq!(frames.len(), 0);
}

#[test]
fn request_data_goes_only_to_the_target() {
    let mut b = broker_with_peers(&["p1", "p2"]);
    let frames = b.handle_internal_to_external(InternalToExternal::RequestData {
        id: String::from("e"),
        file: String::from("f"),
        peer_id: String::from("p2"),
        sha: String::new(),
    });
    assert_eq!(frames.len(), 1);
    assert_eq!(frames[0].peer_id, "p2");
    let none = b.handle_internal_to_external(InternalToExternal::RequestData {
        id: String::from("e"),
        file: String::from("f"),
        peer_id: String::from("ghost"),
        sha: String::new(),
    });
    assert_eq!(none.len(), 0);
}

fn data_request_frames(b: &mut Broker, target: &str, contents: Vec<u8>) -> Vec<OutFrame> {
    b.handle_external_to_internal(
        ExternalToInternal::DataRequest {
            id: String::from("r1"),
            peer_id: String::from(target),
            file_path: String::from("notes.txt"),
        },
        StoreReply::ForDataRequest { contents: Some(contents) },
    )
}

#[test]
fn six_byte_file_streams_as_one_chunk() {
    let mut b = broker_with_peers(&["p1"]);
    let frames = data_request_frames(&mut b, "p1", b"hello\n".to_vec());
    assert_eq!(frames.len(), 1);
    assert_eq!(frames[0].peer_id, "p1");
    match &frames[0].command {
        Command::WriteDataCommand { offset, data, .. } => {
            assert_eq!(*offset, 0);
            assert_eq!(data, b"hello\n");
        },
        _ => panic!("expected a data chunk"),
    }
}

#[test]
fn empty_file_streams_no_chunks() {
    let mut b = broker_with_peers(&["p1"]);
    let frames = data_request_frames(&mut b, "p1", Vec::new());
    assert_eq!(frames.len(), 0);
}

#[test]
fn three_hundred_byte_file_streams_as_two_chunks() {
    let mut b = broker_with_peers(&["p1"]);
    let contents: Vec<u8> = (0..300u32).map(|i| (i % 256) as u8).collect();
    let frames = data_request_frames(&mut b, "p1", contents.clone());
    assert_eq!(frames.len(), 2);
    match (&frames[0].command, &frames[1].command) {
        (
            Command::WriteDataCommand { offset: o0, data: d0, .. },
            Command::WriteDataCommand { offset: o1, data: d1, .. },
        ) => {
            assert_eq!(*o0, 0);
            assert_eq!(d0.len(), 256);
            assert_eq!(*o1, 256);
            assert_eq!(d1.len(), 44);
            let mut whole = d0.clone();
            whole.extend_from_slice(d1);
            assert_eq!(whole, contents);
        },
        _ => panic!("expected data chunks"),
    }
}

#[test]
fn announced_file_is_pulled_once_created() {
    let mut b = broker_with_peers(&["src"]);
    let mut store = FileStore::new();
    let outcome = store.create_file("pulled.txt", HELLO_SHA);
    assert_eq!(outcome, Ok(CreateOutcome::Created));
    let frames = b.handle_external_to_internal(
        ExternalToInternal::NewFileCreate {
            id: String::from("n1"),
            peer_id: String::from("src"),
            file_path: String::from("pulled.txt"),
            sha: String::from(HELLO_SHA),
        },
        StoreReply::ForNewFileCreate { outcome },
    );
    assert_eq!(frames.len(), 1);
    assert_eq!(frames[0].peer_id, "src");
    assert!(matches!(frames[0].command, Command::DataRequestCommand { .. }));
    // the path is now in flight: our own watcher echo is suppressed
    let echo = b.handle_internal_to_external(InternalToExternal::FileCreated {
        id: String::from("e"),
        file: String::from("pulled.txt"),
        sha: String::from(HELLO_SHA),
    });
    assert_eq!(echo.len(), 0);
}

#[test]
fn skipped_same_hash_asks_for_nothing() {
    let mut b = broker_with_peers(&["src"]);
    let mut store = FileStore::new();
    store.create_file("z", HELLO_SHA).unwrap();
    store.write_random("z", 0, b"hello\n").unwrap();
    let outcome = store.create_file("z", HELLO_SHA);
    assert_eq!(outcome, Ok(CreateOutcome::SkippedSameHash));
    // the bytes on hand really hash to the announced digest
    assert_eq!(store.sha("z").unwrap(), HELLO_SHA);
    let frames = b.handle_external_to_internal(
        ExternalToInternal::NewFileCreate {
            id: String::from("n1"),
            peer_id: String::from("src"),
            file_path: String::from("z"),
            sha: String::from(HELLO_SHA),
        },
        StoreReply::ForNewFileCreate { outcome },
    );
    assert_eq!(frames.len(), 0);
    // the in-flight set was not touched: watcher events still flow
    let flowing = b.handle_internal_to_external(InternalToExternal::FileCreated {
        id: String::from("e"),
        file: String::from("z"),
        sha: String::from(HELLO_SHA),
    });
    assert_eq!(flowing.len(), 1);
}

#[test]
fn empty_announced_file_needs_no_transfer_tracking() {
    let mut b = broker_with_peers(&["src"]);
    let mut store = FileStore::new();
    let empty_sha = sha256_hex(&[]);
    assert_eq!(empty_sha, EMPTY_SHA);
    let outcome = store.create_file("empty.txt", &empty_sha);
    assert_eq!(outcome, Ok(CreateOutcome::Created));
    let frames = b.handle_external_to_internal(
        ExternalToInternal::NewFileCreate {
            id: String::from("n1"),
            peer_id: String::from("src"),
            file_path: String::from("empty.txt"),
            sha: empty_sha,
        },
        StoreReply::ForNewFileCreate { outcome },
    );
    // data is still requested, but the transfer is already complete,
    // so the path never enters the in-flight set
    assert_eq!(frames.len(), 1);
    let flowing = b.handle_internal_to_external(InternalToExternal::FileCreated {
        id: String::from("e"),
        file: String::from("empty.txt"),
        sha: String::from(EMPTY_SHA),
    });
    assert_eq!(flowing.len(), 1);
}

#[test]
fn data_write_leaves_broker_state_alone() {
    let mut b = broker_with_peers(&["p1"]);
    let frames = b.handle_external_to_internal(
        ExternalToInternal::DataWrite {
            id: String::from("w"),
            peer_id: String::from("p1"),
            file_path: String::from("f"),
            offset: 0,
            data: b"abc".to_vec(),
        },
        StoreReply::ForDataWrite,
    );
    assert_eq!(frames.len(), 0);
    assert_eq!(b.peers.len(), 1);
}
