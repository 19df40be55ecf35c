use decen_peer::peer::{Command, Event, PeerMessage, encode_frame, decode_peer_message};

fn frame_of(m: &PeerMessage) -> (String, String) {
    let framed = encode_frame(m);
    assert!(framed.ends_with('\n'));
    assert_eq!(framed.matches('\n').count(), 1);
    let line = framed[..framed.len() - 1].to_string();
    (framed, line)
}

fn assert_round_trip(m: PeerMessage) {
    let (_framed, line) = frame_of(&m);
    let back = decode_peer_message(&line).expect("frame must parse back");
    let (_f2, line2) = frame_of(&back);
    assert_eq!(line, line2);
}

#[test]
fn connect_exact_text() {
    let m = PeerMessage::PeerCommand {
        command: Command::Connect {
            id: String::from("id-1"),
            client_id: String::from("client_123_42"),
            port: 8000,
        },
    };
    let (framed, _line) = frame_of(&m);
    assert_eq!(
        framed,
        "{\"peer_message\":\"PeerCommand\",\"command\":{\"Connect\":{\"id\":\"id-1\",\"client_id\":\"client_123_42\",\"port\":8000}}}\n"
    );
}

#[test]
fn create_new_file_exact_text() {
    let m = PeerMessage::PeerCommand {
        command: Command::CreateNewFile {
            id: String::from("e1"),
            peer_id: String::from("a"),
            file_path: String::from("notes.txt"),
            sha: String::from(
                "5891B5B522D5DF086D0FF0B110FBD9D21BB4FC7163AF34D08286A2E846F6BE03",
            ),
        },
    };
    let (framed, _line) = frame_of(&m);
    assert_eq!(
        framed,
        "{\"peer_message\":\"PeerCommand\",\"command\":{\"CreateNewFile\":{\"id\":\"e1\",\"peer_id\":\"a\",\"file_path\":\"notes.txt\",\"sha\":\"5891B5B522D5DF086D0FF0B110FBD9D21BB4FC7163AF34D08286A2E846F6BE03\"}}}\n"
    );
}

#[test]
fn write_data_exact_text() {
    let m = PeerMessage::PeerCommand {
        command: Command::WriteDataCommand {
            id: String::from("e2"),
            peer_id: String::from("a"),
            file_path: String::from("notes.txt"),
            offset: 0,
            data: b"hello\n".to_vec(),
        },
    };
    let (framed, _line) = frame_of(&m);
    assert_eq!(
        framed,
        "{\"peer_message\":\"PeerCommand\",\"command\":{\"WriteDataCommand\":{\"id\":\"e2\",\"peer_id\":\"a\",\"file_path\":\"notes.txt\",\"offset\":0,\"data\":\"aGVsbG8K\"}}}\n"
    );
}

#[test]
fn round_trip_every_command_variant() {
    assert_round_trip(PeerMessage::PeerCommand {
        command: Command::Connect {
            id: String::from("u-1"),
            client_id: String::from("c1"),
            port: -7,
        },
    });
    assert_round_trip(PeerMessage::PeerCommand {
        command: Command::Leave { id: String::from("u-2"), client_id: String::from("c2") },
    });
    assert_round_trip(PeerMessage::PeerCommand {
        command: Command::CreateNewFile {
            id: String::from("u-3"),
            peer_id: String::from("p"),
            file_path: String::from("a/b.txt"),
            sha: String::from("ABC"),
        },
    });
    assert_round_trip(PeerMessage::PeerCommand {
        command: Command::CreateFolder {
            id: String::from("u-4"),
            peer_id: String::from("p"),
            folder_path: String::from("a/b"),
        },
    });
    assert_round_trip(PeerMessage::PeerCommand {
        command: Command::ModifyFile {
            id: String::from("u-5"),
            peer_id: String::from("p"),
            file_path: String::from("x"),
        },
    });
    assert_round_trip(PeerMessage::PeerCommand {
        command: Command::DataRequestCommand {
            id: String::from("u-6"),
            peer_id: String::from("p"),
            file_path: String::from("x"),
        },
    });
    assert_round_trip(PeerMessage::PeerCommand {
        command: Command::WriteDataCommand {
            id: String::from("u-7"),
            peer_id: String::from("p"),
            file_path: String::from("x"),
            offset: 18446744073709551615,
            data: vec![0, 1, 2, 254, 255],
        },
    });
    assert_round_trip(PeerMessage::PeerCommand {
        command: Command::Test {
            id: String::from("u-8"),
            peer_id: String::from("p"),
            message: String::from("keepalive"),
        },
    });
    assert_round_trip(PeerMessage::PeerEvent {
        event: Event::Connected {
            id: String::from("u-9"),
            client_id: String::from("c"),
            port: 2147483647,
        },
    });
    assert_round_trip(PeerMessage::PeerEvent {
        event: Event::Left { id: String::from("u-10"), client_id: String::from("c") },
    });
}

#[test]
fn round_trip_awkward_strings() {
    assert_round_trip(PeerMessage::PeerCommand {
        command: Command::Test {
            id: String::from("quote\" slash\\ newline\n tab\t cr\r bell\u{7} end"),
            peer_id: String::from("p\u{1f}"),
            message: String::from("ünïcødé 🚀 line\nbreak"),
        },
    });
    assert_round_trip(PeerMessage::PeerCommand {
        command: Command::Test {
            id: String::new(),
            peer_id: String::new(),
            message: String::new(),
        },
    });
}

#[test]
fn round_trip_data_lengths() {
    for n in [0usize, 1, 2, 3, 4, 255, 256, 257] {
        let data: Vec<u8> = (0..n).map(|i| (i % 251) as u8).collect();
        assert_round_trip(PeerMessage::PeerCommand {
            command: Command::WriteDataCommand {
                id: String::from("d"),
                peer_id: String::from("p"),
                file_path: String::from("f"),
                offset: 256,
                data,
            },
        });
    }
}

#[test]
fn malformed_frames_rejected() {
    assert!(decode_peer_message("").is_none());
    assert!(decode_peer_message("not json").is_none());
    assert!(decode_peer_message("{\"peer_message\":\"PeerCommand\"}").is_none());
    assert!(decode_peer_message(
        "{\"peer_message\":\"PeerCommand\",\"command\":{\"Nope\":{}}}"
    )
    .is_none());
    // trailing garbage after a valid frame is refused
    assert!(decode_peer_message(
        "{\"peer_message\":\"PeerCommand\",\"command\":{\"Leave\":{\"id\":\"i\",\"client_id\":\"c\"}}}x"
    )
    .is_none());
}
