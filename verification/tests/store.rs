use decen_peer::store::{FileStore, FileHandler, CreateOutcome, StoreError, chunk_file};
use decen_peer::ids::{sha256_hex, peer_id};
use decen_peer::chars::string_from_chars;
use decen_peer::base64::b64_encode;

const EMPTY_SHA: &str = "E3B0C44298FC1C149AFBF4C8996FB92427AE41E4649B934CA495991B7852B855";
const HELLO_SHA: &str = "5891B5B522D5DF086D0FF0B110FBD9D21BB4FC7163AF34D08286A2E846F6BE03";

#[test]
fn sha_of_known_bytes() {
    assert_eq!(sha256_hex(&[]), EMPTY_SHA);
    assert_eq!(sha256_hex(b"hello\n"), HELLO_SHA);
}

#[test]
fn base64_known_vector() {
    let mut out: Vec<char> = Vec::new();
    b64_encode(&b"Hello world".to_vec(), &mut out);
    assert_eq!(string_from_chars(&out), "SGVsbG8gd29ybGQ=");
}

#[test]
fn peer_id_formats_millis() {
    assert_eq!(peer_id(0), "client_123_0");
    assert_eq!(peer_id(987), "client_123_987");
}

#[test]
fn create_write_read_sha() {
    let mut store = FileStore::new();
    assert_eq!(store.create_file("notes.txt", HELLO_SHA), Ok(CreateOutcome::Created));
    assert_eq!(store.sha("notes.txt").unwrap(), EMPTY_SHA);
    store.write_random("notes.txt", 0, b"hello\n").unwrap();
    assert_eq!(store.read_random("notes.txt", 0, 256).unwrap(), b"hello\n".to_vec());
    assert_eq!(store.read_random("notes.txt", 6, 256).unwrap(), Vec::<u8>::new());
    assert_eq!(store.read_random("notes.txt", 2, 3).unwrap(), b"llo".to_vec());
    assert_eq!(store.sha("notes.txt").unwrap(), HELLO_SHA);
}

#[test]
fn create_skips_same_hash() {
    let mut store = FileStore::new();
    store.create_file("z", HELLO_SHA).unwrap();
    store.write_random("z", 0, b"hello\n").unwrap();
    // announcing the same digest again: nothing happens
    assert_eq!(store.create_file("z", HELLO_SHA), Ok(CreateOutcome::SkippedSameHash));
    assert_eq!(store.read_random("z", 0, 16).unwrap(), b"hello\n".to_vec());
    // a different digest truncates to an empty file
    assert_eq!(store.create_file("z", "OTHER"), Ok(CreateOutcome::Created));
    assert_eq!(store.sha("z").unwrap(), EMPTY_SHA);
}

#[test]
fn write_requires_create() {
    let mut store = FileStore::new();
    assert_eq!(store.write_random("missing", 0, b"x"), Err(StoreError::NotFound));
    assert!(matches!(store.read_random("missing", 0, 4), Err(StoreError::NotFound)));
}

#[test]
fn paths_that_escape_are_refused() {
    let mut store = FileStore::new();
    assert_eq!(store.create_file("../evil", "S"), Err(StoreError::PathEscape));
    assert_eq!(store.create_file("a/../../b", "S"), Err(StoreError::PathEscape));
    assert_eq!(store.create_file("/abs", "S"), Err(StoreError::PathEscape));
    assert_eq!(store.create_file("", "S"), Err(StoreError::PathEscape));
    assert_eq!(store.create_folder(".."), Err(StoreError::PathEscape));
    // dots inside names are fine
    assert_eq!(store.create_file("a..b/..c", "S"), Ok(CreateOutcome::Created));
    let handler = FileHandler::new(String::from("/root/folder"));
    assert_eq!(handler.full_path("a/b.txt").unwrap(), "/root/folder/a/b.txt");
    assert_eq!(handler.full_path("../b.txt"), Err(StoreError::PathEscape));
}

#[test]
fn folders_are_idempotent() {
    let mut store = FileStore::new();
    store.create_folder("a/b").unwrap();
    store.create_folder("a/b").unwrap();
}

#[test]
fn chunks_of_empty_file() {
    let chunks = chunk_file(&Vec::new());
    assert_eq!(chunks.len(), 0);
}

#[test]
fn chunks_of_exactly_one_block() {
    let data: Vec<u8> = vec![7u8; 256];
    let chunks = chunk_file(&data);
    assert_eq!(chunks.len(), 1);
    assert_eq!(chunks[0].0, 0);
    assert_eq!(chunks[0].1.len(), 256);
}

#[test]
fn chunks_of_one_block_and_one_byte() {
    let mut data: Vec<u8> = vec![7u8; 256];
    data.push(9);
    let chunks = chunk_file(&data);
    assert_eq!(chunks.len(), 2);
    assert_eq!(chunks[0].0, 0);
    assert_eq!(chunks[0].1.len(), 256);
    assert_eq!(chunks[1].0, 256);
    assert_eq!(chunks[1].1, vec![9u8]);
}

#[test]
fn chunk_offsets_tile_without_gaps() {
    let data: Vec<u8> = (0..300u32).map(|i| (i % 256) as u8).collect();
    let chunks = chunk_file(&data);
    assert_eq!(chunks.len(), 2);
    let mut expected_offset = 0u64;
    let mut rebuilt: Vec<u8> = Vec::new();
    for (off, piece) in &chunks {
        assert_eq!(*off, expected_offset);
        expected_offset += piece.len() as u64;
        rebuilt.extend_from_slice(piece);
    }
    assert_eq!(rebuilt, data);
}

#[test]
fn writing_chunks_rebuilds_the_file() {
    let data: Vec<u8> = (0..600u32).map(|i| (i * 7 % 256) as u8).collect();
    let expected_sha = sha256_hex(&data);
    let mut store = FileStore::new();
    store.create_file("f", "DIGEST").unwrap();
    for (off, piece) in chunk_file(&data) {
        store.write_random("f", off, &piece).unwrap();
    }
    let mut rebuilt: Vec<u8> = Vec::new();
    let mut off = 0u64;
    loop {
        let piece = store.read_random("f", off, 256).unwrap();
        if piece.is_empty() {
            break;
        }
        off += piece.len() as u64;
        rebuilt.extend_from_slice(&piece);
    }
    assert_eq!(rebuilt, data);
    assert_eq!(store.sha("f").unwrap(), expected_sha);
}

#[test]
fn write_beyond_end_pads_with_zeros() {
    let mut store = FileStore::new();
    store.create_file("g", "S").unwrap();
    store.write_random("g", 4, b"ab").unwrap();
    assert_eq!(store.read_random("g", 0, 16).unwrap(), vec![0, 0, 0, 0, b'a', b'b']);
    store.write_random("g", 1, b"zz").unwrap();
    assert_eq!(store.read_random("g", 0, 16).unwrap(), vec![0, b'z', b'z', 0, b'a', b'b']);
}
