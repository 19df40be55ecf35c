//! Node identity, event identifiers and content digests.

use vstd::prelude::*;
use crate::chars::{append_str, string_from_chars};
use crate::num::{spec_dec_nat, u64_to_dec};

verus! {

/// The upper-case hex SHA-256 digest of a byte sequence. Its value is
/// known only to the hashing library, but it depends on the bytes alone.
pub uninterp spec fn sha_hex_of(b: Seq<u8>) -> Seq<char>;

/// Relies on `ring::digest::digest` with SHA-256 and on
/// `data_encoding::HEXUPPER.encode`: the digest is a function of the
/// input bytes alone, 32 bytes long, and hex encoding yields two
/// characters per byte. The length bound keeps the input below the
/// hash's documented limit.
#[verifier::external_body]
pub fn sha256_hex(b: &[u8]) -> (r: String)
    requires
        b@.len() < 0x2000000000000000,
    ensures
        r@ == sha_hex_of(b@),
        r@.len() == 64,
{
    let digest = ring::digest::digest(&ring::digest::SHA256, b);
    data_encoding::HEXUPPER.encode(digest.as_ref())
}

/// Relies on `uuid::Uuid::new_v4` and its hyphenated rendering: a fresh
/// random identifier, always 36 characters long. Nothing relates two
/// calls, so no more is stated.
#[verifier::external_body]
pub fn new_event_id() -> (r: String)
    ensures
        r@.len() == 36,
{
    uuid::Uuid::new_v4().to_string()
}

/// The node's own identifier, derived from the sub-second part of the
/// clock at startup, which the caller supplies.
pub fn peer_id(millis: u32) -> (r: String)
    ensures
        r@ == "client_123_"@ + spec_dec_nat(millis as nat),
{
    let mut v: Vec<char> = Vec::new();
    append_str(&mut v, "client_123_");
    let mut digits = u64_to_dec(millis as u64);
    v.append(&mut digits);
    string_from_chars(v.as_slice())
}

} // verus!
