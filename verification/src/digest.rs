//! The streaming SHA-512/256 digest engine.
//!
//! The hash computation itself is done by the sha2 crate; this module gives
//! it a verified streaming interface whose contracts speak of the byte
//! stream a hasher has absorbed.

use vstd::prelude::*;
use sha2::Digest;

verus! {

/// The sha2 crate's SHA-512/256 hasher state, opaque to verification.
#[verifier::external_type_specification]
#[verifier::external_body]
pub struct ExSha512Trunc256(sha2::Sha512Trunc256);

/// The byte stream a hasher state has absorbed so far.
pub uninterp spec fn absorbed(h: sha2::Sha512Trunc256) -> Seq<u8>;

/// The SHA-512/256 digest of a byte sequence: SHA-512 with a distinct
/// initialization vector, truncated to 32 bytes.
pub uninterp spec fn sha512_256_of(bytes: Seq<u8>) -> Seq<u8>;

/// Relies on sha2::Sha512Trunc256::new (digest::Digest::new): a fresh hasher
/// has absorbed nothing.
#[verifier::external_body]
fn hasher_new() -> (h: sha2::Sha512Trunc256)
    ensures
        absorbed(h) == Seq::<u8>::empty(),
{
    sha2::Sha512Trunc256::new()
}

/// Relies on digest::Digest::update for Sha512Trunc256: feeding a chunk
/// appends it to the absorbed stream; a message may be fed in pieces.
#[verifier::external_body]
fn hasher_update(h: &mut sha2::Sha512Trunc256, chunk: &[u8])
    ensures
        absorbed(*final(h)) == absorbed(*old(h)) + chunk@,
{
    h.update(chunk);
}

/// Relies on digest::Digest::finalize for Sha512Trunc256: the result is the
/// SHA-512/256 digest of the absorbed stream, and its OutputSize is 32 bytes.
#[verifier::external_body]
fn hasher_finalize(h: sha2::Sha512Trunc256) -> (r: Vec<u8>)
    ensures
        r@ == sha512_256_of(absorbed(h)),
        r@.len() == 32,
{
    h.finalize().to_vec()
}

/// A streaming digest computation over one input's byte stream.
pub struct DigestSession {
    hasher: sha2::Sha512Trunc256,
}

impl DigestSession {
    /// The byte stream this session has been fed so far.
    pub closed spec fn bytes_fed(self) -> Seq<u8> {
        absorbed(self.hasher)
    }

    /// Begin digesting a fresh stream.
    pub fn new() -> (s: Self)
        ensures
            s.bytes_fed() == Seq::<u8>::empty(),
    {
        DigestSession { hasher: hasher_new() }
    }

    /// Feed the next chunk of the stream.
    pub fn update(&mut self, chunk: &[u8])
        ensures
            final(self).bytes_fed() == old(self).bytes_fed() + chunk@,
    {
        hasher_update(&mut self.hasher, chunk);
    }

    /// End of stream: produce the 32-byte digest of everything fed.
    pub fn finish(self) -> (digest: Vec<u8>)
        ensures
            digest@ == sha512_256_of(self.bytes_fed()),
            digest@.len() == 32,
    {
        hasher_finalize(self.hasher)
    }
}

/// The digest is a function of the digested bytes alone: two sessions fed
/// identical streams finalize to the identical 32-byte digest, however the
/// streams were split into chunks.
pub proof fn lemma_digest_deterministic(a: DigestSession, b: DigestSession)
    requires
        a.bytes_fed() == b.bytes_fed(),
    ensures
        sha512_256_of(a.bytes_fed()) == sha512_256_of(b.bytes_fed()),
{
}

} // verus!
