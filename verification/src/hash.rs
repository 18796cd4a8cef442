//! A completed digest result: an identity paired with its 32-byte digest.

use vstd::prelude::*;
use vstd::slice::slice_to_vec;
use crate::encoding::{hex_of, hex_encode, is_lower_hex_digit, lemma_digest_renders_as_64_hex};

verus! {

/// One finished digestion: the path (or "stdin") and its SHA-512/256 digest.
pub struct Hash {
    pub path: String,
    pub hash: Vec<u8>,
}

/// The mathematical content of a digest result.
pub struct HashView {
    pub path: Seq<char>,
    pub digest: Seq<u8>,
}

impl View for Hash {
    type V = HashView;

    open spec fn view(&self) -> HashView {
        HashView { path: self.path@, digest: self.hash@ }
    }
}

impl Hash {
    /// A digest is always exactly 32 bytes.
    pub open spec fn wf(self) -> bool {
        self.hash@.len() == 32
    }

    /// Pair an identity with a finished 32-byte digest.
    pub fn new(p: &String, h: &[u8]) -> (r: Self)
        requires
            h@.len() == 32,
        ensures
            r@.path == p@,
            r@.digest == h@,
            r.wf(),
    {
        Hash { path: p.clone(), hash: slice_to_vec(h) }
    }

    /// The digest rendered as lowercase hexadecimal text: 64 characters,
    /// two per digest byte.
    pub fn hex_digest(&self) -> (r: String)
        requires
            self.wf(),
        ensures
            r@ == hex_of(self@.digest),
            r@.len() == 64,
            forall|i: int| 0 <= i < 64 ==> is_lower_hex_digit(#[trigger] r@[i]),
    {
        proof {
            lemma_digest_renders_as_64_hex(self.hash@);
        }
        hex_encode(self.hash.as_slice())
    }
}

} // verus!
