//! Fingerprints of key sources.
use crate::text::hex;
use crate::text::hex_text;
use sha2::Digest;
use vstd::prelude::*;

verus! {

/// What every preimage of a key source's fingerprint begins with.
pub const FINGERPRINT_DOMAIN: &'static str = "argos-key-source-fingerprint-v1";

/// The SHA-256 digest of `data`.
pub uninterp spec fn sha256(data: Seq<u8>) -> [u8; 32];

/// `sha2::Sha256::digest`: the SHA-256 digest of `data`, which depends on `data`
/// alone.
#[verifier::external_body]
pub(crate) fn sha256_digest(data: &[u8]) -> (digest: [u8; 32])
    ensures
        digest == sha256(data@),
{
    sha2::Sha256::digest(data).into()
}

/// Whether two different inputs have the same SHA-256 digest.
pub open spec fn sha256_collides(a: Seq<u8>, b: Seq<u8>) -> bool {
    a != b && sha256(a) == sha256(b)
}

/// What tells one key source from another: a digest of what it was made from.
#[derive(Debug, Clone, Copy, PartialEq, Eq)]
pub struct KeySourceFingerprint {
    digest: [u8; 32],
}

impl View for KeySourceFingerprint {
    type V = [u8; 32];

    /// The digest.
    closed spec fn view(&self) -> [u8; 32] {
        self.digest
    }
}

impl KeySourceFingerprint {
    /// The fingerprint with a given digest.
    pub fn from_digest(digest: [u8; 32]) -> (fingerprint: KeySourceFingerprint)
        ensures
            fingerprint@ == digest,
    {
        KeySourceFingerprint { digest }
    }

    /// The digest in hexadecimal.
    pub fn to_hex(&self) -> (text: String)
        ensures
            text@ == hex(self@@),
    {
        hex_text(self.digest.as_slice())
    }
}

} // verus!
