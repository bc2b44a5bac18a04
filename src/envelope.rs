//! The envelope cipher: AES-256-GCM under the derived key, with a fresh nonce for
//! each seal, stored as the nonce followed by the ciphertext.
use crate::bindings::{
    aes256_gcm_decrypt, aes256_gcm_encrypt, gcm_opened, gcm_sealed, random_nonce, DIGEST_LEN,
    NONCE_LEN, PLAINTEXT_MAX,
};
use vstd::prelude::*;
use vstd::slice::slice_to_vec;

verus! {

/// A nonce and the ciphertext sealed under it.
pub struct Sealed {
    pub nonce: Vec<u8>,
    pub ciphertext: Vec<u8>,
}

/// Why sealing failed.
#[derive(Debug, Clone, Copy, PartialEq, Eq, Structural)]
pub enum SealError {
    /// The plaintext is longer than the cipher takes.
    TooLong,
    /// No random nonce could be drawn.
    NoRandomness,
}

/// Why opening failed: the key is wrong or the data was altered.
#[derive(Debug, Clone, Copy, PartialEq, Eq, Structural)]
pub enum OpenError {
    AuthenticationFailed,
}

/// The stored form of a sealed record: nonce, then ciphertext.
pub open spec fn envelope_of(nonce: Seq<u8>, ciphertext: Seq<u8>) -> Seq<u8> {
    nonce + ciphertext
}

/// The nonce and ciphertext stored in an envelope, where it is long enough to hold a nonce.
pub open spec fn envelope_parts(envelope: Seq<u8>) -> Option<(Seq<u8>, Seq<u8>)> {
    if envelope.len() < NONCE_LEN {
        None
    } else {
        Some(
            (
                envelope.subrange(0, NONCE_LEN as int),
                envelope.subrange(NONCE_LEN as int, envelope.len() as int),
            ),
        )
    }
}

impl Sealed {
    /// The stored form: nonce, then ciphertext.
    pub fn to_envelope(&self) -> (r: Vec<u8>)
        ensures
            r@ == envelope_of(self.nonce@, self.ciphertext@),
    {
        let mut out = self.nonce.clone();
        out.extend_from_slice(self.ciphertext.as_slice());
        out
    }

    /// Splits a stored envelope into its nonce and ciphertext; `None` where it is
    /// shorter than a nonce.
    pub fn from_envelope(envelope: &[u8]) -> (r: Option<Sealed>)
        ensures
            match envelope_parts(envelope@) {
                Some((n, c)) => r matches Some(s) && s.nonce@ == n && s.ciphertext@ == c,
                None => r is None,
            },
    {
        if envelope.len() < NONCE_LEN {
            return None;
        }
        let mut nonce: Vec<u8> = Vec::new();
        let mut ciphertext: Vec<u8> = Vec::new();
        let mut i: usize = 0;
        while i < envelope.len()
            invariant
                NONCE_LEN <= envelope@.len(),
                i <= envelope@.len(),
                i <= NONCE_LEN ==> nonce@ =~= envelope@.subrange(0, i as int),
                i <= NONCE_LEN ==> ciphertext@.len() == 0,
                i > NONCE_LEN ==> nonce@ =~= envelope@.subrange(0, NONCE_LEN as int),
                i > NONCE_LEN ==> ciphertext@ =~= envelope@.subrange(NONCE_LEN as int, i as int),
            decreases envelope@.len() - i,
        {
            if i < NONCE_LEN {
                nonce.push(envelope[i]);
            } else {
                ciphertext.push(envelope[i]);
            }
            i = i + 1;
        }
        Some(Sealed { nonce, ciphertext })
    }
}

/// Seals `plaintext` under `key` with the given nonce.
pub fn seal_with_nonce(key: &[u8], nonce: &[u8], plaintext: &[u8]) -> (r: Result<Sealed, SealError>)
    requires
        key@.len() == DIGEST_LEN,
        nonce@.len() == NONCE_LEN,
    ensures
        plaintext@.len() > PLAINTEXT_MAX ==> r == Err::<Sealed, SealError>(SealError::TooLong),
        plaintext@.len() <= PLAINTEXT_MAX ==> (r matches Ok(s) && s.nonce@ == nonce@
            && s.ciphertext@ == gcm_sealed(key@, nonce@, plaintext@)),
        r matches Ok(s) ==> gcm_opened(key@, s.nonce@, s.ciphertext@) == Some(plaintext@),
{
    match aes256_gcm_encrypt(key, nonce, plaintext) {
        Ok(ciphertext) => Ok(Sealed { nonce: slice_to_vec(nonce), ciphertext }),
        Err(_) => Err(SealError::TooLong),
    }
}

/// Seals `plaintext` under `key` with a freshly drawn random nonce. Whatever nonce
/// is drawn, the result opens to the plaintext under the same key.
pub fn seal(key: &[u8], plaintext: &[u8]) -> (r: Result<Sealed, SealError>)
    requires
        key@.len() == DIGEST_LEN,
    ensures
        plaintext@.len() > PLAINTEXT_MAX ==> r == Err::<Sealed, SealError>(SealError::TooLong),
        plaintext@.len() <= PLAINTEXT_MAX ==> r is Ok || r == Err::<Sealed, SealError>(
            SealError::NoRandomness,
        ),
        r matches Ok(s) ==> s.nonce@.len() == NONCE_LEN && s.ciphertext@ == gcm_sealed(
            key@,
            s.nonce@,
            plaintext@,
        ),
        r matches Ok(s) ==> gcm_opened(key@, s.nonce@, s.ciphertext@) == Some(plaintext@),
{
    if plaintext.len() as u64 > PLAINTEXT_MAX {
        return Err(SealError::TooLong);
    }
    match random_nonce() {
        Ok(nonce) => seal_with_nonce(key, nonce.as_slice(), plaintext),
        Err(_) => Err(SealError::NoRandomness),
    }
}

/// Opens a ciphertext sealed under `key` and `nonce`.
pub fn open(key: &[u8], nonce: &[u8], ciphertext: &[u8]) -> (r: Result<Vec<u8>, OpenError>)
    requires
        key@.len() == DIGEST_LEN,
        nonce@.len() == NONCE_LEN,
    ensures
        match gcm_opened(key@, nonce@, ciphertext@) {
            Some(p) => r matches Ok(q) && q@ == p,
            None => r == Err::<Vec<u8>, OpenError>(OpenError::AuthenticationFailed),
        },
{
    match aes256_gcm_decrypt(key, nonce, ciphertext) {
        Ok(p) => Ok(p),
        Err(_) => Err(OpenError::AuthenticationFailed),
    }
}

} // verus!
