//! Calls into the hashing, cipher, URL and percent-decoding crates, each with the
//! contract this library relies on.
use aes_gcm::aead::rand_core::RngCore;
use aes_gcm::aead::{Aead, KeyInit, OsRng};
use aes_gcm::{Aes256Gcm, Key};
use vstd::prelude::*;
use vstd::string::StringSliceAdditionalSpecFns;
use vstd::utf8::{decode_utf8, valid_utf8};

verus! {

#[verifier::external_type_specification]
#[verifier::external_body]
pub struct ExAeadError(aes_gcm::Error);

#[verifier::external_type_specification]
#[verifier::external_body]
pub struct ExRandError(aes_gcm::aead::rand_core::Error);

#[verifier::external_type_specification]
#[verifier::external_body]
pub struct ExUrlParseError(url::ParseError);

#[verifier::external_type_specification]
#[verifier::external_body]
pub struct ExUtf8Error(core::str::Utf8Error);

#[verifier::external_type_specification]
#[verifier::external_body]
pub struct ExFromUtf8Error(std::string::FromUtf8Error);

/// Width in bytes of a BLAKE3 digest, which is also the AES-256 key width.
pub const DIGEST_LEN: usize = 32;

/// Width in bytes of an AES-GCM nonce.
pub const NONCE_LEN: usize = 12;

/// Width in bytes of an AES-GCM authentication tag.
pub const TAG_LEN: usize = 16;

/// The longest plaintext AES-GCM seals, in bytes (`2^36`).
pub const PLAINTEXT_MAX: u64 = 68719476736;

/// The BLAKE3 digest of a byte sequence.
pub uninterp spec fn blake3_digest(data: Seq<u8>) -> Seq<u8>;

/// The AES-256-GCM ciphertext (tag appended) of `plaintext` under `key` and `nonce`,
/// with empty associated data.
pub uninterp spec fn gcm_sealed(key: Seq<u8>, nonce: Seq<u8>, plaintext: Seq<u8>) -> Seq<u8>;

/// What AES-256-GCM decryption of `ciphertext` under `key` and `nonce` yields, with
/// empty associated data: `None` where authentication fails.
pub uninterp spec fn gcm_opened(key: Seq<u8>, nonce: Seq<u8>, ciphertext: Seq<u8>) -> Option<
    Seq<u8>,
>;

/// What the WHATWG URL parser makes of `input`: its scheme and its serialization,
/// or `None` where it rejects the input.
pub uninterp spec fn parsed_url(input: Seq<char>) -> Option<(Seq<char>, Seq<char>)>;

/// The value of an ASCII hexadecimal digit, either case.
pub open spec fn hex_value(b: u8) -> Option<u8> {
    if 0x30 <= b <= 0x39 {
        Some((b - 0x30) as u8)
    } else if 0x41 <= b <= 0x46 {
        Some((b - 0x41 + 10) as u8)
    } else if 0x61 <= b <= 0x66 {
        Some((b - 0x61 + 10) as u8)
    } else {
        None
    }
}

/// Percent-decoding: each `%` followed by two hexadecimal digits becomes the byte
/// they spell; every other byte, a lone `%` included, is kept.
pub open spec fn percent_decoded(b: Seq<u8>) -> Seq<u8>
    decreases b.len(),
{
    if b.len() == 0 {
        Seq::empty()
    } else if b.len() >= 3 && b[0] == 0x25 && hex_value(b[1]) is Some && hex_value(b[2]) is Some {
        seq![(hex_value(b[1])->0 * 16 + hex_value(b[2])->0) as u8] + percent_decoded(
            b.subrange(3, b.len() as int),
        )
    } else {
        seq![b[0]] + percent_decoded(b.subrange(1, b.len() as int))
    }
}

/// Relies on `blake3::hash`: the 32-byte digest of the input.
#[verifier::external_body]
pub(crate) fn blake3_hash(data: &[u8]) -> (r: Vec<u8>)
    ensures
        r@ == blake3_digest(data@),
        r@.len() == DIGEST_LEN,
{
    blake3::hash(data).as_bytes().to_vec()
}

/// Relies on `OsRng::try_fill_bytes` (rand_core, through aead): fills a nonce from
/// the operating system's random source, or reports that it could not.
#[verifier::external_body]
pub(crate) fn random_nonce() -> (r: Result<Vec<u8>, aes_gcm::aead::rand_core::Error>)
    ensures
        r matches Ok(n) ==> n@.len() == NONCE_LEN,
{
    let mut nonce = vec![0u8; NONCE_LEN];
    OsRng.try_fill_bytes(&mut nonce).map(|_| nonce)
}

/// Relies on `Aead::encrypt` of `Aes256Gcm`: with empty associated data it fails only
/// on a plaintext longer than `2^36` bytes, appends a 16-byte tag, and what it
/// returns decrypts to the plaintext under the same key and nonce.
#[verifier::external_body]
pub(crate) fn aes256_gcm_encrypt(key: &[u8], nonce: &[u8], plaintext: &[u8]) -> (r: Result<
    Vec<u8>,
    aes_gcm::Error,
>)
    requires
        key@.len() == DIGEST_LEN,
        nonce@.len() == NONCE_LEN,
    ensures
        r is Ok <==> plaintext@.len() <= PLAINTEXT_MAX,
        r matches Ok(c) ==> c@ == gcm_sealed(key@, nonce@, plaintext@),
        r matches Ok(c) ==> c@.len() == plaintext@.len() + TAG_LEN,
        r matches Ok(c) ==> gcm_opened(key@, nonce@, c@) == Some(plaintext@),
{
    let cipher = Aes256Gcm::new(Key::<Aes256Gcm>::from_slice(key));
    cipher.encrypt(aes_gcm::Nonce::from_slice(nonce), plaintext)
}

/// Relies on `Aead::decrypt` of `Aes256Gcm`: with empty associated data it returns
/// the plaintext, or fails where the tag does not authenticate the input or the
/// input is shorter than a tag.
#[verifier::external_body]
pub(crate) fn aes256_gcm_decrypt(key: &[u8], nonce: &[u8], ciphertext: &[u8]) -> (r: Result<
    Vec<u8>,
    aes_gcm::Error,
>)
    requires
        key@.len() == DIGEST_LEN,
        nonce@.len() == NONCE_LEN,
    ensures
        match r {
            Ok(p) => gcm_opened(key@, nonce@, ciphertext@) == Some(p@),
            Err(_) => gcm_opened(key@, nonce@, ciphertext@) is None,
        },
        ciphertext@.len() < TAG_LEN ==> r is Err,
{
    let cipher = Aes256Gcm::new(Key::<Aes256Gcm>::from_slice(key));
    cipher.decrypt(aes_gcm::Nonce::from_slice(nonce), ciphertext)
}

/// What `url::Url` gives this library: the scheme and the full serialization.
pub struct UrlParts {
    pub scheme: String,
    pub href: String,
}

/// Relies on `url::Url::parse`, then `Url::scheme` and `Url::as_str` of the result.
#[verifier::external_body]
pub(crate) fn parse_url(input: &str) -> (r: Result<UrlParts, url::ParseError>)
    ensures
        match r {
            Ok(u) => parsed_url(input@) == Some((u.scheme@, u.href@)),
            Err(_) => parsed_url(input@) is None,
        },
{
    url::Url::parse(input).map(
        |u| UrlParts { scheme: u.scheme().to_string(), href: u.as_str().to_string() },
    )
}

/// Relies on `percent_encoding::percent_decode_str` and `PercentDecode::decode_utf8`:
/// decodes the `%XX` sequences of the input's bytes and reads the result as UTF-8.
#[verifier::external_body]
pub(crate) fn percent_decode_utf8(input: &str) -> (r: Result<String, core::str::Utf8Error>)
    ensures
        match r {
            Ok(s) => valid_utf8(percent_decoded(input.spec_bytes())) && s@ == decode_utf8(
                percent_decoded(input.spec_bytes()),
            ),
            Err(_) => !valid_utf8(percent_decoded(input.spec_bytes())),
        },
{
    percent_encoding::percent_decode_str(input).decode_utf8().map(|s| s.into_owned())
}

/// Relies on `String::from_utf8`: accepts exactly the valid UTF-8 byte sequences.
#[verifier::external_body]
pub(crate) fn utf8_string(bytes: Vec<u8>) -> (r: Result<String, std::string::FromUtf8Error>)
    ensures
        match r {
            Ok(s) => valid_utf8(bytes@) && s@ == decode_utf8(bytes@),
            Err(_) => !valid_utf8(bytes@),
        },
{
    String::from_utf8(bytes)
}

} // verus!
