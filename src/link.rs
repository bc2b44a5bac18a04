//! The two operations: generate a token for a target URL, and resolve a token
//! back to its target. The store is reached by the caller: generate hands back
//! what to put under which key, and resolve takes what the store returned.
use crate::bindings::{
    blake3_digest, blake3_hash, gcm_opened, gcm_sealed, parse_url, parsed_url, percent_decode_utf8,
    percent_decoded, utf8_string, DIGEST_LEN, NONCE_LEN, PLAINTEXT_MAX,
};
use crate::codec::{bytes_to_c_string, c_string_to_bytes, decode, encode};
use crate::envelope::{envelope_of, envelope_parts, open, seal, seal_with_nonce, Sealed, SealError};
use crate::obfuscate::{
    domain_of, domain_prefix, lemma_obfuscation_transparent, obfuscate, obfuscated,
    strip_separators, stripped,
};
use vstd::prelude::*;
use vstd::string::StringSliceAdditionalSpecFns;
use vstd::utf8::{decode_utf8, encode_utf8, encode_utf8_decode_utf8, encode_utf8_valid_utf8, valid_utf8};

verus! {

/// Length of a token: one symbol per bit of a 32-byte key.
pub const TOKEN_LEN: usize = 256;

/// What can go wrong on either path.
#[derive(Debug, Clone, Copy, PartialEq, Eq, Structural)]
pub enum LinkError {
    /// The target is not an `http` or `https` URL, or cannot be parsed or sealed.
    InvalidUrl,
    /// The token has the wrong length or a character outside its alphabet.
    MalformedToken,
    /// The store holds nothing for the token's key.
    RecordNotFound,
    /// The stored envelope does not open under the token's key.
    AuthenticationFailed,
    /// The store could not be reached.
    StoreUnavailable,
    /// No random nonce could be drawn.
    NonceUnavailable,
}

impl LinkError {
    /// The HTTP status a caller answers with: a client error for a bad target, a
    /// server error where a service failed, and one uniform "not found" for every
    /// failure on the resolve path.
    pub fn status(&self) -> (r: u16)
        ensures
            r == match *self {
                LinkError::InvalidUrl => 400u16,
                LinkError::StoreUnavailable | LinkError::NonceUnavailable => 500u16,
                _ => 404u16,
            },
    {
        match self {
            LinkError::InvalidUrl => 400,
            LinkError::StoreUnavailable | LinkError::NonceUnavailable => 500,
            _ => 404,
        }
    }
}

/// The schemes a target may have.
pub open spec fn is_web_scheme(scheme: Seq<char>) -> bool {
    scheme == seq!['h', 't', 't', 'p'] || scheme == seq!['h', 't', 't', 'p', 's']
}

/// The serialized target URL that a raw request segment stands for: percent-decoded,
/// read as UTF-8, parsed, and kept only with an `http` or `https` scheme.
pub open spec fn target_of(raw: Seq<u8>) -> Option<Seq<char>> {
    let d = percent_decoded(raw);
    if !valid_utf8(d) {
        None
    } else {
        match parsed_url(decode_utf8(d)) {
            Some((scheme, href)) => if is_web_scheme(scheme) {
                Some(href)
            } else {
                None
            },
            None => None,
        }
    }
}

/// The key derived from a target URL: the BLAKE3 digest of its UTF-8 bytes.
pub open spec fn key_of(href: Seq<char>) -> Seq<u8> {
    blake3_digest(encode_utf8(href))
}

/// Whether a target fits the cipher's plaintext limit.
pub open spec fn fits_cipher(href: Seq<char>) -> bool {
    encode_utf8(href).len() <= PLAINTEXT_MAX
}

/// What a successful generate hands back: the store key and value to put, the
/// token, and the link shown to the user.
pub struct GeneratePlan {
    pub key_hash: Vec<u8>,
    pub envelope: Vec<u8>,
    pub token: String,
    pub link: String,
}

/// The outcome of generate for target `href` with nonce `nonce`.
pub open spec fn generated(plan: GeneratePlan, href: Seq<char>, nonce: Seq<u8>) -> bool {
    let key = key_of(href);
    let bits = encode(key);
    &&& key.len() == DIGEST_LEN
    &&& nonce.len() == NONCE_LEN
    &&& plan.key_hash@ == blake3_digest(key)
    &&& plan.envelope@ == envelope_of(nonce, gcm_sealed(key, nonce, encode_utf8(href)))
    &&& gcm_opened(key, nonce, gcm_sealed(key, nonce, encode_utf8(href))) == Some(encode_utf8(href))
    &&& plan.token@ == obfuscated(bits, key)
    &&& plan.link@ == domain_of(bits) + seq!['/'] + plan.token@
}

/// The characters a token may hold.
pub open spec fn is_token_symbol(c: char) -> bool {
    c == 'C' || c == 'c' || c == '.'
}

/// Whether a token has the right length and only the token alphabet.
pub open spec fn well_formed_token(token: Seq<char>) -> bool {
    token.len() == TOKEN_LEN && forall|i: int| 0 <= i < token.len() ==> is_token_symbol(#[trigger] token[i])
}

/// Whether a bit-string can be decoded: a positive multiple of eight characters,
/// all of the token alphabet.
pub open spec fn decodable(bits: Seq<char>) -> bool {
    bits.len() > 0 && bits.len() % 8 == 0 && forall|i: int|
        0 <= i < bits.len() ==> is_token_symbol(#[trigger] bits[i])
}

/// The key a well-formed token carries.
pub open spec fn token_key(token: Seq<char>) -> Seq<u8> {
    decode(stripped(token))
}

/// The target a stored envelope opens to under `key`, where it opens and holds UTF-8.
pub open spec fn opened_target(key: Seq<u8>, envelope: Seq<u8>) -> Option<Seq<char>> {
    match envelope_parts(envelope) {
        None => None,
        Some((nonce, ciphertext)) => match gcm_opened(key, nonce, ciphertext) {
            None => None,
            Some(p) => if valid_utf8(p) {
                Some(decode_utf8(p))
            } else {
                None
            },
        },
    }
}

/// Checks the target of a generate request: percent-decodes it, parses it as a
/// URL, and accepts only the `http` and `https` schemes. Returns the URL's
/// serialization.
pub fn validate_target(raw: &str) -> (r: Result<String, LinkError>)
    ensures
        match target_of(raw.spec_bytes()) {
            Some(href) => r matches Ok(s) && s@ == href,
            None => r == Err::<String, LinkError>(LinkError::InvalidUrl),
        },
{
    let decoded = match percent_decode_utf8(raw) {
        Ok(d) => d,
        Err(_) => return Err(LinkError::InvalidUrl),
    };
    let parts = match parse_url(decoded.as_str()) {
        Ok(p) => p,
        Err(_) => return Err(LinkError::InvalidUrl),
    };
    proof {
        reveal_strlit("http");
        reveal_strlit("https");
    }
    let http = String::from_str("http");
    let https = String::from_str("https");
    assert(http@ =~= seq!['h', 't', 't', 'p']);
    assert(https@ =~= seq!['h', 't', 't', 'p', 's']);
    assert(parsed_url(decoded@) == Some((parts.scheme@, parts.href@)));
    if parts.scheme == http || parts.scheme == https {
        Ok(parts.href)
    } else {
        Err(LinkError::InvalidUrl)
    }
}

/// The key derived from a target URL: the BLAKE3 digest of its bytes. The same
/// URL always gives the same key.
pub fn derive_key(href: &str) -> (r: Vec<u8>)
    ensures
        r@ == key_of(href@),
        r@.len() == DIGEST_LEN,
{
    blake3_hash(href.as_bytes())
}

/// The store key of a record: the BLAKE3 digest of the derived key.
pub fn key_hash(key: &[u8]) -> (r: Vec<u8>)
    ensures
        r@ == blake3_digest(key@),
        r@.len() == DIGEST_LEN,
{
    blake3_hash(key)
}

/// Builds everything generate produces for an accepted target, sealing it with
/// the given nonce.
pub fn plan_for_target(href: &str, nonce: &[u8]) -> (r: Result<GeneratePlan, LinkError>)
    requires
        nonce@.len() == NONCE_LEN,
    ensures
        fits_cipher(href@) ==> (r matches Ok(plan) && generated(plan, href@, nonce@)),
        !fits_cipher(href@) ==> r == Err::<GeneratePlan, LinkError>(LinkError::InvalidUrl),
{
    let key = derive_key(href);
    let sealed = match seal_with_nonce(key.as_slice(), nonce, href.as_bytes()) {
        Ok(s) => s,
        Err(_) => return Err(LinkError::InvalidUrl),
    };
    let plan = finish_plan(&key, &sealed);
    Ok(plan)
}

/// Turns a derived key and its sealed target into the store record, token and link.
fn finish_plan(key: &Vec<u8>, sealed: &Sealed) -> (plan: GeneratePlan)
    requires
        key@.len() == DIGEST_LEN,
    ensures
        plan.key_hash@ == blake3_digest(key@),
        plan.envelope@ == envelope_of(sealed.nonce@, sealed.ciphertext@),
        plan.token@ == obfuscated(encode(key@), key@),
        plan.link@ == domain_of(encode(key@)) + seq!['/'] + plan.token@,
{
    let bits = bytes_to_c_string(key.as_slice());
    let token = obfuscate(bits.as_str(), key.as_slice());
    let mut link = domain_prefix(bits.as_str());
    proof {
        reveal_strlit("/");
    }
    link.append("/");
    link.append(token.as_str());
    GeneratePlan {
        key_hash: key_hash(key.as_slice()),
        envelope: sealed.to_envelope(),
        token,
        link,
    }
}

/// Generate with a caller-chosen nonce: validates the raw target first, so a
/// rejected target never reaches the cipher.
pub fn plan_generate_with_nonce(raw: &str, nonce: &[u8]) -> (r: Result<GeneratePlan, LinkError>)
    requires
        nonce@.len() == NONCE_LEN,
    ensures
        match target_of(raw.spec_bytes()) {
            None => r == Err::<GeneratePlan, LinkError>(LinkError::InvalidUrl),
            Some(href) => if fits_cipher(href) {
                r matches Ok(plan) && generated(plan, href, nonce@)
            } else {
                r == Err::<GeneratePlan, LinkError>(LinkError::InvalidUrl)
            },
        },
{
    let href = validate_target(raw)?;
    plan_for_target(href.as_str(), nonce)
}

/// Generate: validates the raw target, then seals it under a freshly drawn nonce.
/// Whatever nonce is drawn, the plan is the one that nonce gives.
pub fn plan_generate(raw: &str) -> (r: Result<GeneratePlan, LinkError>)
    ensures
        match target_of(raw.spec_bytes()) {
            None => r == Err::<GeneratePlan, LinkError>(LinkError::InvalidUrl),
            Some(href) => if fits_cipher(href) {
                match r {
                    Ok(plan) => plan.envelope@.len() >= NONCE_LEN && generated(
                        plan,
                        href,
                        plan.envelope@.subrange(0, NONCE_LEN as int),
                    ),
                    Err(e) => e == LinkError::NonceUnavailable,
                }
            } else {
                r == Err::<GeneratePlan, LinkError>(LinkError::InvalidUrl)
            },
        },
{
    let href = validate_target(raw)?;
    let key = derive_key(href.as_str());
    let sealed = match seal(key.as_slice(), href.as_str().as_bytes()) {
        Ok(s) => s,
        Err(SealError::TooLong) => return Err(LinkError::InvalidUrl),
        Err(SealError::NoRandomness) => return Err(LinkError::NonceUnavailable),
    };
    let plan = finish_plan(&key, &sealed);
    assert(plan.envelope@.subrange(0, NONCE_LEN as int) =~= sealed.nonce@);
    Ok(plan)
}

/// What resolve looks up: the key a token carries and the store key it gives.
pub struct Lookup {
    pub key: Vec<u8>,
    pub key_hash: Vec<u8>,
}

/// Decodes a bit-string, separators read as clear bits; rejects one whose length
/// is not a positive multiple of eight or that holds a character outside the
/// token alphabet.
pub fn decode_bits(bits: &str) -> (r: Result<Vec<u8>, LinkError>)
    ensures
        decodable(bits@) ==> (r matches Ok(k) && k@ == decode(stripped(bits@))),
        !decodable(bits@) ==> r == Err::<Vec<u8>, LinkError>(LinkError::MalformedToken),
{
    let n = bits.unicode_len();
    if n == 0 || n % 8 != 0 {
        return Err(LinkError::MalformedToken);
    }
    let mut i: usize = 0;
    while i < n
        invariant
            n == bits@.len(),
            i <= n,
            forall|k: int| 0 <= k < i ==> is_token_symbol(#[trigger] bits@[k]),
        decreases n - i,
    {
        let c = bits.get_char(i);
        if !(c == 'C' || c == 'c' || c == '.') {
            return Err(LinkError::MalformedToken);
        }
        i = i + 1;
    }
    let plain = strip_separators(bits);
    Ok(c_string_to_bytes(plain.as_str()))
}

/// Checks a token's shape and reads the key it carries, separators read as
/// clear bits.
pub fn parse_token(token: &str) -> (r: Result<Lookup, LinkError>)
    ensures
        well_formed_token(token@) ==> (r matches Ok(l) && l.key@ == token_key(token@)
            && l.key@.len() == DIGEST_LEN && l.key_hash@ == blake3_digest(l.key@)),
        !well_formed_token(token@) ==> r == Err::<Lookup, LinkError>(LinkError::MalformedToken),
{
    if token.unicode_len() != TOKEN_LEN {
        return Err(LinkError::MalformedToken);
    }
    let key = decode_bits(token)?;
    let key_hash = key_hash(key.as_slice());
    Ok(Lookup { key, key_hash })
}

/// Opens what the store returned for a key: nothing is `RecordNotFound`; an
/// envelope too short, one that fails authentication, or one whose plaintext is
/// not UTF-8 is `AuthenticationFailed`.
pub fn open_envelope(key: &[u8], stored: Option<Vec<u8>>) -> (r: Result<String, LinkError>)
    requires
        key@.len() == DIGEST_LEN,
    ensures
        match stored {
            None => r == Err::<String, LinkError>(LinkError::RecordNotFound),
            Some(e) => match opened_target(key@, e@) {
                Some(t) => r matches Ok(s) && s@ == t,
                None => r == Err::<String, LinkError>(LinkError::AuthenticationFailed),
            },
        },
{
    let envelope = match stored {
        Some(e) => e,
        None => return Err(LinkError::RecordNotFound),
    };
    let sealed = match Sealed::from_envelope(envelope.as_slice()) {
        Some(s) => s,
        None => return Err(LinkError::AuthenticationFailed),
    };
    let plain = match open(key, sealed.nonce.as_slice(), sealed.ciphertext.as_slice()) {
        Ok(p) => p,
        Err(_) => return Err(LinkError::AuthenticationFailed),
    };
    match utf8_string(plain) {
        Ok(s) => Ok(s),
        Err(_) => Err(LinkError::AuthenticationFailed),
    }
}

/// Resolve after the store lookup: parses the token and opens what the store
/// returned for its key hash. A malformed token is rejected before anything is
/// opened.
pub fn resolve_stored(token: &str, stored: Option<Vec<u8>>) -> (r: Result<String, LinkError>)
    ensures
        !well_formed_token(token@) ==> r == Err::<String, LinkError>(LinkError::MalformedToken),
        well_formed_token(token@) ==> match stored {
            None => r == Err::<String, LinkError>(LinkError::RecordNotFound),
            Some(e) => match opened_target(token_key(token@), e@) {
                Some(t) => r matches Ok(s) && s@ == t,
                None => r == Err::<String, LinkError>(LinkError::AuthenticationFailed),
            },
        },
{
    let lookup = parse_token(token)?;
    open_envelope(lookup.key.as_slice(), stored)
}

/// The key of a target depends on the target alone.
pub proof fn lemma_derive_key_deterministic(a: Seq<char>, b: Seq<char>)
    requires
        a == b,
    ensures
        key_of(a) == key_of(b),
{
}

/// A generated token is well formed, carries the target's key, and the envelope
/// filed under that key's hash opens to the target.
pub proof fn lemma_generate_then_resolve(plan: GeneratePlan, href: Seq<char>, nonce: Seq<u8>)
    requires
        generated(plan, href, nonce),
    ensures
        well_formed_token(plan.token@),
        token_key(plan.token@) == key_of(href),
        plan.key_hash@ == blake3_digest(token_key(plan.token@)),
        opened_target(token_key(plan.token@), plan.envelope@) == Some(href),
{
    let key = key_of(href);
    let bits = encode(key);
    assert forall|i: int| 0 <= i < plan.token@.len() implies is_token_symbol(
        #[trigger] plan.token@[i],
    ) by {
        assert(plan.token@[i] == obfuscated(bits, key)[i]);
    }
    lemma_obfuscation_transparent(key, key);
    let sealed = gcm_sealed(key, nonce, encode_utf8(href));
    assert(plan.envelope@.subrange(0, NONCE_LEN as int) =~= nonce);
    assert(plan.envelope@.subrange(NONCE_LEN as int, plan.envelope@.len() as int) =~= sealed);
    encode_utf8_valid_utf8(href);
    encode_utf8_decode_utf8(href);
}

} // verus!
