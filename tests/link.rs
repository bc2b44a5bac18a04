use lengthy::envelope::{open, seal, seal_with_nonce, OpenError, SealError, Sealed};
use lengthy::link::{
    decode_bits, derive_key, key_hash, open_envelope, parse_token, plan_generate, plan_generate_with_nonce,
    resolve_stored, validate_target, LinkError, TOKEN_LEN,
};

const TARGET: &str = "https://example.com/page";

#[test]
fn validate_accepts_http_and_https() {
    assert_eq!(validate_target(TARGET), Ok(TARGET.to_string()));
    assert_eq!(validate_target("http://example.com/"), Ok("http://example.com/".to_string()));
}

#[test]
fn validate_percent_decodes_first() {
    assert_eq!(
        validate_target("https%3A%2F%2Fexample.com%2Fpage"),
        Ok(TARGET.to_string())
    );
}

#[test]
fn validate_rejects_other_schemes_and_garbage() {
    assert_eq!(validate_target("ftp://example.com/file"), Err(LinkError::InvalidUrl));
    assert_eq!(validate_target("not a url"), Err(LinkError::InvalidUrl));
    assert_eq!(validate_target("%FF%FE"), Err(LinkError::InvalidUrl));
}

#[test]
fn derive_key_is_the_blake3_digest_and_repeats() {
    let a = derive_key(TARGET);
    let b = derive_key(TARGET);
    assert_eq!(a, b);
    assert_eq!(a.as_slice(), blake3::hash(TARGET.as_bytes()).as_bytes());
    assert_ne!(derive_key("https://example.com/other"), a);
}

#[test]
fn key_hash_is_the_digest_of_the_key() {
    let key = derive_key(TARGET);
    assert_eq!(key_hash(&key).as_slice(), blake3::hash(&key).as_bytes());
    assert_ne!(key_hash(&key), key);
}

#[test]
fn seal_then_open_gives_the_plaintext() {
    let key = derive_key(TARGET);
    let sealed = seal(&key, b"hello").unwrap();
    assert_eq!(sealed.nonce.len(), 12);
    assert_eq!(sealed.ciphertext.len(), 5 + 16);
    assert_ne!(&sealed.ciphertext[..5], b"hello");
    assert_eq!(open(&key, &sealed.nonce, &sealed.ciphertext), Ok(b"hello".to_vec()));
}

#[test]
fn seal_with_nonce_is_deterministic() {
    let key = derive_key(TARGET);
    let nonce = [7u8; 12];
    let a = seal_with_nonce(&key, &nonce, b"abc").unwrap();
    let b = seal_with_nonce(&key, &nonce, b"abc").unwrap();
    assert_eq!(a.ciphertext, b.ciphertext);
    assert_eq!(a.nonce, nonce.to_vec());
}

#[test]
fn flipped_bit_fails_authentication() {
    let key = derive_key(TARGET);
    let sealed = seal(&key, TARGET.as_bytes()).unwrap();
    for i in 0..sealed.ciphertext.len() {
        let mut c = sealed.ciphertext.clone();
        c[i] ^= 0x01;
        assert_eq!(open(&key, &sealed.nonce, &c), Err(OpenError::AuthenticationFailed));
    }
}

#[test]
fn wrong_key_fails_authentication() {
    let key = derive_key(TARGET);
    let other = derive_key("https://example.com/other");
    let sealed = seal(&key, b"secret").unwrap();
    assert_eq!(open(&other, &sealed.nonce, &sealed.ciphertext), Err(OpenError::AuthenticationFailed));
    assert_eq!(open(&key, &sealed.nonce, &[1, 2, 3]), Err(OpenError::AuthenticationFailed));
}

#[test]
fn envelope_round_trip_and_short_envelope() {
    let s = Sealed { nonce: vec![1; 12], ciphertext: vec![9, 8, 7] };
    let e = s.to_envelope();
    assert_eq!(e.len(), 15);
    let back = Sealed::from_envelope(&e).unwrap();
    assert_eq!(back.nonce, vec![1; 12]);
    assert_eq!(back.ciphertext, vec![9, 8, 7]);
    assert!(Sealed::from_envelope(&[0u8; 11]).is_none());
    let _ = SealError::TooLong;
}

#[test]
fn generate_then_resolve_scenario() {
    let plan = plan_generate(TARGET).unwrap();
    assert_eq!(plan.token.chars().count(), TOKEN_LEN);
    assert!(plan.token.chars().all(|c| c == 'C' || c == 'c' || c == '.'));
    assert!(plan.link.ends_with(&format!("/{}", plan.token)));
    assert_eq!(plan.link.len(), 40 + 1 + 2 + 1 + 256);
    let lookup = parse_token(&plan.token).unwrap();
    assert_eq!(lookup.key, derive_key(TARGET));
    assert_eq!(lookup.key_hash, plan.key_hash);
    assert_eq!(open_envelope(&lookup.key, Some(plan.envelope.clone())), Ok(TARGET.to_string()));
    assert_eq!(resolve_stored(&plan.token, Some(plan.envelope)), Ok(TARGET.to_string()));
}

#[test]
fn generate_is_idempotent_in_key_and_token() {
    let a = plan_generate_with_nonce(TARGET, &[1u8; 12]).unwrap();
    let b = plan_generate_with_nonce(TARGET, &[2u8; 12]).unwrap();
    assert_eq!(a.token, b.token);
    assert_eq!(a.key_hash, b.key_hash);
    assert_ne!(a.envelope, b.envelope);
    assert_eq!(&a.envelope[..12], &[1u8; 12]);
}

#[test]
fn wrong_length_token_is_malformed() {
    let token = "c".repeat(200);
    let err = parse_token(&token).err().unwrap();
    assert_eq!(err, LinkError::MalformedToken);
    assert_eq!(err.status(), 404);
}

#[test]
fn foreign_character_token_is_malformed() {
    let mut token = "c".repeat(255);
    token.push('x');
    assert_eq!(parse_token(&token).err(), Some(LinkError::MalformedToken));
}

#[test]
fn never_generated_token_is_not_found() {
    let token = "cC.".repeat(85) + "c";
    let lookup = parse_token(&token).unwrap();
    let err = open_envelope(&lookup.key, None).unwrap_err();
    assert_eq!(err, LinkError::RecordNotFound);
    assert_eq!(err.status(), 404);
}

#[test]
fn envelope_of_another_key_is_authentication_failure() {
    let plan = plan_generate(TARGET).unwrap();
    let other = derive_key("https://example.com/other");
    let err = open_envelope(&other, Some(plan.envelope)).unwrap_err();
    assert_eq!(err, LinkError::AuthenticationFailed);
    assert_eq!(err.status(), 404);
    assert_eq!(open_envelope(&other, Some(vec![0u8; 5])), Err(LinkError::AuthenticationFailed));
}

#[test]
fn ftp_target_is_invalid() {
    let err = plan_generate("ftp://example.com/file").err().unwrap();
    assert_eq!(err, LinkError::InvalidUrl);
    assert_eq!(err.status(), 400);
}

#[test]
fn server_side_failures_are_server_errors() {
    assert_eq!(LinkError::StoreUnavailable.status(), 500);
    assert_eq!(LinkError::NonceUnavailable.status(), 500);
}

#[test]
fn decode_bits_reads_a_valid_bit_string() {
    assert_eq!(decode_bits("CcCccccC"), Ok(vec![0xA1]));
    assert_eq!(decode_bits("C.C....CCCCCCCCC"), Ok(vec![0xA1, 0xff]));
}

#[test]
fn decode_bits_rejects_bad_lengths_and_symbols() {
    assert_eq!(decode_bits(""), Err(LinkError::MalformedToken));
    assert_eq!(decode_bits("CcCcccc"), Err(LinkError::MalformedToken));
    assert_eq!(decode_bits("CcCccccX"), Err(LinkError::MalformedToken));
    assert_eq!(decode_bits("CcCcccc\u{e9}"), Err(LinkError::MalformedToken));
}

#[test]
fn resolve_stored_rejects_a_malformed_token_first() {
    let plan = plan_generate(TARGET).unwrap();
    assert_eq!(resolve_stored("cc", Some(plan.envelope)), Err(LinkError::MalformedToken));
}
