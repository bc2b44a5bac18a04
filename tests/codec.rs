use lengthy::codec::{bytes_to_c_string, c_string_to_bytes};
use lengthy::obfuscate::{domain_prefix, obfuscate, strip_separators};

#[test]
fn encodes_most_significant_bit_first() {
    assert_eq!(bytes_to_c_string(&[0b1010_0001]), "CcCccccC");
    assert_eq!(bytes_to_c_string(&[0x00, 0xff]), "ccccccccCCCCCCCC");
}

#[test]
fn encodes_empty_input_as_empty_string() {
    assert_eq!(bytes_to_c_string(&[]), "");
    assert_eq!(c_string_to_bytes(""), Vec::<u8>::new());
}

#[test]
fn decodes_eight_symbols_to_a_byte() {
    assert_eq!(c_string_to_bytes("CcCccccC"), vec![0xA1]);
    assert_eq!(c_string_to_bytes("ccccccccCCCCCCCC"), vec![0x00, 0xff]);
}

#[test]
fn decodes_a_short_last_run_as_padded_with_clear_bits() {
    assert_eq!(c_string_to_bytes("C"), vec![0x80]);
    assert_eq!(c_string_to_bytes("CCCCCCCCcC"), vec![0xff, 0x40]);
}

#[test]
fn decode_reads_separators_as_clear_bits() {
    assert_eq!(c_string_to_bytes("C.C....C"), vec![0xA1]);
}

#[test]
fn round_trip_of_a_key_width_buffer() {
    let key: Vec<u8> = (0u8..32).map(|i| i.wrapping_mul(37).wrapping_add(11)).collect();
    let bits = bytes_to_c_string(&key);
    assert_eq!(bits.chars().count(), 256);
    assert_eq!(c_string_to_bytes(&bits), key);
}

#[test]
fn obfuscate_marks_clear_bits_at_running_sum_positions() {
    // Positions visited: 1, then 1 + 2 = 3, then 3 + 6 = 9 mod 8 = 1 again.
    assert_eq!(obfuscate("cccccccc", &[1, 2, 6]), "c.c.cccc");
}

#[test]
fn obfuscate_leaves_set_bits_alone() {
    assert_eq!(obfuscate("CCCCcccc", &[0, 1, 1, 1, 1]), "CCCC.ccc");
}

#[test]
fn obfuscate_uses_only_the_first_sixteen_stream_bytes() {
    let mut stream = vec![0u8; 16];
    stream.push(5);
    assert_eq!(obfuscate("cccccccc", &stream), ".ccccccc");
}

#[test]
fn strip_separators_restores_clear_bits() {
    assert_eq!(strip_separators("C..C.c"), "CccCcc");
    assert_eq!(strip_separators(""), "");
}

#[test]
fn obfuscation_is_transparent_to_decoding() {
    let key: Vec<u8> = (0u8..32).map(|i| i.wrapping_mul(91).wrapping_add(3)).collect();
    let token = obfuscate(&bytes_to_c_string(&key), &key);
    assert_eq!(c_string_to_bytes(&strip_separators(&token)), key);
}

#[test]
fn domain_prefix_cuts_the_fixed_windows() {
    let bits: String = (0..80).map(|i| if i % 3 == 0 { 'C' } else { 'c' }).collect();
    let expected = format!("{}.{}", &bits[30..70], &bits[20..22]);
    assert_eq!(domain_prefix(&bits), expected);
    assert_eq!(domain_prefix(&bits).len(), 43);
}
