use session_bridge::textscan::scan_utf8;

#[test]
fn ascii_is_fully_decodable() {
    assert_eq!(scan_utf8(b"hello"), (5, true));
    assert_eq!(scan_utf8(b""), (0, true));
}

#[test]
fn two_byte_characters_decode_whole() {
    // "h\u{e9}llo" with an e-acute: 68 C3 A9 6C 6C 6F
    let bytes = [0x68, 0xC3, 0xA9, 0x6C, 0x6C, 0x6F];
    assert_eq!(scan_utf8(&bytes), (6, true));
}

#[test]
fn four_byte_character_decodes_whole() {
    // U+1F600: F0 9F 98 80
    let bytes = [0xF0, 0x9F, 0x98, 0x80];
    assert_eq!(scan_utf8(&bytes), (4, true));
}

#[test]
fn split_three_byte_character_is_held_as_tail() {
    // U+20AC is E2 82 AC; only the first two bytes arrived.
    let bytes = [0xE2, 0x82];
    assert_eq!(scan_utf8(&bytes), (0, true));
    let bytes = [0x41, 0xE2, 0x82];
    assert_eq!(scan_utf8(&bytes), (1, true));
}

#[test]
fn split_two_byte_character_is_held_as_tail() {
    let bytes = [0x41, 0x42, 0xC3];
    assert_eq!(scan_utf8(&bytes), (2, true));
}

#[test]
fn lone_continuation_byte_is_undecodable() {
    assert_eq!(scan_utf8(&[0x80]), (0, false));
    assert_eq!(scan_utf8(&[0x41, 0xBF, 0x42]), (1, false));
}

#[test]
fn overlong_encoding_is_undecodable() {
    // C0 AF would be an overlong encoding of '/'.
    assert_eq!(scan_utf8(&[0xC0, 0xAF]), (0, false));
    // E0 80 80 would be an overlong three-byte encoding.
    assert_eq!(scan_utf8(&[0xE0, 0x80, 0x80]), (0, false));
    // F0 80 80 80 would be an overlong four-byte encoding.
    assert_eq!(scan_utf8(&[0xF0, 0x80, 0x80, 0x80]), (0, false));
}

#[test]
fn surrogate_encoding_is_undecodable() {
    // ED A0 80 would encode U+D800, a surrogate.
    assert_eq!(scan_utf8(&[0xED, 0xA0, 0x80]), (0, false));
    // ED 9F BF encodes U+D7FF, just below the range: fine.
    assert_eq!(scan_utf8(&[0xED, 0x9F, 0xBF]), (3, true));
}

#[test]
fn past_last_scalar_is_undecodable() {
    // F4 90 80 80 would encode U+110000, past the last scalar.
    assert_eq!(scan_utf8(&[0xF4, 0x90, 0x80, 0x80]), (0, false));
    // F4 8F BF BF encodes U+10FFFF, the last scalar: fine.
    assert_eq!(scan_utf8(&[0xF4, 0x8F, 0xBF, 0xBF]), (4, true));
    // F5 can never start a scalar's encoding.
    assert_eq!(scan_utf8(&[0xF5, 0x80, 0x80, 0x80]), (0, false));
}

#[test]
fn broken_continuation_is_undecodable() {
    // A three-byte lead whose second byte is not a continuation.
    assert_eq!(scan_utf8(&[0xE2, 0x41, 0x42]), (0, false));
    // A two-byte lead followed by another lead.
    assert_eq!(scan_utf8(&[0xC3, 0xC3, 0xA9]), (0, false));
}
