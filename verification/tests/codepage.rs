use escpos_emulator::escpos::codepage::decode;

#[test]
fn ascii_passthrough() {
    assert_eq!(decode(0, b"Hello 123"), "Hello 123");
    assert_eq!(decode(16, b"Hello 123"), "Hello 123");
}

#[test]
fn cp437_accented_latin() {
    // ñ=0xA4, á=0xA0, ¿=0xA8, ¡=0xAD
    assert_eq!(decode(0, &[0xA4]), "ñ");
    assert_eq!(decode(0, &[0xA0, 0xA1, 0xA2, 0xA3]), "áíóú");
    assert_eq!(decode(0, &[0xA8, b'C', b'o', b'm', b'o', b'?']), "¿Como?");
}

#[test]
fn cp850_latin() {
    // Á=0xB5, ç=0x87, õ=0xE4
    assert_eq!(decode(2, &[0xB5, 0x87, 0xE4]), "Áçõ");
}

#[test]
fn cp858_euro() {
    // 0xD5 should be € in CP858 vs ı in CP850
    assert_eq!(decode(19, &[0xD5]), "€");
    assert_eq!(decode(2, &[0xD5]), "ı");
}

#[test]
fn cp1252_quotes_and_euro() {
    assert_eq!(decode(16, &[0x80]), "€");
    assert_eq!(decode(16, &[0x91, 0x92]), "\u{2018}\u{2019}");
    assert_eq!(decode(16, &[0xF1]), "ñ");
}

#[test]
fn iso8859_15_euro() {
    assert_eq!(decode(40, &[0xA4]), "€");
    assert_eq!(decode(40, &[0xF1]), "ñ");
}

#[test]
fn unknown_codepage_falls_back_to_cp437() {
    assert_eq!(decode(99, &[0xA4]), "ñ");
}

#[test]
fn empty_input_decodes_to_empty_text() {
    assert_eq!(decode(0, &[]), "");
}

#[test]
fn one_character_per_byte_in_every_codepage() {
    let bytes: Vec<u8> = (0u8..=255).collect();
    for cp in [0u8, 2, 16, 19, 40, 7] {
        assert_eq!(decode(cp, &bytes).chars().count(), 256);
    }
}

#[test]
fn decoding_a_concatenation_concatenates() {
    let a = [0x48, 0xA4, 0x80];
    let b = [0xD5, 0x21];
    let mut ab = a.to_vec();
    ab.extend_from_slice(&b);
    for cp in [0u8, 2, 16, 19, 40] {
        assert_eq!(decode(cp, &ab), format!("{}{}", decode(cp, &a), decode(cp, &b)));
    }
}

#[test]
fn cp858_differs_from_cp850_only_at_d5() {
    for b in 0x80u8..=0xFF {
        if b != 0xD5 {
            assert_eq!(decode(19, &[b]), decode(2, &[b]));
        }
    }
}

#[test]
fn undefined_positions_decode_to_replacement_character() {
    assert_eq!(decode(16, &[0x81]), "\u{FFFD}");
    assert_eq!(decode(40, &[0x80, 0x9F]), "\u{FFFD}\u{FFFD}");
}

#[test]
fn last_table_positions() {
    assert_eq!(decode(0, &[0xFF]), "\u{00A0}");
    assert_eq!(decode(16, &[0xFF]), "ÿ");
    assert_eq!(decode(40, &[0xBC, 0xBD, 0xBE]), "ŒœŸ");
}
