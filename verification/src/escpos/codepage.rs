//! Codepage decoding for ESC/POS text bytes.
//!
//! ESC/POS printers do not transmit UTF-8: each byte in the text stream
//! refers to a glyph in the currently-selected codepage (set via `ESC t n`).
//! This module maps bytes 0x80..=0xFF to their Unicode equivalent for the
//! Latin codepages most commonly used in point-of-sale receipts.
//!
//! Bytes 0x00..=0x7F are always ASCII and never use the table.

use vstd::prelude::*;

verus! {

/// Replacement character used for positions that are undefined in a codepage.
pub const UNDEF: char = '\u{FFFD}';

/// CP437 — original IBM PC / "USA, Standard Europe". ESC t n=0.
pub const CP437: [char; 128] = [
    'Ç', 'ü', 'é', 'â', 'ä', 'à', 'å', 'ç', 'ê', 'ë', 'è', 'ï', 'î', 'ì', 'Ä', 'Å',
    'É', 'æ', 'Æ', 'ô', 'ö', 'ò', 'û', 'ù', 'ÿ', 'Ö', 'Ü', '¢', '£', '¥', '₧', 'ƒ',
    'á', 'í', 'ó', 'ú', 'ñ', 'Ñ', 'ª', 'º', '¿', '⌐', '¬', '½', '¼', '¡', '«', '»',
    '░', '▒', '▓', '│', '┤', '╡', '╢', '╖', '╕', '╣', '║', '╗', '╝', '╜', '╛', '┐',
    '└', '┴', '┬', '├', '─', '┼', '╞', '╟', '╚', '╔', '╩', '╦', '╠', '═', '╬', '¤',
    '╨', '╤', '╥', '╙', '╘', '╒', '╓', '╫', '╪', '┘', '┌', '█', '▄', '▌', '▐', '▀',
    'α', 'ß', 'Γ', 'π', 'Σ', 'σ', 'µ', 'τ', 'Φ', 'Θ', 'Ω', 'δ', '∞', 'φ', 'ε', '∩',
    '≡', '±', '≥', '≤', '⌠', '⌡', '÷', '≈', '°', '∙', '·', '√', 'ⁿ', '²', '■', '\u{00A0}',
];

/// CP850 — Multilingual Latin 1. ESC t n=2.
pub const CP850: [char; 128] = [
    'Ç', 'ü', 'é', 'â', 'ä', 'à', 'å', 'ç', 'ê', 'ë', 'è', 'ï', 'î', 'ì', 'Ä', 'Å',
    'É', 'æ', 'Æ', 'ô', 'ö', 'ò', 'û', 'ù', 'ÿ', 'Ö', 'Ü', 'ø', '£', 'Ø', '×', 'ƒ',
    'á', 'í', 'ó', 'ú', 'ñ', 'Ñ', 'ª', 'º', '¿', '®', '¬', '½', '¼', '¡', '«', '»',
    '░', '▒', '▓', '│', '┤', 'Á', 'Â', 'À', '©', '╣', '║', '╗', '╝', '¢', '¥', '┐',
    '└', '┴', '┬', '├', '─', '┼', 'ã', 'Ã', '╚', '╔', '╩', '╦', '╠', '═', '╬', '¤',
    'ð', 'Ð', 'Ê', 'Ë', 'È', 'ı', 'Í', 'Î', 'Ï', '┘', '┌', '█', '▄', '¦', 'Ì', '▀',
    'Ó', 'ß', 'Ô', 'Ò', 'õ', 'Õ', 'µ', 'þ', 'Þ', 'Ú', 'Û', 'Ù', 'ý', 'Ý', '¯', '´',
    '\u{00AD}', '±', '‗', '¾', '¶', '§', '÷', '¸', '°', '¨', '·', '¹', '³', '²', '■', '\u{00A0}',
];

/// Windows-1252 (WPC1252) — Latin 1 Windows. ESC t n=16.
pub const CP1252: [char; 128] = [
    '€', UNDEF, '‚', 'ƒ', '„', '…', '†', '‡', 'ˆ', '‰', 'Š', '‹', 'Œ', UNDEF, 'Ž', UNDEF,
    UNDEF, '\u{2018}', '\u{2019}', '\u{201C}', '\u{201D}', '•', '–', '—', '˜', '™', 'š', '›', 'œ', UNDEF, 'ž', 'Ÿ',
    '\u{00A0}', '¡', '¢', '£', '¤', '¥', '¦', '§', '¨', '©', 'ª', '«', '¬', '\u{00AD}', '®', '¯',
    '°', '±', '²', '³', '´', 'µ', '¶', '·', '¸', '¹', 'º', '»', '¼', '½', '¾', '¿',
    'À', 'Á', 'Â', 'Ã', 'Ä', 'Å', 'Æ', 'Ç', 'È', 'É', 'Ê', 'Ë', 'Ì', 'Í', 'Î', 'Ï',
    'Ð', 'Ñ', 'Ò', 'Ó', 'Ô', 'Õ', 'Ö', '×', 'Ø', 'Ù', 'Ú', 'Û', 'Ü', 'Ý', 'Þ', 'ß',
    'à', 'á', 'â', 'ã', 'ä', 'å', 'æ', 'ç', 'è', 'é', 'ê', 'ë', 'ì', 'í', 'î', 'ï',
    'ð', 'ñ', 'ò', 'ó', 'ô', 'õ', 'ö', '÷', 'ø', 'ù', 'ú', 'û', 'ü', 'ý', 'þ', 'ÿ',
];

/// ISO 8859-15 (Latin-9) — ISO 8859-1 with €, Š/š, Ž/ž, Œ/œ, Ÿ. ESC t n=40.
pub const ISO8859_15: [char; 128] = [
    UNDEF, UNDEF, UNDEF, UNDEF, UNDEF, UNDEF, UNDEF, UNDEF, UNDEF, UNDEF, UNDEF, UNDEF, UNDEF, UNDEF, UNDEF, UNDEF,
    UNDEF, UNDEF, UNDEF, UNDEF, UNDEF, UNDEF, UNDEF, UNDEF, UNDEF, UNDEF, UNDEF, UNDEF, UNDEF, UNDEF, UNDEF, UNDEF,
    '\u{00A0}', '¡', '¢', '£', '€', '¥', 'Š', '§', 'š', '©', 'ª', '«', '¬', '\u{00AD}', '®', '¯',
    '°', '±', '²', '³', 'Ž', 'µ', '¶', '·', 'ž', '¹', 'º', '»', 'Œ', 'œ', 'Ÿ', '¿',
    'À', 'Á', 'Â', 'Ã', 'Ä', 'Å', 'Æ', 'Ç', 'È', 'É', 'Ê', 'Ë', 'Ì', 'Í', 'Î', 'Ï',
    'Ð', 'Ñ', 'Ò', 'Ó', 'Ô', 'Õ', 'Ö', '×', 'Ø', 'Ù', 'Ú', 'Û', 'Ü', 'Ý', 'Þ', 'ß',
    'à', 'á', 'â', 'ã', 'ä', 'å', 'æ', 'ç', 'è', 'é', 'ê', 'ë', 'ì', 'í', 'î', 'ï',
    'ð', 'ñ', 'ò', 'ó', 'ô', 'õ', 'ö', '÷', 'ø', 'ù', 'ú', 'û', 'ü', 'ý', 'þ', 'ÿ',
];

/// Position of `ı` in CP850 (byte 0xD5), where CP858 carries `€` instead.
pub const CP858_EURO_INDEX: usize = 0x55;

/// CP858 — CP850 with € replacing `ı` at 0xD5. ESC t n=19.
pub open spec fn cp858_table() -> Seq<char> {
    CP850@.update(CP858_EURO_INDEX as int, '€')
}

/// The 128 glyphs of bytes 0x80..=0xFF in the codepage selected by `ESC t n`.
/// Unknown codepages fall back to CP437.
pub open spec fn code_table(codepage: u8) -> Seq<char> {
    if codepage == 0 {
        CP437@
    } else if codepage == 2 {
        CP850@
    } else if codepage == 16 {
        CP1252@
    } else if codepage == 19 {
        cp858_table()
    } else if codepage == 40 {
        ISO8859_15@
    } else {
        CP437@
    }
}

/// The character a single byte stands for in the given codepage.
pub open spec fn glyph(codepage: u8, b: u8) -> char {
    if b < 0x80 {
        b as char
    } else {
        code_table(codepage)[b - 0x80]
    }
}

/// The text a byte string stands for in the given codepage: one character per byte.
pub open spec fn decoded(codepage: u8, bytes: Seq<u8>) -> Seq<char> {
    bytes.map_values(|b: u8| glyph(codepage, b))
}

/// Trusted: `String::push` appends the character to the end of the string,
/// as its documentation says.
pub assume_specification[ String::push ](s: &mut String, ch: char)
    ensures
        final(s)@ == old(s)@.push(ch),
;

/// Builds the CP858 table from CP850.
fn build_cp858() -> (table: [char; 128])
    ensures
        table@ == cp858_table(),
{
    let mut table = CP850;
    table[CP858_EURO_INDEX] = '€';
    table
}

fn table_for(codepage: u8) -> (table: [char; 128])
    ensures
        table@ == code_table(codepage),
{
    match codepage {
        0 => CP437,
        2 => CP850,
        16 => CP1252,
        19 => build_cp858(),
        40 => ISO8859_15,
        _ => CP437,
    }
}

/// Decode a byte stream according to the given ESC/POS codepage.
pub fn decode(codepage: u8, bytes: &[u8]) -> (out: String)
    ensures
        out@ == decoded(codepage, bytes@),
{
    let table = table_for(codepage);
    let mut out = String::new();
    let mut i: usize = 0;
    while i < bytes.len()
        invariant
            i <= bytes@.len(),
            table@ == code_table(codepage),
            out@ == decoded(codepage, bytes@.take(i as int)),
        decreases bytes@.len() - i,
    {
        let b = bytes[i];
        if b < 0x80 {
            out.push(b as char);
        } else {
            out.push(table[(b - 0x80) as usize]);
        }
        proof {
            assert(bytes@.take(i + 1) =~= bytes@.take(i as int).push(b));
        }
        i = i + 1;
    }
    proof {
        assert(bytes@.take(bytes@.len() as int) =~= bytes@);
    }
    out
}

/// Decoding goes byte by byte: one character per byte, and the text of a
/// concatenation is the concatenation of the texts.
pub proof fn lemma_decode_bytewise(codepage: u8, a: Seq<u8>, b: Seq<u8>)
    ensures
        decoded(codepage, a).len() == a.len(),
        decoded(codepage, a + b) == decoded(codepage, a) + decoded(codepage, b),
{
    assert(decoded(codepage, a + b) =~= decoded(codepage, a) + decoded(codepage, b));
}

/// Bytes 0x00..=0x7F are ASCII in every codepage.
pub proof fn lemma_ascii_in_every_codepage(codepage: u8, b: u8)
    requires
        b < 0x80,
    ensures
        glyph(codepage, b) == b as char,
{
}

/// Codepages other than 0, 2, 16, 19 and 40 decode as CP437 (codepage 0).
pub proof fn lemma_unknown_codepage_is_cp437(codepage: u8, b: u8)
    requires
        codepage != 0 && codepage != 2 && codepage != 16 && codepage != 19 && codepage != 40,
    ensures
        glyph(codepage, b) == glyph(0, b),
{
}

/// CP858 (codepage 19) is CP850 (codepage 2) with `€` in place of `ı` at 0xD5.
pub proof fn lemma_cp858_is_cp850_with_euro(b: u8)
    ensures
        b == 0xD5 ==> glyph(19, b) == '€' && glyph(2, b) == 'ı',
        b != 0xD5 ==> glyph(19, b) == glyph(2, b),
{
}

} // verus!
