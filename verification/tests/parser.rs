use escpos_emulator::escpos::commands::{EscPosCommand, Font, Justification};
use escpos_emulator::escpos::parser::EscPosParser;
use escpos_emulator::escpos::qr::{render_qr, EcLevel};

fn text(s: &str) -> EscPosCommand {
    EscPosCommand::Text(s.to_string())
}

fn parse(bytes: &[u8]) -> Vec<EscPosCommand> {
    EscPosParser::new().parse_stream(bytes)
}

/// `GS ( k pL pH 0x31 fn params`
fn qr_function(fn_code: u8, params: &[u8]) -> Vec<u8> {
    let len = params.len() + 2;
    let mut v = vec![0x1D, b'(', b'k', (len % 256) as u8, (len / 256) as u8, 0x31, fn_code];
    v.extend_from_slice(params);
    v
}

#[test]
fn text_and_line_endings() {
    assert_eq!(
        parse(b"Hello\nWorld\r"),
        vec![text("Hello"), EscPosCommand::NewLine, text("World"), EscPosCommand::CarriageReturn]
    );
}

#[test]
fn empty_input_gives_nothing() {
    assert_eq!(parse(b""), vec![]);
}

#[test]
fn esc_commands() {
    let bytes = [
        0x1B, b'@', 0x1B, b'E', 0x1B, b'F', 0x1B, b'4', 0x1B, b'5', 0x1B, b'm', 0x1B, b'i', 0x1B,
        b'M', 1, 0x1B, b'M', 9, 0x1B, b'a', 2, 0x1B, b'-', 0, 0x1B, b'-', 2, 0x1B, b'3', 40, 0x1B,
        b'!', 0x30, 0x1B, b'J', 5,
    ];
    assert_eq!(
        parse(&bytes),
        vec![
            EscPosCommand::InitializePrinter,
            EscPosCommand::SetEmphasis(true),
            EscPosCommand::SetEmphasis(false),
            EscPosCommand::SetItalic(true),
            EscPosCommand::SetItalic(false),
            EscPosCommand::CutPaper,
            EscPosCommand::CutPaper,
            EscPosCommand::SetFont(Font::FontB),
            EscPosCommand::SetFont(Font::FontA),
            EscPosCommand::SetJustification(Justification::Right),
            EscPosCommand::SetUnderline(false),
            EscPosCommand::SetUnderline(true),
            EscPosCommand::SetLineHeight(40),
            EscPosCommand::SetFontSize(0x30),
            EscPosCommand::LineFeed,
        ]
    );
}

#[test]
fn unknown_esc_command_takes_two_bytes() {
    assert_eq!(parse(&[0x1B, b'z', b'A']), vec![EscPosCommand::Unknown(vec![0x1B, b'z']), text("A")]);
}

#[test]
fn codepage_selection_applies_to_later_text() {
    assert_eq!(
        parse(&[0xD5, 0x1B, b't', 2, 0xD5, 0x1B, b't', 19, 0xD5]),
        vec![
            text("╒"),
            EscPosCommand::SetCodepage(2),
            text("ı"),
            EscPosCommand::SetCodepage(19),
            text("€"),
        ]
    );
}

#[test]
fn bit_image_lengths_follow_the_mode() {
    // 8-dot mode: one byte a column.
    assert_eq!(
        parse(&[0x1B, b'*', 0, 2, 0, 0xAA, 0x55, b'x']),
        vec![EscPosCommand::PrintImage(vec![0xAA, 0x55]), text("x")]
    );
    // 24-dot mode: three bytes a column.
    assert_eq!(
        parse(&[0x1B, b'*', 33, 1, 0, 1, 2, 3, b'x']),
        vec![EscPosCommand::PrintImage(vec![1, 2, 3]), text("x")]
    );
}

#[test]
fn raster_image() {
    assert_eq!(
        parse(&[0x1D, b'v', b'0', 0, 2, 0, 1, 0, 0xF0, 0x0F]),
        vec![EscPosCommand::PrintRasterImage { width_bytes: 2, height: 1, data: vec![0xF0, 0x0F] }]
    );
}

#[test]
fn cut_paper_variants() {
    assert_eq!(
        parse(&[0x1D, b'V', 0, 0x1D, b'V', 66, 3, 0x1D, b'V', 7, b'A']),
        vec![EscPosCommand::CutPaper, EscPosCommand::CutPaper, EscPosCommand::CutPaper, text("A")]
    );
}

#[test]
fn unknown_gs_commands() {
    assert_eq!(parse(&[0x1D, b'!', 0x11]), vec![EscPosCommand::Unknown(vec![0x1D, b'!']), text("\u{11}")]);
    // GS ( other than k: three bytes.
    assert_eq!(parse(&[0x1D, b'(', b'L', 1, 0]), vec![EscPosCommand::Unknown(vec![0x1D, b'(', b'L']), text("\u{1}\u{0}")]);
    // Not a QR symbol (PDF417): the whole command is skipped.
    let pdf417 = [0x1D, b'(', b'k', 3, 0, 0x30, 65, 2, b'A'];
    assert_eq!(parse(&pdf417), vec![EscPosCommand::Unknown(pdf417[..8].to_vec()), text("A")]);
    // Too short for cn and fn.
    assert_eq!(parse(&[0x1D, b'(', b'k', 1, 0, 0x31]), vec![EscPosCommand::Unknown(vec![0x1D, b'(', b'k', 1, 0, 0x31])]);
}

#[test]
fn incomplete_command_waits_for_more_bytes() {
    let mut parser = EscPosParser::new();
    assert_eq!(parser.parse_stream(b"AB\x1b"), vec![text("AB")]);
    assert_eq!(parser.parse_stream(b""), vec![]);
    assert_eq!(parser.parse_stream(b"E"), vec![EscPosCommand::SetEmphasis(true)]);
    // A raster image arriving in pieces.
    assert_eq!(parser.parse_stream(&[0x1D, b'v', b'0', 0, 1, 0, 2]), vec![]);
    assert_eq!(parser.parse_stream(&[0, 0xFF]), vec![]);
    assert_eq!(
        parser.parse_stream(&[0x81, b'\n']),
        vec![
            EscPosCommand::PrintRasterImage { width_bytes: 1, height: 2, data: vec![0xFF, 0x81] },
            EscPosCommand::NewLine,
        ]
    );
}

#[test]
fn chunks_split_at_command_boundaries_parse_like_one_stream() {
    let first: &[u8] = &[b'H', b'i', 0x1B, b't', 2, 0xD5, 0x1D];
    let second: &[u8] = &[b'V', 0, 0x1B, b'E', b'\n', 0xD5];
    let mut whole = first.to_vec();
    whole.extend_from_slice(second);
    let mut split = EscPosParser::new();
    let mut commands = split.parse_stream(first);
    commands.extend(split.parse_stream(second));
    assert_eq!(commands, parse(&whole));
}

#[test]
fn qr_code_is_rendered_from_stored_data() {
    let mut bytes = qr_function(67, &[4]);
    bytes.extend(qr_function(69, &[50]));
    bytes.extend(qr_function(80, b"0hello"));
    bytes.extend(qr_function(81, b"0"));
    // The stored data is cleared by printing: a second print gives nothing.
    bytes.extend(qr_function(81, b"0"));
    let (width_bytes, height, data) = render_qr(b"hello", 4, EcLevel::Q).unwrap();
    assert_eq!(parse(&bytes), vec![EscPosCommand::PrintRasterImage { width_bytes, height, data }]);
}

#[test]
fn qr_module_size_is_clamped() {
    let mut bytes = qr_function(67, &[40]);
    bytes.extend(qr_function(80, b"0x"));
    bytes.extend(qr_function(81, b"0"));
    let (width_bytes, height, data) = render_qr(b"x", 16, EcLevel::M).unwrap();
    assert_eq!(height, 21 * 16);
    assert_eq!(parse(&bytes), vec![EscPosCommand::PrintRasterImage { width_bytes, height, data }]);

    let mut bytes = qr_function(67, &[0]);
    bytes.extend(qr_function(80, b"0x"));
    bytes.extend(qr_function(81, b"0"));
    let (width_bytes, height, data) = render_qr(b"x", 1, EcLevel::M).unwrap();
    assert_eq!(parse(&bytes), vec![EscPosCommand::PrintRasterImage { width_bytes, height, data }]);
}

#[test]
fn qr_print_without_data_and_silent_functions() {
    let mut bytes = qr_function(81, b"0");
    bytes.extend(qr_function(65, &[50, 0]));
    bytes.extend(qr_function(82, b"0"));
    bytes.extend(qr_function(67, &[]));
    assert_eq!(parse(&bytes), vec![]);
}

#[test]
fn default_and_clone_behave_like_new() {
    let mut a = EscPosParser::default();
    let mut b = EscPosParser::new();
    assert_eq!(a.parse_stream(&[0x1B, b't']), vec![]);
    let mut c = a.clone();
    assert_eq!(a.parse_stream(&[16, 0x80]), vec![EscPosCommand::SetCodepage(16), text("€")]);
    assert_eq!(c.parse_stream(&[16, 0x80]), vec![EscPosCommand::SetCodepage(16), text("€")]);
    assert_eq!(b.parse_stream(&[0x80]), vec![text("Ç")]);
}

#[test]
fn chunks_split_inside_a_command_parse_like_one_stream() {
    let whole: Vec<u8> = vec![b'A', 0x1B, b'!', 0x11, 0x1D, b'v', b'0', 0, 1, 0, 1, 0, 0x7E, b'B'];
    let expected = parse(&whole);
    for cut in 0..=whole.len() {
        let ends_in_text = cut > 0 && cut < whole.len() && (whole[cut - 1] == b'A' && whole[cut] != 0x1B);
        if ends_in_text {
            continue;
        }
        let mut split = EscPosParser::new();
        let mut commands = split.parse_stream(&whole[..cut]);
        commands.extend(split.parse_stream(&whole[cut..]));
        assert_eq!(commands, expected, "cut at {}", cut);
    }
}

#[test]
fn text_cut_by_a_chunk_boundary_comes_out_in_two_pieces() {
    let mut split = EscPosParser::new();
    let mut commands = split.parse_stream(b"Hel");
    commands.extend(split.parse_stream(b"lo"));
    assert_eq!(commands, vec![text("Hel"), text("lo")]);
}

/// Joins each run of adjacent text commands into one.
fn merge_text(commands: Vec<EscPosCommand>) -> Vec<EscPosCommand> {
    let mut out: Vec<EscPosCommand> = Vec::new();
    for c in commands {
        if let (Some(EscPosCommand::Text(prev)), EscPosCommand::Text(next)) = (out.last_mut(), &c) {
            prev.push_str(next);
        } else {
            out.push(c);
        }
    }
    out
}

#[test]
fn any_chunking_parses_like_one_stream_up_to_text_joins() {
    let whole: Vec<u8> = vec![
        b'A', b'b', 0x1B, b't', 2, 0xD5, b'c', 0x1D, b'v', b'0', 0, 1, 0, 1, 0, 0x7E, b'x', b'y', b'\n', 0x1B,
        b'E', b'z',
    ];
    let expected = parse(&whole);
    for cut in 0..=whole.len() {
        let mut split = EscPosParser::new();
        let mut commands = split.parse_stream(&whole[..cut]);
        commands.extend(split.parse_stream(&whole[cut..]));
        assert_eq!(merge_text(commands), merge_text(expected.clone()), "cut at {}", cut);
    }
}
