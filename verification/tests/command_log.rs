use escpos_emulator::escpos::commands::{EscPosCommand, Font, Justification};
use escpos_emulator::gui::command_log::{command_text, count_matching, elapsed_string, statistics_text, CommandLog};
use escpos_emulator::gui::debug_form::debug_string;
use escpos_emulator::gui::labels::{decimal_string, hex_string};

#[test]
fn new_log_settings() {
    let log = CommandLog::new();
    assert!(log.show_timestamps());
    assert!(!log.show_raw_data());
    assert_eq!(log.filter_text(), "");
}

#[test]
fn decimal_and_hex() {
    assert_eq!(decimal_string(0), "0");
    assert_eq!(decimal_string(9), "9");
    assert_eq!(decimal_string(1234567890), "1234567890");
    assert_eq!(decimal_string(u64::MAX), u64::MAX.to_string());
    assert_eq!(hex_string(&[]), "");
    assert_eq!(hex_string(&[0x1B, 0x40, 0x0A, 0xFF]), "1B 40 0A FF");
}

#[test]
fn elapsed_time_formats() {
    assert_eq!(elapsed_string(42), "42s");
    assert_eq!(elapsed_string(60), "1m 0s");
    assert_eq!(elapsed_string(3599), "59m 59s");
    assert_eq!(elapsed_string(3600), "1h 0m");
    assert_eq!(elapsed_string(7384), "2h 3m");
}

#[test]
fn command_labels() {
    assert_eq!(command_text(&EscPosCommand::Text("hi".to_string())), "📝 hi");
    assert_eq!(command_text(&EscPosCommand::NewLine), "↵ New line");
    assert_eq!(command_text(&EscPosCommand::SetFont(Font::FontC)), "🔤 Font: FontC");
    assert_eq!(command_text(&EscPosCommand::SetJustification(Justification::Center)), "📐 Justification: Center");
    assert_eq!(command_text(&EscPosCommand::SetEmphasis(true)), "💪 Emphasis: ON");
    assert_eq!(command_text(&EscPosCommand::SetUnderline(false)), "➖ Underline: OFF");
    assert_eq!(command_text(&EscPosCommand::SetItalic(true)), "📝 Italic: ON");
    assert_eq!(command_text(&EscPosCommand::CutPaper), "✂️ Paper cut");
    assert_eq!(command_text(&EscPosCommand::PrintImage(vec![1])), "🖼️ Bit Image (ESC *)");
    assert_eq!(
        command_text(&EscPosCommand::PrintRasterImage { width_bytes: 48, height: 100, data: vec![] }),
        "🖼️ Raster Image (GS v 0) 384×100"
    );
    assert_eq!(command_text(&EscPosCommand::SetCodepage(16)), "🌐 Codepage: 16");
    assert_eq!(command_text(&EscPosCommand::SetLineHeight(30)), "📏 Line height: 30");
    assert_eq!(command_text(&EscPosCommand::SetFontSize(17)), "🔤 Font size: 17");
    assert_eq!(command_text(&EscPosCommand::Unknown(vec![0x1B, 0x7A])), "❓ Unknown command");
    assert_eq!(command_text(&EscPosCommand::LineFeed), format!("⚙️ {:?}", EscPosCommand::LineFeed));
    assert_eq!(command_text(&EscPosCommand::CarriageReturn), format!("⚙️ {:?}", EscPosCommand::CarriageReturn));
    assert_eq!(
        command_text(&EscPosCommand::InitializePrinter),
        format!("⚙️ {:?}", EscPosCommand::InitializePrinter)
    );
}

#[test]
fn filter_ignores_case() {
    let mut log = CommandLog::new();
    assert!(log.passes_filter(&EscPosCommand::CutPaper));
    log.set_filter_text("TOTAL".to_string());
    assert!(log.passes_filter(&EscPosCommand::Text("Grand total: 5".to_string())));
    assert!(!log.passes_filter(&EscPosCommand::Text("Subtotal 4".to_string().replace("total", "tot"))));
    log.set_filter_text("Font".to_string());
    assert!(log.passes_filter(&EscPosCommand::SetFont(Font::FontB)));
    assert!(log.passes_filter(&EscPosCommand::SetFontSize(2)));
    assert!(!log.passes_filter(&EscPosCommand::CutPaper));
    log.set_filter_text("fontb".to_string());
    assert!(log.passes_filter(&EscPosCommand::SetFont(Font::FontB)));
    assert!(!log.passes_filter(&EscPosCommand::SetFont(Font::FontA)));
}

#[test]
fn displayed_entries_are_most_recent_first() {
    let log = CommandLog::new();
    let matching = [true, false, true, true, false];
    assert_eq!(log.displayed_entries(&matching), vec![3, 2, 0]);
    assert_eq!(count_matching(&matching), 3);
    assert_eq!(log.displayed_entries(&[]), Vec::<usize>::new());
}

#[test]
fn displayed_entries_stop_at_the_line_limit() {
    let log = CommandLog::new();
    let matching = vec![true; 1500];
    let shown = log.displayed_entries(&matching);
    assert_eq!(shown.len(), 1000);
    assert_eq!(shown[0], 1499);
    assert_eq!(shown[999], 500);
}

#[test]
fn entry_lines_follow_the_settings() {
    let mut log = CommandLog::new();
    let cmd = EscPosCommand::InitializePrinter;
    assert_eq!(log.entry_lines(Some(75), &cmd, &[0x1B, 0x40]), vec!["⏰ 1m 15s", "⚙️ InitializePrinter"]);
    assert_eq!(log.entry_lines(None, &cmd, &[0x1B, 0x40]), vec!["⚙️ InitializePrinter"]);
    log.set_show_raw_data(true);
    log.set_show_timestamps(false);
    assert_eq!(
        log.entry_lines(Some(75), &cmd, &[0x1B, 0x40]),
        vec!["⚙️ InitializePrinter", "🔢 Data: 1B 40"]
    );
    assert_eq!(log.entry_lines(Some(75), &cmd, &[]), vec!["⚙️ InitializePrinter"]);
}

#[test]
fn statistics_line() {
    assert_eq!(statistics_text(12, 3, 5), "Total: 12 commands | Displayed: 3 | Filtered: 5");
}

#[test]
fn debug_form_matches_derived_debug() {
    let commands = vec![
        EscPosCommand::NewLine,
        EscPosCommand::LineFeed,
        EscPosCommand::CarriageReturn,
        EscPosCommand::SetFont(Font::FontA),
        EscPosCommand::SetFont(Font::FontB),
        EscPosCommand::SetFont(Font::FontC),
        EscPosCommand::SetFontSize(0),
        EscPosCommand::SetFontSize(u32::MAX),
        EscPosCommand::SetJustification(Justification::Left),
        EscPosCommand::SetJustification(Justification::Center),
        EscPosCommand::SetJustification(Justification::Right),
        EscPosCommand::SetEmphasis(true),
        EscPosCommand::SetUnderline(false),
        EscPosCommand::SetItalic(true),
        EscPosCommand::SetLineHeight(30),
        EscPosCommand::CutPaper,
        EscPosCommand::PrintImage(vec![]),
        EscPosCommand::PrintImage(vec![0, 9, 10, 255]),
        EscPosCommand::PrintRasterImage { width_bytes: 2, height: 1, data: vec![240, 15] },
        EscPosCommand::PrintRasterImage { width_bytes: 65535, height: 0, data: vec![] },
        EscPosCommand::SetCodepage(16),
        EscPosCommand::InitializePrinter,
        EscPosCommand::Unknown(vec![27, 64]),
    ];
    for command in &commands {
        assert_eq!(debug_string(command), format!("{:?}", command));
    }
}
