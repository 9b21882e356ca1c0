//! The `Debug` form of commands (as `format!("{:?}", ..)` writes it), which
//! the command log's filter searches for every command but text.

use vstd::prelude::*;
use crate::escpos::commands::{Command, EscPosCommand, Font, Justification};
use crate::gui::labels::{decimal, push_decimal};

verus! {

pub open spec fn bool_text(b: bool) -> Seq<char> {
    if b {
        "true"@
    } else {
        "false"@
    }
}

pub open spec fn font_debug(font: Font) -> Seq<char> {
    match font {
        Font::FontA => "FontA"@,
        Font::FontB => "FontB"@,
        Font::FontC => "FontC"@,
    }
}

pub open spec fn justification_debug(justification: Justification) -> Seq<char> {
    match justification {
        Justification::Left => "Left"@,
        Justification::Center => "Center"@,
        Justification::Right => "Right"@,
    }
}

/// The bytes in decimal, separated by `", "`.
pub open spec fn list_items(bytes: Seq<u8>) -> Seq<char>
    decreases bytes.len(),
{
    if bytes.len() == 0 {
        Seq::empty()
    } else if bytes.len() == 1 {
        decimal(bytes[0] as nat)
    } else {
        list_items(bytes.drop_last()) + ", "@ + decimal(bytes.last() as nat)
    }
}

/// A byte list as `Debug` writes a `Vec<u8>`: `[27, 64]`.
pub open spec fn byte_list(bytes: Seq<u8>) -> Seq<char> {
    "["@ + list_items(bytes) + "]"@
}

/// `name(value)`, the `Debug` form of a one-field variant.
pub open spec fn tuple_variant(name: Seq<char>, value: Seq<char>) -> Seq<char> {
    name + "("@ + value + ")"@
}

/// The derived `Debug` form of a command other than text. (The filter
/// searches text commands by their own text, so text has no entry here.)
pub open spec fn debug_form(command: Command) -> Seq<char> {
    match command {
        Command::Text(_) => Seq::empty(),
        Command::NewLine => "NewLine"@,
        Command::LineFeed => "LineFeed"@,
        Command::CarriageReturn => "CarriageReturn"@,
        Command::SetFont(font) => tuple_variant("SetFont"@, font_debug(font)),
        Command::SetFontSize(n) => tuple_variant("SetFontSize"@, decimal(n as nat)),
        Command::SetJustification(j) => tuple_variant("SetJustification"@, justification_debug(j)),
        Command::SetEmphasis(b) => tuple_variant("SetEmphasis"@, bool_text(b)),
        Command::SetUnderline(b) => tuple_variant("SetUnderline"@, bool_text(b)),
        Command::SetItalic(b) => tuple_variant("SetItalic"@, bool_text(b)),
        Command::SetLineHeight(n) => tuple_variant("SetLineHeight"@, decimal(n as nat)),
        Command::CutPaper => "CutPaper"@,
        Command::PrintImage(data) => tuple_variant("PrintImage"@, byte_list(data)),
        Command::PrintRasterImage { width_bytes, height, data } => "PrintRasterImage { width_bytes: "@
            + decimal(width_bytes as nat) + ", height: "@ + decimal(height as nat) + ", data: "@
            + byte_list(data) + " }"@,
        Command::SetCodepage(n) => tuple_variant("SetCodepage"@, decimal(n as nat)),
        Command::InitializePrinter => "InitializePrinter"@,
        Command::Unknown(data) => tuple_variant("Unknown"@, byte_list(data)),
    }
}

fn bool_str(b: bool) -> (s: &'static str)
    ensures
        s@ == bool_text(b),
{
    if b {
        "true"
    } else {
        "false"
    }
}

fn font_str(font: Font) -> (s: &'static str)
    ensures
        s@ == font_debug(font),
{
    match font {
        Font::FontA => "FontA",
        Font::FontB => "FontB",
        Font::FontC => "FontC",
    }
}

fn justification_str(justification: Justification) -> (s: &'static str)
    ensures
        s@ == justification_debug(justification),
{
    match justification {
        Justification::Left => "Left",
        Justification::Center => "Center",
        Justification::Right => "Right",
    }
}

/// Appends the `Debug` form of a byte list.
fn push_byte_list(out: &mut String, bytes: &[u8])
    ensures
        final(out)@ == old(out)@ + byte_list(bytes@),
{
    let ghost start = out@;
    out.append("[");
    let ghost open = out@;
    let mut i: usize = 0;
    while i < bytes.len()
        invariant
            i <= bytes@.len(),
            open == start + "["@,
            out@ == open + list_items(bytes@.take(i as int)),
        decreases bytes@.len() - i,
    {
        if i > 0 {
            out.append(", ");
        }
        push_decimal(out, bytes[i] as u64);
        proof {
            let next = bytes@.take(i + 1);
            assert(next.drop_last() =~= bytes@.take(i as int));
            assert(next.last() == bytes@[i as int]);
            if i == 0 {
                assert(list_items(bytes@.take(0)) =~= Seq::<char>::empty());
                assert(out@ =~= open + list_items(next));
            } else {
                assert(out@ =~= open + list_items(next));
            }
        }
        i = i + 1;
    }
    proof {
        assert(bytes@.take(bytes@.len() as int) =~= bytes@);
    }
    out.append("]");
    assert(out@ =~= start + byte_list(bytes@));
}

/// `name(value)`.
fn tuple_string(name: &str, value: &str) -> (s: String)
    ensures
        s@ == tuple_variant(name@, value@),
{
    let mut s = String::from_str(name);
    s.append("(");
    s.append(value);
    s.append(")");
    s
}

/// `name(number)`.
fn tuple_number(name: &str, n: u64) -> (s: String)
    ensures
        s@ == tuple_variant(name@, decimal(n as nat)),
{
    let mut s = String::from_str(name);
    s.append("(");
    push_decimal(&mut s, n);
    s.append(")");
    s
}

/// `name([bytes])`.
fn tuple_bytes(name: &str, bytes: &[u8]) -> (s: String)
    ensures
        s@ == tuple_variant(name@, byte_list(bytes@)),
{
    let mut s = String::from_str(name);
    s.append("(");
    push_byte_list(&mut s, bytes);
    s.append(")");
    s
}

/// The `Debug` form of a command other than text, as
/// `format!("{:?}", command)` writes it.
pub fn debug_string(command: &EscPosCommand) -> (text: String)
    requires
        !(command@ is Text),
    ensures
        text@ == debug_form(command@),
{
    match command {
        EscPosCommand::Text(_) => String::new(),
        EscPosCommand::NewLine => String::from_str("NewLine"),
        EscPosCommand::LineFeed => String::from_str("LineFeed"),
        EscPosCommand::CarriageReturn => String::from_str("CarriageReturn"),
        EscPosCommand::SetFont(font) => tuple_string("SetFont", font_str(*font)),
        EscPosCommand::SetFontSize(n) => tuple_number("SetFontSize", *n as u64),
        EscPosCommand::SetJustification(j) => tuple_string("SetJustification", justification_str(*j)),
        EscPosCommand::SetEmphasis(b) => tuple_string("SetEmphasis", bool_str(*b)),
        EscPosCommand::SetUnderline(b) => tuple_string("SetUnderline", bool_str(*b)),
        EscPosCommand::SetItalic(b) => tuple_string("SetItalic", bool_str(*b)),
        EscPosCommand::SetLineHeight(n) => tuple_number("SetLineHeight", *n as u64),
        EscPosCommand::CutPaper => String::from_str("CutPaper"),
        EscPosCommand::PrintImage(data) => tuple_bytes("PrintImage", data.as_slice()),
        EscPosCommand::PrintRasterImage { width_bytes, height, data } => {
            let mut s = String::from_str("PrintRasterImage { width_bytes: ");
            push_decimal(&mut s, *width_bytes as u64);
            s.append(", height: ");
            push_decimal(&mut s, *height as u64);
            s.append(", data: ");
            push_byte_list(&mut s, data.as_slice());
            s.append(" }");
            s
        },
        EscPosCommand::SetCodepage(n) => tuple_number("SetCodepage", *n as u64),
        EscPosCommand::InitializePrinter => String::from_str("InitializePrinter"),
        EscPosCommand::Unknown(data) => tuple_bytes("Unknown", data.as_slice()),
    }
}

} // verus!
