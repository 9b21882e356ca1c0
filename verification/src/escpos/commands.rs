//! The commands that the ESC/POS parser emits.

use vstd::prelude::*;

verus! {

/// One decoded ESC/POS command.
#[derive(Debug, Clone, PartialEq, Eq)]
pub enum EscPosCommand {
    // Basic commands
    Text(String),
    NewLine,
    LineFeed,
    CarriageReturn,

    // Font commands
    SetFont(Font),
    SetFontSize(u32),

    // Formatting commands
    SetJustification(Justification),
    SetEmphasis(bool),
    SetUnderline(bool),
    SetItalic(bool),
    SetLineHeight(u32),

    // Print commands
    CutPaper,
    PrintImage(Vec<u8>),
    /// Raster bitmap with width (bytes per row) and height (rows)
    PrintRasterImage { width_bytes: u16, height: u16, data: Vec<u8> },

    // Codepage selection (ESC t n)
    SetCodepage(u8),

    // Control commands
    InitializePrinter,

    // Unknown commands
    Unknown(Vec<u8>),
}

#[derive(Debug, Clone, Copy, PartialEq, Eq)]
pub enum Font {
    FontA,
    FontB,
    FontC,
}

#[derive(Debug, Clone, Copy, PartialEq, Eq)]
pub enum Justification {
    Left,
    Center,
    Right,
}

/// The mathematical model of an [`EscPosCommand`]: strings and byte buffers
/// are taken by their contents.
pub enum Command {
    Text(Seq<char>),
    NewLine,
    LineFeed,
    CarriageReturn,
    SetFont(Font),
    SetFontSize(u32),
    SetJustification(Justification),
    SetEmphasis(bool),
    SetUnderline(bool),
    SetItalic(bool),
    SetLineHeight(u32),
    CutPaper,
    PrintImage(Seq<u8>),
    PrintRasterImage { width_bytes: u16, height: u16, data: Seq<u8> },
    SetCodepage(u8),
    InitializePrinter,
    Unknown(Seq<u8>),
}

impl View for EscPosCommand {
    type V = Command;

    open spec fn view(&self) -> Command {
        match self {
            EscPosCommand::Text(s) => Command::Text(s@),
            EscPosCommand::NewLine => Command::NewLine,
            EscPosCommand::LineFeed => Command::LineFeed,
            EscPosCommand::CarriageReturn => Command::CarriageReturn,
            EscPosCommand::SetFont(f) => Command::SetFont(*f),
            EscPosCommand::SetFontSize(n) => Command::SetFontSize(*n),
            EscPosCommand::SetJustification(j) => Command::SetJustification(*j),
            EscPosCommand::SetEmphasis(b) => Command::SetEmphasis(*b),
            EscPosCommand::SetUnderline(b) => Command::SetUnderline(*b),
            EscPosCommand::SetItalic(b) => Command::SetItalic(*b),
            EscPosCommand::SetLineHeight(n) => Command::SetLineHeight(*n),
            EscPosCommand::CutPaper => Command::CutPaper,
            EscPosCommand::PrintImage(d) => Command::PrintImage(d@),
            EscPosCommand::PrintRasterImage { width_bytes, height, data } => Command::PrintRasterImage {
                width_bytes: *width_bytes,
                height: *height,
                data: data@,
            },
            EscPosCommand::SetCodepage(n) => Command::SetCodepage(*n),
            EscPosCommand::InitializePrinter => Command::InitializePrinter,
            EscPosCommand::Unknown(d) => Command::Unknown(d@),
        }
    }
}

/// The models of a sequence of commands, in order.
pub open spec fn command_views(commands: Seq<EscPosCommand>) -> Seq<Command> {
    commands.map_values(|c: EscPosCommand| c@)
}

} // verus!
