//! Streaming ESC/POS parser.
//!
//! Bytes arrive in chunks of any size. The parser keeps a buffer: each call
//! of [`EscPosParser::parse_stream`] appends the new bytes, decodes every
//! complete command at the front of the buffer, and keeps an incomplete
//! trailing command (one whose parameters have not all arrived) for the next
//! call.

use vstd::prelude::*;
use crate::escpos::codepage::{decode, decoded};
use crate::escpos::commands::{command_views, Command, EscPosCommand, Font, Justification};
use crate::escpos::qr::{ec_level_from_byte, ec_level_of, render_qr, rendered_qr};

verus! {

/// Line feed: ends the current line.
pub const LF: u8 = 0x0A;

/// Carriage return.
pub const CR: u8 = 0x0D;

/// Escape: starts an `ESC` command.
pub const ESC: u8 = 0x1B;

/// Group separator: starts a `GS` command.
pub const GS: u8 = 0x1D;

/// `cn` of `GS ( k` for QR codes.
pub const QR_SYMBOL: u8 = 0x31;

/// The settings a parser carries from one command to the next.
pub struct ParseState {
    /// Codepage of text bytes, selected by `ESC t n`.
    pub codepage: u8,
    /// QR module size in dots, set by `GS ( k` fn 67.
    pub qr_module_size: u8,
    /// QR error-correction byte, set by `GS ( k` fn 69.
    pub qr_ec_byte: u8,
    /// QR data stored by `GS ( k` fn 80 and printed by fn 81.
    pub qr_data: Seq<u8>,
}

/// The model of an [`EscPosParser`]: the bytes waiting for the rest of
/// their command, and the settings.
pub struct ParserModel {
    pub buffer: Seq<u8>,
    pub state: ParseState,
}

/// The settings of a new parser: codepage 0 (CP437), QR module size 3,
/// error-correction byte 49 (level M), no stored QR data.
pub open spec fn initial_state() -> ParseState {
    ParseState { codepage: 0, qr_module_size: 3, qr_ec_byte: 49, qr_data: Seq::empty() }
}

/// Bytes that end a run of text.
pub open spec fn is_control(b: u8) -> bool {
    b == ESC || b == GS || b == LF || b == CR
}

/// Length of the run of text bytes at the front of `d`.
pub open spec fn text_run_len(d: Seq<u8>) -> nat
    decreases d.len(),
{
    if d.len() == 0 || is_control(d[0]) {
        0
    } else {
        1 + text_run_len(d.drop_first())
    }
}

/// `ESC M n`: font selection; unknown values select font A.
pub open spec fn font_of(n: u8) -> Font {
    if n == 1 {
        Font::FontB
    } else if n == 2 {
        Font::FontC
    } else {
        Font::FontA
    }
}

/// `ESC a n`: justification; unknown values select left.
pub open spec fn justification_of(n: u8) -> Justification {
    if n == 1 {
        Justification::Center
    } else if n == 2 {
        Justification::Right
    } else {
        Justification::Left
    }
}

/// The `ESC` command at the front of `d` (where `d[0]` is `ESC`) and its
/// length in bytes, or `None` while its bytes have not all arrived.
pub open spec fn esc_command(d: Seq<u8>) -> Option<(Command, nat)> {
    if d.len() < 2 {
        None
    } else {
        let c = d[1];
        if c == '@' as u8 {
            Some((Command::InitializePrinter, 2))
        } else if c == 'E' as u8 {
            Some((Command::SetEmphasis(true), 2))
        } else if c == 'F' as u8 {
            Some((Command::SetEmphasis(false), 2))
        } else if c == '4' as u8 {
            Some((Command::SetItalic(true), 2))
        } else if c == '5' as u8 {
            Some((Command::SetItalic(false), 2))
        } else if c == 'm' as u8 || c == 'i' as u8 {
            Some((Command::CutPaper, 2))
        } else if c == 'M' as u8 || c == 'a' as u8 || c == '-' as u8 || c == '3' as u8 || c == '!' as u8 || c == 't' as u8 || c
            == 'J' as u8 {
            if d.len() < 3 {
                None
            } else {
                let n = d[2];
                let command = if c == 'M' as u8 {
                    Command::SetFont(font_of(n))
                } else if c == 'a' as u8 {
                    Command::SetJustification(justification_of(n))
                } else if c == '-' as u8 {
                    Command::SetUnderline(n != 0)
                } else if c == '3' as u8 {
                    Command::SetLineHeight(n as u32)
                } else if c == '!' as u8 {
                    Command::SetFontSize(n as u32)
                } else if c == 't' as u8 {
                    Command::SetCodepage(n)
                } else {
                    Command::LineFeed
                };
                Some((command, 3))
            }
        } else if c == '*' as u8 {
            // ESC * m nL nH d1..dk: bit image of nL + 256 nH columns,
            // three bytes a column in the 24-dot modes 32 and 33.
            if d.len() < 5 {
                None
            } else {
                let columns = d[3] + 256 * d[4];
                let image_len = if d[2] == 32 || d[2] == 33 {
                    3 * columns
                } else {
                    columns
                };
                let end = 5 + image_len;
                if d.len() < end {
                    None
                } else {
                    Some((Command::PrintImage(d.subrange(5, end)), end as nat))
                }
            }
        } else {
            Some((Command::Unknown(d.take(2)), 2))
        }
    }
}

/// `GS ( k` fn 67 clamps the module size into `1..=16`.
pub open spec fn clamp_module_size(n: u8) -> u8 {
    if n < 1 {
        1
    } else if n > 16 {
        16
    } else {
        n
    }
}

/// A QR function (`GS ( k` with `cn = 0x31`): what it prints and the
/// settings after it.
pub open spec fn qr_function(st: ParseState, fn_code: u8, params: Seq<u8>) -> (Option<Command>, ParseState) {
    if fn_code == 67 {
        if params.len() > 0 {
            (None, ParseState { qr_module_size: clamp_module_size(params[0]), ..st })
        } else {
            (None, st)
        }
    } else if fn_code == 69 {
        if params.len() > 0 {
            (None, ParseState { qr_ec_byte: params[0], ..st })
        } else {
            (None, st)
        }
    } else if fn_code == 80 {
        if params.len() > 0 {
            (None, ParseState { qr_data: params.drop_first(), ..st })
        } else {
            (None, st)
        }
    } else if fn_code == 81 {
        let printed = if st.qr_data.len() == 0 {
            None
        } else {
            match rendered_qr(st.qr_data, st.qr_module_size, ec_level_of(st.qr_ec_byte)) {
                Some((width_bytes, height, data)) => Some(
                    Command::PrintRasterImage {
                        width_bytes: width_bytes as u16,
                        height: height as u16,
                        data,
                    },
                ),
                None => None,
            }
        };
        (printed, ParseState { qr_data: Seq::empty(), ..st })
    } else {
        (None, st)
    }
}

/// `GS ( ...` at the front of `d`: what it prints, its length, and the
/// settings after it; `None` while its bytes have not all arrived.
pub open spec fn gs_paren(st: ParseState, d: Seq<u8>) -> Option<(Option<Command>, nat, ParseState)> {
    if d.len() < 5 {
        None
    } else if d[2] != 'k' as u8 {
        Some((Some(Command::Unknown(d.take(3))), 3, st))
    } else {
        let total = 5 + d[3] + 256 * d[4];
        if d.len() < total {
            None
        } else if total < 7 || d[5] != QR_SYMBOL {
            Some((Some(Command::Unknown(d.take(total))), total as nat, st))
        } else {
            let (printed, next) = qr_function(st, d[6], d.subrange(7, total));
            Some((printed, total as nat, next))
        }
    }
}

/// The `GS` command at the front of `d` (where `d[0]` is `GS`): what it
/// prints, its length, and the settings after it; `None` while its bytes
/// have not all arrived.
pub open spec fn gs_command(st: ParseState, d: Seq<u8>) -> Option<(Option<Command>, nat, ParseState)> {
    if d.len() < 2 {
        None
    } else {
        let c = d[1];
        if c == 'v' as u8 {
            // GS v 0 m xL xH yL yH d1..dk: raster image, (xL + 256 xH)
            // bytes a row, yL + 256 yH rows.
            if d.len() < 8 {
                None
            } else {
                let width_bytes = d[4] + 256 * d[5];
                let height = d[6] + 256 * d[7];
                let end = 8 + width_bytes * height;
                if d.len() < end {
                    None
                } else {
                    Some(
                        (
                            Some(
                                Command::PrintRasterImage {
                                    width_bytes: width_bytes as u16,
                                    height: height as u16,
                                    data: d.subrange(8, end),
                                },
                            ),
                            end as nat,
                            st,
                        ),
                    )
                }
            }
        } else if c == 'V' as u8 {
            if d.len() < 3 {
                None
            } else if d[2] == 65 || d[2] == 66 {
                if d.len() < 4 {
                    None
                } else {
                    Some((Some(Command::CutPaper), 4, st))
                }
            } else {
                Some((Some(Command::CutPaper), 3, st))
            }
        } else if c == '(' as u8 {
            gs_paren(st, d)
        } else {
            Some((Some(Command::Unknown(d.take(2))), 2, st))
        }
    }
}

/// One step of parsing the non-empty bytes `d`.
pub enum Step {
    /// The command at the front has not fully arrived.
    Wait,
    /// The first `consumed` bytes form one command, which prints
    /// `command` (if any) and leaves the settings `next`.
    Emit { command: Option<Command>, consumed: nat, next: ParseState },
}

/// The command at the front of the non-empty bytes `d`.
pub open spec fn step(st: ParseState, d: Seq<u8>) -> Step {
    let b = d[0];
    if b == LF {
        Step::Emit { command: Some(Command::NewLine), consumed: 1, next: st }
    } else if b == CR {
        Step::Emit { command: Some(Command::CarriageReturn), consumed: 1, next: st }
    } else if b == ESC {
        match esc_command(d) {
            Some((command, consumed)) => Step::Emit {
                command: Some(command),
                consumed,
                next: match command {
                    Command::SetCodepage(cp) => ParseState { codepage: cp, ..st },
                    _ => st,
                },
            },
            None => Step::Wait,
        }
    } else if b == GS {
        match gs_command(st, d) {
            Some((command, consumed, next)) => Step::Emit { command, consumed, next },
            None => Step::Wait,
        }
    } else {
        let n = text_run_len(d);
        Step::Emit {
            command: Some(Command::Text(decoded(st.codepage, d.take(n as int)))),
            consumed: n,
            next: st,
        }
    }
}

/// What parsing a byte string gives: the commands, in order, how many
/// bytes they took, and the settings after them.
pub struct Parsed {
    pub commands: Seq<Command>,
    pub consumed: nat,
    pub state: ParseState,
}

/// The commands a step prints: none or one.
pub open spec fn optional(command: Option<Command>) -> Seq<Command> {
    match command {
        Some(c) => seq![c],
        None => Seq::empty(),
    }
}

/// Parses commands from the front of `d` until the bytes run out or a
/// command has not fully arrived.
pub open spec fn parse_all(st: ParseState, d: Seq<u8>) -> Parsed
    decreases d.len(),
{
    if d.len() == 0 {
        Parsed { commands: Seq::empty(), consumed: 0, state: st }
    } else {
        match step(st, d) {
            Step::Wait => Parsed { commands: Seq::empty(), consumed: 0, state: st },
            Step::Emit { command, consumed, next } => if 0 < consumed <= d.len() {
                let rest = parse_all(next, d.skip(consumed as int));
                Parsed {
                    commands: optional(command) + rest.commands,
                    consumed: consumed + rest.consumed,
                    state: rest.state,
                }
            } else {
                Parsed { commands: Seq::empty(), consumed: 0, state: st }
            },
        }
    }
}

/// The model of a parsed command and its length.
pub open spec fn emitted(res: Option<(EscPosCommand, usize)>) -> Option<(Command, nat)> {
    match res {
        Some((c, n)) => Some((c@, n as nat)),
        None => None,
    }
}

/// The model of a command that may be absent.
pub open spec fn optional_view(command: Option<EscPosCommand>) -> Option<Command> {
    match command {
        Some(c) => Some(c@),
        None => None,
    }
}

/// A run of `n` text bytes that ends at the end of `d` or at a control byte
/// is the run of text at the front of `d`.
pub proof fn lemma_text_run_len(d: Seq<u8>, n: nat)
    requires
        n <= d.len(),
        forall|k: int| 0 <= k < n ==> !is_control(#[trigger] d[k]),
        n == d.len() || is_control(d[n as int]),
    ensures
        text_run_len(d) == n,
    decreases n,
{
    if n > 0 {
        assert forall|k: int| 0 <= k < n - 1 implies !is_control(#[trigger] d.drop_first()[k]) by {
            assert(d.drop_first()[k] == d[k + 1]);
        }
        lemma_text_run_len(d.drop_first(), (n - 1) as nat);
    }
}

proof fn lemma_text_run_len_bound(d: Seq<u8>)
    ensures
        text_run_len(d) <= d.len(),
    decreases d.len(),
{
    if d.len() > 0 && !is_control(d[0]) {
        lemma_text_run_len_bound(d.drop_first());
    }
}

/// Every command that has arrived takes at least one byte, and no more than
/// there are.
pub proof fn lemma_step_progress(st: ParseState, d: Seq<u8>)
    requires
        d.len() >= 1,
    ensures
        step(st, d) matches Step::Emit { consumed, .. } ==> 0 < consumed <= d.len(),
{
    lemma_text_run_len_bound(d);
}

/// A streaming ESC/POS parser: the bytes of an unfinished command and the
/// settings that earlier commands selected.
pub struct EscPosParser {
    buffer: Vec<u8>,
    codepage: u8,
    qr_module_size: u8,
    qr_ec_byte: u8,
    qr_data: Vec<u8>,
}

impl View for EscPosParser {
    type V = ParserModel;

    closed spec fn view(&self) -> ParserModel {
        ParserModel {
            buffer: self.buffer@,
            state: ParseState {
                codepage: self.codepage,
                qr_module_size: self.qr_module_size,
                qr_ec_byte: self.qr_ec_byte,
                qr_data: self.qr_data@,
            },
        }
    }
}

impl EscPosParser {
    /// A parser with an empty buffer and the initial settings.
    pub fn new() -> (parser: Self)
        ensures
            parser@.buffer == Seq::<u8>::empty(),
            parser@.state == initial_state(),
            parser@.state.codepage == 0,
            parser@.state.qr_module_size == 3,
            parser@.state.qr_ec_byte == 49,
            parser@.state.qr_data == Seq::<u8>::empty(),
    {
        Self { buffer: Vec::new(), codepage: 0, qr_module_size: 3, qr_ec_byte: 49, qr_data: Vec::new() }
    }

    /// Appends `data` to the buffered bytes and parses every complete
    /// command at the front; an incomplete trailing command stays buffered
    /// for the next call.
    pub fn parse_stream(&mut self, data: &[u8]) -> (commands: Vec<EscPosCommand>)
        ensures
            ({
                let parsed = parse_all(old(self)@.state, old(self)@.buffer + data@);
                &&& command_views(commands@) == parsed.commands
                &&& final(self)@.buffer == (old(self)@.buffer + data@).skip(parsed.consumed as int)
                &&& final(self)@.state == parsed.state
            }),
    {
        let ghost start = self@.state;
        let mut buffer: Vec<u8> = Vec::new();
        std::mem::swap(&mut buffer, &mut self.buffer);
        let mut k: usize = 0;
        while k < data.len()
            invariant
                k <= data@.len(),
                buffer@ == old(self)@.buffer + data@.take(k as int),
                self@.state == start,
            decreases data@.len() - k,
        {
            buffer.push(data[k]);
            proof {
                assert(data@.take(k + 1) =~= data@.take(k as int).push(data@[k as int]));
            }
            k = k + 1;
        }
        proof {
            assert(data@.take(data@.len() as int) =~= data@);
        }
        let ghost full = buffer@;
        let len = buffer.len();
        let mut commands: Vec<EscPosCommand> = Vec::new();
        let mut i: usize = 0;
        proof {
            assert(full.skip(0) =~= full);
            assert(command_views(commands@) + parse_all(start, full).commands =~= parse_all(
                start,
                full,
            ).commands);
        }
        loop
            invariant
                full == buffer@,
                len == full.len(),
                i <= len,
                parse_all(start, full).commands =~= command_views(commands@) + parse_all(
                    self@.state,
                    full.skip(i as int),
                ).commands,
                parse_all(start, full).consumed == i + parse_all(
                    self@.state,
                    full.skip(i as int),
                ).consumed,
                parse_all(start, full).state == parse_all(self@.state, full.skip(i as int)).state,
            ensures
                full == buffer@,
                i <= len,
                parse_all(start, full).commands =~= command_views(commands@),
                parse_all(start, full).consumed == i,
                parse_all(start, full).state == self@.state,
            decreases len - i,
        {
            if i >= len {
                assert(full.skip(i as int).len() == 0);
                break;
            }
            let ghost before = self@.state;
            let ghost rest = full.skip(i as int);
            let result = {
                let bytes = buffer.as_slice();
                let d = &bytes[i..len];
                assert(d@ =~= rest);
                self.parse_step(d)
            };
            match result {
                None => {
                    break;
                },
                Some((command, consumed)) => {
                    proof {
                        lemma_step_progress(before, rest);
                        assert(rest.skip(consumed as int) =~= full.skip(i + consumed));
                        assert(command_views(commands@) + optional(optional_view(command))
                            =~= command_views(
                            match command {
                                Some(c) => commands@.push(c),
                                None => commands@,
                            },
                        ));
                    }
                    if let Some(c) = command {
                        commands.push(c);
                    }
                    i = i + consumed;
                },
            }
        }
        self.buffer = buffer.split_off(i);
        commands
    }

    /// Parses the command at the front of `data`: what it prints and how
    /// many bytes it takes, or `None` while it has not fully arrived.
    fn parse_step(&mut self, data: &[u8]) -> (res: Option<(Option<EscPosCommand>, usize)>)
        requires
            data@.len() >= 1,
        ensures
            final(self)@.buffer == old(self)@.buffer,
            match step(old(self)@.state, data@) {
                Step::Emit { command, consumed, next } => {
                    &&& res matches Some((c, n))
                    &&& optional_view(c) == command
                    &&& n == consumed
                    &&& final(self)@.state == next
                },
                Step::Wait => res is None && final(self)@.state == old(self)@.state,
            },
    {
        let b = data[0];
        if b == LF {
            Some((Some(EscPosCommand::NewLine), 1))
        } else if b == CR {
            Some((Some(EscPosCommand::CarriageReturn), 1))
        } else if b == ESC {
            match self.parse_esc_command(data) {
                Some((command, consumed)) => {
                    if let EscPosCommand::SetCodepage(cp) = command {
                        self.codepage = cp;
                    }
                    Some((Some(command), consumed))
                },
                None => None,
            }
        } else if b == GS {
            self.parse_gs_command(data)
        } else {
            // Normal text bytes
            let mut end: usize = 1;
            while end < data.len() && data[end] != ESC && data[end] != GS && data[end] != LF
                && data[end] != CR
                invariant
                    1 <= end <= data@.len(),
                    forall|k: int| 0 <= k < end ==> !is_control(#[trigger] data@[k]),
                decreases data@.len() - end,
            {
                end = end + 1;
            }
            proof {
                lemma_text_run_len(data@, end as nat);
            }
            let text = decode(self.codepage, &data[0..end]);
            proof {
                assert(data@.subrange(0, end as int) =~= data@.take(end as int));
            }
            Some((Some(EscPosCommand::Text(text)), end))
        }
    }

    /// Parse ESC (0x1B) commands. Returns (command, bytes_consumed).
    fn parse_esc_command(&self, data: &[u8]) -> (res: Option<(EscPosCommand, usize)>)
        requires
            data@.len() >= 1,
        ensures
            emitted(res) == esc_command(data@),
    {
        if data.len() < 2 {
            return None;
        }
        let c = data[1];
        if c == '@' as u8 {
            Some((EscPosCommand::InitializePrinter, 2))
        } else if c == 'E' as u8 {
            Some((EscPosCommand::SetEmphasis(true), 2))
        } else if c == 'F' as u8 {
            Some((EscPosCommand::SetEmphasis(false), 2))
        } else if c == '4' as u8 {
            Some((EscPosCommand::SetItalic(true), 2))
        } else if c == '5' as u8 {
            Some((EscPosCommand::SetItalic(false), 2))
        } else if c == 'm' as u8 || c == 'i' as u8 {
            Some((EscPosCommand::CutPaper, 2))
        } else if c == 'M' as u8 || c == 'a' as u8 || c == '-' as u8 || c == '3' as u8 || c == '!' as u8 || c == 't' as u8 || c
            == 'J' as u8 {
            if data.len() < 3 {
                return None;
            }
            let n = data[2];
            let command = if c == 'M' as u8 {
                EscPosCommand::SetFont(
                    match n {
                        1 => Font::FontB,
                        2 => Font::FontC,
                        _ => Font::FontA,
                    },
                )
            } else if c == 'a' as u8 {
                EscPosCommand::SetJustification(
                    match n {
                        1 => Justification::Center,
                        2 => Justification::Right,
                        _ => Justification::Left,
                    },
                )
            } else if c == '-' as u8 {
                EscPosCommand::SetUnderline(n != 0)
            } else if c == '3' as u8 {
                EscPosCommand::SetLineHeight(n as u32)
            } else if c == '!' as u8 {
                EscPosCommand::SetFontSize(n as u32)
            } else if c == 't' as u8 {
                EscPosCommand::SetCodepage(n)
            } else {
                EscPosCommand::LineFeed
            };
            Some((command, 3))
        } else if c == '*' as u8 {
            if data.len() < 5 {
                return None;
            }
            let columns: usize = data[3] as usize + 256 * data[4] as usize;
            let image_len: usize = if data[2] == 32 || data[2] == 33 {
                3 * columns
            } else {
                columns
            };
            let end: usize = 5 + image_len;
            if data.len() < end {
                return None;
            }
            let image = vstd::slice::slice_to_vec(&data[5..end]);
            Some((EscPosCommand::PrintImage(image), end))
        } else {
            Some((EscPosCommand::Unknown(vstd::slice::slice_to_vec(&data[0..2])), 2))
        }
    }

    /// Parse GS (0x1D) commands. Returns (optional command, bytes_consumed).
    /// Some subcommands (e.g. QR state setters) only mutate parser state and
    /// do not emit a command — those return `(None, consumed)`.
    fn parse_gs_command(&mut self, data: &[u8]) -> (res: Option<(Option<EscPosCommand>, usize)>)
        requires
            data@.len() >= 1,
        ensures
            final(self)@.buffer == old(self)@.buffer,
            match gs_command(old(self)@.state, data@) {
                Some((command, consumed, next)) => {
                    &&& res matches Some((c, n))
                    &&& optional_view(c) == command
                    &&& n == consumed
                    &&& final(self)@.state == next
                },
                None => res is None && final(self)@.state == old(self)@.state,
            },
    {
        if data.len() < 2 {
            return None;
        }
        let c = data[1];
        if c == 'v' as u8 {
            // GS v 0 m xL xH yL yH d1...dk
            if data.len() < 8 {
                return None;
            }
            let width_bytes: u16 = data[4] as u16 + 256 * data[5] as u16;
            let height: u16 = data[6] as u16 + 256 * data[7] as u16;
            assert(width_bytes * height <= 65535 * 65535) by (nonlinear_arith)
                requires
                    width_bytes <= 65535,
                    height <= 65535,
            ;
            let end: usize = 8 + width_bytes as usize * height as usize;
            if data.len() < end {
                return None;
            }
            let image = vstd::slice::slice_to_vec(&data[8..end]);
            Some((Some(EscPosCommand::PrintRasterImage { width_bytes, height, data: image }), end))
        } else if c == 'V' as u8 {
            // GS V m [n]: cut paper
            if data.len() < 3 {
                return None;
            }
            if data[2] == 65 || data[2] == 66 {
                if data.len() < 4 {
                    return None;
                }
                Some((Some(EscPosCommand::CutPaper), 4))
            } else {
                Some((Some(EscPosCommand::CutPaper), 3))
            }
        } else if c == '(' as u8 {
            self.parse_gs_paren(data)
        } else {
            Some((Some(EscPosCommand::Unknown(vstd::slice::slice_to_vec(&data[0..2]))), 2))
        }
    }

    /// Parse `GS ( k pL pH cn fn [parameters...]`.
    ///
    /// Total command length is `5 + (pL + pH*256)` bytes. Only `cn = 0x31`
    /// (QR code) is handled; other symbologies are consumed (so the byte
    /// stream stays aligned) and reported as `Unknown`.
    fn parse_gs_paren(&mut self, data: &[u8]) -> (res: Option<(Option<EscPosCommand>, usize)>)
        requires
            data@.len() >= 2,
        ensures
            final(self)@.buffer == old(self)@.buffer,
            match gs_paren(old(self)@.state, data@) {
                Some((command, consumed, next)) => {
                    &&& res matches Some((c, n))
                    &&& optional_view(c) == command
                    &&& n == consumed
                    &&& final(self)@.state == next
                },
                None => res is None && final(self)@.state == old(self)@.state,
            },
    {
        if data.len() < 5 {
            return None;
        }
        if data[2] != 'k' as u8 {
            // GS ( <other> — not 2D symbol. Skip the bytes we recognized.
            return Some((Some(EscPosCommand::Unknown(vstd::slice::slice_to_vec(&data[0..3]))), 3));
        }
        let total: usize = 5 + data[3] as usize + 256 * data[4] as usize;
        if data.len() < total {
            return None;
        }
        if total < 7 || data[5] != QR_SYMBOL {
            // Malformed (no room for cn and fn), or not a QR code (e.g.
            // PDF417 cn=0x30, AZTEC cn=0x35): consume and skip.
            return Some((Some(EscPosCommand::Unknown(vstd::slice::slice_to_vec(&data[0..total]))), total));
        }
        let fn_code = data[6];
        let params = &data[7..total];
        let printed = if fn_code == 67 {
            // fn=67 — set module size (params: n, 1..=16)
            if params.len() > 0 {
                let n = params[0];
                self.qr_module_size = if n < 1 {
                    1
                } else if n > 16 {
                    16
                } else {
                    n
                };
            }
            None
        } else if fn_code == 69 {
            // fn=69 — set error-correction level (params: n, 48..=51 ⇒ L/M/Q/H)
            if params.len() > 0 {
                self.qr_ec_byte = params[0];
            }
            None
        } else if fn_code == 80 {
            // fn=80 — store data in symbol storage area (params: m d1..dk, m=48)
            if params.len() > 0 {
                self.qr_data = vstd::slice::slice_to_vec(&params[1..params.len()]);
            }
            None
        } else if fn_code == 81 {
            // fn=81 — print the stored symbol (params: m, m=48). Render now.
            let printed = if self.qr_data.len() == 0 {
                None
            } else {
                let ec_level = ec_level_from_byte(self.qr_ec_byte);
                match render_qr(self.qr_data.as_slice(), self.qr_module_size, ec_level) {
                    Some((width_bytes, height, data)) => Some(
                        EscPosCommand::PrintRasterImage { width_bytes, height, data },
                    ),
                    None => None,
                }
            };
            self.qr_data.clear();
            printed
        } else {
            // fn=65 (select model), fn=82 (transmit size information) and
            // the rest are consumed silently.
            None
        };
        proof {
            assert(params@ == data@.subrange(7, total as int));
            assert(params@.drop_first() =~= params@.subrange(1, params@.len() as int));
        }
        Some((printed, total))
    }
}

impl Default for EscPosParser {
    fn default() -> (parser: Self)
        ensures
            parser@.buffer == Seq::<u8>::empty(),
            parser@.state == initial_state(),
            parser@.state.codepage == 0,
            parser@.state.qr_module_size == 3,
            parser@.state.qr_ec_byte == 49,
            parser@.state.qr_data == Seq::<u8>::empty(),
    {
        Self::new()
    }
}

impl Clone for EscPosParser {
    fn clone(&self) -> (copy: Self)
        ensures
            copy@ == self@,
    {
        Self {
            buffer: self.buffer.clone(),
            codepage: self.codepage,
            qr_module_size: self.qr_module_size,
            qr_ec_byte: self.qr_ec_byte,
            qr_data: self.qr_data.clone(),
        }
    }
}

} // verus!
