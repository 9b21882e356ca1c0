//! The command log panel: which received commands it lists, and the text of
//! each line. Drawing the panel is the GUI's part.

use vstd::prelude::*;
use crate::escpos::commands::{Command, EscPosCommand, Font, Justification};
use crate::gui::debug_form::{debug_form, debug_string};
use crate::gui::labels::{decimal, decimal_string, hex_dump, hex_string};

verus! {

/// What `str::to_lowercase` makes of a string.
pub uninterp spec fn lowercase(s: Seq<char>) -> Seq<char>;

/// Calls `str::to_lowercase`. Trusted: the result is the named
/// `lowercase(s)`; nothing more is stated of Unicode case mapping.
#[verifier::external_body]
fn to_lowercase(s: &str) -> (lower: String)
    ensures
        lower@ == lowercase(s@),
{
    s.to_lowercase()
}

/// Whether `needle` occurs in `haystack` as a run of consecutive characters.
pub open spec fn contains_chars(haystack: Seq<char>, needle: Seq<char>) -> bool {
    exists|i: int|
        0 <= i && i + needle.len() <= haystack.len() && #[trigger] haystack.subrange(
            i,
            i + needle.len(),
        ) == needle
}

/// Calls `str::contains` with a string pattern. Trusted: the result tells
/// whether `needle` occurs in `haystack` as consecutive characters.
#[verifier::external_body]
fn str_contains(haystack: &str, needle: &str) -> (found: bool)
    ensures
        found == contains_chars(haystack@, needle@),
{
    haystack.contains(needle)
}

/// The text the filter searches: a text command's own text, any other
/// command's `Debug` form.
pub open spec fn searchable_text(command: Command) -> Seq<char> {
    match command {
        Command::Text(text) => text,
        _ => debug_form(command),
    }
}

/// A command passes the filter when the filter is empty or occurs in the
/// command's searchable text, ignoring case.
pub open spec fn passes_filter(filter: Seq<char>, command: Command) -> bool {
    filter.len() == 0 || contains_chars(lowercase(searchable_text(command)), lowercase(filter))
}

/// The history entries shown, most recent first: the indices of the last
/// `limit` entries whose flag in `matching` is set.
pub open spec fn recent_matches(matching: Seq<bool>, limit: nat) -> Seq<usize>
    decreases matching.len(),
{
    if matching.len() == 0 || limit == 0 {
        Seq::empty()
    } else if matching.last() {
        seq![(matching.len() - 1) as usize] + recent_matches(matching.drop_last(), (limit - 1) as nat)
    } else {
        recent_matches(matching.drop_last(), limit)
    }
}

/// How many flags are set.
pub open spec fn count_set(flags: Seq<bool>) -> nat
    decreases flags.len(),
{
    if flags.len() == 0 {
        0
    } else {
        count_set(flags.drop_last()) + if flags.last() {
            1nat
        } else {
            0nat
        }
    }
}

pub open spec fn font_name(font: Font) -> Seq<char> {
    match font {
        Font::FontA => "FontA"@,
        Font::FontB => "FontB"@,
        Font::FontC => "FontC"@,
    }
}

pub open spec fn justification_name(justification: Justification) -> Seq<char> {
    match justification {
        Justification::Left => "Left"@,
        Justification::Center => "Center"@,
        Justification::Right => "Right"@,
    }
}

pub open spec fn on_off(enabled: bool) -> Seq<char> {
    if enabled {
        "ON"@
    } else {
        "OFF"@
    }
}

/// The log line of a command.
pub open spec fn command_label(command: Command) -> Seq<char> {
    match command {
        Command::Text(text) => "📝 "@ + text,
        Command::NewLine => "↵ New line"@,
        Command::SetFont(font) => "🔤 Font: "@ + font_name(font),
        Command::SetJustification(j) => "📐 Justification: "@ + justification_name(j),
        Command::SetEmphasis(on) => "💪 Emphasis: "@ + on_off(on),
        Command::SetUnderline(on) => "➖ Underline: "@ + on_off(on),
        Command::SetItalic(on) => "📝 Italic: "@ + on_off(on),
        Command::CutPaper => "✂️ Paper cut"@,
        Command::PrintImage(_) => "🖼️ Bit Image (ESC *)"@,
        Command::PrintRasterImage { width_bytes, height, .. } => "🖼️ Raster Image (GS v 0) "@
            + decimal((width_bytes * 8) as nat) + "×"@ + decimal(height as nat),
        Command::SetCodepage(cp) => "🌐 Codepage: "@ + decimal(cp as nat),
        Command::SetLineHeight(h) => "📏 Line height: "@ + decimal(h as nat),
        Command::SetFontSize(size) => "🔤 Font size: "@ + decimal(size as nat),
        Command::Unknown(_) => "❓ Unknown command"@,
        Command::LineFeed => "⚙️ LineFeed"@,
        Command::CarriageReturn => "⚙️ CarriageReturn"@,
        Command::InitializePrinter => "⚙️ InitializePrinter"@,
    }
}

/// The time since the epoch as the log shows it: seconds below a minute,
/// minutes and seconds below an hour, else hours and minutes.
pub open spec fn elapsed_text(secs: nat) -> Seq<char> {
    if secs < 60 {
        decimal(secs) + "s"@
    } else if secs < 3600 {
        decimal(secs / 60) + "m "@ + decimal(secs % 60) + "s"@
    } else {
        decimal(secs / 3600) + "h "@ + decimal((secs % 3600) / 60) + "m"@
    }
}

pub open spec fn timestamp_label(secs: nat) -> Seq<char> {
    "⏰ "@ + elapsed_text(secs)
}

pub open spec fn raw_data_label(raw: Seq<u8>) -> Seq<char> {
    "🔢 Data: "@ + hex_dump(raw)
}

/// Raster labels give the pixel width, `width_bytes * 8`, as a `u16`.
pub open spec fn label_fits(command: Command) -> bool {
    command matches Command::PrintRasterImage { width_bytes, .. } ==> width_bytes * 8 <= u16::MAX
}

pub open spec fn string_views(lines: Seq<String>) -> Seq<Seq<char>> {
    lines.map_values(|s: String| s@)
}

/// The model of a [`CommandLog`]'s settings.
pub struct CommandLogModel {
    pub show_timestamps: bool,
    pub show_raw_data: bool,
    pub max_display_lines: nat,
    pub filter_text: Seq<char>,
}

/// The lines of one log entry: its time (when shown and known), the command,
/// and its raw bytes (when shown and there are any).
pub open spec fn entry_labels(
    log: CommandLogModel,
    elapsed_secs: Option<u64>,
    command: Command,
    raw_data: Seq<u8>,
) -> Seq<Seq<char>> {
    (if log.show_timestamps && elapsed_secs is Some {
        seq![timestamp_label(elapsed_secs.unwrap() as nat)]
    } else {
        Seq::empty()
    }) + seq![command_label(command)] + (if log.show_raw_data && raw_data.len() > 0 {
        seq![raw_data_label(raw_data)]
    } else {
        Seq::empty()
    })
}

pub struct CommandLog {
    show_timestamps: bool,
    show_raw_data: bool,
    max_display_lines: usize,
    filter_text: String,
}

impl View for CommandLog {
    type V = CommandLogModel;

    closed spec fn view(&self) -> CommandLogModel {
        CommandLogModel {
            show_timestamps: self.show_timestamps,
            show_raw_data: self.show_raw_data,
            max_display_lines: self.max_display_lines as nat,
            filter_text: self.filter_text@,
        }
    }
}

impl Default for CommandLog {
    fn default() -> (log: Self)
        ensures
            log@.show_timestamps,
            !log@.show_raw_data,
            log@.max_display_lines == 1000,
            log@.filter_text == Seq::<char>::empty(),
    {
        Self { show_timestamps: true, show_raw_data: false, max_display_lines: 1000, filter_text: String::new() }
    }
}

fn font_str(font: Font) -> (s: &'static str)
    ensures
        s@ == font_name(font),
{
    match font {
        Font::FontA => "FontA",
        Font::FontB => "FontB",
        Font::FontC => "FontC",
    }
}

fn justification_str(justification: Justification) -> (s: &'static str)
    ensures
        s@ == justification_name(justification),
{
    match justification {
        Justification::Left => "Left",
        Justification::Center => "Center",
        Justification::Right => "Right",
    }
}

fn on_off_str(enabled: bool) -> (s: &'static str)
    ensures
        s@ == on_off(enabled),
{
    if enabled {
        "ON"
    } else {
        "OFF"
    }
}

/// `prefix` followed by `rest`.
fn joined(prefix: &str, rest: &str) -> (s: String)
    ensures
        s@ == prefix@ + rest@,
{
    let mut s = String::from_str(prefix);
    s.append(rest);
    s
}

/// The log line of a command.
pub fn command_text(command: &EscPosCommand) -> (text: String)
    requires
        label_fits(command@),
    ensures
        text@ == command_label(command@),
{
    match command {
        EscPosCommand::Text(text) => joined("📝 ", text.as_str()),
        EscPosCommand::NewLine => String::from_str("↵ New line"),
        EscPosCommand::SetFont(font) => joined("🔤 Font: ", font_str(*font)),
        EscPosCommand::SetJustification(j) => joined("📐 Justification: ", justification_str(*j)),
        EscPosCommand::SetEmphasis(on) => joined("💪 Emphasis: ", on_off_str(*on)),
        EscPosCommand::SetUnderline(on) => joined("➖ Underline: ", on_off_str(*on)),
        EscPosCommand::SetItalic(on) => joined("📝 Italic: ", on_off_str(*on)),
        EscPosCommand::CutPaper => String::from_str("✂️ Paper cut"),
        EscPosCommand::PrintImage(_) => String::from_str("🖼️ Bit Image (ESC *)"),
        EscPosCommand::PrintRasterImage { width_bytes, height, .. } => {
            let mut s = String::from_str("🖼️ Raster Image (GS v 0) ");
            s.append(decimal_string((*width_bytes * 8) as u64).as_str());
            s.append("×");
            s.append(decimal_string(*height as u64).as_str());
            s
        },
        EscPosCommand::SetCodepage(cp) => joined("🌐 Codepage: ", decimal_string(*cp as u64).as_str()),
        EscPosCommand::SetLineHeight(h) => joined(
            "📏 Line height: ",
            decimal_string(*h as u64).as_str(),
        ),
        EscPosCommand::SetFontSize(size) => joined(
            "🔤 Font size: ",
            decimal_string(*size as u64).as_str(),
        ),
        EscPosCommand::Unknown(_) => String::from_str("❓ Unknown command"),
        EscPosCommand::LineFeed => String::from_str("⚙️ LineFeed"),
        EscPosCommand::CarriageReturn => String::from_str("⚙️ CarriageReturn"),
        EscPosCommand::InitializePrinter => String::from_str("⚙️ InitializePrinter"),
    }
}

/// The time since the epoch as the log shows it.
pub fn elapsed_string(secs: u64) -> (text: String)
    ensures
        text@ == elapsed_text(secs as nat),
{
    if secs < 60 {
        let mut s = decimal_string(secs);
        s.append("s");
        s
    } else if secs < 3600 {
        let mut s = decimal_string(secs / 60);
        s.append("m ");
        s.append(decimal_string(secs % 60).as_str());
        s.append("s");
        s
    } else {
        let mut s = decimal_string(secs / 3600);
        s.append("h ");
        s.append(decimal_string((secs % 3600) / 60).as_str());
        s.append("m");
        s
    }
}

impl CommandLog {
    pub fn new() -> (log: Self)
        ensures
            log@.show_timestamps,
            !log@.show_raw_data,
            log@.max_display_lines == 1000,
            log@.filter_text == Seq::<char>::empty(),
    {
        Self::default()
    }

    pub fn show_timestamps(&self) -> (shown: bool)
        ensures
            shown == self@.show_timestamps,
    {
        self.show_timestamps
    }

    pub fn set_show_timestamps(&mut self, shown: bool)
        ensures
            final(self)@ == (CommandLogModel { show_timestamps: shown, ..old(self)@ }),
    {
        self.show_timestamps = shown;
    }

    pub fn show_raw_data(&self) -> (shown: bool)
        ensures
            shown == self@.show_raw_data,
    {
        self.show_raw_data
    }

    pub fn set_show_raw_data(&mut self, shown: bool)
        ensures
            final(self)@ == (CommandLogModel { show_raw_data: shown, ..old(self)@ }),
    {
        self.show_raw_data = shown;
    }

    pub fn filter_text(&self) -> (filter: &str)
        ensures
            filter@ == self@.filter_text,
    {
        self.filter_text.as_str()
    }

    pub fn set_filter_text(&mut self, filter: String)
        ensures
            final(self)@ == (CommandLogModel { filter_text: filter@, ..old(self)@ }),
    {
        self.filter_text = filter;
    }

    /// Whether a command passes the filter: the filter is empty, or it
    /// occurs, ignoring case, in the command's text (for a text command) or
    /// in its `Debug` form (for any other).
    pub fn passes_filter(&self, command: &EscPosCommand) -> (passes: bool)
        ensures
            passes == passes_filter(self@.filter_text, command@),
    {
        if self.filter_text.as_str().is_empty() {
            return true;
        }
        let needle = to_lowercase(self.filter_text.as_str());
        let haystack = match command {
            EscPosCommand::Text(text) => to_lowercase(text.as_str()),
            _ => {
                let debug = debug_string(command);
                to_lowercase(debug.as_str())
            },
        };
        str_contains(haystack.as_str(), needle.as_str())
    }

    /// Indices of the history entries to show, most recent first: of the
    /// entries whose flag in `matching` is set, the last
    /// `max_display_lines`.
    pub fn displayed_entries(&self, matching: &[bool]) -> (shown: Vec<usize>)
        ensures
            shown@ == recent_matches(matching@, self@.max_display_lines),
    {
        let limit = self.max_display_lines;
        let mut shown: Vec<usize> = Vec::new();
        let mut i: usize = matching.len();
        proof {
            assert(matching@.take(i as int) =~= matching@);
            assert(shown@ + recent_matches(matching@, limit as nat) =~= recent_matches(
                matching@,
                limit as nat,
            ));
        }
        while i > 0 && shown.len() < limit
            invariant
                limit == self@.max_display_lines,
                i <= matching@.len(),
                shown@.len() <= limit,
                recent_matches(matching@, limit as nat) =~= shown@ + recent_matches(
                    matching@.take(i as int),
                    (limit - shown@.len()) as nat,
                ),
            decreases i,
        {
            i = i - 1;
            let ghost before = matching@.take(i + 1);
            proof {
                assert(before.drop_last() =~= matching@.take(i as int));
                assert(before.last() == matching@[i as int]);
            }
            if matching[i] {
                shown.push(i);
            }
        }
        proof {
            assert(recent_matches(matching@.take(i as int), (limit - shown@.len()) as nat)
                =~= Seq::<usize>::empty());
        }
        shown
    }

    /// The lines of one log entry: the time since the epoch when timestamps
    /// are shown and it is known, the command, and the raw bytes when raw
    /// data is shown and there are any.
    pub fn entry_lines(&self, elapsed_secs: Option<u64>, command: &EscPosCommand, raw_data: &[u8]) -> (lines: Vec<String>)
        requires
            label_fits(command@),
        ensures
            string_views(lines@) == entry_labels(self@, elapsed_secs, command@, raw_data@),
    {
        let mut lines: Vec<String> = Vec::new();
        if self.show_timestamps {
            if let Some(secs) = elapsed_secs {
                lines.push(joined("⏰ ", elapsed_string(secs).as_str()));
            }
        }
        lines.push(command_text(command));
        if self.show_raw_data && raw_data.len() > 0 {
            lines.push(joined("🔢 Data: ", hex_string(raw_data).as_str()));
        }
        proof {
            assert(string_views(lines@) =~= entry_labels(self@, elapsed_secs, command@, raw_data@));
        }
        lines
    }
}

/// How many flags are set: the number of entries that pass the filter.
pub fn count_matching(matching: &[bool]) -> (count: usize)
    ensures
        count == count_set(matching@),
{
    let mut count: usize = 0;
    let mut i: usize = 0;
    while i < matching.len()
        invariant
            i <= matching@.len(),
            count == count_set(matching@.take(i as int)),
            count <= i,
        decreases matching@.len() - i,
    {
        proof {
            assert(matching@.take(i + 1).drop_last() =~= matching@.take(i as int));
        }
        if matching[i] {
            count = count + 1;
        }
        i = i + 1;
    }
    proof {
        assert(matching@.take(matching@.len() as int) =~= matching@);
    }
    count
}

/// The statistics line under the log.
pub fn statistics_text(total: usize, displayed: usize, filtered: usize) -> (text: String)
    ensures
        text@ == "Total: "@ + decimal(total as nat) + " commands | Displayed: "@ + decimal(
            displayed as nat,
        ) + " | Filtered: "@ + decimal(filtered as nat),
{
    let mut s = String::from_str("Total: ");
    s.append(decimal_string(total as u64).as_str());
    s.append(" commands | Displayed: ");
    s.append(decimal_string(displayed as u64).as_str());
    s.append(" | Filtered: ");
    s.append(decimal_string(filtered as u64).as_str());
    s
}

} // verus!
