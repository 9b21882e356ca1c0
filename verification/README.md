# escpos_emulator

A verified ESC/POS printer-emulator library. Printers receive a byte stream
of text and commands; the library decodes it, keeping incomplete commands
until their bytes arrive.

- `src/escpos/codepage.rs` — text bytes to characters in the codepage that
  `ESC t n` selects.
- `src/escpos/commands.rs` — the commands and their mathematical model.
- `src/escpos/parser.rs` — the streaming parser: a specification of the
  command grammar (`step`, `parse_all`) and `EscPosParser::parse_stream`,
  proved to follow it.
- `src/escpos/stream_laws.rs` — properties of the grammar: splitting the
  stream at a command boundary does not change what is parsed, the leftover
  bytes are always an unfinished ESC or GS command, any chunking gives the
  same commands once adjacent text commands are joined, and more.
- `src/escpos/qr.rs` — QR printing: the `qrcode` crate chooses the symbol;
  packing it into a 1-bit bitmap is verified here.
- `src/gui/` — the logic of the command log and settings panels: which
  entries are listed, the text of each line (including the `Debug` form of
  commands that the filter searches), the printer scripts.
- `app/` — the egui panels, running the printer scripts, and serde forms of
  the commands.
