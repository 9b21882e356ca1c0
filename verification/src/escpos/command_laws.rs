//! What each command's bytes mean, stated over whole streams: a command's
//! bytes, followed by anything, print the command and then parse the rest.
//! Each law gives the command's fields in terms of the bytes it was sent
//! as, following the ESC/POS command reference.

use vstd::prelude::*;
use crate::escpos::codepage::decoded;
use crate::escpos::commands::{Command, Font, Justification};
use crate::escpos::qr::{ec_level_of, rendered_qr, EcLevel};
use crate::escpos::parser::{
    is_control, optional, parse_all, step, text_run_len, lemma_text_run_len, ParseState, Step, CR,
    ESC, GS, LF,
};

verus! {

/// `prefix` is one whole command: parsing `prefix` followed by `rest`
/// prints `command` (if any), leaves the settings `next`, and goes on with
/// `rest` from there.
pub open spec fn one_command(
    st: ParseState,
    prefix: Seq<u8>,
    rest: Seq<u8>,
    command: Option<Command>,
    next: ParseState,
) -> bool {
    let whole = parse_all(st, prefix + rest);
    let after = parse_all(next, rest);
    &&& whole.commands == optional(command) + after.commands
    &&& whole.consumed == prefix.len() + after.consumed
    &&& whole.state == after.state
}

/// `d` is the start of a command whose bytes have not all arrived: nothing
/// is printed, taken or changed.
pub open spec fn waits(st: ParseState, d: Seq<u8>) -> bool {
    let parsed = parse_all(st, d);
    &&& parsed.commands.len() == 0
    &&& parsed.consumed == 0
    &&& parsed.state == st
}

proof fn lemma_one_command(
    st: ParseState,
    prefix: Seq<u8>,
    rest: Seq<u8>,
    command: Option<Command>,
    next: ParseState,
)
    requires
        prefix.len() > 0,
        step(st, prefix + rest) == (Step::Emit { command, consumed: prefix.len(), next }),
    ensures
        one_command(st, prefix, rest, command, next),
{
    let d = prefix + rest;
    assert(d.skip(prefix.len() as int) =~= rest);
}

proof fn lemma_waits(st: ParseState, d: Seq<u8>)
    requires
        d.len() > 0,
        step(st, d) is Wait,
    ensures
        waits(st, d),
{
}

/// LF prints a new line and CR a carriage return.
pub proof fn law_line_endings(st: ParseState, rest: Seq<u8>)
    ensures
        one_command(st, seq![LF], rest, Some(Command::NewLine), st),
        one_command(st, seq![CR], rest, Some(Command::CarriageReturn), st),
{
    assert((seq![LF] + rest)[0] == LF);
    lemma_one_command(st, seq![LF], rest, Some(Command::NewLine), st);
    assert((seq![CR] + rest)[0] == CR);
    lemma_one_command(st, seq![CR], rest, Some(Command::CarriageReturn), st);
}

proof fn lemma_esc_two(st: ParseState, c: u8, rest: Seq<u8>, command: Command)
    requires
        ({
            let d = seq![ESC, c] + rest;
            step(st, d) == (Step::Emit { command: Some(command), consumed: 2, next: st })
        }),
    ensures
        one_command(st, seq![ESC, c], rest, Some(command), st),
{
    lemma_one_command(st, seq![ESC, c], rest, Some(command), st);
}

/// The two-byte ESC commands: ESC @ initializes the printer, ESC E / ESC F
/// turn emphasis on / off, ESC 4 / ESC 5 turn italic on / off, and ESC m /
/// ESC i cut the paper.
pub proof fn law_esc_without_parameter(st: ParseState, rest: Seq<u8>)
    ensures
        one_command(st, seq![ESC, '@' as u8], rest, Some(Command::InitializePrinter), st),
        one_command(st, seq![ESC, 'E' as u8], rest, Some(Command::SetEmphasis(true)), st),
        one_command(st, seq![ESC, 'F' as u8], rest, Some(Command::SetEmphasis(false)), st),
        one_command(st, seq![ESC, '4' as u8], rest, Some(Command::SetItalic(true)), st),
        one_command(st, seq![ESC, '5' as u8], rest, Some(Command::SetItalic(false)), st),
        one_command(st, seq![ESC, 'm' as u8], rest, Some(Command::CutPaper), st),
        one_command(st, seq![ESC, 'i' as u8], rest, Some(Command::CutPaper), st),
{
    let cs = seq!['@' as u8, 'E' as u8, 'F' as u8, '4' as u8, '5' as u8, 'm' as u8, 'i' as u8];
    assert forall|k: int| 0 <= k < 7 implies {
        let d = seq![ESC, #[trigger] cs[k]] + rest;
        d.len() >= 2 && d[0] == ESC && d[1] == cs[k]
    } by {}
    lemma_esc_two(st, '@' as u8, rest, Command::InitializePrinter);
    lemma_esc_two(st, 'E' as u8, rest, Command::SetEmphasis(true));
    lemma_esc_two(st, 'F' as u8, rest, Command::SetEmphasis(false));
    lemma_esc_two(st, '4' as u8, rest, Command::SetItalic(true));
    lemma_esc_two(st, '5' as u8, rest, Command::SetItalic(false));
    lemma_esc_two(st, 'm' as u8, rest, Command::CutPaper);
    lemma_esc_two(st, 'i' as u8, rest, Command::CutPaper);
}

proof fn lemma_esc_three(st: ParseState, c: u8, n: u8, rest: Seq<u8>)
    ensures
        ({
            let d = seq![ESC, c, n] + rest;
            &&& d.len() >= 3
            &&& d[0] == ESC
            &&& d[1] == c
            &&& d[2] == n
        }),
{
    let d = seq![ESC, c, n] + rest;
    assert(d[0] == ESC && d[1] == c && d[2] == n);
}

/// ESC M n selects font B for n = 1, font C for n = 2, and font A for any
/// other n.
pub proof fn law_font_selection(st: ParseState, n: u8, rest: Seq<u8>)
    ensures
        n == 1 ==> one_command(st, seq![ESC, 'M' as u8, n], rest, Some(Command::SetFont(Font::FontB)), st),
        n == 2 ==> one_command(st, seq![ESC, 'M' as u8, n], rest, Some(Command::SetFont(Font::FontC)), st),
        n != 1 && n != 2 ==> one_command(
            st,
            seq![ESC, 'M' as u8, n],
            rest,
            Some(Command::SetFont(Font::FontA)),
            st,
        ),
{
    lemma_esc_three(st, 'M' as u8, n, rest);
    let font = if n == 1 {
        Font::FontB
    } else if n == 2 {
        Font::FontC
    } else {
        Font::FontA
    };
    lemma_one_command(st, seq![ESC, 'M' as u8, n], rest, Some(Command::SetFont(font)), st);
}

/// ESC a n selects left justification for n = 0, centered for n = 1, right
/// for n = 2, and left for any other n.
pub proof fn law_justification(st: ParseState, n: u8, rest: Seq<u8>)
    ensures
        n == 1 ==> one_command(
            st,
            seq![ESC, 'a' as u8, n],
            rest,
            Some(Command::SetJustification(Justification::Center)),
            st,
        ),
        n == 2 ==> one_command(
            st,
            seq![ESC, 'a' as u8, n],
            rest,
            Some(Command::SetJustification(Justification::Right)),
            st,
        ),
        n != 1 && n != 2 ==> one_command(
            st,
            seq![ESC, 'a' as u8, n],
            rest,
            Some(Command::SetJustification(Justification::Left)),
            st,
        ),
{
    lemma_esc_three(st, 'a' as u8, n, rest);
    let j = if n == 1 {
        Justification::Center
    } else if n == 2 {
        Justification::Right
    } else {
        Justification::Left
    };
    lemma_one_command(st, seq![ESC, 'a' as u8, n], rest, Some(Command::SetJustification(j)), st);
}

/// The other three-byte ESC commands take their parameter as it is: ESC - n
/// turns underline on for any n but 0, ESC 3 n sets the line height and
/// ESC ! n the font size to n, ESC J n feeds paper, and ESC t n selects
/// codepage n for the text that follows.
pub proof fn law_esc_with_parameter(st: ParseState, n: u8, rest: Seq<u8>)
    ensures
        one_command(st, seq![ESC, '-' as u8, n], rest, Some(Command::SetUnderline(n != 0)), st),
        one_command(st, seq![ESC, '3' as u8, n], rest, Some(Command::SetLineHeight(n as u32)), st),
        one_command(st, seq![ESC, '!' as u8, n], rest, Some(Command::SetFontSize(n as u32)), st),
        one_command(st, seq![ESC, 'J' as u8, n], rest, Some(Command::LineFeed), st),
        one_command(
            st,
            seq![ESC, 't' as u8, n],
            rest,
            Some(Command::SetCodepage(n)),
            ParseState { codepage: n, ..st },
        ),
{
    lemma_esc_three(st, '-' as u8, n, rest);
    lemma_one_command(st, seq![ESC, '-' as u8, n], rest, Some(Command::SetUnderline(n != 0)), st);
    lemma_esc_three(st, '3' as u8, n, rest);
    lemma_one_command(st, seq![ESC, '3' as u8, n], rest, Some(Command::SetLineHeight(n as u32)), st);
    lemma_esc_three(st, '!' as u8, n, rest);
    lemma_one_command(st, seq![ESC, '!' as u8, n], rest, Some(Command::SetFontSize(n as u32)), st);
    lemma_esc_three(st, 'J' as u8, n, rest);
    lemma_one_command(st, seq![ESC, 'J' as u8, n], rest, Some(Command::LineFeed), st);
    lemma_esc_three(st, 't' as u8, n, rest);
    lemma_one_command(
        st,
        seq![ESC, 't' as u8, n],
        rest,
        Some(Command::SetCodepage(n)),
        ParseState { codepage: n, ..st },
    );
}

/// ESC alone, and ESC with a command letter that takes a parameter, wait
/// for the rest of the command.
pub proof fn law_esc_waits(st: ParseState, c: u8)
    requires
        c == 'M' as u8 || c == 'a' as u8 || c == '-' as u8 || c == '3' as u8 || c == '!' as u8 || c
            == 't' as u8 || c == 'J' as u8 || c == '*' as u8,
    ensures
        waits(st, seq![ESC]),
        waits(st, seq![ESC, c]),
{
    assert(seq![ESC][0] == ESC);
    assert(seq![ESC, c][1] == c);
}

/// An ESC command that is not one of the above takes two bytes and is
/// reported with its bytes as unknown.
pub proof fn law_unknown_esc(st: ParseState, c: u8, rest: Seq<u8>)
    requires
        c != '@' as u8 && c != 'E' as u8 && c != 'F' as u8 && c != '4' as u8 && c != '5' as u8 && c
            != 'm' as u8 && c != 'i' as u8 && c != 'M' as u8 && c != 'a' as u8 && c != '-' as u8
            && c != '3' as u8 && c != '!' as u8 && c != 't' as u8 && c != 'J' as u8 && c != '*' as u8,
    ensures
        one_command(st, seq![ESC, c], rest, Some(Command::Unknown(seq![ESC, c])), st),
{
    let d = seq![ESC, c] + rest;
    assert(d[0] == ESC && d[1] == c);
    assert(d.take(2) =~= seq![ESC, c]);
    lemma_one_command(st, seq![ESC, c], rest, Some(Command::Unknown(seq![ESC, c])), st);
}

/// The number of data bytes of `ESC * m nL nH`: nL + 256 nH columns, three
/// bytes a column in the 24-dot modes 32 and 33 and one byte otherwise.
pub open spec fn bit_image_len(m: u8, nl: u8, nh: u8) -> nat {
    let columns = nl + 256 * nh;
    (if m == 32 || m == 33 {
        3 * columns
    } else {
        columns
    }) as nat
}

/// ESC * m nL nH d1..dk prints the bit image d1..dk, and takes exactly the
/// header and those k bytes; while fewer have arrived it waits.
pub proof fn law_bit_image(st: ParseState, m: u8, nl: u8, nh: u8, image: Seq<u8>, rest: Seq<u8>)
    ensures
        image.len() == bit_image_len(m, nl, nh) ==> one_command(
            st,
            seq![ESC, '*' as u8, m, nl, nh] + image,
            rest,
            Some(Command::PrintImage(image)),
            st,
        ),
        image.len() < bit_image_len(m, nl, nh) ==> waits(st, seq![ESC, '*' as u8, m, nl, nh] + image),
{
    let header = seq![ESC, '*' as u8, m, nl, nh];
    let prefix = header + image;
    let d = prefix + rest;
    assert(prefix[0] == ESC && prefix[1] == '*' as u8 && prefix[2] == m && prefix[3] == nl && prefix[4]
        == nh);
    assert(d[0] == ESC && d[1] == '*' as u8 && d[2] == m && d[3] == nl && d[4] == nh);
    if image.len() == bit_image_len(m, nl, nh) {
        assert(d.subrange(5, 5 + image.len() as int) =~= image);
        lemma_one_command(st, prefix, rest, Some(Command::PrintImage(image)), st);
    }
}

/// GS v 0 m xL xH yL yH d1..dk prints a raster image xL + 256 xH bytes wide
/// and yL + 256 yH rows tall made of d1..dk, and takes exactly the header
/// and those k = width * height bytes; while fewer have arrived it waits.
pub proof fn law_raster_image(
    st: ParseState,
    zero: u8,
    m: u8,
    xl: u8,
    xh: u8,
    yl: u8,
    yh: u8,
    image: Seq<u8>,
    rest: Seq<u8>,
)
    ensures
        image.len() == (xl + 256 * xh) * (yl + 256 * yh) ==> one_command(
            st,
            seq![GS, 'v' as u8, zero, m, xl, xh, yl, yh] + image,
            rest,
            Some(
                Command::PrintRasterImage {
                    width_bytes: (xl + 256 * xh) as u16,
                    height: (yl + 256 * yh) as u16,
                    data: image,
                },
            ),
            st,
        ),
        image.len() < (xl + 256 * xh) * (yl + 256 * yh) ==> waits(
            st,
            seq![GS, 'v' as u8, zero, m, xl, xh, yl, yh] + image,
        ),
{
    let header = seq![GS, 'v' as u8, zero, m, xl, xh, yl, yh];
    let prefix = header + image;
    let d = prefix + rest;
    assert(prefix[0] == GS && prefix[1] == 'v' as u8 && prefix[4] == xl && prefix[5] == xh && prefix[6]
        == yl && prefix[7] == yh);
    assert(d[0] == GS && d[1] == 'v' as u8 && d[4] == xl && d[5] == xh && d[6] == yl && d[7] == yh);
    if image.len() == (xl + 256 * xh) * (yl + 256 * yh) {
        assert(d.subrange(8, 8 + image.len() as int) =~= image);
        lemma_one_command(
            st,
            prefix,
            rest,
            Some(
                Command::PrintRasterImage {
                    width_bytes: (xl + 256 * xh) as u16,
                    height: (yl + 256 * yh) as u16,
                    data: image,
                },
            ),
            st,
        );
    }
}

/// GS V m cuts the paper; for m = 65 or 66 the command carries one more
/// byte (GS V m n), for any other m it is three bytes long.
pub proof fn law_cut_paper(st: ParseState, m: u8, n: u8, rest: Seq<u8>)
    ensures
        m != 65 && m != 66 ==> one_command(st, seq![GS, 'V' as u8, m], rest, Some(Command::CutPaper), st),
        m == 65 || m == 66 ==> one_command(
            st,
            seq![GS, 'V' as u8, m, n],
            rest,
            Some(Command::CutPaper),
            st,
        ),
        m == 65 || m == 66 ==> waits(st, seq![GS, 'V' as u8, m]),
{
    let d3 = seq![GS, 'V' as u8, m] + rest;
    assert(d3[0] == GS && d3[1] == 'V' as u8 && d3[2] == m);
    let d4 = seq![GS, 'V' as u8, m, n] + rest;
    assert(d4[0] == GS && d4[1] == 'V' as u8 && d4[2] == m);
    if m != 65 && m != 66 {
        lemma_one_command(st, seq![GS, 'V' as u8, m], rest, Some(Command::CutPaper), st);
    } else {
        lemma_one_command(st, seq![GS, 'V' as u8, m, n], rest, Some(Command::CutPaper), st);
        assert(seq![GS, 'V' as u8, m][0] == GS);
    }
}

/// A GS command other than GS v, GS V and GS ( takes two bytes and is
/// reported with its bytes as unknown.
pub proof fn law_unknown_gs(st: ParseState, c: u8, rest: Seq<u8>)
    requires
        c != 'v' as u8 && c != 'V' as u8 && c != '(' as u8,
    ensures
        one_command(st, seq![GS, c], rest, Some(Command::Unknown(seq![GS, c])), st),
{
    let d = seq![GS, c] + rest;
    assert(d[0] == GS && d[1] == c);
    assert(d.take(2) =~= seq![GS, c]);
    lemma_one_command(st, seq![GS, c], rest, Some(Command::Unknown(seq![GS, c])), st);
}

/// `GS ( k pL pH cn fn params`, where pL + 256 pH counts `cn`, `fn` and the
/// parameters.
pub open spec fn symbol_command(pl: u8, ph: u8, cn: u8, fn_code: u8, params: Seq<u8>) -> Seq<u8> {
    seq![GS, '(' as u8, 'k' as u8, pl, ph, cn, fn_code] + params
}

proof fn lemma_symbol_bytes(pl: u8, ph: u8, cn: u8, fn_code: u8, params: Seq<u8>, rest: Seq<u8>)
    requires
        pl + 256 * ph == params.len() + 2,
    ensures
        ({
            let prefix = symbol_command(pl, ph, cn, fn_code, params);
            let d = prefix + rest;
            &&& prefix.len() == 5 + pl + 256 * ph
            &&& d[0] == GS
            &&& d[1] == '(' as u8
            &&& d[2] == 'k' as u8
            &&& d[3] == pl
            &&& d[4] == ph
            &&& d[5] == cn
            &&& d[6] == fn_code
            &&& d.subrange(7, prefix.len() as int) == params
            &&& d.take(prefix.len() as int) == prefix
        }),
{
    let prefix = symbol_command(pl, ph, cn, fn_code, params);
    let d = prefix + rest;
    assert(prefix[0] == GS && prefix[1] == '(' as u8 && prefix[2] == 'k' as u8 && prefix[3] == pl
        && prefix[4] == ph && prefix[5] == cn && prefix[6] == fn_code);
    assert(d.subrange(7, prefix.len() as int) =~= params);
    assert(d.take(prefix.len() as int) =~= prefix);
}

/// The QR settings of `GS ( k` with `cn = 0x31` (49): fn 67 sets the module
/// size to its first parameter, raised to 1 or lowered to 16 to fit in
/// 1..=16; fn 69 sets the error-correction byte; fn 80 stores the data
/// after its first parameter (the `m` byte). None of them prints anything,
/// and each takes the whole command.
pub proof fn law_qr_settings(st: ParseState, pl: u8, ph: u8, fn_code: u8, params: Seq<u8>, rest: Seq<u8>)
    requires
        pl + 256 * ph == params.len() + 2,
        params.len() > 0,
    ensures
        fn_code == 67 ==> one_command(
            st,
            symbol_command(pl, ph, 49, fn_code, params),
            rest,
            None,
            ParseState {
                qr_module_size: if params[0] == 0 {
                    1
                } else if params[0] > 16 {
                    16
                } else {
                    params[0]
                },
                ..st
            },
        ),
        fn_code == 69 ==> one_command(
            st,
            symbol_command(pl, ph, 49, fn_code, params),
            rest,
            None,
            ParseState { qr_ec_byte: params[0], ..st },
        ),
        fn_code == 80 ==> one_command(
            st,
            symbol_command(pl, ph, 49, fn_code, params),
            rest,
            None,
            ParseState { qr_data: params.subrange(1, params.len() as int), ..st },
        ),
{
    lemma_symbol_bytes(pl, ph, 49, fn_code, params, rest);
    let prefix = symbol_command(pl, ph, 49, fn_code, params);
    if fn_code == 67 {
        let size: u8 = if params[0] == 0 {
            1
        } else if params[0] > 16 {
            16
        } else {
            params[0]
        };
        lemma_one_command(st, prefix, rest, None, ParseState { qr_module_size: size, ..st });
    } else if fn_code == 69 {
        lemma_one_command(st, prefix, rest, None, ParseState { qr_ec_byte: params[0], ..st });
    } else if fn_code == 80 {
        assert(params.drop_first() =~= params.subrange(1, params.len() as int));
        lemma_one_command(
            st,
            prefix,
            rest,
            None,
            ParseState { qr_data: params.subrange(1, params.len() as int), ..st },
        );
    }
}

/// `GS ( k` fn 81 (with `cn = 0x31`) prints the stored QR data at the
/// stored module size and error-correction level, as `render_qr` draws it,
/// and then forgets the data; with no data stored, or data that cannot be
/// encoded, it prints nothing.
pub proof fn law_qr_print(st: ParseState, pl: u8, ph: u8, params: Seq<u8>, rest: Seq<u8>)
    requires
        pl + 256 * ph == params.len() + 2,
    ensures
        one_command(
            st,
            symbol_command(pl, ph, 49, 81, params),
            rest,
            if st.qr_data.len() == 0 {
                None
            } else {
                match rendered_qr(st.qr_data, st.qr_module_size, ec_level_of(st.qr_ec_byte)) {
                    Some((width_bytes, height, data)) => Some(
                        Command::PrintRasterImage {
                            width_bytes: width_bytes as u16,
                            height: height as u16,
                            data,
                        },
                    ),
                    None => None,
                }
            },
            ParseState { qr_data: Seq::empty(), ..st },
        ),
{
    lemma_symbol_bytes(pl, ph, 49, 81, params, rest);
    let printed = if st.qr_data.len() == 0 {
        None
    } else {
        match rendered_qr(st.qr_data, st.qr_module_size, ec_level_of(st.qr_ec_byte)) {
            Some((width_bytes, height, data)) => Some(
                Command::PrintRasterImage { width_bytes: width_bytes as u16, height: height as u16, data },
            ),
            None => None,
        }
    };
    lemma_one_command(
        st,
        symbol_command(pl, ph, 49, 81, params),
        rest,
        printed,
        ParseState { qr_data: Seq::empty(), ..st },
    );
}

/// The other QR functions (fn 65 model, fn 82 size information, and any
/// function but 67, 69, 80 and 81), and fn 67, 69 and 80 without
/// parameters, take the whole command and change nothing.
pub proof fn law_qr_other_functions(st: ParseState, pl: u8, ph: u8, fn_code: u8, params: Seq<u8>, rest: Seq<u8>)
    requires
        pl + 256 * ph == params.len() + 2,
        fn_code != 81,
        fn_code != 67 && fn_code != 69 && fn_code != 80 || params.len() == 0,
    ensures
        one_command(st, symbol_command(pl, ph, 49, fn_code, params), rest, None, st),
{
    lemma_symbol_bytes(pl, ph, 49, fn_code, params, rest);
    lemma_one_command(st, symbol_command(pl, ph, 49, fn_code, params), rest, None, st);
}

/// A `GS ( k` command for another symbology (cn other than 0x31, e.g. PDF417)
/// takes the whole command, so the stream stays aligned, and is reported
/// with its bytes as unknown.
pub proof fn law_other_symbology(st: ParseState, pl: u8, ph: u8, cn: u8, fn_code: u8, params: Seq<u8>, rest: Seq<u8>)
    requires
        pl + 256 * ph == params.len() + 2,
        cn != 49,
    ensures
        one_command(
            st,
            symbol_command(pl, ph, cn, fn_code, params),
            rest,
            Some(Command::Unknown(symbol_command(pl, ph, cn, fn_code, params))),
            st,
        ),
{
    lemma_symbol_bytes(pl, ph, cn, fn_code, params, rest);
    let prefix = symbol_command(pl, ph, cn, fn_code, params);
    lemma_one_command(st, prefix, rest, Some(Command::Unknown(prefix)), st);
}

/// `GS ( c` with c other than `k` takes three bytes and is reported as
/// unknown (once five bytes have arrived).
pub proof fn law_other_gs_paren(st: ParseState, c: u8, rest: Seq<u8>)
    requires
        c != 'k' as u8,
        rest.len() >= 2,
    ensures
        one_command(
            st,
            seq![GS, '(' as u8, c],
            rest,
            Some(Command::Unknown(seq![GS, '(' as u8, c])),
            st,
        ),
{
    let d = seq![GS, '(' as u8, c] + rest;
    assert(d[0] == GS && d[1] == '(' as u8 && d[2] == c);
    assert(d.take(3) =~= seq![GS, '(' as u8, c]);
    lemma_one_command(st, seq![GS, '(' as u8, c], rest, Some(Command::Unknown(seq![GS, '(' as u8, c])), st);
}

/// The ESC/POS error-correction bytes 48, 49, 50 and 51 select levels L, M,
/// Q and H; any other byte selects M.
pub proof fn law_ec_levels(n: u8)
    ensures
        n == 48 ==> ec_level_of(n) == EcLevel::L,
        n == 49 ==> ec_level_of(n) == EcLevel::M,
        n == 50 ==> ec_level_of(n) == EcLevel::Q,
        n == 51 ==> ec_level_of(n) == EcLevel::H,
        n < 48 || n > 51 ==> ec_level_of(n) == EcLevel::M,
{
}

/// A run of text bytes (none of them ESC, GS, LF or CR) that ends where a
/// control byte or the input ends is one text command: the bytes decoded in
/// the current codepage.
pub proof fn law_text_run(st: ParseState, text: Seq<u8>, rest: Seq<u8>)
    requires
        text.len() > 0,
        forall|k: int|
            0 <= k < text.len() ==> #[trigger] text[k] != 0x1B && text[k] != 0x1D && text[k] != 0x0A
                && text[k] != 0x0D,
        rest.len() == 0 || rest[0] == 0x1B || rest[0] == 0x1D || rest[0] == 0x0A || rest[0] == 0x0D,
    ensures
        one_command(st, text, rest, Some(Command::Text(decoded(st.codepage, text))), st),
{
    let d = text + rest;
    assert forall|k: int| 0 <= k < text.len() implies !is_control(#[trigger] d[k]) by {
        assert(d[k] == text[k]);
    }
    if rest.len() > 0 {
        assert(d[text.len() as int] == rest[0]);
    }
    lemma_text_run_len(d, text.len());
    assert(d[0] == text[0]);
    assert(d.take(text.len() as int) =~= text);
    lemma_one_command(st, text, rest, Some(Command::Text(decoded(st.codepage, text))), st);
}

} // verus!
