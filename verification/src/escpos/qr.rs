//! QR code rendering helper.
//!
//! Converts an ESC/POS `GS ( k` QR print request into a 1-bit-per-pixel
//! packed bitmap (row-major, MSB = leftmost pixel).
//!
//! The caller provides:
//! - the raw data bytes to encode,
//! - the module size in dots (as set by `GS ( k fn=67`),
//! - the error-correction level (as set by `GS ( k fn=69`).
//!
//! Choosing the symbol (version, masking, error-correction codewords) is the
//! work of the `qrcode` crate; packing its modules into printer bytes is
//! done and verified here.

use vstd::prelude::*;

verus! {

/// QR error-correction level, as selected by `GS ( k fn=69`.
#[derive(Debug, Clone, Copy, PartialEq, Eq)]
pub enum EcLevel {
    L,
    M,
    Q,
    H,
}

/// The level that an ESC/POS error-correction byte (`48..=51`) selects;
/// any other byte selects M.
pub open spec fn ec_level_of(n: u8) -> EcLevel {
    if n == 48 {
        EcLevel::L
    } else if n == 49 {
        EcLevel::M
    } else if n == 50 {
        EcLevel::Q
    } else if n == 51 {
        EcLevel::H
    } else {
        EcLevel::M
    }
}

/// Map the ESC/POS error-correction byte (`48..=51`) to [`EcLevel`].
pub fn ec_level_from_byte(n: u8) -> (level: EcLevel)
    ensures
        level == ec_level_of(n),
{
    match n {
        48 => EcLevel::L,
        49 => EcLevel::M,
        50 => EcLevel::Q,
        51 => EcLevel::H,
        _ => EcLevel::M,
    }
}

/// The QR symbol that the `qrcode` crate builds for `data` at `level`: its
/// width in modules and its modules row by row (`true` = dark), or `None`
/// when the data does not fit in any QR version.
pub uninterp spec fn qr_symbol(data: Seq<u8>, level: EcLevel) -> Option<(nat, Seq<bool>)>;

/// Encodes `data` with `qrcode::QrCode::with_error_correction_level` and reads
/// the symbol back through `QrCode::width` and `QrCode::to_colors`.
///
/// Trusted: the result is the named symbol `qr_symbol(data, level)`; when
/// there is one, it is a normal QR symbol (versions 1 to 40, so 21 to 177
/// modules a side) holding `width * width` modules.
#[verifier::external_body]
fn encode_qr_symbol(data: &[u8], level: EcLevel) -> (res: Option<(usize, Vec<bool>)>)
    ensures
        match res {
            Some((width, modules)) => {
                &&& qr_symbol(data@, level) == Some((width as nat, modules@))
                &&& 21 <= width <= 177
                &&& modules@.len() == width * width
            },
            None => qr_symbol(data@, level) is None,
        },
{
    let ec = match level {
        EcLevel::L => qrcode::EcLevel::L,
        EcLevel::M => qrcode::EcLevel::M,
        EcLevel::Q => qrcode::EcLevel::Q,
        EcLevel::H => qrcode::EcLevel::H,
    };
    let code = qrcode::QrCode::with_error_correction_level(data, ec).ok()?;
    let modules = code.to_colors().into_iter().map(|c| match c {
        qrcode::Color::Dark => true,
        qrcode::Color::Light => false,
    }).collect();
    Some((code.width(), modules))
}

/// Dots per module side: the module size, where 0 counts as 1.
pub open spec fn module_scale(module_size: u8) -> nat {
    if module_size == 0 {
        1
    } else {
        module_size as nat
    }
}

/// Whether pixel `(px, py)` of a symbol `width` modules wide, drawn at
/// `scale` dots per module, is dark. Pixels right of the symbol (row padding)
/// are light.
pub open spec fn pixel_is_dark(width: nat, modules: Seq<bool>, scale: nat, px: nat, py: nat) -> bool {
    px < width * scale && modules[((py / scale) * width + px / scale) as int]
}

/// The weight a pixel adds to its byte.
pub open spec fn bit_weight(dark: bool, weight: nat) -> nat {
    if dark {
        weight
    } else {
        0
    }
}

/// Byte `bx` of pixel row `py`: pixels `8 * bx .. 8 * bx + 8`, leftmost pixel
/// in the most significant bit.
pub open spec fn bitmap_byte(width: nat, modules: Seq<bool>, scale: nat, py: nat, bx: nat) -> nat {
    let px = 8 * bx;
    bit_weight(pixel_is_dark(width, modules, scale, px, py), 128)
        + bit_weight(pixel_is_dark(width, modules, scale, px + 1, py), 64)
        + bit_weight(pixel_is_dark(width, modules, scale, px + 2, py), 32)
        + bit_weight(pixel_is_dark(width, modules, scale, px + 3, py), 16)
        + bit_weight(pixel_is_dark(width, modules, scale, px + 4, py), 8)
        + bit_weight(pixel_is_dark(width, modules, scale, px + 5, py), 4)
        + bit_weight(pixel_is_dark(width, modules, scale, px + 6, py), 2)
        + bit_weight(pixel_is_dark(width, modules, scale, px + 7, py), 1)
}

/// Bytes per bitmap row: the pixel width rounded up to whole bytes.
pub open spec fn bitmap_width_bytes(width: nat, scale: nat) -> nat {
    (width * scale + 7) / 8
}

/// The packed bitmap: `width * scale` rows of `bitmap_width_bytes` bytes each.
pub open spec fn bitmap(width: nat, modules: Seq<bool>, scale: nat) -> Seq<u8> {
    let wb = bitmap_width_bytes(width, scale);
    Seq::new(
        wb * (width * scale),
        |k: int| bitmap_byte(width, modules, scale, (k / wb as int) as nat, (k % wb as int) as nat) as u8,
    )
}

/// `(width_bytes, height_px, data)` of the bitmap of a symbol.
pub open spec fn packed_symbol(width: nat, modules: Seq<bool>, module_size: u8) -> (nat, nat, Seq<u8>) {
    let scale = module_scale(module_size);
    (bitmap_width_bytes(width, scale), width * scale, bitmap(width, modules, scale))
}

/// What [`render_qr`] returns: the packed bitmap of the symbol that the
/// `qrcode` crate builds, or `None` when the data cannot be encoded.
pub open spec fn rendered_qr(data: Seq<u8>, module_size: u8, level: EcLevel) -> Option<(nat, nat, Seq<u8>)> {
    match qr_symbol(data, level) {
        Some((width, modules)) => Some(packed_symbol(width, modules, module_size)),
        None => None,
    }
}

/// Whether the module under pixel `px` of the pixel row that starts at
/// module index `row_start` is dark; pixels right of the symbol are light.
fn dark_at(modules: &[bool], row_start: usize, width: usize, scale: usize, px: usize) -> (dark: bool)
    requires
        scale > 0,
        width * scale <= u16::MAX,
        row_start + width <= modules@.len(),
    ensures
        dark == (px < width * scale && modules@[row_start + px / scale]),
{
    let n = modules.len();
    if px < width * scale {
        assert(px / scale < width) by (nonlinear_arith)
            requires
                px < width * scale,
                scale > 0,
        ;
        modules[row_start + px / scale]
    } else {
        false
    }
}

/// Packs the modules of a square QR symbol, `width` modules a side, into a
/// 1-bit-per-pixel bitmap at `module_size` dots per module (0 counts as 1).
///
/// Returns `(width_bytes, height_px, data)`, where `width_bytes * 8` is the
/// pixel width rounded up to the next multiple of 8.
pub fn pack_modules(width: usize, modules: &[bool], module_size: u8) -> (res: (u16, u16, Vec<u8>))
    requires
        modules@.len() == width * width,
        width * module_scale(module_size) <= u16::MAX,
    ensures
        res.0 as nat == packed_symbol(width as nat, modules@, module_size).0,
        res.1 as nat == packed_symbol(width as nat, modules@, module_size).1,
        res.2@ == packed_symbol(width as nat, modules@, module_size).2,
{
    let scale: usize = if module_size == 0 { 1 } else { module_size as usize };
    let side: usize = width * scale;
    let wb: usize = (side + 7) / 8;
    let ghost w = width as nat;
    let ghost m = modules@;
    let ghost s = scale as nat;
    let n = modules.len();
    assert(wb * side <= 8192 * 65535) by (nonlinear_arith)
        requires
            wb == (side + 7) / 8,
            side <= 65535,
    ;
    let mut packed: Vec<u8> = Vec::new();
    let mut py: usize = 0;
    while py < side
        invariant
            s == module_scale(module_size),
            scale == s,
            side == width * scale,
            side <= u16::MAX,
            wb == (side + 7) / 8,
            wb * side <= 8192 * 65535,
            m == modules@,
            w == width,
            modules@.len() == width * width,
            n == modules@.len(),
            py <= side,
            packed@.len() == py * wb,
            forall|k: int|
                0 <= k < packed@.len() ==> #[trigger] packed@[k] == bitmap_byte(
                    w,
                    m,
                    s,
                    (k / wb as int) as nat,
                    (k % wb as int) as nat,
                ) as u8,
        decreases side - py,
    {
        let my = py / scale;
        assert(my < width && (my + 1) * width <= width * width) by (nonlinear_arith)
            requires
                my == py / scale,
                py < side,
                side == width * scale,
                scale > 0,
        ;
        assert(my * width + width == (my + 1) * width) by (nonlinear_arith);
        let row_start = my * width;
        assert(py * wb + wb <= wb * side) by (nonlinear_arith)
            requires
                py < side,
        ;
        let mut bx: usize = 0;
        while bx < wb
            invariant
                s == module_scale(module_size),
                scale == s,
                side == width * scale,
                side <= u16::MAX,
                wb == (side + 7) / 8,
                m == modules@,
                w == width,
                modules@.len() == width * width,
                n == modules@.len(),
                py < side,
                my == py / scale,
                row_start == my * width,
                row_start + width <= modules@.len(),
                py * wb + wb <= wb * side,
                wb * side <= 8192 * 65535,
                bx <= wb,
                packed@.len() == py * wb + bx,
                forall|k: int|
                    0 <= k < packed@.len() ==> #[trigger] packed@[k] == bitmap_byte(
                        w,
                        m,
                        s,
                        (k / wb as int) as nat,
                        (k % wb as int) as nat,
                    ) as u8,
            decreases wb - bx,
        {
            let px = 8 * bx;
            let d0 = dark_at(modules, row_start, width, scale, px);
            let d1 = dark_at(modules, row_start, width, scale, px + 1);
            let d2 = dark_at(modules, row_start, width, scale, px + 2);
            let d3 = dark_at(modules, row_start, width, scale, px + 3);
            let d4 = dark_at(modules, row_start, width, scale, px + 4);
            let d5 = dark_at(modules, row_start, width, scale, px + 5);
            let d6 = dark_at(modules, row_start, width, scale, px + 6);
            let d7 = dark_at(modules, row_start, width, scale, px + 7);
            let byte: u8 = (if d0 { 128u8 } else { 0u8 }) + (if d1 { 64u8 } else { 0u8 }) + (if d2 {
                32u8
            } else {
                0u8
            }) + (if d3 { 16u8 } else { 0u8 }) + (if d4 { 8u8 } else { 0u8 }) + (if d5 {
                4u8
            } else {
                0u8
            }) + (if d6 { 2u8 } else { 0u8 }) + (if d7 { 1u8 } else { 0u8 });
            let ghost k = packed@.len() as int;
            proof {
                vstd::arithmetic::div_mod::lemma_fundamental_div_mod_converse(
                    k,
                    wb as int,
                    py as int,
                    bx as int,
                );
                assert(byte as nat == bitmap_byte(w, m, s, py as nat, bx as nat));
            }
            packed.push(byte);
            bx = bx + 1;
        }
        assert(py * wb + wb == (py + 1) * wb) by (nonlinear_arith);
        py = py + 1;
    }
    assert(side * wb == wb * (w * s)) by (nonlinear_arith)
        requires
            side == w * s,
    ;
    assert(packed@ =~= bitmap(w, m, s));
    (wb as u16, side as u16, packed)
}

/// Render a QR code to a packed 1bpp bitmap.
///
/// Returns `(width_bytes, height_px, data)` where `width_bytes * 8` is the
/// padded pixel width (rounded up to the next multiple of 8). Returns `None`
/// if the data cannot be encoded (e.g. exceeds QR capacity).
pub fn render_qr(data: &[u8], module_size: u8, ec_level: EcLevel) -> (res: Option<(u16, u16, Vec<u8>)>)
    ensures
        match res {
            Some((width_bytes, height, bitmap)) => rendered_qr(data@, module_size, ec_level) == Some(
                (width_bytes as nat, height as nat, bitmap@),
            ),
            None => rendered_qr(data@, module_size, ec_level) is None,
        },
{
    match encode_qr_symbol(data, ec_level) {
        Some((width, modules)) => {
            assert(width * module_scale(module_size) <= u16::MAX) by (nonlinear_arith)
                requires
                    width <= 177,
                    module_scale(module_size) <= 255,
            ;
            Some(pack_modules(width, modules.as_slice(), module_size))
        },
        None => None,
    }
}

/// A module size of 0 draws exactly what a module size of 1 draws.
pub proof fn lemma_zero_module_size_is_one(data: Seq<u8>, level: EcLevel)
    ensures
        rendered_qr(data, 0, level) == rendered_qr(data, 1, level),
{
}

/// The bitmap scales with the module size: at `k` dots per module it is `k`
/// times as tall as at one dot per module, and it always holds
/// `width_bytes * height` bytes.
pub proof fn lemma_module_size_scales(data: Seq<u8>, level: EcLevel, module_size: u8)
    requires
        module_size >= 1,
    ensures
        rendered_qr(data, module_size, level) is Some <==> rendered_qr(data, 1, level) is Some,
        rendered_qr(data, module_size, level) matches Some((width_bytes, height, bitmap)) ==> {
            &&& height == module_size * rendered_qr(data, 1, level).unwrap().1
            &&& bitmap.len() == width_bytes * height
        },
{
    if let Some((width, modules)) = qr_symbol(data, level) {
        let wb = bitmap_width_bytes(width, module_size as nat);
        assert(wb * (width * module_size) == wb * (module_size * width)) by (nonlinear_arith);
    }
}

proof fn lemma_byte_bits(b0: bool, b1: bool, b2: bool, b3: bool, b4: bool, b5: bool, b6: bool, b7: bool)
    ensures
        ({
            let x: u8 = ((if b0 { 128u8 } else { 0u8 }) + (if b1 { 64u8 } else { 0u8 }) + (if b2 {
                32u8
            } else {
                0u8
            }) + (if b3 { 16u8 } else { 0u8 }) + (if b4 { 8u8 } else { 0u8 }) + (if b5 {
                4u8
            } else {
                0u8
            }) + (if b6 { 2u8 } else { 0u8 }) + (if b7 { 1u8 } else { 0u8 })) as u8;
            &&& ((x >> 7u8) & 1u8 == 1u8) == b0
            &&& ((x >> 6u8) & 1u8 == 1u8) == b1
            &&& ((x >> 5u8) & 1u8 == 1u8) == b2
            &&& ((x >> 4u8) & 1u8 == 1u8) == b3
            &&& ((x >> 3u8) & 1u8 == 1u8) == b4
            &&& ((x >> 2u8) & 1u8 == 1u8) == b5
            &&& ((x >> 1u8) & 1u8 == 1u8) == b6
            &&& ((x >> 0u8) & 1u8 == 1u8) == b7
        }),
{
    assert({
        let x: u8 = ((if b0 { 128u8 } else { 0u8 }) + (if b1 { 64u8 } else { 0u8 }) + (if b2 {
            32u8
        } else {
            0u8
        }) + (if b3 { 16u8 } else { 0u8 }) + (if b4 { 8u8 } else { 0u8 }) + (if b5 {
            4u8
        } else {
            0u8
        }) + (if b6 { 2u8 } else { 0u8 }) + (if b7 { 1u8 } else { 0u8 })) as u8;
        &&& ((x >> 7u8) & 1u8 == 1u8) == b0
        &&& ((x >> 6u8) & 1u8 == 1u8) == b1
        &&& ((x >> 5u8) & 1u8 == 1u8) == b2
        &&& ((x >> 4u8) & 1u8 == 1u8) == b3
        &&& ((x >> 3u8) & 1u8 == 1u8) == b4
        &&& ((x >> 2u8) & 1u8 == 1u8) == b5
        &&& ((x >> 1u8) & 1u8 == 1u8) == b6
        &&& ((x >> 0u8) & 1u8 == 1u8) == b7
    }) by (bit_vector);
}

/// Bitmap layout: pixel `(px, py)` is bit `7 - px % 8` (the most significant
/// bit is the leftmost pixel) of byte `py * width_bytes + px / 8`, and it is
/// set exactly when the module under the pixel is dark.
pub proof fn lemma_bitmap_pixel(width: nat, modules: Seq<bool>, scale: nat, px: nat, py: nat)
    requires
        scale > 0,
        py < width * scale,
        px < 8 * bitmap_width_bytes(width, scale),
    ensures
        ({
            let wb = bitmap_width_bytes(width, scale);
            let byte = bitmap(width, modules, scale)[(py * wb + px / 8) as int];
            ((byte >> (7 - px % 8) as u8) & 1u8 == 1u8) == pixel_is_dark(width, modules, scale, px, py)
        }),
{
    let wb = bitmap_width_bytes(width, scale);
    let h = width * scale;
    let bx = px / 8;
    let j = px % 8;
    let k = py * wb + bx;
    assert(bx < wb);
    assert(k < wb * h) by (nonlinear_arith)
        requires
            k == py * wb + bx,
            py < h,
            bx < wb,
    ;
    vstd::arithmetic::div_mod::lemma_fundamental_div_mod_converse(k as int, wb as int, py as int, bx as int);
    let base = 8 * bx;
    assert(px == base + j);
    lemma_byte_bits(
        pixel_is_dark(width, modules, scale, base, py),
        pixel_is_dark(width, modules, scale, base + 1, py),
        pixel_is_dark(width, modules, scale, base + 2, py),
        pixel_is_dark(width, modules, scale, base + 3, py),
        pixel_is_dark(width, modules, scale, base + 4, py),
        pixel_is_dark(width, modules, scale, base + 5, py),
        pixel_is_dark(width, modules, scale, base + 6, py),
        pixel_is_dark(width, modules, scale, base + 7, py),
    );
}

/// Bit of pixel `(px, py)` in a packed bitmap with `width_bytes` bytes a row:
/// bit `7 - px % 8` of byte `py * width_bytes + px / 8`.
pub open spec fn bitmap_bit(bytes: Seq<u8>, width_bytes: nat, px: nat, py: nat) -> bool {
    (bytes[(py * width_bytes + px / 8) as int] >> (7 - px % 8) as u8) & 1u8 == 1u8
}

/// Each module `(mx, my)` of the symbol (row-major: module `my * width +
/// mx`) is drawn as a square of `scale` by `scale` dots whose top-left dot is
/// `(mx * scale, my * scale)`, set exactly when the module is dark; the
/// dots that pad a row out to whole bytes are blank.
pub proof fn law_modules_as_squares(
    width: nat,
    modules: Seq<bool>,
    module_size: u8,
    mx: nat,
    my: nat,
    dx: nat,
    dy: nat,
    pad_x: nat,
)
    requires
        mx < width,
        my < width,
        dx < module_scale(module_size),
        dy < module_scale(module_size),
    ensures
        ({
            let s = module_scale(module_size);
            let (width_bytes, height, bytes) = packed_symbol(width, modules, module_size);
            &&& bitmap_bit(bytes, width_bytes, mx * s + dx, my * s + dy) == modules[(my * width
                + mx) as int]
            &&& (width * s <= pad_x < 8 * width_bytes ==> !bitmap_bit(
                bytes,
                width_bytes,
                pad_x,
                my * s + dy,
            ))
        }),
{
    let s = module_scale(module_size);
    let wb = bitmap_width_bytes(width, s);
    let px = mx * s + dx;
    let py = my * s + dy;
    assert(px < width * s && py < width * s) by (nonlinear_arith)
        requires
            mx < width,
            my < width,
            dx < s,
            dy < s,
            px == mx * s + dx,
            py == my * s + dy,
    ;
    assert(width * s <= 8 * wb);
    vstd::arithmetic::div_mod::lemma_fundamental_div_mod_converse(px as int, s as int, mx as int, dx as int);
    vstd::arithmetic::div_mod::lemma_fundamental_div_mod_converse(py as int, s as int, my as int, dy as int);
    lemma_bitmap_pixel(width, modules, s, px, py);
    if width * s <= pad_x < 8 * wb {
        lemma_bitmap_pixel(width, modules, s, pad_x, py);
    }
}

} // verus!
