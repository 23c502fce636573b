//! Renderer: validate colors and render options, and map the finished
//! matrix to an RGB pixel buffer — module_size pixels per module, a
//! quiet-zone border, dark modules in the foreground color and everything
//! else in the background color.

use vstd::prelude::*;
use vstd::string::StrSliceExecFns;
use crate::error::QrError;
use crate::matrix::Matrix;

verus! {

/// A validated RGB color.
#[derive(Clone, Copy, Debug, PartialEq, Eq, Structural)]
pub struct Rgb {
    pub red: u8,
    pub green: u8,
    pub blue: u8,
}

/// An ASCII hexadecimal digit.
pub open spec fn spec_is_hex(c: char) -> bool {
    ('0' <= c && c <= '9') || ('a' <= c && c <= 'f') || ('A' <= c && c <= 'F')
}

pub open spec fn spec_hex_val(c: char) -> int {
    if '0' <= c && c <= '9' { c as int - 48 }
    else if 'a' <= c && c <= 'f' { c as int - 97 + 10 }
    else { c as int - 65 + 10 }
}

/// A color string is six hexadecimal digits.
pub open spec fn spec_color_ok(s: Seq<char>) -> bool {
    s.len() == 6 && forall|i: int| 0 <= i < 6 ==> spec_is_hex(#[trigger] s[i])
}

/// The channel values a six-digit color string denotes.
pub open spec fn spec_color_of(s: Seq<char>) -> (int, int, int) {
    (16 * spec_hex_val(s[0]) + spec_hex_val(s[1]),
     16 * spec_hex_val(s[2]) + spec_hex_val(s[3]),
     16 * spec_hex_val(s[4]) + spec_hex_val(s[5]))
}

/// The color a six-digit string denotes, as a value.
pub open spec fn spec_rgb_of(s: Seq<char>) -> Rgb {
    Rgb {
        red: spec_color_of(s).0 as u8,
        green: spec_color_of(s).1 as u8,
        blue: spec_color_of(s).2 as u8,
    }
}

fn is_hex(c: char) -> (r: bool)
    ensures
        r == spec_is_hex(c),
{
    ('0' <= c && c <= '9') || ('a' <= c && c <= 'f') || ('A' <= c && c <= 'F')
}

fn hex_val(c: char) -> (r: u8)
    requires
        spec_is_hex(c),
    ensures
        r as int == spec_hex_val(c),
        r < 16,
{
    let v = c as u32;
    if '0' <= c && c <= '9' { (v - 48) as u8 }
    else if 'a' <= c && c <= 'f' { (v - 97 + 10) as u8 }
    else { (v - 65 + 10) as u8 }
}

/// Parse and validate a six-hex-digit color string.
///
/// Returns the color exactly when the string is six hexadecimal digits;
/// anything else fails color validation.
pub fn parse_color(s: &str) -> (r: Result<Rgb, QrError>)
    ensures
        match r {
            Ok(c) => spec_color_ok(s@)
                && (c.red as int, c.green as int, c.blue as int) == spec_color_of(s@),
            Err(e) => e == QrError::InvalidColor && !spec_color_ok(s@),
        },
{
    if s.unicode_len() != 6 {
        return Err(QrError::InvalidColor);
    }
    let c0 = s.get_char(0); let c1 = s.get_char(1); let c2 = s.get_char(2);
    let c3 = s.get_char(3); let c4 = s.get_char(4); let c5 = s.get_char(5);
    if !(is_hex(c0) && is_hex(c1) && is_hex(c2) && is_hex(c3) && is_hex(c4) && is_hex(c5)) {
        return Err(QrError::InvalidColor);
    }
    Ok(Rgb {
        red: 16 * hex_val(c0) + hex_val(c1),
        green: 16 * hex_val(c2) + hex_val(c3),
        blue: 16 * hex_val(c4) + hex_val(c5),
    })
}

/// An RGB raster: three bytes per pixel, rows top to bottom.
#[derive(Debug)]
pub struct PixelBuffer {
    pub width: usize,
    pub height: usize,
    pub pixels: Vec<u8>,
}

impl PixelBuffer {
    pub open spec fn wf(self) -> bool {
        self.pixels@.len() == self.width * self.height * 3
    }
}

/// Largest allowed pixel side of a rendered image.
pub const MAX_SIDE_PX: u64 = 16384;

/// Whether the pixel at column x, row y shows a dark module.
pub open spec fn spec_pixel_dark(m: Matrix, ms: int, qz: int, x: int, y: int) -> bool {
    let gx = x / ms;
    let gy = y / ms;
    qz <= gx < qz + m.size && qz <= gy < qz + m.size
        && m.spec_dark(gy - qz, gx - qz)
}

/// The byte at flat position p of the rendered buffer of width w:
/// channel p % 3 of the pixel's color.
pub open spec fn spec_pixel_byte(
    m: Matrix, ms: int, qz: int, fg: Rgb, bg: Rgb, w: int, p: int,
) -> u8 {
    let pix = p / 3;
    let k = p % 3;
    let y = pix / w;
    let x = pix % w;
    let color = if spec_pixel_dark(m, ms, qz, x, y) { fg } else { bg };
    if k == 0 { color.red } else if k == 1 { color.green } else { color.blue }
}

proof fn lemma_pixel_index(w: int, y: int, x: int, k: int)
    requires
        0 <= k < 3,
        0 <= x < w,
        0 <= y,
    ensures
        (3 * (y * w + x) + k) / 3 == y * w + x,
        (3 * (y * w + x) + k) % 3 == k,
        (y * w + x) / w == y,
        (y * w + x) % w == x,
{
    assert((3 * (y * w + x) + k) / 3 == y * w + x && (3 * (y * w + x) + k) % 3 == k
        && (y * w + x) / w == y && (y * w + x) % w == x) by (nonlinear_arith)
        requires
            0 <= k < 3,
            0 <= x < w,
            0 <= y;
}

/// Render the finished matrix into an RGB pixel buffer.
///
/// Fails with InvalidDimensions when module_size is 0, and with
/// InvalidOption when the image side would exceed the pixel limit;
/// otherwise the buffer is exactly (N + 2 * quiet_zone) * module_size
/// pixels on each side, dark modules in the foreground color and
/// everything else (quiet zone included) in the background color.
#[verifier::rlimit(100)]
pub fn render(m: &Matrix, module_size: u32, quiet_zone: u32, fg: Rgb, bg: Rgb)
    -> (r: Result<PixelBuffer, QrError>)
    requires
        m.wf(),
        m.resolved(),
    ensures
        match r {
            Ok(buf) => {
                &&& module_size >= 1
                &&& (m.size + 2 * quiet_zone as int) * module_size as int <= MAX_SIDE_PX as int
                &&& buf.width == (m.size + 2 * quiet_zone as int) * module_size as int
                &&& buf.height == buf.width
                &&& buf.wf()
                &&& forall|p: int| 0 <= p < buf.pixels@.len()
                    ==> #[trigger] buf.pixels@[p] == spec_pixel_byte(
                        *m, module_size as int, quiet_zone as int, fg, bg,
                        buf.width as int, p)
            },
            Err(e) => {
                ||| (e == QrError::InvalidDimensions && module_size == 0)
                ||| (e == QrError::InvalidOption && module_size >= 1
                    && (m.size + 2 * quiet_zone as int) * module_size as int
                        > MAX_SIDE_PX as int)
            },
        },
{
    if module_size == 0 {
        return Err(QrError::InvalidDimensions);
    }
    let side_mod: u64 = m.size as u64 + 2 * quiet_zone as u64;
    if side_mod > MAX_SIDE_PX {
        proof {
            assert(side_mod as int <= side_mod as int * module_size as int)
                by (nonlinear_arith)
                requires 1 <= module_size as int, 0 <= side_mod as int;
        }
        return Err(QrError::InvalidOption);
    }
    proof {
        assert(side_mod as int * module_size as int <= 16384 * 0xffff_ffff)
            by (nonlinear_arith)
            requires
                side_mod as int <= 16384,
                0 <= module_size as int <= 0xffff_ffff;
    }
    let side_px: u64 = side_mod * module_size as u64;
    if side_px > MAX_SIDE_PX {
        return Err(QrError::InvalidOption);
    }
    let w = side_px as usize;
    let ms = module_size as usize;
    let qz = quiet_zone as usize;
    let ghost msi = module_size as int;
    let ghost qzi = quiet_zone as int;
    let mut pixels: Vec<u8> = Vec::new();
    let mut y: usize = 0;
    while y < w
        invariant
            y <= w,
            w <= 16384,
            m.wf(),
            m.resolved(),
            ms == msi,
            qz == qzi,
            1 <= msi,
            (m.size + 2 * qzi) * msi == w,
            pixels@.len() == 3 * (y * w),
            forall|p: int| 0 <= p < pixels@.len()
                ==> #[trigger] pixels@[p] == spec_pixel_byte(*m, msi, qzi, fg, bg, w as int, p),
        decreases w - y,
    {
        let mut x: usize = 0;
        while x < w
            invariant
                y < w,
                x <= w,
                w <= 16384,
                m.wf(),
                m.resolved(),
                ms == msi,
                qz == qzi,
                1 <= msi,
                (m.size + 2 * qzi) * msi == w,
                pixels@.len() == 3 * (y * w + x),
                forall|p: int| 0 <= p < pixels@.len()
                    ==> #[trigger] pixels@[p] == spec_pixel_byte(*m, msi, qzi, fg, bg, w as int, p),
            decreases w - x,
        {
            let gx = x / ms;
            let gy = y / ms;
            let dark = if gx >= qz && gx < qz + m.size && gy >= qz && gy < qz + m.size {
                proof {
                    assert(gy - qz < m.size && gx - qz < m.size);
                }
                m.get(gy - qz, gx - qz) == 2
            } else {
                false
            };
            proof {
                assert(dark == spec_pixel_dark(*m, msi, qzi, x as int, y as int));
                lemma_pixel_index(w as int, y as int, x as int, 0);
                lemma_pixel_index(w as int, y as int, x as int, 1);
                lemma_pixel_index(w as int, y as int, x as int, 2);
                assert(3 * ((y as int) * w + x) + 3 == 3 * ((y as int) * w + (x as int + 1)));
            }
            let color = if dark { fg } else { bg };
            pixels.push(color.red);
            pixels.push(color.green);
            pixels.push(color.blue);
            x += 1;
        }
        proof {
            assert(3 * ((y as int) * w + w) == 3 * (((y as int) + 1) * w)) by (nonlinear_arith);
        }
        y += 1;
    }
    proof {
        assert(3 * ((w as int) * w) == (w as int) * w * 3) by (nonlinear_arith);
    }
    Ok(PixelBuffer { width: w, height: w, pixels })
}

/// Rendering is deterministic: two buffers that both satisfy the
/// renderer's contract for the same matrix and options are byte-identical.
pub proof fn lemma_render_deterministic(
    m: Matrix, ms: int, qz: int, fg: Rgb, bg: Rgb, b1: PixelBuffer, b2: PixelBuffer,
)
    requires
        b1.wf(),
        b2.wf(),
        b1.height == b1.width,
        b2.height == b2.width,
        b1.width == b2.width,
        forall|p: int| 0 <= p < b1.pixels@.len()
            ==> #[trigger] b1.pixels@[p] == spec_pixel_byte(m, ms, qz, fg, bg, b1.width as int, p),
        forall|p: int| 0 <= p < b2.pixels@.len()
            ==> #[trigger] b2.pixels@[p] == spec_pixel_byte(m, ms, qz, fg, bg, b2.width as int, p),
    ensures
        b1.pixels@ == b2.pixels@,
{
    assert(b1.pixels@.len() == b2.pixels@.len());
    assert(b1.pixels@ =~= b2.pixels@);
}

} // verus!
