//! The encode-and-render pipeline: validate options, select mode and
//! version, build the data and error-correction codewords, place them in
//! the matrix, choose a mask, and render the pixel buffer.

use vstd::prelude::*;
use crate::bold::{BoldOption, spec_generate_ok, spec_generate_post};
use crate::ecc::build_codewords;
use crate::encode::encode_data;
use crate::error::{EcLevel, QrError};
use crate::mask::{mask_scores, select_mask, write_format, write_version_info};
use crate::matrix::{Matrix, build_matrix};
use crate::mode::{
    spec_fits, spec_is_selected, spec_selected_version, select_version, lemma_selected_unique,
};
use crate::render::{PixelBuffer, parse_color, render};
use crate::tables::spec_side_len;

verus! {

/// Encode a payload into a finished module matrix: smallest sufficient
/// version, data and error-correction codewords, placement, the winning
/// mask, and the format and version information.
///
/// Succeeds exactly when some version up to 40 holds the payload at the
/// requested level; the matrix side is 17 + 4 times the selected version.
pub fn encode_matrix(data: &Vec<u8>, ec: EcLevel) -> (r: Result<Matrix, QrError>)
    ensures
        r is Ok <==> exists|v: int| spec_is_selected(data@, ec, v),
        match r {
            Ok(m) => {
                &&& m.wf()
                &&& m.resolved()
                &&& m.size == spec_side_len(spec_selected_version(data@, ec))
            },
            Err(e) => e == QrError::CapacityExceeded
                && forall|w: int| 1 <= w <= 40 ==> !spec_fits(data@, w, ec),
        },
{
    let (mode, version) = match select_version(data, ec) {
        Ok(p) => p,
        Err(e) => {
            proof {
                if exists|v: int| spec_is_selected(data@, ec, v) {
                    let v = choose|v: int| spec_is_selected(data@, ec, v);
                    assert(!spec_fits(data@, v, ec));
                }
            }
            return Err(e);
        }
    };
    let data_cw = encode_data(data, mode, version, ec);
    let codewords = build_codewords(&data_cw, version, ec);
    let matrix = build_matrix(version, &codewords);
    let scores = mask_scores(&matrix);
    let (mut masked, mask_id) = select_mask(&matrix, &scores);
    write_format(&mut masked, ec, mask_id);
    if version >= 7 {
        write_version_info(&mut masked, version);
    }
    proof {
        lemma_selected_unique(data@, ec, version as int);
    }
    Ok(masked)
}

/// Generate a styled QR symbol: validate the render options, encode the
/// payload at the requested error-correction level, and render the pixel
/// buffer.
///
/// Colors and the module size are validated before any encoding work; the
/// pixel-side cap depends on the selected version, so it is enforced when
/// rendering. The call succeeds exactly under `spec_generate_ok`, and the
/// buffer is then a rendering of a resolved matrix of the selected
/// version's side, every pixel byte fixed by the matrix and the options.
pub fn generate(data: &Vec<u8>, ec: EcLevel, options: &BoldOption)
    -> (r: Result<PixelBuffer, QrError>)
    ensures
        spec_generate_post(data@, ec, *options, r),
{
    let fg = match parse_color(options.foreground.as_str()) {
        Ok(c) => c,
        Err(e) => {
            return Err(e);
        }
    };
    let bg = match parse_color(options.background.as_str()) {
        Ok(c) => c,
        Err(e) => {
            return Err(e);
        }
    };
    if options.module_size == 0 {
        return Err(QrError::InvalidDimensions);
    }
    let matrix = match encode_matrix(data, ec) {
        Ok(m) => m,
        Err(e) => {
            return Err(e);
        }
    };
    let r = render(&matrix, options.module_size, options.quiet_zone, fg, bg);
    proof {
        let side = spec_side_len(spec_selected_version(data@, ec));
        if r is Ok {
            let buf = r->Ok_0;
            assert(spec_generate_ok(data@, ec, *options));
            assert(buf.width == (side + 2 * options.quiet_zone as int)
                * options.module_size as int);
            assert(spec_generate_post(data@, ec, *options, r)) by {
                assert(matrix.wf() && matrix.resolved() && matrix.size == side);
                assert(forall|p: int| 0 <= p < buf.pixels@.len()
                    ==> #[trigger] buf.pixels@[p] == crate::render::spec_pixel_byte(
                        matrix, options.module_size as int, options.quiet_zone as int,
                        fg, bg, buf.width as int, p));
            }
        }
    }
    r
}

} // verus!
