//! The Bold generator: presentation options, per-code options, and the
//! generator type whose `generate` runs the whole pipeline with
//! configuration merging (an explicit override replaces the defaults).

use vstd::prelude::*;
use vstd::utf8::encode_utf8;
use vstd::string::StrSliceExecFns;
use crate::error::{EcLevel, QrError};
use crate::mode::{spec_fits, spec_is_selected, spec_selected_version};
use crate::pipeline::generate;
use crate::matrix::Matrix;
use crate::render::{PixelBuffer, MAX_SIDE_PX, spec_color_ok, spec_rgb_of, spec_pixel_byte};
use crate::tables::spec_side_len;

verus! {

/// The options of a Bold generator.
pub struct BoldOption {
    /// Module size, the side of one module, in pixels (default: 3).
    pub module_size: u32,
    /// Quiet zone, the blank border around the symbol, in modules
    /// (default: 4).
    pub quiet_zone: u32,
    /// The foreground color, six hexadecimal digits (default: black).
    pub foreground: String,
    /// The background color, six hexadecimal digits (default: white).
    pub background: String,
}

impl Default for BoldOption {
    /// The default presentation: 3-pixel modules, a 4-module quiet zone,
    /// black on white.
    fn default() -> (r: Self)
        ensures
            r.module_size == 3,
            r.quiet_zone == 4,
            r.foreground@ == "000000"@,
            r.background@ == "FFFFFF"@,
    {
        BoldOption {
            module_size: 3,
            quiet_zone: 4,
            foreground: "000000".to_owned(),
            background: "FFFFFF".to_owned(),
        }
    }
}

/// Options for one generated code.
pub struct CodeOption {
    /// The data to encode.
    pub data: String,
    /// Output name: the name, path and extension of the output file
    /// (default: "output.png"). The library itself never touches storage;
    /// the caller hands the pixel buffer and this name to an image encoder.
    pub output: String,
    /// Output image type (default: PNG). Must match the extension of the
    /// output file.
    pub output_type: OutputType,
}

/// Type of output image.
#[derive(Clone, Copy, Debug, PartialEq, Eq, Structural)]
pub enum OutputType {
    /// Image type: PNG.
    PNG,
    /// Image type: JPEG.
    JPG,
}

/// The success conditions of a `generate` call: valid colors, a positive
/// module size, a version that fits, and a pixel side within the cap.
pub open spec fn spec_generate_ok(data: Seq<u8>, ec: EcLevel, opt: BoldOption) -> bool {
    &&& spec_color_ok(opt.foreground@)
    &&& spec_color_ok(opt.background@)
    &&& opt.module_size >= 1
    &&& exists|v: int| spec_is_selected(data, ec, v)
    &&& (spec_side_len(spec_selected_version(data, ec)) + 2 * opt.quiet_zone as int)
            * opt.module_size as int <= MAX_SIDE_PX as int
}

/// What a `generate` call must return for a payload and effective options.
/// It succeeds exactly under `spec_generate_ok`; the buffer then renders a
/// resolved matrix of the selected version's side, every pixel byte fixed
/// by that matrix and the options; otherwise the error names exactly what
/// was rejected.
pub open spec fn spec_generate_post(
    data: Seq<u8>, ec: EcLevel, opt: BoldOption, r: Result<PixelBuffer, QrError>,
) -> bool {
    &&& (r is Ok <==> spec_generate_ok(data, ec, opt))
    &&& match r {
        Ok(buf) => {
            &&& buf.wf()
            &&& buf.height == buf.width
            &&& buf.width == (spec_side_len(spec_selected_version(data, ec))
                    + 2 * opt.quiet_zone as int) * opt.module_size as int
            &&& exists|mtx: Matrix|
                {
                    &&& #[trigger] mtx.wf()
                    &&& mtx.resolved()
                    &&& mtx.size == spec_side_len(spec_selected_version(data, ec))
                    &&& forall|p: int| 0 <= p < buf.pixels@.len()
                        ==> #[trigger] buf.pixels@[p] == spec_pixel_byte(
                            mtx, opt.module_size as int, opt.quiet_zone as int,
                            spec_rgb_of(opt.foreground@), spec_rgb_of(opt.background@),
                            buf.width as int, p)
                }
        },
        Err(e) => {
            let colors_ok = spec_color_ok(opt.foreground@) && spec_color_ok(opt.background@);
            let fits = exists|v: int| spec_is_selected(data, ec, v);
            &&& (e == QrError::InvalidColor <==> !colors_ok)
            &&& (e == QrError::InvalidDimensions <==> colors_ok && opt.module_size == 0)
            &&& (e == QrError::CapacityExceeded
                <==> colors_ok && opt.module_size >= 1 && !fits)
            &&& (e == QrError::CapacityExceeded
                ==> forall|w: int| 1 <= w <= 40 ==> !spec_fits(data, w, ec))
            &&& (e == QrError::InvalidOption
                <==> colors_ok && opt.module_size >= 1 && fits
                    && (spec_side_len(spec_selected_version(data, ec))
                        + 2 * opt.quiet_zone as int) * opt.module_size as int
                        > MAX_SIDE_PX as int)
        },
    }
}

/// Interface for a Bold generator.
pub trait BoldTrait {
    /// The generator's current options.
    spec fn spec_option(&self) -> BoldOption;

    /// Create a new generator with the given options.
    fn new(option: BoldOption) -> (r: Self) where Self: Sized
        ensures
            r.spec_option() == option,
    ;

    /// Generate the QR code for `code_option.data` at the default
    /// (Medium) error-correction level and return the pixel buffer.
    ///
    /// If `option` is not None, it overrides the generator's own options.
    fn generate(&self, code_option: CodeOption, option: Option<BoldOption>)
        -> (r: Result<PixelBuffer, QrError>)
        ensures
            spec_generate_post(
                encode_utf8(code_option.data@),
                EcLevel::Medium,
                match option {
                    Some(o) => o,
                    None => self.spec_option(),
                },
                r,
            ),
    ;
}

/// Bold QR code generator.
pub struct Bold {
    option: BoldOption,
}

impl BoldTrait for Bold {
    closed spec fn spec_option(&self) -> BoldOption {
        self.option
    }

    fn new(option: BoldOption) -> (r: Self)
        ensures
            r.spec_option() == option,
    {
        Bold { option }
    }

    fn generate(&self, code_option: CodeOption, option: Option<BoldOption>)
        -> (r: Result<PixelBuffer, QrError>)
        ensures
            spec_generate_post(
                encode_utf8(code_option.data@),
                EcLevel::Medium,
                match option {
                    Some(o) => o,
                    None => self.spec_option(),
                },
                r,
            ),
    {
        let effective: &BoldOption = match &option {
            Some(o) => o,
            None => &self.option,
        };
        let payload: Vec<u8> = code_option.data.as_str().as_bytes_vec();
        generate(&payload, EcLevel::Medium, effective)
    }
}

impl Bold {
    /// The options of this generator.
    pub fn get_option(&self) -> (r: &BoldOption)
        ensures
            *r == self.spec_option(),
    {
        &self.option
    }
}

} // verus!
