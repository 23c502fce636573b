//! Generation of QR code symbols: mode and version selection, data codeword
//! construction, Reed-Solomon error correction, module placement, mask
//! selection, and rendering of the finished matrix to a pixel buffer.

pub mod bits;
pub mod bold;
pub mod ecc;
pub mod encode;
pub mod error;
pub mod gf256;
pub mod mask;
pub mod matrix;
pub mod mode;
pub mod pipeline;
pub mod qr;
pub mod render;
pub mod tables;

pub use bold::{Bold, BoldOption, BoldTrait, CodeOption, OutputType};
pub use error::{EcLevel, QrError};
pub use pipeline::{encode_matrix, generate};
pub use qr::{QrBold, QrOptions};
pub use render::{PixelBuffer, Rgb};
