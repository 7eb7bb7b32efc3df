//! Core of a lossy still-image codec built on 2x2 pixel blocks.
//!
//! The verified library holds the parts of the pipeline that work on plain
//! integers: arbitrary-width bit fields inside a 64-bit word ([`bitpack`]),
//! a generic row-major 2D container, 2x2 block grouping, image trimming to
//! even dimensions, and the packing of quantized block values into 32-bit
//! codewords and their big-endian byte stream.
//!
//! Colour-space conversion, the frequency transform and quantization work on
//! floating-point samples and live with the I/O boundaries outside this
//! library; they exchange plain integer grids with it.

pub mod array2;
pub mod bitpack;
pub mod block;
pub mod codeword;
pub mod pixel;
pub mod quantized;
pub mod stream;
