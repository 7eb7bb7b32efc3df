//! The quantized form of one 2x2 block: the exact payload of one codeword.

use vstd::prelude::*;

verus! {

/// The quantized values of one 2x2 block. `a` is the block's average
/// brightness as a 9-bit unsigned scaled integer, `b`, `c` and `d` are the
/// three brightness difference terms as 5-bit signed scaled integers, and
/// `index_pb` and `index_pr` are 4-bit indices into the external 16-entry
/// chroma quantization table.
#[derive(Clone, Copy, PartialEq, Eq, Structural, Debug)]
pub struct BitValue {
    pub a: u64,
    pub b: i64,
    pub c: i64,
    pub d: i64,
    pub index_pb: usize,
    pub index_pr: usize,
}

impl BitValue {
    /// Every field lies within its codeword bit width: `a` in 9 unsigned
    /// bits, `b`, `c` and `d` in 5 signed bits each, and both chroma indices
    /// in 4 unsigned bits.
    pub open spec fn valid(self) -> bool {
        &&& self.a < 512
        &&& -16 <= self.b < 16
        &&& -16 <= self.c < 16
        &&& -16 <= self.d < 16
        &&& self.index_pb < 16
        &&& self.index_pr < 16
    }
}

} // verus!
