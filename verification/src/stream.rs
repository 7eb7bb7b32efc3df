//! The codeword stream: one packed 32-bit codeword per quantized block,
//! serialized as four big-endian bytes, in row-major block order.
//!
//! Reading and writing the framed stream itself (its header and transport)
//! belongs to an outside collaborator; these functions produce and consume
//! the exact payload bytes.

use crate::array2::Array2;
use crate::codeword::{
    bytes_to_codeword, codeword_to_bytes, create_codeword, deconstruct_codeword, spec_be_bytes,
    spec_block_of, spec_codeword, spec_word_of_bytes,
};
use crate::quantized::BitValue;
use vstd::prelude::*;

verus! {

/// Packs every quantized block of the grid into its codeword and returns
/// the big-endian bytes of the codewords in row-major block order. A grid
/// holding a block with a field outside its bit width is a contract
/// violation and is ruled out by the precondition.
pub fn pack_codewords(blocks: &Array2<BitValue>) -> (bytes: Vec<[u8; 4]>)
    requires
        blocks.wf(),
        forall|k: int| 0 <= k < blocks@.len() ==> (#[trigger] blocks@[k]).valid(),
    ensures
        bytes@.len() == blocks@.len(),
        forall|k: int| #![trigger bytes@[k]]
            0 <= k < bytes@.len() ==> bytes@[k]@ == spec_be_bytes(spec_codeword(blocks@[k])),
{
    let triples = blocks.iter_row_major();
    let mut bytes: Vec<[u8; 4]> = Vec::new();
    let mut k: usize = 0;
    let total = triples.len();
    while k < total
        invariant
            total == triples@.len(),
            triples@.len() == blocks@.len(),
            forall|j: int| #![trigger triples@[j]]
                0 <= j < triples@.len() ==> triples@[j].2 == &blocks@[j],
            forall|j: int| 0 <= j < blocks@.len() ==> (#[trigger] blocks@[j]).valid(),
            k <= total,
            bytes@.len() == k,
            forall|j: int| #![trigger bytes@[j]]
                0 <= j < k ==> bytes@[j]@ == spec_be_bytes(spec_codeword(blocks@[j])),
        decreases total - k,
    {
        let block = triples[k].2;
        bytes.push(codeword_to_bytes(create_codeword(block)));
        k = k + 1;
    }
    bytes
}

/// Unpacks a stream payload back into the grid of quantized blocks: every
/// four bytes become one codeword, in row-major block order. `width` and
/// `height` are the dimensions of the trimmed pixel grid the stream
/// describes; the block grid has half of each. A payload whose length is
/// not exactly one four-byte group per block is a contract violation and is
/// ruled out by the precondition.
pub fn unpack_codewords(bytes: &Vec<[u8; 4]>, width: usize, height: usize) -> (blocks: Array2<
    BitValue,
>)
    requires
        bytes@.len() == (width / 2) * (height / 2),
    ensures
        blocks.wf(),
        blocks.spec_width() == width / 2,
        blocks.spec_height() == height / 2,
        forall|k: int| #![trigger blocks@[k]]
            0 <= k < blocks@.len() ==> blocks@[k] == spec_block_of(
                spec_word_of_bytes(bytes@[k]@),
            ) && blocks@[k].valid(),
{
    let total = bytes.len();
    let mut cells: Vec<BitValue> = Vec::new();
    let mut k: usize = 0;
    while k < total
        invariant
            total == bytes@.len(),
            k <= total,
            cells@.len() == k,
            forall|j: int| #![trigger cells@[j]]
                0 <= j < k ==> cells@[j] == spec_block_of(spec_word_of_bytes(bytes@[j]@))
                    && cells@[j].valid(),
        decreases total - k,
    {
        cells.push(deconstruct_codeword(bytes_to_codeword(bytes[k])));
        k = k + 1;
    }
    Array2::from_row_major(cells, width / 2, height / 2)
}

/// Law: the packed byte stream of a grid of valid blocks, unpacked with the
/// grid's own pixel dimensions, reproduces every block: packing loses
/// nothing.
pub proof fn lemma_stream_roundtrip(
    blocks: Array2<BitValue>,
    bytes: Seq<[u8; 4]>,
    back: Array2<BitValue>,
)
    requires
        blocks.wf(),
        forall|k: int| 0 <= k < blocks@.len() ==> (#[trigger] blocks@[k]).valid(),
        bytes.len() == blocks@.len(),
        forall|k: int| #![trigger bytes[k]]
            0 <= k < bytes.len() ==> bytes[k]@ == spec_be_bytes(spec_codeword(blocks@[k])),
        back@.len() == bytes.len(),
        forall|k: int| #![trigger back@[k]]
            0 <= k < back@.len() ==> back@[k] == spec_block_of(spec_word_of_bytes(bytes[k]@)),
    ensures
        back@ =~= blocks@,
{
    assert forall|k: int| 0 <= k < back@.len() implies back@[k] == blocks@[k] by {
        crate::codeword::lemma_codeword_bytes_roundtrip(spec_codeword(blocks@[k]));
        crate::codeword::lemma_codeword_roundtrip(blocks@[k]);
    }
}

} // verus!
