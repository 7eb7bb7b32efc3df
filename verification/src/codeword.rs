//! Packing of one quantized 2x2 block into a 32-bit codeword and back, and
//! the codeword's big-endian byte form.
//!
//! Bit layout of a codeword, from the least-significant bit: bits [0,4) hold
//! `index_pr`, [4,8) `index_pb`, [8,13) `d`, [13,18) `c`, [18,23) `b`, and
//! [23,32) `a`, so `a` occupies the top 9 bits of the word.

use crate::bitpack::{as_bits64, gets, getu, mask64, news, newu, spec_gets, spec_getu};
use crate::quantized::BitValue;
use vstd::prelude::*;

verus! {

/// The 32-bit word that holds the six scalar fields in the documented
/// layout: the low 5 bits of each signed term in two's complement, each
/// value shifted to its slot.
pub open spec fn spec_pack(a: u64, b: i64, c: i64, d: i64, pb: u64, pr: u64) -> u32 {
    ((((a & 0x1ff) << 23) | ((as_bits64(b) & 0x1f) << 18) | ((as_bits64(c) & 0x1f) << 13) | ((
    as_bits64(d) & 0x1f) << 8) | ((pb & 0xf) << 4) | (pr & 0xf)) as u32)
}

/// The codeword that holds the fields of `codes` in the documented layout.
pub open spec fn spec_codeword(codes: BitValue) -> u32
    recommends
        codes.valid(),
{
    spec_pack(
        codes.a,
        codes.b,
        codes.c,
        codes.d,
        codes.index_pb as u64,
        codes.index_pr as u64,
    )
}

/// The quantized block whose fields are the six bit fields of `codeword`.
pub open spec fn spec_block_of(codeword: u32) -> BitValue {
    BitValue {
        a: spec_getu(codeword as u64, 9, 23),
        b: spec_gets(codeword as u64, 5, 18),
        c: spec_gets(codeword as u64, 5, 13),
        d: spec_gets(codeword as u64, 5, 8),
        index_pb: spec_getu(codeword as u64, 4, 4) as usize,
        index_pr: spec_getu(codeword as u64, 4, 0) as usize,
    }
}

/// Packs the quantized values of one block into a 32-bit codeword. A block
/// with a field outside its bit width is a contract violation and is ruled
/// out by the precondition.
pub fn create_codeword(codes: &BitValue) -> (w: u32)
    requires
        codes.valid(),
    ensures
        w == spec_codeword(*codes),
        spec_block_of(w) == *codes,
{
    proof {
        assert(mask64(4) == 0xf && mask64(5) == 0x1f && mask64(9) == 0x1ff && (1i64 << 4)
            == 16i64) by (bit_vector);
    }
    let mut codeword: u64 = 0;
    codeword = newu(codeword, 4, 0, codes.index_pr as u64).unwrap();
    codeword = newu(codeword, 4, 4, codes.index_pb as u64).unwrap();
    codeword = news(codeword, 5, 8, codes.d).unwrap();
    codeword = news(codeword, 5, 13, codes.c).unwrap();
    codeword = news(codeword, 5, 18, codes.b).unwrap();
    codeword = newu(codeword, 9, 23, codes.a).unwrap();
    let w = codeword as u32;
    proof {
        let a = codes.a;
        let b = codes.b;
        let c = codes.c;
        let d = codes.d;
        let pb = codes.index_pb as u64;
        let pr = codes.index_pr as u64;
        let full = codeword;
        assert((full as u32) == spec_pack(a, b, c, d, pb, pr) && spec_getu(
            full as u32 as u64,
            9,
            23,
        ) == a && spec_gets(full as u32 as u64, 5, 18) == b && spec_gets(full as u32 as u64, 5, 13)
            == c && spec_gets(full as u32 as u64, 5, 8) == d && spec_getu(full as u32 as u64, 4, 4)
            == pb && spec_getu(full as u32 as u64, 4, 0) == pr) by (bit_vector)
            requires
                full == crate::bitpack::spec_newu(
                    crate::bitpack::spec_news(
                        crate::bitpack::spec_news(
                            crate::bitpack::spec_news(
                                crate::bitpack::spec_newu(
                                    crate::bitpack::spec_newu(0u64, 4, 0, pr),
                                    4,
                                    4,
                                    pb,
                                ),
                                5,
                                8,
                                d,
                            ),
                            5,
                            13,
                            c,
                        ),
                        5,
                        18,
                        b,
                    ),
                    9,
                    23,
                    a,
                ),
                a < 512,
                -16 <= b < 16,
                -16 <= c < 16,
                -16 <= d < 16,
                pb < 16,
                pr < 16,
        ;
        assert(codes.index_pb as u64 as usize == codes.index_pb);
        assert(codes.index_pr as u64 as usize == codes.index_pr);
    }
    w
}

/// Unpacks a 32-bit codeword into the quantized values of one block; every
/// field of the result lies within its bit width.
pub fn deconstruct_codeword(codeword: u32) -> (codes: BitValue)
    ensures
        codes == spec_block_of(codeword),
        codes.valid(),
{
    let codes = BitValue {
        a: getu(codeword as u64, 9, 23),
        b: gets(codeword as u64, 5, 18),
        c: gets(codeword as u64, 5, 13),
        d: gets(codeword as u64, 5, 8),
        index_pb: getu(codeword as u64, 4, 4) as usize,
        index_pr: getu(codeword as u64, 4, 0) as usize,
    };
    proof {
        let w = codeword;
        assert(spec_getu(w as u64, 9, 23) < 512 && -16 <= spec_gets(w as u64, 5, 18) < 16 && -16
            <= spec_gets(w as u64, 5, 13) < 16 && -16 <= spec_gets(w as u64, 5, 8) < 16
            && spec_getu(w as u64, 4, 4) < 16 && spec_getu(w as u64, 4, 0) < 16) by (bit_vector);
    }
    codes
}

/// Law: unpacking a packed block gives the block back: for every quantized
/// block whose fields lie within their bit widths, the six fields survive
/// the trip through the 32-bit codeword exactly.
pub proof fn lemma_codeword_roundtrip(codes: BitValue)
    requires
        codes.valid(),
    ensures
        spec_block_of(spec_codeword(codes)) == codes,
{
    let a = codes.a;
    let b = codes.b;
    let c = codes.c;
    let d = codes.d;
    let pb = codes.index_pb as u64;
    let pr = codes.index_pr as u64;
    let w = spec_pack(a, b, c, d, pb, pr);
    assert(spec_getu(w as u64, 9, 23) == a && spec_gets(w as u64, 5, 18) == b && spec_gets(
        w as u64,
        5,
        13,
    ) == c && spec_gets(w as u64, 5, 8) == d && spec_getu(w as u64, 4, 4) == pb && spec_getu(
        w as u64,
        4,
        0,
    ) == pr) by (bit_vector)
        requires
            w == spec_pack(a, b, c, d, pb, pr),
            a < 512,
            -16 <= b < 16,
            -16 <= c < 16,
            -16 <= d < 16,
            pb < 16,
            pr < 16,
    ;
    assert(codes.index_pb as u64 as usize == codes.index_pb);
    assert(codes.index_pr as u64 as usize == codes.index_pr);
}

/// Law: packing the six fields read from any 32-bit word gives that word
/// back: the six fields tile all 32 bits, so no codeword bit is lost or
/// invented by an unpack-then-pack trip, whatever the stream held.
pub proof fn lemma_unpack_pack_roundtrip(codeword: u32)
    ensures
        spec_codeword(spec_block_of(codeword)) == codeword,
{
    let w = codeword;
    let a = spec_getu(w as u64, 9, 23);
    let b = spec_gets(w as u64, 5, 18);
    let c = spec_gets(w as u64, 5, 13);
    let d = spec_gets(w as u64, 5, 8);
    let pb = spec_getu(w as u64, 4, 4);
    let pr = spec_getu(w as u64, 4, 0);
    assert(pb < 16 && pr < 16 && spec_pack(a, b, c, d, pb, pr) == w) by (bit_vector)
        requires
            a == spec_getu(w as u64, 9, 23),
            b == spec_gets(w as u64, 5, 18),
            c == spec_gets(w as u64, 5, 13),
            d == spec_gets(w as u64, 5, 8),
            pb == spec_getu(w as u64, 4, 4),
            pr == spec_getu(w as u64, 4, 0),
    ;
    assert(pb as usize as u64 == pb);
    assert(pr as usize as u64 == pr);
}

/// The four big-endian bytes of a codeword, most significant first.
pub open spec fn spec_be_bytes(codeword: u32) -> Seq<u8> {
    seq![
        ((codeword >> 24) & 0xff) as u8,
        ((codeword >> 16) & 0xff) as u8,
        ((codeword >> 8) & 0xff) as u8,
        (codeword & 0xff) as u8,
    ]
}

/// The codeword read back from four big-endian bytes, most significant
/// first.
pub open spec fn spec_word_of_bytes(bytes: Seq<u8>) -> u32
    recommends
        bytes.len() == 4,
{
    ((bytes[0] as u32) << 24) | ((bytes[1] as u32) << 16) | ((bytes[2] as u32) << 8) | (
    bytes[3] as u32)
}

/// Converts a 32-bit codeword to its four big-endian bytes.
pub fn codeword_to_bytes(codeword: u32) -> (bytes: [u8; 4])
    ensures
        bytes@ == spec_be_bytes(codeword),
{
    let bytes: [u8; 4] = [
        ((codeword >> 24) & 0xff) as u8,
        ((codeword >> 16) & 0xff) as u8,
        ((codeword >> 8) & 0xff) as u8,
        (codeword & 0xff) as u8,
    ];
    proof {
        assert(bytes@ =~= spec_be_bytes(codeword));
    }
    bytes
}

/// Converts four big-endian bytes back to a 32-bit codeword.
pub fn bytes_to_codeword(bytes: [u8; 4]) -> (codeword: u32)
    ensures
        codeword == spec_word_of_bytes(bytes@),
{
    ((bytes[0] as u32) << 24) | ((bytes[1] as u32) << 16) | ((bytes[2] as u32) << 8) | (
    bytes[3] as u32)
}

/// Law: a codeword survives the trip through its big-endian bytes exactly.
pub proof fn lemma_codeword_bytes_roundtrip(codeword: u32)
    ensures
        spec_word_of_bytes(spec_be_bytes(codeword)) == codeword,
{
    let b0 = ((codeword >> 24) & 0xff) as u8;
    let b1 = ((codeword >> 16) & 0xff) as u8;
    let b2 = ((codeword >> 8) & 0xff) as u8;
    let b3 = (codeword & 0xff) as u8;
    assert(((b0 as u32) << 24) | ((b1 as u32) << 16) | ((b2 as u32) << 8) | (b3 as u32)
        == codeword) by (bit_vector)
        requires
            b0 == ((codeword >> 24) & 0xff) as u8,
            b1 == ((codeword >> 16) & 0xff) as u8,
            b2 == ((codeword >> 8) & 0xff) as u8,
            b3 == (codeword & 0xff) as u8,
    ;
}

/// Law: four bytes survive the trip through the codeword they spell exactly.
pub proof fn lemma_bytes_codeword_roundtrip(bytes: Seq<u8>)
    requires
        bytes.len() == 4,
    ensures
        spec_be_bytes(spec_word_of_bytes(bytes)) == bytes,
{
    let b0 = bytes[0];
    let b1 = bytes[1];
    let b2 = bytes[2];
    let b3 = bytes[3];
    let w = spec_word_of_bytes(bytes);
    assert(((w >> 24) & 0xff) as u8 == b0 && ((w >> 16) & 0xff) as u8 == b1 && ((w >> 8)
        & 0xff) as u8 == b2 && (w & 0xff) as u8 == b3) by (bit_vector)
        requires
            w == ((b0 as u32) << 24) | ((b1 as u32) << 16) | ((b2 as u32) << 8) | (b3 as u32),
    ;
    assert(spec_be_bytes(w) =~= bytes);
}

} // verus!
