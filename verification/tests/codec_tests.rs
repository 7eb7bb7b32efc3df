use rpeg::array2::Array2;
use rpeg::block::{group_quads, ungroup_quads, Quad};
use rpeg::codeword::{bytes_to_codeword, codeword_to_bytes, create_codeword, deconstruct_codeword};
use rpeg::pixel::{trim_image, Rgb};
use rpeg::quantized::BitValue;
use rpeg::stream::{pack_codewords, unpack_codewords};

fn px(v: u16) -> Rgb {
    Rgb { red: v, green: v, blue: v }
}

#[test]
fn trim_keeps_even_dimensions() {
    let pixels: Vec<Rgb> = (0..24).map(px).collect();
    let g = trim_image(&pixels, 6, 4);
    assert_eq!(g.width(), 6);
    assert_eq!(g.height(), 4);
    assert_eq!(g.get(3, 5), Some(&px(23)));
}

#[test]
fn trim_drops_odd_column_and_row() {
    // A 5x4 image is trimmed to 4x4: the last column goes, the rows stay.
    let pixels: Vec<Rgb> = (0..20).map(px).collect();
    let g = trim_image(&pixels, 5, 4);
    assert_eq!(g.width(), 4);
    assert_eq!(g.height(), 4);
    for r in 0..4 {
        for c in 0..4 {
            assert_eq!(g.get(r, c), Some(&px((r * 5 + c) as u16)));
        }
    }
    // A 3x3 image loses both its last column and its last row.
    let pixels: Vec<Rgb> = (0..9).map(px).collect();
    let g = trim_image(&pixels, 3, 3);
    assert_eq!(g.width(), 2);
    assert_eq!(g.height(), 2);
    assert_eq!(g.get(1, 1), Some(&px(4)));
}

#[test]
fn group_gathers_2x2_neighborhoods() {
    let g = Array2::from_row_major(vec![1, 2, 3, 4, 5, 6, 7, 8], 4, 2);
    let blocks = group_quads(&g);
    assert_eq!(blocks.width(), 2);
    assert_eq!(blocks.height(), 1);
    assert_eq!(blocks.get(0, 0), Some(&Quad { tl: 1, tr: 2, bl: 5, br: 6 }));
    assert_eq!(blocks.get(0, 1), Some(&Quad { tl: 3, tr: 4, bl: 7, br: 8 }));
}

#[test]
fn group_ungroup_roundtrip() {
    let cells: Vec<i32> = (0..24).collect();
    let g = Array2::from_row_major(cells.clone(), 6, 4);
    let back = ungroup_quads(&group_quads(&g));
    assert_eq!(back.width(), 6);
    assert_eq!(back.height(), 4);
    let read: Vec<i32> = back.iter_row_major().into_iter().map(|t| *t.2).collect();
    assert_eq!(read, cells);
}

#[test]
fn codeword_roundtrip_samples() {
    let samples = [
        BitValue { a: 511, b: 15, c: -16, d: 0, index_pb: 0, index_pr: 0 },
        BitValue { a: 0, b: -16, c: 15, d: -1, index_pb: 15, index_pr: 15 },
        BitValue { a: 256, b: 0, c: 0, d: 0, index_pb: 7, index_pr: 8 },
        BitValue { a: 1, b: -5, c: 3, d: 12, index_pb: 9, index_pr: 2 },
    ];
    for codes in samples {
        let word = create_codeword(&codes);
        assert_eq!(deconstruct_codeword(word), codes);
    }
}

#[test]
fn codeword_bit_layout() {
    // a = 511 fills the top 9 bits; b = 01111 at bit 18, c = 10000 at bit 13.
    let codes = BitValue { a: 511, b: 15, c: -16, d: 0, index_pb: 0, index_pr: 0 };
    let word = create_codeword(&codes);
    assert_eq!(word, 0xFFBE_0000);
    assert_eq!(word >> 23, 0x1FF);
    let codes = BitValue { a: 0, b: 0, c: 0, d: 0, index_pb: 0, index_pr: 15 };
    assert_eq!(create_codeword(&codes), 0x0000_000F);
    let codes = BitValue { a: 0, b: 0, c: 0, d: -16, index_pb: 15, index_pr: 0 };
    assert_eq!(create_codeword(&codes), 0x0000_10F0);
}

#[test]
fn unpack_then_pack_restores_any_word() {
    for word in [0u32, u32::MAX, 0xDEAD_BEEF, 0x1234_5678, 0xFFBE_0000] {
        assert_eq!(create_codeword(&deconstruct_codeword(word)), word);
    }
}

#[test]
fn codeword_bytes_are_big_endian() {
    assert_eq!(codeword_to_bytes(0x0A0B_0C0D), [0x0A, 0x0B, 0x0C, 0x0D]);
    assert_eq!(bytes_to_codeword([0x0A, 0x0B, 0x0C, 0x0D]), 0x0A0B_0C0D);
    assert_eq!(bytes_to_codeword(codeword_to_bytes(0xFFBE_0000)), 0xFFBE_0000);
}

#[test]
fn stream_roundtrip_restores_blocks() {
    let blocks_vec = vec![
        BitValue { a: 511, b: 15, c: -16, d: 0, index_pb: 0, index_pr: 0 },
        BitValue { a: 0, b: -16, c: 15, d: -1, index_pb: 15, index_pr: 15 },
        BitValue { a: 100, b: 1, c: -2, d: 3, index_pb: 4, index_pr: 5 },
        BitValue { a: 300, b: -7, c: 9, d: -11, index_pb: 13, index_pr: 1 },
    ];
    let blocks = Array2::from_row_major(blocks_vec.clone(), 2, 2);
    let bytes = pack_codewords(&blocks);
    assert_eq!(bytes.len(), 4);
    // The stream describes a 4x4 trimmed pixel grid.
    let back = unpack_codewords(&bytes, 4, 4);
    assert_eq!(back.width(), 2);
    assert_eq!(back.height(), 2);
    let read: Vec<BitValue> = back.iter_row_major().into_iter().map(|t| *t.2).collect();
    assert_eq!(read, blocks_vec);
}

#[test]
fn odd_width_image_compresses_to_trimmed_dimensions() {
    // A 5x4 image is trimmed to 4x4 before encoding; the decoded block grid
    // then spans exactly the trimmed dimensions, not the original ones.
    let pixels: Vec<Rgb> = (0..20).map(px).collect();
    let trimmed = trim_image(&pixels, 5, 4);
    assert_eq!((trimmed.width(), trimmed.height()), (4, 4));
    let quads = group_quads(&trimmed);
    let blocks_vec: Vec<BitValue> = quads
        .iter_row_major()
        .into_iter()
        .map(|(_, _, q)| BitValue {
            a: q.tl.red as u64 % 512,
            b: 0,
            c: 0,
            d: 0,
            index_pb: 0,
            index_pr: 0,
        })
        .collect();
    let blocks = Array2::from_row_major(blocks_vec, quads.width(), quads.height());
    let bytes = pack_codewords(&blocks);
    assert_eq!(bytes.len(), 4);
    let decoded = unpack_codewords(&bytes, trimmed.width(), trimmed.height());
    assert_eq!((2 * decoded.width(), 2 * decoded.height()), (4, 4));
}

// The floating-point stages of the codec (color transform, frequency
// transform, quantization) live outside the verified library; the end-to-end
// scenario below reproduces them here to drive the library's integer codec.

fn luma_of(red: u16, green: u16, blue: u16, denominator: u16) -> (f32, f32, f32) {
    let r = red as f32 / denominator as f32;
    let g = green as f32 / denominator as f32;
    let b = blue as f32 / denominator as f32;
    (
        0.299 * r + 0.587 * g + 0.114 * b,
        -0.168736 * r - 0.331264 * g + 0.5 * b,
        0.5 * r - 0.418688 * g - 0.081312 * b,
    )
}

fn clamp_encode(x: f64) -> i64 {
    let x = x.clamp(-0.3, 0.3);
    (x * 50.0).round() as i64
}

#[test]
fn white_image_roundtrip() {
    // A 2x2 all-white image (denominator 255) compresses to one codeword.
    let pixels: Vec<Rgb> = vec![px(255); 4];
    let image = trim_image(&pixels, 2, 2);
    let quads = group_quads(&image);
    assert_eq!((quads.width(), quads.height()), (1, 1));
    let quad = *quads.get(0, 0).unwrap();
    let samples = [quad.tl, quad.bl, quad.tr, quad.br];
    let cv: Vec<(f32, f32, f32)> =
        samples.iter().map(|p| luma_of(p.red, p.green, p.blue, 255)).collect();
    let y: Vec<f64> = cv.iter().map(|t| t.0 as f64).collect();
    let pb_avg = (cv[0].1 + cv[1].1 + cv[2].1 + cv[3].1) / 4.0;
    let pr_avg = (cv[0].2 + cv[1].2 + cv[2].2 + cv[3].2) / 4.0;
    let a = (y[0] + y[1] + y[2] + y[3]) / 4.0;
    let b = (y[3] + y[2] - y[1] - y[0]) / 4.0;
    let c = (y[3] - y[2] + y[1] - y[0]) / 4.0;
    let d = (y[3] - y[2] - y[1] + y[0]) / 4.0;
    let codes = BitValue {
        a: (a * 511.0).round() as u64,
        b: clamp_encode(b),
        c: clamp_encode(c),
        d: clamp_encode(d),
        index_pb: csc411_arith::index_of_chroma(pb_avg),
        index_pr: csc411_arith::index_of_chroma(pr_avg),
    };
    assert_eq!((codes.a, codes.b, codes.c, codes.d), (511, 0, 0, 0));
    let blocks = Array2::from_row_major(vec![codes], 1, 1);
    let stream = pack_codewords(&blocks);
    assert_eq!(stream.len(), 1);

    // Decode the one codeword and reconstruct the four pixels.
    let decoded = unpack_codewords(&stream, 2, 2);
    let codes2 = *decoded.get(0, 0).unwrap();
    assert_eq!(codes2, codes);
    let a2 = codes2.a as f64 / 511.0;
    let b2 = codes2.b as f64 / 50.0;
    let c2 = codes2.c as f64 / 50.0;
    let d2 = codes2.d as f64 / 50.0;
    let pb2 = csc411_arith::chroma_of_index(codes2.index_pb);
    let pr2 = csc411_arith::chroma_of_index(codes2.index_pr);
    let ys = [a2 - b2 - c2 + d2, a2 - b2 + c2 - d2, a2 + b2 - c2 - d2, a2 + b2 + c2 + d2];
    for y2 in ys {
        let red = ((y2 as f32 + 1.402 * pr2) * 255.0).round();
        let green = ((y2 as f32 - 0.344136 * pb2 - 0.714136 * pr2) * 255.0).round();
        let blue = ((y2 as f32 + 1.772 * pb2) * 255.0).round();
        // The external chroma table has no entry for exactly neutral chroma:
        // its nearest level shifts a channel of a pure white pixel by up to
        // five levels out of 255.
        assert!((red - 255.0).abs() <= 5.0);
        assert!((green - 255.0).abs() <= 5.0);
        assert!((blue - 255.0).abs() <= 5.0);
    }
}
