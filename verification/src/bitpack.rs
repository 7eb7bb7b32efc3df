//! Range tests and get/set of arbitrary-width signed and unsigned bit fields
//! inside a 64-bit word.
//!
//! A field is named by its width and the position of its least-significant
//! bit; every operation is a pure function of its arguments. Shift amounts of
//! exactly 64, which the machine shift operators do not define, are given a
//! meaning here: they empty the word, except the arithmetic right shift of a
//! negative word, which keeps its sign.

use vstd::prelude::*;

verus! {

/// The 64-bit word whose low `width` bits are set; the whole word for
/// `width >= 64`.
pub open spec fn mask64(width: u64) -> u64 {
    if width >= 64 {
        u64::MAX
    } else {
        ((1u64 << width) - 1) as u64
    }
}

/// The unsigned value held by the `width`-bit field of `word` that starts at
/// bit `lsb`.
pub open spec fn spec_getu(word: u64, width: u64, lsb: u64) -> u64
    recommends
        width + lsb <= 64,
{
    (word >> lsb) & mask64(width)
}

/// The low `width` bits of `u` read as a two's-complement number: values with
/// the field's top bit set lie below zero.
pub open spec fn sign_extend(u: u64, width: u64) -> i64
    recommends
        u <= mask64(width),
{
    if width == 0 {
        0i64
    } else if width >= 64 {
        u as i64
    } else if u < (1u64 << ((width - 1) as u64)) {
        u as i64
    } else {
        ((u - (1u64 << width)) as i64)
    }
}

/// The signed value held by the `width`-bit field of `word` that starts at
/// bit `lsb`.
pub open spec fn spec_gets(word: u64, width: u64, lsb: u64) -> i64
    recommends
        width + lsb <= 64,
{
    sign_extend(spec_getu(word, width, lsb), width)
}

/// Whether the unsigned value `n` is representable in `width` unsigned bits.
/// At `width == 64` the maximum representable value itself is deliberately
/// reported as not fitting, to keep range checks strict.
pub open spec fn spec_fitsu(n: u64, width: u64) -> bool {
    if width > 64 {
        true
    } else if width == 64 {
        n < u64::MAX
    } else {
        n <= mask64(width)
    }
}

/// Whether the signed value `n` is representable in `width` signed
/// (two's-complement) bits. Width 0 holds only the value 0.
pub open spec fn spec_fitss(n: i64, width: u64) -> bool {
    if width == 0 {
        n == 0
    } else if width >= 64 {
        true
    } else {
        -(1i64 << ((width - 1) as u64)) <= n && n < (1i64 << ((width - 1) as u64))
    }
}

/// `word` with the bits of the `width`-bit field at `lsb` replaced by the low
/// `width` bits of `value`; every bit outside the field is kept.
pub open spec fn spec_newu(word: u64, width: u64, lsb: u64, value: u64) -> u64
    recommends
        width + lsb <= 64,
{
    (word & !(mask64(width) << lsb)) | ((value & mask64(width)) << lsb)
}

/// The bit pattern of `v` as an unsigned 64-bit word: two's complement for
/// negative values.
pub open spec fn as_bits64(v: i64) -> u64 {
    if v >= 0 {
        v as u64
    } else {
        ((v + 0x1_0000_0000_0000_0000) as u64)
    }
}

/// `word` with the `width`-bit field at `lsb` replaced by the low `width`
/// bits of the two's-complement pattern of `value`.
pub open spec fn spec_news(word: u64, width: u64, lsb: u64, value: i64) -> u64
    recommends
        width + lsb <= 64,
{
    spec_newu(word, width, lsb, as_bits64(value))
}

/// Returns true iff the signed value `n` fits into `width` signed bits.
pub fn fitss(n: i64, width: u64) -> (r: bool)
    ensures
        r == spec_fitss(n, width),
{
    if width == 0 {
        n == 0
    } else if width >= 64 {
        true
    } else {
        let k: u64 = width - 1;
        let bound: i64 = 1i64 << k;
        proof {
            assert(0 < 1i64 << k < i64::MAX) by (bit_vector)
                requires
                    k < 63,
            ;
        }
        -bound <= n && n < bound
    }
}

/// Returns true iff the unsigned value `n` fits into `width` unsigned bits;
/// at width 64 the maximum 64-bit value is reported as not fitting.
pub fn fitsu(n: u64, width: u64) -> (r: bool)
    ensures
        r == spec_fitsu(n, width),
{
    if width > 64 {
        true
    } else if width == 64 {
        n < u64::MAX
    } else {
        let bound: u64 = 1u64 << (width as u32);
        proof {
            assert(n < (1u64 << width) <==> n <= mask64(width)) by (bit_vector)
                requires
                    width < 64,
            ;
        }
        n < bound
    }
}

/// Shifts the word left by `bits`, emptying it at a shift of exactly 64.
pub fn shift_left(word: u64, bits: u64) -> (r: u64)
    requires
        bits <= 64,
    ensures
        r == (if bits == 64 {
            0u64
        } else {
            word << bits
        }),
{
    if bits == 64 {
        0
    } else {
        word << (bits as u32)
    }
}

/// Shifts the unsigned word right by `bits`, filling with zeros and emptying
/// it at a shift of exactly 64.
pub fn srl(word: u64, bits: u64) -> (r: u64)
    requires
        bits <= 64,
    ensures
        r == (if bits == 64 {
            0u64
        } else {
            word >> bits
        }),
{
    if bits == 64 {
        0
    } else {
        word >> (bits as u32)
    }
}

/// Shifts the signed word right by `bits`, copying the sign bit; a shift of
/// exactly 64 keeps only the sign: the minimum value for a negative word,
/// zero otherwise.
pub fn sra(word: i64, bits: u64) -> (r: i64)
    requires
        bits <= 64,
    ensures
        r == (if bits == 64 {
            if word < 0 {
                i64::MIN
            } else {
                0i64
            }
        } else {
            word >> bits
        }),
{
    if bits == 64 && word < 0 {
        i64::MIN
    } else if bits == 64 {
        0
    } else {
        word >> (bits as u32)
    }
}

/// Retrieves the unsigned value of the `width`-bit field of `word` that
/// starts at bit `lsb`. A field that does not lie inside the word is a
/// contract violation and is ruled out by the precondition.
#[verifier::rlimit(60)]
pub fn getu(word: u64, width: u64, lsb: u64) -> (r: u64)
    requires
        width + lsb <= 64,
    ensures
        r == spec_getu(word, width, lsb),
{
    let up: u64 = 64 - width - lsb;
    let val = shift_left(word, up);
    let down: u64 = 64 - width;
    let r = srl(val, down);
    proof {
        assert(r == spec_getu(word, width, lsb)) by (bit_vector)
            requires
                width + lsb <= 64,
                up + width + lsb == 64,
                down + width == 64,
                val == (if up == 64 {
                    0u64
                } else {
                    word << up
                }),
                r == (if down == 64 {
                    0u64
                } else {
                    val >> down
                }),
        ;
    }
    r
}

/// Retrieves the signed value of the `width`-bit field of `word` that starts
/// at bit `lsb`, sign-extending its top bit.
#[verifier::rlimit(60)]
pub fn gets(word: u64, width: u64, lsb: u64) -> (r: i64)
    requires
        width + lsb <= 64,
    ensures
        r == spec_gets(word, width, lsb),
{
    if width == 0 {
        0
    } else {
        let up: u64 = 64 - width - lsb;
        let val = shift_left(word, up);
        let down: u64 = 64 - width;
        let r = sra(val as i64, down);
        proof {
            assert(r == spec_gets(word, width, lsb)) by (bit_vector)
                requires
                    0 < width,
                    width + lsb <= 64,
                    up + width + lsb == 64,
                    down + width == 64,
                    val == (if up == 64 {
                        0u64
                    } else {
                        word << up
                    }),
                    r == ((val as i64) >> down),
            ;
        }
        r
    }
}

/// Returns `word` with the `width`-bit field at `lsb` replaced by the
/// unsigned `value`, keeping every other bit; no value when the field does
/// not lie inside the word or `value` does not fit it.
pub fn newu(word: u64, width: u64, lsb: u64, value: u64) -> (r: Option<u64>)
    ensures
        r == (if width + lsb <= 64 && spec_fitsu(value, width) {
            Some(spec_newu(word, width, lsb, value))
        } else {
            None::<u64>
        }),
{
    if width > 64 || lsb > 64 - width || !fitsu(value, width) {
        None
    } else {
        let left = shift_left(srl(word, width + lsb), width + lsb);
        let right = srl(shift_left(word, 64 - lsb), 64 - lsb);
        let mid = shift_left(value, lsb);
        let r = left | mid | right;
        proof {
            assert(r == spec_newu(word, width, lsb, value)) by (bit_vector)
                requires
                    width + lsb <= 64,
                    spec_fitsu(value, width),
                    left == (if width + lsb == 64 {
                        0u64
                    } else {
                        (word >> (width + lsb) as u64) << (width + lsb) as u64
                    }),
                    right == (if lsb == 0 {
                        0u64
                    } else {
                        (word << (64 - lsb) as u64) >> (64 - lsb) as u64
                    }),
                    mid == (if lsb == 64 {
                        0u64
                    } else {
                        value << lsb
                    }),
                    r == left | mid | right,
            ;
        }
        Some(r)
    }
}

/// Returns `word` with the `width`-bit field at `lsb` replaced by the
/// two's-complement pattern of the signed `value`, keeping every other bit;
/// no value when the field does not lie inside the word or `value` does not
/// fit it.
#[verifier::rlimit(60)]
pub fn news(word: u64, width: u64, lsb: u64, value: i64) -> (r: Option<u64>)
    ensures
        r == (if width + lsb <= 64 && spec_fitss(value, width) {
            Some(spec_news(word, width, lsb, value))
        } else {
            None::<u64>
        }),
{
    if width > 64 || lsb > 64 - width || !fitss(value, width) {
        None
    } else {
        let wide: u64 = value as u64;
        proof {
            assert(value as u64 == as_bits64(value)) by (bit_vector);
        }
        let val = srl(shift_left(wide, 64 - width), 64 - width);
        let left = shift_left(srl(word, width + lsb), width + lsb);
        let right = srl(shift_left(word, 64 - lsb), 64 - lsb);
        let mid = shift_left(val, lsb);
        let r = left | mid | right;
        proof {
            assert(r == spec_newu(word, width, lsb, wide)) by (bit_vector)
                requires
                    width + lsb <= 64,
                    val == (if width == 0 {
                        0u64
                    } else {
                        (wide << (64 - width) as u64) >> (64 - width) as u64
                    }),
                    left == (if width + lsb == 64 {
                        0u64
                    } else {
                        (word >> (width + lsb) as u64) << (width + lsb) as u64
                    }),
                    right == (if lsb == 0 {
                        0u64
                    } else {
                        (word << (64 - lsb) as u64) >> (64 - lsb) as u64
                    }),
                    mid == (if lsb == 64 {
                        0u64
                    } else {
                        val << lsb
                    }),
                    r == left | mid | right,
            ;
        }
        Some(r)
    }
}

/// Law: getting a just-set unsigned field gives the value back. For every
/// field that lies inside the word and every value that fits it, extraction
/// after insertion returns exactly the inserted value.
pub proof fn lemma_unsigned_field_roundtrip(word: u64, width: u64, lsb: u64, value: u64)
    by (bit_vector)
    requires
        width + lsb <= 64,
        spec_fitsu(value, width),
    ensures
        spec_getu(spec_newu(word, width, lsb, value), width, lsb) == value,
{
}

/// Law: getting a just-set signed field gives the value back, negative
/// values included.
pub proof fn lemma_signed_field_roundtrip(word: u64, width: u64, lsb: u64, value: i64)
    by (bit_vector)
    requires
        width + lsb <= 64,
        spec_fitss(value, width),
    ensures
        spec_gets(spec_news(word, width, lsb, value), width, lsb) == value,
{
}

/// Law: setting a field leaves every bit outside it unchanged: any other
/// field disjoint from it reads the same before and after.
pub proof fn lemma_field_update_preserves_rest(
    word: u64,
    width: u64,
    lsb: u64,
    value: u64,
    width2: u64,
    lsb2: u64,
)
    by (bit_vector)
    requires
        width + lsb <= 64,
        width2 + lsb2 <= 64,
        lsb2 + width2 <= lsb || lsb + width <= lsb2,
    ensures
        spec_getu(spec_newu(word, width, lsb, value), width2, lsb2) == spec_getu(
            word,
            width2,
            lsb2,
        ),
{
}

/// Law: a width-`w` signed field holds exactly the integers from
/// `-2^(w-1)` up to but not including `2^(w-1)`; width 0 holds only 0.
pub proof fn lemma_fitss_range(n: i64, width: u64)
    ensures
        width == 0 ==> (spec_fitss(n, width) <==> n == 0),
        0 < width ==> (spec_fitss(n, width) <==> -vstd::arithmetic::power2::pow2(
            (width - 1) as nat,
        ) <= n < vstd::arithmetic::power2::pow2((width - 1) as nat)),
{
    if 0 < width < 64 {
        let k = (width - 1) as u64;
        assert(1u64 << k == vstd::arithmetic::power2::pow2(k as nat)) by {
            vstd::bits::lemma_u64_pow2_no_overflow(k as nat);
            vstd::bits::lemma_u64_shl_is_mul(1u64, k);
        }
        assert(1i64 << k == 1u64 << k) by (bit_vector)
            requires
                k < 63,
        ;
    } else if width >= 64 {
        vstd::arithmetic::power2::lemma2_to64_rest();
        if width > 64 {
            vstd::arithmetic::power2::lemma_pow2_strictly_increases(63, (width - 1) as nat);
        }
    }
}

/// Law: a width-`w` unsigned field holds exactly the integers below `2^w`,
/// except that at width 64 the maximum word value is reported as not
/// fitting.
pub proof fn lemma_fitsu_range(n: u64, width: u64)
    ensures
        width < 64 ==> (spec_fitsu(n, width) <==> n < vstd::arithmetic::power2::pow2(
            width as nat,
        )),
        width == 64 ==> (spec_fitsu(n, width) <==> n < u64::MAX),
        width > 64 ==> spec_fitsu(n, width),
{
    if width < 64 {
        assert(1u64 << width == vstd::arithmetic::power2::pow2(width as nat)) by {
            vstd::bits::lemma_u64_pow2_no_overflow(width as nat);
            vstd::bits::lemma_u64_shl_is_mul(1u64, width);
        }
        assert(n <= mask64(width) <==> n < (1u64 << width)) by (bit_vector)
            requires
                width < 64,
        ;
    }
}

} // verus!
