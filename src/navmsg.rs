use vstd::prelude::*;

verus! {

/// The 24 data bits d1..d24 of a word, in place (bits 29 to 6).
pub const DATA_BITS: u32 = 0x3FFF_FFC0;

/// Parity masks over the data bits, one per parity bit D25..D30.
pub const PARITY_MASK_25: u32 = 0x3B1F_3480;

pub const PARITY_MASK_26: u32 = 0x1D8F_9A40;

pub const PARITY_MASK_27: u32 = 0x2EC7_CD00;

pub const PARITY_MASK_28: u32 = 0x1763_E680;

pub const PARITY_MASK_29: u32 = 0x2BB1_F340;

pub const PARITY_MASK_30: u32 = 0x0B7A_89C0;

/// The exclusive or of all bits of `x`.
pub open spec fn parity(x: u32) -> u32 {
    let a = x ^ (x >> 16u32);
    let b = a ^ (a >> 8u32);
    let c = b ^ (b >> 4u32);
    let d = c ^ (c >> 2u32);
    let e = d ^ (d >> 1u32);
    e & 1u32
}

/// The source data bits d1..d24 (in place) that word `w` carries when the
/// previous word ended in D30* = `p30`: sent complemented when `p30` is 1.
pub open spec fn source_data(p30: u32, w: u32) -> u32 {
    if p30 == 1 {
        (w & DATA_BITS) ^ DATA_BITS
    } else {
        w & DATA_BITS
    }
}

/// The parity equations of IS-GPS-200 for a 30-bit word `w` that follows a
/// word ending in D29* = `p29` and D30* = `p30`.
pub open spec fn parity_ok(p29: u32, p30: u32, w: u32) -> bool {
    let d = source_data(p30, w);
    &&& w < 0x4000_0000
    &&& (w >> 5u32) & 1 == p29 ^ parity(PARITY_MASK_25 & d)
    &&& (w >> 4u32) & 1 == p30 ^ parity(PARITY_MASK_26 & d)
    &&& (w >> 3u32) & 1 == p29 ^ parity(PARITY_MASK_27 & d)
    &&& (w >> 2u32) & 1 == p30 ^ parity(PARITY_MASK_28 & d)
    &&& (w >> 1u32) & 1 == p30 ^ parity(PARITY_MASK_29 & d)
    &&& w & 1 == p29 ^ parity(PARITY_MASK_30 & d)
}

/// The exclusive or of all bits of `x`.
fn parity_of(x: u32) -> (r: u32)
    ensures
        r == parity(x),
{
    let a = x ^ (x >> 16u32);
    let b = a ^ (a >> 8u32);
    let c = b ^ (b >> 4u32);
    let d = c ^ (c >> 2u32);
    let e = d ^ (d >> 1u32);
    e & 1u32
}

proof fn lemma_word_parity(d: u32, p29: u32, p30: u32, w: u32)
    by (bit_vector)
    requires
        d & DATA_BITS == d,
        p29 <= 1,
        p30 <= 1,
        w == (((if p30 == 1 { d ^ DATA_BITS } else { d }) | ((p29 ^ parity(PARITY_MASK_25 & d)) << 5u32)
            | ((p30 ^ parity(PARITY_MASK_26 & d)) << 4u32) | ((p29 ^ parity(PARITY_MASK_27 & d)) << 3u32)
            | ((p30 ^ parity(PARITY_MASK_28 & d)) << 2u32) | ((p30 ^ parity(PARITY_MASK_29 & d)) << 1u32)
            | (p29 ^ parity(PARITY_MASK_30 & d))) & 0x3FFF_FFFFu32),
    ensures
        parity_ok(p29, p30, w),
        source_data(p30, w) == d,
{
}

/// Flipping d24 and then d23 as needed makes parity bits D29 and D30 zero.
proof fn lemma_nib_bits(d0: u32, p29: u32, p30: u32)
    by (bit_vector)
    requires
        p29 <= 1,
        p30 <= 1,
    ensures
        ({
            let d1 = if (p30 ^ parity(PARITY_MASK_29 & d0)) == 1 { d0 ^ (1u32 << 6u32) } else { d0 };
            let d2 = if (p29 ^ parity(PARITY_MASK_30 & d1)) == 1 { d1 ^ (1u32 << 7u32) } else { d1 };
            p30 ^ parity(PARITY_MASK_29 & d2) == 0 && p29 ^ parity(PARITY_MASK_30 & d2) == 0
        }),
{
}

/// Completes a word with its parity bits D25..D30.
///
/// `source` holds D29* and D30* of the previous word in bits 31 and 30 and
/// the data bits d1..d24 in bits 29 to 6. The data bits are sent
/// complemented when D30* is 1. For a word with non-information-bearing bits
/// (`nib`: words 2 and 10 of a subframe), d23 and d24 are chosen so that the
/// word ends in two zero bits.
pub fn compute_checksum(source: u32, nib: bool) -> (r: u32)
    ensures
        parity_ok((source >> 31u32) & 1, (source >> 30u32) & 1, r),
        !nib ==> source_data((source >> 30u32) & 1, r) == source & DATA_BITS,
        nib ==> source_data((source >> 30u32) & 1, r) & 0x3FFF_FF00 == source & 0x3FFF_FF00,
        nib ==> r & 3 == 0,
{
    let p29: u32 = (source >> 31u32) & 1;
    let p30: u32 = (source >> 30u32) & 1;
    assert(p29 <= 1 && p30 <= 1) by (bit_vector)
        requires
            p29 == (source >> 31u32) & 1,
            p30 == (source >> 30u32) & 1,
    ;
    let d0: u32 = source & DATA_BITS;
    let mut d: u32 = d0;
    if nib {
        proof {
            lemma_nib_bits(d0, p29, p30);
        }
        if (p30 ^ parity_of(PARITY_MASK_29 & d)) == 1 {
            d = d ^ (1u32 << 6u32);
        }
        if (p29 ^ parity_of(PARITY_MASK_30 & d)) == 1 {
            d = d ^ (1u32 << 7u32);
        }
    }
    assert(d & DATA_BITS == d && d & 0x3FFF_FF00 == source & 0x3FFF_FF00) by (bit_vector)
        requires
            d0 == source & DATA_BITS,
            d == d0 || d == d0 ^ (1u32 << 6u32) || d == d0 ^ (1u32 << 7u32) || d == (d0 ^ (1u32
                << 6u32)) ^ (1u32 << 7u32),
    ;
    let mut w: u32 = d;
    if p30 == 1 {
        w = w ^ DATA_BITS;
    }
    w = w | ((p29 ^ parity_of(PARITY_MASK_25 & d)) << 5u32);
    w = w | ((p30 ^ parity_of(PARITY_MASK_26 & d)) << 4u32);
    w = w | ((p29 ^ parity_of(PARITY_MASK_27 & d)) << 3u32);
    w = w | ((p30 ^ parity_of(PARITY_MASK_28 & d)) << 2u32);
    w = w | ((p30 ^ parity_of(PARITY_MASK_29 & d)) << 1u32);
    w = w | (p29 ^ parity_of(PARITY_MASK_30 & d));
    w = w & 0x3FFF_FFFF;
    proof {
        lemma_word_parity(d, p29, p30, w);
        if nib {
            assert(w & 3 == 0) by (bit_vector)
                requires
                    p29 <= 1,
                    p30 <= 1,
                    parity_ok(p29, p30, w),
                    source_data(p30, w) == d,
                    p30 ^ parity(PARITY_MASK_29 & d) == 0,
                    p29 ^ parity(PARITY_MASK_30 & d) == 0,
            ;
        }
    }
    w
}

/// Words in one subframe.
pub const WORDS_PER_SUBFRAME: usize = 10;

/// Subframes in one frame.
pub const SUBFRAMES: usize = 5;

/// Words in one frame.
pub const WORDS_PER_FRAME: usize = 50;

/// The time-of-week count, in units of 6 s, rolls over at this value.
pub const TOW_ROLLOVER: u32 = 100800;

/// The TOW field of the HOW, bits 29 to 13 of the source word.
pub const TOW_FIELD: u32 = 0x3FFF_E000;

/// The week-number field of the third word of subframe 1, bits 29 to 20.
pub const WEEK_FIELD: u32 = 0x3FF0_0000;

/// The TOW count of subframe `i` of a frame that follows TOW count `tow`.
pub open spec fn subframe_tow(tow: u32, i: int) -> u32 {
    ((tow + i + 1) % (TOW_ROLLOVER as int)) as u32
}

/// Word `k` of a frame with the transmission week number and the TOW counts
/// put in: the week number (10 bits) in the third word of subframe 1, and the
/// subframe's TOW count (17 bits) in each HOW, the second word of a subframe.
pub open spec fn stamped(sbf: Seq<u32>, wn: u32, tow: u32, k: int) -> u32 {
    let a = if k == 2 {
        sbf[k] | ((wn & 0x3FFu32) << 20u32)
    } else {
        sbf[k]
    };
    if k % 10 == 1 {
        a | ((subframe_tow(tow, k / 10) & 0x1FFFFu32) << 13u32)
    } else {
        a
    }
}

/// The word sent before word `k`: the last word of the previous frame for the first.
pub open spec fn word_before(r: Seq<u32>, prev: u32, k: int) -> u32 {
    if k == 0 {
        prev
    } else {
        r[k - 1]
    }
}

/// A word with non-information-bearing bits: the second and the tenth of a subframe.
pub open spec fn has_nib(k: int) -> bool {
    k % 10 == 1 || k % 10 == 9
}

/// The TOW count a receiver reads from a HOW `w` sent after a word ending in D30* = `p30`.
pub open spec fn how_tow(p30: u32, w: u32) -> u32 {
    (source_data(p30, w) >> 13u32) & 0x1FFFFu32
}

proof fn lemma_source_word(w0: u32, prev: u32, w: u32)
    by (bit_vector)
    requires
        w0 & !DATA_BITS == 0,
        w == w0 | ((prev << 30u32) & 0xC000_0000u32),
    ensures
        (w >> 31u32) & 1 == (prev >> 1u32) & 1,
        (w >> 30u32) & 1 == prev & 1,
        w & DATA_BITS == w0,
        w & 0x3FFF_FF00 == w0 & 0x3FFF_FF00,
{
}

proof fn lemma_week_field(base: u32, wn: u32, a: u32)
    by (bit_vector)
    requires
        base & !DATA_BITS == 0,
        a == base | ((wn & 0x3FFu32) << 20u32),
    ensures
        a & !DATA_BITS == 0,
{
}

proof fn lemma_tow_field(a: u32, t: u32, b: u32)
    by (bit_vector)
    requires
        a & !DATA_BITS == 0,
        a & TOW_FIELD == 0,
        t < 0x20000,
        b == a | ((t & 0x1FFFFu32) << 13u32),
    ensures
        b & !DATA_BITS == 0,
        (b >> 13u32) & 0x1FFFFu32 == t,
{
}

proof fn lemma_tow_bits(x: u32, y: u32)
    by (bit_vector)
    requires
        x & 0x3FFF_FF00 == y & 0x3FFF_FF00,
    ensures
        (x >> 13u32) & 0x1FFFFu32 == (y >> 13u32) & 0x1FFFFu32,
{
}

/// Word `k` of a frame, `w`, sent after the word `before`: it meets the
/// parity equations, carries the stamped source data (in a word with
/// non-information-bearing bits, all but d23 and d24, and it ends in two zero
/// bits), and a HOW carries its subframe's TOW count.
#[verifier::opaque]
pub open spec fn word_ok(sbf: Seq<u32>, wn: u32, tow: u32, k: int, before: u32, w: u32) -> bool {
    &&& parity_ok((before >> 1u32) & 1, before & 1, w)
    &&& !has_nib(k) ==> source_data(before & 1, w) == stamped(sbf, wn, tow, k)
    &&& has_nib(k) ==> source_data(before & 1, w) & 0x3FFF_FF00 == stamped(sbf, wn, tow, k)
        & 0x3FFF_FF00 && w & 3 == 0
    &&& k % 10 == 1 ==> how_tow(before & 1, w) == subframe_tow(tow, k / 10)
}

/// The subframe words meet what `encode_frame` asks of them.
pub open spec fn frame_source_ok(sbf: Seq<u32>, tow: u32) -> bool {
    &&& sbf.len() == WORDS_PER_FRAME
    &&& forall|k: int| 0 <= k < WORDS_PER_FRAME ==> #[trigger] sbf[k] & !DATA_BITS == 0
    &&& forall|k: int| 0 <= k < WORDS_PER_FRAME && k % 10 == 1 ==> #[trigger] sbf[k] & TOW_FIELD == 0
    &&& sbf[2] & WEEK_FIELD == 0
    &&& tow < TOW_ROLLOVER
}

/// Encodes word `k` of a frame, sent after the word `before`.
fn encode_word(sbf: &Vec<u32>, wn: u32, tow: u32, k: usize, before: u32) -> (w: u32)
    requires
        frame_source_ok(sbf@, tow),
        k < WORDS_PER_FRAME,
    ensures
        word_ok(sbf@, wn, tow, k as int, before, w),
{
    reveal(word_ok);
    let j = k % WORDS_PER_SUBFRAME;
    let t: u32 = (tow + (k / WORDS_PER_SUBFRAME) as u32 + 1) % TOW_ROLLOVER;
    let base = sbf[k];
    let a = if k == 2 {
        base | ((wn & 0x3FF) << 20u32)
    } else {
        base
    };
    let b = if j == 1 {
        a | ((t & 0x1FFFF) << 13u32)
    } else {
        a
    };
    proof {
        assert(t == subframe_tow(tow, (k / 10) as int));
        assert(base & !DATA_BITS == 0);
        assert(k % 10 == 1 ==> sbf@[k as int] & TOW_FIELD == 0);
        if k == 2 {
            lemma_week_field(base, wn, a);
        }
        if j == 1 {
            lemma_tow_field(a, t, b);
        }
        assert(b == stamped(sbf@, wn, tow, k as int));
    }
    let w0 = b | ((before << 30u32) & 0xC000_0000);
    proof {
        lemma_source_word(b, before, w0);
    }
    let nib = j == 1 || j == 9;
    let d = compute_checksum(w0, nib);
    proof {
        if nib {
            lemma_tow_bits(source_data(before & 1, d), b);
        }
    }
    d
}

/// Encodes the 50 words of a frame for transmission.
///
/// `sbf` holds the five subframes' words with data bits only and with the
/// TOW fields (and the week-number field of subframe 1) clear; `wn` is the
/// transmission week number, `tow` the TOW count of the frame before, and
/// `prev` the last word sent. Each word gets the week number or TOW count it
/// carries, the last two bits of the word before it, and its parity.
pub fn encode_frame(sbf: &Vec<u32>, wn: u32, tow: u32, prev: u32) -> (r: Vec<u32>)
    requires
        frame_source_ok(sbf@, tow),
    ensures
        r@.len() == WORDS_PER_FRAME,
        forall|k: int|
            0 <= k < WORDS_PER_FRAME ==> word_ok(sbf@, wn, tow, k, word_before(r@, prev, k), #[trigger] r@[k]),
{
    let mut r: Vec<u32> = Vec::new();
    let mut before: u32 = prev;
    let mut k: usize = 0;
    while k < WORDS_PER_FRAME
        invariant
            0 <= k <= WORDS_PER_FRAME,
            r@.len() == k,
            frame_source_ok(sbf@, tow),
            before == word_before(r@, prev, k as int),
            forall|m: int|
                0 <= m < k ==> word_ok(sbf@, wn, tow, m, word_before(r@, prev, m), #[trigger] r@[m]),
        decreases WORDS_PER_FRAME - k,
    {
        let d = encode_word(sbf, wn, tow, k, before);
        let ghost r0 = r@;
        r.push(d);
        proof {
            assert forall|m: int| 0 <= m < k + 1 implies word_ok(
                sbf@,
                wn,
                tow,
                m,
                word_before(r@, prev, m),
                #[trigger] r@[m],
            ) by {
                if m < k {
                    assert(r@[m] == r0[m]);
                    assert(word_before(r@, prev, m) == word_before(r0, prev, m));
                }
            }
        }
        before = d;
        k = k + 1;
    }
    r
}

proof fn lemma_word_ok_tow(sbf: Seq<u32>, wn: u32, tow: u32, k: int, before: u32, w: u32)
    requires
        word_ok(sbf, wn, tow, k, before, w),
        k % 10 == 1,
    ensures
        how_tow(before & 1, w) == subframe_tow(tow, k / 10),
{
    reveal(word_ok);
}

/// The TOW count that the HOW of subframe `i` of an encoded frame `r` carries.
pub open spec fn frame_how_tow(r: Seq<u32>, prev: u32, i: int) -> u32 {
    how_tow(word_before(r, prev, 10 * i + 1) & 1, r[10 * i + 1])
}

/// Consecutive HOWs of an encoded frame carry TOW counts one apart, modulo
/// the rollover at 100800.
pub proof fn lemma_tow_steps(sbf: Seq<u32>, wn: u32, tow: u32, prev: u32, r: Seq<u32>)
    requires
        r.len() == WORDS_PER_FRAME,
        forall|k: int| 0 <= k < WORDS_PER_FRAME ==> word_ok(sbf, wn, tow, k, word_before(r, prev, k), #[trigger] r[k]),
    ensures
        forall|i: int|
            0 <= i < SUBFRAMES - 1 ==> frame_how_tow(r, prev, i + 1) == (#[trigger] frame_how_tow(r, prev, i)
                + 1) % (TOW_ROLLOVER as int),
{
    assert forall|i: int| 0 <= i < SUBFRAMES - 1 implies frame_how_tow(r, prev, i + 1) == (
    #[trigger] frame_how_tow(r, prev, i) + 1) % (TOW_ROLLOVER as int) by {
        let k0 = 10 * i + 1;
        let k1 = 10 * (i + 1) + 1;
        assert(word_ok(sbf, wn, tow, k0, word_before(r, prev, k0), r[k0]));
        assert(word_ok(sbf, wn, tow, k1, word_before(r, prev, k1), r[k1]));
        lemma_word_ok_tow(sbf, wn, tow, k0, word_before(r, prev, k0), r[k0]);
        lemma_word_ok_tow(sbf, wn, tow, k1, word_before(r, prev, k1), r[k1]);
        assert(k0 / 10 == i);
        assert(k1 / 10 == i + 1);
    }
}

/// Every word of an encoded frame meets the parity equations of
/// IS-GPS-200, given D29* and D30* of the word sent before it.
pub proof fn lemma_frame_parity(sbf: Seq<u32>, wn: u32, tow: u32, prev: u32, r: Seq<u32>)
    requires
        r.len() == WORDS_PER_FRAME,
        forall|k: int| 0 <= k < WORDS_PER_FRAME ==> word_ok(sbf, wn, tow, k, word_before(r, prev, k), #[trigger] r[k]),
    ensures
        forall|k: int|
            0 <= k < WORDS_PER_FRAME ==> parity_ok(
                (word_before(r, prev, k) >> 1u32) & 1,
                word_before(r, prev, k) & 1,
                #[trigger] r[k],
            ),
{
    reveal(word_ok);
}

/// Milliseconds per navigation data bit.
pub const BIT_MS: u64 = 20;

/// Bits per word.
pub const BITS_PER_WORD: u64 = 30;

/// The data bit that a stream of encoded words carries `ms` milliseconds
/// after its start, as a chip polarity: bit `29 - k % 30` of word `k / 30`,
/// where `k = ms / 20`, gives +1 when set and -1 when clear.
pub fn data_bit(words: &Vec<u32>, ms: u64) -> (r: i8)
    requires
        ms as int / (BIT_MS as int) < words@.len() * BITS_PER_WORD,
    ensures
        ({
            let k = ms as int / (BIT_MS as int);
            r == if (words@[k / 30] >> ((29 - k % 30) as u32)) & 1u32 == 1 {
                1i8
            } else {
                -1i8
            }
        }),
{
    let n = words.len();
    let k: u64 = ms / BIT_MS;
    assert(k / 30 < n);
    let w = words[(k / BITS_PER_WORD) as usize];
    let shift: u32 = (29 - k % BITS_PER_WORD) as u32;
    if (w >> shift) & 1 == 1 {
        1
    } else {
        -1
    }
}

} // verus!
