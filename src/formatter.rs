use vstd::prelude::*;

use crate::builder::DataFormat;

verus! {

/// Sign bit of sample `s` of an interleaved I/Q sequence: 1 when positive,
/// 0 otherwise or past the end.
pub open spec fn sign_bit(iq: Seq<i16>, s: int) -> int {
    if 0 <= s < iq.len() && iq[s] > 0 {
        1
    } else {
        0
    }
}

/// Byte `b` of the one-bit packing: the sign bits of samples `8b` to `8b+7`,
/// the first in the highest bit.
pub open spec fn bits1_byte(iq: Seq<i16>, b: int) -> u8 {
    (sign_bit(iq, 8 * b) * 128 + sign_bit(iq, 8 * b + 1) * 64 + sign_bit(iq, 8 * b + 2) * 32
        + sign_bit(iq, 8 * b + 3) * 16 + sign_bit(iq, 8 * b + 4) * 8 + sign_bit(iq, 8 * b + 5) * 4
        + sign_bit(iq, 8 * b + 6) * 2 + sign_bit(iq, 8 * b + 7)) as u8
}

/// A sample scaled to eight bits: shifted right by four, saturated to the
/// range of `i8`.
pub open spec fn to_i8(x: i16) -> i8 {
    let v = x as int / 16;
    if v > 127 {
        127i8
    } else if v < -128 {
        -128i8
    } else {
        v as i8
    }
}

/// Byte `b` of the sixteen-bit packing: the little-endian bytes of each sample.
pub open spec fn bits16_byte(iq: Seq<i16>, b: int) -> u8 {
    let v = iq[b / 2] as int;
    let u = if v < 0 {
        v + 65536
    } else {
        v
    };
    if b % 2 == 0 {
        (u % 256) as u8
    } else {
        (u / 256) as u8
    }
}

/// The output bytes of an interleaved I/Q sequence (I then Q, pair after
/// pair) in a data format.
pub open spec fn packed(format: DataFormat, iq: Seq<i16>) -> Seq<u8> {
    match format {
        DataFormat::Bits1 => Seq::new(((iq.len() + 7) / 8) as nat, |b: int| bits1_byte(iq, b)),
        DataFormat::Bits8 => iq.map_values(|x: i16| to_i8(x) as u8),
        DataFormat::Bits16 => Seq::new((2 * iq.len()) as nat, |b: int| bits16_byte(iq, b)),
    }
}

/// Output bytes for `pairs` I/Q pairs: a quarter byte, two or four bytes per pair.
pub open spec fn stream_len(format: DataFormat, pairs: int) -> int {
    match format {
        DataFormat::Bits1 => (2 * pairs + 7) / 8,
        DataFormat::Bits8 => 2 * pairs,
        DataFormat::Bits16 => 4 * pairs,
    }
}

fn sign_bit_of(iq: &Vec<i16>, s: usize) -> (r: u8)
    ensures
        r == sign_bit(iq@, s as int),
{
    if s < iq.len() && iq[s] > 0 {
        1
    } else {
        0
    }
}

/// Arithmetic shift right by four, as division by 16 rounding down.
fn shift4(x: i16) -> (r: i16)
    ensures
        r as int == x as int / 16,
{
    if x >= 0 {
        x / 16
    } else {
        let u: i32 = -(x as i32);
        let q: i32 = (u + 15) / 16;
        assert(x as int / 16 == -q) by (nonlinear_arith)
            requires
                u == -(x as int),
                u > 0,
                q == (u + 15) / 16,
        ;
        (-q) as i16
    }
}

/// Packs an interleaved I/Q sequence into the bytes of a data format.
pub fn format_samples(format: DataFormat, iq: &Vec<i16>) -> (r: Vec<u8>)
    requires
        iq@.len() <= 0x1000_0000,
    ensures
        r@ == packed(format, iq@),
        r@.len() == stream_len(format, iq@.len() as int / 2) || iq@.len() % 2 == 1,
{
    let n = iq.len();
    let mut r: Vec<u8> = Vec::new();
    match format {
        DataFormat::Bits1 => {
            let nb = (n + 7) / 8;
            let mut b: usize = 0;
            while b < nb
                invariant
                    nb == (iq@.len() + 7) / 8,
                    n == iq@.len() <= 0x1000_0000,
                    b <= nb,
                    r@.len() == b,
                    forall|j: int| 0 <= j < b ==> r@[j] == bits1_byte(iq@, j),
                decreases nb - b,
            {
                let s = 8 * b;
                let v: u8 = sign_bit_of(iq, s) * 128 + sign_bit_of(iq, s + 1) * 64 + sign_bit_of(
                    iq,
                    s + 2,
                ) * 32 + sign_bit_of(iq, s + 3) * 16 + sign_bit_of(iq, s + 4) * 8 + sign_bit_of(
                    iq,
                    s + 5,
                ) * 4 + sign_bit_of(iq, s + 6) * 2 + sign_bit_of(iq, s + 7);
                r.push(v);
                b = b + 1;
            }
            assert(r@ =~= packed(format, iq@));
        },
        DataFormat::Bits8 => {
            let mut k: usize = 0;
            while k < n
                invariant
                    n == iq@.len(),
                    k <= n,
                    r@.len() == k,
                    forall|j: int| 0 <= j < k ==> r@[j] == to_i8(iq@[j]) as u8,
                decreases n - k,
            {
                let v = shift4(iq[k]);
                let c: i8 = if v > 127 {
                    127
                } else if v < -128 {
                    -128
                } else {
                    v as i8
                };
                r.push(c as u8);
                k = k + 1;
            }
            assert(r@ =~= packed(format, iq@));
        },
        DataFormat::Bits16 => {
            let mut k: usize = 0;
            while k < n
                invariant
                    n == iq@.len() <= 0x1000_0000,
                    k <= n,
                    r@.len() == 2 * k,
                    forall|j: int| 0 <= j < 2 * k ==> r@[j] == bits16_byte(iq@, j),
                decreases n - k,
            {
                let v = iq[k] as i32;
                let u: i32 = if v < 0 {
                    v + 65536
                } else {
                    v
                };
                r.push((u % 256) as u8);
                r.push((u / 256) as u8);
                proof {
                    assert((2 * k) / 2 == k as int);
                    assert((2 * k + 1) / 2 == k as int);
                }
                k = k + 1;
            }
            assert(r@ =~= packed(format, iq@));
        },
    }
    r
}

/// Formatting a stream piece by piece gives the bytes of formatting it
/// whole, when each piece but the last holds a whole number of bytes' worth
/// of samples (a multiple of eight samples, four pairs).
pub proof fn lemma_packed_concat(format: DataFormat, a: Seq<i16>, b: Seq<i16>)
    requires
        a.len() % 8 == 0,
    ensures
        packed(format, a + b) == packed(format, a) + packed(format, b),
{
    let ab = a + b;
    assert forall|s: int| 0 <= s < a.len() implies #[trigger] sign_bit(ab, s) == sign_bit(a, s) by {}
    assert forall|s: int| a.len() <= s implies #[trigger] sign_bit(ab, s) == sign_bit(b, s - a.len()) by {}
    match format {
        DataFormat::Bits1 => {
            let na = a.len() / 8;
            assert forall|j: int| 0 <= j < na implies #[trigger] bits1_byte(ab, j) == bits1_byte(a, j) by {
                assert(8 * j + 7 < a.len());
            }
            assert forall|j: int| na <= j implies #[trigger] bits1_byte(ab, j) == bits1_byte(b, j - na) by {
                assert(8 * j - a.len() == 8 * (j - na));
            }
            assert(packed(format, ab) =~= packed(format, a) + packed(format, b));
        },
        DataFormat::Bits8 => {
            assert(packed(format, ab) =~= packed(format, a) + packed(format, b));
        },
        DataFormat::Bits16 => {
            assert forall|j: int| 0 <= j < 2 * a.len() implies #[trigger] bits16_byte(ab, j) == bits16_byte(a, j) by {
                assert(ab[j / 2] == a[j / 2]);
            }
            assert forall|j: int| 2 * a.len() <= j < 2 * ab.len() implies #[trigger] bits16_byte(ab, j) == bits16_byte(
                b,
                j - 2 * a.len(),
            ) by {
                assert((j - 2 * a.len()) / 2 == j / 2 - a.len());
                assert((j - 2 * a.len()) % 2 == j % 2);
                assert(ab[j / 2] == b[j / 2 - a.len()]);
            }
            assert(packed(format, ab) =~= packed(format, a) + packed(format, b));
        },
    }
}

/// Number of samples in one epoch of `rate_ms` milliseconds at `fs` Hz,
/// rounded down.
pub fn samples_per_epoch(fs: u64, rate_ms: u32) -> (r: u64)
    requires
        fs <= 0xFFFF_FFFF,
    ensures
        r == fs * rate_ms / 1000,
{
    proof {
        assert(fs * rate_ms <= 0xFFFF_FFFF * 0xFFFF_FFFF) by (nonlinear_arith)
            requires
                fs <= 0xFFFF_FFFF,
                rate_ms <= 0xFFFF_FFFF,
        ;
    }
    fs * (rate_ms as u64) / 1000
}

/// Bytes a simulation writes: `steps` epochs of `fs * rate_ms / 1000`
/// pairs each, in `format`.
pub open spec fn output_bytes(format: DataFormat, steps: int, fs: int, rate_ms: int) -> int {
    stream_len(format, steps * (fs * rate_ms / 1000))
}

/// When an epoch holds a whole number of samples, the stream holds exactly
/// the duration times the sampling frequency in pairs: no sample is gained or
/// lost over any number of epochs.
pub proof fn lemma_sample_count(format: DataFormat, steps: nat, fs: nat, rate_ms: nat)
    requires
        (fs * rate_ms) % 1000 == 0,
    ensures
        output_bytes(format, steps as int, fs as int, rate_ms as int) == stream_len(
            format,
            ((steps * rate_ms) * fs / 1000) as int,
        ),
{
    let e = fs * rate_ms / 1000;
    assert(fs * rate_ms == 1000 * e);
    assert((steps * rate_ms) * fs == 1000 * (steps * e)) by (nonlinear_arith)
        requires
            fs * rate_ms == 1000 * e,
    ;
    assert((steps * rate_ms) * fs / 1000 == steps * e) by (nonlinear_arith)
        requires
            (steps * rate_ms) * fs == 1000 * (steps * e),
    ;
}

} // verus!
