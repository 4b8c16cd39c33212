use vstd::prelude::*;

use crate::navmsg::{frame_source_ok, DATA_BITS, TOW_FIELD, TOW_ROLLOVER, WEEK_FIELD, WORDS_PER_FRAME};

verus! {

/// Preamble of the telemetry word, in place.
pub const TLM_WORD: u32 = 0x22C0_0000;

/// Data ID of the almanac pages.
pub const DATA_ID: u32 = 1;

/// Satellite ID of subframe 4, page 18 (ionospheric and UTC data).
pub const PAGE18_SV_ID: u32 = 56;

/// Satellite ID of subframe 4, page 25.
pub const SBF4_PAGE25_SV_ID: u32 = 63;

/// Satellite ID of subframe 5, page 25.
pub const SBF5_PAGE25_SV_ID: u32 = 51;

/// The ephemeris and clock fields of subframes 1 to 3, scaled to the units
/// of IS-GPS-200; a signed field holds its two's complement bits.
#[derive(Clone, Copy, Debug, PartialEq, Eq, Structural)]
pub struct EphemerisFields {
    pub code_l2: u32,
    pub ura: u32,
    pub svhlth: u32,
    pub iodc: u32,
    pub tgd: u32,
    pub toc: u32,
    pub af2: u32,
    pub af1: u32,
    pub af0: u32,
    pub iode: u32,
    pub crs: u32,
    pub deltan: u32,
    pub m0: u32,
    pub cuc: u32,
    pub ecc: u32,
    pub cus: u32,
    pub sqrta: u32,
    pub toe: u32,
    pub cic: u32,
    pub omg0: u32,
    pub cis: u32,
    pub inc0: u32,
    pub crc: u32,
    pub aop: u32,
    pub omgdot: u32,
    pub idot: u32,
}

/// The ionospheric and UTC fields of subframe 4, page 18, scaled to the
/// units of IS-GPS-200; `valid` when they are to be sent.
#[derive(Clone, Copy, Debug, PartialEq, Eq, Structural)]
pub struct IonoUtcFields {
    pub valid: bool,
    pub alpha0: u32,
    pub alpha1: u32,
    pub alpha2: u32,
    pub alpha3: u32,
    pub beta0: u32,
    pub beta1: u32,
    pub beta2: u32,
    pub beta3: u32,
    pub a0: u32,
    pub a1: u32,
    pub tot: u32,
    pub wnt: u32,
    pub dtls: u32,
    pub wnlsf: u32,
    pub dn: u32,
    pub dtlsf: u32,
}

/// The low `width` bits of `v`, placed at bit `at` of a word.
pub open spec fn put(v: u32, width: u32, at: u32) -> u32 {
    (v & (((1u64 << width) - 1) as u32)) << at
}

/// The HOW of subframe `id` before its TOW count goes in: the subframe ID.
pub open spec fn how_word(id: u32) -> u32 {
    id << 8u32
}

/// The ten words of subframe 1: clock data.
pub open spec fn subframe1(e: EphemerisFields) -> Seq<u32> {
    seq![
        TLM_WORD,
        how_word(1),
        put(e.code_l2, 2, 18) | put(e.ura, 4, 14) | put(e.svhlth, 6, 8) | put(e.iodc >> 8u32, 2, 6),
        0,
        0,
        0,
        put(e.tgd, 8, 6),
        put(e.iodc, 8, 22) | put(e.toc, 16, 6),
        put(e.af2, 8, 22) | put(e.af1, 16, 6),
        put(e.af0, 22, 8),
    ]
}

/// The ten words of subframe 2: ephemeris, first part.
pub open spec fn subframe2(e: EphemerisFields) -> Seq<u32> {
    seq![
        TLM_WORD,
        how_word(2),
        put(e.iode, 8, 22) | put(e.crs, 16, 6),
        put(e.deltan, 16, 14) | put(e.m0 >> 24u32, 8, 6),
        put(e.m0, 24, 6),
        put(e.cuc, 16, 14) | put(e.ecc >> 24u32, 8, 6),
        put(e.ecc, 24, 6),
        put(e.cus, 16, 14) | put(e.sqrta >> 24u32, 8, 6),
        put(e.sqrta, 24, 6),
        put(e.toe, 16, 14),
    ]
}

/// The ten words of subframe 3: ephemeris, second part.
pub open spec fn subframe3(e: EphemerisFields) -> Seq<u32> {
    seq![
        TLM_WORD,
        how_word(3),
        put(e.cic, 16, 14) | put(e.omg0 >> 24u32, 8, 6),
        put(e.omg0, 24, 6),
        put(e.cis, 16, 14) | put(e.inc0 >> 24u32, 8, 6),
        put(e.inc0, 24, 6),
        put(e.crc, 16, 14) | put(e.aop >> 24u32, 8, 6),
        put(e.aop, 24, 6),
        put(e.omgdot, 24, 6),
        put(e.iode, 8, 22) | put(e.idot, 14, 8),
    ]
}

/// The ten words of subframe 4: page 18 with the ionospheric and UTC data
/// when they are valid, else an empty page 25.
pub open spec fn subframe4(u: IonoUtcFields) -> Seq<u32> {
    if u.valid {
        seq![
            TLM_WORD,
            how_word(4),
            put(DATA_ID, 2, 28) | put(PAGE18_SV_ID, 6, 22) | put(u.alpha0, 8, 14) | put(u.alpha1, 8, 6),
            put(u.alpha2, 8, 22) | put(u.alpha3, 8, 14) | put(u.beta0, 8, 6),
            put(u.beta1, 8, 22) | put(u.beta2, 8, 14) | put(u.beta3, 8, 6),
            put(u.a1, 24, 6),
            put(u.a0 >> 8u32, 24, 6),
            put(u.a0, 8, 22) | put(u.tot, 8, 14) | put(u.wnt, 8, 6),
            put(u.dtls, 8, 22) | put(u.wnlsf, 8, 14) | put(u.dn, 8, 6),
            put(u.dtlsf, 8, 22),
        ]
    } else {
        seq![
            TLM_WORD,
            how_word(4),
            put(DATA_ID, 2, 28) | put(SBF4_PAGE25_SV_ID, 6, 22),
            0,
            0,
            0,
            0,
            0,
            0,
            0,
        ]
    }
}

/// The ten words of subframe 5: page 25, with the almanac reference time
/// and week and no almanac health.
pub open spec fn subframe5(toa: u32, wna: u32) -> Seq<u32> {
    seq![
        TLM_WORD,
        how_word(5),
        put(DATA_ID, 2, 28) | put(SBF5_PAGE25_SV_ID, 6, 22) | put(toa, 8, 14) | put(wna, 8, 6),
        0,
        0,
        0,
        0,
        0,
        0,
        0,
    ]
}

/// The fifty words of a frame, before the week number, the TOW counts and the parity go in.
pub open spec fn frame_words(e: EphemerisFields, u: IonoUtcFields, toa: u32, wna: u32) -> Seq<u32> {
    subframe1(e) + subframe2(e) + subframe3(e) + subframe4(u) + subframe5(toa, wna)
}

/// Ten words with data bits only, whose HOW (the second) has its TOW field clear.
pub open spec fn words_ok(s: Seq<u32>) -> bool {
    &&& s.len() == 10
    &&& forall|j: int| 0 <= j < 10 ==> #[trigger] s[j] & !DATA_BITS == 0
    &&& s[1] & TOW_FIELD == 0
}

proof fn lemma_put_in_data(v: u32, width: u32, at: u32)
    by (bit_vector)
    requires
        1 <= width <= 24,
        6 <= at,
        at + width <= 30,
    ensures
        put(v, width, at) & !DATA_BITS == 0,
{
}

proof fn lemma_or_in_data(a: u32, b: u32)
    by (bit_vector)
    requires
        a & !DATA_BITS == 0,
        b & !DATA_BITS == 0,
    ensures
        (a | b) & !DATA_BITS == 0,
{
}

proof fn lemma_how_word(id: u32)
    by (bit_vector)
    requires
        id <= 7,
    ensures
        how_word(id) & !DATA_BITS == 0,
        how_word(id) & TOW_FIELD == 0,
{
}

proof fn lemma_fixed_words()
    by (bit_vector)
    ensures
        TLM_WORD & !DATA_BITS == 0,
        0u32 & !DATA_BITS == 0,
{
}

proof fn lemma_subframe1_ok(e: EphemerisFields)
    ensures
        words_ok(subframe1(e)),
{
    lemma_fixed_words();
    assert(subframe1(e)[0] == TLM_WORD);
    lemma_how_word(1);
    assert(subframe1(e)[1] == how_word(1));
    {
        lemma_put_in_data(e.code_l2, 2, 18);
        lemma_put_in_data(e.ura, 4, 14);
        lemma_put_in_data(e.svhlth, 6, 8);
        lemma_put_in_data(e.iodc >> 8u32, 2, 6);
        lemma_or_in_data(put(e.code_l2, 2, 18), put(e.ura, 4, 14));
        lemma_or_in_data(put(e.code_l2, 2, 18) | put(e.ura, 4, 14), put(e.svhlth, 6, 8));
        lemma_or_in_data(put(e.code_l2, 2, 18) | put(e.ura, 4, 14) | put(e.svhlth, 6, 8), put(e.iodc >> 8u32, 2, 6));
        assert(subframe1(e)[2] == put(e.code_l2, 2, 18) | put(e.ura, 4, 14) | put(e.svhlth, 6, 8) | put(e.iodc >> 8u32, 2, 6));
    }
    assert(subframe1(e)[3] == 0u32);
    assert(subframe1(e)[4] == 0u32);
    assert(subframe1(e)[5] == 0u32);
    {
        lemma_put_in_data(e.tgd, 8, 6);
        assert(subframe1(e)[6] == put(e.tgd, 8, 6));
    }
    {
        lemma_put_in_data(e.iodc, 8, 22);
        lemma_put_in_data(e.toc, 16, 6);
        lemma_or_in_data(put(e.iodc, 8, 22), put(e.toc, 16, 6));
        assert(subframe1(e)[7] == put(e.iodc, 8, 22) | put(e.toc, 16, 6));
    }
    {
        lemma_put_in_data(e.af2, 8, 22);
        lemma_put_in_data(e.af1, 16, 6);
        lemma_or_in_data(put(e.af2, 8, 22), put(e.af1, 16, 6));
        assert(subframe1(e)[8] == put(e.af2, 8, 22) | put(e.af1, 16, 6));
    }
    {
        lemma_put_in_data(e.af0, 22, 8);
        assert(subframe1(e)[9] == put(e.af0, 22, 8));
    }
    assert forall|j: int| 0 <= j < 10 implies #[trigger] subframe1(e)[j] & !DATA_BITS == 0 by {
        assert(j == 0 || j == 1 || j == 2 || j == 3 || j == 4 || j == 5 || j == 6 || j == 7 || j == 8 || j == 9);
    }
}

proof fn lemma_subframe2_ok(e: EphemerisFields)
    ensures
        words_ok(subframe2(e)),
{
    lemma_fixed_words();
    assert(subframe2(e)[0] == TLM_WORD);
    lemma_how_word(2);
    assert(subframe2(e)[1] == how_word(2));
    {
        lemma_put_in_data(e.iode, 8, 22);
        lemma_put_in_data(e.crs, 16, 6);
        lemma_or_in_data(put(e.iode, 8, 22), put(e.crs, 16, 6));
        assert(subframe2(e)[2] == put(e.iode, 8, 22) | put(e.crs, 16, 6));
    }
    {
        lemma_put_in_data(e.deltan, 16, 14);
        lemma_put_in_data(e.m0 >> 24u32, 8, 6);
        lemma_or_in_data(put(e.deltan, 16, 14), put(e.m0 >> 24u32, 8, 6));
        assert(subframe2(e)[3] == put(e.deltan, 16, 14) | put(e.m0 >> 24u32, 8, 6));
    }
    {
        lemma_put_in_data(e.m0, 24, 6);
        assert(subframe2(e)[4] == put(e.m0, 24, 6));
    }
    {
        lemma_put_in_data(e.cuc, 16, 14);
        lemma_put_in_data(e.ecc >> 24u32, 8, 6);
        lemma_or_in_data(put(e.cuc, 16, 14), put(e.ecc >> 24u32, 8, 6));
        assert(subframe2(e)[5] == put(e.cuc, 16, 14) | put(e.ecc >> 24u32, 8, 6));
    }
    {
        lemma_put_in_data(e.ecc, 24, 6);
        assert(subframe2(e)[6] == put(e.ecc, 24, 6));
    }
    {
        lemma_put_in_data(e.cus, 16, 14);
        lemma_put_in_data(e.sqrta >> 24u32, 8, 6);
        lemma_or_in_data(put(e.cus, 16, 14), put(e.sqrta >> 24u32, 8, 6));
        assert(subframe2(e)[7] == put(e.cus, 16, 14) | put(e.sqrta >> 24u32, 8, 6));
    }
    {
        lemma_put_in_data(e.sqrta, 24, 6);
        assert(subframe2(e)[8] == put(e.sqrta, 24, 6));
    }
    {
        lemma_put_in_data(e.toe, 16, 14);
        assert(subframe2(e)[9] == put(e.toe, 16, 14));
    }
    assert forall|j: int| 0 <= j < 10 implies #[trigger] subframe2(e)[j] & !DATA_BITS == 0 by {
        assert(j == 0 || j == 1 || j == 2 || j == 3 || j == 4 || j == 5 || j == 6 || j == 7 || j == 8 || j == 9);
    }
}

proof fn lemma_subframe3_ok(e: EphemerisFields)
    ensures
        words_ok(subframe3(e)),
{
    lemma_fixed_words();
    assert(subframe3(e)[0] == TLM_WORD);
    lemma_how_word(3);
    assert(subframe3(e)[1] == how_word(3));
    {
        lemma_put_in_data(e.cic, 16, 14);
        lemma_put_in_data(e.omg0 >> 24u32, 8, 6);
        lemma_or_in_data(put(e.cic, 16, 14), put(e.omg0 >> 24u32, 8, 6));
        assert(subframe3(e)[2] == put(e.cic, 16, 14) | put(e.omg0 >> 24u32, 8, 6));
    }
    {
        lemma_put_in_data(e.omg0, 24, 6);
        assert(subframe3(e)[3] == put(e.omg0, 24, 6));
    }
    {
        lemma_put_in_data(e.cis, 16, 14);
        lemma_put_in_data(e.inc0 >> 24u32, 8, 6);
        lemma_or_in_data(put(e.cis, 16, 14), put(e.inc0 >> 24u32, 8, 6));
        assert(subframe3(e)[4] == put(e.cis, 16, 14) | put(e.inc0 >> 24u32, 8, 6));
    }
    {
        lemma_put_in_data(e.inc0, 24, 6);
        assert(subframe3(e)[5] == put(e.inc0, 24, 6));
    }
    {
        lemma_put_in_data(e.crc, 16, 14);
        lemma_put_in_data(e.aop >> 24u32, 8, 6);
        lemma_or_in_data(put(e.crc, 16, 14), put(e.aop >> 24u32, 8, 6));
        assert(subframe3(e)[6] == put(e.crc, 16, 14) | put(e.aop >> 24u32, 8, 6));
    }
    {
        lemma_put_in_data(e.aop, 24, 6);
        assert(subframe3(e)[7] == put(e.aop, 24, 6));
    }
    {
        lemma_put_in_data(e.omgdot, 24, 6);
        assert(subframe3(e)[8] == put(e.omgdot, 24, 6));
    }
    {
        lemma_put_in_data(e.iode, 8, 22);
        lemma_put_in_data(e.idot, 14, 8);
        lemma_or_in_data(put(e.iode, 8, 22), put(e.idot, 14, 8));
        assert(subframe3(e)[9] == put(e.iode, 8, 22) | put(e.idot, 14, 8));
    }
    assert forall|j: int| 0 <= j < 10 implies #[trigger] subframe3(e)[j] & !DATA_BITS == 0 by {
        assert(j == 0 || j == 1 || j == 2 || j == 3 || j == 4 || j == 5 || j == 6 || j == 7 || j == 8 || j == 9);
    }
}

proof fn lemma_subframe4_page18_ok(u: IonoUtcFields)
    requires
        u.valid,
    ensures
        words_ok(subframe4(u)),
{
    lemma_fixed_words();
    assert(subframe4(u)[0] == TLM_WORD);
    lemma_how_word(4);
    assert(subframe4(u)[1] == how_word(4));
    {
        lemma_put_in_data(DATA_ID, 2, 28);
        lemma_put_in_data(PAGE18_SV_ID, 6, 22);
        lemma_put_in_data(u.alpha0, 8, 14);
        lemma_put_in_data(u.alpha1, 8, 6);
        lemma_or_in_data(put(DATA_ID, 2, 28), put(PAGE18_SV_ID, 6, 22));
        lemma_or_in_data(put(DATA_ID, 2, 28) | put(PAGE18_SV_ID, 6, 22), put(u.alpha0, 8, 14));
        lemma_or_in_data(put(DATA_ID, 2, 28) | put(PAGE18_SV_ID, 6, 22) | put(u.alpha0, 8, 14), put(u.alpha1, 8, 6));
        assert(subframe4(u)[2] == put(DATA_ID, 2, 28) | put(PAGE18_SV_ID, 6, 22) | put(u.alpha0, 8, 14) | put(u.alpha1, 8, 6));
    }
    {
        lemma_put_in_data(u.alpha2, 8, 22);
        lemma_put_in_data(u.alpha3, 8, 14);
        lemma_put_in_data(u.beta0, 8, 6);
        lemma_or_in_data(put(u.alpha2, 8, 22), put(u.alpha3, 8, 14));
        lemma_or_in_data(put(u.alpha2, 8, 22) | put(u.alpha3, 8, 14), put(u.beta0, 8, 6));
        assert(subframe4(u)[3] == put(u.alpha2, 8, 22) | put(u.alpha3, 8, 14) | put(u.beta0, 8, 6));
    }
    {
        lemma_put_in_data(u.beta1, 8, 22);
        lemma_put_in_data(u.beta2, 8, 14);
        lemma_put_in_data(u.beta3, 8, 6);
        lemma_or_in_data(put(u.beta1, 8, 22), put(u.beta2, 8, 14));
        lemma_or_in_data(put(u.beta1, 8, 22) | put(u.beta2, 8, 14), put(u.beta3, 8, 6));
        assert(subframe4(u)[4] == put(u.beta1, 8, 22) | put(u.beta2, 8, 14) | put(u.beta3, 8, 6));
    }
    {
        lemma_put_in_data(u.a1, 24, 6);
        assert(subframe4(u)[5] == put(u.a1, 24, 6));
    }
    {
        lemma_put_in_data(u.a0 >> 8u32, 24, 6);
        assert(subframe4(u)[6] == put(u.a0 >> 8u32, 24, 6));
    }
    {
        lemma_put_in_data(u.a0, 8, 22);
        lemma_put_in_data(u.tot, 8, 14);
        lemma_put_in_data(u.wnt, 8, 6);
        lemma_or_in_data(put(u.a0, 8, 22), put(u.tot, 8, 14));
        lemma_or_in_data(put(u.a0, 8, 22) | put(u.tot, 8, 14), put(u.wnt, 8, 6));
        assert(subframe4(u)[7] == put(u.a0, 8, 22) | put(u.tot, 8, 14) | put(u.wnt, 8, 6));
    }
    {
        lemma_put_in_data(u.dtls, 8, 22);
        lemma_put_in_data(u.wnlsf, 8, 14);
        lemma_put_in_data(u.dn, 8, 6);
        lemma_or_in_data(put(u.dtls, 8, 22), put(u.wnlsf, 8, 14));
        lemma_or_in_data(put(u.dtls, 8, 22) | put(u.wnlsf, 8, 14), put(u.dn, 8, 6));
        assert(subframe4(u)[8] == put(u.dtls, 8, 22) | put(u.wnlsf, 8, 14) | put(u.dn, 8, 6));
    }
    {
        lemma_put_in_data(u.dtlsf, 8, 22);
        assert(subframe4(u)[9] == put(u.dtlsf, 8, 22));
    }
    assert forall|j: int| 0 <= j < 10 implies #[trigger] subframe4(u)[j] & !DATA_BITS == 0 by {
        assert(j == 0 || j == 1 || j == 2 || j == 3 || j == 4 || j == 5 || j == 6 || j == 7 || j == 8 || j == 9);
    }
}

proof fn lemma_subframe4_page25_ok(u: IonoUtcFields)
    requires
        !u.valid,
    ensures
        words_ok(subframe4(u)),
{
    lemma_fixed_words();
    assert(subframe4(u)[0] == TLM_WORD);
    lemma_how_word(4);
    assert(subframe4(u)[1] == how_word(4));
    {
        lemma_put_in_data(DATA_ID, 2, 28);
        lemma_put_in_data(SBF4_PAGE25_SV_ID, 6, 22);
        lemma_or_in_data(put(DATA_ID, 2, 28), put(SBF4_PAGE25_SV_ID, 6, 22));
        assert(subframe4(u)[2] == put(DATA_ID, 2, 28) | put(SBF4_PAGE25_SV_ID, 6, 22));
    }
    assert(subframe4(u)[3] == 0u32);
    assert(subframe4(u)[4] == 0u32);
    assert(subframe4(u)[5] == 0u32);
    assert(subframe4(u)[6] == 0u32);
    assert(subframe4(u)[7] == 0u32);
    assert(subframe4(u)[8] == 0u32);
    assert(subframe4(u)[9] == 0u32);
    assert forall|j: int| 0 <= j < 10 implies #[trigger] subframe4(u)[j] & !DATA_BITS == 0 by {
        assert(j == 0 || j == 1 || j == 2 || j == 3 || j == 4 || j == 5 || j == 6 || j == 7 || j == 8 || j == 9);
    }
}

proof fn lemma_subframe5_ok(toa: u32, wna: u32)
    ensures
        words_ok(subframe5(toa, wna)),
{
    lemma_fixed_words();
    assert(subframe5(toa, wna)[0] == TLM_WORD);
    lemma_how_word(5);
    assert(subframe5(toa, wna)[1] == how_word(5));
    {
        lemma_put_in_data(DATA_ID, 2, 28);
        lemma_put_in_data(SBF5_PAGE25_SV_ID, 6, 22);
        lemma_put_in_data(toa, 8, 14);
        lemma_put_in_data(wna, 8, 6);
        lemma_or_in_data(put(DATA_ID, 2, 28), put(SBF5_PAGE25_SV_ID, 6, 22));
        lemma_or_in_data(put(DATA_ID, 2, 28) | put(SBF5_PAGE25_SV_ID, 6, 22), put(toa, 8, 14));
        lemma_or_in_data(put(DATA_ID, 2, 28) | put(SBF5_PAGE25_SV_ID, 6, 22) | put(toa, 8, 14), put(wna, 8, 6));
        assert(subframe5(toa, wna)[2] == put(DATA_ID, 2, 28) | put(SBF5_PAGE25_SV_ID, 6, 22) | put(toa, 8, 14) | put(wna, 8, 6));
    }
    assert(subframe5(toa, wna)[3] == 0u32);
    assert(subframe5(toa, wna)[4] == 0u32);
    assert(subframe5(toa, wna)[5] == 0u32);
    assert(subframe5(toa, wna)[6] == 0u32);
    assert(subframe5(toa, wna)[7] == 0u32);
    assert(subframe5(toa, wna)[8] == 0u32);
    assert(subframe5(toa, wna)[9] == 0u32);
    assert forall|j: int| 0 <= j < 10 implies #[trigger] subframe5(toa, wna)[j] & !DATA_BITS == 0 by {
        assert(j == 0 || j == 1 || j == 2 || j == 3 || j == 4 || j == 5 || j == 6 || j == 7 || j == 8 || j == 9);
    }
}

proof fn lemma_week_field_clear(e: EphemerisFields)
    ensures
        subframe1(e)[2] & WEEK_FIELD == 0,
{
    let x0 = e.code_l2;
    let x1 = e.ura;
    let x2 = e.svhlth;
    let x3 = e.iodc;
    assert((put(x0, 2, 18) | put(x1, 4, 14) | put(x2, 6, 8) | put(x3 >> 8u32, 2, 6)) & WEEK_FIELD == 0)
        by (bit_vector);
}

/// The words of a frame meet what `encode_frame` asks of them, for any TOW count.
pub proof fn lemma_frame_words_ok(e: EphemerisFields, u: IonoUtcFields, toa: u32, wna: u32, tow: u32)
    requires
        tow < TOW_ROLLOVER,
    ensures
        frame_source_ok(frame_words(e, u, toa, wna), tow),
{
    lemma_subframe1_ok(e);
    lemma_subframe2_ok(e);
    lemma_subframe3_ok(e);
    if u.valid {
        lemma_subframe4_page18_ok(u);
    } else {
        lemma_subframe4_page25_ok(u);
    }
    lemma_subframe5_ok(toa, wna);
    lemma_week_field_clear(e);
    let f = frame_words(e, u, toa, wna);
    let parts = seq![subframe1(e), subframe2(e), subframe3(e), subframe4(u), subframe5(toa, wna)];
    assert forall|k: int| 0 <= k < WORDS_PER_FRAME implies f[k] == #[trigger] parts[k / 10][k % 10] by {}
    assert forall|k: int| 0 <= k < WORDS_PER_FRAME implies #[trigger] f[k] & !DATA_BITS == 0 by {
        assert(words_ok(parts[k / 10]));
        assert(f[k] == parts[k / 10][k % 10]);
    }
    assert forall|k: int| 0 <= k < WORDS_PER_FRAME && k % 10 == 1 implies #[trigger] f[k] & TOW_FIELD == 0 by {
        assert(words_ok(parts[k / 10]));
        assert(f[k] == parts[k / 10][1]);
    }
}

/// The low `width` bits of `v`, placed at bit `at`.
fn put_bits(v: u32, width: u32, at: u32) -> (r: u32)
    requires
        1 <= width <= 24,
        at + width <= 30,
    ensures
        r == put(v, width, at),
{
    assert(1u32 << width >= 1 && ((1u64 << width) - 1) as u32 == (1u32 << width) - 1) by (bit_vector)
        requires
            1 <= width <= 24,
    ;
    (v & ((1u32 << width) - 1)) << at
}

/// The words of subframe 1.
fn subframe1_words(e: &EphemerisFields) -> (r: Vec<u32>)
    ensures
        r@ == subframe1(*e),
{
    let w0: u32 = TLM_WORD;
    let w1: u32 = 1u32 << 8u32;
    let w2: u32 = put_bits(e.code_l2, 2, 18) | put_bits(e.ura, 4, 14) | put_bits(e.svhlth, 6, 8) | put_bits(e.iodc >> 8u32, 2, 6);
    let w3: u32 = 0;
    let w4: u32 = 0;
    let w5: u32 = 0;
    let w6: u32 = put_bits(e.tgd, 8, 6);
    let w7: u32 = put_bits(e.iodc, 8, 22) | put_bits(e.toc, 16, 6);
    let w8: u32 = put_bits(e.af2, 8, 22) | put_bits(e.af1, 16, 6);
    let w9: u32 = put_bits(e.af0, 22, 8);
    let r = vec![w0, w1, w2, w3, w4, w5, w6, w7, w8, w9];
    assert(r@ =~= subframe1(*e));
    r
}

/// The words of subframe 2.
fn subframe2_words(e: &EphemerisFields) -> (r: Vec<u32>)
    ensures
        r@ == subframe2(*e),
{
    let w0: u32 = TLM_WORD;
    let w1: u32 = 2u32 << 8u32;
    let w2: u32 = put_bits(e.iode, 8, 22) | put_bits(e.crs, 16, 6);
    let w3: u32 = put_bits(e.deltan, 16, 14) | put_bits(e.m0 >> 24u32, 8, 6);
    let w4: u32 = put_bits(e.m0, 24, 6);
    let w5: u32 = put_bits(e.cuc, 16, 14) | put_bits(e.ecc >> 24u32, 8, 6);
    let w6: u32 = put_bits(e.ecc, 24, 6);
    let w7: u32 = put_bits(e.cus, 16, 14) | put_bits(e.sqrta >> 24u32, 8, 6);
    let w8: u32 = put_bits(e.sqrta, 24, 6);
    let w9: u32 = put_bits(e.toe, 16, 14);
    let r = vec![w0, w1, w2, w3, w4, w5, w6, w7, w8, w9];
    assert(r@ =~= subframe2(*e));
    r
}

/// The words of subframe 3.
fn subframe3_words(e: &EphemerisFields) -> (r: Vec<u32>)
    ensures
        r@ == subframe3(*e),
{
    let w0: u32 = TLM_WORD;
    let w1: u32 = 3u32 << 8u32;
    let w2: u32 = put_bits(e.cic, 16, 14) | put_bits(e.omg0 >> 24u32, 8, 6);
    let w3: u32 = put_bits(e.omg0, 24, 6);
    let w4: u32 = put_bits(e.cis, 16, 14) | put_bits(e.inc0 >> 24u32, 8, 6);
    let w5: u32 = put_bits(e.inc0, 24, 6);
    let w6: u32 = put_bits(e.crc, 16, 14) | put_bits(e.aop >> 24u32, 8, 6);
    let w7: u32 = put_bits(e.aop, 24, 6);
    let w8: u32 = put_bits(e.omgdot, 24, 6);
    let w9: u32 = put_bits(e.iode, 8, 22) | put_bits(e.idot, 14, 8);
    let r = vec![w0, w1, w2, w3, w4, w5, w6, w7, w8, w9];
    assert(r@ =~= subframe3(*e));
    r
}

/// The words of subframe 4, page 18.
fn page18_words(u: &IonoUtcFields) -> (r: Vec<u32>)
    requires
        u.valid,
    ensures
        r@ == subframe4(*u),
{
    let w0: u32 = TLM_WORD;
    let w1: u32 = 4u32 << 8u32;
    let w2: u32 = put_bits(DATA_ID, 2, 28) | put_bits(PAGE18_SV_ID, 6, 22) | put_bits(u.alpha0, 8, 14) | put_bits(u.alpha1, 8, 6);
    let w3: u32 = put_bits(u.alpha2, 8, 22) | put_bits(u.alpha3, 8, 14) | put_bits(u.beta0, 8, 6);
    let w4: u32 = put_bits(u.beta1, 8, 22) | put_bits(u.beta2, 8, 14) | put_bits(u.beta3, 8, 6);
    let w5: u32 = put_bits(u.a1, 24, 6);
    let w6: u32 = put_bits(u.a0 >> 8u32, 24, 6);
    let w7: u32 = put_bits(u.a0, 8, 22) | put_bits(u.tot, 8, 14) | put_bits(u.wnt, 8, 6);
    let w8: u32 = put_bits(u.dtls, 8, 22) | put_bits(u.wnlsf, 8, 14) | put_bits(u.dn, 8, 6);
    let w9: u32 = put_bits(u.dtlsf, 8, 22);
    let r = vec![w0, w1, w2, w3, w4, w5, w6, w7, w8, w9];
    assert(r@ =~= subframe4(*u));
    r
}

/// The words of subframe 4, page 25.
fn page25_words(u: &IonoUtcFields) -> (r: Vec<u32>)
    requires
        !u.valid,
    ensures
        r@ == subframe4(*u),
{
    let w0: u32 = TLM_WORD;
    let w1: u32 = 4u32 << 8u32;
    let w2: u32 = put_bits(DATA_ID, 2, 28) | put_bits(SBF4_PAGE25_SV_ID, 6, 22);
    let w3: u32 = 0;
    let w4: u32 = 0;
    let w5: u32 = 0;
    let w6: u32 = 0;
    let w7: u32 = 0;
    let w8: u32 = 0;
    let w9: u32 = 0;
    let r = vec![w0, w1, w2, w3, w4, w5, w6, w7, w8, w9];
    assert(r@ =~= subframe4(*u));
    r
}

/// The words of subframe 5.
fn subframe5_words(toa: u32, wna: u32) -> (r: Vec<u32>)
    ensures
        r@ == subframe5(toa, wna),
{
    let w0: u32 = TLM_WORD;
    let w1: u32 = 5u32 << 8u32;
    let w2: u32 = put_bits(DATA_ID, 2, 28) | put_bits(SBF5_PAGE25_SV_ID, 6, 22) | put_bits(toa, 8, 14) | put_bits(wna, 8, 6);
    let w3: u32 = 0;
    let w4: u32 = 0;
    let w5: u32 = 0;
    let w6: u32 = 0;
    let w7: u32 = 0;
    let w8: u32 = 0;
    let w9: u32 = 0;
    let r = vec![w0, w1, w2, w3, w4, w5, w6, w7, w8, w9];
    assert(r@ =~= subframe5(toa, wna));
    r
}

/// Assembles the fifty words of a frame from the scaled ephemeris, the
/// ionospheric and UTC fields and the almanac reference time and week, ready
/// for `encode_frame`.
pub fn frame_source(e: &EphemerisFields, u: &IonoUtcFields, toa: u32, wna: u32) -> (r: Vec<u32>)
    ensures
        r@ == frame_words(*e, *u, toa, wna),
        forall|tow: u32| tow < TOW_ROLLOVER ==> #[trigger] frame_source_ok(r@, tow),
{
    let mut r = subframe1_words(e);
    let mut s2 = subframe2_words(e);
    let mut s3 = subframe3_words(e);
    let mut s4 = if u.valid {
        page18_words(u)
    } else {
        page25_words(u)
    };
    let mut s5 = subframe5_words(toa, wna);
    r.append(&mut s2);
    r.append(&mut s3);
    r.append(&mut s4);
    r.append(&mut s5);
    assert forall|tow: u32| tow < TOW_ROLLOVER implies #[trigger] frame_source_ok(r@, tow) by {
        lemma_frame_words_ok(*e, *u, toa, wna, tow);
    }
    r
}

} // verus!
