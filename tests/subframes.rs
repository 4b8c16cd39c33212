use gps::navmsg::{encode_frame, DATA_BITS};
use gps::subframe::{frame_source, EphemerisFields, IonoUtcFields, TLM_WORD};

fn fields() -> EphemerisFields {
    EphemerisFields {
        code_l2: 1,
        ura: 0,
        svhlth: 0,
        iodc: 0x2A5,
        tgd: (-3i32) as u32,
        toc: 32400,
        af2: 0,
        af1: (-5i32) as u32,
        af0: 0x12_3456,
        iode: 0xA5,
        crs: 0x1234,
        deltan: 0x4321,
        m0: 0x89AB_CDEF,
        cuc: (-1i32) as u32,
        ecc: 0x0123_4567,
        cus: 0x0FED,
        sqrta: 0xA10C_0000,
        toe: 32400,
        cic: 7,
        omg0: 0xFEDC_BA98,
        cis: 9,
        inc0: 0x2800_0000,
        crc: 0x3000,
        aop: 0x1357_9BDF,
        omgdot: (-22000i32) as u32,
        idot: (-3i32) as u32,
    }
}

fn iono(valid: bool) -> IonoUtcFields {
    IonoUtcFields {
        valid,
        alpha0: 8,
        alpha1: 1,
        alpha2: (-1i32) as u32,
        alpha3: 0,
        beta0: 0x49,
        beta1: 0x10,
        beta2: 0xFE,
        beta3: 0x01,
        a0: 0x0000_0103,
        a1: 0x00FF_FFFE,
        tot: 0x90,
        wnt: 0x8E,
        dtls: 18,
        wnlsf: 0x89,
        dn: 7,
        dtlsf: 18,
    }
}

#[test]
fn subframe_layout() {
    let w = frame_source(&fields(), &iono(true), 0x90, 0x8E);
    assert_eq!(w.len(), 50);
    for i in 0..5 {
        assert_eq!(w[10 * i], TLM_WORD);
        assert_eq!(w[10 * i + 1], (i as u32 + 1) << 8);
    }
    // subframe 1: L2 code, health and the IODC's top bits; Tgd; IODC and TOC; af0
    assert_eq!(w[2], (1 << 18) | (0x2 << 6));
    assert_eq!(w[6], 0xFD << 6);
    assert_eq!(w[7], (0xA5 << 22) | (32400 << 6));
    assert_eq!(w[9], 0x12_3456 << 8);
    // subframe 2: M0 split over two words, TOE in the last
    assert_eq!(w[13], (0x4321 << 14) | (0x89 << 6));
    assert_eq!(w[14], 0xAB_CDEF << 6);
    assert_eq!(w[19], 32400 << 14);
    // subframe 3: IODE and IDOT in the last word
    assert_eq!(w[29], (0xA5 << 22) | (0x3FFD << 8));
    // subframe 4, page 18; subframe 5, page 25
    assert_eq!(w[32], (1 << 28) | (56 << 22) | (8 << 14) | (1 << 6));
    assert_eq!(w[37], (0x03 << 22) | (0x90 << 14) | (0x8E << 6));
    assert_eq!(w[42], (1 << 28) | (51 << 22) | (0x90 << 14) | (0x8E << 6));
    for x in &w {
        assert_eq!(x & !DATA_BITS, 0);
    }
}

#[test]
fn subframe_four_without_iono_is_page_25() {
    let w = frame_source(&fields(), &iono(false), 0, 0);
    assert_eq!(w[32], (1 << 28) | (63 << 22));
    assert!(w[33..40].iter().all(|x| *x == 0));
}

#[test]
fn assembled_frame_encodes() {
    let w = frame_source(&fields(), &iono(true), 0x90, 0x8E);
    let r = encode_frame(&w, 2190, 93450, 0);
    assert_eq!(r.len(), 50);
    assert!(r.iter().all(|x| *x < (1 << 30)));
}
