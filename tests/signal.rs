use gps::builder::DataFormat;
use gps::formatter::{format_samples, samples_per_epoch};
use gps::navmsg::{compute_checksum, encode_frame, DATA_BITS};
use gps::nco::{advance_carrier, advance_code, code_chip, CODE_PERIOD};

#[test]
fn checksum_of_preamble_word() {
    assert_eq!(compute_checksum(0x8B0000 << 6, false), 0x22c0_0012);
    // with D30* set the data go out complemented
    assert_eq!(compute_checksum((0x8B0000 << 6) | 0xC000_0000, false), 0x1d3f_ffed);
}

#[test]
fn checksum_nib_words_end_in_zeros() {
    assert_eq!(compute_checksum(0x12345 << 13, true), 0x2468_a034);
    assert_eq!(compute_checksum((0x12345 << 13) | 0x4000_0000, true), 0x1b97_5f14);
}

fn decoded_tow(before: u32, w: u32) -> u32 {
    let data = if before & 1 == 1 { (w & DATA_BITS) ^ DATA_BITS } else { w & DATA_BITS };
    (data >> 13) & 0x1FFFF
}

#[test]
fn frame_tow_counts_step_by_one() {
    let mut sbf = vec![0u32; 50];
    for i in 0..5 {
        sbf[10 * i] = 0x8B0000 << 6;
        sbf[10 * i + 1] = (i as u32 + 1) << 8;
    }
    let r = encode_frame(&sbf, 2190, 100797, 0x3);
    assert_eq!(r.len(), 50);
    let tows: Vec<u32> = (0..5).map(|i| decoded_tow(r[10 * i], r[10 * i + 1])).collect();
    assert_eq!(tows, vec![100798, 100799, 0, 1, 2]);
    for i in 0..5 {
        assert_eq!(r[10 * i + 1] & 3, 0);
        assert_eq!(r[10 * i + 9] & 3, 0);
    }
}

#[test]
fn frame_week_number_in_subframe_one() {
    let sbf = vec![0u32; 50];
    let r = encode_frame(&sbf, 2190, 0, 0);
    let before = r[1];
    let data = if before & 1 == 1 { (r[2] & DATA_BITS) ^ DATA_BITS } else { r[2] & DATA_BITS };
    assert_eq!((data >> 20) & 0x3FF, 2190 & 0x3FF);
}

#[test]
fn one_bit_packing() {
    let iq: Vec<i16> = vec![1, -1, 1, 1, -1, -1, 0, 5, 7];
    assert_eq!(format_samples(DataFormat::Bits1, &iq), vec![0xB1, 0x80]);
}

#[test]
fn eight_bit_packing_shifts_and_saturates() {
    let iq: Vec<i16> = vec![32, -32, -1, 2047, 4095, -4096];
    assert_eq!(format_samples(DataFormat::Bits8, &iq), vec![2, 0xFE, 0xFF, 127, 127, 0x80]);
}

#[test]
fn sixteen_bit_packing_is_little_endian() {
    let iq: Vec<i16> = vec![-2, 0x1234];
    assert_eq!(format_samples(DataFormat::Bits16, &iq), vec![0xFE, 0xFF, 0x34, 0x12]);
}

#[test]
fn stream_length_per_format() {
    let iq: Vec<i16> = vec![3; 2 * 260_000];
    assert_eq!(format_samples(DataFormat::Bits1, &iq).len(), 65_000);
    assert_eq!(format_samples(DataFormat::Bits8, &iq).len(), 520_000);
    assert_eq!(format_samples(DataFormat::Bits16, &iq).len(), 1_040_000);
    assert_eq!(samples_per_epoch(2_600_000, 100), 260_000);
    assert_eq!(samples_per_epoch(2_000_000, 100) * 310, 62_000_000);
}

#[test]
fn carrier_wraps_at_two_to_the_32() {
    assert_eq!(advance_carrier(0xFFFF_FFFF, 2), 1);
    assert_eq!(advance_carrier(5, 7), 12);
}

#[test]
fn code_phase_wraps_at_1023_chips() {
    assert_eq!(advance_code(CODE_PERIOD - 1, 2), 1);
    assert_eq!(code_chip(CODE_PERIOD - 1), 1022);
    assert_eq!(code_chip(advance_code(0, 0x1_8000_0000)), 1);
}

#[test]
fn ca_code_first_chips() {
    // the first ten chips of PRN 1 are octal 1440
    let c1 = gps::cacode::codegen(1);
    assert_eq!(c1.len(), 1023);
    assert_eq!(&c1[..10], &[1, 1, -1, -1, 1, -1, -1, -1, -1, -1]);
    let c32 = gps::cacode::codegen(32);
    assert_eq!(&c32[..10], &[1, 1, 1, 1, -1, -1, 1, -1, 1, -1]);
}

#[test]
fn data_bits_every_twenty_milliseconds() {
    let words = vec![0x2000_0001u32, 0x1000_0000];
    assert_eq!(gps::navmsg::data_bit(&words, 0), 1);
    assert_eq!(gps::navmsg::data_bit(&words, 19), 1);
    assert_eq!(gps::navmsg::data_bit(&words, 20), -1);
    assert_eq!(gps::navmsg::data_bit(&words, 29 * 20), 1);
    assert_eq!(gps::navmsg::data_bit(&words, 30 * 20), -1);
    assert_eq!(gps::navmsg::data_bit(&words, 31 * 20 + 5), 1);
}
