use gps::hackrf::{
    baseband_filter_setup, check_api_version, compute_baseband_filter_bw,
    compute_baseband_filter_bw_round_down_lt, freq_params, gain_reply, lna_gain_request,
    part_id_serial, sample_rate_multiplier, sample_rate_params, txvga_gain_request,
    vga_gain_request, ControlRead, RadioError, Request,
};

#[test]
fn filter_bandwidth_rounds_down_to_table() {
    assert_eq!(compute_baseband_filter_bw(1_000_000), 1_750_000);
    assert_eq!(compute_baseband_filter_bw(1_950_000), 1_750_000);
    assert_eq!(compute_baseband_filter_bw(2_500_000), 2_500_000);
    assert_eq!(compute_baseband_filter_bw(7_500_000), 7_000_000);
    assert_eq!(compute_baseband_filter_bw(28_000_000), 28_000_000);
    assert_eq!(compute_baseband_filter_bw(30_000_000), 0);
}

#[test]
fn filter_bandwidth_strictly_below() {
    assert_eq!(compute_baseband_filter_bw_round_down_lt(1_750_000), 1_750_000);
    assert_eq!(compute_baseband_filter_bw_round_down_lt(2_500_000), 1_750_000);
    assert_eq!(compute_baseband_filter_bw_round_down_lt(2_500_001), 2_500_000);
    assert_eq!(compute_baseband_filter_bw_round_down_lt(29_000_000), 0);
}

#[test]
fn frequency_parameters_split_megahertz() {
    assert_eq!(freq_params(1_575_420_000), [0x27, 0x06, 0, 0, 0xA0, 0x68, 0x06, 0]);
    assert_eq!(freq_params(0), [0; 8]);
}

#[test]
fn sample_rate_parameters() {
    assert_eq!(sample_rate_params(2_600_000, 1), [0x40, 0xAC, 0x27, 0, 1, 0, 0, 0]);
}

#[test]
fn gain_requests_check_range() {
    assert_eq!(
        lna_gain_request(16),
        Ok(ControlRead { request: Request::SetLnaGain, value: 0, index: 16, length: 1 })
    );
    assert_eq!(lna_gain_request(39).unwrap().index, 32);
    assert_eq!(lna_gain_request(41), Err(RadioError::Argument));
    assert_eq!(vga_gain_request(21).unwrap().index, 20);
    assert_eq!(vga_gain_request(63), Err(RadioError::Argument));
    assert_eq!(txvga_gain_request(47).unwrap().index, 47);
    assert_eq!(txvga_gain_request(48), Err(RadioError::Argument));
    assert_eq!(Request::SetLnaGain.code(), 19);
}

#[test]
fn gain_reply_zero_is_rejection() {
    assert_eq!(gain_reply(&vec![1]), Ok(()));
    assert_eq!(gain_reply(&vec![0]), Err(RadioError::Argument));
    assert_eq!(gain_reply(&vec![]), Err(RadioError::ShortReply));
}

#[test]
fn api_version_check() {
    assert_eq!(check_api_version(0x0103, 0x0102), Ok(()));
    assert_eq!(
        check_api_version(0x0101, 0x0102),
        Err(RadioError::VersionMismatch { device: 0x0101, minimal: 0x0102 })
    );
}

#[test]
fn baseband_request_words() {
    assert_eq!(baseband_filter_setup(0x0123_4567), (0x4567, 0x0123));
}

#[test]
fn part_id_and_serial_words() {
    let mut data: Vec<u8> = (0u8..32).collect();
    let r = part_id_serial(&data).unwrap();
    assert_eq!(r.0, (0x0302_0100, 0x0706_0504));
    assert_eq!(r.1, [0x0B0A_0908, 0x0F0E_0D0C, 0x1312_1110, 0x1716_1514]);
    data.truncate(23);
    assert_eq!(part_id_serial(&data), None);
}

#[test]
fn sample_rate_multiplier_search() {
    // 2.6 MHz is whole
    assert_eq!(sample_rate_multiplier(0x4143_d620_0000_0000, 0x3ff0_0000_0000_0000), 1);
    // 10.50000025 MHz needs four
    assert_eq!(sample_rate_multiplier(0x4164_06f4_0800_0000, 0x3ff4_0000_0000_0000), 4);
    // 20/3 MHz needs three
    assert_eq!(sample_rate_multiplier(0x4159_6e6a_aaaa_aaab, 0x3ffa_aaaa_aac0_0000), 3);
}
