use vstd::prelude::*;

verus! {

/// Hertz in one megahertz.
pub const MHZ: u64 = 1000000;

/// Number of baseband filter bandwidths the MAX2837 transceiver offers.
pub const MAX2837_COUNT: usize = 16;

/// Largest gain, in dB, the receive LNA accepts.
pub const LNA_GAIN_MAX: u16 = 40;

/// Largest gain, in dB, the receive VGA accepts.
pub const VGA_GAIN_MAX: u16 = 62;

/// Largest gain, in dB, the transmit VGA accepts.
pub const TXVGA_GAIN_MAX: u16 = 47;

/// Number of candidate multipliers the automatic sample-rate search tries.
pub const MULTIPLIER_SEARCH: u64 = 32;

/// The baseband filter bandwidths of the MAX2837, in Hz, in ascending order.
pub open spec fn max2837(i: int) -> u32 {
    if i == 0 {
        1750000
    } else if i == 1 {
        2500000
    } else if i == 2 {
        3500000
    } else if i == 3 {
        5000000
    } else if i == 4 {
        5500000
    } else if i == 5 {
        6000000
    } else if i == 6 {
        7000000
    } else if i == 7 {
        8000000
    } else if i == 8 {
        9000000
    } else if i == 9 {
        10000000
    } else if i == 10 {
        12000000
    } else if i == 11 {
        14000000
    } else if i == 12 {
        15000000
    } else if i == 13 {
        20000000
    } else if i == 14 {
        24000000
    } else {
        28000000
    }
}

/// Bandwidth `i` of the MAX2837 table.
pub fn max2837_bandwidth(i: usize) -> (r: u32)
    requires
        i < MAX2837_COUNT,
    ensures
        r == max2837(i as int),
{
    match i {
        0 => 1750000,
        1 => 2500000,
        2 => 3500000,
        3 => 5000000,
        4 => 5500000,
        5 => 6000000,
        6 => 7000000,
        7 => 8000000,
        8 => 9000000,
        9 => 10000000,
        10 => 12000000,
        11 => 14000000,
        12 => 15000000,
        13 => 20000000,
        14 => 24000000,
        _ => 28000000,
    }
}

proof fn lemma_max2837_ascending()
    ensures
        forall|i: int, j: int| 0 <= i < j < MAX2837_COUNT ==> max2837(i) < max2837(j),
{
}

/// Index of the first bandwidth at least `bw`; `MAX2837_COUNT` when there is none.
fn first_at_least(bw: u32) -> (r: usize)
    ensures
        r <= MAX2837_COUNT,
        r < MAX2837_COUNT ==> max2837(r as int) >= bw,
        forall|j: int| 0 <= j < r ==> max2837(j) < bw,
{
    let mut i: usize = 0;
    while i < MAX2837_COUNT
        invariant
            i <= MAX2837_COUNT,
            forall|j: int| 0 <= j < i ==> max2837(j) < bw,
        decreases MAX2837_COUNT - i,
    {
        if max2837_bandwidth(i) >= bw {
            return i;
        }
        i = i + 1;
    }
    i
}

/// A bandwidth of the MAX2837 table.
pub open spec fn is_max2837(v: u32) -> bool {
    exists|i: int| 0 <= i < MAX2837_COUNT && max2837(i) == v
}

/// The baseband filter bandwidth for a requested bandwidth: the largest
/// bandwidth of the table that is strictly below the request, or the first
/// one when the request is at most the first; 0 when the request exceeds
/// every bandwidth of the table.
pub fn compute_baseband_filter_bw_round_down_lt(bandwidth_hz: u32) -> (r: u32)
    ensures
        bandwidth_hz > max2837(15) ==> r == 0,
        bandwidth_hz <= max2837(0) ==> r == max2837(0),
        max2837(0) < bandwidth_hz <= max2837(15) ==> {
            &&& is_max2837(r)
            &&& r < bandwidth_hz
            &&& forall|i: int| 0 <= i < MAX2837_COUNT && max2837(i) < bandwidth_hz ==> max2837(i) <= r
        },
{
    proof {
        lemma_max2837_ascending();
    }
    let ix = first_at_least(bandwidth_hz);
    if ix == MAX2837_COUNT {
        0
    } else if ix == 0 {
        max2837_bandwidth(0)
    } else {
        max2837_bandwidth(ix - 1)
    }
}

/// The baseband filter bandwidth for a requested bandwidth: the largest
/// bandwidth of the table that is at most the request, or the first one when
/// the request is below the first; 0 when the request exceeds every
/// bandwidth of the table.
pub fn compute_baseband_filter_bw(bandwidth_hz: u32) -> (r: u32)
    ensures
        bandwidth_hz > max2837(15) ==> r == 0,
        bandwidth_hz <= max2837(0) ==> r == max2837(0),
        max2837(0) <= bandwidth_hz <= max2837(15) ==> {
            &&& is_max2837(r)
            &&& r <= bandwidth_hz
            &&& forall|i: int| 0 <= i < MAX2837_COUNT && max2837(i) <= bandwidth_hz ==> max2837(i) <= r
        },
{
    proof {
        lemma_max2837_ascending();
    }
    let ix = first_at_least(bandwidth_hz);
    if ix == MAX2837_COUNT {
        0
    } else {
        let p = max2837_bandwidth(ix);
        if ix != 0 && p > bandwidth_hz {
            max2837_bandwidth(ix - 1)
        } else {
            p
        }
    }
}

/// The four little-endian bytes of `v`.
pub open spec fn le_bytes(v: int) -> Seq<u8> {
    seq![
        (v % 256) as u8,
        ((v / 256) % 256) as u8,
        ((v / 65536) % 256) as u8,
        ((v / 16777216) % 256) as u8,
    ]
}

/// The frequency parameters of a tuning request: the whole megahertz (kept
/// to 32 bits) and the remaining hertz, each as four little-endian bytes.
pub fn freq_params(hz: u64) -> (r: [u8; 8])
    ensures
        r@ == le_bytes((hz / MHZ) as int % 0x1_0000_0000) + le_bytes((hz % MHZ) as int),
{
    let mhz: u64 = (hz / MHZ) % 0x1_0000_0000;
    let rest: u64 = hz % MHZ;
    let r = [
        (mhz % 256) as u8,
        ((mhz / 256) % 256) as u8,
        ((mhz / 65536) % 256) as u8,
        ((mhz / 16777216) % 256) as u8,
        (rest % 256) as u8,
        ((rest / 256) % 256) as u8,
        ((rest / 65536) % 256) as u8,
        ((rest / 16777216) % 256) as u8,
    ];
    assert(r@ =~= le_bytes((hz / MHZ) as int % 0x1_0000_0000) + le_bytes((hz % MHZ) as int));
    r
}

/// Vendor requests of the HackRF USB protocol that this library encodes.
#[derive(Clone, Copy, Debug, PartialEq, Eq, Structural)]
pub enum Request {
    SetTransceiverMode,
    SampleRateSet,
    BasebandFilterBandwidthSet,
    BoardIdRead,
    VersionStringRead,
    SetFreq,
    AmpEnable,
    BoardPartidSerialnoRead,
    SetLnaGain,
    SetVgaGain,
    SetTxvgaGain,
    AntennaEnable,
    SetHwSyncMode,
    Reset,
    ClkoutEnable,
}

pub open spec fn request_code(r: Request) -> u8 {
    match r {
        Request::SetTransceiverMode => 1,
        Request::SampleRateSet => 6,
        Request::BasebandFilterBandwidthSet => 7,
        Request::BoardIdRead => 14,
        Request::VersionStringRead => 15,
        Request::SetFreq => 16,
        Request::AmpEnable => 17,
        Request::BoardPartidSerialnoRead => 18,
        Request::SetLnaGain => 19,
        Request::SetVgaGain => 20,
        Request::SetTxvgaGain => 21,
        Request::AntennaEnable => 23,
        Request::SetHwSyncMode => 29,
        Request::Reset => 30,
        Request::ClkoutEnable => 32,
    }
}

impl Request {
    /// The request's code on the wire.
    pub fn code(&self) -> (r: u8)
        ensures
            r == request_code(*self),
    {
        match self {
            Request::SetTransceiverMode => 1,
            Request::SampleRateSet => 6,
            Request::BasebandFilterBandwidthSet => 7,
            Request::BoardIdRead => 14,
            Request::VersionStringRead => 15,
            Request::SetFreq => 16,
            Request::AmpEnable => 17,
            Request::BoardPartidSerialnoRead => 18,
            Request::SetLnaGain => 19,
            Request::SetVgaGain => 20,
            Request::SetTxvgaGain => 21,
            Request::AntennaEnable => 23,
            Request::SetHwSyncMode => 29,
            Request::Reset => 30,
            Request::ClkoutEnable => 32,
        }
    }
}

/// Operating modes of the transceiver.
#[derive(Clone, Copy, Debug, PartialEq, Eq, Structural)]
pub enum TransceiverMode {
    Off,
    Receive,
    Transmit,
}

impl TransceiverMode {
    /// The mode's value in a `SetTransceiverMode` request.
    pub fn code(&self) -> (r: u16)
        ensures
            r == match *self {
                TransceiverMode::Off => 0u16,
                TransceiverMode::Receive => 1u16,
                TransceiverMode::Transmit => 2u16,
            },
    {
        match self {
            TransceiverMode::Off => 0,
            TransceiverMode::Receive => 1,
            TransceiverMode::Transmit => 2,
        }
    }
}

/// Why the radio refused or could not honour a request.
#[derive(Clone, Copy, Debug, PartialEq, Eq, Structural)]
pub enum RadioError {
    /// An argument is out of range, or the device rejected it.
    Argument,
    /// The device's firmware is older than the request needs.
    VersionMismatch { device: u16, minimal: u16 },
    /// The device's reply is shorter than the request's answer.
    ShortReply,
}

/// A vendor control transfer that reads `length` bytes from the device.
#[derive(Clone, Copy, Debug, PartialEq, Eq, Structural)]
pub struct ControlRead {
    pub request: Request,
    pub value: u16,
    pub index: u16,
    pub length: u16,
}

/// A gain request: refused above `max`, else a one-byte read of `request`
/// whose index is the gain with the bits of `clear` cleared.
pub open spec fn gain_read(value: u16, max: u16, request: Request, clear: u16) -> Result<ControlRead, RadioError> {
    if value > max {
        Err(RadioError::Argument)
    } else {
        Ok(ControlRead { request, value: 0, index: value & !clear, length: 1 })
    }
}

/// The request that sets the receive LNA gain: 0 to 40 dB in steps of 8.
pub fn lna_gain_request(value: u16) -> (r: Result<ControlRead, RadioError>)
    ensures
        r == gain_read(value, LNA_GAIN_MAX, Request::SetLnaGain, 0x07),
{
    if value > LNA_GAIN_MAX {
        Err(RadioError::Argument)
    } else {
        Ok(ControlRead { request: Request::SetLnaGain, value: 0, index: value & !0x07u16, length: 1 })
    }
}

/// The request that sets the receive VGA gain: 0 to 62 dB in steps of 2.
pub fn vga_gain_request(value: u16) -> (r: Result<ControlRead, RadioError>)
    ensures
        r == gain_read(value, VGA_GAIN_MAX, Request::SetVgaGain, 0x01),
{
    if value > VGA_GAIN_MAX {
        Err(RadioError::Argument)
    } else {
        Ok(ControlRead { request: Request::SetVgaGain, value: 0, index: value & !0x01u16, length: 1 })
    }
}

/// The request that sets the transmit VGA gain: 0 to 47 dB.
pub fn txvga_gain_request(value: u16) -> (r: Result<ControlRead, RadioError>)
    ensures
        r == gain_read(value, TXVGA_GAIN_MAX, Request::SetTxvgaGain, 0),
{
    if value > TXVGA_GAIN_MAX {
        Err(RadioError::Argument)
    } else {
        proof {
            assert(value & !0u16 == value) by (bit_vector);
        }
        Ok(ControlRead { request: Request::SetTxvgaGain, value: 0, index: value, length: 1 })
    }
}

/// The device's answer to a gain request: a first byte of 0 means it
/// rejected the gain.
pub fn gain_reply(reply: &Vec<u8>) -> (r: Result<(), RadioError>)
    ensures
        reply@.len() == 0 ==> r == Err::<(), RadioError>(RadioError::ShortReply),
        reply@.len() > 0 && reply@[0] == 0 ==> r == Err::<(), RadioError>(RadioError::Argument),
        reply@.len() > 0 && reply@[0] != 0 ==> r == Ok::<(), RadioError>(()),
{
    if reply.len() == 0 {
        Err(RadioError::ShortReply)
    } else if reply[0] == 0 {
        Err(RadioError::Argument)
    } else {
        Ok(())
    }
}

/// Whether firmware version `device` is at least `minimal`.
pub fn check_api_version(device: u16, minimal: u16) -> (r: Result<(), RadioError>)
    ensures
        device >= minimal ==> r == Ok::<(), RadioError>(()),
        device < minimal ==> r == Err::<(), RadioError>(RadioError::VersionMismatch { device, minimal }),
{
    if device >= minimal {
        Ok(())
    } else {
        Err(RadioError::VersionMismatch { device, minimal })
    }
}

/// The value and index of a baseband filter request: the low and the high
/// 16 bits of the bandwidth.
pub fn baseband_filter_setup(hz: u32) -> (r: (u16, u16))
    ensures
        r.0 == hz % 65536,
        r.1 == hz / 65536,
{
    ((hz % 65536) as u16, (hz / 65536) as u16)
}

/// The data of a sample-rate request: frequency then divider, each as four
/// little-endian bytes.
pub fn sample_rate_params(freq_hz: u32, divider: u32) -> (r: [u8; 8])
    ensures
        r@ == le_bytes(freq_hz as int) + le_bytes(divider as int),
{
    let r = [
        (freq_hz % 256) as u8,
        ((freq_hz / 256) % 256) as u8,
        ((freq_hz / 65536) % 256) as u8,
        ((freq_hz / 16777216) % 256) as u8,
        (divider % 256) as u8,
        ((divider / 256) % 256) as u8,
        ((divider / 65536) % 256) as u8,
        ((divider / 16777216) % 256) as u8,
    ];
    assert(r@ =~= le_bytes(freq_hz as int) + le_bytes(divider as int));
    r
}

/// The little-endian 32-bit word at `at` of `data`.
pub open spec fn le_word(data: Seq<u8>, at: int) -> u32 {
    (data[at] + data[at + 1] * 256 + data[at + 2] * 65536 + data[at + 3] * 16777216) as u32
}

/// Reads the little-endian 32-bit word at `at`.
fn read_le_word(data: &Vec<u8>, at: usize) -> (r: u32)
    requires
        at + 4 <= data@.len(),
    ensures
        r == le_word(data@, at as int),
{
    let n = data.len();
    data[at] as u32 + data[at + 1] as u32 * 256 + data[at + 2] as u32 * 65536 + data[at + 3] as u32
        * 16777216
}

/// The answer to a part-id and serial-number request: two part-id words, then
/// four serial-number words, all little-endian; `None` when it is shorter
/// than 24 bytes.
pub fn part_id_serial(data: &Vec<u8>) -> (r: Option<((u32, u32), [u32; 4])>)
    ensures
        data@.len() < 24 ==> r is None,
        data@.len() >= 24 ==> (r matches Some(((a, b), s)) && a == le_word(data@, 0) && b == le_word(
            data@,
            4,
        ) && s@ == seq![le_word(data@, 8), le_word(data@, 12), le_word(data@, 16), le_word(data@, 20)]),
{
    if data.len() < 24 {
        return None;
    }
    let s = [read_le_word(data, 8), read_le_word(data, 12), read_le_word(data, 16), read_le_word(data, 20)];
    assert(s@ =~= seq![le_word(data@, 8), le_word(data@, 12), le_word(data@, 16), le_word(data@, 20)]);
    Some(((read_le_word(data, 0), read_le_word(data, 4)), s))
}

/// The mask of mantissa bits that the sample-rate search must clear, for a
/// frequency whose binary exponent is `exponent`.
pub open spec fn search_mask(exponent: int) -> u64 {
    (0xF_FFFF_FFFF_FFFFu64 & !(((1u64 << (exponent + 4) as u64) - 1) as u64)) as u64
}

/// The bits of `acc` under `mask` are all clear or all set: the accumulated
/// fraction is whole, or short of whole by less than the precision kept.
pub open spec fn search_hit(acc: u64, mask: u64) -> bool {
    (acc & mask) == 0 || (!acc & mask) == 0
}

/// The `j`-th multiple of the fraction `fb` is a hit under `mask`.
pub open spec fn hit_at(j: int, fb: u64, mask: u64) -> bool {
    search_hit((j * fb) as u64, mask)
}

/// The divider of the automatic sample-rate setting, from the bits of the
/// frequency (`freq_bits`, an IEEE 754 double) and of one plus its fractional
/// part (`frac_bits`): the smallest multiplier from 1 to 31 that makes the
/// fraction whole to within the precision the exponent leaves, else 1.
pub fn sample_rate_multiplier(freq_bits: u64, frac_bits: u64) -> (r: u32)
    requires
        0 <= ((freq_bits >> 52) & 0x7FF) as int - 1023 + 4 < 64,
    ensures
        ({
            let exponent = ((freq_bits >> 52) & 0x7FF) as int - 1023;
            let mask = search_mask(exponent);
            let fb = frac_bits & 0xF_FFFF_FFFF_FFFFu64;
            ||| 1 <= r < MULTIPLIER_SEARCH && hit_at(r as int, fb, mask) && forall|j: int|
                1 <= j < r ==> !#[trigger] hit_at(j, fb, mask)
            ||| r == 1 && forall|j: int| 1 <= j < MULTIPLIER_SEARCH ==> !#[trigger] hit_at(j, fb, mask)
        }),
{
    let exponent: i32 = ((freq_bits >> 52) & 0x7FF) as i32 - 1023;
    let mut mask: u64 = 0xF_FFFF_FFFF_FFFF;
    let fb: u64 = frac_bits & mask;
    assert(fb <= 0xF_FFFF_FFFF_FFFFu64) by (bit_vector)
        requires
            fb == frac_bits & 0xF_FFFF_FFFF_FFFFu64,
    ;
    let sh: u64 = (exponent + 4) as u64;
    assert(1u64 << sh >= 1) by (bit_vector)
        requires
            sh < 64,
    ;
    mask = mask & !((1u64 << sh) - 1);
    let mut acc: u64 = 0;
    let mut multiplier: u64 = 1;
    let mut ii: u64 = 1;
    let mut found = false;
    while ii <= MULTIPLIER_SEARCH && !found
        invariant
            1 <= ii <= MULTIPLIER_SEARCH + 1,
            fb <= 0xF_FFFF_FFFF_FFFFu64,
            mask == search_mask(exponent as int),
            !found ==> acc == (ii - 1) * fb,
            forall|j: int| 1 <= j < ii ==> !#[trigger] hit_at(j, fb, mask),
            found ==> multiplier == ii && ii <= MULTIPLIER_SEARCH && hit_at(ii as int, fb, mask),
            !found && ii > 1 ==> multiplier == ii - 1,
            !found && ii == 1 ==> multiplier == 1,
        decreases MULTIPLIER_SEARCH + 1 - ii + if found { 0int } else { 1int },
    {
        multiplier = ii;
        assert(acc + fb == ii * fb && ii * fb <= 32 * 0xF_FFFF_FFFF_FFFFu64) by (nonlinear_arith)
            requires
                acc == (ii - 1) * fb,
                1 <= ii <= 32,
                fb <= 0xF_FFFF_FFFF_FFFFu64,
        ;
        acc = acc + fb;
        if (acc & mask) == 0 || (!acc & mask) == 0 {
            found = true;
        } else {
            ii = ii + 1;
        }
    }
    if !found || multiplier == MULTIPLIER_SEARCH {
        1
    } else {
        multiplier as u32
    }
}

} // verus!
