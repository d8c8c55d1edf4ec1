//! The response layout, the frequency register and the two frequency checks.
use secure_tsc::{
    guest_tsc_freq_mhz, is_plausible_tsc_freq, tsc_rate_at_or_below_nominal, TscInfoResp, MSR_CPU,
    MSR_GUEST_TSC_FREQ, TSC_FREQ_MASK,
};
use std::mem;

/// The offset of the first byte in which `changed` differs from the all-zero response.
fn first_difference(changed: TscInfoResp) -> usize {
    let base = TscInfoResp::default().to_bytes();
    let bytes = changed.to_bytes();
    (0..bytes.len()).find(|&i| bytes[i] != base[i]).unwrap()
}

#[test]
fn tsc_info_resp_size() {
    // u32 status + u32 rsvd1 + u64 tsc_scale + u64 tsc_offset + u32 tsc_factor
    // + u8 rsvd2[100] = 4+4+8+8+4+100 = 128.
    assert_eq!(mem::size_of::<TscInfoResp>(), 128);
    assert_eq!(TscInfoResp::default().to_bytes().len(), 128);
}

#[test]
fn tsc_info_resp_field_offsets() {
    // Change one field of a zeroed instance at a time and see which byte changes first.
    let base = TscInfoResp::default();
    let status_off = first_difference(TscInfoResp { status: u32::MAX, ..base });
    let scale_off = first_difference(TscInfoResp { tsc_scale: u64::MAX, ..base });
    let offset_off = first_difference(TscInfoResp { tsc_offset: u64::MAX, ..base });
    let factor_off = first_difference(TscInfoResp { tsc_factor: u32::MAX, ..base });
    assert_eq!(status_off, 0, "status at offset 0");
    assert_eq!(scale_off, 8, "tsc_scale at offset 8");
    assert_eq!(offset_off, 16, "tsc_offset at offset 16");
    assert_eq!(factor_off, 24, "tsc_factor at offset 24");
}

#[test]
fn plausible_freq_boundaries() {
    assert!(!is_plausible_tsc_freq(0));
    assert!(!is_plausible_tsc_freq(499));
    assert!(is_plausible_tsc_freq(500));
    assert!(is_plausible_tsc_freq(3_600));
    assert!(is_plausible_tsc_freq(8_000));
    assert!(!is_plausible_tsc_freq(8_001));
    assert!(!is_plausible_tsc_freq(u64::MAX));
}

#[test]
fn rate_at_or_below_nominal() {
    let nominal: u64 = 3_600_000; // 3600 MHz in kHz
    assert!(tsc_rate_at_or_below_nominal(nominal, nominal));
    assert!(tsc_rate_at_or_below_nominal(nominal - 1, nominal));
    assert!(tsc_rate_at_or_below_nominal(0, nominal));
    assert!(!tsc_rate_at_or_below_nominal(nominal + 1, nominal));
    assert!(!tsc_rate_at_or_below_nominal(u64::MAX, nominal));
}

#[test]
fn tsc_freq_mask_width() {
    // Bits 17:0 (18 bits) should be extracted; higher bits discarded.
    let raw: u64 = 0xFFFF_FFFF_FFFF_FFFF;
    assert_eq!(raw & TSC_FREQ_MASK, 0x3_FFFF);
    // 3600 MHz fits in 18 bits.
    assert_eq!(3600u64 & TSC_FREQ_MASK, 3600);
}

#[test]
fn register_address() {
    assert_eq!(MSR_GUEST_TSC_FREQ, 0xC001_0134);
    assert_eq!(MSR_CPU, 0);
}

#[test]
fn register_access_gives_frequency() {
    assert_eq!(guest_tsc_freq_mhz(None), None);
    assert_eq!(guest_tsc_freq_mhz(Some(0)), Some(0));
    assert_eq!(guest_tsc_freq_mhz(Some(3600)), Some(3600));
    assert_eq!(guest_tsc_freq_mhz(Some(0x3_FFFF)), Some(0x3_FFFF));
    assert_eq!(guest_tsc_freq_mhz(Some(0x4_0000)), Some(0));
    assert_eq!(guest_tsc_freq_mhz(Some(0xABCD_0000_0000_0000 + 3600)), Some(3600));
    assert_eq!(guest_tsc_freq_mhz(Some(u64::MAX)), Some(0x3_FFFF));
}

#[test]
fn plausible_frequencies_survive_the_register() {
    assert_eq!(guest_tsc_freq_mhz(Some(500)), Some(500));
    assert_eq!(guest_tsc_freq_mhz(Some(8_000)), Some(8_000));
}

#[test]
fn default_response_is_zero() {
    let base = TscInfoResp::default();
    assert_eq!(base.status, 0);
    assert_eq!(base.tsc_scale, 0);
    assert_eq!(base.tsc_offset, 0);
    assert_eq!(base.tsc_factor, 0);
    assert_eq!(base.to_bytes(), [0u8; 128]);
}

#[test]
fn response_bytes_are_little_endian() {
    let resp = TscInfoResp {
        status: 0x0403_0201,
        tsc_scale: 0x1817_1615_1413_1211,
        tsc_offset: 0x2827_2625_2423_2221,
        tsc_factor: 0x3433_3231,
        ..TscInfoResp::default()
    };
    let bytes = resp.to_bytes();
    assert_eq!(bytes[0..4], [0x01, 0x02, 0x03, 0x04]);
    assert_eq!(bytes[4..8], [0, 0, 0, 0]);
    assert_eq!(bytes[8..16], [0x11, 0x12, 0x13, 0x14, 0x15, 0x16, 0x17, 0x18]);
    assert_eq!(bytes[16..24], [0x21, 0x22, 0x23, 0x24, 0x25, 0x26, 0x27, 0x28]);
    assert_eq!(bytes[24..28], [0x31, 0x32, 0x33, 0x34]);
    assert_eq!(bytes[28..128], [0u8; 100]);
}

#[test]
fn response_survives_its_bytes() {
    let mut bytes = [0u8; 128];
    for i in 0..128 {
        bytes[i] = (255 - i) as u8;
    }
    let resp = TscInfoResp::from_bytes(&bytes);
    assert_eq!(resp.status, 0xFCFD_FEFF);
    assert_eq!(resp.tsc_scale, 0xF0F1_F2F3_F4F5_F6F7);
    assert_eq!(resp.tsc_offset, 0xE8E9_EAEB_ECED_EEEF);
    assert_eq!(resp.tsc_factor, 0xE4E5_E6E7);
    assert_eq!(resp.to_bytes(), bytes);
    assert_eq!(TscInfoResp::from_bytes(&resp.to_bytes()).to_bytes(), bytes);
}
