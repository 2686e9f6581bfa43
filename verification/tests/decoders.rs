use jtag_core::descriptor::{ApNDp, RnW, SequenceInfo, TransferInfo};
use jtag_core::ops::TransferResult;

#[test]
fn sequence_info_zero_means_sixty_four() {
    let info = SequenceInfo::from(0x00u8);
    assert_eq!(info.n_bits, 64);
    assert!(!info.capture);
    assert!(!info.tms);
}

#[test]
fn sequence_info_plain_count() {
    let info = SequenceInfo::from(0x3Fu8);
    assert_eq!(info.n_bits, 63);
    assert!(!info.capture);
    assert!(!info.tms);
}

#[test]
fn sequence_info_tms_bit() {
    let info = SequenceInfo::from(0x41u8);
    assert_eq!(info.n_bits, 1);
    assert!(!info.capture);
    assert!(info.tms);
}

#[test]
fn sequence_info_capture_bit() {
    let info = SequenceInfo::from(0x88u8);
    assert_eq!(info.n_bits, 8);
    assert!(info.capture);
    assert!(!info.tms);
}

#[test]
fn sequence_info_all_fields() {
    let info = SequenceInfo::from(0xC5u8);
    assert_eq!(info.n_bits, 5);
    assert!(info.capture);
    assert!(info.tms);
}

#[test]
fn sequence_info_upper_bits_do_not_leak_into_count() {
    // Only the low six bits form the clock count, for every byte value.
    for b in 0u16..=255 {
        let info = SequenceInfo::from(b as u8);
        let low = (b as u8) & 0x3F;
        if low == 0 {
            assert_eq!(info.n_bits, 64);
        } else {
            assert_eq!(info.n_bits, low);
        }
        assert_eq!(info.capture, (b as u8) & 0x80 != 0);
        assert_eq!(info.tms, (b as u8) & 0x40 != 0);
    }
}

#[test]
fn transfer_info_zero_byte() {
    let info = TransferInfo::from(0x00u8);
    assert_eq!(info.ap_ndp, ApNDp::Dp);
    assert_eq!(info.r_nw, RnW::W);
    assert_eq!(info.a2a3, 0);
    assert!(!info.match_value);
    assert!(!info.match_mask);
    assert!(!info.timestamp);
}

#[test]
fn transfer_info_single_bits() {
    assert_eq!(TransferInfo::from(0x01u8).ap_ndp, ApNDp::Ap);
    assert_eq!(TransferInfo::from(0x02u8).r_nw, RnW::R);
    assert_eq!(TransferInfo::from(0x04u8).a2a3, 1);
    assert_eq!(TransferInfo::from(0x08u8).a2a3, 2);
    assert_eq!(TransferInfo::from(0x0Cu8).a2a3, 3);
    assert!(TransferInfo::from(0x10u8).match_value);
    assert!(TransferInfo::from(0x20u8).match_mask);
    assert!(TransferInfo::from(0x80u8).timestamp);
}

#[test]
fn transfer_info_bit_table_for_every_byte() {
    for b in 0u16..=255 {
        let byte = b as u8;
        let info = TransferInfo::from(byte);
        assert_eq!(info.ap_ndp, if byte & 0x01 != 0 { ApNDp::Ap } else { ApNDp::Dp });
        assert_eq!(info.r_nw, if byte & 0x02 != 0 { RnW::R } else { RnW::W });
        assert_eq!(info.a2a3, (byte & 0x0C) >> 2);
        assert!(info.a2a3 < 4);
        assert_eq!(info.match_value, byte & 0x10 != 0);
        assert_eq!(info.match_mask, byte & 0x20 != 0);
        assert_eq!(info.timestamp, byte & 0x80 != 0);
    }
}

#[test]
fn rdbuff_descriptor() {
    let info = TransferInfo::rdbuff();
    assert_eq!(info.ap_ndp, ApNDp::Dp);
    assert_eq!(info.r_nw, RnW::R);
    assert_eq!(info.a2a3, 3);
    assert!(!info.match_value);
    assert!(!info.match_mask);
    assert!(!info.timestamp);
}

#[test]
fn transfer_result_status_codes() {
    assert_eq!(TransferResult::Success(0xDEADBEEF).status(), 0x01);
    assert_eq!(TransferResult::Wait.status(), 0x02);
    assert_eq!(TransferResult::Fault.status(), 0x08);
    assert_eq!(TransferResult::Mismatch.status(), 0x10);
}
