use jtag_core::descriptor::SequenceInfo;
use jtag_core::device::{ConstantDevice, LoopbackDevice};
use jtag_core::dispatch::{run_sequence, sequences};
use jtag_core::wire::WireBit;

#[test]
fn run_sequence_echoes_full_bytes() {
    let mut dev = LoopbackDevice::new();
    let info = SequenceInfo { n_bits: 16, capture: true, tms: false };
    let captured = run_sequence(&mut dev, info, &vec![0x34, 0x12]);
    assert_eq!(captured, vec![0x34, 0x12]);
    assert_eq!(dev.log.len(), 16);
}

#[test]
fn run_sequence_masks_trailing_partial_byte() {
    let mut dev = LoopbackDevice::new();
    let info = SequenceInfo { n_bits: 12, capture: true, tms: true };
    let captured = run_sequence(&mut dev, info, &vec![0xFF, 0xFF]);
    assert_eq!(captured, vec![0xFF, 0x0F]);
    assert_eq!(dev.log.len(), 12);
    for bit in &dev.log {
        assert_eq!(*bit, WireBit::Shift { tms: true, tdi: true });
    }
}

#[test]
fn sequences_two_descriptors_one_captured() {
    // Two sequences: eight captured bits with one data byte, then four
    // uncaptured bits with one data byte. The response carries the first
    // sequence's byte alone; the count byte, two descriptors and two data
    // bytes are consumed.
    let req = vec![2u8, 0x88, 0xAB, 0x04, 0x0F];
    let mut dev = LoopbackDevice::new();
    let (resp, consumed) = sequences(&mut dev, &req).unwrap();
    assert_eq!(resp, vec![0xAB]);
    assert_eq!(consumed, 5);
    assert_eq!(dev.log.len(), 8 + 4);
}

#[test]
fn sequences_zero_count() {
    let req = vec![0u8, 0xAA, 0xBB];
    let mut dev = LoopbackDevice::new();
    let (resp, consumed) = sequences(&mut dev, &req).unwrap();
    assert!(resp.is_empty());
    assert_eq!(consumed, 1);
    assert!(dev.log.is_empty());
}

#[test]
fn sequences_empty_request_is_rejected() {
    let req: Vec<u8> = Vec::new();
    let mut dev = LoopbackDevice::new();
    assert!(sequences(&mut dev, &req).is_none());
    assert!(dev.log.is_empty());
}

#[test]
fn sequences_truncated_data_is_rejected_before_any_clock() {
    // The second sequence's data byte is missing: nothing at all is driven,
    // not even the complete first sequence.
    let req = vec![2u8, 0x88, 0xAB, 0x04];
    let mut dev = LoopbackDevice::new();
    assert!(sequences(&mut dev, &req).is_none());
    assert!(dev.log.is_empty());
}

#[test]
fn sequences_missing_descriptor_is_rejected() {
    let req = vec![2u8, 0x01, 0xAB];
    let mut dev = LoopbackDevice::new();
    assert!(sequences(&mut dev, &req).is_none());
    assert!(dev.log.is_empty());
}

#[test]
fn sequences_zero_count_field_means_sixty_four_bits() {
    // A descriptor whose low six bits are zero declares 64 clocks and eight
    // TDI bytes.
    let mut req = vec![1u8, 0x80];
    for i in 0..8 {
        req.push(i as u8);
    }
    let mut dev = LoopbackDevice::new();
    let (resp, consumed) = sequences(&mut dev, &req).unwrap();
    assert_eq!(resp, vec![0, 1, 2, 3, 4, 5, 6, 7]);
    assert_eq!(consumed, 10);
    assert_eq!(dev.log.len(), 64);

    // With only seven data bytes the same request is rejected.
    let short = &req[..9].to_vec();
    let mut dev = LoopbackDevice::new();
    assert!(sequences(&mut dev, short).is_none());
    assert!(dev.log.is_empty());
}

#[test]
fn sequences_partial_byte_capture_is_masked() {
    let req = vec![1u8, 0x84, 0xFF];
    let mut dev = LoopbackDevice::new();
    let (resp, consumed) = sequences(&mut dev, &req).unwrap();
    assert_eq!(resp, vec![0x0F]);
    assert_eq!(consumed, 3);
    assert_eq!(dev.log.len(), 4);
}

#[test]
fn sequences_tms_level_reaches_the_wire() {
    let req = vec![1u8, 0x43, 0x05];
    let mut dev = LoopbackDevice::new();
    let (resp, consumed) = sequences(&mut dev, &req).unwrap();
    assert!(resp.is_empty());
    assert_eq!(consumed, 3);
    assert_eq!(
        dev.log,
        vec![
            WireBit::Shift { tms: true, tdi: true },
            WireBit::Shift { tms: true, tdi: false },
            WireBit::Shift { tms: true, tdi: true },
        ]
    );
}

#[test]
fn sequences_response_is_device_data_not_tdi_on_non_loopback() {
    // A device that answers a fixed byte shows that the response carries
    // what the device captured, not the request's own TDI bytes.
    let req = vec![1u8, 0x88, 0x00];
    let mut dev = ConstantDevice::new(0x5A);
    let (resp, _) = sequences(&mut dev, &req).unwrap();
    assert_eq!(resp, vec![0x5A]);
}
