use jtag_core::config::{Config, TapConfig};
use jtag_core::descriptor::RnW;
use jtag_core::device::{ConstantDevice, Jtag, LoopbackDevice};
use jtag_core::ops::{shift_dr, shift_ir, transfer, write_abort, TransferResult};
use jtag_core::shift::{bypass_after_data, shift_register_data, shift_repeated_tdi, shift_tdi};
use jtag_core::wire::WireBit;

fn chain(device_count: u8, index: u8) -> Config {
    let mut cfg = Config::new(8);
    assert!(cfg.update_device_count(device_count));
    assert!(cfg.select_index(index));
    cfg
}

#[test]
fn shift_tdi_records_burst_and_echoes() {
    let mut dev = LoopbackDevice::new();
    let tdo = shift_tdi(&mut dev, 0b1011_0101, 5, false);
    assert_eq!(tdo, 0b1_0101);
    assert_eq!(
        dev.log,
        vec![
            WireBit::Shift { tms: false, tdi: true },
            WireBit::Shift { tms: false, tdi: false },
            WireBit::Shift { tms: false, tdi: true },
            WireBit::Shift { tms: false, tdi: false },
            WireBit::Shift { tms: false, tdi: true },
        ]
    );
}

#[test]
fn shift_repeated_tdi_emits_all_ones_filler() {
    let mut dev = LoopbackDevice::new();
    shift_repeated_tdi(&mut dev, 0xFF, 19, false);
    assert_eq!(dev.log.len(), 19);
    for bit in &dev.log {
        assert_eq!(*bit, WireBit::Shift { tms: false, tdi: true });
    }
}

#[test]
fn shift_register_data_round_trips_on_loopback() {
    // A chain that echoes TDI back returns the shifted word, masked to the
    // shifted width, for every width.
    for cc in 1u8..=32 {
        let mut dev = LoopbackDevice::new();
        let captured = shift_register_data(&mut dev, 0xDEADBEEF, cc, false);
        let expected = if cc == 32 { 0xDEADBEEFu32 } else { 0xDEADBEEFu32 & ((1u32 << cc) - 1) };
        assert_eq!(captured, expected);
        assert_eq!(dev.log.len(), cc as usize);
    }
}

#[test]
fn shift_register_data_exit_raises_tms_on_final_bit_only() {
    let mut dev = LoopbackDevice::new();
    let captured = shift_register_data(&mut dev, 0x5, 3, true);
    assert_eq!(captured, 0x5);
    assert_eq!(
        dev.log,
        vec![
            WireBit::Shift { tms: false, tdi: true },
            WireBit::Shift { tms: false, tdi: false },
            WireBit::Shift { tms: true, tdi: true },
        ]
    );
}

#[test]
fn bypass_after_data_shapes() {
    let mut dev = LoopbackDevice::new();
    bypass_after_data(&mut dev, 0);
    assert!(dev.log.is_empty());

    let mut dev = LoopbackDevice::new();
    bypass_after_data(&mut dev, 1);
    assert_eq!(dev.log, vec![WireBit::Shift { tms: true, tdi: true }]);

    let mut dev = LoopbackDevice::new();
    bypass_after_data(&mut dev, 3);
    assert_eq!(
        dev.log,
        vec![
            WireBit::Shift { tms: false, tdi: true },
            WireBit::Shift { tms: false, tdi: true },
            WireBit::Shift { tms: true, tdi: true },
        ]
    );
}

#[test]
fn shift_dr_round_trips_single_device() {
    let cfg = chain(1, 0);
    let mut dev = LoopbackDevice::new();
    let captured = shift_dr(&mut dev, &cfg, 0xDEADBEEF);
    assert_eq!(captured, 0xDEADBEEF);
}

#[test]
fn shift_dr_round_trips_mid_chain() {
    let cfg = chain(3, 1);
    let mut dev = LoopbackDevice::new();
    let captured = shift_dr(&mut dev, &cfg, 0x12345678);
    assert_eq!(captured, 0x12345678);
    // Navigation (3) + bypass before (1) + data (32) + bypass after (1)
    // + navigation (2).
    assert_eq!(dev.log.len(), 3 + 1 + 32 + 1 + 2);
}

#[test]
fn shift_ir_wire_trace_mid_chain() {
    // Three devices, the middle one selected, each neighbour holding a
    // one-bit bypass instruction register: the shift phase is one bypass
    // bit, the four instruction bits, one bypass bit.
    let mut cfg = chain(3, 1);
    cfg.scan_chain[1] = TapConfig { ir_length: 4, ir_before: 1, ir_after: 1 };
    let mut dev = LoopbackDevice::new();
    shift_ir(&mut dev, &cfg, 0xA);
    let expected = vec![
        WireBit::Nav { tms: true },
        WireBit::Nav { tms: true },
        WireBit::Nav { tms: false },
        WireBit::Nav { tms: false },
        WireBit::Shift { tms: false, tdi: true },
        WireBit::Shift { tms: false, tdi: false },
        WireBit::Shift { tms: false, tdi: true },
        WireBit::Shift { tms: false, tdi: false },
        WireBit::Shift { tms: false, tdi: true },
        WireBit::Shift { tms: true, tdi: true },
        WireBit::Nav { tms: true },
        WireBit::Nav { tms: false },
    ];
    assert_eq!(dev.log, expected);
    // Shift-phase clocks: one per unselected device plus the IR width.
    let shift_clocks = dev
        .log
        .iter()
        .filter(|b| matches!(b, WireBit::Shift { .. }))
        .count();
    assert_eq!(shift_clocks, (cfg.device_count as usize - 1) + 4);
}

#[test]
fn shift_ir_exits_through_data_when_nothing_follows() {
    let mut cfg = chain(1, 0);
    cfg.scan_chain[0] = TapConfig { ir_length: 4, ir_before: 0, ir_after: 0 };
    let mut dev = LoopbackDevice::new();
    shift_ir(&mut dev, &cfg, 0xE);
    let expected = vec![
        WireBit::Nav { tms: true },
        WireBit::Nav { tms: true },
        WireBit::Nav { tms: false },
        WireBit::Nav { tms: false },
        WireBit::Shift { tms: false, tdi: false },
        WireBit::Shift { tms: false, tdi: true },
        WireBit::Shift { tms: false, tdi: true },
        WireBit::Shift { tms: true, tdi: true },
        WireBit::Nav { tms: true },
        WireBit::Nav { tms: false },
    ];
    assert_eq!(dev.log, expected);
}

#[test]
fn transfer_ok_ack_returns_success() {
    // The three-bit ack assembled from a device answering the OK/FAULT
    // pattern lets the transfer run to completion.
    let cfg = chain(1, 0);
    let mut dev = ConstantDevice::new(0b010);
    let result = transfer(&mut dev, &cfg, RnW::R, 3, 0, 0, true);
    assert!(matches!(result, TransferResult::Success(_)));
}

#[test]
fn transfer_other_ack_returns_wait() {
    let cfg = chain(1, 0);
    let mut dev = ConstantDevice::new(0b000);
    let result = transfer(&mut dev, &cfg, RnW::R, 3, 0, 0, true);
    assert_eq!(result, TransferResult::Wait);

    let mut dev = ConstantDevice::new(0b111);
    let result = transfer(&mut dev, &cfg, RnW::R, 3, 0, 0, true);
    assert_eq!(result, TransferResult::Wait);
}

#[test]
fn transfer_wait_path_is_shorter_on_the_wire() {
    // The wait outcome skips Exit1 and the whole data phase: its trace is
    // strictly shorter than a completed transfer's.
    let cfg = chain(2, 0);
    let mut ok_dev = ConstantDevice::new(0b010);
    let ok = transfer(&mut ok_dev, &cfg, RnW::R, 3, 4, 0, true);
    assert!(matches!(ok, TransferResult::Success(_)));

    let mut wait_dev = ConstantDevice::new(0b001);
    let wait = transfer(&mut wait_dev, &cfg, RnW::R, 3, 4, 0, true);
    assert_eq!(wait, TransferResult::Wait);

    assert!(wait_dev.log.len() < ok_dev.log.len());
}

#[test]
fn transfer_unchecked_ignores_ack() {
    let cfg = chain(1, 0);
    let mut dev = ConstantDevice::new(0b111);
    let result = transfer(&mut dev, &cfg, RnW::W, 0, 0, 0xCAFEF00D, false);
    assert!(matches!(result, TransferResult::Success(_)));
}

#[test]
fn transfer_on_loopback_echoes_data() {
    // On a loopback chain the command bits echo back as the ack, so a
    // write to address one reads the OK/FAULT pattern and goes through.
    let cfg = chain(1, 0);
    let mut dev = LoopbackDevice::new();
    let result = transfer(&mut dev, &cfg, RnW::W, 1, 2, 0xABCD1234, true);
    assert_eq!(result, TransferResult::Success(0xABCD1234));

    // A read of address zero echoes an ack of one and is told to wait.
    let mut dev = LoopbackDevice::new();
    let result = transfer(&mut dev, &cfg, RnW::R, 0, 2, 0xABCD1234, true);
    assert_eq!(result, TransferResult::Wait);
}

#[test]
fn write_abort_succeeds_whatever_the_ack() {
    let cfg = chain(1, 0);

    let mut dev = ConstantDevice::new(0b111);
    assert!(matches!(write_abort(&mut dev, &cfg, 0x1), TransferResult::Success(_)));

    let mut dev = ConstantDevice::new(0b000);
    assert!(matches!(write_abort(&mut dev, &cfg, 0x1), TransferResult::Success(_)));

    let mut dev = LoopbackDevice::new();
    assert_eq!(write_abort(&mut dev, &cfg, 0xF1E2D3C4), TransferResult::Success(0xF1E2D3C4));
}

#[test]
fn set_clock_drives_no_cycles() {
    let mut dev = LoopbackDevice::new();
    assert!(dev.set_clock(1_000_000));
    assert!(dev.log.is_empty());
}
