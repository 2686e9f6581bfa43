//! Composed TAP operations: full round trips through the IEEE 1149.1 state
//! machine implementing one architectural operation each.
//!
//! Every operation starts and ends in Run-Test/Idle; the physical chain is
//! assumed in Idle on entry. The one exception is the wait outcome of a
//! transfer, which goes straight from Shift-DR back to Idle, skipping Exit1.

use vstd::prelude::*;
use crate::bits::low32;
use crate::config::{Config, TapConfig};
use crate::descriptor::RnW;
use crate::device::Jtag;
use crate::shift::{bypass_after_data, shift_register_data, shift_repeated_tdi};
use crate::wire::{
    WireBit, bypass_events, data_events, exit1_to_idle_tms, idle_to_shift_dr_tms,
    idle_to_shift_ir_tms, nav_events, repeat_events, shift_to_idle_tms,
};

verus! {

/// IR opcode selecting the ABORT register.
pub const JTAG_IR_ABORT: u32 = 0x08;

/// IR opcode selecting DPACC, the Debug Port access register.
pub const JTAG_IR_DPACC: u32 = 0x0A;

/// IR opcode selecting APACC, the Access Port access register.
pub const JTAG_IR_APACC: u32 = 0x0B;

/// IR opcode selecting the IDCODE register.
pub const JTAG_IR_IDCODE: u32 = 0x0E;

/// The result of a single DAP JTAG transfer.
#[derive(Debug, Clone, Copy, PartialEq, Eq, Structural)]
pub enum TransferResult {
    /// The transfer was successful and this variant contains the captured
    /// data.
    Success(u32),
    /// The device returned a wait response.
    Wait,
    /// The device returned a fault response.
    Fault,
    /// The device returned data that does not match what the transfer
    /// expects.
    Mismatch,
}

impl TransferResult {
    /// The one-hot status code reported on the wire for this outcome.
    pub fn status(&self) -> (r: u8)
        ensures
            r == match self {
                TransferResult::Success(_) => 0x01u8,
                TransferResult::Wait => 0x02u8,
                TransferResult::Fault => 0x08u8,
                TransferResult::Mismatch => 0x10u8,
            },
    {
        match self {
            TransferResult::Success(_) => 0x1,
            TransferResult::Wait => 0x2,
            TransferResult::Fault => 0x8,
            TransferResult::Mismatch => 0x10,
        }
    }
}

/// Drive the TMS levels that move the TAP from Run-Test/Idle into Shift-DR.
fn drive_idle_to_shift_dr<D: Jtag>(dev: &mut D)
    ensures
        final(dev).wire() == old(dev).wire() + nav_events(idle_to_shift_dr_tms()),
        final(dev).loopback() == old(dev).loopback(),
{
    let tms = vec![true, false, false];
    proof {
        assert(tms@ =~= idle_to_shift_dr_tms());
    }
    dev.tms_sequence(&tms);
}

/// Drive the TMS levels that move the TAP from Run-Test/Idle into Shift-IR.
fn drive_idle_to_shift_ir<D: Jtag>(dev: &mut D)
    ensures
        final(dev).wire() == old(dev).wire() + nav_events(idle_to_shift_ir_tms()),
        final(dev).loopback() == old(dev).loopback(),
{
    let tms = vec![true, true, false, false];
    proof {
        assert(tms@ =~= idle_to_shift_ir_tms());
    }
    dev.tms_sequence(&tms);
}

/// Drive the TMS levels that move the TAP from Shift-DR/IR straight back to
/// Run-Test/Idle, without a data bit through Exit1.
fn drive_shift_to_idle<D: Jtag>(dev: &mut D)
    ensures
        final(dev).wire() == old(dev).wire() + nav_events(shift_to_idle_tms()),
        final(dev).loopback() == old(dev).loopback(),
{
    let tms = vec![true, true, false];
    proof {
        assert(tms@ =~= shift_to_idle_tms());
    }
    dev.tms_sequence(&tms);
}

/// Drive the TMS levels that move the TAP from Exit1-DR/IR to Run-Test/Idle.
fn drive_exit1_to_idle<D: Jtag>(dev: &mut D)
    ensures
        final(dev).wire() == old(dev).wire() + nav_events(exit1_to_idle_tms()),
        final(dev).loopback() == old(dev).loopback(),
{
    let tms = vec![true, false];
    proof {
        assert(tms@ =~= exit1_to_idle_tms());
    }
    dev.tms_sequence(&tms);
}

/// The whole wire trace of an IR shift for one TAP geometry.
pub open spec fn shift_ir_events(tap: TapConfig, ir: u32) -> Seq<WireBit> {
    nav_events(idle_to_shift_ir_tms()) + repeat_events(0xFF, tap.ir_before as nat, false)
        + data_events(ir, tap.ir_length as nat, tap.ir_after == 0) + bypass_events(
        tap.ir_after as nat,
    ) + nav_events(exit1_to_idle_tms())
}

/// The whole wire trace of a DR shift for one chain position.
pub open spec fn shift_dr_events(index: u8, device_count: u8, dr: u32) -> Seq<WireBit> {
    let after = (device_count - index - 1) as nat;
    nav_events(idle_to_shift_dr_tms()) + repeat_events(0xFF, index as nat, false) + data_events(
        dr,
        32,
        after == 0,
    ) + bypass_events(after) + nav_events(exit1_to_idle_tms())
}

/// The three command bits of a DPACC/APACC scan: the register address over
/// the read/write bit.
pub open spec fn transfer_cmd(r_nw: RnW, a2a3: u8) -> u32 {
    (2 * a2a3 + r_nw.spec_bit()) as u32
}

/// The whole wire trace of a transfer that went through: command bits, data
/// bits, bypass and the Exit1 path home, then the idle filler.
pub open spec fn transfer_ok_events(
    index: u8,
    device_count: u8,
    cmd: u32,
    data: u32,
    idle_cycles: u8,
) -> Seq<WireBit> {
    let after = (device_count - index - 1) as nat;
    nav_events(idle_to_shift_dr_tms()) + repeat_events(0xFF, index as nat, false) + data_events(
        cmd,
        3,
        false,
    ) + data_events(data, 32, after == 0) + bypass_events(after) + nav_events(exit1_to_idle_tms())
        + repeat_events(0xFF, idle_cycles as nat, false)
}

/// The whole wire trace of a transfer the target asked to retry: command bits
/// only, then straight back to Idle and the idle filler.
pub open spec fn transfer_wait_events(index: u8, cmd: u32, idle_cycles: u8) -> Seq<WireBit> {
    nav_events(idle_to_shift_dr_tms()) + repeat_events(0xFF, index as nat, false) + data_events(
        cmd,
        3,
        false,
    ) + nav_events(shift_to_idle_tms()) + repeat_events(0xFF, idle_cycles as nat, false)
}

/// Execute the data part of a DPACC or APACC scan.
///
/// Starting from Run-Test/Idle: move into Shift-DR, skip the TAPs before the
/// target, shift the three command bits and read back the three-bit ack.
/// When the ack reads OK/FAULT — or when the caller does not check it — shift
/// the 32 data bits, skip the TAPs after the target, return to Idle through
/// Exit1 and report success with the captured word. On any other ack, return
/// to Idle directly and report a wait. Either way, finish with the requested
/// idle-state filler clocks.
pub fn transfer<D: Jtag>(
    dev: &mut D,
    config: &Config,
    r_nw: RnW,
    a2a3: u8,
    idle_cycles: u8,
    data: u32,
    check_ack: bool,
) -> (result: TransferResult)
    requires
        config.wf(),
        config.index_selected(),
        a2a3 < 4,
    ensures
        final(dev).loopback() == old(dev).loopback(),
        (result matches TransferResult::Success(_)) || result == TransferResult::Wait,
        !check_ack ==> (result matches TransferResult::Success(_)),
        (result matches TransferResult::Success(_)) ==> final(dev).wire() == old(dev).wire()
            + transfer_ok_events(
            config.index,
            config.device_count,
            transfer_cmd(r_nw, a2a3),
            data,
            idle_cycles,
        ),
        result == TransferResult::Wait ==> check_ack && final(dev).wire() == old(dev).wire()
            + transfer_wait_events(config.index, transfer_cmd(r_nw, a2a3), idle_cycles),
        old(dev).loopback() ==> ((result matches TransferResult::Success(_)) <==> (!check_ack
            || transfer_cmd(r_nw, a2a3) == 2)),
        old(dev).loopback() && (result matches TransferResult::Success(_)) ==> result
            == TransferResult::Success(data),
{
    drive_idle_to_shift_dr(dev);

    let bypass_bits_before = config.index as u16;
    let bypass_bits_after = (config.device_count - config.index - 1) as u16;

    shift_repeated_tdi(dev, 0xFF, bypass_bits_before, false);

    // Shift out the register address and read/write bits, read back the ack.
    let rw_bit = r_nw.bit();
    let cmd: u32 = ((a2a3 as u32) << 1u32) | (rw_bit as u32);
    proof {
        assert((((a2a3 as u32) << 1u32) | (rw_bit as u32)) == (2 * a2a3 + rw_bit) as u32
            && (((a2a3 as u32) << 1u32) | (rw_bit as u32)) < 8) by (bit_vector)
            requires
                a2a3 < 4,
                rw_bit <= 1,
        ;
    }
    let ack = shift_register_data(dev, cmd, 3, false);
    proof {
        assert(cmd == transfer_cmd(r_nw, a2a3));
        if old(dev).loopback() {
            assert(low32(cmd, 3) == cmd) by (bit_vector)
                requires
                    cmd < 8,
            ;
        }
    }

    // Based on the ack, shift out the data or stop the transfer.
    let result = if ack == 0b010 || !check_ack {
        let captured_dr = shift_register_data(dev, data, 32, bypass_bits_after == 0);
        bypass_after_data(dev, bypass_bits_after);

        drive_exit1_to_idle(dev);

        TransferResult::Success(captured_dr)
    } else {
        drive_shift_to_idle(dev);
        TransferResult::Wait
    };

    shift_repeated_tdi(dev, 0xFF, idle_cycles as u16, false);

    result
}

/// Shift out the instruction register of the selected TAP.
///
/// Starting from Run-Test/Idle: move into Shift-IR, emit the bypass bits
/// before the target, shift the instruction (leaving the shift state on its
/// last bit exactly when no bypass bits follow), emit the bypass bits after,
/// and return to Idle through Exit1.
pub fn shift_ir<D: Jtag>(dev: &mut D, config: &Config, ir: u32)
    requires
        config.wf(),
        1 <= config.spec_current_tap().ir_length <= 32,
    ensures
        final(dev).wire() == old(dev).wire() + shift_ir_events(config.spec_current_tap(), ir),
        final(dev).loopback() == old(dev).loopback(),
{
    drive_idle_to_shift_ir(dev);

    let tap = config.current_tap();
    let ir_length = tap.ir_length;
    let bypass_bits_before = tap.ir_before;
    let bypass_bits_after = tap.ir_after;

    shift_repeated_tdi(dev, 0xFF, bypass_bits_before, false);

    shift_register_data(dev, ir, ir_length, bypass_bits_after == 0);
    bypass_after_data(dev, bypass_bits_after);

    drive_exit1_to_idle(dev);
}

/// Shift out the data register of the selected TAP and return the captured
/// bits.
///
/// Starting from Run-Test/Idle: move into Shift-DR, emit one bypass bit per
/// device before the target, shift the 32 data bits (leaving the shift state
/// on the last bit exactly when no devices follow), emit the bypass bits
/// after, and return to Idle through Exit1. For a chain that echoes TDI back
/// on TDO, the captured word is the shifted word.
pub fn shift_dr<D: Jtag>(dev: &mut D, config: &Config, dr: u32) -> (captured: u32)
    requires
        config.wf(),
        config.index_selected(),
    ensures
        final(dev).wire() == old(dev).wire() + shift_dr_events(
            config.index,
            config.device_count,
            dr,
        ),
        final(dev).loopback() == old(dev).loopback(),
        old(dev).loopback() ==> captured == dr,
{
    drive_idle_to_shift_dr(dev);

    let bypass_bits_before = config.index as u16;
    let bypass_bits_after = (config.device_count - config.index - 1) as u16;

    shift_repeated_tdi(dev, 0xFF, bypass_bits_before, false);

    let dr_captured = shift_register_data(dev, dr, 32, bypass_bits_after == 0);
    bypass_after_data(dev, bypass_bits_after);

    drive_exit1_to_idle(dev);

    dr_captured
}

/// Shift out the data register for an ABORT command: a write to address
/// zero with eight idle clocks and no ack check, so it always reports
/// success whatever handshake the target gives.
pub fn write_abort<D: Jtag>(dev: &mut D, config: &Config, data: u32) -> (result: TransferResult)
    requires
        config.wf(),
        config.index_selected(),
    ensures
        final(dev).loopback() == old(dev).loopback(),
        result matches TransferResult::Success(_),
        final(dev).wire() == old(dev).wire() + transfer_ok_events(
            config.index,
            config.device_count,
            transfer_cmd(RnW::W, 0),
            data,
            8,
        ),
        old(dev).loopback() ==> result == TransferResult::Success(data),
{
    transfer(dev, config, RnW::W, 0, 8, data, false)
}

/// The wait outcome leaves the shift state directly and is strictly shorter
/// on the wire than the path a successful transfer takes home through Exit1.
pub proof fn lemma_wait_path_shorter(
    index: u8,
    device_count: u8,
    cmd: u32,
    data: u32,
    idle_cycles: u8,
)
    requires
        index < device_count,
    ensures
        transfer_wait_events(index, cmd, idle_cycles).len() < transfer_ok_events(
            index,
            device_count,
            cmd,
            data,
            idle_cycles,
        ).len(),
{
}

} // verus!
