//! Model of the bit stream a JTAG operation drives on the wire.
//!
//! Every clock cycle is one [`WireBit`]: a navigation bit, whose TDI level is
//! unspecified, or a shift bit carrying both TMS and TDI. The hardware trait
//! exposes the stream as a spec-level trace, and every contract of the shift
//! primitives and composed operations pins the exact bits it appends.

use vstd::prelude::*;
use crate::bits::{bit8, bit32};

verus! {

/// One clock cycle on the wire.
#[derive(Debug, Clone, Copy, PartialEq, Eq, Structural)]
pub enum WireBit {
    /// A TAP-navigation cycle: only the TMS level is specified, TDI is left
    /// unchanged.
    Nav {
        /// The TMS level driven for this cycle.
        tms: bool,
    },
    /// A data-shift cycle with both TMS and TDI specified.
    Shift {
        /// The TMS level driven for this cycle.
        tms: bool,
        /// The TDI level driven for this cycle.
        tdi: bool,
    },
}

/// The navigation cycles for a sequence of TMS levels.
pub open spec fn nav_events(tms: Seq<bool>) -> Seq<WireBit> {
    Seq::new(tms.len(), |i: int| WireBit::Nav { tms: tms[i] })
}

/// The shift cycles of one hardware burst: up to eight bits of one TDI byte,
/// LSB first, all with the same TMS level.
pub open spec fn burst_events(tms: bool, tdi: u8, n: nat) -> Seq<WireBit> {
    Seq::new(n, |i: int| WireBit::Shift { tms, tdi: bit8(tdi, i) })
}

/// The shift cycles of a filler run: one TDI byte repeated over `n` cycles
/// with a constant TMS level.
pub open spec fn repeat_events(tdi: u8, n: nat, tms: bool) -> Seq<WireBit> {
    Seq::new(n, |i: int| WireBit::Shift { tms, tdi: bit8(tdi, i % 8) })
}

/// The shift cycles that skip the TAPs after the target: all-ones filler with
/// TMS raised on the final cycle only, to leave the shift state.
pub open spec fn bypass_events(n: nat) -> Seq<WireBit> {
    Seq::new(n, |i: int| WireBit::Shift { tms: i == n - 1, tdi: true })
}

/// The shift cycles of a register payload: `n` bits of `data`, LSB first,
/// with TMS raised on the final cycle exactly when the shift exits.
pub open spec fn data_events(data: u32, n: nat, exit_shift: bool) -> Seq<WireBit> {
    Seq::new(n, |i: int| WireBit::Shift { tms: exit_shift && i == n - 1, tdi: bit32(data, i) })
}

/// TMS levels walking the TAP state machine from Run-Test/Idle to Shift-DR.
pub open spec fn idle_to_shift_dr_tms() -> Seq<bool> {
    seq![true, false, false]
}

/// TMS levels walking the TAP state machine from Run-Test/Idle to Shift-IR.
pub open spec fn idle_to_shift_ir_tms() -> Seq<bool> {
    seq![true, true, false, false]
}

/// TMS levels walking the TAP state machine from Shift-DR/IR to
/// Run-Test/Idle, without passing a data bit through Exit1.
pub open spec fn shift_to_idle_tms() -> Seq<bool> {
    seq![true, true, false]
}

/// TMS levels walking the TAP state machine from Exit1-DR/IR to
/// Run-Test/Idle.
pub open spec fn exit1_to_idle_tms() -> Seq<bool> {
    seq![true, false]
}

/// A filler run over an all-ones TDI byte drives TDI high on every cycle.
pub proof fn lemma_repeat_all_ones(n: nat, tms: bool)
    ensures
        repeat_events(0xFF, n, tms) == Seq::new(n, |i: int| WireBit::Shift { tms, tdi: true }),
{
    assert forall|i: int| 0 <= i < n implies repeat_events(0xFF, n, tms)[i] == (WireBit::Shift {
        tms,
        tdi: true,
    }) by {
        let j = i % 8;
        assert(0 <= j < 8);
        let ju = j as u8;
        assert((0xFFu8 >> ju) & 1 == 1) by (bit_vector)
            requires
                ju < 8,
        ;
    }
    assert(repeat_events(0xFF, n, tms) =~= Seq::new(n, |i: int| WireBit::Shift { tms, tdi: true }));
}

/// Appending one aligned burst to a filler run extends it: the burst's bits
/// land on cycle indices congruent to their own position modulo eight.
pub proof fn lemma_repeat_extend(tdi: u8, done: nat, n: nat, tms: bool)
    requires
        done % 8 == 0,
        n <= 8,
    ensures
        repeat_events(tdi, done, tms) + burst_events(tms, tdi, n) == repeat_events(
            tdi,
            done + n,
            tms,
        ),
{
    assert forall|i: int| 0 <= i < done + n implies (repeat_events(tdi, done, tms) + burst_events(
        tms,
        tdi,
        n,
    ))[i] == repeat_events(tdi, done + n, tms)[i] by {
        if i < done {
        } else {
            let j = i - done;
            assert(0 <= j < 8);
            assert(i % 8 == j) by (nonlinear_arith)
                requires
                    done % 8 == 0,
                    0 <= j < 8,
                    i == done + j,
            ;
        }
    }
    assert(repeat_events(tdi, done, tms) + burst_events(tms, tdi, n) =~= repeat_events(
        tdi,
        done + n,
        tms,
    ));
}

} // verus!
