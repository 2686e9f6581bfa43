//! The minimal hardware capability behind every shift, and two verified
//! reference devices.
//!
//! A concrete probe implements [`Jtag`] by driving real pins; the shift
//! primitives and composed operations are written once, generically, against
//! this interface. The trait's contract pins the exact wire trace each call
//! appends, and — for a device that echoes TDI back on TDO — the captured
//! data, so that the register read-back path is verified end to end.

use vstd::prelude::*;
use crate::bits::{bit8, low8};
use crate::descriptor::SequenceInfo;
use crate::wire::{WireBit, burst_events, nav_events};

verus! {

/// The hardware capability consumed by the protocol engine.
///
/// `wire()` is the trace of every clock cycle the device has driven so far;
/// `loopback()` says whether the device echoes TDI back on TDO, as a chain
/// that carries the probe's own bits back unchanged does.
pub trait Jtag: Sized {
    /// The trace of clock cycles driven so far.
    spec fn wire(&self) -> Seq<WireBit>;

    /// Whether TDO echoes TDI, so that captured data is the shifted data.
    spec fn loopback(&self) -> bool;

    /// Drive one burst of up to eight clocks: TDI from the low bits of one
    /// byte, LSB first, TMS held at `info.tms`; return the captured TDO bits
    /// in the low bits of the result.
    fn sequence(&mut self, info: SequenceInfo, tdi: u8) -> (tdo: u8)
        requires
            1 <= info.n_bits <= 8,
        ensures
            final(self).wire() == old(self).wire() + burst_events(
                info.tms,
                tdi,
                info.n_bits as nat,
            ),
            final(self).loopback() == old(self).loopback(),
            old(self).loopback() && info.capture ==> tdo == low8(tdi, info.n_bits),
    ;

    /// Drive successive TMS transitions, one clock each, TDI unspecified.
    fn tms_sequence(&mut self, tms: &Vec<bool>)
        ensures
            final(self).wire() == old(self).wire() + nav_events(tms@),
            final(self).loopback() == old(self).loopback(),
    ;

    /// Accept or reject a requested maximum clock rate; no clock is driven.
    fn set_clock(&mut self, max_frequency: u32) -> (accepted: bool)
        ensures
            final(self).wire() == old(self).wire(),
            final(self).loopback() == old(self).loopback(),
    ;
}

/// A device that records every cycle and echoes TDI back on TDO, as a scan
/// chain whose selected register carries the bits straight through does.
pub struct LoopbackDevice {
    /// The recorded wire trace, one entry per clock cycle.
    pub log: Vec<WireBit>,
}

impl LoopbackDevice {
    /// A fresh device with an empty trace.
    pub fn new() -> (r: LoopbackDevice)
        ensures
            r.wire() == Seq::<WireBit>::empty(),
            r.loopback(),
    {
        LoopbackDevice { log: Vec::new() }
    }
}

impl Jtag for LoopbackDevice {
    open spec fn wire(&self) -> Seq<WireBit> {
        self.log@
    }

    open spec fn loopback(&self) -> bool {
        true
    }

    fn sequence(&mut self, info: SequenceInfo, tdi: u8) -> (tdo: u8) {
        push_burst(&mut self.log, info.tms, tdi, info.n_bits);
        mask_byte(tdi, info.n_bits)
    }

    fn tms_sequence(&mut self, tms: &Vec<bool>) {
        push_nav(&mut self.log, tms);
    }

    fn set_clock(&mut self, max_frequency: u32) -> (accepted: bool) {
        true
    }
}

/// A device that records every cycle and answers every capture with the same
/// fixed byte, masked to the burst width — a stand-in for a target whose
/// handshake code is known in advance.
pub struct ConstantDevice {
    /// The recorded wire trace, one entry per clock cycle.
    pub log: Vec<WireBit>,
    /// The byte every burst's capture is cut from.
    pub tdo: u8,
}

impl ConstantDevice {
    /// A fresh device with an empty trace answering `tdo` on every capture.
    pub fn new(tdo: u8) -> (r: ConstantDevice)
        ensures
            r.wire() == Seq::<WireBit>::empty(),
            !r.loopback(),
            r.tdo == tdo,
    {
        ConstantDevice { log: Vec::new(), tdo }
    }
}

impl Jtag for ConstantDevice {
    open spec fn wire(&self) -> Seq<WireBit> {
        self.log@
    }

    open spec fn loopback(&self) -> bool {
        false
    }

    fn sequence(&mut self, info: SequenceInfo, tdi: u8) -> (tdo: u8) {
        push_burst(&mut self.log, info.tms, tdi, info.n_bits);
        mask_byte(self.tdo, info.n_bits)
    }

    fn tms_sequence(&mut self, tms: &Vec<bool>) {
        push_nav(&mut self.log, tms);
    }

    fn set_clock(&mut self, max_frequency: u32) -> (accepted: bool) {
        true
    }
}

/// Record one burst of shift cycles, LSB first, in a trace log.
fn push_burst(log: &mut Vec<WireBit>, tms: bool, tdi: u8, n_bits: u8)
    requires
        1 <= n_bits <= 8,
    ensures
        final(log)@ == old(log)@ + burst_events(tms, tdi, n_bits as nat),
{
    let ghost target = old(log)@ + burst_events(tms, tdi, n_bits as nat);
    let mut i: u8 = 0;
    while i < n_bits
        invariant
            i <= n_bits <= 8,
            target == old(log)@ + burst_events(tms, tdi, n_bits as nat),
            log@ == old(log)@ + burst_events(tms, tdi, i as nat),
        decreases n_bits - i,
    {
        log.push(WireBit::Shift { tms, tdi: (tdi >> i) & 1 == 1 });
        proof {
            assert(bit8(tdi, i as int) == ((tdi >> i) & 1 == 1));
            assert(burst_events(tms, tdi, i as nat).push(
                WireBit::Shift { tms, tdi: bit8(tdi, i as int) },
            ) =~= burst_events(tms, tdi, (i + 1) as nat));
        }
        i += 1;
    }
    proof {
        assert(log@ =~= target);
    }
}

/// Record navigation cycles, one per TMS level, in a trace log.
fn push_nav(log: &mut Vec<WireBit>, tms: &Vec<bool>)
    ensures
        final(log)@ == old(log)@ + nav_events(tms@),
{
    let mut i: usize = 0;
    while i < tms.len()
        invariant
            i <= tms@.len(),
            log@ == old(log)@ + nav_events(tms@.take(i as int)),
        decreases tms@.len() - i,
    {
        log.push(WireBit::Nav { tms: tms[i] });
        proof {
            assert(nav_events(tms@.take(i as int)).push(WireBit::Nav { tms: tms@[i as int] })
                =~= nav_events(tms@.take(i + 1)));
        }
        i += 1;
    }
    proof {
        assert(tms@.take(tms@.len() as int) =~= tms@);
        assert(log@ =~= old(log)@ + nav_events(tms@));
    }
}

/// The low `n` bits of a byte, the shape a capture of `n` clocks comes in.
fn mask_byte(x: u8, n: u8) -> (r: u8)
    requires
        1 <= n <= 8,
    ensures
        r == low8(x, n),
{
    proof {
        assert(1u16 << n >= 1 && (1u16 << n) - 1 <= 255) by (bit_vector)
            requires
                1 <= n <= 8,
        ;
    }
    let mask16: u16 = (1u16 << n) - 1;
    let r = x & (mask16 as u8);
    proof {
        if n < 8 {
            assert((((1u16 << n) - 1) as u16) as u8 == ((1u8 << n) - 1) as u8) by (bit_vector)
                requires
                    1 <= n < 8,
            ;
        } else {
            assert((((1u16 << 8u8) - 1) as u16) as u8 == 0xFFu8) by (bit_vector);
            assert(x & 0xFFu8 == x) by (bit_vector);
        }
    }
    r
}

} // verus!
