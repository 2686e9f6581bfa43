//! Chunked bit-shift primitives over the hardware burst capability.
//!
//! Every shift decomposes into bursts of at most eight bits, because the
//! hardware moves one burst per call. The captured bits of each burst are
//! reassembled into a single word whose bit positions exactly match the
//! logical shift order; the reassembly is proved bit-exact, which is the
//! property that makes register read-back correct.

use vstd::prelude::*;
use crate::bits::{low8, low32, lemma_byte_of_shifted_word};
use crate::descriptor::SequenceInfo;
use crate::device::Jtag;
use crate::wire::{
    WireBit, burst_events, bypass_events, data_events, repeat_events, lemma_repeat_all_ones,
    lemma_repeat_extend,
};

verus! {

/// Shift out `clocks` (at most 8) bits of TDI data, with TMS set to the given
/// value; the captured TDO data comes back in the low bits.
pub fn shift_tdi<D: Jtag>(dev: &mut D, tdi: u8, clocks: u8, tms: bool) -> (tdo: u8)
    requires
        1 <= clocks <= 8,
    ensures
        final(dev).wire() == old(dev).wire() + burst_events(tms, tdi, clocks as nat),
        final(dev).loopback() == old(dev).loopback(),
        old(dev).loopback() ==> tdo == low8(tdi, clocks),
{
    dev.sequence(SequenceInfo { n_bits: clocks, capture: true, tms }, tdi)
}

/// Shift out `clocks` bits of TDI data, eight at a time, with TMS held at the
/// given value; used to emit bypass and idle filler.
pub fn shift_repeated_tdi<D: Jtag>(dev: &mut D, tdi: u8, clocks: u16, tms: bool)
    ensures
        final(dev).wire() == old(dev).wire() + repeat_events(tdi, clocks as nat, tms),
        final(dev).loopback() == old(dev).loopback(),
{
    let mut remaining = clocks;
    while remaining > 0
        invariant
            remaining <= clocks,
            (clocks - remaining) % 8 == 0 || remaining == 0,
            dev.loopback() == old(dev).loopback(),
            dev.wire() == old(dev).wire() + repeat_events(tdi, (clocks - remaining) as nat, tms),
        decreases remaining,
    {
        let n: u16 = if remaining < 8 {
            remaining
        } else {
            8
        };
        proof {
            lemma_repeat_extend(tdi, (clocks - remaining) as nat, n as nat, tms);
        }
        shift_tdi(dev, tdi, n as u8, tms);
        remaining -= n;
    }
    proof {
        assert(repeat_events(tdi, clocks as nat, tms) =~= repeat_events(
            tdi,
            (clocks - 0) as nat,
            tms,
        ));
    }
}

/// The accumulator's shape while a register shift is in progress: the `done`
/// captured bits sit in the top of the word, ready to be shifted down as the
/// remaining bits arrive.
pub open spec fn acc_shape(data: u32, done: u32, cc: u32) -> u32 {
    if done == 0 {
        0
    } else if done >= 32 {
        low32(data, done)
    } else {
        low32(data, done) << ((cc - done) as u32)
    }
}

/// A capture byte, masked to its burst width, seen as the bits of the shifted
/// word at the burst's offset.
proof fn lemma_masked_byte_as_word(x: u32, n: u8)
    requires
        1 <= n <= 8,
    ensures
        (low8(x as u8, n) as u32) == x & (((1u32 << (n as u32)) - 1) as u32),
{
    let nu = n as u32;
    if n < 8 {
        assert((((x as u8) & (((1u8 << n) - 1) as u8)) as u32) == x & (((1u32 << nu) - 1) as u32))
            by (bit_vector)
            requires
                1 <= n < 8,
                nu == n as u32,
        ;
    } else {
        assert(((x as u8) as u32) == x & (((1u32 << 8u32) - 1) as u32)) by (bit_vector);
    }
}

/// Merging one burst's capture into the accumulator keeps the shape: shift
/// the accumulator down by the burst width and place the burst at the top.
proof fn lemma_capture_step(data: u32, cc: u32, done: u32, bits: u32, cap: u32, byte32: u32)
    requires
        1 <= bits <= 8,
        done + bits <= cc,
        cc <= 32,
        byte32 == (data >> done) & (((1u32 << bits) - 1) as u32),
        cap == acc_shape(data, done, cc),
    ensures
        ((cap >> bits) | (byte32 << ((cc - bits) as u32))) == acc_shape(
            data,
            (done + bits) as u32,
            cc,
        ),
{
    let dn = (done + bits) as u32;
    let up = (cc - bits) as u32;
    if done == 0 {
        assert(data >> 0u32 == data) by (bit_vector);
        if dn < 32 {
            assert(((0u32 >> bits) | (byte32 << up)) == ((data & (((1u32 << dn) - 1) as u32)) << (
            (cc - dn) as u32))) by (bit_vector)
                requires
                    1 <= bits <= 8,
                    dn == bits,
                    bits <= cc <= 32,
                    up == (cc - bits) as u32,
                    byte32 == data & (((1u32 << bits) - 1) as u32),
            ;
        } else {
            assert(false);
        }
    } else {
        if dn < 32 {
            assert(((cap >> bits) | (byte32 << up)) == ((data & (((1u32 << dn) - 1) as u32)) << ((
            cc - dn) as u32))) by (bit_vector)
                requires
                    1 <= bits <= 8,
                    1 <= done,
                    done + bits == dn,
                    dn < 32,
                    dn <= cc <= 32,
                    up == (cc - bits) as u32,
                    byte32 == (data >> done) & (((1u32 << bits) - 1) as u32),
                    cap == (data & (((1u32 << done) - 1) as u32)) << ((cc - done) as u32),
            ;
        } else {
            assert(((cap >> bits) | (byte32 << up)) == data) by (bit_vector)
                requires
                    1 <= bits <= 8,
                    1 <= done,
                    done + bits == 32,
                    cc == 32,
                    up == (32 - bits) as u32,
                    byte32 == (data >> done) & (((1u32 << bits) - 1) as u32),
                    cap == (data & (((1u32 << done) - 1) as u32)) << ((32 - done) as u32),
            ;
            assert(dn == 32 && cc == 32);
        }
    }
}

/// A finished accumulator holds exactly the low `cc` bits of the data.
proof fn lemma_acc_done(data: u32, cc: u32)
    requires
        1 <= cc <= 32,
    ensures
        acc_shape(data, cc, cc) == low32(data, cc),
{
    if cc < 32 {
        let m = low32(data, cc);
        assert(m << 0u32 == m) by (bit_vector);
    }
}

/// One burst of a register shift appends the matching slice of the payload's
/// wire trace.
proof fn lemma_data_slice(data: u32, cc: nat, exit_shift: bool, done: u32, bits: u32, tms: bool)
    requires
        done + bits <= cc <= 32,
        1 <= bits <= 8,
        done + bits < cc || bits == 1,
        tms == (exit_shift && done + bits == cc),
    ensures
        data_events(data, cc, exit_shift).subrange(0, done as int) + burst_events(
            tms,
            (data >> done) as u8,
            bits as nat,
        ) == data_events(data, cc, exit_shift).subrange(0, (done + bits) as int),
{
    let target = data_events(data, cc, exit_shift);
    let lhs = target.subrange(0, done as int) + burst_events(tms, (data >> done) as u8, bits as nat);
    let rhs = target.subrange(0, (done + bits) as int);
    assert forall|i: int| 0 <= i < done + bits implies lhs[i] == rhs[i] by {
        if i >= done {
            let j = i - done;
            lemma_byte_of_shifted_word(data, done, j);
        }
    }
    assert(lhs =~= rhs);
}

/// Shift out `clock_cycles` bits of `data`, LSB first, while in Shift-DR or
/// Shift-IR; if `exit_shift` is set, TMS is raised on the final bit, moving
/// the TAP into Exit1. Returns the captured TDO data, reassembled bit-exactly
/// so that bit `i` of the result is the TDO level at clock `i`.
pub fn shift_register_data<D: Jtag>(
    dev: &mut D,
    data: u32,
    clock_cycles: u8,
    exit_shift: bool,
) -> (captured: u32)
    requires
        1 <= clock_cycles <= 32,
    ensures
        final(dev).wire() == old(dev).wire() + data_events(
            data,
            clock_cycles as nat,
            exit_shift,
        ),
        final(dev).loopback() == old(dev).loopback(),
        old(dev).loopback() ==> captured == low32(data, clock_cycles as u32),
{
    let ghost target = data_events(data, clock_cycles as nat, exit_shift);
    let mut d = data;
    let mut captured_dr: u32 = 0;
    let mut clocks = clock_cycles;
    proof {
        assert(data >> 0u32 == data) by (bit_vector);
        assert(old(dev).wire() + target.subrange(0, 0) =~= old(dev).wire());
    }
    while clocks > 1
        invariant
            1 <= clocks <= clock_cycles <= 32,
            target == data_events(data, clock_cycles as nat, exit_shift),
            d == data >> ((clock_cycles - clocks) as u32),
            dev.loopback() == old(dev).loopback(),
            dev.wire() == old(dev).wire() + target.subrange(
                0,
                clock_cycles - clocks,
            ),
            old(dev).loopback() ==> captured_dr == acc_shape(
                data,
                (clock_cycles - clocks) as u32,
                clock_cycles as u32,
            ),
        decreases clocks,
    {
        let ghost done = (clock_cycles - clocks) as u32;
        let bits: u8 = if clocks - 1 < 8 {
            clocks - 1
        } else {
            8
        };
        let captured_byte = shift_tdi(dev, #[verifier::truncate] (d as u8), bits, false);
        proof {
            lemma_data_slice(
                data,
                clock_cycles as nat,
                exit_shift,
                done,
                bits as u32,
                false,
            );
            if old(dev).loopback() {
                lemma_masked_byte_as_word(d, bits);
                lemma_capture_step(
                    data,
                    clock_cycles as u32,
                    done,
                    bits as u32,
                    captured_dr,
                    captured_byte as u32,
                );
            }
            assert((data >> done) >> (bits as u32) == data >> ((done + bits) as u32))
                by (bit_vector)
                requires
                    done + bits <= 31,
                    bits <= 8,
            ;
        }
        captured_dr >>= bits;
        captured_dr |= (captured_byte as u32) << (clock_cycles - bits);
        d >>= bits;
        clocks -= bits;
    }

    // Last bit, with TMS raised when the shift state is to be left.
    let ghost done = (clock_cycles - 1) as u32;
    let captured_byte = shift_tdi(dev, #[verifier::truncate] (d as u8), 1, exit_shift);
    proof {
        lemma_data_slice(data, clock_cycles as nat, exit_shift, done, 1, exit_shift);
        assert(target.subrange(0, clock_cycles as int) =~= target);
        if old(dev).loopback() {
            lemma_masked_byte_as_word(d, 1);
            lemma_capture_step(
                data,
                clock_cycles as u32,
                done,
                1,
                captured_dr,
                captured_byte as u32,
            );
            lemma_acc_done(data, clock_cycles as u32);
        }
    }
    captured_dr >>= 1u8;
    captured_dr |= (captured_byte as u32) << (clock_cycles - 1);

    captured_dr
}

/// Send the bypass bits after the data bits.
///
/// Bypass bits skip over the TAPs that follow the target on the chain. TDI is
/// held at one; TMS stays low until the last bit, where it is raised to leave
/// the shift state. With no TAPs after the target nothing is sent, and the
/// data shift itself must have exited.
pub fn bypass_after_data<D: Jtag>(dev: &mut D, bypass_after: u16)
    ensures
        final(dev).wire() == old(dev).wire() + bypass_events(bypass_after as nat),
        final(dev).loopback() == old(dev).loopback(),
{
    if bypass_after > 0 {
        if bypass_after > 1 {
            shift_repeated_tdi(dev, 0xFF, bypass_after - 1, false);
        }
        shift_repeated_tdi(dev, 0xFF, 1, true);
        proof {
            lemma_repeat_all_ones((bypass_after - 1) as nat, false);
            lemma_repeat_all_ones(1, true);
            assert(repeat_events(0xFF, (bypass_after - 1) as nat, false) + repeat_events(
                0xFF,
                1,
                true,
            ) =~= bypass_events(bypass_after as nat));
        }
    } else {
        proof {
            assert(dev.wire() =~= old(dev).wire() + bypass_events(0));
        }
    }
}

} // verus!
