//! Decoders for the per-sequence and per-transfer control bytes.
//!
//! Both decoders are total: every byte value decodes to a value, with no
//! failure mode and no side effect.

use vstd::prelude::*;

verus! {

/// Describes a JTAG sequence request.
#[derive(Debug, Clone, Copy, PartialEq, Eq, Structural)]
pub struct SequenceInfo {
    /// The number of bits to shift in/out, between 1 and 64.
    pub n_bits: u8,
    /// If the TDO data should be captured.
    pub capture: bool,
    /// The TMS level to output.
    pub tms: bool,
}

/// The clock count encoded in a sequence descriptor byte: the low six bits,
/// with zero standing for 64.
pub open spec fn n_bits_of(byte: u8) -> u8 {
    if byte % 64 == 0 {
        64
    } else {
        (byte % 64) as u8
    }
}

/// The capture flag of a sequence descriptor byte: bit 7.
pub open spec fn capture_of(byte: u8) -> bool {
    byte / 128 % 2 == 1
}

/// The TMS level of a sequence descriptor byte: bit 6.
pub open spec fn tms_of(byte: u8) -> bool {
    byte / 64 % 2 == 1
}

impl vstd::std_specs::convert::FromSpecImpl<u8> for SequenceInfo {
    open spec fn obeys_from_spec() -> bool {
        true
    }

    open spec fn from_spec(byte: u8) -> SequenceInfo {
        SequenceInfo { n_bits: n_bits_of(byte), capture: capture_of(byte), tms: tms_of(byte) }
    }
}

impl From<u8> for SequenceInfo {
    /// Decode a sequence descriptor byte: bits 0-5 the clock count (0 means
    /// 64), bit 6 the TMS level, bit 7 the capture flag.
    fn from(byte: u8) -> (r: SequenceInfo) {
        proof {
            assert(byte & 0x3F == byte % 64) by (bit_vector);
            assert((byte & 0x80 != 0) == (byte / 128 % 2 == 1)) by (bit_vector);
            assert((byte & 0x40 != 0) == (byte / 64 % 2 == 1)) by (bit_vector);
        }
        let masked = byte & 0x3F;
        let n_bits: u8 = if masked == 0 {
            64
        } else {
            masked
        };
        SequenceInfo { n_bits, capture: byte & 0x80 != 0, tms: byte & 0x40 != 0 }
    }
}

/// Every sequence descriptor byte decodes to a clock count between 1 and 64
/// — 64 exactly when its low six bits are all zero, the low six bits
/// themselves otherwise — with the capture flag in bit 7 and the TMS level
/// in bit 6.
pub proof fn lemma_sequence_decode(byte: u8)
    ensures
        1 <= n_bits_of(byte) <= 64,
        n_bits_of(byte) == 64 <==> byte & 0x3F == 0,
        byte & 0x3F != 0 ==> n_bits_of(byte) == byte & 0x3F,
        capture_of(byte) == (byte & 0x80 != 0),
        tms_of(byte) == (byte & 0x40 != 0),
{
    assert(byte & 0x3F == byte % 64 && byte % 64 < 64) by (bit_vector);
    assert((byte & 0x80 != 0) == (byte / 128 % 2 == 1)) by (bit_vector);
    assert((byte & 0x40 != 0) == (byte / 64 % 2 == 1)) by (bit_vector);
}

/// Whether a transfer addresses an Access Port or the Debug Port.
#[derive(Debug, Clone, Copy, PartialEq, Eq, Structural)]
pub enum ApNDp {
    /// The Debug Port.
    Dp,
    /// An Access Port.
    Ap,
}

/// Whether a transfer reads or writes.
#[derive(Debug, Clone, Copy, PartialEq, Eq, Structural)]
pub enum RnW {
    /// A write transfer.
    W,
    /// A read transfer.
    R,
}

impl RnW {
    /// The read/write bit as it is shifted on the wire: 1 for a read.
    pub open spec fn spec_bit(self) -> u8 {
        match self {
            RnW::W => 0,
            RnW::R => 1,
        }
    }

    /// The read/write bit as it is shifted on the wire: 1 for a read.
    pub fn bit(self) -> (r: u8)
        ensures
            r == self.spec_bit(),
    {
        match self {
            RnW::W => 0,
            RnW::R => 1,
        }
    }
}

/// Describes a single transfer in a JTAG transfer request.
#[derive(Debug, Clone, Copy, PartialEq, Eq, Structural)]
pub struct TransferInfo {
    /// Whether the transfer is to an AP or DP.
    pub ap_ndp: ApNDp,
    /// Whether the transfer reads or writes.
    pub r_nw: RnW,
    /// The two-bit register address, between 0 and 3.
    pub a2a3: u8,
    /// Whether the transfer compares the read value against a match value.
    pub match_value: bool,
    /// Whether the transfer sets the match mask.
    pub match_mask: bool,
    /// Whether a timestamp is requested alongside the transfer.
    pub timestamp: bool,
}

impl TransferInfo {
    /// The fixed descriptor that reads the read-buffer register: a DP read of
    /// RDBUFF (address 3), with no match or timestamp flags.
    pub fn rdbuff() -> (r: TransferInfo)
        ensures
            r == (TransferInfo {
                ap_ndp: ApNDp::Dp,
                r_nw: RnW::R,
                a2a3: 3,
                match_value: false,
                match_mask: false,
                timestamp: false,
            }),
    {
        TransferInfo {
            ap_ndp: ApNDp::Dp,
            r_nw: RnW::R,
            a2a3: 3,
            match_value: false,
            match_mask: false,
            timestamp: false,
        }
    }
}

impl vstd::std_specs::convert::FromSpecImpl<u8> for TransferInfo {
    open spec fn obeys_from_spec() -> bool {
        true
    }

    open spec fn from_spec(byte: u8) -> TransferInfo {
        TransferInfo {
            ap_ndp: if byte % 2 == 1 {
                ApNDp::Ap
            } else {
                ApNDp::Dp
            },
            r_nw: if byte / 2 % 2 == 1 {
                RnW::R
            } else {
                RnW::W
            },
            a2a3: (byte / 4 % 4) as u8,
            match_value: byte / 16 % 2 == 1,
            match_mask: byte / 32 % 2 == 1,
            timestamp: byte / 128 % 2 == 1,
        }
    }
}

impl From<u8> for TransferInfo {
    /// Decode a transfer descriptor byte: bit 0 AP/DP, bit 1 read/write,
    /// bits 2-3 the register address, bit 4 match value, bit 5 match mask,
    /// bit 7 timestamp; bit 6 is unused.
    fn from(byte: u8) -> (r: TransferInfo) {
        proof {
            assert((byte & 0x01 != 0) == (byte % 2 == 1)) by (bit_vector);
            assert((byte & 0x02 != 0) == (byte / 2 % 2 == 1)) by (bit_vector);
            assert((byte & 0x0C) >> 2u8 == byte / 4 % 4) by (bit_vector);
            assert((byte & 0x10 != 0) == (byte / 16 % 2 == 1)) by (bit_vector);
            assert((byte & 0x20 != 0) == (byte / 32 % 2 == 1)) by (bit_vector);
            assert((byte & 0x80 != 0) == (byte / 128 % 2 == 1)) by (bit_vector);
        }
        TransferInfo {
            ap_ndp: if byte & 0x01 != 0 {
                ApNDp::Ap
            } else {
                ApNDp::Dp
            },
            r_nw: if byte & 0x02 != 0 {
                RnW::R
            } else {
                RnW::W
            },
            a2a3: (byte & 0x0C) >> 2u8,
            match_value: byte & 0x10 != 0,
            match_mask: byte & 0x20 != 0,
            timestamp: byte & 0x80 != 0,
        }
    }
}

/// Every transfer descriptor byte decodes field by field to the bit the wire
/// format assigns to it — AP/DP select in bit 0, read/write in bit 1, the
/// two-bit address in bits 2 and 3, the match and timestamp flags in bits 4,
/// 5 and 7 — and the address always lies between 0 and 3.
pub proof fn lemma_transfer_decode(byte: u8)
    ensures
        <TransferInfo as vstd::std_specs::convert::FromSpec<u8>>::from_spec(byte)
            == (TransferInfo {
            ap_ndp: if byte & 0x01 != 0 {
                ApNDp::Ap
            } else {
                ApNDp::Dp
            },
            r_nw: if byte & 0x02 != 0 {
                RnW::R
            } else {
                RnW::W
            },
            a2a3: (byte & 0x0C) >> 2u8,
            match_value: byte & 0x10 != 0,
            match_mask: byte & 0x20 != 0,
            timestamp: byte & 0x80 != 0,
        }),
        <TransferInfo as vstd::std_specs::convert::FromSpec<u8>>::from_spec(byte).a2a3 < 4,
{
    assert((byte & 0x01 != 0) == (byte % 2 == 1)) by (bit_vector);
    assert((byte & 0x02 != 0) == (byte / 2 % 2 == 1)) by (bit_vector);
    assert((byte & 0x0C) >> 2u8 == byte / 4 % 4 && byte / 4 % 4 < 4) by (bit_vector);
    assert((byte & 0x10 != 0) == (byte / 16 % 2 == 1)) by (bit_vector);
    assert((byte & 0x20 != 0) == (byte / 32 % 2 == 1)) by (bit_vector);
    assert((byte & 0x80 != 0) == (byte / 128 % 2 == 1)) by (bit_vector);
}

} // verus!
