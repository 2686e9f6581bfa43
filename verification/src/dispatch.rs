//! Request dispatcher: decode a batch of sequence descriptors from a
//! transport buffer and drive the burst primitive, producing a response
//! buffer of the captured bytes.
//!
//! The wire layout is `[count] { [descriptor] [tdi bytes] } x count`, with
//! `ceil(n_bits / 8)` TDI bytes per sequence. The whole request is validated
//! against its declared lengths before any clock is driven: a request that
//! runs short of bytes is rejected with no hardware contact at all.

use vstd::prelude::*;
use crate::bits::{bit8, low8};
use crate::descriptor::{SequenceInfo, capture_of, n_bits_of, lemma_sequence_decode};
use crate::device::Jtag;
use crate::wire::{WireBit, burst_events};

verus! {

/// The number of TDI bytes that carry `n_bits` bits.
pub open spec fn byte_len_spec(n_bits: u8) -> nat {
    (((n_bits as int) + 7) / 8) as nat
}

/// The width of byte `i`'s chunk of an `n`-bit sequence: eight for every
/// byte but a trailing partial one.
pub open spec fn chunk_width(n: u8, i: int) -> u8 {
    if n - 8 * i >= 8 {
        8
    } else {
        (n - 8 * i) as u8
    }
}

/// The shift cycles of one whole sequence: `n` bits taken LSB-first from
/// successive TDI bytes, all with the same TMS level.
pub open spec fn info_events(tms: bool, n: nat, tdi: Seq<u8>) -> Seq<WireBit> {
    Seq::new(n, |g: int| WireBit::Shift { tms, tdi: bit8(tdi[g / 8], g % 8) })
}

/// What a capture of one whole sequence reads back from a chain that echoes
/// TDI on TDO: the TDI bytes, the trailing partial byte masked to its width.
pub open spec fn echo_bytes(tdi: Seq<u8>, n: u8) -> Seq<u8> {
    Seq::new(tdi.len(), |i: int| low8(tdi[i], chunk_width(n, i)))
}

/// Whether `count` sequences, starting at `pos`, lie whole inside the
/// request buffer.
pub open spec fn request_wf(req: Seq<u8>, pos: int, count: nat) -> bool
    decreases count,
{
    count == 0 || {
        &&& pos + 1 <= req.len()
        &&& pos + 1 + byte_len_spec(n_bits_of(req[pos])) <= req.len()
        &&& request_wf(
            req,
            pos + 1 + byte_len_spec(n_bits_of(req[pos])),
            (count - 1) as nat,
        )
    }
}

/// The position just past `count` sequences that start at `pos`.
pub open spec fn request_end(req: Seq<u8>, pos: int, count: nat) -> int
    decreases count,
{
    if count == 0 {
        pos
    } else {
        request_end(req, pos + 1 + byte_len_spec(n_bits_of(req[pos])), (count - 1) as nat)
    }
}

/// The number of response bytes `count` sequences produce: the TDI byte
/// count of each sequence whose capture flag is set.
pub open spec fn response_len(req: Seq<u8>, pos: int, count: nat) -> nat
    decreases count,
{
    if count == 0 {
        0
    } else {
        (if capture_of(req[pos]) {
            byte_len_spec(n_bits_of(req[pos]))
        } else {
            0
        }) + response_len(req, pos + 1 + byte_len_spec(n_bits_of(req[pos])), (count - 1) as nat)
    }
}

/// The wire trace `count` sequences drive, in request order.
pub open spec fn request_events(req: Seq<u8>, pos: int, count: nat) -> Seq<WireBit>
    decreases count,
{
    if count == 0 {
        Seq::<WireBit>::empty()
    } else {
        let bl = byte_len_spec(n_bits_of(req[pos]));
        info_events(
            crate::descriptor::tms_of(req[pos]),
            n_bits_of(req[pos]) as nat,
            req.subrange(pos + 1, pos + 1 + bl),
        ) + request_events(req, pos + 1 + bl, (count - 1) as nat)
    }
}

/// The response bytes `count` sequences produce on a chain that echoes TDI
/// back on TDO, in request order.
pub open spec fn response_bytes(req: Seq<u8>, pos: int, count: nat) -> Seq<u8>
    decreases count,
{
    if count == 0 {
        Seq::<u8>::empty()
    } else {
        let bl = byte_len_spec(n_bits_of(req[pos]));
        (if capture_of(req[pos]) {
            echo_bytes(req.subrange(pos + 1, pos + 1 + bl), n_bits_of(req[pos]))
        } else {
            Seq::<u8>::empty()
        }) + response_bytes(req, pos + 1 + bl, (count - 1) as nat)
    }
}

/// A chunk's cycle indices divide back to the byte that carries them.
proof fn lemma_div_mod_8(i: int, j: int)
    requires
        0 <= i,
        0 <= j < 8,
    ensures
        (8 * i + j) / 8 == i,
        (8 * i + j) % 8 == j,
{
    assert((8 * i + j) / 8 == i && (8 * i + j) % 8 == j) by (nonlinear_arith)
        requires
            0 <= i,
            0 <= j < 8,
    ;
}

/// Handle a single JTAG sequence: drive `info.n_bits` clocks with TDI from
/// the given bytes and TMS held at `info.tms`, one hardware burst per byte,
/// and collect the captured TDO bytes.
pub fn run_sequence<D: Jtag>(dev: &mut D, info: SequenceInfo, tdi: &Vec<u8>) -> (captured: Vec<u8>)
    requires
        1 <= info.n_bits <= 64,
        tdi@.len() == byte_len_spec(info.n_bits),
    ensures
        final(dev).wire() == old(dev).wire() + info_events(info.tms, info.n_bits as nat, tdi@),
        final(dev).loopback() == old(dev).loopback(),
        captured@.len() == tdi@.len(),
        old(dev).loopback() && info.capture ==> captured@ == echo_bytes(tdi@, info.n_bits),
{
    let ghost target = info_events(info.tms, info.n_bits as nat, tdi@);
    let n = info.n_bits;
    let mut captured: Vec<u8> = Vec::new();
    let mut i: usize = 0;
    proof {
        assert(old(dev).wire() + target.subrange(0, 0) =~= old(dev).wire());
    }
    while i < tdi.len()
        invariant
            1 <= n <= 64,
            n == info.n_bits,
            tdi@.len() == byte_len_spec(n),
            i <= tdi@.len(),
            8 * i < n || i == tdi@.len(),
            target == info_events(info.tms, n as nat, tdi@),
            captured@.len() == i,
            dev.loopback() == old(dev).loopback(),
            dev.wire() == old(dev).wire() + target.subrange(
                0,
                if 8 * i <= n {
                    8 * i as int
                } else {
                    n as int
                },
            ),
            old(dev).loopback() && info.capture ==> forall|k: int|
                0 <= k < i ==> captured@[k] == echo_bytes(tdi@, n)[k],
        decreases tdi@.len() - i,
    {
        let rem: u8 = n - (8 * i) as u8;
        let chunk: u8 = if rem >= 8 {
            8
        } else {
            rem
        };
        let tdo = dev.sequence(
            SequenceInfo { n_bits: chunk, capture: info.capture, tms: info.tms },
            tdi[i],
        );
        proof {
            let done = 8 * (i as int);
            let burst = burst_events(info.tms, tdi@[i as int], chunk as nat);
            assert forall|g: int| done <= g < done + chunk implies target[g] == burst[g - done] by {
                lemma_div_mod_8(i as int, g - done);
            }
            assert(target.subrange(0, done) + burst =~= target.subrange(0, done + chunk));
            if old(dev).loopback() && info.capture {
                assert(tdo == low8(tdi@[i as int], chunk_width(n, i as int)));
            }
        }
        captured.push(tdo);
        i += 1;
    }
    proof {
        assert(target.subrange(0, n as int) =~= target);
        if old(dev).loopback() && info.capture {
            assert(captured@ =~= echo_bytes(tdi@, n));
        }
    }
    captured
}

/// Handle a JTAG sequence request.
///
/// The first byte of the request is the number of sequences; each sequence is
/// a descriptor byte followed by its TDI bytes. The whole request is checked
/// against its declared lengths first: if it runs short, nothing is driven
/// and the request is rejected. Otherwise every sequence is driven in order,
/// and the captured bytes of each sequence whose capture flag is set are
/// concatenated into the response. Returns the response buffer and the
/// number of request bytes consumed.
pub fn sequences<D: Jtag>(dev: &mut D, req: &Vec<u8>) -> (result: Option<(Vec<u8>, usize)>)
    ensures
        final(dev).loopback() == old(dev).loopback(),
        match result {
            Some(out) => {
                &&& req@.len() >= 1
                &&& request_wf(req@, 1, req@[0] as nat)
                &&& out.1 == request_end(req@, 1, req@[0] as nat)
                &&& out.0@.len() == response_len(req@, 1, req@[0] as nat)
                &&& final(dev).wire() == old(dev).wire() + request_events(req@, 1, req@[0] as nat)
                &&& (old(dev).loopback() ==> out.0@ == response_bytes(req@, 1, req@[0] as nat))
            },
            None => {
                &&& final(dev).wire() == old(dev).wire()
                &&& !(req@.len() >= 1 && request_wf(req@, 1, req@[0] as nat))
            },
        },
{
    if req.len() == 0 {
        return None;
    }
    let count = req[0];
    let ghost cnt = count as nat;
    let len = req.len();

    // First pass: hold the whole request against its declared lengths, so
    // that a short request is rejected before any clock is driven.
    let mut pos: usize = 1;
    let mut k: u8 = 0;
    while k < count
        invariant
            req@.len() >= 1,
            req@.len() == len,
            count == req@[0],
            cnt == count as nat,
            k <= count,
            1 <= pos <= req@.len(),
            dev.wire() == old(dev).wire(),
            dev.loopback() == old(dev).loopback(),
            request_wf(req@, 1, cnt) == request_wf(req@, pos as int, (count - k) as nat),
            request_end(req@, 1, cnt) == request_end(req@, pos as int, (count - k) as nat),
        decreases count - k,
    {
        if pos >= req.len() {
            proof {
                assert(!request_wf(req@, pos as int, (count - k) as nat));
            }
            return None;
        }
        let desc = req[pos];
        let info = SequenceInfo::from(desc);
        proof {
            lemma_sequence_decode(desc);
            assert(info.n_bits == n_bits_of(desc));
        }
        let bl = ((info.n_bits + 7) / 8) as usize;
        proof {
            assert(bl == byte_len_spec(n_bits_of(req@[pos as int])));
        }
        if req.len() - pos - 1 < bl {
            proof {
                assert(pos + 1 + bl > req@.len());
                assert(!request_wf(req@, pos as int, (count - k) as nat));
            }
            return None;
        }
        pos = pos + 1 + bl;
        k += 1;
    }
    proof {
        assert(request_wf(req@, pos as int, 0));
        assert(request_wf(req@, 1, cnt));
        assert(request_end(req@, pos as int, 0) == pos);
    }

    // Second pass: drive every sequence and collect the captured bytes.
    let consumed = pos;
    let mut resp: Vec<u8> = Vec::new();
    let mut pos2: usize = 1;
    let mut k2: u8 = 0;
    proof {
        assert(old(dev).wire() + request_events(req@, 1, cnt) =~= dev.wire() + request_events(
            req@,
            1,
            cnt,
        ));
    }
    while k2 < count
        invariant
            req@.len() >= 1,
            req@.len() == len,
            count == req@[0],
            cnt == count as nat,
            k2 <= count,
            1 <= pos2 <= req@.len(),
            request_wf(req@, pos2 as int, (count - k2) as nat),
            request_end(req@, 1, cnt) == request_end(req@, pos2 as int, (count - k2) as nat),
            dev.loopback() == old(dev).loopback(),
            old(dev).wire() + request_events(req@, 1, cnt) == dev.wire() + request_events(
                req@,
                pos2 as int,
                (count - k2) as nat,
            ),
            response_len(req@, 1, cnt) == resp@.len() + response_len(
                req@,
                pos2 as int,
                (count - k2) as nat,
            ),
            old(dev).loopback() ==> response_bytes(req@, 1, cnt) == resp@ + response_bytes(
                req@,
                pos2 as int,
                (count - k2) as nat,
            ),
        decreases count - k2,
    {
        let ghost c = (count - k2) as nat;
        let ghost p = pos2 as int;
        let desc = req[pos2];
        let info = SequenceInfo::from(desc);
        proof {
            lemma_sequence_decode(desc);
        }
        let bl = ((info.n_bits + 7) / 8) as usize;
        proof {
            assert(c >= 1);
            assert(request_wf(req@, p, c));
            assert(bl == byte_len_spec(n_bits_of(req@[p])));
            assert(p + 1 + bl <= req@.len());
        }

        let mut tdi: Vec<u8> = Vec::new();
        let mut j: usize = 0;
        while j < bl
            invariant
                0 <= j <= bl,
                req@.len() == len,
                pos2 + 1 + bl <= req@.len(),
                tdi@ == req@.subrange(pos2 + 1, pos2 + 1 + j),
            decreases bl - j,
        {
            tdi.push(req[pos2 + 1 + j]);
            proof {
                assert(req@.subrange(pos2 + 1, pos2 + 1 + j).push(req@[pos2 + 1 + j])
                    =~= req@.subrange(pos2 + 1, pos2 + 1 + j + 1));
            }
            j += 1;
        }

        let ghost wire_before = dev.wire();
        let ghost resp_before = resp@;
        let mut captured = run_sequence(dev, info, &tdi);
        let ghost step_events = info_events(info.tms, info.n_bits as nat, tdi@);
        if info.capture {
            resp.append(&mut captured);
        }
        pos2 = pos2 + 1 + bl;
        k2 += 1;
        proof {
            assert(request_events(req@, p, c) == step_events + request_events(
                req@,
                pos2 as int,
                (count - k2) as nat,
            ));
            assert(old(dev).wire() + request_events(req@, 1, cnt) =~= (wire_before + step_events)
                + request_events(req@, pos2 as int, (count - k2) as nat));
            if old(dev).loopback() {
                if info.capture {
                    assert(response_bytes(req@, p, c) == echo_bytes(tdi@, info.n_bits)
                        + response_bytes(req@, pos2 as int, (count - k2) as nat));
                    assert(response_bytes(req@, 1, cnt) =~= resp@ + response_bytes(
                        req@,
                        pos2 as int,
                        (count - k2) as nat,
                    ));
                } else {
                    assert(response_bytes(req@, p, c) == response_bytes(
                        req@,
                        pos2 as int,
                        (count - k2) as nat,
                    ));
                }
            }
        }
    }
    proof {
        assert(dev.wire() + request_events(req@, pos2 as int, 0) =~= dev.wire());
        assert(old(dev).wire() + request_events(req@, 1, cnt) =~= dev.wire());
    }
    Some((resp, consumed))
}

} // verus!
