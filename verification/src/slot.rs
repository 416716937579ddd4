//! Per-resource slot state and its packed integer encoding.
//!
//! A registered resource is identified by a [`Token`] and described by a
//! [`SlotState`]: the descriptor handle it was registered with, the interest
//! mask currently forwarded to the multiplexer, the readiness last reported
//! and not yet consumed, and whether a waiter is parked on each direction.
//! The state packs losslessly into a `u64`, so the backing store only ever
//! holds plain integers.

use vstd::prelude::*;

verus! {

/// Identifies a registered resource: a small integer handed to the
/// multiplexer and resolvable in the registry while the resource is live.
#[derive(Clone, Copy, PartialEq, Eq, Structural, Debug, Hash)]
pub struct Token {
    /// The registry key backing this token.
    pub idx: usize,
}

/// Largest descriptor handle a slot can carry: the six low bits of the
/// packed word hold the flags, so the handle must fit in the remaining ones.
pub const DESC_LIMIT: u64 = 0xFFFF_FFFF_FFFF_FFFF / 64;

/// Everything the reactor tracks about one registered resource.
#[derive(Clone, Copy, PartialEq, Eq, Structural, Debug)]
pub struct SlotState {
    /// Opaque handle to the underlying descriptor, at most [`DESC_LIMIT`].
    pub desc: u64,
    /// Read interest currently registered with the multiplexer.
    pub read_interest: bool,
    /// Write interest currently registered with the multiplexer.
    pub write_interest: bool,
    /// A readable report has arrived and has not been consumed yet.
    pub read_ready: bool,
    /// A writable report has arrived and has not been consumed yet.
    pub write_ready: bool,
    /// A waiter is parked on the readable direction.
    pub read_waiter: bool,
    /// A waiter is parked on the writable direction.
    pub write_waiter: bool,
}

impl SlotState {
    /// A slot as it stands right after registration: the requested interest,
    /// nothing ready, nobody waiting.
    pub open spec fn initial_spec(desc: u64, read: bool, write: bool) -> SlotState {
        SlotState {
            desc: desc,
            read_interest: read,
            write_interest: write,
            read_ready: false,
            write_ready: false,
            read_waiter: false,
            write_waiter: false,
        }
    }

    /// The descriptor handle fits beside the six flag bits.
    pub open spec fn wf(self) -> bool {
        self.desc <= DESC_LIMIT
    }

    /// Builds the state a slot has right after registration.
    pub fn initial(desc: u64, read: bool, write: bool) -> (r: SlotState)
        ensures
            r == SlotState::initial_spec(desc, read, write),
    {
        SlotState {
            desc: desc,
            read_interest: read,
            write_interest: write,
            read_ready: false,
            write_ready: false,
            read_waiter: false,
            write_waiter: false,
        }
    }
}

/// One bit of the packed word, as the integer it contributes.
pub open spec fn bit(b: bool, weight: u64) -> u64 {
    if b {
        weight
    } else {
        0
    }
}

/// The packed-integer image of a slot: six flag bits below the shifted
/// descriptor handle.
pub open spec fn pack_spec(s: SlotState) -> u64
    recommends
        s.wf(),
{
    (bit(s.read_interest, 1) + bit(s.write_interest, 2) + bit(s.read_ready, 4)
        + bit(s.write_ready, 8) + bit(s.read_waiter, 16) + bit(s.write_waiter, 32)
        + s.desc * 64) as u64
}

/// The slot a packed word stands for; total, since every `u64` decodes.
pub open spec fn unpack_spec(v: u64) -> SlotState {
    SlotState {
        desc: v / 64,
        read_interest: v % 2 == 1,
        write_interest: (v / 2) % 2 == 1,
        read_ready: (v / 4) % 2 == 1,
        write_ready: (v / 8) % 2 == 1,
        read_waiter: (v / 16) % 2 == 1,
        write_waiter: (v / 32) % 2 == 1,
    }
}

/// Packing never loses a well-formed slot: unpacking its word gives the
/// slot back.
pub proof fn lemma_pack_roundtrip(s: SlotState)
    requires
        s.wf(),
    ensures
        unpack_spec(pack_spec(s)) == s,
{
    let flags = bit(s.read_interest, 1) + bit(s.write_interest, 2) + bit(s.read_ready, 4)
        + bit(s.write_ready, 8) + bit(s.read_waiter, 16) + bit(s.write_waiter, 32);
    assert(flags < 64);
    assert(flags + s.desc * 64 <= 0xFFFF_FFFF_FFFF_FFFF) by (nonlinear_arith)
        requires
            flags < 64,
            s.desc <= DESC_LIMIT,
            DESC_LIMIT == 0xFFFF_FFFF_FFFF_FFFFu64 / 64,
    ;
    let v = pack_spec(s);
    assert(v == flags + s.desc * 64);
    assert(v / 64 == s.desc && v % 64 == flags) by (nonlinear_arith)
        requires
            v == flags + s.desc * 64,
            0 <= flags < 64,
    ;
    assert(flags % 2 == bit(s.read_interest, 1) && (flags / 2) % 2 == bit(s.write_interest, 1)
        && (flags / 4) % 2 == bit(s.read_ready, 1) && (flags / 8) % 2 == bit(s.write_ready, 1)
        && (flags / 16) % 2 == bit(s.read_waiter, 1) && (flags / 32) % 2 == bit(
        s.write_waiter,
        1,
    ));
    assert(v % 2 == flags % 2 && (v / 2) % 2 == (flags / 2) % 2 && (v / 4) % 2 == (flags / 4) % 2
        && (v / 8) % 2 == (flags / 8) % 2 && (v / 16) % 2 == (flags / 16) % 2 && (v / 32) % 2 == (
    flags / 32) % 2) by (nonlinear_arith)
        requires
            v == flags + s.desc * 64,
            0 <= flags < 64,
    ;
    assert(unpack_spec(v) == s);
}

/// Packs a slot into its integer image.
pub fn pack(s: SlotState) -> (r: u64)
    requires
        s.wf(),
    ensures
        r == pack_spec(s),
        unpack_spec(r) == s,
{
    proof {
        lemma_pack_roundtrip(s);
    }
    let flags: u64 = (if s.read_interest {
        1u64
    } else {
        0u64
    }) + (if s.write_interest {
        2u64
    } else {
        0u64
    }) + (if s.read_ready {
        4u64
    } else {
        0u64
    }) + (if s.write_ready {
        8u64
    } else {
        0u64
    }) + (if s.read_waiter {
        16u64
    } else {
        0u64
    }) + (if s.write_waiter {
        32u64
    } else {
        0u64
    });
    proof {
        assert(flags < 64);
        assert(s.desc * 64 + flags <= 0xFFFF_FFFF_FFFF_FFFF) by (nonlinear_arith)
            requires
                flags < 64,
                s.desc <= DESC_LIMIT,
                DESC_LIMIT == 0xFFFF_FFFF_FFFF_FFFFu64 / 64,
        ;
    }
    s.desc * 64 + flags
}

/// Unpacks an integer image back into the slot it stands for.
pub fn unpack(v: u64) -> (r: SlotState)
    ensures
        r == unpack_spec(v),
        r.wf(),
{
    proof {
        assert(v / 64 <= DESC_LIMIT) by (nonlinear_arith)
            requires
                DESC_LIMIT == 0xFFFF_FFFF_FFFF_FFFFu64 / 64,
        ;
    }
    SlotState {
        desc: v / 64,
        read_interest: v % 2 == 1,
        write_interest: (v / 2) % 2 == 1,
        read_ready: (v / 4) % 2 == 1,
        write_ready: (v / 8) % 2 == 1,
        read_waiter: (v / 16) % 2 == 1,
        write_waiter: (v / 32) % 2 == 1,
    }
}

} // verus!
