//! Bit-field extraction from bus-frame payloads.
//!
//! A `CanBitSelection` describes where a signal sits inside a frame payload:
//! a single bit, a whole byte, a contiguous run of bits in big- or
//! little-endian bit order (optionally reinterpreted as two's complement), or
//! one of the closed set of composite cross-field forms. `decode_bits`
//! extracts the raw integer reading; scaling to physical units happens in the
//! registry.

use vstd::prelude::*;

verus! {

/// Widest supported bit run; keeps every raw reading within `i64` and every
/// scaled value within the well-formed numeric range.
pub const MAX_RUN_WIDTH: u8 = 59;

/// Where and how a raw signal sits inside a frame payload.
#[derive(Clone, Copy, PartialEq, Eq, Structural, Debug)]
pub enum CanBitSelection {
    /// Single bit; byte `i / 8`, bit `i % 8` counted from the least
    /// significant end. Decodes to 0 or 1.
    Bit(u8),
    /// Unsigned byte at the index.
    Uint8(u8),
    /// Two's-complement byte at the index.
    Int8(u8),
    /// `(start_bit, width)`: contiguous run in big-endian bit order. Bit
    /// `i` of the payload is byte `i / 8`, bit `7 - i % 8`; the first bit of
    /// the run is the most significant.
    BeUnsigned(u8, u8),
    /// Big-endian run reinterpreted as two's complement over its width.
    BeSigned(u8, u8),
    /// `(start_bit, width)`: contiguous run in little-endian bit order. Bit
    /// `i` of the payload is byte `i / 8`, bit `i % 8`; the first bit of the
    /// run is the least significant.
    LeUnsigned(u8, u8),
    /// Little-endian run reinterpreted as two's complement over its width.
    LeSigned(u8, u8),
    /// Larger of the two unsigned bytes (cross-field maximum).
    MaxOfBytes(u8, u8),
    /// 1 if the byte at the index is nonzero, else 0 (status flag).
    NonZeroByte(u8),
    /// OR of two single bits, each addressed as in `Bit`.
    BitOr(u8, u8),
}

/// Two to the `n`.
pub open spec fn bitpow(n: nat) -> nat
    decreases n,
{
    if n == 0 {
        1
    } else {
        2 * bitpow((n - 1) as nat)
    }
}

/// Payload bit `i` in little-endian bit order (bit `i % 8` from the least
/// significant end of byte `i / 8`).
pub open spec fn bit_lsb(p: Seq<u8>, i: nat) -> u8 {
    (p[i as int / 8] >> ((i % 8) as u8)) & 1
}

/// Payload bit `i` in big-endian bit order (bit `7 - i % 8` of byte `i / 8`).
pub open spec fn bit_msb(p: Seq<u8>, i: nat) -> u8 {
    (p[i as int / 8] >> ((7 - i % 8) as u8)) & 1
}

/// Value of the big-endian run `[i0, i0 + len)`: the first bit of the run is
/// the most significant.
pub open spec fn be_val(p: Seq<u8>, i0: nat, len: nat) -> nat
    decreases len,
{
    if len == 0 {
        0
    } else {
        2 * be_val(p, i0, (len - 1) as nat) + bit_msb(p, (i0 + len - 1) as nat) as nat
    }
}

/// Value of the little-endian run `[i0, i0 + len)`: the first bit of the run
/// is the least significant.
pub open spec fn le_val(p: Seq<u8>, i0: nat, len: nat) -> nat
    decreases len,
{
    if len == 0 {
        0
    } else {
        le_val(p, i0, (len - 1) as nat) + (bit_lsb(p, (i0 + len - 1) as nat) as nat) * bitpow(
            (len - 1) as nat,
        )
    }
}

/// Reinterpret an unsigned `w`-bit value as two's complement.
pub open spec fn to_signed(v: nat, w: nat) -> int
    recommends
        w >= 1,
        v < bitpow(w),
{
    if v >= bitpow((w - 1) as nat) {
        v - bitpow(w)
    } else {
        v as int
    }
}

/// The selection addresses only the `n_bytes` bytes of the payload, and runs
/// stay within the supported width.
pub open spec fn selection_in_range(sel: CanBitSelection, n_bytes: nat) -> bool {
    match sel {
        CanBitSelection::Bit(i) => i < 8 * n_bytes,
        CanBitSelection::Uint8(i) => i < n_bytes,
        CanBitSelection::Int8(i) => i < n_bytes,
        CanBitSelection::BeUnsigned(i0, w) => 1 <= w <= MAX_RUN_WIDTH && i0 + w <= 8 * n_bytes,
        CanBitSelection::BeSigned(i0, w) => 1 <= w <= MAX_RUN_WIDTH && i0 + w <= 8 * n_bytes,
        CanBitSelection::LeUnsigned(i0, w) => 1 <= w <= MAX_RUN_WIDTH && i0 + w <= 8 * n_bytes,
        CanBitSelection::LeSigned(i0, w) => 1 <= w <= MAX_RUN_WIDTH && i0 + w <= 8 * n_bytes,
        CanBitSelection::MaxOfBytes(a, b) => a < n_bytes && b < n_bytes,
        CanBitSelection::NonZeroByte(i) => i < n_bytes,
        CanBitSelection::BitOr(a, b) => a < 8 * n_bytes && b < 8 * n_bytes,
    }
}

/// The raw integer a selection extracts from a payload.
pub open spec fn spec_decode(sel: CanBitSelection, p: Seq<u8>) -> int
    recommends
        selection_in_range(sel, p.len()),
{
    match sel {
        CanBitSelection::Bit(i) => bit_lsb(p, i as nat) as int,
        CanBitSelection::Uint8(i) => p[i as int] as int,
        CanBitSelection::Int8(i) => if p[i as int] >= 128 {
            p[i as int] - 256
        } else {
            p[i as int] as int
        },
        CanBitSelection::BeUnsigned(i0, w) => be_val(p, i0 as nat, w as nat) as int,
        CanBitSelection::BeSigned(i0, w) => to_signed(be_val(p, i0 as nat, w as nat), w as nat),
        CanBitSelection::LeUnsigned(i0, w) => le_val(p, i0 as nat, w as nat) as int,
        CanBitSelection::LeSigned(i0, w) => to_signed(le_val(p, i0 as nat, w as nat), w as nat),
        CanBitSelection::MaxOfBytes(a, b) => if p[a as int] >= p[b as int] {
            p[a as int] as int
        } else {
            p[b as int] as int
        },
        CanBitSelection::NonZeroByte(i) => if p[i as int] != 0 {
            1
        } else {
            0
        },
        CanBitSelection::BitOr(a, b) => if bit_lsb(p, a as nat) == 1 || bit_lsb(p, b as nat) == 1 {
            1
        } else {
            0
        },
    }
}

/// `bitpow` never vanishes.
pub proof fn lemma_bitpow_pos(n: nat)
    ensures
        bitpow(n) >= 1,
    decreases n,
{
    if n > 0 {
        lemma_bitpow_pos((n - 1) as nat);
    }
}

/// `bitpow` is monotonic.
pub proof fn lemma_bitpow_le(a: nat, b: nat)
    requires
        a <= b,
    ensures
        bitpow(a) <= bitpow(b),
    decreases b,
{
    if a < b {
        lemma_bitpow_le(a, (b - 1) as nat);
        lemma_bitpow_pos((b - 1) as nat);
    }
}

/// Concrete value of the widest supported power.
pub proof fn lemma_bitpow_59()
    ensures
        bitpow(59) == 0x800_0000_0000_0000,
{
    reveal_with_fuel(bitpow, 60);
}

/// A single extracted bit is 0 or 1.
proof fn lemma_bit_le_one(x: u8, s: u8)
    ensures
        ((x >> s) & 1) <= 1,
{
    assert(((x >> s) & 1) <= 1) by (bit_vector);
}

/// Fetch payload bit `pos` in little-endian bit order.
fn read_bit_lsb(payload: &Vec<u8>, pos: usize) -> (r: u8)
    requires
        pos < 8 * payload@.len(),
    ensures
        r == bit_lsb(payload@, pos as nat),
        r <= 1,
{
    let byte = payload[pos / 8];
    let sh: u8 = (pos % 8) as u8;
    let r = (byte >> sh) & 1;
    proof {
        lemma_bit_le_one(byte, sh);
    }
    r
}

/// Fetch payload bit `pos` in big-endian bit order.
fn read_bit_msb(payload: &Vec<u8>, pos: usize) -> (r: u8)
    requires
        pos < 8 * payload@.len(),
    ensures
        r == bit_msb(payload@, pos as nat),
        r <= 1,
{
    let byte = payload[pos / 8];
    let sh: u8 = 7 - (pos % 8) as u8;
    let r = (byte >> sh) & 1;
    proof {
        lemma_bit_le_one(byte, sh);
    }
    r
}

/// Assemble the run `[i0, i0 + w)` in the given bit order. Returns the value
/// and `2^w`.
fn run_value(payload: &Vec<u8>, i0: u8, w: u8, big_endian: bool) -> (r: (u64, u64))
    requires
        1 <= w <= MAX_RUN_WIDTH,
        i0 + w <= 8 * payload@.len(),
    ensures
        r.0 as nat == if big_endian {
            be_val(payload@, i0 as nat, w as nat)
        } else {
            le_val(payload@, i0 as nat, w as nat)
        },
        r.1 == bitpow(w as nat),
        r.0 < r.1,
{
    let mut acc: u64 = 0;
    let mut pw: u64 = 1;
    let mut k: u8 = 0;
    proof {
        lemma_bitpow_59();
    }
    while k < w
        invariant
            k <= w <= MAX_RUN_WIDTH,
            i0 + w <= 8 * payload@.len(),
            pw == bitpow(k as nat),
            acc < pw,
            bitpow(59) == 0x800_0000_0000_0000,
            acc as nat == if big_endian {
                be_val(payload@, i0 as nat, k as nat)
            } else {
                le_val(payload@, i0 as nat, k as nat)
            },
        decreases w - k,
    {
        proof {
            lemma_bitpow_le(k as nat + 1, 59);
        }
        let pos: usize = i0 as usize + k as usize;
        if big_endian {
            let b = read_bit_msb(payload, pos);
            acc = 2 * acc + b as u64;
        } else {
            let b = read_bit_lsb(payload, pos);
            proof {
                assert(((b == 0) ==> (b as u64) * pw == 0) && ((b == 1) ==> (b as u64) * pw
                    == pw)) by (nonlinear_arith);
            }
            acc = acc + (b as u64) * pw;
        }
        pw = 2 * pw;
        k = k + 1;
    }
    (acc, pw)
}

/// Run-time test matching `selection_in_range`.
pub fn selection_fits(sel: CanBitSelection, n_bytes: usize) -> (r: bool)
    requires
        n_bytes <= 0x1000_0000,
    ensures
        r == selection_in_range(sel, n_bytes as nat),
{
    match sel {
        CanBitSelection::Bit(i) => (i as usize) < 8 * n_bytes,
        CanBitSelection::Uint8(i) => (i as usize) < n_bytes,
        CanBitSelection::Int8(i) => (i as usize) < n_bytes,
        CanBitSelection::BeUnsigned(i0, w) => 1 <= w && w <= MAX_RUN_WIDTH && (i0 as usize) + (
        w as usize) <= 8 * n_bytes,
        CanBitSelection::BeSigned(i0, w) => 1 <= w && w <= MAX_RUN_WIDTH && (i0 as usize) + (
        w as usize) <= 8 * n_bytes,
        CanBitSelection::LeUnsigned(i0, w) => 1 <= w && w <= MAX_RUN_WIDTH && (i0 as usize) + (
        w as usize) <= 8 * n_bytes,
        CanBitSelection::LeSigned(i0, w) => 1 <= w && w <= MAX_RUN_WIDTH && (i0 as usize) + (
        w as usize) <= 8 * n_bytes,
        CanBitSelection::MaxOfBytes(a, b) => (a as usize) < n_bytes && (b as usize) < n_bytes,
        CanBitSelection::NonZeroByte(i) => (i as usize) < n_bytes,
        CanBitSelection::BitOr(a, b) => (a as usize) < 8 * n_bytes && (b as usize) < 8 * n_bytes,
    }
}

/// Extract the raw integer reading of a selection from a payload.
pub fn decode_bits(sel: CanBitSelection, payload: &Vec<u8>) -> (r: i64)
    requires
        selection_in_range(sel, payload@.len()),
    ensures
        r as int == spec_decode(sel, payload@),
        -0x800_0000_0000_0000 <= r <= 0x800_0000_0000_0000,
{
    proof {
        lemma_bitpow_59();
    }
    match sel {
        CanBitSelection::Bit(i) => read_bit_lsb(payload, i as usize) as i64,
        CanBitSelection::Uint8(i) => payload[i as usize] as i64,
        CanBitSelection::Int8(i) => {
            let b = payload[i as usize];
            let r = (b as i8) as i64;
            proof {
                assert((b as i8) as i64 == if b >= 128 {
                    b as int - 256
                } else {
                    b as int
                }) by (bit_vector);
            }
            r
        },
        CanBitSelection::BeUnsigned(i0, w) => {
            let (v, _) = run_value(payload, i0, w, true);
            proof {
                lemma_bitpow_le(w as nat, 59);
            }
            v as i64
        },
        CanBitSelection::BeSigned(i0, w) => {
            let (v, pw) = run_value(payload, i0, w, true);
            let half = pw / 2;
            proof {
                lemma_bitpow_le(w as nat, 59);
                assert(bitpow(w as nat) == 2 * bitpow((w - 1) as nat));
            }
            if v >= half {
                (v as i64) - (pw as i64)
            } else {
                v as i64
            }
        },
        CanBitSelection::LeUnsigned(i0, w) => {
            let (v, _) = run_value(payload, i0, w, false);
            proof {
                lemma_bitpow_le(w as nat, 59);
            }
            v as i64
        },
        CanBitSelection::LeSigned(i0, w) => {
            let (v, pw) = run_value(payload, i0, w, false);
            let half = pw / 2;
            proof {
                lemma_bitpow_le(w as nat, 59);
                assert(bitpow(w as nat) == 2 * bitpow((w - 1) as nat));
            }
            if v >= half {
                (v as i64) - (pw as i64)
            } else {
                v as i64
            }
        },
        CanBitSelection::MaxOfBytes(a, b) => {
            let x = payload[a as usize];
            let y = payload[b as usize];
            if x >= y {
                x as i64
            } else {
                y as i64
            }
        },
        CanBitSelection::NonZeroByte(i) => {
            if payload[i as usize] != 0 {
                1
            } else {
                0
            }
        },
        CanBitSelection::BitOr(a, b) => {
            let x = read_bit_lsb(payload, a as usize);
            let y = read_bit_lsb(payload, b as usize);
            if x == 1 || y == 1 {
                1
            } else {
                0
            }
        },
    }
}

/// The decoder is a pure function of the selection and the payload: equal
/// inputs give equal raw readings.
pub proof fn lemma_decode_deterministic(
    sel1: CanBitSelection,
    p1: Seq<u8>,
    sel2: CanBitSelection,
    p2: Seq<u8>,
)
    requires
        sel1 == sel2,
        p1 == p2,
    ensures
        spec_decode(sel1, p1) == spec_decode(sel2, p2),
{
}

} // verus!
