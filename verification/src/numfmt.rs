//! Fixed-decimal rendering of rational values as ASCII bytes.
//!
//! A value `num / den` is rendered with a declared number of decimal places:
//! the magnitude is scaled by a power of ten, rounded to the nearest integer
//! (ties away from zero), and printed as digits with a `.` separator and
//! zero-padded fraction. The specification pins the output byte for byte.

use vstd::prelude::*;

verus! {

/// Ten to the `n`.
pub open spec fn pow10(n: nat) -> nat
    decreases n,
{
    if n == 0 {
        1
    } else {
        10 * pow10((n - 1) as nat)
    }
}

/// Decimal digits of `n`, most significant first, as ASCII bytes.
pub open spec fn spec_digits(n: nat) -> Seq<u8>
    decreases n,
{
    if n < 10 {
        seq![(48 + n) as u8]
    } else {
        spec_digits(n / 10).push((48 + n % 10) as u8)
    }
}

/// A run of ASCII zeros.
pub open spec fn zeros(n: nat) -> Seq<u8> {
    Seq::new(n, |i: int| 48u8)
}

/// Magnitude of `num * 10^d / den`, rounded to nearest, ties away from zero.
pub open spec fn scaled_magnitude(num: int, den: int, d: nat) -> int
    recommends
        den >= 1,
{
    let mag = if num >= 0 {
        num
    } else {
        -num
    };
    (2 * mag * pow10(d) + den) / (2 * den)
}

/// Fixed-decimal rendering of `num / den` with `d` decimal places.
pub open spec fn spec_fixed(num: int, den: int, d: nat) -> Seq<u8>
    recommends
        den >= 1,
{
    let s = scaled_magnitude(num, den, d);
    let sign: Seq<u8> = if num < 0 && s > 0 {
        seq![45u8]
    } else {
        Seq::empty()
    };
    if d == 0 {
        sign + spec_digits(s as nat)
    } else {
        let ip = s as nat / pow10(d);
        let fp = s as nat % pow10(d);
        sign + spec_digits(ip) + seq![46u8] + zeros((d - spec_digits(fp).len()) as nat)
            + spec_digits(fp)
    }
}

/// `spec_digits` writes at most `k` digits for numbers below `10^k`.
pub proof fn lemma_digits_len_le(n: nat, k: nat)
    requires
        k >= 1,
        n < pow10(k),
    ensures
        1 <= spec_digits(n).len() <= k,
    decreases k,
{
    if n < 10 {
    } else {
        assert(pow10(k) == 10 * pow10((k - 1) as nat));
        lemma_digits_len_le(n / 10, (k - 1) as nat);
    }
}

/// `pow10` never vanishes.
pub proof fn lemma_pow10_pos(n: nat)
    ensures
        pow10(n) >= 1,
    decreases n,
{
    if n > 0 {
        lemma_pow10_pos((n - 1) as nat);
    }
}

/// `pow10` is monotonic.
pub proof fn lemma_pow10_le(a: nat, b: nat)
    requires
        a <= b,
    ensures
        pow10(a) <= pow10(b),
    decreases b,
{
    if a < b {
        lemma_pow10_le(a, (b - 1) as nat);
        lemma_pow10_pos((b - 1) as nat);
    }
}

/// Ten to the `d` for the supported decimal-place range.
pub fn pow10_u64(d: u8) -> (r: u64)
    requires
        d <= 6,
    ensures
        r == pow10(d as nat),
        1 <= r <= 1_000_000,
{
    let mut r: u64 = 1;
    let mut i: u8 = 0;
    while i < d
        invariant
            i <= d <= 6,
            r == pow10(i as nat),
            1 <= r <= 1_000_000,
        decreases d - i,
    {
        proof {
            lemma_pow10_le((i + 1) as nat, 6);
            reveal_with_fuel(pow10, 7);
            assert(pow10(6) == 1_000_000);
        }
        r = r * 10;
        i = i + 1;
    }
    r
}

/// Append the decimal digits of `n` to `out`.
pub fn push_digits(n: u128, out: &mut Vec<u8>)
    ensures
        final(out)@ == old(out)@ + spec_digits(n as nat),
    decreases n,
{
    if n < 10 {
        out.push(48 + n as u8);
        assert(out@ =~= old(out)@ + spec_digits(n as nat));
    } else {
        push_digits(n / 10, out);
        out.push(48 + (n % 10) as u8);
        assert(out@ =~= old(out)@ + spec_digits(n as nat));
    }
}

/// Bound under which the fixed-decimal formatter is known not to overflow.
pub open spec fn fmt_in_range(num: int, den: int) -> bool {
    &&& 1 <= den <= 0x8000_0000_0000_0000
    &&& -1_000_000_000_000_000_000_000_000_000_000 <= num
        <= 1_000_000_000_000_000_000_000_000_000_000
}

/// Append the fixed-decimal rendering of `num / den` with `d` decimals.
pub fn push_fixed(num: i128, den: i128, d: u8, out: &mut Vec<u8>)
    requires
        fmt_in_range(num as int, den as int),
        d <= 6,
    ensures
        final(out)@ == old(out)@ + spec_fixed(num as int, den as int, d as nat),
{
    let pw: u64 = pow10_u64(d);
    let mag: u128 = if num >= 0 {
        num as u128
    } else {
        (-num) as u128
    };
    assert(2 * mag * (pw as u128) + (den as u128) <= 0x7fff_ffff_ffff_ffff_ffff_ffff_ffff_ffff)
        by (nonlinear_arith)
        requires
            mag <= 1_000_000_000_000_000_000_000_000_000_000u128,
            1 <= pw <= 1_000_000,
            1 <= den <= 0x8000_0000_0000_0000,
    ;
    let s: u128 = (2 * mag * (pw as u128) + (den as u128)) / (2 * (den as u128));
    proof {
        assert(s == scaled_magnitude(num as int, den as int, d as nat));
    }
    if num < 0 && s > 0 {
        out.push(45);
    }
    if d == 0 {
        push_digits(s, out);
        assert(out@ =~= old(out)@ + spec_fixed(num as int, den as int, d as nat));
    } else {
        proof {
            lemma_pow10_pos(d as nat);
        }
        let ip: u128 = s / (pw as u128);
        let fp: u128 = s % (pw as u128);
        push_digits(ip, out);
        out.push(46);
        let mut frac: Vec<u8> = Vec::new();
        push_digits(fp, &mut frac);
        proof {
            lemma_digits_len_le(fp as nat, d as nat);
        }
        let mut z: usize = frac.len();
        assert(out@ =~= old(out)@ + (if num < 0 && s > 0 {
            seq![45u8]
        } else {
            Seq::<u8>::empty()
        }) + spec_digits(ip as nat) + seq![46u8] + zeros((z - spec_digits(fp as nat).len()) as nat));
        while z < d as usize
            invariant
                z <= d,
                spec_digits(fp as nat).len() <= z,
                frac@.len() == spec_digits(fp as nat).len(),
                out@ == old(out)@ + (if num < 0 && s > 0 {
                    seq![45u8]
                } else {
                    Seq::<u8>::empty()
                }) + spec_digits(ip as nat) + seq![46u8] + zeros(
                    (z - spec_digits(fp as nat).len()) as nat,
                ),
            decreases d - z,
        {
            out.push(48);
            proof {
                assert(zeros((z + 1 - spec_digits(fp as nat).len()) as nat) =~= zeros(
                    (z - spec_digits(fp as nat).len()) as nat,
                ).push(48u8));
            }
            z = z + 1;
        }
        let mut j: usize = 0;
        while j < frac.len()
            invariant
                j <= frac@.len(),
                frac@ == spec_digits(fp as nat),
                out@ == old(out)@ + (if num < 0 && s > 0 {
                    seq![45u8]
                } else {
                    Seq::<u8>::empty()
                }) + spec_digits(ip as nat) + seq![46u8] + zeros(
                    (d - spec_digits(fp as nat).len()) as nat,
                ) + spec_digits(fp as nat).take(j as int),
            decreases frac@.len() - j,
        {
            let b = frac[j];
            out.push(b);
            proof {
                assert(spec_digits(fp as nat).take(j + 1) =~= spec_digits(fp as nat).take(
                    j as int,
                ).push(frac@[j as int]));
            }
            j = j + 1;
        }
        proof {
            assert(spec_digits(fp as nat).take(frac@.len() as int) =~= spec_digits(fp as nat));
            assert(out@ =~= old(out)@ + spec_fixed(num as int, den as int, d as nat));
        }
    }
}

} // verus!
