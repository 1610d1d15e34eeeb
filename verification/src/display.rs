//! Human display rendering of parameter values.
//!
//! A known value renders at the parameter's precision, right-aligned in a
//! fixed field; an unknown or stale value renders as a dash placeholder
//! rather than a stale number.

use vstd::prelude::*;

use crate::numfmt::{push_fixed, spec_fixed};
use crate::rat::Rat;

verus! {

/// A run of ASCII spaces.
pub open spec fn spaces(n: nat) -> Seq<u8> {
    Seq::new(n, |i: int| 32u8)
}

/// The text a value shows on the display: its fixed-decimal rendering, or a
/// dash when unknown, right-aligned to `width` with spaces.
pub open spec fn spec_value_text(value: Option<Rat>, decimals: u8, width: nat) -> Seq<u8> {
    let s = match value {
        None => seq![45u8],
        Some(v) => spec_fixed(v.num as int, v.den as int, decimals as nat),
    };
    if s.len() >= width {
        s
    } else {
        spaces((width - s.len()) as nat) + s
    }
}

/// Render a value for the display.
pub fn value_text(value: Option<Rat>, decimals: u8, width: usize) -> (r: Vec<u8>)
    requires
        value matches Some(v) ==> v.wf(),
        decimals <= 6,
    ensures
        r@ == spec_value_text(value, decimals, width as nat),
{
    let mut s: Vec<u8> = Vec::new();
    match value {
        None => {
            s.push(45);  // '-'
            proof {
                assert(s@ =~= seq![45u8]);
            }
        },
        Some(v) => {
            push_fixed(v.num, v.den, decimals, &mut s);
        },
    }
    if s.len() >= width {
        s
    } else {
        let pad = width - s.len();
        let mut out: Vec<u8> = Vec::new();
        let mut i: usize = 0;
        while i < pad
            invariant
                i <= pad,
                out@ == spaces(i as nat),
            decreases pad - i,
        {
            out.push(32);
            proof {
                assert(out@ =~= spaces(i as nat + 1));
            }
            i = i + 1;
        }
        crate::parse::push_all(&mut out, &s);
        out
    }
}

} // verus!
