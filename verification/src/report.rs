//! The telemetry report encoder.
//!
//! Walks the registry in declaration order and, for every parameter with a
//! report-encoding rule, appends `name=value&` to the outgoing request body,
//! where the value is the stored value times the rule's wire scale, rendered
//! with the rule's decimal places. An unknown value renders as `NaN`. The
//! output is bounded by a declared capacity; exceeding it is a configuration
//! error and fails the whole call rather than truncating mid-token.

use vstd::prelude::*;

use crate::numfmt::{push_fixed, spec_fixed};
use crate::parse::push_all;
use crate::rat::Rat;
use crate::registry::{Parameter, Registry, ReportMap};

verus! {

/// Building the report failed.
#[derive(Clone, Copy, PartialEq, Eq, Structural, Debug)]
pub enum ReportError {
    /// The encoded report does not fit the declared buffer capacity; the
    /// registry maps too many parameters for the buffer.
    BufferOverflow,
}

/// The bytes standing for an unknown value on the wire: `NaN`.
pub open spec fn unknown_bytes() -> Seq<u8> {
    seq![78u8, 97u8, 78u8]
}

/// The rendered value of one report token: the value re-expressed by the
/// rule's wire scale, at the rule's precision.
pub open spec fn value_bytes(value: Option<Rat>, rm: ReportMap) -> Seq<u8> {
    match value {
        None => unknown_bytes(),
        Some(v) => spec_fixed(
            (v.num * rm.scale.num) as int,
            (v.den * rm.scale.den) as int,
            rm.decimals as nat,
        ),
    }
}

/// One parameter's contribution to the report: `name=value&`, or nothing if
/// it carries no report rule.
pub open spec fn report_token(p: Parameter) -> Seq<u8> {
    match p.report_map {
        None => Seq::empty(),
        Some(rm) => rm.name@ + seq![61u8] + value_bytes(p.value, rm) + seq![38u8],
    }
}

/// Concatenation of all tokens, in registry order.
pub open spec fn report_tokens(params: Seq<Parameter>) -> Seq<u8>
    decreases params.len(),
{
    if params.len() == 0 {
        Seq::empty()
    } else {
        report_tokens(params.drop_last()) + report_token(params.last())
    }
}

/// The whole report: the injected prefix followed by all tokens.
pub open spec fn spec_report(params: Seq<Parameter>, prefix: Seq<u8>) -> Seq<u8> {
    prefix + report_tokens(params)
}

/// Peeling one parameter off the front of the token concatenation.
proof fn lemma_report_tokens_take(params: Seq<Parameter>, i: int)
    requires
        0 <= i < params.len(),
    ensures
        report_tokens(params.take(i + 1)) == report_tokens(params.take(i)) + report_token(
            params[i],
        ),
{
    assert(params.take(i + 1).drop_last() =~= params.take(i));
    assert(params.take(i + 1).last() == params[i]);
}

/// Append one parameter's token to `out`.
fn push_token(out: &mut Vec<u8>, p: &Parameter)
    requires
        p.wf(),
    ensures
        final(out)@ == old(out)@ + report_token(*p),
{
    match &p.report_map {
        None => {
            assert(out@ =~= old(out)@ + report_token(*p));
        },
        Some(rm) => {
            push_all(out, &rm.name);
            out.push(61);  // '='
            match &p.value {
                None => {
                    out.push(78);  // 'N'
                    out.push(97);  // 'a'
                    out.push(78);  // 'N'
                },
                Some(v) => {
                    assert(-1_000_000_000_000_000_000_000_000_000_000 <= (v.num as int) * (
                    rm.scale.num as int) <= 1_000_000_000_000_000_000_000_000_000_000
                        && 1 <= (v.den as int) * (rm.scale.den as int)
                        <= 0x8000_0000_0000_0000) by (nonlinear_arith)
                        requires
                            -1_000_000_000_000_000_000_000_000 <= v.num
                                <= 1_000_000_000_000_000_000_000_000,
                            1 <= v.den <= 1_000_000_000,
                            -1_000_000 <= rm.scale.num <= 1_000_000,
                            1 <= rm.scale.den <= 1_000_000,
                    ;
                    let num: i128 = v.num * rm.scale.num;
                    let den: i128 = v.den * rm.scale.den;
                    push_fixed(num, den, rm.decimals, out);
                },
            }
            out.push(38);  // '&'
            assert(out@ =~= old(out)@ + report_token(*p));
        },
    }
}

/// Build the outgoing report: `prefix` then `name=value&` for every
/// report-mapped parameter, in registry order. Fails, producing nothing,
/// when the encoded report would exceed `capacity` bytes.
pub fn build_report(registry: &Registry, prefix: &Vec<u8>, capacity: usize) -> (r: Result<
    Vec<u8>,
    ReportError,
>)
    requires
        registry.wf(),
    ensures
        r matches Ok(out) ==> out@ == spec_report(registry.params@, prefix@) && out@.len()
            <= capacity,
        r is Err <==> spec_report(registry.params@, prefix@).len() > capacity,
{
    let mut out: Vec<u8> = Vec::new();
    push_all(&mut out, prefix);
    let n = registry.params.len();
    let mut i: usize = 0;
    while i < n
        invariant
            n == registry.params@.len(),
            i <= n,
            registry.wf(),
            out@ == prefix@ + report_tokens(registry.params@.take(i as int)),
        decreases n - i,
    {
        let p = &registry.params[i];
        push_token(&mut out, p);
        proof {
            lemma_report_tokens_take(registry.params@, i as int);
        }
        i = i + 1;
    }
    proof {
        assert(registry.params@.take(n as int) =~= registry.params@);
    }
    if out.len() > capacity {
        Err(ReportError::BufferOverflow)
    } else {
        Ok(out)
    }
}

/// The report is a pure function of the registry contents and the prefix:
/// for a fixed registry and fixed values, two runs produce byte-identical
/// output.
pub proof fn lemma_report_deterministic(
    params1: Seq<Parameter>,
    prefix1: Seq<u8>,
    params2: Seq<Parameter>,
    prefix2: Seq<u8>,
)
    requires
        params1 == params2,
        prefix1 == prefix2,
    ensures
        spec_report(params1, prefix1) == spec_report(params2, prefix2),
{
}

} // verus!
