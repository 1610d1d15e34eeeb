//! The parameter registry and the bus-frame dispatcher.
//!
//! The registry is a fixed table of named parameters, each with an optional
//! decode rule (where the signal sits in which bus frame, plus an offset and
//! scale), an optional report-encoding rule, a live value and a last-update
//! timestamp. Values start unknown (`None`), are written by the frame
//! dispatcher or by explicit setters, and revert to unknown when a signal
//! goes stale.

use vstd::prelude::*;

use crate::bitfield::{decode_bits, selection_in_range, spec_decode, CanBitSelection};
use crate::rat::Rat;

verus! {

/// Every bus frame handed to the dispatcher carries this many payload bytes.
pub const PAYLOAD_LEN: usize = 8;

/// Milliseconds without a decode after which a value reverts to unknown.
pub const STALE_THRESHOLD_MS: u64 = 5000;

/// Largest magnitude of a decode rule's pre-scale offset.
pub const OFFSET_LIMIT: i64 = 1_000_000;

/// A bus frame: identifier plus fixed-length payload.
pub struct CanFrame {
    pub id: u32,
    pub payload: Vec<u8>,
}

/// Decode rule: which frame feeds the parameter and how to turn the payload
/// into a value. The raw reading is offset, then scaled:
/// `value = (raw + offset) * scale`.
pub struct CanMap {
    pub id: u32,
    pub bits: CanBitSelection,
    pub offset: i64,
    pub scale: Rat,
}

impl CanMap {
    /// The rule addresses only the fixed payload and its scale and offset are
    /// small enough that every decoded value is well-formed.
    pub open spec fn wf(self) -> bool {
        &&& selection_in_range(self.bits, PAYLOAD_LEN as nat)
        &&& self.scale.scale_wf()
        &&& -OFFSET_LIMIT <= self.offset <= OFFSET_LIMIT
    }
}

/// Report-encoding rule: short wire name, decimal places, and the scale that
/// re-expresses the stored natural-unit value for the wire.
pub struct ReportMap {
    pub name: Vec<u8>,
    pub decimals: u8,
    pub scale: Rat,
}

impl ReportMap {
    pub open spec fn wf(self) -> bool {
        &&& self.scale.scale_wf()
        &&& self.decimals <= 6
    }
}

/// A named, timestamped live value derived from the bus or computed locally.
pub struct Parameter {
    pub id: usize,
    pub display_name: String,
    pub value: Option<Rat>,
    pub decimals: u8,
    pub unit: String,
    pub can_map: Option<CanMap>,
    pub report_map: Option<ReportMap>,
    pub update_timestamp: u64,
}

impl Parameter {
    pub open spec fn wf(self) -> bool {
        &&& (self.value matches Some(v) ==> v.wf())
        &&& (self.can_map matches Some(m) ==> m.wf())
        &&& (self.report_map matches Some(rm) ==> rm.wf())
    }

    /// Build a parameter; the live value carries the given initial value and
    /// a zero timestamp.
    pub fn new(
        id: usize,
        display_name: String,
        value: Option<Rat>,
        decimals: u8,
        unit: String,
        can_map: Option<CanMap>,
        report_map: Option<ReportMap>,
    ) -> (r: Parameter)
        ensures
            r == (Parameter {
                id,
                display_name,
                value,
                decimals,
                unit,
                can_map,
                report_map,
                update_timestamp: 0u64,
            }),
    {
        Parameter { id, display_name, value, decimals, unit, can_map, report_map, update_timestamp: 0 }
    }

    /// Stamp a new value and its update time.
    pub fn set_value(&mut self, value: Rat, millis: u64)
        ensures
            *final(self) == (Parameter { value: Some(value), update_timestamp: millis, ..*old(self) }),
    {
        self.value = Some(value);
        self.update_timestamp = millis;
    }
}

/// The parameter a decode rule produces from a payload at time `now`.
pub open spec fn decoded_value(m: CanMap, payload: Seq<u8>) -> Rat {
    Rat {
        num: ((spec_decode(m.bits, payload) + m.offset) * m.scale.num) as i128,
        den: m.scale.den,
    }
}

/// Whether a parameter's decode rule listens to the given frame identifier.
pub open spec fn map_matches(p: Parameter, frame_id: u32) -> bool {
    p.can_map matches Some(m) && m.id == frame_id
}

/// A parameter after the dispatcher applied a matching frame.
pub open spec fn param_after_frame(p: Parameter, payload: Seq<u8>, now: u64) -> Parameter {
    Parameter {
        value: Some(decoded_value(p.can_map->Some_0, payload)),
        update_timestamp: now,
        ..p
    }
}

/// A parameter is stale at `now` when it has a decode rule, a known value,
/// and its last update lies at least `threshold_ms` in the past.
pub open spec fn param_stale(p: Parameter, now: u64, threshold_ms: u64) -> bool {
    &&& p.can_map is Some
    &&& p.value is Some
    &&& now >= p.update_timestamp
    &&& now - p.update_timestamp >= threshold_ms
}

/// The registry: a table of parameters, in declaration order, whose position
/// is meant to equal their identifier.
pub struct Registry {
    pub params: Vec<Parameter>,
}

impl Registry {
    /// Index of every entry equals its declared identifier.
    pub open spec fn ids_consistent(self) -> bool {
        forall|i: int| 0 <= i < self.params@.len() ==> (#[trigger] self.params@[i]).id == i
    }

    /// Every entry's rules and value are well-formed.
    pub open spec fn wf(self) -> bool {
        forall|i: int| 0 <= i < self.params@.len() ==> (#[trigger] self.params@[i]).wf()
    }

    pub fn new() -> (r: Registry)
        ensures
            r.params@.len() == 0,
            r.wf(),
            r.ids_consistent(),
    {
        Registry { params: Vec::new() }
    }

    /// Append a parameter, assigning the next identifier; keeps the
    /// index-equals-identifier invariant by construction.
    pub fn add(
        &mut self,
        display_name: String,
        value: Option<Rat>,
        decimals: u8,
        unit: String,
        can_map: Option<CanMap>,
        report_map: Option<ReportMap>,
    )
        ensures
            final(self).params@.len() == old(self).params@.len() + 1,
            forall|i: int|
                0 <= i < old(self).params@.len() ==> final(self).params@[i] == old(
                    self,
                ).params@[i],
            final(self).params@.last() == (Parameter {
                id: old(self).params@.len() as usize,
                display_name,
                value,
                decimals,
                unit,
                can_map,
                report_map,
                update_timestamp: 0u64,
            }),
            old(self).ids_consistent() ==> final(self).ids_consistent(),
            old(self).wf() && (value matches Some(v) ==> v.wf()) && (can_map matches Some(m)
                ==> m.wf()) && (report_map matches Some(rm) ==> rm.wf()) ==> final(self).wf(),
    {
        let id = self.params.len();
        let p = Parameter::new(id, display_name, value, decimals, unit, can_map, report_map);
        self.params.push(p);
    }

    pub fn len(&self) -> (r: usize)
        ensures
            r == self.params@.len(),
    {
        self.params.len()
    }

    /// Indexed lookup; identifiers are exhaustive by construction.
    pub fn get(&self, id: usize) -> (r: &Parameter)
        requires
            id < self.params@.len(),
        ensures
            *r == self.params@[id as int],
    {
        &self.params[id]
    }

    /// Stamp a parameter's value and update time; the only sanctioned
    /// mutation path besides the frame dispatcher.
    pub fn set_value(&mut self, id: usize, value: Rat, millis: u64)
        requires
            id < old(self).params@.len(),
        ensures
            final(self).params@ == old(self).params@.update(
                id as int,
                (Parameter { value: Some(value), update_timestamp: millis, ..old(self).params@[id as int] }),
            ),
            old(self).wf() && value.wf() ==> final(self).wf(),
    {
        let p = &mut self.params[id];
        p.set_value(value, millis);
        proof {
            assert(final(self).params@ =~= old(self).params@.update(
                id as int,
                (Parameter {
                    value: Some(value),
                    update_timestamp: millis,
                    ..old(self).params@[id as int]
                }),
            ));
        }
    }

    /// Verify that every entry sits at the index its identifier declares;
    /// on failure the caller must divert to a view that does not index by
    /// identifier.
    pub fn check_id_consistency(&self) -> (r: bool)
        ensures
            r == self.ids_consistent(),
    {
        let mut i: usize = 0;
        while i < self.params.len()
            invariant
                i <= self.params@.len(),
                forall|j: int| 0 <= j < i ==> (#[trigger] self.params@[j]).id == j,
            decreases self.params@.len() - i,
        {
            if self.params[i].id != i {
                return false;
            }
            i = i + 1;
        }
        true
    }

    /// Verify every entry's rules and value are within the supported
    /// ranges; callers establish this once at startup before decoding or
    /// reporting.
    pub fn check_config(&self) -> (r: bool)
        ensures
            r == self.wf(),
    {
        let mut i: usize = 0;
        while i < self.params.len()
            invariant
                i <= self.params@.len(),
                forall|j: int| 0 <= j < i ==> (#[trigger] self.params@[j]).wf(),
            decreases self.params@.len() - i,
        {
            let p = &self.params[i];
            match &p.value {
                Some(v) => {
                    if !(1 <= v.den && v.den <= crate::rat::DEN_LIMIT && -crate::rat::NUM_LIMIT
                        <= v.num && v.num <= crate::rat::NUM_LIMIT) {
                        return false;
                    }
                },
                None => {},
            }
            match &p.can_map {
                Some(m) => {
                    if !crate::bitfield::selection_fits(m.bits, PAYLOAD_LEN) {
                        return false;
                    }
                    if !(1 <= m.scale.den && m.scale.den <= crate::rat::SCALE_LIMIT
                        && -crate::rat::SCALE_LIMIT <= m.scale.num && m.scale.num
                        <= crate::rat::SCALE_LIMIT) {
                        return false;
                    }
                    if !(-OFFSET_LIMIT <= m.offset && m.offset <= OFFSET_LIMIT) {
                        return false;
                    }
                },
                None => {},
            }
            match &p.report_map {
                Some(rm) => {
                    if !(1 <= rm.scale.den && rm.scale.den <= crate::rat::SCALE_LIMIT
                        && -crate::rat::SCALE_LIMIT <= rm.scale.num && rm.scale.num
                        <= crate::rat::SCALE_LIMIT) {
                        return false;
                    }
                    if rm.decimals > 6 {
                        return false;
                    }
                },
                None => {},
            }
            i = i + 1;
        }
        true
    }

    /// For every parameter with a decode rule listening to this frame,
    /// decode the payload, apply offset and scale, and stamp the value with
    /// `now`. Parameters not matching the frame are untouched.
    pub fn on_frame(&mut self, frame: &CanFrame, now: u64)
        requires
            old(self).wf(),
            frame.payload@.len() == PAYLOAD_LEN,
        ensures
            final(self).params@.len() == old(self).params@.len(),
            forall|i: int|
                0 <= i < old(self).params@.len() ==> final(self).params@[i] == (if map_matches(
                    #[trigger] old(self).params@[i],
                    frame.id,
                ) {
                    param_after_frame(old(self).params@[i], frame.payload@, now)
                } else {
                    old(self).params@[i]
                }),
            final(self).wf(),
    {
        let n = self.params.len();
        let mut i: usize = 0;
        while i < n
            invariant
                n == self.params@.len() == old(self).params@.len(),
                i <= n,
                old(self).wf(),
                frame.payload@.len() == PAYLOAD_LEN,
                forall|j: int|
                    0 <= j < i ==> self.params@[j] == (if map_matches(
                        #[trigger] old(self).params@[j],
                        frame.id,
                    ) {
                        param_after_frame(old(self).params@[j], frame.payload@, now)
                    } else {
                        old(self).params@[j]
                    }),
                forall|j: int| i <= j < n ==> self.params@[j] == old(self).params@[j],
                self.wf(),
            decreases n - i,
        {
            let p = &mut self.params[i];
            let ghost p_old = *p;
            match &p.can_map {
                Some(m) => {
                    if m.id == frame.id {
                        let raw = decode_bits(m.bits, &frame.payload);
                        let a: i128 = raw as i128 + m.offset as i128;
                        assert(-1_000_000_000_000_000_000_000_000 <= (a as int) * (m.scale.num
                            as int) <= 1_000_000_000_000_000_000_000_000) by (nonlinear_arith)
                            requires
                                -0x800_0000_0000_0000 - 1_000_000 <= a <= 0x800_0000_0000_0000
                                    + 1_000_000,
                                -1_000_000 <= m.scale.num <= 1_000_000,
                        ;
                        let num: i128 = a * m.scale.num;
                        p.value = Some(Rat { num, den: m.scale.den });
                        p.update_timestamp = now;
                        assert(*p == param_after_frame(p_old, frame.payload@, now));
                    }
                },
                None => {},
            }
            i = i + 1;
        }
    }

    /// Reset every decodable, known parameter whose last update is at least
    /// `threshold_ms` old to unknown; all other parameters are unchanged.
    pub fn sweep_stale(&mut self, now: u64, threshold_ms: u64)
        ensures
            final(self).params@.len() == old(self).params@.len(),
            forall|i: int|
                0 <= i < old(self).params@.len() ==> final(self).params@[i] == (if param_stale(
                    #[trigger] old(self).params@[i],
                    now,
                    threshold_ms,
                ) {
                    (Parameter { value: None, ..old(self).params@[i] })
                } else {
                    old(self).params@[i]
                }),
    {
        let n = self.params.len();
        let mut i: usize = 0;
        while i < n
            invariant
                n == self.params@.len() == old(self).params@.len(),
                i <= n,
                forall|j: int|
                    0 <= j < i ==> self.params@[j] == (if param_stale(
                        #[trigger] old(self).params@[j],
                        now,
                        threshold_ms,
                    ) {
                        (Parameter { value: None, ..old(self).params@[j] })
                    } else {
                        old(self).params@[j]
                    }),
                forall|j: int| i <= j < n ==> self.params@[j] == old(self).params@[j],
            decreases n - i,
        {
            let p = &mut self.params[i];
            if p.can_map.is_some() && p.value.is_some() && now >= p.update_timestamp && now
                - p.update_timestamp >= threshold_ms {
                p.value = None;
            }
            i = i + 1;
        }
    }
}

/// Bulk update entry point: apply one received frame to the whole registry.
pub fn update_parameters_on_can(registry: &mut Registry, frame: &CanFrame, millis: u64)
    requires
        old(registry).wf(),
        frame.payload@.len() == PAYLOAD_LEN,
    ensures
        final(registry).params@.len() == old(registry).params@.len(),
        forall|i: int|
            0 <= i < old(registry).params@.len() ==> final(registry).params@[i] == (
            if map_matches(#[trigger] old(registry).params@[i], frame.id) {
                param_after_frame(old(registry).params@[i], frame.payload@, millis)
            } else {
                old(registry).params@[i]
            }),
        final(registry).wf(),
{
    registry.on_frame(frame, millis);
}

} // verus!
