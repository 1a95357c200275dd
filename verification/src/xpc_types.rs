//! The telemetry snapshot and the rules that map simulator reply values
//! onto it.
//!
//! Reply values arrive as raw IEEE-754 single-precision encodings; the
//! snapshot stores booleans derived from them and, for the gauges, the raw
//! encodings themselves. All numeric rules are stated over the 32-bit
//! encodings: for values that are not NaN and not negative, the encoding
//! orders exactly as the value does, which is all the thresholds below need.

use vstd::prelude::*;

verus! {

/// A command named by the dashboard or by a hardware input, on its way to
/// the simulator.
#[derive(Debug)]
pub struct UICommand {
    pub command: String,
}

impl Clone for UICommand {
    fn clone(&self) -> (r: Self)
        ensures
            r == *self,
    {
        UICommand { command: self.command.clone() }
    }
}

/// One (subscription index, value) pair of a simulator telemetry reply. The
/// value field holds the wire's IEEE-754 single-precision encoding verbatim.
#[derive(Debug, Clone, Copy, PartialEq, Eq)]
pub struct DatarefValue {
    pub id: u32,
    pub value_bits: u32,
}

/// IEEE-754 single-precision encoding of one tenth: the ratio above which
/// the parking brake counts as set.
pub const PARKING_BRAKE_THRESHOLD_BITS: u32 = 0x3dcccccd;

/// IEEE-754 single-precision encoding of two: the flight-director mode at
/// or above which the autopilot counts as engaged.
pub const AUTOPILOT_ENGAGED_THRESHOLD_BITS: u32 = 0x40000000;

/// The encoding's sign bit.
#[verifier::opaque]
pub open spec fn bits_sign(b: u32) -> bool {
    b & 0x8000_0000 != 0
}

/// Whether the encoding denotes a NaN: exponent all ones, mantissa nonzero.
#[verifier::opaque]
pub open spec fn bits_is_nan(b: u32) -> bool {
    b & 0x7f80_0000 == 0x7f80_0000 && b & 0x007f_ffff != 0
}

/// Models `value != 0`: anything but the two zero encodings compares unequal
/// to zero (NaN included, as NaN != 0 holds).
#[verifier::opaque]
pub open spec fn bits_nonzero(b: u32) -> bool {
    b & 0x7fff_ffff != 0
}

/// Models `value > threshold` for a nonnegative finite threshold encoding:
/// true exactly for non-NaN, nonnegative values whose magnitude encoding
/// orders strictly above the threshold's.
#[verifier::opaque]
pub open spec fn bits_gt(b: u32, threshold: u32) -> bool {
    !bits_is_nan(b) && !bits_sign(b) && (b & 0x7fff_ffff) > threshold
}

/// Models `value >= threshold` for a positive finite threshold encoding.
#[verifier::opaque]
pub open spec fn bits_ge(b: u32, threshold: u32) -> bool {
    !bits_is_nan(b) && !bits_sign(b) && (b & 0x7fff_ffff) >= threshold
}

/// The boolean a plain on/off dataref value maps to: set iff nonzero.
pub fn boolv(bits: u32) -> (r: bool)
    ensures
        r == bits_nonzero(bits),
{
    proof {
        reveal(bits_nonzero);
    }
    bits & 0x7fff_ffff != 0
}

/// The boolean a ratio-valued dataref maps to: set iff strictly above the
/// threshold.
pub fn boolv_with_limit(bits: u32, limit: u32) -> (r: bool)
    ensures
        r == bits_gt(bits, limit),
{
    proof {
        reveal(bits_gt);
        reveal(bits_is_nan);
        reveal(bits_sign);
    }
    let nan = bits & 0x7f80_0000 == 0x7f80_0000 && bits & 0x007f_ffff != 0;
    let negative = bits & 0x8000_0000 != 0;
    !nan && !negative && (bits & 0x7fff_ffff) > limit
}

/// Whether the value is at or above the threshold.
fn boolv_at_least(bits: u32, limit: u32) -> (r: bool)
    ensures
        r == bits_ge(bits, limit),
{
    proof {
        reveal(bits_ge);
        reveal(bits_is_nan);
        reveal(bits_sign);
    }
    let nan = bits & 0x7f80_0000 == 0x7f80_0000 && bits & 0x007f_ffff != 0;
    let negative = bits & 0x8000_0000 != 0;
    !nan && !negative && (bits & 0x7fff_ffff) >= limit
}

/// The cached snapshot of every subscribed flight parameter, in the order of
/// the dataref table. Gauge fields hold the raw IEEE-754 single-precision
/// encoding from the wire.
#[derive(Debug, Clone, Copy, PartialEq)]
pub struct ReceivedDatarefs {
    pub has_retracting_gear: bool,
    pub is_gear_unsafe: bool,
    pub is_gear_handle_down: bool,
    pub avionics_power: bool,
    pub navigation_lights: bool,
    pub beacon: bool,
    pub strobe_lights: bool,
    pub taxi_lights: bool,
    pub parking_brake: bool,
    pub landing_lights_1: bool,
    pub landing_lights_2: bool,
    pub pitot_heat_1: bool,
    pub pitot_heat_2: bool,
    pub stall_warn_heat: bool,
    pub prop_heat: bool,
    pub window_heat: bool,
    pub autopilot_flight_director: bool,
    pub autopilot_engaged: bool,
    pub autopilot_heading_mode: bool,
    pub autopilot_alt_hold_mode: bool,
    pub autopilot_approach_mode: bool,
    pub autopilot_nav_mode: bool,
    pub autopilot_back_course_mode: bool,
    pub yaw_damper: bool,
    pub ias: u32,
    pub tas: u32,
    pub mag_heading: u32,
    pub altitude: u32,
    pub lat: Option<u32>,
    pub lon: Option<u32>,
}

impl ReceivedDatarefs {
    /// The snapshot before any reply arrived: everything off, gauges at the
    /// zero encoding, position unknown.
    pub open spec fn spec_default() -> ReceivedDatarefs {
        ReceivedDatarefs {
            has_retracting_gear: false,
            is_gear_unsafe: false,
            is_gear_handle_down: false,
            avionics_power: false,
            navigation_lights: false,
            beacon: false,
            strobe_lights: false,
            taxi_lights: false,
            parking_brake: false,
            landing_lights_1: false,
            landing_lights_2: false,
            pitot_heat_1: false,
            pitot_heat_2: false,
            stall_warn_heat: false,
            prop_heat: false,
            window_heat: false,
            autopilot_flight_director: false,
            autopilot_engaged: false,
            autopilot_heading_mode: false,
            autopilot_alt_hold_mode: false,
            autopilot_approach_mode: false,
            autopilot_nav_mode: false,
            autopilot_back_course_mode: false,
            yaw_damper: false,
            ias: 0,
            tas: 0,
            mag_heading: 0,
            altitude: 0,
            lat: None,
            lon: None,
        }
    }
}

impl Default for ReceivedDatarefs {
    fn default() -> (r: Self)
        ensures
            r == ReceivedDatarefs::spec_default(),
    {
        ReceivedDatarefs {
            has_retracting_gear: false,
            is_gear_unsafe: false,
            is_gear_handle_down: false,
            avionics_power: false,
            navigation_lights: false,
            beacon: false,
            strobe_lights: false,
            taxi_lights: false,
            parking_brake: false,
            landing_lights_1: false,
            landing_lights_2: false,
            pitot_heat_1: false,
            pitot_heat_2: false,
            stall_warn_heat: false,
            prop_heat: false,
            window_heat: false,
            autopilot_flight_director: false,
            autopilot_engaged: false,
            autopilot_heading_mode: false,
            autopilot_alt_hold_mode: false,
            autopilot_approach_mode: false,
            autopilot_nav_mode: false,
            autopilot_back_course_mode: false,
            yaw_damper: false,
            ias: 0,
            tas: 0,
            mag_heading: 0,
            altitude: 0,
            lat: None,
            lon: None,
        }
    }
}

/// How one reply pair updates the snapshot. Index 0 and indices beyond the
/// dataref table leave it untouched; most fields are set iff the value is
/// nonzero; the parking brake tolerates a small idle ratio; the
/// flight-director mode derives two booleans; the gauges store the encoding
/// unchanged.
pub open spec fn spec_apply_dataref(s: ReceivedDatarefs, id: u32, bits: u32) -> ReceivedDatarefs {
    if id == 1 {
        ReceivedDatarefs { has_retracting_gear: bits_nonzero(bits), ..s }
    } else if id == 2 {
        ReceivedDatarefs { is_gear_unsafe: bits_nonzero(bits), ..s }
    } else if id == 3 {
        ReceivedDatarefs { is_gear_handle_down: bits_nonzero(bits), ..s }
    } else if id == 4 {
        ReceivedDatarefs { avionics_power: bits_nonzero(bits), ..s }
    } else if id == 5 {
        ReceivedDatarefs { navigation_lights: bits_nonzero(bits), ..s }
    } else if id == 6 {
        ReceivedDatarefs { beacon: bits_nonzero(bits), ..s }
    } else if id == 7 {
        ReceivedDatarefs { strobe_lights: bits_nonzero(bits), ..s }
    } else if id == 8 {
        ReceivedDatarefs { taxi_lights: bits_nonzero(bits), ..s }
    } else if id == 9 {
        ReceivedDatarefs { landing_lights_1: bits_nonzero(bits), ..s }
    } else if id == 10 {
        ReceivedDatarefs { landing_lights_2: bits_nonzero(bits), ..s }
    } else if id == 11 {
        ReceivedDatarefs { pitot_heat_1: bits_nonzero(bits), ..s }
    } else if id == 12 {
        ReceivedDatarefs { pitot_heat_2: bits_nonzero(bits), ..s }
    } else if id == 13 {
        ReceivedDatarefs { stall_warn_heat: bits_nonzero(bits), ..s }
    } else if id == 14 {
        ReceivedDatarefs { prop_heat: bits_nonzero(bits), ..s }
    } else if id == 15 {
        ReceivedDatarefs { window_heat: bits_nonzero(bits), ..s }
    } else if id == 16 {
        ReceivedDatarefs {
            autopilot_flight_director: bits_gt(bits, 0),
            autopilot_engaged: bits_ge(bits, AUTOPILOT_ENGAGED_THRESHOLD_BITS),
            ..s
        }
    } else if id == 17 {
        ReceivedDatarefs { autopilot_heading_mode: bits_nonzero(bits), ..s }
    } else if id == 18 {
        ReceivedDatarefs { autopilot_alt_hold_mode: bits_nonzero(bits), ..s }
    } else if id == 19 {
        ReceivedDatarefs { autopilot_approach_mode: bits_nonzero(bits), ..s }
    } else if id == 20 {
        ReceivedDatarefs { autopilot_nav_mode: bits_nonzero(bits), ..s }
    } else if id == 21 {
        ReceivedDatarefs { autopilot_back_course_mode: bits_nonzero(bits), ..s }
    } else if id == 22 {
        ReceivedDatarefs { yaw_damper: bits_nonzero(bits), ..s }
    } else if id == 23 {
        ReceivedDatarefs { parking_brake: bits_gt(bits, PARKING_BRAKE_THRESHOLD_BITS), ..s }
    } else if id == 24 {
        ReceivedDatarefs { ias: bits, ..s }
    } else if id == 25 {
        ReceivedDatarefs { tas: bits, ..s }
    } else if id == 26 {
        ReceivedDatarefs { mag_heading: bits, ..s }
    } else if id == 27 {
        ReceivedDatarefs { altitude: bits, ..s }
    } else if id == 28 {
        ReceivedDatarefs { lat: Some(bits), ..s }
    } else if id == 29 {
        ReceivedDatarefs { lon: Some(bits), ..s }
    } else {
        s
    }
}

/// Folding a whole run of reply pairs over the snapshot, front to back.
pub open spec fn spec_apply_values(s: ReceivedDatarefs, values: Seq<DatarefValue>) -> ReceivedDatarefs
    decreases values.len(),
{
    if values.len() == 0 {
        s
    } else {
        spec_apply_values(
            spec_apply_dataref(s, values[0].id, values[0].value_bits),
            values.drop_first(),
        )
    }
}

/// Applies one reply pair to the snapshot. An index of 0 or beyond the
/// dataref table is ignored and the snapshot is unchanged.
pub fn handle_dataref(id: u32, value_bits: u32, datarefs: &mut ReceivedDatarefs)
    ensures
        *final(datarefs) == spec_apply_dataref(*old(datarefs), id, value_bits),
{
    if id == 0 || id > crate::dataref_table::DATAREF_TABLE_LEN {
        return ;
    }
    if id <= 5 {
        let next = apply_dataref_1_to_5(*datarefs, id, value_bits);
        *datarefs = next;
    } else if id <= 10 {
        let next = apply_dataref_6_to_10(*datarefs, id, value_bits);
        *datarefs = next;
    } else if id <= 15 {
        let next = apply_dataref_11_to_15(*datarefs, id, value_bits);
        *datarefs = next;
    } else if id == 16 {
        parse_flight_director_mode(datarefs, value_bits);
    } else if id <= 18 {
        let next = apply_dataref_17_to_18(*datarefs, id, value_bits);
        *datarefs = next;
    } else if id <= 20 {
        let next = apply_dataref_19_to_20(*datarefs, id, value_bits);
        *datarefs = next;
    } else if id <= 25 {
        let next = apply_dataref_21_to_25(*datarefs, id, value_bits);
        *datarefs = next;
    } else if id <= 29 {
        let next = apply_dataref_26_to_29(*datarefs, id, value_bits);
        *datarefs = next;
    }
}

/// The update rule for indices 1 through 5.
#[verifier::rlimit(100)]
fn apply_dataref_1_to_5(s: ReceivedDatarefs, id: u32, value_bits: u32) -> (r: ReceivedDatarefs)
    requires
        1 <= id <= 5,
    ensures
        r == spec_apply_dataref(s, id, value_bits),
{
    if id == 1 {
        return ReceivedDatarefs { has_retracting_gear: boolv(value_bits), ..s };
    }
    if id == 2 {
        return ReceivedDatarefs { is_gear_unsafe: boolv(value_bits), ..s };
    }
    if id == 3 {
        return ReceivedDatarefs { is_gear_handle_down: boolv(value_bits), ..s };
    }
    if id == 4 {
        return ReceivedDatarefs { avionics_power: boolv(value_bits), ..s };
    }
    ReceivedDatarefs { navigation_lights: boolv(value_bits), ..s }
}

/// The update rule for indices 6 through 10.
#[verifier::rlimit(100)]
fn apply_dataref_6_to_10(s: ReceivedDatarefs, id: u32, value_bits: u32) -> (r: ReceivedDatarefs)
    requires
        6 <= id <= 10,
    ensures
        r == spec_apply_dataref(s, id, value_bits),
{
    if id == 6 {
        return ReceivedDatarefs { beacon: boolv(value_bits), ..s };
    }
    if id == 7 {
        return ReceivedDatarefs { strobe_lights: boolv(value_bits), ..s };
    }
    if id == 8 {
        return ReceivedDatarefs { taxi_lights: boolv(value_bits), ..s };
    }
    if id == 9 {
        return ReceivedDatarefs { landing_lights_1: boolv(value_bits), ..s };
    }
    ReceivedDatarefs { landing_lights_2: boolv(value_bits), ..s }
}

/// The update rule for indices 11 through 15.
#[verifier::rlimit(100)]
fn apply_dataref_11_to_15(s: ReceivedDatarefs, id: u32, value_bits: u32) -> (r: ReceivedDatarefs)
    requires
        11 <= id <= 15,
    ensures
        r == spec_apply_dataref(s, id, value_bits),
{
    if id == 11 {
        return ReceivedDatarefs { pitot_heat_1: boolv(value_bits), ..s };
    }
    if id == 12 {
        return ReceivedDatarefs { pitot_heat_2: boolv(value_bits), ..s };
    }
    if id == 13 {
        return ReceivedDatarefs { stall_warn_heat: boolv(value_bits), ..s };
    }
    if id == 14 {
        return ReceivedDatarefs { prop_heat: boolv(value_bits), ..s };
    }
    ReceivedDatarefs { window_heat: boolv(value_bits), ..s }
}

/// The update rule for indices 17 and 18.
#[verifier::rlimit(100)]
fn apply_dataref_17_to_18(s: ReceivedDatarefs, id: u32, value_bits: u32) -> (r: ReceivedDatarefs)
    requires
        17 <= id <= 18,
    ensures
        r == spec_apply_dataref(s, id, value_bits),
{
    if id == 17 {
        return ReceivedDatarefs { autopilot_heading_mode: boolv(value_bits), ..s };
    }
    ReceivedDatarefs { autopilot_alt_hold_mode: boolv(value_bits), ..s }
}

/// The update rule for indices 19 and 20.
#[verifier::rlimit(100)]
fn apply_dataref_19_to_20(s: ReceivedDatarefs, id: u32, value_bits: u32) -> (r: ReceivedDatarefs)
    requires
        19 <= id <= 20,
    ensures
        r == spec_apply_dataref(s, id, value_bits),
{
    if id == 19 {
        return ReceivedDatarefs { autopilot_approach_mode: boolv(value_bits), ..s };
    }
    ReceivedDatarefs { autopilot_nav_mode: boolv(value_bits), ..s }
}

/// The update rule for indices 21 through 25.
#[verifier::rlimit(100)]
fn apply_dataref_21_to_25(s: ReceivedDatarefs, id: u32, value_bits: u32) -> (r: ReceivedDatarefs)
    requires
        21 <= id <= 25,
    ensures
        r == spec_apply_dataref(s, id, value_bits),
{
    if id == 21 {
        return ReceivedDatarefs { autopilot_back_course_mode: boolv(value_bits), ..s };
    }
    if id == 22 {
        return ReceivedDatarefs { yaw_damper: boolv(value_bits), ..s };
    }
    if id == 23 {
        return ReceivedDatarefs {
            parking_brake: boolv_with_limit(value_bits, PARKING_BRAKE_THRESHOLD_BITS),
            ..s
        };
    }
    if id == 24 {
        return ReceivedDatarefs { ias: value_bits, ..s };
    }
    ReceivedDatarefs { tas: value_bits, ..s }
}

/// The update rule for indices 26 through 29.
#[verifier::rlimit(100)]
fn apply_dataref_26_to_29(s: ReceivedDatarefs, id: u32, value_bits: u32) -> (r: ReceivedDatarefs)
    requires
        26 <= id <= 29,
    ensures
        r == spec_apply_dataref(s, id, value_bits),
{
    if id == 26 {
        return ReceivedDatarefs { mag_heading: value_bits, ..s };
    }
    if id == 27 {
        return ReceivedDatarefs { altitude: value_bits, ..s };
    }
    if id == 28 {
        return ReceivedDatarefs { lat: Some(value_bits), ..s };
    }
    ReceivedDatarefs { lon: Some(value_bits), ..s }
}

/// The flight-director mode derives two booleans: the director is active
/// above zero, and the autopilot is engaged at or above two.
pub fn parse_flight_director_mode(datarefs: &mut ReceivedDatarefs, value_bits: u32)
    ensures
        *final(datarefs) == (ReceivedDatarefs {
            autopilot_flight_director: bits_gt(value_bits, 0),
            autopilot_engaged: bits_ge(value_bits, AUTOPILOT_ENGAGED_THRESHOLD_BITS),
            ..*old(datarefs)
        }),
{
    datarefs.autopilot_flight_director = boolv_with_limit(value_bits, 0);
    datarefs.autopilot_engaged = boolv_at_least(value_bits, AUTOPILOT_ENGAGED_THRESHOLD_BITS);
}

/// Applies a whole run of reply pairs to the snapshot, front to back.
/// Unknown indices in the run are skipped without disturbing the rest.
pub fn handle_datarefs(values: &Vec<DatarefValue>, dataref_cache: &mut ReceivedDatarefs)
    ensures
        *final(dataref_cache) == spec_apply_values(*old(dataref_cache), values@),
{
    let ghost orig = *dataref_cache;
    proof {
        assert(values@.skip(0) =~= values@);
    }
    let mut i: usize = 0;
    while i < values.len()
        invariant
            i <= values@.len(),
            spec_apply_values(*dataref_cache, values@.skip(i as int)) == spec_apply_values(
                orig,
                values@,
            ),
        decreases values@.len() - i,
    {
        proof {
            assert(values@.skip(i as int)[0] == values@[i as int]);
            assert(values@.skip(i as int).drop_first() =~= values@.skip(i as int + 1));
        }
        let v = values[i];
        handle_dataref(v.id, v.value_bits, dataref_cache);
        i += 1;
    }
    proof {
        assert(values@.skip(values@.len() as int) =~= Seq::<DatarefValue>::empty());
    }
}

} // verus!
