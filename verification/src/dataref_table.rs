//! The static dataref identity table: a fixed ordered list of simulator
//! dataref paths, each subscribed under its 1-based position. Index 0 and
//! indices beyond the table are invalid everywhere in the protocol.

use vstd::prelude::*;

use vstd::string::StringSliceAdditionalSpecFns;

use crate::codec::{encode_subscribe, spec_subscribe_bytes, SUBSCRIBE_FRAME_LEN, SUBSCRIBE_PATH_LEN};

verus! {

/// Number of entries in the dataref table; valid indices are 1 through this.
pub const DATAREF_TABLE_LEN: u32 = 29;

/// The path subscribed under each valid 1-based index.
pub open spec fn spec_dataref_path(index: int) -> Seq<char> {
    if index == 1 {
        "sim/aircraft/gear/acf_gear_retract"@
    } else if index == 2 {
        "sim/cockpit2/annunciators/gear_unsafe"@
    } else if index == 3 {
        "sim/cockpit2/controls/gear_handle_down"@
    } else if index == 4 {
        "sim/cockpit2/switches/avionics_power_on"@
    } else if index == 5 {
        "sim/cockpit2/switches/navigation_lights_on"@
    } else if index == 6 {
        "sim/cockpit2/switches/beacon_on"@
    } else if index == 7 {
        "sim/cockpit2/switches/strobe_lights_on"@
    } else if index == 8 {
        "sim/cockpit2/switches/taxi_light_on"@
    } else if index == 9 {
        "sim/cockpit2/switches/landing_lights_switch[0]"@
    } else if index == 10 {
        "sim/cockpit2/switches/landing_lights_switch[1]"@
    } else if index == 11 {
        "sim/cockpit2/ice/ice_pitot_heat_on_pilot"@
    } else if index == 12 {
        "sim/cockpit2/ice/ice_pitot_heat_on_copilot"@
    } else if index == 13 {
        "sim/cockpit2/ice/ice_AOA_heat_on"@
    } else if index == 14 {
        "sim/cockpit2/ice/ice_prop_heat_on"@
    } else if index == 15 {
        "sim/cockpit2/ice/ice_window_heat_on"@
    } else if index == 16 {
        "sim/cockpit2/autopilot/flight_director_mode"@
    } else if index == 17 {
        "sim/cockpit2/autopilot/heading_mode"@
    } else if index == 18 {
        "sim/cockpit2/autopilot/altitude_hold_status"@
    } else if index == 19 {
        "sim/cockpit2/autopilot/glideslope_armed"@
    } else if index == 20 {
        "sim/cockpit2/autopilot/hnav_armed"@
    } else if index == 21 {
        "sim/cockpit2/autopilot/backcourse_on"@
    } else if index == 22 {
        "sim/cockpit2/switches/yaw_damper_on"@
    } else if index == 23 {
        "sim/cockpit2/controls/parking_brake_ratio"@
    } else if index == 24 {
        "sim/cockpit2/gauges/indicators/airspeed_kts_pilot"@
    } else if index == 25 {
        "sim/cockpit2/gauges/indicators/ground_speed_kts"@
    } else if index == 26 {
        "sim/cockpit2/gauges/indicators/compass_heading_deg_mag"@
    } else if index == 27 {
        "sim/cockpit2/gauges/indicators/altitude_ft_pilot"@
    } else if index == 28 {
        "sim/flightmodel/position/latitude"@
    } else if index == 29 {
        "sim/flightmodel/position/longitude"@
    } else {
        Seq::empty()
    }
}

/// Looks a path up by its 1-based subscription index: a path for every valid
/// index, nothing for 0 or past the table. Every path is plain ASCII and far
/// shorter than a subscription frame's path field.
pub fn dataref_path(index: u32) -> (r: Option<&'static str>)
    ensures
        r is Some <==> 1 <= index <= DATAREF_TABLE_LEN,
        r matches Some(p) ==> p@ == spec_dataref_path(index as int)
            && vstd::string::is_ascii(p) && p@.len() < 60,
{
    let r: Option<&'static str> = if index == 1 {
        Some("sim/aircraft/gear/acf_gear_retract")
    } else if index == 2 {
        Some("sim/cockpit2/annunciators/gear_unsafe")
    } else if index == 3 {
        Some("sim/cockpit2/controls/gear_handle_down")
    } else if index == 4 {
        Some("sim/cockpit2/switches/avionics_power_on")
    } else if index == 5 {
        Some("sim/cockpit2/switches/navigation_lights_on")
    } else if index == 6 {
        Some("sim/cockpit2/switches/beacon_on")
    } else if index == 7 {
        Some("sim/cockpit2/switches/strobe_lights_on")
    } else if index == 8 {
        Some("sim/cockpit2/switches/taxi_light_on")
    } else if index == 9 {
        Some("sim/cockpit2/switches/landing_lights_switch[0]")
    } else if index == 10 {
        Some("sim/cockpit2/switches/landing_lights_switch[1]")
    } else if index == 11 {
        Some("sim/cockpit2/ice/ice_pitot_heat_on_pilot")
    } else if index == 12 {
        Some("sim/cockpit2/ice/ice_pitot_heat_on_copilot")
    } else if index == 13 {
        Some("sim/cockpit2/ice/ice_AOA_heat_on")
    } else if index == 14 {
        Some("sim/cockpit2/ice/ice_prop_heat_on")
    } else if index == 15 {
        Some("sim/cockpit2/ice/ice_window_heat_on")
    } else if index == 16 {
        Some("sim/cockpit2/autopilot/flight_director_mode")
    } else if index == 17 {
        Some("sim/cockpit2/autopilot/heading_mode")
    } else if index == 18 {
        Some("sim/cockpit2/autopilot/altitude_hold_status")
    } else if index == 19 {
        Some("sim/cockpit2/autopilot/glideslope_armed")
    } else if index == 20 {
        Some("sim/cockpit2/autopilot/hnav_armed")
    } else if index == 21 {
        Some("sim/cockpit2/autopilot/backcourse_on")
    } else if index == 22 {
        Some("sim/cockpit2/switches/yaw_damper_on")
    } else if index == 23 {
        Some("sim/cockpit2/controls/parking_brake_ratio")
    } else if index == 24 {
        Some("sim/cockpit2/gauges/indicators/airspeed_kts_pilot")
    } else if index == 25 {
        Some("sim/cockpit2/gauges/indicators/ground_speed_kts")
    } else if index == 26 {
        Some("sim/cockpit2/gauges/indicators/compass_heading_deg_mag")
    } else if index == 27 {
        Some("sim/cockpit2/gauges/indicators/altitude_ft_pilot")
    } else if index == 28 {
        Some("sim/flightmodel/position/latitude")
    } else if index == 29 {
        Some("sim/flightmodel/position/longitude")
    } else {
        None
    };
    proof {
        reveal_strlit("sim/aircraft/gear/acf_gear_retract");
        reveal_strlit("sim/cockpit2/annunciators/gear_unsafe");
        reveal_strlit("sim/cockpit2/controls/gear_handle_down");
        reveal_strlit("sim/cockpit2/switches/avionics_power_on");
        reveal_strlit("sim/cockpit2/switches/navigation_lights_on");
        reveal_strlit("sim/cockpit2/switches/beacon_on");
        reveal_strlit("sim/cockpit2/switches/strobe_lights_on");
        reveal_strlit("sim/cockpit2/switches/taxi_light_on");
        reveal_strlit("sim/cockpit2/switches/landing_lights_switch[0]");
        reveal_strlit("sim/cockpit2/switches/landing_lights_switch[1]");
        reveal_strlit("sim/cockpit2/ice/ice_pitot_heat_on_pilot");
        reveal_strlit("sim/cockpit2/ice/ice_pitot_heat_on_copilot");
        reveal_strlit("sim/cockpit2/ice/ice_AOA_heat_on");
        reveal_strlit("sim/cockpit2/ice/ice_prop_heat_on");
        reveal_strlit("sim/cockpit2/ice/ice_window_heat_on");
        reveal_strlit("sim/cockpit2/autopilot/flight_director_mode");
        reveal_strlit("sim/cockpit2/autopilot/heading_mode");
        reveal_strlit("sim/cockpit2/autopilot/altitude_hold_status");
        reveal_strlit("sim/cockpit2/autopilot/glideslope_armed");
        reveal_strlit("sim/cockpit2/autopilot/hnav_armed");
        reveal_strlit("sim/cockpit2/autopilot/backcourse_on");
        reveal_strlit("sim/cockpit2/switches/yaw_damper_on");
        reveal_strlit("sim/cockpit2/controls/parking_brake_ratio");
        reveal_strlit("sim/cockpit2/gauges/indicators/airspeed_kts_pilot");
        reveal_strlit("sim/cockpit2/gauges/indicators/ground_speed_kts");
        reveal_strlit("sim/cockpit2/gauges/indicators/compass_heading_deg_mag");
        reveal_strlit("sim/cockpit2/gauges/indicators/altitude_ft_pilot");
        reveal_strlit("sim/flightmodel/position/latitude");
        reveal_strlit("sim/flightmodel/position/longitude");
    }
    r
}

/// Builds the full resubscription burst: one subscription frame for every
/// entry of the dataref table, each under the index equal to its 1-based
/// position, all at the same frequency.
pub fn subscribe_frames(freq: u32) -> (r: Vec<Vec<u8>>)
    ensures
        r@.len() == DATAREF_TABLE_LEN,
        forall|i: int|
            0 <= i < r@.len() ==> (#[trigger] r@[i])@ == spec_subscribe_bytes(
                freq,
                (i + 1) as u32,
                vstd::utf8::encode_utf8(spec_dataref_path(i + 1)),
            ),
        forall|i: int| 0 <= i < r@.len() ==> (#[trigger] r@[i])@.len() == SUBSCRIBE_FRAME_LEN,
{
    let mut out: Vec<Vec<u8>> = Vec::new();
    let mut index: u32 = 1;
    while index <= DATAREF_TABLE_LEN
        invariant
            1 <= index <= DATAREF_TABLE_LEN + 1,
            out@.len() == index - 1,
            forall|i: int|
                0 <= i < out@.len() ==> (#[trigger] out@[i])@ == spec_subscribe_bytes(
                    freq,
                    (i + 1) as u32,
                    vstd::utf8::encode_utf8(spec_dataref_path(i + 1)),
                ),
            forall|i: int| 0 <= i < out@.len() ==> (#[trigger] out@[i])@.len() == SUBSCRIBE_FRAME_LEN,
        decreases DATAREF_TABLE_LEN + 1 - index,
    {
        let path = match dataref_path(index) {
            Some(p) => p,
            None => {
                proof {
                    assert(false);
                }
                ""
            },
        };
        proof {
            vstd::utf8::is_ascii_chars_encode_utf8(path@);
            assert(path.spec_bytes().len() < SUBSCRIBE_PATH_LEN);
        }
        let frame = encode_subscribe(freq, index, path);
        out.push(frame);
        index += 1;
    }
    out
}

} // verus!
