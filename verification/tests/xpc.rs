//! Tests of the field-mapping rules from reply values to the snapshot.

use xplane_bridge::xpc_types::{
    boolv, boolv_with_limit, handle_dataref, handle_datarefs, DatarefValue, ReceivedDatarefs,
    PARKING_BRAKE_THRESHOLD_BITS,
};

#[test]
fn parking_brake_tolerates_idle_ratio() {
    let mut snapshot = ReceivedDatarefs::default();
    handle_dataref(23, (0.05f32).to_bits(), &mut snapshot);
    assert!(!snapshot.parking_brake);

    handle_dataref(23, (0.5f32).to_bits(), &mut snapshot);
    assert!(snapshot.parking_brake);
}

#[test]
fn flight_director_derives_two_booleans() {
    let mut snapshot = ReceivedDatarefs::default();
    handle_dataref(16, (2.5f32).to_bits(), &mut snapshot);
    assert!(snapshot.autopilot_flight_director);
    assert!(snapshot.autopilot_engaged);

    let mut snapshot = ReceivedDatarefs::default();
    handle_dataref(16, (1.0f32).to_bits(), &mut snapshot);
    assert!(snapshot.autopilot_flight_director);
    assert!(!snapshot.autopilot_engaged);

    let mut snapshot = ReceivedDatarefs::default();
    handle_dataref(16, (2.0f32).to_bits(), &mut snapshot);
    assert!(snapshot.autopilot_engaged);

    let mut snapshot = ReceivedDatarefs::default();
    handle_dataref(16, (0.0f32).to_bits(), &mut snapshot);
    assert!(!snapshot.autopilot_flight_director);
    assert!(!snapshot.autopilot_engaged);
}

#[test]
fn unknown_index_leaves_snapshot_unchanged() {
    let mut snapshot = ReceivedDatarefs::default();
    handle_dataref(0, (1.0f32).to_bits(), &mut snapshot);
    assert_eq!(snapshot, ReceivedDatarefs::default());

    handle_dataref(30, (1.0f32).to_bits(), &mut snapshot);
    assert_eq!(snapshot, ReceivedDatarefs::default());

    handle_dataref(u32::MAX, (1.0f32).to_bits(), &mut snapshot);
    assert_eq!(snapshot, ReceivedDatarefs::default());
}

#[test]
fn boolean_fields_follow_nonzero() {
    let mut snapshot = ReceivedDatarefs::default();
    handle_dataref(6, (0.0f32).to_bits(), &mut snapshot);
    assert!(!snapshot.beacon);
    handle_dataref(6, (1.0f32).to_bits(), &mut snapshot);
    assert!(snapshot.beacon);
    handle_dataref(6, (-1.0f32).to_bits(), &mut snapshot);
    assert!(snapshot.beacon);
    handle_dataref(6, (-0.0f32).to_bits(), &mut snapshot);
    assert!(!snapshot.beacon);
}

#[test]
fn gauges_store_the_wire_encoding() {
    let mut snapshot = ReceivedDatarefs::default();
    handle_dataref(24, (123.25f32).to_bits(), &mut snapshot);
    handle_dataref(26, (359.0f32).to_bits(), &mut snapshot);
    handle_dataref(27, (1500.0f32).to_bits(), &mut snapshot);
    assert_eq!(f32::from_bits(snapshot.ias), 123.25);
    assert_eq!(f32::from_bits(snapshot.mag_heading), 359.0);
    assert_eq!(f32::from_bits(snapshot.altitude), 1500.0);
}

#[test]
fn boolv_matches_float_comparisons() {
    for v in [-2.5f32, -0.0, 0.0, 0.05, 0.1, 0.2, 1.0, 2.0, f32::INFINITY] {
        assert_eq!(boolv(v.to_bits()), v != 0.0, "boolv at {}", v);
        assert_eq!(
            boolv_with_limit(v.to_bits(), PARKING_BRAKE_THRESHOLD_BITS),
            v > 0.1,
            "threshold at {}",
            v
        );
    }
    assert_eq!(boolv(f32::NAN.to_bits()), f32::NAN != 0.0);
    assert_eq!(
        boolv_with_limit(f32::NAN.to_bits(), PARKING_BRAKE_THRESHOLD_BITS),
        f32::NAN > 0.1
    );
}

#[test]
fn handle_datarefs_applies_in_order() {
    let mut snapshot = ReceivedDatarefs::default();
    let values = vec![
        DatarefValue {
            id: 9,
            value_bits: (1.0f32).to_bits(),
        },
        DatarefValue {
            id: 9,
            value_bits: (0.0f32).to_bits(),
        },
        DatarefValue {
            id: 10,
            value_bits: (1.0f32).to_bits(),
        },
    ];
    handle_datarefs(&values, &mut snapshot);
    assert!(!snapshot.landing_lights_1);
    assert!(snapshot.landing_lights_2);
}
