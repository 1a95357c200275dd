//! Tests of the wire-protocol codec: beacon and subscription round trips,
//! command framing, and datagram decoding.

use xplane_bridge::codec::{
    decode_beacon, decode_frames, decode_subscribe, encode_beacon, encode_command,
    encode_subscribe, handle_input, Beacon, Frame, BEACON_FRAME_LEN, SUBSCRIBE_FRAME_LEN,
};
use xplane_bridge::dataref_table::{dataref_path, subscribe_frames, DATAREF_TABLE_LEN};
use xplane_bridge::xpc_types::ReceivedDatarefs;

fn testbeacon() -> Beacon {
    Beacon {
        major_version: 1,
        minor_version: 1,
        application_host_id: 1,
        version_number: 12101,
        role: 1,
        port: 49000,
        computer_name: "Just testing".as_bytes().to_vec(),
    }
}

#[test]
fn test_create_and_parse_beacon_data() {
    let bytes = encode_beacon(&testbeacon());

    let r = decode_beacon(&bytes).unwrap();
    assert_eq!(r.port, 49000);
    assert_eq!(String::from_utf8(r.computer_name).unwrap(), "Just testing");
}

#[test]
fn beacon_frame_shape() {
    let bytes = encode_beacon(&testbeacon());
    assert_eq!(bytes.len(), BEACON_FRAME_LEN);
    assert_eq!(&bytes[0..5], b"BECN\0");

    let r = decode_beacon(&bytes).unwrap();
    assert_eq!(r.major_version, 1);
    assert_eq!(r.minor_version, 1);
    assert_eq!(r.application_host_id, 1);
    assert_eq!(r.version_number, 12101);
    assert_eq!(r.role, 1);
}

#[test]
fn beacon_rejects_garbage() {
    assert!(decode_beacon(b"not a beacon at all, much too short").is_none());
    assert!(decode_beacon(&[0u8; 600]).is_none());
}

#[test]
fn subscribe_round_trip_index_5() {
    let path = dataref_path(5).unwrap();
    let bytes = encode_subscribe(3, 5, path);
    assert_eq!(bytes.len(), 413);

    let (freq, index, decoded_path) = decode_subscribe(&bytes).unwrap();
    assert_eq!(freq, 3);
    assert_eq!(index, 5);
    assert_eq!(decoded_path, path.as_bytes().to_vec());
}

#[test]
fn subscribe_frames_cover_the_table() {
    let frames = subscribe_frames(3);
    assert_eq!(frames.len() as u32, DATAREF_TABLE_LEN);
    for (i, frame) in frames.iter().enumerate() {
        assert_eq!(frame.len(), SUBSCRIBE_FRAME_LEN);
        let (freq, index, path) = decode_subscribe(frame).unwrap();
        assert_eq!(freq, 3);
        assert_eq!(index as usize, i + 1);
        assert_eq!(path, dataref_path(index).unwrap().as_bytes().to_vec());
    }
}

#[test]
fn command_frame_shape() {
    let bytes = encode_command("sim/lights/beacon_lights_toggle");
    let mut expected = b"CMND0".to_vec();
    expected.extend_from_slice(b"sim/lights/beacon_lights_toggle");
    expected.push(0);
    assert_eq!(bytes, expected);
}

fn rref_datagram(pairs: &[(u32, f32)]) -> Vec<u8> {
    let mut out = b"RREF".to_vec();
    out.push(0);
    for (id, value) in pairs {
        out.extend_from_slice(&id.to_le_bytes());
        out.extend_from_slice(&value.to_le_bytes());
    }
    out
}

#[test]
fn decode_frames_reads_reply_pairs() {
    let datagram = rref_datagram(&[(23, 0.5), (24, 131.0)]);
    let frames = decode_frames(&datagram);
    assert_eq!(frames.len(), 1);
    match &frames[0] {
        Frame::Rref(values) => {
            assert_eq!(values.len(), 2);
            assert_eq!(values[0].id, 23);
            assert_eq!(values[0].value_bits, (0.5f32).to_bits());
            assert_eq!(values[1].id, 24);
            assert_eq!(values[1].value_bits, (131.0f32).to_bits());
        }
        other => panic!("Got unexpected frame {:?}", other),
    }
}

#[test]
fn decode_frames_reads_data_frame_then_stops_on_garbage() {
    let mut datagram = b"DATA".to_vec();
    for word in 0u32..9 {
        datagram.extend_from_slice(&word.to_le_bytes());
    }
    datagram.extend_from_slice(b"garbage tail that parses as no frame");
    let frames = decode_frames(&datagram);
    assert_eq!(frames.len(), 1);
    match &frames[0] {
        Frame::Data(values) => {
            assert_eq!(values.len(), 9);
            assert_eq!(values[0], 0);
            assert_eq!(values[8], 8);
        }
        other => panic!("Got unexpected frame {:?}", other),
    }
}

#[test]
fn decode_frames_rejects_empty_and_garbage() {
    assert_eq!(decode_frames(&[]).len(), 0);
    assert_eq!(decode_frames(b"XXXX").len(), 0);
}

#[test]
fn handle_input_ignores_unknown_index_and_keeps_going() {
    // One reply holding an invalid index 0, an index past the table, and a
    // valid parking-brake pair after them: the invalid pairs must not abort
    // the rest.
    let datagram = rref_datagram(&[(0, 1.0), (999, 1.0), (23, 0.5)]);
    let mut snapshot = ReceivedDatarefs::default();
    handle_input(&datagram, &mut snapshot);

    let mut expected = ReceivedDatarefs::default();
    expected.parking_brake = true;
    assert_eq!(snapshot, expected);
}

#[test]
fn handle_input_applies_several_pairs() {
    let datagram = rref_datagram(&[(5, 1.0), (24, 100.5), (28, 51.5)]);
    let mut snapshot = ReceivedDatarefs::default();
    handle_input(&datagram, &mut snapshot);

    assert!(snapshot.navigation_lights);
    assert_eq!(snapshot.ias, (100.5f32).to_bits());
    assert_eq!(snapshot.lat, Some((51.5f32).to_bits()));
    assert_eq!(snapshot.lon, None);
}
