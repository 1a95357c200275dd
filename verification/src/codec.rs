//! The simulator wire-protocol codec: pure functions between frames and
//! bytes. Every frame is little-endian and magic-tagged; strings are
//! NUL-terminated and, where the format says so, right-padded with zeroes to
//! a fixed width. No I/O and no state lives here.

use vstd::prelude::*;

use vstd::bytes::{
    lemma_auto_spec_u16_to_from_le_bytes, lemma_auto_spec_u32_to_from_le_bytes,
    spec_u16_to_le_bytes, spec_u16_from_le_bytes, spec_u32_to_le_bytes, spec_u32_from_le_bytes,
    u16_from_le_bytes, u16_to_le_bytes, u32_from_le_bytes, u32_to_le_bytes,
};
use vstd::slice::slice_subrange;
use vstd::string::StringSliceAdditionalSpecFns;

use crate::xpc_types::{handle_datarefs, spec_apply_values, DatarefValue, ReceivedDatarefs};

verus! {

broadcast use vstd::seq::group_seq_axioms;

/// Total size of an encoded subscription request.
pub const SUBSCRIBE_FRAME_LEN: usize = 413;

/// Width the subscription path field is padded to.
pub const SUBSCRIBE_PATH_LEN: usize = 400;

/// Total size of an encoded discovery beacon.
pub const BEACON_FRAME_LEN: usize = 521;

/// Width the beacon's computer-name field is padded to.
pub const BEACON_NAME_LEN: usize = 500;

/// Magic tag of an outbound subscription request.
pub open spec fn subscribe_magic() -> Seq<u8> {
    seq!['R' as u8, 'R' as u8, 'E' as u8, 'F' as u8, 0u8]
}

/// Magic tag of an outbound command frame.
pub open spec fn command_magic() -> Seq<u8> {
    seq!['C' as u8, 'M' as u8, 'N' as u8, 'D' as u8, '0' as u8]
}

/// Magic tag of a discovery beacon.
pub open spec fn beacon_magic() -> Seq<u8> {
    seq!['B' as u8, 'E' as u8, 'C' as u8, 'N' as u8, 0u8]
}

/// Magic tag of an inbound legacy data frame.
pub open spec fn data_magic() -> Seq<u8> {
    seq!['D' as u8, 'A' as u8, 'T' as u8, 'A' as u8]
}

/// Magic tag of an inbound telemetry reply.
pub open spec fn rref_reply_magic() -> Seq<u8> {
    seq!['R' as u8, 'R' as u8, 'E' as u8, 'F' as u8]
}

/// A run of zero bytes.
pub open spec fn zeroes(n: int) -> Seq<u8> {
    Seq::new(n as nat, |i: int| 0u8)
}

/// Little-endian bytes of a signed 32-bit field: those of its two's
/// complement encoding.
pub open spec fn spec_i32_to_le_bytes(x: i32) -> Seq<u8> {
    spec_u32_to_le_bytes(x as u32)
}

/// The signed 32-bit field read back from little-endian bytes.
pub open spec fn spec_i32_from_le_bytes(s: Seq<u8>) -> i32 {
    spec_u32_from_le_bytes(s) as i32
}

/// Round trip of the two's complement view of a signed 32-bit field.
proof fn lemma_i32_le_bytes_round_trip(x: i32)
    ensures
        spec_i32_from_le_bytes(spec_i32_to_le_bytes(x)) == x,
        spec_i32_to_le_bytes(x).len() == 4,
{
    lemma_auto_spec_u32_to_from_le_bytes();
    assert((x as u32) as i32 == x) by (bit_vector);
}

/// Index of the first zero byte, or the length when there is none: how far
/// a NUL-terminated string field reaches.
pub open spec fn nul_pos(b: Seq<u8>) -> int
    decreases b.len(),
{
    if b.len() == 0 {
        0
    } else if b[0] == 0 {
        0
    } else {
        1 + nul_pos(b.drop_first())
    }
}

/// A scan that saw no zero byte before `i`, and a zero at `i` or the end,
/// found exactly `nul_pos`.
pub proof fn lemma_nul_pos_is(b: Seq<u8>, i: int)
    requires
        0 <= i <= b.len(),
        forall|j: int| 0 <= j < i ==> b[j] != 0,
        i < b.len() ==> b[i] == 0,
    ensures
        nul_pos(b) == i,
    decreases b.len(),
{
    if b.len() == 0 {
    } else if b[0] == 0 {
    } else {
        assert(i > 0);
        assert forall|j: int| 0 <= j < i - 1 implies b.drop_first()[j] != 0 by {
            assert(b[j + 1] != 0);
        }
        lemma_nul_pos_is(b.drop_first(), i - 1);
    }
}

/// The bytes of a NUL-terminated string field: everything before the first
/// zero byte.
pub open spec fn spec_nul_string(b: Seq<u8>) -> Seq<u8> {
    b.take(nul_pos(b))
}

/// Reads the NUL-terminated string out of a padded field.
fn read_nul_string(buf: &[u8], start: usize, end: usize) -> (r: Vec<u8>)
    requires
        start <= end <= buf@.len(),
    ensures
        r@ == spec_nul_string(buf@.subrange(start as int, end as int)),
{
    let ghost region = buf@.subrange(start as int, end as int);
    let mut out: Vec<u8> = Vec::new();
    let mut i: usize = start;
    while i < end && *vstd::slice::slice_index_get(buf, i) != 0
        invariant
            region == buf@.subrange(start as int, end as int),
            start <= i <= end <= buf@.len(),
            out@ == region.take(i - start),
            forall|j: int| 0 <= j < i - start ==> region[j] != 0,
        decreases end - i,
    {
        proof {
            assert(region[i - start] == buf@[i as int]);
        }
        out.push(buf[i]);
        proof {
            assert(out@ =~= region.take(i + 1 - start));
        }
        i += 1;
    }
    proof {
        lemma_nul_pos_is(region, i - start);
    }
    out
}

/// An encoded subscription request: magic, frequency, 1-based table index,
/// and the dataref path padded with zeroes to its fixed width.
pub open spec fn spec_subscribe_bytes(freq: u32, index: u32, path: Seq<u8>) -> Seq<u8> {
    subscribe_magic() + spec_u32_to_le_bytes(freq) + spec_u32_to_le_bytes(index) + path + zeroes(
        SUBSCRIBE_PATH_LEN - path.len(),
    )
}

/// Encodes a subscription request for `path` under `index`. The result is
/// always exactly one frame of the fixed subscription size.
pub fn encode_subscribe(freq: u32, index: u32, path: &str) -> (r: Vec<u8>)
    requires
        path.spec_bytes().len() < SUBSCRIBE_PATH_LEN,
    ensures
        r@ == spec_subscribe_bytes(freq, index, path.spec_bytes()),
        r@.len() == SUBSCRIBE_FRAME_LEN,
{
    let bytes = path.as_bytes();
    let mut out: Vec<u8> = Vec::new();
    out.push('R' as u8);
    out.push('R' as u8);
    out.push('E' as u8);
    out.push('F' as u8);
    out.push(0);
    let mut freq_bytes = u32_to_le_bytes(freq);
    out.append(&mut freq_bytes);
    let mut index_bytes = u32_to_le_bytes(index);
    out.append(&mut index_bytes);
    let ghost header = subscribe_magic() + spec_u32_to_le_bytes(freq) + spec_u32_to_le_bytes(index);
    proof {
        assert(out@ =~= header);
    }
    out.extend_from_slice(bytes);
    proof {
        assert(out@ =~= header + path.spec_bytes());
    }
    let mut pad: usize = bytes.len();
    while pad < SUBSCRIBE_PATH_LEN
        invariant
            path.spec_bytes().len() <= pad <= SUBSCRIBE_PATH_LEN,
            out@ == header + path.spec_bytes() + zeroes(pad - path.spec_bytes().len()),
        decreases SUBSCRIBE_PATH_LEN - pad,
    {
        out.push(0);
        proof {
            assert(out@ =~= header + path.spec_bytes() + zeroes(
                pad + 1 - path.spec_bytes().len(),
            ));
        }
        pad += 1;
    }
    proof {
        assert(out@ =~= spec_subscribe_bytes(freq, index, path.spec_bytes()));
    }
    out
}

/// What an encoded subscription request decodes back to: the frequency, the
/// index, and the path up to its NUL terminator. Anything that is not
/// exactly one well-tagged subscription frame is refused.
pub open spec fn spec_parse_subscribe(b: Seq<u8>) -> Option<(u32, u32, Seq<u8>)> {
    if b.len() == SUBSCRIBE_FRAME_LEN && b.take(5) == subscribe_magic() {
        Some(
            (
                spec_u32_from_le_bytes(b.subrange(5, 9)),
                spec_u32_from_le_bytes(b.subrange(9, 13)),
                spec_nul_string(b.skip(13)),
            ),
        )
    } else {
        None
    }
}

/// Decodes a subscription request frame.
pub fn decode_subscribe(buf: &[u8]) -> (r: Option<(u32, u32, Vec<u8>)>)
    ensures
        r is Some <==> spec_parse_subscribe(buf@) is Some,
        r matches Some((freq, index, path)) ==> spec_parse_subscribe(buf@) == Some(
            (freq, index, path@),
        ),
{
    if buf.len() != SUBSCRIBE_FRAME_LEN {
        return None;
    }
    if !(buf[0] == 'R' as u8 && buf[1] == 'R' as u8 && buf[2] == 'E' as u8 && buf[3] == 'F' as u8
        && buf[4] == 0) {
        proof {
            assert(buf@.take(5) != subscribe_magic());
        }
        return None;
    }
    proof {
        assert(buf@.take(5) =~= subscribe_magic());
    }
    let freq = u32_from_le_bytes(slice_subrange(buf, 5, 9));
    let index = u32_from_le_bytes(slice_subrange(buf, 9, 13));
    let path = read_nul_string(buf, 13, SUBSCRIBE_FRAME_LEN);
    proof {
        assert(buf@.subrange(13, SUBSCRIBE_FRAME_LEN as int) =~= buf@.skip(13));
    }
    Some((freq, index, path))
}

/// Law: protocol round trip. Encoding a subscription for any NUL-free path
/// that fits the path field and decoding the bytes again recovers the
/// frequency, the index and the exact path.
pub proof fn lemma_subscribe_round_trip(freq: u32, index: u32, path: Seq<u8>)
    requires
        0 < path.len() < SUBSCRIBE_PATH_LEN,
        !path.contains(0),
    ensures
        spec_parse_subscribe(spec_subscribe_bytes(freq, index, path)) == Some(
            (freq, index, path),
        ),
{
    lemma_auto_spec_u32_to_from_le_bytes();
    let b = spec_subscribe_bytes(freq, index, path);
    assert(b.len() == SUBSCRIBE_FRAME_LEN);
    assert(b.take(5) =~= subscribe_magic());
    assert(b.subrange(5, 9) =~= spec_u32_to_le_bytes(freq));
    assert(b.subrange(9, 13) =~= spec_u32_to_le_bytes(index));
    let field = b.skip(13);
    assert(field =~= path + zeroes(SUBSCRIBE_PATH_LEN - path.len()));
    assert forall|j: int| 0 <= j < path.len() implies field[j] != 0 by {
        assert(path[j] != 0);
    }
    assert(field[path.len() as int] == 0);
    lemma_nul_pos_is(field, path.len() as int);
    assert(spec_nul_string(field) =~= path);
}

/// An encoded command frame: magic, the command name, one NUL terminator,
/// no padding.
pub open spec fn spec_command_bytes(cmd: Seq<u8>) -> Seq<u8> {
    command_magic() + cmd + seq![0u8]
}

/// Encodes a command frame for the simulator.
pub fn encode_command(command: &str) -> (r: Vec<u8>)
    ensures
        r@ == spec_command_bytes(command.spec_bytes()),
{
    let bytes = command.as_bytes();
    let mut out: Vec<u8> = Vec::new();
    out.push('C' as u8);
    out.push('M' as u8);
    out.push('N' as u8);
    out.push('D' as u8);
    out.push('0' as u8);
    out.extend_from_slice(bytes);
    out.push(0);
    proof {
        assert(out@ =~= spec_command_bytes(command.spec_bytes()));
    }
    out
}

/// A decoded discovery beacon: who is broadcasting, where, and under what
/// name.
#[derive(Debug)]
pub struct Beacon {
    pub major_version: u8,
    pub minor_version: u8,
    pub application_host_id: i32,
    pub version_number: i32,
    pub role: u32,
    pub port: u16,
    pub computer_name: Vec<u8>,
}

/// An encoded beacon: magic, the two version bytes, host id, version
/// number, role, port, and the computer name padded with zeroes to its
/// fixed width.
pub open spec fn spec_beacon_bytes(
    major_version: u8,
    minor_version: u8,
    application_host_id: i32,
    version_number: i32,
    role: u32,
    port: u16,
    name: Seq<u8>,
) -> Seq<u8> {
    beacon_magic() + seq![major_version, minor_version] + spec_i32_to_le_bytes(
        application_host_id,
    ) + spec_i32_to_le_bytes(version_number) + spec_u32_to_le_bytes(role) + spec_u16_to_le_bytes(
        port,
    ) + name + zeroes(BEACON_NAME_LEN - name.len())
}

/// Encodes a discovery beacon. The result is always exactly one frame of
/// the fixed beacon size.
pub fn encode_beacon(beacon: &Beacon) -> (r: Vec<u8>)
    requires
        beacon.computer_name@.len() < BEACON_NAME_LEN,
    ensures
        r@ == spec_beacon_bytes(
            beacon.major_version,
            beacon.minor_version,
            beacon.application_host_id,
            beacon.version_number,
            beacon.role,
            beacon.port,
            beacon.computer_name@,
        ),
        r@.len() == BEACON_FRAME_LEN,
{
    let mut out: Vec<u8> = Vec::new();
    out.push('B' as u8);
    out.push('E' as u8);
    out.push('C' as u8);
    out.push('N' as u8);
    out.push(0);
    out.push(beacon.major_version);
    out.push(beacon.minor_version);
    let mut host_bytes = u32_to_le_bytes(beacon.application_host_id as u32);
    out.append(&mut host_bytes);
    let mut version_bytes = u32_to_le_bytes(beacon.version_number as u32);
    out.append(&mut version_bytes);
    let mut role_bytes = u32_to_le_bytes(beacon.role);
    out.append(&mut role_bytes);
    let mut port_bytes = u16_to_le_bytes(beacon.port);
    out.append(&mut port_bytes);
    let ghost header = beacon_magic() + seq![beacon.major_version, beacon.minor_version]
        + spec_i32_to_le_bytes(beacon.application_host_id) + spec_i32_to_le_bytes(
        beacon.version_number,
    ) + spec_u32_to_le_bytes(beacon.role) + spec_u16_to_le_bytes(beacon.port);
    proof {
        assert(out@ =~= header);
    }
    out.extend_from_slice(beacon.computer_name.as_slice());
    proof {
        assert(out@ =~= header + beacon.computer_name@);
    }
    let name_len = beacon.computer_name.len();
    let mut pad: usize = name_len;
    while pad < BEACON_NAME_LEN
        invariant
            beacon.computer_name@.len() <= pad <= BEACON_NAME_LEN,
            out@ == header + beacon.computer_name@ + zeroes(pad - beacon.computer_name@.len()),
        decreases BEACON_NAME_LEN - pad,
    {
        out.push(0);
        proof {
            assert(out@ =~= header + beacon.computer_name@ + zeroes(
                pad + 1 - beacon.computer_name@.len(),
            ));
        }
        pad += 1;
    }
    proof {
        assert(out@ =~= spec_beacon_bytes(
            beacon.major_version,
            beacon.minor_version,
            beacon.application_host_id,
            beacon.version_number,
            beacon.role,
            beacon.port,
            beacon.computer_name@,
        ));
    }
    out
}

/// The slice of a beacon datagram that holds the padded computer-name
/// field: the fixed width where the datagram offers it, the rest of the
/// datagram where it is shorter.
pub open spec fn beacon_name_region(b: Seq<u8>) -> Seq<u8> {
    if b.len() < 21 + BEACON_NAME_LEN {
        b.skip(21)
    } else {
        b.subrange(21, 21 + BEACON_NAME_LEN as int)
    }
}

/// What a received beacon datagram decodes to. A buffer is accepted when it
/// opens with the beacon magic and holds the fixed fields; the name is read
/// up to its NUL terminator within what the buffer offers of the padded
/// field.
pub open spec fn spec_parse_beacon(b: Seq<u8>) -> Option<(u8, u8, i32, i32, u32, u16, Seq<u8>)> {
    if b.len() >= 21 && b.take(5) == beacon_magic() {
        Some(
            (
                b[5],
                b[6],
                spec_i32_from_le_bytes(b.subrange(7, 11)),
                spec_i32_from_le_bytes(b.subrange(11, 15)),
                spec_u32_from_le_bytes(b.subrange(15, 19)),
                spec_u16_from_le_bytes(b.subrange(19, 21)),
                spec_nul_string(beacon_name_region(b)),
            ),
        )
    } else {
        None
    }
}

/// Decodes a discovery beacon out of a received datagram. A malformed
/// datagram yields nothing and is simply dropped by the caller.
pub fn decode_beacon(buf: &[u8]) -> (r: Option<Beacon>)
    ensures
        r is Some <==> spec_parse_beacon(buf@) is Some,
        r matches Some(beacon) ==> spec_parse_beacon(buf@) == Some(
            (
                beacon.major_version,
                beacon.minor_version,
                beacon.application_host_id,
                beacon.version_number,
                beacon.role,
                beacon.port,
                beacon.computer_name@,
            ),
        ),
{
    if buf.len() < 21 {
        return None;
    }
    if !(buf[0] == 'B' as u8 && buf[1] == 'E' as u8 && buf[2] == 'C' as u8 && buf[3] == 'N' as u8
        && buf[4] == 0) {
        proof {
            assert(buf@.take(5) != beacon_magic());
        }
        return None;
    }
    proof {
        assert(buf@.take(5) =~= beacon_magic());
    }
    let major_version = buf[5];
    let minor_version = buf[6];
    let application_host_id = u32_from_le_bytes(slice_subrange(buf, 7, 11)) as i32;
    let version_number = u32_from_le_bytes(slice_subrange(buf, 11, 15)) as i32;
    let role = u32_from_le_bytes(slice_subrange(buf, 15, 19));
    let port = u16_from_le_bytes(slice_subrange(buf, 19, 21));
    let name_end = if buf.len() < 21 + BEACON_NAME_LEN {
        buf.len()
    } else {
        21 + BEACON_NAME_LEN
    };
    let computer_name = read_nul_string(buf, 21, name_end);
    proof {
        assert(buf@.subrange(21, name_end as int) =~= beacon_name_region(buf@));
    }
    Some(
        Beacon {
            major_version,
            minor_version,
            application_host_id,
            version_number,
            role,
            port,
            computer_name,
        },
    )
}

/// One decoded inbound frame: a legacy data frame (nine raw words, carried
/// for diagnostics only) or a telemetry reply (a run of index-value pairs).
#[derive(Debug)]
pub enum Frame {
    Data(Vec<u32>),
    Rref(Vec<DatarefValue>),
}

/// A frame as the contracts see it, with sequences for the payloads.
pub enum FrameView {
    Data(Seq<u32>),
    Rref(Seq<DatarefValue>),
}

/// The view of one decoded frame.
pub open spec fn frame_view(f: Frame) -> FrameView {
    match f {
        Frame::Data(values) => FrameView::Data(values@),
        Frame::Rref(values) => FrameView::Rref(values@),
    }
}

/// The view of a run of decoded frames.
pub open spec fn frames_view(frames: Seq<Frame>) -> Seq<FrameView> {
    frames.map_values(|f: Frame| frame_view(f))
}

/// A run of little-endian words read off the front of a buffer.
pub open spec fn spec_parse_u32s(b: Seq<u8>, n: int) -> Seq<u32>
    decreases n,
{
    if n <= 0 {
        Seq::empty()
    } else {
        seq![spec_u32_from_le_bytes(b.take(4))] + spec_parse_u32s(b.skip(4), n - 1)
    }
}

/// The index-value pairs of a telemetry reply: read until fewer than a full
/// pair of words remains.
pub open spec fn spec_parse_values(b: Seq<u8>) -> Seq<DatarefValue>
    decreases b.len(),
{
    if b.len() < 8 {
        Seq::empty()
    } else {
        seq![
            DatarefValue {
                id: spec_u32_from_le_bytes(b.take(4)),
                value_bits: spec_u32_from_le_bytes(b.subrange(4, 8)),
            },
        ] + spec_parse_values(b.skip(8))
    }
}

/// How many bytes a telemetry reply's pair run consumes.
pub open spec fn spec_values_size(b: Seq<u8>) -> int {
    8 * (b.len() as int / 8)
}

/// What one datagram decodes to: frames parsed one after the other from the
/// front, stopping at the first position where no frame parses; any
/// remainder is discarded silently. A data frame is its magic and nine
/// words; a reply frame is its magic, one reserved byte, and all the whole
/// pairs the rest of the datagram holds.
pub open spec fn spec_parse_frames(b: Seq<u8>) -> Seq<FrameView>
    decreases b.len(),
{
    if b.len() >= 40 && b.take(4) == data_magic() {
        seq![FrameView::Data(spec_parse_u32s(b.skip(4), 9))] + spec_parse_frames(b.skip(40))
    } else if b.len() >= 5 && b.take(4) == rref_reply_magic() {
        seq![FrameView::Rref(spec_parse_values(b.skip(5)))] + spec_parse_frames(
            b.skip(5 + spec_values_size(b.skip(5))),
        )
    } else {
        Seq::empty()
    }
}

/// Reads `n` little-endian words starting at `off`.
fn read_u32s(buf: &[u8], off: usize, n: usize) -> (r: Vec<u32>)
    requires
        off + 4 * n <= buf@.len(),
    ensures
        r@ == spec_parse_u32s(buf@.skip(off as int), n as int),
{
    let total = buf.len();
    let mut out: Vec<u32> = Vec::new();
    let mut i: usize = 0;
    while i < n
        invariant
            total == buf@.len(),
            off + 4 * n <= total,
            i <= n,
            out@.len() == i,
            spec_parse_u32s(buf@.skip(off as int), n as int) == out@ + spec_parse_u32s(
                buf@.skip(off as int + 4 * i),
                n - i,
            ),
        decreases n - i,
    {
        let word = u32_from_le_bytes(slice_subrange(buf, off + 4 * i, off + 4 * i + 4));
        proof {
            let rest = buf@.skip(off as int + 4 * i);
            assert(rest.take(4) =~= buf@.subrange(off as int + 4 * i, off as int + 4 * i + 4));
            assert(rest.skip(4) =~= buf@.skip(off as int + 4 * (i + 1)));
            assert(out@.push(word) =~= out@ + seq![word]);
        }
        out.push(word);
        i += 1;
    }
    proof {
        assert(out@ + spec_parse_u32s(buf@.skip(off as int + 4 * i), 0) =~= out@);
    }
    out
}

/// Reads the pair run of a telemetry reply starting at `off`, consuming
/// every whole pair to the end of the buffer.
fn read_values(buf: &[u8], off: usize) -> (r: (Vec<DatarefValue>, usize))
    requires
        off <= buf@.len(),
    ensures
        r.0@ == spec_parse_values(buf@.skip(off as int)),
        r.1 == off + spec_values_size(buf@.skip(off as int)),
        off <= r.1 <= buf@.len(),
{
    let mut out: Vec<DatarefValue> = Vec::new();
    let mut i: usize = off;
    while buf.len() - i >= 8
        invariant
            off <= i <= buf@.len(),
            8 * ((i - off) as int / 8) == i - off,
            spec_parse_values(buf@.skip(off as int)) == out@ + spec_parse_values(
                buf@.skip(i as int),
            ),
        decreases buf@.len() - i,
    {
        let id = u32_from_le_bytes(slice_subrange(buf, i, i + 4));
        let value_bits = u32_from_le_bytes(slice_subrange(buf, i + 4, i + 8));
        proof {
            let rest = buf@.skip(i as int);
            assert(rest.take(4) =~= buf@.subrange(i as int, i + 4));
            assert(rest.subrange(4, 8) =~= buf@.subrange(i + 4, i + 8));
            assert(rest.skip(8) =~= buf@.skip(i + 8));
            assert(out@.push(DatarefValue { id, value_bits }) =~= out@ + seq![
                DatarefValue { id, value_bits },
            ]);
        }
        out.push(DatarefValue { id, value_bits });
        i += 8;
    }
    proof {
        assert(spec_parse_values(buf@.skip(i as int)) =~= Seq::<DatarefValue>::empty());
        assert(out@ + Seq::<DatarefValue>::empty() =~= out@);
        lemma_values_size(buf@.len() as int, off as int, i as int);
    }
    (out, i)
}

/// A scan that advanced in whole pairs and stopped with less than a pair
/// left consumed exactly the pair run's size.
proof fn lemma_values_size(len: int, off: int, i: int)
    requires
        off <= i <= len,
        i + 8 > len,
        8 * ((i - off) / 8) == i - off,
    ensures
        i - off == 8 * ((len - off) / 8),
{
    let k = (i - off) / 8;
    assert((len - off) / 8 == k) by (nonlinear_arith)
        requires
            i - off == 8 * k,
            i <= len,
            i + 8 > len,
            off <= i,
    ;
}

/// Decodes every frame of one received datagram, front to back, and drops
/// whatever tail does not parse.
pub fn decode_frames(buf: &[u8]) -> (r: Vec<Frame>)
    ensures
        frames_view(r@) == spec_parse_frames(buf@),
{
    let mut frames: Vec<Frame> = Vec::new();
    let mut off: usize = 0;
    proof {
        assert(buf@.skip(0) =~= buf@);
        assert(frames_view(frames@) =~= Seq::<FrameView>::empty());
        assert(frames_view(frames@) + spec_parse_frames(buf@) =~= spec_parse_frames(buf@));
    }
    loop
        invariant
            off <= buf@.len(),
            frames_view(frames@) + spec_parse_frames(buf@.skip(off as int)) == spec_parse_frames(
                buf@,
            ),
        ensures
            frames_view(frames@) == spec_parse_frames(buf@),
        decreases buf@.len() - off,
    {
        let remaining = buf.len() - off;
        let ghost rest = buf@.skip(off as int);
        if remaining >= 40 && buf[off] == 'D' as u8 && buf[off + 1] == 'A' as u8 && buf[off + 2]
            == 'T' as u8 && buf[off + 3] == 'A' as u8 {
            proof {
                assert(rest.take(4) =~= data_magic());
            }
            let values = read_u32s(buf, off + 4, 9);
            proof {
                assert(rest.skip(4) =~= buf@.skip(off + 4));
                assert(rest.skip(40) =~= buf@.skip(off + 40));
                assert(frames_view(frames@.push(Frame::Data(values))) =~= frames_view(frames@)
                    + seq![FrameView::Data(values@)]);
            }
            frames.push(Frame::Data(values));
            off += 40;
        } else if remaining >= 5 && buf[off] == 'R' as u8 && buf[off + 1] == 'R' as u8 && buf[off
            + 2] == 'E' as u8 && buf[off + 3] == 'F' as u8 {
            proof {
                assert(rest.take(4) =~= rref_reply_magic());
                assert(rest.take(4) != data_magic()) by {
                    assert(data_magic()[0] == 'D' as u8 && rref_reply_magic()[0] == 'R' as u8);
                }
            }
            let (values, next) = read_values(buf, off + 5);
            proof {
                assert(rest.skip(5) =~= buf@.skip(off + 5));
                assert(rest.skip(5 + spec_values_size(rest.skip(5))) =~= buf@.skip(next as int));
                assert(frames_view(frames@.push(Frame::Rref(values))) =~= frames_view(frames@)
                    + seq![FrameView::Rref(values@)]);
            }
            frames.push(Frame::Rref(values));
            off = next;
        } else {
            proof {
                lemma_no_frame_here(rest, remaining as int);
                assert(frames_view(frames@) + spec_parse_frames(buf@.skip(off as int))
                    =~= frames_view(frames@));
            }
            break ;
        }
    }
    frames
}

/// When neither magic check passes, no frame parses at this offset.
proof fn lemma_no_frame_here(rest: Seq<u8>, remaining: int)
    requires
        rest.len() == remaining,
        !(remaining >= 40 && rest.len() >= 4 && rest[0] == 'D' as u8 && rest[1] == 'A' as u8
            && rest[2] == 'T' as u8 && rest[3] == 'A' as u8),
        !(remaining >= 5 && rest.len() >= 4 && rest[0] == 'R' as u8 && rest[1] == 'R' as u8
            && rest[2] == 'E' as u8 && rest[3] == 'F' as u8),
    ensures
        spec_parse_frames(rest) == Seq::<FrameView>::empty(),
{
    if rest.len() >= 40 && rest.take(4) == data_magic() {
        assert(rest[0] == 'D' as u8 && rest[1] == 'A' as u8 && rest[2] == 'T' as u8 && rest[3]
            == 'A' as u8) by {
            assert(rest.take(4)[0] == rest[0] && rest.take(4)[1] == rest[1] && rest.take(4)[2]
                == rest[2] && rest.take(4)[3] == rest[3]);
        }
    }
    if rest.len() >= 5 && rest.take(4) == rref_reply_magic() {
        assert(rest[0] == 'R' as u8 && rest[1] == 'R' as u8 && rest[2] == 'E' as u8 && rest[3]
            == 'F' as u8) by {
            assert(rest.take(4)[0] == rest[0] && rest.take(4)[1] == rest[1] && rest.take(4)[2]
                == rest[2] && rest.take(4)[3] == rest[3]);
        }
    }
}

/// How a whole decoded datagram updates the snapshot: each telemetry
/// reply's pairs are folded in, front to back; legacy data frames carry no
/// semantic action.
pub open spec fn spec_apply_frames(s: ReceivedDatarefs, frames: Seq<FrameView>) -> ReceivedDatarefs
    decreases frames.len(),
{
    if frames.len() == 0 {
        s
    } else {
        let s1 = match frames[0] {
            FrameView::Data(_) => s,
            FrameView::Rref(values) => spec_apply_values(s, values),
        };
        spec_apply_frames(s1, frames.drop_first())
    }
}

/// Decodes one received datagram and applies every telemetry reply in it to
/// the snapshot. An unknown index inside a reply is skipped without
/// disturbing the snapshot or the decoding of the frames after it.
pub fn handle_input(buf: &[u8], dataref_cache: &mut ReceivedDatarefs)
    ensures
        *final(dataref_cache) == spec_apply_frames(
            *old(dataref_cache),
            spec_parse_frames(buf@),
        ),
{
    let frames = decode_frames(buf);
    let ghost all = frames_view(frames@);
    let ghost orig = *dataref_cache;
    proof {
        assert(all.skip(0) =~= all);
    }
    let mut i: usize = 0;
    while i < frames.len()
        invariant
            all == frames_view(frames@),
            all == spec_parse_frames(buf@),
            i <= frames@.len(),
            frames@.len() == all.len(),
            spec_apply_frames(*dataref_cache, all.skip(i as int)) == spec_apply_frames(orig, all),
        decreases frames@.len() - i,
    {
        proof {
            assert(all.skip(i as int)[0] == all[i as int]);
            assert(all.skip(i as int).drop_first() =~= all.skip(i as int + 1));
            assert(all[i as int] == frame_view(frames@[i as int]));
        }
        match &frames[i] {
            Frame::Data(_) => {},
            Frame::Rref(values) => {
                handle_datarefs(values, dataref_cache);
            },
        }
        i += 1;
    }
    proof {
        assert(all.skip(all.len() as int) =~= Seq::<FrameView>::empty());
    }
}

/// Law: beacon round trip. Encoding any beacon whose NUL-free name fits the
/// name field and decoding the bytes again recovers every field and the
/// exact name.
pub proof fn lemma_beacon_round_trip(
    major_version: u8,
    minor_version: u8,
    application_host_id: i32,
    version_number: i32,
    role: u32,
    port: u16,
    name: Seq<u8>,
)
    requires
        name.len() < BEACON_NAME_LEN,
        !name.contains(0),
    ensures
        spec_parse_beacon(
            spec_beacon_bytes(
                major_version,
                minor_version,
                application_host_id,
                version_number,
                role,
                port,
                name,
            ),
        ) == Some(
            (major_version, minor_version, application_host_id, version_number, role, port, name),
        ),
{
    lemma_auto_spec_u32_to_from_le_bytes();
    lemma_auto_spec_u16_to_from_le_bytes();
    lemma_i32_le_bytes_round_trip(application_host_id);
    lemma_i32_le_bytes_round_trip(version_number);
    let b = spec_beacon_bytes(
        major_version,
        minor_version,
        application_host_id,
        version_number,
        role,
        port,
        name,
    );
    assert(b.len() == BEACON_FRAME_LEN);
    assert(b.take(5) =~= beacon_magic());
    assert(b[5] == major_version);
    assert(b[6] == minor_version);
    assert(b.subrange(7, 11) =~= spec_i32_to_le_bytes(application_host_id));
    assert(b.subrange(11, 15) =~= spec_i32_to_le_bytes(version_number));
    assert(b.subrange(15, 19) =~= spec_u32_to_le_bytes(role));
    assert(b.subrange(19, 21) =~= spec_u16_to_le_bytes(port));
    let field = beacon_name_region(b);
    assert(field =~= name + zeroes(BEACON_NAME_LEN - name.len()));
    assert forall|j: int| 0 <= j < name.len() implies field[j] != 0 by {
        assert(name[j] != 0);
    }
    assert(field[name.len() as int] == 0);
    lemma_nul_pos_is(field, name.len() as int);
    assert(spec_nul_string(field) =~= name);
}

} // verus!
