//! The binary frame decoder.
//!
//! A frame is one datagram:
//!
//! ```text
//! byte 0:          sensor count (u8)
//! bytes 1..5:      timestamp (u32, little-endian)
//! bytes 5..5+N:    N sensor ids (u8 each), N = sensor count
//! bytes 5+N..end:  one value per listed id, in listed order, each as many
//!                  bytes wide as the sensor's type, little-endian
//! ```
//!
//! `spec_parse` states the whole decode mathematically; `parse_message` is
//! the executable decoder, proved to return exactly what `spec_parse` says.

use vstd::prelude::*;

use crate::sensors::{spec_size, Sensor, SensorType, SensorValue};

verus! {

/// Why a frame was rejected. Any of these ends the session that saw it.
#[derive(Clone, Copy, PartialEq, Eq, Structural, Debug)]
pub enum ParseError {
    /// The buffer is shorter than the six-byte header, or too short to hold
    /// the sensor-id list it announces.
    InvalidMessage,
    /// A listed sensor id has no entry in the catalog.
    InvalidSensorId,
    /// The buffer ends before a listed sensor's value is complete.
    InvalidSensorValue,
}

/// One decoded entry of a snapshot: which sensor, and its value.
#[derive(Clone, Copy, PartialEq, Eq, Structural, Debug)]
pub struct Reading {
    pub small_id: u8,
    pub value: SensorValue,
}

/// The decoded form of one frame: the frame timestamp and one reading per
/// listed sensor, in listed order.
#[derive(PartialEq, Eq, Debug)]
pub struct Snapshot {
    pub timestamp: u32,
    pub readings: Vec<Reading>,
}

/// The value of two little-endian bytes.
pub open spec fn le16(b0: u8, b1: u8) -> nat {
    (b0 + 0x100 * b1) as nat
}

/// The value of four little-endian bytes.
pub open spec fn le32(b0: u8, b1: u8, b2: u8, b3: u8) -> nat {
    (b0 + 0x100 * b1 + 0x10000 * b2 + 0x1000000 * b3) as nat
}

/// The value of eight little-endian bytes.
pub open spec fn le64(b0: u8, b1: u8, b2: u8, b3: u8, b4: u8, b5: u8, b6: u8, b7: u8) -> nat {
    (b0 + 0x100 * b1 + 0x10000 * b2 + 0x1000000 * b3 + 0x100000000 * b4 + 0x10000000000 * b5
        + 0x1000000000000 * b6 + 0x100000000000000 * b7) as nat
}

/// Two's-complement reading of an unsigned value: `half` is half the
/// modulus, so values of `half` and above wrap to negatives.
pub open spec fn signed_of(n: nat, half: nat) -> int {
    if n < half {
        n as int
    } else {
        n - 2 * half
    }
}

/// The value encoded by `s` under type `t` (`s` is exactly the value's bytes).
pub open spec fn spec_value(t: SensorType, s: Seq<u8>) -> SensorValue
    recommends
        s.len() == spec_size(t),
{
    match t {
        SensorType::Bool => SensorValue::Bool(s[0] != 0),
        SensorType::Char => SensorValue::Char(s[0] as char),
        SensorType::UnsignedByte => SensorValue::UnsignedByte(s[0]),
        SensorType::Short => SensorValue::Short(signed_of(le16(s[0], s[1]), 0x8000) as i16),
        SensorType::UnsignedShort => SensorValue::UnsignedShort(le16(s[0], s[1]) as u16),
        SensorType::Int => SensorValue::Int(
            signed_of(le32(s[0], s[1], s[2], s[3]), 0x80000000) as i32,
        ),
        SensorType::UnsignedInt => SensorValue::UnsignedInt(le32(s[0], s[1], s[2], s[3]) as u32),
        SensorType::Float => SensorValue::Float(le32(s[0], s[1], s[2], s[3]) as u32),
        SensorType::LongLong => SensorValue::LongLong(
            signed_of(
                le64(s[0], s[1], s[2], s[3], s[4], s[5], s[6], s[7]),
                0x8000000000000000,
            ) as i64,
        ),
        SensorType::UnsignedLongLong => SensorValue::UnsignedLongLong(
            le64(s[0], s[1], s[2], s[3], s[4], s[5], s[6], s[7]) as u64,
        ),
        SensorType::Double => SensorValue::Double(
            le64(s[0], s[1], s[2], s[3], s[4], s[5], s[6], s[7]) as u64,
        ),
    }
}

/// The first catalog entry at or after index `j` whose id is `id`.
pub open spec fn spec_find_from(sensors: Seq<Sensor>, id: u8, j: nat) -> Option<Sensor>
    decreases sensors.len() - j,
{
    if j >= sensors.len() {
        None
    } else if sensors[j as int].small_id == id {
        Some(sensors[j as int])
    } else {
        spec_find_from(sensors, id, j + 1)
    }
}

/// The first catalog entry whose id is `id`.
pub open spec fn spec_find(sensors: Seq<Sensor>, id: u8) -> Option<Sensor> {
    spec_find_from(sensors, id, 0)
}

/// The readings of ids `i..count` of the frame `buf`, their values starting
/// at byte `cursor`; or the first failure among them.
pub open spec fn spec_parse_readings(
    buf: Seq<u8>,
    sensors: Seq<Sensor>,
    count: nat,
    i: nat,
    cursor: nat,
) -> Result<Seq<Reading>, ParseError>
    recommends
        buf.len() >= 5 + count,
    decreases count - i,
{
    if i >= count {
        Ok(Seq::empty())
    } else {
        let id = buf[5 + i as int];
        match spec_find(sensors, id) {
            None => Err(ParseError::InvalidSensorId),
            Some(sensor) => {
                let w = spec_size(sensor.type_id);
                if cursor + w > buf.len() {
                    Err(ParseError::InvalidSensorValue)
                } else {
                    let v = spec_value(
                        sensor.type_id,
                        buf.subrange(cursor as int, (cursor + w) as int),
                    );
                    match spec_parse_readings(buf, sensors, count, i + 1, cursor + w) {
                        Ok(rest) => Ok(seq![Reading { small_id: id, value: v }] + rest),
                        Err(e) => Err(e),
                    }
                }
            },
        }
    }
}

/// The complete decode of the frame `buf` against the catalog `sensors`:
/// the frame timestamp and the listed readings, or the first failure.
pub open spec fn spec_parse(buf: Seq<u8>, sensors: Seq<Sensor>) -> Result<
    (u32, Seq<Reading>),
    ParseError,
> {
    if buf.len() < 6 {
        Err(ParseError::InvalidMessage)
    } else {
        let count = buf[0] as nat;
        if buf.len() < 5 + count {
            Err(ParseError::InvalidMessage)
        } else {
            match spec_parse_readings(buf, sensors, count, 0, 5 + count) {
                Ok(rs) => Ok((le32(buf[1], buf[2], buf[3], buf[4]) as u32, rs)),
                Err(e) => Err(e),
            }
        }
    }
}

/// True when `v` is a value the wire can carry under type `t`: the active
/// variant matches the tag, and a `Char` is a one-byte code point.
pub open spec fn spec_value_fits(t: SensorType, v: SensorValue) -> bool {
    match (t, v) {
        (SensorType::Bool, SensorValue::Bool(_)) => true,
        (SensorType::Char, SensorValue::Char(c)) => (c as nat) < 0x100,
        (SensorType::UnsignedByte, SensorValue::UnsignedByte(_)) => true,
        (SensorType::Short, SensorValue::Short(_)) => true,
        (SensorType::UnsignedShort, SensorValue::UnsignedShort(_)) => true,
        (SensorType::Int, SensorValue::Int(_)) => true,
        (SensorType::UnsignedInt, SensorValue::UnsignedInt(_)) => true,
        (SensorType::Float, SensorValue::Float(_)) => true,
        (SensorType::LongLong, SensorValue::LongLong(_)) => true,
        (SensorType::UnsignedLongLong, SensorValue::UnsignedLongLong(_)) => true,
        (SensorType::Double, SensorValue::Double(_)) => true,
        _ => false,
    }
}

/// The two little-endian bytes of `n`.
pub open spec fn le16_bytes(n: nat) -> Seq<u8> {
    seq![(n % 0x100) as u8, ((n / 0x100) % 0x100) as u8]
}

/// The four little-endian bytes of `n`.
pub open spec fn le32_bytes(n: nat) -> Seq<u8> {
    seq![
        (n % 0x100) as u8,
        ((n / 0x100) % 0x100) as u8,
        ((n / 0x10000) % 0x100) as u8,
        ((n / 0x1000000) % 0x100) as u8,
    ]
}

/// The eight little-endian bytes of `n`.
pub open spec fn le64_bytes(n: nat) -> Seq<u8> {
    seq![
        (n % 0x100) as u8,
        ((n / 0x100) % 0x100) as u8,
        ((n / 0x10000) % 0x100) as u8,
        ((n / 0x1000000) % 0x100) as u8,
        ((n / 0x100000000) % 0x100) as u8,
        ((n / 0x10000000000) % 0x100) as u8,
        ((n / 0x1000000000000) % 0x100) as u8,
        ((n / 0x100000000000000) % 0x100) as u8,
    ]
}

/// The wire bytes of one value of type `t`: the inverse of `spec_value`.
pub open spec fn spec_encode_value(t: SensorType, v: SensorValue) -> Seq<u8> {
    match (t, v) {
        (SensorType::Bool, SensorValue::Bool(b)) => seq![if b { 1u8 } else { 0u8 }],
        (SensorType::Char, SensorValue::Char(c)) => seq![c as u8],
        (SensorType::UnsignedByte, SensorValue::UnsignedByte(x)) => seq![x],
        (SensorType::Short, SensorValue::Short(x)) => le16_bytes(
            if x < 0 {
                (x + 0x10000) as nat
            } else {
                x as nat
            },
        ),
        (SensorType::UnsignedShort, SensorValue::UnsignedShort(x)) => le16_bytes(x as nat),
        (SensorType::Int, SensorValue::Int(x)) => le32_bytes(
            if x < 0 {
                (x + 0x100000000) as nat
            } else {
                x as nat
            },
        ),
        (SensorType::UnsignedInt, SensorValue::UnsignedInt(x)) => le32_bytes(x as nat),
        (SensorType::Float, SensorValue::Float(x)) => le32_bytes(x as nat),
        (SensorType::LongLong, SensorValue::LongLong(x)) => le64_bytes(
            if x < 0 {
                (x + 0x10000000000000000) as nat
            } else {
                x as nat
            },
        ),
        (SensorType::UnsignedLongLong, SensorValue::UnsignedLongLong(x)) => le64_bytes(x as nat),
        (SensorType::Double, SensorValue::Double(x)) => le64_bytes(x as nat),
        _ => Seq::empty(),
    }
}

/// A minimal frame carrying one reading: sensor count 1, the timestamp,
/// the one listed id, and the one encoded value.
pub open spec fn spec_encode_frame(ts: u32, id: u8, t: SensorType, v: SensorValue) -> Seq<u8> {
    seq![
        1u8,
        ((ts as nat) % 0x100) as u8,
        (((ts as nat) / 0x100) % 0x100) as u8,
        (((ts as nat) / 0x10000) % 0x100) as u8,
        (((ts as nat) / 0x1000000) % 0x100) as u8,
        id,
    ] + spec_encode_value(t, v)
}

proof fn lemma_le16_round(n: nat)
    requires
        n < 0x10000,
    ensures
        le16(le16_bytes(n)[0], le16_bytes(n)[1]) == n,
{
    let y = n as u16;
    assert(y % 0x100 + 0x100 * ((y / 0x100) % 0x100) == y) by (bit_vector);
}

proof fn lemma_le32_round(n: nat)
    requires
        n < 0x100000000,
    ensures
        le32(le32_bytes(n)[0], le32_bytes(n)[1], le32_bytes(n)[2], le32_bytes(n)[3]) == n,
{
    let y = n as u32;
    assert(y % 0x100 + 0x100 * ((y / 0x100) % 0x100) + 0x10000 * ((y / 0x10000) % 0x100)
        + 0x1000000 * ((y / 0x1000000) % 0x100) == y) by (bit_vector);
}

proof fn lemma_le64_round(n: nat)
    requires
        n < 0x10000000000000000,
    ensures
        le64(
            le64_bytes(n)[0],
            le64_bytes(n)[1],
            le64_bytes(n)[2],
            le64_bytes(n)[3],
            le64_bytes(n)[4],
            le64_bytes(n)[5],
            le64_bytes(n)[6],
            le64_bytes(n)[7],
        ) == n,
{
    let y = n as u64;
    assert(y % 0x100 + 0x100 * ((y / 0x100) % 0x100) + 0x10000 * ((y / 0x10000) % 0x100)
        + 0x1000000 * ((y / 0x1000000) % 0x100) + 0x100000000 * ((y / 0x100000000) % 0x100)
        + 0x10000000000 * ((y / 0x10000000000) % 0x100) + 0x1000000000000 * ((y / 0x1000000000000)
        % 0x100) + 0x100000000000000 * ((y / 0x100000000000000) % 0x100) == y) by (bit_vector);
}

/// Decoding the encoded bytes of a fitting value gives that value back.
pub proof fn lemma_value_round_trip(t: SensorType, v: SensorValue)
    requires
        spec_value_fits(t, v),
    ensures
        spec_encode_value(t, v).len() == spec_size(t),
        spec_value(t, spec_encode_value(t, v)) == v,
{
    match (t, v) {
        (SensorType::Short, SensorValue::Short(x)) => {
            let n: nat = if x < 0 {
                (x + 0x10000) as nat
            } else {
                x as nat
            };
            lemma_le16_round(n);
        },
        (SensorType::UnsignedShort, SensorValue::UnsignedShort(x)) => {
            lemma_le16_round(x as nat);
        },
        (SensorType::Int, SensorValue::Int(x)) => {
            let n: nat = if x < 0 {
                (x + 0x100000000) as nat
            } else {
                x as nat
            };
            lemma_le32_round(n);
        },
        (SensorType::UnsignedInt, SensorValue::UnsignedInt(x)) => {
            lemma_le32_round(x as nat);
        },
        (SensorType::Float, SensorValue::Float(x)) => {
            lemma_le32_round(x as nat);
        },
        (SensorType::LongLong, SensorValue::LongLong(x)) => {
            let n: nat = if x < 0 {
                (x + 0x10000000000000000) as nat
            } else {
                x as nat
            };
            lemma_le64_round(n);
        },
        (SensorType::UnsignedLongLong, SensorValue::UnsignedLongLong(x)) => {
            lemma_le64_round(x as nat);
        },
        (SensorType::Double, SensorValue::Double(x)) => {
            lemma_le64_round(x as nat);
        },
        _ => {},
    }
}

/// Round-trip law: a fitting value encoded into a minimal one-sensor frame
/// and decoded against a catalog holding that sensor yields the original
/// timestamp and the original value.
pub proof fn lemma_round_trip(ts: u32, sensor: Sensor, v: SensorValue)
    requires
        spec_value_fits(sensor.type_id, v),
    ensures
        ({
            let frame = spec_encode_frame(ts, sensor.small_id, sensor.type_id, v);
            spec_parse(frame, seq![sensor]) == Ok::<(u32, Seq<Reading>), ParseError>(
                (ts, seq![Reading { small_id: sensor.small_id, value: v }]),
            )
        }),
{
    let t = sensor.type_id;
    let enc = spec_encode_value(t, v);
    let frame = spec_encode_frame(ts, sensor.small_id, t, v);
    let w = spec_size(t);
    lemma_value_round_trip(t, v);
    assert(frame.len() == 6 + w);
    assert(frame[0] == 1u8);
    assert(frame[5] == sensor.small_id);
    assert(spec_find(seq![sensor], sensor.small_id) == Some(sensor));
    assert(frame.subrange(6, (6 + w) as int) =~= enc);
    lemma_le32_round(ts as nat);
    assert(le32(frame[1], frame[2], frame[3], frame[4]) == ts as nat);
    let rd = Reading { small_id: sensor.small_id, value: v };
    assert(spec_parse_readings(frame, seq![sensor], 1, 1, (6 + w) as nat) == Ok::<
        Seq<Reading>,
        ParseError,
    >(Seq::empty()));
    assert(seq![rd] + Seq::<Reading>::empty() =~= seq![rd]);
    assert(spec_parse_readings(frame, seq![sensor], 1, 0, 6) == Ok::<Seq<Reading>, ParseError>(
        seq![rd],
    ));
}

fn read_u16(b0: u8, b1: u8) -> (r: u16)
    ensures
        r == le16(b0, b1),
{
    b0 as u16 + 0x100 * (b1 as u16)
}

fn read_u32(b0: u8, b1: u8, b2: u8, b3: u8) -> (r: u32)
    ensures
        r == le32(b0, b1, b2, b3),
{
    b0 as u32 + 0x100 * (b1 as u32) + 0x10000 * (b2 as u32) + 0x1000000 * (b3 as u32)
}

fn read_u64(b0: u8, b1: u8, b2: u8, b3: u8, b4: u8, b5: u8, b6: u8, b7: u8) -> (r: u64)
    ensures
        r == le64(b0, b1, b2, b3, b4, b5, b6, b7),
{
    b0 as u64 + 0x100 * (b1 as u64) + 0x10000 * (b2 as u64) + 0x1000000 * (b3 as u64)
        + 0x100000000 * (b4 as u64) + 0x10000000000 * (b5 as u64) + 0x1000000000000 * (b6 as u64)
        + 0x100000000000000 * (b7 as u64)
}

fn to_i16(u: u16) -> (r: i16)
    ensures
        r as int == signed_of(u as nat, 0x8000),
{
    if u < 0x8000 {
        u as i16
    } else {
        ((u as i32) - 0x10000) as i16
    }
}

fn to_i32(u: u32) -> (r: i32)
    ensures
        r as int == signed_of(u as nat, 0x80000000),
{
    if u < 0x80000000 {
        u as i32
    } else {
        ((u as i64) - 0x100000000) as i32
    }
}

fn to_i64(u: u64) -> (r: i64)
    ensures
        r as int == signed_of(u as nat, 0x8000000000000000),
{
    if u < 0x8000000000000000 {
        u as i64
    } else {
        ((u as i128) - 0x10000000000000000) as i64
    }
}

/// Decode one value: `buf` must be exactly the value's bytes.
pub fn parse_data(buf: &[u8], sensor: &Sensor) -> (r: Result<SensorValue, ParseError>)
    ensures
        buf@.len() == spec_size(sensor.type_id) ==> r == Ok::<SensorValue, ParseError>(
            spec_value(sensor.type_id, buf@),
        ),
        buf@.len() != spec_size(sensor.type_id) ==> r == Err::<SensorValue, ParseError>(
            ParseError::InvalidSensorValue,
        ),
{
    if buf.len() != sensor.size() {
        return Err(ParseError::InvalidSensorValue);
    }
    let value = match sensor.type_id {
        SensorType::Bool => SensorValue::Bool(buf[0] != 0),
        SensorType::Char => SensorValue::Char(buf[0] as char),
        SensorType::UnsignedByte => SensorValue::UnsignedByte(buf[0]),
        SensorType::Short => SensorValue::Short(to_i16(read_u16(buf[0], buf[1]))),
        SensorType::UnsignedShort => SensorValue::UnsignedShort(read_u16(buf[0], buf[1])),
        SensorType::Int => SensorValue::Int(to_i32(read_u32(buf[0], buf[1], buf[2], buf[3]))),
        SensorType::UnsignedInt => SensorValue::UnsignedInt(
            read_u32(buf[0], buf[1], buf[2], buf[3]),
        ),
        SensorType::Float => SensorValue::Float(read_u32(buf[0], buf[1], buf[2], buf[3])),
        SensorType::LongLong => SensorValue::LongLong(
            to_i64(read_u64(buf[0], buf[1], buf[2], buf[3], buf[4], buf[5], buf[6], buf[7])),
        ),
        SensorType::UnsignedLongLong => SensorValue::UnsignedLongLong(
            read_u64(buf[0], buf[1], buf[2], buf[3], buf[4], buf[5], buf[6], buf[7]),
        ),
        SensorType::Double => SensorValue::Double(
            read_u64(buf[0], buf[1], buf[2], buf[3], buf[4], buf[5], buf[6], buf[7]),
        ),
    };
    Ok(value)
}

fn find_sensor(sensors: &[Sensor], id: u8) -> (r: Option<Sensor>)
    ensures
        r == spec_find(sensors@, id),
{
    let mut j: usize = 0;
    while j < sensors.len()
        invariant
            j <= sensors@.len(),
            spec_find(sensors@, id) == spec_find_from(sensors@, id, j as nat),
        decreases sensors@.len() - j,
    {
        if sensors[j].small_id == id {
            return Some(sensors[j]);
        }
        j += 1;
    }
    None
}

/// Decode one frame against the catalog: the executable form of
/// `spec_parse`, returning the timestamp and the snapshot of readings.
pub fn parse_message(buf: &[u8], sensors: &[Sensor]) -> (r: Result<(u32, Snapshot), ParseError>)
    ensures
        match spec_parse(buf@, sensors@) {
            Ok(p) => r matches Ok(q) && q.0 == p.0 && q.1.timestamp == p.0 && q.1.readings@
                == p.1,
            Err(e) => r == Err::<(u32, Snapshot), ParseError>(e),
        },
{
    if buf.len() < 6 {
        return Err(ParseError::InvalidMessage);
    }
    let sensor_count = buf[0] as usize;
    if buf.len() < 5 + sensor_count {
        return Err(ParseError::InvalidMessage);
    }
    let timestamp = read_u32(buf[1], buf[2], buf[3], buf[4]);

    let ghost count = sensor_count as nat;
    let mut readings: Vec<Reading> = Vec::new();
    let mut cursor: usize = 5 + sensor_count;
    let mut i: usize = 0;
    while i < sensor_count
        invariant
            i <= sensor_count,
            sensor_count == buf@[0],
            buf@.len() >= 6,
            5 + sensor_count <= cursor <= buf@.len(),
            count == sensor_count,
            spec_parse_readings(buf@, sensors@, count, 0, (5 + sensor_count) as nat) == (
            match spec_parse_readings(buf@, sensors@, count, i as nat, cursor as nat) {
                Ok(rest) => Ok::<Seq<Reading>, ParseError>(readings@ + rest),
                Err(e) => Err::<Seq<Reading>, ParseError>(e),
            }),
        decreases sensor_count - i,
    {
        let id = buf[5 + i];
        let sensor = match find_sensor(sensors, id) {
            Some(s) => s,
            None => {
                proof {
                    assert(spec_parse_readings(buf@, sensors@, count, i as nat, cursor as nat)
                        == Err::<Seq<Reading>, ParseError>(ParseError::InvalidSensorId));
                }
                return Err(ParseError::InvalidSensorId);
            },
        };
        let w = sensor.size();
        if buf.len() - cursor < w {
            proof {
                assert(spec_parse_readings(buf@, sensors@, count, i as nat, cursor as nat)
                    == Err::<Seq<Reading>, ParseError>(ParseError::InvalidSensorValue));
            }
            return Err(ParseError::InvalidSensorValue);
        }
        let data = vstd::slice::slice_subrange(buf, cursor, cursor + w);
        let value = match parse_data(data, &sensor) {
            Ok(v) => v,
            Err(e) => {
                return Err(e);
            },
        };
        let ghost readings_before = readings@;
        readings.push(Reading { small_id: id, value });
        proof {
            let rd = Reading { small_id: id, value };
            match spec_parse_readings(buf@, sensors@, count, (i + 1) as nat, (cursor + w) as nat) {
                Ok(rest2) => {
                    assert(readings_before + (seq![rd] + rest2) =~= readings@ + rest2);
                },
                Err(_) => {},
            }
        }
        cursor += w;
        i += 1;
    }
    proof {
        assert(spec_parse_readings(buf@, sensors@, count, i as nat, cursor as nat) == Ok::<
            Seq<Reading>,
            ParseError,
        >(Seq::empty()));
        assert(readings@ + Seq::<Reading>::empty() =~= readings@);
    }
    Ok((timestamp, Snapshot { timestamp, readings }))
}

} // verus!
