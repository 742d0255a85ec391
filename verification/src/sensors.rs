//! Sensor catalog entries: the wire identifier of each sensor, the encoding
//! of its values, and the decoded value type.

use vstd::prelude::*;

verus! {

/// How a sensor's values are encoded on the wire. The tag fixes the byte
/// width of every value of that sensor and which `SensorValue` variant the
/// decoder produces.
#[derive(Clone, Copy, PartialEq, Eq, Structural, Debug)]
pub enum SensorType {
    Bool,
    Char,
    UnsignedByte,
    Short,
    UnsignedShort,
    Int,
    UnsignedInt,
    Float,
    LongLong,
    UnsignedLongLong,
    Double,
}

/// One decoded reading. Exactly one variant is active per value, chosen by
/// the originating sensor's `SensorType`, never inferred from the bytes.
///
/// `Float` and `Double` carry the raw little-endian IEEE-754 bit patterns as
/// unsigned integers; interpreting them numerically is the consumers'
/// concern, the engine only moves them.
#[derive(Clone, Copy, PartialEq, Eq, Structural, Debug)]
pub enum SensorValue {
    Bool(bool),
    Char(char),
    UnsignedByte(u8),
    Short(i16),
    UnsignedShort(u16),
    Int(i32),
    UnsignedInt(u32),
    Float(u32),
    LongLong(i64),
    UnsignedLongLong(u64),
    Double(u64),
}

/// What the decoder reads of one catalog entry: the compact identifier that
/// frames list, and the encoding of the sensor's values.
#[derive(Clone, Copy, PartialEq, Eq, Structural, Debug)]
pub struct Sensor {
    pub small_id: u8,
    pub type_id: SensorType,
}

/// Byte width of one encoded value of the given type: 1, 2, 4 or 8.
pub open spec fn spec_size(t: SensorType) -> nat {
    match t {
        SensorType::Bool => 1,
        SensorType::Char => 1,
        SensorType::UnsignedByte => 1,
        SensorType::Short => 2,
        SensorType::UnsignedShort => 2,
        SensorType::Int => 4,
        SensorType::UnsignedInt => 4,
        SensorType::Float => 4,
        SensorType::LongLong => 8,
        SensorType::UnsignedLongLong => 8,
        SensorType::Double => 8,
    }
}

impl Sensor {
    /// Byte width of one encoded value of this sensor.
    pub fn size(&self) -> (n: usize)
        ensures
            n == spec_size(self.type_id),
    {
        match self.type_id {
            SensorType::Bool | SensorType::Char | SensorType::UnsignedByte => 1,
            SensorType::Short | SensorType::UnsignedShort => 2,
            SensorType::Int | SensorType::UnsignedInt | SensorType::Float => 4,
            SensorType::LongLong | SensorType::UnsignedLongLong | SensorType::Double => 8,
        }
    }
}

} // verus!
