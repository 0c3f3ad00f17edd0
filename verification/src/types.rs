//! Scalar types of the format and their fixed-layout decoders.

use crate::bytes::{
    i16_at, i32_at, i64_at, le_i16, le_i32, le_i64, le_u16, le_u32, le_u64, u16_at, u32_at, u64_at,
};
use crate::error::AafError;
use vstd::prelude::*;

verus! {

broadcast use vstd::slice::group_slice_axioms;

pub type OMByteOrder = u8;

pub type OMVersion = u8;

pub type OMPropertyCount = u16;

pub type OMPropertyId = u16;

pub type OMStoredForm = u16;

pub type OMPropertySize = u16;

pub type OMKeySize = u8;

pub type OMPropertyTag = u16;

pub type AAFUInt8 = u8;

pub type AAFUInt16 = u16;

pub type AAFUInt32 = u32;

pub type AAFUInt64 = u64;

pub type AAFInt8 = i8;

pub type AAFInt16 = i16;

pub type AAFInt32 = i32;

pub type AAFInt64 = i64;

pub type PositionType = AAFInt64;

pub type LengthType = AAFInt64;

pub type JPEGTableIDType = AAFInt32;

pub type PhaseFrameType = AAFInt32;

/// A date (year, month, day) and a time of day (hour, minute, second,
/// fraction).
#[derive(Debug, PartialEq, Eq, Clone, Copy)]
pub struct TimeStamp {
    pub date: (i16, u8, u8),
    pub time: (u8, u8, u8, u8),
}

/// A version number in two parts.
#[derive(Debug, PartialEq, Eq, Clone, Copy)]
pub struct VersionType {
    pub major: u8,
    pub minor: u8,
}

/// A 16-byte unique identifier, held as the bytes of its canonical text
/// form in order: the three leading fields most significant byte first.
#[derive(Debug, PartialEq, Eq, Clone, Copy, Hash)]
pub struct Auid {
    pub bytes: [u8; 16],
}

/// The bytes of the identifier with the fields `d1`, `d2`, `d3` and `d4`:
/// each of the three integers most significant byte first, then `d4` as it
/// is.
pub open spec fn fields_bytes(d1: u32, d2: u16, d3: u16, d4: Seq<u8>) -> Seq<u8> {
    seq![
        (d1 / 16777216) as u8,
        (d1 / 65536 % 256) as u8,
        (d1 / 256 % 256) as u8,
        (d1 % 256) as u8,
        (d2 / 256) as u8,
        (d2 % 256) as u8,
        (d3 / 256) as u8,
        (d3 % 256) as u8,
    ] + d4
}

/// The identifier that a stored record of 16 bytes stands for: the three
/// leading fields are stored least significant byte first, so their bytes
/// are reversed field by field; the last eight bytes stay as they are.
pub open spec fn mixed_endian(item: Seq<u8>) -> Seq<u8> {
    seq![item[3], item[2], item[1], item[0], item[5], item[4], item[7], item[6]] + item.subrange(
        8,
        16,
    )
}

/// `uuid::Uuid::from_fields`, then `Uuid::into_bytes`: the sixteen bytes of
/// the identifier built from four fields, which are the three integers most
/// significant byte first, followed by the eight bytes of `d4`.
#[verifier::external_body]
fn uuid_from_fields(d1: u32, d2: u16, d3: u16, d4: &[u8; 8]) -> (bytes: [u8; 16])
    ensures
        bytes@ == fields_bytes(d1, d2, d3, d4@),
{
    uuid::Uuid::from_fields(d1, d2, d3, d4).into_bytes()
}

/// A type with a fixed-width little-endian record layout.
pub trait AAFFrom: Sized {
    /// The number of bytes that a record of this type takes.
    spec fn width() -> nat;

    /// The value that the first `width()` bytes of `item` stand for.
    spec fn decoded(item: Seq<u8>) -> Self;

    /// Decodes the record at the start of `item`. Bytes beyond the record
    /// are ignored; too few bytes are an error.
    fn aaf_from(item: &[u8]) -> (r: Result<Self, AafError>)
        ensures
            item@.len() >= Self::width() ==> r == Ok::<Self, AafError>(Self::decoded(item@)),
            item@.len() < Self::width() ==> r == Err::<Self, AafError>(AafError::DecodeError),
    ;
}

/// A value that can be decoded into an `F`.
pub trait AAFInto<F>: Sized {
    /// What `aaf_into` returns.
    spec fn converted(self) -> Result<F, AafError>;

    fn aaf_into(self) -> (r: Result<F, AafError>)
        ensures
            r == self.converted(),
    ;
}

impl<'a, T: AAFFrom> AAFInto<T> for &'a [u8] {
    open spec fn converted(self) -> Result<T, AafError> {
        if self@.len() >= T::width() {
            Ok(T::decoded(self@))
        } else {
            Err(AafError::DecodeError)
        }
    }

    fn aaf_into(self) -> (r: Result<T, AafError>) {
        T::aaf_from(self)
    }
}

impl AAFFrom for AAFUInt16 {
    open spec fn width() -> nat {
        2
    }

    open spec fn decoded(item: Seq<u8>) -> u16 {
        le_u16(item, 0) as u16
    }

    fn aaf_from(item: &[u8]) -> (r: Result<u16, AafError>) {
        if item.len() < 2 {
            Err(AafError::DecodeError)
        } else {
            Ok(u16_at(item, 0))
        }
    }
}

impl AAFFrom for u32 {
    open spec fn width() -> nat {
        4
    }

    open spec fn decoded(item: Seq<u8>) -> u32 {
        le_u32(item, 0) as u32
    }

    fn aaf_from(item: &[u8]) -> (r: Result<u32, AafError>) {
        if item.len() < 4 {
            Err(AafError::DecodeError)
        } else {
            Ok(u32_at(item, 0))
        }
    }
}

impl AAFFrom for AAFUInt64 {
    open spec fn width() -> nat {
        8
    }

    open spec fn decoded(item: Seq<u8>) -> u64 {
        le_u64(item, 0) as u64
    }

    fn aaf_from(item: &[u8]) -> (r: Result<u64, AafError>) {
        if item.len() < 8 {
            Err(AafError::DecodeError)
        } else {
            Ok(u64_at(item, 0))
        }
    }
}

impl AAFFrom for AAFInt16 {
    open spec fn width() -> nat {
        2
    }

    open spec fn decoded(item: Seq<u8>) -> i16 {
        le_i16(item, 0) as i16
    }

    fn aaf_from(item: &[u8]) -> (r: Result<i16, AafError>) {
        if item.len() < 2 {
            Err(AafError::DecodeError)
        } else {
            Ok(i16_at(item, 0))
        }
    }
}

impl AAFFrom for AAFInt32 {
    open spec fn width() -> nat {
        4
    }

    open spec fn decoded(item: Seq<u8>) -> i32 {
        le_i32(item, 0) as i32
    }

    fn aaf_from(item: &[u8]) -> (r: Result<i32, AafError>) {
        if item.len() < 4 {
            Err(AafError::DecodeError)
        } else {
            Ok(i32_at(item, 0))
        }
    }
}

impl AAFFrom for AAFInt64 {
    open spec fn width() -> nat {
        8
    }

    open spec fn decoded(item: Seq<u8>) -> i64 {
        le_i64(item, 0) as i64
    }

    fn aaf_from(item: &[u8]) -> (r: Result<i64, AafError>) {
        if item.len() < 8 {
            Err(AafError::DecodeError)
        } else {
            Ok(i64_at(item, 0))
        }
    }
}

impl AAFFrom for TimeStamp {
    open spec fn width() -> nat {
        8
    }

    open spec fn decoded(item: Seq<u8>) -> TimeStamp {
        TimeStamp {
            date: (le_i16(item, 0) as i16, item[2], item[3]),
            time: (item[4], item[5], item[6], item[7]),
        }
    }

    fn aaf_from(item: &[u8]) -> (r: Result<TimeStamp, AafError>) {
        if item.len() < 8 {
            Err(AafError::DecodeError)
        } else {
            Ok(
                TimeStamp {
                    date: (i16_at(item, 0), item[2], item[3]),
                    time: (item[4], item[5], item[6], item[7]),
                },
            )
        }
    }
}

impl AAFFrom for VersionType {
    open spec fn width() -> nat {
        2
    }

    open spec fn decoded(item: Seq<u8>) -> VersionType {
        VersionType { major: item[0], minor: item[1] }
    }

    fn aaf_from(item: &[u8]) -> (r: Result<VersionType, AafError>) {
        if item.len() < 2 {
            Err(AafError::DecodeError)
        } else {
            Ok(VersionType { major: item[0], minor: item[1] })
        }
    }
}

impl Auid {
    /// The identifier with the given bytes.
    pub open spec fn of_bytes(bytes: Seq<u8>) -> Auid
        recommends
            bytes.len() == 16,
    {
        Auid {
            bytes: [
                bytes[0],
                bytes[1],
                bytes[2],
                bytes[3],
                bytes[4],
                bytes[5],
                bytes[6],
                bytes[7],
                bytes[8],
                bytes[9],
                bytes[10],
                bytes[11],
                bytes[12],
                bytes[13],
                bytes[14],
                bytes[15],
            ],
        }
    }
}

/// The bytes of an identifier built from sixteen bytes are those bytes.
pub proof fn lemma_auid_of_bytes(bytes: Seq<u8>)
    requires
        bytes.len() == 16,
    ensures
        Auid::of_bytes(bytes).bytes@ == bytes,
{
    assert(Auid::of_bytes(bytes).bytes@ =~= bytes);
}

impl AAFFrom for Auid {
    open spec fn width() -> nat {
        16
    }

    open spec fn decoded(item: Seq<u8>) -> Auid {
        Auid::of_bytes(mixed_endian(item))
    }

    fn aaf_from(item: &[u8]) -> (r: Result<Auid, AafError>) {
        if item.len() < 16 {
            Err(AafError::DecodeError)
        } else {
            let d1: u32 = u32_at(item, 0);
            let d2: u16 = u16_at(item, 4);
            let d3: u16 = u16_at(item, 6);
            let d4: [u8; 8] = [
                item[8],
                item[9],
                item[10],
                item[11],
                item[12],
                item[13],
                item[14],
                item[15],
            ];
            let bytes = uuid_from_fields(d1, d2, d3, &d4);
            assert(bytes@ =~= mixed_endian(item@));
            let id = Auid { bytes };
            assert(id.bytes =~= Auid::of_bytes(mixed_endian(item@)).bytes);
            Ok(id)
        }
    }
}

} // verus!
