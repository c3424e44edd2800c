//! The wire format of justifications, across the versions of the protocol.
//!
//! A justification travels as a frame: the version in two bytes, the length
//! of the payload in two bytes, both with the low byte first, and then the
//! payload. A node reads the frames of the legacy and of the current version,
//! and tells a frame of another version from bytes that are no frame at all.

use vstd::prelude::*;
use crate::justification::SelendraJustification;

verus! {

/// The version of a frame.
pub type Version = u16;

/// The version of the frames that older nodes wrote.
pub const LEGACY_VERSION: Version = 1;

/// The version of the frames that this node writes.
pub const CURRENT_VERSION: Version = 2;

/// The greatest length of a payload that a frame can state.
pub const MAX_PAYLOAD: usize = 65535;

/// What can go wrong when bytes are read as a justification.
#[derive(Clone, Copy, Debug, PartialEq, Eq, Structural)]
pub enum DecodeError {
    /// The bytes are no frame: too short for the header, or not as long as
    /// the header says.
    BadFormat,
    /// The bytes are a frame of a version that this node does not read.
    UnsupportedVersion(Version),
}

/// A justification as it was framed.
#[derive(Debug, PartialEq, Eq)]
pub enum VersionedJustification {
    /// A frame of a version that this node does not read, with its payload.
    Other(Version, Vec<u8>),
    /// A justification of the legacy version.
    Legacy(SelendraJustification),
    /// A justification of the current version.
    Current(SelendraJustification),
}

impl VersionedJustification {
    /// The version of the frame.
    pub open spec fn spec_version(&self) -> Version {
        match self {
            VersionedJustification::Other(version, _) => *version,
            VersionedJustification::Legacy(_) => LEGACY_VERSION,
            VersionedJustification::Current(_) => CURRENT_VERSION,
        }
    }

    /// The payload of the frame.
    pub open spec fn spec_payload(&self) -> Seq<u8> {
        match self {
            VersionedJustification::Other(_, payload) => payload@,
            VersionedJustification::Legacy(justification) => justification@,
            VersionedJustification::Current(justification) => justification@,
        }
    }

    /// Whether the variant agrees with the version: `Other` holds no frame
    /// of a version that this node reads.
    pub open spec fn canonical(&self) -> bool {
        self matches VersionedJustification::Other(version, _) ==> *version != LEGACY_VERSION
            && *version != CURRENT_VERSION
    }
}

/// The number that two bytes stand for, the low byte first.
pub open spec fn spec_u16_le(low: u8, high: u8) -> u16 {
    (low + high * 256) as u16
}

/// The low byte of a number of two bytes.
pub open spec fn spec_low(number: u16) -> u8 {
    (number % 256) as u8
}

/// The high byte of a number of two bytes.
pub open spec fn spec_high(number: u16) -> u8 {
    (number / 256) as u8
}

/// The length that a frame states for a payload of `length` bytes.
pub open spec fn spec_stated_length(length: nat) -> u16 {
    if length > MAX_PAYLOAD {
        MAX_PAYLOAD as u16
    } else {
        length as u16
    }
}

/// The frame of `payload` in version `version`.
pub open spec fn spec_encode(version: Version, payload: Seq<u8>) -> Seq<u8> {
    seq![
        spec_low(version),
        spec_high(version),
        spec_low(spec_stated_length(payload.len())),
        spec_high(spec_stated_length(payload.len())),
    ] + payload
}

/// The version and the payload of the frame that `raw` is, if it is one.
pub open spec fn spec_frame(raw: Seq<u8>) -> Option<(Version, Seq<u8>)> {
    if raw.len() < 4 {
        None
    } else if raw.len() - 4 != spec_u16_le(raw[2], raw[3]) {
        None
    } else {
        Some((spec_u16_le(raw[0], raw[1]), raw.subrange(4, raw.len() as int)))
    }
}

/// The certificate that `raw` holds for this node, or why it holds none.
pub open spec fn spec_decode(raw: Seq<u8>) -> Result<Seq<u8>, DecodeError> {
    match spec_frame(raw) {
        None => Err(DecodeError::BadFormat),
        Some((version, payload)) => {
            if version == LEGACY_VERSION || version == CURRENT_VERSION {
                Ok(payload)
            } else {
                Err(DecodeError::UnsupportedVersion(version))
            }
        },
    }
}

/// Two bytes written from a number read back as that number.
pub proof fn lemma_u16_bytes(number: u16)
    ensures
        spec_u16_le(spec_low(number), spec_high(number)) == number,
{
}

/// A frame reads back as the version and the payload it was written from,
/// provided that the payload is no longer than a frame can state.
pub proof fn lemma_frame_of_encoding(version: Version, payload: Seq<u8>)
    requires
        payload.len() <= MAX_PAYLOAD,
    ensures
        spec_frame(spec_encode(version, payload)) == Some((version, payload)),
{
    let raw = spec_encode(version, payload);
    lemma_u16_bytes(version);
    lemma_u16_bytes(spec_stated_length(payload.len()));
    assert(raw.len() == payload.len() + 4);
    assert(raw[0] == spec_low(version));
    assert(raw[1] == spec_high(version));
    assert(raw[2] == spec_low(spec_stated_length(payload.len())));
    assert(raw[3] == spec_high(spec_stated_length(payload.len())));
    assert(raw.subrange(4, raw.len() as int) =~= payload);
}

/// What this node writes, it reads: a certificate framed in the legacy or
/// the current version decodes to itself, and one framed in any other
/// version is refused for its version.
pub proof fn lemma_decode_of_encoding(version: Version, payload: Seq<u8>)
    requires
        payload.len() <= MAX_PAYLOAD,
    ensures
        version == LEGACY_VERSION || version == CURRENT_VERSION ==> spec_decode(
            spec_encode(version, payload),
        ) == Ok::<Seq<u8>, DecodeError>(payload),
        version != LEGACY_VERSION && version != CURRENT_VERSION ==> spec_decode(
            spec_encode(version, payload),
        ) == Err::<Seq<u8>, DecodeError>(DecodeError::UnsupportedVersion(version)),
{
    lemma_frame_of_encoding(version, payload);
}

/// Frames `payload` in version `version`. A payload longer than a frame can
/// state is written whole, with the greatest length there is stated for it:
/// such a frame does not read back.
pub fn encode_with_version(version: Version, payload: &Vec<u8>) -> (raw: Vec<u8>)
    ensures
        raw@ == spec_encode(version, payload@),
{
    let size: u16 = if payload.len() > MAX_PAYLOAD {
        65535
    } else {
        payload.len() as u16
    };
    let mut raw: Vec<u8> = Vec::new();
    raw.push((version % 256) as u8);
    raw.push((version / 256) as u8);
    raw.push((size % 256) as u8);
    raw.push((size / 256) as u8);
    let mut i: usize = 0;
    while i < payload.len()
        invariant
            0 <= i <= payload.len(),
            raw@ == spec_encode(version, payload@).subrange(0, 4 + i),
        decreases payload.len() - i,
    {
        raw.push(payload[i]);
        proof {
            assert(raw@ =~= spec_encode(version, payload@).subrange(0, 4 + i + 1));
        }
        i = i + 1;
    }
    proof {
        assert(raw@ =~= spec_encode(version, payload@));
    }
    raw
}

/// Reads `raw` as a frame of any version.
pub fn decode_versioned(raw: &Vec<u8>) -> (decoded: Result<VersionedJustification, DecodeError>)
    ensures
        match decoded {
            Ok(versioned) => spec_frame(raw@) == Some(
                (versioned.spec_version(), versioned.spec_payload()),
            ) && versioned.canonical(),
            Err(error) => spec_frame(raw@).is_none() && error == DecodeError::BadFormat,
        },
{
    if raw.len() < 4 {
        return Err(DecodeError::BadFormat);
    }
    let version: u16 = raw[0] as u16 + raw[1] as u16 * 256;
    let count: u16 = raw[2] as u16 + raw[3] as u16 * 256;
    if raw.len() - 4 != count as usize {
        return Err(DecodeError::BadFormat);
    }
    let mut payload: Vec<u8> = Vec::new();
    let mut i: usize = 4;
    while i < raw.len()
        invariant
            4 <= i <= raw.len(),
            payload@ == raw@.subrange(4, i as int),
        decreases raw.len() - i,
    {
        payload.push(raw[i]);
        proof {
            assert(payload@ =~= raw@.subrange(4, i + 1));
        }
        i = i + 1;
    }
    if version == LEGACY_VERSION {
        Ok(VersionedJustification::Legacy(SelendraJustification { certificate: payload }))
    } else if version == CURRENT_VERSION {
        Ok(VersionedJustification::Current(SelendraJustification { certificate: payload }))
    } else {
        Ok(VersionedJustification::Other(version, payload))
    }
}

/// Decodes a justification, whichever version of the protocol wrote it.
///
/// Bytes that are no frame are refused as malformed; a frame of a version
/// that this node does not read is refused for its version.
pub fn backwards_compatible_decode(justification_raw: Vec<u8>) -> (decoded: Result<
    SelendraJustification,
    DecodeError,
>)
    ensures
        match decoded {
            Ok(justification) => spec_decode(justification_raw@) == Ok::<Seq<u8>, DecodeError>(
                justification@,
            ),
            Err(error) => spec_decode(justification_raw@) == Err::<Seq<u8>, DecodeError>(error),
        },
{
    match decode_versioned(&justification_raw) {
        Ok(VersionedJustification::Legacy(justification)) => Ok(justification),
        Ok(VersionedJustification::Current(justification)) => Ok(justification),
        Ok(VersionedJustification::Other(version, _)) => Err(
            DecodeError::UnsupportedVersion(version),
        ),
        Err(error) => Err(error),
    }
}

/// The greatest length of a payload that the frame of a message can state.
pub const MAX_MESSAGE_PAYLOAD: usize = 4294967295;

/// The number that four bytes stand for, the lowest byte first.
pub open spec fn spec_u32_le(first: u8, second: u8, third: u8, fourth: u8) -> u32 {
    (first + second * 256 + third * 65536 + fourth * 16777216) as u32
}

/// The byte at place `place` of a number of four bytes, counted from the lowest.
pub open spec fn spec_byte(number: u32, place: nat) -> u8 {
    if place == 0 {
        (number % 256) as u8
    } else if place == 1 {
        ((number / 256) % 256) as u8
    } else if place == 2 {
        ((number / 65536) % 256) as u8
    } else {
        (number / 16777216) as u8
    }
}

/// The length that the frame of a message states for a payload of `length` bytes.
pub open spec fn spec_stated_message_length(length: nat) -> u32 {
    if length > MAX_MESSAGE_PAYLOAD {
        MAX_MESSAGE_PAYLOAD as u32
    } else {
        length as u32
    }
}

/// The frame of a message: the version in two bytes, the length of the
/// payload in four bytes, and the payload.
pub open spec fn spec_encode_message(version: Version, payload: Seq<u8>) -> Seq<u8> {
    seq![
        spec_low(version),
        spec_high(version),
        spec_byte(spec_stated_message_length(payload.len()), 0),
        spec_byte(spec_stated_message_length(payload.len()), 1),
        spec_byte(spec_stated_message_length(payload.len()), 2),
        spec_byte(spec_stated_message_length(payload.len()), 3),
    ] + payload
}

/// The version and the payload of the message frame that `raw` is, if it is one.
pub open spec fn spec_message_frame(raw: Seq<u8>) -> Option<(Version, Seq<u8>)> {
    if raw.len() < 6 {
        None
    } else if raw.len() - 6 != spec_u32_le(raw[2], raw[3], raw[4], raw[5]) {
        None
    } else {
        Some((spec_u16_le(raw[0], raw[1]), raw.subrange(6, raw.len() as int)))
    }
}

/// Four bytes written from a number read back as that number.
pub proof fn lemma_u32_bytes(number: u32)
    ensures
        spec_u32_le(
            spec_byte(number, 0),
            spec_byte(number, 1),
            spec_byte(number, 2),
            spec_byte(number, 3),
        ) == number,
{
}

/// The frame of a message reads back as the version and the payload it was
/// written from, provided that the payload is no longer than a frame can state.
pub proof fn lemma_message_frame_of_encoding(version: Version, payload: Seq<u8>)
    requires
        payload.len() <= MAX_MESSAGE_PAYLOAD,
    ensures
        spec_message_frame(spec_encode_message(version, payload)) == Some((version, payload)),
{
    let raw = spec_encode_message(version, payload);
    let length = spec_stated_message_length(payload.len());
    lemma_u16_bytes(version);
    lemma_u32_bytes(length);
    assert(raw.len() == payload.len() + 6);
    assert(raw[0] == spec_low(version));
    assert(raw[1] == spec_high(version));
    assert(raw[2] == spec_byte(length, 0));
    assert(raw[3] == spec_byte(length, 1));
    assert(raw[4] == spec_byte(length, 2));
    assert(raw[5] == spec_byte(length, 3));
    assert(raw.subrange(6, raw.len() as int) =~= payload);
}

/// Whether this node reads messages and justifications of `version`.
pub fn reads_version(version: Version) -> (read: bool)
    ensures
        read == (version == LEGACY_VERSION || version == CURRENT_VERSION),
{
    version == LEGACY_VERSION || version == CURRENT_VERSION
}

/// Frames the payload of a message in version `version`.
pub fn encode_message(version: Version, payload: &Vec<u8>) -> (raw: Vec<u8>)
    ensures
        raw@ == spec_encode_message(version, payload@),
{
    let size: u32 = if payload.len() > MAX_MESSAGE_PAYLOAD {
        4294967295
    } else {
        payload.len() as u32
    };
    let mut raw: Vec<u8> = Vec::new();
    raw.push((version % 256) as u8);
    raw.push((version / 256) as u8);
    raw.push((size % 256) as u8);
    raw.push(((size / 256) % 256) as u8);
    raw.push(((size / 65536) % 256) as u8);
    raw.push((size / 16777216) as u8);
    let mut i: usize = 0;
    while i < payload.len()
        invariant
            0 <= i <= payload.len(),
            raw@ == spec_encode_message(version, payload@).subrange(0, 6 + i),
        decreases payload.len() - i,
    {
        raw.push(payload[i]);
        proof {
            assert(raw@ =~= spec_encode_message(version, payload@).subrange(0, 6 + i + 1));
        }
        i = i + 1;
    }
    proof {
        assert(raw@ =~= spec_encode_message(version, payload@));
    }
    raw
}

/// Reads `raw` as the frame of a message: hands out the version and the
/// payload, or refuses bytes that are no frame.
pub fn decode_message(raw: &Vec<u8>) -> (decoded: Result<(Version, Vec<u8>), DecodeError>)
    ensures
        match decoded {
            Ok((version, payload)) => spec_message_frame(raw@) == Some((version, payload@)),
            Err(error) => spec_message_frame(raw@).is_none() && error == DecodeError::BadFormat,
        },
{
    if raw.len() < 6 {
        return Err(DecodeError::BadFormat);
    }
    let version: u16 = raw[0] as u16 + raw[1] as u16 * 256;
    let count: u32 = raw[2] as u32 + raw[3] as u32 * 256 + raw[4] as u32 * 65536 + raw[5] as u32
        * 16777216;
    if (raw.len() - 6) as u64 != count as u64 {
        return Err(DecodeError::BadFormat);
    }
    let mut payload: Vec<u8> = Vec::new();
    let mut i: usize = 6;
    while i < raw.len()
        invariant
            6 <= i <= raw.len(),
            payload@ == raw@.subrange(6, i as int),
        decreases raw.len() - i,
    {
        payload.push(raw[i]);
        proof {
            assert(payload@ =~= raw@.subrange(6, i + 1));
        }
        i = i + 1;
    }
    Ok((version, payload))
}

} // verus!
