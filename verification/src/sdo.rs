use vstd::prelude::*;
use vstd::string::StringExecFns;

use crate::frame::RawCanFrame;
use crate::text::spec_dec_digits;
use crate::text::spec_hex_digits;
use crate::text::u32_to_hex;
use crate::text::u64_to_dec;
use crate::text::str_eq;

verus! {

/// SDO command specifiers used by the expedited protocol.
#[derive(Debug, Clone, Copy, PartialEq, Eq, Structural)]
pub enum SdoCommand {
    /// Initiate domain upload (read).
    InitiateUploadRequest,
    /// Expedited upload response (1-4 bytes).
    ExpeditedUploadResponse,
    /// Segmented upload response.
    SegmentedUploadResponse,
    /// Upload segment request.
    UploadSegmentRequest,
    /// Upload segment response.
    UploadSegmentResponse,
    /// Abort transfer.
    AbortTransfer,
}

impl SdoCommand {
    /// The wire value of this command specifier.
    pub open spec fn spec_code(self) -> u8 {
        match self {
            SdoCommand::InitiateUploadRequest => 0x40,
            SdoCommand::ExpeditedUploadResponse => 0x43,
            SdoCommand::SegmentedUploadResponse => 0x41,
            SdoCommand::UploadSegmentRequest => 0x60,
            SdoCommand::UploadSegmentResponse => 0x00,
            SdoCommand::AbortTransfer => 0x80,
        }
    }

    /// The wire value of this command specifier.
    #[verifier::when_used_as_spec(spec_code)]
    pub fn code(self) -> (c: u8)
        ensures
            c == self.spec_code(),
    {
        match self {
            SdoCommand::InitiateUploadRequest => 0x40,
            SdoCommand::ExpeditedUploadResponse => 0x43,
            SdoCommand::SegmentedUploadResponse => 0x41,
            SdoCommand::UploadSegmentRequest => 0x60,
            SdoCommand::UploadSegmentResponse => 0x00,
            SdoCommand::AbortTransfer => 0x80,
        }
    }

    /// Whether a response command byte announces an expedited upload response:
    /// the top three bits are 010 (value in 0x40..0x60) and the expedited bit
    /// (bit 1) is set.
    pub open spec fn spec_is_expedited_response(value: u8) -> bool {
        value / 32 == 2 && (value / 2) % 2 == 1
    }

    /// Whether a response command byte announces an expedited upload response.
    #[verifier::when_used_as_spec(spec_is_expedited_response)]
    pub fn is_expedited_response(value: u8) -> (r: bool)
        ensures
            r == Self::spec_is_expedited_response(value),
    {
        value / 32 == 2 && (value / 2) % 2 == 1
    }
}

/// Number of padding bytes announced by an expedited upload response command
/// byte: bits 2 and 3 count the trailing bytes that carry no data.
pub open spec fn spec_expedited_unused_count(command: u8) -> int {
    ((command / 4) % 4) as int
}

/// Data types an SDO object can carry in this protocol.
#[derive(Debug, Clone, Copy, PartialEq, Eq, Structural)]
pub enum SdoDataType {
    UInt8,
    UInt16,
    UInt32,
    Int8,
    Int16,
    Int32,
    Real32,
    VisibleString,
    OctetString,
}

/// An SDO upload (read) request.
#[derive(Debug, Clone)]
pub struct SdoRequest {
    pub node_id: u8,
    pub index: u16,
    pub subindex: u8,
    pub expected_type: SdoDataType,
}

/// An SDO expedited download (write) request; the payload is at most 4 bytes.
#[derive(Debug, Clone)]
pub struct SdoWriteRequest {
    pub node_id: u8,
    pub index: u16,
    pub subindex: u8,
    pub data: Vec<u8>,
}

/// A decoded SDO response value.
///
/// `Real32` carries the IEEE 754 bit pattern of the 32-bit float read off the
/// wire; callers that need the floating-point value reinterpret the bits.
#[derive(Debug, Clone, PartialEq)]
pub enum SdoResponseData {
    UInt8(u8),
    UInt16(u16),
    UInt32(u32),
    Int8(i8),
    Int16(i16),
    Int32(i32),
    Real32(u32),
    String(String),
    Bytes(Vec<u8>),
    Error { code: u32, info: String },
}

/// A decoded SDO response, paired with the raw frame bytes it came from.
#[derive(Debug, Clone)]
pub struct SdoResponse {
    pub node_id: u8,
    pub index: u16,
    pub subindex: u8,
    pub data: SdoResponseData,
    pub raw_data: Vec<u8>,
}

/// Errors an SDO operation can end in.
#[derive(Debug)]
pub enum SdoError {
    /// Transport open or write failure.
    SocketError(String),
    /// No response arrived within the device timeout.
    Timeout,
    /// A frame failed structural or semantic validation.
    InvalidResponse(String),
    /// The device rejected the operation with an abort code.
    AbortTransfer { code: u32, info: String },
    /// The payload was shorter than the declared type's width.
    ParseError(String),
}

/// The 8 data bytes of an SDO upload request frame: command byte 0x40, the
/// object index in little-endian order, the sub-index, then zero padding.
pub open spec fn spec_request_frame_data(request: SdoRequest) -> Seq<u8> {
    seq![
        0x40u8,
        (request.index % 256) as u8,
        (request.index / 256) as u8,
        request.subindex,
        0u8,
        0u8,
        0u8,
        0u8,
    ]
}

/// Build the CAN frame for an SDO upload request: identifier 0x600 plus the
/// node id, and the 8 data bytes of `spec_request_frame_data`. Never fails: a
/// node id always yields a valid standard identifier.
pub fn create_sdo_request_frame(request: &SdoRequest) -> (r: Result<RawCanFrame, SdoError>)
    ensures
        r is Ok,
        r matches Ok(f) ==> f.wf() && f.cob_id == 0x600 + request.node_id
            && f.data@ == spec_request_frame_data(*request),
{
    let mut data: Vec<u8> = Vec::new();
    data.push(0x40);
    data.push((request.index % 256) as u8);
    data.push((request.index / 256) as u8);
    data.push(request.subindex);
    data.push(0);
    data.push(0);
    data.push(0);
    data.push(0);
    assert(data@ =~= spec_request_frame_data(*request));
    Ok(RawCanFrame { cob_id: 0x600 + request.node_id as u16, data })
}

/// The 8 data bytes of an expedited SDO download request carrying `payload`:
/// the command byte announces "initiate download, expedited, size indicated"
/// with the unused-byte count in bits 2-3, then index, sub-index, payload and
/// zero padding.
pub open spec fn spec_write_frame_data(request: SdoWriteRequest) -> Seq<u8>
    recommends
        request.data@.len() <= 4,
{
    let n = 4 - request.data@.len();
    seq![
        (0x23 + 4 * n) as u8,
        (request.index % 256) as u8,
        (request.index / 256) as u8,
        request.subindex,
    ] + request.data@ + Seq::new(n as nat, |j: int| 0u8)
}

/// Build the CAN frame for an expedited SDO download (write) request.
/// Succeeds exactly when the payload fits the expedited limit of 4 bytes.
pub fn create_sdo_write_frame(request: &SdoWriteRequest) -> (r: Result<RawCanFrame, SdoError>)
    ensures
        r is Ok <==> request.data@.len() <= 4,
        r matches Ok(f) ==> f.wf() && f.cob_id == 0x600 + request.node_id
            && f.data@ == spec_write_frame_data(*request),
        r matches Err(e) ==> e matches SdoError::InvalidResponse(_),
{
    if request.data.len() > 4 {
        return Err(SdoError::InvalidResponse(
            String::from_str("Payload exceeds 4 bytes (expedited transfer limit)"),
        ));
    }
    let n: u8 = 4 - request.data.len() as u8;
    let mut data: Vec<u8> = Vec::new();
    data.push(0x23 + 4 * n);
    data.push((request.index % 256) as u8);
    data.push((request.index / 256) as u8);
    data.push(request.subindex);
    let mut i: usize = 0;
    while i < request.data.len()
        invariant
            i <= request.data@.len() <= 4,
            data@.len() == 4 + i,
            data@[0] == (0x23 + 4 * (4 - request.data@.len())) as u8,
            data@[1] == (request.index % 256) as u8,
            data@[2] == (request.index / 256) as u8,
            data@[3] == request.subindex,
            forall|j: int| 0 <= j < i ==> data@[4 + j] == request.data@[j],
        decreases request.data@.len() - i,
    {
        data.push(request.data[i]);
        i = i + 1;
    }
    while data.len() < 8
        invariant
            request.data@.len() <= 4,
            4 + request.data@.len() <= data@.len() <= 8,
            data@[0] == (0x23 + 4 * (4 - request.data@.len())) as u8,
            data@[1] == (request.index % 256) as u8,
            data@[2] == (request.index / 256) as u8,
            data@[3] == request.subindex,
            forall|j: int| 0 <= j < request.data@.len() ==> data@[4 + j] == request.data@[j],
            forall|j: int| 4 + request.data@.len() <= j < data@.len() ==> data@[j] == 0u8,
        decreases 8 - data@.len(),
    {
        data.push(0);
    }
    assert(data@ =~= spec_write_frame_data(*request));
    Ok(RawCanFrame { cob_id: 0x600 + request.node_id as u16, data })
}

/// The unsigned value of two little-endian bytes.
pub open spec fn spec_u16_le(b0: u8, b1: u8) -> u16 {
    (b0 + 256 * b1) as u16
}

/// The unsigned value of four little-endian bytes.
pub open spec fn spec_u32_le(b0: u8, b1: u8, b2: u8, b3: u8) -> u32 {
    (b0 + 256 * b1 + 65536 * b2 + 16777216 * b3) as u32
}

/// The two's-complement value of two little-endian bytes.
pub open spec fn spec_i16_le(b0: u8, b1: u8) -> i16 {
    if b1 >= 128 {
        (b0 + 256 * b1 - 65536) as i16
    } else {
        (b0 + 256 * b1) as i16
    }
}

/// The two's-complement value of four little-endian bytes.
pub open spec fn spec_i32_le(b0: u8, b1: u8, b2: u8, b3: u8) -> i32 {
    if b3 >= 128 {
        (b0 + 256 * b1 + 65536 * b2 + 16777216 * b3 - 0x1_0000_0000) as i32
    } else {
        (b0 + 256 * b1 + 65536 * b2 + 16777216 * b3) as i32
    }
}

/// Read two little-endian bytes as an unsigned number.
pub fn u16_le(b0: u8, b1: u8) -> (v: u16)
    ensures
        v == spec_u16_le(b0, b1),
{
    b0 as u16 + 256 * (b1 as u16)
}

/// Read four little-endian bytes as an unsigned number.
pub fn u32_le(b0: u8, b1: u8, b2: u8, b3: u8) -> (v: u32)
    ensures
        v == spec_u32_le(b0, b1, b2, b3),
{
    b0 as u32 + 256 * (b1 as u32) + 65536 * (b2 as u32) + 16777216 * (b3 as u32)
}

/// Read two little-endian bytes as a signed number.
pub fn i16_le(b0: u8, b1: u8) -> (v: i16)
    ensures
        v == spec_i16_le(b0, b1),
{
    let u = u16_le(b0, b1);
    if u >= 0x8000 {
        ((u as i32) - 0x10000) as i16
    } else {
        u as i16
    }
}

/// Read four little-endian bytes as a signed number.
pub fn i32_le(b0: u8, b1: u8, b2: u8, b3: u8) -> (v: i32)
    ensures
        v == spec_i32_le(b0, b1, b2, b3),
{
    let u = u32_le(b0, b1, b2, b3);
    if u >= 0x8000_0000 {
        ((u as i64) - 0x1_0000_0000) as i32
    } else {
        u as i32
    }
}

/// The little-endian bytes of a 16-bit unsigned value.
pub open spec fn spec_u16_le_bytes(v: u16) -> Seq<u8> {
    seq![(v % 256) as u8, (v / 256) as u8]
}

/// The little-endian bytes of a 32-bit unsigned value.
pub open spec fn spec_u32_le_bytes(v: u32) -> Seq<u8> {
    seq![
        (v % 256) as u8,
        ((v / 256) % 256) as u8,
        ((v / 65536) % 256) as u8,
        (v / 16777216) as u8,
    ]
}

/// Splitting a 16-bit value into little-endian bytes and reading them back
/// returns the value.
pub proof fn lemma_u16_le_round_trip(v: u16)
    ensures
        spec_u16_le(spec_u16_le_bytes(v)[0], spec_u16_le_bytes(v)[1]) == v,
{
    vstd::arithmetic::div_mod::lemma_fundamental_div_mod(v as int, 256);
}

/// Splitting a 32-bit value into little-endian bytes and reading them back
/// returns the value.
pub proof fn lemma_u32_le_round_trip(v: u32)
    ensures
        spec_u32_le(
            spec_u32_le_bytes(v)[0],
            spec_u32_le_bytes(v)[1],
            spec_u32_le_bytes(v)[2],
            spec_u32_le_bytes(v)[3],
        ) == v,
{
    vstd::arithmetic::div_mod::lemma_fundamental_div_mod(v as int, 256);
    vstd::arithmetic::div_mod::lemma_fundamental_div_mod(v as int / 256, 256);
    vstd::arithmetic::div_mod::lemma_fundamental_div_mod(v as int / 65536, 256);
    vstd::arithmetic::div_mod::lemma_div_denominator(v as int, 256, 256);
    vstd::arithmetic::div_mod::lemma_div_denominator(v as int, 65536, 256);
}

/// The little-endian bytes of a 16-bit signed value, as its two's-complement
/// unsigned image.
pub open spec fn spec_i16_le_bytes(v: i16) -> Seq<u8> {
    spec_u16_le_bytes(
        if v >= 0 {
            v as u16
        } else {
            (v + 0x10000) as u16
        },
    )
}

/// The little-endian bytes of a 32-bit signed value, as its two's-complement
/// unsigned image.
pub open spec fn spec_i32_le_bytes(v: i32) -> Seq<u8> {
    spec_u32_le_bytes(
        if v >= 0 {
            v as u32
        } else {
            (v + 0x1_0000_0000) as u32
        },
    )
}

/// Splitting a 16-bit signed value into little-endian bytes and reading them
/// back returns the value.
pub proof fn lemma_i16_le_round_trip(v: i16)
    ensures
        spec_i16_le(spec_i16_le_bytes(v)[0], spec_i16_le_bytes(v)[1]) == v,
{
    let u: u16 = if v >= 0 {
        v as u16
    } else {
        (v + 0x10000) as u16
    };
    lemma_u16_le_round_trip(u);
    vstd::arithmetic::div_mod::lemma_fundamental_div_mod(u as int, 256);
}

/// Splitting a 32-bit signed value into little-endian bytes and reading them
/// back returns the value.
pub proof fn lemma_i32_le_round_trip(v: i32)
    ensures
        spec_i32_le(
            spec_i32_le_bytes(v)[0],
            spec_i32_le_bytes(v)[1],
            spec_i32_le_bytes(v)[2],
            spec_i32_le_bytes(v)[3],
        ) == v,
{
    let u: u32 = if v >= 0 {
        v as u32
    } else {
        (v + 0x1_0000_0000) as u32
    };
    lemma_u32_le_round_trip(u);
    vstd::arithmetic::div_mod::lemma_fundamental_div_mod(u as int, 16777216);
}

/// Build the little-endian byte vector of a 16-bit unsigned value.
pub fn u16_le_bytes(v: u16) -> (b: Vec<u8>)
    ensures
        b@ == spec_u16_le_bytes(v),
{
    let mut b: Vec<u8> = Vec::new();
    b.push((v % 256) as u8);
    b.push((v / 256) as u8);
    assert(b@ =~= spec_u16_le_bytes(v));
    b
}

/// Build the little-endian byte vector of a 32-bit unsigned value.
pub fn u32_le_bytes(v: u32) -> (b: Vec<u8>)
    ensures
        b@ == spec_u32_le_bytes(v),
{
    let mut b: Vec<u8> = Vec::new();
    b.push((v % 256) as u8);
    b.push(((v / 256) % 256) as u8);
    b.push(((v / 65536) % 256) as u8);
    b.push((v / 16777216) as u8);
    assert(b@ =~= spec_u32_le_bytes(v));
    b
}

/// Bytes of `s` with every trailing zero byte removed.
pub open spec fn spec_trim_trailing_nul(s: Seq<u8>) -> Seq<u8>
    decreases s.len(),
{
    if s.len() > 0 && s.last() == 0 {
        spec_trim_trailing_nul(s.drop_last())
    } else {
        s
    }
}

/// What `String::from_utf8_lossy` decodes the given bytes to.
pub uninterp spec fn utf8_lossy_of(bytes: Seq<u8>) -> Seq<char>;

/// Relies on String::from_utf8_lossy: the decoding is a pure function of the
/// bytes, and bytes below 0x80 are ASCII, which decodes to exactly those
/// characters.
#[verifier::external_body]
pub(crate) fn utf8_lossy(bytes: &[u8]) -> (r: String)
    ensures
        r@ == utf8_lossy_of(bytes@),
        (forall|i: int| 0 <= i < bytes@.len() ==> bytes@[i] < 0x80) ==> (r@.len() == bytes@.len()
            && forall|i: int| 0 <= i < bytes@.len() ==> r@[i] == bytes@[i] as char),
{
    String::from_utf8_lossy(bytes).into_owned()
}

/// Whether the payload is long enough to decode as the given type.
pub open spec fn spec_payload_ok(p: Seq<u8>, t: SdoDataType) -> bool {
    match t {
        SdoDataType::UInt8 | SdoDataType::Int8 => p.len() >= 1,
        SdoDataType::UInt16 | SdoDataType::Int16 => p.len() >= 2,
        SdoDataType::UInt32 | SdoDataType::Int32 | SdoDataType::Real32 => p.len() >= 4,
        SdoDataType::VisibleString | SdoDataType::OctetString => true,
    }
}

/// What a payload decodes to under each declared type: fixed-width values are
/// little-endian reads of the leading bytes, a visible string is trimmed of
/// trailing zero bytes and decoded as UTF-8, and an octet string passes
/// through unchanged.
pub open spec fn spec_decoded_matches(p: Seq<u8>, t: SdoDataType, d: SdoResponseData) -> bool {
    match t {
        SdoDataType::UInt8 => d matches SdoResponseData::UInt8(v) && v == p[0],
        SdoDataType::UInt16 => d matches SdoResponseData::UInt16(v) && v == spec_u16_le(p[0], p[1]),
        SdoDataType::UInt32 => d matches SdoResponseData::UInt32(v) && v == spec_u32_le(
            p[0],
            p[1],
            p[2],
            p[3],
        ),
        SdoDataType::Int8 => d matches SdoResponseData::Int8(v) && v == p[0] as i8,
        SdoDataType::Int16 => d matches SdoResponseData::Int16(v) && v == spec_i16_le(p[0], p[1]),
        SdoDataType::Int32 => d matches SdoResponseData::Int32(v) && v == spec_i32_le(
            p[0],
            p[1],
            p[2],
            p[3],
        ),
        SdoDataType::Real32 => d matches SdoResponseData::Real32(v) && v == spec_u32_le(
            p[0],
            p[1],
            p[2],
            p[3],
        ),
        SdoDataType::VisibleString => d matches SdoResponseData::String(s) && s@ == utf8_lossy_of(
            spec_trim_trailing_nul(p),
        ),
        SdoDataType::OctetString => d matches SdoResponseData::Bytes(b) && b@ == p,
    }
}

/// The parse error text for a payload too short for its declared type.
pub open spec fn spec_insufficient_message(t: SdoDataType) -> Seq<char> {
    match t {
        SdoDataType::UInt8 => "Insufficient data for UInt8"@,
        SdoDataType::UInt16 => "Insufficient data for UInt16"@,
        SdoDataType::UInt32 => "Insufficient data for UInt32"@,
        SdoDataType::Int8 => "Insufficient data for Int8"@,
        SdoDataType::Int16 => "Insufficient data for Int16"@,
        SdoDataType::Int32 => "Insufficient data for Int32"@,
        SdoDataType::Real32 => "Insufficient data for Real32"@,
        SdoDataType::VisibleString | SdoDataType::OctetString => Seq::empty(),
    }
}

/// Decode a payload according to the caller-declared data type. Succeeds
/// exactly when the payload is long enough for the type; the error names the
/// type that did not fit.
pub fn parse_payload(payload: &[u8], data_type: &SdoDataType) -> (r: Result<
    SdoResponseData,
    SdoError,
>)
    ensures
        r is Ok <==> spec_payload_ok(payload@, *data_type),
        r matches Ok(d) ==> spec_decoded_matches(payload@, *data_type, d),
        r matches Err(e) ==> e matches SdoError::ParseError(m) && m@ == spec_insufficient_message(
            *data_type,
        ),
{
    match data_type {
        SdoDataType::UInt8 => {
            if payload.len() >= 1 {
                Ok(SdoResponseData::UInt8(payload[0]))
            } else {
                Err(SdoError::ParseError(String::from_str("Insufficient data for UInt8")))
            }
        },
        SdoDataType::UInt16 => {
            if payload.len() >= 2 {
                Ok(SdoResponseData::UInt16(u16_le(payload[0], payload[1])))
            } else {
                Err(SdoError::ParseError(String::from_str("Insufficient data for UInt16")))
            }
        },
        SdoDataType::UInt32 => {
            if payload.len() >= 4 {
                Ok(SdoResponseData::UInt32(u32_le(payload[0], payload[1], payload[2], payload[3])))
            } else {
                Err(SdoError::ParseError(String::from_str("Insufficient data for UInt32")))
            }
        },
        SdoDataType::Int8 => {
            if payload.len() >= 1 {
                Ok(SdoResponseData::Int8(payload[0] as i8))
            } else {
                Err(SdoError::ParseError(String::from_str("Insufficient data for Int8")))
            }
        },
        SdoDataType::Int16 => {
            if payload.len() >= 2 {
                Ok(SdoResponseData::Int16(i16_le(payload[0], payload[1])))
            } else {
                Err(SdoError::ParseError(String::from_str("Insufficient data for Int16")))
            }
        },
        SdoDataType::Int32 => {
            if payload.len() >= 4 {
                Ok(SdoResponseData::Int32(i32_le(payload[0], payload[1], payload[2], payload[3])))
            } else {
                Err(SdoError::ParseError(String::from_str("Insufficient data for Int32")))
            }
        },
        SdoDataType::Real32 => {
            if payload.len() >= 4 {
                Ok(SdoResponseData::Real32(u32_le(payload[0], payload[1], payload[2], payload[3])))
            } else {
                Err(SdoError::ParseError(String::from_str("Insufficient data for Real32")))
            }
        },
        SdoDataType::VisibleString => {
            let mut end = payload.len();
            proof {
                assert(payload@.take(end as int) =~= payload@);
            }
            while end > 0 && payload[end - 1] == 0
                invariant
                    end <= payload@.len(),
                    spec_trim_trailing_nul(payload@) == spec_trim_trailing_nul(
                        payload@.take(end as int),
                    ),
                decreases end,
            {
                proof {
                    assert(payload@.take(end as int).drop_last() =~= payload@.take(end - 1));
                }
                end = end - 1;
            }
            proof {
                assert(spec_trim_trailing_nul(payload@.take(end as int)) == payload@.take(
                    end as int,
                ));
            }
            let trimmed: &[u8] = &payload[0..end];
            assert(trimmed@ =~= payload@.take(end as int));
            Ok(SdoResponseData::String(utf8_lossy(trimmed)))
        },
        SdoDataType::OctetString => {
            let mut bytes: Vec<u8> = Vec::new();
            let mut i: usize = 0;
            while i < payload.len()
                invariant
                    i <= payload@.len(),
                    bytes@ == payload@.take(i as int),
                decreases payload@.len() - i,
            {
                bytes.push(payload[i]);
                proof {
                    assert(payload@.take(i + 1).drop_last() =~= payload@.take(i as int));
                    assert(bytes@ =~= payload@.take(i + 1));
                }
                i = i + 1;
            }
            proof {
                assert(payload@.take(i as int) =~= payload@);
            }
            Ok(SdoResponseData::Bytes(bytes))
        },
    }
}

/// The fixed table of abort code descriptions; unrecognized codes render as a
/// hexadecimal fallback, never an error.
pub open spec fn spec_abort_description(code: u32) -> Seq<char> {
    if code == 0x05030000 {
        "Toggle bit not alternated"@
    } else if code == 0x05040000 {
        "SDO protocol timed out"@
    } else if code == 0x05040001 {
        "Client/server command specifier not valid or unknown"@
    } else if code == 0x05040005 {
        "Out of memory"@
    } else if code == 0x06010000 {
        "Unsupported access to an object"@
    } else if code == 0x06010001 {
        "Attempt to read a write only object"@
    } else if code == 0x06010002 {
        "Attempt to write a read only object"@
    } else if code == 0x06020000 {
        "Object does not exist in the object dictionary"@
    } else if code == 0x06040041 {
        "Object cannot be mapped to the PDO"@
    } else if code == 0x06040042 {
        "The number and length of the objects to be mapped would exceed PDO length"@
    } else if code == 0x06040043 {
        "General parameter incompatibility reason"@
    } else if code == 0x06040047 {
        "General internal incompatibility in the device"@
    } else if code == 0x06060000 {
        "Access failed due to a hardware error"@
    } else if code == 0x06070010 {
        "Data type does not match, length of service parameter does not match"@
    } else if code == 0x06070012 {
        "Data type does not match, length of service parameter too high"@
    } else if code == 0x06070013 {
        "Data type does not match, length of service parameter too low"@
    } else if code == 0x06090011 {
        "Sub-index does not exist"@
    } else if code == 0x06090030 {
        "Value range of parameter exceeded (only for write access)"@
    } else if code == 0x06090031 {
        "Value of parameter written too high"@
    } else if code == 0x06090032 {
        "Value of parameter written too low"@
    } else if code == 0x06090036 {
        "Maximum value is less than minimum value"@
    } else if code == 0x08000000 {
        "General error"@
    } else if code == 0x08000020 {
        "Data cannot be transferred or stored to the application"@
    } else if code == 0x08000021 {
        "Data cannot be transferred or stored to the application because of local control"@
    } else if code == 0x08000022 {
        "Data cannot be transferred or stored to the application because of the present device state"@
    } else {
        "Unknown abort code: 0x"@ + spec_hex_digits(code as nat, 8)
    }
}

/// Human-readable description of an SDO abort code, from the fixed table;
/// unrecognized codes render as a hexadecimal fallback.
pub fn get_abort_code_description(code: u32) -> (r: String)
    ensures
        r@ == spec_abort_description(code),
{
    match code {
        0x05030000 => String::from_str("Toggle bit not alternated"),
        0x05040000 => String::from_str("SDO protocol timed out"),
        0x05040001 => String::from_str("Client/server command specifier not valid or unknown"),
        0x05040005 => String::from_str("Out of memory"),
        0x06010000 => String::from_str("Unsupported access to an object"),
        0x06010001 => String::from_str("Attempt to read a write only object"),
        0x06010002 => String::from_str("Attempt to write a read only object"),
        0x06020000 => String::from_str("Object does not exist in the object dictionary"),
        0x06040041 => String::from_str("Object cannot be mapped to the PDO"),
        0x06040042 => String::from_str(
            "The number and length of the objects to be mapped would exceed PDO length",
        ),
        0x06040043 => String::from_str("General parameter incompatibility reason"),
        0x06040047 => String::from_str("General internal incompatibility in the device"),
        0x06060000 => String::from_str("Access failed due to a hardware error"),
        0x06070010 => String::from_str(
            "Data type does not match, length of service parameter does not match",
        ),
        0x06070012 => String::from_str(
            "Data type does not match, length of service parameter too high",
        ),
        0x06070013 => String::from_str(
            "Data type does not match, length of service parameter too low",
        ),
        0x06090011 => String::from_str("Sub-index does not exist"),
        0x06090030 => String::from_str("Value range of parameter exceeded (only for write access)"),
        0x06090031 => String::from_str("Value of parameter written too high"),
        0x06090032 => String::from_str("Value of parameter written too low"),
        0x06090036 => String::from_str("Maximum value is less than minimum value"),
        0x08000000 => String::from_str("General error"),
        0x08000020 => String::from_str("Data cannot be transferred or stored to the application"),
        0x08000021 => String::from_str(
            "Data cannot be transferred or stored to the application because of local control",
        ),
        0x08000022 => String::from_str(
            "Data cannot be transferred or stored to the application because of the present device state",
        ),
        _ => {
            let mut s = String::from_str("Unknown abort code: 0x");
            let digits = u32_to_hex(code, 8);
            s.append(digits.as_str());
            s
        },
    }
}

impl SdoDataType {
    /// Map a device-description data type code (hexadecimal or decimal
    /// spelling) to the data type it declares.
    pub open spec fn spec_from_eds_type(s: Seq<char>) -> Option<SdoDataType> {
        if s == "0x0001"@ || s == "1"@ {
            Some(SdoDataType::UInt8)
        } else if s == "0x0002"@ || s == "2"@ {
            Some(SdoDataType::Int8)
        } else if s == "0x0003"@ || s == "3"@ {
            Some(SdoDataType::UInt16)
        } else if s == "0x0004"@ || s == "4"@ {
            Some(SdoDataType::Int16)
        } else if s == "0x0005"@ || s == "5"@ {
            Some(SdoDataType::UInt32)
        } else if s == "0x0006"@ || s == "6"@ {
            Some(SdoDataType::Int32)
        } else if s == "0x0008"@ || s == "8"@ {
            Some(SdoDataType::Real32)
        } else if s == "0x0009"@ || s == "9"@ {
            Some(SdoDataType::VisibleString)
        } else if s == "0x000A"@ || s == "10"@ {
            Some(SdoDataType::OctetString)
        } else {
            None
        }
    }

    /// Map a device-description data type code to the data type it declares.
    pub fn from_eds_type(eds_type: &str) -> (r: Option<SdoDataType>)
        ensures
            r == Self::spec_from_eds_type(eds_type@),
    {
        if str_eq(eds_type, "0x0001") || str_eq(eds_type, "1") {
            Some(SdoDataType::UInt8)
        } else if str_eq(eds_type, "0x0002") || str_eq(eds_type, "2") {
            Some(SdoDataType::Int8)
        } else if str_eq(eds_type, "0x0003") || str_eq(eds_type, "3") {
            Some(SdoDataType::UInt16)
        } else if str_eq(eds_type, "0x0004") || str_eq(eds_type, "4") {
            Some(SdoDataType::Int16)
        } else if str_eq(eds_type, "0x0005") || str_eq(eds_type, "5") {
            Some(SdoDataType::UInt32)
        } else if str_eq(eds_type, "0x0006") || str_eq(eds_type, "6") {
            Some(SdoDataType::Int32)
        } else if str_eq(eds_type, "0x0008") || str_eq(eds_type, "8") {
            Some(SdoDataType::Real32)
        } else if str_eq(eds_type, "0x0009") || str_eq(eds_type, "9") {
            Some(SdoDataType::VisibleString)
        } else if str_eq(eds_type, "0x000A") || str_eq(eds_type, "10") {
            Some(SdoDataType::OctetString)
        } else {
            None
        }
    }
}

/// Whether the frame's index and sub-index fields echo the request's.
pub open spec fn spec_response_matches_request(p: Seq<u8>, request: SdoRequest) -> bool {
    spec_u16_le(p[1], p[2]) == request.index && p[3] == request.subindex
}

/// The abort code carried in bytes 4-7, or zero when the frame is shorter.
pub open spec fn spec_abort_code_of(p: Seq<u8>) -> u32 {
    if p.len() >= 8 {
        spec_u32_le(p[4], p[5], p[6], p[7])
    } else {
        0
    }
}

/// The error text for a response whose object address does not echo the
/// request's.
pub open spec fn spec_mismatch_message(request: SdoRequest, index: u16, subindex: u8) -> Seq<
    char,
> {
    "Response mismatch: expected index=0x"@ + spec_hex_digits(request.index as nat, 4)
        + ", subindex="@ + spec_dec_digits(request.subindex as nat) + ", got index=0x"@
        + spec_hex_digits(index as nat, 4) + ", subindex="@ + spec_dec_digits(subindex as nat)
}

/// The error text for a command byte this crate does not implement
/// (segmented transfers in particular).
pub open spec fn spec_not_implemented_message(command: u8) -> Seq<char> {
    "Segmented SDO transfer not implemented yet (command=0x"@ + spec_hex_digits(command as nat, 2)
        + ")"@
}

/// The full outcome relation of `parse_sdo_response`: given the frame data
/// bytes and the request, what result the parse must produce.
///
/// A frame shorter than 4 bytes, or too short for the payload its command
/// byte announces, is rejected as too short; an address echo that does not
/// match the request is a mismatch error; command byte 0x80 is an abort,
/// rendered through the abort code table; an expedited upload response is
/// decoded against the request's expected type; any other command byte is an
/// unimplemented transfer kind.
pub open spec fn spec_read_outcome_ok(
    p: Seq<u8>,
    request: SdoRequest,
    r: Result<SdoResponse, SdoError>,
) -> bool {
    &&& p.len() < 4 ==> (r matches Err(e) && e matches SdoError::InvalidResponse(m) && m@
        == "Frame too short"@)
    &&& p.len() >= 4 && !spec_response_matches_request(p, request) ==> (r matches Err(e)
        && e matches SdoError::InvalidResponse(m) && m@ == spec_mismatch_message(
        request,
        spec_u16_le(p[1], p[2]),
        p[3],
    ))
    &&& p.len() >= 4 && spec_response_matches_request(p, request) && p[0] == 0x80 ==> (r matches
        Err(e) && e matches SdoError::AbortTransfer { code, info } && code == spec_abort_code_of(p)
        && info@ == spec_abort_description(spec_abort_code_of(p)))
    &&& p.len() >= 4 && spec_response_matches_request(p, request) && p[0] != 0x80
        && SdoCommand::spec_is_expedited_response(p[0]) ==> {
        let size = 4 - spec_expedited_unused_count(p[0]);
        let payload = p.subrange(4, 4 + size);
        &&& p.len() < 4 + size ==> (r matches Err(e) && e matches SdoError::InvalidResponse(m)
            && m@ == "Frame too short"@)
        &&& p.len() >= 4 + size && spec_payload_ok(payload, request.expected_type) ==> (r matches
            Ok(resp) && resp.node_id == request.node_id && resp.index == request.index
            && resp.subindex == request.subindex && spec_decoded_matches(
            payload,
            request.expected_type,
            resp.data,
        ) && resp.raw_data@ == p)
        &&& p.len() >= 4 + size && !spec_payload_ok(payload, request.expected_type) ==> (r matches
            Err(e) && e matches SdoError::ParseError(m) && m@ == spec_insufficient_message(
            request.expected_type,
        ))
    }
    &&& p.len() >= 4 && spec_response_matches_request(p, request) && p[0] != 0x80
        && !SdoCommand::spec_is_expedited_response(p[0]) ==> (r matches Err(e) && e matches
        SdoError::InvalidResponse(m) && m@ == spec_not_implemented_message(p[0]))
}

/// Parse an SDO response frame against the request it answers; see
/// `spec_read_outcome_ok` for the full case analysis.
pub fn parse_sdo_response(frame: &RawCanFrame, request: &SdoRequest) -> (r: Result<
    SdoResponse,
    SdoError,
>)
    ensures
        spec_read_outcome_ok(frame.data@, *request, r),
{
    let data = &frame.data;
    if data.len() < 4 {
        return Err(SdoError::InvalidResponse(String::from_str("Frame too short")));
    }
    let command = data[0];
    let index = u16_le(data[1], data[2]);
    let subindex = data[3];

    // A response is attributed to a request by address echo before anything
    // else is looked at.
    if index != request.index || subindex != request.subindex {
        let mut m = String::from_str("Response mismatch: expected index=0x");
        let h1 = u32_to_hex(request.index as u32, 4);
        m.append(h1.as_str());
        m.append(", subindex=");
        let d1 = u64_to_dec(request.subindex as u64);
        m.append(d1.as_str());
        m.append(", got index=0x");
        let h2 = u32_to_hex(index as u32, 4);
        m.append(h2.as_str());
        m.append(", subindex=");
        let d2 = u64_to_dec(subindex as u64);
        m.append(d2.as_str());
        return Err(SdoError::InvalidResponse(m));
    }
    if command == 0x80 {
        let abort_code = if data.len() >= 8 {
            u32_le(data[4], data[5], data[6], data[7])
        } else {
            0
        };
        let info = get_abort_code_description(abort_code);
        return Err(SdoError::AbortTransfer { code: abort_code, info });
    }
    if SdoCommand::is_expedited_response(command) {
        // Bits 2-3 count the trailing bytes that carry no data.
        let n = (command / 4) % 4;
        let data_size = 4 - n as usize;
        if data.len() < 4 + data_size {
            return Err(SdoError::InvalidResponse(String::from_str("Frame too short")));
        }
        let payload: &[u8] = &data.as_slice()[4..4 + data_size];
        let response_data = match parse_payload(payload, &request.expected_type) {
            Ok(d) => d,
            Err(e) => {
                return Err(e);
            },
        };
        let raw_data = data.clone();
        assert(raw_data@ =~= data@);
        return Ok(SdoResponse {
            node_id: request.node_id,
            index: request.index,
            subindex: request.subindex,
            data: response_data,
            raw_data,
        });
    }
    let mut m = String::from_str("Segmented SDO transfer not implemented yet (command=0x");
    let h = u32_to_hex(command as u32, 2);
    m.append(h.as_str());
    m.append(")");
    Err(SdoError::InvalidResponse(m))
}

/// Round trip of the payload codec: for every fixed-width data type, decoding
/// a value's little-endian byte image under that type yields the value back,
/// and an octet string passes through unchanged. Together with the contract
/// of `parse_payload` (which decodes exactly these byte reads), this pins
/// decode-after-encode down for every supported value.
pub proof fn lemma_payload_round_trip(vu8: u8, vu16: u16, vu32: u32, vi8: i8, vi16: i16, vi32: i32)
    ensures
        spec_decoded_matches(seq![vu8], SdoDataType::UInt8, SdoResponseData::UInt8(vu8)),
        spec_decoded_matches(
            spec_u16_le_bytes(vu16),
            SdoDataType::UInt16,
            SdoResponseData::UInt16(vu16),
        ),
        spec_decoded_matches(
            spec_u32_le_bytes(vu32),
            SdoDataType::UInt32,
            SdoResponseData::UInt32(vu32),
        ),
        spec_decoded_matches(seq![vi8 as u8], SdoDataType::Int8, SdoResponseData::Int8(vi8)),
        spec_decoded_matches(
            spec_i16_le_bytes(vi16),
            SdoDataType::Int16,
            SdoResponseData::Int16(vi16),
        ),
        spec_decoded_matches(
            spec_i32_le_bytes(vi32),
            SdoDataType::Int32,
            SdoResponseData::Int32(vi32),
        ),
        spec_decoded_matches(
            spec_u32_le_bytes(vu32),
            SdoDataType::Real32,
            SdoResponseData::Real32(vu32),
        ),
        forall|bytes: Seq<u8>, d: SdoResponseData|
            spec_decoded_matches(bytes, SdoDataType::OctetString, d) ==> (d matches
                SdoResponseData::Bytes(b) && b@ == bytes),
{
    lemma_u16_le_round_trip(vu16);
    lemma_u32_le_round_trip(vu32);
    lemma_i16_le_round_trip(vi16);
    lemma_i32_le_round_trip(vi32);
    assert(vi8 as u8 as i8 == vi8) by (bit_vector);
}

/// Encoding is a function of the request alone: any two frames that carry
/// the same upload or download request are byte-identical, so encoding a
/// request twice yields the same frame both times.
pub proof fn lemma_encoding_deterministic(
    read: SdoRequest,
    f1: RawCanFrame,
    f2: RawCanFrame,
    write: SdoWriteRequest,
    w1: RawCanFrame,
    w2: RawCanFrame,
)
    requires
        f1.cob_id == 0x600 + read.node_id,
        f1.data@ == spec_request_frame_data(read),
        f2.cob_id == 0x600 + read.node_id,
        f2.data@ == spec_request_frame_data(read),
        w1.cob_id == 0x600 + write.node_id,
        w1.data@ == spec_write_frame_data(write),
        w2.cob_id == 0x600 + write.node_id,
        w2.data@ == spec_write_frame_data(write),
    ensures
        f1.cob_id == f2.cob_id && f1.data@ == f2.data@,
        w1.cob_id == w2.cob_id && w1.data@ == w2.data@,
{
}

impl SdoError {
    /// The rendered text of this error.
    pub open spec fn spec_describe(e: SdoError) -> Seq<char> {
        match e {
            SdoError::SocketError(m) => "Socket error: "@ + m@,
            SdoError::Timeout => "SDO request timeout"@,
            SdoError::InvalidResponse(m) => "Invalid response: "@ + m@,
            SdoError::AbortTransfer { code, info } => "SDO abort 0x"@ + spec_hex_digits(
                code as nat,
                8,
            ) + ": "@ + info@,
            SdoError::ParseError(m) => "Parse error: "@ + m@,
        }
    }

    /// Render this error as text.
    pub fn describe(&self) -> (s: String)
        ensures
            s@ == Self::spec_describe(*self),
    {
        match self {
            SdoError::SocketError(m) => {
                let mut s = String::from_str("Socket error: ");
                s.append(m.as_str());
                s
            },
            SdoError::Timeout => String::from_str("SDO request timeout"),
            SdoError::InvalidResponse(m) => {
                let mut s = String::from_str("Invalid response: ");
                s.append(m.as_str());
                s
            },
            SdoError::AbortTransfer { code, info } => {
                let mut s = String::from_str("SDO abort 0x");
                let h = u32_to_hex(*code, 8);
                s.append(h.as_str());
                s.append(": ");
                s.append(info.as_str());
                s
            },
            SdoError::ParseError(m) => {
                let mut s = String::from_str("Parse error: ");
                s.append(m.as_str());
                s
            },
        }
    }
}

/// The full outcome relation of `parse_sdo_write_response`: a download
/// response is valid only when it echoes command byte 0x60 with the request's
/// index and sub-index; an abort at that address is rendered through the code
/// table; anything else is rejected.
pub open spec fn spec_write_outcome_ok(
    p: Seq<u8>,
    request: SdoWriteRequest,
    r: Result<(), SdoError>,
) -> bool {
    &&& p.len() < 4 ==> (r matches Err(e) && e matches SdoError::InvalidResponse(m) && m@
        == "Frame too short"@)
    &&& p.len() >= 4 && p[0] == 0x80 && spec_u16_le(p[1], p[2]) == request.index && p[3]
        == request.subindex ==> (r matches Err(e) && e matches SdoError::AbortTransfer {
        code,
        info,
    } && code == spec_abort_code_of(p) && info@ == spec_abort_description(spec_abort_code_of(p)))
    &&& p.len() >= 4 && p[0] == 0x60 && spec_u16_le(p[1], p[2]) == request.index && p[3]
        == request.subindex ==> r is Ok
    &&& p.len() >= 4 && !(p[0] == 0x60 && spec_u16_le(p[1], p[2]) == request.index && p[3]
        == request.subindex) && !(p[0] == 0x80 && spec_u16_le(p[1], p[2]) == request.index && p[3]
        == request.subindex) ==> (r matches Err(e) && e matches SdoError::InvalidResponse(m)
        && m@ == "Unexpected download response"@)
}

/// Parse the response to an SDO download (write); see `spec_write_outcome_ok`
/// for the full case analysis.
pub fn parse_sdo_write_response(frame: &RawCanFrame, request: &SdoWriteRequest) -> (r: Result<
    (),
    SdoError,
>)
    ensures
        spec_write_outcome_ok(frame.data@, *request, r),
{
    let data = &frame.data;
    if data.len() < 4 {
        return Err(SdoError::InvalidResponse(String::from_str("Frame too short")));
    }
    let command = data[0];
    let index = u16_le(data[1], data[2]);
    let subindex = data[3];
    let matches_request = index == request.index && subindex == request.subindex;
    if command == 0x80 && matches_request {
        let abort_code = if data.len() >= 8 {
            u32_le(data[4], data[5], data[6], data[7])
        } else {
            0
        };
        let info = get_abort_code_description(abort_code);
        return Err(SdoError::AbortTransfer { code: abort_code, info });
    }
    if command == 0x60 && matches_request {
        return Ok(());
    }
    Err(SdoError::InvalidResponse(String::from_str("Unexpected download response")))
}

} // verus!
