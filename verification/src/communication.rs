use vstd::prelude::*;
use vstd::string::StringExecFns;

use crate::connect::TpdoMapping;
use crate::connect::spec_tpdo_mapping_value;
use crate::sdo::SdoDataType;
use crate::sdo::spec_u16_le;
use crate::sdo::spec_u32_le;
use crate::sdo::spec_i16_le;
use crate::sdo::spec_i32_le;
use crate::sdo::u16_le;
use crate::sdo::u32_le;
use crate::sdo::i16_le;
use crate::sdo::i32_le;
use crate::text::spec_dec_digits;
use crate::text::spec_int_dec;
use crate::text::spec_hex_digits;
use crate::text::u64_to_dec;
use crate::text::i64_to_dec;
use crate::text::u32_to_hex;

verus! {

/// One sub-entry of an object-dictionary object, as the device description
/// declares it: a name and a data type code.
#[derive(Debug, Clone)]
pub struct SdoSubObject {
    pub sub_index: u8,
    pub name: String,
    pub data_type: String,
}

/// One object-dictionary object with its readable sub-entries, kept sorted
/// by sub-index.
#[derive(Debug, Clone)]
pub struct SdoObject {
    pub index: u16,
    pub name: String,
    pub sub_objects: Vec<SdoSubObject>,
}

/// The address of one object-dictionary entry.
#[derive(Debug, Clone, PartialEq, Eq, Hash, Structural)]
pub struct SdoAddress {
    pub index: u16,
    pub sub_index: u8,
}

/// One object mapped into a TPDO, enriched with the name and data type the
/// viewer displays it under.
#[derive(Debug, Clone)]
pub struct TpdoMappedObject {
    pub index: u16,
    pub sub_index: u8,
    pub bit_length: u8,
    pub data_type: SdoDataType,
    pub name: String,
}

/// One TPDO as discovered or described: its number, the COB identifier it
/// broadcasts on, and the mapped objects in mapping order (at most 8).
#[derive(Debug, Clone)]
pub struct TpdoConfig {
    pub tpdo_number: u8,
    pub cob_id: u16,
    pub mapped_objects: Vec<TpdoMappedObject>,
}

/// A decoded TPDO broadcast: which TPDO, when it arrived (milliseconds on
/// the receiver's clock), and each mapped field as (name, rendered value).
#[derive(Debug, Clone)]
pub struct TpdoData {
    pub tpdo_number: u8,
    pub timestamp_ms: u64,
    pub values: Vec<(String, String)>,
}

/// The state of one value subscription, as shown to the user.
#[derive(Debug, Clone)]
pub enum SubscriptionStatus {
    /// Currently receiving data.
    Active,
    /// An error occurred, with its message.
    Error(String),
    /// Subscribed, but no recent data.
    Idle,
}

/// Commands the presentation layer sends to the communication session.
#[derive(Debug)]
pub enum Command {
    Connect,
    FetchSdos,
    Subscribe { address: SdoAddress, interval_ms: u64, data_type: SdoDataType },
    Unsubscribe(SdoAddress),
    DiscoverTpdos,
    StartTpdoListener(TpdoConfig),
    StopTpdoListener(u8),
}

/// Updates the communication session reports back.
#[derive(Debug)]
pub enum Update {
    ConnectionStatus(bool),
    ConnectionFailed(String),
    SdoList(Vec<SdoObject>),
    SdoData { address: SdoAddress, value: String },
    SdoReadError { address: SdoAddress, error: String },
    TpdoData(TpdoData),
    TpdosDiscovered(Vec<TpdoConfig>),
}

/// The communication-parameter object index of a TPDO: 0x1800 through
/// 0x1803 for TPDO 1 through 4.
pub fn tpdo_comm_param_index(tpdo_number: u8) -> (r: u16)
    requires
        1 <= tpdo_number <= 4,
    ensures
        r == 0x1800 + (tpdo_number - 1),
{
    0x1800 + (tpdo_number - 1) as u16
}

/// The mapping-parameter object index of a TPDO: 0x1A00 through 0x1A03 for
/// TPDO 1 through 4.
pub fn tpdo_mapping_param_index(tpdo_number: u8) -> (r: u16)
    requires
        1 <= tpdo_number <= 4,
    ensures
        r == 0x1A00 + (tpdo_number - 1),
{
    0x1A00 + (tpdo_number - 1) as u16
}

/// Interpret the 32-bit COB-ID entry of a TPDO's communication parameters:
/// bit 31 set means the TPDO is disabled; otherwise the low 11 bits are the
/// identifier it broadcasts on.
pub fn decode_tpdo_cob_id(value: u32) -> (r: Option<u16>)
    ensures
        value >= 0x8000_0000 ==> r is None,
        value < 0x8000_0000 ==> r == Some((value % 2048) as u16),
{
    if value >= 0x8000_0000 {
        None
    } else {
        Some((value % 2048) as u16)
    }
}

/// The object index packed in bits 31-16 of a TPDO mapping value.
pub open spec fn spec_mapping_index(value: u32) -> u16 {
    (value / 65536) as u16
}

/// The object sub-index packed in bits 15-8 of a TPDO mapping value.
pub open spec fn spec_mapping_sub_index(value: u32) -> u8 {
    ((value / 256) % 256) as u8
}

/// The field bit length packed in bits 7-0 of a TPDO mapping value.
pub open spec fn spec_mapping_bit_length(value: u32) -> u8 {
    (value % 256) as u8
}

/// Split a 32-bit TPDO mapping value into (object index, sub-index, bit
/// length), packed as bits 31-16, 15-8 and 7-0.
pub fn decompose_tpdo_mapping(value: u32) -> (r: (u16, u8, u8))
    ensures
        r.0 == spec_mapping_index(value),
        r.1 == spec_mapping_sub_index(value),
        r.2 == spec_mapping_bit_length(value),
{
    ((value / 65536) as u16, ((value / 256) % 256) as u8, (value % 256) as u8)
}

/// Decomposing a packed mapping value recovers exactly the index, sub-index
/// and bit length it was packed from.
pub proof fn lemma_mapping_value_round_trip(m: TpdoMapping)
    ensures
        spec_mapping_index(spec_tpdo_mapping_value(m)) == m.index,
        spec_mapping_sub_index(spec_tpdo_mapping_value(m)) == m.sub_index,
        spec_mapping_bit_length(spec_tpdo_mapping_value(m)) == m.bit_length,
{
    let v = spec_tpdo_mapping_value(m) as int;
    vstd::arithmetic::div_mod::lemma_fundamental_div_mod_converse(
        v,
        65536,
        m.index as int,
        256 * m.sub_index + m.bit_length,
    );
    vstd::arithmetic::div_mod::lemma_fundamental_div_mod_converse(
        v,
        256,
        256 * m.index + m.sub_index,
        m.bit_length as int,
    );
    vstd::arithmetic::div_mod::lemma_fundamental_div_mod_converse(
        256 * m.index + m.sub_index,
        256,
        m.index as int,
        m.sub_index as int,
    );
}

/// The display name of a data type, as its identifier spells it.
pub open spec fn spec_data_type_name(t: SdoDataType) -> Seq<char> {
    match t {
        SdoDataType::UInt8 => "UInt8"@,
        SdoDataType::UInt16 => "UInt16"@,
        SdoDataType::UInt32 => "UInt32"@,
        SdoDataType::Int8 => "Int8"@,
        SdoDataType::Int16 => "Int16"@,
        SdoDataType::Int32 => "Int32"@,
        SdoDataType::Real32 => "Real32"@,
        SdoDataType::VisibleString => "VisibleString"@,
        SdoDataType::OctetString => "OctetString"@,
    }
}

/// The display name of a data type.
pub fn data_type_name(t: &SdoDataType) -> (s: String)
    ensures
        s@ == spec_data_type_name(*t),
{
    match t {
        SdoDataType::UInt8 => String::from_str("UInt8"),
        SdoDataType::UInt16 => String::from_str("UInt16"),
        SdoDataType::UInt32 => String::from_str("UInt32"),
        SdoDataType::Int8 => String::from_str("Int8"),
        SdoDataType::Int16 => String::from_str("Int16"),
        SdoDataType::Int32 => String::from_str("Int32"),
        SdoDataType::Real32 => String::from_str("Real32"),
        SdoDataType::VisibleString => String::from_str("VisibleString"),
        SdoDataType::OctetString => String::from_str("OctetString"),
    }
}

/// The placeholder shown when a field is not byte-aligned, floating-point,
/// or otherwise outside what this decoder renders as a number.
pub open spec fn spec_unsupported_value(bit_length: u8, t: SdoDataType) -> Seq<char> {
    "Unsupported: "@ + spec_dec_digits(bit_length as nat) + " bits, "@ + spec_data_type_name(t)
}

/// What one field of a TPDO frame renders to: a byte-aligned little-endian
/// integer read at the field's byte offset, "N/A" when the frame is too
/// short, and an explicit unsupported placeholder for field shapes this
/// decoder does not handle (bit-packed fields and floating point).
pub open spec fn spec_extracted_value(
    data: Seq<u8>,
    bit_offset: int,
    bit_length: u8,
    t: SdoDataType,
) -> Seq<char> {
    let bo = bit_offset / 8;
    if bit_length == 8 && t == SdoDataType::UInt8 {
        if bo < data.len() {
            spec_dec_digits(data[bo] as nat)
        } else {
            "N/A"@
        }
    } else if bit_length == 8 && t == SdoDataType::Int8 {
        if bo < data.len() {
            spec_int_dec(data[bo] as i8 as int)
        } else {
            "N/A"@
        }
    } else if bit_length == 16 && t == SdoDataType::UInt16 {
        if bo + 1 < data.len() {
            spec_dec_digits(spec_u16_le(data[bo], data[bo + 1]) as nat)
        } else {
            "N/A"@
        }
    } else if bit_length == 16 && t == SdoDataType::Int16 {
        if bo + 1 < data.len() {
            spec_int_dec(spec_i16_le(data[bo], data[bo + 1]) as int)
        } else {
            "N/A"@
        }
    } else if bit_length == 32 && t == SdoDataType::UInt32 {
        if bo + 3 < data.len() {
            spec_dec_digits(spec_u32_le(data[bo], data[bo + 1], data[bo + 2], data[bo + 3]) as nat)
        } else {
            "N/A"@
        }
    } else if bit_length == 32 && t == SdoDataType::Int32 {
        if bo + 3 < data.len() {
            spec_int_dec(spec_i32_le(data[bo], data[bo + 1], data[bo + 2], data[bo + 3]) as int)
        } else {
            "N/A"@
        }
    } else {
        spec_unsupported_value(bit_length, t)
    }
}

/// Render one field of a TPDO frame from its bit offset, bit length and
/// declared type; see `spec_extracted_value` for the exact result.
/// Floating-point fields fall to the unsupported placeholder: rendering
/// them is the presentation layer's business.
pub fn extract_value_from_bytes(
    data: &[u8],
    bit_offset: usize,
    bit_length: u8,
    data_type: &SdoDataType,
) -> (s: String)
    ensures
        s@ == spec_extracted_value(data@, bit_offset as int, bit_length, *data_type),
{
    let byte_offset = bit_offset / 8;
    if bit_length == 8 && (match data_type {
        SdoDataType::UInt8 => true,
        _ => false,
    }) {
        if byte_offset < data.len() {
            u64_to_dec(data[byte_offset] as u64)
        } else {
            String::from_str("N/A")
        }
    } else if bit_length == 8 && (match data_type {
        SdoDataType::Int8 => true,
        _ => false,
    }) {
        if byte_offset < data.len() {
            i64_to_dec(data[byte_offset] as i8 as i64)
        } else {
            String::from_str("N/A")
        }
    } else if bit_length == 16 && (match data_type {
        SdoDataType::UInt16 => true,
        _ => false,
    }) {
        if byte_offset + 1 < data.len() {
            u64_to_dec(u16_le(data[byte_offset], data[byte_offset + 1]) as u64)
        } else {
            String::from_str("N/A")
        }
    } else if bit_length == 16 && (match data_type {
        SdoDataType::Int16 => true,
        _ => false,
    }) {
        if byte_offset + 1 < data.len() {
            i64_to_dec(i16_le(data[byte_offset], data[byte_offset + 1]) as i64)
        } else {
            String::from_str("N/A")
        }
    } else if bit_length == 32 && (match data_type {
        SdoDataType::UInt32 => true,
        _ => false,
    }) {
        if byte_offset + 3 < data.len() {
            u64_to_dec(
                u32_le(
                    data[byte_offset],
                    data[byte_offset + 1],
                    data[byte_offset + 2],
                    data[byte_offset + 3],
                ) as u64,
            )
        } else {
            String::from_str("N/A")
        }
    } else if bit_length == 32 && (match data_type {
        SdoDataType::Int32 => true,
        _ => false,
    }) {
        if byte_offset + 3 < data.len() {
            i64_to_dec(
                i32_le(
                    data[byte_offset],
                    data[byte_offset + 1],
                    data[byte_offset + 2],
                    data[byte_offset + 3],
                ) as i64,
            )
        } else {
            String::from_str("N/A")
        }
    } else {
        let mut s = String::from_str("Unsupported: ");
        let bits = u64_to_dec(bit_length as u64);
        s.append(bits.as_str());
        s.append(" bits, ");
        let name = data_type_name(data_type);
        s.append(name.as_str());
        s
    }
}

/// The running bit offset of field `k` in a TPDO frame: the sum of the bit
/// lengths of the fields before it.
pub open spec fn spec_bit_offset(objs: Seq<TpdoMappedObject>, k: int) -> int
    decreases k,
{
    if k <= 0 {
        0
    } else {
        spec_bit_offset(objs, k - 1) + objs[k - 1].bit_length
    }
}

/// The bit offset of any field among at most 8 byte-wide-bounded fields
/// stays small.
proof fn lemma_bit_offset_bound(objs: Seq<TpdoMappedObject>, k: int)
    requires
        0 <= k <= objs.len(),
    ensures
        0 <= spec_bit_offset(objs, k) <= 255 * k,
    decreases k,
{
    if k > 0 {
        lemma_bit_offset_bound(objs, k - 1);
    }
}

/// Decode a TPDO frame's payload against a TPDO configuration: each mapped
/// object, in mapping order, is rendered from the frame at the byte offset
/// its predecessors' bit lengths add up to. A configuration maps at most 8
/// objects.
pub fn parse_tpdo_frame(data: &[u8], config: &TpdoConfig) -> (values: Vec<(String, String)>)
    requires
        config.mapped_objects@.len() <= 8,
    ensures
        values@.len() == config.mapped_objects@.len(),
        forall|k: int|
            0 <= k < values@.len() ==> {
                let obj = config.mapped_objects@[k];
                (#[trigger] values@[k]).0@ == obj.name@ && values@[k].1@ == spec_extracted_value(
                    data@,
                    spec_bit_offset(config.mapped_objects@, k),
                    obj.bit_length,
                    obj.data_type,
                )
            },
{
    let mut values: Vec<(String, String)> = Vec::new();
    let mut bit_offset: usize = 0;
    let mut i: usize = 0;
    while i < config.mapped_objects.len()
        invariant
            config.mapped_objects@.len() <= 8,
            i <= config.mapped_objects@.len(),
            values@.len() == i,
            bit_offset == spec_bit_offset(config.mapped_objects@, i as int),
            bit_offset <= 255 * i,
            forall|k: int|
                0 <= k < i ==> {
                    let obj = config.mapped_objects@[k];
                    (#[trigger] values@[k]).0@ == obj.name@ && values@[k].1@
                        == spec_extracted_value(
                        data@,
                        spec_bit_offset(config.mapped_objects@, k),
                        obj.bit_length,
                        obj.data_type,
                    )
                },
        decreases config.mapped_objects@.len() - i,
    {
        let obj = &config.mapped_objects[i];
        let value_str = extract_value_from_bytes(data, bit_offset, obj.bit_length, &obj.data_type);
        let name = obj.name.clone();
        values.push((name, value_str));
        bit_offset = bit_offset + obj.bit_length as usize;
        i = i + 1;
    }
    values
}


/// `t` is the position of the first configuration for this TPDO number.
pub open spec fn spec_first_tpdo_at(cfgs: Seq<TpdoConfig>, num: u8, t: int) -> bool {
    &&& 0 <= t < cfgs.len()
    &&& cfgs[t].tpdo_number == num
    &&& forall|l: int| 0 <= l < t ==> (#[trigger] cfgs[l]).tpdo_number != num
}

/// `j` is the position of the first mapped object at this address.
pub open spec fn spec_first_mapped_at(
    objs: Seq<TpdoMappedObject>,
    index: u16,
    sub: u8,
    j: int,
) -> bool {
    &&& 0 <= j < objs.len()
    &&& objs[j].index == index && objs[j].sub_index == sub
    &&& forall|l: int|
        0 <= l < j ==> !((#[trigger] objs[l]).index == index && objs[l].sub_index == sub)
}

/// `o` is the position of the first dictionary object with this index.
pub open spec fn spec_first_object_at(od: Seq<SdoObject>, index: u16, o: int) -> bool {
    &&& 0 <= o < od.len()
    &&& od[o].index == index
    &&& forall|l: int| 0 <= l < o ==> (#[trigger] od[l]).index != index
}

/// `u` is the position of the first sub-entry with this sub-index.
pub open spec fn spec_first_sub_at(subs: Seq<SdoSubObject>, sub: u8, u: int) -> bool {
    &&& 0 <= u < subs.len()
    &&& subs[u].sub_index == sub
    &&& forall|l: int| 0 <= l < u ==> (#[trigger] subs[l]).sub_index != sub
}

/// Whether some configuration in the list carries this TPDO number.
pub open spec fn spec_has_tpdo(cfgs: Seq<TpdoConfig>, num: u8) -> bool {
    exists|i: int| 0 <= i < cfgs.len() && (#[trigger] cfgs[i]).tpdo_number == num
}

/// The object-dictionary fallback of the merge: when the general dictionary
/// knows the mapped address, its name is taken, and its declared type too
/// where the type code parses; otherwise the object keeps what it had.
pub open spec fn spec_od_enriched(
    obj: TpdoMappedObject,
    od: Seq<SdoObject>,
    r: TpdoMappedObject,
) -> bool {
    if exists|o: int| spec_first_object_at(od, obj.index, o) {
        forall|o: int|
            #[trigger] spec_first_object_at(od, obj.index, o) ==> {
                let subs = od[o].sub_objects@;
                if exists|u: int| spec_first_sub_at(subs, obj.sub_index, u) {
                    forall|u: int|
                        #[trigger] spec_first_sub_at(subs, obj.sub_index, u) ==> (r.name@
                            == subs[u].name@ && r.data_type == (
                        match SdoDataType::spec_from_eds_type(subs[u].data_type@) {
                            Some(dt) => dt,
                            None => obj.data_type,
                        }))
                } else {
                    r.name@ == obj.name@ && r.data_type == obj.data_type
                }
            }
    } else {
        r.name@ == obj.name@ && r.data_type == obj.data_type
    }
}

/// How the merge resolves one device-discovered mapped object: the matching
/// entry of the description-file configuration for the same TPDO number
/// wins; failing that, the general object dictionary fills in; failing
/// both, the object is unchanged. Address and bit length always come from
/// the device.
pub open spec fn spec_resolved(
    obj: TpdoMappedObject,
    eds: Seq<TpdoConfig>,
    num: u8,
    od: Seq<SdoObject>,
    r: TpdoMappedObject,
) -> bool {
    &&& r.index == obj.index
    &&& r.sub_index == obj.sub_index
    &&& r.bit_length == obj.bit_length
    &&& if exists|t: int| spec_first_tpdo_at(eds, num, t) {
        forall|t: int|
            #[trigger] spec_first_tpdo_at(eds, num, t) ==> {
                let eobjs = eds[t].mapped_objects@;
                if exists|j: int| spec_first_mapped_at(eobjs, obj.index, obj.sub_index, j) {
                    forall|j: int|
                        #[trigger] spec_first_mapped_at(eobjs, obj.index, obj.sub_index, j) ==> (
                        r.name@ == eobjs[j].name@ && r.data_type == eobjs[j].data_type)
                } else {
                    spec_od_enriched(obj, od, r)
                }
            }
    } else {
        spec_od_enriched(obj, od, r)
    }
}

/// Two TPDO configurations with the same number, identifier and mapped
/// objects (field for field).
pub open spec fn spec_config_like(a: TpdoConfig, b: TpdoConfig) -> bool {
    &&& a.tpdo_number == b.tpdo_number
    &&& a.cob_id == b.cob_id
    &&& a.mapped_objects@.len() == b.mapped_objects@.len()
    &&& forall|k: int|
        0 <= k < a.mapped_objects@.len() ==> {
            let x = #[trigger] a.mapped_objects@[k];
            let y = b.mapped_objects@[k];
            x.index == y.index && x.sub_index == y.sub_index && x.bit_length == y.bit_length
                && x.data_type == y.data_type && x.name@ == y.name@
        }
}

/// The description-file configurations the merge appends: those whose TPDO
/// number has no device-side counterpart, first occurrence per number.
pub open spec fn spec_eds_extras(eds: Seq<TpdoConfig>, device: Seq<TpdoConfig>) -> Seq<TpdoConfig>
    decreases eds.len(),
{
    if eds.len() == 0 {
        Seq::empty()
    } else {
        let prior = spec_eds_extras(eds.drop_last(), device);
        let e = eds.last();
        if spec_has_tpdo(device, e.tpdo_number) || spec_has_tpdo(eds.drop_last(), e.tpdo_number) {
            prior
        } else {
            prior.push(e)
        }
    }
}

/// The position of the first configuration with the given TPDO number.
pub fn find_tpdo_config(cfgs: &Vec<TpdoConfig>, num: u8) -> (r: Option<usize>)
    ensures
        r matches Some(t) ==> spec_first_tpdo_at(cfgs@, num, t as int),
        r is None ==> forall|l: int| 0 <= l < cfgs@.len() ==> (#[trigger] cfgs@[l]).tpdo_number != num,
{
    let mut i: usize = 0;
    while i < cfgs.len()
        invariant
            i <= cfgs@.len(),
            forall|l: int| 0 <= l < i ==> (#[trigger] cfgs@[l]).tpdo_number != num,
        decreases cfgs@.len() - i,
    {
        if cfgs[i].tpdo_number == num {
            return Some(i);
        }
        i = i + 1;
    }
    None
}

/// Whether any configuration carries the given TPDO number.
pub fn has_tpdo_config(cfgs: &Vec<TpdoConfig>, num: u8) -> (r: bool)
    ensures
        r == spec_has_tpdo(cfgs@, num),
{
    match find_tpdo_config(cfgs, num) {
        Some(_) => true,
        None => false,
    }
}

/// The position of the first mapped object at the given address.
pub fn find_mapped_object(objs: &Vec<TpdoMappedObject>, index: u16, sub: u8) -> (r: Option<usize>)
    ensures
        r matches Some(j) ==> spec_first_mapped_at(objs@, index, sub, j as int),
        r is None ==> forall|l: int|
            0 <= l < objs@.len() ==> !((#[trigger] objs@[l]).index == index && objs@[l].sub_index
                == sub),
{
    let mut i: usize = 0;
    while i < objs.len()
        invariant
            i <= objs@.len(),
            forall|l: int|
                0 <= l < i ==> !((#[trigger] objs@[l]).index == index && objs@[l].sub_index == sub),
        decreases objs@.len() - i,
    {
        if objs[i].index == index && objs[i].sub_index == sub {
            return Some(i);
        }
        i = i + 1;
    }
    None
}

/// The position of the first dictionary object with the given index.
pub fn find_od_object(od: &Vec<SdoObject>, index: u16) -> (r: Option<usize>)
    ensures
        r matches Some(o) ==> spec_first_object_at(od@, index, o as int),
        r is None ==> forall|l: int| 0 <= l < od@.len() ==> (#[trigger] od@[l]).index != index,
{
    let mut i: usize = 0;
    while i < od.len()
        invariant
            i <= od@.len(),
            forall|l: int| 0 <= l < i ==> (#[trigger] od@[l]).index != index,
        decreases od@.len() - i,
    {
        if od[i].index == index {
            return Some(i);
        }
        i = i + 1;
    }
    None
}

/// The position of the first sub-entry with the given sub-index.
pub fn find_od_sub(subs: &Vec<SdoSubObject>, sub: u8) -> (r: Option<usize>)
    ensures
        r matches Some(u) ==> spec_first_sub_at(subs@, sub, u as int),
        r is None ==> forall|l: int| 0 <= l < subs@.len() ==> (#[trigger] subs@[l]).sub_index != sub,
{
    let mut i: usize = 0;
    while i < subs.len()
        invariant
            i <= subs@.len(),
            forall|l: int| 0 <= l < i ==> (#[trigger] subs@[l]).sub_index != sub,
        decreases subs@.len() - i,
    {
        if subs[i].sub_index == sub {
            return Some(i);
        }
        i = i + 1;
    }
    None
}

/// A first-match position is unique.
proof fn lemma_first_tpdo_unique(cfgs: Seq<TpdoConfig>, num: u8, t1: int, t2: int)
    requires
        spec_first_tpdo_at(cfgs, num, t1),
        spec_first_tpdo_at(cfgs, num, t2),
    ensures
        t1 == t2,
{
}

/// Resolve one device-discovered mapped object against the matching
/// description-file configuration (if one was found) and the general object
/// dictionary; see `spec_resolved` for the precedence.
fn resolve_mapped_object(
    obj: &TpdoMappedObject,
    eds_tpdo: Option<&TpdoConfig>,
    od: &Vec<SdoObject>,
) -> (r: TpdoMappedObject)
    ensures
        r.index == obj.index,
        r.sub_index == obj.sub_index,
        r.bit_length == obj.bit_length,
        match eds_tpdo {
            Some(e) => {
                if exists|j: int|
                    spec_first_mapped_at(e.mapped_objects@, obj.index, obj.sub_index, j) {
                    forall|j: int|
                        #[trigger] spec_first_mapped_at(
                            e.mapped_objects@,
                            obj.index,
                            obj.sub_index,
                            j,
                        ) ==> (r.name@ == e.mapped_objects@[j].name@ && r.data_type
                            == e.mapped_objects@[j].data_type)
                } else {
                    spec_od_enriched(*obj, od@, r)
                }
            },
            None => spec_od_enriched(*obj, od@, r),
        },
{
    match eds_tpdo {
        Some(e) => {
            let hit = find_mapped_object(&e.mapped_objects, obj.index, obj.sub_index);
            match hit {
                Some(j) => {
                    let em = &e.mapped_objects[j];
                    let r = TpdoMappedObject {
                        index: obj.index,
                        sub_index: obj.sub_index,
                        bit_length: obj.bit_length,
                        data_type: em.data_type,
                        name: em.name.clone(),
                    };
                    proof {
                        assert forall|j2: int|
                            #[trigger] spec_first_mapped_at(
                                e.mapped_objects@,
                                obj.index,
                                obj.sub_index,
                                j2,
                            ) implies (r.name@ == e.mapped_objects@[j2].name@ && r.data_type
                            == e.mapped_objects@[j2].data_type) by {
                            if j2 < j as int {
                                assert(!(e.mapped_objects@[j2].index == obj.index
                                    && e.mapped_objects@[j2].sub_index == obj.sub_index));
                            } else if j2 > j as int {
                                assert(!(e.mapped_objects@[j as int].index == obj.index
                                    && e.mapped_objects@[j as int].sub_index == obj.sub_index));
                            }
                        }
                    }
                    r
                },
                None => od_enrich(obj, od),
            }
        },
        None => od_enrich(obj, od),
    }
}

/// The object-dictionary fallback of the merge; see `spec_od_enriched`.
fn od_enrich(obj: &TpdoMappedObject, od: &Vec<SdoObject>) -> (r: TpdoMappedObject)
    ensures
        r.index == obj.index,
        r.sub_index == obj.sub_index,
        r.bit_length == obj.bit_length,
        spec_od_enriched(*obj, od@, r),
{
    let found = find_od_object(od, obj.index);
    match found {
        Some(o) => {
            let entry = &od[o];
            let sub_found = find_od_sub(&entry.sub_objects, obj.sub_index);
            match sub_found {
                Some(u) => {
                    let sub_obj = &entry.sub_objects[u];
                    let data_type = match SdoDataType::from_eds_type(sub_obj.data_type.as_str()) {
                        Some(dt) => dt,
                        None => obj.data_type,
                    };
                    let r = TpdoMappedObject {
                        index: obj.index,
                        sub_index: obj.sub_index,
                        bit_length: obj.bit_length,
                        data_type,
                        name: sub_obj.name.clone(),
                    };
                    proof {
                        assert forall|o2: int|
                            #[trigger] spec_first_object_at(od@, obj.index, o2) implies o2
                            == o as int by {
                            if o2 < o as int {
                                assert(od@[o2].index != obj.index);
                            } else if o2 > o as int {
                                assert(od@[o as int].index != obj.index);
                            }
                        }
                        assert forall|u2: int|
                            #[trigger] spec_first_sub_at(
                                od@[o as int].sub_objects@,
                                obj.sub_index,
                                u2,
                            ) implies u2 == u as int by {
                            if u2 < u as int {
                                assert(od@[o as int].sub_objects@[u2].sub_index != obj.sub_index);
                            } else if u2 > u as int {
                                assert(od@[o as int].sub_objects@[u as int].sub_index
                                    != obj.sub_index);
                            }
                        }
                    }
                    r
                },
                None => {
                    let r = TpdoMappedObject {
                        index: obj.index,
                        sub_index: obj.sub_index,
                        bit_length: obj.bit_length,
                        data_type: obj.data_type,
                        name: obj.name.clone(),
                    };
                    proof {
                        assert forall|o2: int|
                            #[trigger] spec_first_object_at(od@, obj.index, o2) implies o2
                            == o as int by {
                            if o2 < o as int {
                                assert(od@[o2].index != obj.index);
                            } else if o2 > o as int {
                                assert(od@[o as int].index != obj.index);
                            }
                        }
                    }
                    r
                },
            }
        },
        None => {
            TpdoMappedObject {
                index: obj.index,
                sub_index: obj.sub_index,
                bit_length: obj.bit_length,
                data_type: obj.data_type,
                name: obj.name.clone(),
            }
        },
    }
}

/// Copy one mapped object, field for field.
fn clone_mapped_object(o: &TpdoMappedObject) -> (r: TpdoMappedObject)
    ensures
        r.index == o.index,
        r.sub_index == o.sub_index,
        r.bit_length == o.bit_length,
        r.data_type == o.data_type,
        r.name@ == o.name@,
{
    TpdoMappedObject {
        index: o.index,
        sub_index: o.sub_index,
        bit_length: o.bit_length,
        data_type: o.data_type,
        name: o.name.clone(),
    }
}

/// Copy one TPDO configuration, field for field.
fn clone_tpdo_config(c: &TpdoConfig) -> (r: TpdoConfig)
    ensures
        spec_config_like(*c, r),
{
    let mut mapped_objects: Vec<TpdoMappedObject> = Vec::new();
    let mut i: usize = 0;
    while i < c.mapped_objects.len()
        invariant
            i <= c.mapped_objects@.len(),
            mapped_objects@.len() == i,
            forall|k: int|
                0 <= k < i ==> {
                    let x = #[trigger] c.mapped_objects@[k];
                    let y = mapped_objects@[k];
                    x.index == y.index && x.sub_index == y.sub_index && x.bit_length == y.bit_length
                        && x.data_type == y.data_type && x.name@ == y.name@
                },
        decreases c.mapped_objects@.len() - i,
    {
        let o = clone_mapped_object(&c.mapped_objects[i]);
        mapped_objects.push(o);
        i = i + 1;
    }
    TpdoConfig { tpdo_number: c.tpdo_number, cob_id: c.cob_id, mapped_objects }
}

/// Merge device-discovered TPDO configurations with the ones the device
/// description file declares, against the general object dictionary.
///
/// The device is authoritative for existence, COB-ID and mapping addresses;
/// names and declared data types are filled in from, in precedence order,
/// the description file's matching TPDO entry, the object dictionary, or
/// what the device-side entry already carried. Description-file TPDOs with
/// no device-side counterpart are appended unchanged, once per TPDO number.
pub fn merge_tpdo_configs(
    device_configs: Vec<TpdoConfig>,
    eds_configs: Vec<TpdoConfig>,
    object_dictionary: &Vec<SdoObject>,
) -> (merged: Vec<TpdoConfig>)
    ensures
        merged@.len() == device_configs@.len() + spec_eds_extras(
            eds_configs@,
            device_configs@,
        ).len(),
        forall|i: int|
            0 <= i < device_configs@.len() ==> {
                let before = device_configs@[i];
                let after = #[trigger] merged@[i];
                &&& after.tpdo_number == before.tpdo_number
                &&& after.cob_id == before.cob_id
                &&& after.mapped_objects@.len() == before.mapped_objects@.len()
                &&& forall|k: int|
                    0 <= k < before.mapped_objects@.len() ==> spec_resolved(
                        #[trigger] before.mapped_objects@[k],
                        eds_configs@,
                        before.tpdo_number,
                        object_dictionary@,
                        after.mapped_objects@[k],
                    )
            },
        forall|i: int|
            0 <= i < spec_eds_extras(eds_configs@, device_configs@).len() ==> spec_config_like(
                spec_eds_extras(eds_configs@, device_configs@)[i],
                #[trigger] merged@[device_configs@.len() + i],
            ),
{
    let mut merged: Vec<TpdoConfig> = Vec::new();
    let mut i: usize = 0;
    while i < device_configs.len()
        invariant
            i <= device_configs@.len(),
            merged@.len() == i,
            forall|i2: int|
                0 <= i2 < i ==> {
                    let before = device_configs@[i2];
                    let after = #[trigger] merged@[i2];
                    &&& after.tpdo_number == before.tpdo_number
                    &&& after.cob_id == before.cob_id
                    &&& after.mapped_objects@.len() == before.mapped_objects@.len()
                    &&& forall|k: int|
                        0 <= k < before.mapped_objects@.len() ==> spec_resolved(
                            #[trigger] before.mapped_objects@[k],
                            eds_configs@,
                            before.tpdo_number,
                            object_dictionary@,
                            after.mapped_objects@[k],
                        )
                },
        decreases device_configs@.len() - i,
    {
        let device_tpdo = &device_configs[i];
        let eds_hit = find_tpdo_config(&eds_configs, device_tpdo.tpdo_number);
        let mut resolved: Vec<TpdoMappedObject> = Vec::new();
        let mut k: usize = 0;
        while k < device_tpdo.mapped_objects.len()
            invariant
                k <= device_tpdo.mapped_objects@.len(),
                resolved@.len() == k,
                device_tpdo == &device_configs@[i as int],
                i < device_configs@.len(),
                eds_hit matches Some(t) ==> spec_first_tpdo_at(
                    eds_configs@,
                    device_tpdo.tpdo_number,
                    t as int,
                ),
                eds_hit is None ==> forall|l: int|
                    0 <= l < eds_configs@.len() ==> (#[trigger] eds_configs@[l]).tpdo_number
                        != device_tpdo.tpdo_number,
                eds_hit matches Some(t) ==> t < eds_configs@.len(),
                forall|k2: int|
                    0 <= k2 < k ==> spec_resolved(
                        #[trigger] device_tpdo.mapped_objects@[k2],
                        eds_configs@,
                        device_tpdo.tpdo_number,
                        object_dictionary@,
                        resolved@[k2],
                    ),
            decreases device_tpdo.mapped_objects@.len() - k,
        {
            let obj = &device_tpdo.mapped_objects[k];
            let eds_ref: Option<&TpdoConfig> = match eds_hit {
                Some(t) => Some(&eds_configs[t]),
                None => None,
            };
            let r = resolve_mapped_object(obj, eds_ref, object_dictionary);
            proof {
                match eds_hit {
                    Some(t) => {
                        assert forall|t2: int|
                            #[trigger] spec_first_tpdo_at(
                                eds_configs@,
                                device_tpdo.tpdo_number,
                                t2,
                            ) implies t2 == t as int by {
                            lemma_first_tpdo_unique(
                                eds_configs@,
                                device_tpdo.tpdo_number,
                                t2,
                                t as int,
                            );
                        }
                        assert(spec_resolved(
                            device_tpdo.mapped_objects@[k as int],
                            eds_configs@,
                            device_tpdo.tpdo_number,
                            object_dictionary@,
                            r,
                        ));
                    },
                    None => {
                        assert(!exists|t: int|
                            spec_first_tpdo_at(eds_configs@, device_tpdo.tpdo_number, t));
                        assert(spec_resolved(
                            device_tpdo.mapped_objects@[k as int],
                            eds_configs@,
                            device_tpdo.tpdo_number,
                            object_dictionary@,
                            r,
                        ));
                    },
                }
            }
            resolved.push(r);
            k = k + 1;
        }
        let merged_config = TpdoConfig {
            tpdo_number: device_tpdo.tpdo_number,
            cob_id: device_tpdo.cob_id,
            mapped_objects: resolved,
        };
        merged.push(merged_config);
        i = i + 1;
    }
    let ghost device_len = device_configs@.len() as int;
    let mut j: usize = 0;
    proof {
        assert(eds_configs@.take(0) =~= Seq::<TpdoConfig>::empty());
        assert forall|num: u8| #[trigger]
            spec_has_tpdo(merged@, num) == (spec_has_tpdo(device_configs@, num) || spec_has_tpdo(
                eds_configs@.take(0),
                num,
            )) by {
            if spec_has_tpdo(merged@, num) {
                let w = choose|w: int|
                    0 <= w < merged@.len() && (#[trigger] merged@[w]).tpdo_number == num;
                assert(device_configs@[w].tpdo_number == num);
            }
            if spec_has_tpdo(device_configs@, num) {
                let w = choose|w: int|
                    0 <= w < device_configs@.len() && (#[trigger] device_configs@[w]).tpdo_number
                        == num;
                assert(merged@[w].tpdo_number == num);
            }
        }
    }
    while j < eds_configs.len()
        invariant
            j <= eds_configs@.len(),
            device_len == device_configs@.len(),
            merged@.len() == device_len + spec_eds_extras(
                eds_configs@.take(j as int),
                device_configs@,
            ).len(),
            forall|i2: int|
                0 <= i2 < device_len ==> {
                    let before = device_configs@[i2];
                    let after = #[trigger] merged@[i2];
                    &&& after.tpdo_number == before.tpdo_number
                    &&& after.cob_id == before.cob_id
                    &&& after.mapped_objects@.len() == before.mapped_objects@.len()
                    &&& forall|k: int|
                        0 <= k < before.mapped_objects@.len() ==> spec_resolved(
                            #[trigger] before.mapped_objects@[k],
                            eds_configs@,
                            before.tpdo_number,
                            object_dictionary@,
                            after.mapped_objects@[k],
                        )
                },
            forall|i2: int|
                0 <= i2 < spec_eds_extras(eds_configs@.take(j as int), device_configs@).len()
                    ==> spec_config_like(
                    spec_eds_extras(eds_configs@.take(j as int), device_configs@)[i2],
                    #[trigger] merged@[device_len + i2],
                ),
            forall|num: u8| #[trigger]
                spec_has_tpdo(merged@, num) == (spec_has_tpdo(device_configs@, num)
                    || spec_has_tpdo(eds_configs@.take(j as int), num)),
        decreases eds_configs@.len() - j,
    {
        proof {
            assert(eds_configs@.take(j + 1).drop_last() =~= eds_configs@.take(j as int));
            assert(eds_configs@.take(j + 1).last() == eds_configs@[j as int]);
        }
        let e = &eds_configs[j];
        let already = has_tpdo_config(&merged, e.tpdo_number);
        if !already {
            let copy = clone_tpdo_config(e);
            let ghost pre = merged@;
            merged.push(copy);
            proof {
                assert forall|num: u8| #[trigger]
                    spec_has_tpdo(merged@, num) == (spec_has_tpdo(device_configs@, num)
                        || spec_has_tpdo(eds_configs@.take(j + 1), num)) by {
                    if spec_has_tpdo(merged@, num) {
                        let w = choose|w: int|
                            0 <= w < merged@.len() && (#[trigger] merged@[w]).tpdo_number == num;
                        if w < pre.len() {
                            assert(spec_has_tpdo(pre, num));
                        } else {
                            assert(merged@[w].tpdo_number == e.tpdo_number);
                            assert(eds_configs@.take(j + 1)[j as int].tpdo_number == num);
                            assert(spec_has_tpdo(eds_configs@.take(j + 1), num));
                        }
                    }
                    if spec_has_tpdo(device_configs@, num) {
                        assert(spec_has_tpdo(pre, num));
                        let w = choose|w: int|
                            0 <= w < pre.len() && (#[trigger] pre[w]).tpdo_number == num;
                        assert(merged@[w].tpdo_number == num);
                        assert(spec_has_tpdo(merged@, num));
                    }
                    if spec_has_tpdo(eds_configs@.take(j + 1), num) {
                        let w = choose|w: int|
                            0 <= w < eds_configs@.take(j + 1).len() && (#[trigger] eds_configs@.take(
                                j + 1,
                            )[w]).tpdo_number == num;
                        if w < j as int {
                            assert(spec_has_tpdo(eds_configs@.take(j as int), num));
                            assert(spec_has_tpdo(pre, num));
                            let w2 = choose|w2: int|
                                0 <= w2 < pre.len() && (#[trigger] pre[w2]).tpdo_number == num;
                            assert(merged@[w2].tpdo_number == num);
                        } else {
                            assert(merged@[merged@.len() - 1].tpdo_number == num);
                        }
                        assert(spec_has_tpdo(merged@, num));
                    }
                }
            }
        } else {
            proof {
                assert(spec_has_tpdo(eds_configs@.take(j + 1), eds_configs@[j as int].tpdo_number))
                    by {
                    assert(eds_configs@.take(j + 1)[j as int].tpdo_number
                        == eds_configs@[j as int].tpdo_number);
                }
                assert forall|num: u8| #[trigger]
                    spec_has_tpdo(merged@, num) == (spec_has_tpdo(device_configs@, num)
                        || spec_has_tpdo(eds_configs@.take(j + 1), num)) by {
                    if spec_has_tpdo(eds_configs@.take(j + 1), num) && num != eds_configs@[j as int].tpdo_number {
                        let w = choose|w: int|
                            0 <= w < eds_configs@.take(j + 1).len() && (#[trigger] eds_configs@.take(
                                j + 1,
                            )[w]).tpdo_number == num;
                        assert(w != j as int);
                        assert(eds_configs@.take(j as int)[w].tpdo_number == num);
                        assert(spec_has_tpdo(eds_configs@.take(j as int), num));
                    }
                    if spec_has_tpdo(eds_configs@.take(j as int), num) {
                        assert(eds_configs@.take(j + 1)[choose|w: int|
                            0 <= w < eds_configs@.take(j as int).len() && (#[trigger] eds_configs@.take(
                                j as int,
                            )[w]).tpdo_number == num].tpdo_number == num);
                        assert(spec_has_tpdo(eds_configs@.take(j + 1), num));
                    }
                }
            }
        }
        j = j + 1;
    }
    proof {
        assert(eds_configs@.take(j as int) =~= eds_configs@);
    }
    merged
}


/// The placeholder name synthesized for a mapped object nothing has named:
/// its address, as hexadecimal index and sub-index.
pub open spec fn spec_default_object_name(index: u16, sub_index: u8) -> Seq<char> {
    "0x"@ + spec_hex_digits(index as nat, 4) + ":"@ + spec_hex_digits(sub_index as nat, 2)
}

/// Build the placeholder name for an unnamed mapped object.
pub fn default_mapped_object_name(index: u16, sub_index: u8) -> (s: String)
    ensures
        s@ == spec_default_object_name(index, sub_index),
{
    let mut s = String::from_str("0x");
    let h1 = u32_to_hex(index as u32, 4);
    s.append(h1.as_str());
    s.append(":");
    let h2 = u32_to_hex(sub_index as u32, 2);
    s.append(h2.as_str());
    s
}

/// Build the mapped-object record device discovery derives from one raw
/// 32-bit mapping value: the decomposed address and bit length, a data type
/// inferred from the bit length, and a synthesized name (the description
/// file refines both later, in the merge). A bit length other than 8, 16 or
/// 32 is unsupported and yields nothing, skipping that entry.
pub fn tpdo_mapped_object_from_value(value: u32) -> (r: Option<TpdoMappedObject>)
    ensures
        ({
            let bits = spec_mapping_bit_length(value);
            &&& (r is Some <==> (bits == 8 || bits == 16 || bits == 32))
            &&& r matches Some(o) ==> (o.index == spec_mapping_index(value) && o.sub_index
                == spec_mapping_sub_index(value) && o.bit_length == bits && o.data_type == (if bits
                == 8 {
                SdoDataType::UInt8
            } else if bits == 16 {
                SdoDataType::UInt16
            } else {
                SdoDataType::UInt32
            }) && o.name@ == spec_default_object_name(
                spec_mapping_index(value),
                spec_mapping_sub_index(value),
            ))
        }),
{
    let (index, sub_index, bit_length) = decompose_tpdo_mapping(value);
    let data_type = if bit_length == 8 {
        SdoDataType::UInt8
    } else if bit_length == 16 {
        SdoDataType::UInt16
    } else if bit_length == 32 {
        SdoDataType::UInt32
    } else {
        return None;
    };
    let name = default_mapped_object_name(index, sub_index);
    Some(TpdoMappedObject { index, sub_index, bit_length, data_type, name })
}
} // verus!
