use vstd::prelude::*;
use vstd::string::StringExecFns;

use crate::dictionary::ObjectDictionary;
use crate::dictionary::ObjectEntry;
use crate::dictionary::ValueGenerator;
use crate::frame::RawCanFrame;
use crate::sdo::SdoDataType;
use crate::sdo::spec_u16_le;
use crate::sdo::spec_u32_le;
use crate::sdo::spec_i16_le;
use crate::sdo::spec_i32_le;
use crate::sdo::spec_u32_le_bytes;
use crate::sdo::u16_le;
use crate::sdo::u32_le;
use crate::sdo::i16_le;
use crate::sdo::i32_le;
use crate::sdo::utf8_lossy_of;
use crate::text::spec_dec_digits;
use crate::text::spec_int_dec;
use crate::text::spec_hex_digits;
use crate::text::u64_to_dec;
use crate::text::i64_to_dec;
use crate::text::u32_to_hex;

verus! {

/// A minimal protocol-compliant SDO server: it answers expedited upload
/// requests addressed to its node out of an in-memory object dictionary,
/// for exercising the client side without hardware.
#[derive(Debug)]
pub struct SdoServer {
    pub node_id: u8,
    pub object_dict: ObjectDictionary,
    /// The identifier requests to this node arrive on: 0x600 + node id.
    pub request_cob_id: u16,
    /// The identifier responses leave on: 0x580 + node id.
    pub response_cob_id: u16,
}

/// The 8 data bytes of an expedited upload response carrying `data`: the
/// command byte announces the unused-byte count in bits 2-3, then index,
/// sub-index, the value bytes and zero padding.
pub open spec fn spec_expedited_response_data(index: u16, subindex: u8, data: Seq<u8>) -> Seq<u8>
    recommends
        data.len() <= 4,
{
    let n = 4 - data.len();
    seq![
        (0x43 + 4 * n) as u8,
        (index % 256) as u8,
        (index / 256) as u8,
        subindex,
    ] + data + Seq::new(n as nat, |j: int| 0u8)
}

/// The 8 data bytes of an abort response: command byte 0x80, the echoed
/// address, and the abort code in little-endian order.
pub open spec fn spec_abort_response_data(index: u16, subindex: u8, code: u32) -> Seq<u8> {
    seq![0x80u8, (index % 256) as u8, (index / 256) as u8, subindex] + spec_u32_le_bytes(code)
}

impl SdoServer {
    /// The identifiers match the node id and the dictionary is sound.
    pub open spec fn wf(&self) -> bool {
        &&& self.request_cob_id == 0x600 + self.node_id
        &&& self.response_cob_id == 0x580 + self.node_id
        &&& self.object_dict.wf()
    }

    /// A server for one node over the given dictionary.
    pub fn new(node_id: u8, object_dict: ObjectDictionary) -> (s: SdoServer)
        requires
            object_dict.wf(),
        ensures
            s.wf(),
            s.node_id == node_id,
            s.object_dict == object_dict,
    {
        SdoServer {
            node_id,
            object_dict,
            request_cob_id: 0x600 + node_id as u16,
            response_cob_id: 0x580 + node_id as u16,
        }
    }

    /// Build the expedited upload response for a value of at most 4 bytes.
    fn create_expedited_response(&self, index: u16, subindex: u8, data: &Vec<u8>) -> (r: Option<
        RawCanFrame,
    >)
        requires
            self.wf(),
        ensures
            data@.len() <= 4 ==> (r matches Some(f) && f.wf() && f.cob_id == self.response_cob_id
                && f.data@ == spec_expedited_response_data(index, subindex, data@)),
            data@.len() > 4 ==> (r matches Some(f) && f.wf() && f.cob_id == self.response_cob_id
                && f.data@ == spec_abort_response_data(index, subindex, 0x05040001)),
    {
        if data.len() > 4 {
            // Too large for an expedited transfer: command specifier invalid.
            return self.create_abort_response(index, subindex, 0x05040001);
        }
        let n: u8 = 4 - data.len() as u8;
        let mut frame_data: Vec<u8> = Vec::new();
        frame_data.push(0x43 + 4 * n);
        frame_data.push((index % 256) as u8);
        frame_data.push((index / 256) as u8);
        frame_data.push(subindex);
        let mut i: usize = 0;
        while i < data.len()
            invariant
                i <= data@.len() <= 4,
                frame_data@.len() == 4 + i,
                frame_data@[0] == (0x43 + 4 * (4 - data@.len())) as u8,
                frame_data@[1] == (index % 256) as u8,
                frame_data@[2] == (index / 256) as u8,
                frame_data@[3] == subindex,
                forall|j: int| 0 <= j < i ==> frame_data@[4 + j] == data@[j],
            decreases data@.len() - i,
        {
            frame_data.push(data[i]);
            i = i + 1;
        }
        while frame_data.len() < 8
            invariant
                data@.len() <= 4,
                4 + data@.len() <= frame_data@.len() <= 8,
                frame_data@[0] == (0x43 + 4 * (4 - data@.len())) as u8,
                frame_data@[1] == (index % 256) as u8,
                frame_data@[2] == (index / 256) as u8,
                frame_data@[3] == subindex,
                forall|j: int| 0 <= j < data@.len() ==> frame_data@[4 + j] == data@[j],
                forall|j: int|
                    4 + data@.len() <= j < frame_data@.len() ==> frame_data@[j] == 0u8,
            decreases 8 - frame_data@.len(),
        {
            frame_data.push(0);
        }
        assert(frame_data@ =~= spec_expedited_response_data(index, subindex, data@));
        Some(RawCanFrame { cob_id: self.response_cob_id, data: frame_data })
    }

    /// Build an abort response carrying the given abort code.
    fn create_abort_response(&self, index: u16, subindex: u8, abort_code: u32) -> (r: Option<
        RawCanFrame,
    >)
        requires
            self.wf(),
        ensures
            r matches Some(f) && f.wf() && f.cob_id == self.response_cob_id && f.data@
                == spec_abort_response_data(index, subindex, abort_code),
    {
        let mut frame_data: Vec<u8> = Vec::new();
        frame_data.push(0x80);
        frame_data.push((index % 256) as u8);
        frame_data.push((index / 256) as u8);
        frame_data.push(subindex);
        let mut code_bytes = crate::sdo::u32_le_bytes(abort_code);
        frame_data.push(code_bytes[0]);
        frame_data.push(code_bytes[1]);
        frame_data.push(code_bytes[2]);
        frame_data.push(code_bytes[3]);
        assert(frame_data@ =~= spec_abort_response_data(index, subindex, abort_code));
        Some(RawCanFrame { cob_id: self.response_cob_id, data: frame_data })
    }

    /// Answer the upload request for one address out of the dictionary: a
    /// found value of at most 4 bytes becomes an expedited response, an
    /// over-long one an abort (command specifier invalid), and a missing
    /// address an abort with "object does not exist". Reading a dynamic
    /// entry may advance its counter; nothing else changes.
    fn create_sdo_response(&mut self, index: u16, subindex: u8) -> (r: Option<RawCanFrame>)
        requires
            old(self).wf(),
        ensures
            final(self).wf(),
            final(self).node_id == old(self).node_id,
            final(self).request_cob_id == old(self).request_cob_id,
            final(self).response_cob_id == old(self).response_cob_id,
            r matches Some(f) && f.wf() && f.cob_id == old(self).response_cob_id,
            !old(self).object_dict.spec_has_entry(index, subindex) ==> (*final(self) == *old(self)
                && (r matches Some(f) && f.data@ == spec_abort_response_data(
                index,
                subindex,
                0x06020000,
            ))),
            old(self).object_dict.spec_has_entry(index, subindex) ==> ({
                let e = old(self).object_dict.spec_entry_at(index, subindex);
                match e {
                    ObjectEntry::Static(d, t) => {
                        if d@.len() <= 4 {
                            r matches Some(f) && f.data@ == spec_expedited_response_data(
                                index,
                                subindex,
                                d@,
                            )
                        } else {
                            r matches Some(f) && f.data@ == spec_abort_response_data(
                                index,
                                subindex,
                                0x05040001,
                            )
                        }
                    },
                    ObjectEntry::Dynamic(g, t) => match g {
                        ValueGenerator::Counter { next, step } => r matches Some(f) && f.data@
                            == spec_expedited_response_data(
                            index,
                            subindex,
                            spec_u32_le_bytes(next),
                        ),
                        ValueGenerator::RandomU32 { lo, hi } => r matches Some(f) && (exists|
                            v: u32,
                        |
                            lo <= v < hi && f.data@ == spec_expedited_response_data(
                                index,
                                subindex,
                                spec_u32_le_bytes(v),
                            )),
                    },
                }
            }),
    {
        let looked_up = self.object_dict.get(index, subindex);
        match looked_up {
            Some((data, _data_type)) => self.create_expedited_response(index, subindex, &data),
            None => {
                // Object does not exist in the object dictionary.
                self.create_abort_response(index, subindex, 0x06020000)
            },
        }
    }

    /// Handle one received CAN frame. A frame not addressed to this node's
    /// request identifier, shorter than an SDO header, or carrying anything
    /// but an upload request (command byte 0x40) is ignored; an upload
    /// request is answered out of the dictionary, as `create_sdo_response`
    /// describes.
    pub fn handle_frame(&mut self, frame: &RawCanFrame) -> (r: Option<RawCanFrame>)
        requires
            old(self).wf(),
        ensures
            final(self).wf(),
            final(self).node_id == old(self).node_id,
            final(self).request_cob_id == old(self).request_cob_id,
            final(self).response_cob_id == old(self).response_cob_id,
            ({
                let p = frame.data@;
                &&& !(frame.cob_id == old(self).request_cob_id && p.len() >= 4 && p[0] == 0x40)
                    ==> (r is None && *final(self) == *old(self))
                &&& (frame.cob_id == old(self).request_cob_id && p.len() >= 4 && p[0] == 0x40)
                    ==> ({
                    let index = spec_u16_le(p[1], p[2]);
                    let subindex = p[3];
                    &&& (r matches Some(f) && f.wf() && f.cob_id == old(self).response_cob_id)
                    &&& !old(self).object_dict.spec_has_entry(index, subindex) ==> (r matches Some(
                        f,
                    ) && f.data@ == spec_abort_response_data(index, subindex, 0x06020000))
                    &&& old(self).object_dict.spec_has_entry(index, subindex) ==> ({
                        let e = old(self).object_dict.spec_entry_at(index, subindex);
                        match e {
                            ObjectEntry::Static(d, t) => {
                                if d@.len() <= 4 {
                                    r matches Some(f) && f.data@ == spec_expedited_response_data(
                                        index,
                                        subindex,
                                        d@,
                                    )
                                } else {
                                    r matches Some(f) && f.data@ == spec_abort_response_data(
                                        index,
                                        subindex,
                                        0x05040001,
                                    )
                                }
                            },
                            ObjectEntry::Dynamic(g, t) => match g {
                                ValueGenerator::Counter { next, step } => r matches Some(f)
                                    && f.data@ == spec_expedited_response_data(
                                    index,
                                    subindex,
                                    spec_u32_le_bytes(next),
                                ),
                                ValueGenerator::RandomU32 { lo, hi } => r matches Some(f) && (
                                exists|v: u32|
                                    lo <= v < hi && f.data@ == spec_expedited_response_data(
                                        index,
                                        subindex,
                                        spec_u32_le_bytes(v),
                                    )),
                            },
                        }
                    })
                })
            }),
    {
        if frame.cob_id != self.request_cob_id {
            return None;
        }
        let data = &frame.data;
        if data.len() < 4 {
            return None;
        }
        let command = data[0];
        let index = u16_le(data[1], data[2]);
        let subindex = data[3];
        if command == 0x40 {
            return self.create_sdo_response(index, subindex);
        }
        None
    }
}

/// The list rendering of raw bytes: each as two upper-case hexadecimal
/// digits, comma-separated, in brackets.
pub open spec fn spec_bytes_hex_list(d: Seq<u8>) -> Seq<char>
    decreases d.len(),
{
    if d.len() == 0 {
        "[]"@
    } else if d.len() == 1 {
        "["@ + spec_hex_digits(d[0] as nat, 2) + "]"@
    } else {
        spec_bytes_hex_list(d.drop_last()).drop_last() + ", "@ + spec_hex_digits(
            d.last() as nat,
            2,
        ) + "]"@
    }
}

/// Render raw bytes as a bracketed, comma-separated hexadecimal list.
pub fn bytes_hex_list(d: &[u8]) -> (s: String)
    ensures
        s@ == spec_bytes_hex_list(d@),
{
    if d.len() == 0 {
        proof {
            reveal_strlit("[]");
            reveal_strlit("[");
            reveal_strlit("]");
        }
        return String::from_str("[]");
    }
    let mut s = String::from_str("[");
    let first = u32_to_hex(d[0] as u32, 2);
    s.append(first.as_str());
    proof {
        reveal_strlit("[");
        reveal_strlit("]");
        reveal_strlit(", ");
        assert(d@.take(1).len() == 1);
        assert(d@.take(1)[0] == d@[0]);
        assert(s@ =~= spec_bytes_hex_list(d@.take(1)).drop_last());
    }
    let mut i: usize = 1;
    while i < d.len()
        invariant
            1 <= i <= d@.len(),
            s@ == spec_bytes_hex_list(d@.take(i as int)).drop_last(),
        decreases d@.len() - i,
    {
        s.append(", ");
        let h = u32_to_hex(d[i] as u32, 2);
        s.append(h.as_str());
        proof {
            reveal_strlit("[");
            reveal_strlit("]");
            reveal_strlit(", ");
            assert(d@.take(i + 1).drop_last() =~= d@.take(i as int));
            assert(d@.take(i + 1).last() == d@[i as int]);
            lemma_hex_list_shape(d@.take(i + 1));
            assert(s@ =~= spec_bytes_hex_list(d@.take(i + 1)).drop_last());
        }
        i = i + 1;
    }
    s.append("]");
    proof {
        reveal_strlit("]");
        assert(d@.take(i as int) =~= d@);
        lemma_hex_list_shape(d@);
        assert(s@ =~= spec_bytes_hex_list(d@));
    }
    s
}

/// A non-empty byte list rendering ends in the closing bracket.
proof fn lemma_hex_list_shape(d: Seq<u8>)
    requires
        d.len() > 0,
    ensures
        spec_bytes_hex_list(d).len() > 0,
        spec_bytes_hex_list(d).last() == ']',
        spec_bytes_hex_list(d) == spec_bytes_hex_list(d).drop_last() + seq![']'],
    decreases d.len(),
{
    reveal_strlit("[");
    reveal_strlit("]");
    reveal_strlit(", ");
    if d.len() == 1 {
        assert(spec_bytes_hex_list(d) =~= spec_bytes_hex_list(d).drop_last() + seq![']']);
    } else {
        lemma_hex_list_shape(d.drop_last());
        assert(spec_bytes_hex_list(d) =~= spec_bytes_hex_list(d).drop_last() + seq![']']);
    }
}

/// What `format_data` renders a value to: fixed-width types long enough for
/// their width are little-endian reads printed in decimal; a visible string
/// is decoded as UTF-8; everything else (including floating point, whose
/// rendering is the presentation layer's business) falls back to the
/// hexadecimal byte list.
pub open spec fn spec_formatted_data(d: Seq<u8>, t: SdoDataType) -> Seq<char> {
    if t == SdoDataType::UInt8 && d.len() >= 1 {
        spec_dec_digits(d[0] as nat)
    } else if t == SdoDataType::UInt16 && d.len() >= 2 {
        spec_dec_digits(spec_u16_le(d[0], d[1]) as nat)
    } else if t == SdoDataType::UInt32 && d.len() >= 4 {
        spec_dec_digits(spec_u32_le(d[0], d[1], d[2], d[3]) as nat)
    } else if t == SdoDataType::Int8 && d.len() >= 1 {
        spec_int_dec(d[0] as i8 as int)
    } else if t == SdoDataType::Int16 && d.len() >= 2 {
        spec_int_dec(spec_i16_le(d[0], d[1]) as int)
    } else if t == SdoDataType::Int32 && d.len() >= 4 {
        spec_int_dec(spec_i32_le(d[0], d[1], d[2], d[3]) as int)
    } else if t == SdoDataType::VisibleString {
        utf8_lossy_of(d)
    } else {
        spec_bytes_hex_list(d)
    }
}

/// Render a raw dictionary value for display according to its declared
/// type; see `spec_formatted_data` for the exact result.
pub fn format_data(data: &[u8], data_type: &SdoDataType) -> (s: String)
    ensures
        s@ == spec_formatted_data(data@, *data_type),
{
    if (match data_type {
        SdoDataType::UInt8 => true,
        _ => false,
    }) && data.len() >= 1 {
        u64_to_dec(data[0] as u64)
    } else if (match data_type {
        SdoDataType::UInt16 => true,
        _ => false,
    }) && data.len() >= 2 {
        u64_to_dec(u16_le(data[0], data[1]) as u64)
    } else if (match data_type {
        SdoDataType::UInt32 => true,
        _ => false,
    }) && data.len() >= 4 {
        u64_to_dec(u32_le(data[0], data[1], data[2], data[3]) as u64)
    } else if (match data_type {
        SdoDataType::Int8 => true,
        _ => false,
    }) && data.len() >= 1 {
        i64_to_dec(data[0] as i8 as i64)
    } else if (match data_type {
        SdoDataType::Int16 => true,
        _ => false,
    }) && data.len() >= 2 {
        i64_to_dec(i16_le(data[0], data[1]) as i64)
    } else if (match data_type {
        SdoDataType::Int32 => true,
        _ => false,
    }) && data.len() >= 4 {
        i64_to_dec(i32_le(data[0], data[1], data[2], data[3]) as i64)
    } else if (match data_type {
        SdoDataType::VisibleString => true,
        _ => false,
    }) {
        crate::sdo::utf8_lossy(data)
    } else {
        bytes_hex_list(data)
    }
}


/// Agreement of the mock server with the client codec: a dictionary value of
/// 1 to 4 bytes, long enough for the type the client expects, served as an
/// expedited response to a matching request, decodes on the client side to
/// exactly the value the dictionary held. Together with the payload
/// round-trip law of the codec, a stored value read through the whole stack
/// comes back unchanged.
pub proof fn lemma_server_client_agreement(
    index: u16,
    subindex: u8,
    data: Seq<u8>,
    request: crate::sdo::SdoRequest,
    r: Result<crate::sdo::SdoResponse, crate::sdo::SdoError>,
)
    requires
        1 <= data.len() <= 4,
        request.index == index,
        request.subindex == subindex,
        crate::sdo::spec_payload_ok(data, request.expected_type),
        crate::sdo::spec_read_outcome_ok(
            spec_expedited_response_data(index, subindex, data),
            request,
            r,
        ),
    ensures
        r matches Ok(resp) && crate::sdo::spec_decoded_matches(
            data,
            request.expected_type,
            resp.data,
        ),
{
    let p = spec_expedited_response_data(index, subindex, data);
    let n = 4 - data.len();
    let c = (0x43 + 4 * n) as u8;
    assert(p.len() == 8);
    assert(p[0] == c);
    vstd::arithmetic::div_mod::lemma_fundamental_div_mod(index as int, 256);
    assert(spec_u16_le(p[1], p[2]) == index);
    assert(p[3] == subindex);
    assert(crate::sdo::spec_response_matches_request(p, request));
    assert(c != 0x80);
    assert(crate::sdo::SdoCommand::spec_is_expedited_response(c));
    assert(crate::sdo::spec_expedited_unused_count(c) == n);
    assert(p.subrange(4, 4 + (4 - n)) =~= data);
}

} // verus!
