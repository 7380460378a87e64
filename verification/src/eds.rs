use vstd::prelude::*;
use vstd::string::StrSliceExecFns;
use vstd::string::StringExecFns;

use crate::sdo::SdoDataType;
use crate::communication::SdoObject;
use crate::communication::SdoSubObject;
use crate::communication::TpdoConfig;
use crate::communication::TpdoMappedObject;
use crate::communication::decode_tpdo_cob_id;
use crate::communication::decompose_tpdo_mapping;
use crate::communication::default_mapped_object_name;
use crate::communication::find_od_object;
use crate::communication::find_od_sub;
use crate::text::u32_to_hex_lower;
use crate::text::spec_hex_digits_lower;
use crate::text::spec_dec_digits;
use crate::text::u64_to_dec;
use crate::text::spec_parses_as;
use crate::text::spec_parsed_val;
use crate::text::parse_u64_radix;
use crate::text::str_eq;

verus! {

/// One key/value pair of a device-description section; a key may stand
/// alone, without a value.
#[derive(Debug, Clone)]
pub struct EdsProperty {
    pub key: String,
    pub value: Option<String>,
}

/// One section of a device-description (EDS) file, as the INI reader hands
/// it over: the section name and its properties, names and keys already
/// folded to lower case by the reader.
#[derive(Debug, Clone)]
pub struct EdsSection {
    pub name: String,
    pub properties: Vec<EdsProperty>,
}

/// `i` is the position of the first section with this name.
pub open spec fn spec_first_section_at(ss: Seq<EdsSection>, name: Seq<char>, i: int) -> bool {
    &&& 0 <= i < ss.len()
    &&& ss[i].name@ == name
    &&& forall|l: int| 0 <= l < i ==> (#[trigger] ss[l]).name@ != name
}

/// `u` is the position of the first property with this key.
pub open spec fn spec_first_property_at(ps: Seq<EdsProperty>, key: Seq<char>, u: int) -> bool {
    &&& 0 <= u < ps.len()
    &&& ps[u].key@ == key
    &&& forall|l: int| 0 <= l < u ==> (#[trigger] ps[l]).key@ != key
}

/// The position of the first section with the given name.
pub fn find_section(sections: &Vec<EdsSection>, name: &str) -> (r: Option<usize>)
    ensures
        r matches Some(i) ==> spec_first_section_at(sections@, name@, i as int),
        r is None ==> forall|l: int|
            0 <= l < sections@.len() ==> (#[trigger] sections@[l]).name@ != name@,
{
    let mut i: usize = 0;
    while i < sections.len()
        invariant
            i <= sections@.len(),
            forall|l: int| 0 <= l < i ==> (#[trigger] sections@[l]).name@ != name@,
        decreases sections@.len() - i,
    {
        if str_eq(sections[i].name.as_str(), name) {
            return Some(i);
        }
        i = i + 1;
    }
    None
}

/// The position of the first property with the given key.
pub fn find_property(properties: &Vec<EdsProperty>, key: &str) -> (r: Option<usize>)
    ensures
        r matches Some(u) ==> spec_first_property_at(properties@, key@, u as int),
        r is None ==> forall|l: int|
            0 <= l < properties@.len() ==> (#[trigger] properties@[l]).key@ != key@,
{
    let mut i: usize = 0;
    while i < properties.len()
        invariant
            i <= properties@.len(),
            forall|l: int| 0 <= l < i ==> (#[trigger] properties@[l]).key@ != key@,
        decreases properties@.len() - i,
    {
        if str_eq(properties[i].key.as_str(), key) {
            return Some(i);
        }
        i = i + 1;
    }
    None
}

/// What the INI reader's `get` finds: the first property with the key in
/// the first section with the name, when both exist and the property
/// carries a value.
pub open spec fn spec_eds_value(
    ss: Seq<EdsSection>,
    section: Seq<char>,
    key: Seq<char>,
) -> Option<Seq<char>> {
    if exists|i: int| spec_first_section_at(ss, section, i) {
        let i = choose|i: int| spec_first_section_at(ss, section, i);
        let ps = ss[i].properties@;
        if exists|u: int| spec_first_property_at(ps, key, u) {
            let u = choose|u: int| spec_first_property_at(ps, key, u);
            match ps[u].value {
                Some(v) => Some(v@),
                None => None,
            }
        } else {
            None
        }
    } else {
        None
    }
}

/// A first-section position is unique.
proof fn lemma_first_section_unique(ss: Seq<EdsSection>, name: Seq<char>, i1: int, i2: int)
    requires
        spec_first_section_at(ss, name, i1),
        spec_first_section_at(ss, name, i2),
    ensures
        i1 == i2,
{
}

/// A first-property position is unique.
proof fn lemma_first_property_unique(ps: Seq<EdsProperty>, key: Seq<char>, u1: int, u2: int)
    requires
        spec_first_property_at(ps, key, u1),
        spec_first_property_at(ps, key, u2),
    ensures
        u1 == u2,
{
}

/// Look a value up as the INI reader's `get` does: the first section with
/// the name, the first property with the key, and only a present value.
pub fn eds_get(sections: &Vec<EdsSection>, section: &str, key: &str) -> (r: Option<String>)
    ensures
        r matches Some(v) ==> (spec_eds_value(sections@, section@, key@) matches Some(sv) && v@
            == sv),
        r is None ==> spec_eds_value(sections@, section@, key@) is None,
{
    let i = match find_section(sections, section) {
        Some(i) => i,
        None => {
            proof {
                assert(!exists|i: int| spec_first_section_at(sections@, section@, i));
            }
            return None;
        },
    };
    proof {
        assert(spec_first_section_at(sections@, section@, i as int));
        let i2 = choose|i2: int| spec_first_section_at(sections@, section@, i2);
        lemma_first_section_unique(sections@, section@, i as int, i2);
    }
    let u = match find_property(&sections[i].properties, key) {
        Some(u) => u,
        None => {
            proof {
                assert(!exists|u: int|
                    spec_first_property_at(sections@[i as int].properties@, key@, u));
            }
            return None;
        },
    };
    proof {
        assert(spec_first_property_at(sections@[i as int].properties@, key@, u as int));
        let u2 = choose|u2: int|
            spec_first_property_at(sections@[i as int].properties@, key@, u2);
        lemma_first_property_unique(sections@[i as int].properties@, key@, u as int, u2);
    }
    match &sections[i].properties[u].value {
        Some(v) => {
            let out = v.clone();
            Some(out)
        },
        None => None,
    }
}

/// The first position of `c` in `s` at or after `from`.
pub open spec fn spec_find_char_from(s: Seq<char>, c: char, from: int) -> Option<int>
    decreases s.len() - from,
{
    if from < 0 || from >= s.len() {
        None
    } else if s[from] == c {
        Some(from)
    } else {
        spec_find_char_from(s, c, from + 1)
    }
}

/// A scan that saw no `c` in `[from, i)` and sees one at `i` has found the
/// first occurrence from `from`.
proof fn lemma_find_char_hit(s: Seq<char>, c: char, from: int, i: int)
    requires
        0 <= from <= i < s.len(),
        s[i] == c,
        forall|l: int| from <= l < i ==> s[l] != c,
    ensures
        spec_find_char_from(s, c, from) == Some(i),
    decreases i - from,
{
    if from < i {
        lemma_find_char_hit(s, c, from + 1, i);
    }
}

/// A scan that saw no `c` anywhere from `from` on found nothing.
proof fn lemma_find_char_miss(s: Seq<char>, c: char, from: int)
    requires
        0 <= from,
        forall|l: int| from <= l < s.len() ==> s[l] != c,
    ensures
        spec_find_char_from(s, c, from) is None,
    decreases s.len() - from,
{
    if from < s.len() {
        lemma_find_char_miss(s, c, from + 1);
    }
}

/// Find the first position of `c` in `s` at or after `from`.
pub fn find_char_from(s: &str, c: char, from: usize) -> (r: Option<usize>)
    ensures
        r matches Some(i) ==> from <= i && i < s@.len() && spec_find_char_from(s@, c, from as int)
            == Some(i as int),
        r is None ==> spec_find_char_from(s@, c, from as int) is None,
{
    let len = s.unicode_len();
    if from >= len {
        proof {
            if from as int >= s@.len() {
                assert(spec_find_char_from(s@, c, from as int) is None);
            }
        }
        return None;
    }
    let mut i: usize = from;
    while i < len
        invariant
            from <= i <= len,
            len == s@.len(),
            forall|l: int| from <= l < i ==> s@[l] != c,
        decreases len - i,
    {
        if s.get_char(i) == c {
            proof {
                lemma_find_char_hit(s@, c, from as int, i as int);
            }
            return Some(i);
        }
        i = i + 1;
    }
    proof {
        lemma_find_char_miss(s@, c, from as int);
    }
    None
}

/// The part of a COB-ID string that carries the number: everything between
/// the first plus sign and the next one (or the end), or the whole string
/// when there is no plus sign. This tolerates the node-id-relative
/// spellings of device descriptions, where a placeholder such as a node-id
/// token stands before the plus sign and is read as zero.
pub open spec fn spec_cob_id_source(s: Seq<char>) -> Seq<char> {
    match spec_find_char_from(s, '+', 0) {
        None => s,
        Some(i) => {
            let j = match spec_find_char_from(s, '+', i + 1) {
                Some(j) => j,
                None => s.len() as int,
            };
            s.subrange(i + 1, j)
        },
    }
}

/// The value of a number literal: hexadecimal digits after a `0x` prefix
/// (also `0X` when `allow_upper_prefix` is set), else decimal digits, with
/// `None` for a malformed spelling or a value above `u32::MAX`.
pub open spec fn spec_number_literal(s: Seq<char>, allow_upper_prefix: bool) -> Option<u32> {
    if s.len() >= 2 && s[0] == '0' && (s[1] == 'x' || (allow_upper_prefix && s[1] == 'X')) {
        let rest = s.skip(2);
        if spec_parses_as(rest, 16) && spec_parsed_val(rest, 16) <= u32::MAX {
            Some(spec_parsed_val(rest, 16) as u32)
        } else {
            None
        }
    } else {
        if spec_parses_as(s, 10) && spec_parsed_val(s, 10) <= u32::MAX {
            Some(spec_parsed_val(s, 10) as u32)
        } else {
            None
        }
    }
}

/// Parse a number literal: hexadecimal after a `0x` (or, when allowed,
/// `0X`) prefix, else decimal.
pub fn parse_number_literal(s: &str, allow_upper_prefix: bool) -> (r: Option<u32>)
    ensures
        r == spec_number_literal(s@, allow_upper_prefix),
{
    let len = s.unicode_len();
    let hex_prefix = len >= 2 && s.get_char(0) == '0' && (s.get_char(1) == 'x'
        || (allow_upper_prefix && s.get_char(1) == 'X'));
    if hex_prefix {
        let rest = s.substring_char(2, len);
        assert(rest@ =~= s@.skip(2));
        match parse_u64_radix(rest, 16) {
            Some(v) => {
                if v <= u32::MAX as u64 {
                    Some(v as u32)
                } else {
                    None
                }
            },
            None => None,
        }
    } else {
        match parse_u64_radix(s, 10) {
            Some(v) => {
                if v <= u32::MAX as u64 {
                    Some(v as u32)
                } else {
                    None
                }
            },
            None => None,
        }
    }
}

/// The numeric value of a COB-ID string from a device description: the
/// number literal in its `spec_cob_id_source` part.
pub open spec fn spec_eds_cob_id_value(s: Seq<char>) -> Option<u32> {
    spec_number_literal(spec_cob_id_source(s), true)
}

/// Parse the COB-ID string of a device description tolerantly: a node-id
/// placeholder before a plus sign is read as zero, and the literal after it
/// may be hexadecimal (either prefix case) or decimal.
pub fn parse_eds_cob_id(s: &str) -> (r: Option<u32>)
    ensures
        r == spec_eds_cob_id_value(s@),
{
    let len = s.unicode_len();
    let source: &str = match find_char_from(s, '+', 0) {
        None => s,
        Some(i) => {
            let j = match find_char_from(s, '+', i + 1) {
                Some(j) => j,
                None => len,
            };
            let part = s.substring_char(i + 1, j);
            assert(part@ =~= s@.subrange(i + 1, j as int));
            part
        },
    };
    parse_number_literal(source, true)
}

/// Whether the three characters starting at `l` spell the sub-entry marker
/// `sub` of a section name.
pub open spec fn spec_sub_marker_occurs(s: Seq<char>, l: int) -> bool {
    0 <= l && l + 3 <= s.len() && s[l] == 's' && s[l + 1] == 'u' && s[l + 2] == 'b'
}

/// The first position of the sub-entry marker at or after `from`.
pub open spec fn spec_find_sub_marker(s: Seq<char>, from: int) -> Option<int>
    decreases s.len() - from,
{
    if from < 0 || from + 3 > s.len() {
        None
    } else if spec_sub_marker_occurs(s, from) {
        Some(from)
    } else {
        spec_find_sub_marker(s, from + 1)
    }
}

/// A scan that saw no marker in `[from, i)` and sees one at `i` has found
/// the first marker from `from`.
proof fn lemma_find_marker_hit(s: Seq<char>, from: int, i: int)
    requires
        0 <= from <= i,
        spec_sub_marker_occurs(s, i),
        forall|l: int| from <= l < i ==> !spec_sub_marker_occurs(s, l),
    ensures
        spec_find_sub_marker(s, from) == Some(i),
    decreases i - from,
{
    if from < i {
        lemma_find_marker_hit(s, from + 1, i);
    }
}

/// A scan that saw no marker anywhere from `from` on found nothing.
proof fn lemma_find_marker_miss(s: Seq<char>, from: int)
    requires
        0 <= from,
        forall|l: int| from <= l ==> !spec_sub_marker_occurs(s, l),
    ensures
        spec_find_sub_marker(s, from) is None,
    decreases s.len() - from,
{
    if from + 3 <= s.len() {
        lemma_find_marker_miss(s, from + 1);
    }
}

/// Find the first position of the sub-entry marker at or after `from`.
pub fn find_sub_marker(s: &str, from: usize) -> (r: Option<usize>)
    ensures
        r matches Some(i) ==> from <= i && i + 3 <= s@.len() && spec_find_sub_marker(
            s@,
            from as int,
        ) == Some(i as int),
        r is None ==> spec_find_sub_marker(s@, from as int) is None,
{
    let len = s.unicode_len();
    if len < 3 || from > len - 3 {
        proof {
            lemma_find_marker_miss(s@, from as int);
        }
        return None;
    }
    let mut i: usize = from;
    while i <= len - 3
        invariant
            from <= i,
            3 <= len == s@.len(),
            i <= len - 2,
            forall|l: int| from <= l < i ==> !spec_sub_marker_occurs(s@, l),
        decreases len - i,
    {
        if s.get_char(i) == 's' && s.get_char(i + 1) == 'u' && s.get_char(i + 2) == 'b' {
            proof {
                lemma_find_marker_hit(s@, from as int, i as int);
            }
            return Some(i);
        }
        i = i + 1;
    }
    proof {
        lemma_find_marker_miss(s@, from as int);
    }
    None
}

/// The object address a section name spells, when it does: the hexadecimal
/// index before the first `sub` marker and the decimal sub-index between
/// that marker and the next one (or the end). The index must fit 16 bits
/// and the sub-index 8, as the respective integer parsers demand.
pub open spec fn spec_section_address(s: Seq<char>) -> Option<(u16, u8)> {
    match spec_find_sub_marker(s, 0) {
        None => None,
        Some(i) => {
            let index_part = s.take(i);
            let j = match spec_find_sub_marker(s, i + 3) {
                Some(j) => j,
                None => s.len() as int,
            };
            let sub_part = s.subrange(i + 3, j);
            if spec_parses_as(index_part, 16) && spec_parsed_val(index_part, 16) <= 0xFFFF
                && spec_parses_as(sub_part, 10) && spec_parsed_val(sub_part, 10) <= 0xFF {
                Some(
                    (
                        spec_parsed_val(index_part, 16) as u16,
                        spec_parsed_val(sub_part, 10) as u8,
                    ),
                )
            } else {
                None
            }
        },
    }
}

/// Parse a section name of the shape index-`sub`-subindex, hexadecimal
/// index and decimal sub-index, as device descriptions spell their
/// sub-entry sections.
pub fn eds_section_address(s: &str) -> (r: Option<(u16, u8)>)
    ensures
        r == spec_section_address(s@),
{
    let len = s.unicode_len();
    let i = match find_sub_marker(s, 0) {
        Some(i) => i,
        None => {
            return None;
        },
    };
    let index_part = s.substring_char(0, i);
    assert(index_part@ =~= s@.take(i as int));
    let j = match find_sub_marker(s, i + 3) {
        Some(j) => j,
        None => len,
    };
    let sub_part = s.substring_char(i + 3, j);
    assert(sub_part@ =~= s@.subrange(i + 3, j as int));
    let index_val = match parse_u64_radix(index_part, 16) {
        Some(v) => v,
        None => {
            return None;
        },
    };
    if index_val > 0xFFFF {
        return None;
    }
    let sub_val = match parse_u64_radix(sub_part, 10) {
        Some(v) => v,
        None => {
            return None;
        },
    };
    if sub_val > 0xFF {
        return None;
    }
    Some((index_val as u16, sub_val as u8))
}


/// The section naming a TPDO's COB-ID entry: the communication-parameter
/// object index in lower-case hexadecimal, then the sub-entry marker and
/// sub-index 1, as the INI reader folds section names.
pub open spec fn spec_comm_cob_section_name(tpdo_number: u8) -> Seq<char>
    recommends
        1 <= tpdo_number <= 4,
{
    spec_hex_digits_lower((0x1800 + tpdo_number - 1) as nat, 4) + "sub1"@
}

/// The broadcast identifier a description file declares for a TPDO: its
/// COB-ID entry's value, tolerantly parsed, low 11 bits; nothing when the
/// entry is missing, malformed, or carries the disable bit.
pub open spec fn spec_eds_tpdo_cob(ss: Seq<EdsSection>, tpdo_number: u8) -> Option<u16> {
    match spec_eds_value(ss, spec_comm_cob_section_name(tpdo_number), "defaultvalue"@) {
        Some(v) => match spec_eds_cob_id_value(v) {
            Some(val) => if val < 0x8000_0000 {
                Some((val % 2048) as u16)
            } else {
                None
            },
            None => None,
        },
        None => None,
    }
}

/// The section naming a TPDO's mapping entry for one sub-index (sub-index 0
/// carries the mapping count).
pub open spec fn spec_mapping_section_name(tpdo_number: u8, sub: int) -> Seq<char>
    recommends
        1 <= tpdo_number <= 4,
        0 <= sub <= 255,
{
    spec_hex_digits_lower((0x1A00 + tpdo_number - 1) as nat, 4) + "sub"@ + spec_dec_digits(
        sub as nat,
    )
}

/// The mapping count a description file declares for a TPDO: the decimal
/// value of the count entry, zero when it does not parse or exceeds 8 bits;
/// nothing when the entry is missing altogether.
pub open spec fn spec_eds_mapping_count(ss: Seq<EdsSection>, tpdo_number: u8) -> Option<int> {
    match spec_eds_value(ss, spec_mapping_section_name(tpdo_number, 0), "defaultvalue"@) {
        Some(v) => if spec_parses_as(v, 10) && spec_parsed_val(v, 10) <= 255 {
            Some(spec_parsed_val(v, 10))
        } else {
            Some(0)
        },
        None => None,
    }
}

/// The mapping value a description file declares for one sub-entry of a
/// TPDO, when the entry is present and its literal parses.
pub open spec fn spec_eds_mapping_value(ss: Seq<EdsSection>, tpdo_number: u8, sub: int) -> Option<
    u32,
> {
    match spec_eds_value(ss, spec_mapping_section_name(tpdo_number, sub), "defaultvalue"@) {
        Some(v) => spec_number_literal(v, false),
        None => None,
    }
}

/// Whether a description file declares a usable TPDO: an enabled COB-ID, a
/// mapping count of at least one, and at least one mapping entry within the
/// count whose value parses.
pub open spec fn spec_eds_tpdo_present(ss: Seq<EdsSection>, tpdo_number: u8) -> bool {
    &&& spec_eds_tpdo_cob(ss, tpdo_number) is Some
    &&& match spec_eds_mapping_count(ss, tpdo_number) {
        Some(count) => count >= 1 && exists|sub: int|
            1 <= sub <= count && spec_eds_mapping_value(ss, tpdo_number, sub) is Some,
        None => false,
    }
}

/// Read the TPDO layouts a device description file declares, against the
/// general object dictionary built from the same file.
///
/// For each TPDO number 1 through 4, the COB-ID is read from the
/// communication-parameter section (tolerantly, through
/// `parse_eds_cob_id`); a set disable bit skips the TPDO. The mapped-object
/// count and each mapping value come from the mapping-parameter sections
/// and are decomposed by the same rules as device discovery; names and
/// types are filled from the dictionary where it knows the address, else
/// inferred from the bit length. A TPDO with nothing mapped is left out.
///
/// The result holds at most one configuration per TPDO number, in rising
/// order, each with an 11-bit identifier and at least one mapped object.
pub fn parse_tpdos_from_eds(
    sections: &Vec<EdsSection>,
    object_dictionary: &Vec<SdoObject>,
) -> (r: Vec<TpdoConfig>)
    ensures
        r@.len() <= 4,
        forall|i: int|
            0 <= i < r@.len() ==> {
                let c = #[trigger] r@[i];
                1 <= c.tpdo_number <= 4 && c.cob_id < 2048 && 1 <= c.mapped_objects@.len() <= 255
            },
        forall|i: int, j: int| 0 <= i < j < r@.len() ==> r@[i].tpdo_number < r@[j].tpdo_number,
        forall|i: int|
            0 <= i < r@.len() ==> spec_eds_tpdo_cob(sections@, (#[trigger] r@[i]).tpdo_number)
                == Some(r@[i].cob_id),
        forall|n: u8|
            1 <= n <= 4 ==> ((exists|k: int|
                0 <= k < r@.len() && (#[trigger] r@[k]).tpdo_number == n)
                <==> #[trigger] spec_eds_tpdo_present(sections@, n)),
{
    let mut tpdo_configs: Vec<TpdoConfig> = Vec::new();
    let mut tpdo_num: u8 = 1;
    while tpdo_num <= 4
        invariant
            1 <= tpdo_num <= 5,
            tpdo_configs@.len() < tpdo_num,
            forall|i: int|
                0 <= i < tpdo_configs@.len() ==> {
                    let c = #[trigger] tpdo_configs@[i];
                    1 <= c.tpdo_number < tpdo_num && c.cob_id < 2048 && 1 <= c.mapped_objects@.len()
                        <= 255
                },
            forall|i: int, j: int|
                0 <= i < j < tpdo_configs@.len() ==> tpdo_configs@[i].tpdo_number
                    < tpdo_configs@[j].tpdo_number,
            forall|i: int|
                0 <= i < tpdo_configs@.len() ==> spec_eds_tpdo_cob(
                    sections@,
                    (#[trigger] tpdo_configs@[i]).tpdo_number,
                ) == Some(tpdo_configs@[i].cob_id),
            forall|n: u8|
                1 <= n < tpdo_num ==> ((exists|k: int|
                    0 <= k < tpdo_configs@.len() && (#[trigger] tpdo_configs@[k]).tpdo_number == n)
                    <==> #[trigger] spec_eds_tpdo_present(sections@, n)),
        decreases 5 - tpdo_num,
    {
        let comm_param_index: u16 = 0x1800 + (tpdo_num - 1) as u16;
        let mapping_param_index: u16 = 0x1A00 + (tpdo_num - 1) as u16;

        let mut comm_section = u32_to_hex_lower(comm_param_index as u32, 4);
        comm_section.append("sub1");
        assert(comm_section@ == spec_comm_cob_section_name(tpdo_num));
        let cob_id: u16 = match eds_get(sections, comm_section.as_str(), "defaultvalue") {
            Some(value_str) => {
                match parse_eds_cob_id(value_str.as_str()) {
                    Some(val) => {
                        match decode_tpdo_cob_id(val) {
                            Some(id) => id,
                            None => {
                                // The disable bit is set: this TPDO is off.
                                proof {
                                    assert(spec_eds_tpdo_cob(sections@, tpdo_num) is None);
                                    assert(!spec_eds_tpdo_present(sections@, tpdo_num));
                                }
                                tpdo_num = tpdo_num + 1;
                                continue ;
                            },
                        }
                    },
                    None => {
                        proof {
                            assert(spec_eds_tpdo_cob(sections@, tpdo_num) is None);
                            assert(!spec_eds_tpdo_present(sections@, tpdo_num));
                        }
                        tpdo_num = tpdo_num + 1;
                        continue ;
                    },
                }
            },
            None => {
                proof {
                    assert(spec_eds_tpdo_cob(sections@, tpdo_num) is None);
                    assert(!spec_eds_tpdo_present(sections@, tpdo_num));
                }
                tpdo_num = tpdo_num + 1;
                continue ;
            },
        };

        let mut mapping_section_0 = u32_to_hex_lower(mapping_param_index as u32, 4);
        mapping_section_0.append("sub0");
        proof {
            reveal_strlit("sub0");
            reveal_strlit("sub");
            reveal_strlit("0");
            assert("sub0"@ =~= "sub"@ + spec_dec_digits(0));
            assert(mapping_section_0@ =~= spec_mapping_section_name(tpdo_num, 0));
        }
        let num_mapped: u8 = match eds_get(sections, mapping_section_0.as_str(), "defaultvalue") {
            Some(value_str) => {
                match parse_u64_radix(value_str.as_str(), 10) {
                    Some(v) => if v <= 255 {
                        v as u8
                    } else {
                        0
                    },
                    None => 0,
                }
            },
            None => {
                proof {
                    assert(spec_eds_mapping_count(sections@, tpdo_num) is None);
                    assert(!spec_eds_tpdo_present(sections@, tpdo_num));
                }
                tpdo_num = tpdo_num + 1;
                continue ;
            },
        };
        proof {
            assert(spec_eds_mapping_count(sections@, tpdo_num) == Some(num_mapped as int));
        }
        if num_mapped == 0 {
            proof {
                assert(!spec_eds_tpdo_present(sections@, tpdo_num));
            }
            tpdo_num = tpdo_num + 1;
            continue ;
        }
        let mut mapped_objects: Vec<TpdoMappedObject> = Vec::new();
        let mut sub: u16 = 1;
        while sub <= num_mapped as u16
            invariant
                1 <= sub <= 256,
                sub <= num_mapped + 1,
                1 <= tpdo_num <= 4,
                mapping_param_index == 0x1A00 + (tpdo_num - 1),
                mapped_objects@.len() < sub,
                (mapped_objects@.len() > 0) <==> (exists|s: int|
                    1 <= s < sub && #[trigger] spec_eds_mapping_value(sections@, tpdo_num, s)
                        is Some),
            decreases 256 - sub,
        {
            let mut mapping_section = u32_to_hex_lower(mapping_param_index as u32, 4);
            mapping_section.append("sub");
            let sub_digits = u64_to_dec(sub as u64);
            mapping_section.append(sub_digits.as_str());
            proof {
                assert(mapping_section@ =~= spec_mapping_section_name(tpdo_num, sub as int));
            }
            let mapping_value: u32 = match eds_get(
                sections,
                mapping_section.as_str(),
                "defaultvalue",
            ) {
                Some(value_str) => {
                    match parse_number_literal(value_str.as_str(), false) {
                        Some(v) => v,
                        None => {
                            proof {
                                assert(spec_eds_mapping_value(sections@, tpdo_num, sub as int)
                                    is None);
                            }
                            sub = sub + 1;
                            continue ;
                        },
                    }
                },
                None => {
                    proof {
                        assert(spec_eds_mapping_value(sections@, tpdo_num, sub as int) is None);
                    }
                    sub = sub + 1;
                    continue ;
                },
            };
            proof {
                assert(spec_eds_mapping_value(sections@, tpdo_num, sub as int) is Some);
            }
            let (obj_index, obj_subindex, bit_length) = decompose_tpdo_mapping(mapping_value);
            let mut name: Option<String> = None;
            let mut data_type: Option<SdoDataType> = None;
            match find_od_object(object_dictionary, obj_index) {
                Some(o) => {
                    match find_od_sub(&object_dictionary[o].sub_objects, obj_subindex) {
                        Some(u) => {
                            let sub_obj = &object_dictionary[o].sub_objects[u];
                            name = Some(sub_obj.name.clone());
                            data_type = match SdoDataType::from_eds_type(
                                sub_obj.data_type.as_str(),
                            ) {
                                Some(dt) => Some(dt),
                                None => {
                                    // Fall back on the bit length where the
                                    // declared type code does not parse.
                                    Some(
                                        if bit_length == 8 {
                                            SdoDataType::UInt8
                                        } else if bit_length == 16 {
                                            SdoDataType::UInt16
                                        } else {
                                            SdoDataType::UInt32
                                        },
                                    )
                                },
                            };
                        },
                        None => {},
                    }
                },
                None => {},
            }
            let name = match name {
                Some(n) => n,
                None => default_mapped_object_name(obj_index, obj_subindex),
            };
            let data_type = match data_type {
                Some(dt) => dt,
                None => if bit_length == 8 {
                    SdoDataType::UInt8
                } else if bit_length == 16 {
                    SdoDataType::UInt16
                } else {
                    SdoDataType::UInt32
                },
            };
            mapped_objects.push(
                TpdoMappedObject {
                    index: obj_index,
                    sub_index: obj_subindex,
                    bit_length,
                    data_type,
                    name,
                },
            );
            sub = sub + 1;
        }
        let ghost pre = tpdo_configs@;
        let pushed = mapped_objects.len() > 0;
        if pushed {
            proof {
                assert(spec_eds_tpdo_cob(sections@, tpdo_num) == Some(cob_id));
                assert(spec_eds_tpdo_present(sections@, tpdo_num));
            }
            tpdo_configs.push(TpdoConfig { tpdo_number: tpdo_num, cob_id, mapped_objects });
        } else {
            proof {
                assert(!spec_eds_tpdo_present(sections@, tpdo_num));
            }
        }
        proof {
            assert forall|n: u8| 1 <= n < tpdo_num + 1 implies ((exists|k: int|
                0 <= k < tpdo_configs@.len() && (#[trigger] tpdo_configs@[k]).tpdo_number == n)
                <==> #[trigger] spec_eds_tpdo_present(sections@, n)) by {
                if n < tpdo_num {
                    if exists|k: int|
                        0 <= k < tpdo_configs@.len() && (#[trigger] tpdo_configs@[k]).tpdo_number
                            == n {
                        let k = choose|k: int|
                            0 <= k < tpdo_configs@.len() && (
                            #[trigger] tpdo_configs@[k]).tpdo_number == n;
                        assert(k < pre.len());
                        assert(pre[k].tpdo_number == n);
                    }
                    if spec_eds_tpdo_present(sections@, n) {
                        let k = choose|k: int|
                            0 <= k < pre.len() && (#[trigger] pre[k]).tpdo_number == n;
                        assert(tpdo_configs@[k].tpdo_number == n);
                    }
                } else {
                    if pushed {
                        assert(tpdo_configs@[tpdo_configs@.len() - 1].tpdo_number == n);
                    } else {
                        if exists|k: int|
                            0 <= k < tpdo_configs@.len() && (
                            #[trigger] tpdo_configs@[k]).tpdo_number == n {
                            let k = choose|k: int|
                                0 <= k < tpdo_configs@.len() && (
                                #[trigger] tpdo_configs@[k]).tpdo_number == n;
                            assert(pre[k].tpdo_number < tpdo_num);
                        }
                    }
                }
            }
        }
        tpdo_num = tpdo_num + 1;
    }
    tpdo_configs
}

/// The value of a section's first property with the given key, when the
/// property is present and carries one.
pub open spec fn spec_property_value(ps: Seq<EdsProperty>, key: Seq<char>) -> Option<Seq<char>> {
    if exists|u: int| spec_first_property_at(ps, key, u) {
        let u = choose|u: int| spec_first_property_at(ps, key, u);
        match ps[u].value {
            Some(v) => Some(v@),
            None => None,
        }
    } else {
        None
    }
}

/// Whether a section exposes a readable entry: its access type property is
/// read-only or read-write.
pub open spec fn spec_access_ok(section: EdsSection) -> bool {
    match spec_property_value(section.properties@, "accesstype"@) {
        Some(v) => v == "ro"@ || v == "rw"@,
        None => false,
    }
}

/// Whether some section of the file declares this address as a readable
/// entry: its name spells the address and its access type permits reading.
pub open spec fn spec_declares_readable(ss: Seq<EdsSection>, index: u16, sub_index: u8) -> bool {
    exists|si: int|
        0 <= si < ss.len() && spec_section_address((#[trigger] ss[si]).name@) == Some(
            (index, sub_index),
        ) && spec_access_ok(ss[si])
}

/// Whether a sub-entry list is sorted strictly by sub-index.
pub open spec fn spec_subs_sorted(subs: Seq<SdoSubObject>) -> bool {
    forall|u: int, v: int| 0 <= u < v < subs.len() ==> subs[u].sub_index < subs[v].sub_index
}

/// Whether an object list is sorted strictly by index, each object's
/// sub-entries sorted strictly by sub-index.
pub open spec fn spec_od_sorted(od: Seq<SdoObject>) -> bool {
    &&& forall|i: int, j: int| 0 <= i < j < od.len() ==> od[i].index < od[j].index
    &&& forall|i: int| 0 <= i < od.len() ==> spec_subs_sorted((#[trigger] od[i]).sub_objects@)
}

/// Place a sub-entry in a sorted sub-entry list: replace the entry with the
/// same sub-index, or insert at its position. Every entry afterwards is the
/// placed one or one the list already held; the placed one is present, and
/// every sub-index the list held is still held.
#[verifier::rlimit(60)]
fn insert_sub_object(subs: &mut Vec<SdoSubObject>, sub: SdoSubObject)
    requires
        spec_subs_sorted(old(subs)@),
    ensures
        spec_subs_sorted(final(subs)@),
        forall|u: int|
            0 <= u < final(subs)@.len() ==> ((#[trigger] final(subs)@[u]) == sub || exists|u2: int|
                0 <= u2 < old(subs)@.len() && old(subs)@[u2] == final(subs)@[u]),
        exists|u: int| 0 <= u < final(subs)@.len() && (#[trigger] final(subs)@[u]) == sub,
        forall|u2: int| #![trigger old(subs)@[u2]]
            0 <= u2 < old(subs)@.len() ==> exists|u: int|
                0 <= u < final(subs)@.len() && (#[trigger] final(subs)@[u]).sub_index == old(
                    subs,
                )@[u2].sub_index,
{
    let mut pos: usize = 0;
    while pos < subs.len() && subs[pos].sub_index < sub.sub_index
        invariant
            pos <= subs@.len(),
            subs@ == old(subs)@,
            spec_subs_sorted(subs@),
            forall|l: int| 0 <= l < pos ==> (#[trigger] subs@[l]).sub_index < sub.sub_index,
        decreases subs@.len() - pos,
    {
        pos = pos + 1;
    }
    if pos < subs.len() {
        let existing = subs[pos].sub_index;
        if existing == sub.sub_index {
            subs.set(pos, sub);
            proof {
                assert forall|u: int|
                    0 <= u < subs@.len() implies ((#[trigger] subs@[u]) == sub || exists|u2: int|
                    0 <= u2 < old(subs)@.len() && old(subs)@[u2] == subs@[u]) by {
                    if u != pos as int {
                        assert(old(subs)@[u] == subs@[u]);
                    }
                }
                assert(subs@[pos as int] == sub);
                assert forall|u2: int| #![trigger old(subs)@[u2]]
                    0 <= u2 < old(subs)@.len() implies exists|u: int|
                    0 <= u < subs@.len() && (#[trigger] subs@[u]).sub_index == old(
                        subs,
                    )@[u2].sub_index by {
                    if u2 == pos as int {
                        assert(subs@[u2].sub_index == old(subs)@[u2].sub_index);
                    } else {
                        assert(subs@[u2] == old(subs)@[u2]);
                    }
                }
            }
            return ;
        }
    }
    subs.insert(pos, sub);
    proof {
        assert forall|u: int|
            0 <= u < subs@.len() implies ((#[trigger] subs@[u]) == sub || exists|u2: int|
            0 <= u2 < old(subs)@.len() && old(subs)@[u2] == subs@[u]) by {
            if u < pos as int {
                assert(old(subs)@[u] == subs@[u]);
            } else if u > pos as int {
                assert(old(subs)@[u - 1] == subs@[u]);
            }
        }
        assert(subs@[pos as int] == sub);
        assert forall|u2: int| #![trigger old(subs)@[u2]]
            0 <= u2 < old(subs)@.len() implies exists|u: int|
            0 <= u < subs@.len() && (#[trigger] subs@[u]).sub_index == old(
                subs,
            )@[u2].sub_index by {
            if u2 < pos as int {
                assert(subs@[u2] == old(subs)@[u2]);
            } else {
                assert(subs@[u2 + 1] == old(subs)@[u2]);
            }
        }
    }
}

/// Whether the dictionary holds the given address.
pub open spec fn spec_od_contains(od: Seq<SdoObject>, index: u16, sub_index: u8) -> bool {
    exists|i: int, u: int|
        #![trigger od[i].sub_objects@[u]]
        0 <= i < od.len() && 0 <= u < od[i].sub_objects@.len() && od[i].index == index
            && od[i].sub_objects@[u].sub_index == sub_index
}

/// Build the readable object dictionary a device description file declares:
/// every sub-entry section whose access type is read-only or read-write,
/// keyed by the address its section name spells, with the declared
/// parameter name and data type code; parent objects carry the name of
/// their own section, or a placeholder. The result is sorted by index,
/// each object's sub-entries by sub-index.
pub fn search_for_readable_sdo(sections: &Vec<EdsSection>) -> (r: Vec<SdoObject>)
    ensures
        spec_od_sorted(r@),
        forall|i: int, u: int|
            #![trigger r@[i].sub_objects@[u]]
            0 <= i < r@.len() && 0 <= u < r@[i].sub_objects@.len() ==> spec_declares_readable(
                sections@,
                r@[i].index,
                r@[i].sub_objects@[u].sub_index,
            ),
        forall|sj: int|
            0 <= sj < sections@.len() ==> match spec_section_address(
                (#[trigger] sections@[sj]).name@,
            ) {
                Some(addr) => spec_access_ok(sections@[sj]) ==> spec_od_contains(
                    r@,
                    addr.0,
                    addr.1,
                ),
                None => true,
            },
{
    let mut objects: Vec<SdoObject> = Vec::new();
    let mut si: usize = 0;
    while si < sections.len()
        invariant
            si <= sections@.len(),
            spec_od_sorted(objects@),
            forall|i: int, u: int|
                #![trigger objects@[i].sub_objects@[u]]
                0 <= i < objects@.len() && 0 <= u < objects@[i].sub_objects@.len()
                    ==> spec_declares_readable(
                    sections@,
                    objects@[i].index,
                    objects@[i].sub_objects@[u].sub_index,
                ),
            forall|sj: int|
                0 <= sj < si ==> match spec_section_address((#[trigger] sections@[sj]).name@) {
                    Some(addr) => spec_access_ok(sections@[sj]) ==> spec_od_contains(
                        objects@,
                        addr.0,
                        addr.1,
                    ),
                    None => true,
                },
        decreases sections@.len() - si,
    {
        let ghost snapshot = objects@;
        let section = &sections[si];
        let address = eds_section_address(section.name.as_str());
        match address {
            Some((index, sub_index)) => {
                let access_ok = match find_property(&section.properties, "accesstype") {
                    Some(u) => {
                        proof {
                            assert(spec_first_property_at(
                                section.properties@,
                                "accesstype"@,
                                u as int,
                            ));
                            let u2 = choose|u2: int|
                                spec_first_property_at(section.properties@, "accesstype"@, u2);
                            lemma_first_property_unique(
                                section.properties@,
                                "accesstype"@,
                                u as int,
                                u2,
                            );
                        }
                        match &section.properties[u].value {
                            Some(access) => str_eq(access.as_str(), "ro") || str_eq(
                                access.as_str(),
                                "rw",
                            ),
                            None => false,
                        }
                    },
                    None => {
                        proof {
                            assert(!exists|u: int|
                                spec_first_property_at(section.properties@, "accesstype"@, u));
                        }
                        false
                    },
                };
                proof {
                    assert(access_ok == spec_access_ok(sections@[si as int]));
                    if access_ok {
                        assert(spec_declares_readable(sections@, index, sub_index));
                    }
                }
                if access_ok {
                    let sub_name = match find_property(&section.properties, "parametername") {
                        Some(u) => {
                            match &section.properties[u].value {
                                Some(v) => v.clone(),
                                None => String::new(),
                            }
                        },
                        None => String::new(),
                    };
                    let data_type = match find_property(&section.properties, "datatype") {
                        Some(u) => {
                            match &section.properties[u].value {
                                Some(v) => v.clone(),
                                None => String::new(),
                            }
                        },
                        None => String::new(),
                    };
                    let sub_object = SdoSubObject { sub_index, name: sub_name, data_type };
                    let mut pos: usize = 0;
                    while pos < objects.len() && objects[pos].index < index
                        invariant
                            pos <= objects@.len(),
                            spec_od_sorted(objects@),
                            forall|l: int| 0 <= l < pos ==> (#[trigger] objects@[l]).index < index,
                        decreases objects@.len() - pos,
                    {
                        pos = pos + 1;
                    }
                    let exists_here = pos < objects.len() && objects[pos].index == index;
                    if exists_here {
                        let ghost pre = objects@;
                        let ghost placed = sub_object;
                        let entry = &mut objects[pos];
                        insert_sub_object(&mut entry.sub_objects, sub_object);
                        proof {
                            assert forall|i: int, j: int|
                                0 <= i < j < objects@.len() implies objects@[i].index
                                < objects@[j].index by {
                                assert(objects@[i].index == pre[i].index);
                                assert(objects@[j].index == pre[j].index);
                            }
                            assert(spec_od_contains(objects@, index, sub_index)) by {
                                let u = choose|u: int|
                                    0 <= u < objects@[pos as int].sub_objects@.len()
                                        && (#[trigger] objects@[pos as int].sub_objects@[u])
                                        == placed;
                                assert(objects@[pos as int].sub_objects@[u].sub_index
                                    == sub_index);
                            }
                            assert forall|x: u16, y: u8| #[trigger]
                                spec_od_contains(pre, x, y) implies spec_od_contains(
                                objects@,
                                x,
                                y,
                            ) by {
                                let (i, u): (int, int) = choose|i: int, u: int|
                                    #![trigger pre[i].sub_objects@[u]]
                                    0 <= i < pre.len() && 0 <= u < pre[i].sub_objects@.len()
                                        && pre[i].index == x && pre[i].sub_objects@[u].sub_index
                                        == y;
                                if i != pos as int {
                                    assert(objects@[i].sub_objects@[u].sub_index == y);
                                } else {
                                    let u3 = choose|u3: int|
                                        0 <= u3 < objects@[pos as int].sub_objects@.len() && (
                                        #[trigger] objects@[pos as int].sub_objects@[u3]).sub_index
                                            == pre[pos as int].sub_objects@[u].sub_index;
                                    assert(objects@[i].sub_objects@[u3].sub_index == y);
                                }
                            }
                            assert forall|sj: int|
                                0 <= sj < si + 1 implies match spec_section_address(
                                (#[trigger] sections@[sj]).name@,
                            ) {
                                Some(addr) => spec_access_ok(sections@[sj])
                                    ==> spec_od_contains(objects@, addr.0, addr.1),
                                None => true,
                            } by {
                                if sj < si {
                                    match spec_section_address(sections@[sj].name@) {
                                        Some(addr) => {
                                            if spec_access_ok(sections@[sj]) {
                                                assert(spec_od_contains(pre, addr.0, addr.1));
                                            }
                                        },
                                        None => {},
                                    }
                                }
                            }
                            assert forall|i: int, u: int|
                                #![trigger objects@[i].sub_objects@[u]]
                                0 <= i < objects@.len() && 0 <= u
                                    < objects@[i].sub_objects@.len() implies spec_declares_readable(
                                sections@,
                                objects@[i].index,
                                objects@[i].sub_objects@[u].sub_index,
                            ) by {
                                if i != pos as int {
                                    assert(objects@[i] == pre[i]);
                                    assert(spec_declares_readable(
                                        sections@,
                                        pre[i].index,
                                        pre[i].sub_objects@[u].sub_index,
                                    ));
                                } else {
                                    let entry_subs = objects@[i].sub_objects@;
                                    if entry_subs[u] == placed {
                                        assert(objects@[i].index == index);
                                        assert(spec_declares_readable(
                                            sections@,
                                            index,
                                            sub_index,
                                        ));
                                    } else {
                                        let u2 = choose|u2: int|
                                            0 <= u2 < pre[i].sub_objects@.len()
                                                && pre[i].sub_objects@[u2] == entry_subs[u];
                                        assert(spec_declares_readable(
                                            sections@,
                                            pre[i].index,
                                            pre[i].sub_objects@[u2].sub_index,
                                        ));
                                    }
                                }
                            }
                        }
                    } else {
                        // The parent object's display name comes from the
                        // section named by the bare index part, when the
                        // file has one.
                        let marker = find_sub_marker(section.name.as_str(), 0);
                        let object_name: String = match marker {
                            Some(m) => {
                                let prefix = section.name.as_str().substring_char(0, m);
                                match eds_get(sections, prefix, "parametername") {
                                    Some(v) => v,
                                    None => String::from_str("Unnamed Object"),
                                }
                            },
                            None => String::from_str("Unnamed Object"),
                        };
                        let mut sub_objects: Vec<SdoSubObject> = Vec::new();
                        sub_objects.push(sub_object);
                        let obj = SdoObject { index, name: object_name, sub_objects };
                        let ghost pre = objects@;
                        objects.insert(pos, obj);
                        proof {
                            assert(spec_od_contains(objects@, index, sub_index)) by {
                                assert(objects@[pos as int].sub_objects@[0].sub_index
                                    == sub_index);
                            }
                            assert forall|x: u16, y: u8| #[trigger]
                                spec_od_contains(pre, x, y) implies spec_od_contains(
                                objects@,
                                x,
                                y,
                            ) by {
                                let (i, u): (int, int) = choose|i: int, u: int|
                                    #![trigger pre[i].sub_objects@[u]]
                                    0 <= i < pre.len() && 0 <= u < pre[i].sub_objects@.len()
                                        && pre[i].index == x && pre[i].sub_objects@[u].sub_index
                                        == y;
                                if i < pos as int {
                                    assert(objects@[i] == pre[i]);
                                    assert(objects@[i].sub_objects@[u].sub_index == y);
                                } else {
                                    assert(objects@[i + 1] == pre[i]);
                                    assert(objects@[i + 1].sub_objects@[u].sub_index == y);
                                }
                            }
                            assert forall|sj: int|
                                0 <= sj < si + 1 implies match spec_section_address(
                                (#[trigger] sections@[sj]).name@,
                            ) {
                                Some(addr) => spec_access_ok(sections@[sj])
                                    ==> spec_od_contains(objects@, addr.0, addr.1),
                                None => true,
                            } by {
                                if sj < si {
                                    match spec_section_address(sections@[sj].name@) {
                                        Some(addr) => {
                                            if spec_access_ok(sections@[sj]) {
                                                assert(spec_od_contains(pre, addr.0, addr.1));
                                            }
                                        },
                                        None => {},
                                    }
                                }
                            }
                            assert forall|i: int, u: int|
                                #![trigger objects@[i].sub_objects@[u]]
                                0 <= i < objects@.len() && 0 <= u
                                    < objects@[i].sub_objects@.len() implies spec_declares_readable(
                                sections@,
                                objects@[i].index,
                                objects@[i].sub_objects@[u].sub_index,
                            ) by {
                                if i < pos as int {
                                    assert(objects@[i] == pre[i]);
                                    assert(spec_declares_readable(
                                        sections@,
                                        pre[i].index,
                                        pre[i].sub_objects@[u].sub_index,
                                    ));
                                } else if i == pos as int {
                                    assert(objects@[i].sub_objects@[u].sub_index == sub_index);
                                    assert(spec_declares_readable(sections@, index, sub_index));
                                } else {
                                    assert(objects@[i] == pre[i - 1]);
                                    assert(spec_declares_readable(
                                        sections@,
                                        pre[i - 1].index,
                                        pre[i - 1].sub_objects@[u].sub_index,
                                    ));
                                }
                            }
                            assert forall|i: int, j: int|
                                0 <= i < j < objects@.len() implies objects@[i].index
                                < objects@[j].index by {
                                if j < pos as int {
                                } else if i < pos as int && j == pos as int {
                                    assert(objects@[i] == pre[i]);
                                } else if i < pos as int {
                                    assert(objects@[i] == pre[i]);
                                    assert(objects@[j] == pre[j - 1]);
                                } else if i == pos as int {
                                    assert(objects@[j] == pre[j - 1]);
                                    assert(pre[j - 1].index >= index);
                                    assert(pre[j - 1].index != index);
                                } else {
                                    assert(objects@[i] == pre[i - 1]);
                                    assert(objects@[j] == pre[j - 1]);
                                }
                            }
                        }
                    }
                }
            },
            None => {},
        }
        si = si + 1;
    }
    objects
}

} // verus!
