use canopen::communication::SdoObject;
use canopen::communication::SdoSubObject;
use canopen::communication::TpdoConfig;
use canopen::communication::TpdoMappedObject;
use canopen::communication::decode_tpdo_cob_id;
use canopen::communication::decompose_tpdo_mapping;
use canopen::communication::default_mapped_object_name;
use canopen::communication::extract_value_from_bytes;
use canopen::communication::merge_tpdo_configs;
use canopen::communication::parse_tpdo_frame;
use canopen::communication::tpdo_comm_param_index;
use canopen::communication::tpdo_mapping_param_index;
use canopen::communication::tpdo_mapped_object_from_value;
use canopen::connect::TpdoConfigParams;
use canopen::connect::TpdoMapping;
use canopen::connect::tpdo_configuration_writes;
use canopen::eds::EdsProperty;
use canopen::eds::EdsSection;
use canopen::eds::eds_section_address;
use canopen::eds::parse_eds_cob_id;
use canopen::eds::parse_number_literal;
use canopen::eds::parse_tpdos_from_eds;
use canopen::eds::search_for_readable_sdo;
use canopen::sdo::SdoDataType;

#[test]
fn mapping_value_decomposition() {
    // 0x20000108: index 0x2000, sub-index 0x01, bit length 8.
    let (index, sub_index, bit_length) = decompose_tpdo_mapping(0x20000108);
    assert_eq!(index, 0x2000);
    assert_eq!(sub_index, 0x01);
    assert_eq!(bit_length, 8);
}

#[test]
fn mapping_value_composition_round_trips() {
    let writes = tpdo_configuration_writes(
        4,
        &TpdoConfigParams {
            tpdo_number: 1,
            cob_id: 0x184,
            transmission_type: 0xFE,
            inhibit_time_100us: 0,
            event_timer_ms: 0,
            mappings: vec![TpdoMapping { index: 0x2000, sub_index: 0x01, bit_length: 8 }],
        },
    )
    .unwrap();
    // The mapping write carries (0x2000 << 16) | (0x01 << 8) | 8.
    let value = u32::from_le_bytes([
        writes[2].data[0],
        writes[2].data[1],
        writes[2].data[2],
        writes[2].data[3],
    ]);
    assert_eq!(value, 0x20000108);
    let (i, s, b) = decompose_tpdo_mapping(value);
    assert_eq!((i, s, b), (0x2000, 0x01, 8));
}

#[test]
fn cob_id_entry_decoding() {
    assert_eq!(decode_tpdo_cob_id(0x184), Some(0x184));
    // Bit 31 set: the TPDO is disabled.
    assert_eq!(decode_tpdo_cob_id(0x8000_0184), None);
    // Only the low 11 bits form the identifier.
    assert_eq!(decode_tpdo_cob_id(0x0000_4184), Some(0x184));
    assert_eq!(tpdo_comm_param_index(1), 0x1800);
    assert_eq!(tpdo_comm_param_index(4), 0x1803);
    assert_eq!(tpdo_mapping_param_index(1), 0x1A00);
    assert_eq!(tpdo_mapping_param_index(3), 0x1A02);
}

#[test]
fn discovered_mapped_objects_infer_type_and_name() {
    let o = tpdo_mapped_object_from_value(0x20000108).unwrap();
    assert_eq!(o.index, 0x2000);
    assert_eq!(o.sub_index, 1);
    assert_eq!(o.bit_length, 8);
    assert_eq!(o.data_type, SdoDataType::UInt8);
    assert_eq!(o.name, "0x2000:01");
    let o = tpdo_mapped_object_from_value(0x20030110).unwrap();
    assert_eq!(o.data_type, SdoDataType::UInt16);
    let o = tpdo_mapped_object_from_value(0x20040120).unwrap();
    assert_eq!(o.data_type, SdoDataType::UInt32);
    // A 24-bit field is unsupported and skipped.
    assert!(tpdo_mapped_object_from_value(0x20040118).is_none());
    assert_eq!(default_mapped_object_name(0x1A00, 0x0F), "0x1A00:0F");
}

#[test]
fn tpdo_frame_parsing_is_byte_aligned() {
    let config = TpdoConfig {
        tpdo_number: 1,
        cob_id: 0x184,
        mapped_objects: vec![
            TpdoMappedObject {
                index: 0x2003,
                sub_index: 1,
                bit_length: 16,
                data_type: SdoDataType::UInt16,
                name: "Status".to_string(),
            },
            TpdoMappedObject {
                index: 0x2004,
                sub_index: 1,
                bit_length: 32,
                data_type: SdoDataType::Int32,
                name: "Speed".to_string(),
            },
        ],
    };
    let mut data = Vec::new();
    data.extend_from_slice(&0x0031u16.to_le_bytes());
    data.extend_from_slice(&(-1500i32).to_le_bytes());
    let values = parse_tpdo_frame(&data, &config);
    assert_eq!(values.len(), 2);
    assert_eq!(values[0], ("Status".to_string(), "49".to_string()));
    assert_eq!(values[1], ("Speed".to_string(), "-1500".to_string()));
}

#[test]
fn extraction_handles_short_frames_and_odd_shapes() {
    let data = [0x64u8, 0x00];
    assert_eq!(extract_value_from_bytes(&data, 0, 16, &SdoDataType::UInt16), "100");
    // Frame too short for the offset: not available.
    assert_eq!(extract_value_from_bytes(&data, 16, 16, &SdoDataType::UInt16), "N/A");
    // Bit-packed fields and floating point are explicitly unsupported.
    assert_eq!(
        extract_value_from_bytes(&data, 0, 12, &SdoDataType::UInt16),
        "Unsupported: 12 bits, UInt16"
    );
    assert_eq!(
        extract_value_from_bytes(&[0, 0, 0, 0], 0, 32, &SdoDataType::Real32),
        "Unsupported: 32 bits, Real32"
    );
    assert_eq!(extract_value_from_bytes(&[0xFF], 0, 8, &SdoDataType::Int8), "-1");
}

/// The merge policy: the device's unnamed mapped object takes its name and
/// type from the description-file entry for the same TPDO and address.
#[test]
fn merge_prefers_description_file_names() {
    let device = vec![TpdoConfig {
        tpdo_number: 1,
        cob_id: 0x184,
        mapped_objects: vec![TpdoMappedObject {
            index: 0x2000,
            sub_index: 1,
            bit_length: 32,
            data_type: SdoDataType::UInt32,
            name: "0x2000:01".to_string(),
        }],
    }];
    let eds = vec![TpdoConfig {
        tpdo_number: 1,
        cob_id: 0x184,
        mapped_objects: vec![TpdoMappedObject {
            index: 0x2000,
            sub_index: 1,
            bit_length: 32,
            data_type: SdoDataType::Real32,
            name: "Temperature".to_string(),
        }],
    }];
    let merged = merge_tpdo_configs(device, eds, &Vec::new());
    assert_eq!(merged.len(), 1);
    assert_eq!(merged[0].tpdo_number, 1);
    assert_eq!(merged[0].cob_id, 0x184);
    assert_eq!(merged[0].mapped_objects[0].name, "Temperature");
    assert_eq!(merged[0].mapped_objects[0].data_type, SdoDataType::Real32);
    // Address and bit length stay the device's.
    assert_eq!(merged[0].mapped_objects[0].index, 0x2000);
    assert_eq!(merged[0].mapped_objects[0].bit_length, 32);
}

#[test]
fn merge_falls_back_on_dictionary_then_keeps_device_entry() {
    let device = vec![TpdoConfig {
        tpdo_number: 2,
        cob_id: 0x284,
        mapped_objects: vec![
            TpdoMappedObject {
                index: 0x2003,
                sub_index: 1,
                bit_length: 16,
                data_type: SdoDataType::UInt16,
                name: "0x2003:01".to_string(),
            },
            TpdoMappedObject {
                index: 0x2009,
                sub_index: 9,
                bit_length: 8,
                data_type: SdoDataType::UInt8,
                name: "0x2009:09".to_string(),
            },
        ],
    }];
    let dictionary = vec![SdoObject {
        index: 0x2003,
        name: "Drive".to_string(),
        sub_objects: vec![SdoSubObject {
            sub_index: 1,
            name: "Status Word".to_string(),
            data_type: "0x0003".to_string(),
        }],
    }];
    let merged = merge_tpdo_configs(device, Vec::new(), &dictionary);
    assert_eq!(merged[0].mapped_objects[0].name, "Status Word");
    assert_eq!(merged[0].mapped_objects[0].data_type, SdoDataType::UInt16);
    // No description-file and no dictionary entry: unchanged.
    assert_eq!(merged[0].mapped_objects[1].name, "0x2009:09");
    assert_eq!(merged[0].mapped_objects[1].data_type, SdoDataType::UInt8);
}

#[test]
fn merge_appends_description_only_tpdos_once() {
    let device = vec![TpdoConfig { tpdo_number: 1, cob_id: 0x181, mapped_objects: vec![] }];
    let eds = vec![
        TpdoConfig {
            tpdo_number: 1,
            cob_id: 0x999,
            mapped_objects: vec![],
        },
        TpdoConfig {
            tpdo_number: 2,
            cob_id: 0x281,
            mapped_objects: vec![TpdoMappedObject {
                index: 0x2000,
                sub_index: 2,
                bit_length: 16,
                data_type: SdoDataType::UInt16,
                name: "Pressure".to_string(),
            }],
        },
        TpdoConfig {
            tpdo_number: 2,
            cob_id: 0x282,
            mapped_objects: vec![],
        },
    ];
    let merged = merge_tpdo_configs(device, eds, &Vec::new());
    // Device TPDO 1 wins over the description file's; description TPDO 2 is
    // appended once, with the first spelling.
    assert_eq!(merged.len(), 2);
    assert_eq!(merged[0].tpdo_number, 1);
    assert_eq!(merged[0].cob_id, 0x181);
    assert_eq!(merged[1].tpdo_number, 2);
    assert_eq!(merged[1].cob_id, 0x281);
    assert_eq!(merged[1].mapped_objects[0].name, "Pressure");
}

#[test]
fn configuration_transaction_write_sequence() {
    let config = TpdoConfigParams {
        tpdo_number: 2,
        cob_id: 0x284,
        transmission_type: 0xFE,
        inhibit_time_100us: 100,
        event_timer_ms: 250,
        mappings: vec![
            TpdoMapping { index: 0x2000, sub_index: 1, bit_length: 32 },
            TpdoMapping { index: 0x2003, sub_index: 1, bit_length: 16 },
        ],
    };
    let writes = tpdo_configuration_writes(4, &config).unwrap();
    assert_eq!(writes.len(), 9);
    for w in &writes {
        assert_eq!(w.node_id, 4);
    }
    // Disable: COB-ID with bit 31 set, at 0x1801 sub 1.
    assert_eq!((writes[0].index, writes[0].subindex), (0x1801, 1));
    assert_eq!(writes[0].data, 0x8000_0284u32.to_le_bytes().to_vec());
    // Zero the mapping count at 0x1A01 sub 0.
    assert_eq!((writes[1].index, writes[1].subindex), (0x1A01, 0));
    assert_eq!(writes[1].data, vec![0]);
    // The two mapping entries.
    assert_eq!((writes[2].index, writes[2].subindex), (0x1A01, 1));
    assert_eq!(writes[2].data, 0x20000120u32.to_le_bytes().to_vec());
    assert_eq!((writes[3].index, writes[3].subindex), (0x1A01, 2));
    assert_eq!(writes[3].data, 0x20030110u32.to_le_bytes().to_vec());
    // The final count, the transmission type, the two optional timings.
    assert_eq!((writes[4].index, writes[4].subindex), (0x1A01, 0));
    assert_eq!(writes[4].data, vec![2]);
    assert_eq!((writes[5].index, writes[5].subindex), (0x1801, 2));
    assert_eq!(writes[5].data, vec![0xFE]);
    assert_eq!((writes[6].index, writes[6].subindex), (0x1801, 3));
    assert_eq!(writes[6].data, 100u16.to_le_bytes().to_vec());
    assert_eq!((writes[7].index, writes[7].subindex), (0x1801, 5));
    assert_eq!(writes[7].data, 250u16.to_le_bytes().to_vec());
    // Re-enable: the COB-ID without the disable bit, last.
    assert_eq!((writes[8].index, writes[8].subindex), (0x1801, 1));
    assert_eq!(writes[8].data, 0x284u32.to_le_bytes().to_vec());
}

#[test]
fn configuration_transaction_validation() {
    let mut config = TpdoConfigParams {
        tpdo_number: 5,
        cob_id: 0x184,
        transmission_type: 0xFE,
        inhibit_time_100us: 0,
        event_timer_ms: 0,
        mappings: vec![],
    };
    match tpdo_configuration_writes(4, &config) {
        Err(e) => assert_eq!(e.describe(), "Request failed: TPDO number must be 1-4"),
        Ok(_) => panic!("TPDO number 5 must be rejected"),
    }
    config.tpdo_number = 1;
    config.mappings = vec![TpdoMapping { index: 0, sub_index: 0, bit_length: 8 }; 9];
    match tpdo_configuration_writes(4, &config) {
        Err(e) => assert_eq!(
            e.describe(),
            "Request failed: Maximum 8 objects can be mapped to a TPDO"
        ),
        Ok(_) => panic!("nine mappings must be rejected"),
    }
    // Without the optional timings the transaction has 5 + N steps.
    config.mappings = vec![TpdoMapping { index: 0x2000, sub_index: 1, bit_length: 8 }];
    let writes = tpdo_configuration_writes(4, &config).unwrap();
    assert_eq!(writes.len(), 6);
}

#[test]
fn eds_cob_id_strings_parse_tolerantly() {
    assert_eq!(parse_eds_cob_id("0x184"), Some(0x184));
    assert_eq!(parse_eds_cob_id("$NODEID+0x180"), Some(0x180));
    assert_eq!(parse_eds_cob_id("NODEID+0x180"), Some(0x180));
    assert_eq!(parse_eds_cob_id("388"), Some(388));
    assert_eq!(parse_eds_cob_id("$NODEID+384"), Some(384));
    assert_eq!(parse_eds_cob_id("0X184"), Some(0x184));
    assert_eq!(parse_eds_cob_id("garbage"), None);
    assert_eq!(parse_eds_cob_id("$NODEID+"), None);
    assert_eq!(parse_number_literal("0x20000110", false), Some(0x20000110));
    assert_eq!(parse_number_literal("0X20", false), None);
    assert_eq!(parse_number_literal("32", false), Some(32));
    assert_eq!(parse_number_literal("4294967296", false), None);
}

#[test]
fn section_names_spell_object_addresses() {
    assert_eq!(eds_section_address("1000sub0"), Some((0x1000, 0)));
    assert_eq!(eds_section_address("1a00sub2"), Some((0x1A00, 2)));
    assert_eq!(eds_section_address("2000sub10"), Some((0x2000, 10)));
    assert_eq!(eds_section_address("1000"), None);
    assert_eq!(eds_section_address("sub1"), None);
    assert_eq!(eds_section_address("1000sub"), None);
    assert_eq!(eds_section_address("1000sub256"), None);
    assert_eq!(eds_section_address("10000sub1"), None);
}

fn section(name: &str, props: &[(&str, &str)]) -> EdsSection {
    EdsSection {
        name: name.to_string(),
        properties: props
            .iter()
            .map(|(k, v)| EdsProperty { key: k.to_string(), value: Some(v.to_string()) })
            .collect(),
    }
}

#[test]
fn readable_dictionary_from_description_sections() {
    let sections = vec![
        section("2000", &[("parametername", "Sensors")]),
        section(
            "2000sub1",
            &[("parametername", "Temperature"), ("datatype", "0x0008"), ("accesstype", "ro")],
        ),
        section(
            "2000sub2",
            &[("parametername", "Setpoint"), ("datatype", "0x0003"), ("accesstype", "rw")],
        ),
        // Write-only entries are not exposed.
        section(
            "2000sub3",
            &[("parametername", "Command"), ("datatype", "0x0003"), ("accesstype", "wo")],
        ),
        section(
            "1000sub0",
            &[("parametername", "Device Type"), ("datatype", "0x0005"), ("accesstype", "ro")],
        ),
        // Not a sub-entry section.
        section("deviceinfo", &[("vendorname", "nobody")]),
    ];
    let dictionary = search_for_readable_sdo(&sections);
    assert_eq!(dictionary.len(), 2);
    assert_eq!(dictionary[0].index, 0x1000);
    assert_eq!(dictionary[0].name, "Unnamed Object");
    assert_eq!(dictionary[0].sub_objects.len(), 1);
    assert_eq!(dictionary[0].sub_objects[0].name, "Device Type");
    assert_eq!(dictionary[1].index, 0x2000);
    assert_eq!(dictionary[1].name, "Sensors");
    assert_eq!(dictionary[1].sub_objects.len(), 2);
    assert_eq!(dictionary[1].sub_objects[0].sub_index, 1);
    assert_eq!(dictionary[1].sub_objects[0].name, "Temperature");
    assert_eq!(dictionary[1].sub_objects[1].sub_index, 2);
    assert_eq!(dictionary[1].sub_objects[1].data_type, "0x0003");
}

#[test]
fn tpdos_from_description_file() {
    let sections = vec![
        section("1800sub1", &[("defaultvalue", "$NODEID+0x180")]),
        section("1a00sub0", &[("defaultvalue", "2")]),
        section("1a00sub1", &[("defaultvalue", "0x20000120")]),
        section("1a00sub2", &[("defaultvalue", "0x20030110")]),
        // TPDO 2 is disabled by bit 31.
        section("1801sub1", &[("defaultvalue", "0x80000280")]),
        section("1a01sub0", &[("defaultvalue", "1")]),
        section("1a01sub1", &[("defaultvalue", "0x20000108")]),
        section(
            "2000sub1",
            &[("parametername", "Temperature"), ("datatype", "0x0008"), ("accesstype", "ro")],
        ),
    ];
    let dictionary = search_for_readable_sdo(&sections);
    let configs = parse_tpdos_from_eds(&sections, &dictionary);
    assert_eq!(configs.len(), 1);
    assert_eq!(configs[0].tpdo_number, 1);
    assert_eq!(configs[0].cob_id, 0x180);
    assert_eq!(configs[0].mapped_objects.len(), 2);
    // The first mapped object is named by the dictionary, with its type.
    assert_eq!(configs[0].mapped_objects[0].name, "Temperature");
    assert_eq!(configs[0].mapped_objects[0].data_type, SdoDataType::Real32);
    assert_eq!(configs[0].mapped_objects[0].bit_length, 32);
    // The second is unknown to the dictionary: synthesized name, inferred type.
    assert_eq!(configs[0].mapped_objects[1].name, "0x2003:01");
    assert_eq!(configs[0].mapped_objects[1].data_type, SdoDataType::UInt16);
}
