use canopen::dictionary::ObjectDictionary;
use canopen::dictionary::ValueGenerator;
use canopen::frame::RawCanFrame;
use canopen::sdo::SdoDataType;
use canopen::sdo::SdoRequest;
use canopen::sdo::SdoResponseData;
use canopen::sdo::SdoError;
use canopen::sdo::create_sdo_request_frame;
use canopen::sdo::parse_sdo_response;
use canopen::server::SdoServer;
use canopen::server::format_data;

/// End to end: a static UInt16 value 0x1234 at (0x1000, 0x00), served by the
/// mock server and decoded by the client codec, reads back as exactly 4660.
#[test]
fn end_to_end_static_uint16_read() {
    let mut dict = ObjectDictionary::new();
    dict.add_static(0x1000, 0x00, 0x1234u16.to_le_bytes().to_vec(), SdoDataType::UInt16);
    let mut server = SdoServer::new(4, dict);

    let request = SdoRequest {
        node_id: 4,
        index: 0x1000,
        subindex: 0x00,
        expected_type: SdoDataType::UInt16,
    };
    let request_frame = create_sdo_request_frame(&request).unwrap();
    let response_frame = server.handle_frame(&request_frame).expect("server answers");
    assert_eq!(response_frame.cob_id, 0x584);
    let response = parse_sdo_response(&response_frame, &request).unwrap();
    assert_eq!(response.data, SdoResponseData::UInt16(4660));
}

#[test]
fn missing_object_aborts_with_object_does_not_exist() {
    let dict = ObjectDictionary::new();
    let mut server = SdoServer::new(4, dict);
    let request = SdoRequest {
        node_id: 4,
        index: 0x7000,
        subindex: 0x09,
        expected_type: SdoDataType::UInt8,
    };
    let request_frame = create_sdo_request_frame(&request).unwrap();
    let response_frame = server.handle_frame(&request_frame).expect("server aborts");
    assert_eq!(response_frame.data[0], 0x80);
    match parse_sdo_response(&response_frame, &request) {
        Err(SdoError::AbortTransfer { code, info }) => {
            assert_eq!(code, 0x06020000);
            assert_eq!(info, "Object does not exist in the object dictionary");
        },
        other => panic!("expected abort, got {:?}", other),
    }
}

#[test]
fn oversize_value_aborts_with_command_specifier_invalid() {
    let mut dict = ObjectDictionary::new();
    dict.add_static(0x1008, 0x00, b"MockNode".to_vec(), SdoDataType::VisibleString);
    let mut server = SdoServer::new(4, dict);
    let request = SdoRequest {
        node_id: 4,
        index: 0x1008,
        subindex: 0x00,
        expected_type: SdoDataType::VisibleString,
    };
    let request_frame = create_sdo_request_frame(&request).unwrap();
    let response_frame = server.handle_frame(&request_frame).expect("server aborts");
    match parse_sdo_response(&response_frame, &request) {
        Err(SdoError::AbortTransfer { code, .. }) => assert_eq!(code, 0x05040001),
        other => panic!("expected abort, got {:?}", other),
    }
}

#[test]
fn frames_not_addressed_to_the_server_are_ignored() {
    let mut dict = ObjectDictionary::new();
    dict.add_static(0x1000, 0x00, vec![1], SdoDataType::UInt8);
    let mut server = SdoServer::new(4, dict);
    // Wrong node.
    let other_node = RawCanFrame {
        cob_id: 0x605,
        data: vec![0x40, 0x00, 0x10, 0x00, 0, 0, 0, 0],
    };
    assert!(server.handle_frame(&other_node).is_none());
    // Not an upload request.
    let download = RawCanFrame {
        cob_id: 0x604,
        data: vec![0x23, 0x00, 0x10, 0x00, 1, 0, 0, 0],
    };
    assert!(server.handle_frame(&download).is_none());
    // Too short to carry an SDO header.
    let runt = RawCanFrame { cob_id: 0x604, data: vec![0x40, 0x00] };
    assert!(server.handle_frame(&runt).is_none());
}

#[test]
fn counter_entries_advance_on_each_read() {
    let mut dict = ObjectDictionary::new();
    dict.add_dynamic(
        0x2001,
        0x01,
        ValueGenerator::Counter { next: 10, step: 10 },
        SdoDataType::UInt32,
    );
    let (first, t) = dict.get(0x2001, 0x01).unwrap();
    assert_eq!(first, 10u32.to_le_bytes().to_vec());
    assert_eq!(t, SdoDataType::UInt32);
    let (second, _) = dict.get(0x2001, 0x01).unwrap();
    assert_eq!(second, 20u32.to_le_bytes().to_vec());
    assert_eq!(dict.len(), 1);
}

#[test]
fn random_entries_stay_inside_their_range() {
    let mut dict = ObjectDictionary::new();
    dict.add_dynamic(
        0x2000,
        0x01,
        ValueGenerator::RandomU32 { lo: 20, hi: 30 },
        SdoDataType::UInt32,
    );
    for _ in 0..32 {
        let (bytes, _) = dict.get(0x2000, 0x01).unwrap();
        let v = u32::from_le_bytes([bytes[0], bytes[1], bytes[2], bytes[3]]);
        assert!((20..30).contains(&v));
    }
}

#[test]
fn dictionary_replaces_entries_at_the_same_address() {
    let mut dict = ObjectDictionary::new();
    dict.add_static(0x1000, 0x00, vec![1], SdoDataType::UInt8);
    dict.add_static(0x1000, 0x00, vec![2], SdoDataType::UInt8);
    dict.add_static(0x1000, 0x01, vec![3], SdoDataType::UInt8);
    assert_eq!(dict.len(), 2);
    let (bytes, _) = dict.get(0x1000, 0x00).unwrap();
    assert_eq!(bytes, vec![2]);
    assert!(dict.get(0x1000, 0x02).is_none());
}

#[test]
fn format_data_renders_each_width() {
    assert_eq!(format_data(&[7], &SdoDataType::UInt8), "7");
    assert_eq!(format_data(&0x0031u16.to_le_bytes(), &SdoDataType::UInt16), "49");
    assert_eq!(format_data(&100u32.to_le_bytes(), &SdoDataType::UInt32), "100");
    assert_eq!(format_data(&(-5i8).to_le_bytes(), &SdoDataType::Int8), "-5");
    assert_eq!(format_data(&(-1000i16).to_le_bytes(), &SdoDataType::Int16), "-1000");
    assert_eq!(format_data(&(-123456i32).to_le_bytes(), &SdoDataType::Int32), "-123456");
    assert_eq!(format_data(b"hello", &SdoDataType::VisibleString), "hello");
    // Too short for the declared width: the hexadecimal byte list.
    assert_eq!(format_data(&[0xAB], &SdoDataType::UInt16), "[AB]");
    assert_eq!(format_data(&[0x01, 0x0F], &SdoDataType::OctetString), "[01, 0F]");
    assert_eq!(format_data(&[], &SdoDataType::OctetString), "[]");
}
