use canopen::frame::RawCanFrame;
use canopen::sdo::SdoDataType;
use canopen::sdo::SdoError;
use canopen::sdo::SdoRequest;
use canopen::sdo::SdoResponseData;
use canopen::sdo::SdoWriteRequest;
use canopen::sdo::SdoCommand;
use canopen::sdo::create_sdo_request_frame;
use canopen::sdo::create_sdo_write_frame;
use canopen::sdo::get_abort_code_description;
use canopen::sdo::parse_payload;
use canopen::sdo::parse_sdo_response;
use canopen::sdo::parse_sdo_write_response;

fn read_request(node_id: u8, index: u16, subindex: u8, t: SdoDataType) -> SdoRequest {
    SdoRequest { node_id, index, subindex, expected_type: t }
}

#[test]
fn upload_request_frame_layout() {
    let request = read_request(4, 0x2000, 0x01, SdoDataType::UInt32);
    let frame = create_sdo_request_frame(&request).unwrap();
    assert_eq!(frame.cob_id, 0x604);
    assert_eq!(frame.data, vec![0x40, 0x00, 0x20, 0x01, 0x00, 0x00, 0x00, 0x00]);
}

#[test]
fn encoding_is_idempotent() {
    // Encoding the same request twice yields byte-identical frames.
    let request = read_request(7, 0x1018, 0x02, SdoDataType::UInt16);
    let first = create_sdo_request_frame(&request).unwrap();
    let second = create_sdo_request_frame(&request).unwrap();
    assert_eq!(first.cob_id, second.cob_id);
    assert_eq!(first.data, second.data);

    let write = SdoWriteRequest { node_id: 7, index: 0x1800, subindex: 1, data: vec![1, 2, 3] };
    let w1 = create_sdo_write_frame(&write).unwrap();
    let w2 = create_sdo_write_frame(&write).unwrap();
    assert_eq!(w1.cob_id, w2.cob_id);
    assert_eq!(w1.data, w2.data);
}

#[test]
fn write_frame_layout_and_limit() {
    let write = SdoWriteRequest { node_id: 3, index: 0x1A00, subindex: 2, data: vec![0x34, 0x12] };
    let frame = create_sdo_write_frame(&write).unwrap();
    assert_eq!(frame.cob_id, 0x603);
    // Two unused bytes: command 0x23 | (2 << 2) = 0x2B.
    assert_eq!(frame.data, vec![0x2B, 0x00, 0x1A, 0x02, 0x34, 0x12, 0x00, 0x00]);

    let too_long = SdoWriteRequest { node_id: 3, index: 0x1A00, subindex: 2, data: vec![0; 5] };
    assert!(matches!(
        create_sdo_write_frame(&too_long),
        Err(SdoError::InvalidResponse(_))
    ));
}

#[test]
fn expedited_decode_concrete_scenario() {
    // Command 0x43 (4 data bytes), index 0x2000, sub 0x01, payload 100.
    let frame = RawCanFrame {
        cob_id: 0x584,
        data: vec![0x43, 0x00, 0x20, 0x01, 0x64, 0x00, 0x00, 0x00],
    };
    let request = read_request(4, 0x2000, 0x01, SdoDataType::UInt32);
    let response = parse_sdo_response(&frame, &request).unwrap();
    assert_eq!(response.node_id, 4);
    assert_eq!(response.index, 0x2000);
    assert_eq!(response.subindex, 0x01);
    assert_eq!(response.data, SdoResponseData::UInt32(100));
    assert_eq!(response.raw_data, frame.data);

    // The 0x4B variant announces two data bytes (n = 2).
    let short = RawCanFrame {
        cob_id: 0x584,
        data: vec![0x4B, 0x00, 0x20, 0x01, 0x64, 0x00, 0x00, 0x00],
    };
    let request16 = read_request(4, 0x2000, 0x01, SdoDataType::UInt16);
    let response16 = parse_sdo_response(&short, &request16).unwrap();
    assert_eq!(response16.data, SdoResponseData::UInt16(100));
}

#[test]
fn abort_code_maps_to_exact_text() {
    let frame = RawCanFrame {
        cob_id: 0x584,
        data: vec![0x80, 0x00, 0x20, 0x01, 0x00, 0x00, 0x02, 0x06],
    };
    let request = read_request(4, 0x2000, 0x01, SdoDataType::UInt32);
    match parse_sdo_response(&frame, &request) {
        Err(SdoError::AbortTransfer { code, info }) => {
            assert_eq!(code, 0x06020000);
            assert_eq!(info, "Object does not exist in the object dictionary");
        },
        other => panic!("expected abort, got {:?}", other),
    }
}

#[test]
fn unknown_abort_code_renders_hexadecimal_fallback() {
    assert_eq!(
        get_abort_code_description(0x12345678),
        "Unknown abort code: 0x12345678"
    );
    assert_eq!(get_abort_code_description(0x05040005), "Out of memory");
}

#[test]
fn payload_round_trips_for_every_supported_type() {
    // Boundary values per type: zero, maximum, and negative where signed.
    for v in [0u8, 1, 0x7F, 0xFF] {
        let decoded = parse_payload(&[v], &SdoDataType::UInt8).unwrap();
        assert_eq!(decoded, SdoResponseData::UInt8(v));
    }
    for v in [0u16, 1, 0x1234, u16::MAX] {
        let decoded = parse_payload(&v.to_le_bytes(), &SdoDataType::UInt16).unwrap();
        assert_eq!(decoded, SdoResponseData::UInt16(v));
    }
    for v in [0u32, 1, 100, 0xDEADBEEF, u32::MAX] {
        let decoded = parse_payload(&v.to_le_bytes(), &SdoDataType::UInt32).unwrap();
        assert_eq!(decoded, SdoResponseData::UInt32(v));
    }
    for v in [0i8, 1, -1, i8::MIN, i8::MAX] {
        let decoded = parse_payload(&v.to_le_bytes(), &SdoDataType::Int8).unwrap();
        assert_eq!(decoded, SdoResponseData::Int8(v));
    }
    for v in [0i16, 1, -1, -1000, i16::MIN, i16::MAX] {
        let decoded = parse_payload(&v.to_le_bytes(), &SdoDataType::Int16).unwrap();
        assert_eq!(decoded, SdoResponseData::Int16(v));
    }
    for v in [0i32, 1, -1, -123456, i32::MIN, i32::MAX] {
        let decoded = parse_payload(&v.to_le_bytes(), &SdoDataType::Int32).unwrap();
        assert_eq!(decoded, SdoResponseData::Int32(v));
    }
    for v in [0.0f32, 1.5, -2.25, f32::MAX] {
        let decoded = parse_payload(&v.to_le_bytes(), &SdoDataType::Real32).unwrap();
        assert_eq!(decoded, SdoResponseData::Real32(v.to_bits()));
    }
    let decoded = parse_payload(b"ab", &SdoDataType::VisibleString).unwrap();
    assert_eq!(decoded, SdoResponseData::String("ab".to_string()));
    let decoded = parse_payload(b"ab\0\0", &SdoDataType::VisibleString).unwrap();
    assert_eq!(decoded, SdoResponseData::String("ab".to_string()));
    let decoded = parse_payload(&[1, 2, 3, 4], &SdoDataType::OctetString).unwrap();
    assert_eq!(decoded, SdoResponseData::Bytes(vec![1, 2, 3, 4]));
}

#[test]
fn payload_too_short_is_a_parse_error() {
    match parse_payload(&[0x01], &SdoDataType::UInt16) {
        Err(SdoError::ParseError(m)) => assert_eq!(m, "Insufficient data for UInt16"),
        other => panic!("expected parse error, got {:?}", other),
    }
    match parse_payload(&[0x01, 0x02], &SdoDataType::Int32) {
        Err(SdoError::ParseError(m)) => assert_eq!(m, "Insufficient data for Int32"),
        other => panic!("expected parse error, got {:?}", other),
    }
}

#[test]
fn response_mismatch_and_short_frames_are_rejected() {
    let request = read_request(4, 0x2000, 0x01, SdoDataType::UInt32);
    let short = RawCanFrame { cob_id: 0x584, data: vec![0x43, 0x00] };
    match parse_sdo_response(&short, &request) {
        Err(SdoError::InvalidResponse(m)) => assert_eq!(m, "Frame too short"),
        other => panic!("expected invalid response, got {:?}", other),
    }
    let wrong_address = RawCanFrame {
        cob_id: 0x584,
        data: vec![0x43, 0x01, 0x20, 0x01, 0x64, 0x00, 0x00, 0x00],
    };
    match parse_sdo_response(&wrong_address, &request) {
        Err(SdoError::InvalidResponse(m)) => {
            assert_eq!(
                m,
                "Response mismatch: expected index=0x2000, subindex=1, got index=0x2001, subindex=1"
            );
        },
        other => panic!("expected mismatch, got {:?}", other),
    }
}

#[test]
fn segmented_transfer_is_an_explicit_unsupported_error() {
    let request = read_request(4, 0x2000, 0x01, SdoDataType::UInt32);
    // Command 0x41 announces a segmented upload response.
    let frame = RawCanFrame {
        cob_id: 0x584,
        data: vec![0x41, 0x00, 0x20, 0x01, 0x08, 0x00, 0x00, 0x00],
    };
    match parse_sdo_response(&frame, &request) {
        Err(SdoError::InvalidResponse(m)) => {
            assert_eq!(m, "Segmented SDO transfer not implemented yet (command=0x41)");
        },
        other => panic!("expected unsupported error, got {:?}", other),
    }
}

#[test]
fn write_response_requires_download_ack() {
    let write = SdoWriteRequest { node_id: 4, index: 0x1800, subindex: 1, data: vec![0] };
    let ack = RawCanFrame {
        cob_id: 0x584,
        data: vec![0x60, 0x00, 0x18, 0x01, 0x00, 0x00, 0x00, 0x00],
    };
    assert!(parse_sdo_write_response(&ack, &write).is_ok());

    let abort = RawCanFrame {
        cob_id: 0x584,
        data: vec![0x80, 0x00, 0x18, 0x01, 0x00, 0x00, 0x02, 0x06],
    };
    match parse_sdo_write_response(&abort, &write) {
        Err(SdoError::AbortTransfer { code, .. }) => assert_eq!(code, 0x06020000),
        other => panic!("expected abort, got {:?}", other),
    }

    let wrong = RawCanFrame {
        cob_id: 0x584,
        data: vec![0x60, 0x01, 0x18, 0x01, 0x00, 0x00, 0x00, 0x00],
    };
    match parse_sdo_write_response(&wrong, &write) {
        Err(SdoError::InvalidResponse(m)) => assert_eq!(m, "Unexpected download response"),
        other => panic!("expected invalid response, got {:?}", other),
    }
}

#[test]
fn command_specifier_values_and_expedited_detection() {
    assert_eq!(SdoCommand::InitiateUploadRequest.code(), 0x40);
    assert_eq!(SdoCommand::ExpeditedUploadResponse.code(), 0x43);
    assert_eq!(SdoCommand::AbortTransfer.code(), 0x80);
    assert!(SdoCommand::is_expedited_response(0x43));
    assert!(SdoCommand::is_expedited_response(0x4B));
    assert!(SdoCommand::is_expedited_response(0x4F));
    assert!(!SdoCommand::is_expedited_response(0x41));
    assert!(!SdoCommand::is_expedited_response(0x80));
    assert!(!SdoCommand::is_expedited_response(0x60));
}

#[test]
fn eds_type_codes_map_to_data_types() {
    assert_eq!(SdoDataType::from_eds_type("0x0001"), Some(SdoDataType::UInt8));
    assert_eq!(SdoDataType::from_eds_type("1"), Some(SdoDataType::UInt8));
    assert_eq!(SdoDataType::from_eds_type("0x0002"), Some(SdoDataType::Int8));
    assert_eq!(SdoDataType::from_eds_type("0x0003"), Some(SdoDataType::UInt16));
    assert_eq!(SdoDataType::from_eds_type("0x0004"), Some(SdoDataType::Int16));
    assert_eq!(SdoDataType::from_eds_type("0x0005"), Some(SdoDataType::UInt32));
    assert_eq!(SdoDataType::from_eds_type("0x0006"), Some(SdoDataType::Int32));
    assert_eq!(SdoDataType::from_eds_type("0x0008"), Some(SdoDataType::Real32));
    assert_eq!(SdoDataType::from_eds_type("0x0009"), Some(SdoDataType::VisibleString));
    assert_eq!(SdoDataType::from_eds_type("0x000A"), Some(SdoDataType::OctetString));
    assert_eq!(SdoDataType::from_eds_type("10"), Some(SdoDataType::OctetString));
    assert_eq!(SdoDataType::from_eds_type("0x0007"), None);
    assert_eq!(SdoDataType::from_eds_type(""), None);
}

#[test]
fn sdo_error_text_rendering() {
    assert_eq!(SdoError::Timeout.describe(), "SDO request timeout");
    assert_eq!(
        SdoError::SocketError("nope".to_string()).describe(),
        "Socket error: nope"
    );
    assert_eq!(
        SdoError::AbortTransfer { code: 0x06020000, info: "gone".to_string() }.describe(),
        "SDO abort 0x06020000: gone"
    );
    assert_eq!(
        SdoError::ParseError("short".to_string()).describe(),
        "Parse error: short"
    );
}
