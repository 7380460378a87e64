use canopen::connect::CANopenError;
use canopen::connect::ConnectionState;
use canopen::connect::PendingSdoRequest;
use canopen::connect::SdoOperation;
use canopen::connect::SdoOperationOutcome;
use canopen::connect::NodeState;
use canopen::dictionary::ObjectDictionary;
use canopen::sdo::SdoDataType;
use canopen::sdo::SdoError;
use canopen::sdo::SdoRequest;
use canopen::sdo::SdoResponseData;
use canopen::server::SdoServer;

fn read_op(node_id: u8, index: u16, subindex: u8, token: u64, now: u64) -> PendingSdoRequest {
    PendingSdoRequest {
        operation: SdoOperation::Read(SdoRequest {
            node_id,
            index,
            subindex,
            expected_type: SdoDataType::UInt16,
        }),
        token,
        submitted_ms: now,
    }
}

/// One mock server per device answers everything the connection sends, and
/// each device's results must come back in submission order.
#[test]
fn test_multiple_concurrent_requests() {
    let mut connection = ConnectionState::new();
    connection.add_node(1, 1000);

    let mut dict = ObjectDictionary::new();
    dict.add_static(0x1000, 0x00, 0x1111u16.to_le_bytes().to_vec(), SdoDataType::UInt16);
    let mut server = SdoServer::new(1, dict);

    for token in 0..5u64 {
        assert!(connection.submit_request(1, read_op(1, 0x1000, 0x00, token, 0)));
    }

    let mut completed_tokens: Vec<u64> = Vec::new();
    // Each pass dispatches at most one frame per device; the server answers
    // and the completion frees the slot for the next queued operation.
    for _pass in 0..5 {
        let frames = connection.start_pending_requests(0);
        assert_eq!(frames.len(), 1);
        let reply = server.handle_frame(&frames[0]).expect("server answers uploads");
        let done = connection.handle_can_frame(&reply).expect("response correlates");
        match done.outcome {
            SdoOperationOutcome::Read(Ok(response)) => {
                assert_eq!(response.data, SdoResponseData::UInt16(0x1111));
            },
            other => panic!("expected a successful read, got {:?}", other),
        }
        completed_tokens.push(done.token);
    }
    assert_eq!(completed_tokens, vec![0, 1, 2, 3, 4]);
    // Nothing is left to dispatch.
    assert!(connection.start_pending_requests(0).is_empty());
}

/// Two devices answered by two independent servers: each device's results
/// arrive in its own submission order, and both devices make progress on
/// every pass (one in-flight operation per device, not one overall).
#[test]
fn test_different_nodes_concurrent() {
    let mut connection = ConnectionState::new();
    connection.add_node(1, 1000);
    connection.add_node(2, 1000);

    let mut dict_a = ObjectDictionary::new();
    dict_a.add_static(0x1000, 0x00, 0xAAAAu16.to_le_bytes().to_vec(), SdoDataType::UInt16);
    let mut server_a = SdoServer::new(1, dict_a);
    let mut dict_b = ObjectDictionary::new();
    dict_b.add_static(0x1000, 0x00, 0xBBBBu16.to_le_bytes().to_vec(), SdoDataType::UInt16);
    let mut server_b = SdoServer::new(2, dict_b);

    // Interleave 5 reads to each device: tokens 0,2,4,6,8 on A, 1,3,5,7,9 on B.
    for k in 0..5u64 {
        assert!(connection.submit_request(1, read_op(1, 0x1000, 0x00, 2 * k, 0)));
        assert!(connection.submit_request(2, read_op(2, 0x1000, 0x00, 2 * k + 1, 0)));
    }

    let mut order_a: Vec<u64> = Vec::new();
    let mut order_b: Vec<u64> = Vec::new();
    for _pass in 0..5 {
        let frames = connection.start_pending_requests(0);
        // Both devices dispatch on the same pass: they run concurrently.
        assert_eq!(frames.len(), 2);
        for frame in &frames {
            let reply = if frame.cob_id == 0x601 {
                server_a.handle_frame(frame).expect("server A answers")
            } else {
                assert_eq!(frame.cob_id, 0x602);
                server_b.handle_frame(frame).expect("server B answers")
            };
            let done = connection.handle_can_frame(&reply).expect("response correlates");
            match done.outcome {
                SdoOperationOutcome::Read(Ok(response)) => {
                    if done.token % 2 == 0 {
                        assert_eq!(response.data, SdoResponseData::UInt16(0xAAAA));
                        order_a.push(done.token);
                    } else {
                        assert_eq!(response.data, SdoResponseData::UInt16(0xBBBB));
                        order_b.push(done.token);
                    }
                },
                other => panic!("expected a successful read, got {:?}", other),
            }
        }
    }
    assert_eq!(order_a, vec![0, 2, 4, 6, 8]);
    assert_eq!(order_b, vec![1, 3, 5, 7, 9]);
}

/// With a 50 ms timeout and no responder, two queued reads fail one after
/// the other: the first times out, which dispatches the second, which times
/// out a full timeout later - serialized, not parallel.
#[test]
fn timeout_frees_slot_and_next_operation_dispatches() {
    let mut connection = ConnectionState::new();
    connection.add_node(9, 50);
    assert!(connection.submit_request(9, read_op(9, 0x1000, 0x00, 1, 0)));
    assert!(connection.submit_request(9, read_op(9, 0x1000, 0x00, 2, 0)));

    // First dispatch at t = 0.
    let frames = connection.start_pending_requests(0);
    assert_eq!(frames.len(), 1);

    // At t = 50 the first operation is exactly at its deadline: not overdue.
    assert!(connection.check_timeouts(50).is_empty());
    assert!(connection.start_pending_requests(50).is_empty());

    // At t = 51 it times out, and the next queued operation dispatches.
    let timed_out = connection.check_timeouts(51);
    assert_eq!(timed_out.len(), 1);
    assert_eq!(timed_out[0].token, 1);
    assert!(matches!(
        timed_out[0].outcome,
        SdoOperationOutcome::Read(Err(SdoError::Timeout))
    ));
    let frames = connection.start_pending_requests(51);
    assert_eq!(frames.len(), 1);

    // The second operation's clock started at its dispatch: it survives to
    // t = 101 and fails at t = 102 - about two timeouts in all, serialized.
    assert!(connection.check_timeouts(101).is_empty());
    let timed_out = connection.check_timeouts(102);
    assert_eq!(timed_out.len(), 1);
    assert_eq!(timed_out[0].token, 2);
    assert!(matches!(
        timed_out[0].outcome,
        SdoOperationOutcome::Read(Err(SdoError::Timeout))
    ));
    assert!(connection.start_pending_requests(102).is_empty());
}

#[test]
fn unregistered_device_rejects_operations_immediately() {
    let mut connection = ConnectionState::new();
    connection.add_node(1, 1000);
    assert!(!connection.submit_request(2, read_op(2, 0x1000, 0x00, 1, 0)));
    connection.remove_node(1);
    assert!(!connection.submit_request(1, read_op(1, 0x1000, 0x00, 2, 0)));
}

#[test]
fn registration_replaces_queue_state() {
    let mut connection = ConnectionState::new();
    connection.add_node(1, 1000);
    assert!(connection.submit_request(1, read_op(1, 0x1000, 0x00, 1, 0)));
    // Re-registering resets the session: nothing left to dispatch.
    connection.add_node(1, 1000);
    assert!(connection.start_pending_requests(0).is_empty());
}

#[test]
fn frames_outside_the_sdo_response_range_are_ignored() {
    let mut connection = ConnectionState::new();
    connection.add_node(1, 1000);
    assert!(connection.submit_request(1, read_op(1, 0x1000, 0x00, 1, 0)));
    let _ = connection.start_pending_requests(0);
    // A TPDO broadcast (0x181) is not an SDO response and correlates to
    // nothing; same for a response for an unregistered device.
    let tpdo = canopen::frame::RawCanFrame { cob_id: 0x181, data: vec![0; 8] };
    assert!(connection.handle_can_frame(&tpdo).is_none());
    let other = canopen::frame::RawCanFrame { cob_id: 0x582, data: vec![0; 8] };
    assert!(connection.handle_can_frame(&other).is_none());
}

#[test]
fn node_state_queue_is_fifo() {
    let mut ns = NodeState::new(100);
    ns.queue_request(read_op(1, 0x1000, 0, 7, 0));
    ns.queue_request(read_op(1, 0x1000, 1, 8, 0));
    let started = ns.start_next_request(5).expect("dispatches the front");
    assert_eq!(started.token, 7);
    assert_eq!(started.submitted_ms, 5);
    let completed = ns.complete_active_request().expect("active completes");
    assert_eq!(completed.token, 7);
    let started = ns.start_next_request(6).expect("next dispatches");
    assert_eq!(started.token, 8);
}

#[test]
fn connection_error_text_rendering() {
    assert_eq!(
        CANopenError::SocketError("down".to_string()).describe(),
        "Socket error: down"
    );
    assert_eq!(CANopenError::NodeNotConnected(9).describe(), "Node 9 not connected");
    assert_eq!(
        CANopenError::RequestFailed("busy".to_string()).describe(),
        "Request failed: busy"
    );
    let from_sdo: CANopenError = SdoError::Timeout.into();
    assert_eq!(from_sdo.describe(), "Request failed: SDO request timeout");
}
