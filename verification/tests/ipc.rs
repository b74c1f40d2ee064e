use tenon::ipc::{
    encode_batch_frame, encode_message_item, ipc_admission, ipc_message, ipc_sink_settings,
    IpcAdmission, IpcBatch, IpcMessage, FRAME_TYPE_BATCH, PROTOCOL_VERSION,
};

fn sample() -> IpcMessage {
    IpcMessage {
        rule_index: 7,
        packet_id: 42,
        destination: b"custom".to_vec(),
        topic: b"data".to_vec(),
        payload: br#"{"temp":30}"#.to_vec(),
    }
}

#[test]
fn encodes_batch_frame_little_endian() {
    let message = sample();
    let mut body = Vec::new();
    body.push(PROTOCOL_VERSION);
    body.push(FRAME_TYPE_BATCH);
    body.push(0);
    body.push(0);
    body.extend_from_slice(&1u16.to_le_bytes());
    body.extend_from_slice(&0u16.to_le_bytes());
    encode_message_item(&mut body, &message);

    assert_eq!(body[0], 1);
    assert_eq!(body[1], 2);
    assert_eq!(u16::from_le_bytes([body[4], body[5]]), 1);

    let item = &body[8..];
    assert_eq!(u32::from_le_bytes(item[0..4].try_into().unwrap()), message.encoded_len() as u32);
    assert_eq!(u32::from_le_bytes(item[4..8].try_into().unwrap()), 7);
    assert_eq!(u16::from_le_bytes(item[8..10].try_into().unwrap()), 42);
    assert_eq!(item[10], 6);
    assert_eq!(item[11], 4);
    assert_eq!(item[12], 0);
    assert_eq!(item[13], 0);
    assert_eq!(u32::from_le_bytes(item[14..18].try_into().unwrap()), 11);
    assert_eq!(&item[18..24], b"custom");
    assert_eq!(&item[24..28], b"data");
    assert_eq!(&item[28..], br#"{"temp":30}"#);
}

#[test]
fn encoded_len_counts_header_and_bytes() {
    assert_eq!(sample().encoded_len(), 18 + 6 + 4 + 11);
}

#[test]
fn batch_frame_is_length_prefixed() {
    let frame = encode_batch_frame(&[sample(), sample()]);
    let body_len = u32::from_le_bytes(frame[0..4].try_into().unwrap()) as usize;
    assert_eq!(body_len, frame.len() - 4);
    assert_eq!(body_len, 8 + 2 * 39);
    assert_eq!(&frame[4..8], &[1, 2, 0, 0]);
    assert_eq!(u16::from_le_bytes([frame[8], frame[9]]), 2);
    assert_eq!(&frame[10..12], &[0, 0]);
}

#[test]
fn admission_checks_connection_then_lengths() {
    let long = "x".repeat(256);
    assert_eq!(ipc_admission(false, "d", "t"), IpcAdmission::Disconnected);
    assert_eq!(ipc_admission(true, &long, "t"), IpcAdmission::DestinationTooLong);
    assert_eq!(ipc_admission(true, "d", &long), IpcAdmission::TopicTooLong);
    assert_eq!(ipc_admission(true, &"y".repeat(255), "t"), IpcAdmission::Accepted);
}

#[test]
fn queued_message_carries_utf8_bytes() {
    let m = ipc_message("dé", 3, "a/b", 9, vec![1, 2]);
    assert_eq!(m.destination, "dé".as_bytes().to_vec());
    assert_eq!(m.topic, b"a/b".to_vec());
    assert_eq!(m.rule_index, 3);
    assert_eq!(m.packet_id, 9);
    assert_eq!(m.payload, vec![1, 2]);
}

#[test]
fn settings_raise_limits_to_their_floor() {
    let s = ipc_sink_settings("/tmp/x.sock".to_string(), 0, 0, 3, 0).unwrap();
    assert_eq!(s.queue_capacity, 1);
    assert_eq!(s.batch_max_messages, 1);
    assert_eq!(s.batch_max_bytes, 18);
    assert_eq!(s.flush_interval_millis, 1);
    let s = ipc_sink_settings("p".to_string(), 5, 6, 700, 8).unwrap();
    assert_eq!((s.queue_capacity, s.batch_max_messages, s.batch_max_bytes, s.flush_interval_millis), (5, 6, 700, 8));
    assert_eq!(
        ipc_sink_settings("  ".to_string(), 1, 1, 1, 1).unwrap_err(),
        "IPC sink path must not be empty"
    );
}

#[test]
fn batch_stops_taking_messages_at_its_limits() {
    let settings = ipc_sink_settings("p".to_string(), 10, 2, 1000, 5).unwrap();
    let mut batch = IpcBatch::new();
    assert!(batch.is_empty());
    assert!(batch.wants_more(&settings));
    batch.push(sample());
    assert!(batch.wants_more(&settings));
    batch.push(sample());
    assert!(!batch.wants_more(&settings));
    assert_eq!(batch.len(), 2);
    assert_eq!(batch.frame(), encode_batch_frame(&[sample(), sample()]));
    assert_eq!(batch.clear(), 2);
    assert!(batch.is_empty());

    let small = ipc_sink_settings("p".to_string(), 10, 100, 40, 5).unwrap();
    batch.push(sample());
    assert!(batch.wants_more(&small));
    batch.push(sample());
    assert!(!batch.wants_more(&small));
}

#[test]
fn only_one_consumer_is_served_at_a_time() {
    assert!(tenon::ipc::admit_consumer(false));
    assert!(!tenon::ipc::admit_consumer(true));
}
