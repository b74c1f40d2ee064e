use tenon::ipc::{encode_batch_body, encode_batch_frame, IpcMessage};
use tenon::codec::{decode_frame, encode_frame, CodecError, MAX_FRAME_LEN};
use tenon::transport::{
    frame_header, received_length, validate_length, InProcTransportConfig, InProcTransportProvider,
    ResponderState, Transport, TransportConfig, TransportError, UdsTransportConfig,
    UdsTransportProvider, DEFAULT_MAX_FRAME_SIZE,
};

#[test]
fn frame_round_trips() {
    let frame = encode_frame(b"hello").unwrap();
    assert_eq!(frame, vec![5, 0, 0, 0, b'h', b'e', b'l', b'l', b'o']);
    assert_eq!(decode_frame(&frame).unwrap(), b"hello".to_vec());
    let mut longer = frame.clone();
    longer.extend_from_slice(b"tail");
    assert_eq!(decode_frame(&longer).unwrap(), b"hello".to_vec());
}

#[test]
fn frame_errors() {
    assert_eq!(decode_frame(&[1, 0, 0]), Err(CodecError::IncompleteFrame));
    assert_eq!(decode_frame(&[3, 0, 0, 0, 1]), Err(CodecError::IncompleteFrame));
    assert_eq!(
        decode_frame(&[0, 0, 0, 5, 0]),
        Err(CodecError::FrameTooLarge { len: 83886080, max: MAX_FRAME_LEN })
    );
    assert_eq!(
        CodecError::FrameTooLarge { len: 9, max: 4 }.describe(),
        "frame length 9 exceeds max 4"
    );
    assert_eq!(CodecError::IncompleteFrame.describe(), "incomplete frame");
    assert_eq!(CodecError::Decode("bad".to_string()).describe(), "failed to decode frame: bad");
}

#[test]
fn transport_settings() {
    let in_proc: InProcTransportProvider =
        Transport::provide::<InProcTransportProvider>(InProcTransportConfig { channel_capacity: 8 });
    assert_eq!(in_proc.config().channel_capacity, 8);
    let uds: UdsTransportProvider = Transport::provide::<UdsTransportProvider>(UdsTransportConfig::default());
    let config = uds.config();
    assert_eq!(config.framing.max_frame_size, DEFAULT_MAX_FRAME_SIZE);
    assert_eq!(config.connect_timeout_millis, 10_000);
    assert_eq!(config.request_timeout_millis, Some(10_000));
    assert_eq!(config.request_queue_capacity, 64);
    assert_eq!(TransportConfig::default().read_timeout_millis, None);
}

#[test]
fn transport_frame_lengths() {
    assert_eq!(validate_length(5, 4), Err(TransportError::FrameTooLarge { len: 5, max: 4 }));
    assert!(validate_length(4, 4).is_ok());
    let config = TransportConfig { max_frame_size: 1000, read_timeout_millis: None, write_timeout_millis: None };
    assert_eq!(frame_header(258, &config).unwrap(), vec![2, 1, 0, 0]);
    assert_eq!(frame_header(1001, &config), Err(TransportError::FrameTooLarge { len: 1001, max: 1000 }));
    assert_eq!(received_length([2, 1, 0, 0], &config), Ok(258));
    assert_eq!(received_length([0, 0, 1, 0], &config), Err(TransportError::FrameTooLarge { len: 65536, max: 1000 }));
    assert_eq!(TransportError::ResponsePending.describe(), "previous request has not been answered");
}

#[test]
fn responder_answers_each_request_once() {
    let mut state = ResponderState::new();
    assert_eq!(state.begin_respond(), Err(TransportError::NoPendingRequest));
    assert!(state.begin_receive().is_ok());
    state.received();
    assert_eq!(state.begin_receive(), Err(TransportError::ResponsePending));
    assert!(state.begin_respond().is_ok());
    assert_eq!(state.begin_respond(), Err(TransportError::NoPendingRequest));
    state.received();
    state.disconnect();
    assert!(state.begin_receive().is_ok());
}

#[test]
fn ipc_batch_frame_reads_back_as_its_body() {
    let messages = vec![IpcMessage {
        rule_index: 1,
        packet_id: 2,
        destination: b"d".to_vec(),
        topic: b"t".to_vec(),
        payload: b"{}".to_vec(),
    }];
    let frame = encode_batch_frame(&messages);
    assert_eq!(decode_frame(&frame).unwrap(), encode_batch_body(&messages));
}
