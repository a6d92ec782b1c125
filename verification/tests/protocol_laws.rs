use onionroute_gateway::gateway::error::ProtocolError;
use onionroute_gateway::gateway::flow::FlowController;
use onionroute_gateway::gateway::framing::FrameDecoder;
use onionroute_gateway::gateway::negotiation::{
    negotiate_capabilities, verify_enabled_capabilities, FLOW_CONTROL_V1, TCP_CONNECT_V1,
};
use onionroute_gateway::gateway::varint::{decode_canonical_u32_varint, encode_u32_varint};

#[test]
fn varint_round_trip_uses_one_to_five_bytes() {
    for (value, length) in [(0u32, 1usize), (127, 1), (128, 2), (16_383, 2), (16_384, 3), (u32::MAX, 5)] {
        let mut out = Vec::new();
        encode_u32_varint(value, &mut out);
        assert_eq!(out.len(), length);
        assert_eq!(decode_canonical_u32_varint(&out), Ok(value));
    }
    let mut out = Vec::new();
    encode_u32_varint(300, &mut out);
    assert_eq!(out, vec![0xac, 0x02]);
}

#[test]
fn only_the_shortest_varint_decodes() {
    assert_eq!(decode_canonical_u32_varint(&[0x80, 0x00]), Err(ProtocolError::NonCanonicalVarint));
    assert_eq!(
        decode_canonical_u32_varint(&[0x80, 0x80, 0x80, 0x80, 0x80, 0x01]),
        Err(ProtocolError::InvalidLengthPrefix)
    );
    assert_eq!(decode_canonical_u32_varint(&[0x01, 0x01]), Err(ProtocolError::InvalidLengthPrefix));
    assert_eq!(decode_canonical_u32_varint(&[0x80, 0x80, 0x80, 0x80, 0x10]), Err(ProtocolError::InvalidLengthPrefix));
}

#[test]
fn negotiated_capabilities_pass_client_verification() {
    let requested = vec![
        "required:tcp-connect-v1".to_owned(),
        "resolve-domain-v1".to_owned(),
        "flow-control-v1".to_owned(),
    ];
    let supported = vec![TCP_CONNECT_V1.to_owned(), FLOW_CONTROL_V1.to_owned()];
    let enabled = negotiate_capabilities(&requested, &supported).unwrap();
    assert_eq!(verify_enabled_capabilities(&requested, &enabled), Ok(()));
}

#[test]
fn granting_credit_undoes_a_receive_debit() {
    let mut flow = FlowController::new(1024, 1024, 2).unwrap();
    flow.open_local(1, 512, 0).unwrap();
    flow.confirm_local_open(1, 512, 0).unwrap();
    let before = flow.stream(1).unwrap().receive_window();
    flow.debit_receive(1, 100, 0).unwrap();
    assert_eq!(flow.stream(1).unwrap().receive_window(), before - 100);
    flow.grant_receive_credit(1, 100, 0).unwrap();
    assert_eq!(flow.stream(1).unwrap().receive_window(), before);
    flow.grant_receive_credit(0, 100, 0).unwrap();
    assert_eq!(
        flow.grant_receive_credit(1, 0, 0),
        Err(ProtocolError::InvalidField("window_credit"))
    );
}

#[test]
fn local_half_close_stops_sending_only() {
    let mut flow = FlowController::new(1024, 1024, 2).unwrap();
    flow.open_local(1, 512, 0).unwrap();
    flow.confirm_local_open(1, 512, 0).unwrap();
    flow.local_half_close(1, 0).unwrap();
    assert!(flow.stream(1).unwrap().local_half_closed());
    assert_eq!(flow.local_half_close(1, 0), Err(ProtocolError::Closed));
    assert_eq!(flow.debit_send(1, 1, 0), Err(ProtocolError::Closed));
    flow.debit_receive(1, 10, 0).unwrap();
}

#[test]
fn decoder_buffer_stays_within_the_frame_maximum() {
    let mut decoder = FrameDecoder::new(16).unwrap();
    let progress = decoder.push(&[0x10, 1, 2, 3]).unwrap();
    assert_eq!(progress.consumed, 4);
    assert!(progress.frame.is_none());
    assert_eq!(decoder.buffered_bytes(), 4);
    assert!(decoder.buffered_bytes() <= 16 + 5);
    let mut decoder = FrameDecoder::new(16).unwrap();
    assert_eq!(
        decoder.push(&[0x11]).map(|p| p.consumed).unwrap_err(),
        ProtocolError::FrameTooLarge { announced: 17, maximum: 16 }
    );
    assert_eq!(decoder.buffered_bytes(), 0);
}

#[test]
fn frame_without_a_body_is_refused() {
    assert!(matches!(
        onionroute_gateway::gateway::framing::decode_frame_bytes(&[0x08, 0x01]),
        Err(ProtocolError::MissingBody)
    ));
}
