use lyrion::protocol::codec::SlimprotoCodec;
use lyrion::protocol::connection::{ConnectionAction, ConnectionState};
use lyrion::protocol::discovery::{parse_discovery_request, DiscoveryError, DiscoveryRequest, DiscoveryResponse, TlvEntry};
use lyrion::protocol::messages::{
    AudioGainCommand, DisconnectReason, HeloMessage, Opcode, SlimprotoMessage, StatEvent, StreamCommand,
};
use lyrion::protocol::DeviceId;

#[test]
fn test_decode_insufficient_data() {
    let mut codec = SlimprotoCodec;
    let mut buf = b"HEL".to_vec();

    let result = codec.decode(&mut buf);
    assert!(result.is_none());
}

#[test]
fn test_decode_header_only() {
    let mut codec = SlimprotoCodec;
    let mut buf: Vec<u8> = Vec::new();

    buf.extend_from_slice(b"HELO");
    buf.extend_from_slice(&20u32.to_be_bytes());

    let result = codec.decode(&mut buf);
    assert!(result.is_none());
}

#[test]
fn test_parse_legacy_discovery() {
    let mut data = vec![b'd', 0x00, 0x0c, 0x00];
    data.extend_from_slice(&[0; 8]);
    data.extend_from_slice(&[0xc4, 0x62, 0x37, 0x01, 0x98, 0x40]);

    let result = parse_discovery_request(&data).unwrap();

    match result {
        DiscoveryRequest::Legacy { device_id, revision, mac } => {
            assert_eq!(device_id, 12);
            assert_eq!(revision, 0);
            assert_eq!(mac, [0xc4, 0x62, 0x37, 0x01, 0x98, 0x40]);
        }
        _ => panic!("Expected Legacy request"),
    }
}

#[test]
fn test_parse_tlv_discovery() {
    let mut data = vec![b'e'];
    data.extend_from_slice(b"NAME");
    data.push(0);
    data.extend_from_slice(b"UUID");
    data.push(0);

    let result = parse_discovery_request(&data).unwrap();

    match result {
        DiscoveryRequest::Tlv { tlvs } => {
            assert_eq!(tlvs.len(), 2);
            assert_eq!(&tlvs[0].tag, b"NAME");
            assert_eq!(&tlvs[1].tag, b"UUID");
        }
        _ => panic!("Expected TLV request"),
    }
}

#[test]
fn test_build_legacy_response() {
    let builder = DiscoveryResponse::new(
        "TestServer".to_string(),
        "test-uuid".to_string(),
        "0.1.0".to_string(),
        9000,
        "0.0.0.0".to_string(),
    );

    let response = builder.build_legacy();

    assert_eq!(response[0], b'D');
    assert_eq!(response.len(), 18);
    assert!(response[1..11].starts_with(b"TestServer"));
}

#[test]
fn test_build_tlv_response() {
    let builder = DiscoveryResponse::new(
        "TestServer".to_string(),
        "test-uuid-123".to_string(),
        "0.1.0".to_string(),
        9000,
        "192.168.1.100".to_string(),
    );

    let request_tlvs = vec![
        TlvEntry::new(b"NAME", vec![]),
        TlvEntry::new(b"UUID", vec![]),
        TlvEntry::new(b"JSON", vec![]),
    ];

    let response = builder.build_tlv(&request_tlvs);

    assert_eq!(response[0], b'E');
    assert!(response.len() > 1);

    let response_str = String::from_utf8_lossy(&response);
    assert!(response_str.contains("NAME"));
    assert!(response_str.contains("UUID"));
    assert!(response_str.contains("JSON"));
}

#[test]
fn test_stream_command_pause_for() {
    let cmd = StreamCommand::PauseFor { interval_ms: 50 };
    let encoded = cmd.encode();

    assert_eq!(u16::from_be_bytes([encoded[0], encoded[1]]), 12);
    assert_eq!(&encoded[2..6], b"strm");
    assert_eq!(encoded[6], b'p');
    assert_eq!(u32::from_be_bytes([encoded[8], encoded[9], encoded[10], encoded[11]]), 50);
}

#[test]
fn test_stream_command_skip_ahead() {
    let cmd = StreamCommand::SkipAhead { interval_ms: 100 };
    let encoded = cmd.encode();

    assert_eq!(&encoded[0..4], b"strm");
    assert_eq!(encoded[8], b'a');
    assert_eq!(u32::from_be_bytes([encoded[10], encoded[11], encoded[12], encoded[13]]), 100);
}

#[test]
fn test_stream_command_start() {
    let request = "GET /stream/123 HTTP/1.1\r\n\r\n".to_string();
    let cmd = StreamCommand::Start {
        autostart: 1,
        format: b'm',
        pcm_sample_size: b'?',
        pcm_sample_rate: b'?',
        pcm_channels: b'?',
        pcm_endian: b'?',
        buffer_threshold: 30,
        spdif_enable: 0,
        transition_duration: 0,
        transition_type: 0,
        flags: 0,
        output_threshold: 1,
        reserved: 0,
        replay_gain: 0,
        server_port: 9000,
        server_ip: 0,
        request_string: request.clone(),
    };

    let encoded = cmd.encode();

    assert_eq!(&encoded[0..4], b"strm");
    let expected_len = 24 + request.len();
    assert_eq!(u32::from_be_bytes([encoded[4], encoded[5], encoded[6], encoded[7]]), expected_len as u32);
    assert_eq!(encoded[8], b's');
    assert_eq!(encoded[9], 1);
    assert_eq!(encoded[10], b'm');
    assert_eq!(encoded[15], 30);
    assert_eq!(encoded[20], 1);
    assert_eq!(u32::from_be_bytes([encoded[22], encoded[23], encoded[24], encoded[25]]), 0);
    assert_eq!(u16::from_be_bytes([encoded[26], encoded[27]]), 9000);
    assert_eq!(u32::from_be_bytes([encoded[28], encoded[29], encoded[30], encoded[31]]), 0);
    assert_eq!(&encoded[32..], request.as_bytes());
    assert_eq!(encoded.len(), 8 + 24 + request.len());
}

fn helo_payload() -> Vec<u8> {
    let mut p = vec![12u8, 3];
    p.extend_from_slice(&[0x00, 0x04, 0x20, 0xaa, 0xbb, 0xcc]);
    p.extend_from_slice(&[0x40, 0x01]);
    p.extend_from_slice(&[0, 0, 0, 1, 0, 0, 0, 2]);
    p.extend_from_slice(b"en");
    p
}

fn frame(op: &[u8; 4], payload: &[u8]) -> Vec<u8> {
    let mut f = op.to_vec();
    f.extend_from_slice(&(payload.len() as u32).to_be_bytes());
    f.extend_from_slice(payload);
    f
}

#[test]
fn decode_takes_one_frame_and_keeps_the_rest() {
    let mut codec = SlimprotoCodec;
    let mut buf = frame(b"HELO", &helo_payload());
    buf.extend_from_slice(b"BYE!");
    match codec.decode(&mut buf) {
        Some(SlimprotoMessage::Helo(h)) => {
            assert_eq!(h.device_id, 12);
            assert_eq!(h.revision, 3);
            assert_eq!(h.mac_string(), "00:04:20:aa:bb:cc");
            assert_eq!(h.uuid, None);
            assert_eq!(h.wlan_channellist, 1);
            assert_eq!(h.bytes_received, (1u64 << 32) | 2);
            assert_eq!(h.language, "en");
        }
        other => panic!("unexpected {:?}", other),
    }
    assert_eq!(buf, b"BYE!".to_vec());
}

#[test]
fn decode_keeps_unknown_frames_raw() {
    let mut codec = SlimprotoCodec;
    let mut buf = frame(b"ZZZZ", &[1, 2, 3]);
    match codec.decode(&mut buf) {
        Some(SlimprotoMessage::Unknown { opcode, data }) => {
            assert_eq!(&opcode, b"ZZZZ");
            assert_eq!(data, vec![1, 2, 3]);
        }
        other => panic!("unexpected {:?}", other),
    }
    assert!(buf.is_empty());
    let mut buf = frame(b"DSCO", &[1]);
    assert!(matches!(
        codec.decode(&mut buf),
        Some(SlimprotoMessage::Dsco(DisconnectReason::UnreachableConnection))
    ));
}

#[test]
fn discovery_errors() {
    assert_eq!(parse_discovery_request(&[]).unwrap_err(), DiscoveryError::Empty);
    assert_eq!(parse_discovery_request(&[b'x']).unwrap_err(), DiscoveryError::UnknownType(b'x'));
    assert_eq!(parse_discovery_request(&[b'd', 0, 1]).unwrap_err(), DiscoveryError::LegacyTooShort(3));
    assert_eq!(DiscoveryError::Empty.message(), "Empty discovery packet");
}

#[test]
fn legacy_reply_cuts_long_names() {
    let r = DiscoveryResponse::new(
        "AVeryLongServerNameIndeed".to_string(),
        "u".to_string(),
        "v".to_string(),
        9000,
        "0.0.0.0".to_string(),
    );
    let out = r.build_legacy();
    assert_eq!(out.len(), 18);
    assert_eq!(&out[1..17], b"AVeryLongServerN");
    assert_eq!(out[17], 0);
}

#[test]
fn tlv_reply_values() {
    let r = DiscoveryResponse::new("S".to_string(), "U".to_string(), "1.0".to_string(), 9000, "1.2.3.4".to_string());
    let out = r.build_tlv(&[TlvEntry::new(b"JSON", vec![]), TlvEntry::new(b"XXXX", vec![]), TlvEntry::new(b"IPAD", vec![])]);
    let mut expected = vec![b'E'];
    expected.extend_from_slice(b"JSON");
    expected.push(4);
    expected.extend_from_slice(b"9000");
    expected.extend_from_slice(b"IPAD");
    expected.push(7);
    expected.extend_from_slice(b"1.2.3.4");
    assert_eq!(out, expected);
    let mut req = vec![b'e'];
    req.extend_from_slice(b"VERS");
    req.push(0);
    let mut reply = vec![b'E'];
    reply.extend_from_slice(b"VERS");
    reply.push(3);
    reply.extend_from_slice(b"1.0");
    assert_eq!(r.reply_to(&req).unwrap(), reply);
}

#[test]
fn opcodes_round_trip() {
    for op in [Opcode::Helo, Opcode::Stat, Opcode::Ir, Opcode::Butn, Opcode::Bye, Opcode::Dsco] {
        assert_eq!(Opcode::from_bytes(&op.as_bytes()), Some(op));
    }
    assert_eq!(Opcode::from_bytes(b"????"), None);
}

#[test]
fn gain_from_volume() {
    let g = AudioGainCommand::from_volume(50, 0);
    assert_eq!(g.new_gain_left, 32768);
    assert_eq!(g.old_gain_left, 0);
    let f = g.encode();
    assert_eq!(f.len(), 24);
    assert_eq!(&f[2..6], b"audg");
    assert_eq!(u16::from_be_bytes([f[0], f[1]]), 22);
}

#[test]
fn device_names() {
    assert_eq!(DeviceId::from_u8(12).map(|d| d.name()), Some("squeezeplay"));
    assert_eq!(DeviceId::from_u8(200), None);
    assert_eq!(StatEvent::from_u32(4), Some(StatEvent::TrackStart));
    assert_eq!(StatEvent::from_u32(77), Some(StatEvent::Unknown));
}

#[test]
fn connection_registers_on_helo() {
    let mut conn = ConnectionState::new();
    let mut codec = SlimprotoCodec;
    let mut buf = frame(b"BUTN", &[0, 0, 0, 1, 0, 0, 0, 2]);
    let butn = codec.decode(&mut buf).unwrap();
    assert!(matches!(conn.handle_message(&butn), ConnectionAction::Ignore));
    let mut buf = frame(b"HELO", &helo_payload());
    let helo = codec.decode(&mut buf).unwrap();
    match conn.handle_message(&helo) {
        ConnectionAction::Register(p) => assert_eq!(p.mac_text, "00:04:20:aa:bb:cc"),
        other => panic!("unexpected {:?}", other),
    }
    match conn.handle_message(&butn) {
        ConnectionAction::Forward(m) => assert_eq!(m, "00:04:20:aa:bb:cc"),
        other => panic!("unexpected {:?}", other),
    }
    match conn.handle_message(&SlimprotoMessage::Bye) {
        ConnectionAction::Close(Some(m)) => assert_eq!(m, "00:04:20:aa:bb:cc"),
        other => panic!("unexpected {:?}", other),
    }
    let _ = HeloMessage::parse(&helo_payload()).unwrap();
}

#[test]
fn helo_with_uuid() {
    let mut p = vec![12u8, 3];
    p.extend_from_slice(&[0x00, 0x04, 0x20, 0xaa, 0xbb, 0xcc]);
    p.extend_from_slice(&[0xde, 0xad, 0xbe, 0xef, 0, 1, 2, 3, 4, 5, 6, 7, 8, 9, 10, 11]);
    p.extend_from_slice(&[0xff, 0xff]);
    p.extend_from_slice(&[0, 0, 0, 0, 0, 0, 0, 9]);
    p.extend_from_slice(b"de");
    assert_eq!(p.len(), 36);
    let h = HeloMessage::parse(&p).unwrap();
    assert_eq!(h.uuid.as_deref(), Some("deadbeef000102030405060708090a0b"));
    assert_eq!(h.wlan_channellist, 0x3fff);
    assert_eq!(h.bytes_received, 9);
    assert_eq!(h.language, "de");
    assert_eq!(HeloMessage::parse(&p[..10]).unwrap_err(), "HELO message too short");
}

#[test]
fn tlv_tag_as_text() {
    assert_eq!(TlvEntry::new(b"NAME", vec![]).tag_str(), "NAME");
    assert_eq!(TlvEntry::new(&[b'A', 0xff, b'B', b'C'], vec![1]).tag_str(), "A\u{fffd}BC");
}
