use personal_server::tcp_message::{MultiField, PrivateField, PublicField, TcpMessage};

fn text(s: &str) -> String {
    s.to_string()
}

fn multi(name: &str, value: u32) -> TcpMessage {
    TcpMessage::MultiFieldMessage(MultiField { name: text(name), value })
}

fn public(message: &str, from_id: u16) -> TcpMessage {
    TcpMessage::PublicMessage(PublicField { message: text(message), from_id })
}

fn private(receiver: u16, message: &str) -> TcpMessage {
    TcpMessage::PrivateMessage(PrivateField { receiver, message: text(message) })
}

fn debug(m: &Option<TcpMessage>) -> String {
    format!("{:?}", m)
}

#[test]
fn encode_ping() {
    assert_eq!(TcpMessage::PingMessage.encode(), vec![0x01]);
}

#[test]
fn encode_sensor_int() {
    assert_eq!(
        TcpMessage::SensorValueIntMessage(-2).encode(),
        vec![0x02, 0xff, 0xff, 0xff, 0xff, 0xff, 0xff, 0xff, 0xfe]
    );
    assert_eq!(
        TcpMessage::SensorValueIntMessage(0x0102030405060708).encode(),
        vec![0x02, 1, 2, 3, 4, 5, 6, 7, 8]
    );
}

#[test]
fn encode_sensor_float_uses_the_bit_pattern() {
    let v: f64 = 45.6;
    let mut expected = vec![0x03];
    expected.extend_from_slice(&v.to_be_bytes());
    assert_eq!(TcpMessage::SensorValueFloatMessage(v.to_bits()).encode(), expected);
}

#[test]
fn encode_multi_field_as_the_client_sends_it() {
    assert_eq!(
        multi("Connor", 12).encode(),
        vec![0x04, 0x00, 0x06, b'C', b'o', b'n', b'n', b'o', b'r', 0, 0, 0, 12]
    );
}

#[test]
fn encode_public_private_status() {
    assert_eq!(public("hi", 0x0102).encode(), vec![0x05, 0, 2, b'h', b'i', 1, 2]);
    assert_eq!(private(0x0304, "yo").encode(), vec![0x06, 3, 4, 0, 2, b'y', b'o']);
    assert_eq!(
        TcpMessage::TuiStatusMessage(text("ok")).encode(),
        vec![0x07, 0, 2, b'o', b'k']
    );
}

#[test]
fn encode_counts_utf8_bytes_not_characters() {
    // "é" is two bytes in UTF-8.
    assert_eq!(
        TcpMessage::TuiStatusMessage(text("é")).encode(),
        vec![0x07, 0, 2, 0xc3, 0xa9]
    );
}

#[test]
fn encode_cuts_long_text_lengths_to_16_bits() {
    let long = "a".repeat(65536 + 3);
    let bytes = TcpMessage::TuiStatusMessage(long.clone()).encode();
    assert_eq!(&bytes[..3], &[0x07, 0, 3]);
    assert_eq!(bytes.len(), 3 + long.len());
    // What comes back is only the first three bytes of the text.
    assert_eq!(
        debug(&TcpMessage::decode(&bytes)),
        debug(&Some(TcpMessage::TuiStatusMessage(text("aaa"))))
    );
}

#[test]
fn decode_each_kind() {
    assert_eq!(debug(&TcpMessage::decode(&[0x01])), debug(&Some(TcpMessage::PingMessage)));
    assert_eq!(
        debug(&TcpMessage::decode(&[0x02, 0, 0, 0, 0, 0, 0, 1, 0])),
        debug(&Some(TcpMessage::SensorValueIntMessage(256)))
    );
    let v: f64 = -1.5;
    let mut float_bytes = vec![0x03];
    float_bytes.extend_from_slice(&v.to_be_bytes());
    match TcpMessage::decode(&float_bytes) {
        Some(TcpMessage::SensorValueFloatMessage(bits)) => assert_eq!(f64::from_bits(bits), v),
        other => panic!("unexpected {:?}", other),
    }
    assert_eq!(
        debug(&TcpMessage::decode(&[0x04, 0, 1, b'x', 0, 0, 1, 0])),
        debug(&Some(multi("x", 256)))
    );
    assert_eq!(
        debug(&TcpMessage::decode(&[0x05, 0, 0, 0, 9])),
        debug(&Some(public("", 9)))
    );
    assert_eq!(
        debug(&TcpMessage::decode(&[0x06, 0, 7, 0, 1, b'z'])),
        debug(&Some(private(7, "z")))
    );
    assert_eq!(
        debug(&TcpMessage::decode(&[0x07, 0, 0])),
        debug(&Some(TcpMessage::TuiStatusMessage(text(""))))
    );
}

#[test]
fn decode_ignores_bytes_after_the_message() {
    let mut bytes = multi("Connor", 12).encode();
    bytes.extend_from_slice(&TcpMessage::PingMessage.encode());
    bytes.extend_from_slice(&[0xff, 0xff]);
    assert_eq!(debug(&TcpMessage::decode(&bytes)), debug(&Some(multi("Connor", 12))));
}

#[test]
fn decode_rejects_empty_and_unknown() {
    assert!(TcpMessage::decode(&[]).is_none());
    assert!(TcpMessage::decode(&[0x00]).is_none());
    assert!(TcpMessage::decode(&[0x08, 1, 2]).is_none());
    assert!(TcpMessage::decode(&[0xff]).is_none());
}

#[test]
fn decode_rejects_short_data() {
    assert!(TcpMessage::decode(&[0x02, 0, 0, 0, 0, 0, 0, 0]).is_none());
    assert!(TcpMessage::decode(&[0x03, 0, 0, 0]).is_none());
    assert!(TcpMessage::decode(&[0x04, 0]).is_none());
    assert!(TcpMessage::decode(&[0x04, 0, 2, b'a']).is_none());
    assert!(TcpMessage::decode(&[0x04, 0, 1, b'a', 0, 0, 0]).is_none());
    assert!(TcpMessage::decode(&[0x05, 0, 1, b'a', 0]).is_none());
    assert!(TcpMessage::decode(&[0x06, 0, 1, 0]).is_none());
    assert!(TcpMessage::decode(&[0x06, 0, 1, 0, 2, b'a']).is_none());
    assert!(TcpMessage::decode(&[0x07, 0, 5, b'a']).is_none());
}

#[test]
fn decode_rejects_invalid_utf8() {
    assert!(TcpMessage::decode(&[0x07, 0, 1, 0xff]).is_none());
    assert!(TcpMessage::decode(&[0x04, 0, 1, 0x80, 0, 0, 0, 1]).is_none());
    assert!(TcpMessage::decode(&[0x05, 0, 2, 0xc3, 0x28, 0, 1]).is_none());
    assert!(TcpMessage::decode(&[0x06, 0, 1, 0, 1, 0xc0]).is_none());
}

#[test]
fn decode_of_encode_gives_the_message_back() {
    let messages = vec![
        TcpMessage::PingMessage,
        TcpMessage::SensorValueIntMessage(i64::MIN),
        TcpMessage::SensorValueIntMessage(i64::MAX),
        TcpMessage::SensorValueFloatMessage(f64::NAN.to_bits()),
        multi("Grüße 👋", u32::MAX),
        public("This is a public message", 65535),
        private(0, "secret"),
        TcpMessage::TuiStatusMessage(text("Client closed connection.")),
        TcpMessage::TuiStatusMessage("z".repeat(65535)),
    ];
    for m in messages {
        let bytes = m.encode();
        assert_eq!(debug(&TcpMessage::decode(&bytes)), debug(&Some(m.clone())));
        // And the encoding of what was read is the bytes it was read from.
        assert_eq!(TcpMessage::decode(&bytes).unwrap().encode(), bytes);
    }
}

#[test]
fn to_string_of_each_kind() {
    assert_eq!(TcpMessage::PingMessage.to_string(), "Ping");
    assert_eq!(
        TcpMessage::SensorValueIntMessage(3).to_string(),
        "SensorValueInt coming soon..."
    );
    assert_eq!(
        TcpMessage::SensorValueFloatMessage(0).to_string(),
        "SensorValueFloat coming soon..."
    );
    // The value is shown after "Name:" and the name after "Value:".
    assert_eq!(multi("Connor", 12).to_string(), "Name: 12, Value: Connor");
    assert_eq!(public("hello", 0).to_string(), "Message: hello from: 0");
    assert_eq!(public("x", 65535).to_string(), "Message: x from: 65535");
    assert_eq!(private(1, "x").to_string(), "PrivateMessage coming soon...");
    assert_eq!(TcpMessage::TuiStatusMessage(text("status")).to_string(), "status");
}

#[test]
fn to_string_prints_decimal_like_format() {
    for v in [0u32, 9, 10, 99, 100, 4294967295, 1234567890] {
        assert_eq!(multi("n", v).to_string(), format!("Name: {}, Value: n", v));
    }
}

#[test]
fn different_messages_have_different_encodings() {
    let messages = vec![
        TcpMessage::PingMessage,
        TcpMessage::SensorValueIntMessage(1),
        TcpMessage::SensorValueFloatMessage(1),
        multi("a", 1),
        multi("b", 1),
        multi("a", 2),
        public("a", 1),
        private(1, "a"),
        TcpMessage::TuiStatusMessage(text("a")),
    ];
    for (i, a) in messages.iter().enumerate() {
        for (j, b) in messages.iter().enumerate() {
            if i != j {
                assert_ne!(a.encode(), b.encode(), "{:?} and {:?}", a, b);
            }
        }
    }
}
