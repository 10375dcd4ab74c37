//! The messages exchanged over TCP and their byte encoding.
//!
//! Every message starts with a one-byte command. Integers are big-endian;
//! texts are written as a 16-bit byte count followed by their UTF-8 bytes.
//!
//! | command | layout after the command byte                  |
//! |---------|------------------------------------------------|
//! | `0x01`  | ping, nothing follows                          |
//! | `0x02`  | signed 64-bit sensor value                     |
//! | `0x03`  | 64-bit IEEE 754 pattern of a sensor value      |
//! | `0x04`  | name (text), value (u32)                       |
//! | `0x05`  | message (text), sender id (u16)                |
//! | `0x06`  | receiver id (u16), message (text)              |
//! | `0x07`  | status line (text)                             |

use crate::bytes::{
    be16, be32, be64, from_be16, from_be32, from_be64, lemma_be16_roundtrip, lemma_be32_roundtrip,
    lemma_be64_roundtrip, lemma_i64_u64_roundtrip, be_value, law_be16_value, law_be32_value,
    law_be64_value, law_be_value_2, law_from_be16_value, law_from_be32_value, law_from_be64_value, law_i64_as_u64,
    push_be16, push_be32, push_be64, push_bytes,
    read_be16, read_be32, read_be64,
};
use vstd::prelude::*;
use vstd::utf8::*;
use crate::text::{decimal, digits_value, law_decimal_value, push_decimal};

verus! {

/// A named value.
#[derive(Debug, Clone)]
pub struct MultiField {
    pub name: String,
    pub value: u32,
}

/// A message meant for every connected client.
#[derive(Debug, Clone)]
pub struct PublicField {
    pub message: String,
    pub from_id: u16,
}

/// A message meant for one client.
#[derive(Debug, Clone)]
pub struct PrivateField {
    pub receiver: u16,
    pub message: String,
}

/// A message of the wire protocol.
#[derive(Debug, Clone)]
pub enum TcpMessage {
    PingMessage,
    SensorValueIntMessage(i64),
    /// A floating-point sensor value, held as its IEEE 754 bit pattern
    /// (`f64::to_bits`), which is exactly what goes on the wire.
    SensorValueFloatMessage(u64),
    MultiFieldMessage(MultiField),
    PublicMessage(PublicField),
    PrivateMessage(PrivateField),
    TuiStatusMessage(String),
}

/// The type of the byte count that precedes a text on the wire.
pub type TcpLength = u16;

/// What a message holds, with its texts as sequences of characters.
pub enum MessageModel {
    Ping,
    SensorInt(i64),
    SensorFloat(u64),
    MultiField { name: Seq<char>, value: u32 },
    Public { message: Seq<char>, from_id: u16 },
    Private { receiver: u16, message: Seq<char> },
    TuiStatus(Seq<char>),
}

impl View for TcpMessage {
    type V = MessageModel;

    open spec fn view(&self) -> MessageModel {
        match self {
            TcpMessage::PingMessage => MessageModel::Ping,
            TcpMessage::SensorValueIntMessage(n) => MessageModel::SensorInt(*n),
            TcpMessage::SensorValueFloatMessage(bits) => MessageModel::SensorFloat(*bits),
            TcpMessage::MultiFieldMessage(m) => MessageModel::MultiField {
                name: m.name@,
                value: m.value,
            },
            TcpMessage::PublicMessage(p) => MessageModel::Public {
                message: p.message@,
                from_id: p.from_id,
            },
            TcpMessage::PrivateMessage(p) => MessageModel::Private {
                receiver: p.receiver,
                message: p.message@,
            },
            TcpMessage::TuiStatusMessage(s) => MessageModel::TuiStatus(s@),
        }
    }
}

/// A text on the wire: its UTF-8 byte count, cut to 16 bits, then its bytes.
pub open spec fn text_bytes(s: Seq<char>) -> Seq<u8> {
    be16((encode_utf8(s).len() % 0x1_0000) as u16) + encode_utf8(s)
}

/// The bytes that `encode` produces for a message.
pub open spec fn encoding(m: MessageModel) -> Seq<u8> {
    match m {
        MessageModel::Ping => seq![0x01u8],
        MessageModel::SensorInt(n) => seq![0x02u8] + be64(n as u64),
        MessageModel::SensorFloat(bits) => seq![0x03u8] + be64(bits),
        MessageModel::MultiField { name, value } => seq![0x04u8] + text_bytes(name) + be32(value),
        MessageModel::Public { message, from_id } => seq![0x05u8] + text_bytes(message) + be16(
            from_id,
        ),
        MessageModel::Private { receiver, message } => seq![0x06u8] + be16(receiver) + text_bytes(
            message,
        ),
        MessageModel::TuiStatus(s) => seq![0x07u8] + text_bytes(s),
    }
}

/// The text whose byte count stands at `data[at..at + 2]`, and the index just
/// past it; `None` where the data ends early or the bytes are not UTF-8.
pub open spec fn text_at(data: Seq<u8>, at: int) -> Option<(Seq<char>, int)> {
    if 0 <= at && at + 2 <= data.len() {
        let end = at + 2 + from_be16(data.subrange(at, at + 2));
        if end <= data.len() && valid_utf8(data.subrange(at + 2, end)) {
            Some((decode_utf8(data.subrange(at + 2, end)), end))
        } else {
            None
        }
    } else {
        None
    }
}

/// The message that `decode` reads from the start of `data`, if any.
/// Bytes after the message are ignored.
pub open spec fn decoding(data: Seq<u8>) -> Option<MessageModel> {
    if data.len() == 0 {
        None
    } else if data[0] == 0x01 {
        Some(MessageModel::Ping)
    } else if data[0] == 0x02 {
        if data.len() >= 9 {
            Some(MessageModel::SensorInt(from_be64(data.subrange(1, 9)) as i64))
        } else {
            None
        }
    } else if data[0] == 0x03 {
        if data.len() >= 9 {
            Some(MessageModel::SensorFloat(from_be64(data.subrange(1, 9))))
        } else {
            None
        }
    } else if data[0] == 0x04 {
        match text_at(data, 1) {
            Some((name, end)) => if end + 4 <= data.len() {
                Some(
                    MessageModel::MultiField {
                        name,
                        value: from_be32(data.subrange(end, end + 4)),
                    },
                )
            } else {
                None
            },
            None => None,
        }
    } else if data[0] == 0x05 {
        match text_at(data, 1) {
            Some((message, end)) => if end + 2 <= data.len() {
                Some(
                    MessageModel::Public {
                        message,
                        from_id: from_be16(data.subrange(end, end + 2)),
                    },
                )
            } else {
                None
            },
            None => None,
        }
    } else if data[0] == 0x06 {
        match text_at(data, 3) {
            Some((message, _end)) => Some(
                MessageModel::Private { receiver: from_be16(data.subrange(1, 3)), message },
            ),
            None => None,
        }
    } else if data[0] == 0x07 {
        match text_at(data, 1) {
            Some((s, _end)) => Some(MessageModel::TuiStatus(s)),
            None => None,
        }
    } else {
        None
    }
}

/// The line that `to_string` shows for a message. A named value shows its
/// value after "Name: " and its name after "Value: ".
pub open spec fn display_text(m: MessageModel) -> Seq<char> {
    match m {
        MessageModel::Ping => "Ping"@,
        MessageModel::SensorInt(_) => "SensorValueInt coming soon..."@,
        MessageModel::SensorFloat(_) => "SensorValueFloat coming soon..."@,
        MessageModel::MultiField { name, value } => "Name: "@ + decimal(value as nat)
            + ", Value: "@ + name,
        MessageModel::Public { message, from_id } => "Message: "@ + message + " from: "@
            + decimal(from_id as nat),
        MessageModel::Private { .. } => "PrivateMessage coming soon..."@,
        MessageModel::TuiStatus(s) => s,
    }
}

/// `String::from_utf8`, with the error dropped.
///
/// Trusted: std documents that `String::from_utf8` succeeds exactly when the
/// bytes are valid UTF-8, and that the string then holds the characters they
/// encode. Stated here over vstd's `valid_utf8` and `decode_utf8`.
#[verifier::external_body]
fn string_from_utf8(bytes: Vec<u8>) -> (r: Option<String>)
    ensures
        r is Some <==> valid_utf8(bytes@),
        r matches Some(s) ==> s@ == decode_utf8(bytes@),
{
    String::from_utf8(bytes).ok()
}

/// Appends a text field: its UTF-8 byte count cut to 16 bits, then its bytes.
fn push_text(out: &mut Vec<u8>, s: &String)
    ensures
        final(out)@ == old(out)@ + text_bytes(s@),
{
    let bytes = s.as_str().as_bytes();
    let n: usize = bytes.len();
    assert((n as u16) == ((n % 0x1_0000) as u16)) by (bit_vector);
    push_be16(out, bytes.len() as TcpLength);
    push_bytes(out, bytes);
    assert(final(out)@ =~= old(out)@ + text_bytes(s@));
}

/// Reads the text field whose byte count stands at `data[at..at + 2]`.
fn read_text(data: &[u8], at: usize) -> (r: Option<(String, usize)>)
    ensures
        match r {
            Some((s, end)) => text_at(data@, at as int) == Some((s@, end as int)),
            None => text_at(data@, at as int) is None,
        },
{
    if data.len() < 2 || at > data.len() - 2 {
        return None;
    }
    let n: usize = read_be16(data, at) as usize;
    let start: usize = at + 2;
    if n > data.len() - start {
        return None;
    }
    let end: usize = start + n;
    let bytes = vstd::slice::slice_to_vec(vstd::slice::slice_subrange(data, start, end));
    match string_from_utf8(bytes) {
        Some(s) => Some((s, end)),
        None => None,
    }
}

impl TcpMessage {
    /// The bytes of this message on the wire.
    ///
    /// A text longer than 65535 bytes has its byte count cut to its low 16
    /// bits, as an `as u16` cast does; such a message does not read back.
    pub fn encode(&self) -> (r: Vec<u8>)
        ensures
            r@ == encoding(self@),
    {
        match self {
            TcpMessage::PingMessage => {
                let mut msg: Vec<u8> = Vec::new();
                msg.push(0x01u8);
                assert(msg@ =~= encoding(self@));
                msg
            },
            TcpMessage::SensorValueIntMessage(n) => {
                let mut msg: Vec<u8> = Vec::new();
                msg.push(0x02u8);
                push_be64(&mut msg, *n as u64);
                msg
            },
            TcpMessage::SensorValueFloatMessage(bits) => {
                let mut msg: Vec<u8> = Vec::new();
                msg.push(0x03u8);
                push_be64(&mut msg, *bits);
                msg
            },
            TcpMessage::MultiFieldMessage(m) => {
                // |TcpCmd(u8)|NameLength(u16)|Name(var)|value(u32)|
                let mut msg: Vec<u8> = Vec::new();
                msg.push(0x04u8);
                push_text(&mut msg, &m.name);
                push_be32(&mut msg, m.value);
                msg
            },
            TcpMessage::PublicMessage(public_field) => {
                // |TcpCmd(u8)|MessageLength(u16)|Message(var)|from_id(u16)|
                let mut msg: Vec<u8> = Vec::new();
                msg.push(0x05u8);
                push_text(&mut msg, &public_field.message);
                push_be16(&mut msg, public_field.from_id);
                msg
            },
            TcpMessage::PrivateMessage(private_field) => {
                // |TcpCmd(u8)|RxId(u16)|MessageLength(u16)|Message(var)|
                let mut msg: Vec<u8> = Vec::new();
                msg.push(0x06u8);
                push_be16(&mut msg, private_field.receiver);
                push_text(&mut msg, &private_field.message);
                msg
            },
            TcpMessage::TuiStatusMessage(status_message) => {
                // |TcpCmd(u8)|MessageLength(u16)|Message(var)|
                let mut msg: Vec<u8> = Vec::new();
                msg.push(0x07u8);
                push_text(&mut msg, status_message);
                msg
            },
        }
    }

    /// Reads the message at the start of `data`; bytes after it are ignored.
    /// `None` where the command byte is unknown, the data ends early, or a
    /// text is not valid UTF-8.
    pub fn decode(data: &[u8]) -> (r: Option<TcpMessage>)
        ensures
            match r {
                Some(m) => decoding(data@) == Some(m@),
                None => decoding(data@) is None,
            },
    {
        if data.len() == 0 {
            return None;
        }
        let cmd = data[0];
        if cmd == 0x01 {
            Some(TcpMessage::PingMessage)
        } else if cmd == 0x02 {
            if data.len() < 9 {
                return None;
            }
            let value = read_be64(data, 1) as i64;
            Some(TcpMessage::SensorValueIntMessage(value))
        } else if cmd == 0x03 {
            if data.len() < 9 {
                return None;
            }
            Some(TcpMessage::SensorValueFloatMessage(read_be64(data, 1)))
        } else if cmd == 0x04 {
            match read_text(data, 1) {
                Some((name, name_end)) => {
                    if name_end + 4 > data.len() {
                        return None;
                    }
                    let value = read_be32(data, name_end);
                    Some(TcpMessage::MultiFieldMessage(MultiField { name, value }))
                },
                None => None,
            }
        } else if cmd == 0x05 {
            match read_text(data, 1) {
                Some((message, message_end)) => {
                    if message_end + 2 > data.len() {
                        return None;
                    }
                    let id = read_be16(data, message_end);
                    Some(TcpMessage::PublicMessage(PublicField { message, from_id: id }))
                },
                None => None,
            }
        } else if cmd == 0x06 {
            match read_text(data, 3) {
                Some((message, _end)) => {
                    let receiver = read_be16(data, 1);
                    Some(TcpMessage::PrivateMessage(PrivateField { receiver, message }))
                },
                None => None,
            }
        } else if cmd == 0x07 {
            match read_text(data, 1) {
                Some((message, _end)) => Some(TcpMessage::TuiStatusMessage(message)),
                None => None,
            }
        } else {
            None
        }
    }

    /// The line shown for this message in the terminal interface.
    pub fn to_string(&self) -> (r: String)
        ensures
            r@ == display_text(self@),
    {
        match self {
            TcpMessage::PingMessage => String::from_str("Ping"),
            TcpMessage::SensorValueIntMessage(_) => String::from_str("SensorValueInt coming soon..."),
            TcpMessage::SensorValueFloatMessage(_) => String::from_str(
                "SensorValueFloat coming soon...",
            ),
            TcpMessage::MultiFieldMessage(m) => {
                let mut s = String::from_str("Name: ");
                push_decimal(&mut s, m.value as u64);
                s.append(", Value: ");
                s.append(m.name.as_str());
                s
            },
            TcpMessage::PublicMessage(p) => {
                let mut s = String::from_str("Message: ");
                s.append(p.message.as_str());
                s.append(" from: ");
                push_decimal(&mut s, p.from_id as u64);
                s
            },
            TcpMessage::PrivateMessage(_) => String::from_str("PrivateMessage coming soon..."),
            TcpMessage::TuiStatusMessage(status_message) => status_message.clone(),
        }
    }
}

/// Every text of the message takes at most 65535 bytes in UTF-8, so that its
/// byte count fits the 16-bit length field.
pub open spec fn texts_fit(m: MessageModel) -> bool {
    match m {
        MessageModel::MultiField { name, .. } => encode_utf8(name).len() <= u16::MAX,
        MessageModel::Public { message, .. } => encode_utf8(message).len() <= u16::MAX,
        MessageModel::Private { message, .. } => encode_utf8(message).len() <= u16::MAX,
        MessageModel::TuiStatus(s) => encode_utf8(s).len() <= u16::MAX,
        _ => true,
    }
}

/// A text field that fits its length field reads back, whatever precedes and follows it.
proof fn lemma_text_at_text_bytes(pre: Seq<u8>, s: Seq<char>, post: Seq<u8>)
    requires
        encode_utf8(s).len() <= u16::MAX,
    ensures
        text_at(pre + text_bytes(s) + post, pre.len() as int) == Some(
            (s, pre.len() + 2 + encode_utf8(s).len() as int),
        ),
{
    let b = encode_utf8(s);
    let n = (b.len() % 0x1_0000) as u16;
    let data = pre + text_bytes(s) + post;
    let at = pre.len() as int;
    lemma_be16_roundtrip(n);
    assert(data.subrange(at, at + 2) =~= be16(n));
    assert(n as int == b.len());
    assert(data.subrange(at + 2, at + 2 + b.len()) =~= b);
    encode_utf8_valid_utf8(s);
    encode_utf8_decode_utf8(s);
}

/// A text field that reads back from `data` is written the same way by `text_bytes`.
proof fn lemma_text_at_reencodes(data: Seq<u8>, at: int)
    requires
        text_at(data, at) is Some,
    ensures
        ({
            let (s, end) = text_at(data, at).unwrap();
            &&& encode_utf8(s).len() <= u16::MAX
            &&& end == at + text_bytes(s).len()
            &&& data.subrange(at, end) == text_bytes(s)
        }),
{
    let (s, end) = text_at(data, at).unwrap();
    let bytes = data.subrange(at + 2, end);
    decode_utf8_encode_utf8(bytes);
    let n = from_be16(data.subrange(at, at + 2));
    assert(encode_utf8(s) == bytes);
    assert(bytes.len() as u16 == n);
    let b0 = data[at];
    let b1 = data[at + 1];
    assert(((((b0 as u16) << 8u16) | (b1 as u16)) >> 8u16) as u8 == b0) by (bit_vector);
    assert((((b0 as u16) << 8u16) | (b1 as u16)) as u8 == b1) by (bit_vector);
    assert(data.subrange(at, at + 2)[0] == b0);
    assert(data.subrange(at, at + 2)[1] == b1);
    assert(data.subrange(at, end) =~= text_bytes(s));
}

/// Reading a message from bytes that start with its encoding gives the
/// message back, whatever bytes follow, provided each of its texts fits
/// the 16-bit length field.
pub proof fn lemma_decode_encode(m: MessageModel, rest: Seq<u8>)
    requires
        texts_fit(m),
    ensures
        decoding(encoding(m) + rest) == Some(m),
{
    let data = encoding(m) + rest;
    match m {
        MessageModel::Ping => {},
        MessageModel::SensorInt(n) => {
            lemma_be64_roundtrip(n as u64);
            lemma_i64_u64_roundtrip(n);
            assert(data.subrange(1, 9) =~= be64(n as u64));
        },
        MessageModel::SensorFloat(bits) => {
            lemma_be64_roundtrip(bits);
            assert(data.subrange(1, 9) =~= be64(bits));
        },
        MessageModel::MultiField { name, value } => {
            lemma_text_at_text_bytes(seq![0x04u8], name, be32(value) + rest);
            assert(data =~= seq![0x04u8] + text_bytes(name) + (be32(value) + rest));
            let end: int = 3 + encode_utf8(name).len() as int;
            lemma_be32_roundtrip(value);
            assert(data.subrange(end, end + 4) =~= be32(value));
        },
        MessageModel::Public { message, from_id } => {
            lemma_text_at_text_bytes(seq![0x05u8], message, be16(from_id) + rest);
            assert(data =~= seq![0x05u8] + text_bytes(message) + (be16(from_id) + rest));
            let end: int = 3 + encode_utf8(message).len() as int;
            lemma_be16_roundtrip(from_id);
            assert(data.subrange(end, end + 2) =~= be16(from_id));
        },
        MessageModel::Private { receiver, message } => {
            lemma_text_at_text_bytes(seq![0x06u8] + be16(receiver), message, rest);
            lemma_be16_roundtrip(receiver);
            assert(data.subrange(1, 3) =~= be16(receiver));
        },
        MessageModel::TuiStatus(s) => {
            lemma_text_at_text_bytes(seq![0x07u8], s, rest);
        },
    }
}

/// A message read from `data` was written in exactly one way: its encoding
/// is the prefix of `data` that it was read from, and its texts fit.
pub proof fn lemma_encode_decode(data: Seq<u8>)
    requires
        decoding(data) is Some,
    ensures
        texts_fit(decoding(data).unwrap()),
        encoding(decoding(data).unwrap()).len() <= data.len(),
        data.subrange(0, encoding(decoding(data).unwrap()).len() as int) == encoding(
            decoding(data).unwrap(),
        ),
{
    let m = decoding(data).unwrap();
    let e = encoding(m);
    if data[0] == 0x02 || data[0] == 0x03 {
        let x = from_be64(data.subrange(1, 9));
        let b0 = data[1];
        let b1 = data[2];
        let b2 = data[3];
        let b3 = data[4];
        let b4 = data[5];
        let b5 = data[6];
        let b6 = data[7];
        let b7 = data[8];
        assert(x == ((b0 as u64) << 56u64) | ((b1 as u64) << 48u64) | ((b2 as u64) << 40u64) | ((
        b3 as u64) << 32u64) | ((b4 as u64) << 24u64) | ((b5 as u64) << 16u64) | ((b6 as u64)
            << 8u64) | (b7 as u64));
        assert(x == ((b0 as u64) << 56u64) | ((b1 as u64) << 48u64) | ((b2 as u64) << 40u64) | ((
        b3 as u64) << 32u64) | ((b4 as u64) << 24u64) | ((b5 as u64) << 16u64) | ((b6 as u64)
            << 8u64) | (b7 as u64) ==> (x >> 56u64) as u8 == b0 && (x >> 48u64) as u8 == b1 && (x
            >> 40u64) as u8 == b2 && (x >> 32u64) as u8 == b3 && (x >> 24u64) as u8 == b4 && (x
            >> 16u64) as u8 == b5 && (x >> 8u64) as u8 == b6 && x as u8 == b7) by (bit_vector);
        if data[0] == 0x02 {
            assert(((x as i64) as u64) == x) by (bit_vector);
        }
        assert(data.subrange(0, 9) =~= e);
    } else if data[0] == 0x04 {
        lemma_text_at_reencodes(data, 1);
        let (name, end) = text_at(data, 1).unwrap();
        let v = from_be32(data.subrange(end, end + 4));
        let b0 = data[end];
        let b1 = data[end + 1];
        let b2 = data[end + 2];
        let b3 = data[end + 3];
        assert(v == ((b0 as u32) << 24u32) | ((b1 as u32) << 16u32) | ((b2 as u32) << 8u32) | (
        b3 as u32));
        assert(v == ((b0 as u32) << 24u32) | ((b1 as u32) << 16u32) | ((b2 as u32) << 8u32) | (
        b3 as u32) ==> (v >> 24u32) as u8 == b0 && (v >> 16u32) as u8 == b1 && (v >> 8u32) as u8
            == b2 && v as u8 == b3) by (bit_vector);
        assert(data.subrange(0, end) =~= seq![0x04u8] + data.subrange(1, end));
        assert(data.subrange(0, end + 4) =~= e);
    } else if data[0] == 0x05 {
        lemma_text_at_reencodes(data, 1);
        let (message, end) = text_at(data, 1).unwrap();
        let v = from_be16(data.subrange(end, end + 2));
        let b0 = data[end];
        let b1 = data[end + 1];
        assert(v == ((b0 as u16) << 8u16) | (b1 as u16));
        assert(v == ((b0 as u16) << 8u16) | (b1 as u16) ==> (v >> 8u16) as u8 == b0 && v as u8
            == b1) by (bit_vector);
        assert(data.subrange(0, end) =~= seq![0x05u8] + data.subrange(1, end));
        assert(data.subrange(0, end + 2) =~= e);
    } else if data[0] == 0x06 {
        lemma_text_at_reencodes(data, 3);
        let (message, end) = text_at(data, 3).unwrap();
        let v = from_be16(data.subrange(1, 3));
        let b0 = data[1];
        let b1 = data[2];
        assert(v == ((b0 as u16) << 8u16) | (b1 as u16));
        assert(v == ((b0 as u16) << 8u16) | (b1 as u16) ==> (v >> 8u16) as u8 == b0 && v as u8
            == b1) by (bit_vector);
        assert(data.subrange(0, end) =~= e);
    } else if data[0] == 0x07 {
        lemma_text_at_reencodes(data, 1);
        let (s, end) = text_at(data, 1).unwrap();
        assert(data.subrange(0, end) =~= e);
    } else {
        assert(data.subrange(0, 1) =~= e);
    }
}

/// Two messages whose texts fit their length fields have the same encoding
/// only when they are the same message.
pub proof fn lemma_encoding_injective(m1: MessageModel, m2: MessageModel)
    requires
        texts_fit(m1),
        texts_fit(m2),
        encoding(m1) == encoding(m2),
    ensures
        m1 == m2,
{
    lemma_decode_encode(m1, Seq::empty());
    lemma_decode_encode(m2, Seq::empty());
}

} // verus!

verus! {

/// A text field is its UTF-8 byte count modulo 2^16 as two big-endian bytes,
/// then the UTF-8 bytes.
proof fn lemma_text_bytes_layout(s: Seq<char>)
    ensures
        text_bytes(s).len() == 2 + encode_utf8(s).len(),
        be_value(text_bytes(s).subrange(0, 2)) == encode_utf8(s).len() % 0x1_0000,
        text_bytes(s).subrange(2, 2 + encode_utf8(s).len() as int) == encode_utf8(s),
{
    let b = encode_utf8(s);
    let n = (b.len() % 0x1_0000) as u16;
    assert(n as int == b.len() % 0x1_0000);
    law_be16_value(n);
    assert(text_bytes(s).subrange(0, 2) =~= be16(n));
    assert(text_bytes(s).subrange(2, 2 + b.len() as int) =~= b);
}

/// A ping is the single byte `0x01`.
pub proof fn law_encode_ping()
    ensures
        encoding(MessageModel::Ping) == seq![0x01u8],
{
}

/// A signed sensor value is `0x02` then eight bytes whose big-endian value is
/// the number in two's complement (the number, plus 2^64 when negative).
pub proof fn law_encode_sensor_int(n: i64)
    ensures
        ({
            let e = encoding(MessageModel::SensorInt(n));
            &&& e.len() == 9
            &&& e[0] == 0x02
            &&& be_value(e.subrange(1, 9)) == (if n >= 0 {
                n as int
            } else {
                n as int + 0x1_0000_0000_0000_0000
            })
        }),
{
    let e = encoding(MessageModel::SensorInt(n));
    law_be64_value(n as u64);
    law_i64_as_u64(n);
    assert(e.subrange(1, 9) =~= be64(n as u64));
}

/// A floating-point sensor value is `0x03` then eight bytes whose big-endian
/// value is its bit pattern.
pub proof fn law_encode_sensor_float(bits: u64)
    ensures
        ({
            let e = encoding(MessageModel::SensorFloat(bits));
            &&& e.len() == 9
            &&& e[0] == 0x03
            &&& be_value(e.subrange(1, 9)) == bits
        }),
{
    let e = encoding(MessageModel::SensorFloat(bits));
    law_be64_value(bits);
    assert(e.subrange(1, 9) =~= be64(bits));
}

/// A named value is `0x04`, two bytes holding the name's UTF-8 length modulo
/// 2^16, the name's UTF-8 bytes, then four bytes holding the value, all
/// big-endian.
pub proof fn law_encode_multi_field(name: Seq<char>, value: u32)
    ensures
        ({
            let e = encoding(MessageModel::MultiField { name, value });
            let b = encode_utf8(name);
            let l = b.len() as int;
            &&& e.len() == 7 + l
            &&& e[0] == 0x04
            &&& be_value(e.subrange(1, 3)) == l % 0x1_0000
            &&& e.subrange(3, 3 + l) == b
            &&& be_value(e.subrange(3 + l, 7 + l)) == value
        }),
{
    let e = encoding(MessageModel::MultiField { name, value });
    let t = text_bytes(name);
    let l = encode_utf8(name).len() as int;
    lemma_text_bytes_layout(name);
    law_be32_value(value);
    assert(e.subrange(1, 3) =~= t.subrange(0, 2));
    assert(e.subrange(3, 3 + l) =~= t.subrange(2, 2 + l));
    assert(e.subrange(3 + l, 7 + l) =~= be32(value));
}

/// A public message is `0x05`, two bytes holding the text's UTF-8 length
/// modulo 2^16, the text's UTF-8 bytes, then two bytes holding the sender id,
/// all big-endian.
pub proof fn law_encode_public(message: Seq<char>, from_id: u16)
    ensures
        ({
            let e = encoding(MessageModel::Public { message, from_id });
            let b = encode_utf8(message);
            let l = b.len() as int;
            &&& e.len() == 5 + l
            &&& e[0] == 0x05
            &&& be_value(e.subrange(1, 3)) == l % 0x1_0000
            &&& e.subrange(3, 3 + l) == b
            &&& be_value(e.subrange(3 + l, 5 + l)) == from_id
        }),
{
    let e = encoding(MessageModel::Public { message, from_id });
    let t = text_bytes(message);
    let l = encode_utf8(message).len() as int;
    lemma_text_bytes_layout(message);
    law_be16_value(from_id);
    assert(e.subrange(1, 3) =~= t.subrange(0, 2));
    assert(e.subrange(3, 3 + l) =~= t.subrange(2, 2 + l));
    assert(e.subrange(3 + l, 5 + l) =~= be16(from_id));
}

/// A private message is `0x06`, two bytes holding the receiver id, two bytes
/// holding the text's UTF-8 length modulo 2^16, then the text's UTF-8 bytes,
/// all big-endian.
pub proof fn law_encode_private(receiver: u16, message: Seq<char>)
    ensures
        ({
            let e = encoding(MessageModel::Private { receiver, message });
            let b = encode_utf8(message);
            let l = b.len() as int;
            &&& e.len() == 5 + l
            &&& e[0] == 0x06
            &&& be_value(e.subrange(1, 3)) == receiver
            &&& be_value(e.subrange(3, 5)) == l % 0x1_0000
            &&& e.subrange(5, 5 + l) == b
        }),
{
    let e = encoding(MessageModel::Private { receiver, message });
    let t = text_bytes(message);
    let l = encode_utf8(message).len() as int;
    lemma_text_bytes_layout(message);
    law_be16_value(receiver);
    assert(e.subrange(1, 3) =~= be16(receiver));
    assert(e.subrange(3, 5) =~= t.subrange(0, 2));
    assert(e.subrange(5, 5 + l) =~= t.subrange(2, 2 + l));
}

/// A status line is `0x07`, two bytes holding its UTF-8 length modulo 2^16
/// (big-endian), then its UTF-8 bytes.
pub proof fn law_encode_status(text: Seq<char>)
    ensures
        ({
            let e = encoding(MessageModel::TuiStatus(text));
            let b = encode_utf8(text);
            let l = b.len() as int;
            &&& e.len() == 3 + l
            &&& e[0] == 0x07
            &&& be_value(e.subrange(1, 3)) == l % 0x1_0000
            &&& e.subrange(3, 3 + l) == b
        }),
{
    let e = encoding(MessageModel::TuiStatus(text));
    let t = text_bytes(text);
    let l = encode_utf8(text).len() as int;
    lemma_text_bytes_layout(text);
    assert(e.subrange(1, 3) =~= t.subrange(0, 2));
    assert(e.subrange(3, 3 + l) =~= t.subrange(2, 2 + l));
}

} // verus!

verus! {

/// The two length bytes of a text of `l` bytes, high byte first.
pub open spec fn length_bytes(l: int) -> Seq<u8> {
    seq![(l / 256) as u8, (l % 256) as u8]
}

/// Two length bytes read back give the length.
proof fn lemma_length_field(data: Seq<u8>, at: int, l: int)
    requires
        0 <= l <= u16::MAX,
        0 <= at,
        at + 2 <= data.len(),
        data.subrange(at, at + 2) == length_bytes(l),
    ensures
        from_be16(data.subrange(at, at + 2)) as int == l,
{
    let f = data.subrange(at, at + 2);
    law_from_be16_value(f);
    law_be_value_2(f);
    assert(f.subrange(0, 2) =~= f);
}

/// A text field of `name` with its length bytes, followed by anything, reads back as `name`.
proof fn lemma_text_field(pre: Seq<u8>, name: Seq<char>, post: Seq<u8>)
    requires
        encode_utf8(name).len() <= u16::MAX,
    ensures
        text_at(pre + length_bytes(encode_utf8(name).len() as int) + encode_utf8(name) + post, pre.len() as int)
            == Some((name, pre.len() + 2 + encode_utf8(name).len() as int)),
{
    let b = encode_utf8(name);
    let l = b.len() as int;
    let data = pre + length_bytes(l) + b + post;
    let at = pre.len() as int;
    assert(data.subrange(at, at + 2) =~= length_bytes(l));
    lemma_length_field(data, at, l);
    assert(data.subrange(at + 2, at + 2 + l) =~= b);
    encode_utf8_valid_utf8(name);
    encode_utf8_decode_utf8(name);
}

/// The integer whose two's-complement bit pattern has the unsigned value `x`.
pub open spec fn signed64(x: int) -> int {
    if x < 0x8000_0000_0000_0000 {
        x
    } else {
        x - 0x1_0000_0000_0000_0000
    }
}

/// `0x01` reads as a ping, whatever follows.
pub proof fn law_decode_ping(rest: Seq<u8>)
    ensures
        decoding(seq![0x01u8] + rest) == Some(MessageModel::Ping),
{
}

/// `0x02` and eight bytes read as the signed integer whose two's-complement
/// big-endian bytes they are, whatever follows.
pub proof fn law_decode_sensor_int(b: Seq<u8>, rest: Seq<u8>)
    requires
        b.len() == 8,
    ensures
        decoding(seq![0x02u8] + b + rest) matches Some(MessageModel::SensorInt(n)) && n as int
            == signed64(be_value(b)),
{
    let data = seq![0x02u8] + b + rest;
    assert(data.subrange(1, 9) =~= b);
    law_from_be64_value(b);
    assert(b.subrange(0, 8) =~= b);
    let x = from_be64(b);
    assert(x < 0x8000_0000_0000_0000u64 ==> (x as i64) as int == x as int) by (bit_vector);
    assert(x >= 0x8000_0000_0000_0000u64 ==> (x as i64) as int == x as int
        - 0x1_0000_0000_0000_0000) by (bit_vector);
}

/// `0x03` and eight bytes read as the floating-point value whose bit pattern
/// is their big-endian value, whatever follows.
pub proof fn law_decode_sensor_float(b: Seq<u8>, rest: Seq<u8>)
    requires
        b.len() == 8,
    ensures
        decoding(seq![0x03u8] + b + rest) matches Some(MessageModel::SensorFloat(bits)) && bits
            as int == be_value(b),
{
    let data = seq![0x03u8] + b + rest;
    assert(data.subrange(1, 9) =~= b);
    law_from_be64_value(b);
    assert(b.subrange(0, 8) =~= b);
}

/// `0x04`, a name's length and UTF-8 bytes, then four bytes, read as that name
/// with the big-endian value of the four bytes, whatever follows.
pub proof fn law_decode_multi_field(name: Seq<char>, v: Seq<u8>, rest: Seq<u8>)
    requires
        encode_utf8(name).len() <= u16::MAX,
        v.len() == 4,
    ensures
        decoding(
            seq![0x04u8] + length_bytes(encode_utf8(name).len() as int) + encode_utf8(name) + v + rest,
        ) matches Some(MessageModel::MultiField { name: n, value }) && n == name && value as int
            == be_value(v),
{
    let l = encode_utf8(name).len() as int;
    let data = seq![0x04u8] + length_bytes(l) + encode_utf8(name) + v + rest;
    lemma_text_field(seq![0x04u8], name, v + rest);
    assert(data =~= seq![0x04u8] + length_bytes(l) + encode_utf8(name) + (v + rest));
    assert(data.subrange(3 + l, 7 + l) =~= v);
    law_from_be32_value(v);
    assert(v.subrange(0, 4) =~= v);
}

/// `0x05`, a text's length and UTF-8 bytes, then two bytes, read as that text
/// sent by the big-endian value of the two bytes, whatever follows.
pub proof fn law_decode_public(message: Seq<char>, id: Seq<u8>, rest: Seq<u8>)
    requires
        encode_utf8(message).len() <= u16::MAX,
        id.len() == 2,
    ensures
        decoding(
            seq![0x05u8] + length_bytes(encode_utf8(message).len() as int) + encode_utf8(message) + id
                + rest,
        ) matches Some(MessageModel::Public { message: m, from_id }) && m == message && from_id
            as int == be_value(id),
{
    let l = encode_utf8(message).len() as int;
    let data = seq![0x05u8] + length_bytes(l) + encode_utf8(message) + id + rest;
    lemma_text_field(seq![0x05u8], message, id + rest);
    assert(data =~= seq![0x05u8] + length_bytes(l) + encode_utf8(message) + (id + rest));
    assert(data.subrange(3 + l, 5 + l) =~= id);
    law_from_be16_value(id);
    assert(id.subrange(0, 2) =~= id);
}

/// `0x06`, two bytes, then a text's length and UTF-8 bytes, read as that text
/// for the receiver whose id is the big-endian value of the two bytes,
/// whatever follows.
pub proof fn law_decode_private(receiver: Seq<u8>, message: Seq<char>, rest: Seq<u8>)
    requires
        encode_utf8(message).len() <= u16::MAX,
        receiver.len() == 2,
    ensures
        decoding(
            seq![0x06u8] + receiver + length_bytes(encode_utf8(message).len() as int) + encode_utf8(
                message,
            ) + rest,
        ) matches Some(MessageModel::Private { receiver: r, message: m }) && m == message && r
            as int == be_value(receiver),
{
    let l = encode_utf8(message).len() as int;
    let data = seq![0x06u8] + receiver + length_bytes(l) + encode_utf8(message) + rest;
    lemma_text_field(seq![0x06u8] + receiver, message, rest);
    assert(data.subrange(1, 3) =~= receiver);
    law_from_be16_value(receiver);
    assert(receiver.subrange(0, 2) =~= receiver);
}

/// `0x07` and a text's length and UTF-8 bytes read as that status line,
/// whatever follows.
pub proof fn law_decode_status(text: Seq<char>, rest: Seq<u8>)
    requires
        encode_utf8(text).len() <= u16::MAX,
    ensures
        decoding(seq![0x07u8] + length_bytes(encode_utf8(text).len() as int) + encode_utf8(text) + rest)
            == Some(MessageModel::TuiStatus(text)),
{
    lemma_text_field(seq![0x07u8], text, rest);
}

/// Nothing is read from no bytes, from an unknown command byte, or from a
/// sensor value cut short.
pub proof fn law_decode_rejects(data: Seq<u8>)
    ensures
        data.len() == 0 ==> decoding(data) is None,
        data.len() > 0 && (data[0] == 0 || data[0] > 7) ==> decoding(data) is None,
        data.len() > 0 && (data[0] == 2 || data[0] == 3) && data.len() < 9 ==> decoding(data) is None,
{
}

/// A text field whose bytes are not UTF-8 makes a status line unreadable.
pub proof fn law_decode_status_rejects_bad_utf8(bytes: Seq<u8>, rest: Seq<u8>)
    requires
        bytes.len() <= u16::MAX,
        !valid_utf8(bytes),
    ensures
        decoding(seq![0x07u8] + length_bytes(bytes.len() as int) + bytes + rest) is None,
{
    let l = bytes.len() as int;
    let data = seq![0x07u8] + length_bytes(l) + bytes + rest;
    assert(data.subrange(1, 3) =~= length_bytes(l));
    lemma_length_field(data, 1, l);
    assert(data.subrange(3, 3 + l) =~= bytes);
}

} // verus!

verus! {

/// A status line is shown exactly as it is, whatever its length or content.
pub proof fn law_display_status(s: Seq<char>)
    ensures
        display_text(MessageModel::TuiStatus(s)) == s,
{
}

/// A public message is shown as "Message: ", its text, " from: " and the
/// sender id in decimal, whose digits read back as the id.
pub proof fn law_display_public(message: Seq<char>, from_id: u16)
    ensures
        display_text(MessageModel::Public { message, from_id }) == "Message: "@ + message + " from: "@
            + decimal(from_id as nat),
        digits_value(decimal(from_id as nat)) == from_id,
{
    law_decimal_value(from_id as nat);
}

/// A named value is shown as "Name: ", the value in decimal, ", Value: " and
/// the name, whatever the name.
pub proof fn law_display_multi_field(name: Seq<char>, value: u32)
    ensures
        display_text(MessageModel::MultiField { name, value }) == "Name: "@ + decimal(value as nat)
            + ", Value: "@ + name,
        digits_value(decimal(value as nat)) == value,
{
    law_decimal_value(value as nat);
}

/// Pings, sensor values and private messages are shown as fixed lines that do
/// not depend on what they hold.
pub proof fn law_display_fixed(n: i64, bits: u64, receiver: u16, message: Seq<char>)
    ensures
        display_text(MessageModel::Ping) == "Ping"@,
        display_text(MessageModel::SensorInt(n)) == "SensorValueInt coming soon..."@,
        display_text(MessageModel::SensorFloat(bits)) == "SensorValueFloat coming soon..."@,
        display_text(MessageModel::Private { receiver, message })
            == "PrivateMessage coming soon..."@,
{
}

} // verus!

verus! {

/// The length bytes of a 16-bit length are its big-endian digits.
pub proof fn law_length_bytes(l: int)
    requires
        0 <= l <= u16::MAX,
    ensures
        length_bytes(l).len() == 2,
        be_value(length_bytes(l)) == l,
{
    law_be_value_2(length_bytes(l));
    assert(length_bytes(l).subrange(0, 2) =~= length_bytes(l));
}

/// `signed64(x)` is the one integer of the signed 64-bit range that differs
/// from `x` by a multiple of 2^64, for every unsigned 64-bit `x`.
pub proof fn law_signed64(x: int)
    requires
        0 <= x < 0x1_0000_0000_0000_0000,
    ensures
        i64::MIN <= signed64(x) <= i64::MAX,
        signed64(x) == x || signed64(x) == x - 0x1_0000_0000_0000_0000,
{
}

} // verus!
