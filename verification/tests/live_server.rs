use personal_server::live_server::{
    client_step, connection_notice, listening_notice, ClientAction, ClientEvent, ConnectionIds,
};
use personal_server::tcp_message::{MultiField, PrivateField, PublicField, TcpMessage};

fn show(actions: &[ClientAction]) -> Vec<String> {
    actions
        .iter()
        .map(|a| match a {
            ClientAction::Notify(m) => format!("notify {:?}", m),
            ClientAction::ReportReceived(m) => format!("report {:?}", m),
            ClientAction::Print(s) => format!("print {}", s),
            ClientAction::Write(b) => format!("write {:?}", b),
            ClientAction::Forward(m) => format!("forward {:?}", m),
        })
        .collect()
}

fn status(s: &str) -> TcpMessage {
    TcpMessage::TuiStatusMessage(s.to_string())
}

fn greeting_and_forward(id: u16) -> Vec<String> {
    show(&[
        ClientAction::Write(b"Hello from the server".to_vec()),
        ClientAction::Forward(TcpMessage::PublicMessage(PublicField {
            message: "This is a public message".to_string(),
            from_id: id,
        })),
    ])
}

#[test]
fn ids_count_up_from_zero() {
    let mut ids = ConnectionIds::new();
    assert_eq!(ids.assign(), 0);
    assert_eq!(ids.assign(), 1);
    assert_eq!(ids.assign(), 2);
    assert_eq!(ids.next, 3);
}

#[test]
fn notices() {
    assert_eq!(
        format!("{:?}", listening_notice("0.0.0.0:8080")),
        format!("{:?}", status("Listening on: 0.0.0.0:8080"))
    );
    assert_eq!(
        format!("{:?}", connection_notice("127.0.0.1:5000")),
        format!("{:?}", status("Connection from: 127.0.0.1:5000"))
    );
}

#[test]
fn closed_connection_ends_the_session() {
    let r = client_step(4, ClientEvent::Closed);
    assert!(r.close);
    assert_eq!(
        show(&r.actions),
        show(&[ClientAction::Notify(status("Client closed connection."))])
    );
}

#[test]
fn a_decoded_message_is_reported_then_answered() {
    let m = TcpMessage::MultiFieldMessage(MultiField { name: "Connor".to_string(), value: 12 });
    let r = client_step(7, ClientEvent::Received(m.encode()));
    assert!(!r.close);
    let mut expected = show(&[ClientAction::ReportReceived(m)]);
    expected.extend(greeting_and_forward(7));
    assert_eq!(show(&r.actions), expected);
}

#[test]
fn undecodable_bytes_are_printed_and_reported_then_answered() {
    let r = client_step(2, ClientEvent::Received(vec![0x09, 1, 2]));
    assert!(!r.close);
    let mut expected = show(&[
        ClientAction::Print("Message decoding failed.".to_string()),
        ClientAction::Notify(status("Message decoding failed.")),
    ]);
    expected.extend(greeting_and_forward(2));
    assert_eq!(show(&r.actions), expected);
}

#[test]
fn read_errors_are_printed() {
    let r = client_step(0, ClientEvent::ReadFailed("connection reset".to_string()));
    assert!(!r.close);
    assert_eq!(
        show(&r.actions),
        show(&[ClientAction::Print("Error: connection reset".to_string())])
    );
}

#[test]
fn broadcasts_are_written_to_the_client() {
    let r = client_step(
        0,
        ClientEvent::Broadcast(TcpMessage::PublicMessage(PublicField {
            message: "all".to_string(),
            from_id: 3,
        })),
    );
    assert_eq!(show(&r.actions), show(&[ClientAction::Write(b"all".to_vec())]));
    let r = client_step(
        0,
        ClientEvent::Broadcast(TcpMessage::PrivateMessage(PrivateField {
            receiver: 1,
            message: "one".to_string(),
        })),
    );
    assert_eq!(show(&r.actions), show(&[ClientAction::Write(b"one".to_vec())]));
    let r = client_step(0, ClientEvent::Broadcast(TcpMessage::PingMessage));
    assert!(!r.close);
    assert_eq!(show(&r.actions), show(&[ClientAction::Write(b"Unknown message".to_vec())]));
}
