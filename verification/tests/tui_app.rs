use personal_server::tcp_message::{MultiField, TcpMessage};
use personal_server::tui_app::{App, KeyInput, KeyKind};

#[test]
fn default_app_runs_with_no_lines() {
    let app = App::default();
    assert_eq!(app.counter, 0);
    assert!(!app.exit);
    assert!(app.lines.is_empty());
}

#[test]
fn received_messages_are_shown_in_order() {
    let mut app = App::default();
    app.receive(&TcpMessage::PingMessage);
    app.receive(&TcpMessage::MultiFieldMessage(MultiField { name: "a".to_string(), value: 5 }));
    assert_eq!(app.lines, vec!["Ping".to_string(), "Name: 5, Value: a".to_string()]);
}

#[test]
fn pressed_escape_exits() {
    let mut app = App::default();
    let forward = app.handle_event(Some(KeyInput { is_esc: true, kind: KeyKind::Press }));
    assert!(!forward);
    assert!(app.exit);
}

#[test]
fn other_pressed_keys_go_to_the_input() {
    let mut app = App::default();
    assert!(app.handle_event(Some(KeyInput { is_esc: false, kind: KeyKind::Press })));
    assert!(!app.exit);
}

#[test]
fn released_and_repeated_keys_and_other_events_are_ignored() {
    let mut app = App::default();
    assert!(!app.handle_event(Some(KeyInput { is_esc: true, kind: KeyKind::Release })));
    assert!(!app.handle_event(Some(KeyInput { is_esc: false, kind: KeyKind::Repeat })));
    assert!(!app.handle_event(None));
    assert!(!app.exit);
}

#[test]
fn handle_key_event_forwards_unpressed_escape() {
    let mut app = App::default();
    assert!(app.handle_key_event(KeyInput { is_esc: true, kind: KeyKind::Repeat }));
    assert!(!app.exit);
    assert!(!app.handle_key_event(KeyInput { is_esc: true, kind: KeyKind::Press }));
    assert!(app.exit);
}

#[test]
fn exit_sets_the_flag() {
    let mut app = App::default();
    app.exit();
    assert!(app.exit);
}
