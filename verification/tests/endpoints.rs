use waspedge::listen::{listen_address, push_decimal};
use waspedge::websocket::{after_echo, on_event, WsAction, WsEnd, WsEvent};

#[test]
fn listen_addresses() {
    assert_eq!(listen_address(9001), "0.0.0.0:9001");
    assert_eq!(listen_address(0), "0.0.0.0:0");
    assert_eq!(listen_address(65535), "0.0.0.0:65535");
    assert_eq!(listen_address(80), "0.0.0.0:80");
}

#[test]
fn decimal_is_appended() {
    let mut s = "port ".to_string();
    push_decimal(&mut s, 4433);
    assert_eq!(s, "port 4433");
    let mut t = String::new();
    push_decimal(&mut t, 10);
    assert_eq!(t, "10");
}

#[test]
fn data_messages_are_echoed() {
    assert_eq!(on_event(WsEvent::Text), WsAction::Echo);
    assert_eq!(on_event(WsEvent::Binary), WsAction::Echo);
}

#[test]
fn connection_ends_on_close_and_errors() {
    assert_eq!(on_event(WsEvent::Close), WsAction::Stop(WsEnd::ClosedByPeer));
    assert_eq!(on_event(WsEvent::ReadError), WsAction::Stop(WsEnd::ReadFailed));
    assert_eq!(after_echo(false), WsAction::Stop(WsEnd::SendFailed));
}

#[test]
fn control_frames_and_sent_echoes_continue() {
    assert_eq!(on_event(WsEvent::Control), WsAction::Continue);
    assert_eq!(after_echo(true), WsAction::Continue);
}
