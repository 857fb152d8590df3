use js_gui_rs::protocol::{
    accepts_protocols, frontend_link_message, on_client_message, received_text, CloseFrame,
    FrontendPath, ServerAction, WsMessage,
};

#[test]
fn close_ends_the_service() {
    assert!(matches!(on_client_message(WsMessage::Close(None)), ServerAction::CloseAndStop));
    let frame = CloseFrame { status_code: 1000, reason: String::from("bye") };
    assert!(matches!(on_client_message(WsMessage::Close(Some(frame))), ServerAction::CloseAndStop));
}

#[test]
fn ping_is_answered_with_the_same_bytes() {
    match on_client_message(WsMessage::Ping(vec![1, 2, 3])) {
        ServerAction::Pong(p) => assert_eq!(p, vec![1, 2, 3]),
        _ => panic!("expected a pong"),
    }
}

#[test]
fn other_messages_are_forwarded() {
    match on_client_message(WsMessage::Text(String::from("click"))) {
        ServerAction::Forward(WsMessage::Text(t)) => assert_eq!(t, "click"),
        _ => panic!("expected the text to be forwarded"),
    }
    match on_client_message(WsMessage::Pong(vec![9])) {
        ServerAction::Forward(WsMessage::Pong(p)) => assert_eq!(p, vec![9]),
        _ => panic!("expected the pong to be forwarded"),
    }
    match on_client_message(WsMessage::Binary(vec![4])) {
        ServerAction::Forward(WsMessage::Binary(b)) => assert_eq!(b, vec![4]),
        _ => panic!("expected the bytes to be forwarded"),
    }
}

#[test]
fn received_text_of_each_message() {
    assert_eq!(received_text(None), None);
    assert_eq!(received_text(Some(WsMessage::Text(String::from("x")))), Some(String::from("x")));
    assert_eq!(received_text(Some(WsMessage::Binary(vec![1]))), Some(String::new()));
    assert_eq!(received_text(Some(WsMessage::Close(None))), Some(String::new()));
}

#[test]
fn only_the_page_protocol_is_accepted() {
    assert!(accepts_protocols(&vec![String::from("chat"), String::from("rust-websocket")]));
    assert!(!accepts_protocols(&vec![String::from("chat")]));
    assert!(!accepts_protocols(&vec![]));
}

#[test]
fn frontend_link_messages() {
    assert_eq!(
        frontend_link_message(&FrontendPath::Found(String::from("/tmp/frontend/demo.html"))),
        "Frontend at file:///tmp/frontend/demo.html"
    );
    assert_eq!(
        frontend_link_message(&FrontendPath::NotUtf8),
        "The path to the frontend can't be printed ! Do you use non-utf8 character ?"
    );
    assert_eq!(
        frontend_link_message(&FrontendPath::Missing),
        "Please copy the frontend folder in your project"
    );
}
