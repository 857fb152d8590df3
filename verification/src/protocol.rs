//! The decisions of the websocket link between the program and its page:
//! which clients are served, what the server does with each message a client
//! sends, and what the program reads of a message.

use vstd::prelude::*;

verus! {

/// The status code and reason that a close message may carry.
pub struct CloseFrame {
    pub status_code: u16,
    pub reason: String,
}

/// A websocket message, as the client sends it.
pub enum WsMessage {
    Text(String),
    Binary(Vec<u8>),
    Close(Option<CloseFrame>),
    Ping(Vec<u8>),
    Pong(Vec<u8>),
}

/// What the server does with a message the client sent.
pub enum ServerAction {
    /// Answer with a close message that carries nothing, and stop serving.
    CloseAndStop,
    /// Answer with a pong message that carries these bytes.
    Pong(Vec<u8>),
    /// Hand the message to the program.
    Forward(WsMessage),
}

/// The sub-protocol that the page speaks.
pub open spec fn page_protocol() -> Seq<char> {
    "rust-websocket"@
}

/// The server serves a client only when the client offers the page's
/// sub-protocol, `rust-websocket`.
pub fn accepts_protocols(protocols: &Vec<String>) -> (accepted: bool)
    ensures
        accepted <==> exists|i: int| 0 <= i < protocols@.len() && #[trigger] protocols@[i]@ == page_protocol(),
{
    let wanted = String::from_str("rust-websocket");
    for i in 0..protocols.len()
        invariant
            wanted@ == page_protocol(),
            forall|j: int| 0 <= j < i ==> #[trigger] protocols@[j]@ != page_protocol(),
    {
        if protocols[i] == wanted {
            return true;
        }
    }
    false
}

/// A close message is answered with a close message and ends the service; a
/// ping is answered with a pong that carries the same bytes; every other
/// message goes to the program unchanged.
pub fn on_client_message(msg: WsMessage) -> (action: ServerAction)
    ensures
        match msg {
            WsMessage::Close(_) => action is CloseAndStop,
            WsMessage::Ping(payload) => action == ServerAction::Pong(payload),
            other => action == ServerAction::Forward(other),
        },
{
    match msg {
        WsMessage::Close(_) => ServerAction::CloseAndStop,
        WsMessage::Ping(payload) => ServerAction::Pong(payload),
        other => ServerAction::Forward(other),
    }
}

/// What the program reads of the next message handed to it: nothing when
/// there is none, the text of a text message, and an empty text for any other
/// message.
pub fn received_text(msg: Option<WsMessage>) -> (text: Option<String>)
    ensures
        match msg {
            None => text is None,
            Some(WsMessage::Text(t)) => text == Some(t),
            Some(_) => text matches Some(s) && s@ == Seq::<char>::empty(),
        },
{
    match msg {
        Some(WsMessage::Text(t)) => Some(t),
        Some(_) => Some(String::new()),
        None => None,
    }
}

/// Where the page's files were found on disk.
pub enum FrontendPath {
    /// At this absolute path.
    Found(String),
    /// Found, but the path is not valid UTF-8.
    NotUtf8,
    /// Not found.
    Missing,
}

/// The line that tells the user where to open the page.
pub fn frontend_link_message(path: &FrontendPath) -> (msg: String)
    ensures
        msg@ == match path {
            FrontendPath::Found(p) => "Frontend at file://"@ + p@,
            FrontendPath::NotUtf8 => "The path to the frontend can't be printed ! Do you use non-utf8 character ?"@,
            FrontendPath::Missing => "Please copy the frontend folder in your project"@,
        },
{
    match path {
        FrontendPath::Found(p) => {
            let mut msg = String::from_str("Frontend at file://");
            msg.append(p.as_str());
            msg
        },
        FrontendPath::NotUtf8 => String::from_str(
            "The path to the frontend can't be printed ! Do you use non-utf8 character ?",
        ),
        FrontendPath::Missing => String::from_str("Please copy the frontend folder in your project"),
    }
}

} // verus!
