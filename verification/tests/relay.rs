use juno::agent_server::{AgentServer, ClientMessage, Connect, Delivery, Message};
use juno::ws::{Ws, WsFrame, WsReply};

fn delivery(session: u64, text: &str) -> Delivery {
    Delivery { session, message: Message(text.to_string()) }
}

#[test]
fn fresh_relay_has_no_sessions_and_delivers_nothing() {
    let server = AgentServer::default();
    assert!(server.sessions().is_empty());
    assert!(server.send_message("hello").is_empty());
}

#[test]
fn connect_appends_sessions_in_order() {
    let mut server = AgentServer::default();
    server.handle_connect(Connect { addr: 7 });
    server.handle_connect(Connect { addr: 3 });
    server.handle_connect(Connect { addr: 7 });
    assert_eq!(server.sessions(), &vec![7u64, 3, 7]);
}

#[test]
fn client_message_reaches_every_session_in_connection_order() {
    let mut server = AgentServer::default();
    server.handle_connect(Connect { addr: 1 });
    server.handle_connect(Connect { addr: 2 });
    let out = server.handle_client_message(ClientMessage { msg: "cpu=93%".to_string() });
    assert_eq!(out, vec![delivery(1, "cpu=93%"), delivery(2, "cpu=93%")]);
    // relaying leaves the sessions as they were
    assert_eq!(server.sessions(), &vec![1u64, 2]);
}

#[test]
fn late_session_receives_later_messages_only() {
    let mut server = AgentServer::default();
    server.handle_connect(Connect { addr: 10 });
    let first = server.send_message("one");
    server.handle_connect(Connect { addr: 11 });
    let second = server.send_message("two");
    assert_eq!(first, vec![delivery(10, "one")]);
    assert_eq!(second, vec![delivery(10, "two"), delivery(11, "two")]);
}

#[test]
fn session_connected_twice_receives_twice() {
    let mut server = AgentServer::default();
    server.handle_connect(Connect { addr: 5 });
    server.handle_connect(Connect { addr: 6 });
    server.handle_connect(Connect { addr: 5 });
    let out = server.send_message("x");
    assert_eq!(out.iter().filter(|d| d.session == 5).count(), 2);
    assert_eq!(out.iter().filter(|d| d.session == 6).count(), 1);
    assert!(out.iter().all(|d| d.message.0 == "x"));
}

#[test]
fn empty_message_is_relayed_too() {
    let mut server = AgentServer::default();
    server.handle_connect(Connect { addr: 1 });
    assert_eq!(server.send_message(""), vec![delivery(1, "")]);
}

#[test]
fn ws_session_connects_under_its_address() {
    assert_eq!(Ws.started(42), Connect { addr: 42 });
}

#[test]
fn ws_writes_relayed_message_as_text() {
    assert_eq!(Ws.handle_message(Message("hi".to_string())), WsReply::Text("hi".to_string()));
}

#[test]
fn ws_echoes_text_and_binary() {
    assert_eq!(Ws.handle_frame(WsFrame::Text("abc".to_string())), Some(WsReply::Text("abc".to_string())));
    assert_eq!(Ws.handle_frame(WsFrame::Binary(vec![0, 255, 7])), Some(WsReply::Binary(vec![0, 255, 7])));
}

#[test]
fn ws_answers_ping_with_pong_of_same_payload() {
    assert_eq!(Ws.handle_frame(WsFrame::Ping("p1".to_string())), Some(WsReply::Pong("p1".to_string())));
}

#[test]
fn ws_ignores_pong_and_close() {
    assert_eq!(Ws.handle_frame(WsFrame::Pong("p".to_string())), None);
    assert_eq!(Ws.handle_frame(WsFrame::Close), None);
}
