use juno::db::RegisterError;
use juno::handlers::{
    data, four_oh_four, index, index_rendered, method_not_allowed, register, register_message, try_data,
    not_found_template, IndexStep, RegisterAgentPayload,
};
use juno::http::{Body, ContentType, Outcome, Reply};
use juno::models::{Agent, IpNet};

fn sample_agent() -> Agent {
    Agent { id: 4, uuid: [9; 16], hostname: "h".to_string(), ip: IpNet::V4 { addr: [127, 0, 0, 1], prefix: 32 } }
}

fn ok_reply() -> Reply {
    Reply { status: 200, content_type: ContentType::Html, body: Body::Text("OK".to_string()) }
}

#[test]
fn data_relays_body_text_and_answers_ok() {
    let (msg, reply) = data("disk=71%".as_bytes());
    assert_eq!(msg.msg, "disk=71%");
    assert_eq!(reply, ok_reply());
}

#[test]
fn data_keeps_multibyte_text() {
    let text = "température: 21°C ✓";
    let (msg, _) = data(text.as_bytes());
    assert_eq!(msg.msg, text);
}

#[test]
fn data_accepts_empty_body() {
    let (msg, reply) = data(&[]);
    assert_eq!(msg.msg, "");
    assert_eq!(reply, ok_reply());
}

#[test]
fn try_data_refuses_invalid_utf8() {
    assert!(try_data(&[0xff, 0xfe]).is_none());
    assert!(try_data(&[0xc3]).is_none());
    assert!(try_data(&[0xed, 0xa0, 0x80]).is_none());
    let (msg, reply) = try_data(b"ok").unwrap();
    assert_eq!(msg.msg, "ok");
    assert_eq!(reply, ok_reply());
}

#[test]
fn register_message_moves_payload() {
    let m = register_message(RegisterAgentPayload { hostname: "a".to_string(), ip: "1.2.3.4".to_string() });
    assert_eq!(m.hostname, "a");
    assert_eq!(m.ip, "1.2.3.4");
}

#[test]
fn register_replies_agent_as_json() {
    let r = register(Ok(sample_agent()));
    assert_eq!(r, Reply { status: 200, content_type: ContentType::Json, body: Body::AgentJson(sample_agent()) });
}

#[test]
fn register_failure_replies_500_with_error_text() {
    for e in [RegisterError::InsertFailed, RegisterError::LoadFailed] {
        let r = register(Err(e));
        assert_eq!(r.status, 500);
        assert_eq!(r.content_type, ContentType::Json);
        assert_eq!(r.body, Body::JsonText("{ \"error\": \"An internal server error occurred.\" }".to_string()));
    }
}

#[test]
fn index_renders_listed_agents() {
    match index(Ok(vec![sample_agent()])) {
        IndexStep::Render { template, key, agents } => {
            assert_eq!(template, "index.html");
            assert_eq!(key, "agents");
            assert_eq!(agents, vec![sample_agent()]);
        }
        other => panic!("unexpected {:?}", other),
    }
}

#[test]
fn index_failed_listing_is_500() {
    let expected = Outcome::Respond(Reply {
        status: 500,
        content_type: ContentType::Unset,
        body: Body::Text("An error occurred".to_string()),
    });
    assert_eq!(index(Err(())), IndexStep::Reply(expected));
}

#[test]
fn index_rendered_page_or_failure() {
    assert_eq!(
        index_rendered(Ok("<html/>".to_string())),
        Outcome::Respond(Reply { status: 200, content_type: ContentType::Html, body: Body::Text("<html/>".to_string()) })
    );
    assert_eq!(
        index_rendered(Err("missing template".to_string())),
        Outcome::Fail { status: 500, message: "missing template".to_string() }
    );
}

#[test]
fn not_found_page_is_404_or_template_error() {
    assert_eq!(
        four_oh_four(Ok("<p>gone</p>".to_string())),
        Outcome::Respond(Reply { status: 404, content_type: ContentType::Html, body: Body::Text("<p>gone</p>".to_string()) })
    );
    assert_eq!(four_oh_four(Err(())), Outcome::Fail { status: 500, message: "Template error".to_string() });
}

#[test]
fn method_not_allowed_is_empty_405() {
    assert_eq!(method_not_allowed(), Reply { status: 405, content_type: ContentType::Unset, body: Body::Empty });
}

#[test]
fn not_found_page_template_name() {
    assert_eq!(not_found_template(), "not_found.html");
}
