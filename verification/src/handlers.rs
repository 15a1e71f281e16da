use vstd::prelude::*;
use vstd::utf8::*;
use vstd::string::*;

use crate::agent_server::ClientMessage;
use crate::db::{RegisterAgent, RegisterError};
use crate::http::{Body, ContentType, Outcome, Reply};
use crate::models::Agent;

verus! {

broadcast use encode_utf8_decode_utf8, encode_utf8_valid_utf8;

/// The body of a registration request.
#[derive(Debug, Clone, PartialEq, Eq)]
pub struct RegisterAgentPayload {
    pub hostname: String,
    pub ip: String,
}

/// The error text a failed registration answers with, as a JSON string.
pub open spec fn register_error_text() -> Seq<char> {
    "{ \"error\": \"An internal server error occurred.\" }"@
}

/// The registration request sent to the database for a payload.
pub fn register_message(payload: RegisterAgentPayload) -> (m: RegisterAgent)
    ensures
        m.hostname == payload.hostname,
        m.ip == payload.ip,
{
    RegisterAgent { hostname: payload.hostname, ip: payload.ip }
}

/// The reply of the registration route once the database answered: the
/// stored agent as JSON, or a 500 with the fixed error text.
pub fn register(result: Result<Agent, RegisterError>) -> (r: Reply)
    ensures
        result matches Ok(a) ==> r == (Reply { status: 200, content_type: ContentType::Json, body: Body::AgentJson(a) }),
        result is Err ==> {
            &&& r.status == 500
            &&& r.content_type == ContentType::Json
            &&& r.body matches Body::JsonText(t) && t@ == register_error_text()
        },
{
    match result {
        Ok(agent) => Reply { status: 200, content_type: ContentType::Json, body: Body::AgentJson(agent) },
        Err(_) => Reply {
            status: 500,
            content_type: ContentType::Json,
            body: Body::JsonText("{ \"error\": \"An internal server error occurred.\" }".to_owned()),
        },
    }
}

/// Reads `bytes` as UTF-8 with `std::str::from_utf8`. As std documents it,
/// the call succeeds exactly on valid UTF-8 and the text it returns is
/// made of those very bytes.
#[verifier::external_body]
fn utf8_text(bytes: &[u8]) -> (r: Option<&str>)
    ensures
        r is Some <==> valid_utf8(bytes@),
        r matches Some(s) ==> s.spec_bytes() == bytes@,
{
    std::str::from_utf8(bytes).ok()
}

/// Whether `r` is the reply of the data route: 200, HTML, body `OK`.
pub open spec fn is_data_reply(r: Reply) -> bool {
    &&& r.status == 200
    &&& r.content_type == ContentType::Html
    &&& r.body matches Body::Text(t) && t@ == "OK"@
}

/// What the data route does with a posted body: the text of the body is
/// relayed to the sessions, and the poster is answered `OK`. The body must
/// be valid UTF-8.
pub fn data(body: &[u8]) -> (r: (ClientMessage, Reply))
    requires
        valid_utf8(body@),
    ensures
        r.0.msg@ == decode_utf8(body@),
        is_data_reply(r.1),
{
    let text = utf8_text(body).unwrap();
    let msg = ClientMessage { msg: text.to_owned() };
    proof {
        assert(decode_utf8(encode_utf8(text@)) == text@);
    }
    (msg, Reply { status: 200, content_type: ContentType::Html, body: Body::Text("OK".to_owned()) })
}

/// The data route on any body: `None` where the body is not valid UTF-8.
pub fn try_data(body: &[u8]) -> (r: Option<(ClientMessage, Reply)>)
    ensures
        r is Some <==> valid_utf8(body@),
        r matches Some(p) ==> p.0.msg@ == decode_utf8(body@) && is_data_reply(p.1),
{
    match utf8_text(body) {
        Some(_) => Some(data(body)),
        None => None,
    }
}

/// What the index route does once the agents were listed: render the
/// template with the agents bound to one context key, or answer 500.
#[derive(Debug, Clone, PartialEq, Eq)]
pub enum IndexStep {
    Render { template: String, key: String, agents: Vec<Agent> },
    Reply(Outcome),
}

/// The index route after listing the agents: the agents, in the order they
/// were listed, go under the key `agents` to the template `index.html`; a
/// failed listing answers 500 with the body `An error occurred`.
pub fn index(listed: Result<Vec<Agent>, ()>) -> (s: IndexStep)
    ensures
        listed matches Ok(v) ==> (s matches IndexStep::Render { template, key, agents } && {
            &&& template@ == "index.html"@
            &&& key@ == "agents"@
            &&& agents == v
        }),
        listed is Err ==> (s matches IndexStep::Reply(Outcome::Respond(r)) && {
            &&& r.status == 500
            &&& r.content_type == ContentType::Unset
            &&& r.body matches Body::Text(t) && t@ == "An error occurred"@
        }),
{
    match listed {
        Ok(agents) => IndexStep::Render {
            template: "index.html".to_owned(),
            key: "agents".to_owned(),
            agents,
        },
        Err(_) => IndexStep::Reply(Outcome::Respond(Reply {
            status: 500,
            content_type: ContentType::Unset,
            body: Body::Text("An error occurred".to_owned()),
        })),
    }
}

/// The index route after rendering: the page as HTML, or a 500 failure
/// carrying the template engine's description of the error.
pub fn index_rendered(rendered: Result<String, String>) -> (o: Outcome)
    ensures
        rendered matches Ok(html) ==> (o == Outcome::Respond(Reply { status: 200, content_type: ContentType::Html, body: Body::Text(html) })),
        rendered matches Err(e) ==> (o == Outcome::Fail { status: 500, message: e }),
{
    match rendered {
        Ok(html) => Outcome::Respond(Reply { status: 200, content_type: ContentType::Html, body: Body::Text(html) }),
        Err(e) => Outcome::Fail { status: 500, message: e },
    }
}

/// The template of the page for an unknown path, rendered with an empty
/// context.
pub fn not_found_template() -> (t: String)
    ensures
        t@ == "not_found.html"@,
{
    "not_found.html".to_owned()
}

/// The page for an unknown path: the rendered page with status 404, or a
/// 500 failure `Template error` where the template did not render.
pub fn four_oh_four(rendered: Result<String, ()>) -> (o: Outcome)
    ensures
        rendered matches Ok(page) ==> (o == Outcome::Respond(Reply { status: 404, content_type: ContentType::Html, body: Body::Text(page) })),
        rendered is Err ==> (o matches Outcome::Fail { status, message } && status == 500 && message@ == "Template error"@),
{
    match rendered {
        Ok(page) => Outcome::Respond(Reply { status: 404, content_type: ContentType::Html, body: Body::Text(page) }),
        Err(_) => Outcome::Fail { status: 500, message: "Template error".to_owned() },
    }
}

/// The answer to a request no route takes with its method: 405, empty.
pub fn method_not_allowed() -> (r: Reply)
    ensures
        r == (Reply { status: 405, content_type: ContentType::Unset, body: Body::Empty }),
{
    Reply { status: 405, content_type: ContentType::Unset, body: Body::Empty }
}

/// Posting a text relays exactly that text: the body of a valid string,
/// as its UTF-8 bytes, is accepted and decodes back to the string.
pub proof fn lemma_data_relays_posted_text(text: Seq<char>)
    ensures
        valid_utf8(encode_utf8(text)),
        decode_utf8(encode_utf8(text)) == text,
{
}

} // verus!
