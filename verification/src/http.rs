use vstd::prelude::*;

use crate::models::Agent;

verus! {

/// The request methods that routing tells apart.
#[derive(Clone, Copy, Debug, PartialEq, Eq, Structural)]
pub enum Method {
    Get,
    Post,
    Other,
}

/// The content type a reply declares.
#[derive(Clone, Copy, Debug, PartialEq, Eq, Structural)]
pub enum ContentType {
    /// `text/html`
    Html,
    /// `application/json`
    Json,
    /// No content type set.
    Unset,
}

/// The body of a reply.
#[derive(Debug, Clone, PartialEq, Eq)]
pub enum Body {
    Empty,
    /// The text as it is.
    Text(String),
    /// The agent, serialized as a JSON object.
    AgentJson(Agent),
    /// The text, serialized as a JSON string.
    JsonText(String),
}

/// A reply sent to the client.
#[derive(Debug, Clone, PartialEq, Eq)]
pub struct Reply {
    pub status: u16,
    pub content_type: ContentType,
    pub body: Body,
}

/// What a handler ends with: a reply, or a failure the framework answers
/// with the status alone (the message is kept for the log).
#[derive(Debug, Clone, PartialEq, Eq)]
pub enum Outcome {
    Respond(Reply),
    Fail { status: u16, message: String },
}

} // verus!
