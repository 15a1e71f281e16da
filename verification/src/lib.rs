//! Agent registration and message relay for a small monitoring server.
//!
//! The crate holds the decisions of the server: which sessions a message from
//! an agent is relayed to, how a websocket session answers frames, how a
//! registration talks to the database, what each route replies, and which
//! endpoint serves a request. The I/O around them lives in the binary.

pub mod agent_server;
pub mod ws;
pub mod models;
pub mod db;
pub mod http;
pub mod handlers;
pub mod routes;
