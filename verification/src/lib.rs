//! Bounded execution of operator-managed tools for model conversations.

pub mod address;
pub mod backend;
pub mod budget;
pub mod calls;
pub mod config;
pub mod conversation;
pub mod decode;
pub mod direct;
pub mod discovery;
pub mod e2b;
pub mod error;
pub mod fields;
pub mod gateway;
pub mod http_backend;
pub mod json;
pub mod laws;
pub mod mapper;
pub mod messages;
pub mod operations;
pub mod output;
pub mod program;
pub mod registry;
pub mod remote_client;
pub mod remote_tool;
pub mod request;
pub mod rounds;
pub mod runner;
pub mod runtime;
pub mod sandbox_run;
pub mod schema;
pub mod serde_value;
pub mod streaming;
pub mod table;
pub mod telemetry;
pub mod text;
pub mod time;
pub mod uri;
pub mod url;
pub mod usage;

use vstd::prelude::*;

verus! {

} // verus!
