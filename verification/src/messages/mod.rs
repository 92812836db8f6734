//! Managed requests over the Messages wire format.

pub mod calls;
pub mod mapper;
pub mod schema_refs;
pub mod stream;
pub mod usage;
