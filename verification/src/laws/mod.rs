//! What the runtime promises of its operations, over all of their inputs: what reaches a tool, what
//! reaches the model, and what reaches the client.

pub mod backends;
pub mod calls;
pub mod streams;
pub mod imports;
pub mod declarations;
pub mod messages;
pub mod programs;
pub mod sandboxes;
pub mod budgets;
pub mod observations;
pub mod answers;
pub mod texts;
pub mod refusals;
