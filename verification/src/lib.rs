//! Webhook-fed enrichment pipeline: signature-authenticated intake into a
//! durable queue of pending entries, and a bounded-concurrency drain cycle
//! that summarizes each eligible entry through an external service and
//! commits the enriched content back to the content store, deleting the
//! entry from the queue only after a confirmed commit.

pub mod clients;
pub mod drain;
pub mod entry;
pub mod intake;
pub mod queue;
pub mod sig;
pub mod window;
