//! A store-and-forward mail spool: the rules of the outbox daemon, verified.

pub mod area;
pub mod dispatch;
pub mod intake;
pub mod ipc;
pub mod laws;
pub mod message;
pub mod names;
pub mod recovery;
pub mod report;
pub mod shutdown;
pub mod spool;
