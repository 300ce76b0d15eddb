//! Verified core of a group-commit write-ahead log for agent state
//! transitions: the record model, the wire codec, the bounded mailbox,
//! the commit cycle, and the durable-log invariant.

pub mod record;
pub mod codec;
pub mod mailbox;
pub mod commit;
pub mod subseq;
pub mod wal;
