//! Publication of versioned repository snapshots as a directory tree for an
//! rsync server: revision naming, the durable revision ledger and its text
//! encoding, and the planning of each publication cycle as an ordered list of
//! filesystem steps.

pub mod error;
pub mod revision;
pub mod ledger;
pub mod codec;
pub mod publish;
