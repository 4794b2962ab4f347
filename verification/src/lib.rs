//! Viewstamped replication: a replicated operation log with quorum commit,
//! at-most-once client requests and primary failover by view change.

pub mod error;
pub mod log;
pub mod message;
pub mod replica;
pub mod state;
pub mod storage;
pub mod transport;
