//! Verified core of a Sui checkpoint indexer: which checkpoints are sampled,
//! how a checkpoint's transactions and object changes become table rows, how
//! rows are split into insert statements, and how balance changes are
//! batched and narrowed to their stored width.

pub mod sampling;
pub mod models;
pub mod chain;
pub mod counting;
pub mod checkpoint;
pub mod chunks;
pub mod commit;
pub mod balance;
