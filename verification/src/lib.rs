//! Order-book synchronization and publishing: seed an authoritative
//! book from a point-in-time snapshot, fold an incremental diff stream
//! into it under a sequence-continuity rule with resync on gaps and on
//! queue overflow, translate changed levels into normalized order
//! records, and account for their delivery to a message bus.

pub mod book;
pub mod entropy;
pub mod gen;
pub mod parse;
pub mod pipeline;
pub mod queue;
pub mod record;
pub mod text;
