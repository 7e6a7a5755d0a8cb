//! Brain's journal engine: record framing, retention metering, session projections and the
//! reference in-memory store, with their contracts.

pub mod text;
pub mod bytes;
pub mod error;
pub mod message;
pub mod vocab;
pub mod records;
pub mod retention;
pub mod frame;
pub mod digest;
pub mod names;
pub mod docs;
pub mod fold;
pub mod session;
pub mod projection;
pub mod keys;
pub mod limits;
pub mod keyed;
pub mod decision;
pub mod memory;
pub mod writer;
pub mod local;
pub mod order;
pub mod journal;
pub mod journal_check;
