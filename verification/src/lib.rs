//! Live edit capture: text deltas, the documents they rebuild, the rules that
//! turn file writes into journal entries, session bookkeeping and the table of
//! active watches.

pub mod delta;
pub mod diff;
pub mod document;
pub mod recorder;
pub mod session;
pub mod registry;
pub mod oplog;
