// A parallel block executor in the block-STM style: transactions of a block run
// speculatively against a multi-version store, a scheduler hands out execution and
// validation tasks and commits positions in order, the driver's decisions on each
// task outcome and at the end of a block are verified functions (the threads that run
// them live outside), and aggregator deltas are materialized against the base state
// once the block is committed. Also the
// decisions of the quorum store wrapper and the token indexer's resource helpers.

use vstd::prelude::*;

pub mod delta;
pub mod executor;
pub mod laws;
pub mod mvhashmap;
pub mod output;
pub mod parallel;
pub mod quorum_store;
pub mod resolver;
pub mod scheduler;
pub mod sequential;
pub mod v2_token_utils;

verus! {

} // verus!
