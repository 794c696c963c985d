//! The command operations: thin orchestration values, each executed once
//! against a storage backend.

pub mod delete;
pub mod link;
pub mod list;
pub mod save;

use vstd::prelude::*;

use crate::error::KpvError;
use crate::storage::Storage;

verus! {

/// A single-shot command executed against a storage backend. Each
/// implementation carries its own contract; re-execution is legal and
/// repeats the same logic.
pub trait Execute<R> {
    fn execute<S: Storage>(&self, storage: &mut S) -> Result<R, KpvError>;
}

} // verus!
