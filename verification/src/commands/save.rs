//! The Save operation: persist a source file as the stored entry for a key.

use vstd::prelude::*;

use super::Execute;
use crate::error::ErrorKind;
use crate::error::KpvError;
use crate::storage::FsNode;
use crate::storage::Storage;
use crate::storage::valid_key;

verus! {

/// Whether the world holds a regular file at `path`.
pub open spec fn source_is_file(world: Map<Seq<char>, FsNode>, path: Seq<char>) -> bool {
    world.contains_key(path) && world[path] is File
}

/// Save `source_path` under `key`: the source must exist and be a regular
/// file, else the command fails with `EnvFileNotFound` before any storage
/// call; then the storage backend persists it, overwriting a prior entry.
pub struct SaveCommand<'a> {
    pub key: &'a str,
    pub source_path: &'a str,
}

impl<'a> Execute<()> for SaveCommand<'a> {
    fn execute<S: Storage>(&self, storage: &mut S) -> (r: Result<(), KpvError>)
        ensures
            final(storage).root() == old(storage).root(),
            final(storage).infallible() == old(storage).infallible(),
            final(storage).world() == old(storage).world(),
            r is Err ==> final(storage).vault() == old(storage).vault(),
            !source_is_file(old(storage).world(), self.source_path@) ==> r matches Err(
                KpvError::EnvFileNotFound,
            ),
            source_is_file(old(storage).world(), self.source_path@) && !valid_key(self.key@)
                ==> r matches Err(KpvError::Io(ErrorKind::InvalidInput)),
            r is Ok ==> valid_key(self.key@) && source_is_file(
                old(storage).world(),
                self.source_path@,
            ) && (old(storage).world()[self.source_path@] matches FsNode::File(b)
                && final(storage).vault() == old(storage).vault().insert(self.key@, b)),
            old(storage).infallible() && valid_key(self.key@) && source_is_file(
                old(storage).world(),
                self.source_path@,
            ) ==> r is Ok,
    {
        if !storage.path_is_file(self.source_path) {
            return Err(KpvError::EnvFileNotFound);
        }
        storage.save_env(self.key, self.source_path)
    }
}

} // verus!
