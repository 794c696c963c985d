//! The Link operation: re-establish a stored entry via a symbolic link.

use vstd::prelude::*;

use super::Execute;
use crate::error::KpvError;
use crate::storage::FsNode;
use crate::storage::Storage;
use crate::storage::entry_path;
use crate::storage::key_known;

verus! {

/// Link the stored entry for `key` to `dest_path`: the key must have a
/// stored entry, else the command fails with `KeyNotFound`; the destination
/// must be free of any entry (a dangling link counts as occupied), else it
/// fails with `EnvAlreadyExists`. Only then does the backend create the
/// link. The stored data is never changed, and nothing is created on
/// failure.
pub struct LinkCommand<'a> {
    pub key: &'a str,
    pub dest_path: &'a str,
}

impl<'a> Execute<()> for LinkCommand<'a> {
    fn execute<S: Storage>(&self, storage: &mut S) -> (r: Result<(), KpvError>)
        ensures
            final(storage).root() == old(storage).root(),
            final(storage).infallible() == old(storage).infallible(),
            final(storage).vault() == old(storage).vault(),
            r is Err ==> final(storage).world() == old(storage).world(),
            !key_known(old(storage).vault(), self.key@) ==> (r matches Err(
                KpvError::KeyNotFound(k),
            ) && k@ == self.key@),
            key_known(old(storage).vault(), self.key@) && old(storage).world().contains_key(
                self.dest_path@,
            ) ==> r matches Err(KpvError::EnvAlreadyExists),
            r is Ok ==> key_known(old(storage).vault(), self.key@)
                && !old(storage).world().contains_key(self.dest_path@)
                && final(storage).world() == old(storage).world().insert(
                self.dest_path@,
                FsNode::Symlink(entry_path(old(storage).root(), self.key@)),
            ),
            old(storage).infallible() && key_known(old(storage).vault(), self.key@)
                && !old(storage).world().contains_key(self.dest_path@) ==> r is Ok,
    {
        if !storage.check_key_exists(self.key) {
            return Err(KpvError::key_not_found(self.key));
        }
        if storage.path_exists(self.dest_path) {
            return Err(KpvError::EnvAlreadyExists);
        }
        storage.link_env(self.key, self.dest_path)
    }
}

} // verus!
