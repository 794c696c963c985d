//! The Delete operation: remove a stored key, idempotently.

use vstd::prelude::*;

use super::Execute;
use crate::error::ErrorKind;
use crate::error::KpvError;
use crate::storage::Storage;
use crate::storage::valid_key;

verus! {

/// Delete the stored entry for `key`, along with its directory. Deleting an
/// absent key succeeds silently; deleting an invalid key string still fails
/// validation, since invalid keys never map to any stored entry.
pub struct DeleteCommand<'a> {
    pub key: &'a str,
}

impl<'a> Execute<()> for DeleteCommand<'a> {
    fn execute<S: Storage>(&self, storage: &mut S) -> (r: Result<(), KpvError>)
        ensures
            final(storage).root() == old(storage).root(),
            final(storage).infallible() == old(storage).infallible(),
            final(storage).world() == old(storage).world(),
            !valid_key(self.key@) ==> r matches Err(KpvError::Io(ErrorKind::InvalidInput)),
            r is Ok ==> valid_key(self.key@)
                && final(storage).vault() == old(storage).vault().remove(self.key@),
            r is Err ==> final(storage).vault() == old(storage).vault(),
            old(storage).infallible() && valid_key(self.key@) ==> r is Ok,
    {
        storage.delete_env(self.key)
    }
}

} // verus!
