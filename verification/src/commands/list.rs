//! The List operation: enumerate the stored keys in sorted order.

use vstd::prelude::*;

use super::Execute;
use crate::error::KpvError;
use crate::storage::Storage;
use crate::text::sort_keys;
use crate::text::sorted_names;
use crate::text::views_of;

verus! {

/// List the stored keys, sorted lexicographically by code point. An empty
/// vault yields an empty sequence, not an error.
pub struct ListCommand;

impl Execute<Vec<String>> for ListCommand {
    fn execute<S: Storage>(&self, storage: &mut S) -> (r: Result<Vec<String>, KpvError>)
        ensures
            *final(storage) == *old(storage),
            r matches Ok(keys) ==> {
                &&& sorted_names(keys@)
                &&& views_of(keys@).no_duplicates()
                &&& views_of(keys@).to_set() == old(storage).vault().dom()
            },
            old(storage).infallible() ==> r is Ok,
    {
        let keys = match storage.list_keys() {
            Ok(keys) => keys,
            Err(e) => {
                return Err(e);
            },
        };
        let ghost raw = keys@;
        let sorted = sort_keys(keys);
        proof {
            broadcast use vstd::seq_lib::group_to_multiset_ensures;

            let before = views_of(raw);
            let after = views_of(sorted@);
            before.lemma_multiset_has_no_duplicates();
            after.lemma_multiset_has_no_duplicates_conv();
            assert forall|k: Seq<char>| after.to_set().contains(k) == before.to_set().contains(
                k,
            ) by {
                assert(after.contains(k) <==> after.to_multiset().count(k) > 0);
                assert(before.contains(k) <==> before.to_multiset().count(k) > 0);
            }
            assert(after.to_set() =~= before.to_set());
        }
        Ok(sorted)
    }
}

} // verus!
