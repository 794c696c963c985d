//! The laws the vault obeys, stated over the same storage model that the
//! commands' contracts use and proved once and for all.

use vstd::prelude::*;

use vstd::relations::sorted_by;
use vstd::seq_lib::lemma_sorted_unique;

use crate::storage::FsNode;
use crate::storage::entry_path;
use crate::storage::key_known;
use crate::storage::lemma_entry_path_round_trip;
use crate::storage::read_through;
use crate::storage::valid_key;
use crate::text::lemma_lex_le_total_ordering;
use crate::text::lex_le;
use crate::text::lex_le_order;
use crate::text::sorted_names;
use crate::text::views_of;

verus! {

/// A successful save makes its key known: for every valid key, saving and
/// then checking existence reports true.
pub proof fn lemma_save_then_key_known(
    vault: Map<Seq<char>, Seq<u8>>,
    key: Seq<char>,
    content: Seq<u8>,
)
    requires
        valid_key(key),
    ensures
        key_known(vault.insert(key, content), key),
{
}

/// An invalid key string is never known, in any vault state.
pub proof fn lemma_invalid_key_never_known(vault: Map<Seq<char>, Seq<u8>>, key: Seq<char>)
    requires
        !valid_key(key),
    ensures
        !key_known(vault, key),
{
}

/// Save is overwrite-idempotent: saving twice under one key leaves exactly
/// the second content persisted, and the vault as if only the second save
/// had run.
pub proof fn lemma_save_overwrites(
    vault: Map<Seq<char>, Seq<u8>>,
    key: Seq<char>,
    first: Seq<u8>,
    second: Seq<u8>,
)
    ensures
        vault.insert(key, first).insert(key, second) == vault.insert(key, second),
        vault.insert(key, first).insert(key, second)[key] == second,
{
    assert(vault.insert(key, first).insert(key, second) =~= vault.insert(key, second));
}

/// Delete is idempotent: deleting a key twice leaves the same vault as
/// deleting it once, and afterwards the key has no stored entry.
pub proof fn lemma_delete_idempotent(vault: Map<Seq<char>, Seq<u8>>, key: Seq<char>)
    ensures
        vault.remove(key).remove(key) == vault.remove(key),
        !vault.remove(key).contains_key(key),
{
    assert(vault.remove(key).remove(key) =~= vault.remove(key));
}

/// Two duplicate-free sequences holding the same elements hold the same
/// multiset of elements.
proof fn lemma_no_dup_same_set_same_multiset<A>(x: Seq<A>, y: Seq<A>)
    requires
        x.no_duplicates(),
        y.no_duplicates(),
        x.to_set() == y.to_set(),
    ensures
        x.to_multiset() == y.to_multiset(),
{
    broadcast use vstd::seq_lib::group_to_multiset_ensures;

    x.lemma_multiset_has_no_duplicates();
    y.lemma_multiset_has_no_duplicates();
    assert forall|a: A| x.to_multiset().count(a) == y.to_multiset().count(a) by {
        assert(x.to_set().contains(a) == y.to_set().contains(a));
        if x.to_set().contains(a) {
            assert(x.contains(a));
            assert(x.to_multiset().count(a) > 0);
            assert(x.to_multiset().contains(a));
            assert(x.to_multiset().count(a) == 1);
            assert(y.contains(a));
            assert(y.to_multiset().count(a) > 0);
            assert(y.to_multiset().contains(a));
            assert(y.to_multiset().count(a) == 1);
        } else {
            assert(!x.contains(a));
            assert(x.to_multiset().count(a) == 0);
            assert(!y.contains(a));
            assert(y.to_multiset().count(a) == 0);
        }
    }
    assert(x.to_multiset() =~= y.to_multiset());
}

/// List is deterministic: two sorted, duplicate-free listings of the same
/// keys show the same names, so repeated calls with no intervening save or
/// delete return the same sequence.
pub proof fn lemma_list_stable(xs: Seq<String>, ys: Seq<String>)
    requires
        sorted_names(xs),
        sorted_names(ys),
        views_of(xs).no_duplicates(),
        views_of(ys).no_duplicates(),
        views_of(xs).to_set() == views_of(ys).to_set(),
    ensures
        views_of(xs) == views_of(ys),
{
    let leq = lex_le_order();
    lemma_lex_le_total_ordering();
    let vx = views_of(xs);
    let vy = views_of(ys);
    assert forall|i: int, j: int| 0 <= i < j < vx.len() implies #[trigger] leq(vx[i], vx[j]) by {
        assert(lex_le(xs[i]@, xs[j]@));
    }
    assert forall|i: int, j: int| 0 <= i < j < vy.len() implies #[trigger] leq(vy[i], vy[j]) by {
        assert(lex_le(ys[i]@, ys[j]@));
    }
    assert(sorted_by(vx, leq));
    assert(sorted_by(vy, leq));
    lemma_no_dup_same_set_same_multiset(vx, vy);
    lemma_sorted_unique(vx, vy, leq);
    assert(vx =~= vy);
}

/// Round trip: after saving bytes under a key and linking that key to a
/// destination, reading through the link at the destination yields exactly
/// those bytes.
pub proof fn lemma_round_trip(
    root: Seq<char>,
    vault: Map<Seq<char>, Seq<u8>>,
    world: Map<Seq<char>, FsNode>,
    key: Seq<char>,
    dest: Seq<char>,
    bytes: Seq<u8>,
)
    requires
        valid_key(key),
        vault.contains_key(key),
        vault[key] == bytes,
        world.contains_key(dest),
        world[dest] == FsNode::Symlink(entry_path(root, key)),
    ensures
        read_through(root, vault, world, dest) == Some(bytes),
{
    lemma_entry_path_round_trip(root, key);
}

} // verus!
