//! Character-level string comparison and sorting, verified against the
//! `Seq<char>` views.

use vstd::prelude::*;

use vstd::multiset::Multiset;
use vstd::seq_lib::lemma_multiset_commutative;

verus! {

/// Lexicographic order on character sequences, by code point.
pub open spec fn lex_le(a: Seq<char>, b: Seq<char>) -> bool
    decreases a.len(),
{
    if a.len() == 0 {
        true
    } else if b.len() == 0 {
        false
    } else if (a[0] as int) < (b[0] as int) {
        true
    } else if (b[0] as int) < (a[0] as int) {
        false
    } else {
        lex_le(a.drop_first(), b.drop_first())
    }
}

/// Two characters with the same code point are the same character.
proof fn lemma_char_injective(a: char, b: char)
    requires
        a as int == b as int,
    ensures
        a == b,
{
}

/// The character views of a sequence of strings.
pub open spec fn views_of(s: Seq<String>) -> Seq<Seq<char>> {
    s.map_values(|x: String| x@)
}

/// A sequence of strings in lexicographic order.
pub open spec fn sorted_names(s: Seq<String>) -> bool {
    forall|i: int, j: int| 0 <= i < j < s.len() ==> lex_le(#[trigger] s[i]@, #[trigger] s[j]@)
}

/// The order is reflexive.
pub proof fn lemma_lex_le_reflexive(a: Seq<char>)
    ensures
        lex_le(a, a),
    decreases a.len(),
{
    if a.len() > 0 {
        lemma_lex_le_reflexive(a.drop_first());
    }
}

/// The order is total: one direction always holds.
pub proof fn lemma_lex_le_total(a: Seq<char>, b: Seq<char>)
    ensures
        lex_le(a, b) || lex_le(b, a),
    decreases a.len(),
{
    if a.len() > 0 && b.len() > 0 && a[0] as int == b[0] as int {
        lemma_lex_le_total(a.drop_first(), b.drop_first());
    }
}

/// The order is antisymmetric.
pub proof fn lemma_lex_le_antisym(a: Seq<char>, b: Seq<char>)
    requires
        lex_le(a, b),
        lex_le(b, a),
    ensures
        a == b,
    decreases a.len(),
{
    if a.len() == 0 {
        assert(b.len() == 0);
        assert(a =~= b);
    } else {
        assert(b.len() > 0);
        lemma_char_injective(a[0], b[0]);
        lemma_lex_le_antisym(a.drop_first(), b.drop_first());
        assert forall|i: int| 0 <= i < a.len() implies a[i] == b[i] by {
            if i > 0 {
                assert(a.drop_first()[i - 1] == b.drop_first()[i - 1]);
            }
        }
        assert(a =~= b);
    }
}

/// The order is transitive.
pub proof fn lemma_lex_le_trans(a: Seq<char>, b: Seq<char>, c: Seq<char>)
    requires
        lex_le(a, b),
        lex_le(b, c),
    ensures
        lex_le(a, c),
    decreases a.len(),
{
    if a.len() > 0 && b.len() > 0 && c.len() > 0 && a[0] as int == b[0] as int && b[0] as int
        == c[0] as int {
        lemma_lex_le_trans(a.drop_first(), b.drop_first(), c.drop_first());
    }
}

/// The lexicographic order as a relation value.
pub open spec fn lex_le_order() -> spec_fn(Seq<char>, Seq<char>) -> bool {
    |a: Seq<char>, b: Seq<char>| lex_le(a, b)
}

/// The lexicographic order is a total order.
pub proof fn lemma_lex_le_total_ordering()
    ensures
        vstd::relations::total_ordering(lex_le_order()),
{
    let leq = lex_le_order();
    assert forall|x: Seq<char>| #[trigger] leq(x, x) by {
        lemma_lex_le_reflexive(x);
    }
    assert forall|x: Seq<char>, y: Seq<char>| #[trigger] leq(x, y) && #[trigger] leq(y, x)
        implies x == y by {
        lemma_lex_le_antisym(x, y);
    }
    assert forall|x: Seq<char>, y: Seq<char>, z: Seq<char>|
        #[trigger] leq(x, y) && #[trigger] leq(y, z) implies leq(x, z) by {
        lemma_lex_le_trans(x, y, z);
    }
    assert forall|x: Seq<char>, y: Seq<char>| #[trigger] leq(x, y) || #[trigger] leq(y, x) by {
        lemma_lex_le_total(x, y);
    }
}

/// Skipping a shared prefix does not change how two sequences compare.
proof fn lemma_lex_le_step(a: Seq<char>, b: Seq<char>)
    requires
        a.len() > 0,
        b.len() > 0,
        a[0] as int == b[0] as int,
    ensures
        lex_le(a, b) == lex_le(a.drop_first(), b.drop_first()),
{
}

/// Whether two strings hold the same characters.
pub fn str_eq(a: &str, b: &str) -> (r: bool)
    ensures
        r == (a@ == b@),
{
    let na = a.unicode_len();
    let nb = b.unicode_len();
    if na != nb {
        return false;
    }
    let mut i: usize = 0;
    while i < na
        invariant
            na == a@.len(),
            na == b@.len(),
            i <= na,
            forall|j: int| 0 <= j < i ==> a@[j] == b@[j],
        decreases na - i,
    {
        if a.get_char(i) != b.get_char(i) {
            return false;
        }
        i += 1;
    }
    proof {
        assert(a@ =~= b@);
    }
    true
}

/// Whether `a` comes no later than `b` in lexicographic order.
pub fn str_le(a: &str, b: &str) -> (r: bool)
    ensures
        r == lex_le(a@, b@),
{
    let na = a.unicode_len();
    let nb = b.unicode_len();
    let mut i: usize = 0;
    proof {
        assert(a@.skip(0) =~= a@);
        assert(b@.skip(0) =~= b@);
    }
    while i < na && i < nb
        invariant
            na == a@.len(),
            nb == b@.len(),
            i <= na,
            i <= nb,
            lex_le(a@, b@) == lex_le(a@.skip(i as int), b@.skip(i as int)),
        decreases na - i,
    {
        let ca = a.get_char(i);
        let cb = b.get_char(i);
        proof {
            assert(a@.skip(i as int)[0] == a@[i as int]);
            assert(b@.skip(i as int)[0] == b@[i as int]);
        }
        if (ca as u32) < (cb as u32) {
            return true;
        }
        if (cb as u32) < (ca as u32) {
            return false;
        }
        proof {
            lemma_lex_le_step(a@.skip(i as int), b@.skip(i as int));
            assert(a@.skip(i as int).drop_first() =~= a@.skip(i as int + 1));
            assert(b@.skip(i as int).drop_first() =~= b@.skip(i as int + 1));
        }
        i += 1;
    }
    proof {
        if i == na {
            assert(a@.skip(i as int).len() == 0);
        } else {
            assert(b@.skip(i as int).len() == 0);
            assert(a@.skip(i as int).len() > 0);
        }
    }
    i == na
}

/// Inserting an element anywhere adds exactly it to the multiset.
proof fn lemma_insert_to_multiset<A>(s: Seq<A>, i: int, x: A)
    requires
        0 <= i <= s.len(),
    ensures
        s.insert(i, x).to_multiset() == s.to_multiset().insert(x),
{
    broadcast use vstd::seq_lib::group_to_multiset_ensures;

    let pre = s.subrange(0, i);
    let post = s.subrange(i, s.len() as int);
    assert(s.insert(i, x) == pre.push(x) + post);
    lemma_multiset_commutative(pre.push(x), post);
    assert(s =~= pre + post);
    lemma_multiset_commutative(pre, post);
    assert(pre.push(x).to_multiset() =~= pre.to_multiset().insert(x));
    assert(s.insert(i, x).to_multiset() =~= s.to_multiset().insert(x));
}

/// Insert a string into an already sorted vector, keeping it sorted.
fn insert_sorted(out: &mut Vec<String>, x: String)
    requires
        sorted_names(old(out)@),
    ensures
        sorted_names(final(out)@),
        views_of(final(out)@).to_multiset() == views_of(old(out)@).to_multiset().insert(x@),
{
    let ghost before = out@;
    let mut idx: usize = 0;
    while idx < out.len() && str_le(out[idx].as_str(), x.as_str())
        invariant
            out@ == before,
            idx <= out@.len(),
            forall|k: int| 0 <= k < idx ==> lex_le(#[trigger] out@[k]@, x@),
        decreases out@.len() - idx,
    {
        idx += 1;
    }
    proof {
        if (idx as int) < before.len() {
            lemma_lex_le_total(before[idx as int]@, x@);
            assert(lex_le(x@, before[idx as int]@));
        }
    }
    out.insert(idx, x);
    proof {
        before.insert_ensures(idx as int, x);
        let after = out@;
        assert forall|i: int, j: int| 0 <= i < j < after.len() implies lex_le(
            #[trigger] after[i]@,
            #[trigger] after[j]@,
        ) by {
            if i == idx as int {
                assert(after[j] == before[j - 1]);
                if j - 1 == idx as int {
                    assert(lex_le(x@, before[idx as int]@));
                } else {
                    assert(lex_le(before[idx as int]@, before[j - 1]@));
                    lemma_lex_le_trans(x@, before[idx as int]@, before[j - 1]@);
                }
            } else if j == idx as int {
                assert(lex_le(after[i]@, x@));
            } else if i < idx as int && j > idx as int {
                assert(after[i] == before[i]);
                assert(after[j] == before[j - 1]);
                if j - 1 == i {
                    lemma_lex_le_reflexive(before[i]@);
                } else {
                    assert(lex_le(before[i]@, before[j - 1]@));
                }
            } else if j < idx as int {
                assert(after[i] == before[i]);
                assert(after[j] == before[j]);
            } else {
                assert(after[i] == before[i - 1]);
                assert(after[j] == before[j - 1]);
            }
        }
        lemma_insert_to_multiset(views_of(before), idx as int, x@);
        assert(views_of(after) =~= views_of(before).insert(idx as int, x@));
    }
}

/// Sort strings into lexicographic order; the collection of strings, as
/// character sequences, is unchanged.
pub fn sort_keys(v: Vec<String>) -> (r: Vec<String>)
    ensures
        sorted_names(r@),
        views_of(r@).to_multiset() == views_of(v@).to_multiset(),
{
    broadcast use vstd::seq_lib::group_to_multiset_ensures;
    broadcast use vstd::multiset::group_multiset_axioms;

    let ghost all = views_of(v@);
    let mut rest = v;
    let mut out: Vec<String> = Vec::new();
    proof {
        assert(views_of(out@).to_multiset() =~= Multiset::<Seq<char>>::empty());
        assert(views_of(rest@) == all);
    }
    while rest.len() > 0
        invariant
            sorted_names(out@),
            views_of(out@).to_multiset().add(views_of(rest@).to_multiset()) == all.to_multiset(),
        decreases rest@.len(),
    {
        let ghost rest_pre = rest@;
        let x = rest.pop().unwrap();
        proof {
            assert(views_of(rest_pre) =~= views_of(rest@).push(x@));
            views_of(rest@).to_multiset_ensures();
            assert(views_of(rest@).push(x@).to_multiset() =~= views_of(rest@).to_multiset().insert(
                x@,
            ));
            assert(views_of(rest_pre).to_multiset() =~= views_of(rest@).to_multiset().insert(x@));
        }
        insert_sorted(&mut out, x);
        proof {
            assert(views_of(out@).to_multiset().add(views_of(rest@).to_multiset())
                =~= all.to_multiset());
        }
    }
    proof {
        assert(views_of(rest@).to_multiset() =~= Multiset::<Seq<char>>::empty());
        assert(views_of(out@).to_multiset() =~= all.to_multiset());
    }
    out
}

} // verus!
