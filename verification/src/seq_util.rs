//! General-purpose sequence and multiset lemmas that the room state
//! machine leans on: first-occurrence indices, append-only logs, and the
//! fact that mapping a function over a sequence preserves multiset
//! equality.

use vstd::prelude::*;
use vstd::multiset::*;
use vstd::seq_lib::*;

verus! {

/// A position holding the first occurrence of `needle` is where
/// `index_of_first` points.
pub proof fn lemma_index_of_first_is<A>(s: Seq<A>, needle: A, i: int)
    requires
        0 <= i < s.len(),
        s[i] == needle,
        forall|k: int| 0 <= k < i ==> s[k] != needle,
    ensures
        s.index_of_first(needle) == Some(i),
{
    s.index_of_first_ensures(needle);
    assert(s.contains(needle));
    let f = s.index_of_first(needle)->0;
    if f < i {
        assert(s[f] != needle);
    } else if f > i {
        assert(s[i] != needle);
    }
}

/// `post` is `pre` with zero or more elements appended.
pub open spec fn seq_extends<A>(pre: Seq<A>, post: Seq<A>) -> bool {
    post.len() >= pre.len() && post.take(pre.len() as int) == pre
}

/// Appending is transitive.
pub proof fn lemma_seq_extends_trans<A>(a: Seq<A>, b: Seq<A>, c: Seq<A>)
    requires
        seq_extends(a, b),
        seq_extends(b, c),
    ensures
        seq_extends(a, c),
{
    assert(c.take(a.len() as int) =~= c.take(b.len() as int).take(a.len() as int));
}

/// Multiset equality of sequences survives mapping: permuting a sequence
/// permutes its image.
pub proof fn lemma_map_values_to_multiset<A, B>(s1: Seq<A>, s2: Seq<A>, f: spec_fn(A) -> B)
    requires
        s1.to_multiset() == s2.to_multiset(),
    ensures
        s1.map_values(f).to_multiset() == s2.map_values(f).to_multiset(),
    decreases s1.len(),
{
    broadcast use group_multiset_axioms;
    broadcast use group_to_multiset_ensures;
    broadcast use Seq::lemma_push_map_commute;

    if s1.len() == 0 {
        to_multiset_len(s1);
        to_multiset_len(s2);
        assert(s2.len() == 0);
        assert(s1.map_values(f) =~= s2.map_values(f));
    } else {
        let c = s1.last();
        let s1p = s1.drop_last();
        assert(s1 =~= s1p.push(c));
        assert(s1.to_multiset().count(c) > 0);
        assert(s2.contains(c));
        let j = choose|j: int| 0 <= j < s2.len() && s2[j] == c;
        let s2p = s2.remove(j);

        // The remainders are multiset-equal: cancel one insertion of `c`.
        assert(s2p.insert(j, c) =~= s2);
        to_multiset_insert(s2p, j, c);
        assert(s1p.to_multiset().insert(c) == s2p.to_multiset().insert(c));
        assert forall|y: A| s1p.to_multiset().count(y) == s2p.to_multiset().count(y) by {
            lemma_insert_increases_count_by_1(s1p.to_multiset(), c);
            lemma_insert_increases_count_by_1(s2p.to_multiset(), c);
            if y != c {
                lemma_insert_other_elements_unchanged(s1p.to_multiset(), c, y);
                lemma_insert_other_elements_unchanged(s2p.to_multiset(), c, y);
            }
        }
        assert(s1p.to_multiset() =~= s2p.to_multiset());

        lemma_map_values_to_multiset(s1p, s2p, f);

        // Rebuild both images around `f(c)`.
        assert(s1.map_values(f) =~= s1p.map_values(f).push(f(c)));
        assert(s2p.map_values(f).insert(j, f(c)) =~= s2.map_values(f));
        to_multiset_insert(s2p.map_values(f), j, f(c));
        assert(s1.map_values(f).to_multiset() =~= s2.map_values(f).to_multiset());
    }
}

} // verus!
