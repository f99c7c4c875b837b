//! The policy catalog: named SQL persisted inside each database, and the
//! multiset view under which storing and fetching a policy round-trips.

use vstd::prelude::*;
use vstd::multiset::Multiset;

verus! {

/// One named query of a policy.
#[derive(Debug, Clone)]
pub struct QueryPolicy {
    pub name: String,
    pub raw_sql: String,
}

/// One named mutation of a policy.
#[derive(Debug, Clone)]
pub struct MutationPolicy {
    pub name: String,
    pub raw_sql: String,
}

/// The catalog of named SQL available for one database.
#[derive(Debug, Clone)]
pub struct Policy {
    pub queries: Vec<QueryPolicy>,
    pub mutations: Vec<MutationPolicy>,
}

/// The `(name, raw_sql)` view of one named query.
pub open spec fn spec_query_pair(q: QueryPolicy) -> (Seq<char>, Seq<char>) {
    (q.name@, q.raw_sql@)
}

/// The `(name, raw_sql)` view of one named mutation.
pub open spec fn spec_mutation_pair(m: MutationPolicy) -> (Seq<char>, Seq<char>) {
    (m.name@, m.raw_sql@)
}

/// The `(name, raw_sql)` views of a policy's queries, in order.
pub open spec fn spec_query_pairs(p: Policy) -> Seq<(Seq<char>, Seq<char>)> {
    p.queries@.map_values(|q: QueryPolicy| spec_query_pair(q))
}

/// The `(name, raw_sql)` views of a policy's mutations, in order.
pub open spec fn spec_mutation_pairs(p: Policy) -> Seq<(Seq<char>, Seq<char>)> {
    p.mutations@.map_values(|m: MutationPolicy| spec_mutation_pair(m))
}

/// Attaches a kind tag to a `(name, raw_sql)` pair, giving the row shape of
/// the metadata table.
pub open spec fn spec_tag(
    kind: Seq<char>,
    p: (Seq<char>, Seq<char>),
) -> (Seq<char>, Seq<char>, Seq<char>) {
    (kind, p.0, p.1)
}

/// A policy as the multiset of its `(kind, name, raw_sql)` entries. This is
/// the view under which clients may compare policies: the order of entries
/// within a kind carries no meaning.
pub open spec fn spec_policy_entries(p: Policy) -> Multiset<(Seq<char>, Seq<char>, Seq<char>)> {
    spec_query_pairs(p).map_values(
        |x: (Seq<char>, Seq<char>)| spec_tag("query"@, x),
    ).to_multiset().add(
        spec_mutation_pairs(p).map_values(
            |x: (Seq<char>, Seq<char>)| spec_tag("mutation"@, x),
        ).to_multiset(),
    )
}

/// Mapping a function over two sequences that are permutations of each other
/// yields permutations of each other.
proof fn lemma_map_values_permutation<A, B>(s1: Seq<A>, s2: Seq<A>, f: spec_fn(A) -> B)
    requires
        s1.to_multiset() == s2.to_multiset(),
    ensures
        s1.map_values(f).to_multiset() == s2.map_values(f).to_multiset(),
    decreases s1.len(),
{
    broadcast use vstd::seq_lib::group_to_multiset_ensures;

    s1.to_multiset_ensures();
    s2.to_multiset_ensures();
    s1.map_values(f).to_multiset_ensures();
    s2.map_values(f).to_multiset_ensures();
    if s1.len() == 0 {
        assert(s2.len() == 0);
        assert(s1.map_values(f) =~= Seq::<B>::empty());
        assert(s2.map_values(f) =~= Seq::<B>::empty());
    } else {
        let a = s1.last();
        assert(s1.contains(a));
        assert(s2.to_multiset().count(a) > 0);
        assert(s2.contains(a));
        let i = choose|i: int| 0 <= i < s2.len() && s2[i] == a;
        assert(s1 =~= s1.drop_last().push(a));
        assert(s1.to_multiset() =~= s1.drop_last().to_multiset().insert(a));
        assert(s2.remove(i).to_multiset() =~= s2.to_multiset().remove(a));
        assert(s1.drop_last().to_multiset() =~= s2.remove(i).to_multiset()) by {
            assert forall|x: A|
                s1.drop_last().to_multiset().count(x) == s2.remove(i).to_multiset().count(
                    x,
                ) by {
                assert(s1.to_multiset().count(x) == s1.drop_last().to_multiset().insert(a).count(
                    x,
                ));
            }
        }
        lemma_map_values_permutation(s1.drop_last(), s2.remove(i), f);
        assert(s1.map_values(f) =~= s1.drop_last().map_values(f).push(f(a)));
        assert(s2.remove(i).map_values(f) =~= s2.map_values(f).remove(i));
        assert(s1.map_values(f).to_multiset() =~= s1.drop_last().map_values(f).to_multiset().insert(
            f(a),
        ));
        assert(s2.map_values(f).remove(i).to_multiset() =~= s2.map_values(f).to_multiset().remove(
            f(a),
        ));
        assert(s2.map_values(f)[i] == f(a));
        assert(s2.map_values(f).contains(f(a)));
        assert(s2.map_values(f).to_multiset().count(f(a)) > 0);
        assert(s1.map_values(f).to_multiset() =~= s2.map_values(f).to_multiset()) by {
            assert forall|y: B|
                s1.map_values(f).to_multiset().count(y) == s2.map_values(f).to_multiset().count(
                    y,
                ) by {
                assert(s1.drop_last().map_values(f).to_multiset() == s2.remove(i).map_values(
                    f,
                ).to_multiset());
            }
        }
    }
}

/// The policy round trip preserves entries. Storing a policy writes one
/// metadata row per entry; fetching reads the rows of each kind back in
/// whatever order the engine scans them. Granted that the engine returns,
/// per kind, exactly the `(name, raw_sql)` pairs that were stored — the
/// premises below — the reassembled policy has exactly the entries of the
/// stored one, as a multiset over `(kind, name, raw_sql)`.
pub proof fn lemma_policy_round_trip(stored: Policy, fetched: Policy)
    requires
        spec_query_pairs(fetched).to_multiset() == spec_query_pairs(stored).to_multiset(),
        spec_mutation_pairs(fetched).to_multiset() == spec_mutation_pairs(stored).to_multiset(),
    ensures
        spec_policy_entries(fetched) == spec_policy_entries(stored),
{
    lemma_map_values_permutation(
        spec_query_pairs(fetched),
        spec_query_pairs(stored),
        |x: (Seq<char>, Seq<char>)| spec_tag("query"@, x),
    );
    lemma_map_values_permutation(
        spec_mutation_pairs(fetched),
        spec_mutation_pairs(stored),
        |x: (Seq<char>, Seq<char>)| spec_tag("mutation"@, x),
    );
}

} // verus!
