//! Lookup by identifier.

use std::collections::{HashMap, HashSet};

use vstd::prelude::*;

verus! {

broadcast use vstd::std_specs::hash::group_hash_axioms;

/// The map that a list of pairs describes: where an identifier occurs twice, the later pair counts.
pub open spec fn pairs_map<V>(pairs: Seq<(u128, V)>) -> Map<u128, V>
    decreases pairs.len(),
{
    if pairs.len() == 0 {
        Map::empty()
    } else {
        pairs_map(pairs.drop_last()).insert(pairs.last().0, pairs.last().1)
    }
}

/// Indexes a list of pairs by identifier.
pub fn index_pairs<V: Copy>(pairs: &Vec<(u128, V)>) -> (m: HashMap<u128, V>)
    ensures
        m@ == pairs_map(pairs@),
{
    let mut m: HashMap<u128, V> = HashMap::new();
    let mut i: usize = 0;
    assert(pairs@.take(0) =~= Seq::empty());
    while i < pairs.len()
        invariant
            i <= pairs.len(),
            m@ == pairs_map(pairs@.take(i as int)),
        decreases pairs.len() - i,
    {
        let (id, value) = pairs[i];
        m.insert(id, value);
        assert(pairs@.take(i + 1).drop_last() =~= pairs@.take(i as int));
        i = i + 1;
    }
    assert(pairs@.take(i as int) =~= pairs@);
    m
}

/// The set of identifiers in a list.
pub fn index_ids(ids: &Vec<u128>) -> (s: HashSet<u128>)
    ensures
        s@ == ids@.to_set(),
{
    let mut s: HashSet<u128> = HashSet::new();
    let mut i: usize = 0;
    assert(s@ =~= ids@.take(0).to_set());
    while i < ids.len()
        invariant
            i <= ids.len(),
            s@ == ids@.take(i as int).to_set(),
        decreases ids.len() - i,
    {
        s.insert(ids[i]);
        proof {
            assert(ids@.take(i + 1) =~= ids@.take(i as int).push(ids@[i as int]));
            ids@.take(i as int).lemma_push_to_set_commute(ids@[i as int]);
        }
        i = i + 1;
    }
    assert(ids@.take(i as int) =~= ids@);
    s
}

/// The identifiers of a set, each once, in the order in which the set is walked.
pub fn listed(ids: &HashSet<u128>) -> (r: Vec<u128>)
    ensures
        r@.no_duplicates(),
        r@.to_set() == ids@,
{
    let mut out: Vec<u128> = Vec::new();
    for id in it: ids.iter()
        invariant
            out@ == it.seq().unref().take(it.index()),
            it.seq().unref().to_set() == ids@,
            it.seq().no_duplicates(),
        ensures
            out@ == it.seq().unref(),
    {
        out.push(*id);
        assert(out@ =~= it.seq().unref().take(it.index() + 1));
    }
    out
}

/// An identifier is in the map of a list of pairs exactly if some pair carries it.
pub proof fn lemma_pairs_map_domain<V>(pairs: Seq<(u128, V)>, id: u128)
    ensures
        pairs_map(pairs).dom().contains(id) <==> exists|i: int|
            0 <= i < pairs.len() && (#[trigger] pairs[i]).0 == id,
    decreases pairs.len(),
{
    if pairs.len() > 0 {
        let front = pairs.drop_last();
        lemma_pairs_map_domain(front, id);
        if pairs_map(front).dom().contains(id) {
            let i = choose|i: int| 0 <= i < front.len() && (#[trigger] front[i]).0 == id;
            assert(pairs[i].0 == id);
        }
        if exists|i: int| 0 <= i < pairs.len() && (#[trigger] pairs[i]).0 == id {
            let i = choose|i: int| 0 <= i < pairs.len() && (#[trigger] pairs[i]).0 == id;
            if i < front.len() {
                assert(front[i].0 == id);
            } else {
                assert(pairs.last().0 == id);
            }
        }
        if pairs.last().0 == id {
            assert(pairs[pairs.len() - 1].0 == id);
        }
    }
}

/// A list of pairs that carry different identifiers maps as many identifiers as it has pairs.
pub proof fn lemma_distinct_pairs_count<V>(pairs: Seq<(u128, V)>)
    requires
        forall|i: int, j: int| 0 <= i < j < pairs.len() ==> pairs[i].0 != pairs[j].0,
    ensures
        pairs_map(pairs).dom().finite(),
        pairs_map(pairs).dom().len() == pairs.len(),
    decreases pairs.len(),
{
    if pairs.len() > 0 {
        let front = pairs.drop_last();
        assert forall|i: int, j: int| 0 <= i < j < front.len() implies front[i].0 != front[j].0 by {
            assert(pairs[i].0 != pairs[j].0);
        }
        lemma_distinct_pairs_count(front);
        lemma_pairs_map_domain(front, pairs.last().0);
        if pairs_map(front).dom().contains(pairs.last().0) {
            let i = choose|i: int|
                0 <= i < front.len() && (#[trigger] front[i]).0 == pairs.last().0;
            assert(pairs[i].0 != pairs[pairs.len() - 1].0);
        }
        assert(pairs_map(pairs).dom() =~= pairs_map(front).dom().insert(pairs.last().0));
    }
}

/// An identifier is mapped to what the last pair that carries it says.
pub proof fn law_last_pair_counts<V>(pairs: Seq<(u128, V)>, i: int)
    requires
        0 <= i < pairs.len(),
        forall|j: int| i < j < pairs.len() ==> (#[trigger] pairs[j]).0 != pairs[i].0,
    ensures
        pairs_map(pairs).dom().contains(pairs[i].0),
        pairs_map(pairs)[pairs[i].0] == pairs[i].1,
    decreases pairs.len(),
{
    if i < pairs.len() - 1 {
        let front = pairs.drop_last();
        assert forall|j: int| i < j < front.len() implies (#[trigger] front[j]).0 != front[i].0 by {
            assert(pairs[j].0 != pairs[i].0);
        }
        law_last_pair_counts(front, i);
        assert(pairs[pairs.len() - 1].0 != pairs[i].0);
    }
}

/// An identifier that no pair carries is not mapped.
pub proof fn law_unlisted_identifier_is_not_mapped<V>(pairs: Seq<(u128, V)>, id: u128)
    requires
        forall|i: int| 0 <= i < pairs.len() ==> (#[trigger] pairs[i]).0 != id,
    ensures
        !pairs_map(pairs).dom().contains(id),
{
    lemma_pairs_map_domain(pairs, id);
}

} // verus!
