//! What holds of every pruning of playlists, from its start to its end.

use vstd::prelude::*;

use crate::cleanup::{
    is_stale, law_removed_memberships, lemma_deletions, playlist_deletions, Deletion, Prune,
    PruneActionModel, PruneModel, PRUNE_CHUNK,
};
use crate::sequences::{
    batches, law_batches_lose_nothing, lemma_from_flatten, lemma_in_flatten,
};

verus! {

// ---------------------------------------------------------------------------------------------
// Whole runs

/// The batches in which `stale` collections are asked about.
pub open spec fn questions(stale: Seq<u128>) -> Seq<Seq<u128>> {
    batches(stale, PRUNE_CHUNK as int)
}

/// Where a pruning stands, and what it does next, once its lookups were answered with `replies`.
pub open spec fn pruned(stale: Seq<u128>, replies: Seq<Seq<u128>>) -> (
    PruneModel,
    PruneActionModel,
)
    decreases replies.len(),
{
    if replies.len() == 0 {
        PruneModel::start(stale).advance()
    } else {
        pruned(stale, replies.drop_last()).0.next(Some(replies.last()))
    }
}

proof fn lemma_pruned(stale: Seq<u128>, replies: Seq<Seq<u128>>)
    requires
        replies.len() <= questions(stale).len(),
    ensures
        ({
            let state = pruned(stale, replies).0;
            &&& state.stale == stale
            &&& state.found == replies.flatten()
            &&& replies.len() < questions(stale).len() ==> state.asked == replies.len() + 1
                && !state.finished && pruned(stale, replies).1 == Prune::<
                Seq<u128>,
                Seq<Deletion>,
            >::Find(questions(stale)[replies.len() as int])
            &&& replies.len() == questions(stale).len() ==> state.asked == replies.len()
                && state.finished && pruned(stale, replies).1 == if replies.flatten().len() == 0 {
                Prune::<Seq<u128>, Seq<Deletion>>::Finish
            } else {
                Prune::Delete(replies.flatten().flat_map(playlist_deletions()))
            }
        }),
    decreases replies.len(),
{
    if replies.len() == 0 {
        assert(replies.flatten() =~= Seq::<u128>::empty());
    } else {
        let front = replies.drop_last();
        lemma_pruned(stale, front);
        front.lemma_flatten_push(replies.last());
        assert(front.push(replies.last()) =~= replies);
    }
}

/// A pruning whose lookups succeed asks about every stale collection once, in order; it deletes the
/// playlists that were found and nothing else, and where none was found, nothing.
pub proof fn law_pruning_deletes_what_it_finds(stale: Seq<u128>, replies: Seq<Seq<u128>>)
    requires
        replies.len() == questions(stale).len(),
    ensures
        questions(stale).flatten() == stale,
        forall|j: int|
            0 <= j < replies.len() ==> pruned(stale, #[trigger] replies.take(j)).1 == Prune::<
                Seq<u128>,
                Seq<Deletion>,
            >::Find(questions(stale)[j]),
        pruned(stale, replies).0.finished,
        pruned(stale, replies).1 == if replies.flatten().len() == 0 {
            Prune::<Seq<u128>, Seq<Deletion>>::Finish
        } else {
            Prune::Delete(replies.flatten().flat_map(playlist_deletions()))
        },
{
    law_batches_lose_nothing(stale, PRUNE_CHUNK as int);
    lemma_pruned(stale, replies);
    assert forall|j: int| 0 <= j < replies.len() implies pruned(
        stale,
        #[trigger] replies.take(j),
    ).1 == Prune::<Seq<u128>, Seq<Deletion>>::Find(questions(stale)[j]) by {
        lemma_pruned(stale, replies.take(j));
    }
}

// ---------------------------------------------------------------------------------------------
// Stored rows

/// A stored row that says that `item` is a member of a catalog's collection.
pub struct CatalogRow {
    pub collection: u128,
    pub item: u128,
}

/// Whether one of `rows` makes `id` a member of one of `collections`.
pub open spec fn is_member(rows: Seq<CatalogRow>, collections: Seq<u128>, id: u128) -> bool {
    exists|k: int|
        0 <= k < rows.len() && collections.contains((#[trigger] rows[k]).collection)
            && rows[k].item == id
}

/// Whether `reply` names exactly the stored playlists that are members of `collections`.
pub open spec fn answers(
    rows: Seq<CatalogRow>,
    playlists: Set<u128>,
    collections: Seq<u128>,
    reply: Seq<u128>,
) -> bool {
    forall|id: u128| #[trigger]
        reply.contains(id) <==> playlists.contains(id) && is_member(rows, collections, id)
}

/// Whether `replies` are what the lookups of a pruning find among the stored rows.
pub open spec fn all_answered(
    rows: Seq<CatalogRow>,
    playlists: Set<u128>,
    stale: Seq<u128>,
    replies: Seq<Seq<u128>>,
) -> bool {
    &&& replies.len() == questions(stale).len()
    &&& forall|j: int|
        0 <= j < replies.len() ==> answers(
            rows,
            playlists,
            questions(stale)[j],
            #[trigger] replies[j],
        )
}

/// Whether a playlist is orphaned: some row makes it a member of the collection of a catalog in the
/// domain that was not imported.
pub open spec fn is_orphan(
    rows: Seq<CatalogRow>,
    playlists: Set<u128>,
    valid: Set<u128>,
    domain: Set<u128>,
    id: u128,
) -> bool {
    playlists.contains(id) && exists|k: int|
        0 <= k < rows.len() && is_stale(valid, domain)((#[trigger] rows[k]).collection)
            && rows[k].item == id
}

/// Whether an action deletes a row.
pub open spec fn deletes(action: PruneActionModel, row: Deletion) -> bool {
    match action {
        Prune::Delete(rows) => rows.contains(row),
        _ => false,
    }
}

proof fn lemma_deleted_rows(ids: Seq<u128>, id: u128)
    ensures
        ids.flat_map(playlist_deletions()).contains(Deletion::Media(id)) <==> ids.contains(id),
        ids.flat_map(playlist_deletions()).contains(Deletion::Relations(id)) <==> ids.contains(id),
{
    let rows = ids.flat_map(playlist_deletions());
    lemma_deletions(ids, 0);
    if ids.contains(id) {
        let k = choose|k: int| 0 <= k < ids.len() && ids[k] == id;
        lemma_deletions(ids, k);
        assert(rows[2 * k] == Deletion::Relations(id));
        assert(rows[2 * k + 1] == Deletion::Media(id));
    }
    if rows.contains(Deletion::Media(id)) {
        let m = choose|m: int| 0 <= m < rows.len() && rows[m] == Deletion::Media(id);
        lemma_deletions(ids, m / 2);
        assert(m == 2 * (m / 2) || m == 2 * (m / 2) + 1);
        assert(ids[m / 2] == id);
    }
    if rows.contains(Deletion::Relations(id)) {
        let m = choose|m: int| 0 <= m < rows.len() && rows[m] == Deletion::Relations(id);
        lemma_deletions(ids, m / 2);
        assert(m == 2 * (m / 2) || m == 2 * (m / 2) + 1);
        assert(ids[m / 2] == id);
    }
}

proof fn lemma_replies_are_the_orphans(
    rows: Seq<CatalogRow>,
    playlists: Set<u128>,
    valid: Set<u128>,
    domain: Set<u128>,
    stale: Seq<u128>,
    replies: Seq<Seq<u128>>,
    id: u128,
)
    requires
        stale.to_set() == domain.difference(valid),
        all_answered(rows, playlists, stale, replies),
    ensures
        replies.flatten().contains(id) <==> is_orphan(rows, playlists, valid, domain, id),
{
    let plan = questions(stale);
    let all = replies.flatten();
    law_batches_lose_nothing(stale, PRUNE_CHUNK as int);
    if all.contains(id) {
        let i = choose|i: int| 0 <= i < all.len() && all[i] == id;
        let (j, m) = lemma_from_flatten(replies, i);
        assert(answers(rows, playlists, plan[j], replies[j]));
        assert(replies[j].contains(replies[j][m]));
        let k = choose|k: int|
            0 <= k < rows.len() && plan[j].contains((#[trigger] rows[k]).collection)
                && rows[k].item == id;
        let n = choose|n: int| 0 <= n < plan[j].len() && plan[j][n] == rows[k].collection;
        lemma_in_flatten(plan, j, n);
        assert(stale.to_set().contains(rows[k].collection));
        assert(is_stale(valid, domain)(rows[k].collection));
    }
    if is_orphan(rows, playlists, valid, domain, id) {
        let k = choose|k: int|
            0 <= k < rows.len() && is_stale(valid, domain)((#[trigger] rows[k]).collection)
                && rows[k].item == id;
        assert(stale.to_set().contains(rows[k].collection));
        let at = choose|at: int| 0 <= at < stale.len() && stale[at] == rows[k].collection;
        let (j, n) = lemma_from_flatten(plan, at);
        assert(plan[j].contains(plan[j][n]));
        assert(is_member(rows, plan[j], id));
        assert(answers(rows, playlists, plan[j], replies[j]));
        assert(replies[j].contains(id));
        let m = choose|m: int| 0 <= m < replies[j].len() && replies[j][m] == id;
        lemma_in_flatten(replies, j, m);
    }
}

/// A pruning deletes a media exactly if it is a playlist that a stored row makes a member of a
/// collection in the domain that was not imported, and with it everything that hangs off it.
pub proof fn law_orphans_are_pruned(
    rows: Seq<CatalogRow>,
    playlists: Set<u128>,
    valid: Set<u128>,
    domain: Set<u128>,
    stale: Seq<u128>,
    replies: Seq<Seq<u128>>,
    id: u128,
)
    requires
        stale.to_set() == domain.difference(valid),
        all_answered(rows, playlists, stale, replies),
    ensures
        deletes(pruned(stale, replies).1, Deletion::Media(id)) <==> is_orphan(
            rows,
            playlists,
            valid,
            domain,
            id,
        ),
        deletes(pruned(stale, replies).1, Deletion::Relations(id)) <==> is_orphan(
            rows,
            playlists,
            valid,
            domain,
            id,
        ),
{
    law_pruning_deletes_what_it_finds(stale, replies);
    lemma_replies_are_the_orphans(rows, playlists, valid, domain, stale, replies, id);
    lemma_deleted_rows(replies.flatten(), id);
}

/// Where every collection in the domain was imported, a pruning asks nothing and deletes nothing.
pub proof fn law_nothing_stale_nothing_pruned(
    valid: Set<u128>,
    domain: Set<u128>,
    stale: Seq<u128>,
)
    requires
        stale.to_set() == domain.difference(valid),
        domain.subset_of(valid),
    ensures
        pruned(stale, Seq::empty()).1 is Finish,
{
    if stale.len() > 0 {
        assert(stale.contains(stale[0]));
        assert(stale.to_set().contains(stale[0]));
        assert(false);
    }
    lemma_pruned(stale, Seq::empty());
    assert(Seq::<Seq<u128>>::empty().flatten() =~= Seq::<u128>::empty());
}

/// The rows that are left once `removed` collections have lost their memberships.
pub open spec fn remaining(rows: Seq<CatalogRow>, removed: Seq<u128>) -> Seq<CatalogRow> {
    rows.filter(|row: CatalogRow| !removed.contains(row.collection))
}

/// Once the stale memberships are removed, a pruning with the same sets finds no playlist and
/// deletes nothing: it has to come first.
pub proof fn law_pruning_comes_before_the_removal(
    rows: Seq<CatalogRow>,
    playlists: Set<u128>,
    existing: Seq<u128>,
    valid: Set<u128>,
    domain: Set<u128>,
    stale: Seq<u128>,
    replies: Seq<Seq<u128>>,
)
    requires
        forall|k: int| 0 <= k < rows.len() ==> existing.contains((#[trigger] rows[k]).collection),
        stale.to_set() == domain.difference(valid),
        all_answered(
            remaining(rows, existing.filter(is_stale(valid, domain))),
            playlists,
            stale,
            replies,
        ),
    ensures
        pruned(stale, replies).1 is Finish,
{
    let removed = existing.filter(is_stale(valid, domain));
    let pred = |row: CatalogRow| !removed.contains(row.collection);
    let left = remaining(rows, removed);
    law_pruning_deletes_what_it_finds(stale, replies);
    let all = replies.flatten();
    if all.len() > 0 {
        let id = all[0];
        assert(all.contains(id));
        lemma_replies_are_the_orphans(left, playlists, valid, domain, stale, replies, id);
        let k = choose|k: int|
            0 <= k < left.len() && is_stale(valid, domain)((#[trigger] left[k]).collection)
                && left[k].item == id;
        assert(left.contains(left[k]));
        rows.lemma_filter_pred(pred, k);
        rows.lemma_filter_contains_rev(pred, left[k]);
        let m = choose|m: int| 0 <= m < rows.len() && rows[m] == left[k];
        assert(existing.contains(rows[m].collection));
        law_removed_memberships(existing, valid, domain, rows[m].collection);
        assert(false);
    }
}

} // verus!
