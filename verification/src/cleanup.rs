//! What a refresh removes: memberships, playlists and channels that no catalog holds any longer.

use std::collections::HashSet;

use vstd::prelude::*;

use crate::lookup::listed;
use crate::media::MediaKind;
use crate::sequences::{
    batches, copied, in_batches, inner, law_batches_lose_nothing, lemma_in_flatten,
};
use crate::time::Timestamp;

verus! {

broadcast use vstd::std_specs::hash::group_hash_axioms;

/// Collections looked up per statement.
pub const PRUNE_CHUNK: usize = 500;

// ---------------------------------------------------------------------------------------------
// Memberships

/// The collections in the caller's domain that were not imported.
pub open spec fn is_stale(valid: Set<u128>, domain: Set<u128>) -> spec_fn(u128) -> bool {
    |id: u128| domain.contains(id) && !valid.contains(id)
}

/// The collections whose memberships are removed: of those that have memberships, the ones in
/// `domain_collection_ids` (every catalog that the caller is responsible for) but not in
/// `valid_collection_ids` (the catalogs imported in this run).
pub fn remove_stale_catalog_memberships(
    existing: &Vec<u128>,
    valid_collection_ids: &HashSet<u128>,
    domain_collection_ids: &HashSet<u128>,
) -> (r: Vec<u128>)
    ensures
        r@ == existing@.filter(is_stale(valid_collection_ids@, domain_collection_ids@)),
{
    let ghost pred = is_stale(valid_collection_ids@, domain_collection_ids@);
    let mut out: Vec<u128> = Vec::new();
    let mut i: usize = 0;
    proof {
        reveal(Seq::filter);
        assert(existing@.take(0).filter(pred) =~= Seq::<u128>::empty());
    }
    while i < existing.len()
        invariant
            i <= existing.len(),
            pred == is_stale(valid_collection_ids@, domain_collection_ids@),
            out@ == existing@.take(i as int).filter(pred),
        decreases existing.len() - i,
    {
        proof {
            assert(existing@.take(i + 1) =~= existing@.take(i as int).push(existing@[i as int]));
            existing@.take(i as int).lemma_filter_push(existing@[i as int], pred);
        }
        let id: u128 = existing[i];
        if domain_collection_ids.contains(&id) && !valid_collection_ids.contains(&id) {
            out.push(id);
        }
        i = i + 1;
    }
    assert(existing@.take(i as int) =~= existing@);
    out
}

/// A collection loses its memberships exactly if it has some, is in the domain and was not imported.
pub proof fn law_removed_memberships(
    existing: Seq<u128>,
    valid: Set<u128>,
    domain: Set<u128>,
    id: u128,
)
    ensures
        existing.filter(is_stale(valid, domain)).contains(id) <==> existing.contains(id)
            && domain.contains(id) && !valid.contains(id),
{
    let pred = is_stale(valid, domain);
    let stale = existing.filter(pred);
    if stale.contains(id) {
        let k = choose|k: int| 0 <= k < stale.len() && stale[k] == id;
        existing.lemma_filter_pred(pred, k);
        existing.lemma_filter_contains_rev(pred, id);
    }
    if existing.contains(id) && pred(id) {
        let k = choose|k: int| 0 <= k < existing.len() && existing[k] == id;
        existing.lemma_filter_contains(pred, k);
    }
}

/// Two tasks with separate domains never touch each other's memberships, whatever each imported.
pub proof fn law_separate_domains_leave_each_other_alone(
    existing: Seq<u128>,
    valid: Set<u128>,
    domain: Set<u128>,
    other: Set<u128>,
    id: u128,
)
    requires
        domain.disjoint(other),
        other.contains(id),
    ensures
        !existing.filter(is_stale(valid, domain)).contains(id),
{
    law_removed_memberships(existing, valid, domain, id);
}

// ---------------------------------------------------------------------------------------------
// Playlists

/// One row deletion.
#[derive(Clone, Copy, Debug, PartialEq, Eq, Structural)]
pub enum Deletion {
    /// Of everything that hangs off a playlist.
    Relations(u128),
    /// Of the playlist itself.
    Media(u128),
}

/// What hangs off a playlist goes first, the playlist after it.
pub open spec fn playlist_deletions() -> spec_fn(u128) -> Seq<Deletion> {
    |id: u128| seq![Deletion::Relations(id), Deletion::Media(id)]
}

/// What the pruning of playlists does next.
pub enum Prune<Ids, Deletions> {
    /// Look for the playlists that are members of these collections.
    Find(Ids),
    /// Delete these rows, in order.
    Delete(Deletions),
    Finish,
}

pub type PruneAction = Prune<Vec<u128>, Vec<Deletion>>;

pub type PruneActionModel = Prune<Seq<u128>, Seq<Deletion>>;

/// The contents of an action.
pub open spec fn prune_action_model(action: PruneAction) -> PruneActionModel {
    match action {
        Prune::Find(ids) => Prune::Find(ids@),
        Prune::Delete(rows) => Prune::Delete(rows@),
        Prune::Finish => Prune::Finish,
    }
}

/// The state of a pruning: which collections are stale, how many batches of them were asked about,
/// and which playlists were found.
pub struct PruneModel {
    pub stale: Seq<u128>,
    pub asked: nat,
    pub found: Seq<u128>,
    pub finished: bool,
}

impl PruneModel {
    /// Before anything was asked.
    pub open spec fn start(stale: Seq<u128>) -> PruneModel {
        PruneModel { stale, asked: 0, found: Seq::empty(), finished: false }
    }

    /// The batches to ask about.
    pub open spec fn plan(self) -> Seq<Seq<u128>> {
        batches(self.stale, PRUNE_CHUNK as int)
    }

    /// Asks about the next batch, or deletes what was found.
    pub open spec fn advance(self) -> (PruneModel, PruneActionModel) {
        if self.asked < self.plan().len() {
            (
                PruneModel { asked: self.asked + 1, ..self },
                Prune::Find(self.plan()[self.asked as int]),
            )
        } else if self.found.len() == 0 {
            (PruneModel { finished: true, ..self }, Prune::Finish)
        } else {
            (
                PruneModel { finished: true, ..self },
                Prune::Delete(self.found.flat_map(playlist_deletions())),
            )
        }
    }

    /// Takes what a lookup found, `None` where it failed: then nothing is deleted.
    pub open spec fn next(self, found: Option<Seq<u128>>) -> (PruneModel, PruneActionModel) {
        match found {
            Some(ids) => PruneModel { found: self.found + ids, ..self }.advance(),
            None => (PruneModel { finished: true, ..self }, Prune::Finish),
        }
    }
}

/// A pruning of orphaned playlists.
pub struct PruneRun {
    stale: Ghost<Seq<u128>>,
    plan: Vec<Vec<u128>>,
    asked: usize,
    found: Vec<u128>,
    finished: bool,
}

impl View for PruneRun {
    type V = PruneModel;

    closed spec fn view(&self) -> PruneModel {
        PruneModel {
            stale: self.stale@,
            asked: self.asked as nat,
            found: self.found@,
            finished: self.finished,
        }
    }
}

fn plan_deletions(found: &Vec<u128>) -> (r: Vec<Deletion>)
    ensures
        r@ == found@.flat_map(playlist_deletions()),
{
    let ghost f = playlist_deletions();
    let mut out: Vec<Deletion> = Vec::new();
    let mut i: usize = 0;
    assert(found@.take(0).flat_map(f) =~= Seq::<Deletion>::empty());
    while i < found.len()
        invariant
            i <= found.len(),
            f == playlist_deletions(),
            out@ == found@.take(i as int).flat_map(f),
        decreases found.len() - i,
    {
        let id: u128 = found[i];
        let ghost before = out@;
        out.push(Deletion::Relations(id));
        out.push(Deletion::Media(id));
        proof {
            assert(out@ =~= before + f(id));
            found@.lemma_flat_map_take_append(f, i as int);
        }
        i = i + 1;
    }
    assert(found@.take(i as int) =~= found@);
    out
}

impl PruneRun {
    /// Whether the plan is the batches of the stale collections.
    pub closed spec fn valid(self) -> bool {
        &&& inner(self.plan@) == batches(self.stale@, PRUNE_CHUNK as int)
        &&& self.asked <= self.plan.len()
    }

    fn advance(self) -> (r: (PruneRun, PruneAction))
        requires
            self.valid(),
        ensures
            (r.0@, prune_action_model(r.1)) == self@.advance(),
            r.0.valid(),
    {
        assert(inner(self.plan@).len() == self.plan.len());
        if self.asked < self.plan.len() {
            let ids: Vec<u128> = copied(&self.plan[self.asked]);
            assert(inner(self.plan@)[self.asked as int] == ids@);
            let asked: usize = self.asked + 1;
            (PruneRun { asked, ..self }, Prune::Find(ids))
        } else if self.found.len() == 0 {
            (PruneRun { finished: true, ..self }, Prune::Finish)
        } else {
            let rows: Vec<Deletion> = plan_deletions(&self.found);
            (PruneRun { finished: true, ..self }, Prune::Delete(rows))
        }
    }

    /// Takes what the lookup found, `None` where it failed, and says what to do next.
    pub fn step(self, found: Option<Vec<u128>>) -> (r: (PruneRun, PruneAction))
        requires
            self.valid(),
            !self@.finished,
        ensures
            (r.0@, prune_action_model(r.1)) == self@.next(
                match found {
                    Some(ids) => Some(ids@),
                    None => None,
                },
            ),
            r.0.valid(),
    {
        match found {
            Some(ids) => {
                let mut all: Vec<u128> = self.found;
                let mut ids: Vec<u128> = ids;
                all.append(&mut ids);
                let run = PruneRun {
                    stale: self.stale,
                    plan: self.plan,
                    asked: self.asked,
                    found: all,
                    finished: self.finished,
                };
                run.advance()
            },
            None => (PruneRun { finished: true, ..self }, Prune::Finish),
        }
    }
}

/// Starts the removal of playlists whose catalog left `valid_collection_ids`, and says what to do
/// first. The stale collections are asked about in the order in which the domain is walked.
pub fn prune_orphaned_playlists(
    valid_collection_ids: &HashSet<u128>,
    domain_collection_ids: &HashSet<u128>,
) -> (r: (PruneRun, PruneAction))
    ensures
        r.0@.stale.no_duplicates(),
        r.0@.stale.to_set() == domain_collection_ids@.difference(valid_collection_ids@),
        (r.0@, prune_action_model(r.1)) == PruneModel::start(r.0@.stale).advance(),
        r.0.valid(),
{
    let domain: Vec<u128> = listed(domain_collection_ids);
    let mut stale: Vec<u128> = Vec::new();
    let mut i: usize = 0;
    assert(stale@.to_set() =~= Set::empty());
    while i < domain.len()
        invariant
            i <= domain.len(),
            domain@.no_duplicates(),
            stale@.no_duplicates(),
            forall|id: u128| #[trigger]
                stale@.contains(id) <==> domain@.take(i as int).contains(id)
                    && !valid_collection_ids@.contains(id),
        decreases domain.len() - i,
    {
        let id: u128 = domain[i];
        let ghost before = stale@;
        let ghost seen = domain@.take(i as int);
        let ghost after = domain@.take(i + 1);
        proof {
            assert(after =~= seen.push(id));
            assert(!seen.contains(id)) by {
                if seen.contains(id) {
                    let k = choose|k: int| 0 <= k < seen.len() && seen[k] == id;
                    assert(domain@[k] == domain@[i as int]);
                }
            }
            assert forall|x: u128| #[trigger] after.contains(x) <==> seen.contains(x) || x == id by {
                if seen.contains(x) {
                    let k = choose|k: int| 0 <= k < seen.len() && seen[k] == x;
                    assert(after[k] == x);
                }
                assert(after[seen.len() as int] == id);
            }
            assert(!before.contains(id));
        }
        if !valid_collection_ids.contains(&id) {
            stale.push(id);
            proof {
                assert forall|x: u128| #[trigger] stale@.contains(x) <==> before.contains(x) || x == id by {
                    if before.contains(x) {
                        let k = choose|k: int| 0 <= k < before.len() && before[k] == x;
                        assert(stale@[k] == x);
                    }
                    assert(stale@[before.len() as int] == id);
                }
            }
        }
        i = i + 1;
    }
    proof {
        assert(domain@.take(i as int) =~= domain@);
        assert forall|id: u128| stale@.to_set().contains(id) <==> domain_collection_ids@.difference(
            valid_collection_ids@,
        ).contains(id) by {
            assert(domain@.to_set().contains(id) <==> domain@.contains(id));
        }
        assert(stale@.to_set() =~= domain_collection_ids@.difference(valid_collection_ids@));
    }
    let run = PruneRun {
        stale: Ghost(stale@),
        plan: in_batches(&stale, PRUNE_CHUNK),
        asked: 0,
        found: Vec::new(),
        finished: false,
    };
    run.advance()
}

/// A pruning asks about stale collections only, and a failed lookup ends it without a deletion.
pub proof fn law_pruning_asks_about_stale_collections(state: PruneModel, found: Option<Seq<u128>>)
    ensures
        match state.next(found).1 {
            Prune::Find(ids) => found is Some && ids.len() <= PRUNE_CHUNK && forall|k: int|
                0 <= k < ids.len() ==> state.stale.contains(#[trigger] ids[k]),
            Prune::Delete(_) => found is Some,
            Prune::Finish => true,
        },
        found is None ==> state.next(found).1 is Finish,
{
    let plan = state.plan();
    law_batches_lose_nothing(state.stale, PRUNE_CHUNK as int);
    if found is Some && state.asked < plan.len() {
        let ids = plan[state.asked as int];
        assert forall|k: int| 0 <= k < ids.len() implies state.stale.contains(
            #[trigger] ids[k],
        ) by {
            lemma_in_flatten(plan, state.asked as int, k);
        }
    }
}

/// Playlists are deleted only after every stale collection was asked about, what hangs off each one
/// directly before the playlist itself.
pub proof fn law_playlists_go_after_their_relations(state: PruneModel, found: Seq<u128>, i: int)
    requires
        state.next(Some(found)).1 is Delete,
        0 <= i < state.found.len() + found.len(),
    ensures
        state.asked >= state.plan().len(),
        ({
            let rows = state.next(Some(found)).1->Delete_0;
            let all = state.found + found;
            &&& rows.len() == 2 * all.len()
            &&& rows[2 * i] == Deletion::Relations(all[i])
            &&& rows[2 * i + 1] == Deletion::Media(all[i])
        }),
{
    lemma_deletions(state.found + found, i);
}

/// Each playlist has its two deletions at their places.
pub proof fn lemma_deletions(ids: Seq<u128>, i: int)
    ensures
        ids.flat_map(playlist_deletions()).len() == 2 * ids.len(),
        0 <= i < ids.len() ==> ids.flat_map(playlist_deletions())[2 * i] == Deletion::Relations(
            ids[i],
        ) && ids.flat_map(playlist_deletions())[2 * i + 1] == Deletion::Media(ids[i]),
    decreases ids.len(),
{
    let f = playlist_deletions();
    if ids.len() == 0 {
        assert(ids.flat_map(f) =~= Seq::<Deletion>::empty());
    } else {
        let front = ids.drop_last();
        lemma_deletions(front, i);
        front.lemma_flat_map_push(f, ids.last());
        assert(front.push(ids.last()) =~= ids);
    }
}

// ---------------------------------------------------------------------------------------------
// Channels

/// When a media row was last stored.
#[derive(Clone, Copy, Debug, PartialEq, Eq, Structural)]
pub struct StoredRow {
    pub id: u128,
    pub kind: MediaKind,
    pub updated_at: Timestamp,
}

/// The channels that were last stored before `cutoff`.
pub open spec fn is_stale_channel(cutoff: Timestamp) -> spec_fn(StoredRow) -> bool {
    |row: StoredRow| row.kind == MediaKind::TvChannel && row.updated_at.earlier(cutoff)
}

/// The ids of `rows`.
pub open spec fn row_ids(rows: Seq<StoredRow>) -> Seq<u128> {
    Seq::new(rows.len(), |i: int| rows[i].id)
}

/// The rows to delete: the channels that were last stored before `cutoff`.
pub fn prune_stale_iptv_channels(rows: &Vec<StoredRow>, cutoff: Timestamp) -> (r: Vec<u128>)
    ensures
        r@ == row_ids(rows@.filter(is_stale_channel(cutoff))),
{
    let ghost pred = is_stale_channel(cutoff);
    let mut out: Vec<u128> = Vec::new();
    let mut i: usize = 0;
    proof {
        reveal(Seq::filter);
        assert(rows@.take(0).filter(pred) =~= Seq::<StoredRow>::empty());
        assert(out@ =~= row_ids(rows@.take(0).filter(pred)));
    }
    while i < rows.len()
        invariant
            i <= rows.len(),
            pred == is_stale_channel(cutoff),
            out@ == row_ids(rows@.take(i as int).filter(pred)),
        decreases rows.len() - i,
    {
        proof {
            assert(rows@.take(i + 1) =~= rows@.take(i as int).push(rows@[i as int]));
            rows@.take(i as int).lemma_filter_push(rows@[i as int], pred);
        }
        let row: StoredRow = rows[i];
        if row.kind == MediaKind::TvChannel && row.updated_at.is_before(&cutoff) {
            out.push(row.id);
        }
        i = i + 1;
        assert(out@ =~= row_ids(rows@.take(i as int).filter(pred)));
    }
    assert(rows@.take(i as int) =~= rows@);
    out
}

/// A row goes exactly if it is a channel that was not stored again since `cutoff`.
pub proof fn law_pruned_channels(rows: Seq<StoredRow>, cutoff: Timestamp, row: StoredRow)
    requires
        rows.contains(row),
    ensures
        rows.filter(is_stale_channel(cutoff)).contains(row) <==> row.kind == MediaKind::TvChannel
            && row.updated_at.earlier(cutoff),
{
    let pred = is_stale_channel(cutoff);
    let stale = rows.filter(pred);
    if stale.contains(row) {
        let k = choose|k: int| 0 <= k < stale.len() && stale[k] == row;
        rows.lemma_filter_pred(pred, k);
    }
    if pred(row) {
        let k = choose|k: int| 0 <= k < rows.len() && rows[k] == row;
        rows.lemma_filter_contains(pred, k);
    }
}

/// An id is to be deleted exactly if it is that of a channel that was last stored before `cutoff`;
/// a channel stored in the same second counts by its nanoseconds.
pub proof fn law_ids_of_pruned_channels(rows: Seq<StoredRow>, cutoff: Timestamp, id: u128)
    ensures
        row_ids(rows.filter(is_stale_channel(cutoff))).contains(id) <==> exists|k: int|
            0 <= k < rows.len() && (#[trigger] rows[k]).id == id && rows[k].kind is TvChannel && (
            rows[k].updated_at.secs < cutoff.secs || rows[k].updated_at.secs == cutoff.secs
                && rows[k].updated_at.nanos < cutoff.nanos),
        row_ids(rows.filter(is_stale_channel(cutoff))).len() == rows.filter(
            is_stale_channel(cutoff),
        ).len(),
{
    let pred = is_stale_channel(cutoff);
    let stale = rows.filter(pred);
    let ids = row_ids(stale);
    if ids.contains(id) {
        let i = choose|i: int| 0 <= i < ids.len() && ids[i] == id;
        rows.lemma_filter_pred(pred, i);
        assert(stale.contains(stale[i]));
        rows.lemma_filter_contains_rev(pred, stale[i]);
        let k = choose|k: int| 0 <= k < rows.len() && rows[k] == stale[i];
        assert(rows[k].id == id);
    }
    if exists|k: int|
        0 <= k < rows.len() && (#[trigger] rows[k]).id == id && rows[k].kind is TvChannel && (
        rows[k].updated_at.secs < cutoff.secs || rows[k].updated_at.secs == cutoff.secs
            && rows[k].updated_at.nanos < cutoff.nanos) {
        let k = choose|k: int|
            0 <= k < rows.len() && (#[trigger] rows[k]).id == id && rows[k].kind is TvChannel && (
            rows[k].updated_at.secs < cutoff.secs || rows[k].updated_at.secs == cutoff.secs
                && rows[k].updated_at.nanos < cutoff.nanos);
        rows.lemma_filter_contains(pred, k);
        let i = choose|i: int| 0 <= i < stale.len() && stale[i] == rows[k];
        assert(ids[i] == id);
    }
}

/// A pruning asks about up to 500 collections at a time, in the order in which it has them, and
/// only once all lookups have succeeded it deletes what they found, in the order in which they
/// found it; a lookup that failed ends it.
pub proof fn law_pruning_step(state: PruneModel, found: Seq<u128>)
    ensures
        ({
            let (next, action) = state.next(Some(found));
            let plan = batches(state.stale, 500);
            &&& next.stale == state.stale
            &&& next.found == state.found + found
            &&& state.asked < plan.len() ==> {
                &&& next.asked == state.asked + 1
                &&& action == (PruneActionModel::Find(plan[state.asked as int]))
                &&& next.finished == state.finished
            }
            &&& state.asked >= plan.len() ==> next.finished && (action is Finish <==> (state.found
                + found).len() == 0) && (action is Delete <==> (state.found + found).len() > 0)
        }),
        state.next(None).0.finished,
        state.next(None).1 is Finish,
{
}

} // verus!
