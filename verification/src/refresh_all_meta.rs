//! A refresh of all metadata, as a machine: each event that the outside reports is answered with
//! the next thing to do.

use vstd::prelude::*;

use crate::media::MediaKind;
use crate::metadata::{MetaPass, PassDepth};
use crate::task::TaskCategory;

verus! {

/// Items whose metadata is refreshed at a time.
pub const CHUNK_SIZE: u32 = 100;

/// The task that fetches metadata for every library item again.
#[derive(Clone, Copy, Debug)]
pub struct RefreshAllMetaTask;

/// The kinds whose metadata is refreshed.
pub open spec fn refreshed_kind_list() -> Seq<MediaKind> {
    seq![MediaKind::Movie, MediaKind::Series, MediaKind::Artist, MediaKind::Album]
}

/// The kinds whose metadata is refreshed.
pub fn refreshed_kinds() -> (r: Vec<MediaKind>)
    ensures
        r@ == refreshed_kind_list(),
{
    let r: Vec<MediaKind> = vec![
        MediaKind::Movie,
        MediaKind::Series,
        MediaKind::Artist,
        MediaKind::Album,
    ];
    assert(r@ =~= refreshed_kind_list());
    r
}

/// Where a refresh stands, and what it waits for.
#[derive(Clone, Copy, Debug, PartialEq, Eq, Structural)]
pub enum MetaStage {
    /// For the number of items.
    Counting,
    /// For the next items.
    Fetching,
    /// For the refresh of the items just fetched.
    Processing,
    Finished,
    Failed,
}

/// What the outside reports.
pub enum MetaEventOf<Ids> {
    /// The number of items of the refreshed kinds.
    Counted(usize),
    /// The next items.
    Batch(Ids),
    Processed,
    /// What was to be done failed.
    Failed,
}

pub type MetaEvent = MetaEventOf<Vec<u128>>;

pub type MetaEventModel = MetaEventOf<Seq<u128>>;

/// The contents of an event.
pub open spec fn meta_event_model(event: MetaEvent) -> MetaEventModel {
    match event {
        MetaEventOf::Counted(n) => MetaEventOf::Counted(n),
        MetaEventOf::Batch(ids) => MetaEventOf::Batch(ids@),
        MetaEventOf::Processed => MetaEventOf::Processed,
        MetaEventOf::Failed => MetaEventOf::Failed,
    }
}

/// What to do next.
#[derive(Clone, Copy, Debug, PartialEq, Eq, Structural)]
pub enum MetaAction {
    /// Count the items of the refreshed kinds.
    Count,
    /// Fetch the first `limit` items of the refreshed kinds behind `after`, in ascending order.
    Fetch { limit: u32, after: Option<u128> },
    /// Refresh the metadata of the items just fetched, in this way.
    Process(MetaPass),
    /// The refresh is complete.
    Finish,
    /// The refresh failed.
    Fail,
}

/// A refresh of all metadata.
#[derive(Clone, Copy, Debug, PartialEq, Eq, Structural)]
pub struct MetaRun {
    /// The number of items.
    pub total: usize,
    /// The last item fetched.
    pub cursor: Option<u128>,
    pub stage: MetaStage,
}

impl MetaRun {
    /// Whether this state waits for `event`.
    pub open spec fn expects(self, event: MetaEventModel) -> bool {
        match (self.stage, event) {
            (MetaStage::Counting, MetaEventOf::Counted(_)) => true,
            (MetaStage::Fetching, MetaEventOf::Batch(_)) => true,
            (MetaStage::Processing, MetaEventOf::Processed) => true,
            (
                MetaStage::Counting | MetaStage::Fetching | MetaStage::Processing,
                MetaEventOf::Failed,
            ) => true,
            _ => false,
        }
    }

    /// Fetches the next items.
    pub open spec fn fetch(self) -> (MetaRun, MetaAction) {
        (
            MetaRun { stage: MetaStage::Fetching, ..self },
            MetaAction::Fetch { limit: CHUNK_SIZE, after: self.cursor },
        )
    }

    /// The next state and the next action.
    pub open spec fn next(self, event: MetaEventModel) -> (MetaRun, MetaAction) {
        match (self.stage, event) {
            (MetaStage::Counting, MetaEventOf::Counted(n)) => MetaRun { total: n, ..self }.fetch(),
            (MetaStage::Fetching, MetaEventOf::Batch(ids)) => if ids.len() == 0 {
                (MetaRun { stage: MetaStage::Finished, ..self }, MetaAction::Finish)
            } else {
                (
                    MetaRun {
                        cursor: Some(ids.last()),
                        stage: MetaStage::Processing,
                        ..self
                    },
                    MetaAction::Process(MetaPass { depth: PassDepth::Root, force: true }),
                )
            },
            (MetaStage::Processing, MetaEventOf::Processed) => self.fetch(),
            _ => (MetaRun { stage: MetaStage::Failed, ..self }, MetaAction::Fail),
        }
    }

    /// Takes an event and answers with the next thing to do.
    pub fn step(self, event: MetaEvent) -> (r: (MetaRun, MetaAction))
        requires
            self.expects(meta_event_model(event)),
        ensures
            r == self.next(meta_event_model(event)),
    {
        match (self.stage, event) {
            (MetaStage::Counting, MetaEventOf::Counted(n)) => (
                MetaRun { total: n, stage: MetaStage::Fetching, ..self },
                MetaAction::Fetch { limit: CHUNK_SIZE, after: self.cursor },
            ),
            (MetaStage::Fetching, MetaEventOf::Batch(ids)) => if ids.len() == 0 {
                (MetaRun { stage: MetaStage::Finished, ..self }, MetaAction::Finish)
            } else {
                (
                    MetaRun {
                        cursor: Some(ids[ids.len() - 1]),
                        stage: MetaStage::Processing,
                        ..self
                    },
                    MetaAction::Process(MetaPass { depth: PassDepth::Root, force: true }),
                )
            },
            (MetaStage::Processing, MetaEventOf::Processed) => (
                MetaRun { stage: MetaStage::Fetching, ..self },
                MetaAction::Fetch { limit: CHUNK_SIZE, after: self.cursor },
            ),
            _ => (MetaRun { stage: MetaStage::Failed, ..self }, MetaAction::Fail),
        }
    }

    /// The progress to report when one more item is done after `done` others: the number of items
    /// done, out of all of them, which count as one where there is none.
    pub fn report(&self, done: usize) -> (r: (usize, usize))
        requires
            done < usize::MAX,
        ensures
            r.0 == done + 1,
            r.1 == if self.total == 0 {
                1
            } else {
                self.total
            },
    {
        let all: usize = if self.total == 0 {
            1
        } else {
            self.total
        };
        (done + 1, all)
    }
}

impl RefreshAllMetaTask {
    pub fn key(&self) -> (r: &'static str)
        ensures
            r@ == "RefreshAllMeta"@,
    {
        "RefreshAllMeta"
    }

    pub fn name(&self) -> (r: &'static str)
        ensures
            r@ == "Refresh All Metadata"@,
    {
        "Refresh All Metadata"
    }

    pub fn description(&self) -> (r: &'static str)
        ensures
            r@ == "Fetches metadata (artwork, ratings, etc.) for all library items."@,
    {
        "Fetches metadata (artwork, ratings, etc.) for all library items."
    }

    pub fn short_description(&self) -> (r: &'static str)
        ensures
            r@ == "Re-fetches artwork and info for all items"@,
    {
        "Re-fetches artwork and info for all items"
    }

    pub fn category(&self) -> (r: TaskCategory)
        ensures
            r == TaskCategory::Library,
    {
        TaskCategory::Library
    }

    /// Starts a refresh, and says what to do first.
    pub fn run(&self) -> (r: (MetaRun, MetaAction))
        ensures
            r.0 == (MetaRun { total: 0, cursor: None, stage: MetaStage::Counting }),
            r.1 == MetaAction::Count,
    {
        (MetaRun { total: 0, cursor: None, stage: MetaStage::Counting }, MetaAction::Count)
    }
}

// ---------------------------------------------------------------------------------------------
// Laws

/// The ids behind `after`.
pub open spec fn behind(after: Option<u128>) -> spec_fn(u128) -> bool {
    |id: u128|
        match after {
            Some(c) => c < id,
            None => true,
        }
}

/// The first items of `ids` behind `after`, no more than are fetched at a time.
pub open spec fn batch_behind(ids: Seq<u128>, after: Option<u128>) -> Seq<u128> {
    let rest = ids.filter(behind(after));
    if rest.len() <= CHUNK_SIZE {
        rest
    } else {
        rest.take(CHUNK_SIZE as int)
    }
}

/// The items that `rounds` rounds of fetching and refreshing visit, in order, while `ids` stay as
/// they are. Whether a refresh of an item succeeded plays no part.
pub open spec fn visited(run: MetaRun, ids: Seq<u128>, rounds: nat) -> Seq<u128>
    decreases rounds,
{
    if rounds == 0 || run.stage != MetaStage::Fetching {
        Seq::empty()
    } else {
        let batch = batch_behind(ids, run.cursor);
        let fetched = run.next(MetaEventOf::Batch(batch)).0;
        batch + visited(fetched.next(MetaEventOf::Processed).0, ids, (rounds - 1) as nat)
    }
}

proof fn lemma_behind_is_a_suffix(ids: Seq<u128>, k: int)
    requires
        0 <= k <= ids.len(),
        forall|i: int, j: int| 0 <= i < j < ids.len() ==> ids[i] < ids[j],
    ensures
        ids.filter(
            behind(
                if k == 0 {
                    None
                } else {
                    Some(ids[k - 1])
                },
            ),
        ) == ids.skip(k),
    decreases ids.len(),
{
    let after = if k == 0 {
        None
    } else {
        Some(ids[k - 1])
    };
    let pred = behind(after);
    reveal(Seq::filter);
    if ids.len() == 0 {
        assert(ids.skip(k) =~= ids);
    } else if k == ids.len() {
        assert forall|i: int| 0 <= i < ids.len() implies !pred(#[trigger] ids[i]) by {}
        lemma_nothing_passes(ids, pred);
        assert(ids.skip(k) =~= Seq::empty());
    } else {
        let front = ids.drop_last();
        assert forall|i: int, j: int| 0 <= i < j < front.len() implies front[i] < front[j] by {
            assert(ids[i] < ids[j]);
        }
        lemma_behind_is_a_suffix(front, k);
        if k > 0 {
            assert(front[k - 1] == ids[k - 1]);
            assert(ids[k - 1] < ids[ids.len() - 1]);
        }
        assert(pred(ids.last()));
        assert(ids.skip(k) =~= front.skip(k).push(ids.last()));
    }
}

proof fn lemma_nothing_passes(ids: Seq<u128>, pred: spec_fn(u128) -> bool)
    requires
        forall|i: int| 0 <= i < ids.len() ==> !pred(#[trigger] ids[i]),
    ensures
        ids.filter(pred) == Seq::<u128>::empty(),
    decreases ids.len(),
{
    reveal(Seq::filter);
    if ids.len() > 0 {
        let front = ids.drop_last();
        assert forall|i: int| 0 <= i < front.len() implies !pred(#[trigger] front[i]) by {
            assert(front[i] == ids[i]);
        }
        lemma_nothing_passes(front, pred);
        assert(!pred(ids[ids.len() - 1]));
    }
}

proof fn lemma_visits_the_rest(run: MetaRun, ids: Seq<u128>, rounds: nat, k: int)
    requires
        run.stage == MetaStage::Fetching,
        0 <= k <= ids.len(),
        forall|i: int, j: int| 0 <= i < j < ids.len() ==> ids[i] < ids[j],
        run.cursor == if k == 0 {
            None
        } else {
            Some(ids[k - 1])
        },
        rounds > ids.len() - k,
    ensures
        visited(run, ids, rounds) == ids.skip(k),
    decreases rounds,
{
    lemma_behind_is_a_suffix(ids, k);
    let batch = batch_behind(ids, run.cursor);
    let fetched = run.next(MetaEventOf::Batch(batch)).0;
    let after = fetched.next(MetaEventOf::Processed).0;
    if batch.len() == 0 {
        assert(ids.skip(k) =~= Seq::empty());
        assert(visited(after, ids, (rounds - 1) as nat) =~= Seq::empty());
    } else {
        let m = k + batch.len();
        assert(batch.last() == ids[m - 1]);
        lemma_visits_the_rest(after, ids, (rounds - 1) as nat, m);
        assert(batch + ids.skip(m) =~= ids.skip(k));
    }
}

/// Fetching behind the last id moves on whether or not a refresh succeeded: every item is visited
/// once, in ascending order, and then the refresh ends.
pub proof fn law_every_item_is_visited_once(ids: Seq<u128>, total: usize, rounds: nat)
    requires
        forall|i: int, j: int| 0 <= i < j < ids.len() ==> ids[i] < ids[j],
        rounds > ids.len(),
    ensures
        visited(
            MetaRun { total, cursor: None, stage: MetaStage::Fetching },
            ids,
            rounds,
        ) == ids,
{
    lemma_visits_the_rest(
        MetaRun { total, cursor: None, stage: MetaStage::Fetching },
        ids,
        rounds,
        0,
    );
    assert(ids.skip(0) =~= ids);
}

/// Movies, series, artists and albums are refreshed, and nothing else.
pub proof fn law_refreshed_kinds(kind: MediaKind)
    ensures
        refreshed_kind_list().contains(kind) <==> kind is Movie || kind is Series || kind is Artist
            || kind is Album,
{
    let kinds = refreshed_kind_list();
    assert(kinds[0] is Movie);
    assert(kinds[1] is Series);
    assert(kinds[2] is Artist);
    assert(kinds[3] is Album);
}

/// Items are fetched 100 at a time, behind the last one fetched; a batch with items is refreshed by
/// force, without what is below a series, and followed by the next; a batch without items ends the
/// refresh, and so does a failure.
pub proof fn law_batches_follow_one_another(run: MetaRun, total: usize, ids: Seq<u128>)
    ensures
        run.stage is Counting ==> run.next(MetaEventOf::Counted(total)) == (
            MetaRun { total, cursor: run.cursor, stage: MetaStage::Fetching },
            MetaAction::Fetch { limit: 100, after: run.cursor },
        ),
        run.stage is Fetching && ids.len() > 0 ==> ({
            let (next, action) = run.next(MetaEventOf::Batch(ids));
            &&& next == (MetaRun {
                total: run.total,
                cursor: Some(ids[ids.len() - 1]),
                stage: MetaStage::Processing,
            })
            &&& action matches MetaAction::Process(pass)
            &&& pass.force && pass.depth is Root
        }),
        run.stage is Fetching && ids.len() == 0 ==> run.next(MetaEventOf::Batch(ids)).1 is Finish
            && run.next(MetaEventOf::Batch(ids)).0.stage is Finished,
        run.stage is Processing ==> run.next(MetaEventOf::Processed) == (
            MetaRun { total: run.total, cursor: run.cursor, stage: MetaStage::Fetching },
            MetaAction::Fetch { limit: 100, after: run.cursor },
        ),
        run.next(MetaEventOf::Failed).1 is Fail,
        run.next(MetaEventOf::Failed).0.stage is Failed,
{
}

} // verus!
