//! What holds of every step that a run takes, on the values that go in and come out.

use vstd::prelude::*;

use crate::cleanup::{Prune, PruneAction, PruneRun};
use crate::import::{Action, Event, ImportAction, ImportEvent, ImportRun};
use crate::library_plan::{addon_models, AddonModel};
use crate::refresh_all_meta::{MetaAction, MetaEvent, MetaEventOf, MetaRun};
use crate::refresh_library::{LibraryAction, LibraryEvent, LibraryEventOf, LibraryRun};

verus! {

/// An import takes what it is told as it is: every item, every row, every id that was found or
/// replaced, the number of tags and every member, in order.
pub proof fn law_imports_take_what_they_are_told(
    run: ImportRun,
    event: ImportEvent,
    next: ImportRun,
    action: ImportAction,
)
    requires
        call_ensures(ImportRun::step, (run, event), (next, action)),
    ensures
        match event {
            Event::Chunk(Some(items)) => next@ == run@.next(Event::Chunk(Some(items@))).0,
            Event::Chunk(None) => next@ == run@.next(Event::Chunk(None)).0,
            Event::Rows(rows) => next@ == run@.next(Event::Rows(rows@)).0,
            Event::LookupFailed => next@ == run@.next(Event::LookupFailed).0,
            Event::Matched(found) => next@ == run@.next(Event::Matched(found@)).0,
            Event::Metadata { remap: Some(pairs), tags } => next@ == run@.next(
                Event::Metadata { remap: Some(pairs@), tags },
            ).0,
            Event::Metadata { remap: None, tags } => next@ == run@.next(
                Event::Metadata { remap: None, tags },
            ).0,
            Event::Written => next@ == run@.next(Event::Written).0,
            Event::Members(ids) => next@ == run@.next(Event::Members(ids@)).0,
        },
{
}

/// What an import asks for is what its state says, in full and in order: the number of items, the
/// ids, the items, and every row of every statement.
pub proof fn law_imports_ask_for_what_they_need(
    run: ImportRun,
    items: Vec<crate::media::CatalogItem>,
    next: ImportRun,
    action: ImportAction,
)
    requires
        call_ensures(ImportRun::step, (run, Event::Chunk(Some(items))), (next, action)),
    ensures
        match run@.next(Event::Chunk(Some(items@))).1 {
            Action::Pull(n) => action == ImportAction::Pull(n),
            Action::LookupIds(ids) => action matches Action::LookupIds(v) && v@ == ids,
            Action::FetchMembers(id) => action == ImportAction::FetchMembers(id),
            Action::Finish => action is Finish,
            Action::Fail => action is Fail,
            _ => true,
        },
{
}

/// The rows that were read lead to a look for the items by their external ids, in the order of the
/// items.
pub proof fn law_imports_look_for_all_items(
    run: ImportRun,
    rows: Vec<(u128, crate::media::MediaKind)>,
    next: ImportRun,
    action: ImportAction,
)
    requires
        call_ensures(ImportRun::step, (run, Event::Rows(rows)), (next, action)),
    ensures
        run@.next(Event::Rows(rows@)).1 matches Action::Match { items, wanted } ==> (
        action matches Action::Match { items: v, wanted: w } && v@ == items && w@ == wanted),
        run@.next(Event::Rows(rows@)).1 is Fail ==> action is Fail,
{
}

/// The items that were found lead to a metadata pass, or to what is written where nothing is new.
pub proof fn law_imports_fetch_what_is_new(
    run: ImportRun,
    found: Vec<Option<u128>>,
    next: ImportRun,
    action: ImportAction,
)
    requires
        call_ensures(ImportRun::step, (run, Event::Matched(found)), (next, action)),
    ensures
        run@.next(Event::Matched(found@)).1 matches Action::FetchMetadata(items, pass) ==> (
        action matches Action::FetchMetadata(v, p) && v@ == items && p == pass),
        run@.next(Event::Matched(found@)).1 is Write ==> action is Write,
{
}

/// Everything that is to be written is handed out: the series to reconcile, the channels, the
/// playlists and how they are rebuilt, and every row of every statement, in order.
pub proof fn law_imports_write_every_row(
    run: ImportRun,
    remap: Vec<(u128, u128)>,
    tags: usize,
    next: ImportRun,
    action: ImportAction,
    i: int,
)
    requires
        call_ensures(
            ImportRun::step,
            (run, Event::Metadata { remap: Some(remap), tags }),
            (next, action),
        ),
    ensures
        run@.next(Event::Metadata { remap: Some(remap@), tags }).1 matches Action::Write {
            reconcile,
            channels,
            playlists,
            rebuild,
            relations,
            tags: tag_rows,
        } ==> {
            &&& action matches Action::Write {
                reconcile: a,
                channels: b,
                playlists: c,
                rebuild: d,
                relations: e,
                tags: f,
            }
            &&& a@ == reconcile
            &&& b@ == channels
            &&& c@ == playlists
            &&& d == rebuild
            &&& e@.len() == relations.len()
            &&& 0 <= i < relations.len() ==> e@[i]@ == relations[i]
            &&& f@.len() == tag_rows.len()
            &&& 0 <= i < tag_rows.len() ==> f@[i]@ == tag_rows[i]
        },
{
}

/// Every stale member is handed out for removal, statement by statement, in order.
pub proof fn law_imports_remove_every_stale_member(
    run: ImportRun,
    members: Vec<u128>,
    next: ImportRun,
    action: ImportAction,
    i: int,
)
    requires
        call_ensures(ImportRun::step, (run, Event::Members(members)), (next, action)),
    ensures
        run@.next(Event::Members(members@)).1 matches Action::RemoveStale(ids) ==> {
            &&& action matches Action::RemoveStale(v)
            &&& v@.len() == ids.len()
            &&& 0 <= i < ids.len() ==> v@[i]@ == ids[i]
        },
        run@.next(Event::Members(members@)).1 is Finish ==> action is Finish,
{
}

/// A refresh of the library takes what it is told as it is: every addon with what it offers and all
/// its catalogs, every item of a page and the count of all of them.
pub proof fn law_refreshes_take_what_they_are_told(
    run: LibraryRun,
    event: LibraryEvent,
    next: LibraryRun,
    action: LibraryAction,
)
    requires
        call_ensures(LibraryRun::step, (run, event), (next, action)),
    ensures
        match event {
            LibraryEventOf::Catalogs(addons) => (next@, action) == run@.next(
                LibraryEventOf::Catalogs(
                    Seq::new(
                        addons@.len(),
                        |a: int|
                            AddonModel {
                                resources: addons@[a].resources@,
                                catalogs: addons@[a].catalogs@,
                            },
                    ),
                ),
            ),
            LibraryEventOf::Page { ids, count } => (next@, action) == run@.next(
                LibraryEventOf::Page { ids: ids@, count },
            ),
            LibraryEventOf::IndexesRefreshed => (next@, action) == run@.next(
                LibraryEventOf::IndexesRefreshed,
            ),
            LibraryEventOf::Imported(outcome) => (next@, action) == run@.next(
                LibraryEventOf::Imported(outcome),
            ),
            LibraryEventOf::Pruned => (next@, action) == run@.next(LibraryEventOf::Pruned),
            LibraryEventOf::Unlinked => (next@, action) == run@.next(LibraryEventOf::Unlinked),
            LibraryEventOf::Processed => (next@, action) == run@.next(LibraryEventOf::Processed),
            LibraryEventOf::Invalidated => (next@, action) == run@.next(
                LibraryEventOf::Invalidated,
            ),
            LibraryEventOf::Failed => (next@, action) == run@.next(LibraryEventOf::Failed),
        },
{
    if let LibraryEventOf::Catalogs(addons) = event {
        assert(addon_models(addons@) =~= Seq::new(
            addons@.len(),
            |a: int|
                AddonModel { resources: addons@[a].resources@, catalogs: addons@[a].catalogs@ },
        ));
    }
}

/// A refresh of all metadata takes what it is told as it is: the count and every item of a batch.
pub proof fn law_metadata_runs_take_what_they_are_told(
    run: MetaRun,
    event: MetaEvent,
    next: MetaRun,
    action: MetaAction,
)
    requires
        call_ensures(MetaRun::step, (run, event), (next, action)),
    ensures
        match event {
            MetaEventOf::Counted(n) => (next, action) == run.next(MetaEventOf::Counted(n)),
            MetaEventOf::Batch(ids) => (next, action) == run.next(MetaEventOf::Batch(ids@)),
            MetaEventOf::Processed => (next, action) == run.next(MetaEventOf::Processed),
            MetaEventOf::Failed => (next, action) == run.next(MetaEventOf::Failed),
        },
{
}

/// The progress of a refresh of all metadata never says that more is done than the items reported
/// before and one more, and is out of at least one item.
pub proof fn law_metadata_progress(run: MetaRun, done: usize, r: (usize, usize))
    requires
        call_ensures(MetaRun::report, (&run, done), r),
    ensures
        r.0 == done + 1,
        r.1 >= 1,
        run.total > 0 ==> r.1 == run.total,
        run.total == 0 ==> r.1 == 1,
{
}

/// A pruning takes every id that a lookup found, and hands out every id to look for and every row
/// to delete, in order.
pub proof fn law_prunings_take_what_they_are_told(
    run: PruneRun,
    found: Vec<u128>,
    next: PruneRun,
    action: PruneAction,
)
    requires
        call_ensures(PruneRun::step, (run, Some(found)), (next, action)),
    ensures
        next@ == run@.next(Some(found@)).0,
        match run@.next(Some(found@)).1 {
            Prune::Find(ids) => action matches Prune::Find(v) && v@ == ids,
            Prune::Delete(rows) => action matches Prune::Delete(v) && v@ == rows,
            Prune::Finish => action is Finish,
        },
{
}

/// A pruning whose lookup failed deletes nothing.
pub proof fn law_failed_lookups_end_a_pruning(
    run: PruneRun,
    next: PruneRun,
    action: PruneAction,
)
    requires
        call_ensures(PruneRun::step, (run, None), (next, action)),
    ensures
        next@.finished,
        next@.found == run@.found,
        action is Finish,
{
}

/// An import shows as its progress what it counted, out of its maximum, and out of one where the
/// maximum is zero.
pub proof fn law_import_progress(run: ImportRun, r: (usize, usize))
    requires
        call_ensures(ImportRun::progress, (&run,), r),
    ensures
        r.0 == crate::counts::tally_total(run@.counts),
        r.1 >= 1,
        run@.max > 0 ==> r.1 == run@.max,
        run@.max == 0 ==> r.1 == 1,
{
}

/// A refresh of the library has as much work to do as there are addons, and at least one piece.
pub proof fn law_library_work(run: LibraryRun, r: usize)
    requires
        call_ensures(LibraryRun::total_work, (&run,), r),
    ensures
        r >= 1,
        run@.addons.len() > 0 ==> r == run@.addons.len(),
        run@.addons.len() == 0 ==> r == 1,
{
}

} // verus!
