//! How many items of each kind an import has seen.

use vstd::prelude::*;

use crate::media::{top_level, CatalogItem, MediaKind};

verus! {

/// The count of a kind, zero where the tally has none.
pub open spec fn tally_of(tally: Map<MediaKind, nat>, kind: MediaKind) -> nat {
    if tally.dom().contains(kind) {
        tally[kind]
    } else {
        0
    }
}

/// The tally after one more item of `kind`.
pub open spec fn tallied(tally: Map<MediaKind, nat>, kind: MediaKind) -> Map<MediaKind, nat> {
    tally.insert(kind, tally_of(tally, kind) + 1)
}

/// The tally after `items`.
pub open spec fn tallied_all(tally: Map<MediaKind, nat>, items: Seq<CatalogItem>) -> Map<
    MediaKind,
    nat,
>
    decreases items.len(),
{
    if items.len() == 0 {
        tally
    } else {
        tallied(tallied_all(tally, items.drop_last()), items.last().kind)
    }
}

/// The sum over all kinds that stand on their own.
pub open spec fn tally_total(tally: Map<MediaKind, nat>) -> nat {
    tally_of(tally, MediaKind::Movie) + tally_of(tally, MediaKind::Series) + tally_of(
        tally,
        MediaKind::Artist,
    ) + tally_of(tally, MediaKind::TvChannel) + tally_of(tally, MediaKind::Album) + tally_of(
        tally,
        MediaKind::Track,
    ) + tally_of(tally, MediaKind::Playlist)
}

/// Whether `items` are all of kinds that stand on their own.
pub open spec fn all_top_level(items: Seq<CatalogItem>) -> bool {
    forall|i: int| 0 <= i < items.len() ==> top_level((#[trigger] items[i]).kind)
}

/// Counting `items` adds, to each kind, the number of items of that kind.
pub proof fn law_tally_counts_kinds(
    tally: Map<MediaKind, nat>,
    items: Seq<CatalogItem>,
    kind: MediaKind,
)
    ensures
        tally_of(tallied_all(tally, items), kind) == tally_of(tally, kind) + items.filter(
            |item: CatalogItem| item.kind == kind,
        ).len(),
    decreases items.len(),
{
    reveal(Seq::filter);
    if items.len() > 0 {
        law_tally_counts_kinds(tally, items.drop_last(), kind);
    }
}

/// Counting `items` of kinds that stand on their own raises the total by their number.
pub proof fn law_tally_total_grows(tally: Map<MediaKind, nat>, items: Seq<CatalogItem>)
    requires
        all_top_level(items),
    ensures
        tally_total(tallied_all(tally, items)) == tally_total(tally) + items.len(),
    decreases items.len(),
{
    if items.len() > 0 {
        let front = items.drop_last();
        assert(all_top_level(front)) by {
            assert forall|i: int| 0 <= i < front.len() implies top_level(
                (#[trigger] front[i]).kind,
            ) by {
                assert(items[i] == front[i]);
            }
        }
        law_tally_total_grows(tally, front);
        assert(top_level(items.last().kind));
    }
}

/// A count for each kind that stands on its own.
#[derive(Clone, Copy, Debug, PartialEq, Eq, Structural)]
pub struct KindCounts {
    movie: usize,
    series: usize,
    artist: usize,
    tv_channel: usize,
    album: usize,
    track: usize,
    playlist: usize,
}

impl View for KindCounts {
    type V = Map<MediaKind, nat>;

    closed spec fn view(&self) -> Map<MediaKind, nat> {
        Map::new(|kind: MediaKind| self.held(kind) > 0, |kind: MediaKind| self.held(kind))
    }
}

impl KindCounts {
    spec fn held(self, kind: MediaKind) -> nat {
        match kind {
            MediaKind::Movie => self.movie as nat,
            MediaKind::Series => self.series as nat,
            MediaKind::Artist => self.artist as nat,
            MediaKind::TvChannel => self.tv_channel as nat,
            MediaKind::Album => self.album as nat,
            MediaKind::Track => self.track as nat,
            MediaKind::Playlist => self.playlist as nat,
            _ => 0,
        }
    }

    /// No item seen yet.
    pub fn new() -> (r: KindCounts)
        ensures
            r@ == Map::<MediaKind, nat>::empty(),
    {
        let r = KindCounts {
            movie: 0,
            series: 0,
            artist: 0,
            tv_channel: 0,
            album: 0,
            track: 0,
            playlist: 0,
        };
        assert(r@ =~= Map::<MediaKind, nat>::empty());
        r
    }

    /// The count of `kind`; `None` where no item of it was seen.
    pub fn get(&self, kind: MediaKind) -> (r: Option<usize>)
        ensures
            r is Some <==> self@.dom().contains(kind),
            r is Some ==> r->0 == self@[kind],
    {
        let n: usize = match kind {
            MediaKind::Movie => self.movie,
            MediaKind::Series => self.series,
            MediaKind::Artist => self.artist,
            MediaKind::TvChannel => self.tv_channel,
            MediaKind::Album => self.album,
            MediaKind::Track => self.track,
            MediaKind::Playlist => self.playlist,
            _ => 0,
        };
        if n > 0 {
            Some(n)
        } else {
            None
        }
    }

    /// Whether no item was seen.
    pub fn is_empty(&self) -> (r: bool)
        ensures
            r == (self@ == Map::<MediaKind, nat>::empty()),
    {
        let r: bool = self.movie == 0 && self.series == 0 && self.artist == 0 && self.tv_channel
            == 0 && self.album == 0 && self.track == 0 && self.playlist == 0;
        proof {
            if r {
                assert(self@ =~= Map::<MediaKind, nat>::empty());
            } else {
                assert(self@.dom().contains(MediaKind::Movie) || self@.dom().contains(
                    MediaKind::Series,
                ) || self@.dom().contains(MediaKind::Artist) || self@.dom().contains(
                    MediaKind::TvChannel,
                ) || self@.dom().contains(MediaKind::Album) || self@.dom().contains(
                    MediaKind::Track,
                ) || self@.dom().contains(MediaKind::Playlist));
            }
        }
        r
    }

    /// The number of items seen.
    pub fn total(&self) -> (r: usize)
        requires
            tally_total(self@) <= usize::MAX,
        ensures
            r == tally_total(self@),
    {
        self.movie + self.series + self.artist + self.tv_channel + self.album + self.track
            + self.playlist
    }

    /// One more item of `kind`.
    pub fn record(&mut self, kind: MediaKind)
        requires
            top_level(kind),
            tally_total(old(self)@) < usize::MAX,
        ensures
            final(self)@ == tallied(old(self)@, kind),
    {
        match kind {
            MediaKind::Movie => self.movie = self.movie + 1,
            MediaKind::Series => self.series = self.series + 1,
            MediaKind::Artist => self.artist = self.artist + 1,
            MediaKind::TvChannel => self.tv_channel = self.tv_channel + 1,
            MediaKind::Album => self.album = self.album + 1,
            MediaKind::Track => self.track = self.track + 1,
            MediaKind::Playlist => self.playlist = self.playlist + 1,
            _ => {},
        }
        assert(self@ =~= tallied(old(self)@, kind));
    }

    /// Every one of `items`.
    pub fn record_all(&mut self, items: &Vec<CatalogItem>)
        requires
            all_top_level(items@),
            tally_total(old(self)@) + items.len() <= usize::MAX,
        ensures
            final(self)@ == tallied_all(old(self)@, items@),
    {
        let ghost start = self@;
        let mut i: usize = 0;
        assert(items@.take(0) =~= Seq::<CatalogItem>::empty());
        while i < items.len()
            invariant
                i <= items.len(),
                all_top_level(items@),
                tally_total(start) + items.len() <= usize::MAX,
                self@ == tallied_all(start, items@.take(i as int)),
            decreases items.len() - i,
        {
            proof {
                let seen = items@.take(i as int);
                assert(all_top_level(seen)) by {
                    assert forall|k: int| 0 <= k < seen.len() implies top_level(
                        (#[trigger] seen[k]).kind,
                    ) by {
                        assert(items@[k] == seen[k]);
                    }
                }
                law_tally_total_grows(start, seen);
                assert(items@.take(i + 1).drop_last() =~= seen);
                assert(top_level(items@[i as int].kind));
            }
            self.record(items[i].kind);
            i = i + 1;
        }
        assert(items@.take(i as int) =~= items@);
    }
}

/// The count of every kind is the number of items of that kind, and the sum over all kinds is the
/// number of items, where all stand on their own and counting starts from nothing.
pub proof fn law_counts_from_nothing(items: Seq<CatalogItem>, kind: MediaKind)
    requires
        all_top_level(items),
    ensures
        ({
            let tally = tallied_all(Map::<MediaKind, nat>::empty(), items);
            let n = items.filter(|item: CatalogItem| item.kind == kind).len();
            &&& n > 0 ==> tally.dom().contains(kind) && tally[kind] == n
            &&& n == 0 ==> !tally.dom().contains(kind)
            &&& tally_total(tally) == items.len()
        }),
{
    law_tally_counts_kinds(Map::<MediaKind, nat>::empty(), items, kind);
    law_tally_total_grows(Map::<MediaKind, nat>::empty(), items);
    lemma_counted_kinds_are_present(items, kind);
}

proof fn lemma_counted_kinds_are_present(items: Seq<CatalogItem>, kind: MediaKind)
    ensures
        ({
            let tally = tallied_all(Map::<MediaKind, nat>::empty(), items);
            tally.dom().contains(kind) ==> tally[kind] > 0
        }),
    decreases items.len(),
{
    if items.len() > 0 {
        lemma_counted_kinds_are_present(items.drop_last(), kind);
    }
}

/// The count of a kind is what the tally has for it, and nothing where it has none.
pub proof fn law_count_of_a_kind(tally: Map<MediaKind, nat>, kind: MediaKind)
    ensures
        tally.dom().contains(kind) ==> tally_of(tally, kind) == tally[kind],
        !tally.dom().contains(kind) ==> tally_of(tally, kind) == 0,
{
}

} // verus!
