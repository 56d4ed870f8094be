//! Which generated collection images a library refresh drops.

use vstd::prelude::*;

verus! {

/// Collections looked at per page.
pub const INVALIDATE_PAGE_SIZE: u32 = 500;

/// A collection, and whether its image is generated from a configuration.
#[derive(Clone, Copy, Debug, PartialEq, Eq, Structural)]
pub struct CollectionRow {
    pub id: u128,
    pub has_image_config: bool,
}

/// A page of collections to fetch, from `offset` on, with the number of all of them where `count`
/// says so.
#[derive(Clone, Copy, Debug, PartialEq, Eq, Structural)]
pub struct PageRequest {
    pub limit: u32,
    pub offset: Option<u32>,
    pub count: bool,
}

/// Where a pass over the collections stands.
#[derive(Clone, Copy, Debug, PartialEq, Eq, Structural)]
pub enum ImagesStage {
    /// The first page was asked for.
    First,
    /// The page at `offset` was asked for, of `total` collections.
    Paging { offset: u32, total: usize },
    Finished,
}

/// The collections with a generated image.
pub open spec fn is_generated() -> spec_fn(CollectionRow) -> bool {
    |row: CollectionRow| row.has_image_config
}

/// The ids of the collections with a generated image.
pub open spec fn generated_ids(rows: Seq<CollectionRow>) -> Seq<u128> {
    let generated = rows.filter(is_generated());
    Seq::new(generated.len(), |i: int| generated[i].id)
}

/// A page of collections and the number of all of them.
pub type Page = (Vec<CollectionRow>, usize);

impl ImagesStage {
    /// How many collections came before the page that was asked for.
    pub open spec fn offset(self) -> int {
        match self {
            ImagesStage::Paging { offset, .. } => offset as int,
            _ => 0,
        }
    }

    /// Whether a page can be taken: the count of collections seen fits.
    pub open spec fn expects(self, rows: Seq<CollectionRow>) -> bool {
        !(self is Finished) && self.offset() + rows.len() <= u32::MAX
    }

    /// The next stage, the images to drop and the page to fetch, for a page of `rows` out of
    /// `total`; a page that could not be fetched ends the pass.
    pub open spec fn next(self, page: Option<(Seq<CollectionRow>, usize)>) -> (
        ImagesStage,
        Seq<u128>,
        Option<PageRequest>,
    ) {
        match page {
            None => (ImagesStage::Finished, Seq::empty(), None),
            Some((rows, total)) => {
                let all = match self {
                    ImagesStage::Paging { total: first, .. } => first,
                    _ => total,
                };
                let seen = self.offset() + rows.len();
                let more = seen < all && !(self is Paging && rows.len() == 0);
                if more {
                    (
                        ImagesStage::Paging { offset: seen as u32, total: all },
                        generated_ids(rows),
                        Some(
                            PageRequest {
                                limit: INVALIDATE_PAGE_SIZE,
                                offset: Some(seen as u32),
                                count: false,
                            },
                        ),
                    )
                } else {
                    (ImagesStage::Finished, generated_ids(rows), None)
                }
            },
        }
    }

    /// Takes a page, `None` where it could not be fetched: gives the next stage, the images to drop
    /// and the page to fetch.
    pub fn step(self, page: Option<Page>) -> (r: (ImagesStage, Vec<u128>, Option<PageRequest>))
        requires
            page is Some ==> self.expects((page->0).0@),
        ensures
            (r.0, r.1@, r.2) == self.next(
                match page {
                    Some(p) => Some((p.0@, p.1)),
                    None => None,
                },
            ),
    {
        match page {
            None => (ImagesStage::Finished, Vec::new(), None),
            Some((rows, total)) => {
                let ids: Vec<u128> = select_generated(&rows);
                let (before, all): (u32, usize) = match self {
                    ImagesStage::Paging { offset, total: first } => (offset, first),
                    _ => (0, total),
                };
                let seen: u32 = before + rows.len() as u32;
                let paging: bool = match self {
                    ImagesStage::Paging { .. } => true,
                    _ => false,
                };
                if (seen as usize) < all && !(paging && rows.len() == 0) {
                    let request = PageRequest {
                        limit: INVALIDATE_PAGE_SIZE,
                        offset: Some(seen),
                        count: false,
                    };
                    (ImagesStage::Paging { offset: seen, total: all }, ids, Some(request))
                } else {
                    (ImagesStage::Finished, ids, None)
                }
            },
        }
    }
}

fn select_generated(rows: &Vec<CollectionRow>) -> (r: Vec<u128>)
    ensures
        r@ == generated_ids(rows@),
{
    let ghost pred = is_generated();
    let mut out: Vec<u128> = Vec::new();
    let mut i: usize = 0;
    proof {
        reveal(Seq::filter);
        assert(rows@.take(0).filter(pred) =~= Seq::<CollectionRow>::empty());
        assert(out@ =~= generated_ids(rows@.take(0)));
    }
    while i < rows.len()
        invariant
            i <= rows.len(),
            pred == is_generated(),
            out@ == generated_ids(rows@.take(i as int)),
        decreases rows.len() - i,
    {
        proof {
            assert(rows@.take(i + 1) =~= rows@.take(i as int).push(rows@[i as int]));
            rows@.take(i as int).lemma_filter_push(rows@[i as int], pred);
        }
        if rows[i].has_image_config {
            out.push(rows[i].id);
        }
        i = i + 1;
        assert(out@ =~= generated_ids(rows@.take(i as int)));
    }
    assert(rows@.take(i as int) =~= rows@);
    out
}

/// Starts a pass over the collections, and says which page to fetch first.
pub fn invalidate_collection_images() -> (r: (ImagesStage, PageRequest))
    ensures
        r.0 == ImagesStage::First,
        r.1 == (PageRequest { limit: INVALIDATE_PAGE_SIZE, offset: None, count: true }),
{
    (ImagesStage::First, PageRequest { limit: INVALIDATE_PAGE_SIZE, offset: None, count: true })
}

// ---------------------------------------------------------------------------------------------
// Laws

/// An image is dropped only if its collection has an image configuration: an uploaded image stays.
pub proof fn law_uploaded_images_stay(
    stage: ImagesStage,
    rows: Seq<CollectionRow>,
    total: usize,
    id: u128,
)
    requires
        stage.next(Some((rows, total))).1.contains(id),
    ensures
        exists|k: int|
            0 <= k < rows.len() && (#[trigger] rows[k]).id == id && rows[k].has_image_config,
{
    let pred = is_generated();
    let generated = rows.filter(pred);
    let ids = generated_ids(rows);
    let i = choose|i: int| 0 <= i < ids.len() && ids[i] == id;
    rows.lemma_filter_pred(pred, i);
    rows.lemma_filter_contains_rev(pred, generated[i]);
    let k = choose|k: int| 0 <= k < rows.len() && rows[k] == generated[i];
    assert(rows[k].id == id && rows[k].has_image_config);
}

/// The page of a table that starts at `offset`.
pub open spec fn page_of(table: Seq<CollectionRow>, offset: int) -> Seq<CollectionRow> {
    if table.len() - offset <= INVALIDATE_PAGE_SIZE {
        table.skip(offset)
    } else {
        table.subrange(offset, offset + INVALIDATE_PAGE_SIZE)
    }
}

/// The images that a pass from `stage` on drops when `table` stays as it is.
pub open spec fn swept(table: Seq<CollectionRow>, stage: ImagesStage, pages: nat) -> Seq<u128>
    decreases pages,
{
    if pages == 0 || stage is Finished {
        Seq::empty()
    } else {
        let (next, ids, _) = stage.next(
            Some((page_of(table, stage.offset()), table.len() as usize)),
        );
        ids + swept(table, next, (pages - 1) as nat)
    }
}

/// Over a table that stays as it is, a pass drops the image of every collection with an image
/// configuration, each once, and stops.
pub proof fn law_pass_reaches_every_collection(table: Seq<CollectionRow>, pages: nat)
    requires
        table.len() <= u32::MAX,
        table.len() <= usize::MAX,
        pages > table.len(),
    ensures
        swept(table, ImagesStage::First, pages) == generated_ids(table),
{
    let page = page_of(table, 0);
    if table.len() > INVALIDATE_PAGE_SIZE {
        let next = ImagesStage::Paging {
            offset: INVALIDATE_PAGE_SIZE,
            total: table.len() as usize,
        };
        lemma_sweep(table, next, (pages - 1) as nat);
        lemma_generated_concat(page, table.skip(INVALIDATE_PAGE_SIZE as int));
        assert(page + table.skip(INVALIDATE_PAGE_SIZE as int) =~= table);
    } else {
        assert(page =~= table);
        assert(swept(table, ImagesStage::Finished, (pages - 1) as nat) =~= Seq::empty());
        assert(swept(table, ImagesStage::First, pages) =~= generated_ids(table));
    }
}

proof fn lemma_generated_concat(a: Seq<CollectionRow>, b: Seq<CollectionRow>)
    ensures
        generated_ids(a + b) == generated_ids(a) + generated_ids(b),
{
    Seq::filter_distributes_over_add(a, b, is_generated());
    assert(generated_ids(a + b) =~= generated_ids(a) + generated_ids(b));
}

proof fn lemma_sweep(table: Seq<CollectionRow>, stage: ImagesStage, pages: nat)
    requires
        table.len() <= u32::MAX,
        table.len() <= usize::MAX,
        stage matches ImagesStage::Paging { offset, total } && offset < table.len() && total
            == table.len() && pages >= table.len() - offset,
    ensures
        swept(table, stage, pages) == generated_ids(table.skip(stage.offset())),
    decreases pages,
{
    let offset = stage.offset();
    let page = page_of(table, offset);
    let rest = table.skip(offset);
    let seen = offset + page.len();
    if seen < table.len() {
        let next = ImagesStage::Paging { offset: seen as u32, total: table.len() as usize };
        lemma_sweep(table, next, (pages - 1) as nat);
        lemma_generated_concat(page, table.skip(seen));
        assert(page + table.skip(seen) =~= rest);
    } else {
        assert(page =~= rest);
        assert(swept(table, ImagesStage::Finished, (pages - 1) as nat) =~= Seq::empty());
        assert(swept(table, stage, pages) =~= generated_ids(rest));
    }
}

/// The image of every collection on a page that has an image configuration is dropped, in the
/// order of the page, whatever page it is.
pub proof fn law_generated_images_are_dropped(
    stage: ImagesStage,
    rows: Seq<CollectionRow>,
    total: usize,
    k: int,
)
    requires
        0 <= k < rows.len(),
        rows[k].has_image_config,
    ensures
        stage.next(Some((rows, total))).1.contains(rows[k].id),
        stage.next(Some((rows, total))).1.len() == rows.filter(
            |row: CollectionRow| row.has_image_config,
        ).len(),
{
    let pred = |row: CollectionRow| row.has_image_config;
    assert(pred =~= is_generated());
    rows.lemma_filter_contains(pred, k);
    let generated = rows.filter(pred);
    let i = choose|i: int| 0 <= i < generated.len() && generated[i] == rows[k];
    assert(generated_ids(rows)[i] == rows[k].id);
}

/// The next page starts behind all collections seen so far, as long as the number of collections
/// that the first page reported is not reached and the last page was not empty; it holds up to 500
/// collections and is not counted again. A page that could not be fetched ends the pass.
pub proof fn law_pages_follow_one_another(
    stage: ImagesStage,
    rows: Seq<CollectionRow>,
    total: usize,
)
    requires
        stage.expects(rows),
    ensures
        ({
            let (next, dropped, request) = stage.next(Some((rows, total)));
            let before = match stage {
                ImagesStage::Paging { offset, .. } => offset as int,
                _ => 0,
            };
            let all = match stage {
                ImagesStage::Paging { total: first, .. } => first,
                _ => total,
            };
            let goes_on = before + rows.len() < all && (stage is First || rows.len() > 0);
            &&& goes_on ==> {
                &&& next == (ImagesStage::Paging {
                    offset: (before + rows.len()) as u32,
                    total: all,
                })
                &&& request == Some(
                    PageRequest {
                        limit: 500,
                        offset: Some((before + rows.len()) as u32),
                        count: false,
                    },
                )
            }
            &&& !goes_on ==> next is Finished && request is None
        }),
        stage.next(None).0 is Finished,
        stage.next(None).1.len() == 0,
        stage.next(None).2 is None,
{
}

} // verus!
