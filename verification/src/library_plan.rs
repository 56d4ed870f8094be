//! Which catalogs a library refresh imports.

use std::collections::HashSet;

use vstd::prelude::*;

use crate::media::{top_level, MediaKind};
use crate::sequences::{lemma_from_flatten, lemma_in_flatten};

verus! {

broadcast use vstd::std_specs::hash::group_hash_axioms;

/// The items taken from a catalog where neither it nor the server sets a maximum.
pub const DEFAULT_MAX_ITEMS: u32 = 250;

/// What an addon offers.
#[derive(Clone, Copy, Debug, PartialEq, Eq, Structural)]
pub enum ResourceType {
    Catalog,
    Meta,
    Stream,
    Subtitles,
    AddonCatalog,
}

/// A catalog of an addon.
#[derive(Clone, Copy, Debug, PartialEq, Eq, Structural)]
pub struct CatalogInfo {
    pub collection_id: u128,
    pub enabled: bool,
    pub max_items: Option<u32>,
}

/// An addon and its catalogs.
pub struct AddonCatalogs {
    pub resources: Vec<ResourceType>,
    pub catalogs: Vec<CatalogInfo>,
}

/// What an addon and its catalogs hold.
pub struct AddonModel {
    pub resources: Seq<ResourceType>,
    pub catalogs: Seq<CatalogInfo>,
}

impl View for AddonCatalogs {
    type V = AddonModel;

    open spec fn view(&self) -> AddonModel {
        AddonModel { resources: self.resources@, catalogs: self.catalogs@ }
    }
}

/// What the addons hold.
pub open spec fn addon_models(addons: Seq<AddonCatalogs>) -> Seq<AddonModel> {
    Seq::new(addons.len(), |a: int| addons[a]@)
}

/// One catalog to import.
#[derive(Clone, Copy, Debug, PartialEq, Eq, Structural)]
pub struct PlannedImport {
    /// The position of the addon, and of the catalog among the addon's.
    pub addon: usize,
    pub catalog: usize,
    pub collection_id: u128,
    /// The most items to take.
    pub max: usize,
    /// How many of the addon's imports come before this one, and how many there are.
    pub done: usize,
    pub of: usize,
}

// ---------------------------------------------------------------------------------------------
// Kinds

/// The kinds that a library refresh imports.
pub open spec fn library_kind_list() -> Seq<MediaKind> {
    seq![
        MediaKind::Movie,
        MediaKind::Series,
        MediaKind::Artist,
        MediaKind::Album,
        MediaKind::Track,
        MediaKind::Playlist,
    ]
}

/// The kinds that a library refresh imports.
pub fn library_kinds() -> (r: Vec<MediaKind>)
    ensures
        r@ == library_kind_list(),
{
    let r: Vec<MediaKind> = vec![
        MediaKind::Movie,
        MediaKind::Series,
        MediaKind::Artist,
        MediaKind::Album,
        MediaKind::Track,
        MediaKind::Playlist,
    ];
    assert(r@ =~= library_kind_list());
    r
}

/// A library refresh imports every kind that stands on its own in a catalog but the channels.
pub proof fn law_library_kinds_are_top_level_but_channels(kind: MediaKind)
    ensures
        library_kind_list().contains(kind) <==> top_level(kind) && kind != MediaKind::TvChannel,
{
    let kinds = library_kind_list();
    assert(kinds[0] == MediaKind::Movie);
    assert(kinds[1] == MediaKind::Series);
    assert(kinds[2] == MediaKind::Artist);
    assert(kinds[3] == MediaKind::Album);
    assert(kinds[4] == MediaKind::Track);
    assert(kinds[5] == MediaKind::Playlist);
}

/// The maximum for catalogs that set none.
pub fn global_max(catalog_max_items: Option<u32>) -> (r: usize)
    ensures
        r == match catalog_max_items {
            Some(n) => n,
            None => DEFAULT_MAX_ITEMS,
        },
{
    match catalog_max_items {
        Some(n) => n as usize,
        None => DEFAULT_MAX_ITEMS as usize,
    }
}

// ---------------------------------------------------------------------------------------------
// The plan

/// The numbers below `n`.
pub open spec fn positions(n: nat) -> Seq<usize> {
    Seq::new(n, |i: int| i as usize)
}

/// The positions of enabled catalogs.
pub open spec fn enabled_at(catalogs: Seq<CatalogInfo>) -> spec_fn(usize) -> bool {
    |k: usize| catalogs[k as int].enabled
}

/// The positions of the catalogs that are imported from an addon: the enabled ones, where it offers
/// catalogs at all.
pub open spec fn imported_at(addon: AddonModel) -> Seq<usize> {
    if addon.resources.contains(ResourceType::Catalog) {
        positions(addon.catalogs.len()).filter(enabled_at(addon.catalogs))
    } else {
        Seq::empty()
    }
}

/// The most items to take from a catalog: its own maximum, else the common one.
pub open spec fn catalog_max(catalog: CatalogInfo, global: usize) -> usize {
    match catalog.max_items {
        Some(n) => n as usize,
        None => global,
    }
}

/// The imports from the addon at position `a`.
pub open spec fn addon_plan(addon: AddonModel, global: usize, a: int) -> Seq<PlannedImport> {
    let at = imported_at(addon);
    Seq::new(
        at.len(),
        |i: int|
            PlannedImport {
                addon: a as usize,
                catalog: at[i],
                collection_id: addon.catalogs[at[i] as int].collection_id,
                max: catalog_max(addon.catalogs[at[i] as int], global),
                done: i as usize,
                of: at.len() as usize,
            },
    )
}

/// The imports from all addons, addon by addon.
pub open spec fn import_plan(addons: Seq<AddonModel>, global: usize) -> Seq<PlannedImport> {
    Seq::new(addons.len(), |a: int| addon_plan(addons[a], global, a)).flatten()
}

/// The collections of all catalogs, imported or not.
pub open spec fn domain_of(addons: Seq<AddonModel>) -> Set<u128> {
    Set::new(
        |id: u128|
            exists|a: int, k: int|
                0 <= a < addons.len() && 0 <= k < addons[a].catalogs.len() && (
                #[trigger] addons[a].catalogs[k]).collection_id == id,
    )
}

/// The collections of the planned imports.
pub open spec fn planned_collections(plan: Seq<PlannedImport>) -> Set<u128> {
    Set::new(
        |id: u128| exists|i: int| 0 <= i < plan.len() && (#[trigger] plan[i]).collection_id == id,
    )
}

fn offers_catalogs(resources: &Vec<ResourceType>) -> (r: bool)
    ensures
        r == resources@.contains(ResourceType::Catalog),
{
    let mut i: usize = 0;
    while i < resources.len()
        invariant
            i <= resources.len(),
            forall|k: int| 0 <= k < i ==> resources@[k] != ResourceType::Catalog,
        decreases resources.len() - i,
    {
        if resources[i] == ResourceType::Catalog {
            assert(resources@[i as int] == ResourceType::Catalog);
            return true;
        }
        i = i + 1;
    }
    false
}

fn find_imported(addon: &AddonCatalogs) -> (r: Vec<usize>)
    ensures
        r@ == imported_at(addon@),
        forall|i: int| 0 <= i < r.len() ==> (#[trigger] r@[i]) < addon.catalogs.len(),
{
    let mut out: Vec<usize> = Vec::new();
    if !offers_catalogs(&addon.resources) {
        assert(out@ =~= imported_at(addon@));
        return out;
    }
    let ghost all = positions(addon.catalogs@.len());
    let ghost pred = enabled_at(addon.catalogs@);
    let mut k: usize = 0;
    proof {
        reveal(Seq::filter);
        assert(all.take(0).filter(pred) =~= Seq::<usize>::empty());
    }
    while k < addon.catalogs.len()
        invariant
            k <= addon.catalogs.len(),
            all == positions(addon.catalogs@.len()),
            pred == enabled_at(addon.catalogs@),
            out@ == all.take(k as int).filter(pred),
            forall|i: int| 0 <= i < out.len() ==> (#[trigger] out@[i]) < addon.catalogs.len(),
        decreases addon.catalogs.len() - k,
    {
        proof {
            assert(all.take(k + 1) =~= all.take(k as int).push(k));
            all.take(k as int).lemma_filter_push(k, pred);
        }
        if addon.catalogs[k].enabled {
            out.push(k);
        }
        k = k + 1;
    }
    assert(all.take(k as int) =~= all);
    out
}

/// The imports from all addons, addon by addon.
pub fn plan_imports(addons: &Vec<AddonCatalogs>, global: usize) -> (r: Vec<PlannedImport>)
    ensures
        r@ == import_plan(addon_models(addons@), global),
{
    let ghost models = addon_models(addons@);
    let ghost parts = Seq::new(models.len(), |a: int| addon_plan(models[a], global, a));
    let mut out: Vec<PlannedImport> = Vec::new();
    let mut a: usize = 0;
    assert(parts.take(0).flatten() =~= Seq::<PlannedImport>::empty());
    while a < addons.len()
        invariant
            a <= addons.len(),
            models == addon_models(addons@),
            parts == Seq::new(models.len(), |a: int| addon_plan(models[a], global, a)),
            out@ == parts.take(a as int).flatten(),
        decreases addons.len() - a,
    {
        let at: Vec<usize> = find_imported(&addons[a]);
        let ghost before = out@;
        let ghost part = addon_plan(models[a as int], global, a as int);
        let mut i: usize = 0;
        while i < at.len()
            invariant
                i <= at.len(),
                a < addons.len(),
                models == addon_models(addons@),
                at@ == imported_at(models[a as int]),
                forall|i: int|
                    0 <= i < at.len() ==> (#[trigger] at@[i]) < addons@[a as int].catalogs.len(),
                part == addon_plan(models[a as int], global, a as int),
                out@ == before + part.take(i as int),
            decreases at.len() - i,
        {
            let catalog: CatalogInfo = addons[a].catalogs[at[i]];
            let max: usize = match catalog.max_items {
                Some(n) => n as usize,
                None => global,
            };
            out.push(
                PlannedImport {
                    addon: a,
                    catalog: at[i],
                    collection_id: catalog.collection_id,
                    max,
                    done: i,
                    of: at.len(),
                },
            );
            i = i + 1;
            assert(out@ =~= before + part.take(i as int));
        }
        proof {
            assert(part.take(i as int) =~= part);
            parts.take(a as int).lemma_flatten_push(part);
            assert(parts.take(a + 1) =~= parts.take(a as int).push(part));
        }
        a = a + 1;
    }
    assert(parts.take(a as int) =~= parts);
    out
}

/// The collections of all catalogs, imported or not.
pub fn domain_collections(addons: &Vec<AddonCatalogs>) -> (r: HashSet<u128>)
    ensures
        r@ == domain_of(addon_models(addons@)),
{
    let ghost models = addon_models(addons@);
    let mut out: HashSet<u128> = HashSet::new();
    let mut a: usize = 0;
    while a < addons.len()
        invariant
            a <= addons.len(),
            models == addon_models(addons@),
            forall|id: u128| #[trigger]
                out@.contains(id) <==> exists|x: int, k: int|
                    0 <= x < a && 0 <= k < models[x].catalogs.len() && (
                    #[trigger] models[x].catalogs[k]).collection_id == id,
        decreases addons.len() - a,
    {
        let mut k: usize = 0;
        let ghost before = out@;
        while k < addons[a].catalogs.len()
            invariant
                a < addons.len(),
                models == addon_models(addons@),
                k <= addons@[a as int].catalogs.len(),
                forall|id: u128| #[trigger]
                    out@.contains(id) <==> before.contains(id) || exists|j: int|
                        0 <= j < k && (#[trigger] models[a as int].catalogs[j]).collection_id
                            == id,
            decreases addons@[a as int].catalogs.len() - k,
        {
            let ghost mid = out@;
            let id: u128 = addons[a].catalogs[k].collection_id;
            out.insert(id);
            proof {
                assert(models[a as int].catalogs[k as int].collection_id == id);
                assert forall|x: u128| #[trigger] out@.contains(x) <==> before.contains(x)
                    || exists|j: int|
                    0 <= j < k + 1 && (#[trigger] models[a as int].catalogs[j]).collection_id
                        == x by {
                    assert(out@.contains(x) <==> mid.contains(x) || x == id);
                    if mid.contains(x) && !before.contains(x) {
                        let j = choose|j: int|
                            0 <= j < k && (#[trigger] models[a as int].catalogs[j]).collection_id
                                == x;
                        assert(models[a as int].catalogs[j].collection_id == x);
                    }
                }
            }
            k = k + 1;
        }
        proof {
            assert forall|id: u128| #[trigger] out@.contains(id) <==> exists|x: int, j: int|
                0 <= x < a + 1 && 0 <= j < models[x].catalogs.len() && (
                #[trigger] models[x].catalogs[j]).collection_id == id by {
                if before.contains(id) {
                    let (x, j) = choose|x: int, j: int|
                        0 <= x < a && 0 <= j < models[x].catalogs.len() && (
                        #[trigger] models[x].catalogs[j]).collection_id == id;
                    assert(models[x].catalogs[j].collection_id == id);
                }
            }
        }
        a = a + 1;
    }
    assert(out@ =~= domain_of(models));
    out
}

/// The collections of the planned imports.
pub fn valid_collections(plan: &Vec<PlannedImport>) -> (r: HashSet<u128>)
    ensures
        r@ == planned_collections(plan@),
{
    let mut out: HashSet<u128> = HashSet::new();
    let mut i: usize = 0;
    while i < plan.len()
        invariant
            i <= plan.len(),
            forall|id: u128| #[trigger]
                out@.contains(id) <==> exists|j: int|
                    0 <= j < i && (#[trigger] plan@[j]).collection_id == id,
        decreases plan.len() - i,
    {
        let ghost before = out@;
        let id: u128 = plan[i].collection_id;
        out.insert(id);
        proof {
            assert(plan@[i as int].collection_id == id);
            assert forall|x: u128| #[trigger] out@.contains(x) <==> exists|j: int|
                0 <= j < i + 1 && (#[trigger] plan@[j]).collection_id == x by {
                assert(out@.contains(x) <==> before.contains(x) || x == id);
                if before.contains(x) {
                    let j = choose|j: int| 0 <= j < i && (#[trigger] plan@[j]).collection_id == x;
                    assert(plan@[j].collection_id == x);
                }
            }
        }
        i = i + 1;
    }
    assert(out@ =~= planned_collections(plan@));
    out
}

// ---------------------------------------------------------------------------------------------
// Laws

/// Every planned import is of an enabled catalog of an addon that offers catalogs, with the
/// catalog's own maximum, else the common one; and it counts among the addon's imports.
pub proof fn law_planned_catalogs_are_enabled(addons: Seq<AddonModel>, global: usize, i: int)
    requires
        addons.len() <= usize::MAX,
        forall|a: int| 0 <= a < addons.len() ==> (#[trigger] addons[a]).catalogs.len() <= usize::MAX,
        0 <= i < import_plan(addons, global).len(),
    ensures
        ({
            let p = import_plan(addons, global)[i];
            &&& p.addon < addons.len()
            &&& addons[p.addon as int].resources.contains(ResourceType::Catalog)
            &&& p.catalog < addons[p.addon as int].catalogs.len()
            &&& addons[p.addon as int].catalogs[p.catalog as int].enabled
            &&& p.collection_id
                == addons[p.addon as int].catalogs[p.catalog as int].collection_id
            &&& p.max == catalog_max(addons[p.addon as int].catalogs[p.catalog as int], global)
            &&& p.done < p.of
        }),
{
    let parts = Seq::new(addons.len(), |a: int| addon_plan(addons[a], global, a));
    let (a, j) = lemma_from_flatten(parts, i);
    let addon = addons[a];
    let all = positions(addon.catalogs.len());
    let pred = enabled_at(addon.catalogs);
    all.lemma_filter_len(pred);
    all.lemma_filter_pred(pred, j);
    all.lemma_filter_contains_rev(pred, imported_at(addon)[j]);
}

/// Every enabled catalog of an addon that offers catalogs is planned.
pub proof fn law_enabled_catalogs_are_planned(
    addons: Seq<AddonModel>,
    global: usize,
    a: int,
    k: int,
)
    requires
        0 <= a < addons.len() <= usize::MAX,
        0 <= k < addons[a].catalogs.len() <= usize::MAX,
        addons[a].resources.contains(ResourceType::Catalog),
        addons[a].catalogs[k].enabled,
    ensures
        exists|i: int|
            0 <= i < import_plan(addons, global).len() && (#[trigger] import_plan(
                addons,
                global,
            )[i]).addon == a && import_plan(addons, global)[i].catalog == k,
{
    let parts = Seq::new(addons.len(), |a: int| addon_plan(addons[a], global, a));
    let addon = addons[a];
    let all = positions(addon.catalogs.len());
    let pred = enabled_at(addon.catalogs);
    assert(all[k] == k as usize);
    all.lemma_filter_contains(pred, k);
    let at = imported_at(addon);
    let j = choose|j: int| 0 <= j < at.len() && at[j] == k as usize;
    assert(parts[a][j].addon == a && parts[a][j].catalog == k);
    lemma_in_flatten(parts, a, j);
    let plan = import_plan(addons, global);
    let i = choose|i: int| 0 <= i < plan.len() && plan[i] == parts[a][j];
    assert(plan[i].addon == a && plan[i].catalog == k);
}

/// What is imported lies in the domain, so a cleanup scoped to the domain covers it.
pub proof fn law_planned_collections_lie_in_the_domain(addons: Seq<AddonModel>, global: usize)
    requires
        addons.len() <= usize::MAX,
        forall|a: int| 0 <= a < addons.len() ==> (#[trigger] addons[a]).catalogs.len() <= usize::MAX,
    ensures
        planned_collections(import_plan(addons, global)).subset_of(domain_of(addons)),
{
    let plan = import_plan(addons, global);
    assert forall|id: u128| planned_collections(plan).contains(id) implies domain_of(
        addons,
    ).contains(id) by {
        let i = choose|i: int| 0 <= i < plan.len() && (#[trigger] plan[i]).collection_id == id;
        law_planned_catalogs_are_enabled(addons, global, i);
        let p = plan[i];
        assert(addons[p.addon as int].catalogs[p.catalog as int].collection_id == id);
    }
}

} // verus!
