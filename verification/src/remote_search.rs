//! Searching movies and series at a remote provider, and applying what a user picked.

use vstd::prelude::*;
use vstd::string::*;

use crate::calendar::{to_rfc3339, written_utc, Date};
use crate::number::{decimal, decimal_text, law_decimal_reads_back, parse_i64, parsed_i64};
use crate::text::{characters, same_text};

verus! {

// ---------------------------------------------------------------------------------------------
// Failures

/// The status of a request that was done and has nothing to say.
pub const NO_CONTENT: u16 = 204;

/// Why a request failed.
#[derive(Clone, Copy, Debug, PartialEq, Eq, Structural)]
pub enum ApiError {
    ItemNotFound,
    SaveFailed,
    RefreshFailed,
}

impl ApiError {
    /// The status to answer with.
    pub fn status(&self) -> (r: u16)
        ensures
            r == match *self {
                ApiError::ItemNotFound => 404u16,
                ApiError::SaveFailed => 500u16,
                ApiError::RefreshFailed => 500u16,
            },
    {
        match self {
            ApiError::ItemNotFound => 404,
            ApiError::SaveFailed => 500,
            ApiError::RefreshFailed => 500,
        }
    }

    /// What to say about it.
    pub fn message(&self) -> (r: &'static str)
        ensures
            r@ == match *self {
                ApiError::ItemNotFound => "item not found"@,
                ApiError::SaveFailed => "failed to save item"@,
                ApiError::RefreshFailed => "metadata refresh failed"@,
            },
    {
        match self {
            ApiError::ItemNotFound => "item not found",
            ApiError::SaveFailed => "failed to save item",
            ApiError::RefreshFailed => "metadata refresh failed",
        }
    }
}

// ---------------------------------------------------------------------------------------------
// Provider ids

/// Ids of one item at several providers, by the name of the provider.
pub struct ProviderIds {
    entries: Vec<(String, String)>,
}

/// The ids that a list of entries describes: where a provider occurs twice, the later entry counts.
pub open spec fn entries_map(entries: Seq<(String, String)>) -> Map<Seq<char>, Seq<char>>
    decreases entries.len(),
{
    if entries.len() == 0 {
        Map::empty()
    } else {
        entries_map(entries.drop_last()).insert(entries.last().0@, entries.last().1@)
    }
}

impl View for ProviderIds {
    type V = Map<Seq<char>, Seq<char>>;

    closed spec fn view(&self) -> Map<Seq<char>, Seq<char>> {
        entries_map(self.entries@)
    }
}

impl ProviderIds {
    /// No ids.
    pub fn new() -> (r: ProviderIds)
        ensures
            r@ == Map::<Seq<char>, Seq<char>>::empty(),
    {
        ProviderIds { entries: Vec::new() }
    }

    /// Sets the id at one provider.
    pub fn insert(&mut self, provider: String, id: String)
        ensures
            final(self)@ == old(self)@.insert(provider@, id@),
    {
        let ghost before = self.entries@;
        self.entries.push((provider, id));
        assert(self.entries@.drop_last() =~= before);
    }

    /// The id at one provider.
    pub fn get(&self, provider: &str) -> (r: Option<&str>)
        ensures
            r is Some <==> self@.dom().contains(provider@),
            r is Some ==> r->0@ == self@[provider@],
    {
        let mut n: usize = self.entries.len();
        assert(self.entries@.take(n as int) =~= self.entries@);
        while n > 0
            invariant
                n <= self.entries.len(),
                self@.dom().contains(provider@) <==> entries_map(
                    self.entries@.take(n as int),
                ).dom().contains(provider@),
                self@.dom().contains(provider@) ==> self@[provider@] == entries_map(
                    self.entries@.take(n as int),
                )[provider@],
            decreases n,
        {
            assert(self.entries@.take(n as int).drop_last() =~= self.entries@.take(n - 1));
            if same_text(self.entries[n - 1].0.as_str(), provider) {
                return Some(self.entries[n - 1].1.as_str());
            }
            n = n - 1;
        }
        None
    }
}

// ---------------------------------------------------------------------------------------------
// Searching

/// What a client searches for.
pub struct SearchInfo {
    pub name: Option<String>,
    pub year: Option<i64>,
}

/// A search to send to the provider.
pub struct ProviderSearch {
    pub query: String,
    pub year: Option<i64>,
}

/// What the provider found.
pub struct ProviderEntry {
    pub id: i64,
    pub title: String,
    pub date: Option<Date>,
    pub poster_path: Option<String>,
}

/// A search result as clients see it.
pub struct RemoteSearchResult {
    pub name: Option<String>,
    pub production_year: Option<i64>,
    pub image_url: Option<String>,
    pub search_provider_name: Option<String>,
    pub provider_ids: ProviderIds,
    pub premiere_date: Option<String>,
}

/// The name that is searched for; empty where none is given.
pub open spec fn searched_name(info: Option<SearchInfo>) -> Seq<char> {
    match info {
        Some(i) => match i.name {
            Some(name) => name@,
            None => Seq::empty(),
        },
        None => Seq::empty(),
    }
}

/// The year that is searched for.
pub open spec fn searched_year(info: Option<SearchInfo>) -> Option<i64> {
    match info {
        Some(i) => i.year,
        None => None,
    }
}

/// The search for a movie to send; none where there is no provider or no name.
pub fn remote_search_movie(info: Option<SearchInfo>, has_client: bool) -> (r: Option<
    ProviderSearch,
>)
    ensures
        r is Some <==> has_client && searched_name(info).len() > 0,
        r is Some ==> (r->0).query@ == searched_name(info) && (r->0).year == searched_year(info),
{
    if !has_client {
        return None;
    }
    match info {
        Some(i) => match i.name {
            Some(name) => if name.as_str().unicode_len() == 0 {
                None
            } else {
                Some(ProviderSearch { query: name, year: i.year })
            },
            None => None,
        },
        None => None,
    }
}

/// The search for a series to send: by name alone; none where there is no provider or no name.
pub fn remote_search_series(info: Option<SearchInfo>, has_client: bool) -> (r: Option<
    ProviderSearch,
>)
    ensures
        r is Some <==> has_client && searched_name(info).len() > 0,
        r is Some ==> (r->0).query@ == searched_name(info) && (r->0).year is None,
{
    match remote_search_movie(info, has_client) {
        Some(search) => Some(ProviderSearch { query: search.query, year: None }),
        None => None,
    }
}

/// Searches that have no provider find nothing.
pub fn stub_search() -> (r: Vec<RemoteSearchResult>)
    ensures
        r@ == Seq::<RemoteSearchResult>::empty(),
{
    Vec::new()
}

/// Whether `r` shows what the provider said of `e`.
pub open spec fn shows_entry(r: RemoteSearchResult, e: ProviderEntry) -> bool {
    &&& characters(r.name) == Some(e.title@)
    &&& r.production_year == match e.date {
        Some(d) => Some(d.year as i64),
        None => None,
    }
    &&& characters(r.image_url) == match e.poster_path {
        Some(p) => Some("https://image.tmdb.org/t/p/w500"@ + p@),
        None => None,
    }
    &&& characters(r.search_provider_name) == Some("TheMovieDb"@)
    &&& r.provider_ids@ == Map::<Seq<char>, Seq<char>>::empty().insert(
        "Tmdb"@,
        decimal(e.id as int),
    )
    &&& characters(r.premiere_date) == match e.date {
        Some(d) => written_utc(d, 0, 0, 0),
        None => None,
    }
}

/// What the provider said of one entry, as clients see it.
pub fn search_result(e: &ProviderEntry) -> (r: RemoteSearchResult)
    ensures
        shows_entry(r, *e),
{
    let mut provider_ids: ProviderIds = ProviderIds::new();
    provider_ids.insert("Tmdb".to_owned(), decimal_text(e.id));
    let (production_year, premiere_date): (Option<i64>, Option<String>) = match e.date {
        Some(d) => (Some(d.year as i64), to_rfc3339(d, 0, 0, 0)),
        None => (None, None),
    };
    let image_url: Option<String> = match &e.poster_path {
        Some(path) => {
            let mut url: String = "https://image.tmdb.org/t/p/w500".to_owned();
            url.append(path.as_str());
            Some(url)
        },
        None => None,
    };
    RemoteSearchResult {
        name: Some(e.title.as_str().to_owned()),
        production_year,
        image_url,
        search_provider_name: Some("TheMovieDb".to_owned()),
        provider_ids,
        premiere_date,
    }
}

/// What the provider found, as clients see it, in the provider's order.
pub fn search_results(found: &Vec<ProviderEntry>) -> (r: Vec<RemoteSearchResult>)
    ensures
        r.len() == found.len(),
        forall|i: int| 0 <= i < r.len() ==> shows_entry(#[trigger] r@[i], found@[i]),
{
    let mut out: Vec<RemoteSearchResult> = Vec::new();
    let mut i: usize = 0;
    while i < found.len()
        invariant
            i <= found.len(),
            out.len() == i,
            forall|k: int| 0 <= k < i ==> shows_entry(#[trigger] out@[k], found@[k]),
        decreases found.len() - i,
    {
        out.push(search_result(&found[i]));
        i = i + 1;
    }
    out
}

// ---------------------------------------------------------------------------------------------
// Applying a result

/// A text that is not empty.
pub struct NonEmptyString {
    text: String,
}

impl View for NonEmptyString {
    type V = Seq<char>;

    closed spec fn view(&self) -> Seq<char> {
        self.text@
    }
}

impl NonEmptyString {
    #[verifier::type_invariant]
    spec fn holds_text(self) -> bool {
        self.text@.len() > 0
    }

    /// The text, unless it is empty.
    pub fn try_new(text: &str) -> (r: Option<NonEmptyString>)
        ensures
            r is Some <==> text@.len() > 0,
            r is Some ==> r->0@ == text@,
    {
        if text.unicode_len() == 0 {
            None
        } else {
            Some(NonEmptyString { text: text.to_owned() })
        }
    }

    /// The text, which is never empty.
    pub fn as_str(&self) -> (r: &str)
        ensures
            r@ == self@,
            r@.len() > 0,
    {
        proof {
            use_type_invariant(self);
        }
        self.text.as_str()
    }
}

/// Ids of a media row at several providers.
pub struct ExternalIds {
    pub tmdb: Option<i64>,
    pub imdb: Option<NonEmptyString>,
    pub tvdb: Option<i64>,
}

/// What the ids of a media row hold.
pub struct ExternalIdsModel {
    pub tmdb: Option<i64>,
    pub imdb: Option<Seq<char>>,
    pub tvdb: Option<i64>,
}

impl View for ExternalIds {
    type V = ExternalIdsModel;

    open spec fn view(&self) -> ExternalIdsModel {
        ExternalIdsModel {
            tmdb: self.tmdb,
            imdb: match self.imdb {
                Some(s) => Some(s@),
                None => None,
            },
            tvdb: self.tvdb,
        }
    }
}

/// A numeric id after a provider's text: the number where the text is one, else what it was.
pub open spec fn number_applied(was: Option<i64>, text: Option<Seq<char>>) -> Option<i64> {
    match text {
        Some(s) => match parsed_i64(s) {
            Some(n) => Some(n),
            None => was,
        },
        None => was,
    }
}

/// A text id after a provider's text: the text, or none where it is empty.
pub open spec fn text_applied(was: Option<Seq<char>>, text: Option<Seq<char>>) -> Option<
    Seq<char>,
> {
    match text {
        Some(s) => if s.len() > 0 {
            Some(s)
        } else {
            None
        },
        None => was,
    }
}

/// The id at one provider, if there is one.
pub open spec fn entry(ids: Map<Seq<char>, Seq<char>>, provider: Seq<char>) -> Option<Seq<char>> {
    if ids.dom().contains(provider) {
        Some(ids[provider])
    } else {
        None
    }
}

/// The ids of a media row after a result is applied; a provider that the result does not name keeps
/// its id.
pub open spec fn ids_applied(was: ExternalIdsModel, ids: Option<Map<Seq<char>, Seq<char>>>) ->
    ExternalIdsModel {
    match ids {
        Some(m) => ExternalIdsModel {
            tmdb: number_applied(was.tmdb, entry(m, "Tmdb"@)),
            imdb: text_applied(was.imdb, entry(m, "Imdb"@)),
            tvdb: number_applied(was.tvdb, entry(m, "Tvdb"@)),
        },
        None => was,
    }
}

fn apply_number(was: Option<i64>, text: Option<&str>) -> (r: Option<i64>)
    ensures
        r == number_applied(
            was,
            match text {
                Some(s) => Some(s@),
                None => None,
            },
        ),
{
    match text {
        Some(s) => match parse_i64(s) {
            Some(n) => Some(n),
            None => was,
        },
        None => was,
    }
}

/// Applies a result that a user picked to the ids of the media row, which are `None` where there is
/// no such row.
pub fn remote_search_apply(media: Option<ExternalIds>, provider_ids: &Option<ProviderIds>) -> (r:
    Result<ExternalIds, ApiError>)
    ensures
        media is None ==> r == Err::<ExternalIds, ApiError>(ApiError::ItemNotFound),
        media is Some ==> r is Ok && r->Ok_0@ == ids_applied(
            media->0@,
            match *provider_ids {
                Some(p) => Some(p@),
                None => None,
            },
        ),
{
    match media {
        None => Err(ApiError::ItemNotFound),
        Some(ids) => match provider_ids {
            Some(given) => {
                let tmdb: Option<i64> = apply_number(ids.tmdb, given.get("Tmdb"));
                let imdb: Option<NonEmptyString> = match given.get("Imdb") {
                    Some(s) => NonEmptyString::try_new(s),
                    None => ids.imdb,
                };
                let tvdb: Option<i64> = apply_number(ids.tvdb, given.get("Tvdb"));
                Ok(ExternalIds { tmdb, imdb, tvdb })
            },
            None => Ok(ids),
        },
    }
}

/// Applying a result of a search gives the row the id that the provider found it by, and leaves its
/// ids at other providers as they are.
pub proof fn law_applied_result_carries_the_id(
    r: RemoteSearchResult,
    e: ProviderEntry,
    was: ExternalIdsModel,
)
    requires
        shows_entry(r, e),
    ensures
        ids_applied(was, Some(r.provider_ids@)) == (ExternalIdsModel { tmdb: Some(e.id), ..was }),
{
    reveal_strlit("Tmdb");
    reveal_strlit("Imdb");
    reveal_strlit("Tvdb");
    assert("Tmdb"@[0] != "Imdb"@[0]);
    assert("Tmdb"@[1] != "Tvdb"@[1]);
    law_decimal_reads_back(e.id);
}

} // verus!
