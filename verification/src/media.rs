//! Media: their kinds and the parts of a row that decisions read.

use vstd::prelude::*;
use vstd::string::*;

use crate::text::same_text;

verus! {

/// The kinds of media.
#[derive(Clone, Copy, Debug, PartialEq, Eq, Structural)]
pub enum MediaKind {
    Movie,
    Series,
    Season,
    Episode,
    Artist,
    Album,
    Track,
    Playlist,
    TvChannel,
    Collection,
    Stream,
    Other,
}

impl MediaKind {
    /// The name under which rows of this kind are stored.
    pub open spec fn stored_name(self) -> Seq<char> {
        match self {
            MediaKind::Movie => "movie"@,
            MediaKind::Series => "series"@,
            MediaKind::Season => "season"@,
            MediaKind::Episode => "episode"@,
            MediaKind::Artist => "artist"@,
            MediaKind::Album => "album"@,
            MediaKind::Track => "track"@,
            MediaKind::Playlist => "playlist"@,
            MediaKind::TvChannel => "tv_channel"@,
            MediaKind::Collection => "collection"@,
            MediaKind::Stream => "stream"@,
            MediaKind::Other => "other"@,
        }
    }

    /// The kind that a stored name stands for; `Other` where it is none of the names.
    pub open spec fn of_name(name: Seq<char>) -> MediaKind {
        if name == "movie"@ {
            MediaKind::Movie
        } else if name == "series"@ {
            MediaKind::Series
        } else if name == "season"@ {
            MediaKind::Season
        } else if name == "episode"@ {
            MediaKind::Episode
        } else if name == "artist"@ {
            MediaKind::Artist
        } else if name == "album"@ {
            MediaKind::Album
        } else if name == "track"@ {
            MediaKind::Track
        } else if name == "playlist"@ {
            MediaKind::Playlist
        } else if name == "tv_channel"@ {
            MediaKind::TvChannel
        } else if name == "collection"@ {
            MediaKind::Collection
        } else if name == "stream"@ {
            MediaKind::Stream
        } else {
            MediaKind::Other
        }
    }

    /// The name under which rows of this kind are stored.
    pub fn name(&self) -> (r: &'static str)
        ensures
            r@ == self.stored_name(),
    {
        match self {
            MediaKind::Movie => "movie",
            MediaKind::Series => "series",
            MediaKind::Season => "season",
            MediaKind::Episode => "episode",
            MediaKind::Artist => "artist",
            MediaKind::Album => "album",
            MediaKind::Track => "track",
            MediaKind::Playlist => "playlist",
            MediaKind::TvChannel => "tv_channel",
            MediaKind::Collection => "collection",
            MediaKind::Stream => "stream",
            MediaKind::Other => "other",
        }
    }

    /// The kind that a stored name stands for.
    pub fn from_name(name: &str) -> (r: MediaKind)
        ensures
            r == MediaKind::of_name(name@),
    {
        if same_text(name, "movie") {
            MediaKind::Movie
        } else if same_text(name, "series") {
            MediaKind::Series
        } else if same_text(name, "season") {
            MediaKind::Season
        } else if same_text(name, "episode") {
            MediaKind::Episode
        } else if same_text(name, "artist") {
            MediaKind::Artist
        } else if same_text(name, "album") {
            MediaKind::Album
        } else if same_text(name, "track") {
            MediaKind::Track
        } else if same_text(name, "playlist") {
            MediaKind::Playlist
        } else if same_text(name, "tv_channel") {
            MediaKind::TvChannel
        } else if same_text(name, "collection") {
            MediaKind::Collection
        } else if same_text(name, "stream") {
            MediaKind::Stream
        } else {
            MediaKind::Other
        }
    }
}

/// A kind is read back from the name it is stored under.
pub proof fn law_kind_reads_back(kind: MediaKind)
    ensures
        MediaKind::of_name(kind.stored_name()) == kind,
{
    reveal_strlit("movie");
    reveal_strlit("series");
    reveal_strlit("season");
    reveal_strlit("episode");
    reveal_strlit("artist");
    reveal_strlit("album");
    reveal_strlit("track");
    reveal_strlit("playlist");
    reveal_strlit("tv_channel");
    reveal_strlit("collection");
    reveal_strlit("stream");
    reveal_strlit("other");
    let n = kind.stored_name();
    assert(n[0] == 'm' || n[0] == 's' || n[0] == 'e' || n[0] == 'a' || n[0] == 't' || n[0] == 'p'
        || n[0] == 'c' || n[0] == 'o');
    assert("series"@[2] == 'r' && "season"@[2] == 'a' && "stream"@[2] == 'r');
    assert("series"@[1] == 'e' && "stream"@[1] == 't');
    assert("artist"@[1] == 'r' && "album"@[1] == 'l');
    assert("track"@[1] == 'r' && "tv_channel"@[1] == 'v');
}

/// Whether a kind stands on its own in a catalog.
pub open spec fn top_level(kind: MediaKind) -> bool {
    match kind {
        MediaKind::Movie
        | MediaKind::Series
        | MediaKind::Artist
        | MediaKind::TvChannel
        | MediaKind::Album
        | MediaKind::Track
        | MediaKind::Playlist => true,
        _ => false,
    }
}

/// Whether a kind stands on its own in a catalog.
pub fn is_top_level(kind: MediaKind) -> (r: bool)
    ensures
        r == top_level(kind),
{
    match kind {
        MediaKind::Movie
        | MediaKind::Series
        | MediaKind::Artist
        | MediaKind::TvChannel
        | MediaKind::Album
        | MediaKind::Track
        | MediaKind::Playlist => true,
        _ => false,
    }
}

/// An item that a catalog offers. `handle` finds the full record again, and `relations` says how many
/// of the relations that the record carries are kept: the first ones.
#[derive(Clone, Copy, Debug, PartialEq, Eq, Structural)]
pub struct CatalogItem {
    pub handle: usize,
    pub id: u128,
    pub kind: MediaKind,
    pub relations: usize,
}

/// Movies, series, artists, channels, albums, tracks and playlists stand on their own in a catalog;
/// seasons, episodes, collections, streams and everything else do not.
pub proof fn law_kinds_that_stand_on_their_own(kind: MediaKind)
    ensures
        top_level(kind) <==> kind is Movie || kind is Series || kind is Artist || kind is TvChannel
            || kind is Album || kind is Track || kind is Playlist,
{
}

/// The names that rows are stored under are told apart, and each is written as rows have it.
pub proof fn law_stored_names_are_read(kind: MediaKind)
    ensures
        MediaKind::of_name("movie"@) is Movie,
        MediaKind::of_name("series"@) is Series,
        MediaKind::of_name("season"@) is Season,
        MediaKind::of_name("episode"@) is Episode,
        MediaKind::of_name("artist"@) is Artist,
        MediaKind::of_name("album"@) is Album,
        MediaKind::of_name("track"@) is Track,
        MediaKind::of_name("playlist"@) is Playlist,
        MediaKind::of_name("tv_channel"@) is TvChannel,
        MediaKind::of_name("collection"@) is Collection,
        MediaKind::of_name("stream"@) is Stream,
        MediaKind::of_name(kind.stored_name()) == kind,
        forall|name: Seq<char>|
            !(MediaKind::of_name(name) is Other) ==> name == (#[trigger] MediaKind::of_name(
                name,
            )).stored_name(),
{
    law_kind_reads_back(MediaKind::Movie);
    law_kind_reads_back(MediaKind::Series);
    law_kind_reads_back(MediaKind::Season);
    law_kind_reads_back(MediaKind::Episode);
    law_kind_reads_back(MediaKind::Artist);
    law_kind_reads_back(MediaKind::Album);
    law_kind_reads_back(MediaKind::Track);
    law_kind_reads_back(MediaKind::Playlist);
    law_kind_reads_back(MediaKind::TvChannel);
    law_kind_reads_back(MediaKind::Collection);
    law_kind_reads_back(MediaKind::Stream);
    law_kind_reads_back(kind);
}

} // verus!
