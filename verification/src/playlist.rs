//! Catalog reconciliation and playlist building: the per-recommendation
//! track-resolution policy, the request URLs and bodies, and the batching
//! of playlist writes under the target catalog's per-request cap.

use vstd::prelude::*;
use vstd::string::*;

use crate::percent::{url_encode, urlenc_of};

verus! {

/// A created playlist, addressed by its id for every later mutation; the
/// public URL is only handed back to the user.
#[derive(Clone, Debug)]
pub struct PlaylistHandle {
    pub id: String,
    pub public_url: String,
}

/// What a playlist-creation call sends.
#[derive(Clone, Debug)]
pub struct PlaylistRequest {
    pub name: String,
    pub description: String,
    pub public: bool,
}

/// Whether an HTTP status reports success.
pub fn is_success_status(status: u16) -> (r: bool)
    ensures
        r == (200 <= status && status < 300),
{
    200 <= status && status < 300
}

/// The fatal failures of the target-catalog flow, each carrying the status
/// and body the catalog answered with.
#[derive(Clone, Debug)]
pub enum TargetCatalogError {
    /// The token endpoint answered with a non-success status: terminal.
    TokenExchangeFailed { status: u16, body: String },
    /// Playlist creation answered with a non-success status: fatal, there
    /// is no playlist to populate.
    PlaylistCreationFailed { status: u16, body: String },
}

/// Classifies the token-exchange answer: success exactly on a success
/// status, and otherwise the terminal failure carrying status and body.
pub fn token_exchange_outcome(status: u16, body: String) -> (r: Result<(), TargetCatalogError>)
    ensures
        (200 <= status && status < 300) <==> r is Ok,
        !(200 <= status && status < 300) ==> (r matches Err(
            TargetCatalogError::TokenExchangeFailed { status: s, body: b },
        ) && s == status && b@ == body@),
{
    if is_success_status(status) {
        Ok(())
    } else {
        Err(TargetCatalogError::TokenExchangeFailed { status, body })
    }
}

/// Classifies the playlist-creation answer: success exactly on a success
/// status, and otherwise the fatal failure carrying status and body.
pub fn playlist_creation_outcome(status: u16, body: String) -> (r: Result<
    (),
    TargetCatalogError,
>)
    ensures
        (200 <= status && status < 300) <==> r is Ok,
        !(200 <= status && status < 300) ==> (r matches Err(
            TargetCatalogError::PlaylistCreationFailed { status: s, body: b },
        ) && s == status && b@ == body@),
{
    if is_success_status(status) {
        Ok(())
    } else {
        Err(TargetCatalogError::PlaylistCreationFailed { status, body })
    }
}

/// The compound query sent for one recommendation.
pub open spec fn spec_search_query(artist: Seq<char>, album: Seq<char>) -> Seq<char> {
    "album:"@ + album + " artist:"@ + artist
}

/// Builds the compound search query for one recommendation.
pub fn search_query(artist: &str, album: &str) -> (r: String)
    ensures
        r@ == spec_search_query(artist@, album@),
{
    let mut q = String::from_str("album:");
    q.append(album);
    q.append(" artist:");
    q.append(artist);
    proof {
        assert(q@ =~= spec_search_query(artist@, album@));
    }
    q
}

/// The search URL for one recommendation: the percent-encoded compound
/// query, asking for album and track hits, one of each.
pub fn search_url(artist: &str, album: &str) -> (r: String)
    ensures
        r@ == "https://api.spotify.com/v1/search?q="@ + urlenc_of(
            vstd::utf8::encode_utf8(spec_search_query(artist@, album@)),
        ) + "&type=album,track&limit=1"@,
{
    let q = search_query(artist, album);
    let enc = url_encode(q.as_str().as_bytes());
    let mut url = String::from_str("https://api.spotify.com/v1/search?q=");
    url.append(enc.as_str());
    url.append("&type=album,track&limit=1");
    proof {
        assert(url@ =~= "https://api.spotify.com/v1/search?q="@ + urlenc_of(
            vstd::utf8::encode_utf8(spec_search_query(artist@, album@)),
        ) + "&type=album,track&limit=1"@);
    }
    url
}

/// The playlist-creation URL for a user.
pub fn create_playlist_url(user_id: &str) -> (r: String)
    ensures
        r@ == "https://api.spotify.com/v1/users/"@ + user_id@ + "/playlists"@,
{
    let mut url = String::from_str("https://api.spotify.com/v1/users/");
    url.append(user_id);
    url.append("/playlists");
    proof {
        assert(url@ =~= "https://api.spotify.com/v1/users/"@ + user_id@ + "/playlists"@);
    }
    url
}

/// The follow-up URL asking for the first track of an album.
pub fn album_tracks_url(album_id: &str) -> (r: String)
    ensures
        r@ == "https://api.spotify.com/v1/albums/"@ + album_id@ + "/tracks?limit=1"@,
{
    let mut url = String::from_str("https://api.spotify.com/v1/albums/");
    url.append(album_id);
    url.append("/tracks?limit=1");
    proof {
        assert(url@ =~= "https://api.spotify.com/v1/albums/"@ + album_id@ + "/tracks?limit=1"@);
    }
    url
}

/// The track-addition URL of a playlist: the playlist is addressed by its
/// id alone, never recreated.
pub fn add_tracks_url(playlist: &PlaylistHandle) -> (r: String)
    ensures
        r@ == "https://api.spotify.com/v1/playlists/"@ + playlist.id@ + "/tracks"@,
{
    let mut url = String::from_str("https://api.spotify.com/v1/playlists/");
    url.append(playlist.id.as_str());
    url.append("/tracks");
    proof {
        assert(url@ =~= "https://api.spotify.com/v1/playlists/"@ + playlist.id@ + "/tracks"@);
    }
    url
}

/// Index of the last occurrence of `c` in `s`, or -1 when there is none.
pub open spec fn find_last(s: Seq<char>, c: char) -> int
    decreases s.len(),
{
    if s.len() == 0 {
        -1
    } else if s[s.len() - 1] == c {
        s.len() - 1
    } else {
        find_last(s.drop_last(), c)
    }
}

proof fn lemma_find_last(s: Seq<char>, c: char)
    ensures
        -1 <= find_last(s, c) < s.len(),
        find_last(s, c) >= 0 ==> s[find_last(s, c)] == c,
        forall|j: int| find_last(s, c) < j < s.len() ==> s[j] != c,
    decreases s.len(),
{
    if s.len() > 0 && s[s.len() - 1] != c {
        lemma_find_last(s.drop_last(), c);
        assert(forall|j: int| 0 <= j < s.len() - 1 ==> s.drop_last()[j] == s[j]);
    }
}

/// The album id inside a catalog URI: everything after the last `:`, or the
/// whole string when it has no `:`.
pub fn album_id_from_uri(uri: &str) -> (r: String)
    ensures
        r@ == uri@.subrange(find_last(uri@, ':') + 1, uri@.len() as int),
{
    proof {
        lemma_find_last(uri@, ':');
    }
    let n = uri.unicode_len();
    let mut i: usize = n;
    while i > 0
        invariant
            i <= n,
            n == uri@.len(),
            forall|j: int| i <= j < n ==> uri@[j] != ':',
        decreases i,
    {
        proof {
            lemma_find_last(uri@, ':');
        }
        if uri.get_char(i - 1) == ':' {
            let tail = uri.substring_char(i, n);
            return tail.to_owned();
        }
        i -= 1;
    }
    proof {
        lemma_find_last(uri@, ':');
        assert(find_last(uri@, ':') == -1);
    }
    let whole = uri.substring_char(0, n);
    whole.to_owned()
}

/// The reply the target catalog gave to one search request, as plain data:
/// either the request failed (transport or non-2xx), or the track and album
/// hits it returned, in result order.
pub enum SearchOutcome {
    RequestFailed,
    Found { track_uris: Vec<String>, album_uris: Vec<String> },
}

/// What the per-recommendation policy decides from one search reply.
pub enum TrackResolution {
    /// No match: this recommendation is skipped, the run goes on.
    Skip,
    /// A track hit: its URI is taken directly.
    Track(String),
    /// No track hit but an album hit: follow up on the album's URI.
    AlbumLookup(String),
}

/// Decides one search reply: the first track hit wins, else the first album
/// hit asks for a follow-up, else the recommendation is skipped. A failed
/// request is a skip, never an abort.
pub fn resolve_search(outcome: &SearchOutcome) -> (r: TrackResolution)
    ensures
        match *outcome {
            SearchOutcome::RequestFailed => r is Skip,
            SearchOutcome::Found { track_uris, album_uris } => {
                if track_uris@.len() > 0 {
                    r matches TrackResolution::Track(u) && u@ == track_uris@[0]@
                } else if album_uris@.len() > 0 {
                    r matches TrackResolution::AlbumLookup(u) && u@ == album_uris@[0]@
                } else {
                    r is Skip
                }
            },
        },
{
    match outcome {
        SearchOutcome::RequestFailed => TrackResolution::Skip,
        SearchOutcome::Found { track_uris, album_uris } => {
            if track_uris.len() > 0 {
                TrackResolution::Track(track_uris[0].clone())
            } else if album_uris.len() > 0 {
                TrackResolution::AlbumLookup(album_uris[0].clone())
            } else {
                TrackResolution::Skip
            }
        },
    }
}

/// Applies the follow-up album-tracks reply: the first returned track when
/// the follow-up succeeded and found one, else no match.
pub fn resolve_album_tracks(reply: &Option<Vec<String>>) -> (r: Option<String>)
    ensures
        match *reply {
            Some(items) => {
                if items@.len() > 0 {
                    r matches Some(u) && u@ == items@[0]@
                } else {
                    r is None
                }
            },
            None => r is None,
        },
{
    match reply {
        Some(items) => {
            if items.len() > 0 {
                Some(items[0].clone())
            } else {
                None
            }
        },
        None => None,
    }
}

/// One recommendation's whole exchange with the target catalog, as plain
/// data: the search reply, and the album-tracks reply where a follow-up was
/// made (`None` also stands for a failed follow-up).
pub struct SearchExchange {
    pub search: SearchOutcome,
    pub album_tracks: Option<Vec<String>>,
}

/// The URI one exchange contributes under the resolution policy, if any.
pub open spec fn spec_match_of(e: SearchExchange) -> Option<Seq<char>> {
    match e.search {
        SearchOutcome::RequestFailed => None,
        SearchOutcome::Found { track_uris, album_uris } => {
            if track_uris@.len() > 0 {
                Some(track_uris@[0]@)
            } else if album_uris@.len() > 0 {
                match e.album_tracks {
                    Some(items) => if items@.len() > 0 {
                        Some(items@[0]@)
                    } else {
                        None
                    },
                    None => None,
                }
            } else {
                None
            }
        },
    }
}

/// The matched URIs of a whole run, in recommendation order: a skipped
/// recommendation contributes nothing and aborts nothing.
pub open spec fn spec_collected(es: Seq<SearchExchange>) -> Seq<Seq<char>>
    decreases es.len(),
{
    if es.len() == 0 {
        Seq::empty()
    } else {
        let rest = spec_collected(es.drop_first());
        match spec_match_of(es[0]) {
            Some(u) => seq![u] + rest,
            None => rest,
        }
    }
}

/// Resolves every exchange in order and accumulates the matched URIs.
pub fn collect_track_uris(exchanges: &Vec<SearchExchange>) -> (r: Vec<String>)
    ensures
        r@.map_values(|s: String| s@) == spec_collected(exchanges@),
{
    let mut r: Vec<String> = Vec::new();
    let mut i: usize = 0;
    proof {
        assert(exchanges@.skip(0) =~= exchanges@);
        assert(Seq::<Seq<char>>::empty() + spec_collected(exchanges@) =~= spec_collected(
            exchanges@,
        ));
        assert(Seq::<String>::empty().map_values(|s: String| s@) =~= Seq::<Seq<char>>::empty());
    }
    while i < exchanges.len()
        invariant
            i <= exchanges@.len(),
            spec_collected(exchanges@) == r@.map_values(|s: String| s@) + spec_collected(
                exchanges@.skip(i as int),
            ),
        decreases exchanges@.len() - i,
    {
        let e = &exchanges[i];
        let ghost rmap = r@.map_values(|s: String| s@);
        let found: Option<String> = match resolve_search(&e.search) {
            TrackResolution::Skip => None,
            TrackResolution::Track(u) => Some(u),
            TrackResolution::AlbumLookup(_) => resolve_album_tracks(&e.album_tracks),
        };
        proof {
            assert(exchanges@.skip(i as int)[0] == exchanges@[i as int]);
            assert(exchanges@.skip(i as int).drop_first() =~= exchanges@.skip(i + 1));
        }
        match found {
            Some(u) => {
                proof {
                    assert(spec_match_of(exchanges@[i as int]) == Some(u@));
                }
                r.push(u);
                proof {
                    assert(r@.map_values(|s: String| s@) =~= rmap.push(
                        spec_match_of(exchanges@[i as int])->Some_0,
                    ));
                    assert(rmap + (seq![spec_match_of(exchanges@[i as int])->Some_0]
                        + spec_collected(exchanges@.skip(i + 1))) =~= rmap.push(
                        spec_match_of(exchanges@[i as int])->Some_0,
                    ) + spec_collected(exchanges@.skip(i + 1)));
                }
            },
            None => {
                proof {
                    assert(spec_match_of(exchanges@[i as int]) is None);
                }
            },
        }
        i += 1;
    }
    proof {
        assert(exchanges@.skip(i as int) =~= Seq::<SearchExchange>::empty());
        assert(r@.map_values(|s: String| s@) + Seq::<Seq<char>>::empty() =~= r@.map_values(
            |s: String| s@,
        ));
    }
    r
}

/// The write cap the target catalog imposes on one track-addition request.
pub const MAX_TRACKS_PER_REQUEST: usize = 100;

/// Splits the matched URIs into write batches: every batch but the last
/// holds exactly the cap, the last holds the remainder, and order is kept.
pub fn batch_track_uris(uris: &Vec<String>) -> (r: Vec<Vec<String>>)
    ensures
        r@.len() == (uris@.len() + MAX_TRACKS_PER_REQUEST - 1) / (
        MAX_TRACKS_PER_REQUEST as int),
        forall|b: int|
            0 <= b < r@.len() ==> r@[b]@.len() == (if (b + 1) * MAX_TRACKS_PER_REQUEST
                <= uris@.len() {
                MAX_TRACKS_PER_REQUEST as int
            } else {
                uris@.len() - b * MAX_TRACKS_PER_REQUEST
            }),
        forall|b: int, k: int|
            0 <= b < r@.len() && 0 <= k < r@[b]@.len() ==> r@[b]@[k] == uris@[b
                * MAX_TRACKS_PER_REQUEST + k],
{
    let mut r: Vec<Vec<String>> = Vec::new();
    let mut i: usize = 0;
    while i < uris.len()
        invariant
            i <= uris@.len(),
            i % MAX_TRACKS_PER_REQUEST == 0 || i == uris@.len(),
            r@.len() == (i + MAX_TRACKS_PER_REQUEST - 1) / (MAX_TRACKS_PER_REQUEST as int),
            forall|b: int|
                0 <= b < r@.len() ==> r@[b]@.len() == (if (b + 1) * MAX_TRACKS_PER_REQUEST
                    <= i {
                    MAX_TRACKS_PER_REQUEST as int
                } else {
                    i - b * MAX_TRACKS_PER_REQUEST
                }),
            forall|b: int, k: int|
                0 <= b < r@.len() && 0 <= k < r@[b]@.len() ==> r@[b]@[k] == uris@[b
                    * MAX_TRACKS_PER_REQUEST + k],
        decreases uris@.len() - i,
    {
        let remaining = uris.len() - i;
        let m = if remaining < MAX_TRACKS_PER_REQUEST {
            remaining
        } else {
            MAX_TRACKS_PER_REQUEST
        };
        let mut chunk: Vec<String> = Vec::new();
        let mut k: usize = 0;
        while k < m
            invariant
                k <= m,
                i + m <= uris@.len(),
                uris@.len() <= usize::MAX,
                chunk@.len() == k,
                forall|t: int| 0 <= t < k ==> chunk@[t] == uris@[i + t],
            decreases m - k,
        {
            proof {
                assert(i + k < uris@.len());
            }
            let idx: usize = i + k;
            chunk.push(uris[idx].clone());
            k += 1;
        }
        r.push(chunk);
        i += m;
    }
    r
}

/// The fixed prefix of every playlist this library names.
pub fn playlist_name_prefix() -> (r: String)
    ensures
        r@ == "Last.fm Discoveries - "@,
{
    String::from_str("Last.fm Discoveries - ")
}

/// The playlist name for a given date string: the fixed prefix, then the
/// date.
pub fn playlist_name(date: &str) -> (r: String)
    ensures
        r@ == "Last.fm Discoveries - "@ + date@,
{
    let mut name = playlist_name_prefix();
    name.append(date);
    name
}

/// Relies on chrono's `Local::now` and its date formatting; the current
/// local date depends on the clock, so nothing is stated of the result.
#[verifier::external_body]
fn current_date_string() -> String {
    chrono::Local::now().format("%Y-%m-%d").to_string()
}

/// The creation request a run sends: a name opening with the fixed prefix
/// (completed by today's date), the fixed description, private visibility.
pub fn default_playlist_request() -> (r: PlaylistRequest)
    ensures
        r.name@.len() >= "Last.fm Discoveries - "@.len(),
        r.name@.subrange(0, "Last.fm Discoveries - "@.len() as int) == "Last.fm Discoveries - "@,
        r.description@ == "Fresh music recommendations based on your Last.fm history"@,
        r.public == false,
{
    let date = current_date_string();
    let name = playlist_name(date.as_str());
    proof {
        assert(name@.subrange(0, "Last.fm Discoveries - "@.len() as int)
            =~= "Last.fm Discoveries - "@);
    }
    PlaylistRequest {
        name,
        description: String::from_str(
            "Fresh music recommendations based on your Last.fm history",
        ),
        public: false,
    }
}

} // verus!
