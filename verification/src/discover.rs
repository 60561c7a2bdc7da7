//! The discovery engine: turns listening history and similar-artist data
//! into a bounded, artist-deduplicated recommendation list, in discovery
//! order, stopping the instant the cap is reached.

use vstd::prelude::*;
use vstd::string::*;

use crate::percent::{url_encode, urlenc_of};

verus! {

/// One item of listening history: an album and the artist who made it.
#[derive(Clone, Debug)]
pub struct ListeningRecord {
    pub artist_name: String,
    pub album_name: String,
}

/// A derived suggestion: a similar artist and that artist's top album.
#[derive(Clone, Debug)]
pub struct Recommendation {
    pub artist_name: String,
    pub album_name: String,
}

/// What the source catalog knows of one similar artist: its name and, when
/// the per-artist lookup succeeded, its top album.
#[derive(Clone, Debug)]
pub struct SimilarCandidate {
    pub name: String,
    pub top_album: Option<String>,
}

/// Everything the source catalog returned for one top album: the record
/// itself and the similar artists of its artist (empty when the similar
/// lookup failed, which is a skip, not an error).
#[derive(Clone, Debug)]
pub struct AlbumDiscoveryData {
    pub record: ListeningRecord,
    pub similar: Vec<SimilarCandidate>,
}

/// The recommendation list never grows beyond this cap.
pub const MAX_RECOMMENDATIONS: usize = 10;

/// At most this many similar artists of each top album are tried.
pub const SIMILAR_PER_ARTIST: usize = 2;

/// The abstract state of the engine: the artists that may no longer
/// contribute, and the recommendations emitted so far as (artist, album)
/// pairs in discovery order.
pub struct EngineModel {
    pub seen: Set<Seq<char>>,
    pub recs: Seq<(Seq<char>, Seq<char>)>,
}

impl EngineModel {
    pub open spec fn init() -> Self {
        EngineModel { seen: Set::empty(), recs: Seq::empty() }
    }

    pub open spec fn full(self) -> bool {
        self.recs.len() >= MAX_RECOMMENDATIONS
    }

    /// Bounded, artist-distinct, and every emitting artist is retired.
    pub open spec fn wf(self) -> bool {
        &&& self.recs.len() <= MAX_RECOMMENDATIONS
        &&& forall|i: int, j: int|
            0 <= i < j < self.recs.len() ==> self.recs[i].0 != self.recs[j].0
        &&& forall|i: int| 0 <= i < self.recs.len() ==> self.seen.contains(self.recs[i].0)
    }
}

/// One attempted emission: the pair is appended exactly when the cap is not
/// reached and the artist has not contributed or been processed yet.
pub open spec fn spec_try_add(m: EngineModel, artist: Seq<char>, album: Seq<char>) -> EngineModel {
    if m.recs.len() < MAX_RECOMMENDATIONS && !m.seen.contains(artist) {
        EngineModel { seen: m.seen.insert(artist), recs: m.recs.push((artist, album)) }
    } else {
        m
    }
}

/// One similar-artist candidate: emits its top album when one was found.
pub open spec fn spec_candidate(m: EngineModel, c: SimilarCandidate) -> EngineModel {
    match c.top_album {
        Some(album) => spec_try_add(m, c.name@, album@),
        None => m,
    }
}

/// Runs through at most `k` leading candidates, stopping at the cap.
pub open spec fn spec_similar(m: EngineModel, cands: Seq<SimilarCandidate>, k: nat) -> EngineModel
    decreases cands.len(),
{
    if m.full() || k == 0 || cands.len() == 0 {
        m
    } else {
        spec_similar(spec_candidate(m, cands[0]), cands.drop_first(), (k - 1) as nat)
    }
}

/// One top album: skipped when its artist was already processed, otherwise
/// the artist is retired and its leading similar candidates are tried.
pub open spec fn spec_album(m: EngineModel, e: AlbumDiscoveryData) -> EngineModel {
    if m.seen.contains(e.record.artist_name@) {
        m
    } else {
        spec_similar(
            EngineModel { seen: m.seen.insert(e.record.artist_name@), recs: m.recs },
            e.similar@,
            SIMILAR_PER_ARTIST as nat,
        )
    }
}

/// The whole run from a given state: albums in order, stopping at the cap.
pub open spec fn spec_discover_from(m: EngineModel, data: Seq<AlbumDiscoveryData>) -> EngineModel
    decreases data.len(),
{
    if m.full() || data.len() == 0 {
        m
    } else {
        spec_discover_from(spec_album(m, data[0]), data.drop_first())
    }
}

/// What a discovery run over the given catalog data emits.
pub open spec fn spec_discover(data: Seq<AlbumDiscoveryData>) -> Seq<(Seq<char>, Seq<char>)> {
    spec_discover_from(EngineModel::init(), data).recs
}

proof fn lemma_try_add_wf(m: EngineModel, artist: Seq<char>, album: Seq<char>)
    requires
        m.wf(),
    ensures
        spec_try_add(m, artist, album).wf(),
        m.seen.subset_of(spec_try_add(m, artist, album).seen),
{
}

proof fn lemma_candidate_wf(m: EngineModel, c: SimilarCandidate)
    requires
        m.wf(),
    ensures
        spec_candidate(m, c).wf(),
        m.seen.subset_of(spec_candidate(m, c).seen),
{
    match c.top_album {
        Some(album) => lemma_try_add_wf(m, c.name@, album@),
        None => {},
    }
}

proof fn lemma_similar_wf(m: EngineModel, cands: Seq<SimilarCandidate>, k: nat)
    requires
        m.wf(),
    ensures
        spec_similar(m, cands, k).wf(),
        m.seen.subset_of(spec_similar(m, cands, k).seen),
    decreases cands.len(),
{
    if !(m.full() || k == 0 || cands.len() == 0) {
        lemma_candidate_wf(m, cands[0]);
        lemma_similar_wf(spec_candidate(m, cands[0]), cands.drop_first(), (k - 1) as nat);
    }
}

proof fn lemma_album_wf(m: EngineModel, e: AlbumDiscoveryData)
    requires
        m.wf(),
    ensures
        spec_album(m, e).wf(),
        m.seen.subset_of(spec_album(m, e).seen),
{
    if !m.seen.contains(e.record.artist_name@) {
        let mid = EngineModel { seen: m.seen.insert(e.record.artist_name@), recs: m.recs };
        lemma_similar_wf(mid, e.similar@, SIMILAR_PER_ARTIST as nat);
    }
}

proof fn lemma_discover_from_wf(m: EngineModel, data: Seq<AlbumDiscoveryData>)
    requires
        m.wf(),
    ensures
        spec_discover_from(m, data).wf(),
    decreases data.len(),
{
    if !(m.full() || data.len() == 0) {
        lemma_album_wf(m, data[0]);
        lemma_discover_from_wf(spec_album(m, data[0]), data.drop_first());
    }
}

/// Law: for every input, a discovery run emits at most the cap and never
/// two entries with the same artist name.
pub proof fn lemma_discovery_bounded_and_distinct(data: Seq<AlbumDiscoveryData>)
    ensures
        spec_discover(data).len() <= MAX_RECOMMENDATIONS,
        forall|i: int, j: int|
            0 <= i < j < spec_discover(data).len() ==> spec_discover(data)[i].0 != spec_discover(
                data,
            )[j].0,
{
    lemma_discover_from_wf(EngineModel::init(), data);
}

/// Law: the instant the cap is reached, nothing further is emitted — not by
/// the remaining albums and not mid-iteration by remaining candidates.
pub proof fn lemma_cap_is_immediate(
    m: EngineModel,
    data: Seq<AlbumDiscoveryData>,
    cands: Seq<SimilarCandidate>,
    k: nat,
)
    requires
        m.full(),
    ensures
        spec_discover_from(m, data) == m,
        spec_similar(m, cands, k) == m,
{
}

/// The engine itself: the retired artists and the emitted recommendations.
pub struct DiscoveryEngine {
    seen: Vec<String>,
    recs: Vec<Recommendation>,
}

impl View for DiscoveryEngine {
    type V = EngineModel;

    closed spec fn view(&self) -> EngineModel {
        EngineModel {
            seen: Set::new(
                |a: Seq<char>|
                    exists|i: int| 0 <= i < self.seen@.len() && self.seen@[i]@ == a,
            ),
            recs: Seq::new(
                self.recs@.len(),
                |i: int| (self.recs@[i].artist_name@, self.recs@[i].album_name@),
            ),
        }
    }
}

impl DiscoveryEngine {
    /// A fresh engine with nothing retired and nothing emitted.
    pub fn new() -> (r: Self)
        ensures
            r@ == EngineModel::init(),
    {
        let r = DiscoveryEngine { seen: Vec::new(), recs: Vec::new() };
        proof {
            assert(r@.seen =~= Set::<Seq<char>>::empty());
            assert(r@.recs =~= Seq::<(Seq<char>, Seq<char>)>::empty());
        }
        r
    }

    /// Whether the cap is reached and emission has stopped.
    pub fn is_full(&self) -> (r: bool)
        ensures
            r == self@.full(),
    {
        self.recs.len() >= MAX_RECOMMENDATIONS
    }

    /// How many recommendations have been emitted so far.
    pub fn count(&self) -> (r: usize)
        ensures
            r == self@.recs.len(),
    {
        self.recs.len()
    }

    /// Whether an artist has been processed or has contributed already, and
    /// so may contribute nothing further.
    pub fn artist_seen(&self, name: &String) -> (r: bool)
        ensures
            r == self@.seen.contains(name@),
    {
        let mut i: usize = 0;
        while i < self.seen.len()
            invariant
                i <= self.seen@.len(),
                forall|j: int| 0 <= j < i ==> self.seen@[j]@ != name@,
            decreases self.seen@.len() - i,
        {
            if self.seen[i].eq(name) {
                return true;
            }
            i += 1;
        }
        false
    }

    /// One attempted emission, exactly as `spec_try_add` says: appended only
    /// below the cap and only for an artist not processed before.
    pub fn try_add(&mut self, artist: String, album: String) -> (added: bool)
        ensures
            final(self)@ == spec_try_add(old(self)@, artist@, album@),
            added == (old(self)@.recs.len() < MAX_RECOMMENDATIONS && !old(self)@.seen.contains(
                artist@,
            )),
    {
        if self.recs.len() < MAX_RECOMMENDATIONS && !self.artist_seen(&artist) {
            let ghost pre = self@;
            let ghost old_seen_vec = self.seen@;
            self.seen.push(artist.clone());
            self.recs.push(Recommendation { artist_name: artist, album_name: album });
            proof {
                assert forall|a: Seq<char>| self@.seen.contains(a) implies pre.seen.insert(
                    artist@,
                ).contains(a) by {
                    let i = choose|i: int| 0 <= i < self.seen@.len() && self.seen@[i]@ == a;
                    if i < old_seen_vec.len() {
                        assert(old_seen_vec[i]@ == a);
                    } else {
                        assert(a == artist@);
                    }
                }
                assert forall|a: Seq<char>| pre.seen.insert(artist@).contains(a) implies self@.seen.contains(
                    a,
                ) by {
                    if pre.seen.contains(a) {
                        let i = choose|i: int|
                            0 <= i < old_seen_vec.len() && old_seen_vec[i]@ == a;
                        assert(self.seen@[i]@ == a);
                    } else {
                        assert(self.seen@[old_seen_vec.len() as int]@ == artist@);
                    }
                }
                assert(self@.seen =~= pre.seen.insert(artist@));
                assert(self@.recs =~= pre.recs.push((artist@, album@)));
            }
            true
        } else {
            false
        }
    }

    /// Processes one top album with everything the catalog returned for it,
    /// exactly as `spec_album` says: the album's artist is retired and at
    /// most the two leading similar candidates may emit, stopping at the
    /// cap.
    pub fn process_album(&mut self, entry: &AlbumDiscoveryData)
        ensures
            final(self)@ == spec_album(old(self)@, *entry),
    {
        if self.artist_seen(&entry.record.artist_name) {
            return ;
        }
        let ghost pre = self@;
        let ghost old_seen_vec = self.seen@;
        self.seen.push(entry.record.artist_name.clone());
        let ghost mid = EngineModel {
            seen: pre.seen.insert(entry.record.artist_name@),
            recs: pre.recs,
        };
        proof {
            assert forall|a: Seq<char>| self@.seen.contains(a) implies mid.seen.contains(a) by {
                let i = choose|i: int| 0 <= i < self.seen@.len() && self.seen@[i]@ == a;
                if i < old_seen_vec.len() {
                    assert(old_seen_vec[i]@ == a);
                } else {
                    assert(a == entry.record.artist_name@);
                }
            }
            assert forall|a: Seq<char>| mid.seen.contains(a) implies self@.seen.contains(a) by {
                if pre.seen.contains(a) {
                    let i = choose|i: int| 0 <= i < old_seen_vec.len() && old_seen_vec[i]@ == a;
                    assert(self.seen@[i]@ == a);
                } else {
                    assert(self.seen@[old_seen_vec.len() as int]@ == entry.record.artist_name@);
                }
            }
            assert(self@.seen =~= mid.seen);
            assert(self@.recs =~= mid.recs);
            assert(self@ == mid);
        }
        let mut j: usize = 0;
        proof {
            assert(entry.similar@.skip(0) =~= entry.similar@);
        }
        while j < SIMILAR_PER_ARTIST && j < entry.similar.len() && !self.is_full()
            invariant
                j <= SIMILAR_PER_ARTIST,
                j <= entry.similar@.len(),
                spec_similar(
                    self@,
                    entry.similar@.skip(j as int),
                    (SIMILAR_PER_ARTIST - j) as nat,
                ) == spec_similar(mid, entry.similar@, SIMILAR_PER_ARTIST as nat),
            decreases entry.similar@.len() - j,
        {
            let c = &entry.similar[j];
            let ghost st_before = self@;
            match &c.top_album {
                Some(album) => {
                    let _ = self.try_add(c.name.clone(), album.clone());
                },
                None => {},
            }
            proof {
                assert(self@ == spec_candidate(st_before, entry.similar@[j as int]));
                assert(entry.similar@.skip(j as int)[0] == entry.similar@[j as int]);
                assert(entry.similar@.skip(j as int).drop_first() =~= entry.similar@.skip(j + 1));
            }
            j += 1;
        }
        proof {
            assert(spec_similar(
                self@,
                entry.similar@.skip(j as int),
                (SIMILAR_PER_ARTIST - j) as nat,
            ) == self@);
        }
    }

    /// The emitted recommendations in discovery order, consuming the
    /// engine.
    pub fn into_recommendations(self) -> (r: Vec<Recommendation>)
        ensures
            r@.len() == self@.recs.len(),
            forall|i: int|
                0 <= i < r@.len() ==> (r@[i].artist_name@, r@[i].album_name@) == self@.recs[i],
    {
        self.recs
    }
}

/// A full discovery run over what the source catalog returned: exactly the
/// recommendations of `spec_discover` of the data, in order.
pub fn run_discovery(data: &Vec<AlbumDiscoveryData>) -> (r: Vec<Recommendation>)
    ensures
        r@.len() == spec_discover(data@).len(),
        forall|i: int|
            0 <= i < r@.len() ==> (r@[i].artist_name@, r@[i].album_name@) == spec_discover(
                data@,
            )[i],
        r@.len() <= MAX_RECOMMENDATIONS,
        forall|i: int, j: int|
            0 <= i < j < r@.len() ==> r@[i].artist_name@ != r@[j].artist_name@,
{
    proof {
        lemma_discovery_bounded_and_distinct(data@);
    }
    let mut eng = DiscoveryEngine::new();
    let mut i: usize = 0;
    proof {
        assert(data@.skip(0) =~= data@);
    }
    while i < data.len() && !eng.is_full()
        invariant
            i <= data@.len(),
            spec_discover_from(eng@, data@.skip(i as int)) == spec_discover_from(
                EngineModel::init(),
                data@,
            ),
        decreases data@.len() - i,
    {
        let ghost st_before = eng@;
        eng.process_album(&data[i]);
        proof {
            assert(data@.skip(i as int)[0] == data@[i as int]);
            assert(data@.skip(i as int).drop_first() =~= data@.skip(i + 1));
        }
        i += 1;
    }
    proof {
        if i == data@.len() {
            assert(data@.skip(i as int) =~= Seq::<AlbumDiscoveryData>::empty());
        }
        assert(spec_discover_from(eng@, data@.skip(i as int)) == eng@);
    }
    let result = eng.into_recommendations();
    proof {
        assert forall|a: int, b: int|
            0 <= a < b < result@.len() implies result@[a].artist_name@
            != result@[b].artist_name@ by {
            assert((result@[a].artist_name@, result@[a].album_name@) == spec_discover(data@)[a]);
            assert((result@[b].artist_name@, result@[b].album_name@) == spec_discover(data@)[b]);
        }
    }
    result
}

/// The source-catalog URL reading a user's top albums of the recent window:
/// the fixed six-month period and the ten-album limit.
pub fn top_albums_url(user: &str, api_key: &str) -> (r: String)
    ensures
        r@ == "http://ws.audioscrobbler.com/2.0/?method=user.gettopalbums&user="@ + user@
            + "&api_key="@ + api_key@ + "&format=json&period=6month&limit=10"@,
{
    let mut url = String::from_str(
        "http://ws.audioscrobbler.com/2.0/?method=user.gettopalbums&user=",
    );
    url.append(user);
    url.append("&api_key=");
    url.append(api_key);
    url.append("&format=json&period=6month&limit=10");
    proof {
        assert(url@ =~= "http://ws.audioscrobbler.com/2.0/?method=user.gettopalbums&user="@
            + user@ + "&api_key="@ + api_key@ + "&format=json&period=6month&limit=10"@);
    }
    url
}

/// The source-catalog URL reading an artist's similar artists, the artist
/// name percent-encoded, at most five results.
pub fn similar_artists_url(artist: &str, api_key: &str) -> (r: String)
    ensures
        r@ == "http://ws.audioscrobbler.com/2.0/?method=artist.getsimilar&artist="@ + urlenc_of(
            artist.spec_bytes(),
        ) + "&api_key="@ + api_key@ + "&format=json&limit=5"@,
{
    let mut url = String::from_str(
        "http://ws.audioscrobbler.com/2.0/?method=artist.getsimilar&artist=",
    );
    let enc = url_encode(artist.as_bytes());
    url.append(enc.as_str());
    url.append("&api_key=");
    url.append(api_key);
    url.append("&format=json&limit=5");
    proof {
        assert(url@ =~= "http://ws.audioscrobbler.com/2.0/?method=artist.getsimilar&artist="@
            + urlenc_of(artist.spec_bytes()) + "&api_key="@ + api_key@ + "&format=json&limit=5"@);
    }
    url
}

/// The source-catalog URL reading an artist's single top album, the artist
/// name percent-encoded.
pub fn artist_top_album_url(artist: &str, api_key: &str) -> (r: String)
    ensures
        r@ == "http://ws.audioscrobbler.com/2.0/?method=artist.gettopalbums&artist="@
            + urlenc_of(artist.spec_bytes()) + "&api_key="@ + api_key@ + "&format=json&limit=1"@,
{
    let mut url = String::from_str(
        "http://ws.audioscrobbler.com/2.0/?method=artist.gettopalbums&artist=",
    );
    let enc = url_encode(artist.as_bytes());
    url.append(enc.as_str());
    url.append("&api_key=");
    url.append(api_key);
    url.append("&format=json&limit=1");
    proof {
        assert(url@ =~= "http://ws.audioscrobbler.com/2.0/?method=artist.gettopalbums&artist="@
            + urlenc_of(artist.spec_bytes()) + "&api_key="@ + api_key@ + "&format=json&limit=1"@);
    }
    url
}

} // verus!
