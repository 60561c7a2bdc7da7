use music_discovery::discover::{
    artist_top_album_url, run_discovery, similar_artists_url, top_albums_url, AlbumDiscoveryData,
    DiscoveryEngine, ListeningRecord, SimilarCandidate, MAX_RECOMMENDATIONS, SIMILAR_PER_ARTIST,
};

fn record(artist: &str, album: &str) -> ListeningRecord {
    ListeningRecord {
        artist_name: artist.to_string(),
        album_name: album.to_string(),
    }
}

fn candidate(name: &str, top_album: Option<&str>) -> SimilarCandidate {
    SimilarCandidate {
        name: name.to_string(),
        top_album: top_album.map(|a| a.to_string()),
    }
}

fn entry(artist: &str, album: &str, similar: Vec<SimilarCandidate>) -> AlbumDiscoveryData {
    AlbumDiscoveryData {
        record: record(artist, album),
        similar,
    }
}

#[test]
fn two_albums_two_distinct_similar_artists_yield_two_recommendations() {
    let data = vec![
        entry("A1", "AlbumA", vec![candidate("S1", Some("TopS1"))]),
        entry("A2", "AlbumB", vec![candidate("S2", Some("TopS2"))]),
    ];
    let recs = run_discovery(&data);
    assert_eq!(recs.len(), 2);
    assert_eq!(recs[0].artist_name, "S1");
    assert_eq!(recs[0].album_name, "TopS1");
    assert_eq!(recs[1].artist_name, "S2");
    assert_eq!(recs[1].album_name, "TopS2");
}

#[test]
fn empty_history_yields_empty_list() {
    let recs = run_discovery(&Vec::new());
    assert!(recs.is_empty());
}

#[test]
fn repeated_top_artist_contributes_once() {
    let data = vec![
        entry("A1", "AlbumA", vec![candidate("S1", Some("TopS1"))]),
        entry("A1", "AlbumB", vec![candidate("S2", Some("TopS2"))]),
    ];
    let recs = run_discovery(&data);
    assert_eq!(recs.len(), 1);
    assert_eq!(recs[0].artist_name, "S1");
}

#[test]
fn repeated_similar_artist_contributes_once() {
    let data = vec![
        entry("A1", "AlbumA", vec![candidate("S1", Some("TopS1"))]),
        entry("A2", "AlbumB", vec![candidate("S1", Some("Other")), candidate("S2", Some("TopS2"))]),
    ];
    let recs = run_discovery(&data);
    assert_eq!(recs.len(), 2);
    assert_eq!(recs[0].artist_name, "S1");
    assert_eq!(recs[0].album_name, "TopS1");
    assert_eq!(recs[1].artist_name, "S2");
}

#[test]
fn candidate_without_album_is_skipped() {
    let data = vec![entry(
        "A1",
        "AlbumA",
        vec![candidate("S1", None), candidate("S2", Some("TopS2"))],
    )];
    let recs = run_discovery(&data);
    assert_eq!(recs.len(), 1);
    assert_eq!(recs[0].artist_name, "S2");
}

#[test]
fn only_two_leading_similar_artists_are_tried() {
    let data = vec![entry(
        "A1",
        "AlbumA",
        vec![
            candidate("S1", Some("T1")),
            candidate("S2", Some("T2")),
            candidate("S3", Some("T3")),
            candidate("S4", Some("T4")),
            candidate("S5", Some("T5")),
        ],
    )];
    let recs = run_discovery(&data);
    assert_eq!(recs.len(), SIMILAR_PER_ARTIST);
    assert_eq!(recs[0].artist_name, "S1");
    assert_eq!(recs[1].artist_name, "S2");
}

#[test]
fn output_is_capped_at_ten() {
    let mut data = Vec::new();
    for i in 0..6 {
        data.push(entry(
            &format!("A{i}"),
            "Album",
            vec![
                candidate(&format!("S{i}a"), Some("Ta")),
                candidate(&format!("S{i}b"), Some("Tb")),
            ],
        ));
    }
    let recs = run_discovery(&data);
    assert_eq!(recs.len(), MAX_RECOMMENDATIONS);
    let mut names: Vec<String> = recs.iter().map(|r| r.artist_name.clone()).collect();
    let expected: Vec<String> = vec![
        "S0a", "S0b", "S1a", "S1b", "S2a", "S2b", "S3a", "S3b", "S4a", "S4b",
    ]
    .into_iter()
    .map(|s| s.to_string())
    .collect();
    assert_eq!(names, expected);
    names.sort();
    names.dedup();
    assert_eq!(names.len(), MAX_RECOMMENDATIONS);
}

#[test]
fn emission_stops_mid_album_when_cap_is_reached() {
    let mut data = Vec::new();
    for i in 0..9 {
        data.push(entry(
            &format!("A{i}"),
            "Album",
            vec![candidate(&format!("S{i}"), Some("T"))],
        ));
    }
    data.push(entry(
        "A9",
        "Album",
        vec![candidate("S9first", Some("T")), candidate("S9second", Some("T"))],
    ));
    let recs = run_discovery(&data);
    assert_eq!(recs.len(), 10);
    assert_eq!(recs[9].artist_name, "S9first");
    assert!(recs.iter().all(|r| r.artist_name != "S9second"));
}

#[test]
fn engine_rejects_duplicates_and_overflow() {
    let mut eng = DiscoveryEngine::new();
    assert!(eng.try_add("S1".to_string(), "T1".to_string()));
    assert!(!eng.try_add("S1".to_string(), "T2".to_string()));
    for i in 2..=10 {
        assert!(eng.try_add(format!("S{i}"), "T".to_string()));
    }
    assert!(eng.is_full());
    assert_eq!(eng.count(), 10);
    assert!(!eng.try_add("S11".to_string(), "T".to_string()));
    let recs = eng.into_recommendations();
    assert_eq!(recs.len(), 10);
}

#[test]
fn engine_reports_seen_artists() {
    let mut eng = DiscoveryEngine::new();
    assert!(!eng.artist_seen(&"A1".to_string()));
    let data = entry("A1", "Album", vec![]);
    eng.process_album(&data);
    assert!(eng.artist_seen(&"A1".to_string()));
}

#[test]
fn source_catalog_urls_are_exact() {
    assert_eq!(
        top_albums_url("alice", "KEY"),
        "http://ws.audioscrobbler.com/2.0/?method=user.gettopalbums&user=alice&api_key=KEY&format=json&period=6month&limit=10"
    );
    assert_eq!(
        similar_artists_url("AC/DC", "KEY"),
        "http://ws.audioscrobbler.com/2.0/?method=artist.getsimilar&artist=AC%2FDC&api_key=KEY&format=json&limit=5"
    );
    assert_eq!(
        artist_top_album_url("Sigur Ros", "KEY"),
        "http://ws.audioscrobbler.com/2.0/?method=artist.gettopalbums&artist=Sigur%20Ros&api_key=KEY&format=json&limit=1"
    );
}
