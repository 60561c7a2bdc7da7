use music_discovery::discover::{run_discovery, AlbumDiscoveryData, ListeningRecord,
    SimilarCandidate};
use music_discovery::playlist::{
    add_tracks_url, album_id_from_uri, album_tracks_url, batch_track_uris, collect_track_uris,
    create_playlist_url, default_playlist_request, is_success_status, playlist_creation_outcome,
    playlist_name, resolve_album_tracks, resolve_search, search_query, search_url,
    token_exchange_outcome, PlaylistHandle, SearchExchange, SearchOutcome, TargetCatalogError,
    TrackResolution, MAX_TRACKS_PER_REQUEST,
};

fn found(tracks: Vec<&str>, albums: Vec<&str>) -> SearchOutcome {
    SearchOutcome::Found {
        track_uris: tracks.into_iter().map(|s| s.to_string()).collect(),
        album_uris: albums.into_iter().map(|s| s.to_string()).collect(),
    }
}

#[test]
fn failed_search_is_skipped() {
    assert!(matches!(
        resolve_search(&SearchOutcome::RequestFailed),
        TrackResolution::Skip
    ));
}

#[test]
fn track_hit_wins() {
    let r = resolve_search(&found(vec!["spotify:track:t1"], vec!["spotify:album:a1"]));
    assert!(matches!(r, TrackResolution::Track(u) if u == "spotify:track:t1"));
}

#[test]
fn empty_tracks_with_album_asks_for_followup() {
    let r = resolve_search(&found(vec![], vec!["spotify:album:a1"]));
    assert!(matches!(r, TrackResolution::AlbumLookup(u) if u == "spotify:album:a1"));
}

#[test]
fn nothing_found_is_skipped() {
    assert!(matches!(
        resolve_search(&found(vec![], vec![])),
        TrackResolution::Skip
    ));
}

#[test]
fn album_followup_takes_first_track() {
    let reply = Some(vec!["spotify:track:t9".to_string()]);
    assert_eq!(resolve_album_tracks(&reply), Some("spotify:track:t9".to_string()));
    assert_eq!(resolve_album_tracks(&Some(vec![])), None);
    assert_eq!(resolve_album_tracks(&None), None);
}

#[test]
fn album_fallback_records_track_and_misses_do_not_abort() {
    let exchanges = vec![
        SearchExchange {
            search: found(vec![], vec!["spotify:album:a1"]),
            album_tracks: Some(vec!["spotify:track:from_album".to_string()]),
        },
        SearchExchange {
            search: found(vec![], vec![]),
            album_tracks: None,
        },
        SearchExchange {
            search: SearchOutcome::RequestFailed,
            album_tracks: None,
        },
        SearchExchange {
            search: found(vec!["spotify:track:direct"], vec![]),
            album_tracks: None,
        },
    ];
    let uris = collect_track_uris(&exchanges);
    assert_eq!(
        uris,
        vec![
            "spotify:track:from_album".to_string(),
            "spotify:track:direct".to_string()
        ]
    );
}

#[test]
fn empty_album_followup_records_nothing() {
    let exchanges = vec![SearchExchange {
        search: found(vec![], vec!["spotify:album:a1"]),
        album_tracks: Some(vec![]),
    }];
    assert!(collect_track_uris(&exchanges).is_empty());
}

#[test]
fn two_hundred_fifty_uris_make_three_ordered_batches() {
    let uris: Vec<String> = (0..250).map(|i| format!("spotify:track:{i}")).collect();
    let batches = batch_track_uris(&uris);
    assert_eq!(batches.len(), 3);
    assert_eq!(batches[0].len(), 100);
    assert_eq!(batches[1].len(), 100);
    assert_eq!(batches[2].len(), 50);
    assert_eq!(batches[0][0], "spotify:track:0");
    assert_eq!(batches[0][99], "spotify:track:99");
    assert_eq!(batches[1][0], "spotify:track:100");
    assert_eq!(batches[2][49], "spotify:track:249");
    let flat: Vec<String> = batches.into_iter().flatten().collect();
    assert_eq!(flat, uris);
}

#[test]
fn batching_edge_sizes() {
    assert!(batch_track_uris(&Vec::new()).is_empty());
    let exactly: Vec<String> = (0..MAX_TRACKS_PER_REQUEST).map(|i| format!("u{i}")).collect();
    let batches = batch_track_uris(&exactly);
    assert_eq!(batches.len(), 1);
    assert_eq!(batches[0].len(), MAX_TRACKS_PER_REQUEST);
    let one: Vec<String> = vec!["u".to_string()];
    let batches = batch_track_uris(&one);
    assert_eq!(batches.len(), 1);
    assert_eq!(batches[0], one);
}

#[test]
fn album_id_is_last_uri_segment() {
    assert_eq!(album_id_from_uri("spotify:album:abc123"), "abc123");
    assert_eq!(album_id_from_uri("noseparator"), "noseparator");
    assert_eq!(album_id_from_uri("trailing:"), "");
}

#[test]
fn request_urls_are_exact() {
    assert_eq!(
        search_query("Artist Name", "Album"),
        "album:Album artist:Artist Name"
    );
    assert_eq!(
        search_url("Artist Name", "Album"),
        "https://api.spotify.com/v1/search?q=album%3AAlbum%20artist%3AArtist%20Name&type=album,track&limit=1"
    );
    assert_eq!(
        create_playlist_url("user1"),
        "https://api.spotify.com/v1/users/user1/playlists"
    );
    assert_eq!(
        album_tracks_url("abc123"),
        "https://api.spotify.com/v1/albums/abc123/tracks?limit=1"
    );
    let handle = PlaylistHandle {
        id: "pl42".to_string(),
        public_url: "https://open.spotify.com/playlist/pl42".to_string(),
    };
    assert_eq!(
        add_tracks_url(&handle),
        "https://api.spotify.com/v1/playlists/pl42/tracks"
    );
}

#[test]
fn playlist_naming() {
    assert_eq!(
        playlist_name("2024-01-01"),
        "Last.fm Discoveries - 2024-01-01"
    );
    let req = default_playlist_request();
    assert!(req.name.starts_with("Last.fm Discoveries - "));
    assert_eq!(
        req.description,
        "Fresh music recommendations based on your Last.fm history"
    );
    assert!(!req.public);
}

#[test]
fn token_exchange_failure_carries_status_and_body() {
    assert!(token_exchange_outcome(200, String::new()).is_ok());
    let err = token_exchange_outcome(401, "bad client".to_string()).unwrap_err();
    assert!(matches!(
        err,
        TargetCatalogError::TokenExchangeFailed { status: 401, body } if body == "bad client"
    ));
}

#[test]
fn playlist_creation_failure_carries_status_and_body() {
    assert!(playlist_creation_outcome(201, String::new()).is_ok());
    let err = playlist_creation_outcome(403, "forbidden".to_string()).unwrap_err();
    assert!(matches!(
        err,
        TargetCatalogError::PlaylistCreationFailed { status: 403, body } if body == "forbidden"
    ));
}

#[test]
fn status_classification() {
    assert!(!is_success_status(199));
    assert!(is_success_status(200));
    assert!(is_success_status(299));
    assert!(!is_success_status(300));
    assert!(!is_success_status(404));
}

#[test]
fn end_to_end_two_recommendations_one_batch() {
    let data = vec![
        AlbumDiscoveryData {
            record: ListeningRecord {
                artist_name: "A1".to_string(),
                album_name: "AlbumA".to_string(),
            },
            similar: vec![SimilarCandidate {
                name: "S1".to_string(),
                top_album: Some("TopS1".to_string()),
            }],
        },
        AlbumDiscoveryData {
            record: ListeningRecord {
                artist_name: "A2".to_string(),
                album_name: "AlbumB".to_string(),
            },
            similar: vec![SimilarCandidate {
                name: "S2".to_string(),
                top_album: Some("TopS2".to_string()),
            }],
        },
    ];
    let recs = run_discovery(&data);
    assert_eq!(recs.len(), 2);
    let exchanges: Vec<SearchExchange> = recs
        .iter()
        .enumerate()
        .map(|(i, _)| SearchExchange {
            search: SearchOutcome::Found {
                track_uris: vec![format!("spotify:track:t{i}")],
                album_uris: vec![],
            },
            album_tracks: None,
        })
        .collect();
    let uris = collect_track_uris(&exchanges);
    assert_eq!(uris, vec!["spotify:track:t0", "spotify:track:t1"]);
    let batches = batch_track_uris(&uris);
    assert_eq!(batches.len(), 1);
    assert_eq!(batches[0], uris);
}
