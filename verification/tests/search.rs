use musicman::protocol::SearchType;
use musicman::search::handle_search;
use musicman::track::{get_track_meta, SongIndex, SongMeta, TrackId};
use std::collections::HashMap;
use uuid::Uuid;

fn create_test_song(title: &str, artists: Vec<&str>, path: &str) -> (TrackId, SongMeta) {
    let id = TrackId::from_path(path);
    let meta = SongMeta {
        id,
        title: title.to_string(),
        artists: artists.iter().map(|s| s.to_string()).collect(),
        duration: 180,
        path: path.to_string(),
    };
    (id, meta)
}

fn create_test_index() -> SongIndex {
    let mut index = HashMap::new();

    let songs = vec![
        ("Bohemian Rhapsody", vec!["Queen"], "/music/queen/bohemian.mp3"),
        ("Stairway to Heaven", vec!["Led Zeppelin"], "/music/led/stairway.flac"),
        ("Hotel California", vec!["Eagles"], "/music/eagles/hotel.mp3"),
        ("Imagine", vec!["John Lennon"], "/music/lennon/imagine.wav"),
        ("Smells Like Teen Spirit", vec!["Nirvana"], "/music/nirvana/smells.mp3"),
        ("Collaboration", vec!["Artist A", "Artist B"], "/music/collab.mp3"),
    ];

    for (title, artists, path) in songs {
        let (id, meta) = create_test_song(title, artists, path);
        index.insert(id.0, meta);
    }

    index
}

#[test]
fn test_search_by_title_exact_match() {
    let index = create_test_index();
    let results = handle_search(SearchType::ByTitle("Imagine".to_string()), &index);

    assert_eq!(results.len(), 1);
}

#[test]
fn test_search_by_title_partial_match() {
    let index = create_test_index();
    let results = handle_search(SearchType::ByTitle("spirit".to_string()), &index);

    assert_eq!(results.len(), 1);
}

#[test]
fn test_search_by_title_case_insensitive() {
    let index = create_test_index();
    let results = handle_search(SearchType::ByTitle("IMAGINE".to_string()), &index);

    assert_eq!(results.len(), 1);
}

#[test]
fn test_search_by_title_multiple_results() {
    let index = create_test_index();
    let results = handle_search(SearchType::ByTitle("a".to_string()), &index);

    assert!(results.len() > 1);
}

#[test]
fn test_search_by_title_no_results() {
    let index = create_test_index();
    let results = handle_search(SearchType::ByTitle("xyz123notfound".to_string()), &index);

    assert_eq!(results.len(), 0);
}

#[test]
fn test_search_by_artist_exact_match() {
    let index = create_test_index();
    let results = handle_search(SearchType::ByArtist("Queen".to_string()), &index);

    assert_eq!(results.len(), 1);
}

#[test]
fn test_search_by_artist_partial_match() {
    let index = create_test_index();
    let results = handle_search(SearchType::ByArtist("led".to_string()), &index);

    assert_eq!(results.len(), 1);
}

#[test]
fn test_search_by_artist_case_insensitive() {
    let index = create_test_index();
    let results = handle_search(SearchType::ByArtist("NIRVANA".to_string()), &index);

    assert_eq!(results.len(), 1);
}

#[test]
fn test_search_by_artist_multiple_artists_same_song() {
    let index = create_test_index();
    let results = handle_search(SearchType::ByArtist("Artist A".to_string()), &index);

    assert_eq!(results.len(), 1);
}

#[test]
fn test_search_empty_query() {
    let index = create_test_index();
    let results = handle_search(SearchType::ByTitle("".to_string()), &index);

    assert_eq!(results.len(), index.len());
}

#[test]
fn test_search_on_empty_index() {
    let index = HashMap::new();
    let results = handle_search(SearchType::ByTitle("test".to_string()), &index);

    assert_eq!(results.len(), 0);
}

#[test]
fn test_uuid_deterministic() {
    let path1 = "/music/test.mp3";
    let path2 = "/music/test.mp3";

    let id1 = TrackId::from_path(path1);
    let id2 = TrackId::from_path(path2);

    assert_eq!(id1, id2);
}

#[test]
fn test_uuid_different_paths() {
    let path1 = "/music/song1.mp3";
    let path2 = "/music/song2.mp3";

    let id1 = TrackId::from_path(path1);
    let id2 = TrackId::from_path(path2);

    assert_ne!(id1, id2);
}

#[test]
fn test_uuid_case_sensitive() {
    let path1 = "/music/Test.mp3";
    let path2 = "/music/test.mp3";

    let id1 = TrackId::from_path(path1);
    let id2 = TrackId::from_path(path2);

    assert_ne!(id1, id2);
}

#[test]
fn track_id_is_the_name_based_uuid_of_the_path() {
    let path = "/music/queen/bohemian.mp3";
    let expected = Uuid::new_v5(&Uuid::NAMESPACE_URL, path.as_bytes());
    assert_eq!(TrackId::from_path(path).0, expected.as_u128());
    assert_eq!(
        TrackId::from_path("rust-lang.org").0,
        0xc48d927f_4122_5413_968c_598b1780e749u128
    );
}

#[test]
fn test_get_track_meta_found() {
    let index = create_test_index();
    let (id, _) = create_test_song("Test", vec!["Artist"], "/test.mp3");
    let index_with_test = {
        let mut idx = index;
        let (id, meta) = create_test_song("Test", vec!["Artist"], "/test.mp3");
        idx.insert(id.0, meta);
        idx
    };

    let result = get_track_meta(&id, &index_with_test);
    assert!(result.is_some());
    assert_eq!(result.unwrap().title, "Test");
}

#[test]
fn test_get_track_meta_not_found() {
    let index = create_test_index();
    let random_id = TrackId(Uuid::new_v4().as_u128());

    let result = get_track_meta(&random_id, &index);
    assert!(result.is_none());
}

#[test]
fn test_search_with_special_characters() {
    let mut index = HashMap::new();
    let (id, meta) = create_test_song("Song (feat. Artist)", vec!["Test"], "/test.mp3");
    index.insert(id.0, meta);

    let results = handle_search(SearchType::ByTitle("feat".to_string()), &index);
    assert_eq!(results.len(), 1);
}

#[test]
fn test_search_with_numbers() {
    let mut index = HashMap::new();
    let (id, meta) = create_test_song("Track 01", vec!["Artist"], "/test.mp3");
    index.insert(id.0, meta);

    let results = handle_search(SearchType::ByTitle("01".to_string()), &index);
    assert_eq!(results.len(), 1);
}

#[test]
fn test_artist_split_by_slash() {
    let mut index = HashMap::new();
    let (id, meta) = create_test_song("Collab Song", vec!["Artist1", "Artist2"], "/test.mp3");
    index.insert(id.0, meta);

    let results1 = handle_search(SearchType::ByArtist("Artist1".to_string()), &index);
    assert_eq!(results1.len(), 1);

    let results2 = handle_search(SearchType::ByArtist("Artist2".to_string()), &index);
    assert_eq!(results2.len(), 1);
}

#[test]
fn test_duplicate_results_not_added() {
    let mut index = HashMap::new();
    let (id, meta) = create_test_song("Test Test", vec!["Artist"], "/test.mp3");
    index.insert(id.0, meta);

    let results = handle_search(SearchType::ByTitle("test".to_string()), &index);
    assert_eq!(results.len(), 1);
}

#[test]
fn search_returns_the_matching_entries_themselves() {
    let index = create_test_index();
    let mut titles: Vec<String> = handle_search(SearchType::ByTitle("he".to_string()), &index)
        .into_iter()
        .map(|m| m.title)
        .collect();
    titles.sort();
    assert_eq!(titles, vec!["Bohemian Rhapsody", "Stairway to Heaven"]);
    let hits = handle_search(SearchType::ByArtist("artist b".to_string()), &index);
    assert_eq!(hits.len(), 1);
    assert_eq!(hits[0], index[&TrackId::from_path("/music/collab.mp3").0]);
}

#[test]
fn search_ignores_case_beyond_ascii() {
    let mut index = HashMap::new();
    let (id, meta) = create_test_song("ÜBER ÉTÉ", vec!["Ärzte"], "/u.mp3");
    index.insert(id.0, meta);
    assert_eq!(handle_search(SearchType::ByTitle("über".to_string()), &index).len(), 1);
    assert_eq!(handle_search(SearchType::ByArtist("ÄRZ".to_string()), &index).len(), 1);
    assert_eq!(handle_search(SearchType::ByTitle("uber".to_string()), &index).len(), 0);
}
