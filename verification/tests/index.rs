use musicman::index::{describe, enter, is_supported_extension, split_artists, Tags};
use musicman::track::{get_track_meta, SongIndex, SongMeta, TrackId};
use std::collections::HashMap;

#[test]
fn audio_extensions_in_any_case() {
    for ext in ["mp3", "flac", "wav", "ogg", "m4a", "MP3", "Flac", "OGG"] {
        assert!(is_supported_extension(ext), "{ext}");
    }
    for ext in ["", "txt", "mp4", "mp33", "jpg", "json", " mp3"] {
        assert!(!is_supported_extension(ext), "{ext}");
    }
}

#[test]
fn artists_are_split_at_slashes() {
    assert_eq!(split_artists("Queen"), vec!["Queen"]);
    assert_eq!(split_artists("Artist1/Artist2"), vec!["Artist1", "Artist2"]);
    assert_eq!(split_artists("a/b/c d"), vec!["a", "b", "c d"]);
    assert_eq!(split_artists(""), vec![""]);
    assert_eq!(split_artists("/"), vec!["", ""]);
    assert_eq!(split_artists("a//b/"), vec!["a", "", "b", ""]);
    for text in ["", "x", "AC/DC", "/a/", "Simon/Garfunkel/"] {
        let expected: Vec<String> = text.split('/').map(|s| s.to_string()).collect();
        assert_eq!(split_artists(text), expected);
    }
}

#[test]
fn tags_start_from_the_file_name() {
    assert_eq!(
        Tags::new(Some("01 - Intro")),
        Tags { title: "01 - Intro".to_string(), artist: "Unknown".to_string() }
    );
    assert_eq!(
        Tags::new(None),
        Tags { title: "Unknown".to_string(), artist: "Unknown".to_string() }
    );
}

#[test]
fn title_and_artist_tags_are_taken() {
    let mut tags = Tags::new(Some("file"));
    tags.apply("ALBUM", "Greatest Hits");
    assert_eq!(tags, Tags::new(Some("file")));
    tags.apply("Title", "Imagine");
    tags.apply("TPE1", "John Lennon/Yoko Ono");
    assert_eq!(
        tags,
        Tags { title: "Imagine".to_string(), artist: "John Lennon/Yoko Ono".to_string() }
    );
    tags.apply("title", "");
    tags.apply("artist", "");
    assert_eq!(tags.title, "Imagine");
    assert_eq!(tags.artist, "John Lennon/Yoko Ono");
    tags.apply("TIT2", "Imagine (Remastered)");
    tags.apply("artist", "Lennon");
    assert_eq!(
        tags,
        Tags { title: "Imagine (Remastered)".to_string(), artist: "Lennon".to_string() }
    );
}

#[test]
fn description_is_built_from_path_and_tags() {
    let tags = Tags { title: "Collab Song".to_string(), artist: "Artist1/Artist2".to_string() };
    let meta = describe("/music/collab.mp3", tags, 247);
    assert_eq!(
        meta,
        SongMeta {
            id: TrackId::from_path("/music/collab.mp3"),
            title: "Collab Song".to_string(),
            artists: vec!["Artist1".to_string(), "Artist2".to_string()],
            duration: 247,
            path: "/music/collab.mp3".to_string(),
        }
    );
}

#[test]
fn entries_are_keyed_by_their_identifier() {
    let mut index: SongIndex = HashMap::new();
    let first = describe("/a.mp3", Tags::new(Some("a")), 1);
    let second = describe("/b.mp3", Tags::new(Some("b")), 2);
    let again = describe("/a.mp3", Tags::new(Some("other")), 3);
    enter(&mut index, first.clone());
    enter(&mut index, second.clone());
    assert_eq!(index.len(), 2);
    assert_eq!(get_track_meta(&first.id, &index), Some(first.clone()));
    enter(&mut index, again.clone());
    assert_eq!(index.len(), 2);
    assert_eq!(get_track_meta(&first.id, &index), Some(again));
    assert_eq!(get_track_meta(&second.id, &index), Some(second));
}
