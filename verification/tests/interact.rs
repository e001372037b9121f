use musicman::interact::{
    handle_playlist_response, handle_search_response, is_yes, parse_selection, playlist_prompt,
    search_prompt, Reply, UiRequest, UiResponse,
};
use musicman::protocol::{Playlist, PlaylistResponse};
use musicman::queue::ClientStateStruct;
use musicman::track::{SongMeta, TrackId};

fn song(title: &str) -> SongMeta {
    SongMeta {
        id: TrackId::from_path(title),
        title: title.to_string(),
        artists: vec!["X".to_string(), "Y".to_string()],
        duration: 205,
        path: format!("/{title}.mp3"),
    }
}

fn songs(n: usize) -> Vec<SongMeta> {
    (1..=n).map(|i| song(&format!("S{i}"))).collect()
}

fn titles(state: &ClientStateStruct) -> Vec<String> {
    state.queue.iter().map(|m| m.title.clone()).collect()
}

#[test]
fn no_results_are_displayed_as_such() {
    assert_eq!(search_prompt(&vec![]), UiRequest::Display("No results.".to_string()));
}

#[test]
fn too_many_results_are_turned_down() {
    assert_eq!(
        search_prompt(&songs(101)),
        UiRequest::Display("More than 101 matches, please be more specific.".to_string())
    );
    assert!(matches!(search_prompt(&songs(100)), UiRequest::Prompt { .. }));
}

#[test]
fn results_are_offered_for_picking() {
    match search_prompt(&songs(2)) {
        UiRequest::Prompt { s, prompt } => {
            assert_eq!(prompt, "Pick (*, nums)");
            assert!(s.contains("S1") && s.contains("S2"));
            assert!(s.contains("X, Y"));
            assert!(s.contains("3m25s"));
            assert!(s.contains("Sl.no") && s.contains("Length"));
            assert!(!s.contains('*'));
        }
        other => panic!("no prompt: {other:?}"),
    }
}

#[test]
fn numbers_select_in_the_order_given() {
    assert_eq!(parse_selection("1 3", 3), vec![0, 2]);
    assert_eq!(parse_selection("3 1", 3), vec![2, 0]);
    assert_eq!(parse_selection("2 2", 3), vec![1, 1]);
    assert_eq!(parse_selection("  2\t3 ", 3), vec![1, 2]);
    assert_eq!(parse_selection("+2 003", 3), vec![1, 2]);
}

#[test]
fn tokens_that_name_no_entry_are_skipped() {
    assert_eq!(parse_selection("1 3 9", 3), vec![0, 2]);
    assert_eq!(parse_selection("0 4 x 1x -1 2", 3), vec![1]);
    assert_eq!(parse_selection("99999999999999999999999999 1", 3), vec![0]);
    assert_eq!(parse_selection("", 3), Vec::<usize>::new());
    assert_eq!(parse_selection("+ ++1 1+", 3), Vec::<usize>::new());
    assert_eq!(parse_selection("1", 0), Vec::<usize>::new());
}

#[test]
fn star_selects_everything() {
    assert_eq!(parse_selection("*", 4), vec![0, 1, 2, 3]);
    assert_eq!(parse_selection("  * ", 2), vec![0, 1]);
    assert_eq!(parse_selection("*", 0), Vec::<usize>::new());
    assert_eq!(parse_selection("* 1", 3), vec![0]);
    assert_eq!(parse_selection("**", 3), Vec::<usize>::new());
}

#[test]
fn picked_items_are_added_in_order() {
    let found = vec![song("A"), song("B"), song("C")];
    let mut state = ClientStateStruct::new();
    let reply = handle_search_response(&found, &UiResponse("1 3".to_string()), &mut state);
    assert_eq!(titles(&state), vec!["A", "C"]);
    assert_eq!(
        reply,
        Reply {
            message: Some("Added 2 songs to queue.".to_string()),
            play: Some(TrackId::from_path("A"))
        }
    );
    assert_eq!(state.current_idx, 0);
    assert_eq!(state.current_song, Some(song("A")));

    let mut state = ClientStateStruct::new();
    handle_search_response(&found, &UiResponse("1 3 9".to_string()), &mut state);
    assert_eq!(titles(&state), vec!["A", "C"]);
}

#[test]
fn picking_into_a_playing_queue_appends_without_a_play() {
    let mut state = ClientStateStruct::new();
    state.enqueue(&vec![song("P"), song("Q")]);
    musicman::queue::get_next_song(&mut state, 1);
    let found = vec![song("A"), song("B"), song("C")];
    let reply = handle_search_response(&found, &UiResponse("3 2".to_string()), &mut state);
    assert_eq!(titles(&state), vec!["P", "Q", "C", "B"]);
    assert_eq!(reply.play, None);
    assert_eq!(reply.message, Some("Added 2 songs to queue.".to_string()));
    assert_eq!(state.current_idx, 1);
    assert_eq!(state.current_song, Some(song("Q")));
}

#[test]
fn selecting_nothing_adds_nothing() {
    let found = vec![song("A"), song("B")];
    let mut state = ClientStateStruct::new();
    let reply = handle_search_response(&found, &UiResponse("7 nope".to_string()), &mut state);
    assert_eq!(
        reply,
        Reply { message: Some("Added 0 songs to queue.".to_string()), play: None }
    );
    assert!(state.queue.is_empty());
    assert!(state.current_song.is_none());
}

#[test]
fn yes_is_a_leading_y() {
    assert!(is_yes("y"));
    assert!(is_yes("yes"));
    assert!(is_yes("yolo"));
    assert!(!is_yes(""));
    assert!(!is_yes("Y"));
    assert!(!is_yes("n"));
    assert!(!is_yes(" y"));
}

#[test]
fn playlist_listing_is_displayed() {
    assert_eq!(
        playlist_prompt(&PlaylistResponse::Playlists(vec![])),
        UiRequest::Display("No playlists yet.".to_string())
    );
    match playlist_prompt(&PlaylistResponse::Playlists(vec![
        Playlist { name: "road".to_string(), len: 12 },
        Playlist { name: "home".to_string(), len: 0 },
    ])) {
        UiRequest::Display(text) => {
            assert!(text.contains("road") && text.contains("home"));
            assert!(text.contains("12") && text.contains("Entries"));
        }
        other => panic!("no display: {other:?}"),
    }
}

#[test]
fn playlist_tracks_ask_before_replacing() {
    assert_eq!(
        playlist_prompt(&PlaylistResponse::Songs(vec![])),
        UiRequest::Display("No results.".to_string())
    );
    match playlist_prompt(&PlaylistResponse::Songs(songs(3))) {
        UiRequest::Prompt { s, prompt } => {
            assert_eq!(prompt, "Replace queue? (y/N)");
            assert!(s.contains("S3"));
        }
        other => panic!("no prompt: {other:?}"),
    }
}

#[test]
fn yes_replaces_the_queue() {
    let mut state = ClientStateStruct::new();
    state.enqueue(&vec![song("P"), song("Q")]);
    musicman::queue::get_next_song(&mut state, 1);
    let list = songs(3);
    let reply = handle_playlist_response(&list, &UiResponse("yes".to_string()), &mut state);
    assert_eq!(titles(&state), vec!["S1", "S2", "S3"]);
    assert_eq!(state.current_idx, 0);
    assert_eq!(state.current_song, Some(song("S1")));
    assert_eq!(
        reply,
        Reply {
            message: Some("Added 3 songs to queue.".to_string()),
            play: Some(TrackId::from_path("S1"))
        }
    );
}

#[test]
fn anything_else_keeps_the_queue() {
    for answer in ["", "n", "N", "no", "maybe"] {
        let mut state = ClientStateStruct::new();
        state.enqueue(&vec![song("P")]);
        let reply = handle_playlist_response(&songs(2), &UiResponse(answer.to_string()), &mut state);
        assert_eq!(reply, Reply { message: None, play: None });
        assert_eq!(titles(&state), vec!["P"]);
    }
    let mut state = ClientStateStruct::new();
    let reply = handle_playlist_response(&vec![], &UiResponse("y".to_string()), &mut state);
    assert_eq!(reply, Reply { message: None, play: None });
    assert!(state.queue.is_empty());
}
