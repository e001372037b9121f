use musicman::client::{reader_step, server_interface, Delivery, Exchange, ReaderStep, Routed};
use musicman::interact::{Reply, UiRequest, UiResponse};
use musicman::queue::ClientStateStruct;
use musicman::protocol::{Playlist, PlaylistResponse, Response};
use musicman::track::{SongMeta, TrackId};
use musicman::transport::send_to_client;

fn song(title: &str) -> SongMeta {
    SongMeta {
        id: TrackId::from_path(title),
        title: title.to_string(),
        artists: vec!["Band".to_string()],
        duration: 90,
        path: format!("/{title}.mp3"),
    }
}

#[test]
fn audio_goes_to_the_player() {
    for msg in [
        Response::SongHeader { track_id: TrackId(1), channels: 2, sample_rate: 44100 },
        Response::SongChunk { track_id: TrackId(1), data: vec![1, 2], index: 0 },
        Response::EndOfStream { track_id: TrackId(1) },
    ] {
        assert_eq!(server_interface(msg.clone()), Routed::Player(msg));
    }
}

#[test]
fn errors_are_shown_and_reach_the_player() {
    let msg = Response::Error { message: "Track not found".to_string() };
    assert_eq!(
        server_interface(msg.clone()),
        Routed::Both { show: UiRequest::Display("Track not found".to_string()), player: msg }
    );
}

#[test]
fn metadata_is_shown_as_a_table() {
    match server_interface(Response::Meta(song("Imagine"))) {
        Routed::Show(UiRequest::Display(text)) => {
            assert!(text.contains("Imagine") && text.contains("1m30s") && text.contains("Band"));
            assert_eq!(text.lines().count(), 5);
        }
        other => panic!("not shown: {other:?}"),
    }
}

#[test]
fn search_results_are_offered_or_turned_down() {
    assert_eq!(
        server_interface(Response::SearchResults(vec![])),
        Routed::Show(UiRequest::Display("No results.".to_string()))
    );
    match server_interface(Response::SearchResults(vec![song("A"), song("B")])) {
        Routed::PickFrom { prompt: UiRequest::Prompt { prompt, .. }, songs } => {
            assert_eq!(prompt, "Pick (*, nums)");
            assert_eq!(songs, vec![song("A"), song("B")]);
        }
        other => panic!("not offered: {other:?}"),
    }
    let many: Vec<SongMeta> = (0..101).map(|i| song(&format!("t{i}"))).collect();
    assert_eq!(
        server_interface(Response::SearchResults(many)),
        Routed::Show(UiRequest::Display(
            "More than 101 matches, please be more specific.".to_string()
        ))
    );
}

#[test]
fn playlists_are_shown_or_offered() {
    assert!(matches!(
        server_interface(Response::Playlist(PlaylistResponse::Playlists(vec![Playlist {
            name: "mix".to_string(),
            len: 2
        }]))),
        Routed::Show(UiRequest::Display(_))
    ));
    assert_eq!(
        server_interface(Response::Playlist(PlaylistResponse::Songs(vec![]))),
        Routed::Show(UiRequest::Display("No results.".to_string()))
    );
    match server_interface(Response::Playlist(PlaylistResponse::Songs(vec![song("A")]))) {
        Routed::ReplaceWith { prompt: UiRequest::Prompt { prompt, .. }, songs } => {
            assert_eq!(prompt, "Replace queue? (y/N)");
            assert_eq!(songs, vec![song("A")]);
        }
        other => panic!("not offered: {other:?}"),
    }
}

#[test]
fn reader_delivers_waits_or_stops() {
    let first = Response::EndOfStream { track_id: TrackId(5) };
    let mut stream = send_to_client(&first).unwrap();
    let size = stream.len();
    stream.extend_from_slice(&send_to_client(&Response::SearchResults(vec![])).unwrap());
    assert_eq!(
        reader_step(&stream, false),
        ReaderStep::Deliver { routed: Routed::Player(first), consumed: size }
    );
    assert_eq!(
        reader_step(&stream[size..], false),
        ReaderStep::Deliver {
            routed: Routed::Show(UiRequest::Display("No results.".to_string())),
            consumed: stream.len() - size
        }
    );
    assert_eq!(reader_step(&stream[..3], false), ReaderStep::Wait { missing: 1 });
    assert_eq!(reader_step(&stream[..10], false), ReaderStep::Wait { missing: (size - 10) as u64 });
    assert_eq!(reader_step(&[], true), ReaderStep::Stop(UiRequest::Shutdown));
    assert_eq!(reader_step(&stream[..10], true), ReaderStep::Stop(UiRequest::Shutdown));
    assert_eq!(
        reader_step(&[0, 0, 0, 1, 0xff], false),
        ReaderStep::Stop(UiRequest::Shutdown)
    );
}

#[test]
fn a_list_to_choose_from_opens_a_question() {
    let mut exchange = Exchange::Idle;
    assert!(!exchange.is_awaiting());
    let routed = server_interface(Response::SearchResults(vec![song("A"), song("B"), song("C")]));
    let delivery = exchange.take(routed);
    assert!(matches!(delivery, Delivery { show: Some(UiRequest::Prompt { .. }), player: None }));
    assert_eq!(exchange, Exchange::AwaitingPick(vec![song("A"), song("B"), song("C")]));
    assert!(exchange.is_awaiting());

    let mut state = ClientStateStruct::new();
    let reply = exchange.answer(&UiResponse("3 1".to_string()), &mut state);
    assert_eq!(
        reply,
        Reply {
            message: Some("Added 2 songs to queue.".to_string()),
            play: Some(TrackId::from_path("C"))
        }
    );
    assert_eq!(state.queue, vec![song("C"), song("A")]);
    assert_eq!(exchange, Exchange::Idle);
}

#[test]
fn a_playlist_opens_a_yes_or_no_question() {
    let mut exchange = Exchange::Idle;
    let routed = server_interface(Response::Playlist(PlaylistResponse::Songs(vec![song("P")])));
    exchange.take(routed);
    assert_eq!(exchange, Exchange::AwaitingConfirm(vec![song("P")]));
    let mut state = ClientStateStruct::new();
    state.enqueue(&vec![song("A")]);
    let reply = exchange.answer(&UiResponse("1".to_string()), &mut state);
    assert_eq!(reply, Reply { message: None, play: None });
    assert_eq!(state.queue, vec![song("A")]);
    assert_eq!(exchange, Exchange::Idle);
}

#[test]
fn a_stray_answer_changes_nothing() {
    let mut exchange = Exchange::Idle;
    let mut state = ClientStateStruct::new();
    state.enqueue(&vec![song("A")]);
    let reply = exchange.answer(&UiResponse("*".to_string()), &mut state);
    assert_eq!(reply, Reply { message: None, play: None });
    assert_eq!(state.queue, vec![song("A")]);
    assert_eq!(exchange, Exchange::Idle);
}

#[test]
fn other_messages_pass_an_open_question_by() {
    let mut exchange = Exchange::AwaitingPick(vec![song("A")]);
    let chunk = Response::SongChunk { track_id: TrackId(1), data: vec![1], index: 0 };
    let delivery = exchange.take(server_interface(chunk.clone()));
    assert_eq!(delivery, Delivery { show: None, player: Some(chunk) });
    let error = Response::Error { message: "Track not found".to_string() };
    let delivery = exchange.take(server_interface(error.clone()));
    assert_eq!(
        delivery,
        Delivery {
            show: Some(UiRequest::Display("Track not found".to_string())),
            player: Some(error)
        }
    );
    assert_eq!(exchange, Exchange::AwaitingPick(vec![song("A")]));
}
