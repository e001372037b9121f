use musicman::protocol::{PlaylistMeta, PlaylistRequest, Request, Response, SearchType};
use musicman::session::{
    handle_request, is_playlist_file, not_found, playlist_file, playlist_reply, playlists_reply,
    Decoded, ServerAction, State, StreamPhase, StreamTask, CHUNK_SAMPLES,
};
use musicman::protocol::{Playlist, PlaylistResponse};
use musicman::track::{SongIndex, SongMeta, TrackId};
use std::collections::HashMap;

const X: TrackId = TrackId(0x10);
const Y: TrackId = TrackId(0x20);

fn song(id: TrackId, title: &str) -> SongMeta {
    SongMeta {
        id,
        title: title.to_string(),
        artists: vec!["Band".to_string()],
        duration: 60,
        path: format!("/music/{title}.ogg"),
    }
}

fn index() -> SongIndex {
    let mut index = HashMap::new();
    index.insert(X.0, song(X, "ex"));
    index.insert(Y.0, song(Y, "why"));
    index
}

#[test]
fn header_announces_the_probed_format() {
    let (task, header) = StreamTask::begin(X, Some(2), Some(48000));
    assert_eq!(task, StreamTask { track_id: X, sent: 0, phase: StreamPhase::Streaming });
    assert_eq!(header, Response::SongHeader { track_id: X, channels: 2, sample_rate: 48000 });
}

#[test]
fn header_defaults_to_mono_44100() {
    let (_, header) = StreamTask::begin(X, None, None);
    assert_eq!(header, Response::SongHeader { track_id: X, channels: 1, sample_rate: 44100 });
    let (_, header) = StreamTask::begin(X, Some(6), None);
    assert_eq!(header, Response::SongHeader { track_id: X, channels: 6, sample_rate: 44100 });
}

#[test]
fn block_is_cut_every_8192_samples() {
    assert_eq!(CHUNK_SAMPLES, 8192);
    let samples: Vec<i16> = (0..20000).map(|i| (i % 1000) as i16).collect();
    let (mut task, _) = StreamTask::begin(X, None, None);
    let chunks = task.split_block(&samples);
    assert_eq!(chunks.len(), 3);
    let mut joined: Vec<i16> = Vec::new();
    for (k, chunk) in chunks.iter().enumerate() {
        match chunk {
            Response::SongChunk { track_id, data, index } => {
                assert_eq!(*track_id, X);
                assert_eq!(*index, k as u32);
                assert!(data.len() <= 8192 && !data.is_empty());
                joined.extend_from_slice(data);
            }
            other => panic!("no chunk: {other:?}"),
        }
    }
    assert_eq!(joined, samples);
    assert_eq!(task.sent, 3);

    let more = task.split_block(&vec![5; 8192]);
    assert_eq!(more, vec![Response::SongChunk { track_id: X, data: vec![5; 8192], index: 3 }]);
    let more = task.split_block(&vec![6; 8193]);
    assert_eq!(
        more,
        vec![
            Response::SongChunk { track_id: X, data: vec![6; 8192], index: 4 },
            Response::SongChunk { track_id: X, data: vec![6; 1], index: 5 },
        ]
    );
    assert_eq!(task.split_block(&vec![]), vec![]);
    assert_eq!(task.sent, 6);
}

#[test]
fn stream_ends_with_one_end_marker() {
    let (mut task, _) = StreamTask::begin(X, None, None);
    task.split_block(&vec![1, 2, 3]);
    assert_eq!(task.finish(), Some(Response::EndOfStream { track_id: X }));
    assert_eq!(task.phase, StreamPhase::Finished);
    assert_eq!(task.finish(), None);
    assert_eq!(task.split_block(&vec![1, 2, 3]), vec![]);
}

#[test]
fn cancelled_stream_sends_nothing_more() {
    let (mut task, _) = StreamTask::begin(Y, Some(2), Some(44100));
    let chunks = task.split_block(&vec![0; 3 * 8192]);
    let mut sent = Vec::new();
    for (k, chunk) in chunks.into_iter().enumerate() {
        let cancelled = k == 1;
        if !task.allow_send(cancelled) {
            break;
        }
        sent.push(chunk);
    }
    assert_eq!(sent.len(), 1);
    assert_eq!(task.phase, StreamPhase::Cancelled);
    assert!(!task.allow_send(false));
    assert_eq!(task.split_block(&vec![0; 100]), vec![]);
    assert_eq!(task.finish(), None);
}

#[test]
fn decode_errors_skip_or_abort() {
    let (mut task, _) = StreamTask::begin(X, None, None);
    assert!(task.decode_failed(false));
    assert_eq!(task.phase, StreamPhase::Streaming);
    assert_eq!(task.split_block(&vec![1]).len(), 1);
    assert!(!task.decode_failed(true));
    assert_eq!(task.phase, StreamPhase::Aborted);
    assert_eq!(task.split_block(&vec![1]), vec![]);
    assert_eq!(task.finish(), None);
    assert!(!task.decode_failed(false));
}

#[test]
fn chunk_numbers_never_wrap() {
    let mut task = StreamTask { track_id: X, sent: u32::MAX as u64, phase: StreamPhase::Streaming };
    assert_eq!(
        task.split_block(&vec![1]),
        vec![Response::SongChunk { track_id: X, data: vec![1], index: u32::MAX }]
    );
    assert_eq!(task.split_block(&vec![1]), vec![]);
    assert_eq!(task.phase, StreamPhase::Aborted);
}

#[test]
fn play_supersedes_the_stream_in_progress() {
    let index = index();
    let mut state: State<&'static str> = State::new();
    let (cancelled, action) = handle_request(&mut state, &index, Request::Play { track_id: Y });
    assert_eq!(cancelled, None);
    assert_eq!(
        action,
        ServerAction::OpenTrack { track_id: Y, path: "/music/why.ogg".to_string() }
    );
    state.stream_started("stream of y");

    let (mut old_task, _) = StreamTask::begin(Y, None, None);
    let (cancelled, action) = handle_request(&mut state, &index, Request::Play { track_id: X });
    assert_eq!(cancelled, Some("stream of y"));
    assert!(state.current_stream_cancel.is_none());
    assert_eq!(action, ServerAction::OpenTrack { track_id: X, path: "/music/ex.ogg".to_string() });

    let mut wire: Vec<Response> = Vec::new();
    for chunk in old_task.split_block(&vec![0; 20000]) {
        if old_task.allow_send(cancelled.is_some()) {
            wire.push(chunk);
        }
    }
    if let Some(end) = old_task.finish() {
        wire.push(end);
    }
    let (mut new_task, header) = StreamTask::begin(X, Some(2), None);
    state.stream_started("stream of x");
    wire.push(header);
    for chunk in new_task.split_block(&vec![1; 10]) {
        if new_task.allow_send(false) {
            wire.push(chunk);
        }
    }
    wire.extend(new_task.finish());
    assert_eq!(
        wire,
        vec![
            Response::SongHeader { track_id: X, channels: 2, sample_rate: 44100 },
            Response::SongChunk { track_id: X, data: vec![1; 10], index: 0 },
            Response::EndOfStream { track_id: X },
        ]
    );
}

#[test]
fn unknown_track_is_answered_with_an_error() {
    let index = index();
    let mut state: State<u8> = State::new();
    state.stream_started(1);
    let (cancelled, action) =
        handle_request(&mut state, &index, Request::Play { track_id: TrackId(0x99) });
    assert_eq!(cancelled, Some(1));
    assert_eq!(
        action,
        ServerAction::Reply(Response::Error { message: "Track not found".to_string() })
    );
    assert_eq!(not_found(), Response::Error { message: "Track not found".to_string() });
    let (cancelled, action) =
        handle_request(&mut state, &index, Request::Meta { track_id: TrackId(0x99) });
    assert_eq!(cancelled, None);
    assert_eq!(action, ServerAction::Reply(not_found()));
}

#[test]
fn other_requests_leave_the_stream_alone() {
    let index = index();
    let mut state: State<u8> = State::new();
    state.stream_started(7);
    let (cancelled, action) = handle_request(&mut state, &index, Request::Meta { track_id: X });
    assert_eq!(cancelled, None);
    assert_eq!(action, ServerAction::Reply(Response::Meta(song(X, "ex"))));
    assert_eq!(state.current_stream_cancel, Some(7));

    let (_, action) = handle_request(
        &mut state,
        &index,
        Request::Search(SearchType::ByTitle("WH".to_string())),
    );
    assert_eq!(action, ServerAction::Reply(Response::SearchResults(vec![song(Y, "why")])));
    assert_eq!(state.current_stream_cancel, Some(7));
}

#[test]
fn playlist_requests_name_what_to_read_or_write() {
    let index = index();
    let mut state: State<u8> = State::new();
    let (_, action) =
        handle_request(&mut state, &index, Request::Playlist(PlaylistRequest::List));
    assert_eq!(action, ServerAction::ListPlaylists);
    let (_, action) = handle_request(
        &mut state,
        &index,
        Request::Playlist(PlaylistRequest::Get { name: "../road trip!".to_string() }),
    );
    assert_eq!(action, ServerAction::LoadPlaylist { name: "roadtrip".to_string() });
    let (_, action) = handle_request(
        &mut state,
        &index,
        Request::Playlist(PlaylistRequest::Create {
            name: "my mix/2".to_string(),
            songs: vec![song(X, "ex")],
        }),
    );
    assert_eq!(
        action,
        ServerAction::SavePlaylist(PlaylistMeta {
            title: "mymix2".to_string(),
            songs: vec![song(X, "ex")]
        })
    );
}

#[test]
fn a_whole_stream_is_header_chunks_and_end() {
    let (mut task, header) = StreamTask::begin(X, Some(2), Some(44100));
    let mut wire = vec![header];
    for event in [
        Decoded::Block(vec![1; 10000]),
        Decoded::Skipped,
        Decoded::Block(vec![]),
        Decoded::Block(vec![2; 3]),
        Decoded::Finished,
        Decoded::Block(vec![3; 3]),
        Decoded::Finished,
    ] {
        wire.extend(task.on_decoded(event));
    }
    assert_eq!(
        wire,
        vec![
            Response::SongHeader { track_id: X, channels: 2, sample_rate: 44100 },
            Response::SongChunk { track_id: X, data: vec![1; 8192], index: 0 },
            Response::SongChunk { track_id: X, data: vec![1; 1808], index: 1 },
            Response::SongChunk { track_id: X, data: vec![2; 3], index: 2 },
            Response::EndOfStream { track_id: X },
        ]
    );
    assert_eq!(task, StreamTask { track_id: X, sent: 3, phase: StreamPhase::Finished });
}

#[test]
fn a_failed_stream_just_stops() {
    let (mut task, _) = StreamTask::begin(X, None, None);
    let mut wire = Vec::new();
    for event in [
        Decoded::Block(vec![1; 5]),
        Decoded::Failed,
        Decoded::Block(vec![2; 5]),
        Decoded::Finished,
    ] {
        wire.extend(task.on_decoded(event));
    }
    assert_eq!(wire, vec![Response::SongChunk { track_id: X, data: vec![1; 5], index: 0 }]);
    assert_eq!(task.phase, StreamPhase::Aborted);
}

#[test]
fn stored_playlists_are_listed_and_served() {
    assert_eq!(playlist_file("roadtrip"), "roadtrip.json");
    assert_eq!(playlist_file(""), ".json");
    assert!(is_playlist_file(Some("json")));
    assert!(!is_playlist_file(Some("JSON")));
    assert!(!is_playlist_file(Some("txt")));
    assert!(!is_playlist_file(None));
    let road = PlaylistMeta { title: "road".to_string(), songs: vec![song(X, "ex"), song(Y, "why")] };
    let home = PlaylistMeta { title: "home".to_string(), songs: vec![] };
    assert_eq!(
        playlists_reply(&vec![road.clone(), home]),
        Response::Playlist(PlaylistResponse::Playlists(vec![
            Playlist { name: "road".to_string(), len: 2 },
            Playlist { name: "home".to_string(), len: 0 },
        ]))
    );
    assert_eq!(
        playlist_reply(road),
        Response::Playlist(PlaylistResponse::Songs(vec![song(X, "ex"), song(Y, "why")]))
    );
}
