use musicman::playback::{watcher_step, PlayerStateStruct, SinkAction, WatcherAction};
use musicman::protocol::Response;
use musicman::queue::ClientStateStruct;
use musicman::track::{SongMeta, TrackId};

const A: TrackId = TrackId(0xa);
const B: TrackId = TrackId(0xb);

fn apply(sink: &mut Vec<Vec<i16>>, action: SinkAction) {
    match action {
        SinkAction::Restart => sink.clear(),
        SinkAction::Append { data, .. } => sink.push(data),
        SinkAction::Nothing => {}
    }
}

fn song(title: &str) -> SongMeta {
    SongMeta {
        id: TrackId::from_path(title),
        title: title.to_string(),
        artists: vec![],
        duration: 1,
        path: title.to_string(),
    }
}

#[test]
fn header_is_adopted_unconditionally() {
    let mut ps = PlayerStateStruct::new(2, 48000);
    ps.waiting_for_header = true;
    let action =
        ps.on_response(Response::SongHeader { track_id: A, channels: 1, sample_rate: 22050 });
    assert_eq!(action, SinkAction::Restart);
    assert_eq!(
        ps,
        PlayerStateStruct {
            channels: 1,
            sample_rate: 22050,
            current_id: Some(A),
            waiting_for_header: false
        }
    );
}

#[test]
fn chunk_of_the_active_track_is_appended_in_the_header_format() {
    let mut ps = PlayerStateStruct::new(2, 48000);
    ps.on_response(Response::SongHeader { track_id: A, channels: 1, sample_rate: 22050 });
    let action = ps.on_response(Response::SongChunk { track_id: A, data: vec![1, 2, 3], index: 5 });
    assert_eq!(action, SinkAction::Append { channels: 1, sample_rate: 22050, data: vec![1, 2, 3] });
}

#[test]
fn stale_chunk_is_dropped_without_a_trace() {
    let mut ps = PlayerStateStruct::new(2, 48000);
    let mut sink: Vec<Vec<i16>> = Vec::new();
    let a = ps.on_response(Response::SongHeader { track_id: A, channels: 2, sample_rate: 44100 });
    apply(&mut sink, a);
    let a = ps.on_response(Response::SongChunk { track_id: A, data: vec![7, 7], index: 0 });
    apply(&mut sink, a);
    let before = (ps, sink.clone());
    let stale = ps.on_response(Response::SongChunk { track_id: B, data: vec![9; 64], index: 1 });
    assert_eq!(stale, SinkAction::Nothing);
    apply(&mut sink, stale);
    assert_eq!((ps, sink), before);
}

#[test]
fn chunk_before_any_header_is_dropped() {
    let mut ps = PlayerStateStruct::new(2, 48000);
    let action = ps.on_response(Response::SongChunk { track_id: A, data: vec![1], index: 0 });
    assert_eq!(action, SinkAction::Nothing);
    assert_eq!(ps, PlayerStateStruct::new(2, 48000));
}

#[test]
fn header_for_another_track_flushes_the_sink() {
    let mut ps = PlayerStateStruct::new(2, 48000);
    let mut sink: Vec<Vec<i16>> = Vec::new();
    for msg in [
        Response::SongHeader { track_id: A, channels: 2, sample_rate: 44100 },
        Response::SongChunk { track_id: A, data: vec![1, 1], index: 0 },
        Response::SongChunk { track_id: A, data: vec![2, 2], index: 1 },
    ] {
        let action = ps.on_response(msg);
        apply(&mut sink, action);
    }
    assert_eq!(sink, vec![vec![1, 1], vec![2, 2]]);
    let action = ps.on_response(Response::SongHeader { track_id: B, channels: 1, sample_rate: 8000 });
    apply(&mut sink, action);
    assert!(sink.is_empty());
    for msg in [
        Response::SongChunk { track_id: A, data: vec![3, 3], index: 2 },
        Response::SongChunk { track_id: B, data: vec![4], index: 0 },
        Response::EndOfStream { track_id: A },
        Response::SongChunk { track_id: B, data: vec![5], index: 1 },
    ] {
        let action = ps.on_response(msg);
        apply(&mut sink, action);
    }
    assert_eq!(sink, vec![vec![4], vec![5]]);
    assert_eq!(ps.current_id, Some(B));
}

#[test]
fn end_marker_clears_only_the_active_track() {
    let mut ps = PlayerStateStruct::new(2, 48000);
    ps.on_response(Response::SongHeader { track_id: A, channels: 2, sample_rate: 44100 });
    assert_eq!(ps.on_response(Response::EndOfStream { track_id: B }), SinkAction::Nothing);
    assert_eq!(ps.current_id, Some(A));
    assert_eq!(ps.on_response(Response::EndOfStream { track_id: A }), SinkAction::Nothing);
    assert_eq!(ps.current_id, None);
    assert_eq!(
        ps.on_response(Response::SongChunk { track_id: A, data: vec![1], index: 9 }),
        SinkAction::Nothing
    );
}

#[test]
fn error_ends_the_wait_for_a_header() {
    let mut ps = PlayerStateStruct::new(2, 48000);
    ps.current_id = Some(A);
    ps.waiting_for_header = true;
    let action = ps.on_response(Response::Error { message: "Track not found".to_string() });
    assert_eq!(action, SinkAction::Nothing);
    assert!(!ps.waiting_for_header);
    assert_eq!(ps.current_id, Some(A));
}

#[test]
fn other_messages_do_not_concern_the_engine() {
    let mut ps = PlayerStateStruct::new(2, 48000);
    ps.waiting_for_header = true;
    let before = ps;
    assert_eq!(ps.on_response(Response::SearchResults(vec![])), SinkAction::Nothing);
    assert_eq!(ps.on_response(Response::Meta(song("x"))), SinkAction::Nothing);
    assert_eq!(ps, before);
}

#[test]
fn watcher_fires_once_per_gap() {
    let mut ps = PlayerStateStruct::new(2, 48000);
    let mut queue = ClientStateStruct::new();
    queue.enqueue(&vec![song("a"), song("b")]);

    assert_eq!(watcher_step(&mut ps, false, &mut queue), WatcherAction::Wait);
    assert!(!ps.waiting_for_header);
    assert_eq!(queue.current_idx, 0);

    assert_eq!(
        watcher_step(&mut ps, true, &mut queue),
        WatcherAction::Play(TrackId::from_path("b"))
    );
    assert!(ps.waiting_for_header);
    assert_eq!(queue.current_idx, 1);

    assert_eq!(watcher_step(&mut ps, true, &mut queue), WatcherAction::Wait);
    assert_eq!(queue.current_idx, 1);

    ps.on_response(Response::SongHeader {
        track_id: TrackId::from_path("b"),
        channels: 2,
        sample_rate: 44100,
    });
    assert_eq!(
        watcher_step(&mut ps, true, &mut queue),
        WatcherAction::Play(TrackId::from_path("a"))
    );
    assert_eq!(queue.current_idx, 0);
}

#[test]
fn watcher_on_an_empty_queue_waits_for_a_header() {
    let mut ps = PlayerStateStruct::new(2, 48000);
    let mut queue = ClientStateStruct::new();
    assert_eq!(watcher_step(&mut ps, true, &mut queue), WatcherAction::Wait);
    assert!(ps.waiting_for_header);
    assert!(queue.queue.is_empty());
    assert!(queue.current_song.is_none());
}
