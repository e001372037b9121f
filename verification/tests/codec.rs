use musicman::codec::{
    decode_request, decode_response, encode_request, encode_response, DecodeError,
};
use musicman::framing::{read_frame, write_frame, ReadOutcome};
use musicman::protocol::{
    Playlist, PlaylistRequest, PlaylistResponse, Request, Response, SearchType,
};
use musicman::track::{SongMeta, TrackId};
use musicman::transport::{
    read_from_client, read_request, send_to_client, send_to_server, Received,
};
use uuid::Uuid;

fn meta(n: u32) -> SongMeta {
    let path = format!("/music/track{n}.flac");
    SongMeta {
        id: TrackId::from_path(&path),
        title: format!("Träck № {n}"),
        artists: vec![format!("Artist {n}"), "Ωmega".to_string()],
        duration: 100 + n,
        path,
    }
}

fn all_requests() -> Vec<Request> {
    vec![
        Request::Play { track_id: TrackId(0x0123_4567_89ab_cdef_0011_2233_4455_6677) },
        Request::Play { track_id: TrackId(0) },
        Request::Play { track_id: TrackId(u128::MAX) },
        Request::Meta { track_id: TrackId(42) },
        Request::Search(SearchType::ByTitle("imagine".to_string())),
        Request::Search(SearchType::ByArtist("".to_string())),
        Request::Playlist(PlaylistRequest::List),
        Request::Playlist(PlaylistRequest::Get { name: "road trip".to_string() }),
        Request::Playlist(PlaylistRequest::Create { name: "mix".to_string(), songs: vec![] }),
        Request::Playlist(PlaylistRequest::Create {
            name: "mix".to_string(),
            songs: vec![meta(1), meta(2), meta(3)],
        }),
    ]
}

fn all_responses() -> Vec<Response> {
    vec![
        Response::SongHeader { track_id: TrackId(7), channels: 2, sample_rate: 48000 },
        Response::SongHeader { track_id: TrackId(7), channels: u16::MAX, sample_rate: u32::MAX },
        Response::SongChunk { track_id: TrackId(7), data: vec![], index: 0 },
        Response::SongChunk {
            track_id: TrackId(7),
            data: vec![0, 1, -1, i16::MAX, i16::MIN, 256, -256, 12345, -12345],
            index: 0xdead_beef,
        },
        Response::EndOfStream { track_id: TrackId(9) },
        Response::Playlist(PlaylistResponse::Playlists(vec![])),
        Response::Playlist(PlaylistResponse::Playlists(vec![
            Playlist { name: "a".to_string(), len: 0 },
            Playlist { name: "béta".to_string(), len: 123_456 },
        ])),
        Response::Playlist(PlaylistResponse::Songs(vec![meta(4)])),
        Response::SearchResults(vec![]),
        Response::SearchResults(vec![meta(5), meta(6)]),
        Response::Meta(meta(7)),
        Response::Error { message: "Track not found".to_string() },
    ]
}

#[test]
fn requests_round_trip() {
    for request in all_requests() {
        let bytes = encode_request(&request);
        assert_eq!(decode_request(&bytes), Ok(request));
    }
}

#[test]
fn responses_round_trip() {
    for response in all_responses() {
        let bytes = encode_response(&response);
        assert_eq!(decode_response(&bytes), Ok(response));
    }
}

#[test]
fn play_request_layout() {
    let request = Request::Play { track_id: TrackId(0x0102_0304_0506_0708_090a_0b0c_0d0e_0f10) };
    let expected: Vec<u8> = vec![
        0, 0, 0, 0, // variant 0
        16, 0, 0, 0, 0, 0, 0, 0, // sixteen bytes follow
        1, 2, 3, 4, 5, 6, 7, 8, 9, 10, 11, 12, 13, 14, 15, 16,
    ];
    assert_eq!(encode_request(&request), expected);
}

#[test]
fn header_layout() {
    let response = Response::SongHeader { track_id: TrackId(1), channels: 2, sample_rate: 44100 };
    let mut expected: Vec<u8> = vec![0, 0, 0, 0, 16, 0, 0, 0, 0, 0, 0, 0];
    expected.extend_from_slice(&[0; 15]);
    expected.push(1);
    expected.extend_from_slice(&[2, 0]);
    expected.extend_from_slice(&[0x44, 0xac, 0, 0]);
    assert_eq!(encode_response(&response), expected);
}

#[test]
fn chunk_layout() {
    let response = Response::SongChunk { track_id: TrackId(0), data: vec![1, -2], index: 3 };
    let mut expected: Vec<u8> = vec![1, 0, 0, 0, 16, 0, 0, 0, 0, 0, 0, 0];
    expected.extend_from_slice(&[0; 16]);
    expected.extend_from_slice(&[2, 0, 0, 0, 0, 0, 0, 0]);
    expected.extend_from_slice(&[1, 0, 0xfe, 0xff]);
    expected.extend_from_slice(&[3, 0, 0, 0]);
    assert_eq!(encode_response(&response), expected);
}

#[test]
fn layout_agrees_with_bincode_on_the_same_fields() {
    let id = Uuid::from_u128(0x6ba7_b811_9dad_11d1_80b4_00c0_4fd4_30c8);
    let track_id = TrackId(id.as_u128());
    assert_eq!(
        encode_request(&Request::Play { track_id }),
        bincode::serialize(&(0u32, id)).unwrap()
    );
    assert_eq!(
        encode_request(&Request::Meta { track_id }),
        bincode::serialize(&(2u32, id)).unwrap()
    );
    assert_eq!(
        encode_request(&Request::Search(SearchType::ByArtist("Ärzte".to_string()))),
        bincode::serialize(&(3u32, 1u32, "Ärzte")).unwrap()
    );
    assert_eq!(
        encode_request(&Request::Playlist(PlaylistRequest::List)),
        bincode::serialize(&(1u32, 2u32)).unwrap()
    );
    assert_eq!(
        encode_response(&Response::SongHeader { track_id, channels: 2, sample_rate: 44100 }),
        bincode::serialize(&(0u32, id, 2u16, 44100u32)).unwrap()
    );
    let data: Vec<i16> = vec![5, -5, i16::MIN, i16::MAX];
    assert_eq!(
        encode_response(&Response::SongChunk { track_id, data: data.clone(), index: 9 }),
        bincode::serialize(&(1u32, id, data, 9u32)).unwrap()
    );
    let m = meta(3);
    let as_tuple = (
        Uuid::from_u128(m.id.0),
        m.title.clone(),
        m.artists.clone(),
        m.duration,
        m.path.clone(),
    );
    assert_eq!(
        encode_response(&Response::Meta(m.clone())),
        bincode::serialize(&(5u32, as_tuple.clone())).unwrap()
    );
    assert_eq!(
        encode_response(&Response::SearchResults(vec![m.clone(), m.clone()])),
        bincode::serialize(&(4u32, vec![as_tuple.clone(), as_tuple.clone()])).unwrap()
    );
    assert_eq!(
        encode_response(&Response::Playlist(PlaylistResponse::Playlists(vec![Playlist {
            name: "mix".to_string(),
            len: 7,
        }]))),
        bincode::serialize(&(3u32, 0u32, vec![("mix", 7usize)])).unwrap()
    );
    assert_eq!(
        encode_response(&Response::Error { message: "Track not found".to_string() }),
        bincode::serialize(&(6u32, "Track not found")).unwrap()
    );
}

#[test]
fn decoding_reads_what_bincode_wrote() {
    let id = Uuid::new_v5(&Uuid::NAMESPACE_URL, b"/music/a.mp3");
    let bytes = bincode::serialize(&(2u32, id)).unwrap();
    assert_eq!(decode_response(&bytes), Ok(Response::EndOfStream { track_id: TrackId(id.as_u128()) }));
    let bytes = bincode::serialize(&(3u32, 0u32, "Hello")).unwrap();
    assert_eq!(
        decode_request(&bytes),
        Ok(Request::Search(SearchType::ByTitle("Hello".to_string())))
    );
}

#[test]
fn trailing_bytes_are_ignored() {
    let mut bytes = encode_request(&Request::Playlist(PlaylistRequest::List));
    bytes.extend_from_slice(&[1, 2, 3]);
    assert_eq!(decode_request(&bytes), Ok(Request::Playlist(PlaylistRequest::List)));
}

#[test]
fn unknown_variant_is_rejected() {
    assert_eq!(decode_request(&[4, 0, 0, 0]), Err(DecodeError));
    assert_eq!(decode_response(&[7, 0, 0, 0]), Err(DecodeError));
    assert_eq!(decode_request(&[1, 0, 0, 0, 3, 0, 0, 0]), Err(DecodeError));
    assert_eq!(decode_request(&[3, 0, 0, 0, 2, 0, 0, 0]), Err(DecodeError));
    assert_eq!(decode_response(&[3, 0, 0, 0, 2, 0, 0, 0]), Err(DecodeError));
}

#[test]
fn short_payloads_are_rejected() {
    assert_eq!(decode_request(&[]), Err(DecodeError));
    assert_eq!(decode_request(&[0, 0, 0]), Err(DecodeError));
    for request in all_requests() {
        let bytes = encode_request(&request);
        for cut in 0..bytes.len() {
            assert_eq!(decode_request(&bytes[..cut]), Err(DecodeError));
        }
    }
    for response in all_responses() {
        let bytes = encode_response(&response);
        for cut in 0..bytes.len() {
            assert_eq!(decode_response(&bytes[..cut]), Err(DecodeError));
        }
    }
}

#[test]
fn identifier_of_wrong_length_is_rejected() {
    let mut bytes: Vec<u8> = vec![0, 0, 0, 0, 15, 0, 0, 0, 0, 0, 0, 0];
    bytes.extend_from_slice(&[0; 16]);
    assert_eq!(decode_request(&bytes), Err(DecodeError));
}

#[test]
fn invalid_utf8_is_rejected() {
    let bytes: Vec<u8> = vec![6, 0, 0, 0, 2, 0, 0, 0, 0, 0, 0, 0, 0xff, 0xfe];
    assert_eq!(decode_response(&bytes), Err(DecodeError));
    let bytes: Vec<u8> = vec![6, 0, 0, 0, 2, 0, 0, 0, 0, 0, 0, 0, 0xc3, 0xa9];
    assert_eq!(decode_response(&bytes), Ok(Response::Error { message: "é".to_string() }));
}

#[test]
fn oversized_list_length_is_rejected() {
    let mut bytes: Vec<u8> = vec![4, 0, 0, 0];
    bytes.extend_from_slice(&[0xff; 8]);
    assert_eq!(decode_response(&bytes), Err(DecodeError));
    let mut bytes: Vec<u8> = vec![6, 0, 0, 0];
    bytes.extend_from_slice(&[0xff; 8]);
    bytes.extend_from_slice(b"abc");
    assert_eq!(decode_response(&bytes), Err(DecodeError));
}

#[test]
fn frame_is_prefix_and_payload() {
    assert_eq!(write_frame(&[]).unwrap(), vec![0, 0, 0, 0]);
    assert_eq!(write_frame(&[9, 8, 7]).unwrap(), vec![0, 0, 0, 3, 9, 8, 7]);
    let payload = vec![0xabu8; 0x0102_03];
    let framed = write_frame(&payload).unwrap();
    assert_eq!(&framed[..4], &[0, 1, 2, 3]);
    assert_eq!(&framed[4..], &payload[..]);
}

#[test]
fn reading_consumes_exactly_one_frame() {
    for n in [0usize, 1, 2, 255, 256, 70_000] {
        let payload: Vec<u8> = (0..n).map(|i| (i % 251) as u8).collect();
        let mut stream = write_frame(&payload).unwrap();
        stream.extend_from_slice(&[0, 0, 0, 9, 1, 2]);
        for closed in [false, true] {
            assert_eq!(
                read_frame(&stream, closed),
                ReadOutcome::Message { payload: payload.clone(), consumed: 4 + n }
            );
        }
        for cut in 0..(4 + n).min(40) {
            let missing = if cut < 4 { 4 - cut } else { 4 + n - cut } as u64;
            assert_eq!(read_frame(&stream[..cut], false), ReadOutcome::NeedMore { missing });
            let at_end = if cut < 4 { ReadOutcome::EndOfStream } else { ReadOutcome::Truncated };
            assert_eq!(read_frame(&stream[..cut], true), at_end);
        }
    }
}

#[test]
fn messages_travel_in_frames() {
    let mut stream: Vec<u8> = Vec::new();
    let mut sizes = Vec::new();
    for request in all_requests() {
        let bytes = send_to_server(&request).unwrap();
        assert_eq!(bytes.len(), 4 + encode_request(&request).len());
        sizes.push(bytes.len());
        stream.extend_from_slice(&bytes);
    }
    let mut at = 0;
    for (request, size) in all_requests().into_iter().zip(sizes) {
        assert_eq!(
            read_request(&stream[at..], false),
            Received::Message { message: request, consumed: size }
        );
        at += size;
    }
    assert_eq!(read_request(&stream[at..], false), Received::NeedMore { missing: 4 });
    assert_eq!(read_request(&stream[at..], true), Received::EndOfStream);

    let mut stream: Vec<u8> = Vec::new();
    for response in all_responses() {
        stream.extend_from_slice(&send_to_client(&response).unwrap());
    }
    let mut at = 0;
    for response in all_responses() {
        match read_from_client(&stream[at..], true) {
            Received::Message { message, consumed } => {
                assert_eq!(message, response);
                at += consumed;
            }
            other => panic!("no message: {other:?}"),
        }
    }
    assert_eq!(at, stream.len());
}

#[test]
fn malformed_payload_is_told_apart_from_a_broken_stream() {
    let framed = write_frame(&[9, 9, 9, 9]).unwrap();
    assert_eq!(read_request(&framed, false), Received::Malformed { consumed: 8 });
    assert_eq!(read_from_client(&framed, true), Received::Malformed { consumed: 8 });
    assert_eq!(read_from_client(&framed[..6], true), Received::Truncated);
    assert_eq!(read_from_client(&framed[..6], false), Received::NeedMore { missing: 2 });
}
