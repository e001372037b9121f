//! The messages as bytes: encoding, decoding, and the proof that decoding
//! gives back what was encoded.

use crate::bytes::{le_bytes, lemma_limits, limit, put_le};
use crate::protocol::{
    playlists_view, Playlist, PlaylistRequest, PlaylistRequestView, PlaylistResponse,
    PlaylistResponseView, PlaylistView, Request, RequestView, Response, ResponseView, SearchType,
    SearchTypeView,
};
use crate::track::{metas_view, SongMeta, SongMetaView, TrackId};
use crate::wire::{
    de_id, de_list, de_str, de_uint, i16_de, i16_ser, lemma_id_round_trip, lemma_items_step,
    lemma_list_progress_step, lemma_list_round_trip, lemma_samples_round_trip,
    lemma_str_round_trip, lemma_strs_round_trip, lemma_uint_round_trip, list_progress, put_id,
    put_samples, put_str, put_strs, reads_back, ser_id, ser_items, ser_list, ser_str, str_de,
    str_fits, str_ser, strs_fit, Parsed, Reader,
};
use vstd::prelude::*;

verus! {

/// The bytes of a track description.
pub open spec fn ser_meta(m: SongMetaView) -> Seq<u8> {
    ser_id(m.id) + ser_str(m.title) + ser_list(m.artists, str_ser()) + le_bytes(
        m.duration as nat,
        4,
    ) + ser_str(m.path)
}

/// A track description at the head of `b`.
pub open spec fn de_meta(b: Seq<u8>) -> Parsed<SongMetaView> {
    match de_id(b) {
        Some((id, b1)) => match de_str(b1) {
            Some((title, b2)) => match de_list(b2, str_de()) {
                Some((artists, b3)) => match de_uint(b3, 4) {
                    Some((duration, b4)) => match de_str(b4) {
                        Some((path, b5)) => {
                            let duration = duration as u32;
                            Some((SongMetaView { id, title, artists, duration, path }, b5))
                        },
                        None => None,
                    },
                    None => None,
                },
                None => None,
            },
            None => None,
        },
        None => None,
    }
}

/// Whether a track description can be written: the lengths of its texts and
/// of its list of artists fit the 64-bit integers that carry them.
pub open spec fn meta_fits(m: SongMetaView) -> bool {
    str_fits(m.title) && strs_fit(m.artists) && str_fits(m.path)
}

/// Reading back a track description that was written in front of `tail`.
pub proof fn lemma_meta_round_trip(m: SongMetaView, tail: Seq<u8>)
    requires
        meta_fits(m),
    ensures
        de_meta(ser_meta(m) + tail) == Some((m, tail)),
{
    lemma_limits();
    let e = ser_str(m.path) + tail;
    let d = le_bytes(m.duration as nat, 4) + e;
    let c = ser_list(m.artists, str_ser()) + d;
    let b = ser_str(m.title) + c;
    assert(ser_meta(m) + tail =~= ser_id(m.id) + b);
    lemma_id_round_trip(m.id, b);
    lemma_str_round_trip(m.title, c);
    lemma_strs_round_trip(m.artists, d);
    lemma_uint_round_trip(m.duration as nat, 4, e);
    lemma_str_round_trip(m.path, tail);
}

/// How `ser_meta` writes, as a value.
pub open spec fn meta_ser() -> spec_fn(SongMetaView) -> Seq<u8> {
    |m: SongMetaView| ser_meta(m)
}

/// How `de_meta` reads, as a value.
pub open spec fn meta_de() -> spec_fn(Seq<u8>) -> Parsed<SongMetaView> {
    |b: Seq<u8>| de_meta(b)
}

/// Whether a list of track descriptions can be written.
pub open spec fn metas_fit(s: Seq<SongMetaView>) -> bool {
    s.len() < limit(8) && forall|i: int| 0 <= i < s.len() ==> meta_fits(#[trigger] s[i])
}

/// Reading back a list of track descriptions that was written in front of
/// `tail`.
pub proof fn lemma_metas_round_trip(s: Seq<SongMetaView>, tail: Seq<u8>)
    requires
        metas_fit(s),
    ensures
        de_list(ser_list(s, meta_ser()) + tail, meta_de()) == Some((s, tail)),
{
    assert forall|i: int| 0 <= i < s.len() implies reads_back(
        #[trigger] s[i],
        meta_ser(),
        meta_de(),
    ) by {
        assert forall|t: Seq<u8>| #[trigger] meta_de()(meta_ser()(s[i]) + t) == Some((s[i], t)) by {
            lemma_meta_round_trip(s[i], t);
        }
    }
    lemma_list_round_trip(s, meta_ser(), meta_de(), tail);
}

/// The bytes of a playlist entry.
pub open spec fn ser_playlist(p: PlaylistView) -> Seq<u8> {
    ser_str(p.name) + le_bytes(p.len, 8)
}

/// A playlist entry at the head of `b`.
pub open spec fn de_playlist(b: Seq<u8>) -> Parsed<PlaylistView> {
    match de_str(b) {
        Some((name, b1)) => match de_uint(b1, 8) {
            Some((len, b2)) => if len <= usize::MAX {
                Some((PlaylistView { name, len }, b2))
            } else {
                None
            },
            None => None,
        },
        None => None,
    }
}

/// Whether a playlist entry can be written.
pub open spec fn playlist_fits(p: PlaylistView) -> bool {
    str_fits(p.name) && p.len <= usize::MAX
}

/// Reading back a playlist entry that was written in front of `tail`.
pub proof fn lemma_playlist_round_trip(p: PlaylistView, tail: Seq<u8>)
    requires
        playlist_fits(p),
    ensures
        de_playlist(ser_playlist(p) + tail) == Some((p, tail)),
{
    lemma_limits();
    let b = le_bytes(p.len, 8) + tail;
    assert(ser_playlist(p) + tail =~= ser_str(p.name) + b);
    lemma_str_round_trip(p.name, b);
    lemma_uint_round_trip(p.len, 8, tail);
}

/// How `ser_playlist` writes, as a value.
pub open spec fn playlist_ser() -> spec_fn(PlaylistView) -> Seq<u8> {
    |p: PlaylistView| ser_playlist(p)
}

/// How `de_playlist` reads, as a value.
pub open spec fn playlist_de() -> spec_fn(Seq<u8>) -> Parsed<PlaylistView> {
    |b: Seq<u8>| de_playlist(b)
}

/// Whether a list of playlist entries can be written.
pub open spec fn playlists_fit(s: Seq<PlaylistView>) -> bool {
    s.len() < limit(8) && forall|i: int| 0 <= i < s.len() ==> playlist_fits(#[trigger] s[i])
}

/// Reading back a list of playlist entries that was written in front of
/// `tail`.
pub proof fn lemma_playlists_round_trip(s: Seq<PlaylistView>, tail: Seq<u8>)
    requires
        playlists_fit(s),
    ensures
        de_list(ser_list(s, playlist_ser()) + tail, playlist_de()) == Some((s, tail)),
{
    assert forall|i: int| 0 <= i < s.len() implies reads_back(
        #[trigger] s[i],
        playlist_ser(),
        playlist_de(),
    ) by {
        assert forall|t: Seq<u8>| #[trigger]
            playlist_de()(playlist_ser()(s[i]) + t) == Some((s[i], t)) by {
            lemma_playlist_round_trip(s[i], t);
        }
    }
    lemma_list_round_trip(s, playlist_ser(), playlist_de(), tail);
}

/// The number of a variant, as it stands in front of its fields.
pub open spec fn tag(n: nat) -> Seq<u8> {
    le_bytes(n, 4)
}

/// The bytes of a search.
pub open spec fn ser_search(s: SearchTypeView) -> Seq<u8> {
    match s {
        SearchTypeView::ByTitle(q) => tag(0) + ser_str(q),
        SearchTypeView::ByArtist(q) => tag(1) + ser_str(q),
    }
}

/// A search at the head of `b`.
pub open spec fn de_search(b: Seq<u8>) -> Parsed<SearchTypeView> {
    match de_uint(b, 4) {
        Some((t, b1)) => if t == 0 {
            match de_str(b1) {
                Some((q, b2)) => Some((SearchTypeView::ByTitle(q), b2)),
                None => None,
            }
        } else if t == 1 {
            match de_str(b1) {
                Some((q, b2)) => Some((SearchTypeView::ByArtist(q), b2)),
                None => None,
            }
        } else {
            None
        },
        None => None,
    }
}

/// Whether a search can be written.
pub open spec fn search_fits(s: SearchTypeView) -> bool {
    match s {
        SearchTypeView::ByTitle(q) => str_fits(q),
        SearchTypeView::ByArtist(q) => str_fits(q),
    }
}

/// Reading back a search that was written in front of `tail`.
pub proof fn lemma_search_round_trip(s: SearchTypeView, tail: Seq<u8>)
    requires
        search_fits(s),
    ensures
        de_search(ser_search(s) + tail) == Some((s, tail)),
{
    lemma_limits();
    match s {
        SearchTypeView::ByTitle(q) => {
            assert(ser_search(s) + tail =~= tag(0) + (ser_str(q) + tail));
            lemma_uint_round_trip(0, 4, ser_str(q) + tail);
            lemma_str_round_trip(q, tail);
        },
        SearchTypeView::ByArtist(q) => {
            assert(ser_search(s) + tail =~= tag(1) + (ser_str(q) + tail));
            lemma_uint_round_trip(1, 4, ser_str(q) + tail);
            lemma_str_round_trip(q, tail);
        },
    }
}

/// The bytes of a playlist request.
pub open spec fn ser_playlist_request(p: PlaylistRequestView) -> Seq<u8> {
    match p {
        PlaylistRequestView::Get { name } => tag(0) + ser_str(name),
        PlaylistRequestView::Create { name, songs } => tag(1) + ser_str(name) + ser_list(
            songs,
            meta_ser(),
        ),
        PlaylistRequestView::List => tag(2),
    }
}

/// A playlist request at the head of `b`.
pub open spec fn de_playlist_request(b: Seq<u8>) -> Parsed<PlaylistRequestView> {
    match de_uint(b, 4) {
        Some((t, b1)) => if t == 0 {
            match de_str(b1) {
                Some((name, b2)) => Some((PlaylistRequestView::Get { name }, b2)),
                None => None,
            }
        } else if t == 1 {
            match de_str(b1) {
                Some((name, b2)) => match de_list(b2, meta_de()) {
                    Some((songs, b3)) => Some((PlaylistRequestView::Create { name, songs }, b3)),
                    None => None,
                },
                None => None,
            }
        } else if t == 2 {
            Some((PlaylistRequestView::List, b1))
        } else {
            None
        },
        None => None,
    }
}

/// Whether a playlist request can be written.
pub open spec fn playlist_request_fits(p: PlaylistRequestView) -> bool {
    match p {
        PlaylistRequestView::Get { name } => str_fits(name),
        PlaylistRequestView::Create { name, songs } => str_fits(name) && metas_fit(songs),
        PlaylistRequestView::List => true,
    }
}

/// Reading back a playlist request that was written in front of `tail`.
pub proof fn lemma_playlist_request_round_trip(p: PlaylistRequestView, tail: Seq<u8>)
    requires
        playlist_request_fits(p),
    ensures
        de_playlist_request(ser_playlist_request(p) + tail) == Some((p, tail)),
{
    lemma_limits();
    match p {
        PlaylistRequestView::Get { name } => {
            assert(ser_playlist_request(p) + tail =~= tag(0) + (ser_str(name) + tail));
            lemma_uint_round_trip(0, 4, ser_str(name) + tail);
            lemma_str_round_trip(name, tail);
        },
        PlaylistRequestView::Create { name, songs } => {
            let c = ser_list(songs, meta_ser()) + tail;
            assert(ser_playlist_request(p) + tail =~= tag(1) + (ser_str(name) + c));
            lemma_uint_round_trip(1, 4, ser_str(name) + c);
            lemma_str_round_trip(name, c);
            lemma_metas_round_trip(songs, tail);
        },
        PlaylistRequestView::List => {
            lemma_uint_round_trip(2, 4, tail);
        },
    }
}

/// The bytes of a request.
pub open spec fn ser_request(r: RequestView) -> Seq<u8> {
    match r {
        RequestView::Play { track_id } => tag(0) + ser_id(track_id),
        RequestView::Playlist(p) => tag(1) + ser_playlist_request(p),
        RequestView::Meta { track_id } => tag(2) + ser_id(track_id),
        RequestView::Search(s) => tag(3) + ser_search(s),
    }
}

/// A request at the head of `b`.
pub open spec fn de_request(b: Seq<u8>) -> Parsed<RequestView> {
    match de_uint(b, 4) {
        Some((t, b1)) => if t == 0 {
            match de_id(b1) {
                Some((track_id, b2)) => Some((RequestView::Play { track_id }, b2)),
                None => None,
            }
        } else if t == 1 {
            match de_playlist_request(b1) {
                Some((p, b2)) => Some((RequestView::Playlist(p), b2)),
                None => None,
            }
        } else if t == 2 {
            match de_id(b1) {
                Some((track_id, b2)) => Some((RequestView::Meta { track_id }, b2)),
                None => None,
            }
        } else if t == 3 {
            match de_search(b1) {
                Some((s, b2)) => Some((RequestView::Search(s), b2)),
                None => None,
            }
        } else {
            None
        },
        None => None,
    }
}

/// Whether a request can be written: every length in it fits the 64-bit
/// integer that carries it. This holds of every request that a program can
/// hold in memory.
pub open spec fn request_fits(r: RequestView) -> bool {
    match r {
        RequestView::Play { track_id } => true,
        RequestView::Playlist(p) => playlist_request_fits(p),
        RequestView::Meta { track_id } => true,
        RequestView::Search(s) => search_fits(s),
    }
}

/// Decoding an encoded request gives the request back, and leaves what
/// followed it.
pub proof fn lemma_request_round_trip(r: RequestView, tail: Seq<u8>)
    requires
        request_fits(r),
    ensures
        de_request(ser_request(r) + tail) == Some((r, tail)),
{
    lemma_limits();
    match r {
        RequestView::Play { track_id } => {
            assert(ser_request(r) + tail =~= tag(0) + (ser_id(track_id) + tail));
            lemma_uint_round_trip(0, 4, ser_id(track_id) + tail);
            lemma_id_round_trip(track_id, tail);
        },
        RequestView::Playlist(p) => {
            assert(ser_request(r) + tail =~= tag(1) + (ser_playlist_request(p) + tail));
            lemma_uint_round_trip(1, 4, ser_playlist_request(p) + tail);
            lemma_playlist_request_round_trip(p, tail);
        },
        RequestView::Meta { track_id } => {
            assert(ser_request(r) + tail =~= tag(2) + (ser_id(track_id) + tail));
            lemma_uint_round_trip(2, 4, ser_id(track_id) + tail);
            lemma_id_round_trip(track_id, tail);
        },
        RequestView::Search(s) => {
            assert(ser_request(r) + tail =~= tag(3) + (ser_search(s) + tail));
            lemma_uint_round_trip(3, 4, ser_search(s) + tail);
            lemma_search_round_trip(s, tail);
        },
    }
}

/// The bytes of a playlist answer.
pub open spec fn ser_playlist_response(p: PlaylistResponseView) -> Seq<u8> {
    match p {
        PlaylistResponseView::Playlists(lists) => tag(0) + ser_list(lists, playlist_ser()),
        PlaylistResponseView::Songs(songs) => tag(1) + ser_list(songs, meta_ser()),
    }
}

/// A playlist answer at the head of `b`.
pub open spec fn de_playlist_response(b: Seq<u8>) -> Parsed<PlaylistResponseView> {
    match de_uint(b, 4) {
        Some((t, b1)) => if t == 0 {
            match de_list(b1, playlist_de()) {
                Some((lists, b2)) => Some((PlaylistResponseView::Playlists(lists), b2)),
                None => None,
            }
        } else if t == 1 {
            match de_list(b1, meta_de()) {
                Some((songs, b2)) => Some((PlaylistResponseView::Songs(songs), b2)),
                None => None,
            }
        } else {
            None
        },
        None => None,
    }
}

/// Whether a playlist answer can be written.
pub open spec fn playlist_response_fits(p: PlaylistResponseView) -> bool {
    match p {
        PlaylistResponseView::Playlists(lists) => playlists_fit(lists),
        PlaylistResponseView::Songs(songs) => metas_fit(songs),
    }
}

/// Reading back a playlist answer that was written in front of `tail`.
pub proof fn lemma_playlist_response_round_trip(p: PlaylistResponseView, tail: Seq<u8>)
    requires
        playlist_response_fits(p),
    ensures
        de_playlist_response(ser_playlist_response(p) + tail) == Some((p, tail)),
{
    lemma_limits();
    match p {
        PlaylistResponseView::Playlists(lists) => {
            let c = ser_list(lists, playlist_ser()) + tail;
            assert(ser_playlist_response(p) + tail =~= tag(0) + c);
            lemma_uint_round_trip(0, 4, c);
            lemma_playlists_round_trip(lists, tail);
        },
        PlaylistResponseView::Songs(songs) => {
            let c = ser_list(songs, meta_ser()) + tail;
            assert(ser_playlist_response(p) + tail =~= tag(1) + c);
            lemma_uint_round_trip(1, 4, c);
            lemma_metas_round_trip(songs, tail);
        },
    }
}

/// The bytes of a response.
pub open spec fn ser_response(r: ResponseView) -> Seq<u8> {
    match r {
        ResponseView::SongHeader { track_id, channels, sample_rate } => tag(0) + ser_id(track_id)
            + le_bytes(channels as nat, 2) + le_bytes(sample_rate as nat, 4),
        ResponseView::SongChunk { track_id, data, index } => tag(1) + ser_id(track_id) + ser_list(
            data,
            i16_ser(),
        ) + le_bytes(index as nat, 4),
        ResponseView::EndOfStream { track_id } => tag(2) + ser_id(track_id),
        ResponseView::Playlist(p) => tag(3) + ser_playlist_response(p),
        ResponseView::SearchResults(songs) => tag(4) + ser_list(songs, meta_ser()),
        ResponseView::Meta(m) => tag(5) + ser_meta(m),
        ResponseView::Error { message } => tag(6) + ser_str(message),
    }
}

/// A response at the head of `b`.
pub open spec fn de_response(b: Seq<u8>) -> Parsed<ResponseView> {
    match de_uint(b, 4) {
        Some((t, b1)) => if t == 0 {
            match de_id(b1) {
                Some((track_id, b2)) => match de_uint(b2, 2) {
                    Some((channels, b3)) => match de_uint(b3, 4) {
                        Some((sample_rate, b4)) => Some(
                            (
                                ResponseView::SongHeader {
                                    track_id,
                                    channels: channels as u16,
                                    sample_rate: sample_rate as u32,
                                },
                                b4,
                            ),
                        ),
                        None => None,
                    },
                    None => None,
                },
                None => None,
            }
        } else if t == 1 {
            match de_id(b1) {
                Some((track_id, b2)) => match de_list(b2, i16_de()) {
                    Some((data, b3)) => match de_uint(b3, 4) {
                        Some((index, b4)) => Some(
                            (ResponseView::SongChunk { track_id, data, index: index as u32 }, b4),
                        ),
                        None => None,
                    },
                    None => None,
                },
                None => None,
            }
        } else if t == 2 {
            match de_id(b1) {
                Some((track_id, b2)) => Some((ResponseView::EndOfStream { track_id }, b2)),
                None => None,
            }
        } else if t == 3 {
            match de_playlist_response(b1) {
                Some((p, b2)) => Some((ResponseView::Playlist(p), b2)),
                None => None,
            }
        } else if t == 4 {
            match de_list(b1, meta_de()) {
                Some((songs, b2)) => Some((ResponseView::SearchResults(songs), b2)),
                None => None,
            }
        } else if t == 5 {
            match de_meta(b1) {
                Some((m, b2)) => Some((ResponseView::Meta(m), b2)),
                None => None,
            }
        } else if t == 6 {
            match de_str(b1) {
                Some((message, b2)) => Some((ResponseView::Error { message }, b2)),
                None => None,
            }
        } else {
            None
        },
        None => None,
    }
}

/// Whether a response can be written: every length in it fits the 64-bit
/// integer that carries it. This holds of every response that a program can
/// hold in memory.
pub open spec fn response_fits(r: ResponseView) -> bool {
    match r {
        ResponseView::SongHeader { track_id, channels, sample_rate } => true,
        ResponseView::SongChunk { track_id, data, index } => data.len() < limit(8),
        ResponseView::EndOfStream { track_id } => true,
        ResponseView::Playlist(p) => playlist_response_fits(p),
        ResponseView::SearchResults(songs) => metas_fit(songs),
        ResponseView::Meta(m) => meta_fits(m),
        ResponseView::Error { message } => str_fits(message),
    }
}

proof fn lemma_header_round_trip(track_id: u128, channels: u16, sample_rate: u32, tail: Seq<u8>)
    ensures
        ({
            let r = ResponseView::SongHeader { track_id, channels, sample_rate };
            de_response(ser_response(r) + tail) == Some((r, tail))
        }),
{
    lemma_limits();
    let r = ResponseView::SongHeader { track_id, channels, sample_rate };
    let d = le_bytes(sample_rate as nat, 4) + tail;
    let c = le_bytes(channels as nat, 2) + d;
    let b = ser_id(track_id) + c;
    assert(ser_response(r) + tail =~= tag(0) + b);
    lemma_uint_round_trip(0, 4, b);
    lemma_id_round_trip(track_id, c);
    lemma_uint_round_trip(channels as nat, 2, d);
    lemma_uint_round_trip(sample_rate as nat, 4, tail);
}

proof fn lemma_chunk_round_trip(track_id: u128, data: Seq<i16>, index: u32, tail: Seq<u8>)
    requires
        data.len() < limit(8),
    ensures
        ({
            let r = ResponseView::SongChunk { track_id, data, index };
            de_response(ser_response(r) + tail) == Some((r, tail))
        }),
{
    lemma_limits();
    let r = ResponseView::SongChunk { track_id, data, index };
    let d = le_bytes(index as nat, 4) + tail;
    let c = ser_list(data, i16_ser()) + d;
    let b = ser_id(track_id) + c;
    assert(ser_response(r) + tail =~= tag(1) + b);
    lemma_uint_round_trip(1, 4, b);
    lemma_id_round_trip(track_id, c);
    lemma_samples_round_trip(data, d);
    lemma_uint_round_trip(index as nat, 4, tail);
}

proof fn lemma_end_round_trip(track_id: u128, tail: Seq<u8>)
    ensures
        ({
            let r = ResponseView::EndOfStream { track_id };
            de_response(ser_response(r) + tail) == Some((r, tail))
        }),
{
    lemma_limits();
    let r = ResponseView::EndOfStream { track_id };
    assert(ser_response(r) + tail =~= tag(2) + (ser_id(track_id) + tail));
    lemma_uint_round_trip(2, 4, ser_id(track_id) + tail);
    lemma_id_round_trip(track_id, tail);
}

proof fn lemma_playlist_answer_round_trip(p: PlaylistResponseView, tail: Seq<u8>)
    requires
        playlist_response_fits(p),
    ensures
        ({
            let r = ResponseView::Playlist(p);
            de_response(ser_response(r) + tail) == Some((r, tail))
        }),
{
    lemma_limits();
    let r = ResponseView::Playlist(p);
    assert(ser_response(r) + tail =~= tag(3) + (ser_playlist_response(p) + tail));
    lemma_uint_round_trip(3, 4, ser_playlist_response(p) + tail);
    lemma_playlist_response_round_trip(p, tail);
}

proof fn lemma_results_round_trip(songs: Seq<SongMetaView>, tail: Seq<u8>)
    requires
        metas_fit(songs),
    ensures
        ({
            let r = ResponseView::SearchResults(songs);
            de_response(ser_response(r) + tail) == Some((r, tail))
        }),
{
    lemma_limits();
    let r = ResponseView::SearchResults(songs);
    let c = ser_list(songs, meta_ser()) + tail;
    assert(ser_response(r) + tail =~= tag(4) + c);
    lemma_uint_round_trip(4, 4, c);
    lemma_metas_round_trip(songs, tail);
}

proof fn lemma_meta_answer_round_trip(m: SongMetaView, tail: Seq<u8>)
    requires
        meta_fits(m),
    ensures
        ({
            let r = ResponseView::Meta(m);
            de_response(ser_response(r) + tail) == Some((r, tail))
        }),
{
    lemma_limits();
    let r = ResponseView::Meta(m);
    assert(ser_response(r) + tail =~= tag(5) + (ser_meta(m) + tail));
    lemma_uint_round_trip(5, 4, ser_meta(m) + tail);
    lemma_meta_round_trip(m, tail);
}

proof fn lemma_error_round_trip(message: Seq<char>, tail: Seq<u8>)
    requires
        str_fits(message),
    ensures
        ({
            let r = ResponseView::Error { message };
            de_response(ser_response(r) + tail) == Some((r, tail))
        }),
{
    lemma_limits();
    let r = ResponseView::Error { message };
    assert(ser_response(r) + tail =~= tag(6) + (ser_str(message) + tail));
    lemma_uint_round_trip(6, 4, ser_str(message) + tail);
    lemma_str_round_trip(message, tail);
}

/// Decoding an encoded response gives the response back, and leaves what
/// followed it.
pub proof fn lemma_response_round_trip(r: ResponseView, tail: Seq<u8>)
    requires
        response_fits(r),
    ensures
        de_response(ser_response(r) + tail) == Some((r, tail)),
{
    match r {
        ResponseView::SongHeader { track_id, channels, sample_rate } => {
            lemma_header_round_trip(track_id, channels, sample_rate, tail);
        },
        ResponseView::SongChunk { track_id, data, index } => {
            lemma_chunk_round_trip(track_id, data, index, tail);
        },
        ResponseView::EndOfStream { track_id } => {
            lemma_end_round_trip(track_id, tail);
        },
        ResponseView::Playlist(p) => {
            lemma_playlist_answer_round_trip(p, tail);
        },
        ResponseView::SearchResults(songs) => {
            lemma_results_round_trip(songs, tail);
        },
        ResponseView::Meta(m) => {
            lemma_meta_answer_round_trip(m, tail);
        },
        ResponseView::Error { message } => {
            lemma_error_round_trip(message, tail);
        },
    }
}

/// Appends a track description.
pub fn put_meta(out: &mut Vec<u8>, m: &SongMeta)
    ensures
        final(out)@ == old(out)@ + ser_meta(m@),
        meta_fits(m@),
{
    put_id(out, m.id.0);
    put_str(out, m.title.as_str());
    put_strs(out, &m.artists);
    put_le(out, m.duration as u64, 4);
    put_str(out, m.path.as_str());
    assert(final(out)@ =~= old(out)@ + ser_meta(m@));
}

/// Reads a track description.
pub fn read_meta(r: &mut Reader) -> (out: Option<SongMeta>)
    requires
        old(r).wf(),
    ensures
        final(r).wf(),
        final(r).buf == old(r).buf,
        match de_meta(old(r).rest()) {
            Some((v, rest)) => out is Some && out->0@ == v && final(r).rest() == rest,
            None => out is None,
        },
{
    proof {
        lemma_limits();
    }
    let id = r.id()?;
    let title = r.string()?;
    let artists = r.strings()?;
    let duration = r.uint(4)?;
    let path = r.string()?;
    Some(SongMeta { id: TrackId(id), title, artists, duration: duration as u32, path })
}

/// Appends a list of track descriptions.
pub fn put_metas(out: &mut Vec<u8>, v: &Vec<SongMeta>)
    ensures
        final(out)@ == old(out)@ + ser_list(metas_view(v@), meta_ser()),
        metas_fit(metas_view(v@)),
{
    let ghost s = metas_view(v@);
    let len = v.len();
    proof {
        lemma_limits();
    }
    put_le(out, len as u64, 8);
    let ghost want = out@ + ser_items(s, meta_ser());
    let mut i: usize = 0;
    assert(s.skip(0) =~= s);
    while i < len
        invariant
            i <= len,
            len == v@.len(),
            s == metas_view(v@),
            want == out@ + ser_items(s.skip(i as int), meta_ser()),
            forall|j: int| 0 <= j < i ==> meta_fits(#[trigger] s[j]),
        decreases len - i,
    {
        let ghost before = out@;
        proof {
            lemma_items_step(s, meta_ser(), i as int);
        }
        put_meta(out, &v[i]);
        assert(before + ser_items(s.skip(i as int), meta_ser()) =~= out@ + ser_items(
            s.skip(i + 1),
            meta_ser(),
        ));
        i += 1;
    }
    assert(ser_items(s.skip(len as int), meta_ser()) =~= Seq::<u8>::empty());
    assert(final(out)@ =~= old(out)@ + ser_list(s, meta_ser()));
}

/// Reads a list of track descriptions.
pub fn read_metas(r: &mut Reader) -> (out: Option<Vec<SongMeta>>)
    requires
        old(r).wf(),
    ensures
        final(r).wf(),
        final(r).buf == old(r).buf,
        match de_list(old(r).rest(), meta_de()) {
            Some((v, rest)) => out is Some && metas_view(out->0@) == v && final(r).rest() == rest,
            None => out is None,
        },
{
    proof {
        lemma_limits();
    }
    let ghost whole = de_list(r.rest(), meta_de());
    let count = r.uint(8)?;
    let mut out: Vec<SongMeta> = Vec::new();
    let mut i: u64 = 0;
    assert(metas_view(out@) =~= Seq::<SongMetaView>::empty());
    assert(metas_view(out@) + Seq::<SongMetaView>::empty() =~= metas_view(out@));
    while i < count
        invariant
            i <= count,
            r.wf(),
            r.buf == old(r).buf,
            whole == de_list(old(r).rest(), meta_de()),
            list_progress(whole, metas_view(out@), r.rest(), (count - i) as nat, meta_de()),
        decreases count - i,
    {
        proof {
            lemma_list_progress_step(
                whole,
                metas_view(out@),
                r.rest(),
                (count - i) as nat,
                meta_de(),
            );
        }
        let ghost before = metas_view(out@);
        match read_meta(r) {
            Some(m) => {
                out.push(m);
                assert(metas_view(out@) =~= before.push(m@));
            },
            None => {
                return None;
            },
        }
        i += 1;
    }
    assert(metas_view(out@) + Seq::<SongMetaView>::empty() =~= metas_view(out@));
    Some(out)
}

/// Appends a playlist entry.
pub fn put_playlist(out: &mut Vec<u8>, p: &Playlist)
    ensures
        final(out)@ == old(out)@ + ser_playlist(p@),
        playlist_fits(p@),
{
    put_str(out, p.name.as_str());
    put_le(out, p.len as u64, 8);
    assert(final(out)@ =~= old(out)@ + ser_playlist(p@));
}

/// Reads a playlist entry.
pub fn read_playlist(r: &mut Reader) -> (out: Option<Playlist>)
    requires
        old(r).wf(),
    ensures
        final(r).wf(),
        final(r).buf == old(r).buf,
        match de_playlist(old(r).rest()) {
            Some((v, rest)) => out is Some && out->0@ == v && final(r).rest() == rest,
            None => out is None,
        },
{
    proof {
        lemma_limits();
    }
    let name = r.string()?;
    let len = r.uint(8)?;
    if len > usize::MAX as u64 {
        return None;
    }
    Some(Playlist { name, len: len as usize })
}

/// Appends a list of playlist entries.
pub fn put_playlists(out: &mut Vec<u8>, v: &Vec<Playlist>)
    ensures
        final(out)@ == old(out)@ + ser_list(playlists_view(v@), playlist_ser()),
        playlists_fit(playlists_view(v@)),
{
    let ghost s = playlists_view(v@);
    let len = v.len();
    proof {
        lemma_limits();
    }
    put_le(out, len as u64, 8);
    let ghost want = out@ + ser_items(s, playlist_ser());
    let mut i: usize = 0;
    assert(s.skip(0) =~= s);
    while i < len
        invariant
            i <= len,
            len == v@.len(),
            s == playlists_view(v@),
            want == out@ + ser_items(s.skip(i as int), playlist_ser()),
            forall|j: int| 0 <= j < i ==> playlist_fits(#[trigger] s[j]),
        decreases len - i,
    {
        let ghost before = out@;
        proof {
            lemma_items_step(s, playlist_ser(), i as int);
        }
        put_playlist(out, &v[i]);
        assert(before + ser_items(s.skip(i as int), playlist_ser()) =~= out@ + ser_items(
            s.skip(i + 1),
            playlist_ser(),
        ));
        i += 1;
    }
    assert(ser_items(s.skip(len as int), playlist_ser()) =~= Seq::<u8>::empty());
    assert(final(out)@ =~= old(out)@ + ser_list(s, playlist_ser()));
}

/// Reads a list of playlist entries.
pub fn read_playlists(r: &mut Reader) -> (out: Option<Vec<Playlist>>)
    requires
        old(r).wf(),
    ensures
        final(r).wf(),
        final(r).buf == old(r).buf,
        match de_list(old(r).rest(), playlist_de()) {
            Some((v, rest)) => out is Some && playlists_view(out->0@) == v && final(r).rest()
                == rest,
            None => out is None,
        },
{
    proof {
        lemma_limits();
    }
    let ghost whole = de_list(r.rest(), playlist_de());
    let count = r.uint(8)?;
    let mut out: Vec<Playlist> = Vec::new();
    let mut i: u64 = 0;
    assert(playlists_view(out@) =~= Seq::<PlaylistView>::empty());
    assert(playlists_view(out@) + Seq::<PlaylistView>::empty() =~= playlists_view(out@));
    while i < count
        invariant
            i <= count,
            r.wf(),
            r.buf == old(r).buf,
            whole == de_list(old(r).rest(), playlist_de()),
            list_progress(whole, playlists_view(out@), r.rest(), (count - i) as nat, playlist_de()),
        decreases count - i,
    {
        proof {
            lemma_list_progress_step(
                whole,
                playlists_view(out@),
                r.rest(),
                (count - i) as nat,
                playlist_de(),
            );
        }
        let ghost before = playlists_view(out@);
        match read_playlist(r) {
            Some(p) => {
                out.push(p);
                assert(playlists_view(out@) =~= before.push(p@));
            },
            None => {
                return None;
            },
        }
        i += 1;
    }
    assert(playlists_view(out@) + Seq::<PlaylistView>::empty() =~= playlists_view(out@));
    Some(out)
}

fn put_tag(out: &mut Vec<u8>, n: u32)
    ensures
        final(out)@ == old(out)@ + tag(n as nat),
{
    put_le(out, n as u64, 4);
}

fn put_search(out: &mut Vec<u8>, s: &SearchType)
    ensures
        final(out)@ == old(out)@ + ser_search(s@),
        search_fits(s@),
{
    match s {
        SearchType::ByTitle(q) => {
            put_tag(out, 0);
            put_str(out, q.as_str());
        },
        SearchType::ByArtist(q) => {
            put_tag(out, 1);
            put_str(out, q.as_str());
        },
    }
    assert(final(out)@ =~= old(out)@ + ser_search(s@));
}

fn read_search(r: &mut Reader) -> (out: Option<SearchType>)
    requires
        old(r).wf(),
    ensures
        final(r).wf(),
        final(r).buf == old(r).buf,
        match de_search(old(r).rest()) {
            Some((v, rest)) => out is Some && out->0@ == v && final(r).rest() == rest,
            None => out is None,
        },
{
    proof {
        lemma_limits();
    }
    let t = r.uint(4)?;
    if t == 0 {
        Some(SearchType::ByTitle(r.string()?))
    } else if t == 1 {
        Some(SearchType::ByArtist(r.string()?))
    } else {
        None
    }
}

fn put_playlist_request(out: &mut Vec<u8>, p: &PlaylistRequest)
    ensures
        final(out)@ == old(out)@ + ser_playlist_request(p@),
        playlist_request_fits(p@),
{
    match p {
        PlaylistRequest::Get { name } => {
            put_tag(out, 0);
            put_str(out, name.as_str());
        },
        PlaylistRequest::Create { name, songs } => {
            put_tag(out, 1);
            put_str(out, name.as_str());
            put_metas(out, songs);
        },
        PlaylistRequest::List => {
            put_tag(out, 2);
        },
    }
    assert(final(out)@ =~= old(out)@ + ser_playlist_request(p@));
}

fn read_playlist_request(r: &mut Reader) -> (out: Option<PlaylistRequest>)
    requires
        old(r).wf(),
    ensures
        final(r).wf(),
        final(r).buf == old(r).buf,
        match de_playlist_request(old(r).rest()) {
            Some((v, rest)) => out is Some && out->0@ == v && final(r).rest() == rest,
            None => out is None,
        },
{
    proof {
        lemma_limits();
    }
    let t = r.uint(4)?;
    if t == 0 {
        Some(PlaylistRequest::Get { name: r.string()? })
    } else if t == 1 {
        let name = r.string()?;
        let songs = read_metas(r)?;
        Some(PlaylistRequest::Create { name, songs })
    } else if t == 2 {
        Some(PlaylistRequest::List)
    } else {
        None
    }
}

fn put_playlist_response(out: &mut Vec<u8>, p: &PlaylistResponse)
    ensures
        final(out)@ == old(out)@ + ser_playlist_response(p@),
        playlist_response_fits(p@),
{
    match p {
        PlaylistResponse::Playlists(lists) => {
            put_tag(out, 0);
            put_playlists(out, lists);
        },
        PlaylistResponse::Songs(songs) => {
            put_tag(out, 1);
            put_metas(out, songs);
        },
    }
    assert(final(out)@ =~= old(out)@ + ser_playlist_response(p@));
}

fn read_playlist_response(r: &mut Reader) -> (out: Option<PlaylistResponse>)
    requires
        old(r).wf(),
    ensures
        final(r).wf(),
        final(r).buf == old(r).buf,
        match de_playlist_response(old(r).rest()) {
            Some((v, rest)) => out is Some && out->0@ == v && final(r).rest() == rest,
            None => out is None,
        },
{
    proof {
        lemma_limits();
    }
    let t = r.uint(4)?;
    if t == 0 {
        Some(PlaylistResponse::Playlists(read_playlists(r)?))
    } else if t == 1 {
        Some(PlaylistResponse::Songs(read_metas(r)?))
    } else {
        None
    }
}

/// A payload that is no message: it ends too early, names a variant that
/// does not exist, or holds a text that is not valid UTF-8.
#[derive(Clone, Copy, Debug, PartialEq, Eq)]
pub struct DecodeError;

/// The payload that carries `request`.
pub fn encode_request(request: &Request) -> (out: Vec<u8>)
    ensures
        out@ == ser_request(request@),
        request_fits(request@),
        de_request(out@) == Some((request@, Seq::<u8>::empty())),
{
    let mut out: Vec<u8> = Vec::new();
    match request {
        Request::Play { track_id } => {
            put_tag(&mut out, 0);
            put_id(&mut out, track_id.0);
        },
        Request::Playlist(p) => {
            put_tag(&mut out, 1);
            put_playlist_request(&mut out, p);
        },
        Request::Meta { track_id } => {
            put_tag(&mut out, 2);
            put_id(&mut out, track_id.0);
        },
        Request::Search(s) => {
            put_tag(&mut out, 3);
            put_search(&mut out, s);
        },
    }
    assert(out@ =~= ser_request(request@));
    proof {
        lemma_request_round_trip(request@, Seq::empty());
        assert(ser_request(request@) + Seq::<u8>::empty() =~= ser_request(request@));
    }
    out
}

/// The request that `payload` carries. Bytes after the request are ignored.
/// Fails exactly where `payload` does not start with a request.
pub fn decode_request(payload: &[u8]) -> (out: Result<Request, DecodeError>)
    ensures
        match de_request(payload@) {
            Some((v, rest)) => out is Ok && out->Ok_0@ == v,
            None => out is Err,
        },
{
    let mut r = Reader::new(payload);
    match read_request(&mut r) {
        Some(request) => Ok(request),
        None => Err(DecodeError),
    }
}

fn read_request(r: &mut Reader) -> (out: Option<Request>)
    requires
        old(r).wf(),
    ensures
        final(r).wf(),
        final(r).buf == old(r).buf,
        match de_request(old(r).rest()) {
            Some((v, rest)) => out is Some && out->0@ == v && final(r).rest() == rest,
            None => out is None,
        },
{
    proof {
        lemma_limits();
    }
    let t = r.uint(4)?;
    if t == 0 {
        Some(Request::Play { track_id: TrackId(r.id()?) })
    } else if t == 1 {
        Some(Request::Playlist(read_playlist_request(r)?))
    } else if t == 2 {
        Some(Request::Meta { track_id: TrackId(r.id()?) })
    } else if t == 3 {
        Some(Request::Search(read_search(r)?))
    } else {
        None
    }
}

/// The payload that carries `response`.
pub fn encode_response(response: &Response) -> (out: Vec<u8>)
    ensures
        out@ == ser_response(response@),
        response_fits(response@),
        de_response(out@) == Some((response@, Seq::<u8>::empty())),
{
    let mut out: Vec<u8> = Vec::new();
    match response {
        Response::SongHeader { track_id, channels, sample_rate } => {
            put_tag(&mut out, 0);
            put_id(&mut out, track_id.0);
            put_le(&mut out, *channels as u64, 2);
            put_le(&mut out, *sample_rate as u64, 4);
        },
        Response::SongChunk { track_id, data, index } => {
            put_tag(&mut out, 1);
            put_id(&mut out, track_id.0);
            put_samples(&mut out, data);
            put_le(&mut out, *index as u64, 4);
        },
        Response::EndOfStream { track_id } => {
            put_tag(&mut out, 2);
            put_id(&mut out, track_id.0);
        },
        Response::Playlist(p) => {
            put_tag(&mut out, 3);
            put_playlist_response(&mut out, p);
        },
        Response::SearchResults(songs) => {
            put_tag(&mut out, 4);
            put_metas(&mut out, songs);
        },
        Response::Meta(m) => {
            put_tag(&mut out, 5);
            put_meta(&mut out, m);
        },
        Response::Error { message } => {
            put_tag(&mut out, 6);
            put_str(&mut out, message.as_str());
        },
    }
    assert(out@ =~= ser_response(response@));
    proof {
        lemma_response_round_trip(response@, Seq::empty());
        assert(ser_response(response@) + Seq::<u8>::empty() =~= ser_response(response@));
    }
    out
}

fn read_response(r: &mut Reader) -> (out: Option<Response>)
    requires
        old(r).wf(),
    ensures
        final(r).wf(),
        final(r).buf == old(r).buf,
        match de_response(old(r).rest()) {
            Some((v, rest)) => out is Some && out->0@ == v && final(r).rest() == rest,
            None => out is None,
        },
{
    proof {
        lemma_limits();
    }
    let t = r.uint(4)?;
    if t == 0 {
        let track_id = TrackId(r.id()?);
        let channels = r.uint(2)?;
        let sample_rate = r.uint(4)?;
        Some(
            Response::SongHeader {
                track_id,
                channels: channels as u16,
                sample_rate: sample_rate as u32,
            },
        )
    } else if t == 1 {
        let track_id = TrackId(r.id()?);
        let data = r.samples()?;
        let index = r.uint(4)?;
        Some(Response::SongChunk { track_id, data, index: index as u32 })
    } else if t == 2 {
        Some(Response::EndOfStream { track_id: TrackId(r.id()?) })
    } else if t == 3 {
        Some(Response::Playlist(read_playlist_response(r)?))
    } else if t == 4 {
        Some(Response::SearchResults(read_metas(r)?))
    } else if t == 5 {
        Some(Response::Meta(read_meta(r)?))
    } else if t == 6 {
        Some(Response::Error { message: r.string()? })
    } else {
        None
    }
}

/// The response that `payload` carries. Bytes after the response are
/// ignored. Fails exactly where `payload` does not start with a response.
pub fn decode_response(payload: &[u8]) -> (out: Result<Response, DecodeError>)
    ensures
        match de_response(payload@) {
            Some((v, rest)) => out is Ok && out->Ok_0@ == v,
            None => out is Err,
        },
{
    let mut r = Reader::new(payload);
    match read_response(&mut r) {
        Some(response) => Ok(response),
        None => Err(DecodeError),
    }
}

} // verus!
