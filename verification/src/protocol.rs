//! The messages exchanged between client and server.

use crate::track::{metas_view, SongMeta, SongMetaView, TrackId};
use vstd::prelude::*;

verus! {

/// Which field of a track a search looks at, with the text to look for.
#[derive(Clone, Debug, PartialEq, Eq)]
pub enum SearchType {
    ByTitle(String),
    ByArtist(String),
}

/// Mathematical value of a [`SearchType`].
pub enum SearchTypeView {
    ByTitle(Seq<char>),
    ByArtist(Seq<char>),
}

impl View for SearchType {
    type V = SearchTypeView;

    open spec fn view(&self) -> SearchTypeView {
        match self {
            SearchType::ByTitle(q) => SearchTypeView::ByTitle(q@),
            SearchType::ByArtist(q) => SearchTypeView::ByArtist(q@),
        }
    }
}

/// A stored playlist as it is listed: its name and how many tracks it has.
#[derive(Clone, Debug, PartialEq, Eq)]
pub struct Playlist {
    pub name: String,
    pub len: usize,
}

/// Mathematical value of a [`Playlist`].
pub struct PlaylistView {
    pub name: Seq<char>,
    pub len: nat,
}

impl View for Playlist {
    type V = PlaylistView;

    open spec fn view(&self) -> PlaylistView {
        PlaylistView { name: self.name@, len: self.len as nat }
    }
}

/// The views of a sequence of playlist entries.
pub open spec fn playlists_view(v: Seq<Playlist>) -> Seq<PlaylistView> {
    Seq::new(v.len(), |i: int| v[i]@)
}

/// A stored playlist with its tracks.
#[derive(Clone, Debug, PartialEq, Eq)]
pub struct PlaylistMeta {
    pub title: String,
    pub songs: Vec<SongMeta>,
}

/// Mathematical value of a [`PlaylistMeta`].
pub struct PlaylistMetaView {
    pub title: Seq<char>,
    pub songs: Seq<SongMetaView>,
}

impl View for PlaylistMeta {
    type V = PlaylistMetaView;

    open spec fn view(&self) -> PlaylistMetaView {
        PlaylistMetaView { title: self.title@, songs: metas_view(self.songs@) }
    }
}

/// What a client can ask about playlists.
#[derive(Clone, Debug, PartialEq, Eq)]
pub enum PlaylistRequest {
    Get { name: String },
    Create { name: String, songs: Vec<SongMeta> },
    List,
}

/// Mathematical value of a [`PlaylistRequest`].
pub enum PlaylistRequestView {
    Get { name: Seq<char> },
    Create { name: Seq<char>, songs: Seq<SongMetaView> },
    List,
}

impl View for PlaylistRequest {
    type V = PlaylistRequestView;

    open spec fn view(&self) -> PlaylistRequestView {
        match self {
            PlaylistRequest::Get { name } => PlaylistRequestView::Get { name: name@ },
            PlaylistRequest::Create { name, songs } => PlaylistRequestView::Create {
                name: name@,
                songs: metas_view(songs@),
            },
            PlaylistRequest::List => PlaylistRequestView::List,
        }
    }
}

/// What the server answers about playlists.
#[derive(Clone, Debug, PartialEq, Eq)]
pub enum PlaylistResponse {
    Playlists(Vec<Playlist>),
    Songs(Vec<SongMeta>),
}

/// Mathematical value of a [`PlaylistResponse`].
pub enum PlaylistResponseView {
    Playlists(Seq<PlaylistView>),
    Songs(Seq<SongMetaView>),
}

impl View for PlaylistResponse {
    type V = PlaylistResponseView;

    open spec fn view(&self) -> PlaylistResponseView {
        match self {
            PlaylistResponse::Playlists(lists) => PlaylistResponseView::Playlists(
                playlists_view(lists@),
            ),
            PlaylistResponse::Songs(songs) => PlaylistResponseView::Songs(metas_view(songs@)),
        }
    }
}

/// A message from client to server.
#[derive(Clone, Debug, PartialEq, Eq)]
pub enum Request {
    Play { track_id: TrackId },
    Playlist(PlaylistRequest),
    Meta { track_id: TrackId },
    Search(SearchType),
}

/// Mathematical value of a [`Request`].
pub enum RequestView {
    Play { track_id: u128 },
    Playlist(PlaylistRequestView),
    Meta { track_id: u128 },
    Search(SearchTypeView),
}

impl View for Request {
    type V = RequestView;

    open spec fn view(&self) -> RequestView {
        match self {
            Request::Play { track_id } => RequestView::Play { track_id: track_id.0 },
            Request::Playlist(p) => RequestView::Playlist(p@),
            Request::Meta { track_id } => RequestView::Meta { track_id: track_id.0 },
            Request::Search(s) => RequestView::Search(s@),
        }
    }
}

/// A message from server to client.
#[derive(Clone, Debug, PartialEq, Eq)]
pub enum Response {
    /// Start of a stream: the format of the audio that follows.
    SongHeader { track_id: TrackId, channels: u16, sample_rate: u32 },
    /// A block of interleaved samples, numbered from 0 within its stream.
    SongChunk { track_id: TrackId, data: Vec<i16>, index: u32 },
    /// The stream of `track_id` is complete.
    EndOfStream { track_id: TrackId },
    Playlist(PlaylistResponse),
    SearchResults(Vec<SongMeta>),
    Meta(SongMeta),
    Error { message: String },
}

/// Mathematical value of a [`Response`].
pub enum ResponseView {
    SongHeader { track_id: u128, channels: u16, sample_rate: u32 },
    SongChunk { track_id: u128, data: Seq<i16>, index: u32 },
    EndOfStream { track_id: u128 },
    Playlist(PlaylistResponseView),
    SearchResults(Seq<SongMetaView>),
    Meta(SongMetaView),
    Error { message: Seq<char> },
}

impl View for Response {
    type V = ResponseView;

    open spec fn view(&self) -> ResponseView {
        match self {
            Response::SongHeader { track_id, channels, sample_rate } => ResponseView::SongHeader {
                track_id: track_id.0,
                channels: *channels,
                sample_rate: *sample_rate,
            },
            Response::SongChunk { track_id, data, index } => ResponseView::SongChunk {
                track_id: track_id.0,
                data: data@,
                index: *index,
            },
            Response::EndOfStream { track_id } => ResponseView::EndOfStream {
                track_id: track_id.0,
            },
            Response::Playlist(p) => ResponseView::Playlist(p@),
            Response::SearchResults(songs) => ResponseView::SearchResults(metas_view(songs@)),
            Response::Meta(meta) => ResponseView::Meta(meta@),
            Response::Error { message } => ResponseView::Error { message: message@ },
        }
    }
}

/// The views of a sequence of responses.
pub open spec fn responses_view(v: Seq<Response>) -> Seq<ResponseView> {
    Seq::new(v.len(), |i: int| v[i]@)
}

} // verus!
