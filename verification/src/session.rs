//! The server side of a connection: what each request leads to, and how one
//! track is cut into the messages of a stream.

use crate::protocol::{
    playlists_view, responses_view, Playlist, PlaylistMeta, PlaylistMetaView, PlaylistRequest,
    PlaylistRequestView, PlaylistResponse, PlaylistResponseView, PlaylistView, Request,
    RequestView, Response, ResponseView,
};
use crate::search::{handle_search, is_search_result};
use crate::text::{name_chars, push_str, sanitize, string_of};
use crate::track::{get_track_meta, metas_view, SongIndex, SongMeta, SongMetaView, TrackId};
use vstd::prelude::*;

verus! {

/// The largest number of samples in one chunk.
pub const CHUNK_SAMPLES: usize = 8192;

/// The channel count announced where the decoder knows none.
pub const DEFAULT_CHANNELS: u16 = 1;

/// The sample rate announced where the decoder knows none.
pub const DEFAULT_SAMPLE_RATE: u32 = 44100;

/// How far a stream has come.
#[derive(Clone, Copy, Debug, PartialEq, Eq, Structural)]
pub enum StreamPhase {
    /// The header is out and chunks may follow.
    Streaming,
    /// The end marker is out.
    Finished,
    /// A newer request took the place of this stream; nothing more is sent.
    Cancelled,
    /// The stream was given up on a fatal error; nothing more is sent.
    Aborted,
}

/// One decode-and-stream operation for one track.
#[derive(Clone, Copy, Debug, PartialEq, Eq)]
pub struct StreamTask {
    pub track_id: TrackId,
    /// How many chunks have been cut so far: the index of the next chunk.
    pub sent: u64,
    pub phase: StreamPhase,
}

/// The number of chunks that `len` samples are cut into.
pub open spec fn chunk_count(len: nat) -> nat {
    (len + 8191) / 8192
}

/// The samples of chunk `k` of a block.
pub open spec fn chunk_data(samples: Seq<i16>, k: int) -> Seq<i16> {
    samples.subrange(
        k * 8192,
        if (k + 1) * 8192 <= samples.len() {
            (k + 1) * 8192
        } else {
            samples.len() as int
        },
    )
}

/// The chunk messages for one decoded block of `track`: the block in order,
/// cut every 8192 samples, numbered consecutively from `first`.
pub open spec fn block_chunks(track: u128, samples: Seq<i16>, first: nat) -> Seq<ResponseView> {
    Seq::new(
        chunk_count(samples.len()),
        |k: int|
            ResponseView::SongChunk {
                track_id: track,
                data: chunk_data(samples, k),
                index: (first + k) as u32,
            },
    )
}

/// The task and the messages after a block of `samples` was decoded.
///
/// Only a running stream sends anything. Where the chunk numbers would run
/// out, the stream is given up instead.
pub open spec fn after_block(task: StreamTask, samples: Seq<i16>) -> (
    StreamTask,
    Seq<ResponseView>,
) {
    if task.phase != StreamPhase::Streaming {
        (task, Seq::empty())
    } else if task.sent + chunk_count(samples.len()) > 0x1_0000_0000 {
        (StreamTask { phase: StreamPhase::Aborted, ..task }, Seq::empty())
    } else {
        (
            StreamTask { sent: (task.sent + chunk_count(samples.len())) as u64, ..task },
            block_chunks(task.track_id.0, samples, task.sent as nat),
        )
    }
}

/// The first `n` chunks of a block, put together in order.
pub open spec fn chunks_joined(samples: Seq<i16>, n: nat) -> Seq<i16>
    decreases n,
{
    if n == 0 {
        Seq::empty()
    } else {
        chunks_joined(samples, (n - 1) as nat) + chunk_data(samples, n - 1)
    }
}

/// The first `n` chunks of a block, put together, are the first `8192 * n`
/// samples of the block, or the whole block where that has fewer.
proof fn lemma_chunks_joined(samples: Seq<i16>, n: nat)
    requires
        n <= chunk_count(samples.len()),
    ensures
        chunks_joined(samples, n) == samples.subrange(
            0,
            if n * 8192 <= samples.len() {
                (n * 8192) as int
            } else {
                samples.len() as int
            },
        ),
    decreases n,
{
    if n > 0 {
        lemma_chunks_joined(samples, (n - 1) as nat);
        assert(chunks_joined(samples, n) =~= samples.subrange(
            0,
            if n * 8192 <= samples.len() {
                (n * 8192) as int
            } else {
                samples.len() as int
            },
        ));
    } else {
        assert(chunks_joined(samples, 0) =~= samples.subrange(0, 0));
    }
}

/// The chunks of a block carry the block: each holds at least one and at
/// most 8192 samples, they are numbered consecutively from `first`, and put
/// together in order they are the block.
pub proof fn lemma_chunks_carry_block(track: u128, samples: Seq<i16>, first: nat)
    requires
        first + chunk_count(samples.len()) <= 0x1_0000_0000,
    ensures
        forall|k: int|
            0 <= k < chunk_count(samples.len()) ==> (#[trigger] block_chunks(
                track,
                samples,
                first,
            )[k]) == (ResponseView::SongChunk {
                track_id: track,
                data: chunk_data(samples, k),
                index: (first + k) as u32,
            }) && 0 < chunk_data(samples, k).len() <= 8192 && (first + k) as u32 == first + k,
        chunks_joined(samples, chunk_count(samples.len())) == samples,
{
    lemma_chunks_joined(samples, chunk_count(samples.len()));
    assert(samples.subrange(0, samples.len() as int) =~= samples);
}

/// A stream that is not running sends nothing: neither chunks nor an end
/// marker follow a cancellation, an abort or the end marker.
pub proof fn lemma_stopped_stream_is_silent(task: StreamTask, samples: Seq<i16>)
    requires
        task.phase != StreamPhase::Streaming,
    ensures
        after_block(task, samples) == (task, Seq::<ResponseView>::empty()),
{
}

impl StreamTask {
    /// Starts the stream of `track_id` in the format that the decoder found:
    /// the task, and the header that opens the stream.
    pub fn begin(track_id: TrackId, channels: Option<u16>, sample_rate: Option<u32>) -> (out: (
        StreamTask,
        Response,
    ))
        ensures
            out.0 == (StreamTask { track_id, sent: 0, phase: StreamPhase::Streaming }),
            out.1@ == (ResponseView::SongHeader {
                track_id: track_id.0,
                channels: match channels {
                    Some(c) => c,
                    None => DEFAULT_CHANNELS,
                },
                sample_rate: match sample_rate {
                    Some(r) => r,
                    None => DEFAULT_SAMPLE_RATE,
                },
            }),
    {
        let channels = match channels {
            Some(c) => c,
            None => DEFAULT_CHANNELS,
        };
        let sample_rate = match sample_rate {
            Some(r) => r,
            None => DEFAULT_SAMPLE_RATE,
        };
        (
            StreamTask { track_id, sent: 0, phase: StreamPhase::Streaming },
            Response::SongHeader { track_id, channels, sample_rate },
        )
    }

    /// Cuts one decoded block into the chunk messages that carry it.
    pub fn split_block(&mut self, samples: &Vec<i16>) -> (out: Vec<Response>)
        ensures
            (*final(self), responses_view(out@)) == after_block(*old(self), samples@),
    {
        let mut out: Vec<Response> = Vec::new();
        if self.phase != StreamPhase::Streaming {
            assert(responses_view(out@) =~= Seq::empty());
            return out;
        }
        let len = samples.len();
        let count: u64 = (len / CHUNK_SAMPLES) as u64 + if len % CHUNK_SAMPLES == 0 {
            0
        } else {
            1
        };
        assert(count == chunk_count(len as nat));
        if self.sent > 0x1_0000_0000 || count > 0x1_0000_0000 - self.sent {
            self.phase = StreamPhase::Aborted;
            assert(responses_view(out@) =~= Seq::empty());
            return out;
        }
        let first = self.sent;
        let track_id = self.track_id;
        let ghost want = block_chunks(track_id.0, samples@, first as nat);
        let mut k: u64 = 0;
        let mut start: usize = 0;
        while k < count
            invariant
                k <= count,
                count == chunk_count(len as nat),
                len == samples@.len(),
                first + count <= 0x1_0000_0000,
                start == if k == count {
                    len as int
                } else {
                    k * 8192
                },
                want == block_chunks(track_id.0, samples@, first as nat),
                out@.len() == k,
                forall|j: int| 0 <= j < k ==> out@[j]@ == want[j],
            decreases count - k,
        {
            let end: usize = if len - start > CHUNK_SAMPLES {
                start + CHUNK_SAMPLES
            } else {
                len
            };
            let mut data: Vec<i16> = Vec::new();
            let mut i: usize = start;
            while i < end
                invariant
                    start <= i <= end <= samples@.len(),
                    data@ == samples@.subrange(start as int, i as int),
                decreases end - i,
            {
                data.push(samples[i]);
                assert(samples@.subrange(start as int, i + 1) =~= samples@.subrange(
                    start as int,
                    i as int,
                ).push(samples@[i as int]));
                i += 1;
            }
            assert(data@ == chunk_data(samples@, k as int));
            out.push(Response::SongChunk { track_id, data, index: (first + k) as u32 });
            start = end;
            k += 1;
        }
        self.sent = first + count;
        assert(responses_view(out@) =~= want);
        out
    }

    /// The check before each chunk is written: whether it may be sent. Once
    /// the stream is seen to be cancelled nothing more is sent for it.
    pub fn allow_send(&mut self, cancelled: bool) -> (go: bool)
        ensures
            go == (old(self).phase == StreamPhase::Streaming && !cancelled),
            *final(self) == (if old(self).phase == StreamPhase::Streaming && cancelled {
                StreamTask { phase: StreamPhase::Cancelled, ..*old(self) }
            } else {
                *old(self)
            }),
    {
        if self.phase != StreamPhase::Streaming {
            return false;
        }
        if cancelled {
            self.phase = StreamPhase::Cancelled;
            return false;
        }
        true
    }

    /// Takes note of a decoder error: a recoverable one skips the affected
    /// unit and the stream goes on, a fatal one gives the stream up. Says
    /// whether the stream goes on.
    pub fn decode_failed(&mut self, fatal: bool) -> (go: bool)
        ensures
            go == (old(self).phase == StreamPhase::Streaming && !fatal),
            *final(self) == (if old(self).phase == StreamPhase::Streaming && fatal {
                StreamTask { phase: StreamPhase::Aborted, ..*old(self) }
            } else {
                *old(self)
            }),
    {
        if self.phase != StreamPhase::Streaming {
            return false;
        }
        if fatal {
            self.phase = StreamPhase::Aborted;
            return false;
        }
        true
    }

    /// Ends the stream after the last block: a stream that is still running
    /// is closed with its end marker; one that was cancelled or given up
    /// stays silent.
    pub fn finish(&mut self) -> (out: Option<Response>)
        ensures
            old(self).phase == StreamPhase::Streaming ==> *final(self) == (StreamTask {
                phase: StreamPhase::Finished,
                ..*old(self)
            }) && out is Some && out->0@ == (ResponseView::EndOfStream {
                track_id: old(self).track_id.0,
            }),
            old(self).phase != StreamPhase::Streaming ==> *final(self) == *old(self) && out is None,
    {
        if self.phase != StreamPhase::Streaming {
            return None;
        }
        self.phase = StreamPhase::Finished;
        Some(Response::EndOfStream { track_id: self.track_id })
    }

    /// Takes what the decoder came up with next and hands out the messages
    /// that it leads to.
    pub fn on_decoded(&mut self, d: Decoded) -> (out: Vec<Response>)
        ensures
            (*final(self), responses_view(out@)) == after_decoded(*old(self), d@),
    {
        match d {
            Decoded::Block(samples) => self.split_block(&samples),
            Decoded::Skipped => {
                let out: Vec<Response> = Vec::new();
                assert(responses_view(out@) =~= Seq::empty());
                out
            },
            Decoded::Failed => {
                let _ = self.decode_failed(true);
                let out: Vec<Response> = Vec::new();
                assert(responses_view(out@) =~= Seq::empty());
                out
            },
            Decoded::Finished => {
                let mut out: Vec<Response> = Vec::new();
                let ghost track = self.track_id.0;
                match self.finish() {
                    Some(end) => {
                        out.push(end);
                        assert(responses_view(out@) =~= seq![
                            ResponseView::EndOfStream { track_id: track },
                        ]);
                    },
                    None => {
                        assert(responses_view(out@) =~= Seq::empty());
                    },
                }
                out
            },
        }
    }
}

/// What the decoder came up with for the next unit of the file.
#[derive(Clone, Debug, PartialEq, Eq)]
pub enum Decoded {
    /// A block of interleaved samples.
    Block(Vec<i16>),
    /// A unit that could not be decoded and is passed over.
    Skipped,
    /// An error that ends the decoding.
    Failed,
    /// The end of the file.
    Finished,
}

/// Mathematical value of a [`Decoded`].
pub enum DecodedView {
    Block(Seq<i16>),
    Skipped,
    Failed,
    Finished,
}

impl View for Decoded {
    type V = DecodedView;

    open spec fn view(&self) -> DecodedView {
        match self {
            Decoded::Block(samples) => DecodedView::Block(samples@),
            Decoded::Skipped => DecodedView::Skipped,
            Decoded::Failed => DecodedView::Failed,
            Decoded::Finished => DecodedView::Finished,
        }
    }
}

/// The task and the messages after the decoder came up with `d`.
///
/// A block is cut into chunks, a skipped unit leaves no trace, a failure
/// gives the stream up without a message, and the end of the file closes a
/// running stream with its end marker.
pub open spec fn after_decoded(task: StreamTask, d: DecodedView) -> (
    StreamTask,
    Seq<ResponseView>,
) {
    match d {
        DecodedView::Block(samples) => after_block(task, samples),
        DecodedView::Skipped => (task, Seq::empty()),
        DecodedView::Failed => (
            if task.phase == StreamPhase::Streaming {
                StreamTask { phase: StreamPhase::Aborted, ..task }
            } else {
                task
            },
            Seq::empty(),
        ),
        DecodedView::Finished => if task.phase == StreamPhase::Streaming {
            (
                StreamTask { phase: StreamPhase::Finished, ..task },
                seq![ResponseView::EndOfStream { track_id: task.track_id.0 }],
            )
        } else {
            (task, Seq::empty())
        },
    }
}

/// The task and all the messages after the decoder came up with `ds`, one
/// after the other.
pub open spec fn after_all(task: StreamTask, ds: Seq<DecodedView>) -> (
    StreamTask,
    Seq<ResponseView>,
)
    decreases ds.len(),
{
    if ds.len() == 0 {
        (task, Seq::empty())
    } else {
        let (before, sent) = after_all(task, ds.drop_last());
        let (after, more) = after_decoded(before, ds.last());
        (after, sent + more)
    }
}

/// Whether `msg` is a chunk of `track` with the number `index` that holds at
/// least one and at most 8192 samples.
pub open spec fn is_chunk(msg: ResponseView, track: u128, index: int) -> bool {
    match msg {
        ResponseView::SongChunk { track_id, data, index: i } => track_id == track && i == index && 0
            < data.len() <= 8192,
        _ => false,
    }
}

/// Whether `msgs` is what a stream of `track` looks like that started with
/// chunk number `first` and has come to `task`: chunks of that track,
/// numbered consecutively, then the end marker if and only if the stream has
/// finished.
pub open spec fn is_stream(track: u128, first: nat, task: StreamTask, msgs: Seq<ResponseView>) -> bool {
    let chunks = task.sent - first;
    &&& task.track_id.0 == track
    &&& first <= task.sent <= 0x1_0000_0000
    &&& msgs.len() == if task.phase == StreamPhase::Finished {
        chunks + 1
    } else {
        chunks
    }
    &&& forall|k: int| 0 <= k < chunks ==> is_chunk(#[trigger] msgs[k], track, first + k)
    &&& task.phase == StreamPhase::Finished ==> msgs[chunks] == (ResponseView::EndOfStream {
        track_id: track,
    })
}

/// Whatever the decoder comes up with, what a stream hands out is chunks of
/// its track numbered consecutively from where it started, each of at most
/// 8192 samples, followed by exactly one end marker if the stream finishes
/// and by nothing if it is cancelled or given up.
pub proof fn lemma_stream_shape(task: StreamTask, ds: Seq<DecodedView>)
    requires
        task.phase == StreamPhase::Streaming,
        task.sent <= 0x1_0000_0000,
    ensures
        is_stream(task.track_id.0, task.sent as nat, after_all(task, ds).0, after_all(task, ds).1),
    decreases ds.len(),
{
    let track = task.track_id.0;
    let first = task.sent as nat;
    if ds.len() > 0 {
        lemma_stream_shape(task, ds.drop_last());
        let (before, sent) = after_all(task, ds.drop_last());
        let (after, more) = after_decoded(before, ds.last());
        if before.phase == StreamPhase::Streaming {
            match ds.last() {
                DecodedView::Block(samples) => {
                    if before.sent + chunk_count(samples.len()) <= 0x1_0000_0000 {
                        lemma_chunks_carry_block(track, samples, before.sent as nat);
                        assert forall|k: int| 0 <= k < after.sent - first implies is_chunk(
                            #[trigger] (sent + more)[k],
                            track,
                            first + k,
                        ) by {
                            if k < sent.len() {
                                assert((sent + more)[k] == sent[k]);
                            } else {
                                let j = k - sent.len();
                                assert((sent + more)[k] == more[j]);
                                assert(more[j] == block_chunks(track, samples, before.sent as nat)[j]);
                            }
                        }
                    } else {
                        assert(sent + more =~= sent);
                    }
                },
                DecodedView::Skipped => {
                    assert(sent + more =~= sent);
                },
                DecodedView::Failed => {
                    assert(sent + more =~= sent);
                },
                DecodedView::Finished => {
                    assert forall|k: int| 0 <= k < after.sent - first implies (#[trigger] (sent
                        + more)[k]) == sent[k] by {}
                },
            }
        } else {
            assert(sent + more =~= sent);
        }
    }
}

/// What the server keeps for one connection: the handle by which the stream
/// in progress, if there is one, is cancelled.
pub struct State<H> {
    pub current_stream_cancel: Option<H>,
}

/// What the connection handler has to do for one request.
#[derive(Clone, Debug, PartialEq, Eq)]
pub enum ServerAction {
    /// Send this answer.
    Reply(Response),
    /// Open the audio stored at `path` and stream it as `track_id`.
    OpenTrack { track_id: TrackId, path: String },
    /// Answer with the list of the stored playlists.
    ListPlaylists,
    /// Answer with the tracks of the playlist stored under `name`.
    LoadPlaylist { name: String },
    /// Store this playlist.
    SavePlaylist(PlaylistMeta),
}

/// Mathematical value of a [`ServerAction`].
pub enum ServerActionView {
    Reply(ResponseView),
    OpenTrack { track_id: u128, path: Seq<char> },
    ListPlaylists,
    LoadPlaylist { name: Seq<char> },
    SavePlaylist(PlaylistMetaView),
}

impl View for ServerAction {
    type V = ServerActionView;

    open spec fn view(&self) -> ServerActionView {
        match self {
            ServerAction::Reply(r) => ServerActionView::Reply(r@),
            ServerAction::OpenTrack { track_id, path } => ServerActionView::OpenTrack {
                track_id: track_id.0,
                path: path@,
            },
            ServerAction::ListPlaylists => ServerActionView::ListPlaylists,
            ServerAction::LoadPlaylist { name } => ServerActionView::LoadPlaylist { name: name@ },
            ServerAction::SavePlaylist(p) => ServerActionView::SavePlaylist(p@),
        }
    }
}

/// The answer to a request for a track that the index does not hold.
pub open spec fn track_not_found() -> ResponseView {
    ResponseView::Error { message: "Track not found"@ }
}

/// Whether `action` is what `request` leads to, given `index`.
pub open spec fn is_action_for(
    index: Map<u128, SongMeta>,
    request: RequestView,
    action: ServerActionView,
) -> bool {
    match request {
        RequestView::Play { track_id } => action == if index.contains_key(track_id) {
            ServerActionView::OpenTrack { track_id, path: index[track_id]@.path }
        } else {
            ServerActionView::Reply(track_not_found())
        },
        RequestView::Meta { track_id } => action == ServerActionView::Reply(
            if index.contains_key(track_id) {
                ResponseView::Meta(index[track_id]@)
            } else {
                track_not_found()
            },
        ),
        RequestView::Search(query) => exists|keys: Seq<u128>, hits: Seq<SongMetaView>|
            #![trigger is_search_result(index, query, keys, hits)]
            is_search_result(index, query, keys, hits) && action == ServerActionView::Reply(
                ResponseView::SearchResults(hits),
            ),
        RequestView::Playlist(PlaylistRequestView::List) => action
            == ServerActionView::ListPlaylists,
        RequestView::Playlist(PlaylistRequestView::Get { name }) => action
            == (ServerActionView::LoadPlaylist { name: name_chars(name) }),
        RequestView::Playlist(PlaylistRequestView::Create { name, songs }) => action
            == ServerActionView::SavePlaylist(PlaylistMetaView { title: name_chars(name), songs }),
    }
}

/// Builds the answer to a request for a track that the index does not hold.
pub fn not_found() -> (r: Response)
    ensures
        r@ == track_not_found(),
{
    Response::Error { message: String::from_str("Track not found") }
}

impl<H> State<H> {
    /// The state of a connection on which nothing is streamed.
    pub fn new() -> (state: State<H>)
        ensures
            state.current_stream_cancel is None,
    {
        State { current_stream_cancel: None }
    }

    /// Records the handle of the stream that was just started.
    pub fn stream_started(&mut self, handle: H)
        ensures
            final(self).current_stream_cancel == Some(handle),
    {
        self.current_stream_cancel = Some(handle);
    }
}

/// Decides what one request leads to.
///
/// A play request supersedes the stream in progress: its handle is taken out
/// of the state and handed back, to be cancelled before anything is sent for
/// the new track. Every other request leaves the stream alone.
pub fn handle_request<H>(state: &mut State<H>, index: &SongIndex, request: Request) -> (out: (
    Option<H>,
    ServerAction,
))
    ensures
        is_action_for(index@, request@, out.1@),
        request is Play ==> out.0 == old(state).current_stream_cancel,
        request is Play ==> final(state).current_stream_cancel is None,
        !(request is Play) ==> out.0 is None,
        !(request is Play) ==> final(state).current_stream_cancel
            == old(state).current_stream_cancel,
{
    match request {
        Request::Play { track_id } => {
            let cancelled = state.current_stream_cancel.take();
            match get_track_meta(&track_id, index) {
                Some(meta) => (cancelled, ServerAction::OpenTrack { track_id, path: meta.path }),
                None => (cancelled, ServerAction::Reply(not_found())),
            }
        },
        Request::Meta { track_id } => {
            match get_track_meta(&track_id, index) {
                Some(meta) => (None, ServerAction::Reply(Response::Meta(meta))),
                None => (None, ServerAction::Reply(not_found())),
            }
        },
        Request::Search(query) => {
            let ghost q = query@;
            let hits = handle_search(query, index);
            proof {
                let keys = choose|keys: Seq<u128>|
                    is_search_result(index@, q, keys, metas_view(hits@));
                assert(is_search_result(index@, q, keys, metas_view(hits@)));
            }
            (None, ServerAction::Reply(Response::SearchResults(hits)))
        },
        Request::Playlist(PlaylistRequest::List) => (None, ServerAction::ListPlaylists),
        Request::Playlist(PlaylistRequest::Get { name }) => (
            None,
            ServerAction::LoadPlaylist { name: sanitize(name) },
        ),
        Request::Playlist(PlaylistRequest::Create { name, songs }) => (
            None,
            ServerAction::SavePlaylist(PlaylistMeta { title: sanitize(name), songs }),
        ),
    }
}

/// The name of the file that holds the playlist stored under `name`.
pub open spec fn playlist_file_name(name: Seq<char>) -> Seq<char> {
    name + ".json"@
}

/// Builds the name of the file that holds the playlist stored under `name`.
pub fn playlist_file(name: &str) -> (out: String)
    ensures
        out@ == playlist_file_name(name@),
{
    let mut chars: Vec<char> = Vec::new();
    push_str(&mut chars, name);
    push_str(&mut chars, ".json");
    string_of(&chars)
}

/// Whether a file with this extension, if it has one, holds a playlist.
pub fn is_playlist_file(extension: Option<&str>) -> (b: bool)
    ensures
        b == (extension matches Some(e) && e@ == "json"@),
{
    match extension {
        Some(e) => String::from_str(e) == String::from_str("json"),
        None => false,
    }
}

/// The entries that list the stored playlists `stored`: each with its title
/// and the number of its tracks.
pub open spec fn listing(stored: Seq<PlaylistMeta>) -> Seq<PlaylistView> {
    Seq::new(
        stored.len(),
        |i: int|
            PlaylistView {
                name: stored[i]@.title,
                len: stored[i]@.songs.len(),
            },
    )
}

/// Builds the answer that lists the stored playlists.
pub fn playlists_reply(stored: &Vec<PlaylistMeta>) -> (out: Response)
    ensures
        out@ == ResponseView::Playlist(
            PlaylistResponseView::Playlists(listing(stored@)),
        ),
{
    let mut lists: Vec<Playlist> = Vec::new();
    let mut i: usize = 0;
    while i < stored.len()
        invariant
            i <= stored@.len(),
            lists@.len() == i,
            forall|j: int| 0 <= j < i ==> lists@[j]@ == listing(stored@)[j],
        decreases stored.len() - i,
    {
        let entry = Playlist {
            name: stored[i].title.clone(),
            len: stored[i].songs.len(),
        };
        lists.push(entry);
        i += 1;
    }
    assert(playlists_view(lists@) =~= listing(stored@));
    Response::Playlist(PlaylistResponse::Playlists(lists))
}

/// Builds the answer that carries the tracks of a stored playlist.
pub fn playlist_reply(stored: PlaylistMeta) -> (out: Response)
    ensures
        out@ == ResponseView::Playlist(
            PlaylistResponseView::Songs(stored@.songs),
        ),
{
    Response::Playlist(PlaylistResponse::Songs(stored.songs))
}

} // verus!
