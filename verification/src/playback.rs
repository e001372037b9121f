//! The client's playback engine: which of the audio messages reach the sink,
//! and when the next queued track is asked for.

use crate::protocol::{Response, ResponseView};
use crate::queue::{get_next_song, ClientStateStruct, GetReturn, QueueView};
use crate::track::TrackId;
use vstd::prelude::*;

verus! {

/// What the playback engine knows about the stream it is playing.
#[derive(Clone, Copy, Debug, PartialEq, Eq)]
pub struct PlayerStateStruct {
    pub channels: u16,
    pub sample_rate: u32,
    /// The track whose chunks are accepted; stale chunks belong to any other.
    pub current_id: Option<TrackId>,
    /// Set when the next track was asked for and its header is still due.
    pub waiting_for_header: bool,
}

/// What the engine asks of the audio sink in reaction to one message.
#[derive(Clone, Debug, PartialEq, Eq)]
pub enum SinkAction {
    /// Drop everything buffered and get ready to play new audio.
    Restart,
    /// Queue `data` behind what is buffered, in the given format.
    Append { channels: u16, sample_rate: u32, data: Vec<i16> },
    /// Leave the sink as it is.
    Nothing,
}

/// One block of audio as the sink holds it.
pub struct AudioBlock {
    pub channels: u16,
    pub sample_rate: u32,
    pub data: Seq<i16>,
}

/// Mathematical value of a [`SinkAction`].
pub enum SinkActionView {
    Restart,
    Append(AudioBlock),
    Nothing,
}

impl View for SinkAction {
    type V = SinkActionView;

    open spec fn view(&self) -> SinkActionView {
        match self {
            SinkAction::Restart => SinkActionView::Restart,
            SinkAction::Append { channels, sample_rate, data } => SinkActionView::Append(
                AudioBlock { channels: *channels, sample_rate: *sample_rate, data: data@ },
            ),
            SinkAction::Nothing => SinkActionView::Nothing,
        }
    }
}

/// What the sink has buffered after it performed `action` on `buffered`.
pub open spec fn sink_after(buffered: Seq<AudioBlock>, action: SinkActionView) -> Seq<AudioBlock> {
    match action {
        SinkActionView::Restart => Seq::empty(),
        SinkActionView::Append(block) => buffered.push(block),
        SinkActionView::Nothing => buffered,
    }
}

/// The engine's state after `msg`, and what it asks of the sink.
///
/// A header always starts a new logical stream. A chunk is played only if it
/// belongs to the active track. An end marker of the active track ends the
/// stream. A header or an error ends the wait for a header.
pub open spec fn player_step(ps: PlayerStateStruct, msg: ResponseView) -> (
    PlayerStateStruct,
    SinkActionView,
) {
    match msg {
        ResponseView::SongHeader { track_id, channels, sample_rate } => (
            PlayerStateStruct {
                channels,
                sample_rate,
                current_id: Some(TrackId(track_id)),
                waiting_for_header: false,
            },
            SinkActionView::Restart,
        ),
        ResponseView::SongChunk { track_id, data, index } => {
            if ps.current_id == Some(TrackId(track_id)) {
                (
                    ps,
                    SinkActionView::Append(
                        AudioBlock { channels: ps.channels, sample_rate: ps.sample_rate, data },
                    ),
                )
            } else {
                (ps, SinkActionView::Nothing)
            }
        },
        ResponseView::EndOfStream { track_id } => {
            if ps.current_id == Some(TrackId(track_id)) {
                (PlayerStateStruct { current_id: None, ..ps }, SinkActionView::Nothing)
            } else {
                (ps, SinkActionView::Nothing)
            }
        },
        ResponseView::Error { message } => (
            PlayerStateStruct { waiting_for_header: false, ..ps },
            SinkActionView::Nothing,
        ),
        _ => (ps, SinkActionView::Nothing),
    }
}

/// A chunk of a track that is not the active one changes neither the engine
/// nor what the sink has buffered.
pub proof fn lemma_stale_chunk_is_dropped(
    ps: PlayerStateStruct,
    track_id: u128,
    data: Seq<i16>,
    index: u32,
    buffered: Seq<AudioBlock>,
)
    requires
        ps.current_id != Some(TrackId(track_id)),
    ensures
        ({
            let (next, action) = player_step(ps, ResponseView::SongChunk { track_id, data, index });
            next == ps && sink_after(buffered, action) == buffered
        }),
{
}

/// A header for track `b` empties the sink, whatever was active and buffered
/// before. After it a chunk of `b` is the only audio in the sink, and a chunk
/// of any other track is dropped.
pub proof fn lemma_header_flushes_previous_track(
    ps: PlayerStateStruct,
    b: u128,
    channels: u16,
    sample_rate: u32,
    buffered: Seq<AudioBlock>,
    chunk_track: u128,
    data: Seq<i16>,
    index: u32,
)
    ensures
        ({
            let header = ResponseView::SongHeader { track_id: b, channels, sample_rate };
            let chunk = ResponseView::SongChunk { track_id: chunk_track, data, index };
            let (after_header, flush) = player_step(ps, header);
            let flushed = sink_after(buffered, flush);
            let (after_chunk, feed) = player_step(after_header, chunk);
            &&& flushed == Seq::<AudioBlock>::empty()
            &&& after_header.current_id == Some(TrackId(b))
            &&& !after_header.waiting_for_header
            &&& chunk_track == b ==> sink_after(flushed, feed) == seq![
                AudioBlock { channels, sample_rate, data },
            ]
            &&& chunk_track != b ==> sink_after(flushed, feed) == flushed
        }),
{
    let header = ResponseView::SongHeader { track_id: b, channels, sample_rate };
    let (after_header, flush) = player_step(ps, header);
    let flushed = sink_after(buffered, flush);
    if chunk_track == b {
        assert(flushed.push(AudioBlock { channels, sample_rate, data }) =~= seq![
            AudioBlock { channels, sample_rate, data },
        ]);
    }
}

/// An end marker of a track that is not the active one changes nothing.
pub proof fn lemma_stale_end_is_ignored(
    ps: PlayerStateStruct,
    track_id: u128,
    buffered: Seq<AudioBlock>,
)
    requires
        ps.current_id != Some(TrackId(track_id)),
    ensures
        ({
            let (next, action) = player_step(ps, ResponseView::EndOfStream { track_id });
            next == ps && sink_after(buffered, action) == buffered
        }),
{
}

impl PlayerStateStruct {
    /// The state of an engine that has not heard from the server yet, with
    /// the format it assumes until the first header.
    pub fn new(channels: u16, sample_rate: u32) -> (ps: PlayerStateStruct)
        ensures
            ps == (PlayerStateStruct {
                channels,
                sample_rate,
                current_id: None,
                waiting_for_header: false,
            }),
    {
        PlayerStateStruct { channels, sample_rate, current_id: None, waiting_for_header: false }
    }

    fn is_active(&self, track_id: TrackId) -> (b: bool)
        ensures
            b == (self.current_id == Some(track_id)),
    {
        match self.current_id {
            Some(active) => active == track_id,
            None => false,
        }
    }

    /// Takes one message from the server and says what the sink has to do.
    pub fn on_response(&mut self, msg: Response) -> (action: SinkAction)
        ensures
            (*final(self), action@) == player_step(*old(self), msg@),
    {
        match msg {
            Response::SongHeader { track_id, channels, sample_rate } => {
                self.channels = channels;
                self.sample_rate = sample_rate;
                self.current_id = Some(track_id);
                self.waiting_for_header = false;
                SinkAction::Restart
            },
            Response::SongChunk { track_id, data, index } => {
                if self.is_active(track_id) {
                    SinkAction::Append {
                        channels: self.channels,
                        sample_rate: self.sample_rate,
                        data,
                    }
                } else {
                    SinkAction::Nothing
                }
            },
            Response::EndOfStream { track_id } => {
                if self.is_active(track_id) {
                    self.current_id = None;
                }
                SinkAction::Nothing
            },
            Response::Error { message } => {
                self.waiting_for_header = false;
                SinkAction::Nothing
            },
            _ => SinkAction::Nothing,
        }
    }
}

/// What the watcher does after one look at the sink.
#[derive(Clone, Copy, Debug, PartialEq, Eq)]
pub enum WatcherAction {
    /// Nothing to do until the next look.
    Wait,
    /// Ask the server to play this track.
    Play(TrackId),
}

/// The watcher's decision: `(player state, queue, action)` after one look.
///
/// It asks for the next track only when the sink has run empty and no header
/// is awaited, and from then on awaits a header, so that it asks once per
/// gap.
pub open spec fn watcher_decision(ps: PlayerStateStruct, sink_empty: bool, queue: QueueView) -> (
    PlayerStateStruct,
    QueueView,
    Option<u128>,
) {
    if ps.waiting_for_header || !sink_empty {
        (ps, queue, None)
    } else {
        let waiting = PlayerStateStruct { waiting_for_header: true, ..ps };
        if queue.entries.len() == 0 {
            (waiting, queue, None)
        } else {
            let next = queue.advance(1);
            (waiting, next, Some(next.current->0.id))
        }
    }
}

/// The watcher asks for a track only when the sink has run empty and no
/// header is awaited, and then awaits one: it does not ask again before a
/// header or an error has arrived. It keeps the queue invariant.
pub proof fn lemma_watcher_asks_once(ps: PlayerStateStruct, sink_empty: bool, queue: QueueView)
    ensures
        ({
            let (next_ps, next_queue, play) = watcher_decision(ps, sink_empty, queue);
            &&& play is Some ==> sink_empty && !ps.waiting_for_header && next_ps.waiting_for_header
            &&& next_ps.waiting_for_header ==> watcher_decision(next_ps, sink_empty, next_queue)
                == (next_ps, next_queue, None::<u128>)
            &&& queue.wf() ==> next_queue.wf()
        }),
{
    if queue.wf() {
        crate::queue::lemma_navigation_keeps_wf(queue, 1);
    }
}

/// One look of the watcher at the sink: advances the queue by one and asks
/// for that track when playback has run dry.
pub fn watcher_step(
    ps: &mut PlayerStateStruct,
    sink_empty: bool,
    state: &mut ClientStateStruct,
) -> (action: WatcherAction)
    ensures
        ({
            let (next_ps, next_queue, play) = watcher_decision(*old(ps), sink_empty, old(state)@);
            &&& *final(ps) == next_ps
            &&& final(state)@ == next_queue
            &&& action == match play {
                Some(id) => WatcherAction::Play(TrackId(id)),
                None => WatcherAction::Wait,
            }
        }),
{
    if ps.waiting_for_header || !sink_empty {
        return WatcherAction::Wait;
    }
    ps.waiting_for_header = true;
    match get_next_song(state, 1) {
        GetReturn::QueueEmpty => WatcherAction::Wait,
        GetReturn::Selected => {
            match state.current_track() {
                Some(id) => WatcherAction::Play(id),
                None => WatcherAction::Wait,
            }
        },
    }
}

} // verus!
