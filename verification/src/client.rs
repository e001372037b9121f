//! The client's connection reader: where each message from the server goes.

use crate::display::{
    make_numbered_rows, numbered_rows, render_results, result_cells, rounded_table,
};
use crate::interact::{
    handle_playlist_response, handle_search_response, playlist_answer, playlist_prompt,
    playlist_prompt_for, search_answer, search_prompt, search_prompt_for, Reply, ReplyView,
    UiRequest, UiRequestView, UiResponse,
};
use crate::queue::{ClientStateStruct, QueueView};
use crate::protocol::{PlaylistResponse, PlaylistResponseView, Response, ResponseView};
use crate::track::{metas_view, SongMeta, SongMetaView};
use crate::transport::{read_from_client, received_response, Received, ReceivedView};
use vstd::prelude::*;

verus! {

/// Where a message from the server goes.
#[derive(Clone, Debug, PartialEq, Eq)]
pub enum Routed {
    /// To the playback engine.
    Player(Response),
    /// To the user, as something to look at.
    Show(UiRequest),
    /// To the user as `show`, and to the playback engine as `player`.
    Both { show: UiRequest, player: Response },
    /// To the user, as a list of search results to pick from: `prompt` is
    /// shown, and the answer is applied to `songs`.
    PickFrom { prompt: UiRequest, songs: Vec<SongMeta> },
    /// To the user, as the tracks of a playlist that may replace the queue:
    /// `prompt` is shown, and the answer is applied to `songs`.
    ReplaceWith { prompt: UiRequest, songs: Vec<SongMeta> },
}

/// Mathematical value of a [`Routed`].
pub enum RoutedView {
    Player(ResponseView),
    Show(UiRequestView),
    Both { show: UiRequestView, player: ResponseView },
    PickFrom { prompt: UiRequestView, songs: Seq<SongMetaView> },
    ReplaceWith { prompt: UiRequestView, songs: Seq<SongMetaView> },
}

impl View for Routed {
    type V = RoutedView;

    open spec fn view(&self) -> RoutedView {
        match self {
            Routed::Player(r) => RoutedView::Player(r@),
            Routed::Show(u) => RoutedView::Show(u@),
            Routed::Both { show, player } => RoutedView::Both { show: show@, player: player@ },
            Routed::PickFrom { prompt, songs } => RoutedView::PickFrom {
                prompt: prompt@,
                songs: metas_view(songs@),
            },
            Routed::ReplaceWith { prompt, songs } => RoutedView::ReplaceWith {
                prompt: prompt@,
                songs: metas_view(songs@),
            },
        }
    }
}

/// Where `msg` goes.
///
/// Audio messages go to the playback engine. An error is shown and ends the
/// engine's wait for a header. Results and playlists are shown, with a
/// question where there is something to choose.
pub open spec fn route(msg: ResponseView) -> RoutedView {
    match msg {
        ResponseView::SongHeader { .. } => RoutedView::Player(msg),
        ResponseView::SongChunk { .. } => RoutedView::Player(msg),
        ResponseView::EndOfStream { .. } => RoutedView::Player(msg),
        ResponseView::Meta(meta) => RoutedView::Show(
            UiRequestView::Display(rounded_table(result_cells(numbered_rows(seq![meta])))),
        ),
        ResponseView::Error { message } => RoutedView::Both {
            show: UiRequestView::Display(message),
            player: msg,
        },
        ResponseView::SearchResults(songs) => if search_prompt_for(songs) is Prompt {
            RoutedView::PickFrom { prompt: search_prompt_for(songs), songs }
        } else {
            RoutedView::Show(search_prompt_for(songs))
        },
        ResponseView::Playlist(answer) => match answer {
            PlaylistResponseView::Songs(songs) => if songs.len() > 0 {
                RoutedView::ReplaceWith { prompt: playlist_prompt_for(answer), songs }
            } else {
                RoutedView::Show(playlist_prompt_for(answer))
            },
            PlaylistResponseView::Playlists(lists) => RoutedView::Show(playlist_prompt_for(answer)),
        },
    }
}

/// Decides where one message from the server goes.
pub fn server_interface(msg: Response) -> (out: Routed)
    ensures
        out@ == route(msg@),
{
    match msg {
        Response::SongHeader { track_id, channels, sample_rate } => Routed::Player(
            Response::SongHeader { track_id, channels, sample_rate },
        ),
        Response::SongChunk { track_id, data, index } => Routed::Player(
            Response::SongChunk { track_id, data, index },
        ),
        Response::EndOfStream { track_id } => Routed::Player(Response::EndOfStream { track_id }),
        Response::Meta(meta) => {
            let ghost m = meta@;
            let one = vec![meta];
            assert(metas_view(one@) =~= seq![m]);
            let rows = make_numbered_rows(&one);
            Routed::Show(UiRequest::Display(render_results(&rows)))
        },
        Response::Error { message } => Routed::Both {
            show: UiRequest::Display(message.clone()),
            player: Response::Error { message },
        },
        Response::SearchResults(songs) => {
            let prompt = search_prompt(&songs);
            match prompt {
                UiRequest::Prompt { s, prompt } => Routed::PickFrom {
                    prompt: UiRequest::Prompt { s, prompt },
                    songs,
                },
                other => Routed::Show(other),
            }
        },
        Response::Playlist(answer) => {
            let prompt = playlist_prompt(&answer);
            match answer {
                PlaylistResponse::Songs(songs) => {
                    if songs.len() > 0 {
                        Routed::ReplaceWith { prompt, songs }
                    } else {
                        Routed::Show(prompt)
                    }
                },
                PlaylistResponse::Playlists(lists) => Routed::Show(prompt),
            }
        },
    }
}

/// What the connection reader does next.
#[derive(Clone, Debug, PartialEq, Eq)]
pub enum ReaderStep {
    /// Wait for more bytes: at least `missing` are needed.
    Wait { missing: u64 },
    /// Drop `consumed` bytes from the head of the stream and pass the
    /// message on.
    Deliver { routed: Routed, consumed: usize },
    /// The connection is over, or what arrived is no message: tell the user
    /// interface to shut down, and stop.
    Stop(UiRequest),
}

/// Mathematical value of a [`ReaderStep`].
pub enum ReaderStepView {
    Wait { missing: nat },
    Deliver { routed: RoutedView, consumed: nat },
    Stop(UiRequestView),
}

impl View for ReaderStep {
    type V = ReaderStepView;

    open spec fn view(&self) -> ReaderStepView {
        match self {
            ReaderStep::Wait { missing } => ReaderStepView::Wait { missing: *missing as nat },
            ReaderStep::Deliver { routed, consumed } => ReaderStepView::Deliver {
                routed: routed@,
                consumed: *consumed as nat,
            },
            ReaderStep::Stop(u) => ReaderStepView::Stop(u@),
        }
    }
}

/// What the reader does with the bytes `stream` in hand.
///
/// A whole message is delivered. An incomplete one is waited for. A closed,
/// truncated or malformed stream ends the connection.
pub open spec fn reader_decision(stream: Seq<u8>, closed: bool) -> ReaderStepView {
    match received_response(stream, closed) {
        ReceivedView::Message { message, consumed } => ReaderStepView::Deliver {
            routed: route(message),
            consumed,
        },
        ReceivedView::NeedMore { missing } => ReaderStepView::Wait { missing },
        ReceivedView::EndOfStream => ReaderStepView::Stop(UiRequestView::Shutdown),
        ReceivedView::Truncated => ReaderStepView::Stop(UiRequestView::Shutdown),
        ReceivedView::Malformed { consumed } => ReaderStepView::Stop(UiRequestView::Shutdown),
    }
}

/// One step of the connection reader on the bytes received so far and not
/// yet consumed; `closed` says that the server has closed the stream.
pub fn reader_step(stream: &[u8], closed: bool) -> (out: ReaderStep)
    ensures
        out@ == reader_decision(stream@, closed),
{
    match read_from_client(stream, closed) {
        Received::Message { message, consumed } => ReaderStep::Deliver {
            routed: server_interface(message),
            consumed,
        },
        Received::NeedMore { missing } => ReaderStep::Wait { missing },
        Received::EndOfStream => ReaderStep::Stop(UiRequest::Shutdown),
        Received::Truncated => ReaderStep::Stop(UiRequest::Shutdown),
        Received::Malformed { consumed } => ReaderStep::Stop(UiRequest::Shutdown),
    }
}

/// What the connection reader awaits from the user.
#[derive(Clone, Debug, PartialEq, Eq)]
pub enum Exchange {
    /// Nothing: no question is open.
    Idle,
    /// Which of these search results to queue.
    AwaitingPick(Vec<SongMeta>),
    /// Whether these tracks shall replace the queue.
    AwaitingConfirm(Vec<SongMeta>),
}

/// Mathematical value of an [`Exchange`].
pub enum ExchangeView {
    Idle,
    AwaitingPick(Seq<SongMetaView>),
    AwaitingConfirm(Seq<SongMetaView>),
}

impl View for Exchange {
    type V = ExchangeView;

    open spec fn view(&self) -> ExchangeView {
        match self {
            Exchange::Idle => ExchangeView::Idle,
            Exchange::AwaitingPick(songs) => ExchangeView::AwaitingPick(metas_view(songs@)),
            Exchange::AwaitingConfirm(songs) => ExchangeView::AwaitingConfirm(metas_view(songs@)),
        }
    }
}

/// What is passed on when a message is taken in: a request to the user
/// interface and a message to the playback engine, as far as there is one.
#[derive(Clone, Debug, PartialEq, Eq)]
pub struct Delivery {
    pub show: Option<UiRequest>,
    pub player: Option<Response>,
}

/// Mathematical value of a [`Delivery`].
pub struct DeliveryView {
    pub show: Option<UiRequestView>,
    pub player: Option<ResponseView>,
}

impl View for Delivery {
    type V = DeliveryView;

    open spec fn view(&self) -> DeliveryView {
        DeliveryView {
            show: match self.show {
                Some(u) => Some(u@),
                None => None,
            },
            player: match self.player {
                Some(r) => Some(r@),
                None => None,
            },
        }
    }
}

/// The exchange and what is passed on after `routed` was taken in: a list to
/// choose from opens a question, which replaces one that was open.
pub open spec fn taken(ex: ExchangeView, routed: RoutedView) -> (ExchangeView, DeliveryView) {
    match routed {
        RoutedView::Player(r) => (ex, DeliveryView { show: None, player: Some(r) }),
        RoutedView::Show(u) => (ex, DeliveryView { show: Some(u), player: None }),
        RoutedView::Both { show, player } => (
            ex,
            DeliveryView { show: Some(show), player: Some(player) },
        ),
        RoutedView::PickFrom { prompt, songs } => (
            ExchangeView::AwaitingPick(songs),
            DeliveryView { show: Some(prompt), player: None },
        ),
        RoutedView::ReplaceWith { prompt, songs } => (
            ExchangeView::AwaitingConfirm(songs),
            DeliveryView { show: Some(prompt), player: None },
        ),
    }
}

/// The queue and the reply after the user answered `answer` while `ex` was
/// the state of the exchange: an answer that no question awaits changes
/// nothing.
pub open spec fn answered(ex: ExchangeView, queue: QueueView, answer: Seq<char>) -> (
    QueueView,
    ReplyView,
) {
    match ex {
        ExchangeView::Idle => (queue, ReplyView { message: None, play: None }),
        ExchangeView::AwaitingPick(songs) => search_answer(queue, songs, answer),
        ExchangeView::AwaitingConfirm(songs) => playlist_answer(queue, songs, answer),
    }
}

impl Exchange {
    /// Whether a question is open.
    pub fn is_awaiting(&self) -> (b: bool)
        ensures
            b == !(self@ is Idle),
    {
        match self {
            Exchange::Idle => false,
            _ => true,
        }
    }

    /// Takes in a routed message: says what to pass on, and remembers the
    /// question that it opens, if it opens one.
    pub fn take(&mut self, routed: Routed) -> (out: Delivery)
        ensures
            (final(self)@, out@) == taken(old(self)@, routed@),
    {
        match routed {
            Routed::Player(r) => Delivery { show: None, player: Some(r) },
            Routed::Show(u) => Delivery { show: Some(u), player: None },
            Routed::Both { show, player } => Delivery { show: Some(show), player: Some(player) },
            Routed::PickFrom { prompt, songs } => {
                *self = Exchange::AwaitingPick(songs);
                Delivery { show: Some(prompt), player: None }
            },
            Routed::ReplaceWith { prompt, songs } => {
                *self = Exchange::AwaitingConfirm(songs);
                Delivery { show: Some(prompt), player: None }
            },
        }
    }

    /// Takes in the user's answer: applies it to the queue as the open
    /// question asks, and closes the question.
    pub fn answer(&mut self, answer: &UiResponse, state: &mut ClientStateStruct) -> (reply: Reply)
        ensures
            (final(state)@, reply@) == answered(old(self)@, old(state)@, answer.0@),
            final(self)@ is Idle,
            old(state)@.wf() ==> final(state)@.wf(),
    {
        let reply = match &*self {
            Exchange::Idle => Reply { message: None, play: None },
            Exchange::AwaitingPick(songs) => handle_search_response(songs, answer, state),
            Exchange::AwaitingConfirm(songs) => handle_playlist_response(songs, answer, state),
        };
        *self = Exchange::Idle;
        reply
    }
}

} // verus!
