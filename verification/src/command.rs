//! The command language of the client: what a typed line means, and what
//! carrying out a command does to the queue, the sink and the server.

use crate::display::{
    make_row, queue_cells, queue_rows, render_queue, rounded_table, rows_view, SongTable,
};
use crate::protocol::{
    PlaylistRequest, PlaylistRequestView, Request, RequestView, SearchType, SearchTypeView,
};
use crate::queue::{get_next_song, get_prev_song, ClientStateStruct, QueueView};
use crate::search::{lowercase, to_lowercase};
use crate::text::{
    chars_of, is_word, join_words, joined, lines_view, number, parse_number, push_str, split_words,
    string_of, words,
};
use crate::track::clone_metas;
use vstd::prelude::*;

verus! {

/// What the user can ask about playlists.
#[derive(Clone, Debug, PartialEq, Eq)]
pub enum PlaylistCommand {
    /// Store the queue as a playlist of this name.
    New(String),
    /// Fetch the playlist of this name.
    Load(String),
    /// List the stored playlists.
    List,
}

/// What the user can ask to see.
#[derive(Clone, Copy, Debug, PartialEq, Eq, Structural)]
pub enum ShowCommand {
    /// The track that is current.
    Current,
    /// The whole queue.
    All,
}

/// A command of the client.
#[derive(Clone, Debug, PartialEq, Eq)]
pub enum Command {
    /// Look for tracks with this text in their title, to add them to the
    /// queue.
    Add(String),
    /// Empty the queue.
    Clear,
    /// Leave the program.
    Exit,
    /// Go forward in the queue by so many tracks.
    Next(usize),
    /// Go back in the queue by so many tracks.
    Prev(usize),
    /// Pause if playing, play if paused.
    Toggle,
    Playlist(PlaylistCommand),
    /// Play the current track from its start.
    Replay,
    Show(ShowCommand),
    /// The track that was playing has run out.
    TrackEnd,
    /// Look for tracks.
    Search(SearchType),
}

/// Mathematical value of a [`Command`].
pub enum CommandView {
    Add(Seq<char>),
    Clear,
    Exit,
    Next(nat),
    Prev(nat),
    Toggle,
    PlaylistNew(Seq<char>),
    PlaylistLoad(Seq<char>),
    PlaylistList,
    Replay,
    Show(ShowCommand),
    TrackEnd,
    Search(SearchTypeView),
}

impl View for Command {
    type V = CommandView;

    open spec fn view(&self) -> CommandView {
        match self {
            Command::Add(text) => CommandView::Add(text@),
            Command::Clear => CommandView::Clear,
            Command::Exit => CommandView::Exit,
            Command::Next(n) => CommandView::Next(*n as nat),
            Command::Prev(n) => CommandView::Prev(*n as nat),
            Command::Toggle => CommandView::Toggle,
            Command::Playlist(PlaylistCommand::New(name)) => CommandView::PlaylistNew(name@),
            Command::Playlist(PlaylistCommand::Load(name)) => CommandView::PlaylistLoad(name@),
            Command::Playlist(PlaylistCommand::List) => CommandView::PlaylistList,
            Command::Replay => CommandView::Replay,
            Command::Show(what) => CommandView::Show(*what),
            Command::TrackEnd => CommandView::TrackEnd,
            Command::Search(s) => CommandView::Search(s@),
        }
    }
}

/// What a typed line turned out to be.
#[derive(Clone, Debug, PartialEq, Eq)]
pub enum Line {
    /// Nothing but spaces.
    Empty,
    /// A command.
    Run(Command),
    /// `next` or `prev` with something that is no count.
    BadCount { back: bool },
    /// A playlist command that is not of a known form.
    PlaylistUsage,
    /// A search command that is not of a known form.
    SearchUsage,
    /// A first word that is no command.
    Unknown(String),
}

/// Mathematical value of a [`Line`].
pub enum LineView {
    Empty,
    Run(CommandView),
    BadCount { back: bool },
    PlaylistUsage,
    SearchUsage,
    Unknown(Seq<char>),
}

impl View for Line {
    type V = LineView;

    open spec fn view(&self) -> LineView {
        match self {
            Line::Empty => LineView::Empty,
            Line::Run(c) => LineView::Run(c@),
            Line::BadCount { back } => LineView::BadCount { back: *back },
            Line::PlaylistUsage => LineView::PlaylistUsage,
            Line::SearchUsage => LineView::SearchUsage,
            Line::Unknown(w) => LineView::Unknown(w@),
        }
    }
}

/// The free text of a command: the words from position `from` on, joined by
/// single spaces, in lower case.
pub open spec fn free_text(ws: Seq<Seq<char>>, from: int) -> Seq<char> {
    lowercase(joined(ws.skip(from)))
}

/// What `next` and `prev` mean with the words `ws`: one step without a
/// count, so many steps with one.
pub open spec fn step_line(ws: Seq<Seq<char>>, back: bool) -> LineView {
    if ws.len() < 2 {
        LineView::Run(
            if back {
                CommandView::Prev(1)
            } else {
                CommandView::Next(1)
            },
        )
    } else {
        match number(ws[1]) {
            Some(n) => if n <= usize::MAX {
                LineView::Run(
                    if back {
                        CommandView::Prev(n)
                    } else {
                        CommandView::Next(n)
                    },
                )
            } else {
                LineView::BadCount { back }
            },
            None => LineView::BadCount { back },
        }
    }
}

/// What a playlist command means with the words `ws`.
pub open spec fn playlist_line(ws: Seq<Seq<char>>) -> LineView {
    if ws.len() >= 3 && ws[1] == "load"@ {
        LineView::Run(CommandView::PlaylistLoad(free_text(ws, 2)))
    } else if ws.len() >= 3 && ws[1] == "new"@ {
        LineView::Run(CommandView::PlaylistNew(free_text(ws, 2)))
    } else if ws.len() >= 2 && (ws[1] == "ls"@ || ws[1] == "show"@) {
        LineView::Run(CommandView::PlaylistList)
    } else {
        LineView::PlaylistUsage
    }
}

/// What a search command means with the words `ws`.
pub open spec fn search_line(ws: Seq<Seq<char>>) -> LineView {
    if ws.len() >= 2 && (ws[1] == "artist"@ || ws[1] == "a"@) {
        LineView::Run(CommandView::Search(SearchTypeView::ByArtist(free_text(ws, 2))))
    } else if ws.len() >= 2 && (ws[1] == "title"@ || ws[1] == "t"@) {
        LineView::Run(CommandView::Search(SearchTypeView::ByTitle(free_text(ws, 2))))
    } else {
        LineView::SearchUsage
    }
}

/// What the words `ws` of a line mean.
pub open spec fn line_of(ws: Seq<Seq<char>>) -> LineView {
    if ws.len() == 0 {
        LineView::Empty
    } else if ws[0] == "replay"@ {
        LineView::Run(CommandView::Replay)
    } else if ws[0] == "pause"@ || ws[0] == "p"@ {
        LineView::Run(CommandView::Toggle)
    } else if ws[0] == "clear"@ {
        LineView::Run(CommandView::Clear)
    } else if ws[0] == "next"@ {
        step_line(ws, false)
    } else if ws[0] == "prev"@ {
        step_line(ws, true)
    } else if ws[0] == "show"@ || ws[0] == "ls"@ {
        LineView::Run(CommandView::Show(ShowCommand::All))
    } else if ws[0] == "playlist"@ || ws[0] == "pl"@ {
        playlist_line(ws)
    } else if ws[0] == "search"@ {
        search_line(ws)
    } else if ws[0] == "exit"@ {
        LineView::Run(CommandView::Exit)
    } else {
        LineView::Unknown(ws[0])
    }
}

fn text_from(ws: &Vec<Vec<char>>, from: usize) -> (out: String)
    requires
        from <= ws@.len(),
    ensures
        out@ == free_text(lines_view(ws@), from as int),
{
    let joined = join_words(ws, from);
    to_lowercase(string_of(&joined).as_str())
}

fn parse_step(ws: &Vec<Vec<char>>, back: bool) -> (out: Line)
    requires
        ws@.len() >= 1,
    ensures
        out@ == step_line(lines_view(ws@), back),
{
    if ws.len() < 2 {
        return Line::Run(
            if back {
                Command::Prev(1)
            } else {
                Command::Next(1)
            },
        );
    }
    match parse_number(&ws[1], usize::MAX) {
        Some(n) => Line::Run(
            if back {
                Command::Prev(n)
            } else {
                Command::Next(n)
            },
        ),
        None => Line::BadCount { back },
    }
}

fn parse_playlist(ws: &Vec<Vec<char>>) -> (out: Line)
    requires
        ws@.len() >= 1,
    ensures
        out@ == playlist_line(lines_view(ws@)),
{
    if ws.len() >= 3 && is_word(&ws[1], "load") {
        Line::Run(Command::Playlist(PlaylistCommand::Load(text_from(ws, 2))))
    } else if ws.len() >= 3 && is_word(&ws[1], "new") {
        Line::Run(Command::Playlist(PlaylistCommand::New(text_from(ws, 2))))
    } else if ws.len() >= 2 && (is_word(&ws[1], "ls") || is_word(&ws[1], "show")) {
        Line::Run(Command::Playlist(PlaylistCommand::List))
    } else {
        Line::PlaylistUsage
    }
}

fn parse_search(ws: &Vec<Vec<char>>) -> (out: Line)
    requires
        ws@.len() >= 1,
    ensures
        out@ == search_line(lines_view(ws@)),
{
    if ws.len() >= 2 && (is_word(&ws[1], "artist") || is_word(&ws[1], "a")) {
        Line::Run(Command::Search(SearchType::ByArtist(text_from(ws, 2))))
    } else if ws.len() >= 2 && (is_word(&ws[1], "title") || is_word(&ws[1], "t")) {
        Line::Run(Command::Search(SearchType::ByTitle(text_from(ws, 2))))
    } else {
        Line::SearchUsage
    }
}

/// Reads one typed line.
pub fn parse_command(line: &str) -> (out: Line)
    ensures
        out@ == line_of(words(line@)),
{
    let chars = chars_of(line);
    let ws = split_words(&chars);
    if ws.len() == 0 {
        return Line::Empty;
    }
    let first = &ws[0];
    assert(lines_view(ws@)[0] == first@);
    if is_word(first, "replay") {
        Line::Run(Command::Replay)
    } else if is_word(first, "pause") || is_word(first, "p") {
        Line::Run(Command::Toggle)
    } else if is_word(first, "clear") {
        Line::Run(Command::Clear)
    } else if is_word(first, "next") {
        parse_step(&ws, false)
    } else if is_word(first, "prev") {
        parse_step(&ws, true)
    } else if is_word(first, "show") || is_word(first, "ls") {
        Line::Run(Command::Show(ShowCommand::All))
    } else if is_word(first, "playlist") || is_word(first, "pl") {
        parse_playlist(&ws)
    } else if is_word(first, "search") {
        parse_search(&ws)
    } else if is_word(first, "exit") {
        Line::Run(Command::Exit)
    } else {
        Line::Unknown(string_of(first))
    }
}

/// How a text for the user is meant: as good news, as bad news or as a plain
/// note.
#[derive(Clone, Copy, Debug, PartialEq, Eq, Structural)]
pub enum Tone {
    Good,
    Bad,
    Note,
}

/// A text for the user.
#[derive(Clone, Debug, PartialEq, Eq)]
pub struct Say {
    pub tone: Tone,
    pub text: String,
}

/// What a command asks of the audio sink.
#[derive(Clone, Copy, Debug, PartialEq, Eq, Structural)]
pub enum SinkOrder {
    Nothing,
    Play,
    Pause,
    Clear,
    Stop,
}

/// What carrying out a command leads to, besides the change to the queue.
#[derive(Clone, Debug, PartialEq, Eq)]
pub struct Effects {
    pub say: Option<Say>,
    pub request: Option<Request>,
    pub sink: SinkOrder,
    pub exit: bool,
}

/// Mathematical value of an [`Effects`].
pub struct EffectsView {
    pub say: Option<(Tone, Seq<char>)>,
    pub request: Option<RequestView>,
    pub sink: SinkOrder,
    pub exit: bool,
}

impl View for Effects {
    type V = EffectsView;

    open spec fn view(&self) -> EffectsView {
        EffectsView {
            say: match self.say {
                Some(s) => Some((s.tone, s.text@)),
                None => None,
            },
            request: match self.request {
                Some(r) => Some(r@),
                None => None,
            },
            sink: self.sink,
            exit: self.exit,
        }
    }
}

/// Effects that consist of a text only.
pub open spec fn only_say(tone: Tone, text: Seq<char>) -> EffectsView {
    EffectsView { say: Some((tone, text)), request: None, sink: SinkOrder::Nothing, exit: false }
}

/// Effects that consist of a request only.
pub open spec fn only_request(request: RequestView) -> EffectsView {
    EffectsView { say: None, request: Some(request), sink: SinkOrder::Nothing, exit: false }
}

/// No effects at all.
pub open spec fn no_effects() -> EffectsView {
    EffectsView { say: None, request: None, sink: SinkOrder::Nothing, exit: false }
}

/// The effects of a replay: the current track is asked for again, or the
/// user is told that there is none.
pub open spec fn replay_effects(queue: QueueView) -> EffectsView {
    match queue.current {
        Some(song) => EffectsView {
            say: Some((Tone::Note, "Replaying: "@ + song.title)),
            request: Some(RequestView::Play { track_id: song.id }),
            sink: SinkOrder::Nothing,
            exit: false,
        },
        None => only_say(Tone::Bad, "No song to replay"@),
    }
}

/// The effects of a toggle: a paused sink plays, a playing one pauses.
pub open spec fn pause_effects(paused: bool) -> EffectsView {
    if paused {
        EffectsView {
            say: Some((Tone::Good, "Playing..."@)),
            request: None,
            sink: SinkOrder::Play,
            exit: false,
        }
    } else {
        EffectsView {
            say: Some((Tone::Good, "Paused."@)),
            request: None,
            sink: SinkOrder::Pause,
            exit: false,
        }
    }
}

/// The effects of clearing the queue: the sink is emptied as well.
pub open spec fn clear_effects() -> EffectsView {
    EffectsView {
        say: Some((Tone::Good, "Clearing queue..."@)),
        request: None,
        sink: SinkOrder::Clear,
        exit: false,
    }
}

/// The effects of leaving: the sink is stopped.
pub open spec fn exit_effects() -> EffectsView {
    EffectsView {
        say: Some((Tone::Good, "Exiting..."@)),
        request: None,
        sink: SinkOrder::Stop,
        exit: true,
    }
}

/// The queue after a step of `n` tracks, back or forward.
pub open spec fn stepped(queue: QueueView, back: bool, n: nat) -> QueueView {
    if back {
        queue.retreat(n)
    } else {
        queue.advance(n)
    }
}

/// The effects of a step that led to `queue`: its current track is asked
/// for and announced; of an empty queue the user is told that it is empty.
pub open spec fn step_effects(queue: QueueView) -> EffectsView {
    if queue.entries.len() == 0 {
        only_say(Tone::Bad, "Queue Empty!"@)
    } else {
        match queue.current {
            Some(song) => EffectsView {
                say: Some((Tone::Note, "Playing: "@ + song.title)),
                request: Some(RequestView::Play { track_id: song.id }),
                sink: SinkOrder::Nothing,
                exit: false,
            },
            None => only_say(Tone::Bad, "Queue Empty!"@),
        }
    }
}

/// The effects of showing the queue.
pub open spec fn show_effects(queue: QueueView) -> EffectsView {
    if queue.entries.len() == 0 {
        only_say(Tone::Note, "Queue is Empty."@)
    } else {
        only_say(Tone::Note, rounded_table(queue_cells(queue_rows(queue.entries, queue.current))))
    }
}

/// The effects of showing the current track.
pub open spec fn show_current_effects(queue: QueueView) -> EffectsView {
    match queue.current {
        Some(song) => only_say(Tone::Note, "Playing: "@ + song.title),
        None => only_say(Tone::Bad, "Nothing is playing."@),
    }
}

/// The effects of a playlist command, given the queue.
pub open spec fn playlist_effects(command: CommandView, queue: QueueView) -> EffectsView {
    match command {
        CommandView::PlaylistNew(name) => EffectsView {
            say: Some((Tone::Good, "Creating new playlist: "@ + name)),
            request: Some(
                RequestView::Playlist(PlaylistRequestView::Create { name, songs: queue.entries }),
            ),
            sink: SinkOrder::Nothing,
            exit: false,
        },
        CommandView::PlaylistLoad(name) => EffectsView {
            say: Some((Tone::Good, "Loading playlist: "@ + name)),
            request: Some(RequestView::Playlist(PlaylistRequestView::Get { name })),
            sink: SinkOrder::Nothing,
            exit: false,
        },
        _ => only_request(RequestView::Playlist(PlaylistRequestView::List)),
    }
}

/// The effects of the end of a track that led to `queue`: its current track
/// is asked for, without a word.
pub open spec fn track_end_effects(queue: QueueView) -> EffectsView {
    match queue.current {
        Some(song) => only_request(RequestView::Play { track_id: song.id }),
        None => no_effects(),
    }
}

/// The queue and the effects after `command` was carried out, where `paused`
/// says whether the sink is paused.
pub open spec fn outcome(command: CommandView, queue: QueueView, paused: bool) -> (
    QueueView,
    EffectsView,
) {
    match command {
        CommandView::Add(text) => (
            queue,
            only_request(RequestView::Search(SearchTypeView::ByTitle(lowercase(text)))),
        ),
        CommandView::Clear => (queue.cleared(), clear_effects()),
        CommandView::Exit => (queue, exit_effects()),
        CommandView::Next(n) => (queue.advance(n), step_effects(queue.advance(n))),
        CommandView::Prev(n) => (queue.retreat(n), step_effects(queue.retreat(n))),
        CommandView::Toggle => (queue, pause_effects(paused)),
        CommandView::PlaylistNew(name) => (queue, playlist_effects(command, queue)),
        CommandView::PlaylistLoad(name) => (queue, playlist_effects(command, queue)),
        CommandView::PlaylistList => (queue, playlist_effects(command, queue)),
        CommandView::Replay => (queue, replay_effects(queue)),
        CommandView::Show(ShowCommand::All) => (queue, show_effects(queue)),
        CommandView::Show(ShowCommand::Current) => (queue, show_current_effects(queue)),
        CommandView::TrackEnd => (queue.advance(1), track_end_effects(queue.advance(1))),
        CommandView::Search(s) => (queue, only_request(RequestView::Search(s))),
    }
}

/// Whatever command is carried out, a queue that satisfied the queue
/// invariant satisfies it afterwards.
pub proof fn lemma_commands_keep_queue_invariant(
    command: CommandView,
    queue: QueueView,
    paused: bool,
)
    requires
        queue.wf(),
    ensures
        outcome(command, queue, paused).0.wf(),
{
    crate::queue::lemma_mutation_keeps_wf(queue, Seq::empty());
    match command {
        CommandView::Next(n) => {
            crate::queue::lemma_navigation_keeps_wf(queue, n);
        },
        CommandView::Prev(n) => {
            crate::queue::lemma_navigation_keeps_wf(queue, n);
        },
        CommandView::TrackEnd => {
            crate::queue::lemma_navigation_keeps_wf(queue, 1);
        },
        _ => {},
    }
}

fn say(tone: Tone, text: &str) -> (out: Effects)
    ensures
        out@ == only_say(tone, text@),
{
    Effects {
        say: Some(Say { tone, text: String::from_str(text) }),
        request: None,
        sink: SinkOrder::Nothing,
        exit: false,
    }
}

fn ask(request: Request) -> (out: Effects)
    ensures
        out@ == only_request(request@),
{
    Effects { say: None, request: Some(request), sink: SinkOrder::Nothing, exit: false }
}

fn labelled(label: &str, text: &String) -> (out: String)
    ensures
        out@ == label@ + text@,
{
    let mut chars: Vec<char> = Vec::new();
    push_str(&mut chars, label);
    push_str(&mut chars, text.as_str());
    string_of(&chars)
}

/// Asks the server for the current track once more.
pub fn handle_replay(state: &ClientStateStruct) -> (out: Effects)
    ensures
        out@ == replay_effects(state@),
{
    match &state.current_song {
        Some(song) => Effects {
            say: Some(Say { tone: Tone::Note, text: labelled("Replaying: ", &song.title) }),
            request: Some(Request::Play { track_id: song.id }),
            sink: SinkOrder::Nothing,
            exit: false,
        },
        None => say(Tone::Bad, "No song to replay"),
    }
}

/// Pauses a playing sink and plays a paused one.
pub fn handle_pause(paused: bool) -> (out: Effects)
    ensures
        out@ == pause_effects(paused),
{
    if paused {
        Effects {
            say: Some(Say { tone: Tone::Good, text: String::from_str("Playing...") }),
            request: None,
            sink: SinkOrder::Play,
            exit: false,
        }
    } else {
        Effects {
            say: Some(Say { tone: Tone::Good, text: String::from_str("Paused.") }),
            request: None,
            sink: SinkOrder::Pause,
            exit: false,
        }
    }
}

/// Empties the queue and the sink.
pub fn handle_clear(state: &mut ClientStateStruct) -> (out: Effects)
    ensures
        final(state)@ == old(state)@.cleared(),
        out@ == clear_effects(),
{
    state.clear();
    Effects {
        say: Some(Say { tone: Tone::Good, text: String::from_str("Clearing queue...") }),
        request: None,
        sink: SinkOrder::Clear,
        exit: false,
    }
}

/// Steps through the queue by `n` tracks, back or forward, and plays the
/// track that this leads to.
pub fn handle_next_prev(state: &mut ClientStateStruct, back: bool, n: usize) -> (out: Effects)
    ensures
        final(state)@ == stepped(old(state)@, back, n as nat),
        out@ == step_effects(final(state)@),
{
    let _ = if back {
        get_prev_song(state, n)
    } else {
        get_next_song(state, n)
    };
    if state.queue.len() == 0 {
        return say(Tone::Bad, "Queue Empty!");
    }
    match &state.current_song {
        Some(song) => Effects {
            say: Some(Say { tone: Tone::Note, text: labelled("Playing: ", &song.title) }),
            request: Some(Request::Play { track_id: song.id }),
            sink: SinkOrder::Nothing,
            exit: false,
        },
        None => say(Tone::Bad, "Queue Empty!"),
    }
}

/// The rows that show the queue, the current track marked.
pub fn make_queue_rows(state: &ClientStateStruct) -> (rows: Vec<SongTable>)
    ensures
        rows_view(rows@) == queue_rows(state@.entries, state@.current),
{
    let mut rows: Vec<SongTable> = Vec::new();
    let mut i: usize = 0;
    while i < state.queue.len()
        invariant
            i <= state.queue@.len(),
            rows@.len() == i,
            forall|j: int|
                0 <= j < i ==> rows@[j]@ == queue_rows(state@.entries, state@.current)[j],
        decreases state.queue.len() - i,
    {
        let song = &state.queue[i];
        let playing = match &state.current_song {
            Some(current) => current.id == song.id,
            None => false,
        };
        assert(state@.entries[i as int] == song@);
        rows.push(make_row(0, song, playing));
        i += 1;
    }
    assert(rows_view(rows@) =~= queue_rows(state@.entries, state@.current));
    rows
}

/// Shows the queue as a table, the current track marked.
pub fn handle_show(state: &ClientStateStruct) -> (out: Effects)
    ensures
        out@ == show_effects(state@),
{
    if state.queue.len() == 0 {
        say(Tone::Note, "Queue is Empty.")
    } else {
        let rows = make_queue_rows(state);
        Effects {
            say: Some(Say { tone: Tone::Note, text: render_queue(&rows) }),
            request: None,
            sink: SinkOrder::Nothing,
            exit: false,
        }
    }
}

/// Turns a playlist command into the request that carries it out; a new
/// playlist is made of the queue as it is.
pub fn handle_playlist(command: PlaylistCommand, state: &ClientStateStruct) -> (out: Effects)
    ensures
        out@ == playlist_effects(Command::Playlist(command)@, state@),
{
    match command {
        PlaylistCommand::New(name) => Effects {
            say: Some(Say { tone: Tone::Good, text: labelled("Creating new playlist: ", &name) }),
            request: Some(
                Request::Playlist(
                    PlaylistRequest::Create { name, songs: clone_metas(&state.queue) },
                ),
            ),
            sink: SinkOrder::Nothing,
            exit: false,
        },
        PlaylistCommand::Load(name) => Effects {
            say: Some(Say { tone: Tone::Good, text: labelled("Loading playlist: ", &name) }),
            request: Some(Request::Playlist(PlaylistRequest::Get { name })),
            sink: SinkOrder::Nothing,
            exit: false,
        },
        PlaylistCommand::List => ask(Request::Playlist(PlaylistRequest::List)),
    }
}

/// Turns a search into the request that carries it out.
pub fn handle_search(query: SearchType) -> (out: Effects)
    ensures
        out@ == only_request(RequestView::Search(query@)),
{
    ask(Request::Search(query))
}

/// Carries out `command` on the queue and says what else has to happen:
/// what to tell the user, what to ask of the server, what to do with the
/// sink, and whether to leave.
pub fn run_command(command: Command, state: &mut ClientStateStruct, paused: bool) -> (out: Effects)
    ensures
        (final(state)@, out@) == outcome(command@, old(state)@, paused),
{
    match command {
        Command::Add(text) => handle_search(SearchType::ByTitle(to_lowercase(text.as_str()))),
        Command::Clear => handle_clear(state),
        Command::Exit => Effects {
            say: Some(Say { tone: Tone::Good, text: String::from_str("Exiting...") }),
            request: None,
            sink: SinkOrder::Stop,
            exit: true,
        },
        Command::Next(n) => handle_next_prev(state, false, n),
        Command::Prev(n) => handle_next_prev(state, true, n),
        Command::Toggle => handle_pause(paused),
        Command::Playlist(command) => handle_playlist(command, state),
        Command::Replay => handle_replay(state),
        Command::Show(ShowCommand::All) => handle_show(state),
        Command::Show(ShowCommand::Current) => {
            match &state.current_song {
                Some(song) => Effects {
                    say: Some(Say { tone: Tone::Note, text: labelled("Playing: ", &song.title) }),
                    request: None,
                    sink: SinkOrder::Nothing,
                    exit: false,
                },
                None => say(Tone::Bad, "Nothing is playing."),
            }
        },
        Command::TrackEnd => {
            let _ = get_next_song(state, 1);
            match state.current_track() {
                Some(track_id) => ask(Request::Play { track_id }),
                None => Effects { say: None, request: None, sink: SinkOrder::Nothing, exit: false },
            }
        },
        Command::Search(s) => handle_search(s),
    }
}

/// What became of a typed line.
#[derive(Clone, Debug, PartialEq, Eq)]
pub enum Turn {
    /// The line held a command, which was carried out with these effects.
    Ran(Effects),
    /// The line held no command; nothing happened.
    Rejected(Line),
}

/// Mathematical value of a [`Turn`].
pub enum TurnView {
    Ran(EffectsView),
    Rejected(LineView),
}

impl View for Turn {
    type V = TurnView;

    open spec fn view(&self) -> TurnView {
        match self {
            Turn::Ran(e) => TurnView::Ran(e@),
            Turn::Rejected(l) => TurnView::Rejected(l@),
        }
    }
}

/// The queue and the turn after the line `line` was typed.
pub open spec fn prompted(line: Seq<char>, queue: QueueView, paused: bool) -> (
    QueueView,
    TurnView,
) {
    match line_of(words(line)) {
        LineView::Run(command) => (
            outcome(command, queue, paused).0,
            TurnView::Ran(outcome(command, queue, paused).1),
        ),
        other => (queue, TurnView::Rejected(other)),
    }
}

/// Takes one typed line: reads it and, where it holds a command, carries the
/// command out.
pub fn musicman_prompt(line: &str, state: &mut ClientStateStruct, paused: bool) -> (out: Turn)
    ensures
        (final(state)@, out@) == prompted(line@, old(state)@, paused),
{
    match parse_command(line) {
        Line::Run(command) => Turn::Ran(run_command(command, state, paused)),
        other => Turn::Rejected(other),
    }
}

} // verus!
