//! The exchange with the user that follows a search or a playlist answer:
//! what is shown, how the typed answer is read, and what it does to the
//! queue.

use crate::display::{
    make_numbered_rows, make_playlist_rows, numbered_rows, playlist_cells, playlist_rows,
    render_playlists, render_results, result_cells, rounded_table,
};
use crate::protocol::{PlaylistResponse, PlaylistResponseView};
use crate::queue::{ClientStateStruct, QueueView};
use crate::text::{
    chars_of, decimal, is_word, lines_view, number, parse_number, push_decimal, push_str,
    split_words, string_of, words,
};
use crate::track::{metas_view, SongMeta, SongMetaView, TrackId};
use vstd::prelude::*;

verus! {

/// What the connection reader asks of the user interface.
#[derive(Clone, Debug, PartialEq, Eq)]
pub enum UiRequest {
    /// Show `s` and ask for one line of text under the label `prompt`.
    Prompt { s: String, prompt: String },
    /// Show a text.
    Display(String),
    /// The connection is gone: stop.
    Shutdown,
}

/// The line that the user typed in answer to a prompt.
#[derive(Clone, Debug, PartialEq, Eq)]
pub struct UiResponse(pub String);

/// Mathematical value of a [`UiRequest`].
pub enum UiRequestView {
    Prompt { s: Seq<char>, prompt: Seq<char> },
    Display(Seq<char>),
    Shutdown,
}

impl View for UiRequest {
    type V = UiRequestView;

    open spec fn view(&self) -> UiRequestView {
        match self {
            UiRequest::Prompt { s, prompt } => UiRequestView::Prompt { s: s@, prompt: prompt@ },
            UiRequest::Display(text) => UiRequestView::Display(text@),
            UiRequest::Shutdown => UiRequestView::Shutdown,
        }
    }
}

/// The largest result list that is offered for picking.
pub const MAX_MATCHES: usize = 100;

/// The message that says how many tracks were queued.
pub open spec fn added_text(count: nat) -> Seq<char> {
    "Added "@ + decimal(count) + " songs to queue."@
}

/// The message that turns down a result list that is too long.
pub open spec fn too_many_text(count: nat) -> Seq<char> {
    "More than "@ + decimal(count) + " matches, please be more specific."@
}

fn added_message(count: usize) -> (out: String)
    ensures
        out@ == added_text(count as nat),
{
    let mut chars: Vec<char> = Vec::new();
    push_str(&mut chars, "Added ");
    push_decimal(&mut chars, count as u64);
    push_str(&mut chars, " songs to queue.");
    string_of(&chars)
}

/// What the user is shown when `songs` come back from a search.
pub open spec fn search_prompt_for(songs: Seq<SongMetaView>) -> UiRequestView {
    if songs.len() == 0 {
        UiRequestView::Display("No results."@)
    } else if songs.len() > MAX_MATCHES {
        UiRequestView::Display(too_many_text(songs.len()))
    } else {
        UiRequestView::Prompt {
            s: rounded_table(result_cells(numbered_rows(songs))),
            prompt: "Pick (*, nums)"@,
        }
    }
}

/// Decides what to show for the results of a search: a notice where there is
/// nothing or too much to pick from, else the numbered list with a prompt.
pub fn search_prompt(songs: &Vec<SongMeta>) -> (request: UiRequest)
    ensures
        request@ == search_prompt_for(metas_view(songs@)),
{
    if songs.len() == 0 {
        UiRequest::Display(String::from_str("No results."))
    } else if songs.len() > MAX_MATCHES {
        let mut chars: Vec<char> = Vec::new();
        push_str(&mut chars, "More than ");
        push_decimal(&mut chars, songs.len() as u64);
        push_str(&mut chars, " matches, please be more specific.");
        UiRequest::Display(string_of(&chars))
    } else {
        let rows = make_numbered_rows(songs);
        UiRequest::Prompt {
            s: render_results(&rows),
            prompt: String::from_str("Pick (*, nums)"),
        }
    }
}

/// The position that `word` picks in a list of `count` entries: the word
/// writes a number between 1 and `count`.
pub open spec fn pick(word: Seq<char>, count: nat) -> Option<int> {
    match number(word) {
        Some(n) => if 1 <= n <= count {
            Some(n - 1)
        } else {
            None
        },
        None => None,
    }
}

/// The positions that the words `ws` pick, in the order of the words; words
/// that pick nothing are passed over.
pub open spec fn picks(ws: Seq<Seq<char>>, count: nat) -> Seq<int>
    decreases ws.len(),
{
    if ws.len() == 0 {
        Seq::empty()
    } else {
        let before = picks(ws.drop_last(), count);
        match pick(ws.last(), count) {
            Some(p) => before.push(p),
            None => before,
        }
    }
}

/// The positions, counted from 0, that `answer` selects in a list of `count`
/// entries: all of them for a lone `*`, else those its numbers name.
pub open spec fn selection(answer: Seq<char>, count: nat) -> Seq<int> {
    if words(answer) == seq![seq!['*']] {
        Seq::new(count, |i: int| i)
    } else {
        picks(words(answer), count)
    }
}

/// Reads the answer to "which of these `count` entries": the positions it
/// selects, counted from 0.
pub fn parse_selection(answer: &str, count: usize) -> (out: Vec<usize>)
    ensures
        out@.len() == selection(answer@, count as nat).len(),
        forall|i: int|
            0 <= i < out@.len() ==> out@[i] == selection(answer@, count as nat)[i] && out@[i]
                < count,
{
    let chars = chars_of(answer);
    let ws = split_words(&chars);
    let mut out: Vec<usize> = Vec::new();
    if ws.len() == 1 && is_word(&ws[0], "*") {
        proof {
            reveal_strlit("*");
            assert("*"@ =~= seq!['*']);
            assert(lines_view(ws@) =~= seq![seq!['*']]);
        }
        let mut i: usize = 0;
        while i < count
            invariant
                i <= count,
                out@.len() == i,
                forall|j: int| 0 <= j < i ==> out@[j] == j,
            decreases count - i,
        {
            out.push(i);
            i += 1;
        }
        return out;
    }
    proof {
        reveal_strlit("*");
        assert("*"@ =~= seq!['*']);
        if words(answer@) == seq![seq!['*']] {
            assert(lines_view(ws@).len() == 1);
            assert(lines_view(ws@)[0] == seq!['*']);
            assert(false);
        }
    }
    let ghost all = lines_view(ws@);
    assert(all.subrange(0, 0) =~= Seq::<Seq<char>>::empty());
    let mut i: usize = 0;
    while i < ws.len()
        invariant
            i <= ws@.len(),
            all == lines_view(ws@),
            out@.len() == picks(all.subrange(0, i as int), count as nat).len(),
            forall|j: int|
                0 <= j < out@.len() ==> out@[j] == picks(all.subrange(0, i as int), count as nat)[j]
                    && out@[j] < count,
        decreases ws.len() - i,
    {
        assert(all.subrange(0, i + 1).drop_last() =~= all.subrange(0, i as int));
        assert(all.subrange(0, i + 1).last() == ws@[i as int]@);
        match parse_number(&ws[i], count) {
            Some(n) => {
                if n >= 1 {
                    out.push(n - 1);
                }
            },
            None => {},
        }
        i += 1;
    }
    assert(all.subrange(0, i as int) =~= all);
    out
}

/// The entries of `songs` at `positions`, in that order.
pub open spec fn chosen(songs: Seq<SongMetaView>, positions: Seq<int>) -> Seq<SongMetaView> {
    Seq::new(positions.len(), |i: int| songs[positions[i]])
}

/// What follows from an answer: a text for the user and a track to ask the
/// server for.
#[derive(Clone, Debug, PartialEq, Eq)]
pub struct Reply {
    pub message: Option<String>,
    pub play: Option<TrackId>,
}

/// Mathematical value of a [`Reply`].
pub struct ReplyView {
    pub message: Option<Seq<char>>,
    pub play: Option<u128>,
}

impl View for Reply {
    type V = ReplyView;

    open spec fn view(&self) -> ReplyView {
        ReplyView {
            message: match self.message {
                Some(m) => Some(m@),
                None => None,
            },
            play: match self.play {
                Some(id) => Some(id.0),
                None => None,
            },
        }
    }
}

/// The queue and the reply after the user answered `answer` to the list
/// `songs`: the selected entries are queued in the order of the answer, the
/// user is told how many, and the first of them is played if the queue was
/// empty.
pub open spec fn search_answer(queue: QueueView, songs: Seq<SongMetaView>, answer: Seq<char>) -> (
    QueueView,
    ReplyView,
) {
    let picked = chosen(songs, selection(answer, songs.len()));
    (
        queue.enqueued(picked),
        ReplyView {
            message: Some(added_text(picked.len())),
            play: if picked.len() > 0 && queue.entries.len() == 0 {
                Some(picked[0].id)
            } else {
                None
            },
        },
    )
}

/// Whatever the user answers, a queue that satisfied the queue invariant
/// satisfies it afterwards.
pub proof fn lemma_answers_keep_queue_invariant(
    queue: QueueView,
    songs: Seq<SongMetaView>,
    answer: Seq<char>,
)
    requires
        queue.wf(),
    ensures
        search_answer(queue, songs, answer).0.wf(),
        playlist_answer(queue, songs, answer).0.wf(),
{
    crate::queue::lemma_mutation_keeps_wf(
        queue,
        chosen(songs, selection(answer, songs.len())),
    );
    crate::queue::lemma_mutation_keeps_wf(queue, songs);
}

/// Applies the user's answer to a list of search results.
pub fn handle_search_response(
    songs: &Vec<SongMeta>,
    answer: &UiResponse,
    state: &mut ClientStateStruct,
) -> (reply: Reply)
    ensures
        (final(state)@, reply@) == search_answer(old(state)@, metas_view(songs@), answer.0@),
        old(state)@.wf() ==> final(state)@.wf(),
{
    let positions = parse_selection(answer.0.as_str(), songs.len());
    let mut picked: Vec<SongMeta> = Vec::new();
    let mut i: usize = 0;
    let ghost wanted = chosen(metas_view(songs@), selection(answer.0@, songs@.len()));
    while i < positions.len()
        invariant
            i <= positions@.len(),
            positions@.len() == selection(answer.0@, songs@.len()).len(),
            forall|j: int|
                0 <= j < positions@.len() ==> positions@[j] == selection(
                    answer.0@,
                    songs@.len(),
                )[j] && positions@[j] < songs@.len(),
            wanted == chosen(metas_view(songs@), selection(answer.0@, songs@.len())),
            picked@.len() == i,
            forall|j: int| 0 <= j < i ==> picked@[j]@ == wanted[j],
        decreases positions.len() - i,
    {
        picked.push(songs[positions[i]].duplicate());
        i += 1;
    }
    assert(metas_view(picked@) =~= wanted);
    let play = state.enqueue(&picked);
    Reply { message: Some(added_message(picked.len())), play }
}

/// Whether `answer` says yes: it starts with a `y`.
pub open spec fn says_yes(answer: Seq<char>) -> bool {
    answer.len() > 0 && answer[0] == 'y'
}

/// Reads a yes/no answer.
pub fn is_yes(answer: &str) -> (yes: bool)
    ensures
        yes == says_yes(answer@),
{
    answer.unicode_len() > 0 && answer.get_char(0) == 'y'
}

/// What the user is shown when `answer` comes back for a playlist request.
pub open spec fn playlist_prompt_for(answer: PlaylistResponseView) -> UiRequestView {
    match answer {
        PlaylistResponseView::Playlists(lists) => if lists.len() == 0 {
            UiRequestView::Display("No playlists yet."@)
        } else {
            UiRequestView::Display(rounded_table(playlist_cells(playlist_rows(lists))))
        },
        PlaylistResponseView::Songs(songs) => if songs.len() == 0 {
            UiRequestView::Display("No results."@)
        } else {
            UiRequestView::Prompt {
                s: rounded_table(result_cells(numbered_rows(songs))),
                prompt: "Replace queue? (y/N)"@,
            }
        },
    }
}

/// Decides what to show for the answer to a playlist request: the list of
/// playlists, or the tracks of one playlist with the question whether they
/// shall replace the queue.
pub fn playlist_prompt(answer: &PlaylistResponse) -> (request: UiRequest)
    ensures
        request@ == playlist_prompt_for(answer@),
{
    match answer {
        PlaylistResponse::Playlists(lists) => {
            if lists.len() == 0 {
                UiRequest::Display(String::from_str("No playlists yet."))
            } else {
                let rows = make_playlist_rows(lists);
                UiRequest::Display(render_playlists(&rows))
            }
        },
        PlaylistResponse::Songs(songs) => {
            if songs.len() == 0 {
                UiRequest::Display(String::from_str("No results."))
            } else {
                let rows = make_numbered_rows(songs);
                UiRequest::Prompt {
                    s: render_results(&rows),
                    prompt: String::from_str("Replace queue? (y/N)"),
                }
            }
        },
    }
}

/// The queue and the reply after the user answered `answer` to the question
/// whether `songs` shall replace the queue.
pub open spec fn playlist_answer(queue: QueueView, songs: Seq<SongMetaView>, answer: Seq<char>) -> (
    QueueView,
    ReplyView,
) {
    if says_yes(answer) && songs.len() > 0 {
        (
            queue.cleared().enqueued(songs),
            ReplyView { message: Some(added_text(songs.len())), play: Some(songs[0].id) },
        )
    } else {
        (queue, ReplyView { message: None, play: None })
    }
}

/// Applies the user's answer to the tracks of a playlist: on a yes they
/// replace the queue and the first of them is played.
pub fn handle_playlist_response(
    songs: &Vec<SongMeta>,
    answer: &UiResponse,
    state: &mut ClientStateStruct,
) -> (reply: Reply)
    ensures
        (final(state)@, reply@) == playlist_answer(old(state)@, metas_view(songs@), answer.0@),
        old(state)@.wf() ==> final(state)@.wf(),
{
    if is_yes(answer.0.as_str()) && songs.len() > 0 {
        let play = state.replace(songs);
        Reply { message: Some(added_message(songs.len())), play: Some(play) }
    } else {
        Reply { message: None, play: None }
    }
}

} // verus!
