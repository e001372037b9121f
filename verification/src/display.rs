//! Rows and tables shown to the user: search results, the queue, playlists.

use crate::text::{decimal, push_decimal, push_str, string_of};
use crate::protocol::{playlists_view, Playlist, PlaylistView};
use crate::track::{metas_view, strings_view, SongMeta, SongMetaView};
use std::iter::FromIterator;
use vstd::prelude::*;

verus! {

/// Marks the row of the track that is playing.
#[derive(Clone, Copy, Debug, PartialEq, Eq)]
pub struct PlayingDisplay(pub bool);

/// One track as a table row.
#[derive(Clone, Debug, PartialEq, Eq)]
pub struct SongTable {
    pub id: usize,
    pub playing: PlayingDisplay,
    pub title: String,
    pub artists: String,
    pub duration: String,
}

/// One playlist as a table row.
#[derive(Clone, Debug, PartialEq, Eq)]
pub struct PlaylistTable {
    pub id: usize,
    pub name: String,
    pub length: usize,
}

/// Mathematical value of a [`SongTable`].
pub struct SongRow {
    pub id: nat,
    pub playing: bool,
    pub title: Seq<char>,
    pub artists: Seq<char>,
    pub duration: Seq<char>,
}

impl View for SongTable {
    type V = SongRow;

    open spec fn view(&self) -> SongRow {
        SongRow {
            id: self.id as nat,
            playing: self.playing.0,
            title: self.title@,
            artists: self.artists@,
            duration: self.duration@,
        }
    }
}

/// The views of a sequence of rows.
pub open spec fn rows_view(v: Seq<SongTable>) -> Seq<SongRow> {
    Seq::new(v.len(), |i: int| v[i]@)
}

/// The text of the marker: a triangle on the playing row, a blank elsewhere.
pub open spec fn playing_text(playing: bool) -> Seq<char> {
    if playing {
        seq!['\u{25b6}']
    } else {
        seq![' ']
    }
}

impl PlayingDisplay {
    /// The marker as text.
    pub fn text(&self) -> (out: String)
        ensures
            out@ == playing_text(self.0),
    {
        let mut chars: Vec<char> = Vec::new();
        if self.0 {
            chars.push('\u{25b6}');
        } else {
            chars.push(' ');
        }
        assert(chars@ =~= playing_text(self.0));
        string_of(&chars)
    }
}

/// A duration of `seconds` as minutes and seconds: `3m25s`.
pub open spec fn duration_text(seconds: u32) -> Seq<char> {
    decimal((seconds / 60) as nat) + seq!['m'] + decimal((seconds % 60) as nat) + seq!['s']
}

/// Writes a duration as minutes and seconds.
pub fn format_duration(seconds: u32) -> (out: String)
    ensures
        out@ == duration_text(seconds),
{
    let mut chars: Vec<char> = Vec::new();
    push_decimal(&mut chars, (seconds / 60) as u64);
    chars.push('m');
    push_decimal(&mut chars, (seconds % 60) as u64);
    chars.push('s');
    assert(chars@ =~= duration_text(seconds));
    string_of(&chars)
}

/// `names` separated by a comma and a space.
pub open spec fn comma_list(names: Seq<Seq<char>>) -> Seq<char>
    decreases names.len(),
{
    if names.len() == 0 {
        Seq::empty()
    } else if names.len() == 1 {
        names[0]
    } else {
        comma_list(names.drop_last()) + seq![',', ' '] + names.last()
    }
}

/// Joins `names` with a comma and a space.
pub fn join_artists(names: &Vec<String>) -> (out: String)
    ensures
        out@ == comma_list(strings_view(names@)),
{
    let mut chars: Vec<char> = Vec::new();
    let mut i: usize = 0;
    let ghost all = strings_view(names@);
    assert(all.subrange(0, 0) =~= Seq::<Seq<char>>::empty());
    while i < names.len()
        invariant
            i <= names@.len(),
            all == strings_view(names@),
            chars@ == comma_list(all.subrange(0, i as int)),
        decreases names.len() - i,
    {
        assert(all.subrange(0, i + 1).drop_last() =~= all.subrange(0, i as int));
        assert(all.subrange(0, i + 1).last() == names@[i as int]@);
        let ghost before = chars@;
        if i > 0 {
            chars.push(',');
            chars.push(' ');
            assert(chars@ =~= before + seq![',', ' ']);
        }
        push_str(&mut chars, names[i].as_str());
        i += 1;
    }
    assert(all.subrange(0, i as int) =~= all);
    string_of(&chars)
}

/// The row that shows `meta` at position `id`.
pub open spec fn song_row(id: nat, meta: SongMetaView, playing: bool) -> SongRow {
    SongRow {
        id,
        playing,
        title: meta.title,
        artists: comma_list(meta.artists),
        duration: duration_text(meta.duration),
    }
}

/// Builds the row that shows `meta` at position `id`.
pub fn make_row(id: usize, meta: &SongMeta, playing: bool) -> (row: SongTable)
    ensures
        row@ == song_row(id as nat, meta@, playing),
{
    SongTable {
        id,
        playing: PlayingDisplay(playing),
        title: meta.title.clone(),
        artists: join_artists(&meta.artists),
        duration: format_duration(meta.duration),
    }
}

/// The rows of a result list: numbered from 1, none marked as playing.
pub open spec fn numbered_rows(songs: Seq<SongMetaView>) -> Seq<SongRow> {
    Seq::new(songs.len(), |i: int| song_row((i + 1) as nat, songs[i], false))
}

/// Builds the rows of a result list.
pub fn make_numbered_rows(songs: &Vec<SongMeta>) -> (rows: Vec<SongTable>)
    ensures
        rows_view(rows@) == numbered_rows(metas_view(songs@)),
{
    let mut rows: Vec<SongTable> = Vec::new();
    let mut i: usize = 0;
    while i < songs.len()
        invariant
            i <= songs@.len(),
            rows@.len() == i,
            forall|j: int| 0 <= j < i ==> rows@[j]@ == song_row((j + 1) as nat, songs@[j]@, false),
        decreases songs.len() - i,
    {
        rows.push(make_row(i + 1, &songs[i], false));
        i += 1;
    }
    assert(rows_view(rows@) =~= numbered_rows(metas_view(songs@)));
    rows
}

/// The rows of the queue: the rows of the current track are marked.
pub open spec fn queue_rows(songs: Seq<SongMetaView>, current: Option<SongMetaView>) -> Seq<
    SongRow,
> {
    Seq::new(
        songs.len(),
        |i: int| song_row(0, songs[i], current is Some && current->0.id == songs[i].id),
    )
}

/// The text of a table with rounded borders: `cells` holds the rows, the
/// header first, each row as the texts of its cells.
pub uninterp spec fn rounded_table(cells: Seq<Seq<Seq<char>>>) -> Seq<char>;

/// The contents of a grid of cell texts.
pub open spec fn cells_view(v: Seq<Vec<String>>) -> Seq<Seq<Seq<char>>> {
    Seq::new(v.len(), |i: int| strings_view(v[i]@))
}

/// Lays the rows out with `tabled::Table::from_iter`, applies
/// `tabled::settings::Style::rounded` and writes the table to a string. The
/// text depends on the cells alone: the contract gives it the name
/// `rounded_table` and claims nothing else of it.
#[verifier::external_body]
fn render_rounded(cells: &Vec<Vec<String>>) -> (out: String)
    ensures
        out@ == rounded_table(cells_view(cells@)),
{
    tabled::Table::from_iter(cells.clone()).with(tabled::settings::Style::rounded()).to_string()
}

/// The cells of a table of results: position, title, artists and length.
pub open spec fn result_cells(rows: Seq<SongRow>) -> Seq<Seq<Seq<char>>> {
    Seq::new(
        rows.len() + 1,
        |i: int|
            if i == 0 {
                seq!["Sl.no"@, "Title"@, "Artists"@, "Length"@]
            } else {
                seq![
                    decimal(rows[i - 1].id),
                    rows[i - 1].title,
                    rows[i - 1].artists,
                    rows[i - 1].duration,
                ]
            },
    )
}

/// The cells of the queue table: marker, title, artists and length.
pub open spec fn queue_cells(rows: Seq<SongRow>) -> Seq<Seq<Seq<char>>> {
    Seq::new(
        rows.len() + 1,
        |i: int|
            if i == 0 {
                seq!["*"@, "Title"@, "Artists"@, "Length"@]
            } else {
                seq![
                    playing_text(rows[i - 1].playing),
                    rows[i - 1].title,
                    rows[i - 1].artists,
                    rows[i - 1].duration,
                ]
            },
    )
}

fn literal(text: &str) -> (out: String)
    ensures
        out@ == text@,
{
    String::from_str(text)
}

fn number_text(n: usize) -> (out: String)
    ensures
        out@ == decimal(n as nat),
{
    let mut chars: Vec<char> = Vec::new();
    push_decimal(&mut chars, n as u64);
    string_of(&chars)
}

/// The table of a result list, as text.
pub fn render_results(rows: &Vec<SongTable>) -> (out: String)
    ensures
        out@ == rounded_table(result_cells(rows_view(rows@))),
{
    let mut cells: Vec<Vec<String>> = Vec::new();
    cells.push(vec![literal("Sl.no"), literal("Title"), literal("Artists"), literal("Length")]);
    let mut i: usize = 0;
    while i < rows.len()
        invariant
            i <= rows@.len(),
            cells@.len() == i + 1,
            forall|j: int|
                0 <= j <= i ==> strings_view(#[trigger] cells@[j]@) == result_cells(
                    rows_view(rows@),
                )[j],
        decreases rows.len() - i,
    {
        let row = &rows[i];
        let line = vec![
            number_text(row.id),
            row.title.clone(),
            row.artists.clone(),
            row.duration.clone(),
        ];
        assert(strings_view(line@) =~= result_cells(rows_view(rows@))[i + 1]);
        cells.push(line);
        i += 1;
    }
    assert(cells_view(cells@) =~= result_cells(rows_view(rows@)));
    render_rounded(&cells)
}

/// The table of the queue, as text.
pub fn render_queue(rows: &Vec<SongTable>) -> (out: String)
    ensures
        out@ == rounded_table(queue_cells(rows_view(rows@))),
{
    let mut cells: Vec<Vec<String>> = Vec::new();
    cells.push(vec![literal("*"), literal("Title"), literal("Artists"), literal("Length")]);
    let mut i: usize = 0;
    while i < rows.len()
        invariant
            i <= rows@.len(),
            cells@.len() == i + 1,
            forall|j: int|
                0 <= j <= i ==> strings_view(#[trigger] cells@[j]@) == queue_cells(
                    rows_view(rows@),
                )[j],
        decreases rows.len() - i,
    {
        let row = &rows[i];
        let line = vec![
            row.playing.text(),
            row.title.clone(),
            row.artists.clone(),
            row.duration.clone(),
        ];
        assert(strings_view(line@) =~= queue_cells(rows_view(rows@))[i + 1]);
        cells.push(line);
        i += 1;
    }
    assert(cells_view(cells@) =~= queue_cells(rows_view(rows@)));
    render_rounded(&cells)
}

/// Mathematical value of a [`PlaylistTable`].
pub struct PlaylistRow {
    pub id: nat,
    pub name: Seq<char>,
    pub length: nat,
}

impl View for PlaylistTable {
    type V = PlaylistRow;

    open spec fn view(&self) -> PlaylistRow {
        PlaylistRow { id: self.id as nat, name: self.name@, length: self.length as nat }
    }
}

/// The views of a sequence of playlist rows.
pub open spec fn playlist_rows_view(v: Seq<PlaylistTable>) -> Seq<PlaylistRow> {
    Seq::new(v.len(), |i: int| v[i]@)
}

/// The rows that list `lists`, numbered from 1.
pub open spec fn playlist_rows(lists: Seq<PlaylistView>) -> Seq<PlaylistRow> {
    Seq::new(
        lists.len(),
        |i: int| PlaylistRow { id: (i + 1) as nat, name: lists[i].name, length: lists[i].len },
    )
}

/// Builds the rows that list `lists`.
pub fn make_playlist_rows(lists: &Vec<Playlist>) -> (rows: Vec<PlaylistTable>)
    ensures
        playlist_rows_view(rows@) == playlist_rows(playlists_view(lists@)),
{
    let mut rows: Vec<PlaylistTable> = Vec::new();
    let mut i: usize = 0;
    while i < lists.len()
        invariant
            i <= lists@.len(),
            rows@.len() == i,
            forall|j: int| 0 <= j < i ==> rows@[j]@ == playlist_rows(playlists_view(lists@))[j],
        decreases lists.len() - i,
    {
        rows.push(PlaylistTable { id: i + 1, name: lists[i].name.clone(), length: lists[i].len });
        i += 1;
    }
    assert(playlist_rows_view(rows@) =~= playlist_rows(playlists_view(lists@)));
    rows
}

/// The cells of the table of playlists: position, name and number of tracks.
pub open spec fn playlist_cells(rows: Seq<PlaylistRow>) -> Seq<Seq<Seq<char>>> {
    Seq::new(
        rows.len() + 1,
        |i: int|
            if i == 0 {
                seq!["Sl.no"@, "Title"@, "Entries"@]
            } else {
                seq![decimal(rows[i - 1].id), rows[i - 1].name, decimal(rows[i - 1].length)]
            },
    )
}

/// The table of playlists, as text.
pub fn render_playlists(rows: &Vec<PlaylistTable>) -> (out: String)
    ensures
        out@ == rounded_table(playlist_cells(playlist_rows_view(rows@))),
{
    let ghost want = playlist_cells(playlist_rows_view(rows@));
    let mut cells: Vec<Vec<String>> = Vec::new();
    cells.push(vec![literal("Sl.no"), literal("Title"), literal("Entries")]);
    let mut i: usize = 0;
    while i < rows.len()
        invariant
            i <= rows@.len(),
            cells@.len() == i + 1,
            want == playlist_cells(playlist_rows_view(rows@)),
            forall|j: int| 0 <= j <= i ==> strings_view(#[trigger] cells@[j]@) == want[j],
        decreases rows.len() - i,
    {
        let row = &rows[i];
        let line = vec![number_text(row.id), row.name.clone(), number_text(row.length)];
        assert(strings_view(line@) =~= want[i + 1]);
        cells.push(line);
        i += 1;
    }
    assert(cells_view(cells@) =~= want);
    render_rounded(&cells)
}

} // verus!
