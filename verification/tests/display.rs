use musicman::display::{
    format_duration, join_artists, make_numbered_rows, make_row, render_queue, render_results,
    PlayingDisplay, SongTable,
};
use musicman::track::{SongMeta, TrackId};
use tabled::builder::Builder;
use tabled::settings::Style;

fn song(title: &str, artists: &[&str], duration: u32) -> SongMeta {
    SongMeta {
        id: TrackId::from_path(title),
        title: title.to_string(),
        artists: artists.iter().map(|a| a.to_string()).collect(),
        duration,
        path: format!("/{title}.mp3"),
    }
}

#[test]
fn durations_are_minutes_and_seconds() {
    assert_eq!(format_duration(0), "0m0s");
    assert_eq!(format_duration(59), "0m59s");
    assert_eq!(format_duration(60), "1m0s");
    assert_eq!(format_duration(205), "3m25s");
    assert_eq!(format_duration(3600), "60m0s");
    assert_eq!(format_duration(u32::MAX), "71582788m15s");
}

#[test]
fn artists_are_joined_with_commas() {
    assert_eq!(join_artists(&vec![]), "");
    assert_eq!(join_artists(&vec!["Queen".to_string()]), "Queen");
    assert_eq!(
        join_artists(&vec!["A".to_string(), "".to_string(), "C D".to_string()]),
        "A, , C D"
    );
}

#[test]
fn playing_marker() {
    assert_eq!(PlayingDisplay(true).text(), "▶");
    assert_eq!(PlayingDisplay(false).text(), " ");
}

#[test]
fn rows_are_numbered_from_one() {
    let rows = make_numbered_rows(&vec![song("A", &["x"], 1), song("B", &["y", "z"], 61)]);
    assert_eq!(
        rows,
        vec![
            SongTable {
                id: 1,
                playing: PlayingDisplay(false),
                title: "A".to_string(),
                artists: "x".to_string(),
                duration: "0m1s".to_string()
            },
            SongTable {
                id: 2,
                playing: PlayingDisplay(false),
                title: "B".to_string(),
                artists: "y, z".to_string(),
                duration: "1m1s".to_string()
            },
        ]
    );
    assert_eq!(make_row(7, &song("Q", &[], 0), true).playing, PlayingDisplay(true));
}

#[test]
fn result_table_is_laid_out_by_tabled() {
    let rows = make_numbered_rows(&vec![song("Imagine", &["John Lennon"], 183)]);
    let mut builder = Builder::new();
    builder.push_record(["Sl.no", "Title", "Artists", "Length"]);
    builder.push_record(["1", "Imagine", "John Lennon", "3m3s"]);
    let expected = builder.build().with(Style::rounded()).to_string();
    let text = render_results(&rows);
    assert_eq!(text, expected);
    assert_eq!(
        text,
        "╭───────┬─────────┬─────────────┬────────╮\n\
         │ Sl.no │ Title   │ Artists     │ Length │\n\
         ├───────┼─────────┼─────────────┼────────┤\n\
         │ 1     │ Imagine │ John Lennon │ 3m3s   │\n\
         ╰───────┴─────────┴─────────────┴────────╯"
    );
}

#[test]
fn queue_table_shows_the_marker_column() {
    let rows = vec![make_row(0, &song("A", &["x"], 5), false), make_row(0, &song("B", &["y"], 6), true)];
    let mut builder = Builder::new();
    builder.push_record(["*", "Title", "Artists", "Length"]);
    builder.push_record([" ", "A", "x", "0m5s"]);
    builder.push_record(["▶", "B", "y", "0m6s"]);
    let expected = builder.build().with(Style::rounded()).to_string();
    assert_eq!(render_queue(&rows), expected);
}
