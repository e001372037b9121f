//! What the line editor needs to know about the command language: which
//! words are commands, which subcommands they take, and how a line is
//! coloured while it is typed.

use crate::text::{
    chars_of, is_space, is_space_char, is_word, join_words, joined, lines_view, split_words,
    string_of, words,
};
use vstd::prelude::*;

verus! {

/// The command words, the subcommands of those that have any, and the
/// command forms that take free text after them.
pub struct MusicmanHighlighter {
    pub commands: Vec<&'static str>,
    pub subcommands: Vec<(&'static str, Vec<&'static str>)>,
    pub takes_parameters: Vec<&'static str>,
}

/// The texts of a sequence of words.
pub open spec fn strs_view(v: Seq<&'static str>) -> Seq<Seq<char>> {
    Seq::new(v.len(), |i: int| v[i]@)
}

/// The texts of a sequence of commands with their subcommands.
pub open spec fn subcommands_view(v: Seq<(&'static str, Vec<&'static str>)>) -> Seq<
    (Seq<char>, Seq<Seq<char>>),
> {
    Seq::new(v.len(), |i: int| (v[i].0@, strs_view(v[i].1@)))
}

/// The words that start a command.
pub open spec fn command_words() -> Seq<Seq<char>> {
    seq![
        "clear"@,
        "exit"@,
        "ls"@,
        "next"@,
        "p"@,
        "pause"@,
        "pl"@,
        "playlist"@,
        "prev"@,
        "replay"@,
        "search"@,
        "show"@,
    ]
}

/// The subcommands of the playlist commands.
pub open spec fn playlist_subcommands() -> Seq<Seq<char>> {
    seq!["new"@, "load"@, "show"@, "ls"@]
}

/// The selectors of the search command.
pub open spec fn search_subcommands() -> Seq<Seq<char>> {
    seq!["artist"@, "a"@, "title"@, "t"@]
}

/// The commands that have subcommands, each with its subcommands.
pub open spec fn subcommand_table() -> Seq<(Seq<char>, Seq<Seq<char>>)> {
    seq![
        ("pl"@, playlist_subcommands()),
        ("playlist"@, playlist_subcommands()),
        ("search"@, search_subcommands()),
    ]
}

/// The command forms after which free text is expected.
pub open spec fn parameter_forms() -> Seq<Seq<char>> {
    seq![
        "pl load"@,
        "pl new"@,
        "playlist load"@,
        "playlist new"@,
        "search a"@,
        "search t"@,
        "search artist"@,
        "search title"@,
    ]
}

impl MusicmanHighlighter {
    /// The highlighter of the command language.
    pub fn new() -> (h: MusicmanHighlighter)
        ensures
            strs_view(h.commands@) == command_words(),
            subcommands_view(h.subcommands@) == subcommand_table(),
            strs_view(h.takes_parameters@) == parameter_forms(),
    {
        let commands = vec![
            "clear", "exit", "ls", "next", "p", "pause", "pl", "playlist", "prev", "replay",
            "search", "show",
        ];
        let for_pl = vec!["new", "load", "show", "ls"];
        let for_playlist = vec!["new", "load", "show", "ls"];
        let for_search = vec!["artist", "a", "title", "t"];
        assert(strs_view(for_pl@) =~= playlist_subcommands());
        assert(strs_view(for_playlist@) =~= playlist_subcommands());
        assert(strs_view(for_search@) =~= search_subcommands());
        let subcommands = vec![("pl", for_pl), ("playlist", for_playlist), ("search", for_search)];
        let takes_parameters = vec![
            "pl load",
            "pl new",
            "playlist load",
            "playlist new",
            "search a",
            "search t",
            "search artist",
            "search title",
        ];
        assert(strs_view(commands@) =~= command_words());
        assert(subcommands_view(subcommands@) =~= subcommand_table());
        assert(strs_view(takes_parameters@) =~= parameter_forms());
        MusicmanHighlighter { commands, subcommands, takes_parameters }
    }
}

/// How a piece of a typed line is shown.
#[derive(Clone, Copy, Debug, PartialEq, Eq, Structural)]
pub enum Shade {
    /// A known command.
    Command,
    /// A known subcommand of the command in front of it.
    Subcommand,
    /// Free text after a command form that takes some.
    Parameter,
    /// A word that is no command where one is due.
    Unknown,
    /// Text that the command in front of it will not look at.
    Ignored,
}

/// The pieces that a line is shown in: each piece ends with a blank or with
/// the line, and the pieces together are the line.
pub open spec fn pieces(line: Seq<char>) -> Seq<Seq<char>>
    decreases line.len(),
{
    if line.len() == 0 {
        Seq::empty()
    } else if line.len() == 1 || line[line.len() - 2] == ' ' {
        pieces(line.drop_last()).push(seq![line.last()])
    } else {
        let before = pieces(line.drop_last());
        before.drop_last().push(before.last().push(line.last()))
    }
}

/// `s` without the spaces at its end.
pub open spec fn trim_end(s: Seq<char>) -> Seq<char>
    decreases s.len(),
{
    if s.len() > 0 && is_space(s.last()) {
        trim_end(s.drop_last())
    } else {
        s
    }
}

/// Whether `word` is a subcommand of `command` according to `table`: the
/// first entry for `command` decides.
pub open spec fn is_subcommand(
    table: Seq<(Seq<char>, Seq<Seq<char>>)>,
    command: Seq<char>,
    word: Seq<char>,
) -> bool
    decreases table.len(),
{
    if table.len() == 0 {
        false
    } else if table[0].0 == command {
        table[0].1.contains(word)
    } else {
        is_subcommand(table.drop_first(), command, word)
    }
}

/// The command form that a line starts with: its first two words, or its
/// only word, joined by a blank.
pub open spec fn command_form(ws: Seq<Seq<char>>) -> Seq<char> {
    if ws.len() >= 2 {
        joined(ws.subrange(0, 2))
    } else {
        joined(ws)
    }
}

impl MusicmanHighlighter {
    /// How piece number `i` of `line` is shown.
    pub open spec fn shade(&self, line: Seq<char>, i: int) -> Shade {
        let word = trim_end(pieces(line)[i]);
        let ws = words(line);
        if i == 0 {
            if strs_view(self.commands@).contains(word) {
                Shade::Command
            } else {
                Shade::Unknown
            }
        } else if i == 1 {
            let first = if ws.len() > 0 {
                ws[0]
            } else {
                Seq::empty()
            };
            if is_subcommand(subcommands_view(self.subcommands@), first, word) {
                Shade::Subcommand
            } else {
                Shade::Unknown
            }
        } else {
            if strs_view(self.takes_parameters@).contains(command_form(ws)) {
                Shade::Parameter
            } else {
                Shade::Ignored
            }
        }
    }

    /// The pieces of `line`, each with the way it is shown.
    pub fn highlight(&self, line: &str) -> (out: Vec<(Shade, String)>)
        ensures
            out@.len() == pieces(line@).len(),
            forall|i: int|
                0 <= i < out@.len() ==> (#[trigger] out@[i]).0 == self.shade(line@, i) && out@[i].1@
                    == pieces(line@)[i],
    {
        let chars = chars_of(line);
        let parts = split_pieces(&chars);
        let ws = split_words(&chars);
        let form = if ws.len() >= 2 {
            let two = vec![ws[0].clone(), ws[1].clone()];
            assert(lines_view(two@) =~= lines_view(ws@).subrange(0, 2));
            assert(lines_view(two@).skip(0) =~= lines_view(two@));
            join_words(&two, 0)
        } else {
            assert(lines_view(ws@).skip(0) =~= lines_view(ws@));
            join_words(&ws, 0)
        };
        let first: Vec<char> = if ws.len() > 0 {
            ws[0].clone()
        } else {
            Vec::new()
        };
        let takes_text = holds(&self.takes_parameters, &form);
        let mut out: Vec<(Shade, String)> = Vec::new();
        let mut i: usize = 0;
        while i < parts.len()
            invariant
                i <= parts@.len(),
                lines_view(parts@) == pieces(line@),
                lines_view(ws@) == words(line@),
                form@ == command_form(words(line@)),
                first@ == (if words(line@).len() > 0 {
                    words(line@)[0]
                } else {
                    Seq::empty()
                }),
                takes_text == strs_view(self.takes_parameters@).contains(form@),
                out@.len() == i,
                forall|j: int|
                    0 <= j < i ==> (#[trigger] out@[j]).0 == self.shade(line@, j) && out@[j].1@
                        == pieces(line@)[j],
            decreases parts.len() - i,
        {
            let part = &parts[i];
            assert(lines_view(parts@)[i as int] == part@);
            let word = trimmed(part);
            let shade = if i == 0 {
                if holds(&self.commands, &word) {
                    Shade::Command
                } else {
                    Shade::Unknown
                }
            } else if i == 1 {
                if known_subcommand(&self.subcommands, &first, &word) {
                    Shade::Subcommand
                } else {
                    Shade::Unknown
                }
            } else {
                if takes_text {
                    Shade::Parameter
                } else {
                    Shade::Ignored
                }
            };
            out.push((shade, string_of(part)));
            i += 1;
        }
        out
    }
}

/// Cuts `s` into its pieces.
fn split_pieces(s: &Vec<char>) -> (out: Vec<Vec<char>>)
    ensures
        lines_view(out@) == pieces(s@),
{
    let mut done: Vec<Vec<char>> = Vec::new();
    let mut cur: Vec<char> = Vec::new();
    let mut i: usize = 0;
    assert(lines_view(done@) =~= pieces(s@.subrange(0, 0)));
    while i < s.len()
        invariant
            i <= s.len(),
            cur@.len() == 0 <==> (i == 0 || s@[i - 1] == ' '),
            cur@.len() > 0 ==> lines_view(done@).push(cur@) == pieces(s@.subrange(0, i as int)),
            cur@.len() == 0 ==> lines_view(done@) == pieces(s@.subrange(0, i as int)),
        decreases s.len() - i,
    {
        let c = s[i];
        let ghost prefix = s@.subrange(0, i as int);
        let ghost next = s@.subrange(0, i + 1);
        assert(next.drop_last() =~= prefix);
        assert(next.last() == c);
        assert(i > 0 ==> next[next.len() - 2] == s@[i - 1]);
        let ghost old_done = lines_view(done@);
        if cur.len() > 0 {
            let ghost before = old_done.push(cur@);
            assert(before.drop_last() =~= old_done);
            assert(before.last() == cur@);
        }
        cur.push(c);
        if c == ' ' {
            let ghost piece = cur@;
            done.push(cur);
            cur = Vec::new();
            assert(lines_view(done@) =~= old_done.push(piece));
        } else {
            assert(cur@.len() == 1 ==> cur@ =~= seq![c]);
        }
        i += 1;
    }
    assert(s@.subrange(0, i as int) =~= s@);
    if cur.len() > 0 {
        let ghost old_done = lines_view(done@);
        let ghost piece = cur@;
        done.push(cur);
        assert(lines_view(done@) =~= old_done.push(piece));
    }
    done
}

/// `s` without the spaces at its end.
fn trimmed(s: &Vec<char>) -> (out: Vec<char>)
    ensures
        out@ == trim_end(s@),
{
    let mut end: usize = s.len();
    assert(s@.subrange(0, end as int) =~= s@);
    while end > 0 && is_space_char(s[end - 1])
        invariant
            end <= s@.len(),
            trim_end(s@) == trim_end(s@.subrange(0, end as int)),
        decreases end,
    {
        assert(s@.subrange(0, end as int).drop_last() =~= s@.subrange(0, end - 1));
        end -= 1;
    }
    let mut out: Vec<char> = Vec::new();
    let mut i: usize = 0;
    while i < end
        invariant
            i <= end <= s@.len(),
            out@ == s@.subrange(0, i as int),
        decreases end - i,
    {
        out.push(s[i]);
        assert(s@.subrange(0, i + 1) =~= s@.subrange(0, i as int).push(s@[i as int]));
        i += 1;
    }
    out
}

/// Whether `list` holds `word`.
fn holds(list: &Vec<&'static str>, word: &Vec<char>) -> (b: bool)
    ensures
        b == strs_view(list@).contains(word@),
{
    let mut i: usize = 0;
    while i < list.len()
        invariant
            i <= list@.len(),
            forall|j: int| 0 <= j < i ==> strs_view(list@)[j] != word@,
        decreases list.len() - i,
    {
        if is_word(word, list[i]) {
            assert(strs_view(list@)[i as int] == word@);
            return true;
        }
        i += 1;
    }
    false
}

/// Whether `word` is a subcommand of `command` according to `table`.
fn known_subcommand(
    table: &Vec<(&'static str, Vec<&'static str>)>,
    command: &Vec<char>,
    word: &Vec<char>,
) -> (b: bool)
    ensures
        b == is_subcommand(subcommands_view(table@), command@, word@),
{
    let ghost all = subcommands_view(table@);
    let mut i: usize = 0;
    assert(all.skip(0) =~= all);
    while i < table.len()
        invariant
            i <= table@.len(),
            all == subcommands_view(table@),
            is_subcommand(all, command@, word@) == is_subcommand(
                all.skip(i as int),
                command@,
                word@,
            ),
        decreases table.len() - i,
    {
        assert(all.skip(i as int).drop_first() =~= all.skip(i + 1));
        assert(all.skip(i as int)[0] == all[i as int]);
        if is_word(command, table[i].0) {
            return holds(&table[i].1, word);
        }
        i += 1;
    }
    false
}

/// The prompt of the line editor.
#[derive(Clone, Debug, PartialEq, Eq)]
pub struct MusicmanPrompt {
    pub left: String,
}

impl MusicmanPrompt {
    /// The text in front of the line.
    pub fn render_prompt_left(&self) -> (out: String)
        ensures
            out@ == self.left@,
    {
        self.left.clone()
    }

    /// The text at the right edge: none.
    pub fn render_prompt_right(&self) -> (out: String)
        ensures
            out@ == Seq::<char>::empty(),
    {
        String::new()
    }

    /// The mark between the prompt and the line: none.
    pub fn render_prompt_indicator(&self) -> (out: String)
        ensures
            out@ == Seq::<char>::empty(),
    {
        String::new()
    }

    /// The mark in front of the further lines of a long entry.
    pub fn render_prompt_multiline_indicator(&self) -> (out: String)
        ensures
            out@ == "> "@,
    {
        String::from_str("> ")
    }

    /// The mark shown while the history is searched.
    pub fn render_prompt_history_search_indicator(&self) -> (out: String)
        ensures
            out@ == "?"@,
    {
        String::from_str("?")
    }
}

} // verus!
