//! Building the track index: which files count as audio, how tags become a
//! track description, and how descriptions enter the index.

use crate::search::{lowercase, to_lowercase};
use crate::text::{chars_of, string_of};
use crate::track::{strings_view, SongIndex, SongMeta, SongMetaView, TrackId, url_name_id};
use vstd::prelude::*;
use vstd::utf8::encode_utf8;

verus! {

broadcast use vstd::std_specs::hash::group_hash_axioms;

/// Whether files with the extension `ext` are indexed: the audio formats
/// `mp3`, `flac`, `wav`, `ogg` and `m4a`, in any case.
pub open spec fn is_audio_extension(ext: Seq<char>) -> bool {
    let e = lowercase(ext);
    e == "mp3"@ || e == "flac"@ || e == "wav"@ || e == "ogg"@ || e == "m4a"@
}

/// Decides whether files with the extension `ext` are indexed.
pub fn is_supported_extension(ext: &str) -> (b: bool)
    ensures
        b == is_audio_extension(ext@),
{
    let e = to_lowercase(ext);
    let mp3 = String::from_str("mp3");
    let flac = String::from_str("flac");
    let wav = String::from_str("wav");
    let ogg = String::from_str("ogg");
    let m4a = String::from_str("m4a");
    e == mp3 || e == flac || e == wav || e == ogg || e == m4a
}

/// The parts of `s` between the occurrences of `sep`: one more part than
/// there are separators, empty parts included.
pub open spec fn split(s: Seq<char>, sep: char) -> Seq<Seq<char>>
    decreases s.len(),
{
    if s.len() == 0 {
        seq![Seq::empty()]
    } else {
        let before = split(s.drop_last(), sep);
        if s.last() == sep {
            before.push(Seq::empty())
        } else {
            before.drop_last().push(before.last().push(s.last()))
        }
    }
}

/// The artists named in an artist tag: its parts between slashes.
pub fn split_artists(artist: &str) -> (out: Vec<String>)
    ensures
        strings_view(out@) == split(artist@, '/'),
{
    let chars = chars_of(artist);
    let mut done: Vec<String> = Vec::new();
    let mut cur: Vec<char> = Vec::new();
    let mut i: usize = 0;
    assert(chars@.subrange(0, 0) =~= Seq::<char>::empty());
    assert(strings_view(done@).push(cur@) =~= split(chars@.subrange(0, 0), '/'));
    while i < chars.len()
        invariant
            i <= chars@.len(),
            strings_view(done@).push(cur@) == split(chars@.subrange(0, i as int), '/'),
        decreases chars.len() - i,
    {
        let c = chars[i];
        let ghost prefix = chars@.subrange(0, i as int);
        let ghost next = chars@.subrange(0, i + 1);
        assert(next.drop_last() =~= prefix);
        assert(next.last() == c);
        let ghost before = strings_view(done@).push(cur@);
        assert(before.drop_last() =~= strings_view(done@));
        assert(before.last() == cur@);
        if c == '/' {
            let ghost old_done = strings_view(done@);
            let part = string_of(&cur);
            done.push(part);
            cur = Vec::new();
            assert(strings_view(done@) =~= old_done.push(part@));
            assert(strings_view(done@).push(cur@) =~= before.push(Seq::empty()));
        } else {
            cur.push(c);
        }
        i += 1;
    }
    assert(chars@.subrange(0, i as int) =~= chars@);
    let ghost old_done = strings_view(done@);
    let part = string_of(&cur);
    done.push(part);
    assert(strings_view(done@) =~= old_done.push(part@));
    done
}

/// What the tags of a file say about it, as far as the index cares.
#[derive(Clone, Debug, PartialEq, Eq)]
pub struct Tags {
    pub title: String,
    pub artist: String,
}

/// Mathematical value of a [`Tags`].
pub struct TagsView {
    pub title: Seq<char>,
    pub artist: Seq<char>,
}

impl View for Tags {
    type V = TagsView;

    open spec fn view(&self) -> TagsView {
        TagsView { title: self.title@, artist: self.artist@ }
    }
}

/// The tags after the tag `key` with the value `value` was read: a title tag
/// or an artist tag with a value replaces what was known, any other tag and
/// any empty value changes nothing. Keys are compared in lower case.
pub open spec fn with_tag(tags: TagsView, key: Seq<char>, value: Seq<char>) -> TagsView {
    let k = lowercase(key);
    if value.len() == 0 {
        tags
    } else if k == "title"@ || k == "tit2"@ {
        TagsView { title: value, artist: tags.artist }
    } else if k == "artist"@ || k == "tpe1"@ {
        TagsView { title: tags.title, artist: value }
    } else {
        tags
    }
}

impl Tags {
    /// What is assumed of a file before its tags are read: the title is the
    /// stem of the file name, or `Unknown` where it has none, and the artist
    /// is `Unknown`.
    pub fn new(stem: Option<&str>) -> (tags: Tags)
        ensures
            tags@ == (TagsView {
                title: match stem {
                    Some(s) => s@,
                    None => "Unknown"@,
                },
                artist: "Unknown"@,
            }),
    {
        Tags {
            title: match stem {
                Some(s) => String::from_str(s),
                None => String::from_str("Unknown"),
            },
            artist: String::from_str("Unknown"),
        }
    }

    /// Takes note of one tag of the file.
    pub fn apply(&mut self, key: &str, value: &str)
        ensures
            final(self)@ == with_tag(old(self)@, key@, value@),
    {
        if value.unicode_len() == 0 {
            return;
        }
        let k = to_lowercase(key);
        if k == String::from_str("title") || k == String::from_str("tit2") {
            self.title = String::from_str(value);
        } else if k == String::from_str("artist") || k == String::from_str("tpe1") {
            self.artist = String::from_str(value);
        }
    }
}

/// The description of the track stored at `path`, with what its tags said
/// and a length of `duration` seconds.
pub open spec fn described(path: Seq<char>, tags: TagsView, duration: u32) -> SongMetaView {
    SongMetaView {
        id: url_name_id(encode_utf8(path)),
        title: tags.title,
        artists: split(tags.artist, '/'),
        duration,
        path,
    }
}

/// Builds the description of the track stored at `path`.
pub fn describe(path: &str, tags: Tags, duration: u32) -> (meta: SongMeta)
    ensures
        meta@ == described(path@, tags@, duration),
{
    let artists = split_artists(tags.artist.as_str());
    SongMeta {
        id: TrackId::from_path(path),
        title: tags.title,
        artists,
        duration,
        path: String::from_str(path),
    }
}

/// Enters `meta` into `index` under its identifier; a description already
/// there under that identifier is replaced.
pub fn enter(index: &mut SongIndex, meta: SongMeta)
    ensures
        final(index)@ == old(index)@.insert(meta.id.0, meta),
{
    index.insert(meta.id.0, meta);
}

} // verus!
