//! Searching the track index by title or by artist, without regard to case.

use crate::protocol::{SearchType, SearchTypeView};
use crate::text::chars_of;
use crate::track::{metas_view, SongIndex, SongMeta, SongMetaView};
use vstd::prelude::*;

verus! {

broadcast use vstd::std_specs::hash::group_hash_axioms;

/// The lower-case form of a text.
pub uninterp spec fn lowercase(s: Seq<char>) -> Seq<char>;

/// Calls `str::to_lowercase`. The result is a function of the text alone:
/// the contract gives it the name `lowercase` and claims nothing else of it.
#[verifier::external_body]
pub(crate) fn to_lowercase(s: &str) -> (out: String)
    ensures
        out@ == lowercase(s@),
{
    s.to_lowercase()
}

/// Whether `needle` occurs in `hay` as a run of consecutive characters.
pub open spec fn occurs_in(needle: Seq<char>, hay: Seq<char>) -> bool {
    exists|i: int| occurs_at(needle, hay, i)
}

/// Whether `needle` occurs in `hay` at position `i`.
pub open spec fn occurs_at(needle: Seq<char>, hay: Seq<char>, i: int) -> bool {
    0 <= i && i + needle.len() <= hay.len() && hay.subrange(i, i + needle.len()) == needle
}

fn matches_at(hay: &Vec<char>, needle: &Vec<char>, at: usize) -> (b: bool)
    requires
        at + needle@.len() <= hay@.len(),
    ensures
        b == occurs_at(needle@, hay@, at as int),
{
    let mut j: usize = 0;
    let hay_len = hay.len();
    while j < needle.len()
        invariant
            j <= needle@.len(),
            at + needle@.len() <= hay@.len() <= usize::MAX,
            forall|k: int| 0 <= k < j ==> hay@[at + k] == needle@[k],
        decreases needle.len() - j,
    {
        if hay[at + j] != needle[j] {
            assert(hay@.subrange(at as int, at + needle@.len())[j as int] != needle@[j as int]);
            return false;
        }
        j += 1;
    }
    assert(hay@.subrange(at as int, at + needle@.len()) =~= needle@);
    true
}

/// Whether `needle` occurs in `hay`.
pub fn contains_chars(hay: &Vec<char>, needle: &Vec<char>) -> (b: bool)
    ensures
        b == occurs_in(needle@, hay@),
{
    if needle.len() > hay.len() {
        return false;
    }
    let last = hay.len() - needle.len();
    let mut i: usize = 0;
    loop
        invariant
            i <= last,
            last == hay@.len() - needle@.len(),
            forall|k: int| 0 <= k < i ==> !occurs_at(needle@, hay@, k),
        decreases last - i,
    {
        if matches_at(hay, needle, i) {
            return true;
        }
        if i == last {
            return false;
        }
        i += 1;
    }
}

/// Whether the title of `meta` contains `query`, case ignored.
pub open spec fn title_matches(meta: SongMetaView, query: Seq<char>) -> bool {
    occurs_in(lowercase(query), lowercase(meta.title))
}

/// Whether one of the artists of `meta` contains `query`, case ignored.
pub open spec fn artist_matches(meta: SongMetaView, query: Seq<char>) -> bool {
    exists|i: int|
        0 <= i < meta.artists.len() && occurs_in(
            lowercase(query),
            lowercase(#[trigger] meta.artists[i]),
        )
}

/// Whether `meta` is a hit for `query`.
pub open spec fn is_hit(meta: SongMetaView, query: SearchTypeView) -> bool {
    match query {
        SearchTypeView::ByTitle(q) => title_matches(meta, q),
        SearchTypeView::ByArtist(q) => artist_matches(meta, q),
    }
}

fn check_hit(meta: &SongMeta, by_title: bool, needle: &Vec<char>, Ghost(q): Ghost<Seq<char>>) -> (b:
    bool)
    requires
        needle@ == lowercase(q),
    ensures
        b == (if by_title {
            title_matches(meta@, q)
        } else {
            artist_matches(meta@, q)
        }),
{
    if by_title {
        let title = chars_of(to_lowercase(meta.title.as_str()).as_str());
        contains_chars(&title, needle)
    } else {
        let mut i: usize = 0;
        while i < meta.artists.len()
            invariant
                i <= meta.artists@.len(),
                !by_title,
                needle@ == lowercase(q),
                forall|k: int|
                    0 <= k < i ==> !occurs_in(lowercase(q), lowercase(#[trigger] meta@.artists[k])),
            decreases meta.artists.len() - i,
        {
            let artist = chars_of(to_lowercase(meta.artists[i].as_str()).as_str());
            assert(meta@.artists[i as int] == meta.artists@[i as int]@);
            if contains_chars(&artist, needle) {
                assert(occurs_in(lowercase(q), lowercase(meta@.artists[i as int])));
                return true;
            }
            i += 1;
        }
        false
    }
}

/// The keys of `index`, each once, in the order in which the map hands them
/// out.
fn index_keys(index: &SongIndex) -> (keys: Vec<u128>)
    ensures
        keys@.no_duplicates(),
        forall|k: u128| keys@.contains(k) <==> index@.contains_key(k),
{
    let mut keys: Vec<u128> = Vec::new();
    for key in it: index.keys()
        invariant
            it.seq().no_duplicates(),
            it.seq().unref().to_set() == index@.dom(),
            keys@ == it.seq().unref().subrange(0, it.index()),
            keys@.no_duplicates(),
            forall|k: u128| keys@.contains(k) ==> index@.contains_key(k),
            it.index() == it.seq().len() ==> forall|k: u128|
                index@.contains_key(k) ==> keys@.contains(k),
    {
        let ghost before = keys@;
        keys.push(*key);
        assert(keys@ =~= it.seq().unref().subrange(0, it.index() + 1));
        assert(it.seq().unref()[it.index()] == *key);
        assert(it.seq().unref().to_set().contains(*key));
        assert forall|j: int| 0 <= j < it.index() implies before[j] != *key by {
            assert(it.seq()[j] != it.seq()[it.index()]);
        }
        assert forall|k: u128| keys@.contains(k) implies index@.contains_key(k) by {
            let j = choose|j: int| 0 <= j < keys@.len() && keys@[j] == k;
            if j < before.len() {
                assert(before[j] == k);
                assert(before.contains(k));
            }
        }
        assert(it.index() + 1 == it.seq().len() ==> forall|k: u128|
            index@.contains_key(k) ==> keys@.contains(k)) by {
            assert forall|k: u128|
                it.index() + 1 == it.seq().len() && index@.contains_key(k) implies keys@.contains(
                k,
            ) by {
                assert(keys@ =~= it.seq().unref());
                assert(it.seq().unref().to_set().contains(k));
            }
        }
    }
    keys
}

/// Whether `results` is what a search for `query` in `index` yields when the
/// hits are taken in the order `keys`: `keys` lists every entry that is a hit
/// exactly once, and `results` holds their metadata in that order.
pub open spec fn is_search_result(
    index: Map<u128, SongMeta>,
    query: SearchTypeView,
    keys: Seq<u128>,
    results: Seq<SongMetaView>,
) -> bool {
    &&& keys.no_duplicates()
    &&& keys.len() == results.len()
    &&& forall|k: u128| keys.contains(k) <==> index.contains_key(k) && is_hit(index[k]@, query)
    &&& forall|i: int| 0 <= i < keys.len() ==> results[i] == index[keys[i]]@
}

/// The entries of `index` that are hits for `query`.
pub open spec fn hits(index: Map<u128, SongMeta>, query: SearchTypeView) -> Set<u128> {
    index.dom().filter(|k: u128| is_hit(index[k]@, query))
}

/// A search yields as many tracks as the index has hits.
pub proof fn lemma_search_result_len(
    index: Map<u128, SongMeta>,
    query: SearchTypeView,
    keys: Seq<u128>,
    results: Seq<SongMetaView>,
)
    requires
        index.dom().finite(),
        is_search_result(index, query, keys, results),
    ensures
        results.len() == hits(index, query).len(),
{
    assert(keys.to_set() =~= hits(index, query)) by {
        assert forall|k: u128| keys.to_set().contains(k) <==> hits(index, query).contains(k) by {
            assert(keys.to_set().contains(k) <==> keys.contains(k));
        }
    }
    keys.unique_seq_to_set();
}

/// The tracks of `index` that are hits for `s`: every hit once, in no
/// particular order.
pub fn handle_search(s: SearchType, index: &SongIndex) -> (results: Vec<SongMeta>)
    ensures
        exists|keys: Seq<u128>| is_search_result(index@, s@, keys, metas_view(results@)),
        results@.len() == hits(index@, s@).len(),
{
    let (by_title, needle, q) = match &s {
        SearchType::ByTitle(query) => (
            true,
            chars_of(to_lowercase(query.as_str()).as_str()),
            Ghost(query@),
        ),
        SearchType::ByArtist(query) => (
            false,
            chars_of(to_lowercase(query.as_str()).as_str()),
            Ghost(query@),
        ),
    };
    let all = index_keys(index);
    let mut results: Vec<SongMeta> = Vec::new();
    let ghost mut picked: Seq<u128> = Seq::empty();
    let mut i: usize = 0;
    while i < all.len()
        invariant
            i <= all@.len(),
            all@.no_duplicates(),
            forall|k: u128| all@.contains(k) <==> index@.contains_key(k),
            needle@ == lowercase(q@),
            s@ == (if by_title {
                SearchTypeView::ByTitle(q@)
            } else {
                SearchTypeView::ByArtist(q@)
            }),
            picked.no_duplicates(),
            picked.len() == results@.len(),
            forall|j: int| 0 <= j < picked.len() ==> results@[j]@ == index@[picked[j]]@,
            forall|k: u128|
                picked.contains(k) <==> all@.subrange(0, i as int).contains(k) && is_hit(
                    index@[k]@,
                    s@,
                ),
        decreases all.len() - i,
    {
        let key = all[i];
        assert(all@.contains(key));
        let ghost seen = all@.subrange(0, i as int);
        let ghost next = all@.subrange(0, i + 1);
        assert(next =~= seen.push(key));
        assert(!seen.contains(key)) by {
            if seen.contains(key) {
                let j = choose|j: int| 0 <= j < seen.len() && seen[j] == key;
                assert(all@[j] == all@[i as int]);
            }
        }
        assert forall|k: u128| next.contains(k) <==> seen.contains(k) || k == key by {
            if seen.contains(k) {
                let j = choose|j: int| 0 <= j < seen.len() && seen[j] == k;
                assert(next[j] == k);
            }
            if k == key {
                assert(next[i as int] == k);
            }
        }
        match index.get(&key) {
            Some(meta) => {
                if check_hit(meta, by_title, &needle, q) {
                    let ghost old_picked = picked;
                    results.push(meta.duplicate());
                    proof {
                        assert(!old_picked.contains(key));
                        picked = old_picked.push(key);
                        assert forall|k: u128| picked.contains(k) <==> old_picked.contains(k)
                            || k == key by {
                            if old_picked.contains(k) {
                                let j = choose|j: int|
                                    0 <= j < old_picked.len() && old_picked[j] == k;
                                assert(picked[j] == k);
                            }
                            if k == key {
                                assert(picked[old_picked.len() as int] == k);
                            }
                        }
                    }
                }
            },
            None => {},
        }
        i += 1;
    }
    proof {
        assert(all@.subrange(0, i as int) =~= all@);
        assert(is_search_result(index@, s@, picked, metas_view(results@)));
        lemma_search_result_len(index@, s@, picked, metas_view(results@));
    }
    results
}

} // verus!
