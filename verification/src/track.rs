//! Track identity and metadata, and the read-only index that maps one to the
//! other.

use std::collections::HashMap;
use vstd::prelude::*;
use vstd::string::StringSliceAdditionalSpecFns;
use vstd::utf8::encode_utf8;

verus! {

/// Opaque 128-bit identifier of a track.
#[derive(Clone, Copy, Debug, PartialEq, Eq, Hash, Structural)]
pub struct TrackId(pub u128);

/// The identifier that name-based hashing in the URL namespace assigns to a
/// name given as bytes.
pub uninterp spec fn url_name_id(name: Seq<u8>) -> u128;

/// Calls `uuid::Uuid::new_v5` with `Uuid::NAMESPACE_URL` and reads the result
/// with `Uuid::as_u128`. The identifier is a function of the name alone: the
/// contract gives it the name `url_name_id` and claims nothing else of it.
#[verifier::external_body]
fn new_v5_url(name: &[u8]) -> (id: u128)
    ensures
        id == url_name_id(name@),
{
    uuid::Uuid::new_v5(&uuid::Uuid::NAMESPACE_URL, name).as_u128()
}

impl TrackId {
    /// The identifier of the track stored at `path`: the same path always
    /// yields the same identifier.
    pub fn from_path(path: &str) -> (id: TrackId)
        ensures
            id.0 == url_name_id(encode_utf8(path@)),
    {
        TrackId(new_v5_url(path.as_bytes()))
    }
}

/// What the index knows about one track.
#[derive(Clone, Debug, PartialEq, Eq)]
pub struct SongMeta {
    pub id: TrackId,
    pub title: String,
    pub artists: Vec<String>,
    /// Length of the track in seconds.
    pub duration: u32,
    /// Where the audio is stored.
    pub path: String,
}

/// Mathematical value of a [`SongMeta`].
pub struct SongMetaView {
    pub id: u128,
    pub title: Seq<char>,
    pub artists: Seq<Seq<char>>,
    pub duration: u32,
    pub path: Seq<char>,
}

/// The views of a sequence of strings.
pub open spec fn strings_view(v: Seq<String>) -> Seq<Seq<char>> {
    Seq::new(v.len(), |i: int| v[i]@)
}

/// The views of a sequence of track descriptions.
pub open spec fn metas_view(v: Seq<SongMeta>) -> Seq<SongMetaView> {
    Seq::new(v.len(), |i: int| v[i]@)
}

impl View for SongMeta {
    type V = SongMetaView;

    open spec fn view(&self) -> SongMetaView {
        SongMetaView {
            id: self.id.0,
            title: self.title@,
            artists: strings_view(self.artists@),
            duration: self.duration,
            path: self.path@,
        }
    }
}

/// A copy of `v` with the same contents.
pub fn clone_strings(v: &Vec<String>) -> (out: Vec<String>)
    ensures
        strings_view(out@) == strings_view(v@),
{
    let mut out: Vec<String> = Vec::new();
    let mut i: usize = 0;
    while i < v.len()
        invariant
            i <= v.len(),
            out.len() == i,
            forall|j: int| 0 <= j < i ==> out@[j]@ == v@[j]@,
        decreases v.len() - i,
    {
        out.push(v[i].clone());
        i += 1;
    }
    assert(strings_view(out@) =~= strings_view(v@));
    out
}

impl SongMeta {
    /// A copy of `self` with the same contents.
    pub fn duplicate(&self) -> (out: SongMeta)
        ensures
            out@ == self@,
    {
        SongMeta {
            id: self.id,
            title: self.title.clone(),
            artists: clone_strings(&self.artists),
            duration: self.duration,
            path: self.path.clone(),
        }
    }
}

/// A copy of `v` with the same contents.
pub fn clone_metas(v: &Vec<SongMeta>) -> (out: Vec<SongMeta>)
    ensures
        metas_view(out@) == metas_view(v@),
{
    let mut out: Vec<SongMeta> = Vec::new();
    let mut i: usize = 0;
    while i < v.len()
        invariant
            i <= v.len(),
            out.len() == i,
            forall|j: int| 0 <= j < i ==> out@[j]@ == v@[j]@,
        decreases v.len() - i,
    {
        out.push(v[i].duplicate());
        i += 1;
    }
    assert(metas_view(out@) =~= metas_view(v@));
    out
}

/// The track index: a read-only lookup from identifier to metadata.
pub type SongIndex = HashMap<u128, SongMeta>;

/// The metadata that `index` holds for `track_id`, if any.
pub fn get_track_meta(track_id: &TrackId, index: &SongIndex) -> (found: Option<SongMeta>)
    ensures
        found is Some <==> index@.contains_key(track_id.0),
        found matches Some(meta) ==> meta@ == index@[track_id.0]@,
{
    match index.get(&track_id.0) {
        Some(meta) => Some(meta.duplicate()),
        None => None,
    }
}

} // verus!
