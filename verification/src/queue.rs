//! The play queue and its navigation: advancing and retreating through the
//! queue wrap around at either end.

use crate::track::{clone_metas, metas_view, SongMeta, SongMetaView, TrackId};
use vstd::prelude::*;

verus! {

/// The client's play queue: the entries in playback order, the position of
/// the current entry, and the track last chosen for playing.
pub struct ClientStateStruct {
    pub current_song: Option<SongMeta>,
    pub queue: Vec<SongMeta>,
    pub current_idx: usize,
}

/// Result of a navigation request.
#[derive(Clone, Copy, Debug, PartialEq, Eq, Structural)]
pub enum GetReturn {
    /// A track was made current.
    Selected,
    /// The queue holds no entry: nothing was changed.
    QueueEmpty,
}

/// Mathematical value of a [`ClientStateStruct`].
pub struct QueueView {
    pub entries: Seq<SongMetaView>,
    pub current: Option<SongMetaView>,
    pub index: nat,
}

impl View for ClientStateStruct {
    type V = QueueView;

    open spec fn view(&self) -> QueueView {
        QueueView {
            entries: metas_view(self.queue@),
            current: match self.current_song {
                Some(song) => Some(song@),
                None => None,
            },
            index: self.current_idx as nat,
        }
    }
}

impl QueueView {
    /// The queue invariant: a current track exists only in a non-empty queue
    /// and is the entry at the current index, which is then a valid index.
    pub open spec fn wf(self) -> bool {
        &&& self.current is Some ==> self.entries.len() > 0
        &&& self.entries.len() > 0 ==> self.index < self.entries.len()
        &&& self.current matches Some(song) ==> song == self.entries[self.index as int]
    }

    /// The queue with `index` made current.
    pub open spec fn select(self, index: nat) -> QueueView {
        QueueView { entries: self.entries, current: Some(self.entries[index as int]), index }
    }

    /// The queue after "advance by `n`".
    pub open spec fn advance(self, n: nat) -> QueueView {
        if self.entries.len() == 0 {
            self
        } else if self.current is None {
            self.select(0)
        } else {
            self.select(next_index(self.index, n, self.entries.len()))
        }
    }

    /// The queue after "retreat by `n`".
    pub open spec fn retreat(self, n: nat) -> QueueView {
        if self.entries.len() == 0 {
            self
        } else if self.current is None {
            self.select(0)
        } else {
            self.select(prev_index(self.index, n, self.entries.len()))
        }
    }

    /// The queue after its entries and its current track are dropped.
    pub open spec fn cleared(self) -> QueueView {
        QueueView { entries: Seq::empty(), current: None, index: self.index }
    }

    /// The queue after `songs` are added: an empty queue starts at the first
    /// of them, a non-empty one keeps playing what it plays.
    pub open spec fn enqueued(self, songs: Seq<SongMetaView>) -> QueueView {
        if songs.len() == 0 {
            self
        } else if self.entries.len() == 0 {
            QueueView { entries: songs, current: Some(songs[0]), index: 0 }
        } else {
            QueueView { entries: self.entries + songs, current: self.current, index: self.index }
        }
    }
}

/// Index reached from `index` by going `n` entries forward in a queue of
/// `len` entries, wrapping around.
pub open spec fn next_index(index: nat, n: nat, len: nat) -> nat
    recommends
        len > 0,
{
    ((index + n) as int % (len as int)) as nat
}

/// Index reached from `index` by going `n` entries back in a queue of `len`
/// entries, wrapping around.
pub open spec fn prev_index(index: nat, n: nat, len: nat) -> nat
    recommends
        len > 0,
{
    ((index + len - (n % len)) as int % (len as int)) as nat
}

proof fn lemma_mod_shift(a: int, k: int, len: int)
    requires
        len > 0,
    ensures
        (a + k * len) % len == a % len,
{
    vstd::arithmetic::div_mod::lemma_mod_multiples_vanish(k, a, len);
    assert(a + k * len == len * k + a) by (nonlinear_arith);
}

proof fn lemma_next_index(index: nat, n: nat, len: nat)
    requires
        len > 0,
    ensures
        next_index(index, n, len) < len,
        next_index(index, n, len) as int == {
            let a = (index % len) as int;
            let b = (n % len) as int;
            if a >= len - b {
                a - (len - b)
            } else {
                a + b
            }
        },
{
    let l = len as int;
    let a = index as int % l;
    let b = n as int % l;
    let qa = index as int / l;
    let qb = n as int / l;
    vstd::arithmetic::div_mod::lemma_fundamental_div_mod(index as int, l);
    vstd::arithmetic::div_mod::lemma_fundamental_div_mod(n as int, l);
    assert(index + n == (a + b) + (qa + qb) * l) by (nonlinear_arith)
        requires
            index == l * qa + a,
            n == l * qb + b,
    ;
    lemma_mod_shift(a + b, qa + qb, l);
    if a >= l - b {
        lemma_mod_shift(a + b - l, 1, l);
        vstd::arithmetic::div_mod::lemma_small_mod((a + b - l) as nat, len);
    } else {
        vstd::arithmetic::div_mod::lemma_small_mod((a + b) as nat, len);
    }
}

proof fn lemma_prev_index(index: nat, n: nat, len: nat)
    requires
        len > 0,
    ensures
        prev_index(index, n, len) < len,
        prev_index(index, n, len) as int == {
            let a = (index % len) as int;
            let b = (n % len) as int;
            if a >= b {
                a - b
            } else {
                a + (len - b)
            }
        },
{
    let l = len as int;
    let a = index as int % l;
    let b = n as int % l;
    let qa = index as int / l;
    vstd::arithmetic::div_mod::lemma_fundamental_div_mod(index as int, l);
    assert(index + l - b == (a + l - b) + qa * l) by (nonlinear_arith)
        requires
            index == l * qa + a,
    ;
    lemma_mod_shift(a + l - b, qa, l);
    if a >= b {
        lemma_mod_shift(a - b, 1, l);
        vstd::arithmetic::div_mod::lemma_small_mod((a - b) as nat, len);
    } else {
        vstd::arithmetic::div_mod::lemma_small_mod((a + l - b) as nat, len);
    }
}

/// Going `n` forward and then `n` back returns to where one started.
pub proof fn lemma_advance_then_retreat_index(index: nat, n: nat, len: nat)
    requires
        len > 0,
        index < len,
    ensures
        prev_index(next_index(index, n, len), n, len) == index,
{
    lemma_next_index(index, n, len);
    lemma_prev_index(next_index(index, n, len), n, len);
    vstd::arithmetic::div_mod::lemma_small_mod(index, len);
    vstd::arithmetic::div_mod::lemma_small_mod(next_index(index, n, len), len);
}

/// In a well-formed queue with a current track, "advance by `n`" followed by
/// "retreat by `n`" restores the queue, for every `n`.
pub proof fn lemma_advance_then_retreat(q: QueueView, n: nat)
    requires
        q.wf(),
        q.entries.len() >= 1,
        q.current is Some,
    ensures
        q.advance(n).retreat(n) == q,
{
    lemma_advance_then_retreat_index(q.index, n, q.entries.len());
}

/// Advancing by `n` is advancing by `n` modulo the length of the queue.
pub proof fn lemma_advance_mod_len(q: QueueView, n: nat)
    requires
        q.entries.len() >= 1,
    ensures
        q.advance(n) == q.advance(n % q.entries.len()),
{
    let len = q.entries.len();
    lemma_next_index(q.index, n, len);
    lemma_next_index(q.index, n % len, len);
    vstd::arithmetic::div_mod::lemma_mod_twice(n as int, len as int);
}

/// Navigating an empty queue changes nothing, in either direction.
pub proof fn lemma_empty_queue_is_fixed(q: QueueView, n: nat)
    requires
        q.entries.len() == 0,
    ensures
        q.advance(n) == q,
        q.retreat(n) == q,
{
}

/// Navigation keeps the queue invariant, and establishes it in a non-empty
/// queue.
pub proof fn lemma_navigation_keeps_wf(q: QueueView, n: nat)
    requires
        q.wf() || q.entries.len() > 0,
    ensures
        q.advance(n).wf(),
        q.retreat(n).wf(),
{
    if q.entries.len() > 0 {
        lemma_next_index(q.index, n, q.entries.len());
        lemma_prev_index(q.index, n, q.entries.len());
    }
}

/// Clearing the queue and adding to it keep the queue invariant.
pub proof fn lemma_mutation_keeps_wf(q: QueueView, songs: Seq<SongMetaView>)
    requires
        q.wf(),
    ensures
        q.cleared().wf(),
        q.enqueued(songs).wf(),
        q.cleared().enqueued(songs).wf(),
{
}

impl ClientStateStruct {
    /// An empty queue with no current track.
    pub fn new() -> (state: ClientStateStruct)
        ensures
            state@.entries.len() == 0,
            state@.current is None,
            state@.index == 0,
            state@.wf(),
    {
        ClientStateStruct { current_song: None, queue: Vec::new(), current_idx: 0 }
    }

    fn make_current(&mut self, index: usize)
        requires
            index < old(self).queue.len(),
        ensures
            final(self)@ == old(self)@.select(index as nat),
            final(self).queue == old(self).queue,
    {
        self.current_idx = index;
        self.current_song = Some(self.queue[index].duplicate());
    }

    /// Drops every entry and the current track.
    pub fn clear(&mut self)
        ensures
            final(self)@ == old(self)@.cleared(),
            final(self)@.wf(),
    {
        self.queue.clear();
        self.current_song = None;
        assert(metas_view(self.queue@) =~= Seq::empty());
    }

    /// Adds `songs` at the end of the queue. Where the queue was empty the
    /// first of them becomes current, and its identifier is returned for
    /// playing; otherwise nothing is returned and playback is not disturbed.
    pub fn enqueue(&mut self, songs: &Vec<SongMeta>) -> (play: Option<TrackId>)
        ensures
            final(self)@ == old(self)@.enqueued(metas_view(songs@)),
            play == (if songs@.len() > 0 && old(self)@.entries.len() == 0 {
                Some(songs@[0].id)
            } else {
                None
            }),
            old(self)@.wf() ==> final(self)@.wf(),
    {
        if songs.len() == 0 {
            return None;
        }
        if self.queue.len() == 0 {
            self.queue = clone_metas(songs);
            self.current_song = Some(songs[0].duplicate());
            self.current_idx = 0;
            Some(songs[0].id)
        } else {
            let mut copy = clone_metas(songs);
            let ghost before = self.queue@;
            let ghost added = copy@;
            self.queue.append(&mut copy);
            assert(metas_view(self.queue@) =~= metas_view(before) + metas_view(added));
            None
        }
    }

    /// Replaces the queue by `songs` and makes the first of them current;
    /// returns its identifier for playing.
    pub fn replace(&mut self, songs: &Vec<SongMeta>) -> (play: TrackId)
        requires
            songs@.len() > 0,
        ensures
            final(self)@ == old(self)@.cleared().enqueued(metas_view(songs@)),
            play == songs@[0].id,
            final(self)@.wf(),
    {
        self.queue = clone_metas(songs);
        self.current_song = Some(songs[0].duplicate());
        self.current_idx = 0;
        songs[0].id
    }

    /// The identifier of the current track, if there is one.
    pub fn current_track(&self) -> (id: Option<TrackId>)
        ensures
            id is Some <==> self@.current is Some,
            id matches Some(t) ==> t.0 == self@.current->0.id,
    {
        match &self.current_song {
            Some(song) => Some(song.id),
            None => None,
        }
    }
}

/// Advance by `n` entries, wrapping around at the end of the queue. An empty
/// queue is left untouched; a queue without a current track starts at its
/// first entry.
pub fn get_next_song(state: &mut ClientStateStruct, n: usize) -> (r: GetReturn)
    ensures
        final(state)@ == old(state)@.advance(n as nat),
        r == (if old(state)@.entries.len() == 0 {
            GetReturn::QueueEmpty
        } else {
            GetReturn::Selected
        }),
        old(state)@.entries.len() == 0 ==> *final(state) == *old(state),
        old(state)@.entries.len() > 0 ==> final(state)@.wf(),
        final(state).queue == old(state).queue,
{
    let len = state.queue.len();
    if len == 0 {
        return GetReturn::QueueEmpty;
    }
    if state.current_song.is_none() {
        state.make_current(0);
        return GetReturn::Selected;
    }
    let a = state.current_idx % len;
    let b = n % len;
    proof {
        lemma_next_index(state.current_idx as nat, n as nat, len as nat);
    }
    let target = if a >= len - b {
        a - (len - b)
    } else {
        a + b
    };
    state.make_current(target);
    GetReturn::Selected
}

/// Retreat by `n` entries, wrapping around at the start of the queue. An
/// empty queue is left untouched; a queue without a current track starts at
/// its first entry.
pub fn get_prev_song(state: &mut ClientStateStruct, n: usize) -> (r: GetReturn)
    ensures
        final(state)@ == old(state)@.retreat(n as nat),
        r == (if old(state)@.entries.len() == 0 {
            GetReturn::QueueEmpty
        } else {
            GetReturn::Selected
        }),
        old(state)@.entries.len() == 0 ==> *final(state) == *old(state),
        old(state)@.entries.len() > 0 ==> final(state)@.wf(),
        final(state).queue == old(state).queue,
{
    let len = state.queue.len();
    if len == 0 {
        return GetReturn::QueueEmpty;
    }
    if state.current_song.is_none() {
        state.make_current(0);
        return GetReturn::Selected;
    }
    let a = state.current_idx % len;
    let b = n % len;
    proof {
        lemma_prev_index(state.current_idx as nat, n as nat, len as nat);
    }
    let target = if a >= b {
        a - b
    } else {
        a + (len - b)
    };
    state.make_current(target);
    GetReturn::Selected
}

} // verus!
