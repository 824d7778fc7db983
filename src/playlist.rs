//! The playback queue: an append-only history of catalog indices with a seek
//! cursor. Moving the cursor past the end of the history draws new entries
//! under the queue's shuffle policy; moving it back replays what was drawn.

use crate::song::Song;
use rand::seq::IteratorRandom;
use vstd::prelude::*;
use vstd::set_lib::*;

verus! {

/// The cursor never rests at or past this position: a caller that moves the
/// cursor this far is looping without end.
pub const HISTORY_LIMIT: usize = 0xFFFF;

/// How the next catalog index is drawn.
#[derive(Clone, Copy, Debug, PartialEq, Eq, Structural)]
pub enum PlaylistShuffle {
    /// The index after the last one, wrapping at the end of the catalog.
    Normal,
    /// Any index of the catalog.
    Random,
    /// Any index of the catalog that is not among the last
    /// `blacklist_length` entries of the history.
    SmartRandom { blacklist_length: usize },
}

/// Why a queue cannot be built.
#[derive(Clone, Copy, Debug, PartialEq, Eq, Structural)]
pub enum PlaylistError {
    /// The catalog holds no track.
    EmptyCatalog,
    /// The blacklist would cover the whole catalog.
    BlacklistTooLong,
}

/// The last `min(n, history.len())` entries of `history`.
pub open spec fn recent(history: Seq<usize>, n: nat) -> Seq<usize> {
    let len = history.len();
    if n <= len {
        history.subrange(len - n, len as int)
    } else {
        history
    }
}

/// The index that follows `history` in catalog order.
pub open spec fn next_in_order(size: nat, history: Seq<usize>) -> int {
    if history.len() == 0 {
        0
    } else {
        (history.last() + 1) % (size as int)
    }
}

/// Whether `index` may be appended to `history` under `shuffle` over a
/// catalog of `size` tracks.
pub open spec fn may_follow(shuffle: PlaylistShuffle, size: nat, history: Seq<usize>, index: usize) -> bool {
    match shuffle {
        PlaylistShuffle::Normal => index == next_in_order(size, history),
        PlaylistShuffle::Random => index < size,
        PlaylistShuffle::SmartRandom { blacklist_length } => index < size && !recent(
            history,
            blacklist_length as nat,
        ).contains(index),
    }
}

/// Whether each entry of `history` was allowed after the entries before it.
pub open spec fn valid_history(shuffle: PlaylistShuffle, size: nat, history: Seq<usize>) -> bool {
    forall|i: int|
        0 <= i < history.len() ==> may_follow(shuffle, size, history.subrange(0, i), #[trigger] history[i])
}

/// Whether `shuffle` can always draw an index from a catalog of `size` tracks.
pub open spec fn shuffle_fits(shuffle: PlaylistShuffle, size: nat) -> bool {
    match shuffle {
        PlaylistShuffle::SmartRandom { blacklist_length } => blacklist_length < size,
        _ => true,
    }
}

/// The blacklist length chosen for a catalog of `size` tracks: half the
/// catalog for large catalogs, three fewer than its size for small ones.
pub open spec fn default_blacklist(size: nat) -> nat {
    if size > 10 {
        size / 2
    } else if size >= 3 {
        (size - 3) as nat
    } else {
        0
    }
}

/// A queue over which a cursor moves, forward or back, one track at a time or more.
pub trait PlaylistSeekable: Sized {
    /// The tracks in queue order, as far as they have been drawn.
    spec fn queued(&self) -> Seq<Song>;

    /// The position of the cursor in the queue.
    spec fn cursor(&self) -> nat;

    /// Whether the queue can be moved over.
    spec fn seekable(&self) -> bool;

    /// Moves the cursor by `offset` and returns the track it lands on, drawing
    /// tracks as needed; a move before the start is refused with `None`.
    fn seek(&mut self, offset: isize) -> (r: Option<Song>)
        requires
            old(self).seekable(),
            old(self).cursor() < HISTORY_LIMIT,
            old(self).cursor() + offset < HISTORY_LIMIT,
        ensures
            final(self).seekable(),
            final(self).cursor() < HISTORY_LIMIT,
            seek_outcome(old(self).queued(), old(self).cursor(), final(self).queued(), final(self).cursor(), offset as int, r),
    ;

    /// The track `offset` places away from the cursor, which stays where it is.
    fn peek(&mut self, offset: isize) -> (r: Option<Song>)
        requires
            old(self).seekable(),
            old(self).cursor() < HISTORY_LIMIT,
            old(self).cursor() + offset < HISTORY_LIMIT,
        ensures
            final(self).seekable(),
            final(self).cursor() < HISTORY_LIMIT,
            peek_outcome(old(self).queued(), old(self).cursor(), final(self).queued(), final(self).cursor(), offset as int, r),
    {
        if offset == 0 {
            self.seek(0)
        } else {
            let ghost q1 = self.queued();
            let song = self.seek(offset);
            if song.is_some() {
                let ghost q2 = self.queued();
                self.seek(-offset);
                proof {
                    lemma_extends_trans(q1, q2, self.queued());
                }
            }
            song
        }
    }

    /// The track under the cursor.
    fn current(&mut self) -> (r: Option<Song>)
        requires
            old(self).seekable(),
            old(self).cursor() < HISTORY_LIMIT,
        ensures
            final(self).seekable(),
            final(self).cursor() < HISTORY_LIMIT,
            peek_outcome(old(self).queued(), old(self).cursor(), final(self).queued(), final(self).cursor(), 0, r),
    {
        self.peek(0)
    }
}

/// Whether `q2` extends `q1`.
pub open spec fn extends<A>(q1: Seq<A>, q2: Seq<A>) -> bool {
    q1.len() <= q2.len() && q2.subrange(0, q1.len() as int) =~= q1
}

proof fn lemma_extends_trans<A>(q1: Seq<A>, q2: Seq<A>, q3: Seq<A>)
    requires
        extends(q1, q2),
        extends(q2, q3),
    ensures
        extends(q1, q3),
{
    assert(q3.subrange(0, q1.len() as int) =~= q2.subrange(0, q1.len() as int));
}

/// What a seek by `offset` does to a queue and cursor, and what it returns.
pub open spec fn seek_outcome(
    q1: Seq<Song>,
    c1: nat,
    q2: Seq<Song>,
    c2: nat,
    offset: int,
    r: Option<Song>,
) -> bool {
    let target = c1 + offset;
    if target < 0 {
        &&& r is None
        &&& q2 == q1
        &&& c2 == c1
    } else {
        &&& c2 == target
        &&& extends(q1, q2)
        &&& q2.len() == if target < q1.len() { q1.len() as int } else { target + 1 }
        &&& r == Some(q2[target])
    }
}

/// What a peek by `offset` does to a queue and cursor, and what it returns.
pub open spec fn peek_outcome(
    q1: Seq<Song>,
    c1: nat,
    q2: Seq<Song>,
    c2: nat,
    offset: int,
    r: Option<Song>,
) -> bool {
    let target = c1 + offset;
    &&& c2 == c1
    &&& extends(q1, q2)
    &&& if target < 0 {
        r is None && q2 == q1
    } else {
        target < q2.len() && r == Some(q2[target])
    }
}

/// A catalog with its queue of indices into it and a cursor over the queue.
#[derive(Debug)]
pub struct Playlist {
    mode: PlaylistShuffle,
    songs: Vec<Song>,
    song_indices: Vec<usize>,
    song_indices_index: usize,
}

/// Relies on rand's `IteratorRandom::choose`, driven by `rand::thread_rng`:
/// over a non-empty vector it returns one of its items, drawn uniformly, over
/// an empty one `None`. (`thread_rng` panics only when the operating system
/// cannot seed it.)
#[verifier::external_body]
fn choose_random(candidates: Vec<usize>) -> (r: Option<usize>)
    ensures
        candidates@.len() == 0 ==> r is None,
        candidates@.len() > 0 ==> r is Some && candidates@.contains(r->0),
{
    candidates.into_iter().choose(&mut rand::thread_rng())
}

/// Some index below `size` is missing from a sequence shorter than `size`.
proof fn lemma_unlisted_index(listed: Seq<usize>, size: usize)
    requires
        listed.len() < size,
    ensures
        exists|x: usize| x < size && !listed.contains(x),
{
    let all = Set::<usize>::range(0, size);
    <usize as FiniteRange>::range_properties(0, size);
    listed.lemma_cardinality_of_set();
    if forall|x: usize| x < size ==> listed.contains(x) {
        assert forall|x: usize| all.contains(x) implies listed.to_set().contains(x) by {
            assert(listed.contains(x));
        }
        lemma_len_subset(all, listed.to_set());
    }
}

proof fn lemma_push_contains(s: Seq<usize>, x: usize, y: usize)
    ensures
        s.push(x).contains(y) <==> (s.contains(y) || y == x),
{
    let t = s.push(x);
    if t.contains(y) {
        let k = choose|k: int| 0 <= k < t.len() && t[k] == y;
        if k < s.len() {
            assert(s[k] == y);
        }
    }
    if s.contains(y) {
        let k = choose|k: int| 0 <= k < s.len() && s[k] == y;
        assert(t[k] == y);
    }
    if y == x {
        assert(t[s.len() as int] == y);
    }
}

/// Whether `s` is strictly increasing: ordered, without repeats.
pub open spec fn increasing(s: Seq<usize>) -> bool {
    forall|a: int, b: int| 0 <= a < b < s.len() ==> s[a] < s[b]
}

/// Whether `r` lists exactly the indices below `bound` missing from `blocked`.
pub open spec fn lists_allowed(r: Seq<usize>, bound: int, blocked: Seq<usize>) -> bool {
    forall|x: usize| #[trigger] r.contains(x) <==> (x < bound && !blocked.contains(x))
}

proof fn lemma_allowed_step(prev: Seq<usize>, i: usize, blocked: Seq<usize>, r: Seq<usize>)
    requires
        lists_allowed(prev, i as int, blocked),
        r == if blocked.contains(i) { prev } else { prev.push(i) },
    ensures
        lists_allowed(r, i + 1, blocked),
{
    assert forall|x: usize| #[trigger] r.contains(x) <==> (x < i + 1 && !blocked.contains(x)) by {
        lemma_push_contains(prev, i, x);
        if prev.contains(x) {
            assert(x < i);
        }
    }
}

/// Appending an allowed index keeps a history valid.
proof fn lemma_push_valid(shuffle: PlaylistShuffle, size: nat, history: Seq<usize>, index: usize)
    requires
        valid_history(shuffle, size, history),
        may_follow(shuffle, size, history, index),
    ensures
        valid_history(shuffle, size, history.push(index)),
{
    let h2 = history.push(index);
    assert forall|i: int| 0 <= i < h2.len() implies may_follow(shuffle, size, h2.subrange(0, i), #[trigger] h2[i]) by {
        if i < history.len() {
            assert(h2.subrange(0, i) =~= history.subrange(0, i));
            assert(h2[i] == history[i]);
        } else {
            assert(h2.subrange(0, i) =~= history);
        }
    }
}

impl Playlist {
    /// The tracks of the catalog.
    pub closed spec fn catalog(&self) -> Seq<Song> {
        self.songs@
    }

    /// The history of catalog indices.
    pub closed spec fn indices(&self) -> Seq<usize> {
        self.song_indices@
    }

    /// The position of the cursor in the history.
    pub closed spec fn position(&self) -> nat {
        self.song_indices_index as nat
    }

    /// The policy that draws new entries.
    pub closed spec fn shuffle(&self) -> PlaylistShuffle {
        self.mode
    }

    /// Whether the queue's state is consistent.
    pub open spec fn well_formed(&self) -> bool {
        &&& self.catalog().len() > 0
        &&& shuffle_fits(self.shuffle(), self.catalog().len())
        &&& valid_history(self.shuffle(), self.catalog().len(), self.indices())
        &&& self.position() <= self.indices().len()
        &&& self.indices().len() <= HISTORY_LIMIT
        &&& self.position() < HISTORY_LIMIT
    }

    /// A queue over `songs` with the default policy: a random order that
    /// skips the tracks played most recently, as many as `default_blacklist`.
    pub fn new(songs: Vec<Song>) -> (r: Result<Playlist, PlaylistError>)
        ensures
            songs@.len() == 0 ==> r == Err::<Playlist, PlaylistError>(PlaylistError::EmptyCatalog),
            songs@.len() > 0 ==> r is Ok,
            r matches Ok(p) ==> {
                &&& p.well_formed()
                &&& p.catalog() == songs@
                &&& p.indices().len() == 0
                &&& p.position() == 0
                &&& p.shuffle() == (PlaylistShuffle::SmartRandom {
                    blacklist_length: default_blacklist(songs@.len()) as usize,
                })
            },
    {
        let n = songs.len();
        let blacklist_length = if n > 10 {
            n / 2
        } else {
            n.saturating_sub(3)
        };
        Playlist::with_shuffle(songs, PlaylistShuffle::SmartRandom { blacklist_length })
    }

    /// A queue over `songs` drawing under `shuffle`. It is refused for an
    /// empty catalog, and for a blacklist as long as the catalog or longer.
    pub fn with_shuffle(songs: Vec<Song>, shuffle: PlaylistShuffle) -> (r: Result<Playlist, PlaylistError>)
        ensures
            songs@.len() == 0 ==> r == Err::<Playlist, PlaylistError>(PlaylistError::EmptyCatalog),
            songs@.len() > 0 && !shuffle_fits(shuffle, songs@.len()) ==> r == Err::<Playlist, PlaylistError>(
                PlaylistError::BlacklistTooLong,
            ),
            songs@.len() > 0 && shuffle_fits(shuffle, songs@.len()) ==> r is Ok,
            r matches Ok(p) ==> {
                &&& p.well_formed()
                &&& p.catalog() == songs@
                &&& p.indices().len() == 0
                &&& p.position() == 0
                &&& p.shuffle() == shuffle
            },
    {
        if songs.len() == 0 {
            return Err(PlaylistError::EmptyCatalog);
        }
        if let PlaylistShuffle::SmartRandom { blacklist_length } = shuffle {
            if blacklist_length >= songs.len() {
                return Err(PlaylistError::BlacklistTooLong);
            }
        }
        Ok(Playlist { mode: shuffle, songs, song_indices: Vec::new(), song_indices_index: 0 })
    }

    /// The policy that draws new entries.
    pub fn mode(&self) -> (r: PlaylistShuffle)
        ensures
            r == self.shuffle(),
    {
        self.mode
    }

    /// The number of tracks in the catalog.
    pub fn len(&self) -> (r: usize)
        ensures
            r == self.catalog().len(),
    {
        self.songs.len()
    }

    /// The position of the cursor.
    pub fn index(&self) -> (r: usize)
        ensures
            r == self.position(),
    {
        self.song_indices_index
    }

    /// The history of catalog indices drawn so far.
    pub fn history(&self) -> (r: &Vec<usize>)
        ensures
            r@ == self.indices(),
    {
        &self.song_indices
    }

    /// The catalog indices that may be drawn next: for `Normal` the one that
    /// follows, otherwise every index the policy allows, in increasing order.
    pub fn candidates(&self) -> (r: Vec<usize>)
        requires
            self.well_formed(),
        ensures
            forall|x: usize|
                r@.contains(x) <==> may_follow(self.shuffle(), self.catalog().len(), self.indices(), x),
            r@.len() > 0,
            increasing(r@),
    {
        let n = self.songs.len();
        let ghost size = self.catalog().len();
        let ghost history = self.indices();
        match self.mode {
            PlaylistShuffle::Normal => {
                let next = match self.song_indices.last() {
                    Some(last) => {
                        proof {
                            assert(history[history.len() - 1] < size) by {
                                let k = history.len() - 1;
                                assert(may_follow(self.shuffle(), size, history.subrange(0, k), history[k]));
                                if history.subrange(0, k).len() > 0 {
                                    assert(0 <= history[k] < size) by (nonlinear_arith)
                                        requires
                                            history[k] == (history.subrange(0, k).last() + 1) % (size as int),
                                            size > 0;
                                }
                            }
                        }
                        (*last + 1) % n
                    },
                    None => 0,
                };
                assert(next == next_in_order(size, history));
                let mut r: Vec<usize> = Vec::new();
                r.push(next);
                proof {
                    assert forall|x: usize| r@.contains(x) <==> may_follow(self.shuffle(), size, history, x) by {
                        lemma_push_contains(Seq::empty(), next, x);
                        assert(r@ =~= Seq::<usize>::empty().push(next));
                        assert(self.shuffle() == PlaylistShuffle::Normal);
                        assert(may_follow(self.shuffle(), size, history, x) <==> x == next);
                    }
                }
                r
            },
            PlaylistShuffle::Random => {
                let ghost none = Seq::<usize>::empty();
                let mut r: Vec<usize> = Vec::new();
                let mut i: usize = 0;
                while i < n
                    invariant
                        n == size,
                        i <= n,
                        none == Seq::<usize>::empty(),
                        lists_allowed(r@, i as int, none),
                        increasing(r@),
                        forall|k: int| 0 <= k < r@.len() ==> r@[k] < i,
                    decreases n - i,
                {
                    let ghost prev = r@;
                    r.push(i);
                    proof {
                        assert(!none.contains(i));
                        lemma_allowed_step(prev, i, none, r@);
                    }
                    i += 1;
                }
                proof {
                    assert(r@.contains(0usize));
                }
                r
            },
            PlaylistShuffle::SmartRandom { blacklist_length } => {
                let len = self.song_indices.len();
                let start = if blacklist_length <= len {
                    len - blacklist_length
                } else {
                    0
                };
                let ghost blocked = recent(history, blacklist_length as nat);
                proof {
                    assert(blocked =~= history.subrange(start as int, len as int));
                }
                let mut r: Vec<usize> = Vec::new();
                let mut i: usize = 0;
                while i < n
                    invariant
                        n == size,
                        i <= n,
                        len == history.len(),
                        history == self.song_indices@,
                        blocked == history.subrange(start as int, len as int),
                        start <= len,
                        lists_allowed(r@, i as int, blocked),
                        increasing(r@),
                        forall|k: int| 0 <= k < r@.len() ==> r@[k] < i,
                    decreases n - i,
                {
                    let mut listed = false;
                    let mut j: usize = start;
                    while j < len
                        invariant
                            i < n,
                            lists_allowed(r@, i as int, blocked),
                            increasing(r@),
                            forall|k: int| 0 <= k < r@.len() ==> r@[k] < i,
                            start <= j <= len,
                            len == history.len(),
                            history == self.song_indices@,
                            blocked == history.subrange(start as int, len as int),
                            listed <==> exists|k: int| start <= k < j && history[k] == i,
                        decreases len - j,
                    {
                        if self.song_indices[j] == i {
                            listed = true;
                        }
                        j += 1;
                    }
                    proof {
                        if listed {
                            let k = choose|k: int| start <= k < len && history[k] == i;
                            assert(blocked[k - start] == i);
                        } else if blocked.contains(i) {
                            let k = choose|k: int| 0 <= k < blocked.len() && blocked[k] == i;
                            assert(start <= k + start < len && history[k + start] == i);
                        }
                        assert(listed <==> blocked.contains(i));
                    }
                    let ghost prev = r@;
                    if !listed {
                        r.push(i);
                    }
                    proof {
                        lemma_allowed_step(prev, i, blocked, r@);
                    }
                    i += 1;
                }
                proof {
                    lemma_unlisted_index(blocked, n);
                    let x = choose|x: usize| x < n && !blocked.contains(x);
                    assert(r@.contains(x));
                }
                r
            },
        }
    }

    /// Draws the next catalog index under the queue's policy.
    fn new_song_index(&self) -> (r: usize)
        requires
            self.well_formed(),
        ensures
            may_follow(self.shuffle(), self.catalog().len(), self.indices(), r),
    {
        let candidates = self.candidates();
        let ghost allowed = candidates@;
        match self.mode {
            PlaylistShuffle::Normal => {
                assert(allowed.contains(allowed[0]));
                candidates[0]
            },
            _ => match choose_random(candidates) {
                Some(i) => i,
                None => {
                    proof {
                        assert(false);
                    }
                    0
                },
            },
        }
    }
}

/// Each entry of a valid history is an index of the catalog.
proof fn lemma_valid_in_range(shuffle: PlaylistShuffle, size: nat, history: Seq<usize>, i: int)
    requires
        valid_history(shuffle, size, history),
        size > 0,
        0 <= i < history.len(),
    ensures
        history[i] < size,
{
    let prefix = history.subrange(0, i);
    assert(may_follow(shuffle, size, prefix, history[i]));
    if shuffle == PlaylistShuffle::Normal && prefix.len() > 0 {
        assert(0 <= (prefix.last() + 1) % (size as int) < size) by (nonlinear_arith)
            requires
                size > 0,
                prefix.last() >= 0;
    }
}

impl Playlist {
    /// The queue as tracks: each index of the history mapped into the catalog.
    pub open spec fn tracks(&self) -> Seq<Song> {
        self.indices().map_values(|i: usize| self.catalog()[i as int])
    }
}

proof fn lemma_tracks_extend(before: Playlist, after: Playlist)
    requires
        before.catalog() == after.catalog(),
        extends(before.indices(), after.indices()),
    ensures
        extends(before.tracks(), after.tracks()),
{
    let n = before.indices().len() as int;
    assert forall|k: int| 0 <= k < n implies after.tracks().subrange(0, n)[k] == before.tracks()[k] by {
        assert(after.indices()[k] == after.indices().subrange(0, n)[k]);
    }
}

impl PlaylistSeekable for Playlist {
    open spec fn queued(&self) -> Seq<Song> {
        self.tracks()
    }

    open spec fn cursor(&self) -> nat {
        self.position()
    }

    open spec fn seekable(&self) -> bool {
        self.well_formed()
    }

    fn seek(&mut self, offset: isize) -> (r: Option<Song>)
        ensures
            seeked(*old(self), *final(self), offset as int),
    {
        let target = self.song_indices_index as isize + offset;
        if target < 0 {
            return None;
        }
        let target = target as usize;
        let ghost start_len = self.indices().len();
        while self.song_indices.len() <= target
            invariant
                self.well_formed(),
                target < HISTORY_LIMIT,
                self.catalog() == old(self).catalog(),
                self.shuffle() == old(self).shuffle(),
                self.position() == old(self).position(),
                start_len == old(self).indices().len(),
                extends(old(self).indices(), self.indices()),
                self.indices().len() == start_len || self.indices().len() <= target + 1,
            decreases target + 1 - self.indices().len(),
        {
            let index = self.new_song_index();
            proof {
                lemma_push_valid(self.shuffle(), self.catalog().len(), self.indices(), index);
            }
            self.song_indices.push(index);
        }
        self.song_indices_index = target;
        proof {
            lemma_valid_in_range(self.shuffle(), self.catalog().len(), self.indices(), target as int);
            lemma_tracks_extend(*old(self), *self);
        }
        let song = self.songs[self.song_indices[target]].clone();
        Some(song)
    }
}

/// What a seek by `offset` keeps of a playlist: a refused move changes
/// nothing; otherwise the catalog and policy stay and the history only grows.
pub open spec fn seeked(before: Playlist, after: Playlist, offset: int) -> bool {
    &&& before.position() + offset < 0 ==> after == before
    &&& after.catalog() == before.catalog()
    &&& after.shuffle() == before.shuffle()
    &&& extends(before.indices(), after.indices())
}

/// Seeking by zero twice in a row returns the same track both times, and the
/// second seek leaves the queue and the cursor as the first one left them.
pub proof fn lemma_seek_zero_idempotent(
    q0: Seq<Song>,
    c0: nat,
    q1: Seq<Song>,
    c1: nat,
    r1: Option<Song>,
    q2: Seq<Song>,
    c2: nat,
    r2: Option<Song>,
)
    requires
        seek_outcome(q0, c0, q1, c1, 0, r1),
        seek_outcome(q1, c1, q2, c2, 0, r2),
    ensures
        r2 == r1,
        q2 == q1,
        c2 == c1,
{
    assert(q2 =~= q2.subrange(0, q1.len() as int));
}

/// A peek by `k` followed by a seek by `k` returns the track the peek
/// returned, and leaves the cursor where a seek by `k` alone would have.
pub proof fn lemma_peek_then_seek(
    q0: Seq<Song>,
    c0: nat,
    q1: Seq<Song>,
    c1: nat,
    r1: Option<Song>,
    q2: Seq<Song>,
    c2: nat,
    r2: Option<Song>,
    k: int,
)
    requires
        peek_outcome(q0, c0, q1, c1, k, r1),
        seek_outcome(q1, c1, q2, c2, k, r2),
    ensures
        r2 == r1,
        forall|q: Seq<Song>, c: nat, r: Option<Song>|
            #[trigger] seek_outcome(q0, c0, q, c, k, r) ==> c2 == c,
{
    if c0 + k >= 0 {
        assert(q2[c0 + k] == q2.subrange(0, q1.len() as int)[c0 + k]);
    }
}

/// Under a blacklist of length `n`, a seek that draws one new entry never
/// lands on a catalog index among the last `n` entries of the history as it
/// stood before the call, and returns the track at the index it drew.
pub proof fn lemma_blacklist_respected(
    before: Playlist,
    after: Playlist,
    offset: int,
    r: Option<Song>,
    n: usize,
)
    requires
        before.well_formed(),
        after.well_formed(),
        before.shuffle() == (PlaylistShuffle::SmartRandom { blacklist_length: n }),
        before.position() + offset == before.indices().len(),
        seek_outcome(before.tracks(), before.position(), after.tracks(), after.position(), offset, r),
        seeked(before, after, offset),
    ensures
        !recent(before.indices(), n as nat).contains(after.indices()[after.position() as int]),
        r == Some(after.catalog()[after.indices()[after.position() as int] as int]),
{
    let len = before.indices().len() as int;
    let drawn = after.indices()[len];
    assert(after.indices().subrange(0, len) =~= before.indices());
    assert(may_follow(after.shuffle(), after.catalog().len(), after.indices().subrange(0, len), drawn));
}

} // verus!
