//! The session registry: the mapping from session identifier to that
//! session's audio-ingest queue.
//!
//! The registry owns session creation (exactly once per identifier),
//! forwarding of audio frames into a session's queue, and teardown. Its view
//! is a map from identifier to session state, so every operation states
//! exactly how the mapping changes.

use vstd::prelude::*;

use crate::error::SessionError;
use crate::queue::FrameQueue;
use crate::queue::INGEST_CAPACITY;

verus! {

/// One active session: its ingest queue and whether its upstream side is
/// still alive.
pub struct Session {
    queue: FrameQueue,
    open: bool,
}

/// The mathematical value of a session: the queued frame payloads and the
/// liveness of its upstream side.
pub struct SessionView {
    pub pending: Seq<Seq<u8>>,
    pub open: bool,
}

impl View for Session {
    type V = SessionView;

    closed spec fn view(&self) -> SessionView {
        SessionView { pending: self.queue@, open: self.open }
    }
}

/// Whether some entry of `s` carries the identifier `k`.
pub open spec fn has_id(s: Seq<(String, Session)>, k: Seq<char>) -> bool {
    exists|i: int| 0 <= i < s.len() && s[i].0@ == k
}

/// Whether the identifiers of `s` are pairwise distinct.
pub open spec fn ids_distinct(s: Seq<(String, Session)>) -> bool {
    forall|i: int, j: int| 0 <= i < j < s.len() ==> s[i].0@ != s[j].0@
}

/// The mapping that an entry list stands for.
pub open spec fn entries_map(s: Seq<(String, Session)>) -> Map<Seq<char>, SessionView>
    decreases s.len(),
{
    if s.len() == 0 {
        Map::empty()
    } else {
        entries_map(s.drop_last()).insert(s.last().0@, s.last().1@)
    }
}

/// An identifier is in the mapping exactly when some entry carries it.
proof fn lemma_entries_map_dom(s: Seq<(String, Session)>, k: Seq<char>)
    ensures
        entries_map(s).contains_key(k) <==> has_id(s, k),
    decreases s.len(),
{
    if s.len() > 0 {
        lemma_entries_map_dom(s.drop_last(), k);
        if has_id(s.drop_last(), k) {
            let i = choose|i: int| 0 <= i < s.drop_last().len() && s.drop_last()[i].0@ == k;
            assert(s[i].0@ == k);
        }
        if has_id(s, k) && s.last().0@ != k {
            let i = choose|i: int| 0 <= i < s.len() && s[i].0@ == k;
            assert(s.drop_last()[i].0@ == k);
        }
    }
}

/// Under distinctness, the mapping sends each entry's identifier to that
/// entry's session.
proof fn lemma_entries_map_value(s: Seq<(String, Session)>, i: int)
    requires
        ids_distinct(s),
        0 <= i < s.len(),
    ensures
        entries_map(s).contains_key(s[i].0@),
        entries_map(s)[s[i].0@] == s[i].1@,
    decreases s.len(),
{
    if i == s.len() - 1 {
    } else {
        assert(ids_distinct(s.drop_last()));
        assert(s.drop_last()[i] == s[i]);
        lemma_entries_map_value(s.drop_last(), i);
        assert(s[i].0@ != s.last().0@);
    }
}

/// Replacing the session of one entry, keeping its identifier, updates the
/// mapping at that identifier.
proof fn lemma_entries_map_update(s: Seq<(String, Session)>, i: int, p: (String, Session))
    requires
        ids_distinct(s),
        0 <= i < s.len(),
        p.0@ == s[i].0@,
    ensures
        entries_map(s.update(i, p)) == entries_map(s).insert(p.0@, p.1@),
    decreases s.len(),
{
    let t = s.update(i, p);
    if i == s.len() - 1 {
        assert(t.drop_last() =~= s.drop_last());
        assert(t.last() == p);
        assert(entries_map(t) =~= entries_map(s).insert(p.0@, p.1@));
    } else {
        assert(ids_distinct(s.drop_last()));
        assert(s.drop_last()[i] == s[i]);
        lemma_entries_map_update(s.drop_last(), i, p);
        assert(t.drop_last() =~= s.drop_last().update(i, p));
        assert(t.last() == s.last());
        assert(s[i].0@ != s.last().0@);
        assert(entries_map(t) =~= entries_map(s).insert(p.0@, p.1@));
    }
}

/// Removing one entry removes exactly its identifier from the mapping.
proof fn lemma_entries_map_remove(s: Seq<(String, Session)>, i: int)
    requires
        ids_distinct(s),
        0 <= i < s.len(),
    ensures
        entries_map(s.remove(i)) == entries_map(s).remove(s[i].0@),
    decreases s.len(),
{
    let t = s.remove(i);
    if i == s.len() - 1 {
        assert(t =~= s.drop_last());
        lemma_entries_map_dom(s.drop_last(), s[i].0@);
        assert(!has_id(s.drop_last(), s[i].0@)) by {
            if has_id(s.drop_last(), s[i].0@) {
                let j = choose|j: int|
                    0 <= j < s.drop_last().len() && s.drop_last()[j].0@ == s[i].0@;
                assert(s[j].0@ == s[i].0@);
            }
        }
        assert(entries_map(t) =~= entries_map(s).remove(s[i].0@));
    } else {
        assert(ids_distinct(s.drop_last()));
        assert(s.drop_last()[i] == s[i]);
        lemma_entries_map_remove(s.drop_last(), i);
        assert(t.drop_last() =~= s.drop_last().remove(i));
        assert(t.last() == s.last());
        assert(s[i].0@ != s.last().0@);
        assert(entries_map(t) =~= entries_map(s).remove(s[i].0@));
    }
}

/// Appending an entry with a fresh identifier keeps the identifiers
/// pairwise distinct.
proof fn lemma_ids_distinct_push(s: Seq<(String, Session)>, p: (String, Session))
    requires
        ids_distinct(s),
        !has_id(s, p.0@),
    ensures
        ids_distinct(s.push(p)),
{
    let t = s.push(p);
    assert forall|i: int, j: int| 0 <= i < j < t.len() implies t[i].0@ != t[j].0@ by {
        if j == t.len() - 1 {
            if s[i].0@ == p.0@ {
                assert(has_id(s, p.0@));
            }
        } else {
            assert(s[i].0@ != s[j].0@);
        }
    }
}

/// Replacing the session of one entry, keeping its identifier, keeps the
/// identifiers pairwise distinct.
proof fn lemma_ids_distinct_update(s: Seq<(String, Session)>, i: int, p: (String, Session))
    requires
        ids_distinct(s),
        0 <= i < s.len(),
        p.0@ == s[i].0@,
    ensures
        ids_distinct(s.update(i, p)),
{
    let t = s.update(i, p);
    assert forall|i2: int, j2: int| 0 <= i2 < j2 < t.len() implies t[i2].0@ != t[j2].0@ by {
        assert(s[i2].0@ != s[j2].0@);
        assert(t[i2].0@ == s[i2].0@);
        assert(t[j2].0@ == s[j2].0@);
    }
}

/// Removing one entry keeps the identifiers pairwise distinct.
proof fn lemma_ids_distinct_remove(s: Seq<(String, Session)>, i: int)
    requires
        ids_distinct(s),
        0 <= i < s.len(),
    ensures
        ids_distinct(s.remove(i)),
{
    let t = s.remove(i);
    assert forall|i2: int, j2: int| 0 <= i2 < j2 < t.len() implies t[i2].0@ != t[j2].0@ by {
        let k2 = if i2 < i {
            i2
        } else {
            i2 + 1
        };
        let l2 = if j2 < i {
            j2
        } else {
            j2 + 1
        };
        assert(t[i2] == s[k2]);
        assert(t[j2] == s[l2]);
        assert(s[k2].0@ != s[l2].0@);
    }
}

/// What a push into a session's ingest queue came to: the frame was taken,
/// or the queue is at capacity and the frame is handed back for the
/// producer to offer again once the relay has drained.
#[derive(Debug, PartialEq, Eq)]
pub enum PushOutcome {
    /// The frame was appended to the session's queue.
    Accepted,
    /// The queue already holds `INGEST_CAPACITY` frames; the frame is
    /// returned unchanged.
    Full(Vec<u8>),
}

/// The registry of active sessions.
pub struct Registry {
    entries: Vec<(String, Session)>,
}

impl View for Registry {
    type V = Map<Seq<char>, SessionView>;

    closed spec fn view(&self) -> Map<Seq<char>, SessionView> {
        entries_map(self.entries@)
    }
}

impl Registry {
    /// The registry's identifiers are pairwise distinct.
    pub closed spec fn wf(&self) -> bool {
        ids_distinct(self.entries@)
    }

    /// An empty registry.
    pub fn new() -> (r: Registry)
        ensures
            r.wf(),
            r@ == Map::<Seq<char>, SessionView>::empty(),
    {
        let r = Registry { entries: Vec::new() };
        proof {
            assert(r.entries@ =~= Seq::<(String, Session)>::empty());
        }
        r
    }

    /// The position of the entry carrying `id`, if there is one.
    fn find_index(&self, id: &String) -> (r: Option<usize>)
        ensures
            match r {
                Some(i) => i < self.entries@.len() && self.entries@[i as int].0@ == id@,
                None => !has_id(self.entries@, id@),
            },
    {
        let mut i: usize = 0;
        while i < self.entries.len()
            invariant
                i <= self.entries@.len(),
                forall|j: int| 0 <= j < i ==> self.entries@[j].0@ != id@,
            decreases self.entries@.len() - i,
        {
            if self.entries[i].0 == *id {
                return Some(i);
            }
            i = i + 1;
        }
        None
    }

    /// Whether a session with this identifier is active.
    pub fn contains(&self, id: &String) -> (r: bool)
        ensures
            r == self@.contains_key(id@),
    {
        proof {
            lemma_entries_map_dom(self.entries@, id@);
        }
        match self.find_index(id) {
            Some(i) => {
                proof {
                    assert(has_id(self.entries@, id@));
                }
                true
            },
            None => false,
        }
    }

    /// Start bookkeeping for a new session: rejected with `AlreadyActive`
    /// when the identifier is already present, otherwise the identifier is
    /// bound to a fresh open session with an empty queue.
    pub fn create(&mut self, id: String) -> (r: Result<(), SessionError>)
        requires
            old(self).wf(),
        ensures
            final(self).wf(),
            old(self)@.contains_key(id@) ==> r == Err::<(), SessionError>(
                SessionError::AlreadyActive,
            ) && final(self)@ == old(self)@,
            !old(self)@.contains_key(id@) ==> r == Ok::<(), SessionError>(()) && final(self)@
                == old(self)@.insert(id@, SessionView { pending: Seq::empty(), open: true }),
    {
        proof {
            lemma_entries_map_dom(self.entries@, id@);
        }
        match self.find_index(&id) {
            Some(i) => {
                proof {
                    assert(has_id(self.entries@, id@));
                }
                Err(SessionError::AlreadyActive)
            },
            None => {
                let ghost before = self.entries@;
                let session = Session { queue: FrameQueue::new(), open: true };
                self.entries.push((id, session));
                proof {
                    assert(self.entries@ =~= before.push(self.entries@.last()));
                    assert(self.entries@.drop_last() =~= before);
                    assert(self.entries@.last().1@ == SessionView {
                        pending: Seq::<Seq<u8>>::empty(),
                        open: true,
                    });
                    lemma_ids_distinct_push(before, self.entries@.last());
                }
                Ok(())
            },
        }
    }

    /// Enqueue one audio frame for a session: `InvalidSession` when the
    /// identifier is unknown, `ChannelClosed` when the session's upstream
    /// side has gone away, `Full` (with the frame handed back) when the
    /// session's queue is at capacity, otherwise the frame is appended to
    /// that session's queue.
    pub fn push_audio(&mut self, id: &String, frame: Vec<u8>) -> (r: Result<
        PushOutcome,
        SessionError,
    >)
        requires
            old(self).wf(),
        ensures
            final(self).wf(),
            !old(self)@.contains_key(id@) ==> r == Err::<PushOutcome, SessionError>(
                SessionError::InvalidSession,
            ) && final(self)@ == old(self)@,
            old(self)@.contains_key(id@) && !old(self)@[id@].open ==> r == Err::<
                PushOutcome,
                SessionError,
            >(SessionError::ChannelClosed) && final(self)@ == old(self)@,
            old(self)@.contains_key(id@) && old(self)@[id@].open && old(self)@[id@].pending.len()
                < INGEST_CAPACITY ==> (r matches Ok(o) && o is Accepted) && final(self)@ == old(
                self,
            )@.insert(
                id@,
                SessionView { pending: old(self)@[id@].pending.push(frame@), open: true },
            ),
            old(self)@.contains_key(id@) && old(self)@[id@].open && old(self)@[id@].pending.len()
                >= INGEST_CAPACITY ==> (r matches Ok(o) && o matches PushOutcome::Full(f) && f@
                == frame@) && final(self)@ == old(self)@,
    {
        proof {
            lemma_entries_map_dom(self.entries@, id@);
        }
        match self.find_index(id) {
            None => Err(SessionError::InvalidSession),
            Some(i) => {
                proof {
                    assert(has_id(self.entries@, id@));
                    lemma_entries_map_value(self.entries@, i as int);
                }
                let ghost before = self.entries@;
                let mut pair = self.entries.remove(i);
                if !pair.1.open {
                    self.entries.insert(i, pair);
                    proof {
                        assert(self.entries@ =~= before);
                    }
                    Err(SessionError::ChannelClosed)
                } else {
                    let rejected = pair.1.queue.try_push(frame);
                    let ghost updated = pair;
                    self.entries.insert(i, pair);
                    proof {
                        assert(self.entries@ =~= before.update(i as int, updated));
                        lemma_entries_map_update(before, i as int, updated);
                        lemma_ids_distinct_update(before, i as int, updated);
                    }
                    match rejected {
                        None => Ok(PushOutcome::Accepted),
                        Some(f) => {
                            proof {
                                assert(updated.1@ == before[i as int].1@);
                                assert(entries_map(self.entries@) =~= entries_map(before));
                            }
                            Ok(PushOutcome::Full(f))
                        },
                    }
                }
            },
        }
    }

    /// Take the oldest not-yet-forwarded frame of a session, as the ingest
    /// relay does: `InvalidSession` when the identifier is unknown (the
    /// session was torn down), `Ok(None)` when nothing is queued, otherwise
    /// the oldest queued frame, removed from the queue.
    pub fn take_frame(&mut self, id: &String) -> (r: Result<Option<Vec<u8>>, SessionError>)
        requires
            old(self).wf(),
        ensures
            final(self).wf(),
            !old(self)@.contains_key(id@) ==> r == Err::<Option<Vec<u8>>, SessionError>(
                SessionError::InvalidSession,
            ) && final(self)@ == old(self)@,
            old(self)@.contains_key(id@) && old(self)@[id@].pending.len() == 0 ==> r == Ok::<
                Option<Vec<u8>>,
                SessionError,
            >(None) && final(self)@ == old(self)@,
            old(self)@.contains_key(id@) && old(self)@[id@].pending.len() > 0 ==> (r matches Ok(f)
                && f matches Some(v) && v@ == old(self)@[id@].pending[0]) && final(self)@ == old(
                self,
            )@.insert(
                id@,
                SessionView {
                    pending: old(self)@[id@].pending.drop_first(),
                    open: old(self)@[id@].open,
                },
            ),
    {
        proof {
            lemma_entries_map_dom(self.entries@, id@);
        }
        match self.find_index(id) {
            None => Err(SessionError::InvalidSession),
            Some(i) => {
                proof {
                    assert(has_id(self.entries@, id@));
                    lemma_entries_map_value(self.entries@, i as int);
                }
                let ghost before = self.entries@;
                let mut pair = self.entries.remove(i);
                let taken = pair.1.queue.pop();
                let ghost updated = pair;
                self.entries.insert(i, pair);
                proof {
                    assert(self.entries@ =~= before.update(i as int, updated));
                    lemma_entries_map_update(before, i as int, updated);
                    lemma_ids_distinct_update(before, i as int, updated);
                }
                match taken {
                    None => {
                        proof {
                            assert(updated.1@ == before[i as int].1@);
                            assert(entries_map(self.entries@) =~= entries_map(before));
                        }
                        Ok(None)
                    },
                    Some(frame) => Ok(Some(frame)),
                }
            },
        }
    }

    /// Record that a session's upstream side has gone away: a later
    /// `push_audio` then reports `ChannelClosed`. Unknown identifiers are
    /// left alone.
    pub fn mark_closed(&mut self, id: &String)
        requires
            old(self).wf(),
        ensures
            final(self).wf(),
            !old(self)@.contains_key(id@) ==> final(self)@ == old(self)@,
            old(self)@.contains_key(id@) ==> final(self)@ == old(self)@.insert(
                id@,
                SessionView { pending: old(self)@[id@].pending, open: false },
            ),
    {
        proof {
            lemma_entries_map_dom(self.entries@, id@);
        }
        match self.find_index(id) {
            None => (),
            Some(i) => {
                proof {
                    assert(has_id(self.entries@, id@));
                    lemma_entries_map_value(self.entries@, i as int);
                }
                let ghost before = self.entries@;
                let mut pair = self.entries.remove(i);
                pair.1.open = false;
                let ghost updated = pair;
                self.entries.insert(i, pair);
                proof {
                    assert(self.entries@ =~= before.update(i as int, updated));
                    lemma_entries_map_update(before, i as int, updated);
                    lemma_ids_distinct_update(before, i as int, updated);
                }
            },
        }
    }

    /// Tear a session down: `NotFound` when the identifier is unknown,
    /// otherwise the entry is removed and the not-yet-forwarded frames are
    /// handed back so the ingest relay can drain them and close.
    pub fn stop(&mut self, id: &String) -> (r: Result<FrameQueue, SessionError>)
        requires
            old(self).wf(),
        ensures
            final(self).wf(),
            !old(self)@.contains_key(id@) ==> r == Err::<FrameQueue, SessionError>(
                SessionError::NotFound,
            ) && final(self)@ == old(self)@,
            old(self)@.contains_key(id@) ==> (r matches Ok(q) && q@ == old(self)@[id@].pending)
                && final(self)@ == old(self)@.remove(id@),
    {
        proof {
            lemma_entries_map_dom(self.entries@, id@);
        }
        match self.find_index(id) {
            None => Err(SessionError::NotFound),
            Some(i) => {
                proof {
                    assert(has_id(self.entries@, id@));
                    lemma_entries_map_value(self.entries@, i as int);
                    lemma_entries_map_remove(self.entries@, i as int);
                }
                let ghost before = self.entries@;
                let pair = self.entries.remove(i);
                proof {
                    lemma_ids_distinct_remove(before, i as int);
                }
                let Session { queue, open: _ } = pair.1;
                Ok(queue)
            },
        }
    }
}

/// Starting a session under an identifier that is already active fails,
/// whatever happens meanwhile to sessions under other identifiers: neither
/// creating nor removing a different identifier frees the active one.
pub proof fn lemma_uniqueness_stable(
    m: Map<Seq<char>, SessionView>,
    id: Seq<char>,
    other: Seq<char>,
    s: SessionView,
)
    requires
        m.contains_key(id),
        other != id,
    ensures
        m.insert(other, s).contains_key(id),
        m.remove(other).contains_key(id),
{
}

/// After a session is torn down, its identifier is no longer in the
/// mapping, so a later `push_audio` under that identifier is rejected as
/// `InvalidSession`.
pub proof fn lemma_teardown(m: Map<Seq<char>, SessionView>, id: Seq<char>)
    ensures
        !m.remove(id).contains_key(id),
{
}

} // verus!
