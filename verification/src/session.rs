//! The session store.
//!
//! A session is created when an `initialize` request is accepted on the
//! HTTP surface: it gets a fresh opaque identifier and a bounded
//! broadcast channel for server-to-client pushes.  The store owns the
//! records; handlers obtain only a sender or receiver handle.  The lock
//! that shares the store among connections lives outside the library;
//! every handler works on the store under it.

use crate::text::str_eq;
use vstd::prelude::*;
use vstd::string::*;

verus! {

/// How many undelivered messages a session's channel holds before a slow
/// subscriber starts losing the oldest.
pub const CHANNEL_CAPACITY: usize = 100;

/// A message pushed to a session's subscribers: an event identifier for
/// resume semantics and an opaque payload.
#[derive(Debug, Clone)]
pub struct SseMessage {
    pub event_id: String,
    pub data: String,
}

#[verifier::external_type_specification]
#[verifier::external_body]
#[verifier::reject_recursive_types(T)]
pub struct ExSender<T>(tokio::sync::broadcast::Sender<T>);

#[verifier::external_type_specification]
#[verifier::external_body]
#[verifier::reject_recursive_types(T)]
pub struct ExReceiver<T>(tokio::sync::broadcast::Receiver<T>);

/// Relies on `tokio::sync::broadcast::channel`: the sending half of a
/// fresh channel that retains at least `capacity` messages.  The excluded
/// capacities are the ones tokio panics on.
#[verifier::external_body]
fn new_broadcast_sender(capacity: usize) -> (r: tokio::sync::broadcast::Sender<SseMessage>)
    requires
        1 <= capacity <= usize::MAX / 2,
{
    tokio::sync::broadcast::channel(capacity).0
}

/// Relies on `tokio::sync::broadcast::Sender::clone`: another handle to
/// the same channel.
#[verifier::external_body]
fn clone_sender(
    s: &tokio::sync::broadcast::Sender<SseMessage>,
) -> (r: tokio::sync::broadcast::Sender<SseMessage>) {
    s.clone()
}

/// Relies on `tokio::sync::broadcast::Sender::subscribe`: a new
/// independent receiver that observes only messages sent after this
/// call.
#[verifier::external_body]
fn subscribe_sender(
    s: &tokio::sync::broadcast::Sender<SseMessage>,
) -> (r: tokio::sync::broadcast::Receiver<SseMessage>) {
    s.subscribe()
}

/// Relies on `uuid::Uuid::new_v4` and its `to_string`: a freshly drawn
/// random identifier in hyphenated text form.  Nothing is assumed of its
/// value.
#[verifier::external_body]
fn new_session_uuid() -> (r: String) {
    uuid::Uuid::new_v4().to_string()
}

/// Relies on `time::OffsetDateTime::now_utc` and `unix_timestamp`: the
/// current time in seconds since the Unix epoch.  Nothing is assumed of
/// its value.
#[verifier::external_body]
fn now_unix_secs() -> (r: i64) {
    time::OffsetDateTime::now_utc().unix_timestamp()
}

/// One session record: its identifier, its creation time, and the
/// sending half of its broadcast channel.
#[derive(Debug)]
pub struct Session {
    pub id: String,
    /// Seconds since the Unix epoch.
    pub created_at: i64,
    pub tx: tokio::sync::broadcast::Sender<SseMessage>,
}

/// The identifiers of a sequence of sessions, in order.
pub open spec fn ids_of(s: Seq<Session>) -> Seq<Seq<char>> {
    Seq::new(s.len(), |i: int| s[i].id@)
}

/// The shared per-process state of the HTTP surface: the session
/// registry, the configured origin allow-list, and the broadcast
/// capacity policy.
#[derive(Debug)]
pub struct AppState {
    pub sessions: Vec<Session>,
    /// Allowed origins; none means the localhost-only default.
    pub allowed_origins: Option<Vec<String>>,
    /// How many undelivered messages each session's channel retains; a
    /// slow subscriber loses the oldest beyond it.
    pub channel_capacity: usize,
}

impl AppState {
    /// The identifiers of the held sessions, in insertion order.
    pub open spec fn session_ids(&self) -> Seq<Seq<char>> {
        ids_of(self.sessions@)
    }

    /// Session identifiers are unique, and the capacity policy is one
    /// the channel accepts.
    pub open spec fn wf(&self) -> bool {
        &&& (forall|i: int, j: int|
            0 <= i < j < self.session_ids().len() ==> #[trigger] self.session_ids()[i]
                != #[trigger] self.session_ids()[j])
        &&& 1 <= self.channel_capacity <= usize::MAX / 2
    }

    /// Whether a session with this identifier is held.
    pub open spec fn has_session(&self, id: Seq<char>) -> bool {
        exists|i: int|
            0 <= i < self.session_ids().len() && #[trigger] self.session_ids()[i] == id
    }

    /// A fresh store with no sessions, no allow-list, and the default
    /// capacity.
    pub fn new() -> (r: AppState)
        ensures
            r.wf(),
            r.session_ids().len() == 0,
            r.allowed_origins is None,
            r.channel_capacity == CHANNEL_CAPACITY,
    {
        AppState {
            sessions: Vec::new(),
            allowed_origins: None,
            channel_capacity: CHANNEL_CAPACITY,
        }
    }

    fn find_session(&self, session_id: &str) -> (r: Option<usize>)
        ensures
            (match r {
                Option::Some(i) => i < self.sessions@.len() && self.session_ids()[i as int]
                    == session_id@,
                Option::None => !self.has_session(session_id@),
            }),
    {
        let n = self.sessions.len();
        let mut k: usize = 0;
        while k < n
            invariant
                k <= n,
                n == self.sessions@.len(),
                forall|q: int| 0 <= q < k ==> #[trigger] self.session_ids()[q] != session_id@,
            decreases n - k,
        {
            if str_eq(self.sessions[k].id.as_str(), session_id) {
                assert(self.session_ids()[k as int] == session_id@);
                return Some(k);
            }
            assert(self.session_ids()[k as int] != session_id@);
            k = k + 1;
        }
        None
    }

    /// Creates a session under a fresh identifier and returns the
    /// identifier.  Every other session is kept; in the vanishingly
    /// unlikely case that the drawn identifier is already held, the old
    /// record is replaced, so identifiers stay unique.
    pub fn create_session(&mut self) -> (r: String)
        requires
            old(self).wf(),
        ensures
            final(self).wf(),
            final(self).has_session(r@),
            forall|s: Seq<char>|
                #[trigger] final(self).has_session(s) == (old(self).has_session(s) || s == r@),
            final(self).allowed_origins == old(self).allowed_origins,
            final(self).channel_capacity == old(self).channel_capacity,
    {
        let id = new_session_uuid();
        let tx = new_broadcast_sender(self.channel_capacity);
        let created_at = now_unix_secs();
        let ghost oldseq = self.sessions@;
        let found = self.find_session(id.as_str());
        let ghost removed_at: int = match found {
            Option::Some(i) => i as int,
            Option::None => -1,
        };
        match found {
            Option::Some(i) => {
                self.sessions.remove(i);
                proof {
                    lemma_ids_remove(oldseq, self.sessions@, i as int);
                }
            },
            Option::None => {},
        }
        let ghost mid = self.sessions@;
        let session = Session { id: id.clone(), created_at, tx };
        self.sessions.push(session);
        proof {
            let fin = self.sessions@;
            assert(fin == mid.push(session));
            assert(self.session_ids() == ids_of(fin));
            assert(old(self).session_ids() == ids_of(oldseq));
            assert forall|q: int| 0 <= q < mid.len() implies #[trigger] ids_of(fin)[q] == ids_of(
                mid,
            )[q] by {
                assert(fin[q] == mid[q]);
            }
            assert(ids_of(fin)[mid.len() as int] == id@);
            assert(self.has_session(id@));
            // membership is the old membership plus the new identifier
            assert forall|s: Seq<char>|
                #[trigger] self.has_session(s) == (old(self).has_session(s) || s == id@) by {
                if self.has_session(s) {
                    let w = choose|q: int|
                        0 <= q < ids_of(fin).len() && #[trigger] ids_of(fin)[q] == s;
                    if w == mid.len() {
                        assert(s == id@);
                    } else {
                        assert(ids_of(mid)[w] == s);
                        if removed_at >= 0 {
                            if w < removed_at {
                                assert(ids_of(oldseq)[w] == s);
                            } else {
                                assert(ids_of(oldseq)[w + 1] == s);
                            }
                        } else {
                            assert(ids_of(oldseq)[w] == s);
                        }
                        assert(old(self).has_session(s));
                    }
                }
                if old(self).has_session(s) && s != id@ {
                    let w = choose|q: int|
                        0 <= q < ids_of(oldseq).len() && #[trigger] ids_of(oldseq)[q] == s;
                    if removed_at >= 0 {
                        assert(ids_of(oldseq)[removed_at] == id@);
                        assert(w != removed_at);
                        if w < removed_at {
                            assert(ids_of(mid)[w] == s);
                            assert(ids_of(fin)[w] == s);
                        } else {
                            assert(ids_of(mid)[w - 1] == s);
                            assert(ids_of(fin)[w - 1] == s);
                        }
                    } else {
                        assert(ids_of(fin)[w] == s);
                    }
                    assert(self.has_session(s));
                }
            }
            // identifiers stay unique
            assert forall|a: int, b: int|
                0 <= a < b < ids_of(fin).len() implies #[trigger] ids_of(fin)[a]
                != #[trigger] ids_of(fin)[b] by {
                if b == mid.len() {
                    assert(ids_of(fin)[b] == id@);
                    assert(ids_of(fin)[a] == ids_of(mid)[a]);
                    if ids_of(mid)[a] == id@ {
                        if removed_at >= 0 {
                            assert(ids_of(oldseq)[removed_at] == id@);
                            if a < removed_at {
                                assert(ids_of(oldseq)[a] == id@);
                                assert(false);
                            } else {
                                assert(ids_of(oldseq)[a + 1] == id@);
                                assert(false);
                            }
                        } else {
                            assert(ids_of(oldseq)[a] == id@);
                            assert(old(self).has_session(id@));
                            assert(false);
                        }
                    }
                } else {
                    assert(ids_of(fin)[a] == ids_of(mid)[a]);
                    assert(ids_of(fin)[b] == ids_of(mid)[b]);
                    if removed_at >= 0 {
                        let a2: int = if a < removed_at {
                            a
                        } else {
                            a + 1
                        };
                        let b2: int = if b < removed_at {
                            b
                        } else {
                            b + 1
                        };
                        assert(ids_of(mid)[a] == ids_of(oldseq)[a2]);
                        assert(ids_of(mid)[b] == ids_of(oldseq)[b2]);
                        assert(a2 < b2);
                        assert(ids_of(oldseq)[a2] != ids_of(oldseq)[b2]);
                    } else {
                        assert(ids_of(oldseq)[a] != ids_of(oldseq)[b]);
                    }
                }
            }
        }
        id
    }

    /// The sending half of the named session's channel, if the session
    /// is held.
    pub fn get_session(
        &self,
        session_id: &str,
    ) -> (r: Option<tokio::sync::broadcast::Sender<SseMessage>>)
        ensures
            (r is Some) == self.has_session(session_id@),
    {
        match self.find_session(session_id) {
            Option::Some(i) => {
                assert(self.has_session(session_id@));
                Some(clone_sender(&self.sessions[i].tx))
            },
            Option::None => None,
        }
    }

    /// A new independent subscription to the named session's channel, if
    /// the session is held.
    pub fn subscribe(
        &self,
        session_id: &str,
    ) -> (r: Option<tokio::sync::broadcast::Receiver<SseMessage>>)
        ensures
            (r is Some) == self.has_session(session_id@),
    {
        match self.find_session(session_id) {
            Option::Some(i) => {
                assert(self.has_session(session_id@));
                Some(subscribe_sender(&self.sessions[i].tx))
            },
            Option::None => None,
        }
    }

    /// Removes the named session.  Returns whether it was held; after
    /// the call it is not, and every other session is kept.
    pub fn remove_session(&mut self, session_id: &str) -> (r: bool)
        requires
            old(self).wf(),
        ensures
            final(self).wf(),
            r == old(self).has_session(session_id@),
            !final(self).has_session(session_id@),
            forall|s: Seq<char>|
                s != session_id@ ==> #[trigger] final(self).has_session(s) == old(
                    self,
                ).has_session(s),
            final(self).allowed_origins == old(self).allowed_origins,
            final(self).channel_capacity == old(self).channel_capacity,
    {
        let ghost oldseq = self.sessions@;
        let found = self.find_session(session_id);
        match found {
            Option::Some(i) => {
                proof {
                    assert(old(self).has_session(session_id@));
                }
                self.sessions.remove(i);
                proof {
                    lemma_ids_remove(oldseq, self.sessions@, i as int);
                    let fin = self.sessions@;
                    assert(self.session_ids() == ids_of(fin));
                    assert(old(self).session_ids() == ids_of(oldseq));
                    // the named session is gone: its only slot was removed
                    assert(!self.has_session(session_id@)) by {
                        if self.has_session(session_id@) {
                            let w = choose|q: int|
                                0 <= q < ids_of(fin).len() && #[trigger] ids_of(fin)[q]
                                    == session_id@;
                            if w < i {
                                assert(ids_of(oldseq)[w] == session_id@);
                                assert(ids_of(oldseq)[i as int] == session_id@);
                                assert(false);
                            } else {
                                assert(ids_of(oldseq)[w + 1] == session_id@);
                                assert(ids_of(oldseq)[i as int] == session_id@);
                                assert(false);
                            }
                        }
                    }
                    // every other session is kept
                    assert forall|s: Seq<char>|
                        s != session_id@ implies #[trigger] self.has_session(s) == old(
                        self,
                    ).has_session(s) by {
                        if self.has_session(s) {
                            let w = choose|q: int|
                                0 <= q < ids_of(fin).len() && #[trigger] ids_of(fin)[q] == s;
                            if w < i {
                                assert(ids_of(oldseq)[w] == s);
                            } else {
                                assert(ids_of(oldseq)[w + 1] == s);
                            }
                            assert(old(self).has_session(s));
                        }
                        if old(self).has_session(s) {
                            let w = choose|q: int|
                                0 <= q < ids_of(oldseq).len() && #[trigger] ids_of(oldseq)[q]
                                    == s;
                            assert(ids_of(oldseq)[i as int] == session_id@);
                            assert(w != i);
                            if w < i {
                                assert(ids_of(fin)[w] == s);
                            } else {
                                assert(ids_of(fin)[w - 1] == s);
                            }
                            assert(self.has_session(s));
                        }
                    }
                    // uniqueness is kept
                    assert forall|a: int, b: int|
                        0 <= a < b < ids_of(fin).len() implies #[trigger] ids_of(fin)[a]
                        != #[trigger] ids_of(fin)[b] by {
                        let a2: int = if a < i {
                            a
                        } else {
                            a + 1
                        };
                        let b2: int = if b < i {
                            b
                        } else {
                            b + 1
                        };
                        assert(ids_of(fin)[a] == ids_of(oldseq)[a2]);
                        assert(ids_of(fin)[b] == ids_of(oldseq)[b2]);
                        assert(a2 < b2);
                        assert(ids_of(oldseq)[a2] != ids_of(oldseq)[b2]);
                    }
                }
                true
            },
            Option::None => false,
        }
    }

    /// Whether the named session is held.
    pub fn session_exists(&self, session_id: &str) -> (r: bool)
        ensures
            r == self.has_session(session_id@),
    {
        match self.find_session(session_id) {
            Option::Some(i) => {
                assert(self.has_session(session_id@));
                true
            },
            Option::None => false,
        }
    }
}

/// Removing one record removes exactly its identifier slot.
proof fn lemma_ids_remove(before: Seq<Session>, after: Seq<Session>, i: int)
    requires
        0 <= i < before.len(),
        after == before.remove(i),
    ensures
        ids_of(after).len() == ids_of(before).len() - 1,
        forall|q: int| 0 <= q < i ==> #[trigger] ids_of(after)[q] == ids_of(before)[q],
        forall|q: int|
            i <= q < ids_of(after).len() ==> #[trigger] ids_of(after)[q] == ids_of(before)[q + 1],
{
    assert forall|q: int| 0 <= q < i implies #[trigger] ids_of(after)[q] == ids_of(before)[q] by {
        assert(after[q] == before[q]);
    }
    assert forall|q: int|
        i <= q < ids_of(after).len() implies #[trigger] ids_of(after)[q] == ids_of(before)[q
        + 1] by {
        assert(after[q] == before[q + 1]);
    }
}

} // verus!
