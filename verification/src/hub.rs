//! The hub (coordinator) and its worker sessions.
//!
//! The hub owns the single source of ordering truth: a log of every message
//! it has published on its broadcast stream. Each attached worker is served
//! by one session holding a cursor into that log. The broadcast buffer
//! retains only the most recent `capacity` messages: a session that falls
//! behind silently skips ahead to the oldest retained message — lag causes
//! skips, never reordering.
//!
//! These are the decision steps of the hub's loops; the process plumbing
//! (the rendezvous endpoint, task spawning, stream reads and writes) lives
//! outside and drives them.

use vstd::pervasive::VecAdditionalExecFns;
use vstd::prelude::*;

use crate::codec::DecodeError;
use crate::codec::decode_framed;
use crate::codec::decode_spec;
use crate::codec::framed_strip;
use crate::msg::Message;
use crate::msg::MessageModel;

verus! {

/// Hub-side state of one attached worker's session.
pub struct Session {
    cursor: usize,
    alive: bool,
}

/// Mathematical model of a [`Session`]: where in the hub's log its next
/// delivery would start, and whether the connection is still being served.
pub struct SessionModel {
    pub cursor: int,
    pub alive: bool,
}

impl View for Session {
    type V = SessionModel;

    closed spec fn view(&self) -> SessionModel {
        SessionModel { cursor: self.cursor as int, alive: self.alive }
    }
}

/// The hub: the broadcast log, the retention capacity of the broadcast
/// buffer, the sessions of all workers that ever attached, and whether the
/// accept loop is still running.
pub struct Hub {
    log: Vec<Message>,
    capacity: usize,
    sessions: Vec<Session>,
    accepting: bool,
}

/// Mathematical model of a [`Hub`].
pub struct HubModel {
    pub log: Seq<MessageModel>,
    pub capacity: int,
    pub sessions: Seq<SessionModel>,
    pub accepting: bool,
}

impl View for Hub {
    type V = HubModel;

    closed spec fn view(&self) -> HubModel {
        HubModel {
            log: self.log@.map_values(|m: Message| m@),
            capacity: self.capacity as int,
            sessions: self.sessions@.map_values(|s: Session| s@),
            accepting: self.accepting,
        }
    }
}

impl HubModel {
    /// Well-formedness: the buffer retains at least one message, and every
    /// session's cursor lies within the log.
    pub open spec fn wf(self) -> bool {
        &&& 1 <= self.capacity
        &&& forall|i: int|
            0 <= i < self.sessions.len() ==> 0 <= #[trigger] self.sessions[i].cursor
                <= self.log.len()
    }
}

/// Where a session's next delivery starts: at its cursor, unless the
/// broadcast buffer has already discarded that position, in which case it
/// skips ahead to the oldest retained message.
pub open spec fn session_start(h: HubModel, sid: int) -> int {
    let c = h.sessions[sid].cursor;
    if h.log.len() - h.capacity > c {
        h.log.len() - h.capacity
    } else {
        c
    }
}

/// The messages a session still gets to forward, in the order the hub
/// published them: the log from its next delivery position on.
pub open spec fn deliverable(h: HubModel, sid: int) -> Seq<MessageModel> {
    h.log.skip(session_start(h, sid))
}

/// Law: a session forwards broadcast messages in exactly the relative order
/// the hub published them; lag only removes a contiguous prefix of the
/// messages published since the session's cursor, never reorders them.
pub proof fn lemma_lag_skips_only_a_prefix(h: HubModel, sid: int)
    requires
        h.wf(),
        0 <= sid < h.sessions.len(),
    ensures
        session_start(h, sid) - h.sessions[sid].cursor >= 0,
        deliverable(h, sid) == h.log.skip(h.sessions[sid].cursor).skip(
            session_start(h, sid) - h.sessions[sid].cursor,
        ),
{
    let c = h.sessions[sid].cursor;
    let dropped = session_start(h, sid) - c;
    assert(h.log.skip(c).skip(dropped) =~= h.log.skip(session_start(h, sid)));
}

/// Law: publishing appends to what a session will forward; when the
/// broadcast buffer is already full for that session, it additionally
/// drops the oldest still-pending message. Pending messages are therefore
/// only ever lost from the oldest end, one publish at a time, and what
/// remains keeps its publication order.
pub proof fn lemma_publish_keeps_order(h: HubModel, sid: int, m: MessageModel)
    requires
        h.wf(),
        0 <= sid < h.sessions.len(),
    ensures
        ({
            let grown = HubModel { log: h.log.push(m), ..h };
            if h.sessions[sid].cursor + h.capacity > h.log.len() {
                deliverable(grown, sid) == deliverable(h, sid).push(m)
            } else {
                deliverable(grown, sid) == deliverable(h, sid).skip(1).push(m)
            }
        }),
{
    let grown = HubModel { log: h.log.push(m), ..h };
    let c = h.sessions[sid].cursor;
    if c + h.capacity > h.log.len() {
        assert(session_start(grown, sid) == session_start(h, sid));
        assert(grown.log.skip(session_start(grown, sid)) =~= h.log.skip(
            session_start(h, sid),
        ).push(m));
    } else {
        assert(session_start(h, sid) == h.log.len() - h.capacity);
        assert(session_start(grown, sid) == session_start(h, sid) + 1);
        assert(grown.log.skip(session_start(grown, sid)) =~= h.log.skip(
            session_start(h, sid),
        ).skip(1).push(m));
    }
}

impl Hub {
    /// Start a hub with an empty log and no workers attached, with the
    /// broadcast buffer retaining `capacity` messages.
    pub fn new(capacity: usize) -> (h: Hub)
        requires
            capacity >= 1,
        ensures
            h@.wf(),
            h@ == (HubModel {
                log: Seq::<MessageModel>::empty(),
                capacity: capacity as int,
                sessions: Seq::<SessionModel>::empty(),
                accepting: true,
            }),
    {
        let h = Hub { log: Vec::new(), capacity, sessions: Vec::new(), accepting: true };
        proof {
            assert(h@.log =~= Seq::<MessageModel>::empty());
            assert(h@.sessions =~= Seq::<SessionModel>::empty());
        }
        h
    }

    /// Whether the accept loop is still running.
    pub fn is_accepting(&self) -> (r: bool)
        ensures
            r == self@.accepting,
    {
        self.accepting
    }

    /// How many sessions ever attached (dead ones keep their slot).
    pub fn session_count(&self) -> (r: usize)
        ensures
            r == self@.sessions.len(),
    {
        self.sessions.len()
    }

    /// Whether a session is still being served.
    pub fn session_alive(&self, sid: usize) -> (r: bool)
        requires
            sid < self@.sessions.len(),
        ensures
            r == self@.sessions[sid as int].alive,
    {
        self.sessions[sid].alive
    }

    /// A new worker connection was accepted: spawn its session with a fresh
    /// subscription to the broadcast stream, which sees only messages
    /// published from now on.
    pub fn attach(&mut self) -> (sid: usize)
        requires
            old(self)@.wf(),
            old(self)@.accepting,
            old(self)@.sessions.len() < usize::MAX,
        ensures
            final(self)@.wf(),
            sid == old(self)@.sessions.len(),
            final(self)@ == (HubModel {
                sessions: old(self)@.sessions.push(
                    SessionModel { cursor: old(self)@.log.len() as int, alive: true },
                ),
                ..old(self)@
            }),
    {
        let sid = self.sessions.len();
        let cursor = self.log.len();
        self.sessions.push(Session { cursor, alive: true });
        proof {
            assert(final(self)@.sessions =~= old(self)@.sessions.push(
                SessionModel { cursor: old(self)@.log.len() as int, alive: true },
            ));
            assert(final(self)@ =~= (HubModel {
                sessions: old(self)@.sessions.push(
                    SessionModel { cursor: old(self)@.log.len() as int, alive: true },
                ),
                ..old(self)@
            }));
        }
        sid
    }

    /// Accepting a connection failed at the transport: the hub stops
    /// accepting new workers. Already-attached sessions are not drained and
    /// keep being served.
    pub fn accept_failed(&mut self)
        requires
            old(self)@.wf(),
        ensures
            final(self)@.wf(),
            final(self)@ == (HubModel { accepting: false, ..old(self)@ }),
    {
        self.accepting = false;
        proof {
            assert(final(self)@ =~= (HubModel { accepting: false, ..old(self)@ }));
        }
    }

    /// Publish one inbound message (from a session or from the poller) on
    /// the broadcast stream: it is appended to the log, where every live
    /// session — including the one that originated it — will see it.
    pub fn publish(&mut self, m: Message)
        requires
            old(self)@.wf(),
        ensures
            final(self)@.wf(),
            final(self)@ == (HubModel { log: old(self)@.log.push(m@), ..old(self)@ }),
    {
        self.log.push(m);
        proof {
            assert(final(self)@.log =~= old(self)@.log.push(m@));
            assert(final(self)@ =~= (HubModel { log: old(self)@.log.push(m@), ..old(self)@ }));
        }
    }

    /// One step of a session's broadcast side: take the next retained
    /// message for this session, if any, skipping whatever the buffer has
    /// already discarded.
    ///
    /// `None` means the session has seen the whole log and would block.
    pub fn session_recv(&mut self, sid: usize) -> (r: Option<Message>)
        requires
            old(self)@.wf(),
            sid < old(self)@.sessions.len(),
            old(self)@.sessions[sid as int].alive,
        ensures
            final(self)@.wf(),
            match r {
                None => {
                    &&& old(self)@.sessions[sid as int].cursor == old(self)@.log.len()
                    &&& final(self)@ == old(self)@
                },
                Some(m) => {
                    &&& old(self)@.sessions[sid as int].cursor < old(self)@.log.len()
                    &&& m@ == deliverable(old(self)@, sid as int)[0]
                    &&& final(self)@ == (HubModel {
                        sessions: old(self)@.sessions.update(
                            sid as int,
                            SessionModel {
                                cursor: session_start(old(self)@, sid as int) + 1,
                                alive: true,
                            },
                        ),
                        ..old(self)@
                    })
                },
            },
    {
        let len = self.log.len();
        let c = self.sessions[sid].cursor;
        if c == len {
            proof {
                assert(final(self)@ =~= old(self)@);
            }
            return None;
        }
        let start = if len > self.capacity && len - self.capacity > c {
            len - self.capacity
        } else {
            c
        };
        proof {
            assert(start == session_start(old(self)@, sid as int));
            assert(start < len);
        }
        let m = self.log[start].clone();
        proof {
            assert(m@ == old(self)@.log[start as int]);
            assert(deliverable(old(self)@, sid as int)[0] == old(self)@.log[start as int]);
        }
        self.sessions.set(sid, Session { cursor: start + 1, alive: true });
        proof {
            assert(final(self)@.sessions =~= old(self)@.sessions.update(
                sid as int,
                SessionModel { cursor: session_start(old(self)@, sid as int) + 1, alive: true },
            ));
            assert(final(self)@ =~= (HubModel {
                sessions: old(self)@.sessions.update(
                    sid as int,
                    SessionModel {
                        cursor: session_start(old(self)@, sid as int) + 1,
                        alive: true,
                    },
                ),
                ..old(self)@
            }));
        }
        Some(m)
    }

    /// One step of a session's inbound side: a line arrived from its worker.
    ///
    /// A well-formed record is republished on the broadcast stream for
    /// everyone (the originating worker included). A malformed record is a
    /// fatal protocol violation for this session alone: the session
    /// terminates, and the log and every other session are untouched.
    pub fn session_inbound(&mut self, sid: usize, line: &[u8]) -> (r: Result<(), DecodeError>)
        requires
            old(self)@.wf(),
            sid < old(self)@.sessions.len(),
            old(self)@.sessions[sid as int].alive,
        ensures
            final(self)@.wf(),
            match r {
                Ok(_) => {
                    &&& decode_spec(framed_strip(line@)) is Some
                    &&& final(self)@ == (HubModel {
                        log: old(self)@.log.push(decode_spec(framed_strip(line@))->Some_0),
                        ..old(self)@
                    })
                },
                Err(_) => {
                    &&& decode_spec(framed_strip(line@)) is None
                    &&& final(self)@ == (HubModel {
                        sessions: old(self)@.sessions.update(
                            sid as int,
                            SessionModel {
                                cursor: old(self)@.sessions[sid as int].cursor,
                                alive: false,
                            },
                        ),
                        ..old(self)@
                    })
                },
            },
    {
        match decode_framed(line) {
            Ok(m) => {
                self.publish(m);
                Ok(())
            },
            Err(e) => {
                let cursor = self.sessions[sid].cursor;
                self.sessions.set(sid, Session { cursor, alive: false });
                proof {
                    assert(final(self)@.sessions =~= old(self)@.sessions.update(
                        sid as int,
                        SessionModel {
                            cursor: old(self)@.sessions[sid as int].cursor,
                            alive: false,
                        },
                    ));
                    assert(final(self)@ =~= (HubModel {
                        sessions: old(self)@.sessions.update(
                            sid as int,
                            SessionModel {
                                cursor: old(self)@.sessions[sid as int].cursor,
                                alive: false,
                            },
                        ),
                        ..old(self)@
                    }));
                }
                Err(e)
            },
        }
    }

    /// A session's connection closed (a zero-length read, the normal
    /// termination signal): the session ends. The hub keeps accepting, the
    /// log is untouched, and every other session is unaffected.
    pub fn session_closed(&mut self, sid: usize)
        requires
            old(self)@.wf(),
            sid < old(self)@.sessions.len(),
        ensures
            final(self)@.wf(),
            final(self)@ == (HubModel {
                sessions: old(self)@.sessions.update(
                    sid as int,
                    SessionModel { cursor: old(self)@.sessions[sid as int].cursor, alive: false },
                ),
                ..old(self)@
            }),
    {
        let cursor = self.sessions[sid].cursor;
        self.sessions.set(sid, Session { cursor, alive: false });
        proof {
            assert(final(self)@.sessions =~= old(self)@.sessions.update(
                sid as int,
                SessionModel { cursor: old(self)@.sessions[sid as int].cursor, alive: false },
            ));
            assert(final(self)@ =~= (HubModel {
                sessions: old(self)@.sessions.update(
                    sid as int,
                    SessionModel { cursor: old(self)@.sessions[sid as int].cursor, alive: false },
                ),
                ..old(self)@
            }));
        }
    }
}

} // verus!
