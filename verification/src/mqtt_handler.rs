//! The connection registry: a dense, reusable table of sessions keyed by a
//! compact connection id. It decides what each readiness event means —
//! accepting into the lowest free slot, rejecting when the table is full,
//! dispatching to a session and removing it once it has closed — while the
//! I/O layer performs the socket work and hands the outcomes in.
use crate::parser::ReaderView;
use crate::protocol::MQTTPacket;
use crate::session::{packets_view, spec_session_after, Session};
use crate::session_state::State;
use vstd::prelude::*;

verus! {

/// Registry-level failures. `Io` stands for a listener error the I/O layer
/// reports; `TooManyConnections` rejects a single accept while the
/// registry and every existing session keep running.
#[derive(Clone, Copy, Debug, PartialEq, Eq, Structural)]
pub enum MqttError {
    Io,
    TooManyConnections,
}

pub struct MqttHandler {
    pub sessions: Vec<Option<Session>>,
}

impl MqttHandler {
    /// How many sessions the table can hold.
    pub open spec fn spec_capacity(&self) -> int {
        self.sessions@.len() as int
    }

    /// Every occupied slot holds the session whose id names that slot.
    pub open spec fn well_formed(&self) -> bool {
        forall|i: int|
            0 <= i < self.sessions@.len() ==> ((#[trigger] self.sessions@[i]) matches Some(s)
                ==> s.token == i)
    }

    /// Whether the table is at capacity.
    pub open spec fn spec_full(&self) -> bool {
        forall|i: int| 0 <= i < self.sessions@.len() ==> (#[trigger] self.sessions@[i]) is Some
    }

    /// An empty table with `capacity` slots.
    pub fn new(capacity: usize) -> (h: MqttHandler)
        ensures
            h.well_formed(),
            h.spec_capacity() == capacity,
            forall|i: int| 0 <= i < capacity ==> (#[trigger] h.sessions@[i]) is None,
    {
        let mut sessions: Vec<Option<Session>> = Vec::new();
        let mut i: usize = 0;
        while i < capacity
            invariant
                i <= capacity,
                sessions@.len() == i,
                forall|j: int| 0 <= j < i ==> (#[trigger] sessions@[j]) is None,
            decreases capacity - i,
        {
            sessions.push(None);
            i = i + 1;
        }
        MqttHandler { sessions }
    }

    /// Accepts one pending connection: a fresh session is placed in the
    /// lowest free slot and its id returned; when the table is full the
    /// accept is rejected with `TooManyConnections` and nothing changes.
    pub fn accept_connection(&mut self) -> (r: Result<usize, MqttError>)
        requires
            old(self).well_formed(),
        ensures
            final(self).well_formed(),
            final(self).spec_capacity() == old(self).spec_capacity(),
            old(self).spec_full() ==> r == Err::<usize, MqttError>(MqttError::TooManyConnections)
                && *final(self) == *old(self),
            !old(self).spec_full() ==> (r matches Ok(tok) && {
                &&& 0 <= tok < old(self).spec_capacity()
                &&& old(self).sessions@[tok as int] is None
                &&& forall|j: int| 0 <= j < tok ==> (#[trigger] old(self).sessions@[j]) is Some
                &&& (final(self).sessions@[tok as int] matches Some(s) && s.token == tok && s.state
                    is Reading && s.reader@ == crate::parser::spec_initial_reader())
                &&& forall|j: int|
                    0 <= j < old(self).spec_capacity() && j != tok ==> final(self).sessions@[j]
                        == old(self).sessions@[j]
            }),
    {
        let n = self.sessions.len();
        let mut i: usize = 0;
        while i < n
            invariant
                i <= n,
                n == self.sessions@.len(),
                *self == *old(self),
                old(self).well_formed(),
                forall|j: int| 0 <= j < i ==> (#[trigger] self.sessions@[j]) is Some,
            decreases n - i,
        {
            if self.sessions[i].is_none() {
                let s = Session::new(i);
                let slot = &mut self.sessions[i];
                *slot = Some(s);
                proof {
                    assert(self.sessions@ == old(self).sessions@.update(i as int, Some(s)));
                    assert(self.sessions@[i as int] == Some(s));
                    assert forall|j: int|
                        0 <= j < self.sessions@.len() implies ((#[trigger] self.sessions@[j])
                        matches Some(ss) ==> ss.token == j) by {
                        if j == i {
                            assert(self.sessions@[j] == Some(s));
                            assert(s.token == i);
                        } else {
                            assert(self.sessions@[j] == old(self).sessions@[j]);
                        }
                    }
                }
                return Ok(i);
            }
            i = i + 1;
        }
        Err(MqttError::TooManyConnections)
    }

    /// Dispatches a readiness event for connection `token` to its session,
    /// and removes the session afterwards if the event closed it (removal
    /// never happens while the session is being driven). Returns `None`
    /// when no session has that id; otherwise whether the session was
    /// removed, together with the packets this event completed, in order.
    pub fn handle_session_event(&mut self, token: usize, input: &[u8], hup: bool) -> (r: Option<
        (bool, Vec<MQTTPacket>),
    >)
        requires
            old(self).well_formed(),
        ensures
            final(self).well_formed(),
            final(self).spec_capacity() == old(self).spec_capacity(),
            (token >= old(self).spec_capacity() || old(self).sessions@[token as int] is None)
                ==> r is None && *final(self) == *old(self),
            token < old(self).spec_capacity() ==> (old(self).sessions@[token as int] matches Some(
                s,
            ) ==> {
                let (st2, r2) = spec_session_after(s.state, s.reader@, input@, hup);
                &&& (r matches Some(out) && packets_view(out.1@) == r2.completed && (out.0 <==> st2
                    is Closed))
                &&& (st2 is Closed ==> final(self).sessions@[token as int] is None)
                &&& (!(st2 is Closed) ==> (final(self).sessions@[token as int] matches Some(s2)
                    && s2.token == s.token && s2.state == st2 && s2.reader@ == (ReaderView {
                    completed: Seq::empty(),
                    ..r2
                })))
                &&& forall|j: int|
                    0 <= j < old(self).spec_capacity() && j != token ==> final(self).sessions@[j]
                        == old(self).sessions@[j]
            }),
    {
        if token >= self.sessions.len() {
            return None;
        }
        if self.sessions[token].is_none() {
            return None;
        }
        let slot = &mut self.sessions[token];
        match slot {
            Some(session) => {
                let (st, pkts) = session.handle_event(input, hup);
                let removed = match st {
                    State::Closed => true,
                    _ => false,
                };
                if removed {
                    *slot = None;
                }
                Some((removed, pkts))
            },
            None => {
                proof {
                    assert(false);
                }
                None
            },
        }
    }

    /// Closes and removes a session after a session-fatal I/O error the
    /// I/O layer observed. Returns whether a session was removed.
    pub fn close_session(&mut self, token: usize) -> (removed: bool)
        requires
            old(self).well_formed(),
        ensures
            final(self).well_formed(),
            final(self).spec_capacity() == old(self).spec_capacity(),
            removed <==> token < old(self).spec_capacity() && old(self).sessions@[token as int]
                is Some,
            !removed ==> *final(self) == *old(self),
            removed ==> final(self).sessions@[token as int] is None && forall|j: int|
                0 <= j < old(self).spec_capacity() && j != token ==> final(self).sessions@[j]
                    == old(self).sessions@[j],
    {
        if token >= self.sessions.len() {
            return false;
        }
        if self.sessions[token].is_none() {
            return false;
        }
        let slot = &mut self.sessions[token];
        *slot = None;
        true
    }
}

} // verus!
