//! One session per accepted connection: the connection id, the lifecycle
//! state, and the incremental reader that accumulates and decodes the
//! connection's byte stream. The socket itself stays with the I/O layer,
//! which hands every readiness outcome to `handle_event` as plain values.
use crate::parser::{spec_process, MqttReader, ReadState, ReaderView};
use crate::protocol::{MQTTPacket, PacketView};
use crate::session_state::State;
use vstd::prelude::*;

verus! {

pub struct Session {
    pub token: usize,
    pub state: State,
    pub reader: MqttReader,
}

/// The packets of a batch, as views, in order.
pub open spec fn packets_view(v: Seq<MQTTPacket>) -> Seq<PacketView> {
    Seq::new(v.len(), |i: int| v[i]@)
}

/// What one readiness event does to a session: a reading session feeds the
/// received bytes to its reader and is closed when the reader reports the
/// stream finished or malformed; a hang-up closes the session whatever its
/// state; a writing or closed session leaves the reader untouched.
pub open spec fn spec_session_after(st: State, r: ReaderView, input: Seq<u8>, hup: bool) -> (
    State,
    ReaderView,
) {
    let r2 = if st is Reading {
        spec_process(r, input)
    } else {
        r
    };
    let st2 = if hup {
        State::Closed
    } else if st is Reading && r2.state is Disconnect {
        State::Closed
    } else {
        st
    };
    (st2, r2)
}

impl Session {
    /// A fresh session for connection id `token`, ready to read.
    pub fn new(token: usize) -> (s: Session)
        ensures
            s.token == token,
            s.state is Reading,
            s.reader@ == crate::parser::spec_initial_reader(),
    {
        Session { token, state: State::Reading, reader: MqttReader::new() }
    }

    /// Handles one readiness event. `input` holds the bytes the I/O layer
    /// read while the socket was readable (empty for a zero-length read);
    /// `hup` reports peer hang-up. Returns the resulting state together
    /// with every packet the reader completed, in arrival order; the
    /// reader's completed list is drained in the same step.
    pub fn handle_event(&mut self, input: &[u8], hup: bool) -> (r: (State, Vec<MQTTPacket>))
        ensures
            final(self).token == old(self).token,
            ({
                let (st2, r2) = spec_session_after(old(self).state, old(self).reader@, input@, hup);
                &&& final(self).state == st2
                &&& r.0 == st2
                &&& final(self).reader@ == (ReaderView { completed: Seq::empty(), ..r2 })
                &&& packets_view(r.1@) == r2.completed
            }),
    {
        match self.state {
            State::Reading => {
                let rs = self.reader.process(input);
                if rs == ReadState::Disconnect {
                    self.state = State::Closed;
                }
            },
            State::Writing => {
                // The write path is outside this core; nothing to drive.
            },
            State::Closed => {},
        }
        if hup {
            self.state = State::Closed;
        }
        let pkts = self.reader.completed.split_off(0);
        proof {
            let (st2, r2) = spec_session_after(old(self).state, old(self).reader@, input@, hup);
            assert(self.reader@ =~~= (ReaderView { completed: Seq::empty(), ..r2 }));
            assert(packets_view(pkts@) =~~= r2.completed);
        }
        (self.state, pkts)
    }

    /// Whether the session has reached its terminal state.
    pub fn is_closed(&self) -> (r: bool)
        ensures
            r <==> self.state is Closed,
    {
        match self.state {
            State::Closed => true,
            _ => false,
        }
    }
}

} // verus!
