//! The WebSocket session manager: a state machine over one persistent
//! event-stream connection.  The unverified shell owns the socket; it feeds
//! every observed wire event (an accepted connection, a frame, a closure) to
//! the machine and obeys the step that comes back.  The machine guarantees
//! that frames are delivered to the consumer in arrival order, that one
//! malformed frame never ends an otherwise healthy stream, and that an
//! unexpected closure is followed by a bounded, serialized reconnect.

use vstd::prelude::*;

use crate::codec::{expect_lit, lemma_expect_strip, lemma_expect_strip_none, lemma_strip_lit_prefix,
    strip_lit};
use crate::error::Error;
use crate::http::{spec_backoff, RetryPolicy};
use crate::room::{
    encode_string_into, lemma_parse_quoted_prefix, parse_quoted, spec_encode_string,
    spec_parse_quoted,
};

verus! {

/// A domain event delivered over the event stream: an identifier and its
/// payload text.
#[derive(Debug, Clone)]
pub struct Event {
    pub id: String,
    pub data: String,
}

/// The mathematical model of an event.
#[verifier::ext_equal]
pub ghost struct EventModel {
    pub id: Seq<char>,
    pub data: Seq<char>,
}

impl View for Event {
    type V = EventModel;

    open spec fn view(&self) -> EventModel {
        EventModel { id: self.id@, data: self.data@ }
    }
}

impl PartialEq for Event {
    fn eq(&self, other: &Event) -> (r: bool) {
        let r = self.id == other.id && self.data == other.data;
        proof {
            if r {
                assert(self@ =~= other@);
            }
        }
        r
    }
}

impl vstd::std_specs::cmp::PartialEqSpecImpl for Event {
    open spec fn obeys_eq_spec() -> bool {
        true
    }

    open spec fn eq_spec(&self, other: &Event) -> bool {
        self@ == other@
    }
}

impl Eq for Event {}

/// The canonical wire form of an event frame.
pub open spec fn spec_encode_event(m: EventModel) -> Seq<char> {
    "{\"id\":"@ + spec_encode_string(m.id) + ",\"data\":"@ + spec_encode_string(m.data) + "}"@
}

/// Parses one event from the front of `s`: the exact canonical grammar.
pub open spec fn spec_parse_event(s: Seq<char>) -> Option<(EventModel, Seq<char>)> {
    match strip_lit(s, "{\"id\":"@) {
        None => None,
        Some(s1) => match spec_parse_quoted(s1) {
            None => None,
            Some((id, s2)) => match strip_lit(s2, ",\"data\":"@) {
                None => None,
                Some(s3) => match spec_parse_quoted(s3) {
                    None => None,
                    Some((data, s4)) => match strip_lit(s4, "}"@) {
                        None => None,
                        Some(s5) => Some((EventModel { id, data }, s5)),
                    },
                },
            },
        },
    }
}

/// An event frame in canonical form and nothing else.
pub open spec fn spec_decode_event(s: Seq<char>) -> Option<EventModel> {
    match spec_parse_event(s) {
        Some(p) => if p.1.len() == 0 {
            Some(p.0)
        } else {
            None
        },
        None => None,
    }
}

/// Encodes an event into its canonical wire form.
pub fn encode_event(event: &Event) -> (r: String)
    ensures
        r@ == spec_encode_event(event@),
{
    let mut out = String::new();
    out.append("{\"id\":");
    encode_string_into(event.id.as_str(), &mut out);
    out.append(",\"data\":");
    encode_string_into(event.data.as_str(), &mut out);
    out.append("}");
    proof {
        assert(out@ =~= spec_encode_event(event@));
    }
    out
}

/// Parses one event at position `i`; on success the position returned is the
/// one right after its closing brace.
fn parse_event(s: &str, i: usize) -> (r: Option<(Event, usize)>)
    requires
        i <= s@.len(),
    ensures
        match r {
            Some(p) => {
                &&& spec_parse_event(s@.skip(i as int)) == Some((p.0@, s@.skip(p.1 as int)))
                &&& i < p.1 <= s@.len()
            },
            None => spec_parse_event(s@.skip(i as int)) is None,
        },
{
    let j1 = match expect_lit(s, i, "{\"id\":") {
        Some(j) => {
            proof {
                lemma_expect_strip(s@, i as int, "{\"id\":"@, j as int);
            }
            j
        },
        None => {
            proof {
                lemma_expect_strip_none(s@, i as int, "{\"id\":"@);
            }
            return None;
        },
    };
    let (id, j2) = match parse_quoted(s, j1) {
        Some(p) => p,
        None => {
            return None;
        },
    };
    let j3 = match expect_lit(s, j2, ",\"data\":") {
        Some(j) => {
            proof {
                lemma_expect_strip(s@, j2 as int, ",\"data\":"@, j as int);
            }
            j
        },
        None => {
            proof {
                lemma_expect_strip_none(s@, j2 as int, ",\"data\":"@);
            }
            return None;
        },
    };
    let (data, j4) = match parse_quoted(s, j3) {
        Some(p) => p,
        None => {
            return None;
        },
    };
    let j5 = match expect_lit(s, j4, "}") {
        Some(j) => {
            proof {
                lemma_expect_strip(s@, j4 as int, "}"@, j as int);
            }
            j
        },
        None => {
            proof {
                lemma_expect_strip_none(s@, j4 as int, "}"@);
            }
            return None;
        },
    };
    let event = Event { id, data };
    proof {
        assert(spec_parse_event(s@.skip(i as int)) == Some((event@, s@.skip(j5 as int))));
    }
    Some((event, j5))
}

/// Decodes an event frame from its canonical form; anything else is refused.
pub fn decode_event(s: &str) -> (r: Option<Event>)
    ensures
        match r {
            Some(event) => spec_decode_event(s@) == Some(event@),
            None => spec_decode_event(s@) is None,
        },
{
    proof {
        assert(s@.skip(0) =~= s@);
    }
    match parse_event(s, 0) {
        Some((event, j)) => {
            let n = s.unicode_len();
            if j == n {
                proof {
                    assert(s@.skip(j as int).len() == 0);
                }
                Some(event)
            } else {
                proof {
                    assert(s@.skip(j as int).len() > 0);
                }
                None
            }
        },
        None => None,
    }
}

/// Serialization idempotence of event frames: decoding the canonical encoding
/// of any event yields exactly that event.
pub proof fn lemma_event_round_trip(m: EventModel)
    ensures
        spec_decode_event(spec_encode_event(m)) == Some(m),
{
    let e_id = spec_encode_string(m.id);
    let e_d = spec_encode_string(m.data);
    let s = spec_encode_event(m);
    let r3 = "}"@ + Seq::<char>::empty();
    let r2 = e_d + r3;
    let r1 = ",\"data\":"@ + r2;
    let r0 = e_id + r1;
    assert(s =~= "{\"id\":"@ + r0);
    lemma_strip_lit_prefix("{\"id\":"@, r0);
    lemma_parse_quoted_prefix(m.id, r1);
    lemma_strip_lit_prefix(",\"data\":"@, r2);
    lemma_parse_quoted_prefix(m.data, r3);
    lemma_strip_lit_prefix("}"@, Seq::<char>::empty());
    assert(r3 =~= "}"@);
    assert(EventModel { id: m.id, data: m.data } =~= m);
}

/// The connection state of the event-stream session.
#[derive(Debug, Clone, Copy, PartialEq, Eq, Structural)]
pub enum SessionState {
    Disconnected,
    Connecting,
    Connected,
    Closing,
}

/// What the session manager delivers to the consumer for one wire input:
/// either a decoded domain event or a classified error event.
#[derive(Debug)]
pub enum Delivered {
    Event(Event),
    Fault(Error),
}

/// What the shell must do after an unexpected closure: reconnect after the
/// given wait in seconds, or give the session up.
#[derive(Debug, Clone, Copy, PartialEq, Eq, Structural)]
pub enum ReconnectStep {
    Reconnect(u64),
    GiveUp,
}

/// The delivery owed to the consumer for one received frame: the decoded
/// event where the frame is well formed, one protocol-violation fault where
/// it is not.
pub open spec fn delivered_for(frame: Seq<char>, d: Delivered) -> bool {
    match spec_decode_event(frame) {
        Some(m) => d matches Delivered::Event(e) && e@ == m,
        None => d matches Delivered::Fault(f) && f matches Error::ProtocolViolation(_),
    }
}

/// The manager of one event-stream session: the connection state, the
/// reconnect budget used so far, and the reconnect policy.  It owns no
/// socket; at most one socket exists per instance because every transition
/// that opens one starts from a state without one.
#[derive(Debug)]
pub struct Session {
    pub state: SessionState,
    pub reconnects_used: u32,
    pub policy: RetryPolicy,
}

impl Session {
    /// A fresh manager, not yet connected.
    pub fn new(policy: RetryPolicy) -> (r: Session)
        ensures
            r.state is Disconnected,
            r.reconnects_used == 0,
            r.policy == policy,
    {
        Session { state: SessionState::Disconnected, reconnects_used: 0, policy }
    }

    /// The current connection state.
    pub fn state(&self) -> (r: SessionState)
        ensures
            r == self.state,
    {
        self.state
    }

    /// Asks for a connection.  Valid only while disconnected; anywhere else
    /// the request is malformed caller input and is refused before any
    /// network activity.
    pub fn connect(&mut self) -> (r: Result<(), Error>)
        ensures
            final(self).reconnects_used == old(self).reconnects_used,
            final(self).policy == old(self).policy,
            old(self).state is Disconnected ==> final(self).state is Connecting && r is Ok,
            !(old(self).state is Disconnected) ==> final(self).state == old(self).state && (
            r matches Err(e) && e matches Error::InvalidUsage(_)),
    {
        match self.state {
            SessionState::Disconnected => {
                self.state = SessionState::Connecting;
                Ok(())
            },
            _ => Err(Error::InvalidUsage("the session is not disconnected".to_owned())),
        }
    }

    /// The shell reports that the socket and its handshake are up.  A
    /// successful connection restores the full reconnect budget.
    pub fn on_connect_ok(&mut self)
        requires
            old(self).state is Connecting,
        ensures
            final(self).state is Connected,
            final(self).reconnects_used == 0,
            final(self).policy == old(self).policy,
    {
        self.state = SessionState::Connected;
        self.reconnects_used = 0;
    }

    /// The shell reports that the connection attempt failed; the session goes
    /// back to rest and the failure is surfaced as an authentication failure
    /// or a transport fault, carrying the native cause.
    pub fn on_connect_failed(&mut self, auth: bool, cause: String) -> (e: Error)
        requires
            old(self).state is Connecting,
        ensures
            final(self).state is Disconnected,
            final(self).reconnects_used == old(self).reconnects_used,
            final(self).policy == old(self).policy,
            auth ==> e == Error::AuthenticationFailure,
            !auth ==> (e matches Error::TransportIo(m) && m@ == cause@),
    {
        self.state = SessionState::Disconnected;
        if auth {
            Error::AuthenticationFailure
        } else {
            Error::TransportIo(cause)
        }
    }

    /// Handles one received frame while connected.
    ///
    /// Law carried by the contract: a malformed frame produces exactly one
    /// protocol-violation fault and changes nothing of the session, so the
    /// stream survives it; a well-formed frame is delivered as its decoded
    /// event.
    pub fn on_frame(&mut self, frame: &str) -> (d: Delivered)
        requires
            old(self).state is Connected,
        ensures
            *final(self) == *old(self),
            delivered_for(frame@, d),
    {
        match decode_event(frame) {
            Some(event) => Delivered::Event(event),
            None => Delivered::Fault(
                Error::ProtocolViolation("the frame is not a canonical event".to_owned()),
            ),
        }
    }

    /// Handles a burst of received frames while connected.
    ///
    /// Law carried by the contract: the deliveries line up with the frames
    /// one to one, in wire arrival order, and the session stays connected
    /// throughout.
    pub fn on_frames(&mut self, frames: &Vec<String>) -> (out: Vec<Delivered>)
        requires
            old(self).state is Connected,
        ensures
            *final(self) == *old(self),
            out@.len() == frames@.len(),
            forall|k: int|
                0 <= k < frames@.len() ==> delivered_for(frames@[k]@, #[trigger] out@[k]),
    {
        let mut out: Vec<Delivered> = Vec::new();
        let n = frames.len();
        let mut k: usize = 0;
        while k < n
            invariant
                k <= n,
                n == frames@.len(),
                *self == *old(self),
                self.state is Connected,
                out@.len() == k,
                forall|j: int| 0 <= j < k ==> delivered_for(frames@[j]@, #[trigger] out@[j]),
            decreases n - k,
        {
            let d = self.on_frame(frames[k].as_str());
            out.push(d);
            k = k + 1;
        }
        out
    }

    /// Handles an unexpected closure (socket error or remote-initiated close)
    /// while connected: the consumer is owed exactly one connection-closed
    /// fault carrying the reason, and the session either turns to connecting
    /// with the next backoff wait, or gives up once the reconnect budget is
    /// spent.
    pub fn on_closure(&mut self, reason: String) -> (r: (Delivered, ReconnectStep))
        requires
            old(self).state is Connected,
        ensures
            final(self).policy == old(self).policy,
            r.0 matches Delivered::Fault(f) && (f matches Error::ConnectionClosed(m) && m@
                == reason@),
            old(self).reconnects_used < old(self).policy.max_attempts ==> {
                &&& final(self).state is Connecting
                &&& final(self).reconnects_used == old(self).reconnects_used + 1
                &&& r.1 == ReconnectStep::Reconnect(
                    spec_backoff(
                        old(self).policy.base_backoff_secs,
                        old(self).policy.max_wait_secs,
                        old(self).reconnects_used as nat,
                    ) as u64,
                )
            },
            old(self).reconnects_used >= old(self).policy.max_attempts ==> {
                &&& final(self).state is Disconnected
                &&& final(self).reconnects_used == old(self).reconnects_used
                &&& r.1 == ReconnectStep::GiveUp
            },
    {
        let fault = Delivered::Fault(Error::ConnectionClosed(reason));
        if self.reconnects_used < self.policy.max_attempts {
            let wait = self.policy.backoff_secs(self.reconnects_used);
            proof {
                crate::http::lemma_backoff_bounds(
                    self.policy.base_backoff_secs,
                    self.policy.max_wait_secs,
                    self.reconnects_used as nat,
                );
            }
            self.reconnects_used = self.reconnects_used + 1;
            self.state = SessionState::Connecting;
            (fault, ReconnectStep::Reconnect(wait))
        } else {
            self.state = SessionState::Disconnected;
            (fault, ReconnectStep::GiveUp)
        }
    }

    /// The consumer asks for closure: an open or opening session turns to
    /// closing and is never reconnected; a resting session stays at rest.
    pub fn close(&mut self)
        ensures
            final(self).reconnects_used == old(self).reconnects_used,
            final(self).policy == old(self).policy,
            old(self).state is Disconnected ==> final(self).state is Disconnected,
            !(old(self).state is Disconnected) ==> final(self).state is Closing,
    {
        match self.state {
            SessionState::Disconnected => {},
            _ => {
                self.state = SessionState::Closing;
            },
        }
    }

    /// The shell reports that the socket is released after a requested
    /// closure.
    pub fn on_close_complete(&mut self)
        requires
            old(self).state is Closing,
        ensures
            final(self).state is Disconnected,
            final(self).reconnects_used == old(self).reconnects_used,
            final(self).policy == old(self).policy,
    {
        self.state = SessionState::Disconnected;
    }
}

} // verus!
