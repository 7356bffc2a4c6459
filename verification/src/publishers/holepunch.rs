//! How a client opens a UDP path through its NAT.
//!
//! The client sends a hole-punch to the session's port, the server answers
//! with dummy packets, and the client acknowledges one of them. Then RTP goes
//! over UDP; without the acknowledgement it goes over the WebSocket.
use crate::api::models::{
    ACK_HEADER, DUMMY_HEADER, DUMMY_PACKET_COUNT, DUMMY_PACKET_INTERVAL_MS, HOLEPUNCH_HEADER,
    PORT_RANGE_END, PORT_RANGE_START,
};
use crate::domain::session_id::{
    lemma_session_id_chars, lemma_session_id_round_trip, parse_session_id, session_id_chars,
    session_id_of, session_id_text,
};
use crate::domain::ClientSessionId;
use crate::text::{chars_of, is_white_space, spells, text_of, white_space};
use vstd::prelude::*;
use vstd::string::*;
use vstd::utf8::*;

verus! {

/// How long a negotiation waits for a hole-punch, and after one for its
/// acknowledgement, in milliseconds.
pub const NEGOTIATION_TIMEOUT_MS: u64 = 5000;

/// `str::from_utf8` reads bytes as text where they are valid UTF-8.
#[verifier::external_body]
fn utf8_text(bytes: &[u8]) -> (r: Option<&str>)
    ensures
        match r {
            Some(s) => valid_utf8(bytes@) && s@ == decode_utf8(bytes@),
            None => !valid_utf8(bytes@),
        },
{
    std::str::from_utf8(bytes).ok()
}

/// How many characters at the head of a text are, or are not, white space.
pub open spec fn leading_run(s: Seq<char>, space: bool) -> int
    decreases s.len(),
{
    if s.len() > 0 && white_space(s[0]) == space {
        1 + leading_run(s.skip(1), space)
    } else {
        0
    }
}

/// A text from its first word on.
pub open spec fn from_first_word(s: Seq<char>) -> Seq<char> {
    s.skip(leading_run(s, true))
}

/// The first word of a text; an empty one where the text holds none.
pub open spec fn first_word(s: Seq<char>) -> Seq<char> {
    from_first_word(s).take(leading_run(from_first_word(s), false))
}

/// A text from the end of its first word on.
pub open spec fn after_first_word(s: Seq<char>) -> Seq<char> {
    from_first_word(s).skip(leading_run(from_first_word(s), false))
}

/// Whether a text is a hole-punch for a session: its first two words are the
/// header and the session's id.
pub open spec fn valid_holepunch(session_id: ClientSessionId, payload: Seq<char>) -> bool {
    first_word(payload) == HOLEPUNCH_HEADER@ && session_id_of(
        first_word(after_first_word(payload)),
    ) == Some(session_id)
}

/// A protocol message: a header and a session id.
pub open spec fn addressed(header: Seq<char>, session_id: ClientSessionId) -> Seq<char> {
    header + " "@ + session_id_chars(session_id)
}

/// Whether a datagram is a hole-punch for a session.
pub open spec fn holepunch_datagram(session_id: ClientSessionId, datagram: Seq<u8>) -> bool {
    valid_utf8(datagram) && valid_holepunch(session_id, decode_utf8(datagram))
}

/// Whether a datagram acknowledges a session's dummy packets: it starts with
/// the header and the session's id.
pub open spec fn ack_datagram(session_id: ClientSessionId, datagram: Seq<u8>) -> bool {
    valid_utf8(datagram) && addressed(ACK_HEADER@, session_id).is_prefix_of(decode_utf8(datagram))
}

/// A run ends where the first character of the other kind stands.
proof fn lemma_leading_run(s: Seq<char>, space: bool, k: int)
    requires
        0 <= k <= s.len(),
        forall|i: int| 0 <= i < k ==> white_space(#[trigger] s[i]) == space,
        k < s.len() ==> white_space(s[k]) != space,
    ensures
        leading_run(s, space) == k,
    decreases k,
{
    if k > 0 {
        assert forall|i: int| 0 <= i < k - 1 implies white_space(#[trigger] s.skip(1)[i])
            == space by {
            assert(white_space(s[i + 1]) == space);
        }
        assert(white_space(s[0]) == space);
        lemma_leading_run(s.skip(1), space, k - 1);
    }
}

/// Where a run that begins at `from` ends.
fn run_end(chars: &[char], from: usize, space: bool) -> (r: usize)
    requires
        from <= chars@.len(),
    ensures
        from <= r <= chars@.len(),
        r - from == leading_run(chars@.skip(from as int), space),
{
    let mut end: usize = from;
    while end < chars.len() && is_white_space(chars[end]) == space
        invariant
            from <= end <= chars@.len(),
            forall|i: int| from <= i < end ==> white_space(#[trigger] chars@[i]) == space,
        decreases chars@.len() - end,
    {
        end += 1;
    }
    proof {
        lemma_leading_run(chars@.skip(from as int), space, end - from);
    }
    end
}

/// Checks that a text is a hole-punch for a session.
pub fn is_valid_holepunch(session_id: &ClientSessionId, payload: &str) -> (r: bool)
    ensures
        r == valid_holepunch(*session_id, payload@),
{
    let chars = chars_of(payload);
    let all = chars.as_slice();
    let start: usize = run_end(all, 0, true);
    let end: usize = run_end(all, start, false);
    proof {
        assert(payload@.skip(0) =~= payload@);
        assert(from_first_word(payload@) =~= payload@.skip(start as int));
        assert(first_word(payload@) =~= payload@.subrange(start as int, end as int));
        assert(after_first_word(payload@) =~= payload@.skip(end as int));
    }
    let header = text_of(all, start, end);
    let next: usize = run_end(all, end, true);
    let last: usize = run_end(all, next, false);
    proof {
        let rest = after_first_word(payload@);
        assert(from_first_word(rest) =~= payload@.skip(next as int));
        assert(first_word(rest) =~= payload@.subrange(next as int, last as int));
    }
    let id = text_of(all, next, last);
    let header_chars = chars_of(header.as_str());
    spells(header_chars.as_slice(), HOLEPUNCH_HEADER) && match parse_session_id(id.as_str()) {
        Some(id) => id == *session_id,
        None => false,
    }
}

/// Checks that a datagram is a hole-punch for a session.
pub fn is_holepunch_datagram(session_id: &ClientSessionId, datagram: &[u8]) -> (r: bool)
    ensures
        r == holepunch_datagram(*session_id, datagram@),
{
    match utf8_text(datagram) {
        Some(payload) => is_valid_holepunch(session_id, payload),
        None => false,
    }
}

/// Writes a protocol message.
fn addressed_text(header: &str, session_id: &ClientSessionId) -> (r: String)
    ensures
        r@ == addressed(header@, *session_id),
{
    let mut message = String::new();
    message.append(header);
    message.append(" ");
    let id = session_id_text(*session_id);
    message.append(id.as_str());
    assert(message@ =~= addressed(header@, *session_id));
    message
}

/// The dummy packet of a session.
pub fn dummy_message(session_id: &ClientSessionId) -> (r: String)
    ensures
        r@ == addressed(DUMMY_HEADER@, *session_id),
{
    addressed_text(DUMMY_HEADER, session_id)
}

/// Checks that a datagram acknowledges a session's dummy packets.
pub fn is_ack_datagram(session_id: &ClientSessionId, datagram: &[u8]) -> (r: bool)
    ensures
        r == ack_datagram(*session_id, datagram@),
{
    let payload = match utf8_text(datagram) {
        Some(payload) => chars_of(payload),
        None => return false,
    };
    let prefix_text = addressed_text(ACK_HEADER, session_id);
    let prefix = chars_of(prefix_text.as_str());
    if payload.len() < prefix.len() {
        return false;
    }
    let mut i: usize = 0;
    while i < prefix.len()
        invariant
            i <= prefix@.len() <= payload@.len(),
            prefix@ == addressed(ACK_HEADER@, *session_id),
            valid_utf8(datagram@),
            payload@ == decode_utf8(datagram@),
            forall|j: int| 0 <= j < i ==> prefix@[j] == payload@[j],
        decreases prefix@.len() - i,
    {
        if prefix[i] != payload[i] {
            assert(payload@.subrange(0, prefix@.len() as int)[i as int] != prefix@[i as int]);
            return false;
        }
        i += 1;
    }
    assert(payload@.subrange(0, prefix@.len() as int) =~= prefix@);
    true
}

/// Where a negotiation stands. Times are in milliseconds of any one clock.
#[derive(Debug, Clone, Copy, PartialEq, Eq, Structural)]
pub enum Negotiation {
    /// Waiting for a hole-punch since `start`.
    AwaitingHolepunch { start: u64 },
    /// The client punched at `punched`; a socket is being connected to it.
    Connecting { start: u64, punched: u64 },
    /// Waiting for an acknowledgement, with `dummies` sent and answered by
    /// none.
    AwaitingAck { punched: u64, dummies: u32 },
    /// UDP works.
    Confirmed,
    /// RTP goes over the WebSocket.
    FallBack,
}

/// What happens to a negotiation.
#[derive(Debug)]
pub enum NegotiationEvent {
    /// A datagram came in on the session's port.
    Datagram(Vec<u8>),
    /// None came in before the time was up.
    NoDatagram,
    /// Receiving failed.
    ReceiveFailed,
    /// The socket was connected to the client.
    Connected,
    /// It could not be.
    ConnectFailed,
}

/// What the negotiation asks for next.
#[derive(Debug, Clone, Copy, PartialEq, Eq, Structural)]
pub enum NegotiationAction {
    /// Receive a datagram, for at most so many milliseconds.
    Receive { timeout_ms: u64 },
    /// Connect a socket to the sender of the hole-punch.
    Connect,
    /// Send a dummy packet, then receive as above.
    SendDummy { timeout_ms: u64 },
    /// Nothing more.
    Stop,
}

/// The milliseconds from one time to another, none where the clock went back.
pub open spec fn elapsed(since: u64, now: u64) -> int {
    if now >= since {
        now - since
    } else {
        0
    }
}

impl Negotiation {
    /// The state after an event.
    pub open spec fn next(
        self,
        session_id: ClientSessionId,
        event: NegotiationEvent,
        now: u64,
    ) -> Negotiation {
        match self {
            Negotiation::AwaitingHolepunch { start } => if elapsed(start, now)
                >= NEGOTIATION_TIMEOUT_MS {
                Negotiation::FallBack
            } else {
                match event {
                    NegotiationEvent::Datagram(d) if holepunch_datagram(
                        session_id,
                        d@,
                    ) => Negotiation::Connecting { start, punched: now },
                    NegotiationEvent::ReceiveFailed => Negotiation::FallBack,
                    _ => self,
                }
            },
            Negotiation::Connecting { start, punched } => match event {
                NegotiationEvent::Connected => Negotiation::AwaitingAck { punched, dummies: 0 },
                NegotiationEvent::ConnectFailed => Negotiation::AwaitingHolepunch { start },
                _ => self,
            },
            Negotiation::AwaitingAck { punched, dummies } => if elapsed(punched, now)
                >= NEGOTIATION_TIMEOUT_MS {
                Negotiation::FallBack
            } else {
                match event {
                    NegotiationEvent::Datagram(d) if ack_datagram(
                        session_id,
                        d@,
                    ) => Negotiation::Confirmed,
                    _ => if dummies < DUMMY_PACKET_COUNT {
                        Negotiation::AwaitingAck { punched, dummies: (dummies + 1) as u32 }
                    } else {
                        self
                    },
                }
            },
            _ => self,
        }
    }

    /// What a state asks for.
    pub open spec fn asks(self, now: u64) -> NegotiationAction {
        match self {
            Negotiation::AwaitingHolepunch { start } => NegotiationAction::Receive {
                timeout_ms: remaining(start, now),
            },
            Negotiation::Connecting { .. } => NegotiationAction::Connect,
            Negotiation::AwaitingAck { punched, dummies } => if dummies < DUMMY_PACKET_COUNT {
                NegotiationAction::SendDummy {
                    timeout_ms: if remaining(punched, now) < DUMMY_PACKET_INTERVAL_MS {
                        remaining(punched, now)
                    } else {
                        DUMMY_PACKET_INTERVAL_MS
                    },
                }
            } else {
                NegotiationAction::Receive { timeout_ms: remaining(punched, now) }
            },
            _ => NegotiationAction::Stop,
        }
    }

    /// The state after a list of events, each with its time.
    pub open spec fn after(
        self,
        session_id: ClientSessionId,
        events: Seq<(NegotiationEvent, u64)>,
    ) -> Negotiation
        decreases events.len(),
    {
        if events.len() == 0 {
            self
        } else {
            self.after(session_id, events.drop_last()).next(
                session_id,
                events.last().0,
                events.last().1,
            )
        }
    }

    /// A negotiation that begins.
    pub fn begin(now: u64) -> (r: Self)
        ensures
            r == (Negotiation::AwaitingHolepunch { start: now }),
    {
        Negotiation::AwaitingHolepunch { start: now }
    }

    /// Takes an event in.
    pub fn step(self, session_id: &ClientSessionId, event: &NegotiationEvent, now: u64) -> (r: Self)
        ensures
            r == self.next(*session_id, *event, now),
    {
        match self {
            Negotiation::AwaitingHolepunch { start } => {
                if remaining_ms(start, now) == 0 {
                    return Negotiation::FallBack;
                }
                match event {
                    NegotiationEvent::Datagram(d) => if is_holepunch_datagram(
                        session_id,
                        d.as_slice(),
                    ) {
                        Negotiation::Connecting { start, punched: now }
                    } else {
                        self
                    },
                    NegotiationEvent::ReceiveFailed => Negotiation::FallBack,
                    _ => self,
                }
            },
            Negotiation::Connecting { start, punched } => match event {
                NegotiationEvent::Connected => Negotiation::AwaitingAck { punched, dummies: 0 },
                NegotiationEvent::ConnectFailed => Negotiation::AwaitingHolepunch { start },
                _ => self,
            },
            Negotiation::AwaitingAck { punched, dummies } => {
                if remaining_ms(punched, now) == 0 {
                    return Negotiation::FallBack;
                }
                if let NegotiationEvent::Datagram(d) = event {
                    if is_ack_datagram(session_id, d.as_slice()) {
                        return Negotiation::Confirmed;
                    }
                }
                if dummies < DUMMY_PACKET_COUNT {
                    Negotiation::AwaitingAck { punched, dummies: dummies + 1 }
                } else {
                    self
                }
            },
            _ => self,
        }
    }

    /// What is to be done next.
    pub fn action(self, now: u64) -> (r: NegotiationAction)
        ensures
            r == self.asks(now),
    {
        match self {
            Negotiation::AwaitingHolepunch { start } => NegotiationAction::Receive {
                timeout_ms: remaining_ms(start, now),
            },
            Negotiation::Connecting { .. } => NegotiationAction::Connect,
            Negotiation::AwaitingAck { punched, dummies } => {
                let left: u64 = remaining_ms(punched, now);
                if dummies < DUMMY_PACKET_COUNT {
                    if left < DUMMY_PACKET_INTERVAL_MS {
                        NegotiationAction::SendDummy { timeout_ms: left }
                    } else {
                        NegotiationAction::SendDummy { timeout_ms: DUMMY_PACKET_INTERVAL_MS }
                    }
                } else {
                    NegotiationAction::Receive { timeout_ms: left }
                }
            },
            _ => NegotiationAction::Stop,
        }
    }
}

/// The milliseconds until a wait that began at `since` is over.
pub open spec fn remaining(since: u64, now: u64) -> u64 {
    if elapsed(since, now) >= NEGOTIATION_TIMEOUT_MS {
        0
    } else {
        (NEGOTIATION_TIMEOUT_MS - elapsed(since, now)) as u64
    }
}

fn remaining_ms(since: u64, now: u64) -> (r: u64)
    ensures
        r == remaining(since, now),
        r == 0 <==> elapsed(since, now) >= NEGOTIATION_TIMEOUT_MS,
{
    let waited: u64 = if now >= since {
        now - since
    } else {
        0
    };
    if waited >= NEGOTIATION_TIMEOUT_MS {
        0
    } else {
        NEGOTIATION_TIMEOUT_MS - waited
    }
}

/// The client punched at the given time.
pub open spec fn punched_at(
    session_id: ClientSessionId,
    events: Seq<(NegotiationEvent, u64)>,
    time: u64,
) -> bool {
    exists|i: int|
        0 <= i < events.len() && is_holepunch_event(session_id, (#[trigger] events[i]).0)
            && events[i].1 == time
}

/// The client punched and acknowledged, less than the time of a negotiation
/// after it.
pub open spec fn acknowledged_in_time(
    session_id: ClientSessionId,
    events: Seq<(NegotiationEvent, u64)>,
) -> bool {
    exists|i: int, j: int|
        0 <= i < j < events.len() && is_holepunch_event(session_id, (#[trigger] events[i]).0)
            && is_ack_event(session_id, (#[trigger] events[j]).0) && elapsed(
            events[i].1,
            events[j].1,
        ) < NEGOTIATION_TIMEOUT_MS
}

/// UDP is confirmed only by a hole-punch and, less than the time of a
/// negotiation after it, an acknowledgement, both of this session.
pub proof fn lemma_confirmed_by_client(
    session_id: ClientSessionId,
    start: u64,
    events: Seq<(NegotiationEvent, u64)>,
)
    ensures
        match (Negotiation::AwaitingHolepunch { start }).after(session_id, events) {
            Negotiation::Connecting { punched, .. } => punched_at(session_id, events, punched),
            Negotiation::AwaitingAck { punched, .. } => punched_at(session_id, events, punched),
            Negotiation::Confirmed => acknowledged_in_time(session_id, events),
            _ => true,
        },
    decreases events.len(),
{
    let begin = Negotiation::AwaitingHolepunch { start };
    if events.len() > 0 {
        let earlier = events.drop_last();
        let last = events.len() - 1;
        lemma_confirmed_by_client(session_id, start, earlier);
        let state = begin.after(session_id, events);
        match begin.after(session_id, earlier) {
            Negotiation::AwaitingHolepunch { .. } => {
                if state is Connecting {
                    assert(is_holepunch_event(session_id, events[last].0));
                }
            },
            Negotiation::Connecting { punched, .. } => {
                let i = choose|i: int|
                    0 <= i < earlier.len() && is_holepunch_event(
                        session_id,
                        (#[trigger] earlier[i]).0,
                    ) && earlier[i].1 == punched;
                assert(events[i] == earlier[i]);
            },
            Negotiation::AwaitingAck { punched, .. } => {
                let i = choose|i: int|
                    0 <= i < earlier.len() && is_holepunch_event(
                        session_id,
                        (#[trigger] earlier[i]).0,
                    ) && earlier[i].1 == punched;
                assert(events[i] == earlier[i]);
                if state is Confirmed {
                    assert(is_ack_event(session_id, events[last].0));
                }
            },
            Negotiation::Confirmed => {
                let (i, j) = choose|i: int, j: int|
                    0 <= i < j < earlier.len() && is_holepunch_event(
                        session_id,
                        (#[trigger] earlier[i]).0,
                    ) && is_ack_event(session_id, (#[trigger] earlier[j]).0) && elapsed(
                        earlier[i].1,
                        earlier[j].1,
                    ) < NEGOTIATION_TIMEOUT_MS;
                assert(events[i] == earlier[i] && events[j] == earlier[j]);
            },
            Negotiation::FallBack => {},
        }
    }
}

/// Once its time is up, a negotiation that waits for the client falls back,
/// whatever comes in.
pub proof fn lemma_falls_back_in_time(
    state: Negotiation,
    session_id: ClientSessionId,
    event: NegotiationEvent,
    now: u64,
)
    requires
        match state {
            Negotiation::AwaitingHolepunch { start } => elapsed(start, now)
                >= NEGOTIATION_TIMEOUT_MS,
            Negotiation::AwaitingAck { punched, .. } => elapsed(punched, now)
                >= NEGOTIATION_TIMEOUT_MS,
            _ => false,
        },
    ensures
        state.next(session_id, event, now) == Negotiation::FallBack,
{
}

/// The event brings a hole-punch of the session.
pub open spec fn is_holepunch_event(session_id: ClientSessionId, event: NegotiationEvent) -> bool {
    event matches NegotiationEvent::Datagram(d) && holepunch_datagram(session_id, d@)
}

/// The event brings an acknowledgement of the session.
pub open spec fn is_ack_event(session_id: ClientSessionId, event: NegotiationEvent) -> bool {
    event matches NegotiationEvent::Datagram(d) && ack_datagram(session_id, d@)
}

/// A negotiation counts no more dummy packets than are to be sent.
pub proof fn lemma_dummies_bounded(
    session_id: ClientSessionId,
    start: u64,
    events: Seq<(NegotiationEvent, u64)>,
)
    ensures
        (Negotiation::AwaitingHolepunch { start }).after(
            session_id,
            events,
        ) matches Negotiation::AwaitingAck { dummies, .. } ==> dummies <= DUMMY_PACKET_COUNT,
    decreases events.len(),
{
    if events.len() > 0 {
        lemma_dummies_bounded(session_id, start, events.drop_last());
    }
}

/// The two words of a protocol message.
proof fn lemma_words_of_message(header: Seq<char>, session_id: ClientSessionId)
    requires
        header.len() > 0,
        forall|i: int| 0 <= i < header.len() ==> !white_space(#[trigger] header[i]),
    ensures
        first_word(addressed(header, session_id)) == header,
        first_word(after_first_word(addressed(header, session_id))) == session_id_chars(session_id),
{
    let s = addressed(header, session_id);
    let id = session_id_chars(session_id);
    let k = header.len() as int;
    lemma_session_id_chars(session_id);
    reveal_strlit(" ");
    assert(white_space(' '));
    assert(forall|i: int| 0 <= i < 36 ==> !white_space(#[trigger] id[i]));
    assert(s[0] == header[0]);
    lemma_leading_run(s, true, 0);
    assert(s.skip(0) =~= s);
    assert forall|i: int| 0 <= i < k implies white_space(#[trigger] s[i]) == false by {
        assert(s[i] == header[i]);
    }
    lemma_leading_run(s, false, k);
    assert(s.take(k) =~= header);
    let rest = s.skip(k);
    assert(rest =~= " "@ + id);
    assert(rest[1] == id[0]);
    lemma_leading_run(rest, true, 1);
    assert(rest.skip(1) =~= id);
    lemma_leading_run(id, false, 36);
    assert(id.take(36) =~= id);
}

/// The hole-punch that the protocol prescribes is accepted by the session
/// whose id it holds, and by no other.
pub proof fn lemma_prescribed_holepunch(session_id: ClientSessionId, other: ClientSessionId)
    ensures
        valid_holepunch(other, addressed(HOLEPUNCH_HEADER@, session_id)) <==> other == session_id,
{
    reveal_strlit("ws-rtp");
    lemma_words_of_message(HOLEPUNCH_HEADER@, session_id);
    lemma_session_id_round_trip(session_id);
}

/// The acknowledgement that the protocol prescribes is accepted by the
/// session whose id it holds, and by no other.
pub proof fn lemma_prescribed_ack(session_id: ClientSessionId, other: ClientSessionId)
    ensures
        ack_datagram(other, encode_utf8(addressed(ACK_HEADER@, session_id))) <==> other
            == session_id,
{
    let message = addressed(ACK_HEADER@, session_id);
    encode_utf8_valid_utf8(message);
    encode_utf8_decode_utf8(message);
    lemma_session_id_chars(session_id);
    lemma_session_id_chars(other);
    lemma_session_id_round_trip(session_id);
    lemma_session_id_round_trip(other);
    let expected = addressed(ACK_HEADER@, other);
    assert(message.subrange(0, message.len() as int) =~= message);
    if ack_datagram(other, encode_utf8(message)) {
        let head = ACK_HEADER@.len() as int + " "@.len();
        assert(expected =~= message);
        assert(message.skip(head) =~= session_id_chars(session_id));
        assert(expected.skip(head) =~= session_id_chars(other));
    }
}

/// What to do about the port of a session's hole-punch listener.
#[derive(Debug, Clone, Copy, PartialEq, Eq, Structural)]
pub enum PortSearch {
    /// Try to listen on this port.
    Try(u16),
    /// No port of the range is left.
    Exhausted,
}

impl PortSearch {
    /// The first port to try.
    pub fn begin() -> (r: Self)
        ensures
            r == PortSearch::Try(PORT_RANGE_START),
    {
        PortSearch::Try(PORT_RANGE_START)
    }

    /// The search after a port that could not be had.
    pub open spec fn past(self) -> PortSearch {
        match self {
            PortSearch::Try(port) if port < PORT_RANGE_END => PortSearch::Try((port + 1) as u16),
            _ => PortSearch::Exhausted,
        }
    }

    /// Goes on after a port that could not be had.
    pub fn next(self) -> (r: Self)
        ensures
            r == self.past(),
    {
        match self {
            PortSearch::Try(port) => if port < PORT_RANGE_END {
                PortSearch::Try(port + 1)
            } else {
                PortSearch::Exhausted
            },
            PortSearch::Exhausted => PortSearch::Exhausted,
        }
    }

    /// The search after `count` ports that could not be had.
    pub open spec fn after(count: nat) -> PortSearch
        decreases count,
    {
        if count == 0 {
            PortSearch::Try(PORT_RANGE_START)
        } else {
            PortSearch::after((count - 1) as nat).past()
        }
    }
}

/// The search tries every port of the range once, from the lowest up, before
/// it gives up.
pub proof fn lemma_ports_tried(count: nat)
    ensures
        PortSearch::after(count) == (if PORT_RANGE_START + count <= PORT_RANGE_END {
            PortSearch::Try((PORT_RANGE_START + count) as u16)
        } else {
            PortSearch::Exhausted
        }),
    decreases count,
{
    if count > 0 {
        lemma_ports_tried((count - 1) as nat);
    }
}

/// A text is a hole-punch of a session by its first two words alone: `ws-rtp`
/// and the session's id, with any white space before, between and after them.
pub proof fn lemma_holepunch_by_words(
    session_id: ClientSessionId,
    before: Seq<char>,
    first: Seq<char>,
    between: Seq<char>,
    second: Seq<char>,
    rest: Seq<char>,
)
    requires
        forall|i: int| 0 <= i < before.len() ==> white_space(#[trigger] before[i]),
        first.len() > 0,
        forall|i: int| 0 <= i < first.len() ==> !white_space(#[trigger] first[i]),
        between.len() > 0,
        forall|i: int| 0 <= i < between.len() ==> white_space(#[trigger] between[i]),
        second.len() > 0,
        forall|i: int| 0 <= i < second.len() ==> !white_space(#[trigger] second[i]),
        rest.len() == 0 || white_space(rest[0]),
    ensures
        valid_holepunch(session_id, before + first + between + second + rest) <==> first
            == "ws-rtp"@ && session_id_of(second) == Some(session_id),
        !valid_holepunch(session_id, before + first),
{
    let s = before + first + between + second + rest;
    let from_first = first + between + second + rest;
    assert forall|i: int| 0 <= i < before.len() implies white_space(#[trigger] s[i]) by {
        assert(s[i] == before[i]);
    }
    assert(s[before.len() as int] == first[0]);
    lemma_leading_run(s, true, before.len() as int);
    assert(s.skip(before.len() as int) =~= from_first);
    assert forall|i: int| 0 <= i < first.len() implies white_space(
        #[trigger] from_first[i],
    ) == false by {
        assert(from_first[i] == first[i]);
    }
    assert(from_first[first.len() as int] == between[0]);
    lemma_leading_run(from_first, false, first.len() as int);
    assert(from_first.take(first.len() as int) =~= first);
    let after = between + second + rest;
    assert(from_first.skip(first.len() as int) =~= after);
    assert forall|i: int| 0 <= i < between.len() implies white_space(#[trigger] after[i]) by {
        assert(after[i] == between[i]);
    }
    assert(after[between.len() as int] == second[0]);
    lemma_leading_run(after, true, between.len() as int);
    let from_second = second + rest;
    assert(after.skip(between.len() as int) =~= from_second);
    assert forall|i: int| 0 <= i < second.len() implies white_space(
        #[trigger] from_second[i],
    ) == false by {
        assert(from_second[i] == second[i]);
    }
    if rest.len() > 0 {
        assert(from_second[second.len() as int] == rest[0]);
    }
    lemma_leading_run(from_second, false, second.len() as int);
    assert(from_second.take(second.len() as int) =~= second);
    let short = before + first;
    assert forall|i: int| 0 <= i < before.len() implies white_space(#[trigger] short[i]) by {
        assert(short[i] == before[i]);
    }
    assert(short[before.len() as int] == first[0]);
    lemma_leading_run(short, true, before.len() as int);
    assert(short.skip(before.len() as int) =~= first);
    lemma_leading_run(first, false, first.len() as int);
    let nothing = first.skip(first.len() as int);
    assert(nothing.len() == 0);
    assert(nothing.skip(0) =~= nothing);
    assert(first_word(nothing).len() == 0);
}

/// An acknowledgement is known by its first 47 characters: `ws-rtp-ack`, a
/// space and the session's id.
pub proof fn lemma_ack_by_its_front(session_id: ClientSessionId, payload: Seq<char>)
    ensures
        ack_datagram(session_id, encode_utf8(payload)) <==> payload.len() >= 47 && payload.take(47)
            == "ws-rtp-ack "@ + session_id_chars(session_id),
{
    encode_utf8_valid_utf8(payload);
    encode_utf8_decode_utf8(payload);
    lemma_session_id_chars(session_id);
    reveal_strlit("ws-rtp-ack");
    reveal_strlit(" ");
    reveal_strlit("ws-rtp-ack ");
    let front = addressed(ACK_HEADER@, session_id);
    assert(front =~= "ws-rtp-ack "@ + session_id_chars(session_id));
    assert(front.len() == 47);
    if payload.len() >= 47 {
        assert(payload.take(47) =~= payload.subrange(0, 47));
    }
}

/// A client that punches less than five seconds after the start, and
/// acknowledges less than five seconds after that, has UDP confirmed, whatever
/// else it sends in between.
pub proof fn lemma_udp_is_confirmed(
    session_id: ClientSessionId,
    start: u64,
    punch: NegotiationEvent,
    punched: u64,
    connected: u64,
    other: NegotiationEvent,
    between: u64,
    ack: NegotiationEvent,
    acked: u64,
)
    requires
        is_holepunch_event(session_id, punch),
        is_ack_event(session_id, ack),
        !is_ack_event(session_id, other),
        start <= punched < start + 5000,
        punched <= between <= acked < punched + 5000,
    ensures
        ({
            let begin = Negotiation::AwaitingHolepunch { start };
            let heard = begin.next(session_id, punch, punched);
            let linked = heard.next(session_id, NegotiationEvent::Connected, connected);
            let waiting = linked.next(session_id, other, between);
            &&& heard.asks(punched) is Connect
            &&& linked.next(session_id, ack, acked) == Negotiation::Confirmed
            &&& waiting.next(session_id, ack, acked) == Negotiation::Confirmed
            &&& Negotiation::Confirmed.asks(acked) is Stop
            &&& Negotiation::FallBack.asks(acked) is Stop
        }),
{
}

/// Until its five seconds are over a negotiation goes on, and it waits until
/// then and no longer. Up to five dummy packets go out, a tenth of a second
/// apart.
pub proof fn lemma_negotiation_waits(
    session_id: ClientSessionId,
    since: u64,
    dummies: u32,
    event: NegotiationEvent,
    now: u64,
)
    requires
        since <= now,
        since + 5000 <= u64::MAX,
    ensures
        now - since < 5000 ==> {
            let early = Negotiation::AwaitingHolepunch { start: since };
            let late = Negotiation::AwaitingAck { punched: since, dummies };
            &&& early.asks(now) == (NegotiationAction::Receive {
                timeout_ms: (since + 5000 - now) as u64,
            })
            &&& !is_holepunch_event(session_id, event) && !(event is ReceiveFailed) ==> early.next(
                session_id,
                event,
                now,
            ) == early
            &&& event is ReceiveFailed ==> early.next(session_id, event, now)
                == Negotiation::FallBack
            &&& dummies >= 5 ==> late.asks(now) == (NegotiationAction::Receive {
                timeout_ms: (since + 5000 - now) as u64,
            })
            &&& dummies < 5 && now - since <= 4900 ==> late.asks(now)
                == (NegotiationAction::SendDummy { timeout_ms: 100 })
            &&& dummies < 5 && now - since > 4900 ==> late.asks(now)
                == (NegotiationAction::SendDummy { timeout_ms: (since + 5000 - now) as u64 })
            &&& !is_ack_event(session_id, event) ==> late.next(session_id, event, now)
                == (Negotiation::AwaitingAck {
                punched: since,
                dummies: if dummies < 5 {
                    (dummies + 1) as u32
                } else {
                    dummies
                },
            })
        },
        now - since >= 5000 ==> {
            &&& (Negotiation::AwaitingHolepunch { start: since }).next(session_id, event, now)
                == Negotiation::FallBack
            &&& (Negotiation::AwaitingAck { punched: since, dummies }).next(session_id, event, now)
                == Negotiation::FallBack
        },
{
}

/// A client whose socket could not be connected can punch again, within the
/// time that it had.
pub proof fn lemma_punch_again(session_id: ClientSessionId, start: u64, punched: u64, now: u64)
    ensures
        (Negotiation::Connecting { start, punched }).next(
            session_id,
            NegotiationEvent::ConnectFailed,
            now,
        ) == (Negotiation::AwaitingHolepunch { start }),
{
}

/// Every port from 30000 to 40000 is tried, and none besides.
pub proof fn lemma_every_port_tried(port: u16)
    ensures
        30000 <= port <= 40000 ==> PortSearch::after((port - 30000) as nat) == PortSearch::Try(
            port,
        ),
        forall|count: nat|
            #[trigger] PortSearch::after(count) == PortSearch::Try(port) ==> 30000 <= port <= 40000,
        forall|count: nat| count > 10000 ==> #[trigger] PortSearch::after(count) is Exhausted,
{
    if 30000 <= port <= 40000 {
        lemma_ports_tried((port - 30000) as nat);
    }
    assert forall|count: nat|
        #[trigger] PortSearch::after(count) == PortSearch::Try(port) implies 30000 <= port
        <= 40000 by {
        lemma_ports_tried(count);
    }
    assert forall|count: nat| count > 10000 implies #[trigger] PortSearch::after(
        count,
    ) is Exhausted by {
        lemma_ports_tried(count);
    }
}

/// A clock that goes back takes nothing from the time that a client has.
pub proof fn lemma_clock_gone_back(
    session_id: ClientSessionId,
    since: u64,
    event: NegotiationEvent,
    now: u64,
)
    requires
        now <= since,
    ensures
        (Negotiation::AwaitingHolepunch { start: since }).asks(now) == (NegotiationAction::Receive {
            timeout_ms: 5000,
        }),
        is_holepunch_event(session_id, event) ==> (Negotiation::AwaitingHolepunch {
            start: since,
        }).next(session_id, event, now) == (Negotiation::Connecting { start: since, punched: now }),
        is_ack_event(session_id, event) ==> (Negotiation::AwaitingAck {
            punched: since,
            dummies: 0,
        }).next(session_id, event, now) is Confirmed,
{
}

} // verus!
