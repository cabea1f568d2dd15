use vstd::prelude::*;
use crate::models::{HeadsetState, Response};

verus! {

/// The protocol version announced to every headset that connects.
pub const PROTOCOL_VERSION: usize = 1;

/// The first frame sent to a connecting headset.
pub struct Version {
    pub version: usize,
}

/// The display name given to a connecting headset.
pub struct SessionName {
    pub session_name: String,
}

/// The character of decimal digit `d`.
pub open spec fn digit_char(d: int) -> char {
    if d == 0 {
        '0'
    } else if d == 1 {
        '1'
    } else if d == 2 {
        '2'
    } else if d == 3 {
        '3'
    } else if d == 4 {
        '4'
    } else if d == 5 {
        '5'
    } else if d == 6 {
        '6'
    } else if d == 7 {
        '7'
    } else if d == 8 {
        '8'
    } else {
        '9'
    }
}

/// The decimal notation of `n`, without leading zeros.
pub open spec fn decimal(n: nat) -> Seq<char>
    decreases n,
{
    if n < 10 {
        seq![digit_char(n as int)]
    } else {
        decimal(n / 10).push(digit_char((n % 10) as int))
    }
}

/// The session name of the `n`-th headset to connect.
pub open spec fn session_name_text(n: nat) -> Seq<char> {
    "Student "@ + decimal(n)
}

proof fn lemma_decimal_len(n: nat)
    ensures
        decimal(n).len() >= 1,
        n >= 10 ==> decimal(n).len() >= 2,
    decreases n,
{
    if n >= 10 {
        lemma_decimal_len(n / 10);
    }
}

proof fn lemma_decimal_injective(a: nat, b: nat)
    requires
        decimal(a) == decimal(b),
    ensures
        a == b,
    decreases a,
{
    lemma_decimal_len(a);
    lemma_decimal_len(b);
    if a < 10 && b < 10 {
        assert(decimal(a)[0] == digit_char(a as int));
        assert(decimal(b)[0] == digit_char(b as int));
    } else if a >= 10 && b >= 10 {
        let da = decimal(a);
        let db = decimal(b);
        assert(da.last() == digit_char((a % 10) as int));
        assert(db.last() == digit_char((b % 10) as int));
        assert(a % 10 == b % 10);
        assert(da.drop_last() =~= decimal(a / 10));
        assert(db.drop_last() =~= decimal(b / 10));
        lemma_decimal_injective(a / 10, b / 10);
    }
}

/// Headsets given different numbers get different session names.
pub proof fn law_session_names_distinct(a: nat, b: nat)
    requires
        a != b,
    ensures
        session_name_text(a) != session_name_text(b),
{
    let p = "Student "@;
    if session_name_text(a) == session_name_text(b) {
        assert(session_name_text(a).subrange(p.len() as int, session_name_text(a).len() as int) =~= decimal(a));
        assert(session_name_text(b).subrange(p.len() as int, session_name_text(b).len() as int) =~= decimal(b));
        lemma_decimal_injective(a, b);
    }
}

/// The number a string of decimal digits stands for, most significant digit first.
pub open spec fn digits_value(s: Seq<char>) -> int
    decreases s.len(),
{
    if s.len() == 0 {
        0
    } else {
        digits_value(s.drop_last()) * 10 + (s.last() as int - 48)
    }
}

/// Each decimal digit is written as the character `'0' + d`.
pub proof fn law_digit_chars(d: int)
    requires
        0 <= d < 10,
    ensures
        digit_char(d) as u32 == 48 + d,
        digit_char(d) as int == 48 + d,
{
}

/// The decimal notation of `n` is made of the characters '0' to '9', has no leading zero
/// unless it is "0" itself, and reads back to `n`.
pub proof fn law_decimal_notation(n: nat)
    ensures
        decimal(n).len() >= 1,
        forall|i: int| 0 <= i < decimal(n).len() ==> 48 <= #[trigger] decimal(n)[i] as u32 <= 57,
        decimal(n).len() > 1 ==> decimal(n)[0] != '0',
        n == 0 <==> decimal(n) == seq!['0'],
        digits_value(decimal(n)) == n,
    decreases n,
{
    lemma_decimal_len(n);
    let s = decimal(n);
    if n >= 10 {
        law_decimal_notation(n / 10);
        lemma_decimal_len(n / 10);
        let p = decimal(n / 10);
        assert(s == p.push(digit_char((n % 10) as int)));
        assert(s.drop_last() =~= p);
        law_digit_chars((n % 10) as int);
        assert(s.last() == digit_char((n % 10) as int));
        assert forall|i: int| 0 <= i < s.len() implies 48 <= #[trigger] s[i] as u32 <= 57 by {
            if i < p.len() {
                assert(s[i] == p[i]);
            }
        }
        assert(s[0] == p[0]);
        if p.len() == 1 {
            assert(n / 10 < 10);
            law_digit_chars((n / 10) as int);
            assert(p[0] == digit_char((n / 10) as int));
        }
        assert(digits_value(s) == digits_value(s.drop_last()) * 10 + (s.last() as int - 48));
        assert(digits_value(s) == (n / 10) * 10 + n % 10);
        if s == seq!['0'] {
            assert(s.len() == 1);
        }
    } else {
        law_digit_chars(n as int);
        assert(s[0] == digit_char(n as int));
        assert(s.drop_last() =~= Seq::<char>::empty());
        assert(digits_value(s) == digits_value(s.drop_last()) * 10 + (s.last() as int - 48));
        if s == seq!['0'] {
            assert(s[0] == '0');
        }
    }
}

/// The session name of the `n`-th headset is "Student " followed by the decimal notation of `n`.
pub proof fn law_session_name_format(n: nat)
    ensures
        session_name_text(n).len() == 8 + decimal(n).len(),
        session_name_text(n).subrange(0, 8) == "Student "@,
        digits_value(session_name_text(n).subrange(8, session_name_text(n).len() as int)) == n,
        forall|i: int| 8 <= i < session_name_text(n).len() ==> 48 <= #[trigger] session_name_text(n)[i] as u32 <= 57,
{
    reveal_strlit("Student ");
    let t = session_name_text(n);
    assert(t.subrange(0, 8) =~= "Student "@);
    assert(t.subrange(8, t.len() as int) =~= decimal(n));
    law_decimal_notation(n);
    assert forall|i: int| 8 <= i < t.len() implies 48 <= #[trigger] t[i] as u32 <= 57 by {
        assert(t[i] == decimal(n)[i - 8]);
    }
}

fn digit_text(d: u32) -> (r: &'static str)
    requires
        d < 10,
    ensures
        r@ == seq![digit_char(d as int)],
{
    proof {
        reveal_strlit("0");
        reveal_strlit("1");
        reveal_strlit("2");
        reveal_strlit("3");
        reveal_strlit("4");
        reveal_strlit("5");
        reveal_strlit("6");
        reveal_strlit("7");
        reveal_strlit("8");
        reveal_strlit("9");
    }
    if d == 0 {
        "0"
    } else if d == 1 {
        "1"
    } else if d == 2 {
        "2"
    } else if d == 3 {
        "3"
    } else if d == 4 {
        "4"
    } else if d == 5 {
        "5"
    } else if d == 6 {
        "6"
    } else if d == 7 {
        "7"
    } else if d == 8 {
        "8"
    } else {
        "9"
    }
}

fn append_decimal(out: &mut String, n: u32)
    ensures
        final(out)@ == old(out)@ + decimal(n as nat),
    decreases n,
{
    if n >= 10 {
        append_decimal(out, n / 10);
    }
    out.append(digit_text(n % 10));
    proof {
        if n >= 10 {
            assert(decimal(n as nat) == decimal((n / 10) as nat).push(digit_char((n % 10) as int)));
        }
    }
}

impl SessionName {
    /// Takes the next number from `counter` and names the session after it.
    pub fn get_new_name(counter: &mut u32) -> (r: SessionName)
        requires
            *old(counter) < u32::MAX,
        ensures
            *final(counter) == *old(counter) + 1,
            r.session_name@ == session_name_text(*final(counter) as nat),
    {
        *counter = *counter + 1;
        let mut name = String::from_str("Student ");
        proof {
            reveal_strlit("Student ");
        }
        append_decimal(&mut name, *counter);
        SessionName { session_name: name }
    }
}

/// Where the opening handshake with a headset stands.
pub enum Handshake {
    /// The protocol version is to be announced.
    Greeting,
    /// The headset is to answer with its id.
    AwaitingId,
    /// The session name is to be sent; `headset_id` is what the headset answered.
    NamingSession { headset_id: Option<String>, session_name: String },
    /// The handshake is over.
    Finished,
}

/// What happened at the connection since the last step.
pub enum HandshakeEvent {
    /// The version frame was written, or writing it failed.
    VersionSent { ok: bool },
    /// The headset's answer: its id, or nothing when the stream ended, failed or the
    /// answer could not be decoded.
    IdReceived { headset_id: Option<String> },
    /// The session name frame was written, or writing it failed.
    SessionNameSent { ok: bool },
}

/// What the connection is to do next.
pub enum HandshakeAction {
    SendVersion(Version),
    ReceiveId,
    SendSessionName(SessionName),
    /// The handshake is over: the headset's id and session name, when it succeeded.
    Finish(Option<(String, String)>),
}

impl Handshake {
    /// Whether the handshake is waiting for `event`.
    pub open spec fn accepts(self, event: HandshakeEvent) -> bool {
        match self {
            Handshake::Greeting => event is VersionSent,
            Handshake::AwaitingId => event is IdReceived,
            Handshake::NamingSession { .. } => event is SessionNameSent,
            Handshake::Finished => false,
        }
    }

    /// A handshake opens by announcing the protocol version.
    pub fn start() -> (r: (Handshake, HandshakeAction))
        ensures
            r.0 is Greeting,
            r.1 matches HandshakeAction::SendVersion(v) && v.version == PROTOCOL_VERSION,
    {
        (Handshake::Greeting, HandshakeAction::SendVersion(Version { version: PROTOCOL_VERSION }))
    }

    /// Advances the handshake by one event. A failure to send the version does not stop
    /// it; the session number is taken from `counter` once the headset has answered,
    /// whatever it answered; the handshake succeeds when the headset gave its id and the
    /// session name was sent.
    pub fn step(self, event: HandshakeEvent, counter: &mut u32) -> (r: (Handshake, HandshakeAction))
        requires
            self.accepts(event),
            event is IdReceived ==> *old(counter) < u32::MAX,
        ensures
            match event {
                HandshakeEvent::VersionSent { .. } => {
                    &&& r.0 is AwaitingId
                    &&& r.1 is ReceiveId
                    &&& *final(counter) == *old(counter)
                },
                HandshakeEvent::IdReceived { headset_id } => {
                    &&& *final(counter) == *old(counter) + 1
                    &&& r.0 matches Handshake::NamingSession { headset_id: id, session_name: name }
                    &&& id == headset_id
                    &&& name@ == session_name_text(*final(counter) as nat)
                    &&& r.1 matches HandshakeAction::SendSessionName(n)
                    &&& n.session_name@ == name@
                },
                HandshakeEvent::SessionNameSent { ok } => {
                    &&& r.0 is Finished
                    &&& *final(counter) == *old(counter)
                    &&& self matches Handshake::NamingSession { headset_id, session_name }
                    &&& r.1 matches HandshakeAction::Finish(outcome)
                    &&& outcome == if ok && headset_id is Some {
                        Some((headset_id.unwrap(), session_name))
                    } else {
                        None
                    }
                },
            },
    {
        match event {
            HandshakeEvent::VersionSent { ok: _ } => (Handshake::AwaitingId, HandshakeAction::ReceiveId),
            HandshakeEvent::IdReceived { headset_id } => {
                let name = SessionName::get_new_name(counter);
                let shown = SessionName { session_name: name.session_name.clone() };
                (
                    Handshake::NamingSession { headset_id, session_name: name.session_name },
                    HandshakeAction::SendSessionName(shown),
                )
            },
            HandshakeEvent::SessionNameSent { ok } => {
                match self {
                    Handshake::NamingSession { headset_id, session_name } => {
                        let outcome = if ok {
                            match headset_id {
                                Some(id) => Some((id, session_name)),
                                None => None,
                            }
                        } else {
                            None
                        };
                        (Handshake::Finished, HandshakeAction::Finish(outcome))
                    },
                    _ => (Handshake::Finished, HandshakeAction::Finish(None)),
                }
            },
        }
    }
}

/// Whether a connection loop goes on.
#[derive(PartialEq, Eq, Structural, Clone, Copy, Debug)]
pub enum LoopControl {
    Continue,
    Stop,
}

/// What the receiving side of a connection got from the headset.
pub enum ReceiveEvent {
    /// The stream ended.
    StreamEnded,
    /// Reading the stream failed.
    StreamFailed,
    /// A frame came that is not a reply.
    Undecodable,
    /// A reply came.
    Reply(Response),
}

/// What the sending side of a connection is to do next.
#[derive(PartialEq, Eq, Structural, Clone, Copy, Debug)]
pub enum SendAction {
    Transmit,
    AwaitNext,
    Stop,
}

/// What happened on the sending side of a connection.
#[derive(PartialEq, Eq, Structural, Clone, Copy, Debug)]
pub enum SendEvent {
    /// The queue of commands for this headset was closed.
    QueueClosed,
    /// A command was taken from the queue.
    Dequeued,
    /// The command was written to the headset.
    Transmitted,
    /// Writing the command to the headset failed.
    TransmitFailed,
}

impl HeadsetState {
    /// Handles what the receiving side got at `time`: a reply is recorded with its time
    /// and counted, and the loop goes on; anything else ends the loop.
    pub fn on_receive(&mut self, event: ReceiveEvent, time: u64) -> (r: LoopControl)
        requires
            event is Reply ==> old(self).recv_count() < usize::MAX,
        ensures
            match event {
                ReceiveEvent::Reply(resp) => {
                    &&& r == LoopControl::Continue
                    &&& final(self).response_log() == old(self).response_log().push(resp)
                    &&& final(self).recv_log() == old(self).recv_log().push(time)
                    &&& final(self).recv_count() == old(self).recv_count() + 1
                    &&& final(self).send_log() == old(self).send_log()
                    &&& final(self).name_view() == old(self).name_view()
                },
                _ => {
                    &&& r == LoopControl::Stop
                    &&& *final(self) == *old(self)
                },
            },
    {
        match event {
            ReceiveEvent::Reply(resp) => {
                self.push_response(resp);
                self.push_recv_time(time);
                self.add_received();
                LoopControl::Continue
            },
            _ => LoopControl::Stop,
        }
    }

    /// Handles what happened on the sending side at `time`: a command taken from the
    /// queue has its send time recorded and is to be transmitted; after a transmission
    /// the next command is awaited; a closed queue or a failed write ends the loop.
    pub fn on_send(&mut self, event: SendEvent, time: u64) -> (r: SendAction)
        ensures
            event == SendEvent::Dequeued ==> {
                &&& r == SendAction::Transmit
                &&& final(self).send_log() == old(self).send_log().push(time)
                &&& final(self).response_log() == old(self).response_log()
                &&& final(self).recv_log() == old(self).recv_log()
                &&& final(self).recv_count() == old(self).recv_count()
                &&& final(self).name_view() == old(self).name_view()
            },
            event != SendEvent::Dequeued ==> *final(self) == *old(self),
            event == SendEvent::Transmitted ==> r == SendAction::AwaitNext,
            (event == SendEvent::QueueClosed || event == SendEvent::TransmitFailed) ==> r == SendAction::Stop,
    {
        match event {
            SendEvent::Dequeued => {
                self.push_send_time(time);
                SendAction::Transmit
            },
            SendEvent::Transmitted => SendAction::AwaitNext,
            _ => SendAction::Stop,
        }
    }
}

} // verus!
