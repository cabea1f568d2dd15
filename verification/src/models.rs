use vstd::prelude::*;
use crate::registry::Registry;

verus! {

/// A command that the instructor app orders the headsets to carry out.
#[derive(Debug)]
pub enum MessageVariant {
    ChangeScene { scene: usize },
    FocusOnObject { object: String },
    SetAttentionMode { attention: bool },
    SetTransparencyMode { transparency: bool },
    Query {},
}

impl MessageVariant {
    /// The protocol number of each kind of command.
    pub open spec fn discriminant(self) -> usize {
        match self {
            MessageVariant::Query {  } => 0,
            MessageVariant::ChangeScene { .. } => 1,
            MessageVariant::FocusOnObject { .. } => 2,
            MessageVariant::SetAttentionMode { .. } => 3,
            MessageVariant::SetTransparencyMode { .. } => 4,
        }
    }

    /// Executable form of `discriminant`.
    pub fn type_id(&self) -> (r: usize)
        ensures
            r == self.discriminant(),
    {
        match self {
            MessageVariant::Query {  } => 0,
            MessageVariant::ChangeScene { .. } => 1,
            MessageVariant::FocusOnObject { .. } => 2,
            MessageVariant::SetAttentionMode { .. } => 3,
            MessageVariant::SetTransparencyMode { .. } => 4,
        }
    }
}

/// A command together with its protocol number, as sent on the wire.
#[derive(Debug)]
pub struct Message {
    id: usize,
    kwargs: MessageVariant,
}

impl Message {
    #[verifier::type_invariant]
    closed spec fn id_matches(self) -> bool {
        self.id == self.kwargs.discriminant()
    }

    /// The command carried by the message.
    pub closed spec fn command(self) -> MessageVariant {
        self.kwargs
    }

    /// The protocol number of the command carried.
    pub fn id(&self) -> (r: usize)
        ensures
            r == self.command().discriminant(),
    {
        proof {
            use_type_invariant(self);
        }
        self.id
    }

    /// The command carried by the message.
    pub fn kwargs(&self) -> (r: &MessageVariant)
        ensures
            *r == self.command(),
    {
        &self.kwargs
    }
}

impl Clone for MessageVariant {
    fn clone(&self) -> (r: MessageVariant)
        ensures
            r == *self,
    {
        match self {
            MessageVariant::ChangeScene { scene } => MessageVariant::ChangeScene { scene: *scene },
            MessageVariant::FocusOnObject { object } => MessageVariant::FocusOnObject { object: object.clone() },
            MessageVariant::SetAttentionMode { attention } => MessageVariant::SetAttentionMode { attention: *attention },
            MessageVariant::SetTransparencyMode { transparency } => MessageVariant::SetTransparencyMode {
                transparency: *transparency,
            },
            MessageVariant::Query {  } => MessageVariant::Query {  },
        }
    }
}

impl Clone for Message {
    fn clone(&self) -> (r: Message)
        ensures
            r.command() == self.command(),
    {
        proof {
            use_type_invariant(self);
        }
        Message { id: self.id, kwargs: self.kwargs.clone() }
    }
}

impl From<MessageVariant> for Message {
    fn from(value: MessageVariant) -> (m: Message) {
        let id = value.type_id();
        Message { id, kwargs: value }
    }
}

impl vstd::std_specs::convert::FromSpecImpl<MessageVariant> for Message {
    open spec fn obeys_from_spec() -> bool {
        true
    }

    closed spec fn from_spec(v: MessageVariant) -> Message {
        Message { id: v.discriminant(), kwargs: v }
    }
}

/// Wrapping a command into a message keeps the command; the message's id is then the
/// command's kind number (see `Message::id`).
pub broadcast proof fn law_message_from_command(v: MessageVariant)
    ensures
        #[trigger] <Message as vstd::std_specs::convert::FromSpec<MessageVariant>>::from_spec(v).command() == v,
{
}

/// A JSON document carried through unread: the detail of a headset's error reply.
#[verifier::external_type_specification]
#[verifier::external_body]
pub struct ExJsonValue(serde_json::Value);

/// A headset's reply to a command.
pub struct Response {
    pub error: bool,
    pub response: Option<ResponseType>,
}

/// The payload of a headset's reply.
pub enum ResponseType {
    Error { message: String, detail: serde_json::Value },
    Query {},
}

/// A headset's connection health, judged by its recent round-trip latency.
#[derive(PartialEq, Eq, Structural, Clone, Copy, Debug)]
pub enum ConnectionHealth {
    Excellent,
    Good,
    Poor,
}

/// Nanoseconds in a millisecond: timestamps are nanoseconds on one monotonic clock.
pub const NANOS_PER_MILLI: u64 = 1_000_000;

/// How many of the earliest round trips the health judgement averages over.
pub const HEALTH_SAMPLE: usize = 10;

/// Whole milliseconds from `sent` to `received`, zero when `received` is not later.
pub open spec fn latency_millis(sent: u64, received: u64) -> int {
    if sent <= received {
        (received - sent) / (NANOS_PER_MILLI as int)
    } else {
        0
    }
}

/// The total latency of a sequence of (sent, received) pairs.
pub open spec fn latency_sum(pairs: Seq<(u64, u64)>) -> int
    decreases pairs.len(),
{
    if pairs.len() == 0 {
        0
    } else {
        latency_sum(pairs.drop_last()) + latency_millis(pairs.last().0, pairs.last().1)
    }
}

/// The number of round trips the mean is taken over: `count`, but at most ten.
pub open spec fn sample_size(count: int) -> int {
    if count < HEALTH_SAMPLE { count } else { HEALTH_SAMPLE as int }
}

/// The mean latency: the latencies of the first `sample_size(count)` pairs that exist,
/// summed and divided by `sample_size(count)`.
pub open spec fn mean_latency(count: int, pairs: Seq<(u64, u64)>) -> int {
    let taken = sample_size(count);
    let used = if taken < pairs.len() { taken } else { pairs.len() as int };
    latency_sum(pairs.take(used)) / taken
}

/// Under 50 ms is excellent, under 200 ms good, anything slower poor.
pub open spec fn health_for_latency(mean: int) -> ConnectionHealth {
    if mean < 50 {
        ConnectionHealth::Excellent
    } else if mean < 200 {
        ConnectionHealth::Good
    } else {
        ConnectionHealth::Poor
    }
}

/// The health judged from `count` round trips whose times are `pairs`.
pub open spec fn health_of(count: int, pairs: Seq<(u64, u64)>) -> ConnectionHealth {
    if count == 0 {
        ConnectionHealth::Excellent
    } else {
        health_for_latency(mean_latency(count, pairs))
    }
}

/// The largest latency a single pair can show: `u64::MAX` nanoseconds in whole milliseconds.
pub open spec fn max_latency() -> int {
    18_446_744_073_709
}

proof fn lemma_latency_bound(sent: u64, received: u64)
    ensures
        0 <= latency_millis(sent, received) <= max_latency(),
{
    if sent <= received {
        let d: int = received - sent;
        assert(0 <= d <= u64::MAX);
        assert(d / 1_000_000 <= 18_446_744_073_709) by (nonlinear_arith)
            requires 0 <= d <= 18_446_744_073_709_551_615;
        assert(d / 1_000_000 >= 0) by (nonlinear_arith)
            requires 0 <= d;
    }
}

proof fn lemma_latency_sum_bound(pairs: Seq<(u64, u64)>)
    ensures
        0 <= latency_sum(pairs) <= pairs.len() * max_latency(),
    decreases pairs.len(),
{
    if pairs.len() > 0 {
        lemma_latency_sum_bound(pairs.drop_last());
        lemma_latency_bound(pairs.last().0, pairs.last().1);
    }
}

/// The health of a headset depends on no round trip past the tenth.
pub proof fn law_health_reads_first_ten(count: int, pairs: Seq<(u64, u64)>, m: int)
    requires
        count >= 0,
        m == if pairs.len() < HEALTH_SAMPLE { pairs.len() as int } else { HEALTH_SAMPLE as int },
    ensures
        health_of(count, pairs.take(m)) == health_of(count, pairs),
{
    if count > 0 {
        let taken = sample_size(count);
        let used = if taken < pairs.len() { taken } else { pairs.len() as int };
        let q = pairs.take(m);
        let used_q = if taken < q.len() { taken } else { q.len() as int };
        assert(used_q == used);
        assert(q.take(used_q) =~= pairs.take(used));
    }
}

/// A round trip's latency is the whole number of milliseconds from sending to receiving,
/// and zero when the reply seems to come before the send.
pub proof fn law_latency_is_whole_millis(sent: u64, received: u64)
    ensures
        sent <= received ==> latency_millis(sent, received) * 1_000_000 <= received - sent
            < (latency_millis(sent, received) + 1) * 1_000_000,
        received < sent ==> latency_millis(sent, received) == 0,
{
    if sent <= received {
        let d: int = received - sent;
        let q = latency_millis(sent, received);
        assert(q == d / 1_000_000);
        assert(q * 1_000_000 <= d < (q + 1) * 1_000_000) by (nonlinear_arith)
            requires q == d / 1_000_000, d >= 0;
    }
}

/// The total latency of no round trips is zero, and adding a round trip adds its latency.
pub proof fn law_latency_sum_adds_up(pairs: Seq<(u64, u64)>, p: (u64, u64))
    ensures
        latency_sum(Seq::<(u64, u64)>::empty()) == 0,
        latency_sum(pairs.push(p)) == latency_sum(pairs) + latency_millis(p.0, p.1),
{
    assert(pairs.push(p).drop_last() =~= pairs);
}

/// With no round trips counted the health is excellent. Otherwise it is the class of the
/// arithmetic mean: with `taken` the smaller of `count` and ten, and `total` the summed
/// latency of the first `taken` pairs that exist, the health is excellent when
/// `total < 50 * taken`, good when `50 * taken <= total < 200 * taken`, and poor when
/// `total >= 200 * taken`, that is when the mean `total / taken` is under 50 ms, under
/// 200 ms, or neither.
pub proof fn law_health_is_mean_class(count: int, pairs: Seq<(u64, u64)>)
    requires
        count >= 0,
    ensures
        count == 0 ==> health_of(count, pairs) == ConnectionHealth::Excellent,
        count >= 1 ==> {
            let taken: int = if count < 10 { count } else { 10 };
            let used: int = if taken < pairs.len() { taken } else { pairs.len() as int };
            let total = latency_sum(pairs.take(used));
            &&& (health_of(count, pairs) == ConnectionHealth::Excellent <==> total < 50 * taken)
            &&& (health_of(count, pairs) == ConnectionHealth::Good <==> 50 * taken <= total < 200
                * taken)
            &&& (health_of(count, pairs) == ConnectionHealth::Poor <==> total >= 200 * taken)
            &&& mean_latency(count, pairs) == total / taken
        },
{
    if count >= 1 {
        let taken: int = if count < 10 { count } else { 10 };
        let used: int = if taken < pairs.len() { taken } else { pairs.len() as int };
        let total = latency_sum(pairs.take(used));
        lemma_latency_sum_bound(pairs.take(used));
        assert(sample_size(count) == taken);
        let m = total / taken;
        assert(m == mean_latency(count, pairs));
        assert(m < 50 <==> total < 50 * taken) by (nonlinear_arith)
            requires m == total / taken, taken >= 1, total >= 0;
        assert(m < 200 <==> total < 200 * taken) by (nonlinear_arith)
            requires m == total / taken, taken >= 1, total >= 0;
    }
}

/// The round trips of a headset in the order they happened: pair `k` matches reply `k`
/// with send `k`, or, when there are more sends than replies, with the send as many
/// places later as there are surplus sends; there are as many pairs as the fewer of
/// sends and replies.
pub proof fn law_round_trips_in_order(send: Seq<u64>, recv: Seq<u64>)
    ensures
        paired_times(send, recv).len() == if recv.len() < send.len() { recv.len() } else { send.len() },
        forall|k: int|
            0 <= k < paired_times(send, recv).len() ==> #[trigger] paired_times(send, recv)[k] == (
                send[k + if recv.len() < send.len() { send.len() - recv.len() } else { 0int }],
                recv[k],
            ),
{
}

impl ConnectionHealth {
    /// Judges health from `count` round trips whose (sent, received) times are listed
    /// in `times`: the mean latency of the first `min(count, 10)` of them.
    pub fn from_times(count: usize, times: &Vec<(u64, u64)>) -> (r: ConnectionHealth)
        ensures
            r == health_of(count as int, times@),
    {
        if count == 0 {
            return ConnectionHealth::Excellent;
        }
        let taken: usize = if count < HEALTH_SAMPLE { count } else { HEALTH_SAMPLE };
        let n: usize = times.len();
        let mut sum: u64 = 0;
        let mut i: usize = 0;
        while i < taken && i < n
            invariant
                taken <= HEALTH_SAMPLE,
                n == times@.len(),
                i <= taken,
                i <= n,
                sum == latency_sum(times@.take(i as int)),
                sum <= i * max_latency(),
            decreases taken - i,
        {
            let pair = times[i];
            let sent = pair.0;
            let received = pair.1;
            let latency: u64 = if sent <= received { (received - sent) / NANOS_PER_MILLI } else { 0 };
            proof {
                assert(times@.take(i + 1).drop_last() =~= times@.take(i as int));
                lemma_latency_bound(sent, received);
                assert(latency == latency_millis(sent, received));
            }
            sum = sum + latency;
            i = i + 1;
        }
        let mean: u64 = sum / (taken as u64);
        if mean < 50 {
            ConnectionHealth::Excellent
        } else if mean < 200 {
            ConnectionHealth::Good
        } else {
            ConnectionHealth::Poor
        }
    }
}

/// The (sent, received) pairs the health of a headset is judged from: the receive times
/// are matched, in order, with the most recent send times, or with the first ones when
/// there are no more sends than receives.
pub open spec fn paired_times(send: Seq<u64>, recv: Seq<u64>) -> Seq<(u64, u64)> {
    if recv.len() < send.len() {
        Seq::new(recv.len(), |k: int| (send[k + (send.len() - recv.len())], recv[k]))
    } else {
        Seq::new(send.len(), |k: int| (send[k], recv[k]))
    }
}

/// What the server observes of one headset.
pub struct HeadsetState {
    pub name: String,
    pub recv: usize,
    responses: Vec<Response>,
    recv_times: Vec<u64>,
    send_times: Vec<u64>,
}

impl HeadsetState {
    /// The session name shown for the headset.
    pub closed spec fn name_view(self) -> Seq<char> {
        self.name@
    }

    /// The number of replies counted.
    pub closed spec fn recv_count(self) -> nat {
        self.recv as nat
    }

    /// The replies received, oldest first.
    pub closed spec fn response_log(self) -> Seq<Response> {
        self.responses@
    }

    /// The times replies were received, oldest first.
    pub closed spec fn recv_log(self) -> Seq<u64> {
        self.recv_times@
    }

    /// The times commands were sent, oldest first.
    pub closed spec fn send_log(self) -> Seq<u64> {
        self.send_times@
    }

    /// The health this state shows.
    pub open spec fn health(self) -> ConnectionHealth {
        health_of(self.recv_log().len() as int, paired_times(self.send_log(), self.recv_log()))
    }

    /// A fresh state for the headset of session `hid`.
    pub fn new(hid: String) -> (r: HeadsetState)
        ensures
            r.name_view() == hid@,
            r.recv_count() == 0,
            r.response_log() == Seq::<Response>::empty(),
            r.recv_log() == Seq::<u64>::empty(),
            r.send_log() == Seq::<u64>::empty(),
    {
        HeadsetState {
            name: hid,
            recv: 0,
            responses: Vec::new(),
            recv_times: Vec::new(),
            send_times: Vec::new(),
        }
    }

    pub fn push_response(&mut self, r: Response)
        ensures
            final(self).response_log() == old(self).response_log().push(r),
            final(self).recv_log() == old(self).recv_log(),
            final(self).send_log() == old(self).send_log(),
            final(self).name_view() == old(self).name_view(),
            final(self).recv_count() == old(self).recv_count(),
    {
        self.responses.push(r);
    }

    pub fn push_recv_time(&mut self, time: u64)
        ensures
            final(self).recv_log() == old(self).recv_log().push(time),
            final(self).response_log() == old(self).response_log(),
            final(self).send_log() == old(self).send_log(),
            final(self).name_view() == old(self).name_view(),
            final(self).recv_count() == old(self).recv_count(),
    {
        self.recv_times.push(time);
    }

    pub fn push_send_time(&mut self, time: u64)
        ensures
            final(self).send_log() == old(self).send_log().push(time),
            final(self).response_log() == old(self).response_log(),
            final(self).recv_log() == old(self).recv_log(),
            final(self).name_view() == old(self).name_view(),
            final(self).recv_count() == old(self).recv_count(),
    {
        self.send_times.push(time);
    }

    /// The session name shown for the headset.
    pub fn name(&self) -> (r: &String)
        ensures
            r@ == self.name_view(),
    {
        &self.name
    }

    /// The number of replies counted.
    pub fn recv(&self) -> (r: usize)
        ensures
            r == self.recv_count(),
    {
        self.recv
    }

    /// Counts one more reply.
    pub(crate) fn add_received(&mut self)
        requires
            old(self).recv_count() < usize::MAX,
        ensures
            final(self).recv_count() == old(self).recv_count() + 1,
            final(self).response_log() == old(self).response_log(),
            final(self).recv_log() == old(self).recv_log(),
            final(self).send_log() == old(self).send_log(),
            final(self).name_view() == old(self).name_view(),
    {
        self.recv = self.recv + 1;
    }

    /// The health judged from the first ten round trips on record.
    pub fn connection_health(&self) -> (r: ConnectionHealth)
        ensures
            r == self.health(),
            r == health_of(self.recv_log().len() as int, paired_times(self.send_log(), self.recv_log())),
    {
        let recv_len = self.recv_times.len();
        let send_len = self.send_times.len();
        let offset: usize = if recv_len < send_len { send_len - recv_len } else { 0 };
        let pair_count: usize = if recv_len < send_len { recv_len } else { send_len };
        let limit: usize = if pair_count < HEALTH_SAMPLE { pair_count } else { HEALTH_SAMPLE };
        let ghost all = paired_times(self.send_times@, self.recv_times@);
        let mut pairs: Vec<(u64, u64)> = Vec::new();
        let mut k: usize = 0;
        while k < limit
            invariant
                limit <= pair_count,
                pair_count == all.len(),
                recv_len == self.recv_times@.len(),
                send_len == self.send_times@.len(),
                offset == if recv_len < send_len { send_len - recv_len } else { 0 },
                pair_count == if recv_len < send_len { recv_len } else { send_len },
                all == paired_times(self.send_times@, self.recv_times@),
                k <= limit,
                pairs@ =~= all.take(k as int),
            decreases limit - k,
        {
            pairs.push((self.send_times[k + offset], self.recv_times[k]));
            k = k + 1;
        }
        proof {
            law_health_reads_first_ten(recv_len as int, all, limit as int);
        }
        ConnectionHealth::from_times(recv_len, &pairs)
    }
}

/// Recording a command makes it the one retransmitted if it is a scene change, and
/// leaves the retransmitted one as it was otherwise.
pub proof fn law_retransmits_latest_scene_change(log: Seq<Message>, m: Message)
    ensures
        last_scene_change(log.push(m)) == if m.command() is ChangeScene {
            Some(m)
        } else {
            last_scene_change(log)
        },
{
    assert(log.push(m).drop_last() =~= log);
}

/// A headset that connects and then disconnects leaves the table of headsets as it would
/// be had its id never been there.
pub proof fn law_drop_after_push<H>(headsets: Map<Seq<char>, H>, id: Seq<char>, hset: H)
    ensures
        headsets.insert(id, hset).remove(id) =~= headsets.remove(id),
{
}

/// The most recent scene change in `log`, if any.
pub open spec fn last_scene_change(log: Seq<Message>) -> Option<Message>
    decreases log.len(),
{
    if log.len() == 0 {
        None
    } else if log.last().command() is ChangeScene {
        Some(log.last())
    } else {
        last_scene_change(log.drop_last())
    }
}

/// The state of the server: the headsets connected, by headset id, and every command
/// broadcast so far.
pub struct ServerState<H> {
    headsets: Registry<H>,
    messages: Vec<Message>,
}

impl<H> ServerState<H> {
    /// The connected headsets, by headset id.
    pub closed spec fn headset_map(self) -> Map<Seq<char>, H> {
        self.headsets@
    }

    /// The commands broadcast so far, oldest first.
    pub closed spec fn message_log(self) -> Seq<Message> {
        self.messages@
    }

    /// A server with no headsets and no commands.
    pub fn new() -> (r: ServerState<H>)
        ensures
            r.headset_map() == Map::<Seq<char>, H>::empty(),
            r.message_log() == Seq::<Message>::empty(),
    {
        ServerState { headsets: Registry::new(), messages: Vec::new() }
    }

    pub fn messages(&self) -> (r: &Vec<Message>)
        ensures
            r@ == self.message_log(),
    {
        &self.messages
    }

    /// Forgets the headset with id `id`.
    pub fn drop_headset(&mut self, id: &str)
        ensures
            final(self).headset_map() == old(self).headset_map().remove(id@),
            final(self).message_log() == old(self).message_log(),
    {
        self.headsets.remove(id);
    }

    /// Every connected headset, each id once, in no particular order.
    pub fn headset_iter(&self) -> (r: Vec<(&str, &H)>)
        ensures
            forall|i: int|
                0 <= i < r@.len() ==> self.headset_map().contains_key(#[trigger] r@[i].0@)
                    && self.headset_map()[r@[i].0@] == *r@[i].1,
            forall|k: Seq<char>|
                self.headset_map().contains_key(k) ==> exists|i: int|
                    0 <= i < r@.len() && #[trigger] r@[i].0@ == k,
            forall|i: int, j: int|
                0 <= i < r@.len() && 0 <= j < r@.len() && i != j ==> #[trigger] r@[i].0@ != #[trigger] r@[j].0@,
    {
        self.headsets.iter()
    }

    /// Registers the headset `hset` under id `id`, replacing any headset of that id.
    pub fn push_headset(&mut self, id: String, hset: H)
        ensures
            final(self).headset_map() == old(self).headset_map().insert(id@, hset),
            final(self).message_log() == old(self).message_log(),
    {
        self.headsets.insert(id, hset);
    }

    /// Records a broadcast command.
    pub fn push_message(&mut self, message: Message)
        ensures
            final(self).message_log() == old(self).message_log().push(message),
            final(self).headset_map() == old(self).headset_map(),
    {
        self.messages.push(message);
    }

    /// The command retransmitted to a headset that connects: the latest scene change.
    pub fn retransmission(&self) -> (r: Option<&Message>)
        ensures
            r.is_some() == last_scene_change(self.message_log()).is_some(),
            r matches Some(m) ==> Some(*m) == last_scene_change(self.message_log()),
    {
        let mut i: usize = self.messages.len();
        proof {
            assert(self.messages@.take(i as int) =~= self.messages@);
        }
        while i > 0
            invariant
                i <= self.messages@.len(),
                last_scene_change(self.messages@) == last_scene_change(self.messages@.take(i as int)),
            decreases i,
        {
            let m = &self.messages[i - 1];
            proof {
                assert(self.messages@.take(i as int).drop_last() =~= self.messages@.take(i - 1));
            }
            if m.id() == 1 {
                return Some(m);
            }
            i = i - 1;
        }
        None
    }
}

} // verus!
