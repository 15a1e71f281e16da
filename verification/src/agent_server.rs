use vstd::prelude::*;

verus! {

/// A text the server pushes to one websocket session.
#[derive(Debug, Clone, PartialEq, Eq)]
pub struct Message(pub String);

/// A text an agent posted, to be relayed to every session.
#[derive(Debug, Clone, PartialEq, Eq)]
pub struct ClientMessage {
    pub msg: String,
}

/// A websocket session asking to receive relayed messages; `addr` names
/// the session.
#[derive(Debug, Clone, PartialEq, Eq)]
pub struct Connect {
    pub addr: u64,
}

/// One message addressed to one session.
#[derive(Debug, Clone, PartialEq, Eq)]
pub struct Delivery {
    pub session: u64,
    pub message: Message,
}

impl Delivery {
    pub open spec fn view(&self) -> (u64, Seq<char>) {
        (self.session, self.message.0@)
    }
}

/// The relay: the sessions that connected, in the order they connected.
#[derive(Debug, Clone, PartialEq, Eq)]
pub struct AgentServer {
    sessions: Vec<u64>,
}

/// What a broadcast of `text` over `sessions` hands out: one delivery per
/// connected session, in connection order.
pub open spec fn broadcast(sessions: Seq<u64>, text: Seq<char>) -> Seq<(u64, Seq<char>)> {
    sessions.map_values(|s: u64| (s, text))
}

/// The views of a list of deliveries.
pub open spec fn deliveries_view(d: Seq<Delivery>) -> Seq<(u64, Seq<char>)> {
    d.map_values(|x: Delivery| x.view())
}

/// What the relay receives: a session joining, or an agent's message.
pub enum RelayEvent {
    Join(u64),
    Post,
}

/// The sessions after one event: a join appends the session
/// (`handle_connect`), a message leaves them as they are
/// (`handle_client_message`).
pub open spec fn after_event(sessions: Seq<u64>, e: RelayEvent) -> Seq<u64> {
    match e {
        RelayEvent::Join(addr) => sessions.push(addr),
        RelayEvent::Post => sessions,
    }
}

/// The sessions of a fresh relay (`AgentServer::default`) after the events,
/// in the order they arrived.
pub open spec fn replay(events: Seq<RelayEvent>) -> Seq<u64>
    decreases events.len(),
{
    if events.len() == 0 {
        Seq::empty()
    } else {
        after_event(replay(events.drop_last()), events.last())
    }
}

/// The sessions that joined, in arrival order.
pub open spec fn joined(events: Seq<RelayEvent>) -> Seq<u64> {
    events.filter(|e: RelayEvent| e is Join).map_values(|e: RelayEvent| e->Join_0)
}

impl View for AgentServer {
    type V = Seq<u64>;

    closed spec fn view(&self) -> Seq<u64> {
        self.sessions@
    }
}

impl Default for AgentServer {
    fn default() -> (s: AgentServer)
        ensures
            s@ == Seq::<u64>::empty(),
    {
        AgentServer { sessions: Vec::new() }
    }
}

impl AgentServer {
    /// The sessions, in connection order.
    pub fn sessions(&self) -> (s: &Vec<u64>)
        ensures
            s@ == self@,
    {
        &self.sessions
    }

    /// Hands `message` to every connected session.
    pub fn send_message(&self, message: &str) -> (out: Vec<Delivery>)
        ensures
            deliveries_view(out@) == broadcast(self@, message@),
    {
        let mut out: Vec<Delivery> = Vec::new();
        let mut i: usize = 0;
        while i < self.sessions.len()
            invariant
                i <= self.sessions@.len(),
                deliveries_view(out@) == broadcast(self.sessions@.take(i as int), message@),
            decreases self.sessions@.len() - i,
        {
            let text = message.to_owned();
            let d = Delivery { session: self.sessions[i], message: Message(text) };
            let ghost before = out@;
            out.push(d);
            proof {
                let prefix = self.sessions@.take(i as int);
                assert(self.sessions@.take(i + 1) =~= prefix.push(self.sessions@[i as int]));
                assert(out@ =~= before.push(d));
                assert(deliveries_view(out@) =~= deliveries_view(before).push(d.view()));
                assert(broadcast(prefix.push(self.sessions@[i as int]), message@)
                    =~= broadcast(prefix, message@).push((self.sessions@[i as int], message@)));
            }
            i = i + 1;
        }
        proof {
            assert(self.sessions@.take(i as int) == self.sessions@);
        }
        out
    }

    /// A session joins: it receives every message relayed from now on.
    pub fn handle_connect(&mut self, msg: Connect)
        ensures
            final(self)@ == old(self)@.push(msg.addr),
    {
        self.sessions.push(msg.addr);
    }

    /// An agent's message is relayed to every connected session; the
    /// sessions stay as they are.
    pub fn handle_client_message(&self, msg: ClientMessage) -> (out: Vec<Delivery>)
        ensures
            deliveries_view(out@) == broadcast(self@, msg.msg@),
    {
        self.send_message(msg.msg.as_str())
    }
}

/// A session that connects receives every later broadcast: broadcasting
/// over the sessions with one more connected hands out the same deliveries
/// as before, followed by one to the newcomer.
pub proof fn lemma_connect_then_broadcast(sessions: Seq<u64>, addr: u64, text: Seq<char>)
    ensures
        broadcast(sessions.push(addr), text) == broadcast(sessions, text).push((addr, text)),
{
    assert(broadcast(sessions.push(addr), text) =~= broadcast(sessions, text).push((addr, text)));
}

/// Every delivery of a broadcast carries the broadcast text, and a session
/// receives it exactly as many times as it connected.
pub proof fn lemma_broadcast_exactly_once(sessions: Seq<u64>, text: Seq<char>, session: u64)
    ensures
        forall|i: int| 0 <= i < broadcast(sessions, text).len()
            ==> (#[trigger] broadcast(sessions, text)[i]).1 == text,
        broadcast(sessions, text).filter(|d: (u64, Seq<char>)| d.0 == session).len()
            == sessions.filter(|s: u64| s == session).len(),
    decreases sessions.len(),
{
    let to_session = |d: (u64, Seq<char>)| d.0 == session;
    let is_session = |s: u64| s == session;
    if sessions.len() > 0 {
        let rest = sessions.drop_last();
        let last = sessions.last();
        lemma_broadcast_exactly_once(rest, text, session);
        assert(rest.push(last) == sessions);
        lemma_connect_then_broadcast(rest, last, text);
        broadcast(rest, text).lemma_filter_len_push(to_session, (last, text));
        rest.lemma_filter_len_push(is_session, last);
    } else {
        assert(broadcast(sessions, text) =~= Seq::<(u64, Seq<char>)>::empty());
        assert(sessions.filter(is_session) =~= Seq::<u64>::empty()) by {
            reveal(Seq::filter);
        }
        assert(broadcast(sessions, text).filter(to_session) =~= Seq::<(u64, Seq<char>)>::empty()) by {
            reveal(Seq::filter);
        }
    }
}

/// A fresh relay has no sessions, so a message relayed by it reaches nobody.
pub proof fn lemma_fresh_relay_delivers_nothing(text: Seq<char>)
    ensures
        broadcast(Seq::<u64>::empty(), text) == Seq::<(u64, Seq<char>)>::empty(),
{
    assert(broadcast(Seq::<u64>::empty(), text) =~= Seq::<(u64, Seq<char>)>::empty());
}

/// Whatever joins and messages a fresh relay receives, its sessions are
/// exactly the sessions that joined, in arrival order; and they only grow:
/// the sessions at any earlier point are a prefix of those at any later one.
pub proof fn lemma_sessions_are_joins_in_order(events: Seq<RelayEvent>, i: int, j: int)
    requires
        0 <= i <= j <= events.len(),
    ensures
        replay(events) == joined(events),
        replay(events.take(i)).is_prefix_of(replay(events.take(j))),
{
    lemma_replay_is_joined(events);
    lemma_replay_grows(events, i, j);
}

proof fn lemma_replay_is_joined(events: Seq<RelayEvent>)
    ensures
        replay(events) == joined(events),
    decreases events.len(),
{
    let is_join = |e: RelayEvent| e is Join;
    let addr = |e: RelayEvent| e->Join_0;
    if events.len() == 0 {
        assert(events.filter(is_join) =~= Seq::<RelayEvent>::empty()) by {
            reveal(Seq::filter);
        }
        assert(joined(events) =~= Seq::<u64>::empty());
    } else {
        let rest = events.drop_last();
        let e = events.last();
        lemma_replay_is_joined(rest);
        assert(rest.push(e) =~= events);
        rest.lemma_filter_push(e, is_join);
        if e is Join {
            assert(events.filter(is_join).map_values(addr) =~= rest.filter(is_join).map_values(addr).push(addr(e)));
        } else {
            assert(events.filter(is_join) == rest.filter(is_join));
        }
    }
}

proof fn lemma_replay_grows(events: Seq<RelayEvent>, i: int, j: int)
    requires
        0 <= i <= j <= events.len(),
    ensures
        replay(events.take(i)).is_prefix_of(replay(events.take(j))),
    decreases j - i,
{
    if i < j {
        lemma_replay_grows(events, i, j - 1);
        assert(events.take(j).drop_last() =~= events.take(j - 1));
        let before = replay(events.take(j - 1));
        let after = replay(events.take(j));
        assert(before.is_prefix_of(after)) by {
            assert(after == after_event(before, events.take(j).last()));
            assert(after.take(before.len() as int) =~= before);
        }
        let first = replay(events.take(i));
        assert(first.is_prefix_of(after)) by {
            assert(after.take(first.len() as int) =~= before.take(first.len() as int));
        }
    } else {
        assert(replay(events.take(i)).take(replay(events.take(i)).len() as int) =~= replay(events.take(i)));
    }
}

} // verus!
