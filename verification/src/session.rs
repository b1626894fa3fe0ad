//! The accept loops, as the rules they run by: when a node takes another session, when a session
//! takes another stream, and when each one ends.

use vstd::prelude::*;

use crate::live_cuts::Cut;

verus! {

/// The maximum number of peer sessions served concurrently. Past this, new connections queue at the
/// transport.
pub const MAX_SESSIONS: usize = 256;

/// The maximum number of in-flight streams per session, bounding what a single peer can pin.
pub const MAX_STREAMS_PER_SESSION: usize = 256;

/// A node's accept loop: how many sessions it is serving, and whether it was told to stop.
#[derive(Debug, Clone, Copy, PartialEq, Eq, Structural)]
pub struct NodeLoop {
    sessions: usize,
    stopped: bool,
}

/// What happened to a node.
#[derive(Debug, Clone, Copy, PartialEq, Eq, Structural)]
pub enum NodeEvent {
    /// A session was accepted.
    Accepted,
    /// Accepting a session failed.
    AcceptFailed,
    /// A session being served ended.
    SessionEnded,
    /// The sweep timer ticked.
    SweepDue,
    /// A holder of the node's teardown authority asked it to stop.
    Cancelled,
}

/// What a node does about it.
#[derive(Debug, Clone, Copy, PartialEq, Eq, Structural)]
pub enum NodeAction {
    /// Serve the accepted session.
    Serve,
    /// Nothing; keep listening.
    Listen,
    /// Wake every live session to re-check itself.
    Sweep,
    /// Stop accepting and return.
    Stop,
}

impl NodeLoop {
    #[verifier::type_invariant]
    spec fn bounded(self) -> bool {
        self.sessions <= MAX_SESSIONS
    }

    /// How many sessions are being served.
    pub closed spec fn live(self) -> nat {
        self.sessions as nat
    }

    /// Whether the node was told to stop.
    pub closed spec fn over(self) -> bool {
        self.stopped
    }

    /// A node that serves no session yet.
    pub fn new() -> (node: NodeLoop)
        ensures
            node.live() == 0,
            !node.over(),
    {
        NodeLoop { sessions: 0, stopped: false }
    }

    /// Whether to accept another session.
    pub open spec fn accepts(self) -> bool {
        !self.over() && self.live() < MAX_SESSIONS
    }

    /// Whether to accept another session: past the cap, new connections queue at the transport.
    pub fn may_accept(&self) -> (may: bool)
        ensures
            may == self.accepts(),
    {
        !self.stopped && self.sessions < MAX_SESSIONS
    }

    /// Whether an event can happen: a session is only accepted where one may be, and only a live
    /// one ends.
    pub open spec fn can(self, event: NodeEvent) -> bool {
        match event {
            NodeEvent::Accepted | NodeEvent::AcceptFailed => self.accepts(),
            NodeEvent::SessionEnded => self.live() > 0,
            NodeEvent::SweepDue | NodeEvent::Cancelled => true,
        }
    }

    /// Take one event. A failed accept tears nothing down: the listener outlives any one peer.
    pub fn step(self, event: NodeEvent) -> (next: (NodeLoop, NodeAction))
        requires
            self.can(event),
        ensures
            match event {
                NodeEvent::Accepted => {
                    &&& next.1 == NodeAction::Serve
                    &&& next.0.live() == self.live() + 1
                },
                NodeEvent::AcceptFailed => {
                    &&& next.1 == NodeAction::Listen
                    &&& next.0.live() == self.live()
                },
                NodeEvent::SessionEnded => {
                    &&& next.1 == NodeAction::Listen
                    &&& next.0.live() == self.live() - 1
                },
                NodeEvent::SweepDue => {
                    &&& next.1 == NodeAction::Sweep
                    &&& next.0.live() == self.live()
                },
                NodeEvent::Cancelled => {
                    &&& next.1 == NodeAction::Stop
                    &&& next.0.live() == self.live()
                },
            },
            next.0.over() == (self.over() || event == NodeEvent::Cancelled),
            next.0.live() <= MAX_SESSIONS,
    {
        proof {
            use_type_invariant(&self);
        }
        match event {
            NodeEvent::Accepted => (
                NodeLoop { sessions: self.sessions + 1, stopped: self.stopped },
                NodeAction::Serve,
            ),
            NodeEvent::AcceptFailed => (self, NodeAction::Listen),
            NodeEvent::SessionEnded => (
                NodeLoop { sessions: self.sessions - 1, stopped: self.stopped },
                NodeAction::Listen,
            ),
            NodeEvent::SweepDue => (self, NodeAction::Sweep),
            NodeEvent::Cancelled => (
                NodeLoop { sessions: self.sessions, stopped: true },
                NodeAction::Stop,
            ),
        }
    }
}

/// A session's accept loop: whether it still takes streams, how many are in flight, and whether a
/// cut ended it.
#[derive(Debug, Clone, Copy, PartialEq, Eq, Structural)]
pub struct SessionLoop {
    accepting: bool,
    pipes: usize,
    cut: bool,
}

/// What happened to a session.
#[derive(Debug, Clone, Copy, PartialEq, Eq, Structural)]
pub enum SessionEvent {
    /// A stream was accepted.
    Accepted,
    /// Accepting a stream failed: the session is closing.
    AcceptFailed,
    /// A stream in flight ended.
    PipeEnded,
    /// A sweep re-checked the session's chains, and this came of it.
    Swept(Option<Cut>),
}

/// What a session does about it.
#[derive(Debug, Clone, Copy, PartialEq, Eq, Structural)]
pub enum SessionAction {
    /// Serve the accepted stream.
    Serve,
    /// Nothing; go on.
    Continue,
    /// Close the session and return, ending every stream on it. Closing, not only dropping: a
    /// stream handed to a detached task can hold a connection open past the session value.
    Close(Cut),
}

impl SessionLoop {
    #[verifier::type_invariant]
    spec fn bounded(self) -> bool {
        self.pipes <= MAX_STREAMS_PER_SESSION
    }

    /// Whether it still takes streams.
    pub closed spec fn open(self) -> bool {
        self.accepting
    }

    /// How many streams are in flight.
    pub closed spec fn flying(self) -> nat {
        self.pipes as nat
    }

    /// Whether a cut ended it.
    pub closed spec fn was_cut(self) -> bool {
        self.cut
    }

    /// A session that has served no stream yet.
    pub fn new() -> (session: SessionLoop)
        ensures
            session.open(),
            session.flying() == 0,
            !session.was_cut(),
    {
        SessionLoop { accepting: true, pipes: 0, cut: false }
    }

    /// Whether to accept another stream.
    pub open spec fn accepts(self) -> bool {
        !self.was_cut() && self.open() && self.flying() < MAX_STREAMS_PER_SESSION
    }

    /// Whether a stream may end.
    pub open spec fn drains(self) -> bool {
        !self.was_cut() && self.flying() > 0
    }

    /// Whether a sweep is listened for: only while there is something a sweep could end.
    pub open spec fn sweeps(self) -> bool {
        !self.was_cut() && (self.open() || self.flying() > 0)
    }

    /// Whether the session is over.
    pub open spec fn done(self) -> bool {
        self.was_cut() || (!self.open() && self.flying() == 0)
    }

    /// Whether to accept another stream: past the cap, the peer's further streams queue at the
    /// transport.
    pub fn may_accept(&self) -> (may: bool)
        ensures
            may == self.accepts(),
    {
        !self.cut && self.accepting && self.pipes < MAX_STREAMS_PER_SESSION
    }

    /// Whether a stream may end.
    pub fn may_drain(&self) -> (may: bool)
        ensures
            may == self.drains(),
    {
        !self.cut && self.pipes > 0
    }

    /// Whether a sweep is listened for.
    pub fn may_sweep(&self) -> (may: bool)
        ensures
            may == self.sweeps(),
    {
        !self.cut && (self.accepting || self.pipes > 0)
    }

    /// Whether the session is over.
    pub fn is_done(&self) -> (done: bool)
        ensures
            done == self.done(),
    {
        self.cut || (!self.accepting && self.pipes == 0)
    }

    /// Whether an event can happen.
    pub open spec fn can(self, event: SessionEvent) -> bool {
        match event {
            SessionEvent::Accepted | SessionEvent::AcceptFailed => self.accepts(),
            SessionEvent::PipeEnded => self.drains(),
            SessionEvent::Swept(_) => self.sweeps(),
        }
    }

    /// Take one event. A failed accept drains the streams in flight rather than reaping them; a
    /// sweep that found a reason ends the whole session.
    pub fn step(self, event: SessionEvent) -> (next: (SessionLoop, SessionAction))
        requires
            self.can(event),
        ensures
            match event {
                SessionEvent::Accepted => {
                    &&& next.1 == SessionAction::Serve
                    &&& next.0.open() == self.open()
                    &&& next.0.flying() == self.flying() + 1
                    &&& !next.0.was_cut()
                },
                SessionEvent::AcceptFailed => {
                    &&& next.1 == SessionAction::Continue
                    &&& !next.0.open()
                    &&& next.0.flying() == self.flying()
                    &&& !next.0.was_cut()
                },
                SessionEvent::PipeEnded => {
                    &&& next.1 == SessionAction::Continue
                    &&& next.0.open() == self.open()
                    &&& next.0.flying() == self.flying() - 1
                    &&& !next.0.was_cut()
                },
                SessionEvent::Swept(None) => {
                    &&& next.1 == SessionAction::Continue
                    &&& next.0 == self
                },
                SessionEvent::Swept(Some(cut)) => {
                    &&& next.1 == SessionAction::Close(cut)
                    &&& next.0.was_cut()
                    &&& next.0.done()
                },
            },
            next.0.flying() <= MAX_STREAMS_PER_SESSION,
            next.0.open() ==> self.open(),
    {
        proof {
            use_type_invariant(&self);
        }
        match event {
            SessionEvent::Accepted => (
                SessionLoop { accepting: self.accepting, pipes: self.pipes + 1, cut: false },
                SessionAction::Serve,
            ),
            SessionEvent::AcceptFailed => (
                SessionLoop { accepting: false, pipes: self.pipes, cut: false },
                SessionAction::Continue,
            ),
            SessionEvent::PipeEnded => (
                SessionLoop { accepting: self.accepting, pipes: self.pipes - 1, cut: false },
                SessionAction::Continue,
            ),
            SessionEvent::Swept(None) => (self, SessionAction::Continue),
            SessionEvent::Swept(Some(cut)) => (
                SessionLoop { accepting: false, pipes: self.pipes, cut: true },
                SessionAction::Close(cut),
            ),
        }
    }
}

/// A session whose peer left and whose streams drained ends at once, cut or no cut wired: nothing
/// is left to wait for, so nothing can keep its slot.
pub proof fn a_drained_session_ends(session: SessionLoop)
    requires
        session.flying() <= MAX_STREAMS_PER_SESSION,
    ensures
        session.done() <==> !session.accepts() && !session.drains() && !session.sweeps(),
{
}

/// The one bit an admitted stream's first-traffic deadline turns on: whether a byte has crossed the
/// stream, in either direction.
#[derive(Debug, Clone, Copy, PartialEq, Eq, Structural)]
pub struct FirstTraffic {
    seen: bool,
}

impl FirstTraffic {
    /// Whether a byte has crossed the stream.
    pub closed spec fn spoken(self) -> bool {
        self.seen
    }

    /// A stream that has carried nothing.
    pub fn new() -> (traffic: FirstTraffic)
        ensures
            !traffic.spoken(),
    {
        FirstTraffic { seen: false }
    }

    /// Disarm: a byte crossed this stream.
    pub fn moved(&mut self)
        ensures
            final(self).spoken(),
    {
        self.seen = true;
    }

    /// Watch a read that grew its buffer from `before` to `after` bytes. A ready read that fills
    /// nothing is an end of stream, and says nothing.
    pub fn read(&mut self, before: usize, after: usize)
        ensures
            final(self).spoken() == (old(self).spoken() || after > before),
    {
        if after > before {
            self.moved();
        }
    }

    /// Watch a write that took this many bytes, if it took any.
    pub fn wrote(&mut self, written: Option<usize>)
        ensures
            final(self).spoken() == (old(self).spoken() || (written matches Some(n) && n > 0)),
    {
        if let Some(n) = written {
            if n > 0 {
                self.moved();
            }
        }
    }

    /// Whether the deadline, now that it has passed, drops the stream: only where nothing at all
    /// has been said.
    pub fn drops(&self) -> (drops: bool)
        ensures
            drops == !self.spoken(),
    {
        !self.seen
    }
}

/// A node takes sessions until it is full or told to stop, and no longer.
pub proof fn a_node_takes_sessions_until_it_is_full(node: &NodeLoop, may: bool)
    requires
        call_ensures(NodeLoop::may_accept, (node,), may),
    ensures
        may <==> !node.over() && node.live() < 256,
{
}

/// A session that is accepted and then ends leaves its node as it was, and neither a failed accept
/// nor a sweep costs it anything.
pub proof fn a_session_leaves_its_node_as_it_was(
    node: NodeLoop,
    event: NodeEvent,
    step: (NodeLoop, NodeAction),
    back: (NodeLoop, NodeAction),
)
    requires
        node.can(event),
        call_ensures(NodeLoop::step, (node, event), step),
        event == NodeEvent::Accepted ==> call_ensures(
            NodeLoop::step,
            (step.0, NodeEvent::SessionEnded),
            back,
        ),
    ensures
        event == NodeEvent::Accepted ==> {
            &&& step.1 == NodeAction::Serve
            &&& step.0.live() == node.live() + 1
            &&& back.0.live() == node.live()
            &&& back.1 == NodeAction::Listen
        },
        event == NodeEvent::AcceptFailed ==> step.1 == NodeAction::Listen && step.0.live()
            == node.live(),
        event == NodeEvent::SweepDue ==> step.1 == NodeAction::Sweep && step.0.live()
            == node.live(),
        event == NodeEvent::Cancelled <==> step.1 == NodeAction::Stop,
        event == NodeEvent::Cancelled ==> step.0.over(),
        event != NodeEvent::Cancelled ==> step.0.over() == node.over(),
{
}

/// A session takes streams until its peer leaves, it is full or it is cut. It is over once it was
/// cut, or once its peer has left and the last stream has ended.
pub proof fn a_session_takes_streams_until_it_ends(
    session: &SessionLoop,
    accept: bool,
    drain: bool,
    sweep: bool,
    done: bool,
)
    requires
        call_ensures(SessionLoop::may_accept, (session,), accept),
        call_ensures(SessionLoop::may_drain, (session,), drain),
        call_ensures(SessionLoop::may_sweep, (session,), sweep),
        call_ensures(SessionLoop::is_done, (session,), done),
    ensures
        accept <==> !session.was_cut() && session.open() && session.flying() < 256,
        drain <==> !session.was_cut() && session.flying() > 0,
        done <==> session.was_cut() || (!session.open() && session.flying() == 0),
        sweep <==> !done,
        accept || drain ==> sweep,
{
}

/// A stream that is accepted and then ends leaves its session as it was. A peer that leaves ends no
/// stream in flight and lets no new one in. A sweep that finds nothing changes nothing, and one that
/// finds a reason closes the session for it.
pub proof fn a_session_drains_and_a_cut_closes_it(
    session: SessionLoop,
    event: SessionEvent,
    step: (SessionLoop, SessionAction),
    back: (SessionLoop, SessionAction),
)
    requires
        session.can(event),
        call_ensures(SessionLoop::step, (session, event), step),
        event == SessionEvent::Accepted ==> call_ensures(
            SessionLoop::step,
            (step.0, SessionEvent::PipeEnded),
            back,
        ),
    ensures
        event == SessionEvent::Accepted ==> {
            &&& step.1 == SessionAction::Serve
            &&& step.0.flying() == session.flying() + 1
            &&& back.0.flying() == session.flying()
            &&& back.0.open() == session.open()
            &&& back.1 == SessionAction::Continue
        },
        event == SessionEvent::AcceptFailed ==> {
            &&& step.1 == SessionAction::Continue
            &&& step.0.flying() == session.flying()
            &&& !step.0.open() && !step.0.was_cut()
        },
        event == SessionEvent::Swept(None) ==> step.0 == session && step.1
            == SessionAction::Continue,
        event matches SessionEvent::Swept(Some(cut)) ==> step.1 == SessionAction::Close(cut)
            && step.0.was_cut(),
        step.1 is Close ==> event is Swept,
{
}

/// A stream is dropped for silence exactly where no byte has crossed it: one byte either way is
/// enough, and an end of stream, an empty write or a failed one is none.
pub proof fn one_byte_breaks_the_silence(
    fresh: FirstTraffic,
    silent: bool,
    traffic: &mut FirstTraffic,
    before: usize,
    after: usize,
    read: (),
    heard: FirstTraffic,
    drops: bool,
)
    requires
        call_ensures(FirstTraffic::new, (), fresh),
        call_ensures(FirstTraffic::drops, (&fresh,), silent),
        call_ensures(FirstTraffic::read, (traffic, before, after), read),
        heard == *final(traffic),
        call_ensures(FirstTraffic::drops, (&heard,), drops),
    ensures
        silent,
        drops <==> !old(traffic).spoken() && after <= before,
{
}

/// As [`one_byte_breaks_the_silence`], for what is written.
pub proof fn one_written_byte_breaks_the_silence(
    traffic: &mut FirstTraffic,
    written: Option<usize>,
    wrote: (),
    heard: FirstTraffic,
    drops: bool,
)
    requires
        call_ensures(FirstTraffic::wrote, (traffic, written), wrote),
        heard == *final(traffic),
        call_ensures(FirstTraffic::drops, (&heard,), drops),
    ensures
        drops <==> !old(traffic).spoken() && (written is None || written == Some(0usize)),
{
}

/// A node and a session start out taking what comes, with nothing in flight.
pub proof fn a_loop_starts_out_accepting(
    node: NodeLoop,
    takes_sessions: bool,
    session: SessionLoop,
    takes_streams: bool,
    done: bool,
)
    requires
        call_ensures(NodeLoop::new, (), node),
        call_ensures(NodeLoop::may_accept, (&node,), takes_sessions),
        call_ensures(SessionLoop::new, (), session),
        call_ensures(SessionLoop::may_accept, (&session,), takes_streams),
        call_ensures(SessionLoop::is_done, (&session,), done),
    ensures
        takes_sessions && node.live() == 0,
        takes_streams && session.flying() == 0 && !done,
{
}

} // verus!
