use vstd::prelude::*;

use crate::session::{GatewayCommand, ResumePlan, SessionState, resume_plan_of};

verus! {

/// Gateway operation codes.
pub enum OpCode {
    Dispatch,
    Heartbeat,
    Identify,
    PresenceUpdate,
    VoiceStateUpdate,
    Resume,
    Reconnect,
    RequestGuildMembers,
    InvalidSession,
    Hello,
    HeartbeatAck,
}

/// The operation code numbered `code` on the wire, if there is one.
pub open spec fn op_of_code(code: u64) -> Option<OpCode> {
    if code == 0 {
        Some(OpCode::Dispatch)
    } else if code == 1 {
        Some(OpCode::Heartbeat)
    } else if code == 2 {
        Some(OpCode::Identify)
    } else if code == 3 {
        Some(OpCode::PresenceUpdate)
    } else if code == 4 {
        Some(OpCode::VoiceStateUpdate)
    } else if code == 6 {
        Some(OpCode::Resume)
    } else if code == 7 {
        Some(OpCode::Reconnect)
    } else if code == 8 {
        Some(OpCode::RequestGuildMembers)
    } else if code == 9 {
        Some(OpCode::InvalidSession)
    } else if code == 10 {
        Some(OpCode::Hello)
    } else if code == 11 {
        Some(OpCode::HeartbeatAck)
    } else {
        None
    }
}

impl OpCode {
    /// Decodes a wire operation code; unknown codes give `None`.
    pub fn from_code(code: u64) -> (r: Option<OpCode>)
        ensures
            r == op_of_code(code),
    {
        if code == 0 {
            Some(OpCode::Dispatch)
        } else if code == 1 {
            Some(OpCode::Heartbeat)
        } else if code == 2 {
            Some(OpCode::Identify)
        } else if code == 3 {
            Some(OpCode::PresenceUpdate)
        } else if code == 4 {
            Some(OpCode::VoiceStateUpdate)
        } else if code == 6 {
            Some(OpCode::Resume)
        } else if code == 7 {
            Some(OpCode::Reconnect)
        } else if code == 8 {
            Some(OpCode::RequestGuildMembers)
        } else if code == 9 {
            Some(OpCode::InvalidSession)
        } else if code == 10 {
            Some(OpCode::Hello)
        } else if code == 11 {
            Some(OpCode::HeartbeatAck)
        } else {
            None
        }
    }
}

/// What the connection reads of one inbound frame.
pub struct Frame {
    pub op: OpCode,
    /// Present on dispatch frames.
    pub sequence: Option<u64>,
    /// Present on Hello frames.
    pub heartbeat_interval: Option<u64>,
}

/// Where the connection stands in its lifecycle.
pub enum Phase {
    AwaitingHello,
    Running,
    Closed,
}

/// Why a connection ended.
pub enum ConnectionError {
    /// The transport failed or closed.
    Network,
    /// The gateway broke the protocol during the handshake.
    ProtocolViolation,
    /// A heartbeat could not be sent.
    HeartbeatFailed,
}

/// What the connection owner does after one frame.
pub enum Step {
    /// Start the heartbeat task at this interval, then send `identify`.
    Handshake { heartbeat_interval: u64, identify: GatewayCommand },
    /// Hand the frame to the event dispatcher.
    Dispatch { sequence: u64 },
    /// Open a new connection and resume the session there.
    Resume { plan: ResumePlan },
    /// Nothing to do for this frame.
    Skip,
    /// Tear the connection down.
    Fatal { error: ConnectionError },
}

/// The client side of one gateway connection.
pub struct Connection {
    pub token: String,
    pub intents: u32,
    pub phase: Phase,
    pub session: SessionState,
}

/// Whether `f` is a Hello frame that says how often to beat.
pub open spec fn is_hello(f: Option<Frame>) -> bool {
    match f {
        Some(fr) => fr.op is Hello && fr.heartbeat_interval.is_some(),
        None => false,
    }
}

/// Whether `f` is a dispatch frame.
pub open spec fn is_dispatch(f: Option<Frame>) -> bool {
    match f {
        Some(fr) => fr.op is Dispatch,
        None => false,
    }
}

/// Whether `f` is a Reconnect frame.
pub open spec fn is_reconnect(f: Option<Frame>) -> bool {
    match f {
        Some(fr) => fr.op is Reconnect,
        None => false,
    }
}

/// The sequence a frame carries, if any.
pub open spec fn carried_sequence(f: Option<Frame>) -> Option<u64> {
    match f {
        Some(fr) => fr.sequence,
        None => None,
    }
}

/// The phase after frame `f` (`None`: a frame that could not be parsed) is read in phase `p`.
pub open spec fn phase_after(p: Phase, f: Option<Frame>) -> Phase {
    match p {
        Phase::AwaitingHello => if is_hello(f) {
            Phase::Running
        } else {
            Phase::Closed
        },
        _ => p,
    }
}

/// The session after frame `f` is read in phase `p`: only a dispatch frame read
/// while running, and carrying a sequence, changes it, recording that sequence.
pub open spec fn session_after(p: Phase, s: SessionState, f: Option<Frame>) -> SessionState {
    if p is Running && is_dispatch(f) && carried_sequence(f).is_some() {
        SessionState { sequence: carried_sequence(f)->Some_0, ..s }
    } else {
        s
    }
}

/// The step that frame `f` calls for on connection `c`.
pub open spec fn step_of(c: Connection, f: Option<Frame>) -> Step {
    match c.phase {
        Phase::AwaitingHello => if is_hello(f) {
            Step::Handshake {
                heartbeat_interval: f->Some_0.heartbeat_interval->Some_0,
                identify: GatewayCommand::Identify { token: c.token, intents: c.intents },
            }
        } else {
            Step::Fatal { error: ConnectionError::ProtocolViolation }
        },
        Phase::Running => if is_dispatch(f) {
            Step::Dispatch { sequence: session_after(c.phase, c.session, f).sequence }
        } else if is_reconnect(f) {
            match resume_plan_of(c.session, c.token) {
                Some(plan) => Step::Resume { plan },
                None => Step::Skip,
            }
        } else {
            Step::Skip
        },
        Phase::Closed => Step::Skip,
    }
}

/// The connection after frame `f` is read.
pub open spec fn connection_after(c: Connection, f: Option<Frame>) -> Connection {
    Connection {
        phase: phase_after(c.phase, f),
        session: session_after(c.phase, c.session, f),
        ..c
    }
}

impl Connection {
    /// The transport failed or closed: the connection is over, and the owner
    /// learns of it as a network error.
    pub fn on_transport_end(&mut self) -> (r: Step)
        ensures
            r == (Step::Fatal { error: ConnectionError::Network }),
            final(self).phase is Closed,
            final(self).session == old(self).session,
            final(self).token == old(self).token,
            final(self).intents == old(self).intents,
    {
        self.phase = Phase::Closed;
        Step::Fatal { error: ConnectionError::Network }
    }

    /// A heartbeat could not be sent: the connection is over, and the owner
    /// decides whether to reconnect.
    pub fn on_heartbeat_failure(&mut self) -> (r: Step)
        ensures
            r == (Step::Fatal { error: ConnectionError::HeartbeatFailed }),
            final(self).phase is Closed,
            final(self).session == old(self).session,
            final(self).token == old(self).token,
            final(self).intents == old(self).intents,
    {
        self.phase = Phase::Closed;
        Step::Fatal { error: ConnectionError::HeartbeatFailed }
    }

    /// A connection that has not yet read a frame.
    pub fn new(token: String, intents: u32) -> (r: Self)
        ensures
            r.token == token,
            r.intents == intents,
            r.phase is AwaitingHello,
            r.session == (SessionState {
                sequence: 0,
                resume_gateway_url: None,
                session_id: None,
                bot_user_id: None,
            }),
    {
        Connection { token, intents, phase: Phase::AwaitingHello, session: SessionState::new() }
    }

    /// Reads one inbound frame (`None` for one that could not be parsed) and
    /// says what to do about it. The first frame must be a Hello that gives a
    /// heartbeat interval; anything else there is a protocol violation that
    /// closes the connection. Afterwards, dispatch frames record their
    /// sequence, Reconnect asks for a resume, and every other frame is skipped.
    pub fn on_frame(&mut self, frame: Option<Frame>) -> (r: Step)
        ensures
            r == step_of(*old(self), frame),
            *final(self) == connection_after(*old(self), frame),
    {
        match self.phase {
            Phase::AwaitingHello => {
                let hello_interval = match &frame {
                    Some(f) => match f.op {
                        OpCode::Hello => f.heartbeat_interval,
                        _ => None,
                    },
                    None => None,
                };
                match hello_interval {
                    Some(ms) => {
                        self.phase = Phase::Running;
                        Step::Handshake {
                            heartbeat_interval: ms,
                            identify: GatewayCommand::Identify {
                                token: self.token.clone(),
                                intents: self.intents,
                            },
                        }
                    },
                    None => {
                        self.phase = Phase::Closed;
                        Step::Fatal { error: ConnectionError::ProtocolViolation }
                    },
                }
            },
            Phase::Running => match &frame {
                Some(f) => match f.op {
                    OpCode::Dispatch => {
                        if let Some(s) = f.sequence {
                            self.session.record_dispatch(s);
                        }
                        Step::Dispatch { sequence: self.session.sequence }
                    },
                    OpCode::Reconnect => match self.session.resume_plan(&self.token) {
                        Some(plan) => Step::Resume { plan },
                        None => Step::Skip,
                    },
                    _ => Step::Skip,
                },
                None => Step::Skip,
            },
            Phase::Closed => Step::Skip,
        }
    }
}

/// The connection after reading `frames` in order.
pub open spec fn run(c: Connection, frames: Seq<Option<Frame>>) -> Connection
    decreases frames.len(),
{
    if frames.len() == 0 {
        c
    } else {
        connection_after(run(c, frames.drop_last()), frames.last())
    }
}

/// How many handshakes (each starting a heartbeat task) reading `frames` calls for.
pub open spec fn handshakes(c: Connection, frames: Seq<Option<Frame>>) -> nat
    decreases frames.len(),
{
    if frames.len() == 0 {
        0
    } else {
        let before = run(c, frames.drop_last());
        handshakes(c, frames.drop_last()) + if step_of(before, frames.last()) is Handshake {
            1nat
        } else {
            0nat
        }
    }
}

/// The largest of `seqs`, or 0 when there are none.
pub open spec fn max_seen(seqs: Seq<u64>) -> u64
    decreases seqs.len(),
{
    if seqs.len() == 0 {
        0
    } else {
        let m = max_seen(seqs.drop_last());
        if seqs.last() > m {
            seqs.last()
        } else {
            m
        }
    }
}

/// The sequence numbers that the dispatch frames of `frames` carry, in order.
pub open spec fn dispatched_sequences(frames: Seq<Option<Frame>>) -> Seq<u64>
    decreases frames.len(),
{
    if frames.len() == 0 {
        Seq::empty()
    } else {
        let rest = dispatched_sequences(frames.drop_last());
        let f = frames.last();
        if is_dispatch(f) && carried_sequence(f).is_some() {
            rest.push(carried_sequence(f)->Some_0)
        } else {
            rest
        }
    }
}

pub open spec fn strictly_increasing(seqs: Seq<u64>) -> bool {
    forall|i: int, j: int| 0 <= i < j < seqs.len() ==> seqs[i] < seqs[j]
}

proof fn lemma_max_seen_below(seqs: Seq<u64>, bound: u64)
    requires
        forall|i: int| 0 <= i < seqs.len() ==> seqs[i] < bound,
    ensures
        max_seen(seqs) <= bound,
    decreases seqs.len(),
{
    if seqs.len() > 0 {
        lemma_max_seen_below(seqs.drop_last(), bound);
    }
}

proof fn lemma_phase_settles(c: Connection, frames: Seq<Option<Frame>>)
    requires
        c.phase is AwaitingHello,
        frames.len() > 0,
    ensures
        run(c, frames).phase == phase_after(c.phase, frames[0]),
        !(run(c, frames).phase is AwaitingHello),
    decreases frames.len(),
{
    if frames.len() > 1 {
        lemma_phase_settles(c, frames.drop_last());
        assert(frames.drop_last()[0] == frames[0]);
    } else {
        assert(frames.drop_last() =~= Seq::<Option<Frame>>::empty());
        assert(run(c, frames.drop_last()) == c);
        assert(frames.last() == frames[0]);
    }
}

/// The first frame decides the handshake: a Hello that gives a heartbeat
/// interval leads to exactly one handshake over any run of frames, and any
/// other first frame is a fatal protocol violation, with no handshake after it.
pub proof fn lemma_one_handshake(c: Connection, frames: Seq<Option<Frame>>)
    requires
        c.phase is AwaitingHello,
        frames.len() > 0,
    ensures
        is_hello(frames[0]) ==> handshakes(c, frames) == 1,
        !is_hello(frames[0]) ==> step_of(c, frames[0]) == (Step::Fatal {
            error: ConnectionError::ProtocolViolation,
        }) && handshakes(c, frames) == 0,
    decreases frames.len(),
{
    if frames.len() > 1 {
        lemma_one_handshake(c, frames.drop_last());
        lemma_phase_settles(c, frames.drop_last());
        assert(frames.drop_last()[0] == frames[0]);
    } else {
        assert(frames.drop_last() =~= Seq::<Option<Frame>>::empty());
        assert(run(c, frames.drop_last()) == c);
        assert(handshakes(c, frames.drop_last()) == 0);
        assert(frames.last() == frames[0]);
    }
}

/// Reading frames into a running connection whose session starts at 0, where
/// the dispatch frames carry strictly increasing sequence numbers, leaves
/// recorded the largest sequence seen so far, whatever other frames (or frames
/// that could not be parsed) come in between.
pub proof fn lemma_sequence_is_max_seen(c: Connection, frames: Seq<Option<Frame>>)
    requires
        c.phase is Running,
        c.session.sequence == 0,
        strictly_increasing(dispatched_sequences(frames)),
    ensures
        run(c, frames).phase is Running,
        run(c, frames).session.sequence == max_seen(dispatched_sequences(frames)),
    decreases frames.len(),
{
    if frames.len() > 0 {
        let init = frames.drop_last();
        let all = dispatched_sequences(frames);
        let before = dispatched_sequences(init);
        let f = frames.last();
        if is_dispatch(f) && carried_sequence(f).is_some() {
            assert(all.drop_last() =~= before);
            assert forall|i: int| 0 <= i < before.len() implies before[i]
                < carried_sequence(f)->Some_0 by {
                assert(all[i] == before[i]);
                assert(all[all.len() - 1] == carried_sequence(f)->Some_0);
            }
            assert(strictly_increasing(before)) by {
                assert forall|i: int, j: int| 0 <= i < j < before.len() implies before[i]
                    < before[j] by {
                    assert(all[i] == before[i] && all[j] == before[j]);
                }
            }
            lemma_sequence_is_max_seen(c, init);
            lemma_max_seen_below(before, carried_sequence(f)->Some_0);
        } else {
            assert(all == before);
            lemma_sequence_is_max_seen(c, init);
        }
    }
}

/// A Reconnect frame read while running, once the session knows where and what
/// to resume, calls for exactly one Resume command to the stored resume url,
/// carrying the last recorded sequence.
pub proof fn lemma_reconnect_resumes(c: Connection, f: Option<Frame>)
    requires
        c.phase is Running,
        is_reconnect(f),
        c.session.resume_gateway_url.is_some(),
        c.session.session_id.is_some(),
    ensures
        step_of(c, f) == (Step::Resume {
            plan: ResumePlan {
                url: c.session.resume_gateway_url->Some_0,
                command: GatewayCommand::Resume {
                    token: c.token,
                    session_id: c.session.session_id->Some_0,
                    sequence: c.session.sequence,
                },
            },
        }),
{
}

} // verus!
