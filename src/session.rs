use vstd::prelude::*;

verus! {

/// A command the client sends to the gateway.
pub enum GatewayCommand {
    /// Keep-alive carrying the sequence the sender believes was acknowledged.
    Heartbeat { sequence: u64 },
    /// Opens a fresh session.
    Identify { token: String, intents: u32 },
    /// Continues an earlier session from its last sequence.
    Resume { token: String, session_id: String, sequence: u64 },
}

/// How to resume a session: where to connect, and the one command to send there.
pub struct ResumePlan {
    pub url: String,
    pub command: GatewayCommand,
}

/// What the client knows of its gateway session.
pub struct SessionState {
    /// The sequence number of the last dispatch frame read.
    pub sequence: u64,
    pub resume_gateway_url: Option<String>,
    pub session_id: Option<String>,
    pub bot_user_id: Option<u64>,
}

/// The plan for resuming `s` with `token`: present exactly when both the resume
/// url and the session id are known.
pub open spec fn resume_plan_of(s: SessionState, token: String) -> Option<ResumePlan> {
    match (s.resume_gateway_url, s.session_id) {
        (Some(url), Some(sid)) => Some(
            ResumePlan {
                url,
                command: GatewayCommand::Resume { token, session_id: sid, sequence: s.sequence },
            },
        ),
        _ => None,
    }
}

impl SessionState {
    /// A session before any frame: sequence 0 and nothing known.
    pub fn new() -> (r: Self)
        ensures
            r.sequence == 0,
            r.resume_gateway_url.is_none(),
            r.session_id.is_none(),
            r.bot_user_id.is_none(),
    {
        SessionState { sequence: 0, resume_gateway_url: None, session_id: None, bot_user_id: None }
    }

    /// Records the sequence number of a dispatch frame just read.
    pub fn record_dispatch(&mut self, sequence: u64)
        ensures
            final(self).sequence == sequence,
            final(self).resume_gateway_url == old(self).resume_gateway_url,
            final(self).session_id == old(self).session_id,
            final(self).bot_user_id == old(self).bot_user_id,
    {
        self.sequence = sequence;
    }

    /// Records what a Ready event reports: where to resume, the session, and the
    /// bot's own user id.
    pub fn record_ready(&mut self, resume_gateway_url: String, session_id: String, bot_user_id: u64)
        ensures
            final(self).sequence == old(self).sequence,
            final(self).resume_gateway_url == Some(resume_gateway_url),
            final(self).session_id == Some(session_id),
            final(self).bot_user_id == Some(bot_user_id),
    {
        self.resume_gateway_url = Some(resume_gateway_url);
        self.session_id = Some(session_id);
        self.bot_user_id = Some(bot_user_id);
    }

    /// The plan for resuming this session with `token`, when it can be resumed.
    pub fn resume_plan(&self, token: &String) -> (r: Option<ResumePlan>)
        ensures
            r == resume_plan_of(*self, *token),
    {
        match (&self.resume_gateway_url, &self.session_id) {
            (Some(url), Some(sid)) => Some(
                ResumePlan {
                    url: url.clone(),
                    command: GatewayCommand::Resume {
                        token: token.clone(),
                        session_id: sid.clone(),
                        sequence: self.sequence,
                    },
                },
            ),
            _ => None,
        }
    }
}

/// The heartbeat loop's own state: the interval between beats.
pub struct Heartbeat {
    pub interval_ms: u64,
}

impl Heartbeat {
    /// A heartbeat that beats every `interval_ms` milliseconds.
    pub fn new(interval_ms: u64) -> (r: Self)
        ensures
            r.interval_ms == interval_ms,
    {
        Heartbeat { interval_ms }
    }

    /// The heartbeat to send now: it carries the last sequence the session
    /// recorded.
    pub fn beat(&self, session: &SessionState) -> (r: GatewayCommand)
        ensures
            r == (GatewayCommand::Heartbeat { sequence: session.sequence }),
    {
        GatewayCommand::Heartbeat { sequence: session.sequence }
    }
}

} // verus!
