//! Counters and logs of the session: the heartbeat counter, the limit on
//! session starts, and the entries of the session-event log.
use crate::gateway::SessionEventKind;
use crate::text::opt_text;
use vstd::prelude::*;

verus! {

/// The collection that holds the session state.
pub const STATE_COLLECTION: &'static str = "discord_state";

/// The collection that holds the heartbeat counter.
pub const HEARTBEAT_COLLECTION: &'static str = "discord_heartbeat";

/// The collection that holds the session-event log.
pub const SESSION_EVENTS_COLLECTION: &'static str = "discord_session_events";

/// The collection that holds the limit on session starts.
pub const SESSION_LIMITS_COLLECTION: &'static str = "discord_session_limits";

/// The collection that holds the snapshots of the rate limits.
pub const RATE_LIMITS_COLLECTION: &'static str = "discord_rate_limits";

/// Id of the one document that counts the heartbeats.
pub const HEARTBEAT_ID: &'static str = "bot_heartbeat";

/// Id of the one document that holds the session state.
pub const STATE_ID: &'static str = "bot_state";

/// Id of the one document that holds the limit on session starts.
pub const SESSION_LIMIT_ID: &'static str = "session_limit";

/// The heartbeat counter.
#[derive(Clone, Copy, Debug, PartialEq, Eq, Structural)]
pub struct Heartbeat {
    /// Heartbeats sent so far.
    pub count: i64,
    /// When the latest one was sent, in milliseconds since the epoch.
    pub last_sent: i64,
}

impl Heartbeat {
    /// The counter after one more heartbeat at `now`: one more than the
    /// counter that was stored, or 1 where none was stored. A counter at
    /// its highest value stays there.
    pub fn increment(current: Option<Heartbeat>, now: i64) -> (r: Heartbeat)
        ensures
            r.last_sent == now,
            r.count == match current {
                Some(h) => if h.count < i64::MAX {
                    h.count + 1
                } else {
                    i64::MAX as int
                },
                None => 1,
            },
    {
        let count = match current {
            Some(h) => if h.count < i64::MAX {
                h.count + 1
            } else {
                h.count
            },
            None => 1,
        };
        Heartbeat { count, last_sent: now }
    }
}

/// The limit on session starts, as the platform states it.
#[derive(Clone, Copy, Debug, PartialEq, Eq, Structural)]
pub struct SessionStartLimit {
    pub total: i32,
    pub remaining: i32,
    /// Milliseconds until the limit is reset.
    pub reset_after: i64,
    pub max_concurrency: i32,
}

/// What the platform says of the gateway for this bot.
#[derive(Debug)]
pub struct GatewayBotInfo {
    pub url: String,
    pub shards: i32,
    pub session_start_limit: SessionStartLimit,
}

/// The address of the gateway.
#[derive(Debug)]
pub struct GatewayResponse {
    pub url: String,
}

/// What the platform says of the application.
#[derive(Debug)]
pub struct ApplicationInfo {
    pub id: String,
}

/// The limit on session starts as it is stored.
#[derive(Clone, Copy, Debug, PartialEq, Eq, Structural)]
pub struct SessionLimit {
    pub total: i32,
    pub remaining: i32,
    /// Milliseconds until the limit is reset.
    pub reset_after: i64,
    pub max_concurrency: i32,
    pub shards: i32,
    /// When this was stored, in milliseconds since the epoch.
    pub updated_at: i64,
}

impl SessionLimit {
    /// The limit to store after the platform was asked at `now`.
    pub fn update(info: &GatewayBotInfo, now: i64) -> (r: SessionLimit)
        ensures
            r == (SessionLimit {
                total: info.session_start_limit.total,
                remaining: info.session_start_limit.remaining,
                reset_after: info.session_start_limit.reset_after,
                max_concurrency: info.session_start_limit.max_concurrency,
                shards: info.shards,
                updated_at: now,
            }),
    {
        SessionLimit {
            total: info.session_start_limit.total,
            remaining: info.session_start_limit.remaining,
            reset_after: info.session_start_limit.reset_after,
            max_concurrency: info.session_start_limit.max_concurrency,
            shards: info.shards,
            updated_at: now,
        }
    }

    /// Whether a session may be started.
    pub fn can_start_session(&self) -> (r: bool)
        ensures
            r == (self.remaining > 0),
    {
        self.remaining > 0
    }

    /// Milliseconds to wait before a session may be started.
    pub fn retry_after_millis(&self) -> (r: i64)
        ensures
            r == if self.remaining > 0 {
                0
            } else {
                self.reset_after as int
            },
    {
        if self.remaining > 0 {
            0
        } else {
            self.reset_after
        }
    }
}

/// An entry of the session-event log.
#[derive(Debug)]
pub struct SessionEvent {
    pub kind: SessionEventKind,
    pub session_id: Option<String>,
    pub sequence: Option<u64>,
    /// When it happened, in milliseconds since the epoch.
    pub at: i64,
}

impl SessionEvent {
    /// IDENTIFY was sent.
    pub fn log_identify(at: i64) -> (r: SessionEvent)
        ensures
            r.kind == SessionEventKind::Identify,
            r.session_id is None,
            r.sequence is None,
            r.at == at,
    {
        SessionEvent { kind: SessionEventKind::Identify, session_id: None, sequence: None, at }
    }

    /// RESUME was sent for the given session, from the given sequence
    /// number.
    pub fn log_resume(session_id: String, sequence: Option<u64>, at: i64) -> (r: SessionEvent)
        ensures
            r.kind == SessionEventKind::Resume,
            r.session_id == Some(session_id),
            r.sequence == sequence,
            r.at == at,
    {
        SessionEvent { kind: SessionEventKind::Resume, session_id: Some(session_id), sequence, at }
    }

    /// The session was resumed.
    pub fn log_resumed(at: i64) -> (r: SessionEvent)
        ensures
            r.kind == SessionEventKind::Resumed,
            r.session_id is None,
            r.sequence is None,
            r.at == at,
    {
        SessionEvent { kind: SessionEventKind::Resumed, session_id: None, sequence: None, at }
    }

    /// The given session is ready.
    pub fn log_ready(session_id: String, at: i64) -> (r: SessionEvent)
        ensures
            r.kind == SessionEventKind::Ready,
            r.session_id == Some(session_id),
            r.sequence is None,
            r.at == at,
    {
        SessionEvent {
            kind: SessionEventKind::Ready,
            session_id: Some(session_id),
            sequence: None,
            at,
        }
    }

    /// The session was declared invalid.
    pub fn log_invalid_session(at: i64) -> (r: SessionEvent)
        ensures
            r.kind == SessionEventKind::InvalidSession,
            r.session_id is None,
            r.sequence is None,
            r.at == at,
    {
        SessionEvent {
            kind: SessionEventKind::InvalidSession,
            session_id: None,
            sequence: None,
            at,
        }
    }

    /// The entry that a `Log` action of the gateway asks for, given the
    /// session id that the session holds.
    pub fn of_action(
        kind: SessionEventKind,
        with_session: bool,
        sequence: Option<u64>,
        session_id: &Option<String>,
        at: i64,
    ) -> (r: SessionEvent)
        ensures
            r.kind == kind,
            r.sequence == sequence,
            r.at == at,
            opt_text(r.session_id) == if with_session {
                opt_text(*session_id)
            } else {
                None
            },
    {
        SessionEvent {
            kind,
            session_id: if with_session {
                crate::text::clone_opt_text(session_id)
            } else {
                None
            },
            sequence,
            at,
        }
    }
}

} // verus!
