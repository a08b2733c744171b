//! The gateway session: opcodes and event types of the streaming
//! protocol, the session state machine that answers `hello` with IDENTIFY
//! or RESUME, keeps the sequence number, and gives up on an invalid
//! session, and the schedule of reconnects.
//!
//! The machine takes one input at a time (a frame that came in, or a tick
//! of the heartbeat timer) and returns what has to be done about it, in
//! order. Whoever runs the connection performs those actions.
use crate::text::{clone_opt_text, opt_text, str_eq};
use vstd::prelude::*;

verus! {

/// The intents that IDENTIFY asks for.
pub const GATEWAY_INTENTS: u32 = 33280;

/// Operation code of a frame.
#[derive(Clone, Copy, Debug, PartialEq, Eq, Structural)]
pub enum Opcode {
    Dispatch,
    Heartbeat,
    Identify,
    Resume,
    InvalidSession,
    Hello,
    HeartbeatAck,
    Unknown,
}

impl Opcode {
    /// The opcode that the number `op` stands for.
    pub open spec fn of(op: u8) -> Opcode {
        if op == 0 {
            Opcode::Dispatch
        } else if op == 1 {
            Opcode::Heartbeat
        } else if op == 2 {
            Opcode::Identify
        } else if op == 6 {
            Opcode::Resume
        } else if op == 9 {
            Opcode::InvalidSession
        } else if op == 10 {
            Opcode::Hello
        } else if op == 11 {
            Opcode::HeartbeatAck
        } else {
            Opcode::Unknown
        }
    }

    /// The opcode that the number `op` stands for.
    pub fn from_u8(op: u8) -> (r: Opcode)
        ensures
            r == Opcode::of(op),
    {
        match op {
            0 => Opcode::Dispatch,
            1 => Opcode::Heartbeat,
            2 => Opcode::Identify,
            6 => Opcode::Resume,
            9 => Opcode::InvalidSession,
            10 => Opcode::Hello,
            11 => Opcode::HeartbeatAck,
            _ => Opcode::Unknown,
        }
    }

    /// The number that stands for the opcode on the wire; `Unknown` has
    /// none.
    pub fn code(&self) -> (r: Option<u8>)
        ensures
            *self == Opcode::Unknown <==> r is None,
            r matches Some(op) ==> Opcode::of(op) == *self,
    {
        match self {
            Opcode::Dispatch => Some(0),
            Opcode::Heartbeat => Some(1),
            Opcode::Identify => Some(2),
            Opcode::Resume => Some(6),
            Opcode::InvalidSession => Some(9),
            Opcode::Hello => Some(10),
            Opcode::HeartbeatAck => Some(11),
            Opcode::Unknown => None,
        }
    }
}

/// The dispatch events that the service consumes.
#[derive(Clone, Copy, Debug, PartialEq, Eq, Structural)]
pub enum EventType {
    Ready,
    Resumed,
    InteractionCreate,
    MessageCreate,
    Unknown,
}

impl EventType {
    /// The event type that the name `t` stands for.
    pub open spec fn of(t: Seq<char>) -> EventType {
        if t == "READY"@ {
            EventType::Ready
        } else if t == "RESUMED"@ {
            EventType::Resumed
        } else if t == "INTERACTION_CREATE"@ {
            EventType::InteractionCreate
        } else if t == "MESSAGE_CREATE"@ {
            EventType::MessageCreate
        } else {
            EventType::Unknown
        }
    }

    /// The event type of a frame with the given `t` field.
    pub open spec fn of_field(t: Option<Seq<char>>) -> EventType {
        match t {
            Some(name) => EventType::of(name),
            None => EventType::Unknown,
        }
    }

    /// The event type that the name `s` stands for.
    pub fn from_str(s: &str) -> (r: EventType)
        ensures
            r == EventType::of(s@),
    {
        if str_eq(s, "READY") {
            EventType::Ready
        } else if str_eq(s, "RESUMED") {
            EventType::Resumed
        } else if str_eq(s, "INTERACTION_CREATE") {
            EventType::InteractionCreate
        } else if str_eq(s, "MESSAGE_CREATE") {
            EventType::MessageCreate
        } else {
            EventType::Unknown
        }
    }
}

/// A frame that came in: its opcode, sequence number and event name, and
/// of its data what the session reads.
#[derive(Debug)]
pub struct DiscordEvent {
    pub op: u8,
    pub s: Option<u64>,
    pub t: Option<String>,
    /// `heartbeat_interval` of a `hello`, in milliseconds.
    pub heartbeat_interval: Option<u64>,
    /// `session_id` of a `READY`.
    pub session_id: Option<String>,
    /// Id of the bot's user from a `READY`.
    pub user_id: Option<String>,
}

/// Mathematical model of a `DiscordEvent`.
pub ghost struct EventView {
    pub op: u8,
    pub s: Option<u64>,
    pub t: Option<Seq<char>>,
    pub heartbeat_interval: Option<u64>,
    pub session_id: Option<Seq<char>>,
    pub user_id: Option<Seq<char>>,
}

impl View for DiscordEvent {
    type V = EventView;

    open spec fn view(&self) -> EventView {
        EventView {
            op: self.op,
            s: self.s,
            t: opt_text(self.t),
            heartbeat_interval: self.heartbeat_interval,
            session_id: opt_text(self.session_id),
            user_id: opt_text(self.user_id),
        }
    }
}

impl DiscordEvent {
    /// The opcode of the frame.
    pub fn opcode(&self) -> (r: Opcode)
        ensures
            r == Opcode::of(self.op),
    {
        Opcode::from_u8(self.op)
    }

    /// The event type of the frame; `Unknown` where it names none.
    pub fn event_type(&self) -> (r: EventType)
        ensures
            r == EventType::of_field(self@.t),
    {
        match &self.t {
            Some(name) => EventType::from_str(name.as_str()),
            None => EventType::Unknown,
        }
    }
}

/// Where the session stands.
#[derive(Clone, Copy, Debug, PartialEq, Eq, Structural)]
pub enum SessionPhase {
    /// No connection.
    Disconnected,
    /// Connected; `hello` has not come yet.
    HelloWait,
    /// IDENTIFY was sent.
    Identifying,
    /// RESUME was sent.
    Resuming,
    /// `READY` or `RESUMED` has come.
    Established,
    /// The server declared the session invalid.
    Invalidated,
}

impl SessionPhase {
    /// The phases in which the connection is past `hello` and heartbeats
    /// go out.
    pub open spec fn live(self) -> bool {
        self == SessionPhase::Identifying || self == SessionPhase::Resuming || self
            == SessionPhase::Established
    }

    /// Whether the connection is past `hello`.
    pub fn is_live(&self) -> (r: bool)
        ensures
            r == self.live(),
    {
        match self {
            SessionPhase::Identifying => true,
            SessionPhase::Resuming => true,
            SessionPhase::Established => true,
            _ => false,
        }
    }
}

/// The kinds of entries of the session-event log.
#[derive(Clone, Copy, Debug, PartialEq, Eq, Structural)]
pub enum SessionEventKind {
    Identify,
    Resume,
    Resumed,
    Ready,
    InvalidSession,
}

impl SessionEventKind {
    /// The name under which the kind is logged.
    pub fn as_str(&self) -> (s: &'static str)
        ensures
            s@ == match *self {
                SessionEventKind::Identify => "identify"@,
                SessionEventKind::Resume => "resume"@,
                SessionEventKind::Resumed => "resumed"@,
                SessionEventKind::Ready => "ready"@,
                SessionEventKind::InvalidSession => "invalid_session"@,
            },
    {
        match self {
            SessionEventKind::Identify => "identify",
            SessionEventKind::Resume => "resume",
            SessionEventKind::Resumed => "resumed",
            SessionEventKind::Ready => "ready",
            SessionEventKind::InvalidSession => "invalid_session",
        }
    }
}

/// What the connection has to do for the session, one step at a time.
#[derive(Clone, Copy, Debug, PartialEq, Eq, Structural)]
pub enum GatewayAction {
    /// Write session id, sequence and bot user id through to the store.
    PersistState,
    /// Append an entry to the session-event log. `with_session` says
    /// whether the entry carries the session id that the session holds
    /// after this input.
    Log { kind: SessionEventKind, with_session: bool, sequence: Option<u64> },
    /// Send IDENTIFY with the token and these intents.
    SendIdentify { intents: u32 },
    /// Send RESUME with the token, the session id that the session holds
    /// and this sequence number.
    SendResume { sequence: Option<u64> },
    /// Send a heartbeat that carries this sequence number.
    SendHeartbeat { sequence: Option<u64> },
    /// Start the heartbeat timer with this period.
    StartHeartbeat { interval_ms: u64 },
    /// Count one heartbeat.
    CountHeartbeat,
    /// Hand the data of the frame to the handler of interactions.
    RouteInteraction,
    /// Hand the data of the frame to the handler of messages.
    RouteMessage,
    /// Leave the connection, so that the supervisor connects anew.
    Close,
}

impl GatewayAction {
    /// Whether the action puts a frame on the wire.
    pub open spec fn outbound(self) -> bool {
        self is SendIdentify || self is SendResume || self is SendHeartbeat
    }

    /// The sequence number that an outbound frame carries, if it carries
    /// one.
    pub open spec fn carried(self) -> Option<u64> {
        match self {
            GatewayAction::SendResume { sequence } => sequence,
            GatewayAction::SendHeartbeat { sequence } => sequence,
            _ => None,
        }
    }
}

/// The state of the gateway session.
#[derive(Debug)]
pub struct Session {
    pub phase: SessionPhase,
    /// Id of the session to resume, if one is kept.
    pub session_id: Option<String>,
    /// Sequence number of the latest frame that carried one.
    pub sequence: Option<u64>,
    /// Id of the bot's user.
    pub bot_user_id: Option<String>,
    /// Period of the heartbeat, from the latest `hello`.
    pub heartbeat_interval: Option<u64>,
}

/// Mathematical model of a `Session`.
pub ghost struct SessionView {
    pub phase: SessionPhase,
    pub session_id: Option<Seq<char>>,
    pub sequence: Option<u64>,
    pub bot_user_id: Option<Seq<char>>,
    pub heartbeat_interval: Option<u64>,
}

impl View for Session {
    type V = SessionView;

    open spec fn view(&self) -> SessionView {
        SessionView {
            phase: self.phase,
            session_id: opt_text(self.session_id),
            sequence: self.sequence,
            bot_user_id: opt_text(self.bot_user_id),
            heartbeat_interval: self.heartbeat_interval,
        }
    }
}

/// One input of the session.
pub ghost enum GatewayInput {
    /// A frame came in.
    Frame(EventView),
    /// The heartbeat timer fired.
    Tick,
}

impl EventView {
    /// Whether the frame is a `hello` that the session in phase `phase`
    /// answers: it comes first on the connection and names a heartbeat
    /// period.
    pub open spec fn opens(self, phase: SessionPhase) -> bool {
        &&& Opcode::of(self.op) == Opcode::Hello
        &&& phase == SessionPhase::HelloWait
        &&& self.heartbeat_interval is Some
    }

    /// The period of the heartbeat timer after this `hello`, in
    /// milliseconds: the period that it names, but at least one.
    pub open spec fn period(self) -> u64 {
        match self.heartbeat_interval {
            Some(ms) => if ms == 0 {
                1
            } else {
                ms
            },
            None => 1,
        }
    }

    /// Whether the frame tells the session in phase `phase` that it is
    /// invalid.
    pub open spec fn invalidates(self, phase: SessionPhase) -> bool {
        Opcode::of(self.op) == Opcode::InvalidSession && phase.live()
    }

    /// The event type of the frame if it is a dispatch that the session in
    /// phase `phase` takes, `Unknown` otherwise.
    pub open spec fn dispatched(self, phase: SessionPhase) -> EventType {
        if Opcode::of(self.op) == Opcode::Dispatch && phase.live() {
            EventType::of_field(self.t)
        } else {
            EventType::Unknown
        }
    }
}

impl SessionView {
    /// The session with the sequence number of the frame, if it has one.
    pub open spec fn with_sequence(self, e: EventView) -> SessionView {
        match e.s {
            Some(n) => SessionView { sequence: Some(n), ..self },
            None => self,
        }
    }

    /// The session after the frame `e` came in. The sequence number is
    /// taken first, whatever the frame is.
    pub open spec fn after_frame(self, e: EventView) -> SessionView {
        let s = self.with_sequence(e);
        if e.opens(s.phase) {
            SessionView {
                phase: if s.session_id is Some {
                    SessionPhase::Resuming
                } else {
                    SessionPhase::Identifying
                },
                heartbeat_interval: e.heartbeat_interval,
                ..s
            }
        } else if e.invalidates(s.phase) {
            SessionView { phase: SessionPhase::Invalidated, session_id: None, sequence: None, ..s }
        } else {
            match e.dispatched(s.phase) {
                EventType::Ready => SessionView {
                    phase: SessionPhase::Established,
                    session_id: if e.session_id is Some {
                        e.session_id
                    } else {
                        s.session_id
                    },
                    bot_user_id: if e.user_id is Some {
                        e.user_id
                    } else {
                        s.bot_user_id
                    },
                    ..s
                },
                EventType::Resumed => SessionView { phase: SessionPhase::Established, ..s },
                _ => s,
            }
        }
    }

    /// What has to be done when the frame `e` comes in: first of all the
    /// sequence number is persisted, then the frame is acted upon.
    pub open spec fn frame_actions(self, e: EventView) -> Seq<GatewayAction> {
        let s = self.with_sequence(e);
        let persist = if e.s is Some {
            seq![GatewayAction::PersistState]
        } else {
            Seq::empty()
        };
        persist + if e.opens(s.phase) {
            if s.session_id is Some {
                seq![
                    GatewayAction::Log {
                        kind: SessionEventKind::Resume,
                        with_session: true,
                        sequence: s.sequence,
                    },
                    GatewayAction::SendResume { sequence: s.sequence },
                    GatewayAction::StartHeartbeat { interval_ms: e.period() },
                ]
            } else {
                seq![
                    GatewayAction::Log {
                        kind: SessionEventKind::Identify,
                        with_session: false,
                        sequence: None,
                    },
                    GatewayAction::SendIdentify { intents: GATEWAY_INTENTS },
                    GatewayAction::StartHeartbeat { interval_ms: e.period() },
                ]
            }
        } else if e.invalidates(s.phase) {
            seq![
                GatewayAction::Log {
                    kind: SessionEventKind::InvalidSession,
                    with_session: false,
                    sequence: None,
                },
                GatewayAction::PersistState,
                GatewayAction::Close,
            ]
        } else {
            match e.dispatched(s.phase) {
                EventType::Ready => if e.session_id is Some {
                    seq![
                        GatewayAction::PersistState,
                        GatewayAction::Log {
                            kind: SessionEventKind::Ready,
                            with_session: true,
                            sequence: None,
                        },
                    ]
                } else if e.user_id is Some {
                    seq![GatewayAction::PersistState]
                } else {
                    Seq::empty()
                },
                EventType::Resumed => seq![
                    GatewayAction::Log {
                        kind: SessionEventKind::Resumed,
                        with_session: false,
                        sequence: None,
                    },
                ],
                EventType::InteractionCreate => seq![GatewayAction::RouteInteraction],
                EventType::MessageCreate => seq![GatewayAction::RouteMessage],
                EventType::Unknown => Seq::empty(),
            }
        }
    }

    /// What has to be done when the heartbeat timer fires: past `hello`, a
    /// heartbeat with the current sequence number goes out and is counted.
    pub open spec fn tick_actions(self) -> Seq<GatewayAction> {
        if self.phase.live() {
            seq![
                GatewayAction::SendHeartbeat { sequence: self.sequence },
                GatewayAction::CountHeartbeat,
            ]
        } else {
            Seq::empty()
        }
    }

    /// The session after one input.
    pub open spec fn after_input(self, input: GatewayInput) -> SessionView {
        match input {
            GatewayInput::Frame(e) => self.after_frame(e),
            GatewayInput::Tick => self,
        }
    }

    /// What has to be done about one input.
    pub open spec fn input_actions(self, input: GatewayInput) -> Seq<GatewayAction> {
        match input {
            GatewayInput::Frame(e) => self.frame_actions(e),
            GatewayInput::Tick => self.tick_actions(),
        }
    }

    /// The session after the inputs, one after the other.
    pub open spec fn after_inputs(self, inputs: Seq<GatewayInput>) -> SessionView
        decreases inputs.len(),
    {
        if inputs.len() == 0 {
            self
        } else {
            self.after_inputs(inputs.drop_last()).after_input(inputs.last())
        }
    }
}

impl Session {
    /// The session as it was persisted, with no connection yet.
    pub fn restore(
        session_id: Option<String>,
        sequence: Option<u64>,
        bot_user_id: Option<String>,
    ) -> (r: Session)
        ensures
            r@ == (SessionView {
                phase: SessionPhase::Disconnected,
                session_id: opt_text(session_id),
                sequence,
                bot_user_id: opt_text(bot_user_id),
                heartbeat_interval: None,
            }),
    {
        Session {
            phase: SessionPhase::Disconnected,
            session_id,
            sequence,
            bot_user_id,
            heartbeat_interval: None,
        }
    }

    /// The connection to the streaming endpoint stands; `hello` comes next.
    pub fn connected(&mut self)
        ensures
            final(self)@ == (SessionView { phase: SessionPhase::HelloWait, ..old(self)@ }),
    {
        self.phase = SessionPhase::HelloWait;
    }

    /// The connection is gone; session id and sequence number are kept for
    /// the next one, unless the session was declared invalid before.
    pub fn disconnected(&mut self)
        ensures
            final(self)@ == (SessionView { phase: SessionPhase::Disconnected, ..old(self)@ }),
    {
        self.phase = SessionPhase::Disconnected;
    }

    /// Takes the sequence number of a frame, if it carries one.
    pub fn update_sequence(&mut self, seq: Option<u64>)
        ensures
            final(self)@ == (SessionView {
                sequence: if seq is Some {
                    seq
                } else {
                    old(self)@.sequence
                },
                ..old(self)@
            }),
    {
        if let Some(s) = seq {
            self.sequence = Some(s);
        }
    }

    /// Forgets the session: neither id nor sequence number is kept.
    pub fn clear_session(&mut self)
        ensures
            final(self)@ == (SessionView { session_id: None, sequence: None, ..old(self)@ }),
    {
        self.session_id = None;
        self.sequence = None;
    }

    /// A frame came in. Returns what has to be done about it, in order.
    pub fn on_frame(&mut self, event: &DiscordEvent) -> (actions: Vec<GatewayAction>)
        ensures
            final(self)@ == old(self)@.after_frame(event@),
            actions@ == old(self)@.frame_actions(event@),
    {
        let mut actions: Vec<GatewayAction> = Vec::new();
        if event.s.is_some() {
            self.sequence = event.s;
            actions.push(GatewayAction::PersistState);
        }
        let ghost s = old(self)@.with_sequence(event@);
        assert(self@ == s);
        let ghost persist = actions@;
        let op = event.opcode();
        let live = self.phase.is_live();
        let opens = match (op, self.phase, event.heartbeat_interval) {
            (Opcode::Hello, SessionPhase::HelloWait, Some(_)) => true,
            _ => false,
        };
        assert(opens == event@.opens(s.phase));
        if opens {
            let interval_ms = match event.heartbeat_interval {
                Some(ms) => if ms == 0 {
                    1
                } else {
                    ms
                },
                None => 1,
            };
            if self.session_id.is_some() {
                actions.push(
                    GatewayAction::Log {
                        kind: SessionEventKind::Resume,
                        with_session: true,
                        sequence: self.sequence,
                    },
                );
                actions.push(GatewayAction::SendResume { sequence: self.sequence });
                self.phase = SessionPhase::Resuming;
            } else {
                actions.push(
                    GatewayAction::Log {
                        kind: SessionEventKind::Identify,
                        with_session: false,
                        sequence: None,
                    },
                );
                actions.push(GatewayAction::SendIdentify { intents: GATEWAY_INTENTS });
                self.phase = SessionPhase::Identifying;
            }
            actions.push(GatewayAction::StartHeartbeat { interval_ms });
            self.heartbeat_interval = event.heartbeat_interval;
            assert(actions@ =~= old(self)@.frame_actions(event@));
            return actions;
        }
        if live && op == Opcode::InvalidSession {
            actions.push(
                GatewayAction::Log {
                    kind: SessionEventKind::InvalidSession,
                    with_session: false,
                    sequence: None,
                },
            );
            self.session_id = None;
            self.sequence = None;
            self.phase = SessionPhase::Invalidated;
            actions.push(GatewayAction::PersistState);
            actions.push(GatewayAction::Close);
            assert(actions@ =~= old(self)@.frame_actions(event@));
            return actions;
        }
        let kind = if live && op == Opcode::Dispatch {
            event.event_type()
        } else {
            EventType::Unknown
        };
        assert(kind == event@.dispatched(s.phase));
        match kind {
            EventType::Ready => {
                if event.session_id.is_some() {
                    self.session_id = clone_opt_text(&event.session_id);
                    actions.push(GatewayAction::PersistState);
                    actions.push(
                        GatewayAction::Log {
                            kind: SessionEventKind::Ready,
                            with_session: true,
                            sequence: None,
                        },
                    );
                } else if event.user_id.is_some() {
                    actions.push(GatewayAction::PersistState);
                }
                if event.user_id.is_some() {
                    self.bot_user_id = clone_opt_text(&event.user_id);
                }
                self.phase = SessionPhase::Established;
            },
            EventType::Resumed => {
                actions.push(
                    GatewayAction::Log {
                        kind: SessionEventKind::Resumed,
                        with_session: false,
                        sequence: None,
                    },
                );
                self.phase = SessionPhase::Established;
            },
            EventType::InteractionCreate => {
                actions.push(GatewayAction::RouteInteraction);
            },
            EventType::MessageCreate => {
                actions.push(GatewayAction::RouteMessage);
            },
            EventType::Unknown => {},
        }
        assert(actions@ =~= old(self)@.frame_actions(event@));
        actions
    }

    /// The heartbeat timer fired. Returns what has to be done about it.
    pub fn on_heartbeat_tick(&self) -> (actions: Vec<GatewayAction>)
        ensures
            actions@ == self@.tick_actions(),
    {
        let mut actions: Vec<GatewayAction> = Vec::new();
        if self.phase.is_live() {
            actions.push(GatewayAction::SendHeartbeat { sequence: self.sequence });
            actions.push(GatewayAction::CountHeartbeat);
        }
        assert(actions@ =~= self@.tick_actions());
        actions
    }
}

/// Seconds to wait before the reconnect that follows the `attempt`th
/// failure in a row: 30, 30, 60, 60, 120, 120, then 300.
pub open spec fn backoff_seconds(attempt: nat) -> nat {
    if attempt <= 2 {
        30
    } else if attempt <= 4 {
        60
    } else if attempt <= 6 {
        120
    } else {
        300
    }
}

/// Seconds to wait after a run of the gateway that ended without error.
pub const STEADY_PAUSE_SECONDS: u64 = 5;

/// Seconds to wait before the reconnect that follows the `attempt`th
/// failure in a row.
pub fn reconnect_delay(attempt: u32) -> (secs: u64)
    ensures
        secs == backoff_seconds(attempt as nat),
        30 <= secs <= 300,
{
    if attempt <= 2 {
        30
    } else if attempt <= 4 {
        60
    } else if attempt <= 6 {
        120
    } else {
        300
    }
}

/// The outer loop's bookkeeping: the number of failures in a row after one
/// more run of the gateway, and the seconds to wait before the next run.
/// A run that ended without error resets the count.
pub fn after_run(failures: u32, ok: bool) -> (r: (u32, u64))
    ensures
        ok ==> r == (0u32, STEADY_PAUSE_SECONDS),
        !ok && failures < u32::MAX ==> r.0 == failures + 1 && r.1 == backoff_seconds(
            (failures + 1) as nat,
        ),
        !ok && failures == u32::MAX ==> r == (u32::MAX, 300u64),
{
    if ok {
        (0, STEADY_PAUSE_SECONDS)
    } else {
        let next = if failures < u32::MAX {
            failures + 1
        } else {
            failures
        };
        (next, reconnect_delay(next))
    }
}

/// No frame among the inputs declares the session invalid.
pub open spec fn never_invalidated(inputs: Seq<GatewayInput>) -> bool {
    forall|k: int|
        0 <= k < inputs.len() ==> (#[trigger] inputs[k] matches GatewayInput::Frame(e)
            ==> Opcode::of(e.op) != Opcode::InvalidSession)
}

/// The sequence numbers of the frames never go down.
pub open spec fn sequences_ascend(inputs: Seq<GatewayInput>) -> bool {
    forall|j: int, k: int|
        0 <= j < k < inputs.len() ==> (#[trigger] inputs[j] matches GatewayInput::Frame(a) ==> (
        #[trigger] inputs[k] matches GatewayInput::Frame(b) ==> (a.s matches Some(m) ==> (
        b.s matches Some(n) ==> m <= n))))
}

/// The sequence number of a frame is persisted before anything else is
/// done about the frame, and it is the number that the session holds
/// afterwards, unless the frame ends the session.
pub proof fn law_sequence_first(s: SessionView, e: EventView)
    requires
        e.s is Some,
    ensures
        s.frame_actions(e).len() > 0,
        s.frame_actions(e)[0] == GatewayAction::PersistState,
        !e.invalidates(s.phase) ==> s.after_frame(e).sequence == e.s,
{
}

/// Resume on reconnect: a session that holds a session id answers the
/// `hello` that opens a connection with RESUME for that session and the
/// sequence number it holds, enters it in the log, and sends no IDENTIFY.
pub proof fn law_hello_resumes(s: SessionView, e: EventView)
    requires
        s.phase == SessionPhase::HelloWait,
        s.session_id is Some,
        Opcode::of(e.op) == Opcode::Hello,
        e.heartbeat_interval is Some,
        e.s is None,
    ensures
        s.frame_actions(e) == seq![
            GatewayAction::Log {
                kind: SessionEventKind::Resume,
                with_session: true,
                sequence: s.sequence,
            },
            GatewayAction::SendResume { sequence: s.sequence },
            GatewayAction::StartHeartbeat { interval_ms: e.period() },
        ],
        s.after_frame(e).phase == SessionPhase::Resuming,
        s.after_frame(e).session_id == s.session_id,
        s.after_frame(e).sequence == s.sequence,
{
    let persist = Seq::<GatewayAction>::empty();
    assert(persist + s.frame_actions(e) =~= s.frame_actions(e));
    assert(s.with_sequence(e) == s);
    assert(s.frame_actions(e) =~= seq![
        GatewayAction::Log {
            kind: SessionEventKind::Resume,
            with_session: true,
            sequence: s.sequence,
        },
        GatewayAction::SendResume { sequence: s.sequence },
        GatewayAction::StartHeartbeat { interval_ms: e.period() },
    ]);
}

/// A session without session id answers the `hello` that opens a
/// connection with IDENTIFY and sends no RESUME.
pub proof fn law_hello_identifies(s: SessionView, e: EventView)
    requires
        s.phase == SessionPhase::HelloWait,
        s.session_id is None,
        Opcode::of(e.op) == Opcode::Hello,
        e.heartbeat_interval is Some,
        e.s is None,
    ensures
        s.frame_actions(e) == seq![
            GatewayAction::Log {
                kind: SessionEventKind::Identify,
                with_session: false,
                sequence: None,
            },
            GatewayAction::SendIdentify { intents: GATEWAY_INTENTS },
            GatewayAction::StartHeartbeat { interval_ms: e.period() },
        ],
        s.after_frame(e).phase == SessionPhase::Identifying,
{
    assert(s.with_sequence(e) == s);
    assert(s.frame_actions(e) =~= seq![
        GatewayAction::Log {
            kind: SessionEventKind::Identify,
            with_session: false,
            sequence: None,
        },
        GatewayAction::SendIdentify { intents: GATEWAY_INTENTS },
        GatewayAction::StartHeartbeat { interval_ms: e.period() },
    ]);
}

/// On `invalid_session` a live session forgets its session id and its
/// sequence number, and the connection is left.
pub proof fn law_invalid_session_forgets(s: SessionView, e: EventView)
    requires
        s.phase.live(),
        Opcode::of(e.op) == Opcode::InvalidSession,
    ensures
        s.after_frame(e).session_id is None,
        s.after_frame(e).sequence is None,
        s.after_frame(e).phase == SessionPhase::Invalidated,
        s.frame_actions(e).last() == GatewayAction::Close,
{
}

/// Every frame that goes out in answer to an input carries the sequence
/// number that the session holds after that input, if it carries one at
/// all.
pub proof fn law_outbound_carries_persisted(s: SessionView, input: GatewayInput, k: int)
    requires
        0 <= k < s.input_actions(input).len(),
        s.input_actions(input)[k].outbound(),
        !(s.input_actions(input)[k] is SendIdentify),
    ensures
        s.input_actions(input)[k].carried() == s.after_input(input).sequence,
{
}

/// Once a frame with the sequence number `n` has come in, the session
/// holds a sequence number of at least `n` after every later input, and
/// so at the moment of the next outbound frame, as long as the sequence
/// numbers that come in do not go down and the session is not declared
/// invalid.
pub proof fn law_persisted_sequence_covers(
    s: SessionView,
    inputs: Seq<GatewayInput>,
    j: int,
    n: u64,
)
    requires
        never_invalidated(inputs),
        sequences_ascend(inputs),
        0 <= j < inputs.len(),
        inputs[j] matches GatewayInput::Frame(e) && e.s == Some(n),
    ensures
        s.after_inputs(inputs).sequence matches Some(m) && m >= n,
    decreases inputs.len(),
{
    let before = inputs.drop_last();
    let last = inputs.last();
    if j < inputs.len() - 1 {
        assert(before[j] == inputs[j]);
        assert(never_invalidated(before)) by {
            assert forall|k: int| 0 <= k < before.len() implies (
            #[trigger] before[k] matches GatewayInput::Frame(e) ==> Opcode::of(e.op)
                != Opcode::InvalidSession) by {
                assert(before[k] == inputs[k]);
            }
        }
        assert(sequences_ascend(before)) by {
            assert forall|a: int, b: int| 0 <= a < b < before.len() implies (
            #[trigger] before[a] matches GatewayInput::Frame(x) ==> (
            #[trigger] before[b] matches GatewayInput::Frame(y) ==> (x.s matches Some(m) ==> (
            y.s matches Some(n2) ==> m <= n2)))) by {
                assert(before[a] == inputs[a]);
                assert(before[b] == inputs[b]);
            }
        }
        law_persisted_sequence_covers(s, before, j, n);
        assert(inputs[inputs.len() - 1] == last);
    }
}

} // verus!
