//! The state of the process: the token, the gateway session, the id of
//! the application and the rate limiter, and the session state as it is
//! stored.
use crate::api::invite_url;
use crate::gateway::{DiscordEvent, GatewayAction, Session, SessionPhase, SessionView};
use crate::limiter::{Acquire, Bucket, RateLimiter, DEFAULT_RATE, MICROS};
use crate::text::{clone_opt_text, opt_text};
use vstd::prelude::*;

verus! {

/// The session state as it is stored, so that a restart can resume.
#[derive(Debug)]
pub struct DiscordState {
    pub id: String,
    pub session_id: Option<String>,
    pub sequence: Option<u64>,
    pub bot_user_id: Option<String>,
    /// The configured rate of the limiter, in requests per second.
    pub rate_limit: Option<u32>,
}

impl DiscordState {
    /// The state of a bot that has never run.
    pub fn initial() -> (r: DiscordState)
        ensures
            r.id@ == crate::telemetry::STATE_ID@,
            r.session_id is None,
            r.sequence is None,
            r.bot_user_id is None,
            r.rate_limit is None,
    {
        DiscordState {
            id: String::from_str(crate::telemetry::STATE_ID),
            session_id: None,
            sequence: None,
            bot_user_id: None,
            rate_limit: None,
        }
    }

    /// What was loaded from the store, or the state of a bot that has
    /// never run where nothing was stored.
    pub fn or_initial(loaded: Option<DiscordState>) -> (r: DiscordState)
        ensures
            match loaded {
                Some(s) => r == s,
                None => r.id@ == crate::telemetry::STATE_ID@ && r.session_id is None
                    && r.sequence is None && r.bot_user_id is None && r.rate_limit is None,
            },
    {
        match loaded {
            Some(s) => s,
            None => DiscordState::initial(),
        }
    }
}

/// The state of the process.
#[derive(Debug)]
pub struct BotState {
    token: String,
    session: Session,
    application_id: Option<String>,
    limiter: RateLimiter,
}

impl BotState {
    /// The token of the bot.
    pub closed spec fn token_text(&self) -> Seq<char> {
        self.token@
    }

    /// The gateway session.
    pub closed spec fn session_view(&self) -> SessionView {
        self.session@
    }

    /// The id of the application, once it is known.
    pub closed spec fn application(&self) -> Option<Seq<char>> {
        opt_text(self.application_id)
    }

    /// The token bucket.
    pub closed spec fn bucket(&self) -> Bucket {
        self.limiter@
    }

    /// The state of the process at its start: the session as it was
    /// stored, no connection, and a full token bucket with the configured
    /// rate, or 40 requests per second where none is configured.
    pub fn init_bot_state(token: String, saved: DiscordState, now_micros: u64) -> (r: BotState)
        ensures
            r.token_text() == token@,
            r.application() is None,
            r.session_view() == (SessionView {
                phase: SessionPhase::Disconnected,
                session_id: opt_text(saved.session_id),
                sequence: saved.sequence,
                bot_user_id: opt_text(saved.bot_user_id),
                heartbeat_interval: None,
            }),
            ({
                let rate = match saved.rate_limit {
                    Some(n) => n,
                    None => DEFAULT_RATE,
                };
                r.bucket() == (Bucket {
                    capacity: rate as nat,
                    rate: rate as nat,
                    tokens: rate as nat * (MICROS as nat),
                    last: now_micros as nat,
                })
            }),
    {
        let rate = match saved.rate_limit {
            Some(n) => n,
            None => DEFAULT_RATE,
        };
        BotState {
            token,
            session: Session::restore(saved.session_id, saved.sequence, saved.bot_user_id),
            application_id: None,
            limiter: RateLimiter::new(rate, now_micros),
        }
    }

    /// The token of the bot.
    pub fn token(&self) -> (r: String)
        ensures
            r@ == self.token_text(),
    {
        self.token.clone()
    }

    /// The gateway session.
    pub fn session(&self) -> (r: &Session)
        ensures
            r@ == self.session_view(),
    {
        &self.session
    }

    /// The connection to the streaming endpoint stands.
    pub fn connected(&mut self)
        ensures
            final(self).session_view() == (SessionView {
                phase: SessionPhase::HelloWait,
                ..old(self).session_view()
            }),
            final(self).token_text() == old(self).token_text(),
            final(self).application() == old(self).application(),
            final(self).bucket() == old(self).bucket(),
    {
        self.session.connected();
    }

    /// The connection to the streaming endpoint is gone.
    pub fn disconnected(&mut self)
        ensures
            final(self).session_view() == (SessionView {
                phase: SessionPhase::Disconnected,
                ..old(self).session_view()
            }),
            final(self).token_text() == old(self).token_text(),
            final(self).application() == old(self).application(),
            final(self).bucket() == old(self).bucket(),
    {
        self.session.disconnected();
    }

    /// A frame came in: the session takes it, and what has to be done
    /// about it is returned, in order.
    pub fn on_frame(&mut self, event: &DiscordEvent) -> (actions: Vec<GatewayAction>)
        ensures
            final(self).session_view() == old(self).session_view().after_frame(event@),
            actions@ == old(self).session_view().frame_actions(event@),
            final(self).token_text() == old(self).token_text(),
            final(self).application() == old(self).application(),
            final(self).bucket() == old(self).bucket(),
    {
        self.session.on_frame(event)
    }

    /// The heartbeat timer fired: what has to be done about it.
    pub fn on_heartbeat_tick(&self) -> (actions: Vec<GatewayAction>)
        ensures
            actions@ == self.session_view().tick_actions(),
    {
        self.session.on_heartbeat_tick()
    }

    /// Takes the sequence number of a frame, if it carries one, and says
    /// whether the state has to be stored anew.
    pub fn update_sequence(&mut self, seq: Option<u64>) -> (changed: bool)
        ensures
            changed == seq is Some,
            final(self).session_view() == (SessionView {
                sequence: if seq is Some {
                    seq
                } else {
                    old(self).session_view().sequence
                },
                ..old(self).session_view()
            }),
            final(self).token_text() == old(self).token_text(),
            final(self).application() == old(self).application(),
            final(self).bucket() == old(self).bucket(),
    {
        self.session.update_sequence(seq);
        seq.is_some()
    }

    /// The sequence number of the latest frame that carried one.
    pub fn get_sequence(&self) -> (r: Option<u64>)
        ensures
            r == self.session_view().sequence,
    {
        self.session.sequence
    }

    /// The id of the session to resume, if one is kept.
    pub fn get_session_id(&self) -> (r: Option<String>)
        ensures
            opt_text(r) == self.session_view().session_id,
    {
        clone_opt_text(&self.session.session_id)
    }

    /// Keeps the id of the session.
    pub fn set_session_id(&mut self, id: String)
        ensures
            final(self).session_view() == (SessionView {
                session_id: Some(id@),
                ..old(self).session_view()
            }),
            final(self).token_text() == old(self).token_text(),
            final(self).application() == old(self).application(),
            final(self).bucket() == old(self).bucket(),
    {
        self.session.session_id = Some(id);
    }

    /// Forgets the session: neither id nor sequence number is kept.
    pub fn clear_session(&mut self)
        ensures
            final(self).session_view() == (SessionView {
                session_id: None,
                sequence: None,
                ..old(self).session_view()
            }),
            final(self).token_text() == old(self).token_text(),
            final(self).application() == old(self).application(),
            final(self).bucket() == old(self).bucket(),
    {
        self.session.clear_session();
    }

    /// The session state to store. The configured rate is left out, so
    /// that storing the session never overwrites it.
    pub fn save_state(&self) -> (r: DiscordState)
        ensures
            r.id@ == crate::telemetry::STATE_ID@,
            opt_text(r.session_id) == self.session_view().session_id,
            r.sequence == self.session_view().sequence,
            opt_text(r.bot_user_id) == self.session_view().bot_user_id,
            r.rate_limit is None,
    {
        DiscordState {
            id: String::from_str(crate::telemetry::STATE_ID),
            session_id: clone_opt_text(&self.session.session_id),
            sequence: self.session.sequence,
            bot_user_id: clone_opt_text(&self.session.bot_user_id),
            rate_limit: None,
        }
    }

    /// Keeps the id of the bot's user.
    pub fn set_bot_user_id(&mut self, user_id: String)
        ensures
            final(self).session_view() == (SessionView {
                bot_user_id: Some(user_id@),
                ..old(self).session_view()
            }),
            final(self).token_text() == old(self).token_text(),
            final(self).application() == old(self).application(),
            final(self).bucket() == old(self).bucket(),
    {
        self.session.bot_user_id = Some(user_id);
    }

    /// The id of the bot's user, empty while it is not known.
    pub fn bot_user_id(&self) -> (r: String)
        ensures
            r@ == match self.session_view().bot_user_id {
                Some(id) => id,
                None => Seq::empty(),
            },
    {
        match &self.session.bot_user_id {
            Some(id) => id.clone(),
            None => String::new(),
        }
    }

    /// Keeps the id of the application.
    pub fn set_application_id(&mut self, app_id: String)
        ensures
            final(self).application() == Some(app_id@),
            final(self).session_view() == old(self).session_view(),
            final(self).token_text() == old(self).token_text(),
            final(self).bucket() == old(self).bucket(),
    {
        self.application_id = Some(app_id);
    }

    /// The id of the application, empty while it is not known.
    pub fn application_id(&self) -> (r: String)
        ensures
            r@ == match self.application() {
                Some(id) => id,
                None => Seq::empty(),
            },
    {
        match &self.application_id {
            Some(id) => id.clone(),
            None => String::new(),
        }
    }

    /// The address that invites the bot, empty while the id of the
    /// application is not known.
    pub fn get_invite_url(&self) -> (r: String)
        ensures
            r@ == crate::api::invite_address(
                match self.application() {
                    Some(id) => id,
                    None => Seq::empty(),
                },
            ),
    {
        let id = self.application_id();
        invite_url(id.as_str())
    }

    /// One request for a token of the rate limiter at `now`, in
    /// microseconds of a monotonic clock.
    pub fn acquire(&mut self, now: u64) -> (r: Acquire)
        ensures
            final(self).bucket() == old(self).bucket().after_request(now as nat),
            old(self).bucket().grants(now as nat) <==> r == Acquire::Granted,
            final(self).session_view() == old(self).session_view(),
            final(self).token_text() == old(self).token_text(),
            final(self).application() == old(self).application(),
    {
        self.limiter.acquire(now)
    }
}

} // verus!
