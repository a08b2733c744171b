//! The API client's recipe, as far as it computes: the addresses and
//! headers of the calls, the reading of responses into the two kinds of
//! failure, and the snapshot of the rate-limit headers.
use crate::text::{
    clone_opt_text, decimal, integer_i32, opt_text, parse_i32, push_decimal, str_eq, to_chars,
};
use vstd::prelude::*;

verus! {

/// Base address of the REST interface.
pub const API_BASE: &'static str = "https://discord.com/api/v10";

/// What is put behind the address of the gateway.
pub const GATEWAY_QUERY: &'static str = "?v=10&encoding=json";

/// The permissions that the invite asks for: view channel, send messages,
/// attach files and read message history.
pub const INVITE_PERMISSIONS: u64 = 101376;

/// The value of the `Authorization` header: `Bot <token>`.
pub fn authorization(token: &str) -> (r: String)
    ensures
        r@ == "Bot "@ + token@,
{
    let mut out = String::from_str("Bot ");
    out.append(token);
    out
}

/// The address under which the messages of a channel are created.
pub open spec fn messages_address(channel_id: Seq<char>) -> Seq<char> {
    API_BASE@ + "/channels/"@ + channel_id + "/messages"@
}

/// The address of the messages of a channel, or of one message of it.
pub fn message_url(channel_id: &str, message_id: Option<&str>) -> (r: String)
    ensures
        r@ == match message_id {
            Some(id) => messages_address(channel_id@) + "/"@ + id@,
            None => messages_address(channel_id@),
        },
{
    let mut out = String::from_str(API_BASE);
    out.append("/channels/");
    out.append(channel_id);
    out.append("/messages");
    if let Some(id) = message_id {
        out.append("/");
        out.append(id);
    }
    out
}

/// The address under which the commands of an application are registered.
pub fn commands_url(application_id: &str) -> (r: String)
    ensures
        r@ == API_BASE@ + "/applications/"@ + application_id@ + "/commands"@,
{
    let mut out = String::from_str(API_BASE);
    out.append("/applications/");
    out.append(application_id);
    out.append("/commands");
    out
}

/// The address under which an interaction is answered.
pub fn interaction_callback_url(interaction_id: &str, interaction_token: &str) -> (r: String)
    ensures
        r@ == API_BASE@ + "/interactions/"@ + interaction_id@ + "/"@ + interaction_token@
            + "/callback"@,
{
    let mut out = String::from_str(API_BASE);
    out.append("/interactions/");
    out.append(interaction_id);
    out.append("/");
    out.append(interaction_token);
    out.append("/callback");
    out
}

/// The address to connect the gateway to: the address that the platform
/// names, a slash unless it ends in one, and the query that asks for
/// version 10 and JSON.
pub fn gateway_connect_url(url: &str) -> (r: String)
    ensures
        r@ == url@ + (if url@.len() > 0 && url@.last() == '/' {
            Seq::<char>::empty()
        } else {
            "/"@
        }) + GATEWAY_QUERY@,
{
    let chars = to_chars(url);
    let slash = chars.len() > 0 && chars[chars.len() - 1] == '/';
    let mut out = String::from_str(url);
    let ghost start = out@;
    if !slash {
        out.append("/");
    }
    assert(out@ =~= start + (if url@.len() > 0 && url@.last() == '/' {
        Seq::<char>::empty()
    } else {
        "/"@
    }));
    out.append(GATEWAY_QUERY);
    out
}

/// The route under which the rate limit of a call on the messages of a
/// channel is kept: the method, and the path with a placeholder for the
/// id of a message.
pub fn message_route(method: &str, channel_id: &str, with_message_id: bool) -> (r: String)
    ensures
        r@ == method@ + " /channels/"@ + channel_id@ + "/messages"@ + (if with_message_id {
            "/{message_id}"@
        } else {
            Seq::<char>::empty()
        }),
{
    let mut out = String::from_str(method);
    out.append(" /channels/");
    out.append(channel_id);
    out.append("/messages");
    let ghost start = out@;
    if with_message_id {
        out.append("/{message_id}");
    }
    assert(out@ =~= start + (if with_message_id {
        "/{message_id}"@
    } else {
        Seq::<char>::empty()
    }));
    out
}

/// The address that invites the application with the given id, with the
/// permissions that the bot needs; empty for an empty id.
pub open spec fn invite_address(application_id: Seq<char>) -> Seq<char> {
    if application_id.len() == 0 {
        Seq::<char>::empty()
    } else {
        "https://discord.com/api/oauth2/authorize?client_id="@ + application_id + "&permissions="@
            + decimal(INVITE_PERMISSIONS as nat) + "&scope=bot%20applications.commands"@
    }
}

/// The address that invites the bot with the permissions it needs; empty
/// while the id of the application is not known.
pub fn invite_url(application_id: &str) -> (r: String)
    ensures
        r@ == invite_address(application_id@),
{
    if application_id.unicode_len() == 0 {
        return String::new();
    }
    let mut out = String::from_str("https://discord.com/api/oauth2/authorize?client_id=");
    out.append(application_id);
    out.append("&permissions=");
    push_decimal(&mut out, INVITE_PERMISSIONS);
    out.append("&scope=bot%20applications.commands");
    out
}

/// The error that the platform returns as JSON.
#[derive(Debug)]
pub struct DiscordErrorResponse {
    pub message: String,
    pub code: Option<i32>,
    /// Time to wait before the call may be repeated, in milliseconds.
    pub retry_after: Option<u64>,
    pub global: Option<bool>,
    /// The details, as text.
    pub errors: Option<String>,
}

/// Three decimal digits for a number below 1000.
pub open spec fn three_digits(n: nat) -> Seq<char> {
    seq![
        crate::text::digit_char((n / 100) as int),
        crate::text::digit_char(((n / 10) % 10) as int),
        crate::text::digit_char((n % 10) as int),
    ]
}

/// A time in seconds with three decimals, such as `1.500`.
pub open spec fn millis_text(millis: nat) -> Seq<char> {
    decimal(millis / 1000) + "."@ + three_digits(millis % 1000)
}

/// The number as the platform writes a code: with a minus for a negative
/// one.
pub open spec fn signed_decimal(n: int) -> Seq<char> {
    if n < 0 {
        "-"@ + decimal((-n) as nat)
    } else {
        decimal(n as nat)
    }
}

impl DiscordErrorResponse {
    /// The error in one text: the code in brackets (0 where there is
    /// none) and the message; then the time to wait, the mark of a global
    /// limit and the details, as far as the error has them.
    pub open spec fn text(self) -> Seq<char> {
        "["@ + signed_decimal(
            match self.code {
                Some(c) => c as int,
                None => 0,
            },
        ) + "] "@ + self.message@ + (match self.retry_after {
            Some(ms) => " (retry after "@ + millis_text(ms as nat) + "s)"@,
            None => Seq::empty(),
        }) + (if self.global == Some(true) {
            " [GLOBAL]"@
        } else {
            Seq::empty()
        }) + (match self.errors {
            Some(details) => "\nDetails: "@ + details@,
            None => Seq::empty(),
        })
    }

    /// Writes the error in one text.
    pub fn describe(&self) -> (r: String)
        ensures
            r@ == self.text(),
    {
        let code: i32 = match self.code {
            Some(c) => c,
            None => 0,
        };
        let mut out = String::from_str("[");
        if code < 0 {
            out.append("-");
            push_decimal(&mut out, (-(code as i64)) as u64);
        } else {
            push_decimal(&mut out, code as u64);
        }
        assert(out@ =~= "["@ + signed_decimal(code as int));
        out.append("] ");
        out.append(self.message.as_str());
        let ghost a = out@;
        if let Some(ms) = self.retry_after {
            out.append(" (retry after ");
            push_decimal(&mut out, ms / 1000);
            out.append(".");
            let rest = ms % 1000;
            proof {
                crate::text::lemma_decimal_single((rest / 100) as nat);
                crate::text::lemma_decimal_single(((rest / 10) % 10) as nat);
                crate::text::lemma_decimal_single((rest % 10) as nat);
            }
            push_decimal(&mut out, rest / 100);
            push_decimal(&mut out, (rest / 10) % 10);
            push_decimal(&mut out, rest % 10);
            out.append("s)");
            assert(out@ =~= a + (" (retry after "@ + millis_text(ms as nat) + "s)"@));
        }
        assert(out@ =~= a + (match self.retry_after {
            Some(ms) => " (retry after "@ + millis_text(ms as nat) + "s)"@,
            None => Seq::empty(),
        }));
        let ghost b = out@;
        if let Some(true) = self.global {
            out.append(" [GLOBAL]");
        }
        assert(out@ =~= b + (if self.global == Some(true) {
            " [GLOBAL]"@
        } else {
            Seq::empty()
        }));
        let ghost c = out@;
        if let Some(details) = &self.errors {
            out.append("\nDetails: ");
            out.append(details.as_str());
            assert(out@ =~= c + ("\nDetails: "@ + details@));
        }
        assert(out@ =~= c + (match self.errors {
            Some(details) => "\nDetails: "@ + details@,
            None => Seq::empty(),
        }));
        out
    }
}

/// Why a call of the API failed.
#[derive(Debug)]
pub enum ApiFailure {
    /// The platform answered with an error of its own.
    ApiError { code: i32, message: String, retry_after: Option<u64>, global: bool },
    /// The platform answered with a status that is no success and a body
    /// that is no error of its own.
    HttpError { status: u16, body: String },
}

impl ApiFailure {
    /// The stable key of the failure.
    pub fn key(&self) -> (k: &'static str)
        ensures
            k@ == match *self {
                ApiFailure::ApiError { .. } => "api-error"@,
                ApiFailure::HttpError { .. } => "http-error"@,
            },
    {
        match self {
            ApiFailure::ApiError { .. } => "api-error",
            ApiFailure::HttpError { .. } => "http-error",
        }
    }
}

/// Whether the status of a response is a success: `200 ..= 299`.
pub open spec fn is_success(status: u16) -> bool {
    200 <= status <= 299
}

/// Reads a response: a success is fine; any other status is a failure,
/// the error of the platform where the body decodes as one, else the
/// status and the body as they came. An error without a code counts as
/// code 0, one that does not say so as not global.
pub fn check_response(status: u16, body: String, decoded: Option<DiscordErrorResponse>) -> (r:
    Result<(), ApiFailure>)
    ensures
        is_success(status) <==> r is Ok,
        !is_success(status) ==> match decoded {
            Some(e) => r matches Err(ApiFailure::ApiError { code, message, retry_after, global })
                && code == (match e.code {
                Some(c) => c,
                None => 0,
            }) && message == e.message && retry_after == e.retry_after && global == (e.global
                == Some(true)),
            None => r matches Err(ApiFailure::HttpError { status: s, body: b }) && s == status
                && b == body,
        },
{
    if 200 <= status && status <= 299 {
        return Ok(());
    }
    match decoded {
        Some(e) => {
            let code = match e.code {
                Some(c) => c,
                None => 0,
            };
            let global = match e.global {
                Some(g) => g,
                None => false,
            };
            Err(ApiFailure::ApiError { code, message: e.message, retry_after: e.retry_after, global })
        },
        None => Err(ApiFailure::HttpError { status, body }),
    }
}

/// The rate-limit headers of a response, as they came. The two times are
/// given in milliseconds.
#[derive(Debug)]
pub struct RateLimitHeaders {
    /// `x-ratelimit-limit`.
    pub limit: Option<String>,
    /// `x-ratelimit-remaining`.
    pub remaining: Option<String>,
    /// `x-ratelimit-reset`, in milliseconds since the epoch.
    pub reset: Option<i64>,
    /// `x-ratelimit-reset-after`, in milliseconds.
    pub reset_after: Option<i64>,
    /// `x-ratelimit-bucket`.
    pub bucket: Option<String>,
    /// `x-ratelimit-global`.
    pub global: Option<String>,
}

/// The rate limit of a route as the latest response stated it.
#[derive(Debug)]
pub struct RateLimit {
    pub route: String,
    /// Calls allowed in the window.
    pub limit: i32,
    /// Calls left in the window.
    pub remaining: i32,
    /// When the window ends, in milliseconds since the epoch.
    pub reset: i64,
    /// Time until the window ends, in milliseconds.
    pub reset_after: i64,
    pub bucket: Option<String>,
    pub global: bool,
    /// When the snapshot was taken, in milliseconds since the epoch.
    pub updated_at: i64,
}

/// The number that a header spells, or 0 where the header is missing or
/// spells none.
pub open spec fn header_number(value: Option<String>) -> i32 {
    match value {
        Some(v) => match integer_i32(v@) {
            Some(n) => n,
            None => 0,
        },
        None => 0,
    }
}

fn read_header_number(value: &Option<String>) -> (r: i32)
    ensures
        r == header_number(*value),
{
    match value {
        Some(v) => {
            let chars = to_chars(v.as_str());
            match parse_i32(&chars) {
                Some(n) => n,
                None => 0,
            }
        },
        None => 0,
    }
}

impl RateLimit {
    /// Takes the snapshot of the rate limit of `route` from the headers of a
    /// response, at the time `now`. A response that states no limit gives no
    /// snapshot.
    pub fn update_from_headers(route: String, headers: &RateLimitHeaders, now: i64) -> (r:
        Option<RateLimit>)
        ensures
            header_number(headers.limit) == 0 <==> r is None,
            r matches Some(s) ==> {
                &&& s.route == route
                &&& s.limit == header_number(headers.limit)
                &&& s.remaining == header_number(headers.remaining)
                &&& s.reset == (match headers.reset {
                    Some(t) => t,
                    None => 0,
                })
                &&& s.reset_after == (match headers.reset_after {
                    Some(t) => t,
                    None => 0,
                })
                &&& opt_text(s.bucket) == opt_text(headers.bucket)
                &&& s.global == (headers.global matches Some(g) && g@ == "true"@)
                &&& s.updated_at == now
            },
    {
        let limit = read_header_number(&headers.limit);
        if limit == 0 {
            return None;
        }
        let remaining = read_header_number(&headers.remaining);
        let global = match &headers.global {
            Some(g) => str_eq(g.as_str(), "true"),
            None => false,
        };
        Some(
            RateLimit {
                route,
                limit,
                remaining,
                reset: match headers.reset {
                    Some(t) => t,
                    None => 0,
                },
                reset_after: match headers.reset_after {
                    Some(t) => t,
                    None => 0,
                },
                bucket: clone_opt_text(&headers.bucket),
                global,
                updated_at: now,
            },
        )
    }

    /// Whether a call may go out at `now_seconds` (seconds since the
    /// epoch): calls are left, or the window has ended.
    pub fn can_request(&self, now_seconds: i64) -> (r: bool)
        ensures
            r == (self.remaining > 0 || now_seconds * 1000 >= self.reset),
    {
        self.remaining > 0 || (now_seconds as i128) * 1000 >= self.reset as i128
    }

    /// Milliseconds to wait at `now_seconds` before a call may go out:
    /// none while calls are left, else the time to the end of the window.
    pub fn retry_after(&self, now_seconds: i64) -> (r: u64)
        ensures
            r == if self.remaining > 0 || self.reset - now_seconds * 1000 <= 0 {
                0
            } else if self.reset - now_seconds * 1000 > u64::MAX {
                u64::MAX as int
            } else {
                self.reset - now_seconds * 1000
            },
    {
        if self.remaining > 0 {
            return 0;
        }
        let wait: i128 = self.reset as i128 - (now_seconds as i128) * 1000;
        if wait <= 0 {
            0
        } else if wait > u64::MAX as i128 {
            u64::MAX
        } else {
            wait as u64
        }
    }
}

/// How outbound calls are paced besides the token bucket.
#[derive(Clone, Copy, Debug, PartialEq, Eq, Structural)]
pub struct Pacing {
    /// Whether a call waits while the latest snapshot of its route says
    /// that no calls are left in the window. Off, the token bucket alone
    /// paces the calls and the snapshots are kept for observation only.
    pub honor_snapshots: bool,
}

impl Pacing {
    /// The token bucket alone paces the calls.
    pub fn bucket_only() -> (r: Pacing)
        ensures
            r == (Pacing { honor_snapshots: false }),
    {
        Pacing { honor_snapshots: false }
    }

    /// Milliseconds that a call on a route waits at `now_seconds` on
    /// account of the latest snapshot of that route: none unless
    /// snapshots are honored and the snapshot leaves no call.
    pub fn wait_for(&self, snapshot: &Option<RateLimit>, now_seconds: i64) -> (r: u64)
        ensures
            r == match *snapshot {
                Some(s) => if !self.honor_snapshots || s.remaining > 0 || s.reset
                    - now_seconds * 1000 <= 0 {
                    0
                } else if s.reset - now_seconds * 1000 > u64::MAX {
                    u64::MAX as int
                } else {
                    s.reset - now_seconds * 1000
                },
                None => 0,
            },
    {
        if !self.honor_snapshots {
            return 0;
        }
        match snapshot {
            Some(s) => s.retry_after(now_seconds),
            None => 0,
        }
    }
}

/// The permissions that the bot needs in a channel.
#[derive(Clone, Copy, Debug, PartialEq, Eq, Structural)]
pub struct PermissionCheck {
    pub view_channel: bool,
    pub send_messages: bool,
    pub attach_files: bool,
    pub read_history: bool,
}

/// Bit of the permission to view a channel.
pub const VIEW_CHANNEL: u64 = 0x400;

/// Bit of the permission to send messages.
pub const SEND_MESSAGES: u64 = 0x800;

/// Bit of the permission to attach files.
pub const ATTACH_FILES: u64 = 0x8000;

/// Bit of the permission to read the history of a channel.
pub const READ_MESSAGE_HISTORY: u64 = 0x10000;

impl PermissionCheck {
    /// Reads the four permissions off the permission bits.
    pub fn of(permissions: u64) -> (r: PermissionCheck)
        ensures
            r.view_channel == (permissions & VIEW_CHANNEL != 0),
            r.send_messages == (permissions & SEND_MESSAGES != 0),
            r.attach_files == (permissions & ATTACH_FILES != 0),
            r.read_history == (permissions & READ_MESSAGE_HISTORY != 0),
    {
        PermissionCheck {
            view_channel: permissions & VIEW_CHANNEL != 0,
            send_messages: permissions & SEND_MESSAGES != 0,
            attach_files: permissions & ATTACH_FILES != 0,
            read_history: permissions & READ_MESSAGE_HISTORY != 0,
        }
    }

    /// Whether nothing is missing.
    pub fn all_granted(&self) -> (r: bool)
        ensures
            r == (self.view_channel && self.send_messages && self.attach_files
                && self.read_history),
    {
        self.view_channel && self.send_messages && self.attach_files && self.read_history
    }
}

/// The invite asks for exactly the four permissions that the bot needs.
pub proof fn law_invite_permissions()
    ensures
        INVITE_PERMISSIONS == VIEW_CHANNEL | SEND_MESSAGES | ATTACH_FILES | READ_MESSAGE_HISTORY,
        INVITE_PERMISSIONS & VIEW_CHANNEL != 0,
        INVITE_PERMISSIONS & SEND_MESSAGES != 0,
        INVITE_PERMISSIONS & ATTACH_FILES != 0,
        INVITE_PERMISSIONS & READ_MESSAGE_HISTORY != 0,
{
    assert(101376u64 == 0x400u64 | 0x800u64 | 0x8000u64 | 0x10000u64) by (bit_vector);
    assert(101376u64 & 0x400u64 != 0) by (bit_vector);
    assert(101376u64 & 0x800u64 != 0) by (bit_vector);
    assert(101376u64 & 0x8000u64 != 0) by (bit_vector);
    assert(101376u64 & 0x10000u64 != 0) by (bit_vector);
}

} // verus!
