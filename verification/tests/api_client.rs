use raftbot::api::{
    authorization, check_response, commands_url, gateway_connect_url, interaction_callback_url,
    invite_url, message_route, message_url, RateLimit, ApiFailure,
    DiscordErrorResponse, Pacing, PermissionCheck, RateLimitHeaders, API_BASE,
    INVITE_PERMISSIONS,
};

fn headers(limit: Option<&str>, remaining: Option<&str>) -> RateLimitHeaders {
    RateLimitHeaders {
        limit: limit.map(|s| s.to_string()),
        remaining: remaining.map(|s| s.to_string()),
        reset: Some(1_700_000_000_500),
        reset_after: Some(1_500),
        bucket: Some("abcd".to_string()),
        global: None,
    }
}

#[test]
fn authorization_header() {
    assert_eq!(authorization("SECRET-REDACTED"), "Bot SECRET-REDACTED");
    assert_eq!(authorization(""), "Bot ");
}

#[test]
fn addresses() {
    assert_eq!(API_BASE, "https://discord.com/api/v10");
    assert_eq!(message_url("12", None), "https://discord.com/api/v10/channels/12/messages");
    assert_eq!(message_url("12", Some("34")), "https://discord.com/api/v10/channels/12/messages/34");
    assert_eq!(commands_url("99"), "https://discord.com/api/v10/applications/99/commands");
    assert_eq!(
        interaction_callback_url("1", "tok"),
        "https://discord.com/api/v10/interactions/1/tok/callback"
    );
}

#[test]
fn gateway_address_gets_version_and_encoding() {
    assert_eq!(
        gateway_connect_url("wss://gateway.discord.gg"),
        "wss://gateway.discord.gg/?v=10&encoding=json"
    );
    assert_eq!(
        gateway_connect_url("wss://gateway.discord.gg/"),
        "wss://gateway.discord.gg/?v=10&encoding=json"
    );
    assert_eq!(gateway_connect_url(""), "/?v=10&encoding=json");
}

#[test]
fn routes_of_message_calls() {
    assert_eq!(message_route("POST", "5", false), "POST /channels/5/messages");
    assert_eq!(message_route("PATCH", "5", true), "PATCH /channels/5/messages/{message_id}");
}

#[test]
fn invite_address() {
    assert_eq!(invite_url(""), "");
    assert_eq!(
        invite_url("77"),
        "https://discord.com/api/oauth2/authorize?client_id=77&permissions=101376&scope=bot%20applications.commands"
    );
    assert_eq!(INVITE_PERMISSIONS, 0x400 | 0x800 | 0x8000 | 0x10000);
}

#[test]
fn success_statuses_pass() {
    for status in [200u16, 201, 204, 299] {
        assert!(check_response(status, String::new(), None).is_ok());
    }
    let decoded = DiscordErrorResponse {
        message: "ignored".to_string(),
        code: Some(1),
        retry_after: None,
        global: None,
        errors: None,
    };
    assert!(check_response(200, "{}".to_string(), Some(decoded)).is_ok());
}

#[test]
fn platform_error_becomes_api_error() {
    let decoded = DiscordErrorResponse {
        message: "You are being rate limited.".to_string(),
        code: None,
        retry_after: Some(1_250),
        global: Some(true),
        errors: None,
    };
    match check_response(429, "{...}".to_string(), Some(decoded)) {
        Err(ApiFailure::ApiError { code, message, retry_after, global }) => {
            assert_eq!(code, 0);
            assert_eq!(message, "You are being rate limited.");
            assert_eq!(retry_after, Some(1_250));
            assert!(global);
        }
        other => panic!("{:?}", other),
    }
    let plain = DiscordErrorResponse {
        message: "Unknown Channel".to_string(),
        code: Some(10003),
        retry_after: None,
        global: None,
        errors: None,
    };
    let failure = check_response(404, String::new(), Some(plain)).unwrap_err();
    assert_eq!(failure.key(), "api-error");
    assert!(matches!(failure, ApiFailure::ApiError { code: 10003, global: false, .. }));
}

#[test]
fn other_failures_become_http_errors() {
    for status in [0u16, 199, 300, 404, 500, 502] {
        match check_response(status, "Bad Gateway".to_string(), None) {
            Err(ApiFailure::HttpError { status: s, body }) => {
                assert_eq!(s, status);
                assert_eq!(body, "Bad Gateway");
            }
            other => panic!("{:?}", other),
        }
    }
    assert_eq!(check_response(500, String::new(), None).unwrap_err().key(), "http-error");
}

#[test]
fn platform_error_as_text() {
    let e = DiscordErrorResponse {
        message: "You are being rate limited.".to_string(),
        code: Some(20028),
        retry_after: Some(64_057),
        global: Some(true),
        errors: Some("{\"a\": 1}".to_string()),
    };
    assert_eq!(
        e.describe(),
        "[20028] You are being rate limited. (retry after 64.057s) [GLOBAL]\nDetails: {\"a\": 1}"
    );
    let bare = DiscordErrorResponse {
        message: "Nope".to_string(),
        code: None,
        retry_after: None,
        global: Some(false),
        errors: None,
    };
    assert_eq!(bare.describe(), "[0] Nope");
    let negative = DiscordErrorResponse {
        message: "m".to_string(),
        code: Some(i32::MIN),
        retry_after: Some(5),
        global: None,
        errors: None,
    };
    assert_eq!(negative.describe(), "[-2147483648] m (retry after 0.005s)");
}

#[test]
fn snapshot_of_the_rate_limit_headers() {
    let snap = RateLimit::update_from_headers("/gateway".to_string(), &headers(Some("5"), Some("4")), 99).unwrap();
    assert_eq!(snap.route, "/gateway");
    assert_eq!(snap.limit, 5);
    assert_eq!(snap.remaining, 4);
    assert_eq!(snap.reset, 1_700_000_000_500);
    assert_eq!(snap.reset_after, 1_500);
    assert_eq!(snap.bucket.as_deref(), Some("abcd"));
    assert!(!snap.global);
    assert_eq!(snap.updated_at, 99);
}

#[test]
fn response_without_a_limit_gives_no_snapshot() {
    assert!(RateLimit::update_from_headers("/x".to_string(), &headers(None, Some("4")), 0).is_none());
    assert!(RateLimit::update_from_headers("/x".to_string(), &headers(Some("0"), Some("4")), 0).is_none());
    assert!(RateLimit::update_from_headers("/x".to_string(), &headers(Some("five"), None), 0).is_none());
    assert!(RateLimit::update_from_headers("/x".to_string(), &headers(Some(""), None), 0).is_none());
    assert!(RateLimit::update_from_headers("/x".to_string(), &headers(Some("2147483648"), None), 0).is_none());
}

#[test]
fn header_values_are_read_like_integers() {
    let snap = RateLimit::update_from_headers("/x".to_string(), &headers(Some("+7"), Some("-1")), 0).unwrap();
    assert_eq!(snap.limit, 7);
    assert_eq!(snap.remaining, -1);
    let edge =
        RateLimit::update_from_headers("/x".to_string(), &headers(Some("-2147483648"), Some("2147483647")), 0)
            .unwrap();
    assert_eq!(edge.limit, i32::MIN);
    assert_eq!(edge.remaining, i32::MAX);
    let junk = RateLimit::update_from_headers("/x".to_string(), &headers(Some("1"), Some("1.5")), 0).unwrap();
    assert_eq!(junk.remaining, 0);
    let mut h = headers(Some("1"), None);
    h.global = Some("true".to_string());
    h.reset = None;
    h.reset_after = None;
    h.bucket = None;
    let g = RateLimit::update_from_headers("/x".to_string(), &h, 0).unwrap();
    assert!(g.global);
    assert_eq!((g.reset, g.reset_after, g.remaining), (0, 0, 0));
    assert_eq!(g.bucket, None);
    h.global = Some("TRUE".to_string());
    assert!(!RateLimit::update_from_headers("/x".to_string(), &h, 0).unwrap().global);
}

#[test]
fn pacing_by_snapshot() {
    let open = RateLimit::update_from_headers("/x".to_string(), &headers(Some("5"), Some("1")), 0).unwrap();
    assert!(open.can_request(0));
    assert_eq!(open.retry_after(0), 0);
    let shut = RateLimit::update_from_headers("/x".to_string(), &headers(Some("5"), Some("0")), 0).unwrap();
    assert!(!shut.can_request(1_700_000_000));
    assert_eq!(shut.retry_after(1_700_000_000), 500);
    assert!(shut.can_request(1_700_000_001));
    assert_eq!(shut.retry_after(1_700_000_001), 0);
    assert_eq!(shut.retry_after(i64::MIN), u64::MAX);
}

#[test]
fn permissions_are_read_off_the_bits() {
    let all = PermissionCheck::of(INVITE_PERMISSIONS);
    assert!(all.all_granted());
    let some = PermissionCheck::of(0x400 | 0x8000);
    assert_eq!(
        some,
        PermissionCheck {
            view_channel: true,
            send_messages: false,
            attach_files: true,
            read_history: false
        }
    );
    assert!(!some.all_granted());
    assert!(!PermissionCheck::of(0).all_granted());
    assert!(PermissionCheck::of(u64::MAX).all_granted());
}

#[test]
fn snapshots_pace_calls_only_on_request() {
    let shut = RateLimit::update_from_headers("/x".to_string(), &headers(Some("5"), Some("0")), 0);
    let open = RateLimit::update_from_headers("/x".to_string(), &headers(Some("5"), Some("2")), 0);
    let off = Pacing::bucket_only();
    assert!(!off.honor_snapshots);
    assert_eq!(off.wait_for(&shut, 1_700_000_000), 0);
    let on = Pacing { honor_snapshots: true };
    assert_eq!(on.wait_for(&shut, 1_700_000_000), 500);
    assert_eq!(on.wait_for(&shut, 1_700_000_001), 0);
    assert_eq!(on.wait_for(&open, 1_700_000_000), 0);
    assert_eq!(on.wait_for(&None, 1_700_000_000), 0);
}
