use raftbot::attachment::Attachment;
use raftbot::command::CommandKind;
use raftbot::gateway::{SessionEventKind, SessionPhase};
use raftbot::icon::{
    cell_origin, center_square, collage_size, compose_collage, pixel_fits, shows_icons,
    CellOrigin, CollageSize, Crop, Raster, COLLAGE_PADDING, ICON_SIZE, TRANSPARENT,
};
use raftbot::limiter::Acquire;
use raftbot::message::{read_message, Message, MessageReference, MessageSend, User};
use raftbot::slash::{
    all_commands, route_interaction, Ahoy, Blp, Command, Icon, Interaction, InteractionData,
    InteractionResponse, Png, Rembg, SlashKind, AHOY_TEXT,
};
use raftbot::state::{BotState, DiscordState};
use raftbot::telemetry::{
    GatewayBotInfo, Heartbeat, SessionEvent, SessionLimit, SessionStartLimit, HEARTBEAT_ID,
    SESSION_LIMIT_ID, STATE_ID,
};
use raftbot::text::{
    decimal_string, parse_i32, parse_number_in, split_words, starts_with, str_eq, to_chars,
};

fn message(content: &str, bot: Option<bool>, mentions: &[&str]) -> Message {
    Message {
        id: "m1".to_string(),
        author: User { id: "u1".to_string(), bot },
        channel_id: "c1".to_string(),
        content: content.to_string(),
        attachments: vec![Attachment {
            id: "a".to_string(),
            url: "u".to_string(),
            filename: "a.png".to_string(),
        }],
        mentions: mentions.iter().map(|id| User { id: id.to_string(), bot: None }).collect(),
        message_reference: None,
    }
}

fn interaction(kind: u8, name: Option<&str>) -> Interaction {
    Interaction {
        id: "i".to_string(),
        interaction_type: kind,
        data: name.map(|n| InteractionData { name: n.to_string() }),
        token: "t".to_string(),
        channel_id: None,
    }
}

#[test]
fn only_mentions_by_humans_are_commands() {
    let hit = read_message(&message("<@7> blp zip", None, &["3", "7"]), "7").unwrap();
    assert_eq!(hit.kind, CommandKind::Blp);
    assert!(hit.zip);
    assert!(read_message(&message("<@7> blp", Some(false), &["7"]), "7").is_some());
    assert!(read_message(&message("<@7> blp", Some(true), &["7"]), "7").is_none());
    assert!(read_message(&message("<@8> blp", None, &["8"]), "7").is_none());
    assert!(read_message(&message("blp", None, &[]), "7").is_none());
    assert!(read_message(&message("<@7> hello", None, &["7"]), "7").is_none());
}

#[test]
fn messages_to_send() {
    let reply = MessageSend::reply("hi".to_string(), "m1".to_string());
    assert_eq!(reply.content.as_deref(), Some("hi"));
    assert_eq!(reply.message_reference.unwrap().message_id.as_deref(), Some("m1"));
    assert!(reply.attachments.is_none());
    let plain = MessageSend::reply("hi".to_string(), "m1".to_string());
    assert!(!plain.is_multipart());
    let done = MessageSend::with_files("done".to_string(), vec![("a.blp".to_string(), vec![1])]);
    assert!(done.is_multipart());
    assert!(done.message_reference.is_none());
    assert_eq!(done.attachments.unwrap()[0].0, "a.blp");
    let empty = MessageReference::default();
    assert!(empty.message_id.is_none() && empty.kind.is_none() && empty.channel_id.is_none());
}

#[test]
fn registered_commands() {
    let names: Vec<String> = all_commands().into_iter().map(|c| c.name).collect();
    assert_eq!(names, vec!["ahoy", "blp", "png", "rembg", "icon"]);
    assert!(all_commands().iter().all(|c| c.command_type == 1 && !c.description.is_empty()));
    assert_eq!(Ahoy::definition().description, "A pirate greeting");
    assert_eq!(Blp::definition().name, "blp");
    assert_eq!(Png::definition().name, "png");
    assert_eq!(Rembg::definition().description, "Information about background removal");
    assert_eq!(Icon::definition().name, "icon");
    assert_eq!(AHOY_TEXT, "Aye aye, Captain! Raft's afloat!");
}

#[test]
fn interactions_are_routed_by_name() {
    assert_eq!(route_interaction(&interaction(2, Some("ahoy"))), Some(SlashKind::Ahoy));
    assert_eq!(route_interaction(&interaction(2, Some("blp"))), Some(SlashKind::Blp));
    assert_eq!(route_interaction(&interaction(2, Some("png"))), Some(SlashKind::Png));
    assert_eq!(route_interaction(&interaction(2, Some("rembg"))), Some(SlashKind::Rembg));
    assert_eq!(route_interaction(&interaction(2, Some("icon"))), Some(SlashKind::Icon));
    assert_eq!(route_interaction(&interaction(2, Some("bg"))), None);
    assert_eq!(route_interaction(&interaction(2, None)), None);
    assert_eq!(route_interaction(&interaction(1, Some("ahoy"))), None);
    assert_eq!(route_interaction(&interaction(3, Some("ahoy"))), None);
    let r = InteractionResponse::message("pong".to_string());
    assert_eq!(r.response_type, 4);
    assert_eq!(r.data.unwrap().content, "pong");
}

#[test]
fn heartbeat_counter() {
    assert_eq!(Heartbeat::increment(None, 5), Heartbeat { count: 1, last_sent: 5 });
    let h = Heartbeat { count: 41, last_sent: 1 };
    assert_eq!(Heartbeat::increment(Some(h), 9), Heartbeat { count: 42, last_sent: 9 });
    let top = Heartbeat { count: i64::MAX, last_sent: 1 };
    assert_eq!(Heartbeat::increment(Some(top), 9).count, i64::MAX);
    assert_eq!(HEARTBEAT_ID, "bot_heartbeat");
    assert_eq!(STATE_ID, "bot_state");
    assert_eq!(SESSION_LIMIT_ID, "session_limit");
}

#[test]
fn session_start_limit() {
    let info = GatewayBotInfo {
        url: "wss://x".to_string(),
        shards: 2,
        session_start_limit: SessionStartLimit {
            total: 1000,
            remaining: 0,
            reset_after: 14_400_000,
            max_concurrency: 1,
        },
    };
    let limit = SessionLimit::update(&info, 77);
    assert_eq!(
        limit,
        SessionLimit {
            total: 1000,
            remaining: 0,
            reset_after: 14_400_000,
            max_concurrency: 1,
            shards: 2,
            updated_at: 77
        }
    );
    assert!(!limit.can_start_session());
    assert_eq!(limit.retry_after_millis(), 14_400_000);
    let open = SessionLimit { remaining: 3, ..limit };
    assert!(open.can_start_session());
    assert_eq!(open.retry_after_millis(), 0);
}

#[test]
fn session_event_log_entries() {
    let e = SessionEvent::log_identify(1);
    assert_eq!((e.kind, e.session_id, e.sequence, e.at), (SessionEventKind::Identify, None, None, 1));
    let e = SessionEvent::log_resume("S".to_string(), Some(42), 2);
    assert_eq!(e.kind, SessionEventKind::Resume);
    assert_eq!(e.session_id.as_deref(), Some("S"));
    assert_eq!(e.sequence, Some(42));
    assert_eq!(SessionEvent::log_resumed(3).kind, SessionEventKind::Resumed);
    let e = SessionEvent::log_ready("S".to_string(), 4);
    assert_eq!((e.kind, e.session_id.as_deref(), e.at), (SessionEventKind::Ready, Some("S"), 4));
    assert_eq!(SessionEvent::log_invalid_session(5).kind, SessionEventKind::InvalidSession);
    let held = Some("held".to_string());
    let with = SessionEvent::of_action(SessionEventKind::Resume, true, Some(1), &held, 6);
    assert_eq!(with.session_id.as_deref(), Some("held"));
    let without = SessionEvent::of_action(SessionEventKind::Identify, false, None, &held, 6);
    assert_eq!(without.session_id, None);
}

#[test]
fn square_is_cut_from_the_centre() {
    assert_eq!(center_square(100, 60), Crop { x: 20, y: 0, size: 60 });
    assert_eq!(center_square(60, 101), Crop { x: 0, y: 20, size: 60 });
    assert_eq!(center_square(64, 64), Crop { x: 0, y: 0, size: 64 });
    assert_eq!(center_square(0, 10), Crop { x: 0, y: 5, size: 0 });
    assert_eq!(center_square(u32::MAX, 1), Crop { x: (u32::MAX - 1) / 2, y: 0, size: 1 });
}

#[test]
fn collage_is_a_grid_of_inputs_by_variants() {
    assert_eq!((ICON_SIZE, COLLAGE_PADDING), (64, 4));
    assert_eq!(collage_size(6), Some(CollageSize { width: 64, height: 404 }));
    assert_eq!(collage_size(12), Some(CollageSize { width: 132, height: 404 }));
    assert_eq!(collage_size(18), Some(CollageSize { width: 200, height: 404 }));
    // no complete set of icons: the six templates in one column
    assert_eq!(collage_size(0), Some(CollageSize { width: 64, height: 404 }));
    assert_eq!(collage_size(7), Some(CollageSize { width: 64, height: 404 }));
    assert!(shows_icons(6) && shows_icons(12));
    assert!(!shows_icons(0) && !shows_icons(7));
    assert_eq!(cell_origin(0), Some(CellOrigin { x: 0, y: 0 }));
    assert_eq!(cell_origin(5), Some(CellOrigin { x: 0, y: 340 }));
    assert_eq!(cell_origin(6), Some(CellOrigin { x: 68, y: 0 }));
    assert_eq!(cell_origin(13), Some(CellOrigin { x: 136, y: 68 }));
    assert_eq!(cell_origin(usize::MAX), None);
    assert_eq!(collage_size(usize::MAX - 3), None);
}

#[test]
fn pixels_outside_the_collage_are_dropped() {
    let size = collage_size(6).unwrap();
    let last = cell_origin(5).unwrap();
    assert!(pixel_fits(last, 63, 63, size));
    assert!(!pixel_fits(last, 64, 0, size));
    assert!(!pixel_fits(last, 0, 64, size));
    let beyond = cell_origin(6).unwrap();
    assert!(!pixel_fits(beyond, 0, 0, size));
    assert!(!pixel_fits(CellOrigin { x: u32::MAX, y: 0 }, u32::MAX, 0, size));
}

#[test]
fn process_state_from_the_store() {
    let saved = DiscordState {
        id: "bot_state".to_string(),
        session_id: Some("S".to_string()),
        sequence: Some(42),
        bot_user_id: Some("bot".to_string()),
        rate_limit: Some(2),
    };
    let mut state = BotState::init_bot_state("tok".to_string(), saved, 0);
    assert_eq!(state.token(), "tok");
    assert_eq!(state.get_session_id().as_deref(), Some("S"));
    assert_eq!(state.get_sequence(), Some(42));
    assert_eq!(state.bot_user_id(), "bot");
    assert_eq!(state.session().phase, SessionPhase::Disconnected);
    assert_eq!(state.application_id(), "");
    assert_eq!(state.get_invite_url(), "");
    assert_eq!(state.acquire(0), Acquire::Granted);
    assert_eq!(state.acquire(0), Acquire::Granted);
    assert_eq!(state.acquire(0), Acquire::RetryAfter { millis: 50 });
    assert!(!state.update_sequence(None));
    assert!(state.update_sequence(Some(43)));
    state.set_session_id("T".to_string());
    state.set_bot_user_id("bot2".to_string());
    state.set_application_id("app".to_string());
    assert!(state.get_invite_url().contains("client_id=app&permissions=101376"));
    let stored = state.save_state();
    assert_eq!(stored.id, "bot_state");
    assert_eq!(stored.session_id.as_deref(), Some("T"));
    assert_eq!(stored.sequence, Some(43));
    assert_eq!(stored.bot_user_id.as_deref(), Some("bot2"));
    assert_eq!(stored.rate_limit, None);
    state.clear_session();
    assert_eq!(state.get_session_id(), None);
    assert_eq!(state.get_sequence(), None);
    assert_eq!(state.bot_user_id(), "bot2");
}

#[test]
fn process_state_of_a_first_run() {
    let initial = DiscordState::or_initial(None);
    assert_eq!(initial.id, "bot_state");
    assert!(initial.session_id.is_none() && initial.sequence.is_none());
    let mut state = BotState::init_bot_state("t".to_string(), initial, 10);
    for _ in 0..40 {
        assert_eq!(state.acquire(10), Acquire::Granted);
    }
    assert_eq!(state.acquire(10), Acquire::RetryAfter { millis: 50 });
    assert_eq!(state.bot_user_id(), "");
    let kept = DiscordState::or_initial(Some(DiscordState {
        id: "x".to_string(),
        session_id: None,
        sequence: Some(1),
        bot_user_id: None,
        rate_limit: None,
    }));
    assert_eq!((kept.id.as_str(), kept.sequence), ("x", Some(1)));
}

#[test]
fn text_helpers() {
    assert_eq!(decimal_string(0), "0");
    assert_eq!(decimal_string(10), "10");
    assert_eq!(decimal_string(u64::MAX), "18446744073709551615");
    assert_eq!(to_chars("añb"), vec!['a', 'ñ', 'b']);
    let words: Vec<String> =
        split_words(&to_chars("  a\tbc \n d ")).into_iter().map(|w| w.into_iter().collect()).collect();
    assert_eq!(words, vec!["a", "bc", "d"]);
    assert!(split_words(&to_chars(" \n ")).is_empty());
    assert!(starts_with(&to_chars("--quality=5"), &to_chars("--quality=")));
    assert!(!starts_with(&to_chars("-q"), &to_chars("--quality=")));
    assert!(str_eq("READY", "READY") && !str_eq("READY", "READY ") && str_eq("", ""));
    assert_eq!(parse_number_in(&to_chars("100"), 1, 100), Some(100));
    assert_eq!(parse_number_in(&to_chars("101"), 1, 100), None);
    assert_eq!(parse_number_in(&to_chars("+0"), 0, 255), Some(0));
    assert_eq!(parse_number_in(&to_chars("-0"), 0, 255), None);
    assert_eq!(parse_number_in(&to_chars("+"), 0, 255), None);
    assert_eq!(parse_number_in(&to_chars("65536"), 0, 65535), None);
    assert_eq!(parse_number_in(&to_chars("0065535"), 0, 65535), Some(65535));
    assert_eq!(parse_number_in(&to_chars("1e2"), 0, 65535), None);
    assert_eq!(parse_i32(&to_chars("-12")), Some(-12));
    assert_eq!(parse_i32(&to_chars("2147483647")), Some(i32::MAX));
    assert_eq!(parse_i32(&to_chars("2147483648")), None);
    assert_eq!(parse_i32(&to_chars("-")), None);
    assert_eq!(parse_i32(&to_chars("--1")), None);
    assert_eq!(parse_i32(&to_chars("")), None);
}

fn plain(width: usize, height: usize, colour: u32) -> Raster {
    Raster { rows: vec![vec![colour; width]; height] }
}

#[test]
fn collage_paints_every_icon_into_its_cell() {
    let icons: Vec<Raster> = (1..=12u32).map(|c| plain(64, 64, c)).collect();
    let canvas = compose_collage(&icons).unwrap();
    assert!(canvas.is_well_formed());
    assert_eq!(canvas.rows.len(), 404);
    assert_eq!(canvas.rows[0].len(), 132);
    // first input: column 0, variants down
    assert_eq!(canvas.rows[0][0], 1);
    assert_eq!(canvas.rows[63][63], 1);
    assert_eq!(canvas.rows[68][0], 2);
    assert_eq!(canvas.rows[5 * 68 + 63][63], 6);
    // second input: column 1
    assert_eq!(canvas.rows[0][68], 7);
    assert_eq!(canvas.rows[403][131], 12);
    // the padding shows nothing
    assert_eq!(canvas.rows[64][0], TRANSPARENT);
    assert_eq!(canvas.rows[0][64], TRANSPARENT);
    assert_eq!(canvas.rows[67][67], TRANSPARENT);
    let filled = canvas.rows.iter().flatten().filter(|p| **p != TRANSPARENT).count();
    assert_eq!(filled, 12 * 64 * 64);
}

#[test]
fn collage_drops_what_does_not_fit() {
    // an icon that is too large runs over the padding and is cut at the edge
    let mut icons: Vec<Raster> = (1..=6u32).map(|c| plain(64, 64, c)).collect();
    icons[5] = plain(100, 100, 9);
    let canvas = compose_collage(&icons).unwrap();
    assert_eq!((canvas.rows.len(), canvas.rows[0].len()), (404, 64));
    assert_eq!(canvas.rows[403][63], 9);
    assert_eq!(canvas.rows[340][0], 9);
    // a later icon is painted over an earlier one
    let mut over: Vec<Raster> = (1..=6u32).map(|c| plain(64, 64, c)).collect();
    over[0] = plain(64, 100, 7);
    let canvas = compose_collage(&over).unwrap();
    assert_eq!(canvas.rows[64][0], 7);
    assert_eq!(canvas.rows[68][0], 2);
    assert_eq!(canvas.rows[99][10], 2);
}

#[test]
fn collage_of_nothing_is_blank() {
    let canvas = compose_collage(&Vec::new()).unwrap();
    assert_eq!((canvas.rows.len(), canvas.rows[0].len()), (404, 64));
    assert!(canvas.rows.iter().flatten().all(|p| *p == TRANSPARENT));
    let blank = Raster::blank(3, 2);
    assert_eq!(blank.rows, vec![vec![0, 0, 0], vec![0, 0, 0]]);
    assert!(Raster { rows: Vec::new() }.is_well_formed());
    assert!(!Raster { rows: vec![vec![1], vec![1, 2]] }.is_well_formed());
    // icons that are no complete set are painted as far as they go
    let some = compose_collage(&vec![plain(64, 64, 5), plain(1, 1, 6)]).unwrap();
    assert_eq!(some.rows[0][0], 5);
    assert_eq!(some.rows[68][0], 6);
    assert_eq!(some.rows[68][1], TRANSPARENT);
}
