use raftbot::api::ApiFailure;
use raftbot::error::{is_kebab_case, BotError, Cause, ErrorKind, Foreign};

#[test]
fn error_carries_key_and_place() {
    let e = BotError::new_at("store", "src/db.rs", 42);
    assert_eq!(e.key, "store");
    assert_eq!(e.file, "src/db.rs");
    assert_eq!(e.line, 42);
    assert!(e.causes.is_empty());
    assert!(e.source().is_none());
    assert_eq!(e.describe(), "[src/db.rs:42] store");
}

#[test]
fn kinds_have_kebab_case_keys() {
    let kinds = [
        (ErrorKind::Transport, "transport"),
        (ErrorKind::Api, "api"),
        (ErrorKind::Store, "store"),
        (ErrorKind::Codec, "codec"),
        (ErrorKind::Inference, "inference"),
        (ErrorKind::Parse, "parse"),
        (ErrorKind::Config, "config"),
    ];
    for (kind, key) in kinds {
        assert_eq!(kind.key(), key);
        assert_eq!(BotError::of_kind(kind, "f.rs", 1).key, key);
        assert!(key.chars().all(|c| c.is_ascii_lowercase() || c == '-'));
    }
}

#[test]
fn causes_keep_their_order() {
    let e = BotError::new_at("api", "a.rs", 1)
        .push_str("first".to_string())
        .push_any(BotError::new_at("transport", "b.rs", 2))
        .push_std(Foreign { message: "third".to_string(), sources: vec!["deep".to_string()] });
    assert_eq!(e.causes.len(), 3);
    assert!(matches!(&e.causes[0], Cause::Std(f) if f.message == "first" && f.sources.is_empty()));
    assert!(matches!(&e.causes[1], Cause::Any(inner) if inner.key == "transport"));
    assert!(matches!(&e.causes[2], Cause::Std(f) if f.message == "third"));
    assert!(matches!(e.source(), Some(Cause::Std(f)) if f.message == "first"));
    assert_eq!(e.describe(), "[a.rs:1] api (causes: 3)");
}

#[test]
fn tree_of_an_error_without_causes_is_its_head() {
    let e = BotError::new_at("config", "main.rs", 7);
    assert_eq!(e.render_tree(), vec!["[ERROR] main.rs:7 - config"]);
}

#[test]
fn tree_draws_the_chain() {
    let inner = BotError::new_at("transport", "net.rs", 10)
        .push_str("connection reset".to_string())
        .push_str("gave up".to_string());
    let e = BotError::new_at("api", "api.rs", 3)
        .push_any(inner)
        .push_std(Foreign {
            message: "bad json".to_string(),
            sources: vec!["line 1".to_string(), "column 5".to_string()],
        });
    assert_eq!(
        e.render_tree(),
        vec![
            "[ERROR] api.rs:3 - api",
            "├── [net.rs:10] transport",
            "│   ├── connection reset",
            "│   └── gave up",
            "└── bad json",
            "        ↳ ",
            "        line 1",
            "          ↳ ",
            "          column 5",
        ]
    );
}

#[test]
fn sources_below_a_cause_that_is_not_the_last() {
    let e = BotError::new_at("store", "db.rs", 1)
        .push_std(Foreign { message: "io".to_string(), sources: vec!["disk full".to_string()] })
        .push_str("tail".to_string());
    assert_eq!(
        e.render_tree(),
        vec![
            "[ERROR] db.rs:1 - store",
            "├── io",
            "│       ↳ ",
            "│       disk full",
            "└── tail",
        ]
    );
}

#[test]
fn kebab_case_keys() {
    for key in ["api", "http-error", "zip-start-file-error", "a1-b2", "x"] {
        assert!(is_kebab_case(key), "{}", key);
    }
    for key in ["", "-api", "api-", "a--b", "Api", "a_b", "a b", "é"] {
        assert!(!is_kebab_case(key), "{}", key);
    }
    assert!(BotError::new_at("store", "f.rs", 1).has_kebab_key());
    assert!(!BotError::new_at("mongodb_error", "f.rs", 1).has_kebab_key());
    let http = ApiFailure::HttpError { status: 500, body: String::new() };
    assert!(is_kebab_case(http.key()));
    let api = ApiFailure::ApiError { code: 1, message: String::new(), retry_after: None, global: false };
    assert!(is_kebab_case(api.key()));
}
