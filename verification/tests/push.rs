use sailor_hook::commands::push::{configure, saved_line, show};
use sailor_hook::events::{Category, Event};
use sailor_hook::inbox::Row;
use sailor_hook::json;
use sailor_hook::paths::DirError;
use sailor_hook::push::{
    build_request, config_path, describe, header_safe, is_notable, short_project, Config, Kind,
};

fn ntfy() -> Config {
    Config { kind: Kind::Ntfy, url: "https://ntfy.sh/my-topic".into(), token: None }
}

#[test]
fn only_approvals_and_completions_push() {
    assert!(is_notable(Category::ApprovalRequired));
    assert!(is_notable(Category::TaskComplete));
    assert!(!is_notable(Category::ToolRunning));
    assert!(!is_notable(Category::ToolFinished));
    assert!(!is_notable(Category::SessionStarted));
}

#[test]
fn ntfy_puts_the_title_in_a_header() {
    let req = build_request(&ntfy(), "Approve: Bash", "foo");
    assert_eq!(req.url, "https://ntfy.sh/my-topic");
    assert!(req.headers.contains(&("Title".into(), "Approve: Bash".into())));
    assert_eq!(req.body, "foo");
    // No token configured, no Authorization header.
    assert!(!req.headers.iter().any(|(n, _)| n == "Authorization"));
}

#[test]
fn ntfy_title_survives_a_multiline_agent_message() {
    let req = build_request(&ntfy(), "The agent needs\r\npermission", "foo");
    let title = req
        .headers
        .iter()
        .find(|(n, _)| n == "Title")
        .map(|(_, v)| v.clone())
        .unwrap();
    assert!(!title.contains('\n') && !title.contains('\r'));
}

#[test]
fn ntfy_token_becomes_a_bearer_header() {
    let config = Config { token: Some("tk_secret".into()), ..ntfy() };
    let req = build_request(&config, "t", "b");
    assert!(req.headers.contains(&("Authorization".into(), "Bearer tk_secret".into())));
}

#[test]
fn gotify_puts_the_token_in_the_query_and_json_in_the_body() {
    let config = Config {
        kind: Kind::Gotify,
        url: "https://gotify.example/".into(),
        token: Some("AppToken".into()),
    };
    let req = build_request(&config, "Approve: Bash", "foo");
    assert_eq!(req.url, "https://gotify.example/message?token=AppToken");
    let body = json::parse(&req.body).unwrap();
    assert_eq!(body.get_str("title"), Some("Approve: Bash"));
    assert_eq!(body.get_str("message"), Some("foo"));
}

#[test]
fn unifiedpush_gets_json_in_the_body() {
    let config = Config {
        kind: Kind::UnifiedPush,
        url: "https://up.example/x".into(),
        token: None,
    };
    let req = build_request(&config, "t\"", "b");
    assert_eq!(req.url, "https://up.example/x");
    let body = json::parse(&req.body).unwrap();
    assert_eq!(body.get_str("title"), Some("t\""));
    assert_eq!(body.get_str("message"), Some("b"));
}

#[test]
fn project_paths_shorten_to_their_last_segment() {
    assert_eq!(short_project("/Users/x/projects/foo"), "foo");
    assert_eq!(short_project("/Users/x/projects/foo/"), "foo");
    assert_eq!(short_project("foo"), "foo");
}

#[test]
fn kind_parse_roundtrip() {
    for k in [Kind::Ntfy, Kind::Gotify, Kind::UnifiedPush] {
        assert_eq!(Kind::parse(k.as_str()), Some(k));
    }
    assert_eq!(Kind::parse("apns"), None);
}

#[test]
fn a_header_stays_on_one_line() {
    assert_eq!(header_safe("a\r\nb\n"), "a  b");
    assert_eq!(header_safe("plain"), "plain");
}

#[test]
fn a_row_is_described_by_its_title_and_project() {
    let mut event = Event::new(Category::TaskComplete, "codex", "Task complete");
    event.project = Some("/Users/x/projects/foo".into());
    let (title, body) = describe(&Row::from_event(&event, 0));
    assert_eq!(title, "Task complete");
    assert!(body.contains("foo"));
    assert!(!body.contains("/Users"));
}

#[test]
fn the_configuration_has_its_place() {
    assert_eq!(config_path(Some("/home/u/.config")).unwrap(), "/home/u/.config/sailor/push.json");
    assert_eq!(config_path(None).unwrap_err(), DirError::NoConfigDir);
}

#[test]
fn push_is_configured_only_with_what_the_endpoint_needs() {
    let c = configure("https://x".into(), "ntfy", None).unwrap();
    assert_eq!((c.kind, c.url.as_str(), c.token), (Kind::Ntfy, "https://x", None));
    assert_eq!(
        configure("https://x".into(), "gotify", None).unwrap_err(),
        "gotify needs an application token — pass --token"
    );
    assert!(configure("https://x".into(), "gotify", Some("t".into())).is_ok());
    assert_eq!(
        configure("https://x".into(), "apns", None).unwrap_err(),
        "unknown push kind `apns` (ntfy|gotify|unifiedpush)"
    );
    assert_eq!(saved_line(Kind::Gotify, "/p"), "push: saved gotify config to /p");
}

#[test]
fn showing_the_configuration_never_prints_the_token() {
    let lines = show(&Some(Config { token: Some("tk_secret".into()), ..ntfy() }));
    assert_eq!(lines, vec!["push: ntfy → https://ntfy.sh/my-topic", "  token:    set"]);
    assert_eq!(
        show(&None),
        vec![
            "push: not configured",
            "  sailor-hook push --set https://ntfy.sh/<your-topic>"
        ]
    );
}
