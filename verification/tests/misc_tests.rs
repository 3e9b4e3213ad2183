use prometheus::config::{Config, DatabaseAuthentificationTokens, DatabasesURIs, Tokens};
use prometheus::db::WelcomeConfig;
use prometheus::discord::{member_join_plan, parse_debug_command, welcome_file_name, DebugCommand};
use prometheus::wit::{bearer_header, message_url};

#[test]
fn welcome_file_is_named_by_the_digest() {
    let name = welcome_file_name(1, 2);
    assert_eq!(name, format!("{}.png", sha256::digest("12")));
    // Different members get different files.
    assert_ne!(welcome_file_name(1, 2), welcome_file_name(2, 1));
}

#[test]
fn member_join_with_settings_plans_the_upload() {
    let conf = WelcomeConfig {
        server_id: 1,
        channel_id: 9,
    };
    let plan = member_join_plan(&Some(conf), 1, 2).unwrap();
    assert_eq!(plan.channel_id, 9);
    assert_eq!(plan.file_name, format!("{}.png", sha256::digest("12")));
}

#[test]
fn debug_lines_are_parsed_from_trimmed_text() {
    assert_eq!(parse_debug_command("?//d welcome"), Some(DebugCommand::Welcome));
    assert_eq!(
        parse_debug_command("  ?//d welcome  "),
        Some(DebugCommand::Welcome)
    );
    assert_eq!(parse_debug_command("?//d nope"), Some(DebugCommand::Invalid));
    assert_eq!(parse_debug_command("hello there"), None);
}

#[test]
fn classifier_url_is_percent_encoded() {
    assert_eq!(
        message_url("turn on welcome", &None),
        "https://api.wit.ai/message?q=turn%20on%20welcome"
    );
    assert_eq!(
        message_url("q", &Some("{\"a\":1}".to_string())),
        "https://api.wit.ai/message?q=q%7B%22a%22%3A1%7D"
    );
    assert_eq!(bearer_header("tok"), "Bearer tok");
}

#[test]
fn untouched_config_is_refused_as_unconfigured() {
    let blank = Config::default();
    assert!(blank.is_unconfigured());

    let filled = Config {
        tokens: Tokens {
            discord: "d".to_string(),
            google: "g".to_string(),
            wit: "w".to_string(),
        },
        databases: DatabasesURIs::default(),
        auth: DatabaseAuthentificationTokens::default(),
    };
    assert!(!filled.is_unconfigured());
}
