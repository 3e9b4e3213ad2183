use prometheus::db::{ConfigStore, Features, StoreError, WelcomeConfig};
use prometheus::discord::{
    command_text, member_join_plan, route_intent, should_handle, top_intent, ToggleDirection,
};

#[test]
fn enable_then_disable_welcome() {
    let mut store = ConfigStore::new();
    let reply = Features::enable_str(&mut store, 10, &vec![], 20, true, "welcome_enable", 0)
        .unwrap();
    assert!(reply.contains("the welcome messages"));
    assert!(reply.contains("hath been ushered into existence"));
    assert_eq!(
        store.get_welcome(10, 0),
        Some(WelcomeConfig {
            server_id: 10,
            channel_id: 20
        })
    );

    let reply = Features::disable_str(&mut store, 10, 20, true, "welcome_disable", 0);
    assert!(reply.contains("remaineth disabled"));
    assert_eq!(store.get_welcome(10, 0), None);
}

#[test]
fn enable_uses_the_mentioned_channel() {
    let mut store = ConfigStore::new();
    Features::enable_str(&mut store, 10, &vec![77, 88], 20, true, "welcome_enable", 0).unwrap();
    assert_eq!(
        store.get_welcome(10, 0),
        Some(WelcomeConfig {
            server_id: 10,
            channel_id: 77
        })
    );
}

#[test]
fn toggles_on_missing_feature_still_confirm() {
    // Disabling a feature that was never enabled confirms all the
    // same, and enabling into an empty store succeeds: neither side
    // of the toggle falls over.
    let mut store = ConfigStore::new();
    let reply = Features::disable_str(&mut store, 1, 2, true, "welcome_disable", 0);
    assert!(reply.contains("the welcome messages"));
    assert!(reply.contains("remaineth disabled"));
    assert_eq!(store.get_welcome(1, 0), None);

    let reply = Features::enable_str(&mut store, 1, &vec![], 2, true, "welcome_enable", 0);
    assert!(reply.unwrap().contains("the welcome messages"));
}

#[test]
fn enabling_twice_surfaces_the_conflict() {
    let mut store = ConfigStore::new();
    assert!(Features::enable_str(&mut store, 1, &vec![], 2, true, "welcome_enable", 0).is_ok());
    assert_eq!(
        Features::enable_str(&mut store, 1, &vec![], 2, true, "welcome_enable", 0),
        Err(StoreError::UniqueViolation)
    );
}

#[test]
fn toggles_without_authority_change_nothing() {
    let mut store = ConfigStore::new();
    let reply = Features::enable_str(&mut store, 1, &vec![], 2, false, "welcome_enable", 0)
        .unwrap();
    assert!(reply.contains("permissions requisite"));
    assert_eq!(store.get_welcome(1, 0), None);

    store.create_welcome(
        WelcomeConfig {
            server_id: 1,
            channel_id: 2,
        },
        0,
    )
    .unwrap();
    let reply = Features::disable_str(&mut store, 1, 2, false, "welcome_disable", 0);
    assert!(reply.contains("permissions requisite"));
    assert_eq!(
        store.get_welcome(1, 0),
        Some(WelcomeConfig {
            server_id: 1,
            channel_id: 2
        })
    );
}

#[test]
fn unknown_features_change_nothing() {
    let mut store = ConfigStore::new();
    let reply = Features::enable_str(&mut store, 1, &vec![], 2, true, "time_travel_enable", 0)
        .unwrap();
    assert!(reply.contains("Most wondrous and esteemed Sir"));
    assert_eq!(store.get_welcome(1, 0), None);

    let reply = Features::disable_str(&mut store, 1, 2, true, "time_travel_disable", 0);
    assert!(reply.contains("Most wondrous and esteemed Sir"));
}

#[test]
fn confirmation_templates_name_the_feature() {
    let w = Features::Welcome(WelcomeConfig {
        server_id: 1,
        channel_id: 2,
    });
    let on = w.enable_successful();
    assert!(on.starts_with("My distinguished lord,"));
    assert!(on.contains("namely the welcome messages, hath been ushered"));
    let off = w.disable_successful();
    assert!(off.starts_with("Honorable Sir,"));
    assert!(off.contains("the welcome messages by name, hath been deemed unfit"));
}

#[test]
fn classified_message_creates_the_record() {
    // A command message, classified as the enable intent and sent by
    // a caller with authority, ends in a welcome record for the
    // mentioned channel and a confirmation reply.
    let content = ".turn on welcome in #general";
    assert!(should_handle(content, false, false));
    assert_eq!(command_text(content), "turn on welcome in #general");

    // The classifier's ordered candidates for that text.
    let intents = vec!["welcome_enable".to_string()];
    let top = top_intent(&intents).unwrap();
    assert_eq!(route_intent(&top), Some(ToggleDirection::Enable));

    let mut store = ConfigStore::new();
    let general_channel = 111;
    let reply =
        Features::enable_str(&mut store, 42, &vec![general_channel], 5, true, &top, 0).unwrap();
    assert_eq!(
        store.get_welcome(42, 0),
        Some(WelcomeConfig {
            server_id: 42,
            channel_id: general_channel
        })
    );
    assert!(reply.contains("the welcome messages"));
}

#[test]
fn member_join_without_settings_uploads_nothing() {
    assert!(member_join_plan(&None, 1, 2).is_none());
}

#[test]
fn silent_or_foreign_messages_are_not_handled() {
    assert!(!should_handle("turn on welcome", false, false));
    assert!(!should_handle("", false, false));
    assert!(!should_handle(".turn on welcome", true, false));
    assert!(!should_handle(".turn on welcome", false, true));
    assert!(should_handle(". padded command ", false, false));
    assert_eq!(command_text(". padded command "), "padded command");
}

#[test]
fn intent_routing_ignores_other_suffixes() {
    assert_eq!(route_intent("welcome_enable"), Some(ToggleDirection::Enable));
    assert_eq!(
        route_intent("welcome_disable"),
        Some(ToggleDirection::Disable)
    );
    assert_eq!(route_intent("greet"), None);
    assert_eq!(route_intent(""), None);
    assert!(top_intent(&vec![]).is_none());
}
