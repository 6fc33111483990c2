use avalon_sdk::account::{format_rfc3339, parse_rfc3339};
use avalon_sdk::error::SdkError;
use avalon_sdk::integrators::IntegratorsListSort;
use avalon_sdk::types::integrators::IntegratorCategory;
use avalon_sdk::types::permissions::Capability;

#[test]
fn known_variants_map_to_their_permanent_wire_string() {
    let expected: &[(Capability, &str)] = &[
        (Capability::IdentityRead, "identity.read"),
        (Capability::ProfileRead, "profile.read"),
        (Capability::FriendsRead, "friends.read"),
        (Capability::PresenceRead, "presence.read"),
        (Capability::PresencePublish, "presence.publish"),
        (Capability::GuildsRead, "guilds.read"),
        (Capability::GuildsChat, "guilds.chat"),
        (Capability::GuildsIssue, "guilds.issue"),
        (Capability::AchievementsRead, "achievements.read"),
        (Capability::AchievementsIssue, "achievements.issue"),
        (Capability::MilestonesIssue, "milestones.issue"),
        (Capability::AssetsRead, "assets.read"),
        (Capability::AssetsIssue, "assets.issue"),
        (Capability::WalletRead, "wallet.read"),
        (Capability::WalletWrite, "wallet.write"),
        (Capability::MessagesRead, "messages.read"),
        (Capability::MessagesSend, "messages.send"),
    ];
    assert_eq!(expected.len(), Capability::known().len());
    for (capability, wire) in expected {
        assert_eq!(capability.as_str(), *wire);
    }
}

#[test]
fn every_known_variant_round_trips_through_its_string() {
    for capability in Capability::known() {
        let round_tripped = Capability::parse(capability.as_str());
        assert_eq!(round_tripped, capability);
    }
}

#[test]
fn an_unrecognized_string_round_trips_through_other_with_no_data_loss() {
    let capability = Capability::parse("some.future.capability");
    assert_eq!(
        capability,
        Capability::Other("some.future.capability".to_string())
    );
    assert_eq!(capability.as_str(), "some.future.capability");
}

#[test]
fn known_capabilities_come_in_their_permanent_order() {
    let known = Capability::known();
    assert_eq!(known.len(), 17);
    assert_eq!(known[0], Capability::IdentityRead);
    assert_eq!(known[16], Capability::MessagesSend);
}

#[test]
fn same_compares_known_variants_and_other_text() {
    assert!(Capability::FriendsRead.same(&Capability::parse("friends.read")));
    assert!(!Capability::FriendsRead.same(&Capability::PresenceRead));
    assert!(Capability::Other("x.y".to_string()).same(&Capability::Other("x.y".to_string())));
    assert!(!Capability::Other("x.y".to_string()).same(&Capability::Other("x.z".to_string())));
    assert!(!Capability::Other("friends.read".to_string()).same(&Capability::FriendsRead));
}

#[test]
fn every_category_round_trips_through_its_wire_string() {
    for category in [
        IntegratorCategory::Game,
        IntegratorCategory::App,
        IntegratorCategory::Service,
    ] {
        assert_eq!(IntegratorCategory::parse(category.as_str()), Some(category));
    }
    assert_eq!(IntegratorCategory::parse("website"), None);
}

#[test]
fn claim_kind_splits_games_from_everything_else() {
    assert_eq!(IntegratorCategory::Game.claim_kind(), "achievement");
    assert_eq!(IntegratorCategory::App.claim_kind(), "milestone");
    assert_eq!(IntegratorCategory::Service.claim_kind(), "milestone");
}

#[test]
fn the_default_category_is_game() {
    assert_eq!(IntegratorCategory::default(), IntegratorCategory::Game);
}

#[test]
fn integrators_list_sort_maps_to_the_server_s_query_vocabulary() {
    assert_eq!(IntegratorsListSort::Newest.as_query_str(), "newest");
    assert_eq!(IntegratorsListSort::Name.as_query_str(), "name");
}

#[test]
fn rfc3339_timestamps_parse_and_format() {
    assert_eq!(parse_rfc3339("2026-01-01T00:00:00Z").unwrap(), 1_767_225_600_000_000_000);
    assert_eq!(parse_rfc3339("2026-01-01T01:00:00+01:00").unwrap(), 1_767_225_600_000_000_000);
    match parse_rfc3339("nope") {
        Err(SdkError::Protocol(m)) => assert!(m.starts_with("invalid RFC3339 timestamp \"nope\": ")),
        other => panic!("unexpected {other:?}"),
    }
    assert_eq!(format_rfc3339(0).unwrap(), "1970-01-01T00:00:00Z");
    assert_eq!(format_rfc3339(1_767_225_600_000_000_000).unwrap(), "2026-01-01T00:00:00Z");
}
