//! Field diffs, audit entries and the model helpers.

use cheese_trackers_server::diff::{audit_for_game, audit_for_tracker, AuditEntity, FieldDiff};
use cheese_trackers_server::model::{
    ApGame, ApTracker, AvailabilityStatus, CompletionStatus, CtUser, PingPreference,
    ProgressionStatus, TokenPayload, TrackerGameStatus, UpdateCompletionStatus, UserSettings,
};

fn game() -> ApGame {
    ApGame {
        id: 5,
        tracker_id: 1,
        position: 1,
        name: "Alice".to_owned(),
        game: "ALTTP".to_owned(),
        tracker_status: TrackerGameStatus::Playing,
        checks_done: 5,
        checks_total: 20,
        last_activity: None,
        discord_username: None,
        discord_ping: PingPreference::Never,
        last_checked: None,
        notes: String::new(),
        claimed_by_ct_user_id: None,
        availability_status: AvailabilityStatus::Unknown,
        completion_status: CompletionStatus::Incomplete,
        progression_status: ProgressionStatus::Unknown,
        effective_discord_username: None,
        user_is_away: false,
    }
}

fn tracker() -> ApTracker {
    ApTracker {
        id: 1,
        tracker_id: 9,
        updated_at: 0,
        title: "t".to_owned(),
        description: String::new(),
        owner_ct_user_id: None,
        lock_settings: false,
        upstream_url: "u".to_owned(),
        global_ping_policy: None,
        room_link: String::new(),
        last_port: None,
        next_port_check_at: None,
        inactivity_threshold_yellow_hours: 24,
        inactivity_threshold_red_hours: 48,
        require_authentication_to_claim: false,
    }
}

#[test]
fn field_diff_keeps_only_changes() {
    assert!(FieldDiff::new(1, 1).is_none());
    let d = FieldDiff::new(1, 2).unwrap();
    assert_eq!(d.old, 1);
    assert_eq!(d.new, 2);
    assert!(FieldDiff::new_cloned(&"a".to_owned(), &"a".to_owned()).is_none());
    let d2 = FieldDiff::new_cloned(&"a".to_owned(), &"b".to_owned()).unwrap();
    assert_eq!(d2.old, "a");
    assert_eq!(d2.new, "b");
}

#[test]
fn unchanged_rows_produce_no_audit_entry() {
    assert!(audit_for_game(7, &game(), &game()).is_none());
}

#[test]
fn changed_rows_produce_an_audit_entry_without_an_actor() {
    let mut new = game();
    new.checks_done = 6;
    let e = audit_for_game(7, &game(), &new).unwrap();
    assert_eq!(e.entity, AuditEntity::Game);
    assert_eq!(e.entity_id, 5);
    assert_eq!(e.changed_at, 7);
    assert_eq!(e.actor_ct_user_id, None);
    assert_eq!(e.actor_ipaddr, None);
    assert_eq!(e.auth_source, None);
}

#[test]
fn freshness_marker_and_port_fields_are_not_audited() {
    let mut new = tracker();
    new.updated_at = 999;
    new.last_port = Some(5);
    new.next_port_check_at = Some(1);
    assert!(audit_for_tracker(7, &tracker(), &new).is_none());
    let mut renamed = tracker();
    renamed.title = "renamed".to_owned();
    assert!(audit_for_tracker(7, &tracker(), &renamed).is_some());
}

#[test]
fn completion_status_force_upgrade_reports_changes() {
    let mut g = game();
    g.checks_done = 20;
    // All checks are complete: the stored Incomplete is upgraded.
    assert!(g.update_completion_status());
    assert_eq!(g.completion_status, CompletionStatus::AllChecks);
    // Doing it again changes nothing.
    assert!(!g.update_completion_status());
    assert_eq!(g.completion_status, CompletionStatus::AllChecks);
    // A released slot is never downgraded by automation.
    let mut r = game();
    r.completion_status = CompletionStatus::Released;
    assert!(!r.update_completion_status());
    assert_eq!(r.completion_status, CompletionStatus::Released);
}

#[test]
fn user_settings_apply_only_their_field() {
    let mut user = CtUser {
        id: 1,
        discord_access_token: "SECRET-REDACTED".to_owned(),
        discord_access_token_expires_at: 0,
        discord_refresh_token: "SECRET-REDACTED".to_owned(),
        discord_username: "alice".to_owned(),
        discord_user_id: 42,
        api_key: None,
        is_away: false,
    };
    UserSettings { is_away: true }.apply_to(&mut user);
    assert!(user.is_away);
    assert_eq!(user.discord_username, "alice");
    assert!(UserSettings::read_from(&user).is_away);
}

#[test]
fn token_payload_carries_issue_and_expiry() {
    let p = TokenPayload::new(7, 1_000, 600, "issuer".to_owned());
    assert_eq!(p.sub, 7);
    assert_eq!(p.iat, 1_000);
    assert_eq!(p.exp, 1_600);
    assert_eq!(p.iss, "issuer");
}
