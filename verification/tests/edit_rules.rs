//! The rules for user-initiated edits.

use cheese_trackers_server::edits::{
    apply_game_update, apply_hint_update, apply_tracker_update, finish_room_link_update,
    EditError, IfOwnerIs, IfOwnerIsCondition, PortAction, UpdateGameRequest, UpdateHintRequest,
    UpdateTrackerRequest,
};
use cheese_trackers_server::model::{
    ApGame, ApHint, ApTracker, AvailabilityStatus, CompletionStatus, HintClassification,
    PingPreference, ProgressionStatus, TrackerGameStatus,
};
use cheese_trackers_server::sync::GetRoomLinkError;

fn game() -> ApGame {
    ApGame {
        id: 5,
        tracker_id: 1,
        position: 1,
        name: "Alice".to_owned(),
        game: "ALTTP".to_owned(),
        tracker_status: TrackerGameStatus::Playing,
        checks_done: 20,
        checks_total: 20,
        last_activity: None,
        discord_username: None,
        discord_ping: PingPreference::Never,
        last_checked: None,
        notes: String::new(),
        claimed_by_ct_user_id: None,
        availability_status: AvailabilityStatus::Unknown,
        completion_status: CompletionStatus::AllChecks,
        progression_status: ProgressionStatus::Unknown,
        effective_discord_username: None,
        user_is_away: false,
    }
}

fn tracker() -> ApTracker {
    ApTracker {
        id: 1,
        tracker_id: 9,
        updated_at: 0,
        title: "t".to_owned(),
        description: String::new(),
        owner_ct_user_id: None,
        lock_settings: false,
        upstream_url: "u".to_owned(),
        global_ping_policy: None,
        room_link: String::new(),
        last_port: None,
        next_port_check_at: None,
        inactivity_threshold_yellow_hours: 24,
        inactivity_threshold_red_hours: 48,
        require_authentication_to_claim: false,
    }
}

fn game_request() -> UpdateGameRequest {
    UpdateGameRequest {
        claimed_by_ct_user_id: None,
        discord_username: None,
        discord_ping: PingPreference::Never,
        availability_status: AvailabilityStatus::Unknown,
        completion_status: CompletionStatus::AllChecks,
        progression_status: ProgressionStatus::Unknown,
        last_checked: None,
        notes: String::new(),
    }
}

const NO_PRE: IfOwnerIs = IfOwnerIs { condition: None };

#[test]
fn failed_owner_precondition_rejects_the_edit() {
    let pre = IfOwnerIs {
        condition: Some(IfOwnerIsCondition {
            claimed_by_ct_user_id: Some(99),
            discord_username: None,
        }),
    };
    let r = apply_game_update(0, None, None, &tracker(), &game(), game_request(), Some(1), &pre);
    assert!(matches!(r, Err(EditError::PreconditionFailed)));
}

#[test]
fn claim_change_requires_a_precondition() {
    let mut req = game_request();
    req.claimed_by_ct_user_id = Some(1);
    let r = apply_game_update(0, None, None, &tracker(), &game(), req, Some(1), &NO_PRE);
    assert!(matches!(r, Err(EditError::PreconditionRequired)));
}

fn matching_pre() -> IfOwnerIs {
    IfOwnerIs {
        condition: Some(IfOwnerIsCondition {
            claimed_by_ct_user_id: None,
            discord_username: None,
        }),
    }
}

#[test]
fn claiming_for_someone_else_is_forbidden() {
    let mut req = game_request();
    req.claimed_by_ct_user_id = Some(2);
    let r = apply_game_update(0, None, None, &tracker(), &game(), req, Some(1), &matching_pre());
    assert!(matches!(r, Err(EditError::Forbidden)));
}

#[test]
fn claiming_while_unauthenticated_is_unauthorized() {
    let mut req = game_request();
    req.claimed_by_ct_user_id = Some(2);
    let r = apply_game_update(0, None, None, &tracker(), &game(), req, None, &matching_pre());
    assert!(matches!(r, Err(EditError::Unauthorized)));
}

#[test]
fn unauthenticated_claim_is_forbidden_when_authentication_is_required() {
    let mut t = tracker();
    t.require_authentication_to_claim = true;
    let mut req = game_request();
    req.discord_username = Some("somebody".to_owned());
    let r = apply_game_update(0, None, None, &t, &game(), req, None, &matching_pre());
    assert!(matches!(r, Err(EditError::Forbidden)));
}

#[test]
fn accepted_claim_upgrades_completion_and_audits() {
    let mut req = game_request();
    req.claimed_by_ct_user_id = Some(1);
    req.discord_username = Some("ignored".to_owned());
    req.completion_status = CompletionStatus::Goal;
    req.notes = "hello".to_owned();
    let edit =
        apply_game_update(7, None, None, &tracker(), &game(), req, Some(1), &matching_pre())
            .unwrap();
    assert_eq!(edit.game.claimed_by_ct_user_id, Some(1));
    // An authenticated claim never keeps the unauthenticated name.
    assert_eq!(edit.game.discord_username, None);
    // All 20 of 20 checks are complete, so the requested goal-only status is
    // force-upgraded.
    assert_eq!(edit.game.completion_status, CompletionStatus::Done);
    assert_eq!(edit.game.notes, "hello");
    // Synchronization-owned fields stay.
    assert_eq!(edit.game.checks_done, 20);
    let audit = edit.audit.expect("changed fields must be audited");
    assert_eq!(audit.actor_ct_user_id, Some(1));
    assert_eq!(audit.changed_at, 7);
}

#[test]
fn no_op_edit_produces_no_audit() {
    let edit =
        apply_game_update(0, None, None, &tracker(), &game(), game_request(), Some(1), &NO_PRE)
            .unwrap();
    assert!(edit.audit.is_none());
}

#[test]
fn hint_classification_edit_audits_only_changes() {
    let hint = ApHint {
        id: 3,
        finder_game_id: 5,
        receiver_game_id: None,
        item: "Sword".to_owned(),
        location: "Chest".to_owned(),
        entrance: "Vanilla".to_owned(),
        found: false,
        classification: HintClassification::Unset,
        item_link_name: "Bob".to_owned(),
    };
    let e1 = apply_hint_update(
        1,
        None,
        None,
        &hint,
        UpdateHintRequest { classification: HintClassification::Critical },
        Some(4),
    );
    assert_eq!(e1.hint.classification, HintClassification::Critical);
    assert_eq!(e1.hint.found, false);
    assert!(e1.audit.is_some());
    let e2 = apply_hint_update(
        1,
        None,
        None,
        &hint,
        UpdateHintRequest { classification: HintClassification::Unset },
        Some(4),
    );
    assert!(e2.audit.is_none());
}

fn tracker_request() -> UpdateTrackerRequest {
    UpdateTrackerRequest {
        title: "t".to_owned(),
        description: String::new(),
        owner_ct_user_id: None,
        lock_settings: false,
        global_ping_policy: None,
        room_link: String::new(),
        inactivity_threshold_yellow_hours: 24,
        inactivity_threshold_red_hours: 48,
        require_authentication_to_claim: false,
    }
}

#[test]
fn misordered_thresholds_are_unprocessable() {
    let mut req = tracker_request();
    req.inactivity_threshold_yellow_hours = 50;
    let r = apply_tracker_update(&tracker(), req, Some(1));
    assert!(matches!(r, Err(EditError::Unprocessable)));
}

#[test]
fn claiming_a_resource_requires_the_matching_user() {
    let mut req = tracker_request();
    req.owner_ct_user_id = Some(2);
    assert!(matches!(apply_tracker_update(&tracker(), req, None), Err(EditError::Unauthorized)));
    let mut req2 = tracker_request();
    req2.owner_ct_user_id = Some(2);
    assert!(matches!(
        apply_tracker_update(&tracker(), req2, Some(1)),
        Err(EditError::Forbidden)
    ));
}

#[test]
fn owner_can_lock_and_describe() {
    let mut req = tracker_request();
    req.owner_ct_user_id = Some(1);
    req.lock_settings = true;
    req.description = "mine".to_owned();
    req.require_authentication_to_claim = true;
    req.title = "new title".to_owned();
    let edit = apply_tracker_update(&tracker(), req, Some(1)).unwrap();
    assert_eq!(edit.tracker.owner_ct_user_id, Some(1));
    assert!(edit.tracker.lock_settings);
    assert_eq!(edit.tracker.description, "mine");
    assert!(edit.tracker.require_authentication_to_claim);
    assert_eq!(edit.tracker.title, "new title");
    assert_eq!(edit.port_action, PortAction::Keep);
}

#[test]
fn non_owner_may_not_lock_or_describe() {
    let mut req = tracker_request();
    req.lock_settings = true;
    assert!(matches!(
        apply_tracker_update(&tracker(), req, Some(1)),
        Err(EditError::Forbidden)
    ));
    let mut req2 = tracker_request();
    req2.description = "sneaky".to_owned();
    assert!(matches!(
        apply_tracker_update(&tracker(), req2, Some(1)),
        Err(EditError::Forbidden)
    ));
}

#[test]
fn locked_settings_stop_non_owner_edits() {
    let mut t = tracker();
    t.owner_ct_user_id = Some(9);
    t.lock_settings = true;
    let mut req = tracker_request();
    req.owner_ct_user_id = Some(9);
    req.title = "other".to_owned();
    assert!(matches!(apply_tracker_update(&t, req, Some(1)), Err(EditError::Forbidden)));
}

#[test]
fn room_link_changes_drive_the_port_action() {
    let mut req = tracker_request();
    req.room_link = "https://host.example/room/abc".to_owned();
    let edit = apply_tracker_update(&tracker(), req, None).unwrap();
    assert_eq!(edit.port_action, PortAction::Fetch);
    assert_eq!(edit.tracker.room_link, "https://host.example/room/abc");

    let mut t2 = tracker();
    t2.room_link = "https://host.example/room/abc".to_owned();
    let mut req2 = tracker_request();
    req2.room_link = String::new();
    let edit2 = apply_tracker_update(&t2, req2, None).unwrap();
    assert_eq!(edit2.port_action, PortAction::Clear);
}

#[test]
fn finishing_a_room_link_update_records_or_schedules() {
    let t = tracker();
    let ok = finish_room_link_update(t, Ok((38281, 1_000_000)), Some(500_000)).unwrap();
    assert_eq!(ok.last_port, Some(38281));
    assert_eq!(ok.next_port_check_at, Some(1_000_000));

    let t2 = tracker();
    assert!(matches!(
        finish_room_link_update(t2, Err(GetRoomLinkError::InvalidRoomLink), None),
        Err(EditError::Unprocessable)
    ));

    let t3 = tracker();
    let fallback = finish_room_link_update(
        t3,
        Err(GetRoomLinkError::ApiRequest(None)),
        Some(500_000),
    )
    .unwrap();
    assert_eq!(fallback.last_port, None);
    assert_eq!(fallback.next_port_check_at, Some(500_000));
}
