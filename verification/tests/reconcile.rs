//! The reconciler: creation plans, update plans, invariants and round trips.

use cheese_trackers_server::model::{
    ApGame, ApGameIden, ApHint, ApTracker, AvailabilityStatus, CompletionStatus,
    HintClassification, PingPreference, ProgressionStatus, TrackerGameStatus,
};
use cheese_trackers_server::parse::{Checks, Game, Hint};
use cheese_trackers_server::reconcile::{
    plan_new_tracker, plan_update, synchronize_tracker, ReconcilePlan, TrackerState,
};
use cheese_trackers_server::sync::TrackerUpdateError;

fn parsed_game(position: u32, name: &str, game: &str, done: u32, total: u32) -> Game {
    Game {
        position,
        name: name.to_owned(),
        game: game.to_owned(),
        status: TrackerGameStatus::Playing,
        checks: Checks { completed: done, total },
        last_activity: Some(30_000),
    }
}

fn parsed_hint(finder: &str, receiver: &str, item: &str, found: bool) -> Hint {
    Hint {
        finder: finder.to_owned(),
        receiver: receiver.to_owned(),
        item: item.to_owned(),
        location: "Chest".to_owned(),
        entrance: "Vanilla".to_owned(),
        found,
    }
}

fn stored_tracker(now: i64) -> ApTracker {
    ApTracker {
        id: 10,
        tracker_id: 77,
        updated_at: now,
        title: String::new(),
        description: String::new(),
        owner_ct_user_id: None,
        lock_settings: false,
        upstream_url: "https://upstream.example/tracker/x".to_owned(),
        global_ping_policy: None,
        room_link: String::new(),
        last_port: None,
        next_port_check_at: None,
        inactivity_threshold_yellow_hours: 24,
        inactivity_threshold_red_hours: 48,
        require_authentication_to_claim: false,
    }
}

fn stored_game(id: i32, position: i32, name: &str, done: i32, total: i32, now: i64) -> ApGame {
    ApGame {
        id,
        tracker_id: 10,
        position,
        name: name.to_owned(),
        game: "ALTTP".to_owned(),
        tracker_status: TrackerGameStatus::Playing,
        checks_done: done,
        checks_total: total,
        last_activity: Some(now - 30_000),
        discord_username: None,
        discord_ping: PingPreference::Never,
        last_checked: None,
        notes: String::new(),
        claimed_by_ct_user_id: None,
        availability_status: AvailabilityStatus::Unknown,
        completion_status: CompletionStatus::Incomplete,
        progression_status: ProgressionStatus::Unknown,
        effective_discord_username: None,
        user_is_away: false,
    }
}

fn stored_hint(id: i32, finder: i32, item: &str, found: bool) -> ApHint {
    ApHint {
        id,
        finder_game_id: finder,
        receiver_game_id: Some(finder),
        item: item.to_owned(),
        location: "Chest".to_owned(),
        entrance: "Vanilla".to_owned(),
        found,
        classification: HintClassification::Unset,
        item_link_name: String::new(),
    }
}

const NOW: i64 = 1_700_000_000_000;

#[test]
fn end_to_end_creation_from_parsed_records() {
    let games = vec![parsed_game(1, "Alice", "ALTTP", 5, 20)];
    let hints = vec![parsed_hint("Alice", "Bob", "Sword", false)];
    let plan = match synchronize_tracker(None, NOW, "https://u.example/t/x", &games, &hints) {
        Ok(ReconcilePlan::Create(p)) => p,
        other => panic!("expected a creation plan, got {other:?}"),
    };
    assert_eq!(plan.tracker.upstream_url, "https://u.example/t/x");
    assert_eq!(plan.tracker.updated_at, NOW);
    assert_eq!(plan.tracker.title, "");
    assert_eq!(plan.games.len(), 1);
    let g = &plan.games[0];
    assert_eq!(g.position, 1);
    assert_eq!(g.name, "Alice");
    assert_eq!(g.checks_done, 5);
    assert_eq!(g.checks_total, 20);
    assert_eq!(g.completion_status, CompletionStatus::Incomplete);
    assert_eq!(g.last_activity, Some(NOW - 30_000));
    assert_eq!(g.discord_ping, PingPreference::Never);
    assert_eq!(plan.hints.len(), 1);
    let h = &plan.hints[0];
    assert_eq!(h.finder_game, 0);
    // "Bob" names no slot: the receiver stays unresolved and the label is
    // preserved as the item-link name.
    assert_eq!(h.receiver_game, None);
    assert_eq!(h.item_link_name, "Bob");
    assert_eq!(h.item, "Sword");
    assert!(!h.found);
    assert_eq!(h.classification, HintClassification::Unset);
}

#[test]
fn creation_fails_on_hint_with_unknown_finder() {
    let games = vec![parsed_game(1, "Alice", "ALTTP", 5, 20)];
    let hints = vec![parsed_hint("Mallory", "Alice", "Sword", false)];
    let err = plan_new_tracker(77, NOW, "u", &games, &hints).unwrap_err();
    match err {
        TrackerUpdateError::HintGameMissing(name) => assert_eq!(name, "Mallory"),
        other => panic!("unexpected error {other:?}"),
    }
}

#[test]
fn creation_fails_on_position_overflow() {
    let games = vec![parsed_game(3_000_000_000, "Alice", "ALTTP", 5, 20)];
    let err = plan_new_tracker(77, NOW, "u", &games, &vec![]).unwrap_err();
    match err {
        TrackerUpdateError::NumericConversion(p) => assert_eq!(p, 3_000_000_000),
        other => panic!("unexpected error {other:?}"),
    }
}

#[test]
fn slot_count_change_is_fatal() {
    let tracker = stored_tracker(NOW - 600_000);
    let db_games = vec![stored_game(1, 1, "Alice", 5, 20, NOW)];
    let games = vec![
        parsed_game(1, "Alice", "ALTTP", 5, 20),
        parsed_game(2, "Bob", "OOT", 0, 9),
    ];
    let err = plan_update(NOW, &tracker, db_games, vec![], &games, &vec![]).unwrap_err();
    match err {
        TrackerUpdateError::GameCountMismatch { tracker: t, database: d } => {
            assert_eq!(t, 2);
            assert_eq!(d, 1);
        }
        other => panic!("unexpected error {other:?}"),
    }
}

#[test]
fn changed_total_checks_is_an_immutability_violation() {
    // Stored slot at position 3 with 10 total checks; upstream now reports 12.
    let tracker = stored_tracker(NOW - 600_000);
    let db_games = vec![stored_game(1, 3, "Alice", 5, 10, NOW)];
    let games = vec![parsed_game(3, "Alice", "ALTTP", 5, 12)];
    let err = plan_update(NOW, &tracker, db_games, vec![], &games, &vec![]).unwrap_err();
    match err {
        TrackerUpdateError::GameInformationMismatch(p) => assert_eq!(p, 3),
        other => panic!("unexpected error {other:?}"),
    }
}

#[test]
fn changed_game_name_is_an_immutability_violation() {
    let tracker = stored_tracker(NOW - 600_000);
    let db_games = vec![stored_game(1, 1, "Alice", 5, 20, NOW)];
    let mut games = vec![parsed_game(1, "Alice", "ALTTP", 5, 20)];
    games[0].game = "OOT".to_owned();
    let err = plan_update(NOW, &tracker, db_games, vec![], &games, &vec![]).unwrap_err();
    assert!(matches!(err, TrackerUpdateError::GameInformationMismatch(1)));
}

#[test]
fn hint_multiset_updates_exactly_one_duplicate() {
    // Two identical stored hints, both not found; upstream reports one found
    // and one not: exactly one row is rewritten, never both, never neither.
    let tracker = stored_tracker(NOW - 600_000);
    let db_games = vec![
        stored_game(1, 1, "A", 5, 20, NOW),
        stored_game(2, 2, "B", 5, 20, NOW),
    ];
    let db_hints = vec![stored_hint(100, 1, "item1", false), stored_hint(101, 1, "item1", false)];
    let games = vec![parsed_game(1, "A", "ALTTP", 5, 20), parsed_game(2, "B", "ALTTP", 5, 20)];
    // The stored hints have receiver id 1 = slot "A".
    let mut h1 = parsed_hint("A", "A", "item1", true);
    h1.location = "Chest".to_owned();
    let h2 = parsed_hint("A", "A", "item1", false);
    let hints = vec![h1, h2];
    let plan = plan_update(NOW, &tracker, db_games, db_hints, &games, &hints).unwrap();
    assert_eq!(plan.hint_updates.len(), 1);
    assert_eq!(plan.hint_updates[0].hint.id, 100);
    assert!(plan.hint_updates[0].hint.found);
    assert!(plan.hint_updates[0].audit.is_some());
    assert!(plan.new_hints.is_empty());
    assert!(plan.stale_hint_ids.is_empty());
}

#[test]
fn unmatched_stored_hints_are_stale_and_unmatched_parsed_hints_are_new() {
    let tracker = stored_tracker(NOW - 600_000);
    let db_games = vec![stored_game(1, 1, "A", 5, 20, NOW)];
    let db_hints = vec![stored_hint(100, 1, "old-item", false)];
    let games = vec![parsed_game(1, "A", "ALTTP", 5, 20)];
    let hints = vec![parsed_hint("A", "A", "new-item", true)];
    let plan = plan_update(NOW, &tracker, db_games, db_hints, &games, &hints).unwrap();
    assert!(plan.hint_updates.is_empty());
    assert_eq!(plan.new_hints.len(), 1);
    assert_eq!(plan.new_hints[0].item, "new-item");
    assert_eq!(plan.new_hints[0].finder_game_id, 1);
    assert!(plan.new_hints[0].found);
    assert_eq!(plan.stale_hint_ids, vec![100]);
}

#[test]
fn update_writes_progress_and_keeps_user_fields() {
    let tracker = stored_tracker(NOW - 600_000);
    let mut db_game = stored_game(1, 1, "Alice", 5, 20, NOW - 600_000);
    db_game.notes = "my notes".to_owned();
    db_game.claimed_by_ct_user_id = Some(42);
    let games = vec![parsed_game(1, "Alice2", "ALTTP", 20, 20)];
    let plan = plan_update(NOW, &tracker, vec![db_game], vec![], &games, &vec![]).unwrap();
    assert_eq!(plan.game_updates.len(), 1);
    let u = &plan.game_updates[0];
    assert_eq!(u.game.name, "Alice2");
    assert_eq!(u.game.checks_done, 20);
    assert_eq!(u.game.completion_status, CompletionStatus::AllChecks);
    assert_eq!(u.game.notes, "my notes");
    assert_eq!(u.game.claimed_by_ct_user_id, Some(42));
    assert!(u.audit.is_some());
    assert_eq!(
        u.columns,
        vec![
            ApGameIden::Name,
            ApGameIden::TrackerStatus,
            ApGameIden::ChecksDone,
            ApGameIden::LastActivity,
            ApGameIden::CompletionStatus,
        ]
    );
    assert_eq!(plan.tracker.updated_at, NOW);
    // Only the freshness marker moved, and it is not audited.
    assert!(plan.tracker_audit.is_none());
}

#[test]
fn last_activity_jitter_under_a_minute_is_suppressed() {
    let tracker = stored_tracker(NOW - 600_000);
    // Stored timestamp differs from the newly derived one by 59 seconds.
    let db_game = stored_game(1, 1, "Alice", 5, 20, NOW - 59_000);
    let games = vec![parsed_game(1, "Alice", "ALTTP", 5, 20)];
    let plan = plan_update(NOW, &tracker, vec![db_game], vec![], &games, &vec![]).unwrap();
    let u = &plan.game_updates[0];
    assert_eq!(u.game.last_activity, Some(NOW - 59_000 - 30_000));
    assert_eq!(
        u.columns,
        vec![ApGameIden::Name, ApGameIden::TrackerStatus, ApGameIden::ChecksDone]
    );
    assert!(u.audit.is_none());
}

#[test]
fn round_trip_second_pass_is_silent() {
    // First pass: create from parsed records.
    let games = vec![
        parsed_game(1, "Alice", "ALTTP", 5, 20),
        parsed_game(2, "Bob", "OOT", 0, 9),
    ];
    let hints = vec![
        parsed_hint("Alice", "Bob", "Sword", false),
        parsed_hint("Alice", "Bob", "Sword", false),
        parsed_hint("Bob", "Nobody", "Bow", true),
    ];
    let plan = plan_new_tracker(77, NOW, "https://u.example/t/x", &games, &hints).unwrap();

    // Apply the plan by hand, as a store would: ids assigned in order.
    let tracker = ApTracker {
        id: 1,
        tracker_id: plan.tracker.tracker_id,
        updated_at: plan.tracker.updated_at,
        title: plan.tracker.title.clone(),
        description: plan.tracker.description.clone(),
        owner_ct_user_id: plan.tracker.owner_ct_user_id,
        lock_settings: plan.tracker.lock_settings,
        upstream_url: plan.tracker.upstream_url.clone(),
        global_ping_policy: plan.tracker.global_ping_policy,
        room_link: plan.tracker.room_link.clone(),
        last_port: plan.tracker.last_port,
        next_port_check_at: plan.tracker.next_port_check_at,
        inactivity_threshold_yellow_hours: plan.tracker.inactivity_threshold_yellow_hours,
        inactivity_threshold_red_hours: plan.tracker.inactivity_threshold_red_hours,
        require_authentication_to_claim: plan.tracker.require_authentication_to_claim,
    };
    let db_games: Vec<ApGame> = plan
        .games
        .iter()
        .enumerate()
        .map(|(i, g)| ApGame {
            id: (i + 1) as i32,
            tracker_id: 1,
            position: g.position,
            name: g.name.clone(),
            game: g.game.clone(),
            tracker_status: g.tracker_status,
            checks_done: g.checks_done,
            checks_total: g.checks_total,
            last_activity: g.last_activity,
            discord_username: g.discord_username.clone(),
            discord_ping: g.discord_ping,
            last_checked: g.last_checked,
            notes: g.notes.clone(),
            claimed_by_ct_user_id: g.claimed_by_ct_user_id,
            availability_status: g.availability_status,
            completion_status: g.completion_status,
            progression_status: g.progression_status,
            effective_discord_username: g.effective_discord_username.clone(),
            user_is_away: g.user_is_away,
        })
        .collect();
    let db_hints: Vec<ApHint> = plan
        .hints
        .iter()
        .enumerate()
        .map(|(i, h)| ApHint {
            id: (i + 100) as i32,
            finder_game_id: db_games[h.finder_game].id,
            receiver_game_id: h.receiver_game.map(|r| db_games[r].id),
            item: h.item.clone(),
            location: h.location.clone(),
            entrance: h.entrance.clone(),
            found: h.found,
            classification: h.classification,
            item_link_name: h.item_link_name.clone(),
        })
        .collect();

    // Second pass: byte-identical input against the created state.
    let state = TrackerState { tracker, games: db_games, hints: db_hints };
    let plan2 = match synchronize_tracker(
        Some(state),
        NOW,
        "https://u.example/t/x",
        &games,
        &hints,
    ) {
        Ok(ReconcilePlan::Update(p)) => p,
        other => panic!("expected an update plan, got {other:?}"),
    };
    for u in plan2.game_updates.iter() {
        assert!(u.audit.is_none());
    }
    assert!(plan2.hint_updates.is_empty());
    assert!(plan2.new_hints.is_empty());
    assert!(plan2.stale_hint_ids.is_empty());
    assert!(plan2.tracker_audit.is_none());
}

#[test]
fn update_pairs_slots_by_position_after_sorting() {
    let tracker = stored_tracker(NOW - 600_000);
    // Stored rows arrive out of order; pairing is by sorted position.
    let db_games = vec![
        stored_game(2, 2, "Bob", 1, 9, NOW),
        stored_game(1, 1, "Alice", 5, 20, NOW),
    ];
    let games = vec![
        parsed_game(1, "Alice", "ALTTP", 6, 20),
        parsed_game(2, "Bob", "ALTTP", 2, 9),
    ];
    let plan = plan_update(NOW, &tracker, db_games, vec![], &games, &vec![]).unwrap();
    assert_eq!(plan.game_updates.len(), 2);
    assert_eq!(plan.game_updates[0].game.id, 1);
    assert_eq!(plan.game_updates[0].game.checks_done, 6);
    assert_eq!(plan.game_updates[1].game.id, 2);
    assert_eq!(plan.game_updates[1].game.checks_done, 2);
}

#[test]
fn update_then_update_is_silent() {
    // First pass: an update that rewrites a found flag, creates a hint and
    // deletes a stale one.  Applying it and reconciling the same input again
    // must change nothing.
    let tracker = stored_tracker(NOW - 600_000);
    let db_games = vec![
        stored_game(1, 1, "A", 4, 20, NOW),
        stored_game(2, 2, "B", 5, 20, NOW),
    ];
    let db_hints = vec![
        stored_hint(100, 1, "item1", false),
        stored_hint(101, 1, "stale-item", false),
    ];
    let games = vec![
        parsed_game(1, "A", "ALTTP", 5, 20),
        parsed_game(2, "B", "ALTTP", 5, 20),
    ];
    let hints = vec![
        parsed_hint("A", "A", "item1", true),
        parsed_hint("B", "Nobody", "fresh-item", false),
    ];
    let plan = plan_update(NOW, &tracker, db_games.clone(), db_hints.clone(), &games, &hints)
        .unwrap();

    // Apply the plan as a store would.
    let mut tracker2 = tracker.clone();
    tracker2.updated_at = plan.tracker.updated_at;
    let mut games2: Vec<ApGame> = plan.game_updates.iter().map(|u| u.game.clone()).collect();
    games2.sort_by_key(|g| g.id);
    let mut hints2: Vec<ApHint> = db_hints
        .iter()
        .filter(|h| !plan.stale_hint_ids.contains(&h.id))
        .map(|h| {
            plan.hint_updates
                .iter()
                .find(|u| u.hint.id == h.id)
                .map(|u| u.hint.clone())
                .unwrap_or_else(|| h.clone())
        })
        .collect();
    let mut next_id = 200;
    for ins in plan.new_hints.iter() {
        hints2.push(ApHint {
            id: next_id,
            finder_game_id: ins.finder_game_id,
            receiver_game_id: ins.receiver_game_id,
            item: ins.item.clone(),
            location: ins.location.clone(),
            entrance: ins.entrance.clone(),
            found: ins.found,
            classification: ins.classification,
            item_link_name: ins.item_link_name.clone(),
        });
        next_id += 1;
    }

    let plan2 = plan_update(NOW, &tracker2, games2, hints2, &games, &hints).unwrap();
    for u in plan2.game_updates.iter() {
        assert!(u.audit.is_none());
    }
    assert!(plan2.hint_updates.is_empty());
    assert!(plan2.new_hints.is_empty());
    assert!(plan2.stale_hint_ids.is_empty());
    assert!(plan2.tracker_audit.is_none());
}
