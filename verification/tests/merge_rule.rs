//! The status merge rule, checked over every combination.

use cheese_trackers_server::model::CompletionStatus;

use CompletionStatus::{AllChecks, Done, Goal, Incomplete, Released};

const ALL: [CompletionStatus; 5] = [Incomplete, AllChecks, Goal, Done, Released];

/// The precedence table, spelled out.
fn expected(a: CompletionStatus, b: CompletionStatus) -> CompletionStatus {
    match (a, b) {
        (Released, _) | (_, Released) => Released,
        (Incomplete, x) | (x, Incomplete) => x,
        (Done, _) | (_, Done) => Done,
        (AllChecks, Goal) | (Goal, AllChecks) => Done,
        (Goal, Goal) => Goal,
        (AllChecks, AllChecks) => AllChecks,
    }
}

#[test]
fn merge_is_total_and_matches_the_precedence_table() {
    for &a in ALL.iter() {
        for &b in ALL.iter() {
            assert_eq!(a.merge_with(b), expected(a, b));
        }
    }
}

#[test]
fn merge_is_commutative() {
    for &a in ALL.iter() {
        for &b in ALL.iter() {
            assert_eq!(a.merge_with(b), b.merge_with(a));
        }
    }
}

#[test]
fn released_absorbs_everything() {
    for &x in ALL.iter() {
        assert_eq!(Released.merge_with(x), Released);
        assert_eq!(x.merge_with(Released), Released);
    }
}

#[test]
fn incomplete_yields_to_the_other_side() {
    for &x in ALL.iter() {
        assert_eq!(Incomplete.merge_with(x), x);
        assert_eq!(x.merge_with(Incomplete), x);
    }
}

#[test]
fn all_checks_and_goal_make_done() {
    assert_eq!(AllChecks.merge_with(Goal), Done);
    assert_eq!(Goal.merge_with(AllChecks), Done);
}
