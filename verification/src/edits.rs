//! Rules for user-initiated edits: who may change which fields of a tracked
//! resource, a slot or a hint, and what each accepted edit writes.
//!
//! These are pure decision functions; the surrounding request handling and
//! the store calls live with the caller, which loads the current rows, hands
//! them in with the request, and applies the accepted result.

use vstd::prelude::*;

use crate::diff::{
    game_fieldwise_diff, hint_fieldwise_diff, tracker_fieldwise_diff, game_diff_empty,
    hint_diff_empty, tracker_diff_empty, opt_str_view, AuditDiff, AuditEntity, AuditEntry, IsEmpty,
};
use crate::model::{
    ApGame, ApHint, ApTracker, AuthenticationSource, AvailabilityStatus, CompletionStatus,
    HintClassification, PingPreference, ProgressionStatus, UpdateCompletionStatus,
    clone_opt_string, merged_completion_status, AutoStatusInputs,
};
use crate::sync::GetRoomLinkError;

verus! {

/// Request body for creating or refreshing a tracked resource by its
/// upstream URL.
#[derive(Debug)]
pub struct CreateTrackerRequest {
    pub url: String,
}

/// Request body for completing an authentication attempt.
#[derive(Debug)]
pub struct CompleteAuthRequest {
    pub code: String,
    pub state: String,
    pub continuation_token: String,
}

/// Request body for updating a tracked resource's settings.
#[derive(Debug)]
pub struct UpdateTrackerRequest {
    pub title: String,
    pub description: String,
    pub owner_ct_user_id: Option<i32>,
    pub lock_settings: bool,
    pub global_ping_policy: Option<PingPreference>,
    pub room_link: String,
    pub inactivity_threshold_yellow_hours: i32,
    pub inactivity_threshold_red_hours: i32,
    pub require_authentication_to_claim: bool,
}

/// Request body for updating a slot's user-owned fields.
#[derive(Debug)]
pub struct UpdateGameRequest {
    pub claimed_by_ct_user_id: Option<i32>,
    pub discord_username: Option<String>,
    pub discord_ping: PingPreference,
    pub availability_status: AvailabilityStatus,
    pub completion_status: CompletionStatus,
    pub progression_status: ProgressionStatus,
    pub last_checked: Option<i64>,
    pub notes: String,
}

/// Request body for updating a hint's classification.
#[derive(Debug)]
pub struct UpdateHintRequest {
    pub classification: HintClassification,
}

/// A per-user dashboard override, or its absence.
#[derive(Debug, Clone, Copy, PartialEq, Eq, Structural)]
pub struct DashboardOverrideStatus {
    pub visibility: Option<bool>,
}

/// The claim-ownership precondition a slot edit may carry, to prevent one
/// user's claim from clobbering another's.
#[derive(Debug)]
pub struct IfOwnerIs {
    pub condition: Option<IfOwnerIsCondition>,
}

/// The expected current owner of a slot.
#[derive(Debug)]
pub struct IfOwnerIsCondition {
    pub claimed_by_ct_user_id: Option<i32>,
    pub discord_username: Option<String>,
}

/// Whether a slot's current owner is the expected one.
pub open spec fn owner_condition_matches(c: IfOwnerIsCondition, game: ApGame) -> bool {
    c.claimed_by_ct_user_id == game.claimed_by_ct_user_id && opt_str_view(c.discord_username)
        == opt_str_view(game.discord_username)
}

impl IfOwnerIsCondition {
    /// Decides [`owner_condition_matches`].
    pub fn matches(&self, game: &ApGame) -> (r: bool)
        ensures
            r == owner_condition_matches(*self, *game),
    {
        let ids_eq = match (self.claimed_by_ct_user_id, game.claimed_by_ct_user_id) {
            (None, None) => true,
            (Some(a), Some(b)) => a == b,
            _ => false,
        };
        let names_eq = match (&self.discord_username, &game.discord_username) {
            (None, None) => true,
            (Some(a), Some(b)) => a.eq(b),
            _ => false,
        };
        ids_eq && names_eq
    }
}

/// Why an edit was rejected.
#[derive(Debug, Clone, Copy, PartialEq, Eq, Structural)]
pub enum EditError {
    /// The edit needs an authenticated user.
    Unauthorized,
    /// The authenticated user may not make this edit.
    Forbidden,
    /// The carried owner precondition does not hold.
    PreconditionFailed,
    /// A claim change needs an owner precondition.
    PreconditionRequired,
    /// The request values are unusable.
    Unprocessable,
}

/// An accepted slot edit: the new row and the audit entry for the change.
#[derive(Debug)]
pub struct GameEdit {
    pub game: ApGame,
    pub audit: Option<AuditEntry>,
}

/// Whether the request moves the claim: it changes the claiming user or the
/// unauthenticated claim name.
pub open spec fn claim_changing(req: UpdateGameRequest, game: ApGame) -> bool {
    req.claimed_by_ct_user_id != game.claimed_by_ct_user_id || opt_str_view(req.discord_username)
        != opt_str_view(game.discord_username)
}

/// What an accepted slot edit writes: the user-owned fields take the request
/// values; the unauthenticated claim name is dropped when an authenticated
/// user claims; the completion status is the request value force-upgraded by
/// the stored progress; everything synchronization owns keeps its value.
pub open spec fn game_edit_applied(
    u: GameEdit,
    now: i64,
    old: ApGame,
    req: UpdateGameRequest,
    user_id: Option<i32>,
) -> bool {
    let new_username = if req.claimed_by_ct_user_id is Some {
        None
    } else {
        opt_str_view(req.discord_username)
    };
    let merged = merged_completion_status(
        AutoStatusInputs {
            checks_done: old.checks_done,
            checks_total: old.checks_total,
            tracker_status: old.tracker_status,
        },
        req.completion_status,
    );
    &&& u.game.id == old.id
    &&& u.game.tracker_id == old.tracker_id
    &&& u.game.position == old.position
    &&& u.game.name@ == old.name@
    &&& u.game.game@ == old.game@
    &&& u.game.tracker_status == old.tracker_status
    &&& u.game.checks_done == old.checks_done
    &&& u.game.checks_total == old.checks_total
    &&& u.game.last_activity == old.last_activity
    &&& opt_str_view(u.game.discord_username) == new_username
    &&& u.game.discord_ping == req.discord_ping
    &&& u.game.last_checked == req.last_checked
    &&& u.game.notes@ == req.notes@
    &&& u.game.claimed_by_ct_user_id == req.claimed_by_ct_user_id
    &&& u.game.availability_status == req.availability_status
    &&& u.game.completion_status == merged
    &&& u.game.progression_status == req.progression_status
    &&& opt_str_view(u.game.effective_discord_username) == opt_str_view(
        old.effective_discord_username,
    )
    &&& u.game.user_is_away == old.user_is_away
    &&& (u.audit is Some <==> !game_diff_empty(old, u.game))
    &&& (u.audit matches Some(e) ==> e.entity is Game && e.entity_id == old.id && e.changed_at
        == now && e.actor_ct_user_id == user_id && e.diff is Game)
}

/// What editing a slot yields, in the order the rules are checked: a carried
/// owner precondition that does not hold fails; a claim change without one
/// is rejected; claiming for a user other than the authenticated one is
/// forbidden (or unauthorized when nobody is authenticated); a new
/// unauthenticated claim is forbidden when the resource requires
/// authentication to claim; otherwise the edit is applied.
pub open spec fn game_edit_outcome_ok(
    r: Result<GameEdit, EditError>,
    now: i64,
    tracker: ApTracker,
    old: ApGame,
    req: UpdateGameRequest,
    user_id: Option<i32>,
    pre: IfOwnerIs,
) -> bool {
    if pre.condition matches Some(c) && !owner_condition_matches(c, old) {
        r matches Err(EditError::PreconditionFailed)
    } else if claim_changing(req, old) && pre.condition is None {
        r matches Err(EditError::PreconditionRequired)
    } else if req.claimed_by_ct_user_id != old.claimed_by_ct_user_id
        && (req.claimed_by_ct_user_id matches Some(id) && !(user_id matches Some(u) && u == id)) {
        if user_id is Some {
            r matches Err(EditError::Forbidden)
        } else {
            r matches Err(EditError::Unauthorized)
        }
    } else if req.claimed_by_ct_user_id is None && opt_str_view(req.discord_username)
        != opt_str_view(old.discord_username) && tracker.require_authentication_to_claim
        && req.discord_username is Some {
        r matches Err(EditError::Forbidden)
    } else {
        r matches Ok(u) && game_edit_applied(u, now, old, req, user_id)
    }
}

/// Applies a user's edit to a slot's user-owned fields, as
/// [`game_edit_outcome_ok`] describes.
pub fn apply_game_update(
    now: i64,
    actor_ipaddr: Option<String>,
    auth_source: Option<AuthenticationSource>,
    tracker: &ApTracker,
    old: &ApGame,
    req: UpdateGameRequest,
    user_id: Option<i32>,
    pre: &IfOwnerIs,
) -> (r: Result<GameEdit, EditError>)
    ensures
        game_edit_outcome_ok(r, now, *tracker, *old, req, user_id, *pre),
{
    let has_precondition = match &pre.condition {
        Some(expected) => {
            if !expected.matches(old) {
                return Err(EditError::PreconditionFailed);
            }
            true
        },
        None => false,
    };
    let ids_changing = match (req.claimed_by_ct_user_id, old.claimed_by_ct_user_id) {
        (None, None) => false,
        (Some(a), Some(b)) => a != b,
        _ => true,
    };
    let names_changing = !match (&req.discord_username, &old.discord_username) {
        (None, None) => true,
        (Some(a), Some(b)) => a.eq(b),
        _ => false,
    };
    if (ids_changing || names_changing) && !has_precondition {
        return Err(EditError::PreconditionRequired);
    }
    if ids_changing {
        let claiming_other = match (req.claimed_by_ct_user_id, user_id) {
            (Some(id), Some(u)) => u != id,
            (Some(_), None) => true,
            (None, _) => false,
        };
        if claiming_other {
            return Err(
                if user_id.is_some() {
                    EditError::Forbidden
                } else {
                    EditError::Unauthorized
                },
            );
        }
    }
    let new_username: Option<String> = match req.claimed_by_ct_user_id {
        Some(_) => None,
        None => {
            if names_changing && tracker.require_authentication_to_claim
                && req.discord_username.is_some() {
                return Err(EditError::Forbidden);
            }
            clone_opt_string(&req.discord_username)
        },
    };
    let mut game = old.clone();
    game.discord_username = new_username;
    game.claimed_by_ct_user_id = req.claimed_by_ct_user_id;
    game.discord_ping = req.discord_ping;
    game.availability_status = req.availability_status;
    game.completion_status = req.completion_status;
    game.progression_status = req.progression_status;
    game.last_checked = req.last_checked;
    game.notes = req.notes;
    game.update_completion_status();
    let d = game_fieldwise_diff(old, &game);
    let audit = if d.is_empty() {
        None
    } else {
        Some(
            AuditEntry {
                entity: AuditEntity::Game,
                entity_id: old.id,
                changed_at: now,
                actor_ipaddr,
                actor_ct_user_id: user_id,
                auth_source,
                diff: AuditDiff::Game(d),
            },
        )
    };
    Ok(GameEdit { game, audit })
}

/// An accepted hint edit: the new row and the audit entry for the change.
#[derive(Debug)]
pub struct HintEdit {
    pub hint: ApHint,
    pub audit: Option<AuditEntry>,
}

/// Applies a user's edit to a hint's classification, the one hint field
/// users own; every other field keeps its value, and an audit entry exists
/// exactly when the classification changed.
pub fn apply_hint_update(
    now: i64,
    actor_ipaddr: Option<String>,
    auth_source: Option<AuthenticationSource>,
    old: &ApHint,
    req: UpdateHintRequest,
    user_id: Option<i32>,
) -> (r: HintEdit)
    ensures
        r.hint.id == old.id,
        r.hint.finder_game_id == old.finder_game_id,
        r.hint.receiver_game_id == old.receiver_game_id,
        r.hint.item@ == old.item@,
        r.hint.location@ == old.location@,
        r.hint.entrance@ == old.entrance@,
        r.hint.found == old.found,
        r.hint.classification == req.classification,
        r.hint.item_link_name@ == old.item_link_name@,
        r.audit is Some <==> old.classification != req.classification,
        r.audit matches Some(e) ==> e.entity is Hint && e.entity_id == old.id && e.changed_at
            == now && e.actor_ct_user_id == user_id && e.diff is Hint,
{
    let mut hint = old.clone();
    hint.classification = req.classification;
    let d = hint_fieldwise_diff(old, &hint);
    let audit = if d.is_empty() {
        None
    } else {
        Some(
            AuditEntry {
                entity: AuditEntity::Hint,
                entity_id: old.id,
                changed_at: now,
                actor_ipaddr,
                actor_ct_user_id: user_id,
                auth_source,
                diff: AuditDiff::Hint(d),
            },
        )
    };
    HintEdit { hint, audit }
}

/// What the caller must still do about the room-link port bookkeeping after
/// a resource edit.
#[derive(Debug, Clone, Copy, PartialEq, Eq, Structural)]
pub enum PortAction {
    /// The room link did not change: leave the port fields alone.
    Keep,
    /// The room link was cleared: clear the port fields.
    Clear,
    /// The room link changed to a new room: fetch its port.
    Fetch,
}

/// An accepted resource edit: the new row (its port fields still untouched),
/// and what to do about them.
#[derive(Debug)]
pub struct TrackerEdit {
    pub tracker: ApTracker,
    pub port_action: PortAction,
}

/// What an accepted resource edit writes, before the port bookkeeping:
/// ownership, lock and description per the permission rules, the plain
/// settings from the request, and the new room link.
pub open spec fn tracker_edit_applied(
    t: ApTracker,
    old: ApTracker,
    req: UpdateTrackerRequest,
    user_id: Option<i32>,
) -> bool {
    let is_owner = req.owner_ct_user_id matches Some(uid) && user_id matches Some(u) && uid == u;
    &&& t.id == old.id
    &&& t.tracker_id == old.tracker_id
    &&& t.updated_at == old.updated_at
    &&& t.title@ == req.title@
    &&& t.owner_ct_user_id == req.owner_ct_user_id
    &&& t.upstream_url@ == old.upstream_url@
    &&& t.global_ping_policy == req.global_ping_policy
    &&& t.room_link@ == req.room_link@
    &&& t.last_port == old.last_port
    &&& t.next_port_check_at == old.next_port_check_at
    &&& t.inactivity_threshold_yellow_hours == req.inactivity_threshold_yellow_hours
    &&& t.inactivity_threshold_red_hours == req.inactivity_threshold_red_hours
    &&& (if is_owner {
        t.lock_settings == req.lock_settings && t.description@ == req.description@
            && t.require_authentication_to_claim == (req.lock_settings
            && req.require_authentication_to_claim)
    } else {
        !t.lock_settings && !t.require_authentication_to_claim && t.description@
            == old.description@
    })
}

/// What editing a resource's settings yields, in the order the rules are
/// checked: inactivity thresholds must be ordered and nonnegative; a change
/// of ownership must be the authenticated user claiming or disclaiming for
/// themselves; the owner may change anything, with the
/// authentication-to-claim switch tied to locked settings; anyone else may
/// edit only while settings are unlocked, and may not lock them, change the
/// description or require authentication.
pub open spec fn tracker_edit_outcome_ok(
    r: Result<TrackerEdit, EditError>,
    old: ApTracker,
    req: UpdateTrackerRequest,
    user_id: Option<i32>,
) -> bool {
    if req.inactivity_threshold_yellow_hours < 0 || req.inactivity_threshold_red_hours < 0
        || req.inactivity_threshold_yellow_hours > req.inactivity_threshold_red_hours {
        r matches Err(EditError::Unprocessable)
    } else if req.owner_ct_user_id != old.owner_ct_user_id && user_id is None {
        r matches Err(EditError::Unauthorized)
    } else if req.owner_ct_user_id != old.owner_ct_user_id && !(match (
        old.owner_ct_user_id,
        req.owner_ct_user_id,
    ) {
        (None, Some(uid)) => user_id == Some(uid),
        (Some(uid), None) => user_id == Some(uid),
        _ => false,
    }) {
        r matches Err(EditError::Forbidden)
    } else {
        let owner_after = req.owner_ct_user_id;
        let is_owner = owner_after matches Some(uid) && user_id matches Some(u) && uid == u;
        if is_owner {
            if !req.lock_settings && !old.require_authentication_to_claim
                && req.require_authentication_to_claim {
                r matches Err(EditError::Forbidden)
            } else {
                r matches Ok(t) && tracker_edit_applied(t.tracker, old, req, user_id)
                    && port_action_ok(t.port_action, old, req)
            }
        } else if owner_after is Some && old.lock_settings {
            r matches Err(EditError::Forbidden)
        } else {
            if req.lock_settings || req.description@ != old.description@
                || req.require_authentication_to_claim {
                r matches Err(EditError::Forbidden)
            } else {
                r matches Ok(t) && tracker_edit_applied(t.tracker, old, req, user_id)
                    && port_action_ok(t.port_action, old, req)
            }
        }
    }
}

/// The port bookkeeping an accepted edit calls for: nothing when the room
/// link is unchanged, clearing when it was emptied, a fetch when it points
/// to a new room.
pub open spec fn port_action_ok(a: PortAction, old: ApTracker, req: UpdateTrackerRequest) -> bool {
    if req.room_link@ == old.room_link@ {
        a is Keep
    } else if req.room_link@.len() == 0 {
        a is Clear
    } else {
        a is Fetch
    }
}

/// Applies a user's edit to a resource's settings, as
/// [`tracker_edit_outcome_ok`] describes.  The returned row still carries
/// the old port fields; the caller finishes them as the returned action
/// says, fetching through [`finish_room_link_update`] when asked to.
pub fn apply_tracker_update(
    old: &ApTracker,
    req: UpdateTrackerRequest,
    user_id: Option<i32>,
) -> (r: Result<TrackerEdit, EditError>)
    ensures
        tracker_edit_outcome_ok(r, *old, req, user_id),
{
    if req.inactivity_threshold_yellow_hours < 0 || req.inactivity_threshold_red_hours < 0
        || req.inactivity_threshold_yellow_hours > req.inactivity_threshold_red_hours {
        return Err(EditError::Unprocessable);
    }
    let owner_changing = match (req.owner_ct_user_id, old.owner_ct_user_id) {
        (None, None) => false,
        (Some(a), Some(b)) => a != b,
        _ => true,
    };
    if owner_changing {
        let u = match user_id {
            None => {
                return Err(EditError::Unauthorized);
            },
            Some(u) => u,
        };
        let valid_change = match (old.owner_ct_user_id, req.owner_ct_user_id) {
            (None, Some(uid)) => uid == u,
            (Some(uid), None) => uid == u,
            _ => false,
        };
        if !valid_change {
            return Err(EditError::Forbidden);
        }
    }
    let is_owner = match (req.owner_ct_user_id, user_id) {
        (Some(uid), Some(u)) => uid == u,
        _ => false,
    };
    let mut tracker = old.clone();
    tracker.owner_ct_user_id = req.owner_ct_user_id;
    if is_owner {
        if !req.lock_settings && !old.require_authentication_to_claim
            && req.require_authentication_to_claim {
            return Err(EditError::Forbidden);
        }
        tracker.lock_settings = req.lock_settings;
        tracker.description = req.description;
        tracker.require_authentication_to_claim = req.lock_settings
            && req.require_authentication_to_claim;
    } else {
        if req.owner_ct_user_id.is_some() && old.lock_settings {
            return Err(EditError::Forbidden);
        }
        if req.lock_settings || !req.description.eq(&old.description)
            || req.require_authentication_to_claim {
            return Err(EditError::Forbidden);
        }
        tracker.lock_settings = false;
        tracker.require_authentication_to_claim = false;
    }
    tracker.title = req.title;
    tracker.global_ping_policy = req.global_ping_policy;
    tracker.inactivity_threshold_yellow_hours = req.inactivity_threshold_yellow_hours;
    tracker.inactivity_threshold_red_hours = req.inactivity_threshold_red_hours;
    let port_action = if req.room_link.eq(&old.room_link) {
        PortAction::Keep
    } else if req.room_link.as_str().unicode_len() == 0 {
        PortAction::Clear
    } else {
        PortAction::Fetch
    };
    tracker.room_link = req.room_link;
    Ok(TrackerEdit { tracker, port_action })
}

/// Finishes a resource edit whose room link changed to a new room, given
/// what fetching the room's port returned: an invalid link is unusable; any
/// other fetch failure leaves the port unknown and schedules the fallback
/// check; success records the port and the next check.
pub fn finish_room_link_update(
    tracker: ApTracker,
    fetched: Result<(u16, i64), GetRoomLinkError>,
    fallback_check_at: Option<i64>,
) -> (r: Result<ApTracker, EditError>)
    ensures
        match fetched {
            Ok(pc) => r matches Ok(t) && t == (ApTracker {
                last_port: Some(pc.0 as i32),
                next_port_check_at: Some(pc.1),
                ..tracker
            }),
            Err(e) => {
                if e is UrlParse || e is InvalidRoomLink {
                    r matches Err(EditError::Unprocessable)
                } else {
                    r matches Ok(t) && t == (ApTracker {
                        last_port: None,
                        next_port_check_at: fallback_check_at,
                        ..tracker
                    })
                }
            },
        },
{
    let mut tracker = tracker;
    match fetched {
        Ok((port, check)) => {
            tracker.last_port = Some(port as i32);
            tracker.next_port_check_at = Some(check);
            Ok(tracker)
        },
        Err(GetRoomLinkError::UrlParse) | Err(GetRoomLinkError::InvalidRoomLink) => Err(
            EditError::Unprocessable,
        ),
        Err(_) => {
            tracker.last_port = None;
            tracker.next_port_check_at = fallback_check_at;
            Ok(tracker)
        },
    }
}

/// An accepted resource edit paired with its audit entry, built against the
/// row as it stood before the edit.
pub fn audit_for_tracker_edit(
    now: i64,
    actor_ipaddr: Option<String>,
    auth_source: Option<AuthenticationSource>,
    user_id: Option<i32>,
    old: &ApTracker,
    new: &ApTracker,
) -> (r: Option<AuditEntry>)
    ensures
        r is Some <==> !tracker_diff_empty(*old, *new),
        r matches Some(e) ==> e.entity is Tracker && e.entity_id == old.id && e.changed_at == now
            && e.actor_ct_user_id == user_id && e.diff is Tracker,
{
    let d = tracker_fieldwise_diff(old, new);
    if d.is_empty() {
        None
    } else {
        Some(
            AuditEntry {
                entity: AuditEntity::Tracker,
                entity_id: old.id,
                changed_at: now,
                actor_ipaddr,
                actor_ct_user_id: user_id,
                auth_source,
                diff: AuditDiff::Tracker(d),
            },
        )
    }
}

} // verus!
