//! Record types mirrored from the store, and the completion-status merge rule.

use vstd::prelude::*;

verus! {

/// Completion status of one slot.
///
/// All of the statuses other than `Released` capture the four possibilities of
/// "all checks complete" and "goal complete":
///
/// | All checks | Goal complete | Status       |
/// |------------|---------------|--------------|
/// | No         | No            | `Incomplete` |
/// | Yes        | No            | `AllChecks`  |
/// | No         | Yes           | `Goal`       |
/// | Yes        | Yes           | `Done`       |
///
/// `Released` records an out-of-band manual decision that automation must
/// never overwrite.
#[derive(Debug, Clone, Copy, PartialEq, Eq, Structural)]
pub enum CompletionStatus {
    Incomplete,
    AllChecks,
    Goal,
    Done,
    Released,
}

/// What [`CompletionStatus::merge_with`] returns, for every pair of statuses.
///
/// Precedence, applied in this exact order: `Released` is sticky; `Incomplete`
/// yields to the other side; `Done` wins over the rest; `AllChecks` combined
/// with `Goal` makes `Done`; equal sides remain themselves.
pub open spec fn merge_status(a: CompletionStatus, b: CompletionStatus) -> CompletionStatus {
    if a is Released || b is Released {
        CompletionStatus::Released
    } else if a is Incomplete {
        b
    } else if b is Incomplete {
        a
    } else if a is Done || b is Done {
        CompletionStatus::Done
    } else if a != b {
        // One side is AllChecks and the other Goal.
        CompletionStatus::Done
    } else {
        a
    }
}

impl CompletionStatus {
    /// Merges two completion statuses.
    ///
    /// This is used by the code that determines whether to automatically
    /// change a slot's completion state: the automatically-determined status is
    /// merged with whatever the status was before, which might have been set
    /// manually.
    pub fn merge_with(self, other: CompletionStatus) -> (r: CompletionStatus)
        ensures
            r == merge_status(self, other),
    {
        match (self, other) {
            (Self::Released, _) | (_, Self::Released) => Self::Released,
            (Self::Incomplete, x) | (x, Self::Incomplete) => x,
            (Self::Done, _) | (_, Self::Done) => Self::Done,
            (Self::AllChecks, Self::Goal) | (Self::Goal, Self::AllChecks) => Self::Done,
            (Self::Goal, Self::Goal) => Self::Goal,
            (Self::AllChecks, Self::AllChecks) => Self::AllChecks,
        }
    }
}

/// The merge rule is total and `Released` is absorbing: every combination of
/// two statuses merges to a status, merging is commutative, and merging with
/// `Released` on either side yields `Released`, whatever the other side is.
pub proof fn lemma_merge_total_released(a: CompletionStatus, b: CompletionStatus)
    ensures
        merge_status(a, b) is Incomplete || merge_status(a, b) is AllChecks || merge_status(a, b)
            is Goal || merge_status(a, b) is Done || merge_status(a, b) is Released,
        merge_status(a, b) == merge_status(b, a),
        merge_status(CompletionStatus::Released, b) == CompletionStatus::Released,
        merge_status(a, CompletionStatus::Released) == CompletionStatus::Released,
{
}

/// Merging the same auto-derived status in twice changes nothing: the result
/// of one merge, merged again with the same left-hand side, is itself.
pub proof fn lemma_merge_idempotent(auto: CompletionStatus, current: CompletionStatus)
    ensures
        merge_status(auto, merge_status(auto, current)) == merge_status(auto, current),
{
}

/// Connectivity status of one slot as the upstream tracker reports it.
#[derive(Debug, Clone, Copy, PartialEq, Eq, Structural)]
pub enum TrackerGameStatus {
    Disconnected,
    Connected,
    Ready,
    Playing,
    GoalCompleted,
}

/// Claim availability of one slot.
#[derive(Debug, Clone, Copy, PartialEq, Eq, Structural)]
pub enum AvailabilityStatus {
    Unknown,
    Open,
    Claimed,
    Public,
}

/// How the player in a slot wants to be pinged.
#[derive(Debug, Clone, Copy, PartialEq, Eq, Structural)]
pub enum PingPreference {
    Liberally,
    Sparingly,
    Hints,
    SeeNotes,
    Never,
}

/// User-assigned classification of a hint.
///
/// `Unset` is a store-only sentinel distinct from `Unknown`, which is reserved
/// for an explicit user assertion.
#[derive(Debug, Clone, Copy, PartialEq, Eq, Structural)]
pub enum HintClassification {
    Unset,
    Unknown,
    Critical,
    Progression,
    Qol,
    Trash,
}

/// Progression status of one slot.
#[derive(Debug, Clone, Copy, PartialEq, Eq, Structural)]
pub enum ProgressionStatus {
    Unknown,
    Unblocked,
    Bk,
    Go,
    SoftBk,
}

/// Combined slot status used by an earlier revision of the store schema.
#[derive(Debug, Clone, Copy, PartialEq, Eq, Structural)]
pub enum GameStatus {
    Unblocked,
    Bk,
    AllChecks,
    Done,
    Open,
    Released,
    Glitched,
}

/// Identifies how a user authenticated.
#[derive(Debug, Clone, Copy, PartialEq, Eq, Structural)]
pub enum AuthenticationSource {
    SessionToken,
    ApiKey,
}

/// Record for one tracked upstream resource.
///
/// Timestamps are milliseconds since the Unix epoch.  `tracker_id` is the
/// opaque identity used externally; `upstream_url` is the natural key.
#[derive(Debug)]
pub struct ApTracker {
    pub id: i32,
    pub tracker_id: u128,
    pub updated_at: i64,
    pub title: String,
    pub description: String,
    pub owner_ct_user_id: Option<i32>,
    pub lock_settings: bool,
    pub upstream_url: String,
    pub global_ping_policy: Option<PingPreference>,
    pub room_link: String,
    pub last_port: Option<i32>,
    pub next_port_check_at: Option<i64>,
    pub inactivity_threshold_yellow_hours: i32,
    pub inactivity_threshold_red_hours: i32,
    pub require_authentication_to_claim: bool,
}

impl Clone for ApTracker {
    fn clone(&self) -> (res: Self)
        ensures
            res == *self,
    {
        ApTracker {
            id: self.id,
            tracker_id: self.tracker_id,
            updated_at: self.updated_at,
            title: self.title.clone(),
            description: self.description.clone(),
            owner_ct_user_id: self.owner_ct_user_id,
            lock_settings: self.lock_settings,
            upstream_url: self.upstream_url.clone(),
            global_ping_policy: self.global_ping_policy,
            room_link: self.room_link.clone(),
            last_port: self.last_port,
            next_port_check_at: self.next_port_check_at,
            inactivity_threshold_yellow_hours: self.inactivity_threshold_yellow_hours,
            inactivity_threshold_red_hours: self.inactivity_threshold_red_hours,
            require_authentication_to_claim: self.require_authentication_to_claim,
        }
    }
}

/// Record for one slot of a tracked resource.
///
/// `position`, `game` and `checks_total` are immutable once stored; the
/// synchronization engine owns `name`, `tracker_status`, `checks_done`,
/// `last_activity` and the auto component of `completion_status`; the
/// remaining fields belong to the user and are never touched by
/// synchronization.
#[derive(Debug)]
pub struct ApGame {
    pub id: i32,
    pub tracker_id: i32,
    pub position: i32,
    pub name: String,
    pub game: String,
    pub tracker_status: TrackerGameStatus,
    pub checks_done: i32,
    pub checks_total: i32,
    pub last_activity: Option<i64>,
    pub discord_username: Option<String>,
    pub discord_ping: PingPreference,
    pub last_checked: Option<i64>,
    pub notes: String,
    pub claimed_by_ct_user_id: Option<i32>,
    pub availability_status: AvailabilityStatus,
    pub completion_status: CompletionStatus,
    pub progression_status: ProgressionStatus,
    pub effective_discord_username: Option<String>,
    pub user_is_away: bool,
}

impl Clone for ApGame {
    fn clone(&self) -> (res: Self)
        ensures
            res == *self,
    {
        ApGame {
            id: self.id,
            tracker_id: self.tracker_id,
            position: self.position,
            name: self.name.clone(),
            game: self.game.clone(),
            tracker_status: self.tracker_status,
            checks_done: self.checks_done,
            checks_total: self.checks_total,
            last_activity: self.last_activity,
            discord_username: clone_opt_string(&self.discord_username),
            discord_ping: self.discord_ping,
            last_checked: self.last_checked,
            notes: self.notes.clone(),
            claimed_by_ct_user_id: self.claimed_by_ct_user_id,
            availability_status: self.availability_status,
            completion_status: self.completion_status,
            progression_status: self.progression_status,
            effective_discord_username: clone_opt_string(&self.effective_discord_username),
            user_is_away: self.user_is_away,
        }
    }
}

/// Record for one hint.
///
/// A hint has no upstream identity; its identity is the composite of finder,
/// receiver (or the preserved upstream label when no receiver slot exists),
/// item, location and entrance.  Only `found` is updated by synchronization;
/// `classification` belongs to the user.
#[derive(Debug)]
pub struct ApHint {
    pub id: i32,
    pub finder_game_id: i32,
    pub receiver_game_id: Option<i32>,
    pub item: String,
    pub location: String,
    pub entrance: String,
    pub found: bool,
    pub classification: HintClassification,
    pub item_link_name: String,
}

impl Clone for ApHint {
    fn clone(&self) -> (res: Self)
        ensures
            res == *self,
    {
        ApHint {
            id: self.id,
            finder_game_id: self.finder_game_id,
            receiver_game_id: self.receiver_game_id,
            item: self.item.clone(),
            location: self.location.clone(),
            entrance: self.entrance.clone(),
            found: self.found,
            classification: self.classification,
            item_link_name: self.item_link_name.clone(),
        }
    }
}

/// Clones an optional string, keeping its value.
pub fn clone_opt_string(s: &Option<String>) -> (res: Option<String>)
    ensures
        res == *s,
{
    match s {
        Some(v) => Some(v.clone()),
        None => None,
    }
}

/// Record for one registered user.
#[derive(Debug)]
pub struct CtUser {
    pub id: i32,
    pub discord_access_token: String,
    pub discord_access_token_expires_at: i64,
    pub discord_refresh_token: String,
    pub discord_username: String,
    pub discord_user_id: i64,
    pub api_key: Option<u128>,
    pub is_away: bool,
}

/// Record for one script error reported by the frontend.
#[derive(Debug)]
pub struct JsError {
    pub id: i32,
    pub ct_user_id: Option<i32>,
    pub error: String,
}

/// Per-user dashboard visibility override for one tracked resource.
#[derive(Debug, Clone, Copy, PartialEq, Eq, Structural)]
pub struct ApTrackerDashboardOverride {
    pub ct_user_id: i32,
    pub ap_tracker_id: i32,
    pub visibility: bool,
}

/// Per-user settings.
#[derive(Debug, Clone, Copy, PartialEq, Eq, Structural)]
pub struct UserSettings {
    pub is_away: bool,
}

impl UserSettings {
    /// Applies these settings to a user record, leaving every other field as
    /// it was.
    pub fn apply_to(self, user: &mut CtUser)
        ensures
            final(user).is_away == self.is_away,
            *final(user) == (CtUser { is_away: self.is_away, ..*old(user) }),
    {
        user.is_away = self.is_away;
    }

    /// Reads these settings out of a user record.
    pub fn read_from(user: &CtUser) -> (r: UserSettings)
        ensures
            r.is_away == user.is_away,
    {
        UserSettings { is_away: user.is_away }
    }
}

/// Claims carried by an authentication token.
#[derive(Debug)]
pub struct TokenPayload {
    /// Local user ID.
    pub sub: i32,
    /// Timestamp the token was created, in seconds.
    pub iat: u64,
    /// Timestamp the token expires at, in seconds.
    pub exp: u64,
    /// Token issuer.
    pub iss: String,
}

impl TokenPayload {
    /// Builds the claims for a token issued at `now` (seconds) that stays
    /// valid for `validity_duration_sec`.
    pub fn new(user_id: i32, now: u64, validity_duration_sec: u64, issuer: String) -> (r:
        TokenPayload)
        requires
            now + validity_duration_sec <= u64::MAX,
        ensures
            r.sub == user_id,
            r.iat == now,
            r.exp == now + validity_duration_sec,
            r.iss == issuer,
    {
        TokenPayload { sub: user_id, iat: now, exp: now + validity_duration_sec, iss: issuer }
    }
}

/// The inputs from which a slot's auto completion status is derived.
#[derive(Debug, Clone, Copy, PartialEq, Eq, Structural)]
pub struct AutoStatusInputs {
    pub checks_done: i32,
    pub checks_total: i32,
    pub tracker_status: TrackerGameStatus,
}

/// The auto-derived completion signal: `Done` if all checks are complete and
/// upstream reports the goal completed, `AllChecks` if only the checks are
/// complete, `Goal` if only the goal is, else `Incomplete`.
pub open spec fn auto_status(i: AutoStatusInputs) -> CompletionStatus {
    if i.checks_done == i.checks_total {
        if i.tracker_status is GoalCompleted {
            CompletionStatus::Done
        } else {
            CompletionStatus::AllChecks
        }
    } else {
        if i.tracker_status is GoalCompleted {
            CompletionStatus::Goal
        } else {
            CompletionStatus::Incomplete
        }
    }
}

/// What a record with a completion status looks like after force-upgrading
/// that status from the auto-derived signal.
pub open spec fn merged_completion_status(i: AutoStatusInputs, current: CompletionStatus)
    -> CompletionStatus {
    merge_status(auto_status(i), current)
}

/// Completion status force-upgrading.
pub trait UpdateCompletionStatus: Sized {
    /// The fields the auto-derived status is computed from.
    spec fn auto_inputs(&self) -> AutoStatusInputs;

    /// The stored completion status.
    spec fn completion_status_of(&self) -> CompletionStatus;

    /// This record with its completion status replaced and nothing else
    /// changed.
    spec fn with_completion_status(&self, s: CompletionStatus) -> Self;

    /// Force-upgrades the completion status based on whether all checks are
    /// complete and whether the goal is complete, returning whether the
    /// status changed.
    fn update_completion_status(&mut self) -> (changed: bool)
        ensures
            *final(self) == old(self).with_completion_status(
                merged_completion_status(old(self).auto_inputs(), old(self).completion_status_of()),
            ),
            changed == (merged_completion_status(
                old(self).auto_inputs(),
                old(self).completion_status_of(),
            ) != old(self).completion_status_of()),
    ;
}

/// Column identifiers of the tracked-resource table, for updates that name
/// the columns they change.
#[derive(Debug, Clone, Copy, PartialEq, Eq, Structural)]
pub enum ApTrackerIden {
    TrackerId,
    UpdatedAt,
    Title,
    Description,
    OwnerCtUserId,
    LockSettings,
    UpstreamUrl,
    GlobalPingPolicy,
    RoomLink,
    LastPort,
    NextPortCheckAt,
    InactivityThresholdYellowHours,
    InactivityThresholdRedHours,
    RequireAuthenticationToClaim,
}

/// Column identifiers of the slot table.
#[derive(Debug, Clone, Copy, PartialEq, Eq, Structural)]
pub enum ApGameIden {
    TrackerId,
    Position,
    Name,
    Game,
    TrackerStatus,
    ChecksDone,
    ChecksTotal,
    LastActivity,
    DiscordUsername,
    DiscordPing,
    LastChecked,
    Notes,
    ClaimedByCtUserId,
    AvailabilityStatus,
    CompletionStatus,
    ProgressionStatus,
}

/// Column identifiers of the hint table.
#[derive(Debug, Clone, Copy, PartialEq, Eq, Structural)]
pub enum ApHintIden {
    FinderGameId,
    ReceiverGameId,
    Item,
    Location,
    Entrance,
    Found,
    Classification,
    ItemLinkName,
}

/// A tracked-resource row to be created; the store assigns the numeric `id`.
#[derive(Debug)]
pub struct ApTrackerInsertion {
    pub tracker_id: u128,
    pub upstream_url: String,
    pub updated_at: i64,
    pub title: String,
    pub description: String,
    pub owner_ct_user_id: Option<i32>,
    pub lock_settings: bool,
    pub global_ping_policy: Option<PingPreference>,
    pub room_link: String,
    pub last_port: Option<i32>,
    pub next_port_check_at: Option<i64>,
    pub inactivity_threshold_yellow_hours: i32,
    pub inactivity_threshold_red_hours: i32,
    pub require_authentication_to_claim: bool,
}

/// A slot row to be created; the store assigns the numeric `id`, and the
/// caller supplies the owning resource's id.
#[derive(Debug)]
pub struct ApGameInsertion {
    pub position: i32,
    pub name: String,
    pub game: String,
    pub tracker_status: TrackerGameStatus,
    pub checks_done: i32,
    pub checks_total: i32,
    pub last_activity: Option<i64>,
    pub discord_username: Option<String>,
    pub discord_ping: PingPreference,
    pub availability_status: AvailabilityStatus,
    pub completion_status: CompletionStatus,
    pub progression_status: ProgressionStatus,
    pub last_checked: Option<i64>,
    pub notes: String,
    pub claimed_by_ct_user_id: Option<i32>,
    pub effective_discord_username: Option<String>,
    pub user_is_away: bool,
}

/// A hint row to be created against already-stored slots; the store assigns
/// the numeric `id`.
#[derive(Debug)]
pub struct ApHintInsertion {
    pub finder_game_id: i32,
    pub receiver_game_id: Option<i32>,
    pub item: String,
    pub location: String,
    pub entrance: String,
    pub found: bool,
    pub classification: HintClassification,
    pub item_link_name: String,
}

impl UpdateCompletionStatus for ApGame {
    open spec fn auto_inputs(&self) -> AutoStatusInputs {
        AutoStatusInputs {
            checks_done: self.checks_done,
            checks_total: self.checks_total,
            tracker_status: self.tracker_status,
        }
    }

    open spec fn completion_status_of(&self) -> CompletionStatus {
        self.completion_status
    }

    open spec fn with_completion_status(&self, s: CompletionStatus) -> Self {
        ApGame { completion_status: s, ..*self }
    }

    fn update_completion_status(&mut self) -> (changed: bool) {
        let auto = if self.checks_done == self.checks_total {
            if matches!(self.tracker_status, TrackerGameStatus::GoalCompleted) {
                CompletionStatus::Done
            } else {
                CompletionStatus::AllChecks
            }
        } else {
            if matches!(self.tracker_status, TrackerGameStatus::GoalCompleted) {
                CompletionStatus::Goal
            } else {
                CompletionStatus::Incomplete
            }
        };
        let new_status = auto.merge_with(self.completion_status);
        let changed = new_status != self.completion_status;
        self.completion_status = new_status;
        changed
    }
}

impl UpdateCompletionStatus for ApGameInsertion {
    open spec fn auto_inputs(&self) -> AutoStatusInputs {
        AutoStatusInputs {
            checks_done: self.checks_done,
            checks_total: self.checks_total,
            tracker_status: self.tracker_status,
        }
    }

    open spec fn completion_status_of(&self) -> CompletionStatus {
        self.completion_status
    }

    open spec fn with_completion_status(&self, s: CompletionStatus) -> Self {
        ApGameInsertion { completion_status: s, ..*self }
    }

    fn update_completion_status(&mut self) -> (changed: bool) {
        let auto = if self.checks_done == self.checks_total {
            if matches!(self.tracker_status, TrackerGameStatus::GoalCompleted) {
                CompletionStatus::Done
            } else {
                CompletionStatus::AllChecks
            }
        } else {
            if matches!(self.tracker_status, TrackerGameStatus::GoalCompleted) {
                CompletionStatus::Goal
            } else {
                CompletionStatus::Incomplete
            }
        };
        let new_status = auto.merge_with(self.completion_status);
        let changed = new_status != self.completion_status;
        self.completion_status = new_status;
        changed
    }
}

} // verus!
