//! Fieldwise diffs between record versions, and the audit entries built from
//! them.
//!
//! Every mutation the reconciler applies is paired with a before/after
//! snapshot; a fieldwise diff between the two decides whether an audit entry
//! is recorded at all, and what it holds.  Fields re-derived on every run
//! (the resource's own freshness marker, port bookkeeping) are excluded from
//! the diff, so rewriting them alone never produces an audit entry.

use vstd::prelude::*;
use vstd::pervasive::cloned;
use vstd::std_specs::cmp::PartialEqSpec;

use crate::model::{
    ApGame, ApHint, ApTracker, AuthenticationSource, AvailabilityStatus, CompletionStatus,
    HintClassification, PingPreference, ProgressionStatus, TrackerGameStatus, clone_opt_string,
};

verus! {

/// Contains an old and a new value.
#[derive(Debug, Clone, Copy)]
pub struct FieldDiff<T> {
    pub old: T,
    pub new: T,
}

impl<T: PartialEq> FieldDiff<T> {
    /// Creates a new diff from owned values, or nothing when they are equal.
    pub fn new(old: T, new: T) -> (r: Option<Self>)
        ensures
            T::obeys_eq_spec() ==> match r {
                Some(d) => !old.eq_spec(&new) && d.old == old && d.new == new,
                None => old.eq_spec(&new),
            },
    {
        if old != new {
            Some(Self { old, new })
        } else {
            None
        }
    }

    /// Creates a new diff from references to clonable values, or nothing when
    /// they are equal.
    pub fn new_cloned(old: &T, new: &T) -> (r: Option<Self>) where T: Clone
        ensures
            T::obeys_eq_spec() ==> match r {
                Some(d) => !old.eq_spec(new) && cloned(*old, d.old) && cloned(*new, d.new),
                None => old.eq_spec(new),
            },
    {
        if old != new {
            Some(Self { old: old.clone(), new: new.clone() })
        } else {
            None
        }
    }
}

/// Values that can be tested for emptiness.
pub trait IsEmpty {
    /// What counts as empty for this type.
    spec fn spec_is_empty(&self) -> bool;

    /// Decides [`spec_is_empty`](Self::spec_is_empty).
    fn is_empty(&self) -> (r: bool)
        ensures
            r == self.spec_is_empty(),
    ;
}

/// An optional string as the optional sequence of its characters.
pub open spec fn opt_str_view(o: Option<String>) -> Option<Seq<char>> {
    match o {
        Some(s) => Some(s@),
        None => None,
    }
}

/// Compares two optional strings, by value.
fn opt_string_eq(a: &Option<String>, b: &Option<String>) -> (r: bool)
    ensures
        r == (opt_str_view(*a) == opt_str_view(*b)),
{
    match (a, b) {
        (None, None) => true,
        (Some(x), Some(y)) => x.eq(y),
        _ => false,
    }
}

/// A diff of two strings, kept when their characters differ.
fn string_field_diff(old: &String, new: &String) -> (r: Option<FieldDiff<String>>)
    ensures
        match r {
            Some(d) => old@ != new@ && d.old@ == old@ && d.new@ == new@,
            None => old@ == new@,
        },
{
    if old.eq(new) {
        None
    } else {
        Some(FieldDiff { old: old.clone(), new: new.clone() })
    }
}

/// A diff of two optional strings, kept when they differ.
fn opt_string_field_diff(old: &Option<String>, new: &Option<String>) -> (r: Option<
    FieldDiff<Option<String>>,
>)
    ensures
        match r {
            Some(d) => opt_str_view(*old) != opt_str_view(*new) && opt_str_view(d.old)
                == opt_str_view(*old) && opt_str_view(d.new) == opt_str_view(*new),
            None => opt_str_view(*old) == opt_str_view(*new),
        },
{
    if opt_string_eq(old, new) {
        None
    } else {
        Some(FieldDiff { old: clone_opt_string(old), new: clone_opt_string(new) })
    }
}

/// Fieldwise diff between two versions of a slot record.
///
/// The view-computed fields (`effective_discord_username`, `user_is_away`)
/// are not part of the diff.
#[derive(Debug)]
pub struct ApGameFieldwiseDiff {
    pub id: Option<FieldDiff<i32>>,
    pub tracker_id: Option<FieldDiff<i32>>,
    pub position: Option<FieldDiff<i32>>,
    pub name: Option<FieldDiff<String>>,
    pub game: Option<FieldDiff<String>>,
    pub tracker_status: Option<FieldDiff<TrackerGameStatus>>,
    pub checks_done: Option<FieldDiff<i32>>,
    pub checks_total: Option<FieldDiff<i32>>,
    pub last_activity: Option<FieldDiff<Option<i64>>>,
    pub discord_username: Option<FieldDiff<Option<String>>>,
    pub discord_ping: Option<FieldDiff<PingPreference>>,
    pub last_checked: Option<FieldDiff<Option<i64>>>,
    pub notes: Option<FieldDiff<String>>,
    pub claimed_by_ct_user_id: Option<FieldDiff<Option<i32>>>,
    pub availability_status: Option<FieldDiff<AvailabilityStatus>>,
    pub completion_status: Option<FieldDiff<CompletionStatus>>,
    pub progression_status: Option<FieldDiff<ProgressionStatus>>,
}

/// Whether two slot records agree on every diffed field.
pub open spec fn game_diff_empty(old: ApGame, new: ApGame) -> bool {
    &&& old.id == new.id
    &&& old.tracker_id == new.tracker_id
    &&& old.position == new.position
    &&& old.name@ == new.name@
    &&& old.game@ == new.game@
    &&& old.tracker_status == new.tracker_status
    &&& old.checks_done == new.checks_done
    &&& old.checks_total == new.checks_total
    &&& old.last_activity == new.last_activity
    &&& opt_str_view(old.discord_username) == opt_str_view(new.discord_username)
    &&& old.discord_ping == new.discord_ping
    &&& old.last_checked == new.last_checked
    &&& old.notes@ == new.notes@
    &&& old.claimed_by_ct_user_id == new.claimed_by_ct_user_id
    &&& old.availability_status == new.availability_status
    &&& old.completion_status == new.completion_status
    &&& old.progression_status == new.progression_status
}

impl IsEmpty for ApGameFieldwiseDiff {
    open spec fn spec_is_empty(&self) -> bool {
        self.id is None && self.tracker_id is None && self.position is None && self.name is None
            && self.game is None && self.tracker_status is None && self.checks_done is None
            && self.checks_total is None && self.last_activity is None && self.discord_username
            is None && self.discord_ping is None && self.last_checked is None && self.notes is None
            && self.claimed_by_ct_user_id is None && self.availability_status is None
            && self.completion_status is None && self.progression_status is None
    }

    fn is_empty(&self) -> (r: bool) {
        self.id.is_none() && self.tracker_id.is_none() && self.position.is_none()
            && self.name.is_none() && self.game.is_none() && self.tracker_status.is_none()
            && self.checks_done.is_none() && self.checks_total.is_none()
            && self.last_activity.is_none() && self.discord_username.is_none()
            && self.discord_ping.is_none() && self.last_checked.is_none() && self.notes.is_none()
            && self.claimed_by_ct_user_id.is_none() && self.availability_status.is_none()
            && self.completion_status.is_none() && self.progression_status.is_none()
    }
}

/// Diffs two versions of a slot record field by field.
pub fn game_fieldwise_diff(old: &ApGame, new: &ApGame) -> (r: ApGameFieldwiseDiff)
    ensures
        r.spec_is_empty() == game_diff_empty(*old, *new),
{
    ApGameFieldwiseDiff {
        id: FieldDiff::new(old.id, new.id),
        tracker_id: FieldDiff::new(old.tracker_id, new.tracker_id),
        position: FieldDiff::new(old.position, new.position),
        name: string_field_diff(&old.name, &new.name),
        game: string_field_diff(&old.game, &new.game),
        tracker_status: if old.tracker_status == new.tracker_status {
            None
        } else {
            Some(FieldDiff { old: old.tracker_status, new: new.tracker_status })
        },
        checks_done: FieldDiff::new(old.checks_done, new.checks_done),
        checks_total: FieldDiff::new(old.checks_total, new.checks_total),
        last_activity: FieldDiff::new(old.last_activity, new.last_activity),
        discord_username: opt_string_field_diff(&old.discord_username, &new.discord_username),
        discord_ping: if old.discord_ping == new.discord_ping {
            None
        } else {
            Some(FieldDiff { old: old.discord_ping, new: new.discord_ping })
        },
        last_checked: FieldDiff::new(old.last_checked, new.last_checked),
        notes: string_field_diff(&old.notes, &new.notes),
        claimed_by_ct_user_id: FieldDiff::new(old.claimed_by_ct_user_id, new.claimed_by_ct_user_id),
        availability_status: if old.availability_status == new.availability_status {
            None
        } else {
            Some(
                FieldDiff { old: old.availability_status, new: new.availability_status },
            )
        },
        completion_status: if old.completion_status == new.completion_status {
            None
        } else {
            Some(FieldDiff { old: old.completion_status, new: new.completion_status })
        },
        progression_status: if old.progression_status == new.progression_status {
            None
        } else {
            Some(
                FieldDiff { old: old.progression_status, new: new.progression_status },
            )
        },
    }
}

/// Fieldwise diff between two versions of a hint record.
#[derive(Debug)]
pub struct ApHintFieldwiseDiff {
    pub id: Option<FieldDiff<i32>>,
    pub finder_game_id: Option<FieldDiff<i32>>,
    pub receiver_game_id: Option<FieldDiff<Option<i32>>>,
    pub item: Option<FieldDiff<String>>,
    pub location: Option<FieldDiff<String>>,
    pub entrance: Option<FieldDiff<String>>,
    pub found: Option<FieldDiff<bool>>,
    pub classification: Option<FieldDiff<HintClassification>>,
    pub item_link_name: Option<FieldDiff<String>>,
}

/// Whether two hint records agree on every diffed field.
pub open spec fn hint_diff_empty(old: ApHint, new: ApHint) -> bool {
    &&& old.id == new.id
    &&& old.finder_game_id == new.finder_game_id
    &&& old.receiver_game_id == new.receiver_game_id
    &&& old.item@ == new.item@
    &&& old.location@ == new.location@
    &&& old.entrance@ == new.entrance@
    &&& old.found == new.found
    &&& old.classification == new.classification
    &&& old.item_link_name@ == new.item_link_name@
}

impl IsEmpty for ApHintFieldwiseDiff {
    open spec fn spec_is_empty(&self) -> bool {
        self.id is None && self.finder_game_id is None && self.receiver_game_id is None
            && self.item is None && self.location is None && self.entrance is None && self.found
            is None && self.classification is None && self.item_link_name is None
    }

    fn is_empty(&self) -> (r: bool) {
        self.id.is_none() && self.finder_game_id.is_none() && self.receiver_game_id.is_none()
            && self.item.is_none() && self.location.is_none() && self.entrance.is_none()
            && self.found.is_none() && self.classification.is_none()
            && self.item_link_name.is_none()
    }
}

/// Diffs two versions of a hint record field by field.
pub fn hint_fieldwise_diff(old: &ApHint, new: &ApHint) -> (r: ApHintFieldwiseDiff)
    ensures
        r.spec_is_empty() == hint_diff_empty(*old, *new),
{
    ApHintFieldwiseDiff {
        id: FieldDiff::new(old.id, new.id),
        finder_game_id: FieldDiff::new(old.finder_game_id, new.finder_game_id),
        receiver_game_id: FieldDiff::new(old.receiver_game_id, new.receiver_game_id),
        item: string_field_diff(&old.item, &new.item),
        location: string_field_diff(&old.location, &new.location),
        entrance: string_field_diff(&old.entrance, &new.entrance),
        found: FieldDiff::new(old.found, new.found),
        classification: if old.classification == new.classification {
            None
        } else {
            Some(FieldDiff { old: old.classification, new: new.classification })
        },
        item_link_name: string_field_diff(&old.item_link_name, &new.item_link_name),
    }
}

/// Fieldwise diff between two versions of a tracked-resource record.
///
/// The freshness marker and the port bookkeeping fields are re-derived on
/// every run and are not part of the diff.
#[derive(Debug)]
pub struct ApTrackerFieldwiseDiff {
    pub id: Option<FieldDiff<i32>>,
    pub tracker_id: Option<FieldDiff<u128>>,
    pub title: Option<FieldDiff<String>>,
    pub description: Option<FieldDiff<String>>,
    pub owner_ct_user_id: Option<FieldDiff<Option<i32>>>,
    pub lock_settings: Option<FieldDiff<bool>>,
    pub upstream_url: Option<FieldDiff<String>>,
    pub global_ping_policy: Option<FieldDiff<Option<PingPreference>>>,
    pub room_link: Option<FieldDiff<String>>,
    pub inactivity_threshold_yellow_hours: Option<FieldDiff<i32>>,
    pub inactivity_threshold_red_hours: Option<FieldDiff<i32>>,
    pub require_authentication_to_claim: Option<FieldDiff<bool>>,
}

/// Whether two tracked-resource records agree on every diffed field.
pub open spec fn tracker_diff_empty(old: ApTracker, new: ApTracker) -> bool {
    &&& old.id == new.id
    &&& old.tracker_id == new.tracker_id
    &&& old.title@ == new.title@
    &&& old.description@ == new.description@
    &&& old.owner_ct_user_id == new.owner_ct_user_id
    &&& old.lock_settings == new.lock_settings
    &&& old.upstream_url@ == new.upstream_url@
    &&& old.global_ping_policy == new.global_ping_policy
    &&& old.room_link@ == new.room_link@
    &&& old.inactivity_threshold_yellow_hours == new.inactivity_threshold_yellow_hours
    &&& old.inactivity_threshold_red_hours == new.inactivity_threshold_red_hours
    &&& old.require_authentication_to_claim == new.require_authentication_to_claim
}

impl IsEmpty for ApTrackerFieldwiseDiff {
    open spec fn spec_is_empty(&self) -> bool {
        self.id is None && self.tracker_id is None && self.title is None && self.description
            is None && self.owner_ct_user_id is None && self.lock_settings is None
            && self.upstream_url is None && self.global_ping_policy is None && self.room_link
            is None && self.inactivity_threshold_yellow_hours is None
            && self.inactivity_threshold_red_hours is None && self.require_authentication_to_claim
            is None
    }

    fn is_empty(&self) -> (r: bool) {
        self.id.is_none() && self.tracker_id.is_none() && self.title.is_none()
            && self.description.is_none() && self.owner_ct_user_id.is_none()
            && self.lock_settings.is_none() && self.upstream_url.is_none()
            && self.global_ping_policy.is_none() && self.room_link.is_none()
            && self.inactivity_threshold_yellow_hours.is_none()
            && self.inactivity_threshold_red_hours.is_none()
            && self.require_authentication_to_claim.is_none()
    }
}

/// Diffs two versions of a tracked-resource record field by field.
pub fn tracker_fieldwise_diff(old: &ApTracker, new: &ApTracker) -> (r: ApTrackerFieldwiseDiff)
    ensures
        r.spec_is_empty() == tracker_diff_empty(*old, *new),
{
    ApTrackerFieldwiseDiff {
        id: FieldDiff::new(old.id, new.id),
        tracker_id: FieldDiff::new(old.tracker_id, new.tracker_id),
        title: string_field_diff(&old.title, &new.title),
        description: string_field_diff(&old.description, &new.description),
        owner_ct_user_id: FieldDiff::new(old.owner_ct_user_id, new.owner_ct_user_id),
        lock_settings: FieldDiff::new(old.lock_settings, new.lock_settings),
        upstream_url: string_field_diff(&old.upstream_url, &new.upstream_url),
        global_ping_policy: if opt_ping_eq(&old.global_ping_policy, &new.global_ping_policy) {
            None
        } else {
            Some(FieldDiff { old: old.global_ping_policy, new: new.global_ping_policy })
        },
        room_link: string_field_diff(&old.room_link, &new.room_link),
        inactivity_threshold_yellow_hours: FieldDiff::new(
            old.inactivity_threshold_yellow_hours,
            new.inactivity_threshold_yellow_hours,
        ),
        inactivity_threshold_red_hours: FieldDiff::new(
            old.inactivity_threshold_red_hours,
            new.inactivity_threshold_red_hours,
        ),
        require_authentication_to_claim: FieldDiff::new(
            old.require_authentication_to_claim,
            new.require_authentication_to_claim,
        ),
    }
}

/// Compares two optional ping preferences, by value.
fn opt_ping_eq(a: &Option<PingPreference>, b: &Option<PingPreference>) -> (r: bool)
    ensures
        r == (*a == *b),
{
    match (a, b) {
        (None, None) => true,
        (Some(x), Some(y)) => *x == *y,
        _ => false,
    }
}

/// The kind of record an audit entry is about.
#[derive(Debug, Clone, Copy, PartialEq, Eq, Structural)]
pub enum AuditEntity {
    Tracker,
    Game,
    Hint,
}

/// The structured diff carried by an audit entry.
#[derive(Debug)]
pub enum AuditDiff {
    Tracker(ApTrackerFieldwiseDiff),
    Game(ApGameFieldwiseDiff),
    Hint(ApHintFieldwiseDiff),
}

/// One audit entry: which record changed, when, by whom, and how.
///
/// Entries recorded by the synchronization engine carry no actor identity;
/// that is what distinguishes automated updates from user-initiated ones in
/// the audit trail.
#[derive(Debug)]
pub struct AuditEntry {
    pub entity: AuditEntity,
    pub entity_id: i32,
    pub changed_at: i64,
    pub actor_ipaddr: Option<String>,
    pub actor_ct_user_id: Option<i32>,
    pub auth_source: Option<AuthenticationSource>,
    pub diff: AuditDiff,
}

/// An audit entry for a slot change, or nothing when no diffed field changed.
pub fn audit_for_game(changed_at: i64, old: &ApGame, new: &ApGame) -> (r: Option<AuditEntry>)
    ensures
        r is Some <==> !game_diff_empty(*old, *new),
        r matches Some(e) ==> e.entity == AuditEntity::Game && e.entity_id == old.id
            && e.changed_at == changed_at && e.actor_ipaddr is None && e.actor_ct_user_id is None
            && e.auth_source is None && e.diff is Game,
{
    let d = game_fieldwise_diff(old, new);
    if d.is_empty() {
        None
    } else {
        Some(
            AuditEntry {
                entity: AuditEntity::Game,
                entity_id: old.id,
                changed_at,
                actor_ipaddr: None,
                actor_ct_user_id: None,
                auth_source: None,
                diff: AuditDiff::Game(d),
            },
        )
    }
}

/// An audit entry for a hint change, or nothing when no diffed field changed.
pub fn audit_for_hint(changed_at: i64, old: &ApHint, new: &ApHint) -> (r: Option<AuditEntry>)
    ensures
        r is Some <==> !hint_diff_empty(*old, *new),
        r matches Some(e) ==> e.entity == AuditEntity::Hint && e.entity_id == old.id
            && e.changed_at == changed_at && e.actor_ipaddr is None && e.actor_ct_user_id is None
            && e.auth_source is None && e.diff is Hint,
{
    let d = hint_fieldwise_diff(old, new);
    if d.is_empty() {
        None
    } else {
        Some(
            AuditEntry {
                entity: AuditEntity::Hint,
                entity_id: old.id,
                changed_at,
                actor_ipaddr: None,
                actor_ct_user_id: None,
                auth_source: None,
                diff: AuditDiff::Hint(d),
            },
        )
    }
}

/// An audit entry for a tracked-resource change, or nothing when no diffed
/// field changed.
pub fn audit_for_tracker(changed_at: i64, old: &ApTracker, new: &ApTracker) -> (r: Option<
    AuditEntry,
>)
    ensures
        r is Some <==> !tracker_diff_empty(*old, *new),
        r matches Some(e) ==> e.entity == AuditEntity::Tracker && e.entity_id == old.id
            && e.changed_at == changed_at && e.actor_ipaddr is None && e.actor_ct_user_id is None
            && e.auth_source is None && e.diff is Tracker,
{
    let d = tracker_fieldwise_diff(old, new);
    if d.is_empty() {
        None
    } else {
        Some(
            AuditEntry {
                entity: AuditEntity::Tracker,
                entity_id: old.id,
                changed_at,
                actor_ipaddr: None,
                actor_ct_user_id: None,
                auth_source: None,
                diff: AuditDiff::Tracker(d),
            },
        )
    }
}

} // verus!
