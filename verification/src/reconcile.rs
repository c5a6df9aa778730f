//! The reconciler: given freshly parsed records and the stored state of one
//! tracked resource, computes the exact set of create, update and delete
//! operations, enforcing the slot-count and slot-identity invariants and
//! pairing every mutation with an audit entry.
//!
//! The functions here are pure planners: they touch no store.  The caller
//! loads the current state, hands it in together with the parsed records,
//! and applies the returned plan inside one transaction, so that any failure
//! aborts the whole attempt.

use vstd::prelude::*;
use vstd::pervasive::VecAdditionalExecFns;

use crate::diff::{
    audit_for_game, audit_for_hint, audit_for_tracker, game_diff_empty, hint_diff_empty,
    opt_str_view, tracker_diff_empty, AuditEntry,
};
use crate::model::{
    ApGame, ApGameIden, ApHint, ApHintInsertion, ApTracker, ApTrackerIden, ApTrackerInsertion,
    ApGameInsertion, AutoStatusInputs, AvailabilityStatus, CompletionStatus, HintClassification,
    PingPreference, ProgressionStatus, auto_status, merge_status, UpdateCompletionStatus,
};
use crate::parse::{Game, GameView, Hint, HintView};
use crate::sync::TrackerUpdateError;

verus! {

/// A plan creating a previously-unseen tracked resource: the resource row,
/// one slot row per parsed slot, and one hint row per parsed hint.
///
/// Hints reference slots by their index in `games`, since the store has not
/// yet assigned slot ids; the caller maps each index to the id of the row it
/// created.
#[derive(Debug)]
pub struct NewTrackerPlan {
    pub tracker: ApTrackerInsertion,
    pub games: Vec<ApGameInsertion>,
    pub hints: Vec<NewHintPlan>,
}

/// One hint row to be created alongside new slot rows, referencing them by
/// index.
#[derive(Debug)]
pub struct NewHintPlan {
    pub finder_game: usize,
    pub receiver_game: Option<usize>,
    pub item: String,
    pub location: String,
    pub entrance: String,
    pub found: bool,
    pub classification: HintClassification,
    pub item_link_name: String,
}

/// The last index in `games` whose name equals `name`, or `-1` if there is
/// none.  A later slot with the same name shadows an earlier one, as the
/// name-to-slot map is built in slot order.
pub open spec fn rfind_game_name(games: Seq<GameView>, name: Seq<char>) -> int
    decreases games.len(),
{
    if games.len() == 0 {
        -1
    } else if games.last().name == name {
        games.len() - 1
    } else {
        rfind_game_name(games.drop_last(), name)
    }
}

/// Whether a parsed slot's numbers do not fit the store's signed columns.
pub open spec fn game_unconvertible(g: GameView) -> bool {
    g.position > i32::MAX || g.checks_completed > i32::MAX || g.checks_total > i32::MAX
}

/// The first slot index at or after `k` whose numbers do not fit, or the
/// number of slots if all fit.
pub open spec fn first_unconvertible(games: Seq<GameView>, k: int) -> int
    decreases games.len() - k,
{
    if k < 0 || k >= games.len() {
        games.len() as int
    } else if game_unconvertible(games[k]) {
        k
    } else {
        first_unconvertible(games, k + 1)
    }
}

/// The first hint index at or after `k` whose finder names no slot, or the
/// number of hints if all finders resolve.
pub open spec fn first_unresolvable(games: Seq<GameView>, hints: Seq<HintView>, k: int) -> int
    decreases hints.len() - k,
{
    if k < 0 || k >= hints.len() {
        hints.len() as int
    } else if rfind_game_name(games, hints[k].finder) < 0 {
        k
    } else {
        first_unresolvable(games, hints, k + 1)
    }
}

/// The timestamp a parsed elapsed-time value stands for: the parsed value is
/// time elapsed before `now`.
pub open spec fn derived_last_activity(now: i64, d: Option<i64>) -> Option<i64> {
    match d {
        Some(ms) => Some((now - ms) as i64),
        None => None,
    }
}

/// Whether every parsed elapsed-time value, subtracted from `now`, stays in
/// range of the stored timestamp type.
pub open spec fn activity_in_range(now: i64, games: Seq<GameView>) -> bool {
    forall|i: int|
        0 <= i < games.len() ==> (#[trigger] games[i].last_activity matches Some(d) ==> i64::MIN
            <= now - d <= i64::MAX)
}

/// What a slot row created for a parsed slot holds: identity and progress
/// copied from the parsed record, user-owned fields defaulted, and the
/// completion status derived from the parsed progress alone.
pub open spec fn new_game_insertion_ok(gi: ApGameInsertion, now: i64, g: GameView) -> bool {
    &&& gi.position == g.position as i32
    &&& gi.name@ == g.name
    &&& gi.game@ == g.game
    &&& gi.tracker_status == g.status
    &&& gi.checks_done == g.checks_completed as i32
    &&& gi.checks_total == g.checks_total as i32
    &&& gi.last_activity == derived_last_activity(now, g.last_activity)
    &&& gi.discord_username is None
    &&& gi.discord_ping is Never
    &&& gi.availability_status is Unknown
    &&& gi.completion_status == merge_status(
        auto_status(
            AutoStatusInputs {
                checks_done: g.checks_completed as i32,
                checks_total: g.checks_total as i32,
                tracker_status: g.status,
            },
        ),
        CompletionStatus::Incomplete,
    )
    &&& gi.progression_status is Unknown
    &&& gi.last_checked is None
    &&& gi.notes@ == Seq::<char>::empty()
    &&& gi.claimed_by_ct_user_id is None
    &&& gi.effective_discord_username is None
    &&& !gi.user_is_away
}

/// What a hint row created for a parsed hint holds: the finder resolved to
/// the slot it names; the receiver resolved likewise when possible, else
/// recorded as unresolved with the upstream label preserved; and the
/// classification left at its store-only default.
pub open spec fn new_hint_plan_ok(hp: NewHintPlan, games: Seq<GameView>, h: HintView) -> bool {
    let fi = rfind_game_name(games, h.finder);
    let ri = rfind_game_name(games, h.receiver);
    &&& fi >= 0
    &&& hp.finder_game == fi
    &&& (if ri >= 0 {
        hp.receiver_game == Some(ri as usize) && hp.item_link_name@ == Seq::<char>::empty()
    } else {
        hp.receiver_game is None && hp.item_link_name@ == h.receiver
    })
    &&& hp.item@ == h.item
    &&& hp.location@ == h.location
    &&& hp.entrance@ == h.entrance
    &&& hp.found == h.found
    &&& hp.classification is Unset
}

/// What a plan for a previously-unseen resource holds, given the fresh
/// opaque id it was assigned.
pub open spec fn new_tracker_plan_ok(
    p: NewTrackerPlan,
    tracker_id: u128,
    now: i64,
    upstream_url: Seq<char>,
    games: Seq<GameView>,
    hints: Seq<HintView>,
) -> bool {
    &&& p.tracker.tracker_id == tracker_id
    &&& p.tracker.upstream_url@ == upstream_url
    &&& p.tracker.updated_at == now
    &&& p.tracker.title@ == Seq::<char>::empty()
    &&& p.tracker.description@ == Seq::<char>::empty()
    &&& p.tracker.owner_ct_user_id is None
    &&& !p.tracker.lock_settings
    &&& p.tracker.global_ping_policy is None
    &&& p.tracker.room_link@ == Seq::<char>::empty()
    &&& p.tracker.last_port is None
    &&& p.tracker.next_port_check_at is None
    &&& p.tracker.inactivity_threshold_yellow_hours == 24
    &&& p.tracker.inactivity_threshold_red_hours == 48
    &&& !p.tracker.require_authentication_to_claim
    &&& p.games@.len() == games.len()
    &&& (forall|i: int|
        0 <= i < games.len() ==> new_game_insertion_ok(#[trigger] p.games@[i], now, games[i]))
    &&& p.hints@.len() == hints.len()
    &&& (forall|i: int|
        0 <= i < hints.len() ==> new_hint_plan_ok(#[trigger] p.hints@[i], games, hints[i]))
}

/// What planning a previously-unseen resource returns: the first slot whose
/// numbers do not fit fails the plan naming its position; otherwise the
/// first hint whose finder names no slot fails it naming that finder;
/// otherwise the full creation plan.
pub open spec fn new_tracker_outcome_ok(
    r: Result<NewTrackerPlan, TrackerUpdateError>,
    tracker_id: u128,
    now: i64,
    upstream_url: Seq<char>,
    games: Seq<GameView>,
    hints: Seq<HintView>,
) -> bool {
    let bg = first_unconvertible(games, 0);
    let bh = first_unresolvable(games, hints, 0);
    if bg < games.len() {
        r matches Err(TrackerUpdateError::NumericConversion(p)) && p == games[bg].position
    } else if bh < hints.len() {
        r matches Err(TrackerUpdateError::HintGameMissing(n)) && n@ == hints[bh].finder
    } else {
        r matches Ok(p) && new_tracker_plan_ok(p, tracker_id, now, upstream_url, games, hints)
    }
}

/// The last slot whose name equals `name`, scanned from the end.
fn rfind_name_exec(games: &Vec<Game>, name: &String) -> (r: Option<usize>)
    ensures
        match r {
            Some(i) => rfind_game_name(games.deep_view(), name@) == i && i < games@.len(),
            None => rfind_game_name(games.deep_view(), name@) == -1,
        },
{
    let ghost gv: Seq<GameView> = games.deep_view();
    let mut j: usize = games.len();
    assert(gv.subrange(0, j as int) =~= gv);
    while j > 0
        invariant
            0 <= j <= gv.len(),
            gv == games.deep_view(),
            rfind_game_name(gv, name@) == rfind_game_name(gv.subrange(0, j as int), name@),
        decreases j,
    {
        j = j - 1;
        proof {
            assert(games.deep_view()[j as int] == games@[j as int]@);
            assert(gv.subrange(0, j + 1).last() == gv[j as int]);
            assert(gv.subrange(0, j + 1).drop_last() =~= gv.subrange(0, j as int));
        }
        if games[j].name.eq(name) {
            return Some(j);
        }
    }
    assert(gv.subrange(0, 0) =~= Seq::<GameView>::empty());
    None
}

/// Plans the creation of a previously-unseen tracked resource, as
/// [`new_tracker_outcome_ok`] describes: slot rows in parsed order with
/// user-owned fields defaulted, then hint rows with finders and receivers
/// resolved against the new slots by name.
pub fn plan_new_tracker(
    tracker_id: u128,
    now: i64,
    upstream_url: &str,
    games: &Vec<Game>,
    hints: &Vec<Hint>,
) -> (r: Result<NewTrackerPlan, TrackerUpdateError>)
    requires
        activity_in_range(now, games.deep_view()),
    ensures
        new_tracker_outcome_ok(
            r,
            tracker_id,
            now,
            upstream_url@,
            games.deep_view(),
            hints.deep_view(),
        ),
{
    let ghost gv: Seq<GameView> = games.deep_view();
    let ghost hv: Seq<HintView> = hints.deep_view();
    let mut game_rows: Vec<ApGameInsertion> = Vec::new();
    let mut i: usize = 0;
    while i < games.len()
        invariant
            0 <= i <= gv.len(),
            gv == games.deep_view(),
            activity_in_range(now, gv),
            first_unconvertible(gv, 0) == first_unconvertible(gv, i as int),
            game_rows@.len() == i,
            forall|k: int|
                0 <= k < i ==> new_game_insertion_ok(#[trigger] game_rows@[k], now, gv[k]),
        decreases gv.len() - i,
    {
        proof {
            assert(games.deep_view()[i as int] == games@[i as int]@);
            assert(gv[i as int].last_activity matches Some(d) ==> i64::MIN <= now - d <= i64::MAX);
        }
        let g = &games[i];
        if g.position > 0x7fff_ffff || g.checks.completed > 0x7fff_ffff || g.checks.total
            > 0x7fff_ffff {
            assert(game_unconvertible(gv[i as int]));
            return Err(TrackerUpdateError::NumericConversion(g.position));
        }
        assert(!game_unconvertible(gv[i as int]));
        let mut row = ApGameInsertion {
            position: g.position as i32,
            name: g.name.clone(),
            game: g.game.clone(),
            tracker_status: g.status,
            checks_done: g.checks.completed as i32,
            checks_total: g.checks.total as i32,
            last_activity: match g.last_activity {
                Some(d) => Some(now - d),
                None => None,
            },
            discord_username: None,
            discord_ping: PingPreference::Never,
            availability_status: AvailabilityStatus::Unknown,
            completion_status: CompletionStatus::Incomplete,
            progression_status: ProgressionStatus::Unknown,
            last_checked: None,
            notes: String::new(),
            claimed_by_ct_user_id: None,
            effective_discord_username: None,
            user_is_away: false,
        };
        row.update_completion_status();
        game_rows.push(row);
        i = i + 1;
    }
    let mut hint_rows: Vec<NewHintPlan> = Vec::new();
    let mut j: usize = 0;
    while j < hints.len()
        invariant
            0 <= j <= hv.len(),
            gv == games.deep_view(),
            hv == hints.deep_view(),
            first_unconvertible(gv, 0) == gv.len(),
            first_unresolvable(gv, hv, 0) == first_unresolvable(gv, hv, j as int),
            hint_rows@.len() == j,
            forall|k: int| 0 <= k < j ==> new_hint_plan_ok(#[trigger] hint_rows@[k], gv, hv[k]),
        decreases hv.len() - j,
    {
        proof {
            assert(hints.deep_view()[j as int] == hints@[j as int]@);
        }
        let h = &hints[j];
        let finder_game = match rfind_name_exec(games, &h.finder) {
            None => {
                assert(rfind_game_name(gv, hv[j as int].finder) < 0);
                return Err(TrackerUpdateError::HintGameMissing(h.finder.clone()));
            },
            Some(fi) => fi,
        };
        let (receiver_game, item_link_name): (Option<usize>, String) = match rfind_name_exec(
            games,
            &h.receiver,
        ) {
            Some(ri) => (Some(ri), String::new()),
            None => (None, h.receiver.clone()),
        };
        hint_rows.push(
            NewHintPlan {
                finder_game,
                receiver_game,
                item: h.item.clone(),
                location: h.location.clone(),
                entrance: h.entrance.clone(),
                found: h.found,
                classification: HintClassification::Unset,
                item_link_name,
            },
        );
        j = j + 1;
    }
    Ok(
        NewTrackerPlan {
            tracker: ApTrackerInsertion {
                tracker_id,
                upstream_url: upstream_url.to_owned(),
                updated_at: now,
                title: String::new(),
                description: String::new(),
                owner_ct_user_id: None,
                lock_settings: false,
                global_ping_policy: None,
                room_link: String::new(),
                last_port: None,
                next_port_check_at: None,
                inactivity_threshold_yellow_hours: 24,
                inactivity_threshold_red_hours: 48,
                require_authentication_to_claim: false,
            },
            games: game_rows,
            hints: hint_rows,
        },
    )
}

/// One slot-row update of an update plan: the new row, the columns that
/// changed, and the audit entry when any diffed field changed.
#[derive(Debug)]
pub struct GameUpdate {
    pub game: ApGame,
    pub columns: Vec<ApGameIden>,
    pub audit: Option<AuditEntry>,
}

/// One hint-row update of an update plan: the row with its found flag
/// replaced, and the audit entry for the change.
#[derive(Debug)]
pub struct HintUpdate {
    pub hint: ApHint,
    pub audit: Option<AuditEntry>,
}

/// A plan updating an already-stored tracked resource.
#[derive(Debug)]
pub struct UpdatePlan {
    pub game_updates: Vec<GameUpdate>,
    pub hint_updates: Vec<HintUpdate>,
    pub new_hints: Vec<ApHintInsertion>,
    pub stale_hint_ids: Vec<i32>,
    pub tracker: ApTracker,
    pub tracker_columns: Vec<ApTrackerIden>,
    pub tracker_audit: Option<AuditEntry>,
}

/// The first index at or after `i` of a stored slot with a position above
/// `p`, or the length if there is none.
pub open spec fn find_pos_gt(s: Seq<ApGame>, p: i32, i: int) -> int
    decreases s.len() - i,
{
    if i < 0 || i >= s.len() {
        s.len() as int
    } else if s[i].position > p {
        i
    } else {
        find_pos_gt(s, p, i + 1)
    }
}

/// `x` inserted into `s` after every element whose position does not exceed
/// its own.
pub open spec fn stable_insert(s: Seq<ApGame>, x: ApGame) -> Seq<ApGame> {
    s.insert(find_pos_gt(s, x.position, 0), x)
}

/// `s` sorted by position, elements of equal position keeping their order.
pub open spec fn stable_sort_by_position(s: Seq<ApGame>) -> Seq<ApGame>
    decreases s.len(),
{
    if s.len() == 0 {
        Seq::empty()
    } else {
        stable_insert(stable_sort_by_position(s.drop_last()), s.last())
    }
}

/// Where [`find_pos_gt`] lands: at or after `j`, and no later than the
/// length.
proof fn lemma_find_pos_gt_bounds(s: Seq<ApGame>, p: i32, j: int)
    requires
        0 <= j <= s.len(),
    ensures
        j <= find_pos_gt(s, p, j) <= s.len(),
    decreases s.len() - j,
{
    if j < s.len() && !(s[j].position > p) {
        lemma_find_pos_gt_bounds(s, p, j + 1);
    }
}

/// Sorts stored slots by position, keeping the order of equal positions.
fn sort_games_by_position(games: Vec<ApGame>) -> (r: Vec<ApGame>)
    ensures
        r@ == stable_sort_by_position(games@),
        r@.len() == games@.len(),
{
    let ghost gv: Seq<ApGame> = games@;
    let mut r: Vec<ApGame> = Vec::new();
    let mut i: usize = 0;
    assert(gv.subrange(0, 0) =~= Seq::<ApGame>::empty());
    while i < games.len()
        invariant
            0 <= i <= gv.len(),
            gv == games@,
            r@ == stable_sort_by_position(gv.subrange(0, i as int)),
            r@.len() == i,
        decreases gv.len() - i,
    {
        let x = games[i].clone();
        let ghost rv: Seq<ApGame> = r@;
        let mut k: usize = 0;
        while k < r.len() && !(r[k].position > x.position)
            invariant
                0 <= k <= rv.len(),
                rv == r@,
                x == gv[i as int],
                find_pos_gt(rv, x.position, 0) == find_pos_gt(rv, x.position, k as int),
            decreases rv.len() - k,
        {
            k = k + 1;
        }
        assert(find_pos_gt(rv, x.position, 0) == k);
        r.insert(k, x);
        proof {
            assert(gv.subrange(0, i + 1).drop_last() =~= gv.subrange(0, i as int));
            assert(gv.subrange(0, i + 1).last() == gv[i as int]);
            assert(r@ == stable_insert(rv, gv[i as int]));
        }
        i = i + 1;
    }
    assert(gv.subrange(0, gv.len() as int) =~= gv);
    r
}

/// What checking one parsed slot against its stored counterpart yields:
/// unconvertible numbers fail naming the position; a changed position,
/// changed underlying game or changed total check count is the immutable-slot
/// violation; otherwise the pair is sound.
pub open spec fn pair_error(g: GameView, d: ApGame) -> Option<TrackerUpdateError> {
    if game_unconvertible(g) {
        Some(TrackerUpdateError::NumericConversion(g.position))
    } else if g.position as i32 != d.position || g.game != d.game@ || g.checks_total as i32
        != d.checks_total {
        Some(TrackerUpdateError::GameInformationMismatch(g.position))
    } else {
        None
    }
}

/// The first pair index at or after `k` whose check fails, or the number of
/// pairs if all pass.
pub open spec fn first_pair_error(games: Seq<GameView>, db: Seq<ApGame>, k: int) -> int
    decreases games.len() - k,
{
    if k < 0 || k >= games.len() {
        games.len() as int
    } else if pair_error(games[k], db[k]) is Some {
        k
    } else {
        first_pair_error(games, db, k + 1)
    }
}

/// Whether the stored last-activity timestamp is kept: both timestamps exist
/// and differ by less than a minute, so the difference is snapshot-epoch
/// jitter, not activity.
pub open spec fn keep_last_activity(old_la: Option<i64>, new_la: Option<i64>) -> bool {
    &&& old_la matches Some(a)
    &&& new_la matches Some(b)
    &&& -60000 < a - b < 60000
}

/// The columns a slot update writes, in order: the always-written name,
/// connectivity status and completed-check count, then the last-activity
/// timestamp when it moved, then the completion status when the merge
/// changed it.
pub open spec fn expected_game_columns(la_changed: bool, cs_changed: bool) -> Seq<ApGameIden> {
    let base = seq![ApGameIden::Name, ApGameIden::TrackerStatus, ApGameIden::ChecksDone];
    let with_la = if la_changed {
        base.push(ApGameIden::LastActivity)
    } else {
        base
    };
    if cs_changed {
        with_la.push(ApGameIden::CompletionStatus)
    } else {
        with_la
    }
}

/// What one slot update holds: the synchronization-owned fields take the
/// parsed values, the last-activity timestamp moves only past the jitter
/// window, the completion status is re-merged, every other field keeps its
/// stored value, and an audit entry exists exactly when a diffed field
/// changed.
pub open spec fn game_update_ok(u: GameUpdate, now: i64, old: ApGame, g: GameView) -> bool {
    let new_la = derived_last_activity(now, g.last_activity);
    let keep = keep_last_activity(old.last_activity, new_la);
    let merged = merge_status(
        auto_status(
            AutoStatusInputs {
                checks_done: g.checks_completed as i32,
                checks_total: old.checks_total,
                tracker_status: g.status,
            },
        ),
        old.completion_status,
    );
    &&& u.game.id == old.id
    &&& u.game.tracker_id == old.tracker_id
    &&& u.game.position == old.position
    &&& u.game.name@ == g.name
    &&& u.game.game@ == old.game@
    &&& u.game.tracker_status == g.status
    &&& u.game.checks_done == g.checks_completed as i32
    &&& u.game.checks_total == old.checks_total
    &&& u.game.last_activity == (if keep {
        old.last_activity
    } else {
        new_la
    })
    &&& opt_str_view(u.game.discord_username) == opt_str_view(old.discord_username)
    &&& u.game.discord_ping == old.discord_ping
    &&& u.game.last_checked == old.last_checked
    &&& u.game.notes@ == old.notes@
    &&& u.game.claimed_by_ct_user_id == old.claimed_by_ct_user_id
    &&& u.game.availability_status == old.availability_status
    &&& u.game.completion_status == merged
    &&& u.game.progression_status == old.progression_status
    &&& opt_str_view(u.game.effective_discord_username) == opt_str_view(
        old.effective_discord_username,
    )
    &&& u.game.user_is_away == old.user_is_away
    &&& u.columns@ == expected_game_columns(!keep, merged != old.completion_status)
    &&& (u.audit is Some <==> !game_diff_empty(old, u.game))
    &&& (u.audit matches Some(e) ==> e.entity is Game && e.entity_id == old.id && e.changed_at
        == now && e.diff is Game)
}

/// The key a parsed hint reconciles under: its finder and receiver resolved
/// by name against the paired slots, with the upstream receiver label
/// preserved when no slot carries it; nothing when the finder resolves to no
/// slot.
pub open spec fn hint_key_of(games: Seq<GameView>, db: Seq<ApGame>, h: HintView) -> Option<
    (i32, Option<i32>, Seq<char>),
> {
    let fi = rfind_game_name(games, h.finder);
    if fi < 0 {
        None
    } else {
        let ri = rfind_game_name(games, h.receiver);
        if ri >= 0 {
            Some((db[fi].id, Some(db[ri].id), Seq::<char>::empty()))
        } else {
            Some((db[fi].id, None, h.receiver))
        }
    }
}

/// Whether a stored hint carries the key of a parsed hint.
pub open spec fn db_hint_matches(
    d: ApHint,
    f: i32,
    r: Option<i32>,
    link: Seq<char>,
    h: HintView,
) -> bool {
    &&& d.finder_game_id == f
    &&& d.receiver_game_id == r
    &&& d.item_link_name@ == link
    &&& d.item@ == h.item
    &&& d.location@ == h.location
    &&& d.entrance@ == h.entrance
}

/// The first stored hint at or after `j` that is unmatched and carries the
/// key, or the number of stored hints if there is none.
pub open spec fn find_db_match(
    db: Seq<ApHint>,
    matched: Seq<bool>,
    f: i32,
    r: Option<i32>,
    link: Seq<char>,
    h: HintView,
    j: int,
) -> int
    decreases db.len() - j,
{
    if j < 0 || j >= db.len() {
        db.len() as int
    } else if !matched[j] && db_hint_matches(db[j], f, r, link, h) {
        j
    } else {
        find_db_match(db, matched, f, r, link, h, j + 1)
    }
}

/// The state of the hint reconciliation after some parsed hints have been
/// processed: which stored hints have been claimed, which get their found
/// flag rewritten (by stored index), and which parsed hints (by index)
/// become new rows.
pub struct HintMatchState {
    pub matched: Seq<bool>,
    pub updates: Seq<(int, bool)>,
    pub news: Seq<int>,
}

/// Reconciles the first `n` parsed hints against the stored hints as a
/// multiset match: each parsed hint claims the earliest unclaimed stored
/// hint with its key, rewriting the found flag when it differs; a parsed
/// hint with no match left becomes a new row; a finder naming no slot fails
/// the whole reconciliation with that name.
pub open spec fn hint_fold(
    games: Seq<GameView>,
    dbg: Seq<ApGame>,
    dbh: Seq<ApHint>,
    hints: Seq<HintView>,
    n: int,
) -> Result<HintMatchState, Seq<char>>
    decreases n,
{
    if n <= 0 {
        Ok(
            HintMatchState {
                matched: Seq::new(dbh.len(), |i: int| false),
                updates: Seq::empty(),
                news: Seq::empty(),
            },
        )
    } else {
        match hint_fold(games, dbg, dbh, hints, n - 1) {
            Err(e) => Err(e),
            Ok(st) => {
                let h = hints[n - 1];
                match hint_key_of(games, dbg, h) {
                    None => Err(h.finder),
                    Some(key) => {
                        let j = find_db_match(dbh, st.matched, key.0, key.1, key.2, h, 0);
                        if j < dbh.len() {
                            if dbh[j].found != h.found {
                                Ok(
                                    HintMatchState {
                                        matched: st.matched.update(j, true),
                                        updates: st.updates.push((j, h.found)),
                                        news: st.news,
                                    },
                                )
                            } else {
                                Ok(
                                    HintMatchState {
                                        matched: st.matched.update(j, true),
                                        updates: st.updates,
                                        news: st.news,
                                    },
                                )
                            }
                        } else {
                            Ok(
                                HintMatchState {
                                    matched: st.matched,
                                    updates: st.updates,
                                    news: st.news.push(n - 1),
                                },
                            )
                        }
                    },
                }
            },
        }
    }
}

/// The ids of the stored hints at or after `j` left unclaimed, in stored
/// order.
pub open spec fn stale_ids(dbh: Seq<ApHint>, matched: Seq<bool>, j: int) -> Seq<i32>
    decreases dbh.len() - j,
{
    if j < 0 || j >= dbh.len() {
        Seq::empty()
    } else if matched[j] {
        stale_ids(dbh, matched, j + 1)
    } else {
        seq![dbh[j].id] + stale_ids(dbh, matched, j + 1)
    }
}

/// What one hint update holds: the stored row with only its found flag
/// rewritten, and the audit entry for that change.
pub open spec fn hint_update_ok(u: HintUpdate, now: i64, old: ApHint, new_found: bool) -> bool {
    &&& u.hint.id == old.id
    &&& u.hint.finder_game_id == old.finder_game_id
    &&& u.hint.receiver_game_id == old.receiver_game_id
    &&& u.hint.item@ == old.item@
    &&& u.hint.location@ == old.location@
    &&& u.hint.entrance@ == old.entrance@
    &&& u.hint.found == new_found
    &&& u.hint.classification == old.classification
    &&& u.hint.item_link_name@ == old.item_link_name@
    &&& (u.audit is Some <==> !hint_diff_empty(old, u.hint))
    &&& (u.audit matches Some(e) ==> e.entity is Hint && e.entity_id == old.id && e.changed_at
        == now && e.diff is Hint)
}

/// What a hint row created during an update holds.
pub open spec fn new_hint_insertion_ok(
    ins: ApHintInsertion,
    f: i32,
    r: Option<i32>,
    link: Seq<char>,
    h: HintView,
) -> bool {
    &&& ins.finder_game_id == f
    &&& ins.receiver_game_id == r
    &&& ins.item_link_name@ == link
    &&& ins.item@ == h.item
    &&& ins.location@ == h.location
    &&& ins.entrance@ == h.entrance
    &&& ins.found == h.found
    &&& ins.classification is Unset
}

/// The state the hint fold reaches after `n` hints, when it reaches one.
pub open spec fn fold_state(
    games: Seq<GameView>,
    dbg: Seq<ApGame>,
    dbh: Seq<ApHint>,
    hints: Seq<HintView>,
    n: int,
) -> HintMatchState {
    hint_fold(games, dbg, dbh, hints, n)->Ok_0
}

/// How the exec hint phase tracks the spec fold: the claim marks agree, and
/// the update and insertion rows built so far are exactly those the fold
/// prescribes.
pub open spec fn hint_phase_ok(
    st: HintMatchState,
    now: i64,
    games: Seq<GameView>,
    sorted: Seq<ApGame>,
    dbh: Seq<ApHint>,
    hints: Seq<HintView>,
    matched: Seq<bool>,
    hint_updates: Seq<HintUpdate>,
    new_hints: Seq<ApHintInsertion>,
) -> bool {
    &&& st.matched == matched
    &&& hint_updates.len() == st.updates.len()
    &&& (forall|k: int|
        0 <= k < st.updates.len() ==> 0 <= st.updates[k].0 < dbh.len() && hint_update_ok(
            #[trigger] hint_updates[k],
            now,
            dbh[st.updates[k].0],
            st.updates[k].1,
        ))
    &&& new_hints.len() == st.news.len()
    &&& (forall|k: int|
        0 <= k < st.news.len() ==> 0 <= st.news[k] < hints.len() && (hint_key_of(
            games,
            sorted,
            hints[st.news[k]],
        ) matches Some(key) && new_hint_insertion_ok(
            #[trigger] new_hints[k],
            key.0,
            key.1,
            key.2,
            hints[st.news[k]],
        )))
}

/// What a full update plan holds, against the stored state with its slots
/// already sorted by position.
pub open spec fn update_plan_ok(
    p: UpdatePlan,
    now: i64,
    tracker: ApTracker,
    sorted: Seq<ApGame>,
    dbh: Seq<ApHint>,
    games: Seq<GameView>,
    hints: Seq<HintView>,
) -> bool {
    &&& p.game_updates@.len() == games.len()
    &&& (forall|i: int|
        0 <= i < games.len() ==> game_update_ok(
            #[trigger] p.game_updates@[i],
            now,
            sorted[i],
            games[i],
        ))
    &&& (hint_fold(games, sorted, dbh, hints, hints.len() as int) matches Ok(st) && {
        &&& hint_phase_ok(
            st,
            now,
            games,
            sorted,
            dbh,
            hints,
            st.matched,
            p.hint_updates@,
            p.new_hints@,
        )
        &&& p.stale_hint_ids@ == stale_ids(dbh, st.matched, 0)
    })
    &&& p.tracker.id == tracker.id
    &&& p.tracker.tracker_id == tracker.tracker_id
    &&& p.tracker.updated_at == now
    &&& p.tracker.title@ == tracker.title@
    &&& p.tracker.description@ == tracker.description@
    &&& p.tracker.owner_ct_user_id == tracker.owner_ct_user_id
    &&& p.tracker.lock_settings == tracker.lock_settings
    &&& p.tracker.upstream_url@ == tracker.upstream_url@
    &&& p.tracker.global_ping_policy == tracker.global_ping_policy
    &&& p.tracker.room_link@ == tracker.room_link@
    &&& p.tracker.last_port == tracker.last_port
    &&& p.tracker.next_port_check_at == tracker.next_port_check_at
    &&& p.tracker.inactivity_threshold_yellow_hours == tracker.inactivity_threshold_yellow_hours
    &&& p.tracker.inactivity_threshold_red_hours == tracker.inactivity_threshold_red_hours
    &&& p.tracker.require_authentication_to_claim == tracker.require_authentication_to_claim
    &&& p.tracker_columns@ == seq![ApTrackerIden::UpdatedAt]
    &&& (p.tracker_audit is Some <==> !tracker_diff_empty(tracker, p.tracker))
}

/// What planning an update returns: a changed slot count fails the plan; a
/// bad pair fails it as [`pair_error`] says, taking the first bad pair in
/// position order; an unresolvable hint finder fails it naming the finder;
/// otherwise the full update plan.
pub open spec fn update_outcome_ok(
    r: Result<UpdatePlan, TrackerUpdateError>,
    now: i64,
    tracker: ApTracker,
    db_games: Seq<ApGame>,
    db_hints: Seq<ApHint>,
    games: Seq<GameView>,
    hints: Seq<HintView>,
) -> bool {
    let sorted = stable_sort_by_position(db_games);
    if games.len() != db_games.len() {
        r matches Err(TrackerUpdateError::GameCountMismatch { tracker: t, database: d }) && t
            == games.len() && d == db_games.len()
    } else {
        let bp = first_pair_error(games, sorted, 0);
        if bp < games.len() {
            r matches Err(e) && Some(e) == pair_error(games[bp], sorted[bp])
        } else {
            match hint_fold(games, sorted, db_hints, hints, hints.len() as int) {
                Err(name) => r matches Err(TrackerUpdateError::HintGameMissing(n)) && n@ == name,
                Ok(st) => r matches Ok(p) && update_plan_ok(
                    p,
                    now,
                    tracker,
                    sorted,
                    db_hints,
                    games,
                    hints,
                ),
            }
        }
    }
}

/// Finds the earliest unclaimed stored hint carrying the key, as
/// [`find_db_match`] describes.
fn find_match_exec(
    db_hints: &Vec<ApHint>,
    matched: &Vec<bool>,
    f: i32,
    r: Option<i32>,
    link: &String,
    h: &Hint,
) -> (res: Option<usize>)
    requires
        matched@.len() == db_hints@.len(),
    ensures
        match res {
            Some(j) => find_db_match(db_hints@, matched@, f, r, link@, h@, 0) == j && j
                < db_hints@.len(),
            None => find_db_match(db_hints@, matched@, f, r, link@, h@, 0) == db_hints@.len(),
        },
{
    let n = db_hints.len();
    let mut m: usize = 0;
    while m < n
        invariant
            0 <= m <= n,
            n == db_hints@.len(),
            matched@.len() == n,
            find_db_match(db_hints@, matched@, f, r, link@, h@, 0) == find_db_match(
                db_hints@,
                matched@,
                f,
                r,
                link@,
                h@,
                m as int,
            ),
        decreases n - m,
    {
        if !matched[m] {
            let d = &db_hints[m];
            let receiver_eq = match (d.receiver_game_id, r) {
                (None, None) => true,
                (Some(a), Some(b)) => a == b,
                _ => false,
            };
            if d.finder_game_id == f && receiver_eq && d.item_link_name.eq(link) && d.item.eq(
                &h.item,
            ) && d.location.eq(&h.location) && d.entrance.eq(&h.entrance) {
                assert(db_hint_matches(db_hints@[m as int], f, r, link@, h@));
                return Some(m);
            }
            assert(!db_hint_matches(db_hints@[m as int], f, r, link@, h@));
        }
        m = m + 1;
    }
    None
}

/// Plans the update of an already-stored tracked resource, as
/// [`update_outcome_ok`] describes: stored slots are paired with parsed
/// slots by sorted position after the slot count and slot identities are
/// checked; hints reconcile as a multiset match on their composite key;
/// hints no longer reported upstream are marked stale; and the resource's
/// freshness marker moves to `now`.
#[verifier::rlimit(100)]
#[verifier::loop_isolation(false)]
pub fn plan_update(
    now: i64,
    tracker: &ApTracker,
    db_games: Vec<ApGame>,
    db_hints: Vec<ApHint>,
    games: &Vec<Game>,
    hints: &Vec<Hint>,
) -> (r: Result<UpdatePlan, TrackerUpdateError>)
    requires
        activity_in_range(now, games.deep_view()),
        // The freshness marker only moves forward.
        now >= tracker.updated_at,
    ensures
        update_outcome_ok(
            r,
            now,
            *tracker,
            db_games@,
            db_hints@,
            games.deep_view(),
            hints.deep_view(),
        ),
{
    let ghost gv: Seq<GameView> = games.deep_view();
    let ghost hv: Seq<HintView> = hints.deep_view();
    let ghost dbgv: Seq<ApGame> = db_games@;
    let ghost dbhv: Seq<ApHint> = db_hints@;
    if games.len() != db_games.len() {
        return Err(
            TrackerUpdateError::GameCountMismatch {
                tracker: games.len(),
                database: db_games.len(),
            },
        );
    }
    let sorted = sort_games_by_position(db_games);
    let ghost sortedv: Seq<ApGame> = sorted@;

    let mut game_updates: Vec<GameUpdate> = Vec::new();
    let mut i: usize = 0;
    while i < games.len()
        invariant
            0 <= i <= gv.len(),
            gv == games.deep_view(),
            gv.len() == sortedv.len(),
            gv.len() == dbgv.len(),
            sortedv == sorted@,
            sortedv == stable_sort_by_position(dbgv),
            activity_in_range(now, gv),
            first_pair_error(gv, sortedv, 0) == first_pair_error(gv, sortedv, i as int),
            game_updates@.len() == i,
            forall|k: int|
                0 <= k < i ==> game_update_ok(
                    #[trigger] game_updates@[k],
                    now,
                    sortedv[k],
                    gv[k],
                ),
        decreases gv.len() - i,
    {
        proof {
            assert(games.deep_view()[i as int] == games@[i as int]@);
            assert(gv[i as int].last_activity matches Some(d) ==> i64::MIN <= now - d <= i64::MAX);
        }
        let g = &games[i];
        let old_game = &sorted[i];
        if g.position > 0x7fff_ffff || g.checks.completed > 0x7fff_ffff || g.checks.total
            > 0x7fff_ffff {
            assert(pair_error(gv[i as int], sortedv[i as int]) matches Some(e) && (e matches
            TrackerUpdateError::NumericConversion(p) && p == gv[i as int].position));
            return Err(TrackerUpdateError::NumericConversion(g.position));
        }
        if g.position as i32 != old_game.position || !g.game.eq(&old_game.game) || g.checks.total
            as i32 != old_game.checks_total {
            assert(pair_error(gv[i as int], sortedv[i as int]) matches Some(e) && (e matches
            TrackerUpdateError::GameInformationMismatch(p) && p == gv[i as int].position));
            return Err(TrackerUpdateError::GameInformationMismatch(g.position));
        }
        assert(pair_error(gv[i as int], sortedv[i as int]) is None);

        let mut new_game = old_game.clone();
        new_game.name = g.name.clone();
        new_game.tracker_status = g.status;
        new_game.checks_done = g.checks.completed as i32;

        let mut columns: Vec<ApGameIden> = Vec::new();
        columns.push(ApGameIden::Name);
        columns.push(ApGameIden::TrackerStatus);
        columns.push(ApGameIden::ChecksDone);

        let new_la: Option<i64> = match g.last_activity {
            Some(d) => Some(now - d),
            None => None,
        };
        let keep: bool = match (old_game.last_activity, new_la) {
            (Some(a), Some(b)) => {
                let diff: i128 = a as i128 - b as i128;
                -60000 < diff && diff < 60000
            },
            _ => false,
        };
        assert(keep == keep_last_activity(old_game.last_activity, new_la));
        if !keep {
            new_game.last_activity = new_la;
            columns.push(ApGameIden::LastActivity);
        }
        let cs_changed = new_game.update_completion_status();
        if cs_changed {
            columns.push(ApGameIden::CompletionStatus);
        }
        proof {
            assert(columns@ =~= expected_game_columns(
                !keep,
                new_game.completion_status != sortedv[i as int].completion_status,
            ));
        }
        let audit = audit_for_game(now, old_game, &new_game);
        game_updates.push(GameUpdate { game: new_game, columns, audit });
        i = i + 1;
    }

    // Reconcile hints as a multiset match on their composite key.
    let mut matched: Vec<bool> = Vec::new();
    let mut m: usize = 0;
    while m < db_hints.len()
        invariant
            0 <= m <= dbhv.len(),
            dbhv == db_hints@,
            matched@ =~= Seq::new(m as nat, |i: int| false),
        decreases dbhv.len() - m,
    {
        matched.push(false);
        assert(matched@ =~= Seq::new((m + 1) as nat, |i: int| false));
        m = m + 1;
    }
    assert(matched@ =~= Seq::new(dbhv.len(), |i: int| false));

    let mut hint_updates: Vec<HintUpdate> = Vec::new();
    let mut new_hints: Vec<ApHintInsertion> = Vec::new();
    let mut j: usize = 0;
    while j < hints.len()
        invariant
            0 <= j <= hv.len(),
            gv == games.deep_view(),
            hv == hints.deep_view(),
            gv.len() == sortedv.len(),
            gv.len() == dbgv.len(),
            sortedv == sorted@,
            sortedv == stable_sort_by_position(dbgv),
            first_pair_error(gv, sortedv, 0) == gv.len(),
            dbhv == db_hints@,
            matched@.len() == dbhv.len(),
            hint_fold(gv, sortedv, dbhv, hv, j as int) is Ok,
            fold_state(gv, sortedv, dbhv, hv, j as int).matched == matched@,
            hint_updates@.len() == fold_state(gv, sortedv, dbhv, hv, j as int).updates.len(),
            forall|k: int|
                #![trigger hint_updates@[k]]
                #![trigger fold_state(gv, sortedv, dbhv, hv, j as int).updates[k]]
                0 <= k < hint_updates@.len() ==> 0 <= fold_state(
                    gv,
                    sortedv,
                    dbhv,
                    hv,
                    j as int,
                ).updates[k].0 < dbhv.len() && hint_update_ok(
                    hint_updates@[k],
                    now,
                    dbhv[fold_state(gv, sortedv, dbhv, hv, j as int).updates[k].0],
                    fold_state(gv, sortedv, dbhv, hv, j as int).updates[k].1,
                ),
            new_hints@.len() == fold_state(gv, sortedv, dbhv, hv, j as int).news.len(),
            forall|k: int|
                #![trigger new_hints@[k]]
                #![trigger fold_state(gv, sortedv, dbhv, hv, j as int).news[k]]
                0 <= k < new_hints@.len() ==> 0 <= fold_state(
                    gv,
                    sortedv,
                    dbhv,
                    hv,
                    j as int,
                ).news[k] < hv.len() && (hint_key_of(
                    gv,
                    sortedv,
                    hv[fold_state(gv, sortedv, dbhv, hv, j as int).news[k]],
                ) matches Some(key) && new_hint_insertion_ok(
                    new_hints@[k],
                    key.0,
                    key.1,
                    key.2,
                    hv[fold_state(gv, sortedv, dbhv, hv, j as int).news[k]],
                )),
        decreases hv.len() - j,
    {
        proof {
            assert(hints.deep_view()[j as int] == hints@[j as int]@);
        }
        let h = &hints[j];
        let finder_idx = match rfind_name_exec(games, &h.finder) {
            None => {
                assert(hint_key_of(gv, sortedv, hv[j as int]) is None);
                assert(hint_fold(gv, sortedv, dbhv, hv, j + 1) == Err::<
                    HintMatchState,
                    Seq<char>,
                >(hv[j as int].finder));
                proof {
                    lemma_hint_fold_err(gv, sortedv, dbhv, hv, j + 1, hv.len() as int);
                }
                return Err(TrackerUpdateError::HintGameMissing(h.finder.clone()));
            },
            Some(fi) => fi,
        };
        let finder_id = sorted[finder_idx].id;
        let (receiver_id, link): (Option<i32>, String) = match rfind_name_exec(games, &h.receiver) {
            Some(ri) => (Some(sorted[ri].id), String::new()),
            None => (None, h.receiver.clone()),
        };
        let ghost linkv: Seq<char> = link@;
        let ghost st_prev: HintMatchState = hint_fold(gv, sortedv, dbhv, hv, j as int)->Ok_0;
        proof {
            assert(hint_key_of(gv, sortedv, hv[j as int]) matches Some(key) && key.0 == finder_id
                && key.1 == receiver_id && key.2 == linkv);
        }
        match find_match_exec(&db_hints, &matched, finder_id, receiver_id, &link, h) {
            Some(dj) => {
                proof {
                    assert(find_db_match(dbhv, st_prev.matched, finder_id, receiver_id, linkv,
                    hv[j as int], 0) == dj);
                }
                let ghost prev_matched = matched@;
                matched.set(dj, true);
                assert(matched@ =~= prev_matched.update(dj as int, true));
                if db_hints[dj].found != h.found {
                    let mut new_hint = db_hints[dj].clone();
                    new_hint.found = h.found;
                    let audit = audit_for_hint(now, &db_hints[dj], &new_hint);
                    let ghost prev_updates = hint_updates@;
                    hint_updates.push(HintUpdate { hint: new_hint, audit });
                    proof {
                        let stn = hint_fold(gv, sortedv, dbhv, hv, j + 1)->Ok_0;
                        assert(hint_fold(gv, sortedv, dbhv, hv, j + 1) is Ok);
                        assert(stn.matched == st_prev.matched.update(dj as int, true));
                        assert(stn.updates == st_prev.updates.push((dj as int, hv[j as int].found)));
                        assert(stn.news == st_prev.news);
                        assert(hint_updates@ =~= prev_updates.push(hint_updates@.last()));
                        assert(hint_update_ok(
                            hint_updates@.last(),
                            now,
                            dbhv[dj as int],
                            hv[j as int].found,
                        ));
                        assert forall|k: int| 0 <= k < hint_updates@.len() implies 0 <= stn.updates[k].0
                            < dbhv.len() && hint_update_ok(
                            #[trigger] hint_updates@[k],
                            now,
                            dbhv[stn.updates[k].0],
                            stn.updates[k].1,
                        ) by {
                            if k < hint_updates@.len() - 1 {
                                assert(hint_updates@[k] == prev_updates[k]);
                                assert(stn.updates[k] == st_prev.updates[k]);
                            }
                        }
                        assert forall|k: int| 0 <= k < new_hints@.len() implies 0 <= stn.news[k]
                            < hv.len() && (hint_key_of(gv, sortedv, hv[stn.news[k]]) matches Some(
                        key) && new_hint_insertion_ok(
                            #[trigger] new_hints@[k],
                            key.0,
                            key.1,
                            key.2,
                            hv[stn.news[k]],
                        )) by {
                            assert(0 <= fold_state(gv, sortedv, dbhv, hv, j as int).news[k]
                                < hv.len() && (hint_key_of(
                                gv,
                                sortedv,
                                hv[fold_state(gv, sortedv, dbhv, hv, j as int).news[k]],
                            ) matches Some(key) && new_hint_insertion_ok(
                                new_hints@[k],
                                key.0,
                                key.1,
                                key.2,
                                hv[fold_state(gv, sortedv, dbhv, hv, j as int).news[k]],
                            )));
                            assert(st_prev == fold_state(gv, sortedv, dbhv, hv, j as int));
                            assert(stn.news[k] == st_prev.news[k]);
                        }
                    }
                } else {
                    proof {
                        let stn = hint_fold(gv, sortedv, dbhv, hv, j + 1)->Ok_0;
                        assert(hint_fold(gv, sortedv, dbhv, hv, j + 1) is Ok);
                        assert(stn.matched == st_prev.matched.update(dj as int, true));
                        assert(stn.updates == st_prev.updates);
                        assert(stn.news == st_prev.news);
                        assert(hint_updates@.len() == st_prev.updates.len());
                        assert(hint_updates@.len() == fold_state(gv, sortedv, dbhv, hv, j as int).updates.len());
                        assert forall|k: int| 0 <= k < hint_updates@.len() implies 0 <= stn.updates[k].0
                            < dbhv.len() && hint_update_ok(
                            #[trigger] hint_updates@[k],
                            now,
                            dbhv[stn.updates[k].0],
                            stn.updates[k].1,
                        ) by {
                            assert(0 <= fold_state(gv, sortedv, dbhv, hv, j as int).updates[k].0
                                < dbhv.len() && hint_update_ok(
                                hint_updates@[k],
                                now,
                                dbhv[fold_state(gv, sortedv, dbhv, hv, j as int).updates[k].0],
                                fold_state(gv, sortedv, dbhv, hv, j as int).updates[k].1,
                            ));
                            assert(st_prev == fold_state(gv, sortedv, dbhv, hv, j as int));
                            assert(stn.updates[k] == st_prev.updates[k]);
                        }
                        assert forall|k: int| 0 <= k < new_hints@.len() implies 0 <= stn.news[k]
                            < hv.len() && (hint_key_of(gv, sortedv, hv[stn.news[k]]) matches Some(
                        key) && new_hint_insertion_ok(
                            #[trigger] new_hints@[k],
                            key.0,
                            key.1,
                            key.2,
                            hv[stn.news[k]],
                        )) by {
                            assert(0 <= fold_state(gv, sortedv, dbhv, hv, j as int).news[k]
                                < hv.len() && (hint_key_of(
                                gv,
                                sortedv,
                                hv[fold_state(gv, sortedv, dbhv, hv, j as int).news[k]],
                            ) matches Some(key) && new_hint_insertion_ok(
                                new_hints@[k],
                                key.0,
                                key.1,
                                key.2,
                                hv[fold_state(gv, sortedv, dbhv, hv, j as int).news[k]],
                            )));
                            assert(st_prev == fold_state(gv, sortedv, dbhv, hv, j as int));
                            assert(stn.news[k] == st_prev.news[k]);
                        }
                    }
                }
            },
            None => {
                proof {
                    assert(find_db_match(dbhv, st_prev.matched, finder_id, receiver_id, linkv,
                    hv[j as int], 0) == dbhv.len());
                }
                let ghost prev_news = new_hints@;
                new_hints.push(
                    ApHintInsertion {
                        finder_game_id: finder_id,
                        receiver_game_id: receiver_id,
                        item: h.item.clone(),
                        location: h.location.clone(),
                        entrance: h.entrance.clone(),
                        found: h.found,
                        classification: HintClassification::Unset,
                        item_link_name: link,
                    },
                );
                proof {
                    let stn = hint_fold(gv, sortedv, dbhv, hv, j + 1)->Ok_0;
                    assert(hint_fold(gv, sortedv, dbhv, hv, j + 1) is Ok);
                    assert(stn.matched == st_prev.matched);
                    assert(stn.updates == st_prev.updates);
                    assert(stn.news == st_prev.news.push(j as int));
                    assert(new_hints@ =~= prev_news.push(new_hints@.last()));
                    assert(new_hint_insertion_ok(
                        new_hints@.last(),
                        finder_id,
                        receiver_id,
                        linkv,
                        hv[j as int],
                    ));
                    assert forall|k: int| 0 <= k < new_hints@.len() implies 0 <= stn.news[k]
                        < hv.len() && (hint_key_of(gv, sortedv, hv[stn.news[k]]) matches Some(key)
                        && new_hint_insertion_ok(
                        #[trigger] new_hints@[k],
                        key.0,
                        key.1,
                        key.2,
                        hv[stn.news[k]],
                    )) by {
                        if k < new_hints@.len() - 1 {
                            assert(new_hints@[k] == prev_news[k]);
                            assert(stn.news[k] == st_prev.news[k]);
                        }
                    }
                    assert forall|k: int| 0 <= k < hint_updates@.len() implies 0 <= stn.updates[k].0
                        < dbhv.len() && hint_update_ok(
                        #[trigger] hint_updates@[k],
                        now,
                        dbhv[stn.updates[k].0],
                        stn.updates[k].1,
                    ) by {
                        assert(0 <= fold_state(gv, sortedv, dbhv, hv, j as int).updates[k].0
                            < dbhv.len() && hint_update_ok(
                            hint_updates@[k],
                            now,
                            dbhv[fold_state(gv, sortedv, dbhv, hv, j as int).updates[k].0],
                            fold_state(gv, sortedv, dbhv, hv, j as int).updates[k].1,
                        ));
                        assert(st_prev == fold_state(gv, sortedv, dbhv, hv, j as int));
                        assert(stn.updates[k] == st_prev.updates[k]);
                    }
                }
            },
        }
        j = j + 1;
    }

    // Anything left unclaimed no longer exists upstream.
    let mut stale_hint_ids: Vec<i32> = Vec::new();
    let mut sj: usize = 0;
    while sj < db_hints.len()
        invariant
            0 <= sj <= dbhv.len(),
            dbhv == db_hints@,
            matched@.len() == dbhv.len(),
            stale_ids(dbhv, matched@, 0) =~= stale_hint_ids@ + stale_ids(
                dbhv,
                matched@,
                sj as int,
            ),
        decreases dbhv.len() - sj,
    {
        let ghost prev = stale_hint_ids@;
        if !matched[sj] {
            stale_hint_ids.push(db_hints[sj].id);
            assert(prev + stale_ids(dbhv, matched@, sj as int) =~= stale_hint_ids@ + stale_ids(
                dbhv,
                matched@,
                sj + 1,
            ));
        }
        sj = sj + 1;
    }
    assert(stale_ids(dbhv, matched@, dbhv.len() as int) =~= Seq::<i32>::empty());
    assert(stale_hint_ids@ + Seq::<i32>::empty() =~= stale_hint_ids@);

    let mut new_tracker = tracker.clone();
    new_tracker.updated_at = now;
    let tracker_audit = audit_for_tracker(now, tracker, &new_tracker);
    let mut tracker_columns: Vec<ApTrackerIden> = Vec::new();
    tracker_columns.push(ApTrackerIden::UpdatedAt);
    assert(tracker_columns@ =~= seq![ApTrackerIden::UpdatedAt]);

    Ok(
        UpdatePlan {
            game_updates,
            hint_updates,
            new_hints,
            stale_hint_ids,
            tracker: new_tracker,
            tracker_columns,
            tracker_audit,
        },
    )
}

/// Once a finder fails to resolve, processing more hints reports the same
/// failure.
proof fn lemma_hint_fold_err(
    games: Seq<GameView>,
    dbg: Seq<ApGame>,
    dbh: Seq<ApHint>,
    hints: Seq<HintView>,
    m: int,
    n: int,
)
    requires
        0 <= m <= n,
        hint_fold(games, dbg, dbh, hints, m) is Err,
    ensures
        hint_fold(games, dbg, dbh, hints, n) == hint_fold(games, dbg, dbh, hints, m),
    decreases n,
{
    if n > m {
        lemma_hint_fold_err(games, dbg, dbh, hints, m, n - 1);
    }
}

/// The stored state of one tracked resource, as loaded inside the enclosing
/// transaction.
#[derive(Debug)]
pub struct TrackerState {
    pub tracker: ApTracker,
    pub games: Vec<ApGame>,
    pub hints: Vec<ApHint>,
}

/// What one synchronization attempt writes: a creation plan for a
/// previously-unseen resource, or an update plan for a stored one.
#[derive(Debug)]
pub enum ReconcilePlan {
    Create(NewTrackerPlan),
    Update(UpdatePlan),
}

/// Relies on `uuid::Uuid::new_v4` to draw a fresh random resource id.
/// Nothing is promised of the value: it is random.
#[verifier::external_body]
fn new_tracker_uuid() -> u128 {
    uuid::Uuid::new_v4().as_u128()
}

/// Synchronizes the stored state of one tracked resource with freshly parsed
/// upstream records, returning the plan of writes to apply inside the same
/// transaction.
///
/// When the resource was never seen before, the plan creates it under a
/// freshly drawn opaque id (the one in the returned plan); otherwise the plan
/// updates it, as [`update_outcome_ok`] describes.
pub fn synchronize_tracker(
    state: Option<TrackerState>,
    now: i64,
    upstream_url: &str,
    games: &Vec<Game>,
    hints: &Vec<Hint>,
) -> (r: Result<ReconcilePlan, TrackerUpdateError>)
    requires
        activity_in_range(now, games.deep_view()),
        // The freshness marker only moves forward.
        state matches Some(st) ==> now >= st.tracker.updated_at,
    ensures
        state is None ==> match r {
            Ok(p) => p matches ReconcilePlan::Create(plan) && new_tracker_outcome_ok(
                Ok(plan),
                plan.tracker.tracker_id,
                now,
                upstream_url@,
                games.deep_view(),
                hints.deep_view(),
            ),
            Err(e) => new_tracker_outcome_ok(
                Err::<NewTrackerPlan, TrackerUpdateError>(e),
                0,
                now,
                upstream_url@,
                games.deep_view(),
                hints.deep_view(),
            ),
        },
        state matches Some(st) ==> match r {
            Ok(p) => p matches ReconcilePlan::Update(plan) && update_outcome_ok(
                Ok(plan),
                now,
                st.tracker,
                st.games@,
                st.hints@,
                games.deep_view(),
                hints.deep_view(),
            ),
            Err(e) => update_outcome_ok(
                Err::<UpdatePlan, TrackerUpdateError>(e),
                now,
                st.tracker,
                st.games@,
                st.hints@,
                games.deep_view(),
                hints.deep_view(),
            ),
        },
{
    match state {
        None => {
            let tracker_id = new_tracker_uuid();
            match plan_new_tracker(tracker_id, now, upstream_url, games, hints) {
                Ok(plan) => Ok(ReconcilePlan::Create(plan)),
                Err(e) => {
                    proof {
                        let bg = first_unconvertible(games.deep_view(), 0);
                        let bh = first_unresolvable(games.deep_view(), hints.deep_view(), 0);
                        assert(bg < games.deep_view().len() || bh < hints.deep_view().len());
                    }
                    Err(e)
                },
            }
        },
        Some(st) => {
            match plan_update(now, &st.tracker, st.games, st.hints, games, hints) {
                Ok(plan) => Ok(ReconcilePlan::Update(plan)),
                Err(e) => Err(e),
            }
        },
    }
}

/// The last-index name search always lands below the number of slots.
proof fn lemma_rfind_range(games: Seq<GameView>, name: Seq<char>)
    ensures
        -1 <= rfind_game_name(games, name) < games.len(),
    decreases games.len(),
{
    if games.len() > 0 && !(games.last().name == name) {
        lemma_rfind_range(games.drop_last(), name);
    }
}

/// When no pair at or after `j` fails its check, the first failure is the
/// length.
proof fn lemma_no_pair_error(games: Seq<GameView>, db: Seq<ApGame>, j: int)
    requires
        0 <= j <= games.len(),
        forall|k: int| j <= k < games.len() ==> pair_error(#[trigger] games[k], db[k]) is None,
    ensures
        first_pair_error(games, db, j) == games.len(),
    decreases games.len() - j,
{
    if j < games.len() {
        lemma_no_pair_error(games, db, j + 1);
    }
}

/// When every number fits up to the end, no slot is unconvertible.
proof fn lemma_all_convertible(games: Seq<GameView>, j: int)
    requires
        0 <= j <= games.len(),
        first_unconvertible(games, j) >= games.len(),
    ensures
        forall|k: int| j <= k < games.len() ==> !game_unconvertible(#[trigger] games[k]),
    decreases games.len() - j,
{
    if j < games.len() {
        lemma_all_convertible(games, j + 1);
    }
}

/// When everything before `target` is claimed and `target` carries the key,
/// the search from `j` lands on `target`.
proof fn lemma_find_lands(
    db: Seq<ApHint>,
    matched: Seq<bool>,
    f: i32,
    r: Option<i32>,
    link: Seq<char>,
    h: HintView,
    j: int,
    target: int,
)
    requires
        0 <= j <= target < db.len(),
        matched.len() == db.len(),
        forall|m: int| j <= m < target ==> #[trigger] matched[m],
        !matched[target],
        db_hint_matches(db[target], f, r, link, h),
    ensures
        find_db_match(db, matched, f, r, link, h, j) == target,
    decreases target - j,
{
    if j < target {
        lemma_find_lands(db, matched, f, r, link, h, j + 1, target);
    }
}

/// When every stored hint at or after `j` is claimed, nothing is stale.
proof fn lemma_no_stale(db: Seq<ApHint>, matched: Seq<bool>, j: int)
    requires
        0 <= j <= db.len(),
        forall|m: int| j <= m < db.len() ==> #[trigger] matched[m],
    ensures
        stale_ids(db, matched, j) == Seq::<i32>::empty(),
    decreases db.len() - j,
{
    if j < db.len() {
        lemma_no_stale(db, matched, j + 1);
    }
}

/// What a stored slot row created from a planned slot row holds: every field
/// of the plan, under whatever id the store assigned.
pub open spec fn applied_new_game_row(row: ApGame, gi: ApGameInsertion) -> bool {
    &&& row.position == gi.position
    &&& row.name@ == gi.name@
    &&& row.game@ == gi.game@
    &&& row.tracker_status == gi.tracker_status
    &&& row.checks_done == gi.checks_done
    &&& row.checks_total == gi.checks_total
    &&& row.last_activity == gi.last_activity
    &&& opt_str_view(row.discord_username) == opt_str_view(gi.discord_username)
    &&& row.discord_ping == gi.discord_ping
    &&& row.last_checked == gi.last_checked
    &&& row.notes@ == gi.notes@
    &&& row.claimed_by_ct_user_id == gi.claimed_by_ct_user_id
    &&& row.availability_status == gi.availability_status
    &&& row.completion_status == gi.completion_status
    &&& row.progression_status == gi.progression_status
}

/// What a stored hint row created from a planned hint row holds, with its
/// slot references resolved to the ids the store assigned to the new slot
/// rows.
pub open spec fn applied_new_hint_row(
    row: ApHint,
    hp: NewHintPlan,
    game_rows: Seq<ApGame>,
) -> bool {
    &&& row.finder_game_id == game_rows[hp.finder_game as int].id
    &&& row.receiver_game_id == (match hp.receiver_game {
        Some(ri) => Some(game_rows[ri as int].id),
        None => None::<i32>,
    })
    &&& row.item@ == hp.item@
    &&& row.location@ == hp.location@
    &&& row.entrance@ == hp.entrance@
    &&& row.found == hp.found
    &&& row.classification == hp.classification
    &&& row.item_link_name@ == hp.item_link_name@
}

/// Against stored hints that are exactly the rows a creation plan made from
/// the same parsed hints, the fold claims the rows one for one, in order,
/// rewriting nothing and creating nothing.
proof fn lemma_quiet_fold(
    games: Seq<GameView>,
    game_rows: Seq<ApGame>,
    hint_rows: Seq<ApHint>,
    hints: Seq<HintView>,
    plan_hints: Seq<NewHintPlan>,
    n: int,
)
    requires
        0 <= n <= hints.len(),
        games.len() <= usize::MAX,
        hint_rows.len() == hints.len(),
        plan_hints.len() == hints.len(),
        game_rows.len() == games.len(),
        forall|i: int|
            0 <= i < hints.len() ==> new_hint_plan_ok(#[trigger] plan_hints[i], games, hints[i]),
        forall|i: int|
            0 <= i < hints.len() ==> applied_new_hint_row(
                #[trigger] hint_rows[i],
                plan_hints[i],
                game_rows,
            ),
    ensures
        hint_fold(games, game_rows, hint_rows, hints, n) == Ok::<HintMatchState, Seq<char>>(
            HintMatchState {
                matched: Seq::new(hint_rows.len(), |m: int| m < n),
                updates: Seq::empty(),
                news: Seq::empty(),
            },
        ),
    decreases n,
{
    if n <= 0 {
        assert(Seq::new(hint_rows.len(), |m: int| m < n) =~= Seq::new(
            hint_rows.len(),
            |m: int| false,
        ));
    } else {
        lemma_quiet_fold(games, game_rows, hint_rows, hints, plan_hints, n - 1);
        let h = hints[n - 1];
        let hp = plan_hints[n - 1];
        assert(new_hint_plan_ok(hp, games, h));
        assert(applied_new_hint_row(hint_rows[n - 1], hp, game_rows));
        lemma_rfind_range(games, h.finder);
        lemma_rfind_range(games, h.receiver);
        let fi = rfind_game_name(games, h.finder);
        let ri = rfind_game_name(games, h.receiver);
        let f = game_rows[fi].id;
        let r = if ri >= 0 {
            Some(game_rows[ri].id)
        } else {
            None::<i32>
        };
        let link = if ri >= 0 {
            Seq::<char>::empty()
        } else {
            h.receiver
        };
        assert(hint_key_of(games, game_rows, h) == Some((f, r, link)));
        if ri >= 0 {
            assert((ri as usize) as int == ri);
            assert(hp.receiver_game == Some(ri as usize));
        }
        assert(hp.finder_game as int == fi);
        assert(hint_rows[n - 1].finder_game_id == game_rows[fi].id);
        assert(hint_rows[n - 1].receiver_game_id == r);
        assert(hint_rows[n - 1].item_link_name@ == link);
        assert(hint_rows[n - 1].item@ == h.item);
        assert(hint_rows[n - 1].location@ == h.location);
        assert(hint_rows[n - 1].entrance@ == h.entrance);
        assert(db_hint_matches(hint_rows[n - 1], f, r, link, h));
        let prev = Seq::new(hint_rows.len(), |m: int| m < n - 1);
        assert(!prev[n - 1]);
        lemma_find_lands(hint_rows, prev, f, r, link, h, 0, n - 1);
        assert(find_db_match(hint_rows, prev, f, r, link, h, 0) == n - 1);
        assert(hint_rows[n - 1].found == h.found);
        assert(Seq::new(hint_rows.len(), |m: int| m < n - 1).update(n - 1, true) =~= Seq::new(
            hint_rows.len(),
            |m: int| m < n,
        ));
    }
}

/// Round-trip stability: reconciling a second time, with byte-identical
/// parsed input and the same clock reading, against exactly the state a
/// successful creation plan put in the store, succeeds and is silent — every
/// slot update carries no audit entry and writes only the always-written
/// columns, no hint is rewritten, created or deleted, and the resource-level
/// audit is empty.
pub proof fn lemma_round_trip_after_create(
    plan: NewTrackerPlan,
    tracker_id: u128,
    now: i64,
    url: Seq<char>,
    games: Seq<GameView>,
    hints: Seq<HintView>,
    tracker_row: ApTracker,
    game_rows: Seq<ApGame>,
    hint_rows: Seq<ApHint>,
    r2: Result<UpdatePlan, TrackerUpdateError>,
)
    requires
        // The first pass planned a creation from this input...
        new_tracker_outcome_ok(
            Ok::<NewTrackerPlan, TrackerUpdateError>(plan),
            tracker_id,
            now,
            url,
            games,
            hints,
        ),
        // ...the store created exactly the planned rows, in order...
        game_rows.len() == plan.games@.len(),
        forall|i: int|
            0 <= i < game_rows.len() ==> applied_new_game_row(
                #[trigger] game_rows[i],
                plan.games@[i],
            ),
        hint_rows.len() == plan.hints@.len(),
        forall|i: int|
            0 <= i < hint_rows.len() ==> applied_new_hint_row(
                #[trigger] hint_rows[i],
                plan.hints@[i],
                game_rows,
            ),
        games.len() <= usize::MAX,
        // ...the upstream reports slots in position order...
        forall|i: int, j: int|
            0 <= i < j < games.len() ==> #[trigger] games[i].position <= #[trigger] games[j].position,
        // ...and the second pass planned an update from the same input.
        update_outcome_ok(r2, now, tracker_row, game_rows, hint_rows, games, hints),
    ensures
        r2 is Ok,
        forall|i: int|
            0 <= i < games.len() ==> (#[trigger] (r2->Ok_0).game_updates@[i]).audit is None,
        (r2->Ok_0).hint_updates@.len() == 0,
        (r2->Ok_0).new_hints@.len() == 0,
        (r2->Ok_0).stale_hint_ids@.len() == 0,
        (r2->Ok_0).tracker_audit is None,
{
    assert(new_tracker_plan_ok(plan, tracker_id, now, url, games, hints));
    assert(first_unconvertible(games, 0) >= games.len());
    lemma_all_convertible(games, 0);

    // The created rows carry the parsed positions, so they are already in
    // position order and sorting leaves them alone.
    assert(sorted_by_position(game_rows)) by {
        assert forall|i: int, j: int| 0 <= i < j < game_rows.len() implies #[trigger] game_rows[i].position
            <= #[trigger] game_rows[j].position by {
            assert(new_game_insertion_ok(plan.games@[i], now, games[i]));
            assert(new_game_insertion_ok(plan.games@[j], now, games[j]));
            assert(applied_new_game_row(game_rows[i], plan.games@[i]));
            assert(applied_new_game_row(game_rows[j], plan.games@[j]));
            assert(!game_unconvertible(games[i]) && !game_unconvertible(games[j]));
        }
    }
    lemma_stable_sort_of_sorted(game_rows);

    // No pair fails: identity fields were copied from the same parsed input.
    assert forall|k: int| 0 <= k < games.len() implies pair_error(
        #[trigger] games[k],
        game_rows[k],
    ) is None by {
        assert(new_game_insertion_ok(plan.games@[k], now, games[k]));
        assert(applied_new_game_row(game_rows[k], plan.games@[k]));
    }
    lemma_no_pair_error(games, game_rows, 0);

    // The fold claims the created rows one for one.
    lemma_quiet_fold(games, game_rows, hint_rows, hints, plan.hints@, hints.len() as int);
    let st = fold_state(games, game_rows, hint_rows, hints, hints.len() as int);
    assert(st.updates.len() == 0 && st.news.len() == 0);
    assert(forall|m: int| 0 <= m < hint_rows.len() ==> #[trigger] st.matched[m]);
    lemma_no_stale(hint_rows, st.matched, 0);

    let p2 = r2->Ok_0;
    assert(update_plan_ok(p2, now, tracker_row, game_rows, hint_rows, games, hints));
    assert(p2.hint_updates@.len() == 0);
    assert(p2.new_hints@.len() == 0);
    assert(p2.stale_hint_ids@.len() == 0);
    assert(p2.tracker_audit is None) by {
        assert(tracker_diff_empty(tracker_row, p2.tracker));
    }

    // Each slot update repeats the stored values, so its diff is empty.
    assert forall|i: int| 0 <= i < games.len() implies (#[trigger] p2.game_updates@[i]).audit
        is None by {
        let u = p2.game_updates@[i];
        let old = game_rows[i];
        let g = games[i];
        assert(game_update_ok(u, now, old, g));
        assert(new_game_insertion_ok(plan.games@[i], now, g));
        assert(applied_new_game_row(old, plan.games@[i]));
        let new_la = derived_last_activity(now, g.last_activity);
        assert(old.last_activity == new_la);
        assert(keep_last_activity(old.last_activity, new_la) == (new_la is Some));
        let auto = auto_status(
            AutoStatusInputs {
                checks_done: g.checks_completed as i32,
                checks_total: old.checks_total,
                tracker_status: g.status,
            },
        );
        assert(old.completion_status == auto);
        assert(merge_status(auto, auto) == auto);
        assert(u.game.last_activity == old.last_activity);
        assert(u.game.completion_status == old.completion_status);
        assert(game_diff_empty(old, u.game));
    }
}

/// Positions never decrease along `s`.
pub open spec fn sorted_by_position(s: Seq<ApGame>) -> bool {
    forall|i: int, j: int| 0 <= i < j < s.len() ==> #[trigger] s[i].position <= #[trigger] s[j].position
}

/// Everything the insertion-point search skips has a position no higher than
/// `p`, and where it stops the position is higher.
proof fn lemma_find_pos_gt_split(s: Seq<ApGame>, p: i32, j: int)
    requires
        0 <= j <= s.len(),
    ensures
        forall|m: int| j <= m < find_pos_gt(s, p, j) ==> #[trigger] s[m].position <= p,
        find_pos_gt(s, p, j) < s.len() ==> s[find_pos_gt(s, p, j)].position > p,
    decreases s.len() - j,
{
    if j < s.len() && !(s[j].position > p) {
        lemma_find_pos_gt_split(s, p, j + 1);
    }
}

/// The stable sort produces a position-sorted sequence.
proof fn lemma_stable_sort_sorted(s: Seq<ApGame>)
    ensures
        sorted_by_position(stable_sort_by_position(s)),
        stable_sort_by_position(s).len() == s.len(),
    decreases s.len(),
{
    if s.len() > 0 {
        lemma_stable_sort_sorted(s.drop_last());
        let prev = stable_sort_by_position(s.drop_last());
        let x = s.last();
        let k = find_pos_gt(prev, x.position, 0);
        lemma_find_pos_gt_bounds(prev, x.position, 0);
        lemma_find_pos_gt_split(prev, x.position, 0);
        let out = prev.insert(k, x);
        assert forall|i: int, j: int| 0 <= i < j < out.len() implies #[trigger] out[i].position
            <= #[trigger] out[j].position by {
            if i < k && j < k {
                assert(out[i] == prev[i] && out[j] == prev[j]);
            } else if i < k && j == k {
                assert(out[i] == prev[i]);
            } else if i < k && j > k {
                assert(out[i] == prev[i] && out[j] == prev[j - 1]);
                assert(prev[i].position <= x.position);
                if j - 1 == i {
                    assert(prev[j - 1].position <= x.position);
                } else {
                }
                assert(prev[j - 1].position > x.position || prev[j - 1].position >= prev[i].position);
            } else if i == k && j > k {
                assert(out[j] == prev[j - 1]);
                assert(prev[j - 1].position > x.position);
            } else if i > k && j > k {
                assert(out[i] == prev[i - 1] && out[j] == prev[j - 1]);
            } else {
            }
        }
    }
}

/// Sorting a sequence that is already in position order, equal positions and
/// all, changes nothing.
pub proof fn lemma_stable_sort_of_sorted(s: Seq<ApGame>)
    requires
        sorted_by_position(s),
    ensures
        stable_sort_by_position(s) == s,
    decreases s.len(),
{
    if s.len() > 0 {
        let dl = s.drop_last();
        assert(sorted_by_position(dl)) by {
            assert(forall|i: int, j: int|
                0 <= i < j < dl.len() ==> #[trigger] dl[i].position <= #[trigger] dl[j].position);
        }
        lemma_stable_sort_of_sorted(dl);
        let x = s.last();
        lemma_find_pos_gt_at_end(dl, x.position, 0);
        assert(find_pos_gt(dl, x.position, 0) == dl.len());
        assert(dl.insert(dl.len() as int, x) =~= s);
    }
}

/// In a sorted prefix, nothing exceeds the position of the element that
/// follows it, so the insertion point is the end.
proof fn lemma_find_pos_gt_at_end(s: Seq<ApGame>, p: i32, j: int)
    requires
        0 <= j <= s.len(),
        forall|m: int| 0 <= m < s.len() ==> #[trigger] s[m].position <= p,
    ensures
        find_pos_gt(s, p, j) == s.len(),
    decreases s.len() - j,
{
    if j < s.len() {
        lemma_find_pos_gt_at_end(s, p, j + 1);
    }
}

/// Round-trip stability for a resource that was already stored: planning an
/// update a second time, with byte-identical parsed input and the same clock
/// reading, against slot rows exactly as the first update plan left them,
/// succeeds with no slot audit entry and no resource audit entry.  (The
/// second pass's hint reconciliation runs against whatever hint rows the
/// store holds; its quietness is stated by [`lemma_round_trip_after_create`]
/// for the rows a creation plan made.)
pub proof fn lemma_update_again_quiet_for_slots(
    p1: UpdatePlan,
    now: i64,
    tracker1: ApTracker,
    db_games: Seq<ApGame>,
    db_hints: Seq<ApHint>,
    games: Seq<GameView>,
    hints: Seq<HintView>,
    tracker2: ApTracker,
    games2: Seq<ApGame>,
    db_hints2: Seq<ApHint>,
    r2: Result<UpdatePlan, TrackerUpdateError>,
)
    requires
        // The first pass planned an update from this input...
        update_outcome_ok(
            Ok::<UpdatePlan, TrackerUpdateError>(p1),
            now,
            tracker1,
            db_games,
            db_hints,
            games,
            hints,
        ),
        games.len() == db_games.len(),
        // ...the store now holds exactly the updated slot rows, in plan
        // order...
        games2 == p1.game_updates@.map_values(|u: GameUpdate| u.game),
        // ...and the second pass planned an update from the same input.
        update_outcome_ok(r2, now, tracker2, games2, db_hints2, games, hints),
    ensures
        games2.len() == games.len(),
        r2 is Ok,
        r2 matches Ok(p2) ==> forall|i: int|
            0 <= i < games.len() ==> (#[trigger] p2.game_updates@[i]).audit is None,
        r2 matches Ok(p2) ==> p2.tracker_audit is None,
{
    let sorted1 = stable_sort_by_position(db_games);
    lemma_first_pair_error_bounds(games, sorted1, 0);
    assert(first_pair_error(games, sorted1, 0) == games.len());
    assert(update_plan_ok(p1, now, tracker1, sorted1, db_hints, games, hints));
    lemma_stable_sort_sorted(db_games);

    // The updated rows keep their positions, in sorted order.
    assert(games2.len() == games.len());
    assert forall|i: int| 0 <= i < games2.len() implies #[trigger] games2[i]
        == p1.game_updates@[i].game by {
    }
    assert(sorted_by_position(games2)) by {
        assert forall|i: int, j: int| 0 <= i < j < games2.len() implies #[trigger] games2[i].position
            <= #[trigger] games2[j].position by {
            assert(game_update_ok(p1.game_updates@[i], now, sorted1[i], games[i]));
            assert(game_update_ok(p1.game_updates@[j], now, sorted1[j], games[j]));
        }
    }
    lemma_stable_sort_of_sorted(games2);

    // No pair fails on the second pass: the identity fields were untouched.
    assert forall|k: int| 0 <= k < games.len() implies pair_error(
        #[trigger] games[k],
        games2[k],
    ) is None by {
        assert(game_update_ok(p1.game_updates@[k], now, sorted1[k], games[k]));
        assert(pair_error(games[k], sorted1[k]) is None) by {
            lemma_pair_error_prefix(games, sorted1, 0, k);
        }
    }
    lemma_no_pair_error(games, games2, 0);

    // The fold can only fail on a finder that names no slot, which does not
    // depend on the stored rows; the first pass's success rules it out.
    assert(hint_fold(games, sorted1, db_hints, hints, hints.len() as int) is Ok);
    lemma_fold_ok_transfers(games, sorted1, db_hints, games2, db_hints2, hints, hints.len() as int);
    assert(r2 is Ok);

    if r2 is Ok {
        let p2 = r2->Ok_0;
        assert(update_plan_ok(p2, now, tracker2, games2, db_hints2, games, hints));
        assert(p2.tracker_audit is None) by {
            assert(tracker_diff_empty(tracker2, p2.tracker));
        }
        assert forall|i: int| 0 <= i < games.len() implies (#[trigger] p2.game_updates@[i]).audit
            is None by {
            let old1 = sorted1[i];
            let g = games[i];
            let row = games2[i];
            assert(game_update_ok(p1.game_updates@[i], now, old1, g));
            assert(game_update_ok(p2.game_updates@[i], now, row, g));
            assert(pair_error(g, old1) is None) by {
                lemma_pair_error_prefix(games, sorted1, 0, i);
            }
            let new_la = derived_last_activity(now, g.last_activity);
            let keep1 = keep_last_activity(old1.last_activity, new_la);
            assert(row.last_activity == (if keep1 {
                old1.last_activity
            } else {
                new_la
            }));
            assert(keep_last_activity(row.last_activity, new_la) == (new_la is Some));
            let auto1 = auto_status(
                AutoStatusInputs {
                    checks_done: g.checks_completed as i32,
                    checks_total: old1.checks_total,
                    tracker_status: g.status,
                },
            );
            assert(row.checks_total == old1.checks_total);
            assert(row.completion_status == merge_status(auto1, old1.completion_status));
            assert(merge_status(auto1, merge_status(auto1, old1.completion_status))
                == merge_status(auto1, old1.completion_status));
            assert(game_diff_empty(row, p2.game_updates@[i].game));
        }
    }
}

/// Whether the hint fold fails depends only on the parsed records: a fold
/// that succeeded against one stored state succeeds against any other.
proof fn lemma_fold_ok_transfers(
    games: Seq<GameView>,
    dbg1: Seq<ApGame>,
    dbh1: Seq<ApHint>,
    dbg2: Seq<ApGame>,
    dbh2: Seq<ApHint>,
    hints: Seq<HintView>,
    n: int,
)
    requires
        hint_fold(games, dbg1, dbh1, hints, n) is Ok,
    ensures
        hint_fold(games, dbg2, dbh2, hints, n) is Ok,
    decreases n,
{
    if n > 0 {
        lemma_fold_ok_transfers(games, dbg1, dbh1, dbg2, dbh2, hints, n - 1);
        lemma_rfind_range(games, hints[n - 1].finder);
        lemma_rfind_range(games, hints[n - 1].receiver);
    }
}

/// Where the first failing pair lies: at or after `j`, no later than the
/// number of pairs.
proof fn lemma_first_pair_error_bounds(games: Seq<GameView>, db: Seq<ApGame>, j: int)
    requires
        0 <= j <= games.len(),
    ensures
        j <= first_pair_error(games, db, j) <= games.len(),
    decreases games.len() - j,
{
    if j < games.len() && pair_error(games[j], db[j]) is None {
        lemma_first_pair_error_bounds(games, db, j + 1);
    }
}

/// Below the first failing pair, every pair passes its check.
proof fn lemma_pair_error_prefix(games: Seq<GameView>, db: Seq<ApGame>, j: int, k: int)
    requires
        0 <= j <= k < games.len(),
        first_pair_error(games, db, j) == games.len(),
    ensures
        pair_error(games[k], db[k]) is None,
    decreases k - j,
{
    if j < k {
        lemma_pair_error_prefix(games, db, j + 1, k);
    }
}

} // verus!
