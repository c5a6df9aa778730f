//! URL validation, tracker identifiers, freshness and response
//! classification.

use cheese_trackers_server::model::ApTracker;
use cheese_trackers_server::sync::{
    classify_fetch_status, extract_room_id_from_room_link, freshness_decision, next_port_check,
    response_kind, validate_sync_request, FreshnessDecision, GetRoomLinkError, ResponseKind,
    TrackerUpdateError, TrackerUrlParseError, UrlEncodedTrackerId, UrlParts,
};

fn whitelist() -> Vec<String> {
    vec!["https://upstream.example/tracker".to_owned()]
}

const GOOD_ID: &str = "AAAAAAAAAAAAAAAAAAAAAA";

#[test]
fn tracker_id_zero_decodes() {
    let id = UrlEncodedTrackerId::from_str(GOOD_ID).unwrap();
    assert_eq!(id.uuid(), 0);
    assert_eq!(id.as_str(), GOOD_ID);
}

#[test]
fn tracker_id_round_trips_through_its_spelling() {
    for &v in [0u128, 1, 4, 255, u128::MAX, 0x0123_4567_89ab_cdef_0123_4567_89ab_cdef].iter() {
        let enc = UrlEncodedTrackerId::from_u128(v);
        let dec = UrlEncodedTrackerId::from_str(enc.as_str()).unwrap();
        assert_eq!(dec.uuid(), v);
    }
}

#[test]
fn tracker_id_max_spelling_is_all_underscores_then_w() {
    let enc = UrlEncodedTrackerId::from_u128(u128::MAX);
    assert_eq!(enc.as_str(), "_____________________w");
}

#[test]
fn tracker_id_rejects_bad_spellings() {
    // Wrong length.
    assert!(UrlEncodedTrackerId::from_str("AAAA").is_err());
    // Invalid character.
    assert!(UrlEncodedTrackerId::from_str("AAAAAAAAAAA!AAAAAAAAAA").is_err());
    // Non-canonical padding bits: 'B' has value 1, so the low four bits of
    // the last digit are not zero.
    assert!(UrlEncodedTrackerId::from_str("AAAAAAAAAAAAAAAAAAAAAB").is_err());
}

#[test]
fn validation_accepts_a_whitelisted_tracker_url() {
    let raw = format!("https://upstream.example/tracker/{GOOD_ID}");
    let req = validate_sync_request(&raw, &whitelist()).unwrap();
    assert_eq!(req.url, raw);
}

#[test]
fn validation_rejects_a_malformed_url() {
    let err = validate_sync_request("not a url", &whitelist()).unwrap_err();
    assert!(matches!(err, TrackerUpdateError::ParseUrl(TrackerUrlParseError::Url)));
}

#[test]
fn validation_rejects_an_unlisted_host() {
    let raw = format!("https://elsewhere.example/tracker/{GOOD_ID}");
    let err = validate_sync_request(&raw, &whitelist()).unwrap_err();
    assert!(matches!(err, TrackerUpdateError::UpstreamNotWhitelisted));
}

#[test]
fn validation_rejects_a_near_valid_identifier() {
    // The upstream would silently accept the trailing junk; the coordinator
    // must not.
    let raw = format!("https://upstream.example/tracker/{GOOD_ID})");
    let err = validate_sync_request(&raw, &whitelist()).unwrap_err();
    assert!(matches!(err, TrackerUpdateError::ParseUrl(TrackerUrlParseError::TrackerId)));
}

fn tracker_row(updated_at: i64) -> ApTracker {
    ApTracker {
        id: 1,
        tracker_id: 9,
        updated_at,
        title: String::new(),
        description: String::new(),
        owner_ct_user_id: None,
        lock_settings: false,
        upstream_url: String::new(),
        global_ping_policy: None,
        room_link: String::new(),
        last_port: None,
        next_port_check_at: None,
        inactivity_threshold_yellow_hours: 24,
        inactivity_threshold_red_hours: 48,
        require_authentication_to_claim: false,
    }
}

#[test]
fn fresh_tracker_is_served_without_fetching() {
    let t = tracker_row(1_000_000);
    let d = freshness_decision(Some(&t), 1_000_000 + 299_999, 300_000);
    assert_eq!(d, FreshnessDecision::UseStored(9));
}

#[test]
fn stale_or_unknown_tracker_is_fetched() {
    let t = tracker_row(1_000_000);
    assert_eq!(freshness_decision(Some(&t), 1_000_000 + 300_000, 300_000), FreshnessDecision::Fetch);
    assert_eq!(freshness_decision(None, 0, 300_000), FreshnessDecision::Fetch);
}

#[test]
fn fetch_status_classification() {
    assert!(classify_fetch_status(200).is_ok());
    assert!(classify_fetch_status(304).is_ok());
    assert!(matches!(classify_fetch_status(404), Err(TrackerUpdateError::TrackerNotFound)));
    assert!(matches!(classify_fetch_status(500), Err(TrackerUpdateError::Http(Some(500)))));
    assert!(matches!(classify_fetch_status(403), Err(TrackerUpdateError::Http(Some(403)))));
}

#[test]
fn response_kinds_follow_the_error_taxonomy() {
    assert_eq!(
        response_kind(&TrackerUpdateError::ParseUrl(TrackerUrlParseError::Url)),
        ResponseKind::BadRequest
    );
    assert_eq!(response_kind(&TrackerUpdateError::UpstreamNotWhitelisted), ResponseKind::Forbidden);
    assert_eq!(response_kind(&TrackerUpdateError::TrackerNotFound), ResponseKind::NotFound);
    assert_eq!(response_kind(&TrackerUpdateError::Http(None)), ResponseKind::Internal);
    assert_eq!(
        response_kind(&TrackerUpdateError::GameInformationMismatch(3)),
        ResponseKind::Internal
    );
}

#[test]
fn next_port_check_takes_the_later_of_timeout_and_floor() {
    // Timeout lands after the five-minute floor.
    assert_eq!(next_port_check(1_000_000, 600, 1_000_000), Ok(1_600_000));
    // Timeout already passed: the floor wins.
    assert_eq!(next_port_check(0, 1, 1_000_000), Ok(1_300_000));
    // Out of range.
    assert_eq!(
        next_port_check(i64::MAX - 1, 4_000_000_000, 0),
        Err(GetRoomLinkError::DateTimeOutOfRange)
    );
}

fn parts(host: &str, path: &str) -> UrlParts {
    UrlParts {
        normalized: format!("https://{host}{path}"),
        prefix: Some(format!("https://{host}")),
        last_segment: None,
        scheme: "https".to_owned(),
        host: Some(host.to_owned()),
        port_or_default: Some(443),
        path: path.to_owned(),
        cannot_be_a_base: false,
    }
}

#[test]
fn room_id_extraction_requires_matching_origin() {
    let room = parts("host.example", "/room/abc123");
    let tracker = parts("host.example", "/tracker/xyz");
    assert_eq!(extract_room_id_from_room_link(&room, &tracker), Some("abc123".to_owned()));

    let other_host = parts("other.example", "/tracker/xyz");
    assert_eq!(extract_room_id_from_room_link(&room, &other_host), None);

    let not_a_room = parts("host.example", "/tracker/abc");
    assert_eq!(extract_room_id_from_room_link(&not_a_room, &tracker), None);

    let nested = parts("host.example", "/room/a/b");
    assert_eq!(extract_room_id_from_room_link(&nested, &tracker), None);
}
