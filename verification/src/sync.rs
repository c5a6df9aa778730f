//! The synchronization coordinator's decision logic: URL validation against
//! the upstream allow-list, resource-identifier checking, freshness
//! decisions, and classification of upstream responses.
//!
//! The surrounding I/O — the HTTP fetch, the store transaction and the
//! in-flight request cache — lives with the caller, which feeds results back
//! into these functions.

use vstd::prelude::*;
use vstd::string::StrSliceExecFns;

use crate::model::ApTracker;
use crate::parse::ParseTrackerError;
use crate::strings::chars_vec;

verus! {

/// Why a raw tracker URL was rejected before any network access.
#[derive(Debug, Clone, Copy, PartialEq, Eq, Structural)]
pub enum TrackerUrlParseError {
    /// The text is not a well-formed URL.
    Url,
    /// The URL's final path segment is not a valid tracker identifier.
    TrackerId,
}

/// Errors that may occur when synchronizing with an upstream tracker.
#[derive(Debug, Clone)]
pub enum TrackerUpdateError {
    /// The tracker URL could not be parsed.
    ParseUrl(TrackerUrlParseError),
    /// The upstream URL is not on the configured upstream allow-list.
    UpstreamNotWhitelisted,
    /// The HTTP request for the upstream tracker data failed; carries the
    /// response status when one was received.
    Http(Option<u16>),
    /// The data returned by the upstream tracker could not be parsed.
    Parse(ParseTrackerError),
    /// The store failed while reading or writing; carries its message.
    Database(String),
    /// The number of slots changed since the last synchronization, which
    /// should not be possible.
    GameCountMismatch { tracker: usize, database: usize },
    /// Immutable information about a slot changed since the last
    /// synchronization, which should not be possible.
    GameInformationMismatch(u32),
    /// A numeric conversion failed between the upstream data type and the
    /// stored type, for the slot at the given position.
    NumericConversion(u32),
    /// A hint references a slot name that does not exist.
    HintGameMissing(String),
    /// The upstream tracker does not exist.
    TrackerNotFound,
}

/// The value of a URL-safe base64 digit, or `-1` for any other character.
pub open spec fn b64url_val(c: char) -> int {
    let u = c as u32;
    if 0x41 <= u <= 0x5a {  // 'A'..'Z'
        u - 0x41
    } else if 0x61 <= u <= 0x7a {  // 'a'..'z'
        u - 0x61 + 26
    } else if 0x30 <= u <= 0x39 {  // '0'..'9'
        u - 0x30 + 52
    } else if u == 0x2d {  // '-'
        62
    } else if u == 0x5f {  // '_'
        63
    } else {
        -1
    }
}

/// The value of the first `i` characters of a URL-safe base64 string, read
/// most significant first.  Meaningful only when every character is a base64
/// digit.
pub open spec fn b64_prefix_val(s: Seq<char>, i: int) -> int
    decreases i,
{
    if i <= 0 {
        0
    } else {
        b64_prefix_val(s, i - 1) * 64 + b64url_val(s[i - 1])
    }
}

/// The tracker identifier a piece of text denotes: exactly 22 URL-safe
/// base64 digits whose 132 bits are a 128-bit value followed by four zero
/// padding bits, as the strict no-padding decoding demands; anything else
/// denotes none.
pub open spec fn tracker_id_of(s: Seq<char>) -> Option<u128> {
    if s.len() == 22 && (forall|i: int| 0 <= i < 22 ==> b64url_val(#[trigger] s[i]) >= 0)
        && b64url_val(s[21]) % 16 == 0 {
        Some((b64_prefix_val(s, 21) * 4 + b64url_val(s[21]) / 16) as u128)
    } else {
        None
    }
}

/// Sixty-four to the `n`.
pub open spec fn pow64(n: nat) -> int
    decreases n,
{
    if n == 0 {
        1
    } else {
        64 * pow64((n - 1) as nat)
    }
}

proof fn lemma_pow64_pos(n: nat)
    ensures
        pow64(n) >= 1,
    decreases n,
{
    if n > 0 {
        lemma_pow64_pos((n - 1) as nat);
    }
}

/// A prefix of `i` base64 digits denotes a value below `64^i`.
proof fn lemma_b64_prefix_bound(s: Seq<char>, i: int)
    requires
        0 <= i,
        forall|k: int| 0 <= k < i ==> b64url_val(#[trigger] s[k]) >= 0,
    ensures
        0 <= b64_prefix_val(s, i) < pow64(i as nat),
    decreases i,
{
    if i > 0 {
        lemma_b64_prefix_bound(s, i - 1);
        assert(b64url_val(s[i - 1]) <= 63);
        lemma_pow64_pos((i - 1) as nat);
        assert(b64_prefix_val(s, i - 1) * 64 <= (pow64((i - 1) as nat) - 1) * 64)
            by (nonlinear_arith)
            requires
                b64_prefix_val(s, i - 1) <= pow64((i - 1) as nat) - 1,
        ;
    }
}

/// A URL-encoded tracker identifier: a 128-bit opaque value together with
/// its 22-character URL-safe base64 spelling.
#[derive(Debug)]
pub struct UrlEncodedTrackerId {
    pub uuid: u128,
    pub string: String,
}

/// Why a piece of text is not a tracker identifier.
#[derive(Debug, Clone, Copy, PartialEq, Eq, Structural)]
pub struct UrlEncodedTrackerIdDecodeError;

impl UrlEncodedTrackerId {
    /// The identifier's opaque value.
    pub fn uuid(&self) -> (r: u128)
        ensures
            r == self.uuid,
    {
        self.uuid
    }

    /// The identifier's base64 spelling.
    pub fn as_str(&self) -> (r: &str)
        ensures
            r@ == self.string@,
    {
        self.string.as_str()
    }

    /// Parses a tracker identifier, accepting exactly the canonical
    /// 22-character URL-safe base64 spelling of a 128-bit value.
    pub fn from_str(s: &str) -> (r: Result<UrlEncodedTrackerId, UrlEncodedTrackerIdDecodeError>)
        ensures
            match r {
                Ok(t) => tracker_id_of(s@) == Some(t.uuid) && t.string@ == s@,
                Err(_) => tracker_id_of(s@) is None,
            },
    {
        let cs = chars_vec(s);
        if cs.len() != 22 {
            return Err(UrlEncodedTrackerIdDecodeError);
        }
        let mut acc: u128 = 0;
        let mut i: usize = 0;
        proof {
            reveal_with_fuel(pow64, 22);
        }
        while i < 21
            invariant
                0 <= i <= 21,
                cs@.len() == 22,
                cs@ == s@,
                forall|k: int| 0 <= k < i ==> b64url_val(#[trigger] cs@[k]) >= 0,
                acc == b64_prefix_val(cs@, i as int),
                acc < 0x4000_0000_0000_0000_0000_0000_0000_0000u128,
            decreases 21 - i,
        {
            let v = b64_digit(cs[i]);
            if v < 0 {
                assert(b64url_val(s@[i as int]) < 0);
                return Err(UrlEncodedTrackerIdDecodeError);
            }
            proof {
                lemma_b64_prefix_bound(cs@, i + 1);
                reveal_with_fuel(pow64, 22);
                assert(pow64(21) == 0x4000_0000_0000_0000_0000_0000_0000_0000int);
                lemma_pow64_monotone(i + 1, 21);
            }
            acc = acc * 64 + (v as u128);
            i = i + 1;
        }
        let last = b64_digit(cs[21]);
        if last < 0 {
            assert(b64url_val(s@[21]) < 0);
            return Err(UrlEncodedTrackerIdDecodeError);
        }
        if last % 16 != 0 {
            return Err(UrlEncodedTrackerIdDecodeError);
        }
        let uuid: u128 = acc * 4 + (last / 16) as u128;
        proof {
            assert(forall|k: int| 0 <= k < 22 ==> b64url_val(#[trigger] s@[k]) >= 0);
            assert(tracker_id_of(s@) == Some(uuid));
        }
        Ok(UrlEncodedTrackerId { uuid, string: s.to_owned() })
    }

    /// Encodes a 128-bit value as its canonical 22-character URL-safe base64
    /// spelling, most significant bits first.
    pub fn from_u128(value: u128) -> (r: UrlEncodedTrackerId)
        ensures
            r.uuid == value,
            tracker_id_of(r.string@) == Some(value),
    {
        let mut digits: Vec<u8> = Vec::new();
        let mut q: u128 = value / 4;
        let mut i: usize = 0;
        // Digits of the high 126 bits, least significant first.
        while i < 21
            invariant
                0 <= i <= 21,
                digits@.len() == i,
                forall|k: int| 0 <= k < i ==> #[trigger] digits@[k] < 64,
                q * pow64(i as nat) + rev_digits_val(digits@) == value / 4,
                0 <= rev_digits_val(digits@),
            decreases 21 - i,
        {
            proof {
                lemma_pow64_pos(i as nat);
            }
            let d: u8 = (q % 64) as u8;
            let ghost old_digits = digits@;
            let ghost old_q = q as int;
            digits.push(d);
            q = q / 64;
            proof {
                assert(digits@.drop_last() =~= old_digits);
                lemma_rev_digits_push(old_digits, d, i as nat);
                assert((old_q / 64 * 64 + old_q % 64) * pow64(i as nat) == (old_q / 64) * (64
                    * pow64(i as nat)) + (old_q % 64) * pow64(i as nat)) by (nonlinear_arith);
            }
            i = i + 1;
        }
        proof {
            reveal_with_fuel(pow64, 22);
            assert(pow64(21) == 0x4000_0000_0000_0000_0000_0000_0000_0000int);
            assert(q == 0) by {
                if q >= 1 {
                    assert(q * pow64(21) >= 1 * pow64(21)) by (nonlinear_arith)
                        requires
                            q >= 1,
                            pow64(21) >= 0,
                    ;
                }
            }
        }
        // Spell them out, most significant first, then the two low bits as
        // the last digit's high bits.
        let mut chars: Vec<char> = Vec::new();
        let mut k: usize = 21;
        while k > 0
            invariant
                0 <= k <= 21,
                digits@.len() == 21,
                forall|m: int| 0 <= m < 21 ==> #[trigger] digits@[m] < 64,
                chars@.len() == 21 - k,
                forall|m: int|
                    0 <= m < 21 - k ==> b64url_val(#[trigger] chars@[m]) == digits@[20 - m],
            decreases k,
        {
            k = k - 1;
            chars.push(b64_char(digits[k]));
        }
        let last_digit: u8 = ((value % 4) as u8) * 16;
        chars.push(b64_char(last_digit));
        proof {
            lemma_prefix_equals_rev(chars@, digits@, 21);
            assert(digits@.subrange(0, 21) =~= digits@);
            assert(rev_digits_val(digits@) == value / 4);
            assert(b64_prefix_val(chars@, 21) == value / 4);
            assert(b64url_val(chars@[21]) == last_digit);
            assert(last_digit / 16 == value % 4);
            assert((value / 4) * 4 + value % 4 == value);
            assert(forall|i2: int| 0 <= i2 < 22 ==> b64url_val(#[trigger] chars@[i2]) >= 0);
            assert(b64_prefix_val(chars@, 21) * 4 + b64url_val(chars@[21]) / 16 == value);
        }
        let string = string_from_chars(&chars);
        assert(tracker_id_of(string@) == Some(value));
        UrlEncodedTrackerId { uuid: value, string }
    }
}

proof fn lemma_pow64_monotone(a: int, b: int)
    requires
        0 <= a <= b,
    ensures
        pow64(a as nat) <= pow64(b as nat),
    decreases b,
{
    if a < b {
        lemma_pow64_monotone(a, b - 1);
        lemma_pow64_pos((b - 1) as nat);
    }
}

/// The value of base64 digits stored least significant first.
pub open spec fn rev_digits_val(ds: Seq<u8>) -> int
    decreases ds.len(),
{
    if ds.len() == 0 {
        0
    } else {
        rev_digits_val(ds.drop_last()) + ds.last() * pow64((ds.len() - 1) as nat)
    }
}

/// Appending the next least-significant digit adds it at the next power.
proof fn lemma_rev_digits_push(ds: Seq<u8>, d: u8, i: nat)
    requires
        ds.len() == i,
    ensures
        rev_digits_val(ds.push(d)) == rev_digits_val(ds) + d * pow64(i),
{
    assert(ds.push(d).drop_last() =~= ds);
}

/// A least-significant-first sum peels at the front: the first digit is the
/// units digit.
proof fn lemma_rev_peel_first(ds: Seq<u8>)
    requires
        ds.len() > 0,
    ensures
        rev_digits_val(ds) == ds[0] + 64 * rev_digits_val(ds.drop_first()),
    decreases ds.len(),
{
    if ds.len() == 1 {
        assert(ds.drop_last() =~= Seq::<u8>::empty());
        assert(ds.drop_first() =~= Seq::<u8>::empty());
    } else {
        let dl = ds.drop_last();
        lemma_rev_peel_first(dl);
        assert(ds.drop_first().drop_last() =~= dl.drop_first());
        assert(ds.drop_first().last() == ds.last());
        let n = ds.len();
        assert(rev_digits_val(ds.drop_first()) == rev_digits_val(dl.drop_first()) + ds.last()
            * pow64((n - 2) as nat));
        assert(64 * (rev_digits_val(dl.drop_first()) + ds.last() * pow64((n - 2) as nat)) == 64
            * rev_digits_val(dl.drop_first()) + ds.last() * (64 * pow64((n - 2) as nat)))
            by (nonlinear_arith);
        assert(pow64((n - 1) as nat) == 64 * pow64((n - 2) as nat));
    }
}

/// Reading digits most significant first yields the same value as the
/// least-significant-first sum over the corresponding suffix.
proof fn lemma_prefix_equals_rev(chars: Seq<char>, digits: Seq<u8>, i: int)
    requires
        0 <= i <= 21,
        digits.len() == 21,
        chars.len() >= 21,
        forall|m: int| 0 <= m < 21 ==> b64url_val(#[trigger] chars[m]) == digits[20 - m],
    ensures
        b64_prefix_val(chars, i) == rev_digits_val(digits.subrange(21 - i, 21)),
    decreases i,
{
    if i <= 0 {
        assert(digits.subrange(21, 21) =~= Seq::<u8>::empty());
    } else {
        lemma_prefix_equals_rev(chars, digits, i - 1);
        let sub = digits.subrange(21 - i, 21);
        lemma_rev_peel_first(sub);
        assert(sub.drop_first() =~= digits.subrange(22 - i, 21));
        assert(sub[0] == digits[21 - i]);
        assert(b64url_val(chars[i - 1]) == digits[21 - i]);
    }
}

/// The value of a URL-safe base64 digit, or `-1`.
fn b64_digit(c: char) -> (r: i8)
    ensures
        r as int == b64url_val(c),
{
    let u = c as u32;
    if 0x41 <= u && u <= 0x5a {
        (u - 0x41) as i8
    } else if 0x61 <= u && u <= 0x7a {
        (u - 0x61 + 26) as i8
    } else if 0x30 <= u && u <= 0x39 {
        (u - 0x30 + 52) as i8
    } else if u == 0x2d {
        62
    } else if u == 0x5f {
        63
    } else {
        -1
    }
}

/// The URL-safe base64 digit with the given value.
fn b64_char(v: u8) -> (r: char)
    requires
        v < 64,
    ensures
        b64url_val(r) == v,
{
    let u: u32 = if v < 26 {
        0x41 + v as u32
    } else if v < 52 {
        0x61 + (v - 26) as u32
    } else if v < 62 {
        0x30 + (v - 52) as u32
    } else if v == 62 {
        0x2d
    } else {
        0x5f
    };
    let r = char_from_u32(u);
    r
}

/// Relies on `char::from_u32`: every value below `0xD800` is a valid scalar
/// value and converts to the character with that code point.
#[verifier::external_body]
fn char_from_u32(u: u32) -> (r: char)
    requires
        u < 0xd800,
    ensures
        r as u32 == u,
{
    char::from_u32(u).unwrap()
}

/// Builds a string from a character sequence.
fn string_from_chars(cs: &Vec<char>) -> (r: String)
    ensures
        r@ == cs@,
{
    let mut r = String::new();
    let mut i: usize = 0;
    while i < cs.len()
        invariant
            0 <= i <= cs@.len(),
            r@ =~= cs@.subrange(0, i as int),
        decreases cs@.len() - i,
    {
        push_char(&mut r, cs[i]);
        assert(r@ =~= cs@.subrange(0, i + 1));
        i = i + 1;
    }
    assert(r@ =~= cs@);
    r
}

/// Relies on `String::push`: it appends exactly the given character.
#[verifier::external_body]
fn push_char(s: &mut String, c: char)
    ensures
        final(s)@ == old(s)@.push(c),
{
    s.push(c);
}

/// The parts of a parsed and normalized URL that the coordinator reads.
pub struct UrlParts {
    /// The normalized spelling of the whole URL.
    pub normalized: String,
    /// The URL with its last path segment removed, as a string; nothing when
    /// the URL cannot be a base.
    pub prefix: Option<String>,
    /// The last path segment; nothing when the URL cannot be a base.
    pub last_segment: Option<String>,
    /// The URL scheme.
    pub scheme: String,
    /// The host, when one exists.
    pub host: Option<String>,
    /// The port, explicit or the scheme's default.
    pub port_or_default: Option<u16>,
    /// The path.
    pub path: String,
    /// Whether the URL cannot be a base.
    pub cannot_be_a_base: bool,
}

/// The mathematical content of a [`UrlParts`].
pub struct UrlPartsView {
    pub normalized: Seq<char>,
    pub prefix: Option<Seq<char>>,
    pub last_segment: Option<Seq<char>>,
    pub scheme: Seq<char>,
    pub host: Option<Seq<char>>,
    pub port_or_default: Option<u16>,
    pub path: Seq<char>,
    pub cannot_be_a_base: bool,
}

impl View for UrlParts {
    type V = UrlPartsView;

    open spec fn view(&self) -> UrlPartsView {
        UrlPartsView {
            normalized: self.normalized@,
            prefix: match self.prefix {
                Some(p) => Some(p@),
                None => None,
            },
            last_segment: match self.last_segment {
                Some(p) => Some(p@),
                None => None,
            },
            scheme: self.scheme@,
            host: match self.host {
                Some(p) => Some(p@),
                None => None,
            },
            port_or_default: self.port_or_default,
            path: self.path@,
            cannot_be_a_base: self.cannot_be_a_base,
        }
    }
}

/// The view of an optional parts value.
pub open spec fn url_parts_opt_view(r: Option<UrlParts>) -> Option<UrlPartsView> {
    match r {
        Some(p) => Some(p@),
        None => None,
    }
}

/// What parsing a piece of text as a URL yields: its normalized form and the
/// parts the coordinator reads, or nothing when the text is not a well-formed
/// URL.  URL parsing is a function of the text alone.
pub uninterp spec fn url_parts_of(s: Seq<char>) -> Option<UrlPartsView>;

/// Relies on the url crate: `Url::parse` (and its normalized `as_str`
/// spelling), `path_segments_mut` with `pop` for the prefix with the last
/// segment removed, `path_segments` with `next_back` for the last segment,
/// and the `scheme`, `host_str`, `port_or_known_default`, `path` and
/// `cannot_be_a_base` accessors.  All are functions of the URL text alone,
/// here named [`url_parts_of`].
#[verifier::external_body]
fn parse_url_parts(s: &str) -> (r: Option<UrlParts>)
    ensures
        url_parts_opt_view(r) == url_parts_of(s@),
{
    let url = url::Url::parse(s).ok()?;
    let mut pref = url.clone();
    let popped = pref.path_segments_mut().map(|mut m| { m.pop(); }).is_ok();
    Some(UrlParts {
        normalized: url.as_str().to_owned(),
        prefix: if popped { Some(pref.as_str().to_owned()) } else { None },
        last_segment: url.path_segments().and_then(|mut m| m.next_back()).map(|v| v.to_owned()),
        scheme: url.scheme().to_owned(),
        host: url.host_str().map(|h| h.to_owned()),
        port_or_default: url.port_or_known_default(),
        path: url.path().to_owned(),
        cannot_be_a_base: url.cannot_be_a_base(),
    })
}

/// Whether the allow-list holds the given prefix.
pub open spec fn prefix_allowed(prefixes: Seq<Seq<char>>, p: Seq<char>) -> bool {
    exists|i: int| 0 <= i < prefixes.len() && prefixes[i] == p
}

/// Whether a parsed URL points into one of the allowed upstream trackers:
/// its prefix — the URL with the resource identifier removed — must be on
/// the allow-list.
pub open spec fn permitted(parts: UrlPartsView, prefixes: Seq<Seq<char>>) -> bool {
    parts.prefix matches Some(p) && prefix_allowed(prefixes, p)
}

/// Decides [`permitted`].
pub fn tracker_is_permitted(parts: &UrlParts, prefixes: &Vec<String>) -> (r: bool)
    ensures
        r == permitted(parts@, prefixes.deep_view()),
{
    let p = match &parts.prefix {
        None => {
            return false;
        },
        Some(p) => p,
    };
    let mut i: usize = 0;
    while i < prefixes.len()
        invariant
            0 <= i <= prefixes@.len(),
            parts@.prefix == Some(p@),
            forall|k: int| 0 <= k < i ==> prefixes.deep_view()[k] != p@,
        decreases prefixes@.len() - i,
    {
        proof {
            assert(prefixes.deep_view()[i as int] == prefixes@[i as int]@);
        }
        if prefixes[i].eq(p) {
            return true;
        }
        i = i + 1;
    }
    false
}

/// A validated synchronization request: the normalized upstream URL, which
/// is both the fetch target and the deduplication key.
#[derive(Debug)]
pub struct SyncRequest {
    pub url: String,
}

/// What validating a raw tracker URL yields: a malformed URL is rejected; a
/// URL whose prefix is not on the allow-list is rejected as not permitted; a
/// URL whose final path segment is not a canonical tracker identifier is
/// rejected before any network access; otherwise the request carries the
/// normalized URL.
pub open spec fn validate_outcome_ok(
    r: Result<SyncRequest, TrackerUpdateError>,
    raw: Seq<char>,
    prefixes: Seq<Seq<char>>,
) -> bool {
    match url_parts_of(raw) {
        None => r matches Err(TrackerUpdateError::ParseUrl(TrackerUrlParseError::Url)),
        Some(parts) => {
            if !permitted(parts, prefixes) {
                r matches Err(TrackerUpdateError::UpstreamNotWhitelisted)
            } else if !(parts.last_segment matches Some(seg) && tracker_id_of(seg) is Some) {
                r matches Err(TrackerUpdateError::ParseUrl(TrackerUrlParseError::TrackerId))
            } else {
                r matches Ok(req) && req.url@ == parts.normalized
            }
        },
    }
}

/// Validates a raw tracker URL against the configured upstream allow-list
/// and the upstream's own identifier encoding, as [`validate_outcome_ok`]
/// describes.  Nothing is fetched here: a URL that fails these checks never
/// causes network access.
pub fn validate_sync_request(raw_url: &str, prefixes: &Vec<String>) -> (r: Result<
    SyncRequest,
    TrackerUpdateError,
>)
    ensures
        validate_outcome_ok(r, raw_url@, prefixes.deep_view()),
{
    let parts = match parse_url_parts(raw_url) {
        None => {
            return Err(TrackerUpdateError::ParseUrl(TrackerUrlParseError::Url));
        },
        Some(p) => p,
    };
    if !tracker_is_permitted(&parts, prefixes) {
        return Err(TrackerUpdateError::UpstreamNotWhitelisted);
    }
    // The upstream endpoint accepts identifiers with trailing junk, which
    // would let one resource be tracked under several URLs; only the
    // canonical spelling passes.
    let seg_ok = match &parts.last_segment {
        None => false,
        Some(seg) => UrlEncodedTrackerId::from_str(seg.as_str()).is_ok(),
    };
    if !seg_ok {
        return Err(TrackerUpdateError::ParseUrl(TrackerUrlParseError::TrackerId));
    }
    Ok(SyncRequest { url: parts.normalized })
}

/// What the coordinator does after reading the stored resource: keep the
/// stored data when it is still fresh, else fetch.
#[derive(Debug, Clone, Copy, PartialEq, Eq, Structural)]
pub enum FreshnessDecision {
    /// The resource was synchronized within the interval; return its id
    /// without fetching.
    UseStored(u128),
    /// Fetch from upstream.
    Fetch,
}

/// Whether a stored resource is still fresh at `now`, given the minimum
/// resynchronization interval.
pub open spec fn is_fresh(updated_at: i64, interval_ms: i64, now: i64) -> bool {
    now < updated_at + interval_ms
}

/// The authoritative staleness check, made against the stored row inside the
/// transaction: a resource synchronized within the interval is served as is,
/// anything else — including an unknown resource — is fetched.
pub fn freshness_decision(tracker: Option<&ApTracker>, now: i64, interval_ms: i64) -> (r:
    FreshnessDecision)
    ensures
        match tracker {
            Some(t) => r == (if is_fresh(t.updated_at, interval_ms, now) {
                FreshnessDecision::UseStored(t.tracker_id)
            } else {
                FreshnessDecision::Fetch
            }),
            None => r == FreshnessDecision::Fetch,
        },
{
    match tracker {
        Some(t) => {
            let fresh = (now as i128) < (t.updated_at as i128) + (interval_ms as i128);
            if fresh {
                FreshnessDecision::UseStored(t.tracker_id)
            } else {
                FreshnessDecision::Fetch
            }
        },
        None => FreshnessDecision::Fetch,
    }
}

/// Classifies an upstream HTTP response status: client and server errors
/// fail the fetch, a missing resource distinctly so; everything else is
/// taken as success.
pub fn classify_fetch_status(status: u16) -> (r: Result<(), TrackerUpdateError>)
    ensures
        status == 404 ==> r matches Err(TrackerUpdateError::TrackerNotFound),
        400 <= status <= 599 && status != 404 ==> (r matches Err(TrackerUpdateError::Http(s))
            && s == Some(status)),
        !(400 <= status <= 599) ==> r is Ok,
{
    if status == 404 {
        Err(TrackerUpdateError::TrackerNotFound)
    } else if 400 <= status && status <= 599 {
        Err(TrackerUpdateError::Http(Some(status)))
    } else {
        Ok(())
    }
}

/// How a synchronization failure is surfaced to a caller that has no stored
/// data to fall back on.
#[derive(Debug, Clone, Copy, PartialEq, Eq, Structural)]
pub enum ResponseKind {
    /// The request itself was malformed.
    BadRequest,
    /// The upstream is not allowed.
    Forbidden,
    /// The upstream resource does not exist.
    NotFound,
    /// Anything else.
    Internal,
}

/// Maps a synchronization error to the response a caller surfaces when no
/// previously-synchronized data exists: a bad URL is the caller's fault, a
/// disallowed upstream is forbidden, a missing upstream resource is not
/// found, and every other failure is internal.
pub fn response_kind(e: &TrackerUpdateError) -> (r: ResponseKind)
    ensures
        e is ParseUrl ==> r == ResponseKind::BadRequest,
        e is UpstreamNotWhitelisted ==> r == ResponseKind::Forbidden,
        e is TrackerNotFound ==> r == ResponseKind::NotFound,
        !(e is ParseUrl || e is UpstreamNotWhitelisted || e is TrackerNotFound) ==> r
            == ResponseKind::Internal,
{
    match e {
        TrackerUpdateError::ParseUrl(_) => ResponseKind::BadRequest,
        TrackerUpdateError::UpstreamNotWhitelisted => ResponseKind::Forbidden,
        TrackerUpdateError::TrackerNotFound => ResponseKind::NotFound,
        _ => ResponseKind::Internal,
    }
}

/// Errors that may occur when fetching a room's port.
#[derive(Debug, Clone, Copy, PartialEq, Eq, Structural)]
pub enum GetRoomLinkError {
    /// A link could not be parsed as a URL.
    UrlParse,
    /// The room link does not name a room on the tracker's host.
    InvalidRoomLink,
    /// The room information request failed; carries the response status when
    /// one was received.
    ApiRequest(Option<u16>),
    /// A derived timestamp was out of range.
    DateTimeOutOfRange,
}

/// When to look at the room's port again: when the room times out, or five
/// minutes from now, whichever is later; out-of-range arithmetic is an
/// error.
pub fn next_port_check(last_activity: i64, timeout_sec: u32, now: i64) -> (r: Result<
    i64,
    GetRoomLinkError,
>)
    ensures
        match r {
            Ok(t) => i64::MIN <= last_activity + timeout_sec * 1000 <= i64::MAX && i64::MIN <= now
                + 300000 <= i64::MAX && t == (if last_activity + timeout_sec * 1000 >= now + 300000 {
                last_activity + timeout_sec * 1000
            } else {
                now + 300000
            }),
            Err(e) => e == GetRoomLinkError::DateTimeOutOfRange && !(i64::MIN <= last_activity
                + timeout_sec * 1000 <= i64::MAX && i64::MIN <= now + 300000 <= i64::MAX),
        },
{
    let timeout_contribution = (last_activity as i128) + (timeout_sec as i128) * 1000;
    let floor = (now as i128) + 300000;
    if timeout_contribution < i64::MIN as i128 || timeout_contribution > i64::MAX as i128 || floor
        > i64::MAX as i128 {
        return Err(GetRoomLinkError::DateTimeOutOfRange);
    }
    if timeout_contribution >= floor {
        Ok(timeout_contribution as i64)
    } else {
        Ok(floor as i64)
    }
}

/// The room identifier a room link carries, given the tracker link it must
/// belong with: both must be base URLs on the same scheme, host and
/// effective port, and the room link's path must be `/room/` followed by a
/// single segment, which is the identifier.
pub open spec fn room_id_of(room: UrlPartsView, tracker: UrlPartsView) -> Option<Seq<char>> {
    if room.cannot_be_a_base || tracker.cannot_be_a_base || room.scheme != tracker.scheme
        || room.host != tracker.host || room.port_or_default != tracker.port_or_default {
        None
    } else if room.path.len() >= 6 && room.path.subrange(0, 6) == "/room/"@ && (forall|i: int|
        6 <= i < room.path.len() ==> room.path[i] != '/') {
        Some(room.path.subrange(6, room.path.len() as int))
    } else {
        None
    }
}

/// Extracts the room identifier from a room link, verifying that the link
/// names a room on the same host as the tracker link, as [`room_id_of`]
/// describes.
pub fn extract_room_id_from_room_link(room: &UrlParts, tracker: &UrlParts) -> (r: Option<String>)
    ensures
        match r {
            Some(id) => room_id_of(room@, tracker@) == Some(id@),
            None => room_id_of(room@, tracker@) is None,
        },
{
    if room.cannot_be_a_base || tracker.cannot_be_a_base {
        return None;
    }
    if !room.scheme.eq(&tracker.scheme) {
        return None;
    }
    let hosts_eq = match (&room.host, &tracker.host) {
        (None, None) => true,
        (Some(a), Some(b)) => a.eq(b),
        _ => false,
    };
    if !hosts_eq {
        return None;
    }
    let ports_eq = match (room.port_or_default, tracker.port_or_default) {
        (None, None) => true,
        (Some(a), Some(b)) => a == b,
        _ => false,
    };
    if !ports_eq {
        return None;
    }
    let cs = chars_vec(room.path.as_str());
    proof {
        reveal_strlit("/room/");
    }
    let prefix = chars_vec("/room/");
    if cs.len() < 6 {
        return None;
    }
    let mut i: usize = 0;
    while i < 6
        invariant
            0 <= i <= 6,
            cs@ == room.path@,
            cs@.len() >= 6,
            prefix@ == "/room/"@,
            prefix@.len() == 6,
            forall|k: int| 0 <= k < i ==> cs@[k] == prefix@[k],
        decreases 6 - i,
    {
        if cs[i] != prefix[i] {
            assert(room.path@.subrange(0, 6)[i as int] != "/room/"@[i as int]);
            return None;
        }
        i = i + 1;
    }
    assert(room.path@.subrange(0, 6) =~= "/room/"@);
    let mut j: usize = 6;
    let mut id: Vec<char> = Vec::new();
    while j < cs.len()
        invariant
            6 <= j <= cs@.len(),
            cs@ == room.path@,
            forall|k: int| 6 <= k < j ==> cs@[k] != '/',
            id@ =~= cs@.subrange(6, j as int),
        decreases cs@.len() - j,
    {
        if cs[j] == '/' {
            return None;
        }
        id.push(cs[j]);
        assert(id@ =~= cs@.subrange(6, j + 1));
        j = j + 1;
    }
    assert(id@ =~= room.path@.subrange(6, room.path@.len() as int));
    Some(string_from_chars(&id))
}

} // verus!
