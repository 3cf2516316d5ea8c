//! Token handling around the auth collaborator: reading the expiry claim out
//! of an access token, deciding when a refresh is due, and the bounded-retry
//! state machine that drives device-authorization polling. Credential
//! storage and the HTTP calls themselves live outside this crate.
use vstd::prelude::*;
use vstd::string::*;

verus! {

/// Least index `>= i` holding `.`, or the length if there is none.
pub open spec fn first_dot_from(s: Seq<char>, i: int) -> int
    decreases s.len() - i,
{
    if i < 0 || i >= s.len() {
        s.len() as int
    } else if s[i] == '.' {
        i
    } else {
        first_dot_from(s, i + 1)
    }
}

proof fn lemma_first_dot_skip(s: Seq<char>, start: int, i: int)
    requires
        0 <= start <= i <= s.len(),
        forall|j: int| start <= j < i ==> s[j] != '.',
    ensures
        first_dot_from(s, start) == first_dot_from(s, i),
    decreases i - start,
{
    if i > start {
        lemma_first_dot_skip(s, start + 1, i);
    }
}

/// The second dot-separated segment of a compact token: the characters
/// after the first `.` up to the next `.` (or the end), or `None` when the
/// token has no `.` at all.
pub open spec fn jwt_payload(s: Seq<char>) -> Option<Seq<char>> {
    let a = first_dot_from(s, 0);
    if a >= s.len() {
        None
    } else {
        Some(s.subrange(a + 1, first_dot_from(s, a + 1)))
    }
}

/// The second dot-separated segment of `s`, where its encoded claims live.
fn jwt_payload_segment(s: &str) -> (r: Option<&str>)
    ensures
        match r {
            Some(p) => jwt_payload(s@) == Some(p@),
            None => jwt_payload(s@) is None,
        },
{
    let n = s.unicode_len();
    let mut i: usize = 0;
    while i < n && s.get_char(i) != '.'
        invariant
            n == s@.len(),
            0 <= i <= n,
            forall|j: int| 0 <= j < i ==> s@[j] != '.',
        decreases n - i,
    {
        i = i + 1;
    }
    proof {
        lemma_first_dot_skip(s@, 0, i as int);
    }
    if i == n {
        return None;
    }
    let mut k: usize = i + 1;
    while k < n && s.get_char(k) != '.'
        invariant
            n == s@.len(),
            i + 1 <= k <= n,
            forall|j: int| i + 1 <= j < k ==> s@[j] != '.',
        decreases n - k,
    {
        k = k + 1;
    }
    proof {
        lemma_first_dot_skip(s@, i + 1, k as int);
        assert(first_dot_from(s@, i + 1) == k);
    }
    Some(s.substring_char(i + 1, k))
}

/// The bytes that a base64 text decodes to, or `None` when it is not valid
/// base64 of the standard alphabet; `base64::decode` decides it.
pub uninterp spec fn base64_of(s: Seq<char>) -> Option<Seq<u8>>;

/// Relies on `base64::decode`: standard-alphabet decoding of the text.
#[verifier::external_body]
fn base64_decode(s: &str) -> (r: Option<Vec<u8>>)
    ensures
        match r {
            Some(v) => base64_of(s@) == Some(v@),
            None => base64_of(s@) is None,
        },
{
    match base64::decode(s) {
        Ok(v) => Some(v),
        Err(_) => None,
    }
}

/// The unsigned numeric field named `field` of a JSON document, or `None`
/// when the bytes do not parse or have no such field; `serde_json` decides
/// it.
pub uninterp spec fn json_u64_field(data: Seq<u8>, field: Seq<char>) -> Option<u64>;

/// Relies on `serde_json::from_slice::<Value>`, `Value::get` and
/// `Value::as_u64`: the unsigned numeric field named `field`.
#[verifier::external_body]
fn json_extract_u64(data: &Vec<u8>, field: &str) -> (r: Option<u64>)
    ensures
        match r {
            Some(v) => json_u64_field(data@, field@) == Some(v),
            None => json_u64_field(data@, field@) is None,
        },
{
    let value: serde_json::Value = match serde_json::from_slice(data.as_slice()) {
        Ok(v) => v,
        Err(_) => {
            return None;
        },
    };
    value.get(field).and_then(|f| f.as_u64())
}

/// The expiry claim of an access token: the `exp` field of the decoded
/// payload segment, or `None` anywhere along the way.
pub open spec fn token_exp(s: Seq<char>) -> Option<u64> {
    match jwt_payload(s) {
        None => None,
        Some(p) => match base64_of(p) {
            None => None,
            Some(b) => json_u64_field(b, "exp"@),
        },
    }
}

/// The state of a held access token at a given time.
#[derive(Clone, Copy, Debug, PartialEq, Eq, Structural)]
pub enum TokenCheck {
    /// The expiry lies in the future; the token is used as it is.
    Valid,
    /// The expiry has passed; the token must be refreshed before use.
    Expired,
    /// No expiry claim could be read out of the token.
    Malformed,
}

/// The token check as a function of the token and the clock: a token is
/// expired once `now` has reached its expiry (`now >= exp`), and malformed
/// when it has no readable expiry claim.
pub open spec fn spec_token_check(s: Seq<char>, now: u64) -> TokenCheck {
    match token_exp(s) {
        None => TokenCheck::Malformed,
        Some(exp) => if now >= exp {
            TokenCheck::Expired
        } else {
            TokenCheck::Valid
        },
    }
}

/// Checks an access token's expiry claim against `now`, in seconds since
/// the Unix epoch. A refresh is due exactly when the expiry has passed.
pub fn check_access_token(token: &str, now: u64) -> (r: TokenCheck)
    ensures
        r == spec_token_check(token@, now),
{
    let payload = match jwt_payload_segment(token) {
        Some(p) => p,
        None => {
            return TokenCheck::Malformed;
        },
    };
    let raw = match base64_decode(payload) {
        Some(v) => v,
        None => {
            return TokenCheck::Malformed;
        },
    };
    let exp = match json_extract_u64(&raw, "exp") {
        Some(v) => v,
        None => {
            return TokenCheck::Malformed;
        },
    };
    if now >= exp {
        TokenCheck::Expired
    } else {
        TokenCheck::Valid
    }
}

/// Relies on `chrono::DateTime::<Utc>::from(SystemTime)` and `timestamp`: a
/// reading of the clock in seconds since the Unix epoch, negative for a
/// clock set before it (unlike `Utc::now`, this path does not panic on such
/// a reading); nothing is assumed of the value.
#[verifier::external_body]
fn now_unix_seconds() -> (r: i64) {
    chrono::DateTime::<chrono::Utc>::from(std::time::SystemTime::now()).timestamp()
}

/// Checks the access token against the clock; a reading before the epoch
/// counts as time zero. Whatever the clock says, the result is the check
/// for some time, and a token without a readable expiry claim is always
/// `Malformed`.
pub fn current_token_check(token: &str) -> (r: TokenCheck)
    ensures
        exists|now: u64| r == spec_token_check(token@, now),
        token_exp(token@) is None ==> r == TokenCheck::Malformed,
{
    let t = now_unix_seconds();
    let now: u64 = if t < 0 {
        0
    } else {
        t as u64
    };
    let r = check_access_token(token, now);
    proof {
        assert(r == spec_token_check(token@, now));
    }
    r
}

/// One observed outcome of a device-authorization poll request.
#[derive(Clone, Copy, Debug, PartialEq, Eq, Structural)]
pub enum PollEvent {
    /// The user approved; tokens were issued.
    Approved,
    /// Authorization is still pending; keep polling.
    NotYet,
    /// The request itself failed; the poll is retried.
    TransportFailure,
    /// The user denied the authorization.
    Denied,
}

/// The state of the device-authorization polling loop.
#[derive(Clone, Copy, Debug, PartialEq, Eq, Structural)]
pub enum PollState {
    /// Still waiting, with that many polls left before the code expires.
    Pending { polls_left: u32 },
    /// The user approved the login.
    Approved,
    /// The device code expired before an approval came.
    Expired,
    /// The authorization was denied.
    Failed,
}

/// How many polls fit in the device code's lifetime at one poll per
/// interval (both in seconds); at least one, and a zero interval counts as
/// one second.
pub fn poll_budget(expires_in: u32, interval: u32) -> (r: u32)
    ensures
        ({
            let iv = if interval == 0 { 1u32 } else { interval };
            let q = expires_in / iv;
            r == if q == 0 { 1u32 } else { q }
        }),
{
    let iv = if interval == 0 { 1 } else { interval };
    let q = expires_in / iv;
    if q == 0 { 1 } else { q }
}

/// One step of the bounded-retry polling loop: an approval ends it at once;
/// a denial fails it; otherwise a poll is spent, and the code expires when
/// none is left. The budget never grows, so the loop always terminates.
pub fn poll_step(polls_left: u32, ev: PollEvent) -> (r: PollState)
    ensures
        ev matches PollEvent::Approved ==> r matches PollState::Approved,
        ev matches PollEvent::Denied ==> r matches PollState::Failed,
        (ev matches PollEvent::NotYet || ev matches PollEvent::TransportFailure)
            && polls_left <= 1 ==> r matches PollState::Expired,
        (ev matches PollEvent::NotYet || ev matches PollEvent::TransportFailure)
            && polls_left > 1 ==> (r matches PollState::Pending { polls_left: n } && n
            == polls_left - 1),
{
    match ev {
        PollEvent::Approved => PollState::Approved,
        PollEvent::Denied => PollState::Failed,
        PollEvent::NotYet | PollEvent::TransportFailure => {
            if polls_left <= 1 {
                PollState::Expired
            } else {
                PollState::Pending { polls_left: polls_left - 1 }
            }
        },
    }
}

} // verus!
