//! Administrator tokens (HS256 JWTs) and the authentication decisions of
//! the admin and proxy APIs.
use vstd::prelude::*;
use crate::text::text_eq;

verus! {

#[verifier::external_type_specification]
#[verifier::external_body]
pub struct ExJwtError(jsonwebtoken::errors::Error);

/// Claims of an administrator token.
#[derive(Debug, Clone)]
pub struct Claims {
    pub sub: String,
    pub username: String,
    pub exp: usize,
    pub iat: usize,
}

/// The claim members of a token payload, each when present with the
/// expected JSON type.
#[derive(Debug, Clone)]
pub struct ClaimFields {
    pub sub: Option<String>,
    pub username: Option<String>,
    pub exp: Option<u64>,
    pub iat: Option<u64>,
}

/// View of claim members: subject, user name, expiry and issue time.
pub type ClaimsView = (Option<Seq<char>>, Option<Seq<char>>, Option<u64>, Option<u64>);

/// View of a `ClaimFields`.
pub open spec fn fields_view(f: ClaimFields) -> ClaimsView {
    (
        match f.sub { Some(s) => Some(s@), None => None },
        match f.username { Some(s) => Some(s@), None => None },
        f.exp,
        f.iat,
    )
}

/// View of complete claims.
pub open spec fn claims_view(c: Claims) -> ClaimsView {
    (Some(c.sub@), Some(c.username@), Some(c.exp as u64), Some(c.iat as u64))
}

/// The claim members that `token` carries when `jsonwebtoken::decode` accepts
/// it under `secret` with the expiry check left out: the HS256 signature
/// checks out, the payload is a JSON object with a numeric `exp` and no `aud`
/// (`None` when any of that fails).
pub uninterp spec fn token_payload(token: Seq<char>, secret: Seq<char>) -> Option<ClaimsView>;

/// How many `.` separators a token holds; a well-formed token has two
/// (header, payload and signature).
pub open spec fn dot_count(token: Seq<char>) -> nat
    decreases token.len(),
{
    if token.len() == 0 {
        0
    } else {
        (if token.last() == '.' { 1nat } else { 0nat }) + dot_count(token.drop_last())
    }
}

/// The HS256 token that `jsonwebtoken::encode` produces for these claim
/// members under `secret`.
pub uninterp spec fn signed_token(sub: Seq<char>, username: Seq<char>, exp: usize, iat: usize, secret: Seq<char>) -> Seq<char>;

/// The first Unix second chrono represents: January 1 of the year -262143.
pub const UTC_MIN_SECONDS: i64 = -8_334_601_228_800;

/// The last Unix second chrono represents: December 31 of the year 262142, 23:59:59.
pub const UTC_MAX_SECONDS: i64 = 8_210_266_876_799;

/// Whether chrono represents Unix second `t`.
pub open spec fn utc_in_range(t: int) -> bool {
    UTC_MIN_SECONDS <= t <= UTC_MAX_SECONDS
}

/// The Unix second `hours` hours after Unix second `now`, where chrono
/// represents both seconds (`None` elsewhere).
pub open spec fn utc_plus_hours(now: i64, hours: i64) -> Option<i64> {
    if utc_in_range(now as int) && utc_in_range(now + hours * 3600) {
        Some((now + hours * 3600) as i64)
    } else {
        None
    }
}

/// Calls `jsonwebtoken::decode` with an HMAC key made from `secret` and
/// `Validation::new(Algorithm::HS256)` whose expiry check is switched off
/// (`validate_exp = false`; the required `exp` claim and the `aud` rule
/// still apply), decoding the payload as a JSON object and picking `sub` and
/// `username` (`as_str`) and `exp` and `iat` (`as_u64`). With the expiry
/// check off the outcome depends on the token and the secret alone; claimed:
/// it is the named payload, and an error exactly where there is none. A
/// token that does not hold exactly two `.` separators is refused: with
/// fewer, `decode` cannot split off the signature and the payload; with
/// more, the header part holds a `.`, which its URL-safe base64 decoding
/// refuses.
#[verifier::external_body]
fn decode_claim_fields(token: &str, secret: &str) -> (r: Result<ClaimFields, jsonwebtoken::errors::Error>)
    ensures
        match r {
            Ok(f) => token_payload(token@, secret@) == Some(fields_view(f)),
            Err(_) => token_payload(token@, secret@) is None,
        },
        dot_count(token@) != 2 ==> r is Err,
{
    let mut validation = jsonwebtoken::Validation::new(jsonwebtoken::Algorithm::HS256);
    validation.validate_exp = false;
    let key = jsonwebtoken::DecodingKey::from_secret(secret.as_bytes());
    let data = jsonwebtoken::decode::<serde_json::Map<String, serde_json::Value>>(token, &key, &validation)?;
    let c = data.claims;
    Ok(ClaimFields {
        sub: c.get("sub").and_then(|v| v.as_str()).map(|s| s.to_string()),
        username: c.get("username").and_then(|v| v.as_str()).map(|s| s.to_string()),
        exp: c.get("exp").and_then(|v| v.as_u64()),
        iat: c.get("iat").and_then(|v| v.as_u64()),
    })
}

#[verifier::external_type_specification]
#[verifier::external_body]
pub struct ExSystemTime(std::time::SystemTime);

/// Calls `std::time::SystemTime::now`. The clock may read anything.
#[verifier::external_body]
fn system_now() -> std::time::SystemTime {
    std::time::SystemTime::now()
}

/// Calls `SystemTime::duration_since` with `UNIX_EPOCH`: the time elapsed
/// since 1970, or `None` where `t` lies before it (std returns an error
/// then). Nothing is claimed of the duration.
#[verifier::external_body]
fn since_unix_epoch(t: std::time::SystemTime) -> Option<core::time::Duration> {
    t.duration_since(std::time::UNIX_EPOCH).ok()
}

/// Calls `Duration::as_secs`: the whole seconds of `d`. Nothing is claimed
/// of the number.
#[verifier::external_body]
fn whole_seconds(d: core::time::Duration) -> u64 {
    d.as_secs()
}

/// The Unix second the clock reads now, or `None` where it reads before 1970.
fn unix_now_seconds() -> Option<u64> {
    match since_unix_epoch(system_now()) {
        Some(d) => Some(whole_seconds(d)),
        None => None,
    }
}

/// Calls `jsonwebtoken::encode` with the default (HS256) header, an HMAC key
/// made from `secret` and a JSON object of the four claims. The key's family
/// matches the header's algorithm, the header and a map of strings and
/// numbers always serialise, and HMAC signing cannot fail, so the call always
/// succeeds. Claimed: the token is the named encoding, and under the same
/// secret it carries the claims it was made from.
#[verifier::external_body]
fn encode_claims(sub: &str, username: &str, exp: usize, iat: usize, secret: &str) -> (r: Result<String, jsonwebtoken::errors::Error>)
    ensures
        r is Ok,
        r matches Ok(t) ==> t@ == signed_token(sub@, username@, exp, iat, secret@)
            && token_payload(t@, secret@) == Some((Some(sub@), Some(username@), Some(exp as u64), Some(iat as u64))),
{
    let mut claims = serde_json::Map::new();
    claims.insert("sub".to_string(), serde_json::Value::from(sub));
    claims.insert("username".to_string(), serde_json::Value::from(username));
    claims.insert("exp".to_string(), serde_json::Value::from(exp));
    claims.insert("iat".to_string(), serde_json::Value::from(iat));
    jsonwebtoken::encode(
        &jsonwebtoken::Header::default(),
        &claims,
        &jsonwebtoken::EncodingKey::from_secret(secret.as_bytes()),
    )
}

/// Adds `hours` hours to Unix second `now` with chrono
/// (`DateTime::from_timestamp`, `TimeDelta::try_hours`,
/// `checked_add_signed`, `timestamp`). chrono represents the dates from
/// January 1 of the year -262143 to December 31 of the year 262142, and
/// spans of up to `i64::MAX` milliseconds (far more than lies between those
/// dates); `from_timestamp` refuses a second outside that range and
/// `checked_add_signed` a result outside it, and adding whole hours moves
/// the second by exactly 3600 per hour. Claimed: the result is that second
/// exactly where both lie in the range, and `None` elsewhere.
#[verifier::external_body]
fn add_hours_utc(now: i64, hours: i64) -> (r: Option<i64>)
    ensures
        r == utc_plus_hours(now, hours),
{
    let start = chrono::DateTime::from_timestamp(now, 0)?;
    let later = start.checked_add_signed(chrono::TimeDelta::try_hours(hours)?)?;
    Some(later.timestamp())
}

/// Why a token was not issued or not accepted.
#[derive(Debug, Clone, Copy, PartialEq, Eq, Structural)]
pub enum TokenError {
    /// The token's signature, format, expiry or claims were rejected.
    Rejected,
    /// The expiry time lies outside the calendar the clock library supports.
    ExpiryOutOfRange,
    /// The clock reads before 1970, or later than a signed 64-bit second count holds.
    ClockOutOfRange,
}

/// Whether `c` is what a token carries under `secret`.
pub open spec fn carries(token: Seq<char>, secret: Seq<char>, c: Claims) -> bool {
    token_payload(token, secret) == Some(claims_view(c))
}

/// Whether a token expiring at Unix second `exp` has expired at Unix second
/// `now`, allowing the 60 s leeway of `Validation::new`.
pub open spec fn expired(exp: u64, now: u64) -> bool {
    (exp as int) + 60 < now as int
}

/// Whether claim members are all present and fit the word-sized claims.
pub open spec fn complete_claims(v: ClaimsView) -> bool {
    &&& v.0 is Some
    &&& v.1 is Some
    &&& v.2 is Some
    &&& v.3 is Some
    &&& v.2.unwrap() <= usize::MAX
    &&& v.3.unwrap() <= usize::MAX
}

/// Whether `r` is the outcome of checking `token` under `secret` at Unix
/// second `now`: the claims it carries when they are complete and not
/// expired, otherwise a rejection.
pub open spec fn decoded_at(token: Seq<char>, secret: Seq<char>, now: u64, r: Result<Claims, TokenError>) -> bool {
    match token_payload(token, secret) {
        Some(v) => if complete_claims(v) && !expired(v.2.unwrap(), now) {
            r matches Ok(c) && claims_view(c) == v
        } else {
            r matches Err(e) && e == TokenError::Rejected
        },
        None => r matches Err(e) && e == TokenError::Rejected,
    }
}

/// Decodes and checks an administrator token (HS256) as at Unix second
/// `now`: accepted exactly when it carries complete claims under `secret`
/// and has not expired (60 s leeway).
pub fn decode_jwt_at(token: &str, secret: &str, now: u64) -> (r: Result<Claims, TokenError>)
    ensures
        decoded_at(token@, secret@, now, r),
        dot_count(token@) != 2 ==> r matches Err(TokenError::Rejected),
{
    match decode_claim_fields(token, secret) {
        Ok(f) => {
            match (f.sub, f.username, f.exp, f.iat) {
                (Some(sub), Some(username), Some(exp), Some(iat)) => {
                    if exp <= usize::MAX as u64 && iat <= usize::MAX as u64 && !(exp < now && now - exp > 60) {
                        Ok(Claims { sub, username, exp: exp as usize, iat: iat as usize })
                    } else {
                        Err(TokenError::Rejected)
                    }
                },
                _ => Err(TokenError::Rejected),
            }
        },
        Err(_) => Err(TokenError::Rejected),
    }
}

/// Decodes and checks an administrator token (HS256) against the clock:
/// the outcome is that of `decode_jwt_at` at the second the clock read, so
/// on success its claims are the ones the token carries. A clock that reads
/// before 1970 has passed no expiry time, so the check is then made as at
/// second 0, which gives the same outcome.
pub fn decode_jwt(token: &str, secret: &str) -> (r: Result<Claims, TokenError>)
    ensures
        exists|now: u64| #[trigger] decoded_at(token@, secret@, now, r),
        r matches Ok(c) ==> carries(token@, secret@, c),
        token_payload(token@, secret@) is None ==> r is Err,
        dot_count(token@) != 2 ==> r matches Err(TokenError::Rejected),
{
    let now = match unix_now_seconds() {
        Some(s) => s,
        None => 0,
    };
    let r = decode_jwt_at(token, secret, now);
    assert(decoded_at(token@, secret@, now, r));
    r
}

/// Issues and checks administrator tokens with one secret.
#[derive(Debug, Clone)]
pub struct JwtService {
    secret: String,
    expiry_hours: u64,
}

/// Whether `token` was issued under `secret` for user `sub` named `username`.
pub open spec fn issued_for(token: Seq<char>, secret: Seq<char>, sub: Seq<char>, username: Seq<char>) -> bool {
    exists|exp: u64, iat: u64| #[trigger] carries_fields(token, secret, sub, username, exp, iat)
}

/// Whether `token` carries, under `secret`, exactly these claim values.
pub open spec fn carries_fields(token: Seq<char>, secret: Seq<char>, sub: Seq<char>, username: Seq<char>, exp: u64, iat: u64) -> bool {
    token_payload(token, secret) == Some((Some(sub), Some(username), Some(exp), Some(iat)))
}

/// Whether `token` carries, under `secret`, the claims of a token for `sub`
/// named `username` issued at Unix second `now` and expiring `hours` later
/// (both as the word-sized integers the claims hold).
pub open spec fn issued_at(token: Seq<char>, secret: Seq<char>, sub: Seq<char>, username: Seq<char>, hours: u64, now: i64) -> bool {
    token_payload(token, secret) == Some((
        Some(sub),
        Some(username),
        Some((((now + (hours as i64) * 3600) as i64) as usize) as u64),
        Some((now as usize) as u64),
    ))
}

/// Whether `token` carries, under `secret`, the claims of a token for `sub`
/// named `username` issued at some time and expiring `hours` after it.
pub open spec fn issued_recently(token: Seq<char>, secret: Seq<char>, sub: Seq<char>, username: Seq<char>, hours: u64) -> bool {
    exists|now: i64| #[trigger] issued_at(token, secret, sub, username, hours, now)
}

/// Whether `r` is the outcome of issuing, at Unix second `now`, a token for
/// `sub` named `username` valid for `hours` hours under `secret`: the token
/// signed over these claims with the expiry chrono gives, or
/// `ExpiryOutOfRange` where it gives none.
pub open spec fn issued_outcome(secret: Seq<char>, sub: Seq<char>, username: Seq<char>, hours: u64, now: i64, r: Result<String, TokenError>) -> bool {
    match utc_plus_hours(now, hours as i64) {
        Some(e) => r matches Ok(t) && t@ == signed_token(sub, username, e as usize, now as usize, secret),
        None => r matches Err(err) && err == TokenError::ExpiryOutOfRange,
    }
}

impl JwtService {
    /// The secret tokens are signed with.
    pub closed spec fn secret_view(&self) -> Seq<char> {
        self.secret@
    }

    /// Lifetime of issued tokens in hours.
    pub closed spec fn expiry_view(&self) -> u64 {
        self.expiry_hours
    }

    /// A service signing with `secret` and issuing tokens valid for `expiry_hours`.
    pub fn new(secret: &str, expiry_hours: u64) -> (r: JwtService)
        ensures
            r.secret_view() == secret@,
            r.expiry_view() == expiry_hours,
    {
        JwtService { secret: String::from_str(secret), expiry_hours }
    }

    /// Issues, as at Unix second `now`, a token for user `user_id` named
    /// `username` that expires `expiry_hours` later: the token signed over
    /// exactly these claims, or `ExpiryOutOfRange` where chrono cannot
    /// represent the expiry.
    pub fn generate_token_at(&self, user_id: &str, username: &str, now: i64) -> (r: Result<String, TokenError>)
        ensures
            issued_outcome(self.secret_view(), user_id@, username@, self.expiry_view(), now, r),
            -8_000_000_000_000 <= now <= 8_000_000_000_000 && self.expiry_view() <= 1_000_000 ==> r is Ok,
            r matches Ok(t) ==> issued_at(t@, self.secret_view(), user_id@, username@, self.expiry_view(), now),
            r matches Ok(t) ==> issued_recently(t@, self.secret_view(), user_id@, username@, self.expiry_view()),
            r matches Ok(t) ==> issued_for(t@, self.secret_view(), user_id@, username@),
    {
        match add_hours_utc(now, self.expiry_hours as i64) {
            Some(expires) => {
                let exp = expires as usize;
                let iat = now as usize;
                match encode_claims(user_id, username, exp, iat, self.secret.as_str()) {
                    Ok(t) => {
                        assert(carries_fields(t@, self.secret_view(), user_id@, username@, exp as u64, iat as u64));
                        assert(issued_at(t@, self.secret_view(), user_id@, username@, self.expiry_view(), now));
                        Ok(t)
                    },
                    Err(_) => Err(TokenError::Rejected),
                }
            },
            None => Err(TokenError::ExpiryOutOfRange),
        }
    }

    /// Issues a token for user `user_id` named `username`, expiring
    /// `expiry_hours` after now: the outcome of `generate_token_at` at the
    /// second the clock read, so it carries these claims under the secret,
    /// with the issue time that second and the expiry that many hours later
    /// (so `lemma_issued_token_accepted` applies to it); or
    /// `ClockOutOfRange` where the clock reads no usable second.
    pub fn generate_token(&self, user_id: &str, username: &str) -> (r: Result<String, TokenError>)
        ensures
            r matches Err(TokenError::ClockOutOfRange) || exists|now: i64|
                0 <= now && #[trigger] issued_outcome(self.secret_view(), user_id@, username@, self.expiry_view(), now, r)
                    && (r matches Ok(t) ==> issued_at(t@, self.secret_view(), user_id@, username@, self.expiry_view(), now)),
            r matches Ok(t) ==> issued_recently(t@, self.secret_view(), user_id@, username@, self.expiry_view()),
            r matches Ok(t) ==> issued_for(t@, self.secret_view(), user_id@, username@),
    {
        match unix_now_seconds() {
            Some(s) => {
                if s <= i64::MAX as u64 {
                    let now = s as i64;
                    let r = self.generate_token_at(user_id, username, now);
                    assert(issued_outcome(self.secret_view(), user_id@, username@, self.expiry_view(), now, r));
                    r
                } else {
                    Err(TokenError::ClockOutOfRange)
                }
            },
            None => Err(TokenError::ClockOutOfRange),
        }
    }

    /// Checks a token signed with this service's secret against the clock:
    /// the outcome of `decode_jwt` under the secret, so on success its
    /// claims are the ones the token carries.
    pub fn verify_token(&self, token: &str) -> (r: Result<Claims, TokenError>)
        ensures
            exists|now: u64| #[trigger] decoded_at(token@, self.secret_view(), now, r),
            r matches Ok(c) ==> carries(token@, self.secret_view(), c),
            token_payload(token@, self.secret_view()) is None ==> r is Err,
            dot_count(token@) != 2 ==> r matches Err(TokenError::Rejected),
    {
        decode_jwt(token, self.secret.as_str())
    }
}

/// A token issued for a user and accepted under the same secret gives back
/// that user's id and name.
pub proof fn lemma_token_roundtrip(token: Seq<char>, secret: Seq<char>, sub: Seq<char>, username: Seq<char>, c: Claims)
    requires
        issued_for(token, secret, sub, username),
        carries(token, secret, c),
    ensures
        c.sub@ == sub,
        c.username@ == username,
{
}

/// The expiry rule: a token that carries all four claims (with word-sized
/// times) under the secret is accepted at Unix second `now` exactly when its
/// expiry plus the 60 s leeway is not before `now`, and then gives back the
/// claims it carries; a token with no payload under the secret is refused.
pub proof fn lemma_expiry_rule(token: Seq<char>, secret: Seq<char>, now: u64, r: Result<Claims, TokenError>)
    requires
        decoded_at(token, secret, now, r),
    ensures
        token_payload(token, secret) is None ==> r is Err,
        token_payload(token, secret) matches Some(v) ==> (v.0 is Some && v.1 is Some && v.2 is Some && v.3 is Some
            && v.2.unwrap() <= usize::MAX && v.3.unwrap() <= usize::MAX ==> (
                (r is Ok <==> v.2.unwrap() as int + 60 >= now as int)
                && (r matches Ok(c) ==> Some(c.sub@) == v.0 && Some(c.username@) == v.1
                    && c.exp as int == v.2.unwrap() as int && c.iat as int == v.3.unwrap() as int))),
{
}

/// A token issued at a Unix second `now` (not before 1970, with an expiry
/// that fits the word-sized claim) is accepted under the same secret at any
/// second up to its expiry plus the leeway, and gives back the user, the
/// issue time and the expiry it was issued with.
pub proof fn lemma_issued_token_accepted(
    token: Seq<char>,
    secret: Seq<char>,
    sub: Seq<char>,
    username: Seq<char>,
    hours: u64,
    now: i64,
    at: u64,
    r: Result<Claims, TokenError>,
)
    requires
        issued_at(token, secret, sub, username, hours, now),
        0 <= now,
        now + hours * 3600 <= i64::MAX,
        now + hours * 3600 <= usize::MAX,
        at <= now + hours * 3600 + 60,
        decoded_at(token, secret, at, r),
    ensures
        r matches Ok(c) && c.sub@ == sub && c.username@ == username && c.iat == now && c.exp == now + hours * 3600,
{
    let e: int = now + hours * 3600;
    assert((hours as i64) as int == hours as int);
    assert(((now + (hours as i64) * 3600) as i64) as int == e);
    assert(((e as i64) as usize) as int == e);
    assert((((e as i64) as usize) as u64) as int == e);
    assert(((now as usize) as u64) as int == now as int);
    let v = token_payload(token, secret).unwrap();
    assert(v.2.unwrap() as int == e);
    assert(!expired(v.2.unwrap(), at));
    assert(complete_claims(v));
}

/// Why an admin or proxy request was refused: status, message and error type.
#[derive(Debug, Clone)]
pub struct AuthRejection {
    pub status: u16,
    pub message: String,
    pub error_type: String,
}

/// The claims of an authenticated administrator.
#[derive(Debug, Clone)]
pub struct AuthClaims(pub Claims);

/// The token check that an admin authentication outcome stands for: the
/// claims when it passed, a rejection when it was refused.
pub open spec fn admin_check(r: Result<AuthClaims, AuthRejection>) -> Result<Claims, TokenError> {
    match r {
        Ok(c) => Ok(c.0),
        Err(_) => Err(TokenError::Rejected),
    }
}

/// Admin API authentication: a bearer token is required (401 `缺少认证令牌`),
/// the signing secret must be configured (500 `JWT 配置缺失`) and the token
/// must check out (401 `无效的认证令牌`): with both present, the outcome is
/// that of `decode_jwt_at` at the second the clock read, so a token that
/// carries complete, unexpired claims under the secret passes.
pub fn authenticate_admin(bearer: Option<&str>, secret: Option<&str>) -> (r: Result<AuthClaims, AuthRejection>)
    ensures
        bearer is None ==> (r matches Err(e) && e.status == 401 && e.message@ == "缺少认证令牌"@),
        bearer is Some && secret is None ==> (r matches Err(e) && e.status == 500 && e.message@ == "JWT 配置缺失"@),
        r matches Ok(c) ==> carries(bearer.unwrap()@, secret.unwrap()@, c.0),
        bearer is Some && secret is Some && token_payload(bearer.unwrap()@, secret.unwrap()@) is None ==> r is Err,
        bearer is Some && secret is Some && dot_count(bearer.unwrap()@) != 2 ==> r is Err,
        bearer is Some && secret is Some && r is Err ==> (r matches Err(e) && e.status == 401 && e.message@ == "无效的认证令牌"@),
        bearer is Some && secret is Some ==> exists|now: u64| #[trigger] decoded_at(bearer.unwrap()@, secret.unwrap()@, now, admin_check(r)),
{
    let token = match bearer {
        Some(t) => t,
        None => {
            return Err(AuthRejection { status: 401, message: String::from_str("缺少认证令牌"), error_type: String::new() });
        },
    };
    let key = match secret {
        Some(s) => s,
        None => {
            return Err(AuthRejection { status: 500, message: String::from_str("JWT 配置缺失"), error_type: String::new() });
        },
    };
    let checked = decode_jwt(token, key);
    let ghost now = choose|now: u64| #[trigger] decoded_at(token@, key@, now, checked);
    let r = match checked {
        Ok(c) => Ok(AuthClaims(c)),
        Err(_) => Err(AuthRejection { status: 401, message: String::from_str("无效的认证令牌"), error_type: String::new() }),
    };
    assert(decoded_at(token@, key@, now, admin_check(r)));
    r
}

/// An authenticated proxy client: the id and name of its API key.
#[derive(Debug, Clone)]
pub struct ApiKeyAuth {
    pub key_id: String,
    pub key_name: String,
}

/// The API key a proxy request presents: the bearer token, else the
/// `x-api-key` header, else none (empty).
pub fn presented_api_key(bearer: Option<String>, x_api_key: Option<String>) -> (r: String)
    ensures
        r@ == match bearer {
            Some(b) => b@,
            None => match x_api_key {
                Some(k) => k@,
                None => Seq::empty(),
            },
        },
{
    match bearer {
        Some(b) => b,
        None => match x_api_key {
            Some(k) => k,
            None => String::new(),
        },
    }
}

/// What the key store said about a presented key.
#[derive(Debug, Clone)]
pub enum KeyLookup {
    /// Known key: its id, name and whether it is enabled.
    Found(String, String, bool),
    /// No such key.
    Unknown,
    /// The key store is not configured.
    StoreMissing,
    /// The key store could not be queried.
    StoreFailed,
}

/// What the key store (or the cache) said about a presented key, as text.
pub enum LookupView {
    Found(Seq<char>, Seq<char>, bool),
    Unknown,
    StoreMissing,
    StoreFailed,
}

/// View of a key lookup.
pub open spec fn lookup_view(l: KeyLookup) -> LookupView {
    match l {
        KeyLookup::Found(id, name, enabled) => LookupView::Found(id@, name@, enabled),
        KeyLookup::Unknown => LookupView::Unknown,
        KeyLookup::StoreMissing => LookupView::StoreMissing,
        KeyLookup::StoreFailed => LookupView::StoreFailed,
    }
}

/// The HTTP status a proxy request is answered with after a lookup: 200
/// for an enabled key, 403 for a disabled one, 401 for an unknown one, 500
/// when the store is missing or failed.
pub open spec fn lookup_status(l: LookupView) -> u16 {
    match l {
        LookupView::Found(_, _, enabled) => if enabled { 200 } else { 403 },
        LookupView::Unknown => 401,
        LookupView::StoreMissing | LookupView::StoreFailed => 500,
    }
}

fn rejection(status: u16, message: &str, error_type: &str) -> (r: AuthRejection)
    ensures
        r.status == status,
        r.message@ == message@,
        r.error_type@ == error_type@,
{
    AuthRejection { status, message: String::from_str(message), error_type: String::from_str(error_type) }
}

/// Whether the presented key is missing; the refusal (401 `缺少 API Key`) when it is.
pub fn require_api_key(key: &str) -> (r: Option<AuthRejection>)
    ensures
        key@.len() == 0 <==> r is Some,
        r matches Some(e) ==> e.status == 401 && e.message@ == "缺少 API Key"@ && e.error_type@ == "authentication_error"@,
{
    if key.is_empty() {
        Some(rejection(401, "缺少 API Key", "authentication_error"))
    } else {
        None
    }
}

/// Proxy API authentication from what the key store said: an enabled key
/// passes; a disabled one is 403, an unknown one 401, a missing or failing
/// store 500.
pub fn api_key_verdict(lookup: KeyLookup) -> (r: Result<ApiKeyAuth, AuthRejection>)
    ensures
        match r {
            Ok(_) => lookup_status(lookup_view(lookup)) == 200,
            Err(e) => e.status == lookup_status(lookup_view(lookup)),
        },
        match lookup {
            KeyLookup::Found(id, name, enabled) => if enabled {
                r matches Ok(a) && a.key_id == id && a.key_name == name
            } else {
                r matches Err(e) && e.status == 403 && e.message@ == "API Key 已禁用"@ && e.error_type@ == "authentication_error"@
            },
            KeyLookup::Unknown => r matches Err(e) && e.status == 401 && e.message@ == "无效的 API Key"@
                && e.error_type@ == "authentication_error"@,
            KeyLookup::StoreMissing => r matches Err(e) && e.status == 500 && e.message@ == "数据库配置缺失"@
                && e.error_type@ == "server_error"@,
            KeyLookup::StoreFailed => r matches Err(e) && e.status == 500 && e.message@ == "数据库查询失败"@
                && e.error_type@ == "server_error"@,
        },
{
    match lookup {
        KeyLookup::Found(id, name, enabled) => {
            if enabled {
                Ok(ApiKeyAuth { key_id: id, key_name: name })
            } else {
                Err(rejection(403, "API Key 已禁用", "authentication_error"))
            }
        },
        KeyLookup::Unknown => Err(rejection(401, "无效的 API Key", "authentication_error")),
        KeyLookup::StoreMissing => Err(rejection(500, "数据库配置缺失", "server_error")),
        KeyLookup::StoreFailed => Err(rejection(500, "数据库查询失败", "server_error")),
    }
}

} // verus!
