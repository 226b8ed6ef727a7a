//! The tokens that identify a user: a JSON Web Token signed with HMAC-SHA256
//! whose claims are the user's id and the time at which the token expires.

use vstd::prelude::*;
use crate::decimal::{decimal, write_i64};
use crate::result::{json_quote, json_string, token_creation_failed_message, AppError, AppErrorView};

verus! {

/// The earliest second that `chrono` can represent (the start of the year
/// -262143), in seconds since the Unix epoch.
pub const MIN_TIMESTAMP: i64 = -8334601228800;
/// The latest second that `chrono` can represent (the end of the year
/// 262142), in seconds since the Unix epoch.
pub const MAX_TIMESTAMP: i64 = 8210266876799;
/// Seconds in a day.
pub const SECS_PER_DAY: i64 = 86400;

/// The claims of a token: whose it is and when it expires (in seconds since
/// the Unix epoch).
#[derive(Debug)]
pub struct Claims {
    pub id: String,
    pub exp: i64,
}

/// The time `days` days after `now`, as `chrono` computes
/// `now + Duration::days(days)`: `None` where that moment lies outside
/// the range of dates that `chrono` can represent.
pub open spec fn expiry_spec(now: int, days: int) -> Option<int> {
    let t = now + days * SECS_PER_DAY;
    if MIN_TIMESTAMP <= t && t <= MAX_TIMESTAMP {
        Some(t)
    } else {
        None
    }
}

/// `days` days is a span that `chrono::Duration::days` can hold: at most
/// `i64::MAX` milliseconds either way, in whole seconds.
pub open spec fn duration_days_in_range(days: int) -> bool {
    -9_223_372_036_854_775 <= days * SECS_PER_DAY <= 9_223_372_036_854_775
}

/// The JSON text of the claims, as `serde_json` writes the struct: the
/// fields in their order, no spaces.
pub open spec fn claims_json(id: Seq<char>, exp: int) -> Seq<char> {
    "{\"id\":"@ + json_string(id) + ",\"exp\":"@ + decimal(exp) + "}"@
}

/// The token that `jsonwebtoken::encode` makes from the default header
/// (HS256) and the claims whose JSON text is `claims`, signed with the
/// bytes of `secret`.
pub uninterp spec fn jwt_hs256(claims: Seq<char>, secret: Seq<char>) -> Seq<char>;

/// The current time from `chrono::Utc::now()`, in whole seconds since the
/// Unix epoch. Claimed: it lies within the range of dates that `chrono`
/// represents and is not before the epoch (`Utc::now` panics on a clock set
/// before 1970, and a time that reads as negative after its cast is refused
/// by `DateTime::from_timestamp`, whose `unwrap` panics). Nothing else is
/// claimed of it.
#[verifier::external_body]
fn current_timestamp() -> (t: i64)
    ensures
        0 <= t <= MAX_TIMESTAMP,
{
    chrono::Utc::now().timestamp()
}

/// Signs the claims whose JSON text is `claims` with `jsonwebtoken::encode`,
/// the default header and `EncodingKey::from_secret` of the bytes of
/// `secret`. Claimed: a token that comes back is `jwt_hs256(claims, secret)`,
/// and a token comes back for every text that `claims_json` writes.
/// `serde_json::value::RawValue::from_string` accepts such a text (it is a
/// JSON object of a JSON string and an integer), and `jsonwebtoken::encode`
/// with the default header (HS256) and a secret key signs with HMAC, which
/// cannot fail. For other texts it is not stated when a token comes back.
#[verifier::external_body]
fn encode_hs256(claims: &str, secret: &str) -> (r: Option<String>)
    ensures
        r matches Some(t) ==> t@ == jwt_hs256(claims@, secret@),
        (exists|id: Seq<char>, e: i64| claims@ == #[trigger] claims_json(id, e as int)) ==> r is Some,
{
    match serde_json::value::RawValue::from_string(claims.to_string()) {
        Ok(raw) => jsonwebtoken::encode(
            &jsonwebtoken::Header::default(),
            &raw,
            &jsonwebtoken::EncodingKey::from_secret(secret.as_bytes()),
        ).ok(),
        Err(_) => None,
    }
}

/// The time `days` days after `now`, where `chrono` can represent it.
pub fn expiry_timestamp(now: i64, days: i64) -> (r: Option<i64>)
    requires
        MIN_TIMESTAMP <= now <= MAX_TIMESTAMP,
    ensures
        match r {
            Some(t) => expiry_spec(now as int, days as int) == Some(t as int),
            None => expiry_spec(now as int, days as int) is None,
        },
{
    let t: i128 = now as i128 + days as i128 * 86400;
    if t < MIN_TIMESTAMP as i128 || t > MAX_TIMESTAMP as i128 {
        None
    } else {
        Some(t as i64)
    }
}

impl Claims {
    /// The JSON text of the claims.
    pub fn to_json(&self) -> (r: String)
        ensures
            r@ == claims_json(self.id@, self.exp as int),
    {
        let mut body = String::from_str("{\"id\":");
        let quoted = json_quote(self.id.as_str());
        body.append(quoted.as_str());
        body.append(",\"exp\":");
        write_i64(&mut body, self.exp);
        body.append("}");
        body
    }

    /// Makes the token for user `id`, valid for `exp` days after `now`,
    /// signed with `secret`. Where the expiry lies within the dates that
    /// `chrono` represents, the token is made; beyond them the error is
    /// `ServerError` "创建令牌失败".
    pub fn issue_at(id: &str, secret: &str, exp: i64, now: i64) -> (r: Result<String, AppError>)
        requires
            MIN_TIMESTAMP <= now <= MAX_TIMESTAMP,
        ensures
            match expiry_spec(now as int, exp as int) {
                Some(t) => r matches Ok(token) && token@ == jwt_hs256(claims_json(id@, t), secret@),
                None => r matches Err(e) && e@ == AppErrorView::ServerError(token_creation_failed_message()),
            },
    {
        let t = match expiry_timestamp(now, exp) {
            Some(t) => t,
            None => return Err(AppError::token_creation_failed()),
        };
        let claims = Claims { id: String::from_str(id), exp: t };
        let json = claims.to_json();
        assert(json@ == claims_json(id@, t as int));
        match encode_hs256(json.as_str(), secret) {
            Some(token) => Ok(token),
            None => Err(AppError::token_creation_failed()),
        }
    }

    /// Makes the token for user `id`, valid for `exp` days from now, signed
    /// with `secret`. `exp` days must be a span that `chrono::Duration::days`
    /// can hold (it panics on others). The token is made unless the clock
    /// reads a time from which `exp` days lead beyond the dates that `chrono`
    /// represents (where `now + Duration::days(exp)` panics); then the error is
    /// `ServerError` "创建令牌失败".
    pub fn new(id: &str, secret: &str, exp: i64) -> (r: Result<String, AppError>)
        requires
            duration_days_in_range(exp as int),
        ensures
            r matches Ok(token) ==> exists|now: int, t: int|
                #![trigger expiry_spec(now, exp as int), claims_json(id@, t)]
                0 <= now <= MAX_TIMESTAMP
                && expiry_spec(now, exp as int) == Some(t)
                && token@ == jwt_hs256(claims_json(id@, t), secret@),
            r matches Err(e) ==> e@ == AppErrorView::ServerError(token_creation_failed_message())
                && exists|now: int|
                    0 <= now <= MAX_TIMESTAMP && #[trigger] expiry_spec(now, exp as int) is None,
    {
        let now = current_timestamp();
        let r = Claims::issue_at(id, secret, exp, now);
        proof {
            if r is Ok {
                let t = expiry_spec(now as int, exp as int)->Some_0;
                assert(expiry_spec(now as int, exp as int) == Some(t));
                assert(r->Ok_0@ == jwt_hs256(claims_json(id@, t), secret@));
            } else {
                assert(expiry_spec(now as int, exp as int) is None);
            }
        }
        r
    }
}

} // verus!
