//! What a session token carries, and the errors of making and reading tokens.
use vstd::prelude::*;
use vstd::string::StringExecFns;
use vstd::string::StrSliceExecFns;
use crate::error::ModelError;
use crate::session::session_service::{Session, SessionData};
use crate::strings::{to_owned_string};
use jsonwebtoken::{Algorithm, DecodingKey, EncodingKey, Header, Validation};
use serde_json::Value;

verus! {

/// Session data to be encoded in the token.
#[derive(Debug)]
pub struct SessionJWTData {
    pub aud: String,
    pub sub: String,
    /// Expiration time in seconds since the epoch.
    pub exp: u64,
    /// Issue time in seconds since the epoch.
    pub iat: u64,
}

/// The audience of every session token.
pub const AUDIENCE: &'static str = "app";

impl SessionJWTData {
    /// The token data of a session issued at `now` (seconds since the epoch):
    /// for the application, about the session's address, expiring with it.
    pub fn new(session: &Session, now: u64) -> (r: Self)
        ensures
            r.aud@ == AUDIENCE@,
            r.sub@ == session.address@,
            r.exp == session.expires_at,
            r.iat == now,
    {
        SessionJWTData {
            aud: to_owned_string(AUDIENCE),
            sub: session.address.clone(),
            exp: session.expires_at,
            iat: now,
        }
    }
}

/// The message of a token that does not decode or validate.
pub const INVALID_TOKEN: &'static str = "Invalid or expired token";

/// The error for a token that does not decode or validate, whatever the reason.
pub fn invalid_token_error() -> (r: ModelError)
    ensures
        r is Unauthorized && r.msg() == INVALID_TOKEN@,
{
    ModelError::Unauthorized(to_owned_string(INVALID_TOKEN))
}

/// The error for a token that could not be made, with the encoder's reason.
pub fn token_generation_error(reason: &str) -> (r: ModelError)
    ensures
        r is Unexpected && r.msg() == "Failed to generate JWT token: "@ + reason@,
{
    let mut m = to_owned_string("Failed to generate JWT token: ");
    m.append(reason);
    ModelError::Unexpected(m)
}

/// The token `jsonwebtoken::encode` makes with an HS256 header, the claims
/// object `{aud, sub, exp, iat}` and the key of the secret's bytes, or the text
/// of its error. HMAC signing and base64 are deterministic, so the token is a
/// function of these values.
pub uninterp spec fn signed_session_token(
    aud: Seq<char>,
    sub: Seq<char>,
    exp: u64,
    iat: u64,
    secret: Seq<char>,
) -> Result<Seq<char>, Seq<char>>;

/// `jsonwebtoken::encode` of the session claims, signed with HS256 and the
/// secret: the contract names the result over the claims and the secret. The
/// claims object keeps the order it is built in (`aud`, `sub`, `exp`, `iat`).
#[verifier::external_body]
fn sign_session_claims(aud: &str, sub: &str, exp: u64, iat: u64, secret: &str) -> (r: Result<String, String>)
    ensures
        r is Ok <==> signed_session_token(aud@, sub@, exp, iat, secret@) is Ok,
        r matches Ok(t) ==> signed_session_token(aud@, sub@, exp, iat, secret@)->Ok_0 == t@,
        r matches Err(e) ==> signed_session_token(aud@, sub@, exp, iat, secret@)->Err_0 == e@,
{
    let mut claims = serde_json::Map::new();
    claims.insert("aud".to_string(), Value::from(aud));
    claims.insert("sub".to_string(), Value::from(sub));
    claims.insert("exp".to_string(), Value::from(exp));
    claims.insert("iat".to_string(), Value::from(iat));
    let key = EncodingKey::from_secret(secret.as_bytes());
    jsonwebtoken::encode(&Header::new(Algorithm::HS256), &claims, &key).map_err(|e| e.to_string())
}

/// The claims of a token as the library reads them: `aud`, `sub` (as text),
/// `exp` and `iat` (as whole numbers), each `None` where absent or of another type.
pub type SessionClaims = (Option<String>, Option<String>, Option<u64>, Option<u64>);

/// The claims of a token by their values.
pub open spec fn claims_view(c: SessionClaims) -> (Option<Seq<char>>, Option<Seq<char>>, Option<u64>, Option<u64>) {
    (
        match c.0 {
            Some(a) => Some(a@),
            None => None,
        },
        match c.1 {
            Some(a) => Some(a@),
            None => None,
        },
        c.2,
        c.3,
    )
}

/// What `jsonwebtoken::decode` gives for a token with the key of the secret's
/// bytes, HS256, the audience `aud` and the expiry left unchecked: `None` when
/// the token is malformed, not signed by that key with HS256, of another
/// audience or without a numeric `exp`, otherwise the claims picked out as in
/// `claims_view`. Signature and audience checks do not read the clock, so the
/// outcome is a function of these values.
pub uninterp spec fn decoded_session_claims(
    token: Seq<char>,
    secret: Seq<char>,
    aud: Seq<char>,
) -> Option<(Option<Seq<char>>, Option<Seq<char>>, Option<u64>, Option<u64>)>;

/// `jsonwebtoken::decode` of a token signed with HS256 and the secret, for the
/// audience `aud`, with the crate's expiry check switched off (the library
/// checks the expiry itself, against a time it is given), and the claims
/// picked out. The contract names the outcome over the token, the secret and
/// the audience, and states what the crate's audience check shows: a textual
/// `aud` of an accepted token is `aud` itself.
#[verifier::external_body]
fn decode_session_claims(token: &str, secret: &str, aud: &str) -> (r: Result<SessionClaims, ()>)
    ensures
        r is Ok <==> decoded_session_claims(token@, secret@, aud@) is Some,
        r matches Ok(c) ==> decoded_session_claims(token@, secret@, aud@) == Some(claims_view(c)),
        r is Ok && r->Ok_0.0 is Some ==> r->Ok_0.0->Some_0@ == aud@,
{
    let mut validation = Validation::new(Algorithm::HS256);
    validation.set_audience(&[aud]);
    validation.validate_exp = false;
    let key = DecodingKey::from_secret(secret.as_bytes());
    let c = jsonwebtoken::decode::<Value>(token, &key, &validation).map_err(|_| ())?.claims;
    let text = |k: &str| c.get(k).and_then(Value::as_str).map(String::from);
    Ok((text("aud"), text("sub"), c.get("exp").and_then(Value::as_u64), c.get("iat").and_then(Value::as_u64)))
}

/// The seconds a token may be past its expiry and still be accepted.
pub const EXPIRY_LEEWAY: u64 = 60;

/// A token expiring at `exp` is expired at `now`: more than the leeway ago.
pub open spec fn is_expired(exp: u64, now: u64) -> bool {
    exp + EXPIRY_LEEWAY < now
}

/// The token data of decoded claims at time `now`: all four claims must be
/// there and the token not expired; otherwise the token is invalid.
pub open spec fn claims_data(
    c: Option<(Option<Seq<char>>, Option<Seq<char>>, Option<u64>, Option<u64>)>,
    now: u64,
) -> Option<(Seq<char>, Seq<char>, u64, u64)> {
    match c {
        Some((Some(aud), Some(sub), Some(exp), Some(iat))) => if is_expired(exp, now) {
            None
        } else {
            Some((aud, sub, exp, iat))
        },
        _ => None,
    }
}

/// The token data a token read with `secret` gives at time `now`.
pub open spec fn token_data(token: Seq<char>, secret: Seq<char>, now: u64) -> Option<(Seq<char>, Seq<char>, u64, u64)> {
    claims_data(decoded_session_claims(token, secret, AUDIENCE@), now)
}

/// The token data that decoded claims give at time `now`: all four claims must
/// be there and the token not expired, otherwise the token is invalid.
pub fn claims_to_data(claims: SessionClaims, now: u64) -> (r: Result<SessionJWTData, ModelError>)
    ensures
        r is Ok <==> claims_data(Some(claims_view(claims)), now) is Some,
        r matches Ok(d) ==> claims_data(Some(claims_view(claims)), now) == Some((d.aud@, d.sub@, d.exp, d.iat)),
        r matches Err(e) ==> e is Unauthorized && e.msg() == INVALID_TOKEN@,
{
    match claims {
        (Some(aud), Some(sub), Some(exp), Some(iat)) => {
            if now > EXPIRY_LEEWAY && exp < now - EXPIRY_LEEWAY {
                Err(invalid_token_error())
            } else {
                Ok(SessionJWTData { aud, sub, exp, iat })
            }
        },
        _ => Err(invalid_token_error()),
    }
}

/// Signs and reads session tokens with one secret.
pub struct JwtAdapter {
    pub secret: String,
    /// Lifetime of a token in seconds.
    pub exp_secs: u64,
}

impl JwtAdapter {
    /// An adapter signing with `secret`, its tokens living `exp_secs` seconds.
    pub fn new(secret: &str, exp_secs: u64) -> (r: Self)
        ensures
            r.secret@ == secret@,
            r.exp_secs == exp_secs,
    {
        JwtAdapter { secret: to_owned_string(secret), exp_secs }
    }

    /// The signed token of the data; an encoder failure is an unexpected error
    /// with the encoder's reason.
    pub fn generate_token(&self, data: &SessionJWTData) -> (r: Result<String, ModelError>)
        ensures
            match signed_session_token(data.aud@, data.sub@, data.exp, data.iat, self.secret@) {
                Ok(t) => (r matches Ok(s) && s@ == t),
                Err(m) => (r matches Err(e) && e is Unexpected
                    && e.msg() == "Failed to generate JWT token: "@ + m),
            },
    {
        match sign_session_claims(data.aud.as_str(), data.sub.as_str(), data.exp, data.iat, self.secret.as_str()) {
            Ok(t) => Ok(t),
            Err(m) => Err(token_generation_error(m.as_str())),
        }
    }

    /// The token data of a token signed with the secret, for the application
    /// and not expired at `now` (seconds since the epoch); any failure is the
    /// invalid-token error.
    pub fn decode_token(&self, token: &str, now: u64) -> (r: Result<SessionJWTData, ModelError>)
        ensures
            r is Ok <==> token_data(token@, self.secret@, now) is Some,
            r matches Ok(d) ==> token_data(token@, self.secret@, now) == Some((d.aud@, d.sub@, d.exp, d.iat)),
            r matches Ok(d) ==> d.aud@ == AUDIENCE@,
            r matches Err(e) ==> e is Unauthorized && e.msg() == INVALID_TOKEN@,
    {
        match decode_session_claims(token, self.secret.as_str(), AUDIENCE) {
            Ok(c) => claims_to_data(c, now),
            Err(_) => Err(invalid_token_error()),
        }
    }
}

/// Session tokens: made from sessions, read back as session data.
pub struct SessionJWTService {
    pub jwt_adapter: JwtAdapter,
}

impl SessionJWTService {
    /// A service over the adapter.
    pub fn new(jwt_adapter: JwtAdapter) -> (r: Self)
        ensures
            r.jwt_adapter == jwt_adapter,
    {
        Self { jwt_adapter }
    }

    /// The session's data and its token, issued at `now`: the token signs the
    /// claims of `SessionJWTData::new(session, now)`.
    pub fn generate_token(&self, session: Session, now: u64) -> (r: Result<(SessionData, String), ModelError>)
        ensures
            match signed_session_token(AUDIENCE@, session.address@, session.expires_at, now, self.jwt_adapter.secret@) {
                Ok(t) => (r matches Ok(p) && p.1@ == t && p.0.address == session.address
                    && p.0.sent_at == session.sent_at && p.0.expires_at == session.expires_at),
                Err(m) => (r matches Err(e) && e is Unexpected
                    && e.msg() == "Failed to generate JWT token: "@ + m),
            },
    {
        let data = SessionJWTData::new(&session, now);
        let token = self.jwt_adapter.generate_token(&data)?;
        Ok((SessionData::from_session(session), token))
    }

    /// The session data of a token at `now`: its subject, issue and expiry
    /// times; a token that does not decode, validate, carry all claims or is
    /// expired is the invalid-token error.
    pub fn get_session_data(&self, token: &str, now: u64) -> (r: Result<SessionData, ModelError>)
        ensures
            r is Ok <==> token_data(token@, self.jwt_adapter.secret@, now) is Some,
            r matches Ok(d) ==> token_data(token@, self.jwt_adapter.secret@, now) == Some(
                (AUDIENCE@, d.address@, d.expires_at, d.sent_at),
            ),
            r matches Err(e) ==> e is Unauthorized && e.msg() == INVALID_TOKEN@,
    {
        let data = self.jwt_adapter.decode_token(token, now)?;
        Ok(SessionData::from_jwt_data(data))
    }

    /// The optional session data of a token at `now`: none for an empty token
    /// and for a token that is not valid or expired, otherwise its session data.
    pub fn get_optional_session_data(&self, token: &str, now: u64) -> (r: Result<Option<SessionData>, ModelError>)
        ensures
            r matches Ok(o) && (token@.len() == 0 ==> o is None)
                && (token@.len() > 0 ==> (o is Some <==> token_data(token@, self.jwt_adapter.secret@, now) is Some)),
            r matches Ok(Some(d)) ==> token_data(token@, self.jwt_adapter.secret@, now) == Some(
                (AUDIENCE@, d.address@, d.expires_at, d.sent_at),
            ),
    {
        if token.unicode_len() == 0 {
            return Ok(None);
        }
        match self.get_session_data(token, now) {
            Ok(data) => Ok(Some(data)),
            Err(_) => Ok(None),
        }
    }
}

} // verus!
