//! Sessions: a code is sent to an address, and the address confirms it to
//! receive a token. This module holds the session forms, their conversions,
//! and what a sign-in stores and sends; sending and storing are the caller's
//! part, as is reading the clock (handed in as `now`).
use vstd::prelude::*;
use vstd::string::StringExecFns;
use vstd::string::StrSliceExecFns;
use crate::common::item_fields::{FieldError, ValidationErrors};
use crate::db::sql::{push_decimal, decimal};
use crate::session::session_jwt::SessionJWTData;
use crate::session::session_store::{ConfirmSessionDb, InitSessionDb, SessionDb};
use crate::strings::{to_owned_string};

verus! {

/// A confirmed session.
#[derive(Debug)]
pub struct Session {
    pub id: i64,
    pub address: String,
    pub sent_at: u64,
    pub expires_at: u64,
}

/// A request to start a session for an address.
#[derive(Debug)]
pub struct InitSession {
    pub address: String,
}

/// A request to confirm a session with the code the address received.
#[derive(Debug)]
pub struct ConfirmSession {
    pub address: String,
    pub code: String,
}

/// What a session token says: the address and the times.
#[derive(Debug)]
pub struct SessionData {
    pub address: String,
    pub sent_at: u64,
    pub expires_at: u64,
}

impl InitSession {
    /// Checks the address: at least one character.
    pub fn validate(&self) -> (r: Result<(), ValidationErrors>)
        ensures
            r is Ok <==> self.address@.len() >= 1,
            r matches Err(e) ==> e.errors@.len() == 1 && e.errors@[0].field@ == "address"@
                && e.errors@[0].code@ == "length"@,
    {
        if self.address.as_str().unicode_len() < 1 {
            let mut errors: Vec<FieldError> = Vec::new();
            errors.push(FieldError { field: "address", code: "length" });
            Err(ValidationErrors { errors })
        } else {
            Ok(())
        }
    }
}

impl SessionData {
    /// The session data a token carries: its subject and times.
    pub fn from_jwt_data(item: SessionJWTData) -> (r: SessionData)
        ensures
            r.address == item.sub,
            r.sent_at == item.iat,
            r.expires_at == item.exp,
    {
        SessionData { address: item.sub, sent_at: item.iat, expires_at: item.exp }
    }

    /// The data of a session.
    pub fn from_session(item: Session) -> (r: SessionData)
        ensures
            r.address == item.address,
            r.sent_at == item.sent_at,
            r.expires_at == item.expires_at,
    {
        SessionData { address: item.address, sent_at: item.sent_at, expires_at: item.expires_at }
    }
}

impl<'a> ConfirmSessionDb<'a> {
    /// The confirmation to look up: the same address and code.
    pub fn from(item: &'a ConfirmSession) -> (r: ConfirmSessionDb<'a>)
        ensures
            r.address@ == item.address@,
            r.code@ == item.code@,
    {
        ConfirmSessionDb { address: item.address.as_str(), code: item.code.as_str() }
    }
}

/// A stored time as an unsigned one: negative times read as 0.
pub open spec fn unsigned_time(t: i64) -> u64 {
    if t < 0 {
        0
    } else {
        t as u64
    }
}

impl Session {
    /// The session of a stored row; negative times read as 0.
    pub fn from(item: SessionDb) -> (r: Session)
        ensures
            r.id == item.id,
            r.address == item.address,
            r.sent_at == unsigned_time(item.sent_at),
            r.expires_at == unsigned_time(item.expires_at),
    {
        let sent_at: u64 = if item.sent_at < 0 {
            0
        } else {
            item.sent_at as u64
        };
        let expires_at: u64 = if item.expires_at < 0 {
            0
        } else {
            item.expires_at as u64
        };
        Session { id: item.id, address: item.address, sent_at, expires_at }
    }
}

/// The code sent to an address to start a session.
pub const SESSION_CODE: &'static str = "some_code";

/// A clock reading as a stored time: 0 when it does not fit.
pub open spec fn stored_time(now: u64) -> i64 {
    if now <= i64::MAX {
        now as i64
    } else {
        0
    }
}

/// The message that carries the code to the address.
pub open spec fn code_message(address: Seq<char>, code: Seq<char>) -> Seq<char> {
    "Code to initialize session for "@ + address + " is "@ + code
}

/// What a sign-in sends and stores.
pub struct Signin<'a> {
    /// The message sent to the address.
    pub message: String,
    /// The session row to store.
    pub init: InitSessionDb<'a>,
}

/// The sign-in of an address at time `now` (seconds since the epoch) with
/// tokens valid for `exp_secs` seconds: the code is sent to the address, and
/// the session is stored with its send time and its expiry.
pub fn signin_session<'a>(item: &'a InitSession, now: u64, exp_secs: u64) -> (r: Signin<'a>)
    requires
        i64::MIN <= stored_time(now) + (exp_secs as i64) <= i64::MAX,
    ensures
        r.message@ == code_message(item.address@, SESSION_CODE@),
        r.init.address@ == item.address@,
        r.init.code@ == SESSION_CODE@,
        r.init.sent_at == stored_time(now),
        r.init.expires_at == stored_time(now) + (exp_secs as i64),
        exp_secs <= i64::MAX ==> r.init.expires_at == stored_time(now) + exp_secs,
{
    assert(exp_secs <= 0x7fff_ffff_ffff_ffffu64 ==> (exp_secs as i64) == exp_secs) by (bit_vector);
    let sent_at: i64 = if now <= i64::MAX as u64 {
        now as i64
    } else {
        0
    };
    let expires_at = sent_at + (exp_secs as i64);
    let mut message = to_owned_string("Code to initialize session for ");
    message.append(item.address.as_str());
    message.append(" is ");
    message.append(SESSION_CODE);
    assert(message@ =~= code_message(item.address@, SESSION_CODE@));
    Signin {
        message,
        init: InitSessionDb { address: item.address.as_str(), code: SESSION_CODE, sent_at, expires_at },
    }
}

/// The cookie that carries a session token for as long as the session lasts.
pub open spec fn session_cookie_text(token: Seq<char>, max_age: nat) -> Seq<char> {
    "Authorization=Bearer "@ + token + "; HttpOnly; SameSite=Strict; Path=/; Max-Age="@ + decimal(
        max_age,
    )
}

/// The `Set-Cookie` value of a confirmed session: the token, kept for the
/// session's lifetime.
pub fn session_cookie(token: &str, data: &SessionData) -> (r: String)
    requires
        data.sent_at <= data.expires_at,
    ensures
        r@ == session_cookie_text(token@, (data.expires_at - data.sent_at) as nat),
{
    let max_age = data.expires_at - data.sent_at;
    let mut r = to_owned_string("Authorization=Bearer ");
    r.append(token);
    r.append("; HttpOnly; SameSite=Strict; Path=/; Max-Age=");
    push_decimal(&mut r, max_age);
    assert(r@ =~= session_cookie_text(token@, (data.expires_at - data.sent_at) as nat));
    r
}

/// The `Set-Cookie` value that clears the session cookie.
pub const SIGNOUT_COOKIE: &'static str = "Authorization=; HttpOnly; SameSite=Strict; Path=/; Max-Age=0";

/// A session stored at sign-in lives as long as a token: read back from its
/// row, its expiry minus its send time is the token lifetime, which is the
/// cookie's `Max-Age`.
pub proof fn law_session_lasts_token_lifetime(now: u64, exp_secs: u64)
    requires
        exp_secs <= i64::MAX,
        stored_time(now) + (exp_secs as i64) <= i64::MAX,
    ensures
        ({
            let sent = unsigned_time(stored_time(now));
            let expires = unsigned_time((stored_time(now) + exp_secs) as i64);
            sent <= expires && expires - sent == exp_secs
        }),
{
}

} // verus!
