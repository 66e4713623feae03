//! The rules of the account store: who may log in, which tokens are valid,
//! what a setup link does, and how tokens are issued and looked up.
use crate::arith::{clamp_i64, sat_add, sat_mul_small};
use crate::clock::now_ms;
use crate::crypto::{
    argon2_verdict, hex_digit, hex_lower, lemma_hex_len, new_uuid, random_token_hex, sha256_digest,
    sha256_hex, verify_password,
};
use crate::db::error::DbError;
use crate::db::util::{looks_like_email, spec_looks_like_email};
use crate::text::{is_trim_empty, is_ws, lemma_trim_noop, str_eq, trim, trim_str};
use vstd::prelude::*;
use vstd::string::StringSliceAdditionalSpecFns;
use vstd::utf8::encode_utf8;

verus! {

pub const MAGIC_TOKEN_DEFAULT_TTL_SECS: i64 = 3600;

pub const SESSION_DEFAULT_TTL_SECS: i64 = 30 * 24 * 3600;

#[derive(Debug)]
pub struct UserRecord {
    pub id: String,
    pub email: String,
    pub status: String,
    pub created_at: i64,
}

impl Clone for UserRecord {
    fn clone(&self) -> (r: Self)
        ensures
            r == *self,
    {
        UserRecord {
            id: self.id.clone(),
            email: self.email.clone(),
            status: self.status.clone(),
            created_at: self.created_at,
        }
    }
}

/// A freshly issued secret: the raw token handed to the user, the digest
/// stored in its place, and its lifetime.
#[derive(Debug)]
pub struct TokenGrant {
    pub id: String,
    pub raw: String,
    pub token_hash: String,
    pub created_at: i64,
    pub expires_at: i64,
}

/// What is stored for a raw token: the hex SHA-256 of its trimmed UTF-8 bytes.
pub open spec fn token_digest(raw: Seq<char>) -> Seq<char> {
    hex_lower(sha256_digest(encode_utf8(trim(raw))))
}

/// The digest a raw token is looked up by; `None` for a blank token.
pub fn token_hash_of(raw_token: &str) -> (r: Option<String>)
    ensures
        match r {
            Some(h) => trim(raw_token@).len() > 0 && h@ == token_digest(raw_token@),
            None => trim(raw_token@).len() == 0,
        },
{
    let t = trim_str(raw_token);
    if t.unicode_len() == 0 {
        return None;
    }
    Some(sha256_hex(t.as_str().as_bytes()))
}

/// When a token issued at `now` for `ttl_seconds` (or `default_ttl` when that
/// is not positive) expires, in milliseconds, saturating.
pub open spec fn spec_expiry(now: i64, ttl_seconds: i64, default_ttl: i64) -> int {
    let ttl = if ttl_seconds <= 0 {
        default_ttl
    } else {
        ttl_seconds
    };
    clamp_i64(now + clamp_i64(ttl * 1000))
}

pub fn token_expiry(now: i64, ttl_seconds: i64, default_ttl: i64) -> (e: i64)
    ensures
        e == spec_expiry(now, ttl_seconds, default_ttl),
{
    let ttl = if ttl_seconds <= 0 {
        default_ttl
    } else {
        ttl_seconds
    };
    sat_add(now, sat_mul_small(ttl, 1000))
}

proof fn lemma_hex_no_ws(b: Seq<u8>)
    requires
        b.len() > 0,
    ensures
        hex_lower(b).len() == 2 * b.len(),
        !is_ws(hex_lower(b)[0]),
        !is_ws(hex_lower(b).last()),
    decreases b.len(),
{
    lemma_hex_len(b);
    let d = b.last() % 16;
    assert(!is_ws(hex_digit(d as nat)));
    if b.len() > 1 {
        lemma_hex_no_ws(b.drop_last());
        assert(hex_lower(b)[0] == hex_lower(b.drop_last())[0]);
    } else {
        assert(b.drop_last().len() == 0);
        assert(hex_lower(b.drop_last()).len() == 0);
        assert(!is_ws(hex_digit((b.last() / 16) as nat)));
    }
}

/// A new token of 32 random bytes, its digest, and its expiry.
fn issue_token(ttl_seconds: i64, default_ttl: i64) -> (r: Result<TokenGrant, DbError>)
    ensures
        match r {
            Ok(g) => g.token_hash@ == token_digest(g.raw@) && trim(g.raw@) == g.raw@
                && g.raw@.len() == 64 && g.expires_at == spec_expiry(
                g.created_at,
                ttl_seconds,
                default_ttl,
            ),
            Err(e) => e matches DbError::Io(_),
        },
{
    let raw = match random_token_hex(32) {
        Some(r) => r,
        None => {
            return Err(DbError::Io(String::from_str("random source unavailable")));
        },
    };
    proof {
        let b = choose|b: Seq<u8>| b.len() == 32 && raw@ == hex_lower(b);
        lemma_hex_no_ws(b);
        lemma_trim_noop(raw@);
    }
    let token_hash = sha256_hex(raw.as_str().as_bytes());
    let now = match now_ms() {
        Some(t) => t,
        None => {
            return Err(DbError::Io(String::from_str("system clock before the Unix epoch")));
        },
    };
    let exp = token_expiry(now, ttl_seconds, default_ttl);
    let id = match new_uuid() {
        Some(id) => id,
        None => {
            return Err(DbError::Io(String::from_str("random source unavailable")));
        },
    };
    Ok(TokenGrant { id, raw, token_hash, created_at: now, expires_at: exp })
}

/// A token handed out is found again by its digest.
pub proof fn law_issued_token_found(raw: Seq<char>, stored: Seq<char>)
    requires
        stored == token_digest(raw),
        trim(raw) == raw,
    ensures
        token_digest(raw) == stored,
        token_digest(trim(raw)) == stored,
{
}

/// A setup link to insert: the trimmed address it is for, and the token.
#[derive(Debug)]
pub struct MagicTokenPlan {
    pub email: String,
    pub grant: TokenGrant,
}

/// A setup link for `email`, valid `ttl_seconds` (an hour when not positive).
/// `existing_status` is the status of the account with that address, if any.
/// Implausible addresses give `InvalidEmail`; disabled accounts get no link.
pub fn plan_magic_token(email: &str, ttl_seconds: i64, existing_status: Option<&str>) -> (r: Result<
    MagicTokenPlan,
    DbError,
>)
    ensures
        !spec_looks_like_email(trim(email@)) ==> r == Err::<MagicTokenPlan, DbError>(
            DbError::InvalidEmail,
        ),
        spec_looks_like_email(trim(email@)) && (existing_status matches Some(s) && s@
            == "disabled"@) ==> r == Err::<MagicTokenPlan, DbError>(DbError::Unauthorized),
        r matches Ok(p) ==> spec_looks_like_email(trim(email@)) && !(existing_status matches Some(
            s,
        ) && s@ == "disabled"@) && p.email@ == trim(email@) && p.grant.token_hash@
            == token_digest(p.grant.raw@) && trim(p.grant.raw@) == p.grant.raw@
            && p.grant.expires_at == spec_expiry(
            p.grant.created_at,
            ttl_seconds,
            MAGIC_TOKEN_DEFAULT_TTL_SECS,
        ),
        r matches Err(e) ==> e == DbError::InvalidEmail || e == DbError::Unauthorized || e is Io,
        r matches Err(DbError::InvalidEmail) ==> !spec_looks_like_email(trim(email@)),
        r matches Err(DbError::Unauthorized) ==> spec_looks_like_email(trim(email@)) && (
        existing_status matches Some(s) && s@ == "disabled"@),
        r matches Err(DbError::Io(_)) ==> spec_looks_like_email(trim(email@)) && !(
        existing_status matches Some(s) && s@ == "disabled"@),
{
    let e = trim_str(email);
    if !looks_like_email(e.as_str()) {
        return Err(DbError::InvalidEmail);
    }
    match existing_status {
        Some(s) => {
            if str_eq(s, "disabled") {
                return Err(DbError::Unauthorized);
            }
        },
        None => {},
    }
    let grant = match issue_token(ttl_seconds, MAGIC_TOKEN_DEFAULT_TTL_SECS) {
        Ok(g) => g,
        Err(err) => {
            return Err(err);
        },
    };
    Ok(MagicTokenPlan { email: e, grant })
}

/// A session token for `user_id`, valid `ttl_seconds` (thirty days when not
/// positive); a blank user id is `Unauthorized`.
pub fn plan_session_token(user_id: &str, ttl_seconds: i64) -> (r: Result<(String, TokenGrant), DbError>)
    ensures
        trim(user_id@).len() == 0 ==> r == Err::<(String, TokenGrant), DbError>(
            DbError::Unauthorized,
        ),
        r matches Ok((uid, g)) ==> trim(user_id@).len() > 0 && uid@ == trim(user_id@)
            && g.token_hash@ == token_digest(g.raw@) && trim(g.raw@) == g.raw@ && g.raw@.len() == 64
            && g.expires_at == spec_expiry(g.created_at, ttl_seconds, SESSION_DEFAULT_TTL_SECS),
        r matches Err(e) ==> e == DbError::Unauthorized || e is Io,
        r matches Err(DbError::Unauthorized) ==> trim(user_id@).len() == 0,
        r matches Err(DbError::Io(_)) ==> trim(user_id@).len() > 0,
{
    let uid = trim_str(user_id);
    if uid.unicode_len() == 0 {
        return Err(DbError::Unauthorized);
    }
    match issue_token(ttl_seconds, SESSION_DEFAULT_TTL_SECS) {
        Ok(g) => Ok((uid, g)),
        Err(e) => Err(e),
    }
}

/// A setup link is usable when it has not been used and has not expired.
pub open spec fn token_usable(expires_at: i64, used_at: Option<i64>, now: i64) -> bool {
    used_at is None && expires_at > now
}

/// The stored row of a setup link.
#[derive(Debug)]
pub struct MagicTokenRow {
    pub id: String,
    pub email: String,
    pub expires_at: i64,
    pub used_at: Option<i64>,
}

/// The address a setup link was issued for, if the link is still usable.
pub fn peek_magic_token_email(row: Option<MagicTokenRow>, now: i64) -> (r: Result<String, DbError>)
    ensures
        match row {
            Some(t) => if token_usable(t.expires_at, t.used_at, now) {
                r == Ok::<String, DbError>(t.email)
            } else {
                r == Err::<String, DbError>(DbError::TokenInvalid)
            },
            None => r == Err::<String, DbError>(DbError::TokenInvalid),
        },
{
    match row {
        Some(t) => {
            if t.used_at.is_some() || t.expires_at <= now {
                Err(DbError::TokenInvalid)
            } else {
                Ok(t.email)
            }
        },
        None => Err(DbError::TokenInvalid),
    }
}

/// What consuming a setup link does to the accounts.
#[derive(Debug)]
pub enum AccountChange {
    /// Set the password of this existing account and make it active.
    UpdateExisting(String),
    /// Create an active account with this new id.
    CreateNew(String),
}

/// The effect of consuming a usable setup link: the link (by id) is marked
/// used at `used_at`, and the account change is applied.
#[derive(Debug)]
pub struct ConsumePlan {
    pub token_id: String,
    pub email: String,
    pub change: AccountChange,
    pub used_at: i64,
}

/// Whether a setup link is accepted at `now`: it is usable, and the account
/// it is for is not disabled, or there is none and one may be created.
pub open spec fn setup_link_accepted(
    token: Option<MagicTokenRow>,
    account: Option<AccountRow>,
    allow_create_user: bool,
    now: i64,
) -> bool {
    token matches Some(t) && token_usable(t.expires_at, t.used_at, now) && match account {
        Some(a) => a.status@ != "disabled"@,
        None => allow_create_user,
    }
}

/// The link row once it is marked used at `at`.
pub open spec fn consumed_row(t: MagicTokenRow, at: i64) -> MagicTokenRow {
    MagicTokenRow { id: t.id, email: t.email, expires_at: t.expires_at, used_at: Some(at) }
}

/// An account to insert: its id, trimmed address, status, and whether it
/// becomes an administrator.
#[derive(Debug)]
pub struct NewUser {
    pub id: String,
    pub email: String,
    pub status: String,
    pub is_admin: bool,
    pub created_at: i64,
}

/// The status a new account gets: the given one trimmed, `pending` when blank.
pub open spec fn new_user_status(status: Seq<char>) -> Seq<char> {
    if trim(status).len() == 0 {
        "pending"@
    } else {
        trim(status)
    }
}

/// A new account for `email` with `status`, where `active_admins` active
/// administrators exist: implausible addresses give `InvalidEmail`; an
/// active account becomes the administrator when there is none; the id is a
/// fresh UUID and the time is now, so an unusable random source or clock is
/// an `Io` error.
pub fn plan_new_user(email: &str, status: &str, active_admins: u64) -> (r: Result<NewUser, DbError>)
    ensures
        match r {
            Ok(u) => spec_looks_like_email(email@) && u.email@ == trim(email@) && u.status@
                == new_user_status(status@) && u.is_admin == (u.status@ == "active"@ && active_admins
                == 0) && u.id@.len() == 36 && (exists|b: Seq<u8>|
                b.len() == 16 && u.id@ == crate::crypto::uuid_v4_text(b)),
            Err(e) => (!spec_looks_like_email(email@) && e == DbError::InvalidEmail) || (
            spec_looks_like_email(email@) && e is Io),
        },
{
    if !looks_like_email(email) {
        return Err(DbError::InvalidEmail);
    }
    let st = if is_trim_empty(status) {
        proof {
            reveal_strlit("pending");
        }
        String::from_str("pending")
    } else {
        trim_str(status)
    };
    let is_admin = str_eq(st.as_str(), "active") && active_admins == 0;
    let id = match new_uuid() {
        Some(id) => id,
        None => {
            return Err(DbError::Io(String::from_str("random source unavailable")));
        },
    };
    let created_at = match now_ms() {
        Some(t) => t,
        None => {
            return Err(DbError::Io(String::from_str("system clock before the Unix epoch")));
        },
    };
    Ok(NewUser { id, email: trim_str(email), status: st, is_admin, created_at })
}

/// The status row of the account a setup link is for.
#[derive(Debug)]
pub struct AccountRow {
    pub id: String,
    pub status: String,
}

/// Consuming a setup link: the link must be usable; an existing account must
/// not be disabled and gets the new password; without an account, one is
/// created only when `allow_create_user` holds.  Every refusal is `TokenInvalid`.
pub fn consume_magic_token_set_password(
    token: Option<MagicTokenRow>,
    account: Option<AccountRow>,
    allow_create_user: bool,
    now: i64,
) -> (r: Result<ConsumePlan, DbError>)
    ensures
        match r {
            Ok(p) => {
                &&& setup_link_accepted(token, account, allow_create_user, now)
                &&& p.used_at == now
                &&& token matches Some(t) && p.token_id == t.id && p.email == t.email
                &&& match account {
                    Some(a) => p.change == AccountChange::UpdateExisting(a.id),
                    None => match p.change {
                        AccountChange::CreateNew(id) => id@.len() == 36 && exists|b: Seq<u8>|
                            b.len() == 16 && id@ == crate::crypto::uuid_v4_text(b),
                        _ => false,
                    },
                }
            },
            Err(e) => {
                ||| e == DbError::TokenInvalid && !setup_link_accepted(token, account, allow_create_user, now)
                ||| e is Io && account is None && setup_link_accepted(token, account, allow_create_user, now)
            },
        },
{
    let t = match token {
        Some(t) => t,
        None => {
            return Err(DbError::TokenInvalid);
        },
    };
    if t.used_at.is_some() || t.expires_at <= now {
        return Err(DbError::TokenInvalid);
    }
    let change = match account {
        Some(a) => {
            if str_eq(a.status.as_str(), "disabled") {
                return Err(DbError::TokenInvalid);
            }
            AccountChange::UpdateExisting(a.id)
        },
        None => {
            if !allow_create_user {
                return Err(DbError::TokenInvalid);
            }
            match new_uuid() {
                Some(id) => AccountChange::CreateNew(id),
                None => {
                    return Err(DbError::Io(String::from_str("random source unavailable")));
                },
            }
        },
    };
    Ok(ConsumePlan { token_id: t.id, email: t.email, change, used_at: now })
}

/// The stored row a password login is checked against.
#[derive(Debug)]
pub struct LoginRow {
    pub id: String,
    pub email: String,
    pub status: String,
    pub created_at: i64,
    pub password_hash: String,
}

/// A login succeeds for an active account with a password set that matches.
pub open spec fn login_ok(email: Seq<char>, row: Option<LoginRow>, password: Seq<u8>) -> bool {
    &&& trim(email).len() > 0
    &&& row matches Some(u)
    &&& u.status@ == "active"@
    &&& trim(u.password_hash@).len() > 0
    &&& argon2_verdict(password, u.password_hash@) == Some(true)
}

/// Password login for `email`, given the account row with that address.
pub fn verify_login(email: &str, row: Option<LoginRow>, password: &str) -> (r: Result<
    UserRecord,
    DbError,
>)
    ensures
        match r {
            Ok(u) => login_ok(email@, row, password.spec_bytes()) && (row matches Some(x) && u.id
                == x.id && u.email == x.email && u.status == x.status && u.created_at
                == x.created_at),
            Err(e) => e == DbError::Unauthorized && !login_ok(email@, row, password.spec_bytes()),
        },
{
    if is_trim_empty(email) {
        return Err(DbError::Unauthorized);
    }
    let u = match row {
        Some(u) => u,
        None => {
            return Err(DbError::Unauthorized);
        },
    };
    if !str_eq(u.status.as_str(), "active") {
        return Err(DbError::Unauthorized);
    }
    if is_trim_empty(u.password_hash.as_str()) {
        return Err(DbError::Unauthorized);
    }
    if !verify_password(password, u.password_hash.as_str()) {
        return Err(DbError::Unauthorized);
    }
    Ok(UserRecord { id: u.id, email: u.email, status: u.status, created_at: u.created_at })
}

/// A session row found by token digest, with the account it belongs to.
#[derive(Debug)]
pub struct SessionUser {
    pub user: UserRecord,
    pub expires_at: Option<i64>,
    pub revoked_at: Option<i64>,
}

/// A session is live when it is not revoked and has not expired.
pub open spec fn session_live(expires_at: Option<i64>, revoked_at: Option<i64>, now: i64) -> bool {
    revoked_at is None && (expires_at matches Some(e) ==> e > now)
}

/// Who a session token signs in at `now`: the account of a live session when
/// that account is active; `Unauthorized` for an unknown token, a revoked or
/// expired session, or an account that is not active.
pub open spec fn session_auth_of(found: Option<SessionUser>, now: i64) -> Result<UserRecord, DbError> {
    match found {
        Some(s) => if session_live(s.expires_at, s.revoked_at, now) && s.user.status@ == "active"@ {
            Ok(s.user)
        } else {
            Err(DbError::Unauthorized)
        },
        None => Err(DbError::Unauthorized),
    }
}

/// The user a session token signs in, from the session row its digest found.
pub fn auth_user_from_token(found: Option<SessionUser>, now: i64) -> (r: Result<UserRecord, DbError>)
    ensures
        r == session_auth_of(found, now),
{
    match found {
        Some(s) => {
            if session_is_live(s.expires_at, s.revoked_at, now) && str_eq(s.user.status.as_str(), "active") {
                Ok(s.user)
            } else {
                Err(DbError::Unauthorized)
            }
        },
        None => Err(DbError::Unauthorized),
    }
}

pub fn session_is_live(expires_at: Option<i64>, revoked_at: Option<i64>, now: i64) -> (b: bool)
    ensures
        b == session_live(expires_at, revoked_at, now),
{
    if revoked_at.is_some() {
        return false;
    }
    match expires_at {
        Some(e) => e > now,
        None => true,
    }
}

/// The statuses an account can have.
pub open spec fn is_status_name(s: Seq<char>) -> bool {
    s == "active"@ || s == "disabled"@ || s == "pending"@
}

/// A status change request: a blank user id is `Unauthorized`, an unknown
/// status `InvalidStatus`; both are trimmed.
pub fn set_user_status(user_id: &str, status: &str) -> (r: Result<(String, String), DbError>)
    ensures
        trim(user_id@).len() == 0 ==> r == Err::<(String, String), DbError>(DbError::Unauthorized),
        trim(user_id@).len() > 0 && !is_status_name(trim(status@)) ==> r == Err::<
            (String, String),
            DbError,
        >(DbError::InvalidStatus),
        trim(user_id@).len() > 0 && is_status_name(trim(status@)) ==> (r matches Ok((u, s)) && u@
            == trim(user_id@) && s@ == trim(status@)),
{
    let uid = trim_str(user_id);
    if uid.unicode_len() == 0 {
        return Err(DbError::Unauthorized);
    }
    let st = trim_str(status);
    if !(str_eq(st.as_str(), "active") || str_eq(st.as_str(), "disabled") || str_eq(
        st.as_str(),
        "pending",
    )) {
        return Err(DbError::InvalidStatus);
    }
    Ok((uid, st))
}

/// An account is an administrator when it is active and flagged as such.
pub fn is_admin_user(status: &str, is_admin: i64) -> (b: bool)
    ensures
        b == (status@ == "active"@ && is_admin == 1),
{
    str_eq(status, "active") && is_admin == 1
}

/// The message counters from the stats rows: the last value under each key,
/// negative values read as zero.
pub fn get_message_counts(rows: &Vec<(String, i64)>) -> (r: (u64, u64))
    ensures
        r.0 <= i64::MAX,
        r.1 <= i64::MAX,
        (forall|i: int| 0 <= i < rows@.len() ==> rows@[i].0@ != "user_messages"@) ==> r.0 == 0,
        (forall|i: int| 0 <= i < rows@.len() ==> rows@[i].0@ != "saelora_messages"@) ==> r.1 == 0,
        forall|i: int|
            0 <= i < rows@.len() && rows@[i].0@ == "user_messages"@ && (forall|j: int|
                i < j < rows@.len() ==> rows@[j].0@ != "user_messages"@) ==> r.0 == if rows@[i].1
                < 0 {
                0
            } else {
                rows@[i].1
            },
        forall|i: int|
            0 <= i < rows@.len() && rows@[i].0@ == "saelora_messages"@ && (forall|j: int|
                i < j < rows@.len() ==> rows@[j].0@ != "saelora_messages"@) ==> r.1 == if rows@[i].1
                < 0 {
                0
            } else {
                rows@[i].1
            },
{
    let mut user: i64 = 0;
    let mut saelora: i64 = 0;
    let ghost mut last_u: int = -1;
    let ghost mut last_s: int = -1;
    let mut i: usize = 0;
    while i < rows.len()
        invariant
            i <= rows@.len(),
            -1 <= last_u < i,
            -1 <= last_s < i,
            last_u == -1 ==> user == 0 && forall|j: int| 0 <= j < i ==> rows@[j].0@ != "user_messages"@,
            last_u >= 0 ==> rows@[last_u].0@ == "user_messages"@ && user == rows@[last_u].1 && forall|
                j: int,
            | last_u < j < i ==> rows@[j].0@ != "user_messages"@,
            last_s == -1 ==> saelora == 0 && forall|j: int|
                0 <= j < i ==> rows@[j].0@ != "saelora_messages"@,
            last_s >= 0 ==> rows@[last_s].0@ == "saelora_messages"@ && saelora == rows@[last_s].1
                && forall|j: int| last_s < j < i ==> rows@[j].0@ != "saelora_messages"@,
        decreases rows@.len() - i,
    {
        if str_eq(rows[i].0.as_str(), "user_messages") {
            user = rows[i].1;
            proof {
                last_u = i as int;
                reveal_strlit("user_messages");
                reveal_strlit("saelora_messages");
                assert("user_messages"@[0] != "saelora_messages"@[0]);
            }
        } else if str_eq(rows[i].0.as_str(), "saelora_messages") {
            saelora = rows[i].1;
            proof {
                last_s = i as int;
            }
        }
        i = i + 1;
    }
    let u: u64 = if user < 0 {
        0
    } else {
        user as u64
    };
    let s: u64 = if saelora < 0 {
        0
    } else {
        saelora as u64
    };
    proof {
        assert forall|k: int|
            0 <= k < rows@.len() && rows@[k].0@ == "user_messages"@ && (forall|j: int|
                k < j < rows@.len() ==> rows@[j].0@ != "user_messages"@) implies u == (if rows@[k].1
            < 0 {
            0
        } else {
            rows@[k].1
        }) by {
            if last_u != k {
                if last_u < k {
                } else {
                    assert(rows@[last_u].0@ != "user_messages"@);
                }
            }
        }
        assert forall|k: int|
            0 <= k < rows@.len() && rows@[k].0@ == "saelora_messages"@ && (forall|j: int|
                k < j < rows@.len() ==> rows@[j].0@ != "saelora_messages"@) implies s == (if rows@[k].1
            < 0 {
            0
        } else {
            rows@[k].1
        }) by {
            if last_s != k {
                if last_s < k {
                } else {
                    assert(rows@[last_s].0@ != "saelora_messages"@);
                }
            }
        }
    }
    (u, s)
}


/// Whether an account row (id, status, creation time) is active.
pub open spec fn row_active(row: (String, String, i64)) -> bool {
    row.1@ == "active"@
}

/// Row `k` of the first `n` rows is the oldest active one: active, created no
/// later than any other active row, and first among those created at the same time.
pub open spec fn oldest_active_in(rows: Seq<(String, String, i64)>, n: int, k: int) -> bool {
    &&& 0 <= k < n <= rows.len()
    &&& row_active(rows[k])
    &&& forall|j: int|
        0 <= j < n && row_active(#[trigger] rows[j]) ==> rows[k].2 < rows[j].2 || (rows[k].2
            == rows[j].2 && k <= j)
}

/// Which account is made admin when the store opens: none while an active
/// admin exists; otherwise the oldest active account of `rows` (given in the
/// order they were stored), and none when no account is active.
pub fn admin_to_promote(active_admins: i64, rows: &Vec<(String, String, i64)>) -> (r: Option<usize>)
    ensures
        active_admins != 0 ==> r is None,
        active_admins == 0 ==> match r {
            Some(k) => oldest_active_in(rows@, rows@.len() as int, k as int),
            None => forall|j: int| 0 <= j < rows@.len() ==> !row_active(#[trigger] rows@[j]),
        },
{
    if active_admins != 0 {
        return None;
    }
    let mut best: Option<usize> = None;
    let mut i: usize = 0;
    while i < rows.len()
        invariant
            i <= rows@.len(),
            match best {
                Some(k) => oldest_active_in(rows@, i as int, k as int),
                None => forall|j: int| 0 <= j < i ==> !row_active(#[trigger] rows@[j]),
            },
        decreases rows@.len() - i,
    {
        if str_eq(rows[i].1.as_str(), "active") {
            match best {
                None => {
                    best = Some(i);
                },
                Some(k) => {
                    if rows[i].2 < rows[k].2 {
                        best = Some(i);
                    }
                },
            }
        }
        i = i + 1;
    }
    best
}

/// A setup link works at most once: once it is marked used (as consuming it
/// does, by its id), it is no longer usable, so consuming or peeking at it
/// again gives `TokenInvalid`.
pub proof fn law_used_token_refused(expires_at: i64, used_at: i64, now: i64)
    ensures
        !token_usable(expires_at, Some(used_at), now),
{
}

/// A session is live until it is revoked or expires: a revoked session (as
/// logging out leaves it) is never live again, nor one past its expiry, and
/// an unrevoked one before its expiry is.
pub proof fn law_session_liveness(expires_at: i64, revoked_at: i64, now: i64)
    ensures
        !session_live(Some(expires_at), Some(revoked_at), now),
        expires_at <= now ==> !session_live(Some(expires_at), None, now),
        expires_at > now ==> session_live(Some(expires_at), None, now),
{
}

/// The grant `g` is what `plan_session_token` gives for `ttl_seconds`.
pub open spec fn session_grant(g: TokenGrant, ttl_seconds: i64) -> bool {
    &&& g.token_hash@ == token_digest(g.raw@)
    &&& trim(g.raw@) == g.raw@
    &&& g.raw@.len() == 64
    &&& g.expires_at == spec_expiry(g.created_at, ttl_seconds, SESSION_DEFAULT_TTL_SECS)
}

/// The session row stored for a grant, as the lookup finds it with its account.
pub open spec fn granted_session(g: TokenGrant, user: UserRecord, revoked_at: Option<i64>) -> SessionUser {
    SessionUser { user, expires_at: Some(g.expires_at), revoked_at }
}

/// The life of a session token across its calls.  The token handed out is
/// stored under the digest that signing in with it and revoking it both
/// compute (`token_hash_of`), so both reach that session; it signs its account
/// in exactly while the account is active, the session is not revoked and the
/// time is before `created_at + ttl` (thirty days for a ttl that is not
/// positive); once revoked, never again; a token that finds no session signs
/// nobody in.
pub proof fn law_session_life(
    g: TokenGrant,
    ttl_seconds: i64,
    user: UserRecord,
    revoked_at: Option<i64>,
    now: i64,
)
    requires
        session_grant(g, ttl_seconds),
    ensures
        trim(g.raw@).len() > 0 && token_digest(g.raw@) == g.token_hash@,
        session_auth_of(Some(granted_session(g, user, revoked_at)), now) is Ok <==> (user.status@
            == "active"@ && revoked_at is None && now < spec_expiry(
            g.created_at,
            ttl_seconds,
            SESSION_DEFAULT_TTL_SECS,
        )),
        session_auth_of(Some(granted_session(g, user, revoked_at)), now) matches Ok(u) ==> u == user,
        revoked_at is Some ==> session_auth_of(Some(granted_session(g, user, revoked_at)), now)
            == Err::<UserRecord, DbError>(DbError::Unauthorized),
        session_auth_of(None, now) == Err::<UserRecord, DbError>(DbError::Unauthorized),
{
}

/// Logging out ends a session: once its row is revoked, the token signs
/// nobody in again, whatever the time and the account.
pub proof fn law_revoked_session_refused(found: SessionUser, revoked_at: i64, now: i64)
    ensures
        ({
            let revoked = SessionUser {
                user: found.user,
                expires_at: found.expires_at,
                revoked_at: Some(revoked_at),
            };
            session_auth_of(Some(revoked), now) == Err::<UserRecord, DbError>(DbError::Unauthorized)
        }),
{
}

/// A setup link works once: after a consume accepted at `first`, the row is
/// marked used then (as the store writes back `used_at`), and from then on
/// consuming it is refused whatever the account, the permission to create
/// one, or the time, and peeking at it gives `TokenInvalid`.
pub proof fn law_setup_link_works_once(
    t: MagicTokenRow,
    account: Option<AccountRow>,
    allow_create_user: bool,
    first: i64,
    later_account: Option<AccountRow>,
    later_allow: bool,
    later: i64,
)
    requires
        setup_link_accepted(Some(t), account, allow_create_user, first),
    ensures
        !setup_link_accepted(Some(consumed_row(t, first)), later_account, later_allow, later),
        !token_usable(consumed_row(t, first).expires_at, consumed_row(t, first).used_at, later),
{
}

} // verus!
