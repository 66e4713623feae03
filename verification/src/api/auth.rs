//! The authentication endpoints' decisions: reading the bearer token, which
//! requests are refused and how, who may receive a login link, and the link
//! itself.
use crate::config::{spec_http_public_base, Settings};
use crate::db::error::DbError;
use crate::db::lists::{spec_has, spec_removed};
use crate::db::manager::Manager;
use crate::db::users::{
    granted_session, law_session_life, session_auth_of, session_grant, token_digest, TokenGrant,
    UserRecord,
};
use crate::db::util::{looks_like_email, spec_looks_like_email};
use crate::text::{
    chars_eq_ignore_case, eq_ignore_case, has_prefix_str, is_trim_empty, push_str_chars,
    slice_to_vec, starts_with, str_chars, str_eq, string_from_chars, strip_trailing,
    strip_trailing_chars, trim, trim_bounds, trim_chars, trim_str,
};
use vstd::prelude::*;
use vstd::string::StringSliceAdditionalSpecFns;
use vstd::utf8::encode_utf8;

verus! {

/// Lifetime of a login session, in seconds (14 days).
pub const SESSION_TTL_SECS: i64 = 1_209_600;

/// Lifetime of the session opened right after a password is set (30 days).
pub const SETUP_SESSION_TTL_SECS: i64 = 2_592_000;

/// Lifetime of a login link, in seconds.
pub const MAGIC_LINK_TTL_SECS: i64 = 3600;

/// A refused request: its status and the message the client gets.
#[derive(Debug)]
pub struct AuthReject {
    pub status: u16,
    pub message: String,
}

fn reject(status: u16, message: &str) -> (r: AuthReject)
    ensures
        r.status == status,
        r.message@ == message@,
{
    AuthReject { status, message: String::from_str(message) }
}

pub open spec fn bearer_prefix() -> Seq<char> {
    seq!['b', 'e', 'a', 'r', 'e', 'r', ' ']
}

/// The token of an `Authorization` header: after a case-insensitive
/// `bearer ` at the start of the trimmed value, trimmed.  Header text is
/// visible ASCII, where characters and bytes are the same.
pub open spec fn bearer_of(header: Option<Seq<char>>) -> Option<Seq<char>> {
    match header {
        None => None,
        Some(h) => {
            let t = trim(h);
            if t.len() >= 7 && eq_ignore_case(t.subrange(0, 7), bearer_prefix()) {
                Some(trim(t.subrange(7, t.len() as int)))
            } else {
                None
            }
        },
    }
}

pub fn bearer_token(authorization: Option<&str>) -> (r: Option<String>)
    ensures
        match r {
            Some(t) => bearer_of(
                match authorization {
                    Some(h) => Some(h@),
                    None => None,
                },
            ) == Some(t@),
            None => bearer_of(
                match authorization {
                    Some(h) => Some(h@),
                    None => None,
                },
            ) is None,
        },
{
    let h = match authorization {
        Some(h) => h,
        None => {
            return None;
        },
    };
    let t = trim_chars(h);
    if t.len() < 7 {
        return None;
    }
    let head = slice_to_vec(t.as_slice(), 0, 7);
    let mut pfx: Vec<char> = Vec::new();
    pfx.push('b');
    pfx.push('e');
    pfx.push('a');
    pfx.push('r');
    pfx.push('e');
    pfx.push('r');
    pfx.push(' ');
    proof {
        assert(pfx@ =~= bearer_prefix());
    }
    if chars_eq_ignore_case(head.as_slice(), pfx.as_slice()) {
        let rest = slice_to_vec(t.as_slice(), 7, t.len());
        let (a, b) = trim_bounds(rest.as_slice());
        let tok = slice_to_vec(rest.as_slice(), a, b);
        Some(string_from_chars(tok.as_slice()))
    } else {
        None
    }
}

/// The status a failed token lookup answers with: 401 for a token that is
/// not (or no longer) valid, 500 for anything else.
pub open spec fn token_failure_status_of(e: DbError) -> u16 {
    if e == DbError::Unauthorized {
        401
    } else {
        500
    }
}

pub fn token_failure_status(e: &DbError) -> (s: u16)
    ensures
        s == token_failure_status_of(*e),
{
    match e {
        DbError::Unauthorized => 401,
        _ => 500,
    }
}

/// A password is long enough with eight bytes once trimmed.
pub open spec fn password_long_enough(password: Seq<char>) -> bool {
    encode_utf8(trim(password)).len() >= 8
}

fn trimmed_byte_len_ok(password: &str) -> (b: bool)
    ensures
        b == password_long_enough(password@),
{
    let t = trim_str(password);
    let bytes = t.as_str().as_bytes();
    bytes.len() >= 8
}

/// The checks of a password setup: a token and a long enough password.
pub open spec fn setup_reject_of(token: Seq<char>, password: Seq<char>) -> Option<(u16, Seq<char>)> {
    if trim(token).len() == 0 {
        Some((400, "missing token"@))
    } else if !password_long_enough(password) {
        Some((400, "password too short"@))
    } else {
        None
    }
}

/// The trimmed token of a setup request, or why it is refused.
pub fn check_setup_request(token: &str, password: &str) -> (r: Result<String, AuthReject>)
    ensures
        match r {
            Ok(t) => setup_reject_of(token@, password@) is None && t@ == trim(token@),
            Err(e) => setup_reject_of(token@, password@) == Some((e.status, e.message@)),
        },
{
    let t = trim_str(token);
    if t.unicode_len() == 0 {
        return Err(reject(400, "missing token"));
    }
    if !trimmed_byte_len_ok(password) {
        return Err(reject(400, "password too short"));
    }
    Ok(t)
}

/// A new account may be set up only from the whitelist; an existing one
/// may always reset its password.
pub fn setup_allowed(existed: bool, whitelisted: bool) -> (b: bool)
    ensures
        b == (existed || whitelisted),
{
    existed || whitelisted
}

/// How a failed token consumption is answered.
pub open spec fn setup_failure_of(e: DbError) -> (u16, Seq<char>) {
    match e {
        DbError::TokenInvalid => (400, "invalid or expired token"@),
        DbError::Unauthorized => (400, "invalid token"@),
        _ => (500, "server error"@),
    }
}

pub fn setup_failure(e: &DbError) -> (r: AuthReject)
    ensures
        (r.status, r.message@) == setup_failure_of(*e),
{
    match e {
        DbError::TokenInvalid => reject(400, "invalid or expired token"),
        DbError::Unauthorized => reject(400, "invalid token"),
        _ => reject(500, "server error"),
    }
}

/// The checks of a login-link request: an e-mail address that looks valid.
pub open spec fn link_request_reject_of(email: Seq<char>) -> Option<(u16, Seq<char>)> {
    if trim(email).len() == 0 {
        Some((400, "missing email"@))
    } else if !spec_looks_like_email(trim(email)) {
        Some((400, "invalid email"@))
    } else {
        None
    }
}

/// The trimmed address of a login-link request, or why it is refused.
pub fn check_link_request(email: &str) -> (r: Result<String, AuthReject>)
    ensures
        match r {
            Ok(e) => link_request_reject_of(email@) is None && e@ == trim(email@),
            Err(e) => link_request_reject_of(email@) == Some((e.status, e.message@)),
        },
{
    let e = trim_str(email);
    if e.unicode_len() == 0 {
        return Err(reject(400, "missing email"));
    }
    if !looks_like_email(e.as_str()) {
        return Err(reject(400, "invalid email"));
    }
    Ok(e)
}

/// Who may receive a login link: an active account with a password (to
/// reset it), or a whitelisted address (to set one up).
pub open spec fn link_eligible_of(account: Option<(Seq<char>, Seq<char>)>, whitelisted: bool) -> bool {
    (account matches Some((status, hash)) && status == "active"@ && trim(hash).len() > 0)
        || whitelisted
}

/// `account` is the status and password hash of the address's account, if any.
pub fn link_eligible(account: Option<(&str, &str)>, whitelisted: bool) -> (b: bool)
    ensures
        b == link_eligible_of(
            match account {
                Some((s, h)) => Some((s@, h@)),
                None => None,
            },
            whitelisted,
        ),
{
    let has_account = match account {
        Some((status, hash)) => str_eq(status, "active") && !is_trim_empty(hash),
        None => false,
    };
    has_account || whitelisted
}

/// The base URL of links: the public base, or the local development
/// address when none is set.
pub open spec fn link_base_of(public_base: Seq<char>) -> Seq<char> {
    if spec_http_public_base(public_base).len() == 0 {
        "http://localhost:8080"@
    } else {
        spec_http_public_base(public_base)
    }
}

/// The address of the setup page for a login token.
pub open spec fn magic_link_of(public_base: Seq<char>, token: Seq<char>) -> Seq<char> {
    strip_trailing(link_base_of(public_base), '/') + "/app/#setup="@ + token
}

pub fn link_base(settings: &Settings) -> (r: String)
    ensures
        r@ == link_base_of(settings.public_base@),
{
    let pb = settings.http_public_base();
    if pb.unicode_len() == 0 {
        String::from_str("http://localhost:8080")
    } else {
        pb
    }
}

pub fn magic_link_url(settings: &Settings, token: &str) -> (r: String)
    ensures
        r@ == magic_link_of(settings.public_base@, token@),
{
    let base = link_base(settings);
    let chars = str_chars(base.as_str());
    let mut v = strip_trailing_chars(chars.as_slice(), '/');
    push_str_chars(&mut v, "/app/#setup=");
    push_str_chars(&mut v, token);
    string_from_chars(v.as_slice())
}

/// The plain-text body of the login-link mail.
pub open spec fn link_mail_text_of(url: Seq<char>) -> Seq<char> {
    "Use this link to set your password and sign in:\n"@ + url
        + "\nIf you didn't request this, you can ignore it."@
}

/// The HTML body of the login-link mail.
pub open spec fn link_mail_html_of(url: Seq<char>) -> Seq<char> {
    "<p>Use this link to set your password and sign in:</p><p><a href=\""@ + url + "\">"@ + url
        + "</a></p><p>If you didn't request this, you can ignore it.</p>"@
}

pub const LINK_MAIL_SUBJECT: &'static str = "Your Saelora login link";

/// The text and HTML bodies of the mail that carries `url`.
pub fn link_mail_bodies(url: &str) -> (r: (String, String))
    ensures
        r.0@ == link_mail_text_of(url@),
        r.1@ == link_mail_html_of(url@),
{
    let mut t = str_chars("Use this link to set your password and sign in:\n");
    push_str_chars(&mut t, url);
    push_str_chars(&mut t, "\nIf you didn't request this, you can ignore it.");
    let mut h = str_chars("<p>Use this link to set your password and sign in:</p><p><a href=\"");
    push_str_chars(&mut h, url);
    push_str_chars(&mut h, "\">");
    push_str_chars(&mut h, url);
    push_str_chars(&mut h, "</a></p><p>If you didn't request this, you can ignore it.</p>");
    (string_from_chars(t.as_slice()), string_from_chars(h.as_slice()))
}

/// How a login link leaves the server.
#[derive(Debug, Clone, Copy, PartialEq, Eq, Structural)]
pub enum LinkDelivery {
    /// Sent by mail.
    Mail,
    /// Mail is not set up and the server is local: the link is logged.
    LogLink,
    /// Mail is not set up: only the fact is logged.
    LogNotice,
}

pub open spec fn link_delivery_of(mail_configured: bool, base: Seq<char>) -> LinkDelivery {
    if mail_configured {
        LinkDelivery::Mail
    } else if starts_with(base, "http://localhost"@) || starts_with(base, "http://127.0.0.1"@) {
        LinkDelivery::LogLink
    } else {
        LinkDelivery::LogNotice
    }
}

pub fn link_delivery(mail_configured: bool, base: &str) -> (r: LinkDelivery)
    ensures
        r == link_delivery_of(mail_configured, base@),
{
    if mail_configured {
        return LinkDelivery::Mail;
    }
    let v = str_chars(base);
    if has_prefix_str(v.as_slice(), "http://localhost") || has_prefix_str(
        v.as_slice(),
        "http://127.0.0.1",
    ) {
        LinkDelivery::LogLink
    } else {
        LinkDelivery::LogNotice
    }
}

/// What a request for a login link ends in once the address passed its
/// checks and eligibility was decided, given how issuing the token went:
/// `Ok` to deliver the token, or the answer.  Ineligible and disabled
/// addresses get the same answer as eligible ones.
pub open spec fn link_issue_of(eligible: bool, issued: Result<Seq<char>, DbError>) -> Result<
    Seq<char>,
    (u16, Seq<char>),
> {
    if !eligible {
        Err((200, Seq::empty()))
    } else {
        match issued {
            Ok(t) => Ok(t),
            Err(DbError::InvalidEmail) => Err((400, "invalid email"@)),
            Err(DbError::Unauthorized) => Err((200, Seq::empty())),
            Err(_) => Err((500, "server error"@)),
        }
    }
}

/// The outcome of issuing a login token: the token to deliver, or the
/// answer (status 200 with an empty message meaning a plain `ok`).
pub fn link_issue_outcome(eligible: bool, issued: Result<String, DbError>) -> (r: Result<
    String,
    AuthReject,
>)
    ensures
        match r {
            Ok(t) => link_issue_of(
                eligible,
                match issued {
                    Ok(x) => Ok(x@),
                    Err(e) => Err(e),
                },
            ) == Ok::<Seq<char>, (u16, Seq<char>)>(t@),
            Err(e) => link_issue_of(
                eligible,
                match issued {
                    Ok(x) => Ok(x@),
                    Err(e) => Err(e),
                },
            ) == Err::<Seq<char>, (u16, Seq<char>)>((e.status, e.message@)),
        },
{
    if !eligible {
        return Err(AuthReject { status: 200, message: String::new() });
    }
    match issued {
        Ok(t) => Ok(t),
        Err(DbError::InvalidEmail) => Err(reject(400, "invalid email")),
        Err(DbError::Unauthorized) => Err(AuthReject { status: 200, message: String::new() }),
        Err(_) => Err(reject(500, "server error")),
    }
}

/// How a registration is answered, given whether an account with the
/// address exists and whether the address is whitelisted or waitlisted:
/// the input checks first; then an existing account conflicts; an address
/// that is not whitelisted is refused, told whether it waits on the
/// waitlist; otherwise (`None`) the account is created.
pub open spec fn register_answer_of(
    email: Seq<char>,
    password: Seq<char>,
    taken: bool,
    whitelisted: bool,
    waitlisted: bool,
) -> Option<(u16, Seq<char>)> {
    if trim(email).len() == 0 || trim(password).len() == 0 {
        Some((400, "missing email or password"@))
    } else if !spec_looks_like_email(trim(email)) {
        Some((400, "invalid email"@))
    } else if !password_long_enough(password) {
        Some((400, "password too short"@))
    } else if taken {
        Some((409, "account already exists"@))
    } else if !whitelisted {
        if waitlisted {
            Some((403, "you are on the waitlist"@))
        } else {
            Some((403, "invite required"@))
        }
    } else {
        None
    }
}

/// The input checks of a registration (see [`register_answer_of`]): the
/// trimmed address, or the refusal.
pub fn check_register_request(email: &str, password: &str) -> (r: Result<String, AuthReject>)
    ensures
        match r {
            Ok(e) => e@ == trim(email@) && trim(email@).len() > 0 && trim(password@).len() > 0
                && spec_looks_like_email(trim(email@)) && password_long_enough(password@),
            Err(x) => register_answer_of(email@, password@, false, true, false) == Some(
                (x.status, x.message@),
            ),
        },
{
    let e = trim_str(email);
    if e.unicode_len() == 0 || is_trim_empty(password) {
        return Err(reject(400, "missing email or password"));
    }
    if !looks_like_email(e.as_str()) {
        return Err(reject(400, "invalid email"));
    }
    if !trimmed_byte_len_ok(password) {
        return Err(reject(400, "password too short"));
    }
    Ok(e)
}

/// The answer to a registration that passed its input checks, for the
/// trimmed address `email`: see [`register_answer_of`], the lists read from
/// `lists`; `None` means the account is to be created.
pub fn register_decision(email: &str, taken: bool, lists: &Manager) -> (r: Option<AuthReject>)
    ensures
        match r {
            Some(x) => {
                &&& taken ==> x.status == 409 && x.message@ == "account already exists"@
                &&& !taken && !spec_has(lists.whitelist.lines@, email@) && spec_has(
                    lists.waitlist.lines@,
                    email@,
                ) ==> x.status == 403 && x.message@ == "you are on the waitlist"@
                &&& !taken && !spec_has(lists.whitelist.lines@, email@) && !spec_has(
                    lists.waitlist.lines@,
                    email@,
                ) ==> x.status == 403 && x.message@ == "invite required"@
                &&& taken || !spec_has(lists.whitelist.lines@, email@)
            },
            None => !taken && spec_has(lists.whitelist.lines@, email@),
        },
{
    if taken {
        return Some(reject(409, "account already exists"));
    }
    if lists.whitelist_has(email) {
        return None;
    }
    if lists.waitlist_has(email) {
        Some(reject(403, "you are on the waitlist"))
    } else {
        Some(reject(403, "invite required"))
    }
}

/// A registration's answer is what [`register_answer_of`] says: the input
/// checks, then the account and list decision.
pub proof fn law_registration_answer(
    email: Seq<char>,
    password: Seq<char>,
    taken: bool,
    lists: Manager,
)
    requires
        trim(email).len() > 0 && trim(password).len() > 0,
        spec_looks_like_email(trim(email)),
        password_long_enough(password),
    ensures
        register_answer_of(
            email,
            password,
            taken,
            spec_has(lists.whitelist.lines@, trim(email)),
            spec_has(lists.waitlist.lines@, trim(email)),
        ) == (if taken {
            Some((409u16, "account already exists"@))
        } else if !spec_has(lists.whitelist.lines@, trim(email)) {
            if spec_has(lists.waitlist.lines@, trim(email)) {
                Some((403u16, "you are on the waitlist"@))
            } else {
                Some((403u16, "invite required"@))
            }
        } else {
            None
        }),
{
}

/// How a failed account creation is answered: an existing account
/// conflicts, an implausible address is refused, anything else is a server
/// error.
pub fn register_failure(e: &DbError) -> (r: AuthReject)
    ensures
        *e == DbError::UserExists ==> r.status == 409 && r.message@ == "account already exists"@,
        *e == DbError::InvalidEmail ==> r.status == 400 && r.message@ == "invalid email"@,
        *e != DbError::UserExists && *e != DbError::InvalidEmail ==> r.status == 500 && r.message@
            == "server error"@,
{
    match e {
        DbError::UserExists => reject(409, "account already exists"),
        DbError::InvalidEmail => reject(400, "invalid email"),
        _ => reject(500, "server error"),
    }
}

/// A registered address leaves both lists.
pub fn clear_registered(lists: &mut Manager, email: &str)
    ensures
        spec_removed(old(lists).whitelist.lines@, final(lists).whitelist.lines@, email@),
        spec_removed(old(lists).waitlist.lines@, final(lists).waitlist.lines@, email@),
        final(lists).data_dir == old(lists).data_dir,
{
    lists.whitelist_remove(email);
    lists.waitlist_remove(email);
}

/// How a failed login is answered.
pub fn login_failure(e: &DbError) -> (r: AuthReject)
    ensures
        *e == DbError::Unauthorized ==> r.status == 401 && r.message@ == "invalid credentials"@,
        *e != DbError::Unauthorized ==> r.status == 500 && r.message@ == "server error"@,
{
    match e {
        DbError::Unauthorized => reject(401, "invalid credentials"),
        _ => reject(500, "server error"),
    }
}

/// The address an invitation names: from the JSON body when the content
/// type says JSON, else from the form body (empty when the body did not
/// decode).
pub fn invite_email(content_type: &str, json_email: Option<String>, form_email: Option<String>) -> (r:
    String)
    ensures
        r@ == (if starts_with(content_type@, "application/json"@) {
            match json_email {
                Some(e) => e@,
                None => Seq::empty(),
            }
        } else {
            match form_email {
                Some(e) => e@,
                None => Seq::empty(),
            }
        }),
{
    let ct = str_chars(content_type);
    let chosen = if has_prefix_str(ct.as_slice(), "application/json") {
        json_email
    } else {
        form_email
    };
    match chosen {
        Some(e) => e,
        None => String::new(),
    }
}

/// How a failed invitation is answered.
pub fn invite_failure(e: &DbError) -> (r: AuthReject)
    ensures
        *e == DbError::InvalidEmail ==> r.status == 400 && r.message@ == "invalid email"@,
        *e != DbError::InvalidEmail ==> r.status == 500 && r.message@ == "server error"@,
{
    match e {
        DbError::InvalidEmail => reject(400, "invalid email"),
        _ => reject(500, "server error"),
    }
}

/// A login-link request never tells whether the address may receive a
/// link: ineligible and disabled addresses get the plain `ok` that an
/// issued link gets.
pub proof fn law_link_answer_does_not_leak(issued: Result<Seq<char>, DbError>)
    ensures
        link_issue_of(false, issued) == Err::<Seq<char>, (u16, Seq<char>)>((200, Seq::empty())),
        link_issue_of(true, Err(DbError::Unauthorized)) == link_issue_of(false, issued),
{
}

/// Logging in, logging out, then asking who is signed in with the same
/// bearer token.  Logout revokes the session stored under the digest of the
/// header's token, and `me` looks up the session under that same digest, so
/// it finds the revoked session: before the logout `me` signs the active user
/// in, after it the answer is 401.  A request without a bearer token is
/// refused with 401 as well.
pub proof fn law_logout_then_me_refused(
    header: Seq<char>,
    g: TokenGrant,
    ttl_seconds: i64,
    user: UserRecord,
    logout_at: i64,
    now: i64,
)
    requires
        session_grant(g, ttl_seconds),
        bearer_of(Some(header)) == Some(g.raw@),
    ensures
        token_digest(g.raw@) == g.token_hash@,
        user.status@ == "active"@ && now < g.expires_at ==> session_auth_of(
            Some(granted_session(g, user, None)),
            now,
        ) == Ok::<UserRecord, DbError>(user),
        ({
            let r = session_auth_of(Some(granted_session(g, user, Some(logout_at))), now);
            r is Err && token_failure_status_of(r->Err_0) == 401
        }),
        bearer_of(None) is None,
{
    law_session_life(g, ttl_seconds, user, Some(logout_at), now);
}

} // verus!
