//! Who may do what: logging in, changing the password, and the rule that every
//! request is held to.

use crate::clock::{hours_later, later, utc_now, TIMESTAMP_MAX, TIMESTAMP_MIN};
use crate::crypto::{accepts, hash_password, verify_password, PASSWORD_MAX};
use crate::db::{param_views, ParamView, Statement};
use crate::text::{same, starts_with, text_in};
use crate::token::{
    claim_list, issue_token, jwt_token, read_token, token_claims, token_secret, Claims, ClaimsView,
};
use vstd::prelude::*;
use vstd::string::*;
use vstd::utf8::encode_utf8;

verus! {

/// The request was malformed or the credentials are wrong or missing.
pub const UNAUTHORIZED: u16 = 401;

/// The bearer may not do this yet.
pub const FORBIDDEN: u16 = 403;

/// The server could not do its part.
pub const INTERNAL_SERVER_ERROR: u16 = 500;

/// A refusal: an HTTP status and what is said with it.
#[derive(Debug, Clone)]
pub struct ApiError {
    pub status: u16,
    pub message: String,
}

/// An `ApiError` with the message as a sequence of characters.
pub struct ApiErrorView {
    pub status: u16,
    pub message: Seq<char>,
}

impl View for ApiError {
    type V = ApiErrorView;

    open spec fn view(&self) -> ApiErrorView {
        ApiErrorView { status: self.status, message: self.message@ }
    }
}

/// The error with this status and message.
pub open spec fn api_error(status: u16, message: Seq<char>) -> ApiErrorView {
    ApiErrorView { status, message }
}

/// Makes an error.
pub fn refuse(status: u16, message: &str) -> (r: ApiError)
    ensures
        r@ == api_error(status, message@),
{
    ApiError { status, message: message.to_owned() }
}

/// How long a session lasts.
pub const SESSION_HOURS: i64 = 24;

/// A session can start at `now`: its end still is a date.
pub open spec fn session_fits(now: i64) -> bool {
    TIMESTAMP_MIN <= now <= TIMESTAMP_MAX && later(now, SESSION_HOURS) is Some
}

/// When a session that starts at `now` ends.
pub open spec fn expiry(now: i64) -> usize {
    later(now, SESSION_HOURS)->0 as usize
}

/// Whether a session can start at `now`.
pub fn session_can_start(now: i64) -> (r: bool)
    ensures
        r == session_fits(now),
{
    TIMESTAMP_MIN <= now && now <= TIMESTAMP_MAX && hours_later(now, SESSION_HOURS).is_some()
}

/// When a session that starts at `now` ends.
pub fn session_end(now: i64) -> (r: usize)
    requires
        session_fits(now),
    ensures
        r == expiry(now),
{
    hours_later(now, SESSION_HOURS).unwrap() as usize
}

/// A request to log in.
#[derive(Debug, Clone)]
pub struct LoginRequest {
    pub username: String,
    pub password: String,
}

/// The answer to a successful log-in.
#[derive(Debug, Clone)]
pub struct LoginResponse {
    pub token: String,
    pub must_change_password: bool,
}

/// What the database holds of a user.
#[derive(Debug, Clone)]
pub struct UserRecord {
    pub password_hash: String,
    pub must_change_password: bool,
}

/// How looking a user up went.
#[derive(Debug, Clone)]
pub enum UserLookup {
    /// There is no database.
    Unavailable,
    /// There is no such user, or the query failed.
    Missing,
    /// The user's record.
    Found(UserRecord),
}

pub const SELECT_USER: &'static str = "SELECT password_hash, must_change_password FROM users WHERE username = ?1";

/// The query for a user's record.
pub fn user_query(username: &str) -> (r: Statement)
    ensures
        r.reads(SELECT_USER@, seq![ParamView::Text(username@)]),
{
    let r = Statement::new(SELECT_USER).bind_text(username);
    proof {
        assert(param_views(r.params@) =~= seq![ParamView::Text(username@)]);
    }
    r
}

/// The claims of a log-in: the user, a day from now, and whether the password is
/// to be changed first.
pub open spec fn session_claims(username: Seq<char>, must_change: bool, now: i64) -> ClaimsView {
    ClaimsView { sub: username, exp: expiry(now), must_change_password: must_change }
}

/// Why a log-in is refused, if it is.
pub open spec fn login_refusal(found: UserLookup, password: Seq<char>) -> Option<ApiErrorView> {
    match found {
        UserLookup::Unavailable => Some(api_error(INTERNAL_SERVER_ERROR, "DB unavailable"@)),
        UserLookup::Missing => Some(api_error(UNAUTHORIZED, "Invalid username or password"@)),
        UserLookup::Found(record) => if accepts(record.password_hash@, password) {
            None
        } else {
            Some(api_error(UNAUTHORIZED, "Invalid username or password"@))
        },
    }
}

/// Checks a request to log in against what the database says of the user, and
/// tells whether the user is to change the password first.
pub fn check_login(found: &UserLookup, req: &LoginRequest) -> (r: Result<bool, ApiError>)
    ensures
        r is Err <==> login_refusal(*found, req.password@) is Some,
        r matches Err(e) ==> login_refusal(*found, req.password@) == Some(e@),
        r matches Ok(must_change) ==> must_change == found->Found_0.must_change_password,
{
    let record = match found {
        UserLookup::Unavailable => return Err(refuse(INTERNAL_SERVER_ERROR, "DB unavailable")),
        UserLookup::Missing => return Err(refuse(UNAUTHORIZED, "Invalid username or password")),
        UserLookup::Found(record) => record,
    };
    if !verify_password(record.password_hash.as_str(), req.password.as_str()) {
        return Err(refuse(UNAUTHORIZED, "Invalid username or password"));
    }
    Ok(record.must_change_password)
}

/// The token is the session token for the claims.
pub open spec fn carries(token: Seq<char>, claims: ClaimsView) -> bool {
    &&& token == jwt_token(claim_list(claims), token_secret())
    &&& token_claims(token) == Some(claims)
}

/// Hands out a token for a session that starts at `now`.
pub fn session_token(username: &str, must_change: bool, now: i64) -> (r: Result<String, ApiError>)
    requires
        session_fits(now),
    ensures
        r is Ok,
        carries(r->Ok_0@, session_claims(username@, must_change, now)),
{
    let claims = Claims {
        sub: username.to_owned(),
        exp: session_end(now),
        must_change_password: must_change,
    };
    match issue_token(&claims) {
        Some(token) => Ok(token),
        None => Err(refuse(INTERNAL_SERVER_ERROR, "Failed to create token")),
    }
}

/// Lets a user in at `now`, whose credentials have been checked. The token says
/// who logged in, until when, and whether the password is to be changed first.
pub fn log_in(username: &str, must_change: bool, now: i64) -> (r: Result<LoginResponse, ApiError>)
    requires
        session_fits(now),
    ensures
        r is Ok,
        r->Ok_0.must_change_password == must_change,
        carries(r->Ok_0.token@, session_claims(username@, must_change, now)),
{
    match session_token(username, must_change, now) {
        Ok(token) => Ok(LoginResponse { token, must_change_password: must_change }),
        Err(e) => Err(e),
    }
}

/// Answers a request to log in at `now`, given what the database says of the
/// user. There is no answer where the session would end past the last date.
pub fn login_at(found: &UserLookup, req: &LoginRequest, now: i64) -> (r: Option<
    Result<LoginResponse, ApiError>,
>)
    ensures
        r is None <==> login_refusal(*found, req.password@) is None && !session_fits(now),
        login_refusal(*found, req.password@) matches Some(e) ==> r matches Some(Err(refusal))
            && refusal@ == e,
        login_refusal(*found, req.password@) is None && session_fits(now) ==> {
            let must_change = found->Found_0.must_change_password;
            &&& r->0 is Ok
            &&& r->0->Ok_0.must_change_password == must_change
            &&& carries(r->0->Ok_0.token@, session_claims(req.username@, must_change, now))
        },
{
    let must_change = match check_login(found, req) {
        Ok(must_change) => must_change,
        Err(e) => return Some(Err(e)),
    };
    if session_can_start(now) {
        Some(log_in(req.username.as_str(), must_change, now))
    } else {
        None
    }
}

/// Answers a request to log in, given what the database says of the user. The
/// session starts by the clock of the machine.
pub fn api_login(found: &UserLookup, req: &LoginRequest) -> (r: Option<
    Result<LoginResponse, ApiError>,
>)
    ensures
        login_refusal(*found, req.password@) matches Some(e) ==> r matches Some(Err(refusal))
            && refusal@ == e,
        login_refusal(*found, req.password@) is None ==> {
            ||| r is None
            ||| {
                &&& r->0 is Ok
                &&& r->0->Ok_0.must_change_password == found->Found_0.must_change_password
                &&& exists|now: i64|
                    0 <= now && #[trigger] session_fits(now) && carries(
                        r->0->Ok_0.token@,
                        session_claims(req.username@, found->Found_0.must_change_password, now),
                    )
            }
        },
{
    login_at(found, req, utc_now())
}

/// A request to change one's own password.
#[derive(Debug, Clone)]
pub struct ChangePasswordRequest {
    pub new_password: String,
}

/// The answer to a successful change of password.
#[derive(Debug, Clone)]
pub struct ChangePasswordResponse {
    pub success: bool,
    pub token: String,
}

pub const UPDATE_PASSWORD: &'static str = "UPDATE users SET password_hash = ?1, must_change_password = 0 WHERE username = ?2";

/// The statement sets the user's hash to one of the password.
pub open spec fn sets_password(
    statement: Statement,
    username: Seq<char>,
    password: Seq<char>,
) -> bool {
    &&& statement.sql@ == UPDATE_PASSWORD@
    &&& statement.params@.len() == 2
    &&& statement.params@[0]@ is Text
    &&& accepts(statement.params@[0]@->Text_0, password)
    &&& statement.params@[1]@ == ParamView::Text(username)
}

/// The statement that gives the bearer of the claims a new password and lifts
/// the duty to change it.
pub fn password_update(claims: &Claims, req: &ChangePasswordRequest) -> (r: Statement)
    requires
        encode_utf8(req.new_password@).len() <= PASSWORD_MAX,
    ensures
        sets_password(r, claims.sub@, req.new_password@),
{
    let hash = hash_password(req.new_password.as_str());
    let r = Statement::new(UPDATE_PASSWORD).bind_text(hash.as_str()).bind_text(claims.sub.as_str());
    proof {
        assert(param_views(r.params@).len() == r.params@.len());
        assert(param_views(r.params@)[0] == r.params@[0]@);
        assert(param_views(r.params@)[1] == r.params@[1]@);
    }
    r
}

/// How writing to the database went.
#[derive(Debug, Clone, Copy, PartialEq, Eq, Structural)]
pub enum Written {
    /// There is no database.
    Unavailable,
    /// The statement failed.
    Failed,
    /// The statement was carried out.
    Done,
}

/// Why a write is refused, if it is.
pub open spec fn write_refusal(outcome: Written, message: Seq<char>) -> Option<ApiErrorView> {
    match outcome {
        Written::Unavailable => Some(api_error(INTERNAL_SERVER_ERROR, "DB unavailable"@)),
        Written::Failed => Some(api_error(INTERNAL_SERVER_ERROR, message)),
        Written::Done => None,
    }
}

/// Turns the outcome of a write into an answer, with `message` where the
/// statement failed.
pub fn check_written(outcome: Written, message: &str) -> (r: Result<(), ApiError>)
    ensures
        r is Err <==> write_refusal(outcome, message@) is Some,
        r matches Err(e) ==> write_refusal(outcome, message@) == Some(e@),
{
    match outcome {
        Written::Unavailable => Err(refuse(INTERNAL_SERVER_ERROR, "DB unavailable")),
        Written::Failed => Err(refuse(INTERNAL_SERVER_ERROR, message)),
        Written::Done => Ok(()),
    }
}

/// Hands out the token that follows a change of password at `now`: it no longer
/// asks for a change.
pub fn renew_session(claims: &Claims, now: i64) -> (r: Result<ChangePasswordResponse, ApiError>)
    requires
        session_fits(now),
    ensures
        r is Ok,
        r->Ok_0.success,
        carries(r->Ok_0.token@, session_claims(claims.sub@, false, now)),
{
    match session_token(claims.sub.as_str(), false, now) {
        Ok(token) => Ok(ChangePasswordResponse { success: true, token }),
        Err(e) => Err(e),
    }
}

/// Answers a request to change the password at `now`, given how the update went.
/// The token that is handed out no longer asks for a change. There is no answer
/// where the new session would end past the last date.
pub fn change_password_at(claims: &Claims, outcome: Written, now: i64) -> (r: Option<
    Result<ChangePasswordResponse, ApiError>,
>)
    ensures
        r is None <==> write_refusal(outcome, "Failed to update password"@) is None
            && !session_fits(now),
        write_refusal(outcome, "Failed to update password"@) matches Some(e) ==> r matches Some(
            Err(refusal),
        ) && refusal@ == e,
        write_refusal(outcome, "Failed to update password"@) is None && session_fits(now) ==> {
            &&& r->0 is Ok
            &&& r->0->Ok_0.success
            &&& carries(r->0->Ok_0.token@, session_claims(claims.sub@, false, now))
        },
{
    match check_written(outcome, "Failed to update password") {
        Ok(_) => {},
        Err(e) => return Some(Err(e)),
    }
    if session_can_start(now) {
        Some(renew_session(claims, now))
    } else {
        None
    }
}

/// Answers a request to change the password, given how the update went. The new
/// session starts by the clock of the machine.
pub fn api_change_password(claims: &Claims, outcome: Written) -> (r: Option<
    Result<ChangePasswordResponse, ApiError>,
>)
    ensures
        write_refusal(outcome, "Failed to update password"@) matches Some(e) ==> r matches Some(
            Err(refusal),
        ) && refusal@ == e,
        write_refusal(outcome, "Failed to update password"@) is None ==> {
            ||| r is None
            ||| {
                &&& r->0 is Ok
                &&& r->0->Ok_0.success
                &&& exists|now: i64|
                    0 <= now && #[trigger] session_fits(now) && carries(
                        r->0->Ok_0.token@,
                        session_claims(claims.sub@, false, now),
                    )
            }
        },
{
    change_password_at(claims, outcome, utc_now())
}

/// What becomes of a request.
#[derive(Debug, Clone)]
pub enum Access {
    /// It is let through without a token.
    Open,
    /// It is let through on behalf of the bearer of these claims.
    Granted(Claims),
    /// It is refused with this status.
    Refused(u16),
}

/// An `Access` with the claims as their view.
pub enum AccessView {
    Open,
    Granted(ClaimsView),
    Refused(u16),
}

impl View for Access {
    type V = AccessView;

    open spec fn view(&self) -> AccessView {
        match self {
            Access::Open => AccessView::Open,
            Access::Granted(claims) => AccessView::Granted(claims@),
            Access::Refused(status) => AccessView::Refused(*status),
        }
    }
}

/// The paths that need no token: the page itself and the log-in.
pub open spec fn is_open_path(path: Seq<char>) -> bool {
    path == "/api/login"@ || path == "/"@
}

/// The token that an `Authorization` header carries.
pub open spec fn bearer(header: Option<Seq<char>>) -> Option<Seq<char>> {
    match header {
        Some(text) => if "Bearer "@.is_prefix_of(text) {
            Some(text.skip(7))
        } else {
            None
        },
        None => None,
    }
}

/// What becomes of a request for a path, given the claims of its token, if a
/// token was read. A bearer who is to change the password may do only that.
pub open spec fn access(path: Seq<char>, claims: Option<ClaimsView>) -> AccessView {
    if is_open_path(path) {
        AccessView::Open
    } else {
        match claims {
            Some(c) => if path != "/api/change_password"@ && c.must_change_password {
                AccessView::Refused(FORBIDDEN)
            } else {
                AccessView::Granted(c)
            },
            None => AccessView::Refused(UNAUTHORIZED),
        }
    }
}

/// The claims that a request's header carries.
pub open spec fn header_claims(header: Option<Seq<char>>) -> Option<ClaimsView> {
    match bearer(header) {
        Some(token) => token_claims(token),
        None => None,
    }
}

/// Whether a path needs no token.
pub fn open_path(path: &str) -> (r: bool)
    ensures
        r == is_open_path(path@),
{
    same(path, "/api/login") || same(path, "/")
}

/// The token that an `Authorization` header carries.
pub fn bearer_token<'a>(header: Option<&'a str>) -> (r: Option<&'a str>)
    ensures
        r is Some <==> bearer(text_in(header)) is Some,
        r matches Some(token) ==> bearer(text_in(header)) == Some(token@),
{
    match header {
        Some(text) => if starts_with(text, "Bearer ") {
            proof {
                reveal_strlit("Bearer ");
            }
            let token = text.substring_char(7, text.unicode_len());
            proof {
                assert(token@ =~= text@.skip(7));
            }
            Some(token)
        } else {
            None
        },
        None => None,
    }
}

/// Decides on a request for a path, given the claims of its token, if a token
/// was read.
pub fn decide_access(path: &str, claims: Option<Claims>) -> (r: Access)
    ensures
        r@ == access(
            path@,
            match claims {
                Some(c) => Some(c@),
                None => None,
            },
        ),
{
    if open_path(path) {
        return Access::Open;
    }
    match claims {
        Some(c) => if !same(path, "/api/change_password") && c.must_change_password {
            Access::Refused(FORBIDDEN)
        } else {
            Access::Granted(c)
        },
        None => Access::Refused(UNAUTHORIZED),
    }
}

/// Holds a request to the rule, given its path and its `Authorization` header.
///
/// The claims of the token decide, or, once the token has expired, that there
/// are none; which of the two depends on the clock.
pub fn auth_middleware(path: &str, header: Option<&str>) -> (r: Access)
    ensures
        r@ == access(path@, header_claims(text_in(header))) || r@ == access(path@, None),
        header_claims(text_in(header)) is None ==> r@ == access(path@, None),
        is_open_path(path@) ==> r@ is Open,
{
    if open_path(path) {
        return Access::Open;
    }
    let claims = match bearer_token(header) {
        Some(token) => read_token(token),
        None => None,
    };
    decide_access(path, claims)
}

/// Only a request for an open path gets through without a session token.
pub proof fn law_no_access_without_token(path: Seq<char>)
    requires
        !is_open_path(path),
    ensures
        access(path, None) == AccessView::Refused(UNAUTHORIZED),
{
}

/// The token of a user who is to change the password opens the change of
/// password, and nothing else that needs a token: for every other path the
/// bearer is told that this is forbidden.
pub proof fn law_password_change_comes_first(path: Seq<char>, claims: ClaimsView)
    requires
        !is_open_path(path),
        claims.must_change_password,
    ensures
        path == "/api/change_password"@ ==> access(path, Some(claims)) == AccessView::Granted(
            claims,
        ),
        path != "/api/change_password"@ ==> access(path, Some(claims)) == AccessView::Refused(
            FORBIDDEN,
        ),
{
}

/// The token of a user who need not change the password opens every path, on
/// behalf of that user.
pub proof fn law_token_opens_every_path(path: Seq<char>, claims: ClaimsView)
    requires
        !is_open_path(path),
        !claims.must_change_password,
    ensures
        access(path, Some(claims)) == AccessView::Granted(claims),
{
}

/// A token that is sent as `Bearer` and the token is what the header carries.
pub proof fn law_bearer_header_carries_token(token: Seq<char>)
    ensures
        bearer(Some("Bearer "@ + token)) == Some(token),
        header_claims(Some("Bearer "@ + token)) == token_claims(token),
{
    reveal_strlit("Bearer ");
    let text = "Bearer "@ + token;
    assert("Bearer "@.is_prefix_of(text)) by {
        assert(text.subrange(0, "Bearer "@.len() as int) =~= "Bearer "@);
    }
    assert(text.skip(7) =~= token);
}

/// A token that was handed out at a log-in and is sent as `Bearer` and the token
/// carries exactly the claims of that log-in. Every path is open to it on behalf
/// of the user; but while the password is to be changed, every path that needs a
/// token is forbidden, except for the change of password.
pub proof fn law_login_opens_paths(
    token: Seq<char>,
    username: Seq<char>,
    must_change: bool,
    now: i64,
    path: Seq<char>,
)
    requires
        carries(token, session_claims(username, must_change, now)),
    ensures
        ({
            let claims = session_claims(username, must_change, now);
            let sent = header_claims(Some("Bearer "@ + token));
            &&& sent == Some(claims)
            &&& is_open_path(path) ==> access(path, sent) == AccessView::Open
            &&& !is_open_path(path) && (!must_change || path == "/api/change_password"@)
                ==> access(path, sent) == AccessView::Granted(claims)
            &&& !is_open_path(path) && must_change && path != "/api/change_password"@
                ==> access(path, sent) == AccessView::Refused(FORBIDDEN)
        }),
{
    law_bearer_header_carries_token(token);
}

/// Once a statement has set a user's password, a log-in with that password
/// against the stored hash is not refused.
pub proof fn law_new_password_logs_in(
    statement: Statement,
    username: Seq<char>,
    password: Seq<char>,
    record: UserRecord,
)
    requires
        sets_password(statement, username, password),
        ParamView::Text(record.password_hash@) == statement.params@[0]@,
    ensures
        login_refusal(UserLookup::Found(record), password) is None,
{
}

/// Right after a database was brought up without users, `admin` can log in with
/// the password `admin`, and what the session then opens is the change of
/// password alone.
pub proof fn law_default_admin(
    statement: Statement,
    record: UserRecord,
    now: i64,
    path: Seq<char>,
)
    requires
        crate::db::creates_admin(statement),
        ParamView::Text(record.password_hash@) == statement.params@[1]@,
        ParamView::Flag(record.must_change_password) == statement.params@[2]@,
        !is_open_path(path),
    ensures
        login_refusal(UserLookup::Found(record), "admin"@) is None,
        path != "/api/change_password"@ ==> access(
            path,
            Some(session_claims("admin"@, record.must_change_password, now)),
        ) == AccessView::Refused(FORBIDDEN),
{
}

/// The model of an error has its status and its message.
pub proof fn law_error_view(e: ApiError)
    ensures
        e@.status == e.status,
        e@.message == e.message@,
{
}

/// The model of an access is the access, with the claims as their model.
pub proof fn law_access_view(claims: Claims, status: u16)
    ensures
        Access::Open@ == AccessView::Open,
        Access::Granted(claims)@ == AccessView::Granted(claims@),
        Access::Refused(status)@ == AccessView::Refused(status),
        UNAUTHORIZED == 401,
        FORBIDDEN == 403,
        INTERNAL_SERVER_ERROR == 500,
{
}

/// A session ends 86400 seconds after it starts, and can start exactly at a
/// second for which that still is a date.
pub proof fn law_session_lasts_a_day(now: i64)
    ensures
        session_fits(now) <==> -8_334_601_228_800 <= now && now + 86_400 <= 8_210_266_876_799,
        session_fits(now) && 0 <= now && now + 86_400 <= usize::MAX ==> expiry(now) == now + 86_400,
{
}

/// The claims of a session are of the user who logged in, run out when the
/// session ends, and say whether the password is to be changed.
pub proof fn law_session_is_the_users(username: Seq<char>, must_change: bool, now: i64)
    ensures
        session_claims(username, must_change, now).sub == username,
        session_claims(username, must_change, now).must_change_password == must_change,
        session_claims(username, must_change, now).exp == expiry(now),
{
}

/// A log-in is refused exactly if there is no database, no such user, or the
/// password does not have the user's hash; the first is the server's fault, and
/// the other two are told in the same words.
pub proof fn law_login_needs_the_password(found: UserLookup, password: Seq<char>)
    ensures
        login_refusal(found, password) is None <==> (found matches UserLookup::Found(record)
            && accepts(record.password_hash@, password)),
        found is Unavailable ==> (login_refusal(found, password) matches Some(e) && e.status == 500
            && e.message == "DB unavailable"@),
        found !is Unavailable ==> (login_refusal(found, password) matches Some(e) ==> e.status
            == 401 && e.message == "Invalid username or password"@),
{
}

/// A write is refused exactly if it was not done, with 500 and the reason.
pub proof fn law_write_is_refused_unless_done(outcome: Written, message: Seq<char>)
    ensures
        write_refusal(outcome, message) is None <==> outcome is Done,
        outcome is Unavailable ==> (write_refusal(outcome, message) matches Some(e) && e.status
            == 500 && e.message == "DB unavailable"@),
        outcome is Failed ==> (write_refusal(outcome, message) matches Some(e) && e.status == 500
            && e.message == message),
{
}

/// The paths that need no token are the page and the log-in; they are open
/// whatever token was sent.
pub proof fn law_open_paths(path: Seq<char>, claims: Option<ClaimsView>)
    ensures
        path == "/"@ || path == "/api/login"@ ==> access(path, claims) == AccessView::Open,
        is_open_path(path) ==> path == "/"@ || path == "/api/login"@,
        is_open_path("/"@),
        is_open_path("/api/login"@),
{
}

/// A header carries a token exactly if it is `Bearer`, a space and that token.
pub proof fn law_only_bearer_headers_carry_tokens(header: Option<Seq<char>>, token: Seq<char>)
    ensures
        bearer(header) == Some(token) <==> header == Some("Bearer "@ + token),
        bearer(header) is None ==> header_claims(header) is None,
        bearer(header) == Some(token) ==> header_claims(header) == token_claims(token),
{
    reveal_strlit("Bearer ");
    law_bearer_header_carries_token(token);
    if bearer(header) == Some(token) {
        let text = header->0;
        assert(text.subrange(0, 7) =~= "Bearer "@);
        assert(text =~= "Bearer "@ + token);
    }
}

/// A token that carries claims says them when it is read.
pub proof fn law_carried_claims_are_said(token: Seq<char>, claims: ClaimsView)
    requires
        carries(token, claims),
    ensures
        token_claims(token) == Some(claims),
        token == jwt_token(claim_list(claims), token_secret()),
{
}

/// The statement that sets a password writes a hash of it, lifts the duty to
/// change it, and does both for one user only.
pub proof fn law_password_statement(statement: Statement, username: Seq<char>, password: Seq<char>)
    requires
        sets_password(statement, username, password),
    ensures
        statement.sql@ == "UPDATE users SET password_hash = ?1, must_change_password = 0 WHERE username = ?2"@,
        statement.params@.len() == 2,
        statement.params@[0]@ matches ParamView::Text(hash) && accepts(hash, password),
        statement.params@[1]@ == ParamView::Text(username),
{
}

/// A user is looked up by name.
pub proof fn law_user_query()
    ensures
        SELECT_USER@ == "SELECT password_hash, must_change_password FROM users WHERE username = ?1"@,
{
}

} // verus!
