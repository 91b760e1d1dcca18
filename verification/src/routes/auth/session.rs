//! What the holder of a token can do: refresh it, give it back, and ask who they are.
use crate::error::EmulatorError;
use crate::headers;
use crate::json::{array, member, object, text, Json, JsonView};
use crate::routes::auth::bearer;
use crate::routes::auth::issue::{self, issue, IssueStep, Issued, TokenAsk, TokenTtl};
use crate::routes::replies;
use crate::store::revocations;
use crate::text;
use crate::types::{Claims, Reply, User, UserTenant};
use axum::http::HeaderMap;
use vstd::prelude::*;

verus! {

/// The token of an `Authorization` header, where it looks like a JWT. A bare project id does not.
pub open spec fn bearer_jwt(authorization: Option<Seq<char>>) -> Option<Seq<char>> {
    match authorization {
        Some(value) => match text::stripped(value, "Bearer "@) {
            Some(credentials) => if bearer::bare_token(credentials).contains('.') {
                Some(bearer::bare_token(credentials))
            } else {
                None
            },
            None => None,
        },
        None => None,
    }
}

/// The value of the first `DSR` cookie in a `Cookie` header.
pub open spec fn dsr_cookie(cookies: Seq<char>) -> Option<Seq<char>>
    decreases cookies.len(),
{
    proof {
        text::lemma_position(cookies, ';');
    }
    match text::stripped(text::trimmed(text::before(cookies, ';')), "DSR="@) {
        Some(value) => Some(value),
        None => match text::behind(cookies, ';') {
            Some(rest) => dsr_cookie(rest),
            None => None,
        },
    }
}

/// The refresh token of a request: the one in the `Authorization` header, or else in the `DSR`
/// cookie, or else in the body.
pub open spec fn refresh_token(
    authorization: Option<Seq<char>>,
    cookies: Option<Seq<char>>,
    body_token: Option<Seq<char>>,
) -> Option<Seq<char>> {
    match bearer_jwt(authorization) {
        Some(token) => Some(token),
        None => match cookies {
            Some(cookies) => match dsr_cookie(cookies) {
                Some(token) => Some(token),
                None => body_token,
            },
            None => body_token,
        },
    }
}

/// The refresh token of a request with these headers and this token in its body.
pub open spec fn token_of(headers: HeaderMap, body_token: Option<Seq<char>>) -> Option<Seq<char>> {
    refresh_token(
        headers::first_text(headers::header_values(headers), "authorization"@),
        headers::first_text(headers::header_values(headers), "cookie"@),
        body_token,
    )
}

/// The value of the first `DSR` cookie in a `Cookie` header.
fn find_dsr_cookie(cookies: &str) -> (r: Option<String>)
    ensures
        text::shown(r) == dsr_cookie(cookies@),
{
    let mut rest: String = cookies.to_owned();
    loop
        invariant
            dsr_cookie(rest@) == dsr_cookie(cookies@),
        decreases rest@.len(),
    {
        let chars = text::to_chars(rest.as_str());
        let end = text::find(&chars, ';');
        proof {
            text::lemma_position(rest@, ';');
        }
        let part = text::from_chars(&chars, 0, end);
        assert(part@ =~= text::before(rest@, ';'));
        let trimmed = text::trim(part.as_str());
        if let Some(value) = text::strip_prefix(trimmed.as_str(), "DSR=") {
            return Some(value);
        }
        if end == chars.len() {
            return None;
        }
        let behind = text::from_chars(&chars, end + 1, chars.len());
        assert(behind@ =~= rest@.skip(end + 1));
        rest = behind;
    }
}

/// The refresh token of a request, from the texts of its `Authorization` and `Cookie` headers and
/// the token in its body.
///
/// The header may hold `projectId:token`, a bare token, or just a project id: the web SDK's
/// cookie-based refresh sends the project id alone and carries the token in the cookie.
pub fn find_refresh_jwt(
    authorization: &Option<String>,
    cookies: &Option<String>,
    body_token: Option<&str>,
) -> (r: Option<String>)
    ensures
        text::shown(r) == refresh_token(
            text::shown(*authorization),
            text::shown(*cookies),
            text::shown_str(body_token),
        ),
{
    if let Some(value) = authorization {
        if let Some(credentials) = text::strip_prefix(value.as_str(), "Bearer ") {
            let token = bearer::strip_project_id(credentials.as_str());
            if text::contains(token.as_str(), '.') {
                return Some(token);
            }
        }
    }
    if let Some(cookies) = cookies {
        if let Some(token) = find_dsr_cookie(cookies.as_str()) {
            return Some(token);
        }
    }
    match body_token {
        Some(token) => Some(token.to_owned()),
        None => None,
    }
}

/// The refresh token of a request with these headers and this token in its body.
pub fn extract_refresh_jwt(headers: &HeaderMap, body_token: Option<&str>) -> (r: Option<String>)
    ensures
        text::shown(r) == token_of(
            *headers,
            text::shown_str(body_token),
        ),
{
    proof {
        reveal_strlit("authorization");
        reveal_strlit("cookie");
    }
    let authorization = headers::header_text(headers, "authorization");
    let cookies = headers::header_text(headers, "cookie");
    find_refresh_jwt(&authorization, &cookies, body_token)
}

/// A request to refresh.
#[derive(Debug)]
pub struct RefreshRequest {
    pub refresh_jwt: Option<String>,
}

/// A request to log out.
#[derive(Debug)]
pub struct LogoutRequest {
    pub refresh_jwt: Option<String>,
}

/// A request to log out everywhere.
#[derive(Debug)]
pub struct LogoutAllRequest {
    pub refresh_jwt: Option<String>,
}

/// What is known so far of a refresh.
pub struct RefreshSeen {
    /// The request (nothing where it could not be parsed), or why it could not be read.
    pub body: Option<Result<Option<RefreshRequest>, String>>,
    /// Whether the token was given back.
    pub revoked: Option<bool>,
    /// What the token says, where it is valid.
    pub claims: Option<Result<Claims, EmulatorError>>,
    /// Since when the user's refresh tokens must have been issued, where the user logged out
    /// everywhere.
    pub boundary: Option<Option<u64>>,
    /// The user who holds the token.
    pub user: Option<Result<User, EmulatorError>>,
    pub issued: Issued,
}

/// What a refresh does next.
#[derive(Debug)]
pub enum RefreshStep<'a> {
    /// Read the request's body and parse it.
    ReadBody,
    /// Tell whether this token was given back.
    CheckRevoked(String),
    /// Validate this refresh token.
    ValidateRefresh(String),
    /// Read the boundary of the refresh tokens of the user with this id.
    ReadBoundary(&'a str),
    /// Load the user with this id.
    LoadUser(&'a str),
    Tokens(TokenAsk<'a>),
    Respond(Result<Reply, EmulatorError>),
}

/// The token of a request whose body names one, or does not.
pub open spec fn refresh_body_token(body: Option<RefreshRequest>) -> Option<Seq<char>> {
    match body {
        Some(req) => text::shown(req.refresh_jwt),
        None => None,
    }
}

/// Which step of a refresh follows: reading the body, finding the token, which must not have been
/// given back, must be valid and not older than the user's logout from everywhere, loading the
/// user, who must not be disabled, the tokens, and the reply. The first failure is the answer.
pub open spec fn refresh_is(
    headers: HeaderMap,
    ttl: TokenTtl,
    seen: RefreshSeen,
    step: RefreshStep,
) -> bool {
    match seen.body {
        None => step is ReadBody,
        Some(Err(message)) => step == RefreshStep::Respond(Err(EmulatorError::Internal(message))),
        Some(Ok(body)) => match token_of(headers, refresh_body_token(body)) {
            None => step == RefreshStep::Respond(Err(EmulatorError::Unauthorized)),
            Some(token) => match seen.revoked {
                None => step matches RefreshStep::CheckRevoked(t) && t@ == token,
                Some(true) => step == RefreshStep::Respond(Err(EmulatorError::TokenExpired)),
                Some(false) => match seen.claims {
                    None => step matches RefreshStep::ValidateRefresh(t) && t@ == token,
                    Some(Err(e)) => step == RefreshStep::Respond(Err(e)),
                    Some(Ok(claims)) => refreshes(claims, ttl, seen, step),
                },
            },
        },
    }
}

/// Which step of a refresh follows once the token was found valid.
pub open spec fn refreshes(
    claims: Claims,
    ttl: TokenTtl,
    seen: RefreshSeen,
    step: RefreshStep,
) -> bool {
    match seen.boundary {
        None => step matches RefreshStep::ReadBoundary(user_id) && user_id@ == claims.sub@,
        Some(boundary) => if revocations::taken_back(boundary, claims.iat) {
            step == RefreshStep::Respond(Err(EmulatorError::TokenExpired))
        } else {
            match seen.user {
                None => step matches RefreshStep::LoadUser(user_id) && user_id@ == claims.sub@,
                Some(Err(e)) => step == RefreshStep::Respond(Err(e)),
                Some(Ok(user)) => if user.status@ == "disabled"@ {
                    step == RefreshStep::Respond(Err(EmulatorError::UserDisabled))
                } else {
                    match step {
                        RefreshStep::Tokens(ask) => issue::asks_for(
                            ttl,
                            user,
                            None,
                            seen.issued,
                            ask,
                        ),
                        RefreshStep::Respond(result) => issue::issues(ttl, seen.issued, result),
                        _ => false,
                    }
                },
            }
        },
    }
}

/// The next step of a refresh.
pub fn refresh<'a>(headers: &HeaderMap, ttl: TokenTtl, seen: &'a RefreshSeen) -> (r: RefreshStep<
    'a,
>)
    requires
        issue::replyable(ttl.session, seen.issued),
    ensures
        refresh_is(*headers, ttl, *seen, r),
{
    let body_token = match &seen.body {
        None => return RefreshStep::ReadBody,
        Some(Err(message)) => return RefreshStep::Respond(
            Err(EmulatorError::Internal(message.clone())),
        ),
        Some(Ok(Some(RefreshRequest { refresh_jwt: Some(token) }))) => Some(token.as_str()),
        Some(Ok(_)) => None,
    };
    let token = match extract_refresh_jwt(headers, body_token) {
        None => return RefreshStep::Respond(Err(EmulatorError::Unauthorized)),
        Some(token) => token,
    };
    match &seen.revoked {
        None => return RefreshStep::CheckRevoked(token),
        Some(revoked) => if *revoked {
            return RefreshStep::Respond(Err(EmulatorError::TokenExpired));
        },
    }
    let claims = match &seen.claims {
        None => return RefreshStep::ValidateRefresh(token),
        Some(Err(e)) => return RefreshStep::Respond(Err(e.clone())),
        Some(Ok(claims)) => claims,
    };
    match &seen.boundary {
        None => return RefreshStep::ReadBoundary(claims.sub.as_str()),
        Some(boundary) => if revocations::is_taken_back(*boundary, claims.iat) {
            return RefreshStep::Respond(Err(EmulatorError::TokenExpired));
        },
    }
    let user = match &seen.user {
        None => return RefreshStep::LoadUser(claims.sub.as_str()),
        Some(Err(e)) => return RefreshStep::Respond(Err(e.clone())),
        Some(Ok(user)) => user,
    };
    if text::same(user.status.as_str(), "disabled") {
        return RefreshStep::Respond(Err(EmulatorError::UserDisabled));
    }
    match issue(ttl, user, None, &seen.issued) {
        IssueStep::Ask(ask) => RefreshStep::Tokens(ask),
        IssueStep::Done(result) => RefreshStep::Respond(result),
    }
}

/// What is known so far of a logout.
pub struct LogoutSeen {
    /// The request (nothing where it could not be parsed), or why it could not be read.
    pub body: Option<Result<Option<LogoutRequest>, String>>,
    /// What the token says, where it is valid.
    pub claims: Option<Result<Claims, EmulatorError>>,
    /// Whether the token was taken back.
    pub revoked: bool,
}

/// What a logout does next.
#[derive(Debug)]
pub enum LogoutStep {
    /// Read the request's body and parse it.
    ReadBody,
    /// Validate this refresh token.
    ValidateRefresh(String),
    /// Take this token back.
    Revoke(String),
    Respond(Result<Json, EmulatorError>),
}

/// The token of a request whose body names one, or does not.
pub open spec fn logout_body_token(body: Option<LogoutRequest>) -> Option<Seq<char>> {
    match body {
        Some(req) => text::shown(req.refresh_jwt),
        None => None,
    }
}

/// Which step of a logout follows: reading the body, finding the token, which must be valid,
/// taking it back, and the reply. The first failure is the answer.
pub open spec fn logout_is(headers: HeaderMap, seen: LogoutSeen, step: LogoutStep) -> bool {
    match seen.body {
        None => step is ReadBody,
        Some(Err(message)) => step == LogoutStep::Respond(Err(EmulatorError::Internal(message))),
        Some(Ok(body)) => match token_of(headers, logout_body_token(body)) {
            None => step == LogoutStep::Respond(Err(EmulatorError::Unauthorized)),
            Some(token) => match seen.claims {
                None => step matches LogoutStep::ValidateRefresh(t) && t@ == token,
                Some(Err(e)) => step == LogoutStep::Respond(Err(e)),
                Some(Ok(_)) => if !seen.revoked {
                    step matches LogoutStep::Revoke(t) && t@ == token
                } else {
                    step matches LogoutStep::Respond(Ok(body)) && body@ == replies::all_well()
                },
            },
        },
    }
}

/// The next step of a logout.
pub fn logout(headers: &HeaderMap, seen: &LogoutSeen) -> (r: LogoutStep)
    ensures
        logout_is(*headers, *seen, r),
{
    let body_token = match &seen.body {
        None => return LogoutStep::ReadBody,
        Some(Err(message)) => return LogoutStep::Respond(
            Err(EmulatorError::Internal(message.clone())),
        ),
        Some(Ok(Some(LogoutRequest { refresh_jwt: Some(token) }))) => Some(token.as_str()),
        Some(Ok(_)) => None,
    };
    let token = match extract_refresh_jwt(headers, body_token) {
        None => return LogoutStep::Respond(Err(EmulatorError::Unauthorized)),
        Some(token) => token,
    };
    match &seen.claims {
        None => LogoutStep::ValidateRefresh(token),
        Some(Err(e)) => LogoutStep::Respond(Err(e.clone())),
        Some(Ok(_)) => if !seen.revoked {
            LogoutStep::Revoke(token)
        } else {
            LogoutStep::Respond(Ok(replies::ok_reply()))
        },
    }
}

/// What is known so far of a logout from everywhere.
pub struct LogoutAllSeen {
    /// The request (nothing where it could not be parsed), or why it could not be read.
    pub body: Option<Result<Option<LogoutAllRequest>, String>>,
    /// What the token says, where it is valid.
    pub claims: Option<Result<Claims, EmulatorError>>,
    /// Whether the token was taken back.
    pub revoked: bool,
    /// Whether the user's session tokens older than the token were taken back.
    pub sessions_raised: bool,
    /// The time at which the user's refresh tokens were taken back.
    pub raised_at: Option<u64>,
}

/// What a logout from everywhere does next.
#[derive(Debug)]
pub enum LogoutAllStep<'a> {
    /// Read the request's body and parse it.
    ReadBody,
    /// Validate this refresh token.
    ValidateRefresh(String),
    /// Take this token back.
    Revoke(String),
    /// Take back the session tokens of this user that were issued before `revoked_at`.
    RaiseSessions { user_id: &'a str, revoked_at: u64 },
    /// Take back the refresh tokens of this user that were issued before `revoked_at`.
    RaiseRefresh { user_id: &'a str, revoked_at: u64 },
    /// Wait for the clock to reach this time.
    Wait { until: u64 },
    Respond(Result<Json, EmulatorError>),
}

/// The token of a request whose body names one, or does not.
pub open spec fn logout_all_body_token(body: Option<LogoutAllRequest>) -> Option<Seq<char>> {
    match body {
        Some(req) => text::shown(req.refresh_jwt),
        None => None,
    }
}

/// Which step of a logout from everywhere follows: reading the body, finding the token, which
/// must be valid, taking it back, taking back the user's session tokens older than it, taking back
/// all the user's refresh tokens issued so far, and the reply, once the second in which that was
/// done is over: a token issued after the reply then is younger than all that were taken back.
pub open spec fn logout_all_is(
    headers: HeaderMap,
    now: u64,
    seen: LogoutAllSeen,
    step: LogoutAllStep,
) -> bool {
    match seen.body {
        None => step is ReadBody,
        Some(Err(message)) => step == LogoutAllStep::Respond(
            Err(EmulatorError::Internal(message)),
        ),
        Some(Ok(body)) => match token_of(headers, logout_all_body_token(body)) {
            None => step == LogoutAllStep::Respond(Err(EmulatorError::Unauthorized)),
            Some(token) => match seen.claims {
                None => step matches LogoutAllStep::ValidateRefresh(t) && t@ == token,
                Some(Err(e)) => step == LogoutAllStep::Respond(Err(e)),
                Some(Ok(claims)) => if !seen.revoked {
                    step matches LogoutAllStep::Revoke(t) && t@ == token
                } else if !seen.sessions_raised {
                    step matches LogoutAllStep::RaiseSessions { user_id, revoked_at } && user_id@
                        == claims.sub@ && revoked_at == claims.iat
                } else {
                    match seen.raised_at {
                        None => step matches LogoutAllStep::RaiseRefresh { user_id, revoked_at }
                            && user_id@ == claims.sub@ && revoked_at == revocations::end_of_issue(
                            now,
                            claims.iat,
                        ),
                        Some(raised_at) => if now < revocations::next_second(raised_at) {
                            step matches LogoutAllStep::Wait { until } && until
                                == revocations::next_second(raised_at)
                        } else {
                            step matches LogoutAllStep::Respond(Ok(body)) && body@
                                == replies::all_well()
                        },
                    }
                },
            },
        },
    }
}

/// The next step of a logout from everywhere, at the time `now` in seconds since the epoch.
///
/// Every refresh token of the user issued so far is taken back, not only the one presented; of the
/// session tokens, those older than the one presented. Times are whole seconds, so the reply waits
/// until no token can be issued any more in the second in which that was done.
pub fn logout_all<'a>(headers: &HeaderMap, now: u64, seen: &'a LogoutAllSeen) -> (r: LogoutAllStep<
    'a,
>)
    ensures
        logout_all_is(*headers, now, *seen, r),
{
    let body_token = match &seen.body {
        None => return LogoutAllStep::ReadBody,
        Some(Err(message)) => return LogoutAllStep::Respond(
            Err(EmulatorError::Internal(message.clone())),
        ),
        Some(Ok(Some(LogoutAllRequest { refresh_jwt: Some(token) }))) => Some(token.as_str()),
        Some(Ok(_)) => None,
    };
    let token = match extract_refresh_jwt(headers, body_token) {
        None => return LogoutAllStep::Respond(Err(EmulatorError::Unauthorized)),
        Some(token) => token,
    };
    match &seen.claims {
        None => LogoutAllStep::ValidateRefresh(token),
        Some(Err(e)) => LogoutAllStep::Respond(Err(e.clone())),
        Some(Ok(claims)) => if !seen.revoked {
            LogoutAllStep::Revoke(token)
        } else if !seen.sessions_raised {
            LogoutAllStep::RaiseSessions { user_id: claims.sub.as_str(), revoked_at: claims.iat }
        } else {
            match &seen.raised_at {
                None => LogoutAllStep::RaiseRefresh {
                    user_id: claims.sub.as_str(),
                    revoked_at: revocations::after_last_issue(now, claims.iat),
                },
                Some(raised_at) => {
                    let until: u64 = raised_at.saturating_add(1);
                    if now < until {
                        LogoutAllStep::Wait { until }
                    } else {
                        LogoutAllStep::Respond(Ok(replies::ok_reply()))
                    }
                },
            }
        },
    }
}

/// What is known so far of a question who the holder is.
pub struct MeSeen {
    /// Whether the token was given back.
    pub revoked: Option<bool>,
    /// What the token says, where it is a valid session token.
    pub session: Option<Option<Claims>>,
    /// What the token says, where it is a valid refresh token.
    pub refresh: Option<Result<Claims, EmulatorError>>,
    /// Since when the user's refresh tokens must have been issued, where the user logged out
    /// everywhere.
    pub boundary: Option<Option<u64>>,
    /// The user who holds the token.
    pub user: Option<Result<User, EmulatorError>>,
    /// The user as replies show it, or the text of the failure to render it.
    pub rendered: Option<Result<Json, String>>,
}

/// What a question who the holder is does next.
#[derive(Debug)]
pub enum MeStep<'a> {
    /// Tell whether this token was given back.
    CheckRevoked(String),
    /// Validate this session token.
    ValidateSession(String),
    /// Validate this refresh token.
    ValidateRefresh(String),
    /// Read the boundary of the refresh tokens of the user with this id.
    ReadBoundary(&'a str),
    /// Load the user with this id.
    LoadUser(&'a str),
    /// Render the user as replies show it.
    RenderUser(&'a User),
    Respond(Result<Json, EmulatorError>),
}

/// Which step follows: finding the token, which must not have been given back and must be a valid
/// session token or else a valid refresh token that is not older than the user's logout from
/// everywhere, loading the user, and the reply, which is the user itself.
pub open spec fn me_is(headers: HeaderMap, seen: MeSeen, step: MeStep) -> bool {
    match token_of(headers, None) {
        None => step == MeStep::Respond(Err(EmulatorError::Unauthorized)),
        Some(token) => match seen.revoked {
            None => step matches MeStep::CheckRevoked(t) && t@ == token,
            Some(true) => step == MeStep::Respond(Err(EmulatorError::TokenExpired)),
            Some(false) => match seen.session {
                None => step matches MeStep::ValidateSession(t) && t@ == token,
                Some(Some(claims)) => shows_user(claims, seen, step),
                Some(None) => match seen.refresh {
                    None => step matches MeStep::ValidateRefresh(t) && t@ == token,
                    Some(Err(e)) => step == MeStep::Respond(Err(e)),
                    Some(Ok(claims)) => match seen.boundary {
                        None => step matches MeStep::ReadBoundary(user_id) && user_id@
                            == claims.sub@,
                        Some(boundary) => if revocations::taken_back(boundary, claims.iat) {
                            step == MeStep::Respond(Err(EmulatorError::TokenExpired))
                        } else {
                            shows_user(claims, seen, step)
                        },
                    },
                },
            },
        },
    }
}

/// Which step follows once the token was found valid.
pub open spec fn shows_user(claims: Claims, seen: MeSeen, step: MeStep) -> bool {
    match seen.user {
        None => step matches MeStep::LoadUser(user_id) && user_id@ == claims.sub@,
        Some(Err(e)) => step == MeStep::Respond(Err(e)),
        Some(Ok(user)) => match seen.rendered {
            None => step matches MeStep::RenderUser(u) && *u == user,
            Some(Err(message)) => step == MeStep::Respond(Err(EmulatorError::Internal(message))),
            Some(Ok(rendered)) => step matches MeStep::Respond(Ok(body)) && body@ == rendered@,
        },
    }
}

/// The next step of a question who the holder is.
///
/// Both kinds of token are accepted. The user is returned directly, not under a key of its own:
/// web apps read `user.email` straight off the reply.
pub fn me<'a>(headers: &HeaderMap, seen: &'a MeSeen) -> (r: MeStep<'a>)
    ensures
        me_is(*headers, *seen, r),
{
    let token = match extract_refresh_jwt(headers, None) {
        None => return MeStep::Respond(Err(EmulatorError::Unauthorized)),
        Some(token) => token,
    };
    match &seen.revoked {
        None => return MeStep::CheckRevoked(token),
        Some(revoked) => if *revoked {
            return MeStep::Respond(Err(EmulatorError::TokenExpired));
        },
    }
    let claims = match &seen.session {
        None => return MeStep::ValidateSession(token),
        Some(Some(claims)) => claims,
        Some(None) => match &seen.refresh {
            None => return MeStep::ValidateRefresh(token),
            Some(Err(e)) => return MeStep::Respond(Err(e.clone())),
            Some(Ok(claims)) => {
                match &seen.boundary {
                    None => return MeStep::ReadBoundary(claims.sub.as_str()),
                    Some(boundary) => if revocations::is_taken_back(*boundary, claims.iat) {
                        return MeStep::Respond(Err(EmulatorError::TokenExpired));
                    },
                }
                claims
            },
        },
    };
    let user = match &seen.user {
        None => return MeStep::LoadUser(claims.sub.as_str()),
        Some(Err(e)) => return MeStep::Respond(Err(e.clone())),
        Some(Ok(user)) => user,
    };
    match &seen.rendered {
        None => MeStep::RenderUser(user),
        Some(Err(message)) => MeStep::Respond(Err(EmulatorError::Internal(message.clone()))),
        Some(Ok(rendered)) => MeStep::Respond(Ok(rendered.clone())),
    }
}

/// A request to validate a session token.
#[derive(Debug)]
pub struct ValidateRequest {
    pub session_jwt: String,
}

/// What is known so far of a validation.
pub struct ValidateSeen {
    /// What the token says, where it is valid.
    pub claims: Option<Result<Claims, EmulatorError>>,
    /// Since when the user's session tokens must have been issued, where the user logged out
    /// everywhere.
    pub boundary: Option<Option<u64>>,
    /// All that the token says, or the text of the failure to render it.
    pub rendered: Option<Result<Json, String>>,
}

/// What a validation does next.
#[derive(Debug)]
pub enum ValidateStep<'a> {
    /// Validate this session token.
    ValidateSession(&'a str),
    /// Read the boundary of the session tokens of the user with this id.
    ReadSessionBoundary(&'a str),
    /// Render all that the token says.
    RenderClaims,
    Respond(Result<Json, EmulatorError>),
}

/// The reply to a request to validate a token.
pub open spec fn validated(session_jwt: Seq<char>, claims: JsonView) -> JsonView {
    JsonView::Object(
        seq![
            ("jwt"@, JsonView::Text(session_jwt)),
            ("token"@, claims),
            ("cookies"@, JsonView::Array(seq![])),
        ],
    )
}

/// Which step of a validation follows: validating the token, which must not be older than the
/// token that the user logged out everywhere with, rendering what it says, and the reply.
pub open spec fn validate_is(req: ValidateRequest, seen: ValidateSeen, step: ValidateStep) -> bool {
    match seen.claims {
        None => step matches ValidateStep::ValidateSession(token) && token@ == req.session_jwt@,
        Some(Err(e)) => step == ValidateStep::Respond(Err(e)),
        Some(Ok(claims)) => match seen.boundary {
            None => step matches ValidateStep::ReadSessionBoundary(user_id) && user_id@ == claims.sub@,
            Some(boundary) => if revocations::taken_back(boundary, claims.iat) {
                step == ValidateStep::Respond(Err(EmulatorError::TokenExpired))
            } else {
                match seen.rendered {
                    None => step is RenderClaims,
                    Some(Err(message)) => step == ValidateStep::Respond(
                        Err(EmulatorError::Internal(message)),
                    ),
                    Some(Ok(rendered)) => step matches ValidateStep::Respond(Ok(body)) && body@
                        == validated(req.session_jwt@, rendered@),
                }
            },
        },
    }
}

/// The next step of a validation.
pub fn validate<'a>(req: &'a ValidateRequest, seen: &'a ValidateSeen) -> (r: ValidateStep<'a>)
    ensures
        validate_is(*req, *seen, r),
{
    let claims = match &seen.claims {
        None => return ValidateStep::ValidateSession(req.session_jwt.as_str()),
        Some(Err(e)) => return ValidateStep::Respond(Err(e.clone())),
        Some(Ok(claims)) => claims,
    };
    match &seen.boundary {
        None => return ValidateStep::ReadSessionBoundary(claims.sub.as_str()),
        Some(boundary) => if revocations::is_taken_back(*boundary, claims.iat) {
            return ValidateStep::Respond(Err(EmulatorError::TokenExpired));
        },
    }
    match &seen.rendered {
        None => ValidateStep::RenderClaims,
        Some(Err(message)) => ValidateStep::Respond(Err(EmulatorError::Internal(message.clone()))),
        Some(Ok(rendered)) => {
            let body = object(
                vec![
                    member("jwt", text(req.session_jwt.as_str())),
                    member("token", rendered.clone()),
                    member("cookies", array(Vec::new())),
                ],
            );
            assert(body@->Object_0[2].1->Array_0 =~= seq![]);
            assert(body@->Object_0 =~= validated(req.session_jwt@, rendered@)->Object_0);
            ValidateStep::Respond(Ok(body))
        },
    }
}

/// The login history of a user, which is empty.
pub open spec fn no_history() -> JsonView {
    JsonView::Object(seq![("history"@, JsonView::Array(seq![]))])
}

/// The login history: empty, the emulator keeps none.
pub fn me_history() -> (r: Json)
    ensures
        r@ == no_history(),
{
    let r = object(vec![member("history", array(Vec::new()))]);
    assert(r@->Object_0[0].1->Array_0 =~= seq![]);
    assert(r@->Object_0 =~= no_history()->Object_0);
    r
}

/// A request to select a tenant.
#[derive(Debug)]
pub struct TenantSelectRequest {
    pub tenant: String,
}

/// What is known so far of the selection of a tenant.
pub struct TenantSelectSeen {
    /// Whether the token was given back.
    pub revoked: Option<bool>,
    /// The request (nothing where it could not be parsed), or why it could not be read.
    pub body: Option<Result<Option<TenantSelectRequest>, String>>,
    /// What the token says, where it is valid.
    pub claims: Option<Result<Claims, EmulatorError>>,
    /// Since when the user's refresh tokens must have been issued, where the user logged out
    /// everywhere.
    pub boundary: Option<Option<u64>>,
    /// The user who holds the token.
    pub user: Option<Result<User, EmulatorError>>,
    /// Whether the tenant exists.
    pub tenant_exists: Option<bool>,
    pub issued: Issued,
}

/// What the selection of a tenant does next.
#[derive(Debug)]
pub enum TenantSelectStep<'a> {
    /// Tell whether this token was given back.
    CheckRevoked(String),
    /// Read the request's body and parse it.
    ReadBody,
    /// Validate this refresh token.
    ValidateRefresh(String),
    /// Read the boundary of the refresh tokens of the user with this id.
    ReadBoundary(&'a str),
    /// Load the user with this id.
    LoadUser(&'a str),
    /// Tell whether this tenant exists.
    CheckTenant(&'a str),
    Tokens(TokenAsk<'a>),
    Respond(Result<Reply, EmulatorError>),
}

/// Whether the user is a member of the tenant.
pub open spec fn belongs_to(user: User, tenant: Seq<char>) -> bool {
    exists|i: int|
        0 <= i < user.user_tenants@.len() && (#[trigger] user.user_tenants@[i]).tenant_id@
            == tenant
}

/// Whether one of these memberships is in the tenant.
fn any_in_tenant(memberships: &Vec<UserTenant>, tenant: &str) -> (r: bool)
    ensures
        r == exists|i: int|
            0 <= i < memberships@.len() && (#[trigger] memberships@[i]).tenant_id@ == tenant@,
{
    let mut i: usize = 0;
    while i < memberships.len()
        invariant
            i <= memberships@.len(),
            forall|j: int| 0 <= j < i ==> (#[trigger] memberships@[j]).tenant_id@ != tenant@,
        decreases memberships@.len() - i,
    {
        if text::same(memberships[i].tenant_id.as_str(), tenant) {
            return true;
        }
        i += 1;
    }
    false
}

/// Which step of the selection of a tenant follows: finding the token, which must not have been
/// given back, reading the body, validating the token, which must not be older than the user's
/// logout from everywhere, loading the user, who must be a member of the tenant, which must exist,
/// and must not be disabled, the tokens, which name the tenant, and the reply. The first failure
/// is the answer.
pub open spec fn tenant_select_is(
    headers: HeaderMap,
    ttl: TokenTtl,
    seen: TenantSelectSeen,
    step: TenantSelectStep,
) -> bool {
    match token_of(headers, None) {
        None => step == TenantSelectStep::Respond(Err(EmulatorError::Unauthorized)),
        Some(token) => match seen.revoked {
            None => step matches TenantSelectStep::CheckRevoked(t) && t@ == token,
            Some(true) => step == TenantSelectStep::Respond(Err(EmulatorError::TokenExpired)),
            Some(false) => match seen.body {
                None => step is ReadBody,
                Some(Err(message)) => step == TenantSelectStep::Respond(
                    Err(EmulatorError::Internal(message)),
                ),
                Some(Ok(None)) => step == TenantSelectStep::Respond(
                    Err(EmulatorError::Unauthorized),
                ),
                Some(Ok(Some(body))) => match seen.claims {
                    None => step matches TenantSelectStep::ValidateRefresh(t) && t@ == token,
                    Some(Err(e)) => step == TenantSelectStep::Respond(Err(e)),
                    Some(Ok(claims)) => match seen.boundary {
                        None => step matches TenantSelectStep::ReadBoundary(user_id) && user_id@
                            == claims.sub@,
                        Some(boundary) => if revocations::taken_back(boundary, claims.iat) {
                            step == TenantSelectStep::Respond(Err(EmulatorError::TokenExpired))
                        } else {
                            selects(body, claims, ttl, seen, step)
                        },
                    },
                },
            },
        },
    }
}

/// Which step of the selection of a tenant follows once the token was found valid.
pub open spec fn selects(
    body: TenantSelectRequest,
    claims: Claims,
    ttl: TokenTtl,
    seen: TenantSelectSeen,
    step: TenantSelectStep,
) -> bool {
    match seen.user {
        None => step matches TenantSelectStep::LoadUser(user_id) && user_id@ == claims.sub@,
        Some(Err(e)) => step == TenantSelectStep::Respond(Err(e)),
        Some(Ok(user)) => if !belongs_to(user, body.tenant@) {
            step == TenantSelectStep::Respond(Err(EmulatorError::TenantNotFound))
        } else {
            match seen.tenant_exists {
                None => step matches TenantSelectStep::CheckTenant(tenant) && tenant@
                    == body.tenant@,
                Some(false) => step == TenantSelectStep::Respond(
                    Err(EmulatorError::TenantNotFound),
                ),
                Some(true) => if user.status@ == "disabled"@ {
                    step == TenantSelectStep::Respond(Err(EmulatorError::UserDisabled))
                } else {
                    match step {
                        TenantSelectStep::Tokens(ask) => issue::asks_for(
                            ttl,
                            user,
                            Some(body.tenant@),
                            seen.issued,
                            ask,
                        ),
                        TenantSelectStep::Respond(result) => issue::issues(
                            ttl,
                            seen.issued,
                            result,
                        ),
                        _ => false,
                    }
                },
            }
        },
    }
}

/// The next step of the selection of a tenant.
pub fn tenant_select<'a>(
    headers: &HeaderMap,
    ttl: TokenTtl,
    seen: &'a TenantSelectSeen,
) -> (r: TenantSelectStep<'a>)
    requires
        issue::replyable(ttl.session, seen.issued),
    ensures
        tenant_select_is(*headers, ttl, *seen, r),
{
    let token = match extract_refresh_jwt(headers, None) {
        None => return TenantSelectStep::Respond(Err(EmulatorError::Unauthorized)),
        Some(token) => token,
    };
    match &seen.revoked {
        None => return TenantSelectStep::CheckRevoked(token),
        Some(revoked) => if *revoked {
            return TenantSelectStep::Respond(Err(EmulatorError::TokenExpired));
        },
    }
    let body = match &seen.body {
        None => return TenantSelectStep::ReadBody,
        Some(Err(message)) => return TenantSelectStep::Respond(
            Err(EmulatorError::Internal(message.clone())),
        ),
        Some(Ok(None)) => return TenantSelectStep::Respond(Err(EmulatorError::Unauthorized)),
        Some(Ok(Some(body))) => body,
    };
    let claims = match &seen.claims {
        None => return TenantSelectStep::ValidateRefresh(token),
        Some(Err(e)) => return TenantSelectStep::Respond(Err(e.clone())),
        Some(Ok(claims)) => claims,
    };
    match &seen.boundary {
        None => return TenantSelectStep::ReadBoundary(claims.sub.as_str()),
        Some(boundary) => if revocations::is_taken_back(*boundary, claims.iat) {
            return TenantSelectStep::Respond(Err(EmulatorError::TokenExpired));
        },
    }
    let user = match &seen.user {
        None => return TenantSelectStep::LoadUser(claims.sub.as_str()),
        Some(Err(e)) => return TenantSelectStep::Respond(Err(e.clone())),
        Some(Ok(user)) => user,
    };
    if !any_in_tenant(&user.user_tenants, body.tenant.as_str()) {
        return TenantSelectStep::Respond(Err(EmulatorError::TenantNotFound));
    }
    match &seen.tenant_exists {
        None => return TenantSelectStep::CheckTenant(body.tenant.as_str()),
        Some(exists) => if !*exists {
            return TenantSelectStep::Respond(Err(EmulatorError::TenantNotFound));
        },
    }
    if text::same(user.status.as_str(), "disabled") {
        return TenantSelectStep::Respond(Err(EmulatorError::UserDisabled));
    }
    match issue(ttl, user, Some(body.tenant.as_str()), &seen.issued) {
        IssueStep::Ask(ask) => TenantSelectStep::Tokens(ask),
        IssueStep::Done(result) => TenantSelectStep::Respond(result),
    }
}

} // verus!
