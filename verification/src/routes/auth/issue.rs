//! The end that the sign-in handlers share: two signed tokens, their cookies, and the reply that
//! carries them.
use crate::cookies;
use crate::error::EmulatorError;
use crate::headers;
use crate::json::{member, number, object, text, Json, JsonView};
use crate::text;
use crate::types::{Reply, User};
use vstd::prelude::*;

verus! {

/// What has been done so far to issue tokens.
pub struct Issued {
    /// The signed session token, or the text of the failure to sign one.
    pub session_jwt: Option<Result<String, String>>,
    /// The signed refresh token, or the text of the failure to sign one.
    pub refresh_jwt: Option<Result<String, String>>,
    /// The user as replies show it, and the time in seconds since the epoch.
    pub user: Option<(Json, u64)>,
}

/// How long tokens last, in seconds.
#[derive(Debug, Clone, Copy, PartialEq, Eq, Structural)]
pub struct TokenTtl {
    pub session: u64,
    pub refresh: u64,
}

/// A claim that a token is to carry beside those that every token has.
#[derive(Debug, Clone, Copy, PartialEq, Eq)]
pub struct ExtraClaim<'a> {
    pub claim: &'static str,
    pub value: &'a str,
}

/// What is to be done next to issue tokens.
#[derive(Debug)]
pub enum TokenAsk<'a> {
    /// Sign a session token for the user, who signed in by the method `amr`, with one more claim or
    /// none.
    SignSession { user: &'a User, ttl: u64, amr: &'static str, extra: Option<ExtraClaim<'a>> },
    /// Sign a refresh token for the user with this id.
    SignRefresh { user_id: &'a str, ttl: u64 },
    /// Render the user as replies show it, and read the clock.
    RenderUser { user: &'a User },
}

/// Either more to be done, or the answer.
#[derive(Debug)]
pub enum IssueStep<'a> {
    Ask(TokenAsk<'a>),
    Done(Result<Reply, EmulatorError>),
}

/// The body of a reply with tokens.
pub open spec fn jwt_response(
    session_ttl: u64,
    now: u64,
    session_jwt: Seq<char>,
    refresh_jwt: Seq<char>,
    user: JsonView,
) -> JsonView {
    JsonView::Object(
        seq![
            ("sessionJwt"@, JsonView::Text(session_jwt)),
            ("refreshJwt"@, JsonView::Text(refresh_jwt)),
            ("cookieDomain"@, JsonView::Text(""@)),
            ("cookiePath"@, JsonView::Text("/"@)),
            ("cookieMaxAge"@, JsonView::Number(text::decimal(session_ttl as nat))),
            ("cookieExpiration"@, JsonView::Number(text::decimal((now + session_ttl) as nat))),
            ("firstSeen"@, JsonView::Bool(false)),
            ("user"@, user),
        ],
    )
}

/// Whether `reply` hands out these tokens: both cookies, and the body that shows the user.
pub open spec fn grants(
    reply: Reply,
    session_ttl: u64,
    now: u64,
    session_jwt: Seq<char>,
    refresh_jwt: Seq<char>,
    user: JsonView,
) -> bool {
    &&& headers::header_values(reply.headers) == cookies::auth_cookies(
        session_jwt,
        refresh_jwt,
        session_ttl,
    )
    &&& reply.body@ == jwt_response(session_ttl, now, session_jwt, refresh_jwt, user)
}

/// Whether what was done can be put into a reply: the tokens can stand in a header, and the time
/// at which the session cookie ends is a time.
pub open spec fn replyable(session_ttl: u64, issued: Issued) -> bool {
    &&& issued.session_jwt matches Some(Ok(jwt)) ==> headers::header_safe(jwt@)
    &&& issued.refresh_jwt matches Some(Ok(jwt)) ==> headers::header_safe(jwt@)
    &&& issued.user matches Some((_, now)) ==> now + session_ttl <= u64::MAX
}

/// Whether the claim names the tenant as the current one, in `dct`; without a tenant there is no
/// claim.
pub open spec fn names_tenant(extra: Option<ExtraClaim>, tenant: Option<Seq<char>>) -> bool {
    match (extra, tenant) {
        (Some(extra), Some(tenant)) => extra.claim@ == "dct"@ && extra.value@ == tenant,
        (None, None) => true,
        _ => false,
    }
}

/// What to ask for while a token or the rendered user is missing.
pub open spec fn asks_for(
    ttl: TokenTtl,
    user: User,
    tenant: Option<Seq<char>>,
    issued: Issued,
    ask: TokenAsk,
) -> bool {
    match ask {
        TokenAsk::SignSession { user: u, ttl: t, amr, extra } => {
            &&& issued.session_jwt is None
            &&& *u == user
            &&& t == ttl.session
            &&& amr@ == "pwd"@
            &&& names_tenant(extra, tenant)
        },
        TokenAsk::SignRefresh { user_id, ttl: t } => {
            &&& issued.session_jwt matches Some(Ok(_))
            &&& issued.refresh_jwt is None
            &&& user_id@ == user.user_id@
            &&& t == ttl.refresh
        },
        TokenAsk::RenderUser { user: u } => {
            &&& issued.session_jwt matches Some(Ok(_))
            &&& issued.refresh_jwt matches Some(Ok(_))
            &&& issued.user is None
            &&& *u == user
        },
    }
}

/// Whether both tokens were signed and the user was rendered.
pub open spec fn granted(issued: Issued) -> bool {
    &&& issued.session_jwt matches Some(Ok(_))
    &&& issued.refresh_jwt matches Some(Ok(_))
    &&& issued.user is Some
}

/// Which answer is due once nothing is missing: a token that could not be signed is an internal
/// error with the text of the failure, otherwise both tokens are handed out.
pub open spec fn issues(ttl: TokenTtl, issued: Issued, result: Result<Reply, EmulatorError>) -> bool {
    match (issued.session_jwt, issued.refresh_jwt, issued.user) {
        (Some(Err(message)), _, _) => result == Err::<Reply, EmulatorError>(
            EmulatorError::Internal(message),
        ),
        (Some(Ok(_)), Some(Err(message)), _) => result == Err::<Reply, EmulatorError>(
            EmulatorError::Internal(message),
        ),
        (Some(Ok(session_jwt)), Some(Ok(refresh_jwt)), Some((user, now))) => result matches Ok(
            reply,
        ) && grants(reply, ttl.session, now, session_jwt@, refresh_jwt@, user@),
        _ => false,
    }
}

/// Which step follows: sign the session token, sign the refresh token, render the user, reply.
pub open spec fn issue_is(
    ttl: TokenTtl,
    user: User,
    tenant: Option<Seq<char>>,
    issued: Issued,
    step: IssueStep,
) -> bool {
    match step {
        IssueStep::Ask(ask) => asks_for(ttl, user, tenant, issued, ask),
        IssueStep::Done(result) => issues(ttl, issued, result),
    }
}

/// The body of a reply with tokens.
pub fn build_jwt_response(
    session_ttl: u64,
    now: u64,
    session_jwt: &str,
    refresh_jwt: &str,
    user: Json,
) -> (r: Json)
    requires
        now + session_ttl <= u64::MAX,
    ensures
        r@ == jwt_response(session_ttl, now, session_jwt@, refresh_jwt@, user@),
{
    let r = object(
        vec![
            member("sessionJwt", text(session_jwt)),
            member("refreshJwt", text(refresh_jwt)),
            member("cookieDomain", text("")),
            member("cookiePath", text("/")),
            member("cookieMaxAge", number(session_ttl)),
            member("cookieExpiration", number(now + session_ttl)),
            member("firstSeen", Json::Bool(false)),
            member("user", user),
        ],
    );
    assert(r@->Object_0 =~= jwt_response(
        session_ttl,
        now,
        session_jwt@,
        refresh_jwt@,
        user@,
    )->Object_0);
    r
}

/// Whether what was done can be put into a reply.
pub fn is_replyable(session_ttl: u64, issued: &Issued) -> (r: bool)
    ensures
        r == replyable(session_ttl, *issued),
{
    let session_fits = match &issued.session_jwt {
        Some(Ok(jwt)) => headers::is_header_safe(jwt.as_str()),
        _ => true,
    };
    let refresh_fits = match &issued.refresh_jwt {
        Some(Ok(jwt)) => headers::is_header_safe(jwt.as_str()),
        _ => true,
    };
    let end_fits = match &issued.user {
        Some((_, now)) => *now <= u64::MAX - session_ttl,
        None => true,
    };
    session_fits && refresh_fits && end_fits
}

/// The next step to issue tokens.
pub fn issue<'a>(
    ttl: TokenTtl,
    user: &'a User,
    tenant: Option<&'a str>,
    issued: &Issued,
) -> (r: IssueStep<'a>)
    requires
        replyable(ttl.session, *issued),
    ensures
        issue_is(ttl, *user, text::shown_str(tenant), *issued, r),
{
    let session_jwt = match &issued.session_jwt {
        None => {
            let extra = match tenant {
                Some(tenant) => Some(ExtraClaim { claim: "dct", value: tenant }),
                None => None,
            };
            return IssueStep::Ask(
                TokenAsk::SignSession { user, ttl: ttl.session, amr: "pwd", extra },
            );
        },
        Some(Err(message)) => return IssueStep::Done(
            Err(EmulatorError::Internal(message.clone())),
        ),
        Some(Ok(session_jwt)) => session_jwt,
    };
    let refresh_jwt = match &issued.refresh_jwt {
        None => return IssueStep::Ask(
            TokenAsk::SignRefresh { user_id: user.user_id.as_str(), ttl: ttl.refresh },
        ),
        Some(Err(message)) => return IssueStep::Done(
            Err(EmulatorError::Internal(message.clone())),
        ),
        Some(Ok(refresh_jwt)) => refresh_jwt,
    };
    match &issued.user {
        None => IssueStep::Ask(TokenAsk::RenderUser { user }),
        Some((shown, now)) => {
            let headers = cookies::build_auth_cookies(
                session_jwt.as_str(),
                refresh_jwt.as_str(),
                ttl.session,
            );
            let body = build_jwt_response(
                ttl.session,
                *now,
                session_jwt.as_str(),
                refresh_jwt.as_str(),
                shown.clone(),
            );
            IssueStep::Done(Ok(Reply { headers, body }))
        },
    }
}

} // verus!
