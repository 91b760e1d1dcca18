//! Where the session handlers find their token, what each asks for, in which order, and what it
//! answers.
use crate::error::EmulatorError;
use crate::headers;
use crate::json::{self, JsonView};
use crate::routes::auth::bearer;
use crate::routes::auth::issue::TokenTtl;
use crate::routes::auth::session::{
    self, LogoutAllSeen, LogoutAllStep, LogoutSeen, LogoutStep, MeSeen, MeStep, RefreshSeen,
    RefreshStep, TenantSelectSeen, TenantSelectStep, ValidateRequest, ValidateSeen, ValidateStep,
};
use crate::routes::auth::token_laws;
use crate::text;
use crate::types::{Claims, User};
use axum::http::HeaderMap;
use vstd::prelude::*;

verus! {

/// These cookies, each ended by a semicolon.
pub open spec fn cookie_run(cookies: Seq<Seq<char>>) -> Seq<char>
    decreases cookies.len(),
{
    if cookies.len() == 0 {
        Seq::empty()
    } else {
        cookies[0] + seq![';'] + cookie_run(cookies.drop_first())
    }
}

/// Whether this is a cookie, and not the refresh cookie.
pub open spec fn other_cookie(cookie: Seq<char>) -> bool {
    !cookie.contains(';') && !"DSR="@.is_prefix_of(text::trimmed(cookie))
}

/// What comes behind a run of other cookies decides.
proof fn lemma_other_cookies(cookies: Seq<Seq<char>>, rest: Seq<char>)
    requires
        forall|i: int| 0 <= i < cookies.len() ==> other_cookie(#[trigger] cookies[i]),
    ensures
        session::dsr_cookie(cookie_run(cookies) + rest) == session::dsr_cookie(rest),
    decreases cookies.len(),
{
    if cookies.len() == 0 {
        assert(cookie_run(cookies) + rest =~= rest);
    } else {
        let more = cookies.drop_first();
        let behind = cookie_run(more) + rest;
        assert(other_cookie(cookies[0]));
        assert forall|i: int| 0 <= i < more.len() implies other_cookie(#[trigger] more[i]) by {
            assert(more[i] == cookies[i + 1]);
        }
        assert(cookie_run(cookies) + rest =~= cookies[0] + seq![';'] + behind);
        text::law_split_at_first(cookies[0], ';', behind);
        lemma_other_cookies(more, rest);
    }
}

/// The refresh cookie is found wherever it stands among the cookies, behind any number of others
/// and before any others, with white space around it or without, and gives the token in it; where
/// there is none among them, the token of the body is used, and so it is without any cookies.
pub proof fn law_refresh_cookie_is_found_anywhere(
    others: Seq<Seq<char>>,
    lead: Seq<char>,
    token: Seq<char>,
    trail: Seq<char>,
    tail: Seq<char>,
    last: Seq<char>,
    body_token: Option<Seq<char>>,
)
    requires
        forall|i: int| 0 <= i < others.len() ==> other_cookie(#[trigger] others[i]),
        forall|i: int| 0 <= i < lead.len() ==> text::is_space(#[trigger] lead[i]),
        forall|i: int| 0 <= i < trail.len() ==> text::is_space(#[trigger] trail[i]),
        token.len() > 0 ==> !text::is_space(token[0]) && !text::is_space(token.last()),
        !token.contains(';'),
        tail.len() == 0 || tail[0] == ';',
        other_cookie(last),
    ensures
        session::refresh_token(
            None,
            Some(cookie_run(others) + (lead + ("DSR="@ + token) + trail + tail)),
            body_token,
        ) == Some(token),
        session::refresh_token(None, Some(cookie_run(others) + last), body_token) == body_token,
        session::refresh_token(None, None, body_token) == body_token,
{
    reveal_strlit("DSR=");
    let core = "DSR="@ + token;
    let cookie = lead + core + trail;
    let rest = cookie + tail;
    lemma_other_cookies(others, rest);
    lemma_other_cookies(others, last);
    assert(!cookie.contains(';')) by {
        if cookie.contains(';') {
            let i = choose|i: int| 0 <= i < cookie.len() && cookie[i] == ';';
            let n = lead.len() as int;
            if i < n {
                assert(text::is_space(lead[i]));
            } else if i < n + 4 {
                assert(cookie[i] == "DSR="@[i - n]);
            } else if i < n + 4 + token.len() {
                assert(token[i - n - 4] == ';');
            } else {
                assert(text::is_space(trail[i - n - 4 - token.len()]));
            }
        }
    }
    if tail.len() == 0 {
        assert(rest =~= cookie);
    } else {
        assert(rest =~= cookie + seq![';'] + tail.drop_first());
    }
    text::law_split_at_first(cookie, ';', tail.drop_first());
    assert(core.last() == if token.len() > 0 {
        token.last()
    } else {
        '='
    });
    text::law_trim_takes_only_the_ends(lead, core, trail);
    text::law_strip_gives_back_the_rest("DSR="@, token, core);
    assert(lead + core + trail + tail =~= rest);
    text::law_split_at_first(last, ';', tail);
}

/// A header that is no bearer, or whose token is no JWT, counts for nothing, with or without a
/// project id before the token.
pub proof fn law_header_without_a_token(
    other: Seq<char>,
    project_id: Seq<char>,
    token: Seq<char>,
    cookies: Option<Seq<char>>,
    body_token: Option<Seq<char>>,
)
    requires
        !"Bearer "@.is_prefix_of(other),
        !project_id.contains(':'),
        !token.contains('.'),
    ensures
        session::refresh_token(Some(other), cookies, body_token) == session::refresh_token(
            None,
            cookies,
            body_token,
        ),
        session::refresh_token(
            Some("Bearer "@ + (project_id + ":"@ + token)),
            cookies,
            body_token,
        ) == session::refresh_token(None, cookies, body_token),
        !token.contains(':') ==> session::refresh_token(
            Some("Bearer "@ + token),
            cookies,
            body_token,
        ) == session::refresh_token(None, cookies, body_token),
{
    bearer::law_project_id_is_dropped(project_id, token);
    text::law_strip_gives_back_the_rest("Bearer "@, project_id + ":"@ + token, other);
    text::law_strip_gives_back_the_rest("Bearer "@, token, other);
}

/// Whether these are the bytes of the text, all of them visible.
pub open spec fn spells(bytes: Seq<u8>, t: Seq<char>) -> bool {
    &&& bytes.len() == t.len()
    &&& forall|i: int|
        0 <= i < t.len() ==> 32 <= #[trigger] bytes[i] < 127 && bytes[i] as int == t[i] as int
}

/// The first `Authorization` and the first `Cookie` header of a request are those that count, and
/// a request without either has only the token in its body.
pub proof fn law_headers_that_count(
    headers: HeaderMap,
    authorization: Seq<char>,
    cookies: Seq<char>,
    body_token: Option<Seq<char>>,
)
    ensures
        ({
            let values = headers::header_values(headers);
            let with_authorization = values.contains_key("authorization"@)
                && values["authorization"@].len() > 0 && spells(
                values["authorization"@][0],
                authorization,
            );
            let with_cookies = values.contains_key("cookie"@) && values["cookie"@].len() > 0
                && spells(values["cookie"@][0], cookies);
            let without_authorization = !values.contains_key("authorization"@);
            let without_cookies = !values.contains_key("cookie"@);
            let found = session::token_of(headers, body_token);
            &&& with_authorization && with_cookies ==> found == session::refresh_token(
                Some(authorization),
                Some(cookies),
                body_token,
            )
            &&& with_authorization && without_cookies ==> found == session::refresh_token(
                Some(authorization),
                None,
                body_token,
            )
            &&& without_authorization && with_cookies ==> found == session::refresh_token(
                None,
                Some(cookies),
                body_token,
            )
            &&& without_authorization && without_cookies ==> found == body_token
        }),
{
    let values = headers::header_values(headers);
    assert forall|bytes: Seq<u8>, t: Seq<char>| #[trigger]
        spells(bytes, t) implies headers::visible_text(bytes) == Some(t) by {
        assert(bytes.map_values(|b: u8| b as char) =~= t);
    }
}

/// A token in the body counts as much for a refresh, a logout and a logout from everywhere: where
/// the headers hold none, each of them works on the token of the body, and the caller is not told
/// to be unauthorized for want of one.
pub proof fn law_body_token_is_used(
    headers: HeaderMap,
    ttl: TokenTtl,
    now: u64,
    token: String,
    refresh_seen: RefreshSeen,
    refresh_step: RefreshStep,
    logout_seen: LogoutSeen,
    logout_step: LogoutStep,
    all_seen: LogoutAllSeen,
    all_step: LogoutAllStep,
)
    requires
        session::token_of(headers, None) is None,
    ensures
        session::refresh_is(headers, ttl, refresh_seen, refresh_step) && (
        refresh_seen.body matches Some(Ok(Some(req))) && req.refresh_jwt == Some(token)) ==> {
            &&& refresh_seen.revoked is None ==> (refresh_step matches RefreshStep::CheckRevoked(t)
                && t@ == token@)
            &&& refresh_seen.revoked == Some(false) && refresh_seen.claims is None ==> (
            refresh_step matches RefreshStep::ValidateRefresh(t) && t@ == token@)
        },
        session::logout_is(headers, logout_seen, logout_step) && (
        logout_seen.body matches Some(Ok(Some(req))) && req.refresh_jwt == Some(token)) ==> {
            &&& logout_seen.claims is None ==> (logout_step matches LogoutStep::ValidateRefresh(t)
                && t@ == token@)
            &&& (logout_seen.claims matches Some(Ok(_))) && !logout_seen.revoked ==> (
            logout_step matches LogoutStep::Revoke(t) && t@ == token@)
            &&& logout_step == LogoutStep::Respond(Err(EmulatorError::Unauthorized))
                ==> logout_seen.claims == Some(
                Err::<Claims, EmulatorError>(EmulatorError::Unauthorized),
            )
        },
        session::logout_all_is(headers, now, all_seen, all_step) && (
        all_seen.body matches Some(Ok(Some(req))) && req.refresh_jwt == Some(token)) ==> {
            &&& all_seen.claims is None ==> (all_step matches LogoutAllStep::ValidateRefresh(t)
                && t@ == token@)
            &&& (all_seen.claims matches Some(Ok(_))) && !all_seen.revoked ==> (
            all_step matches LogoutAllStep::Revoke(t) && t@ == token@)
            &&& all_step == LogoutAllStep::Respond(Err(EmulatorError::Unauthorized))
                ==> all_seen.claims == Some(
                Err::<Claims, EmulatorError>(EmulatorError::Unauthorized),
            )
        },
{
}

/// Without a token in the headers or in the body, whether the body has none or was none, a refresh,
/// a logout and a logout from everywhere are refused before anything else is asked.
pub proof fn law_no_token_is_unauthorized(
    headers: HeaderMap,
    ttl: TokenTtl,
    now: u64,
    refresh_seen: RefreshSeen,
    refresh_step: RefreshStep,
    logout_seen: LogoutSeen,
    logout_step: LogoutStep,
    all_seen: LogoutAllSeen,
    all_step: LogoutAllStep,
    me_seen: MeSeen,
    me_step: MeStep,
    select_seen: TenantSelectSeen,
    select_step: TenantSelectStep,
)
    requires
        session::token_of(headers, None) is None,
    ensures
        session::refresh_is(headers, ttl, refresh_seen, refresh_step) && (
        refresh_seen.body matches Some(Ok(body)) && (body is None || body->0.refresh_jwt is None))
            ==> refresh_step == RefreshStep::Respond(Err(EmulatorError::Unauthorized)),
        session::logout_is(headers, logout_seen, logout_step) && (
        logout_seen.body matches Some(Ok(body)) && (body is None || body->0.refresh_jwt is None))
            ==> logout_step == LogoutStep::Respond(Err(EmulatorError::Unauthorized)),
        session::logout_all_is(headers, now, all_seen, all_step) && (
        all_seen.body matches Some(Ok(body)) && (body is None || body->0.refresh_jwt is None))
            ==> all_step == LogoutAllStep::Respond(Err(EmulatorError::Unauthorized)),
        session::me_is(headers, me_seen, me_step) ==> me_step == MeStep::Respond(
            Err(EmulatorError::Unauthorized),
        ),
        session::tenant_select_is(headers, ttl, select_seen, select_step) ==> select_step
            == TenantSelectStep::Respond(Err(EmulatorError::Unauthorized)),
{
}

/// What a logout or a logout from everywhere takes back is the token that a refresh with the same
/// headers and the same `refresh_jwt` in its body asks about.
pub proof fn law_what_is_taken_back_is_asked_about(
    headers: HeaderMap,
    ttl: TokenTtl,
    now: u64,
    refresh_seen: RefreshSeen,
    refresh_step: RefreshStep,
    logout_seen: LogoutSeen,
    logout_step: LogoutStep,
    all_seen: LogoutAllSeen,
    all_step: LogoutAllStep,
)
    requires
        session::refresh_is(headers, ttl, refresh_seen, refresh_step),
        refresh_step is CheckRevoked,
    ensures
        ({
            &&& session::logout_is(headers, logout_seen, logout_step)
            &&& logout_step is Revoke
            &&& logout_seen.body matches Some(Ok(Some(out)))
            &&& refresh_seen.body matches Some(Ok(Some(req)))
            &&& text::shown(out.refresh_jwt) == text::shown(req.refresh_jwt)
        }) ==> logout_step->Revoke_0@ == refresh_step->CheckRevoked_0@,
        ({
            &&& session::logout_all_is(headers, now, all_seen, all_step)
            &&& all_step is Revoke
            &&& all_seen.body matches Some(Ok(Some(out)))
            &&& refresh_seen.body matches Some(Ok(Some(req)))
            &&& text::shown(out.refresh_jwt) == text::shown(req.refresh_jwt)
        }) ==> all_step->Revoke_0@ == refresh_step->CheckRevoked_0@,
        ({
            &&& session::logout_is(headers, logout_seen, logout_step)
            &&& logout_step is Revoke
            &&& logout_seen.body matches Some(Ok(None))
            &&& refresh_seen.body matches Some(Ok(None))
        }) ==> logout_step->Revoke_0@ == refresh_step->CheckRevoked_0@,
        ({
            &&& session::logout_all_is(headers, now, all_seen, all_step)
            &&& all_step is Revoke
            &&& all_seen.body matches Some(Ok(None))
            &&& refresh_seen.body matches Some(Ok(None))
        }) ==> all_step->Revoke_0@ == refresh_step->CheckRevoked_0@,
{
}

/// A refresh goes on step by step: it asks whether the token was given back, validates it, holds it
/// against the logout from everywhere of its holder, loads the holder, and issues new tokens. The
/// first failure is the answer.
pub proof fn law_refresh_step_by_step(
    headers: HeaderMap,
    ttl: TokenTtl,
    seen: RefreshSeen,
    step: RefreshStep,
    token: Seq<char>,
    e: EmulatorError,
    message: String,
)
    requires
        session::refresh_is(headers, ttl, seen, step),
        seen.body matches Some(Ok(body)) ==> session::token_of(
            headers,
            match body {
                Some(req) => text::shown(req.refresh_jwt),
                None => None,
            },
        ) == Some(token),
    ensures
        seen.body is None <==> step is ReadBody,
        seen.body matches Some(Err(m)) ==> step == RefreshStep::Respond(
            Err(EmulatorError::Internal(m)),
        ),
        (seen.body matches Some(Ok(_))) ==> {
            &&& seen.revoked is None <==> step is CheckRevoked
            &&& step matches RefreshStep::CheckRevoked(t) ==> t@ == token
            &&& seen.revoked == Some(true) ==> step == RefreshStep::Respond(
                Err(EmulatorError::TokenExpired),
            )
            &&& seen.revoked == Some(false) && seen.claims is None <==> step is ValidateRefresh
            &&& step matches RefreshStep::ValidateRefresh(t) ==> t@ == token
            &&& seen.revoked == Some(false) && seen.claims == Some(
                Err::<Claims, EmulatorError>(e),
            ) ==> step == RefreshStep::Respond(Err(e))
        },
        (seen.body matches Some(Ok(_))) && seen.revoked == Some(false) && (
        seen.claims matches Some(Ok(_))) ==> {
            let claims = seen.claims->0->Ok_0;
            &&& seen.boundary is None <==> step is ReadBoundary
            &&& step matches RefreshStep::ReadBoundary(user_id) ==> user_id@ == claims.sub@
            &&& (seen.boundary matches Some(Some(b)) && claims.iat < b) ==> step
                == RefreshStep::Respond(Err(EmulatorError::TokenExpired))
            &&& seen.boundary is Some && (seen.boundary->0 is None || claims.iat
                >= seen.boundary->0->0) ==> {
                &&& seen.user is None <==> step is LoadUser
                &&& step matches RefreshStep::LoadUser(user_id) ==> user_id@ == claims.sub@
                &&& seen.user == Some(Err::<User, EmulatorError>(e)) ==> step
                    == RefreshStep::Respond(Err(e))
                &&& (seen.user matches Some(Ok(user)) && user.status@ == "disabled"@) ==> step
                    == RefreshStep::Respond(Err(EmulatorError::UserDisabled))
                &&& (seen.user matches Some(Ok(user)) && user.status@ != "disabled"@) ==> {
                    &&& token_laws::unsigned(seen.issued) <==> step is Tokens
                    &&& step matches RefreshStep::Tokens(ask) ==> token_laws::asks_in_turn(
                        seen.user->0->Ok_0,
                        ttl,
                        None,
                        seen.issued,
                        ask,
                    )
                    &&& token_laws::signing_failed(seen.issued, message) ==> step
                        == RefreshStep::Respond(Err(EmulatorError::Internal(message)))
                    &&& token_laws::all_signed(seen.issued) ==> (step matches RefreshStep::Respond(
                        Ok(reply),
                    ) && token_laws::hands_out(reply, ttl, seen.issued))
                }
            }
        },
{
    if let RefreshStep::Respond(Ok(reply)) = step {
        token_laws::lemma_grants(reply, ttl, seen.issued);
    }
}

/// A logout goes on step by step, and says that all is well once the token was taken back.
pub proof fn law_logout_step_by_step(
    headers: HeaderMap,
    seen: LogoutSeen,
    step: LogoutStep,
    token: Seq<char>,
    e: EmulatorError,
)
    requires
        session::logout_is(headers, seen, step),
        seen.body matches Some(Ok(body)) ==> session::token_of(
            headers,
            match body {
                Some(req) => text::shown(req.refresh_jwt),
                None => None,
            },
        ) == Some(token),
    ensures
        seen.body is None <==> step is ReadBody,
        seen.body matches Some(Err(m)) ==> step == LogoutStep::Respond(
            Err(EmulatorError::Internal(m)),
        ),
        (seen.body matches Some(Ok(_))) ==> {
            &&& seen.claims is None <==> step is ValidateRefresh
            &&& step matches LogoutStep::ValidateRefresh(t) ==> t@ == token
            &&& seen.claims == Some(Err::<Claims, EmulatorError>(e)) ==> step
                == LogoutStep::Respond(Err(e))
            &&& (seen.claims matches Some(Ok(_))) && !seen.revoked <==> step is Revoke
            &&& step matches LogoutStep::Revoke(t) ==> t@ == token
            &&& (seen.claims matches Some(Ok(_))) && seen.revoked ==> (step matches
                LogoutStep::Respond(Ok(body)) && says_ok(body@))
        },
{
    lemma_all_well();
}

/// Whether the reply says that all is well, and nothing else.
pub open spec fn says_ok(body: JsonView) -> bool {
    body is Object && body->Object_0.len() == 1 && body.at("ok"@) == Some(JsonView::Bool(true))
}

/// The reply of those that have nothing to tell says that all is well.
pub proof fn lemma_all_well()
    ensures
        says_ok(crate::routes::replies::all_well()),
{
    json::lemma_member(crate::routes::replies::all_well()->Object_0, 0);
}

/// A logout from everywhere goes on step by step: it takes back the token, then the session tokens
/// older than it, then the refresh tokens issued up to and within the second at which it does so,
/// or before the token presented; and answers from the next second on.
pub proof fn law_logout_all_step_by_step(
    headers: HeaderMap,
    now: u64,
    seen: LogoutAllSeen,
    step: LogoutAllStep,
    token: Seq<char>,
    e: EmulatorError,
)
    requires
        session::logout_all_is(headers, now, seen, step),
        seen.body matches Some(Ok(body)) ==> session::token_of(
            headers,
            match body {
                Some(req) => text::shown(req.refresh_jwt),
                None => None,
            },
        ) == Some(token),
    ensures
        seen.body is None <==> step is ReadBody,
        seen.body matches Some(Err(m)) ==> step == LogoutAllStep::Respond(
            Err(EmulatorError::Internal(m)),
        ),
        (seen.body matches Some(Ok(_))) ==> {
            &&& seen.claims is None <==> step is ValidateRefresh
            &&& step matches LogoutAllStep::ValidateRefresh(t) ==> t@ == token
            &&& seen.claims == Some(Err::<Claims, EmulatorError>(e)) ==> step
                == LogoutAllStep::Respond(Err(e))
            &&& (seen.claims matches Some(Ok(_))) && !seen.revoked <==> step is Revoke
            &&& step matches LogoutAllStep::Revoke(t) ==> t@ == token
        },
        (seen.body matches Some(Ok(_))) && (seen.claims matches Some(Ok(_))) && seen.revoked ==> {
            let claims = seen.claims->0->Ok_0;
            &&& !seen.sessions_raised <==> step is RaiseSessions
            &&& step matches LogoutAllStep::RaiseSessions { user_id, revoked_at } ==> user_id@
                == claims.sub@ && revoked_at == claims.iat
            &&& seen.sessions_raised && seen.raised_at is None <==> step is RaiseRefresh
            &&& step matches LogoutAllStep::RaiseRefresh { user_id, revoked_at } ==> {
                &&& user_id@ == claims.sub@
                &&& claims.iat <= now < u64::MAX ==> revoked_at == now + 1
                &&& claims.iat > now ==> revoked_at == claims.iat
                &&& now == u64::MAX ==> revoked_at == now
            }
            &&& seen.sessions_raised && (seen.raised_at matches Some(at) && now <= at && now
                < u64::MAX) <==> step is Wait
            &&& step matches LogoutAllStep::Wait { until } ==> {
                &&& seen.raised_at->0 < u64::MAX ==> until == seen.raised_at->0 + 1
                &&& seen.raised_at->0 == u64::MAX ==> until == u64::MAX
            }
            &&& seen.sessions_raised && (seen.raised_at matches Some(at) && (now > at || now
                == u64::MAX)) ==> (step matches LogoutAllStep::Respond(Ok(body)) && says_ok(body@))
        },
{
    lemma_all_well();
}

/// A question who the holder is goes on step by step: a token that was not given back counts as a
/// session token, or else as a refresh token that is not older than a logout from everywhere; and
/// the answer is the holder.
pub proof fn law_me_step_by_step(
    headers: HeaderMap,
    seen: MeSeen,
    step: MeStep,
    token: Seq<char>,
    e: EmulatorError,
    message: String,
)
    requires
        session::me_is(headers, seen, step),
        session::token_of(headers, None) == Some(token),
    ensures
        seen.revoked is None <==> step is CheckRevoked,
        step matches MeStep::CheckRevoked(t) ==> t@ == token,
        seen.revoked == Some(true) ==> step == MeStep::Respond(Err(EmulatorError::TokenExpired)),
        seen.revoked == Some(false) && seen.session is None <==> step is ValidateSession,
        step matches MeStep::ValidateSession(t) ==> t@ == token,
        seen.revoked == Some(false) && seen.session == Some(None::<Claims>) ==> {
            &&& seen.refresh is None <==> step is ValidateRefresh
            &&& step matches MeStep::ValidateRefresh(t) ==> t@ == token
            &&& seen.refresh == Some(Err::<Claims, EmulatorError>(e)) ==> step
                == MeStep::Respond(Err(e))
            &&& (seen.refresh matches Some(Ok(_))) && seen.boundary is None <==> (
            step is ReadBoundary)
            &&& step matches MeStep::ReadBoundary(user_id) ==> user_id@
                == seen.refresh->0->Ok_0.sub@
            &&& (seen.refresh matches Some(Ok(claims)) && seen.boundary is Some
                && seen.boundary->0 is Some && claims.iat < seen.boundary->0->0) ==> step
                == MeStep::Respond(Err(EmulatorError::TokenExpired))
        },
        seen.revoked == Some(false) && (seen.session matches Some(Some(_))) ==> shows_holder(
            seen.session->0->0,
            seen,
            step,
            e,
            message,
        ),
        seen.revoked == Some(false) && seen.session == Some(None::<Claims>) && (
        seen.refresh matches Some(Ok(claims)) && seen.boundary is Some && (seen.boundary->0 is None
            || claims.iat >= seen.boundary->0->0)) ==> shows_holder(
            seen.refresh->0->Ok_0,
            seen,
            step,
            e,
            message,
        ),
{
}

/// Whether the step loads the holder of these claims, then renders it, and then answers with it.
pub open spec fn shows_holder(
    claims: Claims,
    seen: MeSeen,
    step: MeStep,
    e: EmulatorError,
    message: String,
) -> bool {
    &&& seen.user is None <==> step is LoadUser
    &&& step matches MeStep::LoadUser(user_id) ==> user_id@ == claims.sub@
    &&& seen.user == Some(Err::<User, EmulatorError>(e)) ==> step == MeStep::Respond(Err(e))
    &&& (seen.user matches Some(Ok(_))) && seen.rendered is None <==> step is RenderUser
    &&& step matches MeStep::RenderUser(user) ==> *user == seen.user->0->Ok_0
    &&& (seen.user matches Some(Ok(_))) && seen.rendered == Some(
        Err::<crate::json::Json, String>(message),
    ) ==> step == MeStep::Respond(Err(EmulatorError::Internal(message)))
    &&& (seen.user matches Some(Ok(_))) && (seen.rendered matches Some(Ok(_))) ==> (step matches
        MeStep::Respond(Ok(body)) && body@ == seen.rendered->0->Ok_0@)
}

/// A validation goes on step by step: the token is validated, held against the logout from
/// everywhere of its holder, and rendered; and the answer shows the token and what it says.
pub proof fn law_validate_step_by_step(
    req: ValidateRequest,
    seen: ValidateSeen,
    step: ValidateStep,
    e: EmulatorError,
    message: String,
)
    requires
        session::validate_is(req, seen, step),
    ensures
        seen.claims is None <==> step is ValidateSession,
        step matches ValidateStep::ValidateSession(t) ==> t@ == req.session_jwt@,
        seen.claims == Some(Err::<Claims, EmulatorError>(e)) ==> step == ValidateStep::Respond(
            Err(e),
        ),
        (seen.claims matches Some(Ok(_))) ==> {
            let claims = seen.claims->0->Ok_0;
            let older = seen.boundary is Some && seen.boundary->0 is Some && claims.iat
                < seen.boundary->0->0;
            &&& seen.boundary is None <==> step is ReadSessionBoundary
            &&& step matches ValidateStep::ReadSessionBoundary(user_id) ==> user_id@
                == claims.sub@
            &&& older ==> step == ValidateStep::Respond(Err(EmulatorError::TokenExpired))
            &&& seen.boundary is Some && !older && seen.rendered is None <==> step is RenderClaims
            &&& seen.boundary is Some && !older && seen.rendered == Some(
                Err::<crate::json::Json, String>(message),
            ) ==> step == ValidateStep::Respond(Err(EmulatorError::Internal(message)))
            &&& seen.boundary is Some && !older && (seen.rendered matches Some(Ok(_))) ==> (
            step matches ValidateStep::Respond(Ok(body)) && {
                &&& body@ is Object
                &&& body@->Object_0.len() == 3
                &&& body@.text_at("jwt"@) == Some(req.session_jwt@)
                &&& body@.at("token"@) == Some(seen.rendered->0->Ok_0@)
                &&& body@.at("cookies"@) == Some(JsonView::Array(seq![]))
            })
        },
{
    if let ValidateStep::Respond(Ok(body)) = step {
        reveal_strlit("jwt");
        reveal_strlit("token");
        reveal_strlit("cookies");
        let members = body@->Object_0;
        assert(members[0].0 == "jwt"@ && members[1].0 == "token"@ && members[2].0 == "cookies"@);
        assert forall|i: int, j: int| 0 <= j < i < 3 implies #[trigger] members[j].0
            != #[trigger] members[i].0 by {
            if members[j].0 == members[i].0 {
                assert(members[j].0.len() == members[i].0.len());
            }
        }
        assert forall|i: int| 0 <= i < 3 implies #[trigger] json::value_at(members, members[i].0)
            == Some(members[i].1) by {
            json::lemma_member(members, i);
        }
    }
}

/// The history is empty, and all that is shown.
pub proof fn law_history_is_empty()
    ensures
        session::no_history() is Object,
        session::no_history()->Object_0.len() == 1,
        session::no_history().at("history"@) == Some(JsonView::Array(seq![])),
{
    json::lemma_member(session::no_history()->Object_0, 0);
}

/// The selection of a tenant goes on step by step: a token that was not given back, a body, a valid
/// token not older than a logout from everywhere, a holder who is a member of the tenant, which
/// exists, and who is not disabled; and then tokens that name the tenant.
pub proof fn law_tenant_select_step_by_step(
    headers: HeaderMap,
    ttl: TokenTtl,
    seen: TenantSelectSeen,
    step: TenantSelectStep,
    token: Seq<char>,
    e: EmulatorError,
    message: String,
)
    requires
        session::tenant_select_is(headers, ttl, seen, step),
        session::token_of(headers, None) == Some(token),
    ensures
        seen.revoked is None <==> step is CheckRevoked,
        step matches TenantSelectStep::CheckRevoked(t) ==> t@ == token,
        seen.revoked == Some(true) ==> step == TenantSelectStep::Respond(
            Err(EmulatorError::TokenExpired),
        ),
        seen.revoked == Some(false) && seen.body is None <==> step is ReadBody,
        seen.revoked == Some(false) && (seen.body matches Some(Err(_))) ==> step
            == TenantSelectStep::Respond(Err(EmulatorError::Internal(seen.body->0->Err_0))),
        seen.revoked == Some(false) && (seen.body matches Some(Ok(None))) ==> step
            == TenantSelectStep::Respond(Err(EmulatorError::Unauthorized)),
        seen.revoked == Some(false) && (seen.body matches Some(Ok(Some(_)))) ==> {
            &&& seen.claims is None <==> step is ValidateRefresh
            &&& step matches TenantSelectStep::ValidateRefresh(t) ==> t@ == token
            &&& seen.claims == Some(Err::<Claims, EmulatorError>(e)) ==> step
                == TenantSelectStep::Respond(Err(e))
        },
        seen.revoked == Some(false) && (seen.body matches Some(Ok(Some(_)))) && (
        seen.claims matches Some(Ok(_))) ==> {
            let claims = seen.claims->0->Ok_0;
            let older = seen.boundary is Some && seen.boundary->0 is Some && claims.iat
                < seen.boundary->0->0;
            &&& seen.boundary is None <==> step is ReadBoundary
            &&& step matches TenantSelectStep::ReadBoundary(user_id) ==> user_id@ == claims.sub@
            &&& older ==> step == TenantSelectStep::Respond(Err(EmulatorError::TokenExpired))
            &&& seen.boundary is Some && !older && seen.user is None <==> step is LoadUser
            &&& step matches TenantSelectStep::LoadUser(user_id) ==> user_id@ == claims.sub@
            &&& seen.boundary is Some && !older && seen.user == Some(
                Err::<User, EmulatorError>(e),
            ) ==> step == TenantSelectStep::Respond(Err(e))
            &&& seen.boundary is Some && !older && (seen.user matches Some(Ok(_)))
                ==> selects_in_turn(
                seen.body->0->Ok_0->0.tenant@,
                seen.user->0->Ok_0,
                ttl,
                seen,
                step,
                message,
            )
        },
{
    if let TenantSelectStep::Respond(Ok(reply)) = step {
        token_laws::lemma_grants(reply, ttl, seen.issued);
    }
}

/// Whether the step checks the tenant and the user, asks for the tokens, and hands them out.
pub open spec fn selects_in_turn(
    tenant: Seq<char>,
    user: User,
    ttl: TokenTtl,
    seen: TenantSelectSeen,
    step: TenantSelectStep,
    message: String,
) -> bool {
    let member = exists|i: int|
        0 <= i < user.user_tenants@.len() && (#[trigger] user.user_tenants@[i]).tenant_id@
            == tenant;
    let open = member && seen.tenant_exists == Some(true) && user.status@ != "disabled"@;
    &&& !member ==> step == TenantSelectStep::Respond(Err(EmulatorError::TenantNotFound))
    &&& member && seen.tenant_exists is None <==> step is CheckTenant
    &&& step matches TenantSelectStep::CheckTenant(t) ==> t@ == tenant
    &&& member && seen.tenant_exists == Some(false) ==> step == TenantSelectStep::Respond(
        Err(EmulatorError::TenantNotFound),
    )
    &&& member && seen.tenant_exists == Some(true) && user.status@ == "disabled"@ ==> step
        == TenantSelectStep::Respond(Err(EmulatorError::UserDisabled))
    &&& open && token_laws::unsigned(seen.issued) <==> step is Tokens
    &&& step matches TenantSelectStep::Tokens(ask) ==> token_laws::asks_in_turn(
        user,
        ttl,
        Some(tenant),
        seen.issued,
        ask,
    )
    &&& open && token_laws::signing_failed(seen.issued, message) ==> step
        == TenantSelectStep::Respond(Err(EmulatorError::Internal(message)))
    &&& open && token_laws::all_signed(seen.issued) ==> (step matches TenantSelectStep::Respond(
        Ok(reply),
    ) && token_laws::hands_out(reply, ttl, seen.issued))
}

} // verus!
