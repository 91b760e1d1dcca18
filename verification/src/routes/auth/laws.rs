//! What holds of the sign-in handlers, one by one and together.
use crate::error::EmulatorError;
use crate::passwords;
use crate::routes::auth::bearer;
use crate::routes::auth::flow::{self, NextSeen, NextStep};
use crate::routes::auth::issue::{self, Issued, TokenTtl};
use crate::routes::auth::password::{
    self, ReplaceRequest, ReplaceSeen, ReplaceStep, SendResetRequest, SendResetSeen, SendResetStep,
    SigninRequest, SigninSeen, SigninStep, SignupRequest, SignupSeen, SignupStep,
    UpdatePasswordSeen, UpdatePasswordStep,
};
use crate::routes::auth::session::{
    self, LogoutAllSeen, LogoutAllStep, LogoutSeen, LogoutStep, MeSeen, MeStep, RefreshSeen,
    RefreshStep, TenantSelectSeen, TenantSelectStep, ValidateRequest, ValidateSeen, ValidateStep,
};
use crate::store::flow_store::{self, FlowExecution, FlowStatus};
use crate::store::revocations;
use crate::text;
use crate::types::{Claims, Reply, User};
use axum::http::HeaderMap;
use vstd::prelude::*;

verus! {

/// A sign-up is answered with tokens exactly once the method was found enabled, the password was
/// hashed, the user was stored and loaded, both tokens were signed, and the login was recorded.
pub proof fn law_signup_succeeds_iff(
    req: SignupRequest,
    user_id: Seq<char>,
    now: u64,
    ttl: TokenTtl,
    seen: SignupSeen,
    step: SignupStep,
)
    requires
        password::signup_is(req, user_id, now, ttl, seen, step),
    ensures
        (step matches SignupStep::Respond(Ok(_))) <==> {
            &&& seen.method matches Some(Ok(_))
            &&& seen.hash matches Some(Ok(Ok(_)))
            &&& seen.inserted matches Some(Ok(_))
            &&& seen.user matches Some(Ok(_))
            &&& issue::granted(seen.issued)
            &&& seen.login_recorded
        },
{
}

/// A sign-in is answered with tokens exactly once the method was found enabled, the login id not
/// locked out, the password right and the user not disabled, both tokens were signed, and the
/// login was recorded.
pub proof fn law_signin_succeeds_iff(
    req: SigninRequest,
    ttl: TokenTtl,
    seen: SigninSeen,
    step: SigninStep,
)
    requires
        password::signin_is(req, ttl, seen, step),
    ensures
        (step matches SigninStep::Respond(Ok(_))) <==> {
            &&& seen.method matches Some(Ok(_))
            &&& seen.lockout matches Some(Ok(_))
            &&& seen.account matches Some(Ok(account))
            &&& account.password_hash is Some
            &&& seen.verified == Some(Ok::<Option<bool>, String>(Some(true)))
            &&& seen.failures_cleared
            &&& seen.user matches Some(Ok(user))
            &&& user.status@ != "disabled"@
            &&& issue::granted(seen.issued)
            &&& seen.login_recorded
        },
{
}

/// A replacement is answered with tokens exactly once the old password was found right, the new
/// one was hashed and stored, the user was loaded, and both tokens were signed.
pub proof fn law_replace_succeeds_iff(
    req: ReplaceRequest,
    ttl: TokenTtl,
    seen: ReplaceSeen,
    step: ReplaceStep,
)
    requires
        password::replace_is(req, ttl, seen, step),
    ensures
        (step matches ReplaceStep::Respond(Ok(_))) <==> {
            &&& seen.account matches Some(Ok(account))
            &&& account.password_hash is Some
            &&& seen.verified == Some(Ok::<Option<bool>, String>(Some(true)))
            &&& seen.hash matches Some(Ok(Ok(_)))
            &&& seen.stored matches Some(Ok(_))
            &&& seen.user matches Some(Ok(_))
            &&& issue::granted(seen.issued)
        },
{
}

/// Whoever signed up with a password is let in with it: once bcrypt has compared it with the
/// stored hash, the sign-in goes on, and counts no failure.
pub proof fn law_signed_up_password_signs_in(
    up: SignupRequest,
    user_id: Seq<char>,
    now: u64,
    hash: String,
    user: User,
    req: SigninRequest,
    ttl: TokenTtl,
    seen: SigninSeen,
    step: SigninStep,
)
    requires
        password::signed_up(up, user_id, now, hash, user),
        passwords::stands_for(hash@, up.password@, passwords::PASSWORD_COST),
        req.password@ == up.password@,
        password::signin_is(req, ttl, seen, step),
        seen.method matches Some(Ok(_)),
        seen.lockout matches Some(Ok(_)),
        seen.account == Some(Ok::<User, EmulatorError>(user)),
        seen.verified == Some(
            Ok::<Option<bool>, String>(passwords::bcrypt_verified(req.password@, hash@)),
        ),
    ensures
        password::signs_in(req, ttl, seen, step),
        !(step is RecordFailure),
{
}

/// A password that bcrypt finds wrong is refused, and the failure is counted before the answer.
/// No token is asked for.
pub proof fn law_wrong_password_is_counted_and_refused(
    req: SigninRequest,
    ttl: TokenTtl,
    seen: SigninSeen,
    step: SigninStep,
)
    requires
        password::signin_is(req, ttl, seen, step),
        seen.method matches Some(Ok(_)),
        seen.lockout matches Some(Ok(_)),
        seen.account matches Some(Ok(account)) && account.password_hash is Some,
        seen.verified == Some(Ok::<Option<bool>, String>(Some(false))),
    ensures
        if seen.failure_recorded {
            step == SigninStep::Respond(Err(EmulatorError::InvalidCredentials))
        } else {
            step matches SigninStep::RecordFailure(login_id) && login_id@ == req.login_id@
        },
{
}

/// The password that a replacement stores is let in by a later sign-in.
pub proof fn law_replaced_password_signs_in(
    change: ReplaceRequest,
    change_seen: ReplaceSeen,
    ttl: TokenTtl,
    change_step: ReplaceStep,
    req: SigninRequest,
    seen: SigninSeen,
    step: SigninStep,
    user: User,
)
    requires
        password::replace_is(change, ttl, change_seen, change_step),
        change_step matches ReplaceStep::SetPassword { hash, .. }
            && user.password_hash matches Some(stored) && stored@ == hash@,
        change_seen.hash matches Some(Ok(Ok(new))) && passwords::stands_for(
            new@,
            change.new_password@,
            passwords::PASSWORD_COST,
        ),
        req.password@ == change.new_password@,
        password::signin_is(req, ttl, seen, step),
        seen.method matches Some(Ok(_)),
        seen.lockout matches Some(Ok(_)),
        seen.account == Some(Ok::<User, EmulatorError>(user)),
        seen.verified == Some(
            Ok::<Option<bool>, String>(
                passwords::bcrypt_verified(req.password@, user.password_hash->0@),
            ),
        ),
    ensures
        password::signs_in(req, ttl, seen, step),
{
}

/// A disabled user gets no tokens by signing in, by a flow, by refreshing or by selecting a
/// tenant.
pub proof fn law_disabled_users_get_no_tokens(
    user: User,
    signin: SigninRequest,
    headers: HeaderMap,
    body: crate::json::JsonView,
    ttl: TokenTtl,
    signin_seen: SigninSeen,
    signin_step: SigninStep,
    next_seen: NextSeen,
    next_step: NextStep,
    refresh_seen: RefreshSeen,
    refresh_step: RefreshStep,
    select_seen: TenantSelectSeen,
    select_step: TenantSelectStep,
)
    requires
        user.status@ == "disabled"@,
        signin_seen.user == Some(Ok::<User, EmulatorError>(user)),
        next_seen.user == Some(Ok::<User, EmulatorError>(user)),
        refresh_seen.user == Some(Ok::<User, EmulatorError>(user)),
        select_seen.user == Some(Ok::<User, EmulatorError>(user)),
    ensures
        password::signin_is(signin, ttl, signin_seen, signin_step) ==> !(signin_step is Tokens)
            && !(signin_step matches SigninStep::Respond(Ok(_))),
        flow::next_is(body, ttl, next_seen, next_step) ==> !(next_step is Tokens)
            && !(next_step is Complete),
        session::refresh_is(headers, ttl, refresh_seen, refresh_step) ==> !(refresh_step is Tokens)
            && !(refresh_step matches RefreshStep::Respond(Ok(_))),
        session::tenant_select_is(headers, ttl, select_seen, select_step) ==> !(
        select_step is Tokens) && !(select_step matches TenantSelectStep::Respond(Ok(_))),
{
}

/// Nothing is stored by an update before the token was found to authorize it, and a valid refresh
/// or session token is never used up.
pub proof fn law_session_tokens_are_not_used_up(
    authorization: Option<Seq<char>>,
    seen: UpdatePasswordSeen,
    step: UpdatePasswordStep,
)
    requires
        password::update_password_is(authorization, seen, step),
    ensures
        step is ConsumeToken ==> seen.refresh_valid == Some(false) && seen.session_valid == Some(
            false,
        ),
        step is SetPassword ==> {
            ||| seen.refresh_valid == Some(true)
            ||| seen.session_valid == Some(true)
            ||| seen.consumed matches Some(Ok(_))
        },
        step matches UpdatePasswordStep::Respond(Ok(_)) ==> {
            ||| seen.refresh_valid == Some(true)
            ||| seen.session_valid == Some(true)
            ||| seen.consumed matches Some(Ok(_))
        },
{
}

/// The token that a reply to a reset request names is the one that was stored for the user, so it
/// can be used up by an update.
pub proof fn law_reset_reply_names_the_stored_token(
    req: SendResetRequest,
    token: Seq<char>,
    before: SendResetSeen,
    storing: SendResetStep,
    seen: SendResetSeen,
    step: SendResetStep,
)
    requires
        password::send_reset_is(req, token, before, storing),
        storing is StoreToken,
        password::send_reset_is(req, token, seen, step),
    ensures
        storing->StoreToken_token@ == token,
        step matches SendResetStep::Respond(Ok(body)) ==> seen.token_stored && body@.text_at(
            "token"@,
        ) == Some(token),
{
    reveal_strlit("ok");
    reveal_strlit("resetMethod");
    reveal_strlit("maskedEmail");
    reveal_strlit("token");
    reveal_with_fuel(crate::json::value_at, 5);
    if let SendResetStep::Respond(Ok(body)) = step {
        let members = body@->Object_0;
        assert(members.drop_first().drop_first().drop_first()[0] == members[3]);
        assert("ok"@ != "token"@) by {
            assert("ok"@.len() != "token"@.len());
        }
        assert("resetMethod"@ != "token"@) by {
            assert("resetMethod"@.len() != "token"@.len());
        }
        assert("maskedEmail"@ != "token"@) by {
            assert("maskedEmail"@.len() != "token"@.len());
        }
    }
}

/// A masked address shows of the part before the `@` no more than its first two bytes: addresses
/// that agree on those and on the domain look the same.
pub proof fn law_mask_hides_the_rest(a: Seq<char>, b: Seq<char>)
    requires
        a.contains('@'),
        b.contains('@'),
        text::byte_len(text::before(a, '@')) > 2,
        text::byte_len(text::before(b, '@')) > 2,
        text::cut(text::before(a, '@'), 2) == text::cut(text::before(b, '@'), 2),
        text::behind(a, '@') == text::behind(b, '@'),
    ensures
        password::masked(a) == password::masked(b),
{
}

/// A bearer that is just a project id is no token: the cookie, or else the body, is used as if
/// there were no header.
pub proof fn law_project_id_is_no_token(
    project_id: Seq<char>,
    cookies: Option<Seq<char>>,
    body_token: Option<Seq<char>>,
)
    requires
        !project_id.contains('.'),
        !project_id.contains(':'),
    ensures
        session::refresh_token(Some("Bearer "@ + project_id), cookies, body_token)
            == session::refresh_token(None, cookies, body_token),
{
    assert(text::stripped("Bearer "@ + project_id, "Bearer "@) == Some(project_id)) by {
        assert(("Bearer "@ + project_id).skip("Bearer "@.len() as int) =~= project_id);
    }
}

/// A token in the header, with or without a project id before it, is used whatever the cookies
/// and the body say.
pub proof fn law_header_token_comes_first(
    project_id: Seq<char>,
    token: Seq<char>,
    cookies: Option<Seq<char>>,
    body_token: Option<Seq<char>>,
)
    requires
        !project_id.contains(':'),
        token.contains('.'),
    ensures
        session::refresh_token(Some("Bearer "@ + project_id + ":"@ + token), cookies, body_token)
            == Some(token),
        !token.contains(':') ==> session::refresh_token(
            Some("Bearer "@ + token),
            cookies,
            body_token,
        ) == Some(token),
{
    reveal_strlit(":");
    let credentials = project_id + ":"@ + token;
    let value = "Bearer "@ + project_id + ":"@ + token;
    assert(value =~= "Bearer "@ + credentials);
    assert(value.skip("Bearer "@.len() as int) =~= credentials);
    assert(bearer::bare_token(credentials) == token) by {
        text::lemma_position(credentials, ':');
        assert(credentials[project_id.len() as int] == ':');
        assert(credentials.contains(':'));
        let at = text::position(credentials, ':') as int;
        assert(at == project_id.len()) by {
            if at < project_id.len() {
                assert(project_id[at] == ':');
            }
        }
        assert(credentials.skip(at + 1) =~= token);
    }
    assert(("Bearer "@ + token).skip("Bearer "@.len() as int) =~= token);
}

/// White space at neither end.
pub open spec fn tight(s: Seq<char>) -> bool {
    s.len() > 0 ==> !text::is_space(s[0]) && !text::is_space(s.last())
}

/// The refresh cookie that a client sends back, behind the session cookie or alone, gives back the
/// refresh token that was put into it, where no header says otherwise.
pub proof fn law_refresh_cookie_comes_back(
    session_jwt: Seq<char>,
    refresh_jwt: Seq<char>,
    body_token: Option<Seq<char>>,
)
    requires
        !session_jwt.contains(';'),
        !refresh_jwt.contains(';'),
        tight(refresh_jwt),
    ensures
        session::refresh_token(None, Some("DSR="@ + refresh_jwt), body_token) == Some(refresh_jwt),
        session::refresh_token(
            None,
            Some("DS="@ + session_jwt + "; DSR="@ + refresh_jwt),
            body_token,
        ) == Some(refresh_jwt),
{
    reveal_strlit("DSR=");
    reveal_strlit("DS=");
    reveal_strlit("; DSR=");
    lemma_dsr_part(refresh_jwt);
    let alone = "DSR="@ + refresh_jwt;
    let both = "DS="@ + session_jwt + "; DSR="@ + refresh_jwt;
    let at = 3 + session_jwt.len() as int;
    text::lemma_position(both, ';');
    assert(both[at] == ';');
    let p = text::position(both, ';') as int;
    assert(p == at) by {
        if p < at {
            assert(p >= 3);
            assert(session_jwt[p - 3] == ';');
        }
    }
    assert(both.skip(p + 1) =~= " "@ + alone) by {
        reveal_strlit(" ");
    }
    let first = text::before(both, ';');
    assert(first =~= "DS="@ + session_jwt);
    lemma_trimmed_head(first, 'D', 'S', '=');
    assert(text::stripped(text::trimmed(first), "DSR="@) is None) by {
        if "DSR="@.is_prefix_of(text::trimmed(first)) {
            assert(text::trimmed(first)[2] == "DSR="@[2]);
        }
    }
    reveal_with_fuel(session::dsr_cookie, 2);
}

/// Trimming leaves the first three characters of a text that does not begin with white space and
/// whose third is none, unless the text is shorter.
proof fn lemma_trimmed_head(s: Seq<char>, a: char, b: char, c: char)
    requires
        s.len() >= 3,
        s[0] == a && s[1] == b && s[2] == c,
        !text::is_space(a),
        !text::is_space(c),
    ensures
        text::trimmed(s).len() >= 3,
        text::trimmed(s)[2] == c,
{
    lemma_trimmed_end_head(s);
}

/// Trimming the end leaves the first three characters where the third is no white space.
proof fn lemma_trimmed_end_head(s: Seq<char>)
    requires
        s.len() >= 3,
        !text::is_space(s[2]),
    ensures
        text::trimmed_end(s).len() >= 3,
        text::trimmed_end(s)[2] == s[2],
    decreases s.len(),
{
    if text::is_space(s.last()) {
        lemma_trimmed_end_head(s.drop_last());
    }
}

/// A cookie part that is the refresh cookie, with or without a space before it, holds the token.
proof fn lemma_dsr_part(refresh_jwt: Seq<char>)
    requires
        !refresh_jwt.contains(';'),
        tight(refresh_jwt),
    ensures
        session::dsr_cookie("DSR="@ + refresh_jwt) == Some(refresh_jwt),
        session::dsr_cookie(" "@ + ("DSR="@ + refresh_jwt)) == Some(refresh_jwt),
{
    reveal_strlit("DSR=");
    reveal_strlit(" ");
    let alone = "DSR="@ + refresh_jwt;
    let spaced = " "@ + alone;
    assert forall|s: Seq<char>| s == alone || s == spaced implies text::before(s, ';') == s by {
        text::lemma_position(s, ';');
        let p = text::position(s, ';') as int;
        if p < s.len() {
            let from = if s == alone {
                4int
            } else {
                5int
            };
            assert(p >= from);
            assert(refresh_jwt[p - from] == ';');
        }
        assert(s.take(s.len() as int) =~= s);
    }
    assert(!text::is_space(alone.last()));
    assert(text::trimmed(alone) == alone);
    assert(spaced.drop_first() =~= alone);
    reveal_with_fuel(text::trimmed_start, 2);
    assert(text::trimmed(spaced) == alone);
    assert(alone.skip(4) =~= refresh_jwt);
    assert("DSR="@.is_prefix_of(alone));
    assert(text::before(alone, ';') == alone && text::before(spaced, ';') == spaced);
}

/// A logout takes back only a token that was found valid, and answers only once it was taken back.
pub proof fn law_logout_revokes_first(headers: HeaderMap, seen: LogoutSeen, step: LogoutStep)
    requires
        session::logout_is(headers, seen, step),
    ensures
        step is Revoke ==> seen.claims matches Some(Ok(_)),
        step matches LogoutStep::Respond(Ok(_)) ==> {
            &&& seen.revoked
            &&& seen.claims matches Some(Ok(_))
        },
{
}

/// The token that a logout takes back is the one that a refresh with the same headers and the same
/// token in the body would use; and once a token is taken back, neither a refresh, wherever the
/// request carries it, nor a question who the holder is nor the selection of a tenant accepts it.
pub proof fn law_revoked_token_is_refused(
    headers: HeaderMap,
    ttl: TokenTtl,
    logout_seen: LogoutSeen,
    logout_step: LogoutStep,
    refresh_seen: RefreshSeen,
    refresh_step: RefreshStep,
    me_seen: MeSeen,
    me_step: MeStep,
    select_seen: TenantSelectSeen,
    select_step: TenantSelectStep,
)
    ensures
        // What a logout takes back, a refresh asks about.
        ({
            &&& session::logout_is(headers, logout_seen, logout_step)
            &&& logout_step is Revoke
            &&& session::refresh_is(headers, ttl, refresh_seen, refresh_step)
            &&& refresh_step is CheckRevoked
            &&& logout_seen.body matches Some(Ok(logout_body))
            &&& refresh_seen.body matches Some(Ok(refresh_body))
            &&& session::logout_body_token(logout_body) == session::refresh_body_token(
                refresh_body,
            )
        }) ==> refresh_step->CheckRevoked_0@ == logout_step->Revoke_0@,
        // And what was taken back is refused.
        ({
            &&& session::refresh_is(headers, ttl, refresh_seen, refresh_step)
            &&& refresh_seen.body matches Some(Ok(body))
            &&& session::token_of(headers, session::refresh_body_token(body)) is Some
            &&& refresh_seen.revoked == Some(true)
        }) ==> refresh_step == RefreshStep::Respond(Err(EmulatorError::TokenExpired)),
        ({
            &&& session::me_is(headers, me_seen, me_step)
            &&& session::token_of(headers, None) is Some
            &&& me_seen.revoked == Some(true)
        }) ==> me_step == MeStep::Respond(Err(EmulatorError::TokenExpired)),
        ({
            &&& session::tenant_select_is(headers, ttl, select_seen, select_step)
            &&& session::token_of(headers, None) is Some
            &&& select_seen.revoked == Some(true)
        }) ==> select_step == TenantSelectStep::Respond(Err(EmulatorError::TokenExpired)),
{
}

/// A logout from everywhere takes back the token itself, then the user's session tokens older than
/// it, and then every refresh token of the user issued so far, before it answers.
pub proof fn law_logout_all_revokes_and_raises(
    headers: HeaderMap,
    now: u64,
    seen: LogoutAllSeen,
    step: LogoutAllStep,
)
    requires
        session::logout_all_is(headers, now, seen, step),
    ensures
        step is Revoke ==> seen.claims matches Some(Ok(_)),
        step is RaiseSessions ==> {
            &&& seen.revoked
            &&& seen.claims matches Some(Ok(claims))
            &&& step->RaiseSessions_user_id@ == claims.sub@
            &&& step->RaiseSessions_revoked_at == claims.iat
        },
        step is RaiseRefresh ==> {
            &&& seen.revoked
            &&& seen.sessions_raised
            &&& seen.claims matches Some(Ok(claims))
            &&& step->RaiseRefresh_user_id@ == claims.sub@
            &&& step->RaiseRefresh_revoked_at >= claims.iat
            &&& now < u64::MAX ==> step->RaiseRefresh_revoked_at > now
        },
        step matches LogoutAllStep::Respond(Ok(_)) ==> seen.revoked && seen.sessions_raised
            && seen.raised_at is Some,
{
}

/// Whichever token a user logged out everywhere with, at `now`: once the boundary that this asked
/// for was raised, every refresh token of the user issued before `now`, or within its second, is
/// refused. A refresh with it, a question who the holder is, and the selection of a tenant are all
/// answered that it expired.
pub proof fn law_logout_all_revokes_all_tokens(
    logout_headers: HeaderMap,
    now: u64,
    logout_seen: LogoutAllSeen,
    logout_step: LogoutAllStep,
    boundaries: Map<Seq<char>, u64>,
    claims: Claims,
    headers: HeaderMap,
    ttl: TokenTtl,
    refresh_seen: RefreshSeen,
    refresh_step: RefreshStep,
    me_seen: MeSeen,
    me_step: MeStep,
    select_seen: TenantSelectSeen,
    select_step: TenantSelectStep,
)
    requires
        session::logout_all_is(logout_headers, now, logout_seen, logout_step),
        logout_step is RaiseRefresh,
        logout_step->RaiseRefresh_user_id@ == claims.sub@,
        claims.iat < now || claims.iat == now < u64::MAX,
        ({
            let boundary = revocations::boundary_of(
                revocations::raised(
                    boundaries,
                    claims.sub@,
                    logout_step->RaiseRefresh_revoked_at,
                ),
                claims.sub@,
            );
            &&& refresh_seen.boundary == Some(boundary)
            &&& me_seen.boundary == Some(boundary)
            &&& select_seen.boundary == Some(boundary)
        }),
        session::refresh_is(headers, ttl, refresh_seen, refresh_step),
        refresh_seen.body matches Some(Ok(body)) && session::token_of(
            headers,
            session::refresh_body_token(body),
        ) is Some,
        refresh_seen.revoked == Some(false),
        refresh_seen.claims == Some(Ok::<Claims, EmulatorError>(claims)),
        session::me_is(headers, me_seen, me_step),
        session::token_of(headers, None) is Some,
        me_seen.revoked == Some(false),
        me_seen.session == Some(None::<Claims>),
        me_seen.refresh == Some(Ok::<Claims, EmulatorError>(claims)),
        session::tenant_select_is(headers, ttl, select_seen, select_step),
        select_seen.revoked == Some(false),
        select_seen.body matches Some(Ok(Some(_))),
        select_seen.claims == Some(Ok::<Claims, EmulatorError>(claims)),
    ensures
        refresh_step == RefreshStep::Respond(Err(EmulatorError::TokenExpired)),
        me_step == MeStep::Respond(Err(EmulatorError::TokenExpired)),
        select_step == TenantSelectStep::Respond(Err(EmulatorError::TokenExpired)),
{
}

/// Whoever signs in again after a logout from everywhere was answered keeps the new tokens: a
/// refresh token issued from the time of the answer on, and not before the token presented, is not
/// taken back by it.
pub proof fn law_tokens_after_the_answer_stay(
    headers: HeaderMap,
    raising_at: u64,
    raising: LogoutAllSeen,
    raise: LogoutAllStep,
    answered_at: u64,
    answering: LogoutAllSeen,
    answer: LogoutAllStep,
    boundaries: Map<Seq<char>, u64>,
    token_iat: u64,
)
    requires
        session::logout_all_is(headers, raising_at, raising, raise),
        raise is RaiseRefresh,
        answering.raised_at == Some(raising_at),
        session::logout_all_is(headers, answered_at, answering, answer),
        answer matches LogoutAllStep::Respond(Ok(_)),
        token_iat >= answered_at,
        raising.claims matches Some(Ok(claims)) && token_iat >= claims.iat,
        ({
            let user_id = raise->RaiseRefresh_user_id@;
            !revocations::taken_back(revocations::boundary_of(boundaries, user_id), token_iat)
        }),
    ensures
        ({
            let user_id = raise->RaiseRefresh_user_id@;
            !revocations::taken_back(
                revocations::boundary_of(
                    revocations::raised(boundaries, user_id, raise->RaiseRefresh_revoked_at),
                    user_id,
                ),
                token_iat,
            )
        }),
{
}

/// Of the session tokens, a logout from everywhere takes back exactly those that are older than
/// the token presented, beside those that an earlier logout took back: the validation of such a
/// token is answered that it expired, and that of any other goes on.
pub proof fn law_logout_all_takes_back_older_sessions(
    headers: HeaderMap,
    now: u64,
    logout_seen: LogoutAllSeen,
    logout_step: LogoutAllStep,
    boundaries: Map<Seq<char>, u64>,
    claims: Claims,
    req: ValidateRequest,
    seen: ValidateSeen,
    step: ValidateStep,
)
    requires
        session::logout_all_is(headers, now, logout_seen, logout_step),
        logout_step is RaiseSessions,
        logout_step->RaiseSessions_user_id@ == claims.sub@,
        session::validate_is(req, seen, step),
        seen.claims == Some(Ok::<Claims, EmulatorError>(claims)),
        seen.boundary == Some(
            revocations::boundary_of(
                revocations::raised(
                    boundaries,
                    claims.sub@,
                    logout_step->RaiseSessions_revoked_at,
                ),
                claims.sub@,
            ),
        ),
    ensures
        ({
            let presented = logout_seen.claims->0->Ok_0;
            let refused = claims.iat < presented.iat || revocations::taken_back(
                revocations::boundary_of(boundaries, claims.sub@),
                claims.iat,
            );
            &&& refused ==> step == ValidateStep::Respond(Err(EmulatorError::TokenExpired))
            &&& !refused && seen.rendered is None ==> step is RenderClaims
            &&& !refused && (seen.rendered matches Some(Ok(_))) ==> (step matches
                ValidateStep::Respond(Ok(_)))
        }),
{
}

/// A refresh is answered with tokens exactly once a token was found that was not given back, is
/// valid and not older than the user's logout from everywhere, the user was loaded and is not
/// disabled, and both new tokens were signed.
pub proof fn law_refresh_succeeds_iff(
    headers: HeaderMap,
    ttl: TokenTtl,
    seen: RefreshSeen,
    step: RefreshStep,
)
    requires
        session::refresh_is(headers, ttl, seen, step),
    ensures
        (step matches RefreshStep::Respond(Ok(_))) <==> {
            &&& seen.body matches Some(Ok(body))
            &&& session::token_of(headers, session::refresh_body_token(body)) is Some
            &&& seen.revoked == Some(false)
            &&& seen.claims matches Some(Ok(claims))
            &&& seen.boundary matches Some(boundary)
            &&& !revocations::taken_back(boundary, claims.iat)
            &&& seen.user matches Some(Ok(user))
            &&& user.status@ != "disabled"@
            &&& issue::granted(seen.issued)
        },
{
}

/// Tokens for a tenant are asked for only where the token presented is not older than the user's
/// logout from everywhere, the user is a member of the tenant, it exists, and the user is not
/// disabled; and the session token is to name that tenant in its `dct` claim.
pub proof fn law_tenant_tokens_name_a_tenant_of_the_user(
    headers: HeaderMap,
    ttl: TokenTtl,
    seen: TenantSelectSeen,
    step: TenantSelectStep,
)
    requires
        session::tenant_select_is(headers, ttl, seen, step),
    ensures
        step matches TenantSelectStep::Tokens(ask) ==> {
            &&& seen.body matches Some(Ok(Some(body)))
            &&& seen.claims matches Some(Ok(claims))
            &&& seen.boundary matches Some(boundary)
            &&& !revocations::taken_back(boundary, claims.iat)
            &&& seen.user matches Some(Ok(user))
            &&& session::belongs_to(user, body.tenant@)
            &&& seen.tenant_exists == Some(true)
            &&& user.status@ != "disabled"@
            &&& ask is SignSession ==> issue::names_tenant(
                ask->SignSession_extra,
                Some(body.tenant@),
            )
        },
        step matches TenantSelectStep::Respond(Ok(_)) ==> {
            &&& seen.body matches Some(Ok(Some(body)))
            &&& seen.claims matches Some(Ok(claims))
            &&& seen.boundary matches Some(boundary)
            &&& !revocations::taken_back(boundary, claims.iat)
            &&& seen.user matches Some(Ok(user))
            &&& session::belongs_to(user, body.tenant@)
            &&& seen.tenant_exists == Some(true)
            &&& user.status@ != "disabled"@
        },
{
}

/// Whatever a client sends to the next step of a flow, it is never answered with an error: only a
/// failed task, a user that vanished after the password check, or a token that could not be
/// signed is one.
pub proof fn law_no_input_fails_a_flow(
    body: crate::json::JsonView,
    ttl: TokenTtl,
    seen: NextSeen,
    step: NextStep,
)
    requires
        flow::next_is(body, ttl, seen, step),
        !(seen.verified matches Some(Err(_))),
        !(seen.user matches Some(Err(_))),
        !(seen.issued.session_jwt matches Some(Err(_))),
        !(seen.issued.refresh_jwt matches Some(Err(_))),
    ensures
        !(step matches NextStep::Respond(Err(_))),
{
}

/// On the password screen, an unknown user and a wrong password look alike: in either case a
/// failure is counted and then the same screen is shown again.
pub proof fn law_flow_does_not_tell_unknown_users(
    body: crate::json::JsonView,
    ttl: TokenTtl,
    unknown: NextSeen,
    unknown_step: NextStep,
    wrong: NextSeen,
    wrong_step: NextStep,
    exec: FlowExecution,
)
    requires
        flow::next_is(body, ttl, unknown, unknown_step),
        flow::next_is(body, ttl, wrong, wrong_step),
        exec.status == FlowStatus::Waiting,
        exec.step != 1,
        unknown.execution == Some(Some(exec)),
        wrong.execution == Some(Some(exec)),
        unknown.login == Some(Some(exec)),
        wrong.login == Some(Some(exec)),
        unknown.method matches Some(Ok(_)),
        wrong.method matches Some(Ok(_)),
        unknown.lockout matches Some(Ok(_)),
        wrong.lockout matches Some(Ok(_)),
        unknown.account matches Some(Err(_)),
        wrong.account matches Some(Ok(account)) && account.password_hash is Some,
        wrong.verified == Some(Ok::<Option<bool>, String>(Some(false))),
        unknown.failure_recorded == wrong.failure_recorded,
    ensures
        unknown.failure_recorded ==> flow::shows_again(
            flow::execution_named(body),
            unknown_step,
        ) && flow::shows_again(flow::execution_named(body), wrong_step),
        !unknown.failure_recorded ==> unknown_step is RecordFailure && wrong_step is RecordFailure
            && unknown_step->RecordFailure_0@ == wrong_step->RecordFailure_0@,
{
}

/// A flow that was just started waits on the email screen: the next step under its id moves it on
/// with the login id that the user entered.
pub proof fn law_started_flow_takes_the_login_id(
    start_body: crate::json::JsonView,
    token: Seq<char>,
    created_at: u64,
    now: u64,
    flows: Map<Seq<char>, FlowExecution>,
    after: Map<Seq<char>, FlowExecution>,
    reply: Reply,
    body: crate::json::JsonView,
    ttl: TokenTtl,
    seen: NextSeen,
    step: NextStep,
)
    requires
        flow::start_is(start_body, token, created_at, now, flows, after, reply),
        flow::asks_for_flow(start_body),
        flow::execution_named(body) == flow::execution_id_from(token),
        seen.execution == Some(Some(after[flow::execution_id_from(token)])),
        !seen.advanced,
        flow::next_is(body, ttl, seen, step),
    ensures
        after.contains_key(flow::execution_id_from(token)),
        step matches NextStep::Advance { execution_id, login_id } && execution_id@
            == flow::execution_id_from(token) && login_id@ == flow::login_entered(
            flow::input_of(body),
        ),
{
}

/// A flow that was moved on to the password screen checks the password that the user enters next
/// under the login id that was entered before.
pub proof fn law_advanced_flow_checks_the_password(
    before: FlowExecution,
    after: FlowExecution,
    login_id: String,
    body: crate::json::JsonView,
    ttl: TokenTtl,
    seen: NextSeen,
    step: NextStep,
)
    requires
        flow_store::advanced(before, after, login_id),
        seen.execution == Some(Some(after)),
        seen.login == Some(Some(after)),
        flow::next_is(body, ttl, seen, step),
    ensures
        flow::checks_password(
            flow::execution_named(body),
            login_id@,
            flow::password_entered(flow::input_of(body)),
            ttl,
            seen,
            step,
        ),
{
}

/// An execution that was completed or failed has no next step, whatever is entered.
pub proof fn law_finished_flow_has_no_next(
    flows: Map<Seq<char>, FlowExecution>,
    status: FlowStatus,
    body: crate::json::JsonView,
    ttl: TokenTtl,
    seen: NextSeen,
    step: NextStep,
)
    requires
        status != FlowStatus::Waiting,
        ({
            let id = flow::execution_named(body);
            &&& flows.contains_key(id)
            &&& seen.execution == Some(Some(flow_store::with_status(flows, id, status)[id]))
        }),
        flow::next_is(body, ttl, seen, step),
    ensures
        step matches NextStep::Respond(Ok(reply)) && flow::plainly(
            reply,
            flow::failed(
                flow::execution_named(body),
                "E102103"@,
                "Did not find next task"@,
            ),
        ),
{
}

/// A flow hands out tokens exactly once the execution was waiting on the password screen, the
/// method was found enabled, the login id not locked out, the password right and the user not
/// disabled, both tokens were signed, the execution was completed and the login recorded; and
/// then the envelope carries what a sign-in with these tokens replies.
pub proof fn law_flow_completes_iff(
    body: crate::json::JsonView,
    ttl: TokenTtl,
    seen: NextSeen,
    step: NextStep,
)
    requires
        flow::next_is(body, ttl, seen, step),
    ensures
        (step matches NextStep::Respond(Ok(reply)) && flow::completes(
            flow::execution_named(body),
            ttl,
            seen.issued,
            reply,
        )) <==> {
            &&& seen.execution matches Some(Some(exec))
            &&& exec.status == FlowStatus::Waiting
            &&& exec.step != 1
            &&& seen.login is Some
            &&& seen.method matches Some(Ok(_))
            &&& seen.lockout matches Some(Ok(_))
            &&& seen.account matches Some(Ok(account))
            &&& account.password_hash is Some
            &&& seen.verified == Some(Ok::<Option<bool>, String>(Some(true)))
            &&& seen.failures_cleared
            &&& seen.user matches Some(Ok(user))
            &&& user.status@ != "disabled"@
            &&& issue::granted(seen.issued)
            &&& seen.completed
            &&& seen.login_recorded
        },
        step is Complete ==> {
            &&& seen.execution matches Some(Some(exec))
            &&& exec.status == FlowStatus::Waiting
            &&& exec.step != 1
            &&& seen.method matches Some(Ok(_))
            &&& seen.lockout matches Some(Ok(_))
            &&& seen.verified == Some(Ok::<Option<bool>, String>(Some(true)))
            &&& issue::granted(seen.issued)
        },
{
    if let NextStep::Respond(Ok(reply)) = step {
        if flow::completes(flow::execution_named(body), ttl, seen.issued, reply) {
            assert(crate::headers::header_values(reply.headers).contains_key("set-cookie"@));
        }
    }
}

} // verus!
