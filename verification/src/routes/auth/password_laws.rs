//! What each of the password handlers asks for, in which order, and what it answers.
use crate::error::EmulatorError;
use crate::json::{self, JsonView};
use crate::routes::auth::password::{
    self, ReplaceRequest, ReplaceSeen, ReplaceStep, SendResetRequest, SendResetSeen, SendResetStep,
    SigninRequest, SigninSeen, SigninStep, SignupRequest, SignupSeen, SignupStep,
    UpdatePasswordSeen, UpdatePasswordStep,
};
use crate::routes::auth::issue::TokenTtl;
use crate::routes::auth::token_laws;
use crate::text;
use crate::types::{PasswordConfig, User};
use vstd::prelude::*;

verus! {

/// A new user has the address that the request gives. Where it gives none, whether or not it says
/// anything else of the user, the address is the login id exactly where that has an `@`. All else
/// is taken over as it was given, and a user of whom nothing was said has nothing.
pub proof fn law_signup_stores_what_was_given(
    req: SignupRequest,
    user_id: Seq<char>,
    now: u64,
    ttl: TokenTtl,
    seen: SignupSeen,
    user: User,
)
    requires
        password::signup_is(req, user_id, now, ttl, seen, SignupStep::InsertUser(user)),
    ensures
        req.user matches Some(fields) && fields.email is Some ==> user.email == req.user->0.email,
        (req.user is None || req.user->0.email is None) && req.login_id@.contains('@') ==> (
        user.email matches Some(email) && email@ == req.login_id@),
        (req.user is None || req.user->0.email is None) && !req.login_id@.contains('@') ==> (
        user.email is None),
        req.user matches Some(fields) ==> user.phone == fields.phone && user.name == fields.name
            && user.given_name == fields.given_name && user.family_name == fields.family_name,
        req.user is None ==> user.phone is None && user.name is None && user.given_name is None
            && user.family_name is None,
        user.user_id@ == user_id,
        user.login_ids@.len() == 1 && user.login_ids@[0]@ == req.login_id@,
        user.status@ == "enabled"@,
        user.created_time == now,
        user.password,
        seen.hash matches Some(Ok(Ok(hash))) && user.password_hash == Some(hash),
        user.user_tenants@ == Seq::<crate::types::UserTenant>::empty(),
{
}

/// A sign-up goes on step by step, each step with what was asked or found before, and the first
/// failure is the answer.
pub proof fn law_signup_step_by_step(
    req: SignupRequest,
    user_id: Seq<char>,
    now: u64,
    ttl: TokenTtl,
    seen: SignupSeen,
    step: SignupStep,
    e: EmulatorError,
    message: String,
)
    requires
        password::signup_is(req, user_id, now, ttl, seen, step),
    ensures
        seen.method is None <==> step is CheckMethod,
        step matches SignupStep::CheckMethod(method) ==> method@ == "password"@,
        seen.method == Some(Err::<(), EmulatorError>(e)) ==> step == SignupStep::Respond(Err(e)),
        (seen.method matches Some(Ok(_))) ==> {
            &&& seen.hash is None <==> step is HashPassword
            &&& step matches SignupStep::HashPassword(password) ==> password@ == req.password@
            &&& seen.hash == Some(Err::<Result<String, EmulatorError>, String>(message)) ==> step
                == SignupStep::Respond(Err(EmulatorError::Internal(message)))
            &&& seen.hash == Some(
                Ok::<Result<String, EmulatorError>, String>(Err::<String, EmulatorError>(e)),
            ) ==> step == SignupStep::Respond(Err(e))
        },
        (seen.method matches Some(Ok(_))) && (seen.hash matches Some(Ok(Ok(_)))) ==> {
            &&& seen.inserted is None <==> step is InsertUser
            &&& seen.inserted == Some(Err::<(), EmulatorError>(e)) ==> step == SignupStep::Respond(
                Err(e),
            )
        },
        (seen.method matches Some(Ok(_))) && (seen.hash matches Some(Ok(Ok(_)))) && (
        seen.inserted matches Some(Ok(_))) ==> {
            &&& seen.user is None <==> step is LoadUser
            &&& step matches SignupStep::LoadUser(login_id) ==> login_id@ == req.login_id@
            &&& seen.user == Some(Err::<User, EmulatorError>(e)) ==> step == SignupStep::Respond(
                Err(e),
            )
        },
        (seen.method matches Some(Ok(_))) && (seen.hash matches Some(Ok(Ok(_)))) && (
        seen.inserted matches Some(Ok(_))) && (seen.user matches Some(Ok(_))) ==> {
            &&& token_laws::unsigned(seen.issued) <==> step is Tokens
            &&& step matches SignupStep::Tokens(ask) ==> token_laws::asks_in_turn(
                seen.user->0->Ok_0,
                ttl,
                None,
                seen.issued,
                ask,
            )
            &&& token_laws::signing_failed(seen.issued, message) ==> step == SignupStep::Respond(
                Err(EmulatorError::Internal(message)),
            )
            &&& token_laws::all_signed(seen.issued) && !seen.login_recorded ==> (step matches
                SignupStep::RecordLogin(login_id) && login_id@ == req.login_id@)
            &&& token_laws::all_signed(seen.issued) && seen.login_recorded ==> (step matches
                SignupStep::Respond(Ok(reply)) && token_laws::hands_out(reply, ttl, seen.issued))
        },
{
    if let SignupStep::Respond(Ok(reply)) = step {
        token_laws::lemma_grants(reply, ttl, seen.issued);
    }
}

/// A sign-in goes on step by step, each step with what was asked or found before. Of a password
/// that does not match, only one that bcrypt found wrong is counted, and whatever is wrong with the
/// credentials is answered alike.
pub proof fn law_signin_step_by_step(
    req: SigninRequest,
    ttl: TokenTtl,
    seen: SigninSeen,
    step: SigninStep,
    e: EmulatorError,
    message: String,
)
    requires
        password::signin_is(req, ttl, seen, step),
    ensures
        seen.method is None <==> step is CheckMethod,
        step matches SigninStep::CheckMethod(method) ==> method@ == "password"@,
        seen.method == Some(Err::<(), EmulatorError>(e)) ==> step == SigninStep::Respond(Err(e)),
        (seen.method matches Some(Ok(_))) ==> {
            &&& seen.lockout is None <==> step is CheckLockout
            &&& step matches SigninStep::CheckLockout(login_id) ==> login_id@ == req.login_id@
            &&& seen.lockout == Some(Err::<(), EmulatorError>(e)) ==> step == SigninStep::Respond(
                Err(e),
            )
        },
        (seen.method matches Some(Ok(_))) && (seen.lockout matches Some(Ok(_))) ==> {
            &&& seen.account is None <==> step is LoadAccount
            &&& step matches SigninStep::LoadAccount(login_id) ==> login_id@ == req.login_id@
            &&& seen.account == Some(Err::<User, EmulatorError>(e)) ==> step
                == SigninStep::Respond(Err(e))
            &&& (seen.account matches Some(Ok(account)) && account.password_hash is None) ==> step
                == SigninStep::Respond(Err(EmulatorError::InvalidCredentials))
        },
        (seen.method matches Some(Ok(_))) && (seen.lockout matches Some(Ok(_))) && (
        seen.account matches Some(Ok(account)) && account.password_hash is Some) ==> {
            &&& seen.verified is None <==> step is VerifyPassword
            &&& step matches SigninStep::VerifyPassword { password, hash } ==> password@
                == req.password@ && hash@ == seen.account->0->Ok_0.password_hash->0@
            &&& seen.verified == Some(Err::<Option<bool>, String>(message)) ==> step
                == SigninStep::Respond(Err(EmulatorError::Internal(message)))
            &&& seen.verified == Some(Ok::<Option<bool>, String>(None)) ==> step
                == SigninStep::Respond(Err(EmulatorError::InvalidCredentials))
            &&& seen.verified == Some(Ok::<Option<bool>, String>(Some(false)))
                && seen.failure_recorded ==> step == SigninStep::Respond(
                Err(EmulatorError::InvalidCredentials),
            )
            &&& seen.verified == Some(Ok::<Option<bool>, String>(Some(false)))
                && !seen.failure_recorded ==> (step matches SigninStep::RecordFailure(login_id)
                && login_id@ == req.login_id@)
        },
        (seen.method matches Some(Ok(_))) && (seen.lockout matches Some(Ok(_))) && (
        seen.account matches Some(Ok(account)) && account.password_hash is Some) && seen.verified
            == Some(Ok::<Option<bool>, String>(Some(true))) ==> {
            &&& !seen.failures_cleared <==> step is ClearFailures
            &&& step matches SigninStep::ClearFailures(login_id) ==> login_id@ == req.login_id@
            &&& seen.failures_cleared ==> (seen.user is None <==> step is LoadUser)
            &&& step matches SigninStep::LoadUser(login_id) ==> login_id@ == req.login_id@
            &&& seen.failures_cleared && seen.user == Some(Err::<User, EmulatorError>(e)) ==> step
                == SigninStep::Respond(Err(e))
            &&& seen.failures_cleared && (seen.user matches Some(Ok(user)) && user.status@
                == "disabled"@) ==> step == SigninStep::Respond(Err(EmulatorError::UserDisabled))
        },
        (seen.method matches Some(Ok(_))) && (seen.lockout matches Some(Ok(_))) && (
        seen.account matches Some(Ok(account)) && account.password_hash is Some) && seen.verified
            == Some(Ok::<Option<bool>, String>(Some(true))) && seen.failures_cleared && (
        seen.user matches Some(Ok(user)) && user.status@ != "disabled"@) ==> {
            &&& token_laws::unsigned(seen.issued) <==> step is Tokens
            &&& step matches SigninStep::Tokens(ask) ==> token_laws::asks_in_turn(
                seen.user->0->Ok_0,
                ttl,
                None,
                seen.issued,
                ask,
            )
            &&& token_laws::signing_failed(seen.issued, message) ==> step == SigninStep::Respond(
                Err(EmulatorError::Internal(message)),
            )
            &&& token_laws::all_signed(seen.issued) && !seen.login_recorded ==> (step matches
                SigninStep::RecordLogin(login_id) && login_id@ == req.login_id@)
            &&& token_laws::all_signed(seen.issued) && seen.login_recorded ==> (step matches
                SigninStep::Respond(Ok(reply)) && token_laws::hands_out(reply, ttl, seen.issued))
        },
{
    if let SigninStep::Respond(Ok(reply)) = step {
        token_laws::lemma_grants(reply, ttl, seen.issued);
    }
}

/// A replacement goes on step by step: the old password is checked against the stored hash, and
/// the hash of the new one is stored under the same login id. An old password that does not match
/// is answered like a user without one.
pub proof fn law_replace_step_by_step(
    req: ReplaceRequest,
    ttl: TokenTtl,
    seen: ReplaceSeen,
    step: ReplaceStep,
    e: EmulatorError,
    message: String,
)
    requires
        password::replace_is(req, ttl, seen, step),
    ensures
        seen.account is None <==> step is LoadAccount,
        step matches ReplaceStep::LoadAccount(login_id) ==> login_id@ == req.login_id@,
        seen.account == Some(Err::<User, EmulatorError>(e)) ==> step == ReplaceStep::Respond(
            Err(e),
        ),
        (seen.account matches Some(Ok(account)) && account.password_hash is None) ==> step
            == ReplaceStep::Respond(Err(EmulatorError::InvalidCredentials)),
        (seen.account matches Some(Ok(account)) && account.password_hash is Some) ==> {
            &&& seen.verified is None <==> step is VerifyPassword
            &&& step matches ReplaceStep::VerifyPassword { password, hash } ==> password@
                == req.old_password@ && hash@ == seen.account->0->Ok_0.password_hash->0@
            &&& seen.verified == Some(Err::<Option<bool>, String>(message)) ==> step
                == ReplaceStep::Respond(Err(EmulatorError::Internal(message)))
            &&& seen.verified == Some(Ok::<Option<bool>, String>(None)) || seen.verified == Some(
                Ok::<Option<bool>, String>(Some(false)),
            ) ==> step == ReplaceStep::Respond(Err(EmulatorError::InvalidCredentials))
        },
        (seen.account matches Some(Ok(account)) && account.password_hash is Some) && seen.verified
            == Some(Ok::<Option<bool>, String>(Some(true))) ==> {
            &&& seen.hash is None <==> step is HashPassword
            &&& step matches ReplaceStep::HashPassword(password) ==> password@
                == req.new_password@
            &&& seen.hash == Some(Err::<Result<String, EmulatorError>, String>(message)) ==> step
                == ReplaceStep::Respond(Err(EmulatorError::Internal(message)))
            &&& seen.hash == Some(
                Ok::<Result<String, EmulatorError>, String>(Err::<String, EmulatorError>(e)),
            ) ==> step == ReplaceStep::Respond(Err(e))
        },
        (seen.account matches Some(Ok(account)) && account.password_hash is Some) && seen.verified
            == Some(Ok::<Option<bool>, String>(Some(true))) && (seen.hash matches Some(
            Ok(Ok(_)),
        )) ==> {
            &&& seen.stored is None <==> step is SetPassword
            &&& step matches ReplaceStep::SetPassword { login_id, hash } ==> login_id@
                == req.login_id@ && hash@ == seen.hash->0->Ok_0->Ok_0@
            &&& seen.stored == Some(Err::<(), EmulatorError>(e)) ==> step == ReplaceStep::Respond(
                Err(e),
            )
            &&& (seen.stored matches Some(Ok(_))) ==> (seen.user is None <==> step is LoadUser)
            &&& step matches ReplaceStep::LoadUser(login_id) ==> login_id@ == req.login_id@
            &&& (seen.stored matches Some(Ok(_))) && seen.user == Some(
                Err::<User, EmulatorError>(e),
            ) ==> step == ReplaceStep::Respond(Err(e))
        },
        (seen.account matches Some(Ok(account)) && account.password_hash is Some) && seen.verified
            == Some(Ok::<Option<bool>, String>(Some(true))) && (seen.hash matches Some(Ok(Ok(_))))
            && (seen.stored matches Some(Ok(_))) && (seen.user matches Some(Ok(_))) ==> {
            &&& token_laws::unsigned(seen.issued) <==> step is Tokens
            &&& step matches ReplaceStep::Tokens(ask) ==> token_laws::asks_in_turn(
                seen.user->0->Ok_0,
                ttl,
                None,
                seen.issued,
                ask,
            )
            &&& token_laws::signing_failed(seen.issued, message) ==> step == ReplaceStep::Respond(
                Err(EmulatorError::Internal(message)),
            )
            &&& token_laws::all_signed(seen.issued) ==> (step matches ReplaceStep::Respond(
                Ok(reply),
            ) && token_laws::hands_out(reply, ttl, seen.issued))
        },
{
    if let ReplaceStep::Respond(Ok(reply)) = step {
        token_laws::lemma_grants(reply, ttl, seen.issued);
    }
}

/// A reset token is stored for the user who has the login id before anyone is told of it; the
/// connector is told where there is one, and only then; and the reply shows the masked address, or
/// a masked nothing where the user has no address, and the token.
pub proof fn law_send_reset_step_by_step(
    req: SendResetRequest,
    fresh: Seq<char>,
    seen: SendResetSeen,
    step: SendResetStep,
    e: EmulatorError,
)
    requires
        password::send_reset_is(req, fresh, seen, step),
    ensures
        seen.user is None <==> step is LoadUser,
        step matches SendResetStep::LoadUser(login_id) ==> login_id@ == req.login_id@,
        seen.user == Some(Err::<User, EmulatorError>(e)) ==> step == SendResetStep::Respond(
            Err(e),
        ),
        (seen.user matches Some(Ok(_))) ==> {
            &&& !seen.token_stored <==> step is StoreToken
            &&& step matches SendResetStep::StoreToken { token, user_id } ==> token@ == fresh
                && user_id@ == seen.user->0->Ok_0.user_id@
            &&& seen.token_stored ==> (seen.connector is None <==> step is ReadConnector)
            &&& seen.token_stored && (seen.connector matches Some(Some(_))) && !seen.notified <==> (
            step is Notify)
            &&& step matches SendResetStep::Notify { connector_id, login_id, token } ==> (
            connector_id@ == seen.connector->0->0@ && login_id@ == req.login_id@ && token@
                == fresh)
            &&& seen.token_stored && seen.connector is Some && (seen.connector->0 is None
                || seen.notified) ==> (step matches SendResetStep::Respond(Ok(_)))
        },
        step matches SendResetStep::Respond(Ok(body)) ==> {
            &&& seen.user matches Some(Ok(user))
            &&& body@ is Object
            &&& body@->Object_0.len() == 4
            &&& body@.at("ok"@) == Some(JsonView::Bool(true))
            &&& body@.text_at("resetMethod"@) == Some("email"@)
            &&& body@.text_at("token"@) == Some(fresh)
            &&& user.email matches Some(email) ==> body@.text_at("maskedEmail"@) == Some(
                password::masked(email@),
            )
            &&& user.email is None ==> body@.text_at("maskedEmail"@) == Some("***"@)
        },
{
    if let SendResetStep::Respond(Ok(body)) = step {
        reveal_strlit("ok");
        reveal_strlit("resetMethod");
        reveal_strlit("maskedEmail");
        reveal_strlit("token");
        reveal_strlit("");
        let members = body@->Object_0;
        assert("resetMethod"@[0] != "maskedEmail"@[0]);
        assert(members[0].0 == "ok"@ && members[1].0 == "resetMethod"@);
        assert(members[2].0 == "maskedEmail"@ && members[3].0 == "token"@);
        assert(members[1].0 != members[2].0);
        assert forall|i: int, j: int| 0 <= j < i < 4 implies #[trigger] members[j].0
            != #[trigger] members[i].0 by {
            if members[j].0 == members[i].0 {
                assert(members[j].0.len() == members[i].0.len());
            }
        }
        assert forall|i: int| 0 <= i < 4 implies #[trigger] json::value_at(members, members[i].0)
            == Some(members[i].1) by {
            json::lemma_member(members, i);
        }
        assert(!""@.contains('@'));
    }
}

/// An address shows its domain as it is. Of the part before the `@` it shows the first two bytes,
/// where there are more, and a star for each byte otherwise. What is no address is hidden whole.
pub proof fn law_mask(head: Seq<char>, rest: Seq<char>, domain: Seq<char>, plain: Seq<char>)
    requires
        !head.contains('@'),
        !rest.contains('@'),
        !plain.contains('@'),
        text::byte_len(head) == 2,
        rest.len() > 0,
    ensures
        password::masked(head + rest + "@"@ + domain) == head + "***@"@ + domain,
        password::masked(head + "@"@ + domain) == "**@"@ + domain,
        password::masked("@"@ + domain) == "@"@ + domain,
        forall|c: char|
            #![trigger text::width(c)]
            c != '@' && text::width(c) == 1 ==> password::masked(seq![c] + "@"@ + domain) == "*@"@
                + domain,
        password::masked(plain) == "***"@,
{
    reveal_strlit("@");
    reveal_strlit("*@");
    reveal_strlit("**@");
    reveal_strlit("***");
    reveal_strlit("***@");
    assert forall|user: Seq<char>| !user.contains('@') implies #[trigger] text::before(
        user + "@"@ + domain,
        '@',
    ) == user && text::behind(user + "@"@ + domain, '@') == Some(domain) by {
        text::law_split_at_first(user, '@', domain);
        assert(user + "@"@ + domain =~= user + seq!['@'] + domain);
    }
    let long = head + rest;
    assert(!long.contains('@')) by {
        if long.contains('@') {
            let i = choose|i: int| 0 <= i < long.len() && long[i] == '@';
            if i < head.len() {
                assert(head[i] == '@');
            } else {
                assert(rest[i - head.len()] == '@');
            }
        }
    }
    assert(text::before(long + "@"@ + domain, '@') == long);
    assert(text::before(head + "@"@ + domain, '@') == head);
    text::law_bytes_add_up(head, rest, '@');
    text::law_cut_keeps_the_first_bytes(head, rest);
    assert(password::masked(long + "@"@ + domain) =~= head + "***@"@ + domain);
    assert(password::masked(head + "@"@ + domain) =~= "**@"@ + domain);
    let none = Seq::<char>::empty();
    assert(text::before(none + "@"@ + domain, '@') == none);
    assert(none + "@"@ + domain =~= "@"@ + domain);
    assert(password::masked("@"@ + domain) =~= "@"@ + domain);
    assert forall|c: char|
        #![trigger text::width(c)]
        c != '@' && text::width(c) == 1 implies password::masked(seq![c] + "@"@ + domain) == "*@"@
        + domain by {
        assert(text::before(seq![c] + "@"@ + domain, '@') == seq![c]);
        text::law_bytes_add_up(none, none, c);
        assert(password::masked(seq![c] + "@"@ + domain) =~= "*@"@ + domain);
    }
    text::law_split_at_first(plain, '@', none);
}

/// An update uses the token of the header, with or without a project id before it, and that of the
/// body only where the header has none, is no bearer or is missing. Without either the answer is that the caller is not
/// authorized, before anything is asked.
pub proof fn law_update_token(
    project_id: Seq<char>,
    token: Seq<char>,
    other: Seq<char>,
    seen: UpdatePasswordSeen,
    step: UpdatePasswordStep,
)
    requires
        !project_id.contains(':'),
        token.len() > 0,
        !"Bearer "@.is_prefix_of(other),
        seen.body matches Some(Ok(Ok(_))),
        seen.refresh_valid is None,
    ensures
        password::update_password_is(
            Some("Bearer "@ + project_id + ":"@ + token),
            seen,
            step,
        ) ==> (step matches UpdatePasswordStep::ValidateRefresh(t) && t@ == token),
        !token.contains(':') && password::update_password_is(
            Some("Bearer "@ + token),
            seen,
            step,
        ) ==> (step matches UpdatePasswordStep::ValidateRefresh(t) && t@ == token),
        password::update_password_is(None, seen, step) || password::update_password_is(
            Some(other),
            seen,
            step,
        ) || password::update_password_is(
            Some("Bearer "@),
            seen,
            step,
        ) || password::update_password_is(Some("Bearer "@ + project_id + ":"@), seen, step) ==> {
            let body = seen.body->0->Ok_0->Ok_0;
            &&& body.token is Some ==> (step matches UpdatePasswordStep::ValidateRefresh(t) && t@
                == body.token->0@)
            &&& body.token is None ==> step == UpdatePasswordStep::Respond(
                Err(EmulatorError::Unauthorized),
            )
        },
{
    reveal_strlit(":");
    let none = Seq::<char>::empty();
    crate::routes::auth::bearer::law_project_id_is_dropped(project_id, token);
    crate::routes::auth::bearer::law_project_id_is_dropped(project_id, none);
    crate::routes::auth::bearer::law_project_id_is_dropped(none, none);
    let named = project_id + ":"@ + token;
    assert("Bearer "@ + project_id + ":"@ + token =~= "Bearer "@ + named);
    assert(("Bearer "@ + named).skip("Bearer "@.len() as int) =~= named);
    assert(("Bearer "@ + token).skip("Bearer "@.len() as int) =~= token);
    assert("Bearer "@.skip("Bearer "@.len() as int) =~= none);
    let bare = project_id + ":"@ + none;
    assert("Bearer "@ + project_id + ":"@ =~= "Bearer "@ + bare);
    assert(("Bearer "@ + bare).skip("Bearer "@.len() as int) =~= bare);
}

/// Whether the token was found to authorize an update: as a refresh token, or else as a session
/// token, or else as a reset token that was used up.
pub open spec fn authorizes(seen: UpdatePasswordSeen) -> bool {
    ||| seen.refresh_valid == Some(true)
    ||| seen.refresh_valid == Some(false) && seen.session_valid == Some(true)
    ||| seen.refresh_valid == Some(false) && seen.session_valid == Some(false) && (
    seen.consumed matches Some(Ok(_)))
}

/// An update goes on step by step: the token is tried as a refresh token, then as a session token,
/// and is used up only as neither; then the hash of the new password is stored under the login id
/// of the request.
pub proof fn law_update_step_by_step(
    authorization: Option<Seq<char>>,
    seen: UpdatePasswordSeen,
    step: UpdatePasswordStep,
    e: EmulatorError,
    message: String,
)
    requires
        password::update_password_is(authorization, seen, step),
    ensures
        seen.body is None <==> step is ReadBody,
        seen.body matches Some(Err(m)) ==> step == UpdatePasswordStep::Respond(
            Err(EmulatorError::Internal(m)),
        ),
        seen.body matches Some(Ok(Err(m))) ==> step == UpdatePasswordStep::Respond(
            Err(EmulatorError::Internal(m)),
        ),
        (seen.body matches Some(Ok(Ok(body))) && password::update_token(authorization, body) is None)
            ==> step == UpdatePasswordStep::Respond(Err(EmulatorError::Unauthorized)),
        (seen.body matches Some(Ok(Ok(body))) && password::update_token(authorization, body)
            is Some) ==> {
            let token = password::update_token(authorization, seen.body->0->Ok_0->Ok_0)->0;
            &&& step matches UpdatePasswordStep::ValidateRefresh(t) ==> t@ == token
            &&& step matches UpdatePasswordStep::ValidateSession(t) ==> t@ == token
            &&& step matches UpdatePasswordStep::ConsumeToken(t) ==> t@ == token
            &&& seen.refresh_valid is None <==> step is ValidateRefresh
            &&& seen.refresh_valid == Some(false) && seen.session_valid is None <==> (
            step is ValidateSession)
            &&& seen.refresh_valid == Some(false) && seen.session_valid == Some(false)
                && seen.consumed is None <==> step is ConsumeToken
            &&& seen.refresh_valid == Some(false) && seen.session_valid == Some(false)
                && seen.consumed == Some(Err::<(), EmulatorError>(e)) ==> step
                == UpdatePasswordStep::Respond(Err(e))
            &&& authorizes(seen) && (seen.hash matches Some(Ok(Ok(_)))) && (seen.stored matches Some(
                Ok(_),
            )) <==> (step matches UpdatePasswordStep::Respond(Ok(_)))
        },
        (seen.body matches Some(Ok(Ok(body))) && password::update_token(authorization, body)
            is Some) && authorizes(seen) ==> {
            let body = seen.body->0->Ok_0->Ok_0;
            &&& seen.hash is None <==> step is HashPassword
            &&& step matches UpdatePasswordStep::HashPassword(password) ==> password@
                == body.new_password@
            &&& seen.hash == Some(Err::<Result<String, EmulatorError>, String>(message)) ==> step
                == UpdatePasswordStep::Respond(Err(EmulatorError::Internal(message)))
            &&& seen.hash == Some(
                Ok::<Result<String, EmulatorError>, String>(Err::<String, EmulatorError>(e)),
            ) ==> step == UpdatePasswordStep::Respond(Err(e))
            &&& (seen.hash matches Some(Ok(Ok(_)))) && seen.stored is None <==> step is SetPassword
            &&& step matches UpdatePasswordStep::SetPassword { login_id, hash } ==> login_id@
                == body.login_id@ && hash@ == seen.hash->0->Ok_0->Ok_0@
            &&& (seen.hash matches Some(Ok(Ok(_)))) && seen.stored == Some(
                Err::<(), EmulatorError>(e),
            ) ==> step == UpdatePasswordStep::Respond(Err(e))
        },
        step matches UpdatePasswordStep::Respond(Ok(body)) ==> body@ is Object
            && body@->Object_0.len() == 1 && body@.at("ok"@) == Some(JsonView::Bool(true)),
{
    if let UpdatePasswordStep::Respond(Ok(body)) = step {
        json::lemma_member(body@->Object_0, 0);
    }
}

/// The policy is shown setting by setting; the greatest length is always the same.
pub proof fn law_policy_shows_the_settings(config: PasswordConfig)
    ensures
        ({
            let shown = password::policy_shown(config);
            &&& shown is Object
            &&& shown->Object_0.len() == 7
            &&& shown.at("active"@) == Some(JsonView::Bool(config.enabled))
            &&& shown.at("minLength"@) == Some(
                JsonView::Number(text::decimal(config.min_length as nat)),
            )
            &&& shown.at("maxLength"@) == Some(JsonView::Number("128"@))
            &&& shown.at("lowercase"@) == Some(JsonView::Bool(config.require_lowercase))
            &&& shown.at("uppercase"@) == Some(JsonView::Bool(config.require_uppercase))
            &&& shown.at("number"@) == Some(JsonView::Bool(config.require_number))
            &&& shown.at("nonAlphanumeric"@) == Some(
                JsonView::Bool(config.require_non_alphanumeric),
            )
        }),
{
    reveal_strlit("active");
    reveal_strlit("minLength");
    reveal_strlit("maxLength");
    reveal_strlit("lowercase");
    reveal_strlit("uppercase");
    reveal_strlit("number");
    reveal_strlit("nonAlphanumeric");
    reveal_strlit("128");
    let members = password::policy_shown(config)->Object_0;
    assert("active"@[0] != "number"@[0]);
    assert("minLength"@[1] != "maxLength"@[1]);
    assert("minLength"@[0] != "lowercase"@[0]);
    assert("minLength"@[0] != "uppercase"@[0]);
    assert("maxLength"@[0] != "lowercase"@[0]);
    assert("maxLength"@[0] != "uppercase"@[0]);
    assert("lowercase"@[0] != "uppercase"@[0]);
    assert(members[0].0 == "active"@ && members[1].0 == "minLength"@);
    assert(members[2].0 == "maxLength"@ && members[3].0 == "lowercase"@);
    assert(members[4].0 == "uppercase"@ && members[5].0 == "number"@);
    assert(members[6].0 == "nonAlphanumeric"@);
    assert(members[0].0 != members[5].0);
    assert(members[1].0 != members[2].0);
    assert(members[1].0 != members[3].0);
    assert(members[1].0 != members[4].0);
    assert(members[2].0 != members[3].0);
    assert(members[2].0 != members[4].0);
    assert(members[3].0 != members[4].0);
    assert forall|i: int, j: int| 0 <= j < i < 7 implies #[trigger] members[j].0
        != #[trigger] members[i].0 by {
        if members[j].0 == members[i].0 {
            assert(members[j].0.len() == members[i].0.len());
        }
    }
    assert forall|i: int| 0 <= i < 7 implies #[trigger] json::value_at(members, members[i].0)
        == Some(members[i].1) by {
        json::lemma_member(members, i);
    }
    reveal_with_fuel(text::decimal, 3);
    assert(text::decimal(128) =~= "128"@);
}

/// An address can be masked unless the bytes that it would show end within a character: what is no
/// address can be, and so can one with at most two bytes before the `@`, or with a character end
/// behind two of them.
pub proof fn law_maskable(user: Seq<char>, domain: Seq<char>, plain: Seq<char>)
    requires
        !user.contains('@'),
        !plain.contains('@'),
    ensures
        password::maskable(plain),
        password::maskable(user + "@"@ + domain) <==> text::byte_len(user) <= 2 || exists|n: int|
            0 <= n <= user.len() && text::byte_len(#[trigger] user.take(n)) == 2,
{
    reveal_strlit("@");
    let email = user + "@"@ + domain;
    text::law_split_at_first(user, '@', domain);
    assert(email =~= user + seq!['@'] + domain);
    assert(email[user.len() as int] == '@');
    text::law_cut_is_the_longest_that_fits(user, 2);
    text::lemma_fitting(user, 2);
    if exists|n: int| 0 <= n <= user.len() && text::byte_len(#[trigger] user.take(n)) == 2 {
        let n = choose|n: int| 0 <= n <= user.len() && text::byte_len(#[trigger] user.take(n)) == 2;
        text::law_cut_keeps_the_first_bytes(user.take(n), user.skip(n));
        assert(user.take(n) + user.skip(n) =~= user);
    }
    if text::cut_at(user, 2) {
        assert(text::byte_len(user.take(text::fitting(user, 2) as int)) == 2);
    }
}

/// A body that is not empty is parsed as it is, and an empty one as an object without members.
pub proof fn law_only_an_empty_body_is_replaced(bytes: Seq<u8>)
    ensures
        bytes.len() > 0 ==> password::given_or_empty_object(bytes) == bytes,
        bytes.len() == 0 ==> password::given_or_empty_object(bytes) == seq!['{' as u8, '}' as u8],
{
}

} // verus!
