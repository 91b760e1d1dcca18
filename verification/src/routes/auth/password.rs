//! Signing up and in with a password, and changing it.
use crate::error::EmulatorError;
use crate::headers;
use crate::json::{member, number, object, text, Json, JsonView};
use crate::routes::auth::bearer;
use crate::routes::auth::issue::{self, issue, IssueStep, Issued, TokenAsk, TokenTtl};
use crate::routes::replies;
use crate::text;
use crate::types::{PasswordConfig, Reply, User};
use axum::http::HeaderMap;
use vstd::prelude::*;

verus! {

/// Whether the address can be masked: where the part before the first `@` is longer than two
/// bytes, the second byte ends a character.
pub open spec fn maskable(email: Seq<char>) -> bool {
    email.contains('@') && text::byte_len(text::before(email, '@')) > 2 ==> text::cut_at(
        text::before(email, '@'),
        2,
    )
}

/// The part before the `@` with all but its first two bytes masked; one of at most two bytes is
/// masked byte for byte.
pub open spec fn masked_user(user: Seq<char>) -> Seq<char> {
    if text::byte_len(user) <= 2 {
        Seq::new(text::byte_len(user), |i: int| '*')
    } else {
        text::cut(user, 2) + "***"@
    }
}

/// The address as a reply may show it.
pub open spec fn masked(email: Seq<char>) -> Seq<char> {
    match text::behind(email, '@') {
        Some(domain) => masked_user(text::before(email, '@')) + "@"@ + domain,
        None => "***"@,
    }
}

/// Whether the address can be masked.
pub fn is_maskable(email: &str) -> (r: bool)
    ensures
        r == maskable(email@),
{
    let chars = text::to_chars(email);
    let at = text::find(&chars, '@');
    proof {
        text::lemma_position(email@, '@');
    }
    if at == chars.len() {
        return true;
    }
    let user = text::to_chars(text::from_chars(&chars, 0, at).as_str());
    assert(user@ =~= text::before(email@, '@'));
    let (count, used) = text::fit(&user, 2);
    count == user.len() || used == 2
}

/// The address as a reply may show it.
pub fn masked_email(email: &str) -> (r: String)
    requires
        maskable(email@),
    ensures
        r@ == masked(email@),
{
    let chars = text::to_chars(email);
    let at = text::find(&chars, '@');
    proof {
        text::lemma_position(email@, '@');
    }
    if at == chars.len() {
        return "***".to_owned();
    }
    let user = text::to_chars(text::from_chars(&chars, 0, at).as_str());
    assert(user@ =~= text::before(email@, '@'));
    let (count, used) = text::fit(&user, 2);
    let mut r: String;
    if count == user.len() {
        assert(user@.take(count as int) =~= user@);
        if used == 0 {
            r = "".to_owned();
        } else if used == 1 {
            r = "*".to_owned();
        } else {
            r = "**".to_owned();
        }
        proof {
            reveal_strlit("");
            reveal_strlit("*");
            reveal_strlit("**");
            assert(r@ =~= masked_user(user@));
        }
    } else {
        r = text::from_chars(&user, 0, count);
        r.append("***");
        assert(r@ =~= masked_user(user@));
    }
    r.append("@");
    let domain = text::from_chars(&chars, at + 1, chars.len());
    assert(domain@ =~= email@.skip(at + 1));
    r.append(domain.as_str());
    r
}

/// A request to sign up.
#[derive(Debug)]
pub struct SignupRequest {
    pub login_id: String,
    pub password: String,
    pub user: Option<UserFields>,
}

/// What a request to sign up says of the user.
#[derive(Debug)]
pub struct UserFields {
    pub email: Option<String>,
    pub phone: Option<String>,
    pub name: Option<String>,
    pub given_name: Option<String>,
    pub family_name: Option<String>,
}

impl Default for UserFields {
    fn default() -> (r: Self)
        ensures
            r == no_fields(),
    {
        UserFields { email: None, phone: None, name: None, given_name: None, family_name: None }
    }
}

/// Nothing said of the user.
pub open spec fn no_fields() -> UserFields {
    UserFields { email: None, phone: None, name: None, given_name: None, family_name: None }
}

/// What is known so far of a sign-up.
pub struct SignupSeen {
    /// Whether signing in by password is enabled.
    pub method: Option<Result<(), EmulatorError>>,
    /// The hash of the password, or the text of the failure of the task that was to make it.
    pub hash: Option<Result<Result<String, EmulatorError>, String>>,
    /// Whether the user was stored.
    pub inserted: Option<Result<(), EmulatorError>>,
    /// The stored user.
    pub user: Option<Result<User, EmulatorError>>,
    pub issued: Issued,
    /// Whether the login was recorded, or tried to be.
    pub login_recorded: bool,
}

/// What a sign-up does next.
#[derive(Debug)]
pub enum SignupStep<'a> {
    /// Check that this way to sign in is enabled.
    CheckMethod(&'a str),
    /// Hash this password.
    HashPassword(&'a str),
    /// Store this user.
    InsertUser(User),
    /// Load the user with this login id.
    LoadUser(&'a str),
    Tokens(TokenAsk<'a>),
    /// Record a login under this login id; whether that works does not matter.
    RecordLogin(&'a str),
    Respond(Result<Reply, EmulatorError>),
}

/// The email address of a new user: the one given, or a login id that looks like one.
pub open spec fn signup_email(req: SignupRequest) -> Option<String> {
    match req.user {
        Some(UserFields { email: Some(email), .. }) => Some(email),
        _ => if req.login_id@.contains('@') {
            Some(req.login_id)
        } else {
            None
        },
    }
}

/// Whether `user` is the one that the request asks for.
pub open spec fn signed_up(
    req: SignupRequest,
    user_id: Seq<char>,
    now: u64,
    hash: String,
    user: User,
) -> bool {
    let fields = match req.user {
        Some(fields) => fields,
        None => no_fields(),
    };
    &&& user.user_id@ == user_id
    &&& user.login_ids@ == seq![req.login_id]
    &&& user.email == signup_email(req)
    &&& user.phone == fields.phone
    &&& user.name == fields.name
    &&& user.given_name == fields.given_name
    &&& user.family_name == fields.family_name
    &&& user.status@ == "enabled"@
    &&& user.created_time == now
    &&& user.password
    &&& user.password_hash == Some(hash)
    &&& user.user_tenants@.len() == 0
}

/// Which step of a sign-up follows: the method check, the hash, storing and loading the user, the
/// tokens, recording the login, and the reply. The first failure is the answer.
pub open spec fn signup_is(
    req: SignupRequest,
    user_id: Seq<char>,
    now: u64,
    ttl: TokenTtl,
    seen: SignupSeen,
    step: SignupStep,
) -> bool {
    match seen.method {
        None => step matches SignupStep::CheckMethod(method) && method@ == "password"@,
        Some(Err(e)) => step == SignupStep::Respond(Err(e)),
        Some(Ok(_)) => match seen.hash {
            None => step matches SignupStep::HashPassword(password) && password@ == req.password@,
            Some(Err(message)) => step == SignupStep::Respond(
                Err(EmulatorError::Internal(message)),
            ),
            Some(Ok(Err(e))) => step == SignupStep::Respond(Err(e)),
            Some(Ok(Ok(hash))) => match seen.inserted {
                None => step matches SignupStep::InsertUser(user) && signed_up(
                    req,
                    user_id,
                    now,
                    hash,
                    user,
                ),
                Some(Err(e)) => step == SignupStep::Respond(Err(e)),
                Some(Ok(_)) => match seen.user {
                    None => step matches SignupStep::LoadUser(login_id) && login_id@
                        == req.login_id@,
                    Some(Err(e)) => step == SignupStep::Respond(Err(e)),
                    Some(Ok(user)) => match step {
                        SignupStep::Tokens(ask) => issue::asks_for(
                            ttl,
                            user,
                            None,
                            seen.issued,
                            ask,
                        ),
                        SignupStep::RecordLogin(login_id) => !seen.login_recorded
                            && issue::granted(seen.issued) && login_id@
                            == req.login_id@,
                        SignupStep::Respond(result) => (seen.login_recorded || result is Err)
                            && issue::issues(ttl, seen.issued, result),
                        _ => false,
                    },
                },
            },
        },
    }
}

/// The user that a request to sign up asks for.
fn new_user(req: &SignupRequest, user_id: &str, now: u64, hash: &String) -> (r: User)
    ensures
        signed_up(*req, user_id@, now, *hash, r),
{
    let email = match &req.user {
        Some(UserFields { email: Some(email), .. }) => Some(email.clone()),
        _ => if text::contains(req.login_id.as_str(), '@') {
            Some(req.login_id.clone())
        } else {
            None
        },
    };
    let (phone, name, given_name, family_name) = match &req.user {
        Some(fields) => (
            text::copy_of(&fields.phone),
            text::copy_of(&fields.name),
            text::copy_of(&fields.given_name),
            text::copy_of(&fields.family_name),
        ),
        None => (None, None, None, None),
    };
    let login_ids = vec![req.login_id.clone()];
    assert(login_ids@ =~= seq![req.login_id]);
    User {
        user_id: user_id.to_owned(),
        login_ids,
        email,
        phone,
        name,
        given_name,
        family_name,
        status: "enabled".to_owned(),
        created_time: now,
        password: true,
        password_hash: Some(hash.clone()),
        user_tenants: Vec::new(),
    }
}

/// The next step of a sign-up.
pub fn signup<'a>(
    req: &'a SignupRequest,
    user_id: &str,
    now: u64,
    ttl: TokenTtl,
    seen: &'a SignupSeen,
) -> (r: SignupStep<'a>)
    requires
        issue::replyable(ttl.session, seen.issued),
    ensures
        signup_is(*req, user_id@, now, ttl, *seen, r),
{
    match &seen.method {
        None => return SignupStep::CheckMethod("password"),
        Some(Err(e)) => return SignupStep::Respond(Err(e.clone())),
        Some(Ok(_)) => {},
    }
    let hash = match &seen.hash {
        None => return SignupStep::HashPassword(req.password.as_str()),
        Some(Err(message)) => return SignupStep::Respond(
            Err(EmulatorError::Internal(message.clone())),
        ),
        Some(Ok(Err(e))) => return SignupStep::Respond(Err(e.clone())),
        Some(Ok(Ok(hash))) => hash,
    };
    match &seen.inserted {
        None => return SignupStep::InsertUser(new_user(req, user_id, now, hash)),
        Some(Err(e)) => return SignupStep::Respond(Err(e.clone())),
        Some(Ok(_)) => {},
    }
    let user = match &seen.user {
        None => return SignupStep::LoadUser(req.login_id.as_str()),
        Some(Err(e)) => return SignupStep::Respond(Err(e.clone())),
        Some(Ok(user)) => user,
    };
    match issue(ttl, user, None, &seen.issued) {
        IssueStep::Ask(ask) => SignupStep::Tokens(ask),
        IssueStep::Done(Err(e)) => SignupStep::Respond(Err(e)),
        IssueStep::Done(Ok(reply)) => if seen.login_recorded {
            SignupStep::Respond(Ok(reply))
        } else {
            SignupStep::RecordLogin(req.login_id.as_str())
        },
    }
}

/// A request to sign in.
#[derive(Debug)]
pub struct SigninRequest {
    pub login_id: String,
    pub password: String,
}

/// What is known so far of a sign-in.
pub struct SigninSeen {
    /// Whether signing in by password is enabled.
    pub method: Option<Result<(), EmulatorError>>,
    /// Whether the login id is free of a lockout.
    pub lockout: Option<Result<(), EmulatorError>>,
    /// The user whose password is to be checked.
    pub account: Option<Result<User, EmulatorError>>,
    /// Whether the password is the one that the hash stands for (nothing where the hash is
    /// malformed), or the text of the failure of the task that was to tell.
    pub verified: Option<Result<Option<bool>, String>>,
    /// Whether the failure was counted.
    pub failure_recorded: bool,
    /// Whether earlier failures were forgotten.
    pub failures_cleared: bool,
    /// The user who signs in.
    pub user: Option<Result<User, EmulatorError>>,
    pub issued: Issued,
    /// Whether the login was recorded, or tried to be.
    pub login_recorded: bool,
}

/// What a sign-in does next.
#[derive(Debug)]
pub enum SigninStep<'a> {
    /// Check that this way to sign in is enabled.
    CheckMethod(&'a str),
    /// Check that this login id is not locked out.
    CheckLockout(&'a str),
    /// Load the user with this login id to check the password.
    LoadAccount(&'a str),
    /// Check this password against this hash.
    VerifyPassword { password: &'a str, hash: &'a str },
    /// Count a failure against this login id.
    RecordFailure(&'a str),
    /// Forget the failures of this login id.
    ClearFailures(&'a str),
    /// Load the user with this login id.
    LoadUser(&'a str),
    Tokens(TokenAsk<'a>),
    /// Record a login under this login id; whether that works does not matter.
    RecordLogin(&'a str),
    Respond(Result<Reply, EmulatorError>),
}

/// Which step of a sign-in follows: the method and lockout checks, the password check, which on a
/// wrong password counts a failure, forgetting earlier failures, loading the user, who must not
/// be disabled, the tokens, recording the login, and the reply. The first failure is the answer.
pub open spec fn signin_is(
    req: SigninRequest,
    ttl: TokenTtl,
    seen: SigninSeen,
    step: SigninStep,
) -> bool {
    match seen.method {
        None => step matches SigninStep::CheckMethod(method) && method@ == "password"@,
        Some(Err(e)) => step == SigninStep::Respond(Err(e)),
        Some(Ok(_)) => match seen.lockout {
            None => step matches SigninStep::CheckLockout(login_id) && login_id@ == req.login_id@,
            Some(Err(e)) => step == SigninStep::Respond(Err(e)),
            Some(Ok(_)) => match seen.account {
                None => step matches SigninStep::LoadAccount(login_id) && login_id@
                    == req.login_id@,
                Some(Err(e)) => step == SigninStep::Respond(Err(e)),
                Some(Ok(account)) => match account.password_hash {
                    None => step == SigninStep::Respond(Err(EmulatorError::InvalidCredentials)),
                    Some(stored) => match seen.verified {
                        None => step matches SigninStep::VerifyPassword { password, hash }
                            && password@ == req.password@ && hash@ == stored@,
                        Some(Err(message)) => step == SigninStep::Respond(
                            Err(EmulatorError::Internal(message)),
                        ),
                        Some(Ok(None)) => step == SigninStep::Respond(
                            Err(EmulatorError::InvalidCredentials),
                        ),
                        Some(Ok(Some(false))) => if seen.failure_recorded {
                            step == SigninStep::Respond(Err(EmulatorError::InvalidCredentials))
                        } else {
                            step matches SigninStep::RecordFailure(login_id) && login_id@
                                == req.login_id@
                        },
                        Some(Ok(Some(true))) => signs_in(req, ttl, seen, step),
                    },
                },
            },
        },
    }
}

/// Which step of a sign-in follows once the password was found right.
pub open spec fn signs_in(
    req: SigninRequest,
    ttl: TokenTtl,
    seen: SigninSeen,
    step: SigninStep,
) -> bool {
    if !seen.failures_cleared {
        step matches SigninStep::ClearFailures(login_id) && login_id@ == req.login_id@
    } else {
        match seen.user {
            None => step matches SigninStep::LoadUser(login_id) && login_id@ == req.login_id@,
            Some(Err(e)) => step == SigninStep::Respond(Err(e)),
            Some(Ok(user)) => if user.status@ == "disabled"@ {
                step == SigninStep::Respond(Err(EmulatorError::UserDisabled))
            } else {
                match step {
                    SigninStep::Tokens(ask) => issue::asks_for(
                        ttl,
                        user,
                        None,
                        seen.issued,
                        ask,
                    ),
                    SigninStep::RecordLogin(login_id) => !seen.login_recorded
                        && issue::granted(seen.issued) && login_id@
                        == req.login_id@,
                    SigninStep::Respond(result) => (seen.login_recorded || result is Err)
                        && issue::issues(ttl, seen.issued, result),
                    _ => false,
                }
            },
        }
    }
}

/// The next step of a sign-in.
pub fn signin<'a>(req: &'a SigninRequest, ttl: TokenTtl, seen: &'a SigninSeen) -> (r: SigninStep<
    'a,
>)
    requires
        issue::replyable(ttl.session, seen.issued),
    ensures
        signin_is(*req, ttl, *seen, r),
{
    match &seen.method {
        None => return SigninStep::CheckMethod("password"),
        Some(Err(e)) => return SigninStep::Respond(Err(e.clone())),
        Some(Ok(_)) => {},
    }
    match &seen.lockout {
        None => return SigninStep::CheckLockout(req.login_id.as_str()),
        Some(Err(e)) => return SigninStep::Respond(Err(e.clone())),
        Some(Ok(_)) => {},
    }
    let hash = match &seen.account {
        None => return SigninStep::LoadAccount(req.login_id.as_str()),
        Some(Err(e)) => return SigninStep::Respond(Err(e.clone())),
        Some(Ok(account)) => match &account.password_hash {
            None => return SigninStep::Respond(Err(EmulatorError::InvalidCredentials)),
            Some(hash) => hash,
        },
    };
    match &seen.verified {
        None => return SigninStep::VerifyPassword {
            password: req.password.as_str(),
            hash: hash.as_str(),
        },
        Some(Err(message)) => return SigninStep::Respond(
            Err(EmulatorError::Internal(message.clone())),
        ),
        Some(Ok(None)) => return SigninStep::Respond(Err(EmulatorError::InvalidCredentials)),
        Some(Ok(Some(valid))) => if !*valid {
            if seen.failure_recorded {
                return SigninStep::Respond(Err(EmulatorError::InvalidCredentials));
            }
            return SigninStep::RecordFailure(req.login_id.as_str());
        },
    }
    if !seen.failures_cleared {
        return SigninStep::ClearFailures(req.login_id.as_str());
    }
    let user = match &seen.user {
        None => return SigninStep::LoadUser(req.login_id.as_str()),
        Some(Err(e)) => return SigninStep::Respond(Err(e.clone())),
        Some(Ok(user)) => user,
    };
    if text::same(user.status.as_str(), "disabled") {
        return SigninStep::Respond(Err(EmulatorError::UserDisabled));
    }
    match issue(ttl, user, None, &seen.issued) {
        IssueStep::Ask(ask) => SigninStep::Tokens(ask),
        IssueStep::Done(Err(e)) => SigninStep::Respond(Err(e)),
        IssueStep::Done(Ok(reply)) => if seen.login_recorded {
            SigninStep::Respond(Ok(reply))
        } else {
            SigninStep::RecordLogin(req.login_id.as_str())
        },
    }
}

/// A request to replace a password.
#[derive(Debug)]
pub struct ReplaceRequest {
    pub login_id: String,
    pub old_password: String,
    pub new_password: String,
}

/// What is known so far of a replacement.
pub struct ReplaceSeen {
    /// The user whose old password is to be checked.
    pub account: Option<Result<User, EmulatorError>>,
    /// Whether the old password is the one that the hash stands for (nothing where the hash is
    /// malformed), or the text of the failure of the task that was to tell.
    pub verified: Option<Result<Option<bool>, String>>,
    /// The hash of the new password, or the text of the failure of the task that was to make it.
    pub hash: Option<Result<Result<String, EmulatorError>, String>>,
    /// Whether the new hash was stored.
    pub stored: Option<Result<(), EmulatorError>>,
    /// The user with the new password.
    pub user: Option<Result<User, EmulatorError>>,
    pub issued: Issued,
}

/// What a replacement does next.
#[derive(Debug)]
pub enum ReplaceStep<'a> {
    /// Load the user with this login id to check the old password.
    LoadAccount(&'a str),
    /// Check this password against this hash.
    VerifyPassword { password: &'a str, hash: &'a str },
    /// Hash this password.
    HashPassword(&'a str),
    /// Store this hash for this login id.
    SetPassword { login_id: &'a str, hash: &'a str },
    /// Load the user with this login id.
    LoadUser(&'a str),
    Tokens(TokenAsk<'a>),
    Respond(Result<Reply, EmulatorError>),
}

/// Which step of a replacement follows: the check of the old password, the hash of the new one,
/// storing it, loading the user, the tokens, and the reply. The first failure is the answer.
pub open spec fn replace_is(
    req: ReplaceRequest,
    ttl: TokenTtl,
    seen: ReplaceSeen,
    step: ReplaceStep,
) -> bool {
    match seen.account {
        None => step matches ReplaceStep::LoadAccount(login_id) && login_id@ == req.login_id@,
        Some(Err(e)) => step == ReplaceStep::Respond(Err(e)),
        Some(Ok(account)) => match account.password_hash {
            None => step == ReplaceStep::Respond(Err(EmulatorError::InvalidCredentials)),
            Some(stored) => match seen.verified {
                None => step matches ReplaceStep::VerifyPassword { password, hash } && password@
                    == req.old_password@ && hash@ == stored@,
                Some(Err(message)) => step == ReplaceStep::Respond(
                    Err(EmulatorError::Internal(message)),
                ),
                Some(Ok(None)) => step == ReplaceStep::Respond(
                    Err(EmulatorError::InvalidCredentials),
                ),
                Some(Ok(Some(false))) => step == ReplaceStep::Respond(
                    Err(EmulatorError::InvalidCredentials),
                ),
                Some(Ok(Some(true))) => replaces(req, ttl, seen, step),
            },
        },
    }
}

/// Which step of a replacement follows once the old password was found right.
pub open spec fn replaces(
    req: ReplaceRequest,
    ttl: TokenTtl,
    seen: ReplaceSeen,
    step: ReplaceStep,
) -> bool {
    match seen.hash {
        None => step matches ReplaceStep::HashPassword(password) && password@
            == req.new_password@,
        Some(Err(message)) => step == ReplaceStep::Respond(Err(EmulatorError::Internal(message))),
        Some(Ok(Err(e))) => step == ReplaceStep::Respond(Err(e)),
        Some(Ok(Ok(new))) => match seen.stored {
            None => step matches ReplaceStep::SetPassword { login_id, hash } && login_id@
                == req.login_id@ && hash@ == new@,
            Some(Err(e)) => step == ReplaceStep::Respond(Err(e)),
            Some(Ok(_)) => match seen.user {
                None => step matches ReplaceStep::LoadUser(login_id) && login_id@
                    == req.login_id@,
                Some(Err(e)) => step == ReplaceStep::Respond(Err(e)),
                Some(Ok(user)) => match step {
                    ReplaceStep::Tokens(ask) => issue::asks_for(
                        ttl,
                        user,
                        None,
                        seen.issued,
                        ask,
                    ),
                    ReplaceStep::Respond(result) => issue::issues(
                        ttl,
                        seen.issued,
                        result,
                    ),
                    _ => false,
                },
            },
        },
    }
}

/// The next step of a replacement.
pub fn replace<'a>(
    req: &'a ReplaceRequest,
    ttl: TokenTtl,
    seen: &'a ReplaceSeen,
) -> (r: ReplaceStep<'a>)
    requires
        issue::replyable(ttl.session, seen.issued),
    ensures
        replace_is(*req, ttl, *seen, r),
{
    let hash = match &seen.account {
        None => return ReplaceStep::LoadAccount(req.login_id.as_str()),
        Some(Err(e)) => return ReplaceStep::Respond(Err(e.clone())),
        Some(Ok(account)) => match &account.password_hash {
            None => return ReplaceStep::Respond(Err(EmulatorError::InvalidCredentials)),
            Some(hash) => hash,
        },
    };
    match &seen.verified {
        None => return ReplaceStep::VerifyPassword {
            password: req.old_password.as_str(),
            hash: hash.as_str(),
        },
        Some(Err(message)) => return ReplaceStep::Respond(
            Err(EmulatorError::Internal(message.clone())),
        ),
        Some(Ok(None)) => return ReplaceStep::Respond(Err(EmulatorError::InvalidCredentials)),
        Some(Ok(Some(valid))) => if !*valid {
            return ReplaceStep::Respond(Err(EmulatorError::InvalidCredentials));
        },
    }
    let new = match &seen.hash {
        None => return ReplaceStep::HashPassword(req.new_password.as_str()),
        Some(Err(message)) => return ReplaceStep::Respond(
            Err(EmulatorError::Internal(message.clone())),
        ),
        Some(Ok(Err(e))) => return ReplaceStep::Respond(Err(e.clone())),
        Some(Ok(Ok(new))) => new,
    };
    match &seen.stored {
        None => return ReplaceStep::SetPassword {
            login_id: req.login_id.as_str(),
            hash: new.as_str(),
        },
        Some(Err(e)) => return ReplaceStep::Respond(Err(e.clone())),
        Some(Ok(_)) => {},
    }
    let user = match &seen.user {
        None => return ReplaceStep::LoadUser(req.login_id.as_str()),
        Some(Err(e)) => return ReplaceStep::Respond(Err(e.clone())),
        Some(Ok(user)) => user,
    };
    match issue(ttl, user, None, &seen.issued) {
        IssueStep::Ask(ask) => ReplaceStep::Tokens(ask),
        IssueStep::Done(result) => ReplaceStep::Respond(result),
    }
}

/// A request to send a reset token.
#[derive(Debug)]
pub struct SendResetRequest {
    pub login_id: String,
}

/// What is known so far of sending a reset token.
pub struct SendResetSeen {
    /// The user who forgot the password.
    pub user: Option<Result<User, EmulatorError>>,
    /// Whether the token was stored.
    pub token_stored: bool,
    /// The connector that is to be told of resets, where there is one.
    pub connector: Option<Option<String>>,
    /// Whether that connector was told, or tried to be.
    pub notified: bool,
}

/// What sending a reset token does next.
#[derive(Debug)]
pub enum SendResetStep<'a> {
    /// Load the user with this login id.
    LoadUser(&'a str),
    /// Store the token as a reset token of the user with this id.
    StoreToken { token: &'a str, user_id: &'a str },
    /// Read which connector is to be told of resets.
    ReadConnector,
    /// Tell the connector with this id, where there is one, without waiting for it.
    Notify { connector_id: &'a str, login_id: &'a str, token: &'a str },
    Respond(Result<Json, EmulatorError>),
}

/// The user's email address; empty where there is none.
pub open spec fn address_of(user: User) -> Seq<char> {
    match user.email {
        Some(email) => email@,
        None => ""@,
    }
}

/// The reply to a request for a reset token, which hands out the token itself.
pub open spec fn reset_sent(email: Seq<char>, token: Seq<char>) -> JsonView {
    JsonView::Object(
        seq![
            ("ok"@, JsonView::Bool(true)),
            ("resetMethod"@, JsonView::Text("email"@)),
            ("maskedEmail"@, JsonView::Text(masked(email))),
            ("token"@, JsonView::Text(token)),
        ],
    )
}

/// Which step of sending a reset token follows: loading the user, storing the token, telling the
/// connector, where one is configured, and the reply.
pub open spec fn send_reset_is(
    req: SendResetRequest,
    fresh: Seq<char>,
    seen: SendResetSeen,
    step: SendResetStep,
) -> bool {
    match seen.user {
        None => step matches SendResetStep::LoadUser(login_id) && login_id@ == req.login_id@,
        Some(Err(e)) => step == SendResetStep::Respond(Err(e)),
        Some(Ok(user)) => if !seen.token_stored {
            step matches SendResetStep::StoreToken { token, user_id } && token@ == fresh
                && user_id@ == user.user_id@
        } else {
            match seen.connector {
                None => step is ReadConnector,
                Some(connector) => if connector is Some && !seen.notified {
                    step matches SendResetStep::Notify { connector_id, login_id, token }
                        && connector_id@ == connector->0@ && login_id@ == req.login_id@ && token@
                        == fresh
                } else {
                    step matches SendResetStep::Respond(Ok(body)) && body@ == reset_sent(
                        address_of(user),
                        fresh,
                    )
                },
            }
        },
    }
}

/// The next step of sending the fresh reset token `token`.
pub fn send_reset<'a>(
    req: &'a SendResetRequest,
    token: &'a str,
    seen: &'a SendResetSeen,
) -> (r: SendResetStep<'a>)
    requires
        seen.user matches Some(Ok(user)) ==> maskable(address_of(user)),
    ensures
        send_reset_is(*req, token@, *seen, r),
{
    let user = match &seen.user {
        None => return SendResetStep::LoadUser(req.login_id.as_str()),
        Some(Err(e)) => return SendResetStep::Respond(Err(e.clone())),
        Some(Ok(user)) => user,
    };
    if !seen.token_stored {
        return SendResetStep::StoreToken { token, user_id: user.user_id.as_str() };
    }
    match &seen.connector {
        None => return SendResetStep::ReadConnector,
        Some(Some(connector_id)) => if !seen.notified {
            return SendResetStep::Notify {
                connector_id: connector_id.as_str(),
                login_id: req.login_id.as_str(),
                token,
            };
        },
        Some(None) => {},
    }
    let email = match &user.email {
        Some(email) => email.as_str(),
        None => "",
    };
    let masked_address = masked_email(email);
    let body = object(
        vec![
            member("ok", Json::Bool(true)),
            member("resetMethod", text("email")),
            member("maskedEmail", text(masked_address.as_str())),
            member("token", text(token)),
        ],
    );
    assert(body@->Object_0 =~= reset_sent(address_of(*user), token@)->Object_0);
    SendResetStep::Respond(Ok(body))
}

/// A request to set a new password.
#[derive(Debug)]
pub struct UpdatePasswordRequest {
    pub login_id: String,
    pub new_password: String,
    pub token: Option<String>,
}

/// What is known so far of an update.
pub struct UpdatePasswordSeen {
    /// The request, or why it could not be parsed, or why it could not be read.
    pub body: Option<Result<Result<UpdatePasswordRequest, String>, String>>,
    /// Whether the token is a valid refresh token.
    pub refresh_valid: Option<bool>,
    /// Whether the token is a valid session token.
    pub session_valid: Option<bool>,
    /// Whether the token was a reset token, which now is used up.
    pub consumed: Option<Result<(), EmulatorError>>,
    /// The hash of the new password, or the text of the failure of the task that was to make it.
    pub hash: Option<Result<Result<String, EmulatorError>, String>>,
    /// Whether the new hash was stored.
    pub stored: Option<Result<(), EmulatorError>>,
}

/// What an update does next.
#[derive(Debug)]
pub enum UpdatePasswordStep<'a> {
    /// Read the request's body and parse it.
    ReadBody,
    /// Tell whether this is a valid refresh token.
    ValidateRefresh(String),
    /// Tell whether this is a valid session token.
    ValidateSession(String),
    /// Use up this reset token.
    ConsumeToken(String),
    /// Hash this password.
    HashPassword(&'a str),
    /// Store this hash for this login id.
    SetPassword { login_id: &'a str, hash: &'a str },
    Respond(Result<Json, EmulatorError>),
}

/// The token of an `Authorization` header that has one.
pub open spec fn header_token(authorization: Option<Seq<char>>) -> Option<Seq<char>> {
    match authorization {
        Some(value) => match text::stripped(value, "Bearer "@) {
            Some(credentials) => if bearer::bare_token(credentials).len() > 0 {
                Some(bearer::bare_token(credentials))
            } else {
                None
            },
            None => None,
        },
        None => None,
    }
}

/// The token that authorizes an update: the header's, or else the body's.
pub open spec fn update_token(
    authorization: Option<Seq<char>>,
    body: UpdatePasswordRequest,
) -> Option<Seq<char>> {
    match header_token(authorization) {
        Some(token) => Some(token),
        None => match body.token {
            Some(token) => Some(token@),
            None => None,
        },
    }
}

/// Which step of an update follows: reading the body, finding the token, checking that it is a
/// refresh or session token or else using it up as a reset token, the hash, storing it, and the
/// reply. The first failure is the answer.
pub open spec fn update_password_is(
    authorization: Option<Seq<char>>,
    seen: UpdatePasswordSeen,
    step: UpdatePasswordStep,
) -> bool {
    match seen.body {
        None => step is ReadBody,
        Some(Err(message)) => step == UpdatePasswordStep::Respond(
            Err(EmulatorError::Internal(message)),
        ),
        Some(Ok(Err(message))) => step == UpdatePasswordStep::Respond(
            Err(EmulatorError::Internal(message)),
        ),
        Some(Ok(Ok(body))) => match update_token(authorization, body) {
            None => step == UpdatePasswordStep::Respond(Err(EmulatorError::Unauthorized)),
            Some(token) => match (seen.refresh_valid, seen.session_valid, seen.consumed) {
                (None, _, _) => step matches UpdatePasswordStep::ValidateRefresh(t) && t@ == token,
                (Some(false), None, _) => step matches UpdatePasswordStep::ValidateSession(t) && t@
                    == token,
                (Some(false), Some(false), None) => step matches UpdatePasswordStep::ConsumeToken(
                    t,
                ) && t@ == token,
                (Some(false), Some(false), Some(Err(e))) => step == UpdatePasswordStep::Respond(
                    Err(e),
                ),
                _ => updates(body, seen, step),
            },
        },
    }
}

/// Which step of an update follows once the token was found to authorize it.
pub open spec fn updates(
    body: UpdatePasswordRequest,
    seen: UpdatePasswordSeen,
    step: UpdatePasswordStep,
) -> bool {
    match seen.hash {
        None => step matches UpdatePasswordStep::HashPassword(password) && password@
            == body.new_password@,
        Some(Err(message)) => step == UpdatePasswordStep::Respond(
            Err(EmulatorError::Internal(message)),
        ),
        Some(Ok(Err(e))) => step == UpdatePasswordStep::Respond(Err(e)),
        Some(Ok(Ok(new))) => match seen.stored {
            None => step matches UpdatePasswordStep::SetPassword { login_id, hash } && login_id@
                == body.login_id@ && hash@ == new@,
            Some(Err(e)) => step == UpdatePasswordStep::Respond(Err(e)),
            Some(Ok(_)) => step matches UpdatePasswordStep::Respond(Ok(body)) && body@
                == replies::all_well(),
        },
    }
}

/// The token that authorizes an update, from the text of the `Authorization` header and the body.
pub fn find_update_token(
    authorization: &Option<String>,
    body: &UpdatePasswordRequest,
) -> (r: Option<String>)
    ensures
        match r {
            Some(token) => update_token(text::shown(*authorization), *body) == Some(token@),
            None => update_token(text::shown(*authorization), *body) is None,
        },
{
    if let Some(value) = authorization {
        if let Some(credentials) = text::strip_prefix(value.as_str(), "Bearer ") {
            let token = bearer::strip_project_id(credentials.as_str());
            if text::to_chars(token.as_str()).len() > 0 {
                return Some(token);
            }
        }
    }
    text::copy_of(&body.token)
}

/// The bytes to parse as a request.
pub open spec fn given_or_empty_object(bytes: Seq<u8>) -> Seq<u8> {
    if bytes.len() == 0 {
        seq![123u8, 125u8]
    } else {
        bytes
    }
}

/// The bytes to parse as a request: an empty body stands for an empty object.
pub fn body_or_empty_object(bytes: Vec<u8>) -> (r: Vec<u8>)
    ensures
        r@ == (if bytes@.len() == 0 {
            seq![123u8, 125u8]
        } else {
            bytes@
        }),
        r@ == given_or_empty_object(bytes@),
{
    if bytes.len() == 0 {
        let r: Vec<u8> = vec![123, 125];
        assert(r@ =~= seq![123u8, 125u8]);
        r
    } else {
        bytes
    }
}

/// The next step of an update.
///
/// The SDK sends the token as `Authorization: Bearer projectId:token`, raw HTTP clients send it
/// in the body. A valid refresh or session token authorizes the update and stays valid; any other
/// token must be a reset token, which is used up.
pub fn update_password<'a>(headers: &HeaderMap, seen: &'a UpdatePasswordSeen) -> (r:
    UpdatePasswordStep<'a>)
    ensures
        update_password_is(
            headers::first_text(headers::header_values(*headers), "authorization"@),
            *seen,
            r,
        ),
{
    proof {
        reveal_strlit("authorization");
    }
    let authorization = headers::header_text(headers, "authorization");
    let body = match &seen.body {
        None => return UpdatePasswordStep::ReadBody,
        Some(Err(message)) => return UpdatePasswordStep::Respond(
            Err(EmulatorError::Internal(message.clone())),
        ),
        Some(Ok(Err(message))) => return UpdatePasswordStep::Respond(
            Err(EmulatorError::Internal(message.clone())),
        ),
        Some(Ok(Ok(body))) => body,
    };
    let token = match find_update_token(&authorization, body) {
        None => return UpdatePasswordStep::Respond(Err(EmulatorError::Unauthorized)),
        Some(token) => token,
    };
    match (&seen.refresh_valid, &seen.session_valid, &seen.consumed) {
        (None, _, _) => return UpdatePasswordStep::ValidateRefresh(token),
        (Some(false), None, _) => return UpdatePasswordStep::ValidateSession(token),
        (Some(false), Some(false), None) => return UpdatePasswordStep::ConsumeToken(token),
        (Some(false), Some(false), Some(Err(e))) => return UpdatePasswordStep::Respond(
            Err(e.clone()),
        ),
        _ => {},
    }
    let new = match &seen.hash {
        None => return UpdatePasswordStep::HashPassword(body.new_password.as_str()),
        Some(Err(message)) => return UpdatePasswordStep::Respond(
            Err(EmulatorError::Internal(message.clone())),
        ),
        Some(Ok(Err(e))) => return UpdatePasswordStep::Respond(Err(e.clone())),
        Some(Ok(Ok(new))) => new,
    };
    match &seen.stored {
        None => UpdatePasswordStep::SetPassword {
            login_id: body.login_id.as_str(),
            hash: new.as_str(),
        },
        Some(Err(e)) => UpdatePasswordStep::Respond(Err(e.clone())),
        Some(Ok(_)) => UpdatePasswordStep::Respond(Ok(replies::ok_reply())),
    }
}

/// The configured policy as replies show it.
pub open spec fn policy_shown(config: PasswordConfig) -> JsonView {
    JsonView::Object(
        seq![
            ("active"@, JsonView::Bool(config.enabled)),
            ("minLength"@, JsonView::Number(text::decimal(config.min_length as nat))),
            ("maxLength"@, JsonView::Number(text::decimal(128))),
            ("lowercase"@, JsonView::Bool(config.require_lowercase)),
            ("uppercase"@, JsonView::Bool(config.require_uppercase)),
            ("number"@, JsonView::Bool(config.require_number)),
            ("nonAlphanumeric"@, JsonView::Bool(config.require_non_alphanumeric)),
        ],
    )
}

/// The configured password policy.
pub fn policy(config: &PasswordConfig) -> (r: Json)
    ensures
        r@ == policy_shown(*config),
{
    let r = object(
        vec![
            member("active", Json::Bool(config.enabled)),
            member("minLength", number(config.min_length)),
            member("maxLength", number(128)),
            member("lowercase", Json::Bool(config.require_lowercase)),
            member("uppercase", Json::Bool(config.require_uppercase)),
            member("number", Json::Bool(config.require_number)),
            member("nonAlphanumeric", Json::Bool(config.require_non_alphanumeric)),
        ],
    );
    assert(r@->Object_0 =~= policy_shown(*config)->Object_0);
    r
}

} // verus!
