use axum::http::HeaderMap;
use rescope::error::EmulatorError;
use rescope::json::{member, object, text, Json};
use rescope::passwords::{
    hash_or_bcrypt_error, hash_or_internal, hash_password, hash_seed_password, verify_password,
};
use rescope::routes::auth::issue::{is_replyable, Issued, TokenAsk, TokenTtl};
use rescope::routes::auth::password::{
    body_or_empty_object, find_update_token, is_maskable, masked_email, policy, replace,
    send_reset, signin, signup, update_password, ReplaceRequest, ReplaceSeen, ReplaceStep,
    SendResetRequest, SendResetSeen, SendResetStep, SigninRequest, SigninSeen, SigninStep,
    SignupRequest, SignupSeen, SignupStep, UpdatePasswordRequest, UpdatePasswordSeen,
    UpdatePasswordStep, UserFields,
};
use rescope::types::{PasswordConfig, Reply, User};

const TTL: TokenTtl = TokenTtl { session: 3600, refresh: 2592000 };
const NOW: u64 = 1_700_000_000;

fn nothing_issued() -> Issued {
    Issued { session_jwt: None, refresh_jwt: None, user: None }
}

fn user(user_id: &str, login_id: &str) -> User {
    User {
        user_id: user_id.to_string(),
        login_ids: vec![login_id.to_string()],
        email: Some(login_id.to_string()),
        phone: None,
        name: None,
        given_name: None,
        family_name: None,
        status: "enabled".to_string(),
        created_time: 1,
        password: false,
        password_hash: None,
        user_tenants: vec![],
    }
}

/// The stores that the handlers ask, in memory.
struct World {
    method: Result<(), EmulatorError>,
    locked_out: Vec<String>,
    users: Vec<User>,
    failures: Vec<String>,
    cleared: Vec<String>,
    logins: Vec<String>,
    reset_tokens: Vec<(String, String)>,
    connector: Option<String>,
    notified: Vec<(String, String, String)>,
    fail_signing: Option<String>,
}

impl World {
    fn new() -> World {
        World {
            method: Ok(()),
            locked_out: vec![],
            users: vec![],
            failures: vec![],
            cleared: vec![],
            logins: vec![],
            reset_tokens: vec![],
            connector: None,
            notified: vec![],
            fail_signing: None,
        }
    }

    fn load(&self, login_id: &str) -> Result<User, EmulatorError> {
        self.users
            .iter()
            .find(|u| {
                u.login_ids.iter().any(|l| l == login_id) || u.phone.as_deref() == Some(login_id)
            })
            .cloned()
            .ok_or(EmulatorError::UserNotFound)
    }

    fn insert(&mut self, user: User) -> Result<(), EmulatorError> {
        if self.load(&user.login_ids[0]).is_ok() {
            return Err(EmulatorError::UserAlreadyExists);
        }
        self.users.push(user);
        Ok(())
    }

    fn set_password(&mut self, login_id: &str, hash: &str) -> Result<(), EmulatorError> {
        let user_id = self.load(login_id)?.user_id;
        for u in &mut self.users {
            if u.user_id == user_id {
                u.password_hash = Some(hash.to_string());
            }
        }
        Ok(())
    }

    fn lockout(&self, login_id: &str) -> Result<(), EmulatorError> {
        if self.locked_out.iter().any(|l| l == login_id) {
            Err(EmulatorError::Other("locked out".to_string()))
        } else {
            Ok(())
        }
    }

    fn answer(&self, ask: TokenAsk) -> impl FnOnce(&mut Issued) {
        let fail = self.fail_signing.clone();
        let (session, refresh, shown) = match ask {
            TokenAsk::SignSession { user, ttl, amr, extra } => {
                assert!(extra.is_none());
                (Some(format!("{}.{ttl}.{amr}", user.user_id)), None, None)
            }
            TokenAsk::SignRefresh { user_id, ttl } => (None, Some(format!("{user_id}.{ttl}.r")), None),
            TokenAsk::RenderUser { user } => {
                let shown = object(vec![
                    member("userId", text(&user.user_id)),
                    member("email", text(user.email.as_deref().unwrap_or(""))),
                ]);
                (None, None, Some((shown, NOW)))
            }
        };
        move |issued: &mut Issued| {
            if let Some(jwt) = session {
                issued.session_jwt = Some(match fail {
                    Some(message) => Err(message),
                    None => Ok(jwt),
                });
            }
            if let Some(jwt) = refresh {
                issued.refresh_jwt = Some(Ok(jwt));
            }
            if shown.is_some() {
                issued.user = shown;
            }
        }
    }

    fn signup(&mut self, req: &SignupRequest, user_id: &str) -> Result<Reply, EmulatorError> {
        let mut seen = SignupSeen {
            method: None,
            hash: None,
            inserted: None,
            user: None,
            issued: nothing_issued(),
            login_recorded: false,
        };
        loop {
            assert!(is_replyable(TTL.session, &seen.issued));
            match signup(req, user_id, NOW, TTL, &seen) {
                SignupStep::CheckMethod(method) => {
                    assert_eq!(method, "password");
                    seen.method = Some(self.method.clone());
                }
                SignupStep::HashPassword(password) => {
                    seen.hash = Some(Ok(hash_password(password)));
                }
                SignupStep::InsertUser(user) => seen.inserted = Some(self.insert(user)),
                SignupStep::LoadUser(login_id) => seen.user = Some(self.load(login_id)),
                SignupStep::Tokens(ask) => {
                    let answer = self.answer(ask);
                    answer(&mut seen.issued);
                }
                SignupStep::RecordLogin(login_id) => {
                    self.logins.push(login_id.to_string());
                    seen.login_recorded = true;
                }
                SignupStep::Respond(result) => return result,
            }
        }
    }

    fn signin(&mut self, login_id: &str, password: &str) -> Result<Reply, EmulatorError> {
        let req = SigninRequest { login_id: login_id.to_string(), password: password.to_string() };
        let mut seen = nothing_seen();
        loop {
            match signin(&req, TTL, &seen) {
                SigninStep::CheckMethod(_) => seen.method = Some(self.method.clone()),
                SigninStep::CheckLockout(login_id) => seen.lockout = Some(self.lockout(login_id)),
                SigninStep::LoadAccount(login_id) => seen.account = Some(self.load(login_id)),
                SigninStep::VerifyPassword { password, hash } => {
                    seen.verified = Some(Ok(verify_password(password, hash)));
                }
                SigninStep::RecordFailure(login_id) => {
                    self.failures.push(login_id.to_string());
                    seen.failure_recorded = true;
                }
                SigninStep::ClearFailures(login_id) => {
                    self.cleared.push(login_id.to_string());
                    seen.failures_cleared = true;
                }
                SigninStep::LoadUser(login_id) => seen.user = Some(self.load(login_id)),
                SigninStep::Tokens(ask) => {
                    let answer = self.answer(ask);
                    answer(&mut seen.issued);
                }
                SigninStep::RecordLogin(login_id) => {
                    self.logins.push(login_id.to_string());
                    seen.login_recorded = true;
                }
                SigninStep::Respond(result) => return result,
            }
        }
    }

    fn replace(&mut self, login_id: &str, old: &str, new: &str) -> Result<Reply, EmulatorError> {
        let req = ReplaceRequest {
            login_id: login_id.to_string(),
            old_password: old.to_string(),
            new_password: new.to_string(),
        };
        let mut seen = ReplaceSeen {
            account: None,
            verified: None,
            hash: None,
            stored: None,
            user: None,
            issued: nothing_issued(),
        };
        loop {
            match replace(&req, TTL, &seen) {
                ReplaceStep::LoadAccount(login_id) => seen.account = Some(self.load(login_id)),
                ReplaceStep::VerifyPassword { password, hash } => {
                    seen.verified = Some(Ok(verify_password(password, hash)));
                }
                ReplaceStep::HashPassword(password) => {
                    seen.hash = Some(Ok(hash_password(password)));
                }
                ReplaceStep::SetPassword { login_id, hash } => {
                    seen.stored = Some(self.set_password(login_id, hash));
                }
                ReplaceStep::LoadUser(login_id) => seen.user = Some(self.load(login_id)),
                ReplaceStep::Tokens(ask) => {
                    let answer = self.answer(ask);
                    answer(&mut seen.issued);
                }
                ReplaceStep::Respond(result) => return result,
            }
        }
    }

    fn send_reset(&mut self, login_id: &str, token: &str) -> Result<Json, EmulatorError> {
        let req = SendResetRequest { login_id: login_id.to_string() };
        let mut seen =
            SendResetSeen { user: None, token_stored: false, connector: None, notified: false };
        loop {
            match send_reset(&req, token, &seen) {
                SendResetStep::LoadUser(login_id) => seen.user = Some(self.load(login_id)),
                SendResetStep::StoreToken { token, user_id } => {
                    self.reset_tokens.push((token.to_string(), user_id.to_string()));
                    seen.token_stored = true;
                }
                SendResetStep::ReadConnector => seen.connector = Some(self.connector.clone()),
                SendResetStep::Notify { connector_id, login_id, token } => {
                    self.notified.push((
                        connector_id.to_string(),
                        login_id.to_string(),
                        token.to_string(),
                    ));
                    seen.notified = true;
                }
                SendResetStep::Respond(result) => return result,
            }
        }
    }

    /// Updates a password; `valid` says which tokens are refresh and session tokens.
    fn update(
        &mut self,
        headers: &HeaderMap,
        body: Result<Result<UpdatePasswordRequest, String>, String>,
        valid: (&str, &str),
    ) -> Result<Json, EmulatorError> {
        let mut body = Some(body);
        let mut seen = UpdatePasswordSeen {
            body: None,
            refresh_valid: None,
            session_valid: None,
            consumed: None,
            hash: None,
            stored: None,
        };
        loop {
            match update_password(headers, &seen) {
                UpdatePasswordStep::ReadBody => seen.body = body.take(),
                UpdatePasswordStep::ValidateRefresh(token) => {
                    seen.refresh_valid = Some(token == valid.0);
                }
                UpdatePasswordStep::ValidateSession(token) => {
                    seen.session_valid = Some(token == valid.1);
                }
                UpdatePasswordStep::ConsumeToken(token) => {
                    let before = self.reset_tokens.len();
                    self.reset_tokens.retain(|(t, _)| *t != token);
                    seen.consumed = Some(if self.reset_tokens.len() < before {
                        Ok(())
                    } else {
                        Err(EmulatorError::InvalidToken)
                    });
                }
                UpdatePasswordStep::HashPassword(password) => {
                    seen.hash = Some(Ok(hash_password(password)));
                }
                UpdatePasswordStep::SetPassword { login_id, hash } => {
                    seen.stored = Some(self.set_password(login_id, hash));
                }
                UpdatePasswordStep::Respond(result) => return result,
            }
        }
    }
}

fn nothing_seen() -> SigninSeen {
    SigninSeen {
        method: None,
        lockout: None,
        account: None,
        verified: None,
        failure_recorded: false,
        failures_cleared: false,
        user: None,
        issued: nothing_issued(),
        login_recorded: false,
    }
}

fn at<'a>(json: &'a Json, path: &[&str]) -> &'a Json {
    path.iter().fold(json, |json, key| json.get(key).unwrap())
}

fn str_at<'a>(json: &'a Json, path: &[&str]) -> &'a str {
    at(json, path).as_str().unwrap()
}

fn signup_request(login_id: &str, password: &str) -> SignupRequest {
    SignupRequest { login_id: login_id.to_string(), password: password.to_string(), user: None }
}

fn bearer(value: &str) -> HeaderMap {
    let mut headers = HeaderMap::new();
    headers.insert("Authorization", format!("Bearer {value}").parse().unwrap());
    headers
}

fn update_body(login_id: &str, new: &str, token: Option<&str>) -> UpdatePasswordRequest {
    UpdatePasswordRequest {
        login_id: login_id.to_string(),
        new_password: new.to_string(),
        token: token.map(|t| t.to_string()),
    }
}

#[test]
fn policy_returns_expected_shape() {
    let body = policy(&PasswordConfig {
        enabled: true,
        min_length: 6,
        require_lowercase: false,
        require_uppercase: false,
        require_number: false,
        require_non_alphanumeric: false,
        reset_connector_id: None,
    });
    assert_eq!(at(&body, &["active"]), &Json::Bool(true));
    assert_eq!(at(&body, &["minLength"]), &Json::Number("6".to_string()));
    assert_eq!(at(&body, &["maxLength"]), &Json::Number("128".to_string()));
    assert_eq!(at(&body, &["lowercase"]), &Json::Bool(false));
    assert_eq!(at(&body, &["uppercase"]), &Json::Bool(false));
    assert_eq!(at(&body, &["number"]), &Json::Bool(false));
    assert_eq!(at(&body, &["nonAlphanumeric"]), &Json::Bool(false));
}

#[test]
fn policy_shows_each_requirement() {
    let body = policy(&PasswordConfig {
        enabled: false,
        min_length: 12,
        require_lowercase: true,
        require_uppercase: false,
        require_number: true,
        require_non_alphanumeric: false,
        reset_connector_id: None,
    });
    assert_eq!(at(&body, &["active"]), &Json::Bool(false));
    assert_eq!(at(&body, &["minLength"]), &Json::Number("12".to_string()));
    assert_eq!(at(&body, &["lowercase"]), &Json::Bool(true));
    assert_eq!(at(&body, &["uppercase"]), &Json::Bool(false));
    assert_eq!(at(&body, &["number"]), &Json::Bool(true));
    assert_eq!(at(&body, &["nonAlphanumeric"]), &Json::Bool(false));
}

#[test]
fn signin_with_phone_resolves_user_by_phone_field() {
    let mut world = World::new();
    let mut u = user("u1", "rep-del@example.com");
    u.phone = Some("+15550100500".into());
    u.password_hash = Some(bcrypt::hash("Sup3rSecret!", 4).unwrap());
    world.insert(u).unwrap();

    let reply = world.signin("+15550100500", "Sup3rSecret!").unwrap();
    assert_eq!(str_at(&reply.body, &["user", "email"]), "rep-del@example.com");
    assert!(at(&reply.body, &["sessionJwt"]).as_str().is_some());
}

#[test]
fn update_password_accepts_refresh_jwt() {
    let mut world = World::new();
    world.insert(user("u1", "jwtuser@example.com")).unwrap();
    world.reset_tokens.push(("aaa.bbb.ccc".to_string(), "u1".to_string()));

    let result = world.update(
        &bearer("emulator-project:aaa.bbb.ccc"),
        Ok(Ok(update_body("jwtuser@example.com", "NewPass123!", None))),
        ("aaa.bbb.ccc", ""),
    );
    assert!(result.is_ok(), "refresh JWT should authorize update_password: {:?}", result.err());
    assert!(
        world.load("jwtuser@example.com").unwrap().password_hash.is_some(),
        "the new password should be stored"
    );
    // It was not used up.
    assert_eq!(world.reset_tokens.len(), 1);
    assert!(world.signin("jwtuser@example.com", "NewPass123!").is_ok());
}

#[test]
fn update_password_uses_up_a_reset_token() {
    let mut world = World::new();
    world.insert(user("u1", "a@b.com")).unwrap();
    let reply = world.send_reset("a@b.com", "fresh-token").unwrap();
    assert_eq!(str_at(&reply, &["token"]), "fresh-token");
    assert_eq!(world.reset_tokens, vec![("fresh-token".to_string(), "u1".to_string())]);

    let body = || Ok(Ok(update_body("a@b.com", "Second2!", Some("fresh-token"))));
    let ok = world.update(&HeaderMap::new(), body(), ("r", "s")).unwrap();
    assert_eq!(at(&ok, &["ok"]), &Json::Bool(true));
    assert!(world.reset_tokens.is_empty());
    assert!(world.signin("a@b.com", "Second2!").is_ok());
    // A second time it is refused.
    assert_eq!(
        world.update(&HeaderMap::new(), body(), ("r", "s")),
        Err(EmulatorError::InvalidToken)
    );
}

#[test]
fn update_password_takes_the_header_before_the_body() {
    let mut world = World::new();
    world.insert(user("u1", "a@b.com")).unwrap();
    let body = |token| Ok(Ok(update_body("a@b.com", "pw", token)));
    assert!(world.update(&bearer("s"), body(Some("bad")), ("r", "s")).is_ok());
    assert!(world.update(&bearer("project:"), body(Some("r")), ("r", "s")).is_ok());
    assert_eq!(
        world.update(&bearer("bad"), body(Some("r")), ("r", "s")),
        Err(EmulatorError::InvalidToken)
    );
    assert_eq!(
        world.update(&HeaderMap::new(), body(None), ("r", "s")),
        Err(EmulatorError::Unauthorized)
    );
    assert_eq!(
        world.update(&bearer("r"), Ok(Err("expected value".to_string())), ("r", "s")),
        Err(EmulatorError::Internal("expected value".to_string()))
    );
    assert_eq!(
        world.update(&bearer("r"), Err("broken pipe".to_string()), ("r", "s")),
        Err(EmulatorError::Internal("broken pipe".to_string()))
    );
    assert_eq!(
        world.update(&bearer("r"), Ok(Ok(update_body("ghost", "pw", None))), ("r", "s")),
        Err(EmulatorError::UserNotFound)
    );
}

#[test]
fn update_token_is_found_in_header_or_body() {
    let body = update_body("a", "b", Some("body"));
    let with = |value: &str| find_update_token(&Some(value.to_string()), &body);
    assert_eq!(with("Bearer tok"), Some("tok".to_string()));
    assert_eq!(with("Bearer project:tok:en"), Some("tok:en".to_string()));
    assert_eq!(with("Bearer "), Some("body".to_string()));
    assert_eq!(with("Bearer project:"), Some("body".to_string()));
    assert_eq!(with("bearer tok"), Some("body".to_string()));
    assert_eq!(find_update_token(&None, &update_body("a", "b", None)), None);
}

#[test]
fn empty_body_stands_for_an_empty_object() {
    assert_eq!(body_or_empty_object(vec![]), b"{}".to_vec());
    assert_eq!(body_or_empty_object(b" ".to_vec()), b" ".to_vec());
}

#[test]
fn signup_stores_the_user_and_signs_in() {
    let mut world = World::new();
    let reply = world.signup(&signup_request("alice@example.com", "Secret123!"), "u1").unwrap();
    let stored = world.load("alice@example.com").unwrap();
    assert_eq!(stored.user_id, "u1");
    assert_eq!(stored.login_ids, vec!["alice@example.com".to_string()]);
    assert_eq!(stored.email.as_deref(), Some("alice@example.com"));
    assert_eq!(stored.status, "enabled");
    assert_eq!(stored.created_time, NOW);
    assert!(stored.password);
    assert!(stored.user_tenants.is_empty());
    let hash = stored.password_hash.unwrap();
    assert!(hash.starts_with("$2b$10$"));
    assert_eq!(hash.len(), 60);
    assert!(bcrypt::verify("Secret123!", &hash).unwrap());

    assert_eq!(str_at(&reply.body, &["sessionJwt"]), "u1.3600.pwd");
    assert_eq!(str_at(&reply.body, &["refreshJwt"]), "u1.2592000.r");
    assert_eq!(str_at(&reply.body, &["cookieDomain"]), "");
    assert_eq!(str_at(&reply.body, &["cookiePath"]), "/");
    assert_eq!(at(&reply.body, &["cookieMaxAge"]), &Json::Number("3600".to_string()));
    assert_eq!(at(&reply.body, &["cookieExpiration"]), &Json::Number("1700003600".to_string()));
    assert_eq!(at(&reply.body, &["firstSeen"]), &Json::Bool(false));
    assert_eq!(str_at(&reply.body, &["user", "userId"]), "u1");
    let cookies: Vec<&str> =
        reply.headers.get_all("set-cookie").iter().map(|v| v.to_str().unwrap()).collect();
    assert_eq!(
        cookies,
        vec![
            "DS=u1.3600.pwd; SameSite=None; Secure; Path=/; Max-Age=3600",
            "DSR=u1.2592000.r; HttpOnly; SameSite=None; Secure; Path=/",
        ]
    );
    assert_eq!(world.logins, vec!["alice@example.com".to_string()]);

    assert!(world.signin("alice@example.com", "Secret123!").is_ok());
    assert_eq!(world.logins.len(), 2);
    assert_eq!(world.cleared, vec!["alice@example.com".to_string()]);
}

#[test]
fn signup_takes_the_fields_of_the_request() {
    let mut world = World::new();
    let mut req = signup_request("alice", "pw");
    req.user = Some(UserFields {
        email: Some("alice@acme.com".to_string()),
        phone: Some("+1".to_string()),
        name: Some("Alice".to_string()),
        given_name: Some("A".to_string()),
        family_name: Some("L".to_string()),
    });
    world.signup(&req, "u1").unwrap();
    let stored = world.load("alice").unwrap();
    assert_eq!(stored.email.as_deref(), Some("alice@acme.com"));
    assert_eq!(stored.phone.as_deref(), Some("+1"));
    assert_eq!(stored.name.as_deref(), Some("Alice"));
    assert_eq!(stored.given_name.as_deref(), Some("A"));
    assert_eq!(stored.family_name.as_deref(), Some("L"));

    let mut req = signup_request("bob", "pw");
    req.user = Some(UserFields::default());
    world.signup(&req, "u2").unwrap();
    assert_eq!(world.load("bob").unwrap().email, None);
}

#[test]
fn signup_failures_are_the_answer() {
    let mut world = World::new();
    world.signup(&signup_request("a@b.com", "pw"), "u1").unwrap();
    assert_eq!(
        world.signup(&signup_request("a@b.com", "pw"), "u2").err(),
        Some(EmulatorError::UserAlreadyExists)
    );
    world.fail_signing = Some("no key".to_string());
    assert_eq!(
        world.signup(&signup_request("c@d.com", "pw"), "u3").err(),
        Some(EmulatorError::Internal("no key".to_string()))
    );
    world.method = Err(EmulatorError::Other("disabled".to_string()));
    assert_eq!(
        world.signup(&signup_request("e@f.com", "pw"), "u4").err(),
        Some(EmulatorError::Other("disabled".to_string()))
    );
    assert!(world.load("e@f.com").is_err());
}

#[test]
fn signin_refuses_and_counts_a_wrong_password() {
    let mut world = World::new();
    world.signup(&signup_request("a@b.com", "right"), "u1").unwrap();
    assert_eq!(world.signin("a@b.com", "wrong").err(), Some(EmulatorError::InvalidCredentials));
    assert_eq!(world.failures, vec!["a@b.com".to_string()]);
    assert!(world.cleared.is_empty());
    assert_eq!(world.logins.len(), 1);
}

#[test]
fn signin_refusals_come_in_order() {
    let mut world = World::new();
    assert_eq!(world.signin("ghost", "x").err(), Some(EmulatorError::UserNotFound));
    world.insert(user("u1", "nohash@x.com")).unwrap();
    assert_eq!(world.signin("nohash@x.com", "x").err(), Some(EmulatorError::InvalidCredentials));
    let mut broken = user("u2", "broken@x.com");
    broken.password_hash = Some("not a hash".to_string());
    world.insert(broken).unwrap();
    assert_eq!(world.signin("broken@x.com", "x").err(), Some(EmulatorError::InvalidCredentials));
    assert!(world.failures.is_empty());
    world.locked_out.push("nohash@x.com".to_string());
    assert_eq!(
        world.signin("nohash@x.com", "x").err(),
        Some(EmulatorError::Other("locked out".to_string()))
    );
    world.signup(&signup_request("off@x.com", "pw"), "u3").unwrap();
    world.users[2].status = "disabled".to_string();
    assert_eq!(world.signin("off@x.com", "pw").err(), Some(EmulatorError::UserDisabled));
    assert_eq!(world.cleared, vec!["off@x.com".to_string()]);
    world.method = Err(EmulatorError::Unauthorized);
    assert_eq!(world.signin("off@x.com", "pw").err(), Some(EmulatorError::Unauthorized));
}

#[test]
fn failed_tasks_are_internal_errors() {
    let req = SigninRequest { login_id: "a".to_string(), password: "b".to_string() };
    let mut seen = nothing_seen();
    seen.method = Some(Ok(()));
    seen.lockout = Some(Ok(()));
    let mut account = user("u1", "a");
    account.password_hash = Some("h".to_string());
    seen.account = Some(Ok(account));
    seen.verified = Some(Err("task 1 panicked".to_string()));
    match signin(&req, TTL, &seen) {
        SigninStep::Respond(Err(e)) => {
            assert_eq!(e, EmulatorError::Internal("task 1 panicked".to_string()));
        }
        other => panic!("{other:?}"),
    }
    let req = signup_request("a", "b");
    let seen = SignupSeen {
        method: Some(Ok(())),
        hash: Some(Err("task 2 panicked".to_string())),
        inserted: None,
        user: None,
        issued: nothing_issued(),
        login_recorded: false,
    };
    match signup(&req, "u1", NOW, TTL, &seen) {
        SignupStep::Respond(Err(e)) => {
            assert_eq!(e, EmulatorError::Internal("task 2 panicked".to_string()));
        }
        other => panic!("{other:?}"),
    }
}

#[test]
fn replace_changes_the_password() {
    let mut world = World::new();
    world.signup(&signup_request("a@b.com", "old"), "u1").unwrap();
    assert_eq!(
        world.replace("a@b.com", "wrong", "new").err(),
        Some(EmulatorError::InvalidCredentials)
    );
    let reply = world.replace("a@b.com", "old", "new").unwrap();
    assert_eq!(str_at(&reply.body, &["sessionJwt"]), "u1.3600.pwd");
    assert_eq!(world.signin("a@b.com", "old").err(), Some(EmulatorError::InvalidCredentials));
    assert!(world.signin("a@b.com", "new").is_ok());
    assert_eq!(world.replace("ghost", "a", "b").err(), Some(EmulatorError::UserNotFound));
    world.insert(user("u2", "nohash")).unwrap();
    assert_eq!(world.replace("nohash", "a", "b").err(), Some(EmulatorError::InvalidCredentials));
}

#[test]
fn send_reset_masks_the_address_and_tells_the_connector() {
    let mut world = World::new();
    world.insert(user("u1", "alice@example.com")).unwrap();
    let reply = world.send_reset("alice@example.com", "t1").unwrap();
    assert_eq!(at(&reply, &["ok"]), &Json::Bool(true));
    assert_eq!(str_at(&reply, &["resetMethod"]), "email");
    assert_eq!(str_at(&reply, &["maskedEmail"]), "al***@example.com");
    assert_eq!(str_at(&reply, &["token"]), "t1");
    assert!(world.notified.is_empty());

    world.connector = Some("c1".to_string());
    world.send_reset("alice@example.com", "t2").unwrap();
    assert_eq!(
        world.notified,
        vec![("c1".to_string(), "alice@example.com".to_string(), "t2".to_string())]
    );
    let mut phone_only = user("u2", "+1555");
    phone_only.email = None;
    world.insert(phone_only).unwrap();
    let reply = world.send_reset("+1555", "t3").unwrap();
    assert_eq!(str_at(&reply, &["maskedEmail"]), "***");
    assert_eq!(world.send_reset("ghost", "t4"), Err(EmulatorError::UserNotFound));
}

#[test]
fn addresses_are_masked() {
    assert_eq!(masked_email("alice@example.com"), "al***@example.com");
    assert_eq!(masked_email("abc@x@y"), "ab***@x@y");
    assert_eq!(masked_email("ab@x"), "**@x");
    assert_eq!(masked_email("a@x"), "*@x");
    assert_eq!(masked_email("@x"), "@x");
    assert_eq!(masked_email("\u{e9}@x"), "**@x");
    assert_eq!(masked_email("\u{e9}bc@x"), "\u{e9}***@x");
    assert_eq!(masked_email("no address"), "***");
    assert_eq!(masked_email(""), "***");
}

#[test]
fn addresses_that_cannot_be_cut_are_told() {
    assert!(is_maskable("alice@example.com"));
    assert!(is_maskable("a\u{e9}"));
    assert!(is_maskable("\u{e9}b@x"));
    assert!(!is_maskable("a\u{e9}@x"));
    assert!(!is_maskable("\u{20ac}@x"));
    assert_eq!(masked_email("alice@x.com"), masked_email("alfred@x.com"));
}

#[test]
fn tokens_that_fit_no_header_are_told() {
    let mut issued = nothing_issued();
    assert!(is_replyable(3600, &issued));
    issued.session_jwt = Some(Ok("a\nb".to_string()));
    assert!(!is_replyable(3600, &issued));
    issued.session_jwt = Some(Ok("a.b".to_string()));
    issued.user = Some((Json::Null, u64::MAX - 3600));
    assert!(is_replyable(3600, &issued));
    assert!(!is_replyable(3601, &issued));
}

#[test]
fn hashes_verify_with_their_password_alone() {
    let hash = hash_seed_password("pw").unwrap();
    assert!(hash.starts_with("$2b$04$"));
    assert_eq!(hash.len(), 60);
    assert_eq!(verify_password("pw", &hash), Some(true));
    assert_eq!(verify_password("other", &hash), Some(false));
    assert_eq!(verify_password("pw", "garbage"), None);
    assert_ne!(hash_seed_password("pw").unwrap(), hash);
    assert_eq!(hash_or_internal(Err("x".to_string())), Err(EmulatorError::Internal("x".to_string())));
    assert_eq!(
        hash_or_bcrypt_error(Err("x".to_string())),
        Err(EmulatorError::Internal("bcrypt error: x".to_string()))
    );
    assert_eq!(hash_or_bcrypt_error(Ok("h".to_string())), Ok("h".to_string()));
}
