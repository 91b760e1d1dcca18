use rescope::error::EmulatorError;
use rescope::json::{array, member, object, text, Json};
use rescope::routes::emulator::{
    create_tenant, create_tenant_parsed, get_otp, health, password_step, reset, seed_users,
    CreationError, OtpSeen, OtpStep, ResetSeen, ResetStep, SeedSeen, SeedStep, SeedUserEntry,
    SeedUsersRequest,
};
use rescope::types::{AuthType, User};

fn user(user_id: &str, login_id: &str) -> User {
    User {
        user_id: user_id.to_string(),
        login_ids: vec![login_id.to_string()],
        email: Some(login_id.to_string()),
        phone: None,
        name: None,
        given_name: None,
        family_name: None,
        status: "invited".to_string(),
        created_time: 1,
        password: false,
        password_hash: None,
        user_tenants: vec![],
    }
}

struct World {
    users: Vec<User>,
    otps: Vec<(String, String)>,
    tokens: Vec<(String, String)>,
    seeded: Vec<String>,
    warnings: Vec<String>,
}

impl World {
    fn new() -> World {
        World { users: vec![], otps: vec![], tokens: vec![], seeded: vec![], warnings: vec![] }
    }

    fn load(&self, login_id: &str) -> Result<User, EmulatorError> {
        self.users
            .iter()
            .find(|u| u.login_ids[0] == login_id)
            .cloned()
            .ok_or(EmulatorError::UserNotFound)
    }

    fn get_otp(&self, login_id: &str) -> Result<Json, EmulatorError> {
        let mut seen = OtpSeen { user: None, code: None };
        loop {
            match get_otp(login_id, &seen) {
                OtpStep::LoadUser(login_id) => seen.user = Some(self.load(login_id)),
                OtpStep::Peek(user_id) => {
                    let code = self.otps.iter().find(|(u, _)| u == user_id).map(|(_, c)| c.clone());
                    seen.code = Some(code);
                }
                OtpStep::Respond(result) => return result,
            }
        }
    }

    fn reset(&mut self, seed_file: Option<&str>) -> Json {
        let seed_file = seed_file.map(|p| p.to_string());
        let mut seen = ResetSeen { stores_reset: false, seeded: None, warned: false };
        loop {
            match reset(&seed_file, &seen) {
                ResetStep::ResetStores => {
                    self.users.clear();
                    self.otps.clear();
                    seen.stores_reset = true;
                }
                ResetStep::LoadSeed(path) => {
                    self.seeded.push(path.to_string());
                    seen.seeded =
                        Some(if path == "good.json" { Ok(()) } else { Err("no such file".into()) });
                }
                ResetStep::WarnSeedFailed(message) => {
                    self.warnings.push(message.to_string());
                    seen.warned = true;
                }
                ResetStep::Respond(body) => return body,
            }
        }
    }

    /// Seeds; a login id that begins with `bad` cannot be created.
    fn seed(&mut self, entries: &[(Option<&str>, Option<&str>)]) -> Result<Json, EmulatorError> {
        let req = SeedUsersRequest {
            users: entries
                .iter()
                .map(|(login_id, password)| SeedUserEntry {
                    login_id: login_id.map(|l| l.to_string()),
                    password: password.map(|p| p.to_string()),
                })
                .collect(),
        };
        let mut seen: Vec<SeedSeen> = req
            .users
            .iter()
            .map(|_| SeedSeen { created: None, enabled: false, password_set: false, loaded: None })
            .collect();
        loop {
            match seed_users(&req, &seen) {
                SeedStep::Create { index, is_test, honor_uid } => {
                    assert!(!is_test);
                    assert!(honor_uid);
                    let login_id = req.users[index].login_id.as_deref().unwrap();
                    seen[index].created = Some(if login_id.starts_with("bad") {
                        Err(CreationError {
                            error: EmulatorError::Other("bad".to_string()),
                            text: "Invalid login id".to_string(),
                        })
                    } else if self.load(login_id).is_ok() {
                        Err(CreationError {
                            error: EmulatorError::UserAlreadyExists,
                            text: "User already exists".to_string(),
                        })
                    } else {
                        self.users.push(user(&format!("id-{login_id}"), login_id));
                        Ok(())
                    });
                }
                SeedStep::SetStatus { index, login_id, status } => {
                    for u in &mut self.users {
                        if u.login_ids[0] == login_id {
                            u.status = status.to_string();
                        }
                    }
                    seen[index].enabled = true;
                }
                SeedStep::SetPassword { index, login_id, hash } => {
                    for u in &mut self.users {
                        if u.login_ids[0] == login_id {
                            u.password_hash = Some(hash.clone());
                        }
                    }
                    seen[index].password_set = true;
                }
                SeedStep::Load { index, login_id } => {
                    let shown = self.load(login_id).ok().map(|u| text(&u.user_id));
                    seen[index].loaded = Some(shown);
                }
                SeedStep::Respond(result) => return result,
            }
        }
    }
}

#[test]
fn get_otp_returns_pending_code_without_consuming() {
    let mut world = World::new();
    world.users.push(user("u1", "test@example.com"));
    world.otps.push(("u1".to_string(), "987654".to_string()));
    let result = world.get_otp("test@example.com").unwrap();
    assert_eq!(result.get("code").unwrap().as_str().unwrap(), "987654");
    // Code should still be present after peek
    assert!(world.get_otp("test@example.com").is_ok());
}

#[test]
fn get_otp_unknown_login_id_returns_user_not_found() {
    let world = World::new();
    let err = world.get_otp("ghost@test.com").unwrap_err();
    assert!(matches!(err, EmulatorError::UserNotFound));
}

#[test]
fn get_otp_no_pending_code_returns_invalid_token() {
    let mut world = World::new();
    world.users.push(user("u1", "no-code@test.com"));
    let err = world.get_otp("no-code@test.com").unwrap_err();
    assert!(matches!(err, EmulatorError::InvalidToken));
}

#[test]
fn reset_preserves_in_flight_magic_link_tokens() {
    // Which stores are emptied is not decided here; without a seed file, emptying them is all that
    // a reset asks for, so nothing touches the tokens beside it.
    let mut world = World::new();
    world.tokens.push(("in-flight-token".to_string(), "user-1".to_string()));
    world.reset(None);
    assert_eq!(world.tokens, vec![("in-flight-token".to_string(), "user-1".to_string())]);
    assert!(world.seeded.is_empty());
}

#[test]
fn reset_applies_the_seed_file_and_outlives_its_failure() {
    let ok = object(vec![member("ok", Json::Bool(true))]);
    let mut world = World::new();
    world.users.push(user("u1", "a"));
    assert_eq!(world.reset(Some("good.json")), ok);
    assert!(world.users.is_empty());
    assert_eq!(world.seeded, vec!["good.json".to_string()]);
    assert!(world.warnings.is_empty());
    assert_eq!(world.reset(Some("bad.json")), ok);
    assert_eq!(world.warnings, vec!["no such file".to_string()]);
    assert_eq!(health(), ok);
}

#[test]
fn seeding_creates_enables_and_sets_passwords() {
    let mut world = World::new();
    let reply = world
        .seed(&[(Some("a@b.com"), Some("Secret123!")), (Some("bad one"), None), (Some("c"), None)])
        .unwrap();
    assert_eq!(
        reply,
        object(vec![
            member("createdUsers", array(vec![text("id-a@b.com"), text("id-c")])),
            member(
                "failedUsers",
                array(vec![object(vec![
                    member("loginId", text("bad one")),
                    member("error", text("Invalid login id")),
                ])])
            ),
        ])
    );
    let a = world.load("a@b.com").unwrap();
    assert_eq!(a.status, "enabled");
    let hash = a.password_hash.unwrap();
    assert!(hash.starts_with("$2b$04$"));
    assert!(bcrypt::verify("Secret123!", &hash).unwrap());
    assert_eq!(world.load("c").unwrap().password_hash, None);
    assert_eq!(world.load("c").unwrap().status, "enabled");
}

#[test]
fn seeding_leaves_existing_users_alone() {
    let mut world = World::new();
    world.users.push(user("u1", "a@b.com"));
    let reply = world.seed(&[(Some("a@b.com"), Some("pw"))]).unwrap();
    assert_eq!(reply.get("createdUsers"), Some(&array(vec![text("u1")])));
    assert_eq!(reply.get("failedUsers"), Some(&array(vec![])));
    assert_eq!(world.load("a@b.com").unwrap().status, "invited");
    assert_eq!(world.load("a@b.com").unwrap().password_hash, None);
}

#[test]
fn seeding_stops_at_an_entry_without_login_id() {
    let mut world = World::new();
    assert_eq!(
        world.seed(&[(Some("a"), None), (None, None), (Some("c"), None)]),
        Err(EmulatorError::Internal("loginId is required".to_string()))
    );
    // What came before stays.
    assert!(world.load("a").is_ok());
    assert!(world.load("c").is_err());
    assert_eq!(
        world.seed(&[]),
        Ok(object(vec![member("createdUsers", array(vec![])), member("failedUsers", array(vec![]))]))
    );
}

#[test]
fn a_seed_password_that_cannot_be_hashed_fails_the_request() {
    match password_step(3, "a", Err(EmulatorError::Internal("bcrypt error: x".to_string()))) {
        SeedStep::Respond(Err(e)) => {
            assert_eq!(e, EmulatorError::Internal("bcrypt error: x".to_string()));
        }
        other => panic!("{other:?}"),
    }
    match password_step(3, "a", Ok("h".to_string())) {
        SeedStep::SetPassword { index: 3, login_id: "a", hash } => assert_eq!(hash, "h"),
        other => panic!("{other:?}"),
    }
}

#[test]
fn tenants_are_created_as_asked() {
    let body = serde_json::from_str(
        "{\"id\":\"acme\",\"name\":\"Acme Corp\",\"domains\":[\"acme.com\",7,\"acme.org\"],\
         \"authType\":\"oidc\"}",
    )
    .unwrap();
    let (tenant, reply) = create_tenant(body);
    assert_eq!(tenant.id, "acme");
    assert_eq!(tenant.name, "Acme Corp");
    assert_eq!(tenant.domains, vec!["acme.com".to_string(), "acme.org".to_string()]);
    assert_eq!(tenant.auth_type, AuthType::Oidc);
    assert_eq!(reply, object(vec![member("ok", Json::Bool(true)), member("id", text("acme"))]));
}

#[test]
fn tenants_have_defaults() {
    let (tenant, reply) = create_tenant_parsed(&Json::Null);
    assert_eq!(tenant.id, "test-tenant");
    assert_eq!(tenant.name, "test-tenant");
    assert!(tenant.domains.is_empty());
    assert_eq!(tenant.auth_type, AuthType::Saml);
    assert_eq!(reply.get("id"), Some(&text("test-tenant")));
    let body = object(vec![
        member("id", text("t1")),
        member("domains", text("acme.com")),
        member("authType", text("OIDC")),
    ]);
    let (tenant, _) = create_tenant_parsed(&body);
    assert_eq!(tenant.name, "t1");
    assert!(tenant.domains.is_empty());
    assert_eq!(tenant.auth_type, AuthType::Saml);
}
