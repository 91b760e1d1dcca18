use rescope::error::EmulatorError;
use rescope::json::{self, member, object, text, Json};
use rescope::passwords::{hash_seed_password, verify_password};
use rescope::routes::auth::flow::{
    field, first_string, names_flow, next, next_parsed, parse_body, screen_state, start, start_parsed,
    NextSeen, NextStep,
};
use rescope::routes::auth::issue::{Issued, TokenAsk, TokenTtl};
use rescope::routes::flow_assets::{serve, FlowAssets};
use rescope::store::flow_store::{FlowStatus, FlowStore};
use rescope::types::{Reply, User};

const TTL: TokenTtl = TokenTtl { session: 3600, refresh: 2592000 };
const NOW: u64 = 1_700_000_000;
const TOKEN: &str = "abcdefghijklmnopqrstuvwxyz0123456789";

struct World {
    flows: FlowStore,
    users: Vec<User>,
    enabled: bool,
    locked_out: bool,
    vanish: bool,
    failures: Vec<String>,
    cleared: Vec<String>,
    logins: Vec<String>,
}

fn user(user_id: &str, login_id: &str, password: &str) -> User {
    User {
        user_id: user_id.to_string(),
        login_ids: vec![login_id.to_string()],
        email: Some(login_id.to_string()),
        phone: None,
        name: None,
        given_name: None,
        family_name: None,
        status: "enabled".to_string(),
        created_time: 1,
        password: true,
        password_hash: Some(hash_seed_password(password).unwrap()),
        user_tenants: vec![],
    }
}

impl World {
    fn with(login_id: &str, password: &str) -> World {
        World {
            flows: FlowStore::new(),
            users: vec![user("u1", login_id, password)],
            enabled: true,
            locked_out: false,
            vanish: false,
            failures: vec![],
            cleared: vec![],
            logins: vec![],
        }
    }

    fn load(&self, login_id: &str) -> Result<User, EmulatorError> {
        self.users
            .iter()
            .find(|u| u.login_ids.iter().any(|l| l == login_id))
            .cloned()
            .ok_or(EmulatorError::UserNotFound)
    }

    fn start(&mut self, body: &str) -> Reply {
        start(&mut self.flows, body.as_bytes(), TOKEN, NOW, NOW)
    }

    fn next(&mut self, body: &str) -> Result<Reply, EmulatorError> {
        let mut seen = nothing_seen();
        loop {
            match next(body.as_bytes(), TTL, &seen) {
                NextStep::ReadExecution(id) => seen.execution = Some(self.flows.get(&id).cloned()),
                NextStep::Advance { execution_id, login_id } => {
                    self.flows.advance_to_password(&execution_id, login_id);
                    seen.advanced = true;
                }
                NextStep::ReadLogin(id) => seen.login = Some(self.flows.get(&id).cloned()),
                NextStep::CheckMethod(method) => {
                    assert_eq!(method, "password");
                    seen.method = Some(if self.enabled {
                        Ok(())
                    } else {
                        Err(EmulatorError::Other("off".to_string()))
                    });
                }
                NextStep::CheckLockout(_) => {
                    seen.lockout = Some(if self.locked_out {
                        Err(EmulatorError::Other("locked".to_string()))
                    } else {
                        Ok(())
                    });
                }
                NextStep::LoadAccount(login_id) => seen.account = Some(self.load(&login_id)),
                NextStep::VerifyPassword { password, hash } => {
                    seen.verified = Some(Ok(verify_password(&password, hash)));
                }
                NextStep::RecordFailure(login_id) => {
                    self.failures.push(login_id);
                    seen.failure_recorded = true;
                }
                NextStep::ClearFailures(login_id) => {
                    self.cleared.push(login_id);
                    seen.failures_cleared = true;
                }
                NextStep::LoadUser(login_id) => {
                    if self.vanish {
                        self.users.clear();
                    }
                    seen.user = Some(self.load(&login_id));
                }
                NextStep::Tokens(ask) => match ask {
                    TokenAsk::SignSession { user, ttl, amr, extra } => {
                        assert!(extra.is_none());
                        let jwt = format!("{}.{ttl}.{amr}", user.user_id);
                        seen.issued.session_jwt = Some(Ok(jwt));
                    }
                    TokenAsk::SignRefresh { user_id, ttl } => {
                        let jwt = format!("{user_id}.{ttl}.refresh");
                        seen.issued.refresh_jwt = Some(Ok(jwt));
                    }
                    TokenAsk::RenderUser { user } => {
                        let shown = object(vec![member("userId", text(&user.user_id))]);
                        seen.issued.user = Some((shown, NOW));
                    }
                },
                NextStep::Complete(id) => {
                    self.flows.complete(&id);
                    seen.completed = true;
                }
                NextStep::RecordLogin(login_id) => {
                    self.logins.push(login_id);
                    seen.login_recorded = true;
                }
                NextStep::Respond(result) => return result,
            }
        }
    }
}

fn nothing_seen() -> NextSeen {
    NextSeen {
        execution: None,
        advanced: false,
        login: None,
        method: None,
        lockout: None,
        account: None,
        verified: None,
        failure_recorded: false,
        failures_cleared: false,
        user: None,
        issued: Issued { session_jwt: None, refresh_jwt: None, user: None },
        completed: false,
        login_recorded: false,
    }
}

fn at<'a>(json: &'a Json, path: &[&str]) -> &'a Json {
    path.iter().fold(json, |json, key| json.get(key).unwrap())
}

fn str_at<'a>(json: &'a Json, path: &[&str]) -> &'a str {
    at(json, path).as_str().unwrap()
}

fn assets() -> FlowAssets {
    FlowAssets {
        config_json: "{}".to_string(),
        sign_in_html: "<email>".to_string(),
        sign_in_password_html: "<password>".to_string(),
    }
}

#[test]
fn descope_wc_flow_logs_in_via_rescope() {
    let login_id = "flowuser@test.com";
    let password = "SuperSecret123!";
    let mut world = World::with(login_id, password);

    let started = world.start("{\"flowId\": \"sign-up-or-in-passwords\"}");
    let start_body = started.body;
    assert!(started.headers.is_empty());
    assert_eq!(str_at(&start_body, &["status"]), "waiting");
    assert_eq!(str_at(&start_body, &["screen", "id"]), "signIn");
    assert_eq!(str_at(&start_body, &["stepName"]), "Welcome");
    assert_eq!(at(&start_body, &["authInfo"]), &Json::Null);
    let execution_id = str_at(&start_body, &["executionId"]).to_string();
    assert!(execution_id.starts_with("sign-up-or-in-passwords---"));
    assert_eq!(execution_id, "sign-up-or-in-passwords---abcdefghijklmnopqrstuvwxyz0");

    // The widget fetches the screen HTML at the exact id that the envelope returned.
    let files = assets();
    let start_screen = str_at(&start_body, &["screen", "id"]);
    let page = serve(&format!("/pages/PROJ/v2-beta/{start_screen}.html"), &files);
    assert_eq!(page.status, 200);

    // Step 1: submit the email, and see the password screen (a DIFFERENT screen).
    let step1 = world
        .next(&format!(
            "{{\"executionId\": \"{execution_id}\", \"input\": {{\"externalId\": \"{login_id}\"}}}}"
        ))
        .unwrap();
    assert_eq!(str_at(&step1.body, &["status"]), "waiting");
    assert_eq!(str_at(&step1.body, &["screen", "id"]), "signInPassword");
    assert_ne!(
        str_at(&step1.body, &["screen", "id"]),
        start_screen,
        "password step must show a different screen than the email step"
    );
    let pw_screen = str_at(&step1.body, &["screen", "id"]);
    assert_eq!(serve(&format!("/pages/PROJ/v2-beta/{pw_screen}.html"), &files).status, 200);

    // Step 2: submit the password, and be done.
    let step2 = world
        .next(&format!(
            "{{\"executionId\": \"{execution_id}\", \"input\": {{\"password\": \"{password}\"}}}}"
        ))
        .unwrap();
    let set_cookies: Vec<String> = step2
        .headers
        .get_all("set-cookie")
        .iter()
        .map(|v| v.to_str().unwrap().to_string())
        .collect();
    let joined = set_cookies.join("\n");
    assert!(joined.contains("DS="), "expected DS cookie: {joined}");
    assert!(joined.contains("DSR="), "expected DSR cookie: {joined}");

    assert_eq!(str_at(&step2.body, &["status"]), "completed");
    assert_eq!(at(&step2.body, &["screen"]), &Json::Null);
    // The token was asked for with the method `pwd` and the right subject.
    let user_id = str_at(&step2.body, &["authInfo", "user", "userId"]);
    assert_eq!(str_at(&step2.body, &["authInfo", "sessionJwt"]), format!("{user_id}.3600.pwd"));
    assert_eq!(user_id, "u1");
    assert_eq!(world.logins, vec![login_id.to_string()]);
    assert_eq!(world.cleared, vec![login_id.to_string()]);
    assert_eq!(world.flows.get(&execution_id).unwrap().status, FlowStatus::Completed);

    // A completed flow has no next step.
    let after = world
        .next(&format!("{{\"executionId\": \"{execution_id}\", \"input\": {{}}}}"))
        .unwrap();
    assert_eq!(str_at(&after.body, &["status"]), "failed");
    assert_eq!(str_at(&after.body, &["error", "errorCode"]), "E102103");
}

/// A world whose flow waits on the password screen, and the id of the execution.
fn on_password_screen(login_id: &str, password: &str, entered: &str) -> (World, String) {
    let mut world = World::with(login_id, password);
    let started = world.start("{\"flowId\": \"sign-up-or-in-passwords\"}");
    let id = str_at(&started.body, &["executionId"]).to_string();
    world
        .next(&format!("{{\"executionId\": \"{id}\", \"input\": {{\"externalId\": \"{entered}\"}}}}"))
        .unwrap();
    (world, id)
}

#[test]
fn wrong_password_reshows_without_500() {
    let login_id = "wrongpw@test.com";
    let (mut world, execution_id) = on_password_screen(login_id, "Correct1!", login_id);
    let bad = world
        .next(&format!(
            "{{\"executionId\": \"{execution_id}\", \"input\": {{\"password\": \"WrongOne!\"}}}}"
        ))
        .unwrap();
    assert_ne!(str_at(&bad.body, &["status"]), "completed");
    assert_eq!(str_at(&bad.body, &["status"]), "waiting");
    assert_eq!(str_at(&bad.body, &["screen", "id"]), "signInPassword");
    assert_eq!(at(&bad.body, &["authInfo"]), &Json::Null);
    assert_eq!(world.failures, vec![login_id.to_string()]);
    assert!(bad.headers.is_empty());
}

#[test]
fn unknown_execution_id_fails() {
    let mut world = World::with("a", "b");
    let resp = world
        .next("{\"executionId\": \"does-not-exist\", \"input\": {\"password\": \"x\"}}")
        .unwrap();
    assert_eq!(str_at(&resp.body, &["status"]), "failed");
    assert_eq!(str_at(&resp.body, &["executionId"]), "does-not-exist");
    assert_eq!(str_at(&resp.body, &["error", "errorDescription"]), "Did not find next task");
}

#[test]
fn unknown_flow_id_fails() {
    let mut world = World::with("a", "b");
    let resp = world.start("{\"flowId\": \"some-other-flow\"}");
    assert_eq!(str_at(&resp.body, &["status"]), "failed");
    assert_eq!(str_at(&resp.body, &["error", "errorCode"]), "E102001");
    assert_eq!(str_at(&resp.body, &["executionId"]), "");
}

#[test]
fn malformed_body_does_not_500() {
    let mut world = World::with("a", "b");
    let resp = world.start("{not valid json");
    assert_eq!(str_at(&resp.body, &["status"]), "failed");
    let resp2 = world.next("garbage").unwrap();
    assert_eq!(str_at(&resp2.body, &["status"]), "failed");
}

#[test]
fn config_and_screen_assets_are_served() {
    let files = FlowAssets {
        config_json:
            "{\"flows\":{\"sign-up-or-in-passwords\":{\"startScreenId\":\"signIn\"}}}".to_string(),
        sign_in_html: "<email>".to_string(),
        sign_in_password_html: "<password>".to_string(),
    };
    let config = serve("/pages/PROJ/v2-beta/config.json", &files);
    assert_eq!(config.status, 200);
    assert_eq!(config.content_type, Some("application/json"));
    assert_eq!(config.cache_control, Some("no-cache"));
    let cfg = json::parse(config.body.as_bytes()).unwrap();
    assert_eq!(
        str_at(&cfg, &["flows", "sign-up-or-in-passwords", "startScreenId"]),
        "signIn",
        "config startScreenId must match the emitted screen.id"
    );
    for (tail, page) in [("signIn.html", "<email>"), ("signInPassword.html", "<password>")] {
        let served = serve(&format!("/pages/PROJ/v2-beta/{tail}"), &files);
        assert_eq!(served.status, 200);
        assert_eq!(served.content_type, Some("text/html; charset=utf-8"));
        assert_eq!(served.body, page);
    }
}

#[test]
fn other_assets_are_not_found() {
    let files = assets();
    for path in [
        "/pages/PROJ/v2-beta/theme.json",
        "/pages/PROJ/v2-beta/myconfig.json",
        "/pages/PROJ/v2-beta/xsignIn.html",
        "/pages/PROJ/v2-beta/config.json/",
        "/pages/signIn.htm",
        "/",
        "",
        "signin.html",
        "xconfig.json",
    ] {
        let missing = serve(path, &files);
        assert_eq!(missing.status, 404);
        assert_eq!(missing.content_type, None);
        assert_eq!(missing.cache_control, None);
        assert_eq!(missing.body, "flow asset not found");
    }
    assert_eq!(serve("signIn.html", &files).body, "<email>");
    assert_eq!(serve("/other/v9/signIn.html", &files).body, "<email>");
    assert_eq!(serve("/signInPassword.html", &files).body, "<password>");
}

#[test]
fn login_id_is_taken_under_any_name() {
    let inputs = [
        ("{\"email\":\"e\",\"externalId\":\"x\"}", "x"),
        ("{\"loginId\":\"l\",\"email\":\"e\"}", "e"),
        ("{\"loginId\":\"l\",\"a\":\"b\"}", "l"),
        ("{\"a\":1,\"b\":null,\"c\":\"d\"}", "d"),
        ("{\"externalId\":7,\"z\":\"y\"}", "y"),
        ("{}", ""),
        ("[\"q\"]", ""),
    ];
    for (input, login_id) in inputs {
        let (mut world, id) = {
            let mut world = World::with("u", "p");
            let started = world.start("{\"flowId\": \"sign-up-or-in-passwords\"}");
            let id = str_at(&started.body, &["executionId"]).to_string();
            (world, id)
        };
        world.next(&format!("{{\"executionId\":\"{id}\",\"input\":{input}}}")).unwrap();
        assert_eq!(world.flows.get(&id).unwrap().login_id.as_deref(), Some(login_id));
        assert_eq!(world.flows.get(&id).unwrap().step, 2);
    }
}

#[test]
fn refusals_on_the_password_screen_show_it_again() {
    let ask = |id: &str| format!("{{\"executionId\":\"{id}\",\"input\":{{\"password\":\"pw\"}}}}");
    let again = |reply: Reply| {
        assert_eq!(str_at(&reply.body, &["status"]), "waiting");
        assert_eq!(str_at(&reply.body, &["stepId"]), "2");
        assert_eq!(str_at(&reply.body, &["stepName"]), "Sign In");
        assert_eq!(str_at(&reply.body, &["screen", "id"]), "signInPassword");
    };

    let (mut world, id) = on_password_screen("a@b.com", "pw", "ghost@b.com");
    again(world.next(&ask(&id)).unwrap());
    assert_eq!(world.failures, vec!["ghost@b.com".to_string()]);

    let (mut world, id) = on_password_screen("a@b.com", "pw", "a@b.com");
    world.users[0].password_hash = None;
    again(world.next(&ask(&id)).unwrap());
    assert_eq!(world.failures.len(), 1);

    let (mut world, id) = on_password_screen("a@b.com", "pw", "a@b.com");
    world.users[0].password_hash = Some("malformed".to_string());
    again(world.next(&ask(&id)).unwrap());
    assert_eq!(world.failures.len(), 1);

    let (mut world, id) = on_password_screen("a@b.com", "pw", "a@b.com");
    world.enabled = false;
    again(world.next(&ask(&id)).unwrap());
    world.enabled = true;
    world.locked_out = true;
    again(world.next(&ask(&id)).unwrap());
    assert!(world.failures.is_empty());

    let (mut world, id) = on_password_screen("a@b.com", "pw", "a@b.com");
    world.users[0].status = "disabled".to_string();
    again(world.next(&ask(&id)).unwrap());
    assert!(world.failures.is_empty());
    assert_eq!(world.flows.get(&id).unwrap().status, FlowStatus::Waiting);

    let (mut world, id) = on_password_screen("a@b.com", "pw", "a@b.com");
    world.vanish = true;
    assert_eq!(world.next(&ask(&id)).err(), Some(EmulatorError::UserNotFound));
}

#[test]
fn a_failed_check_is_an_internal_error() {
    let (world, id) = on_password_screen("a@b.com", "pw", "a@b.com");
    let exec = world.flows.get(&id).unwrap().clone();
    let mut seen = nothing_seen();
    seen.execution = Some(Some(exec.clone()));
    seen.login = Some(Some(exec));
    seen.method = Some(Ok(()));
    seen.lockout = Some(Ok(()));
    seen.account = Some(world.load("a@b.com"));
    seen.verified = Some(Err("task panicked".to_string()));
    match next_parsed(&object(vec![member("executionId", text(&id))]), TTL, &seen) {
        NextStep::Respond(Err(e)) => {
            assert_eq!(e, EmulatorError::Internal("task panicked".to_string()));
        }
        other => panic!("{other:?}"),
    }
}

#[test]
fn start_sweeps_old_executions() {
    let mut flows = FlowStore::new();
    let body = object(vec![member("flowId", text("sign-up-or-in-passwords"))]);
    start_parsed(&mut flows, &body, TOKEN, NOW, NOW);
    let other = "0123456789abcdefghijklmnopqrstuv";
    start_parsed(&mut flows, &body, other, NOW + 600, NOW + 600);
    assert!(flows.get("sign-up-or-in-passwords---abcdefghijklmnopqrstuvwxyz0").is_none());
    let exec = flows.get("sign-up-or-in-passwords---0123456789abcdefghijklmnopq").unwrap();
    assert_eq!(exec.step, 1);
    assert_eq!(exec.status, FlowStatus::Waiting);
    assert_eq!(exec.screen_id, "signIn");
    assert_eq!(exec.flow_id, "sign-up-or-in-passwords");
    assert_eq!(exec.login_id, None);
    assert_eq!(exec.created_at, NOW + 600);
}

#[test]
fn every_envelope_keeps_every_key() {
    let mut world = World::with("a", "b");
    let keys = [
        "executionId", "stepId", "status", "action", "screen", "redirect", "webauthn", "authInfo",
        "error", "lastAuth", "stepName", "samlIdpResponse", "openInNewTabUrl", "runnerLogs",
        "nativeResponse", "output",
    ];
    let waiting = world.start("{\"flowId\": \"sign-up-or-in-passwords\"}").body;
    let failed = world.start("{}").body;
    for body in [waiting, failed] {
        match &body {
            Json::Object(members) => assert_eq!(members.len(), keys.len()),
            other => panic!("{other:?}"),
        }
        for key in keys {
            assert!(body.get(key).is_some(), "{key}");
        }
        assert_eq!(at(&body, &["runnerLogs"]), &Json::Array(vec![]));
        assert_eq!(at(&body, &["output"]), &Json::Object(vec![]));
        assert_eq!(at(&body, &["redirect", "isPopup"]), &Json::Bool(false));
        assert_eq!(str_at(&body, &["webauthn", "options"]), "");
    }
}

#[test]
fn screen_state_is_as_the_widget_expects() {
    let expected = "{\"componentsConfig\":{\"samlGroupMappings\":{},\"ssoApplications\":{},\
        \"thirdPartyAppApproveScopes\":{},\"userRoles\":{},\"userSelectedTenant\":{}},\
        \"form\":{\"spAcsUrl\":\"\",\"spEntityId\":\"\",\"spMetadataUrl\":\"\"},\
        \"inputs\":{\"spAcsUrl\":\"\",\"spEntityId\":\"\",\"spMetadataUrl\":\"\"},\
        \"project\":{\"name\":\"local\"}}";
    assert_eq!(Some(screen_state()), json::parse(expected.as_bytes()));
}

#[test]
fn fields_are_read_from_objects_only() {
    let body = parse_body(b"{\"b\":\"2\",\"a\":\"1\",\"n\":3}");
    assert_eq!(field(&body, "a"), Some("1".to_string()));
    assert_eq!(field(&body, "n"), None);
    assert_eq!(field(&body, "x"), None);
    // The members of a parsed object come in the order of their keys.
    assert_eq!(first_string(&body), Some("1".to_string()));
    assert_eq!(first_string(&parse_body(b"{\"a\":1}")), None);
    assert_eq!(first_string(&parse_body(b"[\"a\"]")), None);
    assert!(names_flow(&parse_body(b"{\"flowId\":\"sign-up-or-in-passwords\"}")));
    assert!(!names_flow(&parse_body(b"{\"flowId\":1}")));
    assert_eq!(parse_body(b""), Json::Object(vec![]));
    assert_eq!(parse_body(b"nonsense"), Json::Object(vec![]));
    assert_eq!(parse_body(b"null"), Json::Null);
}
