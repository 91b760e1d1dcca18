//! Self-contained FLOW runtime for `sign-up-or-in-passwords`.
//!
//! The `descope-wc` web component drives a flow by POSTing to `/v2/flow/start`
//! then `/v2/flow/next`, rendering the `screen` returned in each FLAT response
//! envelope. The emulator owns this one flow end-to-end: a two-screen flow
//! (email, password, completed) that authenticates against the same password
//! machinery as `POST /v1/auth/password/signin`.
use crate::error::EmulatorError;
use crate::headers;
use crate::json::{self, array, empty_object, member, object, text, Json, JsonView, Member};
use crate::routes::auth::issue::{self, issue, IssueStep, Issued, TokenAsk, TokenTtl};
use crate::store::flow_store::{self, FlowExecution, FlowStatus, FlowStore};
use crate::text;
use crate::types::{Reply, User};
use vstd::prelude::*;

verus! {

/// The one flow there is.
pub const FLOW_ID: &'static str = "sign-up-or-in-passwords";

/// The screen that asks for the email address.
pub const SCREEN_SIGNIN: &'static str = "signIn";

/// The screen that asks for the password.
pub const SCREEN_PASSWORD: &'static str = "signInPassword";

/// The body of a request: an empty object where it is not JSON.
pub open spec fn body_of(bytes: Seq<u8>) -> JsonView {
    match json::parsed(bytes) {
        Some(body) => body,
        None => JsonView::Object(seq![]),
    }
}

/// The body of a request. A malformed one stands for an empty object: the flow endpoints never
/// fail on what a client sends.
pub fn parse_body(bytes: &[u8]) -> (r: Json)
    ensures
        r@ == body_of(bytes@),
{
    match json::parse(bytes) {
        Some(body) => body,
        None => empty_object(),
    }
}

/// An object without members.
pub open spec fn nothing() -> JsonView {
    JsonView::Object(seq![])
}

/// The three addresses of a service provider, all empty.
pub open spec fn no_provider() -> JsonView {
    JsonView::Object(
        seq![
            ("spAcsUrl"@, JsonView::Text(""@)),
            ("spEntityId"@, JsonView::Text(""@)),
            ("spMetadataUrl"@, JsonView::Text(""@)),
        ],
    )
}

/// The state that every screen is shown with.
pub open spec fn screen_state_view() -> JsonView {
    JsonView::Object(
        seq![
            (
                "componentsConfig"@,
                JsonView::Object(
                    seq![
                        ("samlGroupMappings"@, nothing()),
                        ("ssoApplications"@, nothing()),
                        ("thirdPartyAppApproveScopes"@, nothing()),
                        ("userRoles"@, nothing()),
                        ("userSelectedTenant"@, nothing()),
                    ],
                ),
            ),
            ("form"@, no_provider()),
            ("inputs"@, no_provider()),
            ("project"@, JsonView::Object(seq![("name"@, JsonView::Text("local"@))])),
        ],
    )
}

/// A flat envelope: what differs between envelopes, and what is the same in all of them.
pub open spec fn envelope(
    execution_id: Seq<char>,
    step_id: Seq<char>,
    status: Seq<char>,
    screen: JsonView,
    auth_info: JsonView,
    error: JsonView,
    step_name: Seq<char>,
) -> JsonView {
    JsonView::Object(
        seq![
            ("executionId"@, JsonView::Text(execution_id)),
            ("stepId"@, JsonView::Text(step_id)),
            ("status"@, JsonView::Text(status)),
            ("action"@, JsonView::Text(""@)),
            ("screen"@, screen),
            (
                "redirect"@,
                JsonView::Object(
                    seq![("url"@, JsonView::Text(""@)), ("isPopup"@, JsonView::Bool(false))],
                ),
            ),
            (
                "webauthn"@,
                JsonView::Object(
                    seq![
                        ("transactionId"@, JsonView::Text(""@)),
                        ("options"@, JsonView::Text(""@)),
                    ],
                ),
            ),
            ("authInfo"@, auth_info),
            ("error"@, error),
            ("lastAuth"@, JsonView::Null),
            ("stepName"@, JsonView::Text(step_name)),
            ("samlIdpResponse"@, JsonView::Null),
            ("openInNewTabUrl"@, JsonView::Text(""@)),
            ("runnerLogs"@, JsonView::Array(seq![])),
            ("nativeResponse"@, JsonView::Null),
            ("output"@, nothing()),
        ],
    )
}

/// The envelope that shows a screen.
pub open spec fn waiting(
    execution_id: Seq<char>,
    step_id: Seq<char>,
    screen_id: Seq<char>,
    step_name: Seq<char>,
) -> JsonView {
    envelope(
        execution_id,
        step_id,
        "waiting"@,
        JsonView::Object(
            seq![("id"@, JsonView::Text(screen_id)), ("state"@, screen_state_view())],
        ),
        JsonView::Null,
        JsonView::Null,
        step_name,
    )
}

/// The envelope that carries the tokens.
pub open spec fn completed(
    execution_id: Seq<char>,
    step_id: Seq<char>,
    auth_info: JsonView,
) -> JsonView {
    envelope(
        execution_id,
        step_id,
        "completed"@,
        JsonView::Null,
        auth_info,
        JsonView::Null,
        ""@,
    )
}

/// The envelope that says why the flow cannot go on.
pub open spec fn failed(
    execution_id: Seq<char>,
    code: Seq<char>,
    description: Seq<char>,
) -> JsonView {
    envelope(
        execution_id,
        ""@,
        "failed"@,
        JsonView::Null,
        JsonView::Null,
        JsonView::Object(
            seq![
                ("errorCode"@, JsonView::Text(code)),
                ("errorDescription"@, JsonView::Text(description)),
            ],
        ),
        ""@,
    )
}

/// The three addresses of a service provider, all empty.
fn provider() -> (r: Json)
    ensures
        r@ == no_provider(),
{
    let r = object(
        vec![
            member("spAcsUrl", text("")),
            member("spEntityId", text("")),
            member("spMetadataUrl", text("")),
        ],
    );
    assert(r@->Object_0 =~= no_provider()->Object_0);
    r
}

/// The state that every screen is shown with.
pub fn screen_state() -> (r: Json)
    ensures
        r@ == screen_state_view(),
{
    let components = object(
        vec![
            member("samlGroupMappings", empty_object()),
            member("ssoApplications", empty_object()),
            member("thirdPartyAppApproveScopes", empty_object()),
            member("userRoles", empty_object()),
            member("userSelectedTenant", empty_object()),
        ],
    );
    let project = object(vec![member("name", text("local"))]);
    assert(components@->Object_0 =~= screen_state_view()->Object_0[0].1->Object_0);
    assert(project@->Object_0 =~= screen_state_view()->Object_0[3].1->Object_0);
    let r = object(
        vec![
            member("componentsConfig", components),
            member("form", provider()),
            member("inputs", provider()),
            member("project", project),
        ],
    );
    assert(r@->Object_0 =~= screen_state_view()->Object_0);
    r
}

/// A flat envelope.
fn build_envelope(
    execution_id: &str,
    step_id: &str,
    status: &str,
    screen: Json,
    auth_info: Json,
    error: Json,
    step_name: &str,
) -> (r: Json)
    ensures
        r@ == envelope(
            execution_id@,
            step_id@,
            status@,
            screen@,
            auth_info@,
            error@,
            step_name@,
        ),
{
    let ghost expected = envelope(
        execution_id@,
        step_id@,
        status@,
        screen@,
        auth_info@,
        error@,
        step_name@,
    );
    let redirect = object(vec![member("url", text("")), member("isPopup", Json::Bool(false))]);
    assert(redirect@->Object_0 =~= expected->Object_0[5].1->Object_0);
    let webauthn = object(vec![member("transactionId", text("")), member("options", text(""))]);
    assert(webauthn@->Object_0 =~= expected->Object_0[6].1->Object_0);
    let logs = array(Vec::new());
    assert(logs@->Array_0 =~= seq![]);
    let members: Vec<Member> = vec![
        member("executionId", text(execution_id)),
        member("stepId", text(step_id)),
        member("status", text(status)),
        member("action", text("")),
        member("screen", screen),
        member("redirect", redirect),
        member("webauthn", webauthn),
        member("authInfo", auth_info),
        member("error", error),
        member("lastAuth", Json::Null),
        member("stepName", text(step_name)),
        member("samlIdpResponse", Json::Null),
        member("openInNewTabUrl", text("")),
        member("runnerLogs", logs),
        member("nativeResponse", Json::Null),
        member("output", empty_object()),
    ];
    let r = object(members);
    assert(r@->Object_0 =~= expected->Object_0);
    r
}

/// Build a FLAT `waiting` envelope showing a screen.
pub fn waiting_envelope(execution_id: &str, step_id: &str, screen_id: &str, step_name: &str) -> (r:
    Json)
    ensures
        r@ == waiting(execution_id@, step_id@, screen_id@, step_name@),
{
    let screen = object(vec![member("id", text(screen_id)), member("state", screen_state())]);
    assert(screen@->Object_0 =~= seq![
        ("id"@, JsonView::Text(screen_id@)),
        ("state"@, screen_state_view()),
    ]);
    build_envelope(execution_id, step_id, "waiting", screen, Json::Null, Json::Null, step_name)
}

/// Build a FLAT `completed` envelope carrying the minted auth info.
pub fn completed_envelope(execution_id: &str, step_id: &str, auth_info: Json) -> (r: Json)
    ensures
        r@ == completed(execution_id@, step_id@, auth_info@),
{
    build_envelope(execution_id, step_id, "completed", Json::Null, auth_info, Json::Null, "")
}

/// Build a FLAT `failed` envelope. Keeps every top-level key so the SDK parser
/// stays happy; the `error` object carries the reason.
pub fn failed_envelope(execution_id: &str, code: &str, description: &str) -> (r: Json)
    ensures
        r@ == failed(execution_id@, code@, description@),
{
    let error = object(
        vec![member("errorCode", text(code)), member("errorDescription", text(description))],
    );
    assert(error@->Object_0 =~= seq![
        ("errorCode"@, JsonView::Text(code@)),
        ("errorDescription"@, JsonView::Text(description@)),
    ]);
    build_envelope(execution_id, "", "failed", Json::Null, Json::Null, error, "")
}

/// The first string among the values of an object, in the order of its members.
pub open spec fn first_text_in(members: Seq<(Seq<char>, JsonView)>) -> Option<Seq<char>>
    decreases members.len(),
{
    if members.len() == 0 {
        None
    } else {
        match members[0].1.as_text() {
            Some(t) => Some(t),
            None => first_text_in(members.drop_first()),
        }
    }
}

/// The first string among the values of this value, where it is an object.
pub open spec fn first_text(value: JsonView) -> Option<Seq<char>> {
    match value {
        JsonView::Object(members) => first_text_in(members),
        _ => None,
    }
}

/// First string value found in a JSON object (fallback input extraction).
pub fn first_string(obj: &Json) -> (r: Option<String>)
    ensures
        text::shown(r) == first_text(obj@),
{
    match obj {
        Json::Object(members) => {
            let ghost views = json::member_views(members@);
            assert(obj@->Object_0 =~= views);
            assert(views.skip(0) =~= views);
            let mut i: usize = 0;
            while i < members.len()
                invariant
                    i <= members@.len(),
                    obj@ == JsonView::Object(views),
                    views == json::member_views(members@),
                    first_text_in(views) == first_text_in(views.skip(i as int)),
                decreases members@.len() - i,
            {
                assert(views.skip(i as int)[0] == members@[i as int]@);
                assert(views.skip(i as int).drop_first() =~= views.skip(i + 1));
                if let Some(t) = members[i].value.as_str() {
                    return Some(t.to_owned());
                }
                i += 1;
            }
            None
        },
        _ => None,
    }
}

/// The string under a key of an object.
pub fn field(input: &Json, key: &str) -> (r: Option<String>)
    ensures
        text::shown(r) == input@.text_at(key@),
{
    input.text_at(key)
}

/// The text, or the empty one where there is none.
pub open spec fn or_empty(t: Option<Seq<char>>) -> Seq<char> {
    match t {
        Some(t) => t,
        None => ""@,
    }
}

/// The text, or the empty one where there is none.
fn text_or_empty(t: Option<String>) -> (r: String)
    ensures
        r@ == or_empty(text::shown(t)),
{
    match t {
        Some(t) => t,
        None => "".to_owned(),
    }
}

/// A reply without headers.
pub open spec fn plainly(reply: Reply, body: JsonView) -> bool {
    headers::header_values(reply.headers) == headers::no_values() && reply.body@ == body
}

/// A reply without headers.
fn plain(body: Json) -> (r: Reply)
    ensures
        plainly(r, body@),
{
    Reply { headers: headers::no_headers(), body }
}

/// Whether the body asks for the one flow there is.
pub open spec fn asks_for_flow(body: JsonView) -> bool {
    or_empty(body.text_at("flowId"@)) == FLOW_ID@
}

/// Whether the body asks for the one flow there is.
pub fn names_flow(body: &Json) -> (r: bool)
    ensures
        r == asks_for_flow(body@),
{
    let flow_id = text_or_empty(field(body, "flowId"));
    text::same(flow_id.as_str(), FLOW_ID)
}

/// The id of an execution: the flow's, three dashes and the first bytes of a random token.
pub open spec fn execution_id_from(token: Seq<char>) -> Seq<char> {
    FLOW_ID@ + "---"@ + text::cut(token, 27)
}

/// Whether `exec` has just been started under this id.
pub open spec fn started(exec: FlowExecution, id: Seq<char>, created_at: u64) -> bool {
    &&& exec.execution_id@ == id
    &&& exec.flow_id@ == FLOW_ID@
    &&& exec.status == FlowStatus::Waiting
    &&& exec.step == 1
    &&& exec.screen_id@ == SCREEN_SIGNIN@
    &&& exec.login_id is None
    &&& exec.created_at == created_at
}

/// What a request to start a flow leads to: an unknown flow is refused and changes nothing; the
/// one flow there is gets a new execution, old ones are swept, and the email screen is shown.
pub open spec fn start_is(
    body: JsonView,
    token: Seq<char>,
    created_at: u64,
    now: u64,
    flows: Map<Seq<char>, FlowExecution>,
    after: Map<Seq<char>, FlowExecution>,
    reply: Reply,
) -> bool {
    if !asks_for_flow(body) {
        after == flows && plainly(reply, failed(""@, "E102001"@, "Unknown flow"@))
    } else {
        let id = execution_id_from(token);
        &&& started(after[id], id, created_at)
        &&& after == flow_store::living(flows, now).insert(id, after[id])
        &&& plainly(reply, waiting(id, "1"@, SCREEN_SIGNIN@, "Welcome"@))
    }
}

/// Starts the flow that a parsed body asks for. `token` is a fresh random token, which must have a
/// character end behind its first 27 bytes.
pub fn start_parsed(flows: &mut FlowStore, body: &Json, token: &str, created_at: u64, now: u64) -> (
    r: Reply)
    requires
        old(flows).wf(),
        asks_for_flow(body@) ==> text::cut_at(token@, 27),
    ensures
        final(flows).wf(),
        start_is(body@, token@, created_at, now, old(flows)@, final(flows)@, r),
{
    if !names_flow(body) {
        return plain(failed_envelope("", "E102001", "Unknown flow"));
    }
    let mut execution_id: String = FLOW_ID.to_owned();
    execution_id.append("---");
    let chars = text::to_chars(token);
    let (count, _) = text::fit(&chars, 27);
    let head = text::from_chars(&chars, 0, count);
    execution_id.append(head.as_str());
    assert(execution_id@ =~= execution_id_from(token@));

    let exec = FlowExecution {
        execution_id: execution_id.clone(),
        flow_id: FLOW_ID.to_owned(),
        status: FlowStatus::Waiting,
        step: 1,
        screen_id: SCREEN_SIGNIN.to_owned(),
        login_id: None,
        created_at,
    };
    flows.sweep_expired(now);
    flows.insert(exec);

    plain(waiting_envelope(execution_id.as_str(), "1", SCREEN_SIGNIN, "Welcome"))
}

/// Starts the flow that a request's body asks for, or refuses one that is unknown.
pub fn start(flows: &mut FlowStore, bytes: &[u8], token: &str, created_at: u64, now: u64) -> (r:
    Reply)
    requires
        old(flows).wf(),
        text::cut_at(token@, 27),
    ensures
        final(flows).wf(),
        start_is(body_of(bytes@), token@, created_at, now, old(flows)@, final(flows)@, r),
{
    let body = parse_body(bytes);
    start_parsed(flows, &body, token, created_at, now)
}

/// What is known so far of the next step of a flow.
pub struct NextSeen {
    /// The execution, where there is one.
    pub execution: Option<Option<FlowExecution>>,
    /// Whether the execution was moved on to the password screen.
    pub advanced: bool,
    /// The execution when the password is checked, where there still is one.
    pub login: Option<Option<FlowExecution>>,
    /// Whether signing in by password is enabled.
    pub method: Option<Result<(), EmulatorError>>,
    /// Whether the login id is free of a lockout.
    pub lockout: Option<Result<(), EmulatorError>>,
    /// The user whose password is to be checked.
    pub account: Option<Result<User, EmulatorError>>,
    /// Whether the password is the one that the hash stands for (nothing where the hash is
    /// malformed), or the text of the failure of the task that was to tell.
    pub verified: Option<Result<Option<bool>, String>>,
    /// Whether the failure was counted.
    pub failure_recorded: bool,
    /// Whether earlier failures were forgotten.
    pub failures_cleared: bool,
    /// The user who signs in.
    pub user: Option<Result<User, EmulatorError>>,
    pub issued: Issued,
    /// Whether the execution was completed.
    pub completed: bool,
    /// Whether the login was recorded, or tried to be.
    pub login_recorded: bool,
}

/// What the next step of a flow does next.
#[derive(Debug)]
pub enum NextStep<'a> {
    /// Read the execution with this id.
    ReadExecution(String),
    /// Move the execution with this id on to the password screen, with this login id.
    Advance { execution_id: String, login_id: String },
    /// Read the execution with this id again, for its login id.
    ReadLogin(String),
    /// Check that this way to sign in is enabled.
    CheckMethod(&'a str),
    /// Check that this login id is not locked out.
    CheckLockout(String),
    /// Load the user with this login id to check the password.
    LoadAccount(String),
    /// Check this password against this hash.
    VerifyPassword { password: String, hash: &'a str },
    /// Count a failure against this login id.
    RecordFailure(String),
    /// Forget the failures of this login id.
    ClearFailures(String),
    /// Load the user with this login id.
    LoadUser(String),
    Tokens(TokenAsk<'a>),
    /// Mark the execution with this id as completed.
    Complete(String),
    /// Record a login under this login id; whether that works does not matter.
    RecordLogin(String),
    Respond(Result<Reply, EmulatorError>),
}

/// The execution that the body is about.
pub open spec fn execution_named(body: JsonView) -> Seq<char> {
    or_empty(body.text_at("executionId"@))
}

/// What the user entered.
pub open spec fn input_of(body: JsonView) -> JsonView {
    match body.at("input"@) {
        Some(input) => input,
        None => nothing(),
    }
}

/// The login id that the user entered, under one of its names or any.
pub open spec fn login_entered(input: JsonView) -> Seq<char> {
    match input.text_at("externalId"@) {
        Some(login_id) => login_id,
        None => match input.text_at("email"@) {
            Some(login_id) => login_id,
            None => match input.text_at("loginId"@) {
                Some(login_id) => login_id,
                None => or_empty(first_text(input)),
            },
        },
    }
}

/// The password that the user entered, under its name or any.
pub open spec fn password_entered(input: JsonView) -> Seq<char> {
    match input.text_at("password"@) {
        Some(password) => password,
        None => or_empty(first_text(input)),
    }
}

/// The login id that the execution recorded; empty where there is none.
pub open spec fn login_recorded_in(execution: Option<FlowExecution>) -> Seq<char> {
    match execution {
        Some(exec) => or_empty(text::shown(exec.login_id)),
        None => ""@,
    }
}

/// The reply that shows the password screen, for the first time or again.
pub open spec fn password_screen(execution_id: Seq<char>) -> JsonView {
    waiting(execution_id, "2"@, SCREEN_PASSWORD@, "Sign In"@)
}

/// Whether the step is to show the password screen again.
pub open spec fn shows_again(execution_id: Seq<char>, step: NextStep) -> bool {
    step matches NextStep::Respond(Ok(reply)) && plainly(reply, password_screen(execution_id))
}

/// Which step follows: finding the execution, which must be waiting; on the email screen, moving
/// on to the password screen; on the password screen, checking the password.
pub open spec fn next_is(body: JsonView, ttl: TokenTtl, seen: NextSeen, step: NextStep) -> bool {
    let id = execution_named(body);
    match seen.execution {
        None => step matches NextStep::ReadExecution(i) && i@ == id,
        Some(execution) => if !(execution matches Some(exec) && exec.status
            == FlowStatus::Waiting) {
            step matches NextStep::Respond(Ok(reply)) && plainly(
                reply,
                failed(id, "E102103"@, "Did not find next task"@),
            )
        } else if execution->0.step == 1 {
            if !seen.advanced {
                step matches NextStep::Advance { execution_id, login_id } && execution_id@ == id
                    && login_id@ == login_entered(input_of(body))
            } else {
                shows_again(id, step)
            }
        } else {
            match seen.login {
                None => step matches NextStep::ReadLogin(i) && i@ == id,
                Some(execution) => checks_password(
                    id,
                    login_recorded_in(execution),
                    password_entered(input_of(body)),
                    ttl,
                    seen,
                    step,
                ),
            }
        },
    }
}

/// Which step follows on the password screen: the method and lockout checks, the password check,
/// which on a failure counts it, and signing in. Whatever is wrong with the credentials shows the
/// password screen again.
pub open spec fn checks_password(
    id: Seq<char>,
    login_id: Seq<char>,
    entered: Seq<char>,
    ttl: TokenTtl,
    seen: NextSeen,
    step: NextStep,
) -> bool {
    match seen.method {
        None => step matches NextStep::CheckMethod(method) && method@ == "password"@,
        Some(Err(_)) => shows_again(id, step),
        Some(Ok(_)) => match seen.lockout {
            None => step matches NextStep::CheckLockout(l) && l@ == login_id,
            Some(Err(_)) => shows_again(id, step),
            Some(Ok(_)) => match seen.account {
                None => step matches NextStep::LoadAccount(l) && l@ == login_id,
                Some(Err(_)) => fails(id, login_id, seen, step),
                Some(Ok(account)) => match account.password_hash {
                    None => fails(id, login_id, seen, step),
                    Some(stored) => match seen.verified {
                        None => step matches NextStep::VerifyPassword { password, hash }
                            && password@ == entered && hash@ == stored@,
                        Some(Err(message)) => step == NextStep::Respond(
                            Err(EmulatorError::Internal(message)),
                        ),
                        Some(Ok(Some(true))) => signs_in(id, login_id, ttl, seen, step),
                        Some(Ok(_)) => fails(id, login_id, seen, step),
                    },
                },
            },
        },
    }
}

/// Which step follows when there is no such user or the password is wrong: the failure is counted
/// and the password screen is shown again.
pub open spec fn fails(
    id: Seq<char>,
    login_id: Seq<char>,
    seen: NextSeen,
    step: NextStep,
) -> bool {
    if !seen.failure_recorded {
        step matches NextStep::RecordFailure(l) && l@ == login_id
    } else {
        shows_again(id, step)
    }
}

/// Whether the reply completes the flow: the cookies of the tokens, and an envelope that carries
/// what a sign-in replies.
pub open spec fn completes(id: Seq<char>, ttl: TokenTtl, issued: Issued, reply: Reply) -> bool {
    match (issued.session_jwt, issued.refresh_jwt, issued.user) {
        (Some(Ok(session_jwt)), Some(Ok(refresh_jwt)), Some((user, now))) => {
            &&& headers::header_values(reply.headers) == crate::cookies::auth_cookies(
                session_jwt@,
                refresh_jwt@,
                ttl.session,
            )
            &&& reply.body@ == completed(
                id,
                "2"@,
                issue::jwt_response(ttl.session, now, session_jwt@, refresh_jwt@, user@),
            )
        },
        _ => false,
    }
}

/// Which step follows once the password was found right: forgetting earlier failures, loading the
/// user, where a disabled one sees the password screen again, the tokens, completing the
/// execution, recording the login, and the reply.
pub open spec fn signs_in(
    id: Seq<char>,
    login_id: Seq<char>,
    ttl: TokenTtl,
    seen: NextSeen,
    step: NextStep,
) -> bool {
    if !seen.failures_cleared {
        step matches NextStep::ClearFailures(l) && l@ == login_id
    } else {
        match seen.user {
            None => step matches NextStep::LoadUser(l) && l@ == login_id,
            Some(Err(e)) => step == NextStep::Respond(Err(e)),
            Some(Ok(user)) => if user.status@ == "disabled"@ {
                shows_again(id, step)
            } else {
                match step {
                    NextStep::Tokens(ask) => issue::asks_for(ttl, user, None, seen.issued, ask),
                    NextStep::Complete(i) => issue::granted(seen.issued) && !seen.completed && i@
                        == id,
                    NextStep::RecordLogin(l) => issue::granted(seen.issued) && seen.completed
                        && !seen.login_recorded && l@ == login_id,
                    NextStep::Respond(Ok(reply)) => seen.completed && seen.login_recorded
                        && completes(id, ttl, seen.issued, reply),
                    NextStep::Respond(Err(e)) => issue::issues(ttl, seen.issued, Err(e)),
                    _ => false,
                }
            },
        }
    }
}

/// The login id that the user entered, under one of its names or any.
fn find_login(input: &Json) -> (r: String)
    ensures
        r@ == login_entered(input@),
{
    if let Some(login_id) = field(input, "externalId") {
        return login_id;
    }
    if let Some(login_id) = field(input, "email") {
        return login_id;
    }
    if let Some(login_id) = field(input, "loginId") {
        return login_id;
    }
    text_or_empty(first_string(input))
}

/// The password that the user entered, under its name or any.
fn find_password(input: &Json) -> (r: String)
    ensures
        r@ == password_entered(input@),
{
    match field(input, "password") {
        Some(password) => password,
        None => text_or_empty(first_string(input)),
    }
}

/// Shows the password screen, again.
fn re_show(execution_id: &str) -> (r: NextStep<'static>)
    ensures
        shows_again(execution_id@, r),
{
    NextStep::Respond(
        Ok(plain(waiting_envelope(execution_id, "2", SCREEN_PASSWORD, "Sign In"))),
    )
}

/// The next step on what a parsed body says.
pub fn next_parsed<'a>(body: &Json, ttl: TokenTtl, seen: &'a NextSeen) -> (r: NextStep<'a>)
    requires
        issue::replyable(ttl.session, seen.issued),
    ensures
        next_is(body@, ttl, *seen, r),
{
    let execution_id = text_or_empty(field(body, "executionId"));
    let input = match body.get("input") {
        Some(input) => input.clone(),
        None => empty_object(),
    };

    let step: u8 = match &seen.execution {
        None => return NextStep::ReadExecution(execution_id),
        Some(Some(exec)) if exec.status == FlowStatus::Waiting => exec.step,
        Some(_) => return NextStep::Respond(
            Ok(
                plain(
                    failed_envelope(execution_id.as_str(), "E102103", "Did not find next task"),
                ),
            ),
        ),
    };

    if step == 1 {
        if !seen.advanced {
            return NextStep::Advance { execution_id, login_id: find_login(&input) };
        }
        return re_show(execution_id.as_str());
    }
    let login_id = match &seen.login {
        None => return NextStep::ReadLogin(execution_id),
        Some(Some(exec)) => text_or_empty(text::copy_of(&exec.login_id)),
        Some(None) => "".to_owned(),
    };
    check_password(execution_id, login_id, find_password(&input), ttl, seen)
}

/// The next step on the password screen.
fn check_password<'a>(
    execution_id: String,
    login_id: String,
    password: String,
    ttl: TokenTtl,
    seen: &'a NextSeen,
) -> (r: NextStep<'a>)
    requires
        issue::replyable(ttl.session, seen.issued),
    ensures
        checks_password(execution_id@, login_id@, password@, ttl, *seen, r),
{
    match &seen.method {
        None => return NextStep::CheckMethod("password"),
        Some(Err(_)) => return re_show(execution_id.as_str()),
        Some(Ok(_)) => {},
    }
    match &seen.lockout {
        None => return NextStep::CheckLockout(login_id),
        Some(Err(_)) => return re_show(execution_id.as_str()),
        Some(Ok(_)) => {},
    }
    let hash = match &seen.account {
        None => return NextStep::LoadAccount(login_id),
        Some(Err(_)) => None,
        Some(Ok(account)) => account.password_hash.as_ref(),
    };
    let valid = match hash {
        None => false,
        Some(hash) => match &seen.verified {
            None => return NextStep::VerifyPassword { password, hash: hash.as_str() },
            Some(Err(message)) => return NextStep::Respond(
                Err(EmulatorError::Internal(message.clone())),
            ),
            Some(Ok(Some(valid))) => *valid,
            Some(Ok(None)) => false,
        },
    };
    if !valid {
        if !seen.failure_recorded {
            return NextStep::RecordFailure(login_id);
        }
        return re_show(execution_id.as_str());
    }
    sign_in(execution_id, login_id, ttl, seen)
}

/// The next step once the password was found right.
fn sign_in<'a>(execution_id: String, login_id: String, ttl: TokenTtl, seen: &'a NextSeen) -> (r:
    NextStep<'a>)
    requires
        issue::replyable(ttl.session, seen.issued),
    ensures
        signs_in(execution_id@, login_id@, ttl, *seen, r),
{
    if !seen.failures_cleared {
        return NextStep::ClearFailures(login_id);
    }
    let user = match &seen.user {
        None => return NextStep::LoadUser(login_id),
        Some(Err(e)) => return NextStep::Respond(Err(e.clone())),
        Some(Ok(user)) => user,
    };
    if text::same(user.status.as_str(), "disabled") {
        return re_show(execution_id.as_str());
    }
    match issue(ttl, user, None, &seen.issued) {
        IssueStep::Ask(ask) => NextStep::Tokens(ask),
        IssueStep::Done(Err(e)) => NextStep::Respond(Err(e)),
        IssueStep::Done(Ok(reply)) => {
            if !seen.completed {
                return NextStep::Complete(execution_id);
            }
            if !seen.login_recorded {
                return NextStep::RecordLogin(login_id);
            }
            NextStep::Respond(
                Ok(
                    Reply {
                        headers: reply.headers,
                        body: completed_envelope(execution_id.as_str(), "2", reply.body),
                    },
                ),
            )
        },
    }
}

/// The next step on what a request's body says.
pub fn next<'a>(bytes: &[u8], ttl: TokenTtl, seen: &'a NextSeen) -> (r: NextStep<'a>)
    requires
        issue::replyable(ttl.session, seen.issued),
    ensures
        next_is(body_of(bytes@), ttl, *seen, r),
{
    let body = parse_body(bytes);
    next_parsed(&body, ttl, seen)
}

/// The screen that an envelope shows, where it shows one.
pub open spec fn screen_shown(envelope: JsonView) -> Option<Seq<char>> {
    match envelope.at("screen"@) {
        Some(screen) => screen.text_at("id"@),
        None => None,
    }
}

/// Only an envelope that waits shows a screen, and it is the one that it is about.
proof fn lemma_screen_shown(
    execution_id: Seq<char>,
    step_id: Seq<char>,
    screen_id: Seq<char>,
    step_name: Seq<char>,
    code: Seq<char>,
    description: Seq<char>,
    auth_info: JsonView,
)
    ensures
        screen_shown(waiting(execution_id, step_id, screen_id, step_name)) == Some(screen_id),
        screen_shown(failed(execution_id, code, description)) is None,
        screen_shown(completed(execution_id, step_id, auth_info)) is None,
{
    reveal_strlit("executionId");
    reveal_strlit("stepId");
    reveal_strlit("status");
    reveal_strlit("action");
    reveal_strlit("screen");
    let key = "screen"@;
    assert("executionId"@ != key) by {
        assert("executionId"@.len() != key.len());
    }
    assert("stepId"@ != key) by {
        assert("stepId"@[1] != key[1]);
    }
    assert("status"@ != key) by {
        assert("status"@[1] != key[1]);
    }
    assert("action"@ != key) by {
        assert("action"@[0] != key[0]);
    }
    assert forall|envelope: JsonView|
        envelope == waiting(execution_id, step_id, screen_id, step_name) || envelope == failed(
            execution_id,
            code,
            description,
        ) || envelope == completed(execution_id, step_id, auth_info) implies #[trigger] envelope.at(
        key,
    ) == Some(envelope->Object_0[4].1) by {
        reveal_with_fuel(json::value_at, 6);
        let members = envelope->Object_0;
        assert(members.drop_first().drop_first().drop_first().drop_first()[0] == members[4]);
    }
    reveal_with_fuel(json::value_at, 2);
}

/// A flow shows no screen but the two that the assets hold: the start shows the email screen, and
/// what comes next the password screen.
pub proof fn law_only_known_screens_are_shown(
    body: JsonView,
    token: Seq<char>,
    created_at: u64,
    now: u64,
    flows: Map<Seq<char>, FlowExecution>,
    after: Map<Seq<char>, FlowExecution>,
    start_reply: Reply,
    ttl: TokenTtl,
    seen: NextSeen,
    step: NextStep,
)
    requires
        start_is(body, token, created_at, now, flows, after, start_reply),
        next_is(body, ttl, seen, step),
    ensures
        screen_shown(start_reply.body@) == (if asks_for_flow(body) {
            Some(SCREEN_SIGNIN@)
        } else {
            None
        }),
        step matches NextStep::Respond(Ok(reply)) ==> (screen_shown(reply.body@) == Some(
            SCREEN_PASSWORD@,
        ) || screen_shown(reply.body@) is None),
{
    let id = execution_named(body);
    let auth_info = match (seen.issued.session_jwt, seen.issued.refresh_jwt, seen.issued.user) {
        (Some(Ok(session_jwt)), Some(Ok(refresh_jwt)), Some((user, at))) => issue::jwt_response(
            ttl.session,
            at,
            session_jwt@,
            refresh_jwt@,
            user@,
        ),
        _ => JsonView::Null,
    };
    lemma_screen_shown(
        execution_id_from(token),
        "1"@,
        SCREEN_SIGNIN@,
        "Welcome"@,
        "E102001"@,
        "Unknown flow"@,
        auth_info,
    );
    lemma_screen_shown(
        ""@,
        "1"@,
        SCREEN_SIGNIN@,
        "Welcome"@,
        "E102001"@,
        "Unknown flow"@,
        auth_info,
    );
    lemma_screen_shown(
        id,
        "2"@,
        SCREEN_PASSWORD@,
        "Sign In"@,
        "E102103"@,
        "Did not find next task"@,
        auth_info,
    );
}

/// A body that is not JSON starts no flow and changes nothing, and names no execution either.
pub proof fn law_malformed_body_starts_nothing(
    bytes: Seq<u8>,
    token: Seq<char>,
    created_at: u64,
    now: u64,
    flows: Map<Seq<char>, FlowExecution>,
    after: Map<Seq<char>, FlowExecution>,
    reply: Reply,
)
    requires
        json::parsed(bytes) is None,
        start_is(body_of(bytes), token, created_at, now, flows, after, reply),
    ensures
        after == flows,
        plainly(reply, failed(""@, "E102001"@, "Unknown flow"@)),
        execution_named(body_of(bytes)) == ""@,
{
    reveal_strlit("");
    reveal_strlit("sign-up-or-in-passwords");
    assert(FLOW_ID@.len() != ""@.len());
}

} // verus!
