//! What the flow endpoints store, ask for and show.
use crate::error::EmulatorError;
use crate::headers;
use crate::json::{self, JsonView};
use crate::routes::auth::flow::{self, NextSeen, NextStep};
use crate::routes::auth::issue::{self, TokenTtl};
use crate::routes::auth::token_laws;
use crate::store::flow_store::{FlowExecution, FlowStatus};
use crate::text;
use crate::types::{Reply, User};
use vstd::prelude::*;

verus! {

/// Whether the envelope has its sixteen members, and those that are always the same are so.
pub open spec fn is_envelope(body: JsonView) -> bool {
    &&& body is Object
    &&& body->Object_0.len() == 16
    &&& body.text_at("action"@) == Some(""@)
    &&& body.at("redirect"@) == Some(
        JsonView::Object(seq![("url"@, JsonView::Text(""@)), ("isPopup"@, JsonView::Bool(false))]),
    )
    &&& body.at("webauthn"@) == Some(
        JsonView::Object(
            seq![("transactionId"@, JsonView::Text(""@)), ("options"@, JsonView::Text(""@))],
        ),
    )
    &&& body.at("lastAuth"@) == Some(JsonView::Null)
    &&& body.at("samlIdpResponse"@) == Some(JsonView::Null)
    &&& body.text_at("openInNewTabUrl"@) == Some(""@)
    &&& body.at("runnerLogs"@) == Some(JsonView::Array(seq![]))
    &&& body.at("nativeResponse"@) == Some(JsonView::Null)
    &&& body.at("output"@) == Some(JsonView::Object(seq![]))
}

/// Whether the envelope is about this execution and step, and has this status and name.
pub open spec fn is_about(
    body: JsonView,
    execution_id: Seq<char>,
    step_id: Seq<char>,
    status: Seq<char>,
    step_name: Seq<char>,
) -> bool {
    &&& is_envelope(body)
    &&& body.text_at("executionId"@) == Some(execution_id)
    &&& body.text_at("stepId"@) == Some(step_id)
    &&& body.text_at("status"@) == Some(status)
    &&& body.text_at("stepName"@) == Some(step_name)
}

/// Whether the body waits on this screen, with the state that every screen has, no error and no
/// tokens.
pub open spec fn waits_on(
    body: JsonView,
    execution_id: Seq<char>,
    step_id: Seq<char>,
    screen_id: Seq<char>,
    step_name: Seq<char>,
) -> bool {
    &&& is_about(body, execution_id, step_id, "waiting"@, step_name)
    &&& body.at("screen"@) matches Some(screen)
    &&& screen.text_at("id"@) == Some(screen_id)
    &&& screen.at("state"@) == Some(flow::screen_state_view())
    &&& body.at("authInfo"@) == Some(JsonView::Null)
    &&& body.at("error"@) == Some(JsonView::Null)
}

/// Whether the body says why the flow cannot go on, and shows no screen and no tokens.
pub open spec fn gives_up(
    body: JsonView,
    execution_id: Seq<char>,
    code: Seq<char>,
    description: Seq<char>,
) -> bool {
    &&& is_about(body, execution_id, ""@, "failed"@, ""@)
    &&& body.at("screen"@) == Some(JsonView::Null)
    &&& body.at("authInfo"@) == Some(JsonView::Null)
    &&& body.at("error"@) matches Some(error)
    &&& error.text_at("errorCode"@) == Some(code)
    &&& error.text_at("errorDescription"@) == Some(description)
}

/// Whether the body carries what was issued, and shows no screen and no error.
pub open spec fn carries(
    body: JsonView,
    execution_id: Seq<char>,
    step_id: Seq<char>,
    auth_info: JsonView,
) -> bool {
    &&& is_about(body, execution_id, step_id, "completed"@, ""@)
    &&& body.at("screen"@) == Some(JsonView::Null)
    &&& body.at("authInfo"@) == Some(auth_info)
    &&& body.at("error"@) == Some(JsonView::Null)
}

/// A reply without headers.
pub open spec fn no_headers(reply: Reply) -> bool {
    forall|name: Seq<char>| !(#[trigger] headers::header_values(reply.headers).contains_key(name))
}

/// The members of an envelope under their keys.
#[verifier::rlimit(40)]
#[verifier::spinoff_prover]
proof fn lemma_envelope(
    execution_id: Seq<char>,
    step_id: Seq<char>,
    status: Seq<char>,
    screen: JsonView,
    auth_info: JsonView,
    error: JsonView,
    step_name: Seq<char>,
)
    ensures
        ({
            let body = flow::envelope(
                execution_id,
                step_id,
                status,
                screen,
                auth_info,
                error,
                step_name,
            );
            &&& is_about(body, execution_id, step_id, status, step_name)
            &&& body.at("screen"@) == Some(screen)
            &&& body.at("authInfo"@) == Some(auth_info)
            &&& body.at("error"@) == Some(error)
        }),
{
    let body = flow::envelope(
        execution_id,
        step_id,
        status,
        screen,
        auth_info,
        error,
        step_name,
    );
    let members = body->Object_0;
    reveal_strlit("executionId");
    reveal_strlit("stepId");
    reveal_strlit("status");
    reveal_strlit("action");
    reveal_strlit("screen");
    reveal_strlit("redirect");
    reveal_strlit("webauthn");
    reveal_strlit("authInfo");
    reveal_strlit("error");
    reveal_strlit("lastAuth");
    reveal_strlit("stepName");
    reveal_strlit("samlIdpResponse");
    reveal_strlit("openInNewTabUrl");
    reveal_strlit("runnerLogs");
    reveal_strlit("nativeResponse");
    reveal_strlit("output");
    assert(members[0].0 == "executionId"@ && members[1].0 == "stepId"@);
    assert(members[2].0 == "status"@ && members[3].0 == "action"@);
    assert(members[4].0 == "screen"@ && members[5].0 == "redirect"@);
    assert(members[6].0 == "webauthn"@ && members[7].0 == "authInfo"@);
    assert(members[8].0 == "error"@ && members[9].0 == "lastAuth"@);
    assert(members[10].0 == "stepName"@ && members[11].0 == "samlIdpResponse"@);
    assert(members[12].0 == "openInNewTabUrl"@ && members[13].0 == "runnerLogs"@);
    assert(members[14].0 == "nativeResponse"@ && members[15].0 == "output"@);
    // The keys of six characters.
    assert("stepId"@[2] != "status"@[2]);
    assert("stepId"@[0] != "action"@[0]);
    assert("stepId"@[1] != "screen"@[1]);
    assert("stepId"@[0] != "output"@[0]);
    assert("status"@[0] != "action"@[0]);
    assert("status"@[1] != "screen"@[1]);
    assert("status"@[0] != "output"@[0]);
    assert("action"@[0] != "screen"@[0]);
    assert("action"@[0] != "output"@[0]);
    assert("screen"@[0] != "output"@[0]);
    // Those of eight.
    assert("redirect"@[0] != "webauthn"@[0]);
    assert("redirect"@[0] != "authInfo"@[0]);
    assert("redirect"@[0] != "lastAuth"@[0]);
    assert("redirect"@[0] != "stepName"@[0]);
    assert("webauthn"@[0] != "authInfo"@[0]);
    assert("webauthn"@[0] != "lastAuth"@[0]);
    assert("webauthn"@[0] != "stepName"@[0]);
    assert("authInfo"@[0] != "lastAuth"@[0]);
    assert("authInfo"@[0] != "stepName"@[0]);
    assert("lastAuth"@[0] != "stepName"@[0]);
    // And those of fifteen.
    assert("samlIdpResponse"@[0] != "openInNewTabUrl"@[0]);
    assert forall|i: int, j: int| 0 <= j < i < 16 implies #[trigger] members[j].0
        != #[trigger] members[i].0 by {
        if members[j].0 == members[i].0 {
            assert(members[j].0.len() == members[i].0.len());
            assert(members[j].0[0] == members[i].0[0]);
            assert(members[j].0[1] == members[i].0[1]);
            assert(members[j].0[2] == members[i].0[2]);
        }
    }
    assert forall|i: int| 0 <= i < 16 implies #[trigger] json::value_at(members, members[i].0)
        == Some(members[i].1) by {
        json::lemma_member(members, i);
    }
}

/// An envelope that waits shows its screen, one that is completed carries what was issued, and one
/// that failed says why; and each of them has all the keys that clients read.
pub proof fn law_envelopes(
    execution_id: Seq<char>,
    step_id: Seq<char>,
    screen_id: Seq<char>,
    step_name: Seq<char>,
    code: Seq<char>,
    description: Seq<char>,
    auth_info: JsonView,
)
    ensures
        waits_on(
            flow::waiting(execution_id, step_id, screen_id, step_name),
            execution_id,
            step_id,
            screen_id,
            step_name,
        ),
        gives_up(flow::failed(execution_id, code, description), execution_id, code, description),
        carries(flow::completed(execution_id, step_id, auth_info), execution_id, step_id, auth_info),
{
    let screen = JsonView::Object(
        seq![("id"@, JsonView::Text(screen_id)), ("state"@, flow::screen_state_view())],
    );
    let error = JsonView::Object(
        seq![
            ("errorCode"@, JsonView::Text(code)),
            ("errorDescription"@, JsonView::Text(description)),
        ],
    );
    lemma_envelope(
        execution_id,
        step_id,
        "waiting"@,
        screen,
        JsonView::Null,
        JsonView::Null,
        step_name,
    );
    lemma_envelope(
        execution_id,
        ""@,
        "failed"@,
        JsonView::Null,
        JsonView::Null,
        error,
        ""@,
    );
    lemma_envelope(
        execution_id,
        step_id,
        "completed"@,
        JsonView::Null,
        auth_info,
        JsonView::Null,
        ""@,
    );
    reveal_strlit("id");
    reveal_strlit("state");
    reveal_strlit("errorCode");
    reveal_strlit("errorDescription");
    json::lemma_member(screen->Object_0, 0);
    json::lemma_member(error->Object_0, 0);
    assert("id"@.len() != "state"@.len());
    assert("errorCode"@.len() != "errorDescription"@.len());
    json::lemma_member(screen->Object_0, 1);
    json::lemma_member(error->Object_0, 1);
}

/// Starting a flow touches no other execution that is not older than ten minutes: it stays as it
/// was. Older ones are gone once the flow was started, and none appears but the new one. A request
/// for any other flow, or for none, changes nothing at all.
pub proof fn law_start_touches_no_other(
    body: JsonView,
    token: Seq<char>,
    created_at: u64,
    now: u64,
    flows: Map<Seq<char>, FlowExecution>,
    after: Map<Seq<char>, FlowExecution>,
    reply: Reply,
    id: Seq<char>,
    k: Seq<char>,
)
    requires
        flow::start_is(body, token, created_at, now, flows, after, reply),
        reply.body@.text_at("executionId"@) == Some(id),
        k != id,
    ensures
        flows.contains_key(k) && now < flows[k].created_at + 600 ==> after.contains_key(k)
            && after[k] == flows[k],
        after.contains_key(k) ==> flows.contains_key(k) && after[k] == flows[k],
        body.text_at("flowId"@) == Some("sign-up-or-in-passwords"@) && flows.contains_key(k) && now
            >= flows[k].created_at + 600 ==> !after.contains_key(k),
        body.text_at("flowId"@) != Some("sign-up-or-in-passwords"@) ==> after == flows,
{
    reveal_strlit("sign-up-or-in-passwords");
    reveal_strlit("");
    assert(flow::FLOW_ID@.len() != ""@.len());
    if flow::asks_for_flow(body) {
        let new = flow::execution_id_from(token);
        law_envelopes(new, "1"@, flow::SCREEN_SIGNIN@, "Welcome"@, ""@, ""@, JsonView::Null);
        assert(new == id);
    }
}

/// A flow that was started has a new execution, whose id is the flow's, three dashes and the first
/// 27 bytes of the token, and which waits on the email screen; and the reply shows that screen. Any
/// other flow is unknown.
pub proof fn law_started_flow_shows_the_email_screen(
    body: JsonView,
    head: Seq<char>,
    tail: Seq<char>,
    created_at: u64,
    now: u64,
    flows: Map<Seq<char>, FlowExecution>,
    after: Map<Seq<char>, FlowExecution>,
    reply: Reply,
)
    requires
        flow::start_is(body, head + tail, created_at, now, flows, after, reply),
        text::byte_len(head) == 27,
    ensures
        no_headers(reply),
        body.text_at("flowId"@) == Some("sign-up-or-in-passwords"@) ==> {
            let id = "sign-up-or-in-passwords---"@ + head;
            &&& after.contains_key(id)
            &&& after[id].execution_id@ == id
            &&& after[id].flow_id@ == "sign-up-or-in-passwords"@
            &&& after[id].status == FlowStatus::Waiting
            &&& after[id].step == 1
            &&& after[id].screen_id@ == "signIn"@
            &&& after[id].login_id is None
            &&& after[id].created_at == created_at
            &&& waits_on(reply.body@, id, "1"@, "signIn"@, "Welcome"@)
        },
        body.text_at("flowId"@) != Some("sign-up-or-in-passwords"@) ==> gives_up(
            reply.body@,
            ""@,
            "E102001"@,
            "Unknown flow"@,
        ),
{
    reveal_strlit("sign-up-or-in-passwords");
    reveal_strlit("sign-up-or-in-passwords---");
    reveal_strlit("---");
    reveal_strlit("");
    assert(flow::FLOW_ID@.len() != ""@.len());
    let id = "sign-up-or-in-passwords---"@ + head;
    text::law_cut_keeps_the_first_bytes(head, tail);
    assert(flow::execution_id_from(head + tail) =~= id);
    law_envelopes(id, "1"@, "signIn"@, "Welcome"@, ""@, ""@, JsonView::Null);
    law_envelopes(""@, ""@, ""@, ""@, "E102001"@, "Unknown flow"@, JsonView::Null);
}

/// The first text among the values of an object is the value of the first member that has one,
/// whatever comes behind; there is none where no member has one, or where the value is no object.
pub proof fn law_first_text(members: Seq<(Seq<char>, JsonView)>, i: int, t: Seq<char>)
    ensures
        0 <= i < members.len() && members[i].1 == JsonView::Text(t) && (forall|j: int|
            0 <= j < i ==> !((#[trigger] members[j]).1 is Text)) ==> flow::first_text(
            JsonView::Object(members),
        ) == Some(t),
        (forall|j: int| 0 <= j < members.len() ==> !((#[trigger] members[j]).1 is Text))
            ==> flow::first_text(JsonView::Object(members)) is None,
        flow::first_text(JsonView::Text(t)) is None,
        flow::first_text(JsonView::Null) is None,
    decreases members.len(),
{
    if members.len() > 0 {
        let rest = members.drop_first();
        assert(forall|j: int| 0 <= j < rest.len() ==> #[trigger] rest[j] == members[j + 1]);
        law_first_text(rest, i - 1, t);
    }
}

/// What was entered is read from the input of the body: the login id under `externalId`, or else
/// `email`, or else `loginId`, the password under `password`, and each of them, or else, as the
/// first text there is. Without an input, or without any text in it, nothing was entered.
pub proof fn law_what_was_entered(body: JsonView, input: JsonView, t: Seq<char>)
    ensures
        body.at("input"@) == Some(input) ==> flow::input_of(body) == input,
        body.at("input"@) is None ==> flow::login_entered(flow::input_of(body)) == ""@
            && flow::password_entered(flow::input_of(body)) == ""@,
        input.text_at("externalId"@) == Some(t) ==> flow::login_entered(input) == t,
        input.text_at("externalId"@) is None && input.text_at("email"@) == Some(t)
            ==> flow::login_entered(input) == t,
        input.text_at("externalId"@) is None && input.text_at("email"@) is None && input.text_at(
            "loginId"@,
        ) == Some(t) ==> flow::login_entered(input) == t,
        input.text_at("externalId"@) is None && input.text_at("email"@) is None && input.text_at(
            "loginId"@,
        ) is None && flow::first_text(input) == Some(t) ==> flow::login_entered(input) == t,
        input.text_at("password"@) == Some(t) ==> flow::password_entered(input) == t,
        input.text_at("password"@) is None && flow::first_text(input) == Some(t)
            ==> flow::password_entered(input) == t,
        flow::first_text(input) is None && input.text_at("password"@) is None
            ==> flow::password_entered(input) == ""@,
        flow::first_text(input) is None && input.text_at("externalId"@) is None && input.text_at(
            "email"@,
        ) is None && input.text_at("loginId"@) is None ==> flow::login_entered(input) == ""@,
{
}

/// A body that is JSON counts as it is, and any other as an object without members.
pub proof fn law_body_counts_as_it_is(bytes: Seq<u8>, key: Seq<char>)
    ensures
        json::parsed(bytes) matches Some(body) ==> flow::body_of(bytes) == body,
        json::parsed(bytes) is None ==> flow::body_of(bytes) is Object && flow::body_of(bytes).at(
            key,
        ) is None,
{
}

/// Whether the step shows the password screen, without any headers.
pub open spec fn shows_password_screen(id: Seq<char>, step: NextStep) -> bool {
    step matches NextStep::Respond(Ok(reply)) && no_headers(reply) && waits_on(
        reply.body@,
        id,
        "2"@,
        "signInPassword"@,
        "Sign In"@,
    )
}

/// A reply that shows the password screen again waits on it.
proof fn lemma_shows_again(id: Seq<char>, step: NextStep)
    ensures
        flow::shows_again(id, step) ==> shows_password_screen(id, step),
{
    law_envelopes(id, "2"@, "signInPassword"@, "Sign In"@, ""@, ""@, JsonView::Null);
}

/// The next step is about the execution that the body names: one that is not there, or no longer
/// waits, has none; on the email screen it is moved on to the password screen with what was
/// entered; on the password screen it is read again.
pub proof fn law_next_finds_its_screen(
    body: JsonView,
    ttl: TokenTtl,
    seen: NextSeen,
    step: NextStep,
    id: Seq<char>,
)
    requires
        flow::next_is(body, ttl, seen, step),
        body.text_at("executionId"@) == Some(id) || (body.text_at("executionId"@) is None && id
            == ""@),
    ensures
        seen.execution is None <==> step is ReadExecution,
        step matches NextStep::ReadExecution(i) ==> i@ == id,
        (seen.execution matches Some(execution) && (execution is None || execution->0.status
            != FlowStatus::Waiting)) ==> (step matches NextStep::Respond(Ok(reply)) && no_headers(
            reply,
        ) && gives_up(reply.body@, id, "E102103"@, "Did not find next task"@)),
        (seen.execution matches Some(Some(exec)) && exec.status == FlowStatus::Waiting && exec.step
            == 1) ==> {
            &&& !seen.advanced <==> step is Advance
            &&& step matches NextStep::Advance { execution_id, login_id } ==> execution_id@ == id
                && login_id@ == flow::login_entered(flow::input_of(body))
            &&& seen.advanced ==> shows_password_screen(id, step)
        },
        (seen.execution matches Some(Some(exec)) && exec.status == FlowStatus::Waiting && exec.step
            != 1) ==> {
            &&& seen.login is None <==> step is ReadLogin
            &&& step matches NextStep::ReadLogin(i) ==> i@ == id
        },
{
    lemma_shows_again(id, step);
    law_envelopes(id, ""@, ""@, ""@, "E102103"@, "Did not find next task"@, JsonView::Null);
}

/// Whether the execution waits on the password screen and was read again.
pub open spec fn on_password_screen(seen: NextSeen) -> bool {
    &&& seen.execution matches Some(Some(exec))
    &&& exec.status == FlowStatus::Waiting
    &&& exec.step != 1
    &&& seen.login is Some
}

/// Whether this is the login id that the execution recorded, or the empty one where it did not.
pub open spec fn recorded_login(execution: Option<FlowExecution>, login_id: Seq<char>) -> bool {
    &&& (execution matches Some(exec) && exec.login_id is Some) ==> login_id
        == execution->0.login_id->0@
    &&& execution is None || execution->0.login_id is None ==> login_id == ""@
}

/// On the password screen the password that was entered is checked under the login id that was
/// recorded. Whatever is wrong with the credentials shows the screen again, and what is wrong with
/// the login id or the password is counted before.
pub proof fn law_password_screen_checks(
    body: JsonView,
    ttl: TokenTtl,
    seen: NextSeen,
    step: NextStep,
    id: Seq<char>,
    login: Seq<char>,
    message: String,
)
    requires
        flow::next_is(body, ttl, seen, step),
        body.text_at("executionId"@) == Some(id) || (body.text_at("executionId"@) is None && id
            == ""@),
        on_password_screen(seen),
        recorded_login(seen.login->0, login),
    ensures
        seen.method is None <==> step is CheckMethod,
        step matches NextStep::CheckMethod(method) ==> method@ == "password"@,
        (seen.method matches Some(Err(_))) ==> shows_password_screen(id, step),
        (seen.method matches Some(Ok(_))) ==> {
            &&& seen.lockout is None <==> step is CheckLockout
            &&& step matches NextStep::CheckLockout(l) ==> l@ == login
            &&& (seen.lockout matches Some(Err(_))) ==> shows_password_screen(id, step)
            &&& (seen.lockout matches Some(Ok(_))) && seen.account is None <==> step is LoadAccount
            &&& step matches NextStep::LoadAccount(l) ==> l@ == login
        },
        (seen.method matches Some(Ok(_))) && (seen.lockout matches Some(Ok(_)))
            && seen.account is Some ==> {
            let hashed = seen.account matches Some(Ok(account)) && account.password_hash is Some;
            let wrong = !hashed || seen.verified == Some(Ok::<Option<bool>, String>(None))
                || seen.verified == Some(Ok::<Option<bool>, String>(Some(false)));
            &&& hashed && seen.verified is None <==> step is VerifyPassword
            &&& step matches NextStep::VerifyPassword { password, hash } ==> password@
                == flow::password_entered(flow::input_of(body)) && hash@
                == seen.account->0->Ok_0.password_hash->0@
            &&& hashed && seen.verified == Some(Err::<Option<bool>, String>(message)) ==> step
                == NextStep::Respond(Err(EmulatorError::Internal(message)))
            &&& wrong && !seen.failure_recorded <==> step is RecordFailure
            &&& step matches NextStep::RecordFailure(l) ==> l@ == login
            &&& wrong && seen.failure_recorded ==> shows_password_screen(id, step)
        },
{
    lemma_shows_again(id, step);
}

/// Whether the password was found right, under a login id that is not locked out.
pub open spec fn password_is_right(seen: NextSeen) -> bool {
    &&& on_password_screen(seen)
    &&& seen.method matches Some(Ok(_))
    &&& seen.lockout matches Some(Ok(_))
    &&& seen.account matches Some(Ok(account))
    &&& account.password_hash is Some
    &&& seen.verified == Some(Ok::<Option<bool>, String>(Some(true)))
}

/// With the right password the flow goes on step by step: failures are forgotten, the user is
/// loaded, the tokens are asked for, the execution is completed, the login is recorded, and the
/// reply sets the cookies and carries the tokens. A disabled user sees the screen again.
pub proof fn law_right_password_completes_the_flow(
    body: JsonView,
    ttl: TokenTtl,
    seen: NextSeen,
    step: NextStep,
    id: Seq<char>,
    login: Seq<char>,
    e: EmulatorError,
    message: String,
)
    requires
        flow::next_is(body, ttl, seen, step),
        body.text_at("executionId"@) == Some(id) || (body.text_at("executionId"@) is None && id
            == ""@),
        password_is_right(seen),
        recorded_login(seen.login->0, login),
    ensures
        !seen.failures_cleared <==> step is ClearFailures,
        step matches NextStep::ClearFailures(l) ==> l@ == login,
        seen.failures_cleared && seen.user is None <==> step is LoadUser,
        step matches NextStep::LoadUser(l) ==> l@ == login,
        seen.failures_cleared && seen.user == Some(Err::<User, EmulatorError>(e)) ==> step
            == NextStep::Respond(Err(e)),
        seen.failures_cleared && (seen.user matches Some(Ok(user)) && user.status@ == "disabled"@)
            ==> shows_password_screen(id, step),
        seen.failures_cleared && (seen.user matches Some(Ok(user)) && user.status@ != "disabled"@)
            ==> {
            &&& token_laws::unsigned(seen.issued) <==> step is Tokens
            &&& step matches NextStep::Tokens(ask) ==> token_laws::asks_in_turn(
                seen.user->0->Ok_0,
                ttl,
                None,
                seen.issued,
                ask,
            )
            &&& token_laws::signing_failed(seen.issued, message) ==> step == NextStep::Respond(
                Err(EmulatorError::Internal(message)),
            )
            &&& token_laws::all_signed(seen.issued) && !seen.completed <==> step is Complete
            &&& step matches NextStep::Complete(i) ==> i@ == id
            &&& token_laws::all_signed(seen.issued) && seen.completed && !seen.login_recorded <==> (
            step is RecordLogin)
            &&& step matches NextStep::RecordLogin(l) ==> l@ == login
            &&& token_laws::all_signed(seen.issued) && seen.completed && seen.login_recorded ==> (
            step matches NextStep::Respond(Ok(reply)) && carries_tokens(
                reply,
                id,
                ttl,
                seen.issued,
            ))
        },
{
    lemma_shows_again(id, step);
    if let NextStep::Respond(Ok(reply)) = step {
        if token_laws::all_signed(seen.issued) && seen.failures_cleared && !flow::shows_again(
            id,
            step,
        ) {
            let session_jwt = seen.issued.session_jwt->0->Ok_0@;
            let refresh_jwt = seen.issued.refresh_jwt->0->Ok_0@;
            let (user, now) = seen.issued.user->0;
            let auth_info = issue::jwt_response(
                ttl.session,
                now,
                session_jwt,
                refresh_jwt,
                user@,
            );
            token_laws::law_cookies_carry_both_tokens(session_jwt, refresh_jwt, ttl.session);
            token_laws::law_body_shows_both_tokens(
                ttl.session,
                now,
                session_jwt,
                refresh_jwt,
                user@,
            );
            law_envelopes(id, "2"@, ""@, ""@, ""@, ""@, auth_info);
        }
    }
}

/// Whether the reply sets the cookies of what was issued and carries it in a completed envelope.
pub open spec fn carries_tokens(
    reply: Reply,
    id: Seq<char>,
    ttl: TokenTtl,
    issued: issue::Issued,
) -> bool {
    &&& issued.session_jwt matches Some(Ok(session_jwt))
    &&& issued.refresh_jwt matches Some(Ok(refresh_jwt))
    &&& issued.user matches Some((user, now))
    &&& token_laws::sets_cookies(
        headers::header_values(reply.headers),
        ttl.session,
        session_jwt@,
        refresh_jwt@,
    )
    &&& reply.body@.at("authInfo"@) matches Some(auth_info)
    &&& carries(reply.body@, id, "2"@, auth_info)
    &&& token_laws::shows_tokens(
        auth_info,
        ttl.session,
        now,
        session_jwt@,
        refresh_jwt@,
        user@,
    )
}

} // verus!
