//! What holds of the tokens that the handlers ask for and hand out.
use crate::cookies;
use crate::error::EmulatorError;
use crate::headers;
use crate::json::{self, JsonView};
use crate::routes::auth::issue::{self, IssueStep, Issued, TokenAsk, TokenTtl};
use crate::text;
use crate::types::{Reply, User};
use vstd::prelude::*;

verus! {

/// Whether both tokens were signed and the user was rendered.
pub open spec fn all_signed(issued: Issued) -> bool {
    &&& issued.session_jwt matches Some(Ok(_))
    &&& issued.refresh_jwt matches Some(Ok(_))
    &&& issued.user is Some
}

/// Whether one of the tokens could not be signed, for this reason, and nothing failed before it.
pub open spec fn signing_failed(issued: Issued, message: String) -> bool {
    ||| issued.session_jwt == Some(Err::<String, String>(message))
    ||| (issued.session_jwt matches Some(Ok(_))) && issued.refresh_jwt == Some(
        Err::<String, String>(message),
    )
}

/// Whether nothing failed and something is still to be signed or rendered.
pub open spec fn unsigned(issued: Issued) -> bool {
    &&& !(issued.session_jwt matches Some(Err(_)))
    &&& !(issued.refresh_jwt matches Some(Err(_))) || issued.session_jwt is None
    &&& !all_signed(issued)
}

/// Whether the question is the first that is open: the session token, by password and for the
/// tenant where there is one, then the refresh token, then the user.
pub open spec fn asks_in_turn(
    user: User,
    ttl: TokenTtl,
    tenant: Option<Seq<char>>,
    issued: Issued,
    ask: TokenAsk,
) -> bool {
    &&& issued.session_jwt is None ==> {
        &&& ask matches TokenAsk::SignSession { user: u, ttl: t, amr, extra }
        &&& *u == user
        &&& t == ttl.session
        &&& amr@ == "pwd"@
        &&& tenant is None ==> extra is None
        &&& tenant is Some ==> (extra matches Some(e) && e.claim@ == "dct"@ && e.value@
            == tenant->0)
    }
    &&& issued.session_jwt is Some && issued.refresh_jwt is None ==> {
        &&& ask matches TokenAsk::SignRefresh { user_id, ttl: t }
        &&& user_id@ == user.user_id@
        &&& t == ttl.refresh
    }
    &&& issued.session_jwt is Some && issued.refresh_jwt is Some ==> {
        &&& ask matches TokenAsk::RenderUser { user: u }
        &&& *u == user
    }
}

/// Whether the headers set the two cookies and nothing else: the session token, readable and for
/// as long as it lasts, then the refresh token, which scripts cannot read.
pub open spec fn sets_cookies(
    values: Map<Seq<char>, Seq<Seq<u8>>>,
    session_ttl: u64,
    session_jwt: Seq<char>,
    refresh_jwt: Seq<char>,
) -> bool {
    &&& forall|name: Seq<char>| #[trigger] values.contains_key(name) <==> name == "set-cookie"@
    &&& values["set-cookie"@].len() == 2
    &&& values["set-cookie"@][0] == vstd::utf8::encode_utf8(
        "DS="@ + session_jwt + "; SameSite=None; Secure; Path=/; Max-Age="@ + text::decimal(
            session_ttl as nat,
        ),
    )
    &&& values["set-cookie"@][1] == vstd::utf8::encode_utf8(
        "DSR="@ + refresh_jwt + "; HttpOnly; SameSite=None; Secure; Path=/"@,
    )
}

/// Whether the body shows both tokens, the user, and for how long and until when the session
/// lasts.
pub open spec fn shows_tokens(
    body: JsonView,
    session_ttl: u64,
    now: u64,
    session_jwt: Seq<char>,
    refresh_jwt: Seq<char>,
    user: JsonView,
) -> bool {
    &&& body is Object
    &&& body->Object_0.len() == 8
    &&& body.text_at("sessionJwt"@) == Some(session_jwt)
    &&& body.text_at("refreshJwt"@) == Some(refresh_jwt)
    &&& body.text_at("cookieDomain"@) == Some(""@)
    &&& body.text_at("cookiePath"@) == Some("/"@)
    &&& body.at("cookieMaxAge"@) == Some(JsonView::Number(text::decimal(session_ttl as nat)))
    &&& body.at("cookieExpiration"@) == Some(
        JsonView::Number(text::decimal((now + session_ttl) as nat)),
    )
    &&& body.at("firstSeen"@) == Some(JsonView::Bool(false))
    &&& body.at("user"@) == Some(user)
}

/// Whether the reply hands out what was signed, in both cookies and in the body.
pub open spec fn hands_out(reply: Reply, ttl: TokenTtl, issued: Issued) -> bool {
    &&& issued.session_jwt matches Some(Ok(session_jwt))
    &&& issued.refresh_jwt matches Some(Ok(refresh_jwt))
    &&& issued.user matches Some((user, now))
    &&& sets_cookies(
        headers::header_values(reply.headers),
        ttl.session,
        session_jwt@,
        refresh_jwt@,
    )
    &&& shows_tokens(reply.body@, ttl.session, now, session_jwt@, refresh_jwt@, user@)
}

/// The headers of the two cookies set them, and nothing else.
pub proof fn law_cookies_carry_both_tokens(
    session_jwt: Seq<char>,
    refresh_jwt: Seq<char>,
    session_ttl: u64,
)
    ensures
        sets_cookies(
            cookies::auth_cookies(session_jwt, refresh_jwt, session_ttl),
            session_ttl,
            session_jwt,
            refresh_jwt,
        ),
{
}

/// The body of a reply with tokens shows each of its values under the key of that value, and has
/// no other members.
pub proof fn law_body_shows_both_tokens(
    session_ttl: u64,
    now: u64,
    session_jwt: Seq<char>,
    refresh_jwt: Seq<char>,
    user: JsonView,
)
    ensures
        shows_tokens(
            issue::jwt_response(session_ttl, now, session_jwt, refresh_jwt, user),
            session_ttl,
            now,
            session_jwt,
            refresh_jwt,
            user,
        ),
{
    reveal_strlit("sessionJwt");
    reveal_strlit("refreshJwt");
    reveal_strlit("cookieDomain");
    reveal_strlit("cookiePath");
    reveal_strlit("cookieMaxAge");
    reveal_strlit("cookieExpiration");
    reveal_strlit("firstSeen");
    reveal_strlit("user");
    let members = issue::jwt_response(
        session_ttl,
        now,
        session_jwt,
        refresh_jwt,
        user,
    )->Object_0;
    assert("sessionJwt"@[0] != "refreshJwt"@[0]);
    assert("sessionJwt"@[0] != "cookiePath"@[0]);
    assert("refreshJwt"@[0] != "cookiePath"@[0]);
    assert("cookieDomain"@[6] != "cookieMaxAge"@[6]);
    assert(members[0].0 == "sessionJwt"@ && members[1].0 == "refreshJwt"@);
    assert(members[2].0 == "cookieDomain"@ && members[3].0 == "cookiePath"@);
    assert(members[4].0 == "cookieMaxAge"@ && members[5].0 == "cookieExpiration"@);
    assert(members[6].0 == "firstSeen"@ && members[7].0 == "user"@);
    assert(members[0].0 != members[1].0);
    assert(members[0].0 != members[3].0);
    assert(members[1].0 != members[3].0);
    assert(members[2].0 != members[4].0);
    assert forall|i: int, j: int| 0 <= j < i < 8 implies #[trigger] members[j].0
        != #[trigger] members[i].0 by {
        if members[j].0 == members[i].0 {
            assert(members[j].0.len() == members[i].0.len());
        }
    }
    assert forall|i: int| 0 <= i < 8 implies #[trigger] json::value_at(members, members[i].0)
        == Some(members[i].1) by {
        json::lemma_member(members, i);
    }
}

/// Issuing asks one question at a time, in turn, and only while one is open; a token that could
/// not be signed is an internal error with the text of the failure; and what was signed is handed
/// out.
pub proof fn law_issuing(
    ttl: TokenTtl,
    user: User,
    tenant: Option<Seq<char>>,
    issued: Issued,
    step: IssueStep,
    message: String,
)
    requires
        issue::issue_is(ttl, user, tenant, issued, step),
    ensures
        unsigned(issued) <==> step is Ask,
        step matches IssueStep::Ask(ask) ==> asks_in_turn(user, ttl, tenant, issued, ask),
        signing_failed(issued, message) ==> step == IssueStep::Done(
            Err(EmulatorError::Internal(message)),
        ),
        all_signed(issued) ==> (step matches IssueStep::Done(Ok(reply)) && hands_out(
            reply,
            ttl,
            issued,
        )),
{
    if let IssueStep::Done(Ok(reply)) = step {
        lemma_grants(reply, ttl, issued);
    }
}

/// A reply that grants the tokens hands them out.
pub proof fn lemma_grants(reply: Reply, ttl: TokenTtl, issued: Issued)
    requires
        issue::issues(ttl, issued, Ok(reply)),
    ensures
        hands_out(reply, ttl, issued),
{
    let session_jwt = issued.session_jwt->0->Ok_0@;
    let refresh_jwt = issued.refresh_jwt->0->Ok_0@;
    let (user, now) = issued.user->0;
    law_cookies_carry_both_tokens(session_jwt, refresh_jwt, ttl.session);
    law_body_shows_both_tokens(ttl.session, now, session_jwt, refresh_jwt, user@);
}

/// Tokens without control characters, for a session whose end is a time, can be handed out, and so
/// can tokens that could not be signed or were not yet.
pub proof fn law_ordinary_tokens_can_be_handed_out(session_ttl: u64, issued: Issued)
    ensures
        issue::replyable(session_ttl, issued) <==> {
            &&& (issued.session_jwt matches Some(Ok(jwt)) ==> headers::header_safe(jwt@))
            &&& (issued.refresh_jwt matches Some(Ok(jwt)) ==> headers::header_safe(jwt@))
            &&& (issued.user matches Some((_, now)) ==> now + session_ttl <= u64::MAX)
        },
{
}

} // verus!
