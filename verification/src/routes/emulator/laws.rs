//! What the emulator's own endpoints do, step by step.
use crate::error::EmulatorError;
use crate::json::{self, JsonView};
use crate::passwords;
use crate::routes::auth::session_laws;
use crate::routes::emulator::{
    self, OtpSeen, OtpStep, ResetSeen, ResetStep, SeedSeen, SeedStep, SeedUserEntry,
};
use crate::types::{AuthType, Tenant, User};
use vstd::prelude::*;

verus! {

/// A reset empties the stores first. The seed file is applied after that, where one is configured,
/// and a failure to do so is logged once. In the end all is well.
pub proof fn law_reset_step_by_step(seed_file: Option<String>, seen: ResetSeen, step: ResetStep)
    requires
        emulator::reset_is(seed_file, seen, step),
    ensures
        !seen.stores_reset <==> step is ResetStores,
        seen.stores_reset && seed_file is Some && seen.seeded is None <==> step is LoadSeed,
        step matches ResetStep::LoadSeed(path) ==> path@ == seed_file->0@,
        seen.stores_reset && seed_file is Some && (seen.seeded matches Some(Err(_)))
            && !seen.warned <==> step is WarnSeedFailed,
        step matches ResetStep::WarnSeedFailed(m) ==> m@ == seen.seeded->0->Err_0@,
        seen.stores_reset && seed_file is None ==> step is Respond,
        seen.stores_reset && (seen.seeded matches Some(Ok(_))) ==> step is Respond,
        seen.stores_reset && seen.seeded is Some && seen.warned ==> step is Respond,
        step matches ResetStep::Respond(body) ==> session_laws::says_ok(body@),
{
    session_laws::lemma_all_well();
}

/// A look at a pending code loads the user who has the login id and shows the code of that user.
/// Without one the token is invalid.
pub proof fn law_otp_step_by_step(
    login_id: Seq<char>,
    seen: OtpSeen,
    step: OtpStep,
    e: EmulatorError,
)
    requires
        emulator::get_otp_is(login_id, seen, step),
    ensures
        seen.user is None <==> step is LoadUser,
        step matches OtpStep::LoadUser(l) ==> l@ == login_id,
        seen.user == Some(Err::<User, EmulatorError>(e)) ==> step == OtpStep::Respond(Err(e)),
        (seen.user matches Some(Ok(_))) && seen.code is None <==> step is Peek,
        step matches OtpStep::Peek(user_id) ==> user_id@ == seen.user->0->Ok_0.user_id@,
        (seen.user matches Some(Ok(_))) && (seen.code matches Some(None)) ==> step
            == OtpStep::Respond(Err(EmulatorError::InvalidToken)),
        (seen.user matches Some(Ok(_))) && (seen.code matches Some(Some(_))) ==> (step matches
            OtpStep::Respond(Ok(body)) && body@ is Object && body@->Object_0.len() == 1
            && body@.text_at("code"@) == Some(seen.code->0->0@)),
{
    if let OtpStep::Respond(Ok(body)) = step {
        json::lemma_member(body@->Object_0, 0);
    }
}

/// Whether creating the user failed, and not because it was there before.
pub open spec fn not_created(seen: SeedSeen) -> bool {
    seen.created matches Some(Err(why)) && why.error != EmulatorError::UserAlreadyExists
}

/// Whether the user was there before.
pub open spec fn was_there(seen: SeedSeen) -> bool {
    seen.created matches Some(Err(why)) && why.error == EmulatorError::UserAlreadyExists
}

/// Whether nothing is left to do for an entry: creating the user failed, or the user was there
/// before and was loaded, or is new, was enabled, got the password of the entry, where it has one,
/// and was loaded.
pub open spec fn done_with(entry: SeedUserEntry, seen: SeedSeen) -> bool {
    &&& entry.login_id is Some
    &&& {
        ||| not_created(seen)
        ||| was_there(seen) && seen.loaded is Some
        ||| (seen.created matches Some(Ok(_))) && seen.enabled && (entry.password is None
            || seen.password_set) && seen.loaded is Some
    }
}

/// Entries are settled in the same way everywhere.
proof fn lemma_done(entry: SeedUserEntry, seen: SeedSeen)
    ensures
        emulator::settled(entry, seen) == done_with(entry, seen),
{
}

/// Seeding works on the first entry that it is not done with. One without a login id fails the
/// request. A user is created first, as no test user and with its own id; a new one is then
/// enabled, gets the password of the entry, where it has one, and is loaded; one that was there
/// before is only loaded.
pub proof fn law_seed_works_on_the_first_open_entry(
    users: Seq<SeedUserEntry>,
    seen: Seq<SeedSeen>,
    step: SeedStep,
    i: int,
)
    requires
        emulator::seed_users_is(users, seen, step),
        0 <= i < users.len(),
        forall|j: int| 0 <= j < i ==> done_with(#[trigger] users[j], seen[j]),
        !done_with(users[i], seen[i]),
    ensures
        users[i].login_id is None ==> (step matches SeedStep::Respond(
            Err(EmulatorError::Internal(message)),
        ) && message@ == "loginId is required"@),
        users[i].login_id is Some && seen[i].created is None <==> step is Create,
        step matches SeedStep::Create { index, is_test, honor_uid } ==> index == i && !is_test
            && honor_uid,
        users[i].login_id is Some && (seen[i].created matches Some(Ok(_))) ==> {
            let wants_password = users[i].password is Some && !seen[i].password_set;
            &&& !seen[i].enabled <==> step is SetStatus
            &&& step matches SeedStep::SetStatus { index, login_id, status } ==> index == i
                && login_id@ == users[i].login_id->0@ && status@ == "enabled"@
            &&& seen[i].enabled && wants_password ==> step is SetPassword || step is Respond
            &&& step matches SeedStep::SetPassword { index, login_id, hash } ==> seen[i].enabled
                && wants_password && index == i && login_id@ == users[i].login_id->0@
                && passwords::stands_for(hash@, users[i].password->0@, 4)
            &&& step is Respond ==> (step matches SeedStep::Respond(Err(e))
                && passwords::names_bcrypt(e))
            &&& seen[i].enabled && !wants_password <==> step is Load
        },
        users[i].login_id is Some && was_there(seen[i]) ==> step is Load,
        step matches SeedStep::Load { index, login_id } ==> index == i && login_id@
            == users[i].login_id->0@,
{
    lemma_done(users[i], seen[i]);
    assert forall|j: int| 0 <= j < i implies emulator::settled(#[trigger] users[j], seen[j]) by {
        lemma_done(users[j], seen[j]);
    }
    assert(emulator::first_open(users, seen, i));
    let k = choose|k: int| emulator::first_open(users, seen, k);
    if k < i {
        assert(emulator::settled(users[k], seen[k]));
    } else if i < k {
        assert(emulator::settled(users[i], seen[i]));
    }
}

/// Once seeding is done with every entry, the reply lists the users that were loaded and those that
/// could not be created, and nothing else.
pub proof fn law_seed_tells_what_became_of_the_users(
    users: Seq<SeedUserEntry>,
    seen: Seq<SeedSeen>,
    step: SeedStep,
)
    requires
        emulator::seed_users_is(users, seen, step),
        forall|j: int| 0 <= j < users.len() ==> done_with(#[trigger] users[j], seen[j]),
    ensures
        step matches SeedStep::Respond(Ok(body)) && {
            &&& body@ is Object
            &&& body@->Object_0.len() == 2
            &&& body@.at("createdUsers"@) == Some(JsonView::Array(emulator::created_users(seen)))
            &&& body@.at("failedUsers"@) == Some(
                JsonView::Array(emulator::failed_users(users, seen)),
            )
        },
{
    assert forall|i: int| !emulator::first_open(users, seen, i) by {
        if 0 <= i < users.len() {
            lemma_done(users[i], seen[i]);
        }
    }
    reveal_strlit("createdUsers");
    reveal_strlit("failedUsers");
    let members = emulator::seeded(users, seen)->Object_0;
    assert("createdUsers"@.len() != "failedUsers"@.len());
    json::lemma_member(members, 0);
    json::lemma_member(members, 1);
}

/// Each further entry adds to the reply what became of it: the user, where it was loaded, unless
/// creating it failed; the login id and the reason, where it did; and nothing otherwise.
pub proof fn law_each_entry_adds_what_became_of_it(
    users: Seq<SeedUserEntry>,
    seen: Seq<SeedSeen>,
    entry: SeedUserEntry,
    one: SeedSeen,
)
    ensures
        emulator::created_users(Seq::<SeedSeen>::empty()) == Seq::<JsonView>::empty(),
        emulator::failed_users(Seq::<SeedUserEntry>::empty(), Seq::<SeedSeen>::empty())
            == Seq::<JsonView>::empty(),
        !not_created(one) && (one.loaded matches Some(Some(_))) ==> emulator::created_users(
            seen.push(one),
        ) == emulator::created_users(seen).push(one.loaded->0->0@),
        not_created(one) || one.loaded is None || one.loaded->0 is None
            ==> emulator::created_users(seen.push(one)) == emulator::created_users(seen),
        not_created(one) ==> emulator::failed_users(users.push(entry), seen.push(one))
            == emulator::failed_users(users, seen).push(
            emulator::failure(entry.login_id->0@, one.created->0->Err_0.text@),
        ),
        !not_created(one) ==> emulator::failed_users(users.push(entry), seen.push(one))
            == emulator::failed_users(users, seen),
{
    assert(seen.push(one).drop_last() =~= seen);
    assert(users.push(entry).drop_last() =~= users);
}

/// Why a user could not be created is told under `loginId` and `error`.
pub proof fn law_failure_names_user_and_reason(login_id: Seq<char>, error: Seq<char>)
    ensures
        emulator::failure(login_id, error) is Object,
        emulator::failure(login_id, error)->Object_0.len() == 2,
        emulator::failure(login_id, error).text_at("loginId"@) == Some(login_id),
        emulator::failure(login_id, error).text_at("error"@) == Some(error),
{
    reveal_strlit("loginId");
    reveal_strlit("error");
    let members = emulator::failure(login_id, error)->Object_0;
    assert("loginId"@.len() != "error"@.len());
    json::lemma_member(members, 0);
    json::lemma_member(members, 1);
}

/// A tenant is created as the body asks: under its `id`, or else as `test-tenant`; with its `name`,
/// or else that of the id; for the domains that the body lists; and with OIDC exactly where that is
/// asked for.
pub proof fn law_tenant_is_as_asked_for(body: JsonView, tenant: Tenant)
    requires
        emulator::tenant_asked_for(body, tenant),
    ensures
        body.text_at("id"@) matches Some(id) ==> tenant.id@ == id,
        body.text_at("id"@) is None ==> tenant.id@ == "test-tenant"@,
        body.text_at("name"@) matches Some(name) ==> tenant.name@ == name,
        body.text_at("name"@) is None ==> tenant.name@ == tenant.id@,
        tenant.auth_type == AuthType::Oidc <==> body.text_at("authType"@) == Some("oidc"@),
        (body.at("domains"@) matches Some(JsonView::Array(_))) ==> tenant.domains@.map_values(
            |domain: String| domain@,
        ) == json::texts_in(body.at("domains"@)->0->Array_0),
        !(body.at("domains"@) matches Some(JsonView::Array(_))) ==> tenant.domains@.len() == 0,
        emulator::tenant_id(body) == tenant.id@,
{
    assert(tenant.domains@.map_values(|domain: String| domain@).len() == tenant.domains@.len());
}

/// The reply to a request to create a tenant names it.
pub proof fn law_tenant_reply_names_it(id: Seq<char>)
    ensures
        emulator::tenant_created(id) is Object,
        emulator::tenant_created(id)->Object_0.len() == 2,
        emulator::tenant_created(id).at("ok"@) == Some(JsonView::Bool(true)),
        emulator::tenant_created(id).text_at("id"@) == Some(id),
{
    reveal_strlit("ok");
    reveal_strlit("id");
    let members = emulator::tenant_created(id)->Object_0;
    assert("ok"@[0] != "id"@[0]);
    json::lemma_member(members, 0);
    json::lemma_member(members, 1);
}

} // verus!
