//! Endpoints of the emulator itself: health, reset, seeding, and what tests look up.
pub mod laws;

use crate::error::EmulatorError;
use crate::json::{self, array, member, object, text, Json, JsonView};
use crate::passwords;
use crate::routes::replies;
use crate::text;
use crate::types::{AuthType, Tenant, User};
use vstd::prelude::*;

verus! {

/// The emulator is up.
pub fn health() -> (r: Json)
    ensures
        r@ == replies::all_well(),
{
    replies::ok_reply()
}

/// What is known so far of a reset.
pub struct ResetSeen {
    /// Whether the stores were emptied.
    pub stores_reset: bool,
    /// Whether the seed file was applied, or the text of the failure.
    pub seeded: Option<Result<(), String>>,
    /// Whether that failure was logged.
    pub warned: bool,
}

/// What a reset does next.
#[derive(Debug)]
pub enum ResetStep<'a> {
    /// Empty the stores.
    ResetStores,
    /// Apply the seed file at this path.
    LoadSeed(&'a str),
    /// Log that applying it failed.
    WarnSeedFailed(&'a str),
    Respond(Json),
}

/// Which step of a reset follows: emptying the stores, applying the seed file, where one is
/// configured, and the reply. A failure to apply the file is logged and changes nothing else.
pub open spec fn reset_is(seed_file: Option<String>, seen: ResetSeen, step: ResetStep) -> bool {
    if !seen.stores_reset {
        step is ResetStores
    } else {
        match (seed_file, seen.seeded) {
            (Some(path), None) => step matches ResetStep::LoadSeed(p) && p@ == path@,
            (Some(_), Some(Err(message))) if !seen.warned => step matches ResetStep::WarnSeedFailed(
                m,
            ) && m@ == message@,
            _ => step matches ResetStep::Respond(body) && body@ == replies::all_well(),
        }
    }
}

/// The next step of a reset.
pub fn reset<'a>(seed_file: &'a Option<String>, seen: &'a ResetSeen) -> (r: ResetStep<'a>)
    ensures
        reset_is(*seed_file, *seen, r),
{
    if !seen.stores_reset {
        return ResetStep::ResetStores;
    }
    if let Some(path) = seed_file {
        match &seen.seeded {
            None => return ResetStep::LoadSeed(path.as_str()),
            Some(Err(message)) => if !seen.warned {
                return ResetStep::WarnSeedFailed(message.as_str());
            },
            Some(Ok(_)) => {},
        }
    }
    ResetStep::Respond(replies::ok_reply())
}

/// What is known so far of a look at a pending code.
pub struct OtpSeen {
    /// The user whose code is looked up.
    pub user: Option<Result<User, EmulatorError>>,
    /// The pending code, where there is one.
    pub code: Option<Option<String>>,
}

/// What a look at a pending code does next.
#[derive(Debug)]
pub enum OtpStep<'a> {
    /// Load the user with this login id.
    LoadUser(&'a str),
    /// Look at the code of the user with this id, and leave it there.
    Peek(&'a str),
    Respond(Result<Json, EmulatorError>),
}

/// The reply that shows a code.
pub open spec fn code_shown(code: Seq<char>) -> JsonView {
    JsonView::Object(seq![("code"@, JsonView::Text(code))])
}

/// Which step of a look at a pending code follows: loading the user, looking, and the reply.
/// Without a pending code the answer is that the token is invalid.
pub open spec fn get_otp_is(login_id: Seq<char>, seen: OtpSeen, step: OtpStep) -> bool {
    match seen.user {
        None => step matches OtpStep::LoadUser(l) && l@ == login_id,
        Some(Err(e)) => step == OtpStep::Respond(Err(e)),
        Some(Ok(user)) => match seen.code {
            None => step matches OtpStep::Peek(user_id) && user_id@ == user.user_id@,
            Some(None) => step == OtpStep::Respond(Err(EmulatorError::InvalidToken)),
            Some(Some(code)) => step matches OtpStep::Respond(Ok(body)) && body@ == code_shown(
                code@,
            ),
        },
    }
}

/// The next step of a look at a pending code, for tests that drive an SDK.
pub fn get_otp<'a>(login_id: &'a str, seen: &'a OtpSeen) -> (r: OtpStep<'a>)
    ensures
        get_otp_is(login_id@, *seen, r),
{
    let user = match &seen.user {
        None => return OtpStep::LoadUser(login_id),
        Some(Err(e)) => return OtpStep::Respond(Err(e.clone())),
        Some(Ok(user)) => user,
    };
    match &seen.code {
        None => OtpStep::Peek(user.user_id.as_str()),
        Some(None) => OtpStep::Respond(Err(EmulatorError::InvalidToken)),
        Some(Some(code)) => {
            let body = object(vec![member("code", text(code.as_str()))]);
            assert(body@->Object_0 =~= code_shown(code@)->Object_0);
            OtpStep::Respond(Ok(body))
        },
    }
}

/// A request to create users.
#[derive(Debug)]
pub struct SeedUsersRequest {
    pub users: Vec<SeedUserEntry>,
}

/// A user to create, as far as seeding looks at it.
#[derive(Debug)]
pub struct SeedUserEntry {
    /// The login id, where the entry has one.
    pub login_id: Option<String>,
    pub password: Option<String>,
}

/// Why a user could not be created.
#[derive(Debug)]
pub struct CreationError {
    pub error: EmulatorError,
    /// The text of the error.
    pub text: String,
}

/// How creating a user went, as seeding sees it.
pub enum Creation {
    Created,
    AlreadyExists,
    Failed(String),
}

/// How creating a user went: that it exists already is no failure.
pub open spec fn creation(created: Option<Result<(), CreationError>>) -> Option<Creation> {
    match created {
        None => None,
        Some(Ok(_)) => Some(Creation::Created),
        Some(Err(CreationError { error: EmulatorError::UserAlreadyExists, .. })) => Some(
            Creation::AlreadyExists,
        ),
        Some(Err(CreationError { text, .. })) => Some(Creation::Failed(text)),
    }
}

/// What is known so far of one user to create.
pub struct SeedSeen {
    /// Whether the user was created, or why not.
    pub created: Option<Result<(), CreationError>>,
    /// Whether the user was enabled, or tried to be.
    pub enabled: bool,
    /// Whether the password was set, or tried to be.
    pub password_set: bool,
    /// The user as replies show it, where it could be loaded.
    pub loaded: Option<Option<Json>>,
}

/// What seeding does next, and for which entry.
#[derive(Debug)]
pub enum SeedStep<'a> {
    /// Create the user of this entry, as a test user or not, with the user id that the entry names
    /// or a new one.
    Create { index: usize, is_test: bool, honor_uid: bool },
    /// Set the user's status.
    SetStatus { index: usize, login_id: &'a str, status: &'static str },
    /// Store this hash for this login id.
    SetPassword { index: usize, login_id: &'a str, hash: String },
    /// Load the user with this login id and render it as replies show it.
    Load { index: usize, login_id: &'a str },
    Respond(Result<Json, EmulatorError>),
}

/// Whether nothing is left to do for an entry.
pub open spec fn settled(entry: SeedUserEntry, seen: SeedSeen) -> bool {
    entry.login_id is Some && match creation(seen.created) {
        None => false,
        Some(Creation::Failed(_)) => true,
        Some(Creation::AlreadyExists) => seen.loaded is Some,
        Some(Creation::Created) => seen.enabled && (entry.password is None || seen.password_set)
            && seen.loaded is Some,
    }
}

/// Which step follows for an entry that is not settled: without a login id the request fails;
/// otherwise the user is created, which is no test user and keeps its own user id, and a new one is enabled, gets its password and is loaded. One
/// that was there before is loaded only. A hash that cannot be made fails the request.
pub open spec fn entry_step(
    i: int,
    entry: SeedUserEntry,
    seen: SeedSeen,
    step: SeedStep,
) -> bool {
    match entry.login_id {
        None => step matches SeedStep::Respond(Err(EmulatorError::Internal(t))) && t@
            == "loginId is required"@,
        Some(wanted) => match creation(seen.created) {
            None => step matches SeedStep::Create { index, is_test, honor_uid } && index == i
                && !is_test && honor_uid,
            Some(Creation::Created) if !seen.enabled => {
                &&& step matches SeedStep::SetStatus { index, login_id, status }
                &&& index == i
                &&& login_id@ == wanted@
                &&& status@ == "enabled"@
            },
            Some(Creation::Created) if entry.password is Some && !seen.password_set => match step {
                SeedStep::SetPassword { index, login_id, hash } => {
                    &&& index == i
                    &&& login_id@ == wanted@
                    &&& passwords::stands_for(hash@, entry.password->0@, passwords::SEED_COST)
                },
                SeedStep::Respond(Err(e)) => passwords::names_bcrypt(e),
                _ => false,
            },
            _ => {
                &&& step matches SeedStep::Load { index, login_id }
                &&& index == i
                &&& login_id@ == wanted@
            },
        },
    }
}

/// Which step follows: that of the first entry which is not settled, or else the reply.
pub open spec fn seed_users_is(
    users: Seq<SeedUserEntry>,
    seen: Seq<SeedSeen>,
    step: SeedStep,
) -> bool {
    if exists|i: int| first_open(users, seen, i) {
        let i = choose|i: int| first_open(users, seen, i);
        entry_step(i, users[i], seen[i], step)
    } else {
        step matches SeedStep::Respond(Ok(body)) && body@ == seeded(users, seen)
    }
}

/// Whether entry `i` is not settled and all before it are.
pub open spec fn first_open(users: Seq<SeedUserEntry>, seen: Seq<SeedSeen>, i: int) -> bool {
    &&& 0 <= i < users.len()
    &&& !settled(users[i], seen[i])
    &&& forall|j: int| 0 <= j < i ==> settled(#[trigger] users[j], seen[j])
}

/// The users that could be loaded, as replies show them, in the order of the request.
pub open spec fn created_users(seen: Seq<SeedSeen>) -> Seq<JsonView>
    decreases seen.len(),
{
    if seen.len() == 0 {
        Seq::empty()
    } else {
        match (creation(seen.last().created), seen.last().loaded) {
            (Some(Creation::Failed(_)), _) => created_users(seen.drop_last()),
            (_, Some(Some(user))) => created_users(seen.drop_last()).push(user@),
            _ => created_users(seen.drop_last()),
        }
    }
}

/// The login ids of the users that could not be created, with the reasons, in the order of the
/// request.
pub open spec fn failed_users(users: Seq<SeedUserEntry>, seen: Seq<SeedSeen>) -> Seq<JsonView>
    decreases seen.len(),
{
    if seen.len() == 0 {
        Seq::empty()
    } else {
        match creation(seen.last().created) {
            Some(Creation::Failed(error)) => failed_users(users.drop_last(), seen.drop_last()).push(
                failure(users.last().login_id->0@, error@),
            ),
            _ => failed_users(users.drop_last(), seen.drop_last()),
        }
    }
}

/// Why a user could not be created.
pub open spec fn failure(login_id: Seq<char>, error: Seq<char>) -> JsonView {
    JsonView::Object(
        seq![("loginId"@, JsonView::Text(login_id)), ("error"@, JsonView::Text(error))],
    )
}

/// The reply to a request to create users.
pub open spec fn seeded(users: Seq<SeedUserEntry>, seen: Seq<SeedSeen>) -> JsonView {
    JsonView::Object(
        seq![
            ("createdUsers"@, JsonView::Array(created_users(seen))),
            ("failedUsers"@, JsonView::Array(failed_users(users, seen))),
        ],
    )
}

/// The step that stores a seeded password, once it was hashed or not.
pub fn password_step<'a>(index: usize, login_id: &'a str, hashed: Result<String, EmulatorError>) -> (
    r: SeedStep<'a>)
    ensures
        match hashed {
            Ok(hash) => r matches SeedStep::SetPassword { index: i, login_id: l, hash: h } && i
                == index && l@ == login_id@ && h == hash,
            Err(e) => r == SeedStep::Respond(Err(e)),
        },
{
    match hashed {
        Ok(hash) => SeedStep::SetPassword { index, login_id, hash },
        Err(e) => SeedStep::Respond(Err(e)),
    }
}

/// The next step for one entry, where it is not settled.
fn step_for<'a>(index: usize, entry: &'a SeedUserEntry, seen: &SeedSeen) -> (r: Option<SeedStep<
    'a,
>>)
    ensures
        match r {
            Some(step) => !settled(*entry, *seen) && entry_step(index as int, *entry, *seen, step),
            None => settled(*entry, *seen),
        },
{
    let login_id = match &entry.login_id {
        None => return Some(
            SeedStep::Respond(Err(EmulatorError::Internal("loginId is required".to_owned()))),
        ),
        Some(login_id) => login_id.as_str(),
    };
    match &seen.created {
        None => return Some(SeedStep::Create { index, is_test: false, honor_uid: true }),
        Some(Err(CreationError { error: EmulatorError::UserAlreadyExists, .. })) => {},
        Some(Err(_)) => return None,
        Some(Ok(_)) => {
            if !seen.enabled {
                return Some(SeedStep::SetStatus { index, login_id, status: "enabled" });
            }
            if let Some(plain) = &entry.password {
                if !seen.password_set {
                    let hashed = passwords::hash_seed_password(plain.as_str());
                    return Some(password_step(index, login_id, hashed));
                }
            }
        },
    }
    match &seen.loaded {
        None => Some(SeedStep::Load { index, login_id }),
        Some(_) => None,
    }
}

/// The next step of seeding. For each entry of the request, `seen` says what was done for it.
pub fn seed_users<'a>(req: &'a SeedUsersRequest, seen: &Vec<SeedSeen>) -> (r: SeedStep<'a>)
    requires
        seen@.len() == req.users@.len(),
    ensures
        seed_users_is(req.users@, seen@, r),
{
    let mut created: Vec<Json> = Vec::new();
    let mut failed: Vec<Json> = Vec::new();
    let mut i: usize = 0;
    assert(json::item_views(created@) =~= created_users(seen@.take(0)));
    assert(json::item_views(failed@) =~= failed_users(req.users@.take(0), seen@.take(0)));
    while i < req.users.len()
        invariant
            i <= req.users@.len(),
            seen@.len() == req.users@.len(),
            forall|j: int| 0 <= j < i ==> settled(#[trigger] req.users@[j], seen@[j]),
            json::item_views(created@) == created_users(seen@.take(i as int)),
            json::item_views(failed@) == failed_users(
                req.users@.take(i as int),
                seen@.take(i as int),
            ),
        decreases req.users@.len() - i,
    {
        if let Some(step) = step_for(i, &req.users[i], &seen[i]) {
            proof {
                assert(first_open(req.users@, seen@, i as int));
                let k = choose|k: int| first_open(req.users@, seen@, k);
                assert(k == i);
            }
            return step;
        }
        proof {
            assert(seen@.take(i + 1).drop_last() =~= seen@.take(i as int));
            assert(req.users@.take(i + 1).drop_last() =~= req.users@.take(i as int));
        }
        let ghost created_before = created@;
        let ghost failed_before = failed@;
        match (&seen[i].created, &seen[i].loaded, &req.users[i].login_id) {
            (
                Some(Err(CreationError { error: EmulatorError::UserAlreadyExists, .. })),
                Some(Some(user)),
                _,
            ) => {
                let user = user.clone();
                created.push(user);
                assert(json::item_views(created@) =~= json::item_views(created_before).push(user@));
            },
            (
                Some(Err(CreationError { error: EmulatorError::UserAlreadyExists, .. })),
                _,
                _,
            ) => {},
            (Some(Err(CreationError { text: error, .. })), _, Some(login_id)) => {
                let why = object(
                    vec![
                        member("loginId", text(login_id.as_str())),
                        member("error", text(error.as_str())),
                    ],
                );
                assert(why@->Object_0 =~= failure(login_id@, error@)->Object_0);
                failed.push(why);
                assert(json::item_views(failed@) =~= json::item_views(failed_before).push(why@));
            },
            (_, Some(Some(user)), _) => {
                let user = user.clone();
                created.push(user);
                assert(json::item_views(created@) =~= json::item_views(created_before).push(user@));
            },
            _ => {},
        }
        i += 1;
    }
    assert(seen@.take(i as int) =~= seen@);
    assert(req.users@.take(i as int) =~= req.users@);
    let body = object(
        vec![member("createdUsers", array(created)), member("failedUsers", array(failed))],
    );
    assert(body@->Object_0 =~= seeded(req.users@, seen@)->Object_0);
    SeedStep::Respond(Ok(body))
}

/// The id of the tenant that a body asks for.
pub open spec fn tenant_id(body: JsonView) -> Seq<char> {
    match body.text_at("id"@) {
        Some(id) => id,
        None => "test-tenant"@,
    }
}

/// The domains of the tenant that a body asks for: the strings in its list.
pub open spec fn tenant_domains(body: JsonView) -> Seq<Seq<char>> {
    match body.at("domains"@) {
        Some(JsonView::Array(items)) => json::texts_in(items),
        _ => Seq::empty(),
    }
}

/// Whether `tenant` is the one that a body asks for. Its name is the id where none is given, and
/// its users sign in by SAML unless OIDC is asked for.
pub open spec fn tenant_asked_for(body: JsonView, tenant: Tenant) -> bool {
    &&& tenant.id@ == tenant_id(body)
    &&& tenant.name@ == match body.text_at("name"@) {
        Some(name) => name,
        None => tenant_id(body),
    }
    &&& tenant.domains@.map_values(|domain: String| domain@) == tenant_domains(body)
    &&& tenant.auth_type == if body.text_at("authType"@) == Some("oidc"@) {
        AuthType::Oidc
    } else {
        AuthType::Saml
    }
}

/// The reply to a request to create a tenant.
pub open spec fn tenant_created(id: Seq<char>) -> JsonView {
    JsonView::Object(seq![("ok"@, JsonView::Bool(true)), ("id"@, JsonView::Text(id))])
}

/// The strings in a list.
fn strings_in(items: &Vec<Json>) -> (r: Vec<String>)
    ensures
        r@.map_values(|t: String| t@) == json::texts_in(json::item_views(items@)),
{
    let ghost views = json::item_views(items@);
    let mut r: Vec<String> = Vec::new();
    let mut i: usize = 0;
    assert(r@.map_values(|t: String| t@) =~= json::texts_in(views.take(0)));
    while i < items.len()
        invariant
            i <= items@.len(),
            views == json::item_views(items@),
            r@.map_values(|t: String| t@) == json::texts_in(views.take(i as int)),
        decreases items@.len() - i,
    {
        let ghost before = r@;
        assert(views.take(i + 1).drop_last() =~= views.take(i as int));
        assert(views.take(i + 1).last() == items@[i as int]@);
        if let Some(t) = items[i].as_str() {
            let t = t.to_owned();
            r.push(t);
            assert(r@.map_values(|t: String| t@) =~= before.map_values(|t: String| t@).push(t@));
        }
        i += 1;
    }
    assert(views.take(i as int) =~= views);
    r
}

/// The tenant that a parsed body asks for, and the reply.
pub fn create_tenant_parsed(body: &Json) -> (r: (Tenant, Json))
    ensures
        tenant_asked_for(body@, r.0),
        r.1@ == tenant_created(tenant_id(body@)),
{
    let id = match body.text_at("id") {
        Some(id) => id,
        None => "test-tenant".to_owned(),
    };
    let name = match body.text_at("name") {
        Some(name) => name,
        None => id.clone(),
    };
    let domains = match body.get("domains") {
        Some(Json::Array(items)) => {
            assert(body@.at("domains"@)->0->Array_0 =~= json::item_views(items@));
            strings_in(items)
        },
        _ => Vec::new(),
    };
    assert(domains@.map_values(|domain: String| domain@) =~= tenant_domains(body@));
    let auth_type = match body.text_at("authType") {
        Some(t) => if text::same(t.as_str(), "oidc") {
            AuthType::Oidc
        } else {
            AuthType::Saml
        },
        None => AuthType::Saml,
    };
    let reply = object(vec![member("ok", Json::Bool(true)), member("id", text(id.as_str()))]);
    assert(reply@->Object_0 =~= tenant_created(id@)->Object_0);
    (Tenant { id, name, domains, auth_type }, reply)
}

/// The tenant to store and the reply, for a body that was read as JSON.
pub fn create_tenant(body: serde_json::Value) -> (r: (Tenant, Json))
    ensures
        tenant_asked_for(json::value_view(body), r.0),
        r.1@ == tenant_created(tenant_id(json::value_view(body))),
{
    let body = json::from_value(body);
    create_tenant_parsed(&body)
}

/// Seeding leaves a user that was there before as it is: neither its status nor its password is
/// set, it is only loaded for the reply.
pub proof fn law_existing_users_are_left_alone(
    users: Seq<SeedUserEntry>,
    seen: Seq<SeedSeen>,
    i: int,
    step: SeedStep,
)
    requires
        seed_users_is(users, seen, step),
        first_open(users, seen, i),
        users[i].login_id is Some,
        creation(seen[i].created) matches Some(Creation::AlreadyExists),
    ensures
        step matches SeedStep::Load { index, .. } && index == i,
{
    let k = choose|k: int| first_open(users, seen, k);
    assert(k == i) by {
        if k < i {
            assert(settled(users[k], seen[k]));
        } else if i < k {
            assert(settled(users[i], seen[i]));
        }
    }
}

/// The reply to a seed request tells of each entry at most once, as created or as failed, and of
/// every entry whose user could be loaded or could not be created.
pub proof fn law_each_entry_is_told_once(users: Seq<SeedUserEntry>, seen: Seq<SeedSeen>)
    requires
        users.len() == seen.len(),
    ensures
        created_users(seen).len() + failed_users(users, seen).len() <= users.len(),
        (forall|i: int|
            0 <= i < seen.len() ==> (#[trigger] seen[i]).loaded matches Some(Some(_))
                || creation(seen[i].created) matches Some(Creation::Failed(_))) ==> created_users(seen).len()
            + failed_users(users, seen).len() == users.len(),
    decreases seen.len(),
{
    if seen.len() > 0 {
        law_each_entry_is_told_once(users.drop_last(), seen.drop_last());
        if forall|i: int|
            0 <= i < seen.len() ==> (#[trigger] seen[i]).loaded matches Some(Some(_))
                || creation(seen[i].created) matches Some(Creation::Failed(_)) {
            assert forall|i: int| 0 <= i < seen.drop_last().len() implies (
            #[trigger] seen.drop_last()[i]).loaded matches Some(Some(_))
                || creation(seen.drop_last()[i].created) matches Some(Creation::Failed(_)) by {
                assert(seen.drop_last()[i] == seen[i]);
            }
            assert(seen.last() == seen[seen.len() - 1]);
        }
    }
}

/// A reset goes well whatever becomes of the seed file: it is answered once the stores were
/// emptied and the file, where there is one, was tried.
pub proof fn law_reset_never_fails(seed_file: Option<String>, seen: ResetSeen, step: ResetStep)
    requires
        reset_is(seed_file, seen, step),
    ensures
        (step is Respond) <==> {
            &&& seen.stores_reset
            &&& seed_file is None || seen.seeded matches Some(Ok(_)) || (seen.seeded is Some
                && seen.warned)
        },
        step matches ResetStep::Respond(body) ==> body@ == replies::all_well(),
{
}

} // verus!
