//! Project snapshot export.
//!
//! `POST /v1/mgmt/project/snapshot/export` returns the project configuration
//! snapshot in the `{ "files": { ... } }` shape. Users and tenants are not part
//! of a project snapshot.
use crate::error::EmulatorError;
use crate::json::{member, object, Json, JsonView, Member};
use vstd::prelude::*;

verus! {

/// The parts of a snapshot.
#[derive(Debug, Clone, Copy, PartialEq, Eq, Structural)]
pub enum Section {
    Roles,
    Permissions,
    Connectors,
    JwtTemplates,
    CustomAttributes,
    AuthMethodConfig,
}

/// The parts of a snapshot in the order in which they are rendered.
pub open spec fn sections() -> Seq<Section> {
    seq![
        Section::Roles,
        Section::Permissions,
        Section::Connectors,
        Section::JwtTemplates,
        Section::CustomAttributes,
        Section::AuthMethodConfig,
    ]
}

impl Section {
    /// The name of the file that holds this part.
    pub open spec fn file(self) -> Seq<char> {
        match self {
            Section::Roles => "roles.json"@,
            Section::Permissions => "permissions.json"@,
            Section::Connectors => "connectors.json"@,
            Section::JwtTemplates => "jwtTemplates.json"@,
            Section::CustomAttributes => "customAttributes.json"@,
            Section::AuthMethodConfig => "authMethodConfig.json"@,
        }
    }

    /// The name of the file that holds this part.
    pub fn file_name(&self) -> (r: &'static str)
        ensures
            r@ == self.file(),
    {
        match self {
            Section::Roles => "roles.json",
            Section::Permissions => "permissions.json",
            Section::Connectors => "connectors.json",
            Section::JwtTemplates => "jwtTemplates.json",
            Section::CustomAttributes => "customAttributes.json",
            Section::AuthMethodConfig => "authMethodConfig.json",
        }
    }
}

/// What is known so far of an export.
pub struct ExportSeen {
    /// Whether the caller may manage the project.
    pub auth: Option<Result<(), EmulatorError>>,
    /// The rendered parts, or the text of the failure to render one, in order.
    pub rendered: Vec<Result<Json, String>>,
}

/// What an export does next.
#[derive(Debug)]
pub enum ExportStep {
    /// Check that the caller may manage the project.
    CheckAuth,
    /// Render this part.
    Render(Section),
    Respond(Result<Json, EmulatorError>),
}

/// The first `n` parts were rendered without a failure.
pub open spec fn renders(rendered: Seq<Result<Json, String>>, n: int) -> bool {
    forall|i: int| 0 <= i < n ==> #[trigger] rendered[i] is Ok
}

/// The files of a snapshot.
pub open spec fn files(rendered: Seq<Result<Json, String>>) -> Seq<(Seq<char>, JsonView)> {
    Seq::new(sections().len(), |i: int| (sections()[i].file(), rendered[i]->Ok_0@))
}

/// The reply to a request for a snapshot.
pub open spec fn snapshot(rendered: Seq<Result<Json, String>>) -> JsonView {
    JsonView::Object(seq![("files"@, JsonView::Object(files(rendered)))])
}

/// Which step of an export follows: the check of the caller, each part in turn, and the reply
/// with one file for each part. The first failure is the answer.
pub open spec fn export_is(seen: ExportSeen, step: ExportStep) -> bool {
    match seen.auth {
        None => step is CheckAuth,
        Some(Err(e)) => step == ExportStep::Respond(Err(e)),
        Some(Ok(_)) => match step {
            ExportStep::CheckAuth => false,
            ExportStep::Render(section) => {
                &&& seen.rendered@.len() < sections().len()
                &&& renders(seen.rendered@, seen.rendered@.len() as int)
                &&& section == sections()[seen.rendered@.len() as int]
            },
            ExportStep::Respond(Ok(body)) => {
                &&& seen.rendered@.len() >= sections().len()
                &&& renders(seen.rendered@, sections().len() as int)
                &&& body@ == snapshot(seen.rendered@)
            },
            ExportStep::Respond(Err(e)) => exists|i: int|
                {
                    &&& 0 <= i < seen.rendered@.len()
                    &&& i < sections().len()
                    &&& renders(seen.rendered@, i)
                    &&& #[trigger] seen.rendered@[i] matches Err(message)
                    &&& e matches EmulatorError::Internal(t)
                    &&& t@ == "snapshot serialize failed: "@ + message@
                },
        },
    }
}

/// The part at this position.
fn section_at(i: usize) -> (r: Section)
    requires
        i < sections().len(),
    ensures
        r == sections()[i as int],
{
    if i == 0 {
        Section::Roles
    } else if i == 1 {
        Section::Permissions
    } else if i == 2 {
        Section::Connectors
    } else if i == 3 {
        Section::JwtTemplates
    } else if i == 4 {
        Section::CustomAttributes
    } else {
        Section::AuthMethodConfig
    }
}

/// The next step of an export.
pub fn export_snapshot(seen: &ExportSeen) -> (r: ExportStep)
    ensures
        export_is(*seen, r),
{
    match &seen.auth {
        None => return ExportStep::CheckAuth,
        Some(Err(e)) => return ExportStep::Respond(Err(e.clone())),
        Some(Ok(_)) => {},
    }
    let mut members: Vec<Member> = Vec::new();
    let mut i: usize = 0;
    while i < 6
        invariant
            i <= 6,
            i <= seen.rendered@.len(),
            seen.auth matches Some(Ok(_)),
            renders(seen.rendered@, i as int),
            members@.len() == i,
            forall|j: int|
                0 <= j < i ==> (#[trigger] members@[j])@ == (
                    sections()[j].file(),
                    seen.rendered@[j]->Ok_0@,
                ),
        decreases 6 - i,
    {
        if i == seen.rendered.len() {
            return ExportStep::Render(section_at(i));
        }
        match &seen.rendered[i] {
            Ok(part) => {
                members.push(member(section_at(i).file_name(), part.clone()));
            },
            Err(message) => {
                let mut t: String = "snapshot serialize failed: ".to_owned();
                t.append(message.as_str());
                return ExportStep::Respond(Err(EmulatorError::Internal(t)));
            },
        }
        i += 1;
    }
    let exported = object(members);
    assert(exported@->Object_0 =~= files(seen.rendered@));
    let body = object(vec![member("files", exported)]);
    assert(body@->Object_0 =~= snapshot(seen.rendered@)->Object_0);
    ExportStep::Respond(Ok(body))
}

/// A snapshot holds one file for each part of the configuration and nothing else: no users and no
/// tenants.
pub proof fn law_snapshot_is_configuration_only(
    rendered: Seq<Result<Json, String>>,
    key: Seq<char>,
)
    ensures
        crate::json::value_at(files(rendered), key) is Some <==> exists|section: Section|
            #[trigger] section.file() == key,
        forall|i: int|
            0 <= i < sections().len() ==> (#[trigger] files(rendered)[i]).0 == sections()[i].file(),
{
    let members = files(rendered);
    reveal_with_fuel(crate::json::value_at, 7);
    let rest = members.drop_first().drop_first().drop_first();
    assert(members.drop_first()[0] == members[1]);
    assert(members.drop_first().drop_first()[0] == members[2]);
    assert(rest[0] == members[3]);
    assert(rest.drop_first()[0] == members[4]);
    assert(rest.drop_first().drop_first()[0] == members[5]);
    if exists|section: Section| #[trigger] section.file() == key {
        let section = choose|section: Section| #[trigger] section.file() == key;
        assert(exists|i: int| 0 <= i < 6 && sections()[i] == section) by {
            match section {
                Section::Roles => assert(sections()[0] == section),
                Section::Permissions => assert(sections()[1] == section),
                Section::Connectors => assert(sections()[2] == section),
                Section::JwtTemplates => assert(sections()[3] == section),
                Section::CustomAttributes => assert(sections()[4] == section),
                Section::AuthMethodConfig => assert(sections()[5] == section),
            }
        }
        let i = choose|i: int| 0 <= i < 6 && sections()[i] == section;
        assert(members[i].0 == key);
    }
    if crate::json::value_at(members, key) is Some {
        assert(exists|i: int| 0 <= i < 6 && #[trigger] members[i].0 == key);
        let i = choose|i: int| 0 <= i < 6 && #[trigger] members[i].0 == key;
        assert(sections()[i].file() == key);
    }
}

/// An export checks the caller, then renders the roles, the permissions, the connectors, the JWT
/// templates, the custom attributes and the configuration of the sign-in methods, in this order.
/// The first failure is the answer, and with none of them the reply has one file for each.
pub proof fn law_export_step_by_step(
    seen: ExportSeen,
    step: ExportStep,
    e: EmulatorError,
    first: int,
)
    requires
        export_is(seen, step),
        0 <= first <= 6,
        first <= seen.rendered@.len(),
        forall|i: int| 0 <= i < first ==> #[trigger] seen.rendered@[i] is Ok,
        first < 6 && first < seen.rendered@.len() ==> seen.rendered@[first] is Err,
    ensures
        seen.auth is None <==> step is CheckAuth,
        seen.auth == Some(Err::<(), EmulatorError>(e)) ==> step == ExportStep::Respond(Err(e)),
        (seen.auth matches Some(Ok(_))) && first < 6 && first == seen.rendered@.len() <==> (
        step is Render),
        step matches ExportStep::Render(section) ==> {
            &&& first == 0 ==> section == Section::Roles
            &&& first == 1 ==> section == Section::Permissions
            &&& first == 2 ==> section == Section::Connectors
            &&& first == 3 ==> section == Section::JwtTemplates
            &&& first == 4 ==> section == Section::CustomAttributes
            &&& first == 5 ==> section == Section::AuthMethodConfig
        },
        (seen.auth matches Some(Ok(_))) && first < 6 && first < seen.rendered@.len() ==> (
        step matches ExportStep::Respond(Err(EmulatorError::Internal(t))) && t@
            == "snapshot serialize failed: "@ + seen.rendered@[first]->Err_0@),
        (seen.auth matches Some(Ok(_))) && first == 6 ==> (step matches ExportStep::Respond(
            Ok(body),
        ) && body@ is Object && body@->Object_0.len() == 1 && {
            &&& body@.at("files"@) matches Some(files)
            &&& files is Object
            &&& files->Object_0.len() == 6
            &&& files.at("roles.json"@) == Some(seen.rendered@[0]->Ok_0@)
            &&& files.at("permissions.json"@) == Some(seen.rendered@[1]->Ok_0@)
            &&& files.at("connectors.json"@) == Some(seen.rendered@[2]->Ok_0@)
            &&& files.at("jwtTemplates.json"@) == Some(seen.rendered@[3]->Ok_0@)
            &&& files.at("customAttributes.json"@) == Some(seen.rendered@[4]->Ok_0@)
            &&& files.at("authMethodConfig.json"@) == Some(seen.rendered@[5]->Ok_0@)
        }),
{
    let rendered = seen.rendered@;
    if let ExportStep::Respond(Err(_)) = step {
        if seen.auth matches Some(Ok(_)) {
            let i = choose|i: int|
                {
                    &&& 0 <= i < rendered.len()
                    &&& i < sections().len()
                    &&& renders(rendered, i)
                    &&& #[trigger] rendered[i] is Err
                };
            assert(!(i < first)) by {
                if i < first {
                    assert(rendered[i] is Ok);
                }
            }
            if i > first {
                assert(rendered[first] is Ok);
            }
        }
    }
    if let ExportStep::Respond(Ok(body)) = step {
        if first < 6 && first < rendered.len() {
            assert(rendered[first] is Ok);
        }
        lemma_files(rendered);
        crate::json::lemma_member(body@->Object_0, 0);
    }
    if let ExportStep::Render(_) = step {
        if first < rendered.len() {
            assert(rendered[first] is Ok || first == 6);
        }
    }
}

/// Each part of a snapshot is in the file that is named for it.
proof fn lemma_files(rendered: Seq<Result<Json, String>>)
    ensures
        ({
            let members = files(rendered);
            &&& members.len() == 6
            &&& crate::json::value_at(members, "roles.json"@) == Some(rendered[0]->Ok_0@)
            &&& crate::json::value_at(members, "permissions.json"@) == Some(rendered[1]->Ok_0@)
            &&& crate::json::value_at(members, "connectors.json"@) == Some(rendered[2]->Ok_0@)
            &&& crate::json::value_at(members, "jwtTemplates.json"@) == Some(rendered[3]->Ok_0@)
            &&& crate::json::value_at(members, "customAttributes.json"@) == Some(
                rendered[4]->Ok_0@,
            )
            &&& crate::json::value_at(members, "authMethodConfig.json"@) == Some(
                rendered[5]->Ok_0@,
            )
        }),
{
    reveal_strlit("roles.json");
    reveal_strlit("permissions.json");
    reveal_strlit("connectors.json");
    reveal_strlit("jwtTemplates.json");
    reveal_strlit("customAttributes.json");
    reveal_strlit("authMethodConfig.json");
    let members = files(rendered);
    assert("customAttributes.json"@[0] != "authMethodConfig.json"@[0]);
    assert(members[0].0 == "roles.json"@ && members[1].0 == "permissions.json"@);
    assert(members[2].0 == "connectors.json"@ && members[3].0 == "jwtTemplates.json"@);
    assert(members[4].0 == "customAttributes.json"@ && members[5].0 == "authMethodConfig.json"@);
    assert(members[4].0 != members[5].0);
    assert forall|i: int, j: int| 0 <= j < i < 6 implies #[trigger] members[j].0
        != #[trigger] members[i].0 by {
        if members[j].0 == members[i].0 {
            assert(members[j].0.len() == members[i].0.len());
        }
    }
    assert forall|i: int| 0 <= i < 6 implies #[trigger] crate::json::value_at(
        members,
        members[i].0,
    ) == Some(members[i].1) by {
        crate::json::lemma_member(members, i);
    }
}

} // verus!
