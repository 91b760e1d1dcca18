use rescope::error::EmulatorError;
use rescope::json::{array, member, object, text, Json};
use rescope::routes::mgmt::project::{export_snapshot, ExportSeen, ExportStep, Section};

fn export(
    auth: Result<(), EmulatorError>,
    render: impl Fn(Section) -> Result<Json, String>,
) -> (Vec<Section>, Result<Json, EmulatorError>) {
    let mut seen = ExportSeen { auth: None, rendered: vec![] };
    let mut asked = vec![];
    loop {
        match export_snapshot(&seen) {
            ExportStep::CheckAuth => seen.auth = Some(auth.clone()),
            ExportStep::Render(section) => {
                asked.push(section);
                seen.rendered.push(render(section));
            }
            ExportStep::Respond(result) => return (asked, result),
        }
    }
}

#[test]
fn export_snapshot_returns_files_map() {
    let (_, res) = export(Ok(()), |_| Ok(array(vec![])));
    let res = res.unwrap();
    let files = res.get("files").unwrap();
    assert!(files.get("roles.json").is_some());
    assert!(files.get("permissions.json").is_some());
    assert!(files.get("authMethodConfig.json").is_some());
    assert!(files.get("users.json").is_none());
    match files {
        Json::Object(members) => assert_eq!(members.len(), 6),
        other => panic!("{other:?}"),
    }
}

#[test]
fn export_snapshot_reflects_created_role() {
    let (asked, res) = export(Ok(()), |section| {
        Ok(match section {
            Section::Roles => array(vec![object(vec![
                member("description", text("Read-only")),
                member("name", text("Auditor")),
            ])]),
            other => text(other.file_name()),
        })
    });
    let res = res.unwrap();
    match res.get("files").unwrap().get("roles.json").unwrap() {
        Json::Array(roles) => assert!(roles.iter().any(|r| r.text_at("name").as_deref() == Some("Auditor"))),
        other => panic!("{other:?}"),
    }
    assert_eq!(
        asked,
        vec![
            Section::Roles,
            Section::Permissions,
            Section::Connectors,
            Section::JwtTemplates,
            Section::CustomAttributes,
            Section::AuthMethodConfig,
        ]
    );
    for file in
        ["permissions.json", "connectors.json", "jwtTemplates.json", "customAttributes.json", "authMethodConfig.json"]
    {
        assert_eq!(res.get("files").unwrap().text_at(file).as_deref(), Some(file));
    }
}

#[test]
fn export_failures_are_the_answer() {
    let (asked, res) = export(Err(EmulatorError::Unauthorized), |_| Ok(Json::Null));
    assert_eq!(res, Err(EmulatorError::Unauthorized));
    assert!(asked.is_empty());
    let (asked, res) = export(Ok(()), |section| match section {
        Section::Connectors => Err("key must be a string".to_string()),
        _ => Ok(Json::Null),
    });
    assert_eq!(
        res,
        Err(EmulatorError::Internal("snapshot serialize failed: key must be a string".to_string()))
    );
    assert_eq!(asked.len(), 3);
}
