use keystate_core::verify::engine::rows_by_entity;
use keystate_core::verify::path::carries_path;
use keystate_core::{
    resolve_path, CanonicalRealm, Client, EntityExpectation, EntityKind, EntityPresence, Error,
    FieldExpectation, FieldManifest, IssueKind, JsonValue, ManifestVerifier, Realm, Severity, User,
    VerificationIssue, VerificationReport, Version,
};

fn num(t: &str) -> JsonValue {
    JsonValue::Number(t.to_string())
}

fn text(t: &str) -> JsonValue {
    JsonValue::String(t.to_string())
}

fn obj(members: Vec<(&str, JsonValue)>) -> JsonValue {
    JsonValue::Object(members.into_iter().map(|(k, v)| (k.to_string(), v)).collect())
}

fn realm_master() -> CanonicalRealm {
    let mut realm = CanonicalRealm::default();
    realm.realm = Realm {
        name: "master".into(),
        enabled: true,
        native: obj(vec![("registrationAllowed", JsonValue::Bool(false))]),
    };
    realm
}

fn engine_manifest(backend: &str) -> FieldManifest {
    let mut manifest = FieldManifest::new(backend, Version::new(26, 0, 0));
    manifest.entities.push(EntityExpectation::new(EntityKind::Client, EntityPresence::Optional));
    manifest
}

fn run(realm: &CanonicalRealm, manifest: &FieldManifest) -> VerificationReport {
    ManifestVerifier.verify(realm, manifest).unwrap()
}

fn field(entity: EntityKind, path: &str, required: bool, volatile: bool, v: Version) -> FieldExpectation {
    FieldExpectation { entity, path: path.into(), required, volatile, introduced_in: v }
}

fn web_client(native: JsonValue) -> Client {
    Client { id: "c1".into(), client_id: "web".into(), enabled: true, native }
}

#[test]
fn empty_realm_without_expectations_is_complete() {
    let report = run(&realm_master(), &engine_manifest("stub"));
    assert!(report.is_complete(), "{:?}", report.issues);
    assert_eq!(report.counts(), (0, 0));
}

#[test]
fn zero_user_rows_with_a_required_entity_is_not_incomplete() {
    let realm = realm_master();
    let mut manifest = engine_manifest("stub");
    manifest.entities.push(EntityExpectation::new(EntityKind::User, EntityPresence::Optional));
    manifest.fields.push(field(EntityKind::User, "native.email", true, false, Version::new(20, 0, 0)));
    let report = run(&realm, &manifest);
    assert!(report.is_complete(), "{:?}", report.issues);
}

#[test]
fn required_entity_without_rows_is_an_error() {
    let realm = realm_master();
    let mut manifest = engine_manifest("stub");
    manifest.entities.push(EntityExpectation::new(EntityKind::IdentityProvider, EntityPresence::Required));
    let report = run(&realm, &manifest);
    assert!(!report.is_complete());
    assert!(report.issues.iter().any(|i| i.kind == IssueKind::MissingEntity));
    assert_eq!(report.issues[0].message, "entity identity provider is required but no rows were extracted");
}

#[test]
fn missing_required_field_on_an_existing_row_is_an_error() {
    let mut realm = realm_master();
    realm.clients.push(web_client(obj(vec![("protocol", text("openid-connect"))])));
    let mut manifest = engine_manifest("stub");
    manifest.fields.push(field(EntityKind::Client, "native.secret", true, false, Version::new(1, 0, 0)));
    let report = run(&realm, &manifest);
    assert!(!report.is_complete());
    let issue = report
        .issues
        .iter()
        .find(|i| i.kind == IssueKind::MissingRequired)
        .expect("a missing-required issue");
    assert_eq!(issue.row_id.as_deref(), Some("c1"));
    assert_eq!(issue.introduced_in, Some(Version::new(1, 0, 0)));
    assert_eq!(
        issue.message,
        "required field 'native.secret' (introduced in 1.0.0) missing from client 'c1'"
    );
}

#[test]
fn missing_optional_field_on_every_row_is_an_error() {
    let mut realm = realm_master();
    realm.clients.push(web_client(obj(vec![("protocol", text("openid-connect"))])));
    let mut manifest = engine_manifest("stub");
    manifest.fields.push(field(EntityKind::Client, "native.alternativeNames[]", false, false, Version::new(26, 0, 0)));
    let report = run(&realm, &manifest);
    assert!(!report.is_complete());
    assert!(report.issues.iter().any(|i| i.kind == IssueKind::MissingOptional));
    assert_eq!(
        report.issues[0].message,
        "field 'native.alternativeNames[]' (introduced in 26.0.0) absent from every client row"
    );
}

#[test]
fn optional_field_present_on_any_row_passes() {
    let mut realm = realm_master();
    realm.clients.push(web_client(obj(vec![(
        "alternativeNames",
        JsonValue::Array(vec![text("alpha"), text("beta")]),
    )])));
    realm.clients.push(Client {
        id: "c2".into(),
        client_id: "api".into(),
        enabled: true,
        native: obj(vec![("protocol", text("openid-connect"))]),
    });
    let mut manifest = engine_manifest("stub");
    manifest.fields.push(field(EntityKind::Client, "native.alternativeNames[]", false, false, Version::new(26, 0, 0)));
    let report = run(&realm, &manifest);
    assert!(report.is_complete(), "{:?}", report.issues);
}

#[test]
fn misplaced_volatile_field_is_an_error_and_missing_volatile_a_warning() {
    let mut realm = realm_master();
    realm.users.push(User {
        id: "u1".into(),
        username: "alice".into(),
        enabled: true,
        native: obj(vec![("last_login", text("2026-08-15T10:00:00Z"))]),
    });
    let mut manifest = engine_manifest("stub");
    manifest.fields.push(field(EntityKind::User, "native.last_login", false, true, Version::new(1, 0, 0)));
    let report = run(&realm, &manifest);
    assert!(!report.is_complete());
    assert!(report.issues.iter().any(|i| i.kind == IssueKind::MisplacedVolatile));
    assert!(report.issues.iter().any(|i| i.kind == IssueKind::MissingVolatile));
    assert_eq!(report.counts(), (1, 1));
    assert_eq!(report.issues[0].severity, Severity::Error);
    assert_eq!(report.issues[1].severity, Severity::Warning);
}

#[test]
fn correctly_segregated_volatile_field_passes() {
    let mut realm = realm_master();
    realm.users.push(User {
        id: "u1".into(),
        username: "alice".into(),
        enabled: true,
        native: obj(vec![]),
    });
    realm.volatile.insert(EntityKind::User, "u1", "native.last_login", text("2026-08-15T10:00:00Z"));
    let mut manifest = engine_manifest("stub");
    manifest.fields.push(field(EntityKind::User, "native.last_login", false, true, Version::new(1, 0, 0)));
    let report = run(&realm, &manifest);
    assert!(report.is_complete(), "{:?}", report.issues);
    assert_eq!(report.counts(), (0, 0));
}

#[test]
fn verify_rejects_invalid_manifests() {
    let mut manifest = engine_manifest("stub");
    manifest.entities.push(EntityExpectation::new(EntityKind::Realm, EntityPresence::Optional));
    assert!(ManifestVerifier.verify(&realm_master(), &manifest).is_err());
}

#[test]
fn rows_by_entity_keeps_realm_keyed_by_name() {
    let realm = realm_master();
    let rows = rows_by_entity(&realm);
    let realm_rows = &rows.iter().find(|(k, _)| *k == EntityKind::Realm).unwrap().1;
    assert_eq!(realm_rows[0].0, "master");
    assert_eq!(rows.len(), 1);
}

#[test]
fn report_carries_manifest_identity_and_order() {
    let mut realm = realm_master();
    realm.clients.push(web_client(obj(vec![])));
    let mut manifest = engine_manifest("stub");
    manifest.entities.push(EntityExpectation::new(EntityKind::Group, EntityPresence::Required));
    manifest.fields.push(field(EntityKind::Client, "native.secret", true, false, Version::new(2, 0, 0)));
    let report = run(&realm, &manifest);
    assert_eq!(report.backend, "stub");
    assert_eq!(report.against_version, Version::new(26, 0, 0));
    assert_eq!(report.issues.len(), 2);
    assert_eq!(report.issues[0].kind, IssueKind::MissingEntity);
    assert_eq!(report.issues[1].kind, IssueKind::MissingRequired);
    assert_eq!(
        report.to_string(),
        "VerificationReport(stub @ 26.0.0, 2 errors, 0 warnings, 2 issues)"
    );
}

#[test]
fn manifest_validate_rejects_duplicates() {
    let mut manifest = FieldManifest::new("stub", Version::new(26, 0, 0));
    manifest.fields.push(field(EntityKind::Client, "client_id", true, false, Version::new(1, 0, 0)));
    manifest.fields.push(field(EntityKind::Client, "client_id", true, false, Version::new(1, 0, 0)));
    assert!(manifest.validate().is_err());
}

#[test]
fn manifest_validate_rejects_optional_realm() {
    let mut manifest = FieldManifest::new("stub", Version::new(26, 0, 0));
    manifest.entities.push(EntityExpectation::new(EntityKind::Realm, EntityPresence::Optional));
    assert!(manifest.validate().is_err());
}

#[test]
fn manifest_validate_rejects_empty_path() {
    let mut manifest = FieldManifest::new("stub", Version::new(26, 0, 0));
    manifest.fields.push(field(EntityKind::Realm, "", true, false, Version::new(1, 0, 0)));
    assert!(manifest.validate().is_err());
}

#[test]
fn manifest_without_entities_is_valid() {
    let manifest = FieldManifest::new("stub", Version::new(26, 0, 0));
    assert!(manifest.validate().is_ok());
}

fn invalid_message(manifest: &FieldManifest) -> String {
    match manifest.validate() {
        Err(Error::InvalidManifest(msg)) => msg,
        other => panic!("expected an invalid manifest, got {:?}", other),
    }
}

#[test]
fn manifest_problems_are_named_in_order() {
    let blank = FieldManifest::new("  ", Version::new(1, 0, 0));
    assert_eq!(invalid_message(&blank), "backend must be non-empty");

    let mut dup = FieldManifest::new("stub", Version::new(1, 0, 0));
    dup.fields.push(field(EntityKind::Client, "client_id", true, false, Version::new(1, 0, 0)));
    dup.fields.push(field(EntityKind::Client, "client_id", false, true, Version::new(2, 0, 0)));
    assert_eq!(invalid_message(&dup), "duplicate field expectation client_id for entity client");

    let mut empty = FieldManifest::new("stub", Version::new(1, 0, 0));
    empty.fields.push(field(EntityKind::Group, " \t", true, false, Version::new(1, 0, 0)));
    assert_eq!(invalid_message(&empty), "empty field path for entity group");

    let mut entities = FieldManifest::new("stub", Version::new(1, 0, 0));
    entities.entities.push(EntityExpectation::new(EntityKind::Role, EntityPresence::Optional));
    entities.entities.push(EntityExpectation::new(EntityKind::Role, EntityPresence::Required));
    assert_eq!(invalid_message(&entities), "duplicate entity expectation for role");

    let mut realm = FieldManifest::new("stub", Version::new(1, 0, 0));
    realm.entities.push(EntityExpectation::new(EntityKind::Realm, EntityPresence::Optional));
    assert_eq!(
        invalid_message(&realm),
        "Realm must always be present and cannot be declared optional"
    );

    let mut same_path_other_kind = FieldManifest::new("stub", Version::new(1, 0, 0));
    same_path_other_kind.fields.push(field(EntityKind::Client, "id", true, false, Version::new(1, 0, 0)));
    same_path_other_kind.fields.push(field(EntityKind::User, "id", true, false, Version::new(1, 0, 0)));
    assert!(same_path_other_kind.validate().is_ok());
}

#[test]
fn manifest_describes_itself() {
    let mut manifest = FieldManifest::new("keycloak", Version::new(26, 0, 4));
    manifest.entities.push(EntityExpectation::new(EntityKind::Client, EntityPresence::Optional));
    assert_eq!(manifest.to_string(), "FieldManifest(keycloak @ 26.0.4, 1 entities, 0 fields)");
}

#[test]
fn resolves_common_native_and_array_paths() {
    let value = obj(vec![
        ("client_id", text("web")),
        (
            "native",
            obj(vec![
                ("secret", text("s3cr3t")),
                ("alternativeNames", JsonValue::Array(vec![text("alpha"), text("beta")])),
                (
                    "steps",
                    JsonValue::Array(vec![
                        obj(vec![("name", text("Step A")), ("priority", num("1"))]),
                        obj(vec![("name", text("Step B")), ("priority", num("2"))]),
                    ]),
                ),
            ]),
        ),
    ]);
    assert!(resolve_path(&value, "client_id"));
    assert!(resolve_path(&value, "native.secret"));
    assert!(resolve_path(&value, "native.alternativeNames[]"));
    assert!(resolve_path(&value, "native.steps[].name"));
}

#[test]
fn does_not_report_absent_or_empty_matches() {
    let value = obj(vec![(
        "native",
        obj(vec![
            ("steps", JsonValue::Array(vec![obj(vec![("name", text("Step A"))])])),
            ("empty", JsonValue::Array(vec![])),
        ]),
    )]);
    assert!(!resolve_path(&value, "native.nope"));
    assert!(!resolve_path(&value, "native.steps[].nope"));
    assert!(!resolve_path(&value, "native.empty[]"));
    assert!(!resolve_path(&value, ""));
    assert!(resolve_path(&value, "native"));
}

#[test]
fn null_or_scalar_rows_never_resolve() {
    assert!(!resolve_path(&JsonValue::Null, "native.x"));
    assert!(!resolve_path(&text("text"), "native.x"));
    assert!(!resolve_path(&JsonValue::Array(vec![num("1"), num("2")]), "native.x"));
}

#[test]
fn present_null_values_resolve() {
    let value = obj(vec![("native", obj(vec![("x", JsonValue::Null)]))]);
    assert!(resolve_path(&value, "native.x"));
    assert!(!resolve_path(&value, "native.x.y"));
}

fn issue(kind: IssueKind, severity: Severity) -> VerificationIssue {
    VerificationIssue {
        severity,
        kind,
        entity: EntityKind::Client,
        row_id: Some("c1".into()),
        path: Some("native.secret".into()),
        introduced_in: Some(Version::new(1, 0, 0)),
        message: "boom".into(),
    }
}

#[test]
fn report_counts_and_completeness() {
    let report = VerificationReport {
        backend: "stub".into(),
        against_version: Version::new(1, 0, 0),
        issues: vec![
            issue(IssueKind::MissingRequired, Severity::Error),
            issue(IssueKind::MissingVolatile, Severity::Warning),
        ],
    };
    assert!(!report.is_complete());
    assert_eq!(report.counts(), (1, 1));

    let clean = VerificationReport { issues: vec![], ..report.clone() };
    assert!(clean.is_complete());
    assert_eq!(clean.counts(), (0, 0));
}

#[test]
fn issue_summary_includes_entity_and_path() {
    let s = issue(IssueKind::MissingRequired, Severity::Error).summary();
    assert!(s.contains("missing-required"));
    assert!(s.contains("client"));
    assert!(s.contains("native.secret"));
}

#[test]
fn issue_summaries_by_scope() {
    assert_eq!(
        issue(IssueKind::MissingRequired, Severity::Error).summary(),
        "missing-required [client/c1] native.secret -> boom"
    );
    let mut row_only = issue(IssueKind::MisplacedVolatile, Severity::Error);
    row_only.path = None;
    assert_eq!(row_only.summary(), "misplaced-volatile [client/c1] boom");
    let mut kind_only = issue(IssueKind::MissingEntity, Severity::Error);
    kind_only.row_id = None;
    assert_eq!(kind_only.summary(), "missing-entity [client] boom");
}

#[test]
fn existing_row_with_an_empty_expected_structure_is_complete() {
    let mut realm = realm_master();
    realm.clients.push(web_client(obj(vec![("alternativeNames", JsonValue::Array(vec![]))])));
    let mut manifest = engine_manifest("stub");
    manifest.fields.push(field(EntityKind::Client, "native.alternativeNames[]", true, false, Version::new(26, 0, 0)));
    let report = run(&realm, &manifest);
    assert!(report.is_complete(), "{:?}", report.issues);
    assert_eq!(report.counts(), (0, 0));
}

#[test]
fn empty_structures_also_carry_nested_and_optional_paths() {
    let mut realm = realm_master();
    realm.clients.push(web_client(obj(vec![("steps", JsonValue::Array(vec![]))])));
    let mut manifest = engine_manifest("stub");
    manifest.fields.push(field(EntityKind::Client, "native.steps[].name", true, false, Version::new(1, 0, 0)));
    manifest.fields.push(field(EntityKind::Client, "native.steps[]", false, false, Version::new(1, 0, 0)));
    let report = run(&realm, &manifest);
    assert!(report.is_complete(), "{:?}", report.issues);
    let mut missing = realm_master();
    missing.clients.push(web_client(obj(vec![("steps", text("none"))])));
    let report = run(&missing, &manifest);
    assert_eq!(report.counts(), (2, 0));
}

#[test]
fn carried_paths_count_empty_arrays() {
    let value = obj(vec![(
        "native",
        obj(vec![
            ("empty", JsonValue::Array(vec![])),
            ("steps", JsonValue::Array(vec![obj(vec![("name", text("A"))])])),
            ("scalar", num("1")),
        ]),
    )]);
    assert!(carries_path(&value, "native.empty[]"));
    assert!(carries_path(&value, "native.empty[].name"));
    assert!(!resolve_path(&value, "native.empty[]"));
    assert!(carries_path(&value, "native.steps[].name"));
    assert!(!carries_path(&value, "native.steps[].nope"));
    assert!(!carries_path(&value, "native.nope[]"));
    assert!(!carries_path(&value, "native.scalar[]"));
    assert!(!carries_path(&JsonValue::Null, "native"));
}

#[test]
fn leading_parts_of_a_present_path_are_present() {
    let value = obj(vec![(
        "native",
        obj(vec![("steps", JsonValue::Array(vec![obj(vec![("name", text("A"))])]))]),
    )]);
    assert!(resolve_path(&value, "native.steps[].name"));
    assert!(resolve_path(&value, "native.steps[]"));
    assert!(resolve_path(&value, "native"));
    assert!(resolve_path(&value, "native.steps"));
    assert!(!resolve_path(&value, "native.steps.name"));
}
