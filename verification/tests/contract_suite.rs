use keystate_core::testing::{
    assert_canonical_deterministic, assert_manifest_valid, assert_verification_complete,
    assert_volatile_segregation, check_manifest_valid, check_verification_complete,
    check_volatile_segregation, sample_manifest, sample_realm,
};
use keystate_core::{
    EntityExpectation, EntityKind, EntityPresence, Error, FieldExpectation, JsonValue, Version,
};

fn message_of(r: keystate_core::Result<()>) -> String {
    match r {
        Err(Error::Message(m)) => m,
        other => panic!("expected a contract breach, got {:?}", other),
    }
}

#[test]
fn sample_data_passes_the_whole_suite() {
    let realm = sample_realm();
    let manifest = sample_manifest();

    assert_manifest_valid(&manifest);
    assert_canonical_deterministic(&realm.to_json());
    assert_volatile_segregation(&realm, &manifest);
    assert_verification_complete(&realm, &manifest);
    assert!(check_manifest_valid(&manifest).is_ok());
    assert!(check_volatile_segregation(&realm, &manifest).is_ok());
    assert!(check_verification_complete(&realm, &manifest).is_ok());
}

#[test]
fn segregation_contract_catches_leaks() {
    let mut realm = sample_realm();
    // Re-introduce the volatile field into the config body.
    if let JsonValue::Object(members) = &mut realm.users[0].native {
        members.push(("last_login".to_string(), JsonValue::String("2026-08-15T10:00:00Z".into())));
    }
    let result = check_volatile_segregation(&realm, &sample_manifest());
    assert!(result.is_err(), "volatile leak should trip the contract test");
    assert_eq!(
        message_of(result),
        "volatile field 'native.last_login' must not appear in the config body of user 'u1'"
    );
}

#[test]
fn segregation_contract_catches_uncaptured_values() {
    let mut realm = sample_realm();
    realm.users.push(keystate_core::User {
        id: "u2".into(),
        username: "bob".into(),
        enabled: true,
        native: JsonValue::Object(vec![]),
    });
    assert_eq!(
        message_of(check_volatile_segregation(&realm, &sample_manifest())),
        "volatile field 'native.last_login' must be captured in the volatile section for user 'u2'"
    );
    // An uncaptured volatile value is only a warning for the verifier.
    assert!(check_verification_complete(&realm, &sample_manifest()).is_ok());
}

#[test]
fn suite_refuses_an_inconsistent_manifest() {
    let mut manifest = sample_manifest();
    manifest.entities.push(EntityExpectation::new(EntityKind::Realm, EntityPresence::Optional));
    let realm = sample_realm();
    for r in [
        check_manifest_valid(&manifest),
        check_volatile_segregation(&realm, &manifest),
        check_verification_complete(&realm, &manifest),
    ] {
        match r {
            Err(Error::InvalidManifest(m)) => {
                assert_eq!(m, "Realm must always be present and cannot be declared optional")
            }
            other => panic!("expected an invalid manifest, got {:?}", other),
        }
    }
}

#[test]
fn completeness_check_counts_errors() {
    let realm = sample_realm();
    let mut manifest = sample_manifest();
    manifest.entities.push(EntityExpectation::new(EntityKind::Group, EntityPresence::Required));
    manifest.fields.push(FieldExpectation {
        entity: EntityKind::Client,
        path: "native.secret".into(),
        required: true,
        volatile: false,
        introduced_in: Version::new(1, 0, 0),
    });
    assert_eq!(
        message_of(check_verification_complete(&realm, &manifest)),
        "verification found 2 error(s)"
    );
}

#[test]
fn sample_realm_has_its_documented_shape() {
    let realm = sample_realm();
    assert_eq!(realm.backend.backend, "sample");
    assert_eq!(realm.clients.len(), 2);
    assert_eq!(realm.clients[1].client_id, "web");
    assert_eq!(realm.users[0].username, "alice");
    assert_eq!(
        realm.volatile.get(EntityKind::User, "u1", "native.last_login"),
        Some(&JsonValue::String("2026-08-15T10:00:00Z".into()))
    );
    let manifest = sample_manifest();
    assert_eq!(manifest.fields.len(), 6);
    assert!(manifest.fields[5].volatile);
}
