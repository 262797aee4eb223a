use keystate_core::{
    BackendInfo, CanonicalRealm, CanonicalRow, EntityKind, JsonValue, Realm, Version,
    VolatileSection,
};

fn num(t: &str) -> JsonValue {
    JsonValue::Number(t.to_string())
}

fn text(t: &str) -> JsonValue {
    JsonValue::String(t.to_string())
}

fn obj(members: Vec<(&str, JsonValue)>) -> JsonValue {
    JsonValue::Object(members.into_iter().map(|(k, v)| (k.to_string(), v)).collect())
}

#[test]
fn entities_roundtrip_and_keep_native() {
    let realm = Realm {
        name: "master".into(),
        enabled: true,
        native: obj(vec![("a", num("1"))]),
    };
    let json = realm.to_json();
    assert_eq!(
        json,
        obj(vec![
            ("name", text("master")),
            ("enabled", JsonValue::Bool(true)),
            ("native", obj(vec![("a", num("1"))])),
        ])
    );
    match &json {
        JsonValue::Object(members) => assert_eq!(members[2].1, obj(vec![("a", num("1"))])),
        _ => panic!("a realm serializes as an object"),
    }
    assert_eq!(realm.row_id(), "master");
}

#[test]
fn realm_serializes_common_and_native() {
    let realm = Realm {
        name: "master".into(),
        enabled: true,
        native: obj(vec![("registrationAllowed", JsonValue::Bool(false))]),
    };
    let bytes = keystate_core::canonical_bytes(&realm.to_json()).unwrap();
    assert_eq!(
        String::from_utf8(bytes).unwrap(),
        r#"{"enabled":true,"name":"master","native":{"registrationAllowed":false}}"#
    );
}

#[test]
fn credential_serializes_its_type_field() {
    let credential = keystate_core::Credential {
        id: "cr1".into(),
        credential_type: "password".into(),
        native: JsonValue::Null,
    };
    let bytes = keystate_core::canonical_bytes(&credential.to_json()).unwrap();
    assert_eq!(
        String::from_utf8(bytes).unwrap(),
        r#"{"id":"cr1","native":null,"type":"password"}"#
    );
}

#[test]
fn envelope_has_default_empty_state() {
    let realm = CanonicalRealm::default();
    assert!(realm.clients.is_empty());
    assert!(realm.volatile.is_empty());
}

#[test]
fn volatile_section_roundtrips_and_is_ordered() {
    let mut section = VolatileSection::new();
    section.insert(EntityKind::User, "u1", "native.last_login", text("2026-01-01"));
    section.insert(EntityKind::User, "u2", "native.last_login", text("2026-01-02"));
    assert_eq!(section.get(EntityKind::User, "u1", "native.last_login").unwrap(), &text("2026-01-01"));
    assert_eq!(section.row_ids(&EntityKind::User), vec!["u1".to_string(), "u2".to_string()]);
    let json = section.to_json();
    assert_eq!(
        json,
        obj(vec![(
            "user",
            obj(vec![
                ("u1", obj(vec![("native.last_login", text("2026-01-01"))])),
                ("u2", obj(vec![("native.last_login", text("2026-01-02"))])),
            ])
        )])
    );
}

#[test]
fn volatile_rows_are_ordered_whatever_the_insertion_order() {
    let mut section = VolatileSection::new();
    section.insert(EntityKind::User, "u2", "native.last_login", text("2026-01-02"));
    section.insert(EntityKind::User, "u1", "native.last_login", text("2026-01-01"));
    section.insert(EntityKind::User, "u2", "native.session", num("3"));
    assert_eq!(section.row_ids(&EntityKind::User), vec!["u1".to_string(), "u2".to_string()]);
    assert_eq!(section.row_ids(&EntityKind::Client), Vec::<String>::new());
    let bytes = keystate_core::canonical_bytes(&section.to_json()).unwrap();
    assert_eq!(
        String::from_utf8(bytes).unwrap(),
        r#"{"user":{"u1":{"native.last_login":"2026-01-01"},"u2":{"native.last_login":"2026-01-02","native.session":3}}}"#
    );
}

#[test]
fn json_values_report_duplicate_keys() {
    let good = obj(vec![("a", num("1")), ("b", JsonValue::Array(vec![obj(vec![("x", num("2"))])]))]);
    assert!(good.is_well_keyed());
    let top = obj(vec![("a", num("1")), ("a", num("2"))]);
    assert!(!top.is_well_keyed());
    let nested = obj(vec![(
        "list",
        JsonValue::Array(vec![obj(vec![]), obj(vec![("k", num("1")), ("k", JsonValue::Null)])]),
    )]);
    assert!(!nested.is_well_keyed());
    assert!(JsonValue::Null.is_well_keyed());
}

#[test]
fn volatile_insert_replaces_and_get_misses() {
    let mut section = VolatileSection::new();
    assert!(section.is_empty());
    section.insert(EntityKind::Client, "c1", "native.seen", num("1"));
    section.insert(EntityKind::Client, "c1", "native.seen", num("2"));
    section.insert(EntityKind::Realm, "master", "native.x", JsonValue::Null);
    assert!(!section.is_empty());
    assert_eq!(section.get(EntityKind::Client, "c1", "native.seen"), Some(&num("2")));
    assert_eq!(section.get(EntityKind::Client, "c2", "native.seen"), None);
    assert_eq!(section.get(EntityKind::User, "c1", "native.seen"), None);
    assert_eq!(section.get(EntityKind::Client, "c1", "native.other"), None);
    assert_eq!(section.row_ids(&EntityKind::User), Vec::<String>::new());
    let bytes = keystate_core::canonical_bytes(&section.to_json()).unwrap();
    assert_eq!(
        String::from_utf8(bytes).unwrap(),
        r#"{"client":{"c1":{"native.seen":2}},"realm":{"master":{"native.x":null}}}"#
    );
}

#[test]
fn backend_info_defaults_to_unknown_backend() {
    let info = BackendInfo::default();
    assert_eq!(info.backend, "");
    assert_eq!(info.detected_version, Version::default());
}

#[test]
fn each_entity_carries_its_identity_key() {
    assert_eq!(EntityKind::Client.identity_key(), "client_id");
    assert_eq!(EntityKind::User.identity_key(), "username");
    assert_eq!(EntityKind::AuthFlow.identity_key(), "alias");
    assert_eq!(EntityKind::Realm.identity_key(), "name");
}

#[test]
fn id_field_falls_back_to_name_for_realm() {
    assert_eq!(EntityKind::Client.id_field(), "id");
    assert_eq!(EntityKind::Realm.id_field(), "name");
}

#[test]
fn entity_labels_and_snake_names() {
    assert_eq!(keystate_core::entity_label(EntityKind::ClientScope), "client scope");
    assert_eq!(keystate_core::entity_label(EntityKind::IdentityProvider), "identity provider");
    assert_eq!(EntityKind::ProtocolMapper.snake_name(), "protocol_mapper");
    assert_eq!(EntityKind::AuthFlow.snake_name(), "auth_flow");
}

#[test]
fn extract_scope_names_one_realm() {
    let scope = keystate_core::ExtractScope::new("test");
    assert_eq!(scope.realm, "test");
}

#[test]
fn backend_info_is_valid_without_duplicate_extra_keys() {
    let mut info = BackendInfo::default();
    assert!(info.is_valid());
    info.extra.push(("edition".to_string(), text("community")));
    info.extra.push(("distribution".to_string(), text("quarkus")));
    assert!(info.is_valid());
    info.extra.push(("edition".to_string(), text("enterprise")));
    assert!(!info.is_valid());
}
