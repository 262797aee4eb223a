use sha2::Digest;
use keystate_core::canonical::writer::canonical_bytes;
use keystate_core::{
    config_bytes, content_hash, BackendInfo, CanonicalRealm, Client, EntityKind, JsonValue, Realm,
    Version, VolatileSection,
};

fn num(t: &str) -> JsonValue {
    JsonValue::Number(t.to_string())
}

fn text(t: &str) -> JsonValue {
    JsonValue::String(t.to_string())
}

fn obj(members: Vec<(&str, JsonValue)>) -> JsonValue {
    JsonValue::Object(members.into_iter().map(|(k, v)| (k.to_string(), v)).collect())
}

fn as_text(v: &JsonValue) -> String {
    String::from_utf8(canonical_bytes(v).unwrap()).unwrap()
}

fn stub_backend() -> BackendInfo {
    BackendInfo {
        backend: "stub".to_string(),
        detected_version: Version::new(1, 0, 0),
        extra: Vec::new(),
    }
}

fn hash_realm() -> CanonicalRealm {
    let mut realm = CanonicalRealm::default();
    realm.backend = stub_backend();
    realm.realm = Realm {
        name: "master".to_string(),
        enabled: true,
        native: obj(vec![("registrationAllowed", JsonValue::Bool(false))]),
    };
    realm.clients.push(Client {
        id: "a".to_string(),
        client_id: "api".to_string(),
        enabled: true,
        native: obj(vec![("publicClient", JsonValue::Bool(true))]),
    });
    realm
}

#[test]
fn volatile_section_never_appears_in_config_bytes() {
    let mut volatile = VolatileSection::new();
    volatile.insert(EntityKind::User, "u1", "native.last_login", text("2026-08-15T10:00:00Z"));
    let mut realm = CanonicalRealm::default();
    realm.backend = stub_backend();
    realm.volatile = volatile;
    let bytes = config_bytes(&realm).unwrap();
    let text = String::from_utf8(bytes).unwrap();
    assert!(!text.contains("last_login"), "volatile leaked into config");
    assert!(!text.contains("volatile"), "volatile section still present");
}

#[test]
fn config_bytes_are_stable_across_calls() {
    let realm = CanonicalRealm::default();
    assert_eq!(config_bytes(&realm).unwrap(), config_bytes(&realm).unwrap());
}

#[test]
fn native_object_keys_are_sorted_in_config_bytes() {
    let mut realm = CanonicalRealm::default();
    realm.backend = stub_backend();
    let bytes = config_bytes(&realm).unwrap();
    let text = String::from_utf8(bytes).unwrap();
    let a = text.find("\"backend\"").expect("backend present");
    let z = text.find("\"clients\"").expect("clients present");
    assert!(a < z, "object keys must be sorted: {text}");
}

#[test]
fn config_bytes_of_default_realm_are_exact() {
    let realm = CanonicalRealm::default();
    let text = String::from_utf8(config_bytes(&realm).unwrap()).unwrap();
    assert_eq!(
        text,
        r#"{"auth_flows":[],"backend":{"backend":"","detected_version":{"major":0,"minor":0,"patch":0},"extra":{}},"client_scopes":[],"clients":[],"credentials":[],"groups":[],"identity_providers":[],"protocol_mappers":[],"realm":{"enabled":false,"name":"","native":null},"roles":[],"users":[]}"#
    );
}

#[test]
fn hash_is_stable_for_identical_config() {
    assert_eq!(content_hash(&hash_realm()).unwrap(), content_hash(&hash_realm()).unwrap());
}

#[test]
fn hash_ignores_volatile_churn() {
    let a = hash_realm();
    let mut b = hash_realm();
    b.volatile.insert(EntityKind::User, "u1", "native.last_login", text("2026-08-15T10:00:00Z"));
    assert_eq!(content_hash(&a).unwrap(), content_hash(&b).unwrap());
}

#[test]
fn hash_changes_when_config_changes() {
    let a = hash_realm();
    let mut b = hash_realm();
    b.clients[0].enabled = false;
    assert_ne!(content_hash(&a).unwrap(), content_hash(&b).unwrap());
}

#[test]
fn hash_is_always_32_bytes() {
    assert_eq!(content_hash(&hash_realm()).unwrap().len(), 32);
}

#[test]
fn hash_is_the_sha256_of_the_config_bytes() {
    let realm = hash_realm();
    let bytes = config_bytes(&realm).unwrap();
    let expected: [u8; 32] = sha2::Sha256::digest(&bytes).into();
    let h = content_hash(&realm).unwrap();
    assert_eq!(h, expected);
    assert_ne!(&h[..], &bytes[..32]);
}

#[test]
fn object_keys_are_sorted_in_serialized_output() {
    let v = obj(vec![("z", num("1")), ("a", num("2")), ("m", num("3"))]);
    assert_eq!(as_text(&v), r#"{"a":2,"m":3,"z":1}"#);
}

#[test]
fn struct_field_order_does_not_change_bytes() {
    let wide = obj(vec![("a", num("1")), ("c", text("x")), ("b", num("2"))]);
    let narrow = obj(vec![("a", num("1")), ("b", num("2")), ("c", text("x"))]);
    assert_eq!(canonical_bytes(&wide).unwrap(), canonical_bytes(&narrow).unwrap());
}

#[test]
fn identical_input_produces_identical_bytes() {
    let value = obj(vec![("native", obj(vec![("b", num("1")), ("a", text("x"))]))]);
    assert_eq!(canonical_bytes(&value).unwrap(), canonical_bytes(&value).unwrap());
}

#[test]
fn nested_object_keys_are_sorted_recursively() {
    let v = obj(vec![
        (
            "outer",
            obj(vec![
                ("z", num("1")),
                ("mid", obj(vec![("y", num("2")), ("a", num("3"))])),
                ("b", num("4")),
            ]),
        ),
        ("top", num("0")),
    ]);
    assert_eq!(as_text(&v), r#"{"outer":{"b":4,"mid":{"a":3,"y":2},"z":1},"top":0}"#);
}

#[test]
fn array_order_is_preserved_not_sorted() {
    let v = obj(vec![
        (
            "list",
            JsonValue::Array(vec![obj(vec![("z", num("1"))]), obj(vec![("a", num("2"))])]),
        ),
        ("items", JsonValue::Array(vec![num("3"), num("1"), num("2")])),
    ]);
    assert_eq!(as_text(&v), r#"{"items":[3,1,2],"list":[{"z":1},{"a":2}]}"#);
}

#[test]
fn strings_are_escaped_as_json_literals() {
    let v = obj(vec![("k\"ey", text("line\nbreak\t\"quoted\" back\\slash \u{1} é"))]);
    assert_eq!(
        as_text(&v),
        "{\"k\\\"ey\":\"line\\nbreak\\t\\\"quoted\\\" back\\\\slash \\u0001 é\"}"
    );
}

#[test]
fn scalars_are_written_compactly() {
    assert_eq!(as_text(&JsonValue::Null), "null");
    assert_eq!(as_text(&JsonValue::Bool(true)), "true");
    assert_eq!(as_text(&JsonValue::Bool(false)), "false");
    assert_eq!(as_text(&num("-2.5e3")), "-2.5e3");
    assert_eq!(as_text(&JsonValue::Array(vec![])), "[]");
    assert_eq!(as_text(&obj(vec![])), "{}");
}

#[test]
fn keys_sort_by_code_point() {
    let v = obj(vec![("b", num("1")), ("B", num("2")), ("ab", num("3")), ("a", num("4"))]);
    assert_eq!(as_text(&v), r#"{"B":2,"a":4,"ab":3,"b":1}"#);
}

#[test]
fn exchanging_neighbouring_members_keeps_bytes() {
    let a = obj(vec![("x", num("1")), ("y", obj(vec![("q", num("2")), ("p", num("3"))]))]);
    let b = obj(vec![("y", obj(vec![("q", num("2")), ("p", num("3"))])), ("x", num("1"))]);
    assert_eq!(canonical_bytes(&a).unwrap(), canonical_bytes(&b).unwrap());
}
