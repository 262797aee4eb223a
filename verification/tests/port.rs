use keystate_core::{
    CanonicalRealm, CompletenessVerifier, FieldManifest, OutputSink, Result, VerificationReport,
    Version,
};

struct Verifier;

impl CompletenessVerifier for Verifier {
    fn expected_fields(&self, _v: &Version) -> FieldManifest {
        FieldManifest::new("stub", Version::new(1, 0, 0))
    }
}

struct NoopSink;

impl OutputSink for NoopSink {
    fn write(&self, _canonical: &CanonicalRealm, _report: &VerificationReport) -> Result<()> {
        Ok(())
    }
}

fn assert_send_sync<T: Send + Sync>() {}

#[test]
fn verifiers_are_send_and_sync() {
    assert_send_sync::<Verifier>();
}

#[test]
fn default_verify_runs_and_passes_on_default_expansion() {
    let verifier = Verifier;
    let realm = CanonicalRealm::default();
    let manifest = verifier.expected_fields(&Version::new(1, 0, 0));
    let report = verifier.verify(&realm, &manifest);
    assert!(report.is_complete());
    assert_eq!(report.backend, "stub");
    assert_eq!(report.against_version, Version::new(1, 0, 0));
}

#[test]
fn sinks_are_send_and_sync() {
    assert_send_sync::<NoopSink>();
    let sink = NoopSink;
    let realm = CanonicalRealm::default();
    let report = Verifier.verify(&realm, &Verifier.expected_fields(&Version::new(1, 0, 0)));
    assert!(sink.write(&realm, &report).is_ok());
}
