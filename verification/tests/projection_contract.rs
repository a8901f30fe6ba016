use delphos::projection_contract::{
    EventRange, KernelStamp, MaterializerKernel, ProjectionChecksum, ProjectionContract, ProjectionVersion, ProjectionViolation, RebuildLog, RebuildProof,
};

fn json(text: &str) -> serde_json::Value {
    serde_json::from_str(text).unwrap()
}

fn sample_data() -> serde_json::Value {
    json(r#"{"tasks":["T-1","T-2"],"count":2}"#)
}

#[test]
fn event_range_extend() {
    let r = EventRange::empty().extend(5).extend(3).extend(8);
    assert_eq!(r.from_lamport, 3);
    assert_eq!(r.to_lamport, 8);
    assert_eq!(r.event_count, 3);
    assert!(r.contains(5));
    assert!(!r.contains(9));
}

#[test]
fn event_range_overlap() {
    let a = EventRange::new(1, 5, 5);
    let b = EventRange::new(4, 8, 5);
    let c = EventRange::new(10, 15, 6);
    assert!(a.overlaps(&b));
    assert!(!a.overlaps(&c));
}

#[test]
fn checksum_deterministic() {
    let d = sample_data();
    let c1 = ProjectionChecksum::compute(&d);
    let c2 = ProjectionChecksum::compute(&d);
    assert!(c1.matches(&c2));
}

#[test]
fn checksum_sensitive() {
    let d1 = json(r#"{"x":1}"#);
    let d2 = json(r#"{"x":2}"#);
    assert!(!ProjectionChecksum::compute(&d1).matches(&ProjectionChecksum::compute(&d2)));
}

#[test]
fn kernel_stamp_and_verify() {
    let mut kernel = MaterializerKernel::new();
    let data = sample_data();
    let range = EventRange::new(1, 10, 10);
    let contract = kernel.stamp("kanban", "telum", range, &data);
    assert!(contract.kernel_stamp.is_some());
    assert!(contract.verify(&data).is_ok());
}

#[test]
fn no_kernel_stamp_fails_verify() {
    let data = sample_data();
    let range = EventRange::new(1, 5, 5);
    let contract = ProjectionContract::new("p", "r", ProjectionVersion::zero(), range, &data);
    assert!(matches!(contract.verify(&data), Err(ProjectionViolation::NoKernelStamp { .. })));
}

#[test]
fn tampered_data_fails_verify() {
    let mut kernel = MaterializerKernel::new();
    let data = sample_data();
    let contract = kernel.stamp("p", "r", EventRange::single(1), &data);
    let tampered = json(r#"{"tasks":["T-1","T-2","T-99"],"count":3}"#);
    assert!(matches!(contract.verify(&tampered), Err(ProjectionViolation::ChecksumMismatch { .. })));
}

#[test]
fn rebuild_identity_confirmed() {
    let data = sample_data();
    let original_ck = ProjectionChecksum::compute(&data);
    let rebuilt_ck = ProjectionChecksum::compute(&data);
    let proof = RebuildProof::new("kanban", EventRange::new(1, 10, 10), rebuilt_ck.clone(), 11, original_ck.matches(&rebuilt_ck));
    assert!(proof.identity_confirmed);
}

#[test]
fn rebuild_divergence_detected() {
    let original = ProjectionChecksum::compute(&json(r#"{"v":1}"#));
    let rebuilt = ProjectionChecksum::compute(&json(r#"{"v":2}"#));
    assert!(!original.matches(&rebuilt));
    let range = EventRange::new(1, 5, 5);
    let proof = RebuildProof::new("p", range, rebuilt, 6, false);
    let mut log = RebuildLog::new();
    log.record(proof);
    assert!(!log.all_confirmed());
    assert_eq!(log.failures().len(), 1);
}

#[test]
fn kernel_stamps_are_tamper_evident() {
    let mut k = MaterializerKernel::new();
    let d = sample_data();
    let c = k.stamp("p", "r", EventRange::single(5), &d);
    let stamp = c.kernel_stamp.unwrap();
    assert!(stamp.is_valid());
    assert_eq!(stamp.pipeline_version, 1);
}

#[test]
fn version_from_range() {
    let range = EventRange::new(10, 50, 40);
    let version = ProjectionVersion::from_lamport(range.to_lamport);
    assert_eq!(version.0, 50);
}

#[test]
fn range_text_and_version_text() {
    assert_eq!(EventRange::empty().to_text(), "[empty]");
    assert_eq!(EventRange::new(3, 8, 3).to_text(), "[3..8 (3 events)]");
    assert_eq!(ProjectionVersion(41).to_text(), "pv41");
    assert_eq!(ProjectionVersion(41).next(), ProjectionVersion(42));
}

#[test]
fn checksum_is_lowercase_hex_and_short_form_has_eight_characters() {
    let ck = ProjectionChecksum::compute(&sample_data());
    assert!(!ck.0.is_empty());
    assert!(ck.0.chars().all(|c| c.is_ascii_hexdigit() && !c.is_ascii_uppercase()));
    let short = ck.to_text();
    assert!(short.starts_with("ck:"));
    assert_eq!(short.len(), 3 + ck.0.len().min(8));
    assert_eq!(ProjectionChecksum::wrap("abc").to_text(), "ck:abc");
}

#[test]
fn short_form_counts_bytes_of_multibyte_text() {
    assert_eq!(ProjectionChecksum::wrap("ééééé").to_text(), "ck:éééé");
    assert_eq!(ProjectionChecksum::wrap("abcdefghij").to_text(), "ck:abcdefgh");
    assert_eq!(ProjectionChecksum::wrap("ab€€x").to_text(), "ck:ab€€");
    assert_eq!(ProjectionChecksum::wrap("").to_text(), "ck:");
}

#[test]
fn stamp_advances_the_kernel_counter_and_sets_the_version() {
    let mut k = MaterializerKernel::default();
    assert_eq!(k.current_lamport(), 0);
    let d = sample_data();
    let c1 = k.stamp("p", "r", EventRange::new(2, 9, 8), &d);
    let c2 = k.stamp("p", "r", EventRange::new(2, 9, 8), &d);
    assert_eq!(k.current_lamport(), 2);
    assert_eq!(c1.version, ProjectionVersion(9));
    assert_eq!(c1.kernel_stamp.as_ref().unwrap().stamped_at_lamport, 1);
    assert_eq!(c2.kernel_stamp.as_ref().unwrap().stamped_at_lamport, 2);
    assert!(k.verify_contract(&c1, &d).is_ok());
    assert_eq!(c1.kernel_stamp.unwrap().stamp_hash, c2.kernel_stamp.unwrap().stamp_hash);
}

#[test]
fn stamp_hash_depends_on_the_range() {
    let ck = ProjectionChecksum::compute(&sample_data());
    let a = KernelStamp::new("p", &ck, &EventRange::new(1, 5, 5), 1);
    let b = KernelStamp::new("p", &ck, &EventRange::new(1, 6, 6), 1);
    assert_ne!(a.stamp_hash, b.stamp_hash);
}

#[test]
fn rebuild_identity_check_reports_both_checksums() {
    let data = sample_data();
    let contract = ProjectionContract::new("p", "r", ProjectionVersion::zero(), EventRange::single(1), &data);
    assert!(contract.verify_rebuild_identity(&ProjectionChecksum::compute(&data)).is_ok());
    let other = ProjectionChecksum::wrap("0");
    match contract.verify_rebuild_identity(&other) {
        Err(ProjectionViolation::RebuildDivergence { projection_id, original, rebuilt }) => {
            assert_eq!(projection_id, "p");
            assert!(original.matches(&contract.checksum));
            assert_eq!(rebuilt.0, "0");
        }
        other => panic!("expected RebuildDivergence, got {other:?}"),
    }
}

#[test]
fn mismatch_reports_expected_and_actual() {
    let mut kernel = MaterializerKernel::new();
    let data = sample_data();
    let contract = kernel.stamp("p", "r", EventRange::single(1), &data);
    let other = json(r#"{"v":2}"#);
    match contract.verify(&other) {
        Err(ProjectionViolation::ChecksumMismatch { expected, actual }) => {
            assert!(expected.matches(&contract.checksum));
            assert!(actual.matches(&ProjectionChecksum::compute(&other)));
        }
        other => panic!("expected ChecksumMismatch, got {other:?}"),
    }
}

#[test]
fn empty_log_is_all_confirmed() {
    let mut log = RebuildLog::default();
    assert!(log.all_confirmed());
    assert!(log.failures().is_empty());
    log.record(RebuildProof::new("p", EventRange::single(1), ProjectionChecksum::wrap("1"), 2, true));
    assert!(log.all_confirmed());
    assert_eq!(log.count(), 1);
}

#[test]
fn extend_keeps_old_counters_and_overlap_is_symmetric() {
    let r = EventRange::new(4, 6, 3);
    let e = r.extend(10);
    assert!(e.contains(4) && e.contains(6) && e.contains(10));
    assert_eq!(e.event_count, 4);
    let s = EventRange::single(5);
    assert_eq!(r.overlaps(&s), s.overlaps(&r));
    assert!(!EventRange::empty().overlaps(&EventRange::empty()));
}
