use pakstak::digest::{sha256_digest, DigestError};
use pakstak::manifest::{check_schema, normalized_arch, select_manifest, Descriptor, ImageIndex, ImageManifest, ManifestError, Platform};
use pakstak::reference::{Reference, Specifier};
use pakstak::fetch::{
    accept_header, blob_path, image_plan, layer_action, manifest_path, next_image_step, registry_url,
    verify_manifest_bytes, ImagePlan, ImageStep, LayerAction, ManifestMediaType,
};
use pakstak::repair::{ManifestFinding, RepairCheck};

const MANIFEST_MEDIA_TYPE: &str = "application/vnd.oci.image.manifest.v1+json";

fn image_manifest_bytes() -> Vec<u8> {
    b"{\"schemaVersion\":2,\"layers\":[]}".to_vec()
}

#[test]
fn manifest_header_digest_mismatch() {
    let manifest = image_manifest_bytes();
    let header_digest = sha256_digest(b"different manifest");
    let error = verify_manifest_bytes(&manifest, &header_digest, &Specifier::Tag("latest".to_owned()))
        .err()
        .expect("verification unexpectedly succeeded");
    assert!(matches!(error, DigestError::VerificationFailed(_)));
}

#[test]
fn pinned_manifest_digest_mismatch() {
    let manifest = image_manifest_bytes();
    let actual_digest = sha256_digest(&manifest);
    let requested = sha256_digest(b"requested manifest");
    let error = verify_manifest_bytes(&manifest, &actual_digest, &Specifier::Digest(requested))
        .err()
        .expect("verification unexpectedly succeeded");
    assert!(matches!(error, DigestError::VerificationFailed(_)));
    verify_manifest_bytes(&manifest, &actual_digest, &Specifier::Digest(actual_digest.clone())).unwrap();
}

#[test]
fn request_paths_and_headers() {
    let reference = Reference::parse("127.0.0.1:8443/test/image:latest").unwrap();
    assert_eq!(manifest_path(&reference), "/v2/test/image/manifests/latest");
    let layer = reference.with_digest("sha256:abc".to_owned());
    assert_eq!(blob_path(&layer), "/v2/test/image/blobs/sha256:abc");
    assert_eq!(registry_url("ghcr.io", "/v2/x"), "https://ghcr.io/v2/x");
    assert_eq!(
        accept_header(true),
        "application/vnd.oci.image.index.v1+json, \
application/vnd.docker.distribution.manifest.list.v2+json, \
application/vnd.oci.image.manifest.v1+json, \
application/vnd.docker.distribution.manifest.v2+json"
    );
    assert_eq!(
        accept_header(false),
        "application/vnd.oci.image.manifest.v1+json, application/vnd.docker.distribution.manifest.v2+json"
    );
}

#[test]
fn classifies_content_types() {
    assert_eq!(ManifestMediaType::parse_headers(Some(MANIFEST_MEDIA_TYPE)), ManifestMediaType::Manifest);
    assert_eq!(
        ManifestMediaType::parse_headers(Some("application/vnd.oci.image.index.v1+json; charset=utf-8")),
        ManifestMediaType::Index
    );
    assert_eq!(ManifestMediaType::parse_headers(Some("application/json")), ManifestMediaType::Unknown);
    assert_eq!(ManifestMediaType::parse_headers(None), ManifestMediaType::Unknown);
}

fn descriptor(digest: &str, media_type: &str, platform: Option<(&str, &str)>) -> Descriptor {
    Descriptor {
        digest: digest.to_owned(),
        media_type: media_type.to_owned(),
        platform: platform.map(|(os, architecture)| Platform { os: os.to_owned(), architecture: architecture.to_owned() }),
    }
}

#[test]
fn layer_actions() {
    let gz = descriptor("sha256:l", "application/vnd.oci.image.layer.v1.tar+gzip", None);
    assert_eq!(layer_action(&gz, false), LayerAction::Fetch);
    assert_eq!(layer_action(&gz, true), LayerAction::AlreadyExtracted);
    let plain = descriptor("sha256:l", "application/vnd.oci.image.layer.v1.tar", None);
    assert_eq!(layer_action(&plain, false), LayerAction::Fetch);
    assert_eq!(layer_action(&plain, true), LayerAction::AlreadyExtracted);
    let docker = descriptor("sha256:l", "application/vnd.docker.image.rootfs.diff.tar.gzip", None);
    assert_eq!(layer_action(&docker, false), LayerAction::Fetch);
    let zstd = descriptor("sha256:l", "application/vnd.oci.image.layer.v1.tar+zstd", None);
    assert_eq!(layer_action(&zstd, false), LayerAction::Unsupported);
    assert_eq!(layer_action(&zstd, true), LayerAction::Unsupported);
}

#[test]
fn image_plans() {
    let plan = image_plan(true, false);
    assert!(!plan.fetch_layers && !plan.write_manifest);
    let plan = image_plan(true, true);
    assert!(plan.fetch_layers && !plan.write_manifest);
    let plan = image_plan(false, false);
    assert!(plan.fetch_layers && plan.write_manifest);
}

#[test]
fn selects_platform_manifest() {
    let index = ImageIndex {
        manifests: vec![
            descriptor("sha256:arm", "", Some(("linux", "arm64"))),
            descriptor("sha256:amd", "", Some(("linux", "amd64"))),
        ],
    };
    assert_eq!(select_manifest(&index, "linux", "x86_64").unwrap(), 1);
    assert_eq!(select_manifest(&index, "linux", "aarch64").unwrap(), 0);
    assert_eq!(select_manifest(&index, "windows", "x86_64").unwrap(), 0);
    assert_eq!(
        select_manifest(&ImageIndex { manifests: vec![] }, "linux", "x86_64").unwrap_err(),
        ManifestError::EmptyIndex
    );
    assert_eq!(normalized_arch("riscv64"), "riscv64");
}

#[test]
fn manifest_schema_must_be_two() {
    assert!(check_schema(&ImageManifest { schema_version: 2, layers: vec![] }).is_ok());
    assert_eq!(
        check_schema(&ImageManifest { schema_version: 1, layers: vec![] }).unwrap_err(),
        ManifestError::UnsupportedSchema
    );
}

#[test]
fn repair_check_counts_problems() {
    let mut check = RepairCheck::new();
    assert!(check.outcome().is_ok());
    check.record_invalid_manifest();
    check.record_missing_layer();
    check.record_missing_layer();
    let error = check.outcome().unwrap_err();
    assert_eq!(error.invalid_manifests, 1);
    assert_eq!(error.missing_layers, 2);
    assert!(error.to_string().starts_with("repair check found: 1 unused invalid manifests, 2 unused missing layers"));
}

#[test]
fn repair_check_sorts_stored_manifests() {
    let layer = |digest: &str| descriptor(digest, "application/vnd.oci.image.layer.v1.tar", None);
    let bytes = b"stored manifest".to_vec();
    let digest = sha256_digest(&bytes);
    let mut check = RepairCheck::new();

    let parsed: Result<ImageManifest, String> = Ok(ImageManifest {
        schema_version: 2,
        layers: vec![layer("sha256:a"), layer("sha256:b"), layer("sha256:c"), layer("sha256:b")],
    });
    let finding = check.check_manifest(&bytes, &digest, &parsed, &vec!["sha256:a".to_owned()]);
    match finding {
        ManifestFinding::Layers { missing } => assert_eq!(missing, vec!["sha256:b", "sha256:c", "sha256:b"]),
        other => panic!("unexpected finding {other:?}"),
    }
    assert_eq!((check.invalid_manifests, check.missing_layers), (0, 3));

    let finding = check.check_manifest(&bytes, &sha256_digest(b"other"), &parsed, &vec![]);
    assert!(matches!(finding, ManifestFinding::FailedVerification(DigestError::VerificationFailed(_))));
    assert_eq!((check.invalid_manifests, check.missing_layers), (1, 3));

    let unparsed: Result<ImageManifest, String> = Err("expected value".to_owned());
    let finding = check.check_manifest(&bytes, &digest, &unparsed, &vec![]);
    assert!(matches!(finding, ManifestFinding::FailedParsing(ref t) if t == "expected value"));
    assert_eq!((check.invalid_manifests, check.missing_layers), (2, 3));

    let sound: Result<ImageManifest, String> = Ok(ImageManifest { schema_version: 2, layers: vec![layer("sha256:a")] });
    let finding = check.check_manifest(&bytes, &digest, &sound, &vec!["sha256:a".to_owned()]);
    assert!(matches!(finding, ManifestFinding::Layers { ref missing } if missing.is_empty()));
    assert_eq!(check.outcome().unwrap_err().to_string().starts_with("repair check found: 2 unused invalid manifests, 3 unused missing layers"), true);
}

#[test]
fn image_fetch_stores_manifest_after_every_layer() {
    let tar = "application/vnd.oci.image.layer.v1.tar";
    let manifest = ImageManifest {
        schema_version: 2,
        layers: vec![descriptor("sha256:a", tar, None), descriptor("sha256:b", tar, None)],
    };
    let fresh = image_plan(false, false);
    assert_eq!(next_image_step(&manifest, fresh, 0, false), ImageStep::FetchLayer(0));
    assert_eq!(next_image_step(&manifest, fresh, 1, true), ImageStep::SkipLayer(1));
    assert_eq!(next_image_step(&manifest, fresh, 2, false), ImageStep::WriteManifest);

    let repair = image_plan(true, true);
    assert_eq!(next_image_step(&manifest, repair, 1, false), ImageStep::FetchLayer(1));
    assert_eq!(next_image_step(&manifest, repair, 2, false), ImageStep::Done);

    let installed = ImagePlan { fetch_layers: false, write_manifest: false };
    assert_eq!(next_image_step(&manifest, installed, 0, false), ImageStep::Done);

    let odd = ImageManifest {
        schema_version: 2,
        layers: vec![descriptor("sha256:a", tar, None), descriptor("sha256:z", "application/x-zip", None)],
    };
    assert_eq!(next_image_step(&odd, fresh, 1, false), ImageStep::UnsupportedLayer(1));
    assert_eq!(next_image_step(&odd, fresh, 1, true), ImageStep::UnsupportedLayer(1));
}
