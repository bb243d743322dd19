use pakstak::manifest::{Descriptor, ImageManifest};
use pakstak::prune::{unused, used_layers, used_manifests};

fn manifest(digests: &[&str]) -> ImageManifest {
    ImageManifest {
        schema_version: 2,
        layers: digests
            .iter()
            .map(|d| Descriptor {
                digest: d.to_string(),
                media_type: "application/vnd.oci.image.layer.v1.tar".to_string(),
                platform: None,
            })
            .collect(),
    }
}

fn strings(v: &[&str]) -> Vec<String> {
    v.iter().map(|s| s.to_string()).collect()
}

#[test]
fn prune_preserves_layers_for_active_container_manifest() {
    const ACTIVE_MANIFEST: &str = "sha256:active-manifest";
    const UNUSED_MANIFEST: &str = "sha256:unused-manifest";
    const ACTIVE_LAYERS: [&str; 2] = ["sha256:active-layer-one", "sha256:active-layer-two"];
    const UNUSED_LAYERS: [&str; 2] = ["sha256:unused-layer-one", "sha256:unused-layer-two"];

    let used = used_manifests(&strings(&[ACTIVE_MANIFEST]));
    let removed_manifests = unused(&strings(&[ACTIVE_MANIFEST, UNUSED_MANIFEST]), &used);
    assert_eq!(removed_manifests, strings(&[UNUSED_MANIFEST]));

    let layers = used_layers(&vec![manifest(&ACTIVE_LAYERS)]);
    let stored: Vec<String> = ACTIVE_LAYERS.iter().chain(UNUSED_LAYERS.iter()).map(|s| s.to_string()).collect();
    let removed_layers = unused(&stored, &layers);
    for digest in ACTIVE_LAYERS {
        assert!(
            !removed_layers.iter().any(|d| d == digest),
            "prune removed layer {digest} referenced by the active container manifest"
        );
    }
    for digest in UNUSED_LAYERS {
        assert!(removed_layers.iter().any(|d| d == digest), "prune retained unused layer {digest}");
    }
}

#[test]
fn containers_sharing_a_manifest_use_it_once() {
    let used = used_manifests(&strings(&["m1", "m2", "m1"]));
    assert_eq!(used, strings(&["m1", "m2"]));
}

#[test]
fn layers_shared_by_manifests_are_kept() {
    let layers = used_layers(&vec![manifest(&["a", "b"]), manifest(&["b", "c"])]);
    assert_eq!(layers, strings(&["a", "b", "c"]));
    assert_eq!(unused(&strings(&["d", "c", "a", "e"]), &layers), strings(&["d", "e"]));
}

#[test]
fn nothing_used_removes_everything() {
    assert_eq!(unused(&strings(&["x", "y"]), &vec![]), strings(&["x", "y"]));
}
