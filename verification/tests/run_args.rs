use pakstak::manifest::{Descriptor, ImageManifest};
use pakstak::run::{bwrap_arguments, check_run_request, stack_layers, RunError};
use pakstak::text::decimal_string;

fn manifest(digests: &[&str]) -> ImageManifest {
    ImageManifest {
        schema_version: 2,
        layers: digests
            .iter()
            .map(|d| Descriptor { digest: d.to_string(), media_type: String::new(), platform: None })
            .collect(),
    }
}

fn strings(v: &[&str]) -> Vec<String> {
    v.iter().map(|s| s.to_string()).collect()
}

fn layer_paths(storage: &str, layers: &[String]) -> Vec<Option<String>> {
    layers.iter().map(|d| Some(format!("{storage}/layers/{d}"))).collect()
}

fn lock_paths(storage: &str, layers: &[String]) -> Vec<String> {
    layers.iter().map(|d| format!("{storage}/locks/layers/{d}")).collect()
}

#[test]
fn bwrap_locks_each_layer_inside_sandbox() {
    let storage = "/storage";
    let layers = stack_layers(&vec![manifest(&["sha256:one", "sha256:two"])]);
    let args = bwrap_arguments(
        &layers,
        &layer_paths(storage, &layers),
        &lock_paths(storage, &layers),
        &strings(&["/bin/sh"]),
    )
    .unwrap();
    let first_lock_mount = args
        .iter()
        .enumerate()
        .position(|(index, arg)| {
            arg == "--ro-bind" && args.get(index + 2).map(String::as_str) == Some("/tmp/.layer_locks/0")
        })
        .expect("bwrap args should mount layer locks inside the sandbox");
    assert_eq!(
        &args[first_lock_mount..],
        &strings(&[
            "--ro-bind",
            "/storage/locks/layers/sha256:one",
            "/tmp/.layer_locks/0",
            "--lock-file",
            "/tmp/.layer_locks/0",
            "--ro-bind",
            "/storage/locks/layers/sha256:two",
            "/tmp/.layer_locks/1",
            "--lock-file",
            "/tmp/.layer_locks/1",
            "/bin/sh",
        ])[..]
    );
}

#[test]
fn bwrap_stacks_containers_in_cli_order() {
    let storage = "/storage";
    let layers = stack_layers(&vec![
        manifest(&["sha256:base-layer"]),
        manifest(&["sha256:runtime-layer-one", "sha256:runtime-layer-two"]),
        manifest(&["sha256:app-layer"]),
    ]);
    let args = bwrap_arguments(
        &layers,
        &layer_paths(storage, &layers),
        &lock_paths(storage, &layers),
        &strings(&["/bin/sh"]),
    )
    .unwrap();
    let overlay_sources: Vec<String> = args
        .windows(2)
        .filter(|window| window[0] == "--overlay-src")
        .map(|window| window[1].clone())
        .collect();
    assert_eq!(
        overlay_sources,
        strings(&[
            "/storage/layers/sha256:base-layer",
            "/storage/layers/sha256:runtime-layer-one",
            "/storage/layers/sha256:runtime-layer-two",
            "/storage/layers/sha256:app-layer",
        ])
    );
}

#[test]
fn single_layer_is_bound_as_root() {
    let layers = strings(&["sha256:only"]);
    let args = bwrap_arguments(
        &layers,
        &vec![Some("/l/only".to_string())],
        &strings(&["/k/only"]),
        &strings(&["/bin/true", "-x"]),
    )
    .unwrap();
    assert_eq!(
        args,
        strings(&[
            "--clearenv", "--unshare-all", "--ro-bind", "/l/only", "/", "--proc", "/proc", "--dev", "/dev",
            "--tmpfs", "/tmp", "--dir", "/tmp/.layer_locks", "--ro-bind", "/k/only", "/tmp/.layer_locks/0",
            "--lock-file", "/tmp/.layer_locks/0", "/bin/true", "-x",
        ])
    );
}

#[test]
fn shared_layers_are_stacked_once() {
    let layers = stack_layers(&vec![
        manifest(&["sha256:a", "sha256:b"]),
        manifest(&["sha256:b", "sha256:c", "sha256:a"]),
    ]);
    assert_eq!(layers, strings(&["sha256:a", "sha256:b", "sha256:c"]));
}

#[test]
fn run_errors() {
    assert!(matches!(check_run_request(&vec![], &strings(&["x"])), Err(RunError::NoContainers)));
    assert!(matches!(check_run_request(&strings(&["c"]), &vec![]), Err(RunError::EmptyCommand)));
    assert!(check_run_request(&strings(&["c"]), &strings(&["x"])).is_ok());
    assert!(matches!(bwrap_arguments(&vec![], &vec![], &vec![], &strings(&["x"])), Err(RunError::NoLayers)));
    let missing = bwrap_arguments(
        &strings(&["sha256:a", "sha256:b", "sha256:c"]),
        &vec![Some("/a".into()), None, None],
        &strings(&["/ka", "/kb", "/kc"]),
        &strings(&["x"]),
    );
    assert!(matches!(missing, Err(RunError::MissingLayer(d)) if d == "sha256:b"));
}

#[test]
fn decimal_numbers() {
    assert_eq!(decimal_string(0), "0");
    assert_eq!(decimal_string(7), "7");
    assert_eq!(decimal_string(10), "10");
    assert_eq!(decimal_string(1234567), "1234567");
}
