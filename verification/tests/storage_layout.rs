use pakstak::context::{storage_path_from_env, Context, LayoutError, PathModel};
use pakstak::storage::{
    is_gzip, is_up_to_date, manifest_digest_from_file_name, parse_manifest_digest_file, trim_chars,
    check_installed, check_new_container, update_targets, validate_container, StorageError,
};

fn path(components: &[&str]) -> PathModel {
    PathModel { components: components.iter().map(|s| s.to_string()).collect() }
}

fn components(p: &PathModel) -> Vec<&str> {
    p.components.iter().map(String::as_str).collect()
}

#[test]
fn storage_path_follows_environment_precedence() {
    let home = Some(path(&["/", "home", "u"]));
    let chosen = storage_path_from_env(None, None, home.clone()).unwrap();
    assert_eq!(components(&chosen), vec!["/", "home", "u", ".local", "share", "pakstak"]);
    let chosen = storage_path_from_env(None, Some(path(&["/", "xdg"])), home.clone()).unwrap();
    assert_eq!(components(&chosen), vec!["/", "xdg", "pakstak"]);
    let chosen = storage_path_from_env(None, Some(path(&[])), home.clone()).unwrap();
    assert_eq!(components(&chosen), vec!["/", "home", "u", ".local", "share", "pakstak"]);
    let chosen = storage_path_from_env(Some(path(&["/", "s"])), Some(path(&["/", "xdg"])), home).unwrap();
    assert_eq!(components(&chosen), vec!["/", "s"]);
    assert_eq!(storage_path_from_env(None, None, None).unwrap_err(), LayoutError::HomeNotSet);
}

#[test]
fn storage_layout_paths() {
    let context = Context::new(path(&["/", "st"]));
    assert_eq!(components(&context.temporary_path()), vec!["/", "st", "temporary"]);
    assert_eq!(components(&context.lock_path()), vec!["/", "st", ".lock"]);
    assert_eq!(
        components(&context.manifest_path("sha256:m")),
        vec!["/", "st", "manifests", "sha256:m.json"]
    );
    assert_eq!(components(&context.layer_path("sha256:l")), vec!["/", "st", "layers", "sha256:l"]);
    assert_eq!(
        components(&context.layer_lock_path("sha256:l")),
        vec!["/", "st", "locks", "layers", "sha256:l"]
    );
    assert_eq!(
        components(&context.manifest_digest_path("app")),
        vec!["/", "st", "containers", "app", "manifest_digest"]
    );
    assert_eq!(
        components(&context.reference_path("app")),
        vec!["/", "st", "containers", "app", "reference.json"]
    );
}

#[test]
fn temporary_directory_uses_output_name() {
    let context = Context::new(path(&["/", "st"]));
    let output = context.layer_path("sha256:l");
    let staged = context.temporary_directory_for(&output).unwrap();
    assert_eq!(components(&staged), vec!["/", "st", "temporary", "sha256:l"]);
    assert_eq!(context.temporary_directory_for(&path(&["/"])).unwrap_err(), LayoutError::NoDirectoryName);
    assert_eq!(context.temporary_directory_for(&path(&["a", ".."])).unwrap_err(), LayoutError::NoDirectoryName);
    assert_eq!(
        LayoutError::NoDirectoryName.to_string(),
        "output path does not have a directory name"
    );
}

#[test]
fn temporary_file_uses_output_name() {
    let context = Context::new(path(&["/", "st"]));
    let output = context.manifest_path("sha256:m");
    let staged = context.temporary_file_for(&output).unwrap();
    assert_eq!(components(&staged), vec!["/", "st", "temporary", "sha256:m.json"]);
    assert_eq!(context.temporary_file_for(&path(&["/"])).unwrap_err(), LayoutError::NoFileName);
    assert_eq!(LayoutError::NoFileName.to_string(), "output path does not have a file name");
}

#[test]
fn path_parent_and_file_name() {
    assert_eq!(path(&["/", "a"]).file_name().as_deref(), Some("a"));
    assert!(path(&[]).file_name().is_none());
    assert_eq!(components(&path(&["/", "a"]).parent().unwrap()), vec!["/"]);
    assert!(path(&["/"]).parent().is_none());
    assert!(path(&[]).parent().is_none());
}

#[test]
fn trims_unicode_white_space() {
    assert_eq!(trim_chars("  sha256:x \n"), "sha256:x");
    assert_eq!(trim_chars("\u{3000}a b\u{a0}"), "a b");
    assert_eq!(trim_chars(" \t "), "");
}

#[test]
fn manifest_digest_file_must_not_be_blank() {
    assert_eq!(parse_manifest_digest_file("sha256:abc\n").unwrap(), "sha256:abc");
    assert!(matches!(parse_manifest_digest_file(" \n"), Err(StorageError::EmptyManifestDigest)));
}

#[test]
fn container_names_follow_the_rule() {
    assert!(validate_container("my_app-1.0").is_ok());
    assert!(validate_container("0app").is_ok());
    assert!(matches!(validate_container(""), Err(StorageError::InvalidContainerName(_))));
    assert!(matches!(validate_container(".hidden"), Err(StorageError::InvalidContainerName(_))));
    assert!(matches!(validate_container("a/b"), Err(StorageError::InvalidContainerName(n)) if n == "a/b"));
    assert!(matches!(validate_container("café"), Err(StorageError::InvalidContainerName(_))));
}

#[test]
fn manifest_file_names_carry_digests() {
    assert_eq!(manifest_digest_from_file_name("sha256:m.json").as_deref(), Some("sha256:m"));
    assert_eq!(manifest_digest_from_file_name(".json").as_deref(), Some(""));
    assert!(manifest_digest_from_file_name("sha256:m").is_none());
}

#[test]
fn gzip_magic() {
    assert!(is_gzip(&[0x1f, 0x8b, 0x08]));
    assert!(!is_gzip(&[0x1f]));
    assert!(!is_gzip(b"ustar"));
}

#[test]
fn up_to_date_compares_digests() {
    assert!(is_up_to_date(&"sha256:a".to_string(), &"sha256:a".to_string()));
    assert!(!is_up_to_date(&"sha256:a".to_string(), &"sha256:b".to_string()));
}

#[test]
fn update_targets_requested_or_installed() {
    let s = |v: &[&str]| -> Vec<String> { v.iter().map(|x| x.to_string()).collect() };
    assert_eq!(update_targets(&s(&["b", "a", "b"]), &s(&["x"])).unwrap(), s(&["b", "a"]));
    assert_eq!(update_targets(&s(&[]), &s(&["x", "y"])).unwrap(), s(&["x", "y"]));
    assert!(matches!(
        update_targets(&s(&["ok", "bad/name", ".x"]), &s(&[])),
        Err(StorageError::InvalidContainerName(n)) if n == "bad/name"
    ));
}

#[test]
fn stored_manifest_name_reads_back_as_digest() {
    let context = Context::new(path(&["/", "st"]));
    let stored = context.manifest_path("sha256:abc");
    let name = stored.file_name().unwrap();
    assert_eq!(manifest_digest_from_file_name(&name).as_deref(), Some("sha256:abc"));
}

#[test]
fn container_presence_checks() {
    assert!(check_new_container("app", false).is_ok());
    assert!(matches!(check_new_container("app", true), Err(StorageError::ContainerExists(n)) if n == "app"));
    assert!(matches!(check_new_container("a b", false), Err(StorageError::InvalidContainerName(_))));
    assert!(check_installed("app", true).is_ok());
    let error = check_installed("app", false).unwrap_err();
    assert_eq!(error.to_string(), "container `app` is not installed");
    let error = check_installed("a b", false).unwrap_err();
    assert_eq!(error.to_string(), "container `a b` is not installed");
    assert!(check_installed("a b", true).is_ok());
}
