use pakstak::reference::{Reference, ReferenceError, Specifier};

#[test]
fn rejects_reference_without_registry() {
    let error = Reference::parse("image").unwrap_err();
    assert!(
        error
            .to_string()
            .contains("image reference must include an explicit registry")
    );
}

#[test]
fn rejects_namespace_reference_without_registry() {
    let error = Reference::parse("username/image:latest").unwrap_err();
    assert!(
        error
            .to_string()
            .contains("image reference must include an explicit registry")
    );
}

#[test]
fn parses_explicit_registry_tag() {
    let image = Reference::parse("ghcr.io/org/container:1.2.3").unwrap();
    assert_eq!(image.registry, "ghcr.io");
    assert_eq!(image.repository, "org/container");
    assert_eq!(image.specifier, Specifier::Tag("1.2.3".to_owned()));
}

#[test]
fn parses_digest_reference() {
    let image = Reference::parse("example.com/org/container@sha256:abc").unwrap();
    assert_eq!(image.registry, "example.com");
    assert_eq!(image.repository, "org/container");
    assert_eq!(image.specifier, Specifier::Digest("sha256:abc".to_owned()));
}

#[test]
fn parses_tagged_digest_reference() {
    let image = Reference::parse("example.com/org/container:1.2.3@sha256:abc").unwrap();
    assert_eq!(image.registry, "example.com");
    assert_eq!(image.repository, "org/container");
    assert_eq!(image.specifier, Specifier::Digest("sha256:abc".to_owned()));
}

#[test]
fn formats_tag_reference() {
    let image = Reference::parse("ghcr.io/org/container:1.2.3").unwrap();
    assert_eq!(image.to_string(), "ghcr.io/org/container:1.2.3");
}

#[test]
fn formats_tagged_digest_reference() {
    let image = Reference::parse("example.com/org/container:1.2.3@sha256:abc").unwrap();
    assert_eq!(
        image.to_string(),
        "example.com/org/container:1.2.3@sha256:abc"
    );
}

#[test]
fn defaults_to_latest_tag() {
    let image = Reference::parse("localhost/app").unwrap();
    assert_eq!(image.registry, "localhost");
    assert_eq!(image.repository, "app");
    assert_eq!(image.specifier, Specifier::Tag("latest".to_owned()));
}

#[test]
fn accepts_registry_with_port_and_tag() {
    let image = Reference::parse("localhost:5000/org/app:v1").unwrap();
    assert_eq!(image.registry, "localhost:5000");
    assert_eq!(image.repository, "org/app");
    assert_eq!(image.specifier, Specifier::Tag("v1".to_owned()));
}

#[test]
fn port_without_tag_is_read_as_tag() {
    // The last `:` separates the tag, so a port with no tag leaves no repository.
    assert_eq!(
        Reference::parse("localhost:5000/app").unwrap_err(),
        ReferenceError::MissingRepository
    );
}

#[test]
fn rejects_missing_repository() {
    let error = Reference::parse("ghcr.io").unwrap_err();
    assert_eq!(error, ReferenceError::MissingRepository);
    assert!(error.to_string().contains("image repository is missing"));
}

#[test]
fn rejects_empty_reference() {
    assert_eq!(
        Reference::parse("").unwrap_err(),
        ReferenceError::MissingRegistry
    );
}

#[test]
fn repository_keeps_inner_slashes() {
    let image = Reference::parse("registry.example.test/a//b/c:tag").unwrap();
    assert_eq!(image.repository, "a//b/c");
}

#[test]
fn parse_of_formatted_reference_roundtrips() {
    let image = Reference::parse("example.com/org/container@sha256:abc").unwrap();
    let again = Reference::parse(&image.to_string()).unwrap();
    assert_eq!(again.registry, image.registry);
    assert_eq!(again.repository, image.repository);
    assert_eq!(again.specifier, image.specifier);
}

#[test]
fn typeless_specifier_text() {
    assert_eq!(Specifier::Digest("sha256:abc".to_owned()).as_typeless_str(), "sha256:abc");
    assert_eq!(Specifier::Tag("v2".to_owned()).as_typeless_str(), "v2");
}

#[test]
fn with_digest_keeps_image() {
    let image = Reference::parse("ghcr.io/org/container:1.2.3").unwrap();
    let pinned = image.with_digest("sha256:def".to_owned());
    assert_eq!(pinned.to_string(), "ghcr.io/org/container@sha256:def");
}

#[test]
fn references_with_several_at_signs_read_back() {
    for text in [
        "reg.io/a@b/c:t@x@sha256:d",
        "reg.io/repo:t@x@sha256:d",
        "reg:5000/repo:tag@sha256:d",
        "localhost/repo:tag",
        "reg.io/re:po:tag@sha256:d",
    ] {
        let image = Reference::parse(text).unwrap();
        let again = Reference::parse(&image.to_string()).unwrap();
        assert_eq!(again.registry, image.registry);
        assert_eq!(again.repository, image.repository);
        assert_eq!(again.specifier, image.specifier);
        assert_eq!(again.tag, image.tag);
    }
    let image = Reference::parse("reg.io/repo:t@x@sha256:d").unwrap();
    assert_eq!(image.specifier, Specifier::Digest("sha256:d".to_owned()));
    assert_eq!(image.tag.as_deref(), Some("t@x"));
    assert_eq!(image.to_string(), "reg.io/repo:t@x@sha256:d");
}
