//! OCI image manifests and indexes, and the choices made on them.
use vstd::prelude::*;
use crate::lists::texts;

verus! {

/// The platform that an index entry is built for.
#[derive(Debug, Clone)]
pub struct Platform {
    pub architecture: String,
    pub os: String,
}

/// A reference to content by digest, as manifests and indexes list it.
#[derive(Debug, Clone)]
pub struct Descriptor {
    pub digest: String,
    pub media_type: String,
    pub platform: Option<Platform>,
}

/// An image manifest: its schema version and its layers, bottom first.
#[derive(Debug)]
pub struct ImageManifest {
    pub schema_version: u32,
    pub layers: Vec<Descriptor>,
}

/// An image index: one manifest per platform.
#[derive(Debug)]
pub struct ImageIndex {
    pub manifests: Vec<Descriptor>,
}

/// A manifest together with the bytes it was parsed from and their digest.
pub struct FetchedManifest {
    pub manifest: ImageManifest,
    pub bytes: Vec<u8>,
    pub digest: String,
}

/// The digests of a list of descriptors.
pub open spec fn digests(v: Seq<Descriptor>) -> Seq<Seq<char>> {
    v.map_values(|d: Descriptor| d.digest@)
}

/// Why a manifest was refused.
#[derive(PartialEq, Eq, Debug, Clone, Copy)]
pub enum ManifestError {
    /// The schema version is not 2.
    UnsupportedSchema,
    /// The index lists no manifest.
    EmptyIndex,
}

/// The message of a refused manifest.
pub open spec fn manifest_error_message(e: ManifestError) -> Seq<char> {
    match e {
        ManifestError::UnsupportedSchema => "unsupported image manifest schema"@,
        ManifestError::EmptyIndex => "manifest index does not contain any manifests"@,
    }
}

impl ManifestError {
    /// The message shown for this error.
    pub fn to_string(&self) -> (s: String)
        ensures
            s@ == manifest_error_message(*self),
    {
        match self {
            ManifestError::UnsupportedSchema => "unsupported image manifest schema".to_owned(),
            ManifestError::EmptyIndex => "manifest index does not contain any manifests".to_owned(),
        }
    }
}

/// Accepts a manifest of schema version 2 only.
pub fn check_schema(manifest: &ImageManifest) -> (r: Result<(), ManifestError>)
    ensures
        r is Ok <==> manifest.schema_version == 2,
        r is Err ==> r == Err::<(), ManifestError>(ManifestError::UnsupportedSchema),
{
    if manifest.schema_version != 2 {
        Err(ManifestError::UnsupportedSchema)
    } else {
        Ok(())
    }
}

/// The architecture name that image platforms use for a Rust target
/// architecture: `amd64` for `x86_64`, `arm64` for `aarch64`, else the name
/// itself.
pub open spec fn normalized_arch_spec(arch: Seq<char>) -> Seq<char> {
    if arch == "x86_64"@ {
        "amd64"@
    } else if arch == "aarch64"@ {
        "arm64"@
    } else {
        arch
    }
}

/// Maps a Rust target architecture name to the one image platforms use.
pub fn normalized_arch(arch: &str) -> (r: String)
    ensures
        r@ == normalized_arch_spec(arch@),
{
    let a = arch.to_owned();
    let x86 = "x86_64".to_owned();
    let aarch = "aarch64".to_owned();
    if a == x86 {
        "amd64".to_owned()
    } else if a == aarch {
        "arm64".to_owned()
    } else {
        a
    }
}

/// Whether a descriptor is built for the given operating system and target
/// architecture.
pub open spec fn matches_platform(d: Descriptor, os: Seq<char>, arch: Seq<char>) -> bool {
    match d.platform {
        Some(p) => p.os@ == os && p.architecture@ == normalized_arch_spec(arch),
        None => false,
    }
}

impl Descriptor {
    /// Whether this entry is built for the platform this program runs on,
    /// named by its operating system and target architecture.
    pub fn matches_current_platform(&self, current_os: &str, current_arch: &str) -> (r: bool)
        ensures
            r == matches_platform(*self, current_os@, current_arch@),
    {
        match &self.platform {
            Some(platform) => {
                let os = current_os.to_owned();
                let arch = normalized_arch(current_arch);
                platform.os == os && platform.architecture == arch
            },
            None => false,
        }
    }
}

/// `i` is the first entry built for the platform.
pub open spec fn is_first_match(v: Seq<Descriptor>, os: Seq<char>, arch: Seq<char>, i: int) -> bool {
    &&& 0 <= i < v.len()
    &&& matches_platform(v[i], os, arch)
    &&& forall|j: int| 0 <= j < i ==> !matches_platform(v[j], os, arch)
}

/// The entry of an index to install: the first built for the platform,
/// else the first.
pub open spec fn selected_entry(v: Seq<Descriptor>, os: Seq<char>, arch: Seq<char>) -> Option<int> {
    if exists|i: int| is_first_match(v, os, arch, i) {
        Some(choose|i: int| is_first_match(v, os, arch, i))
    } else if v.len() > 0 {
        Some(0)
    } else {
        None
    }
}

/// Whether an entry is built for `os` on the image architecture `arch`, as
/// written in the index.
pub open spec fn built_for(d: Descriptor, os: Seq<char>, arch: Seq<char>) -> bool {
    d.platform matches Some(p) && p.os@ == os && p.architecture@ == arch
}

/// The Rust names of the two common targets select by the image names:
/// running on `aarch64`, an entry for `arm64` matches; on `x86_64`, an entry
/// for `amd64`. Entries written with the Rust name do not match on those
/// targets, and any other target name matches entries written with that
/// very name.
pub proof fn lemma_platform_aliases(d: Descriptor, os: Seq<char>, arch: Seq<char>)
    ensures
        matches_platform(d, os, "aarch64"@) <==> built_for(d, os, "arm64"@),
        matches_platform(d, os, "x86_64"@) <==> built_for(d, os, "amd64"@),
        arch != "aarch64"@ && arch != "x86_64"@ ==> (matches_platform(d, os, arch) <==> built_for(d, os, arch)),
{
    reveal_strlit("aarch64");
    reveal_strlit("x86_64");
    reveal_strlit("arm64");
    reveal_strlit("amd64");
    assert("aarch64"@.len() != "x86_64"@.len());
    assert(normalized_arch_spec("aarch64"@) == "arm64"@);
    assert(normalized_arch_spec("x86_64"@) == "amd64"@);
}

/// On an `aarch64` host the index entry chosen is the first one built for
/// `arm64` on the host's system, and on an `x86_64` host the first one built
/// for `amd64`, whatever comes before them.
pub proof fn lemma_select_by_image_arch(v: Seq<Descriptor>, os: Seq<char>, i: int)
    requires
        0 <= i < v.len(),
    ensures
        built_for(v[i], os, "arm64"@) && (forall|j: int| 0 <= j < i ==> !built_for(v[j], os, "arm64"@))
            ==> selected_entry(v, os, "aarch64"@) == Some(i),
        built_for(v[i], os, "amd64"@) && (forall|j: int| 0 <= j < i ==> !built_for(v[j], os, "amd64"@))
            ==> selected_entry(v, os, "x86_64"@) == Some(i),
{
    lemma_platform_aliases(v[i], os, "arm64"@);
    assert forall|j: int| 0 <= j < v.len() implies (matches_platform(v[j], os, "aarch64"@) <==> built_for(
        v[j],
        os,
        "arm64"@,
    )) && (matches_platform(v[j], os, "x86_64"@) <==> built_for(v[j], os, "amd64"@)) by {
        lemma_platform_aliases(v[j], os, "arm64"@);
    }
    if built_for(v[i], os, "arm64"@) && (forall|j: int| 0 <= j < i ==> !built_for(v[j], os, "arm64"@)) {
        assert(is_first_match(v, os, "aarch64"@, i));
        let k = choose|k: int| is_first_match(v, os, "aarch64"@, k);
        assert(k == i);
    }
    if built_for(v[i], os, "amd64"@) && (forall|j: int| 0 <= j < i ==> !built_for(v[j], os, "amd64"@)) {
        assert(is_first_match(v, os, "x86_64"@, i));
        let k = choose|k: int| is_first_match(v, os, "x86_64"@, k);
        assert(k == i);
    }
}

/// Picks the entry of an index to install.
pub fn select_manifest(index: &ImageIndex, current_os: &str, current_arch: &str) -> (r: Result<usize, ManifestError>)
    ensures
        match selected_entry(index.manifests@, current_os@, current_arch@) {
            Some(i) => r == Ok::<usize, ManifestError>(i as usize),
            None => r == Err::<usize, ManifestError>(ManifestError::EmptyIndex),
        },
{
    let ghost v = index.manifests@;
    let mut i: usize = 0;
    while i < index.manifests.len()
        invariant
            i <= v.len(),
            v == index.manifests@,
            forall|j: int| 0 <= j < i ==> !matches_platform(v[j], current_os@, current_arch@),
        decreases v.len() - i,
    {
        if index.manifests[i].matches_current_platform(current_os, current_arch) {
            proof {
                assert(is_first_match(v, current_os@, current_arch@, i as int));
                let k = choose|k: int| is_first_match(v, current_os@, current_arch@, k);
                assert(k == i);
            }
            return Ok(i);
        }
        i = i + 1;
    }
    assert(!exists|k: int| is_first_match(v, current_os@, current_arch@, k));
    if index.manifests.len() > 0 {
        Ok(0)
    } else {
        Err(ManifestError::EmptyIndex)
    }
}

/// The layer digests of a manifest, bottom first.
pub fn layer_digests(manifest: &ImageManifest) -> (r: Vec<String>)
    ensures
        texts(r@) == digests(manifest.layers@),
{
    let mut r: Vec<String> = Vec::new();
    let mut i: usize = 0;
    while i < manifest.layers.len()
        invariant
            i <= manifest.layers@.len(),
            texts(r@) == digests(manifest.layers@).take(i as int),
        decreases manifest.layers@.len() - i,
    {
        r.push(crate::text::copy_string(&manifest.layers[i].digest));
        assert(digests(manifest.layers@).take(i + 1) == digests(manifest.layers@).take(i as int).push(
            manifest.layers@[i as int].digest@,
        ));
        i = i + 1;
    }
    assert(digests(manifest.layers@).take(i as int) == digests(manifest.layers@));
    r
}

} // verus!
