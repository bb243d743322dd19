//! The decisions of the registry client: request paths and headers, how a
//! manifest response is classified and checked, and what to do per layer.
use vstd::prelude::*;
use crate::reference::{Reference, Specifier, SpecifierView};
use crate::digest::{verify_bytes, check_digest, digest_input_limit, DigestError, DigestErrorView};
use crate::manifest::{Descriptor, ImageManifest};
use crate::text::chars_of;

verus! {

/// The OCI image manifest media type.
pub open spec fn oci_manifest_type() -> Seq<char> {
    "application/vnd.oci.image.manifest.v1+json"@
}

/// The Docker image manifest media type.
pub open spec fn docker_manifest_type() -> Seq<char> {
    "application/vnd.docker.distribution.manifest.v2+json"@
}

/// The OCI image index media type.
pub open spec fn oci_index_type() -> Seq<char> {
    "application/vnd.oci.image.index.v1+json"@
}

/// The Docker manifest list media type.
pub open spec fn docker_index_type() -> Seq<char> {
    "application/vnd.docker.distribution.manifest.list.v2+json"@
}

/// The OCI uncompressed layer media type.
pub open spec fn oci_tar_layer_type() -> Seq<char> {
    "application/vnd.oci.image.layer.v1.tar"@
}

/// The OCI gzip layer media type.
pub open spec fn oci_layer_type() -> Seq<char> {
    "application/vnd.oci.image.layer.v1.tar+gzip"@
}

/// The Docker gzip layer media type.
pub open spec fn docker_layer_type() -> Seq<char> {
    "application/vnd.docker.image.rootfs.diff.tar.gzip"@
}

/// What separates the entries of a header list.
pub open spec fn list_separator() -> Seq<char> {
    ", "@
}

/// The `Accept` header of a manifest request: index types first when an
/// index may answer, then manifest types, separated by `, `.
pub open spec fn accept_header_spec(with_index: bool) -> Seq<char> {
    let manifests = oci_manifest_type() + list_separator() + docker_manifest_type();
    if with_index {
        oci_index_type() + list_separator() + docker_index_type() + list_separator() + manifests
    } else {
        manifests
    }
}

/// The `Accept` header of a manifest request.
pub fn accept_header(with_index: bool) -> (s: String)
    ensures
        s@ == accept_header_spec(with_index),
{
    let mut s = String::new();
    if with_index {
        s.push_str("application/vnd.oci.image.index.v1+json");
        s.push_str(", ");
        s.push_str("application/vnd.docker.distribution.manifest.list.v2+json");
        s.push_str(", ");
    }
    s.push_str("application/vnd.oci.image.manifest.v1+json");
    s.push_str(", ");
    s.push_str("application/vnd.docker.distribution.manifest.v2+json");
    s
}

/// Whether `needle` occurs in `hay` at position `i`.
pub open spec fn occurs_at(hay: Seq<char>, needle: Seq<char>, i: int) -> bool {
    0 <= i && i + needle.len() <= hay.len() && hay.subrange(i, i + needle.len()) == needle
}

/// Whether `needle` occurs in `hay`.
pub open spec fn has_substring(hay: Seq<char>, needle: Seq<char>) -> bool {
    exists|i: int| occurs_at(hay, needle, i)
}

/// Whether `needle` occurs in `hay`.
pub fn contains_str(hay: &[char], needle: &[char]) -> (r: bool)
    ensures
        r == has_substring(hay@, needle@),
{
    if needle.len() > hay.len() {
        assert(!exists|i: int| occurs_at(hay@, needle@, i));
        return false;
    }
    if needle.len() == 0 {
        assert(hay@.subrange(0, 0) =~= needle@);
        assert(occurs_at(hay@, needle@, 0));
        return true;
    }
    let last = hay.len() - needle.len();
    let mut i: usize = 0;
    while i <= last
        invariant
            last == hay@.len() - needle@.len(),
            hay@.len() == hay.len(),
            needle@.len() > 0,
            needle@.len() <= hay@.len(),
            i <= last + 1,
            forall|j: int| 0 <= j < i ==> !occurs_at(hay@, needle@, j),
        decreases last + 1 - i,
    {
        if crate::text::chars_equal(hay, i, i + needle.len(), needle) {
            assert(occurs_at(hay@, needle@, i as int));
            return true;
        }
        i = i + 1;
    }
    assert forall|j: int| !occurs_at(hay@, needle@, j) by {
        if 0 <= j < i {
        }
    }
    false
}

/// How a manifest response describes its body.
#[derive(PartialEq, Eq, Debug, Clone, Copy)]
pub enum ManifestMediaType {
    Index,
    Manifest,
    Unknown,
}

/// What a `Content-Type` header says of a manifest response: an index when
/// it names an index type, else a manifest when it names a manifest type,
/// else unknown (also when the header is absent or not text).
pub open spec fn classify_spec(content_type: Option<Seq<char>>) -> ManifestMediaType {
    match content_type {
        None => ManifestMediaType::Unknown,
        Some(t) => if has_substring(t, oci_index_type()) || has_substring(t, docker_index_type()) {
            ManifestMediaType::Index
        } else if has_substring(t, oci_manifest_type()) || has_substring(t, docker_manifest_type()) {
            ManifestMediaType::Manifest
        } else {
            ManifestMediaType::Unknown
        },
    }
}

impl ManifestMediaType {
    /// Classifies a manifest response by its `Content-Type` header, given as
    /// text when it is present and readable.
    pub fn parse_headers(content_type: Option<&str>) -> (r: ManifestMediaType)
        ensures
            r == classify_spec(match content_type {
                Some(t) => Some(t@),
                None => None,
            }),
    {
        let t = match content_type {
            Some(t) => chars_of(t),
            None => {
                return ManifestMediaType::Unknown;
            },
        };
        let oci_index = chars_of("application/vnd.oci.image.index.v1+json");
        let docker_index = chars_of("application/vnd.docker.distribution.manifest.list.v2+json");
        let oci_manifest = chars_of("application/vnd.oci.image.manifest.v1+json");
        let docker_manifest = chars_of("application/vnd.docker.distribution.manifest.v2+json");
        if contains_str(t.as_slice(), oci_index.as_slice()) || contains_str(t.as_slice(), docker_index.as_slice()) {
            ManifestMediaType::Index
        } else if contains_str(t.as_slice(), oci_manifest.as_slice()) || contains_str(
            t.as_slice(),
            docker_manifest.as_slice(),
        ) {
            ManifestMediaType::Manifest
        } else {
            ManifestMediaType::Unknown
        }
    }
}

/// A response whose `Content-Type` names an image index, the OCI index or
/// the Docker manifest list, alone or among other text, is read as an
/// index; one that names only a manifest type is read as a manifest; one
/// that names neither is unknown.
pub proof fn lemma_content_type_kinds(t: Seq<char>, i: int)
    ensures
        occurs_at(t, "application/vnd.oci.image.index.v1+json"@, i) ==> classify_spec(Some(t))
            == ManifestMediaType::Index,
        occurs_at(t, "application/vnd.docker.distribution.manifest.list.v2+json"@, i) ==> classify_spec(Some(t))
            == ManifestMediaType::Index,
        !has_substring(t, "application/vnd.oci.image.index.v1+json"@) && !has_substring(
            t,
            "application/vnd.docker.distribution.manifest.list.v2+json"@,
        ) ==> {
            &&& occurs_at(t, "application/vnd.oci.image.manifest.v1+json"@, i) ==> classify_spec(Some(t))
                == ManifestMediaType::Manifest
            &&& occurs_at(t, "application/vnd.docker.distribution.manifest.v2+json"@, i) ==> classify_spec(
                Some(t),
            ) == ManifestMediaType::Manifest
            &&& !has_substring(t, "application/vnd.oci.image.manifest.v1+json"@) && !has_substring(
                t,
                "application/vnd.docker.distribution.manifest.v2+json"@,
            ) ==> classify_spec(Some(t)) == ManifestMediaType::Unknown
        },
        classify_spec(None) == ManifestMediaType::Unknown,
{
}

/// How a manifest response body is read.
#[derive(PartialEq, Eq, Debug, Clone, Copy)]
pub enum ManifestParsePlan {
    /// As an index, whose entry for this platform is then fetched.
    AsIndex,
    /// As a manifest.
    AsManifest,
    /// As a manifest, and as an index when that fails.
    AsManifestElseIndex,
}

impl ManifestMediaType {
    /// How a body of this media type is read.
    pub fn parse_plan(&self) -> (p: ManifestParsePlan)
        ensures
            *self == ManifestMediaType::Index ==> p == ManifestParsePlan::AsIndex,
            *self == ManifestMediaType::Manifest ==> p == ManifestParsePlan::AsManifest,
            *self == ManifestMediaType::Unknown ==> p == ManifestParsePlan::AsManifestElseIndex,
    {
        match self {
            ManifestMediaType::Index => ManifestParsePlan::AsIndex,
            ManifestMediaType::Manifest => ManifestParsePlan::AsManifest,
            ManifestMediaType::Unknown => ManifestParsePlan::AsManifestElseIndex,
        }
    }
}

/// How a registry request ended.
#[derive(PartialEq, Eq, Debug, Clone, Copy)]
pub enum RequestOutcome {
    /// A successful response.
    Success,
    /// A 401 response.
    Unauthorized,
    /// Any other failure.
    Failure,
}

/// What to do after a registry request.
#[derive(PartialEq, Eq, Debug, Clone, Copy)]
pub enum RequestStep {
    /// Use the response.
    Done,
    /// Answer the challenge of the 401 response, then send the request again.
    Authenticate,
    /// Give up with the failure.
    Fail,
}

/// The retry rule of registry requests: a 401 answer to the first attempt is
/// answered with a token and the request sent once more; any other failure,
/// and any failure of the second attempt, ends it.
pub fn next_request_step(retried: bool, outcome: RequestOutcome) -> (s: RequestStep)
    ensures
        outcome == RequestOutcome::Success ==> s == RequestStep::Done,
        outcome == RequestOutcome::Unauthorized && !retried ==> s == RequestStep::Authenticate,
        outcome == RequestOutcome::Unauthorized && retried ==> s == RequestStep::Fail,
        outcome == RequestOutcome::Failure ==> s == RequestStep::Fail,
{
    match outcome {
        RequestOutcome::Success => RequestStep::Done,
        RequestOutcome::Unauthorized => if retried {
            RequestStep::Fail
        } else {
            RequestStep::Authenticate
        },
        RequestOutcome::Failure => RequestStep::Fail,
    }
}

/// Whether a layer's media type is one that can be unpacked: a plain tar
/// archive or one of the two gzip-compressed ones.
pub open spec fn supported_layer_type(t: Seq<char>) -> bool {
    t == oci_tar_layer_type() || t == oci_layer_type() || t == docker_layer_type()
}

/// What to do with one layer of a manifest.
#[derive(PartialEq, Eq, Debug, Clone, Copy)]
pub enum LayerAction {
    /// The media type cannot be unpacked: fail.
    Unsupported,
    /// The layer is extracted already: skip it.
    AlreadyExtracted,
    /// Fetch and extract the layer.
    Fetch,
}

/// Decides what to do with a layer, given whether it is extracted already.
/// The media type is checked first.
pub fn layer_action(layer: &Descriptor, extracted: bool) -> (r: LayerAction)
    ensures
        !supported_layer_type(layer.media_type@) ==> r == LayerAction::Unsupported,
        supported_layer_type(layer.media_type@) && extracted ==> r == LayerAction::AlreadyExtracted,
        supported_layer_type(layer.media_type@) && !extracted ==> r == LayerAction::Fetch,
{
    let tar = "application/vnd.oci.image.layer.v1.tar".to_owned();
    let oci = "application/vnd.oci.image.layer.v1.tar+gzip".to_owned();
    let docker = "application/vnd.docker.image.rootfs.diff.tar.gzip".to_owned();
    if !(layer.media_type == tar || layer.media_type == oci || layer.media_type == docker) {
        LayerAction::Unsupported
    } else if extracted {
        LayerAction::AlreadyExtracted
    } else {
        LayerAction::Fetch
    }
}

/// What fetching an image does once its manifest is known.
#[derive(PartialEq, Eq, Debug, Clone, Copy)]
pub struct ImagePlan {
    /// Fetch the layers that are missing.
    pub fetch_layers: bool,
    /// Store the manifest after the layers.
    pub write_manifest: bool,
}

/// Plans an image fetch: an image whose manifest is stored is done unless it
/// is being repaired; the manifest is stored only when it was not.
pub fn image_plan(manifest_saved: bool, repair: bool) -> (p: ImagePlan)
    ensures
        p.fetch_layers == (!manifest_saved || repair),
        p.write_manifest == !manifest_saved,
{
    ImagePlan { fetch_layers: !manifest_saved || repair, write_manifest: !manifest_saved }
}

/// The next thing an image fetch does.
#[derive(PartialEq, Eq, Debug, Clone, Copy)]
pub enum ImageStep {
    /// Fetch and extract the layer at this position.
    FetchLayer(usize),
    /// The layer at this position is extracted already: go on.
    SkipLayer(usize),
    /// The layer at this position cannot be unpacked: fail.
    UnsupportedLayer(usize),
    /// Every layer is in place: store the manifest, then stop.
    WriteManifest,
    /// Nothing is left to do.
    Done,
}

/// What an image fetch does once it has handled the layers before
/// `position`, given whether the layer at `position` is extracted already:
/// nothing when the plan fetches no layers; the layers one by one, each as
/// `layer_action` decides; and once past the last layer, the manifest when
/// the plan stores it.
pub open spec fn image_step_spec(
    layers: Seq<Descriptor>,
    plan: ImagePlan,
    position: int,
    extracted: bool,
) -> ImageStep {
    if !plan.fetch_layers {
        ImageStep::Done
    } else if position < layers.len() {
        if !supported_layer_type(layers[position].media_type@) {
            ImageStep::UnsupportedLayer(position as usize)
        } else if extracted {
            ImageStep::SkipLayer(position as usize)
        } else {
            ImageStep::FetchLayer(position as usize)
        }
    } else if plan.write_manifest {
        ImageStep::WriteManifest
    } else {
        ImageStep::Done
    }
}

/// Decides the next step of an image fetch. The manifest is stored only
/// once every layer has been passed, so a stored manifest never names a
/// layer that is not extracted.
pub fn next_image_step(manifest: &ImageManifest, plan: ImagePlan, position: usize, extracted: bool) -> (r: ImageStep)
    ensures
        r == image_step_spec(manifest.layers@, plan, position as int, extracted),
        r == ImageStep::WriteManifest ==> position >= manifest.layers@.len() && plan.fetch_layers
            && plan.write_manifest,
{
    if !plan.fetch_layers {
        ImageStep::Done
    } else if position < manifest.layers.len() {
        match layer_action(&manifest.layers[position], extracted) {
            LayerAction::Unsupported => ImageStep::UnsupportedLayer(position),
            LayerAction::AlreadyExtracted => ImageStep::SkipLayer(position),
            LayerAction::Fetch => ImageStep::FetchLayer(position),
        }
    } else if plan.write_manifest {
        ImageStep::WriteManifest
    } else {
        ImageStep::Done
    }
}

/// How an image fetch walks the layers: nothing when the plan fetches no
/// layers; otherwise each layer in turn, whether or not the manifest is to
/// be stored: a layer of a type that can be unpacked (plain tar, OCI gzip,
/// Docker gzip) is skipped when it is extracted already and fetched when it
/// is not, any other layer is refused; and past the last layer the manifest
/// is stored exactly when the plan says so. A repair therefore fetches no
/// layer that is extracted.
pub proof fn lemma_image_steps(layers: Seq<Descriptor>, plan: ImagePlan, position: int, extracted: bool)
    requires
        0 <= position <= usize::MAX,
    ensures
        !plan.fetch_layers ==> image_step_spec(layers, plan, position, extracted) == ImageStep::Done,
        plan.fetch_layers && position < layers.len() ==> {
            let t = layers[position].media_type@;
            let unpackable = t == "application/vnd.oci.image.layer.v1.tar"@ || t
                == "application/vnd.oci.image.layer.v1.tar+gzip"@ || t
                == "application/vnd.docker.image.rootfs.diff.tar.gzip"@;
            &&& unpackable && extracted ==> image_step_spec(layers, plan, position, extracted)
                == ImageStep::SkipLayer(position as usize)
            &&& unpackable && !extracted ==> image_step_spec(layers, plan, position, extracted)
                == ImageStep::FetchLayer(position as usize)
            &&& !unpackable ==> image_step_spec(layers, plan, position, extracted) == ImageStep::UnsupportedLayer(
                position as usize,
            )
        },
        plan.fetch_layers && position >= layers.len() ==> image_step_spec(layers, plan, position, extracted) == (
        if plan.write_manifest {
            ImageStep::WriteManifest
        } else {
            ImageStep::Done
        }),
{
}

/// The URL of a path on a registry.
pub fn registry_url(registry: &str, path: &str) -> (s: String)
    ensures
        s@ == "https://"@ + registry@ + path@,
{
    let mut s = "https://".to_owned();
    s.push_str(registry);
    s.push_str(path);
    s
}

/// The path of the manifest that a reference selects.
pub fn manifest_path(reference: &Reference) -> (s: String)
    ensures
        s@ == "/v2/"@ + reference.repository@ + "/manifests/"@ + reference.specifier@.text(),
{
    let mut s = "/v2/".to_owned();
    s.push_str(reference.repository.as_str());
    s.push_str("/manifests/");
    s.push_str(reference.specifier.as_typeless_str());
    s
}

/// The path of the blob that a reference selects.
pub fn blob_path(reference: &Reference) -> (s: String)
    ensures
        s@ == "/v2/"@ + reference.repository@ + "/blobs/"@ + reference.specifier@.text(),
{
    let mut s = "/v2/".to_owned();
    s.push_str(reference.repository.as_str());
    s.push_str("/blobs/");
    s.push_str(reference.specifier.as_typeless_str());
    s
}

/// The `Authorization` header for a bearer token.
pub fn bearer_authorization(token: &str) -> (s: String)
    ensures
        s@ == "Bearer "@ + token@,
{
    let mut s = "Bearer ".to_owned();
    s.push_str(token);
    s
}

/// What checking fetched manifest bytes gives: they must have the digest
/// that the registry announced, and the requested digest when the reference
/// pins one.
pub open spec fn check_manifest_spec(
    bytes: Seq<u8>,
    header_digest: Seq<char>,
    specifier: SpecifierView,
) -> Result<(), DigestErrorView> {
    match check_digest(bytes, header_digest) {
        Err(e) => Err(e),
        Ok(()) => match specifier {
            SpecifierView::Digest(d) => check_digest(bytes, d),
            SpecifierView::Tag(_) => Ok(()),
        },
    }
}

/// Checks fetched manifest bytes against the announced digest and the
/// requested one.
pub fn verify_manifest_bytes(bytes: &[u8], header_digest: &str, specifier: &Specifier) -> (r: Result<
    (),
    DigestError,
>)
    requires
        bytes@.len() < digest_input_limit(),
    ensures
        match (r, check_manifest_spec(bytes@, header_digest@, specifier@)) {
            (Ok(()), Ok(())) => true,
            (Err(e), Err(f)) => e@ == f,
            _ => false,
        },
{
    verify_bytes(bytes, header_digest)?;
    match specifier {
        Specifier::Digest(d) => verify_bytes(bytes, d.as_str()),
        Specifier::Tag(_) => Ok(()),
    }
}

} // verus!
