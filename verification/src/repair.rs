//! The check of the stored manifests that follows a repair, and its tally.
use vstd::prelude::*;
use crate::text::{decimal, decimal_string, copy_string};
use crate::digest::{verify_bytes, check_digest, digest_input_limit, DigestError, DigestErrorView};
use crate::lists::{texts, remove_all, remove_names};
use crate::manifest::{ImageManifest, digests, layer_digests};

verus! {

/// What a repair check has found so far.
#[derive(Debug, Clone, Copy)]
pub struct RepairCheck {
    pub invalid_manifests: usize,
    pub missing_layers: usize,
}

/// A repair check that found problems: the counts of each kind.
#[derive(Debug, Clone, Copy, PartialEq, Eq)]
pub struct RepairError {
    pub invalid_manifests: usize,
    pub missing_layers: usize,
}

/// The message of a failed repair check.
pub open spec fn repair_message(e: RepairError) -> Seq<char> {
    "repair check found: "@ + decimal(e.invalid_manifests as nat) + " unused invalid manifests, "@ + decimal(
        e.missing_layers as nat,
    ) + " unused missing layers; to prune unused manifests and layers use `prune` command"@
}

impl RepairError {
    /// The message shown for this error.
    pub fn to_string(&self) -> (s: String)
        ensures
            s@ == repair_message(*self),
    {
        let mut s = "repair check found: ".to_owned();
        s.push_str(decimal_string(self.invalid_manifests).as_str());
        s.push_str(" unused invalid manifests, ");
        s.push_str(decimal_string(self.missing_layers).as_str());
        s.push_str(" unused missing layers; to prune unused manifests and layers use `prune` command");
        s
    }
}

/// What checking one stored manifest found.
#[derive(Debug, Clone)]
pub enum ManifestFinding {
    /// Its bytes do not check out against the digest it is stored under.
    FailedVerification(DigestError),
    /// Its bytes do not parse as a manifest; the parser's words.
    FailedParsing(String),
    /// It is sound; of its layers these are not extracted, bottom first, each
    /// as often as the manifest lists it.
    Layers { missing: Vec<String> },
}

/// The abstract value of a [`ManifestFinding`].
pub ghost enum ManifestFindingView {
    FailedVerification(DigestErrorView),
    FailedParsing(Seq<char>),
    Layers(Seq<Seq<char>>),
}

impl View for ManifestFinding {
    type V = ManifestFindingView;

    open spec fn view(&self) -> ManifestFindingView {
        match self {
            ManifestFinding::FailedVerification(e) => ManifestFindingView::FailedVerification(e@),
            ManifestFinding::FailedParsing(t) => ManifestFindingView::FailedParsing(t@),
            ManifestFinding::Layers { missing } => ManifestFindingView::Layers(texts(missing@)),
        }
    }
}

/// The layer digests of a parsed manifest, or the words of the parse failure.
pub open spec fn parsed_layers(parsed: Result<ImageManifest, String>) -> Result<Seq<Seq<char>>, Seq<char>> {
    match parsed {
        Ok(m) => Ok(digests(m.layers@)),
        Err(t) => Err(t@),
    }
}

/// What the check of a stored manifest finds: first whether its bytes have
/// the digest it is stored under, then whether they parse, then which of its
/// layers are not among the extracted ones.
pub open spec fn manifest_finding(
    bytes: Seq<u8>,
    digest: Seq<char>,
    parsed: Result<Seq<Seq<char>>, Seq<char>>,
    extracted: Seq<Seq<char>>,
) -> ManifestFindingView {
    match check_digest(bytes, digest) {
        Err(e) => ManifestFindingView::FailedVerification(e),
        Ok(()) => match parsed {
            Err(t) => ManifestFindingView::FailedParsing(t),
            Ok(layers) => ManifestFindingView::Layers(remove_all(layers, extracted)),
        },
    }
}

/// `n` added to `count`, held at `usize::MAX`.
pub open spec fn saturating_count(count: usize, n: nat) -> usize {
    if count + n <= usize::MAX {
        (count + n) as usize
    } else {
        usize::MAX
    }
}

impl RepairCheck {
    /// Checks the manifest stored under `digest`, given its bytes, what
    /// parsing them gave, and the digests of its layers that are extracted,
    /// and counts what it finds: a manifest that fails verification or
    /// parsing as invalid, each missing layer as missing.
    pub fn check_manifest(
        &mut self,
        bytes: &[u8],
        digest: &str,
        parsed: &Result<ImageManifest, String>,
        extracted: &Vec<String>,
    ) -> (f: ManifestFinding)
        requires
            bytes@.len() < digest_input_limit(),
        ensures
            f@ == manifest_finding(bytes@, digest@, parsed_layers(*parsed), texts(extracted@)),
            final(self).invalid_manifests == match f@ {
                ManifestFindingView::Layers(_) => old(self).invalid_manifests,
                _ => saturating_count(old(self).invalid_manifests, 1),
            },
            final(self).missing_layers == match f@ {
                ManifestFindingView::Layers(missing) => saturating_count(old(self).missing_layers, missing.len()),
                _ => old(self).missing_layers,
            },
    {
        let finding = match verify_bytes(bytes, digest) {
            Err(e) => ManifestFinding::FailedVerification(e),
            Ok(()) => match parsed {
                Err(t) => ManifestFinding::FailedParsing(copy_string(t)),
                Ok(m) => {
                    let layers = layer_digests(m);
                    ManifestFinding::Layers { missing: remove_names(&layers, extracted) }
                },
            },
        };
        match &finding {
            ManifestFinding::Layers { missing } => {
                let n = missing.len();
                if self.missing_layers <= usize::MAX - n {
                    self.missing_layers = self.missing_layers + n;
                } else {
                    self.missing_layers = usize::MAX;
                }
            },
            _ => {
                self.record_invalid_manifest();
            },
        }
        finding
    }


    /// A check that has found nothing.
    pub fn new() -> (c: RepairCheck)
        ensures
            c.invalid_manifests == 0,
            c.missing_layers == 0,
    {
        RepairCheck { invalid_manifests: 0, missing_layers: 0 }
    }

    /// Counts a manifest that failed verification or parsing (saturating).
    pub fn record_invalid_manifest(&mut self)
        ensures
            final(self).invalid_manifests == if old(self).invalid_manifests < usize::MAX {
                old(self).invalid_manifests + 1
            } else {
                old(self).invalid_manifests as int
            },
            final(self).missing_layers == old(self).missing_layers,
    {
        if self.invalid_manifests < usize::MAX {
            self.invalid_manifests = self.invalid_manifests + 1;
        }
    }

    /// Counts a manifest layer that is not extracted (saturating).
    pub fn record_missing_layer(&mut self)
        ensures
            final(self).missing_layers == if old(self).missing_layers < usize::MAX {
                old(self).missing_layers + 1
            } else {
                old(self).missing_layers as int
            },
            final(self).invalid_manifests == old(self).invalid_manifests,
    {
        if self.missing_layers < usize::MAX {
            self.missing_layers = self.missing_layers + 1;
        }
    }

    /// The outcome: success when nothing was found.
    pub fn outcome(&self) -> (r: Result<(), RepairError>)
        ensures
            r is Ok <==> (self.invalid_manifests == 0 && self.missing_layers == 0),
            r matches Err(e) ==> e.invalid_manifests == self.invalid_manifests && e.missing_layers
                == self.missing_layers,
    {
        if self.invalid_manifests > 0 || self.missing_layers > 0 {
            Err(RepairError { invalid_manifests: self.invalid_manifests, missing_layers: self.missing_layers })
        } else {
            Ok(())
        }
    }
}

} // verus!
