//! What pruning removes: stored manifests and extracted layers that no
//! installed container uses.
use vstd::prelude::*;
use crate::lists::{texts, dedup, remove_all, dedup_names, remove_names, lemma_dedup, lemma_remove_all};
use crate::manifest::ImageManifest;
use crate::run::{concat_layers, stack_layers, lemma_concat_layers};

verus! {

/// The manifests that installed containers use, given each container's
/// manifest digest: each digest once.
pub fn used_manifests(container_digests: &Vec<String>) -> (r: Vec<String>)
    ensures
        texts(r@) == dedup(texts(container_digests@)),
{
    dedup_names(container_digests)
}

/// The layers that the used manifests reference, each once.
pub fn used_layers(manifests: &Vec<ImageManifest>) -> (r: Vec<String>)
    ensures
        texts(r@) == dedup(concat_layers(manifests@)),
{
    stack_layers(manifests)
}

/// The stored names to remove: those that are not used, in stored order.
pub fn unused(stored: &Vec<String>, used: &Vec<String>) -> (r: Vec<String>)
    ensures
        texts(r@) == remove_all(texts(stored@), texts(used@)),
{
    remove_names(stored, used)
}

/// Pruning keeps every layer that a used manifest references: with the used
/// layers worked out from the used manifests, no layer of theirs is among
/// the stored layers to remove.
pub proof fn lemma_prune_keeps_referenced_layers(
    used: Seq<ImageManifest>,
    stored_layers: Seq<Seq<char>>,
    i: int,
    j: int,
)
    requires
        0 <= i < used.len(),
        0 <= j < used[i].layers@.len(),
    ensures
        !remove_all(stored_layers, dedup(concat_layers(used))).contains(used[i].layers@[j].digest@),
{
    lemma_concat_layers(used);
    lemma_dedup(concat_layers(used));
    lemma_remove_all(stored_layers, dedup(concat_layers(used)));
    assert(concat_layers(used).contains(used[i].layers@[j].digest@));
}

/// Pruning removes exactly the stored layers that no used manifest
/// references.
pub proof fn lemma_prune_removes_unreferenced_layers(
    used: Seq<ImageManifest>,
    stored_layers: Seq<Seq<char>>,
    x: Seq<char>,
)
    ensures
        remove_all(stored_layers, dedup(concat_layers(used))).contains(x) <==> (stored_layers.contains(x) && !exists|
            i: int,
            j: int,
        | 0 <= i < used.len() && 0 <= j < used[i].layers@.len() && #[trigger] used[i].layers@[j].digest@ == x),
{
    lemma_concat_layers(used);
    lemma_dedup(concat_layers(used));
    lemma_remove_all(stored_layers, dedup(concat_layers(used)));
    if exists|i: int, j: int|
        0 <= i < used.len() && 0 <= j < used[i].layers@.len() && #[trigger] used[i].layers@[j].digest@ == x {
        let (i, j) = choose|i: int, j: int|
            0 <= i < used.len() && 0 <= j < used[i].layers@.len() && #[trigger] used[i].layers@[j].digest@ == x;
        assert(concat_layers(used).contains(used[i].layers@[j].digest@));
    } else {
        if concat_layers(used).contains(x) {
            assert(exists|i: int, j: int|
                0 <= i < used.len() && 0 <= j < used[i].layers@.len() && #[trigger] used[i].layers@[j].digest@ == x);
        }
    }
}

/// Pruning keeps the manifest of every installed container, and removes
/// exactly the stored manifests that no container uses.
pub proof fn lemma_prune_manifests(
    container_digests: Seq<Seq<char>>,
    stored_manifests: Seq<Seq<char>>,
    x: Seq<char>,
)
    ensures
        remove_all(stored_manifests, dedup(container_digests)).contains(x) <==> (stored_manifests.contains(x)
            && !container_digests.contains(x)),
{
    lemma_dedup(container_digests);
    lemma_remove_all(stored_manifests, dedup(container_digests));
}

} // verus!
