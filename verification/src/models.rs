//! Choosing the local language model from an Ollama model store.
//!
//! Manifests are ranked by the model family named in their directory: Llama
//! 3.1 first, then other Llama models, Qwen, Phi and Mistral, then the rest;
//! manifests of equal rank keep the order in which they were found.  From a
//! manifest, the model layer names the blob file that holds the weights.
use crate::json::{array_members, members_of, scalars_view, json_array_members, json_document, member, JsonData, JsonScalar, ScalarView, scalar_rows_view};
use crate::text::{contains, lowercase_of, occurs_at, replace, replace_all, seq_contains, to_lowercase};
use vstd::prelude::*;

verus! {

/// The priority of a model family, from the lowercased directory name.
pub open spec fn priority_of(lower: Seq<char>) -> i32 {
    if seq_contains(lower, "llama3.1"@) {
        100
    } else if seq_contains(lower, "llama"@) {
        80
    } else if seq_contains(lower, "qwen"@) {
        50
    } else if seq_contains(lower, "phi"@) || seq_contains(lower, "mistral"@) {
        30
    } else {
        0
    }
}

/// The priority of a model directory: higher scores are tried first.
pub fn priority_score(model_name: &str) -> (r: i32)
    ensures
        r == priority_of(lowercase_of(model_name@)),
{
    let lowered = to_lowercase(model_name);
    priority_of_lowered(lowered.as_str())
}

/// The priority of a lowercased model directory name.
pub fn priority_of_lowered(l: &str) -> (r: i32)
    ensures
        r == priority_of(l@),
{
    if contains(l, "llama3.1") {
        100
    } else if contains(l, "llama") {
        80
    } else if contains(l, "qwen") {
        50
    } else if contains(l, "phi") || contains(l, "mistral") {
        30
    } else {
        0
    }
}

/// The families in order of preference, each recognised anywhere in the
/// lowercased name: "llama3.1" scores 100; any other name holding "llama"
/// (such as "codellama" or "tinyllama") 80; then "qwen" 50; "phi" or
/// "mistral" 30; everything else 0.
pub proof fn lemma_family_priorities(lower: Seq<char>)
    ensures
        seq_contains(lower, "llama3.1"@) ==> priority_of(lower) == 100,
        !seq_contains(lower, "llama3.1"@) && seq_contains(lower, "llama"@) ==> priority_of(lower)
            == 80,
        !seq_contains(lower, "llama"@) && seq_contains(lower, "qwen"@) ==> priority_of(lower) == 50,
        !seq_contains(lower, "llama"@) && !seq_contains(lower, "qwen"@) && (seq_contains(
            lower,
            "phi"@,
        ) || seq_contains(lower, "mistral"@)) ==> priority_of(lower) == 30,
        !seq_contains(lower, "llama"@) && !seq_contains(lower, "qwen"@) && !seq_contains(
            lower,
            "phi"@,
        ) && !seq_contains(lower, "mistral"@) ==> priority_of(lower) == 0,
{
    if seq_contains(lower, "llama3.1"@) {
        let i = choose|i: int| occurs_at(lower, "llama3.1"@, i);
        reveal_strlit("llama3.1");
        reveal_strlit("llama");
        assert(lower.subrange(i, i + 5) =~= "llama"@);
        assert(occurs_at(lower, "llama"@, i));
    }
}

/// A name that holds "llama" somewhere after other text, at position `i`,
/// is still a Llama model: it scores 80, or 100 for Llama 3.1.
pub proof fn lemma_llama_anywhere(lower: Seq<char>, i: int)
    requires
        occurs_at(lower, "llama"@, i),
    ensures
        priority_of(lower) >= 80,
{
}

/// Candidate `a` is tried before candidate `b`: it has a higher score, or the
/// same score and was found earlier.
pub open spec fn ranked_before(scores: Seq<i32>, a: usize, b: usize) -> bool {
    scores[a as int] > scores[b as int] || (scores[a as int] == scores[b as int] && a < b)
}

/// `order` lists every candidate index exactly once, by descending score,
/// candidates of equal score in the order they were found.
pub open spec fn is_priority_order(scores: Seq<i32>, order: Seq<usize>) -> bool {
    &&& order.len() == scores.len()
    &&& order.no_duplicates()
    &&& forall|k: int| 0 <= k < order.len() ==> #[trigger] order[k] < scores.len()
    &&& forall|k1: int, k2: int|
        0 <= k1 < k2 < order.len() ==> ranked_before(scores, #[trigger] order[k1], #[trigger] order[k2])
}

/// The order in which candidates with the given scores are tried: a stable
/// sort by descending score.
pub fn rank_by_priority(scores: &Vec<i32>) -> (order: Vec<usize>)
    ensures
        is_priority_order(scores@, order@),
{
    let n = scores.len();
    let mut order: Vec<usize> = Vec::new();
    let mut i: usize = 0;
    while i < n
        invariant
            i <= n == scores@.len(),
            order@.len() == i,
            order@.no_duplicates(),
            forall|k: int| 0 <= k < order@.len() ==> #[trigger] order@[k] < i,
            forall|k1: int, k2: int|
                0 <= k1 < k2 < order@.len() ==> ranked_before(
                    scores@,
                    #[trigger] order@[k1],
                    #[trigger] order@[k2],
                ),
        decreases n - i,
    {
        let s = scores[i];
        let mut p: usize = 0;
        while p < order.len() && scores[order[p]] >= s
            invariant
                p <= order@.len() == i,
                i < n == scores@.len(),
                s == scores@[i as int],
                forall|k: int| 0 <= k < order@.len() ==> #[trigger] order@[k] < i,
                forall|k: int| 0 <= k < p ==> scores@[#[trigger] order@[k] as int] >= s,
            decreases order@.len() - p,
        {
            p += 1;
        }
        assert forall|k: int| p <= k < order@.len() implies scores@[#[trigger] order@[k] as int]
            < s by {
            if k > p {
                assert(ranked_before(scores@, order@[p as int], order@[k]));
            }
        }
        let ghost old_order = order@;
        order.insert(p, i);
        assert(order@ == old_order.insert(p as int, i));
        assert forall|k: int| 0 <= k < order@.len() implies #[trigger] order@[k] < i + 1 by {
            if k < p {
                assert(order@[k] == old_order[k]);
            } else if k > p {
                assert(order@[k] == old_order[k - 1]);
            }
        }
        assert forall|k1: int, k2: int| 0 <= k1 < k2 < order@.len() implies ranked_before(
            scores@,
            #[trigger] order@[k1],
            #[trigger] order@[k2],
        ) by {
            let a = if k1 < p {
                k1
            } else {
                k1 - 1
            };
            let b = if k2 < p {
                k2
            } else {
                k2 - 1
            };
            if k1 != p && k2 != p {
                assert(order@[k1] == old_order[a]);
                assert(order@[k2] == old_order[b]);
                assert(ranked_before(scores@, old_order[a], old_order[b]));
            } else if k1 == p {
                assert(order@[k2] == old_order[b]);
                assert(scores@[old_order[b] as int] < s);
            } else {
                assert(order@[k1] == old_order[a]);
                assert(scores@[old_order[a] as int] >= s);
                assert(old_order[a] < i);
            }
        }
        assert forall|k1: int, k2: int| 0 <= k1 < order@.len() && 0 <= k2 < order@.len() && k1
            != k2 implies order@[k1] != order@[k2] by {
            if k1 != p && k2 != p {
                let a = if k1 < p {
                    k1
                } else {
                    k1 - 1
                };
                let b = if k2 < p {
                    k2
                } else {
                    k2 - 1
                };
                assert(order@[k1] == old_order[a]);
                assert(order@[k2] == old_order[b]);
            } else if k1 == p {
                let b = if k2 < p {
                    k2
                } else {
                    k2 - 1
                };
                assert(order@[k2] == old_order[b]);
                assert(old_order[b] < i);
            } else {
                let a = if k1 < p {
                    k1
                } else {
                    k1 - 1
                };
                assert(order@[k1] == old_order[a]);
                assert(old_order[a] < i);
            }
        }
        i += 1;
    }
    order
}

/// A priority order tries every candidate: each index below the number of
/// candidates appears in it.
pub proof fn lemma_priority_order_covers(scores: Seq<i32>, order: Seq<usize>, j: int)
    requires
        is_priority_order(scores, order),
        0 <= j < scores.len(),
    ensures
        exists|k: int| 0 <= k < order.len() && order[k] == j,
{
    let n = scores.len() as int;
    let oi = order.map_values(|x: usize| x as int);
    assert forall|a: int, b: int| 0 <= a < oi.len() && 0 <= b < oi.len() && a != b implies oi[a]
        != oi[b] by {
        assert(order[a] != order[b]);
    }
    assert(oi.no_duplicates());
    oi.unique_seq_to_set();
    vstd::seq_lib::seq_to_set_is_finite(oi);
    vstd::set_lib::lemma_int_range(0, n);
    assert(oi.to_set().subset_of(vstd::set_lib::set_int_range(0, n))) by {
        assert forall|x: int| oi.to_set().contains(x) implies vstd::set_lib::set_int_range(
            0,
            n,
        ).contains(x) by {
            let k = choose|k: int| 0 <= k < oi.len() && oi[k] == x;
            assert(order[k] < scores.len());
        }
    }
    vstd::set_lib::lemma_subset_equality(oi.to_set(), vstd::set_lib::set_int_range(0, n));
    assert(vstd::set_lib::set_int_range(0, n).contains(j));
    assert(oi.to_set().contains(j));
    let k = choose|k: int| 0 <= k < oi.len() && oi[k] == j;
    assert(order[k] == j);
}

/// The first candidate tried has a priority at least as high as every other.
pub proof fn lemma_first_has_top_priority(scores: Seq<i32>, order: Seq<usize>, j: int)
    requires
        is_priority_order(scores, order),
        0 <= j < scores.len(),
    ensures
        scores[order[0] as int] >= scores[j],
{
    lemma_priority_order_covers(scores, order, j);
    let k = choose|k: int| 0 <= k < order.len() && order[k] == j;
    if k > 0 {
        assert(ranked_before(scores, order[0], order[k]));
    }
}

/// The media type of the layer that holds the model weights.
pub open spec fn model_media_type() -> Seq<char> {
    "application/vnd.ollama.image.model"@
}

/// The blob file name of a digest: `sha256:<hex>` is stored as `sha256-<hex>`.
pub open spec fn blob_name_of(digest: Seq<char>) -> Seq<char> {
    replace_all(digest, "sha256:"@, "sha256-"@)
}

/// The blob file name of a digest as the store lays it out on disk.
pub fn blob_file_name(digest: &str) -> (r: String)
    ensures
        r@ == blob_name_of(digest@),
{
    proof {
        reveal_strlit("sha256:");
    }
    replace(digest, "sha256:", "sha256-")
}

/// The blob a layer names, when it is the model layer and carries a digest.
/// The layer is read as its `mediaType` and `digest` members, in this order.
pub open spec fn layer_blob(layer: Seq<ScalarView>) -> Option<Seq<char>> {
    match layer[0] {
        ScalarView::Str(m) => if m == model_media_type() {
            match layer[1] {
                ScalarView::Str(d) => Some(blob_name_of(d)),
                _ => None,
            }
        } else {
            None
        },
        _ => None,
    }
}

/// In a priority order the scores never rise, and candidates of equal score
/// keep the order in which they were found.
pub proof fn lemma_priority_order_is_stable_descending(scores: Seq<i32>, order: Seq<usize>, k1: int, k2: int)
    requires
        is_priority_order(scores, order),
        0 <= k1 < k2 < order.len(),
    ensures
        scores[order[k1] as int] >= scores[order[k2] as int],
        scores[order[k1] as int] == scores[order[k2] as int] ==> order[k1] < order[k2],
{
    assert(ranked_before(scores, order[k1], order[k2]));
}

/// A layer names a blob exactly when its media type is
/// "application/vnd.ollama.image.model" and it has a string digest; the blob
/// is the digest with "sha256:" written as "sha256-".
pub proof fn lemma_model_layer_blob(media: ScalarView, digest: ScalarView)
    ensures
        layer_blob(seq![media, digest]) is Some <==> (media == ScalarView::Str(
            "application/vnd.ollama.image.model"@,
        ) && digest is Str),
        (media == ScalarView::Str("application/vnd.ollama.image.model"@) && digest is Str)
            ==> layer_blob(seq![media, digest]) == Some(
            replace_all(digest->Str_0, "sha256:"@, "sha256-"@),
        ),
{
}

/// The blobs named by a sequence of layers, in order.
pub open spec fn blobs_of_layers(layers: Seq<Seq<ScalarView>>) -> Seq<Seq<char>>
    decreases layers.len(),
{
    if layers.len() == 0 {
        seq![]
    } else {
        blobs_of_layers(layers.drop_last()) + match layer_blob(layers.last()) {
            Some(b) => seq![b],
            None => seq![],
        }
    }
}

/// The members read from each layer of a manifest.
pub open spec fn layer_keys() -> Seq<Seq<char>> {
    seq!["mediaType"@, "digest"@]
}

/// The candidate blob files of a manifest: one per model layer with a digest,
/// in the order of its `layers` array.  None when the manifest does not parse
/// or has no `layers` array.
pub open spec fn manifest_blobs(manifest: Seq<char>) -> Seq<Seq<char>> {
    match array_members(manifest, "layers"@, layer_keys()) {
        Some(layers) => blobs_of_layers(layers),
        None => seq![],
    }
}

/// The blob files a manifest names for its model weights, in order; the
/// first of them that exists on disk is the model to load.
pub fn model_blob_names(manifest: &str) -> (r: Vec<String>)
    ensures
        r.deep_view() == manifest_blobs(manifest@),
{
    let keys = vec!["mediaType".to_string(), "digest".to_string()];
    assert(keys.deep_view() =~= layer_keys());
    match json_array_members(manifest, "layers", &keys) {
        None => {
            let out: Vec<String> = Vec::new();
            assert(out.deep_view() =~= Seq::<Seq<char>>::empty());
            out
        },
        Some(layers) => {
            let ghost lv = scalar_rows_view(layers@);
            proof {
                let d = json_document(manifest@)->0;
                assert(json_document(manifest@) is Some);
                assert(member(d, "layers"@) matches Some(JsonData::Array(_)));
                assert(array_members(manifest@, "layers"@, layer_keys()) == Some(lv));
                let items = member(d, "layers"@)->0->Array_0;
                assert(member(d, "layers"@) == Some(JsonData::Array(items)));
                assert(lv == items.map_values(|it: JsonData| members_of(it, keys.deep_view())));
                assert forall|j: int| 0 <= j < layers@.len() implies (#[trigger] layers@[j])@.len()
                    == 2 by {
                    assert(lv.len() == layers@.len());
                    assert(items.len() == lv.len());
                    assert(lv[j] == scalars_view(layers@[j]@));
                    assert(lv[j] == members_of(items[j], keys.deep_view()));
                    assert(members_of(items[j], keys.deep_view()).len() == 2);
                }
            }
            blobs_from_layers(&layers)
        },
    }
}

/// The blob files named by the layers of a manifest, each read as its
/// `mediaType` and `digest` members: one per model layer with a digest, in order.
pub fn blobs_from_layers(layers: &Vec<Vec<JsonScalar>>) -> (r: Vec<String>)
    requires
        forall|j: int| 0 <= j < layers@.len() ==> (#[trigger] layers@[j])@.len() == 2,
    ensures
        r.deep_view() == blobs_of_layers(scalar_rows_view(layers@)),
{
    let ghost lv = scalar_rows_view(layers@);
    let mut out: Vec<String> = Vec::new();
    let media = "application/vnd.ollama.image.model".to_string();
    let n = layers.len();
    let mut i: usize = 0;
    assert(out.deep_view() =~= blobs_of_layers(lv.take(0)));
    while i < n
        invariant
            i <= n == layers@.len(),
            lv == scalar_rows_view(layers@),
            media@ == model_media_type(),
            forall|j: int| 0 <= j < n ==> (#[trigger] layers@[j])@.len() == 2,
            out.deep_view() == blobs_of_layers(lv.take(i as int)),
        decreases n - i,
    {
        assert(lv.take(i + 1).drop_last() == lv.take(i as int));
        assert(lv.take(i + 1).last() == lv[i as int]);
        let layer = &layers[i];
        let ghost row = lv[i as int];
        assert(row == layer@.map_values(|s: JsonScalar| s@));
        let ghost before = out.deep_view();
        let mut found = false;
        match &layer[0] {
            JsonScalar::Str(m) => {
                if *m == media {
                    match &layer[1] {
                        JsonScalar::Str(d) => {
                            let b = blob_file_name(d.as_str());
                            out.push(b);
                            found = true;
                        },
                        _ => {},
                    }
                }
            },
            _ => {},
        }
        proof {
            if found {
                assert(out.deep_view() == before.push(layer_blob(row)->0));
            } else {
                assert(before + Seq::<Seq<char>>::empty() == before);
            }
        }
        i += 1;
    }
    assert(lv.take(n as int) == lv);
    out
}

} // verus!
