//! The three static graphs of the model (encoder, processor, decoder): their
//! artifact files, their sender/receiver index arrays, and their node
//! counts.

use vstd::prelude::*;

use crate::error::{is_missing_artifact, is_shape_mismatch, Result, WeatherGraphError};
use crate::features::{
    index_count, index_value_at, index_values_fit, is_first_match, is_index_conversion_error,
    no_match, FeatureBundle, IndexValues, NamedArray,
};
use crate::geometry::{ERA5_NODE_COUNT, H3_NODE_COUNT, TOTAL_NODE_COUNT};
use crate::paths::{file_name_of, join_path, path_file_name, path_join};
use crate::text::{
    concat2, concat3, contains_text, contains_text_spec, decimal, ends_with, join_spec,
    join_strs, lemma_text_le_antisymmetric, lemma_text_le_reflexive, sort_texts, starts_with, str_views, string_views,
    text_le, texts_sorted, usize_to_text,
};

verus! {

/// One of the three static graphs.
#[derive(Debug, Clone, Copy, PartialEq, Eq, Structural)]
pub enum GraphKind {
    Encoder,
    Processor,
    Decoder,
}

/// The name of a graph kind.
pub open spec fn graph_kind_name(kind: GraphKind) -> Seq<char> {
    match kind {
        GraphKind::Encoder => "encoder"@,
        GraphKind::Processor => "processor"@,
        GraphKind::Decoder => "decoder"@,
    }
}

impl GraphKind {
    /// The graph's name: `encoder`, `processor` or `decoder`.
    pub fn as_str(self) -> (r: &'static str)
        ensures
            r@ == graph_kind_name(self),
    {
        match self {
            GraphKind::Encoder => "encoder",
            GraphKind::Processor => "processor",
            GraphKind::Decoder => "decoder",
        }
    }
}

/// Number of nodes of a graph: the processor works on the H3 mesh alone,
/// the encoder and decoder on the ERA5 grid and the mesh together.
pub open spec fn graph_node_count_spec(kind: GraphKind) -> nat {
    match kind {
        GraphKind::Processor => H3_NODE_COUNT as nat,
        _ => TOTAL_NODE_COUNT as nat,
    }
}

/// Number of nodes of the graph of the given kind.
pub fn graph_node_count(kind: GraphKind) -> (r: usize)
    ensures
        r == graph_node_count_spec(kind),
{
    match kind {
        GraphKind::Processor => H3_NODE_COUNT,
        _ => TOTAL_NODE_COUNT,
    }
}

/// File name of the artifact holding a graph's sender and receiver arrays.
pub open spec fn senders_receivers_file_spec(kind: GraphKind) -> Seq<char> {
    "senders_receivers_"@ + graph_kind_name(kind) + ".npz.gz"@
}

/// `senders_receivers_<kind>.npz.gz`.
pub fn senders_receivers_file(kind: GraphKind) -> (r: String)
    ensures
        r@ == senders_receivers_file_spec(kind),
{
    concat3("senders_receivers_", kind.as_str(), ".npz.gz")
}

/// File name of a graph's feature artifact with the given prefix.
pub open spec fn feature_file_name_spec(kind: GraphKind, prefix: Seq<char>) -> Seq<char> {
    prefix + "_"@ + graph_kind_name(kind) + ".npz.gz"@
}

/// Where a graph's feature artifact is looked for first:
/// `<data_dir>/<prefix>_<kind>.npz.gz`.
pub fn preferred_feature_file(data_dir: &str, kind: GraphKind, prefix: &str) -> (r: String)
    ensures
        r@ == path_join(data_dir@, feature_file_name_spec(kind, prefix@)),
{
    let head = concat2(prefix, "_");
    let name = concat3(head.as_str(), kind.as_str(), ".npz.gz");
    join_path(data_dir, name.as_str())
}

/// The array picked for a list of candidate names: for the first candidate
/// that matches an array's stem (up to ASCII case), its first match;
/// otherwise the first array; `None` for a bundle without arrays.
pub open spec fn selected_array_index(
    arrays: Seq<NamedArray>,
    candidates: Seq<Seq<char>>,
) -> Option<int>
    decreases candidates.len(),
{
    if candidates.len() == 0 {
        if arrays.len() > 0 {
            Some(0)
        } else {
            None
        }
    } else if !no_match(arrays, candidates[0]) {
        Some(choose|i: int| is_first_match(arrays, candidates[0], i))
    } else {
        selected_array_index(arrays, candidates.drop_first())
    }
}

proof fn lemma_first_match_unique(arrays: Seq<NamedArray>, candidate: Seq<char>, i: int, j: int)
    requires
        is_first_match(arrays, candidate, i),
        is_first_match(arrays, candidate, j),
    ensures
        i == j,
{
    if i < j {
        assert(!crate::features::stem_matches(arrays[i], candidate));
    } else if j < i {
        assert(!crate::features::stem_matches(arrays[j], candidate));
    }
}

/// Picks an array of a bundle by candidate names: the first match of the
/// first candidate that matches (see `FeatureBundle::get`), or else the
/// bundle's first array. A bundle without arrays is a missing artifact named
/// `array <candidates joined by />` at the bundle's source.
pub fn select_named_array<'a>(bundle: &'a FeatureBundle, candidates: &[&str]) -> (r: Result<
    &'a NamedArray,
>)
    ensures
        r is Ok <==> selected_array_index(bundle.arrays@, str_views(candidates@)) is Some,
        r matches Ok(a) ==> *a == bundle.arrays@[selected_array_index(
            bundle.arrays@,
            str_views(candidates@),
        )->Some_0],
        r matches Err(e) ==> is_missing_artifact(
            e,
            "array "@ + join_spec(str_views(candidates@), "/"@),
            bundle.source@,
        ),
{
    let ghost views = str_views(candidates@);
    assert(views.skip(0) =~= views);
    for c in 0..candidates.len()
        invariant
            views == str_views(candidates@),
            selected_array_index(bundle.arrays@, views) == selected_array_index(
                bundle.arrays@,
                views.skip(c as int),
            ),
    {
        assert(views.skip(c as int)[0] == candidates@[c as int]@);
        match bundle.get(candidates[c]) {
            Ok(i) => {
                proof {
                    let j = choose|j: int| is_first_match(bundle.arrays@, candidates@[c as int]@, j);
                    lemma_first_match_unique(bundle.arrays@, candidates@[c as int]@, i as int, j);
                }
                return Ok(&bundle.arrays[i]);
            },
            Err(_) => {
                assert(views.skip(c as int).drop_first() =~= views.skip(c + 1));
            },
        }
    }
    assert(views.skip(candidates@.len() as int) =~= Seq::<Seq<char>>::empty());
    if bundle.arrays.len() > 0 {
        Ok(&bundle.arrays[0])
    } else {
        let joined = join_strs(candidates, "/");
        Err(
            WeatherGraphError::MissingArtifact {
                name: concat2("array ", joined.as_str()),
                path: bundle.source.clone(),
            },
        )
    }
}

/// The path's final component starts with `prefix` and ends with `.npz.gz`.
pub open spec fn is_feature_candidate(path: Seq<char>, prefix: Seq<char>) -> bool {
    match path_file_name(path) {
        Some(f) => prefix.is_prefix_of(f) && ".npz.gz"@.is_suffix_of(f),
        None => false,
    }
}

/// The first path of `s` whose text contains `p`.
pub open spec fn first_containing(s: Seq<String>, p: Seq<char>) -> Option<String>
    decreases s.len(),
{
    if s.len() == 0 {
        None
    } else if contains_text_spec(s[0]@, p) {
        Some(s[0])
    } else {
        first_containing(s.drop_first(), p)
    }
}

/// The paths whose text does not contain `processor`, in their order.
pub open spec fn non_processor_paths(s: Seq<String>) -> Seq<String> {
    s.filter(|p: String| !contains_text_spec(p@, "processor"@))
}

/// Which of the ascending candidate paths a graph uses when its preferred
/// artifact is absent: for the processor, the first path mentioning
/// `processor`, else the first mentioning `n5882`; for the encoder, the
/// first path not mentioning `processor`; for the decoder, the second such
/// path, or the first when there is only one.
pub open spec fn pick_feature_file(kind: GraphKind, sorted: Seq<String>) -> Option<String> {
    match kind {
        GraphKind::Processor => match first_containing(sorted, "processor"@) {
            Some(p) => Some(p),
            None => first_containing(sorted, "n5882"@),
        },
        GraphKind::Encoder => {
            let t = non_processor_paths(sorted);
            if t.len() > 0 {
                Some(t[0])
            } else {
                None
            }
        },
        GraphKind::Decoder => {
            let t = non_processor_paths(sorted);
            if t.len() > 1 {
                Some(t[1])
            } else if t.len() > 0 {
                Some(t[0])
            } else {
                None
            }
        },
    }
}

/// The outcome of the fallback search over `sorted`, the candidate paths in
/// ascending order.
pub open spec fn fallback_outcome(
    r: Result<String>,
    kind: GraphKind,
    prefix: Seq<char>,
    data_dir: Seq<char>,
    sorted: Seq<String>,
) -> bool {
    match pick_feature_file(kind, sorted) {
        Some(p) => r matches Ok(x) && x@ == p@,
        None => r matches Err(e) && is_missing_artifact(
            e,
            prefix + "_"@ + graph_kind_name(kind),
            data_dir,
        ),
    }
}

fn first_path_containing(s: &Vec<String>, p: &str) -> (r: Option<usize>)
    ensures
        match first_containing(s@, p@) {
            Some(x) => r matches Some(i) && i < s@.len() && s@[i as int] == x,
            None => r is None,
        },
{
    assert(s@.skip(0) =~= s@);
    for i in 0..s.len()
        invariant
            first_containing(s@, p@) == first_containing(s@.skip(i as int), p@),
    {
        assert(s@.skip(i as int)[0] == s@[i as int]);
        if contains_text(s[i].as_str(), p) {
            return Some(i);
        }
        assert(s@.skip(i as int).drop_first() =~= s@.skip(i + 1));
    }
    assert(s@.skip(s@.len() as int) =~= Seq::<String>::empty());
    None
}

fn keep_non_processor(s: &Vec<String>) -> (r: Vec<String>)
    ensures
        r@ == non_processor_paths(s@),
{
    let ghost pred = |p: String| !contains_text_spec(p@, "processor"@);
    let mut kept: Vec<String> = Vec::new();
    for i in 0..s.len()
        invariant
            pred == (|p: String| !contains_text_spec(p@, "processor"@)),
            kept@ == s@.take(i as int).filter(pred),
    {
        assert(s@.take(i + 1) =~= s@.take(i as int).push(s@[i as int]));
        proof {
            s@.take(i as int).lemma_filter_push(s@[i as int], pred);
        }
        if !contains_text(s[i].as_str(), "processor") {
            kept.push(s[i].clone());
        }
    }
    assert(s@.take(s@.len() as int) =~= s@);
    kept
}

/// Finds a graph's feature artifact among the paths `entries` listed from
/// `data_dir` when the preferred file is absent: the paths whose final
/// component starts with `prefix` and ends with `.npz.gz` are put in
/// ascending order and picked from as `pick_feature_file` says. When none
/// fits, a missing artifact named `<prefix>_<kind>` at `data_dir`.
pub fn fallback_feature_file(
    data_dir: &str,
    kind: GraphKind,
    prefix: &str,
    entries: &Vec<String>,
) -> (r: Result<String>)
    ensures
        exists|sorted: Seq<String>|
            {
                &&& texts_sorted(string_views(sorted))
                &&& sorted.to_multiset() == entries@.filter(
                    |p: String| is_feature_candidate(p@, prefix@),
                ).to_multiset()
                &&& fallback_outcome(r, kind, prefix@, data_dir@, sorted)
            },
        kind == GraphKind::Processor && (exists|i: int|
            0 <= i < entries@.len() && is_feature_candidate(entries@[i]@, prefix@)
                && contains_text_spec(#[trigger] entries@[i]@, "processor"@)) ==> (r matches Ok(x)
            && contains_text_spec(x@, "processor"@) && (exists|i: int|
            0 <= i < entries@.len() && is_feature_candidate(entries@[i]@, prefix@)
                && #[trigger] entries@[i]@ == x@) && forall|j: int|
            0 <= j < entries@.len() && is_feature_candidate(entries@[j]@, prefix@)
                && contains_text_spec(#[trigger] entries@[j]@, "processor"@) ==> text_le(
                x@,
                entries@[j]@,
            )),
        kind == GraphKind::Processor && (forall|i: int|
            0 <= i < entries@.len() && is_feature_candidate(entries@[i]@, prefix@)
                ==> !contains_text_spec(#[trigger] entries@[i]@, "processor"@)) && (exists|i: int|
            0 <= i < entries@.len() && is_feature_candidate(entries@[i]@, prefix@)
                && contains_text_spec(#[trigger] entries@[i]@, "n5882"@)) ==> (r matches Ok(x)
            && contains_text_spec(x@, "n5882"@) && (exists|i: int|
            0 <= i < entries@.len() && is_feature_candidate(entries@[i]@, prefix@)
                && #[trigger] entries@[i]@ == x@) && forall|j: int|
            0 <= j < entries@.len() && is_feature_candidate(entries@[j]@, prefix@)
                && contains_text_spec(#[trigger] entries@[j]@, "n5882"@) ==> text_le(
                x@,
                entries@[j]@,
            )),
        kind == GraphKind::Processor && (forall|i: int|
            0 <= i < entries@.len() && is_feature_candidate(entries@[i]@, prefix@)
                ==> !contains_text_spec(#[trigger] entries@[i]@, "processor"@)
                && !contains_text_spec(entries@[i]@, "n5882"@)) ==> r is Err,
        kind == GraphKind::Encoder && (exists|i: int|
            0 <= i < entries@.len() && is_feature_candidate(entries@[i]@, prefix@)
                && !contains_text_spec(#[trigger] entries@[i]@, "processor"@)) ==> (r matches Ok(x)
            && !contains_text_spec(x@, "processor"@) && (exists|i: int|
            0 <= i < entries@.len() && is_feature_candidate(entries@[i]@, prefix@)
                && #[trigger] entries@[i]@ == x@) && forall|j: int|
            0 <= j < entries@.len() && is_feature_candidate(entries@[j]@, prefix@)
                && !contains_text_spec(#[trigger] entries@[j]@, "processor"@) ==> text_le(
                x@,
                entries@[j]@,
            )),
        kind != GraphKind::Processor && (forall|i: int|
            0 <= i < entries@.len() && is_feature_candidate(entries@[i]@, prefix@)
                ==> contains_text_spec(#[trigger] entries@[i]@, "processor"@)) ==> r is Err,
{
    let ghost pred = |p: String| is_feature_candidate(p@, prefix@);
    let mut kept: Vec<String> = Vec::new();
    for i in 0..entries.len()
        invariant
            pred == (|p: String| is_feature_candidate(p@, prefix@)),
            kept@ == entries@.take(i as int).filter(pred),
    {
        assert(entries@.take(i + 1) =~= entries@.take(i as int).push(entries@[i as int]));
        proof {
            entries@.take(i as int).lemma_filter_push(entries@[i as int], pred);
        }
        let keep = match file_name_of(entries[i].as_str()) {
            Some(f) => starts_with(f.as_str(), prefix) && ends_with(f.as_str(), ".npz.gz"),
            None => false,
        };
        if keep {
            kept.push(entries[i].clone());
        }
    }
    assert(entries@.take(entries@.len() as int) =~= entries@);
    let sorted = sort_texts(&kept);
    let picked: Option<usize> = match kind {
        GraphKind::Processor => match first_path_containing(&sorted, "processor") {
            Some(i) => Some(i),
            None => first_path_containing(&sorted, "n5882"),
        },
        _ => None,
    };
    let r = match kind {
        GraphKind::Processor => match picked {
            Some(i) => Ok(sorted[i].clone()),
            None => Err(
                WeatherGraphError::MissingArtifact {
                    name: concat3(prefix, "_", kind.as_str()),
                    path: data_dir.to_owned(),
                },
            ),
        },
        _ => {
            let t = keep_non_processor(&sorted);
            let n = t.len();
            if n == 0 {
                Err(
                    WeatherGraphError::MissingArtifact {
                        name: concat3(prefix, "_", kind.as_str()),
                        path: data_dir.to_owned(),
                    },
                )
            } else if n > 1 && kind == GraphKind::Decoder {
                Ok(t[1].clone())
            } else {
                Ok(t[0].clone())
            }
        },
    };
    assert(fallback_outcome(r, kind, prefix@, data_dir@, sorted@));
    proof {
        lemma_fallback_candidates(entries@, prefix@, sorted@);
        lemma_processor_fallback_prefers_processor(sorted@);
        lemma_encoder_fallback_least_grid_path(sorted@);
        lemma_decoder_fallback_second_grid_path(sorted@);
    }
    r
}

/// The sorted candidates hold exactly the candidate entries.
proof fn lemma_fallback_candidates(entries: Seq<String>, prefix: Seq<char>, sorted: Seq<String>)
    requires
        sorted.to_multiset() == entries.filter(|p: String| is_feature_candidate(p@, prefix)).to_multiset(),
    ensures
        forall|i: int|
            0 <= i < entries.len() && is_feature_candidate(entries[i]@, prefix) ==> sorted.contains(
                #[trigger] entries[i],
            ),
        forall|x: String|
            #[trigger] sorted.contains(x) ==> exists|i: int|
                0 <= i < entries.len() && is_feature_candidate(entries[i]@, prefix) && entries[i]
                    == x,
{
    let pred = |p: String| is_feature_candidate(p@, prefix);
    let f = entries.filter(pred);
    sorted.to_multiset_ensures();
    f.to_multiset_ensures();
    assert forall|i: int|
        0 <= i < entries.len() && is_feature_candidate(entries[i]@, prefix) implies sorted.contains(
            #[trigger] entries[i],
        ) by {
        entries.lemma_filter_contains(pred, i);
        assert(f.contains(entries[i]));
        assert(f.to_multiset().count(entries[i]) > 0);
        assert(sorted.to_multiset().count(entries[i]) > 0);
    }
    assert forall|x: String| #[trigger] sorted.contains(x) implies exists|i: int|
        0 <= i < entries.len() && is_feature_candidate(entries[i]@, prefix) && entries[i] == x by {
        assert(sorted.to_multiset().count(x) > 0);
        assert(f.to_multiset().count(x) > 0);
        assert(f.contains(x));
        entries.lemma_filter_contains_rev(pred, x);
        let j = choose|j: int| 0 <= j < f.len() && f[j] == x;
        entries.lemma_filter_pred(pred, j);
        let i = choose|i: int| 0 <= i < entries.len() && entries[i] == x;
    }
}

/// A static graph: its name, node and edge counts, the sender and receiver
/// node of each edge, and its node and edge feature artifacts.
#[derive(Debug, Clone)]
pub struct StaticGraph {
    pub name: String,
    pub n_nodes: usize,
    pub n_edges: usize,
    pub senders: Vec<u32>,
    pub receivers: Vec<u32>,
    pub node_features: FeatureBundle,
    pub edge_features: FeatureBundle,
}

/// The graph's edges are those of the index arrays, converted to `u32`.
pub open spec fn edges_match(g: StaticGraph, senders: IndexValues, receivers: IndexValues) -> bool {
    &&& g.n_edges == index_count(senders)
    &&& g.senders@.len() == index_count(senders)
    &&& g.receivers@.len() == index_count(receivers)
    &&& forall|i: int| 0 <= i < g.senders@.len() ==> g.senders@[i] == #[trigger] index_value_at(senders, i)
    &&& forall|i: int|
        0 <= i < g.receivers@.len() ==> g.receivers@[i] == #[trigger] index_value_at(receivers, i)
}

/// Builds a graph from its sender and receiver index arrays and feature
/// artifacts. The arrays are converted to `u32` indices, senders first; a
/// conversion error names the array (`senders`, `receivers`). Arrays of
/// different lengths are a shape mismatch named `<kind> senders/receivers`
/// with the sender count expected and the receiver count found.
pub fn assemble_graph(
    kind: GraphKind,
    n_nodes: usize,
    senders: &IndexValues,
    receivers: &IndexValues,
    node_features: FeatureBundle,
    edge_features: FeatureBundle,
) -> (r: Result<StaticGraph>)
    ensures
        r is Ok <==> index_values_fit(*senders) && index_values_fit(*receivers) && index_count(
            *senders,
        ) == index_count(*receivers),
        r matches Ok(g) ==> {
            &&& g.name@ == graph_kind_name(kind)
            &&& g.n_nodes == n_nodes
            &&& edges_match(g, *senders, *receivers)
            &&& g.node_features == node_features
            &&& g.edge_features == edge_features
        },
        r matches Err(e) ==> {
            &&& !index_values_fit(*senders) ==> is_index_conversion_error(e, *senders, "senders"@)
            &&& index_values_fit(*senders) && !index_values_fit(*receivers)
                ==> is_index_conversion_error(e, *receivers, "receivers"@)
            &&& index_values_fit(*senders) && index_values_fit(*receivers) ==> is_shape_mismatch(
                e,
                graph_kind_name(kind) + " senders/receivers"@,
                decimal(index_count(*senders)),
                decimal(index_count(*receivers)),
            )
        },
{
    let sender_ids = match senders.to_u32_vec("senders") {
        Ok(v) => v,
        Err(e) => {
            return Err(e);
        },
    };
    let receiver_ids = match receivers.to_u32_vec("receivers") {
        Ok(v) => v,
        Err(e) => {
            return Err(e);
        },
    };
    if sender_ids.len() != receiver_ids.len() {
        return Err(
            WeatherGraphError::ShapeMismatch {
                name: concat2(kind.as_str(), " senders/receivers"),
                expected: usize_to_text(sender_ids.len()),
                actual: usize_to_text(receiver_ids.len()),
            },
        );
    }
    let n_edges = sender_ids.len();
    Ok(
        StaticGraph {
            name: kind.as_str().to_owned(),
            n_nodes,
            n_edges,
            senders: sender_ids,
            receivers: receiver_ids,
            node_features,
            edge_features,
        },
    )
}

/// The encoder, processor and decoder graphs with the node counts of the
/// ERA5 grid, the H3 mesh and both together.
#[derive(Debug, Clone)]
pub struct GraphSet {
    pub encoder: StaticGraph,
    pub processor: StaticGraph,
    pub decoder: StaticGraph,
    pub n_era5_nodes: usize,
    pub n_h3_nodes: usize,
    pub n_total_nodes: usize,
}

impl GraphSet {
    /// Groups the three graphs with the grid, mesh and total node counts.
    pub fn from_graphs(encoder: StaticGraph, processor: StaticGraph, decoder: StaticGraph) -> (r:
        Self)
        ensures
            r.encoder == encoder,
            r.processor == processor,
            r.decoder == decoder,
            r.n_era5_nodes == ERA5_NODE_COUNT,
            r.n_h3_nodes == H3_NODE_COUNT,
            r.n_total_nodes == TOTAL_NODE_COUNT,
    {
        GraphSet {
            encoder,
            processor,
            decoder,
            n_era5_nodes: ERA5_NODE_COUNT,
            n_h3_nodes: H3_NODE_COUNT,
            n_total_nodes: TOTAL_NODE_COUNT,
        }
    }
}

/// The first path of `s` mentioning `p` is the one at the least index that
/// mentions it; there is none exactly when no path mentions `p`.
proof fn lemma_first_containing_least(s: Seq<String>, p: Seq<char>)
    ensures
        (forall|i: int| 0 <= i < s.len() ==> !contains_text_spec(#[trigger] s[i]@, p))
            ==> first_containing(s, p) is None,
        (exists|i: int| 0 <= i < s.len() && contains_text_spec(#[trigger] s[i]@, p)) ==> exists|
            k: int,
        |
            0 <= k < s.len() && first_containing(s, p) == Some(s[k]) && contains_text_spec(
                #[trigger] s[k]@,
                p,
            ) && forall|j: int| 0 <= j < k ==> !contains_text_spec(#[trigger] s[j]@, p),
    decreases s.len(),
{
    if s.len() > 0 {
        let t = s.drop_first();
        lemma_first_containing_least(t, p);
        if contains_text_spec(s[0]@, p) {
            assert(first_containing(s, p) == Some(s[0]));
        } else {
            assert forall|i: int| 0 <= i < t.len() implies t[i] == s[i + 1] by {}
            if exists|i: int| 0 <= i < s.len() && contains_text_spec(#[trigger] s[i]@, p) {
                let i = choose|i: int| 0 <= i < s.len() && contains_text_spec(#[trigger] s[i]@, p);
                assert(contains_text_spec(t[i - 1]@, p));
                let k = choose|k: int|
                    0 <= k < t.len() && first_containing(t, p) == Some(t[k]) && contains_text_spec(
                        #[trigger] t[k]@,
                        p,
                    ) && forall|j: int| 0 <= j < k ==> !contains_text_spec(#[trigger] t[j]@, p);
                assert forall|j: int| 0 <= j < k + 1 implies !contains_text_spec(
                    #[trigger] s[j]@,
                    p,
                ) by {
                    if j > 0 {
                        assert(s[j] == t[j - 1]);
                    }
                }
                assert(s[k + 1] == t[k]);
            } else {
                assert forall|i: int| 0 <= i < t.len() implies !contains_text_spec(
                    #[trigger] t[i]@,
                    p,
                ) by {
                    assert(t[i] == s[i + 1]);
                }
            }
        }
    }
}

/// In ascending order, the first path mentioning `p` is the least of the
/// paths mentioning `p`.
proof fn lemma_first_containing_is_least(s: Seq<String>, p: Seq<char>)
    requires
        texts_sorted(string_views(s)),
        exists|i: int| 0 <= i < s.len() && contains_text_spec(#[trigger] s[i]@, p),
    ensures
        first_containing(s, p) matches Some(x) && s.contains(x) && contains_text_spec(x@, p)
            && forall|j: int|
            0 <= j < s.len() && contains_text_spec(#[trigger] s[j]@, p) ==> text_le(x@, s[j]@),
{
    lemma_first_containing_least(s, p);
    let k = choose|k: int|
        0 <= k < s.len() && first_containing(s, p) == Some(s[k]) && contains_text_spec(
            #[trigger] s[k]@,
            p,
        ) && forall|j: int| 0 <= j < k ==> !contains_text_spec(#[trigger] s[j]@, p);
    assert(s.contains(s[k]));
    assert forall|j: int| 0 <= j < s.len() && contains_text_spec(#[trigger] s[j]@, p) implies text_le(
        s[k]@,
        s[j]@,
    ) by {
        if j == k {
            lemma_text_le_reflexive(s[k]@);
        } else {
            assert(k < j);
            assert(string_views(s)[k] == s[k]@);
            assert(string_views(s)[j] == s[j]@);
        }
    }
}

/// The processor graph's fallback prefers its own artifact: among candidate
/// paths in ascending order, when some path mentions `processor` the pick is
/// the least of those paths; a path mentioning `n5882` is picked only when
/// none mentions `processor`, and then it is the least path mentioning
/// `n5882`; with neither, nothing is picked.
pub proof fn lemma_processor_fallback_prefers_processor(sorted: Seq<String>)
    requires
        texts_sorted(string_views(sorted)),
    ensures
        (exists|i: int| 0 <= i < sorted.len() && contains_text_spec(#[trigger] sorted[i]@, "processor"@))
            ==> (pick_feature_file(GraphKind::Processor, sorted) matches Some(x) && sorted.contains(x)
            && contains_text_spec(x@, "processor"@) && forall|j: int|
            0 <= j < sorted.len() && contains_text_spec(#[trigger] sorted[j]@, "processor"@)
                ==> text_le(x@, sorted[j]@)),
        (forall|i: int| 0 <= i < sorted.len() ==> !contains_text_spec(#[trigger] sorted[i]@, "processor"@))
            && (exists|i: int| 0 <= i < sorted.len() && contains_text_spec(#[trigger] sorted[i]@, "n5882"@))
            ==> (pick_feature_file(GraphKind::Processor, sorted) matches Some(x) && sorted.contains(x)
            && contains_text_spec(x@, "n5882"@) && forall|j: int|
            0 <= j < sorted.len() && contains_text_spec(#[trigger] sorted[j]@, "n5882"@)
                ==> text_le(x@, sorted[j]@)),
        (forall|i: int|
            0 <= i < sorted.len() ==> !contains_text_spec(#[trigger] sorted[i]@, "processor"@)
                && !contains_text_spec(sorted[i]@, "n5882"@)) ==> pick_feature_file(
            GraphKind::Processor,
            sorted,
        ) is None,
{
    lemma_first_containing_least(sorted, "processor"@);
    lemma_first_containing_least(sorted, "n5882"@);
    if exists|i: int| 0 <= i < sorted.len() && contains_text_spec(#[trigger] sorted[i]@, "processor"@) {
        lemma_first_containing_is_least(sorted, "processor"@);
    }
    if exists|i: int| 0 <= i < sorted.len() && contains_text_spec(#[trigger] sorted[i]@, "n5882"@) {
        lemma_first_containing_is_least(sorted, "n5882"@);
    }
}

/// The first path of `s` whose text does not contain `p`.
spec fn first_without(s: Seq<String>, p: Seq<char>) -> Option<String>
    decreases s.len(),
{
    if s.len() == 0 {
        None
    } else if !contains_text_spec(s[0]@, p) {
        Some(s[0])
    } else {
        first_without(s.drop_first(), p)
    }
}

/// The first of the paths not mentioning `processor` is the first such
/// path of `s`.
proof fn lemma_non_processor_head(s: Seq<String>)
    ensures
        non_processor_paths(s).len() > 0 ==> first_without(s, "processor"@) == Some(
            non_processor_paths(s)[0],
        ),
        non_processor_paths(s).len() == 0 ==> first_without(s, "processor"@) is None,
    decreases s.len(),
{
    let pred = |p: String| !contains_text_spec(p@, "processor"@);
    if s.len() == 0 {
        reveal(Seq::filter);
    } else {
        let rest = s.drop_first();
        assert(s =~= seq![s[0]] + rest);
        rest.lemma_filter_prepend(s[0], pred);
        lemma_non_processor_head(rest);
        if pred(s[0]) {
            assert(non_processor_paths(s)[0] == s[0]);
        } else {
            assert(non_processor_paths(s) =~= non_processor_paths(rest));
        }
    }
}

/// The first path without `p` is at the least index of such a path; there
/// is none exactly when every path contains `p`.
proof fn lemma_first_without_least(s: Seq<String>, p: Seq<char>)
    ensures
        (forall|i: int| 0 <= i < s.len() ==> contains_text_spec(#[trigger] s[i]@, p))
            ==> first_without(s, p) is None,
        (exists|i: int| 0 <= i < s.len() && !contains_text_spec(#[trigger] s[i]@, p)) ==> exists|
            k: int,
        |
            0 <= k < s.len() && first_without(s, p) == Some(s[k]) && !contains_text_spec(
                #[trigger] s[k]@,
                p,
            ) && forall|j: int| 0 <= j < k ==> contains_text_spec(#[trigger] s[j]@, p),
    decreases s.len(),
{
    if s.len() > 0 {
        let t = s.drop_first();
        lemma_first_without_least(t, p);
        if !contains_text_spec(s[0]@, p) {
            assert(first_without(s, p) == Some(s[0]));
        } else {
            assert forall|i: int| 0 <= i < t.len() implies t[i] == s[i + 1] by {}
            if exists|i: int| 0 <= i < s.len() && !contains_text_spec(#[trigger] s[i]@, p) {
                let i = choose|i: int| 0 <= i < s.len() && !contains_text_spec(#[trigger] s[i]@, p);
                assert(!contains_text_spec(t[i - 1]@, p));
                let k = choose|k: int|
                    0 <= k < t.len() && first_without(t, p) == Some(t[k]) && !contains_text_spec(
                        #[trigger] t[k]@,
                        p,
                    ) && forall|j: int| 0 <= j < k ==> contains_text_spec(#[trigger] t[j]@, p);
                assert forall|j: int| 0 <= j < k + 1 implies contains_text_spec(
                    #[trigger] s[j]@,
                    p,
                ) by {
                    if j > 0 {
                        assert(s[j] == t[j - 1]);
                    }
                }
                assert(s[k + 1] == t[k]);
            } else {
                assert forall|i: int| 0 <= i < t.len() implies contains_text_spec(
                    #[trigger] t[i]@,
                    p,
                ) by {
                    assert(t[i] == s[i + 1]);
                }
            }
        }
    }
}

/// The encoder graph's fallback takes the least candidate path that does
/// not mention `processor`, and nothing when every candidate mentions it.
pub proof fn lemma_encoder_fallback_least_grid_path(sorted: Seq<String>)
    requires
        texts_sorted(string_views(sorted)),
    ensures
        (exists|i: int| 0 <= i < sorted.len() && !contains_text_spec(#[trigger] sorted[i]@, "processor"@))
            ==> (pick_feature_file(GraphKind::Encoder, sorted) matches Some(x) && sorted.contains(x)
            && !contains_text_spec(x@, "processor"@) && forall|j: int|
            0 <= j < sorted.len() && !contains_text_spec(#[trigger] sorted[j]@, "processor"@)
                ==> text_le(x@, sorted[j]@)),
        (forall|i: int| 0 <= i < sorted.len() ==> contains_text_spec(#[trigger] sorted[i]@, "processor"@))
            ==> pick_feature_file(GraphKind::Encoder, sorted) is None,
{
    lemma_non_processor_head(sorted);
    lemma_first_without_least(sorted, "processor"@);
    if exists|i: int| 0 <= i < sorted.len() && !contains_text_spec(#[trigger] sorted[i]@, "processor"@) {
        let k = choose|k: int|
            0 <= k < sorted.len() && first_without(sorted, "processor"@) == Some(sorted[k])
                && !contains_text_spec(#[trigger] sorted[k]@, "processor"@) && forall|j: int|
                0 <= j < k ==> contains_text_spec(#[trigger] sorted[j]@, "processor"@);
        assert(sorted.contains(sorted[k]));
        assert forall|j: int|
            0 <= j < sorted.len() && !contains_text_spec(#[trigger] sorted[j]@, "processor"@)
            implies text_le(sorted[k]@, sorted[j]@) by {
            if j == k {
                lemma_text_le_reflexive(sorted[k]@);
            } else {
                assert(k < j);
                assert(string_views(sorted)[k] == sorted[k]@);
                assert(string_views(sorted)[j] == sorted[j]@);
            }
        }
    }
}

/// The paths not mentioning `processor` are the first of them, at index
/// `k`, followed by those after it.
proof fn lemma_non_processor_split(s: Seq<String>, k: int)
    requires
        0 <= k < s.len(),
        !contains_text_spec(s[k]@, "processor"@),
        forall|j: int| 0 <= j < k ==> contains_text_spec(#[trigger] s[j]@, "processor"@),
    ensures
        non_processor_paths(s) == seq![s[k]] + non_processor_paths(s.skip(k + 1)),
{
    let pred = |p: String| !contains_text_spec(p@, "processor"@);
    let head = s.take(k);
    assert(s =~= head + (seq![s[k]] + s.skip(k + 1)));
    Seq::filter_distributes_over_add(head, seq![s[k]] + s.skip(k + 1), pred);
    s.skip(k + 1).lemma_filter_prepend(s[k], pred);
    lemma_non_processor_head(head);
    lemma_first_without_least(head, "processor"@);
    assert forall|i: int| 0 <= i < head.len() implies contains_text_spec(
        #[trigger] head[i]@,
        "processor"@,
    ) by {
        assert(head[i] == s[i]);
    }
    assert(non_processor_paths(head).len() == 0);
}

/// The decoder graph's fallback takes the second candidate path not
/// mentioning `processor` in ascending order: when there are two or more
/// such paths (at different positions), the pick follows one of them, the
/// least, and precedes all the others; a single such path is picked
/// itself; with none, nothing is picked.
pub proof fn lemma_decoder_fallback_second_grid_path(sorted: Seq<String>)
    requires
        texts_sorted(string_views(sorted)),
    ensures
        (exists|a: int, b: int|
            0 <= a < b < sorted.len() && !contains_text_spec(#[trigger] sorted[a]@, "processor"@)
                && !contains_text_spec(#[trigger] sorted[b]@, "processor"@)) ==> (pick_feature_file(
            GraphKind::Decoder,
            sorted,
        ) matches Some(x) && !contains_text_spec(x@, "processor"@) && exists|a: int, b: int|
            0 <= a < b < sorted.len() && #[trigger] sorted[b] == x && !contains_text_spec(
                #[trigger] sorted[a]@,
                "processor"@,
            ) && text_le(sorted[a]@, x@) && forall|j: int|
                0 <= j < sorted.len() && j != a && !contains_text_spec(
                    #[trigger] sorted[j]@,
                    "processor"@,
                ) ==> text_le(x@, sorted[j]@)),
        forall|k: int|
            0 <= k < sorted.len() && !contains_text_spec(#[trigger] sorted[k]@, "processor"@)
                && (forall|j: int|
                0 <= j < sorted.len() && j != k ==> contains_text_spec(
                    #[trigger] sorted[j]@,
                    "processor"@,
                )) ==> pick_feature_file(GraphKind::Decoder, sorted) == Some(sorted[k]),
        (forall|i: int| 0 <= i < sorted.len() ==> contains_text_spec(#[trigger] sorted[i]@, "processor"@))
            ==> pick_feature_file(GraphKind::Decoder, sorted) is None,
{
    let t = non_processor_paths(sorted);
    lemma_non_processor_head(sorted);
    lemma_first_without_least(sorted, "processor"@);
    if exists|i: int| 0 <= i < sorted.len() && !contains_text_spec(#[trigger] sorted[i]@, "processor"@) {
        let k0 = choose|k: int|
            0 <= k < sorted.len() && first_without(sorted, "processor"@) == Some(sorted[k])
                && !contains_text_spec(#[trigger] sorted[k]@, "processor"@) && forall|j: int|
                0 <= j < k ==> contains_text_spec(#[trigger] sorted[j]@, "processor"@);
        let rest = sorted.skip(k0 + 1);
        lemma_non_processor_split(sorted, k0);
        lemma_non_processor_head(rest);
        lemma_first_without_least(rest, "processor"@);
        assert forall|i: int| 0 <= i < rest.len() implies #[trigger] rest[i] == sorted[k0 + 1 + i] by {}
        if exists|a: int, b: int|
            0 <= a < b < sorted.len() && !contains_text_spec(#[trigger] sorted[a]@, "processor"@)
                && !contains_text_spec(#[trigger] sorted[b]@, "processor"@) {
            let (a0, b0) = choose|a: int, b: int|
                0 <= a < b < sorted.len() && !contains_text_spec(#[trigger] sorted[a]@, "processor"@)
                    && !contains_text_spec(#[trigger] sorted[b]@, "processor"@);
            assert(b0 > k0);
            assert(!contains_text_spec(rest[b0 - k0 - 1]@, "processor"@));
            let k1 = choose|k: int|
                0 <= k < rest.len() && first_without(rest, "processor"@) == Some(rest[k])
                    && !contains_text_spec(#[trigger] rest[k]@, "processor"@) && forall|j: int|
                    0 <= j < k ==> contains_text_spec(#[trigger] rest[j]@, "processor"@);
            let b = k0 + 1 + k1;
            assert(t[1] == sorted[b]);
            assert(string_views(sorted)[k0] == sorted[k0]@);
            assert(string_views(sorted)[b] == sorted[b]@);
            assert forall|j: int|
                0 <= j < sorted.len() && j != k0 && !contains_text_spec(
                    #[trigger] sorted[j]@,
                    "processor"@,
                ) implies text_le(sorted[b]@, sorted[j]@) by {
                assert(j > k0);
                assert(rest[j - k0 - 1] == sorted[j]);
                if j == b {
                    lemma_text_le_reflexive(sorted[b]@);
                } else {
                    assert(j - k0 - 1 >= k1);
                    assert(string_views(sorted)[j] == sorted[j]@);
                }
            }
        }
        assert forall|k: int|
            0 <= k < sorted.len() && !contains_text_spec(#[trigger] sorted[k]@, "processor"@)
                && (forall|j: int|
                0 <= j < sorted.len() && j != k ==> contains_text_spec(
                    #[trigger] sorted[j]@,
                    "processor"@,
                )) implies pick_feature_file(GraphKind::Decoder, sorted) == Some(sorted[k]) by {
            assert(k == k0);
            assert forall|i: int| 0 <= i < rest.len() implies contains_text_spec(
                #[trigger] rest[i]@,
                "processor"@,
            ) by {
                assert(rest[i] == sorted[k0 + 1 + i]);
            }
        }
    }
}

/// The grid graphs never fall back to a processor artifact: when the
/// encoder or the decoder picks a file among the candidates, its path does
/// not mention `processor`; the processor's pick always does mention
/// `processor` or `n5882`.
pub proof fn lemma_fallback_respects_graph_kind(kind: GraphKind, sorted: Seq<String>)
    ensures
        pick_feature_file(kind, sorted) matches Some(p) ==> match kind {
            GraphKind::Processor => contains_text_spec(p@, "processor"@) || contains_text_spec(
                p@,
                "n5882"@,
            ),
            _ => !contains_text_spec(p@, "processor"@),
        },
{
    lemma_first_containing_contains(sorted, "processor"@);
    lemma_first_containing_contains(sorted, "n5882"@);
    let pred = |p: String| !contains_text_spec(p@, "processor"@);
    let t = sorted.filter(pred);
    if t.len() > 0 {
        sorted.lemma_filter_pred(pred, 0);
    }
    if t.len() > 1 {
        sorted.lemma_filter_pred(pred, 1);
    }
}

proof fn lemma_first_containing_contains(s: Seq<String>, p: Seq<char>)
    ensures
        first_containing(s, p) matches Some(x) ==> contains_text_spec(x@, p) && s.contains(x),
    decreases s.len(),
{
    if s.len() > 0 && !contains_text_spec(s[0]@, p) {
        lemma_first_containing_contains(s.drop_first(), p);
        match first_containing(s.drop_first(), p) {
            Some(x) => {
                let i = choose|i: int| 0 <= i < s.drop_first().len() && s.drop_first()[i] == x;
                assert(s[i + 1] == x);
            },
            None => {},
        }
    } else if s.len() > 0 {
        assert(s[0] == s[0]);
    }
}

proof fn lemma_filter_to_multiset(s: Seq<String>, p: spec_fn(String) -> bool)
    ensures
        s.filter(p).to_multiset() =~= s.to_multiset().filter(p),
    decreases s.len(),
{
    broadcast use vstd::seq_lib::group_to_multiset_ensures;
    broadcast use vstd::multiset::group_multiset_axioms;

    if s.len() == 0 {
        assert(s.filter(p) =~= Seq::<String>::empty());
        assert(s =~= Seq::<String>::empty());
    } else {
        let t = s.drop_last();
        let x = s.last();
        assert(s =~= t.push(x));
        lemma_filter_to_multiset(t, p);
        t.lemma_filter_push(x, p);
    }
}

proof fn lemma_sorted_remove(s: Seq<Seq<char>>, j: int)
    requires
        texts_sorted(s),
        0 <= j < s.len(),
    ensures
        texts_sorted(s.remove(j)),
{
    let r = s.remove(j);
    assert forall|i: int, k: int| 0 <= i < k < r.len() implies text_le(#[trigger] r[i], #[trigger] r[k]) by {
        let si = if i < j {
            i
        } else {
            i + 1
        };
        let sk = if k < j {
            k
        } else {
            k + 1
        };
        assert(r[i] == s[si] && r[k] == s[sk]);
    }
}

/// Two ascending orders of the same paths list the same texts.
proof fn lemma_sorted_views_unique(a: Seq<String>, b: Seq<String>)
    requires
        texts_sorted(string_views(a)),
        texts_sorted(string_views(b)),
        a.to_multiset() == b.to_multiset(),
    ensures
        string_views(a) == string_views(b),
    decreases a.len(),
{
    broadcast use vstd::seq_lib::group_to_multiset_ensures;

    let va = string_views(a);
    let vb = string_views(b);
    if a.len() == 0 {
        assert(a.to_multiset().len() == 0);
        assert(b.to_multiset().len() == b.len());
    } else {
        assert(a.to_multiset().count(a[0]) > 0) by {
            assert(a.contains(a[0]));
        }
        assert(b.contains(a[0]));
        let j = choose|j: int| 0 <= j < b.len() && b[j] == a[0];
        assert(b.to_multiset().count(b[0]) > 0) by {
            assert(b.contains(b[0]));
        }
        assert(a.contains(b[0]));
        let i = choose|i: int| 0 <= i < a.len() && a[i] == b[0];
        let v0 = va[0];
        assert(va[0] == a[0]@ && vb[j] == a[0]@ && va[i] == b[0]@ && vb[0] == b[0]@);
        if i > 0 {
            assert(text_le(va[0], va[i]));
        } else {
            crate::text::lemma_text_le_reflexive(va[0]);
        }
        if j > 0 {
            assert(text_le(vb[0], vb[j]));
        } else {
            crate::text::lemma_text_le_reflexive(vb[0]);
        }
        lemma_text_le_antisymmetric(va[0], vb[0]);
        let a1 = a.remove(0);
        let b1 = b.remove(j);
        assert(a1.to_multiset() == a.to_multiset().remove(a[0]));
        assert(b1.to_multiset() == b.to_multiset().remove(b[j]));
        assert(string_views(a1) =~= va.remove(0));
        assert(string_views(b1) =~= vb.remove(j));
        lemma_sorted_remove(va, 0);
        lemma_sorted_remove(vb, j);
        lemma_sorted_views_unique(a1, b1);
        assert forall|m: int| 0 <= m <= j implies #[trigger] vb[m] == v0 by {
            if 0 < m && m < j {
                assert(text_le(vb[0], vb[m]));
                assert(text_le(vb[m], vb[j]));
                lemma_text_le_antisymmetric(vb[m], v0);
            }
        }
        assert forall|m: int| 0 <= m < va.len() implies #[trigger] va[m] == vb[m] by {
            if m > 0 {
                assert(va[m] == string_views(a1)[m - 1]);
                assert(string_views(a1)[m - 1] == string_views(b1)[m - 1]);
                if m - 1 < j {
                    assert(string_views(b1)[m - 1] == vb[m - 1]);
                    assert(vb[m - 1] == v0);
                    assert(vb[m] == v0);
                } else {
                    assert(string_views(b1)[m - 1] == vb[m]);
                }
            }
        }
    }
    assert(va =~= vb);
}

proof fn lemma_first_containing_views(a: Seq<String>, b: Seq<String>, p: Seq<char>)
    requires
        string_views(a) == string_views(b),
    ensures
        match (first_containing(a, p), first_containing(b, p)) {
            (Some(x), Some(y)) => x@ == y@,
            (None, None) => true,
            _ => false,
        },
    decreases a.len(),
{
    assert(a.len() == string_views(a).len() && b.len() == string_views(b).len());
    if a.len() > 0 {
        assert(a[0]@ == string_views(a)[0] && b[0]@ == string_views(b)[0]);
        assert(string_views(a.drop_first()) =~= string_views(a).drop_first());
        assert(string_views(b.drop_first()) =~= string_views(b).drop_first());
        lemma_first_containing_views(a.drop_first(), b.drop_first(), p);
    }
}

proof fn lemma_non_processor_views(a: Seq<String>, b: Seq<String>)
    requires
        string_views(a) == string_views(b),
    ensures
        string_views(non_processor_paths(a)) == string_views(non_processor_paths(b)),
{
    let pred = |p: String| !contains_text_spec(p@, "processor"@);
    let vpred = |v: Seq<char>| !contains_text_spec(v, "processor"@);
    vstd::seq_lib::lemma_filter_view_commute(a, pred, vpred);
    vstd::seq_lib::lemma_filter_view_commute(b, pred, vpred);
    assert(string_views(non_processor_paths(a)) =~= a.filter(pred).map_values(|x: String| x.view()));
    assert(string_views(non_processor_paths(b)) =~= b.filter(pred).map_values(|x: String| x.view()));
    assert(a.map_values(|x: String| x.view()) =~= string_views(a));
    assert(b.map_values(|x: String| x.view()) =~= string_views(b));
}

/// The fallback choice of a graph's feature artifact does not depend on the
/// order in which the directory listing gives the paths: for two listings
/// with the same paths, the fallback outcomes agree, file for file.
pub proof fn lemma_fallback_ignores_listing_order(
    kind: GraphKind,
    prefix: Seq<char>,
    first: Seq<String>,
    second: Seq<String>,
    sorted_first: Seq<String>,
    sorted_second: Seq<String>,
)
    requires
        first.to_multiset() == second.to_multiset(),
        texts_sorted(string_views(sorted_first)),
        texts_sorted(string_views(sorted_second)),
        sorted_first.to_multiset() == first.filter(
            |p: String| is_feature_candidate(p@, prefix),
        ).to_multiset(),
        sorted_second.to_multiset() == second.filter(
            |p: String| is_feature_candidate(p@, prefix),
        ).to_multiset(),
    ensures
        match (pick_feature_file(kind, sorted_first), pick_feature_file(kind, sorted_second)) {
            (Some(x), Some(y)) => x@ == y@,
            (None, None) => true,
            _ => false,
        },
{
    let pred = |p: String| is_feature_candidate(p@, prefix);
    lemma_filter_to_multiset(first, pred);
    lemma_filter_to_multiset(second, pred);
    lemma_sorted_views_unique(sorted_first, sorted_second);
    lemma_first_containing_views(sorted_first, sorted_second, "processor"@);
    lemma_first_containing_views(sorted_first, sorted_second, "n5882"@);
    lemma_non_processor_views(sorted_first, sorted_second);
    let t1 = non_processor_paths(sorted_first);
    let t2 = non_processor_paths(sorted_second);
    assert(t1.len() == string_views(t1).len() && t2.len() == string_views(t2).len());
    if t1.len() > 0 {
        assert(t1[0]@ == string_views(t1)[0] && t2[0]@ == string_views(t2)[0]);
    }
    if t1.len() > 1 {
        assert(t1[1]@ == string_views(t1)[1] && t2[1]@ == string_views(t2)[1]);
    }
}

} // verus!
