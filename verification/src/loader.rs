//! Which checkpoint tensors the model's layers are built from: for each
//! projection and perceptron, the key of each parameter found in the
//! checkpoint (through its aliases) or an identity initialisation, with the
//! shape checks that the loaded tensors must pass.

use vstd::prelude::*;

use crate::config::ModelConfig;
use crate::error::{
    is_missing_artifact, is_shape_mismatch, is_unexpected_rank, Result, WeatherGraphError,
};
use crate::model::{
    edge_init_prefixes, entry_found, expected_linear_entries_spec, expected_mlp_entries_spec,
    LOCAL_COORDINATE_WIDTH, param_suffixes,
    expected_weight_entries_spec, hidden_entries_upto, hidden_mlp_entries_spec,
    hidden_mlp_prefixes, inspection_spec, layer_norm_entries_spec, lemma_found_key_present, lemma_lookup_is_entry,
    mlp_layer_entries_spec, metadata_keys, missing_spec, shape_differs, shape_mismatches_spec,
    ExpectedEntryView, WeightInspectionReport, config_dims_fit, encoder_edge_input_dim, encoder_edge_input_dim_spec, candidate_layer_norm_keys, candidate_layer_norm_keys_spec, candidate_param_keys,
    candidate_param_keys_spec, clone_shape, dotted, dotted_text, first_present,
    first_present_index, key_views, layer_key, layer_key_text, layer_name, layer_name_text,
    meta_lookup, metadata_views, mlp_layer_input, mlp_layer_output, TensorMetadata,
    TensorMetadataView,
};
use crate::tensor::{shape_string, shape_text};
use crate::text::{decimal, join_spec, join_strings, str_views, string_views};

verus! {

/// Where the parameters of a linear layer come from.
#[derive(Debug, Clone, PartialEq, Eq)]
pub enum LinearSource {
    /// Checkpoint tensors: the key of the weight and, if present, of the bias.
    Checkpoint { weight: String, bias: Option<String> },
    /// An identity-initialised `[output_dim, input_dim]` weight with a zero bias.
    Identity { input_dim: usize, output_dim: usize },
}

/// Where the parameters of a layer norm come from.
#[derive(Debug, Clone, PartialEq, Eq)]
pub enum LayerNormSource {
    /// Checkpoint tensors: the keys of the scale and of the offset.
    Checkpoint { weight: String, bias: String },
    /// A unit scale and zero offset of the given width.
    Identity { width: usize },
}

/// A checkpoint's tensor list in mathematical form.
pub type MetaView = Seq<(Seq<char>, TensorMetadataView)>;

/// The shape of the tensor stored under the first of `keys` that the
/// checkpoint holds.
pub open spec fn present_shape(keys: Seq<Seq<char>>, mv: MetaView) -> Seq<usize> {
    meta_lookup(mv, first_present(keys, mv)->0)->0.shape
}

/// An optional key names the first present one of the accepted keys, or is
/// absent when none is present.
pub open spec fn optional_key_matches(k: Option<String>, found: Option<Seq<char>>) -> bool {
    match found {
        None => k is None,
        Some(x) => (k matches Some(y) && y@ == x),
    }
}

/// The keys under which the weight of the projection `prefix` is accepted.
pub open spec fn linear_weight_keys(prefix: Seq<char>) -> Seq<Seq<char>> {
    seq![dotted(prefix, "weight"@), dotted(prefix, "w"@)]
}

/// The keys under which the bias of the projection `prefix` is accepted.
pub open spec fn linear_bias_keys(prefix: Seq<char>) -> Seq<Seq<char>> {
    seq![dotted(prefix, "bias"@), dotted(prefix, "b"@)]
}

/// A projection found in the checkpoint has an `[output_dim, input_dim]`
/// weight and, if it has a bias, an `[output_dim]` bias; a projection that is
/// absent is always acceptable.
pub open spec fn linear_ok(prefix: Seq<char>, mv: MetaView, input_dim: usize, output_dim: usize) -> bool {
    let wk = linear_weight_keys(prefix);
    let bk = linear_bias_keys(prefix);
    first_present(wk, mv) is Some ==> {
        &&& present_shape(wk, mv) == seq![output_dim, input_dim]
        &&& first_present(bk, mv) is Some ==> present_shape(bk, mv) == seq![output_dim]
    }
}

/// The error of the first failing check of a projection found in the
/// checkpoint: the weight's rank, its shape, the bias's rank, its shape.
pub open spec fn linear_error(
    e: WeatherGraphError,
    prefix: Seq<char>,
    mv: MetaView,
    input_dim: usize,
    output_dim: usize,
) -> bool {
    let ws = present_shape(linear_weight_keys(prefix), mv);
    let bs = present_shape(linear_bias_keys(prefix), mv);
    if ws.len() != 2 {
        is_unexpected_rank(e, 2, ws)
    } else if ws != seq![output_dim, input_dim] {
        is_shape_mismatch(
            e,
            dotted(prefix, "weight"@),
            shape_text(seq![output_dim, input_dim]),
            shape_text(ws),
        )
    } else if bs.len() != 1 {
        is_unexpected_rank(e, 1, bs)
    } else {
        is_shape_mismatch(e, dotted(prefix, "bias"@), shape_text(seq![output_dim]), shape_text(bs))
    }
}

/// The source of a projection: the found weight and optional bias, or an
/// identity layer of the given dimensions when no weight is present.
pub open spec fn linear_source_matches(
    s: LinearSource,
    prefix: Seq<char>,
    mv: MetaView,
    input_dim: usize,
    output_dim: usize,
) -> bool {
    match first_present(linear_weight_keys(prefix), mv) {
        None => s == LinearSource::Identity { input_dim, output_dim },
        Some(w) => (s matches LinearSource::Checkpoint { weight, bias } && weight@ == w
            && optional_key_matches(bias, first_present(linear_bias_keys(prefix), mv))),
    }
}

/// The shape of the tensor at entry `j` as its own vector.
fn entry_shape(meta: &Vec<(String, TensorMetadata)>, j: usize) -> (r: Vec<usize>)
    requires
        j < meta@.len(),
    ensures
        r@ == meta@[j as int].1.shape@,
{
    clone_shape(&meta[j].1.shape)
}

fn dims2_text(a: usize, b: usize) -> (r: String)
    ensures
        r@ == shape_text(seq![a, b]),
{
    let dims = [a, b];
    assert(dims@ =~= seq![a, b]);
    shape_string(&dims)
}

fn dims1_text(a: usize) -> (r: String)
    ensures
        r@ == shape_text(seq![a]),
{
    let dims = [a];
    assert(dims@ =~= seq![a]);
    shape_string(&dims)
}

/// The source of the projection `prefix` (`<prefix>.weight` or
/// `<prefix>.w`, with `<prefix>.bias` or `<prefix>.b`): the checkpoint's
/// tensors if the weight is present, after checking that the weight is
/// `[output_dim, input_dim]` and a present bias `[output_dim]`; otherwise an
/// identity layer.
pub fn plan_linear_or_identity(
    prefix: &str,
    meta: &Vec<(String, TensorMetadata)>,
    input_dim: usize,
    output_dim: usize,
) -> (r: Result<LinearSource>)
    ensures
        r is Ok <==> linear_ok(prefix@, metadata_views(meta@), input_dim, output_dim),
        r matches Ok(s) ==> linear_source_matches(
            s,
            prefix@,
            metadata_views(meta@),
            input_dim,
            output_dim,
        ),
        r matches Err(e) ==> linear_error(e, prefix@, metadata_views(meta@), input_dim, output_dim),
{
    let ghost mv = metadata_views(meta@);
    let wkeys = vec![dotted_text(prefix, "weight"), dotted_text(prefix, "w")];
    assert(key_views(wkeys@) =~= linear_weight_keys(prefix@));
    let bkeys = vec![dotted_text(prefix, "bias"), dotted_text(prefix, "b")];
    assert(key_views(bkeys@) =~= linear_bias_keys(prefix@));
    match first_present_index(&wkeys, meta) {
        None => Ok(LinearSource::Identity { input_dim, output_dim }),
        Some((c, j)) => {
            let wshape = entry_shape(meta, j);
            if wshape.len() != 2 {
                return Err(WeatherGraphError::UnexpectedRank { rank: 2, shape: wshape });
            }
            if wshape[0] != output_dim || wshape[1] != input_dim {
                assert(wshape@ != seq![output_dim, input_dim]);
                return Err(
                    WeatherGraphError::ShapeMismatch {
                        name: dotted_text(prefix, "weight"),
                        expected: dims2_text(output_dim, input_dim),
                        actual: shape_string(wshape.as_slice()),
                    },
                );
            }
            assert(wshape@ =~= seq![output_dim, input_dim]);
            let bias = match first_present_index(&bkeys, meta) {
                None => None,
                Some((bc, bj)) => {
                    let bshape = entry_shape(meta, bj);
                    if bshape.len() != 1 {
                        return Err(
                            WeatherGraphError::UnexpectedRank { rank: 1, shape: bshape },
                        );
                    }
                    if bshape[0] != output_dim {
                        assert(bshape@ != seq![output_dim]);
                        return Err(
                            WeatherGraphError::ShapeMismatch {
                                name: dotted_text(prefix, "bias"),
                                expected: dims1_text(output_dim),
                                actual: shape_string(bshape.as_slice()),
                            },
                        );
                    }
                    assert(bshape@ =~= seq![output_dim]);
                    Some(bkeys[bc].clone())
                },
            };
            Ok(LinearSource::Checkpoint { weight: wkeys[c].clone(), bias })
        },
    }
}

/// Dimensions of a perceptron: its input, hidden and output widths, its
/// number of hidden layers (it has one layer more) and whether a layer norm
/// follows it.
#[derive(Debug, Clone, Copy, PartialEq, Eq, Structural)]
pub struct MlpDims {
    pub input_dim: usize,
    pub hidden_dim: usize,
    pub output_dim: usize,
    pub hidden_layers: usize,
    pub with_layer_norm: bool,
}

/// Where the layers and the layer norm of a perceptron come from.
#[derive(Debug, Clone)]
pub struct MlpPlan {
    pub layers: Vec<LinearSource>,
    pub layer_norm: Option<LayerNormSource>,
}

/// The keys under which the weight of layer `k` is accepted.
pub open spec fn mlp_weight_keys(prefixes: Seq<Seq<char>>, k: int) -> Seq<Seq<char>> {
    candidate_param_keys_spec(prefixes, layer_name(k as nat), "weight"@)
}

/// The keys under which the bias of layer `k` is accepted.
pub open spec fn mlp_bias_keys(prefixes: Seq<Seq<char>>, k: int) -> Seq<Seq<char>> {
    candidate_param_keys_spec(prefixes, layer_name(k as nat), "bias"@)
}

/// Expected `[output, input]` shape of layer `k`.
pub open spec fn mlp_layer_shape(d: MlpDims, k: int) -> Seq<usize> {
    seq![
        mlp_layer_output(k, d.hidden_layers + 1, d.output_dim, d.hidden_dim),
        mlp_layer_input(k, d.input_dim, d.hidden_dim),
    ]
}

/// Layer `k`'s weight is present and has its expected shape.
pub open spec fn mlp_layer_ok(prefixes: Seq<Seq<char>>, mv: MetaView, d: MlpDims, k: int) -> bool {
    &&& first_present(mlp_weight_keys(prefixes, k), mv) is Some
    &&& present_shape(mlp_weight_keys(prefixes, k), mv) == mlp_layer_shape(d, k)
}

/// Layers `0..n` pass their checks.
pub open spec fn mlp_layers_ok_upto(prefixes: Seq<Seq<char>>, mv: MetaView, d: MlpDims, n: int) -> bool {
    forall|k: int| 0 <= k < n ==> #[trigger] mlp_layer_ok(prefixes, mv, d, k)
}

/// The error of layer `k`'s failing check: a missing weight (named by all
/// its accepted keys joined by ` | `), a weight that is not a matrix, or one
/// of another shape.
pub open spec fn mlp_layer_error(
    e: WeatherGraphError,
    prefixes: Seq<Seq<char>>,
    mv: MetaView,
    d: MlpDims,
    k: int,
) -> bool {
    let wk = mlp_weight_keys(prefixes, k);
    let ws = present_shape(wk, mv);
    if first_present(wk, mv) is None {
        is_missing_artifact(e, join_spec(wk, " | "@), "weights.safetensors"@)
    } else if ws.len() != 2 {
        is_unexpected_rank(e, 2, ws)
    } else {
        is_shape_mismatch(
            e,
            layer_key(prefixes[0], layer_name(k as nat), "weight"@),
            shape_text(mlp_layer_shape(d, k)),
            shape_text(ws),
        )
    }
}

/// The keys under which the layer norm's scale is accepted.
pub open spec fn norm_weight_keys(prefixes: Seq<Seq<char>>) -> Seq<Seq<char>> {
    candidate_layer_norm_keys_spec(prefixes, "weight"@)
}

/// The keys under which the layer norm's offset is accepted.
pub open spec fn norm_bias_keys(prefixes: Seq<Seq<char>>) -> Seq<Seq<char>> {
    candidate_layer_norm_keys_spec(prefixes, "bias"@)
}

/// Both layer-norm tensors are present and have the hidden width.
pub open spec fn norm_ok(prefixes: Seq<Seq<char>>, mv: MetaView, hidden_dim: usize) -> bool {
    &&& first_present(norm_weight_keys(prefixes), mv) is Some
    &&& first_present(norm_bias_keys(prefixes), mv) is Some
    &&& present_shape(norm_weight_keys(prefixes), mv) == seq![hidden_dim]
    &&& present_shape(norm_bias_keys(prefixes), mv) == seq![hidden_dim]
}

/// The error of the layer norm's first failing check: a missing scale, a
/// missing offset, then the scale's rank and width, then the offset's.
pub open spec fn norm_error(
    e: WeatherGraphError,
    prefixes: Seq<Seq<char>>,
    mv: MetaView,
    hidden_dim: usize,
) -> bool {
    let wk = norm_weight_keys(prefixes);
    let bk = norm_bias_keys(prefixes);
    let ws = present_shape(wk, mv);
    let bs = present_shape(bk, mv);
    if first_present(wk, mv) is None {
        is_missing_artifact(e, join_spec(wk, " | "@), "weights.safetensors"@)
    } else if first_present(bk, mv) is None {
        is_missing_artifact(e, join_spec(bk, " | "@), "weights.safetensors"@)
    } else if ws.len() != 1 {
        is_unexpected_rank(e, 1, ws)
    } else if ws[0] != hidden_dim {
        is_shape_mismatch(
            e,
            dotted(prefixes[0], "layer_norm.weight"@),
            shape_text(seq![hidden_dim]),
            shape_text(ws),
        )
    } else if bs.len() != 1 {
        is_unexpected_rank(e, 1, bs)
    } else {
        is_shape_mismatch(
            e,
            dotted(prefixes[0], "layer_norm.bias"@),
            shape_text(seq![hidden_dim]),
            shape_text(bs),
        )
    }
}

/// Every layer and, when there is one, the layer norm pass their checks.
pub open spec fn mlp_ok(prefixes: Seq<Seq<char>>, mv: MetaView, d: MlpDims) -> bool {
    &&& mlp_layers_ok_upto(prefixes, mv, d, d.hidden_layers + 1)
    &&& d.with_layer_norm ==> norm_ok(prefixes, mv, d.hidden_dim)
}

/// `e` is the error of the perceptron's first failing check, in the order
/// layer by layer, then the layer norm.
pub open spec fn mlp_error(e: WeatherGraphError, prefixes: Seq<Seq<char>>, mv: MetaView, d: MlpDims) -> bool {
    ||| exists|k: int|
        0 <= k <= d.hidden_layers && mlp_layers_ok_upto(prefixes, mv, d, k) && !mlp_layer_ok(
            prefixes,
            mv,
            d,
            k,
        ) && #[trigger] mlp_layer_error(e, prefixes, mv, d, k)
    ||| mlp_layers_ok_upto(prefixes, mv, d, d.hidden_layers + 1) && d.with_layer_norm && !norm_ok(
        prefixes,
        mv,
        d.hidden_dim,
    ) && norm_error(e, prefixes, mv, d.hidden_dim)
}

/// A layer's source is the checkpoint's first present weight key and
/// optional bias key.
pub open spec fn checkpoint_layer(
    s: LinearSource,
    wk: Seq<Seq<char>>,
    bk: Seq<Seq<char>>,
    mv: MetaView,
) -> bool {
    s matches LinearSource::Checkpoint { weight, bias } && weight@ == first_present(wk, mv)->0
        && optional_key_matches(bias, first_present(bk, mv))
}

/// The plan takes every layer, and the layer norm if the perceptron has
/// one, from the checkpoint keys found for them.
pub open spec fn mlp_plan_matches(p: MlpPlan, prefixes: Seq<Seq<char>>, mv: MetaView, d: MlpDims) -> bool {
    &&& p.layers@.len() == d.hidden_layers + 1
    &&& forall|k: int|
        0 <= k < p.layers@.len() ==> checkpoint_layer(
            #[trigger] p.layers@[k],
            mlp_weight_keys(prefixes, k),
            mlp_bias_keys(prefixes, k),
            mv,
        )
    &&& if d.with_layer_norm {
        p.layer_norm matches Some(LayerNormSource::Checkpoint { weight, bias }) && weight@
            == first_present(norm_weight_keys(prefixes), mv)->0 && bias@ == first_present(
            norm_bias_keys(prefixes),
            mv,
        )->0
    } else {
        p.layer_norm is None
    }
}

fn missing_weights(keys: &Vec<String>) -> (r: WeatherGraphError)
    ensures
        is_missing_artifact(r, join_spec(key_views(keys@), " | "@), "weights.safetensors"@),
{
    assert(string_views(keys@) =~= key_views(keys@));
    WeatherGraphError::MissingArtifact {
        name: join_strings(keys, " | "),
        path: "weights.safetensors".to_owned(),
    }
}

/// Plans the layer norm of a perceptron: both tensors must be present, the
/// scale checked first, each a vector of the hidden width.
fn plan_layer_norm(prefixes: &[&str], meta: &Vec<(String, TensorMetadata)>, hidden_dim: usize) -> (r:
    Result<LayerNormSource>)
    ensures
        r is Ok <==> norm_ok(str_views(prefixes@), metadata_views(meta@), hidden_dim),
        r matches Ok(src) ==> (src matches LayerNormSource::Checkpoint { weight, bias } && weight@
            == first_present(norm_weight_keys(str_views(prefixes@)), metadata_views(meta@))->0
            && bias@ == first_present(norm_bias_keys(str_views(prefixes@)), metadata_views(meta@))->0),
        r matches Err(e) ==> norm_error(e, str_views(prefixes@), metadata_views(meta@), hidden_dim),
{
    let ghost ps = str_views(prefixes@);
    let wkeys = candidate_layer_norm_keys(prefixes, "weight");
    let bkeys = candidate_layer_norm_keys(prefixes, "bias");
    let (wc, wj) = match first_present_index(&wkeys, meta) {
        Some(found) => found,
        None => {
            return Err(missing_weights(&wkeys));
        },
    };
    let (bc, bj) = match first_present_index(&bkeys, meta) {
        Some(found) => found,
        None => {
            return Err(missing_weights(&bkeys));
        },
    };
    let wshape = entry_shape(meta, wj);
    let bshape = entry_shape(meta, bj);
    if wshape.len() != 1 {
        return Err(WeatherGraphError::UnexpectedRank { rank: 1, shape: wshape });
    }
    assert(wkeys@.len() > 0);
    assert(prefixes@.len() > 0);
    assert(ps[0] == prefixes@[0]@);
    if wshape[0] != hidden_dim {
        return Err(
            WeatherGraphError::ShapeMismatch {
                name: dotted_text(prefixes[0], "layer_norm.weight"),
                expected: dims1_text(hidden_dim),
                actual: shape_string(wshape.as_slice()),
            },
        );
    }
    if bshape.len() != 1 {
        return Err(WeatherGraphError::UnexpectedRank { rank: 1, shape: bshape });
    }
    if bshape[0] != hidden_dim {
        assert(bshape@ != seq![hidden_dim]);
        return Err(
            WeatherGraphError::ShapeMismatch {
                name: dotted_text(prefixes[0], "layer_norm.bias"),
                expected: dims1_text(hidden_dim),
                actual: shape_string(bshape.as_slice()),
            },
        );
    }
    assert(wshape@ =~= seq![hidden_dim]);
    assert(bshape@ =~= seq![hidden_dim]);
    Ok(LayerNormSource::Checkpoint { weight: wkeys[wc].clone(), bias: bkeys[bc].clone() })
}

/// Plans a perceptron whose tensors are looked up under each of `prefixes`
/// (with the aliases `w`, `b`, `scale`, `offset`): for each of its
/// `hidden_layers + 1` layers a required weight of the expected shape and an
/// optional bias; then, if it has one, a layer norm whose tensors are
/// vectors of the hidden width.
pub fn plan_mlp_with_aliases(
    prefixes: &[&str],
    meta: &Vec<(String, TensorMetadata)>,
    dims: MlpDims,
) -> (r: Result<MlpPlan>)
    requires
        dims.hidden_layers < usize::MAX,
    ensures
        r is Ok <==> mlp_ok(str_views(prefixes@), metadata_views(meta@), dims),
        r matches Ok(p) ==> mlp_plan_matches(p, str_views(prefixes@), metadata_views(meta@), dims),
        r matches Err(e) ==> mlp_error(e, str_views(prefixes@), metadata_views(meta@), dims),
{
    let ghost ps = str_views(prefixes@);
    let ghost mv = metadata_views(meta@);
    let total = dims.hidden_layers + 1;
    let mut layers: Vec<LinearSource> = Vec::new();
    for k in 0..total
        invariant
            ps == str_views(prefixes@),
            mv == metadata_views(meta@),
            total == dims.hidden_layers + 1,
            layers@.len() == k,
            mlp_layers_ok_upto(ps, mv, dims, k as int),
            forall|i: int|
                0 <= i < k ==> checkpoint_layer(
                    #[trigger] layers@[i],
                    mlp_weight_keys(ps, i),
                    mlp_bias_keys(ps, i),
                    mv,
                ),
    {
        let name = layer_name_text(k);
        let wkeys = candidate_param_keys(prefixes, name.as_str(), "weight");
        let bkeys = candidate_param_keys(prefixes, name.as_str(), "bias");
        assert(key_views(wkeys@) == mlp_weight_keys(ps, k as int));
        let (wc, wj) = match first_present_index(&wkeys, meta) {
            Some(found) => found,
            None => {
                let e = missing_weights(&wkeys);
                assert(mlp_layer_error(e, ps, mv, dims, k as int));
                assert(!mlp_layer_ok(ps, mv, dims, k as int));
                return Err(e);
            },
        };
        let bias = match first_present_index(&bkeys, meta) {
            Some((bc, bj)) => Some(bkeys[bc].clone()),
            None => None,
        };
        let expected_output = if k + 1 == total {
            dims.output_dim
        } else {
            dims.hidden_dim
        };
        let expected_input = if k == 0 {
            dims.input_dim
        } else {
            dims.hidden_dim
        };
        let wshape = entry_shape(meta, wj);
        if wshape.len() != 2 {
            let e = WeatherGraphError::UnexpectedRank { rank: 2, shape: wshape };
            assert(mlp_layer_error(e, ps, mv, dims, k as int));
            assert(!mlp_layer_ok(ps, mv, dims, k as int));
            return Err(e);
        }
        if wshape[0] != expected_output || wshape[1] != expected_input {
            assert(wkeys@.len() > 0);
            assert(ps[0] == prefixes@[0]@);
            assert(wshape@ != mlp_layer_shape(dims, k as int));
            let e = WeatherGraphError::ShapeMismatch {
                name: layer_key_text(prefixes[0], name.as_str(), "weight"),
                expected: dims2_text(expected_output, expected_input),
                actual: shape_string(wshape.as_slice()),
            };
            assert(mlp_layer_error(e, ps, mv, dims, k as int));
            assert(!mlp_layer_ok(ps, mv, dims, k as int));
            return Err(e);
        }
        assert(wshape@ =~= mlp_layer_shape(dims, k as int));
        assert(mlp_layer_ok(ps, mv, dims, k as int));
        layers.push(LinearSource::Checkpoint { weight: wkeys[wc].clone(), bias });
    }
    let layer_norm = if dims.with_layer_norm {
        match plan_layer_norm(prefixes, meta, dims.hidden_dim) {
            Ok(src) => Some(src),
            Err(e) => {
                return Err(e);
            },
        }
    } else {
        None
    };
    Ok(MlpPlan { layers, layer_norm })
}

/// The checkpoint holds a first layer weight of the perceptron `prefix`
/// (`<prefix>.layers.0.weight` or `<prefix>.layers.0.w`) or a weight
/// `<prefix>.w`.
pub open spec fn has_any_tensor_key_spec(prefix: Seq<char>, mv: MetaView) -> bool {
    ||| meta_lookup(mv, prefix + ".layers.0.weight"@) is Some
    ||| meta_lookup(mv, prefix + ".layers.0.w"@) is Some
    ||| meta_lookup(mv, prefix + ".w"@) is Some
}

/// Some prefix has a tensor in the checkpoint.
pub open spec fn any_prefix_present(prefixes: Seq<Seq<char>>, mv: MetaView) -> bool {
    exists|i: int| 0 <= i < prefixes.len() && has_any_tensor_key_spec(#[trigger] prefixes[i], mv)
}

/// Whether the checkpoint holds a first layer weight of the perceptron
/// `prefix` (`<prefix>.layers.0.weight`, `<prefix>.layers.0.w`) or a weight
/// `<prefix>.w`.
pub fn has_any_tensor_key(prefix: &str, meta: &Vec<(String, TensorMetadata)>) -> (r: bool)
    ensures
        r == has_any_tensor_key_spec(prefix@, metadata_views(meta@)),
{
    let a = crate::text::concat2(prefix, ".layers.0.weight");
    let b = crate::text::concat2(prefix, ".layers.0.w");
    let c = crate::text::concat2(prefix, ".w");
    crate::model::lookup_index(meta, &a).is_some() || crate::model::lookup_index(meta, &b).is_some()
        || crate::model::lookup_index(meta, &c).is_some()
}

proof fn lemma_first_present_member(keys: Seq<Seq<char>>, mv: MetaView)
    ensures
        first_present(keys, mv) is Some ==> exists|i: int|
            0 <= i < keys.len() && #[trigger] keys[i] == first_present(keys, mv)->0 && meta_lookup(
                mv,
                keys[i],
            ) is Some,
    decreases keys.len(),
{
    if keys.len() > 0 && meta_lookup(mv, keys[0]) is None {
        lemma_first_present_member(keys.drop_first(), mv);
        if first_present(keys, mv) is Some {
            let i = choose|i: int|
                0 <= i < keys.drop_first().len() && #[trigger] keys.drop_first()[i] == first_present(
                    keys.drop_first(),
                    mv,
                )->0 && meta_lookup(mv, keys.drop_first()[i]) is Some;
            assert(keys[i + 1] == keys.drop_first()[i]);
        }
    } else if keys.len() > 0 {
        assert(keys[0] == keys[0]);
    }
}

/// A checkpoint that holds the first layer weight of a perceptron, under
/// any of the keys the loader accepts for that weight
/// (`<prefix>.layers.0.weight` or `<prefix>.layers.0.w` for a listed
/// prefix), or a weight `<prefix>.w`, counts as holding the perceptron:
/// such an optional perceptron is planned from the checkpoint, not left
/// out.
pub proof fn lemma_first_layer_weight_marks_perceptron(prefixes: Seq<Seq<char>>, mv: MetaView)
    ensures
        first_present(mlp_weight_keys(prefixes, 0), mv) is Some ==> any_prefix_present(prefixes, mv),
        forall|i: int|
            0 <= i < prefixes.len() && meta_lookup(mv, #[trigger] layer_key(
                prefixes[i],
                layer_name(0),
                "weight"@,
            )) is Some ==> any_prefix_present(prefixes, mv),
        forall|i: int|
            0 <= i < prefixes.len() && meta_lookup(mv, #[trigger] dotted(prefixes[i], "w"@)) is Some
                ==> any_prefix_present(prefixes, mv),
{
    reveal_strlit(".w");
    reveal_strlit(".");
    reveal_strlit("w");
    assert forall|p: Seq<char>| #[trigger] dotted(p, "w"@) == p + ".w"@ by {
        assert(dotted(p, "w"@) =~= p + ".w"@);
    }
    assert forall|i: int|
        0 <= i < prefixes.len() && meta_lookup(mv, #[trigger] dotted(prefixes[i], "w"@)) is Some
        implies any_prefix_present(prefixes, mv) by {
        assert(has_any_tensor_key_spec(prefixes[i], mv));
    }
    reveal_strlit(".layers.0.weight");
    reveal_strlit(".layers.0.w");
    reveal_strlit("layers.");
    reveal_strlit(".");
    reveal_strlit("weight");
    reveal_strlit("w");
    assert(decimal(0) == seq!['0']);
    assert forall|p: Seq<char>| #[trigger] layer_key(p, layer_name(0), "weight"@) == p + ".layers.0.weight"@ by {
        assert(layer_key(p, layer_name(0), "weight"@) =~= p + ".layers.0.weight"@);
    }
    assert forall|p: Seq<char>| #[trigger] layer_key(p, layer_name(0), "w"@) == p + ".layers.0.w"@ by {
        assert(layer_key(p, layer_name(0), "w"@) =~= p + ".layers.0.w"@);
    }
    assert forall|i: int|
        0 <= i < prefixes.len() && meta_lookup(mv, #[trigger] layer_key(
            prefixes[i],
            layer_name(0),
            "weight"@,
        )) is Some implies any_prefix_present(prefixes, mv) by {
        assert(has_any_tensor_key_spec(prefixes[i], mv));
    }
    let keys = mlp_weight_keys(prefixes, 0);
    lemma_first_present_member(keys, mv);
    if first_present(keys, mv) is Some {
        let k = choose|k: int|
            0 <= k < keys.len() && #[trigger] keys[k] == first_present(keys, mv)->0 && meta_lookup(
                mv,
                keys[k],
            ) is Some;
        let i = k / 2;
        assert(param_suffixes("weight"@) == ("weight"@, "w"@));
        if k % 2 == 0 {
            assert(keys[k] == layer_key(prefixes[i], layer_name(0), "weight"@));
        } else {
            assert(keys[k] == layer_key(prefixes[i], layer_name(0), "w"@));
        }
        assert(has_any_tensor_key_spec(prefixes[i], mv));
    }
}

/// Plans a perceptron that a checkpoint may leave out: `None` when no
/// prefix has a tensor (see `has_any_tensor_key`), otherwise as
/// `plan_mlp_with_aliases`.
pub fn plan_mlp_optional(
    prefixes: &[&str],
    meta: &Vec<(String, TensorMetadata)>,
    dims: MlpDims,
) -> (r: Result<Option<MlpPlan>>)
    requires
        dims.hidden_layers < usize::MAX,
    ensures
        !any_prefix_present(str_views(prefixes@), metadata_views(meta@)) ==> r == Ok::<
            Option<MlpPlan>,
            WeatherGraphError,
        >(None),
        any_prefix_present(str_views(prefixes@), metadata_views(meta@)) ==> {
            &&& r is Ok <==> mlp_ok(str_views(prefixes@), metadata_views(meta@), dims)
            &&& r matches Ok(p) ==> (p matches Some(plan) && mlp_plan_matches(
                plan,
                str_views(prefixes@),
                metadata_views(meta@),
                dims,
            ))
            &&& r matches Err(e) ==> mlp_error(e, str_views(prefixes@), metadata_views(meta@), dims)
        },
        first_present(mlp_weight_keys(str_views(prefixes@), 0), metadata_views(meta@)) is Some ==> {
            &&& r is Ok <==> mlp_ok(str_views(prefixes@), metadata_views(meta@), dims)
            &&& r matches Ok(p) ==> p is Some
        },
{
    proof {
        lemma_first_layer_weight_marks_perceptron(str_views(prefixes@), metadata_views(meta@));
    }
    let ghost ps = str_views(prefixes@);
    let mut found = false;
    for i in 0..prefixes.len()
        invariant
            ps == str_views(prefixes@),
            found <==> exists|j: int|
                0 <= j < i && has_any_tensor_key_spec(#[trigger] ps[j], metadata_views(meta@)),
    {
        assert(ps[i as int] == prefixes@[i as int]@);
        if has_any_tensor_key(prefixes[i], meta) {
            found = true;
        }
    }
    if !found {
        return Ok(None);
    }
    match plan_mlp_with_aliases(prefixes, meta, dims) {
        Ok(p) => Ok(Some(p)),
        Err(e) => Err(e),
    }
}

/// A linear layer with the same source.
fn clone_linear_source(s: &LinearSource) -> (r: LinearSource)
    ensures
        r == *s,
{
    match s {
        LinearSource::Checkpoint { weight, bias } => {
            let b = match bias {
                Some(x) => Some(x.clone()),
                None => None,
            };
            LinearSource::Checkpoint { weight: weight.clone(), bias: b }
        },
        LinearSource::Identity { input_dim, output_dim } => LinearSource::Identity {
            input_dim: *input_dim,
            output_dim: *output_dim,
        },
    }
}

/// A perceptron plan with the same layers and layer norm.
fn clone_mlp_plan(p: &MlpPlan) -> (r: MlpPlan)
    ensures
        r.layers@ == p.layers@,
        r.layer_norm == p.layer_norm,
{
    let mut layers: Vec<LinearSource> = Vec::new();
    for i in 0..p.layers.len()
        invariant
            layers@ == p.layers@.take(i as int),
    {
        layers.push(clone_linear_source(&p.layers[i]));
        assert(layers@ =~= p.layers@.take(i + 1));
    }
    assert(layers@ =~= p.layers@);
    let layer_norm = match &p.layer_norm {
        Some(LayerNormSource::Checkpoint { weight, bias }) => Some(
            LayerNormSource::Checkpoint { weight: weight.clone(), bias: bias.clone() },
        ),
        Some(LayerNormSource::Identity { width }) => Some(LayerNormSource::Identity { width: *width }),
        None => None,
    };
    MlpPlan { layers, layer_norm }
}

/// The perceptron dimensions `(input, hidden, output, hidden layers, layer norm)`.
pub open spec fn mlp_dims(
    input_dim: usize,
    hidden_dim: usize,
    output_dim: usize,
    hidden_layers: usize,
    with_layer_norm: bool,
) -> MlpDims {
    MlpDims { input_dim, hidden_dim, output_dim, hidden_layers, with_layer_norm }
}

/// Where every layer of the model comes from.
#[derive(Debug, Clone)]
pub struct ModelPlan {
    pub input_projection: LinearSource,
    pub encoder_edge_mlp: MlpPlan,
    pub encoder_node_mlp: MlpPlan,
    pub processor_edge_init_mlp: MlpPlan,
    pub processor_edge_mlp: MlpPlan,
    pub processor_node_mlp: MlpPlan,
    pub decoder_edge_mlp: MlpPlan,
    pub decoder_node_mlp: MlpPlan,
    pub output_projection: LinearSource,
    pub n_processor_blocks: usize,
}

/// The perceptron named by `name` alone.
pub open spec fn single(name: Seq<char>) -> Seq<Seq<char>> {
    seq![name]
}

/// Dimensions of the processor's edge perceptron.
pub open spec fn processor_edge_dims(c: ModelConfig) -> MlpDims {
    mlp_dims((3 * c.hidden_dim) as usize, c.hidden_dim, c.hidden_dim, c.n_mlp_layers_processor, c.use_layer_norm)
}

/// Dimensions of the encoder's edge perceptron.
pub open spec fn encoder_edge_dims(c: ModelConfig) -> MlpDims {
    mlp_dims(encoder_edge_input_dim_spec(c) as usize, c.hidden_dim, c.hidden_dim, c.n_mlp_layers_encoder, c.use_layer_norm)
}

/// Dimensions of the encoder's node perceptron.
pub open spec fn encoder_node_dims(c: ModelConfig) -> MlpDims {
    mlp_dims(c.hidden_dim, c.hidden_dim, c.hidden_dim, c.n_mlp_layers_encoder, c.use_layer_norm)
}

/// Dimensions of the processor's edge initialisation perceptron.
pub open spec fn edge_init_dims(c: ModelConfig) -> MlpDims {
    mlp_dims(LOCAL_COORDINATE_WIDTH, c.hidden_dim, c.hidden_dim, 0, true)
}

/// Dimensions of the processor's node perceptron.
pub open spec fn processor_node_dims(c: ModelConfig) -> MlpDims {
    mlp_dims((3 * c.hidden_dim + 4) as usize, c.hidden_dim, c.hidden_dim, c.n_mlp_layers_processor, c.use_layer_norm)
}

/// Dimensions of the decoder's edge perceptron.
pub open spec fn decoder_edge_dims(c: ModelConfig) -> MlpDims {
    mlp_dims((LOCAL_COORDINATE_WIDTH + c.hidden_dim + c.input_channels) as usize, c.hidden_dim, c.hidden_dim, c.n_mlp_layers_decoder, c.use_layer_norm)
}

/// Dimensions of the decoder's node perceptron.
pub open spec fn decoder_node_dims(c: ModelConfig) -> MlpDims {
    mlp_dims((c.input_channels + c.hidden_dim) as usize, c.hidden_dim, c.output_channels, c.n_mlp_layers_decoder, false)
}

/// Every layer of the model passes its checks; the edge initialisation
/// perceptron only when the checkpoint has it.
pub open spec fn model_ok(mv: MetaView, c: ModelConfig) -> bool {
    &&& mlp_ok(single("processor_edge_mlp"@), mv, processor_edge_dims(c))
    &&& linear_ok("input_projection"@, mv, c.input_channels, c.hidden_dim)
    &&& mlp_ok(single("encoder_edge_mlp"@), mv, encoder_edge_dims(c))
    &&& mlp_ok(single("encoder_node_mlp"@), mv, encoder_node_dims(c))
    &&& any_prefix_present(edge_init_prefixes(), mv) ==> mlp_ok(edge_init_prefixes(), mv, edge_init_dims(c))
    &&& mlp_ok(single("processor_node_mlp"@), mv, processor_node_dims(c))
    &&& mlp_ok(single("decoder_edge_mlp"@), mv, decoder_edge_dims(c))
    &&& mlp_ok(single("decoder_node_mlp"@), mv, decoder_node_dims(c))
    &&& linear_ok("output_projection"@, mv, c.hidden_dim, c.output_channels)
}

/// `e` is the error of the first layer that fails its checks, in the order
/// processor edge perceptron, input projection, encoder edge and node
/// perceptrons, edge initialisation, processor node perceptron, decoder edge
/// and node perceptrons, output projection.
pub open spec fn model_error(e: WeatherGraphError, mv: MetaView, c: ModelConfig) -> bool {
    if !mlp_ok(single("processor_edge_mlp"@), mv, processor_edge_dims(c)) {
        mlp_error(e, single("processor_edge_mlp"@), mv, processor_edge_dims(c))
    } else if !linear_ok("input_projection"@, mv, c.input_channels, c.hidden_dim) {
        linear_error(e, "input_projection"@, mv, c.input_channels, c.hidden_dim)
    } else if !mlp_ok(single("encoder_edge_mlp"@), mv, encoder_edge_dims(c)) {
        mlp_error(e, single("encoder_edge_mlp"@), mv, encoder_edge_dims(c))
    } else if !mlp_ok(single("encoder_node_mlp"@), mv, encoder_node_dims(c)) {
        mlp_error(e, single("encoder_node_mlp"@), mv, encoder_node_dims(c))
    } else if any_prefix_present(edge_init_prefixes(), mv) && !mlp_ok(
        edge_init_prefixes(),
        mv,
        edge_init_dims(c),
    ) {
        mlp_error(e, edge_init_prefixes(), mv, edge_init_dims(c))
    } else if !mlp_ok(single("processor_node_mlp"@), mv, processor_node_dims(c)) {
        mlp_error(e, single("processor_node_mlp"@), mv, processor_node_dims(c))
    } else if !mlp_ok(single("decoder_edge_mlp"@), mv, decoder_edge_dims(c)) {
        mlp_error(e, single("decoder_edge_mlp"@), mv, decoder_edge_dims(c))
    } else if !mlp_ok(single("decoder_node_mlp"@), mv, decoder_node_dims(c)) {
        mlp_error(e, single("decoder_node_mlp"@), mv, decoder_node_dims(c))
    } else {
        linear_error(e, "output_projection"@, mv, c.hidden_dim, c.output_channels)
    }
}

/// The plan takes each layer from the checkpoint as its checks found it;
/// without an edge initialisation perceptron in the checkpoint, that
/// perceptron repeats the processor's edge perceptron.
pub open spec fn model_plan_matches(p: ModelPlan, mv: MetaView, c: ModelConfig) -> bool {
    &&& mlp_plan_matches(p.processor_edge_mlp, single("processor_edge_mlp"@), mv, processor_edge_dims(c))
    &&& linear_source_matches(p.input_projection, "input_projection"@, mv, c.input_channels, c.hidden_dim)
    &&& mlp_plan_matches(p.encoder_edge_mlp, single("encoder_edge_mlp"@), mv, encoder_edge_dims(c))
    &&& mlp_plan_matches(p.encoder_node_mlp, single("encoder_node_mlp"@), mv, encoder_node_dims(c))
    &&& if any_prefix_present(edge_init_prefixes(), mv) {
        mlp_plan_matches(p.processor_edge_init_mlp, edge_init_prefixes(), mv, edge_init_dims(c))
    } else {
        p.processor_edge_init_mlp.layers@ == p.processor_edge_mlp.layers@
            && p.processor_edge_init_mlp.layer_norm == p.processor_edge_mlp.layer_norm
    }
    &&& mlp_plan_matches(p.processor_node_mlp, single("processor_node_mlp"@), mv, processor_node_dims(c))
    &&& mlp_plan_matches(p.decoder_edge_mlp, single("decoder_edge_mlp"@), mv, decoder_edge_dims(c))
    &&& mlp_plan_matches(p.decoder_node_mlp, single("decoder_node_mlp"@), mv, decoder_node_dims(c))
    &&& linear_source_matches(p.output_projection, "output_projection"@, mv, c.hidden_dim, c.output_channels)
    &&& p.n_processor_blocks == c.processor_blocks
}

/// Plans the whole model from a checkpoint's tensor list: each perceptron
/// and projection as `plan_mlp_with_aliases` and `plan_linear_or_identity`
/// say, with the processor's edge initialisation perceptron taken from the
/// checkpoint when present (under `processor_edge_init_mlp`,
/// `processor_edge_mlp_init` or `net_edges`) and otherwise repeating the
/// processor's edge perceptron.
pub fn plan_model(meta: &Vec<(String, TensorMetadata)>, config: &ModelConfig) -> (r: Result<ModelPlan>)
    requires
        config_dims_fit(*config),
        key_views(metadata_keys(meta@)).no_duplicates(),
    ensures
        r is Ok <==> model_ok(metadata_views(meta@), *config),
        r matches Ok(p) ==> model_plan_matches(p, metadata_views(meta@), *config),
        r matches Err(e) ==> model_error(e, metadata_views(meta@), *config),
        r matches Ok(p) ==> (first_present(
            mlp_weight_keys(edge_init_prefixes(), 0),
            metadata_views(meta@),
        ) is Some ==> mlp_plan_matches(
            p.processor_edge_init_mlp,
            edge_init_prefixes(),
            metadata_views(meta@),
            edge_init_dims(*config),
        )),
{
    proof {
        lemma_first_layer_weight_marks_perceptron(edge_init_prefixes(), metadata_views(meta@));
    }
    let h = config.hidden_dim;
    let pe_names = ["processor_edge_mlp"];
    assert(str_views(pe_names@) =~= single("processor_edge_mlp"@));
    let processor_edge_mlp = match plan_mlp_with_aliases(
        &pe_names,
        meta,
        MlpDims {
            input_dim: h * 3,
            hidden_dim: h,
            output_dim: h,
            hidden_layers: config.n_mlp_layers_processor,
            with_layer_norm: config.use_layer_norm,
        },
    ) {
        Ok(p) => p,
        Err(e) => {
            return Err(e);
        },
    };
    let input_projection = match plan_linear_or_identity("input_projection", meta, config.input_channels, h) {
        Ok(s) => s,
        Err(e) => {
            return Err(e);
        },
    };
    let ee_names = ["encoder_edge_mlp"];
    assert(str_views(ee_names@) =~= single("encoder_edge_mlp"@));
    let encoder_edge_mlp = match plan_mlp_with_aliases(
        &ee_names,
        meta,
        MlpDims {
            input_dim: encoder_edge_input_dim(config),
            hidden_dim: h,
            output_dim: h,
            hidden_layers: config.n_mlp_layers_encoder,
            with_layer_norm: config.use_layer_norm,
        },
    ) {
        Ok(p) => p,
        Err(e) => {
            return Err(e);
        },
    };
    let en_names = ["encoder_node_mlp"];
    assert(str_views(en_names@) =~= single("encoder_node_mlp"@));
    let encoder_node_mlp = match plan_mlp_with_aliases(
        &en_names,
        meta,
        MlpDims {
            input_dim: h,
            hidden_dim: h,
            output_dim: h,
            hidden_layers: config.n_mlp_layers_encoder,
            with_layer_norm: config.use_layer_norm,
        },
    ) {
        Ok(p) => p,
        Err(e) => {
            return Err(e);
        },
    };
    let init_names = ["processor_edge_init_mlp", "processor_edge_mlp_init", "net_edges"];
    assert(str_views(init_names@) =~= edge_init_prefixes());
    let processor_edge_init_mlp = match plan_mlp_optional(
        &init_names,
        meta,
        MlpDims { input_dim: LOCAL_COORDINATE_WIDTH, hidden_dim: h, output_dim: h, hidden_layers: 0, with_layer_norm: true },
    ) {
        Ok(Some(p)) => p,
        Ok(None) => clone_mlp_plan(&processor_edge_mlp),
        Err(e) => {
            return Err(e);
        },
    };
    let pn_names = ["processor_node_mlp"];
    assert(str_views(pn_names@) =~= single("processor_node_mlp"@));
    let processor_node_mlp = match plan_mlp_with_aliases(
        &pn_names,
        meta,
        MlpDims {
            input_dim: (h * 3) + 4,
            hidden_dim: h,
            output_dim: h,
            hidden_layers: config.n_mlp_layers_processor,
            with_layer_norm: config.use_layer_norm,
        },
    ) {
        Ok(p) => p,
        Err(e) => {
            return Err(e);
        },
    };
    let de_names = ["decoder_edge_mlp"];
    assert(str_views(de_names@) =~= single("decoder_edge_mlp"@));
    let decoder_edge_mlp = match plan_mlp_with_aliases(
        &de_names,
        meta,
        MlpDims {
            input_dim: LOCAL_COORDINATE_WIDTH + h + config.input_channels,
            hidden_dim: h,
            output_dim: h,
            hidden_layers: config.n_mlp_layers_decoder,
            with_layer_norm: config.use_layer_norm,
        },
    ) {
        Ok(p) => p,
        Err(e) => {
            return Err(e);
        },
    };
    let dn_names = ["decoder_node_mlp"];
    assert(str_views(dn_names@) =~= single("decoder_node_mlp"@));
    let decoder_node_mlp = match plan_mlp_with_aliases(
        &dn_names,
        meta,
        MlpDims {
            input_dim: config.input_channels + h,
            hidden_dim: h,
            output_dim: config.output_channels,
            hidden_layers: config.n_mlp_layers_decoder,
            with_layer_norm: false,
        },
    ) {
        Ok(p) => p,
        Err(e) => {
            return Err(e);
        },
    };
    let output_projection = match plan_linear_or_identity("output_projection", meta, h, config.output_channels) {
        Ok(s) => s,
        Err(e) => {
            return Err(e);
        },
    };
    Ok(
        ModelPlan {
            input_projection,
            encoder_edge_mlp,
            encoder_node_mlp,
            processor_edge_init_mlp,
            processor_edge_mlp,
            processor_node_mlp,
            decoder_edge_mlp,
            decoder_node_mlp,
            output_projection,
            n_processor_blocks: config.processor_blocks,
        },
    )
}

/// A perceptron plan of identity layers for the given dimensions, with an
/// identity layer norm of the output width when it has one.
pub open spec fn identity_mlp_matches(p: MlpPlan, d: MlpDims) -> bool {
    &&& p.layers@.len() == d.hidden_layers + 1
    &&& forall|k: int|
        0 <= k < p.layers@.len() ==> #[trigger] p.layers@[k] == (LinearSource::Identity {
            input_dim: mlp_layer_input(k, d.input_dim, d.hidden_dim),
            output_dim: mlp_layer_output(k, d.hidden_layers + 1, d.output_dim, d.hidden_dim),
        })
    &&& p.layer_norm == if d.with_layer_norm {
        Some(LayerNormSource::Identity { width: d.output_dim })
    } else {
        None
    }
}

/// A perceptron of identity layers: `hidden_layers + 1` layers from
/// `input_dim` through `hidden_dim` to `output_dim`, and an identity layer
/// norm of the output width if asked for.
pub fn identity_mlp_plan(dims: MlpDims) -> (r: MlpPlan)
    requires
        dims.hidden_layers < usize::MAX,
    ensures
        identity_mlp_matches(r, dims),
{
    let total = dims.hidden_layers + 1;
    let mut layers: Vec<LinearSource> = Vec::new();
    for k in 0..total
        invariant
            total == dims.hidden_layers + 1,
            layers@.len() == k,
            forall|i: int|
                0 <= i < k ==> #[trigger] layers@[i] == (LinearSource::Identity {
                    input_dim: mlp_layer_input(i, dims.input_dim, dims.hidden_dim),
                    output_dim: mlp_layer_output(i, total as int, dims.output_dim, dims.hidden_dim),
                }),
    {
        let input_dim = if k == 0 {
            dims.input_dim
        } else {
            dims.hidden_dim
        };
        let output_dim = if k + 1 == total {
            dims.output_dim
        } else {
            dims.hidden_dim
        };
        layers.push(LinearSource::Identity { input_dim, output_dim });
    }
    let layer_norm = if dims.with_layer_norm {
        Some(LayerNormSource::Identity { width: dims.output_dim })
    } else {
        None
    };
    MlpPlan { layers, layer_norm }
}

/// The model of identity layers used when no checkpoint is given.
pub open spec fn placeholder_matches(p: ModelPlan, c: ModelConfig) -> bool {
    &&& p.input_projection == (LinearSource::Identity {
        input_dim: c.input_channels,
        output_dim: c.input_channels,
    })
    &&& identity_mlp_matches(p.encoder_edge_mlp, encoder_edge_dims(c))
    &&& identity_mlp_matches(p.encoder_node_mlp, encoder_node_dims(c))
    &&& identity_mlp_matches(
        p.processor_edge_init_mlp,
        mlp_dims(LOCAL_COORDINATE_WIDTH, c.hidden_dim, c.hidden_dim, 0, c.use_layer_norm),
    )
    &&& identity_mlp_matches(p.processor_edge_mlp, processor_edge_dims(c))
    &&& identity_mlp_matches(p.processor_node_mlp, processor_node_dims(c))
    &&& identity_mlp_matches(p.decoder_edge_mlp, decoder_edge_dims(c))
    &&& identity_mlp_matches(p.decoder_node_mlp, decoder_node_dims(c))
    &&& p.output_projection == (LinearSource::Identity {
        input_dim: c.output_channels,
        output_dim: c.output_channels,
    })
    &&& p.n_processor_blocks == c.processor_blocks
}

/// The model built of identity layers for a configuration, used when no
/// checkpoint is given: the projections map the input and output channels
/// to themselves, and every perceptron has the widths the model needs.
pub fn placeholder_plan(config: &ModelConfig) -> (r: ModelPlan)
    requires
        config_dims_fit(*config),
    ensures
        placeholder_matches(r, *config),
{
    let h = config.hidden_dim;
    let ln = config.use_layer_norm;
    ModelPlan {
        input_projection: LinearSource::Identity {
            input_dim: config.input_channels,
            output_dim: config.input_channels,
        },
        encoder_edge_mlp: identity_mlp_plan(
            MlpDims {
                input_dim: encoder_edge_input_dim(config),
                hidden_dim: h,
                output_dim: h,
                hidden_layers: config.n_mlp_layers_encoder,
                with_layer_norm: ln,
            },
        ),
        encoder_node_mlp: identity_mlp_plan(
            MlpDims {
                input_dim: h,
                hidden_dim: h,
                output_dim: h,
                hidden_layers: config.n_mlp_layers_encoder,
                with_layer_norm: ln,
            },
        ),
        processor_edge_init_mlp: identity_mlp_plan(
            MlpDims { input_dim: LOCAL_COORDINATE_WIDTH, hidden_dim: h, output_dim: h, hidden_layers: 0, with_layer_norm: ln },
        ),
        processor_edge_mlp: identity_mlp_plan(
            MlpDims {
                input_dim: h * 3,
                hidden_dim: h,
                output_dim: h,
                hidden_layers: config.n_mlp_layers_processor,
                with_layer_norm: ln,
            },
        ),
        processor_node_mlp: identity_mlp_plan(
            MlpDims {
                input_dim: (h * 3) + 4,
                hidden_dim: h,
                output_dim: h,
                hidden_layers: config.n_mlp_layers_processor,
                with_layer_norm: ln,
            },
        ),
        decoder_edge_mlp: identity_mlp_plan(
            MlpDims {
                input_dim: LOCAL_COORDINATE_WIDTH + h + config.input_channels,
                hidden_dim: h,
                output_dim: h,
                hidden_layers: config.n_mlp_layers_decoder,
                with_layer_norm: ln,
            },
        ),
        decoder_node_mlp: identity_mlp_plan(
            MlpDims {
                input_dim: config.input_channels + h,
                hidden_dim: h,
                output_dim: config.output_channels,
                hidden_layers: config.n_mlp_layers_decoder,
                with_layer_norm: false,
            },
        ),
        output_projection: LinearSource::Identity {
            input_dim: config.output_channels,
            output_dim: config.output_channels,
        },
        n_processor_blocks: config.processor_blocks,
    }
}

/// A contract tensor passes the strict gate: found if required, and of the
/// contract's shape if found with a known shape.
pub open spec fn entry_clean(e: ExpectedEntryView, mv: MetaView) -> bool {
    &&& e.required ==> entry_found(e, mv)
    &&& !shape_differs(e, mv)
}

/// Every tensor of a list passes the strict gate.
pub open spec fn all_clean(s: Seq<ExpectedEntryView>, mv: MetaView) -> bool {
    forall|i: int| 0 <= i < s.len() ==> #[trigger] entry_clean(s[i], mv)
}

/// Every tensor of the checkpoint has a known shape.
pub open spec fn shapes_known(mv: MetaView) -> bool {
    forall|j: int| 0 <= j < mv.len() ==> (#[trigger] mv[j]).1.shape.len() > 0
}

/// The checkpoint holds the first layer weight and both layer-norm tensors
/// of the processor's edge initialisation perceptron.
pub open spec fn edge_init_complete(mv: MetaView) -> bool {
    &&& first_present(mlp_weight_keys(edge_init_prefixes(), 0), mv) is Some
    &&& first_present(norm_weight_keys(edge_init_prefixes()), mv) is Some
    &&& first_present(norm_bias_keys(edge_init_prefixes()), mv) is Some
}

proof fn lemma_clean_entries(entries: Seq<ExpectedEntryView>, mv: MetaView)
    requires
        missing_spec(entries, mv, true).len() == 0,
        shape_mismatches_spec(entries, mv).len() == 0,
    ensures
        all_clean(entries, mv),
    decreases entries.len(),
{
    if entries.len() > 0 {
        let prev = entries.drop_last();
        lemma_clean_entries(prev, mv);
        assert forall|i: int| 0 <= i < entries.len() implies #[trigger] entry_clean(entries[i], mv) by {
            if i < prev.len() {
                assert(entries[i] == prev[i]);
            }
        }
    }
}

proof fn lemma_all_clean_split(a: Seq<ExpectedEntryView>, b: Seq<ExpectedEntryView>, mv: MetaView)
    requires
        all_clean(a + b, mv),
    ensures
        all_clean(a, mv),
        all_clean(b, mv),
{
    assert forall|i: int| 0 <= i < a.len() implies #[trigger] entry_clean(a[i], mv) by {
        assert((a + b)[i] == a[i]);
    }
    assert forall|i: int| 0 <= i < b.len() implies #[trigger] entry_clean(b[i], mv) by {
        assert((a + b)[a.len() + i] == b[i]);
    }
}

proof fn lemma_found_shape_known(keys: Seq<Seq<char>>, mv: MetaView)
    requires
        shapes_known(mv),
        first_present(keys, mv) is Some,
    ensures
        present_shape(keys, mv).len() > 0,
{
    lemma_found_key_present(keys, mv);
    lemma_lookup_is_entry(mv, first_present(keys, mv)->0);
    let j = choose|j: int|
        0 <= j < mv.len() && mv[j].0 == first_present(keys, mv)->0 && mv[j].1 == meta_lookup(
            mv,
            first_present(keys, mv)->0,
        )->0;
    assert(mv[j].1.shape.len() > 0);
}

/// A clean entry that is found with a known shape has its contract shape.
proof fn lemma_clean_shape(e: ExpectedEntryView, mv: MetaView)
    requires
        shapes_known(mv),
        entry_clean(e, mv),
        entry_found(e, mv),
    ensures
        present_shape(e.candidate_keys, mv) == e.expected_shape,
{
    lemma_found_shape_known(e.candidate_keys, mv);
}

proof fn lemma_linear_ok_from_contract(prefix: Seq<char>, input_dim: usize, output_dim: usize, mv: MetaView)
    requires
        shapes_known(mv),
        all_clean(expected_linear_entries_spec(prefix, input_dim, output_dim, false), mv),
    ensures
        linear_ok(prefix, mv, input_dim, output_dim),
{
    reveal(expected_linear_entries_spec);
    let s = expected_linear_entries_spec(prefix, input_dim, output_dim, false);
    assert(entry_clean(s[0], mv));
    assert(entry_clean(s[1], mv));
    assert(s[0].candidate_keys == linear_weight_keys(prefix));
    assert(s[1].candidate_keys == linear_bias_keys(prefix));
    if entry_found(s[0], mv) {
        lemma_clean_shape(s[0], mv);
    }
    if entry_found(s[1], mv) {
        lemma_clean_shape(s[1], mv);
    }
}

proof fn lemma_mlp_ok_from_contract(
    canonical: Seq<char>,
    d: MlpDims,
    required: bool,
    prefixes: Seq<Seq<char>>,
    mv: MetaView,
)
    requires
        d.hidden_layers < usize::MAX,
        shapes_known(mv),
        all_clean(
            expected_mlp_entries_spec(
                canonical,
                d.input_dim,
                d.hidden_dim,
                d.output_dim,
                d.with_layer_norm,
                required,
                d.hidden_layers,
                prefixes,
            ),
            mv,
        ),
        required || (first_present(mlp_weight_keys(prefixes, 0), mv) is Some && d.hidden_layers
            == 0 && (d.with_layer_norm ==> first_present(norm_weight_keys(prefixes), mv) is Some
            && first_present(norm_bias_keys(prefixes), mv) is Some)),
    ensures
        mlp_ok(prefixes, mv, d),
{
    reveal(expected_mlp_entries_spec);
    let layers = mlp_layer_entries_spec(
        canonical,
        d.input_dim,
        d.hidden_dim,
        d.output_dim,
        required,
        d.hidden_layers,
        prefixes,
    );
    let norms = if d.with_layer_norm {
        layer_norm_entries_spec(canonical, d.hidden_dim, required, prefixes)
    } else {
        Seq::empty()
    };
    lemma_all_clean_split(layers, norms, mv);
    assert forall|k: int| 0 <= k < d.hidden_layers + 1 implies #[trigger] mlp_layer_ok(
        prefixes,
        mv,
        d,
        k,
    ) by {
        assert((2 * k) / 2 == k && (2 * k) % 2 == 0);
        let e = layers[2 * k];
        assert(entry_clean(e, mv));
        assert(e.candidate_keys == mlp_weight_keys(prefixes, k));
        assert(e.expected_shape == mlp_layer_shape(d, k));
        assert(entry_found(e, mv));
        lemma_clean_shape(e, mv);
    }
    if d.with_layer_norm {
        assert(entry_clean(norms[0], mv));
        assert(entry_clean(norms[1], mv));
        assert(norms[0].candidate_keys == norm_weight_keys(prefixes));
        assert(norms[1].candidate_keys == norm_bias_keys(prefixes));
        lemma_clean_shape(norms[0], mv);
        lemma_clean_shape(norms[1], mv);
    }
}

proof fn lemma_hidden_clean(config: ModelConfig, n: int, mv: MetaView)
    requires
        0 <= n <= 5,
        all_clean(hidden_entries_upto(config, n), mv),
    ensures
        forall|m: int|
            0 <= m < n ==> all_clean(#[trigger] hidden_mlp_entries_spec(hidden_mlp_prefixes()[m], config), mv),
    decreases n,
{
    if n > 0 {
        lemma_all_clean_split(
            hidden_entries_upto(config, n - 1),
            hidden_mlp_entries_spec(hidden_mlp_prefixes()[n - 1], config),
            mv,
        );
        lemma_hidden_clean(config, n - 1, mv);
    }
}

proof fn lemma_prefix_names_differ()
    ensures
        "encoder_edge_mlp"@ != "encoder_node_mlp"@,
        "encoder_edge_mlp"@ != "processor_edge_mlp"@,
        "encoder_edge_mlp"@ != "processor_node_mlp"@,
        "encoder_edge_mlp"@ != "decoder_edge_mlp"@,
        "encoder_node_mlp"@ != "processor_edge_mlp"@,
        "encoder_node_mlp"@ != "processor_node_mlp"@,
        "encoder_node_mlp"@ != "decoder_edge_mlp"@,
        "processor_edge_mlp"@ != "processor_node_mlp"@,
        "processor_edge_mlp"@ != "decoder_edge_mlp"@,
        "processor_node_mlp"@ != "decoder_edge_mlp"@,
{
    reveal_strlit("encoder_edge_mlp");
    reveal_strlit("encoder_node_mlp");
    reveal_strlit("processor_edge_mlp");
    reveal_strlit("processor_node_mlp");
    reveal_strlit("decoder_edge_mlp");
    assert("encoder_edge_mlp"@[8] != "encoder_node_mlp"@[8]);
    assert("encoder_edge_mlp"@[0] != "decoder_edge_mlp"@[0]);
    assert("encoder_node_mlp"@[0] != "decoder_edge_mlp"@[0]);
    assert("processor_edge_mlp"@[10] != "processor_node_mlp"@[10]);
    assert("encoder_edge_mlp"@.len() != "processor_edge_mlp"@.len());
    assert("encoder_edge_mlp"@.len() != "processor_node_mlp"@.len());
    assert("encoder_node_mlp"@.len() != "processor_edge_mlp"@.len());
    assert("encoder_node_mlp"@.len() != "processor_node_mlp"@.len());
    assert("processor_edge_mlp"@.len() != "decoder_edge_mlp"@.len());
    assert("processor_node_mlp"@.len() != "decoder_edge_mlp"@.len());
}

/// The strict checkpoint gate is enough to build the model: a checkpoint
/// whose inspection reports no missing required tensor and no shape
/// mismatch, whose tensors all have known shapes, and which, if it holds any
/// tensor of the processor's edge initialisation perceptron, holds that
/// perceptron's weight and layer norm, passes every check of `plan_model`.
pub proof fn lemma_strict_clean_checkpoint_loads(
    report: WeightInspectionReport,
    meta: Seq<(String, TensorMetadata)>,
    config: ModelConfig,
)
    requires
        config_dims_fit(config),
        report@ == inspection_spec(metadata_views(meta), config, key_views(report.available_keys@)),
        report.missing_required@.len() == 0,
        report.shape_mismatches@.len() == 0,
        shapes_known(metadata_views(meta)),
        any_prefix_present(edge_init_prefixes(), metadata_views(meta)) ==> edge_init_complete(
            metadata_views(meta),
        ),
    ensures
        model_ok(metadata_views(meta), config),
{
    let mv = metadata_views(meta);
    let entries = expected_weight_entries_spec(config);
    assert(missing_spec(entries, mv, true).len() == report@.missing_required.len());
    assert(shape_mismatches_spec(entries, mv).len() == report@.shape_mismatches.len());
    lemma_clean_entries(entries, mv);
    let a = expected_linear_entries_spec("input_projection"@, config.input_channels, config.hidden_dim, false);
    let b = expected_linear_entries_spec("output_projection"@, config.hidden_dim, config.output_channels, false);
    let c = hidden_entries_upto(config, 5);
    let d = expected_mlp_entries_spec(
        "decoder_node_mlp"@,
        (config.input_channels + config.hidden_dim) as usize,
        config.hidden_dim,
        config.output_channels,
        false,
        true,
        config.n_mlp_layers_decoder,
        seq!["decoder_node_mlp"@],
    );
    let e = expected_mlp_entries_spec(
        "processor_edge_init_mlp"@,
        LOCAL_COORDINATE_WIDTH,
        config.hidden_dim,
        config.hidden_dim,
        true,
        false,
        0,
        edge_init_prefixes(),
    );
    assert(entries == a + b + c + d + e);
    lemma_all_clean_split(a + b + c + d, e, mv);
    lemma_all_clean_split(a + b + c, d, mv);
    lemma_all_clean_split(a + b, c, mv);
    lemma_all_clean_split(a, b, mv);
    lemma_linear_ok_from_contract("input_projection"@, config.input_channels, config.hidden_dim, mv);
    lemma_linear_ok_from_contract("output_projection"@, config.hidden_dim, config.output_channels, mv);
    lemma_hidden_clean(config, 5, mv);
    lemma_prefix_names_differ();
    let hp = hidden_mlp_prefixes();
    assert(all_clean(hidden_mlp_entries_spec(hp[0], config), mv));
    assert(all_clean(hidden_mlp_entries_spec(hp[1], config), mv));
    assert(all_clean(hidden_mlp_entries_spec(hp[2], config), mv));
    assert(all_clean(hidden_mlp_entries_spec(hp[3], config), mv));
    assert(all_clean(hidden_mlp_entries_spec(hp[4], config), mv));
    lemma_mlp_ok_from_contract("encoder_edge_mlp"@, encoder_edge_dims(config), true, single("encoder_edge_mlp"@), mv);
    lemma_mlp_ok_from_contract("encoder_node_mlp"@, encoder_node_dims(config), true, single("encoder_node_mlp"@), mv);
    lemma_mlp_ok_from_contract("processor_edge_mlp"@, processor_edge_dims(config), true, single("processor_edge_mlp"@), mv);
    lemma_mlp_ok_from_contract("processor_node_mlp"@, processor_node_dims(config), true, single("processor_node_mlp"@), mv);
    lemma_mlp_ok_from_contract("decoder_edge_mlp"@, decoder_edge_dims(config), true, single("decoder_edge_mlp"@), mv);
    lemma_mlp_ok_from_contract("decoder_node_mlp"@, decoder_node_dims(config), true, single("decoder_node_mlp"@), mv);
    if any_prefix_present(edge_init_prefixes(), mv) {
        lemma_mlp_ok_from_contract("processor_edge_init_mlp"@, edge_init_dims(config), false, edge_init_prefixes(), mv);
    }
}

/// The error a perceptron's plan reports is that of its first failing
/// layer: when layer `k` is the first whose weight is missing or
/// misshaped, a missing weight is named by all its accepted keys, and a
/// matrix of the wrong shape is reported under the canonical name
/// `<first prefix>.layers.<k>.weight`, whichever accepted key it was found
/// under.
pub proof fn lemma_first_failing_layer_error(
    prefixes: Seq<Seq<char>>,
    mv: MetaView,
    d: MlpDims,
    k: int,
    e: WeatherGraphError,
)
    requires
        0 <= k <= d.hidden_layers,
        mlp_layers_ok_upto(prefixes, mv, d, k),
        !mlp_layer_ok(prefixes, mv, d, k),
        mlp_error(e, prefixes, mv, d),
    ensures
        !mlp_ok(prefixes, mv, d),
        first_present(mlp_weight_keys(prefixes, k), mv) is None ==> is_missing_artifact(
            e,
            join_spec(mlp_weight_keys(prefixes, k), " | "@),
            "weights.safetensors"@,
        ),
        first_present(mlp_weight_keys(prefixes, k), mv) is Some && present_shape(
            mlp_weight_keys(prefixes, k),
            mv,
        ).len() == 2 ==> is_shape_mismatch(
            e,
            layer_key(prefixes[0], layer_name(k as nat), "weight"@),
            shape_text(mlp_layer_shape(d, k)),
            shape_text(present_shape(mlp_weight_keys(prefixes, k), mv)),
        ),
{
    assert(!mlp_layers_ok_upto(prefixes, mv, d, d.hidden_layers + 1)) by {
        assert(!mlp_layer_ok(prefixes, mv, d, k));
    }
    let j = choose|j: int|
        0 <= j <= d.hidden_layers && mlp_layers_ok_upto(prefixes, mv, d, j) && !mlp_layer_ok(
            prefixes,
            mv,
            d,
            j,
        ) && #[trigger] mlp_layer_error(e, prefixes, mv, d, j);
    if j < k {
        assert(mlp_layer_ok(prefixes, mv, d, j));
    } else if k < j {
        assert(mlp_layer_ok(prefixes, mv, d, k));
    }
}

/// A checkpoint is refused as soon as one part fails its checks: any layer
/// of a required perceptron whose weight is missing or misshaped, a
/// projection found with the wrong shape, or an edge initialiser that is
/// present but incomplete or misshaped.
pub proof fn lemma_failing_part_refuses_model(mv: MetaView, c: ModelConfig)
    ensures
        !mlp_ok(single("processor_edge_mlp"@), mv, processor_edge_dims(c)) ==> !model_ok(mv, c),
        !mlp_ok(single("encoder_edge_mlp"@), mv, encoder_edge_dims(c)) ==> !model_ok(mv, c),
        !mlp_ok(single("encoder_node_mlp"@), mv, encoder_node_dims(c)) ==> !model_ok(mv, c),
        !mlp_ok(single("processor_node_mlp"@), mv, processor_node_dims(c)) ==> !model_ok(mv, c),
        !mlp_ok(single("decoder_edge_mlp"@), mv, decoder_edge_dims(c)) ==> !model_ok(mv, c),
        !mlp_ok(single("decoder_node_mlp"@), mv, decoder_node_dims(c)) ==> !model_ok(mv, c),
        any_prefix_present(edge_init_prefixes(), mv) && !mlp_ok(
            edge_init_prefixes(),
            mv,
            edge_init_dims(c),
        ) ==> !model_ok(mv, c),
        !linear_ok("input_projection"@, mv, c.input_channels, c.hidden_dim) ==> !model_ok(mv, c),
        !linear_ok("output_projection"@, mv, c.hidden_dim, c.output_channels) ==> !model_ok(mv, c),
        forall|prefixes: Seq<Seq<char>>, d: MlpDims, k: int|
            0 <= k <= d.hidden_layers && !#[trigger] mlp_layer_ok(prefixes, mv, d, k) ==> !mlp_ok(
                prefixes,
                mv,
                d,
            ),
{
    assert forall|prefixes: Seq<Seq<char>>, d: MlpDims, k: int|
        0 <= k <= d.hidden_layers && !#[trigger] mlp_layer_ok(prefixes, mv, d, k) implies !mlp_ok(
            prefixes,
            mv,
            d,
        ) by {
        assert(!mlp_layers_ok_upto(prefixes, mv, d, d.hidden_layers + 1));
    }
}

} // verus!
