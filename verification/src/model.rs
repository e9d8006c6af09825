//! Checkpoint contract of the graph network: the tensors a checkpoint is
//! expected to hold for a model configuration, under their canonical names
//! and accepted aliases, and the inspection of a checkpoint's tensor list
//! against that contract.

use vstd::prelude::*;

use crate::config::ModelConfig;
use crate::error::{Result, WeatherGraphError};
use crate::solar::SOLAR_TIME_SHIFTS_HOURS;
use crate::text::{
    append_decimal, append_str, concat3, decimal, sort_texts, str_views, text_eq, texts_sorted,
};

verus! {

/// Number of local coordinates of an edge (the columns of its
/// `local_coords_row` features), read by the encoder edge, processor edge
/// initialiser and decoder edge perceptrons.
pub const LOCAL_COORDINATE_WIDTH: usize = 3;

/// A checkpoint tensor that the model expects: its canonical key, the keys
/// under which it is accepted (canonical first), its element type, its shape
/// and whether a checkpoint must contain it.
#[derive(Debug, Clone)]
pub struct ExpectedWeightEntry {
    pub canonical_key: String,
    pub candidate_keys: Vec<String>,
    pub expected_dtype: String,
    pub expected_shape: Vec<usize>,
    pub required: bool,
}

/// Mathematical form of an expected tensor.
pub struct ExpectedEntryView {
    pub canonical_key: Seq<char>,
    pub candidate_keys: Seq<Seq<char>>,
    pub expected_dtype: Seq<char>,
    pub expected_shape: Seq<usize>,
    pub required: bool,
}

/// The views of a sequence of strings.
pub open spec fn key_views(s: Seq<String>) -> Seq<Seq<char>> {
    s.map_values(|k: String| k@)
}

impl View for ExpectedWeightEntry {
    type V = ExpectedEntryView;

    open spec fn view(&self) -> ExpectedEntryView {
        ExpectedEntryView {
            canonical_key: self.canonical_key@,
            candidate_keys: key_views(self.candidate_keys@),
            expected_dtype: self.expected_dtype@,
            expected_shape: self.expected_shape@,
            required: self.required,
        }
    }
}

/// The views of a sequence of expected tensors.
pub open spec fn entry_views(s: Seq<ExpectedWeightEntry>) -> Seq<ExpectedEntryView> {
    s.map_values(|e: ExpectedWeightEntry| e@)
}

/// `prefix.layer.suffix`.
pub open spec fn layer_key(prefix: Seq<char>, layer: Seq<char>, suffix: Seq<char>) -> Seq<char> {
    prefix + "."@ + layer + "."@ + suffix
}

/// `prefix.suffix`.
pub open spec fn dotted(prefix: Seq<char>, suffix: Seq<char>) -> Seq<char> {
    prefix + "."@ + suffix
}

/// The parameter name and its short alias: `weight`/`w`, `bias`/`b`; any
/// other name stands for itself twice.
pub open spec fn param_suffixes(param: Seq<char>) -> (Seq<char>, Seq<char>) {
    if param == "weight"@ {
        ("weight"@, "w"@)
    } else if param == "bias"@ {
        ("bias"@, "b"@)
    } else {
        (param, param)
    }
}

/// The layer-norm parameter name and its alias: `layer_norm.weight` /
/// `layer_norm.scale`, `layer_norm.bias` / `layer_norm.offset`.
pub open spec fn layer_norm_suffixes(param: Seq<char>) -> (Seq<char>, Seq<char>) {
    if param == "weight"@ {
        ("layer_norm.weight"@, "layer_norm.scale"@)
    } else if param == "bias"@ {
        ("layer_norm.bias"@, "layer_norm.offset"@)
    } else {
        (param, param)
    }
}

/// For each prefix in turn, the key with the full parameter name and the
/// key with its alias.
pub open spec fn candidate_param_keys_spec(
    prefixes: Seq<Seq<char>>,
    layer: Seq<char>,
    param: Seq<char>,
) -> Seq<Seq<char>> {
    Seq::new(
        2 * prefixes.len(),
        |k: int|
            layer_key(
                prefixes[k / 2],
                layer,
                if k % 2 == 0 {
                    param_suffixes(param).0
                } else {
                    param_suffixes(param).1
                },
            ),
    )
}

/// For each prefix in turn, the layer-norm key with the full parameter name
/// and the one with its alias.
pub open spec fn candidate_layer_norm_keys_spec(prefixes: Seq<Seq<char>>, param: Seq<char>) -> Seq<
    Seq<char>,
> {
    Seq::new(
        2 * prefixes.len(),
        |k: int|
            dotted(
                prefixes[k / 2],
                if k % 2 == 0 {
                    layer_norm_suffixes(param).0
                } else {
                    layer_norm_suffixes(param).1
                },
            ),
    )
}

/// `prefix.layer.suffix` as text.
pub(crate) fn layer_key_text(prefix: &str, layer: &str, suffix: &str) -> (r: String)
    ensures
        r@ == layer_key(prefix@, layer@, suffix@),
{
    let mut r = prefix.to_owned();
    append_str(&mut r, ".");
    append_str(&mut r, layer);
    append_str(&mut r, ".");
    append_str(&mut r, suffix);
    r
}

/// `prefix.suffix` as text.
pub(crate) fn dotted_text(prefix: &str, suffix: &str) -> (r: String)
    ensures
        r@ == dotted(prefix@, suffix@),
{
    concat3(prefix, ".", suffix)
}

fn param_suffix_texts(param: &str) -> (r: (String, String))
    ensures
        r.0@ == param_suffixes(param@).0,
        r.1@ == param_suffixes(param@).1,
{
    if text_eq(param, "weight") {
        ("weight".to_owned(), "w".to_owned())
    } else if text_eq(param, "bias") {
        ("bias".to_owned(), "b".to_owned())
    } else {
        (param.to_owned(), param.to_owned())
    }
}

fn layer_norm_suffix_texts(param: &str) -> (r: (String, String))
    ensures
        r.0@ == layer_norm_suffixes(param@).0,
        r.1@ == layer_norm_suffixes(param@).1,
{
    if text_eq(param, "weight") {
        ("layer_norm.weight".to_owned(), "layer_norm.scale".to_owned())
    } else if text_eq(param, "bias") {
        ("layer_norm.bias".to_owned(), "layer_norm.offset".to_owned())
    } else {
        (param.to_owned(), param.to_owned())
    }
}

/// The keys under which the parameter `param` of layer `layer` is accepted:
/// for each prefix, the full parameter name and then its alias.
pub fn candidate_param_keys(prefixes: &[&str], layer: &str, param: &str) -> (r: Vec<String>)
    ensures
        key_views(r@) == candidate_param_keys_spec(str_views(prefixes@), layer@, param@),
{
    let (s0, s1) = param_suffix_texts(param);
    let ghost ps = str_views(prefixes@);
    let ghost spec = candidate_param_keys_spec(ps, layer@, param@);
    let mut r: Vec<String> = Vec::new();
    for i in 0..prefixes.len()
        invariant
            ps == str_views(prefixes@),
            spec == candidate_param_keys_spec(ps, layer@, param@),
            s0@ == param_suffixes(param@).0,
            s1@ == param_suffixes(param@).1,
            r@.len() == 2 * i,
            forall|k: int| 0 <= k < 2 * i ==> #[trigger] r@[k]@ == spec[k],
    {
        assert(ps[i as int] == prefixes@[i as int]@);
        r.push(layer_key_text(prefixes[i], layer, s0.as_str()));
        r.push(layer_key_text(prefixes[i], layer, s1.as_str()));
        assert(spec[2 * i] == layer_key(ps[i as int], layer@, s0@));
        assert(spec[2 * i + 1] == layer_key(ps[i as int], layer@, s1@));
    }
    assert(key_views(r@) =~= spec);
    r
}

/// The keys under which the layer-norm parameter `param` is accepted: for
/// each prefix, the full name and then its alias.
pub fn candidate_layer_norm_keys(prefixes: &[&str], param: &str) -> (r: Vec<String>)
    ensures
        key_views(r@) == candidate_layer_norm_keys_spec(str_views(prefixes@), param@),
{
    let (s0, s1) = layer_norm_suffix_texts(param);
    let ghost ps = str_views(prefixes@);
    let ghost spec = candidate_layer_norm_keys_spec(ps, param@);
    let mut r: Vec<String> = Vec::new();
    for i in 0..prefixes.len()
        invariant
            ps == str_views(prefixes@),
            spec == candidate_layer_norm_keys_spec(ps, param@),
            s0@ == layer_norm_suffixes(param@).0,
            s1@ == layer_norm_suffixes(param@).1,
            r@.len() == 2 * i,
            forall|k: int| 0 <= k < 2 * i ==> #[trigger] r@[k]@ == spec[k],
    {
        assert(ps[i as int] == prefixes@[i as int]@);
        r.push(dotted_text(prefixes[i], s0.as_str()));
        r.push(dotted_text(prefixes[i], s1.as_str()));
        assert(spec[2 * i] == dotted(ps[i as int], s0@));
        assert(spec[2 * i + 1] == dotted(ps[i as int], s1@));
    }
    assert(key_views(r@) =~= spec);
    r
}

/// The two tensors of a linear projection `prefix`: its `[output, input]`
/// weight, which is `required` or not, and its optional `[output]` bias.
#[verifier::opaque]
pub open spec fn expected_linear_entries_spec(
    prefix: Seq<char>,
    input_dim: usize,
    output_dim: usize,
    required: bool,
) -> Seq<ExpectedEntryView> {
    seq![
        ExpectedEntryView {
            canonical_key: dotted(prefix, "weight"@),
            candidate_keys: seq![dotted(prefix, "weight"@), dotted(prefix, "w"@)],
            expected_dtype: "F32"@,
            expected_shape: seq![output_dim, input_dim],
            required,
        },
        ExpectedEntryView {
            canonical_key: dotted(prefix, "bias"@),
            candidate_keys: seq![dotted(prefix, "bias"@), dotted(prefix, "b"@)],
            expected_dtype: "F32"@,
            expected_shape: seq![output_dim],
            required: false,
        },
    ]
}

/// The expected tensors of a linear projection.
pub fn expected_linear_entries(prefix: &str, input_dim: usize, output_dim: usize, required: bool) -> (r:
    Vec<ExpectedWeightEntry>)
    ensures
        entry_views(r@) == expected_linear_entries_spec(prefix@, input_dim, output_dim, required),
{
    let mut weight_keys: Vec<String> = Vec::new();
    weight_keys.push(dotted_text(prefix, "weight"));
    weight_keys.push(dotted_text(prefix, "w"));
    let mut bias_keys: Vec<String> = Vec::new();
    bias_keys.push(dotted_text(prefix, "bias"));
    bias_keys.push(dotted_text(prefix, "b"));
    let mut weight_shape: Vec<usize> = Vec::new();
    weight_shape.push(output_dim);
    weight_shape.push(input_dim);
    let mut bias_shape: Vec<usize> = Vec::new();
    bias_shape.push(output_dim);
    let mut r: Vec<ExpectedWeightEntry> = Vec::new();
    r.push(
        ExpectedWeightEntry {
            canonical_key: dotted_text(prefix, "weight"),
            candidate_keys: weight_keys,
            expected_dtype: "F32".to_owned(),
            expected_shape: weight_shape,
            required,
        },
    );
    r.push(
        ExpectedWeightEntry {
            canonical_key: dotted_text(prefix, "bias"),
            candidate_keys: bias_keys,
            expected_dtype: "F32".to_owned(),
            expected_shape: bias_shape,
            required: false,
        },
    );
    reveal(expected_linear_entries_spec);
    let ghost spec = expected_linear_entries_spec(prefix@, input_dim, output_dim, required);
    assert(key_views(r@[0].candidate_keys@) =~= spec[0].candidate_keys);
    assert(key_views(r@[1].candidate_keys@) =~= spec[1].candidate_keys);
    assert(r@[0].expected_shape@ =~= spec[0].expected_shape);
    assert(r@[1].expected_shape@ =~= spec[1].expected_shape);
    assert(entry_views(r@) =~= spec);
    r
}

/// `layers.i`, the name of the i-th layer of a perceptron.
pub open spec fn layer_name(i: nat) -> Seq<char> {
    "layers."@ + decimal(i)
}

/// Input width of layer `i`: the perceptron's input for the first layer,
/// the hidden width otherwise.
pub open spec fn mlp_layer_input(i: int, input_dim: usize, hidden_dim: usize) -> usize {
    if i == 0 {
        input_dim
    } else {
        hidden_dim
    }
}

/// Output width of layer `i` of `total`: the perceptron's output for the
/// last layer, the hidden width otherwise.
pub open spec fn mlp_layer_output(i: int, total: int, output_dim: usize, hidden_dim: usize) -> usize {
    if i + 1 == total {
        output_dim
    } else {
        hidden_dim
    }
}

/// For each of the `hidden_layers + 1` layers in turn, its weight (required
/// or not) and its optional bias.
pub open spec fn mlp_layer_entries_spec(
    canonical_prefix: Seq<char>,
    input_dim: usize,
    hidden_dim: usize,
    output_dim: usize,
    required: bool,
    hidden_layers: usize,
    prefixes: Seq<Seq<char>>,
) -> Seq<ExpectedEntryView> {
    let total = hidden_layers + 1;
    Seq::new(
        2 * (total as nat),
        |k: int|
            {
                let i = k / 2;
                let out = mlp_layer_output(i, total, output_dim, hidden_dim);
                if k % 2 == 0 {
                    ExpectedEntryView {
                        canonical_key: layer_key(canonical_prefix, layer_name(i as nat), "weight"@),
                        candidate_keys: candidate_param_keys_spec(
                            prefixes,
                            layer_name(i as nat),
                            "weight"@,
                        ),
                        expected_dtype: "F32"@,
                        expected_shape: seq![out, mlp_layer_input(i, input_dim, hidden_dim)],
                        required,
                    }
                } else {
                    ExpectedEntryView {
                        canonical_key: layer_key(canonical_prefix, layer_name(i as nat), "bias"@),
                        candidate_keys: candidate_param_keys_spec(
                            prefixes,
                            layer_name(i as nat),
                            "bias"@,
                        ),
                        expected_dtype: "F32"@,
                        expected_shape: seq![out],
                        required: false,
                    }
                }
            },
    )
}

/// The layer-norm scale and offset of a perceptron, both of the hidden width.
pub open spec fn layer_norm_entries_spec(
    canonical_prefix: Seq<char>,
    hidden_dim: usize,
    required: bool,
    prefixes: Seq<Seq<char>>,
) -> Seq<ExpectedEntryView> {
    seq![
        ExpectedEntryView {
            canonical_key: dotted(canonical_prefix, "layer_norm.weight"@),
            candidate_keys: candidate_layer_norm_keys_spec(prefixes, "weight"@),
            expected_dtype: "F32"@,
            expected_shape: seq![hidden_dim],
            required,
        },
        ExpectedEntryView {
            canonical_key: dotted(canonical_prefix, "layer_norm.bias"@),
            candidate_keys: candidate_layer_norm_keys_spec(prefixes, "bias"@),
            expected_dtype: "F32"@,
            expected_shape: seq![hidden_dim],
            required,
        },
    ]
}

/// The expected tensors of a perceptron: its layers, then its layer norm
/// when it has one.
#[verifier::opaque]
pub open spec fn expected_mlp_entries_spec(
    canonical_prefix: Seq<char>,
    input_dim: usize,
    hidden_dim: usize,
    output_dim: usize,
    with_layer_norm: bool,
    required: bool,
    hidden_layers: usize,
    prefixes: Seq<Seq<char>>,
) -> Seq<ExpectedEntryView> {
    mlp_layer_entries_spec(
        canonical_prefix,
        input_dim,
        hidden_dim,
        output_dim,
        required,
        hidden_layers,
        prefixes,
    ) + if with_layer_norm {
        layer_norm_entries_spec(canonical_prefix, hidden_dim, required, prefixes)
    } else {
        Seq::empty()
    }
}

pub(crate) fn layer_name_text(i: usize) -> (r: String)
    ensures
        r@ == layer_name(i as nat),
{
    let mut r = "layers.".to_owned();
    append_decimal(&mut r, i);
    r
}

pub(crate) fn shape_vec1(a: usize) -> (r: Vec<usize>)
    ensures
        r@ == seq![a],
{
    let mut r: Vec<usize> = Vec::new();
    r.push(a);
    assert(r@ =~= seq![a]);
    r
}

pub(crate) fn shape_vec2(a: usize, b: usize) -> (r: Vec<usize>)
    ensures
        r@ == seq![a, b],
{
    let mut r: Vec<usize> = Vec::new();
    r.push(a);
    r.push(b);
    assert(r@ =~= seq![a, b]);
    r
}

/// The expected tensors of a perceptron with `hidden_layers + 1` layers.
pub fn expected_mlp_entries(
    canonical_prefix: &str,
    input_dim: usize,
    hidden_dim: usize,
    output_dim: usize,
    with_layer_norm: bool,
    required: bool,
    hidden_layers: usize,
    prefixes: &[&str],
) -> (r: Vec<ExpectedWeightEntry>)
    requires
        hidden_layers < usize::MAX,
    ensures
        entry_views(r@) == expected_mlp_entries_spec(
            canonical_prefix@,
            input_dim,
            hidden_dim,
            output_dim,
            with_layer_norm,
            required,
            hidden_layers,
            str_views(prefixes@),
        ),
{
    reveal(expected_mlp_entries_spec);
    let total_layers = hidden_layers + 1;
    let ghost ps = str_views(prefixes@);
    let ghost layers_spec = mlp_layer_entries_spec(
        canonical_prefix@,
        input_dim,
        hidden_dim,
        output_dim,
        required,
        hidden_layers,
        ps,
    );
    let mut entries: Vec<ExpectedWeightEntry> = Vec::new();
    for layer_index in 0..total_layers
        invariant
            total_layers == hidden_layers + 1,
            ps == str_views(prefixes@),
            layers_spec == mlp_layer_entries_spec(
                canonical_prefix@,
                input_dim,
                hidden_dim,
                output_dim,
                required,
                hidden_layers,
                ps,
            ),
            entries@.len() == 2 * layer_index,
            forall|k: int| 0 <= k < 2 * layer_index ==> #[trigger] entries@[k]@ == layers_spec[k],
    {
        let is_first = layer_index == 0;
        let is_last = layer_index + 1 == total_layers;
        let this_input_dim = if is_first {
            input_dim
        } else {
            hidden_dim
        };
        let this_output_dim = if is_last {
            output_dim
        } else {
            hidden_dim
        };
        let name = layer_name_text(layer_index);
        entries.push(
            ExpectedWeightEntry {
                canonical_key: layer_key_text(canonical_prefix, name.as_str(), "weight"),
                candidate_keys: candidate_param_keys(prefixes, name.as_str(), "weight"),
                expected_dtype: "F32".to_owned(),
                expected_shape: shape_vec2(this_output_dim, this_input_dim),
                required,
            },
        );
        entries.push(
            ExpectedWeightEntry {
                canonical_key: layer_key_text(canonical_prefix, name.as_str(), "bias"),
                candidate_keys: candidate_param_keys(prefixes, name.as_str(), "bias"),
                expected_dtype: "F32".to_owned(),
                expected_shape: shape_vec1(this_output_dim),
                required: false,
            },
        );
        proof {
            let k = 2 * layer_index as int;
            assert(k / 2 == layer_index);
            assert((k + 1) / 2 == layer_index);
            assert(k % 2 == 0);
            assert((k + 1) % 2 == 1);
            assert(entries@[k]@ == layers_spec[k]);
            assert(entries@[k + 1]@ == layers_spec[k + 1]);
        }
    }
    assert(entry_views(entries@) =~= layers_spec);
    if with_layer_norm {
        let ghost before = entries@;
        entries.push(
            ExpectedWeightEntry {
                canonical_key: dotted_text(canonical_prefix, "layer_norm.weight"),
                candidate_keys: candidate_layer_norm_keys(prefixes, "weight"),
                expected_dtype: "F32".to_owned(),
                expected_shape: shape_vec1(hidden_dim),
                required,
            },
        );
        entries.push(
            ExpectedWeightEntry {
                canonical_key: dotted_text(canonical_prefix, "layer_norm.bias"),
                candidate_keys: candidate_layer_norm_keys(prefixes, "bias"),
                expected_dtype: "F32".to_owned(),
                expected_shape: shape_vec1(hidden_dim),
                required,
            },
        );
        assert(entry_views(entries@) =~= entry_views(before) + layer_norm_entries_spec(
            canonical_prefix@,
            hidden_dim,
            required,
            ps,
        ));
    } else {
        assert(entry_views(entries@) =~= layers_spec + Seq::<ExpectedEntryView>::empty());
    }
    entries
}

/// The model dimensions fit the machine words in which the expected input
/// widths are computed.
pub open spec fn config_dims_fit(config: ModelConfig) -> bool {
    &&& config.input_channels + 21 <= usize::MAX
    &&& 3 * config.hidden_dim + 4 <= usize::MAX
    &&& LOCAL_COORDINATE_WIDTH + config.hidden_dim + config.input_channels <= usize::MAX
    &&& config.n_mlp_layers_encoder < usize::MAX
    &&& config.n_mlp_layers_processor < usize::MAX
    &&& config.n_mlp_layers_decoder < usize::MAX
}

/// Whether the model dimensions fit the machine words in which the layer
/// widths are computed (`config_dims_fit`).
pub fn model_dims_fit(config: &ModelConfig) -> (r: bool)
    ensures
        r == config_dims_fit(*config),
{
    config.input_channels <= usize::MAX - 21 && config.hidden_dim <= (usize::MAX - 4) / 3
        && config.hidden_dim <= usize::MAX - LOCAL_COORDINATE_WIDTH - config.input_channels
        && config.n_mlp_layers_encoder < usize::MAX && config.n_mlp_layers_processor < usize::MAX
        && config.n_mlp_layers_decoder < usize::MAX
}

/// Width of an encoder edge input: three local coordinates, the input
/// channels, one solar sample per time shift, orography and land-sea mask,
/// and the optional latitude (2), longitude (2) and day-of-year (1) columns.
pub open spec fn encoder_edge_input_dim_spec(config: ModelConfig) -> nat {
    (LOCAL_COORDINATE_WIDTH + config.input_channels + SOLAR_TIME_SHIFTS_HOURS@.len() + 2 + (if config.use_lat {
        2nat
    } else {
        0nat
    }) + (if config.use_lon {
        2nat
    } else {
        0nat
    }) + (if config.use_doy {
        1nat
    } else {
        0nat
    })) as nat
}

/// Width of the encoder edge input for a configuration.
pub fn encoder_edge_input_dim(config: &ModelConfig) -> (r: usize)
    requires
        config_dims_fit(*config),
    ensures
        r == encoder_edge_input_dim_spec(*config),
{
    let mut width = LOCAL_COORDINATE_WIDTH + config.input_channels + SOLAR_TIME_SHIFTS_HOURS.len() + 2;
    if config.use_lat {
        width += 2;
    }
    if config.use_lon {
        width += 2;
    }
    if config.use_doy {
        width += 1;
    }
    width
}

/// Input width of the first layer of the perceptron named `prefix`.
pub open spec fn encoder_like_input_dim_spec(prefix: Seq<char>, config: ModelConfig) -> nat {
    if prefix == "encoder_edge_mlp"@ {
        encoder_edge_input_dim_spec(config)
    } else if prefix == "processor_edge_mlp"@ {
        (3 * config.hidden_dim) as nat
    } else if prefix == "processor_node_mlp"@ {
        (3 * config.hidden_dim + 4) as nat
    } else if prefix == "decoder_edge_mlp"@ {
        (LOCAL_COORDINATE_WIDTH + config.hidden_dim + config.input_channels) as nat
    } else {
        config.hidden_dim as nat
    }
}

/// Input width of the first layer of the perceptron named `prefix`.
pub fn encoder_like_input_dim(prefix: &str, config: &ModelConfig) -> (r: usize)
    requires
        config_dims_fit(*config),
    ensures
        r == encoder_like_input_dim_spec(prefix@, *config),
{
    if text_eq(prefix, "encoder_edge_mlp") {
        encoder_edge_input_dim(config)
    } else if text_eq(prefix, "processor_edge_mlp") {
        config.hidden_dim * 3
    } else if text_eq(prefix, "processor_node_mlp") {
        (config.hidden_dim * 3) + 4
    } else if text_eq(prefix, "decoder_edge_mlp") {
        LOCAL_COORDINATE_WIDTH + config.hidden_dim + config.input_channels
    } else {
        config.hidden_dim
    }
}

/// Number of hidden layers of the perceptron named `prefix`.
pub open spec fn hidden_layers_for_spec(prefix: Seq<char>, config: ModelConfig) -> usize {
    if prefix == "encoder_edge_mlp"@ || prefix == "encoder_node_mlp"@ {
        config.n_mlp_layers_encoder
    } else if prefix == "processor_edge_mlp"@ || prefix == "processor_node_mlp"@ {
        config.n_mlp_layers_processor
    } else if prefix == "decoder_edge_mlp"@ {
        config.n_mlp_layers_decoder
    } else {
        0
    }
}

fn hidden_layers_for(prefix: &str, config: &ModelConfig) -> (r: usize)
    ensures
        r == hidden_layers_for_spec(prefix@, *config),
{
    if text_eq(prefix, "encoder_edge_mlp") || text_eq(prefix, "encoder_node_mlp") {
        config.n_mlp_layers_encoder
    } else if text_eq(prefix, "processor_edge_mlp") || text_eq(prefix, "processor_node_mlp") {
        config.n_mlp_layers_processor
    } else if text_eq(prefix, "decoder_edge_mlp") {
        config.n_mlp_layers_decoder
    } else {
        0
    }
}

/// The hidden perceptrons that share the hidden width at their output, in
/// the order in which the checkpoint contract lists them.
pub open spec fn hidden_mlp_prefixes() -> Seq<Seq<char>> {
    seq![
        "encoder_edge_mlp"@,
        "encoder_node_mlp"@,
        "processor_edge_mlp"@,
        "processor_node_mlp"@,
        "decoder_edge_mlp"@,
    ]
}

/// The expected tensors of one hidden perceptron.
pub open spec fn hidden_mlp_entries_spec(prefix: Seq<char>, config: ModelConfig) -> Seq<ExpectedEntryView> {
    expected_mlp_entries_spec(
        prefix,
        encoder_like_input_dim_spec(prefix, config) as usize,
        config.hidden_dim,
        config.hidden_dim,
        config.use_layer_norm,
        true,
        hidden_layers_for_spec(prefix, config),
        seq![prefix],
    )
}

/// The names under which the processor edge initialiser may be stored.
pub open spec fn edge_init_prefixes() -> Seq<Seq<char>> {
    seq!["processor_edge_init_mlp"@, "processor_edge_mlp_init"@, "net_edges"@]
}

/// Every tensor of the checkpoint contract for a configuration: the two
/// optional projections, the five hidden perceptrons, the decoder node
/// perceptron (no layer norm) and the optional processor edge initialiser.
pub open spec fn expected_weight_entries_spec(config: ModelConfig) -> Seq<ExpectedEntryView> {
    expected_linear_entries_spec(
        "input_projection"@,
        config.input_channels,
        config.hidden_dim,
        false,
    ) + expected_linear_entries_spec(
        "output_projection"@,
        config.hidden_dim,
        config.output_channels,
        false,
    ) + hidden_entries_upto(config, 5) + expected_mlp_entries_spec(
        "decoder_node_mlp"@,
        (config.input_channels + config.hidden_dim) as usize,
        config.hidden_dim,
        config.output_channels,
        false,
        true,
        config.n_mlp_layers_decoder,
        seq!["decoder_node_mlp"@],
    ) + expected_mlp_entries_spec(
        "processor_edge_init_mlp"@,
        LOCAL_COORDINATE_WIDTH,
        config.hidden_dim,
        config.hidden_dim,
        true,
        false,
        0,
        edge_init_prefixes(),
    )
}

fn append_entries(entries: &mut Vec<ExpectedWeightEntry>, more: Vec<ExpectedWeightEntry>)
    ensures
        entry_views(final(entries)@) == entry_views(old(entries)@) + entry_views(more@),
{
    let mut more = more;
    let ghost m = more@;
    entries.append(&mut more);
    assert(entry_views(entries@) =~= entry_views(old(entries)@) + entry_views(m));
}

/// The checkpoint contract for a configuration.
pub fn expected_weight_entries(config: &ModelConfig) -> (r: Vec<ExpectedWeightEntry>)
    requires
        config_dims_fit(*config),
    ensures
        entry_views(r@) == expected_weight_entries_spec(*config),
{
    let mut entries: Vec<ExpectedWeightEntry> = Vec::new();
    append_entries(
        &mut entries,
        expected_linear_entries("input_projection", config.input_channels, config.hidden_dim, false),
    );
    append_entries(
        &mut entries,
        expected_linear_entries("output_projection", config.hidden_dim, config.output_channels, false),
    );
    let prefixes: [&str; 5] = [
        "encoder_edge_mlp",
        "encoder_node_mlp",
        "processor_edge_mlp",
        "processor_node_mlp",
        "decoder_edge_mlp",
    ];
    let ghost before = entry_views(entries@);
    for i in 0..5
        invariant
            config_dims_fit(*config),
            forall|k: int| 0 <= k < 5 ==> prefixes@[k]@ == hidden_mlp_prefixes()[k],
            entry_views(entries@) == before + hidden_entries_upto(*config, i as int),
    {
        let prefix = prefixes[i];
        let single: [&str; 1] = [prefix];
        assert(str_views(single@) =~= seq![prefix@]);
        append_entries(
            &mut entries,
            expected_mlp_entries(
                prefix,
                encoder_like_input_dim(prefix, config),
                config.hidden_dim,
                config.hidden_dim,
                config.use_layer_norm,
                true,
                hidden_layers_for(prefix, config),
                &single,
            ),
        );
        assert(before + hidden_entries_upto(*config, i + 1) =~= before + hidden_entries_upto(
            *config,
            i as int,
        ) + hidden_mlp_entries_spec(hidden_mlp_prefixes()[i as int], *config));
    }
    let decoder_node: [&str; 1] = ["decoder_node_mlp"];
    assert(str_views(decoder_node@) =~= seq!["decoder_node_mlp"@]);
    append_entries(
        &mut entries,
        expected_mlp_entries(
            "decoder_node_mlp",
            config.input_channels + config.hidden_dim,
            config.hidden_dim,
            config.output_channels,
            false,
            true,
            config.n_mlp_layers_decoder,
            &decoder_node,
        ),
    );
    let edge_init: [&str; 3] = ["processor_edge_init_mlp", "processor_edge_mlp_init", "net_edges"];
    assert(str_views(edge_init@) =~= edge_init_prefixes());
    append_entries(
        &mut entries,
        expected_mlp_entries(
            "processor_edge_init_mlp",
            LOCAL_COORDINATE_WIDTH,
            config.hidden_dim,
            config.hidden_dim,
            true,
            false,
            0,
            &edge_init,
        ),
    );
    assert(entry_views(entries@) =~= expected_weight_entries_spec(*config));
    entries
}

/// The tensors of the first `n` hidden perceptrons.
pub open spec fn hidden_entries_upto(config: ModelConfig, n: int) -> Seq<ExpectedEntryView>
    decreases n,
{
    if n <= 0 {
        Seq::empty()
    } else {
        hidden_entries_upto(config, n - 1) + hidden_mlp_entries_spec(
            hidden_mlp_prefixes()[n - 1],
            config,
        )
    }
}

/// Shape and element type of a checkpoint tensor; an empty shape and the
/// element type `unknown` mean that the fact is not known.
#[derive(Debug, Clone, PartialEq, Eq)]
pub struct TensorMetadata {
    pub shape: Vec<usize>,
    pub dtype: String,
}

/// Mathematical form of tensor metadata.
pub struct TensorMetadataView {
    pub shape: Seq<usize>,
    pub dtype: Seq<char>,
}

impl View for TensorMetadata {
    type V = TensorMetadataView;

    open spec fn view(&self) -> TensorMetadataView {
        TensorMetadataView { shape: self.shape@, dtype: self.dtype@ }
    }
}

/// A contract tensor found in a checkpoint: its canonical key and the key
/// under which it was found.
#[derive(Debug, Clone, PartialEq, Eq)]
pub struct WeightMatch {
    pub canonical_key: String,
    pub matched_key: String,
}

/// Mathematical form of a match.
pub struct WeightMatchView {
    pub canonical_key: Seq<char>,
    pub matched_key: Seq<char>,
}

impl View for WeightMatch {
    type V = WeightMatchView;

    open spec fn view(&self) -> WeightMatchView {
        WeightMatchView { canonical_key: self.canonical_key@, matched_key: self.matched_key@ }
    }
}

/// A found tensor whose element type differs from the contract's.
#[derive(Debug, Clone, PartialEq, Eq)]
pub struct WeightDtypeMismatch {
    pub canonical_key: String,
    pub matched_key: String,
    pub expected_dtype: String,
    pub actual_dtype: String,
}

/// Mathematical form of an element-type mismatch.
pub struct WeightDtypeMismatchView {
    pub canonical_key: Seq<char>,
    pub matched_key: Seq<char>,
    pub expected_dtype: Seq<char>,
    pub actual_dtype: Seq<char>,
}

impl View for WeightDtypeMismatch {
    type V = WeightDtypeMismatchView;

    open spec fn view(&self) -> WeightDtypeMismatchView {
        WeightDtypeMismatchView {
            canonical_key: self.canonical_key@,
            matched_key: self.matched_key@,
            expected_dtype: self.expected_dtype@,
            actual_dtype: self.actual_dtype@,
        }
    }
}

/// A found tensor whose shape differs from the contract's.
#[derive(Debug, Clone, PartialEq, Eq)]
pub struct WeightShapeMismatch {
    pub canonical_key: String,
    pub matched_key: String,
    pub expected_shape: Vec<usize>,
    pub actual_shape: Vec<usize>,
}

/// Mathematical form of a shape mismatch.
pub struct WeightShapeMismatchView {
    pub canonical_key: Seq<char>,
    pub matched_key: Seq<char>,
    pub expected_shape: Seq<usize>,
    pub actual_shape: Seq<usize>,
}

impl View for WeightShapeMismatch {
    type V = WeightShapeMismatchView;

    open spec fn view(&self) -> WeightShapeMismatchView {
        WeightShapeMismatchView {
            canonical_key: self.canonical_key@,
            matched_key: self.matched_key@,
            expected_shape: self.expected_shape@,
            actual_shape: self.actual_shape@,
        }
    }
}

/// The outcome of checking a checkpoint's tensor list against the contract.
#[derive(Debug, Clone, PartialEq, Eq)]
pub struct WeightInspectionReport {
    pub available_keys: Vec<String>,
    pub matched_required: Vec<WeightMatch>,
    pub matched_optional: Vec<WeightMatch>,
    pub missing_required: Vec<String>,
    pub missing_optional: Vec<String>,
    pub dtype_mismatches: Vec<WeightDtypeMismatch>,
    pub shape_mismatches: Vec<WeightShapeMismatch>,
    pub unused_keys: Vec<String>,
}

/// Mathematical form of an inspection report.
pub struct WeightInspectionReportView {
    pub available_keys: Seq<Seq<char>>,
    pub matched_required: Seq<WeightMatchView>,
    pub matched_optional: Seq<WeightMatchView>,
    pub missing_required: Seq<Seq<char>>,
    pub missing_optional: Seq<Seq<char>>,
    pub dtype_mismatches: Seq<WeightDtypeMismatchView>,
    pub shape_mismatches: Seq<WeightShapeMismatchView>,
    pub unused_keys: Seq<Seq<char>>,
}

/// The views of a sequence of matches.
pub open spec fn match_views(s: Seq<WeightMatch>) -> Seq<WeightMatchView> {
    s.map_values(|m: WeightMatch| m@)
}

/// The views of a sequence of element-type mismatches.
pub open spec fn dtype_mismatch_views(s: Seq<WeightDtypeMismatch>) -> Seq<WeightDtypeMismatchView> {
    s.map_values(|m: WeightDtypeMismatch| m@)
}

/// The views of a sequence of shape mismatches.
pub open spec fn shape_mismatch_views(s: Seq<WeightShapeMismatch>) -> Seq<WeightShapeMismatchView> {
    s.map_values(|m: WeightShapeMismatch| m@)
}

impl View for WeightInspectionReport {
    type V = WeightInspectionReportView;

    open spec fn view(&self) -> WeightInspectionReportView {
        WeightInspectionReportView {
            available_keys: key_views(self.available_keys@),
            matched_required: match_views(self.matched_required@),
            matched_optional: match_views(self.matched_optional@),
            missing_required: key_views(self.missing_required@),
            missing_optional: key_views(self.missing_optional@),
            dtype_mismatches: dtype_mismatch_views(self.dtype_mismatches@),
            shape_mismatches: shape_mismatch_views(self.shape_mismatches@),
            unused_keys: key_views(self.unused_keys@),
        }
    }
}

/// A checkpoint's tensor list in mathematical form.
pub open spec fn metadata_views(meta: Seq<(String, TensorMetadata)>) -> Seq<
    (Seq<char>, TensorMetadataView),
> {
    meta.map_values(|p: (String, TensorMetadata)| (p.0@, p.1@))
}

/// The keys of a checkpoint's tensor list.
pub open spec fn metadata_keys(meta: Seq<(String, TensorMetadata)>) -> Seq<String> {
    meta.map_values(|p: (String, TensorMetadata)| p.0)
}

/// The metadata stored under `key` (the first entry with that key).
pub open spec fn meta_lookup(meta: Seq<(Seq<char>, TensorMetadataView)>, key: Seq<char>) -> Option<
    TensorMetadataView,
>
    decreases meta.len(),
{
    if meta.len() == 0 {
        None
    } else if meta[0].0 == key {
        Some(meta[0].1)
    } else {
        meta_lookup(meta.drop_first(), key)
    }
}

/// The first of `candidates` that the checkpoint holds.
pub open spec fn first_present(
    candidates: Seq<Seq<char>>,
    meta: Seq<(Seq<char>, TensorMetadataView)>,
) -> Option<Seq<char>>
    decreases candidates.len(),
{
    if candidates.len() == 0 {
        None
    } else if meta_lookup(meta, candidates[0]) is Some {
        Some(candidates[0])
    } else {
        first_present(candidates.drop_first(), meta)
    }
}

/// The checkpoint holds the tensor under one of its accepted keys.
pub open spec fn entry_found(e: ExpectedEntryView, meta: Seq<(Seq<char>, TensorMetadataView)>) -> bool {
    first_present(e.candidate_keys, meta) is Some
}

/// The key under which a found tensor was found.
pub open spec fn found_key(e: ExpectedEntryView, meta: Seq<(Seq<char>, TensorMetadataView)>) -> Seq<char> {
    first_present(e.candidate_keys, meta)->0
}

/// The metadata of a found tensor.
pub open spec fn found_metadata(
    e: ExpectedEntryView,
    meta: Seq<(Seq<char>, TensorMetadataView)>,
) -> TensorMetadataView {
    meta_lookup(meta, found_key(e, meta))->0
}

/// The tensors with the given `required` flag that were found, in contract order.
pub open spec fn matches_spec(
    entries: Seq<ExpectedEntryView>,
    meta: Seq<(Seq<char>, TensorMetadataView)>,
    required: bool,
) -> Seq<WeightMatchView>
    decreases entries.len(),
{
    if entries.len() == 0 {
        Seq::empty()
    } else {
        let prev = matches_spec(entries.drop_last(), meta, required);
        let e = entries.last();
        if e.required == required && entry_found(e, meta) {
            prev.push(WeightMatchView { canonical_key: e.canonical_key, matched_key: found_key(e, meta) })
        } else {
            prev
        }
    }
}

/// The canonical keys of the tensors with the given `required` flag that were
/// not found, in contract order.
pub open spec fn missing_spec(
    entries: Seq<ExpectedEntryView>,
    meta: Seq<(Seq<char>, TensorMetadataView)>,
    required: bool,
) -> Seq<Seq<char>>
    decreases entries.len(),
{
    if entries.len() == 0 {
        Seq::empty()
    } else {
        let prev = missing_spec(entries.drop_last(), meta, required);
        let e = entries.last();
        if e.required == required && !entry_found(e, meta) {
            prev.push(e.canonical_key)
        } else {
            prev
        }
    }
}

/// A found tensor has a known element type other than the contract's.
pub open spec fn dtype_differs(e: ExpectedEntryView, meta: Seq<(Seq<char>, TensorMetadataView)>) -> bool {
    entry_found(e, meta) && found_metadata(e, meta).dtype != "unknown"@ && found_metadata(
        e,
        meta,
    ).dtype != e.expected_dtype
}

/// A found tensor has a known shape other than the contract's.
pub open spec fn shape_differs(e: ExpectedEntryView, meta: Seq<(Seq<char>, TensorMetadataView)>) -> bool {
    entry_found(e, meta) && found_metadata(e, meta).shape.len() != 0 && found_metadata(
        e,
        meta,
    ).shape != e.expected_shape
}

/// The element-type mismatches, in contract order.
pub open spec fn dtype_mismatches_spec(
    entries: Seq<ExpectedEntryView>,
    meta: Seq<(Seq<char>, TensorMetadataView)>,
) -> Seq<WeightDtypeMismatchView>
    decreases entries.len(),
{
    if entries.len() == 0 {
        Seq::empty()
    } else {
        let prev = dtype_mismatches_spec(entries.drop_last(), meta);
        let e = entries.last();
        if dtype_differs(e, meta) {
            prev.push(
                WeightDtypeMismatchView {
                    canonical_key: e.canonical_key,
                    matched_key: found_key(e, meta),
                    expected_dtype: e.expected_dtype,
                    actual_dtype: found_metadata(e, meta).dtype,
                },
            )
        } else {
            prev
        }
    }
}

/// The shape mismatches, in contract order.
pub open spec fn shape_mismatches_spec(
    entries: Seq<ExpectedEntryView>,
    meta: Seq<(Seq<char>, TensorMetadataView)>,
) -> Seq<WeightShapeMismatchView>
    decreases entries.len(),
{
    if entries.len() == 0 {
        Seq::empty()
    } else {
        let prev = shape_mismatches_spec(entries.drop_last(), meta);
        let e = entries.last();
        if shape_differs(e, meta) {
            prev.push(
                WeightShapeMismatchView {
                    canonical_key: e.canonical_key,
                    matched_key: found_key(e, meta),
                    expected_shape: e.expected_shape,
                    actual_shape: found_metadata(e, meta).shape,
                },
            )
        } else {
            prev
        }
    }
}

/// The keys under which contract tensors were found: required ones first.
pub open spec fn used_keys_spec(
    entries: Seq<ExpectedEntryView>,
    meta: Seq<(Seq<char>, TensorMetadataView)>,
) -> Seq<Seq<char>> {
    matched_keys_of(matches_spec(entries, meta, true) + matches_spec(entries, meta, false))
}

/// The keys under which the matches were found.
pub open spec fn matched_keys_of(s: Seq<WeightMatchView>) -> Seq<Seq<char>> {
    s.map_values(|m: WeightMatchView| m.matched_key)
}

/// The keys of `available` that are not in `used`, in order.
pub open spec fn unused_spec(available: Seq<Seq<char>>, used: Seq<Seq<char>>) -> Seq<Seq<char>>
    decreases available.len(),
{
    if available.len() == 0 {
        Seq::empty()
    } else {
        let prev = unused_spec(available.drop_last(), used);
        if used.contains(available.last()) {
            prev
        } else {
            prev.push(available.last())
        }
    }
}

/// The report on a checkpoint for a configuration, given its available keys
/// in ascending order.
pub open spec fn inspection_spec(
    meta: Seq<(Seq<char>, TensorMetadataView)>,
    config: ModelConfig,
    available: Seq<Seq<char>>,
) -> WeightInspectionReportView {
    let entries = expected_weight_entries_spec(config);
    WeightInspectionReportView {
        available_keys: available,
        matched_required: matches_spec(entries, meta, true),
        matched_optional: matches_spec(entries, meta, false),
        missing_required: missing_spec(entries, meta, true),
        missing_optional: missing_spec(entries, meta, false),
        dtype_mismatches: dtype_mismatches_spec(entries, meta),
        shape_mismatches: shape_mismatches_spec(entries, meta),
        unused_keys: unused_spec(available, used_keys_spec(entries, meta)),
    }
}

/// Index of the first tensor stored under `key`.
pub(crate) fn lookup_index(meta: &Vec<(String, TensorMetadata)>, key: &String) -> (r: Option<usize>)
    ensures
        r is None ==> meta_lookup(metadata_views(meta@), key@) is None,
        r matches Some(j) ==> j < meta@.len() && meta@[j as int].0@ == key@ && meta_lookup(
            metadata_views(meta@),
            key@,
        ) == Some(meta@[j as int].1@),
{
    let ghost mv = metadata_views(meta@);
    assert(mv.subrange(0, mv.len() as int) =~= mv);
    for j in 0..meta.len()
        invariant
            mv == metadata_views(meta@),
            meta_lookup(mv, key@) == meta_lookup(mv.subrange(j as int, mv.len() as int), key@),
    {
        let ghost rest = mv.subrange(j as int, mv.len() as int);
        assert(rest[0] == (meta@[j as int].0@, meta@[j as int].1@));
        if meta[j].0 == *key {
            return Some(j);
        }
        assert(rest.drop_first() =~= mv.subrange(j + 1, mv.len() as int));
    }
    None
}

/// The first accepted key the checkpoint holds, with the index of its entry.
pub(crate) fn first_present_index(candidates: &Vec<String>, meta: &Vec<(String, TensorMetadata)>) -> (r: Option<
    (usize, usize),
>)
    ensures
        r is None ==> first_present(key_views(candidates@), metadata_views(meta@)) is None,
        r matches Some((c, j)) ==> c < candidates@.len() && j < meta@.len() && first_present(
            key_views(candidates@),
            metadata_views(meta@),
        ) == Some(candidates@[c as int]@) && meta@[j as int].0@ == candidates@[c as int]@
            && meta_lookup(metadata_views(meta@), candidates@[c as int]@) == Some(
            meta@[j as int].1@,
        ),
{
    let ghost cv = key_views(candidates@);
    let ghost mv = metadata_views(meta@);
    assert(cv.subrange(0, cv.len() as int) =~= cv);
    for c in 0..candidates.len()
        invariant
            cv == key_views(candidates@),
            mv == metadata_views(meta@),
            first_present(cv, mv) == first_present(cv.subrange(c as int, cv.len() as int), mv),
    {
        let ghost rest = cv.subrange(c as int, cv.len() as int);
        assert(rest[0] == candidates@[c as int]@);
        match lookup_index(meta, &candidates[c]) {
            Some(j) => {
                return Some((c, j));
            },
            None => {},
        }
        assert(rest.drop_first() =~= cv.subrange(c + 1, cv.len() as int));
    }
    None
}

/// Whether `keys` holds `key`.
fn contains_key(keys: &Vec<String>, key: &String) -> (r: bool)
    ensures
        r == key_views(keys@).contains(key@),
{
    for i in 0..keys.len()
        invariant
            forall|k: int| 0 <= k < i ==> keys@[k]@ != key@,
    {
        if keys[i] == *key {
            assert(key_views(keys@)[i as int] == key@);
            return true;
        }
    }
    assert forall|k: int| 0 <= k < key_views(keys@).len() implies key_views(keys@)[k] != key@ by {
        assert(key_views(keys@)[k] == keys@[k]@);
    }
    false
}

pub(crate) fn clone_shape(v: &Vec<usize>) -> (r: Vec<usize>)
    ensures
        r@ == v@,
{
    let mut r: Vec<usize> = Vec::new();
    for i in 0..v.len()
        invariant
            r@ == v@.subrange(0, i as int),
    {
        r.push(v[i]);
        assert(r@ =~= v@.subrange(0, i + 1));
    }
    assert(r@ =~= v@);
    r
}

pub(crate) fn shapes_equal(a: &Vec<usize>, b: &Vec<usize>) -> (r: bool)
    ensures
        r == (a@ == b@),
{
    if a.len() != b.len() {
        return false;
    }
    for i in 0..a.len()
        invariant
            a@.len() == b@.len(),
            forall|k: int| 0 <= k < i ==> a@[k] == b@[k],
    {
        if a[i] != b[i] {
            return false;
        }
    }
    assert(a@ =~= b@);
    true
}

/// Whether the keys of a tensor list are pairwise distinct, as those of a
/// checkpoint are.
pub fn metadata_keys_distinct(metadata: &Vec<(String, TensorMetadata)>) -> (r: bool)
    ensures
        r == key_views(metadata_keys(metadata@)).no_duplicates(),
{
    let ghost keys = key_views(metadata_keys(metadata@));
    for i in 0..metadata.len()
        invariant
            keys == key_views(metadata_keys(metadata@)),
            forall|a: int, b: int| 0 <= a < i && 0 <= b < keys.len() && a != b ==> keys[a] != keys[b],
    {
        for j in 0..metadata.len()
            invariant
                i < metadata@.len(),
                keys == key_views(metadata_keys(metadata@)),
                forall|a: int, b: int| 0 <= a < i && 0 <= b < keys.len() && a != b ==> keys[a] != keys[b],
                forall|b: int| 0 <= b < j && b != i ==> keys[i as int] != keys[b],
        {
            assert(keys[i as int] == metadata@[i as int].0@ && keys[j as int] == metadata@[j as int].0@);
            if j != i && metadata[i].0 == metadata[j].0 {
                return false;
            }
        }
    }
    true
}

/// Checks a checkpoint's tensor list against the contract for `config`:
/// which contract tensors were found and under which key (the first of its
/// accepted keys that the list holds), which are missing, which found ones
/// have another known element type or shape, and which listed keys no
/// contract tensor uses. The available keys are reported in ascending order.
pub fn inspect_weight_metadata(metadata: &Vec<(String, TensorMetadata)>, config: &ModelConfig) -> (r:
    WeightInspectionReport)
    requires
        config_dims_fit(*config),
        key_views(metadata_keys(metadata@)).no_duplicates(),
    ensures
        r.available_keys@.to_multiset() == metadata_keys(metadata@).to_multiset(),
        texts_sorted(key_views(r.available_keys@)),
        r@ == inspection_spec(metadata_views(metadata@), *config, key_views(r.available_keys@)),
{
    let ghost mv = metadata_views(metadata@);
    let mut keys: Vec<String> = Vec::new();
    for i in 0..metadata.len()
        invariant
            keys@ == metadata_keys(metadata@).take(i as int),
    {
        keys.push(metadata[i].0.clone());
        assert(keys@ =~= metadata_keys(metadata@).take(i + 1));
    }
    assert(metadata_keys(metadata@).take(metadata@.len() as int) =~= metadata_keys(metadata@));
    let available_keys = sort_texts(&keys);

    let entries = expected_weight_entries(config);
    let ghost ev = entry_views(entries@);
    let mut matched_required: Vec<WeightMatch> = Vec::new();
    let mut matched_optional: Vec<WeightMatch> = Vec::new();
    let mut missing_required: Vec<String> = Vec::new();
    let mut missing_optional: Vec<String> = Vec::new();
    let mut dtype_mismatches: Vec<WeightDtypeMismatch> = Vec::new();
    let mut shape_mismatches: Vec<WeightShapeMismatch> = Vec::new();

    for i in 0..entries.len()
        invariant
            mv == metadata_views(metadata@),
            ev == entry_views(entries@),
            match_views(matched_required@) == matches_spec(ev.take(i as int), mv, true),
            match_views(matched_optional@) == matches_spec(ev.take(i as int), mv, false),
            key_views(missing_required@) == missing_spec(ev.take(i as int), mv, true),
            key_views(missing_optional@) == missing_spec(ev.take(i as int), mv, false),
            dtype_mismatch_views(dtype_mismatches@) == dtype_mismatches_spec(ev.take(i as int), mv),
            shape_mismatch_views(shape_mismatches@) == shape_mismatches_spec(ev.take(i as int), mv),
    {
        let expected = &entries[i];
        let ghost e = ev[i as int];
        assert(e == expected@);
        assert(ev.take(i + 1).drop_last() =~= ev.take(i as int));
        assert(ev.take(i + 1).last() == e);
        let ghost mr = matched_required@;
        let ghost mo = matched_optional@;
        let ghost xr = missing_required@;
        let ghost xo = missing_optional@;
        let ghost dm = dtype_mismatches@;
        let ghost sm = shape_mismatches@;
        match first_present_index(&expected.candidate_keys, metadata) {
            Some((c, j)) => {
                let matched_key = expected.candidate_keys[c].clone();
                let tensor_metadata = &metadata[j].1;
                assert(found_key(e, mv) == matched_key@);
                assert(found_metadata(e, mv) == tensor_metadata@);
                let matched = WeightMatch {
                    canonical_key: expected.canonical_key.clone(),
                    matched_key: matched_key.clone(),
                };
                if expected.required {
                    matched_required.push(matched);
                    assert(match_views(matched_required@) =~= match_views(mr).push(matched@));
                } else {
                    matched_optional.push(matched);
                    assert(match_views(matched_optional@) =~= match_views(mo).push(matched@));
                }
                let unknown = "unknown".to_owned();
                if !(tensor_metadata.dtype == unknown) && !(tensor_metadata.dtype
                    == expected.expected_dtype) {
                    let mismatch = WeightDtypeMismatch {
                        canonical_key: expected.canonical_key.clone(),
                        matched_key: matched_key.clone(),
                        expected_dtype: expected.expected_dtype.clone(),
                        actual_dtype: tensor_metadata.dtype.clone(),
                    };
                    dtype_mismatches.push(mismatch);
                    assert(dtype_mismatch_views(dtype_mismatches@) =~= dtype_mismatch_views(
                        dm,
                    ).push(mismatch@));
                }
                if tensor_metadata.shape.len() != 0 && !shapes_equal(
                    &tensor_metadata.shape,
                    &expected.expected_shape,
                ) {
                    let mismatch = WeightShapeMismatch {
                        canonical_key: expected.canonical_key.clone(),
                        matched_key: matched_key.clone(),
                        expected_shape: clone_shape(&expected.expected_shape),
                        actual_shape: clone_shape(&tensor_metadata.shape),
                    };
                    shape_mismatches.push(mismatch);
                    assert(shape_mismatch_views(shape_mismatches@) =~= shape_mismatch_views(
                        sm,
                    ).push(mismatch@));
                }
            },
            None => {
                if expected.required {
                    missing_required.push(expected.canonical_key.clone());
                    assert(key_views(missing_required@) =~= key_views(xr).push(e.canonical_key));
                } else {
                    missing_optional.push(expected.canonical_key.clone());
                    assert(key_views(missing_optional@) =~= key_views(xo).push(e.canonical_key));
                }
            },
        }
    }
    assert(ev.take(entries@.len() as int) =~= ev);

    let mut used_keys: Vec<String> = Vec::new();
    let ghost all_matches = match_views(matched_required@) + match_views(matched_optional@);
    for i in 0..matched_required.len()
        invariant
            all_matches == match_views(matched_required@) + match_views(matched_optional@),
            used_keys@.len() == i,
            i <= matched_required@.len(),
            forall|k: int| 0 <= k < i ==> #[trigger] used_keys@[k]@ == all_matches[k].matched_key,
    {
        used_keys.push(matched_required[i].matched_key.clone());
    }
    let base = matched_required.len();
    for i in 0..matched_optional.len()
        invariant
            all_matches == match_views(matched_required@) + match_views(matched_optional@),
            base == matched_required@.len(),
            used_keys@.len() == base + i,
            forall|k: int| 0 <= k < base + i ==> #[trigger] used_keys@[k]@
                == all_matches[k].matched_key,
    {
        used_keys.push(matched_optional[i].matched_key.clone());
        assert(all_matches[base + i] == matched_optional@[i as int]@);
    }
    assert(key_views(used_keys@) =~= matched_keys_of(all_matches));
    assert(key_views(used_keys@) =~= used_keys_spec(ev, mv));

    let mut unused_keys: Vec<String> = Vec::new();
    let ghost av = key_views(available_keys@);
    for i in 0..available_keys.len()
        invariant
            av == key_views(available_keys@),
            key_views(used_keys@) == used_keys_spec(ev, mv),
            key_views(unused_keys@) == unused_spec(av.take(i as int), key_views(used_keys@)),
    {
        assert(av.take(i + 1).drop_last() =~= av.take(i as int));
        assert(av.take(i + 1).last() == available_keys@[i as int]@);
        let ghost before = unused_keys@;
        if !contains_key(&used_keys, &available_keys[i]) {
            unused_keys.push(available_keys[i].clone());
            assert(key_views(unused_keys@) =~= key_views(before).push(available_keys@[i as int]@));
        }
    }
    assert(av.take(available_keys@.len() as int) =~= av);

    WeightInspectionReport {
        available_keys,
        matched_required,
        matched_optional,
        missing_required,
        missing_optional,
        dtype_mismatches,
        shape_mismatches,
        unused_keys,
    }
}

impl WeightInspectionReport {
    /// `found/total` for the required tensors: the number found, a slash,
    /// and the number found plus the number missing.
    pub fn required_coverage(&self) -> (r: String)
        requires
            self.matched_required@.len() + self.missing_required@.len() <= usize::MAX,
        ensures
            r@ == decimal(self.matched_required@.len()) + "/"@ + decimal(
                self.matched_required@.len() + self.missing_required@.len(),
            ),
    {
        let mut r = String::new();
        append_decimal(&mut r, self.matched_required.len());
        append_str(&mut r, "/");
        append_decimal(&mut r, self.matched_required.len() + self.missing_required.len());
        r
    }
}

/// The message with which strict inspection refuses a report.
pub open spec fn strict_failure_message(missing: nat, shapes: nat, dtypes: nat) -> Seq<char> {
    "strict weight inspection failed: "@ + decimal(missing) + " missing required, "@ + decimal(
        shapes,
    ) + " shape mismatches, "@ + decimal(dtypes) + " dtype mismatches"@
}

/// Strict checkpoint gate: when `strict`, a report with a missing required
/// tensor, a shape mismatch or an element-type mismatch is refused with a
/// message that counts them.
pub fn enforce_strict_weight_report(report: &WeightInspectionReport, strict: bool) -> (r:
    core::result::Result<(), String>)
    ensures
        r is Err <==> strict && (report.missing_required@.len() > 0
            || report.shape_mismatches@.len() > 0 || report.dtype_mismatches@.len() > 0),
        r matches Err(m) ==> m@ == strict_failure_message(
            report.missing_required@.len(),
            report.shape_mismatches@.len(),
            report.dtype_mismatches@.len(),
        ),
{
    if strict && (report.missing_required.len() > 0 || report.shape_mismatches.len() > 0
        || report.dtype_mismatches.len() > 0) {
        let mut m = "strict weight inspection failed: ".to_owned();
        append_decimal(&mut m, report.missing_required.len());
        append_str(&mut m, " missing required, ");
        append_decimal(&mut m, report.shape_mismatches.len());
        append_str(&mut m, " shape mismatches, ");
        append_decimal(&mut m, report.dtype_mismatches.len());
        append_str(&mut m, " dtype mismatches");
        return Err(m);
    }
    Ok(())
}

/// `s` without repeated texts, each kept at its first occurrence.
pub open spec fn dedup_keys(s: Seq<String>) -> Seq<String>
    decreases s.len(),
{
    if s.len() == 0 {
        Seq::empty()
    } else {
        let prev = dedup_keys(s.drop_last());
        if key_views(prev).contains(s.last()@) {
            prev
        } else {
            prev.push(s.last())
        }
    }
}

proof fn lemma_dedup_distinct(s: Seq<String>)
    ensures
        key_views(dedup_keys(s)).no_duplicates(),
    decreases s.len(),
{
    if s.len() > 0 {
        let prev = dedup_keys(s.drop_last());
        lemma_dedup_distinct(s.drop_last());
        if !key_views(prev).contains(s.last()@) {
            let v = key_views(prev.push(s.last()));
            assert(v =~= key_views(prev).push(s.last()@));
            assert forall|i: int, j: int| 0 <= i < v.len() && 0 <= j < v.len() && i != j implies v[i]
                != v[j] by {
                if j == v.len() - 1 {
                    assert(key_views(prev)[i] == v[i]);
                } else if i == v.len() - 1 {
                    assert(key_views(prev)[j] == v[j]);
                } else {
                    assert(key_views(prev)[i] == v[i] && key_views(prev)[j] == v[j]);
                }
            }
        }
    }
}

/// Metadata that knows neither shape nor element type, for each key.
pub open spec fn unknown_metadata(keys: Seq<Seq<char>>) -> Seq<(Seq<char>, TensorMetadataView)> {
    keys.map_values(|k: Seq<char>| (k, TensorMetadataView { shape: Seq::empty(), dtype: "unknown"@ }))
}

/// Checks a bare list of checkpoint keys (shapes and element types unknown)
/// against the contract; repeated keys count once.
pub fn inspect_weight_keys(keys: &[String], config: &ModelConfig) -> (r: WeightInspectionReport)
    requires
        config_dims_fit(*config),
    ensures
        r.available_keys@.to_multiset() == dedup_keys(keys@).to_multiset(),
        texts_sorted(key_views(r.available_keys@)),
        r@ == inspection_spec(
            unknown_metadata(key_views(dedup_keys(keys@))),
            *config,
            key_views(r.available_keys@),
        ),
{
    let mut distinct: Vec<String> = Vec::new();
    for i in 0..keys.len()
        invariant
            distinct@ == dedup_keys(keys@.take(i as int)),
    {
        assert(keys@.take(i + 1).drop_last() =~= keys@.take(i as int));
        assert(keys@.take(i + 1).last() == keys@[i as int]);
        let mut present = false;
        for j in 0..distinct.len()
            invariant
                i < keys@.len(),
                present == exists|k: int| 0 <= k < j && distinct@[k]@ == keys@[i as int]@,
        {
            if distinct[j] == keys[i] {
                present = true;
            }
        }
        proof {
            if present {
                let k = choose|k: int| 0 <= k < distinct@.len() && distinct@[k]@ == keys@[i as int]@;
                assert(key_views(distinct@)[k] == keys@[i as int]@);
            } else {
                assert forall|k: int| 0 <= k < key_views(distinct@).len() implies key_views(
                    distinct@,
                )[k] != keys@[i as int]@ by {
                    assert(key_views(distinct@)[k] == distinct@[k]@);
                }
            }
        }
        if !present {
            distinct.push(keys[i].clone());
        }
    }
    assert(keys@.take(keys@.len() as int) =~= keys@);
    let mut metadata: Vec<(String, TensorMetadata)> = Vec::new();
    for i in 0..distinct.len()
        invariant
            metadata_keys(metadata@) == distinct@.take(i as int),
            metadata_views(metadata@) == unknown_metadata(key_views(distinct@.take(i as int))),
    {
        let entry = (
            distinct[i].clone(),
            TensorMetadata { shape: Vec::new(), dtype: "unknown".to_owned() },
        );
        let ghost before = metadata@;
        metadata.push(entry);
        assert(metadata@ == before.push(entry));
        assert(entry.1@.shape =~= Seq::<usize>::empty());
        assert(metadata_views(metadata@) =~= metadata_views(before).push((distinct@[i as int]@, entry.1@)));
        assert(key_views(distinct@.take(i + 1)) =~= key_views(distinct@.take(i as int)).push(distinct@[i as int]@));
        assert(metadata_keys(metadata@) =~= distinct@.take(i + 1));
        assert(metadata_views(metadata@) =~= unknown_metadata(key_views(distinct@.take(i + 1))));
    }
    assert(distinct@.take(distinct@.len() as int) =~= distinct@);
    proof {
        lemma_dedup_distinct(keys@);
        assert(key_views(metadata_keys(metadata@)) == key_views(dedup_keys(keys@)));
    }
    inspect_weight_metadata(&metadata, config)
}

/// A contract tensor is accepted first under its canonical key, and its
/// element type is `F32`.
pub open spec fn entry_well_formed(e: ExpectedEntryView) -> bool {
    &&& e.candidate_keys.len() > 0
    &&& e.candidate_keys[0] == e.canonical_key
    &&& e.expected_dtype == "F32"@
}

/// Every tensor of a list is well formed.
pub open spec fn entries_well_formed(s: Seq<ExpectedEntryView>) -> bool {
    forall|i: int| 0 <= i < s.len() ==> #[trigger] entry_well_formed(s[i])
}

proof fn lemma_well_formed_concat(a: Seq<ExpectedEntryView>, b: Seq<ExpectedEntryView>)
    requires
        entries_well_formed(a),
        entries_well_formed(b),
    ensures
        entries_well_formed(a + b),
{
    assert forall|i: int| 0 <= i < (a + b).len() implies #[trigger] entry_well_formed((a + b)[i]) by {
        if i < a.len() {
            assert((a + b)[i] == a[i]);
        } else {
            assert((a + b)[i] == b[i - a.len()]);
        }
    }
}

pub(crate) proof fn lemma_param_suffixes()
    ensures
        param_suffixes("weight"@).0 == "weight"@,
        param_suffixes("bias"@).0 == "bias"@,
        layer_norm_suffixes("weight"@).0 == "layer_norm.weight"@,
        layer_norm_suffixes("bias"@).0 == "layer_norm.bias"@,
{
    reveal_strlit("weight");
    reveal_strlit("bias");
    assert("bias"@ != "weight"@) by {
        assert("bias"@.len() != "weight"@.len());
    }
}

proof fn lemma_linear_well_formed(prefix: Seq<char>, input_dim: usize, output_dim: usize, required: bool)
    ensures
        entries_well_formed(expected_linear_entries_spec(prefix, input_dim, output_dim, required)),
{
    reveal(expected_linear_entries_spec);
}

proof fn lemma_mlp_well_formed(
    canonical_prefix: Seq<char>,
    input_dim: usize,
    hidden_dim: usize,
    output_dim: usize,
    with_layer_norm: bool,
    required: bool,
    hidden_layers: usize,
    prefixes: Seq<Seq<char>>,
)
    requires
        prefixes.len() > 0,
        prefixes[0] == canonical_prefix,
        hidden_layers < usize::MAX,
    ensures
        entries_well_formed(
            expected_mlp_entries_spec(
                canonical_prefix,
                input_dim,
                hidden_dim,
                output_dim,
                with_layer_norm,
                required,
                hidden_layers,
                prefixes,
            ),
        ),
{
    reveal(expected_mlp_entries_spec);
    lemma_param_suffixes();
    let layers = mlp_layer_entries_spec(
        canonical_prefix,
        input_dim,
        hidden_dim,
        output_dim,
        required,
        hidden_layers,
        prefixes,
    );
    assert forall|k: int| 0 <= k < layers.len() implies #[trigger] entry_well_formed(layers[k]) by {
        let i = k / 2;
        if k % 2 == 0 {
            assert(layers[k].candidate_keys[0] == layer_key(
                prefixes[0],
                layer_name(i as nat),
                param_suffixes("weight"@).0,
            ));
        } else {
            assert(layers[k].candidate_keys[0] == layer_key(
                prefixes[0],
                layer_name(i as nat),
                param_suffixes("bias"@).0,
            ));
        }
    }
    let norms = if with_layer_norm {
        layer_norm_entries_spec(canonical_prefix, hidden_dim, required, prefixes)
    } else {
        Seq::empty()
    };
    if with_layer_norm {
        assert(norms[0].candidate_keys[0] == dotted(prefixes[0], layer_norm_suffixes("weight"@).0));
        assert(norms[1].candidate_keys[0] == dotted(prefixes[0], layer_norm_suffixes("bias"@).0));
    }
    assert(entries_well_formed(norms));
    lemma_well_formed_concat(layers, norms);
}

proof fn lemma_hidden_well_formed(config: ModelConfig, n: int)
    requires
        config_dims_fit(config),
        0 <= n <= 5,
    ensures
        entries_well_formed(hidden_entries_upto(config, n)),
    decreases n,
{
    if n > 0 {
        lemma_hidden_well_formed(config, n - 1);
        let p = hidden_mlp_prefixes()[n - 1];
        assert(seq![p][0] == p);
        lemma_mlp_well_formed(
            p,
            encoder_like_input_dim_spec(p, config) as usize,
            config.hidden_dim,
            config.hidden_dim,
            config.use_layer_norm,
            true,
            hidden_layers_for_spec(p, config),
            seq![p],
        );
        lemma_well_formed_concat(hidden_entries_upto(config, n - 1), hidden_mlp_entries_spec(p, config));
    }
}

/// Every tensor of the contract is accepted first under its canonical key,
/// and every one has the element type `F32`.
pub proof fn lemma_contract_well_formed(config: ModelConfig)
    requires
        config_dims_fit(config),
    ensures
        entries_well_formed(expected_weight_entries_spec(config)),
{
    lemma_linear_well_formed("input_projection"@, config.input_channels, config.hidden_dim, false);
    lemma_linear_well_formed("output_projection"@, config.hidden_dim, config.output_channels, false);
    lemma_hidden_well_formed(config, 5);
    lemma_mlp_well_formed(
        "decoder_node_mlp"@,
        (config.input_channels + config.hidden_dim) as usize,
        config.hidden_dim,
        config.output_channels,
        false,
        true,
        config.n_mlp_layers_decoder,
        seq!["decoder_node_mlp"@],
    );
    lemma_mlp_well_formed(
        "processor_edge_init_mlp"@,
        LOCAL_COORDINATE_WIDTH,
        config.hidden_dim,
        config.hidden_dim,
        true,
        false,
        0,
        edge_init_prefixes(),
    );
    let a = expected_linear_entries_spec("input_projection"@, config.input_channels, config.hidden_dim, false);
    let b = expected_linear_entries_spec("output_projection"@, config.hidden_dim, config.output_channels, false);
    let c = hidden_entries_upto(config, 5);
    let d = expected_mlp_entries_spec(
        "decoder_node_mlp"@,
        (config.input_channels + config.hidden_dim) as usize,
        config.hidden_dim,
        config.output_channels,
        false,
        true,
        config.n_mlp_layers_decoder,
        seq!["decoder_node_mlp"@],
    );
    let e = expected_mlp_entries_spec(
        "processor_edge_init_mlp"@,
        LOCAL_COORDINATE_WIDTH,
        config.hidden_dim,
        config.hidden_dim,
        true,
        false,
        0,
        edge_init_prefixes(),
    );
    lemma_well_formed_concat(a, b);
    lemma_well_formed_concat(a + b, c);
    lemma_well_formed_concat(a + b + c, d);
    lemma_well_formed_concat(a + b + c + d, e);
}

/// The number of tensors of a list with the given `required` flag.
pub open spec fn class_count(entries: Seq<ExpectedEntryView>, required: bool) -> nat
    decreases entries.len(),
{
    if entries.len() == 0 {
        0
    } else {
        class_count(entries.drop_last(), required) + if entries.last().required == required {
            1nat
        } else {
            0nat
        }
    }
}

proof fn lemma_found_plus_missing(
    entries: Seq<ExpectedEntryView>,
    meta: Seq<(Seq<char>, TensorMetadataView)>,
    required: bool,
)
    ensures
        matches_spec(entries, meta, required).len() + missing_spec(entries, meta, required).len()
            == class_count(entries, required),
    decreases entries.len(),
{
    if entries.len() > 0 {
        lemma_found_plus_missing(entries.drop_last(), meta, required);
    }
}

/// Whatever the checkpoint holds, the found and the missing required
/// tensors add up to the number of required tensors of the contract, and
/// likewise for the optional ones: a report's required coverage is always
/// out of the same total.
pub proof fn lemma_coverage_total(
    meta: Seq<(Seq<char>, TensorMetadataView)>,
    config: ModelConfig,
    available: Seq<Seq<char>>,
)
    ensures
        inspection_spec(meta, config, available).matched_required.len() + inspection_spec(
            meta,
            config,
            available,
        ).missing_required.len() == class_count(expected_weight_entries_spec(config), true),
        inspection_spec(meta, config, available).matched_optional.len() + inspection_spec(
            meta,
            config,
            available,
        ).missing_optional.len() == class_count(expected_weight_entries_spec(config), false),
{
    lemma_found_plus_missing(expected_weight_entries_spec(config), meta, true);
    lemma_found_plus_missing(expected_weight_entries_spec(config), meta, false);
}

/// The tensor list holds, under the canonical key of each contract tensor,
/// a tensor of the contract's shape with element type `F32`.
pub open spec fn holds_contract(meta: Seq<(Seq<char>, TensorMetadataView)>, config: ModelConfig) -> bool {
    forall|i: int|
        0 <= i < expected_weight_entries_spec(config).len() ==> meta_lookup(
            meta,
            #[trigger] expected_weight_entries_spec(config)[i].canonical_key,
        ) == Some(
            TensorMetadataView {
                shape: expected_weight_entries_spec(config)[i].expected_shape,
                dtype: "F32"@,
            },
        )
}

/// Every key of the tensor list is the canonical key of a contract tensor.
pub open spec fn only_contract_keys(meta: Seq<(Seq<char>, TensorMetadataView)>, config: ModelConfig) -> bool {
    forall|j: int|
        0 <= j < meta.len() ==> exists|i: int|
            0 <= i < expected_weight_entries_spec(config).len()
                && #[trigger] expected_weight_entries_spec(config)[i].canonical_key == #[trigger] meta[j].0
}

proof fn lemma_found_canonical(e: ExpectedEntryView, meta: Seq<(Seq<char>, TensorMetadataView)>)
    requires
        entry_well_formed(e),
        meta_lookup(meta, e.canonical_key) is Some,
    ensures
        entry_found(e, meta),
        found_key(e, meta) == e.canonical_key,
        found_metadata(e, meta) == meta_lookup(meta, e.canonical_key)->0,
{
}

proof fn lemma_nothing_differs(
    entries: Seq<ExpectedEntryView>,
    meta: Seq<(Seq<char>, TensorMetadataView)>,
    required: bool,
)
    requires
        forall|i: int| 0 <= i < entries.len() ==> entry_found(#[trigger] entries[i], meta),
        forall|i: int| 0 <= i < entries.len() ==> !dtype_differs(#[trigger] entries[i], meta),
        forall|i: int| 0 <= i < entries.len() ==> !shape_differs(#[trigger] entries[i], meta),
    ensures
        missing_spec(entries, meta, required).len() == 0,
        dtype_mismatches_spec(entries, meta).len() == 0,
        shape_mismatches_spec(entries, meta).len() == 0,
    decreases entries.len(),
{
    if entries.len() > 0 {
        let last = entries.len() - 1;
        assert(entries.last() == entries[last]);
        assert(entry_found(entries[last], meta));
        assert(!dtype_differs(entries[last], meta));
        assert(!shape_differs(entries[last], meta));
        let prev = entries.drop_last();
        assert forall|i: int| 0 <= i < prev.len() implies entry_found(#[trigger] prev[i], meta)
            && !dtype_differs(prev[i], meta) && !shape_differs(prev[i], meta) by {
            assert(prev[i] == entries[i]);
        }
        lemma_nothing_differs(prev, meta, required);
    }
}

proof fn lemma_match_listed(
    entries: Seq<ExpectedEntryView>,
    meta: Seq<(Seq<char>, TensorMetadataView)>,
    i: int,
)
    requires
        0 <= i < entries.len(),
        entry_found(entries[i], meta),
    ensures
        matched_keys_of(matches_spec(entries, meta, entries[i].required)).contains(
            found_key(entries[i], meta),
        ),
    decreases entries.len(),
{
    let required = entries[i].required;
    let prev = matches_spec(entries.drop_last(), meta, required);
    if i == entries.len() - 1 {
        let m = matches_spec(entries, meta, required);
        assert(m[m.len() - 1].matched_key == found_key(entries[i], meta));
        assert(matched_keys_of(m)[m.len() - 1] == found_key(entries[i], meta));
    } else {
        assert(entries.drop_last()[i] == entries[i]);
        lemma_match_listed(entries.drop_last(), meta, i);
        let m = matches_spec(entries, meta, required);
        let k = choose|k: int| 0 <= k < matched_keys_of(prev).len() && matched_keys_of(prev)[k]
            == found_key(entries[i], meta);
        assert(m[k] == prev[k]);
        assert(matched_keys_of(m)[k] == found_key(entries[i], meta));
    }
}

pub(crate) proof fn lemma_lookup_is_entry(meta: Seq<(Seq<char>, TensorMetadataView)>, key: Seq<char>)
    requires
        meta_lookup(meta, key) is Some,
    ensures
        exists|j: int| 0 <= j < meta.len() && meta[j].0 == key && meta[j].1 == meta_lookup(meta, key)->0,
    decreases meta.len(),
{
    if meta[0].0 != key {
        lemma_lookup_is_entry(meta.drop_first(), key);
        let j = choose|j: int|
            0 <= j < meta.drop_first().len() && meta.drop_first()[j].0 == key
                && meta.drop_first()[j].1 == meta_lookup(meta.drop_first(), key)->0;
        assert(meta[j + 1] == meta.drop_first()[j]);
    }
}

proof fn lemma_lookup_of_member(meta: Seq<(Seq<char>, TensorMetadataView)>, j: int)
    requires
        0 <= j < meta.len(),
    ensures
        meta_lookup(meta, meta[j].0) is Some,
    decreases meta.len(),
{
    if j > 0 && meta[0].0 != meta[j].0 {
        assert(meta.drop_first()[j - 1] == meta[j]);
        lemma_lookup_of_member(meta.drop_first(), j - 1);
    }
}

proof fn lemma_all_used(available: Seq<Seq<char>>, used: Seq<Seq<char>>)
    requires
        forall|k: int| 0 <= k < available.len() ==> used.contains(#[trigger] available[k]),
    ensures
        unused_spec(available, used).len() == 0,
    decreases available.len(),
{
    if available.len() > 0 {
        let prev = available.drop_last();
        assert(available.last() == available[available.len() - 1]);
        assert forall|k: int| 0 <= k < prev.len() implies used.contains(#[trigger] prev[k]) by {
            assert(prev[k] == available[k]);
        }
        lemma_all_used(prev, used);
    }
}

/// A checkpoint that holds every contract tensor under its canonical key,
/// with the contract's shape and element type `F32`, is reported with no
/// missing tensor and no shape or element-type mismatch, so that strict
/// inspection accepts it; if moreover it holds nothing else, and the
/// available keys are its keys, no key is reported unused.
pub proof fn lemma_complete_checkpoint_is_clean(
    meta: Seq<(Seq<char>, TensorMetadataView)>,
    config: ModelConfig,
    available: Seq<Seq<char>>,
)
    requires
        config_dims_fit(config),
        holds_contract(meta, config),
    ensures
        inspection_spec(meta, config, available).missing_required.len() == 0,
        inspection_spec(meta, config, available).missing_optional.len() == 0,
        inspection_spec(meta, config, available).dtype_mismatches.len() == 0,
        inspection_spec(meta, config, available).shape_mismatches.len() == 0,
        only_contract_keys(meta, config) && (forall|k: int|
            0 <= k < available.len() ==> exists|j: int|
                0 <= j < meta.len() && meta[j].0 == #[trigger] available[k]) ==> inspection_spec(
            meta,
            config,
            available,
        ).unused_keys.len() == 0,
{
    let entries = expected_weight_entries_spec(config);
    lemma_contract_well_formed(config);
    assert forall|i: int| 0 <= i < entries.len() implies entry_found(#[trigger] entries[i], meta)
        && !dtype_differs(entries[i], meta) && !shape_differs(entries[i], meta) by {
        assert(entry_well_formed(entries[i]));
        lemma_found_canonical(entries[i], meta);
    }
    lemma_nothing_differs(entries, meta, true);
    lemma_nothing_differs(entries, meta, false);
    let used = used_keys_spec(entries, meta);
    if only_contract_keys(meta, config) && (forall|k: int|
        0 <= k < available.len() ==> exists|j: int|
            0 <= j < meta.len() && meta[j].0 == #[trigger] available[k]) {
        assert forall|k: int| 0 <= k < available.len() implies used.contains(
            #[trigger] available[k],
        ) by {
            let j = choose|j: int| 0 <= j < meta.len() && meta[j].0 == available[k];
            let i = choose|i: int|
                0 <= i < entries.len() && #[trigger] entries[i].canonical_key == meta[j].0;
            assert(entry_well_formed(entries[i]));
            lemma_found_canonical(entries[i], meta);
            lemma_match_listed(entries, meta, i);
            let mr = matches_spec(entries, meta, true);
            let mo = matches_spec(entries, meta, false);
            assert(matched_keys_of(mr + mo) =~= matched_keys_of(mr) + matched_keys_of(mo));
            if entries[i].required {
                let t = choose|t: int| 0 <= t < matched_keys_of(mr).len() && matched_keys_of(mr)[t]
                    == available[k];
                assert(used[t] == available[k]);
            } else {
                let t = choose|t: int| 0 <= t < matched_keys_of(mo).len() && matched_keys_of(mo)[t]
                    == available[k];
                assert(used[matched_keys_of(mr).len() + t] == available[k]);
            }
        }
        lemma_all_used(available, used);
    }
}

/// A bare key list cannot disagree with the contract: when only the keys of
/// a checkpoint are known, its inspection reports no shape and no element
/// type mismatch, whatever the keys.
pub proof fn lemma_key_only_inspection_has_no_mismatches(
    keys: Seq<Seq<char>>,
    entries: Seq<ExpectedEntryView>,
)
    ensures
        shape_mismatches_spec(entries, unknown_metadata(keys)).len() == 0,
        dtype_mismatches_spec(entries, unknown_metadata(keys)).len() == 0,
    decreases entries.len(),
{
    let meta = unknown_metadata(keys);
    if entries.len() > 0 {
        lemma_key_only_inspection_has_no_mismatches(keys, entries.drop_last());
        let e = entries.last();
        if entry_found(e, meta) {
            lemma_found_key_present(e.candidate_keys, meta);
            lemma_lookup_is_entry(meta, found_key(e, meta));
            let j = choose|j: int|
                0 <= j < meta.len() && meta[j].0 == found_key(e, meta) && meta[j].1
                    == meta_lookup(meta, found_key(e, meta))->0;
            assert(meta[j].1 == TensorMetadataView { shape: Seq::empty(), dtype: "unknown"@ });
        }
    }
}

pub(crate) proof fn lemma_found_key_present(keys: Seq<Seq<char>>, meta: Seq<(Seq<char>, TensorMetadataView)>)
    requires
        first_present(keys, meta) is Some,
    ensures
        meta_lookup(meta, first_present(keys, meta)->0) is Some,
    decreases keys.len(),
{
    if meta_lookup(meta, keys[0]) is None {
        lemma_found_key_present(keys.drop_first(), meta);
    }
}

} // verus!
