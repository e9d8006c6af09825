//! Laws of the checkpoint contract: how many tensors it lists, how a
//! perceptron's tensors are laid out, that no two tensors share a canonical
//! key, and which tensors a checkpoint must hold.

use vstd::prelude::*;

use crate::config::ModelConfig;
use crate::model::{
    config_dims_fit, dotted, edge_init_prefixes, encoder_like_input_dim_spec,
    expected_linear_entries_spec, expected_mlp_entries_spec, expected_weight_entries_spec,
    hidden_entries_upto, hidden_layers_for_spec, hidden_mlp_entries_spec, hidden_mlp_prefixes,
    layer_key, layer_name, mlp_layer_entries_spec, mlp_layer_input,
    mlp_layer_output, ExpectedEntryView, LOCAL_COORDINATE_WIDTH,
};
use crate::model::{
    dtype_differs, dtype_mismatches_spec, entry_found, found_key, found_metadata, matches_spec,
    missing_spec, shape_differs, shape_mismatches_spec, TensorMetadataView, WeightDtypeMismatchView,
    WeightMatchView, WeightShapeMismatchView,
};
use crate::text::{decimal, is_digit, lemma_decimal_digits, lemma_decimal_injective};

verus! {

/// Number of tensors the contract lists for a perceptron of
/// `hidden_layers + 1` layers: a weight and a bias per layer, and the two
/// layer-norm tensors when it has a layer norm.
pub open spec fn mlp_entry_count(hidden_layers: nat, with_layer_norm: bool) -> nat {
    2 * (hidden_layers + 1) + if with_layer_norm {
        2nat
    } else {
        0nat
    }
}

/// Layout of a perceptron's tensors: entry `2i` is the weight of layer `i`,
/// of shape `[out_i, in_i]` and required as the perceptron is; entry `2i + 1`
/// is its optional bias, of shape `[out_i]`; the layer-norm tensors follow,
/// both of the hidden width. Layer `i` reads the perceptron's input when it
/// is the first and the hidden width otherwise, and writes the perceptron's
/// output when it is the last and the hidden width otherwise.
pub proof fn lemma_mlp_entries_layout(
    canonical_prefix: Seq<char>,
    input_dim: usize,
    hidden_dim: usize,
    output_dim: usize,
    with_layer_norm: bool,
    required: bool,
    hidden_layers: usize,
    prefixes: Seq<Seq<char>>,
)
    ensures
        ({
            let s = expected_mlp_entries_spec(
                canonical_prefix,
                input_dim,
                hidden_dim,
                output_dim,
                with_layer_norm,
                required,
                hidden_layers,
                prefixes,
            );
            let total = hidden_layers + 1;
            &&& s.len() == mlp_entry_count(hidden_layers as nat, with_layer_norm)
            &&& forall|i: int|
                0 <= i < total ==> {
                    &&& #[trigger] s[2 * i].canonical_key == layer_key(
                        canonical_prefix,
                        layer_name(i as nat),
                        "weight"@,
                    )
                    &&& s[2 * i].expected_shape == seq![
                        mlp_layer_output(i, total, output_dim, hidden_dim),
                        mlp_layer_input(i, input_dim, hidden_dim),
                    ]
                    &&& s[2 * i].required == required
                    &&& s[2 * i + 1].canonical_key == layer_key(
                        canonical_prefix,
                        layer_name(i as nat),
                        "bias"@,
                    )
                    &&& s[2 * i + 1].expected_shape == seq![
                        mlp_layer_output(i, total, output_dim, hidden_dim),
                    ]
                    &&& !s[2 * i + 1].required
                }
            &&& with_layer_norm ==> {
                &&& s[2 * total].canonical_key == dotted(canonical_prefix, "layer_norm.weight"@)
                &&& s[2 * total + 1].canonical_key == dotted(canonical_prefix, "layer_norm.bias"@)
                &&& s[2 * total].expected_shape == seq![hidden_dim]
                &&& s[2 * total + 1].expected_shape == seq![hidden_dim]
                &&& s[2 * total].required == required
                &&& s[2 * total + 1].required == required
            }
        }),
{
    reveal(expected_mlp_entries_spec);
    let layers = mlp_layer_entries_spec(
        canonical_prefix,
        input_dim,
        hidden_dim,
        output_dim,
        required,
        hidden_layers,
        prefixes,
    );
    let s = expected_mlp_entries_spec(
        canonical_prefix,
        input_dim,
        hidden_dim,
        output_dim,
        with_layer_norm,
        required,
        hidden_layers,
        prefixes,
    );
    let total = hidden_layers + 1;
    assert forall|i: int| 0 <= i < total implies {
        &&& #[trigger] s[2 * i].canonical_key == layer_key(
            canonical_prefix,
            layer_name(i as nat),
            "weight"@,
        )
        &&& s[2 * i].expected_shape == seq![
            mlp_layer_output(i, total, output_dim, hidden_dim),
            mlp_layer_input(i, input_dim, hidden_dim),
        ]
        &&& s[2 * i].required == required
        &&& s[2 * i + 1].canonical_key == layer_key(canonical_prefix, layer_name(i as nat), "bias"@)
        &&& s[2 * i + 1].expected_shape == seq![mlp_layer_output(i, total, output_dim, hidden_dim)]
        &&& !s[2 * i + 1].required
    } by {
        assert(s[2 * i] == layers[2 * i]);
        assert(s[2 * i + 1] == layers[2 * i + 1]);
        assert((2 * i) / 2 == i && (2 * i) % 2 == 0);
        assert((2 * i + 1) / 2 == i && (2 * i + 1) % 2 == 1);
    }
}

/// Number of tensors in the checkpoint contract: two per projection, a
/// weight and a bias per layer of each perceptron, two layer-norm tensors
/// for each of the five hidden perceptrons when layer norm is on, and four
/// for the one-layer processor edge initialiser.
pub proof fn lemma_contract_entry_count(config: ModelConfig)
    requires
        config_dims_fit(config),
    ensures
        ({
            let le = config.n_mlp_layers_encoder as int;
            let lp = config.n_mlp_layers_processor as int;
            let ld = config.n_mlp_layers_decoder as int;
            let ln: int = if config.use_layer_norm {
                1
            } else {
                0
            };
            expected_weight_entries_spec(config).len() == 4 + 2 * (2 * (le + 1) + 2 * (lp + 1) + (ld
                + 1)) + 10 * ln + 2 * (ld + 1) + 4
        }),
{
    reveal(expected_linear_entries_spec);
    reveal_with_fuel(hidden_entries_upto, 6);
    lemma_prefix_signatures();
    let p = hidden_mlp_prefixes();
    assert forall|m: int| 0 <= m < 5 implies #[trigger] hidden_mlp_entries_spec(p[m], config).len()
        == mlp_entry_count(hidden_layers_for_spec(p[m], config) as nat, config.use_layer_norm) by {
        lemma_mlp_entries_layout(
            p[m],
            encoder_like_input_dim_spec(p[m], config) as usize,
            config.hidden_dim,
            config.hidden_dim,
            config.use_layer_norm,
            true,
            hidden_layers_for_spec(p[m], config),
            seq![p[m]],
        );
    }
    assert(hidden_mlp_entries_spec(p[0], config).len() == 0 + hidden_mlp_entries_spec(p[0], config).len());
    assert(hidden_layers_for_spec(p[0], config) == config.n_mlp_layers_encoder);
    assert(hidden_layers_for_spec(p[1], config) == config.n_mlp_layers_encoder);
    assert(hidden_layers_for_spec(p[2], config) == config.n_mlp_layers_processor);
    assert(hidden_layers_for_spec(p[3], config) == config.n_mlp_layers_processor);
    assert(hidden_layers_for_spec(p[4], config) == config.n_mlp_layers_decoder);
    lemma_mlp_entries_layout(
        "decoder_node_mlp"@,
        (config.input_channels + config.hidden_dim) as usize,
        config.hidden_dim,
        config.output_channels,
        false,
        true,
        config.n_mlp_layers_decoder,
        seq!["decoder_node_mlp"@],
    );
    lemma_mlp_entries_layout(
        "processor_edge_init_mlp"@,
        LOCAL_COORDINATE_WIDTH,
        config.hidden_dim,
        config.hidden_dim,
        true,
        false,
        0,
        edge_init_prefixes(),
    );
}

/// Characters at positions 0, 8, 10 and 15: they tell the nine tensor
/// groups of the contract apart.
spec fn signature(k: Seq<char>) -> (char, char, char, char) {
    (k[0], k[8], k[10], k[15])
}

proof fn lemma_prefix_signatures()
    ensures
        "input_projection"@.len() == 16,
        "output_projection"@.len() == 17,
        "encoder_edge_mlp"@.len() == 16,
        "encoder_node_mlp"@.len() == 16,
        "processor_edge_mlp"@.len() == 18,
        "processor_node_mlp"@.len() == 18,
        "decoder_edge_mlp"@.len() == 16,
        "decoder_node_mlp"@.len() == 16,
        "processor_edge_init_mlp"@.len() == 23,
        signature("input_projection"@) == ('i', 'o', 'e', 'n'),
        signature("output_projection"@) == ('o', 'r', 'j', 'o'),
        signature("encoder_edge_mlp"@) == ('e', 'e', 'g', 'p'),
        signature("encoder_node_mlp"@) == ('e', 'n', 'd', 'p'),
        signature("processor_edge_mlp"@) == ('p', 'r', 'e', 'm'),
        signature("processor_node_mlp"@) == ('p', 'r', 'n', 'm'),
        signature("decoder_edge_mlp"@) == ('d', 'e', 'g', 'p'),
        signature("decoder_node_mlp"@) == ('d', 'n', 'd', 'p'),
        signature("processor_edge_init_mlp"@) == ('p', 'r', 'e', 'i'),
{
    reveal_strlit("input_projection");
    reveal_strlit("output_projection");
    reveal_strlit("encoder_edge_mlp");
    reveal_strlit("encoder_node_mlp");
    reveal_strlit("processor_edge_mlp");
    reveal_strlit("processor_node_mlp");
    reveal_strlit("decoder_edge_mlp");
    reveal_strlit("decoder_node_mlp");
    reveal_strlit("processor_edge_init_mlp");
}


/// No two tensors of a list share a canonical key.
pub open spec fn canonical_keys_distinct(s: Seq<ExpectedEntryView>) -> bool {
    forall|i: int, j: int|
        #![trigger s[i], s[j]]
        0 <= i < j < s.len() ==> s[i].canonical_key != s[j].canonical_key
}

/// Every key of the list carries the signature of the group name `p`.
spec fn signed(s: Seq<ExpectedEntryView>, p: Seq<char>) -> bool {
    forall|i: int| 0 <= i < s.len() ==> signature(#[trigger] s[i].canonical_key) == signature(p)
}

/// Every key of the list carries one of the `allowed` signatures.
spec fn signed_within(s: Seq<ExpectedEntryView>, allowed: Set<(char, char, char, char)>) -> bool {
    forall|i: int| 0 <= i < s.len() ==> allowed.contains(signature(#[trigger] s[i].canonical_key))
}

proof fn lemma_signature_of_extension(p: Seq<char>, r: Seq<char>)
    requires
        p.len() >= 16,
    ensures
        signature(p + r) == signature(p),
{
    assert((p + r)[0] == p[0]);
    assert((p + r)[8] == p[8]);
    assert((p + r)[10] == p[10]);
    assert((p + r)[15] == p[15]);
}

/// Appending a group of distinct keys under a signature not yet used keeps
/// the keys distinct.
proof fn lemma_append_group(
    acc: Seq<ExpectedEntryView>,
    allowed: Set<(char, char, char, char)>,
    g: Seq<ExpectedEntryView>,
    p: Seq<char>,
)
    requires
        canonical_keys_distinct(acc),
        signed_within(acc, allowed),
        canonical_keys_distinct(g),
        signed(g, p),
        !allowed.contains(signature(p)),
    ensures
        canonical_keys_distinct(acc + g),
        signed_within(acc + g, allowed.insert(signature(p))),
{
    let s = acc + g;
    assert forall|i: int, j: int| 0 <= i < j < s.len() implies s[i].canonical_key
        != s[j].canonical_key by {
        if j < acc.len() {
            assert(s[i] == acc[i]);
            assert(s[j] == acc[j]);
        } else if i >= acc.len() {
            assert(s[i] == g[i - acc.len()]);
            assert(s[j] == g[j - acc.len()]);
        } else {
            assert(s[i] == acc[i]);
            assert(s[j] == g[j - acc.len()]);
            assert(allowed.contains(signature(acc[i].canonical_key)));
            assert(signature(g[j - acc.len()].canonical_key) == signature(p));
        }
    }
    assert forall|i: int| 0 <= i < s.len() implies allowed.insert(signature(p)).contains(
        signature(#[trigger] s[i].canonical_key),
    ) by {
        if i < acc.len() {
            assert(s[i] == acc[i]);
        } else {
            assert(s[i] == g[i - acc.len()]);
        }
    }
}

/// The parameter stored at position `k` of a perceptron's layer list.
spec fn layer_param(k: int) -> Seq<char> {
    if k % 2 == 0 {
        "weight"@
    } else {
        "bias"@
    }
}

/// Keys of two different layer parameters differ.
proof fn lemma_layer_keys_differ(p: Seq<char>, i: nat, j: nat, s: Seq<char>, t: Seq<char>)
    requires
        s == "weight"@ || s == "bias"@,
        t == "weight"@ || t == "bias"@,
        i != j || s != t,
    ensures
        layer_key(p, layer_name(i), s) != layer_key(p, layer_name(j), t),
{
    reveal_strlit("weight");
    reveal_strlit("bias");
    reveal_strlit(".");
    reveal_strlit("layers.");
    lemma_decimal_digits(i);
    lemma_decimal_digits(j);
    let k1 = layer_key(p, layer_name(i), s);
    let k2 = layer_key(p, layer_name(j), t);
    let a = p + "."@ + "layers."@;
    let t1 = decimal(i) + "."@ + s;
    let t2 = decimal(j) + "."@ + t;
    assert(k1 =~= a + t1);
    assert(k2 =~= a + t2);
    if k1 == k2 {
        assert(t1 =~= k1.subrange(a.len() as int, k1.len() as int));
        assert(t2 =~= k2.subrange(a.len() as int, k2.len() as int));
        let n1 = decimal(i).len() as int;
        let n2 = decimal(j).len() as int;
        if n1 < n2 {
            assert(t1[n1] == '.');
            assert(t2[n1] == decimal(j)[n1]);
            assert(is_digit(decimal(j)[n1]));
        } else if n2 < n1 {
            assert(t2[n2] == '.');
            assert(t1[n2] == decimal(i)[n2]);
            assert(is_digit(decimal(i)[n2]));
        } else {
            assert(decimal(i) =~= t1.subrange(0, n1));
            assert(decimal(j) =~= t2.subrange(0, n1));
            lemma_decimal_injective(i, j);
            assert(t1[n1 + 1] == s[0]);
            assert(t2[n1 + 1] == t[0]);
        }
    }
}

/// A layer key is never a layer-norm key of the same perceptron.
proof fn lemma_layer_key_not_norm(p: Seq<char>, i: nat, s: Seq<char>, n: Seq<char>)
    requires
        n == "layer_norm.weight"@ || n == "layer_norm.bias"@,
    ensures
        layer_key(p, layer_name(i), s) != dotted(p, n),
{
    reveal_strlit(".");
    reveal_strlit("layers.");
    reveal_strlit("layer_norm.weight");
    reveal_strlit("layer_norm.bias");
    let k1 = layer_key(p, layer_name(i), s);
    let k2 = dotted(p, n);
    let x = p.len() + 6int;
    assert(k1[x] == 's');
    assert(k2[x] == '_');
}

/// The keys of a perceptron's tensors are distinct and all carry the
/// signature of its name.
proof fn lemma_mlp_group(
    canonical_prefix: Seq<char>,
    input_dim: usize,
    hidden_dim: usize,
    output_dim: usize,
    with_layer_norm: bool,
    required: bool,
    hidden_layers: usize,
    prefixes: Seq<Seq<char>>,
)
    requires
        canonical_prefix.len() >= 16,
    ensures
        canonical_keys_distinct(
            expected_mlp_entries_spec(
                canonical_prefix,
                input_dim,
                hidden_dim,
                output_dim,
                with_layer_norm,
                required,
                hidden_layers,
                prefixes,
            ),
        ),
        signed(
            expected_mlp_entries_spec(
                canonical_prefix,
                input_dim,
                hidden_dim,
                output_dim,
                with_layer_norm,
                required,
                hidden_layers,
                prefixes,
            ),
            canonical_prefix,
        ),
{
    reveal(expected_mlp_entries_spec);
    reveal_strlit("layer_norm.weight");
    reveal_strlit("layer_norm.bias");
    let p = canonical_prefix;
    let s = expected_mlp_entries_spec(
        p,
        input_dim,
        hidden_dim,
        output_dim,
        with_layer_norm,
        required,
        hidden_layers,
        prefixes,
    );
    let layers = mlp_layer_entries_spec(
        p,
        input_dim,
        hidden_dim,
        output_dim,
        required,
        hidden_layers,
        prefixes,
    );
    let nl = layers.len() as int;
    assert forall|x: int| 0 <= x < nl implies #[trigger] s[x].canonical_key == layer_key(
        p,
        layer_name((x / 2) as nat),
        layer_param(x),
    ) by {
        assert(s[x] == layers[x]);
    }
    if with_layer_norm {
        assert(s[nl].canonical_key == dotted(p, "layer_norm.weight"@));
        assert(s[nl + 1].canonical_key == dotted(p, "layer_norm.bias"@));
    }
    assert forall|x: int, y: int| 0 <= x < y < s.len() implies #[trigger] s[x].canonical_key
        != #[trigger] s[y].canonical_key by {
        if y < nl {
            if x / 2 == y / 2 {
                reveal_strlit("weight");
                reveal_strlit("bias");
                assert(x % 2 == 0 && y % 2 == 1);
                assert(layer_param(x).len() != layer_param(y).len());
            }
            lemma_layer_keys_differ(
                p,
                (x / 2) as nat,
                (y / 2) as nat,
                layer_param(x),
                layer_param(y),
            );
        } else if x < nl {
            if y == nl {
                lemma_layer_key_not_norm(p, (x / 2) as nat, layer_param(x), "layer_norm.weight"@);
            } else {
                lemma_layer_key_not_norm(p, (x / 2) as nat, layer_param(x), "layer_norm.bias"@);
            }
        } else {
            assert(s[x].canonical_key.len() != s[y].canonical_key.len());
        }
    }
    assert forall|x: int| 0 <= x < s.len() implies signature(#[trigger] s[x].canonical_key)
        == signature(p) by {
        if x < nl {
            let rest = "."@ + layer_name((x / 2) as nat) + "."@ + layer_param(x);
            assert(s[x].canonical_key =~= p + rest);
            lemma_signature_of_extension(p, rest);
        } else if x == nl {
            assert(s[x].canonical_key =~= p + ("."@ + "layer_norm.weight"@));
            lemma_signature_of_extension(p, "."@ + "layer_norm.weight"@);
        } else {
            assert(s[x].canonical_key =~= p + ("."@ + "layer_norm.bias"@));
            lemma_signature_of_extension(p, "."@ + "layer_norm.bias"@);
        }
    }
}

/// The two keys of a projection are distinct and carry its signature.
proof fn lemma_linear_group(prefix: Seq<char>, input_dim: usize, output_dim: usize, required: bool)
    requires
        prefix.len() >= 16,
    ensures
        canonical_keys_distinct(expected_linear_entries_spec(prefix, input_dim, output_dim, required)),
        signed(expected_linear_entries_spec(prefix, input_dim, output_dim, required), prefix),
{
    reveal(expected_linear_entries_spec);
    reveal_strlit("weight");
    reveal_strlit("bias");
    let s = expected_linear_entries_spec(prefix, input_dim, output_dim, required);
    assert(s[0].canonical_key.len() != s[1].canonical_key.len());
    assert(s[0].canonical_key =~= prefix + ("."@ + "weight"@));
    assert(s[1].canonical_key =~= prefix + ("."@ + "bias"@));
    lemma_signature_of_extension(prefix, "."@ + "weight"@);
    lemma_signature_of_extension(prefix, "."@ + "bias"@);
}

/// No two tensors of the checkpoint contract share a canonical key.
pub proof fn lemma_contract_keys_distinct(config: ModelConfig)
    requires
        config_dims_fit(config),
    ensures
        canonical_keys_distinct(expected_weight_entries_spec(config)),
{
    lemma_prefix_signatures();
    reveal_with_fuel(hidden_entries_upto, 6);
    let p = hidden_mlp_prefixes();
    let li = expected_linear_entries_spec(
        "input_projection"@,
        config.input_channels,
        config.hidden_dim,
        false,
    );
    let lo = expected_linear_entries_spec(
        "output_projection"@,
        config.hidden_dim,
        config.output_channels,
        false,
    );
    let d = expected_mlp_entries_spec(
        "decoder_node_mlp"@,
        (config.input_channels + config.hidden_dim) as usize,
        config.hidden_dim,
        config.output_channels,
        false,
        true,
        config.n_mlp_layers_decoder,
        seq!["decoder_node_mlp"@],
    );
    let e = expected_mlp_entries_spec(
        "processor_edge_init_mlp"@,
        LOCAL_COORDINATE_WIDTH,
        config.hidden_dim,
        config.hidden_dim,
        true,
        false,
        0,
        edge_init_prefixes(),
    );
    lemma_linear_group("input_projection"@, config.input_channels, config.hidden_dim, false);
    lemma_linear_group("output_projection"@, config.hidden_dim, config.output_channels, false);
    assert forall|m: int| 0 <= m < 5 implies canonical_keys_distinct(
        #[trigger] hidden_mlp_entries_spec(p[m], config),
    ) && signed(hidden_mlp_entries_spec(p[m], config), p[m]) by {
        lemma_mlp_group(
            p[m],
            encoder_like_input_dim_spec(p[m], config) as usize,
            config.hidden_dim,
            config.hidden_dim,
            config.use_layer_norm,
            true,
            hidden_layers_for_spec(p[m], config),
            seq![p[m]],
        );
    }
    lemma_mlp_group(
        "decoder_node_mlp"@,
        (config.input_channels + config.hidden_dim) as usize,
        config.hidden_dim,
        config.output_channels,
        false,
        true,
        config.n_mlp_layers_decoder,
        seq!["decoder_node_mlp"@],
    );
    lemma_mlp_group(
        "processor_edge_init_mlp"@,
        LOCAL_COORDINATE_WIDTH,
        config.hidden_dim,
        config.hidden_dim,
        true,
        false,
        0,
        edge_init_prefixes(),
    );
    let h0 = hidden_mlp_entries_spec(p[0], config);
    let h1 = hidden_mlp_entries_spec(p[1], config);
    let h2 = hidden_mlp_entries_spec(p[2], config);
    let h3 = hidden_mlp_entries_spec(p[3], config);
    let h4 = hidden_mlp_entries_spec(p[4], config);
    let a0 = Seq::<ExpectedEntryView>::empty();
    let s0 = Set::<(char, char, char, char)>::empty();
    lemma_append_group(a0, s0, li, "input_projection"@);
    let a1 = a0 + li;
    let s1 = s0.insert(signature("input_projection"@));
    lemma_append_group(a1, s1, lo, "output_projection"@);
    let a2 = a1 + lo;
    let s2 = s1.insert(signature("output_projection"@));
    lemma_append_group(a2, s2, h0, p[0]);
    let a3 = a2 + h0;
    let s3 = s2.insert(signature(p[0]));
    lemma_append_group(a3, s3, h1, p[1]);
    let a4 = a3 + h1;
    let s4 = s3.insert(signature(p[1]));
    lemma_append_group(a4, s4, h2, p[2]);
    let a5 = a4 + h2;
    let s5 = s4.insert(signature(p[2]));
    lemma_append_group(a5, s5, h3, p[3]);
    let a6 = a5 + h3;
    let s6 = s5.insert(signature(p[3]));
    lemma_append_group(a6, s6, h4, p[4]);
    let a7 = a6 + h4;
    let s7 = s6.insert(signature(p[4]));
    lemma_append_group(a7, s7, d, "decoder_node_mlp"@);
    let a8 = a7 + d;
    let s8 = s7.insert(signature("decoder_node_mlp"@));
    lemma_append_group(a8, s8, e, "processor_edge_init_mlp"@);
    assert(a8 + e =~= expected_weight_entries_spec(config));
}

/// A key under one of the groups that a checkpoint may leave out
/// altogether: the two projections and the processor edge initialiser.
pub open spec fn in_optional_group(key: Seq<char>) -> bool {
    ||| ("input_projection"@ + "."@).is_prefix_of(key)
    ||| ("output_projection"@ + "."@).is_prefix_of(key)
    ||| ("processor_edge_init_mlp"@ + "."@).is_prefix_of(key)
}

/// The key of the bias of a perceptron layer, `<name>.layers.<i>.bias`.
pub open spec fn is_layer_bias_key(key: Seq<char>) -> bool {
    exists|p: Seq<char>, i: nat| key == #[trigger] layer_key(p, layer_name(i), "bias"@)
}

/// The contract requires a tensor when it lies outside the optional groups
/// and is not the bias of a layer.
pub open spec fn required_by_rule(key: Seq<char>) -> bool {
    !in_optional_group(key) && !is_layer_bias_key(key)
}

/// The layer-norm keys that the decoder node perceptron does not have.
pub open spec fn decoder_node_norm_keys() -> (Seq<char>, Seq<char>) {
    (dotted("decoder_node_mlp"@, "layer_norm.weight"@), dotted("decoder_node_mlp"@, "layer_norm.bias"@))
}

/// The tensor is flagged as the rule says, and it does not sit under a
/// layer-norm key of the decoder node perceptron.
spec fn entry_flagged_by_rule(e: ExpectedEntryView) -> bool {
    &&& e.required == required_by_rule(e.canonical_key)
    &&& e.canonical_key != decoder_node_norm_keys().0
    &&& e.canonical_key != decoder_node_norm_keys().1
}

spec fn flagged_by_rule(s: Seq<ExpectedEntryView>) -> bool {
    forall|i: int| 0 <= i < s.len() ==> entry_flagged_by_rule(#[trigger] s[i])
}

proof fn lemma_flagged_concat(a: Seq<ExpectedEntryView>, b: Seq<ExpectedEntryView>)
    requires
        flagged_by_rule(a),
        flagged_by_rule(b),
    ensures
        flagged_by_rule(a + b),
{
    assert forall|i: int| 0 <= i < (a + b).len() implies entry_flagged_by_rule(#[trigger] (a + b)[i]) by {
        if i < a.len() {
            assert((a + b)[i] == a[i]);
        } else {
            assert((a + b)[i] == b[i - a.len()]);
        }
    }
}

/// A key that begins with `q.` carries the signature of `q`.
proof fn lemma_prefix_signature(q: Seq<char>, key: Seq<char>)
    requires
        q.len() >= 16,
        (q + "."@).is_prefix_of(key),
    ensures
        signature(key) == signature(q),
{
    let n = (q + "."@).len() as int;
    assert(key.subrange(0, n)[0] == key[0]);
    assert(key.subrange(0, n)[8] == key[8]);
    assert(key.subrange(0, n)[10] == key[10]);
    assert(key.subrange(0, n)[15] == key[15]);
    assert((q + "."@)[0] == q[0]);
    assert((q + "."@)[8] == q[8]);
    assert((q + "."@)[10] == q[10]);
    assert((q + "."@)[15] == q[15]);
}

/// A key under an optional group carries the signature of that group.
proof fn lemma_optional_signature(key: Seq<char>)
    requires
        in_optional_group(key),
    ensures
        signature(key) == signature("input_projection"@) || signature(key) == signature(
            "output_projection"@,
        ) || signature(key) == signature("processor_edge_init_mlp"@),
{
    lemma_prefix_signatures();
    if ("input_projection"@ + "."@).is_prefix_of(key) {
        lemma_prefix_signature("input_projection"@, key);
    } else if ("output_projection"@ + "."@).is_prefix_of(key) {
        lemma_prefix_signature("output_projection"@, key);
    } else {
        lemma_prefix_signature("processor_edge_init_mlp"@, key);
    }
}

/// `p.rest` begins with `p.`.
proof fn lemma_dotted_prefix(p: Seq<char>, rest: Seq<char>)
    ensures
        (p + "."@).is_prefix_of(p + "."@ + rest),
{
    assert((p + "."@ + rest).subrange(0, (p + "."@).len() as int) =~= p + "."@);
}

/// A key ending in `t` is not the key of a layer bias.
proof fn lemma_weight_not_bias(key: Seq<char>)
    requires
        key.len() > 0,
        key.last() == 't',
    ensures
        !is_layer_bias_key(key),
{
    reveal_strlit("bias");
    if is_layer_bias_key(key) {
        let (p, i) = choose|p: Seq<char>, i: nat| key == #[trigger] layer_key(p, layer_name(i), "bias"@);
        assert(key.last() == 's');
    }
}

/// A layer-norm bias key is not the key of a layer bias: the character
/// before `.bias` is the `m` of `layer_norm`, not a digit.
proof fn lemma_norm_bias_not_layer_bias(p: Seq<char>)
    ensures
        !is_layer_bias_key(dotted(p, "layer_norm.bias"@)),
{
    reveal_strlit("layer_norm.bias");
    reveal_strlit("bias");
    reveal_strlit(".");
    reveal_strlit("layers.");
    let key = dotted(p, "layer_norm.bias"@);
    if is_layer_bias_key(key) {
        let (q, i) = choose|q: Seq<char>, i: nat| key == #[trigger] layer_key(q, layer_name(i), "bias"@);
        lemma_decimal_digits(i);
        let x = key.len() - 6;
        assert(key[x] == 'm');
        let d = decimal(i);
        assert(layer_key(q, layer_name(i), "bias"@) =~= q + "."@ + "layers."@ + d + ("."@ + "bias"@));
        assert(key[x] == d[d.len() - 1]);
        assert(is_digit(d[d.len() - 1]));
    }
}

proof fn lemma_decoder_norm_signatures()
    ensures
        signature(decoder_node_norm_keys().0) == signature("decoder_node_mlp"@),
        signature(decoder_node_norm_keys().1) == signature("decoder_node_mlp"@),
{
    lemma_prefix_signatures();
    assert(decoder_node_norm_keys().0 =~= "decoder_node_mlp"@ + ("."@ + "layer_norm.weight"@));
    assert(decoder_node_norm_keys().1 =~= "decoder_node_mlp"@ + ("."@ + "layer_norm.bias"@));
    lemma_signature_of_extension("decoder_node_mlp"@, "."@ + "layer_norm.weight"@);
    lemma_signature_of_extension("decoder_node_mlp"@, "."@ + "layer_norm.bias"@);
}

/// The tensors of a projection are optional, as the rule says.
proof fn lemma_linear_flagged(prefix: Seq<char>, input_dim: usize, output_dim: usize)
    requires
        prefix == "input_projection"@ || prefix == "output_projection"@,
    ensures
        flagged_by_rule(expected_linear_entries_spec(prefix, input_dim, output_dim, false)),
{
    reveal(expected_linear_entries_spec);
    lemma_prefix_signatures();
    lemma_decoder_norm_signatures();
    lemma_linear_group(prefix, input_dim, output_dim, false);
    let s = expected_linear_entries_spec(prefix, input_dim, output_dim, false);
    lemma_dotted_prefix(prefix, "weight"@);
    lemma_dotted_prefix(prefix, "bias"@);
    assert(signature(s[0].canonical_key) == signature(prefix));
    assert(signature(s[1].canonical_key) == signature(prefix));
    assert(entry_flagged_by_rule(s[0]));
    assert(entry_flagged_by_rule(s[1]));
}

/// The tensors of a perceptron are flagged as the rule says: those of the
/// edge initialiser are all optional; in a required perceptron the layer
/// weights and layer-norm tensors are required and the layer biases are not.
proof fn lemma_mlp_flagged(
    canonical_prefix: Seq<char>,
    input_dim: usize,
    hidden_dim: usize,
    output_dim: usize,
    with_layer_norm: bool,
    required: bool,
    hidden_layers: usize,
    prefixes: Seq<Seq<char>>,
)
    requires
        canonical_prefix.len() >= 16,
        required ==> signature(canonical_prefix) != signature("input_projection"@),
        required ==> signature(canonical_prefix) != signature("output_projection"@),
        required ==> signature(canonical_prefix) != signature("processor_edge_init_mlp"@),
        !required ==> canonical_prefix == "processor_edge_init_mlp"@,
        signature(canonical_prefix) != signature("decoder_node_mlp"@) || (canonical_prefix
            == "decoder_node_mlp"@ && !with_layer_norm),
    ensures
        flagged_by_rule(
            expected_mlp_entries_spec(
                canonical_prefix,
                input_dim,
                hidden_dim,
                output_dim,
                with_layer_norm,
                required,
                hidden_layers,
                prefixes,
            ),
        ),
{
    reveal(expected_mlp_entries_spec);
    reveal_strlit("weight");
    reveal_strlit("layer_norm.weight");
    lemma_prefix_signatures();
    lemma_decoder_norm_signatures();
    lemma_mlp_group(
        canonical_prefix,
        input_dim,
        hidden_dim,
        output_dim,
        with_layer_norm,
        required,
        hidden_layers,
        prefixes,
    );
    let p = canonical_prefix;
    let s = expected_mlp_entries_spec(
        p,
        input_dim,
        hidden_dim,
        output_dim,
        with_layer_norm,
        required,
        hidden_layers,
        prefixes,
    );
    let layers = mlp_layer_entries_spec(
        p,
        input_dim,
        hidden_dim,
        output_dim,
        required,
        hidden_layers,
        prefixes,
    );
    let nl = layers.len() as int;
    assert forall|x: int| 0 <= x < s.len() implies entry_flagged_by_rule(#[trigger] s[x]) by {
        let key = s[x].canonical_key;
        assert(signature(key) == signature(p));
        if in_optional_group(key) {
            lemma_optional_signature(key);
        }
        let rest = if x < nl {
            layer_name((x / 2) as nat) + "."@ + layer_param(x)
        } else if x == nl {
            "layer_norm.weight"@
        } else {
            "layer_norm.bias"@
        };
        if x < nl {
            assert(s[x] == layers[x]);
            assert(key =~= p + "."@ + rest);
            if x % 2 == 1 {
                assert(key == layer_key(p, layer_name((x / 2) as nat), "bias"@));
            } else {
                assert(key.last() == 't');
                lemma_weight_not_bias(key);
            }
            if signature(p) == signature("decoder_node_mlp"@) {
                lemma_layer_key_not_norm(p, (x / 2) as nat, layer_param(x), "layer_norm.weight"@);
                lemma_layer_key_not_norm(p, (x / 2) as nat, layer_param(x), "layer_norm.bias"@);
            }
        } else if x == nl {
            assert(key =~= p + "."@ + rest);
            assert(key.last() == 't');
            lemma_weight_not_bias(key);
        } else {
            assert(key =~= p + "."@ + rest);
            lemma_norm_bias_not_layer_bias(p);
        }
        lemma_dotted_prefix(p, rest);
    }
}

/// A contract tensor is required exactly when it lies outside the two
/// projections and the processor edge initialiser and is not the bias of a
/// layer; and the decoder node perceptron has no layer-norm tensors.
pub proof fn lemma_contract_required_flags(config: ModelConfig)
    requires
        config_dims_fit(config),
    ensures
        forall|k: int|
            0 <= k < expected_weight_entries_spec(config).len() ==> {
                let e = #[trigger] expected_weight_entries_spec(config)[k];
                &&& e.required == required_by_rule(e.canonical_key)
                &&& e.canonical_key != decoder_node_norm_keys().0
                &&& e.canonical_key != decoder_node_norm_keys().1
            },
{
    lemma_prefix_signatures();
    reveal_with_fuel(hidden_entries_upto, 6);
    let p = hidden_mlp_prefixes();
    let li = expected_linear_entries_spec(
        "input_projection"@,
        config.input_channels,
        config.hidden_dim,
        false,
    );
    let lo = expected_linear_entries_spec(
        "output_projection"@,
        config.hidden_dim,
        config.output_channels,
        false,
    );
    let d = expected_mlp_entries_spec(
        "decoder_node_mlp"@,
        (config.input_channels + config.hidden_dim) as usize,
        config.hidden_dim,
        config.output_channels,
        false,
        true,
        config.n_mlp_layers_decoder,
        seq!["decoder_node_mlp"@],
    );
    let e = expected_mlp_entries_spec(
        "processor_edge_init_mlp"@,
        LOCAL_COORDINATE_WIDTH,
        config.hidden_dim,
        config.hidden_dim,
        true,
        false,
        0,
        edge_init_prefixes(),
    );
    lemma_linear_flagged("input_projection"@, config.input_channels, config.hidden_dim);
    lemma_linear_flagged("output_projection"@, config.hidden_dim, config.output_channels);
    assert forall|m: int| 0 <= m < 5 implies flagged_by_rule(
        #[trigger] hidden_mlp_entries_spec(p[m], config),
    ) by {
        lemma_mlp_flagged(
            p[m],
            encoder_like_input_dim_spec(p[m], config) as usize,
            config.hidden_dim,
            config.hidden_dim,
            config.use_layer_norm,
            true,
            hidden_layers_for_spec(p[m], config),
            seq![p[m]],
        );
    }
    lemma_mlp_flagged(
        "decoder_node_mlp"@,
        (config.input_channels + config.hidden_dim) as usize,
        config.hidden_dim,
        config.output_channels,
        false,
        true,
        config.n_mlp_layers_decoder,
        seq!["decoder_node_mlp"@],
    );
    lemma_mlp_flagged(
        "processor_edge_init_mlp"@,
        LOCAL_COORDINATE_WIDTH,
        config.hidden_dim,
        config.hidden_dim,
        true,
        false,
        0,
        edge_init_prefixes(),
    );
    let h0 = hidden_mlp_entries_spec(p[0], config);
    let h1 = hidden_mlp_entries_spec(p[1], config);
    let h2 = hidden_mlp_entries_spec(p[2], config);
    let h3 = hidden_mlp_entries_spec(p[3], config);
    let h4 = hidden_mlp_entries_spec(p[4], config);
    lemma_flagged_concat(li, lo);
    lemma_flagged_concat(li + lo, h0);
    lemma_flagged_concat(li + lo + h0, h1);
    lemma_flagged_concat(li + lo + h0 + h1, h2);
    lemma_flagged_concat(li + lo + h0 + h1 + h2, h3);
    lemma_flagged_concat(li + lo + h0 + h1 + h2 + h3, h4);
    lemma_flagged_concat(li + lo + h0 + h1 + h2 + h3 + h4, d);
    lemma_flagged_concat(li + lo + h0 + h1 + h2 + h3 + h4 + d, e);
    let all = expected_weight_entries_spec(config);
    assert(li + lo + h0 + h1 + h2 + h3 + h4 + d + e =~= all);
    assert forall|k: int| 0 <= k < all.len() implies {
        let e = #[trigger] all[k];
        &&& e.required == required_by_rule(e.canonical_key)
        &&& e.canonical_key != decoder_node_norm_keys().0
        &&& e.canonical_key != decoder_node_norm_keys().1
    } by {
        assert(entry_flagged_by_rule(all[k]));
    }
}

/// The match recorded for a found tensor: its canonical key and the key it
/// was found under.
pub open spec fn match_of(e: ExpectedEntryView, meta: Seq<(Seq<char>, TensorMetadataView)>) -> WeightMatchView {
    WeightMatchView { canonical_key: e.canonical_key, matched_key: found_key(e, meta) }
}

/// The element-type mismatch recorded for a tensor.
pub open spec fn dtype_mismatch_of(
    e: ExpectedEntryView,
    meta: Seq<(Seq<char>, TensorMetadataView)>,
) -> WeightDtypeMismatchView {
    WeightDtypeMismatchView {
        canonical_key: e.canonical_key,
        matched_key: found_key(e, meta),
        expected_dtype: e.expected_dtype,
        actual_dtype: found_metadata(e, meta).dtype,
    }
}

/// The shape mismatch recorded for a tensor.
pub open spec fn shape_mismatch_of(
    e: ExpectedEntryView,
    meta: Seq<(Seq<char>, TensorMetadataView)>,
) -> WeightShapeMismatchView {
    WeightShapeMismatchView {
        canonical_key: e.canonical_key,
        matched_key: found_key(e, meta),
        expected_shape: e.expected_shape,
        actual_shape: found_metadata(e, meta).shape,
    }
}

/// How inspection sorts the tensors of a list, keeping their order: the
/// matches of one class are its found tensors, each with the first of its
/// accepted keys that the checkpoint holds; the missing keys of a class are
/// the canonical keys of its tensors found under none of their keys; a
/// tensor has an element-type mismatch when it was found with a known type
/// other than the expected one, and a shape mismatch when it was found with
/// a non-empty shape other than the expected one. Tensors that were not
/// found give no mismatch.
pub proof fn lemma_inspection_sorts_entries(
    entries: Seq<ExpectedEntryView>,
    meta: Seq<(Seq<char>, TensorMetadataView)>,
    required: bool,
)
    ensures
        matches_spec(entries, meta, required) == entries.filter(
            |e: ExpectedEntryView| e.required == required && entry_found(e, meta),
        ).map_values(|e: ExpectedEntryView| match_of(e, meta)),
        missing_spec(entries, meta, required) == entries.filter(
            |e: ExpectedEntryView| e.required == required && !entry_found(e, meta),
        ).map_values(|e: ExpectedEntryView| e.canonical_key),
        dtype_mismatches_spec(entries, meta) == entries.filter(
            |e: ExpectedEntryView| dtype_differs(e, meta),
        ).map_values(|e: ExpectedEntryView| dtype_mismatch_of(e, meta)),
        shape_mismatches_spec(entries, meta) == entries.filter(
            |e: ExpectedEntryView| shape_differs(e, meta),
        ).map_values(|e: ExpectedEntryView| shape_mismatch_of(e, meta)),
        forall|e: ExpectedEntryView| #[trigger] dtype_differs(e, meta) ==> entry_found(e, meta),
        forall|e: ExpectedEntryView| #[trigger] shape_differs(e, meta) ==> entry_found(e, meta),
    decreases entries.len(),
{
    reveal(Seq::filter);
    if entries.len() > 0 {
        lemma_inspection_sorts_entries(entries.drop_last(), meta, required);
        let pm = |e: ExpectedEntryView| e.required == required && entry_found(e, meta);
        let pn = |e: ExpectedEntryView| e.required == required && !entry_found(e, meta);
        let pd = |e: ExpectedEntryView| dtype_differs(e, meta);
        let ps = |e: ExpectedEntryView| shape_differs(e, meta);
        let fm = |e: ExpectedEntryView| match_of(e, meta);
        let fn_ = |e: ExpectedEntryView| e.canonical_key;
        let fd = |e: ExpectedEntryView| dtype_mismatch_of(e, meta);
        let fs = |e: ExpectedEntryView| shape_mismatch_of(e, meta);
        let x = entries.last();
        let rest = entries.drop_last();
        assert(rest.filter(pm).push(x).map_values(fm) =~= rest.filter(pm).map_values(fm).push(fm(x)));
        assert(rest.filter(pn).push(x).map_values(fn_) =~= rest.filter(pn).map_values(fn_).push(fn_(x)));
        assert(rest.filter(pd).push(x).map_values(fd) =~= rest.filter(pd).map_values(fd).push(fd(x)));
        assert(rest.filter(ps).push(x).map_values(fs) =~= rest.filter(ps).map_values(fs).push(fs(x)));
        assert(entries.filter(pm) == if pm(x) { rest.filter(pm).push(x) } else { rest.filter(pm) });
        assert(entries.filter(pn) == if pn(x) { rest.filter(pn).push(x) } else { rest.filter(pn) });
        assert(entries.filter(pd) == if pd(x) { rest.filter(pd).push(x) } else { rest.filter(pd) });
        assert(entries.filter(ps) == if ps(x) { rest.filter(ps).push(x) } else { rest.filter(ps) });
    }
}

proof fn lemma_filtered_member(s: Seq<ExpectedEntryView>, p: spec_fn(ExpectedEntryView) -> bool, j: int)
    requires
        0 <= j < s.filter(p).len(),
    ensures
        p(s.filter(p)[j]),
        exists|i: int| 0 <= i < s.len() && s[i] == s.filter(p)[j],
{
    s.lemma_filter_pred(p, j);
    assert(s.filter(p).contains(s.filter(p)[j]));
    s.lemma_filter_contains_rev(p, s.filter(p)[j]);
}

/// Inspection reports each tensor of the contract exactly once: a found
/// tensor as a match of its class, under the first of its keys that the
/// checkpoint holds, and nowhere among the missing keys or the other
/// class's matches; a tensor found under none of its keys as a missing key
/// of its class, and nowhere among the matches or the other class's
/// missing keys.
pub proof fn lemma_contract_entry_reported_once(
    meta: Seq<(Seq<char>, TensorMetadataView)>,
    config: ModelConfig,
    k: int,
)
    requires
        config_dims_fit(config),
        0 <= k < expected_weight_entries_spec(config).len(),
    ensures
        ({
            let all = expected_weight_entries_spec(config);
            let e = all[k];
            let r = e.required;
            &&& entry_found(e, meta) ==> matches_spec(all, meta, r).contains(match_of(e, meta))
            &&& !entry_found(e, meta) ==> missing_spec(all, meta, r).contains(e.canonical_key)
            &&& forall|c: bool|
                #![trigger missing_spec(all, meta, c)]
                (entry_found(e, meta) || c != r) ==> !missing_spec(all, meta, c).contains(
                    e.canonical_key,
                )
            &&& forall|c: bool, j: int|
                #![trigger matches_spec(all, meta, c)[j]]
                (!entry_found(e, meta) || c != r) && 0 <= j < matches_spec(all, meta, c).len()
                    ==> matches_spec(all, meta, c)[j].canonical_key != e.canonical_key
        }),
{
    let all = expected_weight_entries_spec(config);
    let e = all[k];
    let r = e.required;
    lemma_contract_keys_distinct(config);
    lemma_inspection_sorts_entries(all, meta, true);
    lemma_inspection_sorts_entries(all, meta, false);
    let fm = |x: ExpectedEntryView| match_of(x, meta);
    let fk = |x: ExpectedEntryView| x.canonical_key;
    if entry_found(e, meta) {
        let p = |x: ExpectedEntryView| x.required == r && entry_found(x, meta);
        all.lemma_filter_contains(p, k);
        let f = all.filter(p);
        let j = choose|j: int| 0 <= j < f.len() && f[j] == e;
        assert(f.map_values(fm)[j] == match_of(e, meta));
        assert(matches_spec(all, meta, r).contains(match_of(e, meta)));
    } else {
        let p = |x: ExpectedEntryView| x.required == r && !entry_found(x, meta);
        all.lemma_filter_contains(p, k);
        let f = all.filter(p);
        let j = choose|j: int| 0 <= j < f.len() && f[j] == e;
        assert(f.map_values(fk)[j] == e.canonical_key);
        assert(missing_spec(all, meta, r).contains(e.canonical_key));
    }
    assert forall|c: bool|
        #![trigger missing_spec(all, meta, c)]
        (entry_found(e, meta) || c != r) implies !missing_spec(all, meta, c).contains(
            e.canonical_key,
        ) by {
        let p = |x: ExpectedEntryView| x.required == c && !entry_found(x, meta);
        let f = all.filter(p);
        if missing_spec(all, meta, c).contains(e.canonical_key) {
            let j = choose|j: int|
                0 <= j < f.map_values(fk).len() && f.map_values(fk)[j] == e.canonical_key;
            lemma_filtered_member(all, p, j);
            let i = choose|i: int| 0 <= i < all.len() && all[i] == f[j];
            if i < k {
                assert(all[i].canonical_key != all[k].canonical_key);
            } else if k < i {
                assert(all[k].canonical_key != all[i].canonical_key);
            }
        }
    }
    assert forall|c: bool, j: int|
        #![trigger matches_spec(all, meta, c)[j]]
        (!entry_found(e, meta) || c != r) && 0 <= j < matches_spec(all, meta, c).len()
            implies matches_spec(all, meta, c)[j].canonical_key != e.canonical_key by {
        let p = |x: ExpectedEntryView| x.required == c && entry_found(x, meta);
        let f = all.filter(p);
        assert(matches_spec(all, meta, c)[j] == match_of(f[j], meta));
        lemma_filtered_member(all, p, j);
        let i = choose|i: int| 0 <= i < all.len() && all[i] == f[j];
        if i < k {
            assert(all[i].canonical_key != all[k].canonical_key);
        } else if k < i {
            assert(all[k].canonical_key != all[i].canonical_key);
        }
    }
}

} // verus!
