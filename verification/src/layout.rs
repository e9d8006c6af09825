//! Memory layout of node states: packing pressure-level variables into
//! node-major channel rows, unpacking them into level-major output blocks,
//! and the row/column rearrangements of node feature tables.

use vstd::prelude::*;

use crate::error::{is_shape_mismatch, Result, WeatherGraphError};
use crate::geometry::{ERA5_LAT_COUNT, ERA5_LON_COUNT};
use crate::tensor::{shape_string, shape_text};
use crate::text::{decimal, usize_to_text};

verus! {

/// Number of pressure levels per variable.
pub const LEVEL_COUNT: usize = 13;

/// The pressure levels, in hPa, in channel order.
pub const LEVELS: [i32; 13] = [50, 100, 150, 200, 250, 300, 400, 500, 600, 700, 850, 925, 1000];

/// Channel of level `level` of the variable numbered `variable_index`:
/// variables occupy consecutive blocks of one channel per level.
pub open spec fn level_channel(variable_index: int, level: int) -> int {
    variable_index * 13 + level
}

/// Value of output position `k` of a variable's block sequence: for state
/// `k / (13 n)`, level `(k / n) % 13` and node `k % n`, the node's value in
/// the level's channel, or `fill` when the state has no such channel.
pub open spec fn output_value<T>(
    states: Seq<Vec<T>>,
    variable_index: int,
    n_nodes: int,
    channels: int,
    fill: T,
    k: int,
) -> T {
    let s = (k / n_nodes) / 13;
    let level = (k / n_nodes) % 13;
    let node = k % n_nodes;
    let c = level_channel(variable_index, level);
    if c < channels {
        states[s]@[node * channels + c]
    } else {
        fill
    }
}

/// `s` is the first state whose length is not `n_nodes * channels`.
pub open spec fn first_bad_state<T>(states: Seq<Vec<T>>, expected: int, s: int) -> bool {
    &&& 0 <= s < states.len()
    &&& states[s]@.len() != expected
    &&& forall|t: int| 0 <= t < s ==> (#[trigger] states[t])@.len() == expected
}

proof fn lemma_flat_position(s: int, level: int, node: int, n: int)
    requires
        0 <= s,
        0 <= level < 13,
        0 <= node < n,
    ensures
        ((s * 13 + level) * n + node) / n == s * 13 + level,
        ((s * 13 + level) * n + node) % n == node,
        (s * 13 + level) / 13 == s,
        (s * 13 + level) % 13 == level,
{
    vstd::arithmetic::div_mod::lemma_fundamental_div_mod_converse(
        (s * 13 + level) * n + node,
        n,
        s * 13 + level,
        node,
    );
    vstd::arithmetic::div_mod::lemma_fundamental_div_mod_converse(s * 13 + level, 13, s, level);
}

/// Unpacks one variable from a sequence of node-major states with
/// `channels` values per node: for each state, each of the 13 levels in
/// turn, the `n_nodes` node values of that level's channel, or `fill` for a
/// channel the states do not have. A state of another length than
/// `n_nodes * channels` is a `forecast state buffer` shape mismatch.
pub fn variable_output_values<T: Copy>(
    states: &Vec<Vec<T>>,
    variable_index: usize,
    n_nodes: usize,
    channels: usize,
    fill: T,
) -> (r: Result<Vec<T>>)
    requires
        n_nodes * channels <= usize::MAX,
        variable_index * 13 + 13 <= usize::MAX,
    ensures
        r is Ok <==> forall|s: int|
            0 <= s < states@.len() ==> (#[trigger] states@[s])@.len() == n_nodes * channels,
        r is Err ==> exists|s: int|
            first_bad_state(states@, n_nodes * channels, s) && is_shape_mismatch(
                r->Err_0,
                "forecast state buffer"@,
                decimal((n_nodes * channels) as nat),
                decimal((#[trigger] states@[s])@.len()),
            ),
        r matches Ok(out) ==> out@.len() == states@.len() * 13 * n_nodes && forall|k: int|
            0 <= k < out@.len() ==> #[trigger] out@[k] == output_value(
                states@,
                variable_index as int,
                n_nodes as int,
                channels as int,
                fill,
                k,
            ),
{
    let expected_len = n_nodes * channels;
    let mut values: Vec<T> = Vec::new();
    assert(0 * 13 * n_nodes == 0) by (nonlinear_arith);
    for s in 0..states.len()
        invariant
            expected_len == n_nodes * channels,
            variable_index * 13 + 13 <= usize::MAX,
            forall|t: int| 0 <= t < s ==> (#[trigger] states@[t])@.len() == expected_len,
            values@.len() == s * 13 * n_nodes,
            forall|k: int|
                0 <= k < values@.len() ==> #[trigger] values@[k] == output_value(
                    states@,
                    variable_index as int,
                    n_nodes as int,
                    channels as int,
                    fill,
                    k,
                ),
    {
        let state = &states[s];
        if state.len() != expected_len {
            let r = Err(
                WeatherGraphError::ShapeMismatch {
                    name: "forecast state buffer".to_owned(),
                    expected: usize_to_text(expected_len),
                    actual: usize_to_text(state.len()),
                },
            );
            assert(first_bad_state(states@, n_nodes * channels, s as int));
            return r;
        }
        for level in 0..13usize
            invariant
                expected_len == n_nodes * channels,
                variable_index * 13 + 13 <= usize::MAX,
                s < states@.len(),
                *state == states@[s as int],
                state@.len() == expected_len,
                values@.len() == (s * 13 + level) * n_nodes,
                forall|k: int|
                    0 <= k < values@.len() ==> #[trigger] values@[k] == output_value(
                        states@,
                        variable_index as int,
                        n_nodes as int,
                        channels as int,
                        fill,
                        k,
                    ),
        {
            let channel = variable_index * 13 + level;
            for node in 0..n_nodes
                invariant
                    expected_len == n_nodes * channels,
                    s < states@.len(),
                    *state == states@[s as int],
                    state@.len() == expected_len,
                    level < 13,
                    channel == variable_index * 13 + level,
                    values@.len() == (s * 13 + level) * n_nodes + node,
                    forall|k: int|
                        0 <= k < values@.len() ==> #[trigger] values@[k] == output_value(
                            states@,
                            variable_index as int,
                            n_nodes as int,
                            channels as int,
                            fill,
                            k,
                        ),
            {
                let ghost k = values@.len() as int;
                proof {
                    lemma_flat_position(s as int, level as int, node as int, n_nodes as int);
                }
                if channel < channels {
                    proof {
                        assert(node * channels + channel < n_nodes * channels) by (nonlinear_arith)
                            requires
                                node < n_nodes,
                                channel < channels,
                        ;
                    }
                    values.push(state[node * channels + channel]);
                } else {
                    values.push(fill);
                }
                assert(values@[k] == output_value(
                    states@,
                    variable_index as int,
                    n_nodes as int,
                    channels as int,
                    fill,
                    k,
                ));
            }
            assert((s * 13 + level) * n_nodes + n_nodes == (s * 13 + level + 1) * n_nodes)
                by (nonlinear_arith);
        }
        assert((s * 13 + 13) * n_nodes == (s + 1) * 13 * n_nodes) by (nonlinear_arith);
    }
    assert forall|t: int| 0 <= t < states@.len() implies (#[trigger] states@[t])@.len() == n_nodes
        * channels by {}
    Ok(values)
}

/// Value at flat position `i` of a node-major buffer with `width` channels
/// per node after levels `0..level_limit` of the variable numbered
/// `variable_index`, and the first `node_limit` nodes of level
/// `level_limit`, were copied from the level-major `values` of a grid of
/// `grid_nodes` nodes; positions not written keep their value in `before`.
pub open spec fn packed_value<T>(
    before: Seq<T>,
    values: Seq<T>,
    variable_index: int,
    grid_nodes: int,
    width: int,
    level_limit: int,
    node_limit: int,
    i: int,
) -> T {
    let node = i / width;
    let c = i % width;
    let first = variable_index * 13;
    if width > 0 && node < grid_nodes && first <= c && (c < first + level_limit || (c == first
        + level_limit && node < node_limit)) {
        values[(c - first) * grid_nodes + node]
    } else {
        before[i]
    }
}

proof fn lemma_position_of(node: int, c: int, width: int)
    requires
        0 <= node,
        0 <= c < width,
    ensures
        (node * width + c) / width == node,
        (node * width + c) % width == c,
{
    vstd::arithmetic::div_mod::lemma_fundamental_div_mod_converse(node * width + c, width, node, c);
}

/// Copies the 13 level fields of the variable numbered `variable_index`
/// (level-major: level `l`, node `n` at `l * grid_nodes + n`) into the
/// node-major buffer `padded` with `width` channels per node: node `n`,
/// channel `variable_index * 13 + l` receives the value, for every level
/// whose channel is below `width`; every other position keeps its value.
pub fn pack_variable_levels<T: Copy>(
    padded: &mut Vec<T>,
    values: &Vec<T>,
    variable_index: usize,
    grid_nodes: usize,
    width: usize,
)
    requires
        grid_nodes * width <= old(padded)@.len(),
        13 * grid_nodes <= values@.len(),
        variable_index * 13 + 13 <= usize::MAX,
    ensures
        final(padded)@.len() == old(padded)@.len(),
        forall|i: int|
            0 <= i < final(padded)@.len() ==> #[trigger] final(padded)@[i] == packed_value(
                old(padded)@,
                values@,
                variable_index as int,
                grid_nodes as int,
                width as int,
                13,
                0,
                i,
            ),
{
    let ghost before = padded@;
    assert(before.len() == padded.len() && values@.len() == values.len());
    let mut level: usize = 0;
    while level < 13
        invariant
            0 <= level <= 13,
            grid_nodes * width <= before.len(),
            before.len() <= usize::MAX,
            13 * grid_nodes <= values@.len(),
            values@.len() <= usize::MAX,
            variable_index * 13 + 13 <= usize::MAX,
            padded@.len() == before.len(),
            forall|i: int|
                0 <= i < padded@.len() ==> #[trigger] padded@[i] == packed_value(
                    before,
                    values@,
                    variable_index as int,
                    grid_nodes as int,
                    width as int,
                    level as int,
                    0,
                    i,
                ),
        ensures
            padded@.len() == before.len(),
            forall|i: int|
                0 <= i < padded@.len() ==> #[trigger] padded@[i] == packed_value(
                    before,
                    values@,
                    variable_index as int,
                    grid_nodes as int,
                    width as int,
                    13,
                    0,
                    i,
                ),
        decreases 13 - level,
    {
        let channel = variable_index * 13 + level;
        if channel >= width {
            assert forall|i: int| 0 <= i < padded@.len() implies #[trigger] padded@[i]
                == packed_value(
                before,
                values@,
                variable_index as int,
                grid_nodes as int,
                width as int,
                13,
                0,
                i,
            ) by {
                assert(padded@[i] == packed_value(
                    before,
                    values@,
                    variable_index as int,
                    grid_nodes as int,
                    width as int,
                    level as int,
                    0,
                    i,
                ));
                if width > 0 {
                    assert(0 <= i % (width as int) < width);
                }
            }
            break;
        }
        let mut node: usize = 0;
        while node < grid_nodes
            invariant
                0 <= level < 13,
                channel == variable_index * 13 + level,
                channel < width,
                node <= grid_nodes,
                grid_nodes * width <= before.len(),
                before.len() <= usize::MAX,
                13 * grid_nodes <= values@.len(),
                values@.len() <= usize::MAX,
                padded@.len() == before.len(),
                forall|i: int|
                    0 <= i < padded@.len() ==> #[trigger] padded@[i] == packed_value(
                        before,
                        values@,
                        variable_index as int,
                        grid_nodes as int,
                        width as int,
                        level as int,
                        node as int,
                        i,
                    ),
            decreases grid_nodes - node,
        {
            proof {
                assert(node * width + channel < grid_nodes * width) by (nonlinear_arith)
                    requires
                        node < grid_nodes,
                        channel < width,
                ;
                assert(level * grid_nodes + node < 13 * grid_nodes) by (nonlinear_arith)
                    requires
                        node < grid_nodes,
                        level < 13,
                ;
                lemma_position_of(node as int, channel as int, width as int);
            }
            let target = node * width + channel;
            let value = values[level * grid_nodes + node];
            let ghost prior = padded@;
            padded.set(target, value);
            assert forall|i: int| 0 <= i < padded@.len() implies #[trigger] padded@[i]
                == packed_value(
                before,
                values@,
                variable_index as int,
                grid_nodes as int,
                width as int,
                level as int,
                node + 1,
                i,
            ) by {
                if i != target {
                    assert(prior[i] == packed_value(
                        before,
                        values@,
                        variable_index as int,
                        grid_nodes as int,
                        width as int,
                        level as int,
                        node as int,
                        i,
                    ));
                    vstd::arithmetic::div_mod::lemma_fundamental_div_mod(i, width as int);
                    if i / (width as int) == node && i % (width as int) == channel {
                        assert(i == (width as int) * (i / (width as int)) + i % (width as int));
                        assert((width as int) * (node as int) == (node as int) * (width as int))
                            by (nonlinear_arith);
                        assert(false);
                    }
                }
            }
            node = node + 1;
        }
        level = level + 1;
    }
}

/// Checks that a variable's dimensions are `[1, 13, 181, 360]` (one time,
/// the pressure levels, the latitudes and the longitudes); otherwise a shape
/// mismatch named after the variable, with the first four dimensions as the
/// actual shape.
pub fn check_level_field_dims(name: &str, dims: &Vec<usize>) -> (r: Result<()>)
    requires
        dims@.len() >= 4,
    ensures
        r is Ok <==> dims@ == seq![1usize, 13, ERA5_LAT_COUNT, ERA5_LON_COUNT],
        r is Err ==> is_shape_mismatch(
            r->Err_0,
            name@,
            shape_text(seq![1usize, 13, ERA5_LAT_COUNT, ERA5_LON_COUNT]),
            shape_text(dims@.take(4)),
        ),
{
    if dims.len() != 4 || dims[0] != 1 || dims[1] != LEVEL_COUNT || dims[2] != ERA5_LAT_COUNT
        || dims[3] != ERA5_LON_COUNT {
        let expected = [1usize, LEVEL_COUNT, ERA5_LAT_COUNT, ERA5_LON_COUNT];
        let actual = [dims[0], dims[1], dims[2], dims[3]];
        assert(expected@ =~= seq![1usize, 13, ERA5_LAT_COUNT, ERA5_LON_COUNT]);
        assert(actual@ =~= dims@.take(4));
        let r = Err(
            WeatherGraphError::ShapeMismatch {
                name: name.to_owned(),
                expected: shape_string(&expected),
                actual: shape_string(&actual),
            },
        );
        proof {
            if dims@ == seq![1usize, 13, ERA5_LAT_COUNT, ERA5_LON_COUNT] {
                assert(dims@[0] == 1 && dims@[1] == 13);
            }
        }
        r
    } else {
        assert(dims@ =~= seq![1usize, 13, ERA5_LAT_COUNT, ERA5_LON_COUNT]);
        Ok(())
    }
}

/// Unpacking undoes packing: in a forecast state whose buffer holds what
/// `pack_variable_levels` wrote for a variable into a buffer of `n_nodes`
/// rows of `width` channels, unpacking that variable gives back, for every
/// level whose channel is below `width` and every node, the packed level
/// field's value.
pub proof fn lemma_unpack_recovers_packed<T>(
    states: Seq<Vec<T>>,
    s: int,
    before: Seq<T>,
    values: Seq<T>,
    variable_index: int,
    n_nodes: int,
    width: int,
    fill: T,
)
    requires
        0 <= s < states.len(),
        0 <= variable_index,
        0 < n_nodes,
        0 < width,
        before.len() == n_nodes * width,
        13 * n_nodes <= values.len(),
        states[s]@.len() == before.len(),
        forall|i: int|
            0 <= i < before.len() ==> #[trigger] states[s]@[i] == packed_value(
                before,
                values,
                variable_index,
                n_nodes,
                width,
                13,
                0,
                i,
            ),
    ensures
        forall|level: int, node: int|
            0 <= level < 13 && 0 <= node < n_nodes && variable_index * 13 + level < width
                ==> #[trigger] output_value(
                states,
                variable_index,
                n_nodes,
                width,
                fill,
                (s * 13 + level) * n_nodes + node,
            ) == values[level * n_nodes + node],
{
    assert forall|level: int, node: int|
        0 <= level < 13 && 0 <= node < n_nodes && variable_index * 13 + level
            < width implies #[trigger] output_value(
        states,
        variable_index,
        n_nodes,
        width,
        fill,
        (s * 13 + level) * n_nodes + node,
    ) == values[level * n_nodes + node] by {
        lemma_flat_position(s, level, node, n_nodes);
        let c = variable_index * 13 + level;
        lemma_position_of(node, c, width);
        assert(node * width + c < n_nodes * width) by (nonlinear_arith)
            requires
                0 <= node < n_nodes,
                0 <= c < width,
        ;
        assert(states[s]@[node * width + c] == packed_value(
            before,
            values,
            variable_index,
            n_nodes,
            width,
            13,
            0,
            node * width + c,
        ));
    }
}

} // verus!
