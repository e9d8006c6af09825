//! Shape rendering and the index checks of the gather and scatter steps of
//! message passing.

use vstd::prelude::*;

use crate::error::{is_shape_mismatch, Result, WeatherGraphError};
use crate::text::{append_decimal, append_str, decimal, usize_to_text};

verus! {

/// The decimal renderings of the dimensions, separated by `, `.
pub open spec fn dims_text(shape: Seq<usize>) -> Seq<char>
    decreases shape.len(),
{
    if shape.len() == 0 {
        Seq::empty()
    } else if shape.len() == 1 {
        decimal(shape[0] as nat)
    } else {
        dims_text(shape.drop_last()) + ", "@ + decimal(shape.last() as nat)
    }
}

/// A shape as text: `[2, 3]`.
pub open spec fn shape_text(shape: Seq<usize>) -> Seq<char> {
    "["@ + dims_text(shape) + "]"@
}

/// Renders a shape as `[d0, d1, ...]`.
pub fn shape_string(shape: &[usize]) -> (r: String)
    ensures
        r@ == shape_text(shape@),
{
    let mut r = "[".to_owned();
    for i in 0..shape.len()
        invariant
            r@ == "["@ + dims_text(shape@.take(i as int)),
    {
        assert(shape@.take(i + 1).drop_last() =~= shape@.take(i as int));
        assert(shape@.take(i + 1).last() == shape@[i as int]);
        if i > 0 {
            append_str(&mut r, ", ");
        } else {
            assert(dims_text(shape@.take(0)) =~= Seq::<char>::empty());
        }
        let ghost before = r@;
        append_decimal(&mut r, shape[i]);
        proof {
            if i == 0 {
                assert(r@ =~= "["@ + dims_text(shape@.take(1)));
            } else {
                assert(r@ =~= "["@ + dims_text(shape@.take(i + 1)));
            }
        }
    }
    assert(shape@.take(shape@.len() as int) =~= shape@);
    append_str(&mut r, "]");
    r
}

/// Every index is a valid row of a table with `n_rows` rows.
pub open spec fn indices_below(indices: Seq<u32>, n_rows: nat) -> bool {
    forall|i: int| 0 <= i < indices.len() ==> (#[trigger] indices[i] as nat) < n_rows
}

/// `i` is the first index that is not a valid row.
pub open spec fn first_out_of_range(indices: Seq<u32>, n_rows: nat, i: int) -> bool {
    &&& 0 <= i < indices.len()
    &&& indices[i] as nat >= n_rows
    &&& indices_below(indices.take(i), n_rows)
}

fn first_index_not_below(indices: &[u32], n_rows: usize) -> (r: Option<usize>)
    ensures
        r is None ==> indices_below(indices@, n_rows as nat),
        r matches Some(i) ==> first_out_of_range(indices@, n_rows as nat, i as int),
{
    for i in 0..indices.len()
        invariant
            indices_below(indices@.take(i as int), n_rows as nat),
    {
        if indices[i] as usize >= n_rows {
            return Some(i);
        }
        assert forall|k: int| 0 <= k < i + 1 implies (#[trigger] indices@.take(i + 1)[k] as nat)
            < n_rows by {
            if k < i {
                assert(indices@.take(i + 1)[k] == indices@.take(i as int)[k]);
            }
        }
    }
    assert(indices@.take(indices@.len() as int) =~= indices@);
    None
}

/// Checks that every index selects a row of a table with `n_rows` rows; the
/// first one that does not is reported as a `gather_rows` shape mismatch.
pub fn check_gather_indices(n_rows: usize, indices: &[u32]) -> (r: Result<()>)
    ensures
        r is Ok <==> indices_below(indices@, n_rows as nat),
        r matches Err(e) ==> exists|i: int|
            first_out_of_range(indices@, n_rows as nat, i) && is_shape_mismatch(
                e,
                "gather_rows"@,
                "index < "@ + decimal(n_rows as nat),
                decimal(#[trigger] indices@[i] as nat),
            ),
{
    match first_index_not_below(indices, n_rows) {
        None => Ok(()),
        Some(i) => {
            let mut expected = "index < ".to_owned();
            append_decimal(&mut expected, n_rows);
            let r = Err(
                WeatherGraphError::ShapeMismatch {
                    name: "gather_rows".to_owned(),
                    expected,
                    actual: usize_to_text(indices[i] as usize),
                },
            );
            assert(first_out_of_range(indices@, n_rows as nat, i as int));
            r
        },
    }
}

/// Checks the receivers of a scatter-add of `n_edges` edge rows onto
/// `n_nodes` nodes: there is one receiver per edge, and every receiver is a
/// node. Both failures are `aggregate_receivers` shape mismatches.
pub fn check_receivers(n_edges: usize, receivers: &[u32], n_nodes: usize) -> (r: Result<()>)
    ensures
        r is Ok <==> n_edges == receivers@.len() && indices_below(receivers@, n_nodes as nat),
        n_edges != receivers@.len() ==> (r matches Err(e) && is_shape_mismatch(
            e,
            "aggregate_receivers"@,
            decimal(n_edges as nat),
            decimal(receivers@.len()),
        )),
        n_edges == receivers@.len() && r is Err ==> exists|i: int|
            first_out_of_range(receivers@, n_nodes as nat, i) && is_shape_mismatch(
                r->Err_0,
                "aggregate_receivers"@,
                "receiver < "@ + decimal(n_nodes as nat),
                decimal(#[trigger] receivers@[i] as nat),
            ),
{
    if n_edges != receivers.len() {
        return Err(
            WeatherGraphError::ShapeMismatch {
                name: "aggregate_receivers".to_owned(),
                expected: usize_to_text(n_edges),
                actual: usize_to_text(receivers.len()),
            },
        );
    }
    match first_index_not_below(receivers, n_nodes) {
        None => Ok(()),
        Some(i) => {
            let mut expected = "receiver < ".to_owned();
            append_decimal(&mut expected, n_nodes);
            let r = Err(
                WeatherGraphError::ShapeMismatch {
                    name: "aggregate_receivers".to_owned(),
                    expected,
                    actual: usize_to_text(receivers[i] as usize),
                },
            );
            assert(first_out_of_range(receivers@, n_nodes as nat, i as int));
            r
        },
    }
}

} // verus!
