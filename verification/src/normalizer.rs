//! Bookkeeping of the normalisation statistics and surface fields: the
//! per-channel statistics kept for a model width, and the surface fields
//! extended from the grid to the full graph.

use vstd::prelude::*;

use crate::error::{is_shape_mismatch, Result, WeatherGraphError};
use crate::text::{append_decimal, append_str, decimal, usize_to_text};

verus! {

/// The first `n` values of `v`, or all of them when it has fewer.
pub open spec fn take_at_most<T>(v: Seq<T>, n: nat) -> Seq<T> {
    if v.len() <= n {
        v
    } else {
        v.take(n as int)
    }
}

fn take_prefix<T: Copy>(v: &Vec<T>, n: usize) -> (r: Vec<T>)
    ensures
        r@ == take_at_most(v@, n as nat),
{
    let mut r: Vec<T> = Vec::new();
    let mut i: usize = 0;
    while i < v.len() && i < n
        invariant
            i <= v@.len(),
            i <= n,
            r@ == v@.take(i as int),
        decreases v@.len() - i,
    {
        r.push(v[i]);
        i = i + 1;
        assert(r@ =~= v@.take(i as int));
    }
    assert(r@ =~= take_at_most(v@, n as nat));
    r
}

/// Keeps the first `channels` means and standard deviations. Both lists
/// must then hold exactly `channels` values; otherwise a shape mismatch
/// named `temporal normalizer` with the expected count and the kept counts
/// `<means>/<stds>`.
pub fn channel_statistics<T: Copy>(means: &Vec<T>, stds: &Vec<T>, channels: usize) -> (r: Result<
    (Vec<T>, Vec<T>),
>)
    ensures
        r is Ok <==> means@.len() >= channels && stds@.len() >= channels,
        r matches Ok((m, s)) ==> m@ == means@.take(channels as int) && s@ == stds@.take(
            channels as int,
        ),
        r matches Err(e) ==> is_shape_mismatch(
            e,
            "temporal normalizer"@,
            decimal(channels as nat),
            decimal(take_at_most(means@, channels as nat).len()) + "/"@ + decimal(
                take_at_most(stds@, channels as nat).len(),
            ),
        ),
{
    let m = take_prefix(means, channels);
    let s = take_prefix(stds, channels);
    if m.len() != channels || s.len() != channels {
        let mut actual = usize_to_text(m.len());
        append_str(&mut actual, "/");
        append_decimal(&mut actual, s.len());
        return Err(
            WeatherGraphError::ShapeMismatch {
                name: "temporal normalizer".to_owned(),
                expected: usize_to_text(channels),
                actual,
            },
        );
    }
    Ok((m, s))
}

/// A grid field extended to `n_total` values: the field's values first,
/// then `fill` up to the full length.
pub fn pad_to_length<T: Copy>(values: &Vec<T>, n_total: usize, fill: T) -> (r: Vec<T>)
    requires
        values@.len() <= n_total,
    ensures
        r@.len() == n_total,
        forall|i: int| 0 <= i < values@.len() ==> r@[i] == values@[i],
        forall|i: int| values@.len() <= i < n_total ==> r@[i] == fill,
{
    let mut r: Vec<T> = Vec::new();
    for i in 0..n_total
        invariant
            values@.len() <= n_total,
            r@.len() == i,
            forall|k: int| 0 <= k < i && k < values@.len() ==> r@[k] == values@[k],
            forall|k: int| values@.len() <= k < i ==> r@[k] == fill,
    {
        if i < values.len() {
            r.push(values[i]);
        } else {
            r.push(fill);
        }
    }
    r
}

} // verus!
