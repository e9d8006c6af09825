//! Node sets of the forecasting graph: the regular latitude/longitude grid
//! and the cells of the hexagonal mesh, and the check of their sizes.

use vstd::prelude::*;

use crate::error::{is_shape_mismatch, Result, WeatherGraphError};
use crate::text::{decimal, usize_to_text};

verus! {

/// Number of grid latitudes, from 90 down to -90 degrees.
pub const ERA5_LAT_COUNT: usize = 181;

/// Number of grid longitudes, from 0 to 359 degrees.
pub const ERA5_LON_COUNT: usize = 360;

/// Number of grid nodes.
pub const ERA5_NODE_COUNT: usize = ERA5_LAT_COUNT * ERA5_LON_COUNT;

/// Resolution of the hexagonal mesh.
pub const H3_RESOLUTION: u8 = 2;

/// Number of mesh nodes at that resolution.
pub const H3_NODE_COUNT: usize = 5882;

/// Number of nodes of the whole graph: grid nodes first, then mesh nodes.
pub const TOTAL_NODE_COUNT: usize = ERA5_NODE_COUNT + H3_NODE_COUNT;

/// Number of base cells of the mesh.
pub const H3_BASE_CELL_COUNT: u8 = 122;

/// Latitude and longitude, in whole degrees, of grid node `i`: rows run
/// from 90 down to -90, and within a row longitudes run from 0 to 359.
pub open spec fn era5_node_latlon(i: int) -> (int, int) {
    (90 - i / 360, i % 360)
}

/// The grid nodes' latitudes and longitudes in whole degrees, in node order.
pub fn era5_grid_latlon() -> (r: Vec<(i16, u16)>)
    ensures
        r@.len() == ERA5_NODE_COUNT,
        forall|i: int|
            0 <= i < r@.len() ==> (#[trigger] r@[i]).0 as int == era5_node_latlon(i).0 && r@[i].1
                as int == era5_node_latlon(i).1,
{
    let mut r: Vec<(i16, u16)> = Vec::new();
    let mut row: i16 = 0;
    while row < 181
        invariant
            0 <= row <= 181,
            r@.len() == 360 * row,
            forall|i: int|
                0 <= i < r@.len() ==> (#[trigger] r@[i]).0 as int == 90 - i / 360 && r@[i].1 as int
                    == i % 360,
        decreases 181 - row,
    {
        let lat: i16 = 90 - row;
        let mut lon: u16 = 0;
        while lon < 360
            invariant
                0 <= row < 181,
                lat == 90 - row,
                0 <= lon <= 360,
                r@.len() == 360 * row + lon,
                forall|i: int|
                    0 <= i < r@.len() ==> (#[trigger] r@[i]).0 as int == 90 - i / 360 && r@[i].1
                        as int == i % 360,
            decreases 360 - lon,
        {
            let ghost k = r@.len() as int;
            assert(k / 360 == row as int && k % 360 == lon as int) by (nonlinear_arith)
                requires
                    k == 360 * row + lon,
                    0 <= lon < 360,
                    0 <= row,
            ;
            r.push((lat, lon));
            lon = lon + 1;
        }
        row = row + 1;
    }
    r
}

/// The 64-bit index of base cell `i`: the resolution-0 index
/// `0x0800_1fff_ffff_ffff` with `i` in the base-cell bits, from bit 45 on
/// (`CellIndex::base_cells`).
pub open spec fn h3_base_cell_index(i: u8) -> u64 {
    0x0800_1fff_ffff_ffffu64 | ((i as u64) << 45u64)
}

/// The descendants of a cell at a resolution, as 64-bit cell indices
/// (`CellIndex::children`).
pub uninterp spec fn h3_children_of(cell: u64, resolution: u8) -> Seq<u64>;

/// The `i`-th of the `BaseCell::count()` (122) base cells
/// (`CellIndex::base_cells().nth(i)`); the iterator yields one cell per
/// base-cell number below that count.
#[verifier::external_body]
fn h3_base_cell(i: u8) -> (r: Option<u64>)
    requires
        i < H3_BASE_CELL_COUNT,
    ensures
        r == Some(h3_base_cell_index(i)),
{
    h3o::CellIndex::base_cells().nth(usize::from(i)).map(u64::from)
}

/// The descendants of a base cell at a resolution
/// (`CellIndex::children`). Resolutions above 15 are refused by
/// `Resolution::try_from`; base cells are valid cell indices.
#[verifier::external_body]
fn h3_cell_children(cell: u64, resolution: u8) -> (r: Option<Vec<u64>>)
    requires
        exists|i: u8| i < H3_BASE_CELL_COUNT && cell == #[trigger] h3_base_cell_index(i),
    ensures
        resolution <= 15 <==> r is Some,
        r matches Some(v) ==> v@ == h3_children_of(cell, resolution),
{
    let resolution = h3o::Resolution::try_from(resolution).ok()?;
    let cell = h3o::CellIndex::try_from(cell).ok()?;
    Some(cell.children(resolution).map(u64::from).collect())
}

/// The mesh cells at a resolution: the descendants of the base cells, base
/// cell by base cell.
pub open spec fn h3_cells_of(resolution: u8, n: nat) -> Seq<u64>
    decreases n,
{
    if n == 0 {
        Seq::empty()
    } else {
        h3_cells_of(resolution, (n - 1) as nat) + h3_children_of(
            h3_base_cell_index((n - 1) as u8),
            resolution,
        )
    }
}

/// All mesh cells at a resolution.
pub open spec fn h3_all_cells(resolution: u8) -> Seq<u64> {
    h3_cells_of(resolution, H3_BASE_CELL_COUNT as nat)
}

/// The values are in ascending order.
pub open spec fn ascending(s: Seq<u64>) -> bool {
    forall|i: int, j: int| 0 <= i < j < s.len() ==> s[i] <= s[j]
}

/// The values of `v` in ascending order.
pub fn sort_u64(v: Vec<u64>) -> (r: Vec<u64>)
    ensures
        r@.to_multiset() == v@.to_multiset(),
        ascending(r@),
{
    broadcast use vstd::seq_lib::group_to_multiset_ensures;

    let mut r: Vec<u64> = Vec::new();
    for i in 0..v.len()
        invariant
            r@.to_multiset() == v@.take(i as int).to_multiset(),
            ascending(r@),
    {
        let x = v[i];
        let mut j: usize = 0;
        while j < r.len() && r[j] <= x
            invariant
                j <= r@.len(),
                forall|k: int| 0 <= k < j ==> r@[k] <= x,
            decreases r@.len() - j,
        {
            j = j + 1;
        }
        let ghost old_r = r@;
        r.insert(j, x);
        proof {
            old_r.insert_ensures(j as int, x);
            assert forall|p: int, q: int| 0 <= p < q < r@.len() implies r@[p] <= r@[q] by {
                if q < j {
                } else if q == j {
                } else if p < j {
                    assert(r@[q] == old_r[q - 1]);
                } else if p == j {
                    assert(r@[q] == old_r[q - 1]);
                } else {
                    assert(r@[p] == old_r[p - 1] && r@[q] == old_r[q - 1]);
                }
            }
            assert(r@.remove(j as int) =~= old_r);
            assert(r@.contains(x));
            r@.to_multiset_ensures();
            assert(r@.to_multiset().count(x) > 0);
            assert(r@.to_multiset() =~= old_r.to_multiset().insert(x));
            assert(v@.take(i + 1) =~= v@.take(i as int).push(v@[i as int]));
            v@.take(i as int).to_multiset_ensures();
        }
    }
    assert(v@.take(v@.len() as int) =~= v@);
    r
}

/// The mesh cells at a resolution in ascending order of their indices,
/// provided the mesh has `H3_NODE_COUNT` of them. Otherwise an `h3 geometry`
/// shape mismatch; a resolution above 15 is an invalid configuration.
pub fn h3_cell_indices(resolution: u8) -> (r: Result<Vec<u64>>)
    ensures
        resolution > 15 ==> (r matches Err(e) && e is InvalidConfig),
        resolution <= 15 ==> (r is Ok <==> h3_all_cells(resolution).len() == H3_NODE_COUNT),
        resolution <= 15 && r is Err ==> is_shape_mismatch(
            r->Err_0,
            "h3 geometry"@,
            decimal(H3_NODE_COUNT as nat),
            decimal(h3_all_cells(resolution).len()),
        ),
        r matches Ok(v) ==> v@.len() == H3_NODE_COUNT && ascending(v@) && v@.to_multiset()
            == h3_all_cells(resolution).to_multiset(),
{
    let mut cells: Vec<u64> = Vec::new();
    let mut b: u8 = 0;
    while b < H3_BASE_CELL_COUNT
        invariant
            b <= H3_BASE_CELL_COUNT,
            resolution <= 15 ==> cells@ == h3_cells_of(resolution, b as nat),
            resolution > 15 ==> b == 0,
        decreases H3_BASE_CELL_COUNT - b,
    {
        let base = h3_base_cell(b).unwrap();
        assert(base == h3_base_cell_index(b));
        let mut children = match h3_cell_children(base, resolution) {
            Some(c) => c,
            None => {
                let mut m = "invalid H3 resolution ".to_owned();
                crate::text::append_decimal(&mut m, resolution as usize);
                return Err(WeatherGraphError::InvalidConfig(m));
            },
        };
        let ghost before = cells@;
        cells.append(&mut children);
        assert(cells@ =~= h3_cells_of(resolution, (b + 1) as nat));
        b = b + 1;
    }
    if cells.len() != H3_NODE_COUNT {
        return Err(
            WeatherGraphError::ShapeMismatch {
                name: "h3 geometry".to_owned(),
                expected: usize_to_text(H3_NODE_COUNT),
                actual: usize_to_text(cells.len()),
            },
        );
    }
    let sorted = sort_u64(cells);
    proof {
        sorted@.to_multiset_ensures();
        cells@.to_multiset_ensures();
    }
    Ok(sorted)
}

/// The number of grid nodes is `ERA5_NODE_COUNT`, that of mesh nodes
/// `H3_NODE_COUNT`, and together `TOTAL_NODE_COUNT`. The grid always has
/// its count; the mesh count is checked as `h3_cell_indices` does.
pub fn verify_geometry_counts() -> (r: Result<()>)
    ensures
        r is Ok <==> h3_all_cells(H3_RESOLUTION).len() == H3_NODE_COUNT,
        r is Err ==> is_shape_mismatch(
            r->Err_0,
            "h3 geometry"@,
            decimal(H3_NODE_COUNT as nat),
            decimal(h3_all_cells(H3_RESOLUTION).len()),
        ),
{
    let era5 = era5_grid_latlon();
    let h3 = h3_cell_indices(H3_RESOLUTION)?;
    let total = era5.len() + h3.len();
    if era5.len() != ERA5_NODE_COUNT {
        return Err(
            WeatherGraphError::ShapeMismatch {
                name: "era5 geometry".to_owned(),
                expected: usize_to_text(ERA5_NODE_COUNT),
                actual: usize_to_text(era5.len()),
            },
        );
    }
    if h3.len() != H3_NODE_COUNT {
        return Err(
            WeatherGraphError::ShapeMismatch {
                name: "h3 geometry".to_owned(),
                expected: usize_to_text(H3_NODE_COUNT),
                actual: usize_to_text(h3.len()),
            },
        );
    }
    if total != TOTAL_NODE_COUNT {
        return Err(
            WeatherGraphError::ShapeMismatch {
                name: "combined geometry".to_owned(),
                expected: usize_to_text(TOTAL_NODE_COUNT),
                actual: usize_to_text(total),
            },
        );
    }
    Ok(())
}

} // verus!
