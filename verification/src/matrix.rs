//! Row-major matrices of node or edge features and the rearrangements that
//! message passing makes of them: joining feature blocks side by side,
//! cutting out a block of rows, placing rows into a larger table, and the
//! shape checks of the element-wise steps.

use vstd::prelude::*;

use crate::error::{is_shape_mismatch, Result, WeatherGraphError};
use crate::tensor::{shape_string, shape_text};
use crate::text::{append_decimal, append_str, concat2, decimal, usize_to_text};

verus! {

/// A matrix of `rows` rows of `cols` values, stored row after row.
#[derive(Debug, Clone)]
pub struct Matrix<T> {
    pub rows: usize,
    pub cols: usize,
    pub data: Vec<T>,
}

impl<T> Matrix<T> {
    /// The data holds exactly `rows * cols` values.
    pub open spec fn wf(&self) -> bool {
        self.data@.len() == self.rows * self.cols
    }

    /// Row `i` of the matrix.
    pub open spec fn row(&self, i: int) -> Seq<T> {
        self.data@.subrange(i * self.cols, i * self.cols + self.cols)
    }
}

/// Row `i` of each of the first `k` matrices, side by side.
pub open spec fn joined_row<T>(pieces: Seq<Matrix<T>>, i: int, k: int) -> Seq<T>
    decreases k,
{
    if k <= 0 {
        Seq::empty()
    } else {
        joined_row(pieces, i, k - 1) + pieces[k - 1].row(i)
    }
}

/// The first `r` joined rows, one after the other.
pub open spec fn joined_rows<T>(pieces: Seq<Matrix<T>>, r: int) -> Seq<T>
    decreases r,
{
    if r <= 0 {
        Seq::empty()
    } else {
        joined_rows(pieces, r - 1) + joined_row(pieces, r - 1, pieces.len() as int)
    }
}

/// The widths of the first `k` matrices added up.
pub open spec fn total_cols<T>(pieces: Seq<Matrix<T>>, k: int) -> int
    decreases k,
{
    if k <= 0 {
        0
    } else {
        total_cols(pieces, k - 1) + pieces[k - 1].cols
    }
}

/// The number of rows that joining takes from the first matrix, 0 when
/// there is none.
pub open spec fn leading_rows<T>(pieces: Seq<Matrix<T>>) -> int {
    if pieces.len() == 0 {
        0
    } else {
        pieces[0].rows as int
    }
}

/// `i` is the first matrix whose row count differs from the first one's.
pub open spec fn first_row_mismatch<T>(pieces: Seq<Matrix<T>>, i: int) -> bool {
    &&& 0 <= i < pieces.len()
    &&& pieces[i].rows != leading_rows(pieces)
    &&& forall|k: int| 0 <= k < i ==> (#[trigger] pieces[k]).rows == leading_rows(pieces)
}

proof fn lemma_row_len<T>(m: Matrix<T>, i: int)
    requires
        m.wf(),
        0 <= i < m.rows,
    ensures
        m.row(i).len() == m.cols,
        i * m.cols + m.cols <= m.data@.len(),
{
    assert(i * m.cols + m.cols <= m.rows * m.cols) by (nonlinear_arith)
        requires
            0 <= i < m.rows,
    ;
}

proof fn lemma_joined_row_len<T>(pieces: Seq<Matrix<T>>, i: int, k: int)
    requires
        0 <= k <= pieces.len(),
        0 <= i,
        forall|p: int| 0 <= p < pieces.len() ==> (#[trigger] pieces[p]).wf(),
        forall|p: int| 0 <= p < pieces.len() ==> i < (#[trigger] pieces[p]).rows,
    ensures
        joined_row(pieces, i, k).len() == total_cols(pieces, k),
    decreases k,
{
    if k > 0 {
        lemma_joined_row_len(pieces, i, k - 1);
        lemma_row_len(pieces[k - 1], i);
    }
}

proof fn lemma_joined_rows_len<T>(pieces: Seq<Matrix<T>>, r: int)
    requires
        0 <= r,
        forall|p: int| 0 <= p < pieces.len() ==> (#[trigger] pieces[p]).wf(),
        forall|p: int| 0 <= p < pieces.len() ==> r <= (#[trigger] pieces[p]).rows,
    ensures
        joined_rows(pieces, r).len() == r * total_cols(pieces, pieces.len() as int),
    decreases r,
{
    if r > 0 {
        lemma_joined_rows_len(pieces, r - 1);
        lemma_joined_row_len(pieces, r - 1, pieces.len() as int);
        assert((r - 1) * total_cols(pieces, pieces.len() as int) + total_cols(
            pieces,
            pieces.len() as int,
        ) == r * total_cols(pieces, pieces.len() as int)) by (nonlinear_arith);
    } else {
        assert(r * total_cols(pieces, pieces.len() as int) == 0) by (nonlinear_arith)
            requires
                r == 0,
        ;
    }
}

proof fn lemma_total_cols_monotone<T>(pieces: Seq<Matrix<T>>, k: int, n: int)
    requires
        0 <= k <= n,
    ensures
        total_cols(pieces, k) <= total_cols(pieces, n),
        0 <= total_cols(pieces, k),
    decreases n,
{
    if n > k {
        lemma_total_cols_monotone(pieces, k, n - 1);
    } else if k > 0 {
        lemma_total_cols_monotone(pieces, k - 1, k - 1);
    }
}

/// Joins matrices side by side (the columns of the first, then those of the
/// second, ...). All must have the row count of the first one; the first
/// that does not is a `concat_tensors` shape mismatch.
pub fn concat_columns<T: Copy>(pieces: &Vec<Matrix<T>>) -> (r: Result<Matrix<T>>)
    requires
        forall|p: int| 0 <= p < pieces@.len() ==> (#[trigger] pieces@[p]).wf(),
        total_cols(pieces@, pieces@.len() as int) <= usize::MAX,
        leading_rows(pieces@) * total_cols(pieces@, pieces@.len() as int) <= usize::MAX,
    ensures
        r is Ok <==> forall|p: int|
            0 <= p < pieces@.len() ==> (#[trigger] pieces@[p]).rows == leading_rows(pieces@),
        r matches Ok(m) ==> {
            &&& m.wf()
            &&& m.rows == leading_rows(pieces@)
            &&& m.cols == total_cols(pieces@, pieces@.len() as int)
            &&& m.data@ == joined_rows(pieces@, m.rows as int)
        },
        r matches Err(e) ==> exists|i: int|
            first_row_mismatch(pieces@, i) && is_shape_mismatch(
                e,
                "concat_tensors"@,
                decimal(leading_rows(pieces@) as nat),
                decimal((#[trigger] pieces@[i]).rows as nat),
            ),
{
    let rows: usize = if pieces.len() == 0 {
        0
    } else {
        pieces[0].rows
    };
    let mut total_width: usize = 0;
    for k in 0..pieces.len()
        invariant
            rows == leading_rows(pieces@),
            total_cols(pieces@, pieces@.len() as int) <= usize::MAX,
            total_width == total_cols(pieces@, k as int),
            forall|p: int| 0 <= p < k ==> (#[trigger] pieces@[p]).rows == rows,
    {
        if pieces[k].rows != rows {
            let r = Err(
                WeatherGraphError::ShapeMismatch {
                    name: "concat_tensors".to_owned(),
                    expected: usize_to_text(rows),
                    actual: usize_to_text(pieces[k].rows),
                },
            );
            assert(first_row_mismatch(pieces@, k as int));
            return r;
        }
        proof {
            lemma_total_cols_monotone(pieces@, k + 1, pieces@.len() as int);
        }
        total_width = total_width + pieces[k].cols;
    }
    let mut values: Vec<T> = Vec::new();
    for row in 0..rows
        invariant
            rows == leading_rows(pieces@),
            total_width == total_cols(pieces@, pieces@.len() as int),
            forall|p: int| 0 <= p < pieces@.len() ==> (#[trigger] pieces@[p]).rows == rows,
            forall|p: int| 0 <= p < pieces@.len() ==> (#[trigger] pieces@[p]).wf(),
            values@ == joined_rows(pieces@, row as int),
    {
        for k in 0..pieces.len()
            invariant
                row < rows,
                forall|p: int| 0 <= p < pieces@.len() ==> (#[trigger] pieces@[p]).rows == rows,
                forall|p: int| 0 <= p < pieces@.len() ==> (#[trigger] pieces@[p]).wf(),
                values@ == joined_rows(pieces@, row as int) + joined_row(pieces@, row as int, k as int),
        {
            let piece = &pieces[k];
            proof {
                lemma_row_len(*piece, row as int);
                assert(piece.data@.len() == piece.data.len());
            }
            let start = row * piece.cols;
            let ghost before = values@;
            for j in 0..piece.cols
                invariant
                    k < pieces@.len(),
                    *piece == pieces@[k as int],
                    piece.wf(),
                    row < piece.rows,
                    start == row * piece.cols,
                    start + piece.cols <= piece.data@.len(),
                    piece.data@.len() <= usize::MAX,
                    values@ == before + piece.row(row as int).take(j as int),
            {
                values.push(piece.data[start + j]);
                assert(values@ =~= before + piece.row(row as int).take(j + 1));
            }
            assert(piece.row(row as int).take(piece.cols as int) =~= piece.row(row as int));
            assert(values@ =~= joined_rows(pieces@, row as int) + joined_row(
                pieces@,
                row as int,
                k + 1,
            ));
        }
        assert(values@ =~= joined_rows(pieces@, row + 1));
    }
    proof {
        lemma_joined_rows_len(pieces@, rows as int);
    }
    Ok(Matrix { rows, cols: total_width, data: values })
}

/// Width of the rows of a matrix as its first row shows it: no columns when
/// it has no rows.
pub open spec fn first_row_width<T>(m: Matrix<T>) -> nat {
    if m.rows == 0 {
        0
    } else {
        m.cols as nat
    }
}

/// `len` rows from row `start` can be cut out of a matrix: they lie inside
/// it, or the cut holds no values at all.
pub open spec fn row_slice_fits<T>(m: Matrix<T>, start: nat, len: nat) -> bool {
    len == 0 || first_row_width(m) == 0 || start + len <= m.rows
}

/// The `len` rows of a matrix starting at row `start`, each as wide as the
/// first row. A cut that would reach past the last row is a `slice_rows`
/// shape mismatch, unless it holds no values (no rows asked for, or rows
/// without columns); such a cut is empty.
pub fn slice_rows<T: Copy>(m: &Matrix<T>, start: usize, len: usize) -> (r: Result<Matrix<T>>)
    requires
        m.wf(),
    ensures
        r is Ok <==> row_slice_fits(*m, start as nat, len as nat),
        r matches Ok(s) ==> {
            &&& s.wf()
            &&& s.rows == len
            &&& s.cols == first_row_width(*m)
            &&& s.data@ == if start + len <= m.rows {
                m.data@.subrange(start * m.cols, (start + len) * m.cols)
            } else {
                Seq::empty()
            }
        },
        r matches Err(e) ==> is_shape_mismatch(
            e,
            "slice_rows"@,
            decimal(len as nat) + " rows from row "@ + decimal(start as nat),
            decimal(m.rows as nat),
        ),
{
    if start <= m.rows && len <= m.rows - start {
        return Ok(copy_rows(m, start, len));
    }
    if len == 0 || m.rows == 0 || m.cols == 0 {
        let cols = if m.rows == 0 {
            0
        } else {
            m.cols
        };
        assert(len * cols == 0) by (nonlinear_arith)
            requires
                len == 0 || cols == 0,
        ;
        return Ok(Matrix { rows: len, cols, data: Vec::new() });
    }
    let mut expected = usize_to_text(len);
    append_str(&mut expected, " rows from row ");
    append_decimal(&mut expected, start);
    Err(
        WeatherGraphError::ShapeMismatch {
            name: "slice_rows".to_owned(),
            expected,
            actual: usize_to_text(m.rows),
        },
    )
}

fn copy_rows<T: Copy>(m: &Matrix<T>, start: usize, len: usize) -> (r: Matrix<T>)
    requires
        m.wf(),
        start + len <= m.rows,
    ensures
        r.wf(),
        r.rows == len,
        r.cols == (if m.rows == 0 {
            0
        } else {
            m.cols
        }),
        r.data@ == m.data@.subrange(start * m.cols, (start + len) * m.cols),
{
    proof {
        assert((start + len) * m.cols <= m.rows * m.cols) by (nonlinear_arith)
            requires
                start + len <= m.rows,
        ;
        assert(start * m.cols <= (start + len) * m.cols) by (nonlinear_arith);
        assert(m.data@.len() == m.data.len());
    }
    let from = start * m.cols;
    let to = (start + len) * m.cols;
    let mut data: Vec<T> = Vec::new();
    for i in from..to
        invariant
            from == start * m.cols,
            to == (start + len) * m.cols,
            to <= m.data@.len(),
            data@ == m.data@.subrange(from as int, i as int),
    {
        data.push(m.data[i]);
        assert(data@ =~= m.data@.subrange(from as int, i + 1));
    }
    assert(data@ =~= m.data@.subrange(from as int, to as int));
    proof {
        assert(to - from == len * m.cols) by (nonlinear_arith)
            requires
                from == start * m.cols,
                to == (start + len) * m.cols,
        ;
    }
    let cols = if m.rows == 0 {
        0
    } else {
        m.cols
    };
    proof {
        if m.rows == 0 {
            assert(len == 0);
            assert(len * m.cols == 0) by (nonlinear_arith)
                requires
                    len == 0,
            ;
        }
        assert(len * cols == data@.len()) by (nonlinear_arith)
            requires
                data@.len() == len * m.cols,
                cols == m.cols || len == 0,
        ;
    }
    Matrix { rows: len, cols, data }
}

/// Places the rows of a matrix into a table of `total_rows` rows, starting at
/// row `offset`; every other row is filled with `fill`.
pub fn pad_rows<T: Copy>(m: &Matrix<T>, total_rows: usize, offset: usize, fill: T) -> (r: Matrix<
    T,
>)
    requires
        m.wf(),
        offset + m.rows <= total_rows,
        total_rows * m.cols <= usize::MAX,
    ensures
        r.wf(),
        r.rows == total_rows,
        r.cols == m.cols,
        forall|i: int|
            0 <= i < r.data@.len() ==> #[trigger] r.data@[i] == if offset * m.cols <= i < offset
                * m.cols + m.data@.len() {
                m.data@[i - offset * m.cols]
            } else {
                fill
            },
{
    proof {
        assert((offset + m.rows) * m.cols <= total_rows * m.cols) by (nonlinear_arith)
            requires
                offset + m.rows <= total_rows,
        ;
        assert((offset + m.rows) * m.cols == offset * m.cols + m.rows * m.cols) by (nonlinear_arith);
    }
    let n = total_rows * m.cols;
    let from = offset * m.cols;
    let to = from + m.data.len();
    let mut data: Vec<T> = Vec::new();
    for i in 0..n
        invariant
            n == total_rows * m.cols,
            from == offset * m.cols,
            to == from + m.data@.len(),
            to <= n,
            data@.len() == i,
            forall|k: int|
                0 <= k < i ==> #[trigger] data@[k] == if from <= k < to {
                    m.data@[k - from]
                } else {
                    fill
                },
    {
        if from <= i && i < to {
            data.push(m.data[i - from]);
        } else {
            data.push(fill);
        }
    }
    Matrix { rows: total_rows, cols: m.cols, data }
}

/// Width of a matrix as seen through its first row: 0 without rows.
pub open spec fn row_width(rows: nat, cols: nat) -> nat {
    if rows == 0 {
        0
    } else {
        cols
    }
}

/// Checks that two matrices can be added element by element: the same
/// number of rows and the same row width. Otherwise an `add_tensors` shape
/// mismatch showing both shapes.
pub fn check_same_shape(lhs_rows: usize, lhs_cols: usize, rhs_rows: usize, rhs_cols: usize) -> (r:
    Result<()>)
    ensures
        r is Ok <==> lhs_rows == rhs_rows && row_width(lhs_rows as nat, lhs_cols as nat)
            == row_width(rhs_rows as nat, rhs_cols as nat),
        r matches Err(e) ==> is_shape_mismatch(
            e,
            "add_tensors"@,
            shape_text(seq![lhs_rows, lhs_cols]),
            shape_text(seq![rhs_rows, rhs_cols]),
        ),
{
    let lw = if lhs_rows == 0 {
        0
    } else {
        lhs_cols
    };
    let rw = if rhs_rows == 0 {
        0
    } else {
        rhs_cols
    };
    if lhs_rows != rhs_rows || lw != rw {
        let l = [lhs_rows, lhs_cols];
        let rr = [rhs_rows, rhs_cols];
        assert(l@ =~= seq![lhs_rows, lhs_cols]);
        assert(rr@ =~= seq![rhs_rows, rhs_cols]);
        return Err(
            WeatherGraphError::ShapeMismatch {
                name: "add_tensors".to_owned(),
                expected: shape_string(&l),
                actual: shape_string(&rr),
            },
        );
    }
    Ok(())
}

/// Checks that a matrix can be scaled row by row by another: the same
/// number of rows, and a scale of one column or of the matrix's width. Both
/// failures are `elementwise_mul` shape mismatches.
pub fn check_scale_shape(lhs_rows: usize, lhs_cols: usize, rhs_rows: usize, rhs_cols: usize) -> (r:
    Result<()>)
    ensures
        r is Ok <==> lhs_rows == rhs_rows && (row_width(rhs_rows as nat, rhs_cols as nat) == 1
            || row_width(rhs_rows as nat, rhs_cols as nat) == row_width(
            lhs_rows as nat,
            lhs_cols as nat,
        )),
        r matches Err(e) ==> if lhs_rows != rhs_rows {
            is_shape_mismatch(
                e,
                "elementwise_mul"@,
                decimal(lhs_rows as nat),
                decimal(rhs_rows as nat),
            )
        } else {
            is_shape_mismatch(
                e,
                "elementwise_mul"@,
                "rhs width 1 or "@ + decimal(row_width(lhs_rows as nat, lhs_cols as nat)),
                decimal(row_width(rhs_rows as nat, rhs_cols as nat)),
            )
        },
{
    if lhs_rows != rhs_rows {
        return Err(
            WeatherGraphError::ShapeMismatch {
                name: "elementwise_mul".to_owned(),
                expected: usize_to_text(lhs_rows),
                actual: usize_to_text(rhs_rows),
            },
        );
    }
    let lw = if lhs_rows == 0 {
        0
    } else {
        lhs_cols
    };
    let rw = if rhs_rows == 0 {
        0
    } else {
        rhs_cols
    };
    if rw != 1 && rw != lw {
        let width = usize_to_text(lw);
        return Err(
            WeatherGraphError::ShapeMismatch {
                name: "elementwise_mul".to_owned(),
                expected: concat2("rhs width 1 or ", width.as_str()),
                actual: usize_to_text(rw),
            },
        );
    }
    Ok(())
}

/// Cutting out the placed rows undoes placing them: in a table that
/// `pad_rows` built from `m` at row `offset`, the rows `offset` to
/// `offset + m.rows` hold exactly the data of `m`.
pub proof fn lemma_slice_undoes_pad<T>(m: Matrix<T>, padded: Matrix<T>, offset: nat, fill: T)
    requires
        m.wf(),
        padded.wf(),
        padded.cols == m.cols,
        offset + m.rows <= padded.rows,
        forall|i: int|
            0 <= i < padded.data@.len() ==> #[trigger] padded.data@[i] == if offset * m.cols <= i
                < offset * m.cols + m.data@.len() {
                m.data@[i - offset * m.cols]
            } else {
                fill
            },
    ensures
        padded.data@.subrange(offset * padded.cols, (offset + m.rows) * padded.cols) == m.data@,
{
    assert((offset + m.rows) * m.cols == offset * m.cols + m.rows * m.cols) by (nonlinear_arith);
    assert((offset + m.rows) * m.cols <= padded.rows * m.cols) by (nonlinear_arith)
        requires
            offset + m.rows <= padded.rows,
    ;
    assert(padded.data@.subrange(offset * padded.cols, (offset + m.rows) * padded.cols) =~= m.data@);
}

/// Checks that rows of `input_width` values can go through a linear layer
/// whose weight rows have `weight_width` values; otherwise a `linear layer`
/// shape mismatch.
pub fn check_linear_input(input_width: usize, weight_width: usize) -> (r: Result<()>)
    ensures
        r is Ok <==> input_width == weight_width,
        r matches Err(e) ==> is_shape_mismatch(
            e,
            "linear layer"@,
            "input width "@ + decimal(weight_width as nat),
            decimal(input_width as nat),
        ),
{
    if input_width != weight_width {
        let mut expected = "input width ".to_owned();
        append_decimal(&mut expected, weight_width);
        return Err(
            WeatherGraphError::ShapeMismatch {
                name: "linear layer".to_owned(),
                expected,
                actual: usize_to_text(input_width),
            },
        );
    }
    Ok(())
}

/// Checks that a layer norm's scale and offset both have the width of the
/// rows it normalises; otherwise a `layer norm` shape mismatch showing both
/// lengths as `<scale>/<offset>`.
pub fn check_norm_widths(width: usize, scale_len: usize, offset_len: usize) -> (r: Result<()>)
    ensures
        r is Ok <==> scale_len == width && offset_len == width,
        r matches Err(e) ==> is_shape_mismatch(
            e,
            "layer norm"@,
            "gamma/beta width "@ + decimal(width as nat),
            decimal(scale_len as nat) + "/"@ + decimal(offset_len as nat),
        ),
{
    if scale_len != width || offset_len != width {
        let mut expected = "gamma/beta width ".to_owned();
        append_decimal(&mut expected, width);
        let mut actual = usize_to_text(scale_len);
        append_str(&mut actual, "/");
        append_decimal(&mut actual, offset_len);
        return Err(
            WeatherGraphError::ShapeMismatch { name: "layer norm".to_owned(), expected, actual },
        );
    }
    Ok(())
}

} // verus!
