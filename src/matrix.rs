use vstd::prelude::*;

verus! {

/// Row `i` of a row-major matrix with `cols` columns stored in `flat`.
pub open spec fn flat_row<T>(flat: Seq<T>, cols: nat, i: int) -> Seq<T> {
    flat.subrange(i * cols, (i + 1) * cols)
}

/// Why a flat buffer could not be read as a matrix of the requested shape.
#[derive(Debug, Clone, Copy, PartialEq, Eq)]
pub struct ShapeError {
    pub rows: usize,
    pub cols: usize,
    pub len: usize,
}

/// A dense row-major matrix: entry `(i, j)` is stored at `i * cols + j`.
#[derive(Debug)]
pub struct Matrix<T> {
    rows: usize,
    cols: usize,
    data: Vec<T>,
}

pub proof fn lemma_row_in_bounds(rows: nat, cols: nat, i: int)
    requires
        0 <= i < rows,
    ensures
        0 <= i * cols,
        i * cols + cols == (i + 1) * cols,
        (i + 1) * cols <= rows * cols,
{
    assert(0 <= i * cols) by (nonlinear_arith)
        requires
            0 <= i,
    ;
    assert(i * cols + cols == (i + 1) * cols) by (nonlinear_arith);
    assert((i + 1) * cols <= rows * cols) by (nonlinear_arith)
        requires
            i + 1 <= rows,
    ;
}

impl<T> View for Matrix<T> {
    type V = Seq<Seq<T>>;

    /// The rows of the matrix.
    open spec fn view(&self) -> Seq<Seq<T>> {
        Seq::new(self.num_rows(), |i: int| self.row(i))
    }
}

impl<T> Matrix<T> {
    pub closed spec fn num_rows(&self) -> nat {
        self.rows as nat
    }

    pub closed spec fn num_cols(&self) -> nat {
        self.cols as nat
    }

    /// The entries, row after row.
    pub closed spec fn entries(&self) -> Seq<T> {
        self.data@
    }

    pub open spec fn wf(&self) -> bool {
        self.entries().len() == self.num_rows() * self.num_cols()
    }

    /// Row `i` of the matrix.
    pub open spec fn row(&self, i: int) -> Seq<T> {
        flat_row(self.entries(), self.num_cols(), i)
    }

    pub fn nrows(&self) -> (r: usize)
        ensures
            r == self.num_rows(),
    {
        self.rows
    }

    pub fn ncols(&self) -> (r: usize)
        ensures
            r == self.num_cols(),
    {
        self.cols
    }

    /// Reads `data` as `rows` rows of `cols` entries each; fails unless its
    /// length is exactly `rows * cols`.
    pub fn from_flat(rows: usize, cols: usize, data: Vec<T>) -> (r: Result<Matrix<T>, ShapeError>)
        ensures
            r is Ok <==> data@.len() == rows * cols,
            r matches Ok(m) ==> m.wf() && m.num_rows() == rows && m.num_cols() == cols
                && m.entries() == data@,
            r matches Err(e) ==> e == (ShapeError { rows, cols, len: data@.len() as usize }),
    {
        let len = data.len();
        match rows.checked_mul(cols) {
            Some(n) => {
                if n == len {
                    Ok(Matrix { rows, cols, data })
                } else {
                    Err(ShapeError { rows, cols, len })
                }
            },
            None => Err(ShapeError { rows, cols, len }),
        }
    }

    /// The entries, row after row.
    pub fn into_flat(self) -> (r: Vec<T>)
        ensures
            r@ == self.entries(),
    {
        self.data
    }
}

impl<T: Copy> Matrix<T> {
    /// Entry `(i, j)`.
    pub fn get(&self, i: usize, j: usize) -> (r: T)
        requires
            self.wf(),
            i < self.num_rows(),
            j < self.num_cols(),
        ensures
            r == self.row(i as int)[j as int],
    {
        let n = self.data.len();
        proof {
            lemma_row_in_bounds(self.num_rows(), self.num_cols(), i as int);
        }
        self.data[i * self.cols + j]
    }

    /// A copy of row `i`.
    pub fn row_vec(&self, i: usize) -> (r: Vec<T>)
        requires
            self.wf(),
            i < self.num_rows(),
        ensures
            r@ == self.row(i as int),
    {
        let n = self.data.len();
        proof {
            lemma_row_in_bounds(self.num_rows(), self.num_cols(), i as int);
        }
        let lo: usize = i * self.cols;
        let hi: usize = lo + self.cols;
        copy_range(&self.data, lo, hi)
    }

    /// The rows `start .. start + count`, copied into a matrix of their own.
    pub fn slice_rows(&self, start: usize, count: usize) -> (r: Matrix<T>)
        requires
            self.wf(),
            start + count <= self.num_rows(),
        ensures
            r.wf(),
            r.num_rows() == count,
            r.num_cols() == self.num_cols(),
            r.entries() == self.entries().subrange(
                start * self.num_cols() as int,
                (start + count) * self.num_cols() as int,
            ),
            forall|k: int| 0 <= k < count ==> #[trigger] r.row(k) == self.row(start + k),
            r@ == self@.subrange(start as int, start + count),
    {
        let ghost c = self.num_cols();
        let n = self.data.len();
        proof {
            assert(start * c <= (start + count) * c) by (nonlinear_arith);
            assert((start + count) * c <= self.num_rows() * c) by (nonlinear_arith)
                requires
                    start + count <= self.num_rows(),
            ;
            assert((start + count) * c - start * c == count * c) by (nonlinear_arith);
        }
        let lo: usize = start * self.cols;
        let hi: usize = (start + count) * self.cols;
        let data = copy_range(&self.data, lo, hi);
        let r = Matrix { rows: count, cols: self.cols, data };
        assert forall|k: int| 0 <= k < count implies #[trigger] r.row(k) == self.row(start + k) by {
            lemma_row_in_bounds(count as nat, c, k);
            assert(start * c + k * c == (start + k) * c) by (nonlinear_arith);
            assert(start * c + (k + 1) * c == (start + k + 1) * c) by (nonlinear_arith);
            assert(r.row(k) =~= self.row(start + k));
        }
        assert(r@ =~= self@.subrange(start as int, start + count));
        r
    }
}

/// Appends `v[lo .. hi]` to `out`.
pub fn append_range<T: Copy>(out: &mut Vec<T>, v: &Vec<T>, lo: usize, hi: usize)
    requires
        lo <= hi <= v@.len(),
    ensures
        final(out)@ == old(out)@ + v@.subrange(lo as int, hi as int),
{
    let ghost start = out@;
    let mut k: usize = lo;
    while k < hi
        invariant
            lo <= k <= hi,
            hi <= v@.len(),
            out@ == start + v@.subrange(lo as int, k as int),
        decreases hi - k,
    {
        out.push(v[k]);
        k = k + 1;
        assert(out@ =~= start + v@.subrange(lo as int, k as int));
    }
}

/// A copy of `v[lo .. hi]`.
fn copy_range<T: Copy>(v: &Vec<T>, lo: usize, hi: usize) -> (r: Vec<T>)
    requires
        lo <= hi <= v@.len(),
    ensures
        r@ == v@.subrange(lo as int, hi as int),
{
    let mut out: Vec<T> = Vec::new();
    let mut k: usize = lo;
    while k < hi
        invariant
            lo <= k <= hi,
            hi <= v@.len(),
            out@ == v@.subrange(lo as int, k as int),
        decreases hi - k,
    {
        out.push(v[k]);
        k = k + 1;
        assert(out@ =~= v@.subrange(lo as int, k as int));
    }
    out
}

} // verus!
