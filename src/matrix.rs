//! Dense matrices of scalars, with determinants by cofactor expansion and
//! inverses by the adjugate.
use vstd::prelude::*;
use crate::fixed::{Fx, fx, one, lemma_mul_one, lemma_mul_zero, fx_add, fx_sub, fx_neg, fx_mul, fx_div, fx_close, compare_float};
use crate::point_vector::{PointVector, tuple};

verus! {

/// `g` has `n` rows of `m` cells each.
pub open spec fn shaped(g: Seq<Seq<Fx>>, n: nat, m: nat) -> bool {
    g.len() == n && forall|i: int| 0 <= i < n ==> (#[trigger] g[i]).len() == m
}

pub open spec fn grid_identity(n: nat) -> Seq<Seq<Fx>> {
    Seq::new(n, |i: int| Seq::new(n, |j: int| if i == j { fx(one()) } else { fx(0) }))
}

/// The `m`-by-`n` transpose of an `n`-by-`m` grid.
pub open spec fn grid_transpose(g: Seq<Seq<Fx>>, n: nat, m: nat) -> Seq<Seq<Fx>> {
    Seq::new(m, |i: int| Seq::new(n, |j: int| g[j][i]))
}

/// Running sum `a[i][0] * b[0][j] + ... + a[i][k-1] * b[k-1][j]`, added left to right.
pub open spec fn row_col_sum(a: Seq<Seq<Fx>>, b: Seq<Seq<Fx>>, i: int, j: int, k: nat) -> Fx
    decreases k,
{
    if k == 0 {
        fx(0)
    } else {
        fx_add(row_col_sum(a, b, i, j, (k - 1) as nat), fx_mul(a[i][k - 1], b[k - 1][j]))
    }
}

/// Product of an `n`-by-`k` grid and a `k`-by-`p` grid.
pub open spec fn grid_product(a: Seq<Seq<Fx>>, b: Seq<Seq<Fx>>, n: nat, k: nat, p: nat) -> Seq<Seq<Fx>> {
    Seq::new(n, |i: int| Seq::new(p, |j: int| row_col_sum(a, b, i, j, k)))
}

/// Index into the full grid of position `i` once position `skip` is dropped.
pub open spec fn skip_index(i: int, skip: int) -> int {
    if i < skip {
        i
    } else {
        i + 1
    }
}

/// An `n`-by-`m` grid without row `r` and column `c`.
pub open spec fn grid_sub(g: Seq<Seq<Fx>>, n: nat, m: nat, r: int, c: int) -> Seq<Seq<Fx>> {
    Seq::new(
        (n - 1) as nat,
        |i: int| Seq::new((m - 1) as nat, |j: int| g[skip_index(i, r)][skip_index(j, c)]),
    )
}

/// Determinant of a square grid: the cell itself for order 1, the direct
/// formula for order 2, cofactor expansion along row 0 above that.
pub open spec fn grid_det(g: Seq<Seq<Fx>>) -> Fx
    decreases g.len(), 2nat, 0nat,
{
    if g.len() == 0 {
        fx(0)
    } else if g.len() == 1 {
        g[0][0]
    } else if g.len() == 2 {
        fx_sub(fx_mul(g[0][0], g[1][1]), fx_mul(g[1][0], g[0][1]))
    } else {
        det_sum(g, g.len())
    }
}

/// `g[0][0] * cofactor(0, 0) + ... + g[0][j-1] * cofactor(0, j-1)`, added left to right.
pub open spec fn det_sum(g: Seq<Seq<Fx>>, j: nat) -> Fx
    decreases g.len(), 1nat, j,
{
    if j == 0 || g.len() == 0 {
        fx(0)
    } else {
        fx_add(det_sum(g, (j - 1) as nat), fx_mul(g[0][j - 1], grid_cofactor(g, 0, j - 1)))
    }
}

/// Determinant of the grid without row `r` and column `c`.
pub open spec fn grid_minor(g: Seq<Seq<Fx>>, r: int, c: int) -> Fx
    decreases g.len(), 0nat, 1nat,
{
    if g.len() == 0 {
        fx(0)
    } else {
        grid_det(grid_sub(g, g.len(), g.len(), r, c))
    }
}

/// The minor, negated where `r + c` is odd.
pub open spec fn grid_cofactor(g: Seq<Seq<Fx>>, r: int, c: int) -> Fx
    decreases g.len(), 0nat, 2nat,
{
    if (r + c) % 2 == 0 {
        grid_minor(g, r, c)
    } else {
        fx_neg(grid_minor(g, r, c))
    }
}

/// The adjugate divided by the determinant: cell `(i, j)` is
/// `cofactor(j, i) / det`.
pub open spec fn grid_inverse(g: Seq<Seq<Fx>>) -> Seq<Seq<Fx>> {
    Seq::new(g.len(), |i: int| Seq::new(g.len(), |j: int| fx_div(grid_cofactor(g, j, i), grid_det(g))))
}

/// Row `r` of a grid times a tuple taken as a column.
pub open spec fn row_times(r: Seq<Fx>, p: PointVector) -> Fx {
    fx_add(fx_add(fx_add(fx_mul(r[0], p.x), fx_mul(r[1], p.y)), fx_mul(r[2], p.z)), fx_mul(r[3], p.w))
}

/// A 4-by-4 grid times a tuple taken as a column.
pub open spec fn grid_apply(g: Seq<Seq<Fx>>, p: PointVector) -> PointVector {
    tuple(row_times(g[0], p), row_times(g[1], p), row_times(g[2], p), row_times(g[3], p))
}

/// Same shape, and every cell within the tolerance.
pub open spec fn grid_close(a: Seq<Seq<Fx>>, b: Seq<Seq<Fx>>) -> bool {
    &&& a.len() == b.len()
    &&& forall|i: int| 0 <= i < a.len() ==> (#[trigger] a[i]).len() == b[i].len()
    &&& forall|i: int, j: int|
        0 <= i < a.len() && 0 <= j < a[i].len() ==> fx_close(#[trigger] a[i][j], b[i][j])
}

/// Dropping row 0 and column 0 of the identity of order `n` leaves the identity of order `n - 1`.
proof fn lemma_identity_sub(n: nat)
    requires
        n >= 1,
    ensures
        grid_sub(grid_identity(n), n, n, 0, 0) == grid_identity((n - 1) as nat),
{
    assert(grid_sub(grid_identity(n), n, n, 0, 0) =~~= grid_identity((n - 1) as nat));
}

proof fn lemma_det_sum_identity(n: nat, j: nat)
    requires
        n >= 3,
        1 <= j <= n,
        grid_det(grid_identity((n - 1) as nat)) == fx(one()),
    ensures
        det_sum(grid_identity(n), j) == fx(one()),
    decreases j,
{
    let g = grid_identity(n);
    lemma_mul_one(fx(one()));
    if j == 1 {
        lemma_identity_sub(n);
        assert(grid_cofactor(g, 0, 0) == fx(one()));
        assert(det_sum(g, 0) == fx(0));
    } else {
        lemma_det_sum_identity(n, (j - 1) as nat);
        assert(g[0][j - 1] == fx(0));
        lemma_mul_zero(grid_cofactor(g, 0, j - 1));
    }
}

/// The determinant of the identity matrix of any order is 1.0.
pub proof fn lemma_det_identity(n: nat)
    requires
        n >= 1,
    ensures
        grid_det(grid_identity(n)) == fx(one()),
    decreases n,
{
    let g = grid_identity(n);
    if n == 2 {
        lemma_mul_one(fx(one()));
        lemma_mul_zero(fx(0));
        assert(g[0][0] == fx(one()) && g[1][1] == fx(one()) && g[0][1] == fx(0) && g[1][0] == fx(0));
    } else if n >= 3 {
        lemma_det_identity((n - 1) as nat);
        lemma_det_sum_identity(n, n);
    }
}

#[derive(Clone, Copy, Debug, PartialEq, Eq, Structural)]
pub enum MatrixError {
    /// The rows do not all have the same length.
    JaggedRows,
}

#[derive(Debug)]
pub struct Matrix {
    pub values: Vec<Vec<Fx>>,
    pub i_dim: usize,
    pub j_dim: usize,
}

impl Matrix {
    pub open spec fn cells(&self) -> Seq<Seq<Fx>> {
        self.values@.map_values(|r: Vec<Fx>| r@)
    }

    pub open spec fn wf(&self) -> bool {
        shaped(self.cells(), self.i_dim as nat, self.j_dim as nat)
    }

    pub open spec fn is_square(&self, n: nat) -> bool {
        self.wf() && self.i_dim == n && self.j_dim == n
    }

    /// Builds a matrix from rows of equal length.
    pub fn new(values: Vec<Vec<Fx>>) -> (r: Result<Matrix, MatrixError>)
        ensures
            values@.len() == 0 || shaped(values@.map_values(|row: Vec<Fx>| row@), values@.len(), values@[0]@.len())
                <==> r is Ok,
            r matches Ok(m) ==> m.wf() && m.cells() == values@.map_values(|row: Vec<Fx>| row@)
                && m.i_dim == values@.len()
                && m.j_dim == (if values@.len() == 0 { 0 } else { values@[0]@.len() }),
    {
        let ghost g = values@.map_values(|row: Vec<Fx>| row@);
        let i_dim = values.len();
        let j_dim = if i_dim == 0 { 0 } else { values[0].len() };
        let mut i: usize = 0;
        while i < i_dim
            invariant
                i <= i_dim == values@.len() == g.len(),
                g == values@.map_values(|row: Vec<Fx>| row@),
                i_dim > 0 ==> j_dim == g[0].len(),
                forall|k: int| 0 <= k < i ==> (#[trigger] g[k]).len() == j_dim,
            decreases i_dim - i,
        {
            if values[i].len() != j_dim {
                proof {
                    assert(g[i as int].len() != j_dim);
                }
                return Err(MatrixError::JaggedRows);
            }
            i = i + 1;
        }
        Ok(Matrix { values, i_dim, j_dim })
    }

    pub fn shape(&self) -> (r: (usize, usize))
        ensures
            r == (self.i_dim, self.j_dim),
    {
        (self.i_dim, self.j_dim)
    }

    pub fn get(&self, i: usize, j: usize) -> (r: Fx)
        requires
            self.wf(),
            i < self.i_dim,
            j < self.j_dim,
        ensures
            r == self.cells()[i as int][j as int],
    {
        proof {
            assert(self.cells()[i as int] == self.values@[i as int]@);
        }
        self.values[i][j]
    }

    /// Overwrites one cell.
    pub fn set(&mut self, row: usize, col: usize, value: Fx)
        requires
            old(self).wf(),
            row < old(self).i_dim,
            col < old(self).j_dim,
        ensures
            final(self).wf(),
            final(self).i_dim == old(self).i_dim,
            final(self).j_dim == old(self).j_dim,
            final(self).cells() == old(self).cells().update(
                row as int,
                old(self).cells()[row as int].update(col as int, value),
            ),
    {
        proof {
            assert(self.cells()[row as int] == self.values@[row as int]@);
        }
        self.values[row][col] = value;
        proof {
            let g = old(self).cells().update(row as int, old(self).cells()[row as int].update(col as int, value));
            assert(self.cells() =~= g);
        }
    }

    /// A cell-by-cell copy.
    pub fn duplicate(&self) -> (r: Matrix)
        requires
            self.wf(),
        ensures
            r.wf(),
            r.i_dim == self.i_dim,
            r.j_dim == self.j_dim,
            r.cells() == self.cells(),
    {
        let mut values: Vec<Vec<Fx>> = Vec::new();
        let mut i: usize = 0;
        while i < self.i_dim
            invariant
                self.wf(),
                i <= self.i_dim,
                values@.len() == i,
                forall|k: int| 0 <= k < i ==> (#[trigger] values@[k])@ == self.cells()[k],
            decreases self.i_dim - i,
        {
            let mut row: Vec<Fx> = Vec::new();
            let mut j: usize = 0;
            while j < self.j_dim
                invariant
                    self.wf(),
                    i < self.i_dim,
                    j <= self.j_dim,
                    row@.len() == j,
                    forall|k: int| 0 <= k < j ==> row@[k] == self.cells()[i as int][k],
                decreases self.j_dim - j,
            {
                row.push(self.get(i, j));
                j = j + 1;
            }
            assert(row@ =~= self.cells()[i as int]);
            values.push(row);
            i = i + 1;
        }
        let r = Matrix { values, i_dim: self.i_dim, j_dim: self.j_dim };
        assert(r.cells() =~= self.cells());
        r
    }

    /// The identity matrix of order `n`.
    pub fn identity(n: usize) -> (r: Matrix)
        ensures
            r.is_square(n as nat),
            r.cells() == grid_identity(n as nat),
    {
        let ghost target = grid_identity(n as nat);
        let mut values: Vec<Vec<Fx>> = Vec::new();
        let mut i: usize = 0;
        while i < n
            invariant
                target == grid_identity(n as nat),
                i <= n,
                values@.len() == i,
                forall|k: int| 0 <= k < i ==> (#[trigger] values@[k])@ == target[k],
            decreases n - i,
        {
            let mut row: Vec<Fx> = Vec::new();
            let mut j: usize = 0;
            while j < n
                invariant
                    target == grid_identity(n as nat),
                target == grid_identity(n as nat),
                    i < n,
                    j <= n,
                    row@.len() == j,
                    forall|k: int| 0 <= k < j ==> row@[k] == target[i as int][k],
                decreases n - j,
            {
                if i == j {
                    row.push(Fx::one());
                } else {
                    row.push(Fx::zero());
                }
                j = j + 1;
            }
            assert(row@ =~= target[i as int]);
            values.push(row);
            i = i + 1;
        }
        let r = Matrix { values, i_dim: n, j_dim: n };
        assert(r.cells() =~= target);
        r
    }

    pub fn transpose(&self) -> (r: Matrix)
        requires
            self.wf(),
        ensures
            r.wf(),
            r.i_dim == self.j_dim,
            r.j_dim == self.i_dim,
            r.cells() == grid_transpose(self.cells(), self.i_dim as nat, self.j_dim as nat),
    {
        let ghost target = grid_transpose(self.cells(), self.i_dim as nat, self.j_dim as nat);
        let mut values: Vec<Vec<Fx>> = Vec::new();
        let mut i: usize = 0;
        while i < self.j_dim
            invariant
                target == grid_transpose(self.cells(), self.i_dim as nat, self.j_dim as nat),
                self.wf(),
                i <= self.j_dim,
                values@.len() == i,
                forall|k: int| 0 <= k < i ==> (#[trigger] values@[k])@ == target[k],
            decreases self.j_dim - i,
        {
            let mut row: Vec<Fx> = Vec::new();
            let mut j: usize = 0;
            while j < self.i_dim
                invariant
                    target == grid_transpose(self.cells(), self.i_dim as nat, self.j_dim as nat),
                target == grid_transpose(self.cells(), self.i_dim as nat, self.j_dim as nat),
                    self.wf(),
                    i < self.j_dim,
                    j <= self.i_dim,
                    row@.len() == j,
                    forall|k: int| 0 <= k < j ==> row@[k] == target[i as int][k],
                decreases self.i_dim - j,
            {
                row.push(self.get(j, i));
                j = j + 1;
            }
            assert(row@ =~= target[i as int]);
            values.push(row);
            i = i + 1;
        }
        let r = Matrix { values, i_dim: self.j_dim, j_dim: self.i_dim };
        assert(r.cells() =~= target);
        r
    }

    /// Standard matrix product; the inner dimensions must agree.
    pub fn multiply(&self, other: &Matrix) -> (r: Matrix)
        requires
            self.wf(),
            other.wf(),
            self.j_dim == other.i_dim,
        ensures
            r.wf(),
            r.i_dim == self.i_dim,
            r.j_dim == other.j_dim,
            r.cells() == grid_product(
                self.cells(),
                other.cells(),
                self.i_dim as nat,
                self.j_dim as nat,
                other.j_dim as nat,
            ),
    {
        let ghost a = self.cells();
        let ghost b = other.cells();
        let ghost target = grid_product(a, b, self.i_dim as nat, self.j_dim as nat, other.j_dim as nat);
        let mut values: Vec<Vec<Fx>> = Vec::new();
        let mut i: usize = 0;
        while i < self.i_dim
            invariant
                a == self.cells() && b == other.cells() && target == grid_product(a, b, self.i_dim as nat, self.j_dim as nat, other.j_dim as nat),
                self.wf(),
                other.wf(),
                self.j_dim == other.i_dim,
                i <= self.i_dim,
                values@.len() == i,
                forall|k: int| 0 <= k < i ==> (#[trigger] values@[k])@ == target[k],
            decreases self.i_dim - i,
        {
            let mut row: Vec<Fx> = Vec::new();
            let mut j: usize = 0;
            while j < other.j_dim
                invariant
                    a == self.cells() && b == other.cells() && target == grid_product(a, b, self.i_dim as nat, self.j_dim as nat, other.j_dim as nat),
                a == self.cells() && b == other.cells() && target == grid_product(a, b, self.i_dim as nat, self.j_dim as nat, other.j_dim as nat),
                    self.wf(),
                    other.wf(),
                    self.j_dim == other.i_dim,
                    i < self.i_dim,
                    j <= other.j_dim,
                    row@.len() == j,
                    forall|k: int| 0 <= k < j ==> row@[k] == target[i as int][k],
                decreases other.j_dim - j,
            {
                let mut value = Fx::zero();
                let mut m: usize = 0;
                while m < self.j_dim
                    invariant
                        a == self.cells() && b == other.cells() && target == grid_product(a, b, self.i_dim as nat, self.j_dim as nat, other.j_dim as nat),
                    a == self.cells() && b == other.cells() && target == grid_product(a, b, self.i_dim as nat, self.j_dim as nat, other.j_dim as nat),
                a == self.cells() && b == other.cells() && target == grid_product(a, b, self.i_dim as nat, self.j_dim as nat, other.j_dim as nat),
                        self.wf(),
                        other.wf(),
                        self.j_dim == other.i_dim,
                        i < self.i_dim,
                        j < other.j_dim,
                        m <= self.j_dim,
                        value == row_col_sum(a, b, i as int, j as int, m as nat),
                    decreases self.j_dim - m,
                {
                    value = value.add(self.get(i, m).mul(other.get(m, j)));
                    m = m + 1;
                }
                row.push(value);
                j = j + 1;
            }
            assert(row@ =~= target[i as int]);
            values.push(row);
            i = i + 1;
        }
        let r = Matrix { values, i_dim: self.i_dim, j_dim: other.j_dim };
        assert(r.cells() =~= target);
        r
    }

    /// The matrix without row `row_to_remove` and column `col_to_remove`.
    pub fn submatrix(&self, row_to_remove: usize, col_to_remove: usize) -> (r: Matrix)
        requires
            self.wf(),
            row_to_remove < self.i_dim,
            col_to_remove < self.j_dim,
        ensures
            r.wf(),
            r.i_dim == self.i_dim - 1,
            r.j_dim == self.j_dim - 1,
            r.cells() == grid_sub(
                self.cells(),
                self.i_dim as nat,
                self.j_dim as nat,
                row_to_remove as int,
                col_to_remove as int,
            ),
    {
        let ghost target = grid_sub(
            self.cells(),
            self.i_dim as nat,
            self.j_dim as nat,
            row_to_remove as int,
            col_to_remove as int,
        );
        let mut values: Vec<Vec<Fx>> = Vec::new();
        let mut i: usize = 0;
        while i < self.i_dim
            invariant
                target == grid_sub(self.cells(), self.i_dim as nat, self.j_dim as nat, row_to_remove as int, col_to_remove as int),
                self.wf(),
                row_to_remove < self.i_dim,
                col_to_remove < self.j_dim,
                i <= self.i_dim,
                values@.len() == if i <= row_to_remove { i as int } else { i - 1 },
                forall|k: int| 0 <= k < values@.len() ==> (#[trigger] values@[k])@ == target[k],
            decreases self.i_dim - i,
        {
            if i != row_to_remove {
                let ghost ti = values@.len() as int;
                assert(skip_index(ti, row_to_remove as int) == i);
                let mut row: Vec<Fx> = Vec::new();
                let mut j: usize = 0;
                while j < self.j_dim
                    invariant
                        target == grid_sub(self.cells(), self.i_dim as nat, self.j_dim as nat, row_to_remove as int, col_to_remove as int),
                    target == grid_sub(self.cells(), self.i_dim as nat, self.j_dim as nat, row_to_remove as int, col_to_remove as int),
                target == grid_sub(self.cells(), self.i_dim as nat, self.j_dim as nat, row_to_remove as int, col_to_remove as int),
                        self.wf(),
                        i < self.i_dim,
                        col_to_remove < self.j_dim,
                        j <= self.j_dim,
                        0 <= ti < self.i_dim - 1,
                        skip_index(ti, row_to_remove as int) == i,
                        row@.len() == if j <= col_to_remove { j as int } else { j - 1 },
                        forall|k: int| 0 <= k < row@.len() ==> row@[k] == target[ti][k],
                    decreases self.j_dim - j,
                {
                    if j != col_to_remove {
                        let ghost tj = row@.len() as int;
                        assert(skip_index(tj, col_to_remove as int) == j);
                        row.push(self.get(i, j));
                    }
                    j = j + 1;
                }
                assert(row@ =~= target[ti]);
                values.push(row);
            }
            i = i + 1;
        }
        let r = Matrix { values, i_dim: self.i_dim - 1, j_dim: self.j_dim - 1 };
        assert(r.cells() =~= target);
        r
    }
    /// Determinant: the cell itself for order 1, `a*d - c*b` for order 2,
    /// cofactor expansion along row 0 above that.
    pub fn determinant(&self) -> (r: Fx)
        requires
            self.is_square(self.i_dim as nat),
        ensures
            r == grid_det(self.cells()),
        decreases self.i_dim, 2nat, 0nat,
    {
        let n = self.i_dim;
        if n == 0 {
            Fx::zero()
        } else if n == 1 {
            self.get(0, 0)
        } else if n == 2 {
            self.get(0, 0).mul(self.get(1, 1)).sub(self.get(1, 0).mul(self.get(0, 1)))
        } else {
            let ghost g = self.cells();
            let mut acc = Fx::zero();
            let mut j: usize = 0;
            while j < n
                invariant
                    g == self.cells(),
                    self.is_square(n as nat),
                    n == self.i_dim,
                    n > 2,
                    j <= n,
                    acc == det_sum(g, j as nat),
                decreases n - j,
            {
                acc = acc.add(self.get(0, j).mul(self.cofactor(0, j)));
                j = j + 1;
            }
            acc
        }
    }

    /// Determinant of the matrix without row `row` and column `col`.
    pub fn minor(&self, row: usize, col: usize) -> (r: Fx)
        requires
            self.is_square(self.i_dim as nat),
            row < self.i_dim,
            col < self.i_dim,
        ensures
            r == grid_minor(self.cells(), row as int, col as int),
        decreases self.i_dim, 0nat, 1nat,
    {
        let sub = self.submatrix(row, col);
        sub.determinant()
    }

    /// The minor, negated where `row + col` is odd.
    pub fn cofactor(&self, row: usize, col: usize) -> (r: Fx)
        requires
            self.is_square(self.i_dim as nat),
            row < self.i_dim,
            col < self.i_dim,
        ensures
            r == grid_cofactor(self.cells(), row as int, col as int),
        decreases self.i_dim, 0nat, 2nat,
    {
        let m = self.minor(row, col);
        if (row % 2 + col % 2) % 2 == 0 {
            m
        } else {
            m.neg()
        }
    }

    pub fn is_invertible(&self) -> (r: bool)
        requires
            self.is_square(self.i_dim as nat),
        ensures
            r == (grid_det(self.cells()).raw != 0),
    {
        self.determinant().raw != 0
    }

    /// The matrix of all cofactors.
    pub fn cofactor_matrix(&self) -> (r: Matrix)
        requires
            self.is_square(self.i_dim as nat),
        ensures
            r.is_square(self.i_dim as nat),
            forall|i: int, j: int|
                0 <= i < self.i_dim && 0 <= j < self.i_dim ==> #[trigger] r.cells()[i][j]
                    == grid_cofactor(self.cells(), i, j),
    {
        let n = self.i_dim;
        let mut values: Vec<Vec<Fx>> = Vec::new();
        let mut i: usize = 0;
        while i < n
            invariant
                self.is_square(n as nat),
                n == self.i_dim,
                i <= n,
                values@.len() == i,
                forall|k: int| 0 <= k < i ==> (#[trigger] values@[k])@.len() == n,
                forall|k: int, l: int|
                    0 <= k < i && 0 <= l < n ==> #[trigger] values@[k]@[l] == grid_cofactor(self.cells(), k, l),
            decreases n - i,
        {
            let mut row: Vec<Fx> = Vec::new();
            let mut j: usize = 0;
            while j < n
                invariant
                    self.is_square(n as nat),
                    n == self.i_dim,
                    i < n,
                    j <= n,
                    row@.len() == j,
                    forall|l: int| 0 <= l < j ==> #[trigger] row@[l] == grid_cofactor(self.cells(), i as int, l),
                decreases n - j,
            {
                row.push(self.cofactor(i, j));
                j = j + 1;
            }
            values.push(row);
            i = i + 1;
        }
        let r = Matrix { values, i_dim: n, j_dim: n };
        assert forall|i: int, j: int| 0 <= i < n && 0 <= j < n implies #[trigger] r.cells()[i][j]
            == grid_cofactor(self.cells(), i, j) by {
            assert(r.cells()[i] == values@[i]@);
        }
        r
    }

    /// Every cell divided by `scalar`.
    pub fn divide_by_scalar(&self, scalar: Fx) -> (r: Matrix)
        requires
            self.wf(),
            scalar.raw != 0,
        ensures
            r.wf(),
            r.i_dim == self.i_dim,
            r.j_dim == self.j_dim,
            forall|i: int, j: int|
                0 <= i < self.i_dim && 0 <= j < self.j_dim ==> #[trigger] r.cells()[i][j]
                    == fx_div(self.cells()[i][j], scalar),
    {
        let mut values: Vec<Vec<Fx>> = Vec::new();
        let mut i: usize = 0;
        while i < self.i_dim
            invariant
                self.wf(),
                scalar.raw != 0,
                i <= self.i_dim,
                values@.len() == i,
                forall|k: int| 0 <= k < i ==> (#[trigger] values@[k])@.len() == self.j_dim,
                forall|k: int, l: int|
                    0 <= k < i && 0 <= l < self.j_dim ==> #[trigger] values@[k]@[l]
                        == fx_div(self.cells()[k][l], scalar),
            decreases self.i_dim - i,
        {
            let mut row: Vec<Fx> = Vec::new();
            let mut j: usize = 0;
            while j < self.j_dim
                invariant
                    self.wf(),
                    scalar.raw != 0,
                    i < self.i_dim,
                    j <= self.j_dim,
                    row@.len() == j,
                    forall|l: int| 0 <= l < j ==> #[trigger] row@[l] == fx_div(self.cells()[i as int][l], scalar),
                decreases self.j_dim - j,
            {
                row.push(self.get(i, j).div(scalar));
                j = j + 1;
            }
            values.push(row);
            i = i + 1;
        }
        let r = Matrix { values, i_dim: self.i_dim, j_dim: self.j_dim };
        assert forall|i: int, j: int| 0 <= i < self.i_dim && 0 <= j < self.j_dim implies #[trigger] r.cells()[i][j]
            == fx_div(self.cells()[i][j], scalar) by {
            assert(r.cells()[i] == values@[i]@);
        }
        r
    }

    /// The inverse: the transposed cofactor matrix divided by the determinant.
    /// A matrix whose determinant is zero has none.
    pub fn inverse(&self) -> (r: Matrix)
        requires
            self.is_square(self.i_dim as nat),
            grid_det(self.cells()).raw != 0,
        ensures
            r.is_square(self.i_dim as nat),
            r.cells() == grid_inverse(self.cells()),
    {
        let det = self.determinant();
        let cofactors = self.cofactor_matrix();
        let adjugate = cofactors.transpose();
        let r = adjugate.divide_by_scalar(det);
        assert(r.cells() =~~= grid_inverse(self.cells()));
        r
    }
}

/// A 4-by-4 matrix times a tuple taken as a column.
pub fn mul_matrix_pointvector(m: &Matrix, p: &PointVector) -> (r: PointVector)
    requires
        m.is_square(4),
    ensures
        r == grid_apply(m.cells(), *p),
{
    let x = m.get(0, 0).mul(p.x).add(m.get(0, 1).mul(p.y)).add(m.get(0, 2).mul(p.z)).add(m.get(0, 3).mul(p.w));
    let y = m.get(1, 0).mul(p.x).add(m.get(1, 1).mul(p.y)).add(m.get(1, 2).mul(p.z)).add(m.get(1, 3).mul(p.w));
    let z = m.get(2, 0).mul(p.x).add(m.get(2, 1).mul(p.y)).add(m.get(2, 2).mul(p.z)).add(m.get(2, 3).mul(p.w));
    let w = m.get(3, 0).mul(p.x).add(m.get(3, 1).mul(p.y)).add(m.get(3, 2).mul(p.z)).add(m.get(3, 3).mul(p.w));
    PointVector::new(x, y, z, w)
}

impl PartialEq for Matrix {
    fn eq(&self, other: &Self) -> (r: bool) {
        if self.i_dim != other.i_dim || self.j_dim != other.j_dim {
            return false;
        }
        if self.values.len() != other.values.len() {
            return false;
        }
        let mut i: usize = 0;
        while i < self.values.len()
            invariant
                self.i_dim == other.i_dim && self.j_dim == other.j_dim,
                self.values@.len() == other.values@.len(),
                i <= self.values@.len(),
                forall|k: int| 0 <= k < i ==> (#[trigger] self.cells()[k]).len() == other.cells()[k].len(),
                forall|k: int, l: int|
                    0 <= k < i && 0 <= l < self.cells()[k].len() ==> fx_close(
                        #[trigger] self.cells()[k][l],
                        other.cells()[k][l],
                    ),
            decreases self.values@.len() - i,
        {
            let row = &self.values[i];
            let other_row = &other.values[i];
            if row.len() != other_row.len() {
                assert(self.cells()[i as int].len() != other.cells()[i as int].len());
                return false;
            }
            let mut j: usize = 0;
            while j < row.len()
                invariant
                    self.values@.len() == other.values@.len(),
                    i < self.values@.len(),
                    *row == self.values@[i as int],
                    *other_row == other.values@[i as int],
                    row@.len() == other_row@.len(),
                    j <= row@.len(),
                    forall|l: int| 0 <= l < j ==> fx_close(#[trigger] row@[l], other_row@[l]),
                decreases row@.len() - j,
            {
                if !compare_float(&row[j], &other_row[j]) {
                    assert(!fx_close(self.cells()[i as int][j as int], other.cells()[i as int][j as int]));
                    return false;
                }
                j = j + 1;
            }
            assert forall|l: int| 0 <= l < self.cells()[i as int].len() implies fx_close(
                #[trigger] self.cells()[i as int][l],
                other.cells()[i as int][l],
            ) by {
                assert(self.cells()[i as int] == row@);
                assert(other.cells()[i as int] == other_row@);
            }
            i = i + 1;
        }
        true
    }
}

impl vstd::std_specs::cmp::PartialEqSpecImpl for Matrix {
    open spec fn obeys_eq_spec() -> bool {
        true
    }

    /// Same dimensions, and every cell within the tolerance.
    open spec fn eq_spec(&self, other: &Matrix) -> bool {
        &&& self.i_dim == other.i_dim
        &&& self.j_dim == other.j_dim
        &&& self.values@.len() == other.values@.len()
        &&& grid_close(self.cells(), other.cells())
    }
}

} // verus!
